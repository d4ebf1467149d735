//! What a suggested flow is, in terms of what it was suggested from.
use vstd::prelude::*;

use crate::text::trimmed;

use super::model::{ContractCompletion, NodeDriver, ResourceKind};
use super::suggest::{
    candidate, is_alphanumeric, is_first_free, is_slug, is_slug_char,
    lemma_taken_names_are_numbered, lower, next_id, raw_slug, slug, suggested, suggested_prompt,
    suggested_schema, unique_ids, SuggestView,
};

verus! {

broadcast use vstd::string::group_string_axioms;

/// The prompt of a suggested node holds the goal character for character, without the white space
/// around it, behind the words that name the node; a full stop follows it only where it does not
/// end in a mark of its own. Behind that the artifact of the node is named. Told is the place of
/// the prompt among the resources.
pub proof fn lemma_suggested_prompts_hold_the_goal(input: SuggestView, i: int) -> (p: int)
    requires
        0 <= i < suggested(input).nodes.len(),
    ensures
        0 <= p < suggested(input).resources.len(),
        suggested(input).nodes[i].action is Some,
        suggested(input).nodes[i].action->0.prompt_ref == Some(suggested(input).resources[p].id),
        suggested(input).resources[p].kind == ResourceKind::Prompt,
        ({
            let goal = trimmed(input.goal);
            let marked = goal.len() > 0 && (goal[goal.len() - 1] == '.' || goal[goal.len() - 1]
                == '!' || goal[goal.len() - 1] == '?');
            suggested(input).resources[p].source == "Run node "@ + suggested(input).nodes[i].id
                + " for goal: "@ + goal + (if marked { Seq::<char>::empty() } else { "."@ })
                + " Deliver artifact with artifact_key \""@ + suggested(
                input,
            ).contracts[i].artifacts[0].id + "\"."@
        }),
{
    let ids = input.node_ids();
    let n = ids.len() as int;
    let d = suggested(input);
    let p = 1 + n + i;
    assert(d.resources[p] == suggested_prompt(ids[i], input.closed_goal(), input.artifact_key()));
    let goal = trimmed(input.goal);
    let front = "Run node "@ + ids[i] + " for goal: "@;
    assert(front + (goal + "."@) =~= front + goal + "."@);
    assert(front + goal + Seq::<char>::empty() =~= front + goal);
    p
}

/// Every prompt of a suggested flow is the prompt of one of its nodes.
pub proof fn lemma_suggested_prompts_are_of_nodes(input: SuggestView, p: int) -> (i: int)
    requires
        0 <= p < suggested(input).resources.len(),
        suggested(input).resources[p].kind == ResourceKind::Prompt,
    ensures
        0 <= i < suggested(input).nodes.len(),
        suggested(input).nodes[i].action is Some,
        suggested(input).nodes[i].action->0.prompt_ref == Some(suggested(input).resources[p].id),
{
    let n = input.node_ids().len() as int;
    assert(p >= 1 + n) by {
        if 1 <= p < 1 + n {
            assert(suggested(input).resources[p] == suggested_schema(
                input.node_ids()[p - 1],
                input.artifact_key(),
            ));
        }
    }
    p - 1 - n
}

/// A suggested node is carried out by an agent that is given the readme; it owes one artifact
/// under a contract of its own, writes that artifact and no other, and the schema of the artifact
/// is a resource of the flow. No route leads anywhere. Told is the place of the schema.
pub proof fn lemma_suggested_nodes_deliver(input: SuggestView, i: int) -> (s: int)
    requires
        0 <= i < suggested(input).nodes.len(),
    ensures
        suggested(input).routes.len() == 0,
        suggested(input).nodes.len() == (if input.nodes.len() == 0 {
            1
        } else {
            input.nodes.len()
        }),
        suggested(input).contracts.len() == suggested(input).nodes.len(),
        suggested(input).nodes[i].contract_id == Some(suggested(input).contracts[i].id),
        suggested(input).contracts[i].completion == Some(ContractCompletion::AllArtifacts),
        suggested(input).contracts[i].artifacts.len() == 1,
        suggested(input).nodes[i].action is Some,
        suggested(input).nodes[i].action->0.driver == NodeDriver::Agent,
        suggested(input).nodes[i].action->0.resource_refs == seq!["README.md"@],
        suggested(input).nodes[i].action->0.writes == seq![
            "artifact."@ + suggested(input).contracts[i].artifacts[0].id,
        ],
        suggested(input).nodes[i].action->0.reads.len() == 0,
        0 <= s < suggested(input).resources.len(),
        suggested(input).resources[s].kind == ResourceKind::Schema,
        suggested(input).contracts[i].artifacts[0].schema_resource_id == Some(
            suggested(input).resources[s].id,
        ),
        suggested(input).resources[0].id == "README.md"@,
        suggested(input).resources[0].kind == ResourceKind::Readme,
        suggested(input).resources[0].source == input.readme,
{
    let ids = input.node_ids();
    lemma_ids_count(input.node_names(), "node"@, input.node_names().len() as int);
    let s = 1 + i;
    assert(suggested(input).resources[s] == suggested_schema(ids[i], input.artifact_key()));
    s
}

proof fn lemma_ids_count(values: Seq<Seq<char>>, fallback: Seq<char>, n: int)
    requires
        0 <= n,
    ensures
        unique_ids(values, fallback, n).len() == n,
    decreases n,
{
    if n > 0 {
        lemma_ids_count(values, fallback, n - 1);
    }
}

proof fn lemma_prefix_slug_stays(s: Seq<char>, n: int)
    requires
        is_slug(s),
        0 <= n <= s.len(),
    ensures
        raw_slug(s.take(n)) == s.take(n),
    decreases n,
{
    if n > 0 {
        lemma_prefix_slug_stays(s, n - 1);
        assert(s.take(n).drop_last() =~= s.take(n - 1));
        assert(s.take(n).last() == s[n - 1]);
        assert(is_slug_char(s[n - 1]));
        assert(s.take(n) =~= s.take(n - 1).push(s[n - 1]));
        if n > 1 {
            assert(s.take(n - 1).last() == s[n - 2]);
        }
    } else {
        assert(s.take(0) =~= Seq::<char>::empty());
        assert(raw_slug(s.take(0)) =~= s.take(0));
    }
}

/// A text that is an identifier already stays as it is.
pub proof fn lemma_slugs_stay(s: Seq<char>, fallback: Seq<char>)
    requires
        is_slug(s),
    ensures
        slug(s, fallback) == s,
{
    assert(is_slug_char(s[0]));
    assert(is_slug_char(s[s.len() - 1]));
    assert(trimmed(s) == s);
    lemma_prefix_slug_stays(s, s.len() as int);
    assert(s.take(s.len() as int) =~= s);
}

/// An identifier keeps all letters and digits of the text that it is made from, in their order and
/// in lower case, and no others.
pub proof fn lemma_slugs_keep_letters_and_digits(s: Seq<char>)
    ensures
        raw_slug(s).filter(|c: char| c != '_') == s.filter(
            |c: char| 'a' <= c <= 'z' || 'A' <= c <= 'Z' || '0' <= c <= '9',
        ).map_values(
            |c: char| if 'A' <= c <= 'Z' { (c as u32 + 32) as char } else { c },
        ),
    decreases s.len(),
{
    reveal(Seq::filter);
    let kept = |c: char| 'a' <= c <= 'z' || 'A' <= c <= 'Z' || '0' <= c <= '9';
    let small = |c: char| if 'A' <= c <= 'Z' { (c as u32 + 32) as char } else { c };
    let plain = |c: char| c != '_';
    if s.len() > 0 {
        let front = s.drop_last();
        lemma_slugs_keep_letters_and_digits(front);
        let all = raw_slug(s);
        if is_alphanumeric(s.last()) {
            assert(all.drop_last() =~= raw_slug(front));
            assert(all.last() == lower(s.last()));
            assert(all.last() != '_');
            assert(s.filter(kept) == front.filter(kept).push(s.last()));
            assert(s.filter(kept).map_values(small) =~= front.filter(kept).map_values(small).push(
                lower(s.last()),
            ));
        } else {
            assert(s.filter(kept) == front.filter(kept));
            if raw_slug(front).len() > 0 && raw_slug(front).last() != '_' {
                assert(all.drop_last() =~= raw_slug(front));
                assert(all.last() == '_');
            }
        }
    } else {
        assert(raw_slug(s).filter(plain) =~= s.filter(kept).map_values(small));
    }
}

proof fn lemma_first_candidate(base: Seq<char>, used: Seq<Seq<char>>)
    requires
        !used.contains(base),
    ensures
        next_id(base, used) == base,
{
    assert(candidate(base, 1) == base);
    assert(is_first_free(base, used, 1));
    let count = choose|count: nat| is_first_free(base, used, count);
    assert(is_first_free(base, used, count));
    if count > 1 {
        assert(used.contains(candidate(base, 1)));
    }
}

proof fn lemma_good_names_stay(names: Seq<Seq<char>>, fallback: Seq<char>, n: int)
    requires
        0 <= n <= names.len(),
        forall|i: int| 0 <= i < names.len() ==> is_slug(#[trigger] names[i]),
        names.no_duplicates(),
    ensures
        unique_ids(names, fallback, n) == names.take(n),
    decreases n,
{
    if n > 0 {
        lemma_good_names_stay(names, fallback, n - 1);
        lemma_slugs_stay(names[n - 1], fallback);
        let used = names.take(n - 1);
        assert(!used.contains(names[n - 1]));
        lemma_first_candidate(names[n - 1], used);
        assert(names.take(n) =~= used.push(names[n - 1]));
    } else {
        assert(names.take(0) =~= Seq::<Seq<char>>::empty());
    }
}

/// Nodes are named as they were asked for, where the names are identifiers and differ, and so is
/// their artifact.
pub proof fn lemma_good_names_are_kept(input: SuggestView, i: int)
    requires
        forall|i: int| 0 <= i < input.nodes.len() ==> is_slug(#[trigger] input.nodes[i]),
        input.nodes.no_duplicates(),
        0 <= i < input.nodes.len(),
    ensures
        suggested(input).nodes.len() == input.nodes.len(),
        suggested(input).nodes[i].id == input.nodes[i],
        input.artifact matches Some(name) ==> (is_slug(name) ==> suggested(
            input,
        ).contracts[i].artifacts[0].id == name),
{
    lemma_good_names_stay(input.nodes, "node"@, input.nodes.len() as int);
    assert(input.nodes.take(input.nodes.len() as int) =~= input.nodes);
    match input.artifact {
        Some(name) => {
            if is_slug(name) {
                lemma_slugs_stay(name, "result"@);
            }
        },
        None => {},
    }
}

proof fn lemma_signs_make_no_slug(s: Seq<char>)
    requires
        forall|i: int|
            0 <= i < s.len() ==> !('a' <= #[trigger] s[i] <= 'z') && !('A' <= s[i] <= 'Z') && !('0'
                <= s[i] <= '9'),
    ensures
        raw_slug(s).len() == 0,
    decreases s.len(),
{
    if s.len() > 0 {
        let front = s.drop_last();
        assert forall|i: int| 0 <= i < front.len() implies !('a' <= #[trigger] front[i] <= 'z')
            && !('A' <= front[i] <= 'Z') && !('0' <= front[i] <= '9') by {
            assert(front[i] == s[i]);
        }
        lemma_signs_make_no_slug(front);
        assert(s.last() == s[s.len() - 1]);
    }
}

/// A name without a letter or a digit in it is the fallback.
pub proof fn lemma_names_of_signs_fall_back(s: Seq<char>, fallback: Seq<char>)
    requires
        forall|i: int|
            0 <= i < trimmed(s).len() ==> !('a' <= #[trigger] trimmed(s)[i] <= 'z') && !('A'
                <= trimmed(s)[i] <= 'Z') && !('0' <= trimmed(s)[i] <= '9'),
    ensures
        slug(s, fallback) == fallback,
{
    lemma_signs_make_no_slug(trimmed(s));
}

/// A flow without named nodes has one root, and an artifact without a name is the result.
pub proof fn lemma_unnamed_parts_have_usual_names(input: SuggestView, i: int)
    requires
        0 <= i < suggested(input).nodes.len(),
    ensures
        input.nodes.len() == 0 ==> suggested(input).nodes.len() == 1 && suggested(
            input,
        ).nodes[0].id == "root"@,
        input.artifact is None ==> suggested(input).contracts[i].artifacts[0].id == "result"@,
{
    if input.nodes.len() == 0 {
        reveal_strlit("root");
        let root = "root"@;
        assert(root.len() == 4);
        assert(is_slug(root));
        lemma_slugs_stay(root, "node"@);
        assert(!Seq::<Seq<char>>::empty().contains(root));
        lemma_taken_names_are_numbered(root, Seq::empty());
        reveal_with_fuel(unique_ids, 2);
        assert(input.node_ids()[0] == root);
    }
}

} // verus!
