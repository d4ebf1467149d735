//! A first draft of a flow from a goal.
use vstd::prelude::*;

use crate::number::{decimal, decimal_text, lemma_decimal_injective};
use crate::text::{
    blank, cat2, cat3, cat4, cat5, char_vec, contains_text, from_chars, is_blank, same, trim,
    trimmed,
};

use super::model::{
    ContractArtifact, ContractArtifactView, ContractCompletion, FlowContract, FlowContractView,
    FlowDraft, FlowDraftView, FlowNode, FlowNodeView, FlowPoliciesView, FlowResource,
    FlowResourceView, NodeAction, NodeActionView, NodeDriver, ResourceKind,
};

verus! {

broadcast use vstd::string::group_string_axioms;

/// What a draft is suggested from.
#[derive(Debug, PartialEq, Eq)]
pub struct FlowSuggestInput {
    pub goal: String,
    pub readme: String,
    pub nodes: Vec<String>,
    pub artifact: Option<String>,
}

/// Why no draft is suggested.
#[derive(Debug, PartialEq, Eq)]
pub struct FlowSuggestError {
    message: String,
}

impl DeepView for FlowSuggestError {
    type V = Seq<char>;

    closed spec fn deep_view(&self) -> Seq<char> {
        self.message@
    }
}

impl FlowSuggestError {
    pub fn message(&self) -> (r: &str)
        ensures
            r@ == self.deep_view(),
    {
        self.message.as_str()
    }
}

/// A letter or digit of ASCII.
pub open spec fn is_alphanumeric(c: char) -> bool {
    ||| 'a' <= c <= 'z'
    ||| 'A' <= c <= 'Z'
    ||| '0' <= c <= '9'
}

/// A letter of ASCII in lower case; any other character as it is.
pub open spec fn lower(c: char) -> char {
    if 'A' <= c <= 'Z' {
        (c as u32 + 32) as char
    } else {
        c
    }
}

pub fn alphanumeric(c: char) -> (r: bool)
    ensures
        r == is_alphanumeric(c),
{
    ('a' <= c && c <= 'z') || ('A' <= c && c <= 'Z') || ('0' <= c && c <= '9')
}

pub fn lower_char(c: char) -> (r: char)
    ensures
        r == lower(c),
{
    if 'A' <= c && c <= 'Z' {
        (c as u8 + 32) as char
    } else {
        c
    }
}

/// Letters and digits in lower case, with one underscore for each run of other
/// characters behind the first letter or digit.
pub open spec fn raw_slug(s: Seq<char>) -> Seq<char>
    decreases s.len(),
{
    if s.len() == 0 {
        Seq::empty()
    } else {
        let front = raw_slug(s.drop_last());
        if is_alphanumeric(s.last()) {
            front.push(lower(s.last()))
        } else if front.len() > 0 && front.last() != '_' {
            front.push('_')
        } else {
            front
        }
    }
}

/// A slug without the underscore at its end.
pub open spec fn closed_slug(s: Seq<char>) -> Seq<char> {
    let raw = raw_slug(trimmed(s));
    if raw.len() > 0 && raw.last() == '_' {
        raw.drop_last()
    } else {
        raw
    }
}

/// The identifier made of a text, or the fallback where nothing is left of it.
pub open spec fn slug(s: Seq<char>, fallback: Seq<char>) -> Seq<char> {
    if closed_slug(s).len() == 0 {
        fallback
    } else {
        closed_slug(s)
    }
}

/// A character of a slug.
pub open spec fn is_slug_char(c: char) -> bool {
    ||| 'a' <= c <= 'z'
    ||| '0' <= c <= '9'
    ||| c == '_'
}

/// Whether a text is a slug: slug characters, with no underscore at either end and
/// none beside another.
pub open spec fn is_slug(s: Seq<char>) -> bool {
    &&& s.len() > 0
    &&& s[0] != '_'
    &&& s.last() != '_'
    &&& forall|i: int| 0 <= i < s.len() ==> is_slug_char(#[trigger] s[i])
    &&& forall|i: int| 0 < i < s.len() && s[i - 1] == '_' ==> #[trigger] s[i] != '_'
}

pub proof fn lemma_raw_slug(s: Seq<char>)
    ensures
        forall|i: int| 0 <= i < raw_slug(s).len() ==> is_slug_char(#[trigger] raw_slug(s)[i]),
        raw_slug(s).len() > 0 ==> raw_slug(s)[0] != '_',
        forall|i: int|
            0 < i < raw_slug(s).len() && raw_slug(s)[i - 1] == '_' ==> #[trigger] raw_slug(s)[i]
                != '_',
    decreases s.len(),
{
    if s.len() > 0 {
        lemma_raw_slug(s.drop_last());
        let front = raw_slug(s.drop_last());
        let all = raw_slug(s);
        assert forall|i: int| 0 <= i < all.len() implies is_slug_char(#[trigger] all[i]) by {
            if i < front.len() {
                assert(all[i] == front[i]);
            }
        }
        assert forall|i: int| 0 < i < all.len() && all[i - 1] == '_' implies #[trigger] all[i]
            != '_' by {
            if i < front.len() {
                assert(front[i - 1] == '_' ==> front[i] != '_');
            }
        }
    }
}

/// What is left of a text is a slug.
pub proof fn lemma_slug(s: Seq<char>, fallback: Seq<char>)
    requires
        is_slug(fallback),
    ensures
        is_slug(slug(s, fallback)),
{
    let raw = raw_slug(trimmed(s));
    lemma_raw_slug(trimmed(s));
    let closed = closed_slug(s);
    if closed.len() > 0 {
        assert forall|i: int| 0 <= i < closed.len() implies is_slug_char(#[trigger] closed[i]) by {
            assert(closed[i] == raw[i]);
        }
        assert forall|i: int| 0 < i < closed.len() && closed[i - 1] == '_' implies
            #[trigger] closed[i] != '_' by {
            assert(raw[i - 1] == '_' ==> raw[i] != '_');
        }
        if closed.last() == '_' {
            assert(raw[closed.len() - 1] == '_');
            assert(raw[closed.len() as int] != '_');
        }
    }
}

fn slug_ascii_id(value: &str, fallback: &str) -> (r: String)
    ensures
        r@ == slug(value@, fallback@),
{
    let text = trim(value);
    let chars = char_vec(text);
    let mut out: Vec<char> = Vec::new();
    let mut i: usize = 0;
    assert(out@ =~= raw_slug(text@.take(0)));
    while i < chars.len()
        invariant
            i <= chars.len(),
            chars@ == text@,
            out@ == raw_slug(text@.take(i as int)),
        decreases chars.len() - i,
    {
        let c = chars[i];
        assert(text@.take(i + 1).drop_last() =~= text@.take(i as int));
        assert(text@.take(i + 1).last() == c);
        if alphanumeric(c) {
            out.push(lower_char(c));
        } else if out.len() > 0 && out[out.len() - 1] != '_' {
            out.push('_');
        }
        i += 1;
    }
    assert(text@.take(i as int) =~= text@);
    if out.len() > 0 && out[out.len() - 1] == '_' {
        let ghost raw = out@;
        out.truncate(out.len() - 1);
        assert(out@ =~= raw.drop_last());
    }
    if out.len() == 0 {
        fallback.to_string()
    } else {
        from_chars(out.as_slice())
    }
}

/// The `count`th identifier for a base: the base itself, then the base with a number.
pub open spec fn candidate(base: Seq<char>, count: nat) -> Seq<char> {
    if count == 1 {
        base
    } else {
        base + "_"@ + decimal(count)
    }
}

/// Whether `count` is the first whose identifier is free.
pub open spec fn is_first_free(base: Seq<char>, used: Seq<Seq<char>>, count: nat) -> bool {
    &&& count >= 1
    &&& !used.contains(candidate(base, count))
    &&& forall|k: nat| 1 <= k < count ==> used.contains(#[trigger] candidate(base, k))
}

/// The first free identifier for a base.
pub open spec fn next_id(base: Seq<char>, used: Seq<Seq<char>>) -> Seq<char> {
    candidate(base, choose|count: nat| is_first_free(base, used, count))
}

/// Identifiers for the first `n` texts, each the first that is free.
pub open spec fn unique_ids(values: Seq<Seq<char>>, fallback: Seq<char>, n: int) -> Seq<Seq<char>>
    decreases n,
{
    if n <= 0 {
        Seq::empty()
    } else {
        let used = unique_ids(values, fallback, n - 1);
        used.push(next_id(slug(values[n - 1], fallback), used))
    }
}

proof fn lemma_candidates_differ(base: Seq<char>, a: nat, b: nat)
    requires
        1 <= a < b,
    ensures
        candidate(base, a) != candidate(base, b),
{
    reveal_strlit("_");
    let y = candidate(base, b);
    if a == 1 {
        assert(y.len() > base.len());
    } else {
        let x = candidate(base, a);
        if x == y {
            let k = base.len() as int + 1;
            assert(x.skip(k) =~= decimal(a));
            assert(y.skip(k) =~= decimal(b));
            lemma_decimal_injective(a, b);
        }
    }
}

proof fn lemma_some_candidate_is_free(base: Seq<char>, used: Seq<Seq<char>>, count: nat)
    requires
        forall|k: nat| 1 <= k <= count ==> used.contains(#[trigger] candidate(base, k)),
    ensures
        count <= used.len(),
{
    let tried = Seq::new(count, |i: int| candidate(base, (i + 1) as nat));
    assert(tried.no_duplicates()) by {
        assert forall|i: int, j: int| 0 <= i < j < tried.len() implies tried[i] != tried[j] by {
            lemma_candidates_differ(base, (i + 1) as nat, (j + 1) as nat);
        }
    }
    tried.unique_seq_to_set();
    assert(tried.to_set().subset_of(used.to_set())) by {
        assert forall|x: Seq<char>| tried.to_set().contains(x) implies used.to_set().contains(
            x,
        ) by {
            assert(tried.contains(x));
            let i = choose|i: int| 0 <= i < tried.len() && tried[i] == x;
            assert(used.contains(candidate(base, (i + 1) as nat)));
        }
    }
    vstd::set_lib::lemma_len_subset(tried.to_set(), used.to_set());
    used.lemma_cardinality_of_set();
}

proof fn lemma_first_free_is_unique(base: Seq<char>, used: Seq<Seq<char>>, a: nat, b: nat)
    requires
        is_first_free(base, used, a),
        is_first_free(base, used, b),
    ensures
        a == b,
{
    if a < b {
        assert(used.contains(candidate(base, a)));
    } else if b < a {
        assert(used.contains(candidate(base, b)));
    }
}

proof fn lemma_next_id(base: Seq<char>, used: Seq<Seq<char>>, count: nat)
    requires
        is_first_free(base, used, count),
    ensures
        next_id(base, used) == candidate(base, count),
{
    let chosen = choose|k: nat| is_first_free(base, used, k);
    assert(is_first_free(base, used, chosen));
    lemma_first_free_is_unique(base, used, chosen, count);
}

fn candidate_id(base: &str, count: u64) -> (r: String)
    ensures
        r@ == candidate(base@, count as nat),
{
    if count == 1 {
        base.to_string()
    } else {
        cat3(base, "_", decimal_text(count).as_str())
    }
}

fn free_id(base: &str, used: &Vec<String>) -> (r: String)
    requires
        used.len() < usize::MAX,
    ensures
        r@ == next_id(base@, used.deep_view()),
        !used.deep_view().contains(r@),
{
    let ghost taken = used.deep_view();
    let listed = used.as_slice();
    assert(listed.deep_view() =~= taken);
    let mut count: u64 = 1;
    loop
        invariant
            1 <= count,
            count <= used.len() + 1,
            used.len() < usize::MAX,
            taken == used.deep_view(),
            listed.deep_view() == taken,
            forall|k: nat| 1 <= k < count ==> taken.contains(#[trigger] candidate(base@, k)),
        decreases used.len() + 2 - count,
    {
        let id = candidate_id(base, count);
        if !contains_text(listed, id.as_str()) {
            proof {
                lemma_next_id(base@, taken, count as nat);
            }
            return id;
        }
        proof {
            assert forall|k: nat| 1 <= k <= count implies taken.contains(
                #[trigger] candidate(base@, k),
            ) by {
                if k == count {
                    assert(id@ == candidate(base@, k));
                }
            }
            lemma_some_candidate_is_free(base@, taken, count as nat);
        }
        count += 1;
    }
}

fn unique_ascii_ids(values: &Vec<String>, fallback: &str) -> (r: Vec<String>)
    ensures
        r.deep_view() == unique_ids(values.deep_view(), fallback@, values.len() as int),
{
    let mut out: Vec<String> = Vec::new();
    let ghost model = values.deep_view();
    let mut i: usize = 0;
    assert(out.deep_view() =~= unique_ids(model, fallback@, 0));
    while i < values.len()
        invariant
            i <= values.len(),
            model == values.deep_view(),
            out.len() == i,
            out.deep_view() == unique_ids(model, fallback@, i as int),
        decreases values.len() - i,
    {
        let ghost before = out.deep_view();
        assert(model[i as int] == values@[i as int]@);
        let base = slug_ascii_id(values[i].as_str(), fallback);
        let id = free_id(base.as_str(), &out);
        out.push(id);
        assert(out.deep_view() =~= before.push(id@));
        i += 1;
    }
    out
}

proof fn lemma_a_candidate_is_free(base: Seq<char>, used: Seq<Seq<char>>, count: nat)
    requires
        count <= used.len() + 1,
        count >= 1,
        forall|k: nat| 1 <= k < count ==> used.contains(#[trigger] candidate(base, k)),
    ensures
        exists|k: nat| is_first_free(base, used, k),
    decreases used.len() + 1 - count,
{
    if !used.contains(candidate(base, count)) {
        assert(is_first_free(base, used, count));
    } else {
        assert forall|k: nat| 1 <= k <= count implies used.contains(
            #[trigger] candidate(base, k),
        ) by {}
        lemma_some_candidate_is_free(base, used, count);
        lemma_a_candidate_is_free(base, used, count + 1);
    }
}

/// No two identifiers are the same.
pub proof fn lemma_unique_ids(values: Seq<Seq<char>>, fallback: Seq<char>, n: int)
    requires
        0 <= n,
    ensures
        unique_ids(values, fallback, n).len() == n,
        unique_ids(values, fallback, n).no_duplicates(),
    decreases n,
{
    if n > 0 {
        lemma_unique_ids(values, fallback, n - 1);
        let used = unique_ids(values, fallback, n - 1);
        let base = slug(values[n - 1], fallback);
        lemma_a_candidate_is_free(base, used, 1);
        let count = choose|k: nat| is_first_free(base, used, k);
        assert(is_first_free(base, used, count));
        let all = unique_ids(values, fallback, n);
        assert forall|i: int, j: int| 0 <= i < j < all.len() implies all[i] != all[j] by {
            if j == used.len() {
                assert(used[i] == all[i]);
                assert(used.contains(all[i]));
            }
        }
    }
}

/// A name that is free is kept; one that is taken is numbered, from two on, with the first number
/// that is free.
pub proof fn lemma_taken_names_are_numbered(base: Seq<char>, used: Seq<Seq<char>>)
    ensures
        !used.contains(base) ==> next_id(base, used) == base,
        used.contains(base) && !used.contains(base + "_"@ + decimal(2)) ==> next_id(base, used)
            == base + "_"@ + decimal(2),
        used.contains(base) && used.contains(base + "_"@ + decimal(2)) && !used.contains(
            base + "_"@ + decimal(3),
        ) ==> next_id(base, used) == base + "_"@ + decimal(3),
        !used.contains(next_id(base, used)),
{
    lemma_a_candidate_is_free(base, used, 1);
    let count = choose|k: nat| is_first_free(base, used, k);
    assert(is_first_free(base, used, count));
    assert(candidate(base, 1) == base);
    assert(candidate(base, 2) == base + "_"@ + decimal(2));
    assert(candidate(base, 3) == base + "_"@ + decimal(3));
    if count > 1 {
        assert(used.contains(candidate(base, 1)));
    }
    if count > 2 {
        assert(used.contains(candidate(base, 2)));
    }
    if count > 3 {
        assert(used.contains(candidate(base, 3)));
    }
}

/// The model of what a draft is suggested from.
#[verifier::ext_equal]
pub struct SuggestView {
    pub goal: Seq<char>,
    pub readme: Seq<char>,
    pub nodes: Seq<Seq<char>>,
    pub artifact: Option<Seq<char>>,
}

impl DeepView for FlowSuggestInput {
    type V = SuggestView;

    open spec fn deep_view(&self) -> SuggestView {
        SuggestView {
            goal: self.goal@,
            readme: self.readme@,
            nodes: self.nodes.deep_view(),
            artifact: self.artifact.deep_view(),
        }
    }
}

impl SuggestView {
    /// The key of the artifact that every node delivers.
    pub open spec fn artifact_key(self) -> Seq<char> {
        match self.artifact {
            Some(name) => slug(name, "result"@),
            None => "result"@,
        }
    }

    /// The texts that nodes are named after.
    pub open spec fn node_names(self) -> Seq<Seq<char>> {
        if self.nodes.len() == 0 {
            seq!["root"@]
        } else {
            self.nodes
        }
    }

    /// The ids of the nodes.
    pub open spec fn node_ids(self) -> Seq<Seq<char>> {
        unique_ids(self.node_names(), "node"@, self.node_names().len() as int)
    }

    /// The goal, closed by a full stop where it has no end mark of its own.
    pub open spec fn closed_goal(self) -> Seq<char> {
        let goal = trimmed(self.goal);
        if goal.len() > 0 && (goal.last() == '.' || goal.last() == '!' || goal.last() == '?') {
            goal
        } else {
            goal + "."@
        }
    }
}

pub open spec fn suggested_contract_id(id: Seq<char>) -> Seq<char> {
    "contract."@ + id
}

pub open spec fn suggested_prompt_path(id: Seq<char>) -> Seq<char> {
    "prompts/"@ + id + ".md"@
}

pub open spec fn suggested_schema_path(id: Seq<char>, artifact: Seq<char>) -> Seq<char> {
    "schemas/"@ + id + "/"@ + artifact + ".txt"@
}

pub open spec fn suggested_node(id: Seq<char>, artifact: Seq<char>) -> FlowNodeView {
    FlowNodeView {
        id,
        contract_id: Some(suggested_contract_id(id)),
        action: Some(
            NodeActionView {
                driver: NodeDriver::Agent,
                prompt_ref: Some(suggested_prompt_path(id)),
                resource_refs: seq!["README.md"@],
                reads: Seq::empty(),
                writes: seq!["artifact."@ + artifact],
                verdict_artifact: None,
            },
        ),
        write_scopes: Seq::empty(),
        extensions: Seq::empty(),
    }
}

pub open spec fn suggested_contract(id: Seq<char>, artifact: Seq<char>) -> FlowContractView {
    FlowContractView {
        id: suggested_contract_id(id),
        completion: Some(ContractCompletion::AllArtifacts),
        artifacts: seq![
            ContractArtifactView {
                id: artifact,
                schema_resource_id: Some(suggested_schema_path(id, artifact)),
            },
        ],
    }
}

pub open spec fn suggested_readme(readme: Seq<char>) -> FlowResourceView {
    FlowResourceView { id: "README.md"@, kind: ResourceKind::Readme, source: readme }
}

pub open spec fn suggested_schema(id: Seq<char>, artifact: Seq<char>) -> FlowResourceView {
    FlowResourceView {
        id: suggested_schema_path(id, artifact),
        kind: ResourceKind::Schema,
        source: artifact,
    }
}

pub open spec fn suggested_prompt(
    id: Seq<char>,
    closed_goal: Seq<char>,
    artifact: Seq<char>,
) -> FlowResourceView {
    FlowResourceView {
        id: suggested_prompt_path(id),
        kind: ResourceKind::Prompt,
        source: "Run node "@ + id + " for goal: "@ + closed_goal
            + " Deliver artifact with artifact_key \""@ + artifact + "\"."@,
    }
}

/// The draft suggested for an input: one agent node, contract, schema and prompt for
/// each id, and the given readme as it is.
pub open spec fn suggested(input: SuggestView) -> FlowDraftView {
    let ids = input.node_ids();
    let artifact = input.artifact_key();
    FlowDraftView {
        nodes: Seq::new(ids.len(), |i: int| suggested_node(ids[i], artifact)),
        contracts: Seq::new(ids.len(), |i: int| suggested_contract(ids[i], artifact)),
        routes: Seq::empty(),
        resources: seq![suggested_readme(input.readme)] + Seq::new(
            ids.len(),
            |i: int| suggested_schema(ids[i], artifact),
        ) + Seq::new(
            ids.len(),
            |i: int| suggested_prompt(ids[i], input.closed_goal(), artifact),
        ),
        imports: Seq::empty(),
        policies: FlowPoliciesView::none(),
        extensions: Seq::empty(),
    }
}

fn one_text(text: String) -> (r: Vec<String>)
    ensures
        r.deep_view() == seq![text@],
{
    let mut out: Vec<String> = Vec::new();
    out.push(text);
    assert(out.deep_view() =~= seq![text@]);
    out
}

fn schema_path(id: &str, artifact: &str) -> (r: String)
    ensures
        r@ == suggested_schema_path(id@, artifact@),
{
    cat5("schemas/", id, "/", artifact, ".txt")
}

fn prompt_path(id: &str) -> (r: String)
    ensures
        r@ == suggested_prompt_path(id@),
{
    cat3("prompts/", id, ".md")
}

fn make_node(id: &str, artifact: &str) -> (r: FlowNode)
    ensures
        r.deep_view() == suggested_node(id@, artifact@),
{
    let reads: Vec<String> = Vec::new();
    let write_scopes = Vec::new();
    let extensions: Vec<String> = Vec::new();
    let r = FlowNode {
        id: id.to_string(),
        contract_id: Some(cat2("contract.", id)),
        action: Some(
            NodeAction {
                driver: NodeDriver::Agent,
                prompt_ref: Some(prompt_path(id)),
                resource_refs: one_text("README.md".to_string()),
                reads,
                writes: one_text(cat2("artifact.", artifact)),
                verdict_artifact: None,
            },
        ),
        write_scopes,
        extensions,
    };
    assert(reads.deep_view() =~= Seq::empty());
    assert(r.write_scopes.deep_view() =~= Seq::empty());
    assert(extensions.deep_view() =~= Seq::empty());
    r
}

fn make_contract(id: &str, artifact: &str) -> (r: FlowContract)
    ensures
        r.deep_view() == suggested_contract(id@, artifact@),
{
    let mut artifacts: Vec<ContractArtifact> = Vec::new();
    artifacts.push(
        ContractArtifact {
            id: artifact.to_string(),
            schema_resource_id: Some(schema_path(id, artifact)),
        },
    );
    let r = FlowContract {
        id: cat2("contract.", id),
        completion: Some(ContractCompletion::AllArtifacts),
        artifacts,
    };
    assert(r.artifacts.deep_view() =~= suggested_contract(id@, artifact@).artifacts);
    r
}

fn make_prompt(id: &str, closed_goal: &str, artifact: &str) -> (r: FlowResource)
    ensures
        r.deep_view() == suggested_prompt(id@, closed_goal@, artifact@),
{
    let mut source = cat4("Run node ", id, " for goal: ", closed_goal);
    source.push_str(" Deliver artifact with artifact_key \"");
    source.push_str(artifact);
    source.push_str("\".");
    FlowResource { id: prompt_path(id), kind: ResourceKind::Prompt, source }
}

fn close_goal(goal: &str) -> (r: String)
    ensures
        r@ == (SuggestView {
            goal: goal@,
            readme: Seq::empty(),
            nodes: Seq::empty(),
            artifact: None,
        }).closed_goal(),
{
    let goal = trim(goal);
    let n: usize = goal.unicode_len();
    if n > 0 {
        let last = goal.get_char(n - 1);
        if last == '.' || last == '!' || last == '?' {
            return goal.to_string();
        }
    }
    cat2(goal, ".")
}

/// Suggests a draft for a goal. The readme is taken as it is.
pub fn flow_suggest(input: FlowSuggestInput) -> (r: Result<FlowDraft, FlowSuggestError>)
    ensures
        r is Ok <==> !is_blank(input.deep_view().goal) && !is_blank(input.deep_view().readme),
        r matches Ok(draft) ==> draft.deep_view() == suggested(input.deep_view()),
        r matches Err(error) ==> error.deep_view() == (if is_blank(input.deep_view().goal) {
            "goal must not be blank"@
        } else {
            "readme must not be blank"@
        }),
{
    let ghost model = input.deep_view();
    if blank(input.goal.as_str()) {
        return Err(FlowSuggestError { message: "goal must not be blank".to_string() });
    }
    if blank(input.readme.as_str()) {
        return Err(FlowSuggestError { message: "readme must not be blank".to_string() });
    }
    let artifact = match &input.artifact {
        Some(name) => slug_ascii_id(name.as_str(), "result"),
        None => "result".to_string(),
    };
    let closed_goal = close_goal(input.goal.as_str());
    let raw_nodes = if input.nodes.len() == 0 {
        one_text("root".to_string())
    } else {
        input.nodes
    };
    let ids = unique_ascii_ids(&raw_nodes, "node");
    let ghost names = ids.deep_view();
    assert(names == model.node_ids());
    let mut nodes: Vec<FlowNode> = Vec::new();
    let mut contracts: Vec<FlowContract> = Vec::new();
    let mut schemas: Vec<FlowResource> = Vec::new();
    let mut prompts: Vec<FlowResource> = Vec::new();
    let mut i: usize = 0;
    while i < ids.len()
        invariant
            i <= ids.len(),
            names == ids.deep_view(),
            artifact@ == model.artifact_key(),
            closed_goal@ == model.closed_goal(),
            nodes.len() == i,
            contracts.len() == i,
            schemas.len() == i,
            prompts.len() == i,
            forall|j: int|
                0 <= j < i ==> (#[trigger] nodes@[j]).deep_view() == suggested_node(
                    names[j],
                    artifact@,
                ),
            forall|j: int|
                0 <= j < i ==> (#[trigger] contracts@[j]).deep_view() == suggested_contract(
                    names[j],
                    artifact@,
                ),
            forall|j: int|
                0 <= j < i ==> (#[trigger] schemas@[j]).deep_view() == suggested_schema(
                    names[j],
                    artifact@,
                ),
            forall|j: int|
                0 <= j < i ==> (#[trigger] prompts@[j]).deep_view() == suggested_prompt(
                    names[j],
                    closed_goal@,
                    artifact@,
                ),
        decreases ids.len() - i,
    {
        let id = ids[i].as_str();
        assert(names[i as int] == id@);
        nodes.push(make_node(id, artifact.as_str()));
        contracts.push(make_contract(id, artifact.as_str()));
        schemas.push(
            FlowResource {
                id: schema_path(id, artifact.as_str()),
                kind: ResourceKind::Schema,
                source: artifact.clone(),
            },
        );
        prompts.push(make_prompt(id, closed_goal.as_str(), artifact.as_str()));
        i += 1;
    }
    let ghost d = suggested(model);
    assert(nodes.deep_view() =~= d.nodes);
    assert(contracts.deep_view() =~= d.contracts);
    let ghost listed_schemas = schemas.deep_view();
    let ghost listed_prompts = prompts.deep_view();
    let mut resources: Vec<FlowResource> = Vec::new();
    resources.push(
        FlowResource {
            id: "README.md".to_string(),
            kind: ResourceKind::Readme,
            source: input.readme,
        },
    );
    resources.append(&mut schemas);
    resources.append(&mut prompts);
    assert(listed_schemas =~= Seq::new(
        names.len(),
        |i: int| suggested_schema(names[i], artifact@),
    ));
    assert(listed_prompts =~= Seq::new(
        names.len(),
        |i: int| suggested_prompt(names[i], closed_goal@, artifact@),
    ));
    assert(resources.deep_view() =~= d.resources);
    let mut draft = FlowDraft::default();
    draft.nodes = nodes;
    draft.contracts = contracts;
    draft.resources = resources;
    assert(draft.deep_view() =~= d);
    Ok(draft)
}

/// The readme of a suggested draft is the given one, character for character.
pub proof fn lemma_readme_is_kept(input: SuggestView)
    ensures
        suggested(input).resources[0] == suggested_readme(input.readme),
        suggested(input).resources[0].source == input.readme,
{
}

/// The nodes of a suggested draft have different ids.
pub proof fn lemma_suggested_ids_differ(input: SuggestView)
    ensures
        forall|i: int, j: int|
            0 <= i < j < suggested(input).nodes.len() ==> (#[trigger] suggested(input).nodes[i]).id
                != (#[trigger] suggested(input).nodes[j]).id,
{
    lemma_unique_ids(input.node_names(), "node"@, input.node_names().len() as int);
}

} // verus!
