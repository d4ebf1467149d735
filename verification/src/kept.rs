//! What is kept on boards, in ledgers and under paths.
use vstd::prelude::*;

use crate::adapters::tmux::error::file_name;
use crate::driver::keys::key_of;
use crate::flow::check::is_skill_path;
use crate::input_ledger::{
    default_path, normalized, payload_hash, MachineInputStatus, MachineInputSubmission,
};
use crate::json::{flag_of, items_of, signed_of, text_of, JsonView};
use crate::kernel::{patched, BoardChangeView, BoardValueView};
use crate::number::{decimal, digit, lemma_decimal_injective};
use crate::split::{
    component, lemma_piece_behind, lemma_pieces_non_empty, lemma_whole_piece, parent_path,
    part_components, path_components, path_joined, pieces, rendered, ComponentView,
};
use crate::text::has_suffix;

verus! {

broadcast use vstd::string::group_string_axioms;

/// The key that a change is about.
pub open spec fn key_touched(change: BoardChangeView) -> Seq<char> {
    match change {
        BoardChangeView::Put { key, .. } => key,
        BoardChangeView::Remove { key } => key,
    }
}

/// The last change of a key decides: after it was put the board holds that value, after it was
/// removed the board does not hold the key.
pub proof fn lemma_last_change_decides(
    values: Map<Seq<char>, BoardValueView>,
    changes: Seq<BoardChangeView>,
    i: int,
)
    requires
        0 <= i < changes.len(),
        forall|j: int|
            i < j < changes.len() ==> key_touched(#[trigger] changes[j]) != key_touched(changes[i]),
    ensures
        match changes[i] {
            BoardChangeView::Put { key, value } => patched(values, changes).dom().contains(key)
                && patched(values, changes)[key] == value,
            BoardChangeView::Remove { key } => !patched(values, changes).dom().contains(key),
        },
    decreases changes.len(),
{
    if i < changes.len() - 1 {
        let front = changes.drop_last();
        assert(key_touched(changes[changes.len() - 1]) != key_touched(changes[i]));
        assert(front[i] == changes[i]);
        assert forall|j: int| i < j < front.len() implies key_touched(#[trigger] front[j])
            != key_touched(front[i]) by {
            assert(front[j] == changes[j]);
        }
        lemma_last_change_decides(values, front, i);
    }
}

/// What no change touches stays as it was.
pub proof fn lemma_untouched_values_stay(
    values: Map<Seq<char>, BoardValueView>,
    changes: Seq<BoardChangeView>,
    key: Seq<char>,
)
    requires
        forall|j: int| 0 <= j < changes.len() ==> key_touched(#[trigger] changes[j]) != key,
    ensures
        patched(values, changes).dom().contains(key) <==> values.dom().contains(key),
        values.dom().contains(key) ==> patched(values, changes)[key] == values[key],
    decreases changes.len(),
{
    if changes.len() > 0 {
        let front = changes.drop_last();
        assert(key_touched(changes[changes.len() - 1]) != key);
        assert forall|j: int| 0 <= j < front.len() implies key_touched(#[trigger] front[j])
            != key by {
            assert(front[j] == changes[j]);
        }
        lemma_untouched_values_stay(values, front, key);
    }
}

/// An absolute path stands for itself wherever it is joined to; any other is set behind the base,
/// with one separator between the two.
pub proof fn lemma_paths_are_joined_by_one_separator(base: Seq<char>, part: Seq<char>)
    ensures
        part.len() > 0 && part[0] == '/' ==> path_joined(base, part) == part,
        !(part.len() > 0 && part[0] == '/') && base.len() > 0 && base.last() != '/' ==> path_joined(
            base,
            part,
        ) == base.push('/') + part && path_joined(base.push('/'), part) == base.push('/') + part,
        base.len() == 0 ==> path_joined(base, part) == part,
{
    reveal_strlit("/");
    assert("/"@ =~= seq!['/']);
    assert(base + "/"@ =~= base.push('/'));
    assert(base.push('/').last() == '/');
    if base.len() == 0 {
        assert(base + part =~= part);
    }
}

/// Whether a text is the name of a file.
pub open spec fn is_name(name: Seq<char>) -> bool {
    name.len() > 0 && !name.contains('/') && name != "."@ && name != ".."@
}

proof fn lemma_first_components(parts: Seq<Seq<char>>, more: Seq<char>, n: int)
    requires
        0 <= n <= parts.len(),
    ensures
        part_components(parts.push(more), n) == part_components(parts, n),
    decreases n,
{
    if n > 0 {
        lemma_first_components(parts, more, n - 1);
        assert(parts.push(more)[n - 1] == parts[n - 1]);
    }
}

/// A name that is set behind a directory is the name of the file there, and the directory is what
/// the file lies in.
pub proof fn lemma_files_lie_in_their_directory(directory: Seq<char>, name: Seq<char>)
    requires
        directory.len() > 0,
        directory.last() != '/',
        is_name(name),
    ensures
        path_components(path_joined(directory, name)) == path_components(directory).push(
            ComponentView::Normal(name),
        ),
        file_name(path_joined(directory, name)) == Some(name),
        parent_path(path_joined(directory, name)) == Some(rendered(path_components(directory))),
{
    assert(name[0] != '/') by {
        assert(name.contains(name[0]));
    }
    lemma_paths_are_joined_by_one_separator(directory, name);
    let whole = directory.push('/') + name;
    lemma_piece_behind(directory, name, '/');
    let parts = pieces(directory, '/');
    let n = parts.len() as int;
    assert(pieces(whole, '/') == parts.push(name));
    lemma_first_components(parts, name, n);
    lemma_pieces_non_empty(directory, '/');
    assert(component(name, false) == Some(ComponentView::Normal(name)));
    assert(part_components(parts.push(name), n + 1) == part_components(parts, n).push(
        ComponentView::Normal(name),
    ));
    assert(whole[0] == directory[0]);
    assert(path_components(whole) =~= path_components(directory).push(ComponentView::Normal(name)));
    let all = path_components(whole);
    assert(all.last() == ComponentView::Normal(name));
    assert(all.drop_last() =~= path_components(directory));
}

/// The ledger of a run lies in its store under one name.
pub proof fn lemma_ledgers_lie_in_their_store(run_id: Seq<char>, root: Seq<char>)
    requires
        root.len() > 0,
        root.last() != '/',
    ensures
        file_name(default_path(run_id, Some(root))) == Some("machine-inputs.jsonl"@),
        parent_path(default_path(run_id, Some(root))) == Some(rendered(path_components(root))),
{
    reveal_strlit("machine-inputs.jsonl");
    reveal_strlit(".");
    reveal_strlit("..");
    let name = "machine-inputs.jsonl"@;
    assert(name.len() == 20);
    assert(!name.contains('/'));
    lemma_files_lie_in_their_directory(root, name);
}

/// The record of an input has the digest of what was typed, whatever text is shown for it, and
/// keeps the run, the activation, the pane and the time.
pub proof fn lemma_records_keep_what_was_typed(
    input: MachineInputSubmission,
    projection: Seq<char>,
    status: MachineInputStatus,
)
    ensures
        ({
            let record = input.recorded_as(projection, status);
            &&& record.payload_hash == payload_hash(input.text@)
            &&& record.normalized_text == normalized(projection)
            &&& record.status == status
            &&& record.run_id == input.run_id@
            &&& record.activation_id == input.activation_id@
            &&& record.pane_id == input.pane_id@
            &&& record.allocation_generation == input.allocation_generation
            &&& record.started_at_ms == input.started_at_ms
            &&& record.submitted_at_ms == input.submitted_at_ms
            &&& record.submit_key_count == input.submit_key_count
            &&& record.transaction_id == input.transaction_id@
        }),
        input.recorded(status).normalized_text == normalized(input.text@),
        input.recorded(status).payload_hash == payload_hash(input.text@),
{
}

/// A digit is a decimal digit or one of the first six letters, and no two numbers share one.
pub proof fn lemma_digits_tell_their_number(a: nat, b: nat)
    requires
        a < 16,
        b < 16,
    ensures
        a < 10 ==> '0' <= digit(a) <= '9' && digit(a) as int == '0' as int + a,
        a >= 10 ==> 'a' <= digit(a) <= 'f' && digit(a) as int == 'a' as int + a - 10,
        digit(a) == digit(b) ==> a == b,
{
}

/// The key of a delivery tells its activation and, for one role without a message, its generation.
pub proof fn lemma_delivery_keys_tell_the_allocation(
    a: Seq<char>,
    b: Seq<char>,
    role: Seq<char>,
    m: u64,
    n: u64,
)
    requires
        key_of(a, role, None, m) == key_of(b, role, None, n),
    ensures
        a == b,
        m == n,
{
    reveal_strlit("@");
    let x = key_of(a, role, None, m).role;
    let y = key_of(b, role, None, n).role;
    let at = role.len() + "@"@.len();
    assert(decimal(m as nat) =~= x.skip(at as int));
    assert(decimal(n as nat) =~= y.skip(at as int));
    lemma_decimal_injective(m as nat, n as nat);
}

proof fn lemma_skills_directory()
    ensures
        path_components("skills"@) == seq![ComponentView::Normal("skills"@)],
        "skills"@.len() == 6,
        "skills"@.last() == 's',
        is_name("SKILL.md"@),
{
    reveal_strlit("skills");
    reveal_strlit("SKILL.md");
    reveal_strlit(".");
    reveal_strlit("..");
    let name = "skills"@;
    assert(name.len() == 6);
    assert("SKILL.md"@.len() == 8);
    assert(!name.contains('/'));
    assert(!"SKILL.md"@.contains('/'));
    lemma_whole_piece(name, '/');
    reveal_with_fuel(part_components, 2);
    assert(pieces(name, '/') =~= seq![name]);
    assert(component(name, true) == Some(ComponentView::Normal(name)));
    assert(name[0] == 's');
    assert(path_components(name) =~= seq![ComponentView::Normal(name)]);
}

/// A skill is its own directory below the skills, with the one file that tells of it: nothing that
/// lies deeper, and no other file, is a skill.
pub proof fn lemma_skills_have_directories_of_their_own(
    name: Seq<char>,
    deeper: Seq<char>,
    file: Seq<char>,
)
    requires
        is_name(name),
        is_name(deeper),
        is_name(file),
    ensures
        ({
            let directory = path_joined("skills"@, name);
            &&& is_skill_path(path_joined(directory, "SKILL.md"@))
            &&& is_skill_path(path_joined(directory, file)) ==> file == "SKILL.md"@
            &&& !is_skill_path(path_joined(path_joined(directory, deeper), "SKILL.md"@))
            &&& !is_skill_path(path_joined("skills"@, "SKILL.md"@))
        }),
{
    lemma_skills_directory();
    let directory = path_joined("skills"@, name);
    lemma_files_lie_in_their_directory("skills"@, name);
    lemma_files_lie_in_their_directory("skills"@, "SKILL.md"@);
    lemma_last_of_joined("skills"@, name);
    lemma_files_lie_in_their_directory(directory, "SKILL.md"@);
    lemma_files_lie_in_their_directory(directory, file);
    lemma_files_lie_in_their_directory(directory, deeper);
    lemma_last_of_joined(directory, deeper);
    lemma_files_lie_in_their_directory(path_joined(directory, deeper), "SKILL.md"@);
}

proof fn lemma_last_of_joined(directory: Seq<char>, name: Seq<char>)
    requires
        directory.len() > 0,
        directory.last() != '/',
        is_name(name),
    ensures
        path_joined(directory, name).len() > 0,
        path_joined(directory, name).last() != '/',
{
    assert(name[0] != '/') by {
        assert(name.contains(name[0]));
    }
    lemma_paths_are_joined_by_one_separator(directory, name);
    let whole = directory.push('/') + name;
    assert(whole.last() == name[name.len() - 1]);
    assert(name.contains(name[name.len() - 1]));
}

/// A value is read as what it is, and as nothing else.
pub proof fn lemma_values_are_read_as_they_are(value: JsonView, text: Seq<char>, flag: bool, n: i64)
    ensures
        text_of(value) == Some(text) <==> value == JsonView::Text(text),
        flag_of(value) == Some(flag) <==> value == JsonView::Bool(flag),
        n >= 0 ==> (signed_of(value) == Some(n) && value !is Negative <==> value
            == JsonView::Unsigned(n as u64)),
        n < 0 ==> (signed_of(value) == Some(n) <==> value == JsonView::Negative(n)),
        items_of(value) is Some <==> value is List,
        value is List ==> items_of(value) == Some(value->List_0),
{
}

/// A text ends with another exactly when it is something and then the other.
pub proof fn lemma_suffixes_stand_at_the_end(front: Seq<char>, suffix: Seq<char>, s: Seq<char>)
    ensures
        has_suffix(front + suffix, suffix),
        has_suffix(s, suffix) ==> s == s.take(s.len() - suffix.len()) + suffix,
{
    let whole = front + suffix;
    assert(whole.skip(whole.len() - suffix.len()) =~= suffix);
    if has_suffix(s, suffix) {
        assert(s =~= s.take(s.len() - suffix.len()) + s.skip(s.len() - suffix.len()));
    }
}

} // verus!
