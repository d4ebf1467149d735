//! Reading what tmux prints: lines, records and their fields.
use vstd::prelude::*;

use crate::split::{joined, lemma_pieces_non_empty, pieces, split};
use crate::text::{is_white_space, same, trim, trimmed, white_space};

use super::error::{contains_char, TmuxError, TmuxErrorView};
use super::model::{
    CommandOutput, CommandOutputView, TmuxPaneIdentity, TmuxPaneIdentityView,
};

verus! {

broadcast use vstd::string::group_string_axioms;

/// A line without the carriage return before its line feed.
pub open spec fn without_return(line: Seq<char>) -> Seq<char> {
    if line.len() > 0 && line.last() == '\r' {
        line.drop_last()
    } else {
        line
    }
}

/// The lines of a text. The last one needs no line feed.
pub open spec fn text_lines(s: Seq<char>) -> Seq<Seq<char>> {
    let parts = pieces(s, '\n');
    let ended = Seq::new((parts.len() - 1) as nat, |i: int| without_return(parts[i]));
    if parts.last().len() == 0 {
        ended
    } else {
        ended.push(parts.last())
    }
}

fn strip_return(line: &String) -> (r: String)
    ensures
        r@ == without_return(line@),
{
    let n: usize = line.as_str().unicode_len();
    if n > 0 && line.as_str().get_char(n - 1) == '\r' {
        let kept = line.as_str().substring_char(0, n - 1);
        assert(kept@ =~= line@.drop_last());
        kept.to_string()
    } else {
        line.clone()
    }
}

pub fn lines(s: &str) -> (r: Vec<String>)
    ensures
        r.deep_view() == text_lines(s@),
{
    let parts = split(s, '\n');
    let ghost model = pieces(s@, '\n');
    proof {
        lemma_pieces_non_empty(s@, '\n');
    }
    assert(parts.len() == model.len());
    let mut out: Vec<String> = Vec::new();
    let last: usize = parts.len() - 1;
    let mut i: usize = 0;
    while i < last
        invariant
            i <= last < parts.len(),
            model == parts.deep_view(),
            out.len() == i,
            forall|j: int| 0 <= j < i ==> (#[trigger] out@[j])@ == without_return(model[j]),
        decreases last - i,
    {
        assert(model[i as int] == parts@[i as int]@);
        out.push(strip_return(&parts[i]));
        i += 1;
    }
    assert(model.last() == parts@[last as int]@);
    if !parts[last].as_str().is_empty() {
        out.push(parts[last].clone());
    }
    assert(out.deep_view() =~= text_lines(s@));
    out
}

/// The words that end within a text, and the one that is still open.
pub open spec fn word_scan(s: Seq<char>) -> (Seq<Seq<char>>, Seq<char>)
    decreases s.len(),
{
    if s.len() == 0 {
        (Seq::empty(), Seq::empty())
    } else {
        let (done, open) = word_scan(s.drop_last());
        if !is_white_space(s.last()) {
            (done, open.push(s.last()))
        } else if open.len() > 0 {
            (done.push(open), Seq::empty())
        } else {
            (done, open)
        }
    }
}

/// The words of a text, separated by white space.
pub open spec fn words(s: Seq<char>) -> Seq<Seq<char>> {
    let (done, open) = word_scan(s);
    if open.len() > 0 {
        done.push(open)
    } else {
        done
    }
}

pub fn split_words(s: &str) -> (r: Vec<String>)
    ensures
        r.deep_view() == words(s@),
{
    let mut done: Vec<String> = Vec::new();
    let mut open = String::new();
    assert(done.deep_view() =~= word_scan(s@.take(0)).0);
    assert(open@ =~= word_scan(s@.take(0)).1);
    for c in it: s.chars()
        invariant
            it.seq() == s@,
            done.deep_view() == word_scan(s@.take(it.index())).0,
            open@ == word_scan(s@.take(it.index())).1,
    {
        let ghost n = it.index();
        let ghost before = done.deep_view();
        assert(s@.take(n + 1).drop_last() =~= s@.take(n));
        assert(s@.take(n + 1).last() == c);
        if !white_space(c) {
            open.push(c);
        } else if !open.as_str().is_empty() {
            let ghost word = open@;
            done.push(open);
            open = String::new();
            assert(done.deep_view() =~= before.push(word));
        }
    }
    assert(s@.take(s@.len() as int) =~= s@);
    if !open.as_str().is_empty() {
        let ghost before = done.deep_view();
        let ghost word = open@;
        done.push(open);
        assert(done.deep_view() =~= before.push(word));
    }
    done
}

/// The fields of a record: cut at bars, else at tabs, else at white space.
pub open spec fn record_fields(value: Seq<char>) -> Seq<Seq<char>> {
    if value.contains('|') {
        pieces(value, '|')
    } else if value.contains('\t') {
        pieces(value, '\t')
    } else {
        words(value)
    }
}

pub fn tmux_record_fields(value: &str) -> (r: Vec<String>)
    ensures
        r.deep_view() == record_fields(value@),
{
    if contains_char(value, '|') {
        split(value, '|')
    } else if contains_char(value, '\t') {
        split(value, '\t')
    } else {
        split_words(value)
    }
}

/// What tmux printed, without white space around it.
pub open spec fn printed(output: CommandOutputView, field: Seq<char>) -> Result<
    Seq<char>,
    TmuxErrorView,
> {
    if trimmed(output.stdout).len() == 0 {
        Err(TmuxErrorView::EmptyOutput { field })
    } else {
        Ok(trimmed(output.stdout))
    }
}

pub fn trimmed_stdout(output: &CommandOutput, field: &'static str) -> (r: Result<
    String,
    TmuxError,
>)
    ensures
        match r {
            Ok(text) => printed(output.deep_view(), field@) == Ok::<Seq<char>, TmuxErrorView>(
                text@,
            ),
            Err(error) => printed(output.deep_view(), field@) == Err::<Seq<char>, TmuxErrorView>(
                error.deep_view(),
            ),
        },
{
    let value = trim(output.stdout.as_str());
    if value.is_empty() {
        Err(TmuxError::EmptyOutput { field })
    } else {
        Ok(value.to_string())
    }
}

/// The id of the first window with the given name from line `n` on.
pub open spec fn window_listed(lines: Seq<Seq<char>>, name: Seq<char>, n: int) -> Result<
    Option<Seq<char>>,
    TmuxErrorView,
>
    decreases lines.len() - n,
{
    if n < 0 || n >= lines.len() {
        Ok(None)
    } else {
        let fields = record_fields(lines[n]);
        if fields.len() == 2 && fields[0] == name {
            if trimmed(fields[1]).len() == 0 {
                Err(TmuxErrorView::EmptyOutput { field: "window id"@ })
            } else {
                Ok(Some(trimmed(fields[1])))
            }
        } else {
            window_listed(lines, name, n + 1)
        }
    }
}

pub fn listed_window_id(output: &CommandOutput, window_name: &str) -> (r: Result<
    Option<String>,
    TmuxError,
>)
    ensures
        match r {
            Ok(id) => window_listed(text_lines(output.stdout@), window_name@, 0) == Ok::<
                Option<Seq<char>>,
                TmuxErrorView,
            >(id.deep_view()),
            Err(error) => window_listed(text_lines(output.stdout@), window_name@, 0) == Err::<
                Option<Seq<char>>,
                TmuxErrorView,
            >(error.deep_view()),
        },
{
    let listed = lines(output.stdout.as_str());
    let ghost model = text_lines(output.stdout@);
    let mut i: usize = 0;
    while i < listed.len()
        invariant
            i <= listed.len(),
            model == listed.deep_view(),
            model == text_lines(output.stdout@),
            window_listed(model, window_name@, 0) == window_listed(model, window_name@, i as int),
        decreases listed.len() - i,
    {
        assert(model[i as int] == listed@[i as int]@);
        let fields = tmux_record_fields(listed[i].as_str());
        let ghost parts = record_fields(model[i as int]);
        assert(fields.len() == parts.len());
        if fields.len() == 2 {
            assert(parts[0] == fields@[0]@ && parts[1] == fields@[1]@);
            if same(fields[0].as_str(), window_name) {
                let id = trim(fields[1].as_str());
                if id.is_empty() {
                    return Err(TmuxError::EmptyOutput { field: "window id" });
                }
                return Ok(Some(id.to_string()));
            }
        }
        i += 1;
    }
    Ok(None)
}

/// The window and the pane that tmux printed.
pub open spec fn window_and_pane(output: CommandOutputView) -> Result<
    (Seq<char>, Seq<char>),
    TmuxErrorView,
> {
    let value = trimmed(output.stdout);
    let fields = record_fields(value);
    if value.len() == 0 {
        Err(TmuxErrorView::EmptyOutput { field: "window and pane ids"@ })
    } else if fields.len() < 1 {
        Err(TmuxErrorView::EmptyOutput { field: "window id"@ })
    } else if fields.len() < 2 {
        Err(TmuxErrorView::EmptyOutput { field: "pane id"@ })
    } else {
        Ok((fields[0], fields[1]))
    }
}

pub fn window_pane_stdout(output: &CommandOutput) -> (r: Result<(String, String), TmuxError>)
    ensures
        match r {
            Ok(ids) => window_and_pane(output.deep_view()) == Ok::<
                (Seq<char>, Seq<char>),
                TmuxErrorView,
            >((ids.0@, ids.1@)),
            Err(error) => window_and_pane(output.deep_view()) == Err::<
                (Seq<char>, Seq<char>),
                TmuxErrorView,
            >(error.deep_view()),
        },
{
    let value = trim(output.stdout.as_str());
    if value.is_empty() {
        return Err(TmuxError::EmptyOutput { field: "window and pane ids" });
    }
    let fields = tmux_record_fields(value);
    let ghost parts = record_fields(value@);
    assert(fields.len() == parts.len());
    if fields.len() < 1 {
        return Err(TmuxError::EmptyOutput { field: "window id" });
    }
    if fields.len() < 2 {
        return Err(TmuxError::EmptyOutput { field: "pane id" });
    }
    assert(parts[0] == fields@[0]@ && parts[1] == fields@[1]@);
    Ok((fields[0].clone(), fields[1].clone()))
}

/// The pane that a record tells of.
pub open spec fn identity_in(value: Seq<char>) -> Result<TmuxPaneIdentityView, TmuxErrorView> {
    let fields = record_fields(value);
    if fields.len() < 1 {
        Err(TmuxErrorView::EmptyOutput { field: "session name"@ })
    } else if fields.len() < 2 {
        Err(TmuxErrorView::EmptyOutput { field: "window id"@ })
    } else if fields.len() < 3 {
        Err(TmuxErrorView::EmptyOutput { field: "window name"@ })
    } else if fields.len() < 4 {
        Err(TmuxErrorView::EmptyOutput { field: "pane id"@ })
    } else {
        Ok(
            TmuxPaneIdentityView {
                session_id: fields[0],
                window_id: fields[1],
                window_name: fields[2],
                pane_id: fields[3],
            },
        )
    }
}

/// Whether a reading and its model agree.
pub open spec fn identity_agrees(
    r: Result<TmuxPaneIdentity, TmuxError>,
    model: Result<TmuxPaneIdentityView, TmuxErrorView>,
) -> bool {
    match (r, model) {
        (Ok(a), Ok(b)) => a.deep_view() == b,
        (Err(a), Err(b)) => a.deep_view() == b,
        _ => false,
    }
}

pub fn pane_identity_text(value: &str) -> (r: Result<TmuxPaneIdentity, TmuxError>)
    ensures
        identity_agrees(r, identity_in(value@)),
{
    let fields = tmux_record_fields(value);
    let ghost parts = record_fields(value@);
    assert(fields.len() == parts.len());
    if fields.len() < 1 {
        return Err(TmuxError::EmptyOutput { field: "session name" });
    }
    if fields.len() < 2 {
        return Err(TmuxError::EmptyOutput { field: "window id" });
    }
    if fields.len() < 3 {
        return Err(TmuxError::EmptyOutput { field: "window name" });
    }
    if fields.len() < 4 {
        return Err(TmuxError::EmptyOutput { field: "pane id" });
    }
    assert(parts[0] == fields@[0]@ && parts[1] == fields@[1]@ && parts[2] == fields@[2]@
        && parts[3] == fields@[3]@);
    Ok(
        TmuxPaneIdentity::new(
            fields[0].clone(),
            fields[1].clone(),
            fields[2].clone(),
            fields[3].clone(),
        ),
    )
}

/// The pane that tmux printed.
pub open spec fn printed_identity(output: CommandOutputView) -> Result<
    TmuxPaneIdentityView,
    TmuxErrorView,
> {
    if trimmed(output.stdout).len() == 0 {
        Err(TmuxErrorView::EmptyOutput { field: "pane metadata"@ })
    } else {
        identity_in(trimmed(output.stdout))
    }
}

pub fn pane_identity_stdout(output: &CommandOutput) -> (r: Result<TmuxPaneIdentity, TmuxError>)
    ensures
        identity_agrees(r, printed_identity(output.deep_view())),
{
    let value = trim(output.stdout.as_str());
    if value.is_empty() {
        return Err(TmuxError::EmptyOutput { field: "pane metadata" });
    }
    pane_identity_text(value)
}

/// Whether a pane is the one that was meant; the window's name counts on request.
pub open spec fn identity_matches(
    expected: TmuxPaneIdentityView,
    actual: TmuxPaneIdentityView,
    match_window_name: bool,
) -> bool {
    &&& expected.session_id == actual.session_id
    &&& expected.window_id == actual.window_id
    &&& match_window_name ==> expected.window_name == actual.window_name
    &&& expected.pane_id == actual.pane_id
}

pub fn pane_identity_matches(
    expected: &TmuxPaneIdentity,
    actual: &TmuxPaneIdentity,
    match_window_name: bool,
) -> (r: bool)
    ensures
        r == identity_matches(expected.deep_view(), actual.deep_view(), match_window_name),
{
    same(expected.session_id.as_str(), actual.session_id.as_str()) && same(
        expected.window_id.as_str(),
        actual.window_id.as_str(),
    ) && (!match_window_name || same(
        expected.window_name.as_str(),
        actual.window_name.as_str(),
    )) && same(expected.pane_id.as_str(), actual.pane_id.as_str())
}

/// Whether a text holds another one.
pub open spec fn holds_text(s: Seq<char>, wanted: Seq<char>) -> bool {
    exists|i: int|
        0 <= i <= s.len() - wanted.len() && #[trigger] s.subrange(i, i + wanted.len()) == wanted
}

pub fn contains_substring(s: &str, wanted: &str) -> (r: bool)
    ensures
        r == holds_text(s@, wanted@),
{
    let n: usize = s.unicode_len();
    let m: usize = wanted.unicode_len();
    if m > n {
        return false;
    }
    let mut i: usize = 0;
    while i <= n - m
        invariant
            i <= n - m,
            m <= n,
            n == s@.len(),
            m == wanted@.len(),
            forall|j: int| 0 <= j < i ==> #[trigger] s@.subrange(j, j + m) != wanted@,
        decreases n - m + 1 - i,
    {
        if same(s.substring_char(i, i + m), wanted) {
            return true;
        }
        if i == n - m {
            return false;
        }
        i += 1;
    }
    false
}

/// The parts of a text cut at no more than `n - 1` separators.
pub open spec fn pieces_up_to(s: Seq<char>, separator: char, n: int) -> Seq<Seq<char>> {
    let parts = pieces(s, separator);
    if parts.len() <= n {
        parts
    } else {
        parts.take(n - 1).push(joined(parts.skip(n - 1), separator))
    }
}

fn join(parts: &[String], separator: char) -> (r: String)
    requires
        parts@.len() > 0,
    ensures
        r@ == joined(parts.deep_view(), separator),
{
    let ghost model = parts.deep_view();
    let mut out = parts[0].clone();
    let mut i: usize = 1;
    assert(model.take(1)[0] == parts@[0]@);
    while i < parts.len()
        invariant
            1 <= i <= parts.len(),
            model == parts.deep_view(),
            out@ == joined(model.take(i as int), separator),
        decreases parts.len() - i,
    {
        assert(model.take(i + 1).drop_last() =~= model.take(i as int));
        assert(model.take(i + 1).last() == parts@[i as int]@);
        out.push(separator);
        out.push_str(parts[i].as_str());
        i += 1;
    }
    assert(model.take(i as int) =~= model);
    out
}

pub fn split_up_to(s: &str, separator: char, n: usize) -> (r: Vec<String>)
    requires
        n >= 1,
    ensures
        r.deep_view() == pieces_up_to(s@, separator, n as int),
{
    let mut parts = split(s, separator);
    let ghost model = pieces(s@, separator);
    if parts.len() <= n {
        return parts;
    }
    let rest = parts.split_off(n - 1);
    let listed = rest.as_slice();
    assert(listed.deep_view() =~= model.skip(n - 1));
    assert(parts.deep_view() =~= model.take(n - 1));
    let tail = join(listed, separator);
    let ghost before = parts.deep_view();
    parts.push(tail);
    assert(parts.deep_view() =~= before.push(tail@));
    parts
}

} // verus!
