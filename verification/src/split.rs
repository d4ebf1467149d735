//! Cutting text at separators, and the components of a relative path.
use vstd::prelude::*;

use crate::text::{cat2, cat3, same};

verus! {

broadcast use vstd::string::group_string_axioms;

/// The parts of a string between occurrences of a separator: one more than the
/// separator occurs.
pub open spec fn pieces(s: Seq<char>, separator: char) -> Seq<Seq<char>>
    decreases s.len(),
{
    if s.len() == 0 {
        seq![Seq::empty()]
    } else {
        let front = pieces(s.drop_last(), separator);
        if s.last() == separator {
            front.push(Seq::empty())
        } else {
            front.update(front.len() - 1, front.last().push(s.last()))
        }
    }
}

pub proof fn lemma_pieces_non_empty(s: Seq<char>, separator: char)
    ensures
        pieces(s, separator).len() > 0,
    decreases s.len(),
{
    if s.len() > 0 {
        lemma_pieces_non_empty(s.drop_last(), separator);
    }
}

/// No part holds the separator.
pub proof fn lemma_pieces_hold_no_separator(s: Seq<char>, separator: char)
    ensures
        forall|i: int|
            0 <= i < pieces(s, separator).len() ==> !(#[trigger] pieces(s, separator)[i]).contains(
                separator,
            ),
    decreases s.len(),
{
    if s.len() > 0 {
        lemma_pieces_hold_no_separator(s.drop_last(), separator);
        lemma_pieces_non_empty(s.drop_last(), separator);
        let front = pieces(s.drop_last(), separator);
        let all = pieces(s, separator);
        assert forall|i: int| 0 <= i < all.len() implies !(#[trigger] all[i]).contains(
            separator,
        ) by {
            if i < front.len() - 1 || (i == front.len() - 1 && s.last() == separator) {
                assert(all[i] == front[i]);
            } else if i == front.len() - 1 {
                assert(!front[i].contains(separator));
                if all[i].contains(separator) {
                    let k = choose|k: int| 0 <= k < all[i].len() && all[i][k] == separator;
                    if k < front[i].len() {
                        assert(front[i][k] == separator);
                    }
                }
            }
        }
    }
}

/// The parts put together again with the separator between them.
pub open spec fn joined(parts: Seq<Seq<char>>, separator: char) -> Seq<char>
    decreases parts.len(),
{
    if parts.len() == 0 {
        Seq::empty()
    } else if parts.len() == 1 {
        parts[0]
    } else {
        joined(parts.drop_last(), separator).push(separator) + parts.last()
    }
}

/// Joining the parts of a string gives the string back.
pub proof fn lemma_pieces_join(s: Seq<char>, separator: char)
    ensures
        joined(pieces(s, separator), separator) == s,
    decreases s.len(),
{
    if s.len() > 0 {
        lemma_pieces_join(s.drop_last(), separator);
        lemma_pieces_non_empty(s.drop_last(), separator);
        let front = pieces(s.drop_last(), separator);
        let all = pieces(s, separator);
        if s.last() == separator {
            assert(all.drop_last() =~= front);
            assert(joined(all, separator) =~= s);
        } else {
            assert(all.drop_last() =~= front.drop_last());
            assert(joined(all, separator) =~= joined(front, separator).push(s.last()));
            assert(joined(all, separator) =~= s);
        }
    }
}

/// A string that does not hold the separator is one part.
pub proof fn lemma_whole_piece(s: Seq<char>, separator: char)
    requires
        !s.contains(separator),
    ensures
        pieces(s, separator) == seq![s],
    decreases s.len(),
{
    if s.len() > 0 {
        let front = s.drop_last();
        assert(s[s.len() - 1] == s.last());
        assert(!front.contains(separator)) by {
            if front.contains(separator) {
                let k = choose|k: int| 0 <= k < front.len() && front[k] == separator;
                assert(s[k] == separator);
            }
        }
        lemma_whole_piece(front, separator);
        assert(front.push(s.last()) =~= s);
        assert(pieces(s, separator) =~= seq![s]);
    } else {
        assert(s =~= Seq::<char>::empty());
    }
}

/// What stands behind the last separator is the last part.
pub proof fn lemma_piece_behind(a: Seq<char>, b: Seq<char>, separator: char)
    requires
        !b.contains(separator),
    ensures
        pieces(a.push(separator) + b, separator) == pieces(a, separator).push(b),
    decreases b.len(),
{
    let whole = a.push(separator) + b;
    if b.len() == 0 {
        assert(whole =~= a.push(separator));
        assert(whole.drop_last() =~= a);
        assert(b =~= Seq::<char>::empty());
    } else {
        let front = b.drop_last();
        assert(b[b.len() - 1] == b.last());
        assert(!front.contains(separator)) by {
            if front.contains(separator) {
                let k = choose|k: int| 0 <= k < front.len() && front[k] == separator;
                assert(b[k] == separator);
            }
        }
        lemma_piece_behind(a, front, separator);
        assert(whole.drop_last() =~= a.push(separator) + front);
        assert(whole.last() == b.last());
        assert(front.push(b.last()) =~= b);
        assert(pieces(whole, separator) =~= pieces(a, separator).push(b));
    }
}

/// Cuts a string at every occurrence of a separator.
pub fn split(s: &str, separator: char) -> (r: Vec<String>)
    ensures
        r.deep_view() == pieces(s@, separator),
{
    let mut done: Vec<String> = Vec::new();
    let mut current = String::new();
    assert(done.deep_view().push(current@) =~= pieces(s@.take(0), separator));
    for c in it: s.chars()
        invariant
            it.seq() == s@,
            done.deep_view().push(current@) == pieces(s@.take(it.index()), separator),
    {
        let ghost n = it.index();
        let ghost before = done.deep_view().push(current@);
        assert(s@.take(n + 1).drop_last() =~= s@.take(n));
        assert(s@.take(n + 1).last() == c);
        if c == separator {
            done.push(current);
            current = String::new();
            assert(done.deep_view().push(current@) =~= before.push(Seq::empty()));
        } else {
            current.push(c);
            assert(done.deep_view().push(current@) =~= before.update(
                before.len() - 1,
                before.last().push(c),
            ));
        }
    }
    assert(s@.take(s@.len() as int) =~= s@);
    done.push(current);
    assert(done.deep_view() =~= pieces(s@, separator));
    done
}

/// One component of a path: the root, the current or the parent directory, or a name.
pub enum Component {
    RootDir,
    CurDir,
    ParentDir,
    Normal(String),
}

pub enum ComponentView {
    RootDir,
    CurDir,
    ParentDir,
    Normal(Seq<char>),
}

impl DeepView for Component {
    type V = ComponentView;

    open spec fn deep_view(&self) -> ComponentView {
        match self {
            Component::RootDir => ComponentView::RootDir,
            Component::CurDir => ComponentView::CurDir,
            Component::ParentDir => ComponentView::ParentDir,
            Component::Normal(name) => ComponentView::Normal(name@),
        }
    }
}

/// The component that the first or a later part of a path stands for. Empty parts
/// stand for nothing, and `.` only counts at the start.
pub open spec fn component(part: Seq<char>, first: bool) -> Option<ComponentView> {
    if part.len() == 0 {
        None
    } else if part == "."@ {
        if first {
            Some(ComponentView::CurDir)
        } else {
            None
        }
    } else if part == ".."@ {
        Some(ComponentView::ParentDir)
    } else {
        Some(ComponentView::Normal(part))
    }
}

/// The components of the first `n` parts of a path.
pub open spec fn part_components(parts: Seq<Seq<char>>, n: int) -> Seq<ComponentView>
    decreases n,
{
    if n <= 0 {
        Seq::empty()
    } else {
        let front = part_components(parts, n - 1);
        match component(parts[n - 1], n == 1) {
            Some(next) => front.push(next),
            None => front,
        }
    }
}

/// The components of a path in which `/` separates the parts.
pub open spec fn path_components(path: Seq<char>) -> Seq<ComponentView> {
    let parts = pieces(path, '/');
    if path.len() > 0 && path[0] == '/' {
        seq![ComponentView::RootDir] + part_components(parts, parts.len() as int)
    } else {
        part_components(parts, parts.len() as int)
    }
}

fn component_of(part: &str, first: bool) -> (r: Option<Component>)
    ensures
        r.deep_view() == component(part@, first),
{
    if part.is_empty() {
        None
    } else if same(part, ".") {
        if first {
            Some(Component::CurDir)
        } else {
            None
        }
    } else if same(part, "..") {
        Some(Component::ParentDir)
    } else {
        Some(Component::Normal(part.to_string()))
    }
}

/// Reads the components of a path.
pub fn components(path: &str) -> (r: Vec<Component>)
    ensures
        r.deep_view() == path_components(path@),
{
    let mut out: Vec<Component> = Vec::new();
    let n: usize = path.unicode_len();
    let rooted = n > 0 && path.get_char(0) == '/';
    if rooted {
        out.push(Component::RootDir);
    }
    let ghost start = out.deep_view();
    let parts = split(path, '/');
    let mut i: usize = 0;
    assert(out.deep_view() =~= start + part_components(parts.deep_view(), 0));
    while i < parts.len()
        invariant
            i <= parts.len(),
            parts.deep_view() == pieces(path@, '/'),
            out.deep_view() == start + part_components(parts.deep_view(), i as int),
        decreases parts.len() - i,
    {
        let ghost before = out.deep_view();
        match component_of(parts[i].as_str(), i == 0) {
            Some(next) => {
                out.push(next);
                assert(out.deep_view() =~= before.push(next.deep_view()));
            },
            None => {},
        }
        i += 1;
        assert(out.deep_view() =~= start + part_components(parts.deep_view(), i as int));
    }
    assert(out.deep_view() =~= path_components(path@));
    out
}

/// Whether every component of a path is a name.
pub open spec fn only_names(path: Seq<char>) -> bool {
    forall|i: int| 0 <= i < path_components(path).len() ==> (
        #[trigger] path_components(path)[i]
    ) is Normal
}

pub fn has_only_names(path: &str) -> (r: bool)
    ensures
        r == only_names(path@),
{
    let parts = components(path);
    let mut i: usize = 0;
    while i < parts.len()
        invariant
            i <= parts.len(),
            parts.deep_view() == path_components(path@),
            forall|j: int| 0 <= j < i ==> (#[trigger] path_components(path@)[j]) is Normal,
        decreases parts.len() - i,
    {
        let is_name = match &parts[i] {
            Component::Normal(_) => true,
            _ => false,
        };
        assert(path_components(path@)[i as int] == parts@[i as int].deep_view());
        if !is_name {
            return false;
        }
        i += 1;
    }
    true
}

/// A path with another one behind it; one that starts at the root stands alone.
pub open spec fn path_joined(base: Seq<char>, part: Seq<char>) -> Seq<char> {
    if part.len() > 0 && part[0] == '/' {
        part
    } else if base.len() == 0 || base.last() == '/' {
        base + part
    } else {
        base + "/"@ + part
    }
}

pub fn join_path(base: &str, part: &str) -> (r: String)
    ensures
        r@ == path_joined(base@, part@),
{
    let n: usize = base.unicode_len();
    if part.unicode_len() > 0 && part.get_char(0) == '/' {
        part.to_string()
    } else if n == 0 || base.get_char(n - 1) == '/' {
        cat2(base, part)
    } else {
        cat3(base, "/", part)
    }
}

/// How a component is written.
pub open spec fn component_text(part: ComponentView) -> Seq<char> {
    match part {
        ComponentView::RootDir => "/"@,
        ComponentView::CurDir => "."@,
        ComponentView::ParentDir => ".."@,
        ComponentView::Normal(name) => name,
    }
}

/// The path that components make up.
pub open spec fn rendered(parts: Seq<ComponentView>) -> Seq<char>
    decreases parts.len(),
{
    if parts.len() == 0 {
        Seq::empty()
    } else {
        path_joined(rendered(parts.drop_last()), component_text(parts.last()))
    }
}

/// The path of the first `n` components.
pub fn render(parts: &[Component], n: usize) -> (r: String)
    requires
        n <= parts@.len(),
    ensures
        r@ == rendered(parts.deep_view().take(n as int)),
{
    let ghost model = parts.deep_view();
    let mut out = String::new();
    let mut i: usize = 0;
    assert(model.take(0) =~= Seq::<ComponentView>::empty());
    while i < n
        invariant
            i <= n <= parts@.len(),
            model == parts.deep_view(),
            out@ == rendered(model.take(i as int)),
        decreases n - i,
    {
        assert(model.take(i + 1).drop_last() =~= model.take(i as int));
        assert(model.take(i + 1).last() == parts@[i as int].deep_view());
        out = match &parts[i] {
            Component::RootDir => join_path(out.as_str(), "/"),
            Component::CurDir => join_path(out.as_str(), "."),
            Component::ParentDir => join_path(out.as_str(), ".."),
            Component::Normal(name) => join_path(out.as_str(), name.as_str()),
        };
        i += 1;
    }
    out
}

/// The directory that a path lies in, where there is one.
pub open spec fn parent_path(path: Seq<char>) -> Option<Seq<char>> {
    let parts = path_components(path);
    if parts.len() == 0 || parts.last() is RootDir {
        None
    } else {
        Some(rendered(parts.drop_last()))
    }
}

pub fn path_parent(path: &str) -> (r: Option<String>)
    ensures
        r.deep_view() == parent_path(path@),
{
    let parts = components(path);
    let ghost model = path_components(path@);
    if parts.len() == 0 {
        return None;
    }
    let last: usize = parts.len() - 1;
    assert(model.last() == parts@[last as int].deep_view());
    if let Component::RootDir = &parts[last] {
        return None;
    }
    let listed = parts.as_slice();
    assert(listed.deep_view() =~= model);
    assert(model.take(last as int) =~= model.drop_last());
    Some(render(listed, last))
}

} // verus!
