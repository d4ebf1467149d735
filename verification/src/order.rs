//! Total orders on modelled values, and the stable sort they give.
use vstd::prelude::*;

use crate::text::{char_vec, same};

verus! {

/// The lexicographic order of strings by their characters.
pub open spec fn text_le(a: Seq<char>, b: Seq<char>) -> bool
    decreases a.len(),
{
    if a.len() == 0 {
        true
    } else if b.len() == 0 {
        false
    } else if a[0] != b[0] {
        a[0] < b[0]
    } else {
        text_le(a.drop_first(), b.drop_first())
    }
}

pub proof fn lemma_text_le_reflexive(a: Seq<char>)
    ensures
        text_le(a, a),
    decreases a.len(),
{
    if a.len() > 0 {
        lemma_text_le_reflexive(a.drop_first());
    }
}

pub proof fn lemma_text_le_total(a: Seq<char>, b: Seq<char>)
    ensures
        text_le(a, b) || text_le(b, a),
    decreases a.len(),
{
    if a.len() > 0 && b.len() > 0 && a[0] == b[0] {
        lemma_text_le_total(a.drop_first(), b.drop_first());
    }
}

pub proof fn lemma_text_le_antisymmetric(a: Seq<char>, b: Seq<char>)
    requires
        text_le(a, b),
        text_le(b, a),
    ensures
        a == b,
    decreases a.len(),
{
    if a.len() > 0 && b.len() > 0 {
        lemma_text_le_antisymmetric(a.drop_first(), b.drop_first());
        assert(a =~= seq![a[0]] + a.drop_first());
        assert(b =~= seq![b[0]] + b.drop_first());
    } else {
        assert(a =~= b);
    }
}

pub proof fn lemma_text_le_transitive(a: Seq<char>, b: Seq<char>, c: Seq<char>)
    requires
        text_le(a, b),
        text_le(b, c),
    ensures
        text_le(a, c),
    decreases a.len(),
{
    if a.len() > 0 && a[0] == b[0] && b[0] == c[0] {
        lemma_text_le_transitive(a.drop_first(), b.drop_first(), c.drop_first());
    }
}

/// Whether `a` stands at or before `b`.
pub fn text_at_most(a: &str, b: &str) -> (r: bool)
    ensures
        r == text_le(a@, b@),
{
    let x = char_vec(a);
    let y = char_vec(b);
    let mut i: usize = 0;
    assert(a@.skip(0) =~= a@);
    assert(b@.skip(0) =~= b@);
    while i < x.len() && i < y.len()
        invariant
            i <= x.len(),
            i <= y.len(),
            x@ == a@,
            y@ == b@,
            text_le(a@, b@) == text_le(a@.skip(i as int), b@.skip(i as int)),
        decreases x.len() - i,
    {
        if x[i] != y[i] {
            return x[i] < y[i];
        }
        assert(a@.skip(i as int).drop_first() =~= a@.skip(i + 1));
        assert(b@.skip(i as int).drop_first() =~= b@.skip(i + 1));
        i += 1;
    }
    i == x.len()
}

/// A total preorder on the models of a type, with an executable test.
pub trait Ranked: DeepView + Sized {
    /// Whether `a` may stand before `b`.
    spec fn ranks(a: Self::V, b: Self::V) -> bool;

    proof fn ranks_total(a: Self::V, b: Self::V)
        ensures
            Self::ranks(a, b) || Self::ranks(b, a),
    ;

    proof fn ranks_transitive(a: Self::V, b: Self::V, c: Self::V)
        requires
            Self::ranks(a, b),
            Self::ranks(b, c),
        ensures
            Self::ranks(a, c),
    ;

    fn at_most(&self, other: &Self) -> (r: bool)
        ensures
            r == Self::ranks(self.deep_view(), other.deep_view()),
    ;
}

/// Whether every element may stand before every later one.
pub open spec fn is_sorted<T: Ranked>(s: Seq<T::V>) -> bool {
    forall|i: int, j: int| 0 <= i < j < s.len() ==> T::ranks(#[trigger] s[i], #[trigger] s[j])
}

/// The position behind every element of the sequence that may stand before `x`,
/// counted from the end.
pub open spec fn slot<T: Ranked>(s: Seq<T::V>, x: T::V) -> nat
    decreases s.len(),
{
    if s.len() == 0 || T::ranks(s.last(), x) {
        s.len()
    } else {
        slot::<T>(s.drop_last(), x)
    }
}

/// The sequence sorted stably: each element goes in behind those it ranks with.
pub open spec fn sorted<T: Ranked>(s: Seq<T::V>) -> Seq<T::V>
    decreases s.len(),
{
    if s.len() == 0 {
        s
    } else {
        let rest = sorted::<T>(s.drop_last());
        rest.insert(slot::<T>(rest, s.last()) as int, s.last())
    }
}

pub proof fn lemma_slot_bound<T: Ranked>(s: Seq<T::V>, x: T::V)
    ensures
        slot::<T>(s, x) <= s.len(),
        slot::<T>(s, x) > 0 ==> T::ranks(s[slot::<T>(s, x) - 1], x),
        forall|i: int| slot::<T>(s, x) <= i < s.len() ==> !T::ranks(#[trigger] s[i], x),
    decreases s.len(),
{
    if s.len() > 0 && !T::ranks(s.last(), x) {
        lemma_slot_bound::<T>(s.drop_last(), x);
        assert forall|i: int| slot::<T>(s, x) <= i < s.len() implies !T::ranks(
            #[trigger] s[i],
            x,
        ) by {
            if i < s.len() - 1 {
                assert(s.drop_last()[i] == s[i]);
            }
        }
    }
}

/// Sorting gives a sorted rearrangement of the sequence.
pub proof fn lemma_sorted<T: Ranked>(s: Seq<T::V>)
    ensures
        is_sorted::<T>(sorted::<T>(s)),
        sorted::<T>(s).len() == s.len(),
        sorted::<T>(s).to_multiset() == s.to_multiset(),
    decreases s.len(),
{
    broadcast use vstd::seq_lib::group_to_multiset_ensures;

    if s.len() > 0 {
        let x = s.last();
        let rest = sorted::<T>(s.drop_last());
        lemma_sorted::<T>(s.drop_last());
        lemma_slot_bound::<T>(rest, x);
        let k = slot::<T>(rest, x) as int;
        let out = rest.insert(k, x);
        assert forall|i: int, j: int| 0 <= i < j < out.len() implies T::ranks(
            #[trigger] out[i],
            #[trigger] out[j],
        ) by {
            if j < k {
                assert(out[i] == rest[i] && out[j] == rest[j]);
            } else if j == k {
                if i < k - 1 {
                    assert(T::ranks(rest[i], rest[k - 1]));
                    T::ranks_transitive(rest[i], rest[k - 1], x);
                }
            } else if i == k {
                T::ranks_total(rest[j - 1], x);
            } else if i > k {
                assert(out[i] == rest[i - 1] && out[j] == rest[j - 1]);
            } else {
                assert(out[i] == rest[i] && out[j] == rest[j - 1]);
            }
        }
        assert(s =~= s.drop_last().push(x));
        s.drop_last().to_multiset_ensures();
        rest.to_multiset_ensures();
    }
}

/// Sorting a sorted sequence changes nothing.
pub proof fn lemma_sorted_fixpoint<T: Ranked>(s: Seq<T::V>)
    requires
        is_sorted::<T>(s),
    ensures
        sorted::<T>(s) == s,
    decreases s.len(),
{
    if s.len() > 0 {
        let front = s.drop_last();
        assert forall|i: int, j: int| 0 <= i < j < front.len() implies T::ranks(
            #[trigger] front[i],
            #[trigger] front[j],
        ) by {
            assert(T::ranks(s[i], s[j]));
        }
        lemma_sorted_fixpoint::<T>(front);
        if front.len() > 0 {
            assert(T::ranks(s[s.len() - 2], s[s.len() - 1]));
            assert(front.last() == s[s.len() - 2]);
        }
        assert(slot::<T>(front, s.last()) == front.len());
        assert(front.insert(front.len() as int, s.last()) =~= s);
    }
}

/// Sorts a vector in place, keeping the order of elements that rank alike.
pub fn sort<T: Ranked>(items: Vec<T>) -> (r: Vec<T>)
    ensures
        r.deep_view() == sorted::<T>(items.deep_view()),
{
    let mut out: Vec<T> = Vec::new();
    let ghost source = items.deep_view();
    assert(out.deep_view() =~= sorted::<T>(source.take(0)));
    for item in it: items
        invariant
            it.seq() == items@,
            source == items.deep_view(),
            out.deep_view() == sorted::<T>(source.take(it.index())),
    {
        let ghost x = item.deep_view();
        let ghost rest = out.deep_view();
        let ghost n = it.index();
        assert(x == source[n]);
        proof {
            lemma_slot_bound::<T>(rest, x);
        }
        let mut k: usize = out.len();
        assert(rest.take(k as int) =~= rest);
        while k > 0 && !out[k - 1].at_most(&item)
            invariant
                k <= out.len(),
                rest == out.deep_view(),
                x == item.deep_view(),
                slot::<T>(rest, x) == slot::<T>(rest.take(k as int), x),
            decreases k,
        {
            assert(rest.take(k as int).last() == rest[k - 1]);
            assert(rest.take(k as int).drop_last() =~= rest.take(k - 1));
            k -= 1;
        }
        proof {
            if k > 0 {
                assert(rest.take(k as int).last() == rest[k - 1]);
            }
            assert(slot::<T>(rest, x) == k);
        }
        out.insert(k, item);
        proof {
            assert(out.deep_view() =~= rest.insert(k as int, x));
            assert(source.take(n + 1).drop_last() =~= source.take(n));
            assert(source.take(n + 1).last() == x);
        }
    }
    assert(source.take(source.len() as int) =~= source);
    out
}

/// The lexicographic order of lists of texts; a list stands behind its own beginnings.
pub open spec fn list_le(a: Seq<Seq<char>>, b: Seq<Seq<char>>) -> bool
    decreases a.len(),
{
    if a.len() == 0 {
        true
    } else if b.len() == 0 {
        false
    } else if a[0] != b[0] {
        text_le(a[0], b[0])
    } else {
        list_le(a.drop_first(), b.drop_first())
    }
}

pub proof fn lemma_list_le_total(a: Seq<Seq<char>>, b: Seq<Seq<char>>)
    ensures
        list_le(a, b) || list_le(b, a),
    decreases a.len(),
{
    if a.len() > 0 && b.len() > 0 {
        if a[0] == b[0] {
            lemma_list_le_total(a.drop_first(), b.drop_first());
        } else {
            lemma_text_le_total(a[0], b[0]);
        }
    }
}

pub proof fn lemma_list_le_transitive(a: Seq<Seq<char>>, b: Seq<Seq<char>>, c: Seq<Seq<char>>)
    requires
        list_le(a, b),
        list_le(b, c),
    ensures
        list_le(a, c),
    decreases a.len(),
{
    if a.len() > 0 {
        if a[0] == b[0] && b[0] == c[0] {
            lemma_list_le_transitive(a.drop_first(), b.drop_first(), c.drop_first());
        } else if a[0] != b[0] && b[0] != c[0] {
            lemma_text_le_transitive(a[0], b[0], c[0]);
            if a[0] == c[0] {
                lemma_text_le_antisymmetric(a[0], b[0]);
            }
        }
    }
}

pub proof fn lemma_list_le_antisymmetric(a: Seq<Seq<char>>, b: Seq<Seq<char>>)
    requires
        list_le(a, b),
        list_le(b, a),
    ensures
        a == b,
    decreases a.len(),
{
    if a.len() > 0 && b.len() > 0 {
        if a[0] != b[0] {
            lemma_text_le_antisymmetric(a[0], b[0]);
        }
        lemma_list_le_antisymmetric(a.drop_first(), b.drop_first());
        assert(a =~= seq![a[0]] + a.drop_first());
        assert(b =~= seq![b[0]] + b.drop_first());
    } else {
        assert(a =~= b);
    }
}

pub fn list_at_most(a: &Vec<&str>, b: &Vec<&str>) -> (r: bool)
    ensures
        r == list_le(a.deep_view(), b.deep_view()),
{
    let ghost x = a.deep_view();
    let ghost y = b.deep_view();
    let mut i: usize = 0;
    assert(x.skip(0) =~= x);
    assert(y.skip(0) =~= y);
    while i < a.len() && i < b.len()
        invariant
            i <= a.len(),
            i <= b.len(),
            x == a.deep_view(),
            y == b.deep_view(),
            list_le(x, y) == list_le(x.skip(i as int), y.skip(i as int)),
        decreases a.len() - i,
    {
        assert(x.skip(i as int)[0] == a@[i as int]@);
        assert(y.skip(i as int)[0] == b@[i as int]@);
        if !same(a[i], b[i]) {
            return text_at_most(a[i], b[i]);
        }
        assert(x.skip(i as int).drop_first() =~= x.skip(i + 1));
        assert(y.skip(i as int).drop_first() =~= y.skip(i + 1));
        i += 1;
    }
    i == a.len()
}

/// Values that are the same when their models are.
pub trait Comparable: DeepView + Sized {
    fn same_as(&self, other: &Self) -> (r: bool)
        ensures
            r == (self.deep_view() == other.deep_view()),
    ;
}

/// A sequence without elements that repeat the one before them.
pub open spec fn without_repeats<V>(s: Seq<V>) -> Seq<V>
    decreases s.len(),
{
    if s.len() == 0 {
        s
    } else {
        let front = without_repeats(s.drop_last());
        if front.len() > 0 && front.last() == s.last() {
            front
        } else {
            front.push(s.last())
        }
    }
}

/// What remains has no repeats, and holds the same elements.
pub proof fn lemma_without_repeats<V>(s: Seq<V>)
    ensures
        forall|i: int|
            0 < i < without_repeats(s).len() ==> without_repeats(s)[i - 1]
                != #[trigger] without_repeats(s)[i],
        forall|x: V| without_repeats(s).contains(x) <==> s.contains(x),
        s.len() > 0 ==> without_repeats(s).len() > 0 && without_repeats(s).last() == s.last(),
    decreases s.len(),
{
    if s.len() > 0 {
        let t = s.drop_last();
        lemma_without_repeats(t);
        let front = without_repeats(t);
        let all = without_repeats(s);
        assert forall|i: int| 0 < i < all.len() implies all[i - 1] != #[trigger] all[i] by {
            if i < front.len() {
                assert(front[i - 1] != front[i]);
            }
        }
        assert forall|x: V| all.contains(x) <==> s.contains(x) by {
            if s.contains(x) {
                let i = choose|i: int| 0 <= i < s.len() && s[i] == x;
                if i < t.len() {
                    assert(t[i] == x);
                    assert(t.contains(x));
                    assert(front.contains(x));
                    let k = choose|k: int| 0 <= k < front.len() && front[k] == x;
                    assert(all[k] == x);
                } else {
                    assert(all[all.len() - 1] == x);
                }
            }
            if all.contains(x) {
                let k = choose|k: int| 0 <= k < all.len() && all[k] == x;
                if k < front.len() {
                    assert(front[k] == x);
                    assert(t.contains(x));
                    let i = choose|i: int| 0 <= i < t.len() && t[i] == x;
                    assert(s[i] == x);
                } else {
                    assert(s[s.len() - 1] == x);
                }
            }
        }
    }
}

/// A sequence without repeats stays as it is.
pub proof fn lemma_no_repeats_fixpoint<V>(s: Seq<V>)
    requires
        forall|i: int| 0 < i < s.len() ==> s[i - 1] != #[trigger] s[i],
    ensures
        without_repeats(s) == s,
    decreases s.len(),
{
    if s.len() > 0 {
        let t = s.drop_last();
        assert forall|i: int| 0 < i < t.len() implies t[i - 1] != #[trigger] t[i] by {
            assert(s[i - 1] != s[i]);
        }
        lemma_no_repeats_fixpoint(t);
        if t.len() > 0 {
            assert(s[s.len() - 2] != s[s.len() - 1]);
        }
        assert(t.push(s.last()) =~= s);
    }
}

proof fn lemma_without_repeats_sorted<T: Ranked>(s: Seq<T::V>)
    requires
        is_sorted::<T>(s),
    ensures
        is_sorted::<T>(without_repeats(s)),
        forall|i: int|
            0 <= i < without_repeats(s).len() && s.len() > 0 ==> without_repeats(s)[i] == s.last()
                || T::ranks(#[trigger] without_repeats(s)[i], s.last()),
    decreases s.len(),
{
    if s.len() > 0 {
        let t = s.drop_last();
        assert forall|i: int, j: int| 0 <= i < j < t.len() implies T::ranks(
            #[trigger] t[i],
            #[trigger] t[j],
        ) by {
            assert(T::ranks(s[i], s[j]));
        }
        lemma_without_repeats_sorted::<T>(t);
        lemma_without_repeats(t);
        let front = without_repeats(t);
        let all = without_repeats(s);
        assert forall|i: int| 0 <= i < front.len() implies T::ranks(
            #[trigger] front[i],
            s.last(),
        ) by {
            assert(front.contains(front[i]));
            assert(t.contains(front[i]));
            let k = choose|k: int| 0 <= k < t.len() && t[k] == front[i];
            assert(T::ranks(s[k], s[s.len() - 1]));
        }
        assert forall|i: int, j: int| 0 <= i < j < all.len() implies T::ranks(
            #[trigger] all[i],
            #[trigger] all[j],
        ) by {
            if j < front.len() {
                assert(T::ranks(front[i], front[j]));
            } else {
                assert(all[i] == front[i]);
            }
        }
    }
}

/// The elements of a sequence in order, each once.
pub open spec fn sorted_set<T: Ranked>(s: Seq<T::V>) -> Seq<T::V> {
    without_repeats(sorted::<T>(s))
}

/// Ordering the elements of a set again changes nothing.
pub proof fn lemma_sorted_set_idempotent<T: Ranked>(s: Seq<T::V>)
    ensures
        sorted_set::<T>(sorted_set::<T>(s)) == sorted_set::<T>(s),
        is_sorted::<T>(sorted_set::<T>(s)),
{
    lemma_sorted::<T>(s);
    lemma_without_repeats_sorted::<T>(sorted::<T>(s));
    lemma_without_repeats(sorted::<T>(s));
    lemma_sorted_fixpoint::<T>(sorted_set::<T>(s));
    lemma_no_repeats_fixpoint(sorted_set::<T>(s));
}

/// A sorted set holds the elements of the sequence.
pub proof fn lemma_sorted_set_elements<T: Ranked>(s: Seq<T::V>)
    ensures
        forall|x: T::V| sorted_set::<T>(s).contains(x) <==> s.contains(x),
{
    lemma_sorted::<T>(s);
    lemma_without_repeats(sorted::<T>(s));
    lemma_same_elements(sorted::<T>(s), s);
}

/// Sequences with the same multiset hold the same elements.
pub proof fn lemma_same_elements<V>(a: Seq<V>, b: Seq<V>)
    requires
        a.to_multiset() == b.to_multiset(),
    ensures
        forall|x: V| a.contains(x) <==> b.contains(x),
{
    a.to_multiset_ensures();
    b.to_multiset_ensures();
    assert forall|x: V| a.contains(x) <==> b.contains(x) by {
        assert(a.contains(x) <==> a.to_multiset().count(x) > 0);
        assert(b.contains(x) <==> b.to_multiset().count(x) > 0);
    }
}

/// Whether an order tells any two different elements apart.
pub open spec fn tells_apart<T: Ranked>(s: Seq<T::V>) -> bool {
    forall|x: T::V, y: T::V|
        s.contains(x) && s.contains(y) && #[trigger] T::ranks(x, y) && T::ranks(y, x) ==> x == y
}

/// Orders that tell any two different elements apart sort every rearrangement of a
/// sequence the same way.
pub proof fn lemma_sorted_unique<T: Ranked>(a: Seq<T::V>, b: Seq<T::V>)
    requires
        a.to_multiset() == b.to_multiset(),
        tells_apart::<T>(a),
    ensures
        sorted::<T>(a) == sorted::<T>(b),
{
    lemma_sorted::<T>(a);
    lemma_sorted::<T>(b);
    lemma_same_elements(sorted::<T>(a), a);
    lemma_sorted_same::<T>(sorted::<T>(a), sorted::<T>(b));
}

proof fn lemma_sorted_same<T: Ranked>(a: Seq<T::V>, b: Seq<T::V>)
    requires
        is_sorted::<T>(a),
        is_sorted::<T>(b),
        a.to_multiset() == b.to_multiset(),
        tells_apart::<T>(a),
    ensures
        a == b,
    decreases a.len(),
{
    a.to_multiset_ensures();
    b.to_multiset_ensures();
    assert(a.len() == b.len()) by {
        assert(a.to_multiset().len() == a.len());
        assert(b.to_multiset().len() == b.len());
    }
    if a.len() == 0 {
        assert(a =~= b);
    } else {
        lemma_same_elements(a, b);
        let x = a.last();
        let y = b.last();
        assert(x == y) by {
            assert(a.contains(y)) by {
                assert(b[b.len() - 1] == y);
                assert(b.contains(y));
            }
            assert(b.contains(x)) by {
                assert(a[a.len() - 1] == x);
                assert(a.contains(x));
            }
            assert(a.contains(x)) by {
                assert(a[a.len() - 1] == x);
            }
            let i = choose|i: int| 0 <= i < a.len() && a[i] == y;
            let j = choose|j: int| 0 <= j < b.len() && b[j] == x;
            if i < a.len() - 1 && j < b.len() - 1 {
                assert(T::ranks(a[i], a[a.len() - 1]));
                assert(T::ranks(b[j], b[b.len() - 1]));
            }
        }
        let s = a.drop_last();
        let t = b.drop_last();
        assert(a =~= s.push(x));
        assert(b =~= t.push(x));
        assert(tells_apart::<T>(s)) by {
            assert forall|v: T::V, w: T::V|
                s.contains(v) && s.contains(w) && #[trigger] T::ranks(v, w) && T::ranks(
                    w,
                    v,
                ) implies v == w by {
                let k = choose|k: int| 0 <= k < s.len() && s[k] == v;
                let l = choose|l: int| 0 <= l < s.len() && s[l] == w;
                assert(a[k] == v && a[l] == w);
                assert(a.contains(v) && a.contains(w));
            }
        }
        s.to_multiset_ensures();
        t.to_multiset_ensures();
        assert(s.to_multiset() =~= a.to_multiset().remove(x));
        assert(t.to_multiset() =~= b.to_multiset().remove(x));
        assert forall|i: int, j: int| 0 <= i < j < s.len() implies T::ranks(
            #[trigger] s[i],
            #[trigger] s[j],
        ) by {
            assert(T::ranks(a[i], a[j]));
        }
        assert forall|i: int, j: int| 0 <= i < j < t.len() implies T::ranks(
            #[trigger] t[i],
            #[trigger] t[j],
        ) by {
            assert(T::ranks(b[i], b[j]));
        }
        lemma_sorted_same::<T>(s, t);
    }
}

/// Drops elements that repeat the one before them.
pub fn dedup<T: Comparable>(items: Vec<T>) -> (r: Vec<T>)
    ensures
        r.deep_view() == without_repeats(items.deep_view()),
{
    let ghost model = items.deep_view();
    let mut out: Vec<T> = Vec::new();
    assert(out.deep_view() =~= without_repeats(model.take(0)));
    for item in it: items
        invariant
            it.seq() == items@,
            model == items.deep_view(),
            out.deep_view() == without_repeats(model.take(it.index())),
    {
        let ghost n = it.index();
        let ghost before = out.deep_view();
        assert(model.take(n + 1).drop_last() =~= model.take(n));
        assert(model.take(n + 1).last() == item.deep_view());
        let repeated = out.len() > 0 && out[out.len() - 1].same_as(&item);
        if !repeated {
            out.push(item);
            assert(out.deep_view() =~= before.push(item.deep_view()));
        }
    }
    assert(model.take(model.len() as int) =~= model);
    out
}

/// Sorts the elements and drops repeats.
pub fn sort_unique<T: Ranked + Comparable>(items: Vec<T>) -> (r: Vec<T>)
    ensures
        r.deep_view() == sorted_set::<T>(items.deep_view()),
{
    dedup(sort(items))
}

impl Ranked for String {
    open spec fn ranks(a: Seq<char>, b: Seq<char>) -> bool {
        text_le(a, b)
    }

    proof fn ranks_total(a: Seq<char>, b: Seq<char>) {
        lemma_text_le_total(a, b);
    }

    proof fn ranks_transitive(a: Seq<char>, b: Seq<char>, c: Seq<char>) {
        lemma_text_le_transitive(a, b, c);
    }

    fn at_most(&self, other: &Self) -> (r: bool) {
        text_at_most(self.as_str(), other.as_str())
    }
}

impl Comparable for String {
    fn same_as(&self, other: &Self) -> (r: bool) {
        same(self.as_str(), other.as_str())
    }
}

} // verus!
