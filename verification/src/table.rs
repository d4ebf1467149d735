//! Maps that are walked in the order of their keys.
use vstd::prelude::*;

use crate::order::{lemma_text_le_antisymmetric, Comparable, Ranked};

verus! {

/// A key: ordered, with no two different keys that rank alike.
pub trait TableKey: Ranked + Comparable {
    proof fn ranks_antisymmetric(a: Self::V, b: Self::V)
        requires
            Self::ranks(a, b),
            Self::ranks(b, a),
        ensures
            a == b,
    ;
}

impl TableKey for String {
    proof fn ranks_antisymmetric(a: Seq<char>, b: Seq<char>) {
        lemma_text_le_antisymmetric(a, b);
    }
}

/// The map that a list of pairs stands for; later pairs replace earlier ones.
pub open spec fn pairs_map<K, V>(pairs: Seq<(K, V)>) -> Map<K, V>
    decreases pairs.len(),
{
    if pairs.len() == 0 {
        Map::empty()
    } else {
        pairs_map(pairs.drop_last()).insert(pairs.last().0, pairs.last().1)
    }
}

/// Whether no two pairs share a key.
pub open spec fn keys_differ<K, V>(pairs: Seq<(K, V)>) -> bool {
    forall|i: int, j: int|
        0 <= i < j < pairs.len() ==> (#[trigger] pairs[i]).0 != (#[trigger] pairs[j]).0
}

/// With different keys, the map holds exactly the pairs.
pub proof fn lemma_pairs_map<K, V>(pairs: Seq<(K, V)>)
    requires
        keys_differ(pairs),
    ensures
        forall|i: int|
            0 <= i < pairs.len() ==> pairs_map(pairs).dom().contains((#[trigger] pairs[i]).0)
                && pairs_map(pairs)[pairs[i].0] == pairs[i].1,
        forall|k: K| #[trigger]
            pairs_map(pairs).dom().contains(k) ==> exists|i: int|
                0 <= i < pairs.len() && (#[trigger] pairs[i]).0 == k,
    decreases pairs.len(),
{
    if pairs.len() > 0 {
        let front = pairs.drop_last();
        assert forall|i: int, j: int| 0 <= i < j < front.len() implies (#[trigger] front[i]).0 != (
        #[trigger] front[j]).0 by {
            assert(pairs[i].0 != pairs[j].0);
        }
        lemma_pairs_map(front);
        let all = pairs_map(pairs);
        assert forall|i: int| 0 <= i < pairs.len() implies all.dom().contains(
            (#[trigger] pairs[i]).0,
        ) && all[pairs[i].0] == pairs[i].1 by {
            if i < front.len() {
                assert(front[i] == pairs[i]);
                assert(pairs[i].0 != pairs[pairs.len() - 1].0);
            }
        }
        assert forall|k: K| #[trigger] all.dom().contains(k) implies exists|i: int|
            0 <= i < pairs.len() && (#[trigger] pairs[i]).0 == k by {
            if pairs.last().0 == k {
                assert(pairs[pairs.len() - 1].0 == k);
            } else {
                assert(pairs_map(front).dom().contains(k));
                let i = choose|i: int| 0 <= i < front.len() && (#[trigger] front[i]).0 == k;
                assert(pairs[i].0 == k);
            }
        }
    }
}

/// Whether keys stand in order, each once.
pub open spec fn ascends<K: TableKey, W>(pairs: Seq<(K::V, W)>) -> bool {
    forall|i: int, j: int|
        0 <= i < j < pairs.len() ==> (#[trigger] pairs[i]).0 != (#[trigger] pairs[j]).0 && K::ranks(
            pairs[i].0,
            pairs[j].0,
        )
}

/// A map from keys to values.
#[derive(Debug, PartialEq, Eq)]
pub struct Table<K: TableKey, V: DeepView> {
    entries: Vec<(K, V)>,
}

impl<K: TableKey, V: DeepView> DeepView for Table<K, V> {
    type V = Map<K::V, V::V>;

    open spec fn deep_view(&self) -> Map<K::V, V::V> {
        pairs_map(self.pairs())
    }
}

impl<K: TableKey, V: DeepView> Table<K, V> {
    /// The pairs in the order of their keys.
    pub closed spec fn pairs(&self) -> Seq<(K::V, V::V)> {
        Self::pairs_of(self.entries@)
    }

    spec fn pairs_of(entries: Seq<(K, V)>) -> Seq<(K::V, V::V)> {
        Seq::new(entries.len(), |i: int| (entries[i].0.deep_view(), entries[i].1.deep_view()))
    }

    #[verifier::type_invariant]
    spec fn valid(self) -> bool {
        ascends::<K, V::V>(self.pairs())
    }

    pub fn new() -> (r: Self)
        ensures
            r.pairs() == Seq::<(K::V, V::V)>::empty(),
            r.deep_view() == Map::<K::V, V::V>::empty(),
    {
        let r = Table { entries: Vec::new() };
        assert(r.pairs() =~= Seq::<(K::V, V::V)>::empty());
        r
    }

    /// How many keys the map has; the pairs stand in their order.
    pub fn len(&self) -> (r: usize)
        ensures
            r == self.pairs().len(),
            ascends::<K, V::V>(self.pairs()),
    {
        proof {
            use_type_invariant(self);
        }
        self.entries.len()
    }

    pub fn key_at(&self, index: usize) -> (r: &K)
        requires
            index < self.pairs().len(),
        ensures
            r.deep_view() == self.pairs()[index as int].0,
    {
        &self.entries[index].0
    }

    pub fn value_at(&self, index: usize) -> (r: &V)
        requires
            index < self.pairs().len(),
        ensures
            r.deep_view() == self.pairs()[index as int].1,
    {
        &self.entries[index].1
    }

    fn position(&self, key: &K) -> (r: Result<usize, usize>)
        ensures
            match r {
                Ok(at) => at < self.pairs().len() && self.pairs()[at as int].0 == key.deep_view(),
                Err(at) => {
                    &&& at <= self.pairs().len()
                    &&& forall|i: int|
                        0 <= i < at ==> K::ranks((#[trigger] self.pairs()[i]).0, key.deep_view())
                    &&& forall|i: int|
                        at <= i < self.pairs().len() ==> K::ranks(
                            key.deep_view(),
                            (#[trigger] self.pairs()[i]).0,
                        )
                    &&& forall|i: int|
                        0 <= i < self.pairs().len() ==> (#[trigger] self.pairs()[i]).0
                            != key.deep_view()
                },
            },
    {
        proof {
            use_type_invariant(self);
        }
        let ghost pairs = self.pairs();
        let ghost wanted = key.deep_view();
        let mut i: usize = 0;
        while i < self.entries.len()
            invariant
                i <= self.entries.len(),
                pairs == self.pairs(),
                pairs.len() == self.entries.len(),
                ascends::<K, V::V>(pairs),
                wanted == key.deep_view(),
                forall|j: int|
                    0 <= j < i ==> K::ranks(
                        (#[trigger] pairs[j]).0,
                        wanted,
                    ) && pairs[j].0 != wanted,
            decreases self.entries.len() - i,
        {
            assert(pairs[i as int].0 == self.entries@[i as int].0.deep_view());
            if self.entries[i].0.same_as(key) {
                return Ok(i);
            }
            if !self.entries[i].0.at_most(key) {
                proof {
                    K::ranks_total(pairs[i as int].0, wanted);
                    assert forall|j: int| i <= j < pairs.len() implies K::ranks(
                        wanted,
                        (#[trigger] pairs[j]).0,
                    ) && pairs[j].0 != wanted by {
                        if j > i {
                            assert(K::ranks(pairs[i as int].0, pairs[j].0));
                            K::ranks_transitive(wanted, pairs[i as int].0, pairs[j].0);
                            if pairs[j].0 == wanted {
                                K::ranks_antisymmetric(pairs[i as int].0, wanted);
                            }
                        }
                    }
                }
                return Err(i);
            }
            i += 1;
        }
        Err(i)
    }

    pub fn get(&self, key: &K) -> (r: Option<&V>)
        ensures
            match r {
                Some(value) => self.deep_view().dom().contains(key.deep_view())
                    && self.deep_view()[key.deep_view()] == value.deep_view(),
                None => !self.deep_view().dom().contains(key.deep_view()),
            },
    {
        proof {
            use_type_invariant(self);
            lemma_pairs_map(self.pairs());
        }
        match self.position(key) {
            Ok(at) => {
                assert(self.deep_view().dom().contains(self.pairs()[at as int].0));
                Some(&self.entries[at].1)
            },
            Err(_) => None,
        }
    }

    pub fn contains_key(&self, key: &K) -> (r: bool)
        ensures
            r == self.deep_view().dom().contains(key.deep_view()),
    {
        self.get(key).is_some()
    }

    pub fn insert(&mut self, key: K, value: V)
        ensures
            final(self).deep_view() == old(self).deep_view().insert(
                key.deep_view(),
                value.deep_view(),
            ),
    {
        proof {
            use_type_invariant(&*self);
        }
        let ghost before = self.pairs();
        let ghost wanted = key.deep_view();
        let ghost held = value.deep_view();
        let place = self.position(&key);
        let mut entries: Vec<(K, V)> = Vec::new();
        core::mem::swap(&mut entries, &mut self.entries);
        let ghost after;
        match place {
            Ok(at) => {
                entries.set(at, (key, value));
                proof {
                    after = before.update(at as int, (wanted, held));
                    assert forall|i: int, j: int| 0 <= i < j < after.len() implies (
                    #[trigger] after[i]).0 != (#[trigger] after[j]).0 && K::ranks(
                        after[i].0,
                        after[j].0,
                    ) by {
                        assert(before[i].0 != before[j].0 && K::ranks(before[i].0, before[j].0));
                    }
                }
            },
            Err(at) => {
                entries.insert(at, (key, value));
                proof {
                    after = before.insert(at as int, (wanted, held));
                    assert forall|i: int, j: int| 0 <= i < j < after.len() implies (
                    #[trigger] after[i]).0 != (#[trigger] after[j]).0 && K::ranks(
                        after[i].0,
                        after[j].0,
                    ) by {
                        if i < at {
                            assert(after[i] == before[i]);
                            if j > at {
                                assert(after[j] == before[j - 1]);
                            } else if j < at {
                                assert(after[j] == before[j]);
                            }
                        } else {
                            assert(after[j] == before[j - 1]);
                            if i > at {
                                assert(after[i] == before[i - 1]);
                            }
                        }
                    }
                }
            },
        }
        assert(Self::pairs_of(entries@) =~= after);
        let next = Table { entries };
        proof {
            assert(next.pairs() == after);
            lemma_pairs_map(before);
            lemma_pairs_map(after);
            let m = pairs_map(after);
            let n = pairs_map(before).insert(wanted, held);
            match place {
                Ok(at) => {
                    assert(after[at as int] == (wanted, held));
                    assert forall|k: K::V| m.dom().contains(k) <==> n.dom().contains(k) by {
                        if m.dom().contains(k) {
                            let i = choose|i: int|
                                0 <= i < after.len() && (#[trigger] after[i]).0 == k;
                            assert(before[i].0 == k);
                        }
                        if n.dom().contains(k) && k != wanted {
                            let i = choose|i: int|
                                0 <= i < before.len() && (#[trigger] before[i]).0 == k;
                            assert(after[i].0 == k);
                        }
                    }
                    assert forall|k: K::V| m.dom().contains(k) implies m[k] == n[k] by {
                        let i = choose|i: int| 0 <= i < after.len() && (#[trigger] after[i]).0 == k;
                        if i != at {
                            assert(before[i] == after[i]);
                            assert(before[i].0 != before[at as int].0);
                        }
                    }
                },
                Err(at) => {
                    assert(after[at as int] == (wanted, held));
                    assert forall|k: K::V| m.dom().contains(k) <==> n.dom().contains(k) by {
                        if m.dom().contains(k) {
                            let i = choose|i: int|
                                0 <= i < after.len() && (#[trigger] after[i]).0 == k;
                            if i < at {
                                assert(before[i].0 == k);
                            } else if i > at {
                                assert(before[i - 1].0 == k);
                            }
                        }
                        if n.dom().contains(k) && k != wanted {
                            let i = choose|i: int|
                                0 <= i < before.len() && (#[trigger] before[i]).0 == k;
                            if i < at {
                                assert(after[i].0 == k);
                            } else {
                                assert(after[i + 1].0 == k);
                            }
                        }
                    }
                    assert forall|k: K::V| m.dom().contains(k) implies m[k] == n[k] by {
                        let i = choose|i: int| 0 <= i < after.len() && (#[trigger] after[i]).0 == k;
                        if i < at {
                            assert(before[i] == after[i]);
                        } else if i > at {
                            assert(before[i - 1] == after[i]);
                        }
                    }
                },
            }
            assert(m =~= n);
        }
        *self = next;
    }

    pub fn remove(&mut self, key: &K) -> (r: Option<V>)
        ensures
            final(self).deep_view() == old(self).deep_view().remove(key.deep_view()),
            match r {
                Some(value) => old(self).deep_view().dom().contains(key.deep_view())
                    && old(self).deep_view()[key.deep_view()] == value.deep_view(),
                None => !old(self).deep_view().dom().contains(key.deep_view()),
            },
    {
        proof {
            use_type_invariant(&*self);
            lemma_pairs_map(self.pairs());
        }
        let ghost before = self.pairs();
        let ghost wanted = key.deep_view();
        match self.position(key) {
            Ok(at) => {
                let mut entries: Vec<(K, V)> = Vec::new();
                core::mem::swap(&mut entries, &mut self.entries);
                let (_, value) = entries.remove(at);
                let ghost after = before.remove(at as int);
                proof {
                    assert forall|i: int, j: int| 0 <= i < j < after.len() implies (
                    #[trigger] after[i]).0 != (#[trigger] after[j]).0 && K::ranks(
                        after[i].0,
                        after[j].0,
                    ) by {
                        let p = if i < at {
                            i
                        } else {
                            i + 1
                        };
                        let q = if j < at {
                            j
                        } else {
                            j + 1
                        };
                        assert(after[i] == before[p] && after[j] == before[q]);
                    }
                    assert(Self::pairs_of(entries@) =~= after);
                }
                let next = Table { entries };
                proof {
                    assert(next.pairs() == after);
                    lemma_pairs_map(after);
                    let m = pairs_map(after);
                    let n = pairs_map(before).remove(wanted);
                    assert(pairs_map(before).dom().contains(before[at as int].0));
                    assert forall|k: K::V| m.dom().contains(k) <==> n.dom().contains(k) by {
                        if m.dom().contains(k) {
                            let i = choose|i: int|
                                0 <= i < after.len() && (#[trigger] after[i]).0 == k;
                            if i < at {
                                assert(before[i].0 == k);
                                assert(before[i].0 != before[at as int].0);
                            } else {
                                assert(before[i + 1].0 == k);
                                assert(before[at as int].0 != before[i + 1].0);
                            }
                        }
                        if n.dom().contains(k) {
                            let i = choose|i: int|
                                0 <= i < before.len() && (#[trigger] before[i]).0 == k;
                            if i < at {
                                assert(after[i].0 == k);
                            } else {
                                assert(after[i - 1].0 == k);
                            }
                        }
                    }
                    assert forall|k: K::V| m.dom().contains(k) implies m[k] == n[k] by {
                        let i = choose|i: int| 0 <= i < after.len() && (#[trigger] after[i]).0 == k;
                        if i < at {
                            assert(before[i] == after[i]);
                        } else {
                            assert(before[i + 1] == after[i]);
                        }
                    }
                    assert(m =~= n);
                }
                *self = next;
                Some(value)
            },
            Err(_) => {
                assert(self.deep_view().remove(wanted) =~= self.deep_view());
                None
            },
        }
    }
}

} // verus!
