//! The keys under which the driver keeps deliveries and allocations.
use vstd::prelude::*;

use crate::number::{decimal, decimal_text};
use crate::order::{
    lemma_text_le_antisymmetric, lemma_text_le_total, lemma_text_le_transitive, text_at_most,
    text_le, Comparable, Ranked,
};
use crate::table::{pairs_map, Table, TableKey};
use crate::text::{cat3, cat5, same};

verus! {

broadcast use vstd::string::group_string_axioms;

/// A delivery: the activation that it goes to, and what is delivered to which allocation.
#[derive(Debug)]
pub struct DeliveryKey {
    pub activation_id: String,
    pub role: String,
}

#[verifier::ext_equal]
pub struct DeliveryKeyView {
    pub activation_id: Seq<char>,
    pub role: Seq<char>,
}

impl DeepView for DeliveryKey {
    type V = DeliveryKeyView;

    open spec fn deep_view(&self) -> DeliveryKeyView {
        DeliveryKeyView { activation_id: self.activation_id@, role: self.role@ }
    }
}

impl Clone for DeliveryKey {
    fn clone(&self) -> (r: Self)
        ensures
            r.deep_view() == self.deep_view(),
    {
        DeliveryKey { activation_id: self.activation_id.clone(), role: self.role.clone() }
    }
}

impl Comparable for DeliveryKey {
    fn same_as(&self, other: &Self) -> (r: bool) {
        same(self.activation_id.as_str(), other.activation_id.as_str()) && same(
            self.role.as_str(),
            other.role.as_str(),
        )
    }
}

impl Ranked for DeliveryKey {
    open spec fn ranks(a: DeliveryKeyView, b: DeliveryKeyView) -> bool {
        if a.activation_id == b.activation_id {
            text_le(a.role, b.role)
        } else {
            text_le(a.activation_id, b.activation_id)
        }
    }

    proof fn ranks_total(a: DeliveryKeyView, b: DeliveryKeyView) {
        lemma_text_le_total(a.activation_id, b.activation_id);
        lemma_text_le_total(a.role, b.role);
    }

    proof fn ranks_transitive(a: DeliveryKeyView, b: DeliveryKeyView, c: DeliveryKeyView) {
        if a.activation_id == b.activation_id && b.activation_id == c.activation_id {
            lemma_text_le_transitive(a.role, b.role, c.role);
        } else if a.activation_id == b.activation_id {
        } else if b.activation_id == c.activation_id {
        } else {
            lemma_text_le_transitive(a.activation_id, b.activation_id, c.activation_id);
            if a.activation_id == c.activation_id {
                lemma_text_le_antisymmetric(a.activation_id, b.activation_id);
            }
        }
    }

    fn at_most(&self, other: &Self) -> (r: bool) {
        if same(self.activation_id.as_str(), other.activation_id.as_str()) {
            text_at_most(self.role.as_str(), other.role.as_str())
        } else {
            text_at_most(self.activation_id.as_str(), other.activation_id.as_str())
        }
    }
}

impl TableKey for DeliveryKey {
    proof fn ranks_antisymmetric(a: DeliveryKeyView, b: DeliveryKeyView) {
        if a.activation_id == b.activation_id {
            lemma_text_le_antisymmetric(a.role, b.role);
        } else {
            lemma_text_le_antisymmetric(a.activation_id, b.activation_id);
        }
    }
}

/// The key of a delivery.
pub open spec fn key_of(
    activation_id: Seq<char>,
    role: Seq<char>,
    message_id: Option<Seq<char>>,
    generation: u64,
) -> DeliveryKeyView {
    DeliveryKeyView {
        activation_id,
        role: match message_id {
            Some(message_id) => role + ":"@ + message_id + "@"@ + decimal(generation as nat),
            None => role + "@"@ + decimal(generation as nat),
        },
    }
}

pub fn delivery_key(
    activation_id: &str,
    role: &str,
    message_id: Option<&str>,
    allocation_generation: u64,
) -> (r: DeliveryKey)
    ensures
        r.deep_view() == key_of(
            activation_id@,
            role@,
            message_id.deep_view(),
            allocation_generation,
        ),
{
    let generation = decimal_text(allocation_generation);
    let role = match message_id {
        Some(message_id) => cat5(role, ":", message_id, "@", generation.as_str()),
        None => cat3(role, "@", generation.as_str()),
    };
    DeliveryKey { activation_id: activation_id.to_string(), role }
}

/// An allocation of a pane to an activation.
#[derive(Debug)]
pub struct AllocationKey {
    pub activation_id: String,
    pub generation: u64,
}

#[verifier::ext_equal]
pub struct AllocationKeyView {
    pub activation_id: Seq<char>,
    pub generation: u64,
}

impl DeepView for AllocationKey {
    type V = AllocationKeyView;

    open spec fn deep_view(&self) -> AllocationKeyView {
        AllocationKeyView { activation_id: self.activation_id@, generation: self.generation }
    }
}

impl Clone for AllocationKey {
    fn clone(&self) -> (r: Self)
        ensures
            r.deep_view() == self.deep_view(),
    {
        AllocationKey { activation_id: self.activation_id.clone(), generation: self.generation }
    }
}

impl Comparable for AllocationKey {
    fn same_as(&self, other: &Self) -> (r: bool) {
        self.generation == other.generation && same(
            self.activation_id.as_str(),
            other.activation_id.as_str(),
        )
    }
}

impl Ranked for AllocationKey {
    open spec fn ranks(a: AllocationKeyView, b: AllocationKeyView) -> bool {
        if a.activation_id == b.activation_id {
            a.generation <= b.generation
        } else {
            text_le(a.activation_id, b.activation_id)
        }
    }

    proof fn ranks_total(a: AllocationKeyView, b: AllocationKeyView) {
        lemma_text_le_total(a.activation_id, b.activation_id);
    }

    proof fn ranks_transitive(a: AllocationKeyView, b: AllocationKeyView, c: AllocationKeyView) {
        if a.activation_id != b.activation_id && b.activation_id != c.activation_id {
            lemma_text_le_transitive(a.activation_id, b.activation_id, c.activation_id);
            if a.activation_id == c.activation_id {
                lemma_text_le_antisymmetric(a.activation_id, b.activation_id);
            }
        }
    }

    fn at_most(&self, other: &Self) -> (r: bool) {
        if same(self.activation_id.as_str(), other.activation_id.as_str()) {
            self.generation <= other.generation
        } else {
            text_at_most(self.activation_id.as_str(), other.activation_id.as_str())
        }
    }
}

impl TableKey for AllocationKey {
    proof fn ranks_antisymmetric(a: AllocationKeyView, b: AllocationKeyView) {
        if a.activation_id != b.activation_id {
            lemma_text_le_antisymmetric(a.activation_id, b.activation_id);
        }
    }
}

pub fn allocation_key(activation_id: &str, generation: u64) -> (r: AllocationKey)
    ensures
        r.deep_view() == (AllocationKeyView { activation_id: activation_id@, generation }),
{
    AllocationKey { activation_id: activation_id.to_string(), generation }
}

/// A set of allocations.
#[derive(Debug)]
pub struct AllocationSet {
    held: Table<AllocationKey, bool>,
}

impl View for AllocationSet {
    type V = Set<AllocationKeyView>;

    closed spec fn view(&self) -> Set<AllocationKeyView> {
        self.held.deep_view().dom()
    }
}

/// Allocations without those of one activation.
pub open spec fn without_activation(
    allocations: Set<AllocationKeyView>,
    activation_id: Seq<char>,
) -> Set<AllocationKeyView> {
    allocations.filter(|key: AllocationKeyView| key.activation_id != activation_id)
}

impl AllocationSet {
    pub fn new() -> (r: Self)
        ensures
            r@ == Set::<AllocationKeyView>::empty(),
    {
        let r = AllocationSet { held: Table::new() };
        assert(r@ =~= Set::<AllocationKeyView>::empty());
        r
    }

    pub fn contains(&self, activation_id: &str, generation: u64) -> (r: bool)
        ensures
            r == self@.contains(AllocationKeyView { activation_id: activation_id@, generation }),
    {
        self.held.contains_key(&allocation_key(activation_id, generation))
    }

    pub fn insert(&mut self, activation_id: &str, generation: u64)
        ensures
            final(self)@ == old(self)@.insert(
                AllocationKeyView { activation_id: activation_id@, generation },
            ),
    {
        self.held.insert(allocation_key(activation_id, generation), true);
        assert(self@ =~= old(self)@.insert(
            AllocationKeyView { activation_id: activation_id@, generation },
        ));
    }

    /// Drops every allocation of an activation.
    pub fn remove_activation(&mut self, activation_id: &str)
        ensures
            final(self)@ == without_activation(old(self)@, activation_id@),
    {
        let n: usize = self.held.len();
        let ghost pairs = self.held.pairs();
        let mut kept: Table<AllocationKey, bool> = Table::new();
        let mut i: usize = 0;
        assert(pairs.take(0) =~= Seq::<(AllocationKeyView, bool)>::empty());
        assert(without_activation(pairs_map(pairs.take(0)).dom(), activation_id@) =~= Set::empty());
        while i < n
            invariant
                i <= n,
                pairs == self.held.pairs(),
                n == pairs.len(),
                kept.deep_view().dom() == without_activation(
                    pairs_map(pairs.take(i as int)).dom(),
                    activation_id@,
                ),
            decreases n - i,
        {
            let ghost before = pairs_map(pairs.take(i as int)).dom();
            assert(pairs.take(i + 1).drop_last() =~= pairs.take(i as int));
            assert(pairs.take(i + 1).last() == pairs[i as int]);
            let key = self.held.key_at(i);
            let ghost held = kept.deep_view().dom();
            if !same(key.activation_id.as_str(), activation_id) {
                kept.insert(key.clone(), true);
                assert(kept.deep_view().dom() =~= held.insert(pairs[i as int].0));
            }
            assert(kept.deep_view().dom() =~= without_activation(
                before.insert(pairs[i as int].0),
                activation_id@,
            ));
            assert(pairs_map(pairs.take(i + 1)).dom() =~= before.insert(pairs[i as int].0));
            i += 1;
        }
        assert(pairs.take(n as int) =~= pairs);
        self.held = kept;
    }
}

} // verus!
