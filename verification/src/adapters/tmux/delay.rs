//! Spans of time, counted in nanoseconds.
use vstd::prelude::*;

verus! {

/// The longest span: as many whole seconds as fit in 64 bits, and almost one more.
pub const MAX_NANOS: u128 = 18446744073709551615999999999;

/// A span of time.
#[derive(Debug, Clone, Copy, PartialEq, Eq, Structural)]
pub struct Delay {
    nanos: u128,
}

impl DeepView for Delay {
    type V = nat;

    closed spec fn deep_view(&self) -> nat {
        self.nanos as nat
    }
}

impl Delay {
    #[verifier::type_invariant]
    spec fn valid(self) -> bool {
        self.nanos <= MAX_NANOS
    }

    pub fn zero() -> (r: Self)
        ensures
            r.deep_view() == 0,
    {
        Delay { nanos: 0 }
    }

    pub fn from_millis(millis: u64) -> (r: Self)
        ensures
            r.deep_view() == millis * 1_000_000,
    {
        Delay { nanos: (millis as u128) * 1_000_000 }
    }

    pub fn from_secs(secs: u64) -> (r: Self)
        ensures
            r.deep_view() == secs * 1_000_000_000,
    {
        Delay { nanos: (secs as u128) * 1_000_000_000 }
    }

    /// A span of whole seconds and a part of one.
    pub fn from_parts(secs: u64, subsec_nanos: u32) -> (r: Self)
        requires
            subsec_nanos < 1_000_000_000,
        ensures
            r.deep_view() == secs * 1_000_000_000 + subsec_nanos,
    {
        Delay { nanos: (secs as u128) * 1_000_000_000 + (subsec_nanos as u128) }
    }

    pub fn is_zero(&self) -> (r: bool)
        ensures
            r == (self.deep_view() == 0),
    {
        self.nanos == 0
    }

    /// The whole seconds of a span.
    pub fn as_secs(&self) -> (r: u64)
        ensures
            r == self.deep_view() / 1_000_000_000,
    {
        proof {
            use_type_invariant(self);
        }
        (self.nanos / 1_000_000_000) as u64
    }

    /// What is left of a span behind its whole seconds.
    pub fn subsec_nanos(&self) -> (r: u32)
        ensures
            r == self.deep_view() % 1_000_000_000,
    {
        (self.nanos % 1_000_000_000) as u32
    }

    /// The whole milliseconds of a span, or the largest number where there are more.
    pub fn as_millis(&self) -> (r: u64)
        ensures
            r == (if self.deep_view() / 1_000_000 <= u64::MAX {
                (self.deep_view() / 1_000_000) as int
            } else {
                u64::MAX as int
            }),
    {
        let millis: u128 = self.nanos / 1_000_000;
        if millis <= 0xffff_ffff_ffff_ffff {
            millis as u64
        } else {
            0xffff_ffff_ffff_ffff
        }
    }

    /// The span taken `count` times, or the longest one where that is longer.
    pub fn saturating_mul(&self, count: u32) -> (r: Self)
        ensures
            r.deep_view() == (if self.deep_view() * count <= MAX_NANOS {
                (self.deep_view() * count) as int
            } else {
                MAX_NANOS as int
            }),
    {
        proof {
            use_type_invariant(self);
        }
        let n: u128 = self.nanos;
        let c: u128 = count as u128;
        assert(n * c <= 18446744073709551615999999999 * 4294967295) by (nonlinear_arith)
            requires
                n <= 18446744073709551615999999999,
                c <= 4294967295,
        ;
        let product: u128 = n * c;
        if product <= MAX_NANOS {
            Delay { nanos: product }
        } else {
            Delay { nanos: MAX_NANOS }
        }
    }

    pub fn at_most(&self, limit: Delay) -> (r: Self)
        ensures
            r.deep_view() == (if self.deep_view() <= limit.deep_view() {
                self.deep_view()
            } else {
                limit.deep_view()
            }),
            limit.deep_view() <= MAX_NANOS,
    {
        proof {
            use_type_invariant(&limit);
        }
        if self.nanos <= limit.nanos {
            *self
        } else {
            limit
        }
    }

    pub fn at_least(&self, limit: Delay) -> (r: Self)
        ensures
            r.deep_view() == (if self.deep_view() >= limit.deep_view() {
                self.deep_view()
            } else {
                limit.deep_view()
            }),
    {
        if self.nanos >= limit.nanos {
            *self
        } else {
            limit
        }
    }

    /// Whether a span is at least as long as another one.
    pub fn reaches(&self, other: Delay) -> (r: bool)
        ensures
            r == (self.deep_view() >= other.deep_view()),
    {
        self.nanos >= other.nanos
    }

    /// What is left of a span behind another one.
    pub fn minus(&self, other: Delay) -> (r: Self)
        requires
            other.deep_view() <= self.deep_view(),
        ensures
            r.deep_view() == self.deep_view() - other.deep_view(),
    {
        proof {
            use_type_invariant(self);
        }
        Delay { nanos: self.nanos - other.nanos }
    }
}

} // verus!
