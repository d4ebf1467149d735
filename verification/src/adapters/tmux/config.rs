//! How input is typed into an agent: how often it is submitted, and how long the
//! agent is given to take it in.
use vstd::prelude::*;
use vstd::utf8::encode_utf8;

use crate::input_ledger::{LedgerView, MachineInputClock, MachineInputLedger, SinkView};

use super::delay::Delay;

verus! {

broadcast use vstd::string::group_string_axioms;

/// How input is typed into an agent.
#[derive(Debug)]
pub struct TmuxInputTransactionConfig {
    ledger: MachineInputLedger,
    clock: MachineInputClock,
    submit_key_count: usize,
    prompt_to_submit_delay: Delay,
    prompt_byte_delay: Delay,
    max_prompt_to_submit_delay: Delay,
    submit_key_delay: Delay,
}

#[verifier::ext_equal]
pub struct InputConfigView {
    pub ledger: LedgerView,
    pub clock: MachineInputClock,
    pub submit_key_count: usize,
    pub prompt_to_submit_delay: nat,
    pub prompt_byte_delay: nat,
    pub max_prompt_to_submit_delay: nat,
    pub submit_key_delay: nat,
}

impl DeepView for TmuxInputTransactionConfig {
    type V = InputConfigView;

    closed spec fn deep_view(&self) -> InputConfigView {
        InputConfigView {
            ledger: self.ledger.deep_view(),
            clock: self.clock,
            submit_key_count: self.submit_key_count,
            prompt_to_submit_delay: self.prompt_to_submit_delay.deep_view(),
            prompt_byte_delay: self.prompt_byte_delay.deep_view(),
            max_prompt_to_submit_delay: self.max_prompt_to_submit_delay.deep_view(),
            submit_key_delay: self.submit_key_delay.deep_view(),
        }
    }
}

/// The number of bytes of a text, or the largest 32-bit number where there are more.
pub open spec fn byte_count(text: Seq<char>) -> nat {
    if encode_utf8(text).len() <= u32::MAX {
        encode_utf8(text).len()
    } else {
        u32::MAX as nat
    }
}

impl InputConfigView {
    /// How long the agent is given before input is submitted: the time for every byte,
    /// but no more than the limit, and never less than the time for any input.
    pub open spec fn delay_before_submit(self, text: Seq<char>) -> nat {
        let by_bytes = self.prompt_byte_delay * byte_count(text);
        let capped = if by_bytes <= self.max_prompt_to_submit_delay {
            by_bytes
        } else {
            self.max_prompt_to_submit_delay
        };
        if self.prompt_to_submit_delay >= capped {
            self.prompt_to_submit_delay
        } else {
            capped
        }
    }

    /// The settings of a run, with the given ledger.
    pub open spec fn runtime(ledger: LedgerView) -> InputConfigView {
        InputConfigView {
            ledger,
            clock: MachineInputClock::Realtime,
            submit_key_count: 1,
            prompt_to_submit_delay: 250 * 1_000_000,
            prompt_byte_delay: 3 * 1_000_000,
            max_prompt_to_submit_delay: 30 * 1_000_000_000,
            submit_key_delay: 250 * 1_000_000,
        }
    }
}

impl InputConfigView {
    /// The settings of a run, with the ledger that a run has by default.
    pub open spec fn default_runtime() -> InputConfigView {
        InputConfigView::runtime(LedgerView { sink: SinkView::RuntimeDefault, sequence: 0 })
    }
}

impl TmuxInputTransactionConfig {
    pub fn runtime() -> (r: Self)
        ensures
            r.deep_view() == InputConfigView::default_runtime(),
    {
        TmuxInputTransactionConfig::runtime_with_ledger(MachineInputLedger::runtime_default())
    }

    pub fn runtime_with_ledger(ledger: MachineInputLedger) -> (r: Self)
        ensures
            r.deep_view() == InputConfigView::runtime(ledger.deep_view()),
    {
        TmuxInputTransactionConfig {
            ledger,
            clock: MachineInputClock::realtime(),
            submit_key_count: 1,
            prompt_to_submit_delay: Delay::from_millis(250),
            prompt_byte_delay: Delay::from_millis(3),
            max_prompt_to_submit_delay: Delay::from_secs(30),
            submit_key_delay: Delay::from_millis(250),
        }
    }

    /// Settings without delays, at a fixed time.
    pub fn deterministic(ledger: MachineInputLedger, timestamp_ms: u64) -> (r: Self)
        ensures
            r.deep_view() == (InputConfigView {
                ledger: ledger.deep_view(),
                clock: MachineInputClock::Fixed(timestamp_ms),
                submit_key_count: 1,
                prompt_to_submit_delay: 0,
                prompt_byte_delay: 0,
                max_prompt_to_submit_delay: 0,
                submit_key_delay: 0,
            }),
    {
        TmuxInputTransactionConfig {
            ledger,
            clock: MachineInputClock::fixed(timestamp_ms),
            submit_key_count: 1,
            prompt_to_submit_delay: Delay::zero(),
            prompt_byte_delay: Delay::zero(),
            max_prompt_to_submit_delay: Delay::zero(),
            submit_key_delay: Delay::zero(),
        }
    }

    pub fn with_ledger(self, ledger: MachineInputLedger) -> (r: Self)
        ensures
            r.deep_view() == (InputConfigView { ledger: ledger.deep_view(), ..self.deep_view() }),
    {
        let mut next = self;
        next.ledger = ledger;
        next
    }

    /// Input is submitted at least once.
    pub fn with_submit_key_count(self, submit_key_count: usize) -> (r: Self)
        ensures
            r.deep_view() == (InputConfigView {
                submit_key_count: if submit_key_count >= 1 {
                    submit_key_count
                } else {
                    1
                },
                ..self.deep_view()
            }),
    {
        let mut next = self;
        next.submit_key_count = if submit_key_count >= 1 {
            submit_key_count
        } else {
            1
        };
        next
    }

    pub fn with_prompt_to_submit_delay(self, delay: Delay) -> (r: Self)
        ensures
            r.deep_view() == (InputConfigView {
                prompt_to_submit_delay: delay.deep_view(),
                ..self.deep_view()
            }),
    {
        let mut next = self;
        next.prompt_to_submit_delay = delay;
        next
    }

    pub fn with_prompt_byte_delay(self, delay: Delay) -> (r: Self)
        ensures
            r.deep_view() == (InputConfigView {
                prompt_byte_delay: delay.deep_view(),
                ..self.deep_view()
            }),
    {
        let mut next = self;
        next.prompt_byte_delay = delay;
        next
    }

    pub fn with_max_prompt_to_submit_delay(self, delay: Delay) -> (r: Self)
        ensures
            r.deep_view() == (InputConfigView {
                max_prompt_to_submit_delay: delay.deep_view(),
                ..self.deep_view()
            }),
    {
        let mut next = self;
        next.max_prompt_to_submit_delay = delay;
        next
    }

    pub fn with_submit_key_delay(self, delay: Delay) -> (r: Self)
        ensures
            r.deep_view() == (InputConfigView {
                submit_key_delay: delay.deep_view(),
                ..self.deep_view()
            }),
    {
        let mut next = self;
        next.submit_key_delay = delay;
        next
    }

    /// How long the agent is given before input is submitted.
    pub fn prompt_to_submit_delay(&self, text: &str) -> (r: Delay)
        ensures
            r.deep_view() == self.deep_view().delay_before_submit(text@),
    {
        let bytes: usize = text.as_bytes().len();
        let count: u32 = if bytes <= 0xffff_ffff {
            bytes as u32
        } else {
            0xffff_ffff
        };
        let limit = self.max_prompt_to_submit_delay;
        let scaled = self.prompt_byte_delay.saturating_mul(count).at_most(limit);
        self.prompt_to_submit_delay.at_least(scaled)
    }

    pub fn submit_key_count(&self) -> (r: usize)
        ensures
            r == self.deep_view().submit_key_count,
    {
        self.submit_key_count
    }

    pub fn submit_key_delay(&self) -> (r: Delay)
        ensures
            r.deep_view() == self.deep_view().submit_key_delay,
    {
        self.submit_key_delay
    }

    pub fn clock(&self) -> (r: MachineInputClock)
        ensures
            r == self.deep_view().clock,
    {
        self.clock
    }

    pub fn ledger(&self) -> (r: &MachineInputLedger)
        ensures
            r.deep_view() == self.deep_view().ledger,
    {
        &self.ledger
    }
}

/// The delay before input is submitted is at least that for any input, and no longer than
/// that or the limit, whichever is longer.
pub proof fn lemma_delay_is_bounded(config: InputConfigView, text: Seq<char>)
    ensures
        config.delay_before_submit(text) >= config.prompt_to_submit_delay,
        config.delay_before_submit(text) <= config.prompt_to_submit_delay
            || config.delay_before_submit(text) <= config.max_prompt_to_submit_delay,
{
}

/// Longer input is never given less time.
pub proof fn lemma_delay_grows(config: InputConfigView, a: Seq<char>, b: Seq<char>)
    requires
        encode_utf8(a).len() <= encode_utf8(b).len(),
    ensures
        config.delay_before_submit(a) <= config.delay_before_submit(b),
{
    let x = byte_count(a);
    let y = byte_count(b);
    let d = config.prompt_byte_delay;
    assert(d * x <= d * y) by (nonlinear_arith)
        requires
            x <= y,
    ;
}

} // verus!
