//! What a hook tells an agent that wants to stop.
use vstd::prelude::*;

verus! {

broadcast use vstd::string::group_string_axioms;

/// Who wants to stop.
#[derive(Debug, PartialEq, Eq)]
pub struct StopHookInput {
    session_id: String,
    activation_id: String,
}

#[verifier::ext_equal]
pub struct StopHookInputView {
    pub session_id: Seq<char>,
    pub activation_id: Seq<char>,
}

impl DeepView for StopHookInput {
    type V = StopHookInputView;

    closed spec fn deep_view(&self) -> StopHookInputView {
        StopHookInputView {
            session_id: self.session_id.deep_view(),
            activation_id: self.activation_id.deep_view(),
        }
    }
}

impl Clone for StopHookInput {
    fn clone(&self) -> (r: Self)
        ensures
            r.deep_view() == self.deep_view(),
    {
        let r = StopHookInput {
            session_id: self.session_id.clone(),
            activation_id: self.activation_id.clone(),
        };
        r
    }
}

impl StopHookInput {
    pub fn new(session_id: String, activation_id: String) -> (r: Self)
        ensures
            r.deep_view() == (StopHookInputView {
                session_id: session_id@,
                activation_id: activation_id@,
            }),
    {
        StopHookInput { session_id, activation_id }
    }

    pub fn session_id(&self) -> (r: &str)
        ensures
            r@ == self.deep_view().session_id,
    {
        self.session_id.as_str()
    }

    pub fn activation_id(&self) -> (r: &str)
        ensures
            r@ == self.deep_view().activation_id,
    {
        self.activation_id.as_str()
    }
}

/// What the driver decided.
#[derive(Debug, PartialEq, Eq)]
pub enum DriverDecision {
    Allow,
    Block { reason: String },
}

#[verifier::ext_equal]
pub enum DecisionView {
    Allow,
    Block { reason: Seq<char> },
}

impl DeepView for DriverDecision {
    type V = DecisionView;

    open spec fn deep_view(&self) -> DecisionView {
        match self {
            DriverDecision::Allow => DecisionView::Allow,
            DriverDecision::Block { reason } => DecisionView::Block { reason: reason@ },
        }
    }
}

/// What a hook asks for.
#[derive(Debug, Clone, Copy, PartialEq, Eq, Structural)]
pub enum HookAction {
    Allow,
    Block,
}

impl DeepView for HookAction {
    type V = HookAction;

    open spec fn deep_view(&self) -> HookAction {
        *self
    }
}

/// What a hook answers, whichever agent asked.
#[derive(Debug, PartialEq, Eq)]
pub struct NeutralHookPayload {
    action: HookAction,
    session_id: String,
    activation_id: String,
    reason: Option<String>,
}

#[verifier::ext_equal]
pub struct NeutralHookPayloadView {
    pub action: HookAction,
    pub session_id: Seq<char>,
    pub activation_id: Seq<char>,
    pub reason: Option<Seq<char>>,
}

impl DeepView for NeutralHookPayload {
    type V = NeutralHookPayloadView;

    closed spec fn deep_view(&self) -> NeutralHookPayloadView {
        NeutralHookPayloadView {
            action: self.action,
            session_id: self.session_id.deep_view(),
            activation_id: self.activation_id.deep_view(),
            reason: self.reason.deep_view(),
        }
    }
}

impl Clone for NeutralHookPayload {
    fn clone(&self) -> (r: Self)
        ensures
            r.deep_view() == self.deep_view(),
    {
        let r = NeutralHookPayload {
            action: self.action,
            session_id: self.session_id.clone(),
            activation_id: self.activation_id.clone(),
            reason: self.reason.clone(),
        };
        assert(r.reason.deep_view() =~= self.reason.deep_view());
        r
    }
}

impl NeutralHookPayload {
    pub fn new(
        action: HookAction,
        session_id: String,
        activation_id: String,
        reason: Option<String>,
    ) -> (r: Self)
        ensures
            r.deep_view() == (NeutralHookPayloadView {
                action,
                session_id: session_id@,
                activation_id: activation_id@,
                reason: reason.deep_view(),
            }),
    {
        NeutralHookPayload { action, session_id, activation_id, reason }
    }

    pub fn action(&self) -> (r: HookAction)
        ensures
            r == self.deep_view().action,
    {
        self.action
    }

    pub fn session_id(&self) -> (r: &str)
        ensures
            r@ == self.deep_view().session_id,
    {
        self.session_id.as_str()
    }

    pub fn activation_id(&self) -> (r: &str)
        ensures
            r@ == self.deep_view().activation_id,
    {
        self.activation_id.as_str()
    }

    pub fn reason(&self) -> (r: Option<&str>)
        ensures
            r.deep_view() == self.deep_view().reason,
    {
        match &self.reason {
            Some(value) => Some(value.as_str()),
            None => None,
        }
    }
}

/// The answer to a stop: blocked exactly with a reason.
pub fn build_stop_hook_payload(input: &StopHookInput, decision: DriverDecision) -> (r:
    NeutralHookPayload)
    ensures
        r.deep_view() == (NeutralHookPayloadView {
            action: match decision.deep_view() {
                DecisionView::Allow => HookAction::Allow,
                DecisionView::Block { .. } => HookAction::Block,
            },
            session_id: input.deep_view().session_id,
            activation_id: input.deep_view().activation_id,
            reason: match decision.deep_view() {
                DecisionView::Allow => None,
                DecisionView::Block { reason } => Some(reason),
            },
        }),
{
    match decision {
        DriverDecision::Allow => NeutralHookPayload::new(
            HookAction::Allow,
            input.session_id().to_string(),
            input.activation_id().to_string(),
            None,
        ),
        DriverDecision::Block { reason } => NeutralHookPayload::new(
            HookAction::Block,
            input.session_id().to_string(),
            input.activation_id().to_string(),
            Some(reason),
        ),
    }
}

} // verus!
