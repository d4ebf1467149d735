//! The life of an agent, whichever adapter runs it.
use vstd::prelude::*;

verus! {

/// What an adapter can do.
#[derive(Debug, Clone, Copy, PartialEq, Eq, Structural)]
pub struct AdapterCapabilities {
    pub interactive_pane: bool,
    pub mcp_tools: bool,
    pub mcp_artifact_delivery: bool,
    pub stop_hook: bool,
    pub tool_events: bool,
    pub permission_events: bool,
    pub notification_events: bool,
    pub jsonl_events: bool,
    pub session_resume: bool,
    pub process_exit: bool,
    pub tmux_observation: bool,
    pub structured_output: bool,
}

impl AdapterCapabilities {
    /// What a tmux pane offers: a pane to work in, its exit and its text.
    pub open spec fn of_tmux() -> AdapterCapabilities {
        AdapterCapabilities {
            interactive_pane: true,
            mcp_tools: false,
            mcp_artifact_delivery: false,
            stop_hook: false,
            tool_events: false,
            permission_events: false,
            notification_events: false,
            jsonl_events: false,
            session_resume: false,
            process_exit: true,
            tmux_observation: true,
            structured_output: false,
        }
    }

    pub fn tmux_lifecycle() -> (r: Self)
        ensures
            r == AdapterCapabilities::of_tmux(),
    {
        AdapterCapabilities {
            interactive_pane: true,
            mcp_tools: false,
            mcp_artifact_delivery: false,
            stop_hook: false,
            tool_events: false,
            permission_events: false,
            notification_events: false,
            jsonl_events: false,
            session_resume: false,
            process_exit: true,
            tmux_observation: true,
            structured_output: false,
        }
    }
}

impl Default for AdapterCapabilities {
    fn default() -> (r: Self)
        ensures
            r == (AdapterCapabilities {
                interactive_pane: false,
                mcp_tools: false,
                mcp_artifact_delivery: false,
                stop_hook: false,
                tool_events: false,
                permission_events: false,
                notification_events: false,
                jsonl_events: false,
                session_resume: false,
                process_exit: false,
                tmux_observation: false,
                structured_output: false,
            }),
    {
        AdapterCapabilities {
            interactive_pane: false,
            mcp_tools: false,
            mcp_artifact_delivery: false,
            stop_hook: false,
            tool_events: false,
            permission_events: false,
            notification_events: false,
            jsonl_events: false,
            session_resume: false,
            process_exit: false,
            tmux_observation: false,
            structured_output: false,
        }
    }
}

/// How far an agent came.
#[derive(Debug, Clone, Copy, PartialEq, Eq, Structural)]
pub enum LifecycleStatus {
    Running,
    ContractSatisfied,
    Blocked,
    Failed,
}

impl DeepView for LifecycleStatus {
    type V = LifecycleStatus;

    open spec fn deep_view(&self) -> LifecycleStatus {
        *self
    }
}

/// What became of the pane of an agent.
#[derive(Debug, Clone, Copy, PartialEq, Eq, Structural)]
pub enum LifecycleCleanupAction {
    KillPane,
    PreservePane,
}

impl DeepView for LifecycleCleanupAction {
    type V = LifecycleCleanupAction;

    open spec fn deep_view(&self) -> LifecycleCleanupAction {
        *self
    }
}

/// What was done when an agent was cleaned up.
#[derive(Debug, Clone, Copy, PartialEq, Eq, Structural)]
pub struct LifecycleCleanup {
    action: LifecycleCleanupAction,
    status: LifecycleStatus,
}

#[verifier::ext_equal]
pub struct LifecycleCleanupView {
    pub action: LifecycleCleanupAction,
    pub status: LifecycleStatus,
}

impl DeepView for LifecycleCleanup {
    type V = LifecycleCleanupView;

    closed spec fn deep_view(&self) -> LifecycleCleanupView {
        LifecycleCleanupView { action: self.action, status: self.status }
    }
}

impl LifecycleCleanup {
    pub fn new(action: LifecycleCleanupAction, status: LifecycleStatus) -> (r: Self)
        ensures
            r.deep_view() == (LifecycleCleanupView { action, status }),
    {
        LifecycleCleanup { action, status }
    }

    pub fn action(&self) -> (r: LifecycleCleanupAction)
        ensures
            r == self.deep_view().action,
    {
        self.action
    }

    pub fn status(&self) -> (r: LifecycleStatus)
        ensures
            r == self.deep_view().status,
    {
        self.status
    }
}

impl LifecycleStatus {
    /// The pane goes when the contract is met; it is kept to be looked at otherwise.
    pub open spec fn cleanup(self) -> LifecycleCleanupAction {
        if self == LifecycleStatus::ContractSatisfied {
            LifecycleCleanupAction::KillPane
        } else {
            LifecycleCleanupAction::PreservePane
        }
    }
}

/// What runs agents.
pub trait AgentLifecycleAdapter {
    type ActivationRequest;

    type Activation;

    type Handle;

    type Observation;

    type Error;

    fn capabilities(&self) -> AdapterCapabilities;

    fn prepare_activation(&self, request: Self::ActivationRequest) -> Result<
        Self::Activation,
        Self::Error,
    >;

    fn start_agent(&self, activation: &Self::Activation, command: &str) -> Result<
        Self::Handle,
        Self::Error,
    >;

    fn send_prompt(&self, handle: &Self::Handle, prompt: &str) -> Result<(), Self::Error>;

    fn observe_lifecycle(&self, handle: &Self::Handle) -> Result<Self::Observation, Self::Error>;

    fn cleanup_activation(&self, handle: &Self::Handle, status: LifecycleStatus) -> Result<
        LifecycleCleanup,
        Self::Error,
    >;
}

} // verus!
