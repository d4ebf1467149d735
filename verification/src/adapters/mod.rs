//! What agents run in.
pub mod hooks;
pub mod lifecycle;
pub mod tmux;

pub use lifecycle::{
    AdapterCapabilities, AgentLifecycleAdapter, LifecycleCleanup, LifecycleCleanupAction,
    LifecycleStatus,
};
