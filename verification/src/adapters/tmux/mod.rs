//! Agents that live in panes of tmux.
pub mod adapter;
pub mod answering;
pub mod argv;
pub mod config;
pub mod delay;
pub mod error;
pub mod input;
pub mod model;
pub mod pane_creation;
pub mod pane_presence;
pub mod pipe;
pub mod reading;
pub mod record;
pub mod runner;
pub mod steps;
pub mod waiting;

pub use adapter::TmuxAdapter;
pub use config::TmuxInputTransactionConfig;
pub use error::{TmuxCommandDiagnostic, TmuxError};
pub use input::{TmuxInputTransaction, TmuxSubmissionAcceptance};
pub use model::{
    CommandOutput, PaneActivation, TmuxActivation, TmuxActivationMetadata, TmuxActivationRequest,
    TmuxAgentHandle, TmuxLifecycleObservation, TmuxPane, TmuxPaneIdentity,
    TmuxPaneMetadataMismatch, TmuxSession, TmuxWindow,
};
pub use pane_presence::TmuxPanePresence;
pub use pipe::{
    PipeCaptureRequest, PipeSinkIdentity, PipeSinkReady, TmuxPipeCapture,
    TmuxPipeCaptureDescriptor,
};
pub use runner::CommandRunner;
