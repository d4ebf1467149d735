//! Sessions, windows and panes of tmux, and the activations that live in them.
use vstd::prelude::*;

use crate::adapters::lifecycle::LifecycleStatus;

verus! {

broadcast use vstd::string::group_string_axioms;

/// Where an activation is to run.
#[derive(Debug, PartialEq, Eq)]
pub struct TmuxActivationRequest {
    session_id: String,
    run_id: String,
    window_name: String,
    activation_id: String,
}

#[verifier::ext_equal]
pub struct TmuxActivationRequestView {
    pub session_id: Seq<char>,
    pub run_id: Seq<char>,
    pub window_name: Seq<char>,
    pub activation_id: Seq<char>,
}

impl DeepView for TmuxActivationRequest {
    type V = TmuxActivationRequestView;

    closed spec fn deep_view(&self) -> TmuxActivationRequestView {
        TmuxActivationRequestView {
            session_id: self.session_id.deep_view(),
            run_id: self.run_id.deep_view(),
            window_name: self.window_name.deep_view(),
            activation_id: self.activation_id.deep_view(),
        }
    }
}

impl Clone for TmuxActivationRequest {
    fn clone(&self) -> (r: Self)
        ensures
            r.deep_view() == self.deep_view(),
    {
        let r = TmuxActivationRequest {
            session_id: self.session_id.clone(),
            run_id: self.run_id.clone(),
            window_name: self.window_name.clone(),
            activation_id: self.activation_id.clone(),
        };
        r
    }
}

impl TmuxActivationRequest {
    pub fn new(
        session_id: String,
        run_id: String,
        window_name: String,
        activation_id: String,
    ) -> (r: Self)
        ensures
            r.deep_view() == (TmuxActivationRequestView {
                session_id: session_id@,
                run_id: run_id@,
                window_name: window_name@,
                activation_id: activation_id@,
            }),
    {
        TmuxActivationRequest { session_id, run_id, window_name, activation_id }
    }

    pub fn session_id(&self) -> (r: &str)
        ensures
            r@ == self.deep_view().session_id,
    {
        self.session_id.as_str()
    }

    pub fn run_id(&self) -> (r: &str)
        ensures
            r@ == self.deep_view().run_id,
    {
        self.run_id.as_str()
    }

    pub fn window_name(&self) -> (r: &str)
        ensures
            r@ == self.deep_view().window_name,
    {
        self.window_name.as_str()
    }

    pub fn activation_id(&self) -> (r: &str)
        ensures
            r@ == self.deep_view().activation_id,
    {
        self.activation_id.as_str()
    }
}

/// A session.
#[derive(Debug, PartialEq, Eq)]
pub struct TmuxSession {
    id: String,
}

#[verifier::ext_equal]
pub struct TmuxSessionView {
    pub id: Seq<char>,
}

impl DeepView for TmuxSession {
    type V = TmuxSessionView;

    closed spec fn deep_view(&self) -> TmuxSessionView {
        TmuxSessionView {
            id: self.id.deep_view(),
        }
    }
}

impl Clone for TmuxSession {
    fn clone(&self) -> (r: Self)
        ensures
            r.deep_view() == self.deep_view(),
    {
        let r = TmuxSession {
            id: self.id.clone(),
        };
        r
    }
}

impl TmuxSession {
    pub fn new(id: String) -> (r: Self)
        ensures
            r.deep_view() == (TmuxSessionView {
                id: id@,
            }),
    {
        TmuxSession { id }
    }

    pub fn id(&self) -> (r: &str)
        ensures
            r@ == self.deep_view().id,
    {
        self.id.as_str()
    }
}

/// A window of a session.
#[derive(Debug, PartialEq, Eq)]
pub struct TmuxWindow {
    session_id: String,
    run_id: String,
    name: String,
    id: String,
}

#[verifier::ext_equal]
pub struct TmuxWindowView {
    pub session_id: Seq<char>,
    pub run_id: Seq<char>,
    pub name: Seq<char>,
    pub id: Seq<char>,
}

impl DeepView for TmuxWindow {
    type V = TmuxWindowView;

    closed spec fn deep_view(&self) -> TmuxWindowView {
        TmuxWindowView {
            session_id: self.session_id.deep_view(),
            run_id: self.run_id.deep_view(),
            name: self.name.deep_view(),
            id: self.id.deep_view(),
        }
    }
}

impl Clone for TmuxWindow {
    fn clone(&self) -> (r: Self)
        ensures
            r.deep_view() == self.deep_view(),
    {
        let r = TmuxWindow {
            session_id: self.session_id.clone(),
            run_id: self.run_id.clone(),
            name: self.name.clone(),
            id: self.id.clone(),
        };
        r
    }
}

impl TmuxWindow {
    /// A window named after its run.
    pub fn new(session_id: String, run_id: String, id: String) -> (r: Self)
        ensures
            r.deep_view() == (TmuxWindowView {
                session_id: session_id@,
                run_id: run_id@,
                name: run_id@,
                id: id@,
            }),
    {
        TmuxWindow { session_id, name: run_id.clone(), run_id, id }
    }

    pub fn new_named(session_id: String, run_id: String, name: String, id: String) -> (r: Self)
        ensures
            r.deep_view() == (TmuxWindowView {
                session_id: session_id@,
                run_id: run_id@,
                name: name@,
                id: id@,
            }),
    {
        TmuxWindow { session_id, run_id, name, id }
    }

    pub fn session_id(&self) -> (r: &str)
        ensures
            r@ == self.deep_view().session_id,
    {
        self.session_id.as_str()
    }

    pub fn run_id(&self) -> (r: &str)
        ensures
            r@ == self.deep_view().run_id,
    {
        self.run_id.as_str()
    }

    pub fn name(&self) -> (r: &str)
        ensures
            r@ == self.deep_view().name,
    {
        self.name.as_str()
    }

    pub fn id(&self) -> (r: &str)
        ensures
            r@ == self.deep_view().id,
    {
        self.id.as_str()
    }
}

/// A pane of a window, and the activation in it.
#[derive(Debug, PartialEq, Eq)]
pub struct TmuxPane {
    session_id: String,
    window_id: String,
    activation_id: String,
    id: String,
}

#[verifier::ext_equal]
pub struct TmuxPaneView {
    pub session_id: Seq<char>,
    pub window_id: Seq<char>,
    pub activation_id: Seq<char>,
    pub id: Seq<char>,
}

impl DeepView for TmuxPane {
    type V = TmuxPaneView;

    closed spec fn deep_view(&self) -> TmuxPaneView {
        TmuxPaneView {
            session_id: self.session_id.deep_view(),
            window_id: self.window_id.deep_view(),
            activation_id: self.activation_id.deep_view(),
            id: self.id.deep_view(),
        }
    }
}

impl Clone for TmuxPane {
    fn clone(&self) -> (r: Self)
        ensures
            r.deep_view() == self.deep_view(),
    {
        let r = TmuxPane {
            session_id: self.session_id.clone(),
            window_id: self.window_id.clone(),
            activation_id: self.activation_id.clone(),
            id: self.id.clone(),
        };
        r
    }
}

impl TmuxPane {
    /// A pane of which the session is not known.
    pub fn new(window_id: String, activation_id: String, id: String) -> (r: Self)
        ensures
            r.deep_view() == (TmuxPaneView {
                session_id: Seq::empty(),
                window_id: window_id@,
                activation_id: activation_id@,
                id: id@,
            }),
    {
        TmuxPane { session_id: String::new(), window_id, activation_id, id }
    }

    pub fn new_in_session(
        session_id: String,
        window_id: String,
        activation_id: String,
        id: String,
    ) -> (r: Self)
        ensures
            r.deep_view() == (TmuxPaneView {
                session_id: session_id@,
                window_id: window_id@,
                activation_id: activation_id@,
                id: id@,
            }),
    {
        TmuxPane { session_id, window_id, activation_id, id }
    }

    pub fn session_id(&self) -> (r: &str)
        ensures
            r@ == self.deep_view().session_id,
    {
        self.session_id.as_str()
    }

    pub fn window_id(&self) -> (r: &str)
        ensures
            r@ == self.deep_view().window_id,
    {
        self.window_id.as_str()
    }

    pub fn activation_id(&self) -> (r: &str)
        ensures
            r@ == self.deep_view().activation_id,
    {
        self.activation_id.as_str()
    }

    pub fn id(&self) -> (r: &str)
        ensures
            r@ == self.deep_view().id,
    {
        self.id.as_str()
    }
}

/// An activation and its pane.
#[derive(Debug, PartialEq, Eq)]
pub struct PaneActivation {
    activation_id: String,
    pane_id: String,
}

#[verifier::ext_equal]
pub struct PaneActivationView {
    pub activation_id: Seq<char>,
    pub pane_id: Seq<char>,
}

impl DeepView for PaneActivation {
    type V = PaneActivationView;

    closed spec fn deep_view(&self) -> PaneActivationView {
        PaneActivationView {
            activation_id: self.activation_id.deep_view(),
            pane_id: self.pane_id.deep_view(),
        }
    }
}

impl Clone for PaneActivation {
    fn clone(&self) -> (r: Self)
        ensures
            r.deep_view() == self.deep_view(),
    {
        let r = PaneActivation {
            activation_id: self.activation_id.clone(),
            pane_id: self.pane_id.clone(),
        };
        r
    }
}

impl PaneActivation {
    pub fn new(activation_id: String, pane_id: String) -> (r: Self)
        ensures
            r.deep_view() == (PaneActivationView {
                activation_id: activation_id@,
                pane_id: pane_id@,
            }),
    {
        PaneActivation { activation_id, pane_id }
    }

    pub fn activation_id(&self) -> (r: &str)
        ensures
            r@ == self.deep_view().activation_id,
    {
        self.activation_id.as_str()
    }

    pub fn pane_id(&self) -> (r: &str)
        ensures
            r@ == self.deep_view().pane_id,
    {
        self.pane_id.as_str()
    }
}

/// Exactly where an activation runs.
#[derive(Debug, PartialEq, Eq)]
pub struct TmuxActivationMetadata {
    session_id: String,
    run_id: String,
    window_name: String,
    window_id: String,
    activation_id: String,
    pane_id: String,
    allocation_generation: u64,
}

#[verifier::ext_equal]
pub struct TmuxActivationMetadataView {
    pub session_id: Seq<char>,
    pub run_id: Seq<char>,
    pub window_name: Seq<char>,
    pub window_id: Seq<char>,
    pub activation_id: Seq<char>,
    pub pane_id: Seq<char>,
    pub allocation_generation: u64,
}

impl DeepView for TmuxActivationMetadata {
    type V = TmuxActivationMetadataView;

    closed spec fn deep_view(&self) -> TmuxActivationMetadataView {
        TmuxActivationMetadataView {
            session_id: self.session_id.deep_view(),
            run_id: self.run_id.deep_view(),
            window_name: self.window_name.deep_view(),
            window_id: self.window_id.deep_view(),
            activation_id: self.activation_id.deep_view(),
            pane_id: self.pane_id.deep_view(),
            allocation_generation: self.allocation_generation,
        }
    }
}

impl Clone for TmuxActivationMetadata {
    fn clone(&self) -> (r: Self)
        ensures
            r.deep_view() == self.deep_view(),
    {
        let r = TmuxActivationMetadata {
            session_id: self.session_id.clone(),
            run_id: self.run_id.clone(),
            window_name: self.window_name.clone(),
            window_id: self.window_id.clone(),
            activation_id: self.activation_id.clone(),
            pane_id: self.pane_id.clone(),
            allocation_generation: self.allocation_generation,
        };
        r
    }
}

impl TmuxActivationMetadata {
    pub fn new(
        session_id: String,
        run_id: String,
        window_name: String,
        window_id: String,
        activation_id: String,
        pane_id: String,
    ) -> (r: Self)
        ensures
            r.deep_view() == (TmuxActivationMetadataView {
                session_id: session_id@,
                run_id: run_id@,
                window_name: window_name@,
                window_id: window_id@,
                activation_id: activation_id@,
                pane_id: pane_id@,
                allocation_generation: 0,
            }),
    {
        TmuxActivationMetadata { session_id, run_id, window_name, window_id, activation_id, pane_id, allocation_generation: 0 }
    }

    pub fn with_allocation_generation(self, allocation_generation: u64) -> (r: Self)
        ensures
            r.deep_view() == (TmuxActivationMetadataView {
                allocation_generation,
                ..self.deep_view()
            }),
    {
        let mut next = self;
        next.allocation_generation = allocation_generation;
        next
    }

    /// What a session, a window and a pane say of the activation.
    pub open spec fn describes(
        session: TmuxSessionView,
        window: TmuxWindowView,
        pane: TmuxPaneView,
    ) -> TmuxActivationMetadataView {
        TmuxActivationMetadataView {
            session_id: session.id,
            run_id: window.run_id,
            window_name: window.name,
            window_id: window.id,
            activation_id: pane.activation_id,
            pane_id: pane.id,
            allocation_generation: 0,
        }
    }

    pub fn from_tmux(session: &TmuxSession, window: &TmuxWindow, pane: &TmuxPane) -> (r: Self)
        ensures
            r.deep_view() == TmuxActivationMetadata::describes(
                session.deep_view(),
                window.deep_view(),
                pane.deep_view(),
            ),
    {
        TmuxActivationMetadata::new(
            session.id().to_string(),
            window.run_id().to_string(),
            window.name().to_string(),
            window.id().to_string(),
            pane.activation_id().to_string(),
            pane.id().to_string(),
        )
    }

    pub fn session_id(&self) -> (r: &str)
        ensures
            r@ == self.deep_view().session_id,
    {
        self.session_id.as_str()
    }

    pub fn run_id(&self) -> (r: &str)
        ensures
            r@ == self.deep_view().run_id,
    {
        self.run_id.as_str()
    }

    pub fn window_name(&self) -> (r: &str)
        ensures
            r@ == self.deep_view().window_name,
    {
        self.window_name.as_str()
    }

    pub fn window_id(&self) -> (r: &str)
        ensures
            r@ == self.deep_view().window_id,
    {
        self.window_id.as_str()
    }

    pub fn activation_id(&self) -> (r: &str)
        ensures
            r@ == self.deep_view().activation_id,
    {
        self.activation_id.as_str()
    }

    pub fn pane_id(&self) -> (r: &str)
        ensures
            r@ == self.deep_view().pane_id,
    {
        self.pane_id.as_str()
    }

    pub fn allocation_generation(&self) -> (r: u64)
        ensures
            r == self.deep_view().allocation_generation,
    {
        self.allocation_generation
    }

    /// The pane that the activation runs in.
    pub fn to_pane(&self) -> (r: TmuxPane)
        ensures
            r.deep_view() == self.deep_view().pane(),
    {
        TmuxPane::new_in_session(
            self.session_id.clone(),
            self.window_id.clone(),
            self.activation_id.clone(),
            self.pane_id.clone(),
        )
    }
}

impl TmuxActivationMetadataView {
    pub open spec fn pane(self) -> TmuxPaneView {
        TmuxPaneView {
            session_id: self.session_id,
            window_id: self.window_id,
            activation_id: self.activation_id,
            id: self.pane_id,
        }
    }
}

/// An activation that is ready to start.
#[derive(Debug, PartialEq, Eq)]
pub struct TmuxActivation {
    session: TmuxSession,
    window: TmuxWindow,
    pane: TmuxPane,
    metadata: TmuxActivationMetadata,
}

#[verifier::ext_equal]
pub struct TmuxActivationView {
    pub session: TmuxSessionView,
    pub window: TmuxWindowView,
    pub pane: TmuxPaneView,
    pub metadata: TmuxActivationMetadataView,
}

impl DeepView for TmuxActivation {
    type V = TmuxActivationView;

    closed spec fn deep_view(&self) -> TmuxActivationView {
        TmuxActivationView {
            session: self.session.deep_view(),
            window: self.window.deep_view(),
            pane: self.pane.deep_view(),
            metadata: self.metadata.deep_view(),
        }
    }
}

impl Clone for TmuxActivation {
    fn clone(&self) -> (r: Self)
        ensures
            r.deep_view() == self.deep_view(),
    {
        let r = TmuxActivation {
            session: self.session.clone(),
            window: self.window.clone(),
            pane: self.pane.clone(),
            metadata: self.metadata.clone(),
        };
        r
    }
}

impl TmuxActivation {
    pub fn new(session: TmuxSession, window: TmuxWindow, pane: TmuxPane) -> (r: Self)
        ensures
            r.deep_view() == (TmuxActivationView {
                session: session.deep_view(),
                window: window.deep_view(),
                pane: pane.deep_view(),
                metadata: TmuxActivationMetadata::describes(
                    session.deep_view(),
                    window.deep_view(),
                    pane.deep_view(),
                ),
            }),
    {
        let metadata = TmuxActivationMetadata::from_tmux(&session, &window, &pane);
        TmuxActivation { session, window, pane, metadata }
    }

    pub fn session(&self) -> (r: &TmuxSession)
        ensures
            r.deep_view() == self.deep_view().session,
    {
        &self.session
    }

    pub fn window(&self) -> (r: &TmuxWindow)
        ensures
            r.deep_view() == self.deep_view().window,
    {
        &self.window
    }

    pub fn pane(&self) -> (r: &TmuxPane)
        ensures
            r.deep_view() == self.deep_view().pane,
    {
        &self.pane
    }

    pub fn metadata(&self) -> (r: &TmuxActivationMetadata)
        ensures
            r.deep_view() == self.deep_view().metadata,
    {
        &self.metadata
    }

    pub fn into_handle(self) -> (r: TmuxAgentHandle)
        ensures
            r.deep_view() == (TmuxAgentHandleView {
                pane: self.deep_view().pane,
                metadata: self.deep_view().metadata,
            }),
    {
        TmuxAgentHandle { pane: self.pane, metadata: self.metadata }
    }
}

/// A started agent.
#[derive(Debug, PartialEq, Eq)]
pub struct TmuxAgentHandle {
    pane: TmuxPane,
    metadata: TmuxActivationMetadata,
}

#[verifier::ext_equal]
pub struct TmuxAgentHandleView {
    pub pane: TmuxPaneView,
    pub metadata: TmuxActivationMetadataView,
}

impl DeepView for TmuxAgentHandle {
    type V = TmuxAgentHandleView;

    closed spec fn deep_view(&self) -> TmuxAgentHandleView {
        TmuxAgentHandleView {
            pane: self.pane.deep_view(),
            metadata: self.metadata.deep_view(),
        }
    }
}

impl Clone for TmuxAgentHandle {
    fn clone(&self) -> (r: Self)
        ensures
            r.deep_view() == self.deep_view(),
    {
        let r = TmuxAgentHandle {
            pane: self.pane.clone(),
            metadata: self.metadata.clone(),
        };
        r
    }
}

impl TmuxAgentHandle {
    pub fn pane(&self) -> (r: &TmuxPane)
        ensures
            r.deep_view() == self.deep_view().pane,
    {
        &self.pane
    }

    pub fn metadata(&self) -> (r: &TmuxActivationMetadata)
        ensures
            r.deep_view() == self.deep_view().metadata,
    {
        &self.metadata
    }
}

/// What was seen of an agent.
#[derive(Debug, PartialEq, Eq)]
pub struct TmuxLifecycleObservation {
    metadata: TmuxActivationMetadata,
    captured_text: String,
    status: LifecycleStatus,
}

#[verifier::ext_equal]
pub struct TmuxLifecycleObservationView {
    pub metadata: TmuxActivationMetadataView,
    pub captured_text: Seq<char>,
    pub status: LifecycleStatus,
}

impl DeepView for TmuxLifecycleObservation {
    type V = TmuxLifecycleObservationView;

    closed spec fn deep_view(&self) -> TmuxLifecycleObservationView {
        TmuxLifecycleObservationView {
            metadata: self.metadata.deep_view(),
            captured_text: self.captured_text.deep_view(),
            status: self.status,
        }
    }
}

impl Clone for TmuxLifecycleObservation {
    fn clone(&self) -> (r: Self)
        ensures
            r.deep_view() == self.deep_view(),
    {
        let r = TmuxLifecycleObservation {
            metadata: self.metadata.clone(),
            captured_text: self.captured_text.clone(),
            status: self.status,
        };
        r
    }
}

impl TmuxLifecycleObservation {
    pub fn new(
        metadata: TmuxActivationMetadata,
        captured_text: String,
        status: LifecycleStatus,
    ) -> (r: Self)
        ensures
            r.deep_view() == (TmuxLifecycleObservationView {
                metadata: metadata.deep_view(),
                captured_text: captured_text@,
                status,
            }),
    {
        TmuxLifecycleObservation { metadata, captured_text, status }
    }

    pub fn metadata(&self) -> (r: &TmuxActivationMetadata)
        ensures
            r.deep_view() == self.deep_view().metadata,
    {
        &self.metadata
    }

    pub fn captured_text(&self) -> (r: &str)
        ensures
            r@ == self.deep_view().captured_text,
    {
        self.captured_text.as_str()
    }

    pub fn status(&self) -> (r: LifecycleStatus)
        ensures
            r == self.deep_view().status,
    {
        self.status
    }
}

/// What a command answered.
#[derive(Debug, PartialEq, Eq)]
pub struct CommandOutput {
    pub status: i32,
    pub stdout: String,
    pub stderr: String,
}

#[verifier::ext_equal]
pub struct CommandOutputView {
    pub status: i32,
    pub stdout: Seq<char>,
    pub stderr: Seq<char>,
}

impl DeepView for CommandOutput {
    type V = CommandOutputView;

    open spec fn deep_view(&self) -> CommandOutputView {
        CommandOutputView {
            status: self.status,
            stdout: self.stdout.deep_view(),
            stderr: self.stderr.deep_view(),
        }
    }
}

impl Clone for CommandOutput {
    fn clone(&self) -> (r: Self)
        ensures
            r.deep_view() == self.deep_view(),
    {
        let r = CommandOutput {
            status: self.status,
            stdout: self.stdout.clone(),
            stderr: self.stderr.clone(),
        };
        r
    }
}

impl CommandOutput {
    pub fn success(stdout: String) -> (r: Self)
        ensures
            r.deep_view() == (
                CommandOutputView { status: 0, stdout: stdout@, stderr: Seq::empty() }
            ),
    {
        CommandOutput { status: 0, stdout, stderr: String::new() }
    }

    pub fn failure(stderr: String) -> (r: Self)
        ensures
            r.deep_view() == (
                CommandOutputView { status: 1, stdout: Seq::empty(), stderr: stderr@ }
            ),
    {
        CommandOutput { status: 1, stdout: String::new(), stderr }
    }

    pub fn success_status(status: i32, stdout: String, stderr: String) -> (r: Self)
        ensures
            r.deep_view() == (CommandOutputView {
                status,
                stdout: stdout@,
                stderr: stderr@,
            }),
    {
        CommandOutput { status, stdout, stderr }
    }

    pub fn is_success(&self) -> (r: bool)
        ensures
            r == (self.deep_view().status == 0),
    {
        self.status == 0
    }
}

/// What tells a pane apart.
#[derive(Debug, PartialEq, Eq)]
pub struct TmuxPaneIdentity {
    pub session_id: String,
    pub window_id: String,
    pub window_name: String,
    pub pane_id: String,
}

#[verifier::ext_equal]
pub struct TmuxPaneIdentityView {
    pub session_id: Seq<char>,
    pub window_id: Seq<char>,
    pub window_name: Seq<char>,
    pub pane_id: Seq<char>,
}

impl DeepView for TmuxPaneIdentity {
    type V = TmuxPaneIdentityView;

    open spec fn deep_view(&self) -> TmuxPaneIdentityView {
        TmuxPaneIdentityView {
            session_id: self.session_id.deep_view(),
            window_id: self.window_id.deep_view(),
            window_name: self.window_name.deep_view(),
            pane_id: self.pane_id.deep_view(),
        }
    }
}

impl Clone for TmuxPaneIdentity {
    fn clone(&self) -> (r: Self)
        ensures
            r.deep_view() == self.deep_view(),
    {
        let r = TmuxPaneIdentity {
            session_id: self.session_id.clone(),
            window_id: self.window_id.clone(),
            window_name: self.window_name.clone(),
            pane_id: self.pane_id.clone(),
        };
        r
    }
}

impl TmuxPaneIdentity {
    pub fn new(
        session_id: String,
        window_id: String,
        window_name: String,
        pane_id: String,
    ) -> (r: Self)
        ensures
            r.deep_view() == (TmuxPaneIdentityView {
                session_id: session_id@,
                window_id: window_id@,
                window_name: window_name@,
                pane_id: pane_id@,
            }),
    {
        TmuxPaneIdentity { session_id, window_id, window_name, pane_id }
    }
}

/// A pane that is not the one that was meant.
#[derive(Debug, PartialEq, Eq)]
pub struct TmuxPaneMetadataMismatch {
    pub expected: TmuxPaneIdentity,
    pub actual: TmuxPaneIdentity,
}

#[verifier::ext_equal]
pub struct TmuxPaneMetadataMismatchView {
    pub expected: TmuxPaneIdentityView,
    pub actual: TmuxPaneIdentityView,
}

impl DeepView for TmuxPaneMetadataMismatch {
    type V = TmuxPaneMetadataMismatchView;

    open spec fn deep_view(&self) -> TmuxPaneMetadataMismatchView {
        TmuxPaneMetadataMismatchView {
            expected: self.expected.deep_view(),
            actual: self.actual.deep_view(),
        }
    }
}

impl Clone for TmuxPaneMetadataMismatch {
    fn clone(&self) -> (r: Self)
        ensures
            r.deep_view() == self.deep_view(),
    {
        let r = TmuxPaneMetadataMismatch {
            expected: self.expected.clone(),
            actual: self.actual.clone(),
        };
        r
    }
}

impl TmuxPaneMetadataMismatch {
    pub fn new(expected: TmuxPaneIdentity, actual: TmuxPaneIdentity) -> (r: Self)
        ensures
            r.deep_view() == (TmuxPaneMetadataMismatchView {
                expected: expected.deep_view(),
                actual: actual.deep_view(),
            }),
    {
        TmuxPaneMetadataMismatch { expected, actual }
    }
}

} // verus!
