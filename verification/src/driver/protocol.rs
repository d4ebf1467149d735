//! The operations that a driver takes over the wire.
use vstd::prelude::*;

use crate::text::same;

verus! {

/// Whether an operation may say which state it was meant for.
#[derive(Debug, Clone, Copy, PartialEq, Eq, Structural)]
pub enum CursorPolicy {
    Absent,
    ExpectedAuthority,
}

/// An operation.
#[derive(Debug, Clone, Copy, PartialEq, Eq, Structural)]
pub enum DriverWire {
    BindRun,
    Context,
    Status,
    Why,
    Pause,
    Resume,
    Complete,
    Stop,
    DeliverArtifact,
    PatchBoard,
    RecordEffect,
    ValidateStop,
    ObserveStop,
    Activate,
    Fanout,
    ApplyFlowRevision,
    PreviewFlowRoutes,
    RecordHookFact,
    SendMessage,
    ViewTerminal,
    ViewSnapshot,
}

impl DeepView for DriverWire {
    type V = DriverWire;

    open spec fn deep_view(&self) -> DriverWire {
        *self
    }
}

impl DriverWire {
    /// All operations.
    pub const ALL: [DriverWire; 21] = [
        DriverWire::BindRun,
        DriverWire::Context,
        DriverWire::Status,
        DriverWire::Why,
        DriverWire::Pause,
        DriverWire::Resume,
        DriverWire::Complete,
        DriverWire::Stop,
        DriverWire::DeliverArtifact,
        DriverWire::PatchBoard,
        DriverWire::RecordEffect,
        DriverWire::ValidateStop,
        DriverWire::ObserveStop,
        DriverWire::Activate,
        DriverWire::Fanout,
        DriverWire::ApplyFlowRevision,
        DriverWire::PreviewFlowRoutes,
        DriverWire::RecordHookFact,
        DriverWire::SendMessage,
        DriverWire::ViewTerminal,
        DriverWire::ViewSnapshot,
    ];

    pub open spec fn name(self) -> Seq<char> {
        match self {
            DriverWire::BindRun => "bind_run"@,
            DriverWire::Context => "context"@,
            DriverWire::Status => "status"@,
            DriverWire::Why => "why"@,
            DriverWire::Pause => "pause"@,
            DriverWire::Resume => "resume"@,
            DriverWire::Complete => "complete"@,
            DriverWire::Stop => "stop"@,
            DriverWire::DeliverArtifact => "deliver_artifact"@,
            DriverWire::PatchBoard => "patch_board"@,
            DriverWire::RecordEffect => "record_effect"@,
            DriverWire::ValidateStop => "validate_stop"@,
            DriverWire::ObserveStop => "observe_stop"@,
            DriverWire::Activate => "activate"@,
            DriverWire::Fanout => "fanout"@,
            DriverWire::ApplyFlowRevision => "apply_flow_revision"@,
            DriverWire::PreviewFlowRoutes => "preview_flow_routes"@,
            DriverWire::RecordHookFact => "record_hook_fact"@,
            DriverWire::SendMessage => "send_message"@,
            DriverWire::ViewTerminal => "view_terminal"@,
            DriverWire::ViewSnapshot => "view_snapshot"@,
        }
    }

    pub fn as_str(self) -> (r: &'static str)
        ensures
            r@ == self.name(),
    {
        match self {
            DriverWire::BindRun => "bind_run",
            DriverWire::Context => "context",
            DriverWire::Status => "status",
            DriverWire::Why => "why",
            DriverWire::Pause => "pause",
            DriverWire::Resume => "resume",
            DriverWire::Complete => "complete",
            DriverWire::Stop => "stop",
            DriverWire::DeliverArtifact => "deliver_artifact",
            DriverWire::PatchBoard => "patch_board",
            DriverWire::RecordEffect => "record_effect",
            DriverWire::ValidateStop => "validate_stop",
            DriverWire::ObserveStop => "observe_stop",
            DriverWire::Activate => "activate",
            DriverWire::Fanout => "fanout",
            DriverWire::ApplyFlowRevision => "apply_flow_revision",
            DriverWire::PreviewFlowRoutes => "preview_flow_routes",
            DriverWire::RecordHookFact => "record_hook_fact",
            DriverWire::SendMessage => "send_message",
            DriverWire::ViewTerminal => "view_terminal",
            DriverWire::ViewSnapshot => "view_snapshot",
        }
    }

    /// Whether an operation leaves everything as it is.
    pub open spec fn only_reads(self) -> bool {
        match self {
            DriverWire::Context => true,
            DriverWire::Status => true,
            DriverWire::Why => true,
            DriverWire::ValidateStop => true,
            DriverWire::PreviewFlowRoutes => true,
            DriverWire::ViewTerminal => true,
            DriverWire::ViewSnapshot => true,
            _ => false,
        }
    }

    /// What changes the run may say which state it was meant for; what binds it is the one
    /// exception.
    pub open spec fn policy(self) -> CursorPolicy {
        if self.only_reads() || self == DriverWire::BindRun {
            CursorPolicy::Absent
        } else {
            CursorPolicy::ExpectedAuthority
        }
    }

    pub fn cursor_policy(self) -> (r: CursorPolicy)
        ensures
            r == self.policy(),
    {
        match self {
            DriverWire::BindRun
            | DriverWire::Context
            | DriverWire::Status
            | DriverWire::Why
            | DriverWire::ValidateStop
            | DriverWire::PreviewFlowRoutes
            | DriverWire::ViewTerminal
            | DriverWire::ViewSnapshot => CursorPolicy::Absent,
            DriverWire::Pause
            | DriverWire::Resume
            | DriverWire::Complete
            | DriverWire::Stop
            | DriverWire::DeliverArtifact
            | DriverWire::PatchBoard
            | DriverWire::RecordEffect
            | DriverWire::ObserveStop
            | DriverWire::Activate
            | DriverWire::Fanout
            | DriverWire::ApplyFlowRevision
            | DriverWire::RecordHookFact
            | DriverWire::SendMessage => CursorPolicy::ExpectedAuthority,
        }
    }

    pub fn is_mutation(self) -> (r: bool)
        ensures
            r == !self.only_reads(),
    {
        match self {
            DriverWire::Context
            | DriverWire::Status
            | DriverWire::Why
            | DriverWire::ValidateStop
            | DriverWire::PreviewFlowRoutes
            | DriverWire::ViewTerminal
            | DriverWire::ViewSnapshot => false,
            _ => true,
        }
    }
}

/// Every operation is in the list of all of them.
pub proof fn lemma_all_wires(wire: DriverWire)
    ensures
        DriverWire::ALL@.contains(wire),
{
    let all = DriverWire::ALL@;
    assert(all[0] == DriverWire::BindRun);
    assert(all[1] == DriverWire::Context);
    assert(all[2] == DriverWire::Status);
    assert(all[3] == DriverWire::Why);
    assert(all[4] == DriverWire::Pause);
    assert(all[5] == DriverWire::Resume);
    assert(all[6] == DriverWire::Complete);
    assert(all[7] == DriverWire::Stop);
    assert(all[8] == DriverWire::DeliverArtifact);
    assert(all[9] == DriverWire::PatchBoard);
    assert(all[10] == DriverWire::RecordEffect);
    assert(all[11] == DriverWire::ValidateStop);
    assert(all[12] == DriverWire::ObserveStop);
    assert(all[13] == DriverWire::Activate);
    assert(all[14] == DriverWire::Fanout);
    assert(all[15] == DriverWire::ApplyFlowRevision);
    assert(all[16] == DriverWire::PreviewFlowRoutes);
    assert(all[17] == DriverWire::RecordHookFact);
    assert(all[18] == DriverWire::SendMessage);
    assert(all[19] == DriverWire::ViewTerminal);
    assert(all[20] == DriverWire::ViewSnapshot);
}

/// The length of a name, and the characters that tell names of one length apart.
spec fn shape(wire: DriverWire) -> (nat, char, char) {
    match wire {
        DriverWire::BindRun => (8, 'b', 'r'),
        DriverWire::Context => (7, 'c', 'x'),
        DriverWire::Status => (6, 's', 's'),
        DriverWire::Why => (3, 'w', 'y'),
        DriverWire::Pause => (5, 'p', 'e'),
        DriverWire::Resume => (6, 'r', 'e'),
        DriverWire::Complete => (8, 'c', 'e'),
        DriverWire::Stop => (4, 's', 'p'),
        DriverWire::DeliverArtifact => (16, 'd', 'e'),
        DriverWire::PatchBoard => (11, 'p', '_'),
        DriverWire::RecordEffect => (13, 'r', 'd'),
        DriverWire::ValidateStop => (13, 'v', 'a'),
        DriverWire::ObserveStop => (12, 'o', 'v'),
        DriverWire::Activate => (8, 'a', 'a'),
        DriverWire::Fanout => (6, 'f', 't'),
        DriverWire::ApplyFlowRevision => (19, 'a', '_'),
        DriverWire::PreviewFlowRoutes => (19, 'p', 'e'),
        DriverWire::RecordHookFact => (16, 'r', 'd'),
        DriverWire::SendMessage => (12, 's', 'm'),
        DriverWire::ViewTerminal => (13, 'v', 't'),
        DriverWire::ViewSnapshot => (13, 'v', 's'),
    }
}

proof fn lemma_shape(wire: DriverWire)
    ensures
        wire.name().len() == shape(wire).0,
        wire.name()[0] == shape(wire).1,
        wire.name().len() > 5 ==> wire.name()[5] == shape(wire).2,
{
    match wire {
        DriverWire::BindRun => {
            reveal_strlit("bind_run");
        },
        DriverWire::Context => {
            reveal_strlit("context");
        },
        DriverWire::Status => {
            reveal_strlit("status");
        },
        DriverWire::Why => {
            reveal_strlit("why");
        },
        DriverWire::Pause => {
            reveal_strlit("pause");
        },
        DriverWire::Resume => {
            reveal_strlit("resume");
        },
        DriverWire::Complete => {
            reveal_strlit("complete");
        },
        DriverWire::Stop => {
            reveal_strlit("stop");
        },
        DriverWire::DeliverArtifact => {
            reveal_strlit("deliver_artifact");
        },
        DriverWire::PatchBoard => {
            reveal_strlit("patch_board");
        },
        DriverWire::RecordEffect => {
            reveal_strlit("record_effect");
        },
        DriverWire::ValidateStop => {
            reveal_strlit("validate_stop");
        },
        DriverWire::ObserveStop => {
            reveal_strlit("observe_stop");
        },
        DriverWire::Activate => {
            reveal_strlit("activate");
        },
        DriverWire::Fanout => {
            reveal_strlit("fanout");
        },
        DriverWire::ApplyFlowRevision => {
            reveal_strlit("apply_flow_revision");
        },
        DriverWire::PreviewFlowRoutes => {
            reveal_strlit("preview_flow_routes");
        },
        DriverWire::RecordHookFact => {
            reveal_strlit("record_hook_fact");
        },
        DriverWire::SendMessage => {
            reveal_strlit("send_message");
        },
        DriverWire::ViewTerminal => {
            reveal_strlit("view_terminal");
        },
        DriverWire::ViewSnapshot => {
            reveal_strlit("view_snapshot");
        },
    }
}

/// No two operations have the same name.
pub proof fn lemma_wire_names_differ(a: DriverWire, b: DriverWire)
    requires
        a.name() == b.name(),
    ensures
        a == b,
{
    lemma_shape(a);
    lemma_shape(b);
}

/// What changes the run is told apart from what only reads it: an operation that may say which
/// state it was meant for changes the run.
pub proof fn lemma_cursor_only_for_mutations(wire: DriverWire)
    ensures
        wire.policy() == CursorPolicy::ExpectedAuthority ==> !wire.only_reads(),
{
}

/// The operation of the given name.
pub open spec fn named(name: Seq<char>) -> Option<DriverWire> {
    if exists|wire: DriverWire| #[trigger] wire.name() == name {
        Some(choose|wire: DriverWire| #[trigger] wire.name() == name)
    } else {
        None
    }
}

/// An operation is found again by its name.
pub proof fn lemma_name_round_trip(wire: DriverWire)
    ensures
        named(wire.name()) == Some(wire),
{
    let found = choose|found: DriverWire| #[trigger] found.name() == wire.name();
    assert(wire.name() == wire.name());
    lemma_wire_names_differ(found, wire);
}

pub fn wire_from_name(name: &str) -> (r: Option<DriverWire>)
    ensures
        r == named(name@),
        match r {
            Some(wire) => wire.name() == name@,
            None => forall|wire: DriverWire| #[trigger] wire.name() != name@,
        },
{
    let all = DriverWire::ALL;
    let mut i: usize = 0;
    while i < all.len()
        invariant
            i <= all.len(),
            all@ == DriverWire::ALL@,
            forall|j: int| 0 <= j < i ==> (#[trigger] all@[j]).name() != name@,
        decreases all.len() - i,
    {
        if same(all[i].as_str(), name) {
            proof {
                lemma_name_round_trip(all@[i as int]);
            }
            return Some(all[i]);
        }
        i += 1;
    }
    proof {
        assert forall|wire: DriverWire| #[trigger] wire.name() != name@ by {
            lemma_all_wires(wire);
            let j = choose|j: int| 0 <= j < all@.len() && all@[j] == wire;
            assert(all@[j].name() != name@);
        }
    }
    None
}

} // verus!
