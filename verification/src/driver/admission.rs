//! Who is let in, and on what terms: the conditions, in terms of the request and of what is known.
use vstd::prelude::*;

use crate::json::{field, text_field, unsigned_field, JsonView};
use crate::text::is_blank;

use super::failure::FailureView;
use super::keys::AllocationKeyView;
use super::participant::{
    bind_decision, bind_request_in, ends_pane, exit_candidates_in, exit_decision, file_placed,
    hook_decision, latest_binding, stop_reason, tool_decision, told_to_hook, BindRequestView,
    BindingFileView, StopEventView,
};
use super::protocol::DriverWire;
use super::records::ParticipantBindingView;
use super::replay::DriverStateView;
use super::request::{
    asked_activation_limit, asked_mode, asked_stop_limit, authority_fits, dispatch_of, heard,
    Authority, Dispatch,
};
use super::wire::{either_field, optional_u64, ActivationStatus, RunMode};

verus! {

broadcast use vstd::string::group_string_axioms;

/// What a participant has to show for a binding: a file at its place that is of this very binding,
/// and the credential in it.
pub open spec fn shows_credential(
    binding: ParticipantBindingView,
    file: Option<BindingFileView>,
    runs_root: Seq<char>,
    credential: Seq<char>,
) -> bool {
    &&& file_placed(binding)
    &&& file matches Some(file) && {
        &&& file.run_id == binding.run_id
        &&& file.activation_id == binding.activation_id
        &&& file.allocation_generation == binding.allocation_generation
        &&& file.pane_id == binding.pane_id
        &&& file.readiness_nonce == binding.readiness_nonce
        &&& file.handle == binding.handle
        &&& file.runs_root == runs_root
        &&& file.credential == credential
    }
}

/// Whether an activation has a pane whose allocation has the given binding.
pub open spec fn works_under(
    state: DriverStateView,
    activation_id: Seq<char>,
    binding: ParticipantBindingView,
) -> bool {
    &&& state.tmux is Some
    &&& state.tmux->0.panes.dom().contains(activation_id)
    &&& {
        let pane = state.tmux->0.panes[activation_id];
        let key = AllocationKeyView { activation_id, generation: pane.allocation_generation };
        &&& state.participant_bindings.dom().contains(key)
        &&& state.participant_bindings[key] == binding
        &&& binding.pane_id == pane.pane_id
    }
}

/// An agent may use a tool exactly if the tool is for agents, its activation has the pane that the
/// agent was started in, and it shows the handle and the credential of its binding, which is bound to
/// a session. One who shows neither handle nor credential is no agent.
pub proof fn lemma_agents_may_use_their_tools(
    state: DriverStateView,
    wire: DriverWire,
    request: JsonView,
    file: Option<BindingFileView>,
    runs_root: Seq<char>,
    activation_id: Seq<char>,
)
    ensures
        tool_decision(state, wire, request, file, runs_root) == Ok::<
            Option<Seq<char>>,
            FailureView,
        >(Some(activation_id)) <==> {
            &&& wire == DriverWire::Context || wire == DriverWire::DeliverArtifact || wire
                == DriverWire::RecordEffect || wire == DriverWire::ValidateStop
            &&& text_field(request, "activation_id"@) == Some(activation_id)
            &&& exists|binding: ParticipantBindingView|
                #[trigger] works_under(state, activation_id, binding) && text_field(
                    request,
                    "participant_handle"@,
                ) == Some(binding.handle) && binding.native_session_id is Some && text_field(
                    request,
                    "participant_credential"@,
                ) is Some && shows_credential(
                    binding,
                    file,
                    runs_root,
                    text_field(request, "participant_credential"@)->0,
                )
        },
        tool_decision(state, wire, request, file, runs_root) == Ok::<
            Option<Seq<char>>,
            FailureView,
        >(None) <==> text_field(request, "participant_handle"@) is None && text_field(
            request,
            "participant_credential"@,
        ) is None,
{
    if state.tmux is Some && state.tmux->0.panes.dom().contains(activation_id) {
        let pane = state.tmux->0.panes[activation_id];
        let key = AllocationKeyView { activation_id, generation: pane.allocation_generation };
        let binding = state.participant_bindings[key];
        assert(works_under(state, activation_id, binding) == (
        state.participant_bindings.dom().contains(key) && binding.pane_id == pane.pane_id));
    }
}

/// The hook of an agent is heard exactly if it shows the handle, the credential and the session of
/// the binding under which its activation works; it speaks for that binding.
pub proof fn lemma_hooks_speak_for_their_binding(
    state: DriverStateView,
    request: JsonView,
    file: Option<BindingFileView>,
    runs_root: Seq<char>,
    binding: ParticipantBindingView,
)
    ensures
        hook_decision(state, request, file, runs_root) == Ok::<
            ParticipantBindingView,
            FailureView,
        >(binding) <==> {
            &&& text_field(request, "activation_id"@) is Some
            &&& works_under(state, text_field(request, "activation_id"@)->0, binding)
            &&& text_field(request, "participant_handle"@) == Some(binding.handle)
            &&& text_field(request, "native_session_id"@) is Some
            &&& binding.native_session_id == text_field(request, "native_session_id"@)
            &&& text_field(request, "participant_credential"@) is Some
            &&& shows_credential(
                binding,
                file,
                runs_root,
                text_field(request, "participant_credential"@)->0,
            )
        },
{
}

/// An agent is bound exactly if the driver started it in the pane that its activation has, it shows
/// what its binding holds, and the binding is bound to no other session: as new where it is bound to
/// none, as known where it is bound to this very one.
pub proof fn lemma_agents_are_bound_on_their_terms(
    state: DriverStateView,
    run_id: Seq<char>,
    request: BindRequestView,
    file: Option<BindingFileView>,
    runs_root: Seq<char>,
)
    ensures
        ({
            let key = AllocationKeyView {
                activation_id: request.activation_id,
                generation: request.allocation_generation,
            };
            let binding = state.participant_bindings[key];
            let fits = {
                &&& state.participant_bindings.dom().contains(key)
                &&& binding.run_id == run_id
                &&& binding.pane_id == request.pane_id
                &&& binding.readiness_nonce == request.readiness_nonce
                &&& binding.handle == request.handle
                &&& shows_credential(binding, file, runs_root, request.credential)
                &&& state.tmux is Some
                &&& state.tmux->0.panes.dom().contains(binding.activation_id)
                &&& state.tmux->0.panes[binding.activation_id].pane_id == binding.pane_id
                &&& state.tmux->0.panes[binding.activation_id].allocation_generation
                    == binding.allocation_generation
            };
            &&& bind_decision(state, run_id, request, file, runs_root) == Ok::<
                bool,
                FailureView,
            >(false) <==> fits && binding.native_session_id is None && binding.platform is None
                && binding.source is None
            &&& bind_decision(state, run_id, request, file, runs_root) == Ok::<
                bool,
                FailureView,
            >(true) <==> fits && binding.native_session_id == Some(request.native_session_id)
                && binding.platform == Some(request.platform) && binding.source == Some(
                request.source,
            )
        }),
{
}

/// What an agent asks when it wants to be bound is read as it was written, and nothing of it may be
/// missing; its session, platform and source may not be blank.
pub proof fn lemma_bind_requests_are_read(request: JsonView, asked: BindRequestView)
    ensures
        bind_request_in(request) == Ok::<BindRequestView, FailureView>(asked) <==> {
            &&& text_field(request, "activation_id"@) == Some(asked.activation_id)
            &&& unsigned_field(request, "allocation_generation"@) == Some(
                asked.allocation_generation,
            )
            &&& text_field(request, "pane_id"@) == Some(asked.pane_id)
            &&& text_field(request, "readiness_nonce"@) == Some(asked.readiness_nonce)
            &&& text_field(request, "participant_handle"@) == Some(asked.handle)
            &&& text_field(request, "participant_credential"@) == Some(asked.credential)
            &&& text_field(request, "native_session_id"@) == Some(asked.native_session_id)
            &&& text_field(request, "platform"@) == Some(asked.platform)
            &&& text_field(request, "source"@) == Some(asked.source)
            &&& !is_blank(asked.native_session_id)
            &&& !is_blank(asked.platform)
            &&& !is_blank(asked.source)
        },
{
}

/// Of the bindings of an activation the one with the highest generation is the latest, and there is
/// one where the activation has any.
pub proof fn lemma_latest_binding_is_the_newest(
    pairs: Seq<(AllocationKeyView, ParticipantBindingView)>,
    activation_id: Seq<char>,
)
    ensures
        latest_binding(pairs, activation_id) is None <==> (forall|i: int|
            0 <= i < pairs.len() ==> (#[trigger] pairs[i]).1.activation_id != activation_id),
        latest_binding(pairs, activation_id) matches Some(best) ==> {
            &&& best.activation_id == activation_id
            &&& exists|i: int| 0 <= i < pairs.len() && (#[trigger] pairs[i]).1 == best
            &&& forall|i: int|
                0 <= i < pairs.len() && (#[trigger] pairs[i]).1.activation_id == activation_id
                    ==> pairs[i].1.allocation_generation <= best.allocation_generation
        },
    decreases pairs.len(),
{
    if pairs.len() > 0 {
        let front = pairs.drop_last();
        lemma_latest_binding_is_the_newest(front, activation_id);
        assert(forall|i: int| 0 <= i < front.len() ==> #[trigger] front[i] == pairs[i]);
        assert(pairs[pairs.len() - 1] == pairs.last());
        match latest_binding(front, activation_id) {
            Some(best) => {
                let i = choose|i: int| 0 <= i < front.len() && (#[trigger] front[i]).1 == best;
                assert(pairs[i].1 == best);
            },
            None => {},
        }
        assert forall|i: int|
            0 <= i < pairs.len() && (#[trigger] pairs[i]).1.activation_id
                == activation_id implies latest_binding(pairs, activation_id) is Some
            && pairs[i].1.allocation_generation <= latest_binding(
            pairs,
            activation_id,
        )->0.allocation_generation by {
            if i < front.len() {
                assert(front[i] == pairs[i]);
            }
        }
    }
}

/// Those that a word of an exit may be about are the bindings of its activation with its handle, and
/// no others, in their order.
pub proof fn lemma_exit_candidates_are_those_named(
    pairs: Seq<(AllocationKeyView, ParticipantBindingView)>,
    activation_id: Seq<char>,
    handle: Seq<char>,
)
    ensures
        exit_candidates_in(pairs, activation_id, handle) == pairs.filter_map(
            |pair: (AllocationKeyView, ParticipantBindingView)|
                if pair.1.activation_id == activation_id && pair.1.handle == handle {
                    Some(pair.1)
                } else {
                    None
                },
        ),
    decreases pairs.len(),
{
    let pick = |pair: (AllocationKeyView, ParticipantBindingView)|
        if pair.1.activation_id == activation_id && pair.1.handle == handle {
            Some(pair.1)
        } else {
            None
        };
    if pairs.len() > 0 {
        lemma_exit_candidates_are_those_named(pairs.drop_last(), activation_id, handle);
        let front = exit_candidates_in(pairs.drop_last(), activation_id, handle);
        match pick(pairs.last()) {
            Some(binding) => {
                assert(front.push(binding) =~= front + seq![binding]);
            },
            None => {},
        }
    }
}

/// A word of an exit that was not heard before is taken only while the activation still has the pane
/// of the binding; one that was is taken only with the same status.
pub proof fn lemma_exits_are_taken_on_their_terms(
    state: DriverStateView,
    binding: ParticipantBindingView,
    exit_status: i32,
)
    ensures
        exit_decision(state, binding, exit_status) == Ok::<bool, FailureView>(true)
            <==> binding.exit_status == Some(exit_status),
        exit_decision(state, binding, exit_status) == Ok::<bool, FailureView>(false) <==> {
            &&& binding.exit_status is None
            &&& state.tmux is Some
            &&& state.tmux->0.panes.dom().contains(binding.activation_id)
            &&& state.tmux->0.panes[binding.activation_id].pane_id == binding.pane_id
            &&& state.tmux->0.panes[binding.activation_id].allocation_generation
                == binding.allocation_generation
        },
{
}

/// The pane of an agent that exited is ended only if its activation has come to an end and still has
/// the pane of that very binding.
pub proof fn lemma_only_ended_activations_lose_their_pane(
    state: DriverStateView,
    run_id: Seq<char>,
    expected: ParticipantBindingView,
    status: Option<ActivationStatus>,
)
    requires
        ends_pane(state, run_id, expected, status),
    ensures
        expected.run_id == run_id,
        expected.exit_status is Some,
        status == Some(ActivationStatus::Blocked) || status == Some(ActivationStatus::Completed)
            || status == Some(ActivationStatus::Failed) || status == Some(
            ActivationStatus::Cancelled,
        ),
        state.tmux is Some,
        state.tmux->0.panes.dom().contains(expected.activation_id),
        state.tmux->0.panes[expected.activation_id].pane_id == expected.pane_id,
        state.tmux->0.panes[expected.activation_id].allocation_generation
            == expected.allocation_generation,
{
}

/// What a hook was told is the first word to its activation behind the event in which the hook was
/// heard: there is such an event before it, and no other word to the activation in between.
pub proof fn lemma_hooks_are_told_the_next_word(
    events: Seq<StopEventView>,
    run_id: Seq<char>,
    activation_id: Seq<char>,
    invocation_id: Seq<char>,
    heard: bool,
    n: int,
)
    requires
        0 <= n,
    ensures
        told_to_hook(events, run_id, activation_id, invocation_id, heard, n) matches Some(k) ==> {
            &&& n <= k < events.len()
            &&& events[k] matches StopEventView::Decided(run, activation, _) && run == run_id
                && activation == activation_id
            &&& heard || exists|o: int|
                n <= o < k && #[trigger] events[o] == StopEventView::Observed(
                    run_id,
                    activation_id,
                    Some(invocation_id),
                )
        },
        told_to_hook(events, run_id, activation_id, invocation_id, heard, n) is None
            ==> forall|o: int, k: int|
            n <= o < k < events.len() && #[trigger] events[o] == StopEventView::Observed(
                run_id,
                activation_id,
                Some(invocation_id),
            ) ==> !((#[trigger] events[k]) matches StopEventView::Decided(run, activation, _) && run
                == run_id && activation == activation_id),
        heard && told_to_hook(events, run_id, activation_id, invocation_id, heard, n) is None
            ==> forall|k: int|
            n <= k < events.len() ==> !((#[trigger] events[k]) matches StopEventView::Decided(
                run,
                activation,
                _,
            ) && run == run_id && activation == activation_id),
    decreases events.len() - n,
{
    if n < events.len() {
        let now = heard || events[n] == StopEventView::Observed(
            run_id,
            activation_id,
            Some(invocation_id),
        );
        lemma_hooks_are_told_the_next_word(
            events,
            run_id,
            activation_id,
            invocation_id,
            now,
            n + 1,
        );
    }
}

/// A request that says which state it was meant for is carried out only in that state, and one that
/// says nothing in any.
pub proof fn lemma_requests_are_held_to_their_state(request: JsonView, authority: Authority)
    ensures
        authority_fits(request, authority) is Ok <==> {
            let cursor = optional_u64(request, "expected_event_cursor"@, "expectedEventCursor"@);
            let generation = optional_u64(
                request,
                "expected_context_generation"@,
                "expectedContextGeneration"@,
            );
            &&& cursor == Ok::<Option<u64>, FailureView>(None) || cursor == Ok::<
                Option<u64>,
                FailureView,
            >(Some(authority.event_cursor))
            &&& generation == Ok::<Option<u64>, FailureView>(None) || generation == Ok::<
                Option<u64>,
                FailureView,
            >(Some(authority.generation()))
        },
{
}

/// A number is read under its name, or under the other one where it does not stand under the first;
/// what stands there must be a number.
pub proof fn lemma_numbers_are_read(value: JsonView, key: Seq<char>, alias: Seq<char>, n: u64)
    ensures
        optional_u64(value, key, alias) == Ok::<Option<u64>, FailureView>(Some(n))
            <==> unsigned_field(value, key) == Some(n) || (field(value, key) is None
            && unsigned_field(value, alias) == Some(n)),
        optional_u64(value, key, alias) == Ok::<Option<u64>, FailureView>(None) <==> field(
            value,
            key,
        ) is None && field(value, alias) is None,
{
}

/// Whatever a request asks, an agent may try to stop at least once and at most eight times; a request
/// that asks within these bounds is met.
pub proof fn lemma_stop_limits_are_bounded(request: JsonView)
    ensures
        asked_stop_limit(request) matches Ok(limit) ==> 1 <= limit <= 8,
        optional_u64(request, "stop_attempt_limit"@, "stopAttemptLimit"@) matches Ok(Some(asked))
            ==> (asked_stop_limit(request) is Ok <==> 1 <= asked <= 8) && (1 <= asked <= 8
            ==> asked_stop_limit(request)->Ok_0 == asked),
{
}

/// A run may have as many activations as it asks for, and any number where it does not say.
pub proof fn lemma_activation_limits_are_met(request: JsonView)
    ensures
        optional_u64(request, "activation_limit"@, "activationLimit"@) matches Ok(Some(asked))
            ==> asked_activation_limit(request) == Ok::<u64, FailureView>(asked),
        optional_u64(request, "activation_limit"@, "activationLimit"@) matches Ok(None)
            ==> asked_activation_limit(request) == Ok::<u64, FailureView>(u64::MAX),
{
}

/// The mode of a run is the one that the request names; it is finite where none is named, and no
/// other name is taken.
pub proof fn lemma_run_modes_are_met(request: JsonView, mode: RunMode)
    ensures
        either_field(request, "run_mode"@, "runMode"@) == Some(JsonView::Text(mode.name()))
            ==> asked_mode(request) == Ok::<RunMode, FailureView>(mode),
        either_field(request, "run_mode"@, "runMode"@) is None ==> asked_mode(request) == Ok::<
            RunMode,
            FailureView,
        >(RunMode::Finite),
        either_field(request, "run_mode"@, "runMode"@) matches Some(JsonView::Text(name)) ==> (
        asked_mode(request) is Ok ==> asked_mode(request)->Ok_0.name() == name),
{
    reveal_strlit("finite");
    reveal_strlit("continuous");
    reveal_strlit("manual");
    assert("finite"@.len() == 6);
    assert("continuous"@.len() == 10);
    assert("manual"@.len() == 6);
    assert("finite"@[0] == 'f');
    assert("manual"@[0] == 'm');
}

/// A request is heard exactly if it is an object that holds the token of the driver, an operation and
/// a run; it is heard as it was written.
pub proof fn lemma_requests_are_heard_with_the_token(request: JsonView, auth_token: Seq<char>)
    ensures
        heard(request, auth_token) is Ok <==> {
            &&& request is Record
            &&& text_field(request, "token"@) == Some(auth_token)
            &&& text_field(request, "op"@) is Some
            &&& text_field(request, "run_id"@) is Some
        },
        heard(request, auth_token) matches Ok(told) ==> {
            &&& text_field(request, "op"@) == Some(told.op)
            &&& text_field(request, "run_id"@) == Some(told.run_id)
            &&& told.request == request
            &&& field(request, "id"@) matches Some(id) ==> told.id == id
        },
        heard(request, auth_token) matches Err(answer) ==> {
            &&& field(answer, "ok"@) == Some(JsonView::Bool(false))
            &&& request is Record && field(request, "id"@) is Some ==> field(answer, "id"@)
                == field(request, "id"@)
        },
{
    match heard(request, auth_token) {
        Err(answer) => {
            let id = if request is Record && field(request, "id"@) is Some {
                field(request, "id"@)->0
            } else {
                JsonView::Null
            };
            super::answers::lemma_refusal_tells(id, "malformed_request"@, "op is required"@);
            super::answers::lemma_refusal_tells(id, "malformed_request"@, "run_id is required"@);
            super::answers::lemma_refusal_tells(
                id,
                "unauthorized"@,
                "driver IPC token is required"@,
            );
            super::answers::lemma_refusal_tells(
                id,
                "unauthorized"@,
                "driver IPC token is invalid"@,
            );
            super::answers::lemma_refusal_tells(
                id,
                "malformed_request"@,
                "request must be a JSON object"@,
            );
        },
        Ok(_) => {},
    }
}

/// Nothing of another run is carried out.
pub proof fn lemma_other_runs_are_left_alone(op: Seq<char>, run_id: Seq<char>, own_run: Seq<char>)
    ensures
        dispatch_of(op, run_id, own_run) == Dispatch::WrongRun <==> run_id != own_run,
{
}

/// Why an agent wants to stop is told in its own words where it gives some.
pub proof fn lemma_stop_reasons_are_kept(request: JsonView)
    ensures
        text_field(request, "reason"@) matches Some(reason) ==> (!is_blank(reason) ==> stop_reason(
            request,
        ) == reason),
        !is_blank(stop_reason(request)),
{
    reveal_strlit("participant requested stop");
    assert("participant requested stop"@[0] == 'p');
}

} // verus!
