//! What the hooks of agents ask is what the driver hears.
use vstd::prelude::*;

use crate::driver::failure::FailureView;
use crate::driver::fields::signed_json;
use crate::driver::participant::{bind_request_in, exit_notice_in, BindingFileView, ExitNoticeView};
use crate::json::{distinct_keys, field, json_parse, lemma_field_at, text_field, JsonView};
use crate::text::is_blank;

use super::Client;
use super::hooks::{
    asked_stop, bind_arguments, client_of, exit_arguments, first_text, pane_fault, session_of,
    start_request, stop_arguments,
};

verus! {

broadcast use vstd::string::group_string_axioms;

/// What is asked when a session starts holds what the private file of the agent holds, the session and
/// where it comes from.
pub proof fn lemma_bind_arguments_tells(
    binding: BindingFileView,
    session: Seq<char>,
    platform: Seq<char>,
    source: Seq<char>,
)
    ensures
        ({
            let told = bind_arguments(binding, session, platform, source);
            &&& field(told, "activation_id"@) == Some(JsonView::Text(binding.activation_id))
            &&& field(told, "allocation_generation"@) == Some(
                    JsonView::Unsigned(binding.allocation_generation),
                )
            &&& field(told, "pane_id"@) == Some(JsonView::Text(binding.pane_id))
            &&& field(told, "readiness_nonce"@) == Some(JsonView::Text(binding.readiness_nonce))
            &&& field(told, "participant_handle"@) == Some(JsonView::Text(binding.handle))
            &&& field(told, "participant_credential"@) == Some(JsonView::Text(binding.credential))
            &&& field(told, "native_session_id"@) == Some(JsonView::Text(session))
            &&& field(told, "platform"@) == Some(JsonView::Text(platform))
            &&& field(told, "source"@) == Some(JsonView::Text(source))
        }),
{
    let fields = bind_arguments(binding, session, platform, source)->Record_0;
    reveal_strlit("activation_id");
    reveal_strlit("allocation_generation");
    reveal_strlit("pane_id");
    reveal_strlit("readiness_nonce");
    reveal_strlit("participant_handle");
    reveal_strlit("participant_credential");
    reveal_strlit("native_session_id");
    reveal_strlit("platform");
    reveal_strlit("source");
    assert("source"@.len() == 6);
    assert("pane_id"@.len() == 7);
    assert("platform"@.len() == 8);
    assert("activation_id"@.len() == 13);
    assert("readiness_nonce"@.len() == 15);
    assert("native_session_id"@.len() == 17);
    assert("participant_handle"@.len() == 18);
    assert("allocation_generation"@.len() == 21);
    assert("participant_credential"@.len() == 22);
    assert(distinct_keys(fields));
    lemma_field_at(fields, 0);
    lemma_field_at(fields, 1);
    lemma_field_at(fields, 2);
    lemma_field_at(fields, 3);
    lemma_field_at(fields, 4);
    lemma_field_at(fields, 5);
    lemma_field_at(fields, 6);
    lemma_field_at(fields, 7);
    lemma_field_at(fields, 8);
}

/// What is asked when a session wants to stop holds who asks and which call it is.
pub proof fn lemma_stop_arguments_tells(
    binding: BindingFileView,
    session: Seq<char>,
    invocation_id: Seq<char>,
)
    ensures
        ({
            let told = stop_arguments(binding, session, invocation_id);
            &&& field(told, "activation_id"@) == Some(JsonView::Text(binding.activation_id))
            &&& field(told, "participant_handle"@) == Some(JsonView::Text(binding.handle))
            &&& field(told, "participant_credential"@) == Some(JsonView::Text(binding.credential))
            &&& field(told, "native_session_id"@) == Some(JsonView::Text(session))
            &&& field(told, "invocation_id"@) == Some(JsonView::Text(invocation_id))
            &&& field(told, "reason"@) == Some(JsonView::Text("participant requested stop"@))
        }),
{
    let fields = stop_arguments(binding, session, invocation_id)->Record_0;
    reveal_strlit("activation_id");
    reveal_strlit("participant_handle");
    reveal_strlit("participant_credential");
    reveal_strlit("native_session_id");
    reveal_strlit("invocation_id");
    reveal_strlit("reason");
    assert("reason"@.len() == 6);
    assert("activation_id"@.len() == 13);
    assert("invocation_id"@.len() == 13);
    assert("activation_id"@[0] == 'a');
    assert("invocation_id"@[0] == 'i');
    assert("native_session_id"@.len() == 17);
    assert("participant_handle"@.len() == 18);
    assert("participant_credential"@.len() == 22);
    assert(distinct_keys(fields));
    lemma_field_at(fields, 0);
    lemma_field_at(fields, 1);
    lemma_field_at(fields, 2);
    lemma_field_at(fields, 3);
    lemma_field_at(fields, 4);
    lemma_field_at(fields, 5);
}

/// What is told of an exit holds who exited and with which status.
pub proof fn lemma_exit_arguments_tells(binding: BindingFileView, exit_status: i32)
    ensures
        ({
            let told = exit_arguments(binding, exit_status);
            &&& field(told, "activation_id"@) == Some(JsonView::Text(binding.activation_id))
            &&& field(told, "participant_handle"@) == Some(JsonView::Text(binding.handle))
            &&& field(told, "participant_credential"@) == Some(JsonView::Text(binding.credential))
            &&& field(told, "exit_status"@) == Some(signed_json(exit_status as i64))
        }),
{
    let fields = exit_arguments(binding, exit_status)->Record_0;
    reveal_strlit("activation_id");
    reveal_strlit("participant_handle");
    reveal_strlit("participant_credential");
    reveal_strlit("exit_status");
    assert("exit_status"@.len() == 11);
    assert("activation_id"@.len() == 13);
    assert("participant_handle"@.len() == 18);
    assert("participant_credential"@.len() == 22);
    assert(distinct_keys(fields));
    lemma_field_at(fields, 0);
    lemma_field_at(fields, 1);
    lemma_field_at(fields, 2);
    lemma_field_at(fields, 3);
}

/// An agent whose session starts is heard as the agent that its private file is of: the driver reads
/// from what is asked who it is, what it shows and which session it is.
pub proof fn lemma_started_sessions_are_heard(
    binding: BindingFileView,
    pane: Option<Seq<char>>,
    input: Seq<char>,
    source: Seq<char>,
)
    requires
        !is_blank(source),
    ensures
        start_request(binding, pane, input, source) matches Ok(asked) ==> {
            &&& pane == Some(binding.pane_id)
            &&& bind_request_in(asked) is Ok
            &&& {
                let told = bind_request_in(asked)->Ok_0;
                &&& told.activation_id == binding.activation_id
                &&& told.allocation_generation == binding.allocation_generation
                &&& told.pane_id == binding.pane_id
                &&& told.readiness_nonce == binding.readiness_nonce
                &&& told.handle == binding.handle
                &&& told.credential == binding.credential
                &&& told.source == source
                &&& json_parse(input) is Ok
                &&& session_of(json_parse(input)->Ok_0) == Some(told.native_session_id)
                &&& client_of(source) matches Some(client) && told.platform == client.name()
            }
        },
{
    match start_request(binding, pane, input, source) {
        Ok(asked) => {
            let session = session_of(json_parse(input)->Ok_0)->0;
            let client = client_of(source)->0;
            lemma_bind_arguments_tells(binding, session, client.name(), source);
            lemma_names_are_filled(client);
        },
        Err(_) => {},
    }
}

proof fn lemma_names_are_filled(client: Client)
    ensures
        !is_blank(client.name()),
{
    match client {
        Client::Codex => {
            reveal_strlit("codex_");
            assert("codex_"@.len() == 6);
            assert("codex_"@[0] == 'c');
        },
        Client::Claude => {
            reveal_strlit("claude_");
            assert("claude_"@.len() == 7);
            assert("claude_"@[0] == 'c');
        },
    }
    assert(client.name()[0] == 'c');
}

/// A session is read from an event under the first of its names that holds a text, which may not be
/// blank.
pub proof fn lemma_sessions_are_named(event: JsonView)
    ensures
        text_field(event, "session_id"@) matches Some(id) ==> session_of(event) == (if is_blank(id) {
            None
        } else {
            Some(id)
        }),
        session_of(event) matches Some(id) ==> !is_blank(id) && (text_field(event, "session_id"@)
            == Some(id) || text_field(event, "sessionId"@) == Some(id) || text_field(
            event,
            "thread_id"@,
        ) == Some(id) || text_field(event, "conversation_id"@) == Some(id)),
{
    reveal_with_fuel(first_text, 5);
}

/// A session that wants to stop is heard as the agent that its private file is of.
pub proof fn lemma_stopping_sessions_are_heard(
    binding: BindingFileView,
    pane: Option<Seq<char>>,
    input: Seq<char>,
    invocation_id: Seq<char>,
)
    ensures
        asked_stop(binding, pane, input, invocation_id) matches Ok(asked) ==> {
            &&& pane == Some(binding.pane_id)
            &&& text_field(asked, "activation_id"@) == Some(binding.activation_id)
            &&& text_field(asked, "participant_handle"@) == Some(binding.handle)
            &&& text_field(asked, "participant_credential"@) == Some(binding.credential)
            &&& text_field(asked, "invocation_id"@) == Some(invocation_id)
            &&& json_parse(input) is Ok
            &&& text_field(asked, "native_session_id"@) == session_of(json_parse(input)->Ok_0)
        },
{
    match asked_stop(binding, pane, input, invocation_id) {
        Ok(asked) => {
            let session = session_of(json_parse(input)->Ok_0)->0;
            lemma_stop_arguments_tells(binding, session, invocation_id);
        },
        Err(_) => {},
    }
}

/// The exit of an agent is heard as the exit of the agent that its private file is of, with the status
/// that it exited with.
pub proof fn lemma_exits_are_heard(binding: BindingFileView, exit_status: i32)
    ensures
        exit_notice_in(exit_arguments(binding, exit_status)) == Ok::<ExitNoticeView, FailureView>(
            ExitNoticeView {
                activation_id: binding.activation_id,
                handle: binding.handle,
                credential: binding.credential,
                exit_status,
            },
        ),
{
    lemma_exit_arguments_tells(binding, exit_status);
}

/// A hook speaks only from the pane of its agent.
pub proof fn lemma_hooks_speak_from_their_pane(pane: Option<Seq<char>>, own: Seq<char>)
    requires
        !is_blank(own),
    ensures
        pane_fault(pane, own) is None <==> pane == Some(own),
{
}

} // verus!
