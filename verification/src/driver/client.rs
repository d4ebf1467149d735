//! The side that asks a driver.
use vstd::prelude::*;
use vstd::utf8::encode_utf8;

use crate::adapters::tmux::error::{file_name, path_file_name};
use crate::flow::export::order_fields;
use crate::json::{compact, no_fields, with_field, Fields, Json, JsonView};
use crate::split::{components, join_path, path_components, path_joined, Component, ComponentView};
use crate::text::{cat2, cat5, same, trim, trimmed};

use super::ipc::{frame_of, printed, FrameView, IO_TIMEOUT_MS, MAX_FRAME_BYTES};
use super::records::{DriverPaneConfig, DriverPaneConfigView};
use super::storage::{record, record_bytes, Contact};

verus! {

broadcast use vstd::string::group_string_axioms;

/// The file that tells how a driver is reached.
pub const IPC_FILE: &'static str = "ipc.json";

/// The file that holds the token of a driver.
pub const TOKEN_FILE: &'static str = "ipc-token";

/// How long an answer to a request that changes something may take, in milliseconds.
pub const MUTATION_RESPONSE_TIMEOUT_MS: u64 = 30000;

/// What a driver is started with.
#[derive(Debug)]
pub struct DriverConfig {
    pub run_id: String,
    pub runs_root: String,
    pub runtime_root: String,
    pub auth_token: String,
    pub auth_token_path: Option<String>,
    pub review_root: String,
    pub operator_pane: Option<DriverPaneConfig>,
}

#[verifier::ext_equal]
pub struct DriverConfigView {
    pub run_id: Seq<char>,
    pub runs_root: Seq<char>,
    pub runtime_root: Seq<char>,
    pub auth_token: Seq<char>,
    pub auth_token_path: Option<Seq<char>>,
    pub review_root: Seq<char>,
    pub operator_pane: Option<DriverPaneConfigView>,
}

impl DeepView for DriverConfig {
    type V = DriverConfigView;

    open spec fn deep_view(&self) -> DriverConfigView {
        DriverConfigView {
            run_id: self.run_id@,
            runs_root: self.runs_root@,
            runtime_root: self.runtime_root@,
            auth_token: self.auth_token@,
            auth_token_path: self.auth_token_path.deep_view(),
            review_root: self.review_root@,
            operator_pane: self.operator_pane.deep_view(),
        }
    }
}

/// The socket of a driver, in the private directory of its run.
pub open spec fn socket_in(private_run_root: Seq<char>) -> Seq<char> {
    path_joined(private_run_root, "s"@)
}

pub fn socket_path_for_run_root(private_run_root: &str) -> (r: String)
    ensures
        r@ == socket_in(private_run_root@),
{
    join_path(private_run_root, "s")
}

impl DriverConfig {
    /// The socket of the driver, in the private directory of its run.
    pub fn socket_path(&self, private_run_root: &str) -> (r: String)
        ensures
            r@ == socket_in(private_run_root@),
    {
        socket_path_for_run_root(private_run_root)
    }

    /// Where the token is kept: in the directory of the driver, and nowhere else.
    pub fn token_path(&self, driver_dir: &str) -> (r: Result<String, &'static str>)
        ensures
            ({
                let own = path_joined(driver_dir@, TOKEN_FILE@);
                match r {
                    Ok(path) => path@ == own && (self.deep_view().auth_token_path is None
                        || self.deep_view().auth_token_path == Some(own)),
                    Err(message) => {
                        &&& self.deep_view().auth_token_path is Some
                        &&& self.deep_view().auth_token_path->0 != own
                        &&& message@ == "driver IPC token path must be the private run token file"@
                    },
                }
            }),
    {
        let own = join_path(driver_dir, TOKEN_FILE);
        match &self.auth_token_path {
            Some(path) => {
                if same(path.as_str(), own.as_str()) {
                    Ok(own)
                } else {
                    Err("driver IPC token path must be the private run token file")
                }
            },
            None => Ok(own),
        }
    }
}

/// How a driver is reached.
#[derive(Debug)]
pub struct DriverIpcMetadata {
    pub run_id: String,
    pub socket_path: String,
    pub auth_token_path: String,
    pub updated_at_ms: u64,
}

#[verifier::ext_equal]
pub struct MetadataView {
    pub run_id: Seq<char>,
    pub socket_path: Seq<char>,
    pub auth_token_path: Seq<char>,
    pub updated_at_ms: u64,
}

impl DeepView for DriverIpcMetadata {
    type V = MetadataView;

    open spec fn deep_view(&self) -> MetadataView {
        MetadataView {
            run_id: self.run_id@,
            socket_path: self.socket_path@,
            auth_token_path: self.auth_token_path@,
            updated_at_ms: self.updated_at_ms,
        }
    }
}

/// What is written down of how a driver is reached: the names of the files alone.
pub open spec fn metadata_of(run_id: Seq<char>, socket: Seq<char>, now_ms: u64) -> Option<
    MetadataView,
> {
    match file_name(socket) {
        Some(name) => Some(
            MetadataView {
                run_id,
                socket_path: name,
                auth_token_path: TOKEN_FILE@,
                updated_at_ms: now_ms,
            },
        ),
        None => None,
    }
}

pub fn ipc_metadata(run_id: &str, socket_path: &str, now_ms: u64) -> (r: Option<DriverIpcMetadata>)
    ensures
        r.deep_view() == metadata_of(run_id@, socket_path@, now_ms),
{
    match path_file_name(socket_path) {
        Some(name) => Some(
            DriverIpcMetadata {
                run_id: run_id.to_string(),
                socket_path: name,
                auth_token_path: TOKEN_FILE.to_string(),
                updated_at_ms: now_ms,
            },
        ),
        None => None,
    }
}

/// Whether a path is nothing but a name.
pub open spec fn is_just(path: Seq<char>, name: Seq<char>) -> bool {
    path_components(path) == seq![ComponentView::Normal(name)]
}

pub open spec fn identity_fault(label: Seq<char>) -> Seq<char> {
    label + " does not match the run endpoint"@
}

pub fn validate_relative_identity(
    path: &str,
    expected: &str,
    label: &str,
) -> (r: Result<(), String>)
    ensures
        match r {
            Ok(_) => is_just(path@, expected@),
            Err(message) => !is_just(path@, expected@) && message@ == identity_fault(label@),
        },
{
    let parts = components(path);
    let ghost model = parts.deep_view();
    let mut valid = false;
    if parts.len() == 1 {
        assert(model[0] == parts@[0].deep_view());
        valid = match &parts[0] {
            Component::Normal(name) => same(name.as_str(), expected),
            _ => false,
        };
    }
    if valid {
        assert(model =~= seq![ComponentView::Normal(expected@)]);
        Ok(())
    } else {
        proof {
            if is_just(path@, expected@) {
                assert(model.len() == 1);
                assert(model[0] == ComponentView::Normal(expected@));
            }
        }
        Err(cat2(label, " does not match the run endpoint"))
    }
}

/// One that asks a driver.
#[derive(Debug)]
pub struct DriverClient {
    metadata: DriverIpcMetadata,
    socket_path: String,
    auth_token: String,
}

#[verifier::ext_equal]
pub struct ClientView {
    pub metadata: MetadataView,
    pub socket_path: Seq<char>,
    pub auth_token: Seq<char>,
}

impl DeepView for DriverClient {
    type V = ClientView;

    closed spec fn deep_view(&self) -> ClientView {
        ClientView {
            metadata: self.metadata.deep_view(),
            socket_path: self.socket_path@,
            auth_token: self.auth_token@,
        }
    }
}

/// What is wrong with what was found of a driver, in the order in which it is looked at.
pub open spec fn client_fault(
    metadata: MetadataView,
    run_id: Seq<char>,
    expected_socket: Seq<char>,
    token: Seq<char>,
) -> Option<Seq<char>> {
    let socket_name = match file_name(expected_socket) {
        Some(name) => name,
        None => Seq::empty(),
    };
    if metadata.run_id != run_id {
        Some("driver IPC metadata run identity mismatch"@)
    } else if !is_just(metadata.socket_path, socket_name) {
        Some(identity_fault("driver IPC socket path"@))
    } else if !is_just(metadata.auth_token_path, TOKEN_FILE@) {
        Some(identity_fault("driver IPC token path"@))
    } else if trimmed(token).len() == 0 {
        Some("driver IPC token file is empty"@)
    } else {
        None
    }
}

/// A request that is ready to be sent, and how long its answer may take.
#[derive(Debug)]
pub struct PreparedDriverRequest {
    pub bytes: Vec<u8>,
    pub response_timeout_ms: u64,
}

/// How long the answer to a request may take: little for one that only reads.
pub open spec fn answer_time(op: Seq<char>) -> u64 {
    if op == "status"@ || op == "context"@ || op == "why"@ {
        IO_TIMEOUT_MS
    } else {
        MUTATION_RESPONSE_TIMEOUT_MS
    }
}

pub fn response_timeout(op: &str) -> (r: u64)
    ensures
        r == answer_time(op@),
{
    if same(op, "status") || same(op, "context") || same(op, "why") {
        IO_TIMEOUT_MS
    } else {
        MUTATION_RESPONSE_TIMEOUT_MS
    }
}

/// A request with what every request has.
pub open spec fn request_value(
    client: ClientView,
    op: Seq<char>,
    run_id: Seq<char>,
    arguments: JsonView,
) -> JsonView {
    let fields = match arguments {
        JsonView::Record(fields) => JsonView::Record(fields),
        _ => JsonView::Record(no_fields()),
    };
    with_field(
        with_field(
            with_field(
                with_field(fields, "id"@, JsonView::Text("mcp"@)),
                "token"@,
                JsonView::Text(client.auth_token),
            ),
            "op"@,
            JsonView::Text(op),
        ),
        "run_id"@,
        JsonView::Text(run_id),
    )
}

impl DriverClient {
    /// One that asks the driver of a run, from what was found of it.
    pub fn from_run_root(
        metadata: DriverIpcMetadata,
        run_id: &str,
        expected_socket: &str,
        token: &str,
    ) -> (r: Result<Self, String>)
        ensures
            match r {
                Ok(client) => {
                    &&& client_fault(
                        metadata.deep_view(),
                        run_id@,
                        expected_socket@,
                        token@,
                    ) is None
                    &&& client.deep_view() == (ClientView {
                        metadata: metadata.deep_view(),
                        socket_path: expected_socket@,
                        auth_token: trimmed(token@),
                    })
                },
                Err(message) => client_fault(
                    metadata.deep_view(),
                    run_id@,
                    expected_socket@,
                    token@,
                ) == Some(message@),
            },
    {
        if !same(metadata.run_id.as_str(), run_id) {
            return Err("driver IPC metadata run identity mismatch".to_string());
        }
        let socket_name = match path_file_name(expected_socket) {
            Some(name) => name,
            None => {
                let nothing = String::new();
                assert(nothing@ =~= Seq::<char>::empty());
                nothing
            },
        };
        match validate_relative_identity(
            metadata.socket_path.as_str(),
            socket_name.as_str(),
            "driver IPC socket path",
        ) {
            Err(message) => return Err(message),
            Ok(_) => {},
        }
        match validate_relative_identity(
            metadata.auth_token_path.as_str(),
            TOKEN_FILE,
            "driver IPC token path",
        ) {
            Err(message) => return Err(message),
            Ok(_) => {},
        }
        let auth_token = trim(token);
        if auth_token.is_empty() {
            return Err("driver IPC token file is empty".to_string());
        }
        Ok(
            DriverClient {
                metadata,
                socket_path: expected_socket.to_string(),
                auth_token: auth_token.to_string(),
            },
        )
    }

    pub fn socket_path(&self) -> (r: &str)
        ensures
            r@ == self.deep_view().socket_path,
    {
        self.socket_path.as_str()
    }

    /// A request that is ready to be sent.
    pub fn prepare_request(&self, op: &str, run_id: &str, arguments: &Json) -> (r: Result<
        PreparedDriverRequest,
        &'static str,
    >)
        ensures
            ({
                let text = printed(request_value(self.deep_view(), op@, run_id@, arguments@));
                match r {
                    Ok(request) => {
                        &&& run_id@ == self.deep_view().metadata.run_id
                        &&& encode_utf8(text).len() <= MAX_FRAME_BYTES
                        &&& request.bytes@ == record(text)
                        &&& frame_of(request.bytes@) == FrameView::Complete(encode_utf8(text))
                        &&& request.response_timeout_ms == answer_time(op@)
                    },
                    Err(message) => if run_id@ != self.deep_view().metadata.run_id {
                        message@ == "driver client request run identity mismatch"@
                    } else {
                        encode_utf8(text).len() > MAX_FRAME_BYTES && message@
                            == "driver IPC request exceeds the maximum frame size"@
                    },
                }
            }),
    {
        if !same(run_id, self.metadata.run_id.as_str()) {
            return Err("driver client request run identity mismatch");
        }
        let fields = if arguments.is_record() {
            arguments.clone()
        } else {
            Fields::new().done()
        };
        let request = fields.with("id", Json::text("mcp")).with(
            "token",
            Json::text(self.auth_token.as_str()),
        ).with("op", Json::text(op)).with("run_id", Json::text(run_id));
        let text = compact(&order_fields(&request));
        if text.as_str().as_bytes().len() > MAX_FRAME_BYTES {
            return Err("driver IPC request exceeds the maximum frame size");
        }
        proof {
            super::ipc::lemma_lines_are_read_back(text@);
        }
        Ok(
            PreparedDriverRequest {
                bytes: record_bytes(text.as_str()),
                response_timeout_ms: response_timeout(op),
            },
        )
    }
}

/// Why an answer did not come.
#[derive(Debug, Clone, Copy, PartialEq, Eq, Structural)]
pub enum ResponseFault {
    UnexpectedEof,
    ConnectionReset,
    ConnectionAborted,
    BrokenPipe,
    TimedOut,
    Other,
}

/// Whether the request may have been met though no answer came.
pub open spec fn leaves_open(fault: ResponseFault) -> bool {
    fault != ResponseFault::Other
}

pub fn ambiguous_response_error(fault: ResponseFault) -> (r: bool)
    ensures
        r == leaves_open(fault),
{
    match fault {
        ResponseFault::Other => false,
        _ => true,
    }
}

/// Whether a request of an agent to stop is sent again: once, and only if the first may have
/// been met. It names its hook, so that the second is answered as the first was.
pub fn retries_participant_stop(attempts: u32, fault: ResponseFault) -> (r: bool)
    ensures
        r == (attempts == 1 && leaves_open(fault)),
{
    attempts == 1 && ambiguous_response_error(fault)
}

/// Whether a driver can be reached.
#[derive(Debug, Clone, Copy, PartialEq, Eq, Structural)]
pub enum DriverEndpointState {
    Accepting,
    Dead,
}

/// Whether a driver can be reached; it may not be clear.
pub open spec fn endpoint_of(present: bool, contact: Contact) -> Option<DriverEndpointState> {
    if !present {
        Some(DriverEndpointState::Dead)
    } else {
        match contact {
            Contact::Answered => Some(DriverEndpointState::Accepting),
            Contact::Refused => Some(DriverEndpointState::Dead),
            Contact::NotFound => Some(DriverEndpointState::Dead),
            Contact::Unclear => None,
        }
    }
}

pub fn probe_driver_endpoint(present: bool, contact: Contact) -> (r: Option<DriverEndpointState>)
    ensures
        r == endpoint_of(present, contact),
{
    if !present {
        return Some(DriverEndpointState::Dead);
    }
    match contact {
        Contact::Answered => Some(DriverEndpointState::Accepting),
        Contact::Refused => Some(DriverEndpointState::Dead),
        Contact::NotFound => Some(DriverEndpointState::Dead),
        Contact::Unclear => None,
    }
}

/// The octal digits of a number below 512.
pub open spec fn octal(n: u32) -> Seq<char> {
    if n < 8 {
        seq![crate::number::digit(n as nat)]
    } else if n < 64 {
        seq![crate::number::digit((n / 8) as nat), crate::number::digit((n % 8) as nat)]
    } else {
        seq![
            crate::number::digit((n / 64) as nat),
            crate::number::digit((n / 8 % 8) as nat),
            crate::number::digit((n % 8) as nat),
        ]
    }
}

fn octal_text(n: u32) -> (r: String)
    requires
        n < 512,
    ensures
        r@ == octal(n),
{
    let mut out = String::new();
    if n >= 64 {
        out.push(crate::number::digit_char((n / 64) as u8));
    }
    if n >= 8 {
        out.push(crate::number::digit_char((n / 8 % 8) as u8));
    }
    out.push(crate::number::digit_char((n % 8) as u8));
    assert(out@ =~= octal(n));
    out
}

/// What is wrong with the owner and the permissions of a file.
pub open spec fn privacy_fault(
    owned: bool,
    actual_mode: u32,
    expected_mode: u32,
    label: Seq<char>,
) -> Option<Seq<char>> {
    if !owned {
        Some(label + " owner is not the current user"@)
    } else if actual_mode % 512 != expected_mode {
        Some(
            label + " permissions must be "@ + octal(expected_mode) + ", found "@ + octal(
                actual_mode % 512,
            ),
        )
    } else {
        None
    }
}

/// What is wrong with the owner and the permissions of a file; of a mode only the permissions
/// count.
pub fn validate_owner_and_mode(owned: bool, mode: u32, expected_mode: u32, label: &str) -> (r:
    Result<(), String>)
    requires
        expected_mode < 512,
    ensures
        match r {
            Ok(_) => privacy_fault(owned, mode, expected_mode, label@) is None,
            Err(message) => privacy_fault(owned, mode, expected_mode, label@) == Some(message@),
        },
{
    if !owned {
        return Err(cat2(label, " owner is not the current user"));
    }
    let actual = mode % 512;
    if actual != expected_mode {
        return Err(
            cat5(
                label,
                " permissions must be ",
                octal_text(expected_mode).as_str(),
                ", found ",
                octal_text(actual).as_str(),
            ),
        );
    }
    Ok(())
}

/// Whether the socket that a dead driver left is to be removed, or why nothing is: what is found
/// of it is whether it is a socket and whether it is the user's own.
pub open spec fn stale_endpoint(found: Option<(bool, bool)>, contact: Contact) -> Result<
    bool,
    Seq<char>,
> {
    match found {
        None => Ok(false),
        Some((is_socket, owned)) => if !is_socket {
            Err("stale driver IPC endpoint is not a socket and was not removed"@)
        } else if !owned {
            Err("stale driver socket owner is not the current user"@)
        } else {
            match contact {
                Contact::Answered => Err("driver IPC socket still accepts connections"@),
                Contact::Unclear => Err("driver IPC socket liveness is indeterminate"@),
                Contact::Refused => Ok(true),
                Contact::NotFound => Ok(true),
            }
        },
    }
}

pub fn cleanup_stale_driver_ipc(found: Option<(bool, bool)>, contact: Contact) -> (r: Result<
    bool,
    &'static str,
>)
    ensures
        match r {
            Ok(remove) => stale_endpoint(found, contact) == Ok::<bool, Seq<char>>(remove),
            Err(message) => stale_endpoint(found, contact) == Err::<bool, Seq<char>>(message@),
        },
{
    match found {
        None => Ok(false),
        Some((is_socket, owned)) => {
            if !is_socket {
                return Err("stale driver IPC endpoint is not a socket and was not removed");
            }
            if !owned {
                return Err("stale driver socket owner is not the current user");
            }
            match contact {
                Contact::Answered => Err("driver IPC socket still accepts connections"),
                Contact::Unclear => Err("driver IPC socket liveness is indeterminate"),
                Contact::Refused => Ok(true),
                Contact::NotFound => Ok(true),
            }
        },
    }
}

/// The socket of a driver that may still answer is not removed.
pub proof fn lemma_answering_drivers_keep_their_socket(
    found: Option<(bool, bool)>,
    contact: Contact,
)
    requires
        contact == Contact::Answered || contact == Contact::Unclear,
    ensures
        stale_endpoint(found, contact) != Ok::<bool, Seq<char>>(true),
{
}

} // verus!
