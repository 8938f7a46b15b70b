//! What the daemon says to those who connect, and what a client makes of it.

use vstd::prelude::*;
use crate::adapter::{AdapterKind, AdapterManager};
use crate::ids::Uuid;
use crate::preview::Rejection;
use crate::protocol::{
    AdapterResponseBody, AdapterResponseEnvelope, ClientHello, ClientHelloAck, DoctorReport,
    ErrorBody, FrameError, IntegrationReport, ProtocolVersion, RequestBody, RequestEnvelope,
    ResponseBody, ResponseEnvelope, ResponsePayload, StatusReport, PROTOCOL_MAJOR,
};
use crate::resource::{ObservationScope, ObservationSource, ObservationStatus};
use crate::ritual::RITUAL_SCHEMA_VERSION;
use crate::storage::operations::Counts;
use crate::storage::StorageError;
use crate::text;

verus! {

pub const SERVER_NAME: &'static str = "fubund";

pub const ACTION_REGISTRY_VERSION: &'static str = "phase2-fixed-v1";

#[derive(Debug, PartialEq, Eq)]
pub enum CoreError {
    Io(String),
    Storage(StorageError),
    Frame(FrameError),
    SocketPathOccupied(String),
    Task(String),
}

impl CoreError {
    pub open spec fn message_text(self) -> Seq<char> {
        match self {
            CoreError::Io(detail) => "filesystem or socket error: "@ + detail@,
            CoreError::Storage(error) => "storage error: "@ + error.message_text(),
            CoreError::Frame(error) => "IPC frame error: "@ + error.message_text(),
            CoreError::SocketPathOccupied(path) =>
                "socket path exists and is not a Unix socket: "@ + path@,
            CoreError::Task(detail) => "daemon task failed: "@ + detail@,
        }
    }

    pub fn message(&self) -> (message: String)
        ensures
            message@ == self.message_text(),
    {
        match self {
            CoreError::Io(detail) => text::with_detail("filesystem or socket error: ", detail.as_str()),
            CoreError::Storage(error) => {
                let detail = error.message();
                text::with_detail("storage error: ", detail.as_str())
            },
            CoreError::Frame(error) => {
                let detail = error.message();
                text::with_detail("IPC frame error: ", detail.as_str())
            },
            CoreError::SocketPathOccupied(path) => text::with_detail(
                "socket path exists and is not a Unix socket: ",
                path.as_str(),
            ),
            CoreError::Task(detail) => text::with_detail("daemon task failed: ", detail.as_str()),
        }
    }
}

#[derive(Clone, Debug, PartialEq, Eq)]
pub enum ClientError {
    Io(String),
    Frame(FrameError),
    ConnectionClosed,
    RequestIdMismatch,
    Rejected { code: String, message: String },
    UnexpectedPayload,
}

impl ClientError {
    pub open spec fn message_text(self) -> Seq<char> {
        match self {
            ClientError::Io(detail) => "socket error: "@ + detail@,
            ClientError::Frame(error) => "IPC frame error: "@ + error.message_text(),
            ClientError::ConnectionClosed => "daemon closed the connection"@,
            ClientError::RequestIdMismatch => "response request ID mismatch"@,
            ClientError::Rejected { code, message } => "daemon rejected request ("@ + code@ + "): "@
                + message@,
            ClientError::UnexpectedPayload => "unexpected response payload"@,
        }
    }

    pub fn message(&self) -> (r: String)
        ensures
            r@ == self.message_text(),
    {
        match self {
            ClientError::Io(detail) => text::with_detail("socket error: ", detail.as_str()),
            ClientError::Frame(error) => {
                let detail = error.message();
                text::with_detail("IPC frame error: ", detail.as_str())
            },
            ClientError::ConnectionClosed => "daemon closed the connection".to_owned(),
            ClientError::RequestIdMismatch => "response request ID mismatch".to_owned(),
            ClientError::Rejected { code, message } => {
                let mut r = text::with_detail("daemon rejected request (", code.as_str());
                r.append("): ");
                r.append(message.as_str());
                r
            },
            ClientError::UnexpectedPayload => "unexpected response payload".to_owned(),
        }
    }
}

/// What stands where the socket should be made.
#[derive(Clone, Copy, Debug, PartialEq, Eq, Structural)]
pub enum SocketSpot {
    Free,
    Socket,
    Occupied,
}

/// Whether a socket of an earlier daemon has to go before a new one is made. Anything else
/// that stands there is left alone.
pub fn stale_socket(spot: SocketSpot, path: &str) -> (r: Result<bool, CoreError>)
    ensures
        match spot {
            SocketSpot::Free => r == Ok::<bool, CoreError>(false),
            SocketSpot::Socket => r == Ok::<bool, CoreError>(true),
            SocketSpot::Occupied => r is Err && r->Err_0 is SocketPathOccupied
                && r->Err_0->SocketPathOccupied_0@ == path@,
        },
{
    match spot {
        SocketSpot::Free => Ok(false),
        SocketSpot::Socket => Ok(true),
        SocketSpot::Occupied => Err(CoreError::SocketPathOccupied(path.to_owned())),
    }
}

/// What becomes of a connection after its first request.
#[derive(Clone, Copy, Debug, PartialEq, Eq)]
pub enum Handshake {
    Client,
    Adapter,
    Reject(Rejection),
}

pub open spec fn handshake_of(first: RequestEnvelope) -> Handshake {
    if first.protocol_version.major != PROTOCOL_MAJOR {
        Handshake::Reject(
            Rejection {
                code: "protocol_major_mismatch",
                message: "client and daemon protocol major versions differ",
            },
        )
    } else {
        match first.body {
            RequestBody::AdapterHello(_) => Handshake::Adapter,
            RequestBody::ClientHello(hello) => if hello.protocol_version.major != PROTOCOL_MAJOR {
                Handshake::Reject(
                    Rejection {
                        code: "protocol_major_mismatch",
                        message: "client hello and daemon protocol major versions differ",
                    },
                )
            } else {
                Handshake::Client
            },
            _ => Handshake::Reject(
                Rejection {
                    code: "handshake_required",
                    message: "client.hello or adapter.hello must be the first request",
                },
            ),
        }
    }
}

/// Judges the first request of a connection.
pub fn handshake(first: &RequestEnvelope) -> (r: Handshake)
    ensures
        r == handshake_of(*first),
{
    if !first.protocol_version.is_compatible() {
        return Handshake::Reject(
            Rejection {
                code: "protocol_major_mismatch",
                message: "client and daemon protocol major versions differ",
            },
        );
    }
    match &first.body {
        RequestBody::AdapterHello(_) => Handshake::Adapter,
        RequestBody::ClientHello(hello) => if !hello.protocol_version.is_compatible() {
            Handshake::Reject(
                Rejection {
                    code: "protocol_major_mismatch",
                    message: "client hello and daemon protocol major versions differ",
                },
            )
        } else {
            Handshake::Client
        },
        _ => Handshake::Reject(
            Rejection {
                code: "handshake_required",
                message: "client.hello or adapter.hello must be the first request",
            },
        ),
    }
}

/// What the daemon says of itself when a connection begins.
pub fn hello_ack(server_version: &str) -> (ack: ClientHelloAck)
    ensures
        ack.server_name@ == SERVER_NAME@,
        ack.server_version@ == server_version@,
        ack.protocol_version == crate::protocol::current_version(),
{
    ClientHelloAck {
        server_name: SERVER_NAME.to_owned(),
        server_version: server_version.to_owned(),
        protocol_version: crate::protocol::current_protocol_version(),
    }
}

/// Whether a request is a hello.
pub open spec fn is_hello(body: RequestBody) -> bool {
    body is ClientHello || body is AdapterHello
}

pub open spec fn request_fault(request: RequestEnvelope) -> Option<Rejection> {
    if request.protocol_version.major != PROTOCOL_MAJOR {
        Some(
            Rejection {
                code: "protocol_major_mismatch",
                message: "client and daemon protocol major versions differ",
            },
        )
    } else if is_hello(request.body) {
        Some(
            Rejection {
                code: "already_initialized",
                message: "handshake is only valid as the first request",
            },
        )
    } else {
        None
    }
}

/// Judges a request after the first.
pub fn gate_request(request: &RequestEnvelope) -> (r: Option<Rejection>)
    ensures
        r == request_fault(*request),
{
    if !request.protocol_version.is_compatible() {
        return Some(
            Rejection {
                code: "protocol_major_mismatch",
                message: "client and daemon protocol major versions differ",
            },
        );
    }
    match &request.body {
        RequestBody::ClientHello(_) | RequestBody::AdapterHello(_) => Some(
            Rejection {
                code: "already_initialized",
                message: "handshake is only valid as the first request",
            },
        ),
        _ => None,
    }
}

/// The first request of a connection that is served at all is a hello, and only the first
/// is: whatever passes the one gate is held back by the other.
pub proof fn hello_comes_first_and_once(request: RequestEnvelope)
    ensures
        !(handshake_of(request) is Reject) ==> request_fault(request) is Some,
        request_fault(request) is None ==> handshake_of(request) is Reject,
        request.protocol_version.major != PROTOCOL_MAJOR ==> handshake_of(request) is Reject
            && request_fault(request) is Some,
{
}

/// The answer to a request that is refused.
pub fn refuse(request_id: Uuid, rejection: Rejection) -> (response: ResponseEnvelope)
    ensures
        response.protocol_version == crate::protocol::current_version(),
        response.request_id == request_id,
        response.body is Error && response.body->Error_0@ == (
            rejection.code@,
            rejection.message@,
        ),
{
    ResponseEnvelope::error(request_id, rejection.code, rejection.message)
}

/// The answer to a request that came out so.
pub fn respond(request_id: Uuid, outcome: Result<ResponsePayload, ErrorBody>) -> (response:
    ResponseEnvelope)
    ensures
        response.protocol_version == crate::protocol::current_version(),
        response.request_id == request_id,
        match outcome {
            Ok(payload) => response.body == ResponseBody::Success(payload),
            Err(error) => response.body == ResponseBody::Error(error),
        },
{
    ResponseEnvelope {
        protocol_version: crate::protocol::current_protocol_version(),
        request_id,
        body: match outcome {
            Ok(payload) => ResponseBody::Success(payload),
            Err(error) => ResponseBody::Error(error),
        },
    }
}

/// What a message from a connected adapter is.
#[derive(Clone, Copy, Debug, PartialEq, Eq, Structural)]
pub enum AdapterMessage {
    /// Of another protocol version: it is ignored.
    Incompatible,
    /// A report of an event.
    Event,
    /// An answer to a request.
    Answer,
}

pub open spec fn message_kind(response: AdapterResponseEnvelope) -> AdapterMessage {
    if response.protocol_version.major != PROTOCOL_MAJOR {
        AdapterMessage::Incompatible
    } else if response.body is EventEmit {
        AdapterMessage::Event
    } else {
        AdapterMessage::Answer
    }
}

/// Judges a message from a connected adapter.
pub fn adapter_message(response: &AdapterResponseEnvelope) -> (r: AdapterMessage)
    ensures
        r == (if response.protocol_version.major != PROTOCOL_MAJOR {
            AdapterMessage::Incompatible
        } else if response.body is EventEmit {
            AdapterMessage::Event
        } else {
            AdapterMessage::Answer
        }),
        r == message_kind(*response),
{
    if !response.protocol_version.is_compatible() {
        return AdapterMessage::Incompatible;
    }
    match &response.body {
        AdapterResponseBody::EventEmit(_) => AdapterMessage::Event,
        _ => AdapterMessage::Answer,
    }
}

/// The report on the daemon.
pub fn status_report(schema_version: u32) -> (report: StatusReport)
    ensures
        report.daemon@ == "ok"@,
        report.protocol_version == crate::protocol::current_version(),
        report.database_status@ == "ok"@,
        report.schema_version == schema_version,
{
    StatusReport {
        daemon: "ok".to_owned(),
        protocol_version: crate::protocol::current_protocol_version(),
        database_status: "ok".to_owned(),
        schema_version,
    }
}

/// How many observations of a source are active.
pub open spec fn active_scopes(scopes: Seq<ObservationScope>, source: ObservationSource) -> nat
    decreases scopes.len(),
{
    if scopes.len() == 0 {
        0
    } else {
        active_scopes(scopes.drop_last(), source) + if scopes.last().source == source
            && scopes.last().status == ObservationStatus::Active {
            1nat
        } else {
            0nat
        }
    }
}

pub fn count_active_scopes(scopes: &Vec<ObservationScope>, source: ObservationSource) -> (count:
    usize)
    ensures
        count == active_scopes(scopes@, source),
{
    let mut count: usize = 0;
    for i in 0..scopes.len()
        invariant
            count == active_scopes(scopes@.take(i as int), source),
            count <= i,
    {
        proof {
            assert(scopes@.take(i + 1).drop_last() =~= scopes@.take(i as int));
        }
        if scopes[i].source == source && scopes[i].status == ObservationStatus::Active {
            count = count + 1;
        }
    }
    proof {
        assert(scopes@.take(scopes@.len() as int) =~= scopes@);
    }
    count
}

/// The report on everything that the daemon depends on.
pub fn doctor_report(
    database_path: String,
    schema_version: u32,
    counts: Counts,
    adapters: &AdapterManager,
    scopes: &Vec<ObservationScope>,
) -> (report: DoctorReport)
    ensures
        report.database_path == database_path,
        report.database_status@ == "ok"@,
        report.schema_version == schema_version,
        report.gtk_launch_available == crate::adapter::any_has_tool(
            adapters.connections@,
            "gtk-launch"@,
        ),
        report.xdg_open_available == crate::adapter::any_has_tool(
            adapters.connections@,
            "xdg-open"@,
        ),
        report.notify_send_available == crate::adapter::any_has_tool(
            adapters.connections@,
            "notify-send"@,
        ),
        report.connected_adapters == adapters.connections@.len(),
        report.action_registry_version@ == ACTION_REGISTRY_VERSION@,
        report.ritual_schema_version@ == RITUAL_SCHEMA_VERSION@,
        report.running_executions == counts.running,
        report.draft_rituals == counts.draft,
        report.active_rituals == counts.active,
        report.browser_adapters == crate::adapter::of_kind(
            adapters.connections@,
            AdapterKind::Browser,
        ),
        report.vscode_adapters == crate::adapter::of_kind(
            adapters.connections@,
            AdapterKind::Vscode,
        ),
        report.active_browser_scopes == active_scopes(scopes@, ObservationSource::BrowserChromium),
        report.active_vscode_scopes == active_scopes(scopes@, ObservationSource::VscodeWorkspace),
{
    DoctorReport {
        database_path,
        database_status: "ok".to_owned(),
        schema_version,
        gtk_launch_available: adapters.tool_available("gtk-launch"),
        xdg_open_available: adapters.tool_available("xdg-open"),
        notify_send_available: adapters.tool_available("notify-send"),
        connected_adapters: adapters.connected_count(),
        action_registry_version: ACTION_REGISTRY_VERSION.to_owned(),
        ritual_schema_version: RITUAL_SCHEMA_VERSION.to_owned(),
        running_executions: counts.running,
        draft_rituals: counts.draft,
        active_rituals: counts.active,
        browser_adapters: adapters.count_of_kind(AdapterKind::Browser),
        vscode_adapters: adapters.count_of_kind(AdapterKind::Vscode),
        active_browser_scopes: count_active_scopes(scopes, ObservationSource::BrowserChromium),
        active_vscode_scopes: count_active_scopes(scopes, ObservationSource::VscodeWorkspace),
    }
}

/// The report on the integrations.
pub fn integration_report(
    native_host_manifest: String,
    database_version: u32,
    adapters: &AdapterManager,
    scopes: &Vec<ObservationScope>,
) -> (report: IntegrationReport)
    ensures
        report.core_connected,
        report.linux_adapters == crate::adapter::of_kind(
            adapters.connections@,
            AdapterKind::Linux,
        ),
        report.browser_adapters == crate::adapter::of_kind(
            adapters.connections@,
            AdapterKind::Browser,
        ),
        report.vscode_adapters == crate::adapter::of_kind(
            adapters.connections@,
            AdapterKind::Vscode,
        ),
        report.native_host_manifest == native_host_manifest,
        report.permitted_browser_resources == crate::adapter::permitted(
            adapters.connections@,
        ).len(),
        report.active_browser_scopes == active_scopes(scopes@, ObservationSource::BrowserChromium),
        report.active_vscode_scopes == active_scopes(scopes@, ObservationSource::VscodeWorkspace),
        report.protocol_version == crate::protocol::current_version(),
        report.database_version == database_version,
{
    IntegrationReport {
        core_connected: true,
        linux_adapters: adapters.count_of_kind(AdapterKind::Linux),
        browser_adapters: adapters.count_of_kind(AdapterKind::Browser),
        vscode_adapters: adapters.count_of_kind(AdapterKind::Vscode),
        native_host_manifest,
        permitted_browser_resources: adapters.permitted_resources().len(),
        active_browser_scopes: count_active_scopes(scopes, ObservationSource::BrowserChromium),
        active_vscode_scopes: count_active_scopes(scopes, ObservationSource::VscodeWorkspace),
        protocol_version: crate::protocol::current_protocol_version(),
        database_version,
    }
}

/// The request with which a client opens a connection.
pub fn client_hello(client_name: &str, client_version: &str) -> (body: RequestBody)
    ensures
        body is ClientHello,
        body->ClientHello_0.client_name@ == client_name@,
        body->ClientHello_0.client_version@ == client_version@,
        body->ClientHello_0.protocol_version == crate::protocol::current_version(),
{
    RequestBody::ClientHello(
        ClientHello {
            client_name: client_name.to_owned(),
            client_version: client_version.to_owned(),
            protocol_version: crate::protocol::current_protocol_version(),
        },
    )
}

/// Puts a request into its envelope.
pub fn envelope(request_id: Uuid, body: RequestBody) -> (request: RequestEnvelope)
    ensures
        request == (RequestEnvelope {
            protocol_version: crate::protocol::current_version(),
            request_id,
            body,
        }),
{
    RequestEnvelope {
        protocol_version: crate::protocol::current_protocol_version(),
        request_id,
        body,
    }
}

/// What a client makes of what came back for its request, if anything did.
pub open spec fn client_outcome(request_id: Uuid, response: Option<ResponseEnvelope>) -> Result<
    ResponsePayload,
    ClientError,
> {
    match response {
        None => Err(ClientError::ConnectionClosed),
        Some(response) => if response.request_id != request_id {
            Err(ClientError::RequestIdMismatch)
        } else {
            match response.body {
                ResponseBody::Success(payload) => Ok(payload),
                ResponseBody::Error(error) => Err(
                    ClientError::Rejected { code: error.code, message: error.message },
                ),
            }
        },
    }
}

/// Takes the payload out of a response.
pub fn read_response(request_id: Uuid, response: Option<ResponseEnvelope>) -> (r: Result<
    ResponsePayload,
    ClientError,
>)
    ensures
        r == client_outcome(request_id, response),
{
    let response = match response {
        Some(response) => response,
        None => return Err(ClientError::ConnectionClosed),
    };
    if response.request_id != request_id {
        return Err(ClientError::RequestIdMismatch);
    }
    match response.body {
        ResponseBody::Success(payload) => Ok(payload),
        ResponseBody::Error(error) => Err(
            ClientError::Rejected { code: error.code, message: error.message },
        ),
    }
}

/// Checks that the daemon greeted a client back.
pub fn expect_client_ack(payload: &ResponsePayload) -> (r: Result<(), ClientError>)
    ensures
        r == (if payload is ClientHelloAck {
            Ok(())
        } else {
            Err(ClientError::UnexpectedPayload)
        }),
{
    match payload {
        ResponsePayload::ClientHelloAck(_) => Ok(()),
        _ => Err(ClientError::UnexpectedPayload),
    }
}

/// Takes the report on the daemon out of a payload.
pub fn expect_status(payload: ResponsePayload) -> (r: Result<StatusReport, ClientError>)
    ensures
        r == (match payload {
            ResponsePayload::Status(report) => Ok(report),
            _ => Err(ClientError::UnexpectedPayload),
        }),
{
    match payload {
        ResponsePayload::Status(report) => Ok(report),
        _ => Err(ClientError::UnexpectedPayload),
    }
}

/// Whether the daemon greeted an adapter back: the answer is to the hello and says so.
pub fn adapter_hello_accepted(hello_id: Uuid, response: &ResponseEnvelope) -> (r: bool)
    ensures
        r == (response.request_id == hello_id && (match response.body {
            ResponseBody::Success(payload) => payload is AdapterHelloAck,
            ResponseBody::Error(_) => false,
        })),
{
    if response.request_id != hello_id {
        return false;
    }
    match &response.body {
        ResponseBody::Success(ResponsePayload::AdapterHelloAck(_)) => true,
        _ => false,
    }
}

/// The version text that a report shows.
pub fn version_text(version: ProtocolVersion) -> (r: String)
    ensures
        r@ == text::decimal_of(version.major as nat) + "."@ + text::decimal_of(
            version.minor as nat,
        ),
{
    let mut r = text::decimal(version.major as u64);
    r.append(".");
    let minor = text::decimal(version.minor as u64);
    r.append(minor.as_str());
    r
}

} // verus!
