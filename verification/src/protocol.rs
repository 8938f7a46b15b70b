//! Versioned envelopes, their payloads and bounded framing.

use vstd::prelude::*;
use crate::clock::Timestamp;
use crate::event::{Event, EventType};
use crate::execution::{Execution, ExecutionStep};
use crate::ids::Uuid;
use crate::mining::evidence::DiscoveredSuggestion;
use crate::mining::{DiscoveredSession, DiscoveryRun, SuggestionStatus};
use crate::resource::{
    ObservationScope, ObservationSource, Resource, ResourceKind, Sensitivity,
};
use crate::ritual::{ActionSpec, Ritual, RitualDefinition, RitualVersion};

verus! {

pub const MAX_MESSAGE_SIZE: usize = 262_144;

pub const PROTOCOL_MAJOR: u16 = 1;

pub const PROTOCOL_MINOR: u16 = 0;

#[derive(Clone, Copy, Debug, PartialEq, Eq, Structural)]
pub struct ProtocolVersion {
    pub major: u16,
    pub minor: u16,
}

#[derive(Clone, Debug, PartialEq, Eq)]
pub struct ClientHello {
    pub client_name: String,
    pub client_version: String,
    pub protocol_version: ProtocolVersion,
}

#[derive(Clone, Debug, PartialEq, Eq)]
pub struct ClientHelloAck {
    pub server_name: String,
    pub server_version: String,
    pub protocol_version: ProtocolVersion,
}

#[derive(Clone, Debug, PartialEq, Eq)]
pub struct EventIngestRequest {
    pub event: Event,
}

#[derive(Clone, Debug, PartialEq, Eq)]
pub struct AdapterEventEmitRequest {
    pub sequence_no: u64,
    pub occurred_at: Timestamp,
    pub event_type: EventType,
    pub resource_id: Uuid,
}

#[derive(Clone, Debug, PartialEq, Eq)]
pub struct AdapterStatusSnapshot {
    pub tools: Vec<AdapterToolStatus>,
    pub desktop_entry_ids: Vec<String>,
    pub permitted_resource_ids: Vec<Uuid>,
}

#[derive(Clone, Debug, PartialEq, Eq)]
pub struct AdapterToolStatus {
    pub name: String,
    pub available: bool,
}

#[derive(Clone, Debug, PartialEq, Eq)]
pub struct AdapterHello {
    pub adapter_id: String,
    pub adapter_version: String,
    pub instance_id: Uuid,
    pub action_capabilities: Vec<String>,
    pub event_capabilities: Vec<String>,
    pub status: AdapterStatusSnapshot,
}

#[derive(Clone, Debug, PartialEq, Eq)]
pub struct EventsListRequest {
    pub since: Option<Timestamp>,
    pub limit: u32,
}

#[derive(Clone, Copy, Debug, PartialEq, Eq, Structural)]
pub struct EmptyRequest {}

#[derive(Clone, Debug, PartialEq, Eq)]
pub struct ResourceCreateRequest {
    pub label: String,
    pub path: String,
    pub sensitivity: Sensitivity,
}

#[derive(Clone, Debug, PartialEq, Eq)]
pub struct BrowserObservationEnableRequest {
    pub label: String,
    pub url: String,
}

#[derive(Clone, Debug, PartialEq, Eq)]
pub struct VscodeObservationEnableRequest {
    pub label: String,
    pub absolute_path: String,
}

#[derive(Clone, Copy, Debug, PartialEq, Eq, Structural)]
pub struct ObservationPauseRequest {
    pub scope_id: Uuid,
}

#[derive(Clone, Copy, Debug, PartialEq, Eq, Structural)]
pub struct ObservationListRequest {
    pub source: Option<ObservationSource>,
}

#[derive(Clone, Copy, Debug, PartialEq, Eq, Structural)]
pub struct SessionsListRequest {
    pub workspace_resource_id: Option<Uuid>,
}

#[derive(Clone, Copy, Debug, PartialEq, Eq, Structural)]
pub struct SuggestionsListRequest {
    pub status: Option<SuggestionStatus>,
    pub workspace_resource_id: Option<Uuid>,
}

#[derive(Clone, Debug, PartialEq, Eq)]
pub struct SuggestionSnoozeRequest {
    pub suggestion_id: Uuid,
    pub for_duration: String,
}

#[derive(Clone, Debug, PartialEq, Eq)]
pub struct SuggestionAcceptRequest {
    pub suggestion_id: Uuid,
    pub name: Option<String>,
}

#[derive(Clone, Debug, PartialEq, Eq)]
pub struct DiscoveryRunReport {
    pub run: DiscoveryRun,
}

#[derive(Clone, Debug, PartialEq, Eq)]
pub struct SessionsList {
    pub sessions: Vec<DiscoveredSession>,
}

#[derive(Clone, Debug, PartialEq, Eq)]
pub struct SessionShow {
    pub session: DiscoveredSession,
}

#[derive(Clone, Debug, PartialEq, Eq)]
pub struct SuggestionsList {
    pub suggestions: Vec<DiscoveredSuggestion>,
}

#[derive(Clone, Debug, PartialEq, Eq)]
pub struct SuggestionShow {
    pub suggestion: DiscoveredSuggestion,
    pub status: SuggestionStatus,
    pub snoozed_until: Option<String>,
    pub accepted_ritual_id: Option<Uuid>,
}

#[derive(Clone, Debug, PartialEq, Eq)]
pub struct BrowserObservationEnabled {
    pub resource: Resource,
    pub scope: ObservationScope,
    pub canonical_url_hash: String,
    pub origin_pattern: String,
}

#[derive(Clone, Debug, PartialEq, Eq)]
pub struct VscodeObservationEnabled {
    pub resource: Resource,
    pub scope: ObservationScope,
    pub canonical_path_hash: String,
}

#[derive(Clone, Debug, PartialEq, Eq)]
pub struct ObservationList {
    pub scopes: Vec<ObservationScope>,
}

#[derive(Clone, Copy, Debug, PartialEq, Eq, Structural)]
pub struct EventAck {
    pub event_id: Uuid,
    pub stored: bool,
    pub duplicate: bool,
}

#[derive(Clone, Copy, Debug, PartialEq, Eq, Structural)]
pub struct ResourceIdRequest {
    pub resource_id: Uuid,
}

#[derive(Clone, Copy, Debug, PartialEq, Eq, Structural)]
pub struct RitualIdRequest {
    pub ritual_id: Uuid,
}

#[derive(Clone, Copy, Debug, PartialEq, Eq, Structural)]
pub struct SessionIdRequest {
    pub session_id: Uuid,
}

#[derive(Clone, Copy, Debug, PartialEq, Eq, Structural)]
pub struct SuggestionIdRequest {
    pub suggestion_id: Uuid,
}

#[derive(Clone, Debug, PartialEq, Eq)]
pub struct RitualCreateRequest {
    pub definition: RitualDefinition,
}

#[derive(Clone, Debug, PartialEq, Eq)]
pub struct RitualUpdateRequest {
    pub ritual_id: Uuid,
    pub definition: RitualDefinition,
}

#[derive(Clone, Copy, Debug, PartialEq, Eq, Structural)]
pub struct RitualActivateRequest {
    pub ritual_id: Uuid,
    pub approve: bool,
}

#[derive(Clone, Copy, Debug, PartialEq, Eq, Structural)]
pub struct ExecutionIdRequest {
    pub execution_id: Uuid,
}

#[derive(Clone, Debug, PartialEq, Eq)]
pub struct ActionExecuteRequest {
    pub action: ActionSpec,
    pub resolved_resource: Option<ResolvedResource>,
}

#[derive(Clone, Debug, PartialEq, Eq)]
pub struct ResolvedResource {
    pub resource_id: Uuid,
    pub kind: ResourceKind,
    pub canonical_locator: String,
}

#[derive(Clone, Copy, Debug, PartialEq, Eq, Structural)]
pub struct AdapterStatusRequest {}

#[derive(Clone, Copy, Debug, PartialEq, Eq, Structural)]
pub struct AdapterEventAck {
    pub event_id: Uuid,
    pub stored: bool,
    pub duplicate: bool,
}

#[derive(Clone, Debug, PartialEq, Eq)]
pub enum AdapterRequestBody {
    ActionExecute(ActionExecuteRequest),
    Status(AdapterStatusRequest),
    EventAck(AdapterEventAck),
}

#[derive(Clone, Debug, PartialEq, Eq)]
pub struct AdapterRequestEnvelope {
    pub protocol_version: ProtocolVersion,
    pub request_id: Uuid,
    pub action_execution_id: Uuid,
    pub body: AdapterRequestBody,
}

#[derive(Clone, Copy, Debug, PartialEq, Eq, Structural)]
pub enum AdapterActionStatus {
    Succeeded,
    Skipped,
    Failed,
}

#[derive(Clone, Debug, PartialEq, Eq)]
pub struct ActionResult {
    pub status: AdapterActionStatus,
    pub result_code: String,
    pub redacted_message: String,
}

#[derive(Clone, Debug, PartialEq, Eq)]
pub enum AdapterResponseBody {
    ActionResult(ActionResult),
    Status(AdapterStatusSnapshot),
    EventEmit(AdapterEventEmitRequest),
}

#[derive(Clone, Debug, PartialEq, Eq)]
pub struct AdapterResponseEnvelope {
    pub protocol_version: ProtocolVersion,
    pub request_id: Uuid,
    pub action_execution_id: Uuid,
    pub body: AdapterResponseBody,
}

#[derive(Clone, Debug, PartialEq, Eq)]
pub enum RequestBody {
    ClientHello(ClientHello),
    EventIngest(EventIngestRequest),
    BrowserObservationEnable(BrowserObservationEnableRequest),
    VscodeObservationEnable(VscodeObservationEnableRequest),
    ObservationPause(ObservationPauseRequest),
    ObservationsList(ObservationListRequest),
    EventsList(EventsListRequest),
    SystemStatus(EmptyRequest),
    SystemDoctor(EmptyRequest),
    AdapterHello(AdapterHello),
    ResourceCreate(ResourceCreateRequest),
    ResourceList(EmptyRequest),
    ResourceShow(ResourceIdRequest),
    RitualCreate(RitualCreateRequest),
    RitualUpdate(RitualUpdateRequest),
    RitualList(EmptyRequest),
    RitualShow(RitualIdRequest),
    RitualPreview(RitualIdRequest),
    RitualActivate(RitualActivateRequest),
    RitualPause(RitualIdRequest),
    RitualRun(RitualIdRequest),
    AdapterList(EmptyRequest),
    AdapterStatus(EmptyRequest),
    ExecutionList(EmptyRequest),
    ExecutionShow(ExecutionIdRequest),
    IntegrationsStatus(EmptyRequest),
    DiscoveryRun(EmptyRequest),
    DiscoveryStatus(EmptyRequest),
    SessionsList(SessionsListRequest),
    SessionShow(SessionIdRequest),
    SuggestionsList(SuggestionsListRequest),
    SuggestionShow(SuggestionIdRequest),
    SuggestionSnooze(SuggestionSnoozeRequest),
    SuggestionDismiss(SuggestionIdRequest),
    SuggestionBlock(SuggestionIdRequest),
    SuggestionAccept(SuggestionAcceptRequest),
}

#[derive(Clone, Debug, PartialEq, Eq)]
pub struct RequestEnvelope {
    pub protocol_version: ProtocolVersion,
    pub request_id: Uuid,
    pub body: RequestBody,
}

#[derive(Clone, Copy, Debug, PartialEq, Eq, Structural)]
pub struct EventIngested {
    pub event_id: Uuid,
    pub stored: bool,
    pub duplicate: bool,
}

#[derive(Clone, Debug, PartialEq, Eq)]
pub struct EventList {
    pub events: Vec<Event>,
}

#[derive(Clone, Debug, PartialEq, Eq)]
pub struct StatusReport {
    pub daemon: String,
    pub protocol_version: ProtocolVersion,
    pub database_status: String,
    pub schema_version: u32,
}

#[derive(Clone, Debug, PartialEq, Eq)]
pub struct DoctorReport {
    pub database_path: String,
    pub database_status: String,
    pub schema_version: u32,
    pub gtk_launch_available: bool,
    pub xdg_open_available: bool,
    pub notify_send_available: bool,
    pub connected_adapters: usize,
    pub action_registry_version: String,
    pub ritual_schema_version: String,
    pub running_executions: usize,
    pub draft_rituals: usize,
    pub active_rituals: usize,
    pub browser_adapters: usize,
    pub vscode_adapters: usize,
    pub active_browser_scopes: usize,
    pub active_vscode_scopes: usize,
}

#[derive(Clone, Debug, PartialEq, Eq)]
pub struct IntegrationReport {
    pub core_connected: bool,
    pub linux_adapters: usize,
    pub browser_adapters: usize,
    pub vscode_adapters: usize,
    pub native_host_manifest: String,
    pub permitted_browser_resources: usize,
    pub active_browser_scopes: usize,
    pub active_vscode_scopes: usize,
    pub protocol_version: ProtocolVersion,
    pub database_version: u32,
}

#[derive(Clone, Debug, PartialEq, Eq)]
pub struct ResourceList {
    pub resources: Vec<Resource>,
}

#[derive(Clone, Debug, PartialEq, Eq)]
pub struct RitualRecord {
    pub ritual: Ritual,
    pub version: RitualVersion,
    pub definition: RitualDefinition,
}

#[derive(Clone, Debug, PartialEq, Eq)]
pub struct RitualList {
    pub rituals: Vec<Ritual>,
}

#[derive(Clone, Debug, PartialEq, Eq)]
pub struct PreviewAction {
    pub step_index: u32,
    pub action_type: String,
    pub risk_level: String,
    pub idempotency: String,
    pub revertability: String,
    pub required_capability: String,
    pub adapter_connected: bool,
    pub required_tool_available: Option<bool>,
    pub resource_exists: Option<bool>,
    pub resource_path_matches: Option<bool>,
    pub resource_kind_matches: Option<bool>,
    pub desktop_entry_exists: Option<bool>,
    pub warning: Option<String>,
}

#[derive(Clone, Debug, PartialEq, Eq)]
pub struct RitualPreview {
    pub ritual_id: Uuid,
    pub ritual_version_id: Uuid,
    pub actions: Vec<PreviewAction>,
    pub timeout_seconds: u32,
    pub warnings: Vec<String>,
    pub executable: bool,
}

#[derive(Clone, Debug, PartialEq, Eq)]
pub struct AdapterReport {
    pub adapter_id: String,
    pub version: String,
    pub instance_id: Uuid,
    pub connected: bool,
    pub capabilities: Vec<String>,
    pub event_capabilities: Vec<String>,
    pub permitted_resource_ids: Vec<Uuid>,
    pub connected_at: String,
    pub last_seen_at: String,
}

#[derive(Clone, Debug, PartialEq, Eq)]
pub struct AdapterList {
    pub adapters: Vec<AdapterReport>,
}

#[derive(Clone, Debug, PartialEq, Eq)]
pub struct ExecutionRecord {
    pub execution: Execution,
    pub steps: Vec<ExecutionStep>,
}

#[derive(Clone, Debug, PartialEq, Eq)]
pub struct ExecutionList {
    pub executions: Vec<Execution>,
}

#[derive(Clone, Debug, PartialEq, Eq)]
pub enum ResponsePayload {
    ClientHelloAck(ClientHelloAck),
    EventIngested(EventIngested),
    EventAck(EventAck),
    EventList(EventList),
    Status(StatusReport),
    Doctor(DoctorReport),
    AdapterHelloAck(ClientHelloAck),
    ResourceCreated(Resource),
    ResourceList(ResourceList),
    ResourceShow(Resource),
    RitualCreated(RitualRecord),
    RitualUpdated(RitualRecord),
    RitualList(RitualList),
    RitualShow(RitualRecord),
    RitualPreview(RitualPreview),
    RitualActivated(Ritual),
    RitualPaused(Ritual),
    RitualRun(ExecutionRecord),
    AdapterList(AdapterList),
    AdapterStatus(AdapterList),
    ExecutionList(ExecutionList),
    ExecutionShow(ExecutionRecord),
    BrowserObservationEnabled(BrowserObservationEnabled),
    VscodeObservationEnabled(VscodeObservationEnabled),
    ObservationPaused(ObservationScope),
    ObservationList(ObservationList),
    IntegrationsStatus(IntegrationReport),
    DiscoveryRun(DiscoveryRunReport),
    DiscoveryStatus(DiscoveryRunReport),
    SessionsList(SessionsList),
    SessionShow(SessionShow),
    SuggestionsList(SuggestionsList),
    SuggestionShow(SuggestionShow),
    SuggestionSnoozed(SuggestionShow),
    SuggestionDismissed(SuggestionShow),
    SuggestionBlocked(SuggestionShow),
    SuggestionAccepted(RitualRecord),
}

#[derive(Clone, Debug, PartialEq, Eq)]
pub struct ErrorBody {
    pub code: String,
    pub message: String,
}

#[derive(Clone, Debug, PartialEq, Eq)]
pub enum ResponseBody {
    Success(ResponsePayload),
    Error(ErrorBody),
}

#[derive(Clone, Debug, PartialEq, Eq)]
pub struct ResponseEnvelope {
    pub protocol_version: ProtocolVersion,
    pub request_id: Uuid,
    pub body: ResponseBody,
}

/// The protocol version that this library speaks.
pub open spec fn current_version() -> ProtocolVersion {
    ProtocolVersion { major: PROTOCOL_MAJOR, minor: PROTOCOL_MINOR }
}

pub fn current_protocol_version() -> (version: ProtocolVersion)
    ensures
        version == current_version(),
{
    ProtocolVersion { major: PROTOCOL_MAJOR, minor: PROTOCOL_MINOR }
}

impl ProtocolVersion {
    /// Two sides understand each other while they agree on the major version.
    pub fn is_compatible(&self) -> (r: bool)
        ensures
            r == (self.major == PROTOCOL_MAJOR),
    {
        self.major == PROTOCOL_MAJOR
    }
}

/// How many events a listing asks for where the request does not say.
pub fn default_event_limit() -> (limit: u32)
    ensures
        limit == 100,
{
    100
}

impl View for ErrorBody {
    type V = (Seq<char>, Seq<char>);

    open spec fn view(&self) -> (Seq<char>, Seq<char>) {
        (self.code@, self.message@)
    }
}

impl ErrorBody {
    pub fn new(code: &str, message: &str) -> (body: ErrorBody)
        ensures
            body@ == (code@, message@),
    {
        ErrorBody { code: code.to_owned(), message: message.to_owned() }
    }
}

impl ResponseEnvelope {
    pub fn ok(request_id: Uuid, payload: ResponsePayload) -> (envelope: ResponseEnvelope)
        ensures
            envelope.protocol_version == current_version(),
            envelope.request_id == request_id,
            envelope.body == ResponseBody::Success(payload),
    {
        ResponseEnvelope {
            protocol_version: current_protocol_version(),
            request_id,
            body: ResponseBody::Success(payload),
        }
    }

    pub fn error(request_id: Uuid, code: &str, message: &str) -> (envelope: ResponseEnvelope)
        ensures
            envelope.protocol_version == current_version(),
            envelope.request_id == request_id,
            envelope.body is Error && envelope.body->Error_0@ == (code@, message@),
    {
        ResponseEnvelope {
            protocol_version: current_protocol_version(),
            request_id,
            body: ResponseBody::Error(ErrorBody::new(code, message)),
        }
    }
}

#[derive(Clone, Copy, Debug, PartialEq, Eq, Structural)]
pub enum FrameError {
    /// The stream ended inside a frame.
    Truncated,
    /// A message is longer than a frame may be.
    Oversized { actual: usize, maximum: usize },
    /// A message that may not be empty is.
    Empty,
}

impl FrameError {
    pub open spec fn message_text(self) -> Seq<char> {
        match self {
            FrameError::Truncated => "I/O error: unexpected end of file"@,
            FrameError::Oversized { actual, maximum } => "message length "@
                + crate::text::decimal_of(actual as nat) + " exceeds maximum "@
                + crate::text::decimal_of(maximum as nat),
            FrameError::Empty => "message is empty"@,
        }
    }

    pub fn message(&self) -> (message: String)
        ensures
            message@ == self.message_text(),
    {
        match self {
            FrameError::Truncated => "I/O error: unexpected end of file".to_owned(),
            FrameError::Oversized { actual, maximum } => {
                let mut message: String = "message length ".to_owned();
                let length = crate::text::decimal(*actual as u64);
                message.append(length.as_str());
                message.append(" exceeds maximum ");
                let bound = crate::text::decimal(*maximum as u64);
                message.append(bound.as_str());
                message
            },
            FrameError::Empty => "message is empty".to_owned(),
        }
    }
}

/// The four bytes of a length, the least significant first.
pub open spec fn le_bytes(n: u32) -> Seq<u8> {
    seq![
        (n % 0x100) as u8,
        ((n / 0x100) % 0x100) as u8,
        ((n / 0x1_0000) % 0x100) as u8,
        (n / 0x100_0000) as u8,
    ]
}

/// The length that four bytes say, the least significant first.
pub open spec fn le_value(header: Seq<u8>) -> int {
    header[0] + header[1] * 0x100 + header[2] * 0x1_0000 + header[3] * 0x100_0000
}

/// A frame: the length of the payload, then the payload.
pub open spec fn frame_of(payload: Seq<u8>) -> Seq<u8> {
    le_bytes(payload.len() as u32) + payload
}

/// Puts a payload into a frame, unless it is too long.
pub fn encode_frame(payload: &[u8]) -> (r: Result<Vec<u8>, FrameError>)
    ensures
        match r {
            Ok(frame) => payload@.len() <= MAX_MESSAGE_SIZE && frame@ == frame_of(payload@),
            Err(error) => payload@.len() > MAX_MESSAGE_SIZE && error == (FrameError::Oversized {
                actual: payload@.len() as usize,
                maximum: MAX_MESSAGE_SIZE,
            }),
        },
{
    if payload.len() > MAX_MESSAGE_SIZE {
        return Err(FrameError::Oversized { actual: payload.len(), maximum: MAX_MESSAGE_SIZE });
    }
    let length: u32 = payload.len() as u32;
    let mut frame: Vec<u8> = Vec::new();
    frame.push((length % 0x100) as u8);
    frame.push(((length / 0x100) % 0x100) as u8);
    frame.push(((length / 0x1_0000) % 0x100) as u8);
    frame.push((length / 0x100_0000) as u8);
    proof {
        assert(frame@ =~= le_bytes(length) + payload@.take(0));
    }
    for i in 0..payload.len()
        invariant
            length == payload@.len(),
            frame@ == le_bytes(length) + payload@.take(i as int),
    {
        frame.push(payload[i]);
        proof {
            assert(frame@ =~= le_bytes(length) + payload@.take(i + 1));
        }
    }
    proof {
        assert(payload@.take(payload@.len() as int) =~= payload@);
    }
    Ok(frame)
}

/// The length of the payload that a frame's header announces. It is checked before
/// anything is read or set aside for the payload.
pub fn frame_length(header: &[u8]) -> (r: Result<usize, FrameError>)
    ensures
        if header@.len() < 4 {
            r == Err::<usize, FrameError>(FrameError::Truncated)
        } else if le_value(header@) > MAX_MESSAGE_SIZE {
            r == Err::<usize, FrameError>(
                FrameError::Oversized {
                    actual: le_value(header@) as usize,
                    maximum: MAX_MESSAGE_SIZE,
                },
            )
        } else {
            r == Ok::<usize, FrameError>(le_value(header@) as usize)
        },
{
    if header.len() < 4 {
        return Err(FrameError::Truncated);
    }
    let length: u32 = header[0] as u32 + header[1] as u32 * 0x100 + header[2] as u32 * 0x1_0000
        + header[3] as u32 * 0x100_0000;
    let length: usize = length as usize;
    if length > MAX_MESSAGE_SIZE {
        return Err(FrameError::Oversized { actual: length, maximum: MAX_MESSAGE_SIZE });
    }
    Ok(length)
}

/// What the first frame of a stream gives: the payload and what follows the frame. There
/// is nothing where the stream is at its end before a frame begins.
pub open spec fn frame_read(stream: Seq<u8>) -> Result<Option<(Seq<u8>, Seq<u8>)>, FrameError> {
    if stream.len() == 0 {
        Ok(None)
    } else if stream.len() < 4 {
        Err(FrameError::Truncated)
    } else if le_value(stream) > MAX_MESSAGE_SIZE {
        Err(
            FrameError::Oversized {
                actual: le_value(stream) as usize,
                maximum: MAX_MESSAGE_SIZE,
            },
        )
    } else if stream.len() < 4 + le_value(stream) {
        Err(FrameError::Truncated)
    } else {
        Ok(
            Some(
                (
                    stream.subrange(4, 4 + le_value(stream)),
                    stream.skip(4 + le_value(stream)),
                ),
            ),
        )
    }
}

/// Takes the first frame off a stream, if there is one: the payload and the number of bytes
/// it took.
pub fn read_frame(stream: &[u8]) -> (r: Result<Option<(Vec<u8>, usize)>, FrameError>)
    ensures
        match frame_read(stream@) {
            Err(error) => r == Err::<Option<(Vec<u8>, usize)>, FrameError>(error),
            Ok(None) => r == Ok::<Option<(Vec<u8>, usize)>, FrameError>(None),
            Ok(Some((payload, rest))) => r is Ok && r->Ok_0 is Some && (r->Ok_0->0).0@ == payload
                && (r->Ok_0->0).1 <= stream@.len() && stream@.skip((r->Ok_0->0).1 as int) == rest,
        },
{
    if stream.len() == 0 {
        return Ok(None);
    }
    let length: usize = match frame_length(stream) {
        Ok(length) => length,
        Err(error) => return Err(error),
    };
    if stream.len() - 4 < length {
        return Err(FrameError::Truncated);
    }
    let mut payload: Vec<u8> = Vec::new();
    let mut i: usize = 0;
    while i < length
        invariant
            i <= length,
            length == le_value(stream@),
            4 + length <= stream.len(),
            payload@ == stream@.subrange(4, 4 + i),
        decreases length - i,
    {
        payload.push(stream[4 + i]);
        i = i + 1;
        proof {
            assert(payload@ =~= stream@.subrange(4, 4 + i));
        }
    }
    Ok(Some((payload, 4 + length)))
}

/// The header of a frame says the length of its payload.
pub proof fn frame_prefix_is_payload_length(payload: Seq<u8>)
    requires
        payload.len() <= MAX_MESSAGE_SIZE,
    ensures
        frame_of(payload).len() == payload.len() + 4,
        le_value(frame_of(payload)) == payload.len(),
{
    let n = payload.len() as u32;
    assert(frame_of(payload)[0] == le_bytes(n)[0]);
    assert(frame_of(payload)[1] == le_bytes(n)[1]);
    assert(frame_of(payload)[2] == le_bytes(n)[2]);
    assert(frame_of(payload)[3] == le_bytes(n)[3]);
}

/// Reading takes off exactly the payload that was framed, whatever follows it.
pub proof fn frames_round_trip(payload: Seq<u8>, rest: Seq<u8>)
    requires
        payload.len() <= MAX_MESSAGE_SIZE,
    ensures
        frame_read(frame_of(payload) + rest) == Ok::<Option<(Seq<u8>, Seq<u8>)>, FrameError>(
            Some((payload, rest)),
        ),
{
    frame_prefix_is_payload_length(payload);
    let all = frame_of(payload) + rest;
    assert(all[0] == frame_of(payload)[0]);
    assert(all[1] == frame_of(payload)[1]);
    assert(all[2] == frame_of(payload)[2]);
    assert(all[3] == frame_of(payload)[3]);
    assert(all.subrange(4, 4 + le_value(all)) =~= payload);
    assert(all.skip(4 + le_value(all)) =~= rest);
}

/// A frame that is too long is refused by its header, whatever stands behind it.
pub proof fn long_frames_are_refused_by_their_headers(header: Seq<u8>, rest: Seq<u8>)
    requires
        header.len() == 4,
        le_value(header) > MAX_MESSAGE_SIZE,
    ensures
        frame_read(header + rest) == Err::<Option<(Seq<u8>, Seq<u8>)>, FrameError>(
            FrameError::Oversized {
                actual: le_value(header) as usize,
                maximum: MAX_MESSAGE_SIZE,
            },
        ),
{
    let all = header + rest;
    assert(all[0] == header[0]);
    assert(all[1] == header[1]);
    assert(all[2] == header[2]);
    assert(all[3] == header[3]);
}

/// What the first message of a stream gives, where `parse` reads a payload: the value, or
/// nothing in its place where the payload is no value, and what follows the frame.
pub open spec fn message_read<M>(stream: Seq<u8>, parse: spec_fn(Seq<u8>) -> Option<M>) -> Result<
    Option<(Option<M>, Seq<u8>)>,
    FrameError,
> {
    match frame_read(stream) {
        Err(error) => Err(error),
        Ok(None) => Ok(None),
        Ok(Some((payload, rest))) => Ok(Some((parse(payload), rest))),
    }
}

/// Messages round-trip: a value that its own text reads back to, and whose text fits into a
/// frame, is read off the stream as it was written, and exactly what followed it is left. A
/// stream with no bytes at all holds no message.
pub proof fn messages_round_trip<M>(
    message: M,
    write: spec_fn(M) -> Seq<u8>,
    parse: spec_fn(Seq<u8>) -> Option<M>,
    rest: Seq<u8>,
)
    requires
        parse(write(message)) == Some(message),
        write(message).len() <= MAX_MESSAGE_SIZE,
    ensures
        message_read(frame_of(write(message)) + rest, parse) == Ok::<
            Option<(Option<M>, Seq<u8>)>,
            FrameError,
        >(Some((Some(message), rest))),
        message_read(Seq::empty(), parse) == Ok::<Option<(Option<M>, Seq<u8>)>, FrameError>(None),
{
    frames_round_trip(write(message), rest);
}

/// The length of a native messaging frame's payload, as its header says it. Such a
/// payload is never empty.
pub fn native_frame_length(length: u32) -> (r: Result<usize, FrameError>)
    ensures
        r == (if length == 0 {
            Err(FrameError::Empty)
        } else if length > MAX_MESSAGE_SIZE {
            Err(FrameError::Oversized { actual: length as usize, maximum: MAX_MESSAGE_SIZE })
        } else {
            Ok(length as usize)
        }),
{
    if length == 0 {
        Err(FrameError::Empty)
    } else if length as usize > MAX_MESSAGE_SIZE {
        Err(FrameError::Oversized { actual: length as usize, maximum: MAX_MESSAGE_SIZE })
    } else {
        Ok(length as usize)
    }
}

/// The header value of a native messaging frame, unless its payload is too long.
pub fn native_frame_header(length: usize) -> (r: Result<u32, FrameError>)
    ensures
        r == (if length > MAX_MESSAGE_SIZE {
            Err(FrameError::Oversized { actual: length, maximum: MAX_MESSAGE_SIZE })
        } else {
            Ok(length as u32)
        }),
{
    if length > MAX_MESSAGE_SIZE {
        Err(FrameError::Oversized { actual: length, maximum: MAX_MESSAGE_SIZE })
    } else {
        Ok(length as u32)
    }
}

} // verus!
