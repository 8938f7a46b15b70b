//! The bridge between a browser extension and the daemon.

use vstd::prelude::*;
use crate::adapter::BROWSER_ADAPTER_ID;
use crate::cli;
use crate::clock::Timestamp;
use crate::event::{EventType, BROWSER_EVENT_TYPE};
use crate::ids::Uuid;
use crate::protocol::{
    ActionExecuteRequest, ActionResult, AdapterEventAck, AdapterEventEmitRequest, AdapterHello,
    AdapterRequestBody, AdapterRequestEnvelope, AdapterResponseBody, AdapterResponseEnvelope,
    AdapterStatusSnapshot, ProtocolVersion, PROTOCOL_MAJOR,
};
use crate::text;

verus! {

pub const ORIGIN_PREFIX: &'static str = "chrome-extension://";

pub const MAX_ALLOWED_EXTENSIONS: usize = 32;

pub const MAX_EXTENSION_VERSION_BYTES: usize = 64;

pub const MAX_PERMITTED_RESOURCES: usize = 256;

/// How long the host waits until an event is acknowledged.
pub const EVENT_ACK_TIMEOUT_MS: u64 = 10_000;

pub const BROWSER_ACTION: &'static str = "browser.tab.ensure_open.v1";

/// What an extension says of itself.
#[derive(Clone, Debug, PartialEq, Eq)]
pub struct ExtensionHello {
    pub extension_id: String,
    pub extension_version: String,
    pub extension_instance_id: Uuid,
    pub permitted_resource_ids: Vec<Uuid>,
}

/// What an extension says of a page that was opened.
#[derive(Clone, Copy, Debug, PartialEq, Eq, Structural)]
pub struct BrowserEvent {
    pub sequence_no: u64,
    pub occurred_at: Timestamp,
    pub resource_id: Uuid,
}

/// What an extension says of an action.
#[derive(Clone, Debug, PartialEq, Eq)]
pub struct BrowserActionResult {
    pub request_id: Uuid,
    pub action_execution_id: Uuid,
    pub result: ActionResult,
}

#[derive(Clone, Copy, Debug, PartialEq, Eq, Structural)]
pub enum HostMessageError {
    Protocol,
    InvalidPayload,
    Core,
    AdapterUnavailable,
    EventAckTimeout,
    EventAckClosed,
    EventAckProtocol,
    DuplicateEventRequest,
}

impl HostMessageError {
    pub open spec fn message_text(self) -> Seq<char> {
        match self {
            HostMessageError::Protocol => "native protocol mismatch"@,
            HostMessageError::InvalidPayload => "invalid native message payload"@,
            HostMessageError::Core => "core request failed"@,
            HostMessageError::AdapterUnavailable => "adapter connection is unavailable"@,
            HostMessageError::EventAckTimeout => "event acknowledgement timed out"@,
            HostMessageError::EventAckClosed => "event acknowledgement connection closed"@,
            HostMessageError::EventAckProtocol => "event acknowledgement protocol error"@,
            HostMessageError::DuplicateEventRequest => "duplicate native event request"@,
        }
    }

    pub fn message(&self) -> (message: String)
        ensures
            message@ == self.message_text(),
    {
        match self {
            HostMessageError::Protocol => "native protocol mismatch".to_owned(),
            HostMessageError::InvalidPayload => "invalid native message payload".to_owned(),
            HostMessageError::Core => "core request failed".to_owned(),
            HostMessageError::AdapterUnavailable => "adapter connection is unavailable".to_owned(),
            HostMessageError::EventAckTimeout => "event acknowledgement timed out".to_owned(),
            HostMessageError::EventAckClosed => {
                "event acknowledgement connection closed".to_owned()
            },
            HostMessageError::EventAckProtocol => {
                "event acknowledgement protocol error".to_owned()
            },
            HostMessageError::DuplicateEventRequest => "duplicate native event request".to_owned(),
        }
    }
}

/// The extension that a caller's origin names, or what is wrong with it.
pub open spec fn origin_extension(origin: Seq<char>) -> Result<Seq<char>, &'static str> {
    let prefix = ORIGIN_PREFIX@;
    let rest = origin.skip(prefix.len() as int);
    if !text::starts_with_of(origin, prefix) {
        Err("invalid caller scheme")
    } else if rest.len() == 0 || rest.last() != '/' {
        Err("caller origin must end with /")
    } else if !cli::is_extension_id(rest.drop_last()) {
        Err("invalid extension id")
    } else {
        Ok(rest.drop_last())
    }
}

/// Takes the extension out of a caller's origin.
pub fn validate_origin(origin: &str) -> (r: Result<String, &'static str>)
    ensures
        match origin_extension(origin@) {
            Ok(id) => r is Ok && r->Ok_0@ == id,
            Err(error) => r is Err && r->Err_0 == error,
        },
{
    if !text::starts_with(origin, ORIGIN_PREFIX) {
        return Err("invalid caller scheme");
    }
    let chars = text::chars_of(origin);
    let prefix = text::chars_of(ORIGIN_PREFIX);
    let start: usize = prefix.len();
    let ghost rest = origin@.skip(start as int);
    if chars.len() == start || chars[chars.len() - 1] != '/' {
        proof {
            if origin@.len() > start {
                assert(rest.last() == origin@[origin@.len() - 1]);
            }
        }
        return Err("caller origin must end with /");
    }
    let end: usize = chars.len() - 1;
    let mut middle: Vec<char> = Vec::new();
    let mut i: usize = start;
    while i < end
        invariant
            start <= i <= end,
            end + 1 == chars@.len(),
            chars@ == origin@,
            middle@ == origin@.subrange(start as int, i as int),
        decreases end - i,
    {
        middle.push(chars[i]);
        i = i + 1;
        proof {
            assert(middle@ =~= origin@.subrange(start as int, i as int));
        }
    }
    proof {
        assert(middle@ =~= rest.drop_last());
        assert(rest.last() == origin@[origin@.len() - 1]);
    }
    let id = text::text_of(middle.as_slice());
    if !cli::extension_id(id.as_str()) {
        return Err("invalid extension id");
    }
    Ok(id)
}

/// The origin of an extension names that extension: a caller that is let in is one that
/// the manifest allows.
pub proof fn origin_names_its_extension(id: Seq<char>)
    requires
        cli::is_extension_id(id),
    ensures
        origin_extension(cli::origin_of(id)) == Ok::<Seq<char>, &'static str>(id),
{
    reveal_strlit("/");
    let origin = cli::origin_of(id);
    let prefix = ORIGIN_PREFIX@;
    assert(origin.take(prefix.len() as int) =~= prefix);
    assert(origin.skip(prefix.len() as int) =~= id + "/"@);
    assert((id + "/"@).drop_last() =~= id);
}

/// An origin is let in only if it is written exactly as the origin of an extension.
pub proof fn only_exact_origins_pass(origin: Seq<char>)
    requires
        origin_extension(origin) is Ok,
    ensures
        origin == cli::origin_of(origin_extension(origin)->Ok_0),
        cli::is_extension_id(origin_extension(origin)->Ok_0),
{
    reveal_strlit("/");
    let prefix = ORIGIN_PREFIX@;
    let rest = origin.skip(prefix.len() as int);
    assert(origin =~= prefix + rest);
    assert(rest =~= rest.drop_last() + "/"@);
    assert(origin =~= prefix + rest.drop_last() + "/"@);
}

pub open spec fn all_distinct(ids: Seq<String>) -> bool {
    forall|i: int, j: int| 0 <= i < j < ids.len() ==> (#[trigger] ids[i])@ != (#[trigger] ids[j])@
}

pub open spec fn are_allowed_ids(ids: Seq<String>) -> bool {
    &&& 1 <= ids.len() <= MAX_ALLOWED_EXTENSIONS
    &&& all_distinct(ids)
    &&& forall|i: int| 0 <= i < ids.len() ==> cli::is_extension_id((#[trigger] ids[i])@)
}

/// Checks the extensions that the settings allow.
pub fn check_allowed_ids(ids: &Vec<String>) -> (r: Result<(), &'static str>)
    ensures
        r == (if are_allowed_ids(ids@) {
            Ok(())
        } else {
            Err("invalid allowed extension id configuration")
        }),
{
    if ids.len() == 0 || ids.len() > MAX_ALLOWED_EXTENSIONS {
        return Err("invalid allowed extension id configuration");
    }
    for i in 0..ids.len()
        invariant
            forall|j: int| 0 <= j < i ==> cli::is_extension_id((#[trigger] ids@[j])@),
            forall|j: int, k: int|
                0 <= j < k < i ==> (#[trigger] ids@[j])@ != (#[trigger] ids@[k])@,
    {
        if !cli::extension_id(ids[i].as_str()) {
            assert(!cli::is_extension_id(ids@[i as int]@));
            return Err("invalid allowed extension id configuration");
        }
        for j in 0..i
            invariant
                i < ids@.len(),
                forall|k: int| 0 <= k < j ==> (#[trigger] ids@[k])@ != ids@[i as int]@,
        {
            if text::same(ids[j].as_str(), ids[i].as_str()) {
                assert(!all_distinct(ids@)) by {
                    assert(ids@[j as int]@ == ids@[i as int]@);
                }
                return Err("invalid allowed extension id configuration");
            }
        }
    }
    Ok(())
}

/// Whether the settings allow an extension.
pub fn require_allowed(ids: &Vec<String>, id: &str) -> (r: Result<(), &'static str>)
    ensures
        r == (if cli::among(ids@, id@) {
            Ok(())
        } else {
            Err("extension origin is not registered")
        }),
{
    for i in 0..ids.len()
        invariant
            forall|j: int| 0 <= j < i ==> (#[trigger] ids@[j])@ != id@,
    {
        if text::same(ids[i].as_str(), id) {
            assert(ids@[i as int]@ == id@);
            return Ok(());
        }
    }
    Err("extension origin is not registered")
}

/// A mode that gives nothing to the group or to others.
pub open spec fn is_private_mode(mode: u32) -> bool {
    mode & 0o077 == 0
}

/// The settings count only if nobody else can read or write them.
pub fn require_private(
    directory_is_directory: bool,
    directory_mode: u32,
    file_is_file: bool,
    file_mode: u32,
) -> (r: Result<(), &'static str>)
    ensures
        r == (if !directory_is_directory || directory_mode & 0o077 != 0 {
            Err("native host config directory must be private")
        } else if !file_is_file || file_mode & 0o077 != 0 {
            Err("native host config must not be group/world accessible")
        } else {
            Ok(())
        }),
        r is Ok <==> directory_is_directory && is_private_mode(directory_mode) && file_is_file
            && is_private_mode(file_mode),
{
    if !directory_is_directory || directory_mode & 0o077 != 0 {
        return Err("native host config directory must be private");
    }
    if !file_is_file || file_mode & 0o077 != 0 {
        return Err("native host config must not be group/world accessible");
    }
    Ok(())
}

/// The first message of an extension has to be its hello.
pub fn require_hello(version: ProtocolVersion, kind: &str) -> (r: Result<(), &'static str>)
    ensures
        r == (if version.major == PROTOCOL_MAJOR && kind@ == "extension.hello"@ {
            Ok(())
        } else {
            Err("extension hello is required")
        }),
{
    if !version.is_compatible() || !text::same(kind, "extension.hello") {
        return Err("extension hello is required");
    }
    Ok(())
}

pub open spec fn extension_fault(hello: ExtensionHello, expected: Seq<char>) -> Option<
    &'static str,
> {
    if hello.extension_id@ != expected {
        Some("extension hello identity mismatch")
    } else if !crate::adapter::is_version_text(
        hello.extension_version@,
        MAX_EXTENSION_VERSION_BYTES as int,
    ) {
        Some("invalid extension version")
    } else if hello.permitted_resource_ids@.len() > MAX_PERMITTED_RESOURCES
        || !hello.permitted_resource_ids@.no_duplicates() {
        Some("invalid permitted browser resources")
    } else {
        None
    }
}

fn no_duplicate_ids(ids: &Vec<Uuid>) -> (r: bool)
    ensures
        r == ids@.no_duplicates(),
{
    for i in 0..ids.len()
        invariant
            forall|j: int, k: int| 0 <= j < k < i ==> ids@[j] != ids@[k],
    {
        for j in 0..i
            invariant
                i < ids@.len(),
                forall|k: int| 0 <= k < j ==> ids@[k] != ids@[i as int],
        {
            if ids[j] == ids[i] {
                assert(ids@[j as int] == ids@[i as int]);
                return false;
            }
        }
    }
    true
}

/// Checks what an extension says of itself.
pub fn validate_extension_hello(hello: &ExtensionHello, expected: &str) -> (r: Result<
    (),
    &'static str,
>)
    ensures
        r == (match extension_fault(*hello, expected@) {
            Some(error) => Err(error),
            None => Ok(()),
        }),
{
    if !text::same(hello.extension_id.as_str(), expected) {
        return Err("extension hello identity mismatch");
    }
    if !crate::adapter::version_text(
        hello.extension_version.as_str(),
        MAX_EXTENSION_VERSION_BYTES,
    ) {
        return Err("invalid extension version");
    }
    if hello.permitted_resource_ids.len() > MAX_PERMITTED_RESOURCES || !no_duplicate_ids(
        &hello.permitted_resource_ids,
    ) {
        return Err("invalid permitted browser resources");
    }
    Ok(())
}

/// Whether an introduction is the one that the host makes for an extension.
pub open spec fn introduces(
    introduction: AdapterHello,
    hello: ExtensionHello,
    version: Seq<char>,
) -> bool {
    &&& introduction.adapter_id@ == BROWSER_ADAPTER_ID@
    &&& introduction.adapter_version@ == version
    &&& introduction.instance_id == hello.extension_instance_id
    &&& introduction.action_capabilities@.len() == 1 && introduction.action_capabilities@[0]@
        == BROWSER_ACTION@
    &&& introduction.event_capabilities@.len() == 1 && introduction.event_capabilities@[0]@
        == BROWSER_EVENT_TYPE@
    &&& introduction.status.tools@.len() == 0
    &&& introduction.status.desktop_entry_ids@.len() == 0
    &&& introduction.status.permitted_resource_ids@ == hello.permitted_resource_ids@
}

/// The state that the host reports for an extension.
pub fn browser_status(hello: &ExtensionHello) -> (status: AdapterStatusSnapshot)
    ensures
        status.tools@.len() == 0,
        status.desktop_entry_ids@.len() == 0,
        status.permitted_resource_ids@ == hello.permitted_resource_ids@,
{
    AdapterStatusSnapshot {
        tools: Vec::new(),
        desktop_entry_ids: Vec::new(),
        permitted_resource_ids: crate::mining::evidence::copy_ids(
            hello.permitted_resource_ids.as_slice(),
        ),
    }
}

/// Introduces an extension to the daemon.
pub fn browser_hello(hello: &ExtensionHello, version: &str) -> (introduction: AdapterHello)
    ensures
        introduces(introduction, *hello, version@),
{
    let mut action_capabilities: Vec<String> = Vec::new();
    action_capabilities.push(BROWSER_ACTION.to_owned());
    let mut event_capabilities: Vec<String> = Vec::new();
    event_capabilities.push(BROWSER_EVENT_TYPE.to_owned());
    AdapterHello {
        adapter_id: BROWSER_ADAPTER_ID.to_owned(),
        adapter_version: version.to_owned(),
        instance_id: hello.extension_instance_id,
        action_capabilities,
        event_capabilities,
        status: browser_status(hello),
    }
}

/// The daemon accepts the host's introduction of any extension, as long as the host has a
/// version of its own.
pub proof fn introduction_is_accepted(
    introduction: AdapterHello,
    hello: ExtensionHello,
    version: Seq<char>,
)
    requires
        introduces(introduction, hello, version),
        crate::adapter::is_version_text(
            version,
            crate::adapter::MAX_ADAPTER_VERSION_BYTES as int,
        ),
    ensures
        crate::adapter::hello_fault(introduction) is None,
{
    reveal_strlit("dev.fubun.linux");
    reveal_strlit("dev.fubun.browser.chromium");
    reveal_strlit("browser.tab.ensure_open.v1");
    reveal_strlit("dev.fubun.browser.resource.opened.v1");
    assert(BROWSER_ADAPTER_ID@.len() != crate::adapter::LINUX_ADAPTER_ID@.len());
    vstd::utf8::is_ascii_chars_encode_utf8(BROWSER_ACTION@);
    vstd::utf8::is_ascii_chars_encode_utf8(BROWSER_EVENT_TYPE@);
    assert(crate::adapter::is_capability_text(BROWSER_ACTION@));
    assert(crate::adapter::is_capability_text(BROWSER_EVENT_TYPE@));
    let kind = crate::adapter::AdapterKind::Browser;
    let actions = introduction.action_capabilities@;
    let events = introduction.event_capabilities@;
    assert(!crate::adapter::occurs_before(actions, 0));
    assert(!crate::adapter::occurs_before(events, 0));
    assert(crate::adapter::capability_fault(kind, actions, true, 1) is None);
    assert(crate::adapter::capability_fault(kind, events, false, 1) is None);
    assert(crate::adapter::capability_fault(kind, actions, true, 0) is None);
    assert(crate::adapter::capability_fault(kind, events, false, 0) is None);
}

/// What an extension asks for.
#[derive(Clone, Copy, Debug, PartialEq, Eq, Structural)]
pub enum NativeRequest {
    EnableObservation,
    PauseObservation,
    EmitEvent,
    ActionResult,
    Ping,
}

pub open spec fn request_named(kind: Seq<char>) -> Option<NativeRequest> {
    if kind == "browser.observation.enable"@ {
        Some(NativeRequest::EnableObservation)
    } else if kind == "browser.observation.pause"@ {
        Some(NativeRequest::PauseObservation)
    } else if kind == "browser.event.emit"@ {
        Some(NativeRequest::EmitEvent)
    } else if kind == "browser.action.result"@ {
        Some(NativeRequest::ActionResult)
    } else if kind == "integration.ping"@ {
        Some(NativeRequest::Ping)
    } else {
        None
    }
}

/// Judges a message of an extension by its version and its kind.
pub fn native_request(version: ProtocolVersion, kind: &str) -> (r: Result<
    NativeRequest,
    HostMessageError,
>)
    ensures
        r == (if version.major != PROTOCOL_MAJOR {
            Err(HostMessageError::Protocol)
        } else {
            match request_named(kind@) {
                Some(request) => Ok(request),
                None => Err(HostMessageError::InvalidPayload),
            }
        }),
{
    if !version.is_compatible() {
        return Err(HostMessageError::Protocol);
    }
    if text::same(kind, "browser.observation.enable") {
        Ok(NativeRequest::EnableObservation)
    } else if text::same(kind, "browser.observation.pause") {
        Ok(NativeRequest::PauseObservation)
    } else if text::same(kind, "browser.event.emit") {
        Ok(NativeRequest::EmitEvent)
    } else if text::same(kind, "browser.action.result") {
        Ok(NativeRequest::ActionResult)
    } else if text::same(kind, "integration.ping") {
        Ok(NativeRequest::Ping)
    } else {
        Err(HostMessageError::InvalidPayload)
    }
}

pub open spec fn reply_text(request: NativeRequest) -> Option<&'static str> {
    match request {
        NativeRequest::EnableObservation => Some("browser.observation.enabled"),
        NativeRequest::PauseObservation => Some("browser.observation.paused"),
        NativeRequest::EmitEvent => Some("browser.event.ack"),
        NativeRequest::ActionResult => None,
        NativeRequest::Ping => Some("integration.pong"),
    }
}

/// The kind of the message that answers a request, where one does.
pub fn reply_kind(request: NativeRequest) -> (r: Option<&'static str>)
    ensures
        r == reply_text(request),
{
    match request {
        NativeRequest::EnableObservation => Some("browser.observation.enabled"),
        NativeRequest::PauseObservation => Some("browser.observation.paused"),
        NativeRequest::EmitEvent => Some("browser.event.ack"),
        NativeRequest::ActionResult => None,
        NativeRequest::Ping => Some("integration.pong"),
    }
}

/// The message with which the host reports a page that was opened. It takes no part in
/// the execution of any action.
pub fn event_message(request_id: Uuid, event: BrowserEvent) -> (message: AdapterResponseEnvelope)
    ensures
        message == (AdapterResponseEnvelope {
            protocol_version: crate::protocol::current_version(),
            request_id,
            action_execution_id: Uuid { value: 0 },
            body: AdapterResponseBody::EventEmit(
                AdapterEventEmitRequest {
                    sequence_no: event.sequence_no,
                    occurred_at: event.occurred_at,
                    event_type: EventType::BrowserResourceOpenedV1,
                    resource_id: event.resource_id,
                },
            ),
        }),
{
    AdapterResponseEnvelope {
        protocol_version: crate::protocol::current_protocol_version(),
        request_id,
        action_execution_id: Uuid::nil(),
        body: AdapterResponseBody::EventEmit(
            AdapterEventEmitRequest {
                sequence_no: event.sequence_no,
                occurred_at: event.occurred_at,
                event_type: EventType::BrowserResourceOpenedV1,
                resource_id: event.resource_id,
            },
        ),
    }
}

/// The message with which the host hands on the result of an action.
pub fn result_message(result: BrowserActionResult) -> (message: AdapterResponseEnvelope)
    ensures
        message == (AdapterResponseEnvelope {
            protocol_version: crate::protocol::current_version(),
            request_id: result.request_id,
            action_execution_id: result.action_execution_id,
            body: AdapterResponseBody::ActionResult(result.result),
        }),
{
    AdapterResponseEnvelope {
        protocol_version: crate::protocol::current_protocol_version(),
        request_id: result.request_id,
        action_execution_id: result.action_execution_id,
        body: AdapterResponseBody::ActionResult(result.result),
    }
}

/// The message with which the host answers a question about its state.
pub fn status_message(
    request_id: Uuid,
    action_execution_id: Uuid,
    status: AdapterStatusSnapshot,
) -> (message: AdapterResponseEnvelope)
    ensures
        message == (AdapterResponseEnvelope {
            protocol_version: crate::protocol::current_version(),
            request_id,
            action_execution_id,
            body: AdapterResponseBody::Status(status),
        }),
{
    AdapterResponseEnvelope {
        protocol_version: crate::protocol::current_protocol_version(),
        request_id,
        action_execution_id,
        body: AdapterResponseBody::Status(status),
    }
}

#[derive(Clone, Copy, Debug, PartialEq, Eq, Structural)]
pub enum PendingAckError {
    Disconnected,
    Protocol,
}

/// Where a message from the daemon goes.
#[derive(Debug, PartialEq, Eq)]
pub enum Route {
    /// To the event that waits for it.
    Deliver { request_id: Uuid, result: Result<AdapterEventAck, PendingAckError> },
    /// Nowhere: no event waits for it.
    Ignore,
    /// To the extension, as an action.
    Action { request_id: Uuid, action_execution_id: Uuid, payload: ActionExecuteRequest },
    /// Back to the daemon, as a state.
    Status { request_id: Uuid, action_execution_id: Uuid },
    /// The daemon speaks another protocol: the connection ends.
    Close,
}

/// What an acknowledgement says to the event that waits for it. One that takes part in the
/// execution of an action is not an acknowledgement.
pub open spec fn ack_result(action_execution_id: Uuid, ack: AdapterEventAck) -> Result<
    AdapterEventAck,
    PendingAckError,
> {
    if action_execution_id == (Uuid { value: 0 }) {
        Ok(ack)
    } else {
        Err(PendingAckError::Protocol)
    }
}

pub open spec fn route_of(waiting: Set<Uuid>, request: AdapterRequestEnvelope) -> Route {
    if request.protocol_version.major != PROTOCOL_MAJOR {
        Route::Close
    } else {
        match request.body {
            AdapterRequestBody::EventAck(ack) => if waiting.contains(request.request_id) {
                Route::Deliver {
                    request_id: request.request_id,
                    result: ack_result(request.action_execution_id, ack),
                }
            } else {
                Route::Ignore
            },
            AdapterRequestBody::ActionExecute(payload) => Route::Action {
                request_id: request.request_id,
                action_execution_id: request.action_execution_id,
                payload,
            },
            AdapterRequestBody::Status(_) => Route::Status {
                request_id: request.request_id,
                action_execution_id: request.action_execution_id,
            },
        }
    }
}

/// The events that wait for an acknowledgement.
pub struct PendingAcks {
    pub waiting: Vec<Uuid>,
}

impl View for PendingAcks {
    type V = Set<Uuid>;

    open spec fn view(&self) -> Set<Uuid> {
        self.waiting@.to_set()
    }
}

impl PendingAcks {
    pub open spec fn wf(self) -> bool {
        self.waiting@.no_duplicates()
    }

    pub fn new() -> (pending: PendingAcks)
        ensures
            pending.wf(),
            pending@ == Set::<Uuid>::empty(),
    {
        let pending = PendingAcks { waiting: Vec::new() };
        proof {
            assert(pending@ =~= Set::<Uuid>::empty());
        }
        pending
    }

    fn position(&self, id: Uuid) -> (r: Option<usize>)
        ensures
            match r {
                Some(k) => k < self.waiting@.len() && self.waiting@[k as int] == id,
                None => !self@.contains(id),
            },
    {
        for i in 0..self.waiting.len()
            invariant
                forall|j: int| 0 <= j < i ==> self.waiting@[j] != id,
        {
            if self.waiting[i] == id {
                return Some(i);
            }
        }
        None
    }

    /// Notes that an event waits, unless one with the same identifier does already.
    pub fn begin(&mut self, id: Uuid) -> (r: Result<(), HostMessageError>)
        requires
            old(self).wf(),
        ensures
            final(self).wf(),
            if old(self)@.contains(id) {
                r == Err::<(), HostMessageError>(HostMessageError::DuplicateEventRequest)
                    && final(self)@ == old(self)@
            } else {
                r == Ok::<(), HostMessageError>(()) && final(self)@ == old(self)@.insert(id)
            },
    {
        match self.position(id) {
            Some(k) => {
                proof {
                    assert(self.waiting@.contains(id)) by {
                        assert(self.waiting@[k as int] == id);
                    }
                }
                Err(HostMessageError::DuplicateEventRequest)
            },
            None => {
                let ghost before = self.waiting@;
                self.waiting.push(id);
                proof {
                    assert(self@ =~= old(self)@.insert(id)) by {
                        assert(self.waiting@[before.len() as int] == id);
                        assert forall|x: Uuid| before.contains(x) implies self.waiting@.contains(
                            x,
                        ) by {
                            let j = choose|j: int| 0 <= j < before.len() && before[j] == x;
                            assert(self.waiting@[j] == x);
                        }
                    }
                }
                Ok(())
            },
        }
    }

    /// Forgets an event. Says whether it waited.
    pub fn release(&mut self, id: Uuid) -> (r: bool)
        requires
            old(self).wf(),
        ensures
            final(self).wf(),
            r == old(self)@.contains(id),
            final(self)@ == old(self)@.remove(id),
    {
        match self.position(id) {
            Some(k) => {
                let ghost before = self.waiting@;
                let _removed = self.waiting.remove(k);
                proof {
                    let after = self.waiting@;
                    assert(before.contains(id)) by {
                        assert(before[k as int] == id);
                    }
                    assert forall|x: Uuid| before.contains(x) && x != id implies after.contains(
                        x,
                    ) by {
                        let j = choose|j: int| 0 <= j < before.len() && before[j] == x;
                        let m = if j < k { j } else { j - 1 };
                        assert(after[m] == x);
                    }
                    assert forall|x: Uuid| after.contains(x) implies before.contains(x) && x
                        != id by {
                        let j = choose|j: int| 0 <= j < after.len() && after[j] == x;
                        let m = if j < k { j } else { j + 1 };
                        assert(before[m] == x);
                    }
                    assert(self@ =~= old(self)@.remove(id));
                    assert(after.no_duplicates()) by {
                        assert forall|i: int, j: int|
                            0 <= i < after.len() && 0 <= j < after.len() && i != j implies after[i]
                            != after[j] by {
                            let x = if i < k { i } else { i + 1 };
                            let y = if j < k { j } else { j + 1 };
                            assert(after[i] == before[x]);
                            assert(after[j] == before[y]);
                        }
                    }
                }
                true
            },
            None => {
                proof {
                    assert(self@ =~= old(self)@.remove(id));
                }
                false
            },
        }
    }

    /// Says where a message from the daemon goes. An acknowledgement ends the wait of its
    /// event; one that nobody waits for is ignored, and so is one that comes again.
    pub fn route(&mut self, request: AdapterRequestEnvelope) -> (route: Route)
        requires
            old(self).wf(),
        ensures
            final(self).wf(),
            route == route_of(old(self)@, request),
            final(self)@ == (if route is Deliver {
                old(self)@.remove(request.request_id)
            } else {
                old(self)@
            }),
    {
        if !request.protocol_version.is_compatible() {
            return Route::Close;
        }
        let request_id = request.request_id;
        let action_execution_id = request.action_execution_id;
        match request.body {
            AdapterRequestBody::EventAck(ack) => {
                if self.release(request_id) {
                    let result = if action_execution_id == Uuid::nil() {
                        Ok(ack)
                    } else {
                        Err(PendingAckError::Protocol)
                    };
                    Route::Deliver { request_id, result }
                } else {
                    proof {
                        assert(self@ =~= old(self)@);
                    }
                    Route::Ignore
                }
            },
            AdapterRequestBody::ActionExecute(payload) => Route::Action {
                request_id,
                action_execution_id,
                payload,
            },
            AdapterRequestBody::Status(_) => Route::Status { request_id, action_execution_id },
        }
    }

    /// Forgets every event: each is to be told that the connection is gone.
    pub fn drain(&mut self) -> (released: Vec<Uuid>)
        requires
            old(self).wf(),
        ensures
            final(self).wf(),
            final(self)@ == Set::<Uuid>::empty(),
            released@.to_set() == old(self)@,
    {
        let mut released: Vec<Uuid> = Vec::new();
        std::mem::swap(&mut released, &mut self.waiting);
        proof {
            assert(self@ =~= Set::<Uuid>::empty());
        }
        released
    }
}

/// How the wait for an acknowledgement ended.
#[derive(Clone, Copy, Debug, PartialEq, Eq, Structural)]
pub enum AckWait {
    /// The event could not be handed to the connection.
    SendFailed,
    TimedOut,
    /// The waiting end was dropped.
    Dropped,
    Delivered(AdapterEventAck),
    Failed(PendingAckError),
}

pub open spec fn ack_outcome(wait: AckWait) -> Result<AdapterEventAck, HostMessageError> {
    match wait {
        AckWait::SendFailed => Err(HostMessageError::AdapterUnavailable),
        AckWait::TimedOut => Err(HostMessageError::EventAckTimeout),
        AckWait::Dropped => Err(HostMessageError::EventAckClosed),
        AckWait::Delivered(ack) => Ok(ack),
        AckWait::Failed(PendingAckError::Disconnected) => Err(HostMessageError::EventAckClosed),
        AckWait::Failed(PendingAckError::Protocol) => Err(HostMessageError::EventAckProtocol),
    }
}

/// What an event comes to. However the wait ended, the event does not wait any longer.
pub fn finish_event(pending: &mut PendingAcks, id: Uuid, wait: AckWait) -> (r: Result<
    AdapterEventAck,
    HostMessageError,
>)
    requires
        old(pending).wf(),
    ensures
        final(pending).wf(),
        final(pending)@ == old(pending)@.remove(id),
        r == ack_outcome(wait),
{
    let _waited = pending.release(id);
    match wait {
        AckWait::SendFailed => Err(HostMessageError::AdapterUnavailable),
        AckWait::TimedOut => Err(HostMessageError::EventAckTimeout),
        AckWait::Dropped => Err(HostMessageError::EventAckClosed),
        AckWait::Delivered(ack) => Ok(ack),
        AckWait::Failed(PendingAckError::Disconnected) => Err(HostMessageError::EventAckClosed),
        AckWait::Failed(PendingAckError::Protocol) => Err(HostMessageError::EventAckProtocol),
    }
}

/// Actions and acknowledgements do not get into each other's way: in whichever order they
/// come, each goes where it would have gone alone.
pub proof fn routing_is_independent_of_order(
    waiting: Set<Uuid>,
    action: AdapterRequestEnvelope,
    ack: AdapterRequestEnvelope,
)
    requires
        action.body is ActionExecute,
        ack.body is EventAck,
    ensures
        route_of(waiting, action) == route_of(waiting.remove(ack.request_id), action),
        !(route_of(waiting, action) is Deliver),
{
}

/// An acknowledgement reaches its event at most once.
pub proof fn acknowledgement_arrives_once(waiting: Set<Uuid>, ack: AdapterRequestEnvelope)
    requires
        ack.body is EventAck,
        ack.protocol_version.major == PROTOCOL_MAJOR,
        route_of(waiting, ack) is Deliver,
    ensures
        route_of(waiting.remove(ack.request_id), ack) == Route::Ignore,
{
}

} // verus!
