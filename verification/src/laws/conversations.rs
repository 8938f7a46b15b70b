//! What clients, adapters and extensions say to the daemon, and what they are told.

use vstd::prelude::*;
use crate::cli;
use crate::ids::Uuid;
use crate::laws::adapters;
use crate::laws::rituals;
use crate::lifecycle;
use crate::lifecycle::Purpose;
use crate::native_host;
use crate::native_host::{
    AckWait, ExtensionHello, HostMessageError, NativeRequest, PendingAckError, Route,
};
use crate::protocol::{
    AdapterEventAck, AdapterRequestBody, AdapterRequestEnvelope, AdapterResponseEnvelope,
    ErrorBody, RequestEnvelope, ResponseBody, ResponseEnvelope, ResponsePayload,
};
use crate::resource::{ObservationScope, ObservationSource, ObservationStatus};
use crate::server;
use crate::server::{AdapterMessage, ClientError, Handshake};
use crate::storage::StorageError;
use crate::text;

verus! {

/// A connection is a client's exactly when it opens with a client's hello of the first
/// version on both the envelope and the hello, and an adapter's exactly when it opens with
/// an adapter's hello; every other is refused.
pub proof fn connections_open_with_a_hello(first: RequestEnvelope)
    ensures
        server::handshake_of(first) == Handshake::Client <==> first.protocol_version.major == 1
            && first.body is ClientHello && first.body->ClientHello_0.protocol_version.major == 1,
        server::handshake_of(first) == Handshake::Adapter <==> first.protocol_version.major == 1
            && first.body is AdapterHello,
        server::handshake_of(first) matches Handshake::Reject(rejection) ==> rejection.code@ == (
        if first.protocol_version.major == 1 && !(first.body is ClientHello) {
            "handshake_required"@
        } else {
            "protocol_major_mismatch"@
        }),
{
}

/// After that, exactly the requests of the first version that are no hello are served.
pub proof fn later_requests_are_served(request: RequestEnvelope)
    ensures
        server::request_fault(request) is None <==> request.protocol_version.major == 1 && !(
        request.body is ClientHello) && !(request.body is AdapterHello),
{
}

/// A client takes a response for the answer to its request exactly when it carries the
/// identifier of the request; then it gets the payload, or the error in the daemon's words.
pub proof fn clients_read_their_answers(request_id: Uuid, response: Option<ResponseEnvelope>)
    ensures
        response is None ==> server::client_outcome(request_id, response) == Err::<
            ResponsePayload,
            ClientError,
        >(ClientError::ConnectionClosed),
        response is Some && response->0.request_id != request_id ==> server::client_outcome(
            request_id,
            response,
        ) == Err::<ResponsePayload, ClientError>(ClientError::RequestIdMismatch),
        response is Some && response->0.request_id == request_id ==> match server::client_outcome(
            request_id,
            response,
        ) {
            Ok(payload) => response->0.body == ResponseBody::Success(payload),
            Err(ClientError::Rejected { code, message }) => response->0.body is Error
                && response->0.body->Error_0.code == code && response->0.body->Error_0.message
                == message,
            Err(_) => false,
        },
{
}

/// The active observations of a source are counted one by one.
pub proof fn active_observations_are_counted(
    scopes: Seq<ObservationScope>,
    source: ObservationSource,
)
    ensures
        server::active_scopes(scopes, source) == scopes.filter(
            |scope: ObservationScope|
                scope.source == source && scope.status == ObservationStatus::Active,
        ).len(),
    decreases scopes.len(),
{
    reveal(Seq::filter);
    if scopes.len() > 0 {
        active_observations_are_counted(scopes.drop_last(), source);
    }
}

/// A client learns that something is missing, there already or running already in words
/// that fit what it asked for, and of everything else that went wrong in the database only
/// that it did.
pub proof fn storage_errors_are_told_in_general(purpose: Purpose, error: StorageError)
    ensures
        error == StorageError::NotFound ==> {
            &&& purpose == Purpose::FindResource ==> lifecycle::fault_for(
                purpose,
                error,
            ).code@ == "resource_not_found"@
            &&& purpose == Purpose::FindRitual ==> lifecycle::fault_for(purpose, error).code@
                == "ritual_not_found"@
            &&& purpose == Purpose::FindExecution ==> lifecycle::fault_for(
                purpose,
                error,
            ).code@ == "execution_not_found"@
        },
        purpose == Purpose::StoreEvent && error == StorageError::DuplicateEvent
            ==> lifecycle::fault_for(purpose, error).code@ == "duplicate_event"@,
        purpose == Purpose::StoreResource && error == StorageError::DuplicateResource
            ==> lifecycle::fault_for(purpose, error).code@ == "duplicate_resource"@,
        purpose == Purpose::StartExecution && error == StorageError::RitualAlreadyRunning
            ==> lifecycle::fault_for(purpose, error).code@ == "ritual_already_running"@,
        purpose == Purpose::CheckDatabase ==> lifecycle::fault_for(purpose, error).code@
            == "storage_error"@,
        error != StorageError::NotFound && error != StorageError::DuplicateEvent && error
            != StorageError::DuplicateResource && error != StorageError::RitualAlreadyRunning
            && purpose != Purpose::CheckDatabase ==> lifecycle::fault_for(purpose, error).code@
            == "internal_error"@,
{
}

/// The letters of an extension identifier.
pub open spec fn is_extension(id: Seq<char>) -> bool {
    id.len() == 32 && forall|i: int| 0 <= i < id.len() ==> 'a' <= #[trigger] id[i] <= 'p'
}

/// A caller is let in exactly with the origin of an extension: its scheme, the identifier of
/// 32 letters from a to p, and a slash.
pub proof fn callers_name_their_extension(origin: Seq<char>, id: Seq<char>)
    ensures
        cli::is_extension_id(id) <==> is_extension(id),
        native_host::origin_extension(origin) == Ok::<Seq<char>, &'static str>(id)
            <==> is_extension(id) && origin == "chrome-extension://"@ + id + "/"@,
{
    if native_host::origin_extension(origin) is Ok {
        native_host::only_exact_origins_pass(origin);
    }
    if is_extension(id) {
        native_host::origin_names_its_extension(id);
    }
}

/// The settings count exactly when they list one to 32 different extensions.
pub proof fn settings_list_extensions(ids: Seq<String>)
    ensures
        native_host::are_allowed_ids(ids) <==> {
            &&& 1 <= ids.len() <= 32
            &&& forall|i: int| 0 <= i < ids.len() ==> is_extension((#[trigger] ids[i])@)
            &&& forall|i: int, j: int|
                0 <= i < j < ids.len() ==> (#[trigger] ids[i])@ != (#[trigger] ids[j])@
        },
{
    assert forall|i: int| 0 <= i < ids.len() implies (is_extension((#[trigger] ids[i])@)
        <==> cli::is_extension_id(ids[i]@)) by {
        callers_name_their_extension(Seq::empty(), ids[i]@);
    }
    if native_host::are_allowed_ids(ids) {
        assert forall|i: int| 0 <= i < ids.len() implies is_extension((#[trigger] ids[i])@) by {
            assert(cli::is_extension_id(ids[i]@));
        }
    }
}

/// An extension's hello is accepted exactly when it is the extension that called, with a
/// version of 1 to 64 plain bytes, and names up to 256 pages, none of them twice.
pub proof fn sound_extensions_are_accepted(hello: ExtensionHello, expected: Seq<char>)
    ensures
        native_host::extension_fault(hello, expected) is None <==> {
            &&& hello.extension_id@ == expected
            &&& 1 <= text::byte_len(hello.extension_version@) <= 64
            &&& rituals::is_plain(hello.extension_version@)
            &&& hello.permitted_resource_ids@.len() <= 256
            &&& forall|i: int, j: int|
                0 <= i < j < hello.permitted_resource_ids@.len()
                    ==> hello.permitted_resource_ids@[i] != hello.permitted_resource_ids@[j]
        },
{
    rituals::plain_has_no_control(hello.extension_version@);
    let ids = hello.permitted_resource_ids@;
    if forall|i: int, j: int| 0 <= i < j < ids.len() ==> ids[i] != ids[j] {
        assert(ids.no_duplicates());
    }
}

/// Every request of an extension but a result is answered, each in its own way, and every
/// request has its name.
pub proof fn requests_are_answered_in_kind(kind: Seq<char>, a: NativeRequest, b: NativeRequest)
    ensures
        native_host::reply_text(a) is None <==> a == NativeRequest::ActionResult,
        a != b && native_host::reply_text(a) is Some && native_host::reply_text(b) is Some
            ==> native_host::reply_text(a)->0@ != native_host::reply_text(b)->0@,
        native_host::request_named(kind) == Some(NativeRequest::EnableObservation) <==> kind
            == "browser.observation.enable"@,
        native_host::request_named(kind) == Some(NativeRequest::PauseObservation) <==> kind
            == "browser.observation.pause"@,
        native_host::request_named(kind) == Some(NativeRequest::EmitEvent) <==> kind
            == "browser.event.emit"@,
        native_host::request_named(kind) == Some(NativeRequest::ActionResult) <==> kind
            == "browser.action.result"@,
        native_host::request_named(kind) == Some(NativeRequest::Ping) <==> kind
            == "integration.ping"@,
{
    reveal_strlit("browser.observation.enabled");
    reveal_strlit("browser.observation.paused");
    reveal_strlit("browser.event.ack");
    reveal_strlit("integration.pong");
    assert("browser.observation.enabled"@.len() == 27);
    assert("browser.observation.paused"@.len() == 26);
    assert("browser.event.ack"@.len() == 17);
    assert("integration.pong"@.len() == 16);
    reveal_strlit("browser.observation.enable");
    reveal_strlit("browser.observation.pause");
    reveal_strlit("browser.event.emit");
    reveal_strlit("browser.action.result");
    reveal_strlit("integration.ping");
    assert("browser.observation.enable"@.len() == 26);
    assert("browser.observation.pause"@.len() == 25);
    assert("browser.event.emit"@.len() == 18);
    assert("browser.action.result"@.len() == 21);
    assert("integration.ping"@.len() == 16);
}

/// An acknowledgement is handed to the event that waits for it, and only to that one: as it
/// is where it takes part in no execution, as a breach of the protocol where it does.
pub proof fn acknowledgements_reach_their_events(
    waiting: Set<Uuid>,
    request: AdapterRequestEnvelope,
    ack: AdapterEventAck,
)
    requires
        request.protocol_version.major == 1,
        request.body == AdapterRequestBody::EventAck(ack),
    ensures
        waiting.contains(request.request_id) ==> native_host::route_of(waiting, request) == (
        Route::Deliver {
            request_id: request.request_id,
            result: if request.action_execution_id.value == 0 {
                Ok(ack)
            } else {
                Err(PendingAckError::Protocol)
            },
        }),
        !waiting.contains(request.request_id) ==> native_host::route_of(waiting, request)
            == Route::Ignore,
{
}

/// Actions and questions go on with their identifiers, whatever waits; a message of another
/// version ends the connection, whatever it holds.
pub proof fn actions_are_handed_on(waiting: Set<Uuid>, request: AdapterRequestEnvelope)
    ensures
        native_host::route_of(waiting, request) == Route::Close <==> request.protocol_version.major
            != 1,
        request.protocol_version.major == 1 && request.body is ActionExecute
            ==> native_host::route_of(waiting, request) == (Route::Action {
            request_id: request.request_id,
            action_execution_id: request.action_execution_id,
            payload: request.body->ActionExecute_0,
        }),
        request.protocol_version.major == 1 && request.body is Status ==> native_host::route_of(
            waiting,
            request,
        ) == (Route::Status {
            request_id: request.request_id,
            action_execution_id: request.action_execution_id,
        }),
{
}

/// An event comes to the acknowledgement that was delivered, and to an error of its own kind
/// otherwise.
pub proof fn waits_end_in_what_came(wait: AckWait, ack: AdapterEventAck)
    ensures
        native_host::ack_outcome(wait) == Ok::<AdapterEventAck, HostMessageError>(ack) <==> wait
            == AckWait::Delivered(ack),
        native_host::ack_outcome(AckWait::TimedOut) == Err::<AdapterEventAck, HostMessageError>(
            HostMessageError::EventAckTimeout,
        ),
        wait == AckWait::Dropped || wait == AckWait::Failed(PendingAckError::Disconnected)
            ==> native_host::ack_outcome(wait) == Err::<AdapterEventAck, HostMessageError>(
            HostMessageError::EventAckClosed,
        ),
        native_host::ack_outcome(AckWait::SendFailed) == Err::<AdapterEventAck, HostMessageError>(
            HostMessageError::AdapterUnavailable,
        ),
        native_host::ack_outcome(AckWait::Failed(PendingAckError::Protocol)) == Err::<
            AdapterEventAck,
            HostMessageError,
        >(HostMessageError::EventAckProtocol),
{
}

/// The answers to an extension's requests go by these names.
pub proof fn answers_have_their_names(request: NativeRequest)
    requires
        request != NativeRequest::ActionResult,
    ensures
        native_host::reply_text(request) is Some,
        native_host::reply_text(request)->0@ == (match request {
            NativeRequest::EnableObservation => "browser.observation.enabled"@,
            NativeRequest::PauseObservation => "browser.observation.paused"@,
            NativeRequest::EmitEvent => "browser.event.ack"@,
            NativeRequest::ActionResult => Seq::empty(),
            NativeRequest::Ping => "integration.pong"@,
        }),
{
}

/// An error says its code and its message, and never the one for the other.
pub proof fn errors_say_code_and_message(error: ErrorBody)
    ensures
        error@.0 == error.code@,
        error@.1 == error.message@,
{
}

/// What a connected adapter sends is a report exactly when it is of the first version and
/// reports an event; everything else of that version is an answer.
pub proof fn adapters_report_or_answer(response: AdapterResponseEnvelope)
    ensures
        server::message_kind(response) == AdapterMessage::Event <==> response.protocol_version.major
            == 1 && response.body is EventEmit,
        server::message_kind(response) == AdapterMessage::Answer
            <==> response.protocol_version.major == 1 && !(response.body is EventEmit),
{
}

/// An extension is allowed exactly when it stands somewhere in the list.
pub proof fn listed_extensions_are_allowed(ids: Seq<String>, id: Seq<char>)
    ensures
        cli::among(ids, id) <==> adapters::lists(ids, id),
{
    if adapters::lists(ids, id) {
        let i = choose|i: int| 0 <= i < ids.len() && (#[trigger] ids[i])@ == id;
        assert(ids[i]@ == id);
    }
}

} // verus!
