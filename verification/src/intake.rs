//! Which events are taken in, and what is recorded of them.

use vstd::prelude::*;
use crate::adapter::AdapterKind;
use crate::clock::Timestamp;
use crate::event::{
    Actor, AdapterIdentity, Event, EventData, EventType, PrivacyClass, ValidationError,
    EVENT_SPEC_VERSION,
};
use crate::ids::Uuid;
use crate::protocol::{
    AdapterEventAck, AdapterEventEmitRequest, AdapterHello, ErrorBody, EventIngested,
};
use crate::resource::{ObservationSource, ResourceKind};
use crate::storage::names;
use crate::text;

verus! {

/// What is wrong with an event that a client sends, in words. A client may send synthetic
/// events only.
pub open spec fn client_event_fault(event: Event) -> Option<Seq<char>> {
    if event.event_type != EventType::SyntheticV1 || event.data !is Synthetic {
        Some("only synthetic events may be ingested by a client"@)
    } else {
        match event.check() {
            Err(error) => Some(error.message_text()),
            Ok(_) => None,
        }
    }
}

/// Takes in an event that a client sends. The time at which it was received is the
/// daemon's.
pub fn admit_client_event(event: Event, now: Timestamp) -> (r: Result<Event, ErrorBody>)
    ensures
        match client_event_fault(event) {
            Some(message) => r is Err && r->Err_0@ == ("invalid_event"@, message),
            None => r == Ok::<Event, ErrorBody>(Event { received_at: now, ..event }),
        },
{
    let mut event = event;
    event.received_at = now;
    let synthetic: bool = match (&event.event_type, &event.data) {
        (EventType::SyntheticV1, EventData::Synthetic { .. }) => true,
        _ => false,
    };
    if !synthetic {
        return Err(
            ErrorBody::new("invalid_event", "only synthetic events may be ingested by a client"),
        );
    }
    if let Err(error) = event.validate() {
        let message = error.message();
        return Err(ErrorBody::new("invalid_event", message.as_str()));
    }
    Ok(event)
}

/// What is known of the resource that an adapter's event names.
#[derive(Clone, Copy, Debug, PartialEq, Eq, Structural)]
pub struct ObservedResource {
    pub kind: Option<ResourceKind>,
    pub scope_active: bool,
}

/// Why an adapter's event is not recorded.
#[derive(Clone, Debug, PartialEq, Eq)]
pub enum AdapterEventError {
    /// No adapter of this kind reports such events.
    UnsupportedType,
    /// The adapter did not declare that it reports such events.
    CapabilityMissing,
    ResourceNotFound,
    WrongResourceKind,
    ScopeInactive,
    /// The browser does not permit the adapter to see the page.
    PermissionMissing,
    Invalid(ValidationError),
}

/// The kind of resource that events of a type are about.
pub open spec fn subject_kind(event_type: EventType) -> Option<ResourceKind> {
    match event_type {
        EventType::SyntheticV1 => None,
        EventType::BrowserResourceOpenedV1 => Some(ResourceKind::WebPage),
        EventType::VscodeWorkspaceOpenedV1 => Some(ResourceKind::Directory),
    }
}

/// The observation that events of a type belong to.
pub open spec fn observation_of(event_type: EventType) -> Option<ObservationSource> {
    match event_type {
        EventType::SyntheticV1 => None,
        EventType::BrowserResourceOpenedV1 => Some(ObservationSource::BrowserChromium),
        EventType::VscodeWorkspaceOpenedV1 => Some(ObservationSource::VscodeWorkspace),
    }
}

/// The observation that an event belongs to.
pub fn observation_source(event_type: EventType) -> (r: Option<ObservationSource>)
    ensures
        r == observation_of(event_type),
{
    match event_type {
        EventType::SyntheticV1 => None,
        EventType::BrowserResourceOpenedV1 => Some(ObservationSource::BrowserChromium),
        EventType::VscodeWorkspaceOpenedV1 => Some(ObservationSource::VscodeWorkspace),
    }
}

/// Whether an adapter is of the kind that reports events of a type.
pub open spec fn reports(hello: AdapterHello, event_type: EventType) -> bool {
    match crate::adapter::kind_of(hello.adapter_id@) {
        Some(kind) => crate::adapter::reports_event(kind, names::event_type_text(event_type)@),
        None => false,
    }
}

/// The first rule that an adapter's event breaks.
pub open spec fn adapter_event_fault(
    hello: AdapterHello,
    emitted: AdapterEventEmitRequest,
    observed: ObservedResource,
) -> Option<AdapterEventError> {
    if !reports(hello, emitted.event_type) {
        Some(AdapterEventError::UnsupportedType)
    } else if !crate::adapter::has_text(
        hello.event_capabilities@,
        names::event_type_text(emitted.event_type)@,
    ) {
        Some(AdapterEventError::CapabilityMissing)
    } else if observed.kind is None {
        Some(AdapterEventError::ResourceNotFound)
    } else if observed.kind != subject_kind(emitted.event_type) {
        Some(AdapterEventError::WrongResourceKind)
    } else if !observed.scope_active {
        Some(AdapterEventError::ScopeInactive)
    } else if emitted.event_type == EventType::BrowserResourceOpenedV1
        && !hello.status.permitted_resource_ids@.contains(emitted.resource_id) {
        Some(AdapterEventError::PermissionMissing)
    } else if text::is_blank(hello.adapter_version@) {
        Some(AdapterEventError::Invalid(ValidationError::EmptyField("adapter.version")))
    } else if emitted.sequence_no > i64::MAX {
        Some(AdapterEventError::Invalid(ValidationError::SequenceOutOfRange))
    } else {
        None
    }
}

/// Whether an event is the one that the daemon makes of what an adapter reports: all but
/// its sequence number, time, type and resource is the daemon's own knowledge.
pub open spec fn is_built_event(
    event: Event,
    hello: AdapterHello,
    emitted: AdapterEventEmitRequest,
    id: Uuid,
    now: Timestamp,
) -> bool {
    &&& event.spec_version@ == EVENT_SPEC_VERSION@
    &&& event.id == id
    &&& event.event_type == emitted.event_type
    &&& event.occurred_at == emitted.occurred_at
    &&& event.received_at == now
    &&& event.actor == Actor::User
    &&& event.adapter == (AdapterIdentity {
        id: hello.adapter_id,
        version: hello.adapter_version,
        instance_id: hello.instance_id,
        sequence_no: emitted.sequence_no,
    })
    &&& event.context is None
    &&& event.privacy == PrivacyClass::Normal
    &&& event.data.kind() == emitted.event_type
    &&& match event.data {
        EventData::BrowserResourceOpened { resource_id } => resource_id == emitted.resource_id
            && event.source@ == "browser.chromium"@,
        EventData::VscodeWorkspaceOpened { resource_id } => resource_id == emitted.resource_id
            && event.source@ == "vscode.workspace"@,
        EventData::Synthetic { .. } => false,
    }
}

proof fn fixed_texts_are_not_blank()
    ensures
        !text::is_blank("browser.chromium"@),
        !text::is_blank("vscode.workspace"@),
        !text::is_blank(crate::adapter::BROWSER_ADAPTER_ID@),
        !text::is_blank(crate::adapter::VSCODE_ADAPTER_ID@),
        !text::is_blank(crate::adapter::LINUX_ADAPTER_ID@),
{
    reveal_strlit("browser.chromium");
    reveal_strlit("vscode.workspace");
    reveal_strlit("dev.fubun.browser.chromium");
    reveal_strlit("dev.fubun.vscode");
    reveal_strlit("dev.fubun.linux");
    assert(!text::is_white_space("browser.chromium"@[0]));
    assert(!text::is_white_space("vscode.workspace"@[0]));
    assert(!text::is_white_space(crate::adapter::BROWSER_ADAPTER_ID@[0]));
    assert(!text::is_white_space(crate::adapter::VSCODE_ADAPTER_ID@[0]));
    assert(!text::is_white_space(crate::adapter::LINUX_ADAPTER_ID@[0]));
}

/// Makes the event that an adapter reports, unless the adapter may not report it.
pub fn build_adapter_event(
    hello: &AdapterHello,
    emitted: &AdapterEventEmitRequest,
    observed: ObservedResource,
    id: Uuid,
    now: Timestamp,
) -> (r: Result<Event, AdapterEventError>)
    ensures
        match adapter_event_fault(*hello, *emitted, observed) {
            Some(fault) => r == Err::<Event, AdapterEventError>(fault),
            None => r is Ok && is_built_event(r->Ok_0, *hello, *emitted, id, now)
                && r->Ok_0.check() is Ok,
        },
{
    let kind_text = names::event_type_name(emitted.event_type);
    let (source, data, kind): (&'static str, EventData, ResourceKind) = match (
        crate::adapter::adapter_kind(hello.adapter_id.as_str()),
        emitted.event_type,
    ) {
        (Some(AdapterKind::Browser), EventType::BrowserResourceOpenedV1) => (
            "browser.chromium",
            EventData::BrowserResourceOpened { resource_id: emitted.resource_id },
            ResourceKind::WebPage,
        ),
        (Some(AdapterKind::Vscode), EventType::VscodeWorkspaceOpenedV1) => (
            "vscode.workspace",
            EventData::VscodeWorkspaceOpened { resource_id: emitted.resource_id },
            ResourceKind::Directory,
        ),
        _ => {
            proof {
                names::event_type_text_distinct(
                    emitted.event_type,
                    EventType::BrowserResourceOpenedV1,
                );
                names::event_type_text_distinct(
                    emitted.event_type,
                    EventType::VscodeWorkspaceOpenedV1,
                );
            }
            return Err(AdapterEventError::UnsupportedType);
        },
    };
    if !crate::adapter::find_text(&hello.event_capabilities, kind_text) {
        return Err(AdapterEventError::CapabilityMissing);
    }
    match observed.kind {
        None => return Err(AdapterEventError::ResourceNotFound),
        Some(found) => if found != kind {
            return Err(AdapterEventError::WrongResourceKind);
        },
    }
    if !observed.scope_active {
        return Err(AdapterEventError::ScopeInactive);
    }
    if emitted.event_type == EventType::BrowserResourceOpenedV1 && !crate::adapter::find_id(
        &hello.status.permitted_resource_ids,
        emitted.resource_id,
    ) {
        return Err(AdapterEventError::PermissionMissing);
    }
    let event = Event {
        spec_version: EVENT_SPEC_VERSION.to_owned(),
        id,
        event_type: emitted.event_type,
        source: source.to_owned(),
        occurred_at: emitted.occurred_at,
        received_at: now,
        actor: Actor::User,
        adapter: AdapterIdentity {
            id: hello.adapter_id.clone(),
            version: hello.adapter_version.clone(),
            instance_id: hello.instance_id,
            sequence_no: emitted.sequence_no,
        },
        context: None,
        privacy: PrivacyClass::Normal,
        data,
    };
    proof {
        fixed_texts_are_not_blank();
    }
    if let Err(error) = event.validate() {
        return Err(AdapterEventError::Invalid(error));
    }
    Ok(event)
}

/// What became of an event that was handed to the storage.
#[derive(Clone, Copy, Debug, PartialEq, Eq, Structural)]
pub enum StoreOutcome {
    Stored,
    /// The adapter instance and the sequence number were stored before.
    Duplicate,
    Rejected,
}

/// What an adapter is told of an event that it reported.
pub fn acknowledge(event_id: Uuid, outcome: StoreOutcome) -> (ack: AdapterEventAck)
    ensures
        ack == (AdapterEventAck {
            event_id,
            stored: outcome == StoreOutcome::Stored,
            duplicate: outcome == StoreOutcome::Duplicate,
        }),
{
    AdapterEventAck {
        event_id,
        stored: outcome == StoreOutcome::Stored,
        duplicate: outcome == StoreOutcome::Duplicate,
    }
}

/// What a client is told of an event that was stored.
pub fn ingested(event_id: Uuid) -> (r: EventIngested)
    ensures
        r == (EventIngested { event_id, stored: true, duplicate: false }),
{
    EventIngested { event_id, stored: true, duplicate: false }
}

/// An adapter's events say nothing but the resource they are about, and only while its
/// observation is active.
pub proof fn recorded_events_are_observed(
    event: Event,
    hello: AdapterHello,
    emitted: AdapterEventEmitRequest,
    observed: ObservedResource,
    id: Uuid,
    now: Timestamp,
)
    requires
        adapter_event_fault(hello, emitted, observed) is None,
        is_built_event(event, hello, emitted, id, now),
    ensures
        observed.scope_active,
        observed.kind is Some && observed.kind == subject_kind(event.event_type),
        event.data == (EventData::BrowserResourceOpened { resource_id: emitted.resource_id })
            || event.data == (EventData::VscodeWorkspaceOpened {
            resource_id: emitted.resource_id,
        }),
        event.actor == Actor::User,
{
}

/// No client can make an event that looks like an adapter's.
pub proof fn clients_cannot_report_observations(event: Event)
    requires
        event.event_type != EventType::SyntheticV1 || event.data.kind() != EventType::SyntheticV1,
    ensures
        client_event_fault(event) is Some,
{
}

} // verus!
