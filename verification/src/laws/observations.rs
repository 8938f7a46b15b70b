//! Registered resources and recorded events.

use vstd::prelude::*;
use crate::clock::Timestamp;
use crate::event;
use crate::event::{Event, EventData, EventType, ValidationError};
use crate::ids::Uuid;
use crate::intake;
use crate::intake::{AdapterEventError, ObservedResource};
use crate::laws::adapters;
use crate::lifecycle;
use crate::lifecycle::FoundPath;
use crate::protocol::{AdapterEventEmitRequest, AdapterHello, ResourceCreateRequest};
use crate::resource;
use crate::resource::{ObservationSource, Resource, ResourceKind, ResourceValidationError};
use crate::storage::names;
use crate::text;

verus! {

/// A text that can be a locator: one to 4096 bytes, and nothing below U+0020.
pub open spec fn is_locator(path: Seq<char>) -> bool {
    &&& 0 < path.len()
    &&& text::byte_len(path) <= 4096
    &&& forall|i: int| 0 <= i < path.len() ==> (#[trigger] path[i]) as u32 >= 0x20
}

/// A path that starts at the root.
pub open spec fn is_rooted(path: Seq<char>) -> bool {
    path.len() > 0 && path[0] == '/'
}

proof fn locators_are_checked(path: Seq<char>)
    ensures
        resource::path_check(path) is Ok <==> is_locator(path),
{
    if !is_locator(path) && path.len() > 0 && text::byte_len(path) <= 4096 {
        let i = choose|i: int| 0 <= i < path.len() && !((#[trigger] path[i]) as u32 >= 0x20);
        assert((path[i] as u32) < 0x20);
    }
}

/// A resource is valid exactly when its label has one to 128 characters and both of its
/// locators can be ones, which for files and directories start at the root.
pub proof fn sound_resources_are_valid(resource: Resource)
    ensures
        resource.check() is Ok <==> {
            &&& 1 <= resource.label@.len() <= 128
            &&& is_locator(resource.locator@)
            &&& is_locator(resource.canonical_locator@)
            &&& resource.kind == ResourceKind::WebPage || is_rooted(resource.locator@)
                && is_rooted(resource.canonical_locator@)
        },
        resource.check() == Err::<(), ResourceValidationError>(
            ResourceValidationError::InvalidLabel,
        ) <==> !(1 <= resource.label@.len() <= 128),
        resource.check() == Err::<(), ResourceValidationError>(
            ResourceValidationError::RelativePath,
        ) ==> !is_rooted(resource.locator@),
{
    locators_are_checked(resource.locator@);
    locators_are_checked(resource.canonical_locator@);
}

/// A path may be registered exactly when it can be a locator and starts at the root; and a
/// page's resource is taken in exactly when its label and its address fit.
pub proof fn sound_paths_can_be_registered(path: Seq<char>, label: Seq<char>)
    ensures
        lifecycle::is_registrable_path(path) <==> is_locator(path) && is_rooted(path),
        lifecycle::page_fault(label, path) is None <==> 1 <= label.len() <= 128 && is_locator(path),
        resource::is_absolute_path(path) <==> is_rooted(path),
{
    locators_are_checked(path);
}

/// Exactly files and directories can be registered, each as what it is.
pub proof fn files_and_directories_can_be_registered(found: FoundPath, kind: ResourceKind)
    ensures
        lifecycle::found_kind(found) is Ok <==> found == FoundPath::File || found
            == FoundPath::Directory,
        lifecycle::found_kind(found) is Ok && lifecycle::found_kind(found)->Ok_0 == kind ==> kind
            == (if found == FoundPath::File {
            ResourceKind::File
        } else {
            ResourceKind::Directory
        }),
        lifecycle::found_kind(found) matches Err(rejection) ==> rejection.code@
            == "invalid_resource"@,
{
}

/// A text with something other than white space in it.
pub open spec fn says_something(value: Seq<char>) -> bool {
    exists|i: int| 0 <= i < value.len() && !text::is_white_space(#[trigger] value[i])
}

/// An event is valid exactly when it is of the known version, says where it comes from,
/// counts within the range of the database, and a synthetic one has a label of up to 128
/// bytes.
pub proof fn sound_events_are_valid(event: Event)
    ensures
        event.check() is Ok <==> {
            &&& event.spec_version@ == "1.0"@
            &&& says_something(event.source@)
            &&& says_something(event.adapter.id@)
            &&& says_something(event.adapter.version@)
            &&& event.adapter.sequence_no <= 0x7fff_ffff_ffff_ffff
            &&& event.data is Synthetic ==> says_something(event.data->label@) && text::byte_len(
                event.data->label@,
            ) <= 128
        },
        event.check() matches Err(ValidationError::UnsupportedSpecVersion(version)) ==> version
            == event.spec_version,
{
    saying_something_is_not_blank(event.source@);
    saying_something_is_not_blank(event.adapter.id@);
    saying_something_is_not_blank(event.adapter.version@);
    if event.data is Synthetic {
        saying_something_is_not_blank(event.data->label@);
    }
}

/// A field that has to be filled in is refused by its name where it says nothing, and
/// accepted as soon as it says something.
pub proof fn fields_have_to_say_something(field: &'static str, value: Seq<char>)
    ensures
        says_something(value) <==> event::non_empty_check(field, value) is Ok,
        !says_something(value) <==> event::non_empty_check(field, value) == Err::<
            (),
            ValidationError,
        >(ValidationError::EmptyField(field)),
{
    saying_something_is_not_blank(value);
}

proof fn saying_something_is_not_blank(value: Seq<char>)
    ensures
        says_something(value) <==> !text::is_blank(value),
{
    if !text::is_blank(value) {
        let i = choose|i: int| 0 <= i < value.len() && !text::is_white_space(#[trigger] value[i]);
        assert(!text::is_white_space(value[i]));
    }
}

/// White space is what separates words: the blank, the tab and the line ends among it, and
/// no visible character of ASCII.
pub proof fn blanks_are_white_space(c: char)
    ensures
        c == ' ' || c == '\t' || c == '\n' || c == '\r' ==> text::is_white_space(c),
        '!' <= c <= '~' ==> !text::is_white_space(c),
        c == ' ' ==> !text::is_control(c),
        '!' <= c <= '~' ==> !text::is_control(c),
        c == '\t' || c == '\n' || c == '\r' || c as u32 == 0 || c as u32 == 0x7f
            ==> text::is_control(c),
        c as u32 > 0x3000 ==> !text::is_white_space(c) && !text::is_control(c),
{
}

/// Of what a client sends, exactly the valid synthetic events are taken in.
pub proof fn clients_may_send_synthetic_events(event: Event)
    ensures
        intake::client_event_fault(event) is None <==> event.event_type == EventType::SyntheticV1
            && event.data is Synthetic && event.check() is Ok,
{
}

/// An adapter's event is recorded exactly when the adapter is of the kind that reports such
/// events, declared that it does, and the resource is one of the right kind under active
/// observation, which a browser has to be permitted to see.
pub proof fn observed_events_are_recorded(
    hello: AdapterHello,
    emitted: AdapterEventEmitRequest,
    observed: ObservedResource,
)
    ensures
        intake::adapter_event_fault(hello, emitted, observed) is None <==> {
            &&& observed.scope_active
            &&& says_something(hello.adapter_version@)
            &&& emitted.sequence_no <= 0x7fff_ffff_ffff_ffff
            &&& {
                ||| {
                    &&& emitted.event_type == EventType::BrowserResourceOpenedV1
                    &&& hello.adapter_id@ == "dev.fubun.browser.chromium"@
                    &&& adapters::lists(
                        hello.event_capabilities@,
                        "dev.fubun.browser.resource.opened.v1"@,
                    )
                    &&& observed.kind == Some(ResourceKind::WebPage)
                    &&& hello.status.permitted_resource_ids@.contains(emitted.resource_id)
                }
                ||| {
                    &&& emitted.event_type == EventType::VscodeWorkspaceOpenedV1
                    &&& hello.adapter_id@ == "dev.fubun.vscode"@
                    &&& adapters::lists(
                        hello.event_capabilities@,
                        "dev.fubun.vscode.workspace.opened.v1"@,
                    )
                    &&& observed.kind == Some(ResourceKind::Directory)
                }
            }
        },
        intake::adapter_event_fault(hello, emitted, observed) == Some(
            AdapterEventError::ScopeInactive,
        ) ==> !observed.scope_active,
        intake::adapter_event_fault(hello, emitted, observed) == Some(
            AdapterEventError::ResourceNotFound,
        ) ==> observed.kind is None,
{
    saying_something_is_not_blank(hello.adapter_version@);
    adapters::adapters_are_known_by_their_identifiers(hello.adapter_id@);
    adapters::identifiers_differ();
    names::event_type_text_distinct(emitted.event_type, EventType::BrowserResourceOpenedV1);
    names::event_type_text_distinct(emitted.event_type, EventType::VscodeWorkspaceOpenedV1);
}

/// Pages are observed through the browser, workspaces through the editor, and nothing else
/// is.
pub proof fn events_belong_to_observations(event_type: EventType)
    ensures
        intake::observation_of(event_type) == Some(ObservationSource::BrowserChromium)
            <==> event_type == EventType::BrowserResourceOpenedV1,
        intake::observation_of(event_type) == Some(ObservationSource::VscodeWorkspace)
            <==> event_type == EventType::VscodeWorkspaceOpenedV1,
        intake::subject_kind(event_type) == Some(ResourceKind::WebPage) <==> event_type
            == EventType::BrowserResourceOpenedV1,
        intake::subject_kind(event_type) == Some(ResourceKind::Directory) <==> event_type
            == EventType::VscodeWorkspaceOpenedV1,
{
}

/// What is recorded of an adapter's event is the daemon's own knowledge but for what the
/// adapter has to say: its count, the time, the type and the resource.
pub proof fn recorded_events_say_what_was_reported(
    event: Event,
    hello: AdapterHello,
    emitted: AdapterEventEmitRequest,
    id: Uuid,
    now: Timestamp,
)
    requires
        intake::is_built_event(event, hello, emitted, id, now),
    ensures
        event.id == id,
        event.received_at == now,
        event.occurred_at == emitted.occurred_at,
        event.adapter.sequence_no == emitted.sequence_no,
        event.adapter.instance_id == hello.instance_id,
        event.adapter.id == hello.adapter_id,
        event.actor == crate::event::Actor::User,
        emitted.event_type == EventType::BrowserResourceOpenedV1 ==> event.data == (
        EventData::BrowserResourceOpened { resource_id: emitted.resource_id }) && event.source@
            == "browser.chromium"@,
        emitted.event_type == EventType::VscodeWorkspaceOpenedV1 ==> event.data == (
        EventData::VscodeWorkspaceOpened { resource_id: emitted.resource_id }) && event.source@
            == "vscode.workspace"@,
{
}

/// The white space of Unicode: six control characters, the blank, and the wide and narrow
/// spaces of other scripts.
pub proof fn white_space_is_that_of_unicode(c: char)
    ensures
        text::is_white_space(c) <==> {
            let code = c as int;
            9 <= code <= 13 || code == 32 || code == 133 || code == 160 || code == 5760 || 8192
                <= code <= 8202 || code == 8232 || code == 8233 || code == 8239 || code == 8287
                || code == 12288
        },
{
}

/// What is registered for a path is what the request says, under the path as it was given
/// and as it was found.
pub proof fn registered_paths_keep_the_request(
    request: ResourceCreateRequest,
    canonical: String,
    kind: ResourceKind,
    id: Uuid,
    now: Timestamp,
)
    ensures
        ({
            let made = lifecycle::path_resource(request, canonical, kind, id, now);
            &&& made.id == id
            &&& made.kind == kind
            &&& made.label == request.label
            &&& made.locator == request.path
            &&& made.canonical_locator == canonical
            &&& made.sensitivity == request.sensitivity
            &&& made.created_at == now && made.updated_at == now
        }),
{
}

} // verus!
