//! Actions and rituals.

use vstd::prelude::*;
use crate::clock::Timestamp;
use crate::lifecycle;
use crate::policy;
use crate::policy::{Idempotency, Revertability, RiskLevel};
use crate::ritual;
use crate::ritual::{
    ActionSpec, ActionValidationError, Approval, ExecutionMode, FailureMode, Ritual,
    RitualDefinition, RitualExecutionConfig, RitualStatus, RitualValidationError, RitualVersion,
};
use crate::ids::Uuid;
use crate::preview;
use crate::protocol::RitualRecord;
use crate::text;

verus! {

/// A text without the control characters of Unicode.
pub open spec fn is_plain(value: Seq<char>) -> bool {
    forall|i: int|
        0 <= i < value.len() ==> (#[trigger] value[i]) as u32 > 0x1f && !(0x7f <= value[i] as u32
            <= 0x9f)
}

/// The letters, digits and marks of identifiers.
pub open spec fn is_word(value: Seq<char>) -> bool {
    forall|i: int|
        0 <= i < value.len() ==> {
            let c = #[trigger] value[i];
            'a' <= c <= 'z' || 'A' <= c <= 'Z' || '0' <= c <= '9' || c == '-' || c == '_' || c
                == '.'
        }
}

/// An action whose inputs are within their bounds.
pub open spec fn is_sound_action(action: ActionSpec) -> bool {
    match action {
        ActionSpec::LinuxAppEnsureRunning { app_id } => 1 <= app_id@.len() <= 128 && is_word(
            app_id@,
        ),
        ActionSpec::DesktopNotificationShow { title, body } => 1 <= title@.len() <= 128 && 1
            <= body@.len() <= 1024 && is_plain(title@) && is_plain(body@),
        ActionSpec::LinuxPathOpen { .. } => true,
        ActionSpec::BrowserTabEnsureOpen { .. } => true,
    }
}

/// A text is plain exactly when none of its characters is a control character.
pub proof fn plain_has_no_control(value: Seq<char>)
    ensures
        is_plain(value) <==> !text::has_control(value),
{
    if !is_plain(value) {
        let i = choose|i: int|
            0 <= i < value.len() && !((#[trigger] value[i]) as u32 > 0x1f && !(0x7f
                <= value[i] as u32 <= 0x9f));
        assert(text::is_control(value[i]));
    }
}

/// An action is valid exactly when its inputs are within their bounds. Of a notification
/// the title is blamed before the body.
pub proof fn sound_actions_are_valid(action: ActionSpec)
    ensures
        action.check() is Ok <==> is_sound_action(action),
        action.check() matches Err(error) ==> match action {
            ActionSpec::LinuxAppEnsureRunning { .. } => error
                == ActionValidationError::InvalidAppId,
            ActionSpec::DesktopNotificationShow { title, .. } => error == (if 1 <= title@.len()
                <= 128 && is_plain(title@) {
                ActionValidationError::InvalidNotification { field: "body", maximum: 1024 }
            } else {
                ActionValidationError::InvalidNotification { field: "title", maximum: 128 }
            }),
            _ => false,
        },
{
    match action {
        ActionSpec::LinuxAppEnsureRunning { app_id } => {
            if is_word(app_id@) {
                assert forall|i: int| 0 <= i < app_id@.len() implies ritual::is_app_id_char(
                    #[trigger] app_id@[i],
                ) by {}
            } else {
                let i = choose|i: int|
                    0 <= i < app_id@.len() && {
                        let c = #[trigger] app_id@[i];
                        !('a' <= c <= 'z' || 'A' <= c <= 'Z' || '0' <= c <= '9' || c == '-' || c
                            == '_' || c == '.')
                    };
                assert(!ritual::is_app_id_char(app_id@[i]));
            }
        },
        ActionSpec::DesktopNotificationShow { title, body } => {
            plain_has_no_control(title@);
            plain_has_no_control(body@);
        },
        _ => {},
    }
}

/// Whether an action asks for the same as the one before it.
pub open spec fn repeats(actions: Seq<ActionSpec>, i: int) -> bool {
    i > 0 && match (actions[i - 1], actions[i]) {
        (
            ActionSpec::LinuxAppEnsureRunning { app_id: a },
            ActionSpec::LinuxAppEnsureRunning { app_id: b },
        ) => a@ == b@,
        (
            ActionSpec::DesktopNotificationShow { title: a, body: x },
            ActionSpec::DesktopNotificationShow { title: b, body: y },
        ) => a@ == b@ && x@ == y@,
        (
            ActionSpec::LinuxPathOpen { resource_id: a },
            ActionSpec::LinuxPathOpen { resource_id: b },
        ) => a == b,
        (
            ActionSpec::BrowserTabEnsureOpen { resource_id: a },
            ActionSpec::BrowserTabEnsureOpen { resource_id: b },
        ) => a == b,
        _ => false,
    }
}

/// Asking for the same is an equivalence, and never holds between different types.
pub proof fn sameness_is_an_equivalence(a: ActionSpec, b: ActionSpec, c: ActionSpec)
    ensures
        a.same_as(a),
        a.same_as(b) ==> b.same_as(a),
        a.same_as(b) && b.same_as(c) ==> a.same_as(c),
        a.same_as(b) ==> a.kind_name() == b.kind_name() && ritual::action_json(a)
            == ritual::action_json(b),
{
}

/// A definition is valid exactly when it is of the known schema, its name has one to 128
/// plain characters, it has one to sixteen sound actions of which none repeats the one
/// before it, and it may take one second to two minutes.
pub proof fn sound_definitions_are_valid(definition: RitualDefinition)
    ensures
        definition.check() is Ok <==> {
            &&& definition.schema_version@ == "dev.fubun.ritual/1"@
            &&& 1 <= definition.name@.len() <= 128
            &&& is_plain(definition.name@)
            &&& 1 <= definition.actions@.len() <= 16
            &&& 1 <= definition.execution.timeout_seconds <= 120
            &&& forall|i: int|
                0 <= i < definition.actions@.len() ==> is_sound_action(
                    #[trigger] definition.actions@[i],
                ) && !repeats(definition.actions@, i)
        },
{
    plain_has_no_control(definition.name@);
    actions_are_checked(definition.actions@, 0);
}

proof fn actions_are_checked(actions: Seq<ActionSpec>, from: int)
    requires
        0 <= from <= actions.len(),
    ensures
        ritual::actions_check(actions, from) is Ok <==> forall|i: int|
            from <= i < actions.len() ==> is_sound_action(#[trigger] actions[i]) && !repeats(
                actions,
                i,
            ),
    decreases actions.len() - from,
{
    if from < actions.len() {
        actions_are_checked(actions, from + 1);
        sound_actions_are_valid(actions[from]);
        assert(from > 0 ==> (repeats(actions, from) <==> actions[from - 1].same_as(actions[from])));
        if ritual::actions_check(actions, from) is Ok {
            assert forall|i: int| from <= i < actions.len() implies is_sound_action(
                #[trigger] actions[i],
            ) && !repeats(actions, i) by {
                if i > from {
                    assert(from + 1 <= i);
                }
            }
        } else if is_sound_action(actions[from]) && !repeats(actions, from) {
            let i = choose|i: int|
                from + 1 <= i < actions.len() && !(is_sound_action(#[trigger] actions[i])
                    && !repeats(actions, i));
            assert(from <= i < actions.len());
        }
    }
}

/// The first action that is at fault is the one that is blamed: for its inputs where they
/// are wrong, else for repeating the one before it.
pub proof fn first_faulty_action_is_blamed(actions: Seq<ActionSpec>, k: int)
    requires
        0 <= k < actions.len() <= usize::MAX,
        forall|i: int|
            0 <= i < k ==> is_sound_action(#[trigger] actions[i]) && !repeats(actions, i),
        !is_sound_action(actions[k]) || repeats(actions, k),
    ensures
        is_sound_action(actions[k]) ==> ritual::actions_check(actions, 0) == Err::<
            (),
            RitualValidationError,
        >(RitualValidationError::ConsecutiveDuplicate { index: k as usize }),
        !is_sound_action(actions[k]) ==> ritual::actions_check(actions, 0) == Err::<
            (),
            RitualValidationError,
        >(
            RitualValidationError::InvalidAction {
                index: k as usize,
                source: actions[k].check()->Err_0,
            },
        ),
{
    blame_from(actions, 0, k);
}

proof fn blame_from(actions: Seq<ActionSpec>, from: int, k: int)
    requires
        0 <= from <= k < actions.len() <= usize::MAX,
        forall|i: int|
            from <= i < k ==> is_sound_action(#[trigger] actions[i]) && !repeats(actions, i),
        !is_sound_action(actions[k]) || repeats(actions, k),
    ensures
        is_sound_action(actions[k]) ==> ritual::actions_check(actions, from) == Err::<
            (),
            RitualValidationError,
        >(RitualValidationError::ConsecutiveDuplicate { index: k as usize }),
        !is_sound_action(actions[k]) ==> ritual::actions_check(actions, from) == Err::<
            (),
            RitualValidationError,
        >(
            RitualValidationError::InvalidAction {
                index: k as usize,
                source: actions[k].check()->Err_0,
            },
        ),
    decreases k - from,
{
    sound_actions_are_valid(actions[from]);
    assert(from > 0 ==> (repeats(actions, from) <==> actions[from - 1].same_as(actions[from])));
    if from < k {
        assert(is_sound_action(actions[from]));
        blame_from(actions, from + 1, k);
    }
}

/// A definition whose canonical JSON fits is accepted exactly when it is valid.
pub proof fn definitions_are_refused_for_a_reason(definition: RitualDefinition)
    ensures
        lifecycle::definition_fault(definition) is None <==> definition.check() is Ok
            && text::byte_len(definition.json_text()) <= 131_072,
        definition.check() matches Err(error) ==> lifecycle::definition_fault(definition) == Some(
            error.message_text(),
        ),
{
}

/// The draft of a suggestion opens the suggested pages, each once and in their order, and
/// nothing else; and it is a valid ritual.
pub proof fn drafts_open_the_pages(definition: RitualDefinition, pages: Seq<Uuid>)
    requires
        definition.schema_version@ == ritual::RITUAL_SCHEMA_VERSION@,
        definition.actions@ == lifecycle::draft_actions(pages),
        definition.execution == (RitualExecutionConfig {
            mode: ExecutionMode::Sequential,
            on_failure: FailureMode::Stop,
            timeout_seconds: lifecycle::DRAFT_TIMEOUT_SECONDS,
        }),
    ensures
        definition.actions@.len() == pages.len(),
        forall|i: int|
            0 <= i < pages.len() ==> #[trigger] definition.actions@[i] == (
            ActionSpec::BrowserTabEnsureOpen { resource_id: pages[i] }),
        1 <= definition.name@.len() <= 128 && is_plain(definition.name@) && 1 <= pages.len() <= 16
            && pages.no_duplicates() ==> definition.check() is Ok,
{
    if pages.no_duplicates() {
        assert forall|i: int| 0 <= i < definition.actions@.len() implies !repeats(
            definition.actions@,
            i,
        ) by {
            if i > 0 {
                assert(definition.actions@[i] == (ActionSpec::BrowserTabEnsureOpen {
                    resource_id: pages[i],
                }));
                assert(definition.actions@[i - 1] == (ActionSpec::BrowserTabEnsureOpen {
                    resource_id: pages[i - 1],
                }));
            }
        }
        assert forall|i: int| 0 <= i < definition.actions@.len() implies is_sound_action(
            #[trigger] definition.actions@[i],
        ) by {
            assert(definition.actions@[i] == (ActionSpec::BrowserTabEnsureOpen {
                resource_id: pages[i],
            }));
        }
    }
    sound_definitions_are_valid(definition);
}

/// Each change of a ritual counts its version up by one.
pub proof fn versions_count_up(number: u32)
    ensures
        number < u32::MAX ==> lifecycle::next_number(number) == number + 1,
        lifecycle::next_number(number) >= number,
{
}

/// Exactly the active rituals run.
pub proof fn only_active_rituals_run(status: RitualStatus)
    ensures
        lifecycle::run_gate(status) is Ok <==> status == RitualStatus::Active,
        lifecycle::run_gate(status) matches Err(rejection) ==> rejection.code@
            == "ritual_not_active"@,
{
}

/// Every action may take ten seconds, needs the capability of its own type, and is of the
/// lowest risk only where it shows something and changes nothing.
pub proof fn registry_fits_the_actions(action: ActionSpec)
    ensures
        policy::entry_of(action).default_timeout_ms == 10_000,
        policy::entry_of(action).action_type@ == action.kind_name()@,
        policy::entry_of(action).required_capability@ == action.kind_name()@,
        policy::entry_of(action).risk_level == RiskLevel::R0 <==> action
            is DesktopNotificationShow,
        policy::entry_of(action).risk_level == RiskLevel::R0 || policy::entry_of(action).risk_level
            == RiskLevel::R1,
        policy::entry_named(action.kind_name()@) == Some(policy::entry_of(action)),
{
    policy::lookup_by_type_agrees(action);
}

/// The names of the action types.
pub proof fn types_have_their_names(action: ActionSpec)
    ensures
        action is LinuxAppEnsureRunning <==> action.kind_name()@ == "linux.app.ensure_running.v1"@,
        action is LinuxPathOpen <==> action.kind_name()@ == "linux.path.open.v1"@,
        action is DesktopNotificationShow <==> action.kind_name()@
            == "desktop.notification.show.v1"@,
        action is BrowserTabEnsureOpen <==> action.kind_name()@ == "browser.tab.ensure_open.v1"@,
{
    reveal_strlit("linux.app.ensure_running.v1");
    reveal_strlit("linux.path.open.v1");
    reveal_strlit("desktop.notification.show.v1");
    reveal_strlit("browser.tab.ensure_open.v1");
    assert("linux.app.ensure_running.v1"@.len() == 27);
    assert("linux.path.open.v1"@.len() == 18);
    assert("desktop.notification.show.v1"@.len() == 28);
    assert("browser.tab.ensure_open.v1"@.len() == 26);
}

/// The resource that an action is tied to, where it is tied to one.
pub open spec fn resource_of(action: ActionSpec) -> Option<Uuid> {
    if action is LinuxPathOpen {
        Some(action->LinuxPathOpen_resource_id)
    } else if action is BrowserTabEnsureOpen {
        Some(action->BrowserTabEnsureOpen_resource_id)
    } else {
        None
    }
}

/// An approval covers an action of a version exactly when it is of that version and its
/// content, names the action's type, and is tied to the same resource and the same
/// application.
pub proof fn approvals_cover_what_was_approved(
    approval: Approval,
    version: RitualVersion,
    action: ActionSpec,
)
    ensures
        preview::covers(approval, version, action) <==> {
            &&& approval.ritual_version_id == version.id
            &&& approval.content_hash@ == version.content_hash@
            &&& approval.action_type@ == action.kind_name()@
            &&& approval.capability@ == action.kind_name()@
            &&& approval.resource_id == resource_of(action)
            &&& action is LinuxAppEnsureRunning ==> approval.app_id is Some
                && approval.app_id->0@ == action->app_id@
            &&& !(action is LinuxAppEnsureRunning) ==> approval.app_id is None
        },
        lifecycle::named_resource(action) == resource_of(action),
{
}

/// An approval is for one target: of two actions that it covers, both open the same
/// resource or start the same application, or both show notifications.
pub proof fn approvals_are_for_one_target(
    approval: Approval,
    version: RitualVersion,
    a: ActionSpec,
    b: ActionSpec,
)
    requires
        preview::covers(approval, version, a),
        preview::covers(approval, version, b),
    ensures
        a is DesktopNotificationShow && b is DesktopNotificationShow || a.same_as(b),
{
    types_have_their_names(a);
    types_have_their_names(b);
}

/// What is wrong with a definition is said in this order: its schema, its name, the number of
/// its actions, its time, and then the first action at fault.
pub proof fn faults_are_named_in_order(definition: RitualDefinition)
    ensures
        ({
            let known = definition.schema_version@ == "dev.fubun.ritual/1"@;
            let named = 1 <= definition.name@.len() <= 128 && is_plain(definition.name@);
            let counted = 1 <= definition.actions@.len() <= 16;
            let timed = 1 <= definition.execution.timeout_seconds <= 120;
            &&& !known ==> definition.check() == Err::<(), RitualValidationError>(
                RitualValidationError::UnsupportedSchemaVersion(definition.schema_version),
            )
            &&& known && !named ==> definition.check() == Err::<(), RitualValidationError>(
                RitualValidationError::InvalidName,
            )
            &&& known && named && !counted ==> definition.check() == Err::<
                (),
                RitualValidationError,
            >(RitualValidationError::InvalidActionCount)
            &&& known && named && counted && !timed ==> definition.check() == Err::<
                (),
                RitualValidationError,
            >(RitualValidationError::InvalidTimeout)
            &&& known && named && counted && timed ==> definition.check() == ritual::actions_check(
                definition.actions@,
                0,
            )
        }),
{
    plain_has_no_control(definition.name@);
}

/// A version holds the canonical JSON of its definition and the hexadecimal SHA-256 digest
/// of just that text.
pub proof fn versions_hash_what_they_hold(
    version: RitualVersion,
    id: Uuid,
    ritual_id: Uuid,
    number: u32,
    definition: RitualDefinition,
    now: Timestamp,
)
    requires
        lifecycle::is_version_of(version, id, ritual_id, number, definition, now),
    ensures
        version.id == id,
        version.ritual_id == ritual_id,
        version.version == number,
        version.created_at == now,
        version.schema_version@ == "dev.fubun.ritual/1"@,
        version.canonical_json@ == definition.json_text(),
        version.content_hash@ == crate::digest::hex_of(
            crate::digest::sha256_of(vstd::utf8::encode_utf8(version.canonical_json@)),
        ),
{
}

/// How actions are described: starting an application cannot be taken back, opening a tab can
/// in part, and the others change nothing; only a notification is shown anew each time.
pub proof fn actions_are_described(action: ActionSpec)
    ensures
        policy::entry_of(action).revertability == (match action {
            ActionSpec::LinuxAppEnsureRunning { .. } => Revertability::NotRevertable,
            ActionSpec::BrowserTabEnsureOpen { .. } => Revertability::PartiallyRevertable,
            ActionSpec::LinuxPathOpen { .. } => Revertability::NoStateChange,
            ActionSpec::DesktopNotificationShow { .. } => Revertability::NoStateChange,
        }),
        policy::entry_of(action).idempotency == Idempotency::NonIdempotent <==> action
            is DesktopNotificationShow,
        policy::entry_of(action).idempotency != Idempotency::Idempotent,
        policy::entry_of(action).schema_version@ == "1"@,
{
}

/// An activation approves exactly what the ritual will do: its approval of an action names
/// the version, its content and the target, and the time.
pub proof fn activations_approve_targets(
    approval: Approval,
    id: Uuid,
    version: RitualVersion,
    action: ActionSpec,
    now: Timestamp,
)
    requires
        preview::is_approval_of(approval, id, version, action, now),
    ensures
        approval.id == id,
        approval.approved_at == now,
        approval.ritual_version_id == version.id,
        approval.content_hash@ == version.content_hash@,
        approval.action_type@ == action.kind_name()@,
        approval.resource_id == resource_of(action),
{
    approvals_cover_what_was_approved(approval, version, action);
}

/// Actions of the two higher risks are never permitted.
pub proof fn higher_risks_are_refused(level: RiskLevel)
    ensures
        policy::risk_permitted(level) <==> level != RiskLevel::R2 && level != RiskLevel::R3,
{
}

/// A new ritual is a draft of its first version, which does not run before it is activated.
pub proof fn new_rituals_are_drafts(
    record: RitualRecord,
    definition: RitualDefinition,
    ritual_id: Uuid,
    version_id: Uuid,
    now: Timestamp,
)
    requires
        lifecycle::is_created(record, definition, ritual_id, version_id, now),
    ensures
        record.ritual.id == ritual_id && record.version.ritual_id == ritual_id,
        record.ritual.current_version_id == version_id && record.version.id == version_id,
        record.version.version == 1,
        record.ritual.name == record.definition.name,
        record.definition == definition,
        record.ritual.created_at == now,
        lifecycle::run_gate(record.ritual.status) is Err,
{
}

/// A changed ritual is the same ritual with one more version, and a draft of it again.
pub proof fn changed_rituals_are_drafts_again(
    record: RitualRecord,
    ritual: Ritual,
    current_version: u32,
    definition: RitualDefinition,
    version_id: Uuid,
    now: Timestamp,
)
    requires
        current_version < u32::MAX,
        lifecycle::is_updated(record, ritual, current_version, definition, version_id, now),
    ensures
        record.ritual.id == ritual.id && record.version.ritual_id == ritual.id,
        record.ritual.current_version_id == version_id && record.version.id == version_id,
        record.version.version == current_version + 1,
        record.ritual.name == definition.name,
        record.definition == definition,
        record.ritual.created_at == ritual.created_at,
        record.ritual.updated_at == now,
        lifecycle::run_gate(record.ritual.status) is Err,
{
}

/// Every ritual but an archived one can be paused, again and again: it stays what it is and
/// does not run.
pub proof fn paused_rituals_do_not_run(ritual: Ritual)
    ensures
        lifecycle::paused(ritual) is Some <==> ritual.status != RitualStatus::Archived,
        lifecycle::paused(ritual) matches Some(after) ==> {
            &&& after.status == RitualStatus::Paused
            &&& after.id == ritual.id && after.name == ritual.name
            &&& after.current_version_id == ritual.current_version_id
            &&& after.created_at == ritual.created_at
            &&& lifecycle::run_gate(after.status) is Err
            &&& lifecycle::paused(after) == Some(after)
        },
{
}

} // verus!
