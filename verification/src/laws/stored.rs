//! Reading stored rows.

use vstd::prelude::*;
use crate::clock::Timestamp;
use crate::event::{Actor, Event, EventType, PrivacyClass};
use crate::execution::{Execution, ExecutionStatus, ExecutionStep, ExecutionStepStatus};
use crate::ids::Uuid;
use crate::mining::{DiscoveredSession, DiscoveryRun, DiscoveryRunStatus, SuggestionStatus};
use crate::resource::{
    ObservationScope, ObservationSource, ObservationStatus, Resource, ResourceKind, Sensitivity,
};
use crate::ritual::{Approval, Ritual, RitualStatus, RitualVersion};
use crate::storage::events;
use crate::storage::events::EventRow;
use crate::storage::names;
use crate::storage::operations;
use crate::storage::operations::UniqueRecord;
use crate::storage::rows;
use crate::storage::StorageError;

verus! {

/// A column that holds nothing, or an identifier that can be read.
pub open spec fn may_be_id(column: Option<String>) -> bool {
    column is None || Uuid::read_as(column->0@) is Some
}

/// A column that holds nothing, or a time that can be read.
pub open spec fn may_be_time(column: Option<String>) -> bool {
    column is None || Timestamp::read_as(column->0@) is Some
}

/// Of resources, a row can be read exactly when each of its columns can, and then every field
/// of the record says what the column of its name says.
pub proof fn resource_rows_are_read_column_by_column(row: rows::ResourceRow)
    ensures
        rows::resource_fault(row) is None <==> {
            &&& Uuid::read_as(row.id@) is Some
            &&& names::resource_kind_read(row.kind@) is Ok
            &&& names::sensitivity_read(row.sensitivity@) is Ok
            &&& names::resource_scope_read(row.scope@) is Ok
            &&& Timestamp::read_as(row.created_at@) is Some
            &&& Timestamp::read_as(row.updated_at@) is Some
        },
        rows::resource_fault(row) is None ==> {
            let record = rows::resource_value(row);
            &&& Uuid::read_as(row.id@) == Some(record.id)
            &&& row.kind@ == names::resource_kind_text(record.kind)@
            &&& row.sensitivity@ == names::sensitivity_text(record.sensitivity)@
            &&& row.scope@ == names::resource_scope_text(record.scope)@
            &&& Timestamp::read_as(row.created_at@) == Some(record.created_at)
            &&& Timestamp::read_as(row.updated_at@) == Some(record.updated_at)
            &&& record.label == row.label
            &&& record.locator == row.locator
            &&& record.canonical_locator == row.canonical_locator
        },
{
    if rows::resource_fault(row) is None {
        let record = rows::resource_value(row);
        names::resource_kind_round_trip(record.kind, row.kind@);
        names::sensitivity_round_trip(record.sensitivity, row.sensitivity@);
        names::resource_scope_round_trip(record.scope, row.scope@);
    }
}

/// Of rituals, a row can be read exactly when each of its columns can, and then every field
/// of the record says what the column of its name says.
pub proof fn ritual_rows_are_read_column_by_column(row: rows::RitualRow)
    ensures
        rows::ritual_fault(row) is None <==> {
            &&& Uuid::read_as(row.id@) is Some
            &&& names::ritual_status_read(row.status@) is Ok
            &&& Uuid::read_as(row.current_version_id@) is Some
            &&& Timestamp::read_as(row.created_at@) is Some
            &&& Timestamp::read_as(row.updated_at@) is Some
        },
        rows::ritual_fault(row) is None ==> {
            let record = rows::ritual_value(row);
            &&& Uuid::read_as(row.id@) == Some(record.id)
            &&& row.status@ == names::ritual_status_text(record.status)@
            &&& Uuid::read_as(row.current_version_id@) == Some(record.current_version_id)
            &&& Timestamp::read_as(row.created_at@) == Some(record.created_at)
            &&& Timestamp::read_as(row.updated_at@) == Some(record.updated_at)
            &&& record.name == row.name
        },
{
    if rows::ritual_fault(row) is None {
        let record = rows::ritual_value(row);
        names::ritual_status_round_trip(record.status, row.status@);
    }
}

/// Of versions of rituals, a row can be read exactly when each of its columns can, and then every field
/// of the record says what the column of its name says.
pub proof fn ritual_version_rows_are_read_column_by_column(row: rows::RitualVersionRow)
    ensures
        rows::ritual_version_fault(row) is None <==> {
            &&& Uuid::read_as(row.id@) is Some
            &&& Uuid::read_as(row.ritual_id@) is Some
            &&& 0 <= row.version <= 0xffff_ffff
            &&& Timestamp::read_as(row.created_at@) is Some
        },
        rows::ritual_version_fault(row) is None ==> {
            let record = rows::ritual_version_value(row);
            &&& Uuid::read_as(row.id@) == Some(record.id)
            &&& Uuid::read_as(row.ritual_id@) == Some(record.ritual_id)
            &&& record.version == row.version
            &&& Timestamp::read_as(row.created_at@) == Some(record.created_at)
            &&& record.schema_version == row.schema_version
            &&& record.canonical_json == row.canonical_json
            &&& record.content_hash == row.content_hash
        },
{
}

/// Of approvals, a row can be read exactly when each of its columns can, and then every field
/// of the record says what the column of its name says.
pub proof fn approval_rows_are_read_column_by_column(row: rows::ApprovalRow)
    ensures
        rows::approval_fault(row) is None <==> {
            &&& Uuid::read_as(row.id@) is Some
            &&& Uuid::read_as(row.ritual_version_id@) is Some
            &&& may_be_id(row.resource_id)
            &&& Timestamp::read_as(row.approved_at@) is Some
        },
        rows::approval_fault(row) is None ==> {
            let record = rows::approval_value(row);
            &&& Uuid::read_as(row.id@) == Some(record.id)
            &&& Uuid::read_as(row.ritual_version_id@) == Some(record.ritual_version_id)
            &&& record.resource_id == (if row.resource_id is None {
                None
            } else {
                Uuid::read_as(row.resource_id->0@)
            })
            &&& Timestamp::read_as(row.approved_at@) == Some(record.approved_at)
            &&& record.action_type == row.action_type
            &&& record.capability == row.capability
            &&& record.app_id == row.app_id
            &&& record.content_hash == row.content_hash
        },
{
}

/// Of executions, a row can be read exactly when each of its columns can, and then every field
/// of the record says what the column of its name says.
pub proof fn execution_rows_are_read_column_by_column(row: rows::ExecutionRow)
    ensures
        rows::execution_fault(row) is None <==> {
            &&& Uuid::read_as(row.id@) is Some
            &&& Uuid::read_as(row.ritual_id@) is Some
            &&& Uuid::read_as(row.ritual_version_id@) is Some
            &&& names::execution_status_read(row.status@) is Ok
            &&& names::trigger_kind_read(row.trigger_kind@) is Ok
            &&& Timestamp::read_as(row.started_at@) is Some
            &&& may_be_time(row.finished_at)
            &&& Timestamp::read_as(row.created_at@) is Some
        },
        rows::execution_fault(row) is None ==> {
            let record = rows::execution_value(row);
            &&& Uuid::read_as(row.id@) == Some(record.id)
            &&& Uuid::read_as(row.ritual_id@) == Some(record.ritual_id)
            &&& Uuid::read_as(row.ritual_version_id@) == Some(record.ritual_version_id)
            &&& row.status@ == names::execution_status_text(record.status)@
            &&& row.trigger_kind@ == names::trigger_kind_text(record.trigger_kind)@
            &&& Timestamp::read_as(row.started_at@) == Some(record.started_at)
            &&& record.finished_at == (if row.finished_at is None {
                None
            } else {
                Timestamp::read_as(row.finished_at->0@)
            })
            &&& Timestamp::read_as(row.created_at@) == Some(record.created_at)
            &&& record.failure_code == row.failure_code
        },
{
    if rows::execution_fault(row) is None {
        let record = rows::execution_value(row);
        names::execution_status_round_trip(record.status, row.status@);
        names::trigger_kind_round_trip(record.trigger_kind, row.trigger_kind@);
    }
}

/// Of steps, a row can be read exactly when each of its columns can, and then every field
/// of the record says what the column of its name says.
pub proof fn execution_step_rows_are_read_column_by_column(row: rows::ExecutionStepRow)
    ensures
        rows::execution_step_fault(row) is None <==> {
            &&& Uuid::read_as(row.id@) is Some
            &&& Uuid::read_as(row.execution_id@) is Some
            &&& 0 <= row.step_index <= 0xffff_ffff
            &&& names::execution_step_status_read(row.status@) is Ok
            &&& may_be_id(row.adapter_instance_id)
            &&& Timestamp::read_as(row.started_at@) is Some
            &&& may_be_time(row.finished_at)
        },
        rows::execution_step_fault(row) is None ==> {
            let record = rows::execution_step_value(row);
            &&& Uuid::read_as(row.id@) == Some(record.id)
            &&& Uuid::read_as(row.execution_id@) == Some(record.execution_id)
            &&& record.step_index == row.step_index
            &&& row.status@ == names::execution_step_status_text(record.status)@
            &&& record.adapter_instance_id == (if row.adapter_instance_id is None {
                None
            } else {
                Uuid::read_as(row.adapter_instance_id->0@)
            })
            &&& Timestamp::read_as(row.started_at@) == Some(record.started_at)
            &&& record.finished_at == (if row.finished_at is None {
                None
            } else {
                Timestamp::read_as(row.finished_at->0@)
            })
            &&& record.action_type == row.action_type
            &&& record.adapter_id == row.adapter_id
            &&& record.result_code == row.result_code
            &&& record.redacted_message == row.redacted_message
        },
{
    if rows::execution_step_fault(row) is None {
        let record = rows::execution_step_value(row);
        names::execution_step_status_round_trip(record.status, row.status@);
    }
}

/// Of observation scopes, a row can be read exactly when each of its columns can, and then every field
/// of the record says what the column of its name says.
pub proof fn observation_scope_rows_are_read_column_by_column(row: rows::ObservationScopeRow)
    ensures
        rows::observation_scope_fault(row) is None <==> {
            &&& Uuid::read_as(row.id@) is Some
            &&& names::observation_source_read(row.source@) is Ok
            &&& Uuid::read_as(row.resource_id@) is Some
            &&& names::observation_status_read(row.status@) is Ok
            &&& Timestamp::read_as(row.created_at@) is Some
            &&& Timestamp::read_as(row.updated_at@) is Some
        },
        rows::observation_scope_fault(row) is None ==> {
            let record = rows::observation_scope_value(row);
            &&& Uuid::read_as(row.id@) == Some(record.id)
            &&& row.source@ == names::observation_source_text(record.source)@
            &&& Uuid::read_as(row.resource_id@) == Some(record.resource_id)
            &&& row.status@ == names::observation_status_text(record.status)@
            &&& Timestamp::read_as(row.created_at@) == Some(record.created_at)
            &&& Timestamp::read_as(row.updated_at@) == Some(record.updated_at)
        },
{
    if rows::observation_scope_fault(row) is None {
        let record = rows::observation_scope_value(row);
        names::observation_source_round_trip(record.source, row.source@);
        names::observation_status_round_trip(record.status, row.status@);
    }
}

/// Of discovery runs, a row can be read exactly when each of its columns can, and then every field
/// of the record says what the column of its name says.
pub proof fn discovery_run_rows_are_read_column_by_column(row: rows::DiscoveryRunRow)
    ensures
        rows::discovery_run_fault(row) is None <==> {
            &&& Uuid::read_as(row.id@) is Some
            &&& names::discovery_status_read(row.status@) is Ok
            &&& Timestamp::read_as(row.started_at@) is Some
            &&& may_be_time(row.finished_at)
        },
        rows::discovery_run_fault(row) is None ==> {
            let record = rows::discovery_run_value(row);
            &&& Uuid::read_as(row.id@) == Some(record.id)
            &&& row.status@ == names::discovery_status_text(record.status)@
            &&& Timestamp::read_as(row.started_at@) == Some(record.started_at)
            &&& record.finished_at == (if row.finished_at is None {
                None
            } else {
                Timestamp::read_as(row.finished_at->0@)
            })
            &&& record.algorithm_version == row.algorithm_version
            &&& record.input_event_count == row.input_event_count
            &&& record.sessions_upserted == row.sessions_upserted
            &&& record.candidates_evaluated == row.candidates_evaluated
            &&& record.suggestions_created == row.suggestions_created
            &&& record.failure_code == row.failure_code
        },
{
    if rows::discovery_run_fault(row) is None {
        let record = rows::discovery_run_value(row);
        names::discovery_status_round_trip(record.status, row.status@);
    }
}

/// The kinds of resources stand in their column under fixed words, and no other word is read as one.
pub proof fn resource_kind_words_are_fixed(name: Seq<char>, value: ResourceKind)
    ensures
        names::resource_kind_read(name) == Ok::<ResourceKind, StorageError>(value) <==> name == (match value {
            ResourceKind::File => "filesystem.file"@,
            ResourceKind::Directory => "filesystem.directory"@,
            ResourceKind::WebPage => "web.page"@,
        }),
        names::resource_kind_text(value)@ == (match value {
            ResourceKind::File => "filesystem.file"@,
            ResourceKind::Directory => "filesystem.directory"@,
            ResourceKind::WebPage => "web.page"@,
        }),
{
    names::resource_kind_round_trip(value, name);
}

/// The sensitivities stand in their column under fixed words, and no other word is read as one.
pub proof fn sensitivity_words_are_fixed(name: Seq<char>, value: Sensitivity)
    ensures
        names::sensitivity_read(name) == Ok::<Sensitivity, StorageError>(value) <==> name == (match value {
            Sensitivity::Normal => "normal"@,
            Sensitivity::Sensitive => "sensitive"@,
        }),
        names::sensitivity_text(value)@ == (match value {
            Sensitivity::Normal => "normal"@,
            Sensitivity::Sensitive => "sensitive"@,
        }),
{
    names::sensitivity_round_trip(value, name);
}

/// The sources of observations stand in their column under fixed words, and no other word is read as one.
pub proof fn observation_source_words_are_fixed(name: Seq<char>, value: ObservationSource)
    ensures
        names::observation_source_read(name) == Ok::<ObservationSource, StorageError>(value) <==> name == (match value {
            ObservationSource::BrowserChromium => "browser.chromium"@,
            ObservationSource::VscodeWorkspace => "vscode.workspace"@,
        }),
        names::observation_source_text(value)@ == (match value {
            ObservationSource::BrowserChromium => "browser.chromium"@,
            ObservationSource::VscodeWorkspace => "vscode.workspace"@,
        }),
{
    names::observation_source_round_trip(value, name);
}

/// The states of observations stand in their column under fixed words, and no other word is read as one.
pub proof fn observation_status_words_are_fixed(name: Seq<char>, value: ObservationStatus)
    ensures
        names::observation_status_read(name) == Ok::<ObservationStatus, StorageError>(value) <==> name == (match value {
            ObservationStatus::Active => "active"@,
            ObservationStatus::Paused => "paused"@,
        }),
        names::observation_status_text(value)@ == (match value {
            ObservationStatus::Active => "active"@,
            ObservationStatus::Paused => "paused"@,
        }),
{
    names::observation_status_round_trip(value, name);
}

/// The states of rituals stand in their column under fixed words, and no other word is read as one.
pub proof fn ritual_status_words_are_fixed(name: Seq<char>, value: RitualStatus)
    ensures
        names::ritual_status_read(name) == Ok::<RitualStatus, StorageError>(value) <==> name == (match value {
            RitualStatus::Draft => "draft"@,
            RitualStatus::Active => "active"@,
            RitualStatus::Paused => "paused"@,
            RitualStatus::Archived => "archived"@,
        }),
        names::ritual_status_text(value)@ == (match value {
            RitualStatus::Draft => "draft"@,
            RitualStatus::Active => "active"@,
            RitualStatus::Paused => "paused"@,
            RitualStatus::Archived => "archived"@,
        }),
{
    names::ritual_status_round_trip(value, name);
}

/// The states of executions stand in their column under fixed words, and no other word is read as one.
pub proof fn execution_status_words_are_fixed(name: Seq<char>, value: ExecutionStatus)
    ensures
        names::execution_status_read(name) == Ok::<ExecutionStatus, StorageError>(value) <==> name == (match value {
            ExecutionStatus::Planned => "planned"@,
            ExecutionStatus::Running => "running"@,
            ExecutionStatus::Succeeded => "succeeded"@,
            ExecutionStatus::Failed => "failed"@,
            ExecutionStatus::Partial => "partial"@,
            ExecutionStatus::Aborted => "aborted"@,
        }),
        names::execution_status_text(value)@ == (match value {
            ExecutionStatus::Planned => "planned"@,
            ExecutionStatus::Running => "running"@,
            ExecutionStatus::Succeeded => "succeeded"@,
            ExecutionStatus::Failed => "failed"@,
            ExecutionStatus::Partial => "partial"@,
            ExecutionStatus::Aborted => "aborted"@,
        }),
{
    names::execution_status_round_trip(value, name);
}

/// The states of steps stand in their column under fixed words, and no other word is read as one.
pub proof fn execution_step_status_words_are_fixed(name: Seq<char>, value: ExecutionStepStatus)
    ensures
        names::execution_step_status_read(name) == Ok::<ExecutionStepStatus, StorageError>(value) <==> name == (match value {
            ExecutionStepStatus::Pending => "pending"@,
            ExecutionStepStatus::Running => "running"@,
            ExecutionStepStatus::Succeeded => "succeeded"@,
            ExecutionStepStatus::Skipped => "skipped"@,
            ExecutionStepStatus::Failed => "failed"@,
            ExecutionStepStatus::Aborted => "aborted"@,
        }),
        names::execution_step_status_text(value)@ == (match value {
            ExecutionStepStatus::Pending => "pending"@,
            ExecutionStepStatus::Running => "running"@,
            ExecutionStepStatus::Succeeded => "succeeded"@,
            ExecutionStepStatus::Skipped => "skipped"@,
            ExecutionStepStatus::Failed => "failed"@,
            ExecutionStepStatus::Aborted => "aborted"@,
        }),
{
    names::execution_step_status_round_trip(value, name);
}

/// The states of discoveries stand in their column under fixed words, and no other word is read as one.
pub proof fn discovery_status_words_are_fixed(name: Seq<char>, value: DiscoveryRunStatus)
    ensures
        names::discovery_status_read(name) == Ok::<DiscoveryRunStatus, StorageError>(value) <==> name == (match value {
            DiscoveryRunStatus::Running => "running"@,
            DiscoveryRunStatus::Succeeded => "succeeded"@,
            DiscoveryRunStatus::Failed => "failed"@,
            DiscoveryRunStatus::Aborted => "aborted"@,
        }),
        names::discovery_status_text(value)@ == (match value {
            DiscoveryRunStatus::Running => "running"@,
            DiscoveryRunStatus::Succeeded => "succeeded"@,
            DiscoveryRunStatus::Failed => "failed"@,
            DiscoveryRunStatus::Aborted => "aborted"@,
        }),
{
    names::discovery_status_round_trip(value, name);
}

/// The states of suggestions stand in their column under fixed words, and no other word is read as one.
pub proof fn suggestion_status_words_are_fixed(name: Seq<char>, value: SuggestionStatus)
    ensures
        names::suggestion_status_read(name) == Ok::<SuggestionStatus, StorageError>(value) <==> name == (match value {
            SuggestionStatus::Pending => "pending"@,
            SuggestionStatus::Snoozed => "snoozed"@,
            SuggestionStatus::Dismissed => "dismissed"@,
            SuggestionStatus::Accepted => "accepted"@,
            SuggestionStatus::Blocked => "blocked"@,
        }),
        names::suggestion_status_text(value)@ == (match value {
            SuggestionStatus::Pending => "pending"@,
            SuggestionStatus::Snoozed => "snoozed"@,
            SuggestionStatus::Dismissed => "dismissed"@,
            SuggestionStatus::Accepted => "accepted"@,
            SuggestionStatus::Blocked => "blocked"@,
        }),
{
    names::suggestion_status_round_trip(value, name);
}

/// The first of two errors is the one that is reported.
pub proof fn first_error_is_reported(a: Option<StorageError>, b: Option<StorageError>)
    ensures
        rows::first(a, b) is None <==> a is None && b is None,
        a is Some ==> rows::first(a, b) == a,
        a is None ==> rows::first(a, b) == b,
{
}

/// An event is stored exactly when neither its identifier nor its number at its adapter is
/// taken; then it stands behind the others, which stay as they are.
pub proof fn fresh_events_are_stored(rows: Seq<EventRow>, row: EventRow)
    ensures
        (forall|i: int|
            0 <= i < rows.len() ==> (#[trigger] rows[i]).id@ != row.id@ && !(
            rows[i].adapter_instance_id@ == row.adapter_instance_id@ && rows[i].sequence_no
                == row.sequence_no)) ==> events::stored(rows, row) == Ok::<
            Seq<EventRow>,
            StorageError,
        >(rows.push(row)),
        (exists|i: int|
            0 <= i < rows.len() && ((#[trigger] rows[i]).id@ == row.id@ || (
            rows[i].adapter_instance_id@ == row.adapter_instance_id@ && rows[i].sequence_no
                == row.sequence_no))) ==> events::stored(rows, row) == Err::<
            Seq<EventRow>,
            StorageError,
        >(StorageError::DuplicateEvent),
{
    if exists|i: int|
        0 <= i < rows.len() && ((#[trigger] rows[i]).id@ == row.id@ || (rows[i].adapter_instance_id@
            == row.adapter_instance_id@ && rows[i].sequence_no == row.sequence_no)) {
        let i = choose|i: int|
            0 <= i < rows.len() && ((#[trigger] rows[i]).id@ == row.id@ || (
            rows[i].adapter_instance_id@ == row.adapter_instance_id@ && rows[i].sequence_no
                == row.sequence_no));
        assert(events::clash(rows[i], row));
    }
}

/// Events stand in their columns under fixed words.
pub proof fn event_words_are_fixed(event_type: EventType, actor: Actor, privacy: PrivacyClass)
    ensures
        names::event_type_text(event_type)@ == (match event_type {
            EventType::SyntheticV1 => "dev.fubun.dev.synthetic.v1"@,
            EventType::BrowserResourceOpenedV1 => "dev.fubun.browser.resource.opened.v1"@,
            EventType::VscodeWorkspaceOpenedV1 => "dev.fubun.vscode.workspace.opened.v1"@,
        }),
        names::actor_text(actor)@ == (match actor {
            Actor::User => "user"@,
            Actor::Fubun => "fubun"@,
            Actor::System => "system"@,
            Actor::Imported => "imported"@,
        }),
        names::privacy_text(privacy)@ == (match privacy {
            PrivacyClass::Normal => "normal"@,
            PrivacyClass::Sensitive => "sensitive"@,
        }),
{
}

/// What is there already is told apart by what it is.
pub proof fn conflicts_are_told_apart(record: UniqueRecord)
    ensures
        operations::conflict(record) == StorageError::DuplicateEvent <==> record
            == UniqueRecord::Event,
        operations::conflict(record) == StorageError::DuplicateResource <==> record
            == UniqueRecord::Resource,
        operations::conflict(record) == StorageError::RitualAlreadyRunning <==> record
            == UniqueRecord::ExecutionLock,
{
}

/// Of sessions, an event's row can be read exactly when its columns can, and says what they
/// say.
pub proof fn session_event_rows_are_read_column_by_column(row: rows::SessionEventRow)
    ensures
        rows::session_event_fault(row) is None <==> {
            &&& Uuid::read_as(row.event_id@) is Some
            &&& Uuid::read_as(row.resource_id@) is Some
            &&& Timestamp::read_as(row.received_at@) is Some
        },
        rows::session_event_fault(row) is None ==> {
            let event = rows::session_event_value(row);
            &&& Uuid::read_as(row.event_id@) == Some(event.event_id)
            &&& Uuid::read_as(row.resource_id@) == Some(event.resource_id)
            &&& Timestamp::read_as(row.received_at@) == Some(event.received_at)
            &&& event.ordinal == row.ordinal
            &&& event.is_anchor <==> row.is_anchor != 0
        },
{
}

/// A session can be read exactly when its row and the rows of all of its events can; it says
/// what they say, with its events in their order.
pub proof fn session_rows_are_read_column_by_column(
    session: DiscoveredSession,
    row: rows::SessionRow,
    events: Seq<rows::SessionEventRow>,
)
    ensures
        rows::session_fault(row, events) is None <==> {
            &&& Uuid::read_as(row.id@) is Some
            &&& Uuid::read_as(row.workspace_resource_id@) is Some
            &&& Uuid::read_as(row.anchor_event_id@) is Some
            &&& Timestamp::read_as(row.started_at@) is Some
            &&& may_be_time(row.finished_at)
            &&& forall|i: int|
                0 <= i < events.len() ==> rows::session_event_fault(#[trigger] events[i]) is None
        },
        rows::session_fault(row, events) is None && rows::is_session_of(session, row, events) ==> {
            &&& Uuid::read_as(row.id@) == Some(session.id)
            &&& Uuid::read_as(row.workspace_resource_id@) == Some(session.workspace_resource_id)
            &&& Uuid::read_as(row.anchor_event_id@) == Some(session.anchor_event_id)
            &&& Timestamp::read_as(row.started_at@) == Some(session.started_at)
            &&& session.event_count == row.event_count
            &&& session.eligible == row.eligible
            &&& session.events@.len() == events.len()
            &&& forall|i: int|
                0 <= i < events.len() ==> #[trigger] session.events@[i]
                    == rows::session_event_value(events[i])
        },
{
    events_can_be_read(events, 0);
}

proof fn events_can_be_read(events: Seq<rows::SessionEventRow>, from: int)
    requires
        0 <= from <= events.len(),
    ensures
        rows::session_events_fault(events, from) is None <==> forall|i: int|
            from <= i < events.len() ==> rows::session_event_fault(#[trigger] events[i]) is None,
    decreases events.len() - from,
{
    if from < events.len() {
        events_can_be_read(events, from + 1);
        if rows::session_events_fault(events, from) is None {
            assert forall|i: int| from <= i < events.len() implies rows::session_event_fault(
                #[trigger] events[i],
            ) is None by {
                if i > from {
                    assert(from + 1 <= i);
                }
            }
        } else if rows::session_event_fault(events[from]) is None {
            let i = choose|i: int|
                from + 1 <= i < events.len() && rows::session_event_fault(#[trigger] events[i])
                    is Some;
            assert(from <= i < events.len());
        }
    }
}

proof fn ids_can_be_read(ids: Seq<String>, from: int)
    requires
        0 <= from <= ids.len(),
    ensures
        rows::ids_fault(ids, from) is None <==> forall|i: int|
            from <= i < ids.len() ==> Uuid::read_as((#[trigger] ids[i])@) is Some,
    decreases ids.len() - from,
{
    if from < ids.len() {
        ids_can_be_read(ids, from + 1);
        if rows::ids_fault(ids, from) is None {
            assert forall|i: int| from <= i < ids.len() implies Uuid::read_as(
                (#[trigger] ids[i])@,
            ) is Some by {
                if i > from {
                    assert(from + 1 <= i);
                }
            }
        } else if Uuid::read_as(ids[from]@) is Some {
            let i = choose|i: int|
                from + 1 <= i < ids.len() && Uuid::read_as((#[trigger] ids[i])@) is None;
            assert(from <= i < ids.len());
        }
    }
}

/// A suggestion can be read exactly when its row and all of its identifiers can; it says what
/// they say, with its pages in their order.
pub proof fn suggestion_rows_are_read_column_by_column(
    stored: rows::StoredSuggestion,
    row: rows::SuggestionRow,
    pages: Seq<String>,
    supports: Seq<String>,
)
    ensures
        rows::suggestion_fault(row, pages, supports) is None <==> {
            &&& Uuid::read_as(row.id@) is Some
            &&& Uuid::read_as(row.workspace_resource_id@) is Some
            &&& names::suggestion_status_read(row.status@) is Ok
            &&& Timestamp::read_as(row.first_seen_at@) is Some
            &&& Timestamp::read_as(row.last_seen_at@) is Some
            &&& may_be_time(row.snoozed_until)
            &&& may_be_id(row.accepted_ritual_id)
            &&& forall|i: int|
                0 <= i < pages.len() ==> Uuid::read_as((#[trigger] pages[i])@) is Some
            &&& forall|i: int|
                0 <= i < supports.len() ==> Uuid::read_as((#[trigger] supports[i])@) is Some
        },
        rows::suggestion_fault(row, pages, supports) is None && rows::is_suggestion_of(
            stored,
            row,
            pages,
            supports,
        ) ==> {
            &&& Uuid::read_as(row.id@) == Some(stored.suggestion.id)
            &&& Uuid::read_as(row.workspace_resource_id@) == Some(
                stored.suggestion.workspace_resource_id,
            )
            &&& row.status@ == names::suggestion_status_text(stored.status)@
            &&& stored.suggestion.support_sessions == row.support_sessions
            &&& stored.suggestion.eligible_sessions == row.eligible_sessions
            &&& stored.suggestion.confidence_basis_points == row.confidence_basis_points
            &&& stored.suggestion.observation_span_seconds == row.observation_span_seconds
            &&& stored.suggestion.median_completion_ms == row.median_completion_ms
            &&& stored.suggestion.pattern_fingerprint == row.pattern_fingerprint
            &&& Timestamp::read_as(row.first_seen_at@) == Some(stored.suggestion.first_seen_at)
            &&& Timestamp::read_as(row.last_seen_at@) == Some(stored.suggestion.last_seen_at)
            &&& stored.suggestion.action_resource_ids@.len() == pages.len()
            &&& forall|i: int|
                0 <= i < pages.len() ==> Some(#[trigger] stored.suggestion.action_resource_ids@[i])
                    == Uuid::read_as(pages[i]@)
            &&& stored.suggestion.supporting_session_ids@.len() == supports.len()
            &&& forall|i: int|
                0 <= i < supports.len() ==> Some(
                    #[trigger] stored.suggestion.supporting_session_ids@[i],
                ) == Uuid::read_as(supports[i]@)
        },
{
    ids_can_be_read(pages, 0);
    ids_can_be_read(supports, 0);
    if rows::suggestion_fault(row, pages, supports) is None && rows::is_suggestion_of(
        stored,
        row,
        pages,
        supports,
    ) {
        names::suggestion_status_round_trip(stored.status, row.status@);
        assert forall|i: int| 0 <= i < pages.len() implies Some(
            #[trigger] stored.suggestion.action_resource_ids@[i],
        ) == Uuid::read_as(pages[i]@) by {
            assert(Uuid::read_as(pages[i]@) is Some);
        }
        assert forall|i: int| 0 <= i < supports.len() implies Some(
            #[trigger] stored.suggestion.supporting_session_ids@[i],
        ) == Uuid::read_as(supports[i]@) by {
            assert(Uuid::read_as(supports[i]@) is Some);
        }
    }
}

/// Whether a time is missing or can be written.
pub open spec fn may_be_written(time: Option<Timestamp>) -> bool {
    time is None || time->0.written() is Some
}

/// What a record says besides its times never keeps it from being stored: it can be stored
/// exactly when each of its times can be written, and a time that is missing can.
pub proof fn records_with_written_times_are_stored(
    resource: Resource,
    ritual: Ritual,
    version: RitualVersion,
    approval: Approval,
    execution: Execution,
    step: ExecutionStep,
    scope: ObservationScope,
    run: DiscoveryRun,
)
    ensures
        rows::resource_storable(resource) <==> resource.created_at.written() is Some,
        rows::ritual_storable(ritual) <==> ritual.created_at.written() is Some
            && ritual.updated_at.written() is Some,
        rows::ritual_version_storable(version) <==> version.created_at.written() is Some,
        rows::approval_storable(approval) <==> approval.approved_at.written() is Some,
        rows::execution_storable(execution) <==> execution.started_at.written() is Some
            && execution.created_at.written() is Some && may_be_written(execution.finished_at),
        rows::execution_step_storable(step) <==> step.started_at.written() is Some
            && may_be_written(step.finished_at),
        rows::observation_scope_storable(scope) <==> scope.created_at.written() is Some
            && scope.updated_at.written() is Some,
        rows::discovery_run_storable(run) <==> run.started_at.written() is Some
            && may_be_written(run.finished_at),
{
}

/// An event that is valid can be stored whenever its times can be written, and a sequence
/// number is refused only where no column could hold it.
pub proof fn valid_events_can_be_stored(event: Event)
    ensures
        event.check() is Ok && event.occurred_at.written() is Some
            && event.received_at.written() is Some ==> events::event_row_fault(event) is None,
        events::event_row_fault(event) is None ==> event.occurred_at.written() is Some
            && event.received_at.written() is Some,
        events::event_row_fault(event) matches Some(StorageError::Validation(_))
            ==> event.adapter.sequence_no >= 0x8000_0000_0000_0000,
        event.adapter.sequence_no >= 0x8000_0000_0000_0000 ==> events::event_row_fault(event)
            is Some,
        event.occurred_at.written() is None ==> events::event_row_fault(event) == Some(
            StorageError::Time,
        ),
        event.received_at.written() is None ==> events::event_row_fault(event) == Some(
            StorageError::Time,
        ),
{
}

} // verus!
