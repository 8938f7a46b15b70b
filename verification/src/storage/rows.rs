//! Reading records from stored rows.

use vstd::prelude::*;
use crate::clock::Timestamp;
use crate::execution::{Execution, ExecutionStep};
use crate::ids::{id_text, Uuid};
use crate::mining::evidence::DiscoveredSuggestion;
use crate::mining::{DiscoveredSession, DiscoveryRun, SessionEvent, SuggestionStatus};
use crate::resource::{ObservationScope, Resource};
use crate::ritual::{Approval, Ritual, RitualVersion};
use crate::storage::names;
use crate::storage::StorageError;

verus! {

/// The error of a reading that failed.
pub open spec fn fault<T>(r: Result<T, StorageError>) -> Option<StorageError> {
    match r {
        Ok(_) => None,
        Err(error) => Some(error),
    }
}

/// The first of two faults, if there is any.
pub open spec fn first(a: Option<StorageError>, b: Option<StorageError>) -> Option<StorageError> {
    if a is Some {
        a
    } else {
        b
    }
}

/// What a reading gives: the first fault, or else the value.
pub open spec fn outcome<T>(fault: Option<StorageError>, value: T) -> Result<T, StorageError> {
    match fault {
        Some(error) => Err(error),
        None => Ok(value),
    }
}

pub open spec fn uuid_read(value: Seq<char>) -> Result<Uuid, StorageError> {
    match Uuid::read_as(value) {
        Some(id) => Ok(id),
        None => Err(StorageError::InvalidData("invalid UUID")),
    }
}

pub fn parse_uuid(value: &str) -> (r: Result<Uuid, StorageError>)
    ensures
        r == uuid_read(value@),
{
    match Uuid::parse(value) {
        Some(id) => Ok(id),
        None => Err(StorageError::InvalidData("invalid UUID")),
    }
}

pub open spec fn time_read(value: Seq<char>) -> Result<Timestamp, StorageError> {
    match Timestamp::read_as(value) {
        Some(time) => Ok(time),
        None => Err(StorageError::TimeParse),
    }
}

pub fn parse_ts(value: &str) -> (r: Result<Timestamp, StorageError>)
    ensures
        r == time_read(value@),
{
    match Timestamp::parse(value) {
        Some(time) => Ok(time),
        None => Err(StorageError::TimeParse),
    }
}

pub fn format_ts(value: Timestamp) -> (r: Result<String, StorageError>)
    ensures
        match r {
            Ok(text) => value.written() == Some(text@) && time_read(text@) == Ok::<
                Timestamp,
                StorageError,
            >(value),
            Err(error) => value.written() is None && error == StorageError::Time,
        },
{
    match value.format() {
        Some(text) => Ok(text),
        None => Err(StorageError::Time),
    }
}

pub open spec fn optional_uuid_read(value: Option<String>) -> Result<Option<Uuid>, StorageError> {
    match value {
        None => Ok(None),
        Some(text) => match uuid_read(text@) {
            Ok(id) => Ok(Some(id)),
            Err(error) => Err(error),
        },
    }
}

fn parse_optional_uuid(value: &Option<String>) -> (r: Result<Option<Uuid>, StorageError>)
    ensures
        r == optional_uuid_read(*value),
{
    match value {
        None => Ok(None),
        Some(text) => match parse_uuid(text.as_str()) {
            Ok(id) => Ok(Some(id)),
            Err(error) => Err(error),
        },
    }
}

pub open spec fn optional_time_read(value: Option<String>) -> Result<
    Option<Timestamp>,
    StorageError,
> {
    match value {
        None => Ok(None),
        Some(text) => match time_read(text@) {
            Ok(time) => Ok(Some(time)),
            Err(error) => Err(error),
        },
    }
}

fn parse_optional_ts(value: &Option<String>) -> (r: Result<Option<Timestamp>, StorageError>)
    ensures
        r == optional_time_read(*value),
{
    match value {
        None => Ok(None),
        Some(text) => match parse_ts(text.as_str()) {
            Ok(time) => Ok(Some(time)),
            Err(error) => Err(error),
        },
    }
}

/// Whether a column holds an identifier in its one spelling, or nothing for none.
pub open spec fn is_id_column(column: Option<String>, id: Option<Uuid>) -> bool {
    match (column, id) {
        (None, None) => true,
        (Some(text), Some(id)) => text@ == id_text(id.value),
        _ => false,
    }
}

fn format_optional_uuid(value: &Option<Uuid>) -> (text: Option<String>)
    ensures
        optional_uuid_read(text) == Ok::<Option<Uuid>, StorageError>(*value),
        is_id_column(text, *value),
{
    match value {
        None => None,
        Some(id) => Some(id.to_text()),
    }
}

/// Whether a time has a text to be stored as.
pub open spec fn writable(value: Timestamp) -> bool {
    value.written() is Some
}

pub open spec fn optionally_writable(value: Option<Timestamp>) -> bool {
    value is None || writable(value->0)
}

/// Whether a column holds a time as it is written, or nothing for none.
pub open spec fn is_time_column(column: Option<String>, time: Option<Timestamp>) -> bool {
    match (column, time) {
        (None, None) => true,
        (Some(text), Some(time)) => Some(text@) == time.written(),
        _ => false,
    }
}

fn format_optional_ts(value: Option<Timestamp>) -> (r: Result<Option<String>, StorageError>)
    ensures
        match r {
            Ok(text) => optionally_writable(value) && is_time_column(text, value)
                && optional_time_read(text) == Ok::<Option<Timestamp>, StorageError>(value),
            Err(error) => !optionally_writable(value) && error == StorageError::Time,
        },
{
    match value {
        None => Ok(None),
        Some(time) => match format_ts(time) {
            Ok(text) => Ok(Some(text)),
            Err(error) => Err(error),
        },
    }
}

/// A number that fits into 32 bits without a sign.
pub open spec fn index_read(value: i64, what: &'static str) -> Result<u32, StorageError> {
    if 0 <= value <= u32::MAX {
        Ok(value as u32)
    } else {
        Err(StorageError::InvalidData(what))
    }
}

fn parse_index(value: i64, what: &'static str) -> (r: Result<u32, StorageError>)
    ensures
        r == index_read(value, what),
{
    if 0 <= value && value <= u32::MAX as i64 {
        Ok(value as u32)
    } else {
        Err(StorageError::InvalidData(what))
    }
}

/// A row of the resources table.
pub struct ResourceRow {
    pub id: String,
    pub kind: String,
    pub label: String,
    pub locator: String,
    pub canonical_locator: String,
    pub sensitivity: String,
    pub scope: String,
    pub created_at: String,
    pub updated_at: String,
}

/// The first column that cannot be read.
pub open spec fn resource_fault(row: ResourceRow) -> Option<StorageError> {
    first(
        fault(uuid_read(row.id@)),
        first(
        fault(names::resource_kind_read(row.kind@)),
        first(
        fault(names::sensitivity_read(row.sensitivity@)),
        first(
        fault(names::resource_scope_read(row.scope@)),
        first(
        fault(time_read(row.created_at@)),
        fault(time_read(row.updated_at@)),
    ),
    ),
    ),
    ),
    )
}

pub open spec fn resource_value(row: ResourceRow) -> Resource {
    Resource {
        id: uuid_read(row.id@)->Ok_0,
        kind: names::resource_kind_read(row.kind@)->Ok_0,
        label: row.label,
        locator: row.locator,
        canonical_locator: row.canonical_locator,
        sensitivity: names::sensitivity_read(row.sensitivity@)->Ok_0,
        scope: names::resource_scope_read(row.scope@)->Ok_0,
        created_at: time_read(row.created_at@)->Ok_0,
        updated_at: time_read(row.updated_at@)->Ok_0,
    }
}

pub fn resource_from_row(row: ResourceRow) -> (r: Result<Resource, StorageError>)
    ensures
        r == outcome(resource_fault(row), resource_value(row)),
{
    let id = match parse_uuid(row.id.as_str()) {
        Ok(value) => value,
        Err(error) => return Err(error),
    };
    let kind = match names::parse_resource_kind(row.kind.as_str()) {
        Ok(value) => value,
        Err(error) => return Err(error),
    };
    let sensitivity = match names::parse_sensitivity(row.sensitivity.as_str()) {
        Ok(value) => value,
        Err(error) => return Err(error),
    };
    let scope = match names::parse_resource_scope(row.scope.as_str()) {
        Ok(value) => value,
        Err(error) => return Err(error),
    };
    let created_at = match parse_ts(row.created_at.as_str()) {
        Ok(value) => value,
        Err(error) => return Err(error),
    };
    let updated_at = match parse_ts(row.updated_at.as_str()) {
        Ok(value) => value,
        Err(error) => return Err(error),
    };
    Ok(
        Resource {
            id,
            kind,
            label: row.label,
            locator: row.locator,
            canonical_locator: row.canonical_locator,
            sensitivity,
            scope,
            created_at,
            updated_at,
        },
    )
}

/// A row of the rituals table.
pub struct RitualRow {
    pub id: String,
    pub name: String,
    pub status: String,
    pub current_version_id: String,
    pub created_at: String,
    pub updated_at: String,
}

/// The first column that cannot be read.
pub open spec fn ritual_fault(row: RitualRow) -> Option<StorageError> {
    first(
        fault(uuid_read(row.id@)),
        first(
        fault(names::ritual_status_read(row.status@)),
        first(
        fault(uuid_read(row.current_version_id@)),
        first(
        fault(time_read(row.created_at@)),
        fault(time_read(row.updated_at@)),
    ),
    ),
    ),
    )
}

pub open spec fn ritual_value(row: RitualRow) -> Ritual {
    Ritual {
        id: uuid_read(row.id@)->Ok_0,
        name: row.name,
        status: names::ritual_status_read(row.status@)->Ok_0,
        current_version_id: uuid_read(row.current_version_id@)->Ok_0,
        created_at: time_read(row.created_at@)->Ok_0,
        updated_at: time_read(row.updated_at@)->Ok_0,
    }
}

pub fn ritual_from_row(row: RitualRow) -> (r: Result<Ritual, StorageError>)
    ensures
        r == outcome(ritual_fault(row), ritual_value(row)),
{
    let id = match parse_uuid(row.id.as_str()) {
        Ok(value) => value,
        Err(error) => return Err(error),
    };
    let status = match names::parse_ritual_status(row.status.as_str()) {
        Ok(value) => value,
        Err(error) => return Err(error),
    };
    let current_version_id = match parse_uuid(row.current_version_id.as_str()) {
        Ok(value) => value,
        Err(error) => return Err(error),
    };
    let created_at = match parse_ts(row.created_at.as_str()) {
        Ok(value) => value,
        Err(error) => return Err(error),
    };
    let updated_at = match parse_ts(row.updated_at.as_str()) {
        Ok(value) => value,
        Err(error) => return Err(error),
    };
    Ok(
        Ritual {
            id,
            name: row.name,
            status,
            current_version_id,
            created_at,
            updated_at,
        },
    )
}

/// A row of the ritual versions table.
pub struct RitualVersionRow {
    pub id: String,
    pub ritual_id: String,
    pub version: i64,
    pub schema_version: String,
    pub canonical_json: String,
    pub content_hash: String,
    pub created_at: String,
}

/// The first column that cannot be read.
pub open spec fn ritual_version_fault(row: RitualVersionRow) -> Option<StorageError> {
    first(
        fault(uuid_read(row.id@)),
        first(
        fault(uuid_read(row.ritual_id@)),
        first(
        fault(index_read(row.version, "version")),
        fault(time_read(row.created_at@)),
    ),
    ),
    )
}

pub open spec fn ritual_version_value(row: RitualVersionRow) -> RitualVersion {
    RitualVersion {
        id: uuid_read(row.id@)->Ok_0,
        ritual_id: uuid_read(row.ritual_id@)->Ok_0,
        version: index_read(row.version, "version")->Ok_0,
        schema_version: row.schema_version,
        canonical_json: row.canonical_json,
        content_hash: row.content_hash,
        created_at: time_read(row.created_at@)->Ok_0,
    }
}

pub fn ritual_version_from_row(row: RitualVersionRow) -> (r: Result<RitualVersion, StorageError>)
    ensures
        r == outcome(ritual_version_fault(row), ritual_version_value(row)),
{
    let id = match parse_uuid(row.id.as_str()) {
        Ok(value) => value,
        Err(error) => return Err(error),
    };
    let ritual_id = match parse_uuid(row.ritual_id.as_str()) {
        Ok(value) => value,
        Err(error) => return Err(error),
    };
    let version = match parse_index(row.version, "version") {
        Ok(value) => value,
        Err(error) => return Err(error),
    };
    let created_at = match parse_ts(row.created_at.as_str()) {
        Ok(value) => value,
        Err(error) => return Err(error),
    };
    Ok(
        RitualVersion {
            id,
            ritual_id,
            version,
            schema_version: row.schema_version,
            canonical_json: row.canonical_json,
            content_hash: row.content_hash,
            created_at,
        },
    )
}

/// A row of the approvals table.
pub struct ApprovalRow {
    pub id: String,
    pub ritual_version_id: String,
    pub action_type: String,
    pub capability: String,
    pub resource_id: Option<String>,
    pub app_id: Option<String>,
    pub content_hash: String,
    pub approved_at: String,
}

/// The first column that cannot be read.
pub open spec fn approval_fault(row: ApprovalRow) -> Option<StorageError> {
    first(
        fault(uuid_read(row.id@)),
        first(
        fault(uuid_read(row.ritual_version_id@)),
        first(
        fault(optional_uuid_read(row.resource_id)),
        fault(time_read(row.approved_at@)),
    ),
    ),
    )
}

pub open spec fn approval_value(row: ApprovalRow) -> Approval {
    Approval {
        id: uuid_read(row.id@)->Ok_0,
        ritual_version_id: uuid_read(row.ritual_version_id@)->Ok_0,
        action_type: row.action_type,
        capability: row.capability,
        resource_id: optional_uuid_read(row.resource_id)->Ok_0,
        app_id: row.app_id,
        content_hash: row.content_hash,
        approved_at: time_read(row.approved_at@)->Ok_0,
    }
}

pub fn approval_from_row(row: ApprovalRow) -> (r: Result<Approval, StorageError>)
    ensures
        r == outcome(approval_fault(row), approval_value(row)),
{
    let id = match parse_uuid(row.id.as_str()) {
        Ok(value) => value,
        Err(error) => return Err(error),
    };
    let ritual_version_id = match parse_uuid(row.ritual_version_id.as_str()) {
        Ok(value) => value,
        Err(error) => return Err(error),
    };
    let resource_id = match parse_optional_uuid(&row.resource_id) {
        Ok(value) => value,
        Err(error) => return Err(error),
    };
    let approved_at = match parse_ts(row.approved_at.as_str()) {
        Ok(value) => value,
        Err(error) => return Err(error),
    };
    Ok(
        Approval {
            id,
            ritual_version_id,
            action_type: row.action_type,
            capability: row.capability,
            resource_id,
            app_id: row.app_id,
            content_hash: row.content_hash,
            approved_at,
        },
    )
}

/// A row of the executions table.
pub struct ExecutionRow {
    pub id: String,
    pub ritual_id: String,
    pub ritual_version_id: String,
    pub status: String,
    pub trigger_kind: String,
    pub started_at: String,
    pub finished_at: Option<String>,
    pub failure_code: Option<String>,
    pub created_at: String,
}

/// The first column that cannot be read.
pub open spec fn execution_fault(row: ExecutionRow) -> Option<StorageError> {
    first(
        fault(uuid_read(row.id@)),
        first(
        fault(uuid_read(row.ritual_id@)),
        first(
        fault(uuid_read(row.ritual_version_id@)),
        first(
        fault(names::execution_status_read(row.status@)),
        first(
        fault(names::trigger_kind_read(row.trigger_kind@)),
        first(
        fault(time_read(row.started_at@)),
        first(
        fault(optional_time_read(row.finished_at)),
        fault(time_read(row.created_at@)),
    ),
    ),
    ),
    ),
    ),
    ),
    )
}

pub open spec fn execution_value(row: ExecutionRow) -> Execution {
    Execution {
        id: uuid_read(row.id@)->Ok_0,
        ritual_id: uuid_read(row.ritual_id@)->Ok_0,
        ritual_version_id: uuid_read(row.ritual_version_id@)->Ok_0,
        status: names::execution_status_read(row.status@)->Ok_0,
        trigger_kind: names::trigger_kind_read(row.trigger_kind@)->Ok_0,
        started_at: time_read(row.started_at@)->Ok_0,
        finished_at: optional_time_read(row.finished_at)->Ok_0,
        failure_code: row.failure_code,
        created_at: time_read(row.created_at@)->Ok_0,
    }
}

pub fn execution_from_row(row: ExecutionRow) -> (r: Result<Execution, StorageError>)
    ensures
        r == outcome(execution_fault(row), execution_value(row)),
{
    let id = match parse_uuid(row.id.as_str()) {
        Ok(value) => value,
        Err(error) => return Err(error),
    };
    let ritual_id = match parse_uuid(row.ritual_id.as_str()) {
        Ok(value) => value,
        Err(error) => return Err(error),
    };
    let ritual_version_id = match parse_uuid(row.ritual_version_id.as_str()) {
        Ok(value) => value,
        Err(error) => return Err(error),
    };
    let status = match names::parse_execution_status(row.status.as_str()) {
        Ok(value) => value,
        Err(error) => return Err(error),
    };
    let trigger_kind = match names::parse_trigger_kind(row.trigger_kind.as_str()) {
        Ok(value) => value,
        Err(error) => return Err(error),
    };
    let started_at = match parse_ts(row.started_at.as_str()) {
        Ok(value) => value,
        Err(error) => return Err(error),
    };
    let finished_at = match parse_optional_ts(&row.finished_at) {
        Ok(value) => value,
        Err(error) => return Err(error),
    };
    let created_at = match parse_ts(row.created_at.as_str()) {
        Ok(value) => value,
        Err(error) => return Err(error),
    };
    Ok(
        Execution {
            id,
            ritual_id,
            ritual_version_id,
            status,
            trigger_kind,
            started_at,
            finished_at,
            failure_code: row.failure_code,
            created_at,
        },
    )
}

/// A row of the execution steps table.
pub struct ExecutionStepRow {
    pub id: String,
    pub execution_id: String,
    pub step_index: i64,
    pub action_type: String,
    pub status: String,
    pub adapter_id: Option<String>,
    pub adapter_instance_id: Option<String>,
    pub started_at: String,
    pub finished_at: Option<String>,
    pub result_code: Option<String>,
    pub redacted_message: Option<String>,
}

/// The first column that cannot be read.
pub open spec fn execution_step_fault(row: ExecutionStepRow) -> Option<StorageError> {
    first(
        fault(uuid_read(row.id@)),
        first(
        fault(uuid_read(row.execution_id@)),
        first(
        fault(index_read(row.step_index, "step index")),
        first(
        fault(names::execution_step_status_read(row.status@)),
        first(
        fault(optional_uuid_read(row.adapter_instance_id)),
        first(
        fault(time_read(row.started_at@)),
        fault(optional_time_read(row.finished_at)),
    ),
    ),
    ),
    ),
    ),
    )
}

pub open spec fn execution_step_value(row: ExecutionStepRow) -> ExecutionStep {
    ExecutionStep {
        id: uuid_read(row.id@)->Ok_0,
        execution_id: uuid_read(row.execution_id@)->Ok_0,
        step_index: index_read(row.step_index, "step index")->Ok_0,
        action_type: row.action_type,
        status: names::execution_step_status_read(row.status@)->Ok_0,
        adapter_id: row.adapter_id,
        adapter_instance_id: optional_uuid_read(row.adapter_instance_id)->Ok_0,
        started_at: time_read(row.started_at@)->Ok_0,
        finished_at: optional_time_read(row.finished_at)->Ok_0,
        result_code: row.result_code,
        redacted_message: row.redacted_message,
    }
}

pub fn execution_step_from_row(row: ExecutionStepRow) -> (r: Result<ExecutionStep, StorageError>)
    ensures
        r == outcome(execution_step_fault(row), execution_step_value(row)),
{
    let id = match parse_uuid(row.id.as_str()) {
        Ok(value) => value,
        Err(error) => return Err(error),
    };
    let execution_id = match parse_uuid(row.execution_id.as_str()) {
        Ok(value) => value,
        Err(error) => return Err(error),
    };
    let step_index = match parse_index(row.step_index, "step index") {
        Ok(value) => value,
        Err(error) => return Err(error),
    };
    let status = match names::parse_execution_step_status(row.status.as_str()) {
        Ok(value) => value,
        Err(error) => return Err(error),
    };
    let adapter_instance_id = match parse_optional_uuid(&row.adapter_instance_id) {
        Ok(value) => value,
        Err(error) => return Err(error),
    };
    let started_at = match parse_ts(row.started_at.as_str()) {
        Ok(value) => value,
        Err(error) => return Err(error),
    };
    let finished_at = match parse_optional_ts(&row.finished_at) {
        Ok(value) => value,
        Err(error) => return Err(error),
    };
    Ok(
        ExecutionStep {
            id,
            execution_id,
            step_index,
            action_type: row.action_type,
            status,
            adapter_id: row.adapter_id,
            adapter_instance_id,
            started_at,
            finished_at,
            result_code: row.result_code,
            redacted_message: row.redacted_message,
        },
    )
}

/// A row of the observation scopes table.
pub struct ObservationScopeRow {
    pub id: String,
    pub source: String,
    pub resource_id: String,
    pub status: String,
    pub created_at: String,
    pub updated_at: String,
}

/// The first column that cannot be read.
pub open spec fn observation_scope_fault(row: ObservationScopeRow) -> Option<StorageError> {
    first(
        fault(uuid_read(row.id@)),
        first(
        fault(names::observation_source_read(row.source@)),
        first(
        fault(uuid_read(row.resource_id@)),
        first(
        fault(names::observation_status_read(row.status@)),
        first(
        fault(time_read(row.created_at@)),
        fault(time_read(row.updated_at@)),
    ),
    ),
    ),
    ),
    )
}

pub open spec fn observation_scope_value(row: ObservationScopeRow) -> ObservationScope {
    ObservationScope {
        id: uuid_read(row.id@)->Ok_0,
        source: names::observation_source_read(row.source@)->Ok_0,
        resource_id: uuid_read(row.resource_id@)->Ok_0,
        status: names::observation_status_read(row.status@)->Ok_0,
        created_at: time_read(row.created_at@)->Ok_0,
        updated_at: time_read(row.updated_at@)->Ok_0,
    }
}

pub fn observation_scope_from_row(row: ObservationScopeRow) -> (r: Result<ObservationScope, StorageError>)
    ensures
        r == outcome(observation_scope_fault(row), observation_scope_value(row)),
{
    let id = match parse_uuid(row.id.as_str()) {
        Ok(value) => value,
        Err(error) => return Err(error),
    };
    let source = match names::parse_observation_source(row.source.as_str()) {
        Ok(value) => value,
        Err(error) => return Err(error),
    };
    let resource_id = match parse_uuid(row.resource_id.as_str()) {
        Ok(value) => value,
        Err(error) => return Err(error),
    };
    let status = match names::parse_observation_status(row.status.as_str()) {
        Ok(value) => value,
        Err(error) => return Err(error),
    };
    let created_at = match parse_ts(row.created_at.as_str()) {
        Ok(value) => value,
        Err(error) => return Err(error),
    };
    let updated_at = match parse_ts(row.updated_at.as_str()) {
        Ok(value) => value,
        Err(error) => return Err(error),
    };
    Ok(
        ObservationScope {
            id,
            source,
            resource_id,
            status,
            created_at,
            updated_at,
        },
    )
}

/// A row of the discovery runs table.
pub struct DiscoveryRunRow {
    pub id: String,
    pub algorithm_version: String,
    pub status: String,
    pub started_at: String,
    pub finished_at: Option<String>,
    pub input_event_count: u32,
    pub sessions_upserted: u32,
    pub candidates_evaluated: u32,
    pub suggestions_created: u32,
    pub failure_code: Option<String>,
}

/// The first column that cannot be read.
pub open spec fn discovery_run_fault(row: DiscoveryRunRow) -> Option<StorageError> {
    first(
        fault(uuid_read(row.id@)),
        first(
        fault(names::discovery_status_read(row.status@)),
        first(
        fault(time_read(row.started_at@)),
        fault(optional_time_read(row.finished_at)),
    ),
    ),
    )
}

pub open spec fn discovery_run_value(row: DiscoveryRunRow) -> DiscoveryRun {
    DiscoveryRun {
        id: uuid_read(row.id@)->Ok_0,
        algorithm_version: row.algorithm_version,
        status: names::discovery_status_read(row.status@)->Ok_0,
        started_at: time_read(row.started_at@)->Ok_0,
        finished_at: optional_time_read(row.finished_at)->Ok_0,
        input_event_count: row.input_event_count,
        sessions_upserted: row.sessions_upserted,
        candidates_evaluated: row.candidates_evaluated,
        suggestions_created: row.suggestions_created,
        failure_code: row.failure_code,
    }
}

pub fn discovery_run_from_row(row: DiscoveryRunRow) -> (r: Result<DiscoveryRun, StorageError>)
    ensures
        r == outcome(discovery_run_fault(row), discovery_run_value(row)),
{
    let id = match parse_uuid(row.id.as_str()) {
        Ok(value) => value,
        Err(error) => return Err(error),
    };
    let status = match names::parse_discovery_status(row.status.as_str()) {
        Ok(value) => value,
        Err(error) => return Err(error),
    };
    let started_at = match parse_ts(row.started_at.as_str()) {
        Ok(value) => value,
        Err(error) => return Err(error),
    };
    let finished_at = match parse_optional_ts(&row.finished_at) {
        Ok(value) => value,
        Err(error) => return Err(error),
    };
    Ok(
        DiscoveryRun {
            id,
            algorithm_version: row.algorithm_version,
            status,
            started_at,
            finished_at,
            input_event_count: row.input_event_count,
            sessions_upserted: row.sessions_upserted,
            candidates_evaluated: row.candidates_evaluated,
            suggestions_created: row.suggestions_created,
            failure_code: row.failure_code,
        },
    )
}

/// Whether every time of the record can be stored.
pub open spec fn resource_storable(record: Resource) -> bool {
    writable(record.created_at)
}

/// The columns of a record, each in the one text that it is stored as.
pub open spec fn is_resource_row(row: ResourceRow, record: Resource) -> bool {
    &&& row.id@ == id_text(record.id.value)
    &&& row.kind@ == names::resource_kind_text(record.kind)@
    &&& row.label == record.label
    &&& row.locator == record.locator
    &&& row.canonical_locator == record.canonical_locator
    &&& row.sensitivity@ == names::sensitivity_text(record.sensitivity)@
    &&& row.scope@ == names::resource_scope_text(record.scope)@
    &&& Some(row.created_at@) == record.created_at.written()
    &&& Some(row.updated_at@) == record.created_at.written()
}

/// The row to store a record in, which reads back as the record. A new resource was last
/// updated when it was created.
pub fn resource_row(record: &Resource) -> (r: Result<ResourceRow, StorageError>)
    ensures
        r is Ok <==> resource_storable(*record),
        r is Err ==> r->Err_0 == StorageError::Time,
        r is Ok ==> resource_fault(r->Ok_0) is None && resource_value(r->Ok_0) == (Resource { updated_at: record.created_at, ..*record }),
        r is Ok ==> is_resource_row(r->Ok_0, *record),
{
    let created_at = match format_ts(record.created_at) {
        Ok(text) => text,
        Err(error) => return Err(error),
    };
    let updated_at = match format_ts(record.created_at) {
        Ok(text) => text,
        Err(error) => return Err(error),
    };
    proof {
        names::resource_kind_round_trip(record.kind, names::resource_kind_text(record.kind)@);
        names::sensitivity_round_trip(record.sensitivity, names::sensitivity_text(record.sensitivity)@);
        names::resource_scope_round_trip(record.scope, names::resource_scope_text(record.scope)@);
    }
    Ok(
        ResourceRow {
            id: record.id.to_text(),
            kind: names::resource_kind_name(record.kind).to_owned(),
            label: record.label.clone(),
            locator: record.locator.clone(),
            canonical_locator: record.canonical_locator.clone(),
            sensitivity: names::sensitivity_name(record.sensitivity).to_owned(),
            scope: names::resource_scope_name(record.scope).to_owned(),
            created_at,
            updated_at,
        },
    )
}

/// Whether every time of the record can be stored.
pub open spec fn ritual_storable(record: Ritual) -> bool {
    writable(record.created_at) && writable(record.updated_at)
}

/// The columns of a record, each in the one text that it is stored as.
pub open spec fn is_ritual_row(row: RitualRow, record: Ritual) -> bool {
    &&& row.id@ == id_text(record.id.value)
    &&& row.name == record.name
    &&& row.status@ == names::ritual_status_text(record.status)@
    &&& row.current_version_id@ == id_text(record.current_version_id.value)
    &&& Some(row.created_at@) == record.created_at.written()
    &&& Some(row.updated_at@) == record.updated_at.written()
}

/// The row to store a record in, which reads back as the record.
pub fn ritual_row(record: &Ritual) -> (r: Result<RitualRow, StorageError>)
    ensures
        r is Ok <==> ritual_storable(*record),
        r is Err ==> r->Err_0 == StorageError::Time,
        r is Ok ==> ritual_fault(r->Ok_0) is None && ritual_value(r->Ok_0) == *record,
        r is Ok ==> is_ritual_row(r->Ok_0, *record),
{
    let created_at = match format_ts(record.created_at) {
        Ok(text) => text,
        Err(error) => return Err(error),
    };
    let updated_at = match format_ts(record.updated_at) {
        Ok(text) => text,
        Err(error) => return Err(error),
    };
    proof {
        names::ritual_status_round_trip(record.status, names::ritual_status_text(record.status)@);
    }
    Ok(
        RitualRow {
            id: record.id.to_text(),
            name: record.name.clone(),
            status: names::ritual_status_name(record.status).to_owned(),
            current_version_id: record.current_version_id.to_text(),
            created_at,
            updated_at,
        },
    )
}

/// Whether every time of the record can be stored.
pub open spec fn ritual_version_storable(record: RitualVersion) -> bool {
    writable(record.created_at)
}

/// The columns of a record, each in the one text that it is stored as.
pub open spec fn is_ritual_version_row(row: RitualVersionRow, record: RitualVersion) -> bool {
    &&& row.id@ == id_text(record.id.value)
    &&& row.ritual_id@ == id_text(record.ritual_id.value)
    &&& row.version == record.version
    &&& row.schema_version == record.schema_version
    &&& row.canonical_json == record.canonical_json
    &&& row.content_hash == record.content_hash
    &&& Some(row.created_at@) == record.created_at.written()
}

/// The row to store a record in, which reads back as the record.
pub fn ritual_version_row(record: &RitualVersion) -> (r: Result<RitualVersionRow, StorageError>)
    ensures
        r is Ok <==> ritual_version_storable(*record),
        r is Err ==> r->Err_0 == StorageError::Time,
        r is Ok ==> ritual_version_fault(r->Ok_0) is None && ritual_version_value(r->Ok_0) == *record,
        r is Ok ==> is_ritual_version_row(r->Ok_0, *record),
{
    let created_at = match format_ts(record.created_at) {
        Ok(text) => text,
        Err(error) => return Err(error),
    };
    Ok(
        RitualVersionRow {
            id: record.id.to_text(),
            ritual_id: record.ritual_id.to_text(),
            version: record.version as i64,
            schema_version: record.schema_version.clone(),
            canonical_json: record.canonical_json.clone(),
            content_hash: record.content_hash.clone(),
            created_at,
        },
    )
}

/// Whether every time of the record can be stored.
pub open spec fn approval_storable(record: Approval) -> bool {
    writable(record.approved_at)
}

/// The columns of a record, each in the one text that it is stored as.
pub open spec fn is_approval_row(row: ApprovalRow, record: Approval) -> bool {
    &&& row.id@ == id_text(record.id.value)
    &&& row.ritual_version_id@ == id_text(record.ritual_version_id.value)
    &&& row.action_type == record.action_type
    &&& row.capability == record.capability
    &&& is_id_column(row.resource_id, record.resource_id)
    &&& row.app_id == record.app_id
    &&& row.content_hash == record.content_hash
    &&& Some(row.approved_at@) == record.approved_at.written()
}

/// The row to store a record in, which reads back as the record.
pub fn approval_row(record: &Approval) -> (r: Result<ApprovalRow, StorageError>)
    ensures
        r is Ok <==> approval_storable(*record),
        r is Err ==> r->Err_0 == StorageError::Time,
        r is Ok ==> approval_fault(r->Ok_0) is None && approval_value(r->Ok_0) == *record,
        r is Ok ==> is_approval_row(r->Ok_0, *record),
{
    let approved_at = match format_ts(record.approved_at) {
        Ok(text) => text,
        Err(error) => return Err(error),
    };
    Ok(
        ApprovalRow {
            id: record.id.to_text(),
            ritual_version_id: record.ritual_version_id.to_text(),
            action_type: record.action_type.clone(),
            capability: record.capability.clone(),
            resource_id: format_optional_uuid(&record.resource_id),
            app_id: record.app_id.clone(),
            content_hash: record.content_hash.clone(),
            approved_at,
        },
    )
}

/// Whether every time of the record can be stored.
pub open spec fn execution_storable(record: Execution) -> bool {
    writable(record.started_at) && writable(record.created_at) && optionally_writable(record.finished_at)
}

/// The columns of a record, each in the one text that it is stored as.
pub open spec fn is_execution_row(row: ExecutionRow, record: Execution) -> bool {
    &&& row.id@ == id_text(record.id.value)
    &&& row.ritual_id@ == id_text(record.ritual_id.value)
    &&& row.ritual_version_id@ == id_text(record.ritual_version_id.value)
    &&& row.status@ == names::execution_status_text(record.status)@
    &&& row.trigger_kind@ == names::trigger_kind_text(record.trigger_kind)@
    &&& Some(row.started_at@) == record.started_at.written()
    &&& is_time_column(row.finished_at, record.finished_at)
    &&& row.failure_code == record.failure_code
    &&& Some(row.created_at@) == record.created_at.written()
}

/// The row to store a record in, which reads back as the record.
pub fn execution_row(record: &Execution) -> (r: Result<ExecutionRow, StorageError>)
    ensures
        r is Ok <==> execution_storable(*record),
        r is Err ==> r->Err_0 == StorageError::Time,
        r is Ok ==> execution_fault(r->Ok_0) is None && execution_value(r->Ok_0) == *record,
        r is Ok ==> is_execution_row(r->Ok_0, *record),
{
    let started_at = match format_ts(record.started_at) {
        Ok(text) => text,
        Err(error) => return Err(error),
    };
    let finished_at = match format_optional_ts(record.finished_at) {
        Ok(text) => text,
        Err(error) => return Err(error),
    };
    let created_at = match format_ts(record.created_at) {
        Ok(text) => text,
        Err(error) => return Err(error),
    };
    proof {
        names::execution_status_round_trip(record.status, names::execution_status_text(record.status)@);
        names::trigger_kind_round_trip(record.trigger_kind, names::trigger_kind_text(record.trigger_kind)@);
    }
    Ok(
        ExecutionRow {
            id: record.id.to_text(),
            ritual_id: record.ritual_id.to_text(),
            ritual_version_id: record.ritual_version_id.to_text(),
            status: names::execution_status_name(record.status).to_owned(),
            trigger_kind: names::trigger_kind_name(record.trigger_kind).to_owned(),
            started_at,
            finished_at,
            failure_code: record.failure_code.clone(),
            created_at,
        },
    )
}

/// Whether every time of the record can be stored.
pub open spec fn execution_step_storable(record: ExecutionStep) -> bool {
    writable(record.started_at) && optionally_writable(record.finished_at)
}

/// The columns of a record, each in the one text that it is stored as.
pub open spec fn is_execution_step_row(row: ExecutionStepRow, record: ExecutionStep) -> bool {
    &&& row.id@ == id_text(record.id.value)
    &&& row.execution_id@ == id_text(record.execution_id.value)
    &&& row.step_index == record.step_index
    &&& row.action_type == record.action_type
    &&& row.status@ == names::execution_step_status_text(record.status)@
    &&& row.adapter_id == record.adapter_id
    &&& is_id_column(row.adapter_instance_id, record.adapter_instance_id)
    &&& Some(row.started_at@) == record.started_at.written()
    &&& is_time_column(row.finished_at, record.finished_at)
    &&& row.result_code == record.result_code
    &&& row.redacted_message == record.redacted_message
}

/// The row to store a record in, which reads back as the record.
pub fn execution_step_row(record: &ExecutionStep) -> (r: Result<ExecutionStepRow, StorageError>)
    ensures
        r is Ok <==> execution_step_storable(*record),
        r is Err ==> r->Err_0 == StorageError::Time,
        r is Ok ==> execution_step_fault(r->Ok_0) is None && execution_step_value(r->Ok_0) == *record,
        r is Ok ==> is_execution_step_row(r->Ok_0, *record),
{
    let started_at = match format_ts(record.started_at) {
        Ok(text) => text,
        Err(error) => return Err(error),
    };
    let finished_at = match format_optional_ts(record.finished_at) {
        Ok(text) => text,
        Err(error) => return Err(error),
    };
    proof {
        names::execution_step_status_round_trip(record.status, names::execution_step_status_text(record.status)@);
    }
    Ok(
        ExecutionStepRow {
            id: record.id.to_text(),
            execution_id: record.execution_id.to_text(),
            step_index: record.step_index as i64,
            action_type: record.action_type.clone(),
            status: names::execution_step_status_name(record.status).to_owned(),
            adapter_id: record.adapter_id.clone(),
            adapter_instance_id: format_optional_uuid(&record.adapter_instance_id),
            started_at,
            finished_at,
            result_code: record.result_code.clone(),
            redacted_message: record.redacted_message.clone(),
        },
    )
}

/// Whether every time of the record can be stored.
pub open spec fn observation_scope_storable(record: ObservationScope) -> bool {
    writable(record.created_at) && writable(record.updated_at)
}

/// The columns of a record, each in the one text that it is stored as.
pub open spec fn is_observation_scope_row(row: ObservationScopeRow, record: ObservationScope) -> bool {
    &&& row.id@ == id_text(record.id.value)
    &&& row.source@ == names::observation_source_text(record.source)@
    &&& row.resource_id@ == id_text(record.resource_id.value)
    &&& row.status@ == names::observation_status_text(record.status)@
    &&& Some(row.created_at@) == record.created_at.written()
    &&& Some(row.updated_at@) == record.updated_at.written()
}

/// The row to store a record in, which reads back as the record.
pub fn observation_scope_row(record: &ObservationScope) -> (r: Result<ObservationScopeRow, StorageError>)
    ensures
        r is Ok <==> observation_scope_storable(*record),
        r is Err ==> r->Err_0 == StorageError::Time,
        r is Ok ==> observation_scope_fault(r->Ok_0) is None && observation_scope_value(r->Ok_0) == *record,
        r is Ok ==> is_observation_scope_row(r->Ok_0, *record),
{
    let created_at = match format_ts(record.created_at) {
        Ok(text) => text,
        Err(error) => return Err(error),
    };
    let updated_at = match format_ts(record.updated_at) {
        Ok(text) => text,
        Err(error) => return Err(error),
    };
    proof {
        names::observation_source_round_trip(record.source, names::observation_source_text(record.source)@);
        names::observation_status_round_trip(record.status, names::observation_status_text(record.status)@);
    }
    Ok(
        ObservationScopeRow {
            id: record.id.to_text(),
            source: names::observation_source_name(record.source).to_owned(),
            resource_id: record.resource_id.to_text(),
            status: names::observation_status_name(record.status).to_owned(),
            created_at,
            updated_at,
        },
    )
}

/// Whether every time of the record can be stored.
pub open spec fn discovery_run_storable(record: DiscoveryRun) -> bool {
    writable(record.started_at) && optionally_writable(record.finished_at)
}

/// The columns of a record, each in the one text that it is stored as.
pub open spec fn is_discovery_run_row(row: DiscoveryRunRow, record: DiscoveryRun) -> bool {
    &&& row.id@ == id_text(record.id.value)
    &&& row.algorithm_version == record.algorithm_version
    &&& row.status@ == names::discovery_status_text(record.status)@
    &&& Some(row.started_at@) == record.started_at.written()
    &&& is_time_column(row.finished_at, record.finished_at)
    &&& row.input_event_count == record.input_event_count
    &&& row.sessions_upserted == record.sessions_upserted
    &&& row.candidates_evaluated == record.candidates_evaluated
    &&& row.suggestions_created == record.suggestions_created
    &&& row.failure_code == record.failure_code
}

/// The row to store a record in, which reads back as the record.
pub fn discovery_run_row(record: &DiscoveryRun) -> (r: Result<DiscoveryRunRow, StorageError>)
    ensures
        r is Ok <==> discovery_run_storable(*record),
        r is Err ==> r->Err_0 == StorageError::Time,
        r is Ok ==> discovery_run_fault(r->Ok_0) is None && discovery_run_value(r->Ok_0) == *record,
        r is Ok ==> is_discovery_run_row(r->Ok_0, *record),
{
    let started_at = match format_ts(record.started_at) {
        Ok(text) => text,
        Err(error) => return Err(error),
    };
    let finished_at = match format_optional_ts(record.finished_at) {
        Ok(text) => text,
        Err(error) => return Err(error),
    };
    proof {
        names::discovery_status_round_trip(record.status, names::discovery_status_text(record.status)@);
    }
    Ok(
        DiscoveryRunRow {
            id: record.id.to_text(),
            algorithm_version: record.algorithm_version.clone(),
            status: names::discovery_status_name(record.status).to_owned(),
            started_at,
            finished_at,
            input_event_count: record.input_event_count,
            sessions_upserted: record.sessions_upserted,
            candidates_evaluated: record.candidates_evaluated,
            suggestions_created: record.suggestions_created,
            failure_code: record.failure_code.clone(),
        },
    )
}

/// A row of the sessions table.
pub struct SessionRow {
    pub id: String,
    pub algorithm_version: String,
    pub kind: String,
    pub workspace_resource_id: String,
    pub anchor_event_id: String,
    pub started_at: String,
    pub finished_at: Option<String>,
    pub event_count: u32,
    pub eligible: bool,
}

/// A row of the session events table.
pub struct SessionEventRow {
    pub event_id: String,
    pub resource_id: String,
    pub ordinal: u32,
    pub received_at: String,
    pub is_anchor: i64,
}

pub open spec fn session_event_fault(row: SessionEventRow) -> Option<StorageError> {
    first(
        fault(uuid_read(row.event_id@)),
        first(fault(uuid_read(row.resource_id@)), fault(time_read(row.received_at@))),
    )
}

pub open spec fn session_event_value(row: SessionEventRow) -> SessionEvent {
    SessionEvent {
        event_id: uuid_read(row.event_id@)->Ok_0,
        resource_id: uuid_read(row.resource_id@)->Ok_0,
        ordinal: row.ordinal,
        received_at: time_read(row.received_at@)->Ok_0,
        is_anchor: row.is_anchor != 0,
    }
}

pub fn session_event_from_row(row: &SessionEventRow) -> (r: Result<SessionEvent, StorageError>)
    ensures
        r == outcome(session_event_fault(*row), session_event_value(*row)),
{
    let event_id = match parse_uuid(row.event_id.as_str()) {
        Ok(value) => value,
        Err(error) => return Err(error),
    };
    let resource_id = match parse_uuid(row.resource_id.as_str()) {
        Ok(value) => value,
        Err(error) => return Err(error),
    };
    let received_at = match parse_ts(row.received_at.as_str()) {
        Ok(value) => value,
        Err(error) => return Err(error),
    };
    Ok(
        SessionEvent {
            event_id,
            resource_id,
            ordinal: row.ordinal,
            received_at,
            is_anchor: row.is_anchor != 0,
        },
    )
}

/// The first fault among the event rows from place `from` on.
pub open spec fn session_events_fault(rows: Seq<SessionEventRow>, from: int) -> Option<StorageError>
    decreases rows.len() - from,
{
    if from < 0 || from >= rows.len() {
        None
    } else {
        first(session_event_fault(rows[from]), session_events_fault(rows, from + 1))
    }
}

pub open spec fn session_fault(row: SessionRow, events: Seq<SessionEventRow>) -> Option<
    StorageError,
> {
    first(
        fault(uuid_read(row.id@)),
        first(
            session_events_fault(events, 0),
            first(
                fault(uuid_read(row.workspace_resource_id@)),
                first(
                    fault(uuid_read(row.anchor_event_id@)),
                    first(
                        fault(time_read(row.started_at@)),
                        fault(optional_time_read(row.finished_at)),
                    ),
                ),
            ),
        ),
    )
}

/// Whether a session says what its rows say.
pub open spec fn is_session_of(
    session: DiscoveredSession,
    row: SessionRow,
    events: Seq<SessionEventRow>,
) -> bool {
    &&& session.id == uuid_read(row.id@)->Ok_0
    &&& session.algorithm_version == row.algorithm_version
    &&& session.kind == row.kind
    &&& session.workspace_resource_id == uuid_read(row.workspace_resource_id@)->Ok_0
    &&& session.anchor_event_id == uuid_read(row.anchor_event_id@)->Ok_0
    &&& session.started_at == time_read(row.started_at@)->Ok_0
    &&& session.finished_at == optional_time_read(row.finished_at)->Ok_0
    &&& session.event_count == row.event_count
    &&& session.eligible == row.eligible
    &&& session.events@ == events.map_values(|event: SessionEventRow| session_event_value(event))
}

/// Reads a session from its row and the rows of its events in their order.
pub fn session_from_rows(row: SessionRow, events: &Vec<SessionEventRow>) -> (r: Result<
    DiscoveredSession,
    StorageError,
>)
    ensures
        match r {
            Ok(session) => session_fault(row, events@) is None && is_session_of(
                session,
                row,
                events@,
            ),
            Err(error) => session_fault(row, events@) == Some(error),
        },
{
    let id = match parse_uuid(row.id.as_str()) {
        Ok(value) => value,
        Err(error) => return Err(error),
    };
    let mut read: Vec<SessionEvent> = Vec::new();
    let mut i: usize = 0;
    let ghost values = events@.map_values(|event: SessionEventRow| session_event_value(event));
    while i < events.len()
        invariant
            i <= events@.len(),
            fault(uuid_read(row.id@)) is None,
            session_events_fault(events@, 0) == session_events_fault(events@, i as int),
            values == events@.map_values(|event: SessionEventRow| session_event_value(event)),
            read@ == values.take(i as int),
        decreases events@.len() - i,
    {
        let event = match session_event_from_row(&events[i]) {
            Ok(value) => value,
            Err(error) => return Err(error),
        };
        read.push(event);
        i = i + 1;
        proof {
            assert(values.take(i as int) =~= values.take(i - 1).push(values[i - 1]));
        }
    }
    let workspace_resource_id = match parse_uuid(row.workspace_resource_id.as_str()) {
        Ok(value) => value,
        Err(error) => return Err(error),
    };
    let anchor_event_id = match parse_uuid(row.anchor_event_id.as_str()) {
        Ok(value) => value,
        Err(error) => return Err(error),
    };
    let started_at = match parse_ts(row.started_at.as_str()) {
        Ok(value) => value,
        Err(error) => return Err(error),
    };
    let finished_at = match parse_optional_ts(&row.finished_at) {
        Ok(value) => value,
        Err(error) => return Err(error),
    };
    proof {
        assert(values.take(values.len() as int) =~= values);
    }
    Ok(
        DiscoveredSession {
            id,
            algorithm_version: row.algorithm_version,
            kind: row.kind,
            workspace_resource_id,
            anchor_event_id,
            started_at,
            finished_at,
            event_count: row.event_count,
            eligible: row.eligible,
            events: read,
        },
    )
}

/// A row of the suggestions table.
pub struct SuggestionRow {
    pub id: String,
    pub algorithm_version: String,
    pub workspace_resource_id: String,
    pub pattern_fingerprint: String,
    pub support_sessions: u32,
    pub eligible_sessions: u32,
    pub confidence_basis_points: u32,
    pub first_seen_at: String,
    pub last_seen_at: String,
    pub observation_span_seconds: i64,
    pub median_completion_ms: i64,
    pub status: String,
    pub snoozed_until: Option<String>,
    pub accepted_ritual_id: Option<String>,
}

/// A suggestion with what has become of it.
#[derive(Debug, PartialEq, Eq)]
pub struct StoredSuggestion {
    pub suggestion: DiscoveredSuggestion,
    pub status: SuggestionStatus,
    pub snoozed_until: Option<Timestamp>,
    pub accepted_ritual_id: Option<Uuid>,
}

/// The first identifier from place `from` on that cannot be read.
pub open spec fn ids_fault(ids: Seq<String>, from: int) -> Option<StorageError>
    decreases ids.len() - from,
{
    if from < 0 || from >= ids.len() {
        None
    } else {
        first(fault(uuid_read(ids[from]@)), ids_fault(ids, from + 1))
    }
}

pub open spec fn ids_value(ids: Seq<String>) -> Seq<Uuid> {
    ids.map_values(|id: String| uuid_read(id@)->Ok_0)
}

fn parse_ids(ids: &Vec<String>) -> (r: Result<Vec<Uuid>, StorageError>)
    ensures
        match r {
            Ok(read) => ids_fault(ids@, 0) is None && read@ == ids_value(ids@),
            Err(error) => ids_fault(ids@, 0) == Some(error),
        },
{
    let mut read: Vec<Uuid> = Vec::new();
    let mut i: usize = 0;
    while i < ids.len()
        invariant
            i <= ids@.len(),
            ids_fault(ids@, 0) == ids_fault(ids@, i as int),
            read@ == ids_value(ids@).take(i as int),
        decreases ids@.len() - i,
    {
        let id = match parse_uuid(ids[i].as_str()) {
            Ok(value) => value,
            Err(error) => return Err(error),
        };
        read.push(id);
        i = i + 1;
        proof {
            assert(ids_value(ids@).take(i as int) =~= ids_value(ids@).take(i - 1).push(
                ids_value(ids@)[i - 1],
            ));
        }
    }
    proof {
        assert(ids_value(ids@).take(ids@.len() as int) =~= ids_value(ids@));
    }
    Ok(read)
}

pub open spec fn suggestion_fault(
    row: SuggestionRow,
    actions: Seq<String>,
    supports: Seq<String>,
) -> Option<StorageError> {
    first(
        ids_fault(actions, 0),
        first(
            ids_fault(supports, 0),
            first(
                fault(names::suggestion_status_read(row.status@)),
                first(
                    fault(uuid_read(row.id@)),
                    first(
                        fault(uuid_read(row.workspace_resource_id@)),
                        first(
                            fault(time_read(row.first_seen_at@)),
                            first(
                                fault(time_read(row.last_seen_at@)),
                                first(
                                    fault(optional_time_read(row.snoozed_until)),
                                    fault(optional_uuid_read(row.accepted_ritual_id)),
                                ),
                            ),
                        ),
                    ),
                ),
            ),
        ),
    )
}

/// Whether a suggestion says what its rows say.
pub open spec fn is_suggestion_of(
    stored: StoredSuggestion,
    row: SuggestionRow,
    actions: Seq<String>,
    supports: Seq<String>,
) -> bool {
    &&& stored.suggestion.id == uuid_read(row.id@)->Ok_0
    &&& stored.suggestion.algorithm_version == row.algorithm_version
    &&& stored.suggestion.workspace_resource_id == uuid_read(row.workspace_resource_id@)->Ok_0
    &&& stored.suggestion.pattern_fingerprint == row.pattern_fingerprint
    &&& stored.suggestion.action_resource_ids@ == ids_value(actions)
    &&& stored.suggestion.supporting_session_ids@ == ids_value(supports)
    &&& stored.suggestion.support_sessions == row.support_sessions
    &&& stored.suggestion.eligible_sessions == row.eligible_sessions
    &&& stored.suggestion.confidence_basis_points == row.confidence_basis_points
    &&& stored.suggestion.first_seen_at == time_read(row.first_seen_at@)->Ok_0
    &&& stored.suggestion.last_seen_at == time_read(row.last_seen_at@)->Ok_0
    &&& stored.suggestion.observation_span_seconds == row.observation_span_seconds
    &&& stored.suggestion.median_completion_ms == row.median_completion_ms
    &&& stored.status == names::suggestion_status_read(row.status@)->Ok_0
    &&& stored.snoozed_until == optional_time_read(row.snoozed_until)->Ok_0
    &&& stored.accepted_ritual_id == optional_uuid_read(row.accepted_ritual_id)->Ok_0
}

/// Reads a suggestion from its row, its actions in their order and the sessions that
/// support it.
pub fn suggestion_from_rows(
    row: SuggestionRow,
    actions: &Vec<String>,
    supports: &Vec<String>,
) -> (r: Result<StoredSuggestion, StorageError>)
    ensures
        match r {
            Ok(stored) => suggestion_fault(row, actions@, supports@) is None && is_suggestion_of(
                stored,
                row,
                actions@,
                supports@,
            ),
            Err(error) => suggestion_fault(row, actions@, supports@) == Some(error),
        },
{
    let action_resource_ids = match parse_ids(actions) {
        Ok(value) => value,
        Err(error) => return Err(error),
    };
    let supporting_session_ids = match parse_ids(supports) {
        Ok(value) => value,
        Err(error) => return Err(error),
    };
    let status = match names::parse_suggestion_status(row.status.as_str()) {
        Ok(value) => value,
        Err(error) => return Err(error),
    };
    let id = match parse_uuid(row.id.as_str()) {
        Ok(value) => value,
        Err(error) => return Err(error),
    };
    let workspace_resource_id = match parse_uuid(row.workspace_resource_id.as_str()) {
        Ok(value) => value,
        Err(error) => return Err(error),
    };
    let first_seen_at = match parse_ts(row.first_seen_at.as_str()) {
        Ok(value) => value,
        Err(error) => return Err(error),
    };
    let last_seen_at = match parse_ts(row.last_seen_at.as_str()) {
        Ok(value) => value,
        Err(error) => return Err(error),
    };
    let snoozed_until = match parse_optional_ts(&row.snoozed_until) {
        Ok(value) => value,
        Err(error) => return Err(error),
    };
    let accepted_ritual_id = match parse_optional_uuid(&row.accepted_ritual_id) {
        Ok(value) => value,
        Err(error) => return Err(error),
    };
    Ok(
        StoredSuggestion {
            suggestion: DiscoveredSuggestion {
                id,
                algorithm_version: row.algorithm_version,
                workspace_resource_id,
                pattern_fingerprint: row.pattern_fingerprint,
                action_resource_ids,
                supporting_session_ids,
                support_sessions: row.support_sessions,
                eligible_sessions: row.eligible_sessions,
                confidence_basis_points: row.confidence_basis_points,
                first_seen_at,
                last_seen_at,
                observation_span_seconds: row.observation_span_seconds,
                median_completion_ms: row.median_completion_ms,
            },
            status,
            snoozed_until,
            accepted_ritual_id,
        },
    )
}

} // verus!
