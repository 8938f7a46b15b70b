//! How the values of enumerations are written in stored columns, and how they are read
//! back.

use vstd::prelude::*;
use crate::event::{Actor, EventType, PrivacyClass};
use crate::execution::{ExecutionStatus, ExecutionStepStatus, TriggerKind};
use crate::mining::{DiscoveryRunStatus, SuggestionStatus};
use crate::resource::{
    ObservationSource, ObservationStatus, ResourceKind, ResourceScope, Sensitivity,
};
use crate::ritual::RitualStatus;
use crate::storage::StorageError;
use crate::text;

verus! {

/// The column text of an actor.
pub open spec fn actor_text(value: Actor) -> &'static str {
    match value {
        Actor::User => "user",
        Actor::Fubun => "fubun",
        Actor::System => "system",
        Actor::Imported => "imported",
    }
}

pub fn actor_name(value: Actor) -> (name: &'static str)
    ensures
        name == actor_text(value),
{
    match value {
        Actor::User => "user",
        Actor::Fubun => "fubun",
        Actor::System => "system",
        Actor::Imported => "imported",
    }
}

/// Different values have different column texts.
pub proof fn actor_text_distinct(a: Actor, b: Actor)
    ensures
        actor_text(a)@ == actor_text(b)@ ==> a == b,
{
    reveal_strlit("user");
    reveal_strlit("fubun");
    reveal_strlit("system");
    reveal_strlit("imported");
    assert("user"@.len() != "fubun"@.len());
    assert("user"@.len() != "system"@.len());
    assert("user"@.len() != "imported"@.len());
    assert("fubun"@.len() != "system"@.len());
    assert("fubun"@.len() != "imported"@.len());
    assert("system"@.len() != "imported"@.len());
}

/// The column text of a privacy class.
pub open spec fn privacy_text(value: PrivacyClass) -> &'static str {
    match value {
        PrivacyClass::Normal => "normal",
        PrivacyClass::Sensitive => "sensitive",
    }
}

pub fn privacy_name(value: PrivacyClass) -> (name: &'static str)
    ensures
        name == privacy_text(value),
{
    match value {
        PrivacyClass::Normal => "normal",
        PrivacyClass::Sensitive => "sensitive",
    }
}

/// Different values have different column texts.
pub proof fn privacy_text_distinct(a: PrivacyClass, b: PrivacyClass)
    ensures
        privacy_text(a)@ == privacy_text(b)@ ==> a == b,
{
    reveal_strlit("normal");
    reveal_strlit("sensitive");
    assert("normal"@.len() != "sensitive"@.len());
}

/// The column text of an event type.
pub open spec fn event_type_text(value: EventType) -> &'static str {
    match value {
        EventType::SyntheticV1 => "dev.fubun.dev.synthetic.v1",
        EventType::BrowserResourceOpenedV1 => "dev.fubun.browser.resource.opened.v1",
        EventType::VscodeWorkspaceOpenedV1 => "dev.fubun.vscode.workspace.opened.v1",
    }
}

pub fn event_type_name(value: EventType) -> (name: &'static str)
    ensures
        name == event_type_text(value),
{
    match value {
        EventType::SyntheticV1 => "dev.fubun.dev.synthetic.v1",
        EventType::BrowserResourceOpenedV1 => "dev.fubun.browser.resource.opened.v1",
        EventType::VscodeWorkspaceOpenedV1 => "dev.fubun.vscode.workspace.opened.v1",
    }
}

/// Different values have different column texts.
pub proof fn event_type_text_distinct(a: EventType, b: EventType)
    ensures
        event_type_text(a)@ == event_type_text(b)@ ==> a == b,
{
    reveal_strlit("dev.fubun.dev.synthetic.v1");
    reveal_strlit("dev.fubun.browser.resource.opened.v1");
    reveal_strlit("dev.fubun.vscode.workspace.opened.v1");
    assert("dev.fubun.dev.synthetic.v1"@.len() != "dev.fubun.browser.resource.opened.v1"@.len());
    assert("dev.fubun.dev.synthetic.v1"@.len() != "dev.fubun.vscode.workspace.opened.v1"@.len());
    assert("dev.fubun.browser.resource.opened.v1"@[10] != "dev.fubun.vscode.workspace.opened.v1"@[10]);
}

/// The column text of a resource kind.
pub open spec fn resource_kind_text(value: ResourceKind) -> &'static str {
    match value {
        ResourceKind::File => "filesystem.file",
        ResourceKind::Directory => "filesystem.directory",
        ResourceKind::WebPage => "web.page",
    }
}

pub fn resource_kind_name(value: ResourceKind) -> (name: &'static str)
    ensures
        name == resource_kind_text(value),
{
    match value {
        ResourceKind::File => "filesystem.file",
        ResourceKind::Directory => "filesystem.directory",
        ResourceKind::WebPage => "web.page",
    }
}

/// The resource kind that a column text stands for.
pub open spec fn resource_kind_read(name: Seq<char>) -> Result<ResourceKind, StorageError> {
    if name == "filesystem.file"@ {
        Ok(ResourceKind::File)
    } else if name == "filesystem.directory"@ {
        Ok(ResourceKind::Directory)
    } else if name == "web.page"@ {
        Ok(ResourceKind::WebPage)
    } else {
        Err(StorageError::InvalidData("resource kind"))
    }
}

pub fn parse_resource_kind(value: &str) -> (r: Result<ResourceKind, StorageError>)
    ensures
        r == resource_kind_read(value@),
{
    if text::same(value, "filesystem.file") {
        Ok(ResourceKind::File)
    } else if text::same(value, "filesystem.directory") {
        Ok(ResourceKind::Directory)
    } else if text::same(value, "web.page") {
        Ok(ResourceKind::WebPage)
    } else {
        Err(StorageError::InvalidData("resource kind"))
    }
}

/// A stored resource kind reads back as itself, and no other text reads as it.
pub proof fn resource_kind_round_trip(value: ResourceKind, name: Seq<char>)
    ensures
        resource_kind_read(resource_kind_text(value)@) == Ok::<ResourceKind, StorageError>(value),
        resource_kind_read(name) == Ok::<ResourceKind, StorageError>(value) ==> name == resource_kind_text(value)@,
{
    reveal_strlit("filesystem.file");
    reveal_strlit("filesystem.directory");
    reveal_strlit("web.page");
    assert("filesystem.file"@.len() != "filesystem.directory"@.len());
    assert("filesystem.file"@.len() != "web.page"@.len());
    assert("filesystem.directory"@.len() != "web.page"@.len());
}

/// The column text of a resource scope.
pub open spec fn resource_scope_text(value: ResourceScope) -> &'static str {
    match value {
        ResourceScope::Exact => "exact",
    }
}

pub fn resource_scope_name(value: ResourceScope) -> (name: &'static str)
    ensures
        name == resource_scope_text(value),
{
    match value {
        ResourceScope::Exact => "exact",
    }
}

/// The resource scope that a column text stands for.
pub open spec fn resource_scope_read(name: Seq<char>) -> Result<ResourceScope, StorageError> {
    if name == "exact"@ {
        Ok(ResourceScope::Exact)
    } else {
        Err(StorageError::InvalidData("resource scope"))
    }
}

pub fn parse_resource_scope(value: &str) -> (r: Result<ResourceScope, StorageError>)
    ensures
        r == resource_scope_read(value@),
{
    if text::same(value, "exact") {
        Ok(ResourceScope::Exact)
    } else {
        Err(StorageError::InvalidData("resource scope"))
    }
}

/// A stored resource scope reads back as itself, and no other text reads as it.
pub proof fn resource_scope_round_trip(value: ResourceScope, name: Seq<char>)
    ensures
        resource_scope_read(resource_scope_text(value)@) == Ok::<ResourceScope, StorageError>(value),
        resource_scope_read(name) == Ok::<ResourceScope, StorageError>(value) ==> name == resource_scope_text(value)@,
{
}

/// The column text of a sensitivity.
pub open spec fn sensitivity_text(value: Sensitivity) -> &'static str {
    match value {
        Sensitivity::Normal => "normal",
        Sensitivity::Sensitive => "sensitive",
    }
}

pub fn sensitivity_name(value: Sensitivity) -> (name: &'static str)
    ensures
        name == sensitivity_text(value),
{
    match value {
        Sensitivity::Normal => "normal",
        Sensitivity::Sensitive => "sensitive",
    }
}

/// The sensitivity that a column text stands for.
pub open spec fn sensitivity_read(name: Seq<char>) -> Result<Sensitivity, StorageError> {
    if name == "normal"@ {
        Ok(Sensitivity::Normal)
    } else if name == "sensitive"@ {
        Ok(Sensitivity::Sensitive)
    } else {
        Err(StorageError::InvalidData("sensitivity"))
    }
}

pub fn parse_sensitivity(value: &str) -> (r: Result<Sensitivity, StorageError>)
    ensures
        r == sensitivity_read(value@),
{
    if text::same(value, "normal") {
        Ok(Sensitivity::Normal)
    } else if text::same(value, "sensitive") {
        Ok(Sensitivity::Sensitive)
    } else {
        Err(StorageError::InvalidData("sensitivity"))
    }
}

/// A stored sensitivity reads back as itself, and no other text reads as it.
pub proof fn sensitivity_round_trip(value: Sensitivity, name: Seq<char>)
    ensures
        sensitivity_read(sensitivity_text(value)@) == Ok::<Sensitivity, StorageError>(value),
        sensitivity_read(name) == Ok::<Sensitivity, StorageError>(value) ==> name == sensitivity_text(value)@,
{
    reveal_strlit("normal");
    reveal_strlit("sensitive");
    assert("normal"@.len() != "sensitive"@.len());
}

/// The column text of an observation source.
pub open spec fn observation_source_text(value: ObservationSource) -> &'static str {
    match value {
        ObservationSource::BrowserChromium => "browser.chromium",
        ObservationSource::VscodeWorkspace => "vscode.workspace",
    }
}

pub fn observation_source_name(value: ObservationSource) -> (name: &'static str)
    ensures
        name == observation_source_text(value),
{
    match value {
        ObservationSource::BrowserChromium => "browser.chromium",
        ObservationSource::VscodeWorkspace => "vscode.workspace",
    }
}

/// The observation source that a column text stands for.
pub open spec fn observation_source_read(name: Seq<char>) -> Result<ObservationSource, StorageError> {
    if name == "browser.chromium"@ {
        Ok(ObservationSource::BrowserChromium)
    } else if name == "vscode.workspace"@ {
        Ok(ObservationSource::VscodeWorkspace)
    } else {
        Err(StorageError::InvalidData("observation source"))
    }
}

pub fn parse_observation_source(value: &str) -> (r: Result<ObservationSource, StorageError>)
    ensures
        r == observation_source_read(value@),
{
    if text::same(value, "browser.chromium") {
        Ok(ObservationSource::BrowserChromium)
    } else if text::same(value, "vscode.workspace") {
        Ok(ObservationSource::VscodeWorkspace)
    } else {
        Err(StorageError::InvalidData("observation source"))
    }
}

/// A stored observation source reads back as itself, and no other text reads as it.
pub proof fn observation_source_round_trip(value: ObservationSource, name: Seq<char>)
    ensures
        observation_source_read(observation_source_text(value)@) == Ok::<ObservationSource, StorageError>(value),
        observation_source_read(name) == Ok::<ObservationSource, StorageError>(value) ==> name == observation_source_text(value)@,
{
    reveal_strlit("browser.chromium");
    reveal_strlit("vscode.workspace");
    assert("browser.chromium"@[0] != "vscode.workspace"@[0]);
}

/// The column text of an observation status.
pub open spec fn observation_status_text(value: ObservationStatus) -> &'static str {
    match value {
        ObservationStatus::Active => "active",
        ObservationStatus::Paused => "paused",
    }
}

pub fn observation_status_name(value: ObservationStatus) -> (name: &'static str)
    ensures
        name == observation_status_text(value),
{
    match value {
        ObservationStatus::Active => "active",
        ObservationStatus::Paused => "paused",
    }
}

/// The observation status that a column text stands for.
pub open spec fn observation_status_read(name: Seq<char>) -> Result<ObservationStatus, StorageError> {
    if name == "active"@ {
        Ok(ObservationStatus::Active)
    } else if name == "paused"@ {
        Ok(ObservationStatus::Paused)
    } else {
        Err(StorageError::InvalidData("observation status"))
    }
}

pub fn parse_observation_status(value: &str) -> (r: Result<ObservationStatus, StorageError>)
    ensures
        r == observation_status_read(value@),
{
    if text::same(value, "active") {
        Ok(ObservationStatus::Active)
    } else if text::same(value, "paused") {
        Ok(ObservationStatus::Paused)
    } else {
        Err(StorageError::InvalidData("observation status"))
    }
}

/// A stored observation status reads back as itself, and no other text reads as it.
pub proof fn observation_status_round_trip(value: ObservationStatus, name: Seq<char>)
    ensures
        observation_status_read(observation_status_text(value)@) == Ok::<ObservationStatus, StorageError>(value),
        observation_status_read(name) == Ok::<ObservationStatus, StorageError>(value) ==> name == observation_status_text(value)@,
{
    reveal_strlit("active");
    reveal_strlit("paused");
    assert("active"@[0] != "paused"@[0]);
}

/// The column text of a ritual status.
pub open spec fn ritual_status_text(value: RitualStatus) -> &'static str {
    match value {
        RitualStatus::Draft => "draft",
        RitualStatus::Active => "active",
        RitualStatus::Paused => "paused",
        RitualStatus::Archived => "archived",
    }
}

pub fn ritual_status_name(value: RitualStatus) -> (name: &'static str)
    ensures
        name == ritual_status_text(value),
{
    match value {
        RitualStatus::Draft => "draft",
        RitualStatus::Active => "active",
        RitualStatus::Paused => "paused",
        RitualStatus::Archived => "archived",
    }
}

/// The ritual status that a column text stands for.
pub open spec fn ritual_status_read(name: Seq<char>) -> Result<RitualStatus, StorageError> {
    if name == "draft"@ {
        Ok(RitualStatus::Draft)
    } else if name == "active"@ {
        Ok(RitualStatus::Active)
    } else if name == "paused"@ {
        Ok(RitualStatus::Paused)
    } else if name == "archived"@ {
        Ok(RitualStatus::Archived)
    } else {
        Err(StorageError::InvalidData("ritual status"))
    }
}

pub fn parse_ritual_status(value: &str) -> (r: Result<RitualStatus, StorageError>)
    ensures
        r == ritual_status_read(value@),
{
    if text::same(value, "draft") {
        Ok(RitualStatus::Draft)
    } else if text::same(value, "active") {
        Ok(RitualStatus::Active)
    } else if text::same(value, "paused") {
        Ok(RitualStatus::Paused)
    } else if text::same(value, "archived") {
        Ok(RitualStatus::Archived)
    } else {
        Err(StorageError::InvalidData("ritual status"))
    }
}

/// A stored ritual status reads back as itself, and no other text reads as it.
pub proof fn ritual_status_round_trip(value: RitualStatus, name: Seq<char>)
    ensures
        ritual_status_read(ritual_status_text(value)@) == Ok::<RitualStatus, StorageError>(value),
        ritual_status_read(name) == Ok::<RitualStatus, StorageError>(value) ==> name == ritual_status_text(value)@,
{
    reveal_strlit("draft");
    reveal_strlit("active");
    reveal_strlit("paused");
    reveal_strlit("archived");
    assert("draft"@.len() != "active"@.len());
    assert("draft"@.len() != "paused"@.len());
    assert("draft"@.len() != "archived"@.len());
    assert("active"@[0] != "paused"@[0]);
    assert("active"@.len() != "archived"@.len());
    assert("paused"@.len() != "archived"@.len());
}

/// The column text of a trigger kind.
pub open spec fn trigger_kind_text(value: TriggerKind) -> &'static str {
    match value {
        TriggerKind::Manual => "manual",
    }
}

pub fn trigger_kind_name(value: TriggerKind) -> (name: &'static str)
    ensures
        name == trigger_kind_text(value),
{
    match value {
        TriggerKind::Manual => "manual",
    }
}

/// The trigger kind that a column text stands for.
pub open spec fn trigger_kind_read(name: Seq<char>) -> Result<TriggerKind, StorageError> {
    if name == "manual"@ {
        Ok(TriggerKind::Manual)
    } else {
        Err(StorageError::InvalidData("trigger kind"))
    }
}

pub fn parse_trigger_kind(value: &str) -> (r: Result<TriggerKind, StorageError>)
    ensures
        r == trigger_kind_read(value@),
{
    if text::same(value, "manual") {
        Ok(TriggerKind::Manual)
    } else {
        Err(StorageError::InvalidData("trigger kind"))
    }
}

/// A stored trigger kind reads back as itself, and no other text reads as it.
pub proof fn trigger_kind_round_trip(value: TriggerKind, name: Seq<char>)
    ensures
        trigger_kind_read(trigger_kind_text(value)@) == Ok::<TriggerKind, StorageError>(value),
        trigger_kind_read(name) == Ok::<TriggerKind, StorageError>(value) ==> name == trigger_kind_text(value)@,
{
}

/// The column text of an execution status.
pub open spec fn execution_status_text(value: ExecutionStatus) -> &'static str {
    match value {
        ExecutionStatus::Planned => "planned",
        ExecutionStatus::Running => "running",
        ExecutionStatus::Succeeded => "succeeded",
        ExecutionStatus::Failed => "failed",
        ExecutionStatus::Partial => "partial",
        ExecutionStatus::Aborted => "aborted",
    }
}

pub fn execution_status_name(value: ExecutionStatus) -> (name: &'static str)
    ensures
        name == execution_status_text(value),
{
    match value {
        ExecutionStatus::Planned => "planned",
        ExecutionStatus::Running => "running",
        ExecutionStatus::Succeeded => "succeeded",
        ExecutionStatus::Failed => "failed",
        ExecutionStatus::Partial => "partial",
        ExecutionStatus::Aborted => "aborted",
    }
}

/// The execution status that a column text stands for.
pub open spec fn execution_status_read(name: Seq<char>) -> Result<ExecutionStatus, StorageError> {
    if name == "planned"@ {
        Ok(ExecutionStatus::Planned)
    } else if name == "running"@ {
        Ok(ExecutionStatus::Running)
    } else if name == "succeeded"@ {
        Ok(ExecutionStatus::Succeeded)
    } else if name == "failed"@ {
        Ok(ExecutionStatus::Failed)
    } else if name == "partial"@ {
        Ok(ExecutionStatus::Partial)
    } else if name == "aborted"@ {
        Ok(ExecutionStatus::Aborted)
    } else {
        Err(StorageError::InvalidData("execution status"))
    }
}

pub fn parse_execution_status(value: &str) -> (r: Result<ExecutionStatus, StorageError>)
    ensures
        r == execution_status_read(value@),
{
    if text::same(value, "planned") {
        Ok(ExecutionStatus::Planned)
    } else if text::same(value, "running") {
        Ok(ExecutionStatus::Running)
    } else if text::same(value, "succeeded") {
        Ok(ExecutionStatus::Succeeded)
    } else if text::same(value, "failed") {
        Ok(ExecutionStatus::Failed)
    } else if text::same(value, "partial") {
        Ok(ExecutionStatus::Partial)
    } else if text::same(value, "aborted") {
        Ok(ExecutionStatus::Aborted)
    } else {
        Err(StorageError::InvalidData("execution status"))
    }
}

/// A stored execution status reads back as itself, and no other text reads as it.
pub proof fn execution_status_round_trip(value: ExecutionStatus, name: Seq<char>)
    ensures
        execution_status_read(execution_status_text(value)@) == Ok::<ExecutionStatus, StorageError>(value),
        execution_status_read(name) == Ok::<ExecutionStatus, StorageError>(value) ==> name == execution_status_text(value)@,
{
    reveal_strlit("planned");
    reveal_strlit("running");
    reveal_strlit("succeeded");
    reveal_strlit("failed");
    reveal_strlit("partial");
    reveal_strlit("aborted");
    assert("planned"@[0] != "running"@[0]);
    assert("planned"@.len() != "succeeded"@.len());
    assert("planned"@.len() != "failed"@.len());
    assert("planned"@[1] != "partial"@[1]);
    assert("planned"@[0] != "aborted"@[0]);
    assert("running"@.len() != "succeeded"@.len());
    assert("running"@.len() != "failed"@.len());
    assert("running"@[0] != "partial"@[0]);
    assert("running"@[0] != "aborted"@[0]);
    assert("succeeded"@.len() != "failed"@.len());
    assert("succeeded"@.len() != "partial"@.len());
    assert("succeeded"@.len() != "aborted"@.len());
    assert("failed"@.len() != "partial"@.len());
    assert("failed"@.len() != "aborted"@.len());
    assert("partial"@[0] != "aborted"@[0]);
}

/// The column text of an execution step status.
pub open spec fn execution_step_status_text(value: ExecutionStepStatus) -> &'static str {
    match value {
        ExecutionStepStatus::Pending => "pending",
        ExecutionStepStatus::Running => "running",
        ExecutionStepStatus::Succeeded => "succeeded",
        ExecutionStepStatus::Skipped => "skipped",
        ExecutionStepStatus::Failed => "failed",
        ExecutionStepStatus::Aborted => "aborted",
    }
}

pub fn execution_step_status_name(value: ExecutionStepStatus) -> (name: &'static str)
    ensures
        name == execution_step_status_text(value),
{
    match value {
        ExecutionStepStatus::Pending => "pending",
        ExecutionStepStatus::Running => "running",
        ExecutionStepStatus::Succeeded => "succeeded",
        ExecutionStepStatus::Skipped => "skipped",
        ExecutionStepStatus::Failed => "failed",
        ExecutionStepStatus::Aborted => "aborted",
    }
}

/// The execution step status that a column text stands for.
pub open spec fn execution_step_status_read(name: Seq<char>) -> Result<ExecutionStepStatus, StorageError> {
    if name == "pending"@ {
        Ok(ExecutionStepStatus::Pending)
    } else if name == "running"@ {
        Ok(ExecutionStepStatus::Running)
    } else if name == "succeeded"@ {
        Ok(ExecutionStepStatus::Succeeded)
    } else if name == "skipped"@ {
        Ok(ExecutionStepStatus::Skipped)
    } else if name == "failed"@ {
        Ok(ExecutionStepStatus::Failed)
    } else if name == "aborted"@ {
        Ok(ExecutionStepStatus::Aborted)
    } else {
        Err(StorageError::InvalidData("execution step status"))
    }
}

pub fn parse_execution_step_status(value: &str) -> (r: Result<ExecutionStepStatus, StorageError>)
    ensures
        r == execution_step_status_read(value@),
{
    if text::same(value, "pending") {
        Ok(ExecutionStepStatus::Pending)
    } else if text::same(value, "running") {
        Ok(ExecutionStepStatus::Running)
    } else if text::same(value, "succeeded") {
        Ok(ExecutionStepStatus::Succeeded)
    } else if text::same(value, "skipped") {
        Ok(ExecutionStepStatus::Skipped)
    } else if text::same(value, "failed") {
        Ok(ExecutionStepStatus::Failed)
    } else if text::same(value, "aborted") {
        Ok(ExecutionStepStatus::Aborted)
    } else {
        Err(StorageError::InvalidData("execution step status"))
    }
}

/// A stored execution step status reads back as itself, and no other text reads as it.
pub proof fn execution_step_status_round_trip(value: ExecutionStepStatus, name: Seq<char>)
    ensures
        execution_step_status_read(execution_step_status_text(value)@) == Ok::<ExecutionStepStatus, StorageError>(value),
        execution_step_status_read(name) == Ok::<ExecutionStepStatus, StorageError>(value) ==> name == execution_step_status_text(value)@,
{
    reveal_strlit("pending");
    reveal_strlit("running");
    reveal_strlit("succeeded");
    reveal_strlit("skipped");
    reveal_strlit("failed");
    reveal_strlit("aborted");
    assert("pending"@[0] != "running"@[0]);
    assert("pending"@.len() != "succeeded"@.len());
    assert("pending"@[0] != "skipped"@[0]);
    assert("pending"@.len() != "failed"@.len());
    assert("pending"@[0] != "aborted"@[0]);
    assert("running"@.len() != "succeeded"@.len());
    assert("running"@[0] != "skipped"@[0]);
    assert("running"@.len() != "failed"@.len());
    assert("running"@[0] != "aborted"@[0]);
    assert("succeeded"@.len() != "skipped"@.len());
    assert("succeeded"@.len() != "failed"@.len());
    assert("succeeded"@.len() != "aborted"@.len());
    assert("skipped"@.len() != "failed"@.len());
    assert("skipped"@[0] != "aborted"@[0]);
    assert("failed"@.len() != "aborted"@.len());
}

/// The column text of a discovery run status.
pub open spec fn discovery_status_text(value: DiscoveryRunStatus) -> &'static str {
    match value {
        DiscoveryRunStatus::Running => "running",
        DiscoveryRunStatus::Succeeded => "succeeded",
        DiscoveryRunStatus::Failed => "failed",
        DiscoveryRunStatus::Aborted => "aborted",
    }
}

pub fn discovery_status_name(value: DiscoveryRunStatus) -> (name: &'static str)
    ensures
        name == discovery_status_text(value),
{
    match value {
        DiscoveryRunStatus::Running => "running",
        DiscoveryRunStatus::Succeeded => "succeeded",
        DiscoveryRunStatus::Failed => "failed",
        DiscoveryRunStatus::Aborted => "aborted",
    }
}

/// The discovery run status that a column text stands for.
pub open spec fn discovery_status_read(name: Seq<char>) -> Result<DiscoveryRunStatus, StorageError> {
    if name == "running"@ {
        Ok(DiscoveryRunStatus::Running)
    } else if name == "succeeded"@ {
        Ok(DiscoveryRunStatus::Succeeded)
    } else if name == "failed"@ {
        Ok(DiscoveryRunStatus::Failed)
    } else if name == "aborted"@ {
        Ok(DiscoveryRunStatus::Aborted)
    } else {
        Err(StorageError::InvalidData("invalid discovery status"))
    }
}

pub fn parse_discovery_status(value: &str) -> (r: Result<DiscoveryRunStatus, StorageError>)
    ensures
        r == discovery_status_read(value@),
{
    if text::same(value, "running") {
        Ok(DiscoveryRunStatus::Running)
    } else if text::same(value, "succeeded") {
        Ok(DiscoveryRunStatus::Succeeded)
    } else if text::same(value, "failed") {
        Ok(DiscoveryRunStatus::Failed)
    } else if text::same(value, "aborted") {
        Ok(DiscoveryRunStatus::Aborted)
    } else {
        Err(StorageError::InvalidData("invalid discovery status"))
    }
}

/// A stored discovery run status reads back as itself, and no other text reads as it.
pub proof fn discovery_status_round_trip(value: DiscoveryRunStatus, name: Seq<char>)
    ensures
        discovery_status_read(discovery_status_text(value)@) == Ok::<DiscoveryRunStatus, StorageError>(value),
        discovery_status_read(name) == Ok::<DiscoveryRunStatus, StorageError>(value) ==> name == discovery_status_text(value)@,
{
    reveal_strlit("running");
    reveal_strlit("succeeded");
    reveal_strlit("failed");
    reveal_strlit("aborted");
    assert("running"@.len() != "succeeded"@.len());
    assert("running"@.len() != "failed"@.len());
    assert("running"@[0] != "aborted"@[0]);
    assert("succeeded"@.len() != "failed"@.len());
    assert("succeeded"@.len() != "aborted"@.len());
    assert("failed"@.len() != "aborted"@.len());
}

/// The column text of a suggestion status.
pub open spec fn suggestion_status_text(value: SuggestionStatus) -> &'static str {
    match value {
        SuggestionStatus::Pending => "pending",
        SuggestionStatus::Snoozed => "snoozed",
        SuggestionStatus::Dismissed => "dismissed",
        SuggestionStatus::Accepted => "accepted",
        SuggestionStatus::Blocked => "blocked",
    }
}

pub fn suggestion_status_name(value: SuggestionStatus) -> (name: &'static str)
    ensures
        name == suggestion_status_text(value),
{
    match value {
        SuggestionStatus::Pending => "pending",
        SuggestionStatus::Snoozed => "snoozed",
        SuggestionStatus::Dismissed => "dismissed",
        SuggestionStatus::Accepted => "accepted",
        SuggestionStatus::Blocked => "blocked",
    }
}

/// The suggestion status that a column text stands for.
pub open spec fn suggestion_status_read(name: Seq<char>) -> Result<SuggestionStatus, StorageError> {
    if name == "pending"@ {
        Ok(SuggestionStatus::Pending)
    } else if name == "snoozed"@ {
        Ok(SuggestionStatus::Snoozed)
    } else if name == "dismissed"@ {
        Ok(SuggestionStatus::Dismissed)
    } else if name == "accepted"@ {
        Ok(SuggestionStatus::Accepted)
    } else if name == "blocked"@ {
        Ok(SuggestionStatus::Blocked)
    } else {
        Err(StorageError::InvalidData("invalid suggestion status"))
    }
}

pub fn parse_suggestion_status(value: &str) -> (r: Result<SuggestionStatus, StorageError>)
    ensures
        r == suggestion_status_read(value@),
{
    if text::same(value, "pending") {
        Ok(SuggestionStatus::Pending)
    } else if text::same(value, "snoozed") {
        Ok(SuggestionStatus::Snoozed)
    } else if text::same(value, "dismissed") {
        Ok(SuggestionStatus::Dismissed)
    } else if text::same(value, "accepted") {
        Ok(SuggestionStatus::Accepted)
    } else if text::same(value, "blocked") {
        Ok(SuggestionStatus::Blocked)
    } else {
        Err(StorageError::InvalidData("invalid suggestion status"))
    }
}

/// A stored suggestion status reads back as itself, and no other text reads as it.
pub proof fn suggestion_status_round_trip(value: SuggestionStatus, name: Seq<char>)
    ensures
        suggestion_status_read(suggestion_status_text(value)@) == Ok::<SuggestionStatus, StorageError>(value),
        suggestion_status_read(name) == Ok::<SuggestionStatus, StorageError>(value) ==> name == suggestion_status_text(value)@,
{
    reveal_strlit("pending");
    reveal_strlit("snoozed");
    reveal_strlit("dismissed");
    reveal_strlit("accepted");
    reveal_strlit("blocked");
    assert("pending"@[0] != "snoozed"@[0]);
    assert("pending"@.len() != "dismissed"@.len());
    assert("pending"@.len() != "accepted"@.len());
    assert("pending"@[0] != "blocked"@[0]);
    assert("snoozed"@.len() != "dismissed"@.len());
    assert("snoozed"@.len() != "accepted"@.len());
    assert("snoozed"@[0] != "blocked"@[0]);
    assert("dismissed"@.len() != "accepted"@.len());
    assert("dismissed"@.len() != "blocked"@.len());
    assert("accepted"@.len() != "blocked"@.len());
}

} // verus!
