//! The fixed action registry and the risk policy.

use vstd::prelude::*;
use crate::ids::Uuid;
use crate::ritual::ActionSpec;
use crate::text;

verus! {

#[derive(Clone, Copy, Debug, PartialEq, Eq, Structural)]
pub enum RiskLevel {
    R0,
    R1,
    R2,
    R3,
}

#[derive(Clone, Copy, Debug, PartialEq, Eq, Structural)]
pub enum Idempotency {
    Idempotent,
    BestEffort,
    NonIdempotent,
}

#[derive(Clone, Copy, Debug, PartialEq, Eq, Structural)]
pub enum Revertability {
    NoStateChange,
    PartiallyRevertable,
    NotRevertable,
}

#[derive(Clone, Copy, Debug, PartialEq, Eq)]
pub struct ActionDescriptor {
    pub action_type: &'static str,
    pub schema_version: &'static str,
    pub risk_level: RiskLevel,
    pub idempotency: Idempotency,
    pub revertability: Revertability,
    pub required_capability: &'static str,
    pub default_timeout_ms: u64,
}

pub open spec fn app_ensure_running_entry() -> ActionDescriptor {
    ActionDescriptor {
        action_type: "linux.app.ensure_running.v1",
        schema_version: "1",
        risk_level: RiskLevel::R1,
        idempotency: Idempotency::BestEffort,
        revertability: Revertability::NotRevertable,
        required_capability: "linux.app.ensure_running.v1",
        default_timeout_ms: 10_000,
    }
}

pub open spec fn path_open_entry() -> ActionDescriptor {
    ActionDescriptor {
        action_type: "linux.path.open.v1",
        schema_version: "1",
        risk_level: RiskLevel::R1,
        idempotency: Idempotency::BestEffort,
        revertability: Revertability::NoStateChange,
        required_capability: "linux.path.open.v1",
        default_timeout_ms: 10_000,
    }
}

pub open spec fn notification_show_entry() -> ActionDescriptor {
    ActionDescriptor {
        action_type: "desktop.notification.show.v1",
        schema_version: "1",
        risk_level: RiskLevel::R0,
        idempotency: Idempotency::NonIdempotent,
        revertability: Revertability::NoStateChange,
        required_capability: "desktop.notification.show.v1",
        default_timeout_ms: 10_000,
    }
}

pub open spec fn browser_tab_ensure_open_entry() -> ActionDescriptor {
    ActionDescriptor {
        action_type: "browser.tab.ensure_open.v1",
        schema_version: "1",
        risk_level: RiskLevel::R1,
        idempotency: Idempotency::BestEffort,
        revertability: Revertability::PartiallyRevertable,
        required_capability: "browser.tab.ensure_open.v1",
        default_timeout_ms: 10_000,
    }
}

/// The whole registry.
pub open spec fn registry() -> Seq<ActionDescriptor> {
    seq![
        app_ensure_running_entry(),
        path_open_entry(),
        notification_show_entry(),
        browser_tab_ensure_open_entry(),
    ]
}

pub fn descriptors() -> (r: [ActionDescriptor; 4])
    ensures
        r@ == registry(),
{
    [
        ActionDescriptor {
            action_type: "linux.app.ensure_running.v1",
            schema_version: "1",
            risk_level: RiskLevel::R1,
            idempotency: Idempotency::BestEffort,
            revertability: Revertability::NotRevertable,
            required_capability: "linux.app.ensure_running.v1",
            default_timeout_ms: 10_000,
        },
        ActionDescriptor {
            action_type: "linux.path.open.v1",
            schema_version: "1",
            risk_level: RiskLevel::R1,
            idempotency: Idempotency::BestEffort,
            revertability: Revertability::NoStateChange,
            required_capability: "linux.path.open.v1",
            default_timeout_ms: 10_000,
        },
        ActionDescriptor {
            action_type: "desktop.notification.show.v1",
            schema_version: "1",
            risk_level: RiskLevel::R0,
            idempotency: Idempotency::NonIdempotent,
            revertability: Revertability::NoStateChange,
            required_capability: "desktop.notification.show.v1",
            default_timeout_ms: 10_000,
        },
        ActionDescriptor {
            action_type: "browser.tab.ensure_open.v1",
            schema_version: "1",
            risk_level: RiskLevel::R1,
            idempotency: Idempotency::BestEffort,
            revertability: Revertability::PartiallyRevertable,
            required_capability: "browser.tab.ensure_open.v1",
            default_timeout_ms: 10_000,
        },
    ]
}

/// The registry entry of an action.
pub open spec fn entry_of(action: ActionSpec) -> ActionDescriptor {
    match action {
        ActionSpec::LinuxAppEnsureRunning { .. } => app_ensure_running_entry(),
        ActionSpec::LinuxPathOpen { .. } => path_open_entry(),
        ActionSpec::DesktopNotificationShow { .. } => notification_show_entry(),
        ActionSpec::BrowserTabEnsureOpen { .. } => browser_tab_ensure_open_entry(),
    }
}

pub fn descriptor(action: &ActionSpec) -> (r: ActionDescriptor)
    ensures
        r == entry_of(*action),
{
    let all = descriptors();
    match action {
        ActionSpec::LinuxAppEnsureRunning { .. } => all[0],
        ActionSpec::LinuxPathOpen { .. } => all[1],
        ActionSpec::DesktopNotificationShow { .. } => all[2],
        ActionSpec::BrowserTabEnsureOpen { .. } => all[3],
    }
}

/// The entry that is registered under a type name, if one is.
pub open spec fn entry_named(action_type: Seq<char>) -> Option<ActionDescriptor> {
    if action_type == "linux.app.ensure_running.v1"@ {
        Some(app_ensure_running_entry())
    } else if action_type == "linux.path.open.v1"@ {
        Some(path_open_entry())
    } else if action_type == "desktop.notification.show.v1"@ {
        Some(notification_show_entry())
    } else if action_type == "browser.tab.ensure_open.v1"@ {
        Some(browser_tab_ensure_open_entry())
    } else {
        None
    }
}

pub fn descriptor_by_type(action_type: &str) -> (r: Option<ActionDescriptor>)
    ensures
        r == entry_named(action_type@),
{
    let all = descriptors();
    if text::same(action_type, all[0].action_type) {
        Some(all[0])
    } else if text::same(action_type, all[1].action_type) {
        Some(all[1])
    } else if text::same(action_type, all[2].action_type) {
        Some(all[2])
    } else if text::same(action_type, all[3].action_type) {
        Some(all[3])
    } else {
        None
    }
}

/// No two registry entries share a type name.
pub proof fn registry_types_distinct()
    ensures
        forall|i: int, j: int|
            0 <= i < j < 4 ==> #[trigger] registry()[i].action_type@
                != #[trigger] registry()[j].action_type@,
{
    reveal_strlit("linux.app.ensure_running.v1");
    reveal_strlit("linux.path.open.v1");
    reveal_strlit("desktop.notification.show.v1");
    reveal_strlit("browser.tab.ensure_open.v1");
    assert("linux.app.ensure_running.v1"@.len() != "linux.path.open.v1"@.len());
    assert("linux.app.ensure_running.v1"@[0] != "browser.tab.ensure_open.v1"@[0]);
    assert("linux.app.ensure_running.v1"@[0] != "desktop.notification.show.v1"@[0]);
}

/// Only actions of the two lowest risk levels are registered, and the capability an
/// adapter must declare for an action is the action's own type.
pub proof fn registry_is_low_risk(i: int)
    requires
        0 <= i < registry().len(),
    ensures
        registry()[i].risk_level == RiskLevel::R0 || registry()[i].risk_level == RiskLevel::R1,
        registry()[i].required_capability == registry()[i].action_type,
{
}

/// Looking an action's type name up finds the entry of that action.
pub proof fn lookup_by_type_agrees(action: ActionSpec)
    ensures
        entry_of(action).action_type == action.kind_name(),
        entry_named(action.kind_name()@) == Some(entry_of(action)),
{
    registry_types_distinct();
    assert(registry()[0].action_type@ != registry()[1].action_type@);
    assert(registry()[0].action_type@ != registry()[2].action_type@);
    assert(registry()[0].action_type@ != registry()[3].action_type@);
    assert(registry()[1].action_type@ != registry()[2].action_type@);
    assert(registry()[1].action_type@ != registry()[3].action_type@);
    assert(registry()[2].action_type@ != registry()[3].action_type@);
}

#[derive(Clone, Debug, PartialEq, Eq)]
pub struct ApprovalFields {
    pub action_type: &'static str,
    pub capability: &'static str,
    pub resource_id: Option<Uuid>,
    pub app_id: Option<String>,
}

/// What an approval of the action records: the action's identity and the resource or
/// application it is tied to, never a path.
pub open spec fn approval_identity(action: ActionSpec) -> ApprovalFields {
    ApprovalFields {
        action_type: entry_of(action).action_type,
        capability: entry_of(action).required_capability,
        resource_id: match action {
            ActionSpec::LinuxPathOpen { resource_id } => Some(resource_id),
            ActionSpec::BrowserTabEnsureOpen { resource_id } => Some(resource_id),
            _ => None,
        },
        app_id: match action {
            ActionSpec::LinuxAppEnsureRunning { app_id } => Some(app_id),
            _ => None,
        },
    }
}

pub fn approval_fields(action: &ActionSpec) -> (r: ApprovalFields)
    ensures
        r == approval_identity(*action),
{
    let entry = descriptor(action);
    let action_type = entry.action_type;
    let capability = entry.required_capability;
    match action {
        ActionSpec::LinuxAppEnsureRunning { app_id } => ApprovalFields {
            action_type,
            capability,
            resource_id: None,
            app_id: Some(app_id.clone()),
        },
        ActionSpec::LinuxPathOpen { resource_id } => ApprovalFields {
            action_type,
            capability,
            resource_id: Some(*resource_id),
            app_id: None,
        },
        ActionSpec::DesktopNotificationShow { .. } => ApprovalFields {
            action_type,
            capability,
            resource_id: None,
            app_id: None,
        },
        ActionSpec::BrowserTabEnsureOpen { resource_id } => ApprovalFields {
            action_type,
            capability,
            resource_id: Some(*resource_id),
            app_id: None,
        },
    }
}

#[derive(Clone, Copy, Debug, PartialEq, Eq, Structural)]
pub enum PolicyError {
    UnknownAction,
    RiskNotPermitted,
}

impl PolicyError {
    pub open spec fn message_text(self) -> Seq<char> {
        match self {
            PolicyError::UnknownAction => "action is not registered"@,
            PolicyError::RiskNotPermitted =>
                "risk level is not permitted for Phase 2 manual execution"@,
        }
    }

    pub fn message(&self) -> (message: String)
        ensures
            message@ == self.message_text(),
    {
        match self {
            PolicyError::UnknownAction => "action is not registered".to_owned(),
            PolicyError::RiskNotPermitted => {
                "risk level is not permitted for Phase 2 manual execution".to_owned()
            },
        }
    }
}

impl RiskLevel {
    pub open spec fn label_text(self) -> Seq<char> {
        match self {
            RiskLevel::R0 => "R0"@,
            RiskLevel::R1 => "R1"@,
            RiskLevel::R2 => "R2"@,
            RiskLevel::R3 => "R3"@,
        }
    }

    pub fn label(&self) -> (label: String)
        ensures
            label@ == self.label_text(),
    {
        match self {
            RiskLevel::R0 => "R0".to_owned(),
            RiskLevel::R1 => "R1".to_owned(),
            RiskLevel::R2 => "R2".to_owned(),
            RiskLevel::R3 => "R3".to_owned(),
        }
    }
}

impl Idempotency {
    pub open spec fn label_text(self) -> Seq<char> {
        match self {
            Idempotency::Idempotent => "Idempotent"@,
            Idempotency::BestEffort => "BestEffort"@,
            Idempotency::NonIdempotent => "NonIdempotent"@,
        }
    }

    pub fn label(&self) -> (label: String)
        ensures
            label@ == self.label_text(),
    {
        match self {
            Idempotency::Idempotent => "Idempotent".to_owned(),
            Idempotency::BestEffort => "BestEffort".to_owned(),
            Idempotency::NonIdempotent => "NonIdempotent".to_owned(),
        }
    }
}

impl Revertability {
    pub open spec fn label_text(self) -> Seq<char> {
        match self {
            Revertability::NoStateChange => "NoStateChange"@,
            Revertability::PartiallyRevertable => "PartiallyRevertable"@,
            Revertability::NotRevertable => "NotRevertable"@,
        }
    }

    pub fn label(&self) -> (label: String)
        ensures
            label@ == self.label_text(),
    {
        match self {
            Revertability::NoStateChange => "NoStateChange".to_owned(),
            Revertability::PartiallyRevertable => "PartiallyRevertable".to_owned(),
            Revertability::NotRevertable => "NotRevertable".to_owned(),
        }
    }
}

/// Whether actions of a risk level may be executed by hand.
pub open spec fn risk_permitted(level: RiskLevel) -> bool {
    level == RiskLevel::R0 || level == RiskLevel::R1
}

pub fn permits_risk(level: RiskLevel) -> (r: bool)
    ensures
        r == risk_permitted(level),
{
    match level {
        RiskLevel::R0 | RiskLevel::R1 => true,
        RiskLevel::R2 | RiskLevel::R3 => false,
    }
}

pub fn validate_action(action: &ActionSpec) -> (r: Result<ActionDescriptor, PolicyError>)
    ensures
        r == (if risk_permitted(entry_of(*action).risk_level) {
            Ok(entry_of(*action))
        } else {
            Err(PolicyError::RiskNotPermitted)
        }),
{
    let entry = descriptor(action);
    if !permits_risk(entry.risk_level) {
        return Err(PolicyError::RiskNotPermitted);
    }
    Ok(entry)
}

/// Every action there is passes the risk policy.
pub proof fn every_action_is_permitted(action: ActionSpec)
    ensures
        risk_permitted(entry_of(action).risk_level),
{
}

} // verus!
