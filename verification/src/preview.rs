//! What a ritual would do, and what stands in its way.

use vstd::prelude::*;
use crate::adapter::{AdapterConnection, AdapterManager, AdapterRequirements};
use crate::clock::Timestamp;
use crate::ids::Uuid;
use crate::policy;
use crate::protocol::{PreviewAction, RitualPreview};
use crate::resource::{Resource, ResourceKind};
use crate::ritual::{ActionSpec, Approval, RitualDefinition, RitualVersion};
use crate::text;

verus! {

/// What was found of the resource that an action names.
pub struct ResourceFacts {
    /// The registered resource.
    pub resource: Option<Resource>,
    /// Whether something stands at its canonical path.
    pub exists: bool,
    /// What the canonical path resolves to now.
    pub resolved_path: Option<String>,
    /// Whether a file or a directory stands there.
    pub found_kind: Option<ResourceKind>,
    /// Whether a browser observation of it is active.
    pub scope_active: bool,
}

impl ResourceFacts {
    /// The facts for an action that names no resource.
    pub fn none() -> (facts: ResourceFacts)
        ensures
            facts.resource is None,
            !facts.exists,
            facts.resolved_path is None,
            facts.found_kind is None,
            !facts.scope_active,
    {
        ResourceFacts {
            resource: None,
            exists: false,
            resolved_path: None,
            found_kind: None,
            scope_active: false,
        }
    }

    /// The resource is where it was when it was registered.
    pub open spec fn path_unchanged(self) -> bool {
        self.resource is Some && self.exists && self.resolved_path is Some
            && self.resolved_path->0@ == self.resource->0.canonical_locator@
    }

    /// The resource is what it was when it was registered.
    pub open spec fn kind_unchanged(self) -> bool {
        self.resource is Some && self.exists && self.found_kind is Some && self.found_kind->0
            == self.resource->0.kind
    }

    pub fn path_matches(&self) -> (r: bool)
        ensures
            r == self.path_unchanged(),
    {
        match (&self.resource, &self.resolved_path) {
            (Some(resource), Some(path)) => self.exists && text::same(
                path.as_str(),
                resource.canonical_locator.as_str(),
            ),
            _ => false,
        }
    }

    pub fn kind_matches(&self) -> (r: bool)
        ensures
            r == self.kind_unchanged(),
    {
        match (&self.resource, self.found_kind) {
            (Some(resource), Some(kind)) => self.exists && kind == resource.kind,
            _ => false,
        }
    }
}

/// A reason for which a request is refused.
#[derive(Clone, Copy, Debug, PartialEq, Eq)]
pub struct Rejection {
    pub code: &'static str,
    pub message: &'static str,
}

pub open spec fn is_eligible(connections: Seq<AdapterConnection>, action: ActionSpec) -> bool {
    !crate::adapter::none_satisfies(connections, crate::adapter::requirements_of(action))
}

/// Whether some connected adapter has the tool that an action needs, where it needs one.
pub open spec fn tool_found(connections: Seq<AdapterConnection>, action: ActionSpec) -> Option<
    bool,
> {
    match crate::adapter::requirements_of(action).required_tool {
        Some(tool) => Some(
            crate::adapter::any_offers_with_tool(
                connections,
                policy::entry_of(action).required_capability@,
                tool@,
            ),
        ),
        None => None,
    }
}

pub open spec fn entry_found(connections: Seq<AdapterConnection>, action: ActionSpec) -> Option<
    bool,
> {
    match action {
        ActionSpec::LinuxAppEnsureRunning { app_id } => crate::adapter::entry_known(
            connections,
            app_id@,
        ),
        _ => None,
    }
}

/// What stands in the way of an action on the side of its resource or application.
pub open spec fn target_warning(
    connections: Seq<AdapterConnection>,
    action: ActionSpec,
    facts: ResourceFacts,
) -> Option<&'static str> {
    match action {
        ActionSpec::LinuxPathOpen { .. } => if facts.resource is None {
            Some("resource was not found")
        } else if !facts.kind_unchanged() {
            Some("resource type changed")
        } else if !facts.path_unchanged() {
            Some("resource canonical path changed")
        } else {
            None
        },
        ActionSpec::LinuxAppEnsureRunning { .. } => if entry_found(connections, action) != Some(
            true,
        ) {
            Some("desktop entry was not found")
        } else {
            None
        },
        ActionSpec::DesktopNotificationShow { .. } => None,
        ActionSpec::BrowserTabEnsureOpen { .. } => if facts.resource is None {
            Some("resource was not found")
        } else if facts.resource->0.kind != ResourceKind::WebPage {
            Some("resource type changed")
        } else if !facts.scope_active {
            Some("observation scope is not active")
        } else {
            None
        },
    }
}

/// What stands in the way of an action.
pub open spec fn warning_of(
    connections: Seq<AdapterConnection>,
    action: ActionSpec,
    facts: ResourceFacts,
) -> Option<&'static str> {
    if action.check() is Err {
        Some("action validation failed")
    } else if target_warning(connections, action, facts) is Some {
        target_warning(connections, action, facts)
    } else if tool_found(connections, action) == Some(false) {
        Some("required executable is unavailable")
    } else if !crate::adapter::any_offers(
        connections,
        policy::entry_of(action).required_capability@,
    ) {
        Some("required adapter capability is unavailable")
    } else if !is_eligible(connections, action) {
        Some("no connected adapter instance satisfies the action requirements")
    } else {
        None
    }
}

/// Whether a preview of an action says what holds of it.
pub open spec fn is_preview_of(
    preview: PreviewAction,
    index: int,
    action: ActionSpec,
    connections: Seq<AdapterConnection>,
    facts: ResourceFacts,
) -> bool {
    let entry = policy::entry_of(action);
    let warning = warning_of(connections, action, facts);
    &&& preview.step_index == index
    &&& preview.action_type@ == entry.action_type@
    &&& preview.risk_level@ == entry.risk_level.label_text()
    &&& preview.idempotency@ == entry.idempotency.label_text()
    &&& preview.revertability@ == entry.revertability.label_text()
    &&& preview.required_capability@ == entry.required_capability@
    &&& preview.adapter_connected == crate::adapter::any_offers(
        connections,
        entry.required_capability@,
    )
    &&& preview.required_tool_available == tool_found(connections, action)
    &&& preview.desktop_entry_exists == entry_found(connections, action)
    &&& match action {
        ActionSpec::LinuxPathOpen { .. } => if facts.resource is Some {
            preview.resource_exists == Some(facts.exists) && preview.resource_path_matches == Some(
                facts.path_unchanged(),
            ) && preview.resource_kind_matches == Some(facts.kind_unchanged())
        } else {
            preview.resource_exists is None && preview.resource_path_matches is None
                && preview.resource_kind_matches is None
        },
        ActionSpec::BrowserTabEnsureOpen { .. } => if facts.resource is Some {
            preview.resource_exists == Some(true) && preview.resource_path_matches is None
                && preview.resource_kind_matches == Some(
                facts.resource->0.kind == ResourceKind::WebPage,
            )
        } else {
            preview.resource_exists is None && preview.resource_path_matches is None
                && preview.resource_kind_matches is None
        },
        _ => preview.resource_exists is None && preview.resource_path_matches is None
            && preview.resource_kind_matches is None,
    }
    &&& preview.warning is Some == warning is Some
    &&& warning is Some ==> preview.warning->0@ == warning->0@
}

/// Finds what stands in the way of an action.
fn find_warning(adapters: &AdapterManager, action: &ActionSpec, facts: &ResourceFacts) -> (r:
    Option<&'static str>)
    ensures
        r == warning_of(adapters.connections@, *action, *facts),
{
    if action.validate().is_err() {
        return Some("action validation failed");
    }
    match action {
        ActionSpec::LinuxPathOpen { .. } => {
            if facts.resource.is_none() {
                return Some("resource was not found");
            }
            if !facts.kind_matches() {
                return Some("resource type changed");
            }
            if !facts.path_matches() {
                return Some("resource canonical path changed");
            }
        },
        ActionSpec::LinuxAppEnsureRunning { app_id } => {
            match adapters.desktop_entry_available(app_id.as_str()) {
                Some(true) => {},
                _ => return Some("desktop entry was not found"),
            }
        },
        ActionSpec::DesktopNotificationShow { .. } => {},
        ActionSpec::BrowserTabEnsureOpen { .. } => match &facts.resource {
            None => return Some("resource was not found"),
            Some(resource) => {
                if resource.kind != ResourceKind::WebPage {
                    return Some("resource type changed");
                }
                if !facts.scope_active {
                    return Some("observation scope is not active");
                }
            },
        },
    }
    let capability = policy::descriptor(action).required_capability;
    let requirements = AdapterRequirements::from_action(action);
    if let Some(tool) = requirements.required_tool {
        if !adapters.capability_tool_available(capability, tool) {
            return Some("required executable is unavailable");
        }
    }
    if !adapters.capability_available(capability) {
        return Some("required adapter capability is unavailable");
    }
    match adapters.find_eligible(&requirements) {
        Ok(_) => None,
        Err(_) => Some("no connected adapter instance satisfies the action requirements"),
    }
}

/// Previews one action.
pub fn preview_action(
    index: u32,
    action: &ActionSpec,
    adapters: &AdapterManager,
    facts: &ResourceFacts,
) -> (preview: PreviewAction)
    ensures
        is_preview_of(preview, index as int, *action, adapters.connections@, *facts),
{
    let entry = policy::descriptor(action);
    let requirements = AdapterRequirements::from_action(action);
    let required_tool_available: Option<bool> = match requirements.required_tool {
        Some(tool) => Some(adapters.capability_tool_available(entry.required_capability, tool)),
        None => None,
    };
    let desktop_entry_exists: Option<bool> = match action {
        ActionSpec::LinuxAppEnsureRunning { app_id } => adapters.desktop_entry_available(
            app_id.as_str(),
        ),
        _ => None,
    };
    let (resource_exists, resource_path_matches, resource_kind_matches): (
        Option<bool>,
        Option<bool>,
        Option<bool>,
    ) = match (action, &facts.resource) {
        (ActionSpec::LinuxPathOpen { .. }, Some(_)) => (
            Some(facts.exists),
            Some(facts.path_matches()),
            Some(facts.kind_matches()),
        ),
        (ActionSpec::BrowserTabEnsureOpen { .. }, Some(resource)) => (
            Some(true),
            None,
            Some(resource.kind == ResourceKind::WebPage),
        ),
        _ => (None, None, None),
    };
    let warning: Option<String> = match find_warning(adapters, action, facts) {
        Some(message) => Some(message.to_owned()),
        None => None,
    };
    PreviewAction {
        step_index: index,
        action_type: entry.action_type.to_owned(),
        risk_level: entry.risk_level.label(),
        idempotency: entry.idempotency.label(),
        revertability: entry.revertability.label(),
        required_capability: entry.required_capability.to_owned(),
        adapter_connected: adapters.capability_available(entry.required_capability),
        required_tool_available,
        resource_exists,
        resource_path_matches,
        resource_kind_matches,
        desktop_entry_exists,
        warning,
    }
}

/// The line that a warning about the action at a place takes.
pub open spec fn warning_line(index: int, message: Seq<char>) -> Seq<char> {
    "action "@ + text::decimal_of((index + 1) as nat) + ": "@ + message
}

/// The lines of the warnings about the first `n` actions.
pub open spec fn warning_lines(
    connections: Seq<AdapterConnection>,
    actions: Seq<ActionSpec>,
    facts: Seq<ResourceFacts>,
    n: int,
) -> Seq<Seq<char>>
    decreases n,
{
    if n <= 0 {
        Seq::empty()
    } else {
        let before = warning_lines(connections, actions, facts, n - 1);
        match warning_of(connections, actions[n - 1], facts[n - 1]) {
            Some(message) => before.push(warning_line(n - 1, message@)),
            None => before,
        }
    }
}

pub open spec fn texts(lines: Seq<String>) -> Seq<Seq<char>> {
    lines.map_values(|line: String| line@)
}

/// Nothing stands in the way of any action.
pub open spec fn unobstructed(
    connections: Seq<AdapterConnection>,
    actions: Seq<ActionSpec>,
    facts: Seq<ResourceFacts>,
) -> bool {
    forall|i: int|
        0 <= i < actions.len() ==> warning_of(connections, #[trigger] actions[i], facts[i]) is None
}

/// Previews a ritual: every action in its order, and whether the ritual could run.
pub fn build_preview(
    ritual_id: Uuid,
    version_id: Uuid,
    definition: &RitualDefinition,
    adapters: &AdapterManager,
    facts: &Vec<ResourceFacts>,
) -> (preview: RitualPreview)
    requires
        facts@.len() == definition.actions@.len(),
        definition.actions@.len() <= u32::MAX,
    ensures
        preview.ritual_id == ritual_id,
        preview.ritual_version_id == version_id,
        preview.timeout_seconds == definition.execution.timeout_seconds,
        preview.actions@.len() == definition.actions@.len(),
        forall|i: int|
            0 <= i < preview.actions@.len() ==> is_preview_of(
                #[trigger] preview.actions@[i],
                i,
                definition.actions@[i],
                adapters.connections@,
                facts@[i],
            ),
        texts(preview.warnings@) == warning_lines(
            adapters.connections@,
            definition.actions@,
            facts@,
            definition.actions@.len() as int,
        ),
        preview.executable == unobstructed(
            adapters.connections@,
            definition.actions@,
            facts@,
        ),
{
    let mut actions: Vec<PreviewAction> = Vec::new();
    let mut warnings: Vec<String> = Vec::new();
    proof {
        assert(texts(warnings@) =~= Seq::<Seq<char>>::empty());
    }
    for i in 0..definition.actions.len()
        invariant
            facts@.len() == definition.actions@.len(),
            definition.actions@.len() <= u32::MAX,
            actions@.len() == i,
            forall|j: int|
                0 <= j < i ==> is_preview_of(
                    #[trigger] actions@[j],
                    j,
                    definition.actions@[j],
                    adapters.connections@,
                    facts@[j],
                ),
            texts(warnings@) == warning_lines(
                adapters.connections@,
                definition.actions@,
                facts@,
                i as int,
            ),
            warnings@.len() == 0 <==> forall|j: int|
                0 <= j < i ==> warning_of(
                    adapters.connections@,
                    #[trigger] definition.actions@[j],
                    facts@[j],
                ) is None,
    {
        let action = preview_action(i as u32, &definition.actions[i], adapters, &facts[i]);
        let ghost before = warnings@;
        if let Some(message) = &action.warning {
            let mut line: String = "action ".to_owned();
            let number: String = text::decimal(i as u64 + 1);
            line.append(number.as_str());
            line.append(": ");
            line.append(message.as_str());
            proof {
                assert(line@ =~= warning_line(i as int, message@));
            }
            let ghost added = line;
            warnings.push(line);
            proof {
                assert(texts(warnings@) =~= texts(before).push(added@));
                assert(warning_of(adapters.connections@, definition.actions@[i as int], facts@[i as int])
                    is Some);
            }
        }
        actions.push(action);
    }
    let executable: bool = warnings.len() == 0;
    RitualPreview {
        ritual_id,
        ritual_version_id: version_id,
        actions,
        timeout_seconds: definition.execution.timeout_seconds,
        warnings,
        executable,
    }
}

/// Whether an approval covers an action of a version: the version's content and the
/// action's identity are those that were approved.
pub open spec fn covers(approval: Approval, version: RitualVersion, action: ActionSpec) -> bool {
    let fields = policy::approval_identity(action);
    &&& approval.ritual_version_id == version.id
    &&& approval.content_hash@ == version.content_hash@
    &&& approval.action_type@ == fields.action_type@
    &&& approval.capability@ == fields.capability@
    &&& approval.resource_id == fields.resource_id
    &&& match (approval.app_id, fields.app_id) {
        (Some(a), Some(b)) => a@ == b@,
        (None, None) => true,
        _ => false,
    }
}

pub open spec fn is_approved(
    approvals: Seq<Approval>,
    version: RitualVersion,
    action: ActionSpec,
) -> bool {
    exists|i: int| 0 <= i < approvals.len() && covers(#[trigger] approvals[i], version, action)
}

fn approved(approvals: &Vec<Approval>, version: &RitualVersion, action: &ActionSpec) -> (r: bool)
    ensures
        r == is_approved(approvals@, *version, *action),
{
    let fields = policy::approval_fields(action);
    for i in 0..approvals.len()
        invariant
            fields == policy::approval_identity(*action),
            forall|j: int| 0 <= j < i ==> !covers(#[trigger] approvals@[j], *version, *action),
    {
        let approval = &approvals[i];
        let same_app: bool = match (&approval.app_id, &fields.app_id) {
            (Some(a), Some(b)) => text::same(a.as_str(), b.as_str()),
            (None, None) => true,
            _ => false,
        };
        let same_resource: bool = match (approval.resource_id, fields.resource_id) {
            (Some(a), Some(b)) => a == b,
            (None, None) => true,
            _ => false,
        };
        if approval.ritual_version_id == version.id && same_app && same_resource && text::same(
            approval.content_hash.as_str(),
            version.content_hash.as_str(),
        ) && text::same(approval.action_type.as_str(), fields.action_type) && text::same(
            approval.capability.as_str(),
            fields.capability,
        ) {
            assert(covers(approvals@[i as int], *version, *action));
            return true;
        }
    }
    false
}

/// The error for what stands in the way of an action on the side of its resource or
/// application, just before it runs.
pub open spec fn target_fault(
    connections: Seq<AdapterConnection>,
    action: ActionSpec,
    facts: ResourceFacts,
) -> Option<Rejection> {
    match action {
        ActionSpec::LinuxPathOpen { .. } => if facts.resource is None {
            Some(Rejection { code: "resource_not_found", message: "resource was not found" })
        } else if !facts.exists {
            Some(Rejection { code: "resource_changed", message: "resource no longer exists" })
        } else if !facts.path_unchanged() {
            Some(Rejection { code: "resource_changed", message: "resource canonical path changed" })
        } else if !facts.kind_unchanged() {
            Some(Rejection { code: "resource_changed", message: "resource type changed" })
        } else {
            None
        },
        ActionSpec::LinuxAppEnsureRunning { .. } => if entry_found(connections, action) != Some(
            true,
        ) {
            Some(
                Rejection {
                    code: "desktop_entry_not_found",
                    message: "desktop entry was not found",
                },
            )
        } else {
            None
        },
        ActionSpec::DesktopNotificationShow { .. } => None,
        ActionSpec::BrowserTabEnsureOpen { .. } => if facts.resource is None {
            Some(Rejection { code: "resource_not_found", message: "resource was not found" })
        } else if facts.resource->0.kind != ResourceKind::WebPage {
            Some(Rejection { code: "resource_changed", message: "resource type changed" })
        } else if !facts.scope_active {
            Some(
                Rejection {
                    code: "resource_changed",
                    message: "observation scope is not active",
                },
            )
        } else {
            None
        },
    }
}

/// The first error that an action meets just before it runs.
pub open spec fn action_fault(
    connections: Seq<AdapterConnection>,
    approvals: Seq<Approval>,
    version: RitualVersion,
    action: ActionSpec,
    facts: ResourceFacts,
) -> Option<Rejection> {
    if action.check() is Err {
        Some(Rejection { code: "invalid_ritual", message: "action validation failed" })
    } else if !policy::risk_permitted(policy::entry_of(action).risk_level) {
        Some(Rejection { code: "unknown_action", message: "action is not registered" })
    } else if !crate::adapter::any_offers(
        connections,
        policy::entry_of(action).required_capability@,
    ) {
        Some(
            Rejection {
                code: "capability_unavailable",
                message: "required adapter capability is unavailable",
            },
        )
    } else if tool_found(connections, action) == Some(false) {
        Some(
            Rejection {
                code: "tool_unavailable",
                message: "required executable is unavailable",
            },
        )
    } else if !is_approved(approvals, version, action) {
        Some(
            Rejection {
                code: "ritual_not_approved",
                message: "ritual version approval is missing or stale",
            },
        )
    } else if target_fault(connections, action, facts) is Some {
        target_fault(connections, action, facts)
    } else if !is_eligible(connections, action) {
        Some(
            Rejection {
                code: "capability_unavailable",
                message: "no connected adapter instance satisfies the action requirements",
            },
        )
    } else {
        None
    }
}

fn check_action(
    adapters: &AdapterManager,
    approvals: &Vec<Approval>,
    version: &RitualVersion,
    action: &ActionSpec,
    facts: &ResourceFacts,
) -> (r: Option<Rejection>)
    ensures
        r == action_fault(adapters.connections@, approvals@, *version, *action, *facts),
{
    if action.validate().is_err() {
        return Some(Rejection { code: "invalid_ritual", message: "action validation failed" });
    }
    let entry = match policy::validate_action(action) {
        Ok(entry) => entry,
        Err(_) => {
            return Some(Rejection { code: "unknown_action", message: "action is not registered" });
        },
    };
    if !adapters.capability_available(entry.required_capability) {
        return Some(
            Rejection {
                code: "capability_unavailable",
                message: "required adapter capability is unavailable",
            },
        );
    }
    let requirements = AdapterRequirements::from_action(action);
    if let Some(tool) = requirements.required_tool {
        if !adapters.capability_tool_available(entry.required_capability, tool) {
            return Some(
                Rejection {
                    code: "tool_unavailable",
                    message: "required executable is unavailable",
                },
            );
        }
    }
    if !approved(approvals, version, action) {
        return Some(
            Rejection {
                code: "ritual_not_approved",
                message: "ritual version approval is missing or stale",
            },
        );
    }
    match action {
        ActionSpec::LinuxPathOpen { .. } => {
            if facts.resource.is_none() {
                return Some(
                    Rejection { code: "resource_not_found", message: "resource was not found" },
                );
            }
            if !facts.exists {
                return Some(
                    Rejection { code: "resource_changed", message: "resource no longer exists" },
                );
            }
            if !facts.path_matches() {
                return Some(
                    Rejection {
                        code: "resource_changed",
                        message: "resource canonical path changed",
                    },
                );
            }
            if !facts.kind_matches() {
                return Some(
                    Rejection { code: "resource_changed", message: "resource type changed" },
                );
            }
        },
        ActionSpec::LinuxAppEnsureRunning { app_id } => {
            match adapters.desktop_entry_available(app_id.as_str()) {
                Some(true) => {},
                _ => {
                    return Some(
                        Rejection {
                            code: "desktop_entry_not_found",
                            message: "desktop entry was not found",
                        },
                    );
                },
            }
        },
        ActionSpec::DesktopNotificationShow { .. } => {},
        ActionSpec::BrowserTabEnsureOpen { .. } => match &facts.resource {
            None => {
                return Some(
                    Rejection { code: "resource_not_found", message: "resource was not found" },
                );
            },
            Some(resource) => {
                if resource.kind != ResourceKind::WebPage {
                    return Some(
                        Rejection { code: "resource_changed", message: "resource type changed" },
                    );
                }
                if !facts.scope_active {
                    return Some(
                        Rejection {
                            code: "resource_changed",
                            message: "observation scope is not active",
                        },
                    );
                }
            },
        },
    }
    match adapters.find_eligible(&requirements) {
        Ok(_) => None,
        Err(_) => Some(
            Rejection {
                code: "capability_unavailable",
                message: "no connected adapter instance satisfies the action requirements",
            },
        ),
    }
}

/// The first error that the actions from place `from` on meet.
pub open spec fn first_fault(
    connections: Seq<AdapterConnection>,
    approvals: Seq<Approval>,
    version: RitualVersion,
    actions: Seq<ActionSpec>,
    facts: Seq<ResourceFacts>,
    from: int,
) -> Option<Rejection>
    decreases actions.len() - from,
{
    if from < 0 || from >= actions.len() {
        None
    } else {
        match action_fault(connections, approvals, version, actions[from], facts[from]) {
            Some(fault) => Some(fault),
            None => first_fault(connections, approvals, version, actions, facts, from + 1),
        }
    }
}

/// Checks a ritual just before it runs: every action in its order, up to the first that
/// may not run.
pub fn preflight(
    version: &RitualVersion,
    definition: &RitualDefinition,
    approvals: &Vec<Approval>,
    adapters: &AdapterManager,
    facts: &Vec<ResourceFacts>,
) -> (r: Result<(), Rejection>)
    requires
        facts@.len() == definition.actions@.len(),
    ensures
        r == (match first_fault(
            adapters.connections@,
            approvals@,
            *version,
            definition.actions@,
            facts@,
            0,
        ) {
            Some(fault) => Err(fault),
            None => Ok(()),
        }),
{
    let mut i: usize = 0;
    while i < definition.actions.len()
        invariant
            facts@.len() == definition.actions@.len(),
            i <= definition.actions@.len(),
            first_fault(
                adapters.connections@,
                approvals@,
                *version,
                definition.actions@,
                facts@,
                0,
            ) == first_fault(
                adapters.connections@,
                approvals@,
                *version,
                definition.actions@,
                facts@,
                i as int,
            ),
        decreases definition.actions@.len() - i,
    {
        if let Some(fault) = check_action(
            adapters,
            approvals,
            version,
            &definition.actions[i],
            &facts[i],
        ) {
            return Err(fault);
        }
        i = i + 1;
    }
    Ok(())
}

/// Whether an approval record is the one that an activation makes for an action.
pub open spec fn is_approval_of(
    approval: Approval,
    id: Uuid,
    version: RitualVersion,
    action: ActionSpec,
    now: Timestamp,
) -> bool {
    &&& approval.id == id
    &&& approval.approved_at == now
    &&& covers(approval, version, action)
}

/// The approvals that an activation records: one for each action, tied to the content of
/// the version.
pub fn approvals_for(
    version: &RitualVersion,
    definition: &RitualDefinition,
    ids: &Vec<Uuid>,
    now: Timestamp,
) -> (approvals: Vec<Approval>)
    requires
        ids@.len() == definition.actions@.len(),
    ensures
        approvals@.len() == definition.actions@.len(),
        forall|i: int|
            0 <= i < approvals@.len() ==> is_approval_of(
                #[trigger] approvals@[i],
                ids@[i],
                *version,
                definition.actions@[i],
                now,
            ),
{
    let mut approvals: Vec<Approval> = Vec::new();
    for i in 0..definition.actions.len()
        invariant
            ids@.len() == definition.actions@.len(),
            approvals@.len() == i,
            forall|j: int|
                0 <= j < i ==> is_approval_of(
                    #[trigger] approvals@[j],
                    ids@[j],
                    *version,
                    definition.actions@[j],
                    now,
                ),
    {
        let fields = policy::approval_fields(&definition.actions[i]);
        approvals.push(
            Approval {
                id: ids[i],
                ritual_version_id: version.id,
                action_type: fields.action_type.to_owned(),
                capability: fields.capability.to_owned(),
                resource_id: fields.resource_id,
                app_id: fields.app_id,
                content_hash: version.content_hash.clone(),
                approved_at: now,
            },
        );
    }
    approvals
}

proof fn no_fault_from(
    connections: Seq<AdapterConnection>,
    approvals: Seq<Approval>,
    version: RitualVersion,
    actions: Seq<ActionSpec>,
    facts: Seq<ResourceFacts>,
    from: int,
)
    requires
        0 <= from <= actions.len(),
    ensures
        first_fault(connections, approvals, version, actions, facts, from) is None
            <==> forall|i: int|
            from <= i < actions.len() ==> action_fault(
                connections,
                approvals,
                version,
                #[trigger] actions[i],
                facts[i],
            ) is None,
    decreases actions.len() - from,
{
    if from < actions.len() {
        no_fault_from(connections, approvals, version, actions, facts, from + 1);
        assert forall|i: int| from <= i < actions.len() && first_fault(
            connections,
            approvals,
            version,
            actions,
            facts,
            from,
        ) is None implies action_fault(
            connections,
            approvals,
            version,
            #[trigger] actions[i],
            facts[i],
        ) is None by {
            if i == from {
                assert(action_fault(connections, approvals, version, actions[from], facts[from])
                    is None);
            }
        }
        if forall|i: int|
            from <= i < actions.len() ==> action_fault(
                connections,
                approvals,
                version,
                #[trigger] actions[i],
                facts[i],
            ) is None {
            assert(action_fault(connections, approvals, version, actions[from], facts[from])
                is None);
        }
    }
}

/// A preview and the check before a run judge alike: an unobstructed ritual whose actions
/// are all approved passes, and one that passes is unobstructed and approved.
pub proof fn preview_agrees_with_preflight(
    connections: Seq<AdapterConnection>,
    approvals: Seq<Approval>,
    version: RitualVersion,
    actions: Seq<ActionSpec>,
    facts: Seq<ResourceFacts>,
)
    requires
        facts.len() == actions.len(),
    ensures
        first_fault(connections, approvals, version, actions, facts, 0) is None <==> unobstructed(
            connections,
            actions,
            facts,
        ) && forall|i: int|
            0 <= i < actions.len() ==> is_approved(approvals, version, #[trigger] actions[i]),
{
    no_fault_from(connections, approvals, version, actions, facts, 0);
    assert forall|i: int| 0 <= i < actions.len() implies (action_fault(
        connections,
        approvals,
        version,
        #[trigger] actions[i],
        facts[i],
    ) is None <==> warning_of(connections, actions[i], facts[i]) is None && is_approved(
        approvals,
        version,
        actions[i],
    )) by {
        policy::every_action_is_permitted(actions[i]);
    }
    if unobstructed(connections, actions, facts) && forall|i: int|
        0 <= i < actions.len() ==> is_approved(approvals, version, #[trigger] actions[i]) {
        assert forall|i: int| 0 <= i < actions.len() implies action_fault(
            connections,
            approvals,
            version,
            #[trigger] actions[i],
            facts[i],
        ) is None by {
            assert(warning_of(connections, actions[i], facts[i]) is None);
            assert(is_approved(approvals, version, actions[i]));
        }
    }
    if first_fault(connections, approvals, version, actions, facts, 0) is None {
        assert forall|i: int| 0 <= i < actions.len() implies warning_of(
            connections,
            #[trigger] actions[i],
            facts[i],
        ) is None && is_approved(approvals, version, actions[i]) by {
            assert(action_fault(connections, approvals, version, actions[i], facts[i]) is None);
        }
    }
}

/// What an activation approves, the check before a run finds approved.
pub proof fn activation_approves_every_action(
    approvals: Seq<Approval>,
    ids: Seq<Uuid>,
    version: RitualVersion,
    actions: Seq<ActionSpec>,
    now: Timestamp,
    k: int,
)
    requires
        approvals.len() == actions.len(),
        0 <= k < actions.len(),
        forall|i: int|
            0 <= i < approvals.len() ==> is_approval_of(
                #[trigger] approvals[i],
                ids[i],
                version,
                actions[i],
                now,
            ),
    ensures
        is_approved(approvals, version, actions[k]),
{
    assert(is_approval_of(approvals[k], ids[k], version, actions[k], now));
    assert(covers(approvals[k], version, actions[k]));
}

/// Approvals of other versions, or of other content, approve nothing: a ritual that
/// was changed does not run until it is approved anew.
pub proof fn stale_approvals_stop_a_run(
    connections: Seq<AdapterConnection>,
    approvals: Seq<Approval>,
    version: RitualVersion,
    actions: Seq<ActionSpec>,
    facts: Seq<ResourceFacts>,
)
    requires
        facts.len() == actions.len(),
        actions.len() > 0,
        forall|i: int|
            0 <= i < approvals.len() ==> (#[trigger] approvals[i]).ritual_version_id != version.id
                || approvals[i].content_hash@ != version.content_hash@,
    ensures
        first_fault(connections, approvals, version, actions, facts, 0) is Some,
{
    preview_agrees_with_preflight(connections, approvals, version, actions, facts);
    assert(!is_approved(approvals, version, actions[0]));
}

/// An action that nothing stands in the way of has one adapter instance that satisfies
/// everything it requires, and its resource is where and what it was.
pub proof fn unobstructed_action_is_sound(
    connections: Seq<AdapterConnection>,
    action: ActionSpec,
    facts: ResourceFacts,
)
    requires
        warning_of(connections, action, facts) is None,
    ensures
        action.check() is Ok,
        exists|i: int|
            0 <= i < connections.len() && crate::adapter::satisfies(
                (#[trigger] connections[i]).hello,
                crate::adapter::requirements_of(action),
            ),
        action is LinuxPathOpen ==> facts.path_unchanged() && facts.kind_unchanged(),
        action is BrowserTabEnsureOpen ==> facts.resource is Some && facts.resource->0.kind
            == ResourceKind::WebPage && facts.scope_active,
{
}

} // verus!
