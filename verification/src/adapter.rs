//! The registry of connected adapters, the choice of one for an action, and the requests
//! that wait for an answer.

use vstd::prelude::*;
use crate::clock::Timestamp;
use crate::event::{BROWSER_EVENT_TYPE, VSCODE_EVENT_TYPE};
use crate::ids::Uuid;
use crate::protocol::{
    ActionResult, AdapterHello, AdapterReport, AdapterResponseBody, AdapterResponseEnvelope,
    AdapterToolStatus,
};
use crate::ritual::ActionSpec;
use crate::text;

verus! {

pub const LINUX_ADAPTER_ID: &'static str = "dev.fubun.linux";

pub const BROWSER_ADAPTER_ID: &'static str = "dev.fubun.browser.chromium";

pub const VSCODE_ADAPTER_ID: &'static str = "dev.fubun.vscode";

pub const MAX_ADAPTER_VERSION_BYTES: usize = 128;

pub const MAX_CAPABILITIES: usize = 16;

pub const MAX_CAPABILITY_BYTES: usize = 128;

#[derive(Clone, Copy, Debug, PartialEq, Eq, Structural)]
pub enum AdapterDispatchErrorKind {
    Unavailable,
    CapabilityUnavailable,
    Timeout,
    Disconnected,
    Protocol,
}

impl AdapterDispatchErrorKind {
    pub open spec fn message_text(self) -> Seq<char> {
        match self {
            AdapterDispatchErrorKind::Unavailable => "adapter is unavailable"@,
            AdapterDispatchErrorKind::CapabilityUnavailable =>
                "required adapter capability is unavailable"@,
            AdapterDispatchErrorKind::Timeout => "adapter action timed out"@,
            AdapterDispatchErrorKind::Disconnected => "adapter disconnected"@,
            AdapterDispatchErrorKind::Protocol => "adapter protocol error"@,
        }
    }

    pub fn message(&self) -> (message: String)
        ensures
            message@ == self.message_text(),
    {
        match self {
            AdapterDispatchErrorKind::Unavailable => "adapter is unavailable".to_owned(),
            AdapterDispatchErrorKind::CapabilityUnavailable => {
                "required adapter capability is unavailable".to_owned()
            },
            AdapterDispatchErrorKind::Timeout => "adapter action timed out".to_owned(),
            AdapterDispatchErrorKind::Disconnected => "adapter disconnected".to_owned(),
            AdapterDispatchErrorKind::Protocol => "adapter protocol error".to_owned(),
        }
    }
}

/// What one adapter instance has to offer for an action.
#[derive(Clone, Debug, PartialEq, Eq)]
pub struct AdapterRequirements {
    pub capability: &'static str,
    pub required_tool: Option<&'static str>,
    pub desktop_entry_id: Option<String>,
    pub permitted_resource_id: Option<Uuid>,
}

pub open spec fn requirements_of(action: ActionSpec) -> AdapterRequirements {
    match action {
        ActionSpec::LinuxAppEnsureRunning { app_id } => AdapterRequirements {
            capability: "linux.app.ensure_running.v1",
            required_tool: Some("gtk-launch"),
            desktop_entry_id: Some(app_id),
            permitted_resource_id: None,
        },
        ActionSpec::LinuxPathOpen { .. } => AdapterRequirements {
            capability: "linux.path.open.v1",
            required_tool: Some("xdg-open"),
            desktop_entry_id: None,
            permitted_resource_id: None,
        },
        ActionSpec::DesktopNotificationShow { .. } => AdapterRequirements {
            capability: "desktop.notification.show.v1",
            required_tool: Some("notify-send"),
            desktop_entry_id: None,
            permitted_resource_id: None,
        },
        ActionSpec::BrowserTabEnsureOpen { resource_id } => AdapterRequirements {
            capability: "browser.tab.ensure_open.v1",
            required_tool: None,
            desktop_entry_id: None,
            permitted_resource_id: Some(resource_id),
        },
    }
}

impl AdapterRequirements {
    pub fn from_action(action: &ActionSpec) -> (requirements: AdapterRequirements)
        ensures
            requirements == requirements_of(*action),
    {
        match action {
            ActionSpec::LinuxAppEnsureRunning { app_id } => AdapterRequirements {
                capability: "linux.app.ensure_running.v1",
                required_tool: Some("gtk-launch"),
                desktop_entry_id: Some(app_id.clone()),
                permitted_resource_id: None,
            },
            ActionSpec::LinuxPathOpen { .. } => AdapterRequirements {
                capability: "linux.path.open.v1",
                required_tool: Some("xdg-open"),
                desktop_entry_id: None,
                permitted_resource_id: None,
            },
            ActionSpec::DesktopNotificationShow { .. } => AdapterRequirements {
                capability: "desktop.notification.show.v1",
                required_tool: Some("notify-send"),
                desktop_entry_id: None,
                permitted_resource_id: None,
            },
            ActionSpec::BrowserTabEnsureOpen { resource_id } => AdapterRequirements {
                capability: "browser.tab.ensure_open.v1",
                required_tool: None,
                desktop_entry_id: None,
                permitted_resource_id: Some(*resource_id),
            },
        }
    }
}

/// The capability that an action needs of an adapter is the one its registry entry names.
pub proof fn requirements_follow_the_registry(action: ActionSpec)
    ensures
        requirements_of(action).capability == crate::policy::entry_of(action).required_capability,
{
}

#[derive(Debug, PartialEq, Eq)]
pub struct EligibleAdapter {
    pub adapter_id: String,
    pub instance_id: Uuid,
}

impl Clone for EligibleAdapter {
    fn clone(&self) -> (r: EligibleAdapter)
        ensures
            r == *self,
    {
        EligibleAdapter { adapter_id: self.adapter_id.clone(), instance_id: self.instance_id }
    }
}

#[derive(Clone, Copy, Debug, PartialEq, Eq, Structural)]
pub enum AdapterEligibilityError {
    Unavailable,
    Ineligible,
}

impl AdapterEligibilityError {
    pub open spec fn message_text(self) -> Seq<char> {
        match self {
            AdapterEligibilityError::Unavailable => "adapter is unavailable"@,
            AdapterEligibilityError::Ineligible =>
                "no connected adapter instance satisfies the action requirements"@,
        }
    }

    pub fn message(&self) -> (message: String)
        ensures
            message@ == self.message_text(),
    {
        match self {
            AdapterEligibilityError::Unavailable => "adapter is unavailable".to_owned(),
            AdapterEligibilityError::Ineligible => {
                "no connected adapter instance satisfies the action requirements".to_owned()
            },
        }
    }
}

#[derive(Debug, PartialEq, Eq)]
pub struct DispatchedActionError {
    pub identity: Option<EligibleAdapter>,
    pub kind: AdapterDispatchErrorKind,
}

impl DispatchedActionError {
    /// The error in words: those of its kind.
    pub fn message(&self) -> (message: String)
        ensures
            message@ == self.kind.message_text(),
    {
        self.kind.message()
    }
}

#[derive(Clone, Copy, Debug, PartialEq, Eq, Structural)]
pub enum AdapterRegistrationError {
    UnknownAdapter,
    InvalidVersion,
    InvalidCapabilityCount,
    InvalidCapability,
    UnknownCapability,
    DuplicateCapability,
}

impl AdapterRegistrationError {
    pub open spec fn message_text(self) -> Seq<char> {
        match self {
            AdapterRegistrationError::UnknownAdapter => "adapter id is not registered for Phase 2"@,
            AdapterRegistrationError::InvalidVersion =>
                "adapter version is empty, too long, or contains control characters"@,
            AdapterRegistrationError::InvalidCapabilityCount =>
                "adapter capability list is empty or too large"@,
            AdapterRegistrationError::InvalidCapability =>
                "adapter capability is empty, too long, or contains control characters"@,
            AdapterRegistrationError::UnknownCapability =>
                "adapter capability is not in the fixed action registry"@,
            AdapterRegistrationError::DuplicateCapability => "adapter capability is duplicated"@,
        }
    }

    pub fn message(&self) -> (message: String)
        ensures
            message@ == self.message_text(),
    {
        match self {
            AdapterRegistrationError::UnknownAdapter => "adapter id is not registered for Phase 2".to_owned(),
            AdapterRegistrationError::InvalidVersion => {
                "adapter version is empty, too long, or contains control characters".to_owned()
            },
            AdapterRegistrationError::InvalidCapabilityCount => {
                "adapter capability list is empty or too large".to_owned()
            },
            AdapterRegistrationError::InvalidCapability => {
                "adapter capability is empty, too long, or contains control characters".to_owned()
            },
            AdapterRegistrationError::UnknownCapability => {
                "adapter capability is not in the fixed action registry".to_owned()
            },
            AdapterRegistrationError::DuplicateCapability => {
                "adapter capability is duplicated".to_owned()
            },
        }
    }
}

#[derive(Debug, PartialEq, Eq)]
pub struct DispatchedActionResult {
    pub identity: EligibleAdapter,
    pub result: ActionResult,
}

/// The kinds of adapter that may connect.
#[derive(Clone, Copy, Debug, PartialEq, Eq, Structural)]
pub enum AdapterKind {
    Linux,
    Browser,
    Vscode,
}

pub open spec fn kind_of(adapter_id: Seq<char>) -> Option<AdapterKind> {
    if adapter_id == LINUX_ADAPTER_ID@ {
        Some(AdapterKind::Linux)
    } else if adapter_id == BROWSER_ADAPTER_ID@ {
        Some(AdapterKind::Browser)
    } else if adapter_id == VSCODE_ADAPTER_ID@ {
        Some(AdapterKind::Vscode)
    } else {
        None
    }
}

pub fn adapter_kind(adapter_id: &str) -> (kind: Option<AdapterKind>)
    ensures
        kind == kind_of(adapter_id@),
{
    if text::same(adapter_id, LINUX_ADAPTER_ID) {
        Some(AdapterKind::Linux)
    } else if text::same(adapter_id, BROWSER_ADAPTER_ID) {
        Some(AdapterKind::Browser)
    } else if text::same(adapter_id, VSCODE_ADAPTER_ID) {
        Some(AdapterKind::Vscode)
    } else {
        None
    }
}

/// The actions that a kind of adapter may offer.
pub open spec fn offers_action(kind: AdapterKind, capability: Seq<char>) -> bool {
    match kind {
        AdapterKind::Linux => capability == "linux.app.ensure_running.v1"@ || capability
            == "linux.path.open.v1"@ || capability == "desktop.notification.show.v1"@,
        AdapterKind::Browser => capability == "browser.tab.ensure_open.v1"@,
        AdapterKind::Vscode => false,
    }
}

/// The events that a kind of adapter may report.
pub open spec fn reports_event(kind: AdapterKind, capability: Seq<char>) -> bool {
    match kind {
        AdapterKind::Linux => false,
        AdapterKind::Browser => capability == BROWSER_EVENT_TYPE@,
        AdapterKind::Vscode => capability == VSCODE_EVENT_TYPE@,
    }
}

/// Whether a kind of adapter may declare a capability, among its actions or its events.
pub open spec fn may_declare(kind: AdapterKind, capability: Seq<char>, action: bool) -> bool {
    if action {
        offers_action(kind, capability)
    } else {
        reports_event(kind, capability)
    }
}

fn declares(kind: AdapterKind, capability: &str, action: bool) -> (r: bool)
    ensures
        r == may_declare(kind, capability@, action),
{
    match kind {
        AdapterKind::Linux => action && (text::same(capability, "linux.app.ensure_running.v1")
            || text::same(capability, "linux.path.open.v1") || text::same(
            capability,
            "desktop.notification.show.v1",
        )),
        AdapterKind::Browser => if action {
            text::same(capability, "browser.tab.ensure_open.v1")
        } else {
            text::same(capability, BROWSER_EVENT_TYPE)
        },
        AdapterKind::Vscode => !action && text::same(capability, VSCODE_EVENT_TYPE),
    }
}

/// Every action that some adapter may offer is registered.
pub proof fn offered_actions_are_registered(kind: AdapterKind, capability: Seq<char>)
    requires
        offers_action(kind, capability),
    ensures
        crate::policy::entry_named(capability) is Some,
{
}

/// A capability in a form that a capability may have.
pub open spec fn is_capability_text(capability: Seq<char>) -> bool {
    &&& 1 <= text::byte_len(capability) <= MAX_CAPABILITY_BYTES
    &&& forall|i: int|
        0 <= i < capability.len() ==> !text::is_control(#[trigger] capability[i])
            && !text::is_white_space(capability[i])
}

fn capability_text(capability: &str) -> (r: bool)
    ensures
        r == is_capability_text(capability@),
{
    let length: usize = capability.as_bytes().len();
    if length < 1 || length > MAX_CAPABILITY_BYTES {
        return false;
    }
    for c in it: capability.chars()
        invariant
            it.seq() == capability@,
            1 <= text::byte_len(capability@) <= MAX_CAPABILITY_BYTES,
            forall|i: int|
                0 <= i < it.index() ==> !text::is_control(#[trigger] capability@[i])
                    && !text::is_white_space(capability@[i]),
    {
        if text::control(c) || text::white_space(c) {
            assert(text::is_control(capability@[it.index()]) || text::is_white_space(
                capability@[it.index()],
            ));
            return false;
        }
    }
    true
}

pub open spec fn occurs_before(capabilities: Seq<String>, n: int) -> bool {
    exists|i: int| 0 <= i < n && (#[trigger] capabilities[i])@ == capabilities[n]@
}

/// The first fault among the capabilities from place `from` on.
pub open spec fn capability_fault(
    kind: AdapterKind,
    capabilities: Seq<String>,
    action: bool,
    from: int,
) -> Option<AdapterRegistrationError>
    decreases capabilities.len() - from,
{
    if from < 0 || from >= capabilities.len() {
        None
    } else if !is_capability_text(capabilities[from]@) {
        Some(AdapterRegistrationError::InvalidCapability)
    } else if !may_declare(kind, capabilities[from]@, action) {
        Some(AdapterRegistrationError::UnknownCapability)
    } else if occurs_before(capabilities, from) {
        Some(AdapterRegistrationError::DuplicateCapability)
    } else {
        capability_fault(kind, capabilities, action, from + 1)
    }
}

fn check_capabilities(kind: AdapterKind, capabilities: &Vec<String>, action: bool) -> (r: Option<
    AdapterRegistrationError,
>)
    ensures
        r == capability_fault(kind, capabilities@, action, 0),
{
    let mut n: usize = 0;
    while n < capabilities.len()
        invariant
            n <= capabilities@.len(),
            capability_fault(kind, capabilities@, action, 0) == capability_fault(
                kind,
                capabilities@,
                action,
                n as int,
            ),
        decreases capabilities@.len() - n,
    {
        if !capability_text(capabilities[n].as_str()) {
            return Some(AdapterRegistrationError::InvalidCapability);
        }
        if !declares(kind, capabilities[n].as_str(), action) {
            return Some(AdapterRegistrationError::UnknownCapability);
        }
        for i in 0..n
            invariant
                n < capabilities@.len(),
                capability_fault(kind, capabilities@, action, 0) == capability_fault(
                    kind,
                    capabilities@,
                    action,
                    n as int,
                ),
                is_capability_text(capabilities@[n as int]@),
                may_declare(kind, capabilities@[n as int]@, action),
                forall|j: int|
                    0 <= j < i ==> (#[trigger] capabilities@[j])@ != capabilities@[n as int]@,
        {
            if text::same(capabilities[i].as_str(), capabilities[n].as_str()) {
                assert(occurs_before(capabilities@, n as int));
                return Some(AdapterRegistrationError::DuplicateCapability);
            }
        }
        assert(!occurs_before(capabilities@, n as int));
        n = n + 1;
    }
    None
}

pub open spec fn is_version_text(version: Seq<char>, maximum: int) -> bool {
    1 <= text::byte_len(version) <= maximum && !text::has_control(version)
}

pub fn version_text(version: &str, maximum: usize) -> (r: bool)
    ensures
        r == is_version_text(version@, maximum as int),
{
    let length: usize = version.as_bytes().len();
    1 <= length && length <= maximum && !text::any_control(version)
}

/// The first rule that an adapter's introduction breaks.
pub open spec fn hello_fault(hello: AdapterHello) -> Option<AdapterRegistrationError> {
    match kind_of(hello.adapter_id@) {
        None => Some(AdapterRegistrationError::UnknownAdapter),
        Some(kind) => if !is_version_text(
            hello.adapter_version@,
            MAX_ADAPTER_VERSION_BYTES as int,
        ) {
            Some(AdapterRegistrationError::InvalidVersion)
        } else if hello.action_capabilities@.len() + hello.event_capabilities@.len() == 0
            || hello.action_capabilities@.len() > MAX_CAPABILITIES
            || hello.event_capabilities@.len() > MAX_CAPABILITIES {
            Some(AdapterRegistrationError::InvalidCapabilityCount)
        } else {
            match capability_fault(kind, hello.action_capabilities@, true, 0) {
                Some(fault) => Some(fault),
                None => capability_fault(kind, hello.event_capabilities@, false, 0),
            }
        },
    }
}

/// A connection to an adapter. The token tells it from other connections of the same
/// instance.
pub struct AdapterConnection {
    pub token: Uuid,
    pub hello: AdapterHello,
    pub connected_at: Timestamp,
    pub last_seen_at: Timestamp,
}

/// A request that was sent to an adapter and has no answer yet.
pub struct PendingRequest {
    pub request_id: Uuid,
    pub token: Uuid,
    pub identity: EligibleAdapter,
    pub action_execution_id: Uuid,
}

/// The connections without those of an instance.
pub open spec fn without_instance(connections: Seq<AdapterConnection>, id: Uuid) -> Seq<
    AdapterConnection,
>
    decreases connections.len(),
{
    if connections.len() == 0 {
        Seq::empty()
    } else {
        let before = without_instance(connections.drop_last(), id);
        if connections.last().hello.instance_id == id {
            before
        } else {
            before.push(connections.last())
        }
    }
}

/// The connections without those of a token.
pub open spec fn without_token(connections: Seq<AdapterConnection>, token: Uuid) -> Seq<
    AdapterConnection,
>
    decreases connections.len(),
{
    if connections.len() == 0 {
        Seq::empty()
    } else {
        let before = without_token(connections.drop_last(), token);
        if connections.last().token == token {
            before
        } else {
            before.push(connections.last())
        }
    }
}

/// The waiting requests that were sent over a connection, or those that were not.
pub open spec fn pending_over(pending: Seq<PendingRequest>, token: Uuid, over: bool) -> Seq<
    PendingRequest,
>
    decreases pending.len(),
{
    if pending.len() == 0 {
        Seq::empty()
    } else {
        let before = pending_over(pending.drop_last(), token, over);
        if (pending.last().token == token) == over {
            before.push(pending.last())
        } else {
            before
        }
    }
}

/// The waiting requests without those of an identifier.
pub open spec fn without_request(pending: Seq<PendingRequest>, id: Uuid) -> Seq<PendingRequest>
    decreases pending.len(),
{
    if pending.len() == 0 {
        Seq::empty()
    } else {
        let before = without_request(pending.drop_last(), id);
        if pending.last().request_id == id {
            before
        } else {
            before.push(pending.last())
        }
    }
}

/// The connections after an instance was heard of.
pub open spec fn touched(connections: Seq<AdapterConnection>, id: Uuid, now: Timestamp) -> Seq<
    AdapterConnection,
> {
    connections.map_values(
        |connection: AdapterConnection|
            if connection.hello.instance_id == id {
                AdapterConnection { last_seen_at: now, ..connection }
            } else {
                connection
            },
    )
}

pub open spec fn has_tool(tools: Seq<AdapterToolStatus>, name: Seq<char>) -> bool {
    exists|i: int| 0 <= i < tools.len() && (#[trigger] tools[i]).name@ == name && tools[i].available
}

pub open spec fn has_text(texts: Seq<String>, wanted: Seq<char>) -> bool {
    exists|i: int| 0 <= i < texts.len() && (#[trigger] texts[i])@ == wanted
}

/// Whether one instance offers everything that an action requires.
pub open spec fn satisfies(hello: AdapterHello, requirements: AdapterRequirements) -> bool {
    &&& kind_of(hello.adapter_id@) is Some && offers_action(
        kind_of(hello.adapter_id@)->0,
        requirements.capability@,
    )
    &&& has_text(hello.action_capabilities@, requirements.capability@)
    &&& requirements.required_tool is Some ==> has_tool(
        hello.status.tools@,
        requirements.required_tool->0@,
    )
    &&& requirements.desktop_entry_id is Some ==> has_text(
        hello.status.desktop_entry_ids@,
        requirements.desktop_entry_id->0@,
    )
    &&& requirements.permitted_resource_id is Some ==> hello.status.permitted_resource_ids@.contains(
        requirements.permitted_resource_id->0,
    )
}

/// Whether an instance offers an action at all.
pub open spec fn offers(hello: AdapterHello, capability: Seq<char>) -> bool {
    &&& kind_of(hello.adapter_id@) is Some && offers_action(
        kind_of(hello.adapter_id@)->0,
        capability,
    )
    &&& has_text(hello.action_capabilities@, capability)
}

/// Whether some connected instance offers an action.
pub open spec fn any_offers(connections: Seq<AdapterConnection>, capability: Seq<char>) -> bool {
    exists|i: int|
        0 <= i < connections.len() && offers((#[trigger] connections[i]).hello, capability)
}

/// Whether some connected instance offers an action and has a tool.
pub open spec fn any_offers_with_tool(
    connections: Seq<AdapterConnection>,
    capability: Seq<char>,
    tool: Seq<char>,
) -> bool {
    exists|i: int|
        0 <= i < connections.len() && offers((#[trigger] connections[i]).hello, capability)
            && has_tool(connections[i].hello.status.tools@, tool)
}

/// Whether some connected instance has a tool.
pub open spec fn any_has_tool(connections: Seq<AdapterConnection>, tool: Seq<char>) -> bool {
    exists|i: int|
        0 <= i < connections.len() && has_tool(
            (#[trigger] connections[i]).hello.status.tools@,
            tool,
        )
}

/// The resources that the connected browser adapters are permitted to see.
pub open spec fn permitted(connections: Seq<AdapterConnection>) -> Set<Uuid>
    decreases connections.len(),
{
    if connections.len() == 0 {
        Set::empty()
    } else {
        let before = permitted(connections.drop_last());
        if kind_of(connections.last().hello.adapter_id@) == Some(AdapterKind::Browser) {
            before.union(connections.last().hello.status.permitted_resource_ids@.to_set())
        } else {
            before
        }
    }
}

/// Whether some connected instance knows a desktop entry; nothing is known of that while
/// no instance is connected.
pub open spec fn entry_known(connections: Seq<AdapterConnection>, entry: Seq<char>) -> Option<
    bool,
> {
    if connections.len() == 0 {
        None
    } else {
        Some(
            exists|i: int|
                0 <= i < connections.len() && has_text(
                    (#[trigger] connections[i]).hello.status.desktop_entry_ids@,
                    entry,
                ),
        )
    }
}

pub(crate) fn find_text(texts: &Vec<String>, wanted: &str) -> (r: bool)
    ensures
        r == has_text(texts@, wanted@),
{
    for i in 0..texts.len()
        invariant
            forall|j: int| 0 <= j < i ==> (#[trigger] texts@[j])@ != wanted@,
    {
        if text::same(texts[i].as_str(), wanted) {
            return true;
        }
    }
    false
}

fn find_tool(tools: &Vec<AdapterToolStatus>, name: &str) -> (r: bool)
    ensures
        r == has_tool(tools@, name@),
{
    for i in 0..tools.len()
        invariant
            forall|j: int|
                0 <= j < i ==> !((#[trigger] tools@[j]).name@ == name@ && tools@[j].available),
    {
        if text::same(tools[i].name.as_str(), name) && tools[i].available {
            return true;
        }
    }
    false
}

pub(crate) fn find_id(ids: &Vec<Uuid>, wanted: Uuid) -> (r: bool)
    ensures
        r == ids@.contains(wanted),
{
    for i in 0..ids.len()
        invariant
            forall|j: int| 0 <= j < i ==> ids@[j] != wanted,
    {
        if ids[i] == wanted {
            assert(ids@[i as int] == wanted);
            return true;
        }
    }
    false
}

/// Whether one instance offers everything that an action requires.
pub fn connection_satisfies(hello: &AdapterHello, requirements: &AdapterRequirements) -> (r: bool)
    ensures
        r == satisfies(*hello, *requirements),
{
    let registered: bool = match adapter_kind(hello.adapter_id.as_str()) {
        Some(kind) => declares(kind, requirements.capability, true),
        None => false,
    };
    if !registered || !find_text(&hello.action_capabilities, requirements.capability) {
        return false;
    }
    if let Some(tool) = requirements.required_tool {
        if !find_tool(&hello.status.tools, tool) {
            return false;
        }
    }
    if let Some(entry) = &requirements.desktop_entry_id {
        if !find_text(&hello.status.desktop_entry_ids, entry.as_str()) {
            return false;
        }
    }
    if let Some(id) = requirements.permitted_resource_id {
        if !find_id(&hello.status.permitted_resource_ids, id) {
            return false;
        }
    }
    true
}

/// Whether the connection at place `k` is the choice for an action: it offers what is
/// required, and no other that does has a smaller instance id.
pub open spec fn is_selected(
    connections: Seq<AdapterConnection>,
    requirements: AdapterRequirements,
    k: int,
) -> bool {
    &&& 0 <= k < connections.len()
    &&& satisfies(connections[k].hello, requirements)
    &&& forall|i: int|
        0 <= i < connections.len() && satisfies(
            (#[trigger] connections[i]).hello,
            requirements,
        ) ==> connections[k].hello.instance_id.value <= connections[i].hello.instance_id.value
}

pub open spec fn none_satisfies(
    connections: Seq<AdapterConnection>,
    requirements: AdapterRequirements,
) -> bool {
    forall|i: int|
        0 <= i < connections.len() ==> !satisfies((#[trigger] connections[i]).hello, requirements)
}

/// How many of the connections are to a kind of adapter.
pub open spec fn of_kind(connections: Seq<AdapterConnection>, kind: AdapterKind) -> nat
    decreases connections.len(),
{
    if connections.len() == 0 {
        0
    } else {
        of_kind(connections.drop_last(), kind) + if kind_of(connections.last().hello.adapter_id@)
            == Some(kind) {
            1nat
        } else {
            0nat
        }
    }
}

/// What is said of an adapter that is connected.
pub open spec fn is_report_of(report: AdapterReport, connection: AdapterConnection) -> bool {
    &&& report.adapter_id@ == connection.hello.adapter_id@
    &&& report.version@ == connection.hello.adapter_version@
    &&& report.instance_id == connection.hello.instance_id
    &&& report.connected
    &&& report.capabilities@ == connection.hello.action_capabilities@
    &&& report.event_capabilities@ == connection.hello.event_capabilities@
    &&& report.permitted_resource_ids@ == connection.hello.status.permitted_resource_ids@
    &&& report.connected_at@ == (match connection.connected_at.written() {
        Some(written) => written,
        None => Seq::empty(),
    })
    &&& report.last_seen_at@ == (match connection.last_seen_at.written() {
        Some(written) => written,
        None => Seq::empty(),
    })
}

/// Whether a report is on one of the connections.
pub open spec fn is_on_one_of(report: AdapterReport, connections: Seq<AdapterConnection>) -> bool {
    exists|k: int| 0 <= k < connections.len() && is_report_of(report, #[trigger] connections[k])
}

fn copy_texts(texts: &Vec<String>) -> (copy: Vec<String>)
    ensures
        copy@ == texts@,
{
    let mut copy: Vec<String> = Vec::new();
    for i in 0..texts.len()
        invariant
            copy@ == texts@.take(i as int),
    {
        copy.push(texts[i].clone());
        proof {
            assert(texts@.take(i + 1) =~= texts@.take(i as int).push(texts@[i as int]));
        }
    }
    proof {
        assert(texts@.take(texts@.len() as int) =~= texts@);
    }
    copy
}

fn written_or_empty(time: &Timestamp) -> (r: String)
    ensures
        r@ == (match time.written() {
            Some(written) => written,
            None => Seq::empty(),
        }),
{
    match time.format() {
        Some(written) => written,
        None => String::new(),
    }
}

fn report_on(connection: &AdapterConnection) -> (report: AdapterReport)
    ensures
        is_report_of(report, *connection),
{
    AdapterReport {
        adapter_id: connection.hello.adapter_id.clone(),
        version: connection.hello.adapter_version.clone(),
        instance_id: connection.hello.instance_id,
        connected: true,
        capabilities: copy_texts(&connection.hello.action_capabilities),
        event_capabilities: copy_texts(&connection.hello.event_capabilities),
        permitted_resource_ids: crate::mining::evidence::copy_ids(
            connection.hello.status.permitted_resource_ids.as_slice(),
        ),
        connected_at: written_or_empty(&connection.connected_at),
        last_seen_at: written_or_empty(&connection.last_seen_at),
    }
}

/// How a request that was sent came out.
#[derive(Debug, PartialEq, Eq)]
pub enum DispatchReply {
    /// The request could not be handed to the connection.
    SendFailed,
    /// The adapter answered, or the request was released.
    Replied(Result<ActionResult, AdapterDispatchErrorKind>),
    /// The waiting end was dropped.
    Closed,
    /// The time for the answer is over.
    TimedOut,
}

/// What the request comes to: the adapter's result, or an error that names the adapter it
/// was sent to.
pub open spec fn dispatch_outcome(identity: EligibleAdapter, reply: DispatchReply) -> Result<
    DispatchedActionResult,
    DispatchedActionError,
> {
    match reply {
        DispatchReply::Replied(Ok(result)) => Ok(DispatchedActionResult { identity, result }),
        DispatchReply::Replied(Err(kind)) => Err(
            DispatchedActionError { identity: Some(identity), kind },
        ),
        DispatchReply::SendFailed | DispatchReply::Closed => Err(
            DispatchedActionError {
                identity: Some(identity),
                kind: AdapterDispatchErrorKind::Disconnected,
            },
        ),
        DispatchReply::TimedOut => Err(
            DispatchedActionError {
                identity: Some(identity),
                kind: AdapterDispatchErrorKind::Timeout,
            },
        ),
    }
}

/// The answer to a waiting request that a response makes.
pub open spec fn answer_of(pending: PendingRequest, response: AdapterResponseEnvelope) -> Result<
    ActionResult,
    AdapterDispatchErrorKind,
> {
    if pending.action_execution_id != response.action_execution_id {
        Err(AdapterDispatchErrorKind::Protocol)
    } else {
        match response.body {
            AdapterResponseBody::ActionResult(result) => Ok(result),
            _ => Err(AdapterDispatchErrorKind::Protocol),
        }
    }
}

/// The place of the first waiting request with an identifier.
pub open spec fn request_at(pending: Seq<PendingRequest>, id: Uuid, from: int) -> Option<int>
    decreases pending.len() - from,
{
    if from < 0 || from >= pending.len() {
        None
    } else if pending[from].request_id == id {
        Some(from)
    } else {
        request_at(pending, id, from + 1)
    }
}

/// No two connections are of one instance, and no two waiting requests have one
/// identifier.
pub open spec fn distinct_instances(connections: Seq<AdapterConnection>) -> bool {
    forall|i: int, j: int|
        0 <= i < j < connections.len() ==> (#[trigger] connections[i]).hello.instance_id != (
        #[trigger] connections[j]).hello.instance_id
}

pub open spec fn distinct_requests(pending: Seq<PendingRequest>) -> bool {
    forall|i: int, j: int|
        0 <= i < j < pending.len() ==> (#[trigger] pending[i]).request_id != (
        #[trigger] pending[j]).request_id
}

/// The adapters that are connected and the requests that wait for them.
pub struct AdapterManager {
    pub connections: Vec<AdapterConnection>,
    pub pending: Vec<PendingRequest>,
}

impl AdapterManager {
    pub open spec fn wf(self) -> bool {
        distinct_instances(self.connections@) && distinct_requests(self.pending@)
    }

    pub fn new() -> (manager: AdapterManager)
        ensures
            manager.wf(),
            manager.connections@.len() == 0,
            manager.pending@.len() == 0,
    {
        AdapterManager { connections: Vec::new(), pending: Vec::new() }
    }

    /// Checks what an adapter says of itself against the fixed registry.
    pub fn validate_hello(hello: &AdapterHello) -> (r: Result<(), AdapterRegistrationError>)
        ensures
            r == (match hello_fault(*hello) {
                Some(fault) => Err(fault),
                None => Ok(()),
            }),
    {
        let kind = match adapter_kind(hello.adapter_id.as_str()) {
            Some(kind) => kind,
            None => return Err(AdapterRegistrationError::UnknownAdapter),
        };
        if !version_text(hello.adapter_version.as_str(), MAX_ADAPTER_VERSION_BYTES) {
            return Err(AdapterRegistrationError::InvalidVersion);
        }
        if (hello.action_capabilities.len() == 0 && hello.event_capabilities.len() == 0)
            || hello.action_capabilities.len() > MAX_CAPABILITIES
            || hello.event_capabilities.len() > MAX_CAPABILITIES {
            return Err(AdapterRegistrationError::InvalidCapabilityCount);
        }
        if let Some(fault) = check_capabilities(kind, &hello.action_capabilities, true) {
            return Err(fault);
        }
        if let Some(fault) = check_capabilities(kind, &hello.event_capabilities, false) {
            return Err(fault);
        }
        Ok(())
    }

    fn remove_instance(&mut self, id: Uuid)
        requires
            distinct_instances(old(self).connections@),
        ensures
            final(self).connections@ == without_instance(old(self).connections@, id),
            final(self).pending == old(self).pending,
            distinct_instances(final(self).connections@),
            forall|i: int|
                0 <= i < final(self).connections@.len() ==> (
                #[trigger] final(self).connections@[i]).hello.instance_id != id,
    {
        let ghost before = self.connections@;
        let mut i: usize = 0;
        while i < self.connections.len()
            invariant
                self.connections@ == before,
                self.pending == old(self).pending,
                before == old(self).connections@,
                distinct_instances(before),
                i <= before.len(),
                forall|j: int| 0 <= j < i ==> (#[trigger] before[j]).hello.instance_id != id,
            decreases before.len() - i,
        {
            if self.connections[i].hello.instance_id == id {
                let _removed = self.connections.remove(i);
                proof {
                    without_instance_removes(before, id, i as int);
                    assert forall|j: int| 0 <= j < self.connections@.len() implies (
                    #[trigger] self.connections@[j]).hello.instance_id != id by {
                        let k = if j < i { j } else { j + 1 };
                        assert(self.connections@[j] == before[k]);
                        assert(before[k].hello.instance_id != before[i as int].hello.instance_id);
                    }
                    assert forall|a: int, b: int|
                        0 <= a < b < self.connections@.len() implies (
                    #[trigger] self.connections@[a]).hello.instance_id != (
                    #[trigger] self.connections@[b]).hello.instance_id by {
                        let x = if a < i { a } else { a + 1 };
                        let y = if b < i { b } else { b + 1 };
                        assert(self.connections@[a] == before[x]);
                        assert(self.connections@[b] == before[y]);
                    }
                }
                return ;
            }
            i = i + 1;
        }
        proof {
            without_instance_same(before, id);
        }
    }

    /// Takes in an adapter that introduced itself. A connection of the same instance is
    /// replaced.
    pub fn register(&mut self, hello: AdapterHello, token: Uuid, now: Timestamp) -> (r: Result<
        (),
        AdapterRegistrationError,
    >)
        requires
            old(self).wf(),
        ensures
            final(self).wf(),
            match hello_fault(hello) {
                Some(fault) => r == Err::<(), AdapterRegistrationError>(fault) && *final(self)
                    == *old(self),
                None => {
                    &&& r == Ok::<(), AdapterRegistrationError>(())
                    &&& final(self).connections@ == without_instance(
                        old(self).connections@,
                        hello.instance_id,
                    ).push(
                        AdapterConnection { token, hello, connected_at: now, last_seen_at: now },
                    )
                    &&& final(self).pending == old(self).pending
                },
            },
    {
        if let Err(fault) = AdapterManager::validate_hello(&hello) {
            return Err(fault);
        }
        self.remove_instance(hello.instance_id);
        self.connections.push(
            AdapterConnection { token, hello, connected_at: now, last_seen_at: now },
        );
        Ok(())
    }

    /// Notes that an instance was heard of.
    pub fn touch(&mut self, instance_id: Uuid, now: Timestamp)
        requires
            old(self).wf(),
        ensures
            final(self).wf(),
            final(self).connections@ == touched(old(self).connections@, instance_id, now),
            final(self).pending == old(self).pending,
    {
        let ghost before = self.connections@;
        let mut i: usize = 0;
        while i < self.connections.len()
            invariant
                before == old(self).connections@,
                old(self).wf(),
                self.pending == old(self).pending,
                i <= before.len(),
                self.connections@.len() == before.len(),
                forall|j: int|
                    0 <= j < i ==> #[trigger] self.connections@[j] == touched(
                        before,
                        instance_id,
                        now,
                    )[j],
                forall|j: int| i <= j < before.len() ==> #[trigger] self.connections@[j] == before[j],
            decreases before.len() - i,
        {
            if self.connections[i].hello.instance_id == instance_id {
                self.connections[i].last_seen_at = now;
            }
            i = i + 1;
        }
        proof {
            assert(self.connections@ =~= touched(before, instance_id, now));
            assert forall|a: int, b: int| 0 <= a < b < self.connections@.len() implies (
            #[trigger] self.connections@[a]).hello.instance_id != (
            #[trigger] self.connections@[b]).hello.instance_id by {
                assert(before[a].hello.instance_id != before[b].hello.instance_id);
            }
        }
    }

    /// Ends a connection: it is forgotten unless a newer one of the same instance has
    /// taken its place, and the requests that wait for it are released.
    pub fn disconnect(&mut self, token: Uuid) -> (released: Vec<PendingRequest>)
        requires
            old(self).wf(),
        ensures
            final(self).wf(),
            final(self).connections@ == without_token(old(self).connections@, token),
            final(self).pending@ == pending_over(old(self).pending@, token, false),
            released@ == pending_over(old(self).pending@, token, true),
    {
        let ghost connections = self.connections@;
        let ghost pending = self.pending@;
        let mut kept: Vec<AdapterConnection> = Vec::new();
        let ghost mut n: int = 0;
        while self.connections.len() > 0
            invariant
                0 <= n <= connections.len(),
                self.connections@ == connections.skip(n),
                self.pending@ == pending,
                kept@ == without_token(connections.take(n), token),
                distinct_instances(connections),
            decreases self.connections@.len(),
        {
            let connection = self.connections.remove(0);
            proof {
                assert(connection == connections[n]);
                assert(connections.take(n + 1).drop_last() =~= connections.take(n));
                assert(self.connections@ =~= connections.skip(n + 1));
                n = n + 1;
            }
            if connection.token != token {
                kept.push(connection);
            }
        }
        self.connections = kept;
        let mut released: Vec<PendingRequest> = Vec::new();
        let mut left: Vec<PendingRequest> = Vec::new();
        let ghost mut m: int = 0;
        while self.pending.len() > 0
            invariant
                0 <= m <= pending.len(),
                self.connections == kept,
                self.pending@ == pending.skip(m),
                released@ == pending_over(pending.take(m), token, true),
                left@ == pending_over(pending.take(m), token, false),
                distinct_requests(pending),
            decreases self.pending@.len(),
        {
            let request = self.pending.remove(0);
            proof {
                assert(request == pending[m]);
                assert(pending.take(m + 1).drop_last() =~= pending.take(m));
                assert(self.pending@ =~= pending.skip(m + 1));
                m = m + 1;
            }
            if request.token == token {
                released.push(request);
            } else {
                left.push(request);
            }
        }
        self.pending = left;
        proof {
            assert(connections.take(n) =~= connections);
            assert(pending.take(m) =~= pending);
            without_token_distinct(connections, token);
            pending_over_distinct(pending, token, false);
        }
        released
    }

    /// Ends every connection and releases every request.
    pub fn shutdown(&mut self) -> (released: Vec<PendingRequest>)
        requires
            old(self).wf(),
        ensures
            final(self).wf(),
            final(self).connections@.len() == 0,
            final(self).pending@.len() == 0,
            released == old(self).pending,
    {
        self.connections = Vec::new();
        let mut released: Vec<PendingRequest> = Vec::new();
        std::mem::swap(&mut released, &mut self.pending);
        released
    }

    fn select(&self, requirements: &AdapterRequirements) -> (r: Result<
        usize,
        AdapterEligibilityError,
    >)
        ensures
            match r {
                Ok(k) => is_selected(self.connections@, *requirements, k as int),
                Err(AdapterEligibilityError::Unavailable) => self.connections@.len() == 0,
                Err(AdapterEligibilityError::Ineligible) => self.connections@.len() > 0
                    && none_satisfies(self.connections@, *requirements),
            },
    {
        if self.connections.len() == 0 {
            return Err(AdapterEligibilityError::Unavailable);
        }
        let mut best: Option<usize> = None;
        for i in 0..self.connections.len()
            invariant
                best is None ==> none_satisfies(self.connections@.take(i as int), *requirements),
                best is Some ==> is_selected(
                    self.connections@.take(i as int),
                    *requirements,
                    best->0 as int,
                ),
        {
            let ghost shorter = self.connections@.take(i as int);
            let ghost longer = self.connections@.take(i + 1);
            proof {
                assert(forall|j: int| 0 <= j < i ==> #[trigger] longer[j] == shorter[j]);
                assert(longer[i as int] == self.connections@[i as int]);
            }
            if connection_satisfies(&self.connections[i].hello, requirements) {
                let better: bool = match best {
                    Some(k) => self.connections[i].hello.instance_id.value
                        < self.connections[k].hello.instance_id.value,
                    None => true,
                };
                if better {
                    best = Some(i);
                }
            }
        }
        proof {
            assert(self.connections@.take(self.connections@.len() as int) =~= self.connections@);
        }
        match best {
            Some(k) => Ok(k),
            None => Err(AdapterEligibilityError::Ineligible),
        }
    }

    /// Chooses the one instance that satisfies every requirement and has the smallest
    /// identifier among those that do.
    pub fn find_eligible(&self, requirements: &AdapterRequirements) -> (r: Result<
        EligibleAdapter,
        AdapterEligibilityError,
    >)
        ensures
            match r {
                Ok(identity) => exists|k: int| #[trigger]
                    is_selected(self.connections@, *requirements, k) && identity.adapter_id
                        == self.connections@[k].hello.adapter_id && identity.instance_id
                        == self.connections@[k].hello.instance_id,
                Err(AdapterEligibilityError::Unavailable) => self.connections@.len() == 0,
                Err(AdapterEligibilityError::Ineligible) => self.connections@.len() > 0
                    && none_satisfies(self.connections@, *requirements),
            },
    {
        match self.select(requirements) {
            Ok(k) => Ok(
                EligibleAdapter {
                    adapter_id: self.connections[k].hello.adapter_id.clone(),
                    instance_id: self.connections[k].hello.instance_id,
                },
            ),
            Err(error) => Err(error),
        }
    }

    fn remove_request(&mut self, request_id: Uuid) -> (r: Option<PendingRequest>)
        requires
            old(self).wf(),
        ensures
            final(self).wf(),
            final(self).connections == old(self).connections,
            final(self).pending@ == without_request(old(self).pending@, request_id),
            r == (match request_at(old(self).pending@, request_id, 0) {
                Some(k) => Some(old(self).pending@[k]),
                None => None,
            }),
            forall|i: int|
                0 <= i < final(self).pending@.len() ==> (
                #[trigger] final(self).pending@[i]).request_id != request_id,
    {
        let ghost before = self.pending@;
        let mut i: usize = 0;
        while i < self.pending.len()
            invariant
                *self == *old(self),
                before == self.pending@,
                distinct_requests(before),
                distinct_instances(self.connections@),
                i <= before.len(),
                request_at(before, request_id, 0) == request_at(before, request_id, i as int),
                forall|j: int| 0 <= j < i ==> (#[trigger] before[j]).request_id != request_id,
            decreases before.len() - i,
        {
            if self.pending[i].request_id == request_id {
                let request = self.pending.remove(i);
                proof {
                    without_request_removes(before, request_id, i as int);
                    assert forall|j: int| 0 <= j < self.pending@.len() implies (
                    #[trigger] self.pending@[j]).request_id != request_id by {
                        let k = if j < i { j } else { j + 1 };
                        assert(self.pending@[j] == before[k]);
                        assert(before[k].request_id != before[i as int].request_id);
                    }
                    assert forall|a: int, b: int| 0 <= a < b < self.pending@.len() implies (
                    #[trigger] self.pending@[a]).request_id != (
                    #[trigger] self.pending@[b]).request_id by {
                        let x = if a < i { a } else { a + 1 };
                        let y = if b < i { b } else { b + 1 };
                        assert(self.pending@[a] == before[x]);
                        assert(self.pending@[b] == before[y]);
                    }
                }
                return Some(request);
            }
            i = i + 1;
        }
        proof {
            without_request_same(before, request_id);
        }
        None
    }

    /// Starts an action: chooses the adapter and notes that a request waits for it.
    pub fn begin(
        &mut self,
        action: &ActionSpec,
        request_id: Uuid,
        action_execution_id: Uuid,
    ) -> (r: Result<EligibleAdapter, DispatchedActionError>)
        requires
            old(self).wf(),
        ensures
            final(self).wf(),
            final(self).connections == old(self).connections,
            match r {
                Ok(identity) => exists|k: int|
                    {
                        &&& #[trigger] is_selected(
                            old(self).connections@,
                            requirements_of(*action),
                            k,
                        )
                        &&& identity.adapter_id == old(self).connections@[k].hello.adapter_id
                        &&& identity.instance_id == old(self).connections@[k].hello.instance_id
                        &&& final(self).pending@ == without_request(
                            old(self).pending@,
                            request_id,
                        ).push(
                            PendingRequest {
                                request_id,
                                token: old(self).connections@[k].token,
                                identity,
                                action_execution_id,
                            },
                        )
                    },
                Err(error) => {
                    &&& final(self).pending == old(self).pending
                    &&& error.identity is None
                    &&& if old(self).connections@.len() == 0 {
                        error.kind == AdapterDispatchErrorKind::Unavailable
                    } else {
                        none_satisfies(old(self).connections@, requirements_of(*action))
                            && error.kind == AdapterDispatchErrorKind::CapabilityUnavailable
                    }
                },
            },
    {
        let requirements = AdapterRequirements::from_action(action);
        let k: usize = match self.select(&requirements) {
            Ok(k) => k,
            Err(AdapterEligibilityError::Unavailable) => {
                return Err(
                    DispatchedActionError {
                        identity: None,
                        kind: AdapterDispatchErrorKind::Unavailable,
                    },
                );
            },
            Err(AdapterEligibilityError::Ineligible) => {
                return Err(
                    DispatchedActionError {
                        identity: None,
                        kind: AdapterDispatchErrorKind::CapabilityUnavailable,
                    },
                );
            },
        };
        let identity = EligibleAdapter {
            adapter_id: self.connections[k].hello.adapter_id.clone(),
            instance_id: self.connections[k].hello.instance_id,
        };
        let token = self.connections[k].token;
        let _replaced = self.remove_request(request_id);
        let waiting = PendingRequest {
            request_id,
            token,
            identity: identity.clone(),
            action_execution_id,
        };
        self.pending.push(waiting);
        proof {
            assert(is_selected(old(self).connections@, requirements_of(*action), k as int));
        }
        Ok(identity)
    }

    /// Gives the answer of an adapter to the request that waits for it. An answer to
    /// nothing that waits is dropped.
    pub fn resolve(&mut self, response: AdapterResponseEnvelope, now: Timestamp) -> (r: Option<
        (PendingRequest, Result<ActionResult, AdapterDispatchErrorKind>),
    >)
        requires
            old(self).wf(),
        ensures
            final(self).wf(),
            final(self).pending@ == without_request(old(self).pending@, response.request_id),
            match request_at(old(self).pending@, response.request_id, 0) {
                Some(k) => r == Some(
                    (old(self).pending@[k], answer_of(old(self).pending@[k], response)),
                ) && final(self).connections@ == touched(
                    old(self).connections@,
                    old(self).pending@[k].identity.instance_id,
                    now,
                ),
                None => r is None && final(self).connections == old(self).connections,
            },
    {
        let request = match self.remove_request(response.request_id) {
            Some(request) => request,
            None => return None,
        };
        self.touch(request.identity.instance_id, now);
        let answer = if request.action_execution_id != response.action_execution_id {
            Err(AdapterDispatchErrorKind::Protocol)
        } else {
            match response.body {
                AdapterResponseBody::ActionResult(result) => Ok(result),
                _ => Err(AdapterDispatchErrorKind::Protocol),
            }
        };
        Some((request, answer))
    }

    /// Ends an action however it came out. Whatever the reply is, the request does not
    /// wait any longer.
    pub fn settle(&mut self, request_id: Uuid, identity: EligibleAdapter, reply: DispatchReply) -> (r:
        Result<DispatchedActionResult, DispatchedActionError>)
        requires
            old(self).wf(),
        ensures
            final(self).wf(),
            final(self).connections == old(self).connections,
            final(self).pending@ == without_request(old(self).pending@, request_id),
            r == dispatch_outcome(identity, reply),
    {
        let _released = self.remove_request(request_id);
        match reply {
            DispatchReply::Replied(Ok(result)) => Ok(DispatchedActionResult { identity, result }),
            DispatchReply::Replied(Err(kind)) => Err(
                DispatchedActionError { identity: Some(identity), kind },
            ),
            DispatchReply::SendFailed | DispatchReply::Closed => Err(
                DispatchedActionError {
                    identity: Some(identity),
                    kind: AdapterDispatchErrorKind::Disconnected,
                },
            ),
            DispatchReply::TimedOut => Err(
                DispatchedActionError {
                    identity: Some(identity),
                    kind: AdapterDispatchErrorKind::Timeout,
                },
            ),
        }
    }

    /// Forgets a request whose caller went away.
    pub fn cancel(&mut self, request_id: Uuid)
        requires
            old(self).wf(),
        ensures
            final(self).wf(),
            final(self).connections == old(self).connections,
            final(self).pending@ == without_request(old(self).pending@, request_id),
    {
        let _released = self.remove_request(request_id);
    }

    pub fn connected_count(&self) -> (count: usize)
        ensures
            count == self.connections@.len(),
    {
        self.connections.len()
    }

    pub fn pending_count(&self) -> (count: usize)
        ensures
            count == self.pending@.len(),
    {
        self.pending.len()
    }

    /// Whether some connected adapter has a tool.
    pub fn tool_available(&self, tool: &str) -> (r: bool)
        ensures
            r == any_has_tool(self.connections@, tool@),
    {
        for i in 0..self.connections.len()
            invariant
                forall|j: int|
                    0 <= j < i ==> !has_tool(
                        (#[trigger] self.connections@[j]).hello.status.tools@,
                        tool@,
                    ),
        {
            if find_tool(&self.connections[i].hello.status.tools, tool) {
                return true;
            }
        }
        false
    }

    /// Whether some connected adapter offers an action.
    pub fn capability_available(&self, capability: &str) -> (r: bool)
        ensures
            r == any_offers(self.connections@, capability@),
    {
        for i in 0..self.connections.len()
            invariant
                forall|j: int|
                    0 <= j < i ==> !offers((#[trigger] self.connections@[j]).hello, capability@),
        {
            if self.offers_at(i, capability) {
                return true;
            }
        }
        false
    }

    /// Whether some connected adapter offers an action and has a tool.
    pub fn capability_tool_available(&self, capability: &str, tool: &str) -> (r: bool)
        ensures
            r == any_offers_with_tool(self.connections@, capability@, tool@),
    {
        for i in 0..self.connections.len()
            invariant
                forall|j: int|
                    0 <= j < i ==> !(offers((#[trigger] self.connections@[j]).hello, capability@)
                        && has_tool(self.connections@[j].hello.status.tools@, tool@)),
        {
            if self.offers_at(i, capability) && find_tool(
                &self.connections[i].hello.status.tools,
                tool,
            ) {
                return true;
            }
        }
        false
    }

    /// Whether some connected adapter knows a desktop entry.
    pub fn desktop_entry_available(&self, entry: &str) -> (r: Option<bool>)
        ensures
            r == entry_known(self.connections@, entry@),
    {
        if self.connections.len() == 0 {
            return None;
        }
        for i in 0..self.connections.len()
            invariant
                self.connections@.len() > 0,
                forall|j: int|
                    0 <= j < i ==> !has_text(
                        (#[trigger] self.connections@[j]).hello.status.desktop_entry_ids@,
                        entry@,
                    ),
        {
            if find_text(&self.connections[i].hello.status.desktop_entry_ids, entry) {
                return Some(true);
            }
        }
        Some(false)
    }

    fn offers_at(&self, i: usize, capability: &str) -> (r: bool)
        requires
            i < self.connections@.len(),
        ensures
            r == offers(self.connections@[i as int].hello, capability@),
    {
        let registered: bool = match adapter_kind(self.connections[i].hello.adapter_id.as_str()) {
            Some(kind) => declares(kind, capability, true),
            None => false,
        };
        registered && find_text(&self.connections[i].hello.action_capabilities, capability)
    }

    /// The resources that the connected browser adapters are permitted to see, each once.
    pub fn permitted_resources(&self) -> (ids: Vec<Uuid>)
        ensures
            ids@.no_duplicates(),
            ids@.to_set() == permitted(self.connections@),
            ids@.len() == permitted(self.connections@).len(),
    {
        let mut ids: Vec<Uuid> = Vec::new();
        proof {
            assert(self.connections@.take(0) =~= Seq::<AdapterConnection>::empty());
            assert(ids@.to_set() =~= Set::<Uuid>::empty());
        }
        for i in 0..self.connections.len()
            invariant
                ids@.no_duplicates(),
                ids@.to_set() == permitted(self.connections@.take(i as int)),
        {
            let ghost before = permitted(self.connections@.take(i as int));
            proof {
                assert(self.connections@.take(i + 1).drop_last() =~= self.connections@.take(
                    i as int,
                ));
            }
            let hello = &self.connections[i].hello;
            let browser: bool = match adapter_kind(hello.adapter_id.as_str()) {
                Some(AdapterKind::Browser) => true,
                _ => false,
            };
            if browser {
                let ghost found = hello.status.permitted_resource_ids@;
                for k in 0..hello.status.permitted_resource_ids.len()
                    invariant
                        found == hello.status.permitted_resource_ids@,
                        ids@.no_duplicates(),
                        ids@.to_set() == before.union(found.take(k as int).to_set()),
                {
                    let id = hello.status.permitted_resource_ids[k];
                    let ghost known = ids@;
                    proof {
                        assert(found.take(k + 1) =~= found.take(k as int).push(id));
                        assert(found.take(k + 1).to_set() =~= found.take(k as int).to_set().insert(
                            id,
                        )) by {
                            assert(found.take(k + 1)[k as int] == id);
                            assert forall|x: Uuid|
                                found.take(k as int).contains(x) implies found.take(
                                k + 1,
                            ).contains(x) by {
                                let j = choose|j: int|
                                    0 <= j < k && found.take(k as int)[j] == x;
                                assert(found.take(k + 1)[j] == x);
                            }
                        }
                    }
                    if !find_id(&ids, id) {
                        ids.push(id);
                        proof {
                            assert(ids@.to_set() =~= known.to_set().insert(id)) by {
                                assert(ids@[known.len() as int] == id);
                                assert forall|x: Uuid| known.contains(x) implies ids@.contains(
                                    x,
                                ) by {
                                    let j = choose|j: int| 0 <= j < known.len() && known[j] == x;
                                    assert(ids@[j] == x);
                                }
                            }
                        }
                    } else {
                        proof {
                            assert(known.to_set().contains(id));
                            assert(known.to_set().insert(id) =~= known.to_set());
                        }
                    }
                    proof {
                        assert(ids@.to_set() =~= before.union(found.take(k + 1).to_set()));
                    }
                }
                proof {
                    assert(found.take(found.len() as int) =~= found);
                }
            }
        }
        proof {
            assert(self.connections@.take(self.connections@.len() as int) =~= self.connections@);
            ids@.unique_seq_to_set();
        }
        ids
    }

    /// How many connected adapters are of a kind.
    pub fn count_of_kind(&self, kind: AdapterKind) -> (count: usize)
        ensures
            count == of_kind(self.connections@, kind),
    {
        let mut count: usize = 0;
        for i in 0..self.connections.len()
            invariant
                count == of_kind(self.connections@.take(i as int), kind),
                count <= i,
        {
            proof {
                assert(self.connections@.take(i + 1).drop_last() =~= self.connections@.take(
                    i as int,
                ));
            }
            if let Some(found) = adapter_kind(self.connections[i].hello.adapter_id.as_str()) {
                if found == kind {
                    count = count + 1;
                }
            }
        }
        proof {
            assert(self.connections@.take(self.connections@.len() as int) =~= self.connections@);
        }
        count
    }

    /// What is said of the connected adapters, in the order of their identifiers.
    pub fn reports(&self) -> (reports: Vec<AdapterReport>)
        requires
            self.wf(),
        ensures
            reports@.len() == self.connections@.len(),
            forall|i: int, j: int|
                0 <= i < j < reports@.len() ==> (#[trigger] reports@[i]).instance_id.value < (
                #[trigger] reports@[j]).instance_id.value,
            forall|i: int|
                0 <= i < reports@.len() ==> is_on_one_of(
                    #[trigger] reports@[i],
                    self.connections@,
                ),
    {
        let mut reports: Vec<AdapterReport> = Vec::new();
        for n in 0..self.connections.len()
            invariant
                self.wf(),
                reports@.len() == n,
                forall|i: int, j: int|
                    0 <= i < j < reports@.len() ==> (#[trigger] reports@[i]).instance_id.value < (
                    #[trigger] reports@[j]).instance_id.value,
                forall|i: int|
                    0 <= i < reports@.len() ==> is_on_one_of(
                        #[trigger] reports@[i],
                        self.connections@.take(n as int),
                    ),
        {
            let report = report_on(&self.connections[n]);
            let ghost before = reports@;
            let ghost added = report;
            let mut at: usize = 0;
            while at < reports.len() && reports[at].instance_id.value < report.instance_id.value
                invariant
                    at <= reports@.len(),
                    reports@ == before,
                    forall|i: int|
                        0 <= i < at ==> (#[trigger] before[i]).instance_id.value
                            < report.instance_id.value,
                decreases reports@.len() - at,
            {
                at = at + 1;
            }
            proof {
                if at < before.len() {
                    let known = self.connections@.take(n as int);
                    assert(is_on_one_of(before[at as int], known));
                    let k = choose|k: int|
                        0 <= k < known.len() && is_report_of(
                            before[at as int],
                            #[trigger] known[k],
                        );
                    assert(self.connections@[k].hello.instance_id
                        != self.connections@[n as int].hello.instance_id);
                    assert(before[at as int].instance_id.value != report.instance_id.value);
                }
            }
            reports.insert(at, report);
            proof {
                let after = reports@;
                assert forall|i: int, j: int| 0 <= i < j < after.len() implies (
                #[trigger] after[i]).instance_id.value < (
                #[trigger] after[j]).instance_id.value by {
                    let x = if i < at { before[i] } else if i == at { added } else { before[i - 1] };
                    let y = if j < at { before[j] } else if j == at { added } else { before[j - 1] };
                    assert(after[i] == x);
                    assert(after[j] == y);
                }
                let shorter = self.connections@.take(n as int);
                let longer = self.connections@.take(n + 1);
                assert forall|i: int| 0 <= i < after.len() implies is_on_one_of(
                    #[trigger] after[i],
                    longer,
                ) by {
                    if i == at {
                        assert(is_report_of(after[i], longer[n as int]));
                    } else {
                        let src = if i < at { i } else { i - 1 };
                        assert(after[i] == before[src]);
                        assert(is_on_one_of(before[src], shorter));
                        let k = choose|k: int|
                            0 <= k < shorter.len() && is_report_of(
                                before[src],
                                #[trigger] shorter[k],
                            );
                        assert(is_report_of(after[i], longer[k]));
                    }
                }
            }
        }
        proof {
            assert(self.connections@.take(self.connections@.len() as int) =~= self.connections@);
        }
        reports
    }
}

proof fn without_instance_same(connections: Seq<AdapterConnection>, id: Uuid)
    requires
        forall|i: int|
            0 <= i < connections.len() ==> (#[trigger] connections[i]).hello.instance_id != id,
    ensures
        without_instance(connections, id) == connections,
    decreases connections.len(),
{
    if connections.len() > 0 {
        without_instance_same(connections.drop_last(), id);
        assert(connections =~= connections.drop_last().push(connections.last()));
    } else {
        assert(without_instance(connections, id) =~= connections);
    }
}

proof fn without_instance_removes(connections: Seq<AdapterConnection>, id: Uuid, k: int)
    requires
        0 <= k < connections.len(),
        connections[k].hello.instance_id == id,
        forall|i: int|
            0 <= i < connections.len() && i != k ==> (#[trigger] connections[i]).hello.instance_id
                != id,
    ensures
        without_instance(connections, id) == connections.remove(k),
    decreases connections.len(),
{
    if k == connections.len() - 1 {
        without_instance_same(connections.drop_last(), id);
        assert(connections.remove(k) =~= connections.drop_last());
    } else {
        without_instance_removes(connections.drop_last(), id, k);
        assert(connections.remove(k) =~= connections.drop_last().remove(k).push(
            connections.last(),
        ));
    }
}

proof fn without_request_same(pending: Seq<PendingRequest>, id: Uuid)
    requires
        forall|i: int| 0 <= i < pending.len() ==> (#[trigger] pending[i]).request_id != id,
    ensures
        without_request(pending, id) == pending,
    decreases pending.len(),
{
    if pending.len() > 0 {
        without_request_same(pending.drop_last(), id);
        assert(pending =~= pending.drop_last().push(pending.last()));
    } else {
        assert(without_request(pending, id) =~= pending);
    }
}

proof fn without_request_removes(pending: Seq<PendingRequest>, id: Uuid, k: int)
    requires
        0 <= k < pending.len(),
        pending[k].request_id == id,
        forall|i: int|
            0 <= i < pending.len() && i != k ==> (#[trigger] pending[i]).request_id != id,
    ensures
        without_request(pending, id) == pending.remove(k),
    decreases pending.len(),
{
    if k == pending.len() - 1 {
        without_request_same(pending.drop_last(), id);
        assert(pending.remove(k) =~= pending.drop_last());
    } else {
        without_request_removes(pending.drop_last(), id, k);
        assert(pending.remove(k) =~= pending.drop_last().remove(k).push(pending.last()));
    }
}

proof fn without_token_item(connections: Seq<AdapterConnection>, token: Uuid, i: int)
    requires
        0 <= i < without_token(connections, token).len(),
    ensures
        exists|k: int|
            0 <= k < connections.len() && connections[k] == without_token(connections, token)[i],
        without_token(connections, token)[i].token != token,
    decreases connections.len(),
{
    if connections.len() > 0 {
        let before = without_token(connections.drop_last(), token);
        if i < before.len() {
            without_token_item(connections.drop_last(), token, i);
            let k = choose|k: int|
                0 <= k < connections.drop_last().len() && connections.drop_last()[k] == before[i];
            assert(connections[k] == without_token(connections, token)[i]);
        } else {
            assert(connections[connections.len() - 1] == without_token(connections, token)[i]);
        }
    }
}

proof fn without_token_distinct(connections: Seq<AdapterConnection>, token: Uuid)
    requires
        distinct_instances(connections),
    ensures
        distinct_instances(without_token(connections, token)),
    decreases connections.len(),
{
    if connections.len() > 0 {
        let shorter = connections.drop_last();
        without_token_distinct(shorter, token);
        let before = without_token(shorter, token);
        let after = without_token(connections, token);
        assert forall|i: int, j: int| 0 <= i < j < after.len() implies (
        #[trigger] after[i]).hello.instance_id != (#[trigger] after[j]).hello.instance_id by {
            if j >= before.len() {
                without_token_item(shorter, token, i);
                let k = choose|k: int| 0 <= k < shorter.len() && shorter[k] == before[i];
                assert(connections[k].hello.instance_id
                    != connections[connections.len() - 1].hello.instance_id);
            }
        }
    }
}

proof fn pending_over_item(pending: Seq<PendingRequest>, token: Uuid, over: bool, i: int)
    requires
        0 <= i < pending_over(pending, token, over).len(),
    ensures
        exists|k: int|
            0 <= k < pending.len() && pending[k] == pending_over(pending, token, over)[i],
        (pending_over(pending, token, over)[i].token == token) == over,
    decreases pending.len(),
{
    if pending.len() > 0 {
        let before = pending_over(pending.drop_last(), token, over);
        if i < before.len() {
            pending_over_item(pending.drop_last(), token, over, i);
            let k = choose|k: int|
                0 <= k < pending.drop_last().len() && pending.drop_last()[k] == before[i];
            assert(pending[k] == pending_over(pending, token, over)[i]);
        } else {
            assert(pending[pending.len() - 1] == pending_over(pending, token, over)[i]);
        }
    }
}

proof fn pending_over_distinct(pending: Seq<PendingRequest>, token: Uuid, over: bool)
    requires
        distinct_requests(pending),
    ensures
        distinct_requests(pending_over(pending, token, over)),
    decreases pending.len(),
{
    if pending.len() > 0 {
        let shorter = pending.drop_last();
        pending_over_distinct(shorter, token, over);
        let before = pending_over(shorter, token, over);
        let after = pending_over(pending, token, over);
        assert forall|i: int, j: int| 0 <= i < j < after.len() implies (
        #[trigger] after[i]).request_id != (#[trigger] after[j]).request_id by {
            if j >= before.len() {
                pending_over_item(shorter, token, over, i);
                let k = choose|k: int| 0 <= k < shorter.len() && shorter[k] == before[i];
                assert(pending[k].request_id != pending[pending.len() - 1].request_id);
            }
        }
    }
}

/// The choice of an adapter does not depend on the order in which adapters connected: any
/// two choices for an action are of one instance.
pub proof fn selection_is_deterministic(
    connections: Seq<AdapterConnection>,
    other: Seq<AdapterConnection>,
    requirements: AdapterRequirements,
    k: int,
    m: int,
)
    requires
        is_selected(connections, requirements, k),
        is_selected(other, requirements, m),
        connections.to_set() == other.to_set(),
    ensures
        connections[k].hello.instance_id == other[m].hello.instance_id,
{
    assert(connections.to_set().contains(connections[k]));
    assert(other.to_set().contains(other[m]));
    assert(other.contains(connections[k]));
    assert(connections.contains(other[m]));
    let a = choose|a: int| 0 <= a < other.len() && other[a] == connections[k];
    let b = choose|b: int| 0 <= b < connections.len() && connections[b] == other[m];
    assert(satisfies(other[a].hello, requirements));
    assert(satisfies(connections[b].hello, requirements));
}

/// What one instance lacks, another does not make up for: where no instance alone
/// satisfies the requirements, nothing is chosen.
pub proof fn requirements_are_never_combined(
    connections: Seq<AdapterConnection>,
    requirements: AdapterRequirements,
    k: int,
)
    requires
        none_satisfies(connections, requirements),
    ensures
        !is_selected(connections, requirements, k),
{
}

/// When a connection ends, none of its requests waits any longer, all of them are
/// released, and neither another connection nor its requests are touched.
pub proof fn disconnect_releases_its_own(
    connections: Seq<AdapterConnection>,
    pending: Seq<PendingRequest>,
    token: Uuid,
    k: int,
)
    requires
        0 <= k < pending.len(),
    ensures
        forall|i: int|
            0 <= i < pending_over(pending, token, false).len() ==> (#[trigger] pending_over(
                pending,
                token,
                false,
            )[i]).token != token,
        pending_over(pending, token, pending[k].token == token).contains(pending[k]),
        forall|i: int|
            0 <= i < connections.len() && (#[trigger] connections[i]).token != token
                ==> without_token(connections, token).contains(connections[i]),
{
    assert forall|i: int| 0 <= i < pending_over(pending, token, false).len() implies (
    #[trigger] pending_over(pending, token, false)[i]).token != token by {
        pending_over_item(pending, token, false, i);
    }
    pending_over_keeps(pending, token, k);
    assert forall|i: int|
        0 <= i < connections.len() && (#[trigger] connections[i]).token
            != token implies without_token(connections, token).contains(connections[i]) by {
        without_token_keeps(connections, token, i);
    }
}

/// An instance that connected anew outlives its old connection: when that one ends, the
/// new connection stays, and so do the requests that wait for it.
pub proof fn reconnection_outlives_the_old_connection(
    connections: Seq<AdapterConnection>,
    pending: Seq<PendingRequest>,
    renewed: AdapterConnection,
    ended: Uuid,
    k: int,
)
    requires
        renewed.token != ended,
        0 <= k < pending.len(),
        pending[k].token == renewed.token,
    ensures
        without_token(
            without_instance(connections, renewed.hello.instance_id).push(renewed),
            ended,
        ).contains(renewed),
        pending_over(pending, ended, false).contains(pending[k]),
{
    let after = without_instance(connections, renewed.hello.instance_id).push(renewed);
    assert(after[after.len() - 1] == renewed);
    without_token_keeps(after, ended, after.len() - 1);
    pending_over_keeps(pending, ended, k);
}

proof fn pending_over_keeps(pending: Seq<PendingRequest>, token: Uuid, k: int)
    requires
        0 <= k < pending.len(),
    ensures
        pending_over(pending, token, pending[k].token == token).contains(pending[k]),
    decreases pending.len(),
{
    let over = pending[k].token == token;
    let before = pending_over(pending.drop_last(), token, over);
    let after = pending_over(pending, token, over);
    if k == pending.len() - 1 {
        assert(after[before.len() as int] == pending[k]);
    } else {
        pending_over_keeps(pending.drop_last(), token, k);
        let i = choose|i: int| 0 <= i < before.len() && before[i] == pending[k];
        assert(after[i] == pending[k]);
    }
}

proof fn without_token_keeps(connections: Seq<AdapterConnection>, token: Uuid, k: int)
    requires
        0 <= k < connections.len(),
        connections[k].token != token,
    ensures
        without_token(connections, token).contains(connections[k]),
    decreases connections.len(),
{
    let before = without_token(connections.drop_last(), token);
    let after = without_token(connections, token);
    if k == connections.len() - 1 {
        assert(after[before.len() as int] == connections[k]);
    } else {
        without_token_keeps(connections.drop_last(), token, k);
        let i = choose|i: int| 0 <= i < before.len() && before[i] == connections[k];
        assert(after[i] == connections[k]);
    }
}

} // verus!
