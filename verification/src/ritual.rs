//! Actions, rituals, their versions and approvals.

use vstd::prelude::*;
use crate::clock::Timestamp;
use crate::ids::Uuid;
use crate::text;

verus! {

pub const RITUAL_SCHEMA_VERSION: &'static str = "dev.fubun.ritual/1";

pub const MAX_RITUAL_ACTIONS: usize = 16;

pub const MAX_APP_ID: usize = 128;

pub const MAX_NAME: usize = 128;

pub const MAX_TIMEOUT_SECONDS: u32 = 120;

#[derive(Debug, PartialEq, Eq)]
pub enum ActionSpec {
    LinuxAppEnsureRunning { app_id: String },
    LinuxPathOpen { resource_id: Uuid },
    DesktopNotificationShow { title: String, body: String },
    BrowserTabEnsureOpen { resource_id: Uuid },
}

#[derive(Clone, Copy, Debug, PartialEq, Eq)]
pub enum ActionValidationError {
    InvalidAppId,
    InvalidNotification { field: &'static str, maximum: usize },
}

impl ActionValidationError {
    pub open spec fn message_text(self) -> Seq<char> {
        match self {
            ActionValidationError::InvalidAppId =>
                "app_id must be 1-128 ASCII characters from A-Z, a-z, 0-9, '.', '_', or '-'"@,
            ActionValidationError::InvalidNotification { field, maximum } => "notification "@
                + field@ + " must be 1-"@ + text::decimal_of(maximum as nat)
                + " characters without control characters"@,
        }
    }

    pub fn message(&self) -> (message: String)
        ensures
            message@ == self.message_text(),
    {
        match self {
            ActionValidationError::InvalidAppId => {
                "app_id must be 1-128 ASCII characters from A-Z, a-z, 0-9, '.', '_', or '-'".to_owned()
            },
            ActionValidationError::InvalidNotification { field, maximum } => {
                let mut message = "notification ".to_owned();
                message.append(field);
                message.append(" must be 1-");
                message.append(text::decimal(*maximum as u64).as_str());
                message.append(" characters without control characters");
                message
            },
        }
    }
}

/// The characters of a desktop entry identifier.
pub open spec fn is_app_id_char(c: char) -> bool {
    ||| 'A' <= c <= 'Z'
    ||| 'a' <= c <= 'z'
    ||| '0' <= c <= '9'
    ||| c == '.'
    ||| c == '_'
    ||| c == '-'
}

pub open spec fn is_app_id(app_id: Seq<char>) -> bool {
    &&& 1 <= app_id.len() <= MAX_APP_ID
    &&& forall|i: int| 0 <= i < app_id.len() ==> is_app_id_char(#[trigger] app_id[i])
}

pub fn validate_app_id(app_id: &str) -> (r: Result<(), ActionValidationError>)
    ensures
        r == (if is_app_id(app_id@) {
            Ok(())
        } else {
            Err(ActionValidationError::InvalidAppId)
        }),
{
    if app_id.is_empty() || app_id.unicode_len() > MAX_APP_ID {
        return Err(ActionValidationError::InvalidAppId);
    }
    for c in it: app_id.chars()
        invariant
            it.seq() == app_id@,
            1 <= app_id@.len() <= MAX_APP_ID,
            forall|i: int| 0 <= i < it.index() ==> is_app_id_char(#[trigger] app_id@[i]),
    {
        if !(('A' <= c && c <= 'Z') || ('a' <= c && c <= 'z') || ('0' <= c && c <= '9') || c == '.'
            || c == '_' || c == '-') {
            assert(!is_app_id_char(app_id@[it.index()]));
            return Err(ActionValidationError::InvalidAppId);
        }
    }
    Ok(())
}

pub open spec fn is_notification_text(value: Seq<char>, maximum: usize) -> bool {
    1 <= value.len() <= maximum && !text::has_control(value)
}

pub fn validate_notification(field: &'static str, value: &str, maximum: usize) -> (r: Result<
    (),
    ActionValidationError,
>)
    ensures
        r == (if is_notification_text(value@, maximum) {
            Ok(())
        } else {
            Err(ActionValidationError::InvalidNotification { field, maximum })
        }),
{
    if value.is_empty() || value.unicode_len() > maximum || text::any_control(value) {
        return Err(ActionValidationError::InvalidNotification { field, maximum });
    }
    Ok(())
}

impl ActionSpec {
    pub open spec fn kind_name(self) -> &'static str {
        match self {
            ActionSpec::LinuxAppEnsureRunning { .. } => "linux.app.ensure_running.v1",
            ActionSpec::LinuxPathOpen { .. } => "linux.path.open.v1",
            ActionSpec::DesktopNotificationShow { .. } => "desktop.notification.show.v1",
            ActionSpec::BrowserTabEnsureOpen { .. } => "browser.tab.ensure_open.v1",
        }
    }

    pub fn action_type(&self) -> (name: &'static str)
        ensures
            name == self.kind_name(),
    {
        match self {
            ActionSpec::LinuxAppEnsureRunning { .. } => "linux.app.ensure_running.v1",
            ActionSpec::LinuxPathOpen { .. } => "linux.path.open.v1",
            ActionSpec::DesktopNotificationShow { .. } => "desktop.notification.show.v1",
            ActionSpec::BrowserTabEnsureOpen { .. } => "browser.tab.ensure_open.v1",
        }
    }

    pub open spec fn check(self) -> Result<(), ActionValidationError> {
        match self {
            ActionSpec::LinuxAppEnsureRunning { app_id } => if is_app_id(app_id@) {
                Ok(())
            } else {
                Err(ActionValidationError::InvalidAppId)
            },
            ActionSpec::DesktopNotificationShow { title, body } => if !is_notification_text(
                title@,
                128,
            ) {
                Err(ActionValidationError::InvalidNotification { field: "title", maximum: 128 })
            } else if !is_notification_text(body@, 1024) {
                Err(ActionValidationError::InvalidNotification { field: "body", maximum: 1024 })
            } else {
                Ok(())
            },
            ActionSpec::LinuxPathOpen { .. } | ActionSpec::BrowserTabEnsureOpen { .. } => Ok(()),
        }
    }

    pub fn validate(&self) -> (r: Result<(), ActionValidationError>)
        ensures
            r == self.check(),
    {
        match self {
            ActionSpec::LinuxAppEnsureRunning { app_id } => validate_app_id(app_id.as_str()),
            ActionSpec::DesktopNotificationShow { title, body } => {
                if let Err(error) = validate_notification("title", title.as_str(), 128) {
                    return Err(error);
                }
                validate_notification("body", body.as_str(), 1024)
            },
            ActionSpec::LinuxPathOpen { .. } | ActionSpec::BrowserTabEnsureOpen { .. } => Ok(()),
        }
    }

    /// Whether two actions are of one type with the same inputs.
    pub open spec fn same_as(self, other: ActionSpec) -> bool {
        match (self, other) {
            (
                ActionSpec::LinuxAppEnsureRunning { app_id: a },
                ActionSpec::LinuxAppEnsureRunning { app_id: b },
            ) => a@ == b@,
            (
                ActionSpec::LinuxPathOpen { resource_id: a },
                ActionSpec::LinuxPathOpen { resource_id: b },
            ) => a == b,
            (
                ActionSpec::DesktopNotificationShow { title: a, body: x },
                ActionSpec::DesktopNotificationShow { title: b, body: y },
            ) => a@ == b@ && x@ == y@,
            (
                ActionSpec::BrowserTabEnsureOpen { resource_id: a },
                ActionSpec::BrowserTabEnsureOpen { resource_id: b },
            ) => a == b,
            _ => false,
        }
    }

    pub fn is_same(&self, other: &ActionSpec) -> (r: bool)
        ensures
            r == self.same_as(*other),
    {
        match (self, other) {
            (
                ActionSpec::LinuxAppEnsureRunning { app_id: a },
                ActionSpec::LinuxAppEnsureRunning { app_id: b },
            ) => text::same(a.as_str(), b.as_str()),
            (
                ActionSpec::LinuxPathOpen { resource_id: a },
                ActionSpec::LinuxPathOpen { resource_id: b },
            ) => *a == *b,
            (
                ActionSpec::DesktopNotificationShow { title: a, body: x },
                ActionSpec::DesktopNotificationShow { title: b, body: y },
            ) => text::same(a.as_str(), b.as_str()) && text::same(x.as_str(), y.as_str()),
            (
                ActionSpec::BrowserTabEnsureOpen { resource_id: a },
                ActionSpec::BrowserTabEnsureOpen { resource_id: b },
            ) => *a == *b,
            _ => false,
        }
    }
}

impl Clone for ActionSpec {
    fn clone(&self) -> (r: ActionSpec)
        ensures
            r == *self,
    {
        match self {
            ActionSpec::LinuxAppEnsureRunning { app_id } => ActionSpec::LinuxAppEnsureRunning {
                app_id: app_id.clone(),
            },
            ActionSpec::LinuxPathOpen { resource_id } => ActionSpec::LinuxPathOpen {
                resource_id: *resource_id,
            },
            ActionSpec::DesktopNotificationShow { title, body } => {
                ActionSpec::DesktopNotificationShow { title: title.clone(), body: body.clone() }
            },
            ActionSpec::BrowserTabEnsureOpen { resource_id } => ActionSpec::BrowserTabEnsureOpen {
                resource_id: *resource_id,
            },
        }
    }
}

#[derive(Clone, Copy, Debug, PartialEq, Eq, Structural)]
pub enum ExecutionMode {
    Sequential,
}

#[derive(Clone, Copy, Debug, PartialEq, Eq, Structural)]
pub enum FailureMode {
    Stop,
}

#[derive(Clone, Copy, Debug, PartialEq, Eq, Structural)]
pub struct RitualExecutionConfig {
    pub mode: ExecutionMode,
    pub on_failure: FailureMode,
    pub timeout_seconds: u32,
}

#[derive(Clone, Debug, PartialEq, Eq)]
pub struct RitualDefinition {
    pub schema_version: String,
    pub name: String,
    pub actions: Vec<ActionSpec>,
    pub execution: RitualExecutionConfig,
}

#[derive(Clone, Debug, PartialEq, Eq)]
pub enum RitualValidationError {
    UnsupportedSchemaVersion(String),
    InvalidName,
    InvalidActionCount,
    InvalidAction { index: usize, source: ActionValidationError },
    InvalidTimeout,
    ConsecutiveDuplicate { index: usize },
}

impl RitualValidationError {
    pub open spec fn message_text(self) -> Seq<char> {
        match self {
            RitualValidationError::UnsupportedSchemaVersion(version) =>
                "unsupported ritual schema version: "@ + version@,
            RitualValidationError::InvalidName => "ritual name must be 1-128 characters"@,
            RitualValidationError::InvalidActionCount => "ritual must contain 1-16 actions"@,
            RitualValidationError::InvalidAction { index, source } => "ritual action "@
                + text::decimal_of(index as nat) + " is invalid: "@ + source.message_text(),
            RitualValidationError::InvalidTimeout =>
                "execution.timeout_seconds must be between 1 and 120"@,
            RitualValidationError::ConsecutiveDuplicate { index } =>
                "consecutive duplicate action at index "@ + text::decimal_of(index as nat),
        }
    }

    pub fn message(&self) -> (message: String)
        ensures
            message@ == self.message_text(),
    {
        match self {
            RitualValidationError::UnsupportedSchemaVersion(version) => {
                let mut message = "unsupported ritual schema version: ".to_owned();
                message.append(version.as_str());
                message
            },
            RitualValidationError::InvalidName => "ritual name must be 1-128 characters".to_owned(),
            RitualValidationError::InvalidActionCount => {
                "ritual must contain 1-16 actions".to_owned()
            },
            RitualValidationError::InvalidAction { index, source } => {
                let mut message = "ritual action ".to_owned();
                message.append(text::decimal(*index as u64).as_str());
                message.append(" is invalid: ");
                message.append(source.message().as_str());
                message
            },
            RitualValidationError::InvalidTimeout => {
                "execution.timeout_seconds must be between 1 and 120".to_owned()
            },
            RitualValidationError::ConsecutiveDuplicate { index } => {
                let mut message = "consecutive duplicate action at index ".to_owned();
                message.append(text::decimal(*index as u64).as_str());
                message
            },
        }
    }
}

/// The first fault among the actions from place `from` on: an action that breaks its
/// own rules, or one that repeats the action before it.
pub open spec fn actions_check(actions: Seq<ActionSpec>, from: int) -> Result<
    (),
    RitualValidationError,
>
    decreases actions.len() - from,
{
    if from < 0 || from >= actions.len() {
        Ok(())
    } else if actions[from].check() is Err {
        Err(
            RitualValidationError::InvalidAction {
                index: from as usize,
                source: actions[from].check()->Err_0,
            },
        )
    } else if from > 0 && actions[from - 1].same_as(actions[from]) {
        Err(RitualValidationError::ConsecutiveDuplicate { index: from as usize })
    } else {
        actions_check(actions, from + 1)
    }
}

impl RitualDefinition {
    /// The first rule that the definition breaks.
    pub open spec fn check(self) -> Result<(), RitualValidationError> {
        if self.schema_version@ != RITUAL_SCHEMA_VERSION@ {
            Err(RitualValidationError::UnsupportedSchemaVersion(self.schema_version))
        } else if !(1 <= self.name@.len() <= MAX_NAME) || text::has_control(self.name@) {
            Err(RitualValidationError::InvalidName)
        } else if !(1 <= self.actions@.len() <= MAX_RITUAL_ACTIONS) {
            Err(RitualValidationError::InvalidActionCount)
        } else if !(1 <= self.execution.timeout_seconds <= MAX_TIMEOUT_SECONDS) {
            Err(RitualValidationError::InvalidTimeout)
        } else {
            actions_check(self.actions@, 0)
        }
    }

    pub fn validate(&self) -> (r: Result<(), RitualValidationError>)
        ensures
            r == self.check(),
    {
        if !text::same(self.schema_version.as_str(), RITUAL_SCHEMA_VERSION) {
            return Err(RitualValidationError::UnsupportedSchemaVersion(self.schema_version.clone()));
        }
        let name_len: usize = self.name.as_str().unicode_len();
        if name_len < 1 || name_len > MAX_NAME || text::any_control(self.name.as_str()) {
            return Err(RitualValidationError::InvalidName);
        }
        if self.actions.len() == 0 || self.actions.len() > MAX_RITUAL_ACTIONS {
            return Err(RitualValidationError::InvalidActionCount);
        }
        if self.execution.timeout_seconds == 0 || self.execution.timeout_seconds
            > MAX_TIMEOUT_SECONDS {
            return Err(RitualValidationError::InvalidTimeout);
        }
        let mut index: usize = 0;
        while index < self.actions.len()
            invariant
                index <= self.actions@.len(),
                self.check() == actions_check(self.actions@, index as int),
            decreases self.actions@.len() - index,
        {
            if let Err(source) = self.actions[index].validate() {
                return Err(RitualValidationError::InvalidAction { index, source });
            }
            if index > 0 && self.actions[index - 1].is_same(&self.actions[index]) {
                return Err(RitualValidationError::ConsecutiveDuplicate { index });
            }
            index = index + 1;
        }
        Ok(())
    }
}

/// The JSON object of an action: its type first, then its inputs.
pub open spec fn action_json(action: ActionSpec) -> Seq<char> {
    match action {
        ActionSpec::LinuxAppEnsureRunning { app_id } =>
            "{\"type\":\"linux.app.ensure_running.v1\",\"app_id\":"@ + crate::json::quoted(app_id@)
            + "}"@,
        ActionSpec::LinuxPathOpen { resource_id } =>
            "{\"type\":\"linux.path.open.v1\",\"resource_id\":\""@ + crate::ids::id_text(
            resource_id.value,
        ) + "\"}"@,
        ActionSpec::DesktopNotificationShow { title, body } =>
            "{\"type\":\"desktop.notification.show.v1\",\"title\":"@ + crate::json::quoted(title@)
            + ",\"body\":"@ + crate::json::quoted(body@) + "}"@,
        ActionSpec::BrowserTabEnsureOpen { resource_id } =>
            "{\"type\":\"browser.tab.ensure_open.v1\",\"resource_id\":\""@ + crate::ids::id_text(
            resource_id.value,
        ) + "\"}"@,
    }
}

/// The JSON objects of the first `n` actions, with commas between them.
pub open spec fn actions_json(actions: Seq<ActionSpec>, n: int) -> Seq<char>
    decreases n,
{
    if n <= 0 {
        Seq::empty()
    } else if n == 1 {
        action_json(actions[0])
    } else {
        actions_json(actions, n - 1) + ","@ + action_json(actions[n - 1])
    }
}

fn action_to_json(action: &ActionSpec) -> (r: Result<String, serde_json::Error>)
    ensures
        r is Ok,
        r->Ok_0@ == action_json(*action),
{
    match action {
        ActionSpec::LinuxAppEnsureRunning { app_id } => {
            let mut out = "{\"type\":\"linux.app.ensure_running.v1\",\"app_id\":".to_owned();
            out.append(crate::json::quote(app_id.as_str())?.as_str());
            out.append("}");
            Ok(out)
        },
        ActionSpec::LinuxPathOpen { resource_id } => {
            let mut out = "{\"type\":\"linux.path.open.v1\",\"resource_id\":\"".to_owned();
            out.append(resource_id.to_text().as_str());
            out.append("\"}");
            Ok(out)
        },
        ActionSpec::DesktopNotificationShow { title, body } => {
            let mut out = "{\"type\":\"desktop.notification.show.v1\",\"title\":".to_owned();
            out.append(crate::json::quote(title.as_str())?.as_str());
            out.append(",\"body\":");
            out.append(crate::json::quote(body.as_str())?.as_str());
            out.append("}");
            Ok(out)
        },
        ActionSpec::BrowserTabEnsureOpen { resource_id } => {
            let mut out = "{\"type\":\"browser.tab.ensure_open.v1\",\"resource_id\":\"".to_owned();
            out.append(resource_id.to_text().as_str());
            out.append("\"}");
            Ok(out)
        },
    }
}

impl RitualDefinition {
    /// The canonical JSON of a definition: its members in a fixed order, without
    /// white space.
    pub open spec fn json_text(self) -> Seq<char> {
        "{\"schema_version\":"@ + crate::json::quoted(self.schema_version@) + ",\"name\":"@
            + crate::json::quoted(self.name@) + ",\"actions\":["@ + actions_json(
            self.actions@,
            self.actions@.len() as int,
        ) + "],\"execution\":{\"mode\":\"sequential\",\"on_failure\":\"stop\",\"timeout_seconds\":"@
            + text::decimal_of(self.execution.timeout_seconds as nat) + "}}"@
    }

    pub fn canonical_json(&self) -> (r: Result<String, serde_json::Error>)
        ensures
            r is Ok,
            r->Ok_0@ == self.json_text(),
    {
        let mut out = "{\"schema_version\":".to_owned();
        out.append(crate::json::quote(self.schema_version.as_str())?.as_str());
        out.append(",\"name\":");
        out.append(crate::json::quote(self.name.as_str())?.as_str());
        out.append(",\"actions\":[");
        let ghost head = out@;
        let mut list = String::new();
        let mut i: usize = 0;
        while i < self.actions.len()
            invariant
                i <= self.actions@.len(),
                list@ == actions_json(self.actions@, i as int),
            decreases self.actions@.len() - i,
        {
            let item = action_to_json(&self.actions[i])?;
            if i > 0 {
                list.append(",");
            }
            list.append(item.as_str());
            proof {
                if i == 0 {
                    assert(Seq::<char>::empty() + item@ =~= item@);
                }
            }
            i = i + 1;
        }
        out.append(list.as_str());
        out.append(
            "],\"execution\":{\"mode\":\"sequential\",\"on_failure\":\"stop\",\"timeout_seconds\":",
        );
        out.append(text::decimal(self.execution.timeout_seconds as u64).as_str());
        out.append("}}");
        Ok(out)
    }

    /// The lower-case hexadecimal SHA-256 digest of the canonical JSON.
    pub open spec fn hash_text(self) -> Seq<char> {
        crate::digest::hex_of(
            crate::digest::sha256_of(vstd::utf8::encode_utf8(self.json_text())),
        )
    }

    pub fn content_hash(&self) -> (r: Result<String, serde_json::Error>)
        ensures
            r is Ok,
            r->Ok_0@ == self.hash_text(),
            r->Ok_0@.len() == 64,
    {
        let canonical = self.canonical_json()?;
        Ok(crate::digest::sha256_hex(canonical.as_str()))
    }
}

#[derive(Clone, Copy, Debug, PartialEq, Eq, Structural)]
pub enum RitualStatus {
    Draft,
    Active,
    Paused,
    Archived,
}

#[derive(Clone, Debug, PartialEq, Eq)]
pub struct Ritual {
    pub id: Uuid,
    pub name: String,
    pub status: RitualStatus,
    pub current_version_id: Uuid,
    pub created_at: Timestamp,
    pub updated_at: Timestamp,
}

#[derive(Clone, Debug, PartialEq, Eq)]
pub struct RitualVersion {
    pub id: Uuid,
    pub ritual_id: Uuid,
    pub version: u32,
    pub schema_version: String,
    pub canonical_json: String,
    pub content_hash: String,
    pub created_at: Timestamp,
}

#[derive(Clone, Debug, PartialEq, Eq)]
pub struct Approval {
    pub id: Uuid,
    pub ritual_version_id: Uuid,
    pub action_type: String,
    pub capability: String,
    pub resource_id: Option<Uuid>,
    pub app_id: Option<String>,
    pub content_hash: String,
    pub approved_at: Timestamp,
}

/// The JSON objects of the actions from place `i` up to place `n`, with commas between
/// them.
spec fn listed(actions: Seq<ActionSpec>, i: int, n: int) -> Seq<char>
    decreases n - i,
{
    if i >= n {
        Seq::empty()
    } else if i + 1 == n {
        action_json(actions[i])
    } else {
        action_json(actions[i]) + (","@ + listed(actions, i + 1, n))
    }
}

proof fn listed_back(actions: Seq<ActionSpec>, i: int, n: int)
    requires
        0 <= i < n - 1,
    ensures
        listed(actions, i, n) == listed(actions, i, n - 1) + ","@ + action_json(actions[n - 1]),
    decreases n - i,
{
    if i == n - 2 {
        assert(listed(actions, i + 1, n) == action_json(actions[n - 1]));
        assert(listed(actions, i, n) =~= listed(actions, i, n - 1) + ","@ + action_json(
            actions[n - 1],
        ));
    } else {
        listed_back(actions, i + 1, n);
        assert(listed(actions, i, n) =~= listed(actions, i, n - 1) + ","@ + action_json(
            actions[n - 1],
        ));
    }
}

proof fn actions_are_listed(actions: Seq<ActionSpec>, n: int)
    requires
        0 <= n,
    ensures
        actions_json(actions, n) == listed(actions, 0, n),
    decreases n,
{
    if n > 1 {
        actions_are_listed(actions, n - 1);
        listed_back(actions, 0, n);
    }
}

/// The beginning of the JSON object of an action, up to its first input.
spec fn action_head(action: ActionSpec) -> Seq<char> {
    match action {
        ActionSpec::LinuxAppEnsureRunning { .. } =>
            "{\"type\":\"linux.app.ensure_running.v1\",\"app_id\":"@,
        ActionSpec::LinuxPathOpen { .. } =>
            "{\"type\":\"linux.path.open.v1\",\"resource_id\":\""@,
        ActionSpec::DesktopNotificationShow { .. } =>
            "{\"type\":\"desktop.notification.show.v1\",\"title\":"@,
        ActionSpec::BrowserTabEnsureOpen { .. } =>
            "{\"type\":\"browser.tab.ensure_open.v1\",\"resource_id\":\""@,
    }
}

/// What a notification says, as it stands in the JSON object of the action.
spec fn notification_tail(title: Seq<char>, body: Seq<char>) -> Seq<char> {
    crate::json::quoted(title) + (",\"body\":"@ + (crate::json::quoted(body) + "}"@))
}

/// The rest of the JSON object of an action.
spec fn action_tail(action: ActionSpec) -> Seq<char> {
    match action {
        ActionSpec::LinuxAppEnsureRunning { app_id } => crate::json::quoted(app_id@) + "}"@,
        ActionSpec::LinuxPathOpen { resource_id } => crate::ids::id_text(resource_id.value)
            + "\"}"@,
        ActionSpec::DesktopNotificationShow { title, body } => notification_tail(title@, body@),
        ActionSpec::BrowserTabEnsureOpen { resource_id } => crate::ids::id_text(resource_id.value)
            + "\"}"@,
    }
}

proof fn heads_tell_types_apart(a: ActionSpec, b: ActionSpec, x: Seq<char>, y: Seq<char>)
    requires
        action_head(a) + x == action_head(b) + y,
    ensures
        action_head(a) == action_head(b),
        a is LinuxAppEnsureRunning == b is LinuxAppEnsureRunning,
        a is LinuxPathOpen == b is LinuxPathOpen,
        a is DesktopNotificationShow == b is DesktopNotificationShow,
        a is BrowserTabEnsureOpen == b is BrowserTabEnsureOpen,
{
    head_characters(a);
    head_characters(b);
    assert((action_head(a) + x)[9] == action_head(a)[9]);
    assert((action_head(b) + y)[9] == action_head(b)[9]);
    assert((action_head(a) + x)[15] == action_head(a)[15]);
    assert((action_head(b) + y)[15] == action_head(b)[15]);
}

/// The JSON object of an action is its beginning and its rest.
proof fn action_splits(action: ActionSpec, x: Seq<char>)
    ensures
        action_json(action) + x == action_head(action) + (action_tail(action) + x),
{
    assert(action_json(action) + x =~= action_head(action) + (action_tail(action) + x));
}

proof fn names_apart(p: Seq<char>, q: Seq<char>, x: Seq<char>, y: Seq<char>)
    requires
        crate::json::quoted(p) + "}"@ + x == crate::json::quoted(q) + "}"@ + y,
    ensures
        p == q,
        x == y,
{
    let left = "}"@ + x;
    let right = "}"@ + y;
    assert(crate::json::quoted(p) + "}"@ + x =~= crate::json::quoted(p) + left);
    assert(crate::json::quoted(q) + "}"@ + y =~= crate::json::quoted(q) + right);
    crate::json::strings_are_self_delimiting(p, q, left, right);
    crate::json::same_rest("}"@, x, y);
}

proof fn resources_apart(p: Uuid, q: Uuid, x: Seq<char>, y: Seq<char>)
    requires
        crate::ids::id_text(p.value) + "\"}"@ + x == crate::ids::id_text(q.value) + "\"}"@ + y,
    ensures
        p == q,
        x == y,
{
    let left = "\"}"@ + x;
    let right = "\"}"@ + y;
    assert(crate::ids::id_text(p.value) + "\"}"@ + x =~= crate::ids::id_text(p.value) + left);
    assert(crate::ids::id_text(q.value) + "\"}"@ + y =~= crate::ids::id_text(q.value) + right);
    crate::ids::texts_are_self_delimiting(p.value, q.value, left, right);
    crate::json::same_rest("\"}"@, x, y);
}

proof fn notifications_apart(
    p: Seq<char>,
    q: Seq<char>,
    r: Seq<char>,
    s: Seq<char>,
    x: Seq<char>,
    y: Seq<char>,
)
    requires
        notification_tail(p, r) + x == notification_tail(q, s) + y,
    ensures
        p == q,
        r == s,
        x == y,
{
    let left = crate::json::quoted(r) + "}"@ + x;
    let right = crate::json::quoted(s) + "}"@ + y;
    assert(notification_tail(p, r) + x =~= crate::json::quoted(p) + (",\"body\":"@ + left));
    assert(notification_tail(q, s) + y =~= crate::json::quoted(q) + (",\"body\":"@ + right));
    crate::json::strings_are_self_delimiting(p, q, ",\"body\":"@ + left, ",\"body\":"@ + right);
    crate::json::same_rest(",\"body\":"@, left, right);
    names_apart(r, s, x, y);
}

proof fn actions_apart(a: ActionSpec, b: ActionSpec, x: Seq<char>, y: Seq<char>)
    requires
        action_json(a) + x == action_json(b) + y,
    ensures
        a.same_as(b),
        x == y,
{
    action_splits(a, x);
    action_splits(b, y);
    heads_tell_types_apart(a, b, action_tail(a) + x, action_tail(b) + y);
    crate::json::same_rest(action_head(a), action_tail(a) + x, action_tail(b) + y);
    match (a, b) {
        (
            ActionSpec::LinuxAppEnsureRunning { app_id: p },
            ActionSpec::LinuxAppEnsureRunning { app_id: q },
        ) => {
            names_apart(p@, q@, x, y);
        },
        (
            ActionSpec::DesktopNotificationShow { title: p, body: r },
            ActionSpec::DesktopNotificationShow { title: q, body: s },
        ) => {
            notifications_apart(p@, q@, r@, s@, x, y);
        },
        (
            ActionSpec::LinuxPathOpen { resource_id: p },
            ActionSpec::LinuxPathOpen { resource_id: q },
        ) | (
            ActionSpec::BrowserTabEnsureOpen { resource_id: p },
            ActionSpec::BrowserTabEnsureOpen { resource_id: q },
        ) => {
            resources_apart(p, q, x, y);
        },
        _ => {},
    }
}

proof fn head_characters(action: ActionSpec)
    ensures
        action is LinuxAppEnsureRunning ==> action_head(action)[15] == 'a',
        action is LinuxPathOpen ==> action_head(action)[15] == 'p',
        action is LinuxAppEnsureRunning || action is LinuxPathOpen ==> action_head(action)[9]
            == 'l',
        action is DesktopNotificationShow ==> action_head(action)[9] == 'd',
        action is BrowserTabEnsureOpen ==> action_head(action)[9] == 'b',
        action_head(action).len() > 15,
{
    reveal_strlit("{\"type\":\"linux.app.ensure_running.v1\",\"app_id\":");
    reveal_strlit("{\"type\":\"linux.path.open.v1\",\"resource_id\":\"");
    reveal_strlit("{\"type\":\"desktop.notification.show.v1\",\"title\":");
    reveal_strlit("{\"type\":\"browser.tab.ensure_open.v1\",\"resource_id\":\"");
}

proof fn lists_apart(
    a: Seq<ActionSpec>,
    b: Seq<ActionSpec>,
    i: int,
    x: Seq<char>,
    y: Seq<char>,
)
    requires
        0 <= i < a.len(),
        i < b.len(),
        listed(a, i, a.len() as int) + (seq![']'] + x) == listed(b, i, b.len() as int) + (seq![']']
            + y),
    ensures
        a.len() == b.len(),
        forall|k: int| i <= k < a.len() ==> (#[trigger] a[k]).same_as(b[k]),
        x == y,
    decreases a.len() - i,
{
    reveal_strlit(",");
    let more_a = if i + 1 == a.len() {
        Seq::empty()
    } else {
        ","@ + listed(a, i + 1, a.len() as int)
    };
    let more_b = if i + 1 == b.len() {
        Seq::empty()
    } else {
        ","@ + listed(b, i + 1, b.len() as int)
    };
    let left = more_a + (seq![']'] + x);
    let right = more_b + (seq![']'] + y);
    assert(listed(a, i, a.len() as int) + (seq![']'] + x) =~= action_json(a[i]) + left);
    assert(listed(b, i, b.len() as int) + (seq![']'] + y) =~= action_json(b[i]) + right);
    actions_apart(a[i], b[i], left, right);
    assert(left[0] == if i + 1 == a.len() { ']' } else { ',' });
    assert(right[0] == if i + 1 == b.len() { ']' } else { ',' });
    if i + 1 == a.len() {
        assert(left =~= seq![']'] + x);
        assert(right =~= seq![']'] + y);
        crate::json::same_rest(seq![']'], x, y);
    } else {
        let next_a = listed(a, i + 1, a.len() as int) + (seq![']'] + x);
        let next_b = listed(b, i + 1, b.len() as int) + (seq![']'] + y);
        assert(left =~= ","@ + next_a);
        assert(right =~= ","@ + next_b);
        crate::json::same_rest(","@, next_a, next_b);
        lists_apart(a, b, i + 1, x, y);
    }
}

proof fn action_lists_apart(a: Seq<ActionSpec>, b: Seq<ActionSpec>, x: Seq<char>, y: Seq<char>)
    requires
        actions_json(a, a.len() as int) + (seq![']'] + x) == actions_json(b, b.len() as int) + (
        seq![']'] + y),
    ensures
        a.len() == b.len(),
        forall|k: int| 0 <= k < a.len() ==> (#[trigger] a[k]).same_as(b[k]),
        x == y,
{
    let left = actions_json(a, a.len() as int) + (seq![']'] + x);
    let right = actions_json(b, b.len() as int) + (seq![']'] + y);
    actions_are_listed(a, a.len() as int);
    actions_are_listed(b, b.len() as int);
    if a.len() > 0 {
        begins_with_brace(a);
        assert(left[0] == '{');
    } else {
        assert(left =~= seq![']'] + x);
    }
    if b.len() > 0 {
        begins_with_brace(b);
        assert(right[0] == '{');
    } else {
        assert(right =~= seq![']'] + y);
    }
    if a.len() > 0 && b.len() > 0 {
        lists_apart(a, b, 0, x, y);
    } else {
        assert(a.len() == 0 && b.len() == 0);
        crate::json::same_rest(seq![']'], x, y);
    }
}

proof fn begins_with_brace(actions: Seq<ActionSpec>)
    requires
        actions.len() > 0,
    ensures
        listed(actions, 0, actions.len() as int).len() > 0,
        listed(actions, 0, actions.len() as int)[0] == '{',
{
    reveal_strlit("{\"type\":\"linux.app.ensure_running.v1\",\"app_id\":");
    reveal_strlit("{\"type\":\"linux.path.open.v1\",\"resource_id\":\"");
    reveal_strlit("{\"type\":\"desktop.notification.show.v1\",\"title\":");
    reveal_strlit("{\"type\":\"browser.tab.ensure_open.v1\",\"resource_id\":\"");
    assert(action_json(actions[0]) =~= action_head(actions[0]) + action_tail(actions[0]));
    assert(action_json(actions[0])[0] == '{');
    assert(listed(actions, 0, actions.len() as int)[0] == action_json(actions[0])[0]);
}

/// Whether two definitions say the same.
pub open spec fn same_definition(a: RitualDefinition, b: RitualDefinition) -> bool {
    &&& a.schema_version@ == b.schema_version@
    &&& a.name@ == b.name@
    &&& a.actions@.len() == b.actions@.len()
    &&& forall|k: int| 0 <= k < a.actions@.len() ==> (#[trigger] a.actions@[k]).same_as(b.actions@[k])
    &&& a.execution == b.execution
}

proof fn grouped(a: Seq<char>, b: Seq<char>, c: Seq<char>)
    ensures
        (a + b) + c == a + (b + c),
{
    assert((a + b) + c =~= a + (b + c));
}

/// The canonical JSON read from its beginning, one member after the other.
proof fn regroup(definition: RitualDefinition, rest: Seq<char>)
    requires
        "],\"execution\":{\"mode\":\"sequential\",\"on_failure\":\"stop\",\"timeout_seconds\":"@
            == seq![']'] + rest,
    ensures
        definition.json_text() == "{\"schema_version\":"@ + (crate::json::quoted(
            definition.schema_version@,
        ) + (",\"name\":"@ + (crate::json::quoted(definition.name@) + (",\"actions\":["@ + (
        actions_json(definition.actions@, definition.actions@.len() as int) + (seq![']'] + (rest + (
        text::decimal_of(definition.execution.timeout_seconds as nat) + "}}"@)))))))),
{
    let version = crate::json::quoted(definition.schema_version@);
    let name = crate::json::quoted(definition.name@);
    let list = actions_json(definition.actions@, definition.actions@.len() as int);
    let number = text::decimal_of(definition.execution.timeout_seconds as nat);
    let first = "{\"schema_version\":"@;
    let second = ",\"name\":"@;
    let third = ",\"actions\":["@;
    let fourth = seq![']'] + rest;
    let end = number + "}}"@;
    grouped(first + version + second + name + third + list + fourth, number, "}}"@);
    grouped(first + version + second + name + third + list, fourth, end);
    grouped(first + version + second + name + third, list, fourth + end);
    grouped(first + version + second + name, third, list + (fourth + end));
    grouped(first + version + second, name, third + (list + (fourth + end)));
    grouped(first + version, second, name + (third + (list + (fourth + end))));
    grouped(first, version, second + (name + (third + (list + (fourth + end)))));
    grouped(seq![']'], rest, end);
}

/// The canonical JSON keeps everything: definitions with the same canonical JSON say the
/// same, whatever their texts hold.
pub proof fn canonical_json_tells_definitions_apart(a: RitualDefinition, b: RitualDefinition)
    requires
        a.json_text() == b.json_text(),
    ensures
        same_definition(a, b),
{
    let first = "{\"schema_version\":"@;
    let second = ",\"name\":"@;
    let third = ",\"actions\":["@;
    let fourth =
        "],\"execution\":{\"mode\":\"sequential\",\"on_failure\":\"stop\",\"timeout_seconds\":"@;
    reveal_strlit(
        "],\"execution\":{\"mode\":\"sequential\",\"on_failure\":\"stop\",\"timeout_seconds\":",
    );
    let rest = fourth.skip(1);
    assert(fourth =~= seq![']'] + rest);
    let number_a = text::decimal_of(a.execution.timeout_seconds as nat);
    let number_b = text::decimal_of(b.execution.timeout_seconds as nat);
    let x = rest + (number_a + "}}"@);
    let y = rest + (number_b + "}}"@);
    let list_a = actions_json(a.actions@, a.actions@.len() as int) + (seq![']'] + x);
    let list_b = actions_json(b.actions@, b.actions@.len() as int) + (seq![']'] + y);
    let name_a = crate::json::quoted(a.name@) + (third + list_a);
    let name_b = crate::json::quoted(b.name@) + (third + list_b);
    let version_a = crate::json::quoted(a.schema_version@) + (second + name_a);
    let version_b = crate::json::quoted(b.schema_version@) + (second + name_b);
    regroup(a, rest);
    regroup(b, rest);
    crate::json::same_rest(first, version_a, version_b);
    crate::json::strings_are_self_delimiting(
        a.schema_version@,
        b.schema_version@,
        second + name_a,
        second + name_b,
    );
    crate::json::same_rest(second, name_a, name_b);
    crate::json::strings_are_self_delimiting(a.name@, b.name@, third + list_a, third + list_b);
    crate::json::same_rest(third, list_a, list_b);
    action_lists_apart(a.actions@, b.actions@, x, y);
    crate::json::same_rest(rest, number_a + "}}"@, number_b + "}}"@);
    assert((number_a + "}}"@).len() == (number_b + "}}"@).len());
    assert((number_a + "}}"@).take(number_a.len() as int) =~= number_a);
    assert((number_b + "}}"@).take(number_b.len() as int) =~= number_b);
    text::decimal_reads_back(a.execution.timeout_seconds as nat);
    text::decimal_reads_back(b.execution.timeout_seconds as nat);
    assert(a.execution.mode == b.execution.mode);
    assert(a.execution.on_failure == b.execution.on_failure);
}

/// Definitions that say the same have the same canonical JSON.
pub proof fn canonical_json_depends_on_content_alone(a: RitualDefinition, b: RitualDefinition)
    requires
        same_definition(a, b),
    ensures
        a.json_text() == b.json_text(),
{
    same_actions_same_json(a.actions@, b.actions@, a.actions@.len() as int);
}

proof fn same_actions_same_json(a: Seq<ActionSpec>, b: Seq<ActionSpec>, n: int)
    requires
        0 <= n <= a.len(),
        a.len() == b.len(),
        forall|k: int| 0 <= k < a.len() ==> (#[trigger] a[k]).same_as(b[k]),
    ensures
        actions_json(a, n) == actions_json(b, n),
    decreases n,
{
    if n > 0 {
        assert(a[n - 1].same_as(b[n - 1]));
        assert(action_json(a[n - 1]) == action_json(b[n - 1]));
        same_actions_same_json(a, b, n - 1);
    }
}

} // verus!
