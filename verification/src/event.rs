//! Canonical events.

use vstd::prelude::*;
use crate::clock::Timestamp;
use crate::ids::Uuid;
use crate::text;

verus! {

pub const EVENT_SPEC_VERSION: &'static str = "1.0";

pub const SYNTHETIC_EVENT_TYPE: &'static str = "dev.fubun.dev.synthetic.v1";

pub const BROWSER_EVENT_TYPE: &'static str = "dev.fubun.browser.resource.opened.v1";

pub const VSCODE_EVENT_TYPE: &'static str = "dev.fubun.vscode.workspace.opened.v1";

pub const MAX_LABEL_BYTES: usize = 128;

#[derive(Clone, Copy, Debug, PartialEq, Eq, Structural)]
pub enum Actor {
    User,
    Fubun,
    System,
    Imported,
}

#[derive(Clone, Copy, Debug, PartialEq, Eq, Structural)]
pub enum PrivacyClass {
    Normal,
    Sensitive,
}

#[derive(Clone, Copy, Debug, PartialEq, Eq, Structural)]
pub enum EventType {
    SyntheticV1,
    BrowserResourceOpenedV1,
    VscodeWorkspaceOpenedV1,
}

#[derive(Clone, Debug, PartialEq, Eq)]
pub struct AdapterIdentity {
    pub id: String,
    pub version: String,
    pub instance_id: Uuid,
    pub sequence_no: u64,
}

#[derive(Clone, Debug, PartialEq, Eq)]
pub struct ContextReference {
    pub project: Option<String>,
    pub session: Option<String>,
}

/// What a development client puts into a synthetic event.
#[derive(Clone, Debug, PartialEq, Eq)]
pub struct SyntheticEventData {
    pub label: String,
    pub counter: i64,
}

#[derive(Clone, Debug, PartialEq, Eq)]
pub enum EventData {
    Synthetic { label: String, counter: i64 },
    BrowserResourceOpened { resource_id: Uuid },
    VscodeWorkspaceOpened { resource_id: Uuid },
}

impl EventData {
    pub fn synthetic(data: SyntheticEventData) -> (r: EventData)
        ensures
            r == (EventData::Synthetic { label: data.label, counter: data.counter }),
    {
        EventData::Synthetic { label: data.label, counter: data.counter }
    }

    /// The type under which this payload is recorded.
    pub open spec fn kind(self) -> EventType {
        match self {
            EventData::Synthetic { .. } => EventType::SyntheticV1,
            EventData::BrowserResourceOpened { .. } => EventType::BrowserResourceOpenedV1,
            EventData::VscodeWorkspaceOpened { .. } => EventType::VscodeWorkspaceOpenedV1,
        }
    }
}

#[derive(Clone, Debug, PartialEq, Eq)]
pub struct Event {
    pub spec_version: String,
    pub id: Uuid,
    pub event_type: EventType,
    pub source: String,
    pub occurred_at: Timestamp,
    pub received_at: Timestamp,
    pub actor: Actor,
    pub adapter: AdapterIdentity,
    pub context: Option<ContextReference>,
    pub privacy: PrivacyClass,
    pub data: EventData,
}

#[derive(Clone, Debug, PartialEq, Eq)]
pub enum ValidationError {
    UnsupportedSpecVersion(String),
    EmptyField(&'static str),
    SequenceOutOfRange,
    LabelTooLong,
}

impl ValidationError {
    pub open spec fn message_text(self) -> Seq<char> {
        match self {
            ValidationError::UnsupportedSpecVersion(version) => "unsupported event spec version: "@
                + version@,
            ValidationError::EmptyField(field) => "field "@ + field@ + " must not be empty"@,
            ValidationError::SequenceOutOfRange =>
                "adapter sequence number exceeds SQLite's signed integer range"@,
            ValidationError::LabelTooLong => "synthetic event label exceeds 128 bytes"@,
        }
    }

    pub fn message(&self) -> (message: String)
        ensures
            message@ == self.message_text(),
    {
        match self {
            ValidationError::UnsupportedSpecVersion(version) => {
                let mut message = "unsupported event spec version: ".to_owned();
                message.append(version.as_str());
                message
            },
            ValidationError::EmptyField(field) => {
                let mut message = "field ".to_owned();
                message.append(field);
                message.append(" must not be empty");
                message
            },
            ValidationError::SequenceOutOfRange => {
                "adapter sequence number exceeds SQLite's signed integer range".to_owned()
            },
            ValidationError::LabelTooLong => "synthetic event label exceeds 128 bytes".to_owned(),
        }
    }
}

/// A field that must hold more than white space.
pub open spec fn non_empty_check(field: &'static str, value: Seq<char>) -> Result<
    (),
    ValidationError,
> {
    if text::is_blank(value) {
        Err(ValidationError::EmptyField(field))
    } else {
        Ok(())
    }
}

pub fn validate_non_empty(field: &'static str, value: &str) -> (r: Result<(), ValidationError>)
    ensures
        r == non_empty_check(field, value@),
{
    if text::blank(value) {
        return Err(ValidationError::EmptyField(field));
    }
    Ok(())
}

impl Event {
    /// The first rule that the event breaks, in the order in which they are checked.
    pub open spec fn check(self) -> Result<(), ValidationError> {
        if self.spec_version@ != EVENT_SPEC_VERSION@ {
            Err(ValidationError::UnsupportedSpecVersion(self.spec_version))
        } else if text::is_blank(self.source@) {
            Err(ValidationError::EmptyField("source"))
        } else if text::is_blank(self.adapter.id@) {
            Err(ValidationError::EmptyField("adapter.id"))
        } else if text::is_blank(self.adapter.version@) {
            Err(ValidationError::EmptyField("adapter.version"))
        } else if self.data matches EventData::Synthetic { label, .. } && text::is_blank(label@) {
            Err(ValidationError::EmptyField("data.label"))
        } else if self.adapter.sequence_no > i64::MAX {
            Err(ValidationError::SequenceOutOfRange)
        } else if self.data matches EventData::Synthetic { label, .. } && text::byte_len(label@)
            > MAX_LABEL_BYTES {
            Err(ValidationError::LabelTooLong)
        } else {
            Ok(())
        }
    }

    pub fn validate(&self) -> (r: Result<(), ValidationError>)
        ensures
            r == self.check(),
    {
        if !text::same(self.spec_version.as_str(), EVENT_SPEC_VERSION) {
            return Err(ValidationError::UnsupportedSpecVersion(self.spec_version.clone()));
        }
        if let Err(error) = validate_non_empty("source", self.source.as_str()) {
            return Err(error);
        }
        if let Err(error) = validate_non_empty("adapter.id", self.adapter.id.as_str()) {
            return Err(error);
        }
        if let Err(error) = validate_non_empty("adapter.version", self.adapter.version.as_str()) {
            return Err(error);
        }
        if let EventData::Synthetic { label, .. } = &self.data {
            if let Err(error) = validate_non_empty("data.label", label.as_str()) {
                return Err(error);
            }
        }
        if self.adapter.sequence_no > i64::MAX as u64 {
            return Err(ValidationError::SequenceOutOfRange);
        }
        if let EventData::Synthetic { label, .. } = &self.data {
            if label.as_str().as_bytes().len() > MAX_LABEL_BYTES {
                return Err(ValidationError::LabelTooLong);
            }
        }
        Ok(())
    }
}

} // verus!
