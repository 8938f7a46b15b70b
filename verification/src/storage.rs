//! The decisions of the record store: what is read from the rows, and what is written
//! for an operation. Running the statements is left to the caller.

use vstd::prelude::*;
use crate::event::ValidationError;
use crate::text;

pub mod events;
pub mod migration;
pub mod names;
pub mod operations;
pub mod rows;
pub mod schema;

verus! {

pub const SCHEMA_VERSION: u32 = 5;

/// The most events that one public listing returns, well below what fits into a frame.
pub const PUBLIC_EVENT_LIST_LIMIT: u32 = 100;

pub const DISCOVERY_EVENT_SCAN_LIMIT: u32 = 100_001;

#[derive(Debug, PartialEq, Eq)]
pub enum StorageError {
    Sqlite(String),
    Json,
    Time,
    TimeParse,
    Io(String),
    Validation(ValidationError),
    DuplicateEvent,
    QueueClosed,
    ResponseDropped,
    UnsupportedSchema(u32),
    Startup(String),
    WriterPanicked,
    NotFound,
    DuplicateResource,
    RitualAlreadyRunning,
    DiscoveryAlreadyRunning,
    DiscoveryInputTooLarge,
    SuggestionInvalidState,
    SuggestionStale,
    InvalidSnoozeDuration,
    DiscoveryNotFound,
    SessionNotFound,
    SuggestionNotFound,
    InvalidData(&'static str),
}

impl StorageError {
    pub open spec fn message_text(self) -> Seq<char> {
        match self {
            StorageError::Sqlite(detail) => "SQLite error: "@ + detail@,
            StorageError::Json => "JSON error"@,
            StorageError::Time => "timestamp formatting error"@,
            StorageError::TimeParse => "timestamp parsing error"@,
            StorageError::Io(detail) => "filesystem error: "@ + detail@,
            StorageError::Validation(error) => "event validation failed: "@ + error.message_text(),
            StorageError::DuplicateEvent =>
                "duplicate event for adapter_instance_id and sequence_no"@,
            StorageError::QueueClosed => "storage queue is closed"@,
            StorageError::ResponseDropped => "storage response channel was dropped"@,
            StorageError::UnsupportedSchema(version) => "unsupported database schema version "@
                + crate::text::decimal_of(version as nat),
            StorageError::Startup(detail) => "storage writer thread failed during startup: "@
                + detail@,
            StorageError::WriterPanicked => "storage writer thread panicked"@,
            StorageError::NotFound => "requested record was not found"@,
            StorageError::DuplicateResource => "resource already exists"@,
            StorageError::RitualAlreadyRunning => "ritual is already running"@,
            StorageError::DiscoveryAlreadyRunning => "discovery run is already running"@,
            StorageError::DiscoveryInputTooLarge => "discovery input is too large"@,
            StorageError::SuggestionInvalidState => "suggestion is in an invalid state"@,
            StorageError::SuggestionStale => "suggestion evidence is stale"@,
            StorageError::InvalidSnoozeDuration => "invalid snooze duration"@,
            StorageError::DiscoveryNotFound => "discovery run was not found"@,
            StorageError::SessionNotFound => "session was not found"@,
            StorageError::SuggestionNotFound => "suggestion was not found"@,
            StorageError::InvalidData(detail) => "stored data is invalid: "@ + detail@,
        }
    }

    pub fn message(&self) -> (message: String)
        ensures
            message@ == self.message_text(),
    {
        match self {
            StorageError::Sqlite(detail) => text::with_detail("SQLite error: ", detail.as_str()),
            StorageError::Json => "JSON error".to_owned(),
            StorageError::Time => "timestamp formatting error".to_owned(),
            StorageError::TimeParse => "timestamp parsing error".to_owned(),
            StorageError::Io(detail) => text::with_detail("filesystem error: ", detail.as_str()),
            StorageError::Validation(error) => {
                let detail = error.message();
                text::with_detail("event validation failed: ", detail.as_str())
            },
            StorageError::DuplicateEvent => {
                "duplicate event for adapter_instance_id and sequence_no".to_owned()
            },
            StorageError::QueueClosed => "storage queue is closed".to_owned(),
            StorageError::ResponseDropped => "storage response channel was dropped".to_owned(),
            StorageError::UnsupportedSchema(version) => {
                let detail = crate::text::decimal(*version as u64);
                text::with_detail("unsupported database schema version ", detail.as_str())
            },
            StorageError::Startup(detail) => text::with_detail(
                "storage writer thread failed during startup: ",
                detail.as_str(),
            ),
            StorageError::WriterPanicked => "storage writer thread panicked".to_owned(),
            StorageError::NotFound => "requested record was not found".to_owned(),
            StorageError::DuplicateResource => "resource already exists".to_owned(),
            StorageError::RitualAlreadyRunning => "ritual is already running".to_owned(),
            StorageError::DiscoveryAlreadyRunning => {
                "discovery run is already running".to_owned()
            },
            StorageError::DiscoveryInputTooLarge => "discovery input is too large".to_owned(),
            StorageError::SuggestionInvalidState => "suggestion is in an invalid state".to_owned(),
            StorageError::SuggestionStale => "suggestion evidence is stale".to_owned(),
            StorageError::InvalidSnoozeDuration => "invalid snooze duration".to_owned(),
            StorageError::DiscoveryNotFound => "discovery run was not found".to_owned(),
            StorageError::SessionNotFound => "session was not found".to_owned(),
            StorageError::SuggestionNotFound => "suggestion was not found".to_owned(),
            StorageError::InvalidData(detail) => text::with_detail("stored data is invalid: ", detail),
        }
    }
}

} // verus!
