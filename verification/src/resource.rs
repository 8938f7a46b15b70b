//! Registered resources and observation scopes.

use vstd::prelude::*;
use crate::clock::Timestamp;
use crate::ids::Uuid;
use crate::text;

verus! {

pub const MAX_LOCATOR_BYTES: usize = 4096;

pub const MAX_RESOURCE_LABEL: usize = 128;

#[derive(Clone, Copy, Debug, PartialEq, Eq, Structural)]
pub enum ResourceKind {
    File,
    Directory,
    WebPage,
}

#[derive(Clone, Copy, Debug, PartialEq, Eq, Structural)]
pub enum ResourceScope {
    Exact,
}

#[derive(Clone, Copy, Debug, PartialEq, Eq, Structural)]
pub enum Sensitivity {
    Normal,
    Sensitive,
}

#[derive(Clone, Debug, PartialEq, Eq)]
pub struct Resource {
    pub id: Uuid,
    pub kind: ResourceKind,
    pub label: String,
    pub locator: String,
    pub canonical_locator: String,
    pub sensitivity: Sensitivity,
    pub scope: ResourceScope,
    pub created_at: Timestamp,
    pub updated_at: Timestamp,
}

#[derive(Clone, Copy, Debug, PartialEq, Eq, Structural)]
pub enum ObservationSource {
    BrowserChromium,
    VscodeWorkspace,
}

#[derive(Clone, Copy, Debug, PartialEq, Eq, Structural)]
pub enum ObservationStatus {
    Active,
    Paused,
}

#[derive(Clone, Copy, Debug, PartialEq, Eq, Structural)]
pub struct ObservationScope {
    pub id: Uuid,
    pub source: ObservationSource,
    pub resource_id: Uuid,
    pub status: ObservationStatus,
    pub created_at: Timestamp,
    pub updated_at: Timestamp,
}

#[derive(Clone, Copy, Debug, PartialEq, Eq, Structural)]
pub enum ResourceValidationError {
    InvalidLabel,
    RelativePath,
    ControlCharacter,
    LocatorTooLong,
    InvalidCanonicalPath,
}

impl ResourceValidationError {
    pub open spec fn message_text(self) -> Seq<char> {
        match self {
            ResourceValidationError::InvalidLabel => "resource label must be 1-128 characters"@,
            ResourceValidationError::RelativePath => "resource locator must be an absolute path"@,
            ResourceValidationError::ControlCharacter =>
                "resource locator contains a NUL or control character"@,
            ResourceValidationError::LocatorTooLong => "resource locator exceeds 4096 bytes"@,
            ResourceValidationError::InvalidCanonicalPath =>
                "resource canonical locator must be an absolute path"@,
        }
    }

    pub fn message(&self) -> (message: String)
        ensures
            message@ == self.message_text(),
    {
        match self {
            ResourceValidationError::InvalidLabel => {
                "resource label must be 1-128 characters".to_owned()
            },
            ResourceValidationError::RelativePath => {
                "resource locator must be an absolute path".to_owned()
            },
            ResourceValidationError::ControlCharacter => {
                "resource locator contains a NUL or control character".to_owned()
            },
            ResourceValidationError::LocatorTooLong => {
                "resource locator exceeds 4096 bytes".to_owned()
            },
            ResourceValidationError::InvalidCanonicalPath => {
                "resource canonical locator must be an absolute path".to_owned()
            },
        }
    }
}

/// Whether some character lies below U+0020.
pub open spec fn has_low_control(path: Seq<char>) -> bool {
    exists|i: int| 0 <= i < path.len() && (#[trigger] path[i] as u32) < 0x20
}

pub open spec fn path_check(path: Seq<char>) -> Result<(), ResourceValidationError> {
    if text::byte_len(path) > MAX_LOCATOR_BYTES {
        Err(ResourceValidationError::LocatorTooLong)
    } else if path.len() == 0 || has_low_control(path) {
        Err(ResourceValidationError::ControlCharacter)
    } else {
        Ok(())
    }
}

/// A path that starts at the root.
pub open spec fn is_absolute_path(path: Seq<char>) -> bool {
    path.len() > 0 && path[0] == '/'
}

fn any_low_control(path: &str) -> (r: bool)
    ensures
        r == has_low_control(path@),
{
    for c in it: path.chars()
        invariant
            it.seq() == path@,
            forall|i: int| 0 <= i < it.index() ==> (#[trigger] path@[i] as u32) >= 0x20,
    {
        if (c as u32) < 0x20 {
            assert((path@[it.index()] as u32) < 0x20);
            return true;
        }
    }
    false
}

pub fn validate_path_string(value: &str) -> (r: Result<(), ResourceValidationError>)
    ensures
        r == path_check(value@),
{
    if value.as_bytes().len() > MAX_LOCATOR_BYTES {
        return Err(ResourceValidationError::LocatorTooLong);
    }
    if value.is_empty() || any_low_control(value) {
        return Err(ResourceValidationError::ControlCharacter);
    }
    Ok(())
}

pub fn absolute_path(path: &str) -> (r: bool)
    ensures
        r == is_absolute_path(path@),
{
    let chars = text::chars_of(path);
    chars.len() > 0 && chars[0] == '/'
}

impl Resource {
    /// The first rule that the resource breaks. The locators of a web page are URLs,
    /// so only those of files and directories have to be absolute paths.
    pub open spec fn check(self) -> Result<(), ResourceValidationError> {
        if !(1 <= self.label@.len() <= MAX_RESOURCE_LABEL) {
            Err(ResourceValidationError::InvalidLabel)
        } else if path_check(self.locator@) is Err {
            path_check(self.locator@)
        } else if path_check(self.canonical_locator@) is Err {
            path_check(self.canonical_locator@)
        } else if self.kind != ResourceKind::WebPage && !is_absolute_path(self.locator@) {
            Err(ResourceValidationError::RelativePath)
        } else if self.kind != ResourceKind::WebPage && !is_absolute_path(self.canonical_locator@) {
            Err(ResourceValidationError::InvalidCanonicalPath)
        } else {
            Ok(())
        }
    }

    pub fn validate(&self) -> (r: Result<(), ResourceValidationError>)
        ensures
            r == self.check(),
    {
        let label_len: usize = self.label.as_str().unicode_len();
        if label_len < 1 || label_len > MAX_RESOURCE_LABEL {
            return Err(ResourceValidationError::InvalidLabel);
        }
        if let Err(error) = validate_path_string(self.locator.as_str()) {
            return Err(error);
        }
        if let Err(error) = validate_path_string(self.canonical_locator.as_str()) {
            return Err(error);
        }
        if self.kind != ResourceKind::WebPage {
            if !absolute_path(self.locator.as_str()) {
                return Err(ResourceValidationError::RelativePath);
            }
            if !absolute_path(self.canonical_locator.as_str()) {
                return Err(ResourceValidationError::InvalidCanonicalPath);
            }
        }
        Ok(())
    }
}

} // verus!
