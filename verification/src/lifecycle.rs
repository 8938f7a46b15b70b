//! The life of resources and rituals: what may be registered, activated, paused and run.

use vstd::prelude::*;
use crate::adapter::AdapterConnection;
use crate::clock::Timestamp;
use crate::ids::Uuid;
use crate::policy;
use crate::preview::{Rejection, ResourceFacts};
use crate::protocol::{ErrorBody, ResourceCreateRequest, RitualRecord};
use crate::resource;
use crate::resource::{
    Resource, ResourceKind, ResourceScope, ResourceValidationError, Sensitivity,
};
use crate::ritual::{
    ActionSpec, Approval, ExecutionMode, FailureMode, Ritual, RitualDefinition,
    RitualExecutionConfig, RitualStatus, RitualVersion, RITUAL_SCHEMA_VERSION,
};
use crate::storage::StorageError;
use crate::text;
use crate::url;

verus! {

pub const MAX_RITUAL_JSON_BYTES: usize = 131_072;

/// How long the draft of a suggestion may take as a whole.
pub const DRAFT_TIMEOUT_SECONDS: u32 = 60;

/// What is wrong with a definition, in words.
pub open spec fn definition_fault(definition: RitualDefinition) -> Option<Seq<char>> {
    match definition.check() {
        Err(error) => Some(error.message_text()),
        Ok(_) => if text::byte_len(definition.json_text()) > MAX_RITUAL_JSON_BYTES {
            Some("ritual JSON exceeds the size limit"@)
        } else {
            None
        },
    }
}

/// Checks a definition and gives its canonical JSON.
pub fn validate_ritual_definition(definition: &RitualDefinition) -> (r: Result<String, String>)
    ensures
        match definition_fault(*definition) {
            Some(message) => r is Err && r->Err_0@ == message,
            None => r is Ok && r->Ok_0@ == definition.json_text(),
        },
{
    if let Err(error) = definition.validate() {
        return Err(error.message());
    }
    for i in 0..definition.actions.len()
        invariant
            definition.check() is Ok,
    {
        proof {
            policy::every_action_is_permitted(definition.actions@[i as int]);
        }
        if let Err(error) = policy::validate_action(&definition.actions[i]) {
            return Err(error.message());
        }
    }
    let canonical = match definition.canonical_json() {
        Ok(canonical) => canonical,
        Err(_) => return Err("ritual JSON could not be canonicalized".to_owned()),
    };
    if canonical.as_str().as_bytes().len() > MAX_RITUAL_JSON_BYTES {
        return Err("ritual JSON exceeds the size limit".to_owned());
    }
    Ok(canonical)
}

/// Whether a version holds a definition.
pub open spec fn is_version_of(
    version: RitualVersion,
    id: Uuid,
    ritual_id: Uuid,
    number: u32,
    definition: RitualDefinition,
    now: Timestamp,
) -> bool {
    &&& version.id == id
    &&& version.ritual_id == ritual_id
    &&& version.version == number
    &&& version.schema_version@ == RITUAL_SCHEMA_VERSION@
    &&& version.canonical_json@ == definition.json_text()
    &&& version.content_hash@ == definition.hash_text()
    &&& version.created_at == now
}

/// Makes the version that holds a definition, unless the definition is at fault.
fn new_version(
    id: Uuid,
    ritual_id: Uuid,
    number: u32,
    definition: &RitualDefinition,
    now: Timestamp,
) -> (r: Result<RitualVersion, ErrorBody>)
    ensures
        match definition_fault(*definition) {
            Some(message) => r is Err && r->Err_0@ == ("invalid_ritual"@, message),
            None => r is Ok && is_version_of(
                r->Ok_0,
                id,
                ritual_id,
                number,
                *definition,
                now,
            ),
        },
{
    let canonical_json = match validate_ritual_definition(definition) {
        Ok(canonical) => canonical,
        Err(message) => return Err(ErrorBody::new("invalid_ritual", message.as_str())),
    };
    let content_hash = match definition.content_hash() {
        Ok(hash) => hash,
        Err(_) => {
            return Err(ErrorBody::new("invalid_ritual", "ritual hash could not be computed"));
        },
    };
    Ok(
        RitualVersion {
            id,
            ritual_id,
            version: number,
            schema_version: RITUAL_SCHEMA_VERSION.to_owned(),
            canonical_json,
            content_hash,
            created_at: now,
        },
    )
}

/// Whether a record is that of a new ritual.
pub open spec fn is_created(
    record: RitualRecord,
    definition: RitualDefinition,
    ritual_id: Uuid,
    version_id: Uuid,
    now: Timestamp,
) -> bool {
    &&& record.definition == definition
    &&& is_version_of(record.version, version_id, ritual_id, 1, definition, now)
    &&& record.ritual.id == ritual_id
    &&& record.ritual.name == definition.name
    &&& record.ritual.status == RitualStatus::Draft
    &&& record.ritual.current_version_id == version_id
    &&& record.ritual.created_at == now && record.ritual.updated_at == now
}

/// Makes a ritual: a draft, with its first version.
pub fn create_ritual(
    definition: RitualDefinition,
    ritual_id: Uuid,
    version_id: Uuid,
    now: Timestamp,
) -> (r: Result<RitualRecord, ErrorBody>)
    ensures
        match definition_fault(definition) {
            Some(message) => r is Err && r->Err_0@ == ("invalid_ritual"@, message),
            None => {
                &&& r is Ok
                &&& r->Ok_0.definition == definition
                &&& is_version_of(r->Ok_0.version, version_id, ritual_id, 1, definition, now)
                &&& r->Ok_0.ritual == (Ritual {
                    id: ritual_id,
                    name: definition.name,
                    status: RitualStatus::Draft,
                    current_version_id: version_id,
                    created_at: now,
                    updated_at: now,
                })
            },
        },
        r is Ok <==> definition_fault(definition) is None,
        r is Ok ==> is_created(r->Ok_0, definition, ritual_id, version_id, now),
{
    let version = match new_version(version_id, ritual_id, 1, &definition, now) {
        Ok(version) => version,
        Err(error) => return Err(error),
    };
    let ritual = Ritual {
        id: ritual_id,
        name: definition.name.clone(),
        status: RitualStatus::Draft,
        current_version_id: version_id,
        created_at: now,
        updated_at: now,
    };
    Ok(RitualRecord { ritual, version, definition })
}

/// The number of the version after a version.
pub open spec fn next_number(number: u32) -> u32 {
    if number < u32::MAX {
        (number + 1) as u32
    } else {
        number
    }
}

/// Whether a record is that of a ritual after a change.
pub open spec fn is_updated(
    record: RitualRecord,
    ritual: Ritual,
    current_version: u32,
    definition: RitualDefinition,
    version_id: Uuid,
    now: Timestamp,
) -> bool {
    &&& record.definition == definition
    &&& is_version_of(
        record.version,
        version_id,
        ritual.id,
        next_number(current_version),
        definition,
        now,
    )
    &&& record.ritual.id == ritual.id
    &&& record.ritual.name == definition.name
    &&& record.ritual.status == RitualStatus::Draft
    &&& record.ritual.current_version_id == version_id
    &&& record.ritual.created_at == ritual.created_at && record.ritual.updated_at == now
}

/// Changes a ritual: the new definition is a new version, and the ritual is a draft again.
pub fn update_ritual(
    ritual: Ritual,
    current_version: u32,
    definition: RitualDefinition,
    version_id: Uuid,
    now: Timestamp,
) -> (r: Result<RitualRecord, ErrorBody>)
    ensures
        match definition_fault(definition) {
            Some(message) => r is Err && r->Err_0@ == ("invalid_ritual"@, message),
            None => {
                &&& r is Ok
                &&& r->Ok_0.definition == definition
                &&& is_version_of(
                    r->Ok_0.version,
                    version_id,
                    ritual.id,
                    next_number(current_version),
                    definition,
                    now,
                )
                &&& r->Ok_0.ritual == (Ritual {
                    name: definition.name,
                    status: RitualStatus::Draft,
                    current_version_id: version_id,
                    updated_at: now,
                    ..ritual
                })
            },
        },
        r is Ok <==> definition_fault(definition) is None,
        r is Ok ==> is_updated(
            r->Ok_0,
            ritual,
            current_version,
            definition,
            version_id,
            now,
        ),
{
    let number: u32 = if current_version < u32::MAX {
        current_version + 1
    } else {
        current_version
    };
    let version = match new_version(version_id, ritual.id, number, &definition, now) {
        Ok(version) => version,
        Err(error) => return Err(error),
    };
    let ritual = Ritual {
        id: ritual.id,
        name: definition.name.clone(),
        status: RitualStatus::Draft,
        current_version_id: version_id,
        created_at: ritual.created_at,
        updated_at: now,
    };
    Ok(RitualRecord { ritual, version, definition })
}

/// The actions of the draft that an accepted suggestion becomes: the pages, in their
/// order.
pub open spec fn draft_actions(pages: Seq<Uuid>) -> Seq<ActionSpec> {
    pages.map_values(|page: Uuid| ActionSpec::BrowserTabEnsureOpen { resource_id: page })
}

/// Makes the definition of the draft that an accepted suggestion becomes. Nothing of it is
/// approved or runs by that.
pub fn draft_definition(name: String, pages: &Vec<Uuid>) -> (definition: RitualDefinition)
    ensures
        definition.schema_version@ == RITUAL_SCHEMA_VERSION@,
        definition.name == name,
        definition.actions@ == draft_actions(pages@),
        definition.execution == (RitualExecutionConfig {
            mode: ExecutionMode::Sequential,
            on_failure: FailureMode::Stop,
            timeout_seconds: DRAFT_TIMEOUT_SECONDS,
        }),
{
    let mut actions: Vec<ActionSpec> = Vec::new();
    for i in 0..pages.len()
        invariant
            actions@ == draft_actions(pages@.take(i as int)),
    {
        actions.push(ActionSpec::BrowserTabEnsureOpen { resource_id: pages[i] });
        assert(actions@ =~= draft_actions(pages@.take(i + 1)));
    }
    assert(pages@.take(pages@.len() as int) =~= pages@);
    RitualDefinition {
        schema_version: RITUAL_SCHEMA_VERSION.to_owned(),
        name,
        actions,
        execution: RitualExecutionConfig {
            mode: ExecutionMode::Sequential,
            on_failure: FailureMode::Stop,
            timeout_seconds: DRAFT_TIMEOUT_SECONDS,
        },
    }
}

/// A ritual is activated only by a request that says so.
pub fn require_approval(approve: bool) -> (r: Result<(), Rejection>)
    ensures
        r == (if approve {
            Ok(())
        } else {
            Err(Rejection { code: "approval_required", message: "activation requires --approve" })
        }),
{
    if !approve {
        return Err(
            Rejection { code: "approval_required", message: "activation requires --approve" },
        );
    }
    Ok(())
}

/// A ritual is activated only while nothing stands in its way.
pub fn require_executable(executable: bool) -> (r: Result<(), Rejection>)
    ensures
        r == (if executable {
            Ok(())
        } else {
            Err(
                Rejection {
                    code: "preflight_failed",
                    message: "ritual preview contains blocking warnings",
                },
            )
        }),
{
    if !executable {
        return Err(
            Rejection {
                code: "preflight_failed",
                message: "ritual preview contains blocking warnings",
            },
        );
    }
    Ok(())
}

/// A ritual once it is active.
pub fn activated(ritual: Ritual) -> (r: Ritual)
    ensures
        r == (Ritual { status: RitualStatus::Active, ..ritual }),
{
    let mut r = ritual;
    r.status = RitualStatus::Active;
    r
}

/// A ritual after a pause, where it may be paused.
pub open spec fn paused(ritual: Ritual) -> Option<Ritual> {
    if ritual.status == RitualStatus::Archived {
        None
    } else {
        Some(Ritual { status: RitualStatus::Paused, ..ritual })
    }
}

/// Pauses a ritual, unless it was archived.
pub fn pause_ritual(ritual: Ritual) -> (r: Result<Ritual, Rejection>)
    ensures
        r == (if ritual.status == RitualStatus::Archived {
            Err(
                Rejection {
                    code: "ritual_archived",
                    message: "archived rituals cannot be paused",
                },
            )
        } else {
            Ok(Ritual { status: RitualStatus::Paused, ..ritual })
        }),
        r is Ok <==> paused(ritual) is Some,
        r is Ok ==> Some(r->Ok_0) == paused(ritual),
{
    if ritual.status == RitualStatus::Archived {
        return Err(
            Rejection { code: "ritual_archived", message: "archived rituals cannot be paused" },
        );
    }
    let mut r = ritual;
    r.status = RitualStatus::Paused;
    Ok(r)
}

pub open spec fn run_gate(status: RitualStatus) -> Result<(), Rejection> {
    match status {
        RitualStatus::Active => Ok(()),
        RitualStatus::Draft => Err(
            Rejection {
                code: "ritual_not_active",
                message: "draft rituals must be activated before execution",
            },
        ),
        RitualStatus::Paused => Err(
            Rejection { code: "ritual_not_active", message: "paused rituals cannot execute" },
        ),
        RitualStatus::Archived => Err(
            Rejection { code: "ritual_not_active", message: "archived rituals cannot execute" },
        ),
    }
}

/// Only an active ritual runs.
pub fn require_active(status: RitualStatus) -> (r: Result<(), Rejection>)
    ensures
        r == run_gate(status),
{
    match status {
        RitualStatus::Active => Ok(()),
        RitualStatus::Draft => Err(
            Rejection {
                code: "ritual_not_active",
                message: "draft rituals must be activated before execution",
            },
        ),
        RitualStatus::Paused => Err(
            Rejection { code: "ritual_not_active", message: "paused rituals cannot execute" },
        ),
        RitualStatus::Archived => Err(
            Rejection { code: "ritual_not_active", message: "archived rituals cannot execute" },
        ),
    }
}

/// A ritual that was changed does not run: it is a draft until it is activated anew, and
/// the approvals of the version before approve nothing of the new one.
pub proof fn changed_ritual_does_not_run(
    ritual: Ritual,
    name: String,
    version: RitualVersion,
    now: Timestamp,
    connections: Seq<AdapterConnection>,
    approvals: Seq<Approval>,
    actions: Seq<ActionSpec>,
    facts: Seq<ResourceFacts>,
)
    requires
        version.id != ritual.current_version_id,
        facts.len() == actions.len(),
        actions.len() > 0,
        forall|i: int|
            0 <= i < approvals.len() ==> (#[trigger] approvals[i]).ritual_version_id
                == ritual.current_version_id,
    ensures
        run_gate(
            (Ritual {
                name,
                status: RitualStatus::Draft,
                current_version_id: version.id,
                updated_at: now,
                ..ritual
            }).status,
        ) is Err,
        crate::preview::first_fault(connections, approvals, version, actions, facts, 0) is Some,
{
    crate::preview::stale_approvals_stop_a_run(connections, approvals, version, actions, facts);
}

/// Rituals with the same content hash have the same digest of their canonical JSON: the
/// hash loses nothing of it.
pub proof fn content_hash_keeps_the_digest(a: RitualDefinition, b: RitualDefinition)
    requires
        a.hash_text() == b.hash_text(),
    ensures
        crate::digest::sha256_of(vstd::utf8::encode_utf8(a.json_text()))
            == crate::digest::sha256_of(vstd::utf8::encode_utf8(b.json_text())),
{
    crate::digest::hex_injective(
        crate::digest::sha256_of(vstd::utf8::encode_utf8(a.json_text())),
        crate::digest::sha256_of(vstd::utf8::encode_utf8(b.json_text())),
    );
}

pub open spec fn is_registrable_path(path: Seq<char>) -> bool {
    &&& resource::is_absolute_path(path)
    &&& text::byte_len(path) <= resource::MAX_LOCATOR_BYTES
    &&& !resource::has_low_control(path)
}

/// A path is looked up only if it could name a resource.
pub fn check_resource_path(path: &str) -> (r: Result<(), Rejection>)
    ensures
        r == (if is_registrable_path(path@) {
            Ok(())
        } else {
            Err(
                Rejection {
                    code: "invalid_resource",
                    message: "resource path must be an absolute existing path",
                },
            )
        }),
{
    if !resource::absolute_path(path) || resource::validate_path_string(path).is_err() {
        return Err(
            Rejection {
                code: "invalid_resource",
                message: "resource path must be an absolute existing path",
            },
        );
    }
    Ok(())
}

/// What a file system says of a path that is registered.
#[derive(Clone, Copy, Debug, PartialEq, Eq, Structural)]
pub enum FoundPath {
    Missing,
    NotCanonical,
    File,
    Directory,
    Other,
}

pub open spec fn found_kind(found: FoundPath) -> Result<ResourceKind, Rejection> {
    match found {
        FoundPath::Missing => Err(
            Rejection { code: "invalid_resource", message: "resource path does not exist" },
        ),
        FoundPath::NotCanonical => Err(
            Rejection {
                code: "invalid_resource",
                message: "resource path cannot be canonicalized",
            },
        ),
        FoundPath::File => Ok(ResourceKind::File),
        FoundPath::Directory => Ok(ResourceKind::Directory),
        FoundPath::Other => Err(
            Rejection { code: "invalid_resource", message: "resource must be a file or directory" },
        ),
    }
}

/// The kind of resource that stands at a path.
pub fn kind_of_path(found: FoundPath) -> (r: Result<ResourceKind, Rejection>)
    ensures
        r == found_kind(found),
{
    match found {
        FoundPath::Missing => Err(
            Rejection { code: "invalid_resource", message: "resource path does not exist" },
        ),
        FoundPath::NotCanonical => Err(
            Rejection {
                code: "invalid_resource",
                message: "resource path cannot be canonicalized",
            },
        ),
        FoundPath::File => Ok(ResourceKind::File),
        FoundPath::Directory => Ok(ResourceKind::Directory),
        FoundPath::Other => Err(
            Rejection { code: "invalid_resource", message: "resource must be a file or directory" },
        ),
    }
}

/// Takes a resource in, unless it breaks a rule.
fn checked(resource: Resource) -> (r: Result<Resource, ErrorBody>)
    ensures
        match resource.check() {
            Err(error) => r is Err && r->Err_0@ == ("invalid_resource"@, error.message_text()),
            Ok(_) => r == Ok::<Resource, ErrorBody>(resource),
        },
{
    if let Err(error) = resource.validate() {
        let message = error.message();
        return Err(ErrorBody::new("invalid_resource", message.as_str()));
    }
    Ok(resource)
}

/// The resource that a request registers for a path.
pub open spec fn path_resource(
    request: ResourceCreateRequest,
    canonical: String,
    kind: ResourceKind,
    id: Uuid,
    now: Timestamp,
) -> Resource {
    Resource {
        id,
        kind,
        label: request.label,
        locator: request.path,
        canonical_locator: canonical,
        sensitivity: request.sensitivity,
        scope: ResourceScope::Exact,
        created_at: now,
        updated_at: now,
    }
}

/// Makes the resource that a request registers.
pub fn create_resource(
    request: ResourceCreateRequest,
    canonical: String,
    kind: ResourceKind,
    id: Uuid,
    now: Timestamp,
) -> (r: Result<Resource, ErrorBody>)
    ensures
        match path_resource(request, canonical, kind, id, now).check() {
            Err(error) => r is Err && r->Err_0@ == ("invalid_resource"@, error.message_text()),
            Ok(_) => r == Ok::<Resource, ErrorBody>(
                path_resource(request, canonical, kind, id, now),
            ),
        },
{
    checked(
        Resource {
            id,
            kind,
            label: request.label,
            locator: request.path,
            canonical_locator: canonical,
            sensitivity: request.sensitivity,
            scope: ResourceScope::Exact,
            created_at: now,
            updated_at: now,
        },
    )
}

/// What enabling the observation of a page gives.
pub struct PageRegistration {
    pub resource: Resource,
    pub canonical_url_hash: String,
    pub origin_pattern: String,
}

/// What is wrong with a page's resource.
pub open spec fn page_fault(label: Seq<char>, canonical: Seq<char>) -> Option<
    ResourceValidationError,
> {
    if !(1 <= label.len() <= resource::MAX_RESOURCE_LABEL) {
        Some(ResourceValidationError::InvalidLabel)
    } else if resource::path_check(canonical) is Err {
        Some(resource::path_check(canonical)->Err_0)
    } else {
        None
    }
}

/// Makes the resource of a page whose observation is enabled. Only its canonical address
/// is kept.
pub fn register_page(label: String, address: &str, id: Uuid, now: Timestamp) -> (r: Result<
    PageRegistration,
    ErrorBody,
>)
    ensures
        match url::parts_of(address@) {
            Err(error) => r is Err && r->Err_0@ == ("invalid_url"@, error.message_text()),
            Ok(parts) => match page_fault(label@, url::rendered(parts)) {
                Some(error) => r is Err && r->Err_0@ == ("invalid_resource"@, error.message_text()),
                None => {
                    let page = r->Ok_0;
                    &&& r is Ok
                    &&& page.resource.id == id
                    &&& page.resource.kind == ResourceKind::WebPage
                    &&& page.resource.label == label
                    &&& page.resource.locator@ == url::rendered(parts)
                    &&& page.resource.canonical_locator@ == url::rendered(parts)
                    &&& page.resource.sensitivity == Sensitivity::Normal
                    &&& page.resource.scope == ResourceScope::Exact
                    &&& page.resource.created_at == now && page.resource.updated_at == now
                    &&& page.resource.check() is Ok
                    &&& page.canonical_url_hash@ == crate::digest::hex_of(
                        crate::digest::sha256_of(vstd::utf8::encode_utf8(url::rendered(parts))),
                    )
                    &&& page.canonical_url_hash@.len() == 64
                    &&& page.origin_pattern@ == url::origin_text(parts)
                },
            },
        },
{
    let canonical = match url::canonicalize(address) {
        Ok(canonical) => canonical,
        Err(error) => {
            let message = error.message();
            return Err(ErrorBody::new("invalid_url", message.as_str()));
        },
    };
    let origin_pattern = match url::origin_pattern(address) {
        Ok(pattern) => pattern,
        Err(error) => {
            let message = error.message();
            return Err(ErrorBody::new("invalid_url", message.as_str()));
        },
    };
    let canonical_url_hash = crate::digest::sha256_hex(canonical.as_str());
    let resource = match checked(
        Resource {
            id,
            kind: ResourceKind::WebPage,
            label,
            locator: canonical.clone(),
            canonical_locator: canonical,
            sensitivity: Sensitivity::Normal,
            scope: ResourceScope::Exact,
            created_at: now,
            updated_at: now,
        },
    ) {
        Ok(resource) => resource,
        Err(error) => return Err(error),
    };
    Ok(PageRegistration { resource, canonical_url_hash, origin_pattern })
}

/// What enabling the observation of a workspace gives.
pub struct WorkspaceRegistration {
    pub resource: Resource,
    pub canonical_path_hash: String,
}

/// Makes the resource of a workspace whose observation is enabled, which has to be a
/// directory.
pub fn register_workspace(
    label: String,
    path: String,
    canonical: String,
    kind: ResourceKind,
    id: Uuid,
    now: Timestamp,
) -> (r: Result<WorkspaceRegistration, ErrorBody>)
    ensures
        if kind != ResourceKind::Directory {
            r is Err && r->Err_0@ == ("invalid_resource"@, "workspace must be a directory"@)
        } else {
            let resource = Resource {
                id,
                kind,
                label,
                locator: path,
                canonical_locator: canonical,
                sensitivity: Sensitivity::Normal,
                scope: ResourceScope::Exact,
                created_at: now,
                updated_at: now,
            };
            match resource.check() {
                Err(error) => r is Err && r->Err_0@ == ("invalid_resource"@, error.message_text()),
                Ok(_) => r is Ok && r->Ok_0.resource == resource && r->Ok_0.canonical_path_hash@
                    == crate::digest::hex_of(
                    crate::digest::sha256_of(vstd::utf8::encode_utf8(canonical@)),
                ) && r->Ok_0.canonical_path_hash@.len() == 64,
            }
        },
{
    if kind != ResourceKind::Directory {
        return Err(ErrorBody::new("invalid_resource", "workspace must be a directory"));
    }
    let canonical_path_hash = crate::digest::sha256_hex(canonical.as_str());
    let resource = match checked(
        Resource {
            id,
            kind,
            label,
            locator: path,
            canonical_locator: canonical,
            sensitivity: Sensitivity::Normal,
            scope: ResourceScope::Exact,
            created_at: now,
            updated_at: now,
        },
    ) {
        Ok(resource) => resource,
        Err(error) => return Err(error),
    };
    Ok(WorkspaceRegistration { resource, canonical_path_hash })
}

/// The resource that an action names.
pub open spec fn named_resource(action: ActionSpec) -> Option<Uuid> {
    policy::approval_identity(action).resource_id
}

pub fn action_resource(action: &ActionSpec) -> (r: Option<Uuid>)
    ensures
        r == named_resource(*action),
{
    policy::approval_fields(action).resource_id
}

pub open spec fn storage_fault(error: StorageError) -> Rejection {
    match error {
        StorageError::NotFound => Rejection {
            code: "internal_error",
            message: "requested record was not found",
        },
        StorageError::DuplicateResource => Rejection {
            code: "duplicate_resource",
            message: "resource already exists",
        },
        StorageError::RitualAlreadyRunning => Rejection {
            code: "ritual_already_running",
            message: "ritual is already running",
        },
        _ => Rejection { code: "internal_error", message: "storage operation failed" },
    }
}

/// What a client is told of a storage error. Details of the database are not told.
pub fn storage_error(error: &StorageError) -> (r: Rejection)
    ensures
        r == storage_fault(*error),
{
    match error {
        StorageError::NotFound => Rejection {
            code: "internal_error",
            message: "requested record was not found",
        },
        StorageError::DuplicateResource => Rejection {
            code: "duplicate_resource",
            message: "resource already exists",
        },
        StorageError::RitualAlreadyRunning => Rejection {
            code: "ritual_already_running",
            message: "ritual is already running",
        },
        _ => Rejection { code: "internal_error", message: "storage operation failed" },
    }
}

/// What a request was after when the storage answered with an error.
#[derive(Clone, Copy, Debug, PartialEq, Eq, Structural)]
pub enum Purpose {
    FindResource,
    FindRitual,
    FindExecution,
    StoreEvent,
    StoreResource,
    StartExecution,
    ReadApprovals,
    UpdateStep,
    FinishExecution,
    CheckDatabase,
    Other,
}

pub open spec fn fault_for(purpose: Purpose, error: StorageError) -> Rejection {
    match (purpose, error) {
        (Purpose::FindResource, StorageError::NotFound) => Rejection {
            code: "resource_not_found",
            message: "resource was not found",
        },
        (Purpose::FindRitual, StorageError::NotFound) => Rejection {
            code: "ritual_not_found",
            message: "ritual was not found",
        },
        (Purpose::FindExecution, StorageError::NotFound) => Rejection {
            code: "execution_not_found",
            message: "execution was not found",
        },
        (Purpose::StoreEvent, StorageError::DuplicateEvent) => Rejection {
            code: "duplicate_event",
            message: "adapter_instance_id and sequence_no have already been stored",
        },
        (Purpose::StoreResource, StorageError::DuplicateResource) => Rejection {
            code: "duplicate_resource",
            message: "a resource with the same canonical path already exists",
        },
        (Purpose::StartExecution, StorageError::RitualAlreadyRunning) => Rejection {
            code: "ritual_already_running",
            message: "the ritual already has a running execution",
        },
        (Purpose::ReadApprovals, _) => Rejection {
            code: "internal_error",
            message: "approval lookup failed",
        },
        (Purpose::UpdateStep, _) => Rejection {
            code: "internal_error",
            message: "execution step could not be updated",
        },
        (Purpose::FinishExecution, _) => Rejection {
            code: "internal_error",
            message: "execution could not be finalized",
        },
        (Purpose::CheckDatabase, _) => Rejection {
            code: "storage_error",
            message: "database check failed",
        },
        _ => storage_fault(error),
    }
}

/// What a client is told of a storage error that its request met.
pub fn rejection_for(purpose: Purpose, error: &StorageError) -> (r: Rejection)
    ensures
        r == fault_for(purpose, *error),
{
    match (purpose, error) {
        (Purpose::FindResource, StorageError::NotFound) => Rejection {
            code: "resource_not_found",
            message: "resource was not found",
        },
        (Purpose::FindRitual, StorageError::NotFound) => Rejection {
            code: "ritual_not_found",
            message: "ritual was not found",
        },
        (Purpose::FindExecution, StorageError::NotFound) => Rejection {
            code: "execution_not_found",
            message: "execution was not found",
        },
        (Purpose::StoreEvent, StorageError::DuplicateEvent) => Rejection {
            code: "duplicate_event",
            message: "adapter_instance_id and sequence_no have already been stored",
        },
        (Purpose::StoreResource, StorageError::DuplicateResource) => Rejection {
            code: "duplicate_resource",
            message: "a resource with the same canonical path already exists",
        },
        (Purpose::StartExecution, StorageError::RitualAlreadyRunning) => Rejection {
            code: "ritual_already_running",
            message: "the ritual already has a running execution",
        },
        (Purpose::ReadApprovals, _) => Rejection {
            code: "internal_error",
            message: "approval lookup failed",
        },
        (Purpose::UpdateStep, _) => Rejection {
            code: "internal_error",
            message: "execution step could not be updated",
        },
        (Purpose::FinishExecution, _) => Rejection {
            code: "internal_error",
            message: "execution could not be finalized",
        },
        (Purpose::CheckDatabase, _) => Rejection {
            code: "storage_error",
            message: "database check failed",
        },
        _ => storage_error(error),
    }
}

} // verus!
