//! Bringing an older database up to the current schema.

use vstd::prelude::*;
use crate::json;
use crate::storage::{StorageError, SCHEMA_VERSION};
use crate::text;

verus! {

/// The schema versions that a database of version `current` still has to go through.
pub open spec fn steps_from(current: u32) -> Seq<u32> {
    Seq::new((SCHEMA_VERSION - current) as nat, |i: int| (current + 1 + i) as u32)
}

/// The migrations to run, one after the other, on a database of the given version. A
/// database that is newer than this library is refused.
pub fn pending_migrations(current: u32) -> (r: Result<Vec<u32>, StorageError>)
    ensures
        match r {
            Ok(steps) => current <= SCHEMA_VERSION && steps@ == steps_from(current),
            Err(error) => current > SCHEMA_VERSION && error == StorageError::UnsupportedSchema(
                current,
            ),
        },
{
    if current > SCHEMA_VERSION {
        return Err(StorageError::UnsupportedSchema(current));
    }
    let mut steps: Vec<u32> = Vec::new();
    let mut version: u32 = current;
    while version < SCHEMA_VERSION
        invariant
            current <= version <= SCHEMA_VERSION,
            steps@ == steps_from(current).take(version - current),
        decreases SCHEMA_VERSION - version,
    {
        version = version + 1;
        steps.push(version);
        proof {
            assert(steps@ =~= steps_from(current).take(version - current));
        }
    }
    proof {
        assert(steps_from(current).take(SCHEMA_VERSION - current) =~= steps_from(current));
    }
    Ok(steps)
}

/// Running the pending migrations ends at the current schema, one version at a time.
pub proof fn migrations_reach_current_schema(current: u32)
    requires
        current <= SCHEMA_VERSION,
    ensures
        steps_from(current).len() == SCHEMA_VERSION - current,
        current < SCHEMA_VERSION ==> steps_from(current).first() == current + 1
            && steps_from(current).last() == SCHEMA_VERSION,
        forall|i: int|
            0 < i < steps_from(current).len() ==> #[trigger] steps_from(current)[i]
                == steps_from(current)[i - 1] + 1,
        current == SCHEMA_VERSION ==> steps_from(current).len() == 0,
{
}

/// Synthetic data from before payloads carried their kind.
pub open spec fn is_untagged_synthetic(members: Seq<(Seq<char>, Seq<char>)>) -> bool {
    &&& !json::has_member(members, "kind"@)
    &&& json::has_member(members, "label"@)
    &&& json::has_member(members, "counter"@)
}

/// Synthetic data that carries its kind.
pub open spec fn is_tagged(members: Seq<(Seq<char>, Seq<char>)>) -> bool {
    &&& json::has_member(members, "kind"@)
    &&& json::has_member(members, "label"@)
    &&& json::has_member(members, "counter"@)
}

fn holds_member(members: &Vec<(String, String)>, key: &str) -> (r: bool)
    ensures
        r == json::has_member(json::pairs_view(members@), key@),
{
    for i in 0..members.len()
        invariant
            forall|j: int|
                0 <= j < i ==> (#[trigger] json::pairs_view(members@)[j]).0 != key@,
    {
        assert(json::pairs_view(members@)[i as int].0 == members@[i as int].0@);
        if text::same(members[i].0.as_str(), key) {
            return true;
        }
    }
    false
}

/// Whether a payload with these members has to be given its kind.
pub fn untagged_synthetic(members: &Vec<(String, String)>) -> (r: bool)
    ensures
        r == is_untagged_synthetic(json::pairs_view(members@)),
{
    !holds_member(members, "kind") && holds_member(members, "label") && holds_member(
        members,
        "counter",
    )
}

/// The data object inside the canonical JSON of an event, where there is one.
pub open spec fn canonical_data(canonical_json: Seq<char>) -> Option<Seq<char>> {
    match json::members_of(canonical_json) {
        Some(Some(members)) => json::member_value(members, "data"@, 0),
        _ => None,
    }
}

/// Whether a stored synthetic event is in the old form, in its data and in its
/// canonical JSON alike.
pub open spec fn is_legacy(data_json: Seq<char>, canonical_json: Seq<char>) -> bool {
    &&& json::members_of(data_json) matches Some(Some(members)) && is_untagged_synthetic(members)
    &&& canonical_data(canonical_json) matches Some(inner) && json::members_of(inner) matches Some(
        Some(members),
    ) && is_untagged_synthetic(members)
}

/// The JSON string that stands for the kind of a synthetic payload.
pub open spec fn synthetic_kind() -> Seq<char> {
    json::quoted("synthetic"@)
}

/// The two texts that replace those of an old event: the data with its kind, and the
/// canonical JSON with the same data inside.
pub open spec fn normalized(data_json: Seq<char>, canonical_json: Seq<char>) -> Option<
    (Seq<char>, Seq<char>),
> {
    let inner = canonical_data(canonical_json)->0;
    match (
        json::with_member(data_json, "kind"@, synthetic_kind()),
        json::with_member(inner, "kind"@, synthetic_kind()),
    ) {
        (Some(data), Some(tagged)) => match json::with_member(canonical_json, "data"@, tagged) {
            Some(canonical) => Some((data, canonical)),
            None => None,
        },
        _ => None,
    }
}

/// Gives an old synthetic event the kind that payloads carry now, and keeps the texts that it
/// says besides. An event in any other form is left as it is, and so is one that was given
/// its kind: doing it again changes nothing.
pub fn normalize_legacy_payload(data_json: &str, canonical_json: &str) -> (r: Result<
    Option<(String, String)>,
    StorageError,
>)
    ensures
        if json::members_of(data_json@) is None || json::members_of(canonical_json@) is None {
            r == Err::<Option<(String, String)>, StorageError>(StorageError::Json)
        } else if !is_legacy(data_json@, canonical_json@) {
            r is Ok && r->Ok_0 is None
        } else {
            &&& r is Ok && r->Ok_0 is Some
            &&& normalized(data_json@, canonical_json@) == Some(
                ((r->Ok_0->0).0@, (r->Ok_0->0).1@),
            )
            &&& json::members_of((r->Ok_0->0).0@) matches Some(Some(members)) && is_tagged(members)
            &&& !is_legacy((r->Ok_0->0).0@, (r->Ok_0->0).1@)
            &&& json::keeps_strings(
                json::members_of(data_json@)->0->0,
                json::members_of((r->Ok_0->0).0@)->0->0,
                "kind"@,
            )
            &&& json::members_of((r->Ok_0->0).1@) matches Some(Some(members))
                ==> json::keeps_strings(
                json::members_of(canonical_json@)->0->0,
                members,
                "data"@,
            )
        },
{
    let data = match json::members(data_json) {
        Ok(value) => value,
        Err(_) => return Err(StorageError::Json),
    };
    let canonical = match json::members(canonical_json) {
        Ok(value) => value,
        Err(_) => return Err(StorageError::Json),
    };
    match &data {
        Some(members) => if !untagged_synthetic(members) {
            return Ok(None);
        },
        None => return Ok(None),
    }
    let inner = match &canonical {
        Some(members) => match json::find_member(members, "data") {
            Some(value) => value,
            None => return Ok(None),
        },
        None => return Ok(None),
    };
    match json::members(inner.as_str()) {
        Ok(Some(members)) => if !untagged_synthetic(&members) {
            return Ok(None);
        },
        Ok(None) => return Ok(None),
        Err(_) => return Err(StorageError::Json),
    }
    let kind = match json::quote("synthetic") {
        Ok(value) => value,
        Err(_) => return Err(StorageError::Json),
    };
    let tagged_data = match json::set_member(data_json, "kind", kind.as_str()) {
        Ok(value) => value,
        Err(_) => return Err(StorageError::Json),
    };
    let tagged_inner = match json::set_member(inner.as_str(), "kind", kind.as_str()) {
        Ok(value) => value,
        Err(_) => return Err(StorageError::Json),
    };
    match json::set_member(canonical_json, "data", tagged_inner.as_str()) {
        Ok(value) => Ok(Some((tagged_data, value))),
        Err(_) => Err(StorageError::Json),
    }
}

} // verus!
