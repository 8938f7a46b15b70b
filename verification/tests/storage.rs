//! Rows, names, migrations and what the storage decides.

use fubun::clock::Timestamp;
use fubun::event::{
    Actor, AdapterIdentity, ContextReference, Event, EventData, EventType, PrivacyClass,
    EVENT_SPEC_VERSION,
};
use fubun::execution::{
    Execution, ExecutionStatus, ExecutionStep, ExecutionStepStatus, TriggerKind,
};
use fubun::ids::Uuid;
use fubun::mining::{DiscoveryRunStatus, SuggestionStatus};
use fubun::resource::{
    ObservationScope, ObservationSource, ObservationStatus, Resource, ResourceKind, ResourceScope,
    Sensitivity,
};
use fubun::ritual::{Approval, Ritual, RitualStatus, RitualVersion};
use fubun::storage::events::{context_json, data_json, event_row, last_sequence};
use fubun::storage::migration::{normalize_legacy_payload, pending_migrations};
use fubun::storage::names::{
    parse_execution_step_status, parse_resource_kind, parse_suggestion_status, resource_kind_name,
    suggestion_status_name,
};
use fubun::storage::operations::{
    abort_discovery_run, abort_on_restart, accept_suggestion, complete_discovery_run,
    conflict_error, counts, discovery_input_size, discovery_scan_limit, discovery_window_start,
    ensure_observation_scope, event_list_limit, fail_discovery_run, is_cut_off, new_discovery_run,
    pause_observation_scope, require_changed, set_suggestion_status, snooze_is_over,
    start_discovery_run, suggestion_cutoff, valid_suggestion_transition, AcceptOutcome, Admission,
    ReferencedResource, ScopeWrite, SuggestionState, SuggestionWrite, UniqueRecord,
};
use fubun::storage::rows::{
    approval_from_row, approval_row, discovery_run_from_row, discovery_run_row,
    execution_from_row, execution_row, execution_step_from_row, execution_step_row, format_ts,
    observation_scope_from_row, observation_scope_row, parse_ts, parse_uuid, resource_from_row,
    resource_row, ritual_from_row, ritual_row, ritual_version_from_row, ritual_version_row,
};
use fubun::storage::schema::{schema_changes, SchemaChange, JOURNAL};
use fubun::storage::{
    StorageError, DISCOVERY_EVENT_SCAN_LIMIT, PUBLIC_EVENT_LIST_LIMIT, SCHEMA_VERSION,
};
use rusqlite::Connection;

fn id(value: u128) -> Uuid {
    Uuid::from_u128(value)
}

fn now() -> Timestamp {
    Timestamp::parse("2026-08-03T00:00:00Z").expect("time")
}

fn later() -> Timestamp {
    now().plus_seconds(60).expect("time")
}

fn event() -> Event {
    Event {
        spec_version: EVENT_SPEC_VERSION.to_owned(),
        id: id(1),
        event_type: EventType::SyntheticV1,
        source: "dev.\"fixture\"".to_owned(),
        occurred_at: now(),
        received_at: later(),
        actor: Actor::User,
        adapter: AdapterIdentity {
            id: "dev.test".to_owned(),
            version: "0.1.0".to_owned(),
            instance_id: id(2),
            sequence_no: 7,
        },
        context: Some(ContextReference {
            project: Some("p".to_owned()),
            session: None,
        }),
        privacy: PrivacyClass::Normal,
        data: EventData::Synthetic { label: "a\nb".to_owned(), counter: -3 },
    }
}

#[test]
fn events_are_stored_as_columns_and_as_json() {
    let row = event_row(&event()).expect("row");
    assert_eq!(row.id, "00000000-0000-0000-0000-000000000001");
    assert_eq!(row.event_type, "dev.fubun.dev.synthetic.v1");
    assert_eq!(row.received_at, "2026-08-03T00:01:00Z");
    assert_eq!(row.sequence_no, 7);
    let value: serde_json::Value = serde_json::from_str(&row.canonical_json).expect("JSON");
    assert_eq!(value["source"], "dev.\"fixture\"");
    assert_eq!(value["data"]["kind"], "synthetic");
    assert_eq!(value["data"]["label"], "a\nb");
    assert_eq!(value["data"]["counter"], -3);
    assert_eq!(value["adapter"]["sequence_no"], 7);
    assert_eq!(value["context"]["project"], "p");
    let data: serde_json::Value = serde_json::from_str(&row.data_json).expect("JSON");
    assert_eq!(data, value["data"]);
    assert_eq!(row.data_json, data_json(&event().data));
    let context: serde_json::Value =
        serde_json::from_str(&row.context_json.expect("context")).expect("JSON");
    assert_eq!(context, value["context"]);
    assert!(context_json(&ContextReference { project: None, session: None }).starts_with('{'));
    assert_eq!(last_sequence(Some(9), 7), 9);
    assert_eq!(last_sequence(Some(6), 7), 7);
    assert_eq!(last_sequence(None, 7), 7);
    let mut late = event();
    late.adapter.sequence_no = u64::MAX;
    assert!(event_row(&late).is_err());
    let mut timeless = event();
    timeless.occurred_at.unix_seconds = i64::MAX;
    assert_eq!(event_row(&timeless).map(|row| row.id), Err(StorageError::Time));
}

/// A database in memory, which lasts as long as one connection to it is open.
fn open(name: &str) -> Connection {
    let connection = Connection::open(format!("file:{name}?mode=memory&cache=shared"))
        .expect("database");
    connection.pragma_update(None, "foreign_keys", true).expect("foreign keys");
    connection
}

fn schema_version(connection: &Connection) -> u32 {
    connection
        .query_row("SELECT MAX(version) FROM schema_migrations", [], |row| {
            row.get::<_, Option<u32>>(0)
        })
        .expect("schema version")
        .unwrap_or(0)
}

/// Runs the pending migrations.
fn migrate(connection: &mut Connection) {
    connection.execute_batch(JOURNAL).expect("journal");
    for version in pending_migrations(schema_version(connection)).expect("known schema") {
        let transaction = connection.transaction().expect("transaction");
        for change in schema_changes(version) {
            if let Some(statement) = change.statement() {
                transaction.execute_batch(&statement).expect("change");
                continue;
            }
            let known: i64 = transaction
                .query_row(
                    "SELECT COUNT(*) FROM sqlite_master WHERE type = 'table' AND name = 'events'",
                    [],
                    |row| row.get(0),
                )
                .expect("tables");
            if known == 0 {
                continue;
            }
            let stored: Vec<(String, String, String)> = transaction
                .prepare(
                    "SELECT id, data_json, canonical_json FROM events
                     WHERE event_type = 'dev.fubun.dev.synthetic.v1'",
                )
                .expect("statement")
                .query_map([], |row| Ok((row.get(0)?, row.get(1)?, row.get(2)?)))
                .expect("events")
                .collect::<Result<_, _>>()
                .expect("events");
            for (id, data, canonical) in stored {
                if let Some((data, canonical)) =
                    normalize_legacy_payload(&data, &canonical).expect("payload")
                {
                    transaction
                        .execute(
                            "UPDATE events SET data_json = ?1, canonical_json = ?2 WHERE id = ?3",
                            (data, canonical, id),
                        )
                        .expect("update");
                }
            }
        }
        transaction
            .execute(
                "INSERT INTO schema_migrations(version, applied_at) VALUES (?1, ?2)",
                (version, format_ts(now()).expect("time")),
            )
            .expect("journal");
        transaction.commit().expect("commit");
    }
}

fn insert_event(connection: &Connection, event: &Event) -> Result<(), StorageError> {
    let row = event_row(event)?;
    connection
        .execute(
            "INSERT OR IGNORE INTO adapters(
                instance_id, adapter_id, adapter_version, last_sequence_no, created_at, updated_at
            ) VALUES (?1, ?2, ?3, ?4, ?5, ?5)",
            (
                &row.adapter_instance_id,
                &row.adapter_id,
                &row.adapter_version,
                row.sequence_no,
                &row.received_at,
            ),
        )
        .expect("adapter");
    let result = connection.execute(
        "INSERT INTO events(
            id, spec_version, event_type, source, occurred_at, received_at, actor,
            adapter_id, adapter_version, adapter_instance_id, sequence_no,
            context_json, privacy, data_json, canonical_json
        ) VALUES (?1, ?2, ?3, ?4, ?5, ?6, ?7, ?8, ?9, ?10, ?11, ?12, ?13, ?14, ?15)",
        (
            row.id,
            row.spec_version,
            row.event_type,
            row.source,
            row.occurred_at,
            row.received_at,
            row.actor,
            row.adapter_id,
            row.adapter_version,
            row.adapter_instance_id,
            row.sequence_no,
            row.context_json,
            row.privacy,
            row.data_json,
            row.canonical_json,
        ),
    );
    match result {
        Ok(_) => Ok(()),
        Err(error)
            if error.sqlite_error_code() == Some(rusqlite::ErrorCode::ConstraintViolation) =>
        {
            Err(conflict_error(UniqueRecord::Event))
        }
        Err(error) => Err(StorageError::Sqlite(error.to_string())),
    }
}

#[test]
fn persists_across_restart_and_rejects_duplicate() {
    let kept = open("restart");
    let mut first = open("restart");
    migrate(&mut first);
    assert_eq!(insert_event(&first, &event()), Ok(()));
    let mut duplicate = event();
    duplicate.id = id(9);
    assert_eq!(insert_event(&first, &duplicate), Err(StorageError::DuplicateEvent));
    drop(first);

    let mut reopened = open("restart");
    migrate(&mut reopened);
    let stored: Vec<(String, String, i64, String)> = reopened
        .prepare("SELECT id, received_at, sequence_no, canonical_json FROM events")
        .expect("statement")
        .query_map([], |row| Ok((row.get(0)?, row.get(1)?, row.get(2)?, row.get(3)?)))
        .expect("events")
        .collect::<Result<_, _>>()
        .expect("events");
    let row = event_row(&event()).expect("row");
    assert_eq!(stored, vec![(row.id, row.received_at, row.sequence_no, row.canonical_json)]);
    drop(kept);

    assert_eq!(conflict_error(UniqueRecord::Resource), StorageError::DuplicateResource);
    assert_eq!(
        conflict_error(UniqueRecord::ExecutionLock),
        StorageError::RitualAlreadyRunning
    );
    assert_eq!(require_changed(1), Ok(()));
    assert_eq!(require_changed(0), Err(StorageError::NotFound));
}

#[test]
fn public_event_list_is_bounded_and_discovery_scan_is_private_and_large() {
    assert_eq!(event_list_limit(DISCOVERY_EVENT_SCAN_LIMIT), PUBLIC_EVENT_LIST_LIMIT);
    assert_eq!(discovery_scan_limit(DISCOVERY_EVENT_SCAN_LIMIT), DISCOVERY_EVENT_SCAN_LIMIT);
    assert_eq!(
        discovery_scan_limit(DISCOVERY_EVENT_SCAN_LIMIT - 1),
        DISCOVERY_EVENT_SCAN_LIMIT - 1
    );
    assert_eq!(event_list_limit(3), 3);
    assert_eq!(discovery_input_size(100_000), Ok(100_000));
    assert_eq!(discovery_input_size(100_001), Err(StorageError::DiscoveryInputTooLarge));
    assert_eq!(
        discovery_window_start(now()).unix_seconds,
        now().unix_seconds - 30 * 86_400
    );
    assert_eq!(suggestion_cutoff(now()).unix_seconds, now().unix_seconds - 86_400);
}

/// A database of the first schema version.
fn phase_one(name: &str) -> Connection {
    let connection = open(name);
    connection
        .execute_batch(
            "CREATE TABLE schema_migrations(version INTEGER PRIMARY KEY, applied_at TEXT NOT NULL);
             INSERT INTO schema_migrations(version, applied_at) VALUES (1, '2026-08-03T00:00:00Z');
             CREATE TABLE adapters(instance_id TEXT PRIMARY KEY, adapter_id TEXT NOT NULL, adapter_version TEXT NOT NULL, last_sequence_no INTEGER NOT NULL, created_at TEXT NOT NULL, updated_at TEXT NOT NULL);
             CREATE TABLE settings(key TEXT PRIMARY KEY, value_json TEXT NOT NULL, updated_at TEXT NOT NULL);
             CREATE TABLE events(id TEXT PRIMARY KEY, spec_version TEXT NOT NULL, event_type TEXT NOT NULL, source TEXT NOT NULL, occurred_at TEXT NOT NULL, received_at TEXT NOT NULL, actor TEXT NOT NULL, adapter_id TEXT NOT NULL, adapter_version TEXT NOT NULL, adapter_instance_id TEXT NOT NULL, sequence_no INTEGER NOT NULL, context_json TEXT, privacy TEXT NOT NULL, data_json TEXT NOT NULL, canonical_json TEXT NOT NULL, UNIQUE(adapter_instance_id, sequence_no));",
        )
        .expect("phase one schema");
    connection
}

#[test]
fn migrates_phase_one_database_to_current_schema() {
    let mut connection = phase_one("phase_one");
    connection
        .execute("INSERT INTO settings(key, value_json, updated_at) VALUES ('k', '1', 't')", [])
        .expect("setting");
    migrate(&mut connection);
    assert_eq!(schema_version(&connection), SCHEMA_VERSION);
    migrate(&mut connection);
    assert_eq!(schema_version(&connection), SCHEMA_VERSION);
    let kept: String = connection
        .query_row("SELECT value_json FROM settings WHERE key = 'k'", [], |row| row.get(0))
        .expect("kept row");
    assert_eq!(kept, "1");

    assert_eq!(pending_migrations(1), Ok(vec![2, 3, 4, 5]));
    assert_eq!(pending_migrations(0), Ok(vec![1, 2, 3, 4, 5]));
    assert_eq!(pending_migrations(SCHEMA_VERSION), Ok(Vec::new()));
    assert_eq!(
        pending_migrations(SCHEMA_VERSION + 1),
        Err(StorageError::UnsupportedSchema(SCHEMA_VERSION + 1))
    );
    assert!(schema_changes(4).contains(&SchemaChange::TagPayloads));
    assert!(schema_changes(SCHEMA_VERSION + 1).is_empty());
}

#[test]
fn migrates_phase_two_execution_steps_with_adapter_instance_identity() {
    let mut connection = open("phase_two");
    connection
        .execute_batch(
            "CREATE TABLE schema_migrations(version INTEGER PRIMARY KEY, applied_at TEXT NOT NULL);
             INSERT INTO schema_migrations(version, applied_at) VALUES (2, '2026-08-04T00:00:00Z');
             CREATE TABLE execution_steps(
                id TEXT PRIMARY KEY,
                execution_id TEXT NOT NULL,
                step_index INTEGER NOT NULL,
                action_type TEXT NOT NULL,
                status TEXT NOT NULL,
                adapter_id TEXT,
                started_at TEXT NOT NULL,
                finished_at TEXT,
                result_code TEXT,
                redacted_message TEXT
             );",
        )
        .expect("phase two schema");
    migrate(&mut connection);
    assert_eq!(schema_version(&connection), SCHEMA_VERSION);
    let columns: Vec<String> = connection
        .prepare("PRAGMA table_info(execution_steps)")
        .expect("table info")
        .query_map([], |row| row.get(1))
        .expect("columns")
        .collect::<Result<_, _>>()
        .expect("column names");
    assert!(columns.iter().any(|column| column == "adapter_instance_id"));
}

#[test]
fn v4_migration_normalizes_legacy_synthetic_event_data() {
    let mut connection = phase_one("legacy");
    let (event_id, instance_id) = (id(40).to_text(), id(41).to_text());
    let timestamp = "2026-08-03T00:00:00Z";
    let legacy_data = r#"{"label":"legacy","counter":1}"#;
    let legacy_event = format!(
        r#"{{"spec_version":"1.0","id":"{event_id}","type":"dev.fubun.dev.synthetic.v1","source":"legacy","occurred_at":"{timestamp}","received_at":"{timestamp}","actor":"user","adapter":{{"id":"dev.test","version":"0.1.0","instance_id":"{instance_id}","sequence_no":1}},"context":null,"privacy":"normal","data":{legacy_data}}}"#
    );
    connection
        .execute(
            "INSERT INTO adapters(instance_id, adapter_id, adapter_version, last_sequence_no, created_at, updated_at) VALUES (?1, 'dev.test', '0.1.0', 1, ?2, ?2)",
            (&instance_id, timestamp),
        )
        .expect("adapter");
    connection
        .execute(
            "INSERT INTO events(id, spec_version, event_type, source, occurred_at, received_at, actor, adapter_id, adapter_version, adapter_instance_id, sequence_no, context_json, privacy, data_json, canonical_json) VALUES (?1, '1.0', 'dev.fubun.dev.synthetic.v1', 'legacy', ?2, ?2, 'user', 'dev.test', '0.1.0', ?3, 1, NULL, 'normal', ?4, ?5)",
            (&event_id, timestamp, &instance_id, legacy_data, &legacy_event),
        )
        .expect("legacy event");
    migrate(&mut connection);
    let (data, canonical): (String, String) = connection
        .query_row("SELECT data_json, canonical_json FROM events", [], |row| {
            Ok((row.get(0)?, row.get(1)?))
        })
        .expect("legacy events remain readable");
    assert_eq!(
        normalize_legacy_payload(legacy_data, &legacy_event),
        Ok(Some((data.clone(), canonical.clone())))
    );
    assert_eq!(normalize_legacy_payload(&data, &canonical), Ok(None));
    let data: serde_json::Value = serde_json::from_str(&data).expect("JSON");
    assert_eq!(data["kind"], "synthetic");
    assert_eq!(data["label"], "legacy");
    assert_eq!(data["counter"], 1);
    let canonical: serde_json::Value = serde_json::from_str(&canonical).expect("JSON");
    assert_eq!(canonical["data"], data);
    assert_eq!(canonical["source"], "legacy");

    let row = event_row(&event()).expect("row");
    assert_eq!(normalize_legacy_payload(&row.data_json, &row.canonical_json), Ok(None));
    assert_eq!(normalize_legacy_payload("{", "{}"), Err(StorageError::Json));
}

#[test]
fn raw_anchor_event_can_be_deleted_while_derived_evidence_remains() {
    let mut connection = open("evidence");
    migrate(&mut connection);
    let workspace = resource_row(&Resource {
        id: id(50),
        kind: ResourceKind::Directory,
        label: "workspace evidence".to_owned(),
        locator: "/tmp/fubun-workspace-evidence".to_owned(),
        canonical_locator: "/tmp/fubun-workspace-evidence".to_owned(),
        sensitivity: Sensitivity::Normal,
        scope: ResourceScope::Exact,
        created_at: now(),
        updated_at: now(),
    })
    .expect("row");
    connection
        .execute(
            "INSERT INTO resources(
                id, kind, label, locator, canonical_locator, sensitivity, scope, created_at,
                updated_at
            ) VALUES (?1, ?2, ?3, ?4, ?5, ?6, ?7, ?8, ?9)",
            (
                &workspace.id,
                workspace.kind,
                workspace.label,
                workspace.locator,
                workspace.canonical_locator,
                workspace.sensitivity,
                workspace.scope,
                workspace.created_at,
                workspace.updated_at,
            ),
        )
        .expect("workspace");
    insert_event(&connection, &event()).expect("anchor event");
    let (session_id, suggestion_id) = (id(51).to_text(), id(52).to_text());
    let anchor_id = event().id.to_text();
    let ts = format_ts(now()).expect("timestamp");
    connection
        .execute(
            "INSERT INTO sessions(id, algorithm_version, kind, workspace_resource_id, anchor_event_id,
                started_at, finished_at, event_count, eligible)
             VALUES (?1, 'workspace-browser-start/v1', 'workspace_start', ?2, ?3, ?4, ?4, 1, 1)",
            (&session_id, &workspace.id, &anchor_id, &ts),
        )
        .expect("derived session");
    connection
        .execute(
            "INSERT INTO suggestions(id, algorithm_version, workspace_resource_id, pattern_fingerprint,
                support_sessions, eligible_sessions, confidence_basis_points, first_seen_at, last_seen_at,
                observation_span_seconds, median_completion_ms, created_at, updated_at, status,
                snoozed_until, accepted_ritual_id)
             VALUES (?1, 'workspace-browser-start/v1', ?2, 'retention-fingerprint', 1, 1, 10000,
                ?3, ?3, 1, 1, ?3, ?3, 'pending', NULL, NULL)",
            (&suggestion_id, &workspace.id, &ts),
        )
        .expect("suggestion evidence");
    connection
        .execute(
            "INSERT INTO suggestion_support_sessions(suggestion_id, session_id) VALUES (?1, ?2)",
            (&suggestion_id, &session_id),
        )
        .expect("supporting session");
    connection
        .execute("DELETE FROM events WHERE id = ?1", [&anchor_id])
        .expect("raw event retention delete");
    let session_count: i64 = connection
        .query_row("SELECT COUNT(*) FROM sessions WHERE id = ?1", [&session_id], |row| row.get(0))
        .expect("session summary");
    let suggestion_count: i64 = connection
        .query_row("SELECT COUNT(*) FROM suggestions WHERE id = ?1", [&suggestion_id], |row| {
            row.get(0)
        })
        .expect("suggestion evidence");
    assert_eq!(session_count, 1);
    assert_eq!(suggestion_count, 1);
}

#[test]
fn stored_events_keep_what_they_said() {
    let context = |project: Option<&str>, session: Option<&str>| {
        let mut changed = event();
        changed.context = Some(ContextReference {
            project: project.map(str::to_owned),
            session: session.map(str::to_owned),
        });
        event_row(&changed).expect("row").context_json.expect("context")
    };
    assert_eq!(context(None, None), "{}");
    assert_eq!(context(Some("a"), None), r#"{"project":"a"}"#);
    assert_eq!(context(None, Some("a")), r#"{"session":"a"}"#);
    assert_eq!(context(Some("a"), Some("b")), r#"{"project":"a","session":"b"}"#);
    assert_ne!(context(Some("a\",\"session\":\"b"), None), context(Some("a"), Some("b")));
    let data = |label: &str, counter: i64| {
        let mut changed = event();
        changed.data = EventData::Synthetic { label: label.to_owned(), counter };
        event_row(&changed).expect("row").data_json
    };
    assert_eq!(data("a", -7), r#"{"kind":"synthetic","label":"a","counter":-7}"#);
    assert_ne!(data("a", 7), data("a", -7));
    assert_ne!(data("a", 7), data("a\",\"counter\":7}", 7));
}

#[test]
fn records_read_back_what_was_written() {
    let resource = Resource {
        id: id(3),
        kind: ResourceKind::WebPage,
        label: "page".to_owned(),
        locator: "https://example.com/".to_owned(),
        canonical_locator: "https://example.com/".to_owned(),
        sensitivity: Sensitivity::Sensitive,
        scope: ResourceScope::Exact,
        created_at: now(),
        updated_at: now(),
    };
    assert_eq!(resource_from_row(resource_row(&resource).expect("row")), Ok(resource));
    let ritual = Ritual {
        id: id(4),
        name: "start".to_owned(),
        status: RitualStatus::Archived,
        current_version_id: id(5),
        created_at: now(),
        updated_at: later(),
    };
    assert_eq!(ritual_from_row(ritual_row(&ritual).expect("row")), Ok(ritual));
    let version = RitualVersion {
        id: id(5),
        ritual_id: id(4),
        version: 2,
        schema_version: "dev.fubun.ritual/1".to_owned(),
        canonical_json: "{}".to_owned(),
        content_hash: "00".to_owned(),
        created_at: now(),
    };
    assert_eq!(
        ritual_version_from_row(ritual_version_row(&version).expect("row")),
        Ok(version)
    );
    let approval = Approval {
        id: id(6),
        ritual_version_id: id(5),
        action_type: "linux.path.open.v1".to_owned(),
        capability: "linux.path.open.v1".to_owned(),
        resource_id: Some(id(3)),
        app_id: None,
        content_hash: "00".to_owned(),
        approved_at: now(),
    };
    assert_eq!(approval_from_row(approval_row(&approval).expect("row")), Ok(approval));
    let (execution, steps) = history();
    assert_eq!(
        execution_from_row(execution_row(&execution).expect("row")),
        Ok(execution)
    );
    for step in steps {
        assert_eq!(
            execution_step_from_row(execution_step_row(&step).expect("row")),
            Ok(step)
        );
    }
    let scope = scope();
    assert_eq!(
        observation_scope_from_row(observation_scope_row(&scope).expect("row")),
        Ok(scope)
    );
    let run = new_discovery_run(id(9), 12, now());
    assert_eq!(
        discovery_run_from_row(discovery_run_row(&run).expect("row")),
        Ok(run)
    );
}

#[test]
fn columns_that_cannot_be_read_are_named() {
    assert_eq!(parse_uuid("x"), Err(StorageError::InvalidData("invalid UUID")));
    assert_eq!(parse_ts("x"), Err(StorageError::TimeParse));
    assert_eq!(format_ts(now()), Ok("2026-08-03T00:00:00Z".to_owned()));
    assert!(parse_resource_kind("link").is_err());
    assert_eq!(
        parse_resource_kind(resource_kind_name(ResourceKind::Directory)),
        Ok(ResourceKind::Directory)
    );
    assert_eq!(
        parse_suggestion_status(suggestion_status_name(SuggestionStatus::Blocked)),
        Ok(SuggestionStatus::Blocked)
    );
    assert_eq!(parse_execution_step_status("aborted"), Ok(ExecutionStepStatus::Aborted));
    assert_eq!(
        StorageError::InvalidData("invalid UUID").message(),
        "stored data is invalid: invalid UUID"
    );
}

fn scope() -> ObservationScope {
    ObservationScope {
        id: id(8),
        source: ObservationSource::BrowserChromium,
        resource_id: id(3),
        status: ObservationStatus::Active,
        created_at: now(),
        updated_at: now(),
    }
}

#[test]
fn pausing_an_observation_scope_is_idempotent() {
    let active = match ensure_observation_scope(None, scope()) {
        ScopeWrite::Insert(scope) => scope,
        ScopeWrite::Update(_) => panic!("the scope is new"),
    };
    assert_eq!(active.status, ObservationStatus::Active);
    let (paused, changed) = pause_observation_scope(Some(active), later()).expect("pause");
    assert_eq!(paused.status, ObservationStatus::Paused);
    assert!(changed);
    let (paused_again, changed) =
        pause_observation_scope(Some(paused), later().plus_seconds(9).expect("time"))
            .expect("pause again");
    assert_eq!(paused_again, paused);
    assert!(!changed);
    assert!(matches!(
        pause_observation_scope(None, later()),
        Err(StorageError::NotFound)
    ));
    let again = match ensure_observation_scope(Some(paused), ObservationScope { id: id(99), ..scope() })
    {
        ScopeWrite::Update(scope) => scope,
        ScopeWrite::Insert(_) => panic!("the scope is known"),
    };
    assert_eq!(again.id, id(8));
    assert_eq!(again.status, ObservationStatus::Active);
}

#[test]
fn failed_discovery_run_is_terminal_and_releases_single_flight() {
    assert_eq!(start_discovery_run(0), Ok(()));
    assert_eq!(start_discovery_run(1), Err(StorageError::DiscoveryAlreadyRunning));
    let run = new_discovery_run(id(9), 3, now());
    let stored = fail_discovery_run(run.clone(), "resource_load_failed".to_owned(), later());
    assert_eq!(stored.status, DiscoveryRunStatus::Failed);
    assert_eq!(stored.failure_code.as_deref(), Some("resource_load_failed"));
    assert_eq!(stored.finished_at, Some(later()));
    assert_eq!(abort_discovery_run(stored.clone(), now()), stored);
    let aborted = abort_discovery_run(run.clone(), later());
    assert_eq!(aborted.failure_code.as_deref(), Some("daemon_restarted"));
    let done = complete_discovery_run(run, 4, 1, later());
    assert_eq!(done.status, DiscoveryRunStatus::Succeeded);
    assert_eq!((done.sessions_upserted, done.suggestions_created), (4, 1));
}

#[test]
fn suggestion_cap_counts_pending_only() {
    let old = "2026-08-01T00:00:00Z";
    let future = "2026-08-10T00:00:00Z";
    let mut states = Vec::new();
    for index in 0..14 {
        states.push(SuggestionState {
            status: if index < 4 { SuggestionStatus::Pending } else { SuggestionStatus::Snoozed },
            snoozed_until: if index < 4 { None } else { Some(future.to_owned()) },
            created_at: old.to_owned(),
        });
    }
    let mut admission =
        Admission::from_states(&states, "2026-08-03T00:00:00Z", "2026-08-02T00:00:00Z");
    assert_eq!(admission.pending, 4);
    assert_eq!(admission.consider(false), SuggestionWrite::Create);
    assert_eq!(admission.pending, 5);
    assert_eq!(admission.consider(false), SuggestionWrite::Skip);
    assert_eq!(admission.consider(true), SuggestionWrite::Refresh);
    assert_eq!(admission.created, 1);
    let woken = SuggestionState {
        status: SuggestionStatus::Snoozed,
        snoozed_until: Some(old.to_owned()),
        created_at: old.to_owned(),
    };
    assert!(snooze_is_over(&woken, "2026-08-03T00:00:00Z"));
    assert!(!snooze_is_over(&woken, "2026-07-03T00:00:00Z"));
}

#[test]
fn suggestions_are_answered_once() {
    assert!(valid_suggestion_transition(SuggestionStatus::Pending, SuggestionStatus::Snoozed));
    assert!(!valid_suggestion_transition(SuggestionStatus::Blocked, SuggestionStatus::Pending));
    assert_eq!(
        set_suggestion_status(SuggestionStatus::Pending, SuggestionStatus::Dismissed),
        Ok(())
    );
    assert_eq!(
        set_suggestion_status(SuggestionStatus::Accepted, SuggestionStatus::Dismissed),
        Err(StorageError::SuggestionInvalidState)
    );
}

#[test]
fn accepting_needs_live_evidence_and_happens_once() {
    let workspace = ReferencedResource { kind: ResourceKind::Directory, scope_active: true };
    let page = ReferencedResource { kind: ResourceKind::WebPage, scope_active: true };
    let accept = |status, ritual, workspace, actions| {
        accept_suggestion(status, ritual, workspace, &actions)
    };
    assert_eq!(
        accept(SuggestionStatus::Pending, None, Some(workspace), vec![Some(page)]),
        Ok(AcceptOutcome::Create)
    );
    assert_eq!(
        accept(SuggestionStatus::Accepted, Some(id(4)), None, Vec::new()),
        Ok(AcceptOutcome::Existing(id(4)))
    );
    assert_eq!(
        accept(SuggestionStatus::Accepted, None, None, Vec::new()),
        Err(StorageError::InvalidData("accepted suggestion lacks ritual"))
    );
    assert_eq!(
        accept(SuggestionStatus::Blocked, None, Some(workspace), vec![Some(page)]),
        Err(StorageError::SuggestionInvalidState)
    );
    let paused = ReferencedResource { scope_active: false, ..page };
    assert_eq!(
        accept(SuggestionStatus::Pending, None, Some(workspace), vec![Some(page), Some(paused)]),
        Err(StorageError::SuggestionStale)
    );
    assert_eq!(
        accept(SuggestionStatus::Pending, None, Some(page), vec![Some(page)]),
        Err(StorageError::SuggestionStale)
    );
    assert_eq!(
        accept(SuggestionStatus::Snoozed, None, Some(workspace), vec![None]),
        Err(StorageError::NotFound)
    );
}

fn history() -> (Execution, Vec<ExecutionStep>) {
    let execution = Execution {
        id: id(20),
        ritual_id: id(4),
        ritual_version_id: id(5),
        status: ExecutionStatus::Running,
        trigger_kind: TriggerKind::Manual,
        started_at: now(),
        finished_at: None,
        failure_code: None,
        created_at: now(),
    };
    let step = |index: u32, status, finished| ExecutionStep {
        id: id(30 + u128::from(index)),
        execution_id: id(20),
        step_index: index,
        action_type: "desktop.notification.show.v1".to_owned(),
        status,
        adapter_id: None,
        adapter_instance_id: None,
        started_at: now(),
        finished_at: finished,
        result_code: None,
        redacted_message: None,
    };
    let steps = vec![
        step(0, ExecutionStepStatus::Running, None),
        step(1, ExecutionStepStatus::Pending, None),
        step(2, ExecutionStepStatus::Succeeded, Some(now())),
    ];
    (execution, steps)
}

#[test]
fn restart_aborts_running_execution_steps_and_preserves_completed_steps() {
    let (execution, steps) = history();
    let (execution, steps) = abort_on_restart(execution, steps, later());
    assert_eq!(execution.status, ExecutionStatus::Aborted);
    assert_eq!(execution.failure_code.as_deref(), Some("daemon_restarted"));
    assert_eq!(steps[0].status, ExecutionStepStatus::Aborted);
    assert_eq!(steps[0].result_code.as_deref(), Some("daemon_restarted"));
    assert_eq!(
        steps[0].redacted_message.as_deref(),
        Some("execution aborted because daemon restarted")
    );
    assert_eq!(steps[1].status, ExecutionStepStatus::Aborted);
    assert_eq!(steps[1].result_code.as_deref(), Some("daemon_restarted"));
    assert_eq!(steps[2].status, ExecutionStepStatus::Succeeded);
}

#[test]
fn steps_left_open_by_an_earlier_restart_are_closed() {
    let (mut execution, steps) = history();
    execution.status = ExecutionStatus::Aborted;
    execution.failure_code = Some("daemon_restarted".to_owned());
    assert!(is_cut_off(&execution));
    let (after, steps) = abort_on_restart(execution.clone(), steps, later());
    assert_eq!(after, execution);
    assert_eq!(steps[0].status, ExecutionStepStatus::Aborted);
    assert_eq!(steps[1].result_code.as_deref(), Some("daemon_restarted"));
    execution.failure_code = Some("ritual_timeout".to_owned());
    assert!(!is_cut_off(&execution));
}

#[test]
fn columns_hold_the_one_text_of_a_value() {
    let ritual = ritual_row(&Ritual {
        id: id(4),
        name: "start".to_owned(),
        status: RitualStatus::Active,
        current_version_id: id(0xabc),
        created_at: now(),
        updated_at: later(),
    })
    .expect("row");
    assert_eq!(ritual.current_version_id, "00000000-0000-0000-0000-000000000abc");
    assert_eq!(ritual.created_at, "2026-08-03T00:00:00Z");
    assert_eq!(ritual.updated_at, "2026-08-03T00:01:00Z");
    assert_eq!(ritual.status, "active");
    let (execution, steps) = history();
    let row = execution_row(&execution).expect("row");
    assert_eq!(row.ritual_id, execution.ritual_id.to_text());
    assert_eq!(row.finished_at, None);
    let row = execution_step_row(&steps[0]).expect("row");
    assert_eq!(row.execution_id, execution.id.to_text());
}

#[test]
fn running_executions_and_rituals_are_counted() {
    let (execution, _) = history();
    let ritual = |status| Ritual {
        id: id(4),
        name: "start".to_owned(),
        status,
        current_version_id: id(5),
        created_at: now(),
        updated_at: now(),
    };
    let counted = counts(
        &vec![execution],
        &vec![
            ritual(RitualStatus::Draft),
            ritual(RitualStatus::Active),
            ritual(RitualStatus::Active),
        ],
    );
    assert_eq!((counted.running, counted.draft, counted.active), (1, 1, 2));
}
