//! The tables of the database, and how they change from one schema version to the next.

use vstd::prelude::*;
use crate::event::SYNTHETIC_EVENT_TYPE;
use crate::json;
use crate::storage::migration;
use crate::storage::SCHEMA_VERSION;

verus! {

/// The journal of the migrations that were run.
pub const JOURNAL: &'static str = "CREATE TABLE IF NOT EXISTS schema_migrations (
    version INTEGER PRIMARY KEY,
    applied_at TEXT NOT NULL
)";

/// The columns of the adapter instances.
pub const ADAPTERS_COLUMNS: &'static str = "
    instance_id TEXT PRIMARY KEY,
    adapter_id TEXT NOT NULL,
    adapter_version TEXT NOT NULL,
    last_sequence_no INTEGER NOT NULL,
    created_at TEXT NOT NULL,
    updated_at TEXT NOT NULL
";

/// The columns of the settings.
pub const SETTINGS_COLUMNS: &'static str = "
    key TEXT PRIMARY KEY,
    value_json TEXT NOT NULL,
    updated_at TEXT NOT NULL
";

/// The columns of the events.
pub const EVENTS_COLUMNS: &'static str = "
    id TEXT PRIMARY KEY,
    spec_version TEXT NOT NULL,
    event_type TEXT NOT NULL,
    source TEXT NOT NULL,
    occurred_at TEXT NOT NULL,
    received_at TEXT NOT NULL,
    actor TEXT NOT NULL,
    adapter_id TEXT NOT NULL,
    adapter_version TEXT NOT NULL,
    adapter_instance_id TEXT NOT NULL,
    sequence_no INTEGER NOT NULL CHECK(sequence_no >= 0),
    context_json TEXT,
    privacy TEXT NOT NULL,
    data_json TEXT NOT NULL,
    canonical_json TEXT NOT NULL,
    FOREIGN KEY(adapter_instance_id) REFERENCES adapters(instance_id),
    UNIQUE(adapter_instance_id, sequence_no)
";

/// The columns of the resources.
pub const RESOURCES_COLUMNS: &'static str = "
    id TEXT PRIMARY KEY,
    kind TEXT NOT NULL,
    label TEXT NOT NULL,
    locator TEXT NOT NULL,
    canonical_locator TEXT NOT NULL,
    sensitivity TEXT NOT NULL,
    scope TEXT NOT NULL,
    created_at TEXT NOT NULL,
    updated_at TEXT NOT NULL,
    UNIQUE(canonical_locator)
";

/// The columns of the rituals.
pub const RITUALS_COLUMNS: &'static str = "
    id TEXT PRIMARY KEY,
    name TEXT NOT NULL,
    status TEXT NOT NULL,
    current_version_id TEXT NOT NULL,
    created_at TEXT NOT NULL,
    updated_at TEXT NOT NULL,
    FOREIGN KEY(current_version_id) REFERENCES ritual_versions(id) DEFERRABLE INITIALLY DEFERRED
";

/// The columns of the versions of rituals.
pub const RITUAL_VERSIONS_COLUMNS: &'static str = "
    id TEXT PRIMARY KEY,
    ritual_id TEXT NOT NULL,
    version INTEGER NOT NULL,
    schema_version TEXT NOT NULL,
    canonical_json TEXT NOT NULL,
    content_hash TEXT NOT NULL,
    created_at TEXT NOT NULL,
    FOREIGN KEY(ritual_id) REFERENCES rituals(id),
    UNIQUE(ritual_id, version)
";

/// The columns of the approvals.
pub const RITUAL_APPROVALS_COLUMNS: &'static str = "
    id TEXT PRIMARY KEY,
    ritual_version_id TEXT NOT NULL,
    action_type TEXT NOT NULL,
    capability TEXT NOT NULL,
    resource_id TEXT,
    app_id TEXT,
    content_hash TEXT NOT NULL,
    approved_at TEXT NOT NULL,
    FOREIGN KEY(ritual_version_id) REFERENCES ritual_versions(id)
";

/// The columns of the executions.
pub const EXECUTIONS_COLUMNS: &'static str = "
    id TEXT PRIMARY KEY,
    ritual_id TEXT NOT NULL,
    ritual_version_id TEXT NOT NULL,
    status TEXT NOT NULL,
    trigger_kind TEXT NOT NULL,
    started_at TEXT NOT NULL,
    finished_at TEXT,
    failure_code TEXT,
    created_at TEXT NOT NULL,
    FOREIGN KEY(ritual_id) REFERENCES rituals(id),
    FOREIGN KEY(ritual_version_id) REFERENCES ritual_versions(id)
";

/// The columns of the steps of executions.
pub const EXECUTION_STEPS_COLUMNS: &'static str = "
    id TEXT PRIMARY KEY,
    execution_id TEXT NOT NULL,
    step_index INTEGER NOT NULL,
    action_type TEXT NOT NULL,
    status TEXT NOT NULL,
    adapter_id TEXT,
    started_at TEXT NOT NULL,
    finished_at TEXT,
    result_code TEXT,
    redacted_message TEXT,
    FOREIGN KEY(execution_id) REFERENCES executions(id),
    UNIQUE(execution_id, step_index)
";

/// The columns of the executions under way.
pub const RITUAL_EXECUTION_LOCKS_COLUMNS: &'static str = "
    ritual_id TEXT PRIMARY KEY,
    execution_id TEXT NOT NULL,
    FOREIGN KEY(ritual_id) REFERENCES rituals(id),
    FOREIGN KEY(execution_id) REFERENCES executions(id)
";

/// The columns of the observation scopes.
pub const OBSERVATION_SCOPES_COLUMNS: &'static str = "
    id TEXT PRIMARY KEY,
    source TEXT NOT NULL CHECK(source IN ('browser.chromium', 'vscode.workspace')),
    resource_id TEXT NOT NULL,
    status TEXT NOT NULL CHECK(status IN ('active', 'paused')),
    created_at TEXT NOT NULL,
    updated_at TEXT NOT NULL,
    FOREIGN KEY(resource_id) REFERENCES resources(id),
    UNIQUE(source, resource_id)
";

/// The columns of the discovery runs.
pub const DISCOVERY_RUNS_COLUMNS: &'static str = "
    id TEXT PRIMARY KEY,
    algorithm_version TEXT NOT NULL,
    status TEXT NOT NULL CHECK(status IN ('running','succeeded','failed','aborted')),
    started_at TEXT NOT NULL,
    finished_at TEXT,
    input_event_count INTEGER NOT NULL,
    sessions_upserted INTEGER NOT NULL,
    candidates_evaluated INTEGER NOT NULL,
    suggestions_created INTEGER NOT NULL,
    failure_code TEXT
";

/// The columns of the sessions.
pub const SESSIONS_COLUMNS: &'static str = "
    id TEXT PRIMARY KEY,
    algorithm_version TEXT NOT NULL,
    kind TEXT NOT NULL CHECK(kind = 'workspace_start'),
    workspace_resource_id TEXT NOT NULL,
    anchor_event_id TEXT NOT NULL UNIQUE,
    started_at TEXT NOT NULL,
    finished_at TEXT,
    event_count INTEGER NOT NULL,
    eligible INTEGER NOT NULL,
    FOREIGN KEY(workspace_resource_id) REFERENCES resources(id)
";

/// The columns of the events of sessions.
pub const SESSION_EVENTS_COLUMNS: &'static str = "
    session_id TEXT NOT NULL,
    event_id TEXT NOT NULL,
    ordinal INTEGER NOT NULL,
    received_at TEXT NOT NULL,
    resource_id TEXT NOT NULL,
    is_anchor INTEGER NOT NULL,
    FOREIGN KEY(session_id) REFERENCES sessions(id) ON DELETE CASCADE,
    FOREIGN KEY(event_id) REFERENCES events(id) ON DELETE CASCADE,
    FOREIGN KEY(resource_id) REFERENCES resources(id),
    UNIQUE(session_id, ordinal),
    UNIQUE(session_id, event_id)
";

/// The columns of the suggestions.
pub const SUGGESTIONS_COLUMNS: &'static str = "
    id TEXT PRIMARY KEY,
    algorithm_version TEXT NOT NULL,
    workspace_resource_id TEXT NOT NULL,
    pattern_fingerprint TEXT NOT NULL UNIQUE,
    support_sessions INTEGER NOT NULL,
    eligible_sessions INTEGER NOT NULL,
    confidence_basis_points INTEGER NOT NULL,
    first_seen_at TEXT NOT NULL,
    last_seen_at TEXT NOT NULL,
    observation_span_seconds INTEGER NOT NULL,
    median_completion_ms INTEGER NOT NULL,
    created_at TEXT NOT NULL,
    updated_at TEXT NOT NULL,
    status TEXT NOT NULL CHECK(status IN ('pending','snoozed','dismissed','accepted','blocked')),
    snoozed_until TEXT,
    accepted_ritual_id TEXT,
    FOREIGN KEY(workspace_resource_id) REFERENCES resources(id),
    FOREIGN KEY(accepted_ritual_id) REFERENCES rituals(id)
";

/// The columns of the actions of suggestions.
pub const SUGGESTION_ACTIONS_COLUMNS: &'static str = "
    suggestion_id TEXT NOT NULL,
    ordinal INTEGER NOT NULL,
    resource_id TEXT NOT NULL,
    FOREIGN KEY(suggestion_id) REFERENCES suggestions(id) ON DELETE CASCADE,
    FOREIGN KEY(resource_id) REFERENCES resources(id),
    UNIQUE(suggestion_id, ordinal)
";

/// The columns of the sessions that support suggestions.
pub const SUGGESTION_SUPPORT_SESSIONS_COLUMNS: &'static str = "
    suggestion_id TEXT NOT NULL,
    session_id TEXT NOT NULL,
    FOREIGN KEY(suggestion_id) REFERENCES suggestions(id) ON DELETE CASCADE,
    FOREIGN KEY(session_id) REFERENCES sessions(id),
    UNIQUE(suggestion_id, session_id)
";

/// A table of the database.
#[derive(Clone, Copy, Debug, PartialEq, Eq, Structural)]
pub enum Table {
    Adapters,
    Settings,
    Events,
    Resources,
    Rituals,
    RitualVersions,
    RitualApprovals,
    Executions,
    ExecutionSteps,
    RitualExecutionLocks,
    ObservationScopes,
    DiscoveryRuns,
    Sessions,
    SessionEvents,
    Suggestions,
    SuggestionActions,
    SuggestionSupportSessions,
}

pub open spec fn name_of(table: Table) -> &'static str {
    match table {
        Table::Adapters => "adapters",
        Table::Settings => "settings",
        Table::Events => "events",
        Table::Resources => "resources",
        Table::Rituals => "rituals",
        Table::RitualVersions => "ritual_versions",
        Table::RitualApprovals => "ritual_approvals",
        Table::Executions => "executions",
        Table::ExecutionSteps => "execution_steps",
        Table::RitualExecutionLocks => "ritual_execution_locks",
        Table::ObservationScopes => "observation_scopes",
        Table::DiscoveryRuns => "discovery_runs",
        Table::Sessions => "sessions",
        Table::SessionEvents => "session_events",
        Table::Suggestions => "suggestions",
        Table::SuggestionActions => "suggestion_actions",
        Table::SuggestionSupportSessions => "suggestion_support_sessions",
    }
}

pub open spec fn columns_of(table: Table) -> &'static str {
    match table {
        Table::Adapters => ADAPTERS_COLUMNS,
        Table::Settings => SETTINGS_COLUMNS,
        Table::Events => EVENTS_COLUMNS,
        Table::Resources => RESOURCES_COLUMNS,
        Table::Rituals => RITUALS_COLUMNS,
        Table::RitualVersions => RITUAL_VERSIONS_COLUMNS,
        Table::RitualApprovals => RITUAL_APPROVALS_COLUMNS,
        Table::Executions => EXECUTIONS_COLUMNS,
        Table::ExecutionSteps => EXECUTION_STEPS_COLUMNS,
        Table::RitualExecutionLocks => RITUAL_EXECUTION_LOCKS_COLUMNS,
        Table::ObservationScopes => OBSERVATION_SCOPES_COLUMNS,
        Table::DiscoveryRuns => DISCOVERY_RUNS_COLUMNS,
        Table::Sessions => SESSIONS_COLUMNS,
        Table::SessionEvents => SESSION_EVENTS_COLUMNS,
        Table::Suggestions => SUGGESTIONS_COLUMNS,
        Table::SuggestionActions => SUGGESTION_ACTIONS_COLUMNS,
        Table::SuggestionSupportSessions => SUGGESTION_SUPPORT_SESSIONS_COLUMNS,
    }
}

/// The schema version that brought a table.
pub open spec fn version_of(table: Table) -> u32 {
    match table {
        Table::Adapters => 1,
        Table::Settings => 1,
        Table::Events => 1,
        Table::Resources => 2,
        Table::Rituals => 2,
        Table::RitualVersions => 2,
        Table::RitualApprovals => 2,
        Table::Executions => 2,
        Table::ExecutionSteps => 2,
        Table::RitualExecutionLocks => 2,
        Table::ObservationScopes => 4,
        Table::DiscoveryRuns => 5,
        Table::Sessions => 5,
        Table::SessionEvents => 5,
        Table::Suggestions => 5,
        Table::SuggestionActions => 5,
        Table::SuggestionSupportSessions => 5,
    }
}

fn table_name(table: Table) -> (name: &'static str)
    ensures
        name == name_of(table),
{
    match table {
        Table::Adapters => "adapters",
        Table::Settings => "settings",
        Table::Events => "events",
        Table::Resources => "resources",
        Table::Rituals => "rituals",
        Table::RitualVersions => "ritual_versions",
        Table::RitualApprovals => "ritual_approvals",
        Table::Executions => "executions",
        Table::ExecutionSteps => "execution_steps",
        Table::RitualExecutionLocks => "ritual_execution_locks",
        Table::ObservationScopes => "observation_scopes",
        Table::DiscoveryRuns => "discovery_runs",
        Table::Sessions => "sessions",
        Table::SessionEvents => "session_events",
        Table::Suggestions => "suggestions",
        Table::SuggestionActions => "suggestion_actions",
        Table::SuggestionSupportSessions => "suggestion_support_sessions",
    }
}

fn table_columns(table: Table) -> (columns: &'static str)
    ensures
        columns == columns_of(table),
{
    match table {
        Table::Adapters => ADAPTERS_COLUMNS,
        Table::Settings => SETTINGS_COLUMNS,
        Table::Events => EVENTS_COLUMNS,
        Table::Resources => RESOURCES_COLUMNS,
        Table::Rituals => RITUALS_COLUMNS,
        Table::RitualVersions => RITUAL_VERSIONS_COLUMNS,
        Table::RitualApprovals => RITUAL_APPROVALS_COLUMNS,
        Table::Executions => EXECUTIONS_COLUMNS,
        Table::ExecutionSteps => EXECUTION_STEPS_COLUMNS,
        Table::RitualExecutionLocks => RITUAL_EXECUTION_LOCKS_COLUMNS,
        Table::ObservationScopes => OBSERVATION_SCOPES_COLUMNS,
        Table::DiscoveryRuns => DISCOVERY_RUNS_COLUMNS,
        Table::Sessions => SESSIONS_COLUMNS,
        Table::SessionEvents => SESSION_EVENTS_COLUMNS,
        Table::Suggestions => SUGGESTIONS_COLUMNS,
        Table::SuggestionActions => SUGGESTION_ACTIONS_COLUMNS,
        Table::SuggestionSupportSessions => SUGGESTION_SUPPORT_SESSIONS_COLUMNS,
    }
}

/// One change of the schema.
#[derive(Clone, Copy, Debug, PartialEq, Eq)]
pub enum SchemaChange {
    Create(Table),
    AddColumn { table: Table, column: &'static str, kind: &'static str },
    Index { name: &'static str, table: Table, columns: &'static str },
    /// Gives the synthetic payloads that were stored before payloads carried their kind
    /// that kind.
    TagPayloads,
}

/// The changes that lead to a schema version from the one before.
pub open spec fn changes_to(version: u32) -> Seq<SchemaChange> {
    if version == 1 {
        seq![
            SchemaChange::Create(Table::Adapters),
            SchemaChange::Create(Table::Settings),
            SchemaChange::Create(Table::Events),
            SchemaChange::Index {
                name: "events_received_at_idx",
                table: Table::Events,
                columns: "received_at",
            },
        ]
    } else if version == 2 {
        seq![
            SchemaChange::Create(Table::Resources),
            SchemaChange::Create(Table::Rituals),
            SchemaChange::Create(Table::RitualVersions),
            SchemaChange::Create(Table::RitualApprovals),
            SchemaChange::Create(Table::Executions),
            SchemaChange::Create(Table::ExecutionSteps),
            SchemaChange::Create(Table::RitualExecutionLocks),
            SchemaChange::Index {
                name: "ritual_versions_ritual_idx",
                table: Table::RitualVersions,
                columns: "ritual_id, version",
            },
            SchemaChange::Index {
                name: "executions_created_idx",
                table: Table::Executions,
                columns: "created_at",
            },
            SchemaChange::Index {
                name: "execution_steps_execution_idx",
                table: Table::ExecutionSteps,
                columns: "execution_id, step_index",
            },
        ]
    } else if version == 3 {
        seq![
            SchemaChange::AddColumn {
                table: Table::ExecutionSteps,
                column: "adapter_instance_id",
                kind: "TEXT",
            },
        ]
    } else if version == 4 {
        seq![
            SchemaChange::Create(Table::ObservationScopes),
            SchemaChange::Index {
                name: "observation_scopes_source_idx",
                table: Table::ObservationScopes,
                columns: "source",
            },
            SchemaChange::TagPayloads,
        ]
    } else if version == 5 {
        seq![
            SchemaChange::Create(Table::DiscoveryRuns),
            SchemaChange::Create(Table::Sessions),
            SchemaChange::Create(Table::SessionEvents),
            SchemaChange::Create(Table::Suggestions),
            SchemaChange::Create(Table::SuggestionActions),
            SchemaChange::Create(Table::SuggestionSupportSessions),
            SchemaChange::Index {
                name: "sessions_workspace_idx",
                table: Table::Sessions,
                columns: "workspace_resource_id",
            },
            SchemaChange::Index {
                name: "suggestions_status_idx",
                table: Table::Suggestions,
                columns: "status, updated_at",
            },
        ]
    } else {
        Seq::empty()
    }
}

pub fn schema_changes(version: u32) -> (changes: Vec<SchemaChange>)
    ensures
        changes@ == changes_to(version),
{
    if version == 1 {
        vec![
            SchemaChange::Create(Table::Adapters),
            SchemaChange::Create(Table::Settings),
            SchemaChange::Create(Table::Events),
            SchemaChange::Index {
                name: "events_received_at_idx",
                table: Table::Events,
                columns: "received_at",
            },
        ]
    } else if version == 2 {
        vec![
            SchemaChange::Create(Table::Resources),
            SchemaChange::Create(Table::Rituals),
            SchemaChange::Create(Table::RitualVersions),
            SchemaChange::Create(Table::RitualApprovals),
            SchemaChange::Create(Table::Executions),
            SchemaChange::Create(Table::ExecutionSteps),
            SchemaChange::Create(Table::RitualExecutionLocks),
            SchemaChange::Index {
                name: "ritual_versions_ritual_idx",
                table: Table::RitualVersions,
                columns: "ritual_id, version",
            },
            SchemaChange::Index {
                name: "executions_created_idx",
                table: Table::Executions,
                columns: "created_at",
            },
            SchemaChange::Index {
                name: "execution_steps_execution_idx",
                table: Table::ExecutionSteps,
                columns: "execution_id, step_index",
            },
        ]
    } else if version == 3 {
        vec![
            SchemaChange::AddColumn {
                table: Table::ExecutionSteps,
                column: "adapter_instance_id",
                kind: "TEXT",
            },
        ]
    } else if version == 4 {
        vec![
            SchemaChange::Create(Table::ObservationScopes),
            SchemaChange::Index {
                name: "observation_scopes_source_idx",
                table: Table::ObservationScopes,
                columns: "source",
            },
            SchemaChange::TagPayloads,
        ]
    } else if version == 5 {
        vec![
            SchemaChange::Create(Table::DiscoveryRuns),
            SchemaChange::Create(Table::Sessions),
            SchemaChange::Create(Table::SessionEvents),
            SchemaChange::Create(Table::Suggestions),
            SchemaChange::Create(Table::SuggestionActions),
            SchemaChange::Create(Table::SuggestionSupportSessions),
            SchemaChange::Index {
                name: "sessions_workspace_idx",
                table: Table::Sessions,
                columns: "workspace_resource_id",
            },
            SchemaChange::Index {
                name: "suggestions_status_idx",
                table: Table::Suggestions,
                columns: "status, updated_at",
            },
        ]
    } else {
        Vec::new()
    }
}

impl SchemaChange {
    /// The statement that makes a change; the change of the payloads is none of one
    /// statement.
    pub open spec fn statement_text(self) -> Option<Seq<char>> {
        match self {
            SchemaChange::Create(table) => Some(
                "CREATE TABLE "@ + name_of(table)@ + " ("@ + columns_of(table)@ + ")"@,
            ),
            SchemaChange::AddColumn { table, column, kind } => Some(
                "ALTER TABLE "@ + name_of(table)@ + " ADD COLUMN "@ + column@ + " "@ + kind@,
            ),
            SchemaChange::Index { name, table, columns } => Some(
                "CREATE INDEX "@ + name@ + " ON "@ + name_of(table)@ + "("@ + columns@ + ")"@,
            ),
            SchemaChange::TagPayloads => None,
        }
    }

    pub fn statement(&self) -> (r: Option<String>)
        ensures
            r is Some <==> self.statement_text() is Some,
            r is Some ==> r->0@ == self.statement_text()->0,
    {
        match self {
            SchemaChange::Create(table) => {
                let mut text: String = "CREATE TABLE ".to_owned();
                text.append(table_name(*table));
                text.append(" (");
                text.append(table_columns(*table));
                text.append(")");
                Some(text)
            },
            SchemaChange::AddColumn { table, column, kind } => {
                let mut text: String = "ALTER TABLE ".to_owned();
                text.append(table_name(*table));
                text.append(" ADD COLUMN ");
                text.append(column);
                text.append(" ");
                text.append(kind);
                Some(text)
            },
            SchemaChange::Index { name, table, columns } => {
                let mut text: String = "CREATE INDEX ".to_owned();
                text.append(name);
                text.append(" ON ");
                text.append(table_name(*table));
                text.append("(");
                text.append(columns);
                text.append(")");
                Some(text)
            },
            SchemaChange::TagPayloads => None,
        }
    }
}

/// What stands in a column of a row.
pub enum Cell {
    Integer(i64),
    Text(Seq<char>),
}

/// The rows of a table by their columns, and the columns that were added since the table
/// was created. A row holds nothing for a column that is null in it.
pub struct Records {
    pub added: Seq<Seq<char>>,
    pub rows: Seq<Map<Seq<char>, Cell>>,
}

/// What a database holds.
pub struct Database {
    pub version: u32,
    pub tables: Map<Table, Records>,
}

pub open spec fn text_in(row: Map<Seq<char>, Cell>, column: Seq<char>) -> Option<Seq<char>> {
    if row.contains_key(column) && row[column] is Text {
        Some(row[column]->Text_0)
    } else {
        None
    }
}

/// A row of the events table after payloads were given their kind; nothing where the
/// payload of a synthetic event cannot be read.
pub open spec fn tagged(row: Map<Seq<char>, Cell>) -> Option<Map<Seq<char>, Cell>> {
    if text_in(row, "event_type"@) != Some(SYNTHETIC_EVENT_TYPE@) {
        Some(row)
    } else {
        match (text_in(row, "data_json"@), text_in(row, "canonical_json"@)) {
            (Some(data), Some(canonical)) => if json::members_of(data) is None
                || json::members_of(canonical) is None {
                None
            } else if !migration::is_legacy(data, canonical) {
                Some(row)
            } else {
                match migration::normalized(data, canonical) {
                    Some((new_data, new_canonical)) => Some(
                        row.insert("data_json"@, Cell::Text(new_data)).insert(
                            "canonical_json"@,
                            Cell::Text(new_canonical),
                        ),
                    ),
                    None => None,
                }
            },
            _ => None,
        }
    }
}

/// Whether every stored payload that is to be given its kind can be.
pub open spec fn payloads_readable(rows: Seq<Map<Seq<char>, Cell>>) -> bool {
    forall|i: int| 0 <= i < rows.len() ==> tagged(#[trigger] rows[i]) is Some
}

/// A database after a change, which fails on a table that is there already, on one that is
/// not there, and on a payload that cannot be read.
pub open spec fn changed(db: Database, change: SchemaChange) -> Option<Database> {
    match change {
        SchemaChange::Create(table) => if db.tables.contains_key(table) {
            None
        } else {
            let empty = Records { added: Seq::empty(), rows: Seq::empty() };
            Some(Database { tables: db.tables.insert(table, empty), ..db })
        },
        SchemaChange::AddColumn { table, column, kind } => if !db.tables.contains_key(table)
            || db.tables[table].added.contains(column@) {
            None
        } else {
            let records = Records {
                added: db.tables[table].added.push(column@),
                rows: db.tables[table].rows,
            };
            Some(Database { tables: db.tables.insert(table, records), ..db })
        },
        SchemaChange::Index { name, table, columns } => if db.tables.contains_key(table) {
            Some(db)
        } else {
            None
        },
        SchemaChange::TagPayloads => if !db.tables.contains_key(Table::Events) {
            Some(db)
        } else if payloads_readable(db.tables[Table::Events].rows) {
            let records = Records {
                added: db.tables[Table::Events].added,
                rows: db.tables[Table::Events].rows.map_values(
                    |row: Map<Seq<char>, Cell>| tagged(row)->0,
                ),
            };
            Some(Database { tables: db.tables.insert(Table::Events, records), ..db })
        } else {
            None
        },
    }
}

/// A database after the changes from place `from` on.
pub open spec fn changed_from(db: Database, changes: Seq<SchemaChange>, from: int) -> Option<
    Database,
>
    decreases changes.len() - from,
{
    if from < 0 || from >= changes.len() {
        Some(db)
    } else {
        match changed(db, changes[from]) {
            Some(next) => changed_from(next, changes, from + 1),
            None => None,
        }
    }
}

/// A database after the migration to a version.
pub open spec fn stepped(db: Database, version: u32) -> Option<Database> {
    match changed_from(db, changes_to(version), 0) {
        Some(next) => Some(Database { version, ..next }),
        None => None,
    }
}

/// A database after the migrations from place `from` on.
pub open spec fn stepped_from(db: Database, steps: Seq<u32>, from: int) -> Option<Database>
    decreases steps.len() - from,
{
    if from < 0 || from >= steps.len() {
        Some(db)
    } else {
        match stepped(db, steps[from]) {
            Some(next) => stepped_from(next, steps, from + 1),
            None => None,
        }
    }
}

/// A database after its pending migrations.
pub open spec fn migrated(db: Database) -> Option<Database> {
    stepped_from(db, migration::steps_from(db.version), 0)
}

/// The columns that were added to a table up to a version.
pub open spec fn added_by(table: Table, version: u32) -> Seq<Seq<char>> {
    if table == Table::ExecutionSteps && version >= 3 {
        seq!["adapter_instance_id"@]
    } else {
        Seq::empty()
    }
}

/// Whether a database may be of its version, whatever its rows: no table is there before
/// its time, the added columns are those of the version, and the table that columns are
/// added to is there. Tables that nothing is added to may be missing.
pub open spec fn is_of_its_version(db: Database) -> bool {
    &&& db.version <= SCHEMA_VERSION
    &&& forall|table: Table| #[trigger]
        db.tables.contains_key(table) ==> version_of(table) <= db.version
            && db.tables[table].added == added_by(table, db.version)
    &&& version_of(Table::ExecutionSteps) <= db.version ==> db.tables.contains_key(
        Table::ExecutionSteps,
    )
}

/// Whether a database has gained exactly the tables that came since the version it had.
pub open spec fn tables_gained(before: Database, after: Database) -> bool {
    forall|table: Table| #[trigger]
        after.tables.contains_key(table) <==> before.tables.contains_key(table) || before.version
            < version_of(table) <= after.version
}

/// The rows of a table; none where there is no such table.
pub open spec fn rows_of(db: Database, table: Table) -> Seq<Map<Seq<char>, Cell>> {
    if db.tables.contains_key(table) {
        db.tables[table].rows
    } else {
        Seq::empty()
    }
}

/// Whether a table holds the same rows as before; of the events, those that payloads were
/// given their kind in, where they still had to be.
pub open spec fn rows_kept(before: Database, after: Database, table: Table) -> bool {
    if table == Table::Events && before.version < 4 <= after.version {
        &&& rows_of(after, table).len() == rows_of(before, table).len()
        &&& forall|i: int|
            0 <= i < rows_of(before, table).len() ==> Some(#[trigger] rows_of(after, table)[i])
                == tagged(rows_of(before, table)[i])
    } else {
        rows_of(after, table) == rows_of(before, table)
    }
}

/// Whether nothing stands in the way of a database's migration.
pub open spec fn migratable(db: Database) -> bool {
    db.version < 4 ==> payloads_readable(rows_of(db, Table::Events))
}

proof fn one_step(db: Database)
    requires
        is_of_its_version(db),
        db.version < SCHEMA_VERSION,
    ensures
        stepped(db, (db.version + 1) as u32) is Some <==> (db.version == 3 ==> payloads_readable(
            rows_of(db, Table::Events),
        )),
        stepped(db, (db.version + 1) as u32) matches Some(next) ==> {
            &&& next.version == db.version + 1
            &&& is_of_its_version(next)
            &&& tables_gained(db, next)
            &&& forall|table: Table| #[trigger] rows_kept(db, next, table)
        },
{
    reveal_with_fuel(changed_from, 12);
    let changes = changes_to((db.version + 1) as u32);
    if db.version == 0 {
        assert(!db.tables.contains_key(Table::Events));
        assert(changed_from(db, changes, 0) is Some);
    } else if db.version == 1 {
        assert(changed_from(db, changes, 0) is Some);
    } else if db.version == 2 {
        assert(db.tables.contains_key(Table::ExecutionSteps));
        assert(db.tables[Table::ExecutionSteps].added =~= Seq::empty());
        assert(changed_from(db, changes, 0) is Some);
    } else if db.version == 3 {
        assert(changed_from(db, changes, 0) is Some <==> payloads_readable(
            rows_of(db, Table::Events),
        ));
    } else {
        assert(changed_from(db, changes, 0) is Some);
    }
}

proof fn all_steps(db: Database, steps: Seq<u32>, from: int)
    requires
        is_of_its_version(db),
        0 <= from <= steps.len(),
        steps.len() - from == SCHEMA_VERSION - db.version,
        forall|k: int|
            from <= k < steps.len() ==> #[trigger] steps[k] == db.version + 1 + (k - from),
    ensures
        stepped_from(db, steps, from) is Some <==> migratable(db),
        stepped_from(db, steps, from) matches Some(after) ==> {
            &&& after.version == SCHEMA_VERSION
            &&& is_of_its_version(after)
            &&& tables_gained(db, after)
            &&& forall|table: Table| #[trigger] rows_kept(db, after, table)
        },
    decreases steps.len() - from,
{
    if from < steps.len() {
        one_step(db);
        if let Some(next) = stepped(db, steps[from]) {
            all_steps(next, steps, from + 1);
            assert(rows_kept(db, next, Table::Events));
            if let Some(after) = stepped_from(next, steps, from + 1) {
                assert forall|table: Table| #[trigger] rows_kept(db, after, table) by {
                    assert(rows_kept(db, next, table));
                    assert(rows_kept(next, after, table));
                }
            }
        }
    }
}

/// Migrating brings a database of any version up to the current one, with the tables that
/// came since, and keeps every row that it holds: only synthetic payloads from before
/// payloads carried their kind are given it. It fails on nothing but a payload that cannot
/// be read, so never on an empty database. The steps of executions then have a column for
/// the adapter instance, and migrating again changes nothing.
pub proof fn migrating_keeps_every_row(db: Database)
    requires
        is_of_its_version(db),
    ensures
        migrated(db) is Some <==> migratable(db),
        db.version == 0 ==> migrated(db) is Some,
        migrated(db) matches Some(after) ==> {
            &&& after.version == SCHEMA_VERSION
            &&& is_of_its_version(after)
            &&& tables_gained(db, after)
            &&& after.tables.contains_key(Table::ExecutionSteps)
            &&& after.tables[Table::ExecutionSteps].added.contains("adapter_instance_id"@)
            &&& forall|table: Table| #[trigger] rows_kept(db, after, table)
            &&& migrated(after) == Some(after)
        },
{
    all_steps(db, migration::steps_from(db.version), 0);
    assert(db.tables.contains_key(Table::Events) ==> 1 <= db.version);
    if let Some(after) = migrated(db) {
        assert(after.tables.contains_key(Table::ExecutionSteps));
        assert(after.tables[Table::ExecutionSteps].added[0] == "adapter_instance_id"@);
    }
}

/// Giving payloads their kind touches nothing but the payloads of old synthetic events, and
/// no other column of theirs.
pub proof fn tagging_keeps_the_rest(row: Map<Seq<char>, Cell>, column: Seq<char>)
    requires
        tagged(row) is Some,
    ensures
        column != "data_json"@ && column != "canonical_json"@ ==> (tagged(row)->0.contains_key(
            column,
        ) <==> row.contains_key(column)) && tagged(row)->0[column] == row[column],
        tagged(row) == Some(row) || (text_in(row, "event_type"@) == Some(SYNTHETIC_EVENT_TYPE@)
            && migration::is_legacy(
            text_in(row, "data_json"@)->0,
            text_in(row, "canonical_json"@)->0,
        )),
{
}

} // verus!
