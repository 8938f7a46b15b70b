//! The tables of the database: their names, when they come, and how they are made.

use vstd::prelude::*;
use crate::storage::schema;
use crate::storage::schema::{Database, SchemaChange, Table};
use crate::storage::SCHEMA_VERSION;

verus! {

/// A new database ends up with every table, and with nothing in them.
pub proof fn new_databases_have_every_table(db: Database, table: Table)
    requires
        db.version == 0,
        forall|other: Table| !#[trigger] db.tables.contains_key(other),
    ensures
        schema::migrated(db) matches Some(after) && after.version == SCHEMA_VERSION
            && after.tables.contains_key(table) && after.tables[table].rows.len() == 0,
{
    schema::migrating_keeps_every_row(db);
    let after = schema::migrated(db)->0;
    assert(schema::rows_kept(db, after, table));
    assert(after.tables.contains_key(table));
}

/// Tables come with the part of the library that needs them: events first, then rituals
/// and their executions, then what is observed, then what is discovered.
pub proof fn tables_come_with_what_needs_them(table: Table)
    ensures
        schema::version_of(table) == 1 <==> table is Adapters || table is Settings
            || table is Events,
        schema::version_of(table) == 2 <==> table is Resources || table is Rituals
            || table is RitualVersions || table is RitualApprovals || table is Executions
            || table is ExecutionSteps || table is RitualExecutionLocks,
        schema::version_of(table) == 4 <==> table is ObservationScopes,
        schema::version_of(table) == 5 <==> table is DiscoveryRuns || table is Sessions
            || table is SessionEvents || table is Suggestions || table is SuggestionActions
            || table is SuggestionSupportSessions,
{
}

/// No two tables share their name.
pub proof fn tables_have_names_of_their_own(first: Table, second: Table)
    ensures
        schema::name_of(first)@ == schema::name_of(second)@ <==> first == second,
{
    reveal_strlit("adapters");
    reveal_strlit("settings");
    reveal_strlit("events");
    reveal_strlit("resources");
    reveal_strlit("rituals");
    reveal_strlit("ritual_versions");
    reveal_strlit("ritual_approvals");
    reveal_strlit("executions");
    reveal_strlit("execution_steps");
    reveal_strlit("ritual_execution_locks");
    reveal_strlit("observation_scopes");
    reveal_strlit("discovery_runs");
    reveal_strlit("sessions");
    reveal_strlit("session_events");
    reveal_strlit("suggestions");
    reveal_strlit("suggestion_actions");
    reveal_strlit("suggestion_support_sessions");
    let one = schema::name_of(first)@;
    let other = schema::name_of(second)@;
    if one == other {
        assert(one.len() == other.len());
        assert(one[0] == other[0]);
        assert(one[2] == other[2]);
    }
}

/// A table is created under its own name with its own columns, a column is added to and an
/// index is made on the table that they are for.
pub proof fn statements_name_their_table(
    table: Table,
    name: &'static str,
    column: &'static str,
    kind: &'static str,
)
    ensures
        SchemaChange::Create(table).statement_text() == Some(
            "CREATE TABLE "@ + schema::name_of(table)@ + " ("@ + schema::columns_of(table)@ + ")"@,
        ),
        (SchemaChange::AddColumn { table, column, kind }).statement_text() == Some(
            "ALTER TABLE "@ + schema::name_of(table)@ + " ADD COLUMN "@ + column@ + " "@ + kind@,
        ),
        (SchemaChange::Index { name, table, columns: column }).statement_text() == Some(
            "CREATE INDEX "@ + name@ + " ON "@ + schema::name_of(table)@ + "("@ + column@ + ")"@,
        ),
        SchemaChange::TagPayloads.statement_text() is None,
{
}

/// Every table is created in the version that brings it and in no other, and only once;
/// an index is made only on a table that is there.
pub proof fn tables_are_created_once(version: u32, first: int, second: int)
    requires
        0 <= first < schema::changes_to(version).len(),
        0 <= second < schema::changes_to(version).len(),
    ensures
        schema::changes_to(version)[first] matches SchemaChange::Create(table)
            ==> schema::version_of(table) == version && (schema::changes_to(version)[second]
            == schema::changes_to(version)[first] ==> first == second),
        schema::changes_to(version)[first] matches SchemaChange::Index { table, .. }
            ==> schema::version_of(table) <= version,
        schema::changes_to(version)[first] matches SchemaChange::AddColumn { table, .. }
            ==> schema::version_of(table) < version,
        schema::changes_to(version)[first] is TagPayloads ==> schema::version_of(Table::Events)
            < version,
{
}

} // verus!
