//! Stored records: observations, discoveries, executions.

use vstd::prelude::*;
use crate::clock::Timestamp;
use crate::execution::{Execution, ExecutionStatus, ExecutionStep, ExecutionStepStatus};
use crate::mining::{DiscoveryRun, DiscoveryRunStatus};
use crate::resource::{ObservationScope, ObservationStatus};
use crate::ritual::{Ritual, RitualStatus};
use crate::storage::operations;
use crate::storage::operations::ScopeWrite;

verus! {

/// Enabling and pausing change whether a scope is active and when it was changed, never
/// what it observes; and there is something to write exactly where that changes.
pub proof fn scopes_keep_what_they_observe(
    scope: ObservationScope,
    request: ObservationScope,
    now: Timestamp,
)
    ensures
        ({
            let (paused, written) = operations::paused_scope(scope, now);
            &&& paused.id == scope.id && paused.source == scope.source && paused.resource_id
                == scope.resource_id && paused.created_at == scope.created_at
            &&& paused.status == ObservationStatus::Paused
            &&& written <==> scope.status != paused.status
            &&& written ==> paused.updated_at == now
            &&& !written ==> paused == scope
        }),
        operations::ensured_scope(Some(scope), request) matches ScopeWrite::Update(enabled) && {
            &&& enabled.id == scope.id && enabled.source == scope.source && enabled.resource_id
                == scope.resource_id && enabled.created_at == scope.created_at
            &&& enabled.status == ObservationStatus::Active
            &&& enabled.updated_at == request.updated_at
        },
        operations::ensured_scope(None, request) == ScopeWrite::Insert(request),
{
}

/// A discovery looks at the last thirty days, and a suggestion counts as new for a day.
pub proof fn windows_reach_back(now: Timestamp)
    requires
        now.unix_seconds >= -9_000_000_000_000_000_000,
    ensures
        now.instant() - operations::before(now, operations::DISCOVERY_WINDOW_SECONDS).instant()
            == 30 * 24 * 60 * 60 * 1_000_000_000,
        now.instant() - operations::before(now, operations::SUGGESTION_PAUSE_SECONDS).instant()
            == 24 * 60 * 60 * 1_000_000_000,
{
}

/// Going back never goes forward, and goes back further for more seconds.
pub proof fn earlier_is_earlier(now: Timestamp, fewer: i64, more: i64)
    requires
        0 <= fewer <= more,
    ensures
        operations::before(now, more).instant() <= operations::before(now, fewer).instant()
            <= now.instant(),
        operations::before(now, 0) == now,
{
}

/// A discovery that is ended from outside says why and when, and keeps everything else;
/// one that is over is not touched.
pub proof fn ended_discoveries_keep_their_record(
    after: DiscoveryRun,
    before: DiscoveryRun,
    status: DiscoveryRunStatus,
    code: Seq<char>,
    finished_at: Timestamp,
)
    requires
        operations::is_run_ended(after, before, status, code, finished_at),
    ensures
        after.id == before.id,
        after.started_at == before.started_at,
        after.algorithm_version == before.algorithm_version,
        after.input_event_count == before.input_event_count,
        after.sessions_upserted == before.sessions_upserted,
        after.candidates_evaluated == before.candidates_evaluated,
        after.suggestions_created == before.suggestions_created,
        before.status == DiscoveryRunStatus::Running ==> after.status == status
            && after.finished_at == Some(finished_at) && after.failure_code is Some
            && after.failure_code->0@ == code,
        before.status != DiscoveryRunStatus::Running ==> after == before,
{
}

/// A restart aborts exactly the executions that were running, and says so.
pub proof fn restart_aborts_what_was_running(after: Execution, before: Execution, now: Timestamp)
    requires
        operations::is_restarted_execution(after, before, now),
    ensures
        after.status != ExecutionStatus::Running,
        before.status == ExecutionStatus::Running ==> {
            &&& after.status == ExecutionStatus::Aborted
            &&& after.finished_at == Some(now)
            &&& after.failure_code is Some && after.failure_code->0@ == "daemon_restarted"@
            &&& after.id == before.id && after.ritual_id == before.ritual_id
            &&& after.ritual_version_id == before.ritual_version_id
            &&& after.started_at == before.started_at
            &&& operations::cut_off(after)
        },
        before.status != ExecutionStatus::Running ==> after == before,
        operations::cut_off(before) ==> before.status == ExecutionStatus::Running || before.status
            == ExecutionStatus::Aborted,
{
}

/// A restart aborts exactly the steps that were pending or running, and says so.
pub proof fn restart_aborts_open_steps(
    after: ExecutionStep,
    before: ExecutionStep,
    now: Timestamp,
)
    requires
        operations::is_restarted_step(after, before, now),
    ensures
        after.id == before.id,
        after.execution_id == before.execution_id,
        after.step_index == before.step_index,
        after.action_type == before.action_type,
        after.adapter_id == before.adapter_id,
        after.started_at == before.started_at,
        before.status == ExecutionStepStatus::Pending || before.status
            == ExecutionStepStatus::Running ==> after.status == ExecutionStepStatus::Aborted
            && after.finished_at == Some(now) && after.result_code is Some
            && after.result_code->0@ == "daemon_restarted"@,
        before.status == ExecutionStepStatus::Succeeded || before.status
            == ExecutionStepStatus::Skipped || before.status == ExecutionStepStatus::Failed
            || before.status == ExecutionStepStatus::Aborted ==> after == before,
{
}

/// Rituals and executions are counted one by one.
pub proof fn counts_are_sizes(
    rituals: Seq<Ritual>,
    executions: Seq<Execution>,
    status: RitualStatus,
)
    ensures
        operations::ritual_count(rituals, status) == rituals.filter(
            |ritual: Ritual| ritual.status == status,
        ).len(),
        operations::running_count(executions) == executions.filter(
            |execution: Execution| execution.status == ExecutionStatus::Running,
        ).len(),
    decreases rituals.len() + executions.len(),
{
    reveal(Seq::filter);
    if rituals.len() > 0 {
        counts_are_sizes(rituals.drop_last(), executions, status);
    } else if executions.len() > 0 {
        counts_are_sizes(rituals, executions.drop_last(), status);
    }
}

/// A listing gives at most a hundred events and never more than were asked for, and one of
/// the two in full; a discovery counts as complete with up to a hundred thousand events, and
/// it asks for one more than that.
pub proof fn listings_are_limited(limit: u32, count: int)
    ensures
        ({
            let shown = operations::at_most(limit, crate::storage::PUBLIC_EVENT_LIST_LIMIT);
            &&& shown <= 100 && shown <= limit
            &&& shown == 100 || shown == limit
        }),
        ({
            let scanned = operations::at_most(limit, crate::storage::DISCOVERY_EVENT_SCAN_LIMIT);
            &&& scanned <= 100_001 && scanned <= limit
            &&& scanned == 100_001 || scanned == limit
        }),
        operations::saw_all(count) <==> count <= 100_000,
{
}

} // verus!
