//! Running a ritual.

use vstd::prelude::*;
use crate::adapter::{AdapterDispatchErrorKind, EligibleAdapter};
use crate::clock::Timestamp;
use crate::execution::{Execution, ExecutionStatus, ExecutionStep, ExecutionStepStatus};
use crate::ids::Uuid;
use crate::laws::rituals;
use crate::protocol::AdapterActionStatus;
use crate::resource::Resource;
use crate::ritual::ActionSpec;
use crate::runner;
use crate::runner::{Run, RunPhase, StepDecision};
use crate::storage::StorageError;

verus! {

/// A step is never waited for longer than its action may take, nor longer than what is
/// left of the run, and one of the two is waited for in full. The deadline of the run
/// is said to bound the wait exactly where it does not come after the action's own.
pub proof fn waits_are_bounded(default_timeout_ms: u64, remaining_ms: u64)
    ensures
        runner::wait_for(default_timeout_ms, remaining_ms) matches StepDecision::Dispatch {
            timeout_ms,
            deadline_bound,
        } && {
            &&& timeout_ms <= default_timeout_ms
            &&& timeout_ms <= remaining_ms
            &&& timeout_ms == default_timeout_ms || timeout_ms == remaining_ms
            &&& deadline_bound <==> timeout_ms == remaining_ms
        },
{
}

/// What the history keeps of a message are its first 160 characters that are not control
/// characters; a plain message of up to 160 characters is kept as it is.
pub proof fn messages_are_kept_up_to_a_length(message: Seq<char>)
    ensures
        ({
            let plain = message.filter(
                |c: char| c as u32 > 0x1f && !(0x7f <= c as u32 <= 0x9f),
            );
            runner::redacted(message) == (if plain.len() <= 160 {
                plain
            } else {
                plain.take(160)
            })
        }),
        rituals::is_plain(message) && message.len() <= 160 ==> runner::redacted(message) == message,
{
    printable_is_filtered(message);
    if rituals::is_plain(message) {
        plain_is_printable(message);
    }
}

proof fn printable_is_filtered(message: Seq<char>)
    ensures
        runner::printable(message) == message.filter(
            |c: char| c as u32 > 0x1f && !(0x7f <= c as u32 <= 0x9f),
        ),
    decreases message.len(),
{
    reveal(Seq::filter);
    if message.len() > 0 {
        printable_is_filtered(message.drop_last());
    }
}

proof fn plain_is_printable(message: Seq<char>)
    requires
        rituals::is_plain(message),
    ensures
        runner::printable(message) == message,
    decreases message.len(),
{
    if message.len() > 0 {
        let rest = message.drop_last();
        assert forall|i: int| 0 <= i < rest.len() implies (#[trigger] rest[i]) as u32 > 0x1f && !(
        0x7f <= rest[i] as u32 <= 0x9f) by {
            assert(rest[i] == message[i]);
        }
        plain_is_printable(rest);
        assert(message[message.len() - 1] as u32 > 0x1f);
        assert(message =~= rest.push(message.last()));
    }
}

/// A step comes out as its adapter says.
pub proof fn steps_come_out_as_reported(status: AdapterActionStatus)
    ensures
        runner::status_of(status) == ExecutionStepStatus::Succeeded <==> status
            == AdapterActionStatus::Succeeded,
        runner::status_of(status) == ExecutionStepStatus::Skipped <==> status
            == AdapterActionStatus::Skipped,
        runner::status_of(status) == ExecutionStepStatus::Failed <==> status
            == AdapterActionStatus::Failed,
        runner::status_of(status).terminal(),
{
}

/// A run that stopped is partial exactly when some step had done what it should; one that
/// went through to its last step succeeded.
pub proof fn stopped_runs_are_partial_or_failed(run: Run)
    requires
        run.wf(),
    ensures
        run.phase == RunPhase::Ready ==> runner::outcome(run) == ExecutionStatus::Succeeded,
        run.phase != RunPhase::Ready ==> runner::outcome(run) == (if run.done > 0 {
            ExecutionStatus::Partial
        } else {
            ExecutionStatus::Failed
        }),
{
}

/// When a run ends, a step that succeeded, was skipped, failed or was aborted stays as it
/// is; one that was pending or running is aborted, for the time that ran out or for the
/// failure before it.
pub proof fn only_open_steps_are_aborted(
    after: ExecutionStep,
    before: ExecutionStep,
    timed_out: bool,
    finished: Timestamp,
)
    requires
        runner::closed(after, before, timed_out, finished),
    ensures
        before.status == ExecutionStepStatus::Succeeded || before.status
            == ExecutionStepStatus::Skipped || before.status == ExecutionStepStatus::Failed
            || before.status == ExecutionStepStatus::Aborted ==> after == before,
        before.status == ExecutionStepStatus::Pending || before.status
            == ExecutionStepStatus::Running ==> {
            &&& after.status == ExecutionStepStatus::Aborted
            &&& after.finished_at == Some(finished)
            &&& after.result_code is Some && after.result_code->0@ == (if timed_out {
                "ritual_timeout"@
            } else {
                "stopped_after_failure"@
            })
            &&& after.id == before.id && after.step_index == before.step_index
            &&& after.adapter_id == before.adapter_id
        },
{
}

/// The codes of the errors are all different.
pub proof fn error_codes_differ(a: AdapterDispatchErrorKind, b: AdapterDispatchErrorKind)
    requires
        a != b,
    ensures
        runner::error_code(a)@ != runner::error_code(b)@,
        runner::error_message(a)@ != runner::error_message(b)@,
{
    reveal_strlit("adapter_unavailable");
    reveal_strlit("capability_unavailable");
    reveal_strlit("action_timeout");
    reveal_strlit("adapter_disconnected");
    reveal_strlit("protocol_error");
    reveal_strlit("no adapter is connected");
    reveal_strlit("required capability is unavailable");
    reveal_strlit("adapter action timed out");
    reveal_strlit("adapter disconnected");
    reveal_strlit("adapter protocol error");
    assert("adapter_unavailable"@.len() == 19 && "capability_unavailable"@.len() == 22
        && "action_timeout"@.len() == 14 && "adapter_disconnected"@.len() == 20);
    assert("protocol_error"@.len() == 14 && "protocol_error"@[0] == 'p' && "action_timeout"@[0]
        == 'a');
    assert("no adapter is connected"@.len() == 23 && "required capability is unavailable"@.len()
        == 34 && "adapter action timed out"@.len() == 24 && "adapter disconnected"@.len() == 20
        && "adapter protocol error"@.len() == 22);
}

/// An adapter is told of exactly the resource that the action names: its identifier, and
/// the kind and the path under which it is registered. An action that names none needs
/// none, and one whose resource is not there is given up.
pub proof fn adapters_are_told_of_the_resource(
    action: ActionSpec,
    found: Result<Option<Resource>, StorageError>,
)
    ensures
        rituals::resource_of(action) is None ==> runner::resolution(action, found) is Ok
            && runner::resolution(action, found)->Ok_0 is None,
        rituals::resource_of(action) is Some && found is Ok && found->Ok_0 is Some ==> {
            let told = runner::resolution(action, found);
            &&& told is Ok && told->Ok_0 is Some
            &&& told->Ok_0->0.resource_id == rituals::resource_of(action)->0
            &&& told->Ok_0->0.kind == found->Ok_0->0.kind
            &&& told->Ok_0->0.canonical_locator == found->Ok_0->0.canonical_locator
        },
        rituals::resource_of(action) is Some && !(found is Ok && found->Ok_0 is Some)
            ==> runner::resolution(action, found) is Err && runner::resolution(
            action,
            found,
        )->Err_0.code@ == "resource_not_found"@,
{
}

/// A run starts out running, with one pending step for each action in its order, and with
/// nothing done.
pub proof fn runs_start_with_every_step_pending(
    run: Run,
    ritual_id: Uuid,
    version_id: Uuid,
    actions: Seq<ActionSpec>,
    execution_id: Uuid,
    step_ids: Seq<Uuid>,
    now: Timestamp,
    i: int,
)
    requires
        runner::is_started(run, ritual_id, version_id, actions, execution_id, step_ids, now),
        0 <= i < actions.len(),
    ensures
        run.phase == RunPhase::Ready,
        run.done == 0,
        run.execution.id == execution_id,
        run.execution.ritual_id == ritual_id,
        run.execution.ritual_version_id == version_id,
        run.execution.status == ExecutionStatus::Running,
        run.execution.started_at == now,
        run.execution.finished_at is None,
        run.execution.failure_code is None,
        run.steps@.len() == actions.len(),
        run.steps@[i].id == step_ids[i],
        run.steps@[i].execution_id == execution_id,
        run.steps@[i].step_index == i,
        run.steps@[i].action_type@ == actions[i].kind_name()@,
        run.steps@[i].status == ExecutionStepStatus::Pending,
        run.steps@[i].adapter_id is None,
        run.steps@[i].finished_at is None,
        run.steps@[i].result_code is None,
{
    assert(runner::is_planned(
        run.steps@[i],
        step_ids[i],
        execution_id,
        i,
        actions[i].kind_name()@,
        now,
    ));
}

/// The history tells by their codes what went wrong with an adapter.
pub proof fn errors_have_their_codes(kind: AdapterDispatchErrorKind)
    ensures
        runner::error_code(kind)@ == "action_timeout"@ <==> kind
            == AdapterDispatchErrorKind::Timeout,
        runner::error_code(kind)@ == "adapter_disconnected"@ <==> kind
            == AdapterDispatchErrorKind::Disconnected,
        runner::error_code(kind)@ == "adapter_unavailable"@ <==> kind
            == AdapterDispatchErrorKind::Unavailable,
        runner::error_code(kind)@ == "capability_unavailable"@ <==> kind
            == AdapterDispatchErrorKind::CapabilityUnavailable,
        runner::error_code(kind)@ == "protocol_error"@ <==> kind
            == AdapterDispatchErrorKind::Protocol,
{
    if kind != AdapterDispatchErrorKind::Timeout {
        error_codes_differ(kind, AdapterDispatchErrorKind::Timeout);
    }
    if kind != AdapterDispatchErrorKind::Disconnected {
        error_codes_differ(kind, AdapterDispatchErrorKind::Disconnected);
    }
    if kind != AdapterDispatchErrorKind::Unavailable {
        error_codes_differ(kind, AdapterDispatchErrorKind::Unavailable);
    }
    if kind != AdapterDispatchErrorKind::CapabilityUnavailable {
        error_codes_differ(kind, AdapterDispatchErrorKind::CapabilityUnavailable);
    }
    if kind != AdapterDispatchErrorKind::Protocol {
        error_codes_differ(kind, AdapterDispatchErrorKind::Protocol);
    }
}

/// A step did what it should exactly when it succeeded or was skipped, and is open exactly
/// while it is pending or running.
pub proof fn skipped_steps_did_well(step: ExecutionStep, status: ExecutionStatus)
    ensures
        runner::did_well(step) <==> step.status == ExecutionStepStatus::Succeeded || step.status
            == ExecutionStepStatus::Skipped,
        !step.status.terminal() <==> step.status == ExecutionStepStatus::Pending || step.status
            == ExecutionStepStatus::Running,
        !status.terminal() <==> status == ExecutionStatus::Planned || status
            == ExecutionStatus::Running,
{
}

/// A step that ended says who carried it out, how it came out and when, and is still the
/// same step.
pub proof fn ended_steps_say_how(
    after: ExecutionStep,
    before: ExecutionStep,
    status: ExecutionStepStatus,
    code: Seq<char>,
    message: Seq<char>,
    finished: Timestamp,
    identity: EligibleAdapter,
)
    ensures
        runner::ended(after, before, status, code, message, finished) ==> {
            &&& after.id == before.id
            &&& after.execution_id == before.execution_id
            &&& after.step_index == before.step_index
            &&& after.action_type == before.action_type
            &&& after.started_at == before.started_at
            &&& after.status == status
            &&& after.result_code is Some && after.result_code->0@ == code
            &&& after.redacted_message is Some && after.redacted_message->0@ == message
            &&& after.finished_at == Some(finished)
        },
        runner::names(after, Some(identity)) <==> after.adapter_id == Some(identity.adapter_id)
            && after.adapter_instance_id == Some(identity.instance_id),
        runner::names(after, None) <==> after.adapter_id is None && after.adapter_instance_id
            is None,
{
}

/// Whatever becomes of a run, it stays the run of its ritual and version.
pub proof fn runs_keep_their_ritual(after: Execution, before: Execution)
    ensures
        runner::same_execution(after, before) <==> after.id == before.id && after.ritual_id
            == before.ritual_id && after.ritual_version_id == before.ritual_version_id
            && after.trigger_kind == before.trigger_kind && after.started_at == before.started_at
            && after.created_at == before.created_at,
{
}

/// A run goes on to its next step exactly when the step before did not fail; a failed step
/// ends it, as partial where some step had done what it should.
pub proof fn runs_go_on_until_a_failure(after: Run, before: Run, status: AdapterActionStatus)
    requires
        before.wf(),
        after.wf(),
        runner::goes_on(after, before, status),
    ensures
        status == AdapterActionStatus::Succeeded || status == AdapterActionStatus::Skipped ==> {
            &&& after.phase == RunPhase::Ready
            &&& after.done == before.done + 1
            &&& after.execution == before.execution
        },
        status == AdapterActionStatus::Failed ==> {
            &&& after.phase == RunPhase::Failed
            &&& after.done == before.done
            &&& after.execution.status == (if before.done == 0 {
                ExecutionStatus::Failed
            } else {
                ExecutionStatus::Partial
            })
        },
{
}

/// A step without a result ends its run: by running out of time exactly where the deadline of
/// the run ended the wait, and by failing with the reason otherwise.
pub proof fn only_the_deadline_times_a_run_out(
    after: Run,
    before: Run,
    kind: AdapterDispatchErrorKind,
    deadline_bound: bool,
)
    requires
        before.wf(),
        after.wf(),
        runner::stops(after, before, kind, deadline_bound),
    ensures
        after.done == before.done,
        after.phase == RunPhase::TimedOut <==> kind == AdapterDispatchErrorKind::Timeout
            && deadline_bound,
        after.phase == RunPhase::TimedOut ==> after.execution.failure_code is Some
            && after.execution.failure_code->0@ == "ritual_timeout"@,
        after.phase != RunPhase::TimedOut ==> {
            &&& after.phase == RunPhase::Failed
            &&& after.execution.failure_code is Some
            &&& kind == AdapterDispatchErrorKind::Timeout ==> after.execution.failure_code->0@
                == "action_timeout"@
            &&& kind == AdapterDispatchErrorKind::Disconnected
                ==> after.execution.failure_code->0@ == "adapter_disconnected"@
        },
{
    errors_have_their_codes(kind);
}

} // verus!
