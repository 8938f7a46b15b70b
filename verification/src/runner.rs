//! How an execution proceeds: one step after the other, up to the first that fails or the
//! time that runs out.

use vstd::prelude::*;
use crate::adapter::{
    AdapterDispatchErrorKind, AdapterManager, DispatchedActionError, DispatchedActionResult,
    EligibleAdapter,
};
use crate::clock::Timestamp;
use crate::execution::{
    Execution, ExecutionStatus, ExecutionStep, ExecutionStepStatus, TriggerKind,
};
use crate::ids::Uuid;
use crate::lifecycle;
use crate::preview;
use crate::preview::{Rejection, ResourceFacts};
use crate::protocol::{AdapterActionStatus, ResolvedResource};
use crate::resource::Resource;
use crate::ritual::{
    ActionSpec, Approval, Ritual, RitualDefinition, RitualStatus, RitualVersion,
};
use crate::storage::StorageError;
use crate::text;

verus! {

pub const MAX_REDACTED_CHARS: usize = 160;

/// The characters of a text that are not control characters.
pub open spec fn printable(message: Seq<char>) -> Seq<char>
    decreases message.len(),
{
    if message.len() == 0 {
        Seq::empty()
    } else {
        let before = printable(message.drop_last());
        if text::is_control(message.last()) {
            before
        } else {
            before.push(message.last())
        }
    }
}

/// The part of a message that the history keeps.
pub open spec fn redacted(message: Seq<char>) -> Seq<char> {
    if printable(message).len() <= MAX_REDACTED_CHARS {
        printable(message)
    } else {
        printable(message).take(MAX_REDACTED_CHARS as int)
    }
}

proof fn printable_grows(message: Seq<char>, n: int)
    requires
        0 <= n <= message.len(),
    ensures
        printable(message.take(n)).len() <= printable(message).len(),
        printable(message).take(printable(message.take(n)).len() as int) == printable(
            message.take(n),
        ),
    decreases message.len() - n,
{
    if n < message.len() {
        printable_grows(message, n + 1);
        let longer = message.take(n + 1);
        assert(longer.drop_last() =~= message.take(n));
        let p = printable(message.take(n));
        let q = printable(longer);
        assert(p.len() <= q.len());
        assert(q.take(p.len() as int) =~= p);
        assert(printable(message).take(p.len() as int) =~= printable(message).take(
            q.len() as int,
        ).take(p.len() as int));
    } else {
        assert(message.take(n) =~= message);
        assert(printable(message).take(printable(message).len() as int) =~= printable(message));
    }
}

/// Shortens a message to what the history keeps.
pub fn redact_message(message: &str) -> (r: String)
    ensures
        r@ == redacted(message@),
{
    let mut kept: String = String::new();
    let mut count: usize = 0;
    proof {
        assert(message@.take(0) =~= Seq::<char>::empty());
    }
    for c in it: message.chars()
        invariant
            it.seq() == message@,
            kept@ == printable(message@.take(it.index())),
            count == kept@.len(),
            count <= MAX_REDACTED_CHARS,
    {
        let ghost n = it.index();
        proof {
            assert(message@.take(n + 1).drop_last() =~= message@.take(n));
            assert(message@.take(n + 1).last() == c);
        }
        if !text::control(c) {
            if count == MAX_REDACTED_CHARS {
                proof {
                    printable_grows(message@, n + 1);
                    printable_grows(message@, n);
                }
                return kept;
            }
            kept.push(c);
            count = count + 1;
        }
    }
    proof {
        assert(message@.take(message@.len() as int) =~= message@);
    }
    kept
}

/// What the history keeps of a message is short and holds no control character.
pub proof fn redacted_is_short_and_printable(message: Seq<char>)
    ensures
        redacted(message).len() <= MAX_REDACTED_CHARS,
        !text::has_control(redacted(message)),
{
    printable_has_no_control(message);
    assert forall|i: int| 0 <= i < redacted(message).len() implies !text::is_control(
        #[trigger] redacted(message)[i],
    ) by {
        assert(redacted(message)[i] == printable(message)[i]);
    }
}

proof fn printable_has_no_control(message: Seq<char>)
    ensures
        forall|i: int|
            0 <= i < printable(message).len() ==> !text::is_control(
                #[trigger] printable(message)[i],
            ),
    decreases message.len(),
{
    if message.len() > 0 {
        printable_has_no_control(message.drop_last());
        let before = printable(message.drop_last());
        assert forall|i: int| 0 <= i < printable(message).len() implies !text::is_control(
            #[trigger] printable(message)[i],
        ) by {
            if i < before.len() {
                assert(printable(message)[i] == before[i]);
            }
        }
    }
}

pub open spec fn error_code(kind: AdapterDispatchErrorKind) -> &'static str {
    match kind {
        AdapterDispatchErrorKind::Unavailable => "adapter_unavailable",
        AdapterDispatchErrorKind::CapabilityUnavailable => "capability_unavailable",
        AdapterDispatchErrorKind::Timeout => "action_timeout",
        AdapterDispatchErrorKind::Disconnected => "adapter_disconnected",
        AdapterDispatchErrorKind::Protocol => "protocol_error",
    }
}

pub open spec fn error_message(kind: AdapterDispatchErrorKind) -> &'static str {
    match kind {
        AdapterDispatchErrorKind::Unavailable => "no adapter is connected",
        AdapterDispatchErrorKind::CapabilityUnavailable => "required capability is unavailable",
        AdapterDispatchErrorKind::Timeout => "adapter action timed out",
        AdapterDispatchErrorKind::Disconnected => "adapter disconnected",
        AdapterDispatchErrorKind::Protocol => "adapter protocol error",
    }
}

pub fn dispatch_error_code(kind: AdapterDispatchErrorKind) -> (code: &'static str)
    ensures
        code == error_code(kind),
{
    match kind {
        AdapterDispatchErrorKind::Unavailable => "adapter_unavailable",
        AdapterDispatchErrorKind::CapabilityUnavailable => "capability_unavailable",
        AdapterDispatchErrorKind::Timeout => "action_timeout",
        AdapterDispatchErrorKind::Disconnected => "adapter_disconnected",
        AdapterDispatchErrorKind::Protocol => "protocol_error",
    }
}

pub fn dispatch_error_message(kind: AdapterDispatchErrorKind) -> (message: &'static str)
    ensures
        message == error_message(kind),
{
    match kind {
        AdapterDispatchErrorKind::Unavailable => "no adapter is connected",
        AdapterDispatchErrorKind::CapabilityUnavailable => "required capability is unavailable",
        AdapterDispatchErrorKind::Timeout => "adapter action timed out",
        AdapterDispatchErrorKind::Disconnected => "adapter disconnected",
        AdapterDispatchErrorKind::Protocol => "adapter protocol error",
    }
}

/// The state of a step that an action's result gives.
pub open spec fn status_of(status: AdapterActionStatus) -> ExecutionStepStatus {
    match status {
        AdapterActionStatus::Succeeded => ExecutionStepStatus::Succeeded,
        AdapterActionStatus::Skipped => ExecutionStepStatus::Skipped,
        AdapterActionStatus::Failed => ExecutionStepStatus::Failed,
    }
}

fn step_status(status: AdapterActionStatus) -> (r: ExecutionStepStatus)
    ensures
        r == status_of(status),
{
    match status {
        AdapterActionStatus::Succeeded => ExecutionStepStatus::Succeeded,
        AdapterActionStatus::Skipped => ExecutionStepStatus::Skipped,
        AdapterActionStatus::Failed => ExecutionStepStatus::Failed,
    }
}

/// A step that did what it should.
pub open spec fn did_well(step: ExecutionStep) -> bool {
    step.status == ExecutionStepStatus::Succeeded || step.status == ExecutionStepStatus::Skipped
}

/// Whether a text stands in an optional field.
pub open spec fn holds(field: Option<String>, value: Seq<char>) -> bool {
    field is Some && field->0@ == value
}

/// Two records of one step, apart from how it came out.
pub open spec fn same_step(after: ExecutionStep, before: ExecutionStep) -> bool {
    &&& after.id == before.id
    &&& after.execution_id == before.execution_id
    &&& after.step_index == before.step_index
    &&& after.action_type == before.action_type
    &&& after.started_at == before.started_at
}

/// Whether a step names the adapter that it was sent to, and none where there was none.
pub open spec fn names(step: ExecutionStep, identity: Option<EligibleAdapter>) -> bool {
    match identity {
        Some(identity) => step.adapter_id == Some(identity.adapter_id) && step.adapter_instance_id
            == Some(identity.instance_id),
        None => step.adapter_id is None && step.adapter_instance_id is None,
    }
}

/// Whether a record of a step is the one of its end.
pub open spec fn ended(
    after: ExecutionStep,
    before: ExecutionStep,
    status: ExecutionStepStatus,
    code: Seq<char>,
    message: Seq<char>,
    finished: Timestamp,
) -> bool {
    &&& same_step(after, before)
    &&& after.status == status
    &&& holds(after.result_code, code)
    &&& holds(after.redacted_message, message)
    &&& after.finished_at == Some(finished)
}

/// A step that was not begun.
pub open spec fn untouched(step: ExecutionStep) -> bool {
    &&& step.status == ExecutionStepStatus::Pending
    &&& step.adapter_id is None
    &&& step.adapter_instance_id is None
    &&& step.finished_at is None
    &&& step.result_code is None
    &&& step.redacted_message is None
}

#[derive(Clone, Copy, Debug, PartialEq, Eq, Structural)]
pub enum RunPhase {
    /// The next step may begin, or there is none left.
    Ready,
    /// A step was begun and has no result yet.
    Dispatched,
    /// A step failed; nothing more is begun.
    Failed,
    /// The time for the whole run is over; nothing more is begun.
    TimedOut,
}

/// An execution under way.
pub struct Run {
    pub execution: Execution,
    pub steps: Vec<ExecutionStep>,
    /// How many steps did what they should, which is also the place of the step under way.
    pub done: usize,
    pub phase: RunPhase,
}

impl Run {
    pub open spec fn wf(self) -> bool {
        &&& self.done <= self.steps@.len()
        &&& self.phase != RunPhase::Ready ==> self.done < self.steps@.len()
        &&& forall|i: int| 0 <= i < self.done ==> did_well(#[trigger] self.steps@[i])
        &&& forall|i: int| self.done < i < self.steps@.len() ==> untouched(#[trigger] self.steps@[i])
        &&& self.execution.finished_at is None
        &&& match self.phase {
            RunPhase::Ready => (self.done < self.steps@.len() ==> untouched(
                self.steps@[self.done as int],
            )) && self.execution.status == ExecutionStatus::Running
                && self.execution.failure_code is None,
            RunPhase::Dispatched => self.steps@[self.done as int].status
                == ExecutionStepStatus::Running && self.steps@[self.done as int].adapter_id is None
                && self.steps@[self.done as int].adapter_instance_id is None && self.execution.status
                == ExecutionStatus::Running && self.execution.failure_code is None,
            RunPhase::Failed => self.steps@[self.done as int].status
                == ExecutionStepStatus::Failed && self.execution.status == failure_status(
                self.done as int,
            ) && self.execution.failure_code is Some,
            RunPhase::TimedOut => !self.steps@[self.done as int].status.terminal()
                && self.execution.status == ExecutionStatus::Running && holds(
                self.execution.failure_code,
                "ritual_timeout"@,
            ),
        }
    }
}

/// What a run that stopped comes to: partial where something was done, failed where
/// nothing was.
pub open spec fn failure_status(done: int) -> ExecutionStatus {
    if done == 0 {
        ExecutionStatus::Failed
    } else {
        ExecutionStatus::Partial
    }
}

fn failed_status(done: usize) -> (r: ExecutionStatus)
    ensures
        r == failure_status(done as int),
{
    if done == 0 {
        ExecutionStatus::Failed
    } else {
        ExecutionStatus::Partial
    }
}

/// The records that all but the fields of an execution's outcome share.
pub open spec fn same_execution(after: Execution, before: Execution) -> bool {
    &&& after.id == before.id
    &&& after.ritual_id == before.ritual_id
    &&& after.ritual_version_id == before.ritual_version_id
    &&& after.trigger_kind == before.trigger_kind
    &&& after.started_at == before.started_at
    &&& after.created_at == before.created_at
}

/// Whether a step is the one that a run starts out with for the action at a place.
pub open spec fn is_planned(
    step: ExecutionStep,
    id: Uuid,
    execution_id: Uuid,
    index: int,
    action_type: Seq<char>,
    now: Timestamp,
) -> bool {
    &&& step.id == id
    &&& step.execution_id == execution_id
    &&& step.step_index == index
    &&& step.action_type@ == action_type
    &&& step.started_at == now
    &&& untouched(step)
}

/// Whether a run is the one that is planned for the actions of a ritual: running, with
/// one pending step for each action.
pub open spec fn is_started(
    run: Run,
    ritual_id: Uuid,
    version_id: Uuid,
    actions: Seq<ActionSpec>,
    execution_id: Uuid,
    step_ids: Seq<Uuid>,
    now: Timestamp,
) -> bool {
    &&& run.wf()
    &&& run.phase == RunPhase::Ready
    &&& run.done == 0
    &&& run.execution == (Execution {
        id: execution_id,
        ritual_id,
        ritual_version_id: version_id,
        status: ExecutionStatus::Running,
        trigger_kind: TriggerKind::Manual,
        started_at: now,
        finished_at: None,
        failure_code: None,
        created_at: now,
    })
    &&& run.steps@.len() == actions.len()
    &&& forall|i: int|
        0 <= i < run.steps@.len() ==> is_planned(
            #[trigger] run.steps@[i],
            step_ids[i],
            execution_id,
            i,
            actions[i].kind_name()@,
            now,
        )
}

/// Whether a run went on after a step with such a result, or stopped there.
pub open spec fn goes_on(after: Run, before: Run, status: AdapterActionStatus) -> bool {
    if status == AdapterActionStatus::Failed {
        after.phase == RunPhase::Failed && after.done == before.done
    } else {
        after.phase == RunPhase::Ready && after.done == before.done + 1 && after.execution
            == before.execution
    }
}

/// Whether a run stopped at a step that got no result: out of time where its own deadline
/// ended the wait, failed otherwise.
pub open spec fn stops(
    after: Run,
    before: Run,
    kind: AdapterDispatchErrorKind,
    deadline_bound: bool,
) -> bool {
    &&& after.done == before.done
    &&& if kind == AdapterDispatchErrorKind::Timeout && deadline_bound {
        after.phase == RunPhase::TimedOut
    } else {
        after.phase == RunPhase::Failed && holds(
            after.execution.failure_code,
            error_code(kind)@,
        )
    }
}

/// What to do next in a run.
#[derive(Clone, Copy, Debug, PartialEq, Eq, Structural)]
pub enum StepDecision {
    /// Send the action, and wait so long for its result. The deadline of the whole run
    /// may be what bounds the wait.
    Dispatch { timeout_ms: u64, deadline_bound: bool },
    /// Nothing is left to begin.
    Finish,
}

/// How long to wait for an action when so much of the run's time is left.
pub open spec fn wait_for(default_timeout_ms: u64, remaining_ms: u64) -> StepDecision {
    StepDecision::Dispatch {
        timeout_ms: if default_timeout_ms <= remaining_ms {
            default_timeout_ms
        } else {
            remaining_ms
        },
        deadline_bound: remaining_ms <= default_timeout_ms,
    }
}

impl Run {
    /// Plans the execution of a ritual: running, with one pending step for each action.
    pub fn start(
        ritual_id: Uuid,
        version_id: Uuid,
        definition: &RitualDefinition,
        execution_id: Uuid,
        step_ids: &Vec<Uuid>,
        now: Timestamp,
    ) -> (run: Run)
        requires
            step_ids@.len() == definition.actions@.len(),
            definition.actions@.len() <= u32::MAX,
        ensures
            is_started(
                run,
                ritual_id,
                version_id,
                definition.actions@,
                execution_id,
                step_ids@,
                now,
            ),
    {
        let mut steps: Vec<ExecutionStep> = Vec::new();
        for i in 0..definition.actions.len()
            invariant
                step_ids@.len() == definition.actions@.len(),
                definition.actions@.len() <= u32::MAX,
                steps@.len() == i,
                forall|j: int|
                    0 <= j < i ==> is_planned(
                        #[trigger] steps@[j],
                        step_ids@[j],
                        execution_id,
                        j,
                        definition.actions@[j].kind_name()@,
                        now,
                    ),
        {
            steps.push(
                ExecutionStep {
                    id: step_ids[i],
                    execution_id,
                    step_index: i as u32,
                    action_type: definition.actions[i].action_type().to_owned(),
                    status: ExecutionStepStatus::Pending,
                    adapter_id: None,
                    adapter_instance_id: None,
                    started_at: now,
                    finished_at: None,
                    result_code: None,
                    redacted_message: None,
                },
            );
        }
        Run {
            execution: Execution {
                id: execution_id,
                ritual_id,
                ritual_version_id: version_id,
                status: ExecutionStatus::Running,
                trigger_kind: TriggerKind::Manual,
                started_at: now,
                finished_at: None,
                failure_code: None,
                created_at: now,
            },
            steps,
            done: 0,
            phase: RunPhase::Ready,
        }
    }

    /// Begins the next step, unless none is left or the time is over.
    pub fn begin_step(
        &mut self,
        default_timeout_ms: u64,
        remaining_ms: u64,
        now: Timestamp,
    ) -> (decision: StepDecision)
        requires
            old(self).wf(),
            old(self).phase == RunPhase::Ready,
        ensures
            final(self).wf(),
            final(self).done == old(self).done,
            final(self).steps@.len() == old(self).steps@.len(),
            decision is Dispatch <==> old(self).done < old(self).steps@.len() && remaining_ms > 0,
            decision matches StepDecision::Dispatch { timeout_ms, .. } ==> timeout_ms
                <= default_timeout_ms && timeout_ms <= remaining_ms,
            if old(self).done == old(self).steps@.len() {
                decision == StepDecision::Finish && *final(self) == *old(self)
            } else if remaining_ms == 0 {
                &&& decision == StepDecision::Finish
                &&& final(self).phase == RunPhase::TimedOut
                &&& final(self).steps == old(self).steps
                &&& same_execution(final(self).execution, old(self).execution)
            } else {
                &&& decision == wait_for(default_timeout_ms, remaining_ms)
                &&& final(self).phase == RunPhase::Dispatched
                &&& final(self).execution == old(self).execution
                &&& final(self).steps@ == old(self).steps@.update(
                    old(self).done as int,
                    ExecutionStep {
                        status: ExecutionStepStatus::Running,
                        started_at: now,
                        ..old(self).steps@[old(self).done as int]
                    },
                )
            },
    {
        if self.done == self.steps.len() {
            return StepDecision::Finish;
        }
        if remaining_ms == 0 {
            self.execution.failure_code = Some("ritual_timeout".to_owned());
            self.phase = RunPhase::TimedOut;
            return StepDecision::Finish;
        }
        let at: usize = self.done;
        self.steps[at].status = ExecutionStepStatus::Running;
        self.steps[at].started_at = now;
        self.phase = RunPhase::Dispatched;
        StepDecision::Dispatch {
            timeout_ms: if default_timeout_ms <= remaining_ms {
                default_timeout_ms
            } else {
                remaining_ms
            },
            deadline_bound: remaining_ms <= default_timeout_ms,
        }
    }

    /// Takes in the result that an adapter gave for the step under way.
    pub fn take_result(&mut self, dispatched: DispatchedActionResult, finished: Timestamp)
        requires
            old(self).wf(),
            old(self).phase == RunPhase::Dispatched,
        ensures
            final(self).wf(),
            same_execution(final(self).execution, old(self).execution),
            final(self).steps@.len() == old(self).steps@.len(),
            forall|i: int|
                0 <= i < final(self).steps@.len() && i != old(self).done
                    ==> #[trigger] final(self).steps@[i] == old(self).steps@[i],
            ended(
                final(self).steps@[old(self).done as int],
                old(self).steps@[old(self).done as int],
                status_of(dispatched.result.status),
                dispatched.result.result_code@,
                redacted(dispatched.result.redacted_message@),
                finished,
            ),
            names(final(self).steps@[old(self).done as int], Some(dispatched.identity)),
            if dispatched.result.status == AdapterActionStatus::Failed {
                &&& final(self).phase == RunPhase::Failed
                &&& final(self).done == old(self).done
                &&& holds(final(self).execution.failure_code, "action_failed"@)
            } else {
                &&& final(self).phase == RunPhase::Ready
                &&& final(self).done == old(self).done + 1
                &&& final(self).execution == old(self).execution
            },
            goes_on(*final(self), *old(self), dispatched.result.status),
    {
        let at: usize = self.done;
        assert(at < self.steps.len());
        let message: String = redact_message(dispatched.result.redacted_message.as_str());
        let status = step_status(dispatched.result.status);
        self.steps[at].status = status;
        self.steps[at].adapter_id = Some(dispatched.identity.adapter_id);
        self.steps[at].adapter_instance_id = Some(dispatched.identity.instance_id);
        self.steps[at].result_code = Some(dispatched.result.result_code);
        self.steps[at].redacted_message = Some(message);
        self.steps[at].finished_at = Some(finished);
        if status == ExecutionStepStatus::Failed {
            self.execution.status = failed_status(at);
            self.execution.failure_code = Some("action_failed".to_owned());
            self.phase = RunPhase::Failed;
        } else {
            self.done = at + 1;
            self.phase = RunPhase::Ready;
        }
    }

    /// Takes in that the step under way got no result. Where the deadline of the whole run
    /// is what ended the wait, the run timed out; else the step failed.
    pub fn take_error(
        &mut self,
        error: DispatchedActionError,
        deadline_bound: bool,
        finished: Timestamp,
    )
        requires
            old(self).wf(),
            old(self).phase == RunPhase::Dispatched,
        ensures
            final(self).wf(),
            same_execution(final(self).execution, old(self).execution),
            final(self).done == old(self).done,
            final(self).steps@.len() == old(self).steps@.len(),
            forall|i: int|
                0 <= i < final(self).steps@.len() && i != old(self).done
                    ==> #[trigger] final(self).steps@[i] == old(self).steps@[i],
            names(final(self).steps@[old(self).done as int], error.identity),
            if error.kind == AdapterDispatchErrorKind::Timeout && deadline_bound {
                &&& final(self).phase == RunPhase::TimedOut
                &&& same_step(
                    final(self).steps@[old(self).done as int],
                    old(self).steps@[old(self).done as int],
                )
                &&& final(self).steps@[old(self).done as int].status == ExecutionStepStatus::Running
                &&& final(self).steps@[old(self).done as int] == (ExecutionStep {
                    adapter_id: final(self).steps@[old(self).done as int].adapter_id,
                    adapter_instance_id:
                        final(self).steps@[old(self).done as int].adapter_instance_id,
                    ..old(self).steps@[old(self).done as int]
                })
            } else {
                &&& final(self).phase == RunPhase::Failed
                &&& ended(
                    final(self).steps@[old(self).done as int],
                    old(self).steps@[old(self).done as int],
                    ExecutionStepStatus::Failed,
                    error_code(error.kind)@,
                    error_message(error.kind)@,
                    finished,
                )
                &&& holds(final(self).execution.failure_code, error_code(error.kind)@)
            },
            stops(*final(self), *old(self), error.kind, deadline_bound),
    {
        let at: usize = self.done;
        if let Some(identity) = error.identity {
            self.steps[at].adapter_id = Some(identity.adapter_id);
            self.steps[at].adapter_instance_id = Some(identity.instance_id);
        }
        if error.kind == AdapterDispatchErrorKind::Timeout && deadline_bound {
            self.execution.failure_code = Some("ritual_timeout".to_owned());
            self.phase = RunPhase::TimedOut;
            return ;
        }
        let code = dispatch_error_code(error.kind);
        self.steps[at].status = ExecutionStepStatus::Failed;
        self.steps[at].result_code = Some(code.to_owned());
        self.steps[at].redacted_message = Some(dispatch_error_message(error.kind).to_owned());
        self.steps[at].finished_at = Some(finished);
        self.execution.status = failed_status(at);
        self.execution.failure_code = Some(code.to_owned());
        self.phase = RunPhase::Failed;
    }

    /// Ends the run: every step that did not come to an end is aborted, and the execution
    /// says how it went.
    pub fn finish(&mut self, finished: Timestamp)
        requires
            old(self).wf(),
            old(self).phase != RunPhase::Dispatched,
            old(self).phase == RunPhase::Ready ==> old(self).done == old(self).steps@.len(),
        ensures
            same_execution(final(self).execution, old(self).execution),
            final(self).execution.failure_code == old(self).execution.failure_code,
            final(self).execution.finished_at == Some(finished),
            final(self).execution.status == outcome(*old(self)),
            final(self).done == old(self).done,
            final(self).phase == old(self).phase,
            final(self).steps@.len() == old(self).steps@.len(),
            forall|i: int|
                0 <= i < final(self).steps@.len() ==> closed(
                    #[trigger] final(self).steps@[i],
                    old(self).steps@[i],
                    old(self).phase == RunPhase::TimedOut,
                    finished,
                ),
    {
        let (code, message): (&'static str, &'static str) = if self.phase == RunPhase::TimedOut {
            ("ritual_timeout", "ritual timed out")
        } else {
            ("stopped_after_failure", "stopped after failure")
        };
        let ghost before = self.steps@;
        let ghost timed_out = self.phase == RunPhase::TimedOut;
        let ghost execution = self.execution;
        let ghost done = self.done;
        let ghost phase = self.phase;
        let mut i: usize = 0;
        while i < self.steps.len()
            invariant
                self.execution == execution,
                self.done == done,
                self.phase == phase,
                code@ == closing_code(timed_out)@,
                message@ == closing_message(timed_out)@,
                i <= before.len(),
                self.steps@.len() == before.len(),
                forall|j: int|
                    0 <= j < i ==> closed(#[trigger] self.steps@[j], before[j], timed_out, finished),
                forall|j: int| i <= j < before.len() ==> #[trigger] self.steps@[j] == before[j],
            decreases before.len() - i,
        {
            let open: bool = match self.steps[i].status {
                ExecutionStepStatus::Pending | ExecutionStepStatus::Running => true,
                _ => false,
            };
            if open {
                self.steps[i].status = ExecutionStepStatus::Aborted;
                self.steps[i].finished_at = Some(finished);
                self.steps[i].result_code = Some(code.to_owned());
                self.steps[i].redacted_message = Some(message.to_owned());
            }
            i = i + 1;
        }
        if self.phase == RunPhase::TimedOut {
            self.execution.status = failed_status(self.done);
        } else if self.phase == RunPhase::Ready {
            self.execution.status = ExecutionStatus::Succeeded;
        }
        self.execution.finished_at = Some(finished);
    }
}

/// Why a ritual may not run now, if anything stands in its way: its state first, then the
/// first of its actions that may not run.
pub open spec fn start_fault(
    ritual: Ritual,
    version: RitualVersion,
    actions: Seq<ActionSpec>,
    approvals: Seq<Approval>,
    adapters: AdapterManager,
    facts: Seq<ResourceFacts>,
) -> Option<Rejection> {
    match lifecycle::run_gate(ritual.status) {
        Err(rejection) => Some(rejection),
        Ok(_) => preview::first_fault(
            adapters.connections@,
            approvals,
            version,
            actions,
            facts,
            0,
        ),
    }
}

/// Starts a ritual that is active and whose actions may all run. Every other is refused
/// for the first reason that there is.
pub fn start_run(
    ritual: &Ritual,
    version: &RitualVersion,
    definition: &RitualDefinition,
    approvals: &Vec<Approval>,
    adapters: &AdapterManager,
    facts: &Vec<ResourceFacts>,
    execution_id: Uuid,
    step_ids: &Vec<Uuid>,
    now: Timestamp,
) -> (r: Result<Run, Rejection>)
    requires
        facts@.len() == definition.actions@.len(),
        step_ids@.len() == definition.actions@.len(),
        definition.actions@.len() <= u32::MAX,
    ensures
        match start_fault(
            *ritual,
            *version,
            definition.actions@,
            approvals@,
            *adapters,
            facts@,
        ) {
            Some(rejection) => r == Err::<Run, Rejection>(rejection),
            None => r is Ok && is_started(
                r->Ok_0,
                ritual.id,
                version.id,
                definition.actions@,
                execution_id,
                step_ids@,
                now,
            ),
        },
{
    if let Err(rejection) = lifecycle::require_active(ritual.status) {
        return Err(rejection);
    }
    if let Err(rejection) = preview::preflight(version, definition, approvals, adapters, facts) {
        return Err(rejection);
    }
    Ok(Run::start(ritual.id, version.id, definition, execution_id, step_ids, now))
}

/// What the adapter of a step is told of the resource that the action names, where it
/// names one. A resource that could not be found or read is the reason for which the whole
/// run is given up.
pub open spec fn resolution(
    action: ActionSpec,
    found: Result<Option<Resource>, StorageError>,
) -> Result<Option<ResolvedResource>, Rejection> {
    match (lifecycle::named_resource(action), found) {
        (None, _) => Ok(None),
        (Some(resource_id), Ok(Some(resource))) => Ok(
            Some(
                ResolvedResource {
                    resource_id,
                    kind: resource.kind,
                    canonical_locator: resource.canonical_locator,
                },
            ),
        ),
        (Some(_), _) => Err(
            Rejection { code: "resource_not_found", message: "resource was not found" },
        ),
    }
}

pub fn resolve_step(action: &ActionSpec, found: Result<Option<Resource>, StorageError>) -> (r:
    Result<Option<ResolvedResource>, Rejection>)
    ensures
        r == resolution(*action, found),
{
    let resource_id = match lifecycle::action_resource(action) {
        None => return Ok(None),
        Some(resource_id) => resource_id,
    };
    match found {
        Ok(Some(resource)) => Ok(
            Some(
                ResolvedResource {
                    resource_id,
                    kind: resource.kind,
                    canonical_locator: resource.canonical_locator,
                },
            ),
        ),
        _ => Err(Rejection { code: "resource_not_found", message: "resource was not found" }),
    }
}

pub open spec fn closing_code(timed_out: bool) -> &'static str {
    if timed_out {
        "ritual_timeout"
    } else {
        "stopped_after_failure"
    }
}

pub open spec fn closing_message(timed_out: bool) -> &'static str {
    if timed_out {
        "ritual timed out"
    } else {
        "stopped after failure"
    }
}

/// A step after its run ended: as it was where it had come to an end, aborted otherwise.
pub open spec fn closed(
    after: ExecutionStep,
    before: ExecutionStep,
    timed_out: bool,
    finished: Timestamp,
) -> bool {
    if before.status.terminal() {
        after == before
    } else {
        &&& ended(
            after,
            before,
            ExecutionStepStatus::Aborted,
            closing_code(timed_out)@,
            closing_message(timed_out)@,
            finished,
        )
        &&& after.adapter_id == before.adapter_id
        &&& after.adapter_instance_id == before.adapter_instance_id
    }
}

/// What a run comes to.
pub open spec fn outcome(run: Run) -> ExecutionStatus {
    if run.phase == RunPhase::Ready {
        ExecutionStatus::Succeeded
    } else {
        failure_status(run.done as int)
    }
}

/// Exactly the active rituals start whose actions are all unobstructed and approved.
pub proof fn only_approved_rituals_start(
    ritual: Ritual,
    version: RitualVersion,
    actions: Seq<ActionSpec>,
    approvals: Seq<Approval>,
    adapters: AdapterManager,
    facts: Seq<ResourceFacts>,
)
    requires
        facts.len() == actions.len(),
    ensures
        start_fault(ritual, version, actions, approvals, adapters, facts) is None <==> {
            &&& ritual.status == RitualStatus::Active
            &&& preview::unobstructed(adapters.connections@, actions, facts)
            &&& forall|i: int|
                0 <= i < actions.len() ==> preview::is_approved(
                    approvals,
                    version,
                    #[trigger] actions[i],
                )
        },
{
    preview::preview_agrees_with_preflight(
        adapters.connections@,
        approvals,
        version,
        actions,
        facts,
    );
}

/// When a run has ended, the execution and every one of its steps have come to an end.
pub proof fn ended_run_leaves_nothing_open(
    before: Run,
    after: Run,
    finished: Timestamp,
    i: int,
)
    requires
        before.wf(),
        0 <= i < after.steps@.len(),
        after.steps@.len() == before.steps@.len(),
        after.execution.status == outcome(before),
        closed(
            after.steps@[i],
            before.steps@[i],
            before.phase == RunPhase::TimedOut,
            finished,
        ),
    ensures
        after.execution.status.terminal(),
        after.steps@[i].status.terminal(),
{
}

/// A run that ended succeeded exactly when every step did what it should, is partial
/// exactly when the first step did and some other did not, and failed otherwise.
pub proof fn outcome_follows_the_steps(before: Run, after: Run, finished: Timestamp)
    requires
        before.wf(),
        before.steps@.len() > 0,
        before.phase != RunPhase::Dispatched,
        before.phase == RunPhase::Ready ==> before.done == before.steps@.len(),
        after.steps@.len() == before.steps@.len(),
        after.execution.status == outcome(before),
        forall|i: int|
            0 <= i < after.steps@.len() ==> closed(
                #[trigger] after.steps@[i],
                before.steps@[i],
                before.phase == RunPhase::TimedOut,
                finished,
            ),
    ensures
        after.execution.status == ExecutionStatus::Succeeded <==> forall|i: int|
            0 <= i < after.steps@.len() ==> did_well(#[trigger] after.steps@[i]),
        after.execution.status == ExecutionStatus::Failed <==> !did_well(after.steps@[0]),
{
    assert(closed(
        after.steps@[0],
        before.steps@[0],
        before.phase == RunPhase::TimedOut,
        finished,
    ));
    if before.phase == RunPhase::Ready {
        assert forall|i: int| 0 <= i < after.steps@.len() implies did_well(
            #[trigger] after.steps@[i],
        ) by {
            assert(did_well(before.steps@[i]));
        }
    } else {
        let at = before.done as int;
        assert(closed(
            after.steps@[at],
            before.steps@[at],
            before.phase == RunPhase::TimedOut,
            finished,
        ));
        assert(!did_well(after.steps@[at]));
        if at > 0 {
            assert(did_well(before.steps@[0]));
        }
    }
}

/// Once a step failed or the time ran out, no later step was ever begun: each is aborted
/// and names no adapter.
pub proof fn nothing_runs_after_a_failure(before: Run, after: Run, finished: Timestamp, i: int)
    requires
        before.wf(),
        before.phase == RunPhase::Failed || before.phase == RunPhase::TimedOut,
        before.done < i < before.steps@.len(),
        closed(
            after.steps@[i],
            before.steps@[i],
            before.phase == RunPhase::TimedOut,
            finished,
        ),
    ensures
        after.steps@[i].status == ExecutionStepStatus::Aborted,
        after.steps@[i].adapter_id is None,
        after.steps@[i].adapter_instance_id is None,
        holds(after.steps@[i].result_code, closing_code(before.phase == RunPhase::TimedOut)@),
{
    assert(untouched(before.steps@[i]));
}

} // verus!
