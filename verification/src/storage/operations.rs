//! What the operations of the store decide.

use vstd::prelude::*;
use crate::clock::Timestamp;
use crate::execution::{Execution, ExecutionStatus, ExecutionStep, ExecutionStepStatus};
use crate::ids::Uuid;
use crate::mining::{DiscoveryRun, DiscoveryRunStatus, SuggestionStatus, ALGORITHM_VERSION};
use crate::order;
use crate::resource::{ObservationScope, ObservationStatus, ResourceKind};
use crate::ritual::{Ritual, RitualStatus};
use crate::storage::{StorageError, DISCOVERY_EVENT_SCAN_LIMIT, PUBLIC_EVENT_LIST_LIMIT};

verus! {

/// The most suggestions that may wait for an answer at a time.
pub const MAX_PENDING_SUGGESTIONS: u64 = 5;

/// How far back a discovery looks.
pub const DISCOVERY_WINDOW_SECONDS: i64 = 2_592_000;

/// How long a new suggestion keeps others away.
pub const SUGGESTION_PAUSE_SECONDS: i64 = 86_400;

pub const RESTART_CODE: &'static str = "daemon_restarted";

pub const RESTART_MESSAGE: &'static str = "execution aborted because daemon restarted";

/// A limit that is asked for, where another may not be passed.
pub open spec fn at_most(limit: u32, maximum: u32) -> u32 {
    if limit < maximum {
        limit
    } else {
        maximum
    }
}

/// How many events a public listing asks for.
pub fn event_list_limit(limit: u32) -> (r: u32)
    ensures
        r == (if limit < PUBLIC_EVENT_LIST_LIMIT {
            limit
        } else {
            PUBLIC_EVENT_LIST_LIMIT
        }),
        r == at_most(limit, PUBLIC_EVENT_LIST_LIMIT),
{
    if limit < PUBLIC_EVENT_LIST_LIMIT {
        limit
    } else {
        PUBLIC_EVENT_LIST_LIMIT
    }
}

/// How many events the discovery asks for.
pub fn discovery_scan_limit(limit: u32) -> (r: u32)
    ensures
        r == (if limit < DISCOVERY_EVENT_SCAN_LIMIT {
            limit
        } else {
            DISCOVERY_EVENT_SCAN_LIMIT
        }),
        r == at_most(limit, DISCOVERY_EVENT_SCAN_LIMIT),
{
    if limit < DISCOVERY_EVENT_SCAN_LIMIT {
        limit
    } else {
        DISCOVERY_EVENT_SCAN_LIMIT
    }
}

/// Whether a discovery saw all events when it was given so many.
pub open spec fn saw_all(count: int) -> bool {
    count < DISCOVERY_EVENT_SCAN_LIMIT
}

/// A discovery takes fewer events than it asked for, so that it knows it saw them all.
pub fn discovery_input_size(count: usize) -> (r: Result<u32, StorageError>)
    ensures
        r == (if count < DISCOVERY_EVENT_SCAN_LIMIT {
            Ok(count as u32)
        } else {
            Err(StorageError::DiscoveryInputTooLarge)
        }),
        r is Ok <==> saw_all(count as int),
{
    if count < DISCOVERY_EVENT_SCAN_LIMIT as usize {
        Ok(count as u32)
    } else {
        Err(StorageError::DiscoveryInputTooLarge)
    }
}

/// Where an insertion can meet a record that is already there.
#[derive(Clone, Copy, Debug, PartialEq, Eq, Structural)]
pub enum UniqueRecord {
    Event,
    Resource,
    ExecutionLock,
}

/// The error for an insertion that met a record that is already there.
pub open spec fn conflict(record: UniqueRecord) -> StorageError {
    match record {
        UniqueRecord::Event => StorageError::DuplicateEvent,
        UniqueRecord::Resource => StorageError::DuplicateResource,
        UniqueRecord::ExecutionLock => StorageError::RitualAlreadyRunning,
    }
}

pub fn conflict_error(record: UniqueRecord) -> (error: StorageError)
    ensures
        error == conflict(record),
{
    match record {
        UniqueRecord::Event => StorageError::DuplicateEvent,
        UniqueRecord::Resource => StorageError::DuplicateResource,
        UniqueRecord::ExecutionLock => StorageError::RitualAlreadyRunning,
    }
}

/// An update that changed no row had no record to change.
pub fn require_changed(changed: usize) -> (r: Result<(), StorageError>)
    ensures
        r == (if changed == 0 {
            Err(StorageError::NotFound)
        } else {
            Ok(())
        }),
{
    if changed == 0 {
        Err(StorageError::NotFound)
    } else {
        Ok(())
    }
}

// Observation scopes

/// What is written to make sure that a scope is observed.
#[derive(Clone, Copy, Debug, PartialEq, Eq, Structural)]
pub enum ScopeWrite {
    /// The scope is there: it is activated and updated.
    Update(ObservationScope),
    /// The scope is new.
    Insert(ObservationScope),
}

pub open spec fn ensured_scope(
    existing: Option<ObservationScope>,
    scope: ObservationScope,
) -> ScopeWrite {
    match existing {
        Some(known) => ScopeWrite::Update(
            ObservationScope {
                status: ObservationStatus::Active,
                updated_at: scope.updated_at,
                ..known
            },
        ),
        None => ScopeWrite::Insert(scope),
    }
}

/// Enables a scope: one that is known for the same source and resource keeps its
/// identity and is active again.
pub fn ensure_observation_scope(
    existing: Option<ObservationScope>,
    scope: ObservationScope,
) -> (write: ScopeWrite)
    ensures
        write == ensured_scope(existing, scope),
{
    match existing {
        Some(known) => ScopeWrite::Update(
            ObservationScope {
                id: known.id,
                source: known.source,
                resource_id: known.resource_id,
                status: ObservationStatus::Active,
                created_at: known.created_at,
                updated_at: scope.updated_at,
            },
        ),
        None => ScopeWrite::Insert(scope),
    }
}

/// The scope after a pause, and whether there is anything to write.
pub open spec fn paused_scope(scope: ObservationScope, now: Timestamp) -> (ObservationScope, bool) {
    if scope.status == ObservationStatus::Active {
        (ObservationScope { status: ObservationStatus::Paused, updated_at: now, ..scope }, true)
    } else {
        (scope, false)
    }
}

/// Pauses a scope. One that is paused stays as it is.
pub fn pause_observation_scope(existing: Option<ObservationScope>, now: Timestamp) -> (r: Result<
    (ObservationScope, bool),
    StorageError,
>)
    ensures
        r == (match existing {
            Some(scope) => Ok(paused_scope(scope, now)),
            None => Err(StorageError::NotFound),
        }),
{
    match existing {
        Some(scope) => if scope.status == ObservationStatus::Active {
            Ok(
                (
                    ObservationScope {
                        id: scope.id,
                        source: scope.source,
                        resource_id: scope.resource_id,
                        status: ObservationStatus::Paused,
                        created_at: scope.created_at,
                        updated_at: now,
                    },
                    true,
                ),
            )
        } else {
            Ok((scope, false))
        },
        None => Err(StorageError::NotFound),
    }
}

/// Pausing is idempotent: a second pause, at whatever time, answers as the first and
/// writes nothing.
pub proof fn pausing_is_idempotent(scope: ObservationScope, first: Timestamp, second: Timestamp)
    ensures
        paused_scope(paused_scope(scope, first).0, second) == (
            paused_scope(scope, first).0,
            false,
        ),
        paused_scope(scope, first).0.status == ObservationStatus::Paused,
{
}

/// Enabling a paused scope makes it active again and keeps its identity.
pub proof fn enabling_undoes_a_pause(
    scope: ObservationScope,
    paused_at: Timestamp,
    request: ObservationScope,
)
    ensures
        ensured_scope(Some(paused_scope(scope, paused_at).0), request) == ScopeWrite::Update(
            ObservationScope {
                status: ObservationStatus::Active,
                updated_at: request.updated_at,
                ..scope
            },
        ),
{
}

// Discovery runs

/// Only one discovery runs at a time.
pub fn start_discovery_run(running: u64) -> (r: Result<(), StorageError>)
    ensures
        r == (if running > 0 {
            Err(StorageError::DiscoveryAlreadyRunning)
        } else {
            Ok(())
        }),
{
    if running > 0 {
        Err(StorageError::DiscoveryAlreadyRunning)
    } else {
        Ok(())
    }
}

/// The run that a request for a discovery starts.
pub fn new_discovery_run(id: Uuid, events: u32, now: Timestamp) -> (run: DiscoveryRun)
    ensures
        run.id == id,
        run.algorithm_version@ == ALGORITHM_VERSION@,
        run.status == DiscoveryRunStatus::Running,
        run.started_at == now,
        run.finished_at is None,
        run.input_event_count == events,
        run.sessions_upserted == 0,
        run.candidates_evaluated == 0,
        run.suggestions_created == 0,
        run.failure_code is None,
{
    DiscoveryRun {
        id,
        algorithm_version: ALGORITHM_VERSION.to_owned(),
        status: DiscoveryRunStatus::Running,
        started_at: now,
        finished_at: None,
        input_event_count: events,
        sessions_upserted: 0,
        candidates_evaluated: 0,
        suggestions_created: 0,
        failure_code: None,
    }
}

/// The time that lies `seconds` before another, or as far back as a time can be held.
pub open spec fn before(now: Timestamp, seconds: i64) -> Timestamp {
    Timestamp {
        unix_seconds: if now.unix_seconds - seconds >= i64::MIN {
            (now.unix_seconds - seconds) as i64
        } else {
            i64::MIN
        },
        ..now
    }
}

fn step_back(now: Timestamp, seconds: i64) -> (since: Timestamp)
    requires
        0 <= seconds,
    ensures
        since == before(now, seconds),
{
    match now.plus_seconds(-seconds) {
        Some(since) => since,
        None => Timestamp {
            unix_seconds: i64::MIN,
            nanosecond: now.nanosecond,
            offset_seconds: now.offset_seconds,
        },
    }
}

/// The time from which on events take part in a discovery: thirty days before now.
pub fn discovery_window_start(now: Timestamp) -> (since: Timestamp)
    ensures
        since == before(now, DISCOVERY_WINDOW_SECONDS),
{
    step_back(now, DISCOVERY_WINDOW_SECONDS)
}

/// The time from which on a suggestion counts as new: a day before now.
pub fn suggestion_cutoff(now: Timestamp) -> (cutoff: Timestamp)
    ensures
        cutoff == before(now, SUGGESTION_PAUSE_SECONDS),
{
    step_back(now, SUGGESTION_PAUSE_SECONDS)
}

/// How a run that is still going is ended from outside: a failure of its own or a restart.
pub open spec fn is_run_ended(
    after: DiscoveryRun,
    before: DiscoveryRun,
    status: DiscoveryRunStatus,
    code: Seq<char>,
    finished_at: Timestamp,
) -> bool {
    if before.status == DiscoveryRunStatus::Running {
        &&& after.failure_code is Some && after.failure_code->0@ == code
        &&& after == (DiscoveryRun {
            status,
            finished_at: Some(finished_at),
            failure_code: after.failure_code,
            ..before
        })
    } else {
        after == before
    }
}

/// Marks a running discovery as failed; one that is over keeps its outcome.
pub fn fail_discovery_run(run: DiscoveryRun, failure_code: String, finished_at: Timestamp) -> (after:
    DiscoveryRun)
    ensures
        is_run_ended(after, run, DiscoveryRunStatus::Failed, failure_code@, finished_at),
{
    if run.status == DiscoveryRunStatus::Running {
        let mut after = run;
        after.status = DiscoveryRunStatus::Failed;
        after.finished_at = Some(finished_at);
        after.failure_code = Some(failure_code);
        after
    } else {
        run
    }
}

/// Marks a running discovery as aborted by a restart.
pub fn abort_discovery_run(run: DiscoveryRun, now: Timestamp) -> (after: DiscoveryRun)
    ensures
        is_run_ended(after, run, DiscoveryRunStatus::Aborted, RESTART_CODE@, now),
{
    if run.status == DiscoveryRunStatus::Running {
        let mut after = run;
        after.status = DiscoveryRunStatus::Aborted;
        after.finished_at = Some(now);
        after.failure_code = Some(RESTART_CODE.to_owned());
        after
    } else {
        run
    }
}

/// Closes a discovery that went through.
pub fn complete_discovery_run(
    run: DiscoveryRun,
    sessions: u32,
    created: u32,
    finished_at: Timestamp,
) -> (after: DiscoveryRun)
    ensures
        after == (DiscoveryRun {
            status: DiscoveryRunStatus::Succeeded,
            finished_at: Some(finished_at),
            sessions_upserted: sessions,
            suggestions_created: created,
            ..run
        }),
{
    let mut after = run;
    after.status = DiscoveryRunStatus::Succeeded;
    after.finished_at = Some(finished_at);
    after.sessions_upserted = sessions;
    after.suggestions_created = created;
    after
}

// Suggestions

/// What the admission of new suggestions looks at in those that are stored. Times stand
/// as they are stored, and are compared as text.
#[derive(Debug, PartialEq, Eq)]
pub struct SuggestionState {
    pub status: SuggestionStatus,
    pub snoozed_until: Option<String>,
    pub created_at: String,
}

/// Whether the text `a` sorts before the text `b`.
pub open spec fn sorts_before(a: Seq<char>, b: Seq<char>) -> bool {
    order::lex_before(order::code_points(a), order::code_points(b))
}

/// A suggestion that was put off comes back once its time is over.
pub open spec fn wakes(state: SuggestionState, now: Seq<char>) -> bool {
    &&& state.status == SuggestionStatus::Snoozed || state.status == SuggestionStatus::Dismissed
    &&& state.snoozed_until matches Some(until) && !sorts_before(now, until@)
}

pub fn snooze_is_over(state: &SuggestionState, now: &str) -> (r: bool)
    ensures
        r == wakes(*state, now@),
{
    match state.status {
        SuggestionStatus::Snoozed | SuggestionStatus::Dismissed => match &state.snoozed_until {
            Some(until) => !order::text_before(now, until.as_str()),
            None => false,
        },
        _ => false,
    }
}

/// Whether the suggestion waits for an answer, after those whose time is over have come
/// back.
pub open spec fn is_pending(state: SuggestionState, now: Seq<char>) -> bool {
    state.status == SuggestionStatus::Pending || wakes(state, now)
}

pub open spec fn pending_count(states: Seq<SuggestionState>, now: Seq<char>) -> nat
    decreases states.len(),
{
    if states.len() == 0 {
        0
    } else {
        pending_count(states.drop_last(), now) + if is_pending(states.last(), now) {
            1nat
        } else {
            0nat
        }
    }
}

pub open spec fn has_recent(states: Seq<SuggestionState>, cutoff: Seq<char>) -> bool {
    exists|i: int|
        0 <= i < states.len() && !sorts_before((#[trigger] states[i]).created_at@, cutoff)
}

/// What becomes of a suggestion that a discovery hands in.
#[derive(Clone, Copy, Debug, PartialEq, Eq, Structural)]
pub enum SuggestionWrite {
    /// It is new and there is room for it.
    Create,
    /// It is known: its evidence is brought up to date and its status kept.
    Refresh,
    /// It is new but has to wait.
    Skip,
}

/// How much room there is for new suggestions.
#[derive(Clone, Copy, Debug, PartialEq, Eq, Structural)]
pub struct Admission {
    pub pending: u64,
    pub recent: bool,
    pub created: u32,
}

impl Admission {
    /// Counts what is stored: those that wait, and whether one was created since the
    /// cutoff.
    pub fn from_states(states: &Vec<SuggestionState>, now: &str, cutoff: &str) -> (r: Admission)
        ensures
            r.pending == pending_count(states@, now@),
            r.recent == has_recent(states@, cutoff@),
            r.created == 0,
    {
        let mut pending: u64 = 0;
        let mut recent: bool = false;
        for i in 0..states.len()
            invariant
                pending == pending_count(states@.take(i as int), now@),
                pending <= i,
                recent == has_recent(states@.take(i as int), cutoff@),
        {
            proof {
                assert(states@.take(i + 1).drop_last() =~= states@.take(i as int));
                assert(states@.take(i + 1).last() == states@[i as int]);
            }
            let waits: bool = states[i].status == SuggestionStatus::Pending || snooze_is_over(
                &states[i],
                now,
            );
            if waits {
                pending = pending + 1;
            }
            let is_recent: bool = !order::text_before(states[i].created_at.as_str(), cutoff);
            proof {
                let shorter = states@.take(i as int);
                let longer = states@.take(i + 1);
                if has_recent(shorter, cutoff@) {
                    let k = choose|k: int|
                        0 <= k < shorter.len() && !sorts_before(
                            (#[trigger] shorter[k]).created_at@,
                            cutoff@,
                        );
                    assert(!sorts_before(longer[k].created_at@, cutoff@));
                }
                if has_recent(longer, cutoff@) {
                    let k = choose|k: int|
                        0 <= k < longer.len() && !sorts_before(
                            (#[trigger] longer[k]).created_at@,
                            cutoff@,
                        );
                    if k < i {
                        assert(!sorts_before(shorter[k].created_at@, cutoff@));
                    }
                }
                if is_recent {
                    assert(!sorts_before(longer[i as int].created_at@, cutoff@));
                }
            }
            recent = recent || is_recent;
        }
        proof {
            assert(states@.take(states@.len() as int) =~= states@);
        }
        Admission { pending, recent, created: 0 }
    }

    /// The decision on the next suggestion.
    pub open spec fn decision(self, known: bool) -> SuggestionWrite {
        if known {
            SuggestionWrite::Refresh
        } else if self.recent || self.pending >= MAX_PENDING_SUGGESTIONS {
            SuggestionWrite::Skip
        } else {
            SuggestionWrite::Create
        }
    }

    pub open spec fn after(self, known: bool) -> Admission {
        if self.decision(known) == SuggestionWrite::Create {
            Admission {
                pending: (self.pending + 1) as u64,
                recent: true,
                created: (self.created + 1) as u32,
            }
        } else {
            self
        }
    }

    /// Decides on one suggestion: one that is not known yet is created only while no
    /// other was created of late and fewer than five wait.
    pub fn consider(&mut self, known: bool) -> (write: SuggestionWrite)
        requires
            old(self).created < u32::MAX,
        ensures
            write == old(self).decision(known),
            *final(self) == old(self).after(known),
    {
        if known {
            SuggestionWrite::Refresh
        } else if self.recent || self.pending >= MAX_PENDING_SUGGESTIONS {
            SuggestionWrite::Skip
        } else {
            self.pending = self.pending + 1;
            self.recent = true;
            self.created = self.created + 1;
            SuggestionWrite::Create
        }
    }
}

/// The room that is left after a number of suggestions were decided on.
pub open spec fn admitted(start: Admission, known: Seq<bool>) -> Admission
    decreases known.len(),
{
    if known.len() == 0 {
        start
    } else {
        admitted(start, known.drop_last()).after(known.last())
    }
}

/// One discovery creates at most one suggestion, none where one was created of late, and
/// never lets more than five wait.
pub proof fn admission_is_bounded(start: Admission, known: Seq<bool>)
    requires
        start.created == 0,
    ensures
        admitted(start, known).created <= 1,
        start.recent ==> admitted(start, known).recent && admitted(start, known).created == 0,
        start.pending >= MAX_PENDING_SUGGESTIONS ==> admitted(start, known).created == 0,
        admitted(start, known).pending == start.pending + admitted(start, known).created,
        start.pending <= MAX_PENDING_SUGGESTIONS ==> admitted(start, known).pending
            <= MAX_PENDING_SUGGESTIONS,
        admitted(start, known).created > 0 ==> admitted(start, known).recent,
    decreases known.len(),
{
    if known.len() > 0 {
        admission_is_bounded(start, known.drop_last());
    }
}

/// The changes of status that a person may ask for.
pub open spec fn is_valid_transition(from: SuggestionStatus, to: SuggestionStatus) -> bool {
    match (from, to) {
        (SuggestionStatus::Pending, SuggestionStatus::Snoozed) => true,
        (SuggestionStatus::Pending, SuggestionStatus::Dismissed) => true,
        (SuggestionStatus::Pending, SuggestionStatus::Accepted) => true,
        (SuggestionStatus::Pending, SuggestionStatus::Blocked) => true,
        (SuggestionStatus::Snoozed, SuggestionStatus::Accepted) => true,
        (SuggestionStatus::Snoozed, SuggestionStatus::Dismissed) => true,
        (SuggestionStatus::Snoozed, SuggestionStatus::Blocked) => true,
        _ => false,
    }
}

pub fn valid_suggestion_transition(from: SuggestionStatus, to: SuggestionStatus) -> (r: bool)
    ensures
        r == is_valid_transition(from, to),
{
    match (from, to) {
        (SuggestionStatus::Pending, SuggestionStatus::Snoozed) => true,
        (SuggestionStatus::Pending, SuggestionStatus::Dismissed) => true,
        (SuggestionStatus::Pending, SuggestionStatus::Accepted) => true,
        (SuggestionStatus::Pending, SuggestionStatus::Blocked) => true,
        (SuggestionStatus::Snoozed, SuggestionStatus::Accepted) => true,
        (SuggestionStatus::Snoozed, SuggestionStatus::Dismissed) => true,
        (SuggestionStatus::Snoozed, SuggestionStatus::Blocked) => true,
        _ => false,
    }
}

/// Whether a suggestion may be set to a status; a snoozed one may also come back.
pub open spec fn may_set_status(current: SuggestionStatus, requested: SuggestionStatus) -> bool {
    is_valid_transition(current, requested) || (current == SuggestionStatus::Snoozed && requested
        == SuggestionStatus::Pending)
}

pub fn set_suggestion_status(current: SuggestionStatus, requested: SuggestionStatus) -> (r: Result<
    (),
    StorageError,
>)
    ensures
        r == (if may_set_status(current, requested) {
            Ok(())
        } else {
            Err(StorageError::SuggestionInvalidState)
        }),
{
    if current == SuggestionStatus::Accepted || current == SuggestionStatus::Blocked {
        return Err(StorageError::SuggestionInvalidState);
    }
    if current == SuggestionStatus::Snoozed && requested == SuggestionStatus::Pending {
        return Ok(());
    }
    if !valid_suggestion_transition(current, requested) {
        return Err(StorageError::SuggestionInvalidState);
    }
    Ok(())
}

/// An accepted, blocked or dismissed suggestion stays what it is, whatever is asked for.
pub proof fn answered_suggestions_stay(current: SuggestionStatus, requested: SuggestionStatus)
    requires
        current == SuggestionStatus::Accepted || current == SuggestionStatus::Blocked || current
            == SuggestionStatus::Dismissed,
    ensures
        !may_set_status(current, requested),
{
}

/// What is known of a resource that a suggestion refers to.
#[derive(Clone, Copy, Debug, PartialEq, Eq, Structural)]
pub struct ReferencedResource {
    pub kind: ResourceKind,
    pub scope_active: bool,
}

/// What accepting a suggestion comes to.
#[derive(Clone, Copy, Debug, PartialEq, Eq, Structural)]
pub enum AcceptOutcome {
    /// It was accepted before, as this ritual.
    Existing(Uuid),
    /// The draft ritual is stored and the suggestion is marked as accepted.
    Create,
}

/// A resource that is gone, or that is not observed as what it has to be.
pub open spec fn reference_fault(found: Option<ReferencedResource>, kind: ResourceKind) -> Option<
    StorageError,
> {
    match found {
        None => Some(StorageError::NotFound),
        Some(resource) => if resource.kind != kind || !resource.scope_active {
            Some(StorageError::SuggestionStale)
        } else {
            None
        },
    }
}

/// The first fault among the actions from place `from` on.
pub open spec fn action_fault(actions: Seq<Option<ReferencedResource>>, from: int) -> Option<
    StorageError,
>
    decreases actions.len() - from,
{
    if from < 0 || from >= actions.len() {
        None
    } else if reference_fault(actions[from], ResourceKind::WebPage) is Some {
        reference_fault(actions[from], ResourceKind::WebPage)
    } else {
        action_fault(actions, from + 1)
    }
}

pub open spec fn accepted(
    status: SuggestionStatus,
    ritual: Option<Uuid>,
    workspace: Option<ReferencedResource>,
    actions: Seq<Option<ReferencedResource>>,
) -> Result<AcceptOutcome, StorageError> {
    if status == SuggestionStatus::Accepted {
        match ritual {
            Some(id) => Ok(AcceptOutcome::Existing(id)),
            None => Err(StorageError::InvalidData("accepted suggestion lacks ritual")),
        }
    } else if status == SuggestionStatus::Blocked || status == SuggestionStatus::Dismissed {
        Err(StorageError::SuggestionInvalidState)
    } else {
        match reference_fault(workspace, ResourceKind::Directory) {
            Some(error) => Err(error),
            None => match action_fault(actions, 0) {
                Some(error) => Err(error),
                None => Ok(AcceptOutcome::Create),
            },
        }
    }
}

fn check_reference(found: &Option<ReferencedResource>, kind: ResourceKind) -> (r: Option<
    StorageError,
>)
    ensures
        r == reference_fault(*found, kind),
{
    match found {
        None => Some(StorageError::NotFound),
        Some(resource) => if resource.kind != kind || !resource.scope_active {
            Some(StorageError::SuggestionStale)
        } else {
            None
        },
    }
}

/// Accepts a suggestion. The workspace and every action are checked again: each has to be
/// there, of the right kind and under an active scope.
pub fn accept_suggestion(
    status: SuggestionStatus,
    ritual: Option<Uuid>,
    workspace: Option<ReferencedResource>,
    actions: &Vec<Option<ReferencedResource>>,
) -> (r: Result<AcceptOutcome, StorageError>)
    ensures
        r == accepted(status, ritual, workspace, actions@),
{
    if status == SuggestionStatus::Accepted {
        return match ritual {
            Some(id) => Ok(AcceptOutcome::Existing(id)),
            None => Err(StorageError::InvalidData("accepted suggestion lacks ritual")),
        };
    }
    if status == SuggestionStatus::Blocked || status == SuggestionStatus::Dismissed {
        return Err(StorageError::SuggestionInvalidState);
    }
    if let Some(error) = check_reference(&workspace, ResourceKind::Directory) {
        return Err(error);
    }
    let mut i: usize = 0;
    while i < actions.len()
        invariant
            i <= actions@.len(),
            status != SuggestionStatus::Accepted,
            status != SuggestionStatus::Blocked,
            status != SuggestionStatus::Dismissed,
            reference_fault(workspace, ResourceKind::Directory) is None,
            action_fault(actions@, 0) == action_fault(actions@, i as int),
        decreases actions@.len() - i,
    {
        if let Some(error) = check_reference(&actions[i], ResourceKind::WebPage) {
            return Err(error);
        }
        i = i + 1;
    }
    Ok(AcceptOutcome::Create)
}

/// Accepting is idempotent: once a suggestion was accepted as a ritual, accepting it again
/// gives that ritual, whatever has become of its resources.
pub proof fn accepting_is_idempotent(
    ritual: Uuid,
    workspace: Option<ReferencedResource>,
    actions: Seq<Option<ReferencedResource>>,
)
    ensures
        accepted(SuggestionStatus::Accepted, Some(ritual), workspace, actions) == Ok::<
            AcceptOutcome,
            StorageError,
        >(AcceptOutcome::Existing(ritual)),
{
}

/// A new ritual comes only from a suggestion that waits or was put off, whose workspace
/// and actions are all still observed.
pub proof fn creation_needs_live_evidence(
    status: SuggestionStatus,
    ritual: Option<Uuid>,
    workspace: Option<ReferencedResource>,
    actions: Seq<Option<ReferencedResource>>,
    i: int,
)
    requires
        accepted(status, ritual, workspace, actions) == Ok::<AcceptOutcome, StorageError>(
            AcceptOutcome::Create,
        ),
        0 <= i < actions.len(),
    ensures
        status == SuggestionStatus::Pending || status == SuggestionStatus::Snoozed,
        workspace == Some(
            ReferencedResource { kind: ResourceKind::Directory, scope_active: true },
        ),
        actions[i] == Some(ReferencedResource { kind: ResourceKind::WebPage, scope_active: true }),
{
    no_fault_means_live(actions, 0, i);
}

proof fn no_fault_means_live(actions: Seq<Option<ReferencedResource>>, from: int, i: int)
    requires
        0 <= from <= i < actions.len(),
        action_fault(actions, from) is None,
    ensures
        actions[i] == Some(ReferencedResource { kind: ResourceKind::WebPage, scope_active: true }),
    decreases actions.len() - from,
{
    if from < i {
        no_fault_means_live(actions, from + 1, i);
    }
}

// Executions

/// An execution holds its ritual's lock only while it is running.
pub fn releases_lock(status: ExecutionStatus) -> (r: bool)
    ensures
        r == (status != ExecutionStatus::Running),
{
    match status {
        ExecutionStatus::Running => false,
        _ => true,
    }
}

/// Whether the execution was cut off by a restart, now or before.
pub open spec fn cut_off(execution: Execution) -> bool {
    ||| execution.status == ExecutionStatus::Running
    ||| execution.status == ExecutionStatus::Aborted && execution.failure_code is Some
        && execution.failure_code->0@ == RESTART_CODE@
}

/// An execution after the daemon was started again.
pub open spec fn is_restarted_execution(after: Execution, before: Execution, now: Timestamp) -> bool {
    if before.status == ExecutionStatus::Running {
        &&& after.failure_code is Some && after.failure_code->0@ == RESTART_CODE@
        &&& after == (Execution {
            status: ExecutionStatus::Aborted,
            finished_at: Some(now),
            failure_code: after.failure_code,
            ..before
        })
    } else {
        after == before
    }
}

/// A step of an execution that was cut off: what was over is kept, the rest is aborted.
pub open spec fn is_restarted_step(after: ExecutionStep, before: ExecutionStep, now: Timestamp) -> bool {
    if before.status.terminal() {
        after == before
    } else {
        &&& after.result_code is Some && after.result_code->0@ == RESTART_CODE@
        &&& after.redacted_message is Some && after.redacted_message->0@ == RESTART_MESSAGE@
        &&& after == (ExecutionStep {
            status: ExecutionStepStatus::Aborted,
            finished_at: Some(now),
            result_code: after.result_code,
            redacted_message: after.redacted_message,
            ..before
        })
    }
}

fn abort_step(step: ExecutionStep, now: Timestamp) -> (after: ExecutionStep)
    ensures
        is_restarted_step(after, step, now),
{
    match step.status {
        ExecutionStepStatus::Pending | ExecutionStepStatus::Running => {
            let mut after = step;
            after.status = ExecutionStepStatus::Aborted;
            after.finished_at = Some(now);
            after.result_code = Some(RESTART_CODE.to_owned());
            after.redacted_message = Some(RESTART_MESSAGE.to_owned());
            after
        },
        _ => step,
    }
}

/// Whether an execution was under way when the daemon stopped, this time or before.
pub fn is_cut_off(execution: &Execution) -> (r: bool)
    ensures
        r == cut_off(*execution),
{
    match execution.status {
        ExecutionStatus::Running => true,
        ExecutionStatus::Aborted => match &execution.failure_code {
            Some(code) => crate::text::same(code.as_str(), RESTART_CODE),
            None => false,
        },
        _ => false,
    }
}

/// Whether the steps of a record are those of another after a restart.
pub open spec fn are_restarted_steps(
    after: Seq<ExecutionStep>,
    before: Seq<ExecutionStep>,
    now: Timestamp,
) -> bool {
    &&& after.len() == before.len()
    &&& forall|i: int|
        0 <= i < before.len() ==> is_restarted_step(#[trigger] after[i], before[i], now)
}

/// What becomes of an execution and its steps when the daemon is started again: a running
/// execution is aborted, and with it every step that was not over.
pub fn abort_on_restart(execution: Execution, steps: Vec<ExecutionStep>, now: Timestamp) -> (r: (
    Execution,
    Vec<ExecutionStep>,
))
    ensures
        is_restarted_execution(r.0, execution, now),
        if cut_off(execution) {
            are_restarted_steps(r.1@, steps@, now)
        } else {
            r.1 == steps
        },
{
    if !is_cut_off(&execution) {
        return (execution, steps);
    }
    let ghost before = steps@;
    let mut left = steps;
    let mut after: Vec<ExecutionStep> = Vec::new();
    while left.len() > 0
        invariant
            left@.len() + after@.len() == before.len(),
            left@ == before.skip(after@.len() as int),
            forall|i: int|
                0 <= i < after@.len() ==> is_restarted_step(#[trigger] after@[i], before[i], now),
        decreases left@.len(),
    {
        let step = left.remove(0);
        proof {
            assert(step == before[after@.len() as int]);
            assert(left@ =~= before.skip(after@.len() as int + 1));
        }
        after.push(abort_step(step, now));
    }
    let mut aborted = execution;
    if let ExecutionStatus::Running = aborted.status {
        aborted.status = ExecutionStatus::Aborted;
        aborted.finished_at = Some(now);
        aborted.failure_code = Some(RESTART_CODE.to_owned());
    }
    (aborted, after)
}

/// After a restart no execution is running, none of the steps of an aborted one is open,
/// and what was over is kept.
pub proof fn restart_leaves_nothing_open(
    execution: Execution,
    steps: Seq<ExecutionStep>,
    after: Execution,
    after_steps: Seq<ExecutionStep>,
    now: Timestamp,
    i: int,
)
    requires
        cut_off(execution),
        is_restarted_execution(after, execution, now),
        are_restarted_steps(after_steps, steps, now),
        0 <= i < steps.len(),
    ensures
        after.status == ExecutionStatus::Aborted,
        after_steps[i].status.terminal(),
        steps[i].status.terminal() ==> after_steps[i] == steps[i],
        after_steps[i].id == steps[i].id,
{
    assert(is_restarted_step(after_steps[i], steps[i], now));
}

/// A second restart changes nothing more.
pub proof fn restart_is_idempotent(
    before: ExecutionStep,
    once: ExecutionStep,
    twice: ExecutionStep,
    now: Timestamp,
    later: Timestamp,
)
    requires
        is_restarted_step(once, before, now),
        is_restarted_step(twice, once, later),
    ensures
        twice == once,
{
}

// Counts

pub open spec fn ritual_count(rituals: Seq<Ritual>, status: RitualStatus) -> nat
    decreases rituals.len(),
{
    if rituals.len() == 0 {
        0
    } else {
        ritual_count(rituals.drop_last(), status) + if rituals.last().status == status {
            1nat
        } else {
            0nat
        }
    }
}

pub open spec fn running_count(executions: Seq<Execution>) -> nat
    decreases executions.len(),
{
    if executions.len() == 0 {
        0
    } else {
        running_count(executions.drop_last()) + if executions.last().status
            == ExecutionStatus::Running {
            1nat
        } else {
            0nat
        }
    }
}

/// How many executions are running, and how many rituals are drafts or active.
#[derive(Clone, Copy, Debug, PartialEq, Eq, Structural)]
pub struct Counts {
    pub running: usize,
    pub draft: usize,
    pub active: usize,
}

pub fn counts(executions: &Vec<Execution>, rituals: &Vec<Ritual>) -> (r: Counts)
    ensures
        r.running == running_count(executions@),
        r.draft == ritual_count(rituals@, RitualStatus::Draft),
        r.active == ritual_count(rituals@, RitualStatus::Active),
{
    let mut running: usize = 0;
    for i in 0..executions.len()
        invariant
            running == running_count(executions@.take(i as int)),
            running <= i,
    {
        proof {
            assert(executions@.take(i + 1).drop_last() =~= executions@.take(i as int));
        }
        if let ExecutionStatus::Running = executions[i].status {
            running = running + 1;
        }
    }
    let mut draft: usize = 0;
    let mut active: usize = 0;
    for i in 0..rituals.len()
        invariant
            draft == ritual_count(rituals@.take(i as int), RitualStatus::Draft),
            active == ritual_count(rituals@.take(i as int), RitualStatus::Active),
            draft <= i,
            active <= i,
    {
        proof {
            assert(rituals@.take(i + 1).drop_last() =~= rituals@.take(i as int));
        }
        match rituals[i].status {
            RitualStatus::Draft => {
                draft = draft + 1;
            },
            RitualStatus::Active => {
                active = active + 1;
            },
            _ => {},
        }
    }
    proof {
        assert(executions@.take(executions@.len() as int) =~= executions@);
        assert(rituals@.take(rituals@.len() as int) =~= rituals@);
    }
    Counts { running, draft, active }
}

} // verus!
