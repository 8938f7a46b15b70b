//! Evidence for the prefixes that the sessions of a workspace share.

use vstd::prelude::*;
use crate::clock;
use crate::clock::Timestamp;
use crate::ids;
use crate::ids::Uuid;
use crate::mining::fingerprint;
use crate::mining::median;
use crate::mining::session;
use crate::mining::session::{Observation, SessionDraft, SessionModel};
use crate::mining::{
    ALGORITHM_VERSION, MAX_ACTIONS, MIN_ACTIONS, MIN_CONFIDENCE_BPS, MIN_SPAN_SECONDS, MIN_SUPPORT,
    STARTUP_WINDOW_SECONDS,
};

verus! {

#[derive(Clone, Debug, PartialEq, Eq)]
pub struct DiscoveredSuggestion {
    pub id: Uuid,
    pub algorithm_version: String,
    pub workspace_resource_id: Uuid,
    pub pattern_fingerprint: String,
    pub action_resource_ids: Vec<Uuid>,
    pub supporting_session_ids: Vec<Uuid>,
    pub support_sessions: u32,
    pub eligible_sessions: u32,
    pub confidence_basis_points: u32,
    pub first_seen_at: Timestamp,
    pub last_seen_at: Timestamp,
    pub observation_span_seconds: i64,
    pub median_completion_ms: i64,
}

pub open spec fn in_window(item: Observation, started_at: Timestamp) -> bool {
    clock::seconds_from(item.received_at, started_at) <= STARTUP_WINDOW_SECONDS
}

/// The openings that fall into the startup window.
pub open spec fn startup_of(opened: Seq<Observation>, started_at: Timestamp) -> Seq<Observation>
    decreases opened.len(),
{
    if opened.len() == 0 {
        Seq::empty()
    } else {
        let before = startup_of(opened.drop_last(), started_at);
        if in_window(opened.last(), started_at) {
            before.push(opened.last())
        } else {
            before
        }
    }
}

pub open spec fn resources_of(items: Seq<Observation>) -> Seq<Uuid> {
    items.map_values(|item: Observation| item.resource_id)
}

impl SessionModel {
    /// The openings within the startup window.
    pub open spec fn startup(self) -> Seq<Observation> {
        startup_of(self.opened, self.started_at)
    }

    /// The resources opened within the startup window, in order.
    pub open spec fn actions(self) -> Seq<Uuid> {
        resources_of(self.startup())
    }

    /// A session counts for its workspace once something was opened in time.
    pub open spec fn eligible(self) -> bool {
        self.startup().len() > 0
    }

    /// Whether the session starts in this workspace with these actions.
    pub open spec fn supports(self, workspace: Uuid, actions: Seq<Uuid>) -> bool {
        &&& self.workspace == workspace
        &&& actions.len() <= self.actions().len()
        &&& self.actions().take(actions.len() as int) == actions
    }

    /// The identifier of the session, derived from its anchor.
    pub open spec fn id(self) -> Uuid {
        Uuid::named(
            vstd::utf8::encode_utf8(
                ALGORITHM_VERSION@ + ":"@ + ids::id_text(self.anchor_event.value),
            ),
        )
    }

    /// The milliseconds from the start to the `n`th action.
    pub open spec fn completion(self, n: int) -> i64 {
        clock::milliseconds_from(self.startup()[n - 1].received_at, self.started_at) as i64
    }

    /// Nothing in the session was received before it started.
    pub open spec fn starts_first(self) -> bool {
        forall|i: int|
            0 <= i < self.opened.len() ==> (#[trigger] self.opened[i]).received_at.instant()
                >= self.started_at.instant()
    }
}

pub open spec fn supporters(
    sessions: Seq<SessionModel>,
    workspace: Uuid,
    actions: Seq<Uuid>,
) -> Seq<SessionModel>
    decreases sessions.len(),
{
    if sessions.len() == 0 {
        Seq::empty()
    } else {
        let before = supporters(sessions.drop_last(), workspace, actions);
        if sessions.last().supports(workspace, actions) {
            before.push(sessions.last())
        } else {
            before
        }
    }
}

/// How many sessions of the workspace count.
pub open spec fn eligible_count(sessions: Seq<SessionModel>, workspace: Uuid) -> nat
    decreases sessions.len(),
{
    if sessions.len() == 0 {
        0
    } else {
        let before = eligible_count(sessions.drop_last(), workspace);
        if sessions.last().workspace == workspace && sessions.last().eligible() {
            before + 1
        } else {
            before
        }
    }
}

/// A prefix of two to five actions with which some session of the workspace starts.
pub open spec fn is_candidate(
    sessions: Seq<SessionModel>,
    workspace: Uuid,
    actions: Seq<Uuid>,
) -> bool {
    &&& MIN_ACTIONS <= actions.len() <= MAX_ACTIONS
    &&& exists|i: int|
        0 <= i < sessions.len() && (#[trigger] sessions[i]).supports(workspace, actions)
}

/// The share of the counting sessions that support the prefix, in basis points.
pub open spec fn confidence(
    sessions: Seq<SessionModel>,
    workspace: Uuid,
    actions: Seq<Uuid>,
) -> nat {
    let eligible = eligible_count(sessions, workspace);
    if eligible == 0 {
        0
    } else {
        supporters(sessions, workspace, actions).len() * 10_000 / eligible
    }
}

/// The whole seconds between the first and the last session that support the prefix.
pub open spec fn span(sessions: Seq<SessionModel>, workspace: Uuid, actions: Seq<Uuid>) -> int {
    let supporting = supporters(sessions, workspace, actions);
    clock::seconds_from(supporting.last().started_at, supporting.first().started_at)
}

/// Whether the evidence for a prefix suffices for a suggestion.
pub open spec fn qualifies(
    sessions: Seq<SessionModel>,
    workspace: Uuid,
    actions: Seq<Uuid>,
) -> bool {
    &&& is_candidate(sessions, workspace, actions)
    &&& supporters(sessions, workspace, actions).len() >= MIN_SUPPORT
    &&& confidence(sessions, workspace, actions) >= MIN_CONFIDENCE_BPS
    &&& span(sessions, workspace, actions) >= MIN_SPAN_SECONDS
}

pub open spec fn completions(supporting: Seq<SessionModel>, n: int) -> Seq<i64> {
    supporting.map_values(|session: SessionModel| session.completion(n))
}

pub open spec fn session_ids(supporting: Seq<SessionModel>) -> Seq<Uuid> {
    supporting.map_values(|session: SessionModel| session.id())
}

/// The suggestion that the evidence for a prefix makes.
pub open spec fn is_suggestion_for(
    suggestion: DiscoveredSuggestion,
    sessions: Seq<SessionModel>,
    workspace: Uuid,
    actions: Seq<Uuid>,
) -> bool {
    let supporting = supporters(sessions, workspace, actions);
    let seconds = span(sessions, workspace, actions);
    &&& suggestion.id == Uuid::named(
        vstd::utf8::encode_utf8(fingerprint::fingerprint_of(workspace, actions)),
    )
    &&& suggestion.algorithm_version@ == ALGORITHM_VERSION@
    &&& suggestion.workspace_resource_id == workspace
    &&& suggestion.pattern_fingerprint@ == fingerprint::fingerprint_of(workspace, actions)
    &&& suggestion.action_resource_ids@ == actions
    &&& suggestion.supporting_session_ids@ == session_ids(supporting)
    &&& suggestion.support_sessions == supporting.len()
    &&& suggestion.eligible_sessions == eligible_count(sessions, workspace)
    &&& suggestion.confidence_basis_points == confidence(sessions, workspace, actions)
    &&& suggestion.first_seen_at == supporting.first().started_at
    &&& suggestion.last_seen_at == supporting.last().started_at
    &&& suggestion.observation_span_seconds == (if seconds > i64::MAX {
        i64::MAX as int
    } else {
        seconds
    })
    &&& suggestion.median_completion_ms == median::median_of(
        completions(supporting, actions.len() as int),
    )
}

/// The openings of a session that fall into its startup window.
pub fn startup_events(draft: &SessionDraft) -> (items: Vec<Observation>)
    ensures
        items@ == draft@.startup(),
        items@.len() <= draft.opened@.len(),
{
    let mut items: Vec<Observation> = Vec::new();
    for i in 0..draft.opened.len()
        invariant
            items@ == startup_of(draft.opened@.take(i as int), draft.started_at),
            items@.len() <= i,
    {
        proof {
            assert(draft.opened@.take(i + 1).drop_last() =~= draft.opened@.take(i as int));
        }
        let item = draft.opened[i];
        if clock::seconds_between(&item.received_at, &draft.started_at) <= STARTUP_WINDOW_SECONDS {
            items.push(item);
        }
    }
    proof {
        assert(draft.opened@.take(draft.opened@.len() as int) =~= draft.opened@);
    }
    items
}

proof fn startup_item(opened: Seq<Observation>, started_at: Timestamp, n: int)
    requires
        0 <= n < startup_of(opened, started_at).len(),
    ensures
        exists|i: int| 0 <= i < opened.len() && opened[i] == startup_of(opened, started_at)[n],
        in_window(startup_of(opened, started_at)[n], started_at),
    decreases opened.len(),
{
    if opened.len() > 0 {
        let before = startup_of(opened.drop_last(), started_at);
        if n < before.len() {
            startup_item(opened.drop_last(), started_at, n);
            let i = choose|i: int|
                0 <= i < opened.drop_last().len() && opened.drop_last()[i] == before[n];
            assert(opened[i] == startup_of(opened, started_at)[n]);
        } else {
            assert(opened[opened.len() - 1] == startup_of(opened, started_at)[n]);
        }
    }
}

/// Whether a session supports a prefix, given its startup events.
fn draft_supports(
    draft: &SessionDraft,
    startup: &Vec<Observation>,
    workspace: Uuid,
    actions: &[Uuid],
) -> (r: bool)
    requires
        startup@ == draft@.startup(),
    ensures
        r == draft@.supports(workspace, actions@),
{
    if draft.workspace != workspace || actions.len() > startup.len() {
        return false;
    }
    let ghost all = draft@.actions();
    for i in 0..actions.len()
        invariant
            startup@ == draft@.startup(),
            all == draft@.actions(),
            actions@.len() <= startup@.len(),
            forall|j: int| 0 <= j < i ==> all[j] == actions@[j],
    {
        assert(all[i as int] == startup@[i as int].resource_id);
        if startup[i].resource_id != actions[i] {
            assert(all.take(actions@.len() as int)[i as int] != actions@[i as int]);
            return false;
        }
    }
    assert(all.take(actions@.len() as int) =~= actions@);
    true
}

/// The identifier of a session.
pub fn id_of(draft: &SessionDraft) -> (id: Uuid)
    ensures
        id == draft@.id(),
{
    let mut name = ALGORITHM_VERSION.to_owned();
    name.append(":");
    name.append(draft.anchor_event.to_text().as_str());
    Uuid::from_name(name.as_str().as_bytes())
}

fn completion_ms(draft: &SessionDraft, startup: &Vec<Observation>, n: usize) -> (ms: i64)
    requires
        startup@ == draft@.startup(),
        1 <= n <= startup@.len(),
        draft@.starts_first(),
    ensures
        ms == draft@.completion(n as int),
{
    proof {
        startup_item(draft.opened@, draft.started_at, n - 1);
    }
    let ms: i128 = clock::milliseconds_between(&startup[n - 1].received_at, &draft.started_at);
    proof {
        let item = startup@[n - 1];
        let i = choose|i: int| 0 <= i < draft.opened@.len() && draft.opened@[i] == item;
        assert(draft@.opened[i].received_at.instant() >= draft@.started_at.instant());
        assert(0 <= ms < 601_000);
    }
    ms as i64
}

/// Drafts with the startup events of each.
pub open spec fn startups_match(drafts: Seq<SessionDraft>, startups: Seq<Vec<Observation>>) -> bool {
    &&& startups.len() == drafts.len()
    &&& forall|i: int| 0 <= i < drafts.len() ==> (#[trigger] startups[i])@ == drafts[i]@.startup()
}

/// Weighs the evidence for one candidate prefix.
pub fn evaluate(
    drafts: &Vec<SessionDraft>,
    startups: &Vec<Vec<Observation>>,
    workspace: Uuid,
    actions: &Vec<Uuid>,
) -> (r: Option<DiscoveredSuggestion>)
    requires
        startups_match(drafts@, startups@),
        forall|i: int| 0 <= i < drafts@.len() ==> (#[trigger] drafts@[i])@.starts_first(),
        4 * drafts@.len() <= u32::MAX,
        is_candidate(session::models(drafts@), workspace, actions@),
    ensures
        r is Some <==> qualifies(session::models(drafts@), workspace, actions@),
        r is Some ==> is_suggestion_for(
            r->0,
            session::models(drafts@),
            workspace,
            actions@,
        ),
{
    let ghost sessions = session::models(drafts@);
    let mut ids: Vec<Uuid> = Vec::new();
    let mut durations: Vec<i64> = Vec::new();
    let mut eligible: u32 = 0;
    let mut first = Timestamp::unix_epoch();
    let mut last = Timestamp::unix_epoch();
    let mut i: usize = 0;
    while i < drafts.len()
        invariant
            i <= drafts@.len(),
            sessions == session::models(drafts@),
            startups_match(drafts@, startups@),
            forall|j: int| 0 <= j < drafts@.len() ==> (#[trigger] drafts@[j])@.starts_first(),
            4 * drafts@.len() <= u32::MAX,
            is_candidate(sessions, workspace, actions@),
            ids@ == session_ids(supporters(sessions.take(i as int), workspace, actions@)),
            durations@ == completions(
                supporters(sessions.take(i as int), workspace, actions@),
                actions@.len() as int,
            ),
            eligible == eligible_count(sessions.take(i as int), workspace),
            eligible <= i,
            ids@.len() <= i,
            ids@.len() > 0 ==> first == supporters(
                sessions.take(i as int),
                workspace,
                actions@,
            ).first().started_at,
            ids@.len() > 0 ==> last == supporters(
                sessions.take(i as int),
                workspace,
                actions@,
            ).last().started_at,
        decreases drafts@.len() - i,
    {
        proof {
            assert(sessions.take(i + 1).drop_last() =~= sessions.take(i as int));
            assert(sessions.take(i + 1).last() == drafts@[i as int]@);
        }
        let ghost before = supporters(sessions.take(i as int), workspace, actions@);
        if drafts[i].workspace == workspace && startups[i].len() > 0 {
            eligible = eligible + 1;
        }
        if draft_supports(&drafts[i], &startups[i], workspace, actions.as_slice()) {
            let ms: i64 = completion_ms(&drafts[i], &startups[i], actions.len());
            if ids.len() == 0 {
                first = drafts[i].started_at;
            }
            last = drafts[i].started_at;
            ids.push(id_of(&drafts[i]));
            durations.push(ms);
            proof {
                let after = before.push(drafts@[i as int]@);
                assert(session_ids(after) =~= session_ids(before).push(drafts@[i as int]@.id()));
                assert(completions(after, actions@.len() as int) =~= completions(
                    before,
                    actions@.len() as int,
                ).push(ms));
                if before.len() > 0 {
                    assert(after.first() == before.first());
                }
            }
        }
        i = i + 1;
    }
    proof {
        assert(sessions.take(sessions.len() as int) =~= sessions);
    }
    let support: usize = ids.len();
    let confidence_bps: u64 = if eligible == 0 {
        0
    } else {
        proof {
            assert(support * 10_000 / (eligible as int) <= support * 10_000) by (nonlinear_arith)
                requires
                    eligible > 0,
                    support >= 0,
            ;
        }
        (support as u64 * 10_000) / (eligible as u64)
    };
    if support < MIN_SUPPORT {
        return None;
    }
    let seconds: i128 = clock::seconds_between(&last, &first);
    if confidence_bps < MIN_CONFIDENCE_BPS as u64 || seconds < MIN_SPAN_SECONDS {
        return None;
    }
    proof {
        supporters_count(sessions, workspace, actions@);
        assert(confidence_bps <= 10_000) by (nonlinear_arith)
            requires
                support <= eligible,
                eligible > 0,
                confidence_bps == (support * 10_000) / (eligible as int),
        ;
    }
    let pattern_fingerprint = fingerprint::fingerprint(workspace, actions.as_slice());
    let id = Uuid::from_name(pattern_fingerprint.as_str().as_bytes());
    let span_seconds: i64 = if seconds > i64::MAX as i128 {
        i64::MAX
    } else {
        seconds as i64
    };
    Some(
        DiscoveredSuggestion {
            id,
            algorithm_version: ALGORITHM_VERSION.to_owned(),
            workspace_resource_id: workspace,
            pattern_fingerprint,
            action_resource_ids: copy_ids(actions.as_slice()),
            supporting_session_ids: ids,
            support_sessions: support as u32,
            eligible_sessions: eligible,
            confidence_basis_points: confidence_bps as u32,
            first_seen_at: first,
            last_seen_at: last,
            observation_span_seconds: span_seconds,
            median_completion_ms: median::median(durations.as_slice()),
        },
    )
}

pub fn copy_ids(ids: &[Uuid]) -> (copy: Vec<Uuid>)
    ensures
        copy@ == ids@,
{
    let mut copy: Vec<Uuid> = Vec::new();
    for i in 0..ids.len()
        invariant
            copy@ == ids@.take(i as int),
    {
        copy.push(ids[i]);
        proof {
            assert(ids@.take(i + 1) =~= ids@.take(i as int).push(ids@[i as int]));
        }
    }
    proof {
        assert(ids@.take(ids@.len() as int) =~= ids@);
    }
    copy
}

/// Every session that supports a prefix counts for its workspace, so the confidence is
/// at most 10000 basis points.
pub proof fn supporters_count(sessions: Seq<SessionModel>, workspace: Uuid, actions: Seq<Uuid>)
    requires
        actions.len() > 0,
    ensures
        supporters(sessions, workspace, actions).len() <= eligible_count(sessions, workspace),
        confidence(sessions, workspace, actions) <= 10_000,
    decreases sessions.len(),
{
    if sessions.len() > 0 {
        supporters_count(sessions.drop_last(), workspace, actions);
    }
    let support = supporters(sessions, workspace, actions).len();
    let eligible = eligible_count(sessions, workspace);
    if eligible > 0 {
        assert(support * 10_000 / eligible <= 10_000) by (nonlinear_arith)
            requires
                support <= eligible,
                eligible > 0,
        ;
    }
}

} // verus!
