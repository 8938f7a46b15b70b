//! Deterministic discovery of workspace starts.
//!
//! The functions here take validated events and give back sessions and the evidence
//! for repeated prefixes. They read no clock and no storage.

use vstd::prelude::*;
use crate::clock::Timestamp;
use crate::event::Event;
use crate::ids::Uuid;
use crate::mining::evidence::DiscoveredSuggestion;
use crate::mining::session::{Observation, SessionDraft, SessionModel};
use crate::resource::{ObservationScope, Resource};

pub mod evidence;
pub mod fingerprint;
pub mod median;
pub mod selection;
pub mod session;

verus! {

pub const ALGORITHM_VERSION: &'static str = "workspace-browser-start/v1";

pub const SESSION_KIND: &'static str = "workspace_start";

pub const STARTUP_WINDOW_SECONDS: i128 = 600;

pub const ANCHOR_MERGE_SECONDS: i128 = 300;

pub const INACTIVITY_SECONDS: i128 = 1_800;

pub const HARD_LIMIT_SECONDS: i128 = 7_200;

pub const MIN_ACTIONS: usize = 2;

pub const MAX_ACTIONS: usize = 5;

pub const MIN_SUPPORT: usize = 3;

pub const MIN_CONFIDENCE_BPS: u32 = 7_000;

pub const MIN_SPAN_SECONDS: i128 = 64_800;

#[derive(Clone, Copy, Debug, PartialEq, Eq, Structural)]
pub enum DiscoveryRunStatus {
    Running,
    Succeeded,
    Failed,
    Aborted,
}

#[derive(Clone, Copy, Debug, PartialEq, Eq, Structural)]
pub enum SuggestionStatus {
    Pending,
    Snoozed,
    Dismissed,
    Accepted,
    Blocked,
}

#[derive(Clone, Debug, PartialEq, Eq)]
pub struct DiscoveryRun {
    pub id: Uuid,
    pub algorithm_version: String,
    pub status: DiscoveryRunStatus,
    pub started_at: Timestamp,
    pub finished_at: Option<Timestamp>,
    pub input_event_count: u32,
    pub sessions_upserted: u32,
    pub candidates_evaluated: u32,
    pub suggestions_created: u32,
    pub failure_code: Option<String>,
}

#[derive(Clone, Debug, PartialEq, Eq)]
pub struct DiscoveryInput {
    pub events: Vec<Event>,
    pub resources: Vec<Resource>,
    pub scopes: Vec<ObservationScope>,
}

#[derive(Clone, Copy, Debug, PartialEq, Eq, Structural)]
pub struct SessionEvent {
    pub event_id: Uuid,
    pub resource_id: Uuid,
    pub ordinal: u32,
    pub received_at: Timestamp,
    pub is_anchor: bool,
}

#[derive(Clone, Debug, PartialEq, Eq)]
pub struct DiscoveredSession {
    pub id: Uuid,
    pub algorithm_version: String,
    pub kind: String,
    pub workspace_resource_id: Uuid,
    pub anchor_event_id: Uuid,
    pub started_at: Timestamp,
    pub finished_at: Option<Timestamp>,
    pub event_count: u32,
    pub eligible: bool,
    pub events: Vec<SessionEvent>,
}

#[derive(Clone, Debug, PartialEq, Eq)]
pub struct DiscoveryOutput {
    pub algorithm_version: String,
    pub sessions: Vec<DiscoveredSession>,
    pub suggestions: Vec<DiscoveredSuggestion>,
    pub candidates_evaluated: u32,
}

/// The events of a session: its anchor first, then the openings, numbered in order.
pub open spec fn events_of(session: SessionModel) -> Seq<SessionEvent> {
    Seq::new(
        session.opened.len() + 1,
        |i: int|
            if i == 0 {
                SessionEvent {
                    event_id: session.anchor_event,
                    resource_id: session.workspace,
                    ordinal: 0,
                    received_at: session.started_at,
                    is_anchor: true,
                }
            } else {
                SessionEvent {
                    event_id: session.opened[i - 1].event_id,
                    resource_id: session.opened[i - 1].resource_id,
                    ordinal: i as u32,
                    received_at: session.opened[i - 1].received_at,
                    is_anchor: false,
                }
            },
    )
}

/// Whether a record says what a session is.
pub open spec fn is_record_of(record: DiscoveredSession, session: SessionModel) -> bool {
    &&& record.id == session.id()
    &&& record.algorithm_version@ == ALGORITHM_VERSION@
    &&& record.kind@ == SESSION_KIND@
    &&& record.workspace_resource_id == session.workspace
    &&& record.anchor_event_id == session.anchor_event
    &&& record.started_at == session.started_at
    &&& record.finished_at == Some(
        if session.opened.len() == 0 {
            session.started_at
        } else {
            session.opened.last().received_at
        },
    )
    &&& record.event_count == session.opened.len() + 1
    &&& record.eligible == session.eligible()
    &&& record.events@ == events_of(session)
}

impl DiscoveryInput {
    /// The sessions that the input holds.
    pub open spec fn sessions(self) -> Seq<SessionModel> {
        session::sessions_of(self.resources@, self.scopes@, self.events@)
    }
}

/// Whether an output says what the sessions of an input show: a record of each session, the
/// suggestion of every pattern that is chosen, in their order, and how many prefixes were
/// weighed.
pub open spec fn is_output_of(output: DiscoveryOutput, input: DiscoveryInput) -> bool {
    &&& output.algorithm_version@ == ALGORITHM_VERSION@
    &&& output.sessions@.len() == input.sessions().len()
    &&& forall|i: int|
        0 <= i < output.sessions@.len() ==> is_record_of(
            #[trigger] output.sessions@[i],
            input.sessions()[i],
        )
    &&& selection::all_sound(output.suggestions@, input.sessions())
    &&& selection::in_slot_order(output.suggestions@)
    &&& forall|pair: (Uuid, Seq<Uuid>)| #[trigger]
        selection::patterns_of(output.suggestions@).contains(pair) <==> selection::is_chosen(
            input.sessions(),
            pair.0,
            pair.1,
        )
    &&& output.candidates_evaluated == selection::candidate_set(input.sessions()).len()
}

fn session_record(draft: &SessionDraft, startup: &Vec<Observation>) -> (record: DiscoveredSession)
    requires
        startup@ == draft@.startup(),
        draft@.opened.len() <= MAX_ACTIONS,
    ensures
        is_record_of(record, draft@),
{
    let mut events: Vec<SessionEvent> = Vec::new();
    events.push(
        SessionEvent {
            event_id: draft.anchor_event,
            resource_id: draft.workspace,
            ordinal: 0,
            received_at: draft.started_at,
            is_anchor: true,
        },
    );
    let mut finished_at = draft.started_at;
    for i in 0..draft.opened.len()
        invariant
            draft@.opened.len() <= MAX_ACTIONS,
            events@ == events_of(draft@).take(i + 1),
            finished_at == (if i == 0 {
                draft.started_at
            } else {
                draft.opened@[i - 1].received_at
            }),
    {
        let item = draft.opened[i];
        events.push(
            SessionEvent {
                event_id: item.event_id,
                resource_id: item.resource_id,
                ordinal: (i + 1) as u32,
                received_at: item.received_at,
                is_anchor: false,
            },
        );
        finished_at = item.received_at;
        proof {
            assert(events_of(draft@).take(i + 2) =~= events_of(draft@).take(i + 1).push(
                events_of(draft@)[i + 1],
            ));
        }
    }
    proof {
        assert(events_of(draft@).take((draft.opened@.len() + 1) as int) =~= events_of(draft@));
    }
    DiscoveredSession {
        id: evidence::id_of(draft),
        algorithm_version: ALGORITHM_VERSION.to_owned(),
        kind: SESSION_KIND.to_owned(),
        workspace_resource_id: draft.workspace,
        anchor_event_id: draft.anchor_event,
        started_at: draft.started_at,
        finished_at: Some(finished_at),
        event_count: events.len() as u32,
        eligible: startup.len() > 0,
        events,
    }
}

/// Runs the whole discovery: splits the events into sessions, weighs every prefix that
/// sessions share, and suggests the best qualifying prefix of each workspace.
pub fn discover(input: DiscoveryInput) -> (output: DiscoveryOutput)
    requires
        4 * input.events@.len() <= u32::MAX,
    ensures
        is_output_of(output, input),
{
    let items = session::read_in_order(
        input.resources.as_slice(),
        input.scopes.as_slice(),
        input.events.as_slice(),
    );
    let drafts = session::split(items.as_slice());
    let ghost sessions = session::models(drafts@);
    proof {
        assert(sessions == input.sessions());
        session::sessions_are_sound(input.resources@, input.scopes@, input.events@);
        assert forall|i: int| 0 <= i < drafts@.len() implies session::is_session(
            (#[trigger] drafts@[i])@,
        ) by {
            assert(sessions[i] == drafts@[i]@);
        }
    }
    let mut startups: Vec<Vec<Observation>> = Vec::new();
    let mut records: Vec<DiscoveredSession> = Vec::new();
    for i in 0..drafts.len()
        invariant
            sessions == session::models(drafts@),
            forall|j: int| 0 <= j < drafts@.len() ==> session::is_session((#[trigger] drafts@[j])@),
            startups@.len() == i,
            records@.len() == i,
            forall|j: int| 0 <= j < i ==> (#[trigger] startups@[j])@ == drafts@[j]@.startup(),
            forall|j: int| 0 <= j < i ==> is_record_of(#[trigger] records@[j], drafts@[j]@),
    {
        let startup = evidence::startup_events(&drafts[i]);
        records.push(session_record(&drafts[i], &startup));
        startups.push(startup);
    }
    let candidates = selection::list_candidates(&drafts, &startups);
    let candidates_evaluated: u32 = candidates.len() as u32;
    proof {
        selection::pairs_of(candidates@).unique_seq_to_set();
        assert forall|i: int| 0 <= i < drafts@.len() implies (
        #[trigger] drafts@[i])@.starts_first() by {
            assert(session::is_session(drafts@[i]@));
        }
    }
    let qualified = selection::weigh(&drafts, &startups, &candidates);
    let suggestions = selection::choose_slots(qualified, Ghost(sessions));
    proof {
        assert forall|i: int| 0 <= i < records@.len() implies is_record_of(
            #[trigger] records@[i],
            input.sessions()[i],
        ) by {
            assert(sessions[i] == drafts@[i]@);
        }
    }
    DiscoveryOutput {
        algorithm_version: ALGORITHM_VERSION.to_owned(),
        sessions: records,
        suggestions,
        candidates_evaluated,
    }
}

/// Whether two records of sessions say the same.
pub open spec fn same_record(a: DiscoveredSession, b: DiscoveredSession) -> bool {
    &&& a.id == b.id
    &&& a.algorithm_version@ == b.algorithm_version@
    &&& a.kind@ == b.kind@
    &&& a.workspace_resource_id == b.workspace_resource_id
    &&& a.anchor_event_id == b.anchor_event_id
    &&& a.started_at == b.started_at
    &&& a.finished_at == b.finished_at
    &&& a.event_count == b.event_count
    &&& a.eligible == b.eligible
    &&& a.events@ == b.events@
}

/// Whether two outputs say the same, in the same order.
pub open spec fn same_output(a: DiscoveryOutput, b: DiscoveryOutput) -> bool {
    &&& a.algorithm_version@ == b.algorithm_version@
    &&& a.sessions@.len() == b.sessions@.len()
    &&& forall|i: int|
        0 <= i < a.sessions@.len() ==> same_record(#[trigger] a.sessions@[i], b.sessions@[i])
    &&& a.suggestions@.len() == b.suggestions@.len()
    &&& forall|i: int|
        0 <= i < a.suggestions@.len() ==> selection::same_suggestion(
            #[trigger] a.suggestions@[i],
            b.suggestions@[i],
        )
    &&& a.candidates_evaluated == b.candidates_evaluated
}

proof fn sessions_decide(
    a: DiscoveryInput,
    b: DiscoveryInput,
    x: DiscoveryOutput,
    y: DiscoveryOutput,
)
    requires
        a.sessions() == b.sessions(),
        is_output_of(x, a),
        is_output_of(y, b),
    ensures
        same_output(x, y),
{
    assert forall|i: int| 0 <= i < x.sessions@.len() implies same_record(
        #[trigger] x.sessions@[i],
        y.sessions@[i],
    ) by {
        assert(is_record_of(x.sessions@[i], a.sessions()[i]));
        assert(is_record_of(y.sessions@[i], b.sessions()[i]));
    }
    assert forall|pair: (Uuid, Seq<Uuid>)| #[trigger]
        selection::patterns_of(x.suggestions@).contains(pair) <==> selection::patterns_of(
            y.suggestions@,
        ).contains(pair) by {
        assert(selection::is_chosen(a.sessions(), pair.0, pair.1) <==> selection::patterns_of(
            y.suggestions@,
        ).contains(pair));
    }
    selection::patterns_decide(x.suggestions@, y.suggestions@, a.sessions());
}

/// A discovery gives the same output whatever the order of its events, resources and scopes,
/// and whatever time an adapter says that something happened.
pub proof fn order_and_occurrence_do_not_matter(
    a: DiscoveryInput,
    b: DiscoveryInput,
    x: DiscoveryOutput,
    y: DiscoveryOutput,
)
    requires
        session::distinct_ids(a.events@),
        session::distinct_ids(b.events@),
        session::covered(a.events@, b.events@),
        session::covered(b.events@, a.events@),
        session::holds_the_same(a.resources@, b.resources@),
        session::holds_the_same(a.scopes@, b.scopes@),
        is_output_of(x, a),
        is_output_of(y, b),
    ensures
        same_output(x, y),
{
    session::input_order_does_not_matter(
        a.resources@,
        a.scopes@,
        a.events@,
        b.resources@,
        b.scopes@,
        b.events@,
    );
    sessions_decide(a, b, x, y);
}

/// A discovery gives the same output without the events that do not count: those of
/// somebody else than the user, synthetic ones, and those of a resource that is unknown, of
/// another kind or not observed.
pub proof fn only_what_counts_matters(
    a: DiscoveryInput,
    b: DiscoveryInput,
    x: DiscoveryOutput,
    y: DiscoveryOutput,
)
    requires
        b.resources@ == a.resources@,
        b.scopes@ == a.scopes@,
        b.events@ == session::counting(a.resources@, a.scopes@, a.events@),
        is_output_of(x, a),
        is_output_of(y, b),
    ensures
        same_output(x, y),
{
    session::what_does_not_count_does_not_matter(a.resources@, a.scopes@, a.events@);
    sessions_decide(a, b, x, y);
}

} // verus!
