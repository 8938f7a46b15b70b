//! Splitting the observed events into sessions.

use vstd::prelude::*;
use crate::clock;
use crate::clock::Timestamp;
use crate::event::{Actor, Event, EventData, EventType};
use crate::ids::Uuid;
use crate::mining::{ANCHOR_MERGE_SECONDS, HARD_LIMIT_SECONDS, INACTIVITY_SECONDS, MAX_ACTIONS};
use crate::resource::{
    ObservationScope, ObservationSource, ObservationStatus, Resource, ResourceKind,
};

verus! {

/// An event that counts: a workspace start (the anchor of a session) or the opening of
/// a browser resource.
#[derive(Clone, Copy, Debug, PartialEq, Eq, Structural)]
pub struct Observation {
    pub event_id: Uuid,
    pub received_at: Timestamp,
    pub resource_id: Uuid,
    pub is_anchor: bool,
}

pub open spec fn has_active_scope(
    scopes: Seq<ObservationScope>,
    resource_id: Uuid,
    source: ObservationSource,
) -> bool {
    exists|i: int|
        0 <= i < scopes.len() && (#[trigger] scopes[i]).resource_id == resource_id
            && scopes[i].source == source && scopes[i].status == ObservationStatus::Active
}

pub open spec fn has_resource(resources: Seq<Resource>, id: Uuid, kind: ResourceKind) -> bool {
    exists|i: int| 0 <= i < resources.len() && (#[trigger] resources[i]).id == id && resources[i].kind == kind
}

pub open spec fn is_eligible(
    resources: Seq<Resource>,
    scopes: Seq<ObservationScope>,
    id: Uuid,
    kind: ResourceKind,
    source: ObservationSource,
) -> bool {
    has_resource(resources, id, kind) && has_active_scope(scopes, id, source)
}

/// What an event counts as. Only what a user did to a known resource of the right kind
/// under an active scope counts.
pub open spec fn observed(
    resources: Seq<Resource>,
    scopes: Seq<ObservationScope>,
    event: Event,
) -> Option<Observation> {
    if event.actor != Actor::User {
        None
    } else {
        match (event.event_type, event.data) {
            (
                EventType::VscodeWorkspaceOpenedV1,
                EventData::VscodeWorkspaceOpened { resource_id },
            ) => if is_eligible(
                resources,
                scopes,
                resource_id,
                ResourceKind::Directory,
                ObservationSource::VscodeWorkspace,
            ) {
                Some(
                    Observation {
                        event_id: event.id,
                        received_at: event.received_at,
                        resource_id,
                        is_anchor: true,
                    },
                )
            } else {
                None
            },
            (
                EventType::BrowserResourceOpenedV1,
                EventData::BrowserResourceOpened { resource_id },
            ) => if is_eligible(
                resources,
                scopes,
                resource_id,
                ResourceKind::WebPage,
                ObservationSource::BrowserChromium,
            ) {
                Some(
                    Observation {
                        event_id: event.id,
                        received_at: event.received_at,
                        resource_id,
                        is_anchor: false,
                    },
                )
            } else {
                None
            },
            _ => None,
        }
    }
}

/// Reading order: by the time of receipt, then by event id.
pub open spec fn comes_after(a: Observation, b: Observation) -> bool {
    ||| a.received_at.instant() > b.received_at.instant()
    ||| a.received_at.instant() == b.received_at.instant() && a.event_id.value > b.event_id.value
}

/// Where `item` goes among the first `n` of an ordered sequence: behind everything that
/// does not come after it.
pub open spec fn place(ordered: Seq<Observation>, item: Observation, n: int) -> int
    decreases n,
{
    if n <= 0 {
        0
    } else if comes_after(ordered[n - 1], item) {
        place(ordered, item, n - 1)
    } else {
        n
    }
}

/// What the first `n` events count as, in reading order. Events of one time and one id
/// keep the order in which they came.
pub open spec fn in_order(
    resources: Seq<Resource>,
    scopes: Seq<ObservationScope>,
    events: Seq<Event>,
    n: int,
) -> Seq<Observation>
    decreases n,
{
    if n <= 0 {
        Seq::empty()
    } else {
        let before = in_order(resources, scopes, events, n - 1);
        match observed(resources, scopes, events[n - 1]) {
            Some(item) => before.insert(place(before, item, before.len() as int), item),
            None => before,
        }
    }
}

/// A session: where it started, and the browser resources that were opened in it, each
/// once.
pub struct SessionModel {
    pub workspace: Uuid,
    pub anchor_event: Uuid,
    pub started_at: Timestamp,
    pub opened: Seq<Observation>,
}

/// How far the reading has come: the sessions so far, whether the last one still takes
/// events, and when it took the last one.
pub struct Track {
    pub sessions: Seq<SessionModel>,
    pub open: bool,
    pub last_activity: Timestamp,
}

pub open spec fn track_start() -> Track {
    Track {
        sessions: Seq::empty(),
        open: false,
        last_activity: Timestamp { unix_seconds: 0, nanosecond: 0, offset_seconds: 0 },
    }
}

/// Whether an anchor belongs to the session that is still open instead of starting one.
pub open spec fn merges(track: Track, anchor: Observation) -> bool {
    &&& track.open
    &&& track.sessions.len() > 0
    &&& track.sessions.last().workspace == anchor.resource_id
    &&& clock::seconds_from(anchor.received_at, track.sessions.last().started_at)
        <= ANCHOR_MERGE_SECONDS
}

/// Whether the open session still takes an event of this time.
pub open spec fn reaches(track: Track, at: Timestamp) -> bool {
    &&& track.open
    &&& track.sessions.len() > 0
    &&& clock::seconds_from(at, track.last_activity) <= INACTIVITY_SECONDS
    &&& clock::seconds_from(at, track.sessions.last().started_at) <= HARD_LIMIT_SECONDS
}

pub open spec fn contains_resource(opened: Seq<Observation>, id: Uuid) -> bool {
    exists|i: int| 0 <= i < opened.len() && (#[trigger] opened[i]).resource_id == id
}

/// The openings of a session after one more: only the first opening of a resource is
/// kept, and at most five resources are.
pub open spec fn with_opening(opened: Seq<Observation>, item: Observation) -> Seq<Observation> {
    if contains_resource(opened, item.resource_id) || opened.len() >= MAX_ACTIONS {
        opened
    } else {
        opened.push(item)
    }
}

/// One step of the reading.
pub open spec fn advance(track: Track, item: Observation) -> Track {
    if item.is_anchor {
        if merges(track, item) {
            Track { last_activity: item.received_at, ..track }
        } else {
            Track {
                sessions: track.sessions.push(
                    SessionModel {
                        workspace: item.resource_id,
                        anchor_event: item.event_id,
                        started_at: item.received_at,
                        opened: Seq::empty(),
                    },
                ),
                open: true,
                last_activity: item.received_at,
            }
        }
    } else if reaches(track, item.received_at) {
        let session = track.sessions.last();
        Track {
            sessions: track.sessions.drop_last().push(
                SessionModel { opened: with_opening(session.opened, item), ..session },
            ),
            open: true,
            last_activity: item.received_at,
        }
    } else {
        Track { open: false, ..track }
    }
}

pub open spec fn track(items: Seq<Observation>, n: int) -> Track
    decreases n,
{
    if n <= 0 {
        track_start()
    } else {
        advance(track(items, n - 1), items[n - 1])
    }
}

/// The sessions that the events make up.
pub open spec fn sessions_of(
    resources: Seq<Resource>,
    scopes: Seq<ObservationScope>,
    events: Seq<Event>,
) -> Seq<SessionModel> {
    let items = in_order(resources, scopes, events, events.len() as int);
    track(items, items.len() as int).sessions
}

/// A session while it is put together.
pub struct SessionDraft {
    pub workspace: Uuid,
    pub anchor_event: Uuid,
    pub started_at: Timestamp,
    pub opened: Vec<Observation>,
}

impl View for SessionDraft {
    type V = SessionModel;

    open spec fn view(&self) -> SessionModel {
        SessionModel {
            workspace: self.workspace,
            anchor_event: self.anchor_event,
            started_at: self.started_at,
            opened: self.opened@,
        }
    }
}

pub open spec fn models(drafts: Seq<SessionDraft>) -> Seq<SessionModel> {
    drafts.map_values(|draft: SessionDraft| draft@)
}

pub fn active_scope(resource_id: Uuid, source: ObservationSource, scopes: &[ObservationScope]) -> (r:
    bool)
    ensures
        r == has_active_scope(scopes@, resource_id, source),
{
    for i in 0..scopes.len()
        invariant
            forall|j: int|
                0 <= j < i ==> !((#[trigger] scopes@[j]).resource_id == resource_id
                    && scopes@[j].source == source && scopes@[j].status
                    == ObservationStatus::Active),
    {
        if scopes[i].resource_id == resource_id && scopes[i].source == source && scopes[i].status
            == ObservationStatus::Active {
            return true;
        }
    }
    false
}

pub fn eligible_resource(
    resources: &[Resource],
    scopes: &[ObservationScope],
    id: Uuid,
    kind: ResourceKind,
    source: ObservationSource,
) -> (r: bool)
    ensures
        r == is_eligible(resources@, scopes@, id, kind, source),
{
    for i in 0..resources.len()
        invariant
            forall|j: int|
                0 <= j < i ==> !((#[trigger] resources@[j]).id == id && resources@[j].kind == kind),
    {
        if resources[i].id == id && resources[i].kind == kind {
            return active_scope(id, source, scopes);
        }
    }
    false
}

fn observe(resources: &[Resource], scopes: &[ObservationScope], event: &Event) -> (r: Option<
    Observation,
>)
    ensures
        r == observed(resources@, scopes@, *event),
{
    if event.actor != Actor::User {
        return None;
    }
    match (event.event_type, &event.data) {
        (
            EventType::VscodeWorkspaceOpenedV1,
            EventData::VscodeWorkspaceOpened { resource_id },
        ) => {
            if eligible_resource(
                resources,
                scopes,
                *resource_id,
                ResourceKind::Directory,
                ObservationSource::VscodeWorkspace,
            ) {
                Some(
                    Observation {
                        event_id: event.id,
                        received_at: event.received_at,
                        resource_id: *resource_id,
                        is_anchor: true,
                    },
                )
            } else {
                None
            }
        },
        (
            EventType::BrowserResourceOpenedV1,
            EventData::BrowserResourceOpened { resource_id },
        ) => {
            if eligible_resource(
                resources,
                scopes,
                *resource_id,
                ResourceKind::WebPage,
                ObservationSource::BrowserChromium,
            ) {
                Some(
                    Observation {
                        event_id: event.id,
                        received_at: event.received_at,
                        resource_id: *resource_id,
                        is_anchor: false,
                    },
                )
            } else {
                None
            }
        },
        _ => None,
    }
}

fn is_after(a: &Observation, b: &Observation) -> (r: bool)
    ensures
        r == comes_after(*a, *b),
{
    let left: i128 = a.received_at.instant_nanos();
    let right: i128 = b.received_at.instant_nanos();
    left > right || (left == right && a.event_id.value > b.event_id.value)
}

fn insert_ordered(ordered: &mut Vec<Observation>, item: Observation)
    ensures
        final(ordered)@ == old(ordered)@.insert(
            place(old(ordered)@, item, old(ordered)@.len() as int),
            item,
        ),
{
    let mut n: usize = ordered.len();
    while n > 0 && is_after(&ordered[n - 1], &item)
        invariant
            n <= ordered@.len(),
            place(ordered@, item, ordered@.len() as int) == place(ordered@, item, n as int),
        decreases n,
    {
        n = n - 1;
    }
    ordered.insert(n, item);
}

/// What the events count as, in reading order.
pub fn read_in_order(
    resources: &[Resource],
    scopes: &[ObservationScope],
    events: &[Event],
) -> (items: Vec<Observation>)
    ensures
        items@ == in_order(resources@, scopes@, events@, events@.len() as int),
        items@.len() <= events@.len(),
{
    let mut items: Vec<Observation> = Vec::new();
    for i in 0..events.len()
        invariant
            items@ == in_order(resources@, scopes@, events@, i as int),
            items@.len() <= i,
    {
        if let Some(item) = observe(resources, scopes, &events[i]) {
            let ghost before = items@;
            insert_ordered(&mut items, item);
            proof {
                place_in_bounds(before, item, before.len() as int);
            }
        }
    }
    items
}

proof fn place_in_bounds(ordered: Seq<Observation>, item: Observation, n: int)
    requires
        0 <= n <= ordered.len(),
    ensures
        0 <= place(ordered, item, n) <= n,
    decreases n,
{
    if n > 0 && comes_after(ordered[n - 1], item) {
        place_in_bounds(ordered, item, n - 1);
    }
}

fn opened_before(opened: &Vec<Observation>, id: Uuid) -> (r: bool)
    ensures
        r == contains_resource(opened@, id),
{
    for i in 0..opened.len()
        invariant
            forall|j: int| 0 <= j < i ==> (#[trigger] opened@[j]).resource_id != id,
    {
        if opened[i].resource_id == id {
            return true;
        }
    }
    false
}

/// Reads the observations once and splits them into sessions.
pub fn split(items: &[Observation]) -> (drafts: Vec<SessionDraft>)
    ensures
        models(drafts@) == track(items@, items@.len() as int).sessions,
        drafts@.len() <= items@.len(),
{
    let mut drafts: Vec<SessionDraft> = Vec::new();
    let mut open: bool = false;
    let mut last_activity = Timestamp::unix_epoch();
    proof {
        assert(models(drafts@) =~= Seq::<SessionModel>::empty());
    }
    for i in 0..items.len()
        invariant
            models(drafts@) == track(items@, i as int).sessions,
            open == track(items@, i as int).open,
            last_activity == track(items@, i as int).last_activity,
            drafts@.len() <= i,
    {
        let item = items[i];
        let ghost state = track(items@, i as int);
        let count: usize = drafts.len();
        if item.is_anchor {
            let merge: bool = open && count > 0 && drafts[count - 1].workspace == item.resource_id
                && clock::seconds_between(&item.received_at, &drafts[count - 1].started_at)
                <= ANCHOR_MERGE_SECONDS;
            proof {
                if count > 0 {
                    assert(state.sessions.last() == drafts@[count - 1]@);
                }
                assert(merge == merges(state, item));
            }
            if !merge {
                let ghost before = drafts@;
                let draft = SessionDraft {
                    workspace: item.resource_id,
                    anchor_event: item.event_id,
                    started_at: item.received_at,
                    opened: Vec::new(),
                };
                drafts.push(draft);
                proof {
                    assert(models(drafts@) =~= models(before).push(draft@));
                    assert(draft@.opened =~= Seq::<Observation>::empty());
                }
                open = true;
            }
            last_activity = item.received_at;
        } else {
            let within: bool = open && count > 0 && clock::seconds_between(
                &item.received_at,
                &last_activity,
            ) <= INACTIVITY_SECONDS && clock::seconds_between(
                &item.received_at,
                &drafts[count - 1].started_at,
            ) <= HARD_LIMIT_SECONDS;
            proof {
                if count > 0 {
                    assert(state.sessions.last() == drafts@[count - 1]@);
                }
                assert(within == reaches(state, item.received_at));
            }
            if within {
                let ghost before = drafts@;
                let mut draft = drafts.pop().unwrap();
                let ghost session = draft@;
                if !opened_before(&draft.opened, item.resource_id) && draft.opened.len()
                    < MAX_ACTIONS {
                    draft.opened.push(item);
                }
                proof {
                    assert(draft@.opened =~= with_opening(session.opened, item));
                }
                let ghost kept = draft@;
                drafts.push(draft);
                proof {
                    assert(models(drafts@) =~= models(before).drop_last().push(kept));
                }
                last_activity = item.received_at;
            } else {
                open = false;
            }
        }
    }
    drafts
}

/// Whether the observations stand in reading order.
pub open spec fn is_ordered(items: Seq<Observation>) -> bool {
    forall|i: int, j: int|
        0 <= i < j < items.len() ==> !comes_after(#[trigger] items[i], #[trigger] items[j])
}

proof fn place_splits(ordered: Seq<Observation>, item: Observation, n: int)
    requires
        0 <= n <= ordered.len(),
    ensures
        0 <= place(ordered, item, n) <= n,
        forall|i: int|
            place(ordered, item, n) <= i < n ==> comes_after(#[trigger] ordered[i], item),
        place(ordered, item, n) > 0 ==> !comes_after(ordered[place(ordered, item, n) - 1], item),
    decreases n,
{
    if n > 0 && comes_after(ordered[n - 1], item) {
        place_splits(ordered, item, n - 1);
    }
}

/// The observations that the first `n` events make, in the order of the events.
pub open spec fn observations(
    resources: Seq<Resource>,
    scopes: Seq<ObservationScope>,
    events: Seq<Event>,
    n: int,
) -> Seq<Observation>
    decreases n,
{
    if n <= 0 {
        Seq::empty()
    } else {
        let before = observations(resources, scopes, events, n - 1);
        match observed(resources, scopes, events[n - 1]) {
            Some(item) => before.push(item),
            None => before,
        }
    }
}

/// Reading order neither adds nor drops an observation and depends on the time of
/// receipt and the event id alone, whatever time an adapter says it happened.
pub proof fn reading_order_is_sorted_permutation(
    resources: Seq<Resource>,
    scopes: Seq<ObservationScope>,
    events: Seq<Event>,
    n: int,
)
    requires
        0 <= n <= events.len(),
    ensures
        is_ordered(in_order(resources, scopes, events, n)),
        in_order(resources, scopes, events, n).to_multiset() == observations(
            resources,
            scopes,
            events,
            n,
        ).to_multiset(),
    decreases n,
{
    broadcast use vstd::seq_lib::group_to_multiset_ensures;

    if n > 0 {
        reading_order_is_sorted_permutation(resources, scopes, events, n - 1);
        let before = in_order(resources, scopes, events, n - 1);
        if let Some(item) = observed(resources, scopes, events[n - 1]) {
            let at = place(before, item, before.len() as int);
            place_splits(before, item, before.len() as int);
            let after = before.insert(at, item);
            assert(after.remove(at) =~= before);
            assert(after[at] == item);
            assert(after.contains(item));
            assert(after.to_multiset() =~= before.to_multiset().insert(item));
            assert forall|i: int, j: int| 0 <= i < j < after.len() implies !comes_after(
                #[trigger] after[i],
                #[trigger] after[j],
            ) by {
                let x = if i < at { before[i] } else if i == at { item } else { before[i - 1] };
                let y = if j < at { before[j] } else if j == at { item } else { before[j - 1] };
                assert(after[i] == x);
                assert(after[j] == y);
                if i < at && j == at {
                    if i < at - 1 {
                        assert(!comes_after(before[i], before[at - 1]));
                    }
                }
            }
        }
    }
}

/// What the sessions of a reading are like: a session has at most five openings, of
/// different resources, each a browser observation received no earlier than the session
/// started and no more than the hard limit later; and the sessions start in order.
pub open spec fn is_session(session: SessionModel) -> bool {
    &&& session.opened.len() <= MAX_ACTIONS
    &&& forall|i: int, j: int|
        0 <= i < j < session.opened.len() ==> (#[trigger] session.opened[i]).resource_id != (
        #[trigger] session.opened[j]).resource_id
    &&& forall|i: int|
        0 <= i < session.opened.len() ==> !(#[trigger] session.opened[i]).is_anchor
            && session.started_at.instant() <= session.opened[i].received_at.instant()
            && clock::seconds_from(session.opened[i].received_at, session.started_at)
            <= HARD_LIMIT_SECONDS
    &&& forall|i: int, j: int|
        0 <= i < j < session.opened.len() ==> (#[trigger] session.opened[i]).received_at.instant()
            <= (#[trigger] session.opened[j]).received_at.instant()
}

/// The state that the reading keeps: every session is sound, sessions start in order,
/// and nothing lies behind the time `now` that the reading has reached.
spec fn sound_until(track: Track, now: int) -> bool {
    &&& forall|i: int| 0 <= i < track.sessions.len() ==> is_session(#[trigger] track.sessions[i])
    &&& forall|i: int, j: int|
        0 <= i < j < track.sessions.len() ==> (#[trigger] track.sessions[i]).started_at.instant()
            <= (#[trigger] track.sessions[j]).started_at.instant()
    &&& forall|i: int|
        0 <= i < track.sessions.len() ==> (#[trigger] track.sessions[i]).started_at.instant() <= now
    &&& forall|i: int, k: int|
        0 <= i < track.sessions.len() && 0 <= k < track.sessions[i].opened.len() ==> (
        #[trigger] track.sessions[i].opened[k]).received_at.instant() <= now
}

proof fn track_sound(items: Seq<Observation>, n: int)
    requires
        0 <= n <= items.len(),
        is_ordered(items),
    ensures
        n > 0 ==> sound_until(track(items, n), items[n - 1].received_at.instant()),
        n == 0 ==> track(items, n).sessions.len() == 0,
    decreases n,
{
    if n > 0 {
        track_sound(items, n - 1);
        let state = track(items, n - 1);
        let item = items[n - 1];
        let now = item.received_at.instant();
        if n > 1 {
            assert(!comes_after(items[n - 2], items[n - 1]));
            assert(sound_until(state, now));
        } else {
            assert(sound_until(state, now));
        }
        let next = advance(state, item);
        if item.is_anchor {
            if merges(state, item) {
                assert(next.sessions == state.sessions);
            } else {
                assert forall|i: int| 0 <= i < next.sessions.len() implies is_session(
                    #[trigger] next.sessions[i],
                ) by {
                    if i < state.sessions.len() {
                        assert(next.sessions[i] == state.sessions[i]);
                    }
                }
            }
        } else if reaches(state, item.received_at) {
            let session = state.sessions.last();
            let last = state.sessions.len() - 1;
            assert(is_session(state.sessions[last]));
            assert forall|i: int| 0 <= i < next.sessions.len() implies is_session(
                #[trigger] next.sessions[i],
            ) by {
                if i < last {
                    assert(next.sessions[i] == state.sessions[i]);
                } else {
                    let opened = next.sessions[i].opened;
                    assert(opened == with_opening(session.opened, item));
                    assert forall|a: int| 0 <= a < opened.len() implies (
                    #[trigger] opened[a]).received_at.instant() <= now by {
                        if a < session.opened.len() {
                            assert(opened[a] == state.sessions[last].opened[a]);
                        }
                    }
                }
            }
            assert forall|i: int, k: int|
                0 <= i < next.sessions.len() && 0 <= k < next.sessions[i].opened.len() implies (
            #[trigger] next.sessions[i].opened[k]).received_at.instant() <= now by {
                if i < last {
                    assert(next.sessions[i] == state.sessions[i]);
                } else if k < session.opened.len() {
                    assert(next.sessions[i].opened[k] == state.sessions[last].opened[k]);
                }
            }
        } else {
            assert(next.sessions == state.sessions);
        }
    }
}

/// Sessions start in order, and each of them is sound: see `is_session`.
pub proof fn sessions_are_sound(
    resources: Seq<Resource>,
    scopes: Seq<ObservationScope>,
    events: Seq<Event>,
)
    ensures
        forall|i: int|
            0 <= i < sessions_of(resources, scopes, events).len() ==> is_session(
                #[trigger] sessions_of(resources, scopes, events)[i],
            ),
        forall|i: int, j: int|
            0 <= i < j < sessions_of(resources, scopes, events).len() ==> (
            #[trigger] sessions_of(resources, scopes, events)[i]).started_at.instant() <= (
            #[trigger] sessions_of(resources, scopes, events)[j]).started_at.instant(),
{
    let items = in_order(resources, scopes, events, events.len() as int);
    reading_order_is_sorted_permutation(resources, scopes, events, events.len() as int);
    track_sound(items, items.len() as int);
}

spec fn belongs_below(track: Track, items: Seq<Observation>, n: int) -> bool {
    forall|i: int, k: int|
        0 <= i < track.sessions.len() && 0 <= k < track.sessions[i].opened.len() ==> exists|m: int|
            0 <= m < n && #[trigger] items[m] == #[trigger] track.sessions[i].opened[k]
}

spec fn disjoint(track: Track) -> bool {
    forall|i: int, j: int, k: int, l: int|
        0 <= i < j < track.sessions.len() && 0 <= k < track.sessions[i].opened.len() && 0 <= l
            < track.sessions[j].opened.len() ==> (#[trigger] track.sessions[i].opened[k]).event_id
            != (#[trigger] track.sessions[j].opened[l]).event_id
}

/// An observation belongs to one session at most: two sessions share no event.
pub proof fn sessions_share_no_event(items: Seq<Observation>, n: int)
    requires
        0 <= n <= items.len(),
        forall|i: int, j: int|
            0 <= i < j < items.len() ==> (#[trigger] items[i]).event_id != (
            #[trigger] items[j]).event_id,
    ensures
        forall|i: int, j: int, k: int, l: int|
            0 <= i < j < track(items, n).sessions.len() && 0 <= k < track(
                items,
                n,
            ).sessions[i].opened.len() && 0 <= l < track(items, n).sessions[j].opened.len() ==> (
            #[trigger] track(items, n).sessions[i].opened[k]).event_id != (
            #[trigger] track(items, n).sessions[j].opened[l]).event_id,
{
    track_disjoint(items, n);
}

proof fn track_disjoint(items: Seq<Observation>, n: int)
    requires
        0 <= n <= items.len(),
        forall|i: int, j: int|
            0 <= i < j < items.len() ==> (#[trigger] items[i]).event_id != (
            #[trigger] items[j]).event_id,
    ensures
        disjoint(track(items, n)),
        belongs_below(track(items, n), items, n),
    decreases n,
{
    if n > 0 {
        track_disjoint(items, n - 1);
        let state = track(items, n - 1);
        let item = items[n - 1];
        let next = advance(state, item);
        assert forall|i: int, k: int|
            0 <= i < next.sessions.len() && 0 <= k < next.sessions[i].opened.len() implies exists|
            m: int,
        | 0 <= m < n && #[trigger] items[m] == #[trigger] next.sessions[i].opened[k] by {
            if i < state.sessions.len() && k < state.sessions[i].opened.len() {
                assert(next.sessions[i].opened[k] == state.sessions[i].opened[k]);
            } else {
                assert(items[n - 1] == next.sessions[i].opened[k]);
            }
        }
        assert forall|i: int, j: int, k: int, l: int|
            0 <= i < j < next.sessions.len() && 0 <= k < next.sessions[i].opened.len() && 0 <= l
                < next.sessions[j].opened.len() implies (
        #[trigger] next.sessions[i].opened[k]).event_id != (
        #[trigger] next.sessions[j].opened[l]).event_id by {
            assert(next.sessions[i] == state.sessions[i]);
            assert(state.sessions[i].opened[k] == next.sessions[i].opened[k]);
            if j < state.sessions.len() && l < state.sessions[j].opened.len() {
                assert(next.sessions[j].opened[l] == state.sessions[j].opened[l]);
            } else {
                let m = choose|m: int|
                    0 <= m < n - 1 && #[trigger] items[m] == state.sessions[i].opened[k];
                assert(items[m].event_id != items[n - 1].event_id);
            }
        }
    }
}

/// Whether an observation is what one of the events counts as.
pub open spec fn is_observed(
    resources: Seq<Resource>,
    scopes: Seq<ObservationScope>,
    events: Seq<Event>,
    item: Observation,
) -> bool {
    exists|m: int|
        0 <= m < events.len() && observed(resources, scopes, #[trigger] events[m]) == Some(item)
}

/// The observation with which a session starts.
pub open spec fn anchor_of(session: SessionModel) -> Observation {
    Observation {
        event_id: session.anchor_event,
        received_at: session.started_at,
        resource_id: session.workspace,
        is_anchor: true,
    }
}

proof fn in_order_holds(
    resources: Seq<Resource>,
    scopes: Seq<ObservationScope>,
    events: Seq<Event>,
    n: int,
    item: Observation,
)
    requires
        0 <= n <= events.len(),
    ensures
        in_order(resources, scopes, events, n).contains(item) <==> is_observed(
            resources,
            scopes,
            events.take(n),
            item,
        ),
    decreases n,
{
    if n > 0 {
        in_order_holds(resources, scopes, events, n - 1, item);
        let before = in_order(resources, scopes, events, n - 1);
        let after = in_order(resources, scopes, events, n);
        assert(events.take(n)[n - 1] == events[n - 1]);
        assert forall|m: int| 0 <= m < n - 1 implies #[trigger] events.take(n)[m] == events.take(
            n - 1,
        )[m] by {}
        if let Some(last) = observed(resources, scopes, events[n - 1]) {
            let at = place(before, last, before.len() as int);
            place_in_bounds(before, last, before.len() as int);
            assert(after[at] == last);
            if after.contains(item) {
                let k = choose|k: int| 0 <= k < after.len() && after[k] == item;
                if k < at {
                    assert(before[k] == item);
                } else if k > at {
                    assert(before[k - 1] == item);
                }
            }
            if before.contains(item) {
                let k = choose|k: int| 0 <= k < before.len() && before[k] == item;
                if k < at {
                    assert(after[k] == item);
                } else {
                    assert(after[k + 1] == item);
                }
            }
        }
        if is_observed(resources, scopes, events.take(n - 1), item) {
            let m = choose|m: int|
                0 <= m < n - 1 && observed(resources, scopes, #[trigger] events.take(n - 1)[m])
                    == Some(item);
            assert(events.take(n)[m] == events.take(n - 1)[m]);
        }
        if is_observed(resources, scopes, events.take(n), item) {
            let m = choose|m: int|
                0 <= m < n && observed(resources, scopes, #[trigger] events.take(n)[m]) == Some(
                    item,
                );
            if m < n - 1 {
                assert(events.take(n - 1)[m] == events.take(n)[m]);
            }
        }
    }
}

proof fn sessions_are_of_items(items: Seq<Observation>, n: int)
    requires
        0 <= n <= items.len(),
    ensures
        forall|i: int|
            0 <= i < track(items, n).sessions.len() ==> items.contains(
                anchor_of(#[trigger] track(items, n).sessions[i]),
            ),
        forall|i: int, k: int|
            0 <= i < track(items, n).sessions.len() && 0 <= k < track(
                items,
                n,
            ).sessions[i].opened.len() ==> items.contains(
                #[trigger] track(items, n).sessions[i].opened[k],
            ) && !track(items, n).sessions[i].opened[k].is_anchor,
    decreases n,
{
    if n > 0 {
        sessions_are_of_items(items, n - 1);
        let state = track(items, n - 1);
        let item = items[n - 1];
        let next = advance(state, item);
        assert(items.contains(item));
        assert forall|i: int| 0 <= i < next.sessions.len() implies items.contains(
            anchor_of(#[trigger] next.sessions[i]),
        ) by {
            if i < state.sessions.len() {
                assert(anchor_of(next.sessions[i]) == anchor_of(state.sessions[i]));
            } else {
                assert(anchor_of(next.sessions[i]) == item);
            }
        }
        assert forall|i: int, k: int|
            0 <= i < next.sessions.len() && 0 <= k < next.sessions[i].opened.len() implies items.contains(
            #[trigger] next.sessions[i].opened[k],
        ) && !next.sessions[i].opened[k].is_anchor by {
            if i < state.sessions.len() && k < state.sessions[i].opened.len() {
                assert(next.sessions[i].opened[k] == state.sessions[i].opened[k]);
            } else {
                assert(next.sessions[i].opened[k] == item);
            }
        }
    }
}

/// Sessions hold nothing but what counts: each starts with a workspace that a user opened
/// and holds browser resources that a user opened, all known and under an active scope.
pub proof fn sessions_hold_only_observations(
    resources: Seq<Resource>,
    scopes: Seq<ObservationScope>,
    events: Seq<Event>,
    i: int,
)
    requires
        0 <= i < sessions_of(resources, scopes, events).len(),
    ensures
        is_observed(
            resources,
            scopes,
            events,
            anchor_of(sessions_of(resources, scopes, events)[i]),
        ),
        forall|k: int|
            0 <= k < sessions_of(resources, scopes, events)[i].opened.len() ==> is_observed(
                resources,
                scopes,
                events,
                #[trigger] sessions_of(resources, scopes, events)[i].opened[k],
            ) && !sessions_of(resources, scopes, events)[i].opened[k].is_anchor,
{
    let n = events.len() as int;
    let items = in_order(resources, scopes, events, n);
    let session = sessions_of(resources, scopes, events)[i];
    assert(events.take(n) =~= events);
    sessions_are_of_items(items, items.len() as int);
    in_order_holds(resources, scopes, events, n, anchor_of(session));
    assert forall|k: int| 0 <= k < session.opened.len() implies is_observed(
        resources,
        scopes,
        events,
        #[trigger] session.opened[k],
    ) by {
        in_order_holds(resources, scopes, events, n, session.opened[k]);
    }
}

/// When an adapter says that something happened plays no part: events that differ in that
/// alone make up the same sessions.
pub proof fn occurrence_times_do_not_matter(
    resources: Seq<Resource>,
    scopes: Seq<ObservationScope>,
    events: Seq<Event>,
    others: Seq<Event>,
)
    requires
        events.len() == others.len(),
        forall|i: int|
            0 <= i < events.len() ==> (#[trigger] others[i]) == (Event {
                occurred_at: others[i].occurred_at,
                ..events[i]
            }),
    ensures
        sessions_of(resources, scopes, events) == sessions_of(resources, scopes, others),
{
    same_order(resources, scopes, events, others, events.len() as int);
}

proof fn same_order(
    resources: Seq<Resource>,
    scopes: Seq<ObservationScope>,
    events: Seq<Event>,
    others: Seq<Event>,
    n: int,
)
    requires
        0 <= n <= events.len(),
        events.len() == others.len(),
        forall|i: int|
            0 <= i < events.len() ==> (#[trigger] others[i]) == (Event {
                occurred_at: others[i].occurred_at,
                ..events[i]
            }),
    ensures
        in_order(resources, scopes, events, n) == in_order(resources, scopes, others, n),
    decreases n,
{
    if n > 0 {
        same_order(resources, scopes, events, others, n - 1);
        assert(observed(resources, scopes, others[n - 1]) == observed(
            resources,
            scopes,
            events[n - 1],
        ));
    }
}

/// No two events have one identifier.
pub open spec fn distinct_ids(events: Seq<Event>) -> bool {
    forall|i: int, j: int|
        0 <= i < j < events.len() ==> (#[trigger] events[i]).id != (#[trigger] events[j]).id
}

/// Whether each observation comes after all that stand before it.
spec fn strictly_ordered(items: Seq<Observation>) -> bool {
    forall|i: int, j: int|
        0 <= i < j < items.len() ==> comes_after(#[trigger] items[j], #[trigger] items[i])
}

proof fn in_order_strictly(
    resources: Seq<Resource>,
    scopes: Seq<ObservationScope>,
    events: Seq<Event>,
    n: int,
)
    requires
        0 <= n <= events.len(),
        distinct_ids(events),
    ensures
        strictly_ordered(in_order(resources, scopes, events, n)),
    decreases n,
{
    if n > 0 {
        in_order_strictly(resources, scopes, events, n - 1);
        let before = in_order(resources, scopes, events, n - 1);
        if let Some(item) = observed(resources, scopes, events[n - 1]) {
            let at = place(before, item, before.len() as int);
            place_splits(before, item, before.len() as int);
            let after = before.insert(at, item);
            assert forall|i: int| 0 <= i < before.len() implies (
            #[trigger] before[i]).event_id != item.event_id by {
                in_order_holds(resources, scopes, events, n - 1, before[i]);
                assert(before.contains(before[i]));
                let m = choose|m: int|
                    0 <= m < n - 1 && observed(
                        resources,
                        scopes,
                        #[trigger] events.take(n - 1)[m],
                    ) == Some(before[i]);
                assert(events.take(n - 1)[m] == events[m]);
                assert(events[m].id != events[n - 1].id);
            }
            assert forall|i: int, j: int| 0 <= i < j < after.len() implies comes_after(
                #[trigger] after[j],
                #[trigger] after[i],
            ) by {
                let x = if i < at { before[i] } else if i == at { item } else { before[i - 1] };
                let y = if j < at { before[j] } else if j == at { item } else { before[j - 1] };
                assert(after[i] == x);
                assert(after[j] == y);
                if i < at && j == at && i < at - 1 {
                    assert(comes_after(before[at - 1], before[i]));
                }
            }
        }
    }
}

proof fn strict_order_is_unique(a: Seq<Observation>, b: Seq<Observation>)
    requires
        strictly_ordered(a),
        strictly_ordered(b),
        forall|item: Observation| #[trigger] a.contains(item) <==> b.contains(item),
    ensures
        a == b,
    decreases a.len(),
{
    if a.len() == 0 {
        if b.len() > 0 {
            assert(b.contains(b[0]));
            assert(a.contains(b[0]));
        }
        assert(a =~= b);
    } else {
        let x = a.last();
        assert(a.contains(x));
        assert(b.contains(x));
        let y = b.last();
        assert(b.contains(y));
        assert(a.contains(y));
        let j = choose|j: int| 0 <= j < b.len() && b[j] == x;
        let i = choose|i: int| 0 <= i < a.len() && a[i] == y;
        if x != y {
            assert(comes_after(b[b.len() - 1], b[j]));
            assert(comes_after(a[a.len() - 1], a[i]));
        }
        let c = a.drop_last();
        let d = b.drop_last();
        assert forall|item: Observation| #[trigger] c.contains(item) <==> d.contains(item) by {
            if c.contains(item) {
                let k = choose|k: int| 0 <= k < c.len() && c[k] == item;
                assert(a[k] == item);
                assert(comes_after(a[a.len() - 1], a[k]));
                assert(a.contains(item));
                let m = choose|m: int| 0 <= m < b.len() && b[m] == item;
                assert(d[m] == item);
            }
            if d.contains(item) {
                let k = choose|k: int| 0 <= k < d.len() && d[k] == item;
                assert(b[k] == item);
                assert(comes_after(b[b.len() - 1], b[k]));
                assert(b.contains(item));
                assert(a.contains(item));
                let m = choose|m: int| 0 <= m < a.len() && a[m] == item;
                assert(c[m] == item);
            }
        }
        strict_order_is_unique(c, d);
        assert(a =~= c.push(x));
        assert(b =~= d.push(y));
    }
}

/// Events that count as the same observations, each once, make up the same sessions.
pub(crate) proof fn same_observations_same_sessions(
    resources: Seq<Resource>,
    scopes: Seq<ObservationScope>,
    events: Seq<Event>,
    other_resources: Seq<Resource>,
    other_scopes: Seq<ObservationScope>,
    others: Seq<Event>,
)
    requires
        distinct_ids(events),
        distinct_ids(others),
        forall|item: Observation| #[trigger]
            is_observed(resources, scopes, events, item) <==> is_observed(
                other_resources,
                other_scopes,
                others,
                item,
            ),
    ensures
        sessions_of(resources, scopes, events) == sessions_of(
            other_resources,
            other_scopes,
            others,
        ),
{
    let a = in_order(resources, scopes, events, events.len() as int);
    let b = in_order(other_resources, other_scopes, others, others.len() as int);
    in_order_strictly(resources, scopes, events, events.len() as int);
    in_order_strictly(other_resources, other_scopes, others, others.len() as int);
    assert(events.take(events.len() as int) =~= events);
    assert(others.take(others.len() as int) =~= others);
    assert forall|item: Observation| #[trigger] a.contains(item) <==> b.contains(item) by {
        in_order_holds(resources, scopes, events, events.len() as int, item);
        in_order_holds(other_resources, other_scopes, others, others.len() as int, item);
        assert(is_observed(resources, scopes, events, item) <==> is_observed(
            other_resources,
            other_scopes,
            others,
            item,
        ));
    }
    strict_order_is_unique(a, b);
}

/// Whether two events say the same, but for when they happened.
pub open spec fn same_but_for_occurrence(a: Event, b: Event) -> bool {
    b == (Event { occurred_at: b.occurred_at, ..a })
}

/// Whether every event of the one sequence stands in the other too, but for when it
/// happened.
pub open spec fn covered(events: Seq<Event>, others: Seq<Event>) -> bool {
    forall|i: int|
        0 <= i < events.len() ==> exists|k: int|
            0 <= k < others.len() && same_but_for_occurrence(
                #[trigger] events[i],
                #[trigger] others[k],
            )
}

/// Whether two sequences hold the same, in whatever order.
pub open spec fn holds_the_same<T>(a: Seq<T>, b: Seq<T>) -> bool {
    forall|item: T| #[trigger] a.contains(item) <==> b.contains(item)
}

proof fn eligible_alike(
    resources: Seq<Resource>,
    scopes: Seq<ObservationScope>,
    other_resources: Seq<Resource>,
    other_scopes: Seq<ObservationScope>,
    id: Uuid,
    kind: ResourceKind,
    source: ObservationSource,
)
    requires
        holds_the_same(resources, other_resources),
        holds_the_same(scopes, other_scopes),
        is_eligible(resources, scopes, id, kind, source),
    ensures
        is_eligible(other_resources, other_scopes, id, kind, source),
{
    let i = choose|i: int|
        0 <= i < resources.len() && (#[trigger] resources[i]).id == id && resources[i].kind
            == kind;
    assert(resources.contains(resources[i]));
    let k = choose|k: int| 0 <= k < other_resources.len() && other_resources[k] == resources[i];
    assert(other_resources[k].id == id);
    let m = choose|m: int|
        0 <= m < scopes.len() && (#[trigger] scopes[m]).resource_id == id && scopes[m].source
            == source && scopes[m].status == ObservationStatus::Active;
    assert(scopes.contains(scopes[m]));
    let n = choose|n: int| 0 <= n < other_scopes.len() && other_scopes[n] == scopes[m];
    assert(other_scopes[n].resource_id == id);
}

proof fn observed_alike(
    resources: Seq<Resource>,
    scopes: Seq<ObservationScope>,
    other_resources: Seq<Resource>,
    other_scopes: Seq<ObservationScope>,
    event: Event,
    other: Event,
)
    requires
        holds_the_same(resources, other_resources),
        holds_the_same(scopes, other_scopes),
        same_but_for_occurrence(event, other) || same_but_for_occurrence(other, event),
        observed(resources, scopes, event) is Some,
    ensures
        observed(other_resources, other_scopes, other) == observed(resources, scopes, event),
{
    match event.data {
        EventData::VscodeWorkspaceOpened { resource_id } => {
            eligible_alike(
                resources,
                scopes,
                other_resources,
                other_scopes,
                resource_id,
                ResourceKind::Directory,
                ObservationSource::VscodeWorkspace,
            );
        },
        EventData::BrowserResourceOpened { resource_id } => {
            eligible_alike(
                resources,
                scopes,
                other_resources,
                other_scopes,
                resource_id,
                ResourceKind::WebPage,
                ObservationSource::BrowserChromium,
            );
        },
        _ => {},
    }
}

proof fn observations_carry_over(
    resources: Seq<Resource>,
    scopes: Seq<ObservationScope>,
    events: Seq<Event>,
    other_resources: Seq<Resource>,
    other_scopes: Seq<ObservationScope>,
    others: Seq<Event>,
    item: Observation,
)
    requires
        holds_the_same(resources, other_resources),
        holds_the_same(scopes, other_scopes),
        covered(events, others),
        is_observed(resources, scopes, events, item),
    ensures
        is_observed(other_resources, other_scopes, others, item),
{
    let m = choose|m: int|
        0 <= m < events.len() && observed(resources, scopes, #[trigger] events[m]) == Some(item);
    let k = choose|k: int|
        0 <= k < others.len() && same_but_for_occurrence(events[m], #[trigger] others[k]);
    observed_alike(resources, scopes, other_resources, other_scopes, events[m], others[k]);
    assert(observed(other_resources, other_scopes, others[k]) == Some(item));
}

/// The order in which events, resources and scopes are handed in plays no part, and neither
/// does the time at which an adapter says that something happened: the same events, each
/// once, make up the same sessions.
pub proof fn input_order_does_not_matter(
    resources: Seq<Resource>,
    scopes: Seq<ObservationScope>,
    events: Seq<Event>,
    other_resources: Seq<Resource>,
    other_scopes: Seq<ObservationScope>,
    others: Seq<Event>,
)
    requires
        distinct_ids(events),
        distinct_ids(others),
        covered(events, others),
        covered(others, events),
        holds_the_same(resources, other_resources),
        holds_the_same(scopes, other_scopes),
    ensures
        sessions_of(resources, scopes, events) == sessions_of(
            other_resources,
            other_scopes,
            others,
        ),
{
    assert forall|item: Observation| #[trigger]
        is_observed(resources, scopes, events, item) <==> is_observed(
            other_resources,
            other_scopes,
            others,
            item,
        ) by {
        if is_observed(resources, scopes, events, item) {
            observations_carry_over(
                resources,
                scopes,
                events,
                other_resources,
                other_scopes,
                others,
                item,
            );
        }
        if is_observed(other_resources, other_scopes, others, item) {
            observations_carry_over(
                other_resources,
                other_scopes,
                others,
                resources,
                scopes,
                events,
                item,
            );
        }
    }
    same_observations_same_sessions(
        resources,
        scopes,
        events,
        other_resources,
        other_scopes,
        others,
    );
}

/// The events that count.
pub open spec fn counting(
    resources: Seq<Resource>,
    scopes: Seq<ObservationScope>,
    events: Seq<Event>,
) -> Seq<Event> {
    events.filter(|event: Event| observed(resources, scopes, event) is Some)
}

proof fn counting_in_order(
    resources: Seq<Resource>,
    scopes: Seq<ObservationScope>,
    events: Seq<Event>,
    n: int,
)
    requires
        0 <= n <= events.len(),
    ensures
        in_order(resources, scopes, events, n) == in_order(
            resources,
            scopes,
            counting(resources, scopes, events.take(n)),
            counting(resources, scopes, events.take(n)).len() as int,
        ),
    decreases n,
{
    reveal(Seq::filter);
    if n > 0 {
        counting_in_order(resources, scopes, events, n - 1);
        let before = counting(resources, scopes, events.take(n - 1));
        let after = counting(resources, scopes, events.take(n));
        assert(events.take(n).drop_last() =~= events.take(n - 1));
        if observed(resources, scopes, events[n - 1]) is Some {
            assert(after == before.push(events[n - 1]));
            let count = before.len() as int;
            assert(after.take(count) =~= before.take(count));
            shorter_in_order(resources, scopes, after, before, count);
        }
    }
}

proof fn shorter_in_order(
    resources: Seq<Resource>,
    scopes: Seq<ObservationScope>,
    events: Seq<Event>,
    others: Seq<Event>,
    n: int,
)
    requires
        0 <= n <= events.len(),
        n <= others.len(),
        events.take(n) == others.take(n),
    ensures
        in_order(resources, scopes, events, n) == in_order(resources, scopes, others, n),
    decreases n,
{
    if n > 0 {
        assert(events.take(n - 1) =~= events.take(n).take(n - 1));
        assert(others.take(n - 1) =~= others.take(n).take(n - 1));
        shorter_in_order(resources, scopes, events, others, n - 1);
        assert(events[n - 1] == events.take(n)[n - 1]);
        assert(others[n - 1] == others.take(n)[n - 1]);
    }
}

/// What does not count plays no part: without it, the events make up the same sessions.
pub proof fn what_does_not_count_does_not_matter(
    resources: Seq<Resource>,
    scopes: Seq<ObservationScope>,
    events: Seq<Event>,
)
    ensures
        sessions_of(resources, scopes, counting(resources, scopes, events)) == sessions_of(
            resources,
            scopes,
            events,
        ),
{
    counting_in_order(resources, scopes, events, events.len() as int);
    assert(events.take(events.len() as int) =~= events);
}

} // verus!
