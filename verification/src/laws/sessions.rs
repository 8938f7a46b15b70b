//! Splitting what was observed into sessions.

use vstd::prelude::*;
use crate::event::{Actor, Event, EventData, EventType};
use crate::ids::Uuid;
use crate::mining::session;
use crate::mining::session::{Observation, Track};
use crate::resource::{
    ObservationScope, ObservationSource, ObservationStatus, Resource, ResourceKind,
};

verus! {

/// Whether a resource of a kind is registered and observed through a source.
pub open spec fn is_observed(
    resources: Seq<Resource>,
    scopes: Seq<ObservationScope>,
    id: Uuid,
    kind: ResourceKind,
    source: ObservationSource,
) -> bool {
    &&& exists|i: int|
        0 <= i < resources.len() && (#[trigger] resources[i]).id == id && resources[i].kind == kind
    &&& exists|i: int|
        0 <= i < scopes.len() && (#[trigger] scopes[i]).resource_id == id && scopes[i].source
            == source && scopes[i].status == ObservationStatus::Active
}

/// What a user did counts exactly when it is the start of an observed workspace or the
/// opening of an observed page: the one begins a session, the other does not, and both
/// count for the time at which they were received.
pub proof fn observed_starts_and_pages_count(
    resources: Seq<Resource>,
    scopes: Seq<ObservationScope>,
    event: Event,
    item: Observation,
)
    ensures
        session::observed(resources, scopes, event) == Some(item) <==> {
            &&& event.actor == Actor::User
            &&& item.event_id == event.id
            &&& item.received_at == event.received_at
            &&& {
                ||| {
                    &&& item.is_anchor
                    &&& event.event_type == EventType::VscodeWorkspaceOpenedV1
                    &&& event.data == (EventData::VscodeWorkspaceOpened {
                        resource_id: item.resource_id,
                    })
                    &&& is_observed(
                        resources,
                        scopes,
                        item.resource_id,
                        ResourceKind::Directory,
                        ObservationSource::VscodeWorkspace,
                    )
                }
                ||| {
                    &&& !item.is_anchor
                    &&& event.event_type == EventType::BrowserResourceOpenedV1
                    &&& event.data == (EventData::BrowserResourceOpened {
                        resource_id: item.resource_id,
                    })
                    &&& is_observed(
                        resources,
                        scopes,
                        item.resource_id,
                        ResourceKind::WebPage,
                        ObservationSource::BrowserChromium,
                    )
                }
            }
        },
{
}

/// The start of a workspace begins a new session, with nothing opened yet, except where the
/// session that is open is of the same workspace and began at most five minutes before: then
/// it belongs to that session.
pub proof fn workspaces_begin_sessions(track: Track, item: Observation)
    requires
        item.is_anchor,
    ensures
        ({
            let belongs = track.open && track.sessions.len() > 0
                && track.sessions.last().workspace == item.resource_id
                && item.received_at.instant() - track.sessions.last().started_at.instant()
                < 301_000_000_000;
            let next = session::advance(track, item);
            &&& next.open
            &&& next.last_activity == item.received_at
            &&& belongs ==> next.sessions == track.sessions
            &&& !belongs ==> {
                &&& next.sessions.len() == track.sessions.len() + 1
                &&& next.sessions.drop_last() == track.sessions
                &&& next.sessions.last().workspace == item.resource_id
                &&& next.sessions.last().anchor_event == item.event_id
                &&& next.sessions.last().started_at == item.received_at
                &&& next.sessions.last().opened.len() == 0
            }
        }),
{
    let next = session::advance(track, item);
    if next.sessions.len() == track.sessions.len() + 1 {
        assert(next.sessions.drop_last() =~= track.sessions);
    }
}

/// A page joins the session that is open exactly when at most half an hour has passed since
/// anything happened in it, and at most two hours since it began; one that comes too late
/// joins none, and closes the session. A session takes each page once and five at most.
pub proof fn pages_join_sessions(track: Track, item: Observation)
    requires
        !item.is_anchor,
    ensures
        ({
            let joins = track.open && track.sessions.len() > 0 && item.received_at.instant()
                - track.last_activity.instant() < 1_801_000_000_000 && item.received_at.instant()
                - track.sessions.last().started_at.instant() < 7_201_000_000_000;
            let next = session::advance(track, item);
            &&& next.open <==> joins
            &&& !joins ==> next.sessions == track.sessions
            &&& joins ==> {
                let before = track.sessions.last();
                let after = next.sessions.last();
                let is_new = forall|i: int|
                    0 <= i < before.opened.len() ==> (#[trigger] before.opened[i]).resource_id
                        != item.resource_id;
                &&& next.last_activity == item.received_at
                &&& next.sessions.len() == track.sessions.len()
                &&& next.sessions.drop_last() == track.sessions.drop_last()
                &&& after.workspace == before.workspace
                &&& after.anchor_event == before.anchor_event
                &&& after.started_at == before.started_at
                &&& after.opened == (if is_new && before.opened.len() < 5 {
                    before.opened.push(item)
                } else {
                    before.opened
                })
            }
        }),
{
    let next = session::advance(track, item);
    if next.open {
        assert(next.sessions.drop_last() =~= track.sessions.drop_last());
    }
}

/// Events are read by the time at which they were received, and at one time by their
/// identifiers.
pub proof fn events_are_read_in_order(a: Observation, b: Observation)
    ensures
        session::comes_after(a, b) <==> a.received_at.instant() > b.received_at.instant() || (
        a.received_at.instant() == b.received_at.instant() && a.event_id.value > b.event_id.value),
        !(session::comes_after(a, b) && session::comes_after(b, a)),
        !session::comes_after(a, b) && !session::comes_after(b, a) ==> a.received_at.instant()
            == b.received_at.instant() && a.event_id == b.event_id,
{
}

/// The reading begins with no session and takes one event after the other, up to the last.
pub proof fn reading_takes_every_event(items: Seq<Observation>, item: Observation)
    ensures
        session::track(items, 0).sessions.len() == 0,
        !session::track(items, 0).open,
        session::track(items.push(item), items.len() as int + 1) == session::advance(
            session::track(items, items.len() as int),
            item,
        ),
{
    same_beginning(items, items.push(item), items.len() as int);
}

proof fn same_beginning(a: Seq<Observation>, b: Seq<Observation>, n: int)
    requires
        0 <= n <= a.len(),
        n <= b.len(),
        forall|i: int| 0 <= i < n ==> a[i] == b[i],
    ensures
        session::track(a, n) == session::track(b, n),
    decreases n,
{
    if n > 0 {
        same_beginning(a, b, n - 1);
    }
}

/// The sessions of a discovery are those of all of its events that count, in their order.
pub proof fn sessions_come_from_every_event(
    resources: Seq<Resource>,
    scopes: Seq<ObservationScope>,
    events: Seq<Event>,
    event: Event,
)
    ensures
        ({
            let read = session::in_order(resources, scopes, events, events.len() as int);
            let more = session::in_order(
                resources,
                scopes,
                events.push(event),
                events.len() as int + 1,
            );
            &&& session::sessions_of(resources, scopes, events) == session::track(
                read,
                read.len() as int,
            ).sessions
            &&& session::observed(resources, scopes, event) is None ==> more == read
            &&& session::observed(resources, scopes, event) matches Some(item) ==> more.len()
                == read.len() + 1 && more.to_multiset() == read.to_multiset().insert(item)
        }),
{
    broadcast use vstd::seq_lib::group_to_multiset_ensures;

    let n = events.len() as int;
    same_reading(resources, scopes, events, events.push(event), n);
    let read = session::in_order(resources, scopes, events, n);
    if let Some(item) = session::observed(resources, scopes, event) {
        let at = session::place(read, item, read.len() as int);
        place_is_within(read, item, read.len() as int);
        let more = read.insert(at, item);
        assert(more.remove(at) =~= read);
        assert(more.contains(more[at]));
        assert(more.to_multiset() =~= read.to_multiset().insert(item));
    }
}

proof fn place_is_within(ordered: Seq<Observation>, item: Observation, n: int)
    requires
        0 <= n <= ordered.len(),
    ensures
        0 <= session::place(ordered, item, n) <= n,
    decreases n,
{
    if n > 0 && session::comes_after(ordered[n - 1], item) {
        place_is_within(ordered, item, n - 1);
    }
}

proof fn same_reading(
    resources: Seq<Resource>,
    scopes: Seq<ObservationScope>,
    a: Seq<Event>,
    b: Seq<Event>,
    n: int,
)
    requires
        0 <= n <= a.len(),
        n <= b.len(),
        forall|i: int| 0 <= i < n ==> a[i] == b[i],
    ensures
        session::in_order(resources, scopes, a, n) == session::in_order(resources, scopes, b, n),
    decreases n,
{
    if n > 0 {
        same_reading(resources, scopes, a, b, n - 1);
    }
}

} // verus!
