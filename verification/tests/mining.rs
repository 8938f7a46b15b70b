//! Discovery of repeated workspace starts.

use fubun::clock::Timestamp;
use fubun::event::{
    Actor, AdapterIdentity, Event, EventData, EventType, PrivacyClass, EVENT_SPEC_VERSION,
};
use fubun::ids::Uuid;
use fubun::mining::fingerprint::fingerprint;
use fubun::mining::median::median;
use fubun::mining::{discover, DiscoveryInput};
use fubun::resource::{
    ObservationScope, ObservationSource, ObservationStatus, Resource, ResourceKind, ResourceScope,
    Sensitivity,
};

fn at(seconds: i64) -> Timestamp {
    Timestamp::unix_epoch().plus_seconds(seconds).expect("time")
}

fn resource(id: Uuid, kind: ResourceKind) -> Resource {
    let locator = if kind == ResourceKind::WebPage {
        "https://example.com/page"
    } else {
        "/tmp/fubun-fixture"
    };
    Resource {
        id,
        kind,
        label: "fixture".to_owned(),
        locator: locator.to_owned(),
        canonical_locator: locator.to_owned(),
        sensitivity: Sensitivity::Normal,
        scope: ResourceScope::Exact,
        created_at: at(0),
        updated_at: at(0),
    }
}

fn scope(resource_id: Uuid, source: ObservationSource) -> ObservationScope {
    ObservationScope {
        id: Uuid::from_u128(resource_id.value + 1_000),
        source,
        resource_id,
        status: ObservationStatus::Active,
        created_at: at(0),
        updated_at: at(0),
    }
}

fn event(id: u128, received_at: Timestamp, sequence_no: u64, data: EventData) -> Event {
    let event_type = match data {
        EventData::Synthetic { .. } => EventType::SyntheticV1,
        EventData::BrowserResourceOpened { .. } => EventType::BrowserResourceOpenedV1,
        EventData::VscodeWorkspaceOpened { .. } => EventType::VscodeWorkspaceOpenedV1,
    };
    Event {
        spec_version: EVENT_SPEC_VERSION.to_owned(),
        id: Uuid::from_u128(id),
        event_type,
        source: "fixture".to_owned(),
        occurred_at: received_at,
        received_at,
        actor: Actor::User,
        adapter: AdapterIdentity {
            id: "fixture".to_owned(),
            version: "1".to_owned(),
            instance_id: Uuid::from_u128(999),
            sequence_no,
        },
        context: None,
        privacy: PrivacyClass::Normal,
        data,
    }
}

fn opened(resource_id: Uuid) -> EventData {
    EventData::BrowserResourceOpened { resource_id }
}

fn anchored(resource_id: Uuid) -> EventData {
    EventData::VscodeWorkspaceOpened { resource_id }
}

struct Fixture {
    workspace: Uuid,
    pages: Vec<Uuid>,
}

fn fixture() -> Fixture {
    Fixture {
        workspace: Uuid::from_u128(10),
        pages: vec![Uuid::from_u128(11), Uuid::from_u128(12), Uuid::from_u128(13)],
    }
}

impl Fixture {
    fn input(&self, events: Vec<Event>) -> DiscoveryInput {
        let mut resources = vec![resource(self.workspace, ResourceKind::Directory)];
        let mut scopes = vec![scope(self.workspace, ObservationSource::VscodeWorkspace)];
        for page in &self.pages {
            resources.push(resource(*page, ResourceKind::WebPage));
            scopes.push(scope(*page, ObservationSource::BrowserChromium));
        }
        DiscoveryInput { events, resources, scopes }
    }

    /// A start of the workspace with pages opened so many seconds later.
    fn start(&self, number: u128, offset: i64, opens: &[(i64, usize)]) -> Vec<Event> {
        let mut events = vec![event(
            1_000 * number,
            at(offset),
            1_000 * number as u64,
            anchored(self.workspace),
        )];
        for (k, (delay, page)) in opens.iter().enumerate() {
            events.push(event(
                1_000 * number + 1 + k as u128,
                at(offset + delay),
                1_000 * number as u64 + 1 + k as u64,
                opened(self.pages[*page]),
            ));
        }
        events
    }
}

const DAY: i64 = 18 * 60 * 60;

#[test]
fn fingerprint_is_stable_and_order_sensitive() {
    let workspace = Uuid::from_u128(1);
    let a = Uuid::from_u128(2);
    let b = Uuid::from_u128(3);
    assert_eq!(fingerprint(workspace, &[a, b]), fingerprint(workspace, &[a, b]));
    assert_ne!(fingerprint(workspace, &[a, b]), fingerprint(workspace, &[b, a]));
}

#[test]
fn three_spread_workspace_starts_produce_one_prefix_suggestion() {
    let workspace = Uuid::from_u128(10);
    let browser_a = Uuid::from_u128(11);
    let browser_b = Uuid::from_u128(12);
    let resources = vec![
        resource(workspace, ResourceKind::Directory),
        resource(browser_a, ResourceKind::WebPage),
        resource(browser_b, ResourceKind::WebPage),
    ];
    let scopes = vec![
        scope(workspace, ObservationSource::VscodeWorkspace),
        scope(browser_a, ObservationSource::BrowserChromium),
        scope(browser_b, ObservationSource::BrowserChromium),
    ];
    let mut events = Vec::new();
    for (offset, anchor_number) in [0_i64, 18 * 60 * 60, 36 * 60 * 60].into_iter().zip(1_u64..=3) {
        events.push(event(
            100 + u128::from(anchor_number),
            at(offset),
            anchor_number,
            anchored(workspace),
        ));
        events.push(event(
            200 + u128::from(anchor_number),
            at(offset + 1),
            anchor_number * 2,
            opened(browser_a),
        ));
        events.push(event(
            300 + u128::from(anchor_number),
            at(offset + 2),
            anchor_number * 2 + 1,
            opened(browser_b),
        ));
    }
    let output = discover(DiscoveryInput { events, resources, scopes });
    assert_eq!(output.sessions.len(), 3);
    assert_eq!(output.suggestions.len(), 1);
    assert_eq!(
        output.suggestions[0].action_resource_ids,
        vec![browser_a, browser_b]
    );
    assert_eq!(output.suggestions[0].support_sessions, 3);
    assert_eq!(output.suggestions[0].confidence_basis_points, 10_000);
}

#[test]
fn completion_is_measured_to_the_end_of_the_prefix_and_its_median_is_the_lower_one() {
    let f = fixture();
    let mut events = f.start(1, 0, &[(1, 0), (2, 1), (1_500, 2)]);
    events.extend(f.start(2, DAY, &[(1, 0), (6, 1)]));
    events.extend(f.start(3, 2 * DAY, &[(1, 0), (8, 1)]));
    events.extend(f.start(4, 3 * DAY, &[(1, 0), (10, 1)]));
    let output = discover(f.input(events));
    assert_eq!(output.suggestions.len(), 1);
    assert_eq!(output.suggestions[0].median_completion_ms, 6_000);
    assert_eq!(output.suggestions[0].observation_span_seconds, 3 * DAY);
    assert_eq!(output.suggestions[0].supporting_session_ids.len(), 4);
}

#[test]
fn the_longest_prefix_that_qualifies_is_suggested() {
    let f = fixture();
    let mut events = Vec::new();
    for number in 1..=3 {
        events.extend(f.start(
            number,
            (number as i64 - 1) * DAY,
            &[(1, 0), (2, 1), (3, 2)],
        ));
    }
    let output = discover(f.input(events));
    assert_eq!(output.suggestions[0].action_resource_ids, f.pages);
}

#[test]
fn starts_that_are_rare_sudden_or_unsteady_suggest_nothing() {
    let f = fixture();
    let mut rare = f.start(1, 0, &[(1, 0), (2, 1)]);
    rare.extend(f.start(2, DAY, &[(1, 0), (2, 1)]));
    assert!(discover(f.input(rare)).suggestions.is_empty());

    let mut sudden = Vec::new();
    for number in 1..=3 {
        sudden.extend(f.start(number, (number as i64 - 1) * 10_000, &[(1, 0), (2, 1)]));
    }
    assert!(discover(f.input(sudden)).suggestions.is_empty());

    let mut unsteady = Vec::new();
    for number in 1..=3 {
        unsteady.extend(f.start(number, (number as i64 - 1) * DAY, &[(1, 0), (2, 1)]));
    }
    for number in 4..=5 {
        unsteady.extend(f.start(number, (number as i64 - 1) * DAY, &[(1, 1), (2, 2)]));
    }
    let output = discover(f.input(unsteady));
    assert_eq!(output.sessions.len(), 5);
    assert!(output.suggestions.is_empty());
}

#[test]
fn sessions_end_by_silence_and_merge_quick_restarts() {
    let f = fixture();
    let events = vec![
        event(1, at(0), 1, anchored(f.workspace)),
        event(2, at(200), 2, anchored(f.workspace)),
        event(3, at(300), 3, opened(f.pages[0])),
        event(4, at(300 + 1_801), 4, opened(f.pages[1])),
        event(5, at(10_000), 5, anchored(f.workspace)),
    ];
    let output = discover(f.input(events));
    assert_eq!(output.sessions.len(), 2);
    assert_eq!(output.sessions[0].anchor_event_id, Uuid::from_u128(1));
    assert!(output.sessions[0].events.iter().all(|item| item.event_id != Uuid::from_u128(4)));
}

#[test]
fn only_observed_events_of_the_user_take_part() {
    let f = fixture();
    let mut events = Vec::new();
    for number in 1..=3 {
        events.extend(f.start(number, (number as i64 - 1) * DAY, &[(1, 0), (2, 1)]));
    }
    let mut imported = events.clone();
    for item in &mut imported {
        item.actor = Actor::Imported;
    }
    assert!(discover(f.input(imported)).sessions.is_empty());
    let mut paused = f.input(events.clone());
    for item in &mut paused.scopes {
        item.status = ObservationStatus::Paused;
    }
    assert!(discover(paused).sessions.is_empty());
    let mut gone = f.input(events);
    gone.resources.clear();
    assert!(discover(gone).sessions.is_empty());
}

#[test]
fn the_order_of_input_does_not_matter() {
    let f = fixture();
    let mut events = Vec::new();
    for number in 1..=3 {
        events.extend(f.start(number, (number as i64 - 1) * DAY, &[(1, 0), (2, 1)]));
    }
    let forward = discover(f.input(events.clone()));
    events.reverse();
    assert_eq!(discover(f.input(events)), forward);
}

#[test]
fn what_does_not_count_changes_no_output() {
    let f = fixture();
    let mut counting = Vec::new();
    for number in 1..=3 {
        counting.extend(f.start(number, (number as i64 - 1) * DAY, &[(1, 0), (2, 1)]));
    }
    let expected = discover(f.input(counting.clone()));
    assert_eq!(expected.suggestions.len(), 1);

    let mut events = counting;
    let mut somebody = event(7, at(3), 7, opened(f.pages[2]));
    somebody.actor = Actor::System;
    events.insert(2, somebody);
    let note = EventData::Synthetic { label: "note".to_owned(), counter: 1 };
    events.insert(0, event(8, at(1), 8, note));
    events.push(event(9, at(4), 9, opened(Uuid::from_u128(77))));
    events.push(event(6, at(5), 6, anchored(f.pages[0])));
    for event in &mut events {
        event.occurred_at = at(123_456);
    }
    let mut input = f.input(events);
    input.resources.reverse();
    input.scopes.reverse();
    assert_eq!(discover(input), expected);
}

#[test]
fn the_median_is_the_lower_one() {
    assert_eq!(median(&[5]), 5);
    assert_eq!(median(&[4, 1, 3, 2]), 2);
    assert_eq!(median(&[9, -1, 5]), 5);
}
