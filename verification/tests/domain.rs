//! Events, resources, rituals and the action registry.

use fubun::clock::{milliseconds_between, seconds_between, Timestamp};
use fubun::digest::{hex, sha256_hex};
use fubun::event::{
    Actor, AdapterIdentity, Event, EventData, EventType, PrivacyClass, SyntheticEventData,
    ValidationError, EVENT_SPEC_VERSION,
};
use fubun::ids::Uuid;
use fubun::policy::{
    approval_fields, descriptor, descriptor_by_type, descriptors, permits_risk, validate_action,
    PolicyError, RiskLevel,
};
use fubun::resource::{
    absolute_path, validate_path_string, Resource, ResourceKind, ResourceScope,
    ResourceValidationError, Sensitivity,
};
use fubun::ritual::{
    validate_app_id, ActionSpec, ActionValidationError, ExecutionMode, FailureMode,
    RitualDefinition, RitualExecutionConfig, RitualValidationError, RITUAL_SCHEMA_VERSION,
};

fn epoch() -> Timestamp {
    Timestamp::unix_epoch()
}

fn event() -> Event {
    Event {
        spec_version: EVENT_SPEC_VERSION.to_owned(),
        id: Uuid::from_u128(1),
        event_type: EventType::SyntheticV1,
        source: "fubun-cli".to_owned(),
        occurred_at: epoch(),
        received_at: epoch(),
        actor: Actor::User,
        adapter: AdapterIdentity {
            id: "dev.fixture".to_owned(),
            version: "0.1.0".to_owned(),
            instance_id: Uuid::from_u128(2),
            sequence_no: 1,
        },
        context: None,
        privacy: PrivacyClass::Normal,
        data: EventData::synthetic(SyntheticEventData {
            label: "smoke".to_owned(),
            counter: 1,
        }),
    }
}

fn definition(actions: Vec<ActionSpec>) -> RitualDefinition {
    RitualDefinition {
        schema_version: RITUAL_SCHEMA_VERSION.to_owned(),
        name: "x".to_owned(),
        actions,
        execution: RitualExecutionConfig {
            mode: ExecutionMode::Sequential,
            on_failure: FailureMode::Stop,
            timeout_seconds: 1,
        },
    }
}

fn note(title: &str, body: &str) -> ActionSpec {
    ActionSpec::DesktopNotificationShow {
        title: title.to_owned(),
        body: body.to_owned(),
    }
}

#[test]
fn validates_required_text() {
    let mut candidate = event();
    candidate.source.clear();
    assert_eq!(candidate.validate(), Err(ValidationError::EmptyField("source")));
}

#[test]
fn each_event_rule_is_checked() {
    assert_eq!(event().validate(), Ok(()));
    let mut old = event();
    old.spec_version = "0.9".to_owned();
    assert_eq!(
        old.validate(),
        Err(ValidationError::UnsupportedSpecVersion("0.9".to_owned()))
    );
    let mut nameless = event();
    nameless.adapter.id = " \t".to_owned();
    assert_eq!(nameless.validate(), Err(ValidationError::EmptyField("adapter.id")));
    let mut unversioned = event();
    unversioned.adapter.version.clear();
    assert_eq!(unversioned.validate(), Err(ValidationError::EmptyField("adapter.version")));
    let mut unlabelled = event();
    unlabelled.data = EventData::Synthetic { label: String::new(), counter: 0 };
    assert_eq!(unlabelled.validate(), Err(ValidationError::EmptyField("data.label")));
    let mut late = event();
    late.adapter.sequence_no = i64::MAX as u64 + 1;
    assert_eq!(late.validate(), Err(ValidationError::SequenceOutOfRange));
    let mut long = event();
    long.data = EventData::Synthetic { label: "é".repeat(65), counter: 0 };
    assert_eq!(long.validate(), Err(ValidationError::LabelTooLong));
}

/// Reads a definition whose actions all show a notification.
fn read_definition(json: &str) -> RitualDefinition {
    let value: serde_json::Value = serde_json::from_str(json).expect("JSON");
    let text = |value: &serde_json::Value| value.as_str().expect("text").to_owned();
    let mut actions = Vec::new();
    for action in value["actions"].as_array().expect("actions") {
        assert_eq!(action["type"], "desktop.notification.show.v1");
        actions.push(note(&text(&action["title"]), &text(&action["body"])));
    }
    assert_eq!(value["execution"]["mode"], "sequential");
    assert_eq!(value["execution"]["on_failure"], "stop");
    let timeout = value["execution"]["timeout_seconds"].as_u64().expect("seconds");
    let mut read = definition(actions);
    read.schema_version = text(&value["schema_version"]);
    read.name = text(&value["name"]);
    read.execution.timeout_seconds = u32::try_from(timeout).expect("seconds");
    read
}

#[test]
fn ritual_hash_ignores_input_whitespace() {
    let first = r#"{"schema_version":"dev.fubun.ritual/1","name":"x","actions":[{"type":"desktop.notification.show.v1","title":"a","body":"b"}],"execution":{"mode":"sequential","on_failure":"stop","timeout_seconds":1}}"#;
    let second = r#"{
          "schema_version": "dev.fubun.ritual/1",
          "name": "x",
          "actions": [{"type":"desktop.notification.show.v1", "title":"a", "body":"b"}],
          "execution": {"mode":"sequential", "on_failure":"stop", "timeout_seconds":1}
        }"#;
    let first = read_definition(first);
    let second = read_definition(second);
    assert_eq!(first.content_hash().expect("hash").len(), 64);
    assert_eq!(
        first.content_hash().expect("hash"),
        second.content_hash().expect("hash")
    );
    assert_eq!(
        first.canonical_json().expect("json"),
        r#"{"schema_version":"dev.fubun.ritual/1","name":"x","actions":[{"type":"desktop.notification.show.v1","title":"a","body":"b"}],"execution":{"mode":"sequential","on_failure":"stop","timeout_seconds":1}}"#
    );
}

#[test]
fn texts_that_look_like_json_stay_apart() {
    let plain = definition(vec![note("a", "b")]);
    let tricky = definition(vec![note("a\",\"body\":\"b", "b")]);
    let escaped = definition(vec![note("a\\", "b")]);
    let json = |definition: &RitualDefinition| definition.canonical_json().expect("json");
    assert_ne!(json(&plain), json(&tricky));
    assert_ne!(json(&plain), json(&escaped));
    assert_ne!(
        json(&definition(vec![note("a", "b"), note("c", "d")])),
        json(&definition(vec![note("a", "b\"},{\"title\":\"c"), note("c", "d")]))
    );
}

#[test]
fn canonical_json_is_what_a_parser_reads_back() {
    let ritual = definition(vec![
        ActionSpec::LinuxAppEnsureRunning { app_id: "code".to_owned() },
        ActionSpec::LinuxPathOpen { resource_id: Uuid::from_u128(5) },
        note("quote \" and \\ and \u{1} and é", "tab\t"),
        ActionSpec::BrowserTabEnsureOpen { resource_id: Uuid::nil() },
    ]);
    let json = ritual.canonical_json().expect("json");
    let value: serde_json::Value = serde_json::from_str(&json).expect("valid JSON");
    assert_eq!(value["actions"][0]["app_id"], "code");
    assert_eq!(
        value["actions"][1]["resource_id"],
        "00000000-0000-0000-0000-000000000005"
    );
    assert_eq!(value["actions"][2]["title"], "quote \" and \\ and \u{1} and é");
    assert_eq!(value["actions"][2]["body"], "tab\t");
    assert_eq!(value["actions"][3]["type"], "browser.tab.ensure_open.v1");
    assert_eq!(ritual.content_hash().expect("hash"), sha256_hex(&json));
    let other = definition(vec![note("a", "c")]);
    assert_ne!(
        other.content_hash().expect("hash"),
        definition(vec![note("a", "b")]).content_hash().expect("hash")
    );
}

#[test]
fn each_ritual_rule_is_checked() {
    assert_eq!(definition(vec![note("a", "b")]).validate(), Ok(()));
    let mut other_schema = definition(vec![note("a", "b")]);
    other_schema.schema_version = "dev.fubun.ritual/2".to_owned();
    assert_eq!(
        other_schema.validate(),
        Err(RitualValidationError::UnsupportedSchemaVersion("dev.fubun.ritual/2".to_owned()))
    );
    let mut nameless = definition(vec![note("a", "b")]);
    nameless.name.clear();
    assert_eq!(nameless.validate(), Err(RitualValidationError::InvalidName));
    assert_eq!(
        definition(Vec::new()).validate(),
        Err(RitualValidationError::InvalidActionCount)
    );
    let mut endless = definition(vec![note("a", "b")]);
    endless.execution.timeout_seconds = 121;
    assert_eq!(endless.validate(), Err(RitualValidationError::InvalidTimeout));
    let repeated = definition(vec![note("a", "b"), note("a", "b")]);
    assert_eq!(
        repeated.validate(),
        Err(RitualValidationError::ConsecutiveDuplicate { index: 1 })
    );
    let invalid = definition(vec![
        note("a", "b"),
        ActionSpec::LinuxAppEnsureRunning { app_id: "../x".to_owned() },
    ]);
    assert_eq!(
        invalid.validate(),
        Err(RitualValidationError::InvalidAction {
            index: 1,
            source: ActionValidationError::InvalidAppId,
        })
    );
}

#[test]
fn application_identifiers_may_hold_hyphens() {
    assert_eq!(validate_app_id("org.gnome.gnome-terminal"), Ok(()));
    assert_eq!(validate_app_id(&"a".repeat(128)), Ok(()));
    for invalid in ["", "a b", "a/b", "a\\b", "a\n", &"a".repeat(129)] {
        assert_eq!(validate_app_id(invalid), Err(ActionValidationError::InvalidAppId));
    }
}

#[test]
fn registry_contains_only_r0_or_r1_actions() {
    assert!(descriptors()
        .iter()
        .all(|descriptor| matches!(descriptor.risk_level, RiskLevel::R0 | RiskLevel::R1)));
}

#[test]
fn approval_fields_never_expose_a_raw_path() {
    let fields = approval_fields(&ActionSpec::LinuxPathOpen { resource_id: Uuid::nil() });
    assert!(fields.resource_id.is_some());
}

#[test]
fn the_registry_is_found_by_action_and_by_type() {
    let action = ActionSpec::LinuxAppEnsureRunning { app_id: "code".to_owned() };
    assert_eq!(descriptor_by_type("linux.app.ensure_running.v1"), Some(descriptor(&action)));
    assert_eq!(descriptor_by_type("shell.run.v1"), None);
    assert_eq!(validate_action(&action).expect("permitted").default_timeout_ms, 10_000);
    assert!(permits_risk(RiskLevel::R1) && !permits_risk(RiskLevel::R2));
    assert_eq!(
        PolicyError::RiskNotPermitted.message(),
        "risk level is not permitted for Phase 2 manual execution"
    );
    assert_eq!(RiskLevel::R0.label(), "R0");
    let fields = approval_fields(&action);
    assert_eq!(fields.app_id.as_deref(), Some("code"));
    assert_eq!(fields.resource_id, None);
}

#[test]
fn each_resource_rule_is_checked() {
    let good = Resource {
        id: Uuid::from_u128(1),
        kind: ResourceKind::Directory,
        label: "work".to_owned(),
        locator: "/tmp/x".to_owned(),
        canonical_locator: "/tmp/x".to_owned(),
        sensitivity: Sensitivity::Normal,
        scope: ResourceScope::Exact,
        created_at: epoch(),
        updated_at: epoch(),
    };
    assert_eq!(good.validate(), Ok(()));
    let mut unlabelled = good.clone();
    unlabelled.label.clear();
    assert_eq!(unlabelled.validate(), Err(ResourceValidationError::InvalidLabel));
    let mut relative = good.clone();
    relative.locator = "tmp/x".to_owned();
    assert_eq!(relative.validate(), Err(ResourceValidationError::RelativePath));
    let mut loose = good.clone();
    loose.canonical_locator = "x".to_owned();
    assert_eq!(loose.validate(), Err(ResourceValidationError::InvalidCanonicalPath));
    let mut page = good.clone();
    page.kind = ResourceKind::WebPage;
    page.locator = "https://example.com/".to_owned();
    page.canonical_locator = "https://example.com/".to_owned();
    assert_eq!(page.validate(), Ok(()));
    assert_eq!(
        validate_path_string("/a\u{1f}"),
        Err(ResourceValidationError::ControlCharacter)
    );
    assert_eq!(
        validate_path_string(&"x".repeat(4097)),
        Err(ResourceValidationError::LocatorTooLong)
    );
    assert!(absolute_path("/x") && !absolute_path("x") && !absolute_path(""));
}

#[test]
fn times_are_read_and_written_by_the_outside_crate() {
    let time = Timestamp::parse("2026-08-04T12:30:00.25+09:00").expect("time");
    assert_eq!(time.offset_seconds, 9 * 3600);
    assert_eq!(time.nanosecond, 250_000_000);
    assert_eq!(time.format().expect("text"), "2026-08-04T12:30:00.25+09:00");
    assert_eq!(Timestamp::parse(&time.format().expect("text")), Some(time));
    assert_eq!(Timestamp::parse("yesterday"), None);
    assert_eq!(epoch().format().expect("text"), "1970-01-01T00:00:00Z");
    let unwritable = Timestamp { unix_seconds: i64::MAX, nanosecond: 0, offset_seconds: 0 };
    assert_eq!(unwritable.format(), None);
    let later = Timestamp { unix_seconds: 2, nanosecond: 500_000_000, offset_seconds: 0 };
    assert_eq!(seconds_between(&later, &epoch()), 2);
    assert_eq!(seconds_between(&epoch(), &later), -2);
    assert_eq!(milliseconds_between(&later, &epoch()), 2_500);
}

#[test]
fn identifiers_are_read_written_and_derived_by_the_outside_crate() {
    let text = "6ba7b811-9dad-11d1-80b4-00c04fd430c8";
    let id = Uuid::parse(text).expect("identifier");
    assert_eq!(id.to_text(), text);
    assert_eq!(Uuid::parse("not an identifier"), None);
    assert_eq!(
        Uuid::from_name(b"https://example.com/").to_text(),
        uuid::Uuid::new_v5(&uuid::Uuid::NAMESPACE_URL, b"https://example.com/").to_string()
    );
    assert_eq!(Uuid::from_u128(0x0102).to_bytes()[14..], [1, 2]);
    let mut ids = vec![Uuid::from_u128(1 << 100), Uuid::from_u128(10), Uuid::from_u128(9)];
    let mut texts: Vec<String> = ids.iter().map(Uuid::to_text).collect();
    ids.sort();
    texts.sort();
    assert_eq!(ids.iter().map(Uuid::to_text).collect::<Vec<_>>(), texts);
}

#[test]
fn digests_come_from_the_outside_crate() {
    assert_eq!(
        sha256_hex("abc"),
        "ba7816bf8f01cfea414140de5dae2223b00361a396177a9cb410ff61f20015ad"
    );
    assert_eq!(hex(&[0, 15, 160, 255]), "000fa0ff");
}
