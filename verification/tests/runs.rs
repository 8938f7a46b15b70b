//! Previews, approvals, executions, and the life of rituals, resources and events.

use fubun::adapter::{
    AdapterDispatchErrorKind, AdapterManager, DispatchReply, DispatchedActionError,
    DispatchedActionResult, EligibleAdapter,
};
use fubun::clock::Timestamp;
use fubun::event::{
    Actor, AdapterIdentity, Event, EventData, EventType, PrivacyClass, ValidationError,
    EVENT_SPEC_VERSION,
};
use fubun::execution::{ExecutionStatus, ExecutionStepStatus};
use fubun::ids::Uuid;
use fubun::intake::{
    acknowledge, admit_client_event, build_adapter_event, ingested, observation_source,
    AdapterEventError, ObservedResource, StoreOutcome,
};
use fubun::lifecycle::{
    action_resource, activated, check_resource_path, create_resource, create_ritual,
    draft_definition, kind_of_path, pause_ritual, register_page, register_workspace,
    rejection_for, require_active, require_approval, require_executable, update_ritual,
    validate_ritual_definition, FoundPath, Purpose,
};
use fubun::preview::{
    approvals_for, build_preview, preflight, Rejection, ResourceFacts,
};
use fubun::protocol::{
    ActionResult, AdapterActionStatus, AdapterEventEmitRequest, AdapterHello,
    AdapterStatusSnapshot, AdapterToolStatus, ErrorBody, ResourceCreateRequest, RitualRecord,
};
use fubun::resource::{
    ObservationSource, Resource, ResourceKind, ResourceScope, Sensitivity,
};
use fubun::ritual::{
    ActionSpec, Approval, ExecutionMode, FailureMode, RitualDefinition, RitualExecutionConfig,
    RitualStatus, RITUAL_SCHEMA_VERSION,
};
use fubun::runner::{
    redact_message, resolve_step, start_run, Run, RunPhase, StepDecision,
};
use fubun::storage::StorageError;

fn id(value: u128) -> Uuid {
    Uuid::from_u128(value)
}

fn now() -> Timestamp {
    Timestamp::parse("2026-08-04T10:00:00Z").expect("time")
}

fn later() -> Timestamp {
    now().plus_seconds(3).expect("time")
}

fn hello(adapter: &str, instance: u128, actions: &[&str], events: &[&str]) -> AdapterHello {
    AdapterHello {
        adapter_id: adapter.to_owned(),
        adapter_version: "test".to_owned(),
        instance_id: id(instance),
        action_capabilities: actions.iter().map(|text| (*text).to_owned()).collect(),
        event_capabilities: events.iter().map(|text| (*text).to_owned()).collect(),
        status: AdapterStatusSnapshot {
            tools: Vec::new(),
            desktop_entry_ids: Vec::new(),
            permitted_resource_ids: Vec::new(),
        },
    }
}

fn linux(tools: bool) -> AdapterManager {
    let mut hello = hello(
        "dev.fubun.linux",
        1,
        &[
            "linux.app.ensure_running.v1",
            "linux.path.open.v1",
            "desktop.notification.show.v1",
        ],
        &[],
    );
    hello.status.tools = ["gtk-launch", "xdg-open", "notify-send"]
        .iter()
        .map(|name| AdapterToolStatus { name: (*name).to_owned(), available: tools })
        .collect();
    hello.status.desktop_entry_ids = vec!["code".to_owned()];
    let mut manager = AdapterManager::new();
    manager.register(hello, id(50), now()).expect("hello");
    manager
}

fn browser(permitted: Vec<Uuid>) -> AdapterHello {
    let mut hello = hello(
        "dev.fubun.browser.chromium",
        2,
        &["browser.tab.ensure_open.v1"],
        &["dev.fubun.browser.resource.opened.v1"],
    );
    hello.status.permitted_resource_ids = permitted;
    hello
}

fn notification(title: &str) -> ActionSpec {
    ActionSpec::DesktopNotificationShow { title: title.to_owned(), body: "body".to_owned() }
}

fn definition(actions: Vec<ActionSpec>) -> RitualDefinition {
    RitualDefinition {
        schema_version: RITUAL_SCHEMA_VERSION.to_owned(),
        name: "start".to_owned(),
        actions,
        execution: RitualExecutionConfig {
            mode: ExecutionMode::Sequential,
            on_failure: FailureMode::Stop,
            timeout_seconds: 10,
        },
    }
}

fn record(actions: Vec<ActionSpec>) -> RitualRecord {
    create_ritual(definition(actions), id(10), id(11), now()).expect("ritual")
}

fn directory() -> Resource {
    Resource {
        id: id(30),
        kind: ResourceKind::Directory,
        label: "research".to_owned(),
        locator: "/tmp/research".to_owned(),
        canonical_locator: "/tmp/research".to_owned(),
        sensitivity: Sensitivity::Normal,
        scope: ResourceScope::Exact,
        created_at: now(),
        updated_at: now(),
    }
}

fn found(resource: Resource) -> ResourceFacts {
    ResourceFacts {
        exists: true,
        resolved_path: Some(resource.canonical_locator.clone()),
        found_kind: Some(resource.kind),
        resource: Some(resource),
        scope_active: false,
    }
}

fn ids(count: usize) -> Vec<Uuid> {
    (0..count).map(|n| id(700 + n as u128)).collect()
}

#[test]
fn ritual_preview_activation_manual_run_and_stale_approval() {
    let adapters = linux(true);
    let record = record(vec![
        ActionSpec::LinuxAppEnsureRunning { app_id: "code".to_owned() },
        ActionSpec::LinuxPathOpen { resource_id: id(30) },
        notification("ready"),
    ]);
    let facts = vec![ResourceFacts::none(), found(directory()), ResourceFacts::none()];
    let preview = build_preview(id(10), id(11), &record.definition, &adapters, &facts);
    assert!(preview.executable);
    assert_eq!(preview.actions[0].desktop_entry_exists, Some(true));
    assert_eq!(preview.actions[1].resource_kind_matches, Some(true));
    assert_eq!(preview.actions[2].risk_level, "R0");
    assert_eq!(preview.timeout_seconds, 10);

    assert_eq!(
        require_approval(false).map_err(|rejection| rejection.code),
        Err("approval_required")
    );
    assert_eq!(require_approval(true), Ok(()));
    assert_eq!(require_executable(preview.executable), Ok(()));
    let approvals = approvals_for(&record.version, &record.definition, &ids(3), now());
    assert_eq!(approvals.len(), 3);
    assert_eq!(approvals[0].app_id.as_deref(), Some("code"));
    assert_eq!(approvals[1].resource_id, Some(id(30)));
    let active = activated(record.ritual.clone());
    assert_eq!(active.status, RitualStatus::Active);
    assert_eq!(require_active(active.status), Ok(()));
    assert_eq!(
        preflight(&record.version, &record.definition, &approvals, &adapters, &facts),
        Ok(())
    );

    let mut run = Run::start(id(10), id(11), &record.definition, id(20), &ids(3), now());
    for _ in 0..3 {
        let decision = run.begin_step(10_000, 9_000, now());
        assert_eq!(
            decision,
            StepDecision::Dispatch { timeout_ms: 9_000, deadline_bound: true }
        );
        run.take_result(success("done"), later());
    }
    assert_eq!(run.begin_step(10_000, 9_000, now()), StepDecision::Finish);
    run.finish(later());
    assert_eq!(run.execution.status, ExecutionStatus::Succeeded);
    assert_eq!(run.steps.len(), 3);
    assert!(run
        .steps
        .iter()
        .all(|step| step.adapter_id.as_deref() == Some("dev.fubun.linux")));

    let mut changed = record.definition.clone();
    changed.name = "changed".to_owned();
    let updated = update_ritual(active, 1, changed, id(12), later()).expect("update");
    assert_eq!(updated.ritual.status, RitualStatus::Draft);
    assert_eq!(updated.version.version, 2);
    assert_eq!(
        require_active(updated.ritual.status).map_err(|rejection| rejection.code),
        Err("ritual_not_active")
    );
    assert_eq!(
        preflight(&updated.version, &updated.definition, &approvals, &adapters, &facts)
            .map_err(|rejection| rejection.code),
        Err("ritual_not_approved")
    );
}

fn success(message: &str) -> DispatchedActionResult {
    outcome(AdapterActionStatus::Succeeded, message)
}

fn outcome(status: AdapterActionStatus, message: &str) -> DispatchedActionResult {
    DispatchedActionResult {
        identity: EligibleAdapter {
            adapter_id: "dev.fubun.linux".to_owned(),
            instance_id: id(1),
        },
        result: ActionResult {
            status,
            result_code: "code".to_owned(),
            redacted_message: message.to_owned(),
        },
    }
}

#[test]
fn paused_ritual_is_not_executable() {
    let record = record(vec![notification("a")]);
    let paused = pause_ritual(activated(record.ritual)).expect("paused");
    assert_eq!(paused.status, RitualStatus::Paused);
    assert_eq!(
        require_active(paused.status),
        Err(Rejection { code: "ritual_not_active", message: "paused rituals cannot execute" })
    );
    let mut archived = paused;
    archived.status = RitualStatus::Archived;
    assert_eq!(
        require_active(archived.status).map_err(|rejection| rejection.message),
        Err("archived rituals cannot execute")
    );
    assert_eq!(
        pause_ritual(archived).map_err(|rejection| rejection.code),
        Err("ritual_archived")
    );
}

#[test]
fn an_action_failure_stops_the_run_and_leaves_no_step_open() {
    let record = record(vec![notification("a"), notification("b"), notification("c")]);
    let mut run = Run::start(id(10), id(11), &record.definition, id(20), &ids(3), now());
    run.begin_step(10_000, 60_000, now());
    run.take_result(success("one"), later());
    run.begin_step(10_000, 60_000, now());
    run.take_result(outcome(AdapterActionStatus::Failed, "two"), later());
    assert_eq!(run.phase, RunPhase::Failed);
    run.finish(later());
    assert_eq!(run.execution.status, ExecutionStatus::Partial);
    assert_eq!(run.execution.failure_code.as_deref(), Some("action_failed"));
    assert_eq!(run.execution.finished_at, Some(later()));
    assert_eq!(run.steps[0].adapter_id.as_deref(), Some("dev.fubun.linux"));
    assert_eq!(run.steps[1].adapter_id.as_deref(), Some("dev.fubun.linux"));
    assert_eq!(run.steps[1].adapter_instance_id, Some(id(1)));
    assert_eq!(run.steps[2].adapter_id, None);
    assert_eq!(run.steps[2].status, ExecutionStepStatus::Aborted);
    assert_eq!(run.steps[2].result_code.as_deref(), Some("stopped_after_failure"));
}

#[test]
fn adapter_timeout_releases_request() {
    let record = record(vec![notification("a"), notification("b")]);
    let mut run = Run::start(id(10), id(11), &record.definition, id(20), &ids(2), now());
    assert_eq!(
        run.begin_step(10_000, 1_000, now()),
        StepDecision::Dispatch { timeout_ms: 1_000, deadline_bound: true }
    );
    let mut manager = linux(true);
    let identity = manager.begin(&record.definition.actions[0], id(1), id(2)).expect("dispatch");
    let error = manager.settle(id(1), identity, DispatchReply::TimedOut).expect_err("timeout");
    assert_eq!(manager.pending_count(), 0);
    run.take_error(error, true, later());
    run.finish(later());
    assert_eq!(run.execution.failure_code.as_deref(), Some("ritual_timeout"));
    assert_eq!(run.execution.status, ExecutionStatus::Failed);
    assert!(run.steps[0].status == ExecutionStepStatus::Aborted);
    assert_eq!(run.steps[0].adapter_instance_id, Some(id(1)));
    assert_eq!(run.steps[1].redacted_message.as_deref(), Some("ritual timed out"));
}

#[test]
fn a_run_out_of_time_begins_nothing_more() {
    let record = record(vec![notification("a"), notification("b")]);
    let mut run = Run::start(id(10), id(11), &record.definition, id(20), &ids(2), now());
    run.begin_step(10_000, 60_000, now());
    run.take_result(success("one"), later());
    assert_eq!(run.begin_step(10_000, 0, now()), StepDecision::Finish);
    run.finish(later());
    assert_eq!(run.execution.status, ExecutionStatus::Partial);
    assert_eq!(run.steps[1].result_code.as_deref(), Some("ritual_timeout"));
}

#[test]
fn adapter_disconnect_fails_without_permanent_wait() {
    let record = record(vec![notification("a")]);
    let approvals = approvals_for(&record.version, &record.definition, &ids(1), now());
    let facts = vec![ResourceFacts::none()];
    let mut manager = linux(true);
    manager.disconnect(id(50));
    let code = preflight(&record.version, &record.definition, &approvals, &manager, &facts)
        .expect_err("no adapter")
        .code;
    assert!(code == "capability_unavailable" || code == "adapter_unavailable");
}

#[test]
fn adapter_disconnect_during_action_releases_lock_and_pending_request() {
    let record = record(vec![notification("a")]);
    let mut manager = linux(true);
    let mut run = Run::start(id(10), id(11), &record.definition, id(20), &ids(1), now());
    run.begin_step(10_000, 60_000, now());
    let identity = manager.begin(&record.definition.actions[0], id(1), id(2)).expect("dispatch");
    manager.disconnect(id(50));
    assert_eq!(manager.pending_count(), 0);
    let error = manager
        .settle(
            id(1),
            identity,
            DispatchReply::Replied(Err(AdapterDispatchErrorKind::Disconnected)),
        )
        .expect_err("disconnected");
    run.take_error(error, false, later());
    run.finish(later());
    assert_eq!(run.execution.status, ExecutionStatus::Failed);
    assert_eq!(run.execution.failure_code.as_deref(), Some("adapter_disconnected"));
    assert_eq!(run.steps[0].result_code.as_deref(), Some("adapter_disconnected"));
    assert!(fubun::storage::operations::releases_lock(run.execution.status));
}

#[test]
fn every_dispatch_error_has_a_code_and_a_message() {
    for (kind, code, message) in [
        (AdapterDispatchErrorKind::Unavailable, "adapter_unavailable", "no adapter is connected"),
        (
            AdapterDispatchErrorKind::CapabilityUnavailable,
            "capability_unavailable",
            "required capability is unavailable",
        ),
        (AdapterDispatchErrorKind::Timeout, "action_timeout", "adapter action timed out"),
        (AdapterDispatchErrorKind::Disconnected, "adapter_disconnected", "adapter disconnected"),
        (AdapterDispatchErrorKind::Protocol, "protocol_error", "adapter protocol error"),
    ] {
        let record = record(vec![notification("a")]);
        let mut run = Run::start(id(10), id(11), &record.definition, id(20), &ids(1), now());
        run.begin_step(10_000, 60_000, now());
        run.take_error(DispatchedActionError { identity: None, kind }, false, later());
        assert_eq!(run.steps[0].result_code.as_deref(), Some(code));
        assert_eq!(run.steps[0].redacted_message.as_deref(), Some(message));
        assert_eq!(run.steps[0].adapter_id, None);
    }
}

#[test]
fn a_resource_that_is_gone_gives_the_run_up() {
    let open = ActionSpec::LinuxPathOpen { resource_id: id(30) };
    let missing = Rejection { code: "resource_not_found", message: "resource was not found" };
    assert_eq!(resolve_step(&open, Err(StorageError::NotFound)), Err(missing));
    assert_eq!(resolve_step(&open, Err(StorageError::QueueClosed)), Err(missing));
    assert_eq!(resolve_step(&open, Ok(None)), Err(missing));
    let resolved = resolve_step(&open, Ok(Some(directory()))).expect("found");
    let resolved = resolved.expect("resource");
    assert_eq!(resolved.resource_id, id(30));
    assert_eq!(resolved.kind, ResourceKind::Directory);
    assert_eq!(resolved.canonical_locator, directory().canonical_locator);
    assert_eq!(resolve_step(&notification("a"), Ok(None)), Ok(None));
}

#[test]
fn only_active_and_approved_rituals_start() {
    let adapters = linux(true);
    let record = record(vec![notification("a")]);
    let facts = vec![ResourceFacts::none()];
    let approvals = approvals_for(&record.version, &record.definition, &ids(1), now());
    let start = |status: RitualStatus, approvals: &Vec<Approval>| {
        let mut ritual = record.ritual.clone();
        ritual.status = status;
        start_run(
            &ritual,
            &record.version,
            &record.definition,
            approvals,
            &adapters,
            &facts,
            id(20),
            &ids(1),
            now(),
        )
        .map(|run| (run.execution.id, run.execution.ritual_version_id, run.steps.len()))
        .map_err(|rejection| (rejection.code, rejection.message))
    };
    assert_eq!(start(RitualStatus::Active, &approvals), Ok((id(20), record.version.id, 1)));
    assert_eq!(
        start(RitualStatus::Draft, &approvals),
        Err(("ritual_not_active", "draft rituals must be activated before execution"))
    );
    assert_eq!(
        start(RitualStatus::Paused, &Vec::new()),
        Err(("ritual_not_active", "paused rituals cannot execute"))
    );
    assert_eq!(
        start(RitualStatus::Active, &Vec::new()).map_err(|(code, _)| code),
        Err("ritual_not_approved")
    );
}

#[test]
fn preview_rejects_missing_tool_and_resource_kind_changes() {
    let without_tools = linux(false);
    let note = record(vec![notification("a")]);
    let preview = build_preview(
        id(10),
        id(11),
        &note.definition,
        &without_tools,
        &vec![ResourceFacts::none()],
    );
    assert!(!preview.executable);
    assert_eq!(preview.actions[0].required_tool_available, Some(false));
    assert_eq!(preview.warnings, vec!["action 1: required executable is unavailable"]);
    assert_eq!(
        require_executable(preview.executable).map_err(|rejection| rejection.code),
        Err("preflight_failed")
    );

    let adapters = linux(true);
    let open = record(vec![ActionSpec::LinuxPathOpen { resource_id: id(30) }]);
    let mut other_kind = found(directory());
    other_kind.found_kind = Some(ResourceKind::File);
    let preview = build_preview(id(10), id(11), &open.definition, &adapters, &vec![other_kind]);
    assert!(!preview.executable);
    assert_eq!(preview.actions[0].resource_kind_matches, Some(false));

    let mut link = found(directory());
    link.resolved_path = Some("/tmp/elsewhere".to_owned());
    let preview = build_preview(id(10), id(11), &open.definition, &adapters, &vec![link]);
    assert!(!preview.executable);
    assert_eq!(preview.actions[0].resource_path_matches, Some(false));
    assert_eq!(
        preview.actions[0].warning.as_deref(),
        Some("resource canonical path changed")
    );

    let preview = build_preview(
        id(10),
        id(11),
        &open.definition,
        &adapters,
        &vec![ResourceFacts::none()],
    );
    assert_eq!(preview.actions[0].warning.as_deref(), Some("resource was not found"));
    assert_eq!(preview.actions[0].resource_exists, None);
}

#[test]
fn split_adapter_state_is_not_executable() {
    let action = ActionSpec::LinuxAppEnsureRunning { app_id: "code".to_owned() };
    let mut manager = AdapterManager::new();
    for (instance, tool, entries) in [(20, true, Vec::new()), (21, false, vec!["code".to_owned()])]
    {
        let mut hello =
            hello("dev.fubun.linux", instance, &["linux.app.ensure_running.v1"], &[]);
        hello.status.tools =
            vec![AdapterToolStatus { name: "gtk-launch".to_owned(), available: tool }];
        hello.status.desktop_entry_ids = entries;
        manager.register(hello, id(50 + instance), now()).expect("hello");
    }
    let record = record(vec![action]);
    let facts = vec![ResourceFacts::none()];
    let preview = build_preview(id(10), id(11), &record.definition, &manager, &facts);
    assert!(preview.actions[0].adapter_connected);
    assert_eq!(preview.actions[0].required_tool_available, Some(true));
    assert_eq!(preview.actions[0].desktop_entry_exists, Some(true));
    assert!(!preview.executable);
    let approvals = approvals_for(&record.version, &record.definition, &ids(1), now());
    assert_eq!(
        preflight(&record.version, &record.definition, &approvals, &manager, &facts)
            .map_err(|rejection| rejection.code),
        Err("capability_unavailable")
    );
}

#[test]
fn preflight_names_the_first_error() {
    let adapters = linux(true);
    let open = record(vec![ActionSpec::LinuxPathOpen { resource_id: id(30) }]);
    let approvals = approvals_for(&open.version, &open.definition, &ids(1), now());
    let check = |facts: ResourceFacts| {
        preflight(&open.version, &open.definition, &approvals, &adapters, &vec![facts])
            .map_err(|rejection| (rejection.code, rejection.message))
    };
    assert_eq!(check(found(directory())), Ok(()));
    assert_eq!(
        check(ResourceFacts::none()),
        Err(("resource_not_found", "resource was not found"))
    );
    let mut gone = found(directory());
    gone.exists = false;
    assert_eq!(check(gone), Err(("resource_changed", "resource no longer exists")));
    let mut moved = found(directory());
    moved.resolved_path = None;
    assert_eq!(check(moved), Err(("resource_changed", "resource canonical path changed")));
    let mut changed = found(directory());
    changed.found_kind = Some(ResourceKind::File);
    assert_eq!(check(changed), Err(("resource_changed", "resource type changed")));
    let unapproved =
        preflight(&open.version, &open.definition, &Vec::new(), &adapters, &vec![found(directory())]);
    assert_eq!(unapproved.map_err(|rejection| rejection.code), Err("ritual_not_approved"));
    let app = record(vec![ActionSpec::LinuxAppEnsureRunning { app_id: "gedit".to_owned() }]);
    let approvals = approvals_for(&app.version, &app.definition, &ids(1), now());
    assert_eq!(
        preflight(
            &app.version,
            &app.definition,
            &approvals,
            &adapters,
            &vec![ResourceFacts::none()]
        )
        .map_err(|rejection| rejection.code),
        Err("desktop_entry_not_found")
    );
    assert_eq!(
        preflight(
            &app.version,
            &app.definition,
            &approvals,
            &linux(false),
            &vec![ResourceFacts::none()]
        )
        .map_err(|rejection| rejection.code),
        Err("tool_unavailable")
    );
}

fn page(url: &str) -> Resource {
    register_page("Action".to_owned(), url, id(77), now()).expect("page").resource
}

#[test]
fn browser_action_dispatches_to_permissioned_adapter() {
    let page = page("https://example.com/action");
    let record = record(vec![ActionSpec::BrowserTabEnsureOpen { resource_id: page.id }]);
    let facts = ResourceFacts {
        resource: Some(page.clone()),
        exists: false,
        resolved_path: None,
        found_kind: None,
        scope_active: true,
    };
    let mut manager = AdapterManager::new();
    manager.register(browser(vec![page.id]), id(50), now()).expect("hello");
    let facts = vec![facts];
    assert!(build_preview(id(10), id(11), &record.definition, &manager, &facts).executable);
    let approvals = approvals_for(&record.version, &record.definition, &ids(1), now());
    assert_eq!(
        preflight(&record.version, &record.definition, &approvals, &manager, &facts),
        Ok(())
    );
    let mut run = Run::start(id(10), id(11), &record.definition, id(20), &ids(1), now());
    run.begin_step(10_000, 10_000, now());
    let identity = manager.begin(&record.definition.actions[0], id(1), id(2)).expect("dispatch");
    run.take_result(
        DispatchedActionResult {
            identity,
            result: ActionResult {
                status: AdapterActionStatus::Skipped,
                result_code: "already_open".to_owned(),
                redacted_message: "registered page already open".to_owned(),
            },
        },
        later(),
    );
    run.begin_step(10_000, 10_000, now());
    run.finish(later());
    assert_eq!(run.execution.status, ExecutionStatus::Succeeded);
    assert_eq!(
        run.steps[0].adapter_id.as_deref(),
        Some("dev.fubun.browser.chromium")
    );
    assert_eq!(run.steps[0].adapter_instance_id, Some(id(2)));

    let paused = vec![ResourceFacts {
        resource: Some(page),
        exists: false,
        resolved_path: None,
        found_kind: None,
        scope_active: false,
    }];
    let preview = build_preview(id(10), id(11), &record.definition, &manager, &paused);
    assert_eq!(
        preview.warnings,
        vec!["action 1: observation scope is not active"]
    );
}

#[test]
fn messages_are_redacted() {
    assert_eq!(redact_message("a\nb\u{7f}c"), "abc");
    assert_eq!(redact_message(&"é".repeat(200)).chars().count(), 160);
    assert_eq!(redact_message(""), "");
}

#[test]
fn definitions_are_checked_before_they_are_stored() {
    let good = definition(vec![notification("a")]);
    assert_eq!(
        validate_ritual_definition(&good).expect("json"),
        good.canonical_json().expect("json")
    );
    let empty = definition(Vec::new());
    let error = create_ritual(empty.clone(), id(1), id(2), now()).expect_err("invalid");
    assert_eq!(error.code, "invalid_ritual");
    assert_eq!(validate_ritual_definition(&empty), Err(error.message));
    let record = record(vec![notification("a")]);
    assert_eq!(record.ritual.status, RitualStatus::Draft);
    assert_eq!(record.version.version, 1);
    assert_eq!(record.version.content_hash, good.content_hash().expect("hash"));
    let last = update_ritual(record.ritual, u32::MAX, good, id(3), now()).expect("update");
    assert_eq!(last.version.version, u32::MAX);
    let draft = draft_definition("Morning".to_owned(), &vec![id(1), id(2)]);
    assert_eq!(draft.validate(), Ok(()));
    assert_eq!(draft.actions[1], ActionSpec::BrowserTabEnsureOpen { resource_id: id(2) });
}

#[test]
fn resources_are_registered_by_canonical_path() {
    assert_eq!(check_resource_path("/tmp/x"), Ok(()));
    for path in ["tmp/x", "", "/tmp/\u{1}", &format!("/{}", "x".repeat(4096))] {
        assert_eq!(
            check_resource_path(path).map_err(|rejection| rejection.message),
            Err("resource path must be an absolute existing path")
        );
    }
    assert_eq!(kind_of_path(FoundPath::File), Ok(ResourceKind::File));
    assert_eq!(
        kind_of_path(FoundPath::Other).map_err(|rejection| rejection.message),
        Err("resource must be a file or directory")
    );
    assert_eq!(
        kind_of_path(FoundPath::Missing).map_err(|rejection| rejection.message),
        Err("resource path does not exist")
    );
    let request = ResourceCreateRequest {
        label: "notes".to_owned(),
        path: "/tmp/link".to_owned(),
        sensitivity: Sensitivity::Sensitive,
    };
    let resource = create_resource(
        request.clone(),
        "/tmp/notes".to_owned(),
        ResourceKind::File,
        id(4),
        now(),
    )
    .expect("resource");
    assert_eq!(resource.locator, "/tmp/link");
    assert_eq!(resource.canonical_locator, "/tmp/notes");
    let open = ActionSpec::LinuxPathOpen { resource_id: resource.id };
    let resolved = resolve_step(&open, Ok(Some(resource))).expect("found").expect("resource");
    assert_eq!(resolved.canonical_locator, "/tmp/notes");
    let unlabelled = ResourceCreateRequest { label: String::new(), ..request };
    let error = create_resource(
        unlabelled,
        "/tmp/notes".to_owned(),
        ResourceKind::File,
        id(4),
        now(),
    )
    .expect_err("label");
    assert_eq!(error.code, "invalid_resource");
    assert_eq!(
        action_resource(&ActionSpec::LinuxPathOpen { resource_id: id(4) }),
        Some(id(4))
    );
    assert_eq!(action_resource(&notification("a")), None);
}

#[test]
fn storage_errors_are_told_without_details() {
    let told = |purpose, error| rejection_for(purpose, &error).code;
    assert_eq!(told(Purpose::FindRitual, StorageError::NotFound), "ritual_not_found");
    assert_eq!(told(Purpose::FindResource, StorageError::NotFound), "resource_not_found");
    assert_eq!(told(Purpose::FindExecution, StorageError::NotFound), "execution_not_found");
    assert_eq!(told(Purpose::Other, StorageError::NotFound), "internal_error");
    assert_eq!(told(Purpose::ReadApprovals, StorageError::NotFound), "internal_error");
    assert_eq!(told(Purpose::CheckDatabase, StorageError::QueueClosed), "storage_error");
    assert_eq!(
        rejection_for(Purpose::UpdateStep, &StorageError::NotFound).message,
        "execution step could not be updated"
    );
    assert_eq!(
        rejection_for(Purpose::FinishExecution, &StorageError::NotFound).message,
        "execution could not be finalized"
    );
    assert_eq!(told(Purpose::StoreEvent, StorageError::DuplicateEvent), "duplicate_event");
    assert_eq!(
        rejection_for(Purpose::StoreResource, &StorageError::DuplicateResource).message,
        "a resource with the same canonical path already exists"
    );
    assert_eq!(
        rejection_for(Purpose::StartExecution, &StorageError::RitualAlreadyRunning).message,
        "the ritual already has a running execution"
    );
    assert_eq!(
        rejection_for(Purpose::Other, &StorageError::Sqlite("secret".to_owned())),
        Rejection { code: "internal_error", message: "storage operation failed" }
    );
}

fn client_event(event_type: EventType, data: EventData) -> Event {
    Event {
        spec_version: EVENT_SPEC_VERSION.to_owned(),
        id: id(1),
        event_type,
        source: "client-controlled".to_owned(),
        occurred_at: now(),
        received_at: now(),
        actor: Actor::User,
        adapter: AdapterIdentity {
            id: "client-controlled".to_owned(),
            version: "test".to_owned(),
            instance_id: id(2),
            sequence_no: 1,
        },
        context: None,
        privacy: PrivacyClass::Normal,
        data,
    }
}

#[test]
fn client_event_ingest_rejects_semantic_event_spoofing_but_keeps_synthetic_fixture_support() {
    for (event_type, data) in [
        (
            EventType::BrowserResourceOpenedV1,
            EventData::BrowserResourceOpened { resource_id: id(3) },
        ),
        (
            EventType::VscodeWorkspaceOpenedV1,
            EventData::VscodeWorkspaceOpened { resource_id: id(3) },
        ),
        (
            EventType::SyntheticV1,
            EventData::VscodeWorkspaceOpened { resource_id: id(3) },
        ),
    ] {
        let error = admit_client_event(client_event(event_type, data), later())
            .expect_err("client semantic event must be rejected");
        assert_eq!(error.code, "invalid_event");
    }
    let synthetic = client_event(
        EventType::SyntheticV1,
        EventData::Synthetic { label: "fixture".to_owned(), counter: 1 },
    );
    let admitted = admit_client_event(synthetic.clone(), later()).expect("synthetic");
    assert_eq!(admitted.received_at, later());
    assert_eq!(admitted.occurred_at, now());
    assert!(ingested(admitted.id).stored);
    let mut blank = synthetic;
    blank.source.clear();
    let ErrorBody { code, message } = admit_client_event(blank, later()).expect_err("blank");
    assert_eq!(code, "invalid_event");
    assert_eq!(message, ValidationError::EmptyField("source").message());
}

fn emitted(event_type: EventType, resource_id: Uuid) -> AdapterEventEmitRequest {
    AdapterEventEmitRequest { sequence_no: 1, occurred_at: now(), event_type, resource_id }
}

#[test]
fn browser_scope_event_is_core_built_and_pause_blocks_events() {
    let enabled = register_page(
        "Research".to_owned(),
        "https://Example.COM:443/research?id=1#section",
        id(77),
        now(),
    )
    .expect("enable");
    assert_eq!(enabled.resource.kind, ResourceKind::WebPage);
    assert_eq!(enabled.resource.canonical_locator, "https://example.com/research");
    assert_eq!(enabled.resource.locator, "https://example.com/research");
    assert_eq!(enabled.origin_pattern, "https://example.com/*");
    assert_eq!(
        enabled.canonical_url_hash,
        fubun::digest::sha256_hex("https://example.com/research")
    );
    let hello = browser(vec![id(77)]);
    let emit = emitted(EventType::BrowserResourceOpenedV1, id(77));
    let observed = ObservedResource { kind: Some(ResourceKind::WebPage), scope_active: true };
    let event = build_adapter_event(&hello, &emit, observed, id(9), later()).expect("event");
    assert_eq!(event.actor, Actor::User);
    assert_eq!(event.source, "browser.chromium");
    assert_eq!(event.adapter.instance_id, id(2));
    assert_eq!(event.received_at, later());
    assert_eq!(event.data, EventData::BrowserResourceOpened { resource_id: id(77) });
    let ack = acknowledge(event.id, StoreOutcome::Stored);
    assert!(ack.stored && !ack.duplicate);
    let again = acknowledge(event.id, StoreOutcome::Duplicate);
    assert!(!again.stored && again.duplicate);

    let paused = ObservedResource { scope_active: false, ..observed };
    assert_eq!(
        build_adapter_event(&hello, &emit, paused, id(9), later()),
        Err(AdapterEventError::ScopeInactive)
    );
    assert_eq!(
        observation_source(EventType::BrowserResourceOpenedV1),
        Some(ObservationSource::BrowserChromium)
    );
}

#[test]
fn adapter_events_are_refused_for_a_reason() {
    let hello_ok = browser(vec![id(77)]);
    let emit = emitted(EventType::BrowserResourceOpenedV1, id(77));
    let observed = ObservedResource { kind: Some(ResourceKind::WebPage), scope_active: true };
    let build = |hello: &AdapterHello, emit: &AdapterEventEmitRequest, observed| {
        build_adapter_event(hello, emit, observed, id(9), later()).map(|event| event.id)
    };
    let vscode = emitted(EventType::VscodeWorkspaceOpenedV1, id(77));
    assert_eq!(
        build(&hello_ok, &vscode, observed),
        Err(AdapterEventError::UnsupportedType)
    );
    let synthetic = emitted(EventType::SyntheticV1, id(77));
    assert_eq!(
        build(&hello_ok, &synthetic, observed),
        Err(AdapterEventError::UnsupportedType)
    );
    let mut silent = browser(vec![id(77)]);
    silent.event_capabilities.clear();
    assert_eq!(
        build(&silent, &emit, observed),
        Err(AdapterEventError::CapabilityMissing)
    );
    let unknown = ObservedResource { kind: None, ..observed };
    assert_eq!(
        build(&hello_ok, &emit, unknown),
        Err(AdapterEventError::ResourceNotFound)
    );
    let file = ObservedResource { kind: Some(ResourceKind::File), ..observed };
    assert_eq!(
        build(&hello_ok, &emit, file),
        Err(AdapterEventError::WrongResourceKind)
    );
    assert_eq!(
        build(&browser(Vec::new()), &emit, observed),
        Err(AdapterEventError::PermissionMissing)
    );
    let mut late = emitted(EventType::BrowserResourceOpenedV1, id(77));
    late.sequence_no = u64::MAX;
    assert_eq!(
        build(&hello_ok, &late, observed),
        Err(AdapterEventError::Invalid(ValidationError::SequenceOutOfRange))
    );
    let mut blank = browser(vec![id(77)]);
    blank.adapter_version = " ".to_owned();
    assert_eq!(
        build(&blank, &emit, observed),
        Err(AdapterEventError::Invalid(ValidationError::EmptyField("adapter.version")))
    );
}

#[test]
fn vscode_event_only_adapter_can_store_semantic_event() {
    let enabled = register_workspace(
        "Workspace".to_owned(),
        "/tmp/workspace".to_owned(),
        "/tmp/workspace".to_owned(),
        ResourceKind::Directory,
        id(88),
        now(),
    )
    .expect("enable");
    assert_eq!(
        enabled.canonical_path_hash,
        fubun::digest::sha256_hex("/tmp/workspace")
    );
    let hello = hello(
        "dev.fubun.vscode",
        6,
        &[],
        &["dev.fubun.vscode.workspace.opened.v1"],
    );
    assert_eq!(AdapterManager::validate_hello(&hello), Ok(()));
    let observed = ObservedResource { kind: Some(ResourceKind::Directory), scope_active: true };
    let event = build_adapter_event(
        &hello,
        &emitted(EventType::VscodeWorkspaceOpenedV1, enabled.resource.id),
        observed,
        id(9),
        later(),
    )
    .expect("event");
    assert!(acknowledge(event.id, StoreOutcome::Stored).stored);
    assert_eq!(event.source, "vscode.workspace");
    assert!(matches!(event.data, EventData::VscodeWorkspaceOpened { .. }));
    let file = register_workspace(
        "Workspace".to_owned(),
        "/tmp/x".to_owned(),
        "/tmp/x".to_owned(),
        ResourceKind::File,
        id(88),
        now(),
    );
    assert_eq!(file.map(|_| ()).map_err(|error| error.code), Err("invalid_resource".to_owned()));
}
