//! Adapter registration, selection and dispatch.

use fubun::adapter::{
    adapter_kind, connection_satisfies, AdapterDispatchErrorKind, AdapterEligibilityError,
    AdapterKind, AdapterManager, AdapterRegistrationError, AdapterRequirements, DispatchReply,
};
use fubun::clock::Timestamp;
use fubun::ids::Uuid;
use fubun::protocol::{
    current_protocol_version, ActionResult, AdapterActionStatus, AdapterEventEmitRequest,
    AdapterHello, AdapterResponseBody, AdapterResponseEnvelope, AdapterStatusSnapshot,
    AdapterToolStatus,
};
use fubun::event::EventType;
use fubun::ritual::ActionSpec;

fn id(value: u128) -> Uuid {
    Uuid::from_u128(value)
}

fn now() -> Timestamp {
    Timestamp::parse("2026-08-04T10:00:00Z").expect("time")
}

fn hello(instance_id: Uuid, capabilities: Vec<&str>) -> AdapterHello {
    hello_with_status(instance_id, capabilities, vec![("notify-send", true)], Vec::new())
}

fn hello_with_status(
    instance_id: Uuid,
    capabilities: Vec<&str>,
    tools: Vec<(&str, bool)>,
    desktop_entry_ids: Vec<&str>,
) -> AdapterHello {
    AdapterHello {
        adapter_id: "dev.fubun.linux".to_owned(),
        adapter_version: "test".to_owned(),
        instance_id,
        action_capabilities: capabilities.into_iter().map(str::to_owned).collect(),
        event_capabilities: Vec::new(),
        status: AdapterStatusSnapshot {
            tools: tools
                .into_iter()
                .map(|(name, available)| AdapterToolStatus {
                    name: name.to_owned(),
                    available,
                })
                .collect(),
            desktop_entry_ids: desktop_entry_ids.into_iter().map(str::to_owned).collect(),
            permitted_resource_ids: Vec::new(),
        },
    }
}

fn browser_hello(instance_id: Uuid, permitted: Vec<Uuid>) -> AdapterHello {
    AdapterHello {
        adapter_id: "dev.fubun.browser.chromium".to_owned(),
        adapter_version: "1".to_owned(),
        instance_id,
        action_capabilities: vec!["browser.tab.ensure_open.v1".to_owned()],
        event_capabilities: vec!["dev.fubun.browser.resource.opened.v1".to_owned()],
        status: AdapterStatusSnapshot {
            tools: Vec::new(),
            desktop_entry_ids: Vec::new(),
            permitted_resource_ids: permitted,
        },
    }
}

fn vscode_hello(instance_id: Uuid) -> AdapterHello {
    AdapterHello {
        adapter_id: "dev.fubun.vscode".to_owned(),
        adapter_version: "test".to_owned(),
        instance_id,
        action_capabilities: Vec::new(),
        event_capabilities: vec!["dev.fubun.vscode.workspace.opened.v1".to_owned()],
        status: AdapterStatusSnapshot {
            tools: Vec::new(),
            desktop_entry_ids: Vec::new(),
            permitted_resource_ids: Vec::new(),
        },
    }
}

fn notification() -> ActionSpec {
    ActionSpec::DesktopNotificationShow {
        title: "title".to_owned(),
        body: "body".to_owned(),
    }
}

fn action_result(request_id: Uuid, action_execution_id: Uuid) -> AdapterResponseEnvelope {
    AdapterResponseEnvelope {
        protocol_version: current_protocol_version(),
        request_id,
        action_execution_id,
        body: AdapterResponseBody::ActionResult(ActionResult {
            status: AdapterActionStatus::Succeeded,
            result_code: "ok".to_owned(),
            redacted_message: "ok".to_owned(),
        }),
    }
}

#[test]
fn adapter_hello_rejects_unknown_and_duplicate_capabilities() {
    let instance = id(7);
    assert_eq!(
        AdapterManager::validate_hello(&hello(instance, vec!["unknown.v1"])),
        Err(AdapterRegistrationError::UnknownCapability)
    );
    assert_eq!(
        AdapterManager::validate_hello(&hello(
            instance,
            vec![
                "desktop.notification.show.v1",
                "desktop.notification.show.v1"
            ]
        )),
        Err(AdapterRegistrationError::DuplicateCapability)
    );
    let mut invalid_version = hello(instance, vec!["desktop.notification.show.v1"]);
    invalid_version.adapter_version.clear();
    assert_eq!(
        AdapterManager::validate_hello(&invalid_version),
        Err(AdapterRegistrationError::InvalidVersion)
    );
    let mut invalid_adapter = hello(instance, vec!["desktop.notification.show.v1"]);
    invalid_adapter.adapter_id = "dev.fubun.unknown".to_owned();
    assert_eq!(
        AdapterManager::validate_hello(&invalid_adapter),
        Err(AdapterRegistrationError::UnknownAdapter)
    );
    let mut empty_capabilities = hello(instance, vec!["desktop.notification.show.v1"]);
    empty_capabilities.action_capabilities.clear();
    assert_eq!(
        AdapterManager::validate_hello(&empty_capabilities),
        Err(AdapterRegistrationError::InvalidCapabilityCount)
    );
}

#[test]
fn adapter_hello_is_held_to_the_registry_of_its_kind() {
    assert_eq!(AdapterManager::validate_hello(&vscode_hello(id(1))), Ok(()));
    assert_eq!(AdapterManager::validate_hello(&browser_hello(id(1), Vec::new())), Ok(()));
    let mut spoofed = vscode_hello(id(1));
    spoofed.event_capabilities = vec!["dev.fubun.browser.resource.opened.v1".to_owned()];
    assert_eq!(
        AdapterManager::validate_hello(&spoofed),
        Err(AdapterRegistrationError::UnknownCapability)
    );
    let linux = hello(id(1), vec!["browser.tab.ensure_open.v1"]);
    assert_eq!(
        AdapterManager::validate_hello(&linux),
        Err(AdapterRegistrationError::UnknownCapability)
    );
    let blank = hello(id(1), vec!["desktop notification"]);
    assert_eq!(
        AdapterManager::validate_hello(&blank),
        Err(AdapterRegistrationError::InvalidCapability)
    );
    let long = "x".repeat(129);
    assert_eq!(
        AdapterManager::validate_hello(&hello(id(1), vec![long.as_str()])),
        Err(AdapterRegistrationError::InvalidCapability)
    );
    let many = vec!["linux.path.open.v1"; 17];
    assert_eq!(
        AdapterManager::validate_hello(&hello(id(1), many)),
        Err(AdapterRegistrationError::InvalidCapabilityCount)
    );
    assert_eq!(adapter_kind("dev.fubun.vscode"), Some(AdapterKind::Vscode));
    assert_eq!(adapter_kind("dev.fubun.other"), None);
}

#[test]
fn registration_errors_are_told_in_words() {
    assert_eq!(
        AdapterRegistrationError::DuplicateCapability.message(),
        "adapter capability is duplicated"
    );
    assert_eq!(
        AdapterRegistrationError::InvalidCapabilityCount.message(),
        "adapter capability list is empty or too large"
    );
    assert_eq!(
        AdapterEligibilityError::Ineligible.message(),
        "no connected adapter instance satisfies the action requirements"
    );
    assert_eq!(AdapterDispatchErrorKind::Timeout.message(), "adapter action timed out");
}

#[test]
fn pending_guard_removes_request_when_dispatch_future_is_cancelled() {
    let mut manager = AdapterManager::new();
    manager
        .register(hello(id(1), vec!["desktop.notification.show.v1"]), id(50), now())
        .expect("valid hello");
    manager.begin(&notification(), id(100), id(200)).expect("dispatch");
    assert_eq!(manager.pending_count(), 1);
    manager.cancel(id(100));
    assert_eq!(manager.pending_count(), 0);
}

#[test]
fn successful_response_disarms_pending_guard_and_returns_dispatch_identity() {
    let mut manager = AdapterManager::new();
    manager
        .register(hello(id(1), vec!["desktop.notification.show.v1"]), id(50), now())
        .expect("valid hello");
    let identity = manager.begin(&notification(), id(100), id(200)).expect("dispatch");
    let (request, answer) = manager
        .resolve(action_result(id(100), id(200)), now())
        .expect("a request waits");
    assert_eq!(request.request_id, id(100));
    let result = manager
        .settle(id(100), identity, DispatchReply::Replied(answer))
        .expect("result");
    assert_eq!(result.identity.adapter_id, "dev.fubun.linux");
    assert_eq!(result.identity.instance_id, id(1));
    assert_eq!(result.result.result_code, "ok");
    assert_eq!(manager.pending_count(), 0);
}

#[test]
fn timeout_and_disconnect_drain_pending_requests() {
    let mut manager = AdapterManager::new();
    manager
        .register(hello(id(1), vec!["desktop.notification.show.v1"]), id(50), now())
        .expect("valid hello");

    let identity = manager.begin(&notification(), id(100), id(200)).expect("dispatch");
    let error = manager
        .settle(id(100), identity, DispatchReply::TimedOut)
        .expect_err("timeout");
    assert_eq!(error.kind, AdapterDispatchErrorKind::Timeout);
    assert_eq!(error.identity.map(|identity| identity.instance_id), Some(id(1)));
    assert_eq!(manager.pending_count(), 0);

    let identity = manager.begin(&notification(), id(101), id(201)).expect("dispatch");
    let released = manager.disconnect(id(50));
    assert_eq!(released.len(), 1);
    assert_eq!(released[0].request_id, id(101));
    let error = manager
        .settle(
            id(101),
            identity,
            DispatchReply::Replied(Err(AdapterDispatchErrorKind::Disconnected)),
        )
        .expect_err("disconnect");
    assert_eq!(error.kind, AdapterDispatchErrorKind::Disconnected);
    assert_eq!(error.identity.map(|identity| identity.instance_id), Some(id(1)));
    assert_eq!(manager.pending_count(), 0);

    manager
        .register(hello(id(2), vec!["desktop.notification.show.v1"]), id(51), now())
        .expect("valid hello");
    manager.begin(&notification(), id(102), id(202)).expect("dispatch");
    let released = manager.shutdown();
    assert_eq!(released.len(), 1);
    assert_eq!(manager.pending_count(), 0);
    assert_eq!(manager.connected_count(), 0);

    manager
        .register(hello(id(3), vec!["desktop.notification.show.v1"]), id(52), now())
        .expect("valid hello");
    let identity = manager.begin(&notification(), id(103), id(203)).expect("dispatch");
    let error = manager
        .settle(id(103), identity, DispatchReply::SendFailed)
        .expect_err("send failure");
    assert_eq!(error.kind, AdapterDispatchErrorKind::Disconnected);
    assert_eq!(error.identity.map(|identity| identity.instance_id), Some(id(3)));
    assert_eq!(manager.pending_count(), 0);
}

#[test]
fn selection_requires_one_eligible_instance_and_is_deterministic() {
    let mut manager = AdapterManager::new();
    for (instance, available) in [(1, false), (2, true), (3, true)] {
        manager
            .register(
                hello_with_status(
                    id(instance),
                    vec!["desktop.notification.show.v1"],
                    vec![("notify-send", available)],
                    Vec::new(),
                ),
                id(50 + instance),
                now(),
            )
            .expect("register");
    }
    let requirements = AdapterRequirements::from_action(&notification());
    let selected = manager.find_eligible(&requirements).expect("eligible notification adapter");
    assert_eq!(selected.instance_id, id(2));
    let identity = manager.begin(&notification(), id(100), id(200)).expect("dispatch");
    assert_eq!(identity.instance_id, id(2));
    assert_eq!(manager.pending[0].token, id(52));

    let app = AdapterRequirements::from_action(&ActionSpec::LinuxAppEnsureRunning {
        app_id: "code".to_owned(),
    });
    let mut desktop = AdapterManager::new();
    for (instance, entries) in [(10, Vec::new()), (11, vec!["code"])] {
        desktop
            .register(
                hello_with_status(
                    id(instance),
                    vec!["linux.app.ensure_running.v1"],
                    vec![("gtk-launch", true)],
                    entries,
                ),
                id(50 + instance),
                now(),
            )
            .expect("register");
    }
    assert_eq!(
        desktop.find_eligible(&app).expect("matching desktop entry").instance_id,
        id(11)
    );

    let mut split = AdapterManager::new();
    for (instance, tool, entries) in [(20, true, Vec::new()), (21, false, vec!["code"])] {
        split
            .register(
                hello_with_status(
                    id(instance),
                    vec!["linux.app.ensure_running.v1"],
                    vec![("gtk-launch", tool)],
                    entries,
                ),
                id(50 + instance),
                now(),
            )
            .expect("register");
    }
    assert_eq!(split.find_eligible(&app), Err(AdapterEligibilityError::Ineligible));
}

#[test]
fn selection_does_not_depend_on_the_order_of_connections() {
    let requirements = AdapterRequirements::from_action(&notification());
    for order in [[5, 9, 7], [9, 7, 5], [7, 5, 9]] {
        let mut manager = AdapterManager::new();
        for instance in order {
            manager
                .register(
                    hello(id(instance), vec!["desktop.notification.show.v1"]),
                    id(100 + instance),
                    now(),
                )
                .expect("register");
        }
        assert_eq!(manager.find_eligible(&requirements).expect("eligible").instance_id, id(5));
    }
}

#[test]
fn protocol_error_retains_selected_adapter_identity() {
    let mut manager = AdapterManager::new();
    manager
        .register(hello(id(1), vec!["desktop.notification.show.v1"]), id(50), now())
        .expect("valid hello");
    let identity = manager.begin(&notification(), id(100), id(200)).expect("dispatch");
    let (_, answer) = manager
        .resolve(action_result(id(100), id(999)), now())
        .expect("a request waits");
    let error = manager
        .settle(id(100), identity, DispatchReply::Replied(answer))
        .expect_err("protocol error");
    assert_eq!(error.kind, AdapterDispatchErrorKind::Protocol);
    assert_eq!(error.message(), "adapter protocol error");
    assert_eq!(error.identity.map(|identity| identity.instance_id), Some(id(1)));
    assert_eq!(manager.pending_count(), 0);
}

#[test]
fn an_event_is_no_answer_to_an_action() {
    let mut manager = AdapterManager::new();
    manager
        .register(hello(id(1), vec!["desktop.notification.show.v1"]), id(50), now())
        .expect("valid hello");
    manager.begin(&notification(), id(100), id(200)).expect("dispatch");
    let (_, answer) = manager
        .resolve(
            AdapterResponseEnvelope {
                protocol_version: current_protocol_version(),
                request_id: id(100),
                action_execution_id: id(200),
                body: AdapterResponseBody::EventEmit(AdapterEventEmitRequest {
                    sequence_no: 1,
                    occurred_at: now(),
                    event_type: EventType::BrowserResourceOpenedV1,
                    resource_id: id(5),
                }),
            },
            now(),
        )
        .expect("a request waits");
    assert_eq!(answer, Err(AdapterDispatchErrorKind::Protocol));
}

#[test]
fn unavailable_dispatch_has_no_adapter_identity() {
    let mut manager = AdapterManager::new();
    let error = manager
        .begin(&notification(), id(100), id(200))
        .expect_err("no adapter is connected");
    assert_eq!(error.kind, AdapterDispatchErrorKind::Unavailable);
    assert_eq!(error.identity, None);
    assert_eq!(manager.pending_count(), 0);
    manager
        .register(vscode_hello(id(4)), id(54), now())
        .expect("valid hello");
    let error = manager
        .begin(&notification(), id(100), id(200))
        .expect_err("no adapter offers it");
    assert_eq!(error.kind, AdapterDispatchErrorKind::CapabilityUnavailable);
    assert_eq!(error.identity, None);
}

#[test]
fn answers_to_nothing_are_dropped() {
    let mut manager = AdapterManager::new();
    manager
        .register(hello(id(1), vec!["desktop.notification.show.v1"]), id(50), now())
        .expect("valid hello");
    assert!(manager.resolve(action_result(id(1), id(2)), now()).is_none());
}

#[test]
fn the_end_of_an_old_connection_keeps_the_new_one() {
    let mut manager = AdapterManager::new();
    let capabilities = vec!["desktop.notification.show.v1"];
    manager.register(hello(id(1), capabilities.clone()), id(50), now()).expect("first");
    manager.begin(&notification(), id(100), id(200)).expect("old request");
    manager.register(hello(id(1), capabilities), id(51), now()).expect("second");
    manager.begin(&notification(), id(101), id(201)).expect("new request");
    assert_eq!(manager.connected_count(), 1);
    let released = manager.disconnect(id(50));
    assert_eq!(released.len(), 1);
    assert_eq!(released[0].request_id, id(100));
    assert_eq!(manager.connected_count(), 1);
    assert_eq!(manager.pending_count(), 1);
    assert_eq!(manager.pending[0].request_id, id(101));
}

#[test]
fn reports_are_sorted_and_count_what_is_connected() {
    let mut manager = AdapterManager::new();
    let later = now().plus_seconds(5).expect("later");
    manager.register(browser_hello(id(9), vec![id(1), id(2)]), id(50), now()).expect("browser");
    manager.register(vscode_hello(id(3)), id(51), now()).expect("vscode");
    manager
        .register(
            hello_with_status(
                id(6),
                vec!["linux.path.open.v1"],
                vec![("xdg-open", true), ("gtk-launch", false)],
                vec!["code"],
            ),
            id(52),
            now(),
        )
        .expect("linux");
    manager.register(browser_hello(id(12), vec![id(2), id(7)]), id(53), now()).expect("browser");
    manager.touch(id(3), later);
    let reports = manager.reports();
    let order: Vec<Uuid> = reports.iter().map(|report| report.instance_id).collect();
    assert_eq!(order, vec![id(3), id(6), id(9), id(12)]);
    assert_eq!(reports[0].connected_at, "2026-08-04T10:00:00Z");
    assert_eq!(reports[0].last_seen_at, "2026-08-04T10:00:05Z");
    assert_eq!(reports[0].event_capabilities, vec!["dev.fubun.vscode.workspace.opened.v1"]);
    assert_eq!(reports[1].capabilities, vec!["linux.path.open.v1"]);
    assert!(reports[2].connected);
    assert_eq!(reports[2].permitted_resource_ids, vec![id(1), id(2)]);
    assert_eq!(manager.count_of_kind(AdapterKind::Browser), 2);
    assert_eq!(manager.count_of_kind(AdapterKind::Linux), 1);
    assert_eq!(manager.permitted_resources(), vec![id(1), id(2), id(7)]);
    assert!(manager.tool_available("xdg-open"));
    assert!(!manager.tool_available("gtk-launch"));
    assert!(manager.capability_available("linux.path.open.v1"));
    assert!(!manager.capability_available("linux.app.ensure_running.v1"));
    assert!(manager.capability_tool_available("linux.path.open.v1", "xdg-open"));
    assert!(!manager.capability_tool_available("linux.path.open.v1", "notify-send"));
    assert_eq!(manager.desktop_entry_available("code"), Some(true));
    assert_eq!(manager.desktop_entry_available("gedit"), Some(false));
    assert_eq!(AdapterManager::new().desktop_entry_available("code"), None);
}

#[test]
fn a_browser_action_needs_a_permitted_page_on_one_instance() {
    let action = ActionSpec::BrowserTabEnsureOpen { resource_id: id(77) };
    let requirements = AdapterRequirements::from_action(&action);
    assert_eq!(requirements.capability, "browser.tab.ensure_open.v1");
    assert_eq!(requirements.required_tool, None);
    assert_eq!(requirements.permitted_resource_id, Some(id(77)));
    assert!(connection_satisfies(&browser_hello(id(1), vec![id(77)]), &requirements));
    assert!(!connection_satisfies(&browser_hello(id(1), vec![id(78)]), &requirements));
    let mut liar = hello(id(1), vec!["browser.tab.ensure_open.v1"]);
    liar.status.permitted_resource_ids = vec![id(77)];
    assert!(!connection_satisfies(&liar, &requirements));
}
