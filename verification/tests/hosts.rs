//! The command line, the native messaging host, the Linux adapter, paths and addresses.

use fubun::cli::{
    allow_extension, allowed_extension_ids, extension_origin, installable_host,
    native_host_paths, other_browser, parse_browser, parse_duration, parse_sensitivity, parse_since, parse_source, removes_config,
    snooze_until, validate_extension_id, Browser, CliError,
};
use fubun::clock::Timestamp;
use fubun::ids::Uuid;
use fubun::linux::{
    application_directories, desktop_exec_basename, entry_id, is_process, is_running_program,
    linux_hello, linux_status, plan_app, plan_notification, plan_path, sort_and_dedup,
    tool_result, AppFacts, LinuxDecision, PathFacts, Tool, Tools,
};
use fubun::adapter::AdapterManager;
use fubun::native_host::{
    browser_hello, check_allowed_ids, event_message, finish_event, native_request, reply_kind,
    require_allowed, require_hello, require_private, result_message, status_message,
    validate_extension_hello, validate_origin, AckWait, BrowserActionResult, BrowserEvent,
    ExtensionHello, HostMessageError, NativeRequest, PendingAckError, PendingAcks, Route,
};
use fubun::paths::{join, FubunPaths, PathError};
use fubun::protocol::{
    current_protocol_version, native_frame_header, native_frame_length, ActionExecuteRequest,
    ActionResult, AdapterActionStatus, AdapterEventAck, AdapterRequestBody,
    AdapterRequestEnvelope, AdapterResponseBody, AdapterStatusRequest, FrameError,
    ProtocolVersion, ResolvedResource, MAX_MESSAGE_SIZE,
};
use fubun::resource::{ObservationSource, ResourceKind, Sensitivity};
use fubun::ritual::{validate_app_id, ActionSpec};
use fubun::storage::StorageError;
use fubun::url::{canonicalize, origin_pattern, UrlError};

fn id(value: u128) -> Uuid {
    Uuid::from_u128(value)
}

fn now() -> Timestamp {
    Timestamp::parse("2026-08-04T10:00:00Z").expect("time")
}

#[test]
fn parses_hour_duration() {
    let before = now().plus_seconds(-59 * 60).expect("time");
    assert!(parse_since("1h", now()).expect("valid duration").is_before(&before));
}

#[test]
fn rejects_invalid_duration() {
    assert!(matches!(parse_since("zero", now()), Err(CliError::InvalidDuration(_))));
}

#[test]
fn durations_are_a_positive_number_and_a_unit() {
    assert_eq!(parse_duration("90s"), Some(90));
    assert_eq!(parse_duration("5m"), Some(300));
    assert_eq!(parse_duration("+2h"), Some(7_200));
    assert_eq!(parse_duration("7d"), Some(604_800));
    for invalid in ["", "h", "0h", "-1h", "1.5h", "1w", "h1", "++1h", "9223372036854775807d"] {
        assert_eq!(parse_duration(invalid), None);
    }
    assert_eq!(parse_since("1h", now()).expect("time").unix_seconds, now().unix_seconds - 3_600);
    assert_eq!(
        parse_since("1w", now()).expect_err("unit").message(),
        "invalid duration: 1w; expected a positive integer followed by s, m, h, or d"
    );
    assert_eq!(snooze_until("1d", now()).expect("time").unix_seconds, now().unix_seconds + 86_400);
    assert_eq!(snooze_until("later", now()), Err(StorageError::InvalidSnoozeDuration));
    assert_eq!(CliError::UnexpectedResponse.message(), "unexpected daemon response");
}

#[test]
fn command_line_words_are_read() {
    assert_eq!(parse_sensitivity("sensitive"), Ok(Sensitivity::Sensitive));
    assert_eq!(parse_sensitivity("secret"), Err(CliError::UnexpectedResponse));
    assert_eq!(parse_source("vscode.workspace"), Ok(ObservationSource::VscodeWorkspace));
    assert_eq!(parse_source("firefox"), Err(CliError::UnexpectedResponse));
    assert_eq!(parse_browser("chromium"), Some(Browser::Chromium));
    assert_eq!(parse_browser("firefox"), None);
    assert_eq!(other_browser(Browser::Chrome), Browser::Chromium);
}

#[test]
fn native_host_files_have_fixed_places() {
    let host = native_host_paths(Some("/cfg"), Some("/home/a"), "chrome").expect("paths");
    assert_eq!(host.config, "/cfg/fubun/browser-native-host.json");
    assert_eq!(
        host.manifest,
        "/cfg/google-chrome/NativeMessagingHosts/dev.fubun.browser.json"
    );
    let host = native_host_paths(None, Some("/home/a"), "chromium").expect("paths");
    assert_eq!(
        host.manifest,
        "/home/a/.config/chromium/NativeMessagingHosts/dev.fubun.browser.json"
    );
    assert_eq!(
        native_host_paths(None, None, "chrome"),
        Err(CliError::UnexpectedResponse)
    );
    assert_eq!(
        native_host_paths(Some("/cfg"), None, "firefox"),
        Err(CliError::UnexpectedResponse)
    );
    assert_eq!(installable_host(true, true, 0o755), Ok(()));
    assert_eq!(installable_host(true, true, 0o644), Err(CliError::UnexpectedResponse));
    assert_eq!(installable_host(true, false, 0o755), Err(CliError::UnexpectedResponse));
    assert!(removes_config(true, false) && !removes_config(true, true));
}

#[test]
fn allowed_extensions_are_sorted_and_added_once() {
    let known = vec!["b".to_owned(), "a".to_owned()];
    assert_eq!(allow_extension(known.clone(), "c"), vec!["a", "b", "c"]);
    assert_eq!(allow_extension(known, "a"), vec!["a", "b"]);
    assert_eq!(allow_extension(Vec::new(), "z"), vec!["z"]);
    assert_eq!(validate_extension_id(&"p".repeat(32)), Ok(()));
    assert_eq!(validate_extension_id(&"q".repeat(32)), Err(CliError::UnexpectedResponse));
    assert_eq!(validate_extension_id("abc"), Err(CliError::UnexpectedResponse));
}

#[test]
fn pages_of_ipv6_hosts_have_an_address() {
    assert_eq!(canonicalize("http://[::1]/").expect("url"), "http://[::1]/");
    assert_eq!(
        canonicalize("http://u@[2001:DB8::A]:8080/x").expect("url"),
        "http://[2001:db8::a]:8080/x"
    );
    assert_eq!(origin_pattern("https://[::]:443").expect("url"), "https://[::]/*");
    for host in ["1:2:3:4:5:6:7:8", "::2:3:4:5:6:7:8", "1:2:3:4:5:6:7::", "1::8"] {
        let url = format!("https://[{host}]/");
        assert_eq!(canonicalize(&url).expect("url"), url);
    }
    for host in [
        "", ":", "1", ":1", "1:", "1:2:3:4:5:6:7", "1:2:3:4:5:6:7:8:9", "1::2::3", ":::",
        "1::2:3:4:5:6:7:8", "12345::", "::g", "::1]x",
    ] {
        let url = format!("https://[{host}]/");
        assert_eq!(canonicalize(&url), Err(UrlError::InvalidHost));
    }
    assert_eq!(canonicalize("https://[::1/"), Err(UrlError::InvalidHost));
    assert_eq!(canonicalize("https://[::1]:x/"), Err(UrlError::InvalidPort));
}

#[test]
fn settings_list_the_allowed_extensions() {
    let read = |text: &str| allowed_extension_ids(text);
    let listed = |ids: &[&str]| Ok(ids.iter().map(|id| (*id).to_owned()).collect::<Vec<_>>());
    assert_eq!(read("{ \"allowed_extension_ids\": [\"b\", \"a\"] }"), listed(&["b", "a"]));
    assert_eq!(
        read("{\"other\":1,\"allowed_extension_ids\":[1,\"b\",null,[\"c\"],\"\\u0061\\n\"]}"),
        listed(&["b", "a\n"])
    );
    assert_eq!(read("{\"allowed_extension_ids\":{\"a\":\"b\"}}"), listed(&[]));
    assert_eq!(read("{\"allowed_extension_ids\":\"a\"}"), listed(&[]));
    assert_eq!(read("{}"), listed(&[]));
    assert_eq!(read("[\"a\"]"), listed(&[]));
    assert_eq!(read("{\"allowed_extension_ids\":[\"a\"}"), Err(StorageError::Json));
    assert_eq!(read(""), Err(StorageError::Json));
}

#[test]
fn validates_exact_chrome_origin() {
    let id = "a".repeat(32);
    assert_eq!(
        validate_origin(&format!("chrome-extension://{id}/")).unwrap(),
        id
    );
    assert!(validate_origin(&format!("chrome-extension://{}/x", "a".repeat(32))).is_err());
    assert!(validate_origin("http://abcdefghijklmnopabcdefghijklmnop/").is_err());
}

#[test]
fn origins_are_refused_for_a_reason() {
    assert_eq!(validate_origin("http://x/"), Err("invalid caller scheme"));
    assert_eq!(
        validate_origin("chrome-extension://abc"),
        Err("caller origin must end with /")
    );
    assert_eq!(validate_origin("chrome-extension://abc/"), Err("invalid extension id"));
    let id = "abcdefghijklmnopabcdefghijklmnop";
    assert_eq!(validate_origin(&extension_origin(id)), Ok(id.to_owned()));
}

#[test]
fn native_frame_length_is_utf8_bytes_and_bounded() {
    let payload = "é".repeat(8);
    let bytes = payload.as_bytes();
    let header = native_frame_header(bytes.len()).expect("bounded");
    assert_eq!(header as usize, bytes.len());
    assert_eq!(native_frame_length(header), Ok(bytes.len()));
    assert!(MAX_MESSAGE_SIZE > bytes.len());
    assert_eq!(native_frame_length(0), Err(FrameError::Empty));
    assert_eq!(
        native_frame_length(MAX_MESSAGE_SIZE as u32 + 1),
        Err(FrameError::Oversized {
            actual: MAX_MESSAGE_SIZE + 1,
            maximum: MAX_MESSAGE_SIZE,
        })
    );
}

fn extension_hello() -> ExtensionHello {
    ExtensionHello {
        extension_id: "a".repeat(32),
        extension_version: "1.0".to_owned(),
        extension_instance_id: id(5),
        permitted_resource_ids: vec![id(1), id(2)],
    }
}

#[test]
fn extension_hello_is_checked_and_introduced() {
    let hello = extension_hello();
    let expected = "a".repeat(32);
    assert_eq!(validate_extension_hello(&hello, &expected), Ok(()));
    assert_eq!(
        validate_extension_hello(&hello, &"b".repeat(32)),
        Err("extension hello identity mismatch")
    );
    let mut unversioned = extension_hello();
    unversioned.extension_version.clear();
    assert_eq!(
        validate_extension_hello(&unversioned, &expected),
        Err("invalid extension version")
    );
    let mut repeated = extension_hello();
    repeated.permitted_resource_ids.push(id(1));
    assert_eq!(
        validate_extension_hello(&repeated, &expected),
        Err("invalid permitted browser resources")
    );
    let introduction = browser_hello(&hello, "0.1.0");
    assert_eq!(introduction.adapter_id, "dev.fubun.browser.chromium");
    assert_eq!(introduction.instance_id, id(5));
    assert_eq!(introduction.status.permitted_resource_ids, vec![id(1), id(2)]);
    assert_eq!(AdapterManager::validate_hello(&introduction), Ok(()));
}

#[test]
fn host_settings_are_private_and_valid() {
    assert_eq!(require_private(true, 0o700, true, 0o600), Ok(()));
    assert_eq!(
        require_private(true, 0o755, true, 0o600),
        Err("native host config directory must be private")
    );
    assert_eq!(
        require_private(true, 0o700, true, 0o640),
        Err("native host config must not be group/world accessible")
    );
    let a = "a".repeat(32);
    let b = "b".repeat(32);
    let invalid = Err("invalid allowed extension id configuration");
    assert_eq!(check_allowed_ids(&vec![a.clone(), b.clone()]), Ok(()));
    assert_eq!(check_allowed_ids(&Vec::new()), invalid);
    assert_eq!(check_allowed_ids(&vec![a.clone(), a.clone()]), invalid);
    assert_eq!(check_allowed_ids(&vec!["short".to_owned()]), invalid);
    assert_eq!(require_allowed(&vec![a.clone()], &a), Ok(()));
    assert_eq!(require_allowed(&vec![a], &b), Err("extension origin is not registered"));
}

#[test]
fn native_messages_are_told_apart() {
    let current = current_protocol_version();
    let other = ProtocolVersion { major: 2, minor: 0 };
    assert_eq!(require_hello(current, "extension.hello"), Ok(()));
    assert_eq!(require_hello(other, "extension.hello"), Err("extension hello is required"));
    assert_eq!(require_hello(current, "ping"), Err("extension hello is required"));
    assert_eq!(native_request(current, "browser.event.emit"), Ok(NativeRequest::EmitEvent));
    assert_eq!(native_request(current, "integration.ping"), Ok(NativeRequest::Ping));
    assert_eq!(native_request(current, "shell.run"), Err(HostMessageError::InvalidPayload));
    assert_eq!(native_request(other, "integration.ping"), Err(HostMessageError::Protocol));
    assert_eq!(reply_kind(NativeRequest::Ping), Some("integration.pong"));
    assert_eq!(reply_kind(NativeRequest::ActionResult), None);
    assert_eq!(HostMessageError::Core.message(), "core request failed");
}

#[test]
fn host_messages_carry_their_identifiers() {
    let event = BrowserEvent { sequence_no: 4, occurred_at: now(), resource_id: id(9) };
    let message = event_message(id(3), event);
    assert_eq!(message.request_id, id(3));
    assert_eq!(message.action_execution_id, Uuid::nil());
    let AdapterResponseBody::EventEmit(emitted) = message.body else {
        panic!("event");
    };
    assert_eq!(emitted.sequence_no, 4);
    assert_eq!(emitted.resource_id, id(9));
    let result = result_message(BrowserActionResult {
        request_id: id(6),
        action_execution_id: id(7),
        result: ActionResult {
            status: AdapterActionStatus::Succeeded,
            result_code: "opened".to_owned(),
            redacted_message: "opened".to_owned(),
        },
    });
    assert_eq!((result.request_id, result.action_execution_id), (id(6), id(7)));
    let status = status_message(
        id(8),
        id(9),
        fubun::native_host::browser_status(&extension_hello()),
    );
    assert!(matches!(status.body, AdapterResponseBody::Status(_)));
}

fn event_ack(request_id: Uuid) -> AdapterRequestEnvelope {
    AdapterRequestEnvelope {
        protocol_version: current_protocol_version(),
        request_id,
        action_execution_id: Uuid::nil(),
        body: AdapterRequestBody::EventAck(AdapterEventAck {
            event_id: id(500),
            stored: true,
            duplicate: false,
        }),
    }
}

fn browser_action(request_id: Uuid) -> AdapterRequestEnvelope {
    AdapterRequestEnvelope {
        protocol_version: current_protocol_version(),
        request_id,
        action_execution_id: id(600),
        body: AdapterRequestBody::ActionExecute(ActionExecuteRequest {
            action: ActionSpec::BrowserTabEnsureOpen { resource_id: id(601) },
            resolved_resource: None,
        }),
    }
}

#[test]
fn routes_action_before_event_ack_without_misdelivery() {
    let mut pending = PendingAcks::new();
    pending.begin(id(1)).expect("event");
    let Route::Action { request_id, .. } = pending.route(browser_action(id(2))) else {
        panic!("action must be routed");
    };
    assert_eq!(request_id, id(2));
    let Route::Deliver { request_id, result } = pending.route(event_ack(id(1))) else {
        panic!("acknowledgement must be delivered");
    };
    assert_eq!(request_id, id(1));
    assert!(result.is_ok());
    assert!(pending.waiting.is_empty());
}

#[test]
fn routes_event_ack_before_action_without_misdelivery() {
    let mut pending = PendingAcks::new();
    pending.begin(id(1)).expect("event");
    assert!(matches!(pending.route(event_ack(id(1))), Route::Deliver { result: Ok(_), .. }));
    let Route::Action { request_id, .. } = pending.route(browser_action(id(2))) else {
        panic!("action must be routed");
    };
    assert_eq!(request_id, id(2));
}

#[test]
fn event_ack_timeout_and_disconnect_release_pending() {
    let mut pending = PendingAcks::new();
    pending.begin(id(1)).expect("event");
    assert_eq!(
        finish_event(&mut pending, id(1), AckWait::TimedOut),
        Err(HostMessageError::EventAckTimeout)
    );
    assert!(pending.waiting.is_empty());
    pending.begin(id(2)).expect("event");
    assert_eq!(pending.drain(), vec![id(2)]);
    assert!(pending.waiting.is_empty());
    assert_eq!(
        finish_event(&mut pending, id(2), AckWait::Failed(PendingAckError::Disconnected)),
        Err(HostMessageError::EventAckClosed)
    );
    assert_eq!(
        finish_event(&mut pending, id(2), AckWait::Failed(PendingAckError::Protocol)),
        Err(HostMessageError::EventAckProtocol)
    );
    assert_eq!(
        finish_event(&mut pending, id(2), AckWait::SendFailed),
        Err(HostMessageError::AdapterUnavailable)
    );
}

#[test]
fn unknown_and_duplicate_event_ack_are_ignored_without_stopping_the_router() {
    let mut pending = PendingAcks::new();
    assert_eq!(pending.route(event_ack(id(9))), Route::Ignore);
    pending.begin(id(1)).expect("event");
    assert_eq!(pending.begin(id(1)), Err(HostMessageError::DuplicateEventRequest));
    assert!(matches!(pending.route(event_ack(id(1))), Route::Deliver { result: Ok(_), .. }));
    assert_eq!(pending.route(event_ack(id(1))), Route::Ignore);
    assert!(pending.waiting.is_empty());
}

#[test]
fn acknowledgements_of_actions_and_other_versions_are_refused() {
    let mut pending = PendingAcks::new();
    pending.begin(id(1)).expect("event");
    let mut foreign = event_ack(id(1));
    foreign.protocol_version.major = 2;
    assert_eq!(pending.route(foreign), Route::Close);
    let mut wrong = event_ack(id(1));
    wrong.action_execution_id = id(3);
    assert!(matches!(
        pending.route(wrong),
        Route::Deliver { result: Err(PendingAckError::Protocol), .. }
    ));
    let status = AdapterRequestEnvelope {
        protocol_version: current_protocol_version(),
        request_id: id(4),
        action_execution_id: id(5),
        body: AdapterRequestBody::Status(AdapterStatusRequest {}),
    };
    assert_eq!(
        pending.route(status),
        Route::Status { request_id: id(4), action_execution_id: id(5) }
    );
}

#[test]
fn app_ids_do_not_accept_paths() {
    assert!("../x".contains('/'));
    assert!(validate_app_id("../x").is_err());
    assert!("safe.app"
        .bytes()
        .all(|byte| byte.is_ascii_alphanumeric() || byte == b'.' || byte == b'_'));
    assert!(validate_app_id("safe.app").is_ok());
}

#[test]
fn desktop_directories_never_use_user_supplied_path() {
    let directories = application_directories(
        Some("/home/a/data"),
        Some("/home/a"),
        &vec!["/opt/share".to_owned(), "/srv/share/".to_owned()],
    );
    assert!(directories.iter().all(|path| path.ends_with("applications")));
    assert_eq!(
        directories,
        vec![
            "/home/a/data/applications",
            "/home/a/.local/share/applications",
            "/opt/share/applications",
            "/srv/share/applications",
            "/usr/local/share/applications",
            "/usr/share/applications",
        ]
    );
    assert_eq!(application_directories(None, None, &Vec::new()).len(), 2);
}

#[test]
fn desktop_entries_name_their_program() {
    assert_eq!(entry_id("code.desktop").as_deref(), Some("code"));
    assert_eq!(entry_id(".desktop"), None);
    assert_eq!(entry_id("code.txt"), None);
    let ids = vec!["b".to_owned(), "a".to_owned(), "b".to_owned()];
    assert_eq!(sort_and_dedup(ids), vec!["a", "b"]);
    let entry = "[Desktop Entry]\r\nName=Code\r\nExec=/usr/bin/code --new %F\r\nExec=other\n";
    assert_eq!(desktop_exec_basename(entry).as_deref(), Some("code"));
    assert_eq!(desktop_exec_basename("Exec=\nExec=..\nExec=app/.").as_deref(), Some("app"));
    assert_eq!(desktop_exec_basename("Exec=/").as_deref(), None);
    assert_eq!(desktop_exec_basename(" Exec=code"), None);
    assert_eq!(desktop_exec_basename("TryExec=code\nName=x"), None);
}

#[test]
fn processes_are_matched_by_user_and_name() {
    assert!(is_process("1234") && !is_process("12a4") && !is_process("self"));
    assert!(is_running_program(Some(1000), 1000, Some("code"), "code"));
    assert!(is_running_program(None, 1000, Some("code"), "code"));
    assert!(!is_running_program(Some(0), 1000, Some("code"), "code"));
    assert!(!is_running_program(Some(1000), 1000, Some("vim"), "code"));
    assert!(!is_running_program(Some(1000), 1000, None, "code"));
}

#[test]
fn linux_actions_are_planned() {
    let ready = AppFacts {
        entry_found: true,
        program_known: true,
        running: false,
        launcher_available: true,
    };
    assert_eq!(plan_app("code", ready), LinuxDecision::Run);
    assert_eq!(plan_app("code", AppFacts { running: true, ..ready }), LinuxDecision::Skip);
    assert_eq!(
        plan_app("a/b", ready),
        LinuxDecision::Fail("invalid desktop entry id")
    );
    assert_eq!(
        plan_app("code", AppFacts { entry_found: false, ..ready }),
        LinuxDecision::Fail("desktop entry not found")
    );
    assert_eq!(
        plan_app("code", AppFacts { program_known: false, ..ready }),
        LinuxDecision::Fail("desktop entry has no fixed executable")
    );
    assert_eq!(
        plan_app("code", AppFacts { launcher_available: false, ..ready }),
        LinuxDecision::Fail("gtk-launch is unavailable")
    );

    let facts = PathFacts {
        unchanged: true,
        readable: true,
        is_file: false,
        is_directory: true,
        opener_available: true,
    };
    let resolved = ResolvedResource {
        resource_id: id(1),
        kind: ResourceKind::Directory,
        canonical_locator: "/tmp/x".to_owned(),
    };
    assert_eq!(plan_path(id(1), &Some(resolved.clone()), facts), LinuxDecision::Run);
    assert_eq!(
        plan_path(id(1), &None, facts),
        LinuxDecision::Fail("resolved resource is required")
    );
    assert_eq!(
        plan_path(id(2), &Some(resolved.clone()), facts),
        LinuxDecision::Fail("resource identity mismatch")
    );
    assert_eq!(
        plan_path(id(1), &Some(resolved.clone()), PathFacts { unchanged: false, ..facts }),
        LinuxDecision::Fail("resource changed")
    );
    assert_eq!(
        plan_path(id(1), &Some(resolved.clone()), PathFacts { readable: false, ..facts }),
        LinuxDecision::Fail("resource unavailable")
    );
    assert_eq!(
        plan_path(id(1), &Some(resolved.clone()), PathFacts { is_directory: false, ..facts }),
        LinuxDecision::Fail("resource type changed")
    );
    assert_eq!(
        plan_path(id(1), &Some(resolved), PathFacts { opener_available: false, ..facts }),
        LinuxDecision::Fail("xdg-open is unavailable")
    );
    assert_eq!(
        plan_notification(false),
        LinuxDecision::Fail("notify-send is unavailable")
    );
    let sent = tool_result(Tool::NotifySend, true);
    assert_eq!(sent.result_code, "sent");
    let failed = tool_result(Tool::XdgOpen, false);
    assert_eq!(failed.status, AdapterActionStatus::Failed);
    assert_eq!(failed.redacted_message, "path open failed");
}

#[test]
fn the_linux_adapter_introduces_itself() {
    let status = linux_status(
        Tools { gtk_launch: true, xdg_open: false, notify_send: true },
        vec!["code".to_owned()],
    );
    assert_eq!(status.tools[1].name, "xdg-open");
    assert!(!status.tools[1].available);
    let hello = linux_hello(id(3), "0.1.0", status);
    assert_eq!(AdapterManager::validate_hello(&hello), Ok(()));
}

#[test]
fn derives_canonical_xdg_paths() {
    let paths = FubunPaths::from_xdg_roots("/run/user/1000", "/home/test/.local/share")
        .expect("absolute paths");
    assert_eq!(paths.socket_path, "/run/user/1000/fubun/core.sock");
    assert_eq!(paths.database_path, "/home/test/.local/share/fubun/fubun.db");
}

#[test]
fn base_directories_come_from_the_environment() {
    let paths = FubunPaths::discover(Some("/run"), None, Some("/home/test")).expect("paths");
    assert_eq!(paths.data_directory, "/home/test/.local/share/fubun");
    assert_eq!(paths.runtime_directory, "/run/fubun");
    assert_eq!(
        FubunPaths::discover(None, Some("/data"), None),
        Err(PathError::MissingRuntimeDirectory)
    );
    assert_eq!(FubunPaths::discover(Some("/run"), None, None), Err(PathError::MissingDataHome));
    let relative = FubunPaths::from_xdg_roots("run", "/data").expect_err("relative");
    assert_eq!(relative.message(), "XDG_RUNTIME_DIR must be an absolute path: run");
    assert_eq!(
        FubunPaths::from_xdg_roots("/run", "data"),
        Err(PathError::NotAbsolute { name: "XDG_DATA_HOME", path: "data".to_owned() })
    );
    assert_eq!(join("/run/", "fubun"), "/run/fubun");
}

#[test]
fn addresses_have_one_canonical_form() {
    assert_eq!(
        canonicalize("https://Example.COM:443/research?id=1#section").expect("url"),
        "https://example.com/research"
    );
    assert_eq!(canonicalize("HTTP://a.b").expect("url"), "http://a.b/");
    assert_eq!(canonicalize("http://a.b:80?q").expect("url"), "http://a.b/");
    assert_eq!(canonicalize("https://a.b:8443/x/").expect("url"), "https://a.b:8443/x/");
    assert_eq!(canonicalize("https://a.b:/x").expect("url"), "https://a.b/x");
    for url in ["https://Example.COM:443/research?id=1#section", "http://a:081/%20?x#y"] {
        let once = canonicalize(url).expect("url");
        assert_eq!(canonicalize(&once).expect("url"), once);
    }
    assert_eq!(origin_pattern("https://a.b:8443/x?y").expect("url"), "https://a.b:8443/*");
    assert_eq!(canonicalize("ftp://a.b/"), Err(UrlError::UnsupportedScheme));
    assert_eq!(canonicalize("https://user:pw@a.b/").expect("url"), "https://a.b/");
    assert_eq!(canonicalize("https://me@host:1@a.b:81/@x").expect("url"), "https://a.b:81/@x");
    assert_eq!(canonicalize("https://me@/"), Err(UrlError::InvalidHost));
    assert_eq!(canonicalize("https:///x"), Err(UrlError::InvalidHost));
    assert_eq!(canonicalize("https://a b/"), Err(UrlError::InvalidHost));
    assert_eq!(canonicalize("https://a.b:65536/"), Err(UrlError::InvalidPort));
    assert_eq!(canonicalize("https://a.b/x\ny"), Err(UrlError::InvalidCharacter));
    assert_eq!(canonicalize("https://a.b/x y").expect("url"), "https://a.b/x%20y");
    assert_eq!(
        canonicalize("https://a.b/\u{e9}/\u{6f22}?q").expect("url"),
        "https://a.b/%C3%A9/%E6%BC%A2"
    );
    assert_eq!(canonicalize("https://a.b/%e9{}").expect("url"), "https://a.b/%e9%7B%7D");
    assert_eq!(canonicalize("https://\u{e9}.b/"), Err(UrlError::InvalidHost));
    assert_eq!(UrlError::InvalidHost.message(), "URL host is invalid");
}
