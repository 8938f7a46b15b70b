//! Envelopes, frames, the handshake and what clients make of answers.

use fubun::adapter::AdapterManager;
use fubun::clock::Timestamp;
use fubun::ids::Uuid;
use fubun::preview::Rejection;
use fubun::protocol::{
    current_protocol_version, default_event_limit, encode_frame, frame_length, read_frame,
    AdapterHello, AdapterResponseBody, AdapterResponseEnvelope, AdapterStatusSnapshot,
    ClientHello, ClientHelloAck, EmptyRequest, ErrorBody, FrameError, ProtocolVersion,
    RequestBody, RequestEnvelope, ResponseBody, ResponseEnvelope, ResponsePayload,
    MAX_MESSAGE_SIZE,
};
use fubun::resource::{ObservationScope, ObservationSource, ObservationStatus};
use fubun::server::{
    adapter_hello_accepted, adapter_message, client_hello, count_active_scopes, doctor_report,
    envelope, expect_client_ack, expect_status, gate_request, handshake, hello_ack,
    integration_report, read_response, refuse, respond, stale_socket, status_report,
    version_text, AdapterMessage, ClientError, CoreError, Handshake, SocketSpot,
};
use fubun::storage::operations::Counts;
use fubun::storage::StorageError;

fn id(value: u128) -> Uuid {
    Uuid::from_u128(value)
}

#[test]
fn encoder_rejects_oversized_payload() {
    let oversized = "x".repeat(MAX_MESSAGE_SIZE + 1);
    let error = encode_frame(oversized.as_bytes()).expect_err("payload must be rejected");
    assert!(matches!(error, FrameError::Oversized { .. }));
    assert_eq!(error.message(), "message length 262145 exceeds maximum 262144");
}

#[test]
fn frame_prefix_matches_payload_length() {
    for length in [0_usize, 1, 64, 255, 256, 65_536, MAX_MESSAGE_SIZE] {
        let payload = vec![7_u8; length];
        let frame = encode_frame(&payload).expect("payload fits");
        let declared = u32::from_le_bytes(frame[..4].try_into().expect("four bytes")) as usize;
        assert_eq!(declared, frame.len() - 4);
        assert_eq!(frame_length(&frame), Ok(length));
        let mut stream = frame.clone();
        stream.extend_from_slice(b"next");
        let (read, taken) = read_frame(&stream).expect("frame").expect("payload");
        assert_eq!(read, payload);
        assert_eq!(taken, frame.len());
    }
}

#[test]
fn malformed_and_oversized_messages_do_not_crash_daemon() {
    let oversized_length = u32::try_from(MAX_MESSAGE_SIZE + 1).expect("fits u32");
    assert_eq!(
        frame_length(&oversized_length.to_le_bytes()),
        Err(FrameError::Oversized {
            actual: MAX_MESSAGE_SIZE + 1,
            maximum: MAX_MESSAGE_SIZE,
        })
    );
    assert_eq!(frame_length(&[1, 0]), Err(FrameError::Truncated));
    let mut partial = 2_u32.to_le_bytes().to_vec();
    partial.push(b'{');
    assert_eq!(read_frame(&partial), Err(FrameError::Truncated));
    let mut malformed = 1_u32.to_le_bytes().to_vec();
    malformed.push(b'{');
    let (payload, _) = read_frame(&malformed).expect("frame").expect("payload");
    assert!(serde_json::from_slice::<serde_json::Value>(&payload).is_err());
    let mut oversized = oversized_length.to_le_bytes().to_vec();
    assert!(matches!(read_frame(&oversized), Err(FrameError::Oversized { .. })));
    oversized.push(b'{');
    assert!(matches!(read_frame(&oversized), Err(FrameError::Oversized { .. })));
}

#[test]
fn framed_values_read_back_one_after_the_other() {
    let first: serde_json::Value =
        serde_json::from_str("{\"type\":\"event.ack\",\"counter\":7}").expect("first value");
    let second = serde_json::Value::String("second \u{3042}".to_owned());
    let mut stream: Vec<u8> = Vec::new();
    for value in [&first, &second] {
        let payload = serde_json::to_vec(value).expect("value");
        stream.extend(encode_frame(&payload).expect("payload fits"));
    }
    let mut read = Vec::new();
    while let Some((payload, taken)) = read_frame(&stream).expect("frame") {
        read.push(serde_json::from_slice::<serde_json::Value>(&payload).expect("value"));
        stream.drain(..taken);
    }
    assert_eq!(read, vec![first, second]);
    assert!(stream.is_empty());
    assert_eq!(read_frame(&[]), Ok(None));
}

fn request(version: ProtocolVersion, body: RequestBody) -> RequestEnvelope {
    RequestEnvelope { protocol_version: version, request_id: id(1), body }
}

#[test]
fn protocol_major_mismatch_is_rejected() {
    let incompatible = ProtocolVersion { major: 2, minor: 0 };
    let hello = RequestBody::ClientHello(ClientHello {
        client_name: "future-client".to_owned(),
        client_version: "2.0.0".to_owned(),
        protocol_version: incompatible,
    });
    let Handshake::Reject(rejection) = handshake(&request(incompatible, hello.clone())) else {
        panic!("rejected");
    };
    assert_eq!(rejection.code, "protocol_major_mismatch");
    let response = refuse(id(1), rejection);
    assert_eq!(response.request_id, id(1));
    assert!(matches!(
        response.body,
        ResponseBody::Error(ref error) if error.code == "protocol_major_mismatch"
    ));
    assert_eq!(response.protocol_version, current_protocol_version());
    let Handshake::Reject(rejection) = handshake(&request(current_protocol_version(), hello))
    else {
        panic!("rejected");
    };
    assert_eq!(rejection.message, "client hello and daemon protocol major versions differ");
}

#[test]
fn a_hello_comes_first_and_only_first() {
    let current = current_protocol_version();
    let greeting = request(current, client_hello("cli", "0.1.0"));
    assert_eq!(handshake(&greeting), Handshake::Client);
    assert_eq!(
        gate_request(&greeting).map(|rejection| rejection.code),
        Some("already_initialized")
    );
    let adapter = request(
        current,
        RequestBody::AdapterHello(AdapterHello {
            adapter_id: "dev.fubun.linux".to_owned(),
            adapter_version: "1".to_owned(),
            instance_id: id(2),
            action_capabilities: Vec::new(),
            event_capabilities: Vec::new(),
            status: AdapterStatusSnapshot {
                tools: Vec::new(),
                desktop_entry_ids: Vec::new(),
                permitted_resource_ids: Vec::new(),
            },
        }),
    );
    assert_eq!(handshake(&adapter), Handshake::Adapter);
    let status = envelope(id(1), RequestBody::SystemStatus(EmptyRequest {}));
    assert_eq!(gate_request(&status), None);
    let Handshake::Reject(rejection) = handshake(&status) else {
        panic!("rejected");
    };
    assert_eq!(rejection.code, "handshake_required");
    let ack = hello_ack("0.1.0");
    assert_eq!((ack.server_name.as_str(), ack.server_version.as_str()), ("fubund", "0.1.0"));
}

#[test]
fn clients_check_whose_answer_it_is() {
    let status = ResponsePayload::Status(status_report(5));
    let good = ResponseEnvelope::ok(id(1), status);
    assert_eq!(
        expect_status(read_response(id(1), Some(good.clone())).expect("payload"))
            .expect("status")
            .schema_version,
        5
    );
    assert_eq!(read_response(id(2), Some(good)), Err(ClientError::RequestIdMismatch));
    assert_eq!(read_response(id(1), None), Err(ClientError::ConnectionClosed));
    let bad = ResponseEnvelope::error(id(1), "code", "message");
    let rejected = read_response(id(1), Some(bad)).expect_err("rejected");
    assert_eq!(rejected.message(), "daemon rejected request (code): message");
    let ack = ResponsePayload::ClientHelloAck(hello_ack("1"));
    assert_eq!(expect_client_ack(&ack), Ok(()));
    assert_eq!(
        expect_client_ack(&ResponsePayload::AdapterHelloAck(hello_ack("1"))),
        Err(ClientError::UnexpectedPayload)
    );
    assert_eq!(expect_status(ack), Err(ClientError::UnexpectedPayload));
    assert_eq!(
        ClientError::Frame(FrameError::Empty).message(),
        "IPC frame error: message is empty"
    );
}

#[test]
fn answers_carry_the_request_id() {
    let accepted = respond(
        id(4),
        Ok(ResponsePayload::AdapterHelloAck(ClientHelloAck {
            server_name: "fubund".to_owned(),
            server_version: "1".to_owned(),
            protocol_version: current_protocol_version(),
        })),
    );
    assert!(adapter_hello_accepted(id(4), &accepted));
    assert!(!adapter_hello_accepted(id(5), &accepted));
    let refused = respond(id(4), Err(ErrorBody::new("a", "b")));
    assert!(!adapter_hello_accepted(id(4), &refused));
    let rejection = Rejection { code: "a", message: "b" };
    assert_eq!(refuse(id(4), rejection), refused);
}

#[test]
fn adapter_messages_are_told_apart() {
    let status = AdapterResponseBody::Status(AdapterStatusSnapshot {
        tools: Vec::new(),
        desktop_entry_ids: Vec::new(),
        permitted_resource_ids: Vec::new(),
    });
    let mut message = AdapterResponseEnvelope {
        protocol_version: current_protocol_version(),
        request_id: id(1),
        action_execution_id: id(2),
        body: status,
    };
    assert_eq!(adapter_message(&message), AdapterMessage::Answer);
    message.protocol_version.major = 9;
    assert_eq!(adapter_message(&message), AdapterMessage::Incompatible);
}

#[test]
fn reports_say_what_is_there() {
    let now = Timestamp::unix_epoch();
    let scope = |source, status| ObservationScope {
        id: id(1),
        source,
        resource_id: id(2),
        status,
        created_at: now,
        updated_at: now,
    };
    let scopes = vec![
        scope(ObservationSource::BrowserChromium, ObservationStatus::Active),
        scope(ObservationSource::BrowserChromium, ObservationStatus::Paused),
        scope(ObservationSource::VscodeWorkspace, ObservationStatus::Active),
    ];
    assert_eq!(count_active_scopes(&scopes, ObservationSource::BrowserChromium), 1);
    let adapters = AdapterManager::new();
    let counts = Counts { running: 1, draft: 2, active: 3 };
    let report = doctor_report("/data/fubun.db".to_owned(), 5, counts, &adapters, &scopes);
    assert_eq!(report.action_registry_version, "phase2-fixed-v1");
    assert_eq!(report.ritual_schema_version, "dev.fubun.ritual/1");
    assert_eq!(
        (report.running_executions, report.draft_rituals, report.active_rituals),
        (1, 2, 3)
    );
    assert_eq!((report.active_browser_scopes, report.active_vscode_scopes), (1, 1));
    let report = integration_report("installed".to_owned(), 5, &adapters, &scopes);
    assert!(report.core_connected);
    assert_eq!(report.permitted_browser_resources, 0);
    assert_eq!(version_text(current_protocol_version()), "1.0");
    assert_eq!(default_event_limit(), 100);
}

#[test]
fn only_sockets_are_replaced() {
    assert_eq!(stale_socket(SocketSpot::Free, "/run/x"), Ok(false));
    assert_eq!(stale_socket(SocketSpot::Socket, "/run/x"), Ok(true));
    let error = stale_socket(SocketSpot::Occupied, "/run/x").expect_err("occupied");
    assert_eq!(error.message(), "socket path exists and is not a Unix socket: /run/x");
    assert_eq!(
        CoreError::Storage(StorageError::UnsupportedSchema(9)).message(),
        "storage error: unsupported database schema version 9"
    );
}
