use base64::{Engine as _, engine::general_purpose::STANDARD};
use rcodex::json::{Json, JsonNumber};
use rcodex::reassembly::{Observed, ServerMessageReassembler};
use rcodex::transport::{
    RelayTransport, ServerStep, check_device_key_challenge, device_key_proof_message,
    segment_client_message,
};
use serde_json::Value;

fn to_json(value: &Value) -> Json {
    match value {
        Value::Null => Json::Null,
        Value::Bool(b) => Json::Bool(*b),
        Value::Number(n) => {
            if let Some(u) = n.as_u64() {
                Json::Number(JsonNumber::PosInt(u))
            } else if let Some(i) = n.as_i64() {
                Json::Number(JsonNumber::NegInt(i))
            } else {
                Json::Number(JsonNumber::Decimal(n.to_string()))
            }
        }
        Value::String(s) => Json::String(s.clone()),
        Value::Array(items) => Json::Array(items.iter().map(to_json).collect()),
        Value::Object(map) => Json::Object(map.iter().map(|(k, v)| (k.clone(), to_json(v))).collect()),
    }
}

fn to_value(json: &Json) -> Value {
    match json {
        Json::Null => Value::Null,
        Json::Bool(b) => Value::Bool(*b),
        Json::Number(JsonNumber::PosInt(u)) => Value::from(*u),
        Json::Number(JsonNumber::NegInt(i)) => Value::from(*i),
        Json::Number(JsonNumber::Decimal(t)) => serde_json::from_str(t).unwrap(),
        Json::String(s) => Value::String(s.clone()),
        Json::Array(items) => Value::Array(items.iter().map(to_value).collect()),
        Json::Object(entries) => {
            Value::Object(entries.iter().map(|(k, v)| (k.clone(), to_value(v))).collect())
        }
    }
}

fn parse(text: &str) -> Json {
    to_json(&serde_json::from_str::<Value>(text).unwrap())
}

fn server_message(sequence: u64, stream: &str, message: &str) -> Json {
    let mut value: Value = serde_json::from_str(
        r#"{"type": "server_message", "client_id": "client-id", "env_id": "env-id"}"#,
    )
    .unwrap();
    value["seq_id"] = Value::from(sequence);
    value["stream_id"] = Value::String(stream.into());
    value["message"] = serde_json::from_str(message).unwrap();
    to_json(&value)
}

fn delivered(step: ServerStep) -> Option<Value> {
    match step {
        ServerStep::Deliver(message) => Some(to_value(&message)),
        ServerStep::Ignored => None,
        ServerStep::NeedsMessage(_, _) => panic!("no reassembly expected"),
    }
}

fn stream() -> RelayTransport {
    RelayTransport::with_stream_id("client-id", "env-id", "stream-1".to_owned())
}

#[test]
fn outgoing_messages_carry_increasing_sequence_numbers_and_keep_request_ids() {
    let mut transport = stream();
    let first = transport.outgoing_app_segments(parse(r#"{"id": 7, "method": "thread/start"}"#)).unwrap();
    let second = transport.outgoing_app_segments(parse(r#"{"method": "notify"}"#)).unwrap();

    assert_eq!(first.len(), 1);
    let first = to_value(&first[0]);
    assert_eq!(first["type"], "client_message");
    assert_eq!(first["seq_id"], 1);
    assert_eq!(first["stream_id"], "stream-1");
    assert_eq!(first["skip_history"], false);
    assert_eq!(to_value(&second[0])["seq_id"], 2);
    assert_eq!(transport.next_client_sequence(), 3);
    assert_eq!(transport.pending_request_count(), 1);
}

#[test]
fn initialize_starts_a_new_stream() {
    let mut transport = stream();
    transport.outgoing_app_segments(parse(r#"{"id": 1, "method": "thread/start"}"#)).unwrap();
    transport.outgoing_app_segments(parse(r#"{"id": 2, "method": "thread/start"}"#)).unwrap();

    let segments = transport.outgoing_app_segments(parse(r#"{"id": 3, "method": "initialize"}"#)).unwrap();

    let envelope = to_value(&segments[0]);
    assert_eq!(envelope["seq_id"], 1);
    assert_ne!(transport.stream_id(), "stream-1");
    assert_eq!(envelope["stream_id"], transport.stream_id());
    assert_eq!(transport.pending_request_count(), 1);
    assert_eq!(transport.next_client_sequence(), 2);
    assert_eq!(transport.seen_server_sequence(), None);
}

#[test]
fn server_messages_are_delivered_in_order_and_settle_pending_requests() {
    let mut transport = stream();
    transport.outgoing_app_segments(parse(r#"{"id": 7, "method": "thread/start"}"#)).unwrap();

    let answer = transport
        .observe_server_envelope(&server_message(1, "stream-1", r#"{"id": 7, "result": {}}"#))
        .unwrap();
    assert_eq!(delivered(answer).unwrap()["id"], 7);
    assert_eq!(transport.pending_request_count(), 0);
    assert_eq!(transport.seen_server_sequence(), Some(1));

    let replay = transport
        .observe_server_envelope(&server_message(1, "stream-1", r#"{"id": 7, "result": {}}"#))
        .unwrap();
    assert!(delivered(replay).is_none());

    let gap = transport.observe_server_envelope(&server_message(3, "stream-1", r#"{"method": "x"}"#));
    assert!(gap.err().unwrap().message().contains("sequence gap"));

    let next = transport
        .observe_server_envelope(&server_message(2, "stream-1", r#"{"method": "x"}"#))
        .unwrap();
    assert_eq!(delivered(next).unwrap()["method"], "x");
}

#[test]
fn an_error_without_id_answers_the_oldest_pending_request() {
    let mut transport = stream();
    transport.outgoing_app_segments(parse(r#"{"id": "a", "method": "one"}"#)).unwrap();
    transport.outgoing_app_segments(parse(r#"{"id": "b", "method": "two"}"#)).unwrap();

    let step = transport
        .observe_server_envelope(&server_message(1, "stream-1", r#"{"type": "error", "code": 5}"#))
        .unwrap();

    let expected: Value = serde_json::from_str(r#"{"id": "a", "error": {"code": 5}}"#).unwrap();
    assert_eq!(delivered(step).unwrap(), expected);
    assert_eq!(transport.pending_request_count(), 1);

    let mut idle = stream();
    let orphan = idle.observe_server_envelope(&server_message(1, "stream-1", r#"{"type": "error"}"#));
    assert!(orphan.err().unwrap().message().contains("no pending request"));
}

#[test]
fn other_kinds_and_old_streams_are_ignored_but_other_clients_are_refused() {
    let mut transport = stream();
    assert!(delivered(transport.observe_server_envelope(&parse(r#"{"type": "ack"}"#)).unwrap()).is_none());
    assert!(delivered(transport.observe_server_envelope(&parse(r#"{"type": "pong"}"#)).unwrap()).is_none());
    let stale = transport.observe_server_envelope(&server_message(1, "stream-0", r#"{"id": 1}"#)).unwrap();
    assert!(delivered(stale).is_none());
    assert_eq!(transport.seen_server_sequence(), None);

    let mut other = server_message(1, "stream-1", r#"{"id": 1}"#);
    if let Json::Object(entries) = &mut other {
        for entry in entries.iter_mut() {
            if entry.0 == "client_id" {
                entry.1 = Json::String("someone-else".into());
            }
        }
    }
    assert!(transport.observe_server_envelope(&other).is_err());
}

#[test]
fn a_segmented_server_message_is_delivered_after_its_text_is_parsed() {
    let mut transport = stream();
    let message = br#"{"method":"turn/completed","params":{}}"#;
    let halves = [&message[..10], &message[10..]];
    let mut pending = None;
    for (index, half) in halves.iter().enumerate() {
        let mut value: Value = serde_json::from_str(
            r#"{"type": "server_message_chunk", "client_id": "client-id", "env_id": "env-id", "stream_id": "stream-1", "seq_id": 1, "segment_count": 2}"#,
        )
        .unwrap();
        value["segment_id"] = Value::from(index);
        value["message_size_bytes"] = Value::from(message.len());
        value["message_chunk_base64"] = Value::String(STANDARD.encode(half));
        pending = Some(transport.observe_server_envelope(&to_json(&value)).unwrap());
    }
    let ServerStep::NeedsMessage(header, text) = pending.unwrap() else {
        panic!("the second half completes the message");
    };
    assert_eq!(text, message.to_vec());
    let parsed: Value = serde_json::from_slice(&text).unwrap();
    let delivered = transport.deliver_reassembled(header, to_json(&parsed)).unwrap().unwrap();
    assert_eq!(to_value(&delivered)["method"], "turn/completed");
    assert_eq!(transport.seen_server_sequence(), Some(1));
}

#[test]
fn the_closing_envelope_names_the_stream_and_next_sequence() {
    let mut transport = stream();
    transport.outgoing_app_segments(parse(r#"{"method": "x"}"#)).unwrap();
    let close = to_value(&transport.client_closed_envelope());
    let expected: Value = serde_json::from_str(
        r#"{"type": "client_closed", "client_id": "client-id", "seq_id": 2, "stream_id": "stream-1", "env_id": "env-id"}"#,
    )
    .unwrap();
    assert_eq!(close, expected);
}

#[test]
fn segments_of_a_large_message_join_back_to_its_text() {
    let mut value: Value = serde_json::from_str(
        r#"{"type": "client_message", "client_id": "c", "env_id": "e", "stream_id": "s", "seq_id": 3, "skip_history": false, "message": {"text": ""}}"#,
    )
    .unwrap();
    value["message"]["text"] = Value::String("y".repeat(250_000));
    let message_bytes = serde_json::to_vec(&value["message"]).unwrap();
    let segments: Vec<Value> = segment_client_message(&to_json(&value)).unwrap().iter().map(to_value).collect();

    let mut joined = Vec::new();
    for segment in &segments {
        assert!(segment.get("message").is_none());
        assert_eq!(segment["message_size_bytes"], message_bytes.len());
        joined.extend(STANDARD.decode(segment["message_chunk_base64"].as_str().unwrap()).unwrap());
    }
    assert_eq!(joined, message_bytes);
    assert_eq!(segments.len(), 3);
}

#[test]
fn small_envelopes_and_non_client_messages_are_not_segmented() {
    let small = parse(r#"{"type": "client_message", "message": {"id": 1}}"#);
    let whole = segment_client_message(&small).unwrap();
    assert_eq!(whole.len(), 1);
    assert_eq!(to_value(&whole[0]), to_value(&small));

    let mut value: Value = serde_json::from_str(r#"{"type": "other", "payload": ""}"#).unwrap();
    value["payload"] = Value::String("z".repeat(200_000));
    let error = segment_client_message(&to_json(&value)).err().unwrap();
    assert!(error.message().contains("only client_message envelopes"));
}

#[test]
fn reassembly_refuses_changed_repeats_and_frees_their_bytes() {
    let mut reassembler = ServerMessageReassembler::new();
    let chunk = |segment: u64, text: &[u8]| {
        let mut value: Value = serde_json::from_str(
            r#"{"type": "server_message_chunk", "client_id": "c", "env_id": "e", "stream_id": "s", "seq_id": 4, "segment_count": 2, "message_size_bytes": 4}"#,
        )
        .unwrap();
        value["segment_id"] = Value::from(segment);
        value["message_chunk_base64"] = Value::String(STANDARD.encode(text));
        to_json(&value)
    };
    assert!(reassembler.observe(&chunk(0, b"{}")).unwrap().is_none());
    assert_eq!(reassembler.buffered_bytes(), 2);
    assert!(reassembler.observe(&chunk(0, b"{}")).unwrap().is_none());
    assert_eq!(reassembler.buffered_bytes(), 2);
    let changed = reassembler.observe(&chunk(0, b"[]"));
    assert!(changed.err().unwrap().message().contains("changed when repeated"));
    assert_eq!(reassembler.buffered_bytes(), 0);
    assert_eq!(reassembler.incomplete_count(), 0);

    assert!(reassembler.observe(&chunk(1, b" }")).unwrap().is_none());
    let whole = reassembler.observe(&chunk(0, b"{ ")).unwrap().unwrap();
    let Observed::Reassembled(_, text) = whole else {
        panic!("both halves are in");
    };
    assert_eq!(text, b"{  }".to_vec());
    assert_eq!(reassembler.buffered_bytes(), 0);
}

#[test]
fn reassembled_text_must_be_a_json_object() {
    let mut reassembler = ServerMessageReassembler::new();
    for (segment, text) in [(0_u64, &b"[1"[..]), (1, &b"]"[..])] {
        let mut value: Value = serde_json::from_str(
            r#"{"type": "server_message_chunk", "client_id": "c", "env_id": "e", "stream_id": "s", "seq_id": 1, "segment_count": 2, "message_size_bytes": 3}"#,
        )
        .unwrap();
        value["segment_id"] = Value::from(segment);
        value["message_chunk_base64"] = Value::String(STANDARD.encode(text));
        let result = reassembler.observe(&to_json(&value));
        if segment == 1 {
            assert!(result.err().unwrap().message().contains("not an object"));
        }
    }
}

#[test]
fn the_connection_challenge_and_proof_follow_the_relay_schema() {
    assert!(check_device_key_challenge(&parse(r#"{"type": "device_key_challenge"}"#)).is_ok());
    assert!(check_device_key_challenge(&parse(r#"{"type": "hello"}"#)).is_err());

    let proof = to_value(&device_key_proof_message("key", b"sig", b"payload", "ecdsa_p256_sha256"));
    let expected: Value = serde_json::from_str(&format!(
        r#"{{"type": "device_key_proof", "keyId": "key", "signatureDerBase64": "{}", "signedPayloadBase64": "{}", "algorithm": "ecdsa_p256_sha256"}}"#,
        STANDARD.encode(b"sig"),
        STANDARD.encode(b"payload")
    ))
    .unwrap();
    assert_eq!(proof, expected);
}
