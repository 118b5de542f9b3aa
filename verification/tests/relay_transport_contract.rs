use base64::{Engine as _, engine::general_purpose::STANDARD};
use rcodex::json::{Json, JsonNumber};
use rcodex::reassembly::{Observed, ServerMessageReassembler};
use rcodex::transport::{relay_websocket_url, segment_client_message, server_envelope_targets_active_stream};
use serde_json::Value;

fn to_json(value: &Value) -> Json {
    match value {
        Value::Null => Json::Null,
        Value::Bool(b) => Json::Bool(*b),
        Value::Number(n) => {
            if let Some(u) = n.as_u64() {
                Json::Number(JsonNumber::PosInt(u))
            } else if let Some(i) = n.as_i64() {
                Json::Number(JsonNumber::NegInt(i))
            } else {
                Json::Number(JsonNumber::Decimal(n.to_string()))
            }
        }
        Value::String(s) => Json::String(s.clone()),
        Value::Array(items) => Json::Array(items.iter().map(to_json).collect()),
        Value::Object(map) => Json::Object(map.iter().map(|(k, v)| (k.clone(), to_json(v))).collect()),
    }
}

fn to_value(json: &Json) -> Value {
    match json {
        Json::Null => Value::Null,
        Json::Bool(b) => Value::Bool(*b),
        Json::Number(JsonNumber::PosInt(u)) => Value::from(*u),
        Json::Number(JsonNumber::NegInt(i)) => Value::from(*i),
        Json::Number(JsonNumber::Decimal(t)) => serde_json::from_str(t).unwrap(),
        Json::String(s) => Value::String(s.clone()),
        Json::Array(items) => Value::Array(items.iter().map(to_value).collect()),
        Json::Object(entries) => {
            Value::Object(entries.iter().map(|(k, v)| (k.clone(), to_value(v))).collect())
        }
    }
}

fn parse(text: &str) -> Json {
    to_json(&serde_json::from_str::<Value>(text).unwrap())
}

fn chunk_envelope(sequence: u64, index: usize, count: usize, size: usize, chunk: &[u8]) -> Json {
    let mut value: Value = serde_json::from_str(
        r#"{"type": "server_message_chunk", "client_id": "client-id", "stream_id": "stream-id", "env_id": "env-id"}"#,
    )
    .unwrap();
    let object = value.as_object_mut().unwrap();
    object.insert("seq_id".into(), Value::from(sequence));
    object.insert("segment_id".into(), Value::from(index));
    object.insert("segment_count".into(), Value::from(count));
    object.insert("message_size_bytes".into(), Value::from(size));
    object.insert("message_chunk_base64".into(), Value::String(STANDARD.encode(chunk)));
    to_json(&value)
}

#[test]
fn relay_url_uses_websocket_scheme() {
    assert_eq!(
        relay_websocket_url().unwrap().as_str(),
        "wss://chatgpt.com/backend-api/codex/remote/control/client"
    );
}

#[test]
fn oversized_client_messages_are_split_without_changing_sequence_identity() {
    let mut value: Value = serde_json::from_str(
        r#"{
            "type": "client_message",
            "client_id": "client-id",
            "seq_id": 7,
            "stream_id": "stream-id",
            "env_id": "env-id",
            "skip_history": false,
            "message": {"method": "large", "params": {"text": ""}}
        }"#,
    )
    .unwrap();
    value["message"]["params"]["text"] = Value::String("x".repeat(180_000));
    let envelope = to_json(&value);

    let segments: Vec<Value> = segment_client_message(&envelope).unwrap().iter().map(to_value).collect();

    assert!(segments.len() > 1);
    for (index, segment) in segments.iter().enumerate() {
        assert_eq!(segment["type"], "client_message_chunk");
        assert_eq!(segment["seq_id"], 7);
        assert_eq!(segment["segment_id"], index);
        assert_eq!(segment["segment_count"], segments.len());
        assert!(serde_json::to_vec(segment).unwrap().len() <= 150 * 1024);
    }
}

#[test]
fn server_chunks_reassemble_to_the_original_message() {
    let message: Value = serde_json::from_str(r#"{"id": 1, "result": {"serverInfo": {"name": "codex"}}}"#).unwrap();
    let bytes = serde_json::to_vec(&message).unwrap();
    let midpoint = bytes.len() / 2;
    let chunks = [&bytes[..midpoint], &bytes[midpoint..]];
    let mut reassembler = ServerMessageReassembler::default();

    for (index, chunk) in chunks.iter().enumerate() {
        let mut value = to_value(&chunk_envelope(1, index, chunks.len(), bytes.len(), chunk));
        value["cursor"] = Value::String("cursor".into());
        let observed = reassembler.observe(&to_json(&value)).unwrap();
        if index == 0 {
            assert!(observed.is_none());
        } else {
            match observed.unwrap() {
                Observed::Reassembled(header, text) => {
                    let reassembled: Value = serde_json::from_slice(&text).unwrap();
                    assert_eq!(reassembled, message);
                    let header = to_value(&header);
                    assert_eq!(header["type"], "server_message");
                    assert_eq!(header["cursor"], "cursor");
                    assert_eq!(header["seq_id"], 1);
                }
                Observed::Envelope(_) => panic!("the second chunk completes the message"),
            }
        }
    }
}

#[test]
fn server_reassembly_rejects_messages_over_the_safe_limit() {
    let mut reassembler = ServerMessageReassembler::default();
    let result = reassembler.observe(&chunk_envelope(1, 0, 2, 64 * 1024 * 1024 + 1, b"{"));

    assert!(result.is_err());
}

#[test]
fn server_reassembly_caps_concurrent_incomplete_messages() {
    let mut reassembler = ServerMessageReassembler::default();

    for sequence in 1..=8 {
        assert!(reassembler.observe(&chunk_envelope(sequence, 0, 2, 2, b"{")).unwrap().is_none());
    }

    let ninth = reassembler.observe(&chunk_envelope(9, 0, 2, 2, b"{"));

    assert!(ninth.is_err());
}

#[test]
fn delayed_frames_from_an_old_stream_are_ignored_safely() {
    let stale = parse(r#"{"client_id": "client-id", "env_id": "env-id", "stream_id": "old-stream"}"#);
    assert!(!server_envelope_targets_active_stream(&stale, "client-id", "env-id", "active-stream").unwrap());

    let active = parse(r#"{"client_id": "client-id", "env_id": "env-id", "stream_id": "active-stream"}"#);
    assert!(server_envelope_targets_active_stream(&active, "client-id", "env-id", "active-stream").unwrap());

    let wrong_host = parse(r#"{"client_id": "client-id", "env_id": "other-env", "stream_id": "active-stream"}"#);
    assert!(server_envelope_targets_active_stream(&wrong_host, "client-id", "env-id", "active-stream").is_err());
}
