use std::time::Duration;

use base64::{Engine as _, engine::general_purpose::URL_SAFE_NO_PAD};
use rcodex::api::{EnvironmentList, RemoteEnvironment, parse_retry_after};
use rcodex::oauth::{StepUpClaims, StepUpIdentity, step_up_token_payload, validate_step_up_claims};
use serde_json::Value;

fn jwt(payload: &str) -> String {
    let payload: Value = serde_json::from_str(payload).unwrap();
    format!(
        "{}.{}.signature",
        URL_SAFE_NO_PAD.encode(br#"{"alg":"RS256"}"#),
        URL_SAFE_NO_PAD.encode(serde_json::to_vec(&payload).unwrap())
    )
}

fn optional_string(value: &Value, name: &str) -> Option<String> {
    value.get(name).and_then(Value::as_str).map(str::to_owned)
}

fn step_up_claims(bytes: &[u8]) -> StepUpClaims {
    let value: Value = serde_json::from_slice(bytes).unwrap();
    let auth = &value["https://api.openai.com/auth"];
    StepUpClaims {
        iat: value["iat"].as_i64().unwrap(),
        pwd_auth_time: value["pwd_auth_time"].as_i64().unwrap(),
        scope: optional_string(&value, "scope"),
        scp: value
            .get("scp")
            .and_then(Value::as_array)
            .map(|items| items.iter().map(|item| item.as_str().unwrap().to_owned()).collect())
            .unwrap_or_default(),
        auth: StepUpIdentity {
            account_user_id: optional_string(auth, "account_user_id"),
            chatgpt_account_user_id: optional_string(auth, "chatgpt_account_user_id"),
        },
    }
}

fn validate_step_up_token(token: &str, expected: &str, now: i64) -> Result<(), rcodex::error::Error> {
    let payload = step_up_token_payload(token)?;
    validate_step_up_claims(&step_up_claims(&payload), expected, now)
}

fn remote_environment(value: &Value) -> RemoteEnvironment {
    RemoteEnvironment {
        app_server_version: optional_string(value, "app_server_version"),
        arch: optional_string(value, "arch"),
        busy: value["busy"].as_bool().unwrap(),
        client_type: optional_string(value, "client_type"),
        display_name: optional_string(value, "display_name"),
        env_id: value["env_id"].as_str().unwrap().to_owned(),
        host_name: optional_string(value, "host_name"),
        installation_id: optional_string(value, "installation_id"),
        kind: optional_string(value, "kind"),
        last_seen_at: optional_string(value, "last_seen_at"),
        name: optional_string(value, "name"),
        online: value["online"].as_bool().unwrap(),
        os: optional_string(value, "os"),
    }
}

#[test]
fn validates_fresh_account_bound_step_up_token() {
    let token = jwt(
        r#"{
            "iat": 1000,
            "pwd_auth_time": 1050000,
            "scope": "codex.remote_control.enroll",
            "https://api.openai.com/auth": {"chatgpt_account_user_id": "account-user"}
        }"#,
    );

    validate_step_up_token(&token, "account-user", 1_100).unwrap();
    assert!(validate_step_up_token(&token, "different-user", 1_100).is_err());
    assert!(validate_step_up_token(&token, "account-user", 1_400).is_err());
}

#[test]
fn parses_environment_list_and_uses_desktop_display_fallbacks() {
    let value: Value = serde_json::from_str(
        r#"{
            "items": [{
                "env_id": "env-id",
                "display_name": "example-codex-host",
                "host_name": "example-host",
                "name": null,
                "kind": "host",
                "client_type": "CODEX_CLI",
                "online": true,
                "busy": false,
                "os": "linux",
                "arch": "x86_64",
                "app_server_version": "0.152.0",
                "installation_id": "installation-id",
                "last_seen_at": "2026-08-31T12:00:00Z"
            }],
            "cursor": null
        }"#,
    )
    .unwrap();
    let list = EnvironmentList {
        cursor: optional_string(&value, "cursor"),
        items: value["items"].as_array().unwrap().iter().map(remote_environment).collect(),
    };

    let environment = &list.items[0];
    assert_eq!(environment.display_name(), "example-codex-host");
    assert_eq!(environment.host_name(), "example-host");
    assert!(environment.online);
}

#[test]
fn retry_after_accepts_delta_seconds_and_rejects_unbounded_waits() {
    assert_eq!(parse_retry_after("2"), Some(Duration::from_secs(2)));
    assert_eq!(parse_retry_after("31"), Some(Duration::from_secs(30)));
    assert_eq!(parse_retry_after("not-a-delay"), None);
}
