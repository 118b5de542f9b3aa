use base64::{Engine as _, engine::general_purpose::URL_SAFE_NO_PAD};
use rcodex::auth::{
    AccessTokenClaims, AccessTokenIdentity, AuthDocument, AuthTokens, CodexAuth, RefreshResponse,
    access_token_payload, auth_document_tokens, build_refresh_request, merge_refresh_response,
};
use rcodex::json::{Json, JsonNumber};
use serde_json::Value;

fn to_json(value: &Value) -> Json {
    match value {
        Value::Null => Json::Null,
        Value::Bool(b) => Json::Bool(*b),
        Value::Number(n) => {
            if let Some(u) = n.as_u64() {
                Json::Number(JsonNumber::PosInt(u))
            } else if let Some(i) = n.as_i64() {
                Json::Number(JsonNumber::NegInt(i))
            } else {
                Json::Number(JsonNumber::Decimal(n.to_string()))
            }
        }
        Value::String(s) => Json::String(s.clone()),
        Value::Array(items) => Json::Array(items.iter().map(to_json).collect()),
        Value::Object(map) => Json::Object(map.iter().map(|(k, v)| (k.clone(), to_json(v))).collect()),
    }
}

fn to_value(json: &Json) -> Value {
    match json {
        Json::Null => Value::Null,
        Json::Bool(b) => Value::Bool(*b),
        Json::Number(JsonNumber::PosInt(u)) => Value::from(*u),
        Json::Number(JsonNumber::NegInt(i)) => Value::from(*i),
        Json::Number(JsonNumber::Decimal(t)) => serde_json::from_str(t).unwrap(),
        Json::String(s) => Value::String(s.clone()),
        Json::Array(items) => Value::Array(items.iter().map(to_value).collect()),
        Json::Object(entries) => {
            Value::Object(entries.iter().map(|(k, v)| (k.clone(), to_value(v))).collect())
        }
    }
}

fn jwt(payload: &str) -> String {
    let payload: Value = serde_json::from_str(payload).unwrap();
    format!(
        "{}.{}.signature",
        URL_SAFE_NO_PAD.encode(br#"{"alg":"RS256"}"#),
        URL_SAFE_NO_PAD.encode(serde_json::to_vec(&payload).unwrap())
    )
}

fn optional_string(value: &Value, name: &str) -> Option<String> {
    value.get(name).and_then(Value::as_str).map(str::to_owned)
}

fn claims(bytes: &[u8]) -> AccessTokenClaims {
    let value: Value = serde_json::from_slice(bytes).unwrap();
    let auth = &value["https://api.openai.com/auth"];
    AccessTokenClaims {
        exp: value["exp"].as_i64().unwrap(),
        auth: AccessTokenIdentity {
            account_id: optional_string(auth, "account_id"),
            account_user_id: optional_string(auth, "account_user_id"),
            chatgpt_account_id: optional_string(auth, "chatgpt_account_id"),
            chatgpt_account_user_id: optional_string(auth, "chatgpt_account_user_id"),
            user_id: optional_string(auth, "user_id"),
        },
    }
}

fn auth_document() -> Value {
    let access_token = jwt(
        r#"{
            "exp": 2000000000,
            "https://api.openai.com/auth": {
                "chatgpt_account_id": "workspace-id",
                "chatgpt_account_user_id": "account-user-id",
                "user_id": "legacy-auth-user-id"
            }
        }"#,
    );
    let mut document: Value = serde_json::from_str(
        r#"{
            "OPENAI_API_KEY": null,
            "auth_mode": "chatgpt",
            "last_refresh": "2026-08-31T12:00:00Z",
            "unrelated_future_field": {"preserve": true},
            "tokens": {
                "access_token": "",
                "account_id": "workspace-id",
                "id_token": "old-id-token",
                "refresh_token": "old-refresh-token"
            }
        }"#,
    )
    .unwrap();
    document["tokens"]["access_token"] = Value::String(access_token);
    document
}

fn load_codex_auth(document: &Value) -> CodexAuth {
    let tokens = &document["tokens"];
    let document = AuthDocument {
        auth_mode: optional_string(document, "auth_mode"),
        tokens: Some(AuthTokens {
            access_token: tokens["access_token"].as_str().unwrap().to_owned(),
            account_id: optional_string(tokens, "account_id"),
            refresh_token: tokens["refresh_token"].as_str().unwrap().to_owned(),
        }),
    };
    let tokens = auth_document_tokens(&document).unwrap();
    let payload = access_token_payload(&tokens.access_token).unwrap();
    CodexAuth::from_claims(tokens, &claims(&payload)).unwrap()
}

#[test]
fn loads_chatgpt_auth_and_extracts_account_identity_without_exposing_tokens() {
    let auth = load_codex_auth(&auth_document());

    assert_eq!(auth.account_id(), "workspace-id");
    assert_eq!(auth.account_user_id(), "account-user-id");
    assert_eq!(auth.expires_at(), 2_000_000_000);
    assert!(auth.matches_relay_account_user_id("account-user-id"));
    assert!(auth.matches_relay_account_user_id("legacy-auth-user-id"));
    assert!(!auth.matches_relay_account_user_id("different-user-id"));
    assert!(!auth.describe().contains("old-refresh-token"));
}

#[test]
fn refresh_request_matches_the_codex_oauth_contract() {
    let auth = load_codex_auth(&auth_document());
    let expected: Value = serde_json::from_str(
        r#"{
            "client_id": "app_EMoamEEZ73f0CkXaXp7hrann",
            "grant_type": "refresh_token",
            "refresh_token": "old-refresh-token"
        }"#,
    )
    .unwrap();

    assert_eq!(to_value(&build_refresh_request(&auth)), expected);
}

#[test]
fn refresh_rotation_preserves_unknown_auth_fields() {
    let fresh_access = jwt(
        r#"{
            "exp": 2100000000,
            "https://api.openai.com/auth": {
                "chatgpt_account_id": "workspace-id",
                "chatgpt_account_user_id": "account-user-id"
            }
        }"#,
    );
    let claims_parse = access_token_payload(&fresh_access)
        .map(|payload| serde_json::from_slice::<Value>(&payload).is_ok())
        .unwrap_or(false);
    let updated = merge_refresh_response(
        to_json(&auth_document()),
        RefreshResponse {
            access_token: Some(fresh_access.clone()),
            id_token: Some("fresh-id-token".into()),
            refresh_token: Some("fresh-refresh-token".into()),
        },
        "2026-08-31T13:00:00Z",
        claims_parse,
    )
    .unwrap();
    let updated = to_value(&updated);

    assert_eq!(updated["unrelated_future_field"]["preserve"], true);
    assert_eq!(updated["tokens"]["access_token"], Value::String(fresh_access));
    assert_eq!(updated["tokens"]["id_token"], "fresh-id-token");
    assert_eq!(updated["tokens"]["refresh_token"], "fresh-refresh-token");
    assert_eq!(updated["last_refresh"], "2026-08-31T13:00:00Z");
}
