use std::time::Duration;

use base64::{Engine as _, engine::general_purpose::{STANDARD, URL_SAFE_NO_PAD}};
use rcodex::api::{
    ResponseAction, RetryPolicy, build_manual_pairing_body, environment_list_path,
    first_nonempty,
};
use rcodex::auth::{
    AccessTokenClaims, AccessTokenIdentity, AuthDocument, AuthTokens, CodexAuth, RefreshResponse,
    access_token_payload, auth_document_tokens, jwt_payload, merge_refresh_response,
    validate_secret,
};
use rcodex::compatibility::{help_has_option, parse_version_token};
use rcodex::controller::{check_enrollment_start, check_refresh_start, enrollment_record};
use rcodex::device_key::{
    DeviceKeyIdentity, application_label, create_os_protected_device_key, device_key_id,
    device_key_identity,
};
use rcodex::error::{Error, SecretKind};
use rcodex::json::{Json, JsonNumber};
use rcodex::oauth::{
    CallbackStep, StepUpClaims, StepUpIdentity, authorization_code_form, callback_reply,
    callback_result, classify_callback, http_response, pkce_challenge, pkce_pair, redirect_uri,
    validate_step_up_claims,
};
use rcodex::protocol::{EnrollmentChallenge, EnrollmentRecord, device_identity_hash};
use rcodex::relay::{
    EnrollmentStartResponse, RemoteControlSession, constant_time_equal, device_key_proof,
    validate_remote_session, validate_session_secret,
};
use rcodex::shim::{new_shim_auth_token, shim_request_authorized, shim_url};
use rcodex::state::is_owner_only;
use serde_json::Value;
use sha2::{Digest, Sha256};

fn to_json(value: &Value) -> Json {
    match value {
        Value::Null => Json::Null,
        Value::Bool(b) => Json::Bool(*b),
        Value::Number(n) => {
            if let Some(u) = n.as_u64() {
                Json::Number(JsonNumber::PosInt(u))
            } else if let Some(i) = n.as_i64() {
                Json::Number(JsonNumber::NegInt(i))
            } else {
                Json::Number(JsonNumber::Decimal(n.to_string()))
            }
        }
        Value::String(s) => Json::String(s.clone()),
        Value::Array(items) => Json::Array(items.iter().map(to_json).collect()),
        Value::Object(map) => Json::Object(map.iter().map(|(k, v)| (k.clone(), to_json(v))).collect()),
    }
}

fn to_value(json: &Json) -> Value {
    match json {
        Json::Null => Value::Null,
        Json::Bool(b) => Value::Bool(*b),
        Json::Number(JsonNumber::PosInt(u)) => Value::from(*u),
        Json::Number(JsonNumber::NegInt(i)) => Value::from(*i),
        Json::Number(JsonNumber::Decimal(t)) => serde_json::from_str(t).unwrap(),
        Json::String(s) => Value::String(s.clone()),
        Json::Array(items) => Value::Array(items.iter().map(to_value).collect()),
        Json::Object(entries) => {
            Value::Object(entries.iter().map(|(k, v)| (k.clone(), to_value(v))).collect())
        }
    }
}

fn record() -> EnrollmentRecord {
    EnrollmentRecord {
        account_user_id: "account-user".into(),
        algorithm: "ecdsa_p256_sha256".into(),
        client_id: "client-id".into(),
        key_id: "key-id".into(),
        protection_class: "os_protected_nonextractable".into(),
        public_key_spki_der_base64: "public-key".into(),
    }
}

fn session() -> RemoteControlSession {
    RemoteControlSession {
        account_user_id: "account-user".into(),
        client_id: "client-id".into(),
        expires_at: "2033-05-18T03:33:20Z".into(),
        remote_control_token: "token".into(),
        scopes: vec!["remote_control_controller_websocket".into()],
    }
}

fn challenge(device_identity_hash: Option<String>, expires: i64) -> EnrollmentChallenge {
    EnrollmentChallenge {
        account_user_id: "account-user".into(),
        audience: "remote_control_client_enrollment".into(),
        challenge_expires_at: expires,
        challenge_id: "challenge-id".into(),
        challenge_token: "challenge-token".into(),
        client_id: "client-id".into(),
        device_identity_hash,
        nonce: "AAAAAAAAAAAAAAAAAAAAAAAAAAAAAAAAAAAAAAAAAAA".into(),
        purpose: "remote_control_client_enrollment".into(),
        target_origin: "https://chatgpt.com".into(),
        target_path: "/backend-api/codex/remote/control/client/refresh/finish".into(),
    }
}

fn codex_auth(user_id: Option<&str>) -> CodexAuth {
    let tokens = AuthTokens {
        access_token: "a.b.c".into(),
        account_id: None,
        refresh_token: "refresh".into(),
    };
    let claims = AccessTokenClaims {
        exp: 1_000,
        auth: AccessTokenIdentity {
            account_id: Some("account".into()),
            account_user_id: None,
            chatgpt_account_id: None,
            chatgpt_account_user_id: Some("account-user".into()),
            user_id: user_id.map(str::to_owned),
        },
    };
    CodexAuth::from_claims(&tokens, &claims).unwrap()
}

#[test]
fn pairing_codes_are_read_the_same_in_any_case_spacing_and_dashes() {
    let messy = to_value(&build_manual_pairing_body("client-id", "ab-cd ef\tgh").unwrap());
    let clean = to_value(&build_manual_pairing_body("client-id", "ABCD-EFGH").unwrap());
    assert_eq!(messy, clean);
    assert_eq!(clean["manual_pairing_code"], "ABCD-EFGH");
    assert_eq!(build_manual_pairing_body(" ", "ABCD-EFGH").err().unwrap(), Error::EmptyClientId);
    assert_eq!(build_manual_pairing_body("c", "ABCDEFGHI").err().unwrap(), Error::InvalidPairingCode);
    assert_eq!(build_manual_pairing_body("c", "ÄBCDEFGH").err().unwrap(), Error::InvalidPairingCode);
}

#[test]
fn a_request_is_sent_at_most_five_times() {
    let mut policy = RetryPolicy::new();
    assert!(matches!(policy.on_response(401, None, false), ResponseAction::RefreshAuth));
    assert!(matches!(policy.on_response(401, None, false), ResponseAction::Fail(Error::RequestFailed(401))));

    let mut policy = RetryPolicy::new();
    let mut delays = Vec::new();
    for _ in 0..3 {
        match policy.on_response(503, None, false) {
            ResponseAction::Retry(delay) => delays.push(delay),
            _ => panic!("a server error is retried"),
        }
    }
    assert_eq!(
        delays,
        vec![Duration::from_millis(250), Duration::from_millis(500), Duration::from_millis(1000)]
    );
    assert!(matches!(policy.on_response(503, None, false), ResponseAction::Fail(Error::RequestFailed(503))));

    let mut policy = RetryPolicy::new();
    match policy.on_response(429, Some(" 90 "), false) {
        ResponseAction::Retry(delay) => assert_eq!(delay, Duration::from_secs(30)),
        _ => panic!("a throttled request is retried"),
    }
    assert!(matches!(policy.on_response(404, None, true), ResponseAction::Accept));
    assert!(matches!(policy.on_response(404, None, false), ResponseAction::Fail(Error::RequestFailed(404))));
    assert!(matches!(policy.on_response(204, None, false), ResponseAction::Accept));
    assert_eq!(Error::RequestFailed(404).message(), "remote-control request failed (404 Not Found)");
}

#[test]
fn environment_pages_are_requested_with_encoded_ids_and_cursor() {
    assert_eq!(environment_list_path(None, None), "/codex/remote/control/environments?limit=100");
    assert_eq!(
        environment_list_path(Some("a b/c"), Some("next page")),
        "/codex/remote/control/clients/a+b%2Fc/environments?limit=100&cursor=next+page"
    );
}

#[test]
fn first_nonempty_skips_blank_values() {
    assert_eq!(first_nonempty([None, Some("  "), Some("host"), Some("id")]), "host");
    assert_eq!(first_nonempty([None, Some("\t")]), "");
}

#[test]
fn secrets_must_be_nonempty_without_whitespace() {
    assert!(validate_secret(SecretKind::AccessToken, "abc").is_ok());
    assert_eq!(validate_secret(SecretKind::RefreshToken, "").err().unwrap(), Error::MalformedSecret(SecretKind::RefreshToken));
    assert!(validate_secret(SecretKind::AccessToken, "a b").is_err());
    assert!(validate_secret(SecretKind::AccessToken, " ab").is_err());
    assert!(validate_secret(SecretKind::AccessToken, "a\u{2003}b").is_err());
    assert_eq!(
        Error::MalformedSecret(SecretKind::RotatedRefreshToken).message(),
        "Codex rotated refresh token is empty or malformed"
    );
    assert_eq!(validate_session_secret("tok en").err().unwrap(), Error::MalformedSessionToken);
}

#[test]
fn jwt_payloads_are_the_second_part() {
    assert_eq!(jwt_payload("a.b.c").as_deref(), Some("b"));
    assert_eq!(jwt_payload("a.b").as_deref(), Some("b"));
    assert_eq!(jwt_payload("a..c"), None);
    assert_eq!(jwt_payload("abc"), None);
    assert_eq!(access_token_payload("abc").err().unwrap(), Error::AccessTokenNotJwt);
    assert_eq!(access_token_payload("a.!!.c").err().unwrap(), Error::AccessTokenNotBase64);
    let encoded = URL_SAFE_NO_PAD.encode(b"{\"exp\":1}");
    assert_eq!(access_token_payload(&format!("h.{encoded}.s")).unwrap(), b"{\"exp\":1}".to_vec());
}

#[test]
fn the_authentication_document_must_be_chatgpt_with_tokens() {
    let tokens = || AuthTokens { access_token: "a.b.c".into(), account_id: None, refresh_token: "r".into() };
    let api_key = AuthDocument { auth_mode: Some("apikey".into()), tokens: Some(tokens()) };
    assert_eq!(auth_document_tokens(&api_key).err().unwrap(), Error::NotChatGptAuth);
    let empty = AuthDocument { auth_mode: Some("chatgpt".into()), tokens: None };
    assert_eq!(auth_document_tokens(&empty).err().unwrap(), Error::AuthHasNoTokens);
    let bad = AuthDocument {
        auth_mode: Some("chatgpt".into()),
        tokens: Some(AuthTokens { access_token: "a.b.c".into(), account_id: None, refresh_token: " ".into() }),
    };
    assert_eq!(auth_document_tokens(&bad).err().unwrap(), Error::MalformedSecret(SecretKind::RefreshToken));
}

#[test]
fn the_account_of_the_claims_must_match_the_tokens() {
    let tokens = AuthTokens { access_token: "a.b.c".into(), account_id: Some("other".into()), refresh_token: "r".into() };
    let claims = AccessTokenClaims {
        exp: 5,
        auth: AccessTokenIdentity {
            account_id: Some("account".into()),
            account_user_id: Some("user".into()),
            chatgpt_account_id: None,
            chatgpt_account_user_id: None,
            user_id: None,
        },
    };
    assert_eq!(CodexAuth::from_claims(&tokens, &claims).err().unwrap(), Error::AccountIdMismatch);
    let anonymous = AccessTokenClaims {
        exp: 5,
        auth: AccessTokenIdentity { account_id: None, account_user_id: None, chatgpt_account_id: None, chatgpt_account_user_id: None, user_id: None },
    };
    assert_eq!(CodexAuth::from_claims(&tokens, &anonymous).err().unwrap(), Error::NoAccountId);
}

#[test]
fn tokens_are_refreshed_five_minutes_before_expiry() {
    let auth = codex_auth(None);
    assert!(!auth.needs_refresh(699));
    assert!(auth.needs_refresh(700));
    assert!(auth.needs_refresh(i64::MAX));
    assert_eq!(auth.describe(), "ChatGPT auth for account account (expires 1000)");
}

#[test]
fn refresh_merges_refuse_broken_documents_and_tokens() {
    let response = RefreshResponse { access_token: None, id_token: Some("id".into()), refresh_token: None };
    let array = to_json(&serde_json::from_str::<Value>("[]").unwrap());
    assert_eq!(merge_refresh_response(array, response.clone(), "now", true).err().unwrap(), Error::AuthDocumentNotObject);
    let untokened = to_json(&serde_json::from_str::<Value>(r#"{"tokens": 1}"#).unwrap());
    assert_eq!(merge_refresh_response(untokened, response.clone(), "now", true).err().unwrap(), Error::AuthDocumentHasNoTokens);

    let document = || to_json(&serde_json::from_str::<Value>(r#"{"tokens": {"refresh_token": "old", "extra": 1}, "kept": true}"#).unwrap());
    let merged = to_value(&merge_refresh_response(document(), response.clone(), "now", true).unwrap());
    assert_eq!(merged["tokens"]["id_token"], "id");
    assert_eq!(merged["tokens"]["refresh_token"], "old");
    assert_eq!(merged["tokens"]["extra"], 1);
    assert_eq!(merged["kept"], true);
    assert_eq!(merged["last_refresh"], "now");

    let spaced = RefreshResponse { access_token: None, id_token: Some("i d".into()), refresh_token: None };
    assert_eq!(merge_refresh_response(document(), spaced, "now", true).err().unwrap(), Error::MalformedSecret(SecretKind::RefreshedIdToken));
    let unreadable = RefreshResponse { access_token: Some("a.e30.c".into()), id_token: None, refresh_token: None };
    assert_eq!(merge_refresh_response(document(), unreadable, "now", false).err().unwrap(), Error::AccessTokenClaimsInvalid);
}

#[test]
fn step_up_claims_are_checked_for_account_freshness_and_scope() {
    let claims = |iat: i64, pwd: i64, scope: Option<&str>, scp: Vec<&str>| StepUpClaims {
        iat,
        pwd_auth_time: pwd,
        scope: scope.map(str::to_owned),
        scp: scp.into_iter().map(str::to_owned).collect(),
        auth: StepUpIdentity { account_user_id: Some("user".into()), chatgpt_account_user_id: None },
    };
    let scope = "codex.remote_control.enroll";
    assert!(validate_step_up_claims(&claims(1000, 1_000_000, Some(scope), vec![]), "user", 1100).is_ok());
    assert!(validate_step_up_claims(&claims(1000, 1_000_000, None, vec![scope, scope]), "user", 1100).is_ok());
    assert_eq!(validate_step_up_claims(&claims(1000, 1_000_000, Some(scope), vec![]), "other", 1100).err().unwrap(), Error::StepUpWrongAccount);
    assert_eq!(validate_step_up_claims(&claims(1161, 1_000_000, Some(scope), vec![]), "user", 1100).err().unwrap(), Error::StepUpNotFresh);
    assert_eq!(validate_step_up_claims(&claims(1000, 799_999, Some(scope), vec![]), "user", 1100).err().unwrap(), Error::StepUpNoFreshPassword);
    assert_eq!(validate_step_up_claims(&claims(1000, 1_000_000, Some("a b"), vec![]), "user", 1100).err().unwrap(), Error::StepUpUnexpectedScopes);
    assert_eq!(validate_step_up_claims(&claims(1000, 1_000_000, None, vec![]), "user", 1100).err().unwrap(), Error::StepUpUnexpectedScopes);
    let anonymous = StepUpClaims {
        iat: 1000,
        pwd_auth_time: 1_000_000,
        scope: Some(scope.into()),
        scp: vec![],
        auth: StepUpIdentity { account_user_id: None, chatgpt_account_user_id: None },
    };
    assert_eq!(validate_step_up_claims(&anonymous, "user", 1100).err().unwrap(), Error::StepUpNoAccountUserId);
}

#[test]
fn pkce_challenges_are_the_url_safe_sha256_of_the_verifier() {
    assert_eq!(pkce_challenge("verifier"), URL_SAFE_NO_PAD.encode(Sha256::digest(b"verifier")));
    let (verifier, challenge) = pkce_pair();
    assert_eq!(verifier.len(), 43);
    assert_eq!(challenge, URL_SAFE_NO_PAD.encode(Sha256::digest(verifier.as_bytes())));
    assert_eq!(redirect_uri(1457), "http://localhost:1457/auth/callback");
    assert_eq!(
        authorization_code_form("c d", "http://localhost:1455/auth/callback", "v"),
        "grant_type=authorization_code&code=c+d&redirect_uri=http%3A%2F%2Flocalhost%3A1455%2Fauth%2Fcallback&client_id=app_EMoamEEZ73f0CkXaXp7hrann&code_verifier=v"
    );
}

#[test]
fn callback_requests_are_classified_and_answered() {
    let request = |target: &str| format!("GET {target} HTTP/1.1\r\nHost: localhost\r\n\r\n");
    let complete = classify_callback(request("/auth/callback?state=s&code=abc").as_bytes(), "s");
    assert_eq!(callback_reply(&complete).unwrap().0, 200);
    assert_eq!(callback_result(complete).unwrap().unwrap(), "abc");

    let other = classify_callback(request("/favicon.ico").as_bytes(), "s");
    assert!(matches!(other, CallbackStep::NotFound));
    assert_eq!(callback_reply(&other), Some((404, "Not found")));
    assert!(callback_result(other).is_none());

    let forged = classify_callback(request("/auth/callback?state=x&code=abc").as_bytes(), "s");
    assert_eq!(callback_reply(&forged).unwrap().0, 400);
    assert_eq!(callback_result(forged).unwrap().err().unwrap(), Error::CallbackStateMismatch);

    let denied = classify_callback(request("/auth/callback?state=s&error=access_denied").as_bytes(), "s");
    assert_eq!(
        callback_result(denied).unwrap().err().unwrap().message(),
        "remote-control authorization failed: access_denied"
    );

    let empty = classify_callback(request("/auth/callback?state=s&code=").as_bytes(), "s");
    assert_eq!(callback_reply(&empty), None);
    assert_eq!(callback_result(empty).unwrap().err().unwrap(), Error::CallbackNoCode);

    let last_state_wins = classify_callback(request("/auth/callback?state=x&state=s&code=1").as_bytes(), "s");
    assert_eq!(callback_result(last_state_wins).unwrap().unwrap(), "1");

    assert!(matches!(classify_callback(&[0xff, 0xfe], "s"), CallbackStep::Fail(Error::CallbackNotUtf8)));
    assert!(matches!(classify_callback(b"GET\r\n", "s"), CallbackStep::Fail(Error::CallbackMalformed)));
    assert!(matches!(classify_callback(b"", "s"), CallbackStep::Fail(Error::CallbackMalformed)));
}

#[test]
fn callback_answers_are_plain_http() {
    assert_eq!(
        http_response(404, "Not found"),
        "HTTP/1.1 404 Bad Request\r\nContent-Type: text/plain; charset=utf-8\r\nContent-Length: 9\r\nConnection: close\r\n\r\nNot found"
    );
    assert!(http_response(200, "é").starts_with("HTTP/1.1 200 OK\r\n"));
    assert!(http_response(200, "é").contains("Content-Length: 2\r\n"));
}

#[test]
fn sessions_must_belong_to_the_enrollment_and_be_current() {
    assert_eq!(validate_remote_session(&record(), &session(), 1_999_999_999).unwrap(), 2_000_000_000);
    assert_eq!(validate_remote_session(&record(), &session(), 2_000_000_000).err().unwrap(), Error::SessionExpired);
    let mut other = session();
    other.client_id = "someone".into();
    assert_eq!(validate_remote_session(&record(), &other, 0).err().unwrap(), Error::SessionMismatch);
    let mut scoped = session();
    scoped.scopes.push("more".into());
    assert_eq!(validate_remote_session(&record(), &scoped, 0).err().unwrap(), Error::UnexpectedSessionScopes);
    let mut dated = session();
    dated.expires_at = "tomorrow".into();
    assert_eq!(validate_remote_session(&record(), &dated, 0).err().unwrap(), Error::SessionExpirationNotRfc3339);
}

#[test]
fn byte_strings_compare_in_constant_time() {
    assert!(constant_time_equal(b"abc", b"abc"));
    assert!(!constant_time_equal(b"abc", b"abd"));
    assert!(!constant_time_equal(b"abc", b"ab"));
    assert!(constant_time_equal(b"", b""));
}

#[test]
fn device_key_ids_carry_the_keychain_label() {
    let label = [7_u8; 20];
    let key_id = device_key_id(&label);
    assert_eq!(key_id, format!("rcodex_osn_{}", URL_SAFE_NO_PAD.encode(label)));
    assert_eq!(application_label(&key_id).unwrap(), label.to_vec());
    assert_eq!(application_label("other_key").err().unwrap(), Error::UnexpectedKeyId);
    assert_eq!(application_label("rcodex_osn_!!").err().unwrap(), Error::KeyIdNotBase64);
    assert_eq!(application_label("rcodex_osn_AAAA").err().unwrap(), Error::InvalidApplicationLabel);

    let mut point = vec![0x04];
    point.extend([9_u8; 64]);
    let identity: DeviceKeyIdentity = device_key_identity(&label, &point).unwrap();
    assert_eq!(identity.algorithm, "ecdsa_p256_sha256");
    assert_eq!(identity.protection_class, "os_protected_nonextractable");
    assert_eq!(STANDARD.decode(&identity.public_key_spki_der_base64).unwrap().len(), 91);
    assert_eq!(device_key_identity(&label, &[4; 3]).err().unwrap(), Error::InvalidPublicKey);
    assert_eq!(create_os_protected_device_key().err().unwrap(), Error::DeviceKeysNeedMacos);
}

#[test]
fn enrollment_and_refresh_answers_are_checked() {
    let start = |user: &str, expires: i64| EnrollmentStartResponse {
        account_user_id: user.into(),
        client_id: "client-id".into(),
        device_key_challenge: EnrollmentChallenge { account_user_id: user.into(), ..challenge(None, expires) },
    };
    assert!(check_enrollment_start(&codex_auth(None), &start("account-user", 100), 99).is_ok());
    assert!(check_enrollment_start(&codex_auth(Some("legacy")), &start("legacy", 100), 99).is_ok());
    assert_eq!(check_enrollment_start(&codex_auth(None), &start("legacy", 100), 99).err().unwrap(), Error::EnrollmentStartMismatch);
    assert_eq!(check_enrollment_start(&codex_auth(None), &start("account-user", 100), 100).err().unwrap(), Error::EnrollmentChallengeExpired);

    let identity = DeviceKeyIdentity {
        algorithm: "ecdsa_p256_sha256".into(),
        key_id: "key-id".into(),
        protection_class: "os_protected_nonextractable".into(),
        public_key_spki_der_base64: "public-key".into(),
    };
    let enrolled = enrollment_record(&start("account-user", 100), identity);
    assert_eq!(enrolled, record());

    let hash = device_identity_hash(&record());
    let refresh = |hash: Option<String>, expires: i64| EnrollmentStartResponse {
        account_user_id: "account-user".into(),
        client_id: "client-id".into(),
        device_key_challenge: challenge(hash, expires),
    };
    assert!(check_refresh_start(&record(), &refresh(Some(hash.clone()), 100), 99).is_ok());
    assert_eq!(check_refresh_start(&record(), &refresh(None, 100), 99).err().unwrap(), Error::RefreshDeviceIdentityMismatch);
    assert_eq!(check_refresh_start(&record(), &refresh(Some(hash), 100), 100).err().unwrap(), Error::RefreshChallengeExpired);

    let proof = device_key_proof("challenge-token", "key-id", b"payload", b"signature");
    assert_eq!(proof.signed_payload_base64, STANDARD.encode(b"payload"));
    assert_eq!(proof.signature_der_base64, STANDARD.encode(b"signature"));
    assert_eq!(proof.algorithm, "ecdsa_p256_sha256");
}

#[test]
fn the_shim_accepts_only_its_bearer_token() {
    let token = new_shim_auth_token();
    assert_eq!(token.len(), 43);
    assert!(shim_request_authorized(Some(&format!("Bearer {token}")), &token));
    assert!(!shim_request_authorized(Some(&format!("bearer {token}")), &token));
    assert!(!shim_request_authorized(Some("Bearer other"), &token));
    assert!(!shim_request_authorized(None, &token));
    assert_eq!(shim_url("127.0.0.1:4000"), "ws://127.0.0.1:4000");
}

#[test]
fn versions_and_help_text_are_read_word_by_word() {
    assert_eq!(parse_version_token("  1.2.3+build extra ").unwrap(), "1.2.3+build");
    assert_eq!(parse_version_token("v1").err().unwrap(), Error::VersionMalformed);
    assert_eq!(parse_version_token("  ").err().unwrap(), Error::VersionEmpty);
    assert_eq!(parse_version_token("1.0\u{7}").err().unwrap(), Error::VersionHasControl);
    assert!(help_has_option("Usage:\r\n  --remote <ADDR>\r\n", "--remote"));
    assert!(!help_has_option("--remote-auth-token-env", "--remote"));
}

#[test]
fn file_modes_must_keep_group_and_others_out() {
    assert!(is_owner_only(0o100600));
    assert!(!is_owner_only(0o100644));
    assert!(!is_owner_only(0o100601));
}

#[test]
fn failed_requests_name_the_status_with_its_reason() {
    assert_eq!(Error::RequestFailed(503).message(), "remote-control request failed (503 Service Unavailable)");
    assert_eq!(Error::RequestFailed(299).message(), "remote-control request failed (299 <unknown status code>)");
}

#[test]
fn url_errors_carry_the_url_crates_reason() {
    let error = rcodex::protocol::relay_target("http://[::1").err().unwrap();
    assert_eq!(error.message(), "invalid IPv6 address");
    let step = classify_callback(b"GET :99999/auth/callback HTTP/1.1\r\n\r\n", "state");
    assert_eq!(callback_reply(&step), None);
    let outcome = callback_result(step).unwrap().err().unwrap();
    assert_eq!(outcome, Error::InvalidUrl("invalid port number".to_string()));
    assert_eq!(outcome.message(), "invalid port number");
}

#[test]
fn a_stock_version_word_is_read_after_trimming_unicode_space() {
    assert_eq!(rcodex::compatibility::parse_stock_codex_version("codex-cli \u{a0}0.1.0").unwrap(), "0.1.0");
    assert_eq!(rcodex::compatibility::parse_stock_codex_version("codex-cli 0.130.0 extra\n").unwrap(), "0.130.0");
}

#[test]
fn a_new_stream_id_is_a_version_four_uuid() {
    let transport = rcodex::transport::RelayTransport::open("client", "env");
    let id = transport.stream_id();
    assert_eq!(id.len(), 36);
    for (i, c) in id.chars().enumerate() {
        if [8, 13, 18, 23].contains(&i) {
            assert_eq!(c, '-');
        } else {
            assert!(c.is_ascii_digit() || ('a'..='f').contains(&c));
        }
    }
    assert_eq!(id.as_bytes()[14], b'4');
    assert!(b"89ab".contains(&id.as_bytes()[19]));
}

#[test]
fn form_encoding_keeps_unreserved_bytes_and_escapes_the_rest() {
    assert_eq!(
        authorization_code_form("a*-._Z9 &+/é", "r", "v"),
        "grant_type=authorization_code&code=a*-._Z9+%26%2B%2F%C3%A9&redirect_uri=r&client_id=app_EMoamEEZ73f0CkXaXp7hrann&code_verifier=v"
    );
}
