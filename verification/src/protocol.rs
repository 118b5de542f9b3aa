//! The relay's wire contract: enrollment records, the device-key challenges
//! and the exact bytes that the device key signs.
use vstd::prelude::*;
use crate::error::{lemma_url_error, same_error, url_error, Error};
use crate::json::{
    Json, JsonV, JsonNumber, NumberV, encode, entries_view, items_view, lemma_array_view,
    lemma_object_view, to_bytes,
};
use crate::outside::{
    base64_url_decode, base64_url_encode, sha256, sha256_digest, url_append_query, url_join,
    url_join_origin_path, url_safe_base64, url_safe_base64_decoded, url_with_query,
};
use crate::text::{push_str, str_eq, string_of};

verus! {

pub const API_BASE: &'static str = "https://chatgpt.com/backend-api";

pub const AUTH_ISSUER: &'static str = "https://auth.openai.com";

pub const OAUTH_CLIENT_ID: &'static str = "app_EMoamEEZ73f0CkXaXp7hrann";

pub const ENROLL_SCOPE: &'static str = "codex.remote_control.enroll";

pub const SESSION_SCOPE: &'static str = "remote_control_controller_websocket";

pub const SIGNING_DOMAIN: &'static str = "codex-device-key-sign-payload/v1";

pub const RELAY_PROTOCOL_VERSION: u8 = 3;

/// The public identity of an enrolled controller.
#[derive(Clone, Debug, PartialEq, Eq)]
pub struct EnrollmentRecord {
    pub account_user_id: String,
    pub algorithm: String,
    pub client_id: String,
    pub key_id: String,
    pub protection_class: String,
    pub public_key_spki_der_base64: String,
}

/// The challenge that the relay sends at the start of an enrollment or a
/// session refresh.
#[derive(Clone, Debug, PartialEq, Eq)]
pub struct EnrollmentChallenge {
    pub account_user_id: String,
    pub audience: String,
    pub challenge_expires_at: i64,
    pub challenge_id: String,
    pub challenge_token: String,
    pub client_id: String,
    pub device_identity_hash: Option<String>,
    pub nonce: String,
    pub purpose: String,
    pub target_origin: String,
    pub target_path: String,
}

/// The challenge that the relay sends on a new websocket.
#[derive(Clone, Debug, PartialEq, Eq)]
pub struct ConnectionChallenge {
    pub account_user_id: String,
    pub audience: String,
    pub client_id: String,
    pub nonce: String,
    pub purpose: String,
    pub scopes: Vec<String>,
    pub session_id: String,
    pub target_origin: String,
    pub target_path: String,
    pub token_expires_at: i64,
    pub token_sha256_base64url: String,
}

/// The parameters of the OAuth step-up authorization URL.
#[derive(Clone, Debug)]
pub struct OAuthAuthorizeParams {
    pub account_id: Option<String>,
    pub code_challenge: String,
    pub originator: String,
    pub redirect_uri: String,
    pub state: String,
}

// ---------------------------------------------------------------------------
// Building JSON values
// ---------------------------------------------------------------------------

/// A JSON number holding `n`, as `serde` writes an `i64`.
pub open spec fn int_number(n: i64) -> NumberV {
    if n < 0 {
        NumberV::NegInt(n)
    } else {
        NumberV::PosInt(n as u64)
    }
}

pub fn signed_number(n: i64) -> (r: Json)
    ensures
        r@ == JsonV::Number(int_number(n)),
{
    if n < 0 {
        Json::Number(JsonNumber::NegInt(n))
    } else {
        Json::Number(JsonNumber::PosInt(n as u64))
    }
}

/// An object member named `key`.
pub fn member(key: &str, value: Json) -> (r: (String, Json))
    ensures
        r.0@ == key@,
        r.1@ == value@,
{
    (string_of(key), value)
}

/// A JSON array of strings.
pub fn string_array(items: &Vec<String>) -> (r: Json)
    ensures
        r@ == JsonV::Arr(items@.map_values(|s: String| JsonV::Str(s@))),
{
    let mut out: Vec<Json> = Vec::new();
    let mut i: usize = 0;
    while i < items.len()
        invariant
            i <= items@.len(),
            out@.len() == i,
            forall|k: int| 0 <= k < i ==> (#[trigger] out@[k])@ == JsonV::Str(items@[k]@),
        decreases items@.len() - i,
    {
        out.push(Json::string(items[i].as_str()));
        i += 1;
    }
    proof {
        lemma_array_view(out);
        assert(items_view(out@) =~= items@.map_values(|s: String| JsonV::Str(s@)));
    }
    Json::Array(out)
}

pub open spec fn str_member(key: Seq<char>, value: Seq<char>) -> (Seq<char>, JsonV) {
    (key, JsonV::Str(value))
}

// ---------------------------------------------------------------------------
// Device identity
// ---------------------------------------------------------------------------

/// The device identity that the relay hashes, with the desktop app's field
/// order.
pub open spec fn device_identity_value(record: EnrollmentRecord) -> JsonV {
    JsonV::Obj(
        seq![
            str_member("algorithm"@, record.algorithm@),
            str_member("keyId"@, record.key_id@),
            str_member("protectionClass"@, record.protection_class@),
            str_member("publicKeySpkiDerBase64"@, record.public_key_spki_der_base64@),
        ],
    )
}

/// The URL-safe base64 of the SHA-256 of the device identity's JSON text.
pub open spec fn spec_device_identity_hash(record: EnrollmentRecord) -> Seq<char> {
    url_safe_base64(sha256_digest(encode(device_identity_value(record))))
}

fn device_identity_json(record: &EnrollmentRecord) -> (r: Json)
    ensures
        r@ == device_identity_value(*record),
{
    let mut e: Vec<(String, Json)> = Vec::new();
    e.push(member("algorithm", Json::string(record.algorithm.as_str())));
    e.push(member("keyId", Json::string(record.key_id.as_str())));
    e.push(member("protectionClass", Json::string(record.protection_class.as_str())));
    e.push(
        member("publicKeySpkiDerBase64", Json::string(record.public_key_spki_der_base64.as_str())),
    );
    proof {
        lemma_object_view(e);
        assert(entries_view(e@) =~= device_identity_value(*record)->Obj_0);
    }
    Json::Object(e)
}

/// The hash that binds an enrollment challenge to this device's key.
pub fn device_identity_hash(record: &EnrollmentRecord) -> (r: String)
    ensures
        r@ == spec_device_identity_hash(*record),
{
    let identity = device_identity_json(record);
    let bytes = to_bytes(&identity);
    let digest = sha256(bytes.as_slice());
    base64_url_encode(digest.as_slice())
}

// ---------------------------------------------------------------------------
// Checks of challenge fields
// ---------------------------------------------------------------------------

/// A nonce is URL-safe base64 of at least 32 bytes.
pub open spec fn nonce_check(value: Seq<char>) -> Result<(), Error> {
    match url_safe_base64_decoded(value) {
        None => Err(Error::NonceNotBase64),
        Some(b) => if b.len() < 32 {
            Err(Error::NonceTooShort)
        } else {
            Ok(())
        },
    }
}

/// A digest is URL-safe base64 of exactly 32 bytes.
pub open spec fn sha256_check(value: Seq<char>) -> Result<(), Error> {
    match url_safe_base64_decoded(value) {
        None => Err(Error::DigestNotBase64),
        Some(b) => if b.len() != 32 {
            Err(Error::DigestNotSha256)
        } else {
            Ok(())
        },
    }
}

fn validate_nonce(value: &str) -> (r: Result<(), Error>)
    ensures
        r == nonce_check(value@),
{
    match base64_url_decode(value) {
        None => Err(Error::NonceNotBase64),
        Some(decoded) => if decoded.len() < 32 {
            Err(Error::NonceTooShort)
        } else {
            Ok(())
        },
    }
}

fn validate_sha256(value: &str) -> (r: Result<(), Error>)
    ensures
        r == sha256_check(value@),
{
    match base64_url_decode(value) {
        None => Err(Error::DigestNotBase64),
        Some(decoded) => if decoded.len() != 32 {
            Err(Error::DigestNotSha256)
        } else {
            Ok(())
        },
    }
}

// ---------------------------------------------------------------------------
// Relay targets
// ---------------------------------------------------------------------------

/// `s` without its leading `/` characters, as `trim_start_matches('/')`
/// leaves it.
pub open spec fn strip_leading_slashes(s: Seq<char>) -> Seq<char>
    decreases s.len(),
{
    if s.len() > 0 && s[0] == '/' {
        strip_leading_slashes(s.drop_first())
    } else {
        s
    }
}

/// The origin and path that the relay expects for an API path relative to
/// `API_BASE`.
pub open spec fn spec_relay_target(relative_path: Seq<char>) -> Result<(Seq<char>, Seq<char>), Error> {
    match url_join_origin_path(API_BASE@ + "/"@, strip_leading_slashes(relative_path)) {
        Ok(t) => Ok(t),
        Err(text) => Err(url_error(text)),
    }
}

fn strip_slashes(s: &str) -> (r: String)
    ensures
        r@ == strip_leading_slashes(s@),
{
    let chars = crate::text::chars_of(s);
    let mut i: usize = 0;
    assert(chars@.skip(0) =~= chars@);
    while i < chars.len() && chars[i] == '/'
        invariant
            i <= chars@.len(),
            strip_leading_slashes(chars@) == strip_leading_slashes(chars@.skip(i as int)),
        decreases chars@.len() - i,
    {
        assert(chars@.skip(i as int).drop_first() =~= chars@.skip(i + 1));
        i += 1;
    }
    let mut rest: Vec<char> = Vec::new();
    let mut k = i;
    while k < chars.len()
        invariant
            i <= k <= chars@.len(),
            rest@ == chars@.subrange(i as int, k as int),
        decreases chars@.len() - k,
    {
        rest.push(chars[k]);
        assert(chars@.subrange(i as int, k + 1) =~= chars@.subrange(i as int, k as int).push(
            chars@[k as int],
        ));
        k += 1;
    }
    assert(rest@ =~= chars@.skip(i as int));
    crate::text::string_from_chars(rest.as_slice())
}

/// The origin and path of `API_BASE` joined with `relative_path`.
pub fn relay_target(relative_path: &str) -> (r: Result<(String, String), Error>)
    ensures
        match r {
            Ok(t) => spec_relay_target(relative_path@) == Ok::<(Seq<char>, Seq<char>), Error>((t.0@, t.1@)),
            Err(e) => spec_relay_target(relative_path@) is Err && same_error(
                e,
                spec_relay_target(relative_path@)->Err_0,
            ),
        },
{
    let mut base = string_of(API_BASE);
    push_str(&mut base, "/");
    let relative = strip_slashes(relative_path);
    match url_join(base.as_str(), relative.as_str()) {
        Ok(t) => Ok(t),
        Err(text) => {
            proof {
                lemma_url_error(text);
            }
            Err(Error::InvalidUrl(text))
        },
    }
}

// ---------------------------------------------------------------------------
// Enrollment signing payload
// ---------------------------------------------------------------------------

/// The enrollment payload that the device key signs, wrapped in the signing
/// domain, with the desktop app's field order.
pub open spec fn enrollment_envelope(challenge: EnrollmentChallenge, identity_hash: Seq<char>) -> JsonV {
    JsonV::Obj(
        seq![
            str_member("domain"@, SIGNING_DOMAIN@),
            (
                "payload"@,
                JsonV::Obj(
                    seq![
                        str_member("accountUserId"@, challenge.account_user_id@),
                        str_member("audience"@, "remote_control_client_enrollment"@),
                        ("challengeExpiresAt"@, JsonV::Number(int_number(challenge.challenge_expires_at))),
                        str_member("challengeId"@, challenge.challenge_id@),
                        str_member("clientId"@, challenge.client_id@),
                        str_member("deviceIdentitySha256Base64url"@, identity_hash),
                        str_member("nonce"@, challenge.nonce@),
                        str_member("targetOrigin"@, challenge.target_origin@),
                        str_member("targetPath"@, challenge.target_path@),
                        str_member("type"@, "remoteControlClientEnrollment"@),
                    ],
                ),
            ),
        ],
    )
}

/// Whether the challenge names this enrollment and the expected relay target.
pub open spec fn enrollment_challenge_matches(
    record: EnrollmentRecord,
    challenge: EnrollmentChallenge,
    origin: Seq<char>,
    path: Seq<char>,
) -> bool {
    &&& challenge.purpose@ == "remote_control_client_enrollment"@
    &&& challenge.audience@ == "remote_control_client_enrollment"@
    &&& challenge.account_user_id@ == record.account_user_id@
    &&& challenge.client_id@ == record.client_id@
    &&& challenge.target_origin@ == origin
    &&& challenge.target_path@ == path
}

/// What `build_enrollment_signing_payload` gives: the first failed check in
/// order, or the signed bytes.
pub open spec fn enrollment_signing_outcome(
    record: EnrollmentRecord,
    challenge: EnrollmentChallenge,
    expected_relative_path: Seq<char>,
    require_device_identity_hash: bool,
) -> Result<Seq<u8>, Error> {
    let local_hash = spec_device_identity_hash(record);
    let challenge_hash = match challenge.device_identity_hash {
        Some(h) => h@,
        None => local_hash,
    };
    if nonce_check(challenge.nonce@) is Err {
        Err(nonce_check(challenge.nonce@)->Err_0)
    } else if spec_relay_target(expected_relative_path) is Err {
        Err(spec_relay_target(expected_relative_path)->Err_0)
    } else if !enrollment_challenge_matches(
        record,
        challenge,
        spec_relay_target(expected_relative_path)->Ok_0.0,
        spec_relay_target(expected_relative_path)->Ok_0.1,
    ) {
        Err(Error::EnrollmentChallengeMismatch)
    } else if require_device_identity_hash && challenge.device_identity_hash is None {
        Err(Error::MissingDeviceIdentityHash)
    } else if challenge_hash != local_hash {
        Err(Error::DeviceIdentityMismatch)
    } else {
        Ok(encode(enrollment_envelope(challenge, challenge_hash)))
    }
}

fn enrollment_envelope_json(challenge: &EnrollmentChallenge, identity_hash: &str) -> (r: Json)
    ensures
        r@ == enrollment_envelope(*challenge, identity_hash@),
{
    let mut p: Vec<(String, Json)> = Vec::new();
    p.push(member("accountUserId", Json::string(challenge.account_user_id.as_str())));
    p.push(member("audience", Json::string("remote_control_client_enrollment")));
    p.push(member("challengeExpiresAt", signed_number(challenge.challenge_expires_at)));
    p.push(member("challengeId", Json::string(challenge.challenge_id.as_str())));
    p.push(member("clientId", Json::string(challenge.client_id.as_str())));
    p.push(member("deviceIdentitySha256Base64url", Json::string(identity_hash)));
    p.push(member("nonce", Json::string(challenge.nonce.as_str())));
    p.push(member("targetOrigin", Json::string(challenge.target_origin.as_str())));
    p.push(member("targetPath", Json::string(challenge.target_path.as_str())));
    p.push(member("type", Json::string("remoteControlClientEnrollment")));
    let ghost pv = entries_view(p@);
    let payload = Json::Object(p);
    proof {
        lemma_object_view(p);
    }
    let mut e: Vec<(String, Json)> = Vec::new();
    e.push(member("domain", Json::string(SIGNING_DOMAIN)));
    e.push(member("payload", payload));
    proof {
        lemma_object_view(e);
        assert(pv =~= enrollment_envelope(*challenge, identity_hash@)->Obj_0[1].1->Obj_0);
        assert(entries_view(e@) =~= enrollment_envelope(*challenge, identity_hash@)->Obj_0);
    }
    Json::Object(e)
}

/// The bytes that the device key signs to answer an enrollment or refresh
/// challenge, after checking that the challenge is the one this enrollment
/// expects.
pub fn build_enrollment_signing_payload(
    record: &EnrollmentRecord,
    challenge: &EnrollmentChallenge,
    expected_relative_path: &str,
    require_device_identity_hash: bool,
) -> (r: Result<Vec<u8>, Error>)
    ensures
        match r {
            Ok(b) => enrollment_signing_outcome(
                *record,
                *challenge,
                expected_relative_path@,
                require_device_identity_hash,
            ) == Ok::<Seq<u8>, Error>(b@),
            Err(e) => enrollment_signing_outcome(
                *record,
                *challenge,
                expected_relative_path@,
                require_device_identity_hash,
            ) is Err && same_error(
                e,
                enrollment_signing_outcome(
                    *record,
                    *challenge,
                    expected_relative_path@,
                    require_device_identity_hash,
                )->Err_0,
            ),
        },
{
    validate_nonce(challenge.nonce.as_str())?;
    let (expected_origin, expected_path) = relay_target(expected_relative_path)?;
    if !str_eq(challenge.purpose.as_str(), "remote_control_client_enrollment") || !str_eq(
        challenge.audience.as_str(),
        "remote_control_client_enrollment",
    ) || !str_eq(challenge.account_user_id.as_str(), record.account_user_id.as_str()) || !str_eq(
        challenge.client_id.as_str(),
        record.client_id.as_str(),
    ) || !str_eq(challenge.target_origin.as_str(), expected_origin.as_str()) || !str_eq(
        challenge.target_path.as_str(),
        expected_path.as_str(),
    ) {
        return Err(Error::EnrollmentChallengeMismatch);
    }
    if require_device_identity_hash && challenge.device_identity_hash.is_none() {
        return Err(Error::MissingDeviceIdentityHash);
    }
    let local_hash = device_identity_hash(record);
    let challenge_hash: &str = match &challenge.device_identity_hash {
        Some(h) => h.as_str(),
        None => local_hash.as_str(),
    };
    if !str_eq(challenge_hash, local_hash.as_str()) {
        return Err(Error::DeviceIdentityMismatch);
    }
    let envelope = enrollment_envelope_json(challenge, challenge_hash);
    Ok(to_bytes(&envelope))
}

// ---------------------------------------------------------------------------
// Websocket signing payload
// ---------------------------------------------------------------------------

/// The relay path of the controller websocket.
pub open spec fn client_websocket_path() -> Seq<char> {
    "/codex/remote/control/client"@
}

/// The websocket payload that the device key signs, wrapped in the signing
/// domain.
pub open spec fn connection_envelope(challenge: ConnectionChallenge) -> JsonV {
    JsonV::Obj(
        seq![
            str_member("domain"@, SIGNING_DOMAIN@),
            (
                "payload"@,
                JsonV::Obj(
                    seq![
                        str_member("accountUserId"@, challenge.account_user_id@),
                        str_member("audience"@, challenge.audience@),
                        str_member("clientId"@, challenge.client_id@),
                        str_member("nonce"@, challenge.nonce@),
                        ("scopes"@, JsonV::Arr(challenge.scopes@.map_values(|s: String| JsonV::Str(s@)))),
                        str_member("sessionId"@, challenge.session_id@),
                        str_member("targetOrigin"@, challenge.target_origin@),
                        str_member("targetPath"@, challenge.target_path@),
                        ("tokenExpiresAt"@, JsonV::Number(int_number(challenge.token_expires_at))),
                        str_member("tokenSha256Base64url"@, challenge.token_sha256_base64url@),
                        str_member("type"@, "remoteControlClientConnection"@),
                    ],
                ),
            ),
        ],
    )
}

/// Whether a list of scopes is exactly the controller websocket scope.
pub open spec fn is_session_scope_list(scopes: Seq<String>) -> bool {
    scopes.len() == 1 && scopes[0]@ == SESSION_SCOPE@
}

pub open spec fn connection_challenge_matches(
    challenge: ConnectionChallenge,
    origin: Seq<char>,
    path: Seq<char>,
) -> bool {
    &&& challenge.purpose@ == "remote_control_client_websocket"@
    &&& challenge.audience@ == "remote_control_client_websocket"@
    &&& challenge.target_origin@ == origin
    &&& challenge.target_path@ == path
    &&& is_session_scope_list(challenge.scopes@)
}

/// What `build_connection_signing_payload` gives.
pub open spec fn connection_signing_outcome(challenge: ConnectionChallenge) -> Result<Seq<u8>, Error> {
    if nonce_check(challenge.nonce@) is Err {
        Err(nonce_check(challenge.nonce@)->Err_0)
    } else if sha256_check(challenge.token_sha256_base64url@) is Err {
        Err(sha256_check(challenge.token_sha256_base64url@)->Err_0)
    } else if spec_relay_target(client_websocket_path()) is Err {
        Err(spec_relay_target(client_websocket_path())->Err_0)
    } else if !connection_challenge_matches(
        challenge,
        spec_relay_target(client_websocket_path())->Ok_0.0,
        spec_relay_target(client_websocket_path())->Ok_0.1,
    ) {
        Err(Error::ConnectionChallengeMismatch)
    } else {
        Ok(encode(connection_envelope(challenge)))
    }
}

pub fn is_session_scopes(scopes: &Vec<String>) -> (r: bool)
    ensures
        r == is_session_scope_list(scopes@),
{
    scopes.len() == 1 && str_eq(scopes[0].as_str(), SESSION_SCOPE)
}

fn connection_envelope_json(challenge: &ConnectionChallenge) -> (r: Json)
    ensures
        r@ == connection_envelope(*challenge),
{
    let mut p: Vec<(String, Json)> = Vec::new();
    p.push(member("accountUserId", Json::string(challenge.account_user_id.as_str())));
    p.push(member("audience", Json::string(challenge.audience.as_str())));
    p.push(member("clientId", Json::string(challenge.client_id.as_str())));
    p.push(member("nonce", Json::string(challenge.nonce.as_str())));
    p.push(member("scopes", string_array(&challenge.scopes)));
    p.push(member("sessionId", Json::string(challenge.session_id.as_str())));
    p.push(member("targetOrigin", Json::string(challenge.target_origin.as_str())));
    p.push(member("targetPath", Json::string(challenge.target_path.as_str())));
    p.push(member("tokenExpiresAt", signed_number(challenge.token_expires_at)));
    p.push(
        member("tokenSha256Base64url", Json::string(challenge.token_sha256_base64url.as_str())),
    );
    p.push(member("type", Json::string("remoteControlClientConnection")));
    let ghost pv = entries_view(p@);
    let payload = Json::Object(p);
    proof {
        lemma_object_view(p);
    }
    let mut e: Vec<(String, Json)> = Vec::new();
    e.push(member("domain", Json::string(SIGNING_DOMAIN)));
    e.push(member("payload", payload));
    proof {
        lemma_object_view(e);
        assert(pv =~= connection_envelope(*challenge)->Obj_0[1].1->Obj_0);
        assert(entries_view(e@) =~= connection_envelope(*challenge)->Obj_0);
    }
    Json::Object(e)
}

/// The bytes that the device key signs to answer a websocket challenge, after
/// checking that the challenge follows the relay contract.
pub fn build_connection_signing_payload(challenge: &ConnectionChallenge) -> (r: Result<Vec<u8>, Error>)
    ensures
        match r {
            Ok(b) => connection_signing_outcome(*challenge) == Ok::<Seq<u8>, Error>(b@),
            Err(e) => connection_signing_outcome(*challenge) is Err && same_error(
                e,
                connection_signing_outcome(*challenge)->Err_0,
            ),
        },
{
    validate_nonce(challenge.nonce.as_str())?;
    validate_sha256(challenge.token_sha256_base64url.as_str())?;
    let (expected_origin, expected_path) = relay_target("/codex/remote/control/client")?;
    if !str_eq(challenge.purpose.as_str(), "remote_control_client_websocket") || !str_eq(
        challenge.audience.as_str(),
        "remote_control_client_websocket",
    ) || !str_eq(challenge.target_origin.as_str(), expected_origin.as_str()) || !str_eq(
        challenge.target_path.as_str(),
        expected_path.as_str(),
    ) || !is_session_scopes(&challenge.scopes) {
        return Err(Error::ConnectionChallengeMismatch);
    }
    let envelope = connection_envelope_json(challenge);
    Ok(to_bytes(&envelope))
}

// ---------------------------------------------------------------------------
// OAuth authorization URL
// ---------------------------------------------------------------------------

/// The query pairs of the step-up authorization URL, in order.
pub open spec fn authorize_pairs(params: OAuthAuthorizeParams) -> Seq<(Seq<char>, Seq<char>)> {
    let fixed = seq![
        ("response_type"@, "code"@),
        ("client_id"@, OAUTH_CLIENT_ID@),
        ("redirect_uri"@, params.redirect_uri@),
        ("scope"@, ENROLL_SCOPE@),
        ("code_challenge"@, params.code_challenge@),
        ("code_challenge_method"@, "S256"@),
        ("state"@, params.state@),
        ("originator"@, params.originator@),
        ("reauth"@, "remote_control"@),
        ("max_age"@, "0"@),
        ("codex_cli_simplified_flow"@, "true"@),
    ];
    match params.account_id {
        Some(a) => fixed + seq![("allowed_workspace_id"@, a@), ("current_workspace_id"@, a@)],
        None => fixed,
    }
}

/// `AUTH_ISSUER` followed by the authorization endpoint.
pub open spec fn authorize_endpoint() -> Seq<char> {
    AUTH_ISSUER@ + "/oauth/authorize"@
}

fn pair(key: &str, value: &str) -> (r: (String, String))
    ensures
        r.0@ == key@,
        r.1@ == value@,
{
    (string_of(key), string_of(value))
}

/// Whether the query pairs of an authorization URL carry the request: the
/// code flow with PKCE for this client, the redirect, the state and the
/// originator, the step-up options and, for an account, its workspace.
pub open spec fn carries_authorize_request(q: Seq<(Seq<char>, Seq<char>)>, p: OAuthAuthorizeParams) -> bool {
    &&& q.contains(("response_type"@, "code"@))
    &&& q.contains(("client_id"@, OAUTH_CLIENT_ID@))
    &&& q.contains(("redirect_uri"@, p.redirect_uri@))
    &&& q.contains(("scope"@, ENROLL_SCOPE@))
    &&& q.contains(("code_challenge"@, p.code_challenge@))
    &&& q.contains(("code_challenge_method"@, "S256"@))
    &&& q.contains(("state"@, p.state@))
    &&& q.contains(("originator"@, p.originator@))
    &&& q.contains(("reauth"@, "remote_control"@))
    &&& q.contains(("max_age"@, "0"@))
    &&& q.contains(("codex_cli_simplified_flow"@, "true"@))
    &&& match p.account_id {
        Some(a) => q.len() == 13 && q.contains(("allowed_workspace_id"@, a@)) && q.contains(
            ("current_workspace_id"@, a@),
        ),
        None => q.len() == 11,
    }
}

/// The authorization URL's query carries every pair of the request, the
/// state, the redirect and the PKCE challenge among them, and nothing else.
pub proof fn lemma_authorize_query_carries_the_request(p: OAuthAuthorizeParams)
    ensures
        carries_authorize_request(authorize_pairs(p), p),
{
    let q = authorize_pairs(p);
    assert(q[0] == ("response_type"@, "code"@));
    assert(q[1] == ("client_id"@, OAUTH_CLIENT_ID@));
    assert(q[2] == ("redirect_uri"@, p.redirect_uri@));
    assert(q[3] == ("scope"@, ENROLL_SCOPE@));
    assert(q[4] == ("code_challenge"@, p.code_challenge@));
    assert(q[5] == ("code_challenge_method"@, "S256"@));
    assert(q[6] == ("state"@, p.state@));
    assert(q[7] == ("originator"@, p.originator@));
    assert(q[8] == ("reauth"@, "remote_control"@));
    assert(q[9] == ("max_age"@, "0"@));
    assert(q[10] == ("codex_cli_simplified_flow"@, "true"@));
    match p.account_id {
        Some(a) => {
            assert(q[11] == ("allowed_workspace_id"@, a@));
            assert(q[12] == ("current_workspace_id"@, a@));
        },
        None => {},
    }
}

/// The step-up authorization URL, serialised.
pub fn build_oauth_authorize_url(params: &OAuthAuthorizeParams) -> (r: Result<String, Error>)
    ensures
        match r {
            Ok(u) => url_with_query(authorize_endpoint(), authorize_pairs(*params)) == Ok::<
                Seq<char>,
                Seq<char>,
            >(u@),
            Err(e) => url_with_query(authorize_endpoint(), authorize_pairs(*params)) matches Err(t)
                && e matches Error::InvalidUrl(m) && m@ == t,
        },
        r is Ok ==> exists|q: Seq<(Seq<char>, Seq<char>)>|
            #![trigger url_with_query(AUTH_ISSUER@ + "/oauth/authorize"@, q)]
            carries_authorize_request(q, *params) && url_with_query(
                AUTH_ISSUER@ + "/oauth/authorize"@,
                q,
            ) == Ok::<Seq<char>, Seq<char>>(r->Ok_0@),
{
    proof {
        lemma_authorize_query_carries_the_request(*params);
    }
    let mut base = string_of(AUTH_ISSUER);
    push_str(&mut base, "/oauth/authorize");
    let mut pairs: Vec<(String, String)> = Vec::new();
    pairs.push(pair("response_type", "code"));
    pairs.push(pair("client_id", OAUTH_CLIENT_ID));
    pairs.push(pair("redirect_uri", params.redirect_uri.as_str()));
    pairs.push(pair("scope", ENROLL_SCOPE));
    pairs.push(pair("code_challenge", params.code_challenge.as_str()));
    pairs.push(pair("code_challenge_method", "S256"));
    pairs.push(pair("state", params.state.as_str()));
    pairs.push(pair("originator", params.originator.as_str()));
    pairs.push(pair("reauth", "remote_control"));
    pairs.push(pair("max_age", "0"));
    pairs.push(pair("codex_cli_simplified_flow", "true"));
    match &params.account_id {
        Some(account_id) => {
            pairs.push(pair("allowed_workspace_id", account_id.as_str()));
            pairs.push(pair("current_workspace_id", account_id.as_str()));
        },
        None => {},
    }
    assert(pairs@.map_values(|p: (String, String)| (p.0@, p.1@)) =~= authorize_pairs(*params));
    match url_append_query(base.as_str(), &pairs) {
        Ok(u) => Ok(u),
        Err(text) => Err(Error::InvalidUrl(text)),
    }
}

// ---------------------------------------------------------------------------
// Client message envelope
// ---------------------------------------------------------------------------

/// The relay envelope of one app-server message from this controller.
pub open spec fn client_envelope_value(
    client_id: Seq<char>,
    env_id: Seq<char>,
    stream_id: Seq<char>,
    seq_id: u64,
    message: JsonV,
) -> JsonV {
    JsonV::Obj(
        seq![
            str_member("client_id"@, client_id),
            str_member("env_id"@, env_id),
            ("message"@, message),
            ("seq_id"@, JsonV::Number(NumberV::PosInt(seq_id))),
            ("skip_history"@, JsonV::Bool(false)),
            str_member("stream_id"@, stream_id),
            str_member("type"@, "client_message"@),
        ],
    )
}

/// Wraps an app-server message in the relay's client envelope.
pub fn client_message_envelope(
    client_id: &str,
    env_id: &str,
    stream_id: &str,
    seq_id: u64,
    message: Json,
) -> (r: Json)
    ensures
        r@ == client_envelope_value(client_id@, env_id@, stream_id@, seq_id, message@),
{
    let ghost mv = message@;
    let mut e: Vec<(String, Json)> = Vec::new();
    e.push(member("client_id", Json::string(client_id)));
    e.push(member("env_id", Json::string(env_id)));
    e.push(member("message", message));
    e.push(member("seq_id", Json::unsigned(seq_id)));
    e.push(member("skip_history", Json::Bool(false)));
    e.push(member("stream_id", Json::string(stream_id)));
    e.push(member("type", Json::string("client_message")));
    proof {
        lemma_object_view(e);
        assert(entries_view(e@) =~= client_envelope_value(
            client_id@,
            env_id@,
            stream_id@,
            seq_id,
            mv,
        )->Obj_0);
    }
    Json::Object(e)
}

} // verus!
