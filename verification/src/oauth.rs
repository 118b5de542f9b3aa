//! The OAuth step-up that authorises an enrollment: the PKCE pair, the
//! callback that brings the authorization code back, the code exchange and
//! the checks on the step-up token.
use vstd::prelude::*;
use vstd::utf8::{decode_utf8, encode_utf8, valid_utf8};
use crate::auth::{first_present, jwt_payload, jwt_payload_text, opt_view, saturating_add_i64};
use crate::error::Error;
use crate::outside::{
    base64_url_decode, base64_url_encode, form_query, form_urlencoded_pairs, random_bytes, sha256,
    sha256_digest, url_path_and_query, url_path_query, url_safe_base64, url_safe_base64_decoded,
    utf8_text,
};
use crate::protocol::{ENROLL_SCOPE, OAUTH_CLIENT_ID, OAuthAuthorizeParams};
use crate::text::{
    char_index, chars_of, decimal, find_char, sub_chars, push_decimal, push_str, split_white_space_words, str_eq, string_of,
    white_space_words,
};

verus! {

broadcast use vstd::string::group_string_axioms;

/// The loopback ports that the callback listens on, in order of preference.
pub fn callback_ports() -> (r: [u16; 2])
    ensures
        r@ == seq![1455u16, 1457u16],
{
    let r: [u16; 2] = [1455, 1457];
    assert(r@ =~= seq![1455u16, 1457u16]);
    r
}

/// The path of the callback.
pub const CALLBACK_PATH: &'static str = "/auth/callback";

/// The claims of a step-up token that are checked.
pub struct StepUpClaims {
    pub iat: i64,
    pub pwd_auth_time: i64,
    pub scope: Option<String>,
    pub scp: Vec<String>,
    pub auth: StepUpIdentity,
}

pub struct StepUpIdentity {
    pub account_user_id: Option<String>,
    pub chatgpt_account_user_id: Option<String>,
}

// ---------------------------------------------------------------------------
// The step-up token
// ---------------------------------------------------------------------------

/// What `step_up_token_payload` gives: the decoded payload of a JWT.
pub open spec fn step_up_payload_outcome(token: Seq<char>) -> Result<Seq<u8>, Error> {
    match jwt_payload_text(token) {
        None => Err(Error::StepUpTokenNotJwt),
        Some(p) => match url_safe_base64_decoded(p) {
            None => Err(Error::StepUpTokenNotBase64),
            Some(b) => Ok(b),
        },
    }
}

/// The JSON text of a step-up token's claims.
pub fn step_up_token_payload(token: &str) -> (r: Result<Vec<u8>, Error>)
    ensures
        match r {
            Ok(b) => step_up_payload_outcome(token@) == Ok::<Seq<u8>, Error>(b@),
            Err(e) => step_up_payload_outcome(token@) == Err::<Seq<u8>, Error>(e),
        },
{
    let payload = match jwt_payload(token) {
        Some(p) => p,
        None => return Err(Error::StepUpTokenNotJwt),
    };
    match base64_url_decode(payload.as_str()) {
        Some(b) => Ok(b),
        None => Err(Error::StepUpTokenNotBase64),
    }
}

/// `i64::saturating_sub`.
pub open spec fn saturating_sub_i64(a: i64, b: i64) -> i64 {
    if a - b > i64::MAX {
        i64::MAX
    } else if a - b < i64::MIN {
        i64::MIN
    } else {
        (a - b) as i64
    }
}

/// `i64::saturating_mul`.
pub open spec fn saturating_mul_i64(a: i64, b: i64) -> i64 {
    if a * b > i64::MAX {
        i64::MAX
    } else if a * b < i64::MIN {
        i64::MIN
    } else {
        (a * b) as i64
    }
}

fn clamp_i64(x: i128) -> (r: i64)
    ensures
        r == (if x > i64::MAX {
            i64::MAX as int
        } else if x < i64::MIN {
            i64::MIN as int
        } else {
            x as int
        }),
{
    if x > i64::MAX as i128 {
        i64::MAX
    } else if x < i64::MIN as i128 {
        i64::MIN
    } else {
        x as i64
    }
}

fn saturating_add(a: i64, b: i64) -> (r: i64)
    ensures
        r == saturating_add_i64(a, b),
{
    clamp_i64(a as i128 + b as i128)
}

fn saturating_sub(a: i64, b: i64) -> (r: i64)
    ensures
        r == saturating_sub_i64(a, b),
{
    clamp_i64(a as i128 - b as i128)
}

fn saturating_mul(a: i64, b: i64) -> (r: i64)
    requires
        -1000 <= b <= 1000,
    ensures
        r == saturating_mul_i64(a, b),
{
    assert(-9223372036854775808000 <= a * b <= 9223372036854775808000) by (nonlinear_arith)
        requires
            -9223372036854775808 <= a <= 9223372036854775807,
            -1000 <= b <= 1000,
    ;
    clamp_i64(a as i128 * b as i128)
}

/// The scopes a step-up token grants: the words of `scope` followed by the
/// items of `scp`.
pub open spec fn step_up_scopes(claims: StepUpClaims) -> Seq<Seq<char>> {
    scope_words(claims.scope) + claims.scp@.map_values(|s: String| s@)
}

/// The words of the `scope` claim.
pub open spec fn scope_words(scope: Option<String>) -> Seq<Seq<char>> {
    match scope {
        Some(s) => white_space_words(s@),
        None => Seq::empty(),
    }
}

/// Whether the scopes, sorted and without repeats, are exactly the
/// enrollment scope: there is one, and every one is that scope.
pub open spec fn only_enroll_scope(scopes: Seq<Seq<char>>) -> bool {
    scopes.len() > 0 && forall|i: int| 0 <= i < scopes.len() ==> #[trigger] scopes[i] == ENROLL_SCOPE@
}

/// The longest a step-up token may be in use, in seconds.
pub const STEP_UP_MAX_AGE_SECONDS: i64 = 300;

/// How far in the future a step-up token may be issued, in seconds.
pub const STEP_UP_CLOCK_SKEW_SECONDS: i64 = 60;

/// The longest since the password was entered, in milliseconds.
pub const PASSWORD_MAX_AGE_MILLIS: i64 = 300000;

/// What `validate_step_up_claims` gives: the token must belong to the
/// expected account user, be issued within five minutes (and not more than a
/// minute in the future), follow a password authentication of the last five
/// minutes, and grant exactly the enrollment scope.
pub open spec fn step_up_outcome(claims: StepUpClaims, expected_account_user_id: Seq<char>, now_epoch: i64) -> Result<(), Error> {
    match first_present(claims.auth.chatgpt_account_user_id, claims.auth.account_user_id) {
        None => Err(Error::StepUpNoAccountUserId),
        Some(user) => if user != expected_account_user_id {
            Err(Error::StepUpWrongAccount)
        } else if claims.iat > saturating_add_i64(now_epoch, STEP_UP_CLOCK_SKEW_SECONDS)
            || saturating_sub_i64(now_epoch, claims.iat) > STEP_UP_MAX_AGE_SECONDS {
            Err(Error::StepUpNotFresh)
        } else if saturating_sub_i64(saturating_mul_i64(now_epoch, 1000), claims.pwd_auth_time)
            > PASSWORD_MAX_AGE_MILLIS {
            Err(Error::StepUpNoFreshPassword)
        } else if !only_enroll_scope(step_up_scopes(claims)) {
            Err(Error::StepUpUnexpectedScopes)
        } else {
            Ok(())
        },
    }
}

/// Checks the claims of a step-up token.
pub fn validate_step_up_claims(claims: &StepUpClaims, expected_account_user_id: &str, now_epoch: i64) -> (r: Result<(), Error>)
    ensures
        r == step_up_outcome(*claims, expected_account_user_id@, now_epoch),
{
    let user: &String = match &claims.auth.chatgpt_account_user_id {
        Some(u) => u,
        None => match &claims.auth.account_user_id {
            Some(u) => u,
            None => return Err(Error::StepUpNoAccountUserId),
        },
    };
    if !str_eq(user.as_str(), expected_account_user_id) {
        return Err(Error::StepUpWrongAccount);
    }
    if claims.iat > saturating_add(now_epoch, STEP_UP_CLOCK_SKEW_SECONDS) || saturating_sub(
        now_epoch,
        claims.iat,
    ) > STEP_UP_MAX_AGE_SECONDS {
        return Err(Error::StepUpNotFresh);
    }
    if saturating_sub(saturating_mul(now_epoch, 1000), claims.pwd_auth_time)
        > PASSWORD_MAX_AGE_MILLIS {
        return Err(Error::StepUpNoFreshPassword);
    }
    let words: Vec<String> = match &claims.scope {
        Some(s) => {
            let chars = chars_of(s.as_str());
            split_white_space_words(chars.as_slice())
        },
        None => Vec::new(),
    };
    let ghost ws = scope_words(claims.scope);
    assert(words@.len() == ws.len());
    let ghost all = step_up_scopes(*claims);
    assert(all.len() == words@.len() + claims.scp@.len());
    if words.len() == 0 && claims.scp.len() == 0 {
        return Err(Error::StepUpUnexpectedScopes);
    }
    let mut i: usize = 0;
    while i < words.len()
        invariant
            i <= words@.len() == ws.len(),
            all == step_up_scopes(*claims),
            all.len() == words@.len() + claims.scp@.len(),
            all.len() > 0,
            forall|k: int| 0 <= k < words@.len() ==> #[trigger] words@[k]@ == all[k],
            forall|k: int| 0 <= k < i ==> #[trigger] all[k] == ENROLL_SCOPE@,
            step_up_outcome(*claims, expected_account_user_id@, now_epoch) == (if only_enroll_scope(all) {
                Ok::<(), Error>(())
            } else {
                Err(Error::StepUpUnexpectedScopes)
            }),
        decreases words@.len() - i,
    {
        if !str_eq(words[i].as_str(), ENROLL_SCOPE) {
            assert(all[i as int] != ENROLL_SCOPE@);
            return Err(Error::StepUpUnexpectedScopes);
        }
        i += 1;
    }
    let mut j: usize = 0;
    while j < claims.scp.len()
        invariant
            j <= claims.scp@.len(),
            all == step_up_scopes(*claims),
            all.len() == words@.len() + claims.scp@.len(),
            all.len() > 0,
            forall|k: int| 0 <= k < claims.scp@.len() ==> #[trigger] all[words@.len() + k] == claims.scp@[k]@,
            forall|k: int| 0 <= k < words@.len() + j ==> #[trigger] all[k] == ENROLL_SCOPE@,
            step_up_outcome(*claims, expected_account_user_id@, now_epoch) == (if only_enroll_scope(all) {
                Ok::<(), Error>(())
            } else {
                Err(Error::StepUpUnexpectedScopes)
            }),
        decreases claims.scp@.len() - j,
    {
        if !str_eq(claims.scp[j].as_str(), ENROLL_SCOPE) {
            assert(all[words@.len() + j] != ENROLL_SCOPE@);
            return Err(Error::StepUpUnexpectedScopes);
        }
        j += 1;
    }
    Ok(())
}

// ---------------------------------------------------------------------------
// PKCE and the authorization request
// ---------------------------------------------------------------------------

/// The PKCE challenge of a verifier: the URL-safe base64 of its SHA-256.
pub open spec fn pkce_challenge_of(verifier: Seq<char>) -> Seq<char> {
    url_safe_base64(sha256_digest(encode_utf8(verifier)))
}

pub fn pkce_challenge(verifier: &str) -> (r: String)
    ensures
        r@ == pkce_challenge_of(verifier@),
{
    let digest = sha256(verifier.as_bytes());
    base64_url_encode(digest.as_slice())
}

/// `length` random bytes in URL-safe base64.
pub fn random_base64url(length: usize) -> (r: String)
    ensures
        exists|b: Seq<u8>| b.len() == length && r@ == url_safe_base64(b),
{
    let bytes = random_bytes(length);
    let r = base64_url_encode(bytes.as_slice());
    assert(bytes@.len() == length && r@ == url_safe_base64(bytes@));
    r
}

/// A fresh PKCE verifier of 32 random bytes and its challenge.
pub fn pkce_pair() -> (r: (String, String))
    ensures
        exists|b: Seq<u8>| b.len() == 32 && r.0@ == url_safe_base64(b),
        r.1@ == pkce_challenge_of(r.0@),
{
    let verifier = random_base64url(32);
    let challenge = pkce_challenge(verifier.as_str());
    (verifier, challenge)
}

/// The redirect URI of the callback on `port`.
pub open spec fn redirect_uri_text(port: u16) -> Seq<char> {
    "http://localhost:"@ + decimal(port as nat) + CALLBACK_PATH@
}

pub fn redirect_uri(port: u16) -> (r: String)
    ensures
        r@ == redirect_uri_text(port),
{
    let mut s = string_of("http://localhost:");
    push_decimal(&mut s, port as u64);
    push_str(&mut s, CALLBACK_PATH);
    s
}

/// The parameters of the step-up authorization for an account.
pub fn step_up_authorize_params(
    account_id: &str,
    code_challenge: String,
    redirect_uri: String,
    state: String,
) -> (r: OAuthAuthorizeParams)
    ensures
        r.account_id matches Some(a) && a@ == account_id@,
        r.code_challenge@ == code_challenge@,
        r.originator@ == "codex_desktop"@,
        r.redirect_uri@ == redirect_uri@,
        r.state@ == state@,
{
    OAuthAuthorizeParams {
        account_id: Some(string_of(account_id)),
        code_challenge,
        originator: string_of("codex_desktop"),
        redirect_uri,
        state,
    }
}

/// The form that exchanges an authorization code for the step-up token.
pub open spec fn code_exchange_pairs(code: Seq<char>, redirect_uri: Seq<char>, verifier: Seq<char>) -> Seq<(Seq<char>, Seq<char>)> {
    seq![
        ("grant_type"@, "authorization_code"@),
        ("code"@, code),
        ("redirect_uri"@, redirect_uri),
        ("client_id"@, OAUTH_CLIENT_ID@),
        ("code_verifier"@, verifier),
    ]
}

pub fn authorization_code_form(code: &str, redirect_uri: &str, verifier: &str) -> (r: String)
    ensures
        r@ == form_query(code_exchange_pairs(code@, redirect_uri@, verifier@)),
{
    let mut pairs: Vec<(String, String)> = Vec::new();
    pairs.push((string_of("grant_type"), string_of("authorization_code")));
    pairs.push((string_of("code"), string_of(code)));
    pairs.push((string_of("redirect_uri"), string_of(redirect_uri)));
    pairs.push((string_of("client_id"), string_of(OAUTH_CLIENT_ID)));
    pairs.push((string_of("code_verifier"), string_of(verifier)));
    assert(pairs@.map_values(|p: (String, String)| (p.0@, p.1@)) =~= code_exchange_pairs(
        code@,
        redirect_uri@,
        verifier@,
    ));
    form_urlencoded_pairs(&pairs)
}

// ---------------------------------------------------------------------------
// The callback
// ---------------------------------------------------------------------------

/// The first line of a text, as `str::lines().next()` gives it: up to the
/// first line feed, without a carriage return before it; none for an empty
/// text.
pub open spec fn first_line(s: Seq<char>) -> Option<Seq<char>> {
    if s.len() == 0 {
        None
    } else {
        let l = match char_index(s, '\n') {
            Some(i) => s.take(i as int),
            None => s,
        };
        Some(
            if l.len() > 0 && l.last() == '\r' {
                l.drop_last()
            } else {
                l
            },
        )
    }
}

/// The value of the last query pair named `key`: the one that collecting the
/// pairs into a map keeps.
pub open spec fn query_value(pairs: Seq<(Seq<char>, Seq<char>)>, key: Seq<char>) -> Option<Seq<char>>
    decreases pairs.len(),
{
    if pairs.len() == 0 {
        None
    } else if pairs.last().0 == key {
        Some(pairs.last().1)
    } else {
        query_value(pairs.drop_last(), key)
    }
}

/// What one request to the callback means.
pub enum CallbackStepV {
    /// Another path: answer 404 and wait for the next request.
    NotFound,
    /// The state does not match: answer 400 and fail.
    StateMismatch,
    /// The authorization server reports this error: answer 400 and fail.
    AuthorizationFailed(Seq<char>),
    /// Fail without answering.
    Fail(Error),
    /// Fail without answering: the request target is no URL, for the reason
    /// that the `url` crate gives.
    UrlInvalid(Seq<char>),
    /// Answer 200 and finish with this authorization code.
    Complete(Seq<char>),
}

/// What one request to the callback means.
pub enum CallbackStep {
    NotFound,
    StateMismatch,
    AuthorizationFailed(String),
    Fail(Error),
    Complete(String),
}

impl View for CallbackStep {
    type V = CallbackStepV;

    open spec fn view(&self) -> CallbackStepV {
        match self {
            CallbackStep::NotFound => CallbackStepV::NotFound,
            CallbackStep::StateMismatch => CallbackStepV::StateMismatch,
            CallbackStep::AuthorizationFailed(e) => CallbackStepV::AuthorizationFailed(e@),
            CallbackStep::Fail(e) => match e {
                Error::InvalidUrl(t) => CallbackStepV::UrlInvalid(t@),
                _ => CallbackStepV::Fail(*e),
            },
            CallbackStep::Complete(c) => CallbackStepV::Complete(c@),
        }
    }
}

/// The meaning of a request to the callback: its request target, read as a
/// URL on `localhost`, must have the callback path, the expected state, no
/// error and a nonempty code.
pub open spec fn callback_outcome(request: Seq<u8>, expected_state: Seq<char>) -> CallbackStepV {
    if !valid_utf8(request) {
        CallbackStepV::Fail(Error::CallbackNotUtf8)
    } else {
        match first_line(decode_utf8(request)) {
            None => CallbackStepV::Fail(Error::CallbackMalformed),
            Some(line) => {
                let w = white_space_words(line);
                if w.len() < 2 {
                    CallbackStepV::Fail(Error::CallbackMalformed)
                } else {
                    match url_path_query("http://localhost"@ + w[1]) {
                        Err(t) => CallbackStepV::UrlInvalid(t),
                        Ok(pq) => if pq.0 != CALLBACK_PATH@ {
                            CallbackStepV::NotFound
                        } else if query_value(pq.1, "state"@) != Some(expected_state) {
                            CallbackStepV::StateMismatch
                        } else {
                            match query_value(pq.1, "error"@) {
                                Some(e) => CallbackStepV::AuthorizationFailed(e),
                                None => match query_value(pq.1, "code"@) {
                                    Some(c) => if c.len() > 0 {
                                        CallbackStepV::Complete(c)
                                    } else {
                                        CallbackStepV::Fail(Error::CallbackNoCode)
                                    },
                                    None => CallbackStepV::Fail(Error::CallbackNoCode),
                                },
                            }
                        },
                    }
                }
            },
        }
    }
}

fn find_query_value(pairs: &Vec<(String, String)>, key: &str) -> (r: Option<String>)
    ensures
        opt_view(r) == query_value(pairs@.map_values(|q: (String, String)| (q.0@, q.1@)), key@),
{
    let ghost v = pairs@.map_values(|q: (String, String)| (q.0@, q.1@));
    let mut i: usize = pairs.len();
    assert(v.take(v.len() as int) =~= v);
    while i > 0
        invariant
            i <= pairs@.len(),
            v == pairs@.map_values(|q: (String, String)| (q.0@, q.1@)),
            query_value(v, key@) == query_value(v.take(i as int), key@),
        decreases i,
    {
        assert(v.take(i as int).drop_last() =~= v.take(i - 1));
        assert(v.take(i as int).last() == v[i - 1]);
        if str_eq(pairs[i - 1].0.as_str(), key) {
            return Some(pairs[i - 1].1.clone());
        }
        i -= 1;
    }
    None
}

/// What a request to the callback means.
pub fn classify_callback(request: &[u8], expected_state: &str) -> (r: CallbackStep)
    ensures
        r@ == callback_outcome(request@, expected_state@),
{
    let text = match utf8_text(request) {
        Some(t) => t,
        None => return CallbackStep::Fail(Error::CallbackNotUtf8),
    };
    let chars = chars_of(text.as_str());
    if chars.len() == 0 {
        return CallbackStep::Fail(Error::CallbackMalformed);
    }
    assert(chars@.skip(0) =~= chars@);
    let end = match find_char(&chars, 0, '\n') {
        Some(i) => i,
        None => chars.len(),
    };
    let mut line = sub_chars(&chars, 0, end);
    assert(line@ =~= (match char_index(chars@, '\n') {
        Some(i) => chars@.take(i as int),
        None => chars@,
    }));
    if line.len() > 0 && line[line.len() - 1] == '\r' {
        line.pop();
    }
    let words = split_white_space_words(line.as_slice());
    if words.len() < 2 {
        return CallbackStep::Fail(Error::CallbackMalformed);
    }
    let mut target = string_of("http://localhost");
    push_str(&mut target, words[1].as_str());
    let (path, pairs) = match url_path_and_query(target.as_str()) {
        Ok(pq) => pq,
        Err(t) => return CallbackStep::Fail(Error::InvalidUrl(t)),
    };
    if !str_eq(path.as_str(), CALLBACK_PATH) {
        return CallbackStep::NotFound;
    }
    let state = find_query_value(&pairs, "state");
    let state_matches = match &state {
        Some(s) => str_eq(s.as_str(), expected_state),
        None => false,
    };
    if !state_matches {
        return CallbackStep::StateMismatch;
    }
    match find_query_value(&pairs, "error") {
        Some(e) => return CallbackStep::AuthorizationFailed(e),
        None => {},
    }
    match find_query_value(&pairs, "code") {
        Some(c) => if c.as_str().is_empty() {
            CallbackStep::Fail(Error::CallbackNoCode)
        } else {
            CallbackStep::Complete(c)
        },
        None => CallbackStep::Fail(Error::CallbackNoCode),
    }
}

/// The answer that a callback request gets, if any: its status and body.
pub open spec fn callback_reply_of(step: CallbackStepV) -> Option<(u16, Seq<char>)> {
    match step {
        CallbackStepV::NotFound => Some((404u16, "Not found"@)),
        CallbackStepV::StateMismatch => Some((400u16, "Authorization state did not match"@)),
        CallbackStepV::AuthorizationFailed(_) => Some((400u16, "Authorization was not completed"@)),
        CallbackStepV::Fail(_) => None,
        CallbackStepV::UrlInvalid(_) => None,
        CallbackStepV::Complete(_) => Some(
            (200u16, "Remote-control authorization complete. You can close this tab."@),
        ),
    }
}

pub fn callback_reply(step: &CallbackStep) -> (r: Option<(u16, &'static str)>)
    ensures
        match r {
            Some(p) => callback_reply_of(step@) == Some((p.0, p.1@)),
            None => callback_reply_of(step@) is None,
        },
{
    match step {
        CallbackStep::NotFound => Some((404, "Not found")),
        CallbackStep::StateMismatch => Some((400, "Authorization state did not match")),
        CallbackStep::AuthorizationFailed(_) => Some((400, "Authorization was not completed")),
        CallbackStep::Fail(_) => None,
        CallbackStep::Complete(_) => Some(
            (200, "Remote-control authorization complete. You can close this tab."),
        ),
    }
}

/// How the wait for the callback ends after a request: with the code, with
/// an error, or not yet (`None`).
pub fn callback_result(step: CallbackStep) -> (r: Option<Result<String, Error>>)
    ensures
        match step@ {
            CallbackStepV::NotFound => r is None,
            CallbackStepV::StateMismatch => r == Some(Err::<String, Error>(Error::CallbackStateMismatch)),
            CallbackStepV::AuthorizationFailed(e) => r matches Some(Err(Error::CallbackAuthorizationFailed(m))) && m@ == e,
            CallbackStepV::Fail(e) => r == Some(Err::<String, Error>(e)),
            CallbackStepV::UrlInvalid(t) => r matches Some(Err(Error::InvalidUrl(m))) && m@ == t,
            CallbackStepV::Complete(c) => r matches Some(Ok(code)) && code@ == c,
        },
{
    match step {
        CallbackStep::NotFound => None,
        CallbackStep::StateMismatch => Some(Err(Error::CallbackStateMismatch)),
        CallbackStep::AuthorizationFailed(e) => Some(Err(Error::CallbackAuthorizationFailed(e))),
        CallbackStep::Fail(e) => Some(Err(e)),
        CallbackStep::Complete(c) => Some(Ok(c)),
    }
}

/// The reason phrase of a callback answer.
pub open spec fn reason_phrase(status: u16) -> Seq<char> {
    if status == 200 {
        "OK"@
    } else {
        "Bad Request"@
    }
}

/// A plain-text HTTP answer that closes the connection.
pub open spec fn http_response_text(status: u16, body: Seq<char>) -> Seq<char> {
    "HTTP/1.1 "@ + decimal(status as nat) + " "@ + reason_phrase(status)
        + "\r\nContent-Type: text/plain; charset=utf-8\r\nContent-Length: "@ + decimal(
        encode_utf8(body).len(),
    ) + "\r\nConnection: close\r\n\r\n"@ + body
}

pub fn http_response(status: u16, body: &str) -> (r: String)
    ensures
        r@ == http_response_text(status, body@),
{
    let mut s = string_of("HTTP/1.1 ");
    push_decimal(&mut s, status as u64);
    push_str(&mut s, " ");
    if status == 200 {
        push_str(&mut s, "OK");
    } else {
        push_str(&mut s, "Bad Request");
    }
    push_str(&mut s, "\r\nContent-Type: text/plain; charset=utf-8\r\nContent-Length: ");
    push_decimal(&mut s, body.as_bytes().len() as u64);
    push_str(&mut s, "\r\nConnection: close\r\n\r\n");
    push_str(&mut s, body);
    assert(s@ =~= http_response_text(status, body@));
    s
}

} // verus!
