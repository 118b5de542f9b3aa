//! Codex CLI authentication: the checks on the authentication document and
//! its access token, the account identity it carries, and the merge of a
//! token refresh into the document.
use vstd::prelude::*;
use crate::error::{Error, SecretKind};
use crate::json::{
    Json, JsonV, duplicate_entries, entries_view, find_key, insert_entry, insert_member,
    lemma_lookup_insert, lemma_lookup_key_index, lemma_object_view, lookup,
};
use crate::outside::{base64_url_decode, url_safe_base64_decoded};
use crate::protocol::{OAUTH_CLIENT_ID, member, str_member};
use crate::text::{
    char_index, chars_of, find_char, is_well_formed_secret, sub_chars, push_signed_decimal, push_str, secret_well_formed, signed_decimal,
    str_eq, string_from_chars, string_of,
};

verus! {

/// The tokens of the Codex authentication document.
pub struct AuthTokens {
    pub access_token: String,
    pub account_id: Option<String>,
    pub refresh_token: String,
}

/// The parts of the Codex authentication document that are read.
pub struct AuthDocument {
    pub auth_mode: Option<String>,
    pub tokens: Option<AuthTokens>,
}

/// The identity claims of an access token.
pub struct AccessTokenIdentity {
    pub account_id: Option<String>,
    pub account_user_id: Option<String>,
    pub chatgpt_account_id: Option<String>,
    pub chatgpt_account_user_id: Option<String>,
    pub user_id: Option<String>,
}

/// The claims of an access token.
pub struct AccessTokenClaims {
    pub exp: i64,
    pub auth: AccessTokenIdentity,
}

/// The tokens that an OAuth refresh hands back.
#[derive(Clone)]
pub struct RefreshResponse {
    pub access_token: Option<String>,
    pub id_token: Option<String>,
    pub refresh_token: Option<String>,
}

/// ChatGPT authentication of the Codex CLI, with the account it belongs to.
#[derive(Clone)]
pub struct CodexAuth {
    access_token: String,
    account_id: String,
    account_user_id: String,
    auth_user_id: Option<String>,
    expires_at: i64,
    refresh_token: String,
}

pub struct CodexAuthV {
    pub access_token: Seq<char>,
    pub account_id: Seq<char>,
    pub account_user_id: Seq<char>,
    pub auth_user_id: Option<Seq<char>>,
    pub expires_at: i64,
    pub refresh_token: Seq<char>,
}

pub open spec fn opt_view(o: Option<String>) -> Option<Seq<char>> {
    match o {
        Some(s) => Some(s@),
        None => None,
    }
}

impl View for CodexAuth {
    type V = CodexAuthV;

    closed spec fn view(&self) -> CodexAuthV {
        CodexAuthV {
            access_token: self.access_token@,
            account_id: self.account_id@,
            account_user_id: self.account_user_id@,
            auth_user_id: opt_view(self.auth_user_id),
            expires_at: self.expires_at,
            refresh_token: self.refresh_token@,
        }
    }
}

fn copy_opt(o: &Option<String>) -> (r: Option<String>)
    ensures
        opt_view(r) == opt_view(*o),
{
    match o {
        Some(s) => Some(s.clone()),
        None => None,
    }
}

// ---------------------------------------------------------------------------
// Secrets and tokens
// ---------------------------------------------------------------------------

/// What `validate_secret` gives: a refusal naming the secret when it is
/// empty or holds whitespace.
pub open spec fn secret_check(kind: SecretKind, value: Seq<char>) -> Result<(), Error> {
    if secret_well_formed(value) {
        Ok(())
    } else {
        Err(Error::MalformedSecret(kind))
    }
}

/// Refuses a secret that is empty or holds whitespace.
pub fn validate_secret(kind: SecretKind, value: &str) -> (r: Result<(), Error>)
    ensures
        r == secret_check(kind, value@),
{
    if !is_well_formed_secret(value) {
        return Err(Error::MalformedSecret(kind));
    }
    Ok(())
}

/// The second `.`-separated part of a token, as `split('.').nth(1)` gives
/// it, when there is one and it is not empty: the payload of a JWT.
pub open spec fn jwt_payload_text(token: Seq<char>) -> Option<Seq<char>> {
    match char_index(token, '.') {
        None => None,
        Some(d) => {
            let after = token.skip(d + 1int);
            let part = match char_index(after, '.') {
                Some(e) => after.take(e as int),
                None => after,
            };
            if part.len() == 0 {
                None
            } else {
                Some(part)
            }
        },
    }
}

/// The payload part of a JWT.
pub fn jwt_payload(token: &str) -> (r: Option<String>)
    ensures
        opt_view(r) == jwt_payload_text(token@),
{
    let chars = chars_of(token);
    assert(chars@.skip(0) =~= chars@);
    let d = match find_char(&chars, 0, '.') {
        Some(d) => d,
        None => return None,
    };
    let start = d + 1;
    let end = match find_char(&chars, start, '.') {
        Some(e) => e,
        None => chars.len(),
    };
    if end == start {
        return None;
    }
    let part = sub_chars(&chars, start, end);
    proof {
        let after = token@.skip(d + 1int);
        assert(after =~= chars@.skip(start as int));
        match char_index(after, '.') {
            Some(e) => {
                assert(after.take(e as int) =~= part@);
            },
            None => {
                assert(after =~= part@);
            },
        }
    }
    Some(string_from_chars(part.as_slice()))
}

/// What `access_token_payload` gives: the decoded payload of a JWT.
pub open spec fn access_token_payload_outcome(token: Seq<char>) -> Result<Seq<u8>, Error> {
    match jwt_payload_text(token) {
        None => Err(Error::AccessTokenNotJwt),
        Some(p) => match url_safe_base64_decoded(p) {
            None => Err(Error::AccessTokenNotBase64),
            Some(b) => Ok(b),
        },
    }
}

/// The JSON text of the claims of an access token: the URL-safe base64
/// payload of a JWT, decoded.
pub fn access_token_payload(token: &str) -> (r: Result<Vec<u8>, Error>)
    ensures
        match r {
            Ok(b) => access_token_payload_outcome(token@) == Ok::<Seq<u8>, Error>(b@),
            Err(e) => access_token_payload_outcome(token@) == Err::<Seq<u8>, Error>(e),
        },
{
    let payload = match jwt_payload(token) {
        Some(p) => p,
        None => return Err(Error::AccessTokenNotJwt),
    };
    match base64_url_decode(payload.as_str()) {
        Some(b) => Ok(b),
        None => Err(Error::AccessTokenNotBase64),
    }
}

// ---------------------------------------------------------------------------
// The authentication document
// ---------------------------------------------------------------------------

/// The tokens of a document that uses ChatGPT authentication, with
/// well-formed access and refresh tokens.
pub open spec fn document_check(document: AuthDocument) -> Result<(), Error> {
    if opt_view(document.auth_mode) != Some("chatgpt"@) {
        Err(Error::NotChatGptAuth)
    } else {
        match document.tokens {
            None => Err(Error::AuthHasNoTokens),
            Some(t) => if !secret_well_formed(t.access_token@) {
                Err(Error::MalformedSecret(SecretKind::AccessToken))
            } else if !secret_well_formed(t.refresh_token@) {
                Err(Error::MalformedSecret(SecretKind::RefreshToken))
            } else {
                Ok(())
            },
        }
    }
}

/// Checks that a document uses ChatGPT authentication and holds
/// well-formed access and refresh tokens, and gives its tokens.
pub fn auth_document_tokens(document: &AuthDocument) -> (r: Result<&AuthTokens, Error>)
    ensures
        match r {
            Ok(t) => document_check(*document) is Ok && document.tokens == Some(*t),
            Err(e) => document_check(*document) == Err::<(), Error>(e),
        },
{
    let chatgpt = match &document.auth_mode {
        Some(m) => str_eq(m.as_str(), "chatgpt"),
        None => false,
    };
    if !chatgpt {
        return Err(Error::NotChatGptAuth);
    }
    let tokens = match &document.tokens {
        Some(t) => t,
        None => return Err(Error::AuthHasNoTokens),
    };
    validate_secret(SecretKind::AccessToken, tokens.access_token.as_str())?;
    validate_secret(SecretKind::RefreshToken, tokens.refresh_token.as_str())?;
    Ok(tokens)
}

/// The first of two optional values that is present.
pub open spec fn first_present(a: Option<String>, b: Option<String>) -> Option<Seq<char>> {
    match a {
        Some(x) => Some(x@),
        None => opt_view(b),
    }
}

/// The authentication that a document's tokens and the claims of its access
/// token give: the account ID of the claims, which the tokens must repeat if
/// they name one, and the account user ID of the claims.
pub open spec fn auth_from_claims(tokens: AuthTokens, claims: AccessTokenClaims) -> Result<
    CodexAuthV,
    Error,
> {
    match first_present(claims.auth.chatgpt_account_id, claims.auth.account_id) {
        None => Err(Error::NoAccountId),
        Some(claim_account) => {
            let account = match tokens.account_id {
                Some(a) => a@,
                None => claim_account,
            };
            if account != claim_account {
                Err(Error::AccountIdMismatch)
            } else {
                match first_present(
                    claims.auth.chatgpt_account_user_id,
                    claims.auth.account_user_id,
                ) {
                    None => Err(Error::NoAccountUserId),
                    Some(user) => Ok(
                        CodexAuthV {
                            access_token: tokens.access_token@,
                            account_id: account,
                            account_user_id: user,
                            auth_user_id: opt_view(claims.auth.user_id),
                            expires_at: claims.exp,
                            refresh_token: tokens.refresh_token@,
                        },
                    ),
                }
            }
        },
    }
}

fn first_present_exec(a: &Option<String>, b: &Option<String>) -> (r: Option<String>)
    ensures
        opt_view(r) == first_present(*a, *b),
{
    match a {
        Some(x) => Some(x.clone()),
        None => copy_opt(b),
    }
}

impl CodexAuth {
    /// The authentication that `tokens` and the claims of their access token
    /// give.
    pub fn from_claims(tokens: &AuthTokens, claims: &AccessTokenClaims) -> (r: Result<CodexAuth, Error>)
        ensures
            match r {
                Ok(a) => auth_from_claims(*tokens, *claims) == Ok::<CodexAuthV, Error>(a@),
                Err(e) => auth_from_claims(*tokens, *claims) == Err::<CodexAuthV, Error>(e),
            },
    {
        let claim_account_id = match first_present_exec(
            &claims.auth.chatgpt_account_id,
            &claims.auth.account_id,
        ) {
            Some(a) => a,
            None => return Err(Error::NoAccountId),
        };
        let account_id = match &tokens.account_id {
            Some(a) => a.clone(),
            None => claim_account_id.clone(),
        };
        if !str_eq(account_id.as_str(), claim_account_id.as_str()) {
            return Err(Error::AccountIdMismatch);
        }
        let account_user_id = match first_present_exec(
            &claims.auth.chatgpt_account_user_id,
            &claims.auth.account_user_id,
        ) {
            Some(u) => u,
            None => return Err(Error::NoAccountUserId),
        };
        Ok(
            CodexAuth {
                access_token: tokens.access_token.clone(),
                account_id,
                account_user_id,
                auth_user_id: copy_opt(&claims.auth.user_id),
                expires_at: claims.exp,
                refresh_token: tokens.refresh_token.clone(),
            },
        )
    }

    pub fn access_token(&self) -> (r: &str)
        ensures
            r@ == self@.access_token,
    {
        self.access_token.as_str()
    }

    pub fn account_id(&self) -> (r: &str)
        ensures
            r@ == self@.account_id,
    {
        self.account_id.as_str()
    }

    pub fn account_user_id(&self) -> (r: &str)
        ensures
            r@ == self@.account_user_id,
    {
        self.account_user_id.as_str()
    }

    /// Whether the relay's account user ID names this account: its account
    /// user ID or its user ID.
    pub fn matches_relay_account_user_id(&self, candidate: &str) -> (r: bool)
        ensures
            r == (candidate@ == self@.account_user_id || self@.auth_user_id == Some(candidate@)),
    {
        if str_eq(candidate, self.account_user_id.as_str()) {
            return true;
        }
        match &self.auth_user_id {
            Some(id) => str_eq(candidate, id.as_str()),
            None => false,
        }
    }

    pub fn expires_at(&self) -> (r: i64)
        ensures
            r == self@.expires_at,
    {
        self.expires_at
    }

    /// Whether the access token expires within five minutes of `now_epoch`.
    pub fn needs_refresh(&self, now_epoch: i64) -> (r: bool)
        ensures
            r == (self@.expires_at <= saturating_add_i64(now_epoch, REFRESH_MARGIN_SECONDS)),
    {
        let deadline: i64 = if now_epoch > i64::MAX - REFRESH_MARGIN_SECONDS {
            i64::MAX
        } else {
            now_epoch + REFRESH_MARGIN_SECONDS
        };
        self.expires_at <= deadline
    }

    /// The account ID and the expiry, without the tokens.
    pub fn describe(&self) -> (r: String)
        ensures
            r@ == "ChatGPT auth for account "@ + self@.account_id + " (expires "@ + signed_decimal(
                self@.expires_at as int,
            ) + ")"@,
    {
        let mut s = string_of("ChatGPT auth for account ");
        push_str(&mut s, self.account_id.as_str());
        push_str(&mut s, " (expires ");
        push_signed_decimal(&mut s, self.expires_at);
        push_str(&mut s, ")");
        s
    }
}

/// How long before its expiry an access token is refreshed.
pub const REFRESH_MARGIN_SECONDS: i64 = 300;

/// `i64::saturating_add`.
pub open spec fn saturating_add_i64(a: i64, b: i64) -> i64 {
    if a + b > i64::MAX {
        i64::MAX
    } else if a + b < i64::MIN {
        i64::MIN
    } else {
        (a + b) as i64
    }
}

// ---------------------------------------------------------------------------
// Token refresh
// ---------------------------------------------------------------------------

/// The body of an OAuth refresh request.
pub open spec fn refresh_request_value(auth: CodexAuthV) -> JsonV {
    JsonV::Obj(
        seq![
            str_member("client_id"@, OAUTH_CLIENT_ID@),
            str_member("grant_type"@, "refresh_token"@),
            str_member("refresh_token"@, auth.refresh_token),
        ],
    )
}

/// The body of an OAuth refresh request for `auth`'s refresh token.
pub fn build_refresh_request(auth: &CodexAuth) -> (r: Json)
    ensures
        r@ == refresh_request_value(auth@),
{
    let mut e: Vec<(String, Json)> = Vec::new();
    e.push(member("client_id", Json::string(OAUTH_CLIENT_ID)));
    e.push(member("grant_type", Json::string("refresh_token")));
    e.push(member("refresh_token", Json::string(auth.refresh_token.as_str())));
    proof {
        lemma_object_view(e);
        assert(entries_view(e@) =~= refresh_request_value(auth@)->Obj_0);
    }
    Json::Object(e)
}

/// A refreshed token: checked and stored under `key` when present.
pub open spec fn token_step(
    tokens: Seq<(Seq<char>, JsonV)>,
    kind: SecretKind,
    key: Seq<char>,
    value: Option<String>,
) -> Result<Seq<(Seq<char>, JsonV)>, Error> {
    match value {
        None => Ok(tokens),
        Some(v) => if !secret_well_formed(v@) {
            Err(Error::MalformedSecret(kind))
        } else {
            Ok(insert_entry(tokens, key, JsonV::Str(v@)))
        },
    }
}

/// The refreshed access token: checked, its payload decoded and its claims
/// read (`claims_parse` says whether they parse), and stored.
pub open spec fn access_token_step(
    tokens: Seq<(Seq<char>, JsonV)>,
    value: Option<String>,
    claims_parse: bool,
) -> Result<Seq<(Seq<char>, JsonV)>, Error> {
    match value {
        None => Ok(tokens),
        Some(v) => if !secret_well_formed(v@) {
            Err(Error::MalformedSecret(SecretKind::RefreshedAccessToken))
        } else {
            match access_token_payload_outcome(v@) {
                Err(e) => Err(e),
                Ok(_) => if !claims_parse {
                    Err(Error::AccessTokenClaimsInvalid)
                } else {
                    Ok(insert_entry(tokens, "access_token"@, JsonV::Str(v@)))
                },
            }
        },
    }
}

/// What `merge_refresh_response` gives: the document with the refreshed
/// tokens stored in its `tokens` object and `last_refresh` set, every other
/// member kept.
pub open spec fn merge_outcome(
    document: JsonV,
    response: RefreshResponse,
    refreshed_at: Seq<char>,
    claims_parse: bool,
) -> Result<JsonV, Error> {
    match document {
        JsonV::Obj(entries) => match lookup(entries, "tokens"@) {
            Some(JsonV::Obj(tokens)) => match access_token_step(
                tokens,
                response.access_token,
                claims_parse,
            ) {
                Err(e) => Err(e),
                Ok(t1) => match token_step(
                    t1,
                    SecretKind::RefreshedIdToken,
                    "id_token"@,
                    response.id_token,
                ) {
                    Err(e) => Err(e),
                    Ok(t2) => match token_step(
                        t2,
                        SecretKind::RotatedRefreshToken,
                        "refresh_token"@,
                        response.refresh_token,
                    ) {
                        Err(e) => Err(e),
                        Ok(t3) => Ok(
                            JsonV::Obj(
                                insert_entry(
                                    insert_entry(entries, "tokens"@, JsonV::Obj(t3)),
                                    "last_refresh"@,
                                    JsonV::Str(refreshed_at),
                                ),
                            ),
                        ),
                    },
                },
            },
            _ => Err(Error::AuthDocumentHasNoTokens),
        },
        _ => Err(Error::AuthDocumentNotObject),
    }
}

fn store_token(tokens: &mut Vec<(String, Json)>, kind: SecretKind, key: &str, value: Option<String>) -> (r: Result<(), Error>)
    ensures
        match token_step(entries_view(old(tokens)@), kind, key@, value) {
            Ok(t) => r is Ok && entries_view(final(tokens)@) == t,
            Err(e) => r == Err::<(), Error>(e),
        },
{
    match value {
        None => Ok(()),
        Some(v) => {
            validate_secret(kind, v.as_str())?;
            insert_member(tokens, string_of(key), Json::String(v));
            Ok(())
        },
    }
}

/// Stores the tokens of an OAuth refresh in the Codex authentication
/// document and records when the refresh happened.  `refreshed_claims_parse`
/// says whether the claims of the refreshed access token parse.
pub fn merge_refresh_response(
    document: Json,
    response: RefreshResponse,
    refreshed_at: &str,
    refreshed_claims_parse: bool,
) -> (r: Result<Json, Error>)
    ensures
        match r {
            Ok(d) => merge_outcome(document@, response, refreshed_at@, refreshed_claims_parse)
                == Ok::<JsonV, Error>(d@),
            Err(e) => merge_outcome(document@, response, refreshed_at@, refreshed_claims_parse)
                == Err::<JsonV, Error>(e),
        },
{
    let ghost dv = document@;
    let ghost rv = response;
    let mut entries = match document {
        Json::Object(e) => e,
        _ => return Err(Error::AuthDocumentNotObject),
    };
    proof {
        lemma_object_view(entries);
        lemma_lookup_key_index(entries_view(entries@), "tokens"@);
    }
    let ghost ev = entries_view(entries@);
    let idx = match find_key(&entries, "tokens") {
        Some(i) => i,
        None => return Err(Error::AuthDocumentHasNoTokens),
    };
    assert(ev[idx as int].1 == entries@[idx as int].1@);
    let mut tokens = match &entries[idx].1 {
        Json::Object(t) => {
            proof {
                lemma_object_view(*t);
            }
            duplicate_entries(t)
        },
        _ => return Err(Error::AuthDocumentHasNoTokens),
    };
    let RefreshResponse { access_token, id_token, refresh_token } = response;
    match access_token {
        Some(t) => {
            validate_secret(SecretKind::RefreshedAccessToken, t.as_str())?;
            access_token_payload(t.as_str())?;
            if !refreshed_claims_parse {
                return Err(Error::AccessTokenClaimsInvalid);
            }
            insert_member(&mut tokens, string_of("access_token"), Json::String(t));
        },
        None => {},
    }
    store_token(&mut tokens, SecretKind::RefreshedIdToken, "id_token", id_token)?;
    store_token(&mut tokens, SecretKind::RotatedRefreshToken, "refresh_token", refresh_token)?;
    let ghost tv = entries_view(tokens@);
    let token_object = Json::Object(tokens);
    proof {
        lemma_object_view(tokens);
    }
    insert_member(&mut entries, string_of("tokens"), token_object);
    insert_member(&mut entries, string_of("last_refresh"), Json::string(refreshed_at));
    proof {
        lemma_object_view(entries);
    }
    Ok(Json::Object(entries))
}

// ---------------------------------------------------------------------------
// Laws
// ---------------------------------------------------------------------------

/// The members of a document's `tokens` object.
pub open spec fn token_members(document: JsonV) -> Seq<(Seq<char>, JsonV)> {
    match document {
        JsonV::Obj(entries) => match lookup(entries, "tokens"@) {
            Some(JsonV::Obj(t)) => t,
            _ => Seq::empty(),
        },
        _ => Seq::empty(),
    }
}

/// The names of the tokens that a refresh may replace.
pub open spec fn is_refreshed_token(k: Seq<char>) -> bool {
    k == "access_token"@ || k == "id_token"@ || k == "refresh_token"@
}

/// What a refreshed token leaves under its name.
pub open spec fn stored_token(before: Option<JsonV>, refreshed: Option<String>) -> Option<JsonV> {
    match refreshed {
        Some(v) => Some(JsonV::Str(v@)),
        None => before,
    }
}

proof fn lemma_token_step_lookup(
    tokens: Seq<(Seq<char>, JsonV)>,
    kind: SecretKind,
    key: Seq<char>,
    value: Option<String>,
    k: Seq<char>,
)
    ensures
        token_step(tokens, kind, key, value) matches Ok(t) ==> lookup(t, k) == (if k == key {
            stored_token(lookup(tokens, k), value)
        } else {
            lookup(tokens, k)
        }),
{
    match value {
        Some(v) => lemma_lookup_insert(tokens, key, JsonV::Str(v@), k),
        None => {},
    }
}

/// A token refresh changes nothing but the tokens it brings and the time of
/// the refresh: every other member of the document, and every other member
/// of its `tokens` object, reads as before; each refreshed token is stored
/// under its name; `last_refresh` reads the time of the refresh.
pub proof fn lemma_refresh_keeps_other_members(
    document: JsonV,
    response: RefreshResponse,
    refreshed_at: Seq<char>,
    claims_parse: bool,
    k: Seq<char>,
)
    ensures
        merge_outcome(document, response, refreshed_at, claims_parse) matches Ok(merged) ==> {
            &&& merged is Obj
            &&& document is Obj
            &&& (k != "tokens"@ && k != "last_refresh"@) ==> lookup(merged->Obj_0, k) == lookup(
                document->Obj_0,
                k,
            )
            &&& lookup(merged->Obj_0, "last_refresh"@) == Some(JsonV::Str(refreshed_at))
            &&& !is_refreshed_token(k) ==> lookup(token_members(merged), k) == lookup(
                token_members(document),
                k,
            )
            &&& lookup(token_members(merged), "access_token"@) == stored_token(
                lookup(token_members(document), "access_token"@),
                response.access_token,
            )
            &&& lookup(token_members(merged), "id_token"@) == stored_token(
                lookup(token_members(document), "id_token"@),
                response.id_token,
            )
            &&& lookup(token_members(merged), "refresh_token"@) == stored_token(
                lookup(token_members(document), "refresh_token"@),
                response.refresh_token,
            )
        },
{
    reveal_strlit("tokens");
    reveal_strlit("last_refresh");
    reveal_strlit("access_token");
    reveal_strlit("id_token");
    reveal_strlit("refresh_token");
    match merge_outcome(document, response, refreshed_at, claims_parse) {
        Ok(merged) => {
            let entries = document->Obj_0;
            let tokens = lookup(entries, "tokens"@)->Some_0->Obj_0;
            let t1 = access_token_step(tokens, response.access_token, claims_parse)->Ok_0;
            let t2 = token_step(t1, SecretKind::RefreshedIdToken, "id_token"@, response.id_token)->Ok_0;
            let t3 = token_step(t2, SecretKind::RotatedRefreshToken, "refresh_token"@, response.refresh_token)->Ok_0;
            let with_tokens = insert_entry(entries, "tokens"@, JsonV::Obj(t3));
            lemma_lookup_insert(entries, "tokens"@, JsonV::Obj(t3), k);
            lemma_lookup_insert(with_tokens, "last_refresh"@, JsonV::Str(refreshed_at), k);
            lemma_lookup_insert(with_tokens, "last_refresh"@, JsonV::Str(refreshed_at), "tokens"@);
            assert(token_members(merged) == t3);
            assert(token_members(document) == tokens);
            let names = seq![k, "access_token"@, "id_token"@, "refresh_token"@];
            assert forall|x: int| 0 <= x < 4 implies ({
                let n = #[trigger] names[x];
                &&& lookup(t1, n) == (if n == "access_token"@ {
                    stored_token(lookup(tokens, n), response.access_token)
                } else {
                    lookup(tokens, n)
                })
                &&& lookup(t2, n) == (if n == "id_token"@ {
                    stored_token(lookup(t1, n), response.id_token)
                } else {
                    lookup(t1, n)
                })
                &&& lookup(t3, n) == (if n == "refresh_token"@ {
                    stored_token(lookup(t2, n), response.refresh_token)
                } else {
                    lookup(t2, n)
                })
            }) by {
                let n = names[x];
                match response.access_token {
                    Some(v) => lemma_lookup_insert(tokens, "access_token"@, JsonV::Str(v@), n),
                    None => {},
                }
                lemma_token_step_lookup(t1, SecretKind::RefreshedIdToken, "id_token"@, response.id_token, n);
                lemma_token_step_lookup(t2, SecretKind::RotatedRefreshToken, "refresh_token"@, response.refresh_token, n);
            }
            assert(names[0] == k);
            assert(names[1] == "access_token"@);
            assert(names[2] == "id_token"@);
            assert(names[3] == "refresh_token"@);
        },
        Err(_) => {},
    }
}

} // verus!
