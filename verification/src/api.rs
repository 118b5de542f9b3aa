//! The relay's HTTP API as the controller uses it: the hosts it lists, the
//! bodies and paths of its requests, and when a request is retried.
use vstd::prelude::*;
use crate::error::{lemma_url_error, same_error, url_error, Error};
use crate::json::{Json, JsonV, entries_view, lemma_object_view};
use crate::outside::{
    duration_from_millis, duration_from_secs, duration_of_millis, duration_of_secs,
    form_component, form_query, form_urlencode, form_urlencoded_pairs, url_path_with_segment,
    url_push_path_segment,
};
use crate::protocol::{member, str_member};
use crate::text::{
    ascii_upper, chars_of, is_ascii_alphanumeric, is_ascii_alphanumeric_char, is_ascii_space,
    is_ascii_space_char, parse_decimal_u64, parse_u64, push_char, push_str, string_from_chars,
    string_of, to_ascii_upper, trim, trimmed,
};

verus! {

/// A Codex host paired with the account, as the relay lists it.
#[derive(Clone)]
pub struct RemoteEnvironment {
    pub app_server_version: Option<String>,
    pub arch: Option<String>,
    pub busy: bool,
    pub client_type: Option<String>,
    pub display_name: Option<String>,
    pub env_id: String,
    pub host_name: Option<String>,
    pub installation_id: Option<String>,
    pub kind: Option<String>,
    pub last_seen_at: Option<String>,
    pub name: Option<String>,
    pub online: bool,
    pub os: Option<String>,
}

/// One page of hosts.
pub struct EnvironmentList {
    pub cursor: Option<String>,
    pub items: Vec<RemoteEnvironment>,
}

pub open spec fn str_opt_view(o: Option<&str>) -> Option<Seq<char>> {
    match o {
        Some(s) => Some(s@),
        None => None,
    }
}

pub open spec fn string_opt_view(o: Option<String>) -> Option<Seq<char>> {
    match o {
        Some(s) => Some(s@),
        None => None,
    }
}

/// The first value that is present and not blank, or the empty string.
pub open spec fn first_nonempty_of(values: Seq<Option<Seq<char>>>) -> Seq<char>
    decreases values.len(),
{
    if values.len() == 0 {
        Seq::empty()
    } else {
        match values[0] {
            Some(v) => if trimmed(v).len() > 0 {
                v
            } else {
                first_nonempty_of(values.drop_first())
            },
            None => first_nonempty_of(values.drop_first()),
        }
    }
}

/// The first value that is present and not blank, or `""`.
pub fn first_nonempty<'a, const N: usize>(values: [Option<&'a str>; N]) -> (r: &'a str)
    ensures
        r@ == first_nonempty_of(values@.map_values(|o: Option<&'a str>| str_opt_view(o))),
{
    let ghost vs = values@.map_values(|o: Option<&'a str>| str_opt_view(o));
    let mut i: usize = 0;
    assert(vs.skip(0) =~= vs);
    while i < N
        invariant
            i <= N,
            N == values@.len(),
            vs == values@.map_values(|o: Option<&'a str>| str_opt_view(o)),
            first_nonempty_of(vs) == first_nonempty_of(vs.skip(i as int)),
        decreases N - i,
    {
        assert(vs.skip(i as int).drop_first() =~= vs.skip(i + 1));
        assert(vs.skip(i as int)[0] == str_opt_view(values@[i as int]));
        match values[i] {
            Some(v) => {
                let t = trim(v);
                if !t.as_str().is_empty() {
                    return v;
                }
            },
            None => {},
        }
        i += 1;
    }
    proof {
        reveal_strlit("");
        assert(vs.skip(i as int).len() == 0);
        assert(""@ =~= first_nonempty_of(vs.skip(i as int)));
    }
    ""
}

fn opt_str(o: &Option<String>) -> (r: Option<&str>)
    ensures
        str_opt_view(r) == string_opt_view(*o),
{
    match o {
        Some(s) => Some(s.as_str()),
        None => None,
    }
}

impl RemoteEnvironment {
    /// The name shown for the host: its display name, name, host name or ID,
    /// whichever comes first and is not blank.
    pub open spec fn spec_display_name(self) -> Seq<char> {
        first_nonempty_of(
            seq![
                string_opt_view(self.display_name),
                string_opt_view(self.name),
                string_opt_view(self.host_name),
                Some(self.env_id@),
            ],
        )
    }

    /// The host's machine name: its host name, name, display name or ID,
    /// whichever comes first and is not blank.
    pub open spec fn spec_host_name(self) -> Seq<char> {
        first_nonempty_of(
            seq![
                string_opt_view(self.host_name),
                string_opt_view(self.name),
                string_opt_view(self.display_name),
                Some(self.env_id@),
            ],
        )
    }

    pub fn display_name(&self) -> (r: &str)
        ensures
            r@ == self.spec_display_name(),
    {
        let values: [Option<&str>; 4] = [
            opt_str(&self.display_name),
            opt_str(&self.name),
            opt_str(&self.host_name),
            Some(self.env_id.as_str()),
        ];
        proof {
            assert(values@.map_values(|o: Option<&str>| str_opt_view(o)) =~= seq![
                string_opt_view(self.display_name),
                string_opt_view(self.name),
                string_opt_view(self.host_name),
                Some(self.env_id@),
            ]);
        }
        first_nonempty(values)
    }

    pub fn host_name(&self) -> (r: &str)
        ensures
            r@ == self.spec_host_name(),
    {
        let values: [Option<&str>; 4] = [
            opt_str(&self.host_name),
            opt_str(&self.name),
            opt_str(&self.display_name),
            Some(self.env_id.as_str()),
        ];
        proof {
            assert(values@.map_values(|o: Option<&str>| str_opt_view(o)) =~= seq![
                string_opt_view(self.host_name),
                string_opt_view(self.name),
                string_opt_view(self.display_name),
                Some(self.env_id@),
            ]);
        }
        first_nonempty(values)
    }
}

// ---------------------------------------------------------------------------
// Pairing and revocation
// ---------------------------------------------------------------------------

/// The characters of a pairing code that count: everything but ASCII
/// whitespace and `-`, in upper case.
pub open spec fn compact_code(code: Seq<char>) -> Seq<char>
    decreases code.len(),
{
    if code.len() == 0 {
        Seq::empty()
    } else {
        let rest = compact_code(code.drop_last());
        let c = code.last();
        if is_ascii_space(c) || c == '-' {
            rest
        } else {
            rest.push(ascii_upper(c))
        }
    }
}

/// A pairing code is eight ASCII letters or digits once compacted.
pub open spec fn pairing_code_valid(compact: Seq<char>) -> bool {
    compact.len() == 8 && forall|i: int| 0 <= i < 8 ==> is_ascii_alphanumeric_char(#[trigger] compact[i])
}

/// The body of a manual pairing request.
pub open spec fn pairing_body_value(client_id: Seq<char>, compact: Seq<char>) -> JsonV {
    JsonV::Obj(
        seq![
            str_member("client_id"@, client_id),
            str_member("manual_pairing_code"@, compact.take(4) + seq!['-'] + compact.skip(4)),
        ],
    )
}

/// What `build_manual_pairing_body` gives.
pub open spec fn pairing_outcome(client_id: Seq<char>, code: Seq<char>) -> Result<JsonV, Error> {
    if trimmed(client_id).len() == 0 {
        Err(Error::EmptyClientId)
    } else if !pairing_code_valid(compact_code(code)) {
        Err(Error::InvalidPairingCode)
    } else {
        Ok(pairing_body_value(client_id, compact_code(code)))
    }
}

fn compact_pairing_code(code: &str) -> (r: Vec<char>)
    ensures
        r@ == compact_code(code@),
{
    let chars = chars_of(code);
    let mut out: Vec<char> = Vec::new();
    let mut i: usize = 0;
    while i < chars.len()
        invariant
            i <= chars@.len(),
            chars@ == code@,
            out@ == compact_code(chars@.take(i as int)),
        decreases chars@.len() - i,
    {
        let c = chars[i];
        assert(chars@.take(i + 1).drop_last() =~= chars@.take(i as int));
        if !is_ascii_space_char(c) && c != '-' {
            out.push(to_ascii_upper(c));
        }
        i += 1;
    }
    assert(chars@.take(i as int) =~= chars@);
    out
}

/// The body of a manual pairing request: the client and the pairing code
/// written as two groups of four characters.
pub fn build_manual_pairing_body(client_id: &str, manual_pairing_code: &str) -> (r: Result<Json, Error>)
    ensures
        match r {
            Ok(b) => pairing_outcome(client_id@, manual_pairing_code@) == Ok::<JsonV, Error>(b@),
            Err(e) => pairing_outcome(client_id@, manual_pairing_code@) == Err::<JsonV, Error>(e),
        },
{
    if trim(client_id).as_str().is_empty() {
        return Err(Error::EmptyClientId);
    }
    let compact = compact_pairing_code(manual_pairing_code);
    if compact.len() != 8 {
        return Err(Error::InvalidPairingCode);
    }
    let mut k: usize = 0;
    while k < 8
        invariant
            k <= 8,
            compact@.len() == 8,
            compact@ == compact_code(manual_pairing_code@),
            trimmed(client_id@).len() != 0,
            forall|m: int| 0 <= m < k ==> is_ascii_alphanumeric_char(#[trigger] compact@[m]),
        decreases 8 - k,
    {
        if !is_ascii_alphanumeric(compact[k]) {
            assert(!is_ascii_alphanumeric_char(compact@[k as int]));
            assert(!pairing_code_valid(compact@));
            return Err(Error::InvalidPairingCode);
        }
        k += 1;
    }
    let mut formatted: Vec<char> = Vec::new();
    let mut j: usize = 0;
    while j < 8
        invariant
            j <= 8,
            compact@.len() == 8,
            formatted@ == (if j <= 4 {
                compact@.take(j as int)
            } else {
                compact@.take(4) + seq!['-'] + compact@.subrange(4, j as int)
            }),
        decreases 8 - j,
    {
        if j == 4 {
            formatted.push('-');
        }
        formatted.push(compact[j]);
        proof {
            if j < 4 {
                assert(compact@.take(j + 1) =~= compact@.take(j as int).push(compact@[j as int]));
            } else {
                assert(compact@.take(4) + seq!['-'] + compact@.subrange(4, j + 1) =~= (if j == 4 {
                    compact@.take(4) + seq!['-']
                } else {
                    compact@.take(4) + seq!['-'] + compact@.subrange(4, j as int)
                }).push(compact@[j as int]));
            }
        }
        j += 1;
    }
    assert(compact@.subrange(4, 8) =~= compact@.skip(4));
    let code_text = string_from_chars(formatted.as_slice());
    let mut e: Vec<(String, Json)> = Vec::new();
    e.push(member("client_id", Json::string(client_id)));
    e.push(member("manual_pairing_code", Json::String(code_text)));
    proof {
        lemma_object_view(e);
        assert(entries_view(e@) =~= pairing_body_value(client_id@, compact@)->Obj_0);
    }
    Ok(Json::Object(e))
}

/// The collection that client revocation paths are built under.
pub const CLIENTS_URL: &'static str = "https://chatgpt.invalid/wham/remote/control/clients/";

/// What `client_revocation_path` gives: the path of the clients collection
/// with the client ID pushed as one percent-encoded segment.
pub open spec fn revocation_outcome(client_id: Seq<char>) -> Result<Seq<char>, Error> {
    if trimmed(client_id).len() == 0 {
        Err(Error::EmptyClientId)
    } else {
        match url_path_with_segment(CLIENTS_URL@, client_id) {
            Ok(p) => Ok(p),
            Err(Some(text)) => Err(url_error(text)),
            Err(None) => Err(Error::InvalidRevocationPath),
        }
    }
}

/// The API path that revokes a client: the client ID is one path segment,
/// whatever characters it holds.
pub fn client_revocation_path(client_id: &str) -> (r: Result<String, Error>)
    ensures
        match r {
            Ok(p) => revocation_outcome(client_id@) == Ok::<Seq<char>, Error>(p@),
            Err(e) => revocation_outcome(client_id@) is Err && same_error(
                e,
                revocation_outcome(client_id@)->Err_0,
            ),
        },
{
    if trim(client_id).as_str().is_empty() {
        return Err(Error::EmptyClientId);
    }
    match url_push_path_segment(CLIENTS_URL, client_id) {
        Ok(p) => Ok(p),
        Err(Some(text)) => {
            proof {
                lemma_url_error(text);
            }
            Err(Error::InvalidUrl(text))
        },
        Err(None) => Err(Error::InvalidRevocationPath),
    }
}

// ---------------------------------------------------------------------------
// Listing hosts
// ---------------------------------------------------------------------------

/// The number of hosts asked for per page.
pub const ENVIRONMENT_PAGE_LIMIT: &'static str = "100";

/// The query of one page of hosts: the limit and, after the first page, the
/// cursor.
pub open spec fn environment_query_pairs(cursor: Option<Seq<char>>) -> Seq<(Seq<char>, Seq<char>)> {
    match cursor {
        Some(c) => seq![("limit"@, ENVIRONMENT_PAGE_LIMIT@), ("cursor"@, c)],
        None => seq![("limit"@, ENVIRONMENT_PAGE_LIMIT@)],
    }
}

/// The API path of one page of hosts, for all hosts of the account or for
/// those paired with one client.
pub open spec fn environment_list_path_text(client_id: Option<Seq<char>>, cursor: Option<Seq<char>>) -> Seq<char> {
    let root = match client_id {
        Some(c) => "/codex/remote/control/clients/"@ + form_component(c) + "/environments"@,
        None => "/codex/remote/control/environments"@,
    };
    root + "?"@ + form_query(environment_query_pairs(cursor))
}

/// The API path of one page of hosts.
pub fn environment_list_path(client_id: Option<&str>, cursor: Option<&str>) -> (r: String)
    ensures
        r@ == environment_list_path_text(str_opt_view(client_id), str_opt_view(cursor)),
{
    let mut path = match client_id {
        Some(c) => {
            let mut p = string_of("/codex/remote/control/clients/");
            let encoded = form_urlencode(c);
            push_str(&mut p, encoded.as_str());
            push_str(&mut p, "/environments");
            p
        },
        None => string_of("/codex/remote/control/environments"),
    };
    let mut pairs: Vec<(String, String)> = Vec::new();
    pairs.push((string_of("limit"), string_of(ENVIRONMENT_PAGE_LIMIT)));
    match cursor {
        Some(c) => pairs.push((string_of("cursor"), string_of(c))),
        None => {},
    }
    assert(pairs@.map_values(|p: (String, String)| (p.0@, p.1@)) =~= environment_query_pairs(
        str_opt_view(cursor),
    ));
    let query = form_urlencoded_pairs(&pairs);
    push_str(&mut path, "?");
    push_str(&mut path, query.as_str());
    path
}

// ---------------------------------------------------------------------------
// Retrying requests
// ---------------------------------------------------------------------------

/// The longest wait that a `Retry-After` header can ask for, in seconds.
pub const MAX_RETRY_AFTER_SECONDS: u64 = 30;

/// What `parse_retry_after` gives: a delay of the header's seconds, at most
/// thirty, when the trimmed header is a `u64`.
pub open spec fn retry_after_outcome(value: Seq<char>) -> Option<core::time::Duration> {
    match parse_u64(trimmed(value)) {
        Some(n) => Some(
            duration_of_secs(
                if n < MAX_RETRY_AFTER_SECONDS {
                    n
                } else {
                    MAX_RETRY_AFTER_SECONDS
                },
            ),
        ),
        None => None,
    }
}

/// The delay that a `Retry-After` header in seconds asks for, capped at
/// thirty seconds.
pub fn parse_retry_after(value: &str) -> (r: Option<core::time::Duration>)
    ensures
        r == retry_after_outcome(value@),
{
    let t = trim(value);
    let chars = chars_of(t.as_str());
    match parse_decimal_u64(chars.as_slice()) {
        Some(n) => {
            let seconds = if n < MAX_RETRY_AFTER_SECONDS {
                n
            } else {
                MAX_RETRY_AFTER_SECONDS
            };
            Some(duration_from_secs(seconds))
        },
        None => None,
    }
}

/// What to do with an HTTP response.
pub enum ResponseAction {
    /// Refresh the Codex authentication and send again.
    RefreshAuth,
    /// Wait this long and send again.
    Retry(core::time::Duration),
    /// Give up with this error.
    Fail(Error),
    /// Hand the response on.
    Accept,
}

/// How many times a request is retried after a throttled or failed response.
pub const MAX_RETRIES: u8 = 3;

/// Whether a status is a server error (5xx).
pub open spec fn is_server_error(status: u16) -> bool {
    500 <= status <= 599
}

/// Whether a status is a success (2xx).
pub open spec fn is_success(status: u16) -> bool {
    200 <= status <= 299
}

/// The wait before retry number `count + 1` when the response names none:
/// 250 ms, doubled for every earlier retry.
pub open spec fn backoff_millis(count: u8) -> u64 {
    if count == 0 {
        250
    } else if count == 1 {
        500
    } else {
        1000
    }
}

/// The state of one request's retries.
pub struct RetryPolicyV {
    pub refreshed_after_unauthorized: bool,
    pub retry_count: u8,
}

/// What a response does to the retry state and what is done with it: one
/// refresh of the authentication after a 401, up to three retries after a
/// 429 or a 5xx (waiting as `Retry-After` asks, or backing off), and then the
/// response is accepted when it succeeded (or is a 404 that may pass) and
/// refused otherwise.
pub open spec fn response_outcome(
    s: RetryPolicyV,
    status: u16,
    retry_after: Option<Seq<char>>,
    allow_not_found: bool,
) -> (RetryPolicyV, ResponseAction) {
    if status == 401 && !s.refreshed_after_unauthorized {
        (RetryPolicyV { refreshed_after_unauthorized: true, ..s }, ResponseAction::RefreshAuth)
    } else if (status == 429 || is_server_error(status)) && s.retry_count < MAX_RETRIES {
        let delay = match retry_after {
            Some(v) => match retry_after_outcome(v) {
                Some(d) => d,
                None => duration_of_millis(backoff_millis(s.retry_count)),
            },
            None => duration_of_millis(backoff_millis(s.retry_count)),
        };
        (
            RetryPolicyV { retry_count: (s.retry_count + 1) as u8, ..s },
            ResponseAction::Retry(delay),
        )
    } else if !(is_success(status) || (allow_not_found && status == 404)) {
        (s, ResponseAction::Fail(Error::RequestFailed(status)))
    } else {
        (s, ResponseAction::Accept)
    }
}

/// What each response does, by its status: the first 401 asks for an
/// authentication refresh; a 429 or any status from 500 to 599, while fewer
/// than three retries were used, is retried (after 250, 500 or 1000 ms when
/// no `Retry-After` is given) and uses up one retry; any 2xx, and a 404 that
/// may pass, is accepted; every other status fails with that status.  Only a
/// retry or a refresh changes the state.
pub proof fn lemma_responses_by_status(
    s: RetryPolicyV,
    status: u16,
    retry_after: Option<Seq<char>>,
    allow_not_found: bool,
)
    ensures
        ({
            let (t, a) = response_outcome(s, status, retry_after, allow_not_found);
            let retryable = status == 429 || (500 <= status && status <= 599);
            &&& (status == 401 && !s.refreshed_after_unauthorized) ==> (a is RefreshAuth
                && t.refreshed_after_unauthorized && t.retry_count == s.retry_count)
            &&& (retryable && s.retry_count < 3) ==> (a is Retry && t.retry_count == s.retry_count
                + 1 && t.refreshed_after_unauthorized == s.refreshed_after_unauthorized)
            &&& (retryable && s.retry_count < 3 && retry_after is None) ==> a == ResponseAction::Retry(
                duration_of_millis(
                    if s.retry_count == 0 {
                        250
                    } else if s.retry_count == 1 {
                        500
                    } else {
                        1000
                    },
                ),
            )
            &&& (200 <= status && status <= 299) ==> (a is Accept && t == s)
            &&& (allow_not_found && status == 404) ==> (a is Accept && t == s)
            &&& (!(status == 401 && !s.refreshed_after_unauthorized) && !(retryable
                && s.retry_count < 3) && !(200 <= status && status <= 299) && !(allow_not_found
                && status == 404)) ==> (a == ResponseAction::Fail(Error::RequestFailed(status))
                && t == s)
        }),
{
}

/// Decides, response by response, whether a relay request is sent again.
pub struct RetryPolicy {
    refreshed_after_unauthorized: bool,
    retry_count: u8,
}

impl View for RetryPolicy {
    type V = RetryPolicyV;

    closed spec fn view(&self) -> RetryPolicyV {
        RetryPolicyV {
            refreshed_after_unauthorized: self.refreshed_after_unauthorized,
            retry_count: self.retry_count,
        }
    }
}

impl RetryPolicy {
    /// At most `MAX_RETRIES` retries are ever used.
    #[verifier::type_invariant]
    pub open spec fn within_retry_limit(self) -> bool {
        self@.retry_count <= MAX_RETRIES
    }

    /// The state before the first response.
    pub fn new() -> (r: Self)
        ensures
            r@ == (RetryPolicyV { refreshed_after_unauthorized: false, retry_count: 0 }),
    {
        RetryPolicy { refreshed_after_unauthorized: false, retry_count: 0 }
    }

    /// What to do with a response of `status`, whose `Retry-After` header
    /// reads `retry_after` when it has a readable one.
    pub fn on_response(&mut self, status: u16, retry_after: Option<&str>, allow_not_found: bool) -> (r: ResponseAction)
        ensures
            old(self)@.retry_count <= MAX_RETRIES,
            (final(self)@, r) == response_outcome(old(self)@, status, str_opt_view(retry_after), allow_not_found),
            final(self)@.retry_count <= MAX_RETRIES,
            (status == 429 || (500 <= status && status <= 599)) && old(self)@.retry_count < 3 ==> (r is Retry
                && final(self)@.retry_count == old(self)@.retry_count + 1),
            200 <= status && status <= 299 ==> r is Accept,
    {
        proof {
            use_type_invariant(&*self);
            lemma_responses_by_status(self@, status, str_opt_view(retry_after), allow_not_found);
        }
        if status == 401 && !self.refreshed_after_unauthorized {
            self.refreshed_after_unauthorized = true;
            return ResponseAction::RefreshAuth;
        }
        if (status == 429 || (500 <= status && status <= 599)) && self.retry_count < MAX_RETRIES {
            let parsed = match retry_after {
                Some(v) => parse_retry_after(v),
                None => None,
            };
            let delay = match parsed {
                Some(d) => d,
                None => {
                    let millis: u64 = if self.retry_count == 0 {
                        250
                    } else if self.retry_count == 1 {
                        500
                    } else {
                        1000
                    };
                    duration_from_millis(millis)
                },
            };
            self.retry_count = self.retry_count + 1;
            return ResponseAction::Retry(delay);
        }
        if !((200 <= status && status <= 299) || (allow_not_found && status == 404)) {
            return ResponseAction::Fail(Error::RequestFailed(status));
        }
        ResponseAction::Accept
    }
}

// ---------------------------------------------------------------------------
// Laws
// ---------------------------------------------------------------------------

/// How many more times a request may be sent again: one refresh of the
/// authentication, if not yet used, and the retries left.
pub open spec fn resend_budget(s: RetryPolicyV) -> nat {
    (if s.refreshed_after_unauthorized {
        0nat
    } else {
        1nat
    }) + (MAX_RETRIES - s.retry_count) as nat
}

/// Every response that sends a request again uses up part of a budget of
/// one authentication refresh and three retries, so a request is sent at most
/// five times; a response that does not send it again leaves the state as it
/// was.
pub proof fn lemma_resends_are_bounded(
    s: RetryPolicyV,
    status: u16,
    retry_after: Option<Seq<char>>,
    allow_not_found: bool,
)
    requires
        s.retry_count <= MAX_RETRIES,
    ensures
        ({
            let (t, action) = response_outcome(s, status, retry_after, allow_not_found);
            &&& t.retry_count <= MAX_RETRIES
            &&& (action is RefreshAuth || action is Retry) ==> resend_budget(t) < resend_budget(s)
            &&& !(action is RefreshAuth || action is Retry) ==> t == s
            &&& resend_budget(s) <= 4
        }),
{
}

/// A wait that a `Retry-After` header asks for is at most thirty seconds.
pub proof fn lemma_retry_after_is_capped(value: Seq<char>)
    ensures
        retry_after_outcome(value) matches Some(d) ==> exists|n: u64|
            n <= MAX_RETRY_AFTER_SECONDS && d == duration_of_secs(n),
{
    match parse_u64(trimmed(value)) {
        Some(n) => {
            let m = if n < MAX_RETRY_AFTER_SECONDS {
                n
            } else {
                MAX_RETRY_AFTER_SECONDS
            };
            assert(m <= MAX_RETRY_AFTER_SECONDS && retry_after_outcome(value) == Some(duration_of_secs(m)));
        },
        None => {},
    }
}

proof fn lemma_compact_concat(a: Seq<char>, b: Seq<char>)
    ensures
        compact_code(a + b) == compact_code(a) + compact_code(b),
    decreases b.len(),
{
    if b.len() == 0 {
        assert(a + b =~= a);
        assert(compact_code(a) + compact_code(b) =~= compact_code(a));
    } else {
        lemma_compact_concat(a, b.drop_last());
        assert((a + b).drop_last() =~= a + b.drop_last());
        assert((a + b).last() == b.last());
        let rest = compact_code(a) + compact_code(b.drop_last());
        if !(is_ascii_space(b.last()) || b.last() == '-') {
            assert(rest.push(ascii_upper(b.last())) =~= compact_code(a) + compact_code(
                b.drop_last(),
            ).push(ascii_upper(b.last())));
        }
    }
}

proof fn lemma_compact_of_normal(s: Seq<char>)
    requires
        forall|i: int| 0 <= i < s.len() ==> is_ascii_alphanumeric_char(#[trigger] s[i]) && ascii_upper(
            s[i],
        ) == s[i],
    ensures
        compact_code(s) == s,
    decreases s.len(),
{
    if s.len() > 0 {
        lemma_compact_of_normal(s.drop_last());
        assert(s.drop_last().push(s.last()) =~= s);
    }
}

/// A pairing code is read the same whatever its case, spacing and dashes:
/// the code that a pairing request carries, read again, gives the same
/// request.
pub proof fn lemma_pairing_code_normal_form(client_id: Seq<char>, code: Seq<char>)
    requires
        pairing_outcome(client_id, code) is Ok,
    ensures
        ({
            let compact = compact_code(code);
            let formatted = compact.take(4) + seq!['-'] + compact.skip(4);
            pairing_outcome(client_id, formatted) == pairing_outcome(client_id, code)
        }),
{
    let compact = compact_code(code);
    let formatted = compact.take(4) + seq!['-'] + compact.skip(4);
    lemma_compact_upper(code);
    lemma_compact_concat(compact.take(4) + seq!['-'], compact.skip(4));
    lemma_compact_concat(compact.take(4), seq!['-']);
    assert(compact_code(seq!['-']) =~= Seq::<char>::empty()) by {
        let d = seq!['-'];
        assert(d.drop_last() =~= Seq::<char>::empty());
        assert(d.last() == '-');
        assert(compact_code(d.drop_last()) =~= Seq::<char>::empty());
    }
    lemma_compact_of_normal(compact.take(4));
    lemma_compact_of_normal(compact.skip(4));
    assert(compact.take(4) + Seq::<char>::empty() =~= compact.take(4));
    assert(compact.take(4) + compact.skip(4) =~= compact);
}

proof fn lemma_compact_upper(code: Seq<char>)
    ensures
        forall|i: int| 0 <= i < compact_code(code).len() ==> ascii_upper(
            #[trigger] compact_code(code)[i],
        ) == compact_code(code)[i],
    decreases code.len(),
{
    if code.len() > 0 {
        lemma_compact_upper(code.drop_last());
        let c = code.last();
        let u = ascii_upper(c);
        assert(ascii_upper(u) == u) by {
            if 'a' <= c <= 'z' {
                assert((u as u32) == (c as u32) - 32);
            }
        }
        let rest = compact_code(code.drop_last());
        if !(is_ascii_space(c) || c == '-') {
            assert forall|i: int| 0 <= i < rest.len() + 1 implies ascii_upper(
                #[trigger] rest.push(u)[i],
            ) == rest.push(u)[i] by {
                if i < rest.len() {
                    assert(rest.push(u)[i] == rest[i]);
                }
            }
        }
    }
}

} // verus!
