//! The loopback shim that the stock Codex TUI connects to: its token, the
//! check of the TUI's credentials, the choice of host and the TUI's
//! arguments.
use vstd::prelude::*;
use vstd::utf8::encode_utf8;
use crate::api::RemoteEnvironment;
use crate::error::Error;
use crate::oauth::random_base64url;
use crate::outside::{constant_time_bytes_eq, url_safe_base64};
use crate::text::{chars_of, push_str, str_eq, string_from_chars, string_of, sub_chars};

verus! {

broadcast use vstd::string::group_string_axioms;

/// The environment variable through which the TUI receives the shim's token.
pub const SHIM_AUTH_TOKEN_ENV: &'static str = "RCODEX_SHIM_AUTH_TOKEN";

/// A fresh shim token: 32 random bytes in URL-safe base64.
pub fn new_shim_auth_token() -> (r: String)
    ensures
        exists|b: Seq<u8>| b.len() == 32 && r@ == url_safe_base64(b),
{
    random_base64url(32)
}

/// The websocket URL of the shim at a socket address.
pub fn shim_url(address: &str) -> (r: String)
    ensures
        r@ == "ws://"@ + address@,
{
    let mut s = string_of("ws://");
    push_str(&mut s, address);
    s
}

/// Whether an `Authorization` header presents the shim's token as a bearer
/// token.
pub open spec fn bearer_matches(authorization: Option<Seq<char>>, expected_token: Seq<char>) -> bool {
    match authorization {
        Some(v) => v.len() >= 7 && v.take(7) == "Bearer "@ && v.skip(7) == expected_token,
        None => false,
    }
}

/// Whether the TUI's `Authorization` header, when it has a readable one,
/// carries the shim's token.  The token is compared in constant time.
pub fn shim_request_authorized(authorization: Option<&str>, expected_token: &str) -> (r: bool)
    ensures
        r == bearer_matches(
            match authorization {
                Some(v) => Some(v@),
                None => None,
            },
            expected_token@,
        ),
{
    proof {
        reveal_strlit("Bearer ");
    }
    let value = match authorization {
        Some(v) => v,
        None => return false,
    };
    let chars = chars_of(value);
    let prefix = chars_of("Bearer ");
    if chars.len() < 7 {
        return false;
    }
    let mut i: usize = 0;
    while i < 7
        invariant
            i <= 7 <= chars@.len(),
            prefix@ == "Bearer "@,
            prefix@.len() == 7,
            chars@ == value@,
            authorization == Some(value),
            forall|k: int| 0 <= k < i ==> chars@[k] == prefix@[k],
        decreases 7 - i,
    {
        if chars[i] != prefix[i] {
            assert(value@.take(7)[i as int] != "Bearer "@[i as int]);
            return false;
        }
        i += 1;
    }
    assert(value@.take(7) =~= "Bearer "@);
    let rest = sub_chars(&chars, 7, chars.len());
    assert(rest@ =~= value@.skip(7));
    let candidate = string_from_chars(rest.as_slice());
    let same = constant_time_bytes_eq(candidate.as_str().as_bytes(), expected_token.as_bytes());
    proof {
        if encode_utf8(candidate@) == encode_utf8(expected_token@) {
            vstd::utf8::encode_utf8_decode_utf8(candidate@);
            vstd::utf8::encode_utf8_decode_utf8(expected_token@);
        }
    }
    same
}

/// The index of the first host with this ID.
pub open spec fn environment_index(environments: Seq<RemoteEnvironment>, id: Seq<char>) -> Option<nat>
    decreases environments.len(),
{
    if environments.len() == 0 {
        None
    } else if environments[0].env_id@ == id {
        Some(0)
    } else {
        match environment_index(environments.drop_first(), id) {
            Some(i) => Some(i + 1),
            None => None,
        }
    }
}

/// The index of the first online host.
pub open spec fn online_index(environments: Seq<RemoteEnvironment>) -> Option<nat>
    decreases environments.len(),
{
    if environments.len() == 0 {
        None
    } else if environments[0].online {
        Some(0)
    } else {
        match online_index(environments.drop_first()) {
            Some(i) => Some(i + 1),
            None => None,
        }
    }
}

proof fn lemma_environment_index(environments: Seq<RemoteEnvironment>, id: Seq<char>)
    ensures
        match environment_index(environments, id) {
            Some(i) => i < environments.len() && environments[i as int].env_id@ == id && forall|k: int|
                0 <= k < i ==> environments[k].env_id@ != id,
            None => forall|k: int| 0 <= k < environments.len() ==> environments[k].env_id@ != id,
        },
    decreases environments.len(),
{
    if environments.len() > 0 && environments[0].env_id@ != id {
        lemma_environment_index(environments.drop_first(), id);
        assert forall|k: int| 0 < k < environments.len() implies environments[k]
            == environments.drop_first()[k - 1] by {}
    }
}

proof fn lemma_online_index(environments: Seq<RemoteEnvironment>)
    ensures
        match online_index(environments) {
            Some(i) => i < environments.len() && environments[i as int].online && forall|k: int|
                0 <= k < i ==> !environments[k].online,
            None => forall|k: int| 0 <= k < environments.len() ==> !environments[k].online,
        },
    decreases environments.len(),
{
    if environments.len() > 0 && !environments[0].online {
        lemma_online_index(environments.drop_first());
        assert forall|k: int| 0 < k < environments.len() implies environments[k]
            == environments.drop_first()[k - 1] by {}
    }
}

/// How a host is chosen.
pub enum SelectionV {
    /// The host at this index.
    Chosen(nat),
    NotFound,
    Offline,
    NoHostOnline,
    SeveralHostsOnline,
}

/// Which host `select_environment` chooses: the requested one, which must be
/// listed and online; or, with no request, the one host that is online.
pub open spec fn selection(environments: Seq<RemoteEnvironment>, requested: Option<Seq<char>>) -> SelectionV {
    match requested {
        Some(id) => match environment_index(environments, id) {
            None => SelectionV::NotFound,
            Some(i) => if environments[i as int].online {
                SelectionV::Chosen(i)
            } else {
                SelectionV::Offline
            },
        },
        None => match online_index(environments) {
            None => SelectionV::NoHostOnline,
            Some(i) => match online_index(environments.skip(i + 1int)) {
                Some(_) => SelectionV::SeveralHostsOnline,
                None => SelectionV::Chosen(i),
            },
        },
    }
}

/// The host chosen is the right one: a requested host is chosen only when it
/// is listed and online, and it is then the first host with that ID; with no
/// request, a host is chosen only when it is the one host online.  A request
/// is refused as unknown only when no host has its ID, and as offline only
/// when the first host with its ID is offline; with no request, no host is
/// online or at least two are.
pub proof fn lemma_selection_is_the_requested_or_only_online_host(
    environments: Seq<RemoteEnvironment>,
    requested: Option<Seq<char>>,
)
    ensures
        match selection(environments, requested) {
            SelectionV::Chosen(i) => {
                &&& i < environments.len()
                &&& environments[i as int].online
                &&& match requested {
                    Some(q) => environments[i as int].env_id@ == q && forall|k: int|
                        0 <= k < i ==> environments[k].env_id@ != q,
                    None => forall|k: int|
                        0 <= k < environments.len() && k != i ==> !environments[k].online,
                }
            },
            SelectionV::NotFound => requested matches Some(q) && forall|k: int|
                0 <= k < environments.len() ==> environments[k].env_id@ != q,
            SelectionV::Offline => requested matches Some(q) && exists|i: int|
                0 <= i < environments.len() && environments[i].env_id@ == q
                    && !environments[i].online && forall|k: int|
                    0 <= k < i ==> environments[k].env_id@ != q,
            SelectionV::NoHostOnline => requested is None && forall|k: int|
                0 <= k < environments.len() ==> !environments[k].online,
            SelectionV::SeveralHostsOnline => requested is None && exists|i: int, j: int|
                0 <= i < j < environments.len() && environments[i].online && environments[j].online,
        },
{
    match requested {
        Some(q) => {
            lemma_environment_index(environments, q);
            match environment_index(environments, q) {
                Some(i) => {
                    assert(environments[i as int].env_id@ == q);
                },
                None => {},
            }
        },
        None => {
            lemma_online_index(environments);
            match online_index(environments) {
                None => {},
                Some(i) => {
                    let rest = environments.skip(i + 1int);
                    lemma_online_index(rest);
                    match online_index(rest) {
                        Some(j) => {
                            assert(rest[j as int] == environments[(i + 1 + j) as int]);
                            assert(environments[i as int].online && environments[(i + 1 + j) as int].online);
                        },
                        None => {
                            assert forall|k: int|
                                0 <= k < environments.len() && k != i implies !environments[k].online by {
                                if k > i {
                                    assert(rest[k - i - 1] == environments[k]);
                                }
                            }
                        },
                    }
                },
            }
        },
    }
}

/// The host to connect to: the requested one, or the only one online.
pub fn select_environment<'a>(environments: &'a [RemoteEnvironment], requested: Option<&str>) -> (r: Result<&'a RemoteEnvironment, Error>)
    ensures
        match selection(
            environments@,
            match requested {
                Some(q) => Some(q@),
                None => None,
            },
        ) {
            SelectionV::Chosen(i) => r matches Ok(e) && i < environments@.len() && *e
                == environments@[i as int],
            SelectionV::NotFound => r matches Err(Error::EnvironmentNotFound(m)) && requested matches Some(
                q,
            ) && m@ == q@,
            SelectionV::Offline => r matches Err(Error::EnvironmentOffline(m)) && requested matches Some(
                q,
            ) && m@ == q@,
            SelectionV::NoHostOnline => r matches Err(e) && e == Error::NoHostOnline,
            SelectionV::SeveralHostsOnline => r matches Err(e) && e == Error::SeveralHostsOnline,
        },
        r matches Ok(e) ==> e.online,
        r matches Ok(e) ==> (requested matches Some(q) ==> e.env_id@ == q@),
{
    proof {
        lemma_selection_is_the_requested_or_only_online_host(
            environments@,
            match requested {
                Some(q) => Some(q@),
                None => None,
            },
        );
    }
    let ghost es = environments@;
    match requested {
        Some(id) => {
            proof {
                lemma_environment_index(es, id@);
            }
            let mut i: usize = 0;
            while i < environments.len()
                invariant
                    i <= es.len(),
                    es == environments@,
                    requested == Some(id),
                    forall|k: int| 0 <= k < i ==> es[k].env_id@ != id@,
                    match environment_index(es, id@) {
                        Some(j) => j < es.len() && es[j as int].env_id@ == id@ && forall|k: int|
                            0 <= k < j ==> es[k].env_id@ != id@,
                        None => forall|k: int| 0 <= k < es.len() ==> es[k].env_id@ != id@,
                    },
                decreases es.len() - i,
            {
                if str_eq(environments[i].env_id.as_str(), id) {
                    proof {
                        match environment_index(es, id@) {
                            Some(j) => {
                                if j < i {
                                    assert(es[j as int].env_id@ != id@);
                                }
                                if j > i {
                                    assert(es[i as int].env_id@ != id@);
                                }
                            },
                            None => {
                                assert(es[i as int].env_id@ != id@);
                            },
                        }
                    }
                    assert(environment_index(es, id@) == Some(i as nat));
                    if !environments[i].online {
                        return Err(Error::EnvironmentOffline(string_of(id)));
                    }
                    return Ok(&environments[i]);
                }
                i += 1;
            }
            proof {
                match environment_index(es, id@) {
                    Some(j) => {
                        assert(es[j as int].env_id@ == id@);
                    },
                    None => {},
                }
            }
            Err(Error::EnvironmentNotFound(string_of(id)))
        },
        None => {
            proof {
                lemma_online_index(es);
            }
            let mut i: usize = 0;
            while i < environments.len() && !environments[i].online
                invariant
                    i <= es.len(),
                    es == environments@,
                    forall|k: int| 0 <= k < i ==> !es[k].online,
                decreases es.len() - i,
            {
                i += 1;
            }
            if i == environments.len() {
                proof {
                    match online_index(es) {
                        Some(j) => {
                            assert(es[j as int].online);
                        },
                        None => {},
                    }
                }
                return Err(Error::NoHostOnline);
            }
            proof {
                match online_index(es) {
                    Some(j) => {
                        if j < i {
                            assert(!es[j as int].online);
                        }
                        if j > i {
                            assert(es[i as int].online);
                        }
                    },
                    None => {
                        assert(es[i as int].online);
                    },
                }
                assert(online_index(es) == Some(i as nat));
                lemma_online_index(es.skip(i + 1));
            }
            let mut k: usize = i + 1;
            while k < environments.len()
                invariant
                    requested is None,
                    i < es.len(),
                    i + 1 <= k <= es.len(),
                    es == environments@,
                    online_index(es) == Some(i as nat),
                    es[i as int].online,
                    forall|m: int| i + 1 <= m < k ==> !es[m].online,
                    match online_index(es.skip(i + 1)) {
                        Some(j) => j < es.skip(i + 1).len() && es.skip(i + 1)[j as int].online,
                        None => forall|m: int| 0 <= m < es.skip(i + 1).len() ==> !(#[trigger] es.skip(i + 1)[m]).online,
                    },
                decreases es.len() - k,
            {
                if environments[k].online {
                    proof {
                        assert(es.skip(i + 1)[k - i - 1] == es[k as int]);
                    }
                    return Err(Error::SeveralHostsOnline);
                }
                k += 1;
            }
            proof {
                match online_index(es.skip(i + 1)) {
                    Some(j) => {
                        assert(es.skip(i + 1)[j as int] == es[i + 1 + j]);
                    },
                    None => {},
                }
            }
            Ok(&environments[i])
        },
    }
}

/// The arguments that start the stock Codex TUI against the shim.
pub open spec fn remote_args(url: Seq<char>, remote_cwd: Option<Seq<char>>) -> Seq<Seq<char>> {
    let base = seq!["--remote"@, url, "--remote-auth-token-env"@, SHIM_AUTH_TOKEN_ENV@];
    match remote_cwd {
        Some(d) => base + seq!["-C"@, d],
        None => base,
    }
}

/// The arguments that start the stock Codex TUI against the shim, in the
/// remote working directory when one is given.
pub fn codex_remote_args(url: &str, remote_cwd: Option<&str>) -> (r: Vec<String>)
    ensures
        r@.map_values(|s: String| s@) == remote_args(
            url@,
            match remote_cwd {
                Some(d) => Some(d@),
                None => None,
            },
        ),
{
    let mut arguments: Vec<String> = Vec::new();
    arguments.push(string_of("--remote"));
    arguments.push(string_of(url));
    arguments.push(string_of("--remote-auth-token-env"));
    arguments.push(string_of(SHIM_AUTH_TOKEN_ENV));
    match remote_cwd {
        Some(d) => {
            arguments.push(string_of("-C"));
            arguments.push(string_of(d));
        },
        None => {},
    }
    assert(arguments@.map_values(|s: String| s@) =~= remote_args(
        url@,
        match remote_cwd {
            Some(d) => Some(d@),
            None => None,
        },
    ));
    arguments
}

} // verus!
