//! Whether the stock Codex CLI can drive a remote host: its version, the
//! remote-terminal options it offers, and the host's matching version.
use vstd::prelude::*;
use crate::api::RemoteEnvironment;
use crate::error::Error;
use crate::text::{
    ascii_words, chars_of, is_ascii_alphanumeric, is_separator, is_white_space, leading_space,
    lemma_leading_space, lemma_trimmed_chars, lemma_words_chars, lemma_words_unbroken,
    trailing_space, is_ascii_alphanumeric_char, is_ascii_digit,
    is_ascii_digit_char, is_control, is_control_char, push_str, split_ascii_words, str_eq,
    string_of, trim, trimmed,
};

verus! {

/// The options of `codex` that a remote terminal needs.
pub const REMOTE_OPTION: &'static str = "--remote";

pub const REMOTE_AUTH_TOKEN_ENV_OPTION: &'static str = "--remote-auth-token-env";

/// Whether a character may stand in a version: ASCII letters and digits and
/// `.`, `+`, `-`.
pub open spec fn version_char(c: char) -> bool {
    is_ascii_alphanumeric_char(c) || c == '.' || c == '+' || c == '-'
}

pub open spec fn has_control(s: Seq<char>) -> bool {
    exists|i: int| 0 <= i < s.len() && is_control_char(#[trigger] s[i])
}

/// What `parse_version_token` gives: the first word of the trimmed text,
/// when the text has no control character and the word starts with a digit
/// and holds only version characters.
pub open spec fn version_token_outcome(value: Seq<char>) -> Result<Seq<char>, Error> {
    let v = trimmed(value);
    if has_control(v) {
        Err(Error::VersionHasControl)
    } else if ascii_words(v).len() == 0 {
        Err(Error::VersionEmpty)
    } else {
        let t = ascii_words(v)[0];
        if !(t.len() > 0 && is_ascii_digit_char(t[0])) || !(forall|i: int|
            0 <= i < t.len() ==> version_char(#[trigger] t[i])) {
            Err(Error::VersionMalformed)
        } else {
            Ok(t)
        }
    }
}

fn find_control(s: &Vec<char>) -> (r: bool)
    ensures
        r == has_control(s@),
{
    let mut i: usize = 0;
    while i < s.len()
        invariant
            i <= s@.len(),
            forall|k: int| 0 <= k < i ==> !is_control_char(#[trigger] s@[k]),
        decreases s@.len() - i,
    {
        if is_control(s[i]) {
            return true;
        }
        i += 1;
    }
    false
}

fn is_version_char(c: char) -> (r: bool)
    ensures
        r == version_char(c),
{
    is_ascii_alphanumeric(c) || c == '.' || c == '+' || c == '-'
}

/// The version token of a version text.
pub fn parse_version_token(value: &str) -> (r: Result<String, Error>)
    ensures
        match r {
            Ok(t) => version_token_outcome(value@) == Ok::<Seq<char>, Error>(t@),
            Err(e) => version_token_outcome(value@) == Err::<Seq<char>, Error>(e),
        },
{
    let t = trim(value);
    let chars = chars_of(t.as_str());
    if find_control(&chars) {
        return Err(Error::VersionHasControl);
    }
    let words = split_ascii_words(chars.as_slice());
    if words.len() == 0 {
        return Err(Error::VersionEmpty);
    }
    let version = chars_of(words[0].as_str());
    assert(version@ == ascii_words(trimmed(value@))[0]);
    if version.len() == 0 || !is_ascii_digit(version[0]) {
        return Err(Error::VersionMalformed);
    }
    let mut i: usize = 0;
    while i < version.len()
        invariant
            i <= version@.len(),
            version@ == ascii_words(trimmed(value@))[0],
            version@.len() > 0 && is_ascii_digit_char(version@[0]),
            !has_control(trimmed(value@)),
            ascii_words(trimmed(value@)).len() > 0,
            forall|k: int| 0 <= k < i ==> version_char(#[trigger] version@[k]),
        decreases version@.len() - i,
    {
        if !is_version_char(version[i]) {
            assert(!version_char(version@[i as int]));
            return Err(Error::VersionMalformed);
        }
        i += 1;
    }
    Ok(string_of(words[0].as_str()))
}

/// What `parse_stock_codex_version` gives: the version token of the output of
/// `codex --version`, which reads `codex-cli <version>`.
pub open spec fn stock_version_outcome(output: Seq<char>) -> Result<Seq<char>, Error> {
    let o = trimmed(output);
    let w = ascii_words(o);
    if has_control(o) {
        Err(Error::MalformedStockVersion)
    } else if w.len() == 0 || w[0] != "codex-cli"@ {
        Err(Error::StockVersionPrefix)
    } else if w.len() < 2 {
        Err(Error::StockVersionMissing)
    } else {
        match version_token_outcome(w[1]) {
            Err(_) => Err(Error::StockVersionInvalid),
            Ok(v) => Ok(v),
        }
    }
}

/// The version of the stock Codex CLI, read from `codex --version`.
pub fn parse_stock_codex_version(version_output: &str) -> (r: Result<String, Error>)
    ensures
        match r {
            Ok(v) => stock_version_outcome(version_output@) == Ok::<Seq<char>, Error>(v@),
            Err(e) => stock_version_outcome(version_output@) == Err::<Seq<char>, Error>(e),
        },
{
    let output = trim(version_output);
    let chars = chars_of(output.as_str());
    if find_control(&chars) {
        return Err(Error::MalformedStockVersion);
    }
    let words = split_ascii_words(chars.as_slice());
    if words.len() == 0 || !str_eq(words[0].as_str(), "codex-cli") {
        return Err(Error::StockVersionPrefix);
    }
    if words.len() < 2 {
        return Err(Error::StockVersionMissing);
    }
    match parse_version_token(words[1].as_str()) {
        Ok(v) => Ok(v),
        Err(_) => Err(Error::StockVersionInvalid),
    }
}

/// Whether a word is a version: it starts with an ASCII digit and holds only
/// version characters.
pub open spec fn is_version_token(t: Seq<char>) -> bool {
    &&& t.len() > 0
    &&& is_ascii_digit_char(t[0])
    &&& forall|i: int| 0 <= i < t.len() ==> version_char(#[trigger] t[i])
}

/// The stock version is the second word of the trimmed output: the output
/// is accepted exactly when it has no control character, its first two
/// ASCII-whitespace-separated words are `codex-cli` and a word that, trimmed,
/// is a version, and then that trimmed word is the result.  A second word
/// that is already a version is returned unchanged.
pub proof fn lemma_stock_version_is_second_word(output: Seq<char>)
    ensures
        ({
            let o = trimmed(output);
            let w = ascii_words(o);
            &&& stock_version_outcome(output) is Ok <==> (!has_control(o) && w.len() >= 2 && w[0]
                == "codex-cli"@ && is_version_token(trimmed(w[1])))
            &&& stock_version_outcome(output) is Ok ==> stock_version_outcome(output) == Ok::<
                Seq<char>,
                Error,
            >(trimmed(w[1]))
            &&& (w.len() >= 2 && is_version_token(w[1])) ==> trimmed(w[1]) == w[1]
        }),
{
    let o = trimmed(output);
    let w = ascii_words(o);
    if w.len() >= 2 {
        let x = w[1];
        let v = trimmed(x);
        lemma_words_chars(o, false);
        lemma_trimmed_chars(x);
        lemma_leading_space(x);
        assert forall|j: int| 0 <= j < v.len() implies !is_separator(#[trigger] v[j], false) by {
            assert(v[j] == x[leading_space(x) + j]);
            assert(w[1][leading_space(x) + j] == x[leading_space(x) + j]);
        }
        lemma_words_unbroken(v, false);
        if !has_control(o) {
            assert forall|j: int| 0 <= j < v.len() implies !is_control_char(#[trigger] v[j]) by {
                assert(v[j] == x[leading_space(x) + j]);
                assert(w[1][leading_space(x) + j] == x[leading_space(x) + j]);
                let i = choose|i: int| 0 <= i < o.len() && o[i] == w[1][leading_space(x) + j];
                assert(!is_control_char(o[i]));
            }
            assert(!has_control(v));
            if v.len() > 0 {
                assert(ascii_words(v)[0] == v);
            }
        }
        if is_version_token(x) {
            assert(!is_white_space(x[0]));
            assert(leading_space(x) == 0);
            assert(x.skip(0) =~= x);
            assert(version_char(x.last()));
            assert(!is_white_space(x.last()));
            assert(trailing_space(x) == 0);
            assert(x.take(x.len() as int) =~= x);
        }
    }
}

/// Whether `expected` is one of the whitespace-separated words of the help
/// text.
pub open spec fn help_lists(help_output: Seq<char>, expected: Seq<char>) -> bool {
    exists|k: int| 0 <= k < ascii_words(help_output).len() && #[trigger] ascii_words(help_output)[k] == expected
}

/// Whether the help text lists an option.  The words of each line are the
/// words of the whole text, since line breaks are ASCII whitespace.
pub fn help_has_option(help_output: &str, expected: &str) -> (r: bool)
    ensures
        r == help_lists(help_output@, expected@),
{
    let chars = chars_of(help_output);
    let words = split_ascii_words(chars.as_slice());
    let mut i: usize = 0;
    while i < words.len()
        invariant
            i <= words@.len(),
            chars@ == help_output@,
            words@.len() == ascii_words(chars@).len(),
            forall|k: int| 0 <= k < words@.len() ==> #[trigger] words@[k]@ == ascii_words(chars@)[k],
            forall|k: int| 0 <= k < i ==> ascii_words(chars@)[k] != expected@,
        decreases words@.len() - i,
    {
        if str_eq(words[i].as_str(), expected) {
            assert(words@[i as int]@ == ascii_words(chars@)[i as int]);
            return true;
        }
        i += 1;
    }
    false
}

/// The required options that the help text does not list, joined by `, `.
pub open spec fn missing_options_text(help_output: Seq<char>) -> Seq<char> {
    let a = !help_lists(help_output, REMOTE_OPTION@);
    let b = !help_lists(help_output, REMOTE_AUTH_TOKEN_ENV_OPTION@);
    if a && b {
        REMOTE_OPTION@ + ", "@ + REMOTE_AUTH_TOKEN_ENV_OPTION@
    } else if a {
        REMOTE_OPTION@
    } else {
        REMOTE_AUTH_TOKEN_ENV_OPTION@
    }
}

/// Checks that the stock Codex CLI offers both remote-terminal options.
pub fn verify_stock_codex_capabilities(help_output: &str) -> (r: Result<(), Error>)
    ensures
        r is Ok <==> (help_lists(help_output@, REMOTE_OPTION@) && help_lists(
            help_output@,
            REMOTE_AUTH_TOKEN_ENV_OPTION@,
        )),
        r matches Err(e) ==> e matches Error::MissingRemoteOptions(m) && m@ == missing_options_text(
            help_output@,
        ),
{
    let has_remote = help_has_option(help_output, REMOTE_OPTION);
    let has_token = help_has_option(help_output, REMOTE_AUTH_TOKEN_ENV_OPTION);
    if has_remote && has_token {
        return Ok(());
    }
    let mut missing = String::new();
    if !has_remote {
        push_str(&mut missing, REMOTE_OPTION);
    }
    if !has_token {
        if !has_remote {
            push_str(&mut missing, ", ");
        }
        push_str(&mut missing, REMOTE_AUTH_TOKEN_ENV_OPTION);
    }
    Err(Error::MissingRemoteOptions(missing))
}

/// How the host's Codex App Server version compares with the local one.
pub enum RemoteVersionCheck {
    Matching,
    LocalInvalid,
    Missing,
    Invalid,
    Mismatch(Seq<char>, Seq<char>),
}

/// What `verify_remote_codex_version` finds.
pub open spec fn remote_version_check(local_version: Seq<char>, environment: RemoteEnvironment) -> RemoteVersionCheck {
    match version_token_outcome(local_version) {
        Err(_) => RemoteVersionCheck::LocalInvalid,
        Ok(local) => match environment.app_server_version {
            None => RemoteVersionCheck::Missing,
            Some(remote_output) => match version_token_outcome(remote_output@) {
                Err(_) => RemoteVersionCheck::Invalid,
                Ok(remote) => if remote != local {
                    RemoteVersionCheck::Mismatch(remote, local)
                } else {
                    RemoteVersionCheck::Matching
                },
            },
        },
    }
}

/// Whether both versions read as version tokens and the host's token is the
/// local one, character for character.
pub open spec fn same_version(local_version: Seq<char>, environment: RemoteEnvironment) -> bool {
    &&& version_token_outcome(local_version) is Ok
    &&& environment.app_server_version is Some
    &&& version_token_outcome(environment.app_server_version->0@) is Ok
    &&& version_token_outcome(environment.app_server_version->0@)->Ok_0 == version_token_outcome(
        local_version,
    )->Ok_0
}

/// The host passes exactly when both versions parse and are the same
/// sequence of characters; two parsed versions that differ in any way, even
/// in their last character, are reported as a mismatch, with the host's
/// version and the local one as they were read.
pub proof fn lemma_versions_must_be_equal(local_version: Seq<char>, environment: RemoteEnvironment)
    ensures
        (remote_version_check(local_version, environment) is Matching) <==> same_version(
            local_version,
            environment,
        ),
        match remote_version_check(local_version, environment) {
            RemoteVersionCheck::Mismatch(remote, local) => {
                &&& remote != local
                &&& Ok::<Seq<char>, Error>(local) == version_token_outcome(local_version)
                &&& environment.app_server_version matches Some(o) && Ok::<Seq<char>, Error>(remote)
                    == version_token_outcome(o@)
            },
            _ => true,
        },
{
}

/// Checks that the host runs the same Codex version as the local CLI.
pub fn verify_remote_codex_version(local_version: &str, environment: &RemoteEnvironment) -> (r: Result<(), Error>)
    ensures
        match remote_version_check(local_version@, *environment) {
            RemoteVersionCheck::Matching => r is Ok,
            RemoteVersionCheck::LocalInvalid => r == Err::<(), Error>(Error::LocalVersionInvalid),
            RemoteVersionCheck::Missing => r matches Err(Error::RemoteVersionMissing(h)) && h@
                == environment.spec_display_name(),
            RemoteVersionCheck::Invalid => r matches Err(Error::RemoteVersionInvalid(h)) && h@
                == environment.spec_display_name(),
            RemoteVersionCheck::Mismatch(remote, local) => r matches Err(
                Error::VersionMismatch(h, rv, lv),
            ) && h@ == environment.spec_display_name() && rv@ == remote && lv@ == local,
        },
        r is Ok <==> same_version(local_version@, *environment),
{
    proof {
        lemma_versions_must_be_equal(local_version@, *environment);
    }
    let local = match parse_version_token(local_version) {
        Ok(v) => v,
        Err(_) => return Err(Error::LocalVersionInvalid),
    };
    let remote_output = match &environment.app_server_version {
        Some(v) => v,
        None => return Err(Error::RemoteVersionMissing(string_of(environment.display_name()))),
    };
    let remote = match parse_version_token(remote_output.as_str()) {
        Ok(v) => v,
        Err(_) => return Err(Error::RemoteVersionInvalid(string_of(environment.display_name()))),
    };
    if !str_eq(remote.as_str(), local.as_str()) {
        return Err(
            Error::VersionMismatch(string_of(environment.display_name()), remote, local),
        );
    }
    Ok(())
}

} // verus!
