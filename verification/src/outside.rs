//! The calls into outside crates that the library makes, each behind a
//! function whose contract states what the crate's documentation and source
//! show of it.  Where the result takes pages to state, it is named by an
//! uninterpreted function of the arguments.
use vstd::prelude::*;
use base64::Engine;
use sha2::Digest;
use subtle::ConstantTimeEq;
use rand::RngCore;
use vstd::utf8::{decode_utf8, encode_utf8, valid_utf8};

verus! {

// ---------------------------------------------------------------------------
// Names of results
// ---------------------------------------------------------------------------

/// The text that `base64`'s `STANDARD` engine encodes `bytes` to.
pub uninterp spec fn standard_base64(bytes: Seq<u8>) -> Seq<char>;

/// What `base64`'s `STANDARD` engine decodes `text` to, if it accepts it.
pub uninterp spec fn standard_base64_decoded(text: Seq<char>) -> Option<Seq<u8>>;

/// The text that `base64`'s `URL_SAFE_NO_PAD` engine encodes `bytes` to.
pub uninterp spec fn url_safe_base64(bytes: Seq<u8>) -> Seq<char>;

/// What `base64`'s `URL_SAFE_NO_PAD` engine decodes `text` to, if it
/// accepts it.
pub uninterp spec fn url_safe_base64_decoded(text: Seq<char>) -> Option<Seq<u8>>;

/// The SHA-256 digest of `bytes` as `sha2::Sha256` computes it.
pub uninterp spec fn sha256_digest(bytes: Seq<u8>) -> Seq<u8>;

/// `Url::parse(base)` joined with `relative`: the ASCII serialisation of the
/// origin and the path when both steps succeed, else the text of the first
/// `ParseError`.
pub uninterp spec fn url_join_origin_path(base: Seq<char>, relative: Seq<char>) -> Result<
    (Seq<char>, Seq<char>),
    Seq<char>,
>;

/// The serialisation of `Url::parse(base)` after `query_pairs_mut` has
/// appended `pairs` in order when `base` parses, else the text of the
/// `ParseError`.
pub uninterp spec fn url_with_query(base: Seq<char>, pairs: Seq<(Seq<char>, Seq<char>)>) -> Result<
    Seq<char>,
    Seq<char>,
>;

/// The scheme of `Url::parse(text)` when it parses, else the text of the
/// `ParseError`.
pub uninterp spec fn url_scheme_of(text: Seq<char>) -> Result<Seq<char>, Seq<char>>;

/// The serialisation of `Url::parse(text)` after `set_scheme(scheme)`, when
/// both succeed.
pub uninterp spec fn url_with_scheme(text: Seq<char>, scheme: Seq<char>) -> Option<Seq<char>>;

/// The path of `Url::parse(base)` after `path_segments_mut` has dropped an
/// empty last segment and pushed `segment`; else the text of the
/// `ParseError` (`Some`), or `None` when the URL cannot take segments.
pub uninterp spec fn url_path_with_segment(base: Seq<char>, segment: Seq<char>) -> Result<
    Seq<char>,
    Option<Seq<char>>,
>;

/// Whether `form_urlencoded::byte_serialize` keeps a byte as it is: ASCII
/// letters and digits and `*`, `-`, `.`, `_`.
pub open spec fn form_unchanged(b: u8) -> bool {
    ||| b == 0x2a
    ||| b == 0x2d
    ||| b == 0x2e
    ||| 0x30 <= b <= 0x39
    ||| 0x41 <= b <= 0x5a
    ||| b == 0x5f
    ||| 0x61 <= b <= 0x7a
}

/// An uppercase hexadecimal digit.
pub open spec fn upper_hex_digit(n: u8) -> char {
    if n < 10 {
        (0x30 + n) as char
    } else {
        (0x37 + n) as char
    }
}

/// What `byte_serialize` writes for one byte: the byte itself, `+` for a
/// space, or `%` and two uppercase hexadecimal digits.
pub open spec fn form_byte(b: u8) -> Seq<char> {
    if form_unchanged(b) {
        seq![b as char]
    } else if b == 0x20 {
        seq!['+']
    } else {
        seq!['%', upper_hex_digit(b / 16), upper_hex_digit(b % 16)]
    }
}

/// `byte_serialize` of a sequence of bytes, collected.
pub open spec fn form_bytes(bytes: Seq<u8>) -> Seq<char>
    decreases bytes.len(),
{
    if bytes.len() == 0 {
        Seq::empty()
    } else {
        form_bytes(bytes.drop_last()) + form_byte(bytes.last())
    }
}

/// `form_urlencoded::byte_serialize` of the UTF-8 bytes of `text`, collected.
pub open spec fn form_component(text: Seq<char>) -> Seq<char> {
    form_bytes(encode_utf8(text))
}

/// `form_urlencoded::Serializer::new(String::new())` after appending `pairs`
/// in order and finishing: each pair as its serialised name, `=` and its
/// serialised value, the pairs separated by `&`.
pub open spec fn form_query(pairs: Seq<(Seq<char>, Seq<char>)>) -> Seq<char>
    decreases pairs.len(),
{
    if pairs.len() == 0 {
        Seq::empty()
    } else {
        let last = form_component(pairs.last().0) + "="@ + form_component(pairs.last().1);
        if pairs.len() == 1 {
            last
        } else {
            form_query(pairs.drop_last()) + "&"@ + last
        }
    }
}

/// The UNIX timestamp of `chrono::DateTime::parse_from_rfc3339(text)`, when
/// it parses.
pub uninterp spec fn rfc3339_seconds(text: Seq<char>) -> Option<i64>;

/// Whether `serde_json::from_slice::<Value>` accepts `bytes` (`Some`), and
/// then whether the value it reads is an object.
pub uninterp spec fn json_text_kind(bytes: Seq<u8>) -> Option<bool>;

/// The serialisation of the path of `Url::parse(text)` and its query pairs,
/// percent-decoded, in order, when `text` parses; else the text of the
/// `ParseError`.
pub uninterp spec fn url_path_query(text: Seq<char>) -> Result<
    (Seq<char>, Seq<(Seq<char>, Seq<char>)>),
    Seq<char>,
>;

/// The reason phrase that `http::StatusCode::canonical_reason` gives for a
/// status, when it is a status code with a known reason.
pub uninterp spec fn status_reason_phrase(status: u16) -> Option<Seq<char>>;

/// Whether `c` is a digit of lowercase hexadecimal.
pub open spec fn is_lower_hex_char(c: char) -> bool {
    ('0' <= c <= '9') || ('a' <= c <= 'f')
}

/// Whether `t` is a version 4 UUID as `Uuid`'s `Display` writes it: 36
/// characters, lowercase hexadecimal digits in groups of 8, 4, 4, 4 and 12
/// separated by `-`, the version digit `4` and an RFC 4122 variant digit.
pub open spec fn is_v4_uuid_text(t: Seq<char>) -> bool {
    &&& t.len() == 36
    &&& forall|i: int|
        0 <= i < 36 ==> (if i == 8 || i == 13 || i == 18 || i == 23 {
            #[trigger] t[i] == '-'
        } else {
            is_lower_hex_char(t[i])
        })
    &&& t[14] == '4'
    &&& (t[19] == '8' || t[19] == '9' || t[19] == 'a' || t[19] == 'b')
}

/// `std::time::Duration::from_secs(secs)`.
pub uninterp spec fn duration_of_secs(secs: u64) -> core::time::Duration;

/// `std::time::Duration::from_millis(millis)`.
pub uninterp spec fn duration_of_millis(millis: u64) -> core::time::Duration;

// ---------------------------------------------------------------------------
// base64
// ---------------------------------------------------------------------------

/// `STANDARD.encode(bytes)`.  The text is canonical padded base64, which
/// `STANDARD.decode` reads back as the same bytes.
#[verifier::external_body]
pub fn base64_standard_encode(bytes: &[u8]) -> (r: String)
    ensures
        r@ == standard_base64(bytes@),
        standard_base64_decoded(r@) == Some(bytes@),
{
    base64::engine::general_purpose::STANDARD.encode(bytes)
}

/// `STANDARD.decode(text)`, with the error dropped.
#[verifier::external_body]
pub fn base64_standard_decode(text: &str) -> (r: Option<Vec<u8>>)
    ensures
        match r {
            Some(b) => standard_base64_decoded(text@) == Some(b@),
            None => standard_base64_decoded(text@) is None,
        },
{
    base64::engine::general_purpose::STANDARD.decode(text).ok()
}

/// `URL_SAFE_NO_PAD.encode(bytes)`.
#[verifier::external_body]
pub fn base64_url_encode(bytes: &[u8]) -> (r: String)
    ensures
        r@ == url_safe_base64(bytes@),
{
    base64::engine::general_purpose::URL_SAFE_NO_PAD.encode(bytes)
}

/// `URL_SAFE_NO_PAD.decode(text)`, with the error dropped.
#[verifier::external_body]
pub fn base64_url_decode(text: &str) -> (r: Option<Vec<u8>>)
    ensures
        match r {
            Some(b) => url_safe_base64_decoded(text@) == Some(b@),
            None => url_safe_base64_decoded(text@) is None,
        },
{
    base64::engine::general_purpose::URL_SAFE_NO_PAD.decode(text).ok()
}

// ---------------------------------------------------------------------------
// sha2
// ---------------------------------------------------------------------------

/// `Sha256::digest(bytes)`: 32 bytes.
#[verifier::external_body]
pub fn sha256(bytes: &[u8]) -> (r: Vec<u8>)
    ensures
        r@ == sha256_digest(bytes@),
        r@.len() == 32,
{
    sha2::Sha256::digest(bytes).to_vec()
}

// ---------------------------------------------------------------------------
// url
// ---------------------------------------------------------------------------

/// `Url::parse(base)?.join(relative)?`, read back as the ASCII serialisation
/// of its origin and its path.
#[verifier::external_body]
pub fn url_join(base: &str, relative: &str) -> (r: Result<(String, String), String>)
    ensures
        match r {
            Ok(p) => url_join_origin_path(base@, relative@) == Ok::<
                (Seq<char>, Seq<char>),
                Seq<char>,
            >((p.0@, p.1@)),
            Err(e) => url_join_origin_path(base@, relative@) == Err::<
                (Seq<char>, Seq<char>),
                Seq<char>,
            >(e@),
        },
{
    let target = url::Url::parse(base).map_err(|e| e.to_string())?.join(relative).map_err(
        |e| e.to_string(),
    )?;
    Ok((target.origin().ascii_serialization(), target.path().to_owned()))
}

/// `Url::parse(base)?` with `query_pairs_mut().extend_pairs(pairs)`,
/// serialised.
#[verifier::external_body]
pub fn url_append_query(base: &str, pairs: &Vec<(String, String)>) -> (r: Result<String, String>)
    ensures
        match r {
            Ok(t) => url_with_query(base@, pairs@.map_values(|p: (String, String)| (p.0@, p.1@)))
                == Ok::<Seq<char>, Seq<char>>(t@),
            Err(e) => url_with_query(base@, pairs@.map_values(|p: (String, String)| (p.0@, p.1@)))
                == Err::<Seq<char>, Seq<char>>(e@),
        },
{
    let mut url = url::Url::parse(base).map_err(|e| e.to_string())?;
    url.query_pairs_mut().extend_pairs(pairs.iter().map(|p| (p.0.as_str(), p.1.as_str())));
    Ok(url.into())
}

/// `Url::parse(text)?.scheme()`.
#[verifier::external_body]
pub fn url_scheme(text: &str) -> (r: Result<String, String>)
    ensures
        match r {
            Ok(s) => url_scheme_of(text@) == Ok::<Seq<char>, Seq<char>>(s@),
            Err(e) => url_scheme_of(text@) == Err::<Seq<char>, Seq<char>>(e@),
        },
{
    Ok(url::Url::parse(text).map_err(|e| e.to_string())?.scheme().to_owned())
}

/// `Url::parse(text)?` with `set_scheme(scheme)`, serialised.
#[verifier::external_body]
pub fn url_set_scheme(text: &str, scheme: &str) -> (r: Option<String>)
    ensures
        match r {
            Some(s) => url_with_scheme(text@, scheme@) == Some(s@),
            None => url_with_scheme(text@, scheme@) is None,
        },
{
    let mut url = url::Url::parse(text).ok()?;
    url.set_scheme(scheme).ok()?;
    Some(url.into())
}

/// `Url::parse(base)?` with `path_segments_mut()?.pop_if_empty().push(segment)`,
/// read back as its path.
#[verifier::external_body]
pub fn url_push_path_segment(base: &str, segment: &str) -> (r: Result<String, Option<String>>)
    ensures
        match r {
            Ok(p) => url_path_with_segment(base@, segment@) == Ok::<Seq<char>, Option<Seq<char>>>(
                p@,
            ),
            Err(Some(e)) => url_path_with_segment(base@, segment@) == Err::<
                Seq<char>,
                Option<Seq<char>>,
            >(Some(e@)),
            Err(None) => url_path_with_segment(base@, segment@) == Err::<
                Seq<char>,
                Option<Seq<char>>,
            >(None),
        },
{
    let mut url = url::Url::parse(base).map_err(|e| Some(e.to_string()))?;
    url.path_segments_mut().map_err(|_| None)?.pop_if_empty().push(segment);
    Ok(url.path().to_owned())
}

/// `form_urlencoded::byte_serialize(text.as_bytes()).collect::<String>()`,
/// as `form_component` spells out.
#[verifier::external_body]
pub fn form_urlencode(text: &str) -> (r: String)
    ensures
        r@ == form_component(text@),
{
    url::form_urlencoded::byte_serialize(text.as_bytes()).collect()
}

/// `form_urlencoded::Serializer::new(String::new())` with `pairs` appended,
/// finished, as `form_query` spells out.
#[verifier::external_body]
pub fn form_urlencoded_pairs(pairs: &Vec<(String, String)>) -> (r: String)
    ensures
        r@ == form_query(pairs@.map_values(|p: (String, String)| (p.0@, p.1@))),
{
    url::form_urlencoded::Serializer::new(String::new()).extend_pairs(
        pairs.iter().map(|p| (p.0.as_str(), p.1.as_str())),
    ).finish()
}

/// `Url::parse(text)?`, read back as its path and its query pairs.
#[verifier::external_body]
pub fn url_path_and_query(text: &str) -> (r: Result<(String, Vec<(String, String)>), String>)
    ensures
        match r {
            Ok(p) => url_path_query(text@) == Ok::<
                (Seq<char>, Seq<(Seq<char>, Seq<char>)>),
                Seq<char>,
            >((p.0@, p.1@.map_values(|q: (String, String)| (q.0@, q.1@)))),
            Err(e) => url_path_query(text@) == Err::<
                (Seq<char>, Seq<(Seq<char>, Seq<char>)>),
                Seq<char>,
            >(e@),
        },
{
    let url = url::Url::parse(text).map_err(|e| e.to_string())?;
    Ok((url.path().to_owned(), url.query_pairs().into_owned().collect()))
}

// ---------------------------------------------------------------------------
// http status codes, through reqwest
// ---------------------------------------------------------------------------

/// `StatusCode::from_u16(status)` followed by `canonical_reason()`: the
/// reason phrase that `StatusCode`'s `Display` writes after the number, or
/// `None` when the number is no status code or has no known reason.
#[verifier::external_body]
pub fn status_reason(status: u16) -> (r: Option<&'static str>)
    ensures
        match r {
            Some(t) => status_reason_phrase(status) == Some(t@),
            None => status_reason_phrase(status) is None,
        },
{
    reqwest::StatusCode::from_u16(status).ok()?.canonical_reason()
}

// ---------------------------------------------------------------------------
// chrono
// ---------------------------------------------------------------------------

/// `DateTime::parse_from_rfc3339(text)`, read back as its `timestamp()`.
#[verifier::external_body]
pub fn rfc3339_timestamp(text: &str) -> (r: Option<i64>)
    ensures
        r == rfc3339_seconds(text@),
{
    chrono::DateTime::parse_from_rfc3339(text).ok().map(|t| t.timestamp())
}

// ---------------------------------------------------------------------------
// serde_json
// ---------------------------------------------------------------------------

/// `serde_json::from_slice::<Value>(bytes)` followed by `is_object`: `None`
/// when the text is rejected.
#[verifier::external_body]
pub fn json_object_check(bytes: &[u8]) -> (r: Option<bool>)
    ensures
        r == json_text_kind(bytes@),
{
    serde_json::from_slice::<serde_json::Value>(bytes).ok().map(|v| v.is_object())
}

// ---------------------------------------------------------------------------
// subtle
// ---------------------------------------------------------------------------

/// `a.ct_eq(b)` on byte slices: 1 exactly when both have the same length and
/// the same bytes.
#[verifier::external_body]
pub fn constant_time_bytes_eq(a: &[u8], b: &[u8]) -> (r: bool)
    ensures
        r == (a@ == b@),
{
    a.ct_eq(b).into()
}

// ---------------------------------------------------------------------------
// rand
// ---------------------------------------------------------------------------

/// `length` bytes from `rand::rng()`, the thread's cryptographically secure
/// generator, via `fill_bytes`.  Only the length is stated: the bytes depend
/// on chance.
#[verifier::external_body]
pub fn random_bytes(length: usize) -> (r: Vec<u8>)
    ensures
        r@.len() == length,
{
    let mut bytes = vec![0u8; length];
    rand::rng().fill_bytes(&mut bytes);
    bytes
}

// ---------------------------------------------------------------------------
// uuid
// ---------------------------------------------------------------------------

/// `Uuid::new_v4().to_string()`: a fresh random identifier.  Which one depends
/// on chance; its text is always a hyphenated lowercase version 4 UUID.
#[verifier::external_body]
pub fn new_stream_id() -> (r: String)
    ensures
        is_v4_uuid_text(r@),
{
    uuid::Uuid::new_v4().to_string()
}

// ---------------------------------------------------------------------------
// std
// ---------------------------------------------------------------------------

/// `std::str::from_utf8(bytes)`, owned: text exactly when the bytes are
/// valid UTF-8, and then the characters they encode.
#[verifier::external_body]
pub fn utf8_text(bytes: &[u8]) -> (r: Option<String>)
    ensures
        match r {
            Some(s) => valid_utf8(bytes@) && s@ == decode_utf8(bytes@),
            None => !valid_utf8(bytes@),
        },
{
    std::str::from_utf8(bytes).ok().map(|s| s.to_owned())
}

/// `Duration::from_secs(secs)`.
#[verifier::external_body]
pub fn duration_from_secs(secs: u64) -> (r: core::time::Duration)
    ensures
        r == duration_of_secs(secs),
{
    core::time::Duration::from_secs(secs)
}

/// `Duration::from_millis(millis)`.
#[verifier::external_body]
pub fn duration_from_millis(millis: u64) -> (r: core::time::Duration)
    ensures
        r == duration_of_millis(millis),
{
    core::time::Duration::from_millis(millis)
}

} // verus!
