//! Framing of the relay websocket: splitting large client messages into
//! segments, reassembling segmented server messages, and following one
//! relay stream.
use vstd::prelude::*;
use crate::error::Error;
use crate::error::RelayField;
use crate::json::{
    Json, JsonV, NumberV, encode, entries_view, insert_entry, insert_member, json_eq,
    key_index, insert_position, lemma_insert_position_bound, lemma_lookup_at, lemma_lookup_insert,
    lemma_lookup_key_index, lemma_lookup_none, lemma_lookup_remove, lemma_object_view, lookup,
    remove_entry, remove_member, to_bytes, duplicate_entries,
};
use crate::outside::{
    base64_standard_encode, is_v4_uuid_text, new_stream_id, standard_base64, standard_base64_decoded, url_scheme,
    url_scheme_of,
    url_set_scheme, url_with_scheme,
};
use crate::auth::{CodexAuth, CodexAuthV};
use crate::protocol::{
    EnrollmentRecord, RELAY_PROTOCOL_VERSION, client_envelope_value, client_message_envelope,
};
use crate::relay::RemoteControlSession;
use crate::reassembly::{
    AssemblyV, Observed, ObservedV, ReassemblerV, ServerMessageReassembler, observe_outcome,
    read_string_field, string_field,
};
use crate::protocol::API_BASE;
use crate::text::{decimal, push_decimal, push_str, str_eq, string_of};

verus! {

/// Serialised envelopes up to this size go out whole.
pub const SEGMENT_TARGET_BYTES: usize = 102400;

/// No frame that is sent or received may exceed this size.
pub const MAX_FRAME_BYTES: usize = 153600;

/// No app-server message may exceed this size.
pub const MAX_MESSAGE_BYTES: usize = 67108864;

/// The most segments that a message of `MAX_MESSAGE_BYTES` needs.
pub const MAX_SEGMENTS: usize = 656;

/// At most this many segmented server messages may be incomplete at once.
pub const MAX_CONCURRENT_ASSEMBLIES: usize = 8;

/// At most this many bytes of incomplete server messages are buffered.
pub const MAX_BUFFERED_ASSEMBLY_BYTES: usize = 67108864;

// ---------------------------------------------------------------------------
// Relay websocket URL
// ---------------------------------------------------------------------------

/// The HTTPS endpoint of the controller websocket.
pub open spec fn relay_http_url() -> Seq<char> {
    API_BASE@ + "/codex/remote/control/client"@
}

/// The websocket scheme that matches a URL's scheme: `wss` for `https`,
/// `ws` for anything else.
pub open spec fn websocket_scheme_for(scheme: Seq<char>) -> Seq<char> {
    if scheme == "https"@ {
        "wss"@
    } else {
        "ws"@
    }
}

/// The relay websocket URL: the controller endpoint with its scheme switched
/// to the websocket one.
pub fn relay_websocket_url() -> (r: Result<String, Error>)
    ensures
        match r {
            Ok(u) => url_scheme_of(relay_http_url()) matches Ok(s) && url_with_scheme(
                relay_http_url(),
                websocket_scheme_for(s),
            ) == Some(u@),
            Err(e) => (url_scheme_of(relay_http_url()) matches Err(t) && e matches Error::InvalidUrl(
                m,
            ) && m@ == t) || (e == Error::InvalidWebsocketScheme && (url_scheme_of(
                relay_http_url(),
            ) matches Ok(s) && url_with_scheme(relay_http_url(), websocket_scheme_for(s)) is None)),
        },
{
    let mut text = string_of(API_BASE);
    push_str(&mut text, "/codex/remote/control/client");
    let scheme = match url_scheme(text.as_str()) {
        Ok(s) => s,
        Err(t) => return Err(Error::InvalidUrl(t)),
    };
    let target: &str = if str_eq(scheme.as_str(), "https") {
        "wss"
    } else {
        "ws"
    };
    match url_set_scheme(text.as_str(), target) {
        Some(u) => Ok(u),
        None => Err(Error::InvalidWebsocketScheme),
    }
}

// ---------------------------------------------------------------------------
// Arithmetic of segment sizes
// ---------------------------------------------------------------------------

/// `usize::div_ceil`.
pub open spec fn div_ceil(a: nat, b: nat) -> nat {
    if b == 0 {
        0
    } else {
        ((a + b - 1) / (b as int)) as nat
    }
}

/// The chunk size used when a message of `len` bytes is cut into `count`
/// segments: `len.div_ceil(count).max(1)`.
pub open spec fn chunk_size(len: nat, count: nat) -> nat {
    if div_ceil(len, count) < 1 {
        1
    } else {
        div_ceil(len, count)
    }
}

pub proof fn lemma_div_ceil_gt(a: nat, d: nat, m: nat)
    requires
        d >= 1,
    ensures
        div_ceil(a, d) > m <==> a > m * d,
{
    let q = (a + d - 1) / (d as int);
    assert(q * d <= a + d - 1 < q * d + d) by (nonlinear_arith)
        requires
            q == (a + d - 1) / (d as int),
            d >= 1,
    ;
    assert(q > m ==> q >= m + 1);
    assert(q >= m + 1 ==> q * d >= (m + 1) * d) by (nonlinear_arith)
        requires
            d >= 1,
    ;
    assert(q <= m ==> q * d <= m * d) by (nonlinear_arith)
        requires
            d >= 1,
    ;
    assert((m + 1) * d == m * d + d) by (nonlinear_arith);
}

pub proof fn lemma_mul_monotone(c: nat, a: nat, b: nat)
    requires
        a <= b,
    ensures
        c * a <= c * b,
{
    assert(c * a <= c * b) by (nonlinear_arith)
        requires
            a <= b,
    ;
}

/// Between `count` and the next count that changes the chunk size, every
/// count gives the same chunk size.
pub proof fn lemma_chunk_size_run(len: nat, count: nat, k: nat)
    requires
        count >= 1,
        chunk_size(len, count) >= 2,
        count <= k < div_ceil(len, (chunk_size(len, count) - 1) as nat),
    ensures
        chunk_size(len, k) == chunk_size(len, count),
{
    let c = chunk_size(len, count);
    lemma_div_ceil_gt(len, count, c);
    lemma_mul_monotone(c, count, k);
    assert(c * count == count * c) by (nonlinear_arith);
    assert(c * k == k * c) by (nonlinear_arith);
    lemma_div_ceil_gt(len, k, c);
    lemma_div_ceil_gt(len, (c - 1) as nat, k);
    assert(k * ((c - 1) as nat) == ((c - 1) as nat) * k) by (nonlinear_arith);
    lemma_div_ceil_gt(len, k, (c - 1) as nat);
}

/// The next count that changes the chunk size is larger than `count` and at
/// most `len`.
pub proof fn lemma_chunk_size_next(len: nat, count: nat)
    requires
        count >= 1,
        chunk_size(len, count) >= 2,
    ensures
        count < div_ceil(len, (chunk_size(len, count) - 1) as nat) <= len,
{
    let c = chunk_size(len, count);
    lemma_div_ceil_gt(len, count, (c - 1) as nat);
    lemma_div_ceil_gt(len, (c - 1) as nat, count);
    assert(((c - 1) as nat) * count == count * ((c - 1) as nat)) by (nonlinear_arith);
    lemma_div_ceil_gt(len, (c - 1) as nat, len);
    assert(len * ((c - 1) as nat) >= len) by (nonlinear_arith)
        requires
            c >= 2,
    ;
}

/// Once the chunk size is one byte, every larger count keeps it.
pub proof fn lemma_chunk_size_one(len: nat, count: nat, k: nat)
    requires
        count >= 1,
        chunk_size(len, count) == 1,
        count <= k,
    ensures
        chunk_size(len, k) == 1,
{
    lemma_div_ceil_gt(len, count, 1);
    lemma_mul_monotone(1, count, k);
    lemma_div_ceil_gt(len, k, 1);
}

// ---------------------------------------------------------------------------
// Segments of a client message
// ---------------------------------------------------------------------------

/// Chunk `i` of `bytes` cut into chunks of `c` bytes, as `slice::chunks`
/// gives them.
pub open spec fn chunk_of(bytes: Seq<u8>, c: nat, i: nat) -> Seq<u8> {
    let start = i * c;
    let end = if (i + 1) * c < bytes.len() {
        (i + 1) * c
    } else {
        bytes.len()
    };
    bytes.subrange(start as int, end as int)
}

/// Segment `i` of `n`: the envelope's members without `message`, marked as a
/// chunk, with the segment's position, the message size and the chunk in
/// base64.
pub open spec fn segment_value(
    envelope: Seq<(Seq<char>, JsonV)>,
    bytes: Seq<u8>,
    c: nat,
    i: nat,
    n: nat,
) -> JsonV {
    let marked = insert_entry(envelope, "type"@, JsonV::Str("client_message_chunk"@));
    let stripped = remove_entry(marked, "message"@);
    let with_id = insert_entry(stripped, "segment_id"@, JsonV::Number(NumberV::PosInt(i as u64)));
    let with_count = insert_entry(
        with_id,
        "segment_count"@,
        JsonV::Number(NumberV::PosInt(n as u64)),
    );
    let with_size = insert_entry(
        with_count,
        "message_size_bytes"@,
        JsonV::Number(NumberV::PosInt(bytes.len() as u64)),
    );
    JsonV::Obj(
        insert_entry(
            with_size,
            "message_chunk_base64"@,
            JsonV::Str(standard_base64(chunk_of(bytes, c, i))),
        ),
    )
}

/// All segments of a message cut into chunks of `c` bytes.
pub open spec fn split_segments(envelope: Seq<(Seq<char>, JsonV)>, bytes: Seq<u8>, c: nat) -> Seq<
    JsonV,
> {
    let n = div_ceil(bytes.len(), c);
    Seq::new(n, |i: int| segment_value(envelope, bytes, c, i as nat, n))
}

/// Whether every segment's JSON text fits in a frame.
pub open spec fn segments_fit(segments: Seq<JsonV>) -> bool {
    forall|i: int| 0 <= i < segments.len() ==> encode(#[trigger] segments[i]).len() <= MAX_FRAME_BYTES
}

/// The segment count tried first for a message of `len` bytes.
pub open spec fn first_count(len: nat) -> nat {
    if div_ceil(len, SEGMENT_TARGET_BYTES as nat) < 1 {
        1
    } else {
        div_ceil(len, SEGMENT_TARGET_BYTES as nat)
    }
}

/// Whether the segments for `count` requested segments fit in frames.
pub open spec fn count_fits(envelope: Seq<(Seq<char>, JsonV)>, bytes: Seq<u8>, count: nat) -> bool {
    segments_fit(split_segments(envelope, bytes, chunk_size(bytes.len(), count)))
}

/// Whether `count` is the first segment count, from the first one tried,
/// whose segments fit in frames.
pub open spec fn first_fitting_count(
    envelope: Seq<(Seq<char>, JsonV)>,
    bytes: Seq<u8>,
    count: nat,
) -> bool {
    &&& first_count(bytes.len()) <= count
    &&& count_fits(envelope, bytes, count)
    &&& forall|k: nat| first_count(bytes.len()) <= k < count ==> !count_fits(envelope, bytes, k)
}

/// Whether `segments` are the segments for the first fitting count.
pub open spec fn is_segmentation(
    envelope: Seq<(Seq<char>, JsonV)>,
    bytes: Seq<u8>,
    segments: Seq<JsonV>,
) -> bool {
    exists|count: nat|
        #[trigger] first_fitting_count(envelope, bytes, count) && segments == split_segments(
            envelope,
            bytes,
            chunk_size(bytes.len(), count),
        )
}

/// The views of a list of JSON values, or the error.
pub open spec fn json_list_result(r: Result<Vec<Json>, Error>) -> Result<Seq<JsonV>, Error> {
    match r {
        Ok(v) => Ok(v@.map_values(|s: Json| s@)),
        Err(e) => Err(e),
    }
}

/// What `segment_client_message` gives for `envelope`: the envelope itself
/// when its JSON text is at most `SEGMENT_TARGET_BYTES`; otherwise the
/// segments for the first segment count whose segments all fit in a frame,
/// or the reason that there are none.
pub open spec fn segmentation_result(envelope: JsonV, r: Result<Seq<JsonV>, Error>) -> bool {
    if encode(envelope).len() <= SEGMENT_TARGET_BYTES {
        r == Ok::<Seq<JsonV>, Error>(seq![envelope])
    } else {
        match segmenting_precheck(envelope) {
            Err(e) => r == Err::<Seq<JsonV>, Error>(e),
            Ok(bytes) => match r {
                Ok(v) => is_segmentation(members_of(envelope), bytes, v),
                Err(e) => e == Error::SegmentMetadataTooLarge && forall|k: nat|
                    first_count(bytes.len()) <= k ==> !count_fits(members_of(envelope), bytes, k),
            },
        }
    }
}

/// The members of an envelope, when it is an object.
pub open spec fn members_of(v: JsonV) -> Seq<(Seq<char>, JsonV)> {
    match v {
        JsonV::Obj(e) => e,
        _ => Seq::empty(),
    }
}

/// What `segment_client_message` gives for an envelope whose JSON text is
/// larger than `SEGMENT_TARGET_BYTES`, apart from the outcome of the search
/// for a chunk size.
pub open spec fn segmenting_precheck(envelope: JsonV) -> Result<Seq<u8>, Error> {
    if envelope.str_field("type"@) != Some("client_message"@) {
        Err(Error::SegmentingNonClientMessage)
    } else if envelope.get("message"@) is None {
        Err(Error::ClientEnvelopeHasNoMessage)
    } else if encode(envelope.get("message"@)->0).len() > MAX_MESSAGE_BYTES {
        Err(Error::MessageTooLarge)
    } else {
        Ok(encode(envelope.get("message"@)->0))
    }
}

fn chunk_bytes(bytes: &Vec<u8>, start: usize, end: usize) -> (r: Vec<u8>)
    requires
        start <= end <= bytes@.len(),
    ensures
        r@ == bytes@.subrange(start as int, end as int),
{
    let mut out: Vec<u8> = Vec::new();
    let mut i = start;
    while i < end
        invariant
            start <= i <= end <= bytes@.len(),
            out@ == bytes@.subrange(start as int, i as int),
        decreases end - i,
    {
        out.push(bytes[i]);
        assert(bytes@.subrange(start as int, i + 1) =~= bytes@.subrange(start as int, i as int).push(
            bytes@[i as int],
        ));
        i += 1;
    }
    out
}

/// Builds segment `i` of `n`.
fn build_segment(
    envelope: &Vec<(String, Json)>,
    bytes: &Vec<u8>,
    c: usize,
    i: usize,
    n: usize,
    start: usize,
    end: usize,
) -> (r: Json)
    requires
        start == i * c,
        end == (if (i + 1) * c < bytes@.len() {
            (i + 1) * c
        } else {
            bytes@.len() as int
        }),
        start <= end <= bytes@.len(),
    ensures
        r@ == segment_value(entries_view(envelope@), bytes@, c as nat, i as nat, n as nat),
        standard_base64_decoded(standard_base64(chunk_of(bytes@, c as nat, i as nat))) == Some(
            chunk_of(bytes@, c as nat, i as nat),
        ),
{
    let mut members = duplicate_entries(envelope);
    insert_member(&mut members, string_of("type"), Json::string("client_message_chunk"));
    remove_member(&mut members, "message");
    insert_member(&mut members, string_of("segment_id"), Json::unsigned(i as u64));
    insert_member(&mut members, string_of("segment_count"), Json::unsigned(n as u64));
    insert_member(&mut members, string_of("message_size_bytes"), Json::unsigned(bytes.len() as u64));
    let chunk = chunk_bytes(bytes, start, end);
    let encoded = base64_standard_encode(chunk.as_slice());
    insert_member(&mut members, string_of("message_chunk_base64"), Json::String(encoded));
    proof {
        lemma_object_view(members);
    }
    Json::Object(members)
}

/// All segments of the message cut into chunks of `c` bytes.
fn build_segments(envelope: &Vec<(String, Json)>, bytes: &Vec<u8>, c: usize) -> (r: Vec<Json>)
    requires
        1 <= c <= MAX_MESSAGE_BYTES,
        bytes@.len() <= MAX_MESSAGE_BYTES,
    ensures
        r@.len() == split_segments(entries_view(envelope@), bytes@, c as nat).len(),
        forall|k: int|
            0 <= k < r@.len() ==> (#[trigger] r@[k])@ == split_segments(
                entries_view(envelope@),
                bytes@,
                c as nat,
            )[k],
        chunks_round_trip(bytes@, c as nat, div_ceil(bytes@.len(), c as nat)),
{
    let len = bytes.len();
    let n: usize = (len + c - 1) / c;
    let ghost target = split_segments(entries_view(envelope@), bytes@, c as nat);
    assert(target.len() == n);
    let mut out: Vec<Json> = Vec::new();
    let mut i: usize = 0;
    let mut start: usize = 0;
    while i < n
        invariant
            c >= 1,
            len == bytes@.len() <= MAX_MESSAGE_BYTES,
            n == div_ceil(len as nat, c as nat),
            target == split_segments(entries_view(envelope@), bytes@, c as nat),
            target.len() == n,
            i <= n,
            i < n ==> start == i * c,
            out@.len() == i,
            forall|k: int| 0 <= k < i ==> (#[trigger] out@[k])@ == target[k],
            chunks_round_trip(bytes@, c as nat, i as nat),
        decreases n - i,
    {
        proof {
            lemma_div_ceil_gt(len as nat, c as nat, i as nat);
            lemma_div_ceil_gt(len as nat, c as nat, (i + 1) as nat);
            assert(i * c == c * i) by (nonlinear_arith);
            assert((i + 1) * c == c * (i + 1)) by (nonlinear_arith);
            assert((i + 1) * c == i * c + c) by (nonlinear_arith);
        }
        let end: usize = if len - start > c {
            start + c
        } else {
            len
        };
        let segment = build_segment(envelope, bytes, c, i, n, start, end);
        assert forall|k: nat| k < i + 1 implies standard_base64_decoded(
            standard_base64(#[trigger] chunk_of(bytes@, c as nat, k)),
        ) == Some(chunk_of(bytes@, c as nat, k)) by {
            if k < i {
                assert(chunks_round_trip(bytes@, c as nat, i as nat));
            }
        }
        out.push(segment);
        i += 1;
        start = end;
    }
    out
}

/// Whether every segment's JSON text fits in a frame.
fn all_fit(segments: &Vec<Json>) -> (r: bool)
    ensures
        r == segments_fit(segments@.map_values(|s: Json| s@)),
{
    let ghost views = segments@.map_values(|s: Json| s@);
    let mut i: usize = 0;
    while i < segments.len()
        invariant
            i <= segments@.len(),
            views == segments@.map_values(|s: Json| s@),
            forall|k: int| 0 <= k < i ==> encode(#[trigger] views[k]).len() <= MAX_FRAME_BYTES,
        decreases segments@.len() - i,
    {
        let text = to_bytes(&segments[i]);
        if text.len() > MAX_FRAME_BYTES {
            assert(encode(views[i as int]).len() > MAX_FRAME_BYTES);
            return false;
        }
        i += 1;
    }
    true
}

/// Splits a relay client envelope whose JSON text exceeds
/// `SEGMENT_TARGET_BYTES` into chunk envelopes that each fit in a frame.
///
/// The segment counts are tried from the smallest that keeps chunks under the
/// target size upward; the first count whose segments all fit is used.
pub fn segment_client_message(envelope: &Json) -> (r: Result<Vec<Json>, Error>)
    ensures
        segmentation_result(envelope@, json_list_result(r)),
        match r {
            Ok(v) => encode(envelope@).len() > SEGMENT_TARGET_BYTES ==> decoded_chunks(
                v@.map_values(|s: Json| s@),
            ) == Some(encode(envelope@.get("message"@)->0)),
            Err(_) => true,
        },
{
    let serialized = to_bytes(envelope);
    if serialized.len() <= SEGMENT_TARGET_BYTES {
        let mut whole: Vec<Json> = Vec::new();
        whole.push(envelope.duplicate());
        assert(whole@.map_values(|s: Json| s@) =~= seq![envelope@]);
        return Ok(whole);
    }
    let is_client_message = match envelope.str_field("type") {
        Some(t) => str_eq(t, "client_message"),
        None => false,
    };
    if !is_client_message {
        return Err(Error::SegmentingNonClientMessage);
    }
    let message = match envelope.get("message") {
        Some(m) => m,
        None => return Err(Error::ClientEnvelopeHasNoMessage),
    };
    let message_bytes = to_bytes(message);
    if message_bytes.len() > MAX_MESSAGE_BYTES {
        return Err(Error::MessageTooLarge);
    }
    let entries = match envelope {
        Json::Object(e) => e,
        _ => {
            assert(envelope@.get("type"@) is None);
            return Err(Error::SegmentingNonClientMessage);
        },
    };
    proof {
        lemma_object_view(*entries);
    }
    let ghost ev = entries_view(entries@);
    let ghost bv = message_bytes@;
    let len = message_bytes.len();
    let first: usize = if (len + SEGMENT_TARGET_BYTES - 1) / SEGMENT_TARGET_BYTES < 1 {
        1
    } else {
        (len + SEGMENT_TARGET_BYTES - 1) / SEGMENT_TARGET_BYTES
    };
    let mut count: usize = first;
    loop
        invariant
            len == bv.len() <= MAX_MESSAGE_BYTES,
            message_bytes@ == bv,
            ev == entries_view(entries@),
            ev == members_of(envelope@),
            segmenting_precheck(envelope@) == Ok::<Seq<u8>, Error>(bv),
            encode(envelope@).len() > SEGMENT_TARGET_BYTES,
            first == first_count(len as nat),
            first <= count <= (if len > first { len } else { first }),
            count >= 1,
            forall|k: nat| first <= k < count ==> !count_fits(ev, bv, k),
        decreases (if len > first { len } else { first }) - count,
    {
        let c: usize = if (len + count - 1) / count < 1 {
            1
        } else {
            (len + count - 1) / count
        };
        assert(c == chunk_size(len as nat, count as nat));
        assert(c <= MAX_MESSAGE_BYTES) by {
            if c > 1 {
                assert((len + count - 1) / (count as int) <= len) by (nonlinear_arith)
                    requires
                        count >= 1,
                        len + count - 1 >= count,
                ;
            }
        }
        let segments = build_segments(entries, &message_bytes, c);
        assert(segments@.map_values(|s: Json| s@) =~= split_segments(ev, bv, c as nat));
        if all_fit(&segments) {
            proof {
                let cn = count as nat;
                assert(count_fits(ev, bv, cn));
                assert(first_fitting_count(ev, bv, cn));
                let n = div_ceil(bv.len(), c as nat);
                lemma_decoded_prefix(ev, bv, c as nat, n);
                assert(split_segments(ev, bv, c as nat).take(n as int) =~= split_segments(
                    ev,
                    bv,
                    c as nat,
                ));
                lemma_chunks_join_to_message(bv, c as nat);
            }
            return Ok(segments);
        }
        if c == 1 {
            proof {
                assert forall|k: nat| first <= k implies !count_fits(ev, bv, k) by {
                    if k >= count {
                        lemma_chunk_size_one(len as nat, count as nat, k);
                    }
                }
            }
            return Err(Error::SegmentMetadataTooLarge);
        }
        let next: usize = (len + (c - 1) - 1) / (c - 1);
        proof {
            lemma_chunk_size_next(len as nat, count as nat);
            assert forall|k: nat| first <= k < next implies !count_fits(ev, bv, k) by {
                if k >= count {
                    lemma_chunk_size_run(len as nat, count as nat, k);
                }
            }
        }
        count = next;
    }
}

// ---------------------------------------------------------------------------
// One relay stream
// ---------------------------------------------------------------------------

/// A relay stream: who this controller is, the host it talks to, the stream
/// it is on, the sequence numbers on both sides, the requests still waiting
/// for an answer and the server messages still being reassembled.
pub struct RelayTransportV {
    pub client_id: Seq<char>,
    pub environment_id: Seq<char>,
    pub next_client_sequence: u64,
    pub pending_request_ids: Seq<JsonV>,
    pub reassembler: ReassemblerV,
    pub seen_server_sequence: Option<u64>,
    pub stream_id: Seq<char>,
}

/// The state of one relay stream, without its socket.
pub struct RelayTransport {
    client_id: String,
    environment_id: String,
    next_client_sequence: u64,
    pending_request_ids: Vec<Json>,
    reassembler: ServerMessageReassembler,
    seen_server_sequence: Option<u64>,
    stream_id: String,
}

impl View for RelayTransport {
    type V = RelayTransportV;

    closed spec fn view(&self) -> RelayTransportV {
        RelayTransportV {
            client_id: self.client_id@,
            environment_id: self.environment_id@,
            next_client_sequence: self.next_client_sequence,
            pending_request_ids: self.pending_request_ids@.map_values(|j: Json| j@),
            reassembler: self.reassembler@,
            seen_server_sequence: self.seen_server_sequence,
            stream_id: self.stream_id@,
        }
    }
}

impl RelayTransportV {
    /// The stream's reassembler keeps its limits.
    pub open spec fn wf(self) -> bool {
        self.reassembler.wf()
    }
}

/// `n.saturating_add(1)`.
pub open spec fn saturating_inc(n: u64) -> u64 {
    if n == u64::MAX {
        n
    } else {
        (n + 1) as u64
    }
}

/// An empty reassembler.
pub open spec fn empty_reassembler() -> ReassemblerV {
    ReassemblerV { assemblies: Seq::empty(), buffered: 0 }
}

/// A fresh stream for `client_id` and `environment_id`.
pub open spec fn opened(client_id: Seq<char>, environment_id: Seq<char>, stream_id: Seq<char>) -> RelayTransportV {
    RelayTransportV {
        client_id,
        environment_id,
        next_client_sequence: 1,
        pending_request_ids: Seq::empty(),
        reassembler: empty_reassembler(),
        seen_server_sequence: None,
        stream_id,
    }
}

/// Whether an app-server message opens a new session: its `method` is
/// `initialize`.
pub open spec fn is_initialize(message: JsonV) -> bool {
    message.str_field("method"@) == Some("initialize"@)
}

/// The `id` of a message when it is a string or a number: the id of a
/// request that waits for its answer.
pub open spec fn request_id(message: JsonV) -> Option<JsonV> {
    match message.get("id"@) {
        Some(id) => if id is Str || id is Number {
            Some(id)
        } else {
            None
        },
        None => None,
    }
}

/// The state from which `message` is sent: a new stream with fresh numbering
/// when `message` is an `initialize`, on the stream `fresh_stream_id`.
pub open spec fn sending_state(s: RelayTransportV, message: JsonV, fresh_stream_id: Seq<char>) -> RelayTransportV {
    if is_initialize(message) {
        opened(s.client_id, s.environment_id, fresh_stream_id)
    } else {
        s
    }
}

/// The client envelope of `message` sent from state `s`.
pub open spec fn sent_envelope(s: RelayTransportV, message: JsonV) -> JsonV {
    client_envelope_value(
        s.client_id,
        s.environment_id,
        s.stream_id,
        s.next_client_sequence,
        message,
    )
}

/// State `s` after sending `message`: its request id waits for an answer and
/// the next sequence number is one more, saturating.
pub open spec fn after_send(s: RelayTransportV, message: JsonV) -> RelayTransportV {
    RelayTransportV {
        pending_request_ids: match request_id(message) {
            Some(id) => s.pending_request_ids.push(id),
            None => s.pending_request_ids,
        },
        next_client_sequence: saturating_inc(s.next_client_sequence),
        ..s
    }
}

/// The index of the first item equal to `x`.
pub open spec fn position_of(items: Seq<JsonV>, x: JsonV) -> Option<nat>
    decreases items.len(),
{
    if items.len() == 0 {
        None
    } else if items[0] == x {
        Some(0)
    } else {
        match position_of(items.drop_first(), x) {
            Some(i) => Some(i + 1),
            None => None,
        }
    }
}

/// The answer to a pending request, once the server's sequence number has
/// been accepted: an `error` without an `id` answers the oldest pending
/// request and is rewritten as `{"error": .., "id": ..}` without its `type`;
/// a message with the `id` of a pending request answers that request.
pub open spec fn answer_outcome(s: RelayTransportV, message: JsonV) -> (RelayTransportV, Result<
    Option<JsonV>,
    Error,
>) {
    if message.str_field("type"@) == Some("error"@) && message.get("id"@) is None {
        if s.pending_request_ids.len() == 0 {
            (s, Err(Error::ErrorWithoutPendingRequest))
        } else {
            let id = s.pending_request_ids[0];
            let rest = RelayTransportV { pending_request_ids: s.pending_request_ids.drop_first(), ..s };
            match message {
                JsonV::Obj(entries) => (
                    rest,
                    Ok(
                        Some(
                            JsonV::Obj(
                                seq![("error"@, JsonV::Obj(remove_entry(entries, "type"@))), ("id"@, id)],
                            ),
                        ),
                    ),
                ),
                _ => (rest, Err(Error::ErrorPayloadNotObject)),
            }
        }
    } else {
        match message.get("id"@) {
            Some(id) => match position_of(s.pending_request_ids, id) {
                Some(p) => (
                    RelayTransportV {
                        pending_request_ids: s.pending_request_ids.remove(p as int),
                        ..s
                    },
                    Ok(Some(message)),
                ),
                None => (s, Ok(Some(message))),
            },
            None => (s, Ok(Some(message))),
        }
    }
}

/// What a complete server envelope gives: nothing when its sequence number
/// was already seen, an error on a gap, and otherwise the app-server message
/// it carries.
pub open spec fn delivery_outcome(s: RelayTransportV, envelope: JsonV) -> (RelayTransportV, Result<
    Option<JsonV>,
    Error,
>) {
    match envelope.get("seq_id"@) {
        None => (s, Err(Error::ServerMessageNoSequence)),
        Some(v) => match v.as_u64() {
            None => (s, Err(Error::ServerMessageNoSequence)),
            Some(seq) => if s.seen_server_sequence matches Some(seen) && seq <= seen {
                (s, Ok(None))
            } else if s.seen_server_sequence matches Some(seen) && seq != saturating_inc(seen) {
                (s, Err(Error::SequenceGap))
            } else {
                let s1 = RelayTransportV { seen_server_sequence: Some(seq), ..s };
                match envelope.get("message"@) {
                    None => (s1, Err(Error::ServerMessageNoPayload)),
                    Some(m) => answer_outcome(s1, m),
                }
            },
        },
    }
}

/// Whether a server envelope belongs to this controller's host, and then
/// whether it is on the active stream.
pub open spec fn targets_active_stream(
    envelope: JsonV,
    client_id: Seq<char>,
    environment_id: Seq<char>,
    stream_id: Seq<char>,
) -> Result<bool, Error> {
    if !envelope.is_object() {
        Err(Error::EnvelopeNotObject)
    } else {
        match string_field(envelope, RelayField::ClientId) {
            Err(e) => Err(e),
            Ok(c) => if c != client_id {
                Err(Error::EnvelopeTargetsOtherClient)
            } else {
                match string_field(envelope, RelayField::EnvId) {
                    Err(e) => Err(e),
                    Ok(h) => if h != environment_id {
                        Err(Error::EnvelopeTargetsOtherClient)
                    } else {
                        match string_field(envelope, RelayField::StreamId) {
                            Err(e) => Err(e),
                            Ok(st) => Ok(st == stream_id),
                        }
                    },
                }
            },
        }
    }
}

/// Whether a server envelope belongs to this controller's host (an error
/// otherwise), and then whether it is on the active stream.
pub fn server_envelope_targets_active_stream(
    envelope: &Json,
    client_id: &str,
    environment_id: &str,
    stream_id: &str,
) -> (r: Result<bool, Error>)
    ensures
        r == targets_active_stream(envelope@, client_id@, environment_id@, stream_id@),
{
    if !envelope.is_object() {
        return Err(Error::EnvelopeNotObject);
    }
    let c = read_string_field(envelope, RelayField::ClientId)?;
    if !str_eq(c, client_id) {
        return Err(Error::EnvelopeTargetsOtherClient);
    }
    let h = read_string_field(envelope, RelayField::EnvId)?;
    if !str_eq(h, environment_id) {
        return Err(Error::EnvelopeTargetsOtherClient);
    }
    let st = read_string_field(envelope, RelayField::StreamId)?;
    Ok(str_eq(st, stream_id))
}

/// What one server envelope asks of the caller.
pub enum ServerStepV {
    Ignored,
    Deliver(JsonV),
    NeedsMessage(JsonV, Seq<u8>),
}

/// What one server envelope asks of the caller: nothing; an app-server
/// message to hand on; or the header and JSON text of a reassembled message,
/// which the caller parses and passes to `deliver_reassembled`.
pub enum ServerStep {
    Ignored,
    Deliver(Json),
    NeedsMessage(Json, Vec<u8>),
}

impl View for ServerStep {
    type V = ServerStepV;

    open spec fn view(&self) -> ServerStepV {
        match self {
            ServerStep::Ignored => ServerStepV::Ignored,
            ServerStep::Deliver(m) => ServerStepV::Deliver(m@),
            ServerStep::NeedsMessage(h, b) => ServerStepV::NeedsMessage(h@, b@),
        }
    }
}

pub open spec fn step_result_view(r: Result<ServerStep, Error>) -> Result<ServerStepV, Error> {
    match r {
        Ok(s) => Ok(s@),
        Err(e) => Err(e),
    }
}

pub open spec fn message_result_view(r: Result<Option<Json>, Error>) -> Result<Option<JsonV>, Error> {
    match r {
        Ok(Some(m)) => Ok(Some(m@)),
        Ok(None) => Ok(None),
        Err(e) => Err(e),
    }
}

/// The delivery outcome as a step.
pub open spec fn delivery_step(d: Result<Option<JsonV>, Error>) -> Result<ServerStepV, Error> {
    match d {
        Err(e) => Err(e),
        Ok(None) => Ok(ServerStepV::Ignored),
        Ok(Some(m)) => Ok(ServerStepV::Deliver(m)),
    }
}

/// What one server envelope does to the stream and asks of the caller.
pub open spec fn server_step_outcome(s: RelayTransportV, envelope: JsonV) -> (RelayTransportV, Result<
    ServerStepV,
    Error,
>) {
    let kind = envelope.str_field("type"@);
    if kind != Some("server_message"@) && kind != Some("server_message_chunk"@) {
        (s, Ok(ServerStepV::Ignored))
    } else {
        match targets_active_stream(envelope, s.client_id, s.environment_id, s.stream_id) {
            Err(e) => (s, Err(e)),
            Ok(false) => (s, Ok(ServerStepV::Ignored)),
            Ok(true) => {
                let (r, o) = observe_outcome(s.reassembler, envelope);
                let s2 = RelayTransportV { reassembler: r, ..s };
                match o {
                    Err(e) => (s2, Err(e)),
                    Ok(None) => (s2, Ok(ServerStepV::Ignored)),
                    Ok(Some(ObservedV::Reassembled(h, b))) => (s2, Ok(ServerStepV::NeedsMessage(h, b))),
                    Ok(Some(ObservedV::Envelope(e))) => {
                        let (s3, d) = delivery_outcome(s2, e);
                        (s3, delivery_step(d))
                    },
                }
            },
        }
    }
}

/// The envelope of a reassembled message: its header with `message` added.
pub open spec fn reassembled_envelope(header: JsonV, message: JsonV) -> JsonV {
    match header {
        JsonV::Obj(entries) => JsonV::Obj(insert_entry(entries, "message"@, message)),
        _ => header,
    }
}

/// The envelope that tells the relay this controller has closed the stream.
pub open spec fn closed_envelope(s: RelayTransportV) -> JsonV {
    JsonV::Obj(
        seq![
            ("client_id"@, JsonV::Str(s.client_id)),
            ("env_id"@, JsonV::Str(s.environment_id)),
            ("seq_id"@, JsonV::Number(NumberV::PosInt(s.next_client_sequence))),
            ("stream_id"@, JsonV::Str(s.stream_id)),
            ("type"@, JsonV::Str("client_closed"@)),
        ],
    )
}

fn clear_pending(v: &mut Vec<Json>)
    ensures
        final(v)@.len() == 0,
{
    v.clear();
}

impl RelayTransport {
    /// A new stream for this controller and host, on a fresh random stream id:
    /// a version 4 UUID in its hyphenated lowercase text.
    pub fn open(client_id: &str, environment_id: &str) -> (r: Self)
        ensures
            r@ == opened(client_id@, environment_id@, r@.stream_id),
            is_v4_uuid_text(r@.stream_id),
            r@.wf(),
    {
        let stream_id = new_stream_id();
        RelayTransport::with_stream_id(client_id, environment_id, stream_id)
    }

    /// A new stream for this controller and host on the given stream id.
    pub fn with_stream_id(client_id: &str, environment_id: &str, stream_id: String) -> (r: Self)
        ensures
            r@ == opened(client_id@, environment_id@, stream_id@),
            r@.wf(),
    {
        let r = RelayTransport {
            client_id: string_of(client_id),
            environment_id: string_of(environment_id),
            next_client_sequence: 1,
            pending_request_ids: Vec::new(),
            reassembler: ServerMessageReassembler::new(),
            seen_server_sequence: None,
            stream_id,
        };
        assert(r@.pending_request_ids =~= Seq::<JsonV>::empty());
        assert(r@.reassembler.assemblies =~= Seq::<AssemblyV>::empty());
        r
    }

    pub fn client_id(&self) -> (r: &str)
        ensures
            r@ == self@.client_id,
    {
        self.client_id.as_str()
    }

    pub fn environment_id(&self) -> (r: &str)
        ensures
            r@ == self@.environment_id,
    {
        self.environment_id.as_str()
    }

    pub fn stream_id(&self) -> (r: &str)
        ensures
            r@ == self@.stream_id,
    {
        self.stream_id.as_str()
    }

    pub fn next_client_sequence(&self) -> (r: u64)
        ensures
            r == self@.next_client_sequence,
    {
        self.next_client_sequence
    }

    pub fn seen_server_sequence(&self) -> (r: Option<u64>)
        ensures
            r == self@.seen_server_sequence,
    {
        self.seen_server_sequence
    }

    /// The number of requests still waiting for an answer.
    pub fn pending_request_count(&self) -> (r: usize)
        ensures
            r == self@.pending_request_ids.len(),
    {
        self.pending_request_ids.len()
    }

    /// Starts over on a new stream: fresh numbering, nothing pending, nothing
    /// being reassembled.
    fn restart(&mut self, stream_id: String)
        ensures
            final(self)@ == opened(old(self)@.client_id, old(self)@.environment_id, stream_id@),
            final(self)@.wf(),
    {
        self.stream_id = stream_id;
        self.next_client_sequence = 1;
        self.seen_server_sequence = None;
        clear_pending(&mut self.pending_request_ids);
        self.reassembler = ServerMessageReassembler::new();
        assert(self@.pending_request_ids =~= Seq::<JsonV>::empty());
        assert(self@.reassembler.assemblies =~= Seq::<AssemblyV>::empty());
    }

    /// Wraps an app-server message in the next client envelope and cuts it
    /// into frames.  An `initialize` starts a new stream first; the id of a
    /// request is kept until its answer comes back.
    pub fn outgoing_app_segments(&mut self, message: Json) -> (r: Result<Vec<Json>, Error>)
        ensures
            final(self)@.wf(),
            final(self)@ == after_send(
                sending_state(old(self)@, message@, final(self)@.stream_id),
                message@,
            ),
            message@.str_field("method"@) != Some("initialize"@) ==> final(self)@.stream_id == old(
                self,
            )@.stream_id,
            message@.str_field("method"@) == Some("initialize"@) ==> is_v4_uuid_text(
                final(self)@.stream_id,
            ),
            segmentation_result(
                sent_envelope(sending_state(old(self)@, message@, final(self)@.stream_id), message@),
                json_list_result(r),
            ),
    {
        proof {
            use_type_invariant(&self.reassembler);
        }
        let ghost mv = message@;
        let initialize = match message.str_field("method") {
            Some(m) => str_eq(m, "initialize"),
            None => false,
        };
        if initialize {
            let fresh = new_stream_id();
            self.restart(fresh);
        }
        let ghost st = self@;
        match message.get("id") {
            Some(id) => {
                if id.is_string_or_number() {
                    let copy = id.duplicate();
                    self.pending_request_ids.push(copy);
                }
            },
            None => {},
        }
        let envelope = client_message_envelope(
            self.client_id.as_str(),
            self.environment_id.as_str(),
            self.stream_id.as_str(),
            self.next_client_sequence,
            message,
        );
        self.next_client_sequence = if self.next_client_sequence == u64::MAX {
            u64::MAX
        } else {
            self.next_client_sequence + 1
        };
        assert(self@.pending_request_ids =~= after_send(st, mv).pending_request_ids);
        assert(self@ == after_send(st, mv));
        segment_client_message(&envelope)
    }

    /// Hands on a complete server envelope: drops one whose sequence number
    /// was already seen, refuses a gap, and settles the pending request that
    /// it answers.
    fn deliver(&mut self, envelope: &Json) -> (r: Result<Option<Json>, Error>)
        requires
            old(self)@.wf(),
        ensures
            final(self)@.wf(),
            (final(self)@, message_result_view(r)) == delivery_outcome(old(self)@, envelope@),
    {
        let seq = match envelope.get("seq_id") {
            Some(v) => match v.as_u64() {
                Some(n) => n,
                None => return Err(Error::ServerMessageNoSequence),
            },
            None => return Err(Error::ServerMessageNoSequence),
        };
        match self.seen_server_sequence {
            Some(seen) => {
                if seq <= seen {
                    return Ok(None);
                }
                let expected = if seen == u64::MAX {
                    u64::MAX
                } else {
                    seen + 1
                };
                if seq != expected {
                    return Err(Error::SequenceGap);
                }
            },
            None => {},
        }
        self.seen_server_sequence = Some(seq);
        let message = match envelope.get("message") {
            Some(m) => m.duplicate(),
            None => return Err(Error::ServerMessageNoPayload),
        };
        self.answer(message)
    }

    fn answer(&mut self, message: Json) -> (r: Result<Option<Json>, Error>)
        requires
            old(self)@.wf(),
        ensures
            final(self)@.wf(),
            (final(self)@, message_result_view(r)) == answer_outcome(old(self)@, message@),
    {
        let ghost s = self@;
        let ghost mv = message@;
        let is_error = match message.str_field("type") {
            Some(t) => str_eq(t, "error"),
            None => false,
        };
        if is_error && message.get("id").is_none() {
            if self.pending_request_ids.len() == 0 {
                return Err(Error::ErrorWithoutPendingRequest);
            }
            let id = self.pending_request_ids.remove(0);
            assert(self@.pending_request_ids =~= s.pending_request_ids.drop_first());
            match message {
                Json::Object(mut entries) => {
                    proof {
                        lemma_object_view(entries);
                    }
                    remove_member(&mut entries, "type");
                    let mut out: Vec<(String, Json)> = Vec::new();
                    out.push((string_of("error"), Json::Object(entries)));
                    out.push((string_of("id"), id));
                    proof {
                        lemma_object_view(entries);
                        lemma_object_view(out);
                        assert(entries_view(out@) =~= seq![
                            ("error"@, JsonV::Obj(remove_entry(mv->Obj_0, "type"@))),
                            ("id"@, s.pending_request_ids[0]),
                        ]);
                    }
                    Ok(Some(Json::Object(out)))
                },
                _ => Err(Error::ErrorPayloadNotObject),
            }
        } else {
            match message.get("id") {
                Some(id) => {
                    match find_json(&self.pending_request_ids, id) {
                        Some(p) => {
                            self.pending_request_ids.remove(p);
                            assert(self@.pending_request_ids =~= s.pending_request_ids.remove(p as int));
                        },
                        None => {},
                    }
                },
                None => {},
            }
            Ok(Some(message))
        }
    }

    /// Follows one server envelope: envelopes of other kinds and of older
    /// streams are ignored, chunks are reassembled, and a complete message is
    /// delivered in sequence.
    pub fn observe_server_envelope(&mut self, envelope: &Json) -> (r: Result<ServerStep, Error>)
        ensures
            final(self)@.wf(),
            (final(self)@, step_result_view(r)) == server_step_outcome(old(self)@, envelope@),
    {
        proof {
            use_type_invariant(&self.reassembler);
        }
        let kind_ok = match envelope.str_field("type") {
            Some(t) => str_eq(t, "server_message") || str_eq(t, "server_message_chunk"),
            None => false,
        };
        if !kind_ok {
            return Ok(ServerStep::Ignored);
        }
        let active = server_envelope_targets_active_stream(
            envelope,
            self.client_id.as_str(),
            self.environment_id.as_str(),
            self.stream_id.as_str(),
        )?;
        if !active {
            return Ok(ServerStep::Ignored);
        }
        match self.reassembler.observe(envelope)? {
            None => Ok(ServerStep::Ignored),
            Some(Observed::Reassembled(header, bytes)) => Ok(ServerStep::NeedsMessage(header, bytes)),
            Some(Observed::Envelope(e)) => match self.deliver(&e)? {
                None => Ok(ServerStep::Ignored),
                Some(m) => Ok(ServerStep::Deliver(m)),
            },
        }
    }

    /// Delivers a reassembled message, given the header that
    /// `observe_server_envelope` handed back and the message parsed from its
    /// JSON text.
    pub fn deliver_reassembled(&mut self, header: Json, message: Json) -> (r: Result<Option<Json>, Error>)
        ensures
            final(self)@.wf(),
            (final(self)@, message_result_view(r)) == delivery_outcome(
                old(self)@,
                reassembled_envelope(header@, message@),
            ),
    {
        proof {
            use_type_invariant(&self.reassembler);
        }
        let envelope = match header {
            Json::Object(mut entries) => {
                proof {
                    lemma_object_view(entries);
                }
                insert_member(&mut entries, string_of("message"), message);
                proof {
                    lemma_object_view(entries);
                }
                Json::Object(entries)
            },
            other => other,
        };
        self.deliver(&envelope)
    }

    /// The envelope that closes the stream.
    pub fn client_closed_envelope(&self) -> (r: Json)
        ensures
            r@ == closed_envelope(self@),
    {
        let mut e: Vec<(String, Json)> = Vec::new();
        e.push((string_of("client_id"), Json::string(self.client_id.as_str())));
        e.push((string_of("env_id"), Json::string(self.environment_id.as_str())));
        e.push((string_of("seq_id"), Json::unsigned(self.next_client_sequence)));
        e.push((string_of("stream_id"), Json::string(self.stream_id.as_str())));
        e.push((string_of("type"), Json::string("client_closed")));
        proof {
            lemma_object_view(e);
            assert(entries_view(e@) =~= closed_envelope(self@)->Obj_0);
        }
        Json::Object(e)
    }
}

/// The index of the first item equal to `x`.
fn find_json(items: &Vec<Json>, x: &Json) -> (r: Option<usize>)
    ensures
        match r {
            Some(p) => position_of(items@.map_values(|j: Json| j@), x@) == Some(p as nat) && p < items@.len(),
            None => position_of(items@.map_values(|j: Json| j@), x@) is None,
        },
{
    let ghost v = items@.map_values(|j: Json| j@);
    let mut i: usize = 0;
    assert(v.skip(0) =~= v);
    while i < items.len()
        invariant
            i <= items@.len(),
            v == items@.map_values(|j: Json| j@),
            position_of(v, x@) == (match position_of(v.skip(i as int), x@) {
                Some(k) => Some((k + i) as nat),
                None => None::<nat>,
            }),
        decreases items@.len() - i,
    {
        assert(v.skip(i as int).drop_first() =~= v.skip(i + 1));
        if json_eq(&items[i], x) {
            assert(v.skip(i as int)[0] == x@);
            return Some(i);
        }
        i += 1;
    }
    None
}

// ---------------------------------------------------------------------------
// Opening the websocket
// ---------------------------------------------------------------------------

/// The headers of the websocket request: the Codex access token and account,
/// this controller's client ID, the protocol version and the relay session
/// token.
pub open spec fn connection_headers_value(
    auth: CodexAuthV,
    enrollment: EnrollmentRecord,
    session: RemoteControlSession,
) -> Seq<(Seq<char>, Seq<char>)> {
    seq![
        ("Authorization"@, "Bearer "@ + auth.access_token),
        ("ChatGPT-Account-Id"@, auth.account_id),
        ("x-codex-client-id"@, enrollment.client_id@),
        ("x-codex-protocol-version"@, decimal(RELAY_PROTOCOL_VERSION as nat)),
        ("x-codex-client-session-token"@, "Bearer "@ + session.remote_control_token@),
    ]
}

fn header(name: &str, value: String) -> (r: (String, String))
    ensures
        r.0@ == name@,
        r.1@ == value@,
{
    (string_of(name), value)
}

fn bearer(token: &str) -> (r: String)
    ensures
        r@ == "Bearer "@ + token@,
{
    let mut s = string_of("Bearer ");
    push_str(&mut s, token);
    s
}

/// The headers of the websocket request, names and values in order.
pub fn relay_connection_headers(
    auth: &CodexAuth,
    enrollment: &EnrollmentRecord,
    session: &RemoteControlSession,
) -> (r: Vec<(String, String)>)
    ensures
        r@.map_values(|h: (String, String)| (h.0@, h.1@)) == connection_headers_value(
            auth@,
            *enrollment,
            *session,
        ),
{
    let mut version = String::new();
    push_decimal(&mut version, RELAY_PROTOCOL_VERSION as u64);
    let mut h: Vec<(String, String)> = Vec::new();
    h.push(header("Authorization", bearer(auth.access_token())));
    h.push(header("ChatGPT-Account-Id", string_of(auth.account_id())));
    h.push(header("x-codex-client-id", string_of(enrollment.client_id.as_str())));
    h.push(header("x-codex-protocol-version", version));
    h.push(
        header("x-codex-client-session-token", bearer(session.remote_control_token.as_str())),
    );
    assert(h@.map_values(|h: (String, String)| (h.0@, h.1@)) =~= connection_headers_value(
        auth@,
        *enrollment,
        *session,
    ));
    h
}

/// Checks that the first frame of the websocket is a device-key challenge.
pub fn check_device_key_challenge(challenge: &Json) -> (r: Result<(), Error>)
    ensures
        r is Ok <==> challenge@.str_field("type"@) == Some("device_key_challenge"@),
        r is Err ==> r == Err::<(), Error>(Error::ChallengeNotDeviceKey),
{
    let ok = match challenge.str_field("type") {
        Some(t) => str_eq(t, "device_key_challenge"),
        None => false,
    };
    if !ok {
        return Err(Error::ChallengeNotDeviceKey);
    }
    Ok(())
}

/// The message that answers the websocket's device-key challenge.
pub open spec fn proof_message_value(
    key_id: Seq<char>,
    signature: Seq<u8>,
    signed_payload: Seq<u8>,
    algorithm: Seq<char>,
) -> JsonV {
    JsonV::Obj(
        seq![
            ("algorithm"@, JsonV::Str(algorithm)),
            ("keyId"@, JsonV::Str(key_id)),
            ("signatureDerBase64"@, JsonV::Str(standard_base64(signature))),
            ("signedPayloadBase64"@, JsonV::Str(standard_base64(signed_payload))),
            ("type"@, JsonV::Str("device_key_proof"@)),
        ],
    )
}

/// The message that answers the websocket's device-key challenge with the
/// signature over the signed payload, both in standard base64.
pub fn device_key_proof_message(
    key_id: &str,
    signature: &[u8],
    signed_payload: &[u8],
    algorithm: &str,
) -> (r: Json)
    ensures
        r@ == proof_message_value(key_id@, signature@, signed_payload@, algorithm@),
{
    let mut e: Vec<(String, Json)> = Vec::new();
    e.push((string_of("algorithm"), Json::string(algorithm)));
    e.push((string_of("keyId"), Json::string(key_id)));
    e.push((string_of("signatureDerBase64"), Json::String(base64_standard_encode(signature))));
    e.push(
        (string_of("signedPayloadBase64"), Json::String(base64_standard_encode(signed_payload))),
    );
    e.push((string_of("type"), Json::string("device_key_proof")));
    proof {
        lemma_object_view(e);
        assert(entries_view(e@) =~= proof_message_value(
            key_id@,
            signature@,
            signed_payload@,
            algorithm@,
        )->Obj_0);
    }
    Json::Object(e)
}

// ---------------------------------------------------------------------------
// Laws
// ---------------------------------------------------------------------------

/// The chunks `0..n` of `bytes` cut into chunks of `c` bytes, joined.
pub open spec fn joined_chunks(bytes: Seq<u8>, c: nat, n: nat) -> Seq<u8>
    decreases n,
{
    if n == 0 {
        Seq::empty()
    } else {
        joined_chunks(bytes, c, (n - 1) as nat) + chunk_of(bytes, c, (n - 1) as nat)
    }
}

/// Whether each of the first `n` chunks of `bytes`, cut into chunks of `c`
/// bytes, decodes back from its base64 text.
pub open spec fn chunks_round_trip(bytes: Seq<u8>, c: nat, n: nat) -> bool {
    forall|i: nat|
        i < n ==> standard_base64_decoded(standard_base64(#[trigger] chunk_of(bytes, c, i)))
            == Some(chunk_of(bytes, c, i))
}

/// The bytes that a list of segments carries: the `message_chunk_base64` text
/// of each segment decoded, joined in order; `None` when a segment has no such
/// text or it is not base64.
pub open spec fn decoded_chunks(segments: Seq<JsonV>) -> Option<Seq<u8>>
    decreases segments.len(),
{
    if segments.len() == 0 {
        Some(Seq::empty())
    } else {
        match (
            decoded_chunks(segments.drop_last()),
            segments.last().str_field("message_chunk_base64"@),
        ) {
            (Some(prefix), Some(text)) => match standard_base64_decoded(text) {
                Some(b) => Some(prefix + b),
                None => None,
            },
            _ => None,
        }
    }
}

proof fn lemma_decoded_prefix(envelope: Seq<(Seq<char>, JsonV)>, bytes: Seq<u8>, c: nat, m: nat)
    requires
        c >= 1,
        m <= div_ceil(bytes.len(), c),
        chunks_round_trip(bytes, c, div_ceil(bytes.len(), c)),
    ensures
        decoded_chunks(split_segments(envelope, bytes, c).take(m as int)) == Some(
            joined_chunks(bytes, c, m),
        ),
    decreases m,
{
    let segs = split_segments(envelope, bytes, c);
    if m == 0 {
        assert(segs.take(0) =~= Seq::<JsonV>::empty());
    } else {
        let i = (m - 1) as nat;
        let n = div_ceil(bytes.len(), c);
        lemma_decoded_prefix(envelope, bytes, c, i);
        assert(segs.take(m as int).drop_last() =~= segs.take(i as int));
        assert(segs.take(m as int).last() == segment_value(envelope, bytes, c, i, n));
        let marked = insert_entry(envelope, "type"@, JsonV::Str("client_message_chunk"@));
        let stripped = remove_entry(marked, "message"@);
        let with_id = insert_entry(
            stripped,
            "segment_id"@,
            JsonV::Number(NumberV::PosInt(i as u64)),
        );
        let with_count = insert_entry(
            with_id,
            "segment_count"@,
            JsonV::Number(NumberV::PosInt(n as u64)),
        );
        let with_size = insert_entry(
            with_count,
            "message_size_bytes"@,
            JsonV::Number(NumberV::PosInt(bytes.len() as u64)),
        );
        let text = standard_base64(chunk_of(bytes, c, i));
        lemma_lookup_insert(with_size, "message_chunk_base64"@, JsonV::Str(text), "type"@);
        assert(standard_base64_decoded(text) == Some(chunk_of(bytes, c, i)));
    }
}

proof fn lemma_joined_prefix(bytes: Seq<u8>, c: nat, n: nat)
    requires
        c >= 1,
        n <= div_ceil(bytes.len(), c),
    ensures
        joined_chunks(bytes, c, n) == bytes.take(
            if n * c < bytes.len() {
                (n * c) as int
            } else {
                bytes.len() as int
            },
        ),
    decreases n,
{
    if n == 0 {
        assert(bytes.take(0) =~= Seq::<u8>::empty());
    } else {
        let m = (n - 1) as nat;
        lemma_joined_prefix(bytes, c, m);
        lemma_div_ceil_gt(bytes.len(), c, m);
        assert(m * c == c * m) by (nonlinear_arith);
        assert(n * c == m * c + c) by (nonlinear_arith)
            requires
                n == m + 1,
        ;
        let end = if n * c < bytes.len() {
            (n * c) as int
        } else {
            bytes.len() as int
        };
        assert(bytes.take((m * c) as int) + bytes.subrange((m * c) as int, end) =~= bytes.take(end));
    }
}

/// Cutting a message into chunks of `c` bytes loses nothing: the chunks,
/// joined in segment order, are the message.
pub proof fn lemma_chunks_join_to_message(bytes: Seq<u8>, c: nat)
    requires
        c >= 1,
    ensures
        joined_chunks(bytes, c, div_ceil(bytes.len(), c)) == bytes,
{
    let n = div_ceil(bytes.len(), c);
    lemma_joined_prefix(bytes, c, n);
    lemma_div_ceil_gt(bytes.len(), c, n);
    assert(bytes.take(bytes.len() as int) =~= bytes);
}

/// The segments of a segmented message carry all of it: with the chunk size
/// that was used, there is one segment per chunk, segment `i` is built from
/// chunk `i`, its index and the segment count, and the chunks join to the
/// message.
pub proof fn lemma_segments_carry_message(
    envelope: Seq<(Seq<char>, JsonV)>,
    bytes: Seq<u8>,
    segments: Seq<JsonV>,
)
    requires
        is_segmentation(envelope, bytes, segments),
    ensures
        exists|c: nat|
            #![trigger chunk_of(bytes, c, 0)]
            c >= 1 && segments.len() == div_ceil(bytes.len(), c) && (forall|i: int|
                0 <= i < segments.len() ==> #[trigger] segments[i] == segment_value(
                    envelope,
                    bytes,
                    c,
                    i as nat,
                    segments.len(),
                )) && joined_chunks(bytes, c, segments.len()) == bytes,
{
    let count = choose|count: nat|
        #[trigger] first_fitting_count(envelope, bytes, count) && segments == split_segments(
            envelope,
            bytes,
            chunk_size(bytes.len(), count),
        );
    let c = chunk_size(bytes.len(), count);
    lemma_chunks_join_to_message(bytes, c);
    assert(chunk_of(bytes, c, 0) == chunk_of(bytes, c, 0));
}

/// Whether at most one member is named `k`.
pub open spec fn at_most_one(entries: Seq<(Seq<char>, JsonV)>, k: Seq<char>) -> bool {
    forall|x: int, y: int|
        0 <= x < y < entries.len() ==> !((#[trigger] entries[x]).0 == k && (#[trigger] entries[y]).0
            == k)
}

proof fn lemma_insert_keeps_at_most_one(
    entries: Seq<(Seq<char>, JsonV)>,
    key: Seq<char>,
    value: JsonV,
    k: Seq<char>,
)
    requires
        at_most_one(entries, k),
        key != k,
    ensures
        at_most_one(insert_entry(entries, key, value), k),
{
    let r = insert_entry(entries, key, value);
    lemma_lookup_key_index(entries, key);
    match key_index(entries, key) {
        Some(i) => {
            assert forall|x: int, y: int| 0 <= x < y < r.len() implies !((#[trigger] r[x]).0 == k
                && (#[trigger] r[y]).0 == k) by {
                if x != i && y != i {
                    assert(r[x] == entries[x] && r[y] == entries[y]);
                }
            }
        },
        None => {
            let p = insert_position(entries, key) as int;
            lemma_insert_position_bound(entries, key);
            assert forall|x: int, y: int| 0 <= x < y < r.len() implies !((#[trigger] r[x]).0 == k
                && (#[trigger] r[y]).0 == k) by {
                if x != p && y != p {
                    let x2 = if x < p { x } else { x - 1 };
                    let y2 = if y < p { y } else { y - 1 };
                    assert(r[x] == entries[x2] && r[y] == entries[y2]);
                }
            }
        },
    }
}

proof fn lemma_remove_unique(entries: Seq<(Seq<char>, JsonV)>, k: Seq<char>)
    requires
        at_most_one(entries, k),
    ensures
        lookup(remove_entry(entries, k), k) is None,
{
    lemma_lookup_key_index(entries, k);
    let r = remove_entry(entries, k);
    match key_index(entries, k) {
        Some(j) => {
            assert forall|m: int| 0 <= m < r.len() implies r[m].0 != k by {
                if m < j {
                    assert(r[m] == entries[m]);
                } else {
                    assert(r[m] == entries[m + 1]);
                    assert(!(entries[j as int].0 == k && entries[m + 1].0 == k));
                }
            }
            lemma_lookup_none(r, k);
        },
        None => {},
    }
}

/// The names of the members that a segment carries in place of the message.
pub open spec fn is_segment_member(k: Seq<char>) -> bool {
    k == "type"@ || k == "message"@ || k == "segment_id"@ || k == "segment_count"@ || k
        == "message_size_bytes"@ || k == "message_chunk_base64"@
}

/// A segment keeps the envelope's identity: every member other than the
/// type, the message and the segment fields (the client, host, stream and
/// sequence number among them) reads as in the envelope; the segment is a
/// `client_message_chunk` with its index, the segment count and the message
/// size, and has no `message`.
pub proof fn lemma_segment_keeps_identity(
    envelope: Seq<(Seq<char>, JsonV)>,
    bytes: Seq<u8>,
    c: nat,
    i: nat,
    n: nat,
    k: Seq<char>,
)
    ensures
        !is_segment_member(k) ==> lookup(segment_value(envelope, bytes, c, i, n)->Obj_0, k) == lookup(
            envelope,
            k,
        ),
        lookup(segment_value(envelope, bytes, c, i, n)->Obj_0, "type"@) == Some(
            JsonV::Str("client_message_chunk"@),
        ),
        lookup(segment_value(envelope, bytes, c, i, n)->Obj_0, "segment_id"@) == Some(
            JsonV::Number(NumberV::PosInt(i as u64)),
        ),
        lookup(segment_value(envelope, bytes, c, i, n)->Obj_0, "segment_count"@) == Some(
            JsonV::Number(NumberV::PosInt(n as u64)),
        ),
        lookup(segment_value(envelope, bytes, c, i, n)->Obj_0, "message_size_bytes"@) == Some(
            JsonV::Number(NumberV::PosInt(bytes.len() as u64)),
        ),
        at_most_one(envelope, "message"@) ==> lookup(
            segment_value(envelope, bytes, c, i, n)->Obj_0,
            "message"@,
        ) is None,
{
    let marked = insert_entry(envelope, "type"@, JsonV::Str("client_message_chunk"@));
    let stripped = remove_entry(marked, "message"@);
    let with_id = insert_entry(stripped, "segment_id"@, JsonV::Number(NumberV::PosInt(i as u64)));
    let with_count = insert_entry(with_id, "segment_count"@, JsonV::Number(NumberV::PosInt(n as u64)));
    let with_size = insert_entry(
        with_count,
        "message_size_bytes"@,
        JsonV::Number(NumberV::PosInt(bytes.len() as u64)),
    );
    let chunk = JsonV::Str(standard_base64(chunk_of(bytes, c, i)));
    let last = insert_entry(with_size, "message_chunk_base64"@, chunk);
    let names = seq!["type"@, "message"@, "segment_id"@, "segment_count"@, "message_size_bytes"@, "message_chunk_base64"@, k];
    reveal_strlit("type");
    reveal_strlit("message");
    reveal_strlit("segment_id");
    reveal_strlit("segment_count");
    reveal_strlit("message_size_bytes");
    reveal_strlit("message_chunk_base64");
    assert forall|x: int| 0 <= x < names.len() implies (#[trigger] names[x]) == names[x] by {}
    lemma_lookup_insert(envelope, "type"@, JsonV::Str("client_message_chunk"@), k);
    lemma_lookup_insert(envelope, "type"@, JsonV::Str("client_message_chunk"@), "message"@);
    if at_most_one(envelope, "message"@) {
        lemma_insert_keeps_at_most_one(envelope, "type"@, JsonV::Str("client_message_chunk"@), "message"@);
        lemma_remove_unique(marked, "message"@);
    }
    if !is_segment_member(k) {
        lemma_lookup_remove(marked, "message"@, k);
    }
    lemma_lookup_remove(marked, "message"@, "type"@);
    lemma_lookup_insert(stripped, "segment_id"@, JsonV::Number(NumberV::PosInt(i as u64)), k);
    lemma_lookup_insert(stripped, "segment_id"@, JsonV::Number(NumberV::PosInt(i as u64)), "type"@);
    lemma_lookup_insert(stripped, "segment_id"@, JsonV::Number(NumberV::PosInt(i as u64)), "message"@);
    lemma_lookup_insert(with_id, "segment_count"@, JsonV::Number(NumberV::PosInt(n as u64)), k);
    lemma_lookup_insert(with_id, "segment_count"@, JsonV::Number(NumberV::PosInt(n as u64)), "type"@);
    lemma_lookup_insert(with_id, "segment_count"@, JsonV::Number(NumberV::PosInt(n as u64)), "message"@);
    lemma_lookup_insert(with_id, "segment_count"@, JsonV::Number(NumberV::PosInt(n as u64)), "segment_id"@);
    lemma_lookup_insert(with_count, "message_size_bytes"@, JsonV::Number(NumberV::PosInt(bytes.len() as u64)), k);
    lemma_lookup_insert(with_count, "message_size_bytes"@, JsonV::Number(NumberV::PosInt(bytes.len() as u64)), "type"@);
    lemma_lookup_insert(with_count, "message_size_bytes"@, JsonV::Number(NumberV::PosInt(bytes.len() as u64)), "message"@);
    lemma_lookup_insert(with_count, "message_size_bytes"@, JsonV::Number(NumberV::PosInt(bytes.len() as u64)), "segment_id"@);
    lemma_lookup_insert(with_count, "message_size_bytes"@, JsonV::Number(NumberV::PosInt(bytes.len() as u64)), "segment_count"@);
    lemma_lookup_insert(with_size, "message_chunk_base64"@, chunk, k);
    lemma_lookup_insert(with_size, "message_chunk_base64"@, chunk, "type"@);
    lemma_lookup_insert(with_size, "message_chunk_base64"@, chunk, "message"@);
    lemma_lookup_insert(with_size, "message_chunk_base64"@, chunk, "segment_id"@);
    lemma_lookup_insert(with_size, "message_chunk_base64"@, chunk, "segment_count"@);
    lemma_lookup_insert(with_size, "message_chunk_base64"@, chunk, "message_size_bytes"@);
}

/// The sequence number of a server envelope.
pub open spec fn envelope_sequence(envelope: JsonV) -> Option<u64> {
    match envelope.get("seq_id"@) {
        Some(v) => v.as_u64(),
        None => None,
    }
}

/// Server messages are delivered in order: a message is handed on only when
/// its sequence number is the first one seen or the one right after the last
/// one seen, which it then becomes; a number seen before is dropped without
/// changing anything.
pub proof fn lemma_server_messages_in_order(s: RelayTransportV, envelope: JsonV)
    ensures
        delivery_outcome(s, envelope).1 matches Ok(Some(_)) ==> envelope_sequence(envelope) matches Some(
            n,
        ) && delivery_outcome(s, envelope).0.seen_server_sequence == Some(n) && (
        s.seen_server_sequence matches Some(seen) ==> n == saturating_inc(seen)),
        (s.seen_server_sequence matches Some(seen) && envelope_sequence(envelope) matches Some(n)
            && n <= seen) ==> delivery_outcome(s, envelope) == (s, Ok::<Option<JsonV>, Error>(None)),
{
}

/// The stream and sequence number that a sent envelope carries.
pub open spec fn envelope_stream_and_seq(envelope: JsonV) -> (Option<Seq<char>>, Option<JsonV>) {
    (envelope.str_field("stream_id"@), envelope.get("seq_id"@))
}

proof fn lemma_client_envelope_fields(
    client_id: Seq<char>,
    env_id: Seq<char>,
    stream_id: Seq<char>,
    seq_id: u64,
    message: JsonV,
)
    ensures
        envelope_stream_and_seq(client_envelope_value(client_id, env_id, stream_id, seq_id, message))
            == (Some(stream_id), Some(JsonV::Number(NumberV::PosInt(seq_id)))),
{
    let e = client_envelope_value(client_id, env_id, stream_id, seq_id, message)->Obj_0;
    reveal_strlit("client_id");
    reveal_strlit("env_id");
    reveal_strlit("message");
    reveal_strlit("seq_id");
    reveal_strlit("skip_history");
    reveal_strlit("stream_id");
    assert(e[0].0.len() != "seq_id"@.len());
    assert(e[1].0[0] != "seq_id"@[0]);
    assert(e[2].0 != "seq_id"@);
    lemma_lookup_at(e, "seq_id"@, 3);
    assert(e[0].0[0] != "stream_id"@[0]);
    assert(e[1].0 != "stream_id"@);
    assert(e[2].0.len() != "stream_id"@.len());
    assert(e[3].0 != "stream_id"@);
    assert(e[4].0 != "stream_id"@);
    lemma_lookup_at(e, "stream_id"@, 5);
}

/// Sending a message whose `method` is not exactly `initialize` (for example
/// the `initialized` notification) keeps the stream: the envelope goes out on
/// the current stream with the current sequence number, the next number is
/// one more (saturating), nothing received is forgotten, and the pending
/// requests are kept, with at most the message's own id added at the end.
/// An `initialize` instead opens the fresh stream: its envelope has sequence
/// number 1 on that stream, the next number is 2, and the only pending
/// request left is at most its own.
pub proof fn lemma_only_initialize_starts_a_stream(
    s: RelayTransportV,
    message: JsonV,
    fresh_stream_id: Seq<char>,
)
    ensures
        ({
            let from = sending_state(s, message, fresh_stream_id);
            let t = after_send(from, message);
            let sent = envelope_stream_and_seq(sent_envelope(from, message));
            if message.str_field("method"@) == Some("initialize"@) {
                &&& sent == (Some(fresh_stream_id), Some(JsonV::Number(NumberV::PosInt(1))))
                &&& t.stream_id == fresh_stream_id
                &&& t.next_client_sequence == 2
                &&& t.seen_server_sequence is None
                &&& t.reassembler.assemblies.len() == 0
                &&& t.pending_request_ids.len() <= 1
            } else {
                &&& sent == (Some(s.stream_id), Some(
                    JsonV::Number(NumberV::PosInt(s.next_client_sequence)),
                ))
                &&& t.stream_id == s.stream_id
                &&& t.client_id == s.client_id
                &&& t.environment_id == s.environment_id
                &&& t.next_client_sequence == (if s.next_client_sequence == u64::MAX {
                    u64::MAX
                } else {
                    (s.next_client_sequence + 1) as u64
                })
                &&& t.seen_server_sequence == s.seen_server_sequence
                &&& t.reassembler == s.reassembler
                &&& s.pending_request_ids.len() <= t.pending_request_ids.len()
                    <= s.pending_request_ids.len() + 1
                &&& t.pending_request_ids.take(s.pending_request_ids.len() as int)
                    == s.pending_request_ids
            }
        }),
{
    let from = sending_state(s, message, fresh_stream_id);
    lemma_client_envelope_fields(
        from.client_id,
        from.environment_id,
        from.stream_id,
        from.next_client_sequence,
        message,
    );
    let t = after_send(from, message);
    assert(t.pending_request_ids.take(from.pending_request_ids.len() as int)
        =~= from.pending_request_ids);
}

/// `initialize` and then the `initialized` notification: the notification
/// goes out on the stream that `initialize` opened, with sequence number 2,
/// the next number is 3, and the request of `initialize` still waits.
pub proof fn lemma_initialized_follows_initialize(
    s: RelayTransportV,
    initialize: JsonV,
    initialized: JsonV,
    fresh1: Seq<char>,
    fresh2: Seq<char>,
)
    requires
        initialize.str_field("method"@) == Some("initialize"@),
        initialized.str_field("method"@) == Some("initialized"@),
        initialized.get("id"@) is None,
    ensures
        ({
            let t1 = after_send(sending_state(s, initialize, fresh1), initialize);
            let from2 = sending_state(t1, initialized, fresh2);
            let t2 = after_send(from2, initialized);
            &&& envelope_stream_and_seq(sent_envelope(from2, initialized)) == (
                Some(fresh1),
                Some(JsonV::Number(NumberV::PosInt(2))),
            )
            &&& t2.stream_id == fresh1
            &&& t2.next_client_sequence == 3
            &&& t2.pending_request_ids == t1.pending_request_ids
        }),
{
    reveal_strlit("initialize");
    reveal_strlit("initialized");
    assert("initialize"@ != "initialized"@) by {
        assert("initialize"@.len() != "initialized"@.len());
    }
    lemma_only_initialize_starts_a_stream(s, initialize, fresh1);
    let t1 = after_send(sending_state(s, initialize, fresh1), initialize);
    lemma_only_initialize_starts_a_stream(t1, initialized, fresh2);
    let t2 = after_send(sending_state(t1, initialized, fresh2), initialized);
    assert(t2.pending_request_ids =~= t1.pending_request_ids);
}

/// An envelope for an older stream of this controller's host changes nothing
/// and is ignored.
pub proof fn lemma_stale_stream_ignored(s: RelayTransportV, envelope: JsonV)
    requires
        targets_active_stream(envelope, s.client_id, s.environment_id, s.stream_id) == Ok::<
            bool,
            Error,
        >(false),
    ensures
        server_step_outcome(s, envelope) == (s, Ok::<ServerStepV, Error>(ServerStepV::Ignored)),
{
}

} // verus!
