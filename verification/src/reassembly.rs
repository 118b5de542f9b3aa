//! Reassembly of segmented server messages, within fixed limits on how many
//! messages may be incomplete at once and how many bytes they may hold.
use vstd::prelude::*;
use crate::error::{Error, RelayField};
use crate::json::{
    Json, JsonV, encode, entries_view, find_key, insert_entry, insert_member, key_index,
    lemma_lookup_key_index, lemma_object_view, lookup, duplicate_entries, to_bytes,
};
use crate::outside::{base64_standard_decode, json_object_check, json_text_kind, standard_base64_decoded};
use crate::text::{decimal, push_decimal, push_str, str_eq, string_of};
use crate::transport::{
    MAX_BUFFERED_ASSEMBLY_BYTES, MAX_CONCURRENT_ASSEMBLIES, MAX_FRAME_BYTES, MAX_MESSAGE_BYTES,
    MAX_SEGMENTS,
};

verus! {

// ---------------------------------------------------------------------------
// Fields of an envelope
// ---------------------------------------------------------------------------

/// A numeric field that fits in a `usize`.
pub open spec fn number_field(v: JsonV, f: RelayField) -> Result<nat, Error> {
    match v.get(f.spec_name()) {
        Some(x) => match x.as_u64() {
            Some(n) => if n <= usize::MAX {
                Ok(n as nat)
            } else {
                Err(Error::MissingNumberField(f))
            },
            None => Err(Error::MissingNumberField(f)),
        },
        None => Err(Error::MissingNumberField(f)),
    }
}

/// A string field.
pub open spec fn string_field(v: JsonV, f: RelayField) -> Result<Seq<char>, Error> {
    match v.str_field(f.spec_name()) {
        Some(s) => Ok(s),
        None => Err(Error::MissingStringField(f)),
    }
}

pub fn read_number_field(envelope: &Json, f: RelayField) -> (r: Result<usize, Error>)
    ensures
        match r {
            Ok(n) => number_field(envelope@, f) == Ok::<nat, Error>(n as nat),
            Err(e) => number_field(envelope@, f) == Err::<nat, Error>(e),
        },
{
    match envelope.get(f.name()) {
        Some(x) => match x.as_u64() {
            Some(n) => if n <= usize::MAX as u64 {
                Ok(n as usize)
            } else {
                Err(Error::MissingNumberField(f))
            },
            None => Err(Error::MissingNumberField(f)),
        },
        None => Err(Error::MissingNumberField(f)),
    }
}

pub fn read_string_field<'a>(envelope: &'a Json, f: RelayField) -> (r: Result<&'a str, Error>)
    ensures
        match r {
            Ok(s) => string_field(envelope@, f) == Ok::<Seq<char>, Error>(s@),
            Err(e) => string_field(envelope@, f) == Err::<Seq<char>, Error>(e),
        },
{
    match envelope.str_field(f.name()) {
        Some(s) => Ok(s),
        None => Err(Error::MissingStringField(f)),
    }
}

// ---------------------------------------------------------------------------
// Chunk headers
// ---------------------------------------------------------------------------

/// What a chunk envelope says of its chunk.
pub struct ChunkHeaderV {
    pub segment_id: nat,
    pub segment_count: nat,
    pub message_size: nat,
    pub key: Seq<char>,
    pub chunk: Seq<u8>,
}

/// The key under which the chunks of one server message are collected.
pub open spec fn assembly_key(env_id: Seq<char>, stream_id: Seq<char>, seq_id: nat) -> Seq<char> {
    env_id + ":"@ + stream_id + ":"@ + decimal(seq_id)
}

/// Whether the segment numbers and the message size are acceptable.
pub open spec fn metadata_valid(segment_id: nat, segment_count: nat, message_size: nat) -> bool {
    &&& 1 < segment_count <= MAX_SEGMENTS
    &&& segment_id < segment_count
    &&& 0 < message_size <= MAX_MESSAGE_BYTES
}

/// The header of a chunk envelope, or the first reason to refuse it.
pub open spec fn chunk_header(v: JsonV) -> Result<ChunkHeaderV, Error> {
    match number_field(v, RelayField::SegmentId) {
        Err(e) => Err(e),
        Ok(id) => match number_field(v, RelayField::SegmentCount) {
            Err(e) => Err(e),
            Ok(count) => match number_field(v, RelayField::MessageSizeBytes) {
                Err(e) => Err(e),
                Ok(size) => if !metadata_valid(id, count, size) {
                    Err(Error::InvalidSegmentMetadata)
                } else {
                    match string_field(v, RelayField::EnvId) {
                        Err(e) => Err(e),
                        Ok(env_id) => match string_field(v, RelayField::StreamId) {
                            Err(e) => Err(e),
                            Ok(stream_id) => match number_field(v, RelayField::SeqId) {
                                Err(e) => Err(e),
                                Ok(seq_id) => match string_field(v, RelayField::MessageChunkBase64) {
                                    Err(e) => Err(e),
                                    Ok(text) => match standard_base64_decoded(text) {
                                        None => Err(Error::SegmentNotBase64),
                                        Some(chunk) => if chunk.len() == 0 || chunk.len() > size {
                                            Err(Error::InvalidSegmentSize)
                                        } else {
                                            Ok(
                                                ChunkHeaderV {
                                                    segment_id: id,
                                                    segment_count: count,
                                                    message_size: size,
                                                    key: assembly_key(env_id, stream_id, seq_id),
                                                    chunk,
                                                },
                                            )
                                        },
                                    },
                                },
                            },
                        },
                    }
                },
            },
        },
    }
}

struct ChunkHeader {
    segment_id: usize,
    segment_count: usize,
    message_size: usize,
    key: String,
    chunk: Vec<u8>,
}

impl ChunkHeader {
    spec fn view_of(&self) -> ChunkHeaderV {
        ChunkHeaderV {
            segment_id: self.segment_id as nat,
            segment_count: self.segment_count as nat,
            message_size: self.message_size as nat,
            key: self.key@,
            chunk: self.chunk@,
        }
    }
}

fn read_chunk_header(envelope: &Json) -> (r: Result<ChunkHeader, Error>)
    ensures
        match r {
            Ok(h) => chunk_header(envelope@) == Ok::<ChunkHeaderV, Error>(h.view_of()),
            Err(e) => chunk_header(envelope@) == Err::<ChunkHeaderV, Error>(e),
        },
{
    let segment_id = read_number_field(envelope, RelayField::SegmentId)?;
    let segment_count = read_number_field(envelope, RelayField::SegmentCount)?;
    let message_size = read_number_field(envelope, RelayField::MessageSizeBytes)?;
    if segment_count <= 1 || segment_count > MAX_SEGMENTS || segment_id >= segment_count
        || message_size == 0 || message_size > MAX_MESSAGE_BYTES {
        return Err(Error::InvalidSegmentMetadata);
    }
    let env_id = read_string_field(envelope, RelayField::EnvId)?;
    let stream_id = read_string_field(envelope, RelayField::StreamId)?;
    let seq_id = read_number_field(envelope, RelayField::SeqId)?;
    let mut key = string_of(env_id);
    push_str(&mut key, ":");
    push_str(&mut key, stream_id);
    push_str(&mut key, ":");
    push_decimal(&mut key, seq_id as u64);
    let text = read_string_field(envelope, RelayField::MessageChunkBase64)?;
    let chunk = match base64_standard_decode(text) {
        Some(c) => c,
        None => return Err(Error::SegmentNotBase64),
    };
    if chunk.len() == 0 || chunk.len() > message_size {
        return Err(Error::InvalidSegmentSize);
    }
    Ok(ChunkHeader { segment_id, segment_count, message_size, key, chunk })
}

// ---------------------------------------------------------------------------
// Assemblies
// ---------------------------------------------------------------------------

/// The chunks received so far of one server message.
pub struct AssemblyV {
    pub key: Seq<char>,
    pub chunks: Seq<Option<Seq<u8>>>,
    pub first: Seq<(Seq<char>, JsonV)>,
    pub message_size: nat,
    pub received: nat,
}

/// The incomplete server messages and the bytes they hold.
pub struct ReassemblerV {
    pub assemblies: Seq<AssemblyV>,
    pub buffered: nat,
}

/// What `observe` hands back: an envelope that needs no reassembly, or the
/// header of a reassembled message together with the message's JSON text.
pub enum ObservedV {
    Envelope(JsonV),
    Reassembled(JsonV, Seq<u8>),
}

/// What `observe` hands back.
pub enum Observed {
    Envelope(Json),
    Reassembled(Json, Vec<u8>),
}

impl View for Observed {
    type V = ObservedV;

    open spec fn view(&self) -> ObservedV {
        match self {
            Observed::Envelope(j) => ObservedV::Envelope(j@),
            Observed::Reassembled(h, b) => ObservedV::Reassembled(h@, b@),
        }
    }
}

pub open spec fn observed_result_view(r: Result<Option<Observed>, Error>) -> Result<
    Option<ObservedV>,
    Error,
> {
    match r {
        Ok(Some(o)) => Ok(Some(o@)),
        Ok(None) => Ok(None),
        Err(e) => Err(e),
    }
}

pub struct Assembly {
    key: String,
    chunks: Vec<Option<Vec<u8>>>,
    first: Vec<(String, Json)>,
    message_size: usize,
    received_bytes: usize,
}

pub open spec fn chunk_view(c: Option<Vec<u8>>) -> Option<Seq<u8>> {
    match c {
        Some(b) => Some(b@),
        None => None,
    }
}

impl View for Assembly {
    type V = AssemblyV;

    closed spec fn view(&self) -> AssemblyV {
        AssemblyV {
            key: self.key@,
            chunks: self.chunks@.map_values(|c: Option<Vec<u8>>| chunk_view(c)),
            first: entries_view(self.first@),
            message_size: self.message_size as nat,
            received: self.received_bytes as nat,
        }
    }
}

/// The incomplete messages and the bytes they hold.
struct AssemblyTable {
    assemblies: Vec<Assembly>,
    buffered_bytes: usize,
}

impl View for AssemblyTable {
    type V = ReassemblerV;

    closed spec fn view(&self) -> ReassemblerV {
        ReassemblerV {
            assemblies: self.assemblies@.map_values(|a: Assembly| a@),
            buffered: self.buffered_bytes as nat,
        }
    }
}

/// The bytes held by the chunks received so far.
pub open spec fn chunk_total(chunks: Seq<Option<Seq<u8>>>) -> nat
    decreases chunks.len(),
{
    if chunks.len() == 0 {
        0
    } else {
        chunk_total(chunks.drop_last()) + match chunks.last() {
            Some(b) => b.len(),
            None => 0,
        }
    }
}

/// The received chunks, concatenated in segment order.
pub open spec fn concat_chunks(chunks: Seq<Option<Seq<u8>>>) -> Seq<u8>
    decreases chunks.len(),
{
    if chunks.len() == 0 {
        Seq::empty()
    } else {
        concat_chunks(chunks.drop_last()) + match chunks.last() {
            Some(b) => b,
            None => Seq::empty(),
        }
    }
}

/// The bytes held by all incomplete messages.
pub open spec fn received_total(assemblies: Seq<AssemblyV>) -> nat
    decreases assemblies.len(),
{
    if assemblies.len() == 0 {
        0
    } else {
        received_total(assemblies.drop_last()) + assemblies.last().received
    }
}

/// An incomplete message respects the limits that its first chunk set.
pub open spec fn assembly_wf(a: AssemblyV) -> bool {
    &&& 1 < a.chunks.len() <= MAX_SEGMENTS
    &&& 0 < a.message_size <= MAX_MESSAGE_BYTES
    &&& a.received == chunk_total(a.chunks)
    &&& a.received <= a.message_size
}

impl ReassemblerV {
    /// The reassembler's limits: at most `MAX_CONCURRENT_ASSEMBLIES`
    /// incomplete messages, one per key, and at most
    /// `MAX_BUFFERED_ASSEMBLY_BYTES` bytes held in all.
    pub open spec fn wf(self) -> bool {
        &&& self.assemblies.len() <= MAX_CONCURRENT_ASSEMBLIES
        &&& forall|i: int, j: int|
            0 <= i < j < self.assemblies.len() ==> (#[trigger] self.assemblies[i]).key
                != (#[trigger] self.assemblies[j]).key
        &&& forall|i: int| 0 <= i < self.assemblies.len() ==> assembly_wf(#[trigger] self.assemblies[i])
        &&& self.buffered == received_total(self.assemblies)
        &&& self.buffered <= MAX_BUFFERED_ASSEMBLY_BYTES
    }
}

/// The index of the incomplete message collected under `key`.
pub open spec fn assembly_index(assemblies: Seq<AssemblyV>, key: Seq<char>) -> Option<nat>
    decreases assemblies.len(),
{
    if assemblies.len() == 0 {
        None
    } else if assemblies[0].key == key {
        Some(0)
    } else {
        match assembly_index(assemblies.drop_first(), key) {
            Some(i) => Some(i + 1),
            None => None,
        }
    }
}

/// A new, empty collection for the message that `h` belongs to.
pub open spec fn new_assembly(h: ChunkHeaderV, first: Seq<(Seq<char>, JsonV)>) -> AssemblyV {
    AssemblyV {
        key: h.key,
        chunks: Seq::new(h.segment_count, |i: int| None),
        first,
        message_size: h.message_size,
        received: 0,
    }
}

/// The state without incomplete message `i`.
pub open spec fn without(s: ReassemblerV, i: int) -> ReassemblerV {
    ReassemblerV {
        assemblies: s.assemblies.remove(i),
        buffered: (s.buffered - s.assemblies[i].received) as nat,
    }
}

/// `first`'s member `name`, added to `acc` when present.
pub open spec fn copy_field(
    acc: Seq<(Seq<char>, JsonV)>,
    first: Seq<(Seq<char>, JsonV)>,
    name: Seq<char>,
) -> Seq<(Seq<char>, JsonV)> {
    match lookup(first, name) {
        Some(v) => insert_entry(acc, name, v),
        None => acc,
    }
}

/// The envelope of a reassembled message, without its `message`: the
/// routing fields of the first chunk and the type `server_message`.
pub open spec fn complete_header(first: Seq<(Seq<char>, JsonV)>) -> Seq<(Seq<char>, JsonV)> {
    let a = copy_field(Seq::empty(), first, "client_id"@);
    let b = copy_field(a, first, "seq_id"@);
    let c = copy_field(b, first, "stream_id"@);
    let d = copy_field(c, first, "cursor"@);
    let e = copy_field(d, first, "env_id"@);
    let f = copy_field(e, first, "skip_history"@);
    insert_entry(f, "type"@, JsonV::Str("server_message"@))
}

/// The outcome once incomplete message `i` may have all its chunks.
pub open spec fn complete_check(s: ReassemblerV, i: int) -> (ReassemblerV, Result<
    Option<ObservedV>,
    Error,
>) {
    let a = s.assemblies[i];
    if exists|k: int| 0 <= k < a.chunks.len() && #[trigger] a.chunks[k] is None {
        (s, Ok(None))
    } else {
        let rest = without(s, i);
        let bytes = concat_chunks(a.chunks);
        if bytes.len() != a.message_size {
            (rest, Err(Error::ReassembledSizeWrong))
        } else {
            match json_text_kind(bytes) {
                None => (rest, Err(Error::ReassembledInvalid)),
                Some(false) => (rest, Err(Error::ReassembledNotObject)),
                Some(true) => (
                    rest,
                    Ok(Some(ObservedV::Reassembled(JsonV::Obj(complete_header(a.first)), bytes))),
                ),
            }
        }
    }
}

/// Incomplete message `i` with chunk `id` set to `chunk`.
pub open spec fn with_chunk(s: ReassemblerV, i: int, id: int, chunk: Seq<u8>) -> ReassemblerV {
    let a = s.assemblies[i];
    ReassemblerV {
        assemblies: s.assemblies.update(
            i,
            AssemblyV {
                key: a.key,
                chunks: a.chunks.update(id, Some(chunk)),
                first: a.first,
                message_size: a.message_size,
                received: a.received + chunk.len(),
            },
        ),
        buffered: s.buffered + chunk.len(),
    }
}

/// The outcome of a chunk whose header is `h`.
pub open spec fn accept_chunk(s: ReassemblerV, first: Seq<(Seq<char>, JsonV)>, h: ChunkHeaderV) -> (
    ReassemblerV,
    Result<Option<ObservedV>, Error>,
) {
    let found = assembly_index(s.assemblies, h.key);
    if found is None && s.assemblies.len() >= MAX_CONCURRENT_ASSEMBLIES {
        (s, Err(Error::TooManyAssemblies))
    } else {
        let t = match found {
            Some(_) => s,
            None => ReassemblerV {
                assemblies: s.assemblies.push(new_assembly(h, first)),
                buffered: s.buffered,
            },
        };
        let i: int = match found {
            Some(k) => k as int,
            None => s.assemblies.len() as int,
        };
        let a = t.assemblies[i];
        if a.chunks.len() != h.segment_count || a.message_size != h.message_size {
            (without(t, i), Err(Error::SegmentMetadataChanged))
        } else {
            match a.chunks[h.segment_id as int] {
                Some(existing) => if existing != h.chunk {
                    (without(t, i), Err(Error::SegmentChanged))
                } else {
                    complete_check(t, i)
                },
                None => if a.received + h.chunk.len() > a.message_size || t.buffered
                    + h.chunk.len() > MAX_BUFFERED_ASSEMBLY_BYTES {
                    (without(t, i), Err(Error::ReassemblyLimit))
                } else {
                    complete_check(with_chunk(t, i, h.segment_id as int, h.chunk), i)
                },
            }
        }
    }
}

/// The outcome of observing one server envelope.
pub open spec fn observe_outcome(s: ReassemblerV, envelope: JsonV) -> (ReassemblerV, Result<
    Option<ObservedV>,
    Error,
>) {
    if envelope.str_field("type"@) != Some("server_message_chunk"@) {
        (s, Ok(Some(ObservedV::Envelope(envelope))))
    } else if encode(envelope).len() > MAX_FRAME_BYTES {
        (s, Err(Error::SegmentTooLarge))
    } else {
        match chunk_header(envelope) {
            Err(e) => (s, Err(e)),
            Ok(h) => accept_chunk(
                s,
                match envelope {
                    JsonV::Obj(e) => e,
                    _ => Seq::empty(),
                },
                h,
            ),
        }
    }
}

// ---------------------------------------------------------------------------
// Lemmas on totals
// ---------------------------------------------------------------------------

pub proof fn lemma_chunk_total_set(chunks: Seq<Option<Seq<u8>>>, i: int, b: Seq<u8>)
    requires
        0 <= i < chunks.len(),
        chunks[i] is None,
    ensures
        chunk_total(chunks.update(i, Some(b))) == chunk_total(chunks) + b.len(),
    decreases chunks.len(),
{
    let u = chunks.update(i, Some(b));
    if i == chunks.len() - 1 {
        assert(u.drop_last() =~= chunks.drop_last());
    } else {
        lemma_chunk_total_set(chunks.drop_last(), i, b);
        assert(u.drop_last() =~= chunks.drop_last().update(i, Some(b)));
    }
}

pub proof fn lemma_chunk_total_empty(n: nat)
    ensures
        chunk_total(Seq::new(n, |i: int| None::<Seq<u8>>)) == 0,
    decreases n,
{
    if n > 0 {
        lemma_chunk_total_empty((n - 1) as nat);
        assert(Seq::new(n, |i: int| None::<Seq<u8>>).drop_last() =~= Seq::new(
            (n - 1) as nat,
            |i: int| None::<Seq<u8>>,
        ));
    }
}

pub proof fn lemma_concat_len(chunks: Seq<Option<Seq<u8>>>)
    ensures
        concat_chunks(chunks).len() == chunk_total(chunks),
    decreases chunks.len(),
{
    if chunks.len() > 0 {
        lemma_concat_len(chunks.drop_last());
    }
}

pub proof fn lemma_received_total_remove(s: Seq<AssemblyV>, i: int)
    requires
        0 <= i < s.len(),
    ensures
        received_total(s.remove(i)) + s[i].received == received_total(s),
    decreases s.len(),
{
    if i == s.len() - 1 {
        assert(s.remove(i) =~= s.drop_last());
    } else {
        lemma_received_total_remove(s.drop_last(), i);
        assert(s.remove(i).drop_last() =~= s.drop_last().remove(i));
        assert(s.remove(i).last() == s.last());
    }
}

// ---------------------------------------------------------------------------
// Operations
// ---------------------------------------------------------------------------

fn bytes_equal(a: &Vec<u8>, b: &Vec<u8>) -> (r: bool)
    ensures
        r == (a@ == b@),
{
    if a.len() != b.len() {
        return false;
    }
    let mut i: usize = 0;
    while i < a.len()
        invariant
            i <= a@.len() == b@.len(),
            forall|k: int| 0 <= k < i ==> a@[k] == b@[k],
        decreases a@.len() - i,
    {
        if a[i] != b[i] {
            return false;
        }
        i += 1;
    }
    assert(a@ =~= b@);
    true
}

impl AssemblyTable {
    fn new() -> (r: Self)
        ensures
            r@.assemblies.len() == 0,
            r@.buffered == 0,
            r@.wf(),
    {
        AssemblyTable { assemblies: Vec::new(), buffered_bytes: 0 }
    }

    fn incomplete_count(&self) -> (r: usize)
        ensures
            r == self@.assemblies.len(),
    {
        self.assemblies.len()
    }

    fn buffered_bytes(&self) -> (r: usize)
        ensures
            r == self@.buffered,
    {
        self.buffered_bytes
    }

    fn find(&self, key: &str) -> (r: Option<usize>)
        ensures
            match r {
                Some(i) => assembly_index(self@.assemblies, key@) == Some(i as nat) && i
                    < self@.assemblies.len(),
                None => assembly_index(self@.assemblies, key@) is None,
            },
    {
        let ghost v = self@.assemblies;
        let mut i: usize = 0;
        assert(v.skip(0) =~= v);
        while i < self.assemblies.len()
            invariant
                i <= self.assemblies@.len(),
                v == self@.assemblies,
                v.len() == self.assemblies@.len(),
                assembly_index(v, key@) == (match assembly_index(v.skip(i as int), key@) {
                    Some(k) => Some((k + i) as nat),
                    None => None::<nat>,
                }),
            decreases self.assemblies@.len() - i,
        {
            assert(v[i as int] == self.assemblies@[i as int]@);
            assert(v.skip(i as int).drop_first() =~= v.skip(i + 1));
            if str_eq(self.assemblies[i].key.as_str(), key) {
                assert(v.skip(i as int)[0].key == key@);
                return Some(i);
            }
            i += 1;
        }
        None
    }

    fn observe(&mut self, envelope: &Json) -> (r: Result<Option<Observed>, Error>)
        requires
            old(self)@.wf(),
        ensures
            final(self)@.wf(),
            (final(self)@, observed_result_view(r)) == observe_outcome(old(self)@, envelope@),
    {
        let is_chunk = match envelope.str_field("type") {
            Some(t) => str_eq(t, "server_message_chunk"),
            None => false,
        };
        if !is_chunk {
            return Ok(Some(Observed::Envelope(envelope.duplicate())));
        }
        if to_bytes(envelope).len() > MAX_FRAME_BYTES {
            return Err(Error::SegmentTooLarge);
        }
        let entries = match envelope {
            Json::Object(e) => e,
            _ => {
                assert(envelope@.get("type"@) is None);
                return Err(Error::SegmentNotObject);
            },
        };
        proof {
            lemma_object_view(*entries);
        }
        let header = read_chunk_header(envelope)?;
        self.accept(entries, header)
    }


    fn accept(&mut self, first: &Vec<(String, Json)>, h: ChunkHeader) -> (r: Result<
        Option<Observed>,
        Error,
    >)
        requires
            old(self)@.wf(),
            metadata_valid(h.segment_id as nat, h.segment_count as nat, h.message_size as nat),
            0 < h.chunk@.len() <= h.message_size,
        ensures
            final(self)@.wf(),
            (final(self)@, observed_result_view(r)) == accept_chunk(
                old(self)@,
                entries_view(first@),
                h.view_of(),
            ),
    {
        let ghost s = self@;
        let ghost hv = h.view_of();
        let ghost fv = entries_view(first@);
        proof {
            lemma_assembly_index(s.assemblies, hv.key);
        }
        let found = self.find(h.key.as_str());
        if found.is_none() && self.assemblies.len() >= MAX_CONCURRENT_ASSEMBLIES {
            return Err(Error::TooManyAssemblies);
        }
        let ghost t = match found {
            Some(_) => s,
            None => ReassemblerV {
                assemblies: s.assemblies.push(new_assembly(hv, fv)),
                buffered: s.buffered,
            },
        };
        let ghost gi: int = match found {
            Some(k) => k as int,
            None => s.assemblies.len() as int,
        };
        proof {
            if found is None {
                lemma_chunk_total_empty(hv.segment_count);
                lemma_wf_push(s, new_assembly(hv, fv));
            }
        }
        let i: usize = match found {
            Some(k) => k,
            None => self.assemblies.len(),
        };
        let mut a: Assembly = match found {
            Some(k) => {
                let a = self.assemblies.remove(k);
                assert(self@.assemblies =~= s.assemblies.remove(k as int));
                a
            },
            None => {
                let a = new_assembly_exec(first, &h);
                assert(self@.assemblies =~= t.assemblies.remove(gi));
                a
            },
        };
        assert(t.assemblies[gi] == a@);
        assert(self@ == taken(t, gi));
        if a.chunks.len() != h.segment_count || a.message_size != h.message_size {
            proof {
                lemma_wf_without(t, gi);
            }
            self.buffered_bytes = self.buffered_bytes - a.received_bytes;
            return Err(Error::SegmentMetadataChanged);
        }
        let id = h.segment_id;
        let ghost a0 = a@;
        assert(a0.chunks[id as int] == chunk_view(a.chunks@[id as int]));
        let same: Option<bool> = match &a.chunks[id] {
            Some(existing) => Some(bytes_equal(existing, &h.chunk)),
            None => None,
        };
        match same {
            Some(equal) => {
                if !equal {
                    proof {
                        lemma_wf_without(t, gi);
                    }
                    self.buffered_bytes = self.buffered_bytes - a.received_bytes;
                    return Err(Error::SegmentChanged);
                }
                self.finish(a, i, Ghost(t))
            },
            None => {
                let len = h.chunk.len();
                if a.received_bytes + len > a.message_size || self.buffered_bytes + len
                    > MAX_BUFFERED_ASSEMBLY_BYTES {
                    proof {
                        lemma_wf_without(t, gi);
                    }
                    self.buffered_bytes = self.buffered_bytes - a.received_bytes;
                    return Err(Error::ReassemblyLimit);
                }
                let ghost t2 = with_chunk(t, gi, id as int, hv.chunk);
                proof {
                    lemma_wf_with_chunk(t, gi, id as int, hv.chunk);
                }
                a.received_bytes = a.received_bytes + len;
                self.buffered_bytes = self.buffered_bytes + len;
                a.chunks.set(id, Some(h.chunk));
                assert(a@.chunks =~= a0.chunks.update(id as int, Some(hv.chunk)));
                assert(a@ == t2.assemblies[gi]);
                assert(taken(t2, gi).assemblies =~= taken(t, gi).assemblies);
                self.finish(a, i, Ghost(t2))
            },
        }
    }

    /// Puts incomplete message `a` back at `i`, or, when it has all its
    /// chunks, hands back its header and its text.
    fn finish(&mut self, a: Assembly, i: usize, Ghost(t): Ghost<ReassemblerV>) -> (r: Result<
        Option<Observed>,
        Error,
    >)
        requires
            t.wf(),
            i < t.assemblies.len(),
            t.assemblies[i as int] == a@,
            old(self)@ == taken(t, i as int),
        ensures
            final(self)@.wf(),
            (final(self)@, observed_result_view(r)) == complete_check(t, i as int),
    {
        let ghost av = a@;
        if any_missing(&a.chunks) {
            proof {
                let k = choose|k: int| 0 <= k < a.chunks@.len() && #[trigger] a.chunks@[k] is None;
                assert(av.chunks[k] == chunk_view(a.chunks@[k]));
                assert(av.chunks[k] is None);
            }
            assert(self.assemblies@.len() == self@.assemblies.len());
            let ghost before = self.assemblies@;
            let ghost tk = taken(t, i as int).assemblies;
            self.assemblies.insert(i, a);
            assert(self.assemblies@ == before.insert(i as int, a));
            assert forall|x: int| 0 <= x < t.assemblies.len() implies self@.assemblies[x]
                == t.assemblies[x] by {
                assert(self@.assemblies[x] == self.assemblies@[x]@);
                if x < i {
                    assert(self.assemblies@[x] == before[x]);
                    assert(before[x]@ == tk[x]);
                } else if x > i {
                    assert(self.assemblies@[x] == before[x - 1]);
                    assert(before[x - 1]@ == tk[x - 1]);
                }
            }
            assert(self@.assemblies =~= t.assemblies);
            return Ok(None);
        }
        proof {
            lemma_wf_without(t, i as int);
        }
        self.buffered_bytes = self.buffered_bytes - a.received_bytes;
        let bytes = concat_received(&a.chunks);
        if bytes.len() != a.message_size {
            return Err(Error::ReassembledSizeWrong);
        }
        match json_object_check(&bytes) {
            None => Err(Error::ReassembledInvalid),
            Some(false) => Err(Error::ReassembledNotObject),
            Some(true) => {
                let header = build_complete_header(&a.first);
                proof {
                    lemma_object_view(header);
                }
                Ok(Some(Observed::Reassembled(Json::Object(header), bytes)))
            },
        }
    }
}

/// Collects the segments of server messages until each message is complete.
/// It always keeps its limits (`ReassemblerV::wf`): that is its type
/// invariant, which every operation keeps.
pub struct ServerMessageReassembler {
    table: AssemblyTable,
}

impl View for ServerMessageReassembler {
    type V = ReassemblerV;

    closed spec fn view(&self) -> ReassemblerV {
        self.table@
    }
}

impl ServerMessageReassembler {
    /// The reassembler keeps its limits.
    #[verifier::type_invariant]
    pub open spec fn keeps_limits(self) -> bool {
        self@.wf()
    }
}

impl Default for ServerMessageReassembler {
    fn default() -> (r: Self)
        ensures
            r@.assemblies.len() == 0,
            r@.buffered == 0,
            r@.wf(),
    {
        ServerMessageReassembler { table: AssemblyTable::new() }
    }
}

impl ServerMessageReassembler {
    /// An empty reassembler.
    pub fn new() -> (r: Self)
        ensures
            r@.assemblies.len() == 0,
            r@.buffered == 0,
            r@.wf(),
    {
        ServerMessageReassembler { table: AssemblyTable::new() }
    }

    /// The number of incomplete messages.
    pub fn incomplete_count(&self) -> (r: usize)
        ensures
            r == self@.assemblies.len(),
    {
        self.table.incomplete_count()
    }

    /// The bytes held by incomplete messages.
    pub fn buffered_bytes(&self) -> (r: usize)
        ensures
            r == self@.buffered,
    {
        self.table.buffered_bytes()
    }

    /// Collects one server envelope.  An envelope that is not a
    /// `server_message_chunk` comes back unchanged; a chunk is added to its
    /// message, and when the message is complete its header and JSON text
    /// come back.
    pub fn observe(&mut self, envelope: &Json) -> (r: Result<Option<Observed>, Error>)
        ensures
            final(self)@.wf(),
            (final(self)@, observed_result_view(r)) == observe_outcome(old(self)@, envelope@),
    {
        proof {
            use_type_invariant(&*self);
        }
        let mut table = AssemblyTable::new();
        std::mem::swap(&mut table, &mut self.table);
        let r = table.observe(envelope);
        self.table = table;
        r
    }
}

/// The state with incomplete message `i` taken out while its bytes still
/// count.
pub open spec fn taken(t: ReassemblerV, i: int) -> ReassemblerV {
    ReassemblerV { assemblies: t.assemblies.remove(i), buffered: t.buffered }
}

fn new_assembly_exec(first: &Vec<(String, Json)>, h: &ChunkHeader) -> (a: Assembly)
    requires
        metadata_valid(h.segment_id as nat, h.segment_count as nat, h.message_size as nat),
    ensures
        a@ == new_assembly(h.view_of(), entries_view(first@)),
{
    let mut chunks: Vec<Option<Vec<u8>>> = Vec::new();
    let mut k: usize = 0;
    while k < h.segment_count
        invariant
            k <= h.segment_count,
            chunks@.len() == k,
            forall|m: int| 0 <= m < k ==> (#[trigger] chunks@[m]) is None,
        decreases h.segment_count - k,
    {
        chunks.push(None);
        k += 1;
    }
    let a = Assembly {
        key: h.key.clone(),
        chunks,
        first: duplicate_entries(first),
        message_size: h.message_size,
        received_bytes: 0,
    };
    assert(a@.chunks =~= new_assembly(h.view_of(), entries_view(first@)).chunks);
    a
}

fn any_missing(chunks: &Vec<Option<Vec<u8>>>) -> (r: bool)
    ensures
        r == exists|k: int| 0 <= k < chunks@.len() && #[trigger] chunks@[k] is None,
{
    let mut k: usize = 0;
    while k < chunks.len()
        invariant
            k <= chunks@.len(),
            forall|m: int| 0 <= m < k ==> (#[trigger] chunks@[m]) is Some,
        decreases chunks@.len() - k,
    {
        if chunks[k].is_none() {
            return true;
        }
        k += 1;
    }
    false
}

fn concat_received(chunks: &Vec<Option<Vec<u8>>>) -> (r: Vec<u8>)
    ensures
        r@ == concat_chunks(chunks@.map_values(|c: Option<Vec<u8>>| chunk_view(c))),
{
    let ghost cv = chunks@.map_values(|c: Option<Vec<u8>>| chunk_view(c));
    let mut out: Vec<u8> = Vec::new();
    let mut k: usize = 0;
    while k < chunks.len()
        invariant
            k <= chunks@.len(),
            cv == chunks@.map_values(|c: Option<Vec<u8>>| chunk_view(c)),
            out@ == concat_chunks(cv.take(k as int)),
        decreases chunks@.len() - k,
    {
        assert(cv.take(k + 1).drop_last() =~= cv.take(k as int));
        let ghost before = out@;
        match &chunks[k] {
            Some(b) => {
                let mut j: usize = 0;
                while j < b.len()
                    invariant
                        j <= b@.len(),
                        out@ == before + b@.take(j as int),
                    decreases b@.len() - j,
                {
                    out.push(b[j]);
                    assert(b@.take(j + 1) =~= b@.take(j as int).push(b@[j as int]));
                    j += 1;
                }
                assert(b@.take(j as int) =~= b@);
            },
            None => {
                assert(out@ =~= before + Seq::<u8>::empty());
            },
        }
        k += 1;
    }
    assert(cv.take(k as int) =~= cv);
    out
}

/// Adds `first`'s member `name` to `acc`, when `first` has one.
fn copy_member(acc: &mut Vec<(String, Json)>, first: &Vec<(String, Json)>, name: &str)
    ensures
        entries_view(final(acc)@) == copy_field(entries_view(old(acc)@), entries_view(first@), name@),
{
    proof {
        lemma_lookup_key_index(entries_view(first@), name@);
    }
    match find_key(first, name) {
        Some(idx) => {
            assert(entries_view(first@)[idx as int].1 == first@[idx as int].1@);
            insert_member(acc, string_of(name), first[idx].1.duplicate());
        },
        None => {},
    }
}

fn build_complete_header(first: &Vec<(String, Json)>) -> (r: Vec<(String, Json)>)
    ensures
        entries_view(r@) == complete_header(entries_view(first@)),
{
    let mut acc: Vec<(String, Json)> = Vec::new();
    assert(entries_view(acc@) =~= Seq::<(Seq<char>, JsonV)>::empty());
    copy_member(&mut acc, first, "client_id");
    copy_member(&mut acc, first, "seq_id");
    copy_member(&mut acc, first, "stream_id");
    copy_member(&mut acc, first, "cursor");
    copy_member(&mut acc, first, "env_id");
    copy_member(&mut acc, first, "skip_history");
    insert_member(&mut acc, string_of("type"), Json::string("server_message"));
    acc
}

// ---------------------------------------------------------------------------
// Lemmas on the reassembler's limits
// ---------------------------------------------------------------------------

pub proof fn lemma_assembly_index(s: Seq<AssemblyV>, key: Seq<char>)
    ensures
        match assembly_index(s, key) {
            Some(i) => i < s.len() && s[i as int].key == key,
            None => forall|j: int| 0 <= j < s.len() ==> s[j].key != key,
        },
    decreases s.len(),
{
    if s.len() > 0 && s[0].key != key {
        lemma_assembly_index(s.drop_first(), key);
        if assembly_index(s, key) is None {
            assert forall|j: int| 0 <= j < s.len() implies s[j].key != key by {
                if j > 0 {
                    assert(s[j] == s.drop_first()[j - 1]);
                }
            }
        }
    }
}

pub proof fn lemma_wf_without(t: ReassemblerV, i: int)
    requires
        t.wf(),
        0 <= i < t.assemblies.len(),
    ensures
        without(t, i).wf(),
        t.assemblies[i].received <= t.buffered,
{
    lemma_received_total_remove(t.assemblies, i);
    let r = t.assemblies.remove(i);
    assert forall|x: int, y: int| 0 <= x < y < r.len() implies (#[trigger] r[x]).key
        != (#[trigger] r[y]).key by {
        let x2 = if x < i { x } else { x + 1 };
        let y2 = if y < i { y } else { y + 1 };
        assert(r[x] == t.assemblies[x2]);
        assert(r[y] == t.assemblies[y2]);
    }
    assert forall|x: int| 0 <= x < r.len() implies assembly_wf(#[trigger] r[x]) by {
        let x2 = if x < i { x } else { x + 1 };
        assert(r[x] == t.assemblies[x2]);
    }
}

pub proof fn lemma_wf_push(s: ReassemblerV, a: AssemblyV)
    requires
        s.wf(),
        s.assemblies.len() < MAX_CONCURRENT_ASSEMBLIES,
        forall|j: int| 0 <= j < s.assemblies.len() ==> s.assemblies[j].key != a.key,
        assembly_wf(a),
        a.received == 0,
    ensures
        (ReassemblerV { assemblies: s.assemblies.push(a), buffered: s.buffered }).wf(),
{
    let p = s.assemblies.push(a);
    assert(p.drop_last() =~= s.assemblies);
    assert forall|x: int, y: int| 0 <= x < y < p.len() implies (#[trigger] p[x]).key
        != (#[trigger] p[y]).key by {
        assert(p[x] == s.assemblies[x]);
        if y < s.assemblies.len() {
            assert(p[y] == s.assemblies[y]);
        }
    }
    assert forall|x: int| 0 <= x < p.len() implies assembly_wf(#[trigger] p[x]) by {
        if x < s.assemblies.len() {
            assert(p[x] == s.assemblies[x]);
        }
    }
}

pub proof fn lemma_wf_with_chunk(t: ReassemblerV, i: int, id: int, chunk: Seq<u8>)
    requires
        t.wf(),
        0 <= i < t.assemblies.len(),
        0 <= id < t.assemblies[i].chunks.len(),
        t.assemblies[i].chunks[id] is None,
        t.assemblies[i].received + chunk.len() <= t.assemblies[i].message_size,
        t.buffered + chunk.len() <= MAX_BUFFERED_ASSEMBLY_BYTES,
    ensures
        with_chunk(t, i, id, chunk).wf(),
{
    let u = with_chunk(t, i, id, chunk);
    let a = t.assemblies[i];
    lemma_chunk_total_set(a.chunks, id, chunk);
    lemma_received_total_remove(t.assemblies, i);
    lemma_received_total_remove(u.assemblies, i);
    assert(u.assemblies.remove(i) =~= t.assemblies.remove(i));
    assert forall|x: int, y: int| 0 <= x < y < u.assemblies.len() implies (
    #[trigger] u.assemblies[x]).key != (#[trigger] u.assemblies[y]).key by {
        assert(u.assemblies[x].key == t.assemblies[x].key);
        assert(u.assemblies[y].key == t.assemblies[y].key);
    }
    assert forall|x: int| 0 <= x < u.assemblies.len() implies assembly_wf(
        #[trigger] u.assemblies[x],
    ) by {
        if x != i {
            assert(u.assemblies[x] == t.assemblies[x]);
        }
    }
}

// ---------------------------------------------------------------------------
// Laws
// ---------------------------------------------------------------------------

/// An accepted chunk header respects the limits: valid segment numbers and
/// message size, and a chunk that is not empty and fits in the message.
pub proof fn lemma_chunk_header_valid(v: JsonV)
    ensures
        chunk_header(v) matches Ok(h) ==> metadata_valid(h.segment_id, h.segment_count, h.message_size)
            && 0 < h.chunk.len() <= h.message_size,
{
}

/// Whatever envelope arrives, the reassembler keeps its limits: at most
/// `MAX_CONCURRENT_ASSEMBLIES` incomplete messages, one per key, each within
/// its announced size, and at most `MAX_BUFFERED_ASSEMBLY_BYTES` bytes held.
pub proof fn lemma_observe_keeps_limits(s: ReassemblerV, envelope: JsonV)
    requires
        s.wf(),
    ensures
        observe_outcome(s, envelope).0.wf(),
        observe_outcome(s, envelope).0.assemblies.len() <= MAX_CONCURRENT_ASSEMBLIES,
        observe_outcome(s, envelope).0.buffered <= MAX_BUFFERED_ASSEMBLY_BYTES,
{
    if envelope.str_field("type"@) == Some("server_message_chunk"@) && encode(envelope).len()
        <= MAX_FRAME_BYTES {
        match chunk_header(envelope) {
            Ok(h) => {
                lemma_chunk_header_valid(envelope);
                lemma_accept_keeps_limits(s, members_of_object(envelope), h);
            },
            Err(_) => {},
        }
    }
}

/// The members of an envelope that is an object.
pub open spec fn members_of_object(v: JsonV) -> Seq<(Seq<char>, JsonV)> {
    match v {
        JsonV::Obj(e) => e,
        _ => Seq::empty(),
    }
}

proof fn lemma_complete_check_keeps_limits(t: ReassemblerV, i: int)
    requires
        t.wf(),
        0 <= i < t.assemblies.len(),
    ensures
        complete_check(t, i).0.wf(),
{
    lemma_wf_without(t, i);
}

proof fn lemma_accept_keeps_limits(s: ReassemblerV, first: Seq<(Seq<char>, JsonV)>, h: ChunkHeaderV)
    requires
        s.wf(),
        metadata_valid(h.segment_id, h.segment_count, h.message_size),
        0 < h.chunk.len() <= h.message_size,
    ensures
        accept_chunk(s, first, h).0.wf(),
{
    lemma_assembly_index(s.assemblies, h.key);
    let found = assembly_index(s.assemblies, h.key);
    if found is None && s.assemblies.len() >= MAX_CONCURRENT_ASSEMBLIES {
    } else {
        let t = match found {
            Some(_) => s,
            None => ReassemblerV {
                assemblies: s.assemblies.push(new_assembly(h, first)),
                buffered: s.buffered,
            },
        };
        let i: int = match found {
            Some(k) => k as int,
            None => s.assemblies.len() as int,
        };
        if found is None {
            lemma_chunk_total_empty(h.segment_count);
            lemma_wf_push(s, new_assembly(h, first));
        }
        let a = t.assemblies[i];
        lemma_wf_without(t, i);
        if a.chunks.len() != h.segment_count || a.message_size != h.message_size {
        } else {
            match a.chunks[h.segment_id as int] {
                Some(existing) => {
                    if existing == h.chunk {
                        lemma_complete_check_keeps_limits(t, i);
                    }
                },
                None => {
                    if !(a.received + h.chunk.len() > a.message_size || t.buffered + h.chunk.len()
                        > MAX_BUFFERED_ASSEMBLY_BYTES) {
                        lemma_wf_with_chunk(t, i, h.segment_id as int, h.chunk);
                        lemma_complete_check_keeps_limits(
                            with_chunk(t, i, h.segment_id as int, h.chunk),
                            i,
                        );
                    }
                },
            }
        }
    }
}

/// The reassembler with nothing incomplete.
pub open spec fn empty_state() -> ReassemblerV {
    ReassemblerV { assemblies: Seq::empty(), buffered: 0 }
}

/// Whether two chunk envelopes carry the two halves of one message: the same
/// key, two segments, ids 0 and 1, and a message size that the two chunks
/// make up.
pub open spec fn two_halves(e0: JsonV, e1: JsonV) -> bool {
    &&& e0.str_field("type"@) == Some("server_message_chunk"@)
    &&& e1.str_field("type"@) == Some("server_message_chunk"@)
    &&& encode(e0).len() <= MAX_FRAME_BYTES
    &&& encode(e1).len() <= MAX_FRAME_BYTES
    &&& chunk_header(e0) matches Ok(h0)
    &&& chunk_header(e1) matches Ok(h1)
    &&& h0.key == h1.key
    &&& h0.segment_id == 0 && h1.segment_id == 1
    &&& h0.segment_count == 2 && h1.segment_count == 2
    &&& h0.message_size == h1.message_size
    &&& h0.message_size == h0.chunk.len() + h1.chunk.len()
}

/// The bytes of a message sent as two halves, in segment order.
pub open spec fn halves_bytes(e0: JsonV, e1: JsonV) -> Seq<u8> {
    chunk_header(e0)->Ok_0.chunk + chunk_header(e1)->Ok_0.chunk
}

proof fn lemma_first_half(e: JsonV, other_id: nat)
    requires
        e.str_field("type"@) == Some("server_message_chunk"@),
        encode(e).len() <= MAX_FRAME_BYTES,
        chunk_header(e) matches Ok(h) && h.segment_count == 2 && h.segment_id + other_id == 1
            && h.chunk.len() < h.message_size,
    ensures
        observe_outcome(empty_state(), e).1 == Ok::<Option<ObservedV>, Error>(None),
        observe_outcome(empty_state(), e).0.assemblies.len() == 1,
        observe_outcome(empty_state(), e).0.assemblies[0] == with_chunk(
            ReassemblerV {
                assemblies: seq![new_assembly(chunk_header(e)->Ok_0, members_of_object(e))],
                buffered: 0,
            },
            0,
            chunk_header(e)->Ok_0.segment_id as int,
            chunk_header(e)->Ok_0.chunk,
        ).assemblies[0],
        observe_outcome(empty_state(), e).0.buffered == chunk_header(e)->Ok_0.chunk.len(),
{
    let h = chunk_header(e)->Ok_0;
    let first = members_of_object(e);
    let s = empty_state();
    assert(assembly_index(s.assemblies, h.key) is None);
    let t = ReassemblerV { assemblies: s.assemblies.push(new_assembly(h, first)), buffered: 0 };
    assert(t.assemblies =~= seq![new_assembly(h, first)]);
    lemma_chunk_total_empty(h.segment_count);
    let u = with_chunk(t, 0, h.segment_id as int, h.chunk);
    assert(u.assemblies[0].chunks[other_id as int] is None);
}

/// A message sent as two halves comes back whole, its bytes in segment order,
/// whichever half arrives first; the reassembler is then empty again and the
/// header comes from the first half to arrive.
pub proof fn lemma_halves_reassemble_in_either_order(e0: JsonV, e1: JsonV)
    requires
        two_halves(e0, e1),
        json_text_kind(halves_bytes(e0, e1)) == Some(true),
    ensures
        observe_outcome(empty_state(), e0).1 == Ok::<Option<ObservedV>, Error>(None),
        observe_outcome(observe_outcome(empty_state(), e0).0, e1) == (
            empty_state(),
            Ok::<Option<ObservedV>, Error>(
                Some(
                    ObservedV::Reassembled(
                        JsonV::Obj(complete_header(members_of_object(e0))),
                        halves_bytes(e0, e1),
                    ),
                ),
            ),
        ),
        observe_outcome(empty_state(), e1).1 == Ok::<Option<ObservedV>, Error>(None),
        observe_outcome(observe_outcome(empty_state(), e1).0, e0) == (
            empty_state(),
            Ok::<Option<ObservedV>, Error>(
                Some(
                    ObservedV::Reassembled(
                        JsonV::Obj(complete_header(members_of_object(e1))),
                        halves_bytes(e0, e1),
                    ),
                ),
            ),
        ),
{
    let h0 = chunk_header(e0)->Ok_0;
    let h1 = chunk_header(e1)->Ok_0;
    lemma_chunk_header_valid(e0);
    lemma_chunk_header_valid(e1);
    lemma_first_half(e0, 1);
    lemma_first_half(e1, 0);
    lemma_second_half(e0, e1, h0, h1);
    lemma_second_half(e1, e0, h1, h0);
    assert(h0.chunk + h1.chunk == halves_bytes(e0, e1));
}

proof fn lemma_second_half(ea: JsonV, eb: JsonV, ha: ChunkHeaderV, hb: ChunkHeaderV)
    requires
        chunk_header(ea) == Ok::<ChunkHeaderV, Error>(ha),
        chunk_header(eb) == Ok::<ChunkHeaderV, Error>(hb),
        eb.str_field("type"@) == Some("server_message_chunk"@),
        encode(eb).len() <= MAX_FRAME_BYTES,
        ha.key == hb.key,
        ha.segment_count == 2 && hb.segment_count == 2,
        ha.segment_id + hb.segment_id == 1,
        ha.message_size == hb.message_size,
        ha.message_size == ha.chunk.len() + hb.chunk.len(),
        metadata_valid(ha.segment_id, ha.segment_count, ha.message_size),
        metadata_valid(hb.segment_id, hb.segment_count, hb.message_size),
        0 < ha.chunk.len() && 0 < hb.chunk.len(),
        observe_outcome(empty_state(), ea).0.assemblies.len() == 1,
        observe_outcome(empty_state(), ea).0.buffered == ha.chunk.len(),
        observe_outcome(empty_state(), ea).0.assemblies[0] == with_chunk(
            ReassemblerV {
                assemblies: seq![new_assembly(ha, members_of_object(ea))],
                buffered: 0,
            },
            0,
            ha.segment_id as int,
            ha.chunk,
        ).assemblies[0],
    ensures
        ({
            let bytes = if ha.segment_id == 0 {
                ha.chunk + hb.chunk
            } else {
                hb.chunk + ha.chunk
            };
            observe_outcome(observe_outcome(empty_state(), ea).0, eb) == (
                empty_state(),
                match json_text_kind(bytes) {
                    None => Err(Error::ReassembledInvalid),
                    Some(false) => Err(Error::ReassembledNotObject),
                    Some(true) => Ok::<Option<ObservedV>, Error>(
                        Some(
                            ObservedV::Reassembled(
                                JsonV::Obj(complete_header(members_of_object(ea))),
                                bytes,
                            ),
                        ),
                    ),
                },
            )
        }),
{
    let s1 = observe_outcome(empty_state(), ea).0;
    let a = s1.assemblies[0];
    assert(assembly_index(s1.assemblies, hb.key) == Some(0nat));
    assert(a.chunks[hb.segment_id as int] is None);
    assert(a.received == ha.chunk.len());
    let u = with_chunk(s1, 0, hb.segment_id as int, hb.chunk);
    let ua = u.assemblies[0];
    assert(forall|k: int| 0 <= k < ua.chunks.len() ==> ua.chunks[k] is Some);
    assert(!(exists|k: int| 0 <= k < ua.chunks.len() && #[trigger] ua.chunks[k] is None));
    let bytes = if ha.segment_id == 0 {
        ha.chunk + hb.chunk
    } else {
        hb.chunk + ha.chunk
    };
    assert(ua.chunks.len() == 2);
    assert(ua.chunks.drop_last().drop_last() =~= Seq::<Option<Seq<u8>>>::empty());
    assert(ua.chunks.drop_last().last() == ua.chunks[0]);
    if ha.segment_id == 0 {
        assert(ua.chunks[0] == Some(ha.chunk));
        assert(ua.chunks[1] == Some(hb.chunk));
    } else {
        assert(ua.chunks[0] == Some(hb.chunk));
        assert(ua.chunks[1] == Some(ha.chunk));
    }
    assert(concat_chunks(ua.chunks.drop_last().drop_last()) =~= Seq::<u8>::empty());
    assert(concat_chunks(ua.chunks.drop_last()) =~= concat_chunks(
        ua.chunks.drop_last().drop_last(),
    ) + ua.chunks[0]->Some_0);
    assert(concat_chunks(ua.chunks) =~= concat_chunks(ua.chunks.drop_last()) + ua.chunks[1]->Some_0);
    assert(concat_chunks(ua.chunks) =~= bytes);
    assert(without(u, 0).assemblies =~= Seq::<AssemblyV>::empty());
}

} // verus!
