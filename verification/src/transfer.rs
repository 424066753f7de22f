//! Splitting large payloads into chunks and putting them together again.

use crate::bytes::{
    append_bytes, array16_at, array32_at, be32, copy_range, lemma_be32, of_be32, push_be32,
    read_be32, same_bytes,
};
use crate::crypto::{blake3_hash, content_hash, random_bytes};
use crate::table::{keys_unique, lemma_row, map_of, row_of, Table};
use crate::time::{Duration, Instant, NANOS_PER_SEC};
use vstd::prelude::*;

verus! {

/// The most bytes that one chunk carries.
pub const MAX_CHUNK_PAYLOAD: usize = 65536;

/// The most chunks that one transfer has.
pub const MAX_TRANSFER_CHUNKS: u32 = 1024;

/// The most bytes that are buffered over all transfers.
pub const MAX_REASSEMBLY_BYTES: usize = 67_108_864;

/// The most transfers that are in progress at a time.
pub const MAX_TRANSFERS_CONCURRENT: usize = 256;

/// How long a transfer may stay incomplete.
pub const CHUNK_REASSEMBLY_TTL_SECS: u64 = 60;

/// Announces a transfer.
#[derive(Clone, Copy, Debug, PartialEq, Eq)]
pub struct ChunkManifestPayload {
    pub transfer_id: [u8; 16],
    pub content_id: [u8; 32],
    pub total_size: u32,
    pub chunk_count: u32,
    pub max_chunk_bytes: u32,
    pub content_hash: [u8; 32],
}

/// Length in bytes of an encoded manifest.
pub const MANIFEST_SIZE: usize = 92;

impl ChunkManifestPayload {
    /// The bytes of the manifest.
    pub open spec fn bytes(self) -> Seq<u8> {
        self.transfer_id@ + self.content_id@ + be32(self.total_size) + be32(self.chunk_count)
            + be32(self.max_chunk_bytes) + self.content_hash@
    }

    /// Whether `s` is the encoding of a manifest with the fields of this one.
    pub open spec fn encoded_by(self, s: Seq<u8>) -> bool {
        &&& s.len() == MANIFEST_SIZE
        &&& self.transfer_id@ == s.subrange(0, 16)
        &&& self.content_id@ == s.subrange(16, 48)
        &&& self.total_size == of_be32(s.subrange(48, 52))
        &&& self.chunk_count == of_be32(s.subrange(52, 56))
        &&& self.max_chunk_bytes == of_be32(s.subrange(56, 60))
        &&& self.content_hash@ == s.subrange(60, 92)
    }

    /// The bytes of the manifest. Decoding them gives the manifest back.
    pub fn encode(&self) -> (v: Vec<u8>)
        ensures
            v@ == self.bytes(),
            self.encoded_by(v@),
    {
        let mut v: Vec<u8> = crate::bytes::copy_bytes(self.transfer_id.as_slice());
        append_bytes(&mut v, self.content_id.as_slice());
        push_be32(&mut v, self.total_size);
        push_be32(&mut v, self.chunk_count);
        push_be32(&mut v, self.max_chunk_bytes);
        append_bytes(&mut v, self.content_hash.as_slice());
        proof {
            lemma_be32(self.total_size);
            lemma_be32(self.chunk_count);
            lemma_be32(self.max_chunk_bytes);
            assert(v@.subrange(0, 16) =~= self.transfer_id@);
            assert(v@.subrange(16, 48) =~= self.content_id@);
            assert(v@.subrange(48, 52) =~= be32(self.total_size));
            assert(v@.subrange(52, 56) =~= be32(self.chunk_count));
            assert(v@.subrange(56, 60) =~= be32(self.max_chunk_bytes));
            assert(v@.subrange(60, 92) =~= self.content_hash@);
        }
        v
    }

    /// The manifest with the given bytes.
    pub fn decode(s: &[u8]) -> (r: Option<ChunkManifestPayload>)
        ensures
            r is Some == (s@.len() == MANIFEST_SIZE),
            r matches Some(m) ==> m.encoded_by(s@),
    {
        if s.len() != MANIFEST_SIZE {
            return None;
        }
        Some(
            ChunkManifestPayload {
                transfer_id: array16_at(s, 0),
                content_id: array32_at(s, 16),
                total_size: read_be32(s, 48),
                chunk_count: read_be32(s, 52),
                max_chunk_bytes: read_be32(s, 56),
                content_hash: array32_at(s, 60),
            },
        )
    }
}

/// Carries one chunk.
#[derive(Debug, PartialEq, Eq)]
pub struct ChunkPayload {
    pub transfer_id: [u8; 16],
    pub chunk_index: u32,
    pub data: Vec<u8>,
}

impl ChunkPayload {
    /// The bytes of the chunk message.
    pub open spec fn bytes(self) -> Seq<u8> {
        self.transfer_id@ + be32(self.chunk_index) + self.data@
    }

    /// Whether `s` is the encoding of a message with the fields of this one.
    pub open spec fn encoded_by(self, s: Seq<u8>) -> bool {
        &&& s.len() >= 20
        &&& self.transfer_id@ == s.subrange(0, 16)
        &&& self.chunk_index == of_be32(s.subrange(16, 20))
        &&& self.data@ == s.subrange(20, s.len() as int)
    }

    /// The bytes of the chunk message. Decoding them gives the message back.
    pub fn encode(&self) -> (v: Vec<u8>)
        ensures
            v@ == self.bytes(),
            self.encoded_by(v@),
    {
        let mut v: Vec<u8> = crate::bytes::copy_bytes(self.transfer_id.as_slice());
        push_be32(&mut v, self.chunk_index);
        append_bytes(&mut v, self.data.as_slice());
        proof {
            lemma_be32(self.chunk_index);
            assert(v@.subrange(0, 16) =~= self.transfer_id@);
            assert(v@.subrange(16, 20) =~= be32(self.chunk_index));
            assert(v@.subrange(20, v@.len() as int) =~= self.data@);
        }
        v
    }

    /// The chunk message with the given bytes.
    pub fn decode(s: &[u8]) -> (r: Option<ChunkPayload>)
        ensures
            r is Some == (s@.len() >= 20),
            r matches Some(m) ==> m.encoded_by(s@),
    {
        if s.len() < 20 {
            return None;
        }
        Some(
            ChunkPayload {
                transfer_id: array16_at(s, 0),
                chunk_index: read_be32(s, 16),
                data: copy_range(s, 20, s.len()),
            },
        )
    }
}

/// A manifest that is ready to send.
#[derive(Debug)]
pub struct ChunkManifest {
    pub payload: ChunkManifestPayload,
    pub content_id: [u8; 32],
}

/// How many chunks `len` bytes need.
pub open spec fn chunks_needed(len: int) -> int {
    (len + MAX_CHUNK_PAYLOAD - 1) / (MAX_CHUNK_PAYLOAD as int)
}

/// Where chunk number `i` of `len` bytes starts.
pub open spec fn chunk_start(i: int, len: int) -> int {
    if i * MAX_CHUNK_PAYLOAD < len {
        i * MAX_CHUNK_PAYLOAD
    } else {
        len
    }
}

/// Chunk number `i` of `data`.
pub open spec fn chunk_of(data: Seq<u8>, i: int) -> Seq<u8> {
    data.subrange(chunk_start(i, data.len() as int), chunk_start(i + 1, data.len() as int))
}

/// Whether `data` can be sent as a chunked transfer.
pub open spec fn fragmentable(data: Seq<u8>) -> bool {
    0 < data.len() && chunks_needed(data.len() as int) <= MAX_TRANSFER_CHUNKS
}

/// Splits `data` under the given transfer number. There is a result exactly when
/// `data` is not empty and does not need too many chunks. Each chunk but the
/// last is full, and they follow each other in `data`.
pub fn fragment_with_id(data: &[u8], content_id: [u8; 32], transfer_id: [u8; 16]) -> (r: Option<
    (ChunkManifest, Vec<Vec<u8>>),
>)
    ensures
        r is Some == fragmentable(data@),
        r matches Some((m, chunks)) ==> {
            &&& m.content_id == content_id
            &&& m.payload.content_id == content_id
            &&& m.payload.transfer_id == transfer_id
            &&& m.payload.total_size == data@.len()
            &&& m.payload.chunk_count == chunks_needed(data@.len() as int)
            &&& m.payload.max_chunk_bytes == MAX_CHUNK_PAYLOAD
            &&& m.payload.content_hash@ == blake3_hash(data@)
            &&& chunks@.len() == chunks_needed(data@.len() as int)
            &&& forall|i: int|
                0 <= i < chunks@.len() ==> #[trigger] chunks@[i]@ == chunk_of(data@, i)
            &&& forall|i: int|
                0 <= i < chunks@.len() - 1 ==> #[trigger] chunks@[i]@.len() == MAX_CHUNK_PAYLOAD
            &&& 0 < chunks@.last()@.len() <= MAX_CHUNK_PAYLOAD
        },
{
    let n: usize = data.len();
    if n == 0 {
        return None;
    }
    let whole: usize = n / MAX_CHUNK_PAYLOAD;
    let chunk_count: usize = if n % MAX_CHUNK_PAYLOAD == 0 { whole } else { whole + 1 };
    assert(chunk_count == chunks_needed(n as int));
    if chunk_count > MAX_TRANSFER_CHUNKS as usize {
        return None;
    }
    let hash: [u8; 32] = content_hash(data);
    let mut chunks: Vec<Vec<u8>> = Vec::new();
    let mut i: usize = 0;
    while i < chunk_count
        invariant
            0 <= i <= chunk_count,
            n == data@.len(),
            0 < n,
            chunk_count == chunks_needed(n as int),
            chunk_count <= MAX_TRANSFER_CHUNKS,
            chunks@.len() == i,
            forall|j: int| 0 <= j < i ==> #[trigger] chunks@[j]@ == chunk_of(data@, j),
        decreases chunk_count - i,
    {
        let from: usize = i * MAX_CHUNK_PAYLOAD;
        let to: usize = if n - from < MAX_CHUNK_PAYLOAD { n } else { from + MAX_CHUNK_PAYLOAD };
        chunks.push(copy_range(data, from, to));
        i = i + 1;
    }
    let payload: ChunkManifestPayload = ChunkManifestPayload {
        transfer_id,
        content_id,
        total_size: n as u32,
        chunk_count: chunk_count as u32,
        max_chunk_bytes: MAX_CHUNK_PAYLOAD as u32,
        content_hash: hash,
    };
    Some((ChunkManifest { payload, content_id }, chunks))
}

/// Splits `data` under a random transfer number.
pub fn fragment_payload(data: &[u8], content_id: [u8; 32]) -> (r: Option<
    (ChunkManifest, Vec<Vec<u8>>),
>)
    ensures
        r is Some == fragmentable(data@),
        r matches Some((m, chunks)) ==> {
            &&& m.content_id == content_id
            &&& m.payload.content_id == content_id
            &&& m.payload.total_size == data@.len()
            &&& m.payload.chunk_count == chunks_needed(data@.len() as int)
            &&& m.payload.max_chunk_bytes == MAX_CHUNK_PAYLOAD
            &&& m.payload.content_hash@ == blake3_hash(data@)
            &&& chunks@.len() == chunks_needed(data@.len() as int)
            &&& forall|i: int|
                0 <= i < chunks@.len() ==> #[trigger] chunks@[i]@ == chunk_of(data@, i)
            &&& forall|i: int|
                0 <= i < chunks@.len() - 1 ==> #[trigger] chunks@[i]@.len() == MAX_CHUNK_PAYLOAD
            &&& 0 < chunks@.last()@.len() <= MAX_CHUNK_PAYLOAD
        },
{
    let drawn: Vec<u8> = random_bytes(16);
    fragment_with_id(data, content_id, array16_at(drawn.as_slice(), 0))
}

/// What is known of a transfer in progress.
pub struct Transfer {
    pub chunk_count: u32,
    pub content_hash: Seq<u8>,
    pub content_id: Seq<u8>,
    /// The chunks that have arrived, each at its own number.
    pub slots: Seq<Option<Seq<u8>>>,
    pub created_at: nat,
}

/// How many chunks have arrived.
pub open spec fn filled(slots: Seq<Option<Seq<u8>>>) -> nat
    decreases slots.len(),
{
    if slots.len() == 0 {
        0
    } else {
        filled(slots.drop_last()) + if slots.last() is Some {
            1nat
        } else {
            0nat
        }
    }
}

/// The length of what has arrived at one number.
pub open spec fn slot_len(slot: Option<Seq<u8>>) -> nat {
    match slot {
        Some(s) => s.len(),
        None => 0,
    }
}

/// How many bytes have arrived.
pub open spec fn bytes_in(slots: Seq<Option<Seq<u8>>>) -> nat
    decreases slots.len(),
{
    if slots.len() == 0 {
        0
    } else {
        bytes_in(slots.drop_last()) + slot_len(slots.last())
    }
}

/// The chunks that have arrived, one behind the other.
pub open spec fn joined(slots: Seq<Option<Seq<u8>>>) -> Seq<u8>
    decreases slots.len(),
{
    if slots.len() == 0 {
        Seq::empty()
    } else {
        joined(slots.drop_last()) + match slots.last() {
            Some(s) => s,
            None => Seq::empty(),
        }
    }
}

proof fn lemma_slots_update(slots: Seq<Option<Seq<u8>>>, i: int, s: Seq<u8>)
    requires
        0 <= i < slots.len(),
    ensures
        filled(slots.update(i, Some(s))) == filled(slots) + if slots[i] is Some {
            0int
        } else {
            1int
        },
        bytes_in(slots.update(i, Some(s))) == bytes_in(slots) - slot_len(slots[i]) + s.len(),
    decreases slots.len(),
{
    let after = slots.update(i, Some(s));
    if i == slots.len() - 1 {
        assert(after.drop_last() =~= slots.drop_last());
    } else {
        assert(after.drop_last() =~= slots.drop_last().update(i, Some(s)));
        lemma_slots_update(slots.drop_last(), i, s);
    }
}

proof fn lemma_slot_within(slots: Seq<Option<Seq<u8>>>, i: int)
    requires
        0 <= i < slots.len(),
    ensures
        slot_len(slots[i]) <= bytes_in(slots),
        slots[i] is None ==> filled(slots) < slots.len(),
        filled(slots) <= slots.len(),
    decreases slots.len(),
{
    lemma_filled_bound(slots.drop_last());
    if i < slots.len() - 1 {
        lemma_slot_within(slots.drop_last(), i);
    }
}

proof fn lemma_filled_bound(slots: Seq<Option<Seq<u8>>>)
    ensures
        filled(slots) <= slots.len(),
    decreases slots.len(),
{
    if slots.len() > 0 {
        lemma_filled_bound(slots.drop_last());
    }
}

proof fn lemma_empty_slots(n: nat)
    ensures
        filled(Seq::new(n, |i: int| None::<Seq<u8>>)) == 0,
        bytes_in(Seq::new(n, |i: int| None::<Seq<u8>>)) == 0,
    decreases n,
{
    if n > 0 {
        let s = Seq::new(n, |i: int| None::<Seq<u8>>);
        assert(s.drop_last() =~= Seq::new((n - 1) as nat, |i: int| None::<Seq<u8>>));
        lemma_empty_slots((n - 1) as nat);
    }
}

/// Chunks that all come from one payload, in whatever order they arrived, join
/// to that payload.
pub proof fn chunks_join_to_payload(data: Seq<u8>, slots: Seq<Option<Seq<u8>>>)
    requires
        0 < data.len(),
        slots.len() == chunks_needed(data.len() as int),
        forall|i: int| 0 <= i < slots.len() ==> #[trigger] slots[i] == Some(chunk_of(data, i)),
    ensures
        filled(slots) == slots.len(),
        joined(slots) == data,
{
    lemma_prefix_joins(data, slots, slots.len() as int);
    assert(slots.take(slots.len() as int) =~= slots);
    let n = slots.len() as int;
    assert(n * MAX_CHUNK_PAYLOAD >= data.len());
    assert(joined(slots) =~= data);
}

proof fn lemma_prefix_joins(data: Seq<u8>, slots: Seq<Option<Seq<u8>>>, k: int)
    requires
        0 < data.len(),
        0 <= k <= slots.len(),
        forall|i: int| 0 <= i < slots.len() ==> #[trigger] slots[i] == Some(chunk_of(data, i)),
    ensures
        filled(slots.take(k)) == k,
        joined(slots.take(k)) == data.take(chunk_start(k, data.len() as int)),
    decreases k,
{
    if k > 0 {
        lemma_prefix_joins(data, slots, k - 1);
        assert(slots.take(k).drop_last() =~= slots.take(k - 1));
        let len = data.len() as int;
        assert(chunk_start(k - 1, len) <= chunk_start(k, len));
        assert(data.take(chunk_start(k - 1, len)) + chunk_of(data, k - 1) =~= data.take(
            chunk_start(k, len),
        ));
    }
}

/// One transfer in progress.
struct ReassemblyState {
    chunk_count: u32,
    content_hash: [u8; 32],
    content_id: [u8; 32],
    chunks: Vec<Option<Vec<u8>>>,
    received: u32,
    buffered_bytes: usize,
    created_at: Instant,
}

impl ReassemblyState {
    spec fn slots(self) -> Seq<Option<Seq<u8>>> {
        Seq::new(
            self.chunks@.len(),
            |i: int|
                match self.chunks@[i] {
                    Some(v) => Some(v@),
                    None => None,
                },
        )
    }

    spec fn transfer(self) -> Transfer {
        Transfer {
            chunk_count: self.chunk_count,
            content_hash: self.content_hash@,
            content_id: self.content_id@,
            slots: self.slots(),
            created_at: self.created_at@,
        }
    }

    spec fn consistent(self) -> bool {
        &&& self.chunks@.len() == self.chunk_count
        &&& self.received == filled(self.slots())
        &&& self.buffered_bytes == bytes_in(self.slots())
    }

    fn new(manifest: &ChunkManifestPayload, now: Instant) -> (s: ReassemblyState)
        ensures
            s.transfer() == new_transfer(*manifest, now@),
            s.consistent(),
            s.buffered_bytes == 0,
    {
        let n: usize = manifest.chunk_count as usize;
        let mut chunks: Vec<Option<Vec<u8>>> = Vec::new();
        let mut i: usize = 0;
        while i < n
            invariant
                0 <= i <= n,
                chunks@.len() == i,
                forall|j: int| 0 <= j < i ==> #[trigger] chunks@[j] is None,
            decreases n - i,
        {
            chunks.push(None);
            i = i + 1;
        }
        let s = ReassemblyState {
            chunk_count: manifest.chunk_count,
            content_hash: manifest.content_hash,
            content_id: manifest.content_id,
            chunks,
            received: 0,
            buffered_bytes: 0,
            created_at: now,
        };
        proof {
            assert(s.slots() =~= Seq::new(n as nat, |i: int| None::<Seq<u8>>));
            lemma_empty_slots(n as nat);
        }
        s
    }

    fn join(&self) -> (payload: Vec<u8>)
        ensures
            payload@ == joined(self.slots()),
    {
        let mut payload: Vec<u8> = Vec::new();
        let mut i: usize = 0;
        while i < self.chunks.len()
            invariant
                0 <= i <= self.chunks@.len(),
                payload@ == joined(self.slots().take(i as int)),
            decreases self.chunks@.len() - i,
        {
            proof {
                assert(self.slots().take(i + 1).drop_last() =~= self.slots().take(i as int));
            }
            match &self.chunks[i] {
                Some(c) => {
                    append_bytes(&mut payload, c.as_slice());
                },
                None => {
                    assert(joined(self.slots().take(i as int)) + Seq::<u8>::empty() =~= joined(
                        self.slots().take(i as int),
                    ));
                },
            }
            i = i + 1;
        }
        assert(self.slots().take(i as int) =~= self.slots());
        payload
    }
}

/// The transfer that a manifest starts at `now`.
pub open spec fn new_transfer(m: ChunkManifestPayload, now: nat) -> Transfer {
    Transfer {
        chunk_count: m.chunk_count,
        content_hash: m.content_hash@,
        content_id: m.content_id@,
        slots: Seq::new(m.chunk_count as nat, |i: int| None::<Seq<u8>>),
        created_at: now,
    }
}

/// What became of a chunk.
#[derive(Debug)]
pub enum AddChunkResult {
    /// More chunks are needed.
    Pending,
    /// This was the last chunk, and the hash is right.
    Complete { payload: Vec<u8>, content_id: [u8; 32] },
    /// This was the last chunk, and the hash is wrong.
    HashMismatch,
    /// The chunk would exceed the memory limit.
    MemoryCapExceeded,
    /// No manifest announced the transfer.
    UnknownTransfer,
    /// The transfer has no chunk of this number.
    ChunkIndexOutOfRange,
}

/// Collects chunks until their payloads are complete. Its view holds the
/// transfers in progress by their number.
pub struct ChunkReassembler {
    transfers: Table<ReassemblyState>,
    total_buffered: usize,
}

/// Whether a list holds what a map holds, each key once.
pub open spec fn lists(all: Seq<(Seq<u8>, Transfer)>, m: Map<Seq<u8>, Transfer>) -> bool {
    &&& forall|i: int|
        0 <= i < all.len() ==> m.contains_key((#[trigger] all[i]).0) && m[all[i].0] == all[i].1
    &&& forall|k: Seq<u8>| #[trigger]
        m.contains_key(k) ==> exists|i: int| 0 <= i < all.len() && (#[trigger] all[i]).0 == k
    &&& forall|i: int, j: int|
        0 <= i < j < all.len() ==> (#[trigger] all[i]).0 != (#[trigger] all[j]).0
}

/// How many bytes have arrived over a list of transfers.
pub open spec fn held(transfers: Seq<(Seq<u8>, Transfer)>) -> nat
    decreases transfers.len(),
{
    if transfers.len() == 0 {
        0
    } else {
        held(transfers.drop_last()) + bytes_in(transfers.last().1.slots)
    }
}

proof fn lemma_held_remove(ts: Seq<(Seq<u8>, Transfer)>, i: int)
    requires
        0 <= i < ts.len(),
    ensures
        held(ts.remove(i)) == held(ts) - bytes_in(ts[i].1.slots),
        bytes_in(ts[i].1.slots) <= held(ts),
    decreases ts.len(),
{
    if i == ts.len() - 1 {
        assert(ts.remove(i) =~= ts.drop_last());
    } else {
        lemma_held_remove(ts.drop_last(), i);
        assert(ts.remove(i).drop_last() =~= ts.drop_last().remove(i));
        assert(ts.remove(i).last() == ts.last());
    }
}

impl View for ChunkReassembler {
    type V = Map<Seq<u8>, Transfer>;

    closed spec fn view(&self) -> Map<Seq<u8>, Transfer> {
        Map::new(
            |k: Seq<u8>| self.transfers@.contains_key(k),
            |k: Seq<u8>| self.transfers@[k].transfer(),
        )
    }
}

/// Whether a manifest is acceptable in itself.
pub open spec fn manifest_valid(m: ChunkManifestPayload) -> bool {
    0 < m.chunk_count <= MAX_TRANSFER_CHUNKS && m.total_size <= MAX_REASSEMBLY_BYTES
}

impl Default for ChunkReassembler {
    fn default() -> (r: ChunkReassembler)
        ensures
            r@ == Map::<Seq<u8>, Transfer>::empty(),
            r.buffered() == 0,
    {
        ChunkReassembler::new()
    }
}

impl ChunkReassembler {
    /// The transfers in progress with their numbers, in the order of their manifests.
    pub closed spec fn in_order(self) -> Seq<(Seq<u8>, Transfer)> {
        transfers_of(self.transfers.rows())
    }

    /// How many bytes are buffered.
    pub closed spec fn buffered(self) -> nat {
        self.total_buffered as nat
    }

    #[verifier::type_invariant]
    spec fn accounted(self) -> bool {
        &&& self.total_buffered == held(self.in_order())
        &&& self.total_buffered <= MAX_REASSEMBLY_BYTES
        &&& forall|i: int|
            0 <= i < self.transfers.rows().len() ==> (#[trigger] self.transfers.rows()[i]).1.consistent()
    }

    /// A reassembler without any transfer.
    pub fn new() -> (r: ChunkReassembler)
        ensures
            r@ == Map::<Seq<u8>, Transfer>::empty(),
            r.buffered() == 0,
    {
        let transfers: Table<ReassemblyState> = Table::new();
        proof {
            assert(transfers_of(transfers.rows()) =~= Seq::<(Seq<u8>, Transfer)>::empty());
        }
        let r = ChunkReassembler { transfers, total_buffered: 0 };
        assert(r@ =~= Map::<Seq<u8>, Transfer>::empty());
        r
    }

    /// How many transfers are in progress.
    pub fn transfer_count(&self) -> (n: usize)
        ensures
            n == self@.len(),
    {
        let n: usize = self.transfers.len();
        assert(self@.dom() =~= self.transfers@.dom());
        n
    }

    /// How many bytes are buffered over all transfers: exactly what has arrived
    /// for them, and never more than the limit.
    pub fn buffered_bytes(&self) -> (n: usize)
        ensures
            n == self.buffered(),
            n == held(self.in_order()),
            lists(self.in_order(), self@),
            n <= MAX_REASSEMBLY_BYTES,
    {
        proof {
            use_type_invariant(self);
            use_type_invariant(&self.transfers);
            lemma_lists(self.transfers.rows());
            assert(states_of(self.transfers@) =~= self@);
        }
        self.total_buffered
    }

    /// Registers a manifest at `now`. It is refused when it announces no chunks,
    /// too many chunks or too many bytes, and when it is new while the most
    /// transfers are in progress. A manifest of a transfer in progress starts
    /// that transfer anew.
    pub fn register_manifest(&mut self, manifest: &ChunkManifestPayload, now: Instant) -> (ok: bool)
        ensures
            ok == (manifest_valid(*manifest) && (old(self)@.contains_key(manifest.transfer_id@)
                || old(self)@.len() < MAX_TRANSFERS_CONCURRENT)),
            ok ==> final(self)@ == old(self)@.insert(
                manifest.transfer_id@,
                new_transfer(*manifest, now@),
            ),
            ok ==> final(self).buffered() == old(self).buffered() - if old(self)@.contains_key(
                manifest.transfer_id@,
            ) {
                bytes_in(old(self)@[manifest.transfer_id@].slots)
            } else {
                0
            },
            !ok ==> *final(self) == *old(self),
    {
        proof {
            use_type_invariant(&*self);
        }
        if manifest.chunk_count == 0 || manifest.chunk_count > MAX_TRANSFER_CHUNKS {
            return false;
        }
        if manifest.total_size as usize > MAX_REASSEMBLY_BYTES {
            return false;
        }
        let found: Option<usize> = self.transfers.find(manifest.transfer_id.as_slice());
        let count: usize = self.transfer_count();
        if found.is_none() && count >= MAX_TRANSFERS_CONCURRENT {
            return false;
        }
        let ghost before = *self;
        let mut whole: ChunkReassembler = ChunkReassembler::new();
        std::mem::swap(self, &mut whole);
        let ChunkReassembler { transfers: mut table, total_buffered: mut total } = whole;
        let ghost id = manifest.transfer_id@;
        match found {
            Some(i) => {
                let ghost rows = table.rows();
                let old_state: ReassemblyState = table.remove_at(i);
                proof {
                    lemma_take(rows, i as int);
                }
                total = total - old_state.buffered_bytes;
            },
            None => {},
        }
        let ghost kept = table.rows();
        assert(total == held(transfers_of(kept)));
        let state: ReassemblyState = ReassemblyState::new(manifest, now);
        let _ = table.insert(manifest.transfer_id.as_slice(), state);
        proof {
            lemma_put(kept, id, state);
        }
        *self = ChunkReassembler { transfers: table, total_buffered: total };
        proof {
            assert(self@ =~= before@.insert(id, new_transfer(*manifest, now@)));
        }
        true
    }

    /// Adds a chunk. Of a refused chunk nothing is kept. A chunk that arrives a
    /// second time replaces the first. With the last chunk the transfer ends,
    /// and its payload is handed out when the hash is right.
    pub fn add_chunk(&mut self, transfer_id: &[u8; 16], chunk_index: u32, data: Vec<u8>) -> (r:
        AddChunkResult)
        ensures
            chunk_added(
                old(self)@,
                old(self).buffered(),
                transfer_id@,
                chunk_index,
                data@,
                r,
                final(self)@,
                final(self).buffered(),
            ),
    {
        proof {
            use_type_invariant(&*self);
        }
        let i: usize = match self.transfers.find(transfer_id.as_slice()) {
            Some(i) => i,
            None => {
                return AddChunkResult::UnknownTransfer;
            },
        };
        let ghost before = *self;
        let ghost rows = self.transfers.rows();
        let ghost id = transfer_id@;
        let ghost t = self@[id];
        let ghost first = rows[i as int].1;
        let added: usize = data.len();
        let old_len: usize;
        let fresh: bool;
        {
            let state: &ReassemblyState = self.transfers.value_at(i);
            assert(state.consistent());
            if chunk_index >= state.chunk_count {
                return AddChunkResult::ChunkIndexOutOfRange;
            }
            proof {
                lemma_slot_within(state.slots(), chunk_index as int);
                assert(state.slots()[chunk_index as int] == match state.chunks@[chunk_index as int] {
                    Some(v) => Some(v@),
                    None => None,
                });
            }
            match &state.chunks[chunk_index as usize] {
                Some(c) => {
                    old_len = c.len();
                    fresh = false;
                },
                None => {
                    old_len = 0;
                    fresh = true;
                },
            }
        }
        let net_new: usize = added.saturating_sub(old_len);
        if net_new > 0 && net_new > MAX_REASSEMBLY_BYTES - self.total_buffered {
            return AddChunkResult::MemoryCapExceeded;
        }
        let mut whole: ChunkReassembler = ChunkReassembler::new();
        std::mem::swap(self, &mut whole);
        let ChunkReassembler { transfers: mut table, total_buffered: mut total } = whole;
        let mut state: ReassemblyState = table.remove_at(i);
        proof {
            lemma_take(rows, i as int);
            lemma_slots_update(first.slots(), chunk_index as int, data@);
            lemma_filled_bound(first.slots());
        }
        let ghost kept = table.rows();
        let ghost slots_after = first.slots().update(chunk_index as int, Some(data@));
        total = total - state.buffered_bytes;
        let buffered_after: usize = state.buffered_bytes - old_len + added;
        state.buffered_bytes = buffered_after;
        if fresh {
            state.received = state.received + 1;
        }
        state.chunks.set(chunk_index as usize, Some(data));
        proof {
            assert(state.slots() =~= slots_after);
            lemma_filled_bound(slots_after);
        }
        if state.received < state.chunk_count {
            total = total + state.buffered_bytes;
            let _ = table.insert(transfer_id.as_slice(), state);
            proof {
                lemma_put(kept, id, state);
            }
            *self = ChunkReassembler { transfers: table, total_buffered: total };
            proof {
                assert(self@ =~= before@.insert(id, Transfer { slots: slots_after, ..t }));
            }
            return AddChunkResult::Pending;
        }
        let payload: Vec<u8> = state.join();
        let actual: [u8; 32] = content_hash(payload.as_slice());
        let matches_hash: bool = same_bytes(actual.as_slice(), state.content_hash.as_slice());
        let content_id: [u8; 32] = state.content_id;
        *self = ChunkReassembler { transfers: table, total_buffered: total };
        proof {
            assert(self@ =~= before@.remove(id));
        }
        if !matches_hash {
            return AddChunkResult::HashMismatch;
        }
        AddChunkResult::Complete { payload, content_id }
    }

    /// Drops the transfers that have stayed incomplete for too long, and returns
    /// the content that each of them announced.
    pub fn evict_stale(&mut self, now: Instant) -> (evicted: Vec<[u8; 32]>)
        ensures
            final(self)@ == Map::new(
                |k: Seq<u8>| old(self)@.contains_key(k) && !stale(old(self)@[k], now@),
                |k: Seq<u8>| old(self)@[k],
            ),
            evicted@.map_values(|id: [u8; 32]| id@) == stale_contents(old(self).in_order(), now@),
            final(self).in_order() == fresh_transfers(old(self).in_order(), now@),
            final(self).buffered() == held(final(self).in_order()),
            lists(old(self).in_order(), old(self)@),
            lists(final(self).in_order(), final(self)@),
    {
        proof {
            use_type_invariant(&*self);
        }
        let ttl: Duration = Duration::from_secs(CHUNK_REASSEMBLY_TTL_SECS);
        let ghost before = *self;
        let ghost rows = self.transfers.rows();
        let mut whole: ChunkReassembler = ChunkReassembler::new();
        std::mem::swap(self, &mut whole);
        let ChunkReassembler { transfers: mut table, total_buffered: _ } = whole;
        let mut kept: Table<ReassemblyState> = Table::new();
        let mut total: usize = 0;
        let mut evicted: Vec<[u8; 32]> = Vec::new();
        let mut n: usize = table.len();
        let ghost mut done: int = 0;
        proof {
            assert(rows.skip(0) =~= rows);
            assert(transfers_of(rows).take(0) =~= Seq::<(Seq<u8>, Transfer)>::empty());
            assert(transfers_of(kept.rows()) =~= Seq::<(Seq<u8>, Transfer)>::empty());
            assert(evicted@.map_values(|id: [u8; 32]| id@) =~= Seq::<Seq<u8>>::empty());
        }
        while n > 0
            invariant
                n == table.rows().len(),
                0 <= done <= rows.len(),
                table.rows() == rows.skip(done),
                n == rows.len() - done,
                keys_unique(rows),
                keys_unique(kept.rows()),
                ttl@ == CHUNK_REASSEMBLY_TTL_SECS * NANOS_PER_SEC,
                forall|i: int| 0 <= i < rows.len() ==> (#[trigger] rows[i]).1.consistent(),
                forall|i: int|
                    0 <= i < kept.rows().len() ==> (#[trigger] kept.rows()[i]).1.consistent(),
                forall|k: Seq<u8>| #[trigger]
                    kept@.contains_key(k) <==> exists|i: int|
                        0 <= i < done && #[trigger] rows[i].0 == k && !stale(
                            rows[i].1.transfer(),
                            now@,
                        ),
                forall|i: int|
                    0 <= i < done && !stale((#[trigger] rows[i]).1.transfer(), now@)
                        ==> kept@[rows[i].0] == rows[i].1,
                transfers_of(kept.rows()) == fresh_transfers(transfers_of(rows).take(done), now@),
                evicted@.map_values(|id: [u8; 32]| id@) == stale_contents(
                    transfers_of(rows).take(done),
                    now@,
                ),
                total == held(transfers_of(kept.rows())),
                held(transfers_of(rows)) <= MAX_REASSEMBLY_BYTES,
            decreases n,
        {
            proof {
                assert(table.rows()[0] == rows[done]);
                assert(transfers_of(rows).take(done + 1).drop_last() =~= transfers_of(rows).take(
                    done,
                ));
                assert(transfers_of(rows).take(done + 1).last() == (
                    rows[done].0,
                    rows[done].1.transfer(),
                ));
                lemma_held_fresh(transfers_of(rows), done + 1, now@);
            }
            let key: Vec<u8> = crate::bytes::copy_bytes(table.key_at(0).as_slice());
            let state: ReassemblyState = table.remove_at(0);
            n = table.len();
            proof {
                assert(rows.skip(done).remove(0) =~= rows.skip(done + 1));
                assert(forall|i: int| 0 <= i < done ==> #[trigger] rows[i].0 != rows[done].0);
            }
            if now.reached(state.created_at, ttl) {
                let ghost evicted_before = evicted@;
                evicted.push(state.content_id);
                proof {
                    assert(evicted@.map_values(|id: [u8; 32]| id@)
                        =~= evicted_before.map_values(|id: [u8; 32]| id@).push(state.content_id@));
                    done = done + 1;
                }
            } else {
                let ghost kept_rows = kept.rows();
                assert(!kept@.contains_key(key@));
                proof {
                    let f = fresh_transfers(transfers_of(rows).take(done), now@);
                    assert(f.push((rows[done].0, rows[done].1.transfer())).drop_last() =~= f);
                }
                total = total + state.buffered_bytes;
                let _ = kept.insert(key.as_slice(), state);
                proof {
                    use_type_invariant(&kept);
                }
                proof {
                    lemma_put(kept_rows, key@, state);
                    done = done + 1;
                    assert forall|k: Seq<u8>| #[trigger]
                        kept@.contains_key(k) <==> exists|i: int|
                            0 <= i < done && #[trigger] rows[i].0 == k && !stale(
                                rows[i].1.transfer(),
                                now@,
                            ) by {
                        if k == key@ {
                            assert(rows[done - 1].0 == k);
                        }
                    }
                }
            }
        }
        proof {
            assert(transfers_of(rows).take(done) =~= transfers_of(rows));
            lemma_held_fresh(transfers_of(rows), done, now@);
        }
        *self = ChunkReassembler { transfers: kept, total_buffered: total };
        proof {
            let want = Map::new(
                |k: Seq<u8>| before@.contains_key(k) && !stale(before@[k], now@),
                |k: Seq<u8>| before@[k],
            );
            assert forall|k: Seq<u8>| self@.contains_key(k) == want.contains_key(k) by {
                if self@.contains_key(k) {
                    let i = choose|i: int|
                        0 <= i < rows.len() && #[trigger] rows[i].0 == k && !stale(
                            rows[i].1.transfer(),
                            now@,
                        );
                    lemma_row(rows, i);
                }
                if want.contains_key(k) {
                    let i = row_of(rows, k);
                    assert(rows[i].0 == k);
                    lemma_row(rows, i);
                }
            }
            assert forall|k: Seq<u8>| self@.contains_key(k) implies self@[k] == want[k] by {
                let i = choose|i: int|
                    0 <= i < rows.len() && #[trigger] rows[i].0 == k && !stale(
                        rows[i].1.transfer(),
                        now@,
                    );
                lemma_row(rows, i);
            }
            assert(self@ =~= want);
            lemma_lists(rows);
            lemma_lists(kept.rows());
            assert(states_of(map_of(rows)) =~= before@);
            assert(states_of(kept@) =~= self@);
        }
        evicted
    }
}

/// The transfers of a table, in the order of its rows.
spec fn transfers_of(rows: Seq<(Seq<u8>, ReassemblyState)>) -> Seq<(Seq<u8>, Transfer)> {
    rows.map_values(|r: (Seq<u8>, ReassemblyState)| (r.0, r.1.transfer()))
}

/// The transfers of a table by their numbers.
spec fn states_of(m: Map<Seq<u8>, ReassemblyState>) -> Map<Seq<u8>, Transfer> {
    Map::new(|k: Seq<u8>| m.contains_key(k), |k: Seq<u8>| m[k].transfer())
}

proof fn lemma_lists(rows: Seq<(Seq<u8>, ReassemblyState)>)
    requires
        keys_unique(rows),
    ensures
        lists(transfers_of(rows), states_of(map_of(rows))),
{
    let all = transfers_of(rows);
    let m = states_of(map_of(rows));
    assert forall|i: int| 0 <= i < all.len() implies m.contains_key((#[trigger] all[i]).0)
        && m[all[i].0] == all[i].1 by {
        lemma_row(rows, i);
    }
    assert forall|k: Seq<u8>| #[trigger] m.contains_key(k) implies exists|i: int|
        0 <= i < all.len() && (#[trigger] all[i]).0 == k by {
        let i = row_of(rows, k);
        assert(all[i].0 == k);
    }
    assert forall|i: int, j: int| 0 <= i < j < all.len() implies (#[trigger] all[i]).0 != (
    #[trigger] all[j]).0 by {
        assert(rows[i].0 != rows[j].0);
    }
}

/// What the transfers in progress hold together does not depend on the order in which
/// they are listed, and it is nothing when there are none.
pub proof fn held_bytes_are_those_of_the_transfers(
    one: Seq<(Seq<u8>, Transfer)>,
    other: Seq<(Seq<u8>, Transfer)>,
    m: Map<Seq<u8>, Transfer>,
)
    requires
        lists(one, m),
        lists(other, m),
    ensures
        held(one) == held(other),
        m == Map::<Seq<u8>, Transfer>::empty() ==> held(one) == 0,
    decreases one.len(),
{
    if one.len() == 0 {
        if other.len() > 0 {
            assert(m.contains_key(other[0].0));
        }
    } else {
        let last = one.len() - 1;
        let k = one[last].0;
        assert(m.contains_key(k));
        let i = choose|i: int| 0 <= i < other.len() && (#[trigger] other[i]).0 == k;
        let rest = m.remove(k);
        lemma_lists_remove(one, m, last);
        lemma_lists_remove(other, m, i);
        held_bytes_are_those_of_the_transfers(one.remove(last), other.remove(i), rest);
        lemma_held_remove(one, last);
        lemma_held_remove(other, i);
        assert(one[last].1 == m[k]);
        assert(other[i].1 == m[k]);
    }
}

proof fn lemma_lists_remove(
    all: Seq<(Seq<u8>, Transfer)>,
    m: Map<Seq<u8>, Transfer>,
    at: int,
)
    requires
        lists(all, m),
        0 <= at < all.len(),
    ensures
        lists(all.remove(at), m.remove(all[at].0)),
{
    let rest = all.remove(at);
    let k = all[at].0;
    assert forall|i: int| 0 <= i < rest.len() implies m.remove(k).contains_key(
        (#[trigger] rest[i]).0,
    ) && m.remove(k)[rest[i].0] == rest[i].1 by {
        let from = if i < at { i } else { i + 1 };
        assert(rest[i] == all[from]);
        assert(all[from].0 != all[at].0);
    }
    assert forall|key: Seq<u8>| #[trigger] m.remove(k).contains_key(key) implies exists|i: int|
        0 <= i < rest.len() && (#[trigger] rest[i]).0 == key by {
        let from = choose|i: int| 0 <= i < all.len() && (#[trigger] all[i]).0 == key;
        let i = if from < at { from } else { from - 1 };
        assert(rest[i] == all[from]);
    }
    assert forall|i: int, j: int| 0 <= i < j < rest.len() implies (#[trigger] rest[i]).0 != (
    #[trigger] rest[j]).0 by {
        let a = if i < at { i } else { i + 1 };
        let b = if j < at { j } else { j + 1 };
        assert(all[a].0 != all[b].0);
    }
}

proof fn lemma_take(rows: Seq<(Seq<u8>, ReassemblyState)>, i: int)
    requires
        0 <= i < rows.len(),
    ensures
        held(transfers_of(rows.remove(i))) == held(transfers_of(rows)) - bytes_in(rows[i].1.slots()),
        bytes_in(rows[i].1.slots()) <= held(transfers_of(rows)),
{
    lemma_held_remove(transfers_of(rows), i);
    assert(transfers_of(rows.remove(i)) =~= transfers_of(rows).remove(i));
}

proof fn lemma_put(rows: Seq<(Seq<u8>, ReassemblyState)>, k: Seq<u8>, s: ReassemblyState)
    ensures
        held(transfers_of(rows.push((k, s)))) == held(transfers_of(rows)) + bytes_in(s.slots()),
        transfers_of(rows.push((k, s))) == transfers_of(rows).push((k, s.transfer())),
{
    assert(transfers_of(rows.push((k, s))) =~= transfers_of(rows).push((k, s.transfer())));
    assert(transfers_of(rows).push((k, s.transfer())).drop_last() =~= transfers_of(rows));
}

proof fn lemma_held_fresh(ts: Seq<(Seq<u8>, Transfer)>, k: int, now: nat)
    requires
        0 <= k <= ts.len(),
    ensures
        held(fresh_transfers(ts.take(k), now)) <= held(ts),
    decreases ts.len(),
{
    if k == ts.len() {
        assert(ts.take(k) =~= ts);
        if k > 0 {
            lemma_held_fresh(ts.drop_last(), k - 1, now);
            assert(ts.drop_last().take(k - 1) =~= ts.drop_last());
            let f = fresh_transfers(ts.drop_last(), now);
            assert(f.push(ts.last()).drop_last() =~= f);
        }
    } else {
        lemma_held_fresh(ts.drop_last(), k, now);
        assert(ts.drop_last().take(k) =~= ts.take(k));
    }
}

/// Whether a transfer has stayed incomplete for too long at `now`.
pub open spec fn stale(t: Transfer, now: nat) -> bool {
    now >= t.created_at + CHUNK_REASSEMBLY_TTL_SECS * NANOS_PER_SEC
}

/// The transfers that are not stale at `now`, in their order.
pub open spec fn fresh_transfers(ts: Seq<(Seq<u8>, Transfer)>, now: nat) -> Seq<
    (Seq<u8>, Transfer),
>
    decreases ts.len(),
{
    if ts.len() == 0 {
        Seq::empty()
    } else if stale(ts.last().1, now) {
        fresh_transfers(ts.drop_last(), now)
    } else {
        fresh_transfers(ts.drop_last(), now).push(ts.last())
    }
}

/// The contents that the transfers that are stale at `now` announced.
pub open spec fn stale_contents(ts: Seq<(Seq<u8>, Transfer)>, now: nat) -> Seq<Seq<u8>>
    decreases ts.len(),
{
    if ts.len() == 0 {
        Seq::empty()
    } else if stale(ts.last().1, now) {
        stale_contents(ts.drop_last(), now).push(ts.last().1.content_id)
    } else {
        stale_contents(ts.drop_last(), now)
    }
}

/// Whether adding chunk `index` of transfer `id` gives `r` and takes the
/// transfers from `before`, with `held_before` bytes buffered, to `after`, with
/// `held_after`.
pub open spec fn chunk_added(
    before: Map<Seq<u8>, Transfer>,
    held_before: nat,
    id: Seq<u8>,
    index: u32,
    data: Seq<u8>,
    r: AddChunkResult,
    after: Map<Seq<u8>, Transfer>,
    held_after: nat,
) -> bool {
    let kept = after == before && held_after == held_before;
    if !before.contains_key(id) {
        r is UnknownTransfer && kept
    } else {
        let t = before[id];
        if index >= t.chunk_count {
            r is ChunkIndexOutOfRange && kept
        } else {
            let known = slot_len(t.slots[index as int]);
            let slots = t.slots.update(index as int, Some(data));
            if data.len() > known && held_before + data.len() - known > MAX_REASSEMBLY_BYTES {
                r is MemoryCapExceeded && kept
            } else if filled(slots) < t.chunk_count {
                &&& r is Pending
                &&& after == before.insert(id, Transfer { slots, ..t })
                &&& held_after == held_before + data.len() - known
            } else {
                &&& after == before.remove(id)
                &&& held_after == held_before - bytes_in(t.slots)
                &&& if blake3_hash(joined(slots)) == t.content_hash {
                    r matches AddChunkResult::Complete { payload, content_id } && payload@ == joined(
                        slots,
                    ) && content_id@ == t.content_id
                } else {
                    r is HashMismatch
                }
            }
        }
    }
}

/// Once the last chunk of a split payload has arrived, the payload is handed out
/// whole, in whatever order its chunks came.
pub proof fn split_payload_comes_back(
    data: Seq<u8>,
    before: Map<Seq<u8>, Transfer>,
    held_before: nat,
    id: Seq<u8>,
    index: u32,
    r: AddChunkResult,
    after: Map<Seq<u8>, Transfer>,
    held_after: nat,
)
    requires
        fragmentable(data),
        before.contains_key(id),
        before[id].chunk_count == chunks_needed(data.len() as int),
        before[id].content_hash == blake3_hash(data),
        before[id].slots.len() == chunks_needed(data.len() as int),
        index < before[id].chunk_count,
        forall|i: int|
            0 <= i < before[id].slots.len() && i != index ==> #[trigger] before[id].slots[i] == Some(
                chunk_of(data, i),
            ),
        held_before + data.len() <= MAX_REASSEMBLY_BYTES,
        chunk_added(
            before,
            held_before,
            id,
            index,
            chunk_of(data, index as int),
            r,
            after,
            held_after,
        ),
    ensures
        r matches AddChunkResult::Complete { payload, content_id } && payload@ == data
            && content_id@ == before[id].content_id,
        !after.contains_key(id),
{
    let slots = before[id].slots.update(index as int, Some(chunk_of(data, index as int)));
    assert(chunk_of(data, index as int).len() <= data.len());
    chunks_join_to_payload(data, slots);
}

/// Whether every chunk that was received is the one of `data`.
pub open spec fn holds_chunks_of(slots: Seq<Option<Seq<u8>>>, data: Seq<u8>) -> bool {
    &&& slots.len() == chunks_needed(data.len() as int)
    &&& forall|i: int|
        0 <= i < slots.len() ==> (#[trigger] slots[i]) is None || slots[i] == Some(
            chunk_of(data, i),
        )
}

/// The chunks of a payload that were received are together no longer than it.
proof fn lemma_chunks_fit(slots: Seq<Option<Seq<u8>>>, data: Seq<u8>, k: int)
    requires
        holds_chunks_of(slots, data),
        0 <= k <= slots.len(),
    ensures
        bytes_in(slots.take(k)) <= chunk_start(k, data.len() as int) <= data.len(),
    decreases k,
{
    if k > 0 {
        lemma_chunks_fit(slots, data, k - 1);
        assert(slots.take(k).drop_last() =~= slots.take(k - 1));
        assert(slots.take(k).last() == slots[k - 1]);
        assert((k - 1) * MAX_CHUNK_PAYLOAD <= k * MAX_CHUNK_PAYLOAD);
    }
}

/// When every chunk was received, as many slots are filled as there are.
proof fn lemma_all_filled(slots: Seq<Option<Seq<u8>>>)
    requires
        forall|i: int| 0 <= i < slots.len() ==> (#[trigger] slots[i]) is Some,
    ensures
        filled(slots) == slots.len(),
    decreases slots.len(),
{
    if slots.len() > 0 {
        lemma_all_filled(slots.drop_last());
        assert(slots.last() is Some);
    }
}

/// Whether the numbers of all `n` chunks occur.
pub open spec fn covers(order: Seq<u32>, n: int) -> bool {
    forall|i: u32| i < n ==> #[trigger] order.contains(i)
}

/// Whether `results` and the states between them are what comes of adding the chunks
/// of `data` to transfer `id` in an order, beginning with a transfer that has none.
pub open spec fn chunks_added(
    data: Seq<u8>,
    id: Seq<u8>,
    order: Seq<u32>,
    results: Seq<AddChunkResult>,
    states: Seq<Map<Seq<u8>, Transfer>>,
    helds: Seq<nat>,
) -> bool {
    let n = chunks_needed(data.len() as int);
    &&& results.len() == order.len()
    &&& states.len() == order.len() + 1
    &&& helds.len() == order.len() + 1
    &&& states[0].contains_key(id)
    &&& states[0][id].chunk_count == n
    &&& states[0][id].content_hash == blake3_hash(data)
    &&& states[0][id].slots == Seq::new(n as nat, |i: int| None::<Seq<u8>>)
    &&& forall|k: int|
        0 <= k < order.len() ==> #[trigger] order[k] < n && chunk_added(
            states[k],
            helds[k],
            id,
            order[k],
            chunk_of(data, order[k] as int),
            results[k],
            states[k + 1],
            helds[k + 1],
        )
}

/// What holds after the first `k` chunks of `order` were added while one is missing.
spec fn gathered(
    data: Seq<u8>,
    id: Seq<u8>,
    first: Map<Seq<u8>, Transfer>,
    now: Map<Seq<u8>, Transfer>,
    held_first: nat,
    held_now: nat,
    order: Seq<u32>,
    k: int,
) -> bool {
    let t = now[id];
    &&& now.contains_key(id)
    &&& now == first.insert(id, Transfer { slots: t.slots, ..first[id] })
    &&& holds_chunks_of(t.slots, data)
    &&& held_now == held_first + bytes_in(t.slots)
    &&& forall|i: int|
        0 <= i < t.slots.len() ==> ((#[trigger] t.slots[i]) is Some <==> order.take(k).contains(
            i as u32,
        ))
}

/// A payload that was split comes back whole, in whatever order its chunks come and
/// however often. Each addition leaves the payload pending until the last missing
/// chunk comes; that one completes it, after which the transfer and all that was
/// buffered for it are gone, and further chunks of it are those of a transfer that
/// nobody announced.
pub proof fn chunks_may_come_in_any_order(
    data: Seq<u8>,
    id: Seq<u8>,
    order: Seq<u32>,
    results: Seq<AddChunkResult>,
    states: Seq<Map<Seq<u8>, Transfer>>,
    helds: Seq<nat>,
) -> (last: int)
    requires
        fragmentable(data),
        chunks_added(data, id, order, results, states, helds),
        helds[0] + data.len() <= MAX_REASSEMBLY_BYTES,
        covers(order, chunks_needed(data.len() as int)),
    ensures
        0 <= last < order.len(),
        covers(order.take(last + 1), chunks_needed(data.len() as int)),
        !covers(order.take(last), chunks_needed(data.len() as int)),
        forall|k: int| 0 <= k < last ==> (#[trigger] results[k]) is Pending,
        results[last] matches AddChunkResult::Complete { payload, content_id } && payload@ == data
            && content_id@ == states[0][id].content_id,
        forall|k: int| last < k < order.len() ==> (#[trigger] results[k]) is UnknownTransfer,
        forall|k: int|
            last < k <= order.len() ==> #[trigger] states[k] == states[0].remove(id) && helds[k]
                == helds[0],
{
    let n = chunks_needed(data.len() as int);
    assert(n > 0);
    assert(order.take(order.len() as int) =~= order);
    assert(!covers(order.take(0), n)) by {
        assert(!order.take(0).contains(0u32));
    }
    let last = lemma_first_cover(order, n, order.len() as int);
    lemma_gathering(data, id, order, results, states, helds, last);
    let t = states[last][id];
    let index = order[last] as int;
    let chunk = chunk_of(data, index);
    let slots = t.slots.update(index, Some(chunk));
    lemma_gathered_step(data, id, order, results, states, helds, last);
    assert forall|i: int| 0 <= i < slots.len() implies #[trigger] slots[i] == Some(
        chunk_of(data, i),
    ) by {
        assert(order.take(last + 1).contains(i as u32));
        lemma_taken(order, last, i as u32);
        assert(i == index || t.slots[i] is Some);
    }
    chunks_join_to_payload(data, slots);
    assert(states[last + 1] =~= states[0].remove(id));
    lemma_after_the_end(data, id, order, results, states, helds, last, order.len() as int);
    last
}

/// The first place up to which all numbers occur.
proof fn lemma_first_cover(order: Seq<u32>, n: int, k: int) -> (last: int)
    requires
        0 <= k <= order.len(),
        covers(order.take(k), n),
        !covers(order.take(0), n),
    ensures
        0 <= last < k,
        covers(order.take(last + 1), n),
        !covers(order.take(last), n),
    decreases k,
{
    if covers(order.take(k - 1), n) {
        lemma_first_cover(order, n, k - 1)
    } else {
        k - 1
    }
}

/// What occurs up to a place occurs before it or is there.
proof fn lemma_taken(order: Seq<u32>, k: int, i: u32)
    requires
        0 <= k < order.len(),
    ensures
        order.take(k + 1).contains(i) <==> order.take(k).contains(i) || order[k] == i,
{
    let longer = order.take(k + 1);
    let shorter = order.take(k);
    if longer.contains(i) {
        let j = choose|j: int| 0 <= j < longer.len() && longer[j] == i;
        if j < k {
            assert(shorter[j] == i);
        }
    }
    if shorter.contains(i) {
        let j = choose|j: int| 0 <= j < shorter.len() && shorter[j] == i;
        assert(longer[j] == i);
    }
    if order[k] == i {
        assert(longer[k] == i);
    }
}

/// Adding one more chunk to what was gathered stays within the memory limit.
proof fn lemma_gathered_step(
    data: Seq<u8>,
    id: Seq<u8>,
    order: Seq<u32>,
    results: Seq<AddChunkResult>,
    states: Seq<Map<Seq<u8>, Transfer>>,
    helds: Seq<nat>,
    k: int,
)
    requires
        fragmentable(data),
        chunks_added(data, id, order, results, states, helds),
        helds[0] + data.len() <= MAX_REASSEMBLY_BYTES,
        0 <= k < order.len(),
        gathered(data, id, states[0], states[k], helds[0], helds[k], order, k),
    ensures
        ({
            let t = states[k][id];
            let index = order[k] as int;
            let chunk = chunk_of(data, index);
            let slots = t.slots.update(index, Some(chunk));
            &&& holds_chunks_of(slots, data)
            &&& bytes_in(slots) == bytes_in(t.slots) - slot_len(t.slots[index]) + chunk.len()
            &&& helds[0] + bytes_in(slots) <= MAX_REASSEMBLY_BYTES
        }),
{
    let t = states[k][id];
    let index = order[k] as int;
    let chunk = chunk_of(data, index);
    let slots = t.slots.update(index, Some(chunk));
    assert(index < t.slots.len());
    assert(t.slots[index] is None || t.slots[index] == Some(chunk));
    lemma_slots_update(t.slots, index, chunk);
    assert(holds_chunks_of(slots, data));
    lemma_chunks_fit(slots, data, slots.len() as int);
    assert(slots.take(slots.len() as int) =~= slots);
}

proof fn lemma_gathering(
    data: Seq<u8>,
    id: Seq<u8>,
    order: Seq<u32>,
    results: Seq<AddChunkResult>,
    states: Seq<Map<Seq<u8>, Transfer>>,
    helds: Seq<nat>,
    k: int,
)
    requires
        fragmentable(data),
        chunks_added(data, id, order, results, states, helds),
        helds[0] + data.len() <= MAX_REASSEMBLY_BYTES,
        0 <= k <= order.len(),
        !covers(order.take(k), chunks_needed(data.len() as int)),
    ensures
        forall|j: int| 0 <= j < k ==> (#[trigger] results[j]) is Pending,
        gathered(data, id, states[0], states[k], helds[0], helds[k], order, k),
    decreases k,
{
    let n = chunks_needed(data.len() as int);
    lemma_empty_slots(n as nat);
    if k == 0 {
        assert(states[0] =~= states[0].insert(id, states[0][id]));
    } else {
        let before = k - 1;
        let absent = choose|i: u32| i < n && !#[trigger] order.take(k).contains(i);
        lemma_taken(order, before, absent);
        assert(!order.take(before).contains(absent));
        lemma_gathering(data, id, order, results, states, helds, before);
        lemma_gathered_step(data, id, order, results, states, helds, before);
        let t = states[before][id];
        let index = order[before] as int;
        let slots = t.slots.update(index, Some(chunk_of(data, index)));
        assert(order[before] < n);
        assert(slots[absent as int] is None);
        lemma_filled_bound(slots);
        if filled(slots) >= slots.len() {
            lemma_full_means_some(slots);
        }
        assert(results[before] is Pending);
        assert(states[k] =~= states[0].insert(id, Transfer { slots, ..states[0][id] }));
        assert forall|i: int| 0 <= i < slots.len() implies ((#[trigger] slots[i]) is Some
            <==> order.take(k).contains(i as u32)) by {
            lemma_taken(order, before, i as u32);
        }
    }
}

/// Nothing more happens to a transfer that is gone.
proof fn lemma_after_the_end(
    data: Seq<u8>,
    id: Seq<u8>,
    order: Seq<u32>,
    results: Seq<AddChunkResult>,
    states: Seq<Map<Seq<u8>, Transfer>>,
    helds: Seq<nat>,
    last: int,
    upto: int,
)
    requires
        chunks_added(data, id, order, results, states, helds),
        0 <= last < upto <= order.len(),
        states[last + 1] == states[0].remove(id),
        helds[last + 1] == helds[0],
    ensures
        forall|k: int| last < k < upto ==> (#[trigger] results[k]) is UnknownTransfer,
        forall|k: int|
            last < k <= upto ==> #[trigger] states[k] == states[0].remove(id) && helds[k]
                == helds[0],
    decreases upto,
{
    if upto > last + 1 {
        lemma_after_the_end(data, id, order, results, states, helds, last, upto - 1);
        assert(order[upto - 1] < chunks_needed(data.len() as int));
        assert(!states[upto - 1].contains_key(id));
    }
}

proof fn lemma_full_means_some(slots: Seq<Option<Seq<u8>>>)
    requires
        filled(slots) >= slots.len(),
    ensures
        forall|i: int| 0 <= i < slots.len() ==> (#[trigger] slots[i]) is Some,
    decreases slots.len(),
{
    if slots.len() > 0 {
        lemma_filled_bound(slots.drop_last());
        lemma_full_means_some(slots.drop_last());
        assert forall|i: int| 0 <= i < slots.len() implies (#[trigger] slots[i]) is Some by {
            if i < slots.len() - 1 {
                assert(slots[i] == slots.drop_last()[i]);
            }
        }
    }
}

proof fn lemma_joined_at(slots: Seq<Option<Seq<u8>>>, i: int)
    requires
        0 <= i < slots.len(),
    ensures
        joined(slots).len() == bytes_in(slots),
        bytes_in(slots.take(i)) + slot_len(slots[i]) <= bytes_in(slots),
        slots[i] is Some ==> joined(slots).subrange(
            bytes_in(slots.take(i)) as int,
            (bytes_in(slots.take(i)) + slot_len(slots[i])) as int,
        ) == slots[i]->0,
    decreases slots.len(),
{
    lemma_joined_len(slots.drop_last());
    if i == slots.len() - 1 {
        assert(slots.take(i) =~= slots.drop_last());
        if slots[i] is Some {
            assert(joined(slots).subrange(
                bytes_in(slots.take(i)) as int,
                (bytes_in(slots.take(i)) + slot_len(slots[i])) as int,
            ) =~= slots[i]->0);
        }
    } else {
        lemma_joined_at(slots.drop_last(), i);
        assert(slots.drop_last().take(i) =~= slots.take(i));
        if slots[i] is Some {
            assert(joined(slots).subrange(
                bytes_in(slots.take(i)) as int,
                (bytes_in(slots.take(i)) + slot_len(slots[i])) as int,
            ) =~= joined(slots.drop_last()).subrange(
                bytes_in(slots.take(i)) as int,
                (bytes_in(slots.take(i)) + slot_len(slots[i])) as int,
            ));
        }
    }
}

proof fn lemma_joined_len(slots: Seq<Option<Seq<u8>>>)
    ensures
        joined(slots).len() == bytes_in(slots),
    decreases slots.len(),
{
    if slots.len() > 0 {
        lemma_joined_len(slots.drop_last());
    }
}

/// Nothing is handed out that was not announced: whatever the number of chunks, a
/// payload that is handed out hashes to what its manifest said, comes with the content
/// that its manifest named, and ends the transfer.
pub proof fn what_is_handed_out_was_announced(
    a: &mut ChunkReassembler,
    id: &[u8; 16],
    index: u32,
    data: Vec<u8>,
    r: AddChunkResult,
)
    requires
        call_ensures(ChunkReassembler::add_chunk, (a, id, index, data), r),
    ensures
        r is Complete ==> {
            &&& old(a)@.contains_key(id@)
            &&& blake3_hash(r->payload@) == old(a)@[id@].content_hash
            &&& r->content_id@ == old(a)@[id@].content_id
            &&& index < old(a)@[id@].chunk_count
        },
        r is Complete || r is HashMismatch ==> !final(a)@.contains_key(id@),
        r is HashMismatch ==> old(a)@.contains_key(id@) && index < old(a)@[id@].chunk_count,
        r is Pending ==> final(a)@.contains_key(id@) && final(a)@[id@].content_hash == old(a)@[id@].content_hash && final(a)@[id@].content_id == old(a)@[id@].content_id && final(a)@[id@].chunk_count == old(a)@[id@].chunk_count && final(a)@[id@].created_at == old(a)@[id@].created_at,
{
}

/// What becomes of a chunk: one that nobody announced, and one beyond the last, are
/// refused; so is one that would take more memory than is allowed, and none for its
/// memory otherwise. Of a refused chunk nothing is kept. Any other is pending as long as
/// another is missing, and with the last the transfer ends: well where the chunks
/// together hash to what was announced, and only there.
pub proof fn what_becomes_of_a_chunk(
    a: &mut ChunkReassembler,
    id: &[u8; 16],
    index: u32,
    data: Vec<u8>,
    r: AddChunkResult,
)
    requires
        call_ensures(ChunkReassembler::add_chunk, (a, id, index, data), r),
        old(a)@.contains_key(id@) ==> old(a)@[id@].slots.len() == old(a)@[id@].chunk_count,
    ensures
        ({
            let t = old(a)@[id@];
            let known = old(a)@.contains_key(id@);
            let fits = known && index < t.chunk_count;
            let had = match t.slots[index as int] {
                Some(s) => s.len(),
                None => 0,
            };
            let over = data@.len() > had && old(a).buffered() + data@.len() - had > 67_108_864;
            let slots = t.slots.update(index as int, Some(data@));
            let missing = exists|j: int|
                0 <= j < t.slots.len() && j != index && (#[trigger] t.slots[j]) is None;
            &&& r is UnknownTransfer <==> !known
            &&& r is ChunkIndexOutOfRange <==> known && index >= t.chunk_count
            &&& r is MemoryCapExceeded <==> fits && over
            &&& r is Pending <==> fits && !over && missing
            &&& r is Complete <==> fits && !over && !missing && blake3_hash(joined(slots))
                == t.content_hash
            &&& r is HashMismatch <==> fits && !over && !missing && blake3_hash(joined(slots))
                != t.content_hash
            &&& r is Complete ==> r->payload@ == joined(slots)
            &&& r is UnknownTransfer || r is ChunkIndexOutOfRange || r is MemoryCapExceeded
                ==> final(a)@ == old(a)@ && final(a).buffered() == old(a).buffered()
            &&& r is Pending ==> final(a)@[id@].slots == slots && final(a).buffered() == old(a).buffered() + data@.len() - had
        }),
{
    let t = old(a)@[id@];
    if old(a)@.contains_key(id@) && index < t.chunk_count {
        let slots = t.slots.update(index as int, Some(data@));
        if exists|j: int| 0 <= j < t.slots.len() && j != index && (#[trigger] t.slots[j]) is None {
            let j = choose|j: int|
                0 <= j < t.slots.len() && j != index && (#[trigger] t.slots[j]) is None;
            assert(slots[j] is None);
            lemma_slot_within(slots, j);
        } else {
            assert forall|j: int| 0 <= j < slots.len() implies (#[trigger] slots[j]) is Some by {
                assert(j == index || t.slots[j] is Some);
            }
            lemma_all_filled(slots);
        }
    }
}

/// A payload is put together of its chunks as they came, each in its place: the chunk of
/// every number is found in it behind those of the smaller numbers.
pub proof fn chunks_are_put_in_their_places(
    a: &mut ChunkReassembler,
    id: &[u8; 16],
    index: u32,
    data: Vec<u8>,
    r: AddChunkResult,
    i: int,
)
    requires
        call_ensures(ChunkReassembler::add_chunk, (a, id, index, data), r),
        r is Complete,
        old(a)@[id@].slots.len() == old(a)@[id@].chunk_count,
        0 <= i < old(a)@[id@].chunk_count,
    ensures
        ({
            let slots = old(a)@[id@].slots.update(index as int, Some(data@));
            let from = bytes_in(slots.take(i)) as int;
            &&& slots[i] is Some
            &&& r->payload@.len() == bytes_in(slots)
            &&& r->payload@.subrange(from, from + slots[i]->0.len()) == slots[i]->0
        }),
{
    let slots = old(a)@[id@].slots.update(index as int, Some(data@));
    lemma_filled_bound(slots);
    lemma_full_means_some(slots);
    lemma_joined_at(slots, i);
}

/// A transfer of one chunk is that chunk: handed out exactly when it hashes to what was
/// announced and there is room for it.
pub proof fn one_chunk_is_checked_like_many(
    a: &mut ChunkReassembler,
    id: &[u8; 16],
    data: Vec<u8>,
    r: AddChunkResult,
)
    requires
        call_ensures(ChunkReassembler::add_chunk, (a, id, 0u32, data), r),
        old(a)@.contains_key(id@),
        old(a)@[id@].chunk_count == 1,
        old(a)@[id@].slots == seq![None::<Seq<u8>>],
        old(a).buffered() + data@.len() <= 67_108_864,
    ensures
        r is Complete <==> blake3_hash(data@) == old(a)@[id@].content_hash,
        r is HashMismatch <==> blake3_hash(data@) != old(a)@[id@].content_hash,
        r is Complete ==> r->payload@ == data@,
        final(a)@ == old(a)@.remove(id@),
{
    let slots = old(a)@[id@].slots.update(0, Some(data@));
    assert(slots.drop_last() =~= Seq::<Option<Seq<u8>>>::empty());
    assert(Seq::<u8>::empty() + data@ =~= data@);
    reveal_with_fuel(joined, 2);
    reveal_with_fuel(filled, 2);
    assert(joined(slots) =~= data@);
}

/// A chunk of one transfer changes no other.
pub proof fn transfers_do_not_mix(
    a: &mut ChunkReassembler,
    id: &[u8; 16],
    index: u32,
    data: Vec<u8>,
    r: AddChunkResult,
    other: Seq<u8>,
)
    requires
        call_ensures(ChunkReassembler::add_chunk, (a, id, index, data), r),
        other != id@,
    ensures
        final(a)@.contains_key(other) <==> old(a)@.contains_key(other),
        old(a)@.contains_key(other) ==> final(a)@[other] == old(a)@[other],
{
}

/// Which manifests are taken: those of one to 1024 chunks and at most 64 MiB, as long as
/// fewer than 256 others are in progress. What was taken is what is waited for, with no
/// chunk so far, from that moment on; what was not changes nothing.
pub proof fn manifests_are_taken_as_they_are(
    a: &mut ChunkReassembler,
    m: &ChunkManifestPayload,
    now: Instant,
    ok: bool,
    i: int,
)
    requires
        call_ensures(ChunkReassembler::register_manifest, (a, m, now), ok),
    ensures
        ok <==> 1 <= m.chunk_count <= 1024 && m.total_size <= 67_108_864 && (
        old(a)@.contains_key(m.transfer_id@) || old(a)@.len() < 256),
        !ok ==> *final(a) == *old(a),
        ok ==> {
            let t = final(a)@[m.transfer_id@];
            &&& final(a)@.contains_key(m.transfer_id@)
            &&& t.chunk_count == m.chunk_count
            &&& t.content_hash == m.content_hash@
            &&& t.content_id == m.content_id@
            &&& t.created_at == now@
            &&& t.slots.len() == m.chunk_count
            &&& 0 <= i < m.chunk_count ==> t.slots[i] is None
            &&& final(a)@ == old(a)@.insert(m.transfer_id@, t)
        },
{
}

/// Which payloads can be split: those that are not empty and not over 64 MiB. The
/// chunks of one, one behind the other, are the payload: every byte is in the chunk of
/// its place. The manifest tells their number, the length, the content and the hash of
/// the whole.
pub proof fn every_byte_is_in_its_chunk(
    data: &[u8],
    content_id: [u8; 32],
    transfer_id: [u8; 16],
    r: Option<(ChunkManifest, Vec<Vec<u8>>)>,
    at: int,
)
    requires
        call_ensures(fragment_with_id, (data, content_id, transfer_id), r),
        0 <= at < data@.len(),
    ensures
        r is Some <==> data@.len() <= 67_108_864,
        r is Some ==> {
            let m = (r->0).0.payload;
            let chunks = (r->0).1@;
            let n = at / 65536;
            &&& n < chunks.len()
            &&& at % 65536 < chunks[n]@.len() <= 65536
            &&& chunks[n]@[at % 65536] == data@[at]
            &&& m.chunk_count == chunks.len()
            &&& m.total_size == data@.len()
            &&& m.max_chunk_bytes == 65536
            &&& m.content_hash@ == blake3_hash(data@)
            &&& m.transfer_id == transfer_id
            &&& m.content_id == content_id
            &&& (r->0).0.content_id == content_id
            &&& (chunks.len() - 1) * 65536 < data@.len() <= chunks.len() * 65536
        },
{
    if r is Some {
        let chunks = (r->0).1@;
        let n = at / 65536;
        assert(0 <= n < chunks.len());
        assert(chunks[n]@ == chunk_of(data@, n));
        assert(at == n * 65536 + at % 65536);
    }
}

/// What was split and announced comes back: the only chunk of a payload completes the
/// transfer of its manifest with that payload.
pub proof fn a_small_payload_comes_back(
    data: &[u8],
    content_id: [u8; 32],
    transfer_id: [u8; 16],
    split: Option<(ChunkManifest, Vec<Vec<u8>>)>,
    a: &mut ChunkReassembler,
    now: Instant,
    ok: bool,
    b: &mut ChunkReassembler,
    chunk: Vec<u8>,
    r: AddChunkResult,
)
    requires
        call_ensures(fragment_with_id, (data, content_id, transfer_id), split),
        0 < data@.len() <= 65536,
        split is Some,
        call_ensures(
            ChunkReassembler::register_manifest,
            (a, &(split->0).0.payload, now),
            ok,
        ),
        ok,
        *old(b) == *final(a),
        old(b).buffered() + data@.len() <= 67_108_864,
        chunk@ == (split->0).1@[0]@,
        call_ensures(ChunkReassembler::add_chunk, (b, &transfer_id, 0u32, chunk), r),
    ensures
        r is Complete,
        r->payload@ == data@,
        r->content_id@ == content_id@,
{
    let chunks = (split->0).1@;
    assert(chunks.len() == 1);
    assert(chunks[0]@ == chunk_of(data@, 0));
    assert(chunk@ =~= data@);
    let t = old(b)@[transfer_id@];
    assert(t.slots =~= seq![None::<Seq<u8>>]);
    one_chunk_is_checked_like_many(b, &transfer_id, chunk, r);
}

/// A transfer that has stayed incomplete is dropped after a minute, and none before,
/// and what it announced is reported.
pub proof fn stale_transfers_are_dropped(
    a: &mut ChunkReassembler,
    now: Instant,
    evicted: Vec<[u8; 32]>,
    id: Seq<u8>,
)
    requires
        call_ensures(ChunkReassembler::evict_stale, (a, now), evicted),
        old(a)@.contains_key(id),
    ensures
        final(a)@.contains_key(id) <==> now@ < old(a)@[id].created_at + 60 * 1_000_000_000,
        final(a)@.contains_key(id) ==> final(a)@[id] == old(a)@[id],
        !final(a)@.contains_key(id) ==> exists|i: int|
            0 <= i < evicted@.len() && (#[trigger] evicted@[i])@ == old(a)@[id].content_id,
        final(a)@.dom().subset_of(old(a)@.dom()),
{
    if !final(a)@.contains_key(id) {
        let all = old(a).in_order();
        let k = choose|k: int| 0 <= k < all.len() && (#[trigger] all[k]).0 == id;
        assert(all[k].1 == old(a)@[id]);
        lemma_stale_listed(all, now@, k);
        let names = evicted@.map_values(|id: [u8; 32]| id@);
        let i = choose|i: int|
            0 <= i < names.len() && #[trigger] names[i] == old(a)@[id].content_id;
        assert(evicted@[i]@ == old(a)@[id].content_id);
    }
}

proof fn lemma_stale_listed(ts: Seq<(Seq<u8>, Transfer)>, now: nat, k: int)
    requires
        0 <= k < ts.len(),
        stale(ts[k].1, now),
    ensures
        exists|i: int|
            0 <= i < stale_contents(ts, now).len() && #[trigger] stale_contents(ts, now)[i]
                == ts[k].1.content_id,
    decreases ts.len(),
{
    let all = stale_contents(ts, now);
    if k == ts.len() - 1 {
        assert(all[all.len() - 1] == ts[k].1.content_id);
    } else {
        lemma_stale_listed(ts.drop_last(), now, k);
        let rest = stale_contents(ts.drop_last(), now);
        let i = choose|i: int| 0 <= i < rest.len() && #[trigger] rest[i] == ts[k].1.content_id;
        assert(all[i] == rest[i]);
    }
}

/// What is buffered never exceeds 64 MiB.
pub proof fn memory_is_bounded(a: &ChunkReassembler, n: usize)
    requires
        call_ensures(ChunkReassembler::buffered_bytes, (a,), n),
    ensures
        n <= 67_108_864,
        n == a.buffered(),
{
}

/// A manifest that was encoded is decoded as it was, field by field, and bytes of any
/// other length are none.
pub proof fn manifests_survive_encoding(
    m: &ChunkManifestPayload,
    v: Vec<u8>,
    s: &[u8],
    r: Option<ChunkManifestPayload>,
)
    requires
        call_ensures(ChunkManifestPayload::encode, (m,), v),
        call_ensures(ChunkManifestPayload::decode, (s,), r),
    ensures
        v@.len() == 92,
        s@.len() != 92 <==> r is None,
        s@ == v@ ==> {
            &&& r is Some
            &&& r->0.transfer_id@ == m.transfer_id@
            &&& r->0.content_id@ == m.content_id@
            &&& r->0.total_size == m.total_size
            &&& r->0.chunk_count == m.chunk_count
            &&& r->0.max_chunk_bytes == m.max_chunk_bytes
            &&& r->0.content_hash@ == m.content_hash@
        },
{
}

/// A chunk that was encoded is decoded as it was, whatever it carries.
pub proof fn chunks_survive_encoding(
    c: &ChunkPayload,
    v: Vec<u8>,
    s: &[u8],
    r: Option<ChunkPayload>,
)
    requires
        call_ensures(ChunkPayload::encode, (c,), v),
        call_ensures(ChunkPayload::decode, (s,), r),
    ensures
        v@.len() == 20 + c.data@.len(),
        s@.len() < 20 <==> r is None,
        s@ == v@ ==> {
            &&& r is Some
            &&& r->0.transfer_id@ == c.transfer_id@
            &&& r->0.chunk_index == c.chunk_index
            &&& r->0.data@ == c.data@
        },
{
    lemma_be32(c.chunk_index);
}

/// The fields of a manifest stand one behind another, each of them whole.
pub proof fn how_a_manifest_is_laid_out(
    m: &ChunkManifestPayload,
    v: Vec<u8>,
    s: &[u8],
    r: Option<ChunkManifestPayload>,
)
    requires
        call_ensures(ChunkManifestPayload::encode, (m,), v),
        call_ensures(ChunkManifestPayload::decode, (s,), r),
    ensures
        v@.len() == 92,
        v@.subrange(0, 16) == m.transfer_id@,
        v@.subrange(16, 48) == m.content_id@,
        of_be32(v@.subrange(48, 52)) == m.total_size,
        of_be32(v@.subrange(52, 56)) == m.chunk_count,
        of_be32(v@.subrange(56, 60)) == m.max_chunk_bytes,
        v@.subrange(60, 92) == m.content_hash@,
        r is Some <==> s@.len() == 92,
        r is Some ==> {
            &&& r->0.transfer_id@ == s@.subrange(0, 16)
            &&& r->0.content_id@ == s@.subrange(16, 48)
            &&& r->0.total_size == of_be32(s@.subrange(48, 52))
            &&& r->0.chunk_count == of_be32(s@.subrange(52, 56))
            &&& r->0.max_chunk_bytes == of_be32(s@.subrange(56, 60))
            &&& r->0.content_hash@ == s@.subrange(60, 92)
        },
{
    lemma_be32(m.total_size);
    lemma_be32(m.chunk_count);
    lemma_be32(m.max_chunk_bytes);
}

/// The fields of a chunk stand one behind another, its data last.
pub proof fn how_a_chunk_is_laid_out(
    c: &ChunkPayload,
    v: Vec<u8>,
    s: &[u8],
    r: Option<ChunkPayload>,
)
    requires
        call_ensures(ChunkPayload::encode, (c,), v),
        call_ensures(ChunkPayload::decode, (s,), r),
    ensures
        v@.len() == 20 + c.data@.len(),
        v@.subrange(0, 16) == c.transfer_id@,
        of_be32(v@.subrange(16, 20)) == c.chunk_index,
        v@.subrange(20, v@.len() as int) == c.data@,
        r is Some <==> s@.len() >= 20,
        r is Some ==> {
            &&& r->0.transfer_id@ == s@.subrange(0, 16)
            &&& r->0.chunk_index == of_be32(s@.subrange(16, 20))
            &&& r->0.data@ == s@.subrange(20, s@.len() as int)
        },
{
    lemma_be32(c.chunk_index);
}

/// What is buffered is counted: a chunk at a place that was empty adds its length, and a
/// transfer that ends, well or not, gives back all that it held.
pub proof fn buffered_bytes_are_counted(
    a: &mut ChunkReassembler,
    id: &[u8; 16],
    index: u32,
    data: Vec<u8>,
    r: AddChunkResult,
)
    requires
        call_ensures(ChunkReassembler::add_chunk, (a, id, index, data), r),
        old(a)@.contains_key(id@),
        index < old(a)@[id@].chunk_count,
    ensures
        r is Pending && old(a)@[id@].slots[index as int] is None ==> final(a).buffered() == old(a).buffered() + data@.len(),
        r is Pending && old(a)@[id@].slots[index as int] is Some ==> final(a).buffered() + old(a)@[id@].slots[index as int]->0.len() == old(a).buffered() + data@.len(),
        r is Complete || r is HashMismatch ==> final(a).buffered() == old(a).buffered() - bytes_in(
            old(a)@[id@].slots,
        ),
        r is MemoryCapExceeded ==> final(a).buffered() == old(a).buffered() && old(a).buffered()
            + data@.len() > 67_108_864,
        old(a)@[id@].slots[index as int] is None && old(a).buffered() + data@.len() > 67_108_864
            && data@.len() > 0 ==> r is MemoryCapExceeded,
{
}

/// What a transfer holds is the sum of its chunks.
pub proof fn the_bytes_of_a_transfer_add_up(slots: Seq<Option<Seq<u8>>>, chunk: Seq<u8>)
    ensures
        bytes_in(Seq::<Option<Seq<u8>>>::empty()) == 0,
        bytes_in(slots.push(None)) == bytes_in(slots),
        bytes_in(slots.push(Some(chunk))) == bytes_in(slots) + chunk.len(),
{
    assert(slots.push(None).drop_last() =~= slots);
    assert(slots.push(Some(chunk)).drop_last() =~= slots);
}

proof fn lemma_listed_is_stale(ts: Seq<(Seq<u8>, Transfer)>, now: nat, i: int) -> (k: int)
    requires
        0 <= i < stale_contents(ts, now).len(),
    ensures
        0 <= k < ts.len(),
        stale(ts[k].1, now),
        ts[k].1.content_id == stale_contents(ts, now)[i],
    decreases ts.len(),
{
    let rest = ts.drop_last();
    if stale(ts.last().1, now) && i == stale_contents(rest, now).len() {
        ts.len() - 1
    } else {
        lemma_listed_is_stale(rest, now, i)
    }
}

/// Only what stayed incomplete for a minute is reported as given up.
pub proof fn only_stale_transfers_are_reported(
    a: &mut ChunkReassembler,
    now: Instant,
    evicted: Vec<[u8; 32]>,
    i: int,
) -> (id: Seq<u8>)
    requires
        call_ensures(ChunkReassembler::evict_stale, (a, now), evicted),
        0 <= i < evicted@.len(),
    ensures
        old(a)@.contains_key(id),
        old(a)@[id].content_id == evicted@[i]@,
        now@ >= old(a)@[id].created_at + 60 * 1_000_000_000,
        !final(a)@.contains_key(id),
{
    let all = old(a).in_order();
    let names = evicted@.map_values(|id: [u8; 32]| id@);
    assert(names[i] == evicted@[i]@);
    let k = lemma_listed_is_stale(all, now@, i);
    assert(old(a)@.contains_key(all[k].0) && old(a)@[all[k].0] == all[k].1);
    all[k].0
}

} // verus!
