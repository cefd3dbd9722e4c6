//! File transfer bookkeeping. A sender offers a file, sends it in chunks and
//! announces its completion; a receiver keeps one record per offered transfer,
//! counts the bytes written for it and closes it with the last chunk.
use vstd::prelude::*;

use crate::ids::{is_v4, random_v4};
use crate::protocol::{FlowMessage, PeerId};
use std::collections::HashMap;

verus! {

/// Size of the chunks a file is read and sent in: 64 KiB.
pub const CHUNK_SIZE: usize = 64 * 1024;

/// A file being sent.
pub struct OutgoingTransfer {
    pub transfer_id: u128,
    pub from_peer: PeerId,
    pub file_name: String,
    pub file_size: u64,
    /// Bytes sent so far; the offset of the next chunk.
    pub offset: u64,
}

impl OutgoingTransfer {
    /// Starts sending a file, under a fresh random transfer id.
    pub fn new(from_peer: PeerId, file_name: String, file_size: u64) -> (t: OutgoingTransfer)
        ensures
            is_v4(t.transfer_id),
            t.from_peer == from_peer,
            t.file_name == file_name,
            t.file_size == file_size,
            t.offset == 0,
    {
        OutgoingTransfer { transfer_id: random_v4(), from_peer, file_name, file_size, offset: 0 }
    }

    /// The offer announcing the file.
    pub fn offer(&self) -> (m: FlowMessage)
        ensures
            m matches FlowMessage::FileOffer { transfer_id, from_peer, file_name, file_size }
                && transfer_id == self.transfer_id && from_peer == self.from_peer && file_name@
                == self.file_name@ && file_size == self.file_size,
    {
        FlowMessage::FileOffer {
            transfer_id: self.transfer_id,
            from_peer: self.from_peer,
            file_name: self.file_name.clone(),
            file_size: self.file_size,
        }
    }

    /// The message carrying the bytes just read, or `None` once a read
    /// returns nothing. A chunk starts at the bytes sent so far and is the
    /// last one when it reaches the announced size.
    pub fn next_chunk(&mut self, data: Vec<u8>) -> (m: Option<FlowMessage>)
        requires
            old(self).offset + data@.len() <= u64::MAX,
        ensures
            final(self).transfer_id == old(self).transfer_id,
            final(self).from_peer == old(self).from_peer,
            final(self).file_name == old(self).file_name,
            final(self).file_size == old(self).file_size,
            final(self).offset == old(self).offset + data@.len(),
            data@.len() == 0 ==> m is None,
            data@.len() > 0 ==> (m matches Some(FlowMessage::FileChunk { transfer_id, offset, data: d, is_last })
                && transfer_id == old(self).transfer_id && offset == old(self).offset && d@ == data@
                && is_last == (old(self).offset + data@.len() >= old(self).file_size)),
    {
        let n = data.len();
        if n == 0 {
            return None;
        }
        let offset = self.offset;
        let is_last = offset + n as u64 >= self.file_size;
        self.offset = offset + n as u64;
        Some(FlowMessage::FileChunk { transfer_id: self.transfer_id, offset, data, is_last })
    }

    /// The message announcing that the whole file was sent.
    pub fn complete(&self) -> (m: FlowMessage)
        ensures
            m matches FlowMessage::FileComplete { transfer_id, file_name } && transfer_id
                == self.transfer_id && file_name@ == self.file_name@,
    {
        FlowMessage::FileComplete { transfer_id: self.transfer_id, file_name: self.file_name.clone() }
    }
}

/// A file being received.
pub struct ReceiveState {
    pub file_name: String,
    pub file_size: u64,
    pub bytes_received: u64,
}

/// The records after an offer of transfer `id`: a fresh record with nothing
/// received, in place of any earlier record under the same id.
pub open spec fn offered(m: Map<u128, ReceiveState>, id: u128, name: String, size: u64) -> Map<u128, ReceiveState> {
    m.insert(id, ReceiveState { file_name: name, file_size: size, bytes_received: 0 })
}

/// The records after `len` more bytes of transfer `id` were written.
pub open spec fn recorded(m: Map<u128, ReceiveState>, id: u128, len: u64) -> Map<u128, ReceiveState> {
    if m.contains_key(id) {
        m.insert(id, ReceiveState { bytes_received: (m[id].bytes_received + len) as u64, ..m[id] })
    } else {
        m
    }
}

/// The records after transfer `id` was closed.
pub open spec fn finished(m: Map<u128, ReceiveState>, id: u128) -> Map<u128, ReceiveState> {
    m.remove(id)
}

/// The records after a chunk of `len` bytes of transfer `id` was written:
/// it is counted, and the last chunk closes the transfer.
pub open spec fn after_chunk(m: Map<u128, ReceiveState>, id: u128, len: u64, is_last: bool) -> Map<u128, ReceiveState> {
    if is_last {
        finished(recorded(m, id, len), id)
    } else {
        recorded(m, id, len)
    }
}

/// What a chunk of `len` bytes of transfer `id` reports: for the last chunk,
/// the file name and the bytes received in all; nothing otherwise.
pub open spec fn chunk_reply(m: Map<u128, ReceiveState>, id: u128, len: u64, is_last: bool) -> Option<(String, u64)> {
    if is_last && m.contains_key(id) {
        Some((m[id].file_name, (m[id].bytes_received + len) as u64))
    } else {
        None
    }
}

/// The transfers being received, by transfer id.
pub struct ReceiveTable {
    pub active_receives: HashMap<u128, ReceiveState>,
}

impl ReceiveTable {
    /// No transfer under way.
    pub fn new() -> (t: ReceiveTable)
        ensures
            t.active_receives@ == Map::<u128, ReceiveState>::empty(),
    {
        ReceiveTable { active_receives: HashMap::new() }
    }

    /// Whether transfer `id` is being received.
    pub fn is_active(&self, id: u128) -> (r: bool)
        ensures
            r == self.active_receives@.contains_key(id),
    {
        broadcast use vstd::std_specs::hash::group_hash_axioms;

        self.active_receives.contains_key(&id)
    }

    /// The bytes received so far of transfer `id`, if it is under way.
    pub fn bytes_received(&self, id: u128) -> (r: Option<u64>)
        ensures
            self.active_receives@.contains_key(id) ==> r == Some(
                self.active_receives@[id].bytes_received,
            ),
            !self.active_receives@.contains_key(id) ==> r is None,
    {
        broadcast use vstd::std_specs::hash::group_hash_axioms;

        match self.active_receives.get(&id) {
            Some(rec) => Some(rec.bytes_received),
            None => None,
        }
    }

    /// A file was offered: its record starts with nothing received,
    /// replacing any record under the same id.
    pub fn handle_offer(&mut self, transfer_id: u128, file_name: String, file_size: u64)
        ensures
            final(self).active_receives@ == offered(
                old(self).active_receives@,
                transfer_id,
                file_name,
                file_size,
            ),
    {
        broadcast use vstd::std_specs::hash::group_hash_axioms;

        self.active_receives.insert(
            transfer_id,
            ReceiveState { file_name, file_size, bytes_received: 0 },
        );
    }

    /// `len` more bytes of transfer `id` were written.
    pub fn record_chunk(&mut self, id: u128, len: u64)
        requires
            old(self).active_receives@.contains_key(id),
            old(self).active_receives@[id].bytes_received + len <= u64::MAX,
        ensures
            final(self).active_receives@ == recorded(old(self).active_receives@, id, len),
    {
        broadcast use vstd::std_specs::hash::group_hash_axioms;

        let old_rec = self.active_receives.remove(&id).unwrap();
        self.active_receives.insert(
            id,
            ReceiveState {
                file_name: old_rec.file_name,
                file_size: old_rec.file_size,
                bytes_received: old_rec.bytes_received + len,
            },
        );
        assert(self.active_receives@ =~= recorded(old(self).active_receives@, id, len));
    }

    /// Transfer `id` is closed: its record is dropped and its file name and
    /// byte count returned; `None` where there is no such transfer.
    pub fn finish(&mut self, id: u128) -> (r: Option<(String, u64)>)
        ensures
            final(self).active_receives@ == finished(old(self).active_receives@, id),
            old(self).active_receives@.contains_key(id) ==> r == Some(
                (
                    old(self).active_receives@[id].file_name,
                    old(self).active_receives@[id].bytes_received,
                ),
            ),
            !old(self).active_receives@.contains_key(id) ==> r is None,
    {
        broadcast use vstd::std_specs::hash::group_hash_axioms;

        match self.active_receives.remove(&id) {
            Some(rec) => {
                assert(self.active_receives@ =~= old(self).active_receives@.remove(id));
                Some((rec.file_name, rec.bytes_received))
            },
            None => {
                assert(self.active_receives@ =~= old(self).active_receives@.remove(id));
                None
            },
        }
    }

    /// A chunk of `len` bytes of transfer `id` was written: it is counted
    /// and, where it is the last one, the transfer is closed and its file
    /// name and byte count returned.
    pub fn on_chunk(&mut self, id: u128, len: u64, is_last: bool) -> (r: Option<(String, u64)>)
        requires
            old(self).active_receives@.contains_key(id),
            old(self).active_receives@[id].bytes_received + len <= u64::MAX,
        ensures
            final(self).active_receives@ == after_chunk(old(self).active_receives@, id, len, is_last),
            r == chunk_reply(old(self).active_receives@, id, len, is_last),
    {
        self.record_chunk(id, len);
        if is_last {
            self.finish(id)
        } else {
            None
        }
    }
}

/// Offering leaves the other transfers' records, and the offered transfer
/// starts with nothing received.
pub proof fn lemma_offer(m: Map<u128, ReceiveState>, id: u128, name: String, size: u64, other: u128)
    requires
        other != id,
    ensures
        offered(m, id, name, size).contains_key(id),
        offered(m, id, name, size)[id] == (ReceiveState { file_name: name, file_size: size, bytes_received: 0 }),
        offered(m, id, name, size).contains_key(other) == m.contains_key(other),
        offered(m, id, name, size)[other] == m[other],
{
}

/// Writing to a transfer adds to its count and leaves the other transfers'
/// records.
pub proof fn lemma_record(m: Map<u128, ReceiveState>, id: u128, len: u64, other: u128)
    requires
        m.contains_key(id),
        m[id].bytes_received + len <= u64::MAX,
        other != id,
    ensures
        recorded(m, id, len).contains_key(id),
        recorded(m, id, len)[id].bytes_received == m[id].bytes_received + len,
        recorded(m, id, len)[id].file_name == m[id].file_name,
        recorded(m, id, len)[id].file_size == m[id].file_size,
        recorded(m, id, len).contains_key(other) == m.contains_key(other),
        recorded(m, id, len)[other] == m[other],
{
}

/// Closing a transfer forgets it and leaves the other transfers' records.
pub proof fn lemma_finish(m: Map<u128, ReceiveState>, id: u128, other: u128)
    requires
        other != id,
    ensures
        !finished(m, id).contains_key(id),
        finished(m, id).contains_key(other) == m.contains_key(other),
        finished(m, id)[other] == m[other],
{
}

/// The sum of chunk lengths.
pub open spec fn total_len(lens: Seq<u64>) -> int
    decreases lens.len(),
{
    if lens.len() == 0 {
        0
    } else {
        total_len(lens.drop_last()) + lens.last()
    }
}

/// A sum of lengths is not negative.
proof fn lemma_total_nonneg(lens: Seq<u64>)
    ensures
        total_len(lens) >= 0,
    decreases lens.len(),
{
    if lens.len() > 0 {
        lemma_total_nonneg(lens.drop_last());
    }
}

/// The records after chunks of the given lengths of transfer `id` were
/// written, none of them the last.
pub open spec fn fed(m: Map<u128, ReceiveState>, id: u128, lens: Seq<u64>) -> Map<u128, ReceiveState>
    decreases lens.len(),
{
    if lens.len() == 0 {
        m
    } else {
        after_chunk(fed(m, id, lens.drop_last()), id, lens.last(), false)
    }
}

/// After an offer and chunks that are not the last, the transfer is under
/// way with the offered name and size and the sum of the chunk lengths
/// received.
pub proof fn lemma_fed(m: Map<u128, ReceiveState>, id: u128, name: String, size: u64, lens: Seq<u64>)
    requires
        total_len(lens) <= u64::MAX,
    ensures
        fed(offered(m, id, name, size), id, lens).contains_key(id),
        fed(offered(m, id, name, size), id, lens)[id] == (ReceiveState {
            file_name: name,
            file_size: size,
            bytes_received: total_len(lens) as u64,
        }),
    decreases lens.len(),
{
    if lens.len() > 0 {
        let init = lens.drop_last();
        assert(total_len(lens) == total_len(init) + lens.last());
        lemma_total_nonneg(init);
        lemma_fed(m, id, name, size, init);
    }
}

/// A transfer offered and then written chunk by chunk reports, with its last
/// chunk, the offered file name and the sum of all chunk lengths, and is no
/// longer under way; the chunks before report nothing.
pub proof fn lemma_transfer_totals(
    m: Map<u128, ReceiveState>,
    id: u128,
    name: String,
    size: u64,
    lens: Seq<u64>,
    last: u64,
)
    requires
        total_len(lens) + last <= u64::MAX,
    ensures
        forall|k: int|
            0 <= k < lens.len() ==> chunk_reply(fed(offered(m, id, name, size), id, lens.take(k)), id, #[trigger] lens[k], false) is None,
        chunk_reply(fed(offered(m, id, name, size), id, lens), id, last, true) == Some(
            (name, (total_len(lens) + last) as u64),
        ),
        !after_chunk(fed(offered(m, id, name, size), id, lens), id, last, true).contains_key(id),
{
    lemma_total_nonneg(lens);
    lemma_fed(m, id, name, size, lens);
}

} // verus!
