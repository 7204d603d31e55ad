//! The sender's transfer engine: load the payload, digest it, frame
//! it, and hand the caller the exact byte blocks to write — the
//! header first, then each bounded chunk, each flushed before the
//! next is prepared. The caller owns the file read and the socket.

use vstd::prelude::*;

use crate::chunks::{lemma_chunks_flatten, spec_chunks};
use crate::codec::{
    encode_header, spec_decode_header, spec_header, spec_header_size, Limits,
};
use crate::digest::{compute_digest, md5_of};
use crate::errors::TransferError;

verus! {

/// Everything one transfer puts on the wire, in order: the header,
/// then the payload chunks, each written and flushed separately.
pub struct FramePlan {
    /// The encoded frame header.
    pub header: Vec<u8>,
    /// The payload chunks, in transmission order.
    pub chunks: Vec<Vec<u8>>,
}

/// The full byte stream one transfer sends: the header framing the
/// payload's digest and sizes, then the payload itself.
pub open spec fn spec_wire_bytes(file: Seq<u8>, chunk_size: u64) -> Seq<u8> {
    spec_header(md5_of(file), file.len() as u64, chunk_size) + file
}

impl FramePlan {
    /// The bytes this plan puts on the wire, in write order.
    pub open spec fn wire_view(self) -> Seq<u8> {
        self.header@ + self.chunks@.map_values(|c: Vec<u8>| c@).flatten()
    }
}

/// Build the transfer plan for a payload: compute its digest, encode
/// the header, and partition the payload into bounded chunks —
/// `file_size / chunk_size` full ones plus the remainder, if any. The
/// bytes of the plan, written in order, are exactly the wire stream.
pub fn plan_transfer(file: &Vec<u8>, chunk_size: usize) -> (r: FramePlan)
    requires
        chunk_size >= 1,
    ensures
        r.header@ == spec_header(md5_of(file@), file@.len() as u64, chunk_size as u64),
        r.chunks@.map_values(|c: Vec<u8>| c@) == spec_chunks(file@, chunk_size as int),
        r.chunks@.len() == crate::chunks::spec_num_chunks(file@.len() as int, chunk_size as int),
        r.wire_view() == spec_wire_bytes(file@, chunk_size as u64),
{
    let digest = compute_digest(file);
    let header = encode_header(&digest, file.len() as u64, chunk_size as u64);
    let chunks = crate::chunks::split_chunks(file, chunk_size);
    let plan = FramePlan { header, chunks };
    proof {
        lemma_chunks_flatten(file@, chunk_size as int);
        crate::chunks::lemma_chunks_shape(file@, chunk_size as int);
        assert(plan.chunks@.len() == plan.chunks@.map_values(|c: Vec<u8>| c@).len());
        assert(plan.wire_view() =~= spec_wire_bytes(file@, chunk_size as u64));
    }
    plan
}

/// Round trip integrity: the stream a sender builds for a payload —
/// the header for a declared digest, then the chunks in order —
/// decodes on the receiving side to that digest, the payload's exact
/// byte length and the sender's chunk size, and the bytes after the
/// header are the payload itself, whatever chunk size was used. In
/// particular, when the declared digest is the payload's digest, the
/// digest recomputed over the received payload equals the declared
/// one.
pub proof fn lemma_round_trip(file: Seq<u8>, digest: Seq<u8>, chunk_size: u64, limits: Limits)
    requires
        chunk_size >= 1,
        digest.len() <= limits.max_digest_length,
        file.len() <= limits.max_file_size,
    ensures
        ({
            let wire = spec_header(digest, file.len() as u64, chunk_size) + spec_chunks(
                file,
                chunk_size as int,
            ).flatten();
            let payload = wire.subrange(spec_header_size(digest.len() as int), wire.len() as int);
            &&& spec_decode_header(wire, limits) == Ok::<(Seq<u8>, u64, u64), TransferError>(
                (digest, file.len() as u64, chunk_size),
            )
            &&& payload == file
            &&& digest == md5_of(file) ==> md5_of(payload) == digest
        }),
{
    lemma_chunks_flatten(file, chunk_size as int);
    crate::codec::lemma_header_round_trip(digest, file.len() as u64, chunk_size, file, limits);
    crate::codec::lemma_header_len(digest, file.len() as u64, chunk_size);
    crate::codec::lemma_suffix_after_prefix(
        spec_header(digest, file.len() as u64, chunk_size),
        file,
    );
}

} // verus!
