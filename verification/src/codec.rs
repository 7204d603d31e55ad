//! The frame codec: every multi-byte integer on the wire is an
//! unsigned 64-bit value in little-endian byte order.

use vstd::prelude::*;

use crate::errors::TransferError;

verus! {

/// The eight little-endian bytes of a 64-bit value.
pub open spec fn u64_le_bytes(v: u64) -> Seq<u8> {
    seq![
        (v & 0xff) as u8,
        ((v >> 8) & 0xff) as u8,
        ((v >> 16) & 0xff) as u8,
        ((v >> 24) & 0xff) as u8,
        ((v >> 32) & 0xff) as u8,
        ((v >> 40) & 0xff) as u8,
        ((v >> 48) & 0xff) as u8,
        ((v >> 56) & 0xff) as u8,
    ]
}

/// The 64-bit value read from eight little-endian bytes.
pub open spec fn u64_from_le(s: Seq<u8>) -> u64
    recommends
        s.len() == 8,
{
    ((s[0] as u64)
        | ((s[1] as u64) << 8)
        | ((s[2] as u64) << 16)
        | ((s[3] as u64) << 24)
        | ((s[4] as u64) << 32)
        | ((s[5] as u64) << 40)
        | ((s[6] as u64) << 48)
        | ((s[7] as u64) << 56)) as u64
}

/// Decoding the little-endian bytes of a value gives the value back.
pub proof fn lemma_u64_le_round_trip(v: u64)
    ensures
        u64_from_le(u64_le_bytes(v)) == v,
{
    assert((((v & 0xff) as u8 as u64)
        | ((((v >> 8) & 0xff) as u8 as u64) << 8)
        | ((((v >> 16) & 0xff) as u8 as u64) << 16)
        | ((((v >> 24) & 0xff) as u8 as u64) << 24)
        | ((((v >> 32) & 0xff) as u8 as u64) << 32)
        | ((((v >> 40) & 0xff) as u8 as u64) << 40)
        | ((((v >> 48) & 0xff) as u8 as u64) << 48)
        | ((((v >> 56) & 0xff) as u8 as u64) << 56)) == v) by (bit_vector);
}

/// Append the eight little-endian bytes of `v` to `out`.
pub fn encode_u64_le(v: u64, out: &mut Vec<u8>)
    ensures
        final(out)@ == old(out)@ + u64_le_bytes(v),
{
    out.push((v & 0xff) as u8);
    out.push(((v >> 8) & 0xff) as u8);
    out.push(((v >> 16) & 0xff) as u8);
    out.push(((v >> 24) & 0xff) as u8);
    out.push(((v >> 32) & 0xff) as u8);
    out.push(((v >> 40) & 0xff) as u8);
    out.push(((v >> 48) & 0xff) as u8);
    out.push(((v >> 56) & 0xff) as u8);
    assert(out@ =~= old(out)@ + u64_le_bytes(v));
}

/// Read the 64-bit value stored little-endian at `offset`.
pub fn decode_u64_le_at(bytes: &Vec<u8>, offset: usize) -> (r: u64)
    requires
        offset + 8 <= bytes@.len(),
    ensures
        r == u64_from_le(bytes@.subrange(offset as int, offset as int + 8)),
{
    let n = bytes.len();
    assert(offset + 8 <= n);
    let r = (bytes[offset] as u64)
        | ((bytes[offset + 1] as u64) << 8)
        | ((bytes[offset + 2] as u64) << 16)
        | ((bytes[offset + 3] as u64) << 24)
        | ((bytes[offset + 4] as u64) << 32)
        | ((bytes[offset + 5] as u64) << 40)
        | ((bytes[offset + 6] as u64) << 48)
        | ((bytes[offset + 7] as u64) << 56);
    proof {
        let s = bytes@.subrange(offset as int, offset as int + 8);
        assert(s[0] == bytes@[offset as int]);
        assert(s[1] == bytes@[offset as int + 1]);
        assert(s[2] == bytes@[offset as int + 2]);
        assert(s[3] == bytes@[offset as int + 3]);
        assert(s[4] == bytes@[offset as int + 4]);
        assert(s[5] == bytes@[offset as int + 5]);
        assert(s[6] == bytes@[offset as int + 6]);
        assert(s[7] == bytes@[offset as int + 7]);
    }
    r
}

/// Read the 64-bit value from exactly eight little-endian bytes.
pub fn decode_u64_le(bytes: &Vec<u8>) -> (r: u64)
    requires
        bytes@.len() == 8,
    ensures
        r == u64_from_le(bytes@),
{
    let r = decode_u64_le_at(bytes, 0);
    proof {
        assert(bytes@.subrange(0, 8) =~= bytes@);
    }
    r
}

/// The decoded fixed-layout frame header.
pub struct Header {
    /// The content digest the sender declared.
    pub digest: Vec<u8>,
    /// The exact byte length of the payload that follows the header.
    pub file_size: u64,
    /// The sender's write granularity; informational for the receiver.
    pub chunk_size: u64,
}

/// Ceilings on the header's untrusted size fields: both must be
/// checked before any allocation of the declared size.
pub struct Limits {
    /// Largest acceptable declared digest length, in bytes.
    pub max_digest_length: u64,
    /// Largest acceptable declared file size, in bytes.
    pub max_file_size: u64,
}

/// The byte length of a header whose digest has `digest_len` bytes:
/// three 64-bit fields plus the digest itself.
pub open spec fn spec_header_size(digest_len: int) -> int {
    24 + digest_len
}

/// The encoded header: digest length, digest bytes, file size,
/// chunk size, in that order.
pub open spec fn spec_header(digest: Seq<u8>, file_size: u64, chunk_size: u64) -> Seq<u8> {
    u64_le_bytes(digest.len() as u64) + digest + u64_le_bytes(file_size) + u64_le_bytes(chunk_size)
}

/// What decoding a byte prefix yields: the declared digest, file size
/// and chunk size, or the first error the fields force, in the order
/// the fields arrive.
pub open spec fn spec_decode_header(bytes: Seq<u8>, limits: Limits) -> Result<
    (Seq<u8>, u64, u64),
    TransferError,
> {
    if bytes.len() < 8 {
        Err(TransferError::TruncatedHeader)
    } else {
        let digest_len = u64_from_le(bytes.subrange(0, 8));
        if digest_len > limits.max_digest_length {
            Err(TransferError::DigestLengthTooLarge)
        } else if bytes.len() < spec_header_size(digest_len as int) {
            Err(TransferError::TruncatedHeader)
        } else {
            let file_size = u64_from_le(
                bytes.subrange(8 + digest_len as int, 16 + digest_len as int),
            );
            if file_size > limits.max_file_size {
                Err(TransferError::FileSizeTooLarge)
            } else {
                Ok(
                    (
                        bytes.subrange(8, 8 + digest_len as int),
                        file_size,
                        u64_from_le(bytes.subrange(16 + digest_len as int, 24 + digest_len as int)),
                    ),
                )
            }
        }
    }
}

/// Decoding an encoded header followed by any further bytes yields
/// exactly the digest and size fields that were encoded, whenever the
/// digest length and file size respect the decoder's ceilings.
pub proof fn lemma_header_round_trip(
    digest: Seq<u8>,
    file_size: u64,
    chunk_size: u64,
    rest: Seq<u8>,
    limits: Limits,
)
    requires
        digest.len() <= limits.max_digest_length,
        file_size <= limits.max_file_size,
    ensures
        spec_decode_header(spec_header(digest, file_size, chunk_size) + rest, limits)
            == Ok::<(Seq<u8>, u64, u64), TransferError>((digest, file_size, chunk_size)),
{
    let dlen = digest.len() as int;
    let wire = spec_header(digest, file_size, chunk_size) + rest;
    assert(wire.subrange(0, 8) =~= u64_le_bytes(digest.len() as u64));
    lemma_u64_le_round_trip(digest.len() as u64);
    assert(u64_from_le(wire.subrange(0, 8)) == digest.len() as u64);
    assert(wire.subrange(8, 8 + dlen) =~= digest);
    assert(wire.subrange(8 + dlen, 16 + dlen) =~= u64_le_bytes(file_size));
    lemma_u64_le_round_trip(file_size);
    assert(wire.subrange(16 + dlen, 24 + dlen) =~= u64_le_bytes(chunk_size));
    lemma_u64_le_round_trip(chunk_size);
}

/// A header that declares a digest length or a file size above the
/// decoder's ceiling is rejected with the matching error — before any
/// allocation of the declared size, since the decision needs only the
/// fixed-width fields.
pub proof fn lemma_oversized_header_rejected(
    digest: Seq<u8>,
    file_size: u64,
    chunk_size: u64,
    rest: Seq<u8>,
    limits: Limits,
)
    requires
        digest.len() <= u64::MAX,
    ensures
        digest.len() > limits.max_digest_length ==> spec_decode_header(
            spec_header(digest, file_size, chunk_size) + rest,
            limits,
        ) == Err::<(Seq<u8>, u64, u64), TransferError>(TransferError::DigestLengthTooLarge),
        digest.len() <= limits.max_digest_length && file_size > limits.max_file_size
            ==> spec_decode_header(spec_header(digest, file_size, chunk_size) + rest, limits)
            == Err::<(Seq<u8>, u64, u64), TransferError>(TransferError::FileSizeTooLarge),
{
    let dlen = digest.len() as int;
    let wire = spec_header(digest, file_size, chunk_size) + rest;
    assert(wire.subrange(0, 8) =~= u64_le_bytes(digest.len() as u64));
    lemma_u64_le_round_trip(digest.len() as u64);
    if digest.len() <= limits.max_digest_length {
        assert(wire.subrange(8 + dlen, 16 + dlen) =~= u64_le_bytes(file_size));
        lemma_u64_le_round_trip(file_size);
    }
}

/// An encoded header is exactly as long as `spec_header_size` says.
pub proof fn lemma_header_len(digest: Seq<u8>, file_size: u64, chunk_size: u64)
    ensures
        spec_header(digest, file_size, chunk_size).len() == spec_header_size(digest.len() as int),
{
}

/// The bytes after a prefix of a concatenation are the suffix.
pub proof fn lemma_suffix_after_prefix(prefix: Seq<u8>, suffix: Seq<u8>)
    ensures
        (prefix + suffix).subrange(
            prefix.len() as int,
            (prefix + suffix).len() as int,
        ) == suffix,
{
    assert((prefix + suffix).subrange(prefix.len() as int, (prefix + suffix).len() as int)
        =~= suffix);
}

/// Copy `bytes[start..end]` into a fresh buffer.
pub fn copy_range(bytes: &Vec<u8>, start: usize, end: usize) -> (r: Vec<u8>)
    requires
        start <= end <= bytes@.len(),
    ensures
        r@ == bytes@.subrange(start as int, end as int),
{
    let mut out: Vec<u8> = Vec::new();
    let mut i: usize = start;
    while i < end
        invariant
            start <= i <= end <= bytes@.len(),
            out@ == bytes@.subrange(start as int, i as int),
        decreases end - i,
    {
        out.push(bytes[i]);
        assert(out@ =~= bytes@.subrange(start as int, i as int + 1));
        i += 1;
    }
    out
}

/// Encode a frame header for a digest and the two size fields.
pub fn encode_header(digest: &Vec<u8>, file_size: u64, chunk_size: u64) -> (r: Vec<u8>)
    ensures
        r@ == spec_header(digest@, file_size, chunk_size),
        r@.len() == spec_header_size(digest@.len() as int),
{
    let mut out: Vec<u8> = Vec::new();
    encode_u64_le(digest.len() as u64, &mut out);
    let mut i: usize = 0;
    while i < digest.len()
        invariant
            i <= digest@.len(),
            out@ == u64_le_bytes(digest@.len() as u64) + digest@.subrange(0, i as int),
        decreases digest@.len() - i,
    {
        out.push(digest[i]);
        assert(out@ =~= u64_le_bytes(digest@.len() as u64) + digest@.subrange(0, i as int + 1));
        i += 1;
    }
    assert(digest@.subrange(0, digest@.len() as int) =~= digest@);
    encode_u64_le(file_size, &mut out);
    encode_u64_le(chunk_size, &mut out);
    assert(out@ =~= spec_header(digest@, file_size, chunk_size));
    out
}

/// Decode a frame header from the front of `bytes`, holding the
/// declared digest length and file size to the configured ceilings
/// before any allocation of those sizes. On success the second value
/// is the number of bytes the header occupied.
pub fn decode_header(bytes: &Vec<u8>, limits: &Limits) -> (r: Result<
    (Header, usize),
    TransferError,
>)
    ensures
        match spec_decode_header(bytes@, *limits) {
            Ok((digest, file_size, chunk_size)) => r matches Ok((header, consumed))
                && header.digest@ == digest && header.file_size == file_size
                && header.chunk_size == chunk_size && consumed == spec_header_size(
                digest.len() as int,
            ),
            Err(e) => r matches Err(actual) && actual == e,
        },
{
    if bytes.len() < 8 {
        return Err(TransferError::TruncatedHeader);
    }
    let digest_len = decode_u64_le_at(bytes, 0);
    if digest_len > limits.max_digest_length {
        return Err(TransferError::DigestLengthTooLarge);
    }
    if bytes.len() < 24 || ((bytes.len() - 24) as u64) < digest_len {
        return Err(TransferError::TruncatedHeader);
    }
    let digest_len_us = digest_len as usize;
    let digest = copy_range(bytes, 8, 8 + digest_len_us);
    let file_size = decode_u64_le_at(bytes, 8 + digest_len_us);
    if file_size > limits.max_file_size {
        return Err(TransferError::FileSizeTooLarge);
    }
    let chunk_size = decode_u64_le_at(bytes, 16 + digest_len_us);
    Ok((Header { digest, file_size, chunk_size }, 24 + digest_len_us))
}

} // verus!
