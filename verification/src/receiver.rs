//! The receiver's engine: decode the header, hold the untrusted size
//! fields to the configured ceilings before any allocation, take the
//! payload, recompute its digest and compare. A digest mismatch is a
//! reported outcome, never an error: once a complete frame is read the
//! reception succeeds. The caller owns the socket and feeds bytes in.

use vstd::prelude::*;

use crate::codec::{decode_header, spec_decode_header, spec_header_size, Limits};
use crate::digest::{md5_of, verify_payload};
use crate::errors::TransferError;

verus! {

/// The verification verdict over a received frame.
#[derive(Clone, Copy, Debug, PartialEq, Eq, Structural)]
pub enum VerifyOutcome {
    /// The recomputed digest equals the digest the sender declared.
    DigestMatch,
    /// The digests differ: the payload is not what the sender hashed.
    DigestMismatch,
}

/// A completely received frame and its verification verdict.
pub struct Reception {
    /// The digest the sender declared in the header.
    pub digest: Vec<u8>,
    /// The payload, byte for byte as read from the stream.
    pub payload: Vec<u8>,
    /// The payload length the header declared.
    pub file_size: u64,
    /// The sender's write granularity; it does not affect reception.
    pub chunk_size: u64,
    /// Whether the recomputed digest matched the declared one.
    pub outcome: VerifyOutcome,
}

/// Hold a declared digest length to the ceiling before allocating a
/// buffer of that size.
pub fn check_digest_length(digest_length: u64, limits: &Limits) -> (r: Result<
    (),
    TransferError,
>)
    ensures
        digest_length <= limits.max_digest_length ==> r == Ok::<(), TransferError>(()),
        digest_length > limits.max_digest_length ==> r == Err::<(), TransferError>(
            TransferError::DigestLengthTooLarge,
        ),
{
    if digest_length > limits.max_digest_length {
        Err(TransferError::DigestLengthTooLarge)
    } else {
        Ok(())
    }
}

/// Hold a declared file size to the ceiling before allocating a
/// buffer of that size.
pub fn check_file_size(file_size: u64, limits: &Limits) -> (r: Result<(), TransferError>)
    ensures
        file_size <= limits.max_file_size ==> r == Ok::<(), TransferError>(()),
        file_size > limits.max_file_size ==> r == Err::<(), TransferError>(
            TransferError::FileSizeTooLarge,
        ),
{
    if file_size > limits.max_file_size {
        Err(TransferError::FileSizeTooLarge)
    } else {
        Ok(())
    }
}

/// Receive one frame from the bytes a single connection delivered:
/// decode and bound the header, take exactly the declared payload,
/// recompute the digest and compare it with the declared one. Every
/// complete frame yields a reception — a mismatch is recorded in the
/// outcome, not raised as an error.
pub fn receive_frame(bytes: &Vec<u8>, limits: &Limits) -> (r: Result<Reception, TransferError>)
    ensures
        match spec_decode_header(bytes@, *limits) {
            Err(e) => r matches Err(actual) && actual == e,
            Ok((digest, file_size, chunk_size)) => {
                let header_size = spec_header_size(digest.len() as int);
                if bytes@.len() < header_size + file_size {
                    r matches Err(actual) && actual == TransferError::TruncatedPayload
                } else {
                    r matches Ok(rec) && rec.digest@ == digest && rec.payload@ == bytes@.subrange(
                        header_size,
                        header_size + file_size,
                    ) && rec.file_size == file_size && rec.chunk_size == chunk_size && (rec.outcome
                        == VerifyOutcome::DigestMatch <==> digest == md5_of(rec.payload@))
                }
            },
        },
{
    let (header, consumed) = match decode_header(bytes, limits) {
        Ok(decoded) => decoded,
        Err(e) => {
            return Err(e);
        },
    };
    if ((bytes.len() - consumed) as u64) < header.file_size {
        return Err(TransferError::TruncatedPayload);
    }
    let payload_len = header.file_size as usize;
    let payload = crate::codec::copy_range(bytes, consumed, consumed + payload_len);
    let outcome = if verify_payload(&header.digest, &payload) {
        VerifyOutcome::DigestMatch
    } else {
        VerifyOutcome::DigestMismatch
    };
    Ok(
        Reception {
            digest: header.digest,
            payload,
            file_size: header.file_size,
            chunk_size: header.chunk_size,
            outcome,
        },
    )
}

} // verus!
