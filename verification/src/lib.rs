//! A point-to-point file transfer library: a fixed little-endian wire
//! format framing one file per connection (digest length, digest,
//! file size, chunk size, payload), a chunk partitioner that bounds
//! each write, and digest-based integrity verification.

pub mod chunks;
pub mod codec;
pub mod digest;
pub mod errors;
pub mod receiver;
pub mod sender;
