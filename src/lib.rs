//! Decryption and re-encryption of LDN beacon action frames.
//!
//! `keys` rebuilds a frame key from three secret key sources and per-frame data;
//! `ldn_frame` parses frames, keeps their checksum and applies the stream cipher;
//! `crypto` holds the AES, SHA-256 and hex primitives they rest on; `header`
//! re-encodes a 32-byte header layout; `bytes` has shared byte helpers.
pub mod bytes;
pub mod crypto;
pub mod header;
pub mod keys;
pub mod ldn_frame;
