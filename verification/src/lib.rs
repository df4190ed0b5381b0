//! Codecs for a fixed-capacity, inline, UTF-8-oriented string buffer.
//!
//! A [`FixedStr`](fixed::FixedStr) holds exactly `N` bytes of UTF-8 text,
//! truncated or zero-padded to fit. Four independent codecs move such a
//! value across serialization boundaries:
//!
//! * a fixed-width binary codec that reads and writes exactly `N` raw bytes
//!   with no framing ([`binary`]);
//! * an archival codec whose archived form is byte-identical to the live
//!   value, with a validation step that accepts every length-`N` pattern
//!   ([`archive`]);
//! * a text codec that serializes the buffer as validated UTF-8 and
//!   deserializes by truncating oversized input at a character boundary
//!   ([`text`]);
//! * a strict raw-byte codec that rejects input whose length is not exactly
//!   `N` ([`bytes`]).

pub mod archive;
pub mod binary;
pub mod bytes;
pub mod fixed;
pub mod text;
pub mod utf8;

pub use fixed::FixedStr;
pub use fixed::FixedStrError;
