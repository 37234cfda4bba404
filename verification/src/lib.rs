//! Decoder for the metadata block chain of a FLAC audio container.
//!
//! A FLAC file opens with a fixed 4-byte magic marker, followed by a chain of
//! self-describing metadata blocks. Each block starts with a 4-byte header
//! giving a last-block flag, a 7-bit block type code and a 24-bit big-endian
//! payload length. The mandatory STREAMINFO block packs its fields at
//! irregular bit widths into a 34-byte payload; all other block types are
//! treated as opaque spans to be skipped.
//!
//! Everything here works on in-memory byte spans: reading bytes from a file
//! and printing decoded structures are left to callers.

pub mod block;
pub mod parser;
pub mod util;
