//! Streaming body layer of a static file server.
//!
//! File content sitting behind a pluggable random-access capability is
//! turned into a single pull-based byte stream, honoring HTTP byte-range
//! semantics: a whole file, one contiguous range, several ranges encoded
//! as a multipart/byteranges message, or the concatenation of several
//! files. The `Body` dispatcher presents one uniform "next frame" contract
//! over all of these shapes.

pub mod body;
pub mod multifile;
pub mod multipart;
pub mod stream;
pub mod vfs;
