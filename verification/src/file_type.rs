//! The closed set of output-artifact kinds an emitter can render, and the
//! mapping from a descriptor's textual kind to it.

use vstd::prelude::*;
use crate::text::str_eq;

verus! {

/// One kind of output artifact.
#[derive(Debug, Clone, Copy, PartialEq, Eq, Structural)]
pub enum FileType {
    Protocol,
    Header,
    Ffi,
    Rust,
    Encoder,
    Decoder,
}

/// The kind a descriptor's `file_type` string names, if any.
pub open spec fn spec_file_type(s: Seq<char>) -> Option<FileType> {
    if s == "protocol"@ {
        Some(FileType::Protocol)
    } else if s == "header"@ {
        Some(FileType::Header)
    } else if s == "ffi"@ {
        Some(FileType::Ffi)
    } else if s == "Rust"@ {
        Some(FileType::Rust)
    } else if s == "encoder"@ {
        Some(FileType::Encoder)
    } else if s == "decoder"@ {
        Some(FileType::Decoder)
    } else {
        None
    }
}

impl FileType {
    /// Maps a descriptor's textual kind to the artifact kind it names;
    /// anything unrecognized is `None` and the descriptor is skipped.
    pub fn from_str(s: &str) -> (r: Option<FileType>)
        ensures
            r == spec_file_type(s@),
    {
        if str_eq(s, "protocol") {
            Some(FileType::Protocol)
        } else if str_eq(s, "header") {
            Some(FileType::Header)
        } else if str_eq(s, "ffi") {
            Some(FileType::Ffi)
        } else if str_eq(s, "Rust") {
            Some(FileType::Rust)
        } else if str_eq(s, "encoder") {
            Some(FileType::Encoder)
        } else if str_eq(s, "decoder") {
            Some(FileType::Decoder)
        } else {
            None
        }
    }
}

} // verus!
