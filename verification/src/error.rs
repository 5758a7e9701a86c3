//! The failures that the library reports.

use vstd::prelude::*;

verus! {

/// The four families that every failure belongs to.
#[derive(Debug, Clone, Copy, PartialEq, Eq)]
pub enum ErrorKind {
    /// The input does not have the layout of the format.
    Format,
    /// The input has the layout, and a value in it is not acceptable.
    Validation,
    /// No chunk of the type that was asked for.
    NotFound,
    /// A payload that was asked for as text is not text.
    Encoding,
}

/// A failure, with what was found where it happened.
#[derive(Debug, Clone, Copy, PartialEq, Eq)]
pub enum Error {
    /// The input ends too early. Counted from the start of the signature or
    /// of the chunk that was being read, `needed` bytes had to be there and
    /// `available` were.
    Truncated { needed: u64, available: u64 },
    /// The first eight bytes are not the PNG signature.
    BadSignature,
    /// The checksum stored in a chunk is not the checksum of its type and data.
    CrcMismatch { stored: u32, computed: u32 },
    /// A chunk type's text is not four ASCII letters.
    BadChunkType,
    /// No chunk of the wanted type.
    ChunkNotFound,
    /// The payload is not valid UTF-8.
    InvalidUtf8,
}

impl Error {
    /// The family of this failure.
    pub open spec fn spec_kind(self) -> ErrorKind {
        match self {
            Error::Truncated { .. } => ErrorKind::Format,
            Error::BadSignature => ErrorKind::Format,
            Error::CrcMismatch { .. } => ErrorKind::Validation,
            Error::BadChunkType => ErrorKind::Validation,
            Error::ChunkNotFound => ErrorKind::NotFound,
            Error::InvalidUtf8 => ErrorKind::Encoding,
        }
    }

    /// The family of this failure.
    pub fn kind(&self) -> (kind: ErrorKind)
        ensures
            kind == self.spec_kind(),
    {
        match self {
            Error::Truncated { .. } => ErrorKind::Format,
            Error::BadSignature => ErrorKind::Format,
            Error::CrcMismatch { .. } => ErrorKind::Validation,
            Error::BadChunkType => ErrorKind::Validation,
            Error::ChunkNotFound => ErrorKind::NotFound,
            Error::InvalidUtf8 => ErrorKind::Encoding,
        }
    }

    /// The sentence that describes this failure.
    pub open spec fn spec_message(self) -> Seq<char> {
        match self {
            Error::Truncated { .. } => "input ends before the field does"@,
            Error::BadSignature => "not a PNG file: the signature is wrong"@,
            Error::CrcMismatch { .. } => "crc is not valid"@,
            Error::BadChunkType => "a chunk type is four ASCII letters"@,
            Error::ChunkNotFound => "no chunk of that type"@,
            Error::InvalidUtf8 => "the chunk's data is not valid UTF-8"@,
        }
    }

    /// The sentence that describes this failure.
    pub fn message(&self) -> (text: &'static str)
        ensures
            text@ == self.spec_message(),
    {
        match self {
            Error::Truncated { .. } => "input ends before the field does",
            Error::BadSignature => "not a PNG file: the signature is wrong",
            Error::CrcMismatch { .. } => "crc is not valid",
            Error::BadChunkType => "a chunk type is four ASCII letters",
            Error::ChunkNotFound => "no chunk of that type",
            Error::InvalidUtf8 => "the chunk's data is not valid UTF-8",
        }
    }
}

} // verus!
