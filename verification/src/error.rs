//! What can end a dump.

use crate::source::ReadRequest;
use crate::source::SourceError;
use crate::source::SourceView;
use vstd::prelude::*;

verus! {

/// Bytes that are not what the format requires.
#[derive(Clone, Copy, Debug, PartialEq, Eq, Structural)]
pub enum FormatError {
    /// The end-of-central-directory signature is nowhere in the trailing
    /// window: the input is not a ZIP container.
    EocdNotFound,
    /// A record does not begin with its signature.
    BadSignature,
    /// A record runs past the end of the bytes that hold it.
    Truncated,
    /// The payload does not begin with its magic.
    BadMagic,
    /// A file name is not UTF-8.
    InvalidFilename,
}

/// What the dump requires of the `payload.bin` entry, and the entry lacks.
#[derive(Clone, Copy, Debug, PartialEq, Eq, Structural)]
pub enum PreconditionError {
    /// The entry is not stored: its compression method is not 0.
    Compressed,
    /// The compressed and uncompressed sizes differ.
    SizeMismatch,
}

/// Why a dump did not produce a manifest.
#[derive(Clone, Copy, Debug, PartialEq, Eq, Structural)]
pub enum DumpError {
    /// The bytes are not a ZIP container, or not a payload.
    Format(FormatError),
    /// The payload is of a version other than the supported one; the value
    /// is the version found.
    VersionMismatch(u64),
    /// The manifest bytes do not decode. Decoding is the caller's part: this
    /// crate never returns this error, and holds it so that one type covers
    /// a whole dump.
    Decode,
    /// A seek or a read failed, or needs bytes that are not resident yet.
    Io(SourceError),
    /// The container has no entry of the name looked for.
    NotFound,
    /// The entry cannot be read in place.
    Precondition(PreconditionError),
}

impl DumpError {
    /// The range to fetch and supply before the same call is made again, if
    /// that is all that stood in the way.
    pub open spec fn missing(self) -> Option<ReadRequest> {
        match self {
            DumpError::Io(SourceError::Missing(request)) => Some(request),
            _ => None,
        }
    }

    /// The range to fetch and supply before the same call is made again, if
    /// that is all that stood in the way.
    pub fn request(&self) -> (request: Option<ReadRequest>)
        ensures
            request == self.missing(),
    {
        match self {
            DumpError::Io(SourceError::Missing(request)) => Some(*request),
            _ => None,
        }
    }
}

/// Whether `actual`, the outcome of an operation on `source`, is the right
/// answer for `content`: it is `expected`, or, where the source does not hold
/// all of the content, it asks for bytes.
pub open spec fn answers<T>(
    source: SourceView,
    content: Seq<u8>,
    actual: Result<T, DumpError>,
    expected: Result<T, DumpError>,
) -> bool {
    actual == expected || (!source.holds(content) && (actual matches Err(e) && e.missing().is_some()))
}

} // verus!
