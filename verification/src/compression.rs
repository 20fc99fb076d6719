//! The compression methods that a ZIP container can name.

use vstd::prelude::*;

verus! {

/// How the data of an entry is packed.
#[derive(Copy, Clone, PartialEq, Eq, Debug, Structural)]
pub enum CompressionMethod {
    /// Store the file as is
    Stored,
    /// Compress the file using Deflate
    Deflated,
    /// Compress the file using BZIP2
    Bzip2,
    /// Unsupported compression method
    Unsupported(u16),
}

impl CompressionMethod {
    pub const STORE: Self = CompressionMethod::Stored;

    pub const DEFLATE: Self = CompressionMethod::Deflated;

    pub const BZIP2: Self = CompressionMethod::Bzip2;

    /// The method that a container names by `code`.
    pub open spec fn of_code(code: u16) -> CompressionMethod {
        if code == 0 {
            CompressionMethod::Stored
        } else if code == 8 {
            CompressionMethod::Deflated
        } else if code == 12 {
            CompressionMethod::Bzip2
        } else {
            CompressionMethod::Unsupported(code)
        }
    }

    /// The number by which a container names the method.
    pub open spec fn code(self) -> u16 {
        match self {
            CompressionMethod::Stored => 0,
            CompressionMethod::Deflated => 8,
            CompressionMethod::Bzip2 => 12,
            CompressionMethod::Unsupported(code) => code,
        }
    }

    /// The method that a container names by `code`.
    pub fn from_u16(code: u16) -> (method: CompressionMethod)
        ensures
            method == CompressionMethod::of_code(code),
            method.code() == code,
    {
        if code == 0 {
            CompressionMethod::Stored
        } else if code == 8 {
            CompressionMethod::Deflated
        } else if code == 12 {
            CompressionMethod::Bzip2
        } else {
            CompressionMethod::Unsupported(code)
        }
    }

    /// The number by which a container names the method.
    pub fn to_u16(self) -> (code: u16)
        ensures
            code == self.code(),
    {
        match self {
            CompressionMethod::Stored => 0,
            CompressionMethod::Deflated => 8,
            CompressionMethod::Bzip2 => 12,
            CompressionMethod::Unsupported(code) => code,
        }
    }
}

} // verus!
