//! The cursor of a resource that is read over HTTP, one range request per
//! read. The requests themselves are the caller's part: this module says
//! which range to ask for, and what follows from the answer.

use crate::source::seek_target;
use crate::source::SeekFrom;
use crate::source::SourceError;
use vstd::math::min;
use vstd::prelude::*;

verus! {

/// A range of bytes, both ends included, as a `Range` header names it.
#[derive(Clone, Copy, Debug, PartialEq, Eq, Structural)]
pub struct ByteRange {
    pub first: u64,
    pub last: u64,
}

impl ByteRange {
    /// How many bytes the range holds.
    pub open spec fn len(self) -> int {
        self.last - self.first + 1
    }
}

/// A remote resource: where it is, how long it is where that is known, and
/// the cursor.
#[derive(Debug)]
pub struct HttpFile {
    url: String,
    pos: u64,
    file_size: Option<u64>,
}

/// A remote resource as a mathematical value.
pub struct HttpFileView {
    pub url: Seq<char>,
    pub pos: int,
    pub file_size: Option<int>,
}

impl View for HttpFile {
    type V = HttpFileView;

    closed spec fn view(&self) -> HttpFileView {
        HttpFileView {
            url: self.url@,
            pos: self.pos as int,
            file_size: match self.file_size {
                Some(size) => Some(size as int),
                None => None,
            },
        }
    }
}

impl HttpFileView {
    /// The same resource with the cursor at `pos`.
    pub open spec fn at(self, pos: int) -> HttpFileView {
        HttpFileView { url: self.url, pos, file_size: self.file_size }
    }

    /// The range that a read of `n` bytes at the cursor asks for: from the
    /// cursor to the last of the `n` bytes, or to the last byte of the
    /// resource where that comes first. A read of no bytes asks for nothing.
    /// A read needs the length, and a cursor before the end.
    pub open spec fn read_range(self, n: int) -> Result<Option<ByteRange>, SourceError> {
        if n == 0 {
            Ok(None)
        } else {
            match self.file_size {
                None => Err(SourceError::UnknownLength),
                Some(size) => if self.pos >= size {
                    Err(SourceError::UnexpectedEof)
                } else {
                    Ok(
                        Some(
                            ByteRange {
                                first: self.pos as u64,
                                last: min(self.pos + n - 1, size - 1) as u64,
                            },
                        ),
                    )
                },
            }
        }
    }

    /// How many bytes a read of `n` bytes at the cursor takes in, given that
    /// the server answered with `received` bytes: as many as were asked for,
    /// which the answer must match exactly.
    pub open spec fn read_result(self, n: int, received: int) -> Result<int, SourceError> {
        match self.read_range(n) {
            Err(e) => Err(e),
            Ok(None) => Ok(0),
            Ok(Some(range)) => if received == range.len() {
                Ok(range.len())
            } else {
                Err(SourceError::LengthMismatch)
            },
        }
    }
}

impl HttpFile {
    /// The resource at `url`, the cursor at 0.
    pub fn new(url: String, file_size: Option<u64>) -> (file: HttpFile)
        ensures
            file@.url == url@,
            file@.pos == 0,
            match file_size {
                Some(size) => file@.file_size == Some(size as int),
                None => file@.file_size.is_none(),
            },
    {
        HttpFile { url, pos: 0, file_size }
    }

    /// Where the resource is.
    pub fn url(&self) -> (url: &String)
        ensures
            url@ == self@.url,
    {
        &self.url
    }

    /// The length of the resource, where it is known.
    pub fn file_size(&self) -> (size: Option<u64>)
        ensures
            match size {
                Some(size) => self@.file_size == Some(size as int),
                None => self@.file_size.is_none(),
            },
    {
        self.file_size
    }

    /// The cursor.
    pub fn position(&self) -> (pos: u64)
        ensures
            pos == self@.pos,
    {
        self.pos
    }

    /// Moves the cursor. A seek relative to the end needs the length. The
    /// cursor stays where the seek fails.
    pub fn seek(&mut self, to: SeekFrom) -> (result: Result<u64, SourceError>)
        ensures
            match result {
                Ok(pos) => {
                    &&& seek_target(old(self)@.pos, old(self)@.file_size, to) == Ok::<int, SourceError>(
                        pos as int,
                    )
                    &&& final(self)@ == old(self)@.at(pos as int)
                },
                Err(e) => {
                    &&& seek_target(old(self)@.pos, old(self)@.file_size, to) == Err::<int, SourceError>(e)
                    &&& final(self)@ == old(self)@
                },
            },
    {
        let target: i128 = match to {
            SeekFrom::Start(p) => p as i128,
            SeekFrom::Current(d) => self.pos as i128 + d as i128,
            SeekFrom::End(d) => match self.file_size {
                None => {
                    return Err(SourceError::UnknownLength);
                },
                Some(size) => size as i128 + d as i128,
            },
        };
        if target < 0 || target > u64::MAX as i128 {
            return Err(SourceError::InvalidSeek);
        }
        self.pos = target as u64;
        Ok(self.pos)
    }

    /// The one range to request for a read of `n` bytes at the cursor.
    pub fn read_range(&self, n: u64) -> (result: Result<Option<ByteRange>, SourceError>)
        ensures
            result == self@.read_range(n as int),
            result matches Ok(Some(range)) ==> {
                &&& range.first == self@.pos
                &&& range.first <= range.last
                &&& range.len() <= n
                &&& self@.file_size matches Some(size) && range.last < size
            },
    {
        if n == 0 {
            return Ok(None);
        }
        let size: u64 = match self.file_size {
            Some(size) => size,
            None => {
                return Err(SourceError::UnknownLength);
            },
        };
        if self.pos >= size {
            return Err(SourceError::UnexpectedEof);
        }
        let last: u64 = if n - 1 < size - 1 - self.pos {
            self.pos + (n - 1)
        } else {
            size - 1
        };
        Ok(Some(ByteRange { first: self.pos, last }))
    }

    /// Completes a read of `n` bytes at the cursor, for which the server sent
    /// `received` bytes. The server must have sent exactly the range that
    /// [`HttpFile::read_range`] gives; the cursor then advances by that
    /// many bytes, which the result counts. They are fewer than `n` where
    /// the range was cut at the end of the resource. Where the read fails the
    /// cursor stays.
    pub fn read(&mut self, n: u64, received: u64) -> (result: Result<u64, SourceError>)
        ensures
            match result {
                Ok(count) => {
                    &&& old(self)@.read_result(n as int, received as int) == Ok::<int, SourceError>(
                        count as int,
                    )
                    &&& final(self)@ == old(self)@.at(old(self)@.pos + count)
                    &&& count <= n
                    &&& count == 0 || count == received
                },
                Err(e) => {
                    &&& old(self)@.read_result(n as int, received as int) == Err::<int, SourceError>(e)
                    &&& final(self)@ == old(self)@
                },
            },
    {
        match self.read_range(n)? {
            None => Ok(0),
            Some(range) => {
                let count: u64 = range.last - range.first + 1;
                if received != count {
                    return Err(SourceError::LengthMismatch);
                }
                self.pos = self.pos + count;
                Ok(count)
            },
        }
    }
}

} // verus!
