//! A random-access byte source: a cursor over the byte ranges that have been
//! fetched so far.

use vstd::prelude::*;
use vstd::slice::slice_subrange;
use vstd::slice::slice_to_vec;

verus! {

/// Where a seek goes: to an absolute position, or relative to the end or to
/// the cursor.
#[derive(Clone, Copy, Debug, PartialEq, Eq, Structural)]
pub enum SeekFrom {
    Start(u64),
    End(i64),
    Current(i64),
}

/// A byte range that a source needs before a read can be answered.
#[derive(Clone, Copy, Debug, PartialEq, Eq, Structural)]
pub struct ReadRequest {
    pub offset: u64,
    pub len: u64,
}

/// Why a seek or a read did not succeed.
#[derive(Clone, Copy, Debug, PartialEq, Eq, Structural)]
pub enum SourceError {
    /// The range is not resident. Nothing failed: once the range has been
    /// supplied, the same call goes through.
    Missing(ReadRequest),
    /// The operation needs the total length, and the source has none.
    UnknownLength,
    /// The seek would land before the start or beyond what 64 bits address.
    InvalidSeek,
    /// The read would run past the end of the source.
    UnexpectedEof,
    /// The bytes handed over are not as many as were asked for.
    LengthMismatch,
    /// The file or the network did not deliver the bytes. Fetching is the
    /// caller's part: this crate never returns this error, and holds it so
    /// that one type covers every way in which a source can fail.
    Failed,
}

/// A resident range, as a mathematical value.
pub struct ChunkView {
    pub offset: int,
    pub data: Seq<u8>,
}

impl ChunkView {
    /// Whether the chunk holds all of `[offset, offset + n)`.
    pub open spec fn covers(self, offset: int, n: int) -> bool {
        self.offset <= offset && offset + n <= self.offset + self.data.len()
    }

    /// The bytes of `[offset, offset + n)`, for a chunk that covers them.
    pub open spec fn slice(self, offset: int, n: int) -> Seq<u8> {
        self.data.subrange(offset - self.offset, offset - self.offset + n)
    }
}

/// The bytes of `[offset, offset + n)` as the earliest chunk that covers the
/// range holds them, or `None` where no chunk covers it.
pub open spec fn resident(chunks: Seq<ChunkView>, offset: int, n: int) -> Option<Seq<u8>>
    decreases chunks.len(),
{
    if chunks.len() == 0 {
        None
    } else if chunks[0].covers(offset, n) {
        Some(chunks[0].slice(offset, n))
    } else {
        resident(chunks.drop_first(), offset, n)
    }
}

/// Where a seek to `to` lands, from position `pos` in a source of length `len`.
pub open spec fn seek_target(pos: int, len: Option<int>, to: SeekFrom) -> Result<int, SourceError> {
    match to {
        SeekFrom::Start(p) => Ok(p as int),
        SeekFrom::Current(d) => if 0 <= pos + d <= u64::MAX {
            Ok(pos + d)
        } else {
            Err(SourceError::InvalidSeek)
        },
        SeekFrom::End(d) => match len {
            None => Err(SourceError::UnknownLength),
            Some(l) => if 0 <= l + d <= u64::MAX {
                Ok(l + d)
            } else {
                Err(SourceError::InvalidSeek)
            },
        },
    }
}

/// What a read of `n` bytes at `offset` gives: nothing for `n == 0`, an
/// error where the range runs past the end, else the resident bytes, or the
/// request for them.
pub open spec fn read_at(chunks: Seq<ChunkView>, len: Option<int>, offset: int, n: int) -> Result<
    Seq<u8>,
    SourceError,
> {
    if n == 0 {
        Ok(Seq::empty())
    } else if offset + n > u64::MAX || (len matches Some(l) && offset + n > l) {
        Err(SourceError::UnexpectedEof)
    } else {
        match resident(chunks, offset, n) {
            Some(bytes) => Ok(bytes),
            None => Err(SourceError::Missing(ReadRequest { offset: offset as u64, len: n as u64 })),
        }
    }
}

/// A source as a mathematical value: the resident chunks, oldest first, the
/// total length where it is known, and the cursor.
pub struct SourceView {
    pub chunks: Seq<ChunkView>,
    pub len: Option<int>,
    pub pos: int,
}

impl SourceView {
    /// The same source with the cursor at `pos`.
    pub open spec fn at(self, pos: int) -> SourceView {
        SourceView { chunks: self.chunks, len: self.len, pos }
    }

    /// Whether `other` holds the same bytes and length; the cursors may differ.
    pub open spec fn same_data(self, other: SourceView) -> bool {
        self.chunks == other.chunks && self.len == other.len
    }

    /// The outcome of a seek.
    pub open spec fn seek_result(self, to: SeekFrom) -> Result<int, SourceError> {
        seek_target(self.pos, self.len, to)
    }

    /// The source after a seek: the cursor moves only when the seek succeeds.
    pub open spec fn after_seek(self, to: SeekFrom) -> SourceView {
        match self.seek_result(to) {
            Ok(p) => self.at(p),
            Err(_) => self,
        }
    }

    /// The outcome of reading `n` bytes at the cursor.
    pub open spec fn read_result(self, n: int) -> Result<Seq<u8>, SourceError> {
        read_at(self.chunks, self.len, self.pos, n)
    }

    /// The source after reading `n` bytes: the cursor advances by `n` when
    /// the read succeeds, and stays otherwise.
    pub open spec fn after_read(self, n: int) -> SourceView {
        match self.read_result(n) {
            Ok(_) => self.at(self.pos + n),
            Err(_) => self,
        }
    }

    /// Whether all of `content` is resident, in the first chunk, and the
    /// length is that of `content`.
    pub open spec fn holds(self, content: Seq<u8>) -> bool {
        &&& self.len == Some(content.len() as int)
        &&& self.chunks.len() > 0
        &&& self.chunks[0] == (ChunkView { offset: 0, data: content })
    }

    /// Whether the source is faithful to `content`: it holds all of it, or
    /// every chunk holds what the content has at its place.
    pub open spec fn faithful_to(self, content: Seq<u8>) -> bool {
        self.holds(content) || self.serves(content)
    }

    /// Whether every chunk holds the bytes that `content` has at its place,
    /// and the length is that of `content`.
    pub open spec fn serves(self, content: Seq<u8>) -> bool {
        &&& self.len == Some(content.len() as int)
        &&& forall|i: int|
            0 <= i < self.chunks.len() ==> {
                &&& 0 <= (#[trigger] self.chunks[i]).offset
                &&& self.chunks[i].offset + self.chunks[i].data.len() <= content.len()
                &&& self.chunks[i].data == content.subrange(
                    self.chunks[i].offset,
                    self.chunks[i].offset + self.chunks[i].data.len(),
                )
            }
    }
}

/// What a read of `n` bytes at `offset` gives where all of `content` is at
/// hand: the bytes of the range, or an error where the range runs past the
/// end.
pub open spec fn read_content(content: Seq<u8>, offset: int, n: int) -> Result<Seq<u8>, SourceError> {
    if n == 0 {
        Ok(Seq::empty())
    } else if offset + n > content.len() {
        Err(SourceError::UnexpectedEof)
    } else {
        Ok(content.subrange(offset, offset + n))
    }
}

/// A source that is faithful to `content` never answers a read wrongly: it
/// gives what the content holds, or, where it does not hold all of the
/// content, asks for the range.
pub proof fn lemma_read_faithful(source: SourceView, content: Seq<u8>, offset: int, n: int)
    requires
        source.faithful_to(content),
        content.len() <= u64::MAX,
        0 <= offset,
        0 <= n,
    ensures
        read_at(source.chunks, source.len, offset, n) == read_content(content, offset, n) || (
        !source.holds(content) && read_at(source.chunks, source.len, offset, n) == Err::<
            Seq<u8>,
            SourceError,
        >(SourceError::Missing(ReadRequest { offset: offset as u64, len: n as u64 }))),
{
    if n > 0 && offset + n <= content.len() && !source.holds(content) {
        lemma_resident_serves(source.chunks, content, offset, n);
    }
}

/// Resident bytes of chunks that all agree with `content` are the bytes of
/// `content`.
pub proof fn lemma_resident_serves(chunks: Seq<ChunkView>, content: Seq<u8>, offset: int, n: int)
    requires
        forall|i: int|
            0 <= i < chunks.len() ==> {
                &&& 0 <= (#[trigger] chunks[i]).offset
                &&& chunks[i].offset + chunks[i].data.len() <= content.len()
                &&& chunks[i].data == content.subrange(
                    chunks[i].offset,
                    chunks[i].offset + chunks[i].data.len(),
                )
            },
        0 <= n,
    ensures
        resident(chunks, offset, n) matches Some(bytes) ==> {
            &&& offset + n <= content.len()
            &&& bytes == content.subrange(offset, offset + n)
        },
    decreases chunks.len(),
{
    if chunks.len() > 0 && !chunks[0].covers(offset, n) {
        let rest = chunks.drop_first();
        assert(forall|i: int| 0 <= i < rest.len() ==> #[trigger] rest[i] == chunks[i + 1]);
        lemma_resident_serves(rest, content, offset, n);
    }
}

/// Supplying the bytes that `content` has in a range keeps a source
/// faithful to `content`.
pub proof fn lemma_supply_faithful(source: SourceView, content: Seq<u8>, request: ReadRequest)
    requires
        source.faithful_to(content),
        request.offset + request.len <= content.len(),
    ensures
        (SourceView {
            chunks: source.chunks.push(
                ChunkView {
                    offset: request.offset as int,
                    data: content.subrange(request.offset as int, request.offset + request.len),
                },
            ),
            len: source.len,
            pos: source.pos,
        }).faithful_to(content),
{
    let chunk = ChunkView {
        offset: request.offset as int,
        data: content.subrange(request.offset as int, request.offset + request.len),
    };
    let supplied = source.chunks.push(chunk);
    assert(forall|i: int|
        0 <= i < source.chunks.len() ==> #[trigger] supplied[i] == source.chunks[i]);
}

/// What is resident once a chunk has been added: what was resident before,
/// and what the new chunk covers of the rest.
pub proof fn lemma_resident_push(chunks: Seq<ChunkView>, chunk: ChunkView, offset: int, n: int)
    ensures
        resident(chunks.push(chunk), offset, n) == match resident(chunks, offset, n) {
            Some(bytes) => Some(bytes),
            None => if chunk.covers(offset, n) {
                Some(chunk.slice(offset, n))
            } else {
                None
            },
        },
    decreases chunks.len(),
{
    let all = chunks.push(chunk);
    if chunks.len() == 0 {
        assert(resident(all.drop_first(), offset, n) is None);
    } else {
        assert(all.drop_first() =~= chunks.drop_first().push(chunk));
        lemma_resident_push(chunks.drop_first(), chunk, offset, n);
    }
}

/// Supplying a range never changes an answer that was already given, and
/// turns the request for that range into its answer: the read that asked
/// goes through when it is made again.
pub proof fn lemma_supply_then_retry(source: SourceView, request: ReadRequest, data: Seq<u8>, offset: int, n: int)
    requires
        data.len() == request.len,
    ensures
        ({
            let supplied = source.chunks.push(ChunkView { offset: request.offset as int, data });
            &&& read_at(source.chunks, source.len, offset, n) matches Ok(bytes) ==> read_at(
                supplied,
                source.len,
                offset,
                n,
            ) == Ok::<Seq<u8>, SourceError>(bytes)
            &&& read_at(source.chunks, source.len, offset, n) == Err::<Seq<u8>, SourceError>(
                SourceError::Missing(request),
            ) && offset == request.offset && n == request.len ==> read_at(
                supplied,
                source.len,
                offset,
                n,
            ) == Ok::<Seq<u8>, SourceError>(data)
        }),
{
    let chunk = ChunkView { offset: request.offset as int, data };
    lemma_resident_push(source.chunks, chunk, offset, n);
    if offset == request.offset && n == request.len {
        assert(chunk.slice(offset, n) =~= data);
    }
}

/// A fetched byte range.
struct Chunk {
    offset: u64,
    data: Vec<u8>,
}

impl Chunk {
    #[verifier::type_invariant]
    spec fn in_range(self) -> bool {
        self.offset + self.data@.len() <= u64::MAX
    }

    spec fn model(self) -> ChunkView {
        ChunkView { offset: self.offset as int, data: self.data@ }
    }
}

/// A cursor over the byte ranges fetched so far from a file, a mapped buffer
/// or a remote resource.
pub struct RandomAccessSource {
    chunks: Vec<Chunk>,
    len: Option<u64>,
    pos: u64,
}

impl View for RandomAccessSource {
    type V = SourceView;

    closed spec fn view(&self) -> SourceView {
        SourceView {
            chunks: Seq::new(self.chunks@.len(), |i: int| self.chunks@[i].model()),
            len: match self.len {
                Some(l) => Some(l as int),
                None => None,
            },
            pos: self.pos as int,
        }
    }
}

impl RandomAccessSource {
    /// A source with nothing resident yet, the cursor at 0.
    pub fn new(len: Option<u64>) -> (source: RandomAccessSource)
        ensures
            source@.chunks.len() == 0,
            source@.pos == 0,
            match len {
                Some(l) => source@.len == Some(l as int),
                None => source@.len.is_none(),
            },
    {
        RandomAccessSource { chunks: Vec::new(), len, pos: 0 }
    }

    /// A source that holds all of `data`, the cursor at 0.
    pub fn from_bytes(data: Vec<u8>) -> (source: RandomAccessSource)
        ensures
            source@.chunks == seq![ChunkView { offset: 0, data: data@ }],
            source@.len == Some(data@.len() as int),
            source@.pos == 0,
            source@.serves(data@),
            source@.holds(data@),
    {
        let len: u64 = data.len() as u64;
        let ghost bytes = data@;
        let mut chunks: Vec<Chunk> = Vec::new();
        chunks.push(Chunk { offset: 0, data });
        let source = RandomAccessSource { chunks, len: Some(len), pos: 0 };
        assert(bytes.subrange(0, bytes.len() as int) =~= bytes);
        source
    }

    /// The cursor.
    pub fn stream_position(&self) -> (pos: u64)
        ensures
            pos == self@.pos,
    {
        self.pos
    }

    /// The total length, where it is known.
    pub fn total_len(&self) -> (len: Option<u64>)
        ensures
            match len {
                Some(l) => self@.len == Some(l as int),
                None => self@.len.is_none(),
            },
    {
        self.len
    }

    /// Moves the cursor. A seek relative to the end needs the total length.
    /// The target may lie beyond the end: only a later read fails there.
    pub fn seek(&mut self, to: SeekFrom) -> (result: Result<u64, SourceError>)
        ensures
            final(self)@ == old(self)@.after_seek(to),
            match result {
                Ok(p) => old(self)@.seek_result(to) == Ok::<int, SourceError>(p as int),
                Err(e) => old(self)@.seek_result(to) == Err::<int, SourceError>(e),
            },
    {
        let target: i128 = match to {
            SeekFrom::Start(p) => p as i128,
            SeekFrom::Current(d) => self.pos as i128 + d as i128,
            SeekFrom::End(d) => match self.len {
                None => {
                    return Err(SourceError::UnknownLength);
                },
                Some(l) => l as i128 + d as i128,
            },
        };
        if target < 0 || target > u64::MAX as i128 {
            return Err(SourceError::InvalidSeek);
        }
        self.pos = target as u64;
        Ok(self.pos)
    }

    /// The total length, found as a stream finds it: by a seek to the end
    /// and back to where the cursor was.
    pub fn stream_len(&mut self) -> (result: Result<u64, SourceError>)
        ensures
            final(self)@ == old(self)@,
            match result {
                Ok(l) => old(self)@.len == Some(l as int),
                Err(e) => e == SourceError::UnknownLength && old(self)@.len.is_none(),
            },
    {
        let here: u64 = self.stream_position();
        let end: u64 = self.seek(SeekFrom::End(0))?;
        let _ = self.seek(SeekFrom::Start(here))?;
        Ok(end)
    }

    /// Reads exactly `n` bytes at the cursor and advances it by `n`. Where
    /// the range is not resident the cursor stays, and the error names the
    /// range to supply.
    pub fn read_exact(&mut self, n: u64) -> (result: Result<Vec<u8>, SourceError>)
        ensures
            final(self)@ == old(self)@.after_read(n as int),
            match result {
                Ok(bytes) => bytes@.len() == n && old(self)@.read_result(n as int) == Ok::<
                    Seq<u8>,
                    SourceError,
                >(bytes@),
                Err(e) => old(self)@.read_result(n as int) == Err::<Seq<u8>, SourceError>(e),
            },
    {
        if n == 0 {
            return Ok(Vec::new());
        }
        let end: u64 = match self.pos.checked_add(n) {
            Some(end) => end,
            None => {
                return Err(SourceError::UnexpectedEof);
            },
        };
        if let Some(l) = self.len {
            if end > l {
                return Err(SourceError::UnexpectedEof);
            }
        }
        let ghost before = self@;
        let ghost all = before.chunks;
        assert(all.subrange(0, all.len() as int) =~= all);
        let mut i: usize = 0;
        while i < self.chunks.len()
            invariant
                0 <= i <= self.chunks@.len(),
                self@ == before,
                before == old(self)@,
                n > 0,
                end == before.pos + n,
                before.len matches Some(l) ==> end <= l,
                all == before.chunks,
                resident(all, before.pos, n as int) == resident(
                    all.subrange(i as int, all.len() as int),
                    before.pos,
                    n as int,
                ),
            decreases self.chunks@.len() - i,
        {
            let chunk = &self.chunks[i];
            proof {
                use_type_invariant(chunk);
                let rest = all.subrange(i as int, all.len() as int);
                assert(rest.drop_first() =~= all.subrange(i as int + 1, all.len() as int));
            }
            if chunk.offset <= self.pos && end - chunk.offset <= chunk.data.len() as u64 {
                let from: usize = (self.pos - chunk.offset) as usize;
                let bytes = slice_to_vec(
                    slice_subrange(chunk.data.as_slice(), from, from + n as usize),
                );
                self.pos = end;
                return Ok(bytes);
            }
            i = i + 1;
        }
        Err(SourceError::Missing(ReadRequest { offset: self.pos, len: n }))
    }

    /// Makes the bytes of `request` resident. `data` must be exactly as long
    /// as the request asks, and the range must lie within what 64 bits
    /// address; else the source stays as it was.
    pub fn supply(&mut self, request: ReadRequest, data: Vec<u8>) -> (result: Result<(), SourceError>)
        ensures
            match result {
                Ok(_) => {
                    &&& data@.len() == request.len
                    &&& request.offset + request.len <= u64::MAX
                    &&& final(self)@ == (SourceView {
                        chunks: old(self)@.chunks.push(
                            ChunkView { offset: request.offset as int, data: data@ },
                        ),
                        len: old(self)@.len,
                        pos: old(self)@.pos,
                    })
                },
                Err(e) => {
                    &&& final(self)@ == old(self)@
                    &&& if data@.len() != request.len {
                        e == SourceError::LengthMismatch
                    } else {
                        e == SourceError::InvalidSeek && request.offset + request.len > u64::MAX
                    }
                },
            },
    {
        if data.len() as u64 != request.len {
            return Err(SourceError::LengthMismatch);
        }
        if request.offset.checked_add(request.len).is_none() {
            return Err(SourceError::InvalidSeek);
        }
        let ghost before = self@;
        self.chunks.push(Chunk { offset: request.offset, data });
        assert(self@.chunks =~= before.chunks.push(
            ChunkView { offset: request.offset as int, data: data@ },
        ));
        Ok(())
    }
}

} // verus!
