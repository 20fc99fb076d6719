//! A minimal reader of ZIP containers: the end-of-central-directory record,
//! the central directory, and the entries with the offsets of their data.

use crate::endian::read_u16_le;
use crate::endian::read_u32_le;
use crate::endian::u16_le;
use crate::endian::u32_le;
use crate::error::DumpError;
use crate::error::FormatError;
use crate::source::RandomAccessSource;
use crate::source::SeekFrom;
use crate::source::SourceError;
use crate::source::SourceView;
use crate::source::read_at;
use crate::text::string_from_utf8;
use vstd::prelude::*;
use vstd::slice::slice_subrange;
use vstd::slice::slice_to_vec;
use vstd::utf8::decode_utf8;
use vstd::utf8::valid_utf8;

verus! {

/// The bytes `50 4B 05 06` that begin the end-of-central-directory record,
/// as the little-endian integer they spell.
pub const EOCD_SIGNATURE: u32 = 0x0605_4b50;

/// The bytes `50 4B 01 02` that begin a central-directory record.
pub const CENTRAL_DIRECTORY_SIGNATURE: u32 = 0x0201_4b50;

/// The bytes `50 4B 03 04` that begin a local file header.
pub const LOCAL_FILE_SIGNATURE: u32 = 0x0403_4b50;

/// How many trailing bytes of a container are searched for the
/// end-of-central-directory record.
pub const EOCD_WINDOW: u64 = 65536;

/// The size of the end-of-central-directory record without its comment.
pub const EOCD_FIXED_SIZE: usize = 22;

/// The size of a central-directory record without its three variable fields.
pub const CENTRAL_DIRECTORY_FIXED_SIZE: usize = 46;

/// The size of a local file header without its two variable fields.
pub const LOCAL_FILE_FIXED_SIZE: usize = 30;

/// Whether the four bytes at `at` spell `signature`.
pub open spec fn signature_at(s: Seq<u8>, at: int, signature: u32) -> bool {
    0 <= at && at + 4 <= s.len() && u32_le(s, at) == signature
}

/// Whether `at` is the lowest offset in `s` at which `signature` stands.
pub open spec fn first_signature_at(s: Seq<u8>, at: int, signature: u32) -> bool {
    signature_at(s, at, signature) && forall|j: int| 0 <= j < at ==> !signature_at(s, j, signature)
}

/// The lowest offset at which `signature` stands in `bytes`.
pub fn find_signature(bytes: &[u8], signature: u32) -> (found: Option<usize>)
    ensures
        match found {
            Some(at) => first_signature_at(bytes@, at as int, signature),
            None => forall|j: int| !signature_at(bytes@, j, signature),
        },
{
    let n: usize = bytes.len();
    if n < 4 {
        return None;
    }
    let mut at: usize = 0;
    while at <= n - 4
        invariant
            n == bytes@.len(),
            n >= 4,
            at <= n - 3,
            forall|j: int| 0 <= j < at ==> !signature_at(bytes@, j, signature),
        decreases n - at,
    {
        if read_u32_le(bytes, at) == signature {
            return Some(at);
        }
        at = at + 1;
    }
    None
}

/// Where the end-of-central-directory record begins in the trailing window
/// of a container: at the first occurrence of its signature.
pub fn locate_eocd(window: &[u8]) -> (found: Option<usize>)
    ensures
        match found {
            Some(at) => first_signature_at(window@, at as int, EOCD_SIGNATURE),
            None => forall|j: int| !signature_at(window@, j, EOCD_SIGNATURE),
        },
{
    find_signature(window, EOCD_SIGNATURE)
}

/// Where `signature` stands exactly once in `s`, at `at`, the first
/// occurrence is at `at`.
pub proof fn lemma_single_signature_is_first(s: Seq<u8>, at: int, signature: u32)
    requires
        signature_at(s, at, signature),
        forall|j: int| signature_at(s, j, signature) ==> j == at,
    ensures
        first_signature_at(s, at, signature),
        forall|k: int| first_signature_at(s, k, signature) ==> k == at,
{
}

/// The bytes of `[from, from + n)`, copied.
fn copy_range(bytes: &[u8], from: usize, n: usize) -> (copy: Vec<u8>)
    requires
        from + n <= bytes.len(),
    ensures
        copy@ == bytes@.subrange(from as int, from + n),
{
    slice_to_vec(slice_subrange(bytes, from, from + n))
}

/// The trailer that anchors the index of a ZIP container.
#[derive(Debug)]
pub struct EndOfCentralDirectory {
    disk: u16,
    central_directory_disk: u16,
    num_central_directory_records: u16,
    total_central_directory_records: u16,
    central_directory_size: u32,
    central_directory_offset: u32,
    comment_length: u16,
    comment: Vec<u8>,
}

/// An end-of-central-directory record as a mathematical value.
pub struct EocdView {
    pub disk: u16,
    pub central_directory_disk: u16,
    pub num_central_directory_records: u16,
    pub total_central_directory_records: u16,
    pub central_directory_size: u32,
    pub central_directory_offset: u32,
    pub comment_length: u16,
    pub comment: Seq<u8>,
}

impl EocdView {
    /// Whether the comment is as long as its length field says.
    pub open spec fn wf(self) -> bool {
        self.comment.len() == self.comment_length
    }
}

impl EndOfCentralDirectory {
    #[verifier::type_invariant]
    spec fn well_formed(self) -> bool {
        self@.wf()
    }
}

impl View for EndOfCentralDirectory {
    type V = EocdView;

    closed spec fn view(&self) -> EocdView {
        EocdView {
            disk: self.disk,
            central_directory_disk: self.central_directory_disk,
            num_central_directory_records: self.num_central_directory_records,
            total_central_directory_records: self.total_central_directory_records,
            central_directory_size: self.central_directory_size,
            central_directory_offset: self.central_directory_offset,
            comment_length: self.comment_length,
            comment: self.comment@,
        }
    }
}

/// The fields of the end-of-central-directory record that begins at `at`:
/// behind the signature seven little-endian integers, then a comment of the
/// length that the last of them gives.
#[verifier::opaque]
pub open spec fn eocd_fields(s: Seq<u8>, at: int) -> EocdView {
    EocdView {
        disk: u16_le(s, at + 4) as u16,
        central_directory_disk: u16_le(s, at + 6) as u16,
        num_central_directory_records: u16_le(s, at + 8) as u16,
        total_central_directory_records: u16_le(s, at + 10) as u16,
        central_directory_size: u32_le(s, at + 12) as u32,
        central_directory_offset: u32_le(s, at + 16) as u32,
        comment_length: u16_le(s, at + 20) as u16,
        comment: s.subrange(at + 22, at + 22 + u16_le(s, at + 20)),
    }
}

/// The end-of-central-directory record that begins at `at`. The bytes must
/// begin with the signature and hold the whole record, comment included.
pub open spec fn eocd_at(s: Seq<u8>, at: int) -> Result<EocdView, FormatError> {
    if at + 4 > s.len() {
        Err(FormatError::Truncated)
    } else if u32_le(s, at) != EOCD_SIGNATURE {
        Err(FormatError::BadSignature)
    } else if at + 22 > s.len() {
        Err(FormatError::Truncated)
    } else if at + 22 + u16_le(s, at + 20) > s.len() {
        Err(FormatError::Truncated)
    } else {
        Ok(eocd_fields(s, at))
    }
}

/// The end-of-central-directory record in the trailing window of a
/// container: the one at the first occurrence of the signature, whether or
/// not a later occurrence would parse where that one does not.
pub open spec fn eocd_in_window(window: Seq<u8>) -> Result<EocdView, FormatError> {
    if exists|at: int| first_signature_at(window, at, EOCD_SIGNATURE) {
        eocd_at(window, choose|at: int| first_signature_at(window, at, EOCD_SIGNATURE))
    } else {
        Err(FormatError::EocdNotFound)
    }
}

impl EndOfCentralDirectory {
    /// Parses the record that begins at `at`.
    pub fn parse(bytes: &[u8], at: usize) -> (result: Result<EndOfCentralDirectory, FormatError>)
        ensures
            match result {
                Ok(record) => record@.wf() && eocd_at(bytes@, at as int) == Ok::<EocdView, FormatError>(
                    record@,
                ),
                Err(e) => eocd_at(bytes@, at as int) == Err::<EocdView, FormatError>(e),
            },
    {
        reveal(eocd_fields);
        let total: usize = bytes.len();
        if at > total || total - at < 4 {
            return Err(FormatError::Truncated);
        }
        if read_u32_le(bytes, at) != EOCD_SIGNATURE {
            return Err(FormatError::BadSignature);
        }
        if total - at < EOCD_FIXED_SIZE {
            return Err(FormatError::Truncated);
        }
        let comment_length: u16 = read_u16_le(bytes, at + 20);
        if total - at - EOCD_FIXED_SIZE < comment_length as usize {
            return Err(FormatError::Truncated);
        }
        Ok(
            EndOfCentralDirectory {
                disk: read_u16_le(bytes, at + 4),
                central_directory_disk: read_u16_le(bytes, at + 6),
                num_central_directory_records: read_u16_le(bytes, at + 8),
                total_central_directory_records: read_u16_le(bytes, at + 10),
                central_directory_size: read_u32_le(bytes, at + 12),
                central_directory_offset: read_u32_le(bytes, at + 16),
                comment_length,
                comment: copy_range(bytes, at + 22, comment_length as usize),
            },
        )
    }

    /// Finds and parses the record in the trailing window of a container.
    pub fn parse_window(window: &[u8]) -> (result: Result<EndOfCentralDirectory, FormatError>)
        ensures
            match result {
                Ok(record) => eocd_in_window(window@) == Ok::<EocdView, FormatError>(record@),
                Err(e) => eocd_in_window(window@) == Err::<EocdView, FormatError>(e),
            },
    {
        match locate_eocd(window) {
            None => Err(FormatError::EocdNotFound),
            Some(at) => {
                EndOfCentralDirectory::parse(window, at)
            },
        }
    }

    /// How many records the central directory holds.
    pub fn num_central_directory_records(&self) -> (n: u16)
        ensures
            n == self@.num_central_directory_records,
    {
        self.num_central_directory_records
    }

    /// How many bytes the central directory takes.
    pub fn central_directory_size(&self) -> (n: u32)
        ensures
            n == self@.central_directory_size,
    {
        self.central_directory_size
    }

    /// Where in the container the central directory begins.
    pub fn central_directory_offset(&self) -> (n: u32)
        ensures
            n == self@.central_directory_offset,
    {
        self.central_directory_offset
    }
}

/// The central directory's record of one file.
#[derive(Debug)]
pub struct CentralDirectoryRecord {
    src_version: u16,
    extract_version: u16,
    flags: u16,
    compression: u16,
    mod_time: u16,
    mod_date: u16,
    crc: u32,
    compressed_size: u32,
    uncompressed_size: u32,
    filename_len: u16,
    extra_len: u16,
    comment_len: u16,
    disk: u16,
    file_attr: u16,
    external_file_attr: u32,
    local_file_header_offset: u32,
    filename: Vec<u8>,
    extra: Vec<u8>,
    comment: Vec<u8>,
}

/// A central-directory record as a mathematical value.
pub struct CentralDirectoryRecordView {
    pub src_version: u16,
    pub extract_version: u16,
    pub flags: u16,
    pub compression: u16,
    pub mod_time: u16,
    pub mod_date: u16,
    pub crc: u32,
    pub compressed_size: u32,
    pub uncompressed_size: u32,
    pub filename_len: u16,
    pub extra_len: u16,
    pub comment_len: u16,
    pub disk: u16,
    pub file_attr: u16,
    pub external_file_attr: u32,
    pub local_file_header_offset: u32,
    pub filename: Seq<u8>,
    pub extra: Seq<u8>,
    pub comment: Seq<u8>,
}

impl CentralDirectoryRecordView {
    /// How many bytes the record takes in the central directory.
    pub open spec fn size(self) -> int {
        46 + self.filename_len + self.extra_len + self.comment_len
    }

    /// Whether each variable field is as long as its length field says.
    pub open spec fn wf(self) -> bool {
        &&& self.filename.len() == self.filename_len
        &&& self.extra.len() == self.extra_len
        &&& self.comment.len() == self.comment_len
    }
}

impl CentralDirectoryRecord {
    #[verifier::type_invariant]
    spec fn well_formed(self) -> bool {
        self@.wf()
    }
}

impl View for CentralDirectoryRecord {
    type V = CentralDirectoryRecordView;

    closed spec fn view(&self) -> CentralDirectoryRecordView {
        CentralDirectoryRecordView {
            src_version: self.src_version,
            extract_version: self.extract_version,
            flags: self.flags,
            compression: self.compression,
            mod_time: self.mod_time,
            mod_date: self.mod_date,
            crc: self.crc,
            compressed_size: self.compressed_size,
            uncompressed_size: self.uncompressed_size,
            filename_len: self.filename_len,
            extra_len: self.extra_len,
            comment_len: self.comment_len,
            disk: self.disk,
            file_attr: self.file_attr,
            external_file_attr: self.external_file_attr,
            local_file_header_offset: self.local_file_header_offset,
            filename: self.filename@,
            extra: self.extra@,
            comment: self.comment@,
        }
    }
}

/// The fields of the central-directory record that begins at `at`: behind
/// the signature sixteen little-endian integers, then the file name, the
/// extra field and the comment, each of the length that its field gives.
#[verifier::opaque]
pub open spec fn central_directory_record_fields(s: Seq<u8>, at: int) -> CentralDirectoryRecordView {
    let names = at + 46;
    let extras = names + u16_le(s, at + 28);
    let comments = extras + u16_le(s, at + 30);
    CentralDirectoryRecordView {
        src_version: u16_le(s, at + 4) as u16,
        extract_version: u16_le(s, at + 6) as u16,
        flags: u16_le(s, at + 8) as u16,
        compression: u16_le(s, at + 10) as u16,
        mod_time: u16_le(s, at + 12) as u16,
        mod_date: u16_le(s, at + 14) as u16,
        crc: u32_le(s, at + 16) as u32,
        compressed_size: u32_le(s, at + 20) as u32,
        uncompressed_size: u32_le(s, at + 24) as u32,
        filename_len: u16_le(s, at + 28) as u16,
        extra_len: u16_le(s, at + 30) as u16,
        comment_len: u16_le(s, at + 32) as u16,
        disk: u16_le(s, at + 34) as u16,
        file_attr: u16_le(s, at + 36) as u16,
        external_file_attr: u32_le(s, at + 38) as u32,
        local_file_header_offset: u32_le(s, at + 42) as u32,
        filename: s.subrange(names, extras),
        extra: s.subrange(extras, comments),
        comment: s.subrange(comments, comments + u16_le(s, at + 32)),
    }
}

/// How many bytes the central-directory record that begins at `at` takes,
/// going by its three length fields.
pub open spec fn central_directory_record_size(s: Seq<u8>, at: int) -> int {
    46 + u16_le(s, at + 28) + u16_le(s, at + 30) + u16_le(s, at + 32)
}

/// The central-directory record that begins at `at`. The bytes must begin
/// with the signature and hold the whole record, variable fields included.
pub open spec fn central_directory_record_at(s: Seq<u8>, at: int) -> Result<
    CentralDirectoryRecordView,
    FormatError,
> {
    if at + 4 > s.len() {
        Err(FormatError::Truncated)
    } else if u32_le(s, at) != CENTRAL_DIRECTORY_SIGNATURE {
        Err(FormatError::BadSignature)
    } else if at + 46 > s.len() {
        Err(FormatError::Truncated)
    } else if at + central_directory_record_size(s, at) > s.len() {
        Err(FormatError::Truncated)
    } else {
        Ok(central_directory_record_fields(s, at))
    }
}

impl CentralDirectoryRecord {
    /// Parses the record that begins at `at`.
    pub fn parse(bytes: &[u8], at: usize) -> (result: Result<CentralDirectoryRecord, FormatError>)
        ensures
            match result {
                Ok(record) => {
                    &&& record@.wf()
                    &&& at + record@.size() <= bytes@.len()
                    &&& central_directory_record_at(bytes@, at as int) == Ok::<
                        CentralDirectoryRecordView,
                        FormatError,
                    >(record@)
                },
                Err(e) => central_directory_record_at(bytes@, at as int) == Err::<
                    CentralDirectoryRecordView,
                    FormatError,
                >(e),
            },
    {
        reveal(central_directory_record_fields);
        let total: usize = bytes.len();
        if at > total || total - at < 4 {
            return Err(FormatError::Truncated);
        }
        if read_u32_le(bytes, at) != CENTRAL_DIRECTORY_SIGNATURE {
            return Err(FormatError::BadSignature);
        }
        if total - at < CENTRAL_DIRECTORY_FIXED_SIZE {
            return Err(FormatError::Truncated);
        }
        let filename_len: u16 = read_u16_le(bytes, at + 28);
        let extra_len: u16 = read_u16_le(bytes, at + 30);
        let comment_len: u16 = read_u16_le(bytes, at + 32);
        let variable: usize = filename_len as usize + extra_len as usize + comment_len as usize;
        if total - at - CENTRAL_DIRECTORY_FIXED_SIZE < variable {
            return Err(FormatError::Truncated);
        }
        let names: usize = at + CENTRAL_DIRECTORY_FIXED_SIZE;
        let extras: usize = names + filename_len as usize;
        let comments: usize = extras + extra_len as usize;
        Ok(
            CentralDirectoryRecord {
                src_version: read_u16_le(bytes, at + 4),
                extract_version: read_u16_le(bytes, at + 6),
                flags: read_u16_le(bytes, at + 8),
                compression: read_u16_le(bytes, at + 10),
                mod_time: read_u16_le(bytes, at + 12),
                mod_date: read_u16_le(bytes, at + 14),
                crc: read_u32_le(bytes, at + 16),
                compressed_size: read_u32_le(bytes, at + 20),
                uncompressed_size: read_u32_le(bytes, at + 24),
                filename_len,
                extra_len,
                comment_len,
                disk: read_u16_le(bytes, at + 34),
                file_attr: read_u16_le(bytes, at + 36),
                external_file_attr: read_u32_le(bytes, at + 38),
                local_file_header_offset: read_u32_le(bytes, at + 42),
                filename: copy_range(bytes, names, filename_len as usize),
                extra: copy_range(bytes, extras, extra_len as usize),
                comment: copy_range(bytes, comments, comment_len as usize),
            },
        )
    }

    /// How many bytes the record takes in the central directory.
    pub fn size(&self) -> (n: usize)
        ensures
            n == self@.size(),
    {
        CENTRAL_DIRECTORY_FIXED_SIZE + self.filename_len as usize + self.extra_len as usize
            + self.comment_len as usize
    }
}

impl Clone for EndOfCentralDirectory {
    fn clone(&self) -> (copy: EndOfCentralDirectory)
        ensures
            copy@ == self@,
    {
        proof {
            use_type_invariant(self);
        }
        EndOfCentralDirectory {
            disk: self.disk,
            central_directory_disk: self.central_directory_disk,
            num_central_directory_records: self.num_central_directory_records,
            total_central_directory_records: self.total_central_directory_records,
            central_directory_size: self.central_directory_size,
            central_directory_offset: self.central_directory_offset,
            comment_length: self.comment_length,
            comment: self.comment.clone(),
        }
    }
}

impl Clone for CentralDirectoryRecord {
    fn clone(&self) -> (copy: CentralDirectoryRecord)
        ensures
            copy@ == self@,
    {
        proof {
            use_type_invariant(self);
        }
        CentralDirectoryRecord {
            src_version: self.src_version,
            extract_version: self.extract_version,
            flags: self.flags,
            compression: self.compression,
            mod_time: self.mod_time,
            mod_date: self.mod_date,
            crc: self.crc,
            compressed_size: self.compressed_size,
            uncompressed_size: self.uncompressed_size,
            filename_len: self.filename_len,
            extra_len: self.extra_len,
            comment_len: self.comment_len,
            disk: self.disk,
            file_attr: self.file_attr,
            external_file_attr: self.external_file_attr,
            local_file_header_offset: self.local_file_header_offset,
            filename: self.filename.clone(),
            extra: self.extra.clone(),
            comment: self.comment.clone(),
        }
    }
}

/// A file name as text: the characters that the bytes encode, where the
/// bytes are well-formed UTF-8.
pub open spec fn filename_text(bytes: Seq<u8>) -> Result<Seq<char>, FormatError> {
    if valid_utf8(bytes) {
        Ok(decode_utf8(bytes))
    } else {
        Err(FormatError::InvalidFilename)
    }
}

/// Decodes a file name.
fn decode_filename(bytes: &Vec<u8>) -> (result: Result<String, FormatError>)
    ensures
        match result {
            Ok(name) => filename_text(bytes@) == Ok::<Seq<char>, FormatError>(name@),
            Err(e) => filename_text(bytes@) == Err::<Seq<char>, FormatError>(e),
        },
{
    match string_from_utf8(bytes.clone()) {
        Some(name) => Ok(name),
        None => Err(FormatError::InvalidFilename),
    }
}

impl CentralDirectoryRecord {
    /// The file name as text.
    pub fn get_filename(&self) -> (result: Result<String, FormatError>)
        ensures
            match result {
                Ok(name) => filename_text(self@.filename) == Ok::<Seq<char>, FormatError>(name@),
                Err(e) => filename_text(self@.filename) == Err::<Seq<char>, FormatError>(e),
            },
    {
        decode_filename(&self.filename)
    }

    /// Where in the container the local header of the file begins.
    pub fn local_file_header_offset(&self) -> (offset: u32)
        ensures
            offset == self@.local_file_header_offset,
    {
        self.local_file_header_offset
    }
}

/// The header that stands in the container right before the data of a file.
#[derive(Debug)]
pub struct LocalFileHeader {
    extract_version: u16,
    flags: u16,
    compression: u16,
    mod_time: u16,
    mod_date: u16,
    crc: u32,
    compressed_size: u32,
    uncompressed_size: u32,
    filename_len: u16,
    extra_len: u16,
    filename: Vec<u8>,
    extra: Vec<u8>,
}

/// A local file header as a mathematical value.
pub struct LocalFileHeaderView {
    pub extract_version: u16,
    pub flags: u16,
    pub compression: u16,
    pub mod_time: u16,
    pub mod_date: u16,
    pub crc: u32,
    pub compressed_size: u32,
    pub uncompressed_size: u32,
    pub filename_len: u16,
    pub extra_len: u16,
    pub filename: Seq<u8>,
    pub extra: Seq<u8>,
}

impl LocalFileHeaderView {
    /// Whether each variable field is as long as its length field says.
    pub open spec fn wf(self) -> bool {
        &&& self.filename.len() == self.filename_len
        &&& self.extra.len() == self.extra_len
    }
}

impl LocalFileHeader {
    #[verifier::type_invariant]
    spec fn well_formed(self) -> bool {
        self@.wf()
    }
}

impl View for LocalFileHeader {
    type V = LocalFileHeaderView;

    closed spec fn view(&self) -> LocalFileHeaderView {
        LocalFileHeaderView {
            extract_version: self.extract_version,
            flags: self.flags,
            compression: self.compression,
            mod_time: self.mod_time,
            mod_date: self.mod_date,
            crc: self.crc,
            compressed_size: self.compressed_size,
            uncompressed_size: self.uncompressed_size,
            filename_len: self.filename_len,
            extra_len: self.extra_len,
            filename: self.filename@,
            extra: self.extra@,
        }
    }
}

/// The fields of the local file header that begins at `at`: behind the
/// signature ten little-endian integers, then the file name and the extra
/// field, each of the length that its field gives.
#[verifier::opaque]
pub open spec fn local_file_header_fields(s: Seq<u8>, at: int) -> LocalFileHeaderView {
    let names = at + 30;
    let extras = names + u16_le(s, at + 26);
    LocalFileHeaderView {
        extract_version: u16_le(s, at + 4) as u16,
        flags: u16_le(s, at + 6) as u16,
        compression: u16_le(s, at + 8) as u16,
        mod_time: u16_le(s, at + 10) as u16,
        mod_date: u16_le(s, at + 12) as u16,
        crc: u32_le(s, at + 14) as u32,
        compressed_size: u32_le(s, at + 18) as u32,
        uncompressed_size: u32_le(s, at + 22) as u32,
        filename_len: u16_le(s, at + 26) as u16,
        extra_len: u16_le(s, at + 28) as u16,
        filename: s.subrange(names, extras),
        extra: s.subrange(extras, extras + u16_le(s, at + 28)),
    }
}

/// The local file header that begins at `at`. The bytes must begin with the
/// signature and hold the whole header, variable fields included.
pub open spec fn local_file_header_at(s: Seq<u8>, at: int) -> Result<LocalFileHeaderView, FormatError> {
    if at + 4 > s.len() {
        Err(FormatError::Truncated)
    } else if u32_le(s, at) != LOCAL_FILE_SIGNATURE {
        Err(FormatError::BadSignature)
    } else if at + 30 > s.len() {
        Err(FormatError::Truncated)
    } else if at + 30 + u16_le(s, at + 26) + u16_le(s, at + 28) > s.len() {
        Err(FormatError::Truncated)
    } else {
        Ok(local_file_header_fields(s, at))
    }
}

impl LocalFileHeader {
    /// Parses the header that begins at `at`.
    pub fn parse(bytes: &[u8], at: usize) -> (result: Result<LocalFileHeader, FormatError>)
        ensures
            match result {
                Ok(header) => header@.wf() && local_file_header_at(bytes@, at as int) == Ok::<
                    LocalFileHeaderView,
                    FormatError,
                >(header@),
                Err(e) => local_file_header_at(bytes@, at as int) == Err::<
                    LocalFileHeaderView,
                    FormatError,
                >(e),
            },
    {
        reveal(local_file_header_fields);
        let total: usize = bytes.len();
        if at > total || total - at < 4 {
            return Err(FormatError::Truncated);
        }
        if read_u32_le(bytes, at) != LOCAL_FILE_SIGNATURE {
            return Err(FormatError::BadSignature);
        }
        if total - at < LOCAL_FILE_FIXED_SIZE {
            return Err(FormatError::Truncated);
        }
        let filename_len: u16 = read_u16_le(bytes, at + 26);
        let extra_len: u16 = read_u16_le(bytes, at + 28);
        if total - at - LOCAL_FILE_FIXED_SIZE < filename_len as usize + extra_len as usize {
            return Err(FormatError::Truncated);
        }
        let names: usize = at + LOCAL_FILE_FIXED_SIZE;
        let extras: usize = names + filename_len as usize;
        Ok(
            LocalFileHeader {
                extract_version: read_u16_le(bytes, at + 4),
                flags: read_u16_le(bytes, at + 6),
                compression: read_u16_le(bytes, at + 8),
                mod_time: read_u16_le(bytes, at + 10),
                mod_date: read_u16_le(bytes, at + 12),
                crc: read_u32_le(bytes, at + 14),
                compressed_size: read_u32_le(bytes, at + 18),
                uncompressed_size: read_u32_le(bytes, at + 22),
                filename_len,
                extra_len,
                filename: copy_range(bytes, names, filename_len as usize),
                extra: copy_range(bytes, extras, extra_len as usize),
            },
        )
    }
}

/// What reading a local file header at the cursor gives. The signature is
/// read and tested first, then the rest of the fixed part, then the variable
/// part in the length that the fixed part gives.
#[verifier::opaque]
pub open spec fn read_local_file_header(source: SourceView) -> Result<LocalFileHeaderView, DumpError> {
    match source.read_result(4) {
        Err(e) => Err(DumpError::Io(e)),
        Ok(signature) => if u32_le(signature, 0) != LOCAL_FILE_SIGNATURE {
            Err(DumpError::Format(FormatError::BadSignature))
        } else {
            match source.after_read(4).read_result(26) {
                Err(e) => Err(DumpError::Io(e)),
                Ok(fields) => match source.after_read(4).after_read(26).read_result(
                    u16_le(fields, 22) + u16_le(fields, 24),
                ) {
                    Err(e) => Err(DumpError::Io(e)),
                    Ok(variable) => match local_file_header_at(signature + fields + variable, 0) {
                        Ok(header) => Ok(header),
                        Err(e) => Err(DumpError::Format(e)),
                    },
                },
            }
        },
    }
}

/// The source after a local file header was read at the cursor: the cursor
/// stands behind the last part that was read.
#[verifier::opaque]
pub open spec fn after_local_file_header(source: SourceView) -> SourceView {
    match source.read_result(4) {
        Err(_) => source,
        Ok(signature) => if u32_le(signature, 0) != LOCAL_FILE_SIGNATURE {
            source.after_read(4)
        } else {
            match source.after_read(4).read_result(26) {
                Err(_) => source.after_read(4),
                Ok(fields) => source.after_read(4).after_read(26).after_read(
                    u16_le(fields, 22) + u16_le(fields, 24),
                ),
            }
        },
    }
}

impl LocalFileHeader {
    /// Reads the header at the cursor.
    pub fn read(source: &mut RandomAccessSource) -> (result: Result<LocalFileHeader, DumpError>)
        ensures
            final(source)@ == after_local_file_header(old(source)@),
            match result {
                Ok(header) => read_local_file_header(old(source)@) == Ok::<
                    LocalFileHeaderView,
                    DumpError,
                >(header@),
                Err(e) => read_local_file_header(old(source)@) == Err::<LocalFileHeaderView, DumpError>(
                    e,
                ),
            },
    {
        reveal(read_local_file_header);
        reveal(after_local_file_header);
        let mut bytes: Vec<u8> = match source.read_exact(4) {
            Ok(signature) => signature,
            Err(e) => {
                return Err(DumpError::Io(e));
            },
        };
        if read_u32_le(bytes.as_slice(), 0) != LOCAL_FILE_SIGNATURE {
            return Err(DumpError::Format(FormatError::BadSignature));
        }
        let mut fields: Vec<u8> = match source.read_exact(26) {
            Ok(fields) => fields,
            Err(e) => {
                return Err(DumpError::Io(e));
            },
        };
        let filename_len: u16 = read_u16_le(fields.as_slice(), 22);
        let extra_len: u16 = read_u16_le(fields.as_slice(), 24);
        let mut variable: Vec<u8> = match source.read_exact(filename_len as u64 + extra_len as u64) {
            Ok(variable) => variable,
            Err(e) => {
                return Err(DumpError::Io(e));
            },
        };
        bytes.append(&mut fields);
        bytes.append(&mut variable);
        match LocalFileHeader::parse(bytes.as_slice(), 0) {
            Ok(header) => Ok(header),
            Err(e) => Err(DumpError::Format(e)),
        }
    }
}

/// A file of the container: its central-directory record together with its
/// local header.
#[derive(Debug)]
pub struct ZipEntry {
    central_directory_record: CentralDirectoryRecord,
    local_file_header: LocalFileHeader,
}

/// An entry as a mathematical value.
pub struct ZipEntryView {
    pub central_directory_record: CentralDirectoryRecordView,
    pub local_file_header: LocalFileHeaderView,
}

impl ZipEntryView {
    /// Where in the container the data of the entry begins: behind the local
    /// header, whose variable part is taken to be as long as the central
    /// directory says. The lengths in the local header itself are not
    /// consulted.
    pub open spec fn compressed_data_offset(self) -> int {
        self.central_directory_record.local_file_header_offset + 30
            + self.central_directory_record.extra_len + self.central_directory_record.filename_len
    }
}

impl View for ZipEntry {
    type V = ZipEntryView;

    closed spec fn view(&self) -> ZipEntryView {
        ZipEntryView {
            central_directory_record: self.central_directory_record@,
            local_file_header: self.local_file_header@,
        }
    }
}

impl ZipEntry {
    /// The file name in the local header, as text.
    pub fn get_filename(&self) -> (result: Result<String, FormatError>)
        ensures
            match result {
                Ok(name) => filename_text(self@.local_file_header.filename) == Ok::<
                    Seq<char>,
                    FormatError,
                >(name@),
                Err(e) => filename_text(self@.local_file_header.filename) == Err::<
                    Seq<char>,
                    FormatError,
                >(e),
            },
    {
        decode_filename(&self.local_file_header.filename)
    }

    /// The file name in the local header, as the bytes that the container
    /// holds.
    pub fn filename_bytes(&self) -> (name: &[u8])
        ensures
            name@ == self@.local_file_header.filename,
    {
        self.local_file_header.filename.as_slice()
    }

    /// The size of the file once unpacked, as the local header gives it.
    pub fn get_uncompressed_size(&self) -> (size: usize)
        ensures
            size == self@.local_file_header.uncompressed_size,
    {
        self.local_file_header.uncompressed_size as usize
    }

    /// The size of the data in the container, as the local header gives it.
    pub fn get_compressed_size(&self) -> (size: usize)
        ensures
            size == self@.local_file_header.compressed_size,
    {
        self.local_file_header.compressed_size as usize
    }

    /// Where in the container the data begins.
    pub fn get_compressed_data_offset(&self) -> (offset: u64)
        ensures
            offset == self@.compressed_data_offset(),
            offset == self@.central_directory_record.local_file_header_offset + 30
                + self@.central_directory_record.extra_len
                + self@.central_directory_record.filename_len,
    {
        self.central_directory_record.local_file_header_offset as u64 + 30
            + self.central_directory_record.extra_len as u64
            + self.central_directory_record.filename_len as u64
    }

    /// Whether the data is anything but stored.
    pub fn is_compressed(&self) -> (compressed: bool)
        ensures
            compressed == (self@.local_file_header.compression != 0),
    {
        self.local_file_header.compression != 0
    }
}

/// The records of a sequence of central-directory records.
pub open spec fn records_view(records: Seq<CentralDirectoryRecord>) -> Seq<CentralDirectoryRecordView> {
    records.map_values(|record: CentralDirectoryRecord| record@)
}

/// The first `count` records of a central directory, each beginning where
/// the one before it ends, and the offset at which the last of them ends.
/// The error is that of the first record that does not parse.
pub open spec fn central_directory_prefix(s: Seq<u8>, count: nat) -> Result<
    (Seq<CentralDirectoryRecordView>, int),
    FormatError,
>
    decreases count,
{
    if count == 0 {
        Ok((Seq::empty(), 0))
    } else {
        match central_directory_prefix(s, (count - 1) as nat) {
            Err(e) => Err(e),
            Ok((records, at)) => match central_directory_record_at(s, at) {
                Err(e) => Err(e),
                Ok(record) => Ok((records.push(record), at + record.size())),
            },
        }
    }
}

/// The `count` records of a central directory. What follows the last of them
/// is not looked at.
pub open spec fn central_directory(s: Seq<u8>, count: nat) -> Result<
    Seq<CentralDirectoryRecordView>,
    FormatError,
> {
    match central_directory_prefix(s, count) {
        Err(e) => Err(e),
        Ok((records, _)) => Ok(records),
    }
}

/// Parses the `count` records of a central directory.
pub fn parse_central_directory(bytes: &[u8], count: u16) -> (result: Result<
    Vec<CentralDirectoryRecord>,
    FormatError,
>)
    ensures
        match result {
            Ok(records) => {
                &&& records@.len() == count
                &&& central_directory(bytes@, count as nat) == Ok::<
                    Seq<CentralDirectoryRecordView>,
                    FormatError,
                >(records_view(records@))
            },
            Err(e) => central_directory(bytes@, count as nat) == Err::<
                Seq<CentralDirectoryRecordView>,
                FormatError,
            >(e),
        },
{
    let total: usize = bytes.len();
    let mut records: Vec<CentralDirectoryRecord> = Vec::new();
    let mut at: usize = 0;
    let mut parsed: u16 = 0;
    assert(records_view(records@) =~= Seq::empty());
    while parsed < count
        invariant
            parsed <= count,
            total == bytes@.len(),
            at <= total,
            records@.len() == parsed,
            central_directory_prefix(bytes@, parsed as nat) == Ok::<
                (Seq<CentralDirectoryRecordView>, int),
                FormatError,
            >((records_view(records@), at as int)),
        decreases count - parsed,
    {
        let record = match CentralDirectoryRecord::parse(bytes, at) {
            Ok(record) => record,
            Err(e) => {
                proof {
                    lemma_central_directory_fails(bytes@, parsed as nat + 1, count as nat);
                }
                return Err(e);
            },
        };
        let ghost before = records@;
        at = at + record.size();
        records.push(record);
        parsed = parsed + 1;
        assert(records_view(records@) =~= records_view(before).push(record@));
    }
    Ok(records)
}

/// A central directory that parses holds as many records as were counted.
pub proof fn lemma_central_directory_len(s: Seq<u8>, count: nat)
    ensures
        central_directory_prefix(s, count) matches Ok(parsed) ==> parsed.0.len() == count,
        central_directory(s, count) matches Ok(records) ==> records.len() == count,
    decreases count,
{
    if count > 0 {
        lemma_central_directory_len(s, (count - 1) as nat);
    }
}

/// Once a prefix of a central directory fails to parse, every longer prefix
/// fails with the same error.
pub proof fn lemma_central_directory_fails(s: Seq<u8>, short: nat, long: nat)
    requires
        short <= long,
        central_directory_prefix(s, short) is Err,
    ensures
        central_directory_prefix(s, long) == central_directory_prefix(s, short),
    decreases long - short,
{
    if short < long {
        lemma_central_directory_fails(s, short, (long - 1) as nat);
    }
}

/// Where the trailing window of a container of `len` bytes begins: the
/// window is the last 64 KiB, or the whole container where that is shorter.
pub open spec fn eocd_window_start(len: int) -> int {
    if len < EOCD_WINDOW {
        0
    } else {
        len - EOCD_WINDOW
    }
}

/// The end-of-central-directory record of a container, found in its
/// trailing window. The total length must be known.
pub open spec fn end_of_central_directory(source: SourceView) -> Result<EocdView, DumpError> {
    match source.len {
        None => Err(DumpError::Io(SourceError::UnknownLength)),
        Some(len) => match read_at(
            source.chunks,
            source.len,
            eocd_window_start(len),
            len - eocd_window_start(len),
        ) {
            Err(e) => Err(DumpError::Io(e)),
            Ok(window) => match eocd_in_window(window) {
                Err(e) => Err(DumpError::Format(e)),
                Ok(record) => Ok(record),
            },
        },
    }
}

/// The source after the search for the end-of-central-directory record: the
/// cursor stands at the end where the window was read, at the start of the
/// window where it was not, and where it was where the length is unknown.
pub open spec fn after_end_of_central_directory(source: SourceView) -> SourceView {
    match source.len {
        None => source,
        Some(len) => source.at(eocd_window_start(len)).after_read(len - eocd_window_start(len)),
    }
}

/// Finds and parses the end-of-central-directory record of a container.
pub fn locate_end_of_central_directory(source: &mut RandomAccessSource) -> (result: Result<
    EndOfCentralDirectory,
    DumpError,
>)
    ensures
        final(source)@ == after_end_of_central_directory(old(source)@),
        match result {
            Ok(record) => end_of_central_directory(old(source)@) == Ok::<EocdView, DumpError>(record@),
            Err(e) => end_of_central_directory(old(source)@) == Err::<EocdView, DumpError>(e),
        },
{
    let file_size: u64 = match source.stream_len() {
        Ok(len) => len,
        Err(e) => {
            return Err(DumpError::Io(e));
        },
    };
    let chunk_size: u64 = if file_size < EOCD_WINDOW {
        file_size
    } else {
        EOCD_WINDOW
    };
    let start: u64 = file_size - chunk_size;
    let _ = source.seek(SeekFrom::Start(start));
    let window: Vec<u8> = match source.read_exact(chunk_size) {
        Ok(window) => window,
        Err(e) => {
            return Err(DumpError::Io(e));
        },
    };
    match EndOfCentralDirectory::parse_window(window.as_slice()) {
        Ok(record) => Ok(record),
        Err(e) => Err(DumpError::Format(e)),
    }
}

/// The index of a ZIP container: its end-of-central-directory record and the
/// records of its central directory, in the order in which the directory
/// holds them.
#[derive(Debug)]
pub struct ZipArchive {
    eocd: EndOfCentralDirectory,
    central_directory: Vec<CentralDirectoryRecord>,
}

/// An archive as a mathematical value.
pub struct ZipArchiveView {
    pub eocd: EocdView,
    pub central_directory: Seq<CentralDirectoryRecordView>,
}

impl ZipArchiveView {
    /// Whether the central directory holds as many records as the
    /// end-of-central-directory record counts.
    pub open spec fn wf(self) -> bool {
        self.central_directory.len() == self.eocd.num_central_directory_records
    }
}

impl ZipArchive {
    #[verifier::type_invariant]
    spec fn well_formed(self) -> bool {
        self@.wf()
    }
}

impl View for ZipArchive {
    type V = ZipArchiveView;

    closed spec fn view(&self) -> ZipArchiveView {
        ZipArchiveView {
            eocd: self.eocd@,
            central_directory: records_view(self.central_directory@),
        }
    }
}

/// The index of a container: the end-of-central-directory record, and the
/// central directory, read as one block of the size and at the offset that
/// the record gives and parsed into as many records as it counts.
pub open spec fn archive(source: SourceView) -> Result<ZipArchiveView, DumpError> {
    match end_of_central_directory(source) {
        Err(e) => Err(e),
        Ok(eocd) => match read_at(
            source.chunks,
            source.len,
            eocd.central_directory_offset as int,
            eocd.central_directory_size as int,
        ) {
            Err(e) => Err(DumpError::Io(e)),
            Ok(block) => match central_directory(block, eocd.num_central_directory_records as nat) {
                Err(e) => Err(DumpError::Format(e)),
                Ok(records) => Ok(ZipArchiveView { eocd, central_directory: records }),
            },
        },
    }
}

/// The source after its index was read: the cursor stands behind the
/// central directory where that was read, at its start where it was not, and
/// where the search for the end-of-central-directory record left it where
/// that failed.
pub open spec fn after_archive(source: SourceView) -> SourceView {
    match end_of_central_directory(source) {
        Err(_) => after_end_of_central_directory(source),
        Ok(eocd) => source.at(eocd.central_directory_offset as int).after_read(
            eocd.central_directory_size as int,
        ),
    }
}

/// What reading the entry of `record` gives: the local header at the offset
/// that the record names, paired with the record.
pub open spec fn read_entry(source: SourceView, record: CentralDirectoryRecordView) -> Result<
    ZipEntryView,
    DumpError,
> {
    match read_local_file_header(source.at(record.local_file_header_offset as int)) {
        Err(e) => Err(e),
        Ok(header) => Ok(ZipEntryView { central_directory_record: record, local_file_header: header }),
    }
}

/// The source after the entry of `record` was read.
pub open spec fn after_entry(source: SourceView, record: CentralDirectoryRecordView) -> SourceView {
    after_local_file_header(source.at(record.local_file_header_offset as int))
}

/// The data of an entry: as many bytes as its compressed size says, from the
/// offset at which its data begins.
pub open spec fn compressed_data(source: SourceView, entry: ZipEntryView) -> Result<Seq<u8>, DumpError> {
    match read_at(
        source.chunks,
        source.len,
        entry.compressed_data_offset(),
        entry.local_file_header.compressed_size as int,
    ) {
        Err(e) => Err(DumpError::Io(e)),
        Ok(bytes) => Ok(bytes),
    }
}

impl ZipArchive {
    /// Reads the index of the container in `source`.
    pub fn new(source: &mut RandomAccessSource) -> (result: Result<ZipArchive, DumpError>)
        ensures
            final(source)@ == after_archive(old(source)@),
            match result {
                Ok(opened) => opened@.wf() && archive(old(source)@) == Ok::<ZipArchiveView, DumpError>(
                    opened@,
                ),
                Err(e) => archive(old(source)@) == Err::<ZipArchiveView, DumpError>(e),
            },
    {
        let eocd = locate_end_of_central_directory(source)?;
        let _ = source.seek(SeekFrom::Start(eocd.central_directory_offset as u64));
        let block: Vec<u8> = match source.read_exact(eocd.central_directory_size as u64) {
            Ok(block) => block,
            Err(e) => {
                return Err(DumpError::Io(e));
            },
        };
        match parse_central_directory(block.as_slice(), eocd.num_central_directory_records) {
            Ok(central_directory) => Ok(ZipArchive { eocd, central_directory }),
            Err(e) => Err(DumpError::Format(e)),
        }
    }

    /// Places the cursor of `source` where the data of `entry` begins, and
    /// returns that offset.
    pub fn get_compressed_data_file(&self, source: &mut RandomAccessSource, entry: &ZipEntry) -> (offset:
        u64)
        ensures
            final(source)@ == old(source)@.at(entry@.compressed_data_offset()),
            offset == entry@.compressed_data_offset(),
    {
        let offset: u64 = entry.get_compressed_data_offset();
        let _ = source.seek(SeekFrom::Start(offset));
        offset
    }

    /// Copies the data of `entry` out of `source`. The cursor is left behind
    /// the data where the read succeeds, and at its start where it does not.
    pub fn get_compressed_data(&self, source: &mut RandomAccessSource, entry: &ZipEntry) -> (result:
        Result<Vec<u8>, DumpError>)
        ensures
            final(source)@ == old(source)@.at(entry@.compressed_data_offset()).after_read(
                entry@.local_file_header.compressed_size as int,
            ),
            match result {
                Ok(bytes) => compressed_data(old(source)@, entry@) == Ok::<Seq<u8>, DumpError>(bytes@),
                Err(e) => compressed_data(old(source)@, entry@) == Err::<Seq<u8>, DumpError>(e),
            },
    {
        let _ = self.get_compressed_data_file(source, entry);
        match source.read_exact(entry.local_file_header.compressed_size as u64) {
            Ok(bytes) => Ok(bytes),
            Err(e) => Err(DumpError::Io(e)),
        }
    }

    /// The records of the central directory.
    pub fn central_directory(&self) -> (records: &Vec<CentralDirectoryRecord>)
        ensures
            records_view(records@) == self@.central_directory,
    {
        &self.central_directory
    }

    /// An iteration over the entries, from the first record on. The cursor
    /// of `source` is placed at the start of the central directory.
    pub fn into_iter<'a>(&'a self, source: &mut RandomAccessSource) -> (entries: ZipEntryIterator<'a>)
        ensures
            final(source)@ == old(source)@.at(self@.eocd.central_directory_offset as int),
            entries@ == (ZipEntryIteratorView { records: self@.central_directory, idx: 0 }),
    {
        let _ = source.seek(SeekFrom::Start(self.eocd.central_directory_offset as u64));
        ZipEntryIterator { records: &self.central_directory, idx: 0 }
    }
}

/// An iteration over the entries of an archive, in the order of its central
/// directory.
pub struct ZipEntryIterator<'a> {
    records: &'a Vec<CentralDirectoryRecord>,
    idx: usize,
}

/// An iteration as a mathematical value: the records, and how many of them
/// are behind it.
pub struct ZipEntryIteratorView {
    pub records: Seq<CentralDirectoryRecordView>,
    pub idx: int,
}

impl ZipEntryIteratorView {
    /// Whether the iteration stands at a record or at the end.
    pub open spec fn wf(self) -> bool {
        0 <= self.idx <= self.records.len()
    }
}

impl<'a> ZipEntryIterator<'a> {
    #[verifier::type_invariant]
    spec fn well_formed(self) -> bool {
        self@.wf()
    }
}

impl<'a> View for ZipEntryIterator<'a> {
    type V = ZipEntryIteratorView;

    closed spec fn view(&self) -> ZipEntryIteratorView {
        ZipEntryIteratorView { records: records_view(self.records@), idx: self.idx as int }
    }
}

impl<'a> ZipEntryIterator<'a> {
    /// How many records are behind the iteration.
    pub fn position(&self) -> (idx: usize)
        ensures
            idx == self@.idx,
    {
        self.idx
    }

    /// Takes one step. At the end of the directory the step gives `None`.
    /// Else it reads the entry of the next record. Where that needs bytes
    /// that are not resident, the error says which, and the same record is
    /// tried again by the next step. Any other error tells why the record was
    /// skipped: the next step goes on with the record behind it.
    pub fn next(&mut self, source: &mut RandomAccessSource) -> (result: Result<Option<ZipEntry>, DumpError>)
        ensures
            final(self)@.records == old(self)@.records,
            final(self)@.wf(),
            old(self)@.idx >= old(self)@.records.len() ==> {
                &&& result matches Ok(None)
                &&& final(self)@ == old(self)@
                &&& final(source)@ == old(source)@
            },
            old(self)@.idx < old(self)@.records.len() ==> {
                let record = old(self)@.records[old(self)@.idx];
                &&& final(source)@ == after_entry(old(source)@, record)
                &&& match result {
                    Ok(Some(entry)) => {
                        &&& read_entry(old(source)@, record) == Ok::<ZipEntryView, DumpError>(entry@)
                        &&& final(self)@.idx == old(self)@.idx + 1
                    },
                    Ok(None) => false,
                    Err(e) => {
                        &&& read_entry(old(source)@, record) == Err::<ZipEntryView, DumpError>(e)
                        &&& final(self)@.idx == if e.missing().is_some() {
                            old(self)@.idx
                        } else {
                            old(self)@.idx + 1
                        }
                    },
                }
            },
    {
        proof {
            use_type_invariant(&*self);
        }
        if self.idx >= self.records.len() {
            return Ok(None);
        }
        let record = self.records[self.idx].clone();
        let _ = source.seek(SeekFrom::Start(record.local_file_header_offset as u64));
        match LocalFileHeader::read(source) {
            Ok(local_file_header) => {
                self.idx = self.idx + 1;
                Ok(Some(ZipEntry { central_directory_record: record, local_file_header }))
            },
            Err(e) => {
                if e.request().is_none() {
                    self.idx = self.idx + 1;
                }
                Err(e)
            },
        }
    }
}

} // verus!
