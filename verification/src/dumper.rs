//! From a source to the payload whose manifest is to be decoded: directly,
//! or by way of the `payload.bin` entry of a ZIP container.

use crate::container::archive_of;
use crate::container::lemma_after_archive_same_data;
use crate::container::lemma_after_entry_same_data;
use crate::container::lemma_archive_faithful;
use crate::container::lemma_read_local_file_header_faithful;
use crate::container::local_file_header_of;
use crate::endian::u32_be;
use crate::endian::u64_be;
use crate::error::answers;
use crate::error::DumpError;
use crate::error::FormatError;
use crate::error::PreconditionError;
use crate::invocation::InputKind;
use crate::payload::after_payload;
use crate::payload::lemma_after_payload_same_data;
use crate::payload::lemma_read_payload_faithful;
use crate::payload::payload_at;
use crate::payload::read_payload;
use crate::payload::PayloadView;
use crate::payload::UpdateEnginePayload;
use crate::payload::PAYLOAD_MAGIC;
use crate::source::RandomAccessSource;
use crate::source::SeekFrom;
use crate::source::SourceError;
use crate::source::SourceView;
use crate::zipfile::after_archive;
use crate::zipfile::after_entry;
use crate::zipfile::archive;
use crate::zipfile::read_entry;
use crate::zipfile::CentralDirectoryRecord;
use crate::zipfile::CentralDirectoryRecordView;
use crate::zipfile::ZipArchive;
use crate::zipfile::ZipEntry;
use crate::zipfile::ZipEntryView;
use vstd::prelude::*;

verus! {

/// The one version of the payload format that is dumped.
pub const SUPPORTED_VERSION: u64 = 2;

/// The name of the entry that holds the payload, `payload.bin`, as bytes.
pub open spec fn payload_name() -> Seq<u8> {
    seq![0x70u8, 0x61u8, 0x79u8, 0x6cu8, 0x6fu8, 0x61u8, 0x64u8, 0x2eu8, 0x62u8, 0x69u8, 0x6eu8]
}

/// Whether `name` is the name of the entry that holds the payload.
pub fn is_payload_name(name: &[u8]) -> (yes: bool)
    ensures
        yes == (name@ == payload_name()),
{
    let wanted: [u8; 11] = [0x70, 0x61, 0x79, 0x6c, 0x6f, 0x61, 0x64, 0x2e, 0x62, 0x69, 0x6e];
    if name.len() != 11 {
        return false;
    }
    let mut i: usize = 0;
    while i < 11
        invariant
            i <= 11,
            name@.len() == 11,
            wanted@ == payload_name(),
            forall|j: int| 0 <= j < i ==> name@[j] == wanted@[j],
        decreases 11 - i,
    {
        if name[i] != wanted[i] {
            return false;
        }
        i = i + 1;
    }
    assert(name@ =~= payload_name());
    true
}

/// A payload, which must be of the supported version.
pub open spec fn supported(found: Result<PayloadView, DumpError>) -> Result<PayloadView, DumpError> {
    match found {
        Err(e) => Err(e),
        Ok(found) => if found.version != SUPPORTED_VERSION {
            Err(DumpError::VersionMismatch(found.version))
        } else {
            Ok(found)
        },
    }
}

/// The payload at the cursor, which must be of the supported version.
pub open spec fn payload(source: SourceView) -> Result<PayloadView, DumpError> {
    supported(read_payload(source))
}

/// Reads the payload at the cursor of `source`. The whole payload is read
/// before its version is looked at.
pub fn dump_payload(source: &mut RandomAccessSource) -> (result: Result<UpdateEnginePayload, DumpError>)
    ensures
        final(source)@ == after_payload(old(source)@),
        match result {
            Ok(found) => {
                &&& payload(old(source)@) == Ok::<PayloadView, DumpError>(found@)
                &&& found@.version == SUPPORTED_VERSION
                &&& found@.manifest.len() == found@.manifest_size
            },
            Err(e) => payload(old(source)@) == Err::<PayloadView, DumpError>(e),
        },
{
    let found = UpdateEnginePayload::read(source)?;
    if found.version() != SUPPORTED_VERSION {
        return Err(DumpError::VersionMismatch(found.version()));
    }
    Ok(found)
}

/// A record that a dump passed over, and why.
#[derive(Debug)]
pub struct SkippedEntry {
    record: CentralDirectoryRecord,
    cause: DumpError,
}

/// A record that was passed over, as a mathematical value.
pub struct SkippedEntryView {
    pub record: CentralDirectoryRecordView,
    pub cause: DumpError,
}

impl View for SkippedEntry {
    type V = SkippedEntryView;

    closed spec fn view(&self) -> SkippedEntryView {
        SkippedEntryView { record: self.record@, cause: self.cause }
    }
}

impl SkippedEntry {
    /// The central-directory record of the entry.
    pub fn record(&self) -> (record: &CentralDirectoryRecord)
        ensures
            record@ == self@.record,
    {
        &self.record
    }

    /// Why the entry could not be read.
    pub fn cause(&self) -> (cause: DumpError)
        ensures
            cause == self@.cause,
    {
        self.cause
    }
}

/// The records of a sequence of skipped entries, with the causes.
pub open spec fn skipped_view(skipped: Seq<SkippedEntry>) -> Seq<SkippedEntryView> {
    skipped.map_values(|entry: SkippedEntry| entry@)
}

/// How a search for the payload entry ends: the source as the search leaves
/// it, the entry found, and the records passed over on the way.
pub struct Search {
    pub source: SourceView,
    pub found: Result<ZipEntryView, DumpError>,
    pub skipped: Seq<SkippedEntryView>,
}

/// The search for the payload entry from record `idx` on: the first entry
/// whose local header names `payload.bin`. A record whose entry cannot be
/// read is passed over, and noted with the cause; the search stops where
/// reading needs bytes that are not resident.
pub open spec fn find_payload_entry(
    source: SourceView,
    records: Seq<CentralDirectoryRecordView>,
    idx: int,
) -> Search
    decreases records.len() - idx,
{
    if idx < 0 || idx >= records.len() {
        Search { source, found: Err(DumpError::NotFound), skipped: Seq::empty() }
    } else {
        let next = after_entry(source, records[idx]);
        match read_entry(source, records[idx]) {
            Ok(entry) => if entry.local_file_header.filename == payload_name() {
                Search { source: next, found: Ok(entry), skipped: Seq::empty() }
            } else {
                find_payload_entry(next, records, idx + 1)
            },
            Err(e) => if e.missing().is_some() {
                Search { source: next, found: Err(e), skipped: Seq::empty() }
            } else {
                let rest = find_payload_entry(next, records, idx + 1);
                Search {
                    source: rest.source,
                    found: rest.found,
                    skipped: seq![SkippedEntryView { record: records[idx], cause: e }] + rest.skipped,
                }
            },
        }
    }
}

/// What the dump requires of the payload entry: that it is stored, and that
/// its two sizes agree.
pub open spec fn entry_precondition(entry: ZipEntryView) -> Result<(), DumpError> {
    if entry.local_file_header.compression != 0 {
        Err(DumpError::Precondition(PreconditionError::Compressed))
    } else if entry.local_file_header.compressed_size != entry.local_file_header.uncompressed_size {
        Err(DumpError::Precondition(PreconditionError::SizeMismatch))
    } else {
        Ok(())
    }
}

/// Tests what the dump requires of the payload entry.
pub fn check_entry(entry: &ZipEntry) -> (result: Result<(), DumpError>)
    ensures
        result == entry_precondition(entry@),
{
    if entry.is_compressed() {
        return Err(DumpError::Precondition(PreconditionError::Compressed));
    }
    if entry.get_compressed_size() != entry.get_uncompressed_size() {
        return Err(DumpError::Precondition(PreconditionError::SizeMismatch));
    }
    Ok(())
}

/// How a dump ends: the source as the dump leaves it, the payload, and the
/// records of the container that were passed over on the way.
pub struct Dump {
    pub source: SourceView,
    pub payload: Result<PayloadView, DumpError>,
    pub skipped: Seq<SkippedEntryView>,
}

/// The dump of a ZIP container: the payload in the data of the first entry
/// named `payload.bin`, which must be stored with equal sizes, or the first
/// error on the way to it.
pub open spec fn zip_payload(source: SourceView) -> Dump {
    match archive(source) {
        Err(e) => Dump { source: after_archive(source), payload: Err(e), skipped: Seq::empty() },
        Ok(opened) => {
            let search = find_payload_entry(
                after_archive(source).at(opened.eocd.central_directory_offset as int),
                opened.central_directory,
                0,
            );
            match search.found {
                Err(e) => Dump { source: search.source, payload: Err(e), skipped: search.skipped },
                Ok(entry) => match entry_precondition(entry) {
                    Err(e) => Dump { source: search.source, payload: Err(e), skipped: search.skipped },
                    Ok(_) => {
                        let positioned = search.source.at(entry.compressed_data_offset());
                        Dump {
                            source: after_payload(positioned),
                            payload: payload(positioned),
                            skipped: search.skipped,
                        }
                    },
                },
            }
        },
    }
}

/// Reads the payload out of the ZIP container in `source`. On return
/// `skipped` holds the records that this call passed over, in the order of
/// the central directory, whatever it held before.
pub fn dump_payload_zip(source: &mut RandomAccessSource, skipped: &mut Vec<SkippedEntry>) -> (result:
    Result<UpdateEnginePayload, DumpError>)
    ensures
        final(source)@ == zip_payload(old(source)@).source,
        skipped_view(final(skipped)@) == zip_payload(old(source)@).skipped,
        match result {
            Ok(found) => {
                &&& zip_payload(old(source)@).payload == Ok::<PayloadView, DumpError>(found@)
                &&& found@.version == SUPPORTED_VERSION
                &&& found@.manifest.len() == found@.manifest_size
            },
            Err(e) => zip_payload(old(source)@).payload == Err::<PayloadView, DumpError>(e),
        },
{
    skipped.clear();
    let ziparchive = ZipArchive::new(source)?;
    let mut entries = ziparchive.into_iter(source);
    let ghost records = ziparchive@.central_directory;
    let ghost whole = find_payload_entry(source@, records, 0);
    loop
        invariant
            entries@.records == records,
            entries@.wf(),
            records == ziparchive@.central_directory,
            find_payload_entry(source@, records, entries@.idx).source == whole.source,
            find_payload_entry(source@, records, entries@.idx).found == whole.found,
            skipped_view(skipped@) + find_payload_entry(source@, records, entries@.idx).skipped
                == whole.skipped,
            zip_payload(old(source)@) == match whole.found {
                Err(e) => Dump { source: whole.source, payload: Err(e), skipped: whole.skipped },
                Ok(entry) => match entry_precondition(entry) {
                    Err(e) => Dump { source: whole.source, payload: Err(e), skipped: whole.skipped },
                    Ok(_) => Dump {
                        source: after_payload(whole.source.at(entry.compressed_data_offset())),
                        payload: payload(whole.source.at(entry.compressed_data_offset())),
                        skipped: whole.skipped,
                    },
                },
            },
        decreases records.len() - entries@.idx,
    {
        let idx: usize = entries.position();
        match entries.next(source) {
            Ok(None) => {
                return Err(DumpError::NotFound);
            },
            Ok(Some(entry)) => {
                if is_payload_name(entry.filename_bytes()) {
                    check_entry(&entry)?;
                    let _ = ziparchive.get_compressed_data_file(source, &entry);
                    return dump_payload(source);
                }
            },
            Err(e) => {
                if e.request().is_some() {
                    return Err(e);
                }
                let record = ziparchive.central_directory()[idx].clone();
                skipped.push(SkippedEntry { record, cause: e });
            },
        }
    }
}

/// The dump of an input of the given kind. A remote input and a local one
/// whose name ends in `.zip` are containers; any other input is a payload
/// from its first byte on.
pub open spec fn dumped(source: SourceView, kind: InputKind) -> Dump {
    match kind {
        InputKind::LocalPayload => Dump {
            source: after_payload(source.at(0)),
            payload: payload(source.at(0)),
            skipped: Seq::empty(),
        },
        _ => zip_payload(source),
    }
}

/// Reads the payload out of an input of the given kind. The result does not
/// depend on where the cursor stands. Where it asks for bytes that are not
/// resident, the same call is to be made again once they are. On return
/// `skipped` holds the records of the container that this call passed over,
/// whatever it held before.
pub fn dump(source: &mut RandomAccessSource, kind: InputKind, skipped: &mut Vec<SkippedEntry>) -> (result:
    Result<UpdateEnginePayload, DumpError>)
    ensures
        final(source)@ == dumped(old(source)@, kind).source,
        skipped_view(final(skipped)@) == dumped(old(source)@, kind).skipped,
        match result {
            Ok(found) => {
                &&& dumped(old(source)@, kind).payload == Ok::<PayloadView, DumpError>(found@)
                &&& found@.version == SUPPORTED_VERSION
                &&& found@.manifest.len() == found@.manifest_size
            },
            Err(e) => dumped(old(source)@, kind).payload == Err::<PayloadView, DumpError>(e),
        },
{
    match kind {
        InputKind::LocalPayload => {
            skipped.clear();
            let _ = source.seek(SeekFrom::Start(0));
            dump_payload(source)
        },
        _ => dump_payload_zip(source, skipped),
    }
}

/// What a dump gives does not depend on where the cursor stands before it.
pub proof fn lemma_dump_ignores_the_cursor(source: SourceView, pos: int, kind: InputKind)
    ensures
        dumped(source.at(pos), kind).payload == dumped(source, kind).payload,
        dumped(source.at(pos), kind).skipped == dumped(source, kind).skipped,
{
    assert(source.at(pos).at(0) == source.at(0));
    if archive(source) is Ok {
        assert(after_archive(source.at(pos)) == after_archive(source));
    }
}

/// The payload entry of a container, from its bytes: the first record from
/// `idx` on that names a well-formed local header whose file name is
/// `payload.bin`, with that header.
pub open spec fn payload_entry_of(
    content: Seq<u8>,
    records: Seq<CentralDirectoryRecordView>,
    idx: int,
) -> Result<ZipEntryView, DumpError>
    decreases records.len() - idx,
{
    if idx < 0 || idx >= records.len() {
        Err(DumpError::NotFound)
    } else {
        match local_file_header_of(content, records[idx].local_file_header_offset as int) {
            Ok(header) => if header.filename == payload_name() {
                Ok(ZipEntryView { central_directory_record: records[idx], local_file_header: header })
            } else {
                payload_entry_of(content, records, idx + 1)
            },
            Err(_) => payload_entry_of(content, records, idx + 1),
        }
    }
}

/// The records of a container that a search for the payload entry passes
/// over, from its bytes: those, from `idx` on and before the payload entry,
/// that name no well-formed local header.
pub open spec fn skipped_of(
    content: Seq<u8>,
    records: Seq<CentralDirectoryRecordView>,
    idx: int,
) -> Seq<SkippedEntryView>
    decreases records.len() - idx,
{
    if idx < 0 || idx >= records.len() {
        Seq::empty()
    } else {
        match local_file_header_of(content, records[idx].local_file_header_offset as int) {
            Ok(header) => if header.filename == payload_name() {
                Seq::empty()
            } else {
                skipped_of(content, records, idx + 1)
            },
            Err(e) => seq![SkippedEntryView { record: records[idx], cause: e }] + skipped_of(
                content,
                records,
                idx + 1,
            ),
        }
    }
}

/// The dump of a container, from its bytes: the payload of the supported
/// version that stands where the data of the payload entry begins, the entry
/// being stored with equal sizes.
pub open spec fn zip_payload_of(content: Seq<u8>) -> Result<PayloadView, DumpError> {
    match archive_of(content) {
        Err(e) => Err(e),
        Ok(opened) => match payload_entry_of(content, opened.central_directory, 0) {
            Err(e) => Err(e),
            Ok(entry) => match entry_precondition(entry) {
                Err(e) => Err(e),
                Ok(_) => supported(payload_at(content, entry.compressed_data_offset())),
            },
        },
    }
}

/// The records that a dump of a container passes over, from its bytes.
pub open spec fn zip_skipped_of(content: Seq<u8>) -> Seq<SkippedEntryView> {
    match archive_of(content) {
        Err(_) => Seq::empty(),
        Ok(opened) => skipped_of(content, opened.central_directory, 0),
    }
}

/// Whether a dump asks for bytes.
pub open spec fn asks(payload: Result<PayloadView, DumpError>) -> bool {
    payload matches Err(e) && e.missing().is_some()
}

/// In a source that is faithful to a container, the search for the payload
/// entry finds the payload entry of the container, and passes over the
/// records that name no well-formed local header.
pub proof fn lemma_find_payload_entry_faithful(
    source: SourceView,
    content: Seq<u8>,
    records: Seq<CentralDirectoryRecordView>,
    idx: int,
)
    requires
        source.faithful_to(content),
        content.len() <= u64::MAX,
        0 <= idx <= records.len(),
    ensures
        ({
            let search = find_payload_entry(source, records, idx);
            &&& answers(source, content, search.found, payload_entry_of(content, records, idx))
            &&& search.found == payload_entry_of(content, records, idx) ==> search.skipped
                == skipped_of(content, records, idx)
            &&& search.source.same_data(source)
        }),
    decreases records.len() - idx,
{
    if idx < records.len() {
        let record = records[idx];
        lemma_read_local_file_header_faithful(
            source,
            content,
            record.local_file_header_offset as int,
        );
        lemma_after_entry_same_data(source, record);
        lemma_find_payload_entry_faithful(after_entry(source, record), content, records, idx + 1);
        lemma_payload_entry_is_never_a_request(content, records, idx);
        lemma_payload_entry_is_never_a_request(content, records, idx + 1);
    }
}

/// The payload entry of a container is there or not: the bytes of a
/// container never ask for bytes.
pub proof fn lemma_payload_entry_is_never_a_request(
    content: Seq<u8>,
    records: Seq<CentralDirectoryRecordView>,
    idx: int,
)
    ensures
        payload_entry_of(content, records, idx) matches Err(e) ==> e == DumpError::NotFound,
    decreases records.len() - idx,
{
    if 0 <= idx < records.len() {
        lemma_payload_entry_is_never_a_request(content, records, idx + 1);
    }
}

/// The dump of an input of the given kind, from its bytes.
pub open spec fn dumped_of(content: Seq<u8>, kind: InputKind) -> Result<PayloadView, DumpError> {
    match kind {
        InputKind::LocalPayload => supported(payload_at(content, 0)),
        _ => zip_payload_of(content),
    }
}

/// The records that a dump of an input of the given kind passes over, from
/// its bytes.
pub open spec fn dumped_skipped_of(content: Seq<u8>, kind: InputKind) -> Seq<SkippedEntryView> {
    match kind {
        InputKind::LocalPayload => Seq::empty(),
        _ => zip_skipped_of(content),
    }
}

/// A dump never gives a wrong answer. In a source that is faithful to an
/// input, the dump gives the payload that the bytes of the input determine,
/// or their error; or, where the source does not hold all of the input, it
/// asks for bytes. Unless it asks for bytes, it has passed over the records
/// that the bytes of the input determine. It leaves the bytes of the source
/// as they are.
pub proof fn lemma_dump_faithful(source: SourceView, content: Seq<u8>, kind: InputKind)
    requires
        source.faithful_to(content),
        content.len() <= u64::MAX,
    ensures
        answers(source, content, dumped(source, kind).payload, dumped_of(content, kind)),
        asks(dumped(source, kind).payload) || dumped(source, kind).skipped == dumped_skipped_of(
            content,
            kind,
        ),
        dumped(source, kind).source.same_data(source),
{
    match kind {
        InputKind::LocalPayload => {
            lemma_read_payload_faithful(source, content, 0);
            lemma_after_payload_same_data(source.at(0));
        },
        _ => {
            lemma_zip_payload_faithful(source, content);
        },
    }
}

/// In a source that is faithful to a container, the dump gives the payload
/// that the bytes of the container determine.
pub proof fn lemma_zip_payload_faithful(source: SourceView, content: Seq<u8>)
    requires
        source.faithful_to(content),
        content.len() <= u64::MAX,
    ensures
        answers(source, content, zip_payload(source).payload, zip_payload_of(content)),
        asks(zip_payload(source).payload) || zip_payload(source).skipped == zip_skipped_of(content),
        zip_payload(source).source.same_data(source),
{
    lemma_archive_faithful(source, content);
    lemma_after_archive_same_data(source);
    match archive(source) {
        Err(_) => {},
        Ok(opened) => {
            let start = after_archive(source).at(opened.eocd.central_directory_offset as int);
            lemma_find_payload_entry_faithful(start, content, opened.central_directory, 0);
            lemma_payload_entry_is_never_a_request(content, opened.central_directory, 0);
            let search = find_payload_entry(start, opened.central_directory, 0);
            match search.found {
                Err(_) => {},
                Ok(entry) => {
                    lemma_read_payload_faithful(
                        search.source,
                        content,
                        entry.compressed_data_offset(),
                    );
                    lemma_after_payload_same_data(search.source.at(entry.compressed_data_offset()));
                },
            }
        },
    }
}

/// In a source that is faithful to `content`, the payload read at `at` is
/// the payload of the supported version that the content holds there.
pub proof fn lemma_payload_faithful(source: SourceView, content: Seq<u8>, at: int)
    requires
        source.faithful_to(content),
        content.len() <= u64::MAX,
        0 <= at,
    ensures
        answers(source, content, payload(source.at(at)), supported(payload_at(content, at))),
{
    lemma_read_payload_faithful(source, content, at);
}

/// A dump of bytes that do not begin with the magic gives a format error.
pub proof fn lemma_dump_of_bad_magic(source: SourceView, content: Seq<u8>, at: int)
    requires
        source.faithful_to(content),
        content.len() <= u64::MAX,
        0 <= at,
        at + 4 <= content.len(),
        u32_be(content, at) != PAYLOAD_MAGIC,
    ensures
        answers(
            source,
            content,
            payload(source.at(at)),
            Err(DumpError::Format(FormatError::BadMagic)),
        ),
{
    lemma_read_payload_faithful(source, content, at);
}

/// A dump of a payload of the supported version whose manifest is cut
/// short gives a failed read, and no payload.
pub proof fn lemma_dump_of_truncated_manifest(source: SourceView, content: Seq<u8>, at: int)
    requires
        source.faithful_to(content),
        content.len() <= u64::MAX,
        0 <= at,
        at + 24 <= content.len(),
        u32_be(content, at) == PAYLOAD_MAGIC,
        u64_be(content, at + 4) == SUPPORTED_VERSION,
        at + 24 + u64_be(content, at + 12) > content.len(),
    ensures
        answers(
            source,
            content,
            payload(source.at(at)),
            Err(DumpError::Io(SourceError::UnexpectedEof)),
        ),
{
    lemma_read_payload_faithful(source, content, at);
}

} // verus!
