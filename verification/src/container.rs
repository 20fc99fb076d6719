//! A ZIP container as its bytes: what the reader of a source that is
//! faithful to the container finds in it.

use crate::endian::u16_le;
use crate::endian::u32_le;
use crate::error::answers;
use crate::error::DumpError;
use crate::error::FormatError;
use crate::source::lemma_read_faithful;
use crate::source::read_content;
use crate::source::SourceError;
use crate::source::SourceView;
use crate::zipfile::after_archive;
use crate::zipfile::after_entry;
use crate::zipfile::after_local_file_header;
use crate::zipfile::archive;
use crate::zipfile::central_directory;
use crate::zipfile::end_of_central_directory;
use crate::zipfile::eocd_at;
use crate::zipfile::eocd_fields;
use crate::zipfile::eocd_in_window;
use crate::zipfile::eocd_window_start;
use crate::zipfile::first_signature_at;
use crate::zipfile::lemma_single_signature_is_first;
use crate::zipfile::local_file_header_at;
use crate::zipfile::local_file_header_fields;
use crate::zipfile::read_entry;
use crate::zipfile::read_local_file_header;
use crate::zipfile::signature_at;
use crate::zipfile::CentralDirectoryRecordView;
use crate::zipfile::EocdView;
use crate::zipfile::LocalFileHeaderView;
use crate::zipfile::ZipArchiveView;
use crate::zipfile::ZipEntryView;
use crate::zipfile::EOCD_SIGNATURE;
use crate::zipfile::LOCAL_FILE_SIGNATURE;
use vstd::prelude::*;

verus! {

/// The trailing window of a container: what is searched for the
/// end-of-central-directory record.
pub open spec fn trailing_window(content: Seq<u8>) -> Seq<u8> {
    content.subrange(eocd_window_start(content.len() as int), content.len() as int)
}

/// A signature stands in the trailing window where it stands in the
/// container.
pub proof fn lemma_signature_in_window(content: Seq<u8>, at: int, signature: u32)
    requires
        0 <= at,
    ensures
        signature_at(trailing_window(content), at, signature) == signature_at(
            content,
            eocd_window_start(content.len() as int) + at,
            signature,
        ),
{
}

/// A record parses in the trailing window as it parses in the container.
pub proof fn lemma_eocd_in_window(content: Seq<u8>, at: int)
    requires
        0 <= at,
    ensures
        eocd_at(trailing_window(content), at) == eocd_at(
            content,
            eocd_window_start(content.len() as int) + at,
        ),
{
    reveal(eocd_fields);
    let start = eocd_window_start(content.len() as int);
    let window = trailing_window(content);
    if at + 4 <= window.len() && u32_le(window, at) == EOCD_SIGNATURE && at + 22 + u16_le(window, at + 20)
        <= window.len() {
        let n = u16_le(window, at + 20);
        assert(window.subrange(at + 22, at + 22 + n) =~= content.subrange(
            start + at + 22,
            start + at + 22 + n,
        ));
    }
}

/// Where the signature of the end-of-central-directory record occurs exactly
/// once within the trailing window of a container, at `offset`, the search
/// finds that occurrence and no other, and the record found is the one that
/// begins at `offset`.
pub proof fn lemma_locate_eocd_single_occurrence(content: Seq<u8>, offset: int)
    requires
        eocd_window_start(content.len() as int) <= offset,
        signature_at(content, offset, EOCD_SIGNATURE),
        forall|j: int|
            eocd_window_start(content.len() as int) <= j && signature_at(content, j, EOCD_SIGNATURE)
                ==> j == offset,
    ensures
        first_signature_at(
            trailing_window(content),
            offset - eocd_window_start(content.len() as int),
            EOCD_SIGNATURE,
        ),
        forall|k: int|
            first_signature_at(trailing_window(content), k, EOCD_SIGNATURE) ==> k == offset
                - eocd_window_start(content.len() as int),
        eocd_in_window(trailing_window(content)) == eocd_at(content, offset),
{
    let start = eocd_window_start(content.len() as int);
    let window = trailing_window(content);
    lemma_signature_in_window(content, offset - start, EOCD_SIGNATURE);
    assert forall|j: int| signature_at(window, j, EOCD_SIGNATURE) implies j == offset - start by {
        lemma_signature_in_window(content, j, EOCD_SIGNATURE);
    }
    lemma_single_signature_is_first(window, offset - start, EOCD_SIGNATURE);
    lemma_eocd_in_window(content, offset - start);
}

/// The end-of-central-directory record of a container, from its bytes: the
/// one in its trailing window.
pub open spec fn end_of_central_directory_of(content: Seq<u8>) -> Result<EocdView, DumpError> {
    match eocd_in_window(trailing_window(content)) {
        Ok(record) => Ok(record),
        Err(e) => Err(DumpError::Format(e)),
    }
}

/// In a source that is faithful to a container, the search for the
/// end-of-central-directory record finds the one of the container.
pub proof fn lemma_end_of_central_directory_faithful(source: SourceView, content: Seq<u8>)
    requires
        source.faithful_to(content),
        content.len() <= u64::MAX,
    ensures
        answers(source, content, end_of_central_directory(source), end_of_central_directory_of(content)),
{
    let len = content.len() as int;
    let start = eocd_window_start(len);
    lemma_read_faithful(source, content, start, len - start);
}

/// The local file header that a container holds at `at`, as reading it
/// there gives it: a header that its bytes cut short is a failed read.
pub open spec fn local_file_header_of(content: Seq<u8>, at: int) -> Result<LocalFileHeaderView, DumpError> {
    match local_file_header_at(content, at) {
        Ok(header) => Ok(header),
        Err(FormatError::Truncated) => Err(DumpError::Io(SourceError::UnexpectedEof)),
        Err(e) => Err(DumpError::Format(e)),
    }
}

/// In a source that is faithful to a container, reading a local file header
/// at `at` gives the header that the container holds there.
pub proof fn lemma_read_local_file_header_faithful(source: SourceView, content: Seq<u8>, at: int)
    requires
        source.faithful_to(content),
        content.len() <= u64::MAX,
        0 <= at,
    ensures
        answers(
            source,
            content,
            read_local_file_header(source.at(at)),
            local_file_header_of(content, at),
        ),
{
    reveal(read_local_file_header);
    let s0 = source.at(at);
    lemma_read_faithful(s0, content, at, 4);
    if s0.read_result(4) == read_content(content, at, 4) && at + 4 <= content.len() {
        let signature = content.subrange(at, at + 4);
        let s1 = s0.after_read(4);
        lemma_read_faithful(s1, content, at + 4, 26);
        if u32_le(content, at) == LOCAL_FILE_SIGNATURE && s1.read_result(26) == read_content(
            content,
            at + 4,
            26,
        ) && at + 30 <= content.len() {
            let fields = content.subrange(at + 4, at + 30);
            let n = u16_le(fields, 22) + u16_le(fields, 24);
            let s2 = s1.after_read(26);
            lemma_read_faithful(s2, content, at + 30, n);
            if s2.read_result(n) == read_content(content, at + 30, n) && at + 30 + n
                <= content.len() {
                let variable = content.subrange(at + 30, at + 30 + n);
                assert(s2.read_result(n) == Ok::<Seq<u8>, SourceError>(variable)) by {
                    assert(n == 0 ==> variable =~= Seq::<u8>::empty());
                }
                let all = signature + fields + variable;
                assert(all =~= content.subrange(at, at + 30 + n));
                lemma_local_file_header_in_range(content, at, at + 30 + n);
            }
        }
    }
}

/// A local file header parses in the bytes that it takes as it parses in
/// the container.
pub proof fn lemma_local_file_header_in_range(content: Seq<u8>, at: int, end: int)
    requires
        0 <= at,
        end <= content.len(),
        at + 30 <= end,
        at + 30 + u16_le(content, at + 26) + u16_le(content, at + 28) <= end,
    ensures
        local_file_header_at(content.subrange(at, end), 0) == local_file_header_at(content, at),
{
    reveal(local_file_header_fields);
    let part = content.subrange(at, end);
    let names = u16_le(content, at + 26);
    let extras = u16_le(content, at + 28);
    assert(part.subrange(30, 30 + names) =~= content.subrange(at + 30, at + 30 + names));
    assert(part.subrange(30 + names, 30 + names + extras) =~= content.subrange(
        at + 30 + names,
        at + 30 + names + extras,
    ));
}

/// The records, from `idx` on, whose entries an iteration yields, by their
/// places in the central directory: those whose entry can be read.
pub open spec fn yielded_records(
    source: SourceView,
    records: Seq<CentralDirectoryRecordView>,
    idx: int,
) -> Seq<int>
    decreases records.len() - idx,
{
    if idx < 0 || idx >= records.len() {
        Seq::empty()
    } else if read_entry(source, records[idx]) is Ok {
        seq![idx] + yielded_records(source, records, idx + 1)
    } else {
        yielded_records(source, records, idx + 1)
    }
}

/// The entries that an iteration yields from record `idx` on, once every
/// range that it reads is resident: step by step, the entry of each record
/// that can be read.
pub open spec fn entries_from(
    source: SourceView,
    records: Seq<CentralDirectoryRecordView>,
    idx: int,
) -> Seq<ZipEntryView>
    decreases records.len() - idx,
{
    if idx < 0 || idx >= records.len() {
        Seq::empty()
    } else {
        match read_entry(source, records[idx]) {
            Ok(entry) => seq![entry] + entries_from(after_entry(source, records[idx]), records, idx + 1),
            Err(_) => entries_from(after_entry(source, records[idx]), records, idx + 1),
        }
    }
}

/// Reading an entry moves the cursor and nothing else.
pub proof fn lemma_after_entry_same_data(source: SourceView, record: CentralDirectoryRecordView)
    ensures
        after_entry(source, record).same_data(source),
{
    reveal(after_local_file_header);
}

/// What reading an entry gives does not depend on where the cursor stands.
pub proof fn lemma_read_entry_same_data(
    source: SourceView,
    other: SourceView,
    record: CentralDirectoryRecordView,
)
    requires
        source.same_data(other),
    ensures
        read_entry(source, record) == read_entry(other, record),
{
}

/// An iteration yields the entries of the records that can be read, one for
/// each, in the order of the central directory: entry `k` is that of the
/// `k`-th such record, and those records come in increasing order. So it
/// yields at most as many entries as there are records left.
pub proof fn lemma_entries_in_directory_order(
    source: SourceView,
    records: Seq<CentralDirectoryRecordView>,
    idx: int,
)
    requires
        0 <= idx <= records.len(),
    ensures
        entries_from(source, records, idx).len() == yielded_records(source, records, idx).len(),
        entries_from(source, records, idx).len() <= records.len() - idx,
        forall|k: int|
            0 <= k < yielded_records(source, records, idx).len() ==> {
                let i = #[trigger] yielded_records(source, records, idx)[k];
                &&& idx <= i < records.len()
                &&& k <= i - idx
                &&& read_entry(source, records[i]) == Ok::<ZipEntryView, DumpError>(
                    entries_from(source, records, idx)[k],
                )
                &&& entries_from(source, records, idx)[k].central_directory_record == records[i]
            },
        forall|k: int, l: int|
            0 <= k < l < yielded_records(source, records, idx).len() ==> yielded_records(
                source,
                records,
                idx,
            )[k] < yielded_records(source, records, idx)[l],
        forall|i: int|
            idx <= i < records.len() && read_entry(source, records[i]) is Ok ==> yielded_records(
                source,
                records,
                idx,
            ).contains(i),
    decreases records.len() - idx,
{
    if idx < records.len() {
        let next = after_entry(source, records[idx]);
        lemma_after_entry_same_data(source, records[idx]);
        lemma_entries_in_directory_order(source, records, idx + 1);
        lemma_entries_same_data(next, source, records, idx + 1);
        let rest = yielded_records(source, records, idx + 1);
        let all = yielded_records(source, records, idx);
        if read_entry(source, records[idx]) is Ok {
            assert(all[0] == idx);
            assert forall|k: int| 1 <= k < all.len() implies all[k] == rest[k - 1] by {}
            assert forall|i: int|
                idx <= i < records.len() && read_entry(source, records[i]) is Ok implies all.contains(
                i,
            ) by {
                if i > idx {
                    assert(rest.contains(i));
                    let k = choose|k: int| 0 <= k < rest.len() && rest[k] == i;
                    assert(all[k + 1] == i);
                }
            }
            assert forall|k: int, l: int| 0 <= k < l < all.len() implies all[k] < all[l] by {
                if k > 0 {
                    assert(rest[k - 1] < rest[l - 1]);
                } else {
                    assert(all[l] == rest[l - 1]);
                }
            }
        } else {
            assert(all == rest);
        }
    }
}

/// What an iteration yields does not depend on where the cursor stands.
pub proof fn lemma_entries_same_data(
    source: SourceView,
    other: SourceView,
    records: Seq<CentralDirectoryRecordView>,
    idx: int,
)
    requires
        source.same_data(other),
    ensures
        entries_from(source, records, idx) == entries_from(other, records, idx),
        yielded_records(source, records, idx) == yielded_records(other, records, idx),
    decreases records.len() - idx,
{
    if 0 <= idx < records.len() {
        lemma_read_entry_same_data(source, other, records[idx]);
        lemma_after_entry_same_data(source, records[idx]);
        lemma_after_entry_same_data(other, records[idx]);
        lemma_entries_same_data(
            after_entry(source, records[idx]),
            after_entry(other, records[idx]),
            records,
            idx + 1,
        );
        lemma_entries_same_data(source, other, records, idx + 1);
    }
}

/// Where the entry of every record can be read, an iteration yields exactly
/// one entry for each record, record by record.
pub proof fn lemma_entries_complete(
    source: SourceView,
    records: Seq<CentralDirectoryRecordView>,
    idx: int,
)
    requires
        0 <= idx <= records.len(),
        forall|i: int| idx <= i < records.len() ==> read_entry(source, #[trigger] records[i]) is Ok,
    ensures
        entries_from(source, records, idx).len() == records.len() - idx,
        forall|k: int|
            0 <= k < records.len() - idx ==> read_entry(source, records[idx + k]) == Ok::<
                ZipEntryView,
                DumpError,
            >(#[trigger] entries_from(source, records, idx)[k]),
    decreases records.len() - idx,
{
    if idx < records.len() {
        let next = after_entry(source, records[idx]);
        lemma_after_entry_same_data(source, records[idx]);
        lemma_entries_same_data(next, source, records, idx + 1);
        lemma_entries_complete(source, records, idx + 1);
        let all = entries_from(source, records, idx);
        let rest = entries_from(source, records, idx + 1);
        assert forall|k: int| 0 <= k < records.len() - idx implies read_entry(
            source,
            records[idx + k],
        ) == Ok::<ZipEntryView, DumpError>(#[trigger] all[k]) by {
            if k > 0 {
                assert(all[k] == rest[k - 1]);
            }
        }
    }
}

/// In a source that holds all of a container in which every record of the
/// central directory names a well-formed local header, an iteration yields
/// exactly one entry for each record: the record with the header that the
/// container holds at the offset that the record names.
pub proof fn lemma_entries_of_well_formed_container(
    source: SourceView,
    content: Seq<u8>,
    records: Seq<CentralDirectoryRecordView>,
)
    requires
        source.holds(content),
        content.len() <= u64::MAX,
        forall|i: int|
            0 <= i < records.len() ==> local_file_header_at(
                content,
                (#[trigger] records[i]).local_file_header_offset as int,
            ) is Ok,
    ensures
        entries_from(source, records, 0).len() == records.len(),
        forall|i: int|
            0 <= i < records.len() ==> (#[trigger] entries_from(source, records, 0)[i]) == (
            ZipEntryView {
                central_directory_record: records[i],
                local_file_header: local_file_header_at(
                    content,
                    records[i].local_file_header_offset as int,
                )->Ok_0,
            }),
{
    assert forall|i: int| 0 <= i < records.len() implies read_entry(source, #[trigger] records[i])
        == Ok::<ZipEntryView, DumpError>(
        ZipEntryView {
            central_directory_record: records[i],
            local_file_header: local_file_header_at(
                content,
                records[i].local_file_header_offset as int,
            )->Ok_0,
        },
    ) by {
        lemma_read_local_file_header_faithful(
            source,
            content,
            records[i].local_file_header_offset as int,
        );
    }
    lemma_entries_complete(source, records, 0);
}

/// The index of a container, from its bytes: the end-of-central-directory
/// record in the trailing window, and the records of the central directory
/// that it points to.
pub open spec fn archive_of(content: Seq<u8>) -> Result<ZipArchiveView, DumpError> {
    match eocd_in_window(trailing_window(content)) {
        Err(e) => Err(DumpError::Format(e)),
        Ok(eocd) => match read_content(
            content,
            eocd.central_directory_offset as int,
            eocd.central_directory_size as int,
        ) {
            Err(e) => Err(DumpError::Io(e)),
            Ok(block) => match central_directory(block, eocd.num_central_directory_records as nat) {
                Err(e) => Err(DumpError::Format(e)),
                Ok(records) => Ok(ZipArchiveView { eocd, central_directory: records }),
            },
        },
    }
}

/// In a source that is faithful to a container, the index read is the index
/// of the container.
pub proof fn lemma_archive_faithful(source: SourceView, content: Seq<u8>)
    requires
        source.faithful_to(content),
        content.len() <= u64::MAX,
    ensures
        answers(source, content, archive(source), archive_of(content)),
{
    lemma_end_of_central_directory_faithful(source, content);
    match eocd_in_window(trailing_window(content)) {
        Err(_) => {},
        Ok(eocd) => {
            lemma_read_faithful(
                source,
                content,
                eocd.central_directory_offset as int,
                eocd.central_directory_size as int,
            );
        },
    }
}

/// Reading the index moves the cursor and nothing else.
pub proof fn lemma_after_archive_same_data(source: SourceView)
    ensures
        after_archive(source).same_data(source),
{
}

} // verus!
