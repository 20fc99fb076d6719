use payload_dumper::error::DumpError;
use payload_dumper::error::FormatError;
use payload_dumper::source::RandomAccessSource;
use payload_dumper::source::ReadRequest;
use payload_dumper::source::SeekFrom;
use payload_dumper::source::SourceError;
use payload_dumper::zipfile::find_signature;
use payload_dumper::zipfile::locate_end_of_central_directory;
use payload_dumper::zipfile::locate_eocd;
use payload_dumper::zipfile::parse_central_directory;
use payload_dumper::zipfile::CentralDirectoryRecord;
use payload_dumper::zipfile::EndOfCentralDirectory;
use payload_dumper::zipfile::LocalFileHeader;
use payload_dumper::zipfile::ZipArchive;
use payload_dumper::zipfile::CENTRAL_DIRECTORY_SIGNATURE;
use payload_dumper::zipfile::EOCD_SIGNATURE;
use payload_dumper::zipfile::LOCAL_FILE_SIGNATURE;

struct Member {
    name: Vec<u8>,
    data: Vec<u8>,
    method: u16,
    local_extra: Vec<u8>,
    central_extra: Vec<u8>,
    comment: Vec<u8>,
}

fn member(name: &str, data: &[u8]) -> Member {
    Member {
        name: name.as_bytes().to_vec(),
        data: data.to_vec(),
        method: 0,
        local_extra: vec![],
        central_extra: vec![],
        comment: vec![],
    }
}

fn put16(out: &mut Vec<u8>, value: u16) {
    out.extend_from_slice(&value.to_le_bytes());
}

fn put32(out: &mut Vec<u8>, value: u32) {
    out.extend_from_slice(&value.to_le_bytes());
}

fn local_header(m: &Member) -> Vec<u8> {
    let mut out = vec![0x50, 0x4b, 0x03, 0x04];
    put16(&mut out, 20);
    put16(&mut out, 0x0800);
    put16(&mut out, m.method);
    put16(&mut out, 0x6789);
    put16(&mut out, 0x5a21);
    put32(&mut out, 0xdeadbeef);
    put32(&mut out, m.data.len() as u32);
    put32(&mut out, m.data.len() as u32);
    put16(&mut out, m.name.len() as u16);
    put16(&mut out, m.local_extra.len() as u16);
    out.extend_from_slice(&m.name);
    out.extend_from_slice(&m.local_extra);
    out
}

fn central_record(m: &Member, offset: u32) -> Vec<u8> {
    let mut out = vec![0x50, 0x4b, 0x01, 0x02];
    put16(&mut out, 0x031e);
    put16(&mut out, 20);
    put16(&mut out, 0x0800);
    put16(&mut out, m.method);
    put16(&mut out, 0x6789);
    put16(&mut out, 0x5a21);
    put32(&mut out, 0xdeadbeef);
    put32(&mut out, m.data.len() as u32);
    put32(&mut out, m.data.len() as u32);
    put16(&mut out, m.name.len() as u16);
    put16(&mut out, m.central_extra.len() as u16);
    put16(&mut out, m.comment.len() as u16);
    put16(&mut out, 0);
    put16(&mut out, 1);
    put32(&mut out, 0x81a40000);
    put32(&mut out, offset);
    out.extend_from_slice(&m.name);
    out.extend_from_slice(&m.central_extra);
    out.extend_from_slice(&m.comment);
    out
}

fn trailer(count: u16, size: u32, offset: u32, comment: &[u8]) -> Vec<u8> {
    let mut out = vec![0x50, 0x4b, 0x05, 0x06];
    put16(&mut out, 0);
    put16(&mut out, 0);
    put16(&mut out, count);
    put16(&mut out, count);
    put32(&mut out, size);
    put32(&mut out, offset);
    put16(&mut out, comment.len() as u16);
    out.extend_from_slice(comment);
    out
}

fn container(members: &[Member], comment: &[u8]) -> (Vec<u8>, Vec<u32>, u32) {
    let mut out = Vec::new();
    let mut offsets = Vec::new();
    for m in members {
        offsets.push(out.len() as u32);
        out.extend_from_slice(&local_header(m));
        out.extend_from_slice(&m.data);
    }
    let directory = out.len() as u32;
    for (m, offset) in members.iter().zip(offsets.iter()) {
        out.extend_from_slice(&central_record(m, *offset));
    }
    let size = out.len() as u32 - directory;
    out.extend_from_slice(&trailer(members.len() as u16, size, directory, comment));
    (out, offsets, directory)
}

fn three_members() -> Vec<Member> {
    let mut second = member("dir/second.bin", &[7u8; 300]);
    second.method = 8;
    second.local_extra = vec![0xaa; 5];
    second.central_extra = vec![0xaa; 5];
    second.comment = b"a comment".to_vec();
    vec![member("first.txt", b"hello"), second, member("third", b"")]
}

#[test]
fn signatures_spell_the_magic_bytes() {
    assert_eq!(EOCD_SIGNATURE.to_le_bytes(), [0x50, 0x4b, 0x05, 0x06]);
    assert_eq!(CENTRAL_DIRECTORY_SIGNATURE.to_le_bytes(), [0x50, 0x4b, 0x01, 0x02]);
    assert_eq!(LOCAL_FILE_SIGNATURE.to_le_bytes(), [0x50, 0x4b, 0x03, 0x04]);
}

#[test]
fn find_signature_gives_the_first_occurrence() {
    let bytes = [0, 0x50, 0x4b, 0x05, 0x06, 9, 0x50, 0x4b, 0x05, 0x06];
    assert_eq!(find_signature(&bytes, EOCD_SIGNATURE), Some(1));
    assert_eq!(find_signature(&bytes[2..], EOCD_SIGNATURE), Some(4));
    assert_eq!(find_signature(&bytes[..4], EOCD_SIGNATURE), None);
    assert_eq!(find_signature(&bytes, LOCAL_FILE_SIGNATURE), None);
    assert_eq!(find_signature(&[], EOCD_SIGNATURE), None);
    assert_eq!(find_signature(&[0x50, 0x4b, 0x05], EOCD_SIGNATURE), None);
    assert_eq!(find_signature(&[0x50, 0x4b, 0x05, 0x06], EOCD_SIGNATURE), Some(0));
}

#[test]
fn find_signature_sees_overlapping_starts() {
    let bytes = [0x50, 0x50, 0x4b, 0x50, 0x4b, 0x05, 0x06];
    assert_eq!(find_signature(&bytes, EOCD_SIGNATURE), Some(3));
}

#[test]
fn locate_eocd_returns_the_single_occurrence() {
    let (bytes, _, directory) = container(&three_members(), b"");
    let expected = bytes.len() - 22;
    assert_eq!(locate_eocd(&bytes), Some(expected));
    let record = EndOfCentralDirectory::parse(&bytes, expected).unwrap();
    assert_eq!(record.num_central_directory_records(), 3);
    assert_eq!(record.central_directory_offset(), directory);
    assert_eq!(record.central_directory_size(), expected as u32 - directory);
}

#[test]
fn locate_eocd_in_a_long_container_searches_the_last_64_kib_only() {
    let mut early = member("early", &[0u8; 70000]);
    early.data[100..104].copy_from_slice(&[0x50, 0x4b, 0x05, 0x06]);
    let (bytes, _, directory) = container(&[early], b"");
    assert!(bytes.len() > 65536);
    assert_eq!(locate_eocd(&bytes), Some(30 + 5 + 100));
    let mut source = RandomAccessSource::from_bytes(bytes.clone());
    let record = locate_end_of_central_directory(&mut source).unwrap();
    assert_eq!(record.central_directory_offset(), directory);
    assert_eq!(record.num_central_directory_records(), 1);
    assert_eq!(source.stream_position(), bytes.len() as u64);
}

#[test]
fn window_is_the_whole_container_when_it_is_short() {
    let (bytes, _, directory) = container(&[member("a", b"xyz")], b"");
    assert!(bytes.len() < 65536);
    let mut source = RandomAccessSource::new(Some(bytes.len() as u64));
    let request = ReadRequest { offset: 0, len: bytes.len() as u64 };
    assert_eq!(
        locate_end_of_central_directory(&mut source).unwrap_err(),
        DumpError::Io(SourceError::Missing(request))
    );
    assert_eq!(source.supply(request, bytes.clone()), Ok(()));
    let record = locate_end_of_central_directory(&mut source).unwrap();
    assert_eq!(record.central_directory_offset(), directory);
}

#[test]
fn window_is_the_last_64_kib_when_the_container_is_long() {
    let (bytes, _, directory) = container(&[member("big", &[1u8; 100000])], b"");
    let len = bytes.len() as u64;
    let mut source = RandomAccessSource::new(Some(len));
    let request = ReadRequest { offset: len - 65536, len: 65536 };
    assert_eq!(
        locate_end_of_central_directory(&mut source).unwrap_err(),
        DumpError::Io(SourceError::Missing(request))
    );
    assert_eq!(source.stream_position(), len - 65536);
    let window = bytes[bytes.len() - 65536..].to_vec();
    assert_eq!(source.supply(request, window), Ok(()));
    let record = locate_end_of_central_directory(&mut source).unwrap();
    assert_eq!(record.central_directory_offset(), directory);
    assert_eq!(source.stream_position(), len);
}

#[test]
fn window_of_exactly_64_kib() {
    let (mut bytes, _, _) = container(&[member("a", b"")], b"");
    let pad = 65536 - bytes.len();
    let mut padded = vec![0u8; pad];
    padded.append(&mut bytes);
    assert_eq!(padded.len(), 65536);
    let mut source = RandomAccessSource::new(Some(65536));
    assert_eq!(
        locate_end_of_central_directory(&mut source).unwrap_err(),
        DumpError::Io(SourceError::Missing(ReadRequest { offset: 0, len: 65536 }))
    );
}

#[test]
fn signature_in_the_comment_before_the_record_does_not_matter() {
    let (bytes, _, directory) = container(&[member("a", b"x")], &[1, 0x50, 0x4b, 0x05, 0x06, 2]);
    let mut source = RandomAccessSource::from_bytes(bytes);
    let record = locate_end_of_central_directory(&mut source).unwrap();
    assert_eq!(record.central_directory_offset(), directory);
}

#[test]
fn first_signature_in_the_window_wins_even_when_it_is_not_the_record() {
    let mut decoy = member("decoy", &[0u8; 40]);
    decoy.data[0..4].copy_from_slice(&[0x50, 0x4b, 0x05, 0x06]);
    decoy.data[8..10].copy_from_slice(&[0x34, 0x12]);
    decoy.data[16..20].copy_from_slice(&[0x78, 0x56, 0x34, 0x12]);
    let (bytes, offsets, directory) = container(&[decoy], b"");
    let at = offsets[0] as usize + 30 + 5;
    assert_eq!(locate_eocd(&bytes), Some(at));
    let mut source = RandomAccessSource::from_bytes(bytes);
    let record = locate_end_of_central_directory(&mut source).unwrap();
    assert_eq!(record.num_central_directory_records(), 0x1234);
    assert_eq!(record.central_directory_offset(), 0x12345678);
    assert!(record.central_directory_offset() != directory);
}

#[test]
fn missing_signature_is_not_a_zip_container() {
    let mut source = RandomAccessSource::from_bytes(b"CrAU this is no container at all".to_vec());
    assert_eq!(
        locate_end_of_central_directory(&mut source).unwrap_err(),
        DumpError::Format(FormatError::EocdNotFound)
    );
    assert_eq!(
        ZipArchive::new(&mut source).unwrap_err(),
        DumpError::Format(FormatError::EocdNotFound)
    );
    assert_eq!(
        EndOfCentralDirectory::parse_window(b"nothing").unwrap_err(),
        FormatError::EocdNotFound
    );
}

#[test]
fn empty_input_is_not_a_zip_container() {
    let mut source = RandomAccessSource::from_bytes(vec![]);
    assert_eq!(
        ZipArchive::new(&mut source).unwrap_err(),
        DumpError::Format(FormatError::EocdNotFound)
    );
}

#[test]
fn locating_needs_the_length() {
    let mut source = RandomAccessSource::new(None);
    assert_eq!(
        locate_end_of_central_directory(&mut source).unwrap_err(),
        DumpError::Io(SourceError::UnknownLength)
    );
}

#[test]
fn trailer_cut_short_is_truncated() {
    let (bytes, _, _) = container(&[member("a", b"x")], b"comment");
    let cut = bytes[..bytes.len() - 1].to_vec();
    let mut source = RandomAccessSource::from_bytes(cut);
    assert_eq!(
        ZipArchive::new(&mut source).unwrap_err(),
        DumpError::Format(FormatError::Truncated)
    );
    let at = bytes.len() - 22 - 7;
    assert_eq!(
        EndOfCentralDirectory::parse(&bytes[..at + 21], at).unwrap_err(),
        FormatError::Truncated
    );
    assert_eq!(
        EndOfCentralDirectory::parse(&bytes[..at + 3], at).unwrap_err(),
        FormatError::Truncated
    );
    assert_eq!(
        EndOfCentralDirectory::parse(&bytes, bytes.len() + 1).unwrap_err(),
        FormatError::Truncated
    );
    assert!(EndOfCentralDirectory::parse(&bytes, at).is_ok());
}

#[test]
fn trailer_without_its_signature_is_refused() {
    let (bytes, _, _) = container(&[member("a", b"x")], b"");
    assert_eq!(
        EndOfCentralDirectory::parse(&bytes, 0).unwrap_err(),
        FormatError::BadSignature
    );
}

#[test]
fn central_directory_record_fields() {
    let members = three_members();
    let (bytes, offsets, directory) = container(&members, b"");
    let first = CentralDirectoryRecord::parse(&bytes, directory as usize).unwrap();
    assert_eq!(first.get_filename().unwrap(), "first.txt");
    assert_eq!(first.local_file_header_offset(), offsets[0]);
    assert_eq!(first.size(), 46 + 9);
    let second = CentralDirectoryRecord::parse(&bytes, directory as usize + first.size()).unwrap();
    assert_eq!(second.get_filename().unwrap(), "dir/second.bin");
    assert_eq!(second.local_file_header_offset(), offsets[1]);
    assert_eq!(second.size(), 46 + 14 + 5 + 9);
}

#[test]
fn central_directory_is_parsed_in_order() {
    let members = three_members();
    let (bytes, offsets, directory) = container(&members, b"");
    let block = &bytes[directory as usize..bytes.len() - 22];
    let records = parse_central_directory(block, 3).unwrap();
    assert_eq!(records.len(), 3);
    for (record, (m, offset)) in records.iter().zip(members.iter().zip(offsets.iter())) {
        assert_eq!(record.get_filename().unwrap().as_bytes(), &m.name[..]);
        assert_eq!(record.local_file_header_offset(), *offset);
    }
    assert_eq!(parse_central_directory(block, 2).unwrap().len(), 2);
    assert_eq!(parse_central_directory(block, 0).unwrap().len(), 0);
    assert_eq!(parse_central_directory(&[], 0).unwrap().len(), 0);
}

#[test]
fn central_directory_with_fewer_records_than_counted_is_truncated() {
    let (bytes, _, directory) = container(&three_members(), b"");
    let block = &bytes[directory as usize..bytes.len() - 22];
    assert_eq!(parse_central_directory(block, 4).unwrap_err(), FormatError::Truncated);
    assert_eq!(
        parse_central_directory(&block[..block.len() - 1], 3).unwrap_err(),
        FormatError::Truncated
    );
    assert_eq!(parse_central_directory(&block[..50], 1).unwrap_err(), FormatError::Truncated);
    assert_eq!(parse_central_directory(&block[..3], 1).unwrap_err(), FormatError::Truncated);
}

#[test]
fn central_directory_record_without_its_signature_is_refused() {
    let (bytes, _, directory) = container(&three_members(), b"");
    let block = &bytes[directory as usize..];
    assert_eq!(parse_central_directory(block, 4).unwrap_err(), FormatError::BadSignature);
    let mut broken = bytes[directory as usize..bytes.len() - 22].to_vec();
    broken[46 + 9] = 0x51;
    assert_eq!(parse_central_directory(&broken, 3).unwrap_err(), FormatError::BadSignature);
    assert_eq!(parse_central_directory(&broken, 1).unwrap().len(), 1);
}

#[test]
fn archive_holds_the_records_that_the_trailer_counts() {
    let members = three_members();
    let (bytes, offsets, directory) = container(&members, b"trailing comment");
    let end = bytes.len() as u64 - 22 - 16;
    let mut source = RandomAccessSource::from_bytes(bytes);
    let archive = ZipArchive::new(&mut source).unwrap();
    assert_eq!(source.stream_position(), end);
    let records = archive.central_directory();
    assert_eq!(records.len(), 3);
    assert_eq!(records[2].get_filename().unwrap(), "third");
    assert_eq!(records[2].local_file_header_offset(), offsets[2]);
    let entries = archive.into_iter(&mut source);
    assert_eq!(source.stream_position(), directory as u64);
    drop(entries);
}

#[test]
fn archive_with_a_directory_past_the_end_is_a_failed_read() {
    let m = member("a", b"x");
    let mut bytes = local_header(&m);
    bytes.extend_from_slice(&m.data);
    let directory = bytes.len() as u32;
    bytes.extend_from_slice(&central_record(&m, 0));
    let size = bytes.len() as u32 - directory;
    bytes.extend_from_slice(&trailer(1, size + 100, directory, b""));
    let mut source = RandomAccessSource::from_bytes(bytes);
    assert_eq!(
        ZipArchive::new(&mut source).unwrap_err(),
        DumpError::Io(SourceError::UnexpectedEof)
    );
    assert_eq!(source.stream_position(), directory as u64);
}

#[test]
fn iteration_yields_every_entry_in_directory_order() {
    let members = three_members();
    let (bytes, offsets, _) = container(&members, b"");
    let mut source = RandomAccessSource::from_bytes(bytes);
    let archive = ZipArchive::new(&mut source).unwrap();
    let mut entries = archive.into_iter(&mut source);
    for (m, offset) in members.iter().zip(offsets.iter()) {
        let entry = entries.next(&mut source).unwrap().unwrap();
        assert_eq!(entry.filename_bytes(), &m.name[..]);
        assert_eq!(entry.get_filename().unwrap().as_bytes(), &m.name[..]);
        assert_eq!(entry.get_compressed_size(), m.data.len());
        assert_eq!(entry.get_uncompressed_size(), m.data.len());
        assert_eq!(entry.is_compressed(), m.method != 0);
        assert_eq!(
            entry.get_compressed_data_offset(),
            *offset as u64 + 30 + m.central_extra.len() as u64 + m.name.len() as u64
        );
        assert_eq!(archive.get_compressed_data(&mut source, &entry).unwrap(), m.data);
    }
    assert!(entries.next(&mut source).unwrap().is_none());
    assert!(entries.next(&mut source).unwrap().is_none());
}

#[test]
fn data_offset_in_a_hand_built_container() {
    let mut m = member("payload.bin", b"0123456789");
    m.local_extra = vec![1, 2, 3, 4];
    m.central_extra = vec![1, 2, 3, 4];
    let (bytes, _, _) = container(&[member("x", b"abc"), m], b"");
    let mut source = RandomAccessSource::from_bytes(bytes.clone());
    let archive = ZipArchive::new(&mut source).unwrap();
    let mut entries = archive.into_iter(&mut source);
    let first = entries.next(&mut source).unwrap().unwrap();
    assert_eq!(first.get_compressed_data_offset(), 31);
    let second = entries.next(&mut source).unwrap().unwrap();
    assert_eq!(second.get_compressed_data_offset(), 34 + 30 + 4 + 11);
    assert_eq!(second.get_compressed_data_offset(), 79);
    assert_eq!(&bytes[79..89], b"0123456789");
    assert_eq!(archive.get_compressed_data_file(&mut source, &second), 79);
    assert_eq!(source.stream_position(), 79);
    assert_eq!(source.read_exact(10).unwrap(), b"0123456789");
    assert_eq!(archive.get_compressed_data(&mut source, &second).unwrap(), b"0123456789");
    assert_eq!(source.stream_position(), 89);
}

#[test]
fn data_offset_goes_by_the_lengths_in_the_central_directory() {
    let mut m = member("name", b"data");
    m.local_extra = vec![0; 8];
    m.central_extra = vec![0; 3];
    let (bytes, _, _) = container(&[m], b"");
    let mut source = RandomAccessSource::from_bytes(bytes);
    let archive = ZipArchive::new(&mut source).unwrap();
    let mut entries = archive.into_iter(&mut source);
    let entry = entries.next(&mut source).unwrap().unwrap();
    assert_eq!(entry.get_compressed_data_offset(), 30 + 3 + 4);
}

#[test]
fn data_offset_does_not_overflow_at_the_largest_values() {
    let mut m = member("", b"");
    m.name = vec![b'n'; 65535];
    m.central_extra = vec![0; 65535];
    m.local_extra = vec![0; 65535];
    let mut bytes = local_header(&m);
    let directory = bytes.len() as u32;
    let mut record = central_record(&m, 0);
    record[42..46].copy_from_slice(&u32::MAX.to_le_bytes());
    bytes.extend_from_slice(&record);
    let size = bytes.len() as u32 - directory;
    bytes.extend_from_slice(&trailer(1, size, directory, b""));
    let records = parse_central_directory(&bytes[directory as usize..], 1).unwrap();
    assert_eq!(records[0].local_file_header_offset(), u32::MAX);
    let mut source = RandomAccessSource::from_bytes(bytes.clone());
    let archive = ZipArchive::new(&mut source).unwrap();
    let mut entries = archive.into_iter(&mut source);
    assert_eq!(
        entries.next(&mut source).unwrap_err(),
        DumpError::Io(SourceError::UnexpectedEof)
    );
    let mut sparse = RandomAccessSource::new(Some(1 << 40));
    let at = u32::MAX as u64;
    assert_eq!(sparse.supply(ReadRequest { offset: at, len: bytes.len() as u64 }, bytes), Ok(()));
    let mut again = archive.into_iter(&mut sparse);
    let entry = again.next(&mut sparse).unwrap().unwrap();
    assert_eq!(entry.get_compressed_data_offset(), 4294967295 + 30 + 65535 + 65535);
}

#[test]
fn entry_with_a_broken_local_header_is_skipped() {
    let members = three_members();
    let (mut bytes, offsets, _) = container(&members, b"");
    bytes[offsets[1] as usize] = 0x51;
    let mut source = RandomAccessSource::from_bytes(bytes);
    let archive = ZipArchive::new(&mut source).unwrap();
    let mut entries = archive.into_iter(&mut source);
    assert_eq!(entries.position(), 0);
    let first = entries.next(&mut source).unwrap().unwrap();
    assert_eq!(first.get_filename().unwrap(), "first.txt");
    assert_eq!(entries.position(), 1);
    assert_eq!(
        entries.next(&mut source).unwrap_err(),
        DumpError::Format(FormatError::BadSignature)
    );
    assert_eq!(entries.position(), 2);
    let third = entries.next(&mut source).unwrap().unwrap();
    assert_eq!(third.get_filename().unwrap(), "third");
    assert!(entries.next(&mut source).unwrap().is_none());
}

#[test]
fn entry_whose_local_header_lies_past_the_end_is_skipped() {
    let members = three_members();
    let (bytes, _, directory) = container(&members, b"");
    let mut broken = bytes.clone();
    let at = directory as usize + 42;
    broken[at..at + 4].copy_from_slice(&(bytes.len() as u32 - 2).to_le_bytes());
    let mut source = RandomAccessSource::from_bytes(broken);
    let archive = ZipArchive::new(&mut source).unwrap();
    let mut entries = archive.into_iter(&mut source);
    assert_eq!(
        entries.next(&mut source).unwrap_err(),
        DumpError::Io(SourceError::UnexpectedEof)
    );
    let mut names = Vec::new();
    while let Some(entry) = entries.next(&mut source).unwrap() {
        names.push(entry.get_filename().unwrap());
    }
    assert_eq!(names, vec!["dir/second.bin", "third"]);
}

#[test]
fn iteration_waits_for_missing_bytes_and_then_goes_on() {
    let members = three_members();
    let (bytes, offsets, _) = container(&members, b"");
    let mut whole = RandomAccessSource::from_bytes(bytes.clone());
    let archive = ZipArchive::new(&mut whole).unwrap();
    let mut source = RandomAccessSource::new(Some(bytes.len() as u64));
    let mut entries = archive.into_iter(&mut source);
    let mut names = Vec::new();
    let mut requests = Vec::new();
    loop {
        match entries.next(&mut source) {
            Ok(None) => break,
            Ok(Some(entry)) => names.push(entry.get_filename().unwrap()),
            Err(DumpError::Io(SourceError::Missing(request))) => {
                requests.push(request);
                let from = request.offset as usize;
                let data = bytes[from..from + request.len as usize].to_vec();
                assert_eq!(source.supply(request, data), Ok(()));
            }
            Err(e) => panic!("{:?}", e),
        }
    }
    assert_eq!(names, vec!["first.txt", "dir/second.bin", "third"]);
    let o = |i: usize| offsets[i] as u64;
    assert_eq!(
        requests,
        vec![
            ReadRequest { offset: o(0), len: 4 },
            ReadRequest { offset: o(0) + 4, len: 26 },
            ReadRequest { offset: o(0) + 30, len: 9 },
            ReadRequest { offset: o(1), len: 4 },
            ReadRequest { offset: o(1) + 4, len: 26 },
            ReadRequest { offset: o(1) + 30, len: 19 },
            ReadRequest { offset: o(2), len: 4 },
            ReadRequest { offset: o(2) + 4, len: 26 },
            ReadRequest { offset: o(2) + 30, len: 5 },
        ]
    );
}

#[test]
fn local_header_is_read_at_the_cursor() {
    let mut m = member("name.bin", b"payload");
    m.local_extra = vec![9, 9];
    let header = local_header(&m);
    let mut bytes = vec![0u8; 10];
    bytes.extend_from_slice(&header);
    bytes.extend_from_slice(&m.data);
    let mut source = RandomAccessSource::from_bytes(bytes.clone());
    assert_eq!(source.seek(SeekFrom::Start(10)), Ok(10));
    assert!(LocalFileHeader::read(&mut source).is_ok());
    assert_eq!(source.stream_position(), 10 + 30 + 8 + 2);
    assert_eq!(source.read_exact(7).unwrap(), b"payload");
    assert!(LocalFileHeader::parse(&bytes, 10).is_ok());
    assert_eq!(LocalFileHeader::parse(&bytes, 9).unwrap_err(), FormatError::BadSignature);
    assert_eq!(LocalFileHeader::parse(&bytes[..45], 10).unwrap_err(), FormatError::Truncated);
    assert_eq!(LocalFileHeader::parse(&bytes[..39], 10).unwrap_err(), FormatError::Truncated);
    assert_eq!(LocalFileHeader::parse(&bytes[..12], 10).unwrap_err(), FormatError::Truncated);
}

#[test]
fn local_header_read_stops_at_a_wrong_signature() {
    let mut source = RandomAccessSource::from_bytes(vec![0x50, 0x4b, 0x01, 0x02, 0, 0]);
    assert_eq!(
        LocalFileHeader::read(&mut source).unwrap_err(),
        DumpError::Format(FormatError::BadSignature)
    );
    assert_eq!(source.stream_position(), 4);
    let mut short = RandomAccessSource::from_bytes(vec![0x50, 0x4b, 0x03]);
    assert_eq!(
        LocalFileHeader::read(&mut short).unwrap_err(),
        DumpError::Io(SourceError::UnexpectedEof)
    );
    assert_eq!(short.stream_position(), 0);
    let mut cut = RandomAccessSource::from_bytes(vec![0x50, 0x4b, 0x03, 0x04, 1, 2, 3]);
    assert_eq!(
        LocalFileHeader::read(&mut cut).unwrap_err(),
        DumpError::Io(SourceError::UnexpectedEof)
    );
    assert_eq!(cut.stream_position(), 4);
}

#[test]
fn file_name_that_is_not_utf8_is_an_error() {
    let mut m = member("", b"x");
    m.name = vec![b'a', 0xff, b'b'];
    let (bytes, _, directory) = container(&[m], b"");
    let record = CentralDirectoryRecord::parse(&bytes, directory as usize).unwrap();
    assert_eq!(record.get_filename().unwrap_err(), FormatError::InvalidFilename);
    let mut source = RandomAccessSource::from_bytes(bytes);
    let archive = ZipArchive::new(&mut source).unwrap();
    let mut entries = archive.into_iter(&mut source);
    let entry = entries.next(&mut source).unwrap().unwrap();
    assert_eq!(entry.get_filename().unwrap_err(), FormatError::InvalidFilename);
    assert_eq!(entry.filename_bytes(), &[b'a', 0xff, b'b'][..]);
}

#[test]
fn file_name_in_utf8_is_decoded() {
    let m = member("dossier/é€😀.bin", b"x");
    let (bytes, _, _) = container(&[m], b"");
    let mut source = RandomAccessSource::from_bytes(bytes);
    let archive = ZipArchive::new(&mut source).unwrap();
    let record = &archive.central_directory()[0];
    assert_eq!(record.get_filename().unwrap(), "dossier/é€😀.bin");
    assert_eq!(record.get_filename().unwrap().chars().count(), 15);
    let mut entries = archive.into_iter(&mut source);
    let entry = entries.next(&mut source).unwrap().unwrap();
    assert_eq!(entry.get_filename().unwrap(), "dossier/é€😀.bin");
}

#[test]
fn compressed_data_past_the_end_is_a_failed_read() {
    let m = member("a", b"0123456789");
    let (bytes, _, _) = container(&[m], b"");
    let mut source = RandomAccessSource::from_bytes(bytes.clone());
    let archive = ZipArchive::new(&mut source).unwrap();
    let mut entries = archive.into_iter(&mut source);
    let entry = entries.next(&mut source).unwrap().unwrap();
    let mut cut = RandomAccessSource::from_bytes(bytes[..35].to_vec());
    assert_eq!(
        archive.get_compressed_data(&mut cut, &entry).unwrap_err(),
        DumpError::Io(SourceError::UnexpectedEof)
    );
    assert_eq!(cut.stream_position(), 31);
}

#[test]
fn cloned_records_are_equal_in_every_field() {
    let (bytes, _, directory) = container(&three_members(), b"note");
    let record = CentralDirectoryRecord::parse(&bytes, directory as usize + 55).unwrap();
    let copy = record.clone();
    assert_eq!(format!("{:?}", record), format!("{:?}", copy));
    let trailer = EndOfCentralDirectory::parse_window(&bytes).unwrap();
    assert_eq!(format!("{:?}", trailer), format!("{:?}", trailer.clone()));
    assert!(format!("{:?}", trailer).contains("comment: [110, 111, 116, 101]"));
}
