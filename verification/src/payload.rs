//! The header that precedes the manifest in an update-engine payload.

use crate::endian::read_u32_be;
use crate::endian::read_u64_be;
use crate::endian::u32_be;
use crate::endian::u64_be;
use crate::error::answers;
use crate::error::DumpError;
use crate::error::FormatError;
use crate::source::lemma_read_faithful;
use crate::source::read_content;
use crate::source::RandomAccessSource;
use crate::source::SourceError;
use crate::source::SourceView;
use vstd::prelude::*;

verus! {

/// The bytes `"CrAU"` that begin a payload, as the big-endian integer they
/// spell.
pub const PAYLOAD_MAGIC: u32 = 0x4372_4155;

/// The size of the header behind the magic: the version, the manifest size
/// and the size of the metadata signature.
pub const PAYLOAD_FIELDS_SIZE: u64 = 20;

/// A payload up to the end of its manifest.
#[derive(Debug)]
pub struct UpdateEnginePayload {
    pub version: u64,
    manifest_size: u64,
    metadata_signature_size: u32,
    manifest: Vec<u8>,
}

/// A payload as a mathematical value.
pub struct PayloadView {
    pub version: u64,
    pub manifest_size: u64,
    pub metadata_signature_size: u32,
    pub manifest: Seq<u8>,
}

impl View for UpdateEnginePayload {
    type V = PayloadView;

    closed spec fn view(&self) -> PayloadView {
        PayloadView {
            version: self.version,
            manifest_size: self.manifest_size,
            metadata_signature_size: self.metadata_signature_size,
            manifest: self.manifest@,
        }
    }
}

/// The payload made of the twenty bytes `fields` that follow the magic, and
/// of the manifest bytes: the version and the manifest size as big-endian
/// 64-bit integers, then the size of the metadata signature as a big-endian
/// 32-bit integer.
pub open spec fn payload_of(fields: Seq<u8>, manifest: Seq<u8>) -> PayloadView {
    PayloadView {
        version: u64_be(fields, 0) as u64,
        manifest_size: u64_be(fields, 8) as u64,
        metadata_signature_size: u32_be(fields, 16) as u32,
        manifest,
    }
}

/// What reading a payload at the cursor gives. The magic is read and tested
/// first, then the three integers, then exactly as many manifest bytes as
/// the second of them says.
pub open spec fn read_payload(source: SourceView) -> Result<PayloadView, DumpError> {
    match source.read_result(4) {
        Err(e) => Err(DumpError::Io(e)),
        Ok(magic) => if u32_be(magic, 0) != PAYLOAD_MAGIC {
            Err(DumpError::Format(FormatError::BadMagic))
        } else {
            match source.after_read(4).read_result(20) {
                Err(e) => Err(DumpError::Io(e)),
                Ok(fields) => match source.after_read(4).after_read(20).read_result(u64_be(fields, 8)) {
                    Err(e) => Err(DumpError::Io(e)),
                    Ok(manifest) => Ok(payload_of(fields, manifest)),
                },
            }
        },
    }
}

/// The source after a payload was read at the cursor: the cursor stands
/// behind the last part that was read.
pub open spec fn after_payload(source: SourceView) -> SourceView {
    match source.read_result(4) {
        Err(_) => source,
        Ok(magic) => if u32_be(magic, 0) != PAYLOAD_MAGIC {
            source.after_read(4)
        } else {
            match source.after_read(4).read_result(20) {
                Err(_) => source.after_read(4),
                Ok(fields) => source.after_read(4).after_read(20).after_read(u64_be(fields, 8)),
            }
        },
    }
}

impl UpdateEnginePayload {
    /// Reads the payload at the cursor, up to the end of its manifest.
    pub fn read(source: &mut RandomAccessSource) -> (result: Result<UpdateEnginePayload, DumpError>)
        ensures
            final(source)@ == after_payload(old(source)@),
            match result {
                Ok(payload) => {
                    &&& read_payload(old(source)@) == Ok::<PayloadView, DumpError>(payload@)
                    &&& payload@.manifest.len() == payload@.manifest_size
                },
                Err(e) => read_payload(old(source)@) == Err::<PayloadView, DumpError>(e),
            },
    {
        let magic: Vec<u8> = match source.read_exact(4) {
            Ok(magic) => magic,
            Err(e) => {
                return Err(DumpError::Io(e));
            },
        };
        if read_u32_be(magic.as_slice(), 0) != PAYLOAD_MAGIC {
            return Err(DumpError::Format(FormatError::BadMagic));
        }
        let fields: Vec<u8> = match source.read_exact(PAYLOAD_FIELDS_SIZE) {
            Ok(fields) => fields,
            Err(e) => {
                return Err(DumpError::Io(e));
            },
        };
        let version: u64 = read_u64_be(fields.as_slice(), 0);
        let manifest_size: u64 = read_u64_be(fields.as_slice(), 8);
        let metadata_signature_size: u32 = read_u32_be(fields.as_slice(), 16);
        let manifest: Vec<u8> = match source.read_exact(manifest_size) {
            Ok(manifest) => manifest,
            Err(e) => {
                return Err(DumpError::Io(e));
            },
        };
        Ok(UpdateEnginePayload { version, manifest_size, metadata_signature_size, manifest })
    }

    /// The encoded manifest: exactly the bytes that follow the header, as
    /// many as the header says.
    pub fn get_manifest(&self) -> (manifest: &Vec<u8>)
        ensures
            manifest@ == self@.manifest,
    {
        &self.manifest
    }

    /// The version of the payload format.
    pub fn version(&self) -> (version: u64)
        ensures
            version == self@.version,
    {
        self.version
    }

    /// How many bytes the manifest takes.
    pub fn manifest_size(&self) -> (size: u64)
        ensures
            size == self@.manifest_size,
    {
        self.manifest_size
    }

    /// How many bytes the signature of the metadata takes.
    pub fn metadata_signature_size(&self) -> (size: u32)
        ensures
            size == self@.metadata_signature_size,
    {
        self.metadata_signature_size
    }
}

/// The payload that `content` holds at `at`, as reading it there gives
/// it: the magic, the three integers, and the manifest, whole.
pub open spec fn payload_at(content: Seq<u8>, at: int) -> Result<PayloadView, DumpError> {
    if at + 4 > content.len() {
        Err(DumpError::Io(SourceError::UnexpectedEof))
    } else if u32_be(content, at) != PAYLOAD_MAGIC {
        Err(DumpError::Format(FormatError::BadMagic))
    } else if at + 24 > content.len() {
        Err(DumpError::Io(SourceError::UnexpectedEof))
    } else if at + 24 + u64_be(content, at + 12) > content.len() {
        Err(DumpError::Io(SourceError::UnexpectedEof))
    } else {
        Ok(
            PayloadView {
                version: u64_be(content, at + 4) as u64,
                manifest_size: u64_be(content, at + 12) as u64,
                metadata_signature_size: u32_be(content, at + 20) as u32,
                manifest: content.subrange(at + 24, at + 24 + u64_be(content, at + 12)),
            },
        )
    }
}

/// In a source that is faithful to `content`, reading a payload at `at`
/// gives the payload that the content holds there.
pub proof fn lemma_read_payload_faithful(source: SourceView, content: Seq<u8>, at: int)
    requires
        source.faithful_to(content),
        content.len() <= u64::MAX,
        0 <= at,
    ensures
        answers(source, content, read_payload(source.at(at)), payload_at(content, at)),
{
    let s0 = source.at(at);
    lemma_read_faithful(s0, content, at, 4);
    if s0.read_result(4) == read_content(content, at, 4) && at + 4 <= content.len() {
        let s1 = s0.after_read(4);
        lemma_read_faithful(s1, content, at + 4, 20);
        if u32_be(content, at) == PAYLOAD_MAGIC && s1.read_result(20) == read_content(
            content,
            at + 4,
            20,
        ) && at + 24 <= content.len() {
            let fields = content.subrange(at + 4, at + 24);
            let n = u64_be(fields, 8);
            lemma_read_faithful(s1.after_read(20), content, at + 24, n);
            assert(n == 0 ==> content.subrange(at + 24, at + 24 + n) =~= Seq::<u8>::empty());
        }
    }
}

/// Reading a payload moves the cursor and nothing else.
pub proof fn lemma_after_payload_same_data(source: SourceView)
    ensures
        after_payload(source).same_data(source),
{
}

/// Bytes that do not begin with the magic are no payload: reading them
/// gives a format error, and no header.
pub proof fn lemma_bad_magic_is_format_error(source: SourceView, content: Seq<u8>, at: int)
    requires
        source.faithful_to(content),
        content.len() <= u64::MAX,
        0 <= at,
        at + 4 <= content.len(),
        u32_be(content, at) != PAYLOAD_MAGIC,
    ensures
        answers(
            source,
            content,
            read_payload(source.at(at)),
            Err(DumpError::Format(FormatError::BadMagic)),
        ),
{
    lemma_read_payload_faithful(source, content, at);
}

/// A payload whose manifest is cut short, with fewer bytes behind the header
/// than the header says, gives a failed read whatever its version is, and no
/// payload with a shorter manifest.
pub proof fn lemma_truncated_manifest_is_io_error(source: SourceView, content: Seq<u8>, at: int)
    requires
        source.faithful_to(content),
        content.len() <= u64::MAX,
        0 <= at,
        at + 24 <= content.len(),
        u32_be(content, at) == PAYLOAD_MAGIC,
        at + 24 + u64_be(content, at + 12) > content.len(),
    ensures
        answers(
            source,
            content,
            read_payload(source.at(at)),
            Err(DumpError::Io(SourceError::UnexpectedEof)),
        ),
{
    lemma_read_payload_faithful(source, content, at);
}

} // verus!
