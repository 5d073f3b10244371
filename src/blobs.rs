//! The typed blobs of a super blob, and the dispatcher that decodes a blob
//! by its magic.
use crate::codedir::{code_directory_error, CodeDirectoryBlob};
use crate::error::MachOParseError;
use crate::requirement::{parse_expression, ExprTree, Expression};
use crate::superblob::{read_index_table, sb_count, sb_index_offset, BlobIndex};
use crate::slot::{
    CSMAGIC_BLOBWRAPPER, CSMAGIC_CODEDIRECTORY, CSMAGIC_DETACHED_SIGNATURE,
    CSMAGIC_EMBEDDED_ENTITLEMENTS, CSMAGIC_EMBEDDED_SIGNATURE, CSMAGIC_EMBEDDED_SIGNATURE_OLD,
    CSMAGIC_REQUIREMENT, CSMAGIC_REQUIREMENTS,
};
use crate::hash::hex_encode;
use crate::wire::{
    be_u32, decode_text, read_and_validate_blob_header, read_blob_header, read_u32_be, utf8_result,
};
use vstd::prelude::*;
use vstd::slice::slice_subrange;

verus! {

/// Why a blob header with magic `magic` cannot be read from `d`, if it cannot.
pub open spec fn header_error(d: Seq<u8>, magic: u32) -> Option<MachOParseError> {
    if d.len() < 8 {
        Some(MachOParseError::Read)
    } else if be_u32(d, 0) != magic {
        Some(MachOParseError::BadMagic)
    } else {
        None
    }
}

/// The bytes after the 8-byte header.
pub open spec fn payload(d: Seq<u8>) -> Seq<u8> {
    d.subrange(8, d.len() as int)
}

/// An embedded signature blob, kept as its payload.
#[derive(Debug)]
pub struct EmbeddedSignatureBlob<'a> {
    /// The bytes after the header.
    pub data: &'a [u8],
}

/// An old embedded signature blob, kept as its payload.
#[derive(Debug)]
pub struct EmbeddedSignatureOldBlob<'a> {
    /// The bytes after the header.
    pub data: &'a [u8],
}

/// A detached signature blob, kept as its payload.
#[derive(Debug)]
pub struct DetachedSignatureBlob<'a> {
    /// The bytes after the header.
    pub data: &'a [u8],
}

/// A generic blob wrapper, such as the one holding the CMS signature.
#[derive(Debug)]
pub struct BlobWrapperBlob<'a> {
    /// The bytes after the header.
    pub data: &'a [u8],
}

/// An entitlements blob: an XML plist.
#[derive(Debug)]
pub struct EntitlementsBlob<'a> {
    /// The plist text.
    pub plist: &'a str,
}

impl<'a> EmbeddedSignatureBlob<'a> {
    /// Decodes a blob with the embedded-signature magic, header included.
    pub fn from_bytes(data: &'a [u8]) -> (r: Result<Self, MachOParseError>)
        ensures
            match r {
                Ok(b) => header_error(data@, CSMAGIC_EMBEDDED_SIGNATURE) is None && b.data@ == payload(data@),
                Err(e) => header_error(data@, CSMAGIC_EMBEDDED_SIGNATURE) == Some(e),
            },
    {
        Ok(EmbeddedSignatureBlob { data: read_and_validate_blob_header(data, CSMAGIC_EMBEDDED_SIGNATURE)? })
    }
}

impl<'a> EmbeddedSignatureOldBlob<'a> {
    /// Decodes a blob with the old embedded-signature magic, header included.
    pub fn from_bytes(data: &'a [u8]) -> (r: Result<Self, MachOParseError>)
        ensures
            match r {
                Ok(b) => header_error(data@, CSMAGIC_EMBEDDED_SIGNATURE_OLD) is None && b.data@ == payload(data@),
                Err(e) => header_error(data@, CSMAGIC_EMBEDDED_SIGNATURE_OLD) == Some(e),
            },
    {
        Ok(EmbeddedSignatureOldBlob { data: read_and_validate_blob_header(data, CSMAGIC_EMBEDDED_SIGNATURE_OLD)? })
    }
}

impl<'a> DetachedSignatureBlob<'a> {
    /// Decodes a blob with the detached-signature magic, header included.
    pub fn from_bytes(data: &'a [u8]) -> (r: Result<Self, MachOParseError>)
        ensures
            match r {
                Ok(b) => header_error(data@, CSMAGIC_DETACHED_SIGNATURE) is None && b.data@ == payload(data@),
                Err(e) => header_error(data@, CSMAGIC_DETACHED_SIGNATURE) == Some(e),
            },
    {
        Ok(DetachedSignatureBlob { data: read_and_validate_blob_header(data, CSMAGIC_DETACHED_SIGNATURE)? })
    }
}

impl<'a> BlobWrapperBlob<'a> {
    /// The payload as lowercase hexadecimal text.
    pub fn to_hex(&self) -> (r: String)
        ensures
            r@ == crate::hash::hex_lower(self.data@),
    {
        hex_encode(self.data)
    }

    /// Decodes a blob with the blob-wrapper magic, header included.
    pub fn from_bytes(data: &'a [u8]) -> (r: Result<Self, MachOParseError>)
        ensures
            match r {
                Ok(b) => header_error(data@, CSMAGIC_BLOBWRAPPER) is None && b.data@ == payload(data@),
                Err(e) => header_error(data@, CSMAGIC_BLOBWRAPPER) == Some(e),
            },
    {
        Ok(BlobWrapperBlob { data: read_and_validate_blob_header(data, CSMAGIC_BLOBWRAPPER)? })
    }
}

/// Why `d` is not a well-formed entitlements blob, if it is not.
pub open spec fn entitlements_error(d: Seq<u8>) -> Option<MachOParseError> {
    match header_error(d, CSMAGIC_EMBEDDED_ENTITLEMENTS) {
        Some(e) => Some(e),
        None => match utf8_result(payload(d)) {
            Ok(_) => None,
            Err(e) => Some(e),
        },
    }
}

impl<'a> EntitlementsBlob<'a> {
    /// Decodes an entitlements blob, header included; its payload must be
    /// UTF-8 text.
    pub fn from_bytes(data: &'a [u8]) -> (r: Result<Self, MachOParseError>)
        ensures
            match r {
                Ok(b) => entitlements_error(data@) is None
                    && utf8_result(payload(data@)) == Ok::<Seq<char>, MachOParseError>(b.plist@),
                Err(e) => entitlements_error(data@) == Some(e),
            },
    {
        let rest = read_and_validate_blob_header(data, CSMAGIC_EMBEDDED_ENTITLEMENTS)?;
        let plist = decode_text(rest)?;
        Ok(EntitlementsBlob { plist })
    }
}

/// A single requirement blob.
#[derive(Debug)]
pub struct RequirementBlob<'a> {
    /// The requirement's expression.
    pub expression: Expression<'a>,
}

/// Why `d` is not a well-formed requirement blob, if it is not.
pub open spec fn requirement_error(d: Seq<u8>) -> Option<MachOParseError> {
    match header_error(d, CSMAGIC_REQUIREMENT) {
        Some(e) => Some(e),
        None => match parse_expression(payload(d), 0) {
            Ok(_) => None,
            Err(e) => Some(e),
        },
    }
}

impl<'a> RequirementBlob<'a> {
    /// Decodes a requirement blob, header included: one expression follows
    /// the header.
    pub fn from_bytes(data: &'a [u8]) -> (r: Result<Self, MachOParseError>)
        ensures
            match r {
                Ok(b) => requirement_error(data@) is None
                    && (parse_expression(payload(data@), 0) matches Ok((t, _)) && t == b.expression.tree()),
                Err(e) => requirement_error(data@) == Some(e),
            },
    {
        let rest = read_and_validate_blob_header(data, CSMAGIC_REQUIREMENT)?;
        let (expression, _) = Expression::from_bytes(rest)?;
        Ok(RequirementBlob { expression })
    }
}

/// Where segment `i` of a requirements blob ends: at the next segment's
/// offset, or at the end of the blob for the last.
pub open spec fn req_segment_end(d: Seq<u8>, i: int) -> int {
    if i + 1 == sb_count(d) {
        d.len() as int
    } else {
        sb_index_offset(d, i + 1) as int
    }
}

/// Segment `i` starts inside the header or index table, ends before it
/// starts, or ends past the blob.
pub open spec fn req_segment_bad(d: Seq<u8>, i: int) -> bool {
    let off = sb_index_offset(d, i) as int;
    off < 12 + 8 * sb_count(d) || off > req_segment_end(d, i) || req_segment_end(d, i) > d.len()
}

/// The bytes of segment `i` of a requirements blob.
pub open spec fn req_segment(d: Seq<u8>, i: int) -> Seq<u8> {
    d.subrange(sb_index_offset(d, i) as int, req_segment_end(d, i))
}

/// The blob `d` cut to the length that its header announces.
pub open spec fn framed(d: Seq<u8>) -> Seq<u8> {
    d.subrange(0, be_u32(d, 4) as int)
}

/// A magic that the dispatcher decodes with a specific parser.
pub open spec fn is_known_magic(m: u32) -> bool {
    m == CSMAGIC_REQUIREMENT || m == CSMAGIC_REQUIREMENTS || m == CSMAGIC_CODEDIRECTORY || m
        == CSMAGIC_EMBEDDED_SIGNATURE || m == CSMAGIC_EMBEDDED_SIGNATURE_OLD || m
        == CSMAGIC_EMBEDDED_ENTITLEMENTS || m == CSMAGIC_DETACHED_SIGNATURE || m == CSMAGIC_BLOBWRAPPER
}

/// Why the blob `d` cannot be decoded by its magic, if it cannot.
pub open spec fn blob_data_error(d: Seq<u8>) -> Option<MachOParseError>
    decreases d.len(), 0x1_0000_0002int,
{
    if d.len() < 8 {
        Some(MachOParseError::Read)
    } else if be_u32(d, 4) > d.len() {
        Some(MachOParseError::BadOffset)
    } else {
        let b = framed(d);
        let m = be_u32(d, 0);
        if m == CSMAGIC_REQUIREMENT {
            requirement_error(b)
        } else if m == CSMAGIC_REQUIREMENTS {
            requirements_error(b)
        } else if m == CSMAGIC_CODEDIRECTORY {
            code_directory_error(b)
        } else if m == CSMAGIC_EMBEDDED_ENTITLEMENTS {
            entitlements_error(b)
        } else if is_known_magic(m) {
            header_error(b, m)
        } else {
            None
        }
    }
}

/// Why `d` is not a well-formed requirements blob, if it is not.
pub open spec fn requirements_error(d: Seq<u8>) -> Option<MachOParseError>
    decreases d.len(), 0x1_0000_0001int,
{
    if header_error(d, CSMAGIC_REQUIREMENTS) is Some {
        header_error(d, CSMAGIC_REQUIREMENTS)
    } else if d.len() < 12 || 12 + 8 * sb_count(d) > d.len() {
        Some(MachOParseError::Read)
    } else {
        segments_error(d, sb_count(d) as int)
    }
}

/// The first error among segments `0..n` of the requirements blob `d`.
pub open spec fn segments_error(d: Seq<u8>, n: int) -> Option<MachOParseError>
    decreases d.len(), n,
{
    if n <= 0 || n > 0xffff_ffff {
        None
    } else {
        match segments_error(d, n - 1) {
            Some(e) => Some(e),
            None => if req_segment_bad(d, n - 1) {
                Some(MachOParseError::BadOffset)
            } else {
                blob_data_error(req_segment(d, n - 1))
            },
        }
    }
}

/// A requirements blob: a table of nested blobs, usually requirements.
#[derive(Debug)]
pub struct RequirementsBlob<'a> {
    /// The nested blobs, in table order.
    pub segments: Vec<BlobData<'a>>,
}

/// A blob decoded by its magic.
#[derive(Debug)]
pub enum BlobData<'a> {
    Requirement(RequirementBlob<'a>),
    Requirements(RequirementsBlob<'a>),
    CodeDirectory(Box<CodeDirectoryBlob<'a>>),
    EmbeddedSignature(EmbeddedSignatureBlob<'a>),
    EmbeddedSignatureOld(EmbeddedSignatureOldBlob<'a>),
    EmbeddedEntitlements(EntitlementsBlob<'a>),
    DetachedSignature(DetachedSignatureBlob<'a>),
    BlobWrapper(BlobWrapperBlob<'a>),
    /// A blob of unknown magic: magic, length and bytes.
    Other((u32, usize, &'a [u8])),
}

impl<'a> BlobData<'a> {
    /// This value is the decoding of the blob `d`.
    pub open spec fn decoded_from(&self, d: Seq<u8>) -> bool
        decreases d.len(), 0x1_0000_0002int,
    {
        let b = framed(d);
        let m = be_u32(d, 0);
        &&& 8 <= d.len()
        &&& be_u32(d, 4) <= d.len()
        &&& match self {
            BlobData::Requirement(x) => m == CSMAGIC_REQUIREMENT && (parse_expression(payload(b), 0) matches Ok((t, _))
                && t == x.expression.tree()),
            BlobData::Requirements(x) => m == CSMAGIC_REQUIREMENTS && x.decoded_from(b),
            BlobData::CodeDirectory(x) => m == CSMAGIC_CODEDIRECTORY && x.decoded_from(b),
            BlobData::EmbeddedSignature(x) => m == CSMAGIC_EMBEDDED_SIGNATURE && x.data@ == payload(b),
            BlobData::EmbeddedSignatureOld(x) => m == CSMAGIC_EMBEDDED_SIGNATURE_OLD && x.data@
                == payload(b),
            BlobData::EmbeddedEntitlements(x) => m == CSMAGIC_EMBEDDED_ENTITLEMENTS && utf8_result(
                payload(b),
            ) == Ok::<Seq<char>, MachOParseError>(x.plist@),
            BlobData::DetachedSignature(x) => m == CSMAGIC_DETACHED_SIGNATURE && x.data@ == payload(b),
            BlobData::BlobWrapper(x) => m == CSMAGIC_BLOBWRAPPER && x.data@ == payload(b),
            BlobData::Other((om, len, bytes)) => !is_known_magic(m) && *om == m && *len == be_u32(d, 4)
                && bytes@ == b,
        }
    }
}

/// Segments `0..n` of `segs` are the decodings of those of the requirements
/// blob `d`.
pub open spec fn segments_match(segs: Seq<BlobData>, d: Seq<u8>, n: int) -> bool
    decreases d.len(), n,
{
    if n <= 0 {
        true
    } else if n > 0xffff_ffff {
        false
    } else {
        &&& segments_match(segs, d, n - 1)
        &&& !req_segment_bad(d, n - 1)
        &&& segs[n - 1].decoded_from(req_segment(d, n - 1))
    }
}

impl<'a> RequirementsBlob<'a> {
    /// This value is the decoding of the well-formed requirements blob `d`.
    pub open spec fn decoded_from(&self, d: Seq<u8>) -> bool
        decreases d.len(), 0x1_0000_0001int,
    {
        &&& self.segments@.len() == sb_count(d)
        &&& segments_match(self.segments@, d, sb_count(d) as int)
    }
}

/// An error at segment `k`, with none before it, is the first error of any
/// longer prefix.
proof fn lemma_segments_error_first(d: Seq<u8>, k: int, n: int)
    requires
        0 <= k < n <= 0xffff_ffff,
        segments_error(d, k) is None,
        segments_error(d, k + 1) is Some,
    ensures
        segments_error(d, n) == segments_error(d, k + 1),
    decreases n,
{
    if n > k + 1 {
        lemma_segments_error_first(d, k, n - 1);
    }
}

/// A segment that decodes extends an error-free prefix.
proof fn lemma_segments_error_step(d: Seq<u8>, k: int)
    requires
        0 <= k < 0xffff_ffff,
        segments_error(d, k) is None,
        !req_segment_bad(d, k),
        blob_data_error(req_segment(d, k)) is None,
    ensures
        segments_error(d, k + 1) is None,
{
}

/// An error at segment `k` with none before it.
proof fn lemma_segments_error_at(d: Seq<u8>, k: int, e: MachOParseError)
    requires
        0 <= k < 0xffff_ffff,
        segments_error(d, k) is None,
        if req_segment_bad(d, k) {
            e == MachOParseError::BadOffset
        } else {
            blob_data_error(req_segment(d, k)) == Some(e)
        },
    ensures
        segments_error(d, k + 1) == Some(e),
{
}

proof fn lemma_segments_match_push(segs: Seq<BlobData>, b: BlobData, d: Seq<u8>, n: int)
    requires
        0 <= n <= segs.len(),
        segments_match(segs, d, n),
    ensures
        segments_match(segs.push(b), d, n),
    decreases n,
{
    if n > 0 {
        lemma_segments_match_push(segs, b, d, n - 1);
        assert(segs.push(b)[n - 1] == segs[n - 1]);
    }
}

/// With a well-formed header and table, the errors of a requirements blob
/// are those of its segments.
proof fn lemma_requirements_error(d: Seq<u8>)
    requires
        header_error(d, CSMAGIC_REQUIREMENTS) is None,
        d.len() >= 12,
        12 + 8 * sb_count(d) <= d.len(),
    ensures
        requirements_error(d) == segments_error(d, sb_count(d) as int),
{
}

/// No segment at all has no error.
proof fn lemma_segments_error_none(d: Seq<u8>)
    ensures
        segments_error(d, 0) is None,
{
}

/// Decodes segment `i` of a requirements blob.
fn decode_segment<'a>(data: &'a [u8], indices: &Vec<BlobIndex>, i: usize) -> (r: Result<
    BlobData<'a>,
    MachOParseError,
>)
    requires
        i < indices@.len(),
        indices@.len() == sb_count(data@),
        12 + 8 * sb_count(data@) <= data@.len(),
        forall|j: int| 0 <= j < indices@.len() ==> (#[trigger] indices@[j]).offset == sb_index_offset(data@, j),
    ensures
        match r {
            Ok(b) => !req_segment_bad(data@, i as int) && blob_data_error(req_segment(data@, i as int)) is None
                && b.decoded_from(req_segment(data@, i as int)),
            Err(e) => if req_segment_bad(data@, i as int) {
                e == MachOParseError::BadOffset
            } else {
                blob_data_error(req_segment(data@, i as int)) == Some(e)
            },
        },
    decreases data@.len(), 0int,
{
    let len = data.len();
    let table_end = 12 + 8 * (indices.len());
    let off = indices[i].offset as usize;
    let end = if i + 1 == indices.len() {
        len
    } else {
        indices[i + 1].offset as usize
    };
    if off < table_end || off > end || end > len {
        return Err(MachOParseError::BadOffset);
    }
    BlobData::from_bytes(slice_subrange(data, off, end))
}

impl<'a> RequirementsBlob<'a> {
    /// Decodes a requirements blob, header included.
    ///
    /// After the header come a count and that many `(type, offset)` pairs;
    /// each segment runs from its offset to the next one's, the last to the
    /// end of the blob, and is decoded by its own magic.
    pub fn from_bytes(data: &'a [u8]) -> (r: Result<Self, MachOParseError>)
        ensures
            match r {
                Ok(b) => requirements_error(data@) is None && b.decoded_from(data@),
                Err(e) => requirements_error(data@) == Some(e),
            },
        decreases data@.len(), 0x1_0000_0001int,
    {
        let ghost d = data@;
        let len = data.len();
        read_and_validate_blob_header(data, CSMAGIC_REQUIREMENTS)?;
        let count = read_u32_be(data, 8)?;
        let indices = read_index_table(data, count)?;

        let mut segments: Vec<BlobData<'a>> = Vec::new();
        let mut i: usize = 0;
        proof {
            lemma_segments_error_none(d);
        }
        while i < indices.len()
            invariant
                d == data@,
                header_error(d, CSMAGIC_REQUIREMENTS) is None,
                d.len() >= 12,
                count == sb_count(d),
                12 + 8 * count <= d.len(),
                indices@.len() == count,
                forall|j: int| 0 <= j < count ==> (#[trigger] indices@[j]).offset == sb_index_offset(d, j),
                i <= count,
                segments_error(d, i as int) is None,
                segments@.len() == i,
                segments_match(segments@, d, i as int),
            decreases count - i,
        {
            match decode_segment(data, &indices, i) {
                Ok(b) => {
                    proof {
                        lemma_segments_error_step(d, i as int);
                        lemma_segments_match_push(segments@, b, d, i as int);
                    }
                    segments.push(b);
                    proof {
                        assert(segments@[i as int] == b);
                    }
                },
                Err(e) => {
                    proof {
                        lemma_segments_error_at(d, i as int, e);
                        lemma_segments_error_first(d, i as int, count as int);
                        lemma_requirements_error(d);
                    }
                    return Err(e);
                },
            }
            i += 1;
        }
        proof {
            lemma_requirements_error(d);
        }
        Ok(RequirementsBlob { segments })
    }
}

impl<'a> BlobData<'a> {
    /// Decodes a blob, header included, by its magic.
    ///
    /// The blob is first cut to the length that its header announces, which
    /// must fit in `data`; blobs of unknown magic are kept as `Other`.
    #[verifier::rlimit(40)]
    pub fn from_bytes(data: &'a [u8]) -> (r: Result<Self, MachOParseError>)
        ensures
            match r {
                Ok(b) => blob_data_error(data@) is None && b.decoded_from(data@),
                Err(e) => blob_data_error(data@) == Some(e),
            },
        decreases data@.len(), 0x1_0000_0002int,
    {
        let (magic, length, _) = read_blob_header(data)?;
        if length > data.len() {
            return Err(MachOParseError::BadOffset);
        }
        let data = slice_subrange(data, 0, length);
        if magic == CSMAGIC_REQUIREMENT {
            Ok(BlobData::Requirement(RequirementBlob::from_bytes(data)?))
        } else if magic == CSMAGIC_REQUIREMENTS {
            Ok(BlobData::Requirements(RequirementsBlob::from_bytes(data)?))
        } else if magic == CSMAGIC_CODEDIRECTORY {
            Ok(BlobData::CodeDirectory(Box::new(CodeDirectoryBlob::from_bytes(data)?)))
        } else if magic == CSMAGIC_EMBEDDED_SIGNATURE {
            Ok(BlobData::EmbeddedSignature(EmbeddedSignatureBlob::from_bytes(data)?))
        } else if magic == CSMAGIC_EMBEDDED_SIGNATURE_OLD {
            Ok(BlobData::EmbeddedSignatureOld(EmbeddedSignatureOldBlob::from_bytes(data)?))
        } else if magic == CSMAGIC_EMBEDDED_ENTITLEMENTS {
            Ok(BlobData::EmbeddedEntitlements(EntitlementsBlob::from_bytes(data)?))
        } else if magic == CSMAGIC_DETACHED_SIGNATURE {
            Ok(BlobData::DetachedSignature(DetachedSignatureBlob::from_bytes(data)?))
        } else if magic == CSMAGIC_BLOBWRAPPER {
            Ok(BlobData::BlobWrapper(BlobWrapperBlob::from_bytes(data)?))
        } else {
            Ok(BlobData::Other((magic, length, data)))
        }
    }
}

} // verus!
