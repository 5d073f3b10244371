//! The embedded-signature super blob: a header, a table of typed offsets and
//! the blobs that those offsets frame.
use crate::error::MachOParseError;
use crate::slot::{
    magic_from_u32, slot_from_u32, CodeSigningMagic, CodeSigningSlot, CSMAGIC_EMBEDDED_SIGNATURE,
};
use crate::blobs::{blob_data_error, framed, payload, BlobData, RequirementsBlob};
use crate::codedir::CodeDirectoryBlob;
use crate::slot::{CSMAGIC_BLOBWRAPPER, CSMAGIC_CODEDIRECTORY, CSMAGIC_REQUIREMENTS};
use crate::wire::{be_u32, read_u32_be, sub_slice};
use vstd::prelude::*;

verus! {

/// Number of index entries announced by a super-blob header.
pub open spec fn sb_count(d: Seq<u8>) -> u32 {
    be_u32(d, 8)
}

/// Slot wire value of index entry `i`.
pub open spec fn sb_index_slot(d: Seq<u8>, i: int) -> u32 {
    be_u32(d, 12 + 8 * i)
}

/// Offset of the blob of index entry `i`.
pub open spec fn sb_index_offset(d: Seq<u8>, i: int) -> u32 {
    be_u32(d, 16 + 8 * i)
}

/// The offsets of all index entries, in table order.
pub open spec fn sb_offsets(d: Seq<u8>) -> Seq<u32> {
    Seq::new(sb_count(d) as nat, |j: int| sb_index_offset(d, j))
}

/// The least offset of `offs` that is greater than `off` and less than
/// `bound`, or `bound` where there is none.
pub open spec fn span_end(offs: Seq<u32>, off: int, bound: int) -> int
    decreases offs.len(),
{
    if offs.len() == 0 {
        bound
    } else {
        let rest = span_end(offs.drop_last(), off, bound);
        let o = offs.last() as int;
        if off < o && o < rest {
            o
        } else {
            rest
        }
    }
}

/// Where the blob of index entry `i` must end at the latest: at the next
/// larger offset of the table, or at the end of the data.
pub open spec fn sb_blob_end(d: Seq<u8>, i: int) -> int {
    span_end(sb_offsets(d), sb_index_offset(d, i) as int, d.len() as int)
}

/// The length that the header of the blob of entry `i` announces.
pub open spec fn sb_blob_length(d: Seq<u8>, i: int) -> u32 {
    be_u32(d, sb_index_offset(d, i) + 4)
}

/// Why the blob of entry `i` cannot be framed, if it cannot.
pub open spec fn sb_entry_error(d: Seq<u8>, i: int) -> Option<MachOParseError> {
    let off = sb_index_offset(d, i) as int;
    let end = sb_blob_end(d, i);
    if off > end {
        Some(MachOParseError::BadOffset)
    } else if end - off < 8 {
        Some(MachOParseError::Read)
    } else if sb_blob_length(d, i) > end - off {
        Some(MachOParseError::BadOffset)
    } else {
        None
    }
}

/// The first error among the blobs of entries `0..n`.
pub open spec fn sb_entries_error(d: Seq<u8>, n: int) -> Option<MachOParseError>
    decreases n,
{
    if n <= 0 {
        None
    } else {
        match sb_entries_error(d, n - 1) {
            Some(e) => Some(e),
            None => sb_entry_error(d, n - 1),
        }
    }
}

/// Why `d` is not a well-formed embedded-signature super blob, if it is not.
pub open spec fn super_blob_error(d: Seq<u8>) -> Option<MachOParseError> {
    if d.len() < 4 {
        Some(MachOParseError::Read)
    } else if be_u32(d, 0) != CSMAGIC_EMBEDDED_SIGNATURE {
        Some(MachOParseError::BadMagic)
    } else if d.len() < 12 || 12 + 8 * sb_count(d) > d.len() {
        Some(MachOParseError::Read)
    } else if be_u32(d, 4) > d.len() {
        Some(MachOParseError::BadOffset)
    } else {
        sb_entries_error(d, sb_count(d) as int)
    }
}

/// A single blob as framed by a super-blob index entry.
#[derive(Clone, Copy, Debug)]
pub struct BlobEntry<'a> {
    /// Position of this entry in the index table.
    pub index: usize,
    /// The slot type.
    pub slot: CodeSigningSlot,
    /// Start offset within the super blob; the first byte of the magic.
    pub offset: usize,
    /// The magic at the start of the blob.
    pub magic: CodeSigningMagic,
    /// The length that the blob's header announces, header included.
    pub length: usize,
    /// The blob's bytes, `[offset, offset + length)`, header included.
    pub data: &'a [u8],
}

impl<'a> BlobEntry<'a> {
    /// This entry is the blob of index entry `i` of the super blob `d`.
    pub open spec fn decoded_from(&self, d: Seq<u8>, i: int) -> bool {
        let off = sb_index_offset(d, i) as int;
        &&& self.index == i
        &&& self.slot == slot_from_u32(sb_index_slot(d, i))
        &&& self.offset == off
        &&& self.magic == magic_from_u32(be_u32(d, off))
        &&& self.length == sb_blob_length(d, i)
        &&& self.data@ == d.subrange(off, off + sb_blob_length(d, i))
    }
}

/// A lightly parsed embedded-signature super blob.
#[derive(Debug)]
pub struct EmbeddedSignature<'a> {
    /// Magic value from the header.
    pub magic: CodeSigningMagic,
    /// Length of this super blob, as its header announces.
    pub length: u32,
    /// Number of blobs in this super blob.
    pub count: u32,
    /// Raw data backing this super blob.
    pub data: &'a [u8],
    /// All the blobs within this super blob, in index-table order.
    pub blobs: Vec<BlobEntry<'a>>,
}

impl<'a> EmbeddedSignature<'a> {
    /// This value is the decoding of the well-formed super blob `d`.
    pub open spec fn decoded_from(&self, d: Seq<u8>) -> bool {
        &&& self.magic == CodeSigningMagic::EmbeddedSignature
        &&& self.length == be_u32(d, 4)
        &&& self.count == sb_count(d)
        &&& self.data@ == d
        &&& self.blobs@.len() == sb_count(d)
        &&& forall|i: int| 0 <= i < self.blobs@.len() ==> (#[trigger] self.blobs@[i]).decoded_from(d, i)
    }
}

proof fn lemma_span_end_le(offs: Seq<u32>, off: int, bound: int)
    ensures
        span_end(offs, off, bound) <= bound,
    decreases offs.len(),
{
    if offs.len() > 0 {
        lemma_span_end_le(offs.drop_last(), off, bound);
    }
}

/// An error at entry `k`, with none before it, is the first error of any
/// longer prefix.
proof fn lemma_entries_error_first(d: Seq<u8>, k: int, n: int)
    requires
        0 <= k < n,
        sb_entries_error(d, k) is None,
        sb_entry_error(d, k) is Some,
    ensures
        sb_entries_error(d, n) == sb_entry_error(d, k),
    decreases n,
{
    if n > k + 1 {
        lemma_entries_error_first(d, k, n - 1);
    }
}

/// Without an error in a prefix, no entry of that prefix has one.
proof fn lemma_entries_error_none(d: Seq<u8>, i: int, n: int)
    requires
        0 <= i < n,
        sb_entries_error(d, n) is None,
    ensures
        sb_entry_error(d, i) is None,
    decreases n,
{
    if n > i + 1 {
        lemma_entries_error_none(d, i, n - 1);
    }
}

/// A well-formed super blob lies within its data: its announced length, and
/// every blob it frames, end at or before the end of the data.
pub proof fn lemma_super_blob_in_bounds(d: Seq<u8>)
    requires
        super_blob_error(d) is None,
    ensures
        be_u32(d, 4) <= d.len(),
        forall|i: int|
            0 <= i < sb_count(d) ==> sb_index_offset(d, i) + #[trigger] sb_blob_length(d, i) <= d.len(),
{
    assert forall|i: int| 0 <= i < sb_count(d) implies sb_index_offset(d, i) + #[trigger] sb_blob_length(
        d,
        i,
    ) <= d.len() by {
        lemma_entries_error_none(d, i, sb_count(d) as int);
        lemma_span_end_le(sb_offsets(d), sb_index_offset(d, i) as int, d.len() as int);
    }
}

/// The decoded blobs are the index table's entries, one for one and in
/// order: each carries its entry's slot and the bytes at its entry's offset;
/// none is added or dropped.
pub proof fn lemma_blobs_follow_index(sig: EmbeddedSignature, d: Seq<u8>)
    requires
        sig.decoded_from(d),
    ensures
        sig.blobs@.len() == sb_count(d),
        forall|i: int|
            0 <= i < sig.blobs@.len() ==> (#[trigger] sig.blobs@[i]).slot == slot_from_u32(
                sb_index_slot(d, i),
            ) && sig.blobs@[i].data@ == d.subrange(
                sb_index_offset(d, i) as int,
                sb_index_offset(d, i) + sb_blob_length(d, i),
            ),
{
    assert forall|i: int| 0 <= i < sig.blobs@.len() implies (#[trigger] sig.blobs@[i]).slot
        == slot_from_u32(sb_index_slot(d, i)) && sig.blobs@[i].data@ == d.subrange(
        sb_index_offset(d, i) as int,
        sb_index_offset(d, i) + sb_blob_length(d, i),
    ) by {
        assert(sig.blobs@[i].decoded_from(d, i));
    }
}

/// A super blob whose index table is empty decodes, to no blobs.
pub proof fn lemma_empty_index_decodes(d: Seq<u8>)
    requires
        d.len() >= 12,
        be_u32(d, 0) == CSMAGIC_EMBEDDED_SIGNATURE,
        be_u32(d, 4) <= d.len(),
        sb_count(d) == 0,
    ensures
        super_blob_error(d) is None,
{
}

/// Framing blobs fails only with `Read` or `BadOffset`.
proof fn lemma_entries_error_kinds(d: Seq<u8>, n: int)
    ensures
        sb_entries_error(d, n) is None || sb_entries_error(d, n) == Some(MachOParseError::Read)
            || sb_entries_error(d, n) == Some(MachOParseError::BadOffset),
    decreases n,
{
    if n > 0 {
        lemma_entries_error_kinds(d, n - 1);
    }
}

/// Cutting a well-formed super blob short at any length gives either a
/// well-formed super blob or a `Read` or `BadOffset` error.
pub proof fn lemma_truncation_errors(d: Seq<u8>, n: int)
    requires
        super_blob_error(d) is None,
        0 <= n <= d.len(),
    ensures
        super_blob_error(d.take(n)) is None || super_blob_error(d.take(n)) == Some(
            MachOParseError::Read,
        ) || super_blob_error(d.take(n)) == Some(MachOParseError::BadOffset),
{
    let t = d.take(n);
    if n >= 4 {
        assert(be_u32(t, 0) == be_u32(d, 0));
    }
    lemma_entries_error_kinds(t, sb_count(t) as int);
}

/// One record of the super-blob index table.
pub(crate) struct BlobIndex {
    pub(crate) typ: u32,
    pub(crate) offset: u32,
}

/// The end of the span that starts at `off`: the least offset of `indices`
/// greater than `off`, bounded by `bound`.
fn span_end_of(indices: &Vec<BlobIndex>, off: u32, bound: usize) -> (r: usize)
    ensures
        r == span_end(indices@.map_values(|x: BlobIndex| x.offset), off as int, bound as int),
{
    let ghost offs = indices@.map_values(|x: BlobIndex| x.offset);
    let mut best: usize = bound;
    let mut j: usize = 0;
    while j < indices.len()
        invariant
            j <= indices@.len(),
            offs == indices@.map_values(|x: BlobIndex| x.offset),
            best == span_end(offs.take(j as int), off as int, bound as int),
        decreases indices@.len() - j,
    {
        let o = indices[j].offset;
        proof {
            assert(offs.take(j + 1).drop_last() =~= offs.take(j as int));
        }
        if off < o && (o as usize) < best {
            best = o as usize;
        }
        j += 1;
    }
    proof {
        assert(offs.take(j as int) =~= offs);
    }
    best
}

/// Reads the `count` records of the index table that follows the header.
pub(crate) fn read_index_table(data: &[u8], count: u32) -> (r: Result<Vec<BlobIndex>, MachOParseError>)
    requires
        data@.len() >= 12,
        count == sb_count(data@),
    ensures
        match r {
            Ok(indices) => 12 + 8 * count <= data@.len() && indices@.len() == count && forall|j: int|
                0 <= j < count ==> (#[trigger] indices@[j]).typ == sb_index_slot(data@, j)
                    && indices@[j].offset == sb_index_offset(data@, j),
            Err(e) => 12 + 8 * count > data@.len() && e == MachOParseError::Read,
        },
{
    let len = data.len();
    let mut indices: Vec<BlobIndex> = Vec::new();
    let mut pos: usize = 12;
    let mut i: u32 = 0;
    while i < count
        invariant
            len == data@.len(),
            count == sb_count(data@),
            i <= count,
            pos == 12 + 8 * i,
            pos <= len,
            indices@.len() == i,
            forall|j: int| 0 <= j < i ==> (#[trigger] indices@[j]).typ == sb_index_slot(data@, j)
                && indices@[j].offset == sb_index_offset(data@, j),
        decreases count - i,
    {
        if len - pos < 8 {
            return Err(MachOParseError::Read);
        }
        let typ = read_u32_be(data, pos)?;
        let offset = read_u32_be(data, pos + 4)?;
        indices.push(BlobIndex { typ, offset });
        pos = pos + 8;
        i = i + 1;
    }
    Ok(indices)
}

/// Frames the blob of index entry `k`.
fn frame_blob<'a>(data: &'a [u8], indices: &Vec<BlobIndex>, k: usize) -> (r: Result<
    BlobEntry<'a>,
    MachOParseError,
>)
    requires
        k < indices@.len(),
        indices@.len() == sb_count(data@),
        forall|j: int| 0 <= j < indices@.len() ==> (#[trigger] indices@[j]).typ == sb_index_slot(data@, j)
            && indices@[j].offset == sb_index_offset(data@, j),
    ensures
        match r {
            Ok(e) => sb_entry_error(data@, k as int) is None && e.decoded_from(data@, k as int),
            Err(e) => sb_entry_error(data@, k as int) == Some(e),
        },
{
    let ghost d = data@;
    let len = data.len();
    proof {
        assert(indices@.map_values(|x: BlobIndex| x.offset) =~= sb_offsets(d));
    }
    let off = indices[k].offset;
    let end = span_end_of(indices, off, len);
    proof {
        lemma_span_end_le(sb_offsets(d), off as int, d.len() as int);
    }
    if off as usize > end {
        return Err(MachOParseError::BadOffset);
    }
    if end - (off as usize) < 8 {
        return Err(MachOParseError::Read);
    }
    let blob_magic = read_u32_be(data, off as usize)?;
    let blob_length = read_u32_be(data, off as usize + 4)?;
    if blob_length as usize > end - (off as usize) {
        return Err(MachOParseError::BadOffset);
    }
    let blob_data = sub_slice(data, off as usize, off as usize + blob_length as usize)?;
    Ok(
        BlobEntry {
            index: k,
            slot: CodeSigningSlot::from_u32(indices[k].typ),
            offset: off as usize,
            magic: CodeSigningMagic::from_u32(blob_magic),
            length: blob_length as usize,
            data: blob_data,
        },
    )
}

impl<'a> EmbeddedSignature<'a> {
    /// Decodes an embedded-signature super blob.
    ///
    /// `data` is likely the part of the `__LINKEDIT` segment that the
    /// code-signature load command points at. Each blob runs from its offset
    /// to the next larger offset of the index table, or to the end of the
    /// data; its header's length must fit in that span.
    pub fn from_bytes(data: &'a [u8]) -> (r: Result<Self, MachOParseError>)
        ensures
            match r {
                Ok(sig) => super_blob_error(data@) is None && sig.decoded_from(data@),
                Err(e) => super_blob_error(data@) == Some(e),
            },
            r matches Ok(sig) ==> sig.length <= data@.len(),
            r matches Ok(sig) ==> forall|i: int| 0 <= i < sig.blobs@.len()
                ==> #[trigger] sig.blobs@[i].offset + sig.blobs@[i].length <= data@.len(),
    {
        let ghost d = data@;
        let magic = read_u32_be(data, 0)?;
        if magic != CSMAGIC_EMBEDDED_SIGNATURE {
            return Err(MachOParseError::BadMagic);
        }
        let length = read_u32_be(data, 4)?;
        let count = read_u32_be(data, 8)?;
        let indices = read_index_table(data, count)?;
        if length as usize > data.len() {
            return Err(MachOParseError::BadOffset);
        }

        let mut blobs: Vec<BlobEntry<'a>> = Vec::new();
        let mut k: usize = 0;
        while k < indices.len()
            invariant
                d == data@,
                count == sb_count(d),
                d.len() >= 12,
                12 + 8 * count <= d.len(),
                be_u32(d, 0) == CSMAGIC_EMBEDDED_SIGNATURE,
                length == be_u32(d, 4),
                length <= d.len(),
                indices@.len() == count,
                forall|j: int| 0 <= j < count ==> (#[trigger] indices@[j]).typ == sb_index_slot(d, j)
                    && indices@[j].offset == sb_index_offset(d, j),
                k <= count,
                sb_entries_error(d, k as int) is None,
                blobs@.len() == k,
                forall|j: int| 0 <= j < k ==> (#[trigger] blobs@[j]).decoded_from(d, j),
            decreases count - k,
        {
            match frame_blob(data, &indices, k) {
                Ok(entry) => {
                    blobs.push(entry);
                },
                Err(e) => {
                    proof {
                        lemma_entries_error_first(d, k as int, count as int);
                    }
                    return Err(e);
                },
            }
            k += 1;
        }
        proof {
            assert forall|i: int| 0 <= i < blobs@.len() implies #[trigger] blobs@[i].offset
                + blobs@[i].length <= d.len() by {
                lemma_entries_error_none(d, i, count as int);
                lemma_span_end_le(sb_offsets(d), sb_index_offset(d, i) as int, d.len() as int);
            }
        }
        Ok(EmbeddedSignature { magic: CodeSigningMagic::EmbeddedSignature, length, count, data, blobs })
    }
}

/// The first of the first `n` entries of `blobs` that has slot `slot`.
pub open spec fn first_in_slot(blobs: Seq<BlobEntry>, slot: CodeSigningSlot, n: int) -> Option<
    BlobEntry,
>
    decreases n,
{
    if n <= 0 {
        None
    } else {
        match first_in_slot(blobs, slot, n - 1) {
            Some(e) => Some(e),
            None => if blobs[n - 1].slot == slot {
                Some(blobs[n - 1])
            } else {
                None
            },
        }
    }
}

proof fn lemma_first_in_slot_stays(blobs: Seq<BlobEntry>, slot: CodeSigningSlot, k: int, n: int)
    requires
        0 <= k < n,
        first_in_slot(blobs, slot, k) is None,
        blobs[k].slot == slot,
    ensures
        first_in_slot(blobs, slot, n) == Some(blobs[k]),
    decreases n,
{
    if n > k + 1 {
        lemma_first_in_slot_stays(blobs, slot, k, n - 1);
    }
}

/// A blob entry together with its decoded content.
#[derive(Debug)]
pub struct ParsedBlob<'a> {
    /// The entry the blob came from.
    pub blob_entry: BlobEntry<'a>,
    /// The decoded blob.
    pub blob: BlobData<'a>,
}

impl<'a> BlobEntry<'a> {
    /// Decodes this entry's blob by its magic.
    pub fn into_parsed_blob(self) -> (r: Result<ParsedBlob<'a>, MachOParseError>)
        ensures
            match r {
                Ok(p) => blob_data_error(self.data@) is None && p.blob_entry == self
                    && p.blob.decoded_from(self.data@),
                Err(e) => blob_data_error(self.data@) == Some(e),
            },
    {
        let blob = BlobData::from_bytes(self.data)?;
        Ok(ParsedBlob { blob_entry: self, blob })
    }
}

impl<'a> EmbeddedSignature<'a> {
    /// The first entry of slot `slot`, if any.
    pub fn find_slot(&self, slot: CodeSigningSlot) -> (r: Option<&BlobEntry<'a>>)
        ensures
            match r {
                Some(e) => first_in_slot(self.blobs@, slot, self.blobs@.len() as int) == Some(*e),
                None => first_in_slot(self.blobs@, slot, self.blobs@.len() as int) is None,
            },
    {
        let mut i: usize = 0;
        while i < self.blobs.len()
            invariant
                i <= self.blobs@.len(),
                first_in_slot(self.blobs@, slot, i as int) is None,
            decreases self.blobs@.len() - i,
        {
            if self.blobs[i].slot == slot {
                proof {
                    lemma_first_in_slot_stays(self.blobs@, slot, i as int, self.blobs@.len() as int);
                }
                return Some(&self.blobs[i]);
            }
            i += 1;
        }
        None
    }

    /// The first entry of slot `slot`, decoded by its magic.
    pub fn find_slot_parsed(&self, slot: CodeSigningSlot) -> (r: Result<
        Option<ParsedBlob<'a>>,
        MachOParseError,
    >)
        ensures
            match first_in_slot(self.blobs@, slot, self.blobs@.len() as int) {
                None => r matches Ok(None),
                Some(e) => match r {
                    Ok(Some(p)) => blob_data_error(e.data@) is None && p.blob_entry == e
                        && p.blob.decoded_from(e.data@),
                    Ok(None) => false,
                    Err(err) => blob_data_error(e.data@) == Some(err),
                },
            },
    {
        match self.find_slot(slot) {
            Some(entry) => Ok(Some(entry.into_parsed_blob()?)),
            None => Ok(None),
        }
    }

    /// The code directory of slot `CodeDirectory`, if there is one;
    /// `BadMagic` where that slot holds another kind of blob.
    pub fn code_directory(&self) -> (r: Result<Option<Box<CodeDirectoryBlob<'a>>>, MachOParseError>)
        ensures
            match first_in_slot(self.blobs@, CodeSigningSlot::CodeDirectory, self.blobs@.len() as int) {
                None => r matches Ok(None),
                Some(e) => match blob_data_error(e.data@) {
                    Some(err) => r == Err::<Option<Box<CodeDirectoryBlob>>, MachOParseError>(err),
                    None => if be_u32(e.data@, 0) == CSMAGIC_CODEDIRECTORY {
                        r matches Ok(Some(cd)) && cd.decoded_from(framed(e.data@))
                    } else {
                        r == Err::<Option<Box<CodeDirectoryBlob>>, MachOParseError>(MachOParseError::BadMagic)
                    },
                },
            },
    {
        match self.find_slot_parsed(CodeSigningSlot::CodeDirectory)? {
            Some(parsed) => match parsed.blob {
                BlobData::CodeDirectory(cd) => Ok(Some(cd)),
                _ => Err(MachOParseError::BadMagic),
            },
            None => Ok(None),
        }
    }

    /// The requirements of slot `Requirements`, if there are any;
    /// `BadMagic` where that slot holds another kind of blob.
    pub fn requirements(&self) -> (r: Result<Option<RequirementsBlob<'a>>, MachOParseError>)
        ensures
            match first_in_slot(self.blobs@, CodeSigningSlot::Requirements, self.blobs@.len() as int) {
                None => r matches Ok(None),
                Some(e) => match blob_data_error(e.data@) {
                    Some(err) => r == Err::<Option<RequirementsBlob>, MachOParseError>(err),
                    None => if be_u32(e.data@, 0) == CSMAGIC_REQUIREMENTS {
                        r matches Ok(Some(reqs)) && reqs.decoded_from(framed(e.data@))
                    } else {
                        r == Err::<Option<RequirementsBlob>, MachOParseError>(MachOParseError::BadMagic)
                    },
                },
            },
    {
        match self.find_slot_parsed(CodeSigningSlot::Requirements)? {
            Some(parsed) => match parsed.blob {
                BlobData::Requirements(reqs) => Ok(Some(reqs)),
                _ => Err(MachOParseError::BadMagic),
            },
            None => Ok(None),
        }
    }

    /// The raw CMS signature: the payload of the blob wrapper in slot
    /// `Signature`, if there is one; `BadMagic` where that slot holds another
    /// kind of blob.
    pub fn signature_data(&self) -> (r: Result<Option<&'a [u8]>, MachOParseError>)
        ensures
            match first_in_slot(self.blobs@, CodeSigningSlot::Signature, self.blobs@.len() as int) {
                None => r matches Ok(None),
                Some(e) => match blob_data_error(e.data@) {
                    Some(err) => r == Err::<Option<&[u8]>, MachOParseError>(err),
                    None => if be_u32(e.data@, 0) == CSMAGIC_BLOBWRAPPER {
                        r matches Ok(Some(sig)) && sig@ == payload(framed(e.data@))
                    } else {
                        r == Err::<Option<&[u8]>, MachOParseError>(MachOParseError::BadMagic)
                    },
                },
            },
    {
        match self.find_slot_parsed(CodeSigningSlot::Signature)? {
            Some(parsed) => match parsed.blob {
                BlobData::BlobWrapper(blob) => Ok(Some(blob.data)),
                _ => Err(MachOParseError::BadMagic),
            },
            None => Ok(None),
        }
    }
}

} // verus!
