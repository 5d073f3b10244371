//! The code directory: a versioned record of hash slots.
use crate::error::MachOParseError;
use crate::hash::{hash_type_from_u8, HashType};
use crate::slot::{slot_from_u32, CodeSigningSlot, CSMAGIC_CODEDIRECTORY};
use crate::wire::{
    be_u16, be_u32, be_u64, decode_text, read_u16_be, read_u32_be, read_u64_be, read_u8,
    read_and_validate_blob_header, sub_slice, utf8_result,
};
use vstd::arithmetic::power2::{
    lemma2_to64, lemma_pow2_strictly_increases, lemma_pow2_unfold, pow2,
};
use vstd::prelude::*;
use vstd::slice::slice_subrange;
use vstd::utf8::valid_utf8;

verus! {

/// First version with a scatter vector.
pub const CS_SUPPORTSSCATTER: u32 = 0x20100;
/// First version with a team identifier.
pub const CS_SUPPORTSTEAMID: u32 = 0x20200;
/// First version with a 64-bit code limit.
pub const CS_SUPPORTSCODELIMIT64: u32 = 0x20300;
/// First version with executable segment fields.
pub const CS_SUPPORTSEXECSEG: u32 = 0x20400;
/// First version with runtime fields.
pub const CS_SUPPORTSRUNTIME: u32 = 0x20500;
/// First version with linkage fields.
pub const CS_SUPPORTSLINKAGE: u32 = 0x20600;

/// Where the fixed fields of a code directory of version `v` end.
pub open spec fn cd_fields_end(v: u32) -> int {
    if v >= CS_SUPPORTSLINKAGE {
        108
    } else if v >= CS_SUPPORTSRUNTIME {
        96
    } else if v >= CS_SUPPORTSEXECSEG {
        88
    } else if v >= CS_SUPPORTSCODELIMIT64 {
        64
    } else if v >= CS_SUPPORTSTEAMID {
        52
    } else if v >= CS_SUPPORTSSCATTER {
        48
    } else {
        44
    }
}

/// The index of the first NUL byte of `d` at or after `i`, or `d.len()`.
pub open spec fn nul_from(d: Seq<u8>, i: int) -> int
    decreases d.len() - i,
{
    if i >= d.len() {
        d.len() as int
    } else if d[i] == 0 {
        i
    } else {
        nul_from(d, i + 1)
    }
}

/// The version field of a code directory.
pub open spec fn cd_version(d: Seq<u8>) -> u32 {
    be_u32(d, 8)
}

/// The offset of the first code hash.
pub open spec fn cd_hash_offset(d: Seq<u8>) -> u32 {
    be_u32(d, 16)
}

/// The offset of the identifier.
pub open spec fn cd_ident_offset(d: Seq<u8>) -> u32 {
    be_u32(d, 20)
}

/// The number of special hash slots.
pub open spec fn cd_n_special(d: Seq<u8>) -> u32 {
    be_u32(d, 24)
}

/// The number of code hash slots.
pub open spec fn cd_n_code(d: Seq<u8>) -> u32 {
    be_u32(d, 28)
}

/// The size of one hash slot.
pub open spec fn cd_hash_size(d: Seq<u8>) -> u8 {
    d[36]
}

/// The identifier's bytes, without their NUL terminator.
pub open spec fn cd_ident_bytes(d: Seq<u8>) -> Seq<u8> {
    d.subrange(cd_ident_offset(d) as int, nul_from(d, cd_ident_offset(d) as int))
}

/// Where the special hash slots start.
pub open spec fn cd_special_start(d: Seq<u8>) -> int {
    cd_hash_offset(d) - cd_n_special(d) * cd_hash_size(d)
}

/// Why `d` is not a well-formed code directory blob, if it is not.
pub open spec fn code_directory_error(d: Seq<u8>) -> Option<MachOParseError> {
    if d.len() < 8 {
        Some(MachOParseError::Read)
    } else if be_u32(d, 0) != CSMAGIC_CODEDIRECTORY {
        Some(MachOParseError::BadMagic)
    } else if d.len() < 12 || d.len() < cd_fields_end(cd_version(d)) {
        Some(MachOParseError::Read)
    } else if d[39] >= 32 {
        Some(MachOParseError::BadOffset)
    } else if cd_ident_offset(d) > d.len() {
        Some(MachOParseError::Read)
    } else if nul_from(d, cd_ident_offset(d) as int) == d.len() {
        Some(MachOParseError::BadIdentifierString)
    } else if utf8_result(cd_ident_bytes(d)) is Err {
        Some(utf8_result(cd_ident_bytes(d))->Err_0)
    } else if cd_hash_offset(d) + cd_n_code(d) * cd_hash_size(d) > d.len() {
        Some(MachOParseError::Read)
    } else if cd_special_start(d) < 0 {
        Some(MachOParseError::BadOffset)
    } else {
        None
    }
}

/// `hashes` are the `count` slots of `size` bytes of `d` from `start` on.
pub open spec fn hashes_at(hashes: Seq<crate::hash::Hash>, d: Seq<u8>, start: int, count: int, size: int) -> bool {
    &&& hashes.len() == count
    &&& forall|i: int|
        0 <= i < count ==> (#[trigger] hashes[i]).data@ == d.subrange(
            start + i * size,
            start + i * size + size,
        )
}

/// A code directory blob, decoded.
///
/// Fields that the directory's version does not have are `None`.
#[derive(Debug)]
pub struct CodeDirectoryBlob<'a> {
    /// Compatibility version.
    pub version: u32,
    /// Setup and mode flags.
    pub flags: u32,
    /// Offset of hash slot element at index zero.
    pub hash_offset: u32,
    /// Offset of identifier string.
    pub ident_offset: u32,
    /// Number of special hash slots.
    pub n_special_slots: u32,
    /// Number of ordinary code hash slots.
    pub n_code_slots: u32,
    /// Limit to main image signature range.
    pub code_limit: u32,
    /// Size of each hash in bytes.
    pub hash_size: u8,
    /// Type of hash.
    pub hash_type: HashType,
    /// Platform identifier; 0 if not a platform binary.
    pub platform: u8,
    /// Page size in bytes (stored on the wire as a power of two).
    pub page_size: u32,
    /// Unused (must be 0).
    pub spare2: u32,
    /// Offset of optional scatter vector (version 0x20100).
    pub scatter_offset: Option<u32>,
    /// Offset of optional team identifier (version 0x20200).
    pub team_offset: Option<u32>,
    /// Unused (must be 0) (version 0x20300).
    pub spare3: Option<u32>,
    /// Limit to main image signature range, 64 bits (version 0x20300).
    pub code_limit_64: Option<u64>,
    /// Offset of executable segment (version 0x20400).
    pub exec_seg_base: Option<u64>,
    /// Limit of executable segment (version 0x20400).
    pub exec_seg_limit: Option<u64>,
    /// Executable segment flags (version 0x20400).
    pub exec_seg_flags: Option<u64>,
    /// Runtime version (version 0x20500).
    pub runtime: Option<u32>,
    /// Offset of pre-encryption hashes (version 0x20500).
    pub pre_encrypt_offset: Option<u32>,
    /// Linkage hash type (version 0x20600).
    pub linkage_hash_type: Option<u8>,
    /// Linkage truncation (version 0x20600).
    pub linkage_truncated: Option<u8>,
    /// Unused (version 0x20600).
    pub spare4: Option<u16>,
    /// Offset of linkage data (version 0x20600).
    pub linkage_offset: Option<u32>,
    /// Size of linkage data (version 0x20600).
    pub linkage_size: Option<u32>,
    /// The identifier.
    pub ident: &'a str,
    /// The code hash slots, in order.
    pub code_hashes: Vec<crate::hash::Hash<'a>>,
    /// The special hash slots, keyed by slot; slot 0 lies farthest from
    /// `hash_offset`.
    pub special_hashes: Vec<(CodeSigningSlot, crate::hash::Hash<'a>)>,
}

/// An entry of the scatter vector that `scatter_offset` points at.
pub struct Scatter {
    /// Number of pages; 0 for the sentinel only.
    pub count: u32,
    /// First page number.
    pub base: u32,
    /// Offset in target.
    pub target_offset: u64,
    /// Reserved.
    pub spare: u64,
}

/// `Some(x)` where version `v` has reached `min`, else `None`.
pub open spec fn gated<T>(v: u32, min: u32, x: T) -> Option<T> {
    if v >= min {
        Some(x)
    } else {
        None
    }
}

impl<'a> CodeDirectoryBlob<'a> {
    /// This value is the decoding of the well-formed code directory `d`.
    pub open spec fn decoded_from(&self, d: Seq<u8>) -> bool {
        let v = cd_version(d);
        &&& self.version == v
        &&& self.flags == be_u32(d, 12)
        &&& self.hash_offset == cd_hash_offset(d)
        &&& self.ident_offset == cd_ident_offset(d)
        &&& self.n_special_slots == cd_n_special(d)
        &&& self.n_code_slots == cd_n_code(d)
        &&& self.code_limit == be_u32(d, 32)
        &&& self.hash_size == cd_hash_size(d)
        &&& self.hash_type == hash_type_from_u8(d[37])
        &&& self.platform == d[38]
        &&& self.page_size == pow2(d[39] as nat)
        &&& self.spare2 == be_u32(d, 40)
        &&& self.scatter_offset == gated(v, CS_SUPPORTSSCATTER, be_u32(d, 44))
        &&& self.team_offset == gated(v, CS_SUPPORTSTEAMID, be_u32(d, 48))
        &&& self.spare3 == gated(v, CS_SUPPORTSCODELIMIT64, be_u32(d, 52))
        &&& self.code_limit_64 == gated(v, CS_SUPPORTSCODELIMIT64, be_u64(d, 56))
        &&& self.exec_seg_base == gated(v, CS_SUPPORTSEXECSEG, be_u64(d, 64))
        &&& self.exec_seg_limit == gated(v, CS_SUPPORTSEXECSEG, be_u64(d, 72))
        &&& self.exec_seg_flags == gated(v, CS_SUPPORTSEXECSEG, be_u64(d, 80))
        &&& self.runtime == gated(v, CS_SUPPORTSRUNTIME, be_u32(d, 88))
        &&& self.pre_encrypt_offset == gated(v, CS_SUPPORTSRUNTIME, be_u32(d, 92))
        &&& self.linkage_hash_type == gated(v, CS_SUPPORTSLINKAGE, d[96])
        &&& self.linkage_truncated == gated(v, CS_SUPPORTSLINKAGE, d[97])
        &&& self.spare4 == gated(v, CS_SUPPORTSLINKAGE, be_u16(d, 98))
        &&& self.linkage_offset == gated(v, CS_SUPPORTSLINKAGE, be_u32(d, 100))
        &&& self.linkage_size == gated(v, CS_SUPPORTSLINKAGE, be_u32(d, 104))
        &&& utf8_result(cd_ident_bytes(d)) == Ok::<Seq<char>, MachOParseError>(self.ident@)
        &&& hashes_at(
            self.code_hashes@,
            d,
            cd_hash_offset(d) as int,
            cd_n_code(d) as int,
            cd_hash_size(d) as int,
        )
        &&& hashes_at(
            self.special_hashes@.map_values(|p: (CodeSigningSlot, crate::hash::Hash)| p.1),
            d,
            cd_special_start(d),
            cd_n_special(d) as int,
            cd_hash_size(d) as int,
        )
        &&& forall|i: int|
            0 <= i < self.special_hashes@.len() ==> (#[trigger] self.special_hashes@[i]).0
                == slot_from_u32(i as u32)
    }
}

/// `2^exp` where it fits in 32 bits.
fn page_size_of(exp: u8) -> (r: Option<u32>)
    ensures
        exp < 32 ==> r == Some(pow2(exp as nat) as u32),
        r matches Some(p) ==> p == pow2(exp as nat),
        exp >= 32 ==> r is None,
{
    if exp >= 32 {
        return None;
    }
    let mut p: u32 = 1;
    let mut i: u8 = 0;
    proof {
        lemma2_to64();
    }
    while i < exp
        invariant
            i <= exp < 32,
            p == pow2(i as nat),
        decreases exp - i,
    {
        proof {
            lemma_pow2_unfold((i + 1) as nat);
            lemma_pow2_strictly_increases((i + 1) as nat, 32);
            lemma2_to64();
        }
        p = p * 2;
        i = i + 1;
    }
    proof {
        lemma_pow2_strictly_increases(exp as nat, 32);
        lemma2_to64();
    }
    Some(p)
}

/// Where the fixed fields of a code directory of this version end.
fn fields_end(v: u32) -> (r: usize)
    ensures
        r == cd_fields_end(v),
{
    if v >= CS_SUPPORTSLINKAGE {
        108
    } else if v >= CS_SUPPORTSRUNTIME {
        96
    } else if v >= CS_SUPPORTSEXECSEG {
        88
    } else if v >= CS_SUPPORTSCODELIMIT64 {
        64
    } else if v >= CS_SUPPORTSTEAMID {
        52
    } else if v >= CS_SUPPORTSSCATTER {
        48
    } else {
        44
    }
}

/// The index of the first NUL at or after `start`, or the length of `data`.
fn find_nul(data: &[u8], start: usize) -> (r: usize)
    requires
        start <= data@.len(),
    ensures
        r == nul_from(data@, start as int),
        start <= r <= data@.len(),
{
    let mut i = start;
    while i < data.len()
        invariant
            start <= i <= data@.len(),
            nul_from(data@, start as int) == nul_from(data@, i as int),
        decreases data@.len() - i,
    {
        if data[i] == 0 {
            return i;
        }
        i += 1;
    }
    i
}

/// The `count` hash slots of `hash_size` bytes that start at `offset`.
fn get_hashes<'a>(data: &'a [u8], offset: usize, count: usize, hash_size: usize) -> (r: Vec<
    crate::hash::Hash<'a>,
>)
    requires
        offset + count * hash_size <= data@.len(),
    ensures
        hashes_at(r@, data@, offset as int, count as int, hash_size as int),
{
    let len = data.len();
    let mut hashes: Vec<crate::hash::Hash<'a>> = Vec::new();
    let mut pos = offset;
    let mut i: usize = 0;
    while i < count
        invariant
            len == data@.len(),
            offset + count * hash_size <= data@.len(),
            i <= count,
            pos == offset + i * hash_size,
            hashes@.len() == i,
            forall|k: int|
                0 <= k < i ==> (#[trigger] hashes@[k]).data@ == data@.subrange(
                    offset + k * hash_size,
                    offset + k * hash_size + hash_size,
                ),
        decreases count - i,
    {
        proof {
            assert(i * hash_size + hash_size == (i + 1) * hash_size) by (nonlinear_arith);
            assert((i + 1) * hash_size <= count * hash_size) by (nonlinear_arith)
                requires
                    i + 1 <= count,
            ;
        }
        let slot = slice_subrange(data, pos, pos + hash_size);
        hashes.push(crate::hash::Hash { data: slot });
        pos = pos + hash_size;
        i += 1;
    }
    hashes
}

proof fn lemma_hash_lengths(hashes: Seq<crate::hash::Hash>, d: Seq<u8>, start: int, count: int, size: int)
    requires
        hashes_at(hashes, d, start, count, size),
        start >= 0,
        size >= 0,
        start + count * size <= d.len(),
    ensures
        forall|i: int| 0 <= i < count ==> (#[trigger] hashes[i]).data@.len() == size,
{
    assert forall|i: int| 0 <= i < count implies (#[trigger] hashes[i]).data@.len() == size by {
        assert(0 <= i * size && i * size + size <= count * size) by (nonlinear_arith)
            requires
                0 <= i < count,
                size >= 0,
        ;
    }
}

proof fn lemma_no_nul(d: Seq<u8>, i: int)
    requires
        0 <= i <= d.len(),
        forall|k: int| i <= k < d.len() ==> d[k] != 0,
    ensures
        nul_from(d, i) == d.len(),
    decreases d.len() - i,
{
    if i < d.len() {
        lemma_no_nul(d, i + 1);
    }
}

/// The fixed fields of a code directory can be read: the blob has the code
/// directory magic, holds every field of its version, and its page size
/// fits in 32 bits.
pub open spec fn cd_header_ok(d: Seq<u8>) -> bool {
    &&& d.len() >= 12
    &&& be_u32(d, 0) == CSMAGIC_CODEDIRECTORY
    &&& d.len() >= cd_fields_end(cd_version(d))
    &&& d[39] < 32
}

/// An identifier with no NUL at or after its offset, including one whose
/// offset is the end of the blob, is refused with `BadIdentifierString`.
pub proof fn lemma_identifier_without_nul(d: Seq<u8>)
    requires
        cd_header_ok(d),
        cd_ident_offset(d) <= d.len(),
        forall|i: int| cd_ident_offset(d) <= i < d.len() ==> d[i] != 0,
    ensures
        code_directory_error(d) == Some(MachOParseError::BadIdentifierString),
{
    lemma_no_nul(d, cd_ident_offset(d) as int);
}

/// Where the special hashes would start before the blob
/// (`hash_offset < hash_size * n_special_slots`), decoding fails with
/// `BadOffset`, once the identifier and the code hashes are in place.
pub proof fn lemma_special_hashes_underflow(d: Seq<u8>)
    requires
        cd_header_ok(d),
        cd_ident_offset(d) <= d.len(),
        nul_from(d, cd_ident_offset(d) as int) < d.len(),
        valid_utf8(cd_ident_bytes(d)),
        cd_hash_offset(d) + cd_n_code(d) * cd_hash_size(d) <= d.len(),
        cd_hash_offset(d) < cd_n_special(d) * cd_hash_size(d),
    ensures
        code_directory_error(d) == Some(MachOParseError::BadOffset),
{
}

/// A code directory decodes exactly when its fields can be read, its
/// identifier is NUL-terminated UTF-8, its code hashes lie inside the blob
/// and its special hashes start at or after the blob's start.
pub proof fn lemma_code_directory_decodes(d: Seq<u8>)
    requires
        cd_header_ok(d),
        cd_ident_offset(d) <= d.len(),
        nul_from(d, cd_ident_offset(d) as int) < d.len(),
        valid_utf8(cd_ident_bytes(d)),
        cd_hash_offset(d) + cd_n_code(d) * cd_hash_size(d) <= d.len(),
        cd_n_special(d) * cd_hash_size(d) <= cd_hash_offset(d),
    ensures
        code_directory_error(d) is None,
{
}

/// A decoded code directory has exactly the fields of its version, one code
/// hash per code slot and one special hash per special slot, each of
/// `hash_size` bytes, and the special hashes are keyed by slots 0, 1, ...
pub proof fn lemma_decoded_code_directory_shape(cd: CodeDirectoryBlob, d: Seq<u8>)
    requires
        code_directory_error(d) is None,
        cd.decoded_from(d),
    ensures
        cd.scatter_offset is Some <==> cd.version >= CS_SUPPORTSSCATTER,
        cd.team_offset is Some <==> cd.version >= CS_SUPPORTSTEAMID,
        cd.code_limit_64 is Some <==> cd.version >= CS_SUPPORTSCODELIMIT64,
        cd.exec_seg_base is Some <==> cd.version >= CS_SUPPORTSEXECSEG,
        cd.exec_seg_limit is Some <==> cd.version >= CS_SUPPORTSEXECSEG,
        cd.exec_seg_flags is Some <==> cd.version >= CS_SUPPORTSEXECSEG,
        cd.runtime is Some <==> cd.version >= CS_SUPPORTSRUNTIME,
        cd.pre_encrypt_offset is Some <==> cd.version >= CS_SUPPORTSRUNTIME,
        cd.linkage_size is Some <==> cd.version >= CS_SUPPORTSLINKAGE,
        cd.code_hashes@.len() == cd.n_code_slots,
        cd.special_hashes@.len() == cd.n_special_slots,
        forall|i: int|
            0 <= i < cd.code_hashes@.len() ==> (#[trigger] cd.code_hashes@[i]).data@.len() == cd.hash_size,
        forall|i: int|
            0 <= i < cd.special_hashes@.len() ==> (#[trigger] cd.special_hashes@[i]).1.data@.len()
                == cd.hash_size && cd.special_hashes@[i].0 == slot_from_u32(i as u32),
{
    let specials = cd.special_hashes@.map_values(|p: (CodeSigningSlot, crate::hash::Hash)| p.1);
    lemma_hash_lengths(cd.code_hashes@, d, cd_hash_offset(d) as int, cd_n_code(d) as int, cd_hash_size(d) as int);
    lemma_hash_lengths(specials, d, cd_special_start(d), cd_n_special(d) as int, cd_hash_size(d) as int);
    assert forall|i: int| 0 <= i < cd.special_hashes@.len() implies (#[trigger] cd.special_hashes@[i]).1.data@.len()
        == cd.hash_size && cd.special_hashes@[i].0 == slot_from_u32(i as u32) by {
        assert(specials[i] == cd.special_hashes@[i].1);
    }
}

impl<'a> CodeDirectoryBlob<'a> {
    /// The special hash of slot `slot`, if the directory has one.
    pub fn special_hash(&self, slot: CodeSigningSlot) -> (r: Option<&crate::hash::Hash<'a>>)
        ensures
            match r {
                Some(h) => exists|i: int|
                    0 <= i < self.special_hashes@.len() && (#[trigger] self.special_hashes@[i]).0 == slot
                        && *h == self.special_hashes@[i].1 && forall|j: int|
                        0 <= j < i ==> (#[trigger] self.special_hashes@[j]).0 != slot,
                None => forall|i: int|
                    0 <= i < self.special_hashes@.len() ==> (#[trigger] self.special_hashes@[i]).0 != slot,
            },
    {
        let mut i: usize = 0;
        while i < self.special_hashes.len()
            invariant
                i <= self.special_hashes@.len(),
                forall|j: int| 0 <= j < i ==> (#[trigger] self.special_hashes@[j]).0 != slot,
            decreases self.special_hashes@.len() - i,
        {
            if self.special_hashes[i].0 == slot {
                return Some(&self.special_hashes[i].1);
            }
            i += 1;
        }
        None
    }

    /// Decodes a code directory blob, header included.
    ///
    /// Fields are read in order; those added in later versions are read only
    /// where `version` has reached the version that added them. The code
    /// hashes start at `hash_offset`; the special hashes end there.
    pub fn from_bytes(data: &'a [u8]) -> (r: Result<Self, MachOParseError>)
        ensures
            match r {
                Ok(cd) => code_directory_error(data@) is None && cd.decoded_from(data@),
                Err(e) => code_directory_error(data@) == Some(e),
            },
            r matches Ok(cd) ==> {
                &&& cd.code_hashes@.len() == cd.n_code_slots
                &&& cd.special_hashes@.len() == cd.n_special_slots
                &&& forall|i: int| 0 <= i < cd.code_hashes@.len()
                    ==> (#[trigger] cd.code_hashes@[i]).data@.len() == cd.hash_size
                &&& forall|i: int| 0 <= i < cd.special_hashes@.len()
                    ==> (#[trigger] cd.special_hashes@[i]).1.data@.len() == cd.hash_size
            },
            r matches Ok(cd) ==> {
                &&& (cd.scatter_offset is Some <==> cd.version >= CS_SUPPORTSSCATTER)
                &&& (cd.team_offset is Some <==> cd.version >= CS_SUPPORTSTEAMID)
                &&& (cd.spare3 is Some <==> cd.version >= CS_SUPPORTSCODELIMIT64)
                &&& (cd.code_limit_64 is Some <==> cd.version >= CS_SUPPORTSCODELIMIT64)
                &&& (cd.exec_seg_base is Some <==> cd.version >= CS_SUPPORTSEXECSEG)
                &&& (cd.exec_seg_limit is Some <==> cd.version >= CS_SUPPORTSEXECSEG)
                &&& (cd.exec_seg_flags is Some <==> cd.version >= CS_SUPPORTSEXECSEG)
                &&& (cd.runtime is Some <==> cd.version >= CS_SUPPORTSRUNTIME)
                &&& (cd.pre_encrypt_offset is Some <==> cd.version >= CS_SUPPORTSRUNTIME)
                &&& (cd.linkage_hash_type is Some <==> cd.version >= CS_SUPPORTSLINKAGE)
                &&& (cd.linkage_truncated is Some <==> cd.version >= CS_SUPPORTSLINKAGE)
                &&& (cd.spare4 is Some <==> cd.version >= CS_SUPPORTSLINKAGE)
                &&& (cd.linkage_offset is Some <==> cd.version >= CS_SUPPORTSLINKAGE)
                &&& (cd.linkage_size is Some <==> cd.version >= CS_SUPPORTSLINKAGE)
            },
    {
        let ghost d = data@;
        read_and_validate_blob_header(data, CSMAGIC_CODEDIRECTORY)?;
        let version = read_u32_be(data, 8)?;
        if data.len() < fields_end(version) {
            return Err(MachOParseError::Read);
        }
        let flags = read_u32_be(data, 12)?;
        let hash_offset = read_u32_be(data, 16)?;
        let ident_offset = read_u32_be(data, 20)?;
        let n_special_slots = read_u32_be(data, 24)?;
        let n_code_slots = read_u32_be(data, 28)?;
        let code_limit = read_u32_be(data, 32)?;
        let hash_size = read_u8(data, 36)?;
        let hash_type = HashType::from_u8(read_u8(data, 37)?);
        let platform = read_u8(data, 38)?;
        let page_size = match page_size_of(read_u8(data, 39)?) {
            Some(p) => p,
            None => return Err(MachOParseError::BadOffset),
        };
        let spare2 = read_u32_be(data, 40)?;

        let scatter_offset = if version >= CS_SUPPORTSSCATTER {
            Some(read_u32_be(data, 44)?)
        } else {
            None
        };
        let team_offset = if version >= CS_SUPPORTSTEAMID {
            Some(read_u32_be(data, 48)?)
        } else {
            None
        };
        let (spare3, code_limit_64) = if version >= CS_SUPPORTSCODELIMIT64 {
            (Some(read_u32_be(data, 52)?), Some(read_u64_be(data, 56)?))
        } else {
            (None, None)
        };
        let (exec_seg_base, exec_seg_limit, exec_seg_flags) = if version >= CS_SUPPORTSEXECSEG {
            (
                Some(read_u64_be(data, 64)?),
                Some(read_u64_be(data, 72)?),
                Some(read_u64_be(data, 80)?),
            )
        } else {
            (None, None, None)
        };
        let (runtime, pre_encrypt_offset) = if version >= CS_SUPPORTSRUNTIME {
            (Some(read_u32_be(data, 88)?), Some(read_u32_be(data, 92)?))
        } else {
            (None, None)
        };
        let (linkage_hash_type, linkage_truncated, spare4, linkage_offset, linkage_size) =
            if version >= CS_SUPPORTSLINKAGE {
            (
                Some(read_u8(data, 96)?),
                Some(read_u8(data, 97)?),
                Some(read_u16_be(data, 98)?),
                Some(read_u32_be(data, 100)?),
                Some(read_u32_be(data, 104)?),
            )
        } else {
            (None, None, None, None, None)
        };

        // The identifier runs from its offset to the first NUL.
        if ident_offset as usize > data.len() {
            return Err(MachOParseError::Read);
        }
        let nul = find_nul(data, ident_offset as usize);
        if nul == data.len() {
            return Err(MachOParseError::BadIdentifierString);
        }
        let ident = decode_text(slice_subrange(data, ident_offset as usize, nul))?;

        // Code hashes start at `hash_offset`; special hashes end there.
        proof {
            assert(n_code_slots * hash_size <= 0xffff_ffff * 0xff) by (nonlinear_arith)
                requires
                    n_code_slots <= 0xffff_ffff,
                    hash_size <= 0xff,
            ;
            assert(n_special_slots * hash_size <= 0xffff_ffff * 0xff) by (nonlinear_arith)
                requires
                    n_special_slots <= 0xffff_ffff,
                    hash_size <= 0xff,
            ;
        }
        let code_len = n_code_slots as u64 * hash_size as u64;
        if hash_offset as u64 + code_len > data.len() as u64 {
            return Err(MachOParseError::Read);
        }
        let code_hashes = get_hashes(
            data,
            hash_offset as usize,
            n_code_slots as usize,
            hash_size as usize,
        );
        let special_len = n_special_slots as u64 * hash_size as u64;
        if special_len > hash_offset as u64 {
            return Err(MachOParseError::BadOffset);
        }
        let special_start = hash_offset as u64 - special_len;
        let hashes = get_hashes(
            data,
            special_start as usize,
            n_special_slots as usize,
            hash_size as usize,
        );
        let mut special_hashes: Vec<(CodeSigningSlot, crate::hash::Hash<'a>)> = Vec::new();
        let mut i: usize = 0;
        while i < hashes.len()
            invariant
                hashes@.len() == n_special_slots,
                i <= hashes@.len(),
                special_hashes@.len() == i,
                forall|k: int|
                    0 <= k < i ==> (#[trigger] special_hashes@[k]).0 == slot_from_u32(k as u32)
                        && special_hashes@[k].1 == hashes@[k],
            decreases hashes@.len() - i,
        {
            special_hashes.push((CodeSigningSlot::from_u32(i as u32), hashes[i]));
            i += 1;
        }
        proof {
            assert(special_hashes@.map_values(|p: (CodeSigningSlot, crate::hash::Hash)| p.1)
                =~= hashes@);
            lemma_hash_lengths(code_hashes@, d, hash_offset as int, n_code_slots as int, hash_size as int);
            lemma_hash_lengths(hashes@, d, special_start as int, n_special_slots as int, hash_size as int);
            assert forall|i: int| 0 <= i < special_hashes@.len()
                implies (#[trigger] special_hashes@[i]).1.data@.len() == hash_size by {
                assert(special_hashes@[i].1 == hashes@[i]);
            }
        }

        Ok(
            CodeDirectoryBlob {
                version,
                flags,
                hash_offset,
                ident_offset,
                n_special_slots,
                n_code_slots,
                code_limit,
                hash_size,
                hash_type,
                platform,
                page_size,
                spare2,
                scatter_offset,
                team_offset,
                spare3,
                code_limit_64,
                exec_seg_base,
                exec_seg_limit,
                exec_seg_flags,
                runtime,
                pre_encrypt_offset,
                linkage_hash_type,
                linkage_truncated,
                spare4,
                linkage_offset,
                linkage_size,
                ident,
                code_hashes,
                special_hashes,
            },
        )
    }
}

} // verus!
