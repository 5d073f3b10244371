//! Hash types of a code directory, hash slots, and digests.
use crate::error::MachOParseError;
use vstd::prelude::*;
use vstd::slice::slice_to_vec;

verus! {

/// Hash type tag of SHA-1.
pub const CS_HASHTYPE_SHA1: u8 = 1;
/// Hash type tag of SHA-256.
pub const CS_HASHTYPE_SHA256: u8 = 2;
/// Hash type tag of SHA-256 truncated to 20 bytes.
pub const CS_HASHTYPE_SHA256_TRUNCATED: u8 = 3;
/// Hash type tag of SHA-384.
pub const CS_HASHTYPE_SHA384: u8 = 4;

/// The digest algorithm of a code directory.
#[derive(Clone, Copy, Debug, PartialEq, Eq, Structural)]
pub enum HashType {
    /// No hash (tag 0).
    NoHash,
    /// SHA-1.
    Sha1,
    /// SHA-256.
    Sha256,
    /// SHA-256 truncated to its first 20 bytes.
    Sha256Truncated,
    /// SHA-384.
    Sha384,
    /// A tag of no known algorithm.
    Unknown(u8),
}

/// The hash type that a tag names.
pub open spec fn hash_type_from_u8(v: u8) -> HashType {
    if v == 0 {
        HashType::NoHash
    } else if v == CS_HASHTYPE_SHA1 {
        HashType::Sha1
    } else if v == CS_HASHTYPE_SHA256 {
        HashType::Sha256
    } else if v == CS_HASHTYPE_SHA256_TRUNCATED {
        HashType::Sha256Truncated
    } else if v == CS_HASHTYPE_SHA384 {
        HashType::Sha384
    } else {
        HashType::Unknown(v)
    }
}

/// The tag of a hash type.
pub open spec fn hash_type_to_u8(t: HashType) -> u8 {
    match t {
        HashType::NoHash => 0,
        HashType::Sha1 => CS_HASHTYPE_SHA1,
        HashType::Sha256 => CS_HASHTYPE_SHA256,
        HashType::Sha256Truncated => CS_HASHTYPE_SHA256_TRUNCATED,
        HashType::Sha384 => CS_HASHTYPE_SHA384,
        HashType::Unknown(v) => v,
    }
}

/// The SHA-1 digest of a byte sequence.
pub uninterp spec fn sha1_of(data: Seq<u8>) -> Seq<u8>;

/// The SHA-256 digest of a byte sequence.
pub uninterp spec fn sha256_of(data: Seq<u8>) -> Seq<u8>;

/// The SHA-384 digest of a byte sequence.
pub uninterp spec fn sha384_of(data: Seq<u8>) -> Seq<u8>;

/// Inputs that the digest implementations accept: fewer than 2^61 bytes
/// (under 2^64 bits).
pub open spec fn digest_input_ok(data: Seq<u8>) -> bool {
    data.len() < 0x2000_0000_0000_0000
}

/// Relies on `ring::digest::digest` with `SHA1_FOR_LEGACY_USE_ONLY`: the
/// 20-byte SHA-1 digest of `data`.
#[verifier::external_body]
fn ring_sha1(data: &[u8]) -> (r: Vec<u8>)
    requires
        digest_input_ok(data@),
    ensures
        r@ == sha1_of(data@),
        r@.len() == 20,
{
    ring::digest::digest(&ring::digest::SHA1_FOR_LEGACY_USE_ONLY, data).as_ref().to_vec()
}

/// Relies on `ring::digest::digest` with `SHA256`: the 32-byte SHA-256 digest
/// of `data`.
#[verifier::external_body]
fn ring_sha256(data: &[u8]) -> (r: Vec<u8>)
    requires
        digest_input_ok(data@),
    ensures
        r@ == sha256_of(data@),
        r@.len() == 32,
{
    ring::digest::digest(&ring::digest::SHA256, data).as_ref().to_vec()
}

/// Relies on `ring::digest::digest` with `SHA384`: the 48-byte SHA-384 digest
/// of `data`.
#[verifier::external_body]
fn ring_sha384(data: &[u8]) -> (r: Vec<u8>)
    requires
        digest_input_ok(data@),
    ensures
        r@ == sha384_of(data@),
        r@.len() == 48,
{
    ring::digest::digest(&ring::digest::SHA384, data).as_ref().to_vec()
}

/// A digest algorithm that a hash type is computed with.
#[derive(Clone, Copy, Debug, PartialEq, Eq, Structural)]
pub enum DigestAlgorithm {
    /// SHA-1.
    Sha1,
    /// SHA-256.
    Sha256,
    /// SHA-384.
    Sha384,
}

impl HashType {
    /// The algorithm whose hasher serves this hash type. The truncated
    /// SHA-256 type uses SHA-256; its users keep the first 20 bytes.
    pub fn digest_algorithm(&self) -> (r: Result<DigestAlgorithm, MachOParseError>)
        ensures
            match *self {
                HashType::Sha1 => r == Ok::<DigestAlgorithm, MachOParseError>(DigestAlgorithm::Sha1),
                HashType::Sha256 => r == Ok::<DigestAlgorithm, MachOParseError>(DigestAlgorithm::Sha256),
                HashType::Sha256Truncated => r == Ok::<DigestAlgorithm, MachOParseError>(
                    DigestAlgorithm::Sha256,
                ),
                HashType::Sha384 => r == Ok::<DigestAlgorithm, MachOParseError>(DigestAlgorithm::Sha384),
                _ => r == Err::<DigestAlgorithm, MachOParseError>(MachOParseError::UnsupportedHash),
            },
    {
        match self {
            HashType::Sha1 => Ok(DigestAlgorithm::Sha1),
            HashType::Sha256 | HashType::Sha256Truncated => Ok(DigestAlgorithm::Sha256),
            HashType::Sha384 => Ok(DigestAlgorithm::Sha384),
            _ => Err(MachOParseError::UnsupportedHash),
        }
    }

    /// Decodes a hash type tag; unknown tags give `Unknown`.
    pub fn from_u8(v: u8) -> (r: HashType)
        ensures
            r == hash_type_from_u8(v),
    {
        match v {
            0 => HashType::NoHash,
            CS_HASHTYPE_SHA1 => HashType::Sha1,
            CS_HASHTYPE_SHA256 => HashType::Sha256,
            CS_HASHTYPE_SHA256_TRUNCATED => HashType::Sha256Truncated,
            CS_HASHTYPE_SHA384 => HashType::Sha384,
            _ => HashType::Unknown(v),
        }
    }

    /// The tag of this hash type.
    pub fn to_u8(self) -> (r: u8)
        ensures
            r == hash_type_to_u8(self),
    {
        match self {
            HashType::NoHash => 0,
            HashType::Sha1 => CS_HASHTYPE_SHA1,
            HashType::Sha256 => CS_HASHTYPE_SHA256,
            HashType::Sha256Truncated => CS_HASHTYPE_SHA256_TRUNCATED,
            HashType::Sha384 => CS_HASHTYPE_SHA384,
            HashType::Unknown(v) => v,
        }
    }

    /// Digests `data` with this hash type's algorithm.
    ///
    /// `NoHash` and unknown types have no algorithm (`UnsupportedHash`); the
    /// truncated SHA-256 variant is not implemented (`NotImplemented`).
    pub fn digest(&self, data: &[u8]) -> (r: Result<Vec<u8>, MachOParseError>)
        requires
            digest_input_ok(data@),
        ensures
            match *self {
                HashType::Sha1 => r matches Ok(h) && h@ == sha1_of(data@) && h@.len() == 20,
                HashType::Sha256 => r matches Ok(h) && h@ == sha256_of(data@) && h@.len() == 32,
                HashType::Sha384 => r matches Ok(h) && h@ == sha384_of(data@) && h@.len() == 48,
                HashType::Sha256Truncated => r == Err::<Vec<u8>, MachOParseError>(
                    MachOParseError::NotImplemented,
                ),
                _ => r == Err::<Vec<u8>, MachOParseError>(MachOParseError::UnsupportedHash),
            },
    {
        match self {
            HashType::Sha1 => Ok(ring_sha1(data)),
            HashType::Sha256 => Ok(ring_sha256(data)),
            HashType::Sha384 => Ok(ring_sha384(data)),
            HashType::Sha256Truncated => Err(MachOParseError::NotImplemented),
            _ => Err(MachOParseError::UnsupportedHash),
        }
    }
}

impl From<u8> for HashType {
    fn from(v: u8) -> (r: HashType) {
        HashType::from_u8(v)
    }
}

impl vstd::std_specs::convert::FromSpecImpl<u8> for HashType {
    open spec fn obeys_from_spec() -> bool {
        true
    }

    open spec fn from_spec(v: u8) -> HashType {
        hash_type_from_u8(v)
    }
}

impl From<HashType> for u8 {
    fn from(t: HashType) -> (r: u8) {
        t.to_u8()
    }
}

impl vstd::std_specs::convert::FromSpecImpl<HashType> for u8 {
    open spec fn obeys_from_spec() -> bool {
        true
    }

    open spec fn from_spec(t: HashType) -> u8 {
        hash_type_to_u8(t)
    }
}

/// The lowercase hexadecimal digit of a value below 16.
pub open spec fn hex_digit(v: u8) -> char {
    if v < 10 {
        (('0' as u8) + v) as char
    } else {
        (('a' as u8) + v - 10) as char
    }
}

/// Two lowercase hexadecimal digits per byte, high nibble first.
pub open spec fn hex_lower(b: Seq<u8>) -> Seq<char>
    decreases b.len(),
{
    if b.len() == 0 {
        Seq::empty()
    } else {
        hex_lower(b.drop_last()).push(hex_digit(b.last() / 16)).push(hex_digit(b.last() % 16))
    }
}

/// Relies on `hex::encode`: two lowercase hexadecimal digits per byte.
#[verifier::external_body]
pub(crate) fn hex_encode(b: &[u8]) -> (r: String)
    ensures
        r@ == hex_lower(b@),
{
    hex::encode(b)
}

/// One hash slot of a code directory.
#[derive(Clone, Copy, Debug)]
pub struct Hash<'a> {
    /// The hash bytes.
    pub data: &'a [u8],
}

impl<'a> Hash<'a> {
    /// The hash bytes, copied.
    pub fn to_vec(&self) -> (r: Vec<u8>)
        ensures
            r@ == self.data@,
    {
        slice_to_vec(self.data)
    }

    /// The hash as lowercase hexadecimal text.
    pub fn to_hex(&self) -> (r: String)
        ensures
            r@ == hex_lower(self.data@),
    {
        hex_encode(self.data)
    }
}

} // verus!
