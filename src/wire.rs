//! Big-endian integers and bounded sub-slices of a byte buffer.
use crate::error::MachOParseError;
use vstd::prelude::*;
use vstd::slice::slice_subrange;
use vstd::utf8::valid_utf8;
use vstd::utf8::decode_utf8;

verus! {

/// The byte at `i`.
pub open spec fn be_u8(s: Seq<u8>, i: int) -> u8 {
    s[i]
}

/// The big-endian 16-bit integer whose first byte is at `i`.
pub open spec fn be_u16(s: Seq<u8>, i: int) -> u16 {
    (s[i] as int * 0x100 + s[i + 1] as int) as u16
}

/// The big-endian 32-bit integer whose first byte is at `i`.
pub open spec fn be_u32(s: Seq<u8>, i: int) -> u32 {
    (s[i] as int * 0x1000000 + s[i + 1] as int * 0x10000 + s[i + 2] as int * 0x100 + s[i
        + 3] as int) as u32
}

/// The big-endian 64-bit integer whose first byte is at `i`.
pub open spec fn be_u64(s: Seq<u8>, i: int) -> u64 {
    (be_u32(s, i) as int * 0x1_0000_0000 + be_u32(s, i + 4) as int) as u64
}

/// Reads the byte at `pos`.
pub fn read_u8(data: &[u8], pos: usize) -> (r: Result<u8, MachOParseError>)
    ensures
        pos < data@.len() ==> r == Ok::<u8, MachOParseError>(be_u8(data@, pos as int)),
        pos >= data@.len() ==> r == Err::<u8, MachOParseError>(MachOParseError::Read),
{
    if pos < data.len() {
        Ok(data[pos])
    } else {
        Err(MachOParseError::Read)
    }
}

/// Reads the big-endian `u16` at `pos`.
pub fn read_u16_be(data: &[u8], pos: usize) -> (r: Result<u16, MachOParseError>)
    ensures
        pos + 2 <= data@.len() ==> r == Ok::<u16, MachOParseError>(be_u16(data@, pos as int)),
        pos + 2 > data@.len() ==> r == Err::<u16, MachOParseError>(MachOParseError::Read),
{
    if data.len() >= 2 && pos <= data.len() - 2 {
        let b0 = data[pos] as u16;
        let b1 = data[pos + 1] as u16;
        Ok(b0 * 0x100 + b1)
    } else {
        Err(MachOParseError::Read)
    }
}

/// Reads the big-endian `u32` at `pos`.
pub fn read_u32_be(data: &[u8], pos: usize) -> (r: Result<u32, MachOParseError>)
    ensures
        pos + 4 <= data@.len() ==> r == Ok::<u32, MachOParseError>(be_u32(data@, pos as int)),
        pos + 4 > data@.len() ==> r == Err::<u32, MachOParseError>(MachOParseError::Read),
{
    if data.len() >= 4 && pos <= data.len() - 4 {
        let b0 = data[pos] as u32;
        let b1 = data[pos + 1] as u32;
        let b2 = data[pos + 2] as u32;
        let b3 = data[pos + 3] as u32;
        Ok(b0 * 0x1000000 + b1 * 0x10000 + b2 * 0x100 + b3)
    } else {
        Err(MachOParseError::Read)
    }
}

/// Reads the big-endian `u64` at `pos`.
pub fn read_u64_be(data: &[u8], pos: usize) -> (r: Result<u64, MachOParseError>)
    ensures
        pos + 8 <= data@.len() ==> r == Ok::<u64, MachOParseError>(be_u64(data@, pos as int)),
        pos + 8 > data@.len() ==> r == Err::<u64, MachOParseError>(MachOParseError::Read),
{
    if data.len() >= 8 && pos <= data.len() - 8 {
        let hi = read_u32_be(data, pos)? as u64;
        let lo = read_u32_be(data, pos + 4)? as u64;
        Ok(hi * 0x1_0000_0000 + lo)
    } else {
        Err(MachOParseError::Read)
    }
}

/// The bytes `[start, end)` of `data`, or `Read` where they extend past its end.
pub fn sub_slice<'a>(data: &'a [u8], start: usize, end: usize) -> (r: Result<&'a [u8], MachOParseError>)
    requires
        start <= end,
    ensures
        end <= data@.len() ==> (r matches Ok(s) && s@ == data@.subrange(start as int, end as int)),
        end > data@.len() ==> r == Err::<&[u8], MachOParseError>(MachOParseError::Read),
{
    if end <= data.len() {
        Ok(slice_subrange(data, start, end))
    } else {
        Err(MachOParseError::Read)
    }
}

/// Reads the common blob header: magic, announced length (header included),
/// and the bytes after the header.
pub fn read_blob_header<'a>(data: &'a [u8]) -> (r: Result<(u32, usize, &'a [u8]), MachOParseError>)
    ensures
        data@.len() < 8 ==> r == Err::<(u32, usize, &[u8]), MachOParseError>(MachOParseError::Read),
        data@.len() >= 8 ==> (r matches Ok((magic, length, rest)) && magic == be_u32(data@, 0)
            && length == be_u32(data@, 4) && rest@ == data@.subrange(8, data@.len() as int)),
{
    let magic = read_u32_be(data, 0)?;
    let length = read_u32_be(data, 4)?;
    Ok((magic, length as usize, slice_subrange(data, 8, data.len())))
}

/// Reads the common blob header and checks its magic; gives the bytes after
/// the header.
pub fn read_and_validate_blob_header<'a>(data: &'a [u8], expected_magic: u32) -> (r: Result<
    &'a [u8],
    MachOParseError,
>)
    ensures
        data@.len() < 8 ==> r == Err::<&[u8], MachOParseError>(MachOParseError::Read),
        data@.len() >= 8 && be_u32(data@, 0) != expected_magic ==> r == Err::<&[u8], MachOParseError>(
            MachOParseError::BadMagic,
        ),
        data@.len() >= 8 && be_u32(data@, 0) == expected_magic ==> (r matches Ok(rest) && rest@
            == data@.subrange(8, data@.len() as int)),
{
    let (magic, _, rest) = read_blob_header(data)?;
    if magic != expected_magic {
        Err(MachOParseError::BadMagic)
    } else {
        Ok(rest)
    }
}

/// Relies on `std::str::from_utf8`: `Ok` with the decoded text exactly when the
/// bytes are valid UTF-8, else the error's `valid_up_to`, the length of the
/// longest prefix that is valid.
#[verifier::external_body]
pub(crate) fn utf8_str<'a>(b: &'a [u8]) -> (r: Result<&'a str, usize>)
    ensures
        r matches Ok(s) ==> valid_utf8(b@) && s@ == decode_utf8(b@),
        r matches Err(p) ==> !valid_utf8(b@) && p <= b@.len() && valid_utf8(b@.take(p as int))
            && forall|q: int| p < q <= b@.len() ==> !valid_utf8(#[trigger] b@.take(q)),
{
    std::str::from_utf8(b).map_err(|e| e.valid_up_to())
}

/// The text of `b` where it is valid UTF-8, else `Utf8Error` with the length of
/// its longest valid prefix.
pub open spec fn utf8_result(b: Seq<u8>) -> Result<Seq<char>, MachOParseError> {
    if valid_utf8(b) {
        Ok(decode_utf8(b))
    } else {
        Err(MachOParseError::Utf8Error(longest_valid_prefix(b, b.len()) as usize))
    }
}

/// The largest `p <= n` such that the first `p` bytes of `b` are valid UTF-8.
pub open spec fn longest_valid_prefix(b: Seq<u8>, n: nat) -> nat
    decreases n,
{
    if n == 0 || valid_utf8(b.take(n as int)) {
        n
    } else {
        longest_valid_prefix(b, (n - 1) as nat)
    }
}

proof fn lemma_longest_valid_prefix(b: Seq<u8>, p: nat, n: nat)
    requires
        p <= n <= b.len(),
        valid_utf8(b.take(p as int)),
        forall|q: int| p < q <= b.len() ==> !valid_utf8(#[trigger] b.take(q)),
    ensures
        longest_valid_prefix(b, n) == p,
    decreases n,
{
    if n > p {
        lemma_longest_valid_prefix(b, p, (n - 1) as nat);
    }
}

/// Decodes `b` as UTF-8 text, borrowing from it.
pub fn decode_text<'a>(b: &'a [u8]) -> (r: Result<&'a str, MachOParseError>)
    ensures
        match r {
            Ok(s) => utf8_result(b@) == Ok::<Seq<char>, MachOParseError>(s@),
            Err(e) => utf8_result(b@) == Err::<Seq<char>, MachOParseError>(e),
        },
{
    match utf8_str(b) {
        Ok(s) => Ok(s),
        Err(p) => {
            proof {
                lemma_longest_valid_prefix(b@, p as nat, b@.len());
            }
            Err(MachOParseError::Utf8Error(p))
        },
    }
}

} // verus!
