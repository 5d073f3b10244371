//! Finding the code-signature super blob inside a Mach-O binary.
use crate::error::MachOParseError;
use crate::superblob::{super_blob_error, EmbeddedSignature};
use crate::wire::read_u32_be;
use crate::slot::CSMAGIC_EMBEDDED_SIGNATURE;
use vstd::prelude::*;
use vstd::slice::slice_subrange;

verus! {

/// The name of the segment that holds signature data.
pub const SEG_LINKEDIT: &'static str = "__LINKEDIT";

/// A load command of a Mach-O binary, as far as signature lookup needs it.
#[derive(Clone, Copy, Debug, PartialEq, Eq, Structural)]
pub enum LoadCommand {
    /// `LC_CODE_SIGNATURE`: where the signature lies in the file.
    CodeSignature { dataoff: u32, datasize: u32 },
    /// Any other load command, by its command number.
    Other(u32),
}

/// A segment of a Mach-O binary.
pub struct Segment<'a> {
    /// The 16-byte segment name, NUL-padded.
    pub segname: [u8; 16],
    /// Offset of the segment's data in the file.
    pub fileoff: u64,
    /// The segment's data.
    pub data: &'a [u8],
}

/// The parts of a parsed Mach-O binary that signature lookup reads.
pub struct MachO<'a> {
    /// The load commands, in file order.
    pub load_commands: Vec<LoadCommand>,
    /// The segments, in file order.
    pub segments: Vec<Segment<'a>>,
}

/// The segment name `__LINKEDIT`, as bytes.
pub open spec fn linkedit_name() -> Seq<u8> {
    seq![0x5fu8, 0x5f, 0x4c, 0x49, 0x4e, 0x4b, 0x45, 0x44, 0x49, 0x54]
}

/// A segment name reads `__LINKEDIT`: those ten bytes, then a NUL.
pub open spec fn is_linkedit(segname: Seq<u8>) -> bool {
    segname.len() == 16 && segname.take(10) == linkedit_name() && segname[10] == 0
}

/// The first code-signature command among the first `n` load commands.
pub open spec fn first_code_signature(cmds: Seq<LoadCommand>, n: int) -> Option<(u32, u32)>
    decreases n,
{
    if n <= 0 {
        None
    } else {
        match first_code_signature(cmds, n - 1) {
            Some(c) => Some(c),
            None => match cmds[n - 1] {
                LoadCommand::CodeSignature { dataoff, datasize } => Some((dataoff, datasize)),
                LoadCommand::Other(_) => None,
            },
        }
    }
}

/// The index of the first `__LINKEDIT` segment among the first `n`.
pub open spec fn first_linkedit(segs: Seq<Segment>, n: int) -> Option<int>
    decreases n,
{
    if n <= 0 {
        None
    } else {
        match first_linkedit(segs, n - 1) {
            Some(i) => Some(i),
            None => if is_linkedit(segs[n - 1].segname@) {
                Some(n - 1)
            } else {
                None
            },
        }
    }
}

/// Where the signature data lies within `__LINKEDIT`.
pub struct MachOSignatureData<'a> {
    /// The number of segments in the binary.
    pub segments_count: usize,
    /// Which segment is `__LINKEDIT`.
    pub linkedit_segment_index: usize,
    /// Start offset of the signature data within `__LINKEDIT`.
    pub signature_start_offset: usize,
    /// End offset of the signature data within `__LINKEDIT`.
    pub signature_end_offset: usize,
    /// Raw data of the `__LINKEDIT` segment.
    pub linkedit_segment_data: &'a [u8],
    /// The signature data within `__LINKEDIT`.
    pub signature_data: &'a [u8],
}

proof fn lemma_first_code_signature_stays(cmds: Seq<LoadCommand>, k: int, n: int)
    requires
        0 <= k < n,
        first_code_signature(cmds, k) is None,
        cmds[k] is CodeSignature,
    ensures
        first_code_signature(cmds, n) == first_code_signature(cmds, k + 1),
    decreases n,
{
    if n > k + 1 {
        lemma_first_code_signature_stays(cmds, k, n - 1);
    }
}

proof fn lemma_first_linkedit_stays(segs: Seq<Segment>, k: int, n: int)
    requires
        0 <= k < n,
        first_linkedit(segs, k) is None,
        is_linkedit(segs[k].segname@),
    ensures
        first_linkedit(segs, n) == Some(k),
    decreases n,
{
    if n > k + 1 {
        lemma_first_linkedit_stays(segs, k, n - 1);
    }
}

/// The first code-signature command: its data offset and size.
fn find_code_signature(cmds: &Vec<LoadCommand>) -> (r: Option<(u32, u32)>)
    ensures
        r == first_code_signature(cmds@, cmds@.len() as int),
{
    let mut i: usize = 0;
    while i < cmds.len()
        invariant
            i <= cmds@.len(),
            first_code_signature(cmds@, i as int) is None,
        decreases cmds@.len() - i,
    {
        if let LoadCommand::CodeSignature { dataoff, datasize } = cmds[i] {
            proof {
                lemma_first_code_signature_stays(cmds@, i as int, cmds@.len() as int);
            }
            return Some((dataoff, datasize));
        }
        i += 1;
    }
    None
}

/// Whether a segment name reads `__LINKEDIT`.
fn segname_is_linkedit(segname: &[u8; 16]) -> (r: bool)
    ensures
        r == is_linkedit(segname@),
{
    let expected: [u8; 10] = [0x5f, 0x5f, 0x4c, 0x49, 0x4e, 0x4b, 0x45, 0x44, 0x49, 0x54];
    let mut i: usize = 0;
    while i < 10
        invariant
            i <= 10,
            segname@.len() == 16,
            expected@ == linkedit_name(),
            forall|k: int| 0 <= k < i ==> segname@[k] == linkedit_name()[k],
        decreases 10 - i,
    {
        if segname[i] != expected[i] {
            return false;
        }
        i += 1;
    }
    proof {
        assert(segname@.take(10) =~= linkedit_name());
    }
    segname[10] == 0
}

/// The index of the first `__LINKEDIT` segment.
fn find_linkedit(segs: &Vec<Segment>) -> (r: Option<usize>)
    ensures
        match r {
            Some(i) => i < segs@.len() && first_linkedit(segs@, segs@.len() as int) == Some(i as int),
            None => first_linkedit(segs@, segs@.len() as int) is None,
        },
{
    let mut i: usize = 0;
    while i < segs.len()
        invariant
            i <= segs@.len(),
            first_linkedit(segs@, i as int) is None,
        decreases segs@.len() - i,
    {
        if segname_is_linkedit(&segs[i].segname) {
            proof {
                lemma_first_linkedit_stays(segs@, i as int, segs@.len() as int);
            }
            return Some(i);
        }
        i += 1;
    }
    None
}

/// Finds the signature data that a Mach-O binary's code-signature load
/// command points at inside its `__LINKEDIT` segment.
///
/// `Ok(None)` without a code-signature command; `MissingLinkedit` without a
/// `__LINKEDIT` segment; `BadOffset` where the command's offset lies before
/// the segment; `Read` where the data extends past the segment.
pub fn find_signature_data<'a>(obj: &MachO<'a>) -> (r: Result<Option<MachOSignatureData<'a>>, MachOParseError>)
    ensures
        match first_code_signature(obj.load_commands@, obj.load_commands@.len() as int) {
            None => r matches Ok(None),
            Some((dataoff, datasize)) => match first_linkedit(obj.segments@, obj.segments@.len() as int) {
                None => r == Err::<Option<MachOSignatureData>, MachOParseError>(MachOParseError::MissingLinkedit),
                Some(i) => {
                    let seg = obj.segments@[i];
                    let start = dataoff - seg.fileoff;
                    let end = start + datasize;
                    if start < 0 {
                        r == Err::<Option<MachOSignatureData>, MachOParseError>(MachOParseError::BadOffset)
                    } else if end > seg.data@.len() {
                        r == Err::<Option<MachOSignatureData>, MachOParseError>(MachOParseError::Read)
                    } else {
                        r matches Ok(Some(sd)) && sd.segments_count == obj.segments@.len()
                            && sd.linkedit_segment_index == i && sd.signature_start_offset == start
                            && sd.signature_end_offset == end && sd.linkedit_segment_data@ == seg.data@
                            && sd.signature_data@ == seg.data@.subrange(start, end)
                    }
                },
            },
        },
{
    let (dataoff, datasize) = match find_code_signature(&obj.load_commands) {
        Some(c) => c,
        None => return Ok(None),
    };
    let index = match find_linkedit(&obj.segments) {
        Some(i) => i,
        None => return Err(MachOParseError::MissingLinkedit),
    };
    let linkedit = &obj.segments[index];
    if linkedit.fileoff > dataoff as u64 {
        return Err(MachOParseError::BadOffset);
    }
    let start = dataoff as u64 - linkedit.fileoff;
    let end = start + datasize as u64;
    if end > linkedit.data.len() as u64 {
        return Err(MachOParseError::Read);
    }
    Ok(
        Some(
            MachOSignatureData {
                segments_count: obj.segments.len(),
                linkedit_segment_index: index,
                signature_start_offset: start as usize,
                signature_end_offset: end as usize,
                linkedit_segment_data: linkedit.data,
                signature_data: slice_subrange(linkedit.data, start as usize, end as usize),
            },
        ),
    )
}

/// Decodes the signature data found by [`find_signature_data`]: an
/// embedded-signature super blob.
pub fn parse_signature_data(data: &[u8]) -> (r: Result<EmbeddedSignature<'_>, MachOParseError>)
    ensures
        match r {
            Ok(sig) => super_blob_error(data@) is None && sig.decoded_from(data@),
            Err(e) => super_blob_error(data@) == Some(e),
        },
{
    let magic = read_u32_be(data, 0)?;
    if magic == CSMAGIC_EMBEDDED_SIGNATURE {
        EmbeddedSignature::from_bytes(data)
    } else {
        Err(MachOParseError::BadMagic)
    }
}

} // verus!
