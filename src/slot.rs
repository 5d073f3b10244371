//! Slot and magic constants of code-signing data.
use vstd::prelude::*;

verus! {

/// Slot of the code directory.
pub const CSSLOT_CODEDIRECTORY: u32 = 0;
/// Slot of the info plist hash.
pub const CSSLOT_INFOSLOT: u32 = 1;
/// Slot of the internal requirements.
pub const CSSLOT_REQUIREMENTS: u32 = 2;
/// Slot of the resource directory.
pub const CSSLOT_RESOURCEDIR: u32 = 3;
/// Slot of application-specific data.
pub const CSSLOT_APPLICATION: u32 = 4;
/// Slot of the embedded entitlements.
pub const CSSLOT_ENTITLEMENTS: u32 = 5;
/// First alternate code directory.
pub const CSSLOT_ALTERNATE_CODEDIRECTORY_0: u32 = 0x1000;
/// Second alternate code directory.
pub const CSSLOT_ALTERNATE_CODEDIRECTORY_1: u32 = 0x1001;
/// Third alternate code directory.
pub const CSSLOT_ALTERNATE_CODEDIRECTORY_2: u32 = 0x1002;
/// Fourth alternate code directory.
pub const CSSLOT_ALTERNATE_CODEDIRECTORY_3: u32 = 0x1003;
/// Fifth alternate code directory.
pub const CSSLOT_ALTERNATE_CODEDIRECTORY_4: u32 = 0x1004;
/// CMS signature.
pub const CSSLOT_SIGNATURESLOT: u32 = 0x10000;
/// Identification blob.
pub const CSSLOT_IDENTIFICATIONSLOT: u32 = 0x10001;
/// Notarization ticket.
pub const CSSLOT_TICKETSLOT: u32 = 0x10002;

/// Single requirement blob.
pub const CSMAGIC_REQUIREMENT: u32 = 0xfade0c00;
/// Requirements vector (internal requirements).
pub const CSMAGIC_REQUIREMENTS: u32 = 0xfade0c01;
/// Code directory blob.
pub const CSMAGIC_CODEDIRECTORY: u32 = 0xfade0c02;
/// Embedded form of signature data.
pub const CSMAGIC_EMBEDDED_SIGNATURE: u32 = 0xfade0cc0;
/// Old embedded form of signature data.
pub const CSMAGIC_EMBEDDED_SIGNATURE_OLD: u32 = 0xfade0b02;
/// Embedded entitlements.
pub const CSMAGIC_EMBEDDED_ENTITLEMENTS: u32 = 0xfade7171;
/// Multi-arch collection of embedded signatures.
pub const CSMAGIC_DETACHED_SIGNATURE: u32 = 0xfade0cc1;
/// CMS signature, among other things.
pub const CSMAGIC_BLOBWRAPPER: u32 = 0xfade0b01;

/// Executable segment denotes main binary.
pub const CS_EXECSEG_MAIN_BINARY: u32 = 0x1;
/// Allow unsigned pages (for debugging).
pub const CS_EXECSEG_ALLOW_UNSIGNED: u32 = 0x10;
/// Main binary is debugger.
pub const CS_EXECSEG_DEBUGGER: u32 = 0x20;
/// JIT enabled.
pub const CS_EXECSEG_JIT: u32 = 0x40;
/// Obsolete: skip library validation.
pub const CS_EXECSEG_SKIP_LV: u32 = 0x80;
/// Can bless cdhash for execution.
pub const CS_EXECSEG_CAN_LOAD_CDHASH: u32 = 0x100;
/// Can execute blessed cdhash.
pub const CS_EXECSEG_CAN_EXEC_CDHASH: u32 = 0x200;

/// Type index of the requirements blob.
pub const CSTYPE_INDEX_REQUIREMENTS: u32 = 0x00000002;
/// Type index of the entitlements blob.
pub const CSTYPE_INDEX_ENTITLEMENTS: u32 = 0x00000005;

/// Length of a SHA-1 hash.
pub const CS_SHA1_LEN: u32 = 20;
/// Length of a SHA-256 hash.
pub const CS_SHA256_LEN: u32 = 32;
/// Length of a truncated SHA-256 hash.
pub const CS_SHA256_TRUNCATED_LEN: u32 = 20;
/// Length of a code directory hash; larger hashes are truncated.
pub const CS_CDHASH_LEN: u32 = 20;
/// Largest hash size supported.
pub const CS_HASH_MAX_SIZE: u32 = 48;

/// Signer type: unknown.
pub const CS_SIGNER_TYPE_UNKNOWN: u32 = 0;
/// Signer type: legacy VPN plugin.
pub const CS_SIGNER_TYPE_LEGACYVPN: u32 = 5;
/// Signer type: Mac App Store.
pub const CS_SIGNER_TYPE_MAC_APP_STORE: u32 = 6;
/// Supplemental signer type: unknown.
pub const CS_SUPPL_SIGNER_TYPE_UNKNOWN: u32 = 0;
/// Supplemental signer type: trust cache.
pub const CS_SUPPL_SIGNER_TYPE_TRUSTCACHE: u32 = 7;
/// Supplemental signer type: local signing.
pub const CS_SUPPL_SIGNER_TYPE_LOCAL: u32 = 8;

/// The typed role of a blob within a super blob.
#[derive(Clone, Copy, Debug, PartialEq, Eq, Hash, Structural)]
pub enum CodeSigningSlot {
    CodeDirectory,
    Info,
    Requirements,
    ResourceDir,
    Application,
    Entitlements,
    AlternateCodeDirectory0,
    AlternateCodeDirectory1,
    AlternateCodeDirectory2,
    AlternateCodeDirectory3,
    AlternateCodeDirectory4,
    Signature,
    Identification,
    Ticket,
    Unknown(u32),
}

/// The slot that a wire value names.
pub open spec fn slot_from_u32(v: u32) -> CodeSigningSlot {
    if v == CSSLOT_CODEDIRECTORY {
        CodeSigningSlot::CodeDirectory
    } else if v == CSSLOT_INFOSLOT {
        CodeSigningSlot::Info
    } else if v == CSSLOT_REQUIREMENTS {
        CodeSigningSlot::Requirements
    } else if v == CSSLOT_RESOURCEDIR {
        CodeSigningSlot::ResourceDir
    } else if v == CSSLOT_APPLICATION {
        CodeSigningSlot::Application
    } else if v == CSSLOT_ENTITLEMENTS {
        CodeSigningSlot::Entitlements
    } else if v == CSSLOT_ALTERNATE_CODEDIRECTORY_0 {
        CodeSigningSlot::AlternateCodeDirectory0
    } else if v == CSSLOT_ALTERNATE_CODEDIRECTORY_1 {
        CodeSigningSlot::AlternateCodeDirectory1
    } else if v == CSSLOT_ALTERNATE_CODEDIRECTORY_2 {
        CodeSigningSlot::AlternateCodeDirectory2
    } else if v == CSSLOT_ALTERNATE_CODEDIRECTORY_3 {
        CodeSigningSlot::AlternateCodeDirectory3
    } else if v == CSSLOT_ALTERNATE_CODEDIRECTORY_4 {
        CodeSigningSlot::AlternateCodeDirectory4
    } else if v == CSSLOT_SIGNATURESLOT {
        CodeSigningSlot::Signature
    } else if v == CSSLOT_IDENTIFICATIONSLOT {
        CodeSigningSlot::Identification
    } else if v == CSSLOT_TICKETSLOT {
        CodeSigningSlot::Ticket
    } else {
        CodeSigningSlot::Unknown(v)
    }
}

/// The wire value of a slot.
pub open spec fn slot_to_u32(s: CodeSigningSlot) -> u32 {
    match s {
        CodeSigningSlot::CodeDirectory => CSSLOT_CODEDIRECTORY,
        CodeSigningSlot::Info => CSSLOT_INFOSLOT,
        CodeSigningSlot::Requirements => CSSLOT_REQUIREMENTS,
        CodeSigningSlot::ResourceDir => CSSLOT_RESOURCEDIR,
        CodeSigningSlot::Application => CSSLOT_APPLICATION,
        CodeSigningSlot::Entitlements => CSSLOT_ENTITLEMENTS,
        CodeSigningSlot::AlternateCodeDirectory0 => CSSLOT_ALTERNATE_CODEDIRECTORY_0,
        CodeSigningSlot::AlternateCodeDirectory1 => CSSLOT_ALTERNATE_CODEDIRECTORY_1,
        CodeSigningSlot::AlternateCodeDirectory2 => CSSLOT_ALTERNATE_CODEDIRECTORY_2,
        CodeSigningSlot::AlternateCodeDirectory3 => CSSLOT_ALTERNATE_CODEDIRECTORY_3,
        CodeSigningSlot::AlternateCodeDirectory4 => CSSLOT_ALTERNATE_CODEDIRECTORY_4,
        CodeSigningSlot::Signature => CSSLOT_SIGNATURESLOT,
        CodeSigningSlot::Identification => CSSLOT_IDENTIFICATIONSLOT,
        CodeSigningSlot::Ticket => CSSLOT_TICKETSLOT,
        CodeSigningSlot::Unknown(v) => v,
    }
}

/// A slot is canonical unless it is an `Unknown` holding the wire value of a
/// named slot; decoding only ever gives canonical slots.
pub open spec fn slot_is_canonical(s: CodeSigningSlot) -> bool {
    s matches CodeSigningSlot::Unknown(v) ==> slot_from_u32(v) == s
}

impl CodeSigningSlot {
    /// Decodes a wire value; values of no named slot give `Unknown`.
    pub fn from_u32(v: u32) -> (r: CodeSigningSlot)
        ensures
            r == slot_from_u32(v),
    {
        match v {
            CSSLOT_CODEDIRECTORY => CodeSigningSlot::CodeDirectory,
            CSSLOT_INFOSLOT => CodeSigningSlot::Info,
            CSSLOT_REQUIREMENTS => CodeSigningSlot::Requirements,
            CSSLOT_RESOURCEDIR => CodeSigningSlot::ResourceDir,
            CSSLOT_APPLICATION => CodeSigningSlot::Application,
            CSSLOT_ENTITLEMENTS => CodeSigningSlot::Entitlements,
            CSSLOT_ALTERNATE_CODEDIRECTORY_0 => CodeSigningSlot::AlternateCodeDirectory0,
            CSSLOT_ALTERNATE_CODEDIRECTORY_1 => CodeSigningSlot::AlternateCodeDirectory1,
            CSSLOT_ALTERNATE_CODEDIRECTORY_2 => CodeSigningSlot::AlternateCodeDirectory2,
            CSSLOT_ALTERNATE_CODEDIRECTORY_3 => CodeSigningSlot::AlternateCodeDirectory3,
            CSSLOT_ALTERNATE_CODEDIRECTORY_4 => CodeSigningSlot::AlternateCodeDirectory4,
            CSSLOT_SIGNATURESLOT => CodeSigningSlot::Signature,
            CSSLOT_IDENTIFICATIONSLOT => CodeSigningSlot::Identification,
            CSSLOT_TICKETSLOT => CodeSigningSlot::Ticket,
            _ => CodeSigningSlot::Unknown(v),
        }
    }

    /// The wire value of this slot.
    pub fn to_u32(self) -> (r: u32)
        ensures
            r == slot_to_u32(self),
    {
        match self {
            CodeSigningSlot::CodeDirectory => CSSLOT_CODEDIRECTORY,
            CodeSigningSlot::Info => CSSLOT_INFOSLOT,
            CodeSigningSlot::Requirements => CSSLOT_REQUIREMENTS,
            CodeSigningSlot::ResourceDir => CSSLOT_RESOURCEDIR,
            CodeSigningSlot::Application => CSSLOT_APPLICATION,
            CodeSigningSlot::Entitlements => CSSLOT_ENTITLEMENTS,
            CodeSigningSlot::AlternateCodeDirectory0 => CSSLOT_ALTERNATE_CODEDIRECTORY_0,
            CodeSigningSlot::AlternateCodeDirectory1 => CSSLOT_ALTERNATE_CODEDIRECTORY_1,
            CodeSigningSlot::AlternateCodeDirectory2 => CSSLOT_ALTERNATE_CODEDIRECTORY_2,
            CodeSigningSlot::AlternateCodeDirectory3 => CSSLOT_ALTERNATE_CODEDIRECTORY_3,
            CodeSigningSlot::AlternateCodeDirectory4 => CSSLOT_ALTERNATE_CODEDIRECTORY_4,
            CodeSigningSlot::Signature => CSSLOT_SIGNATURESLOT,
            CodeSigningSlot::Identification => CSSLOT_IDENTIFICATIONSLOT,
            CodeSigningSlot::Ticket => CSSLOT_TICKETSLOT,
            CodeSigningSlot::Unknown(v) => v,
        }
    }
}

impl From<u32> for CodeSigningSlot {
    fn from(v: u32) -> (r: CodeSigningSlot) {
        CodeSigningSlot::from_u32(v)
    }
}

impl vstd::std_specs::convert::FromSpecImpl<u32> for CodeSigningSlot {
    open spec fn obeys_from_spec() -> bool {
        true
    }

    open spec fn from_spec(v: u32) -> CodeSigningSlot {
        slot_from_u32(v)
    }
}

impl From<CodeSigningSlot> for u32 {
    fn from(s: CodeSigningSlot) -> (r: u32) {
        s.to_u32()
    }
}

impl vstd::std_specs::convert::FromSpecImpl<CodeSigningSlot> for u32 {
    open spec fn obeys_from_spec() -> bool {
        true
    }

    open spec fn from_spec(s: CodeSigningSlot) -> u32 {
        slot_to_u32(s)
    }
}

/// Decoding the wire value of a slot gives that slot back, for every slot
/// that decoding can give (an `Unknown` holding a named value is not one).
pub proof fn lemma_slot_round_trip(s: CodeSigningSlot)
    requires
        slot_is_canonical(s),
    ensures
        slot_from_u32(slot_to_u32(s)) == s,
{
}

/// Encoding a decoded wire value gives the value back, and the decoded slot
/// is canonical.
pub proof fn lemma_slot_wire_round_trip(v: u32)
    ensures
        slot_to_u32(slot_from_u32(v)) == v,
        slot_is_canonical(slot_from_u32(v)),
{
}

/// The header magic of a blob.
#[derive(Clone, Copy, Debug, PartialEq, Eq, Hash, Structural)]
pub enum CodeSigningMagic {
    Requirement,
    Requirements,
    CodeDirectory,
    EmbeddedSignature,
    EmbeddedSignatureOld,
    EmbeddedEntitlements,
    DetachedSignature,
    BlobWrapper,
    Unknown(u32),
}

/// The magic that a wire value names.
pub open spec fn magic_from_u32(v: u32) -> CodeSigningMagic {
    if v == CSMAGIC_REQUIREMENT {
        CodeSigningMagic::Requirement
    } else if v == CSMAGIC_REQUIREMENTS {
        CodeSigningMagic::Requirements
    } else if v == CSMAGIC_CODEDIRECTORY {
        CodeSigningMagic::CodeDirectory
    } else if v == CSMAGIC_EMBEDDED_SIGNATURE {
        CodeSigningMagic::EmbeddedSignature
    } else if v == CSMAGIC_EMBEDDED_SIGNATURE_OLD {
        CodeSigningMagic::EmbeddedSignatureOld
    } else if v == CSMAGIC_EMBEDDED_ENTITLEMENTS {
        CodeSigningMagic::EmbeddedEntitlements
    } else if v == CSMAGIC_DETACHED_SIGNATURE {
        CodeSigningMagic::DetachedSignature
    } else if v == CSMAGIC_BLOBWRAPPER {
        CodeSigningMagic::BlobWrapper
    } else {
        CodeSigningMagic::Unknown(v)
    }
}

/// The wire value of a magic.
pub open spec fn magic_to_u32(m: CodeSigningMagic) -> u32 {
    match m {
        CodeSigningMagic::Requirement => CSMAGIC_REQUIREMENT,
        CodeSigningMagic::Requirements => CSMAGIC_REQUIREMENTS,
        CodeSigningMagic::CodeDirectory => CSMAGIC_CODEDIRECTORY,
        CodeSigningMagic::EmbeddedSignature => CSMAGIC_EMBEDDED_SIGNATURE,
        CodeSigningMagic::EmbeddedSignatureOld => CSMAGIC_EMBEDDED_SIGNATURE_OLD,
        CodeSigningMagic::EmbeddedEntitlements => CSMAGIC_EMBEDDED_ENTITLEMENTS,
        CodeSigningMagic::DetachedSignature => CSMAGIC_DETACHED_SIGNATURE,
        CodeSigningMagic::BlobWrapper => CSMAGIC_BLOBWRAPPER,
        CodeSigningMagic::Unknown(v) => v,
    }
}

/// A magic is canonical unless it is an `Unknown` holding the wire value of a
/// named magic; decoding only ever gives canonical magics.
pub open spec fn magic_is_canonical(m: CodeSigningMagic) -> bool {
    m matches CodeSigningMagic::Unknown(v) ==> magic_from_u32(v) == m
}

impl CodeSigningMagic {
    /// Decodes a wire value; values of no named magic give `Unknown`.
    pub fn from_u32(v: u32) -> (r: CodeSigningMagic)
        ensures
            r == magic_from_u32(v),
    {
        match v {
            CSMAGIC_REQUIREMENT => CodeSigningMagic::Requirement,
            CSMAGIC_REQUIREMENTS => CodeSigningMagic::Requirements,
            CSMAGIC_CODEDIRECTORY => CodeSigningMagic::CodeDirectory,
            CSMAGIC_EMBEDDED_SIGNATURE => CodeSigningMagic::EmbeddedSignature,
            CSMAGIC_EMBEDDED_SIGNATURE_OLD => CodeSigningMagic::EmbeddedSignatureOld,
            CSMAGIC_EMBEDDED_ENTITLEMENTS => CodeSigningMagic::EmbeddedEntitlements,
            CSMAGIC_DETACHED_SIGNATURE => CodeSigningMagic::DetachedSignature,
            CSMAGIC_BLOBWRAPPER => CodeSigningMagic::BlobWrapper,
            _ => CodeSigningMagic::Unknown(v),
        }
    }

    /// The wire value of this magic.
    pub fn to_u32(self) -> (r: u32)
        ensures
            r == magic_to_u32(self),
    {
        match self {
            CodeSigningMagic::Requirement => CSMAGIC_REQUIREMENT,
            CodeSigningMagic::Requirements => CSMAGIC_REQUIREMENTS,
            CodeSigningMagic::CodeDirectory => CSMAGIC_CODEDIRECTORY,
            CodeSigningMagic::EmbeddedSignature => CSMAGIC_EMBEDDED_SIGNATURE,
            CodeSigningMagic::EmbeddedSignatureOld => CSMAGIC_EMBEDDED_SIGNATURE_OLD,
            CodeSigningMagic::EmbeddedEntitlements => CSMAGIC_EMBEDDED_ENTITLEMENTS,
            CodeSigningMagic::DetachedSignature => CSMAGIC_DETACHED_SIGNATURE,
            CodeSigningMagic::BlobWrapper => CSMAGIC_BLOBWRAPPER,
            CodeSigningMagic::Unknown(v) => v,
        }
    }
}

impl From<u32> for CodeSigningMagic {
    fn from(v: u32) -> (r: CodeSigningMagic) {
        CodeSigningMagic::from_u32(v)
    }
}

impl vstd::std_specs::convert::FromSpecImpl<u32> for CodeSigningMagic {
    open spec fn obeys_from_spec() -> bool {
        true
    }

    open spec fn from_spec(v: u32) -> CodeSigningMagic {
        magic_from_u32(v)
    }
}

impl From<CodeSigningMagic> for u32 {
    fn from(m: CodeSigningMagic) -> (r: u32) {
        m.to_u32()
    }
}

impl vstd::std_specs::convert::FromSpecImpl<CodeSigningMagic> for u32 {
    open spec fn obeys_from_spec() -> bool {
        true
    }

    open spec fn from_spec(m: CodeSigningMagic) -> u32 {
        magic_to_u32(m)
    }
}

/// Decoding the wire value of a magic gives that magic back, for every magic
/// that decoding can give (an `Unknown` holding a named value is not one).
pub proof fn lemma_magic_round_trip(m: CodeSigningMagic)
    requires
        magic_is_canonical(m),
    ensures
        magic_from_u32(magic_to_u32(m)) == m,
{
}

/// Encoding a decoded wire value gives the value back, and the decoded magic
/// is canonical.
pub proof fn lemma_magic_wire_round_trip(v: u32)
    ensures
        magic_to_u32(magic_from_u32(v)) == v,
        magic_is_canonical(magic_from_u32(v)),
{
}

} // verus!
