use apple_codesign::hash::DigestAlgorithm;
use apple_codesign::{CodeSigningMagic, CodeSigningSlot, HashType, MachOParseError};

#[test]
fn slot_round_trips() {
    for v in [0u32, 1, 2, 3, 4, 5, 0x1000, 0x1001, 0x1002, 0x1003, 0x1004, 0x10000, 0x10001, 0x10002, 6, 0xdeadbeef] {
        let s = CodeSigningSlot::from(v);
        assert_eq!(u32::from(s), v);
        assert_eq!(CodeSigningSlot::from(u32::from(s)), s);
    }
    assert_eq!(CodeSigningSlot::from(0x10000), CodeSigningSlot::Signature);
    assert_eq!(CodeSigningSlot::from(0x1003), CodeSigningSlot::AlternateCodeDirectory3);
    assert_eq!(CodeSigningSlot::from(7), CodeSigningSlot::Unknown(7));
    assert_eq!(CodeSigningSlot::Ticket.to_u32(), 0x10002);
}

#[test]
fn magic_round_trips() {
    for v in [0xfade0c00u32, 0xfade0c01, 0xfade0c02, 0xfade0cc0, 0xfade0b02, 0xfade7171, 0xfade0cc1, 0xfade0b01, 0] {
        let m = CodeSigningMagic::from(v);
        assert_eq!(u32::from(m), v);
        assert_eq!(CodeSigningMagic::from(u32::from(m)), m);
    }
    assert_eq!(CodeSigningMagic::from(0xfade0b01), CodeSigningMagic::BlobWrapper);
    assert_eq!(CodeSigningMagic::from(0xcafed00d), CodeSigningMagic::Unknown(0xcafed00d));
}

#[test]
fn hash_type_tags() {
    assert_eq!(HashType::from(0), HashType::NoHash);
    assert_eq!(HashType::from(1), HashType::Sha1);
    assert_eq!(HashType::from(3), HashType::Sha256Truncated);
    assert_eq!(HashType::from(9), HashType::Unknown(9));
    assert_eq!(u8::from(HashType::Sha384), 4);
}

#[test]
fn digests() {
    assert_eq!(
        hex::encode(HashType::Sha1.digest(b"abc").unwrap()),
        "a9993e364706816aba3e25717850c26c9cd0d89d"
    );
    assert_eq!(
        hex::encode(HashType::Sha256.digest(b"abc").unwrap()),
        "ba7816bf8f01cfea414140de5dae2223b00361a396177a9cb410ff61f20015ad"
    );
    assert_eq!(
        hex::encode(HashType::Sha384.digest(b"abc").unwrap()),
        "cb00753f45a35e8bb5a03d699ac65007272c32ab0eded1631a8b605a43ff5bed8086072ba1e7cc2358baeca134c825a7"
    );
    assert_eq!(HashType::NoHash.digest(b"abc").err(), Some(MachOParseError::UnsupportedHash));
    assert_eq!(HashType::Unknown(7).digest(b"abc").err(), Some(MachOParseError::UnsupportedHash));
    assert_eq!(HashType::Sha256Truncated.digest(b"abc").err(), Some(MachOParseError::NotImplemented));
}

#[test]
fn hash_slot_hex_and_copy() {
    let bytes = [0xde, 0xad, 0x01, 0xf0];
    let h = apple_codesign::hash::Hash { data: &bytes };
    assert_eq!(h.to_hex(), "dead01f0");
    assert_eq!(h.to_vec(), vec![0xde, 0xad, 0x01, 0xf0]);
}

#[test]
fn error_descriptions() {
    assert_eq!(
        MachOParseError::BadIdentifierString.describe(),
        "identifier string isn't null terminated"
    );
    assert!(MachOParseError::MissingLinkedit.describe().contains("__LINKEDIT"));
}

#[test]
fn digest_algorithm_selection() {
    assert_eq!(HashType::Sha1.digest_algorithm(), Ok(DigestAlgorithm::Sha1));
    assert_eq!(HashType::Sha256.digest_algorithm(), Ok(DigestAlgorithm::Sha256));
    assert_eq!(HashType::Sha256Truncated.digest_algorithm(), Ok(DigestAlgorithm::Sha256));
    assert_eq!(HashType::Sha384.digest_algorithm(), Ok(DigestAlgorithm::Sha384));
    assert_eq!(HashType::NoHash.digest_algorithm(), Err(MachOParseError::UnsupportedHash));
    assert_eq!(HashType::Unknown(5).digest_algorithm(), Err(MachOParseError::UnsupportedHash));
}

#[test]
fn digest_lengths() {
    assert_eq!(HashType::Sha1.digest(b"").unwrap().len(), 20);
    assert_eq!(HashType::Sha256.digest(b"").unwrap().len(), 32);
    assert_eq!(HashType::Sha384.digest(b"").unwrap().len(), 48);
}

#[test]
fn every_error_has_its_message() {
    assert_eq!(
        MachOParseError::MissingLinkedit.describe(),
        "unable to locate __LINKEDIT segment despite load command reference"
    );
    assert_eq!(MachOParseError::BadMagic.describe(), "bad magic value in blob header");
    assert_eq!(MachOParseError::Read.describe(), "read past the end of the data");
    assert_eq!(MachOParseError::BadOffset.describe(), "offset outside of its container");
    assert_eq!(MachOParseError::Utf8Error(3).describe(), "invalid UTF-8 text");
    assert_eq!(
        MachOParseError::ExpressionTooDeep.describe(),
        "requirement expression nested too deeply"
    );
    assert_eq!(MachOParseError::UnsupportedHash.describe(), "hasher not implemented");
    assert_eq!(
        MachOParseError::NotImplemented.describe(),
        "digest not implemented for this hash type"
    );
}
