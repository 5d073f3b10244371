use apple_codesign::blobs::{BlobData, RequirementBlob, RequirementsBlob};
use apple_codesign::codedir::CodeDirectoryBlob;
use apple_codesign::locate::{
    find_signature_data, parse_signature_data, LoadCommand, MachO, Segment,
};
use apple_codesign::requirement::Expression;
use apple_codesign::{CodeSigningMagic, CodeSigningSlot, EmbeddedSignature, HashType, MachOParseError};

fn be32(out: &mut Vec<u8>, v: u32) {
    out.extend_from_slice(&v.to_be_bytes());
}

fn be64(out: &mut Vec<u8>, v: u64) {
    out.extend_from_slice(&v.to_be_bytes());
}

/// A super blob holding `blobs` under the given slots, in order.
fn super_blob(blobs: &[(u32, Vec<u8>)]) -> Vec<u8> {
    let header_len = 12 + 8 * blobs.len();
    let total: usize = header_len + blobs.iter().map(|(_, b)| b.len()).sum::<usize>();
    let mut out = Vec::new();
    be32(&mut out, 0xfade0cc0);
    be32(&mut out, total as u32);
    be32(&mut out, blobs.len() as u32);
    let mut offset = header_len;
    for (slot, b) in blobs {
        be32(&mut out, *slot);
        be32(&mut out, offset as u32);
        offset += b.len();
    }
    for (_, b) in blobs {
        out.extend_from_slice(b);
    }
    out
}

/// A blob with `magic` around `payload`.
fn blob(magic: u32, payload: &[u8]) -> Vec<u8> {
    let mut out = Vec::new();
    be32(&mut out, magic);
    be32(&mut out, (8 + payload.len()) as u32);
    out.extend_from_slice(payload);
    out
}

/// A version 0x20400 code directory with two code and three special hashes
/// of 32 bytes and the identifier `com.example.app`.
fn code_directory_v20400() -> Vec<u8> {
    let ident = b"com.example.app\0";
    let fields_end = 88u32;
    let ident_offset = fields_end;
    let special_start = ident_offset + ident.len() as u32;
    let hash_offset = special_start + 3 * 32;
    let total = hash_offset + 2 * 32;
    let mut out = Vec::new();
    be32(&mut out, 0xfade0c02);
    be32(&mut out, total);
    be32(&mut out, 0x20400); // version
    be32(&mut out, 0); // flags
    be32(&mut out, hash_offset);
    be32(&mut out, ident_offset);
    be32(&mut out, 3); // special slots
    be32(&mut out, 2); // code slots
    be32(&mut out, 0x4000); // code limit
    out.push(32); // hash size
    out.push(2); // hash type
    out.push(0); // platform
    out.push(12); // page size exponent
    be32(&mut out, 0); // spare2
    be32(&mut out, 0); // scatter
    be32(&mut out, 0); // team
    be32(&mut out, 0); // spare3
    be64(&mut out, 0x4000); // code limit 64
    be64(&mut out, 0); // exec seg base
    be64(&mut out, 0x1000); // exec seg limit
    be64(&mut out, 1); // exec seg flags
    assert_eq!(out.len(), fields_end as usize);
    out.extend_from_slice(ident);
    for slot in 0..3u8 {
        out.extend_from_slice(&[0xa0 + slot; 32]);
    }
    for page in 0..2u8 {
        out.extend_from_slice(&[0xc0 + page; 32]);
    }
    assert_eq!(out.len(), total as usize);
    out
}

#[test]
fn minimal_super_blob_one_slot() {
    let mut data = Vec::new();
    be32(&mut data, 0xfade0cc0);
    be32(&mut data, 0x18);
    be32(&mut data, 1);
    be32(&mut data, 5);
    be32(&mut data, 0x14);
    be32(&mut data, 0xfade7171);
    be32(&mut data, 8);
    data.extend_from_slice(b"plist");

    let sig = EmbeddedSignature::from_bytes(&data).unwrap();
    assert_eq!(sig.magic, CodeSigningMagic::EmbeddedSignature);
    assert_eq!(sig.length, 0x18);
    assert_eq!(sig.count, 1);
    assert_eq!(sig.blobs.len(), 1);
    let entry = &sig.blobs[0];
    assert_eq!(entry.index, 0);
    assert_eq!(entry.slot, CodeSigningSlot::Entitlements);
    assert_eq!(entry.magic, CodeSigningMagic::EmbeddedEntitlements);
    assert_eq!(entry.offset, 0x14);
    assert_eq!(entry.length, 8);
    assert_eq!(entry.data, &data[0x14..0x1c]);
}

#[test]
fn two_slot_super_blob_signature_data() {
    let data = super_blob(&[
        (0, code_directory_v20400()),
        (0x10000, blob(0xfade0b01, &[0x30, 0x82, 0x01, 0x02])),
    ]);
    let sig = EmbeddedSignature::from_bytes(&data).unwrap();
    assert_eq!(sig.blobs.len(), 2);
    assert!(sig.find_slot(CodeSigningSlot::Signature).is_some());
    assert_eq!(sig.find_slot(CodeSigningSlot::Signature).unwrap().index, 1);
    assert!(sig.find_slot(CodeSigningSlot::Entitlements).is_none());
    assert_eq!(sig.signature_data().unwrap(), Some(&[0x30u8, 0x82, 0x01, 0x02][..]));
    let cd = sig.code_directory().unwrap().unwrap();
    assert_eq!(cd.ident, "com.example.app");
    assert!(sig.requirements().unwrap().is_none());
}

#[test]
fn unknown_slot_and_magic_are_kept() {
    let data = super_blob(&[(0xdeadbeef, blob(0xcafed00d, &[1, 2, 3, 4]))]);
    let sig = EmbeddedSignature::from_bytes(&data).unwrap();
    assert_eq!(sig.blobs[0].slot, CodeSigningSlot::Unknown(0xdeadbeef));
    assert_eq!(sig.blobs[0].magic, CodeSigningMagic::Unknown(0xcafed00d));
    let parsed = sig
        .find_slot_parsed(CodeSigningSlot::Unknown(0xdeadbeef))
        .unwrap()
        .unwrap();
    match parsed.blob {
        BlobData::Other((magic, length, bytes)) => {
            assert_eq!(magic, 0xcafed00d);
            assert_eq!(length, 12);
            assert_eq!(bytes, &blob(0xcafed00d, &[1, 2, 3, 4])[..]);
        }
        _ => panic!("expected an unknown blob"),
    }
}

#[test]
fn version_gated_code_directory() {
    let data = code_directory_v20400();
    let cd = CodeDirectoryBlob::from_bytes(&data).unwrap();
    assert_eq!(cd.version, 0x20400);
    assert_eq!(cd.hash_size, 32);
    assert!(matches!(cd.hash_type, HashType::Sha256));
    assert_eq!(cd.page_size, 4096);
    assert_eq!(cd.scatter_offset, Some(0));
    assert_eq!(cd.team_offset, Some(0));
    assert_eq!(cd.code_limit_64, Some(0x4000));
    assert_eq!(cd.exec_seg_base, Some(0));
    assert_eq!(cd.exec_seg_limit, Some(0x1000));
    assert_eq!(cd.exec_seg_flags, Some(1));
    assert_eq!(cd.runtime, None);
    assert_eq!(cd.pre_encrypt_offset, None);
    assert_eq!(cd.linkage_size, None);
    assert_eq!(cd.ident, "com.example.app");
    assert_eq!(cd.code_hashes.len(), 2);
    assert_eq!(cd.code_hashes[0].data, &[0xc0u8; 32][..]);
    assert_eq!(cd.code_hashes[1].data, &[0xc1u8; 32][..]);
    assert_eq!(cd.special_hashes.len(), 3);
    for (i, (slot, hash)) in cd.special_hashes.iter().enumerate() {
        assert_eq!(*slot, CodeSigningSlot::from(i as u32));
        assert_eq!(hash.to_vec(), vec![0xa0 + i as u8; 32]);
    }
    assert_eq!(cd.special_hashes[2].0, CodeSigningSlot::Requirements);
    assert_eq!(cd.special_hash(CodeSigningSlot::Info).unwrap().data, &[0xa1u8; 32][..]);
    assert_eq!(cd.special_hash(CodeSigningSlot::Requirements).unwrap().data, &[0xa2u8; 32][..]);
    assert!(cd.special_hash(CodeSigningSlot::Entitlements).is_none());
    assert!(format!("{:?}", cd).contains("com.example.app"));
}

#[test]
fn old_code_directory_has_no_gated_fields() {
    let mut data = code_directory_v20400();
    data[8..12].copy_from_slice(&0x20001u32.to_be_bytes());
    let cd = CodeDirectoryBlob::from_bytes(&data).unwrap();
    assert_eq!(cd.scatter_offset, None);
    assert_eq!(cd.team_offset, None);
    assert_eq!(cd.spare3, None);
    assert_eq!(cd.code_limit_64, None);
    assert_eq!(cd.exec_seg_base, None);
}

#[test]
fn code_directory_without_special_slots() {
    let mut data = code_directory_v20400();
    data[24..28].copy_from_slice(&0u32.to_be_bytes());
    let cd = CodeDirectoryBlob::from_bytes(&data).unwrap();
    assert!(cd.special_hashes.is_empty());
    assert_eq!(cd.code_hashes.len(), 2);
}

#[test]
fn code_directory_identifier_without_nul() {
    let mut data = code_directory_v20400();
    let len = data.len() as u32;
    data[20..24].copy_from_slice(&len.to_be_bytes());
    assert_eq!(
        CodeDirectoryBlob::from_bytes(&data).err(),
        Some(MachOParseError::BadIdentifierString)
    );
    data[20..24].copy_from_slice(&(len + 1).to_be_bytes());
    assert_eq!(CodeDirectoryBlob::from_bytes(&data).err(), Some(MachOParseError::Read));
}

#[test]
fn code_directory_special_hash_underflow() {
    let mut data = code_directory_v20400();
    // hash_offset smaller than 3 slots of 32 bytes
    data[16..20].copy_from_slice(&64u32.to_be_bytes());
    assert_eq!(CodeDirectoryBlob::from_bytes(&data).err(), Some(MachOParseError::BadOffset));
}

#[test]
fn code_directory_hashes_past_end() {
    let mut data = code_directory_v20400();
    data[28..32].copy_from_slice(&3u32.to_be_bytes());
    assert_eq!(CodeDirectoryBlob::from_bytes(&data).err(), Some(MachOParseError::Read));
}

#[test]
fn code_directory_bad_utf8_identifier() {
    let mut data = code_directory_v20400();
    data[89] = 0xff;
    assert_eq!(CodeDirectoryBlob::from_bytes(&data).err(), Some(MachOParseError::Utf8Error(1)));
}

#[test]
fn code_directory_huge_page_size() {
    let mut data = code_directory_v20400();
    data[39] = 40;
    assert_eq!(CodeDirectoryBlob::from_bytes(&data).err(), Some(MachOParseError::BadOffset));
}

#[test]
fn code_directory_bad_magic() {
    let mut data = code_directory_v20400();
    data[3] = 0x03;
    assert_eq!(CodeDirectoryBlob::from_bytes(&data).err(), Some(MachOParseError::BadMagic));
}

#[test]
fn code_directory_truncated_fields() {
    let data = code_directory_v20400();
    assert_eq!(CodeDirectoryBlob::from_bytes(&data[..80]).err(), Some(MachOParseError::Read));
}

fn requirement(expr: &[u32], tail: &[u8]) -> Vec<u8> {
    let mut payload = Vec::new();
    for t in expr {
        be32(&mut payload, *t);
    }
    payload.extend_from_slice(tail);
    blob(0xfade0c00, &payload)
}

fn requirements_blob(segments: &[Vec<u8>]) -> Vec<u8> {
    let table_end = 12 + 8 * segments.len();
    let total = table_end + segments.iter().map(|s| s.len()).sum::<usize>();
    let mut out = Vec::new();
    be32(&mut out, 0xfade0c01);
    be32(&mut out, total as u32);
    be32(&mut out, segments.len() as u32);
    let mut offset = table_end;
    for s in segments {
        be32(&mut out, 3);
        be32(&mut out, offset as u32);
        offset += s.len();
    }
    for s in segments {
        out.extend_from_slice(s);
    }
    out
}

#[test]
fn requirements_tree() {
    let data = requirements_blob(&[requirement(&[6, 1, 2], b"x"), requirement(&[7, 0, 3], b"")]);
    let reqs = RequirementsBlob::from_bytes(&data).unwrap();
    assert_eq!(reqs.segments.len(), 2);
    match &reqs.segments[0] {
        BlobData::Requirement(RequirementBlob { expression: Expression::And(a, b) }) => {
            assert!(matches!(**a, Expression::True));
            assert!(matches!(**b, Expression::Ident("x")));
        }
        _ => panic!("expected And(True, Ident(\"x\"))"),
    }
    match &reqs.segments[1] {
        BlobData::Requirement(RequirementBlob { expression: Expression::Or(a, b) }) => {
            assert!(matches!(**a, Expression::False));
            assert!(matches!(**b, Expression::AppleAnchor));
        }
        _ => panic!("expected Or(False, AppleAnchor)"),
    }

    let wrapped = super_blob(&[(2, data.clone())]);
    let sig = EmbeddedSignature::from_bytes(&wrapped).unwrap();
    assert_eq!(sig.requirements().unwrap().unwrap().segments.len(), 2);
    assert_eq!(sig.code_directory().err(), None);
}

#[test]
fn expression_residual_and_unknown_tags() {
    let mut data = Vec::new();
    be32(&mut data, 3);
    be32(&mut data, 99);
    let (e, rest) = Expression::from_bytes(&data).unwrap();
    assert!(matches!(e, Expression::AppleAnchor));
    assert_eq!(rest, &data[4..]);
    let (e, rest) = Expression::from_bytes(rest).unwrap();
    assert!(matches!(e, Expression::Other(99)));
    assert!(rest.is_empty());
    assert_eq!(Expression::from_bytes(&[0, 0]).err(), Some(MachOParseError::Read));
}

#[test]
fn expression_too_deep() {
    let mut data = Vec::new();
    for _ in 0..100 {
        be32(&mut data, 6);
    }
    be32(&mut data, 1);
    assert_eq!(Expression::from_bytes(&data).err(), Some(MachOParseError::ExpressionTooDeep));
}

#[test]
fn requirements_segment_inside_table_is_refused() {
    let mut data = requirements_blob(&[requirement(&[1], b"")]);
    data[16..20].copy_from_slice(&0u32.to_be_bytes());
    assert_eq!(RequirementsBlob::from_bytes(&data).err(), Some(MachOParseError::BadOffset));
}

#[test]
fn empty_index_decodes_to_no_blobs() {
    let data = super_blob(&[]);
    let sig = EmbeddedSignature::from_bytes(&data).unwrap();
    assert_eq!(sig.count, 0);
    assert!(sig.blobs.is_empty());
    assert!(sig.find_slot(CodeSigningSlot::CodeDirectory).is_none());
    assert!(sig.code_directory().unwrap().is_none());
    assert!(sig.signature_data().unwrap().is_none());
}

#[test]
fn super_blob_errors() {
    assert_eq!(EmbeddedSignature::from_bytes(&[0xfa, 0xde]).err(), Some(MachOParseError::Read));
    assert_eq!(
        EmbeddedSignature::from_bytes(&blob(0xfade0c01, &[0, 0, 0, 0])).err(),
        Some(MachOParseError::BadMagic)
    );
    let mut data = super_blob(&[(5, blob(0xfade7171, b"<plist/>"))]);
    // announced length past the data
    let mut long = data.clone();
    long[4..8].copy_from_slice(&1000u32.to_be_bytes());
    assert_eq!(EmbeddedSignature::from_bytes(&long).err(), Some(MachOParseError::BadOffset));
    // blob offset past the data
    let mut far = data.clone();
    far[16..20].copy_from_slice(&1000u32.to_be_bytes());
    assert_eq!(EmbeddedSignature::from_bytes(&far).err(), Some(MachOParseError::BadOffset));
    // blob header length past its span
    let at = 20;
    data[at + 4..at + 8].copy_from_slice(&100u32.to_be_bytes());
    assert_eq!(EmbeddedSignature::from_bytes(&data).err(), Some(MachOParseError::BadOffset));
}

#[test]
fn blob_spans_follow_sorted_offsets() {
    // Index entries out of offset order still frame each blob.
    let a = blob(0xfade7171, b"aa");
    let b = blob(0xfade0b01, b"bbbb");
    let mut data = Vec::new();
    be32(&mut data, 0xfade0cc0);
    be32(&mut data, (28 + a.len() + b.len()) as u32);
    be32(&mut data, 2);
    be32(&mut data, 0x10000);
    be32(&mut data, (28 + a.len()) as u32);
    be32(&mut data, 5);
    be32(&mut data, 28);
    data.extend_from_slice(&a);
    data.extend_from_slice(&b);
    let sig = EmbeddedSignature::from_bytes(&data).unwrap();
    assert_eq!(sig.blobs[0].slot, CodeSigningSlot::Signature);
    assert_eq!(sig.blobs[0].data, &b[..]);
    assert_eq!(sig.blobs[1].slot, CodeSigningSlot::Entitlements);
    assert_eq!(sig.blobs[1].data, &a[..]);
    assert_eq!(sig.signature_data().unwrap(), Some(&b"bbbb"[..]));
}

#[test]
fn truncated_super_blob_never_panics() {
    let data = super_blob(&[
        (0, code_directory_v20400()),
        (2, requirements_blob(&[requirement(&[6, 1, 2], b"x")])),
        (5, blob(0xfade7171, b"<plist/>")),
    ]);
    assert!(EmbeddedSignature::from_bytes(&data).is_ok());
    for n in 0..data.len() {
        match EmbeddedSignature::from_bytes(&data[..n]) {
            Ok(sig) => {
                assert!(sig.length as usize <= n);
                for e in &sig.blobs {
                    assert!(e.offset + e.length <= n);
                    let _ = e.into_parsed_blob();
                }
            }
            Err(e) => assert!(e == MachOParseError::Read || e == MachOParseError::BadOffset),
        }
    }
}

#[test]
fn entitlements_and_wrappers() {
    let data = super_blob(&[
        (5, blob(0xfade7171, b"<plist/>")),
        (0x10000, blob(0xfade0cc1, &[9])),
    ]);
    let sig = EmbeddedSignature::from_bytes(&data).unwrap();
    match sig.find_slot_parsed(CodeSigningSlot::Entitlements).unwrap().unwrap().blob {
        BlobData::EmbeddedEntitlements(e) => assert_eq!(e.plist, "<plist/>"),
        _ => panic!("expected entitlements"),
    }
    assert_eq!(sig.signature_data().err(), Some(MachOParseError::BadMagic));
    let bad = blob(0xfade7171, &[0xc3]);
    assert_eq!(
        apple_codesign::blobs::EntitlementsBlob::from_bytes(&bad).err(),
        Some(MachOParseError::Utf8Error(0))
    );
}

#[test]
fn dispatcher_cuts_to_announced_length() {
    let mut data = blob(0xfade0b01, &[1, 2, 3]);
    data.extend_from_slice(&[4, 5, 6]);
    match BlobData::from_bytes(&data).unwrap() {
        BlobData::BlobWrapper(w) => assert_eq!(w.data, &[1u8, 2, 3][..]),
        _ => panic!("expected a blob wrapper"),
    }
    let mut long = blob(0xfade0b01, &[1]);
    long[4..8].copy_from_slice(&64u32.to_be_bytes());
    assert_eq!(BlobData::from_bytes(&long).err(), Some(MachOParseError::BadOffset));
    assert_eq!(BlobData::from_bytes(&[0xfa]).err(), Some(MachOParseError::Read));
}

fn segname(name: &str) -> [u8; 16] {
    let mut out = [0u8; 16];
    out[..name.len()].copy_from_slice(name.as_bytes());
    out
}

#[test]
fn missing_linkedit() {
    let text = vec![0u8; 32];
    let obj = MachO {
        load_commands: vec![LoadCommand::Other(0x19), LoadCommand::CodeSignature { dataoff: 100, datasize: 10 }],
        segments: vec![Segment { segname: segname("__TEXT"), fileoff: 0, data: &text }],
    };
    assert_eq!(find_signature_data(&obj).err(), Some(MachOParseError::MissingLinkedit));
}

#[test]
fn finds_signature_in_linkedit() {
    let text = vec![0u8; 32];
    let sig = super_blob(&[(5, blob(0xfade7171, b"<plist/>"))]);
    let mut linkedit = vec![0xeeu8; 16];
    linkedit.extend_from_slice(&sig);
    let obj = MachO {
        load_commands: vec![LoadCommand::CodeSignature { dataoff: 0x1010, datasize: sig.len() as u32 }],
        segments: vec![
            Segment { segname: segname("__TEXT"), fileoff: 0, data: &text },
            Segment { segname: segname("__LINKEDIT"), fileoff: 0x1000, data: &linkedit },
        ],
    };
    let found = find_signature_data(&obj).unwrap().unwrap();
    assert_eq!(found.segments_count, 2);
    assert_eq!(found.linkedit_segment_index, 1);
    assert_eq!(found.signature_start_offset, 16);
    assert_eq!(found.signature_end_offset, 16 + sig.len());
    assert_eq!(found.signature_data, &sig[..]);
    let parsed = parse_signature_data(found.signature_data).unwrap();
    assert_eq!(parsed.blobs[0].slot, CodeSigningSlot::Entitlements);

    let none = MachO { load_commands: vec![LoadCommand::Other(1)], segments: vec![] };
    assert!(find_signature_data(&none).unwrap().is_none());

    let before = MachO {
        load_commands: vec![LoadCommand::CodeSignature { dataoff: 0x10, datasize: 4 }],
        segments: vec![Segment { segname: segname("__LINKEDIT"), fileoff: 0x1000, data: &linkedit }],
    };
    assert_eq!(find_signature_data(&before).err(), Some(MachOParseError::BadOffset));

    let past = MachO {
        load_commands: vec![LoadCommand::CodeSignature { dataoff: 0x1010, datasize: 4096 }],
        segments: vec![Segment { segname: segname("__LINKEDIT"), fileoff: 0x1000, data: &linkedit }],
    };
    assert_eq!(find_signature_data(&past).err(), Some(MachOParseError::Read));

    let lookalike = MachO {
        load_commands: vec![LoadCommand::CodeSignature { dataoff: 0x1010, datasize: 4 }],
        segments: vec![Segment { segname: segname("__LINKEDITX"), fileoff: 0x1000, data: &linkedit }],
    };
    assert_eq!(find_signature_data(&lookalike).err(), Some(MachOParseError::MissingLinkedit));
}

#[test]
fn parse_signature_data_checks_magic() {
    assert_eq!(parse_signature_data(&[1, 2, 3, 4]).err(), Some(MachOParseError::BadMagic));
    assert_eq!(parse_signature_data(&[1, 2]).err(), Some(MachOParseError::Read));
}

#[test]
fn blob_wrapper_hex() {
    let data = blob(0xfade0b01, &[0x30, 0x0a, 0xff]);
    let wrapper = apple_codesign::blobs::BlobWrapperBlob::from_bytes(&data).unwrap();
    assert_eq!(wrapper.to_hex(), "300aff");
    assert_eq!(
        apple_codesign::blobs::BlobWrapperBlob::from_bytes(&blob(0xfade0b02, &[])).err(),
        Some(MachOParseError::BadMagic)
    );
}
