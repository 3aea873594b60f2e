use rignite::rbc::{verify_and_load, ConfigView, FsType, OwnedConfig, RbcError, Tag};

fn header(total: u32, count: u16) -> Vec<u8> {
    let mut v = vec![0x52, 0x47, 0x4E, 0x21, 0x01, 0x00];
    v.extend_from_slice(&total.to_le_bytes());
    v.extend_from_slice(&count.to_le_bytes());
    v.extend_from_slice(&[0, 0, 0, 0]);
    v
}

fn atom(tag: u16, value: &[u8]) -> Vec<u8> {
    let mut v = tag.to_le_bytes().to_vec();
    v.extend_from_slice(&(value.len() as u16).to_le_bytes());
    v.extend_from_slice(value);
    v
}

fn blob(atoms: &[Vec<u8>]) -> Vec<u8> {
    let body: Vec<u8> = atoms.concat();
    let mut v = header((16 + body.len()) as u32, atoms.len() as u16);
    v.extend_from_slice(&body);
    v
}

const UUID: [u8; 16] = [
    0x00, 0x11, 0x22, 0x33, 0x44, 0x55, 0x66, 0x77, 0x88, 0x99, 0xAA, 0xBB, 0xCC, 0xDD, 0xEE, 0xFF,
];

#[test]
fn boot_config_parse() {
    let data = blob(&[atom(0x01, &UUID), atom(0xFF, &[])]);
    assert_eq!(data.len(), 40);
    assert_eq!(u16::from_le_bytes([data[4], data[5]]), 1);
    assert_eq!(u16::from_le_bytes([data[10], data[11]]), 2);
    let v = ConfigView::new(&data).unwrap();
    assert_eq!(v.get_main_uuid(), Some(&UUID));
    let sig = v.get_signature().unwrap();
    assert!(sig.is_empty());
    assert_eq!(v.get_main_fs_type(), None);
    assert!(matches!(v.get_main_kernel_params(), Ok(None)));
}

#[test]
fn empty_config_has_no_atoms_and_no_signature() {
    let data = header(16, 0);
    let v = ConfigView::new(&data).unwrap();
    let mut it = v.atoms();
    assert!(it.next().is_none());
    assert!(v.get_signature().is_none());
}

#[test]
fn truncated_last_atom_ends_iteration() {
    let mut data = blob(&[atom(0x03, b"quiet"), atom(0x10, &UUID)]);
    data.truncate(data.len() - 10);
    let total = data.len() as u32;
    data[6..10].copy_from_slice(&total.to_le_bytes());
    let v = ConfigView::new(&data).unwrap();
    let mut it = v.atoms();
    let first = it.next().unwrap();
    assert_eq!(first.tag, Tag::MainKernelParams);
    assert_eq!(first.value, b"quiet");
    assert!(it.next().is_none());
    assert!(it.next().is_none());
    assert!(v.get_recovery_uuid().is_none());
}

#[test]
fn atoms_stay_within_count_and_size() {
    let mut data = blob(&[atom(0x02, &[1, 0]), atom(0x42, &[9, 9, 9]), atom(0xFF, b"sig")]);
    // declare fewer atoms than are present
    data[10] = 2;
    let v = ConfigView::new(&data).unwrap();
    let mut it = v.atoms();
    let mut n = 0;
    let mut bytes = 0;
    while let Some(a) = it.next() {
        n += 1;
        bytes += 4 + a.value.len();
    }
    assert_eq!(n, 2);
    assert!(bytes <= data.len() - 16);
    assert!(v.get_signature().is_none());
}

#[test]
fn unknown_tags_are_kept_in_iteration() {
    let data = blob(&[atom(0x42, &[7]), atom(0x11, &[22, 0])]);
    let v = ConfigView::new(&data).unwrap();
    let mut it = v.atoms();
    assert_eq!(it.next().unwrap().tag, Tag::Unknown(0x42));
    assert_eq!(v.get_recovery_fs_type(), Some(FsType::Fat32));
}

#[test]
fn header_errors() {
    assert!(matches!(ConfigView::new(&[0u8; 15]), Err(RbcError::BufferTooSmall)));
    let mut bad_magic = header(16, 0);
    bad_magic[0] = b'X';
    assert!(matches!(ConfigView::new(&bad_magic), Err(RbcError::InvalidMagic)));
    let mut bad_version = header(16, 0);
    bad_version[4] = 2;
    assert!(matches!(ConfigView::new(&bad_version), Err(RbcError::UnsupportedVersion)));
    let too_big = header(17, 0);
    assert!(matches!(ConfigView::new(&too_big), Err(RbcError::InvalidSize)));
}

#[test]
fn view_is_cut_to_total_size() {
    let mut data = blob(&[atom(0x01, &UUID)]);
    data.extend_from_slice(&atom(0xFF, b"outside"));
    let v = ConfigView::new(&data).unwrap();
    assert!(v.get_signature().is_none());
    assert_eq!(v.get_main_uuid(), Some(&UUID));
}

#[test]
fn typed_accessors_check_lengths() {
    let data = blob(&[atom(0x01, &UUID[..15]), atom(0x02, &[1, 0, 0]), atom(0x12, b"init=/bin/sh")]);
    let v = ConfigView::new(&data).unwrap();
    assert!(v.get_main_uuid().is_none());
    assert!(v.get_main_fs_type().is_none());
    assert!(matches!(v.get_recovery_kernel_params(), Ok(Some("init=/bin/sh"))));
}

#[test]
fn fs_type_codes() {
    let data = blob(&[atom(0x02, &[1, 0])]);
    assert_eq!(ConfigView::new(&data).unwrap().get_main_fs_type(), Some(FsType::Btrfs));
    let data = blob(&[atom(0x02, &[99, 0])]);
    assert_eq!(ConfigView::new(&data).unwrap().get_main_fs_type(), Some(FsType::Unknown(99)));
    assert_eq!(FsType::from_u16(31), FsType::HfsPlus);
    assert_eq!(FsType::Erofs.as_u16(), 10);
}

#[test]
fn kernel_params_must_be_utf8() {
    let data = blob(&[atom(0x03, &[0xFF, 0xFE])]);
    let v = ConfigView::new(&data).unwrap();
    assert!(matches!(v.get_main_kernel_params(), Err(RbcError::Utf8Error)));
    let data = blob(&[atom(0x03, "quiet splash é".as_bytes())]);
    let v = ConfigView::new(&data).unwrap();
    assert!(matches!(v.get_main_kernel_params(), Ok(Some("quiet splash é"))));
}

#[test]
fn tag_codes_round_trip() {
    for v in [0x01u16, 0x02, 0x03, 0x10, 0x11, 0x12, 0xFF, 0x7777] {
        assert_eq!(Tag::from_u16(v).as_u16(), v);
    }
    assert_eq!(Tag::from_u16(0x10), Tag::RecoveryUuid);
}

#[test]
fn owned_config_accessors() {
    let data = blob(&[atom(0x01, &UUID), atom(0x02, &[3, 0]), atom(0x03, b"rw"), atom(0xFF, b"s")]);
    let c = OwnedConfig::new(data);
    assert_eq!(c.get_main_uuid(), Some(&UUID));
    assert_eq!(c.get_main_fs_type(), Some(FsType::Xfs));
    assert!(matches!(c.get_main_kernel_params(), Ok(Some("rw"))));
    assert_eq!(c.view().get_signature(), Some(&b"s"[..]));
}

#[test]
fn load_requires_signature() {
    let unsigned = blob(&[atom(0x01, &UUID)]);
    assert!(matches!(verify_and_load(unsigned), Err(RbcError::VerificationFailed)));
    let signed = blob(&[atom(0x01, &UUID), atom(0xFF, b"sig")]);
    let c = verify_and_load(signed).unwrap();
    assert_eq!(c.get_main_uuid(), Some(&UUID));
    assert!(matches!(verify_and_load(vec![1, 2, 3]), Err(RbcError::BufferTooSmall)));
}

#[test]
fn tag_and_fs_type_conversions() {
    assert_eq!(u16::from(Tag::Signature), 0xFF);
    assert_eq!(Tag::from(0x03u16), Tag::MainKernelParams);
    assert_eq!(FsType::from(23u16), FsType::ExFat);
    assert_eq!(u16::from(FsType::Unknown(77)), 77);
}

#[test]
fn signature_must_be_last_and_is_split_off() {
    let not_last = blob(&[atom(0xFF, b"sig"), atom(0x01, &UUID)]);
    assert!(matches!(verify_and_load(not_last), Err(RbcError::VerificationFailed)));
    let data = blob(&[atom(0x01, &UUID), atom(0xFF, b"sig")]);
    let v = ConfigView::new(&data).unwrap();
    let (signed, sig) = v.signed_parts().unwrap();
    assert_eq!(sig, b"sig");
    assert_eq!(signed, &data[..16 + 20]);
    let empty = header(16, 0);
    assert!(ConfigView::new(&empty).unwrap().signed_parts().is_none());
}
