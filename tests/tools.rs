use rignite::chainload::{child_path, choose_chainload_target, contains_str, ends_with_str, is_efi_app, EfiApp};
use rignite::logger::LogBuffer;
use rignite::rbc::{encode_config, ConfigView, RbcError, Tag};

fn app(path: &str) -> EfiApp {
    let name = path.rsplit('\\').next().unwrap().to_string();
    EfiApp { path: path.to_string(), name }
}

#[test]
fn chainload_prefers_quibble() {
    let apps = vec![app("\\EFI\\BOOT\\BOOTX64.EFI"), app("\\EFI\\Quibble\\Quibble.efi"), app("\\a\\quibble.EFI")];
    assert_eq!(choose_chainload_target(&apps), Some(2));
}

#[test]
fn chainload_then_boot_manager_then_first() {
    let apps = vec![app("\\tools\\shell.efi"), app("\\EFI\\Microsoft\\Boot\\bootmgfw.efi"), app("\\EFI\\BOOT\\BOOTX64.EFI")];
    assert_eq!(choose_chainload_target(&apps), Some(1));
    let apps = vec![app("\\tools\\shell.efi"), app("\\tools\\memtest.efi")];
    assert_eq!(choose_chainload_target(&apps), Some(0));
    assert_eq!(choose_chainload_target(&Vec::new()), None);
}

#[test]
fn efi_names_and_paths() {
    assert!(is_efi_app("grubx64.EFI"));
    assert!(!is_efi_app("readme.txt"));
    assert!(!is_efi_app("efi"));
    assert_eq!(child_path("\\EFI", "BOOT"), "\\EFI\\BOOT");
    assert_eq!(child_path("", "a.efi"), "\\a.efi");
    assert!(contains_str("abcabd", "abd"));
    assert!(!contains_str("abcab", "abd"));
    assert!(contains_str("x", ""));
    assert!(ends_with_str("shell.efi", ".efi"));
    assert!(!ends_with_str("ef", ".efi"));
}

#[test]
fn encoded_blob_reads_back() {
    let uuid = [7u8; 16];
    let atoms = vec![
        (Tag::MainUuid, uuid.to_vec()),
        (Tag::MainFsType, 1u16.to_le_bytes().to_vec()),
        (Tag::MainKernelParams, b"quiet".to_vec()),
        (Tag::Signature, b"RIGNITE-DEBUG-SIGNATURE".to_vec()),
    ];
    let blob = encode_config(&atoms).unwrap();
    assert_eq!(&blob[0..4], b"RGN!");
    assert_eq!(blob.len(), 16 + 20 + 6 + 9 + 27);
    assert_eq!(u32::from_le_bytes([blob[6], blob[7], blob[8], blob[9]]) as usize, blob.len());
    assert_eq!(u16::from_le_bytes([blob[10], blob[11]]), 4);
    let v = ConfigView::new(&blob).unwrap();
    assert_eq!(v.get_main_uuid(), Some(&uuid));
    assert!(matches!(v.get_main_kernel_params(), Ok(Some("quiet"))));
    assert_eq!(v.get_signature(), Some(&b"RIGNITE-DEBUG-SIGNATURE"[..]));
}

#[test]
fn encoder_rejects_oversized_values() {
    let atoms = vec![(Tag::MainKernelParams, vec![b'a'; 65536])];
    assert!(matches!(encode_config(&atoms), Err(RbcError::MalformedAtom)));
    let atoms = vec![(Tag::MainKernelParams, vec![b'a'; 65535])];
    assert_eq!(encode_config(&atoms).unwrap().len(), 16 + 4 + 65535);
}

#[test]
fn log_buffer_keeps_latest_fifty() {
    let mut log = LogBuffer::new();
    for i in 0..60 {
        log.push("INF", format!("line {}", i));
    }
    let entries = log.entries();
    assert_eq!(entries.len(), 50);
    assert_eq!(entries[0].message, "line 10");
    assert_eq!(entries[49].message, "line 59");
    assert_eq!(entries[49].level, "INF");
}
