use rignite::controller::{
    build_menu, drive_size, is_default_label, is_listed_drive, menu_action, menu_key, recovery_key, Key,
    MenuAction, MenuCommand, MenuEntry, RecoveryCommand, Splash, SplashOutcome,
};
use rignite::error::FwError;
use rignite::handoff::{
    file_path_node, initrd_device_path, load_file2_reply, load_options, normalize_efi_path, LoadFileStatus,
};
use rignite::launcher::default_cmdline;
use rignite::pe::{validate_kernel_pe, MACHINE_AARCH64, MACHINE_X86_64};
use rignite::usb::{
    aoa_get_protocol_request, aoa_identity, aoa_send_string_request, aoa_start_request, aoa_string_payload,
    is_usb_controller, RdfManager, UsbDataDirection, UsbEndpointDescriptor,
};

fn pe_image(len: usize, pe_offset: u32, machine: u16) -> Vec<u8> {
    let mut d = vec![0u8; len];
    d[0] = b'M';
    d[1] = b'Z';
    d[0x3C..0x40].copy_from_slice(&pe_offset.to_le_bytes());
    let o = pe_offset as usize;
    if o + 6 <= len {
        d[o] = b'P';
        d[o + 1] = b'E';
        d[o + 4..o + 6].copy_from_slice(&machine.to_le_bytes());
    }
    d
}

#[test]
fn pe_short_buffers_are_accepted() {
    assert!(validate_kernel_pe(&[0u8; 64], MACHINE_X86_64).is_ok());
    assert!(validate_kernel_pe(&[], MACHINE_X86_64).is_ok());
}

#[test]
fn pe_requires_mz() {
    assert!(matches!(validate_kernel_pe(&[0u8; 65], MACHINE_X86_64), Err(FwError::InvalidParameter)));
}

#[test]
fn pe_checks_signature_and_machine() {
    let img = pe_image(512, 0x80, MACHINE_X86_64);
    assert!(validate_kernel_pe(&img, MACHINE_X86_64).is_ok());
    assert!(matches!(validate_kernel_pe(&img, MACHINE_AARCH64), Err(FwError::InvalidParameter)));
    let mut no_pe = img.clone();
    no_pe[0x80] = b'X';
    assert!(matches!(validate_kernel_pe(&no_pe, MACHINE_X86_64), Err(FwError::InvalidParameter)));
    let arm = pe_image(512, 0x40, MACHINE_AARCH64);
    assert!(validate_kernel_pe(&arm, MACHINE_AARCH64).is_ok());
}

#[test]
fn pe_header_beyond_buffer_is_accepted() {
    let img = pe_image(100, 0x1000, 0);
    assert!(validate_kernel_pe(&img, MACHINE_X86_64).is_ok());
}

#[test]
fn pe_appending_keeps_accepted() {
    let mut img = pe_image(300, 0x80, MACHINE_X86_64);
    assert!(validate_kernel_pe(&img, MACHINE_X86_64).is_ok());
    img.extend_from_slice(&[0xEE; 4096]);
    assert!(validate_kernel_pe(&img, MACHINE_X86_64).is_ok());
}

#[test]
fn initrd_media_device_path_bytes() {
    assert_eq!(
        initrd_device_path(),
        vec![
            0x04, 0x03, 0x14, 0x00, 0x27, 0xe4, 0x68, 0x55, 0xfc, 0x68, 0x3d, 0x4f, 0xac, 0x74, 0xca, 0x55, 0x52,
            0x31, 0xcc, 0x68, 0x7f, 0xff, 0x04, 0x00
        ]
    );
}

#[test]
fn load_file2_replies() {
    assert_eq!(load_file2_reply(false, 0, true, Some(10)).status, LoadFileStatus::InvalidParameter);
    assert_eq!(load_file2_reply(true, 0, true, None).status, LoadFileStatus::NotFound);
    let small = load_file2_reply(true, 9, true, Some(10));
    assert_eq!(small.status, LoadFileStatus::BufferTooSmall);
    assert_eq!(small.size_written, Some(10));
    assert!(!small.copies);
    let null = load_file2_reply(true, 100, false, Some(10));
    assert_eq!(null.status, LoadFileStatus::BufferTooSmall);
    let ok = load_file2_reply(true, 10, true, Some(10));
    assert_eq!(ok.status, LoadFileStatus::Success);
    assert!(ok.copies);
}

#[test]
fn load_options_are_utf16_with_nul() {
    assert_eq!(load_options("console=ttyS0"), "console=ttyS0\0".encode_utf16().collect::<Vec<u16>>());
    assert_eq!(load_options("é𝄞"), vec![0xE9, 0xD834, 0xDD1E, 0]);
}

#[test]
fn efi_paths_are_normalised() {
    assert_eq!(normalize_efi_path(b"EFI/Boot/bootx64.efi"), b"\\EFI\\Boot\\bootx64.efi");
    assert_eq!(normalize_efi_path(b"/EFI/x.efi"), b"\\EFI\\x.efi");
    assert_eq!(normalize_efi_path(b"\\a"), b"\\a");
    assert_eq!(normalize_efi_path(b""), b"\\");
}

#[test]
fn file_path_node_layout() {
    let node = file_path_node(&[0x5C, 0x41]);
    assert_eq!(node, vec![0x04, 0x04, 10, 0, 0x5C, 0, 0x41, 0, 0, 0, 0x7F, 0xFF, 0x04, 0x00]);
}

#[test]
fn default_command_line() {
    assert_eq!(
        default_cmdline("abc"),
        "root=UUID=abc root=/dev/vda rw rootfstype=btrfs init=/Core/sbin/init console=ttyS0"
    );
}

#[test]
fn splash_chord_twice_enters_menu() {
    let mut s = Splash::new();
    assert_eq!(s.frame(true, true), SplashOutcome::Waiting);
    assert!(s.confirming);
    let mut outcome = SplashOutcome::Waiting;
    for _ in 0..40 {
        outcome = s.frame(true, true);
        if outcome != SplashOutcome::Waiting {
            break;
        }
    }
    assert_eq!(outcome, SplashOutcome::EnterMenu);
}

#[test]
fn splash_single_chord_times_out_to_auto_boot() {
    let mut s = Splash::new();
    assert_eq!(s.frame(true, true), SplashOutcome::Waiting);
    let mut frames = 0;
    loop {
        frames += 1;
        let o = s.frame(false, false);
        if o != SplashOutcome::Waiting {
            assert_eq!(o, SplashOutcome::AutoBoot);
            break;
        }
    }
    assert_eq!(frames, 300);
}

#[test]
fn splash_one_key_is_no_chord() {
    let mut s = Splash::new();
    for _ in 0..10 {
        assert_eq!(s.frame(true, false), SplashOutcome::Waiting);
    }
    assert!(!s.confirming);
}

#[test]
fn menu_navigation_wraps() {
    let menu = build_menu(2);
    assert_eq!(menu.len(), 6);
    assert_eq!(menu[0], MenuEntry::Drive(Some(0)));
    assert_eq!(menu[5], MenuEntry::Recovery);
    assert_eq!(menu_key(5, 6, Key::Down), MenuCommand::MoveTo(0));
    assert_eq!(menu_key(0, 6, Key::Char('w' as u16)), MenuCommand::MoveTo(5));
    assert_eq!(menu_key(2, 6, Key::Char('d' as u16)), MenuCommand::MoveTo(3));
    assert_eq!(menu_key(2, 6, Key::Char(0x0D)), MenuCommand::Select(2));
    assert_eq!(menu_key(2, 6, Key::Escape), MenuCommand::Nothing);
}

#[test]
fn empty_menu_has_placeholder() {
    let menu = build_menu(0);
    assert_eq!(menu.len(), 5);
    assert_eq!(menu_action(menu[0]), MenuAction::Nothing);
    assert_eq!(menu_action(menu[1]), MenuAction::FirmwareSettings);
    assert_eq!(menu_action(MenuEntry::Drive(Some(3))), MenuAction::BootDrive(3));
}

#[test]
fn recovery_list_navigation() {
    assert_eq!(recovery_key(0, 3, Key::Up), RecoveryCommand::MoveTo(0));
    assert_eq!(recovery_key(2, 3, Key::Down), RecoveryCommand::MoveTo(2));
    assert_eq!(recovery_key(1, 3, Key::Down), RecoveryCommand::MoveTo(2));
    assert_eq!(recovery_key(1, 3, Key::Char(0x0D)), RecoveryCommand::Flash(1));
    assert_eq!(recovery_key(0, 0, Key::Char(0x0D)), RecoveryCommand::Nothing);
    assert_eq!(recovery_key(0, 3, Key::Escape), RecoveryCommand::Back);
}

#[test]
fn drive_sizes() {
    assert_eq!(drive_size(512, 2047), 1048576);
    assert!(is_listed_drive(drive_size(512, 2047)));
    assert!(!is_listed_drive(drive_size(512, 2046)));
    assert_eq!(drive_size(4096, u64::MAX), u64::MAX);
    assert_eq!(drive_size(0, 10), 0);
}

#[test]
fn default_label_is_exact() {
    assert!(is_default_label(b"RunixOS"));
    assert!(!is_default_label(b"RunixOS2"));
    assert!(!is_default_label(b"runixos"));
}

#[test]
fn accessory_detection_and_requests() {
    assert!(RdfManager::is_accessory(0x18D1, 0x2D00));
    assert!(RdfManager::is_accessory(0x18D1, 0x2D01));
    assert!(!RdfManager::is_accessory(0x18D1, 0x4EE7));
    assert!(RdfManager::should_request_accessory(Some(2)));
    assert!(!RdfManager::should_request_accessory(Some(0)));
    assert!(!RdfManager::should_request_accessory(None));
    let r = aoa_get_protocol_request();
    assert_eq!((r.request_type, r.request, r.length), (0xC0, 51, 2));
    let payload = aoa_string_payload(aoa_identity(0));
    assert_eq!(payload, b"Rignite\0");
    let r = aoa_send_string_request(4, payload.len() as u16);
    assert_eq!((r.request_type, r.request, r.index, r.length), (0x40, 52, 4, 8));
    let r = aoa_start_request();
    assert_eq!((r.request_type, r.request, r.length), (0x40, 53, 0));
    assert_eq!(aoa_identity(4), "https://rignite.io");
    assert_eq!(UsbDataDirection::DataOut.as_u32(), 2);
}

#[test]
fn bulk_in_endpoint_selection() {
    let ep = |address: u8, attributes: u8| UsbEndpointDescriptor { endpoint_address: address, attributes, ..Default::default() };
    let eps = [ep(0x01, 2), ep(0x81, 3), ep(0x82, 2), ep(0x83, 2)];
    assert_eq!(RdfManager::bulk_in_endpoint(&eps), Some(0x82));
    assert_eq!(RdfManager::bulk_in_endpoint(&eps[..2]), None);
}

#[test]
fn usb_controller_class() {
    assert!(is_usb_controller(0x0C03_3000));
    assert!(!is_usb_controller(0x0C04_0000));
    assert!(!is_usb_controller(0x0103_0000));
}
