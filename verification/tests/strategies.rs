//! Per-mechanism acquisition strategies on synthetic native inputs.

use sha2::Digest;
use system_id::bsd;
use system_id::id::Confidence;
use system_id::linux;
use system_id::macos;
use system_id::posix;
use system_id::windows;

#[test]
fn dbus_machine_id_resolves_the_synthetic_file() {
    let contents = vec![Some(b"d41d8cd98f00b204e9800998ecf8427e\n".to_vec())];
    let id = posix::get_dbus_machine_id(&contents).expect("should resolve");
    assert_eq!(
        id.bytes().as_slice(),
        &0xd41d8cd98f00b204e9800998ecf8427eu128.to_be_bytes()
    );
    assert_eq!(id.confidence(), Confidence::High);
}

#[test]
fn dbus_machine_id_falls_back_past_unreadable_and_invalid_files() {
    let contents = vec![
        None,
        Some(b"not a machine id\n".to_vec()),
        Some(b"0123456789abcdef0123456789abcdef".to_vec()),
    ];
    let id = posix::get_dbus_machine_id(&contents).expect("should resolve");
    assert_eq!(
        id.bytes().as_slice(),
        &0x0123456789abcdef0123456789abcdefu128.to_be_bytes()
    );
}

#[test]
fn dbus_machine_id_with_no_readable_valid_file_yields_nothing() {
    assert_eq!(posix::get_dbus_machine_id(&vec![]), None);
    assert_eq!(posix::get_dbus_machine_id(&vec![None, None]), None);
    assert_eq!(
        posix::get_dbus_machine_id(&vec![Some(b"xyz".to_vec())]),
        None
    );
}

#[test]
fn host_id_wraps_the_machine_word_big_endian() {
    let id = posix::get_host_id(0x0102030405060708);
    assert_eq!(id.bytes().as_slice(), &[1u8, 2, 3, 4, 5, 6, 7, 8]);
    assert_eq!(id.confidence(), Confidence::Low);

    let negative = posix::get_host_id(-1);
    assert_eq!(negative.bytes().as_slice(), &[0xffu8; 8]);
}

#[test]
fn boot_id_parses_the_trimmed_uuid_with_low_confidence() {
    let content = Some(b" 6ba7b810-9dad-11d1-80b4-00c04fd430c8\n".to_vec());
    let id = linux::get_boot_id(&content).expect("should parse");
    let expected = uuid::Uuid::parse_str("6ba7b810-9dad-11d1-80b4-00c04fd430c8").unwrap();
    assert_eq!(id.bytes().as_slice(), expected.as_bytes());
    assert_eq!(id.confidence(), Confidence::Low);
    assert_eq!(linux::get_boot_id(&None), None);
    assert_eq!(linux::get_boot_id(&Some(b"garbage\n".to_vec())), None);
}

#[test]
fn sysfs_dmi_product_id_parses_with_high_confidence() {
    let content = Some(b"6ba7b810-9dad-11d1-80b4-00c04fd430c8\n".to_vec());
    let id = linux::get_dmi_product_id(&content).expect("should parse");
    let expected = uuid::Uuid::parse_str("6ba7b810-9dad-11d1-80b4-00c04fd430c8").unwrap();
    assert_eq!(id.bytes().as_slice(), expected.as_bytes());
    assert_eq!(id.confidence(), Confidence::High);
}

fn kenv_buffer(text: &str) -> Vec<u8> {
    // A 129-byte kenv value buffer: the text, a NUL terminator, zero fill.
    let mut buf = text.as_bytes().to_vec();
    buf.resize(129, 0);
    buf
}

#[test]
fn kenv_accepts_exactly_33_or_37_written_bytes() {
    let hyphenated = kenv_buffer("6ba7b810-9dad-11d1-80b4-00c04fd430c8");
    let simple = kenv_buffer("6ba7b8109dad11d180b400c04fd430c8");
    let expected = uuid::Uuid::parse_str("6ba7b810-9dad-11d1-80b4-00c04fd430c8").unwrap();

    let id = bsd::get_dmi_product_id(37, &hyphenated).expect("37 written bytes parse");
    assert_eq!(id.bytes().as_slice(), expected.as_bytes());
    assert_eq!(id.confidence(), Confidence::High);

    let id = bsd::get_dmi_product_id(33, &simple).expect("33 written bytes parse");
    assert_eq!(id.bytes().as_slice(), expected.as_bytes());

    // Any other reported count is rejected, even with the same content.
    assert_eq!(bsd::get_dmi_product_id(0, &hyphenated), None);
    assert_eq!(bsd::get_dmi_product_id(32, &simple), None);
    assert_eq!(bsd::get_dmi_product_id(36, &hyphenated), None);
    assert_eq!(bsd::get_dmi_product_id(38, &hyphenated), None);
    assert_eq!(bsd::get_dmi_product_id(-1, &hyphenated), None);
}

#[test]
fn kernel_host_id_needs_the_no_error_sentinel_and_a_uuid() {
    let buf = kenv_buffer("6ba7b810-9dad-11d1-80b4-00c04fd430c8");
    let expected = uuid::Uuid::parse_str("6ba7b810-9dad-11d1-80b4-00c04fd430c8").unwrap();

    let id = bsd::get_kernel_host_id(0, &buf).expect("zero status parses");
    assert_eq!(id.bytes().as_slice(), expected.as_bytes());
    assert_eq!(id.confidence(), Confidence::High);

    assert_eq!(bsd::get_kernel_host_id(-1, &buf), None);
    assert_eq!(bsd::get_kernel_host_id(1, &buf), None);
    assert_eq!(bsd::get_kernel_host_id(0, &kenv_buffer("not a uuid")), None);
}

#[test]
fn platform_serial_is_hashed_not_passed_through() {
    let serial = Some(b"C02XK1ZKJGH5".to_vec());
    let id = macos::get_platform_serial_number(&serial).expect("should hash");
    let expected = sha2::Sha224::digest(b"C02XK1ZKJGH5");
    assert_eq!(id.bytes().as_slice(), expected.as_slice());
    assert_ne!(id.bytes().as_slice(), b"C02XK1ZKJGH5");
    assert_eq!(id.confidence(), Confidence::High);
    assert_eq!(macos::get_platform_serial_number(&None), None);
}

#[test]
fn windows_machine_guid_parses_as_uuid() {
    let guid = Some(b"6ba7b810-9dad-11d1-80b4-00c04fd430c8".to_vec());
    let id = windows::get_machine_id(&guid).expect("should parse");
    let expected = uuid::Uuid::parse_str("6ba7b810-9dad-11d1-80b4-00c04fd430c8").unwrap();
    assert_eq!(id.bytes().as_slice(), expected.as_bytes());
    assert_eq!(id.confidence(), Confidence::High);
    assert_eq!(windows::get_machine_id(&None), None);
    assert_eq!(windows::get_machine_id(&Some(b"bogus".to_vec())), None);
}

#[test]
fn windows_wmi_product_uuid_parses_as_uuid() {
    let product = Some(b"03000200-0400-0500-0006-000700080009".to_vec());
    let id = windows::get_dmi_product_id(&product).expect("should parse");
    let expected = uuid::Uuid::parse_str("03000200-0400-0500-0006-000700080009").unwrap();
    assert_eq!(id.bytes().as_slice(), expected.as_bytes());
    assert_eq!(id.confidence(), Confidence::High);
}

#[test]
fn volume_serial_and_install_date_wrap_the_integer() {
    let id = windows::get_system_root_volume_id(&Some(0xa1b2c3d4)).expect("present");
    assert_eq!(id.bytes().as_slice(), &[0xa1u8, 0xb2, 0xc3, 0xd4]);
    assert_eq!(id.confidence(), Confidence::High);
    assert_eq!(windows::get_system_root_volume_id(&None), None);

    let id = windows::get_install_date(&Some(0x5f5e0ff0)).expect("present");
    assert_eq!(id.bytes().as_slice(), &[0x5fu8, 0x5e, 0x0f, 0xf0]);
    assert_eq!(id.confidence(), Confidence::Low);
    assert_eq!(windows::get_install_date(&None), None);
}
