use wayland_display_core::gpu::describe_gpu;
use wayland_display_core::sysfs::{
    gpu_device_name, gpu_vendor_id, parse_hex_u32, sysfs_device_path, sysfs_id_of,
    sysfs_vendor_path, HexParseError,
};

#[test]
fn sysfs_id_drops_prefix_and_line_feeds() {
    assert_eq!(sysfs_id_of("0x10de\n"), "10de");
    assert_eq!(sysfs_id_of("0x0x12\n\n"), "12");
    assert_eq!(sysfs_id_of("10de"), "10de");
    assert_eq!(sysfs_id_of("0X10de\n"), "0X10de");
    assert_eq!(sysfs_id_of("\n"), "");
    assert_eq!(sysfs_id_of("0x"), "");
}

#[test]
fn hex_parsing_matches_from_str_radix() {
    let cases = [
        "10de", "", "+", "-", "-1", "+ff", "FFFFFFFF", "100000000", "1g", "fFfF", "0",
        "00000000000010de", "ffffffffffg", "+-1", " 1", "é",
    ];
    for c in cases {
        let expected = u32::from_str_radix(c, 16).map_err(|e| match e.kind() {
            std::num::IntErrorKind::Empty => HexParseError::Empty,
            std::num::IntErrorKind::InvalidDigit => HexParseError::InvalidDigit,
            std::num::IntErrorKind::PosOverflow => HexParseError::PosOverflow,
            k => panic!("unexpected kind {:?}", k),
        });
        assert_eq!(parse_hex_u32(c), expected, "input {:?}", c);
    }
}

#[test]
fn hex_parsing_values() {
    assert_eq!(parse_hex_u32("10de"), Ok(0x10de));
    assert_eq!(parse_hex_u32("+ff"), Ok(255));
    assert_eq!(parse_hex_u32("FFFFFFFF"), Ok(u32::MAX));
    assert_eq!(parse_hex_u32(""), Err(HexParseError::Empty));
    assert_eq!(parse_hex_u32("-1"), Err(HexParseError::InvalidDigit));
    assert_eq!(parse_hex_u32("100000000"), Err(HexParseError::PosOverflow));
}

#[test]
fn vendor_id_from_sysfs_file() {
    assert_eq!(gpu_vendor_id("0x10de\n"), Ok(0x10de));
    assert_eq!(gpu_vendor_id("0x8086\n"), Ok(0x8086));
    assert_eq!(gpu_vendor_id("\n"), Err(HexParseError::Empty));
    assert_eq!(gpu_vendor_id("0xzz\n"), Err(HexParseError::InvalidDigit));
}

#[test]
fn device_name_from_sysfs_files() {
    let db = "10de  NVIDIA Corporation\n\t2204  GA102 [GeForce RTX 3090]\n";
    assert_eq!(
        gpu_device_name(db, "0x10de\n", "0x2204\n"),
        "NVIDIA Corporation GA102 [GeForce RTX 3090]"
    );
    assert_eq!(gpu_device_name(db, "0x10de\n", "0x9999\n"), "");
}

#[test]
fn sysfs_paths() {
    assert_eq!(sysfs_vendor_path(0), "/sys/class/drm/card0/device/vendor");
    assert_eq!(sysfs_device_path(1), "/sys/class/drm/card1/device/device");
    assert_eq!(sysfs_vendor_path(128), "/sys/class/drm/card128/device/vendor");
    assert_eq!(sysfs_device_path(u32::MAX), "/sys/class/drm/card4294967295/device/device");
}

#[test]
fn gpu_descriptions() {
    assert_eq!(
        describe_gpu("/dev/dri/renderD128", 0x10de, "NVIDIA Corporation GA102"),
        "GPUDevice { drm_node: /dev/dri/renderD128, pci_vendor: 0x10de, device_name: NVIDIA Corporation GA102 }"
    );
    assert_eq!(
        describe_gpu("card0", 0x2, ""),
        format!("GPUDevice {{ drm_node: card0, pci_vendor: {:#06x}, device_name:  }}", 0x2)
    );
    assert_eq!(
        describe_gpu("n", 0x12345, "x"),
        format!("GPUDevice {{ drm_node: n, pci_vendor: {:#06x}, device_name: x }}", 0x12345)
    );
}

#[test]
fn hex_parse_error_messages() {
    for (input, e) in [("", HexParseError::Empty), ("g", HexParseError::InvalidDigit), ("100000000", HexParseError::PosOverflow)] {
        let std_err = u32::from_str_radix(input, 16).unwrap_err();
        assert_eq!(e.message(), std_err.to_string());
    }
}
