use wayland_display_core::pci_ids::parse_pci_ids;

const DB: &str = "# List of PCI ID's\n\
#\n\
10de  NVIDIA Corporation\n\
\t1b80  GP104 [GeForce GTX 1080]\n\
\t\t10de 119e  GeForce GTX 1080 Founders Edition\n\
\t2204  GA102 [GeForce RTX 3090]\n\
1002  Advanced Micro Devices, Inc. [AMD/ATI]\n\
\t73bf  Navi 21 [Radeon RX 6800/6800 XT / 6900 XT]\n\
8086  Intel Corporation\n\
\t3e92  CoffeeLake-S GT2 [UHD Graphics 630]\n";

#[test]
fn finds_device_under_its_vendor() {
    assert_eq!(
        parse_pci_ids(DB, "10de", "2204"),
        Some("NVIDIA Corporation GA102 [GeForce RTX 3090]".to_string())
    );
    assert_eq!(
        parse_pci_ids(DB, "8086", "3e92"),
        Some("Intel Corporation CoffeeLake-S GT2 [UHD Graphics 630]".to_string())
    );
    assert_eq!(
        parse_pci_ids(DB, "1002", "73bf"),
        Some(
            "Advanced Micro Devices, Inc. [AMD/ATI] Navi 21 [Radeon RX 6800/6800 XT / 6900 XT]"
                .to_string()
        )
    );
}

#[test]
fn unknown_device_or_vendor_gives_none() {
    assert_eq!(parse_pci_ids(DB, "10de", "ffff"), None);
    assert_eq!(parse_pci_ids(DB, "abcd", "2204"), None);
    assert_eq!(parse_pci_ids("", "10de", "2204"), None);
}

#[test]
fn device_lines_before_the_vendor_do_not_count() {
    assert_eq!(parse_pci_ids(DB, "8086", "2204"), None);
}

#[test]
fn device_lines_after_the_vendor_block_still_count() {
    // Once the vendor's line was seen, every later device line is a candidate.
    assert_eq!(
        parse_pci_ids(DB, "10de", "73bf"),
        Some("NVIDIA Corporation Navi 21 [Radeon RX 6800/6800 XT / 6900 XT]".to_string())
    );
}

#[test]
fn first_matching_device_line_wins() {
    let db = "10de  Vendor\n\t0001  First\n\t0001  Second\n";
    assert_eq!(parse_pci_ids(db, "10de", "0001"), Some("Vendor First".to_string()));
}

#[test]
fn latest_vendor_line_gives_the_vendor_name() {
    let db = "10de  Old Name\n10de  New Name\n\t0001  Dev\n";
    assert_eq!(parse_pci_ids(db, "10de", "0001"), Some("New Name Dev".to_string()));
}

#[test]
fn ids_need_two_spaces_before_the_name() {
    assert_eq!(parse_pci_ids("10de Vendor\n\t0001  Dev\n", "10de", "0001"), None);
    assert_eq!(parse_pci_ids("10de  Vendor\n\t0001 Dev\n", "10de", "0001"), None);
    // A longer id that begins with the searched id is no vendor line.
    assert_eq!(parse_pci_ids("10de1  Vendor\n\t0001  Dev\n", "10de", "0001"), None);
}

#[test]
fn names_are_trimmed_and_crlf_is_a_line_end() {
    let db = "10de  \t Vendor  \r\n\t0001     Dev\t \r\n";
    assert_eq!(parse_pci_ids(db, "10de", "0001"), Some("Vendor Dev".to_string()));
}

#[test]
fn last_line_without_line_feed_is_read() {
    assert_eq!(
        parse_pci_ids("10de  Vendor\n\t0001  Dev", "10de", "0001"),
        Some("Vendor Dev".to_string())
    );
}

#[test]
fn empty_vendor_id_finds_nothing() {
    // Every line begins with the empty id, so no line is read as a device line.
    assert_eq!(parse_pci_ids("  Vendor\n\t0001  Dev\n", "", "0001"), None);
}

#[test]
fn empty_names_are_kept_empty() {
    assert_eq!(parse_pci_ids("10de  \n\t0001  \n", "10de", "0001"), Some(" ".to_string()));
}

#[test]
fn lookup_law_on_a_listed_device() {
    // Lines before without the vendor, the two entry lines, anything after.
    let before = "# header\n1234  Other\n\t0001  Other dev\n";
    let entry = "abcd  Some Vendor\n\t0042  Some Device\n";
    let after = "\t0042  Later\nffff  Last\n";
    let db = format!("{}{}{}", before, entry, after);
    assert_eq!(parse_pci_ids(&db, "abcd", "0042"), Some("Some Vendor Some Device".to_string()));
}
