//! Registry parsing: the nested grammar, hex ids, strictness, and the
//! Windows-1252 decoding front end.
use gpower_tweaks::db::parse_db;
use gpower_tweaks::db::parsers::parse_all;
use gpower_tweaks::db::Db;

fn fixture() -> &'static str {
    "# hand-built registry fixture\n\
     1a2b Vendor Alpha\n\
     \t0001 Widget One\n\
     \t\t01 Widget One Render\n\
     \t0002 Widget Two\n\
     # comment between siblings\n\
     04b8 Vendor Beta\n\
     \t0100 Thing\n\
     C 03 Human Interface\n\
     \t01 Boot\n\
     \t\t01 Keyboard\n\
     \t\t02 Mouse\n\
     \t02 Reserved\n\
     C 0e Video\n\
     \t01 Control\n"
}

fn parse_fixture() -> Db {
    parse_all(fixture()).expect("fixture parses")
}

#[test]
fn round_trip_every_declared_vendor_and_product() {
    let db = parse_fixture();
    let alpha = db.vendors.get(&0x1a2b).expect("vendor alpha");
    assert_eq!(alpha.name, "Vendor Alpha");
    assert_eq!(alpha.devices.get(&0x0001).expect("widget one"), "Widget One");
    assert_eq!(alpha.devices.get(&0x0002).expect("widget two"), "Widget Two");
    let beta = db.vendors.get(&0x04b8).expect("vendor beta");
    assert_eq!(beta.name, "Vendor Beta");
    assert_eq!(beta.devices.get(&0x0100).expect("thing"), "Thing");
    assert_eq!(db.vendors.len(), 2);
    assert_eq!(alpha.devices.len(), 2);
    assert_eq!(beta.devices.len(), 1);
}

#[test]
fn round_trip_every_declared_class_subclass_interface() {
    let db = parse_fixture();
    let hid = db.classes.get(&0x03).expect("hid class");
    assert_eq!(hid.name, "Human Interface");
    let boot = hid.subclasses.get(&0x01).expect("boot subclass");
    assert_eq!(boot.name, "Boot");
    assert_eq!(boot.interfaces.get(&0x01).expect("keyboard"), "Keyboard");
    assert_eq!(boot.interfaces.get(&0x02).expect("mouse"), "Mouse");
    let reserved = hid.subclasses.get(&0x02).expect("reserved subclass");
    assert_eq!(reserved.name, "Reserved");
    assert!(reserved.interfaces.is_empty());
    let video = db.classes.get(&0x0e).expect("video class");
    assert_eq!(video.name, "Video");
    assert_eq!(video.subclasses.get(&0x01).expect("control").name, "Control");
    assert_eq!(db.classes.len(), 2);
}

#[test]
fn vendor_and_class_ids_live_in_disjoint_namespaces() {
    let db = parse_all("0e Vendor Fourteen\nC 0e Class Fourteen\n").unwrap();
    assert_eq!(db.vendors.get(&0x0e).unwrap().name, "Vendor Fourteen");
    assert_eq!(db.classes.get(&0x0e).unwrap().name, "Class Fourteen");
}

#[test]
fn hex_ids_are_case_insensitive() {
    let lower = parse_all("0abc Name\n").unwrap();
    let upper = parse_all("0ABC Name\n").unwrap();
    assert!(lower.vendors.contains_key(&0x0abc));
    assert!(upper.vendors.contains_key(&0x0abc));
}

#[test]
fn leading_zeros_do_not_change_the_id() {
    let short = parse_all("abc Name\n").unwrap();
    let padded = parse_all("00abc Name\n").unwrap();
    assert!(short.vendors.contains_key(&0x0abc));
    assert!(padded.vendors.contains_key(&0x0abc));
}

#[test]
fn a_non_hex_id_fails_the_line() {
    let err = parse_all("xyz Name\n").unwrap_err();
    assert_eq!(err.line, 1);
    assert_eq!(err.fragment, "xyz Name");
}

#[test]
fn an_id_too_large_for_u16_fails_the_line() {
    assert!(parse_all("10000 Name\n").is_err());
    assert!(parse_all("ffff Name\n").is_ok());
}

#[test]
fn a_line_without_a_separator_fails() {
    assert!(parse_all("1a2b\n").is_err());
}

#[test]
fn a_malformed_nested_line_fails_the_whole_parse() {
    let text = "1a2b Vendor\n\tnope Product\n";
    let err = parse_all(text).unwrap_err();
    assert_eq!(err.line, 2);
    assert_eq!(err.fragment, "\tnope Product");
}

#[test]
fn a_duplicate_vendor_id_is_a_parse_anomaly() {
    assert!(parse_all("1a2b First\n1a2b Second\n").is_err());
}

#[test]
fn a_duplicate_product_id_is_a_parse_anomaly() {
    assert!(parse_all("1a2b Vendor\n\t01 One\n\t01 Two\n").is_err());
}

#[test]
fn a_duplicate_interface_id_is_a_parse_anomaly() {
    assert!(parse_all("C 03 HID\n\t01 Boot\n\t\t01 A\n\t\t01 B\n").is_err());
}

#[test]
fn a_nested_line_before_any_entry_fails() {
    assert!(parse_all("\t01 Stray\n").is_err());
    assert!(parse_all("\t\t01 Stray\n").is_err());
}

#[test]
fn an_interface_line_without_an_open_product_fails() {
    assert!(parse_all("1a2b Vendor\n\t\t01 Stray\n").is_err());
}

#[test]
fn an_interface_line_without_an_open_subclass_fails() {
    assert!(parse_all("C 03 HID\n\t\t01 Stray\n").is_err());
}

#[test]
fn three_tabs_fail_the_line() {
    assert!(parse_all("C 03 HID\n\t01 Boot\n\t\t\t01 Deep\n").is_err());
}

#[test]
fn comments_and_blank_lines_are_skipped_everywhere() {
    let text = "# head\n\n1a2b Vendor\n# between\n\t01 One\n\n\t02 Two\n# tail\n";
    let db = parse_all(text).unwrap();
    let v = db.vendors.get(&0x1a2b).unwrap();
    assert_eq!(v.devices.len(), 2);
}

#[test]
fn crlf_line_endings_parse() {
    let db = parse_all("1a2b Vendor\r\n\t01 One\r\n").unwrap();
    assert_eq!(db.vendors.get(&0x1a2b).unwrap().devices.get(&1).unwrap(), "One");
}

#[test]
fn a_final_line_without_a_terminator_parses() {
    let db = parse_all("1a2b Vendor\n\t01 One").unwrap();
    assert_eq!(db.vendors.get(&0x1a2b).unwrap().devices.get(&1).unwrap(), "One");
}

#[test]
fn the_empty_input_parses_to_an_empty_registry() {
    let db = parse_all("").unwrap();
    assert!(db.vendors.is_empty());
    assert!(db.classes.is_empty());
}

#[test]
fn name_whitespace_is_preserved_by_the_parser() {
    let db = parse_all("1a2b  Vendor Alpha \n").unwrap();
    assert_eq!(db.vendors.get(&0x1a2b).unwrap().name, "Vendor Alpha ");
}

#[test]
fn a_vendor_line_starting_with_a_hex_c_is_not_a_class_marker() {
    let db = parse_all("CA12 Vendor\n").unwrap();
    assert!(db.vendors.contains_key(&0xca12));
    assert!(db.classes.is_empty());
}

#[test]
fn parse_db_decodes_windows_1252_bytes() {
    let bytes: Vec<u8> = b"00e9 Caf\xe9 Devices\n".to_vec();
    let db = parse_db(&bytes).unwrap();
    assert_eq!(db.vendors.get(&0x00e9).unwrap().name, "Caf\u{e9} Devices");
}

#[test]
fn parse_db_reports_the_offending_line() {
    let bytes: Vec<u8> = b"ok!\n".to_vec();
    let err = parse_db(&bytes).unwrap_err();
    assert_eq!(err.line, 1);
}

#[test]
fn crlf_error_line_numbers_match_the_text() {
    let err = parse_all("1a2b Vendor\r\nbad!\r\n").unwrap_err();
    assert_eq!(err.line, 2);
    assert_eq!(err.fragment, "bad!");
}

#[test]
fn blank_lines_still_count_toward_line_numbers() {
    let err = parse_all("1a2b Vendor\n\nbad!\n").unwrap_err();
    assert_eq!(err.line, 3);
}
