//! Device classification: registry correlation, the interface tie-break
//! heuristics, power-state reading, and the display labels.
use gpower_tweaks::db::parsers::parse_all;
use gpower_tweaks::db::Db;
use gpower_tweaks::fault::DeviceAttr;
use gpower_tweaks::pci::classify_pci;
use gpower_tweaks::pci::PciKind;
use gpower_tweaks::pci::RawPciDevice;
use gpower_tweaks::usb::classify_usb;
use gpower_tweaks::usb::RawInterface;
use gpower_tweaks::usb::UsbKind;
use gpower_tweaks::usb::RawUsbDevice;

fn usb_db() -> Db {
    parse_all(
        "1d6b Linux Foundation\n\
         \t0002 2.0 root hub\n\
         C 03 Human Interface Device\n\
         \t01 Boot Interface Subclass\n\
         \t\t01 Keyboard\n\
         \t\t02 Mouse\n\
         C 09 Hub\n\
         \t00 Unused\n\
         \t\t00 Full speed\n",
    )
    .unwrap()
}

fn raw_usb() -> RawUsbDevice {
    RawUsbDevice {
        id: 0x0103,
        char_device_path: "/sys/dev/char/189:2".to_string(),
        id_vendor: None,
        id_product: None,
        product: None,
        manufacturer: None,
        b_device_class: None,
        b_device_subclass: None,
        b_device_protocol: None,
        power_control: Some("on\n".to_string()),
        autosuspend_delay_ms: Some("2000\n".to_string()),
        interfaces: Vec::new(),
    }
}

fn iface(class: &str, subclass: &str, protocol: &str) -> RawInterface {
    RawInterface {
        class: Some(class.to_string()),
        subclass: Some(subclass.to_string()),
        protocol: Some(protocol.to_string()),
    }
}

#[test]
fn class_zero_defers_to_the_only_interface() {
    let mut raw = raw_usb();
    raw.b_device_class = Some("00\n".to_string());
    raw.interfaces = vec![iface("03", "01", "01")];
    let dev = classify_usb(&raw, None).unwrap();
    assert_eq!(dev.kind.class, 0x03);
    assert_eq!(dev.kind.subclass, 0x01);
    assert_eq!(dev.kind.interface, 0x01);
}

#[test]
fn a_mouse_is_retained_over_a_later_keyboard() {
    let mut raw = raw_usb();
    raw.b_device_class = Some("00\n".to_string());
    raw.interfaces = vec![iface("03", "01", "02"), iface("03", "01", "01")];
    let dev = classify_usb(&raw, None).unwrap();
    assert_eq!(dev.kind.class, 0x03);
    assert_eq!(dev.kind.interface, 0x02);
}

#[test]
fn the_composite_sentinel_defers_to_interface_inspection() {
    let mut raw = raw_usb();
    raw.b_device_class = Some("ef\n".to_string());
    raw.b_device_subclass = Some("02\n".to_string());
    raw.b_device_protocol = Some("01\n".to_string());
    raw.interfaces = vec![iface("0e", "01", "00")];
    let dev = classify_usb(&raw, None).unwrap();
    assert_eq!(dev.kind.class, 0x0e);
    assert_eq!(dev.kind.subclass, 0x01);
}

#[test]
fn a_nonzero_class_keeps_the_device_level_codes() {
    let mut raw = raw_usb();
    raw.b_device_class = Some("09\n".to_string());
    raw.b_device_subclass = Some("00\n".to_string());
    raw.b_device_protocol = Some("01\n".to_string());
    raw.interfaces = vec![iface("03", "01", "01")];
    let dev = classify_usb(&raw, None).unwrap();
    assert_eq!(dev.kind.class, 0x09);
    assert_eq!(dev.kind.interface, 0x01);
}

#[test]
fn an_application_specific_candidate_does_not_replace_a_real_class() {
    let mut raw = raw_usb();
    raw.b_device_class = Some("00\n".to_string());
    raw.interfaces = vec![iface("0e", "01", "00"), iface("fe", "01", "01")];
    let dev = classify_usb(&raw, None).unwrap();
    assert_eq!(dev.kind.class, 0x0e);
}

#[test]
fn an_empty_subclass_does_not_replace_the_same_class() {
    let mut raw = raw_usb();
    raw.b_device_class = Some("00\n".to_string());
    raw.interfaces = vec![iface("03", "01", "02"), iface("03", "00", "01")];
    let dev = classify_usb(&raw, None).unwrap();
    assert_eq!(dev.kind.subclass, 0x01);
    assert_eq!(dev.kind.interface, 0x02);
}

#[test]
fn usb_registry_names_resolve_for_the_final_codes() {
    let db = usb_db();
    let mut raw = raw_usb();
    raw.id_vendor = Some("1d6b\n".to_string());
    raw.id_product = Some("0002\n".to_string());
    raw.b_device_class = Some("00\n".to_string());
    raw.interfaces = vec![iface("03", "01", "02")];
    let dev = classify_usb(&raw, Some(&db)).unwrap();
    assert_eq!(dev.vendor_id, Some(0x1d6b));
    assert_eq!(dev.product_id, Some(0x0002));
    assert_eq!(dev.db_vendor_name.as_deref(), Some("Linux Foundation"));
    assert_eq!(dev.db_product_name.as_deref(), Some("2.0 root hub"));
    assert_eq!(dev.kind.class_name.as_deref(), Some("Human Interface Device"));
    assert_eq!(dev.kind.subclass_name.as_deref(), Some("Boot Interface Subclass"));
    assert_eq!(dev.kind.interface_name.as_deref(), Some("Mouse"));
    assert_eq!(dev.get_name(), "Linux Foundation 2.0 root hub");
    assert_eq!(dev.get_kind_description(), "Mouse");
}

#[test]
fn the_product_file_is_ignored_when_the_vendor_is_not_in_the_registry() {
    let db = usb_db();
    let mut raw = raw_usb();
    raw.id_vendor = Some("aaaa\n".to_string());
    raw.id_product = Some("not hex at all\n".to_string());
    let dev = classify_usb(&raw, Some(&db)).unwrap();
    assert_eq!(dev.vendor_id, Some(0xaaaa));
    assert_eq!(dev.product_id, None);
    assert_eq!(dev.db_vendor_name, None);
}

#[test]
fn an_unparseable_vendor_file_drops_the_device() {
    let mut raw = raw_usb();
    raw.id_vendor = Some("zz\n".to_string());
    let f = classify_usb(&raw, None).unwrap_err();
    assert_eq!(f.attribute, DeviceAttr::VendorId);
}

#[test]
fn a_missing_control_file_drops_the_device() {
    let mut raw = raw_usb();
    raw.power_control = None;
    let f = classify_usb(&raw, None).unwrap_err();
    assert_eq!(f.attribute, DeviceAttr::PowerControl);
    assert_eq!(f.attribute.text(), "power/control");
}

#[test]
fn a_missing_usb_delay_file_drops_the_device() {
    let mut raw = raw_usb();
    raw.autosuspend_delay_ms = None;
    let f = classify_usb(&raw, None).unwrap_err();
    assert_eq!(f.attribute, DeviceAttr::AutosuspendDelay);
}

#[test]
fn auto_control_enables_autosuspend_and_the_delay_is_read() {
    let mut raw = raw_usb();
    raw.power_control = Some("auto\n".to_string());
    let dev = classify_usb(&raw, None).unwrap();
    assert!(dev.can_autosuspend());
    assert_eq!(dev.delay(), 2000);
}

#[test]
fn a_delay_of_minus_one_disables_autosuspend() {
    let mut raw = raw_usb();
    raw.power_control = Some("auto\n".to_string());
    raw.autosuspend_delay_ms = Some("-1\n".to_string());
    let dev = classify_usb(&raw, None).unwrap();
    assert!(!dev.can_autosuspend());
    assert_eq!(dev.delay(), 0);
}

#[test]
fn a_hub_without_names_is_labelled_hub() {
    let mut raw = raw_usb();
    raw.b_device_class = Some("09\n".to_string());
    let dev = classify_usb(&raw, None).unwrap();
    assert_eq!(dev.get_name(), "Hub");
}

#[test]
fn the_device_path_is_the_fallback_description() {
    let raw = raw_usb();
    let dev = classify_usb(&raw, None).unwrap();
    assert_eq!(dev.get_description(), "/sys/dev/char/189:2");
    assert_eq!(dev.get_kind_description(), "Unknown");
}

#[test]
fn manufacturer_and_product_fall_back_into_the_name() {
    let mut raw = raw_usb();
    raw.manufacturer = Some(" Acme Corp \n".to_string());
    raw.product = Some("Gadget\n".to_string());
    let dev = classify_usb(&raw, None).unwrap();
    assert_eq!(dev.get_name(), "Acme Corp Gadget");
}

fn pci_db() -> Db {
    parse_all(
        "8086 Intel Corporation\n\
         \t1234 Fast Widget\n\
         C 06 Bridge\n\
         \t04 PCI bridge\n",
    )
    .unwrap()
}

fn raw_pci() -> RawPciDevice {
    RawPciDevice {
        id: "0000:00:1c.0".to_string(),
        device_path: "/sys/bus/pci/devices/0000:00:1c.0".to_string(),
        vendor: None,
        device: None,
        class: None,
        power_control: Some("on\n".to_string()),
        autosuspend_delay_ms: None,
    }
}

#[test]
fn pci_ids_and_names_resolve_from_prefixed_hex() {
    let db = pci_db();
    let mut raw = raw_pci();
    raw.vendor = Some("0x8086\n".to_string());
    raw.device = Some("0x1234\n".to_string());
    raw.class = Some("0x060400\n".to_string());
    let dev = classify_pci(&raw, Some(&db)).unwrap();
    assert_eq!(dev.vendor_id, Some(0x8086));
    assert_eq!(dev.device_id, Some(0x1234));
    assert_eq!(dev.db_vendor_name.as_deref(), Some("Intel Corporation"));
    assert_eq!(dev.db_device_name.as_deref(), Some("Fast Widget"));
    assert_eq!(dev.kind.class, 0x06);
    assert_eq!(dev.kind.subclass, 0x04);
    assert_eq!(dev.kind.class_name.as_deref(), Some("Bridge"));
    assert_eq!(dev.kind.subclass_name.as_deref(), Some("PCI bridge"));
    assert_eq!(dev.get_name(), "Fast Widget");
    assert_eq!(dev.get_description(), "Intel Corporation");
    assert_eq!(dev.get_kind_description(), "PCI bridge");
}

#[test]
fn an_unnamed_bridge_is_labelled_bridge() {
    let mut raw = raw_pci();
    raw.class = Some("0x060000\n".to_string());
    let dev = classify_pci(&raw, None).unwrap();
    assert_eq!(dev.get_name(), "Bridge");
    assert_eq!(dev.get_description(), "/sys/bus/pci/devices/0000:00:1c.0");
}

#[test]
fn an_unknown_pci_device_is_labelled_so() {
    let dev = classify_pci(&raw_pci(), None).unwrap();
    assert_eq!(dev.get_name(), "Unknown device");
    assert_eq!(dev.get_kind_description(), "");
}

#[test]
fn a_short_pci_vendor_value_drops_the_device() {
    let mut raw = raw_pci();
    raw.vendor = Some("1\n".to_string());
    let f = classify_pci(&raw, None).unwrap_err();
    assert_eq!(f.attribute, DeviceAttr::VendorId);
}

#[test]
fn a_short_or_garbled_pci_class_value_leaves_the_kind_empty() {
    let mut raw = raw_pci();
    raw.class = Some("0x06\n".to_string());
    let dev = classify_pci(&raw, None).unwrap();
    assert_eq!(dev.kind.class, 0);
    raw.class = Some("0xzz9900\n".to_string());
    let dev = classify_pci(&raw, None).unwrap();
    assert_eq!(dev.kind.class, 0);
}

#[test]
fn a_missing_pci_delay_file_defaults_to_zero() {
    let mut raw = raw_pci();
    raw.power_control = Some("auto\n".to_string());
    let dev = classify_pci(&raw, None).unwrap();
    assert!(dev.can_autosuspend());
    assert_eq!(dev.delay(), 0);
}

#[test]
fn a_garbled_pci_delay_file_drops_the_device() {
    let mut raw = raw_pci();
    raw.autosuspend_delay_ms = Some("soon\n".to_string());
    let f = classify_pci(&raw, None).unwrap_err();
    assert_eq!(f.attribute, DeviceAttr::AutosuspendDelay);
}

#[test]
fn a_kind_without_names_prints_its_codes_in_hex() {
    assert_eq!(UsbKind::new(0x06, 0x04, 0x00).to_text(), "0x06: 0x04");
    assert_eq!(UsbKind::new(0x1ab, 0x00, 0x00).to_text(), "0x1ab: 0x00");
    assert_eq!(PciKind::new(0x0c, 0x03).to_text(), "0x0c: 0x03");
}

#[test]
fn a_kind_with_names_prints_the_names() {
    let db = pci_db();
    let mut raw = raw_pci();
    raw.class = Some("0x060400\n".to_string());
    let dev = classify_pci(&raw, Some(&db)).unwrap();
    assert_eq!(dev.kind().to_text(), "Bridge: PCI bridge");
}

#[test]
fn an_upper_case_vendor_id_file_resolves_the_same_vendor() {
    let db = usb_db();
    let mut raw = raw_usb();
    raw.id_vendor = Some("1D6B\n".to_string());
    let dev = classify_usb(&raw, Some(&db)).unwrap();
    assert_eq!(dev.vendor_id, Some(0x1d6b));
    assert_eq!(dev.db_vendor_name.as_deref(), Some("Linux Foundation"));
}
