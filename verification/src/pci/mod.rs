//! PCI devices: the resolved device record, its classification, and the
//! classifier that turns raw attribute-file text and the registry into a
//! resolved record. PCI attribute files carry `0x`-prefixed values, and
//! the single `class` file packs class and subclass as hex digit pairs.
use vstd::prelude::*;

use crate::db::DbV;
use crate::fault::DeviceAttr;
use crate::fault::DeviceReadFault;
use crate::text::all_dec_digits;
use crate::text::all_hex_digits;
use crate::text::dec_value;
use crate::text::hex_digit_val;
use crate::text::hex_value;
use crate::text::opt_str_view;
use crate::text::trimmed;

verus! {

/// A PCI device's classification: class and subclass codes with the
/// registry names resolved for them, where present.
#[derive(Debug)]
pub struct PciKind {
    pub class: u16,
    pub subclass: u16,
    pub class_name: Option<String>,
    pub subclass_name: Option<String>,
}

pub struct PciKindV {
    pub class: u16,
    pub subclass: u16,
    pub class_name: Option<Seq<char>>,
    pub subclass_name: Option<Seq<char>>,
}

impl View for PciKind {
    type V = PciKindV;

    open spec fn view(&self) -> PciKindV {
        PciKindV {
            class: self.class,
            subclass: self.subclass,
            class_name: opt_str_view(self.class_name),
            subclass_name: opt_str_view(self.subclass_name),
        }
    }
}

impl PciKind {
    /// A classification from bare codes, with no names resolved yet.
    pub fn new(class: u16, subclass: u16) -> (r: Self)
        ensures
            r@ == (PciKindV { class, subclass, class_name: None, subclass_name: None }),
    {
        PciKind { class, subclass, class_name: None, subclass_name: None }
    }
}

/// A classification as one line of text: the class name, or its code in
/// hex, then the subclass name, or its code in hex.
pub open spec fn spec_pci_kind_text(k: PciKindV) -> Seq<char> {
    (match k.class_name {
        Option::Some(c) => c,
        Option::None => crate::text::hex_code_text(k.class),
    }) + seq![':', ' '] + (match k.subclass_name {
        Option::Some(s) => s,
        Option::None => crate::text::hex_code_text(k.subclass),
    })
}

impl PciKind {
    /// The classification as one line of text, per `spec_pci_kind_text`.
    pub fn to_text(&self) -> (r: String)
        ensures
            r@ == spec_pci_kind_text(self@),
    {
        let mut s = match &self.class_name {
            Option::Some(c) => c.clone(),
            Option::None => crate::text::format_hex_code(self.class),
        };
        s.append(": ");
        match &self.subclass_name {
            Option::Some(sub) => s.append(sub.as_str()),
            Option::None => s.append(crate::text::format_hex_code(self.subclass).as_str()),
        }
        proof {
            reveal_strlit(": ");
            assert(": "@ =~= seq![':', ' ']);
            assert(s@ =~= spec_pci_kind_text(self@));
        }
        s
    }
}

impl Default for PciKind {
    /// The all-zero classification with no names.
    fn default() -> (r: Self)
        ensures
            r@ == (PciKindV {
                class: 0,
                subclass: 0,
                class_name: None,
                subclass_name: None,
            }),
    {
        PciKind { class: 0, subclass: 0, class_name: None, subclass_name: None }
    }
}

/// A resolved PCI device record.
#[derive(Debug)]
pub struct PciDevice {
    pub id: String,
    pub device_path: String,
    pub vendor_id: Option<u16>,
    pub device_id: Option<u16>,
    pub db_vendor_name: Option<String>,
    pub db_device_name: Option<String>,
    pub autosuspend: bool,
    pub delay: u64,
    pub kind: PciKind,
    pub delay_error: Option<String>,
}

pub struct PciDeviceV {
    pub id: Seq<char>,
    pub device_path: Seq<char>,
    pub vendor_id: Option<u16>,
    pub device_id: Option<u16>,
    pub db_vendor_name: Option<Seq<char>>,
    pub db_device_name: Option<Seq<char>>,
    pub autosuspend: bool,
    pub delay: u64,
    pub kind: PciKindV,
    pub delay_error: Option<Seq<char>>,
}

impl View for PciDevice {
    type V = PciDeviceV;

    open spec fn view(&self) -> PciDeviceV {
        PciDeviceV {
            id: self.id@,
            device_path: self.device_path@,
            vendor_id: self.vendor_id,
            device_id: self.device_id,
            db_vendor_name: opt_str_view(self.db_vendor_name),
            db_device_name: opt_str_view(self.db_device_name),
            autosuspend: self.autosuspend,
            delay: self.delay,
            kind: self.kind@,
            delay_error: opt_str_view(self.delay_error),
        }
    }
}

/// The display name: the registry device name, else `Bridge` for a
/// bridge-class device, else `Unknown device`.
pub open spec fn spec_pci_name(d: PciDeviceV) -> Seq<char> {
    match d.db_device_name {
        Option::Some(n) => n,
        Option::None => if d.kind.class == 0x06 {
            seq!['B', 'r', 'i', 'd', 'g', 'e']
        } else {
            seq![
                'U',
                'n',
                'k',
                'n',
                'o',
                'w',
                'n',
                ' ',
                'd',
                'e',
                'v',
                'i',
                'c',
                'e',
            ]
        },
    }
}

/// The secondary description: the registry vendor name when it is
/// non-empty, else the device path.
pub open spec fn spec_pci_description(d: PciDeviceV) -> Seq<char> {
    let a = match d.db_vendor_name {
        Option::Some(v) => v,
        Option::None => Seq::empty(),
    };
    if a.len() == 0 {
        d.device_path
    } else {
        a
    }
}

/// The classification label: the subclass name, else the class name,
/// else empty.
pub open spec fn spec_pci_kind_description(k: PciKindV) -> Seq<char> {
    match k.subclass_name {
        Option::Some(s) => s,
        Option::None => match k.class_name {
            Option::Some(c) => c,
            Option::None => Seq::empty(),
        },
    }
}

impl PciDevice {
    /// A fresh record for the device directory at `device_path`, before
    /// classification.
    pub fn from(device_path: &str, id: &str) -> (r: PciDevice)
        ensures
            r@ == (PciDeviceV {
                id: id@,
                device_path: device_path@,
                vendor_id: None,
                device_id: None,
                db_vendor_name: None,
                db_device_name: None,
                autosuspend: false,
                delay: 0,
                kind: (PciKindV {
                    class: 0,
                    subclass: 0,
                    class_name: None,
                    subclass_name: None,
                }),
                delay_error: None,
            }),
    {
        PciDevice {
            id: id.to_owned(),
            device_path: device_path.to_owned(),
            vendor_id: None,
            device_id: None,
            db_vendor_name: None,
            db_device_name: None,
            autosuspend: false,
            delay: 0,
            kind: PciKind::default(),
            delay_error: None,
        }
    }

    pub fn get_id(&self) -> (r: &str)
        ensures
            r@ == self.id@,
    {
        self.id.as_str()
    }

    /// The display name, per `spec_pci_name`.
    pub fn get_name(&self) -> (r: String)
        ensures
            r@ == spec_pci_name(self@),
    {
        let mut desc = String::new();
        if let Option::Some(device) = &self.db_device_name {
            desc.append(device.as_str());
        } else if self.kind.class == 0x06 {
            desc.append("Bridge");
            proof {
                reveal_strlit("Bridge");
                assert("Bridge"@ =~= seq!['B', 'r', 'i', 'd', 'g', 'e']);
            }
        } else {
            desc.append("Unknown device");
            proof {
                reveal_strlit("Unknown device");
                assert("Unknown device"@ =~= seq![
                    'U',
                    'n',
                    'k',
                    'n',
                    'o',
                    'w',
                    'n',
                    ' ',
                    'd',
                    'e',
                    'v',
                    'i',
                    'c',
                    'e',
                ]);
            }
        }
        assert(desc@ =~= spec_pci_name(self@));
        desc
    }

    /// The secondary description, per `spec_pci_description`.
    pub fn get_description(&self) -> (r: String)
        ensures
            r@ == spec_pci_description(self@),
    {
        let mut desc = String::new();
        if let Option::Some(vendor) = &self.db_vendor_name {
            desc.append(vendor.as_str());
        }
        if desc.as_str().unicode_len() == 0 {
            proof {
                assert(desc@ =~= Seq::<char>::empty());
            }
            return self.device_path.clone();
        }
        assert(desc@ =~= spec_pci_description(self@));
        desc
    }

    /// The classification label, per `spec_pci_kind_description`.
    pub fn get_kind_description(&self) -> (r: String)
        ensures
            r@ == spec_pci_kind_description(self@.kind),
    {
        if let Option::Some(subclass) = &self.kind.subclass_name {
            subclass.clone()
        } else if let Option::Some(class) = &self.kind.class_name {
            class.clone()
        } else {
            String::new()
        }
    }

    pub fn kind(&self) -> (r: &PciKind)
        ensures
            r@ == self@.kind,
    {
        &self.kind
    }

    pub fn can_autosuspend(&self) -> (r: bool)
        ensures
            r == self.autosuspend,
    {
        self.autosuspend
    }

    pub fn delay(&self) -> (r: u64)
        ensures
            r == self.delay,
    {
        self.delay
    }

    /// Sets whether autosuspend is enabled; every other field is kept.
    pub fn set_autosuspend(&mut self, autosuspend: bool)
        ensures
            final(self)@ == (PciDeviceV { autosuspend, ..old(self)@ }),
    {
        self.autosuspend = autosuspend;
    }

    /// Sets the autosuspend delay in milliseconds; every other field is kept.
    pub fn set_autosuspend_delay(&mut self, delay: u64)
        ensures
            final(self)@ == (PciDeviceV { delay, ..old(self)@ }),
    {
        self.delay = delay;
    }
}

/// The raw text of one PCI device's attribute files; a missing file is
/// `None`.
pub struct RawPciDevice {
    pub id: String,
    pub device_path: String,
    pub vendor: Option<String>,
    pub device: Option<String>,
    pub class: Option<String>,
    pub power_control: Option<String>,
    pub autosuspend_delay_ms: Option<String>,
}

pub struct RawPciDeviceV {
    pub id: Seq<char>,
    pub device_path: Seq<char>,
    pub vendor: Option<Seq<char>>,
    pub device: Option<Seq<char>>,
    pub class: Option<Seq<char>>,
    pub power_control: Option<Seq<char>>,
    pub autosuspend_delay_ms: Option<Seq<char>>,
}

impl View for RawPciDevice {
    type V = RawPciDeviceV;

    open spec fn view(&self) -> RawPciDeviceV {
        RawPciDeviceV {
            id: self.id@,
            device_path: self.device_path@,
            vendor: opt_str_view(self.vendor),
            device: opt_str_view(self.device),
            class: opt_str_view(self.class),
            power_control: opt_str_view(self.power_control),
            autosuspend_delay_ms: opt_str_view(self.autosuspend_delay_ms),
        }
    }
}

/// A `0x`-prefixed id file's value: the trimmed text with its first two
/// characters skipped, parsed as hexadecimal. `None` when shorter than
/// the prefix, empty after it, non-hexadecimal, or too large.
pub open spec fn spec_prefixed_hex(s: Seq<char>) -> Option<u16> {
    let t = trimmed(s);
    if t.len() < 2 {
        Option::None
    } else {
        let u = t.subrange(2, t.len() as int);
        if all_hex_digits(u) && u.len() > 0 && hex_value(u) <= u16::MAX {
            Option::Some(hex_value(u) as u16)
        } else {
            Option::None
        }
    }
}

/// The resolved identity fields: vendor id, registry vendor name, device
/// id and registry device name. The device file is only consulted once
/// the vendor resolved in the registry; a present but unparseable id
/// file is a fault.
pub open spec fn spec_pci_vendor_fields(raw: RawPciDeviceV, db: Option<DbV>) -> Result<
    (Option<u16>, Option<Seq<char>>, Option<u16>, Option<Seq<char>>),
    DeviceReadFault,
> {
    match raw.vendor {
        Option::None => Ok((Option::None, Option::None, Option::None, Option::None)),
        Option::Some(vs) => match spec_prefixed_hex(vs) {
            Option::None => Err(DeviceReadFault { attribute: DeviceAttr::VendorId }),
            Option::Some(vid) => {
                if db is Some && db->0.vendors.contains_key(vid) {
                    let v = db->0.vendors[vid];
                    let vname = Option::Some(trimmed(v.name));
                    match raw.device {
                        Option::None => Ok((Option::Some(vid), vname, Option::None, Option::None)),
                        Option::Some(ds) => match spec_prefixed_hex(ds) {
                            Option::None => Err(
                                DeviceReadFault { attribute: DeviceAttr::ProductId },
                            ),
                            Option::Some(did) => Ok(
                                (
                                    Option::Some(vid),
                                    vname,
                                    Option::Some(did),
                                    if v.devices.contains_key(did) {
                                        Option::Some(trimmed(v.devices[did]))
                                    } else {
                                        Option::None
                                    },
                                ),
                            ),
                        },
                    }
                } else {
                    Ok((Option::Some(vid), Option::None, Option::None, Option::None))
                }
            },
        },
    }
}

/// The classification from the packed `class` file: characters 2 and 3
/// of the trimmed text are the class code, 4 and 5 the subclass code.
/// A missing, short or unparseable file leaves the all-zero
/// classification with no names.
pub open spec fn spec_pci_kind(raw: RawPciDeviceV, db: Option<DbV>) -> PciKindV {
    let none = PciKindV { class: 0, subclass: 0, class_name: None, subclass_name: None };
    match raw.class {
        Option::None => none,
        Option::Some(cs) => {
            let t = trimmed(cs);
            if t.len() < 6 {
                none
            } else {
                let cseq = t.subrange(2, 4);
                let sseq = t.subrange(4, 6);
                if all_hex_digits(cseq) && all_hex_digits(sseq) {
                    let c = hex_value(cseq) as u16;
                    let s = hex_value(sseq) as u16;
                    let class_name = if db is Some && db->0.classes.contains_key(c) {
                        Option::Some(db->0.classes[c].name)
                    } else {
                        Option::None
                    };
                    let subclass_name = if db is Some && db->0.classes.contains_key(c)
                        && db->0.classes[c].subclasses.contains_key(s) {
                        Option::Some(trimmed(db->0.classes[c].subclasses[s].name))
                    } else {
                        Option::None
                    };
                    PciKindV { class: c, subclass: s, class_name, subclass_name }
                } else {
                    none
                }
            }
        },
    }
}

/// The power state: `power/control` is required, with `auto` enabling
/// autosuspend; `power/autosuspend_delay_ms` is optional, defaulting the
/// delay to `0`, with `-1` the sentinel for autosuspend disabled by
/// policy.
pub open spec fn spec_pci_power(raw: RawPciDeviceV) -> Result<(bool, u64), DeviceReadFault> {
    match raw.power_control {
        Option::None => Err(DeviceReadFault { attribute: DeviceAttr::PowerControl }),
        Option::Some(cs) => {
            let auto0 = trimmed(cs) == seq!['a', 'u', 't', 'o'];
            match raw.autosuspend_delay_ms {
                Option::None => Ok((auto0, 0u64)),
                Option::Some(ds) => {
                    let t = trimmed(ds);
                    if t == seq!['-', '1'] {
                        Ok((false, 0u64))
                    } else if all_dec_digits(t) && t.len() > 0 && dec_value(t) <= u64::MAX {
                        Ok((auto0, dec_value(t) as u64))
                    } else {
                        Err(DeviceReadFault { attribute: DeviceAttr::AutosuspendDelay })
                    }
                },
            }
        },
    }
}

/// The whole classification of one raw PCI device against the registry.
pub open spec fn spec_classify_pci(raw: RawPciDeviceV, db: Option<DbV>) -> Result<
    PciDeviceV,
    DeviceReadFault,
> {
    match spec_pci_vendor_fields(raw, db) {
        Err(f) => Err(f),
        Ok((vendor_id, db_vendor_name, device_id, db_device_name)) => match spec_pci_power(
            raw,
        ) {
            Err(f) => Err(f),
            Ok((autosuspend, delay)) => Ok(
                PciDeviceV {
                    id: raw.id,
                    device_path: raw.device_path,
                    vendor_id,
                    device_id,
                    db_vendor_name,
                    db_device_name,
                    autosuspend,
                    delay,
                    kind: spec_pci_kind(raw, db),
                    delay_error: Option::None,
                },
            ),
        },
    }
}

/// Parses a `0x`-prefixed id file's text, per `spec_prefixed_hex`.
fn prefixed_hex(s: &String) -> (r: Option<u16>)
    ensures
        r == spec_prefixed_hex(s@),
{
    let t = crate::text::trim_string(s);
    if t.len() < 2 {
        return None;
    }
    let r = crate::text::parse_hex_u16(&t, 2, t.len());
    proof {
        assert(t@.subrange(2, t@.len() as int) == trimmed(s@).subrange(
            2,
            trimmed(s@).len() as int,
        ));
    }
    r
}

/// A two-digit hexadecimal numeral fits in a byte.
proof fn lemma_hex2_bound(s: Seq<char>)
    requires
        s.len() == 2,
        all_hex_digits(s),
    ensures
        hex_value(s) <= 255,
{
    let d0 = s.drop_last();
    assert(d0.drop_last() =~= Seq::<char>::empty());
    assert(hex_value(Seq::<char>::empty()) == 0);
    assert(hex_value(d0) == hex_value(d0.drop_last()) * 16 + hex_digit_val(d0.last()));
    assert(hex_digit_val(s.last()) <= 15);
    assert(hex_digit_val(d0.last()) <= 15);
}

fn pci_kind(raw: &RawPciDevice, db: Option<&crate::db::Db>) -> (r: PciKind)
    ensures
        r@ == spec_pci_kind(raw@, crate::usb::spec_db_opt(db)),
{
    let cs = match &raw.class {
        Option::Some(cs) => cs,
        Option::None => {
            return PciKind::default();
        },
    };
    let t = crate::text::trim_string(cs);
    if t.len() < 6 {
        return PciKind::default();
    }
    let c = match crate::text::parse_hex_u16(&t, 2, 4) {
        Option::Some(c) => c,
        Option::None => {
            proof {
                let cseq = t@.subrange(2, 4);
                if all_hex_digits(cseq) {
                    lemma_hex2_bound(cseq);
                }
            }
            return PciKind::default();
        },
    };
    let s = match crate::text::parse_hex_u16(&t, 4, 6) {
        Option::Some(s) => s,
        Option::None => {
            proof {
                let sseq = t@.subrange(4, 6);
                if all_hex_digits(sseq) {
                    lemma_hex2_bound(sseq);
                }
            }
            return PciKind::default();
        },
    };
    let mut kind = PciKind::new(c, s);
    if let Option::Some(d) = db {
        if let Option::Some(cls) = d.class(c) {
            kind.class_name = Some(cls.name.clone());
            if let Option::Some(sub) = cls.subclass(s) {
                kind.subclass_name = Some(crate::text::trim_to_string(&sub.name));
            }
        }
    }
    proof {
        let tv = trimmed(cs@);
        assert(tv.subrange(2, 4).len() == 2);
        assert(tv.subrange(4, 6).len() == 2);
    }
    kind
}

fn pci_power(raw: &RawPciDevice) -> (r: Result<(bool, u64), DeviceReadFault>)
    ensures
        match r {
            Ok(p) => spec_pci_power(raw@) == Ok::<(bool, u64), DeviceReadFault>(p),
            Err(f) => spec_pci_power(raw@) == Err::<(bool, u64), DeviceReadFault>(f),
        },
{
    proof {
        reveal_strlit("auto");
        reveal_strlit("-1");
        assert("auto"@ =~= seq!['a', 'u', 't', 'o']);
        assert("-1"@ =~= seq!['-', '1']);
    }
    let cs = match &raw.power_control {
        Option::Some(cs) => cs,
        Option::None => {
            return Err(DeviceReadFault { attribute: DeviceAttr::PowerControl });
        },
    };
    let tc = crate::text::trim_string(cs);
    let auto0 = crate::text::chars_eq_str(&tc, "auto");
    let ds = match &raw.autosuspend_delay_ms {
        Option::Some(ds) => ds,
        Option::None => {
            return Ok((auto0, 0));
        },
    };
    let td = crate::text::trim_string(ds);
    if crate::text::chars_eq_str(&td, "-1") {
        return Ok((false, 0));
    }
    match crate::text::parse_dec_u64(&td, 0, td.len()) {
        Option::Some(v) => {
            proof {
                assert(td@.subrange(0, td@.len() as int) =~= td@);
            }
            Ok((auto0, v))
        },
        Option::None => {
            proof {
                assert(td@.subrange(0, td@.len() as int) =~= td@);
            }
            Err(DeviceReadFault { attribute: DeviceAttr::AutosuspendDelay })
        },
    }
}

/// Builds the resolved device record for one raw PCI device, per
/// `spec_classify_pci`. A fault drops this one device only.
pub fn classify_pci(raw: &RawPciDevice, db: Option<&crate::db::Db>) -> (r: Result<
    PciDevice,
    DeviceReadFault,
>)
    ensures
        match r {
            Ok(d) => spec_classify_pci(raw@, crate::usb::spec_db_opt(db)) == Ok::<
                PciDeviceV,
                DeviceReadFault,
            >(d@),
            Err(f) => spec_classify_pci(raw@, crate::usb::spec_db_opt(db)) == Err::<
                PciDeviceV,
                DeviceReadFault,
            >(f),
        },
{
    let mut dev = PciDevice::from(raw.device_path.as_str(), raw.id.as_str());
    if let Option::Some(vs) = &raw.vendor {
        match prefixed_hex(vs) {
            Option::None => {
                return Err(DeviceReadFault { attribute: DeviceAttr::VendorId });
            },
            Option::Some(vid) => {
                dev.vendor_id = Some(vid);
                let vend = match db {
                    Option::Some(d) => d.vendor(vid),
                    Option::None => None,
                };
                if let Option::Some(v) = vend {
                    dev.db_vendor_name = Some(crate::text::trim_to_string(&v.name));
                    if let Option::Some(ds) = &raw.device {
                        match prefixed_hex(ds) {
                            Option::None => {
                                return Err(
                                    DeviceReadFault { attribute: DeviceAttr::ProductId },
                                );
                            },
                            Option::Some(did) => {
                                dev.device_id = Some(did);
                                if let Option::Some(nm) = v.device_name(did) {
                                    dev.db_device_name = Some(
                                        crate::text::trim_to_string(nm),
                                    );
                                }
                            },
                        }
                    }
                }
            },
        }
    }
    assert(spec_pci_vendor_fields(raw@, crate::usb::spec_db_opt(db)) == Ok::<
        (Option<u16>, Option<Seq<char>>, Option<u16>, Option<Seq<char>>),
        DeviceReadFault,
    >(
        (
            dev@.vendor_id,
            dev@.db_vendor_name,
            dev@.device_id,
            dev@.db_device_name,
        ),
    ));
    dev.kind = pci_kind(raw, db);
    match pci_power(raw) {
        Err(f) => Err(f),
        Ok(p) => {
            dev.autosuspend = p.0;
            dev.delay = p.1;
            assert(spec_classify_pci(raw@, crate::usb::spec_db_opt(db)) == Ok::<
                PciDeviceV,
                DeviceReadFault,
            >(dev@));
            Ok(dev)
        },
    }
}

} // verus!
