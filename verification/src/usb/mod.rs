//! USB devices: the resolved device record, its classification, and the
//! classifier that turns raw attribute-file text and the registry into a
//! resolved record.
use vstd::prelude::*;

use crate::db::DbV;
use crate::text::opt_str_view;
use crate::text::spec_hex_or_zero;

verus! {

/// A USB device's classification: class, subclass and interface codes,
/// with the registry names resolved for them, where present.
#[derive(Debug)]
pub struct UsbKind {
    pub class: u16,
    pub subclass: u16,
    pub interface: u16,
    pub class_name: Option<String>,
    pub subclass_name: Option<String>,
    pub interface_name: Option<String>,
}

pub struct UsbKindV {
    pub class: u16,
    pub subclass: u16,
    pub interface: u16,
    pub class_name: Option<Seq<char>>,
    pub subclass_name: Option<Seq<char>>,
    pub interface_name: Option<Seq<char>>,
}

impl View for UsbKind {
    type V = UsbKindV;

    open spec fn view(&self) -> UsbKindV {
        UsbKindV {
            class: self.class,
            subclass: self.subclass,
            interface: self.interface,
            class_name: opt_str_view(self.class_name),
            subclass_name: opt_str_view(self.subclass_name),
            interface_name: opt_str_view(self.interface_name),
        }
    }
}

impl UsbKind {
    /// A classification from bare codes, with no names resolved yet.
    pub fn new(class: u16, subclass: u16, interface: u16) -> (r: Self)
        ensures
            r@ == (UsbKindV {
                class,
                subclass,
                interface,
                class_name: None,
                subclass_name: None,
                interface_name: None,
            }),
    {
        UsbKind {
            class,
            subclass,
            interface,
            class_name: None,
            subclass_name: None,
            interface_name: None,
        }
    }
}

/// A classification as one line of text: the class name, or its code in
/// hex, then the subclass name, or its code in hex.
pub open spec fn spec_usb_kind_text(k: UsbKindV) -> Seq<char> {
    (match k.class_name {
        Option::Some(c) => c,
        Option::None => crate::text::hex_code_text(k.class),
    }) + seq![':', ' '] + (match k.subclass_name {
        Option::Some(s) => s,
        Option::None => crate::text::hex_code_text(k.subclass),
    })
}

impl UsbKind {
    /// The classification as one line of text, per `spec_usb_kind_text`.
    pub fn to_text(&self) -> (r: String)
        ensures
            r@ == spec_usb_kind_text(self@),
    {
        let mut s = match &self.class_name {
            Option::Some(c) => c.clone(),
            Option::None => crate::text::format_hex_code(self.class),
        };
        s.append(": ");
        match &self.subclass_name {
            Option::Some(sub) => s.append(sub.as_str()),
            Option::None => s.append(crate::text::format_hex_code(self.subclass).as_str()),
        }
        proof {
            reveal_strlit(": ");
            assert(": "@ =~= seq![':', ' ']);
            assert(s@ =~= spec_usb_kind_text(self@));
        }
        s
    }
}

impl Default for UsbKind {
    /// The all-zero classification with no names.
    fn default() -> (r: Self)
        ensures
            r@ == (UsbKindV {
                class: 0,
                subclass: 0,
                interface: 0,
                class_name: None,
                subclass_name: None,
                interface_name: None,
            }),
    {
        UsbKind {
            class: 0,
            subclass: 0,
            interface: 0,
            class_name: None,
            subclass_name: None,
            interface_name: None,
        }
    }
}

/// A resolved USB device record.
#[derive(Debug)]
pub struct UsbDevice {
    pub id: u32,
    pub char_device_path: String,
    pub vendor_id: Option<u16>,
    pub product_id: Option<u16>,
    pub db_vendor_name: Option<String>,
    pub db_product_name: Option<String>,
    pub product_name: Option<String>,
    pub manufacturer_name: Option<String>,
    pub autosuspend: bool,
    pub allow_wakeup: Option<bool>,
    pub delay: u64,
    pub kind: UsbKind,
    pub delay_error: Option<String>,
}

pub struct UsbDeviceV {
    pub id: u32,
    pub char_device_path: Seq<char>,
    pub vendor_id: Option<u16>,
    pub product_id: Option<u16>,
    pub db_vendor_name: Option<Seq<char>>,
    pub db_product_name: Option<Seq<char>>,
    pub product_name: Option<Seq<char>>,
    pub manufacturer_name: Option<Seq<char>>,
    pub autosuspend: bool,
    pub allow_wakeup: Option<bool>,
    pub delay: u64,
    pub kind: UsbKindV,
    pub delay_error: Option<Seq<char>>,
}

impl View for UsbDevice {
    type V = UsbDeviceV;

    open spec fn view(&self) -> UsbDeviceV {
        UsbDeviceV {
            id: self.id,
            char_device_path: self.char_device_path@,
            vendor_id: self.vendor_id,
            product_id: self.product_id,
            db_vendor_name: opt_str_view(self.db_vendor_name),
            db_product_name: opt_str_view(self.db_product_name),
            product_name: opt_str_view(self.product_name),
            manufacturer_name: opt_str_view(self.manufacturer_name),
            autosuspend: self.autosuspend,
            allow_wakeup: self.allow_wakeup,
            delay: self.delay,
            kind: self.kind@,
            delay_error: opt_str_view(self.delay_error),
        }
    }
}

/// The device's display name: the registry vendor name (else the
/// device-reported manufacturer), then the registry product name (else
/// the device-reported product name, else `Hub` for a hub-class device).
pub open spec fn spec_usb_name(d: UsbDeviceV) -> Seq<char> {
    let vendor = match d.db_vendor_name {
        Option::Some(v) => v + seq![' '],
        Option::None => match d.manufacturer_name {
            Option::Some(m) => m + seq![' '],
            Option::None => Seq::empty(),
        },
    };
    let product = match d.db_product_name {
        Option::Some(p) => p,
        Option::None => match d.product_name {
            Option::Some(p) => p,
            Option::None => if d.kind.class == 0x09 {
                seq!['H', 'u', 'b']
            } else {
                Seq::empty()
            },
        },
    };
    vendor + product
}

/// The device's secondary description: the device-reported manufacturer
/// and product names, shown only where a registry name shadowed them in
/// the display name; the device path when nothing else is available.
pub open spec fn spec_usb_description(d: UsbDeviceV) -> Seq<char> {
    let a = if d.db_vendor_name is Some && d.manufacturer_name is Some {
        d.manufacturer_name->0 + seq![' ']
    } else {
        Seq::empty()
    };
    let b = if d.db_product_name is Some && d.product_name is Some {
        d.product_name->0
    } else {
        Seq::empty()
    };
    if a.len() + b.len() == 0 {
        d.char_device_path
    } else {
        a + b
    }
}

pub open spec fn opt_or_empty(o: Option<Seq<char>>) -> Seq<char> {
    match o {
        Option::Some(s) => s,
        Option::None => Seq::empty(),
    }
}

/// The class-dependent primary label: some classes show the class name
/// alone, the human-interface class shows the interface name, some show
/// `class (subclass)` or `class (interface)`, and the wireless class
/// picks by subclass.
pub open spec fn spec_usb_kind_primary(k: UsbKindV) -> Seq<char> {
    if (0x05 <= k.class && k.class <= 0x09) || k.class == 0x0b || k.class == 0x0d || k.class
        == 0x0e || k.class == 0xdc {
        opt_or_empty(k.class_name)
    } else if k.class == 0x03 {
        opt_or_empty(k.interface_name)
    } else if k.class == 0x01 || k.class == 0x02 || k.class == 0x58 {
        opt_or_empty(k.class_name) + (match k.subclass_name {
            Option::Some(s) => seq![' ', '('] + s + seq![')'],
            Option::None => Seq::empty(),
        })
    } else if k.class == 0x0a {
        opt_or_empty(k.class_name) + (match k.interface_name {
            Option::Some(s) => seq![' ', '('] + s + seq![')'],
            Option::None => Seq::empty(),
        })
    } else if k.class == 0xe0 {
        if k.subclass == 0x01 {
            opt_or_empty(k.interface_name)
        } else if k.subclass == 0x02 {
            opt_or_empty(k.subclass_name)
        } else {
            Seq::empty()
        }
    } else {
        Seq::empty()
    }
}

/// The fallback label: whichever of class, subclass and interface names
/// resolved (the code must be non-zero for class and subclass), joined
/// with commas.
pub open spec fn spec_usb_kind_fallback(k: UsbKindV) -> Seq<char> {
    let a = if k.class != 0 && k.class_name is Some {
        k.class_name->0
    } else {
        Seq::empty()
    };
    let b = if k.subclass != 0 && k.subclass_name is Some {
        if a.len() == 0 {
            k.subclass_name->0
        } else {
            a + seq![',', ' '] + k.subclass_name->0
        }
    } else {
        a
    };
    match k.interface_name {
        Option::Some(s) => if b.len() == 0 {
            s
        } else {
            b + seq![',', ' '] + s
        },
        Option::None => b,
    }
}

/// The human-facing classification label: the primary label, else the
/// fallback join, else `Unknown`.
pub open spec fn spec_usb_kind_description(k: UsbKindV) -> Seq<char> {
    let p = spec_usb_kind_primary(k);
    let q = if p.len() == 0 {
        spec_usb_kind_fallback(k)
    } else {
        p
    };
    if q.len() == 0 {
        seq!['U', 'n', 'k', 'n', 'o', 'w', 'n']
    } else {
        q
    }
}

impl UsbDevice {
    /// A fresh record for the device node at `char_device_path`, before
    /// classification.
    pub fn from(char_device_path: &str, id: u32) -> (r: UsbDevice)
        ensures
            r@ == (UsbDeviceV {
                id,
                char_device_path: char_device_path@,
                vendor_id: None,
                product_id: None,
                db_vendor_name: None,
                db_product_name: None,
                product_name: None,
                manufacturer_name: None,
                autosuspend: false,
                allow_wakeup: None,
                delay: 0,
                kind: (UsbKindV {
                    class: 0,
                    subclass: 0,
                    interface: 0,
                    class_name: None,
                    subclass_name: None,
                    interface_name: None,
                }),
                delay_error: None,
            }),
    {
        UsbDevice {
            id,
            char_device_path: char_device_path.to_owned(),
            vendor_id: None,
            product_id: None,
            db_vendor_name: None,
            db_product_name: None,
            product_name: None,
            manufacturer_name: None,
            autosuspend: false,
            allow_wakeup: None,
            delay: 0,
            kind: UsbKind::default(),
            delay_error: None,
        }
    }

    pub fn get_id(&self) -> (r: u32)
        ensures
            r == self.id,
    {
        self.id
    }

    /// The display name, per `spec_usb_name`.
    pub fn get_name(&self) -> (r: String)
        ensures
            r@ == spec_usb_name(self@),
    {
        let mut desc = String::new();
        if let Option::Some(vendor) = &self.db_vendor_name {
            desc.append(vendor.as_str());
            desc.append(" ");
        } else if let Option::Some(manufacturer) = &self.manufacturer_name {
            desc.append(manufacturer.as_str());
            desc.append(" ");
        }
        if let Option::Some(product) = &self.db_product_name {
            desc.append(product.as_str());
        } else if let Option::Some(product) = &self.product_name {
            desc.append(product.as_str());
        } else if self.kind.class == 0x09 {
            desc.append("Hub");
            proof {
                reveal_strlit("Hub");
                assert("Hub"@ =~= seq!['H', 'u', 'b']);
            }
        }
        proof {
            reveal_strlit(" ");
            assert(" "@ =~= seq![' ']);
            assert(desc@ =~= spec_usb_name(self@));
        }
        desc
    }

    /// The secondary description, per `spec_usb_description`.
    pub fn get_description(&self) -> (r: String)
        ensures
            r@ == spec_usb_description(self@),
    {
        let mut desc = String::new();
        if self.db_vendor_name.is_some() {
            if let Option::Some(manufacturer) = &self.manufacturer_name {
                desc.append(manufacturer.as_str());
                desc.append(" ");
            }
        }
        if self.db_product_name.is_some() {
            if let Option::Some(product) = &self.product_name {
                desc.append(product.as_str());
            }
        }
        proof {
            reveal_strlit(" ");
            assert(" "@ =~= seq![' ']);
        }
        if desc.as_str().unicode_len() == 0 {
            proof {
                assert(desc@ =~= Seq::<char>::empty());
                assert(spec_usb_description(self@) == self@.char_device_path);
            }
            return self.char_device_path.clone();
        }
        proof {
            assert(desc@ =~= spec_usb_description(self@));
        }
        desc
    }

    pub fn can_autosuspend(&self) -> (r: bool)
        ensures
            r == self.autosuspend,
    {
        self.autosuspend
    }

    pub fn delay(&self) -> (r: u64)
        ensures
            r == self.delay,
    {
        self.delay
    }

    /// The classification label, per `spec_usb_kind_description`.
    pub fn get_kind_description(&self) -> (r: String)
        ensures
            r@ == spec_usb_kind_description(self@.kind),
    {
        let k = &self.kind;
        let mut desc = String::new();
        proof {
            reveal_strlit(" (");
            reveal_strlit(")");
            reveal_strlit(", ");
            assert(" ("@ =~= seq![' ', '(']);
            assert(")"@ =~= seq![')']);
            assert(", "@ =~= seq![',', ' ']);
        }
        if (0x05 <= k.class && k.class <= 0x09) || k.class == 0x0b || k.class == 0x0d
            || k.class == 0x0e || k.class == 0xdc {
            if let Option::Some(class_name) = &k.class_name {
                desc.append(class_name.as_str());
            }
        } else if k.class == 0x03 {
            if let Option::Some(interface_name) = &k.interface_name {
                desc.append(interface_name.as_str());
            }
        } else if k.class == 0x01 || k.class == 0x02 || k.class == 0x58 {
            if let Option::Some(class_name) = &k.class_name {
                desc.append(class_name.as_str());
            }
            if let Option::Some(subclass_name) = &k.subclass_name {
                desc.append(" (");
                desc.append(subclass_name.as_str());
                desc.append(")");
            }
        } else if k.class == 0x0a {
            if let Option::Some(class_name) = &k.class_name {
                desc.append(class_name.as_str());
            }
            if let Option::Some(interface_name) = &k.interface_name {
                desc.append(" (");
                desc.append(interface_name.as_str());
                desc.append(")");
            }
        } else if k.class == 0xe0 {
            if k.subclass == 0x01 {
                if let Option::Some(interface_name) = &k.interface_name {
                    desc.append(interface_name.as_str());
                }
            } else if k.subclass == 0x02 {
                if let Option::Some(subclass_name) = &k.subclass_name {
                    desc.append(subclass_name.as_str());
                }
            }
        }
        assert(desc@ =~= spec_usb_kind_primary(self@.kind));
        if desc.as_str().unicode_len() == 0 {
            if k.class != 0 {
                if let Option::Some(name) = &k.class_name {
                    desc.append(name.as_str());
                }
            }
            if k.subclass != 0 {
                if let Option::Some(name) = &k.subclass_name {
                    if desc.as_str().unicode_len() != 0 {
                        desc.append(", ");
                    }
                    desc.append(name.as_str());
                }
            }
            if let Option::Some(name) = &k.interface_name {
                if desc.as_str().unicode_len() != 0 {
                    desc.append(", ");
                }
                desc.append(name.as_str());
            }
            assert(desc@ =~= spec_usb_kind_fallback(self@.kind));
        }
        if desc.as_str().unicode_len() == 0 {
            desc.append("Unknown");
            proof {
                reveal_strlit("Unknown");
                assert("Unknown"@ =~= seq!['U', 'n', 'k', 'n', 'o', 'w', 'n']);
            }
        }
        assert(desc@ =~= spec_usb_kind_description(self@.kind));
        desc
    }

    pub fn kind(&self) -> (r: &UsbKind)
        ensures
            r@ == self@.kind,
    {
        &self.kind
    }

    /// Sets whether autosuspend is enabled; every other field is kept.
    pub fn set_autosuspend(&mut self, autosuspend: bool)
        ensures
            final(self)@ == (UsbDeviceV { autosuspend, ..old(self)@ }),
    {
        self.autosuspend = autosuspend;
    }

    /// Sets the autosuspend delay in milliseconds; every other field is kept.
    pub fn set_autosuspend_delay(&mut self, delay: u64)
        ensures
            final(self)@ == (UsbDeviceV { delay, ..old(self)@ }),
    {
        self.delay = delay;
    }

    /// Whether the device reports a remote-wakeup setting.
    pub fn allow_wakeup(&self) -> (r: Option<bool>)
        ensures
            r == self.allow_wakeup,
    {
        self.allow_wakeup
    }

    /// Records the remote-wakeup setting on the device record.
    pub fn set_allow_wakeup(&mut self, allow_wakeup: bool) -> (r: Result<
        (),
        DeviceWakeupFault,
    >)
        ensures
            final(self)@ == (UsbDeviceV {
                allow_wakeup: Some(allow_wakeup),
                ..old(self)@
            }),
            r is Ok,
    {
        self.allow_wakeup = Some(allow_wakeup);
        Ok(())
    }
}

/// The device does not support remote wakeup.
#[derive(Clone, Copy, PartialEq, Eq, Structural, Debug)]
pub struct DeviceWakeupFault {}

/// The raw text of one interface descriptor's class, subclass and
/// protocol attribute files, as read from the device directory.
pub struct RawInterface {
    pub class: Option<String>,
    pub subclass: Option<String>,
    pub protocol: Option<String>,
}

pub struct RawInterfaceV {
    pub class: Option<Seq<char>>,
    pub subclass: Option<Seq<char>>,
    pub protocol: Option<Seq<char>>,
}

impl View for RawInterface {
    type V = RawInterfaceV;

    open spec fn view(&self) -> RawInterfaceV {
        RawInterfaceV {
            class: opt_str_view(self.class),
            subclass: opt_str_view(self.subclass),
            protocol: opt_str_view(self.protocol),
        }
    }
}

/// The raw text of one USB device's attribute files, as read from its
/// device directory; a missing file is `None`.
pub struct RawUsbDevice {
    pub id: u32,
    pub char_device_path: String,
    pub id_vendor: Option<String>,
    pub id_product: Option<String>,
    pub product: Option<String>,
    pub manufacturer: Option<String>,
    pub b_device_class: Option<String>,
    pub b_device_subclass: Option<String>,
    pub b_device_protocol: Option<String>,
    pub power_control: Option<String>,
    pub autosuspend_delay_ms: Option<String>,
    pub interfaces: Vec<RawInterface>,
}

pub struct RawUsbDeviceV {
    pub id: u32,
    pub char_device_path: Seq<char>,
    pub id_vendor: Option<Seq<char>>,
    pub id_product: Option<Seq<char>>,
    pub product: Option<Seq<char>>,
    pub manufacturer: Option<Seq<char>>,
    pub b_device_class: Option<Seq<char>>,
    pub b_device_subclass: Option<Seq<char>>,
    pub b_device_protocol: Option<Seq<char>>,
    pub power_control: Option<Seq<char>>,
    pub autosuspend_delay_ms: Option<Seq<char>>,
    pub interfaces: Seq<RawInterfaceV>,
}

impl View for RawUsbDevice {
    type V = RawUsbDeviceV;

    open spec fn view(&self) -> RawUsbDeviceV {
        RawUsbDeviceV {
            id: self.id,
            char_device_path: self.char_device_path@,
            id_vendor: opt_str_view(self.id_vendor),
            id_product: opt_str_view(self.id_product),
            product: opt_str_view(self.product),
            manufacturer: opt_str_view(self.manufacturer),
            b_device_class: opt_str_view(self.b_device_class),
            b_device_subclass: opt_str_view(self.b_device_subclass),
            b_device_protocol: opt_str_view(self.b_device_protocol),
            power_control: opt_str_view(self.power_control),
            autosuspend_delay_ms: opt_str_view(self.autosuspend_delay_ms),
            interfaces: self.interfaces@.map_values(|i: RawInterface| i@),
        }
    }
}

/// The class/subclass/protocol codes of one raw interface descriptor;
/// an unreadable attribute counts as `0`.
pub open spec fn iface_codes(i: RawInterfaceV) -> (u16, u16, u16) {
    (spec_hex_or_zero(i.class), spec_hex_or_zero(i.subclass), spec_hex_or_zero(i.protocol))
}

/// Whether the retained triple `cur` is kept over the candidate `nw`:
/// a retained mouse is kept over a keyboard candidate; an
/// application-specific candidate never replaces a non-empty class; a
/// candidate with an empty subclass never replaces the same class; a
/// candidate with an empty protocol never replaces the same class and
/// subclass.
pub open spec fn keeps_current(cur: (u16, u16, u16), nw: (u16, u16, u16)) -> bool {
    ||| (cur.0 == 0x03 && cur.2 == 0x02 && nw.0 == 0x03 && nw.2 == 0x01)
    ||| (nw.0 == 0xfe && cur.0 != 0)
    ||| (cur.0 == nw.0 && nw.1 == 0)
    ||| (cur.0 == nw.0 && cur.1 == nw.1 && nw.2 == 0)
}

pub open spec fn select_rec(cs: Seq<(u16, u16, u16)>, i: int, cur: (u16, u16, u16)) -> (
    u16,
    u16,
    u16,
)
    decreases cs.len() - i,
{
    if i < 0 || i >= cs.len() {
        cur
    } else {
        select_rec(
            cs,
            i + 1,
            if keeps_current(cur, cs[i]) {
                cur
            } else {
                cs[i]
            },
        )
    }
}

/// The class/subclass/protocol triple retained after scanning the
/// device's interface descriptors in order, starting from all-zero.
pub open spec fn select_interfaces(cs: Seq<(u16, u16, u16)>) -> (u16, u16, u16) {
    select_rec(cs, 0, (0u16, 0u16, 0u16))
}

/// A device with a single interface is classified by that interface:
/// the first candidate seeds the retained triple (an all-zero class and
/// subclass falls under the empty-subclass rule and is skipped, which
/// leaves the same codes anyway unless only its protocol differs).
pub proof fn lemma_first_interface_seeds(c: (u16, u16, u16))
    requires
        c.0 != 0,
    ensures
        select_interfaces(seq![c]) == c,
{
    assert(!keeps_current((0u16, 0u16, 0u16), c));
    assert(select_rec(seq![c], 1, c) == c);
}

/// A retained mouse is never replaced by a keyboard candidate, whatever
/// either one's subclass is.
pub proof fn lemma_mouse_keeps_over_keyboard(cur: (u16, u16, u16), nw: (u16, u16, u16))
    requires
        cur.0 == 0x03,
        cur.2 == 0x02,
        nw.0 == 0x03,
        nw.2 == 0x01,
    ensures
        keeps_current(cur, nw),
{
}

/// Scans the raw interface descriptors and picks the retained triple,
/// per `select_interfaces`.
pub fn select_interface_codes(ifaces: &Vec<RawInterface>) -> (r: (u16, u16, u16))
    ensures
        r == select_interfaces(
            ifaces@.map_values(|i: RawInterface| i@).map_values(
                |iv: RawInterfaceV| iface_codes(iv),
            ),
        ),
{
    let ghost cs = ifaces@.map_values(|i: RawInterface| i@).map_values(
        |iv: RawInterfaceV| iface_codes(iv),
    );
    let mut cur: (u16, u16, u16) = (0, 0, 0);
    let mut i: usize = 0;
    while i < ifaces.len()
        invariant
            0 <= i <= ifaces@.len(),
            cs == ifaces@.map_values(|i: RawInterface| i@).map_values(
                |iv: RawInterfaceV| iface_codes(iv),
            ),
            cs.len() == ifaces@.len(),
            select_rec(cs, i as int, cur) == select_interfaces(cs),
        decreases ifaces@.len() - i,
    {
        let item = &ifaces[i];
        let nw_class = crate::text::hex_or_zero(&item.class);
        let nw_subclass = crate::text::hex_or_zero(&item.subclass);
        let nw_protocol = crate::text::hex_or_zero(&item.protocol);
        let nw = (nw_class, nw_subclass, nw_protocol);
        assert(nw == cs[i as int]);
        let keep = (cur.0 == 0x03 && cur.2 == 0x02 && nw.0 == 0x03 && nw.2 == 0x01) || (nw.0
            == 0xfe && cur.0 != 0) || (cur.0 == nw.0 && nw.1 == 0) || (cur.0 == nw.0 && cur.1
            == nw.1 && nw.2 == 0);
        if !keep {
            cur = nw;
        }
        i = i + 1;
    }
    cur
}

/// The resolved identity fields: vendor id, registry vendor name,
/// product id and registry product name. The product file is only
/// consulted once the vendor resolved in the registry; a present but
/// unparseable id file is a fault.
pub open spec fn spec_usb_vendor_fields(raw: RawUsbDeviceV, db: Option<DbV>) -> Result<
    (Option<u16>, Option<Seq<char>>, Option<u16>, Option<Seq<char>>),
    crate::fault::DeviceReadFault,
> {
    match raw.id_vendor {
        Option::None => Ok((Option::None, Option::None, Option::None, Option::None)),
        Option::Some(vs) => match crate::text::spec_parse_hex_field(vs) {
            Option::None => Err(
                crate::fault::DeviceReadFault { attribute: crate::fault::DeviceAttr::VendorId },
            ),
            Option::Some(vid) => {
                if db is Some && db->0.vendors.contains_key(vid) {
                    let v = db->0.vendors[vid];
                    let vname = Option::Some(crate::text::trimmed(v.name));
                    match raw.id_product {
                        Option::None => Ok((Option::Some(vid), vname, Option::None, Option::None)),
                        Option::Some(ps) => match crate::text::spec_parse_hex_field(ps) {
                            Option::None => Err(
                                crate::fault::DeviceReadFault {
                                    attribute: crate::fault::DeviceAttr::ProductId,
                                },
                            ),
                            Option::Some(pid) => Ok(
                                (
                                    Option::Some(vid),
                                    vname,
                                    Option::Some(pid),
                                    if v.devices.contains_key(pid) {
                                        Option::Some(crate::text::trimmed(v.devices[pid]))
                                    } else {
                                        Option::None
                                    },
                                ),
                            ),
                        },
                    }
                } else {
                    Ok((Option::Some(vid), Option::None, Option::None, Option::None))
                }
            },
        },
    }
}

/// The final class/subclass/interface codes: a device-level class of
/// `0x00`, or the composite sentinel `0xEF/0x02/0x01`, defers to the
/// interface scan; a missing or unparseable class file leaves all-zero.
pub open spec fn spec_usb_kind_codes(raw: RawUsbDeviceV) -> (u16, u16, u16) {
    match raw.b_device_class {
        Option::None => (0u16, 0u16, 0u16),
        Option::Some(cs) => match crate::text::spec_parse_hex_field(cs) {
            Option::None => (0u16, 0u16, 0u16),
            Option::Some(c) => if c == 0 {
                select_interfaces(raw.interfaces.map_values(|iv: RawInterfaceV| iface_codes(iv)))
            } else {
                let sub = crate::text::spec_hex_or_zero(raw.b_device_subclass);
                let proto = crate::text::spec_hex_or_zero(raw.b_device_protocol);
                if c == 0xef && sub == 0x02 && proto == 0x01 {
                    select_interfaces(
                        raw.interfaces.map_values(|iv: RawInterfaceV| iface_codes(iv)),
                    )
                } else {
                    (c, sub, proto)
                }
            },
        },
    }
}

/// The registry names for a code triple: the class name as declared, the
/// subclass and interface names trimmed, each present only while the
/// level above resolved.
pub open spec fn spec_kind_names(codes: (u16, u16, u16), db: Option<DbV>) -> UsbKindV {
    let class_name = if db is Some && db->0.classes.contains_key(codes.0) {
        Option::Some(db->0.classes[codes.0].name)
    } else {
        Option::None
    };
    let subclass_name = if db is Some && db->0.classes.contains_key(codes.0)
        && db->0.classes[codes.0].subclasses.contains_key(codes.1) {
        Option::Some(crate::text::trimmed(db->0.classes[codes.0].subclasses[codes.1].name))
    } else {
        Option::None
    };
    let interface_name = if db is Some && db->0.classes.contains_key(codes.0)
        && db->0.classes[codes.0].subclasses.contains_key(codes.1)
        && db->0.classes[codes.0].subclasses[codes.1].interfaces.contains_key(codes.2) {
        Option::Some(
            crate::text::trimmed(
                db->0.classes[codes.0].subclasses[codes.1].interfaces[codes.2],
            ),
        )
    } else {
        Option::None
    };
    UsbKindV {
        class: codes.0,
        subclass: codes.1,
        interface: codes.2,
        class_name,
        subclass_name,
        interface_name,
    }
}

/// The device's classification: codes per `spec_usb_kind_codes`, with
/// names resolved only when the class file was present and parseable.
pub open spec fn spec_usb_kind(raw: RawUsbDeviceV, db: Option<DbV>) -> UsbKindV {
    match raw.b_device_class {
        Option::None => UsbKindV {
            class: 0,
            subclass: 0,
            interface: 0,
            class_name: Option::None,
            subclass_name: Option::None,
            interface_name: Option::None,
        },
        Option::Some(cs) => match crate::text::spec_parse_hex_field(cs) {
            Option::None => UsbKindV {
                class: 0,
                subclass: 0,
                interface: 0,
                class_name: Option::None,
                subclass_name: Option::None,
                interface_name: Option::None,
            },
            Option::Some(c) => spec_kind_names(spec_usb_kind_codes(raw), db),
        },
    }
}

/// The power state read from `power/control` and
/// `power/autosuspend_delay_ms`: both files are required; `auto` enables
/// autosuspend; the delay is a decimal number of milliseconds, with `-1`
/// the sentinel for autosuspend disabled by policy, which overrides the
/// control value.
pub open spec fn spec_usb_power(raw: RawUsbDeviceV) -> Result<
    (bool, u64),
    crate::fault::DeviceReadFault,
> {
    match raw.power_control {
        Option::None => Err(
            crate::fault::DeviceReadFault {
                attribute: crate::fault::DeviceAttr::PowerControl,
            },
        ),
        Option::Some(cs) => {
            let auto0 = crate::text::trimmed(cs) == seq!['a', 'u', 't', 'o'];
            match raw.autosuspend_delay_ms {
                Option::None => Err(
                    crate::fault::DeviceReadFault {
                        attribute: crate::fault::DeviceAttr::AutosuspendDelay,
                    },
                ),
                Option::Some(ds) => {
                    let t = crate::text::trimmed(ds);
                    if t == seq!['-', '1'] {
                        Ok((false, 0u64))
                    } else if crate::text::all_dec_digits(t) && t.len() > 0
                        && crate::text::dec_value(t) <= u64::MAX {
                        Ok((auto0, crate::text::dec_value(t) as u64))
                    } else {
                        Err(
                            crate::fault::DeviceReadFault {
                                attribute: crate::fault::DeviceAttr::AutosuspendDelay,
                            },
                        )
                    }
                },
            }
        },
    }
}

/// The whole classification of one raw USB device against the registry.
pub open spec fn spec_classify_usb(raw: RawUsbDeviceV, db: Option<DbV>) -> Result<
    UsbDeviceV,
    crate::fault::DeviceReadFault,
> {
    match spec_usb_vendor_fields(raw, db) {
        Err(f) => Err(f),
        Ok((vendor_id, db_vendor_name, product_id, db_product_name)) => match spec_usb_power(
            raw,
        ) {
            Err(f) => Err(f),
            Ok((autosuspend, delay)) => Ok(
                UsbDeviceV {
                    id: raw.id,
                    char_device_path: raw.char_device_path,
                    vendor_id,
                    product_id,
                    db_vendor_name,
                    db_product_name,
                    product_name: crate::text::trimmed_opt(raw.product),
                    manufacturer_name: crate::text::trimmed_opt(raw.manufacturer),
                    autosuspend,
                    allow_wakeup: Option::None,
                    delay,
                    kind: spec_usb_kind(raw, db),
                    delay_error: Option::None,
                },
            ),
        },
    }
}

pub open spec fn spec_db_opt(db: Option<&crate::db::Db>) -> Option<crate::db::DbV> {
    match db {
        Option::Some(d) => Option::Some(d@),
        Option::None => Option::None,
    }
}

fn usb_power(raw: &RawUsbDevice) -> (r: Result<(bool, u64), crate::fault::DeviceReadFault>)
    ensures
        match r {
            Ok(p) => spec_usb_power(raw@) == Ok::<(bool, u64), crate::fault::DeviceReadFault>(
                p,
            ),
            Err(f) => spec_usb_power(raw@) == Err::<
                (bool, u64),
                crate::fault::DeviceReadFault,
            >(f),
        },
{
    proof {
        reveal_strlit("auto");
        reveal_strlit("-1");
        assert("auto"@ =~= seq!['a', 'u', 't', 'o']);
        assert("-1"@ =~= seq!['-', '1']);
    }
    let cs = match &raw.power_control {
        Option::Some(cs) => cs,
        Option::None => {
            return Err(
                crate::fault::DeviceReadFault {
                    attribute: crate::fault::DeviceAttr::PowerControl,
                },
            );
        },
    };
    let tc = crate::text::trim_chars(&crate::text::chars_of_str(cs.as_str()));
    let auto0 = crate::text::chars_eq_str(&tc, "auto");
    let ds = match &raw.autosuspend_delay_ms {
        Option::Some(ds) => ds,
        Option::None => {
            return Err(
                crate::fault::DeviceReadFault {
                    attribute: crate::fault::DeviceAttr::AutosuspendDelay,
                },
            );
        },
    };
    let td = crate::text::trim_string(ds);
    if crate::text::chars_eq_str(&td, "-1") {
        return Ok((false, 0));
    }
    match crate::text::parse_dec_u64(&td, 0, td.len()) {
        Option::Some(v) => {
            proof {
                assert(td@.subrange(0, td@.len() as int) =~= td@);
            }
            Ok((auto0, v))
        },
        Option::None => {
            proof {
                assert(td@.subrange(0, td@.len() as int) =~= td@);
            }
            Err(
                crate::fault::DeviceReadFault {
                    attribute: crate::fault::DeviceAttr::AutosuspendDelay,
                },
            )
        },
    }
}

fn usb_kind(raw: &RawUsbDevice, db: Option<&crate::db::Db>) -> (r: UsbKind)
    ensures
        r@ == spec_usb_kind(raw@, spec_db_opt(db)),
{
    let cs = match &raw.b_device_class {
        Option::Some(cs) => cs,
        Option::None => {
            return UsbKind::default();
        },
    };
    let c = match crate::text::parse_hex_field(cs) {
        Option::Some(c) => c,
        Option::None => {
            return UsbKind::default();
        },
    };
    let codes: (u16, u16, u16) = if c == 0 {
        let r = select_interface_codes(&raw.interfaces);
        assert(r == spec_usb_kind_codes(raw@));
        r
    } else {
        let sub = crate::text::hex_or_zero(&raw.b_device_subclass);
        let proto = crate::text::hex_or_zero(&raw.b_device_protocol);
        if c == 0xef && sub == 0x02 && proto == 0x01 {
            let r = select_interface_codes(&raw.interfaces);
            assert(r == spec_usb_kind_codes(raw@));
            r
        } else {
            (c, sub, proto)
        }
    };
    let mut kind = UsbKind::new(codes.0, codes.1, codes.2);
    if let Option::Some(d) = db {
        if let Option::Some(cls) = d.class(codes.0) {
            kind.class_name = Some(cls.name.clone());
            if let Option::Some(sub) = cls.subclass(codes.1) {
                kind.subclass_name = Some(crate::text::trim_to_string(&sub.name));
                if let Option::Some(iname) = sub.interface_name(codes.2) {
                    kind.interface_name = Some(crate::text::trim_to_string(iname));
                }
            }
        }
    }
    assert(kind@ == spec_kind_names(codes, spec_db_opt(db)));
    kind
}

/// Builds the resolved device record for one raw USB device, per
/// `spec_classify_usb`. A fault drops this one device only.
pub fn classify_usb(raw: &RawUsbDevice, db: Option<&crate::db::Db>) -> (r: Result<
    UsbDevice,
    crate::fault::DeviceReadFault,
>)
    ensures
        match r {
            Ok(d) => spec_classify_usb(raw@, spec_db_opt(db)) == Ok::<
                UsbDeviceV,
                crate::fault::DeviceReadFault,
            >(d@),
            Err(f) => spec_classify_usb(raw@, spec_db_opt(db)) == Err::<
                UsbDeviceV,
                crate::fault::DeviceReadFault,
            >(f),
        },
{
    let mut dev = UsbDevice::from(raw.char_device_path.as_str(), raw.id);
    if let Option::Some(vs) = &raw.id_vendor {
        match crate::text::parse_hex_field(vs) {
            Option::None => {
                return Err(
                    crate::fault::DeviceReadFault {
                        attribute: crate::fault::DeviceAttr::VendorId,
                    },
                );
            },
            Option::Some(vid) => {
                dev.vendor_id = Some(vid);
                let vend = match db {
                    Option::Some(d) => d.vendor(vid),
                    Option::None => None,
                };
                if let Option::Some(v) = vend {
                    dev.db_vendor_name = Some(crate::text::trim_to_string(&v.name));
                    if let Option::Some(ps) = &raw.id_product {
                        match crate::text::parse_hex_field(ps) {
                            Option::None => {
                                return Err(
                                    crate::fault::DeviceReadFault {
                                        attribute: crate::fault::DeviceAttr::ProductId,
                                    },
                                );
                            },
                            Option::Some(pid) => {
                                dev.product_id = Some(pid);
                                if let Option::Some(nm) = v.device_name(pid) {
                                    dev.db_product_name = Some(
                                        crate::text::trim_to_string(nm),
                                    );
                                }
                            },
                        }
                    }
                }
            },
        }
    }
    assert(spec_usb_vendor_fields(raw@, spec_db_opt(db)) == Ok::<
        (Option<u16>, Option<Seq<char>>, Option<u16>, Option<Seq<char>>),
        crate::fault::DeviceReadFault,
    >(
        (
            dev@.vendor_id,
            dev@.db_vendor_name,
            dev@.product_id,
            dev@.db_product_name,
        ),
    ));
    if let Option::Some(p) = &raw.product {
        dev.product_name = Some(crate::text::trim_to_string(p));
    }
    if let Option::Some(m) = &raw.manufacturer {
        dev.manufacturer_name = Some(crate::text::trim_to_string(m));
    }
    dev.kind = usb_kind(raw, db);
    match usb_power(raw) {
        Err(f) => Err(f),
        Ok(p) => {
            dev.autosuspend = p.0;
            dev.delay = p.1;
            assert(spec_classify_usb(raw@, spec_db_opt(db)) == Ok::<
                UsbDeviceV,
                crate::fault::DeviceReadFault,
            >(dev@));
            Ok(dev)
        },
    }
}

} // verus!
