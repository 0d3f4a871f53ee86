//! The hardware-identifier registry: vendors with their products, and
//! device classes with their subclasses and interfaces, parsed from the
//! registry text file.
//!
//! The same grammar covers both registry flavours: the vendor/product tree
//! carries product entries at one level of nesting, and the class tree
//! (entries introduced by a `C` marker) carries subclasses and, below
//! them, interfaces.
pub mod parsers;

use vstd::prelude::*;

use std::collections::HashMap;


verus! {

/// A subclass entry of a device class, holding its interface names.
#[derive(Debug)]
pub struct Subclass {
    pub id: u16,
    pub name: String,
    pub interfaces: HashMap<u16, String>,
}

/// A device-class entry: a `C`-marked top-level entry of the registry.
#[derive(Debug)]
pub struct DeviceClass {
    pub id: u16,
    pub name: String,
    pub subclasses: HashMap<u16, Subclass>,
}

/// A vendor entry with its product names.
#[derive(Debug)]
pub struct Vendor {
    pub id: u16,
    pub name: String,
    pub devices: HashMap<u16, String>,
}

/// The parsed registry: vendor and class trees keyed by id.
#[derive(Debug)]
pub struct Db {
    pub vendors: HashMap<u16, Vendor>,
    pub classes: HashMap<u16, DeviceClass>,
}

pub struct SubclassV {
    pub id: u16,
    pub name: Seq<char>,
    pub interfaces: Map<u16, Seq<char>>,
}

pub struct DeviceClassV {
    pub id: u16,
    pub name: Seq<char>,
    pub subclasses: Map<u16, SubclassV>,
}

pub struct VendorV {
    pub id: u16,
    pub name: Seq<char>,
    pub devices: Map<u16, Seq<char>>,
}

pub struct DbV {
    pub vendors: Map<u16, VendorV>,
    pub classes: Map<u16, DeviceClassV>,
}

impl View for Subclass {
    type V = SubclassV;

    open spec fn view(&self) -> SubclassV {
        SubclassV {
            id: self.id,
            name: self.name@,
            interfaces: self.interfaces@.map_values(|s: String| s@),
        }
    }
}

impl View for DeviceClass {
    type V = DeviceClassV;

    open spec fn view(&self) -> DeviceClassV {
        DeviceClassV {
            id: self.id,
            name: self.name@,
            subclasses: self.subclasses@.map_values(|s: Subclass| s@),
        }
    }
}

impl View for Vendor {
    type V = VendorV;

    open spec fn view(&self) -> VendorV {
        VendorV {
            id: self.id,
            name: self.name@,
            devices: self.devices@.map_values(|s: String| s@),
        }
    }
}

impl View for Db {
    type V = DbV;

    open spec fn view(&self) -> DbV {
        DbV {
            vendors: self.vendors@.map_values(|v: Vendor| v@),
            classes: self.classes@.map_values(|c: DeviceClass| c@),
        }
    }
}

impl Vendor {
    /// The product name declared under this vendor for `product_id`.
    pub fn device_name(&self, product_id: u16) -> (r: Option<&String>)
        ensures
            match r {
                Some(s) => self@.devices.contains_key(product_id) && self@.devices[product_id]
                    == s@,
                None => !self@.devices.contains_key(product_id),
            },
    {
        let r = self.devices.get(&product_id);
        proof {
            if r is Some {
                assert(self@.devices.contains_key(product_id));
            } else {
                assert(!self.devices@.contains_key(product_id));
                assert(!self@.devices.contains_key(product_id));
            }
        }
        r
    }
}

impl DeviceClass {
    /// The subclass entry declared under this class for `subclass_id`.
    pub fn subclass(&self, subclass_id: u16) -> (r: Option<&Subclass>)
        ensures
            match r {
                Some(s) => self@.subclasses.contains_key(subclass_id)
                    && self@.subclasses[subclass_id] == s@,
                None => !self@.subclasses.contains_key(subclass_id),
            },
    {
        let r = self.subclasses.get(&subclass_id);
        proof {
            if r is None {
                assert(!self.subclasses@.contains_key(subclass_id));
                assert(!self@.subclasses.contains_key(subclass_id));
            }
        }
        r
    }
}

impl Subclass {
    /// The interface name declared under this subclass for `interface_id`.
    pub fn interface_name(&self, interface_id: u16) -> (r: Option<&String>)
        ensures
            match r {
                Some(s) => self@.interfaces.contains_key(interface_id)
                    && self@.interfaces[interface_id] == s@,
                None => !self@.interfaces.contains_key(interface_id),
            },
    {
        let r = self.interfaces.get(&interface_id);
        proof {
            if r is None {
                assert(!self.interfaces@.contains_key(interface_id));
                assert(!self@.interfaces.contains_key(interface_id));
            }
        }
        r
    }
}

impl Db {
    /// The vendor entry for `vendor_id`.
    pub fn vendor(&self, vendor_id: u16) -> (r: Option<&Vendor>)
        ensures
            match r {
                Some(v) => self@.vendors.contains_key(vendor_id) && self@.vendors[vendor_id]
                    == v@,
                None => !self@.vendors.contains_key(vendor_id),
            },
    {
        let r = self.vendors.get(&vendor_id);
        proof {
            if r is None {
                assert(!self.vendors@.contains_key(vendor_id));
                assert(!self@.vendors.contains_key(vendor_id));
            }
        }
        r
    }

    /// The class entry for `class_id`.
    pub fn class(&self, class_id: u16) -> (r: Option<&DeviceClass>)
        ensures
            match r {
                Some(c) => self@.classes.contains_key(class_id) && self@.classes[class_id]
                    == c@,
                None => !self@.classes.contains_key(class_id),
            },
    {
        let r = self.classes.get(&class_id);
        proof {
            if r is None {
                assert(!self.classes@.contains_key(class_id));
                assert(!self@.classes.contains_key(class_id));
            }
        }
        r
    }
}

/// The text that `encoding_rs` decodes from the given bytes under
/// Windows-1252 (a function of the bytes alone).
pub uninterp spec fn win1252_decode(bytes: Seq<u8>) -> Seq<char>;

/// Relies on `encoding_rs::Encoding::decode` with `WINDOWS_1252`: decoding
/// a complete byte buffer yields text that depends on the bytes alone
/// (malformed sequences become replacement characters, never an error).
#[verifier::external_body]
fn decode_windows_1252(bytes: &Vec<u8>) -> (r: String)
    ensures
        r@ == win1252_decode(bytes@),
{
    let (text, _, _) = encoding_rs::WINDOWS_1252.decode(bytes.as_slice());
    text.into_owned()
}

/// Decodes the registry file's bytes as Windows-1252 text and parses it.
pub fn parse_db(bytes: &Vec<u8>) -> (r: Result<Db, parsers::ParseError>)
    ensures
        match r {
            Ok(db) => parsers::spec_parse(win1252_decode(bytes@)) == Ok::<
                DbV,
                parsers::ParseErrorV,
            >(db@),
            Err(e) => parsers::spec_parse(win1252_decode(bytes@)) == Err::<
                DbV,
                parsers::ParseErrorV,
            >(e@),
        },
{
    let text = decode_windows_1252(bytes);
    parsers::parse_all(text.as_str())
}

} // verus!
