//! Faults raised while reading one device's attribute files. A fault
//! names the attribute at issue; it drops that single device from an
//! enumeration, never the whole pass.
use vstd::prelude::*;

verus! {

/// The attribute file whose content was missing or unreadable.
#[derive(Clone, Copy, PartialEq, Eq, Structural, Debug)]
pub enum DeviceAttr {
    VendorId,
    ProductId,
    PowerControl,
    AutosuspendDelay,
}

/// A single device's attribute file was missing or held text that does
/// not parse; the device is dropped from the enumeration result.
#[derive(Clone, Copy, PartialEq, Eq, Structural, Debug)]
pub struct DeviceReadFault {
    pub attribute: DeviceAttr,
}

impl DeviceAttr {
    /// The attribute file's conventional name, for reporting.
    pub fn text(&self) -> (r: String)
        ensures
            self is VendorId ==> r@ == "vendor id"@,
            self is ProductId ==> r@ == "product id"@,
            self is PowerControl ==> r@ == "power/control"@,
            self is AutosuspendDelay ==> r@ == "power/autosuspend_delay_ms"@,
    {
        match self {
            DeviceAttr::VendorId => {
                let mut s = String::new();
                s.append("vendor id");
                s
            },
            DeviceAttr::ProductId => {
                let mut s = String::new();
                s.append("product id");
                s
            },
            DeviceAttr::PowerControl => {
                let mut s = String::new();
                s.append("power/control");
                s
            },
            DeviceAttr::AutosuspendDelay => {
                let mut s = String::new();
                s.append("power/autosuspend_delay_ms");
                s
            },
        }
    }
}

} // verus!
