//! The configuration state: the authoritative device collections, the
//! unsaved-changes flag and the validation error count, with the edit
//! actions processed by one central handler.
//!
//! The state invariant ties the error count to the per-device validation
//! errors: `errors` always equals the number of devices whose last delay
//! edit failed validation.
use vstd::prelude::*;

use crate::delay::delay_err_msg;
use crate::delay::spec_parse_delay;
use crate::pci::PciDevice;
use crate::pci::PciDeviceV;
use crate::usb::UsbDevice;
use crate::usb::UsbDeviceV;

verus! {

pub open spec fn usb_views(s: Seq<UsbDevice>) -> Seq<UsbDeviceV> {
    s.map_values(|d: UsbDevice| d@)
}

pub open spec fn pci_views(s: Seq<PciDevice>) -> Seq<PciDeviceV> {
    s.map_values(|d: PciDevice| d@)
}

/// One validation error outstanding on a device, or none.
pub open spec fn err_flag(o: Option<Seq<char>>) -> int {
    if o is Some {
        1
    } else {
        0
    }
}

/// The number of USB devices whose last delay edit failed validation.
pub open spec fn usb_errs(s: Seq<UsbDeviceV>) -> int
    decreases s.len(),
{
    if s.len() == 0 {
        0
    } else {
        usb_errs(s.drop_last()) + err_flag(s.last().delay_error)
    }
}

/// The number of PCI devices whose last delay edit failed validation.
pub open spec fn pci_errs(s: Seq<PciDeviceV>) -> int
    decreases s.len(),
{
    if s.len() == 0 {
        0
    } else {
        pci_errs(s.drop_last()) + err_flag(s.last().delay_error)
    }
}

pub proof fn lemma_usb_errs_update(s: Seq<UsbDeviceV>, j: int, d: UsbDeviceV)
    requires
        0 <= j < s.len(),
    ensures
        usb_errs(s.update(j, d)) == usb_errs(s) - err_flag(s[j].delay_error) + err_flag(
            d.delay_error,
        ),
    decreases s.len(),
{
    let t = s.update(j, d);
    if j == s.len() - 1 {
        assert(t.drop_last() =~= s.drop_last());
        assert(t.last() == d);
    } else {
        assert(t.drop_last() =~= s.drop_last().update(j, d));
        lemma_usb_errs_update(s.drop_last(), j, d);
        assert(t.last() == s.last());
    }
}

pub proof fn lemma_pci_errs_update(s: Seq<PciDeviceV>, j: int, d: PciDeviceV)
    requires
        0 <= j < s.len(),
    ensures
        pci_errs(s.update(j, d)) == pci_errs(s) - err_flag(s[j].delay_error) + err_flag(
            d.delay_error,
        ),
    decreases s.len(),
{
    let t = s.update(j, d);
    if j == s.len() - 1 {
        assert(t.drop_last() =~= s.drop_last());
        assert(t.last() == d);
    } else {
        assert(t.drop_last() =~= s.drop_last().update(j, d));
        lemma_pci_errs_update(s.drop_last(), j, d);
        assert(t.last() == s.last());
    }
}

pub proof fn lemma_usb_errs_bounds(s: Seq<UsbDeviceV>)
    ensures
        0 <= usb_errs(s) <= s.len(),
    decreases s.len(),
{
    if s.len() > 0 {
        lemma_usb_errs_bounds(s.drop_last());
    }
}

pub proof fn lemma_pci_errs_bounds(s: Seq<PciDeviceV>)
    ensures
        0 <= pci_errs(s) <= s.len(),
    decreases s.len(),
{
    if s.len() > 0 {
        lemma_pci_errs_bounds(s.drop_last());
    }
}

pub proof fn lemma_usb_errs_at(s: Seq<UsbDeviceV>, j: int)
    requires
        0 <= j < s.len(),
    ensures
        usb_errs(s) >= err_flag(s[j].delay_error),
        usb_errs(s) <= s.len() - 1 + err_flag(s[j].delay_error),
    decreases s.len(),
{
    if j == s.len() - 1 {
        lemma_usb_errs_bounds(s.drop_last());
    } else {
        lemma_usb_errs_at(s.drop_last(), j);
        assert(s.drop_last()[j] == s[j]);
    }
}

pub proof fn lemma_pci_errs_at(s: Seq<PciDeviceV>, j: int)
    requires
        0 <= j < s.len(),
    ensures
        pci_errs(s) >= err_flag(s[j].delay_error),
        pci_errs(s) <= s.len() - 1 + err_flag(s[j].delay_error),
    decreases s.len(),
{
    if j == s.len() - 1 {
        lemma_pci_errs_bounds(s.drop_last());
    } else {
        lemma_pci_errs_at(s.drop_last(), j);
        assert(s.drop_last()[j] == s[j]);
    }
}

/// An edit action, as dispatched by the shell.
pub enum Action {
    SetUsbAutoSuspend(u32, bool),
    SetUsbAutoSuspendDelay(u32, String),
    SetPciAutoSuspend(String, bool),
    SetPciAutoSuspendDelay(String, String),
}

/// The configuration state: the device collections, the unsaved-changes
/// flag, and the count of outstanding validation errors.
pub struct State {
    pub usb_devices: Vec<UsbDevice>,
    pub pci_devices: Vec<PciDevice>,
    pub changed: bool,
    pub errors: u16,
}

pub struct StateV {
    pub usb_devices: Seq<UsbDeviceV>,
    pub pci_devices: Seq<PciDeviceV>,
    pub changed: bool,
    pub errors: u16,
}

impl View for State {
    type V = StateV;

    open spec fn view(&self) -> StateV {
        StateV {
            usb_devices: usb_views(self.usb_devices@),
            pci_devices: pci_views(self.pci_devices@),
            changed: self.changed,
            errors: self.errors,
        }
    }
}

/// The state invariant: the error count equals the number of devices
/// holding a validation error, and the collections fit the counter.
pub open spec fn wf(st: StateV) -> bool {
    &&& st.errors == usb_errs(st.usb_devices) + pci_errs(st.pci_devices)
    &&& st.usb_devices.len() + st.pci_devices.len() <= u16::MAX
}

pub open spec fn usb_auto_upd(d: UsbDeviceV, id: u32, on: bool) -> UsbDeviceV {
    if d.id == id {
        UsbDeviceV { autosuspend: on, ..d }
    } else {
        d
    }
}

pub open spec fn upd_usb_auto(s: Seq<UsbDeviceV>, id: u32, on: bool) -> Seq<UsbDeviceV> {
    s.map_values(|d: UsbDeviceV| usb_auto_upd(d, id, on))
}

pub open spec fn usb_delay_ok_upd(d: UsbDeviceV, id: u32, ms: u64) -> UsbDeviceV {
    if d.id == id {
        UsbDeviceV { delay: ms, delay_error: Option::None, ..d }
    } else {
        d
    }
}

pub open spec fn upd_usb_delay_ok(s: Seq<UsbDeviceV>, id: u32, ms: u64) -> Seq<UsbDeviceV> {
    s.map_values(|d: UsbDeviceV| usb_delay_ok_upd(d, id, ms))
}

pub open spec fn usb_delay_err_upd(d: UsbDeviceV, id: u32, msg: Seq<char>) -> UsbDeviceV {
    if d.id == id {
        UsbDeviceV { delay_error: Option::Some(msg), ..d }
    } else {
        d
    }
}

pub open spec fn upd_usb_delay_err(s: Seq<UsbDeviceV>, id: u32, msg: Seq<char>) -> Seq<
    UsbDeviceV,
> {
    s.map_values(|d: UsbDeviceV| usb_delay_err_upd(d, id, msg))
}

pub open spec fn pci_auto_upd(d: PciDeviceV, id: Seq<char>, on: bool) -> PciDeviceV {
    if d.id == id {
        PciDeviceV { autosuspend: on, ..d }
    } else {
        d
    }
}

pub open spec fn upd_pci_auto(s: Seq<PciDeviceV>, id: Seq<char>, on: bool) -> Seq<PciDeviceV> {
    s.map_values(|d: PciDeviceV| pci_auto_upd(d, id, on))
}

pub open spec fn pci_delay_ok_upd(d: PciDeviceV, id: Seq<char>, ms: u64) -> PciDeviceV {
    if d.id == id {
        PciDeviceV { delay: ms, delay_error: Option::None, ..d }
    } else {
        d
    }
}

pub open spec fn upd_pci_delay_ok(s: Seq<PciDeviceV>, id: Seq<char>, ms: u64) -> Seq<
    PciDeviceV,
> {
    s.map_values(|d: PciDeviceV| pci_delay_ok_upd(d, id, ms))
}

pub open spec fn pci_delay_err_upd(d: PciDeviceV, id: Seq<char>, msg: Seq<char>) -> PciDeviceV {
    if d.id == id {
        PciDeviceV { delay_error: Option::Some(msg), ..d }
    } else {
        d
    }
}

pub open spec fn upd_pci_delay_err(s: Seq<PciDeviceV>, id: Seq<char>, msg: Seq<char>) -> Seq<
    PciDeviceV,
> {
    s.map_values(|d: PciDeviceV| pci_delay_err_upd(d, id, msg))
}

impl State {
    /// A fresh state over freshly classified collections: no unsaved
    /// changes, with the error count recomputed from the devices.
    pub fn new(usb_devices: Vec<UsbDevice>, pci_devices: Vec<PciDevice>) -> (r: State)
        requires
            usb_devices@.len() + pci_devices@.len() <= u16::MAX,
        ensures
            r@.usb_devices == usb_views(usb_devices@),
            r@.pci_devices == pci_views(pci_devices@),
            r@.changed == false,
            wf(r@),
    {
        let mut count: u16 = 0;
        let mut i: usize = 0;
        proof {
            lemma_usb_errs_bounds(usb_views(usb_devices@));
            lemma_pci_errs_bounds(pci_views(pci_devices@));
        }
        while i < usb_devices.len()
            invariant
                0 <= i <= usb_devices@.len(),
                usb_devices@.len() + pci_devices@.len() <= u16::MAX,
                count == usb_errs(usb_views(usb_devices@).take(i as int)),
                count <= i,
            decreases usb_devices@.len() - i,
        {
            let ghost pre = usb_views(usb_devices@).take(i as int);
            let ghost cur = usb_views(usb_devices@).take(i + 1 as int);
            proof {
                assert(cur.drop_last() =~= pre);
                assert(cur.last() == usb_devices@[i as int]@);
            }
            if usb_devices[i].delay_error.is_some() {
                count = count + 1;
            }
            i = i + 1;
        }
        assert(usb_views(usb_devices@).take(usb_devices@.len() as int) =~= usb_views(
            usb_devices@,
        ));
        let mut j: usize = 0;
        while j < pci_devices.len()
            invariant
                0 <= j <= pci_devices@.len(),
                usb_devices@.len() + pci_devices@.len() <= u16::MAX,
                count == usb_errs(usb_views(usb_devices@)) + pci_errs(
                    pci_views(pci_devices@).take(j as int),
                ),
                count <= usb_devices@.len() + j,
            decreases pci_devices@.len() - j,
        {
            let ghost pre = pci_views(pci_devices@).take(j as int);
            let ghost cur = pci_views(pci_devices@).take(j + 1 as int);
            proof {
                assert(cur.drop_last() =~= pre);
                assert(cur.last() == pci_devices@[j as int]@);
                lemma_usb_errs_bounds(usb_views(usb_devices@));
                lemma_pci_errs_bounds(pre);
            }
            if pci_devices[j].delay_error.is_some() {
                count = count + 1;
            }
            j = j + 1;
        }
        assert(pci_views(pci_devices@).take(pci_devices@.len() as int) =~= pci_views(
            pci_devices@,
        ));
        State { usb_devices, pci_devices, changed: false, errors: count }
    }

    /// Discards the collections and replaces them with freshly
    /// enumerated ones; edits are lost, the changed flag and error
    /// count reset (errors recomputed from the fresh devices).
    pub fn refresh(&mut self, usb_devices: Vec<UsbDevice>, pci_devices: Vec<PciDevice>)
        requires
            usb_devices@.len() + pci_devices@.len() <= u16::MAX,
        ensures
            final(self)@.usb_devices == usb_views(usb_devices@),
            final(self)@.pci_devices == pci_views(pci_devices@),
            final(self)@.changed == false,
            wf(final(self)@),
    {
        *self = State::new(usb_devices, pci_devices);
    }

    /// Sets autosuspend on every USB device with the given id and marks
    /// the state changed.
    pub fn set_usb_autosuspend(&mut self, id: u32, on: bool)
        requires
            wf(old(self)@),
        ensures
            final(self)@.usb_devices == upd_usb_auto(old(self)@.usb_devices, id, on),
            final(self)@.pci_devices == old(self)@.pci_devices,
            final(self)@.changed == true,
            final(self)@.errors == old(self)@.errors,
            wf(final(self)@),
    {
        let ghost orig = old(self)@.usb_devices;
        let mut i: usize = 0;
        while i < self.usb_devices.len()
            invariant
                0 <= i <= self.usb_devices@.len(),
                self.usb_devices@.len() == orig.len(),
                orig == old(self)@.usb_devices,
                self.pci_devices@ == old(self).pci_devices@,
                self.changed == old(self).changed,
                self.errors == old(self).errors,
                forall|j: int|
                    i <= j < orig.len() ==> usb_views(self.usb_devices@)[j] == orig[j],
                forall|j: int|
                    0 <= j < i ==> usb_views(self.usb_devices@)[j] == usb_auto_upd(
                        orig[j],
                        id,
                        on,
                    ),
            decreases self.usb_devices@.len() - i,
        {
            let ghost prev = self.usb_devices@;
            if self.usb_devices[i].id == id {
                self.usb_devices[i].autosuspend = on;
            }
            proof {
                assert(forall|j: int|
                    0 <= j < prev.len() && j != i ==> self.usb_devices@[j] == prev[j]);
                assert(prev[i as int]@ == orig[i as int]);
                assert(self.usb_devices@[i as int]@ == usb_auto_upd(orig[i as int], id, on));
                assert forall|j: int| 0 <= j <= i implies usb_views(self.usb_devices@)[j]
                    == usb_auto_upd(orig[j], id, on) by {
                    if j < i {
                        assert(usb_views(prev)[j] == usb_auto_upd(orig[j], id, on));
                        assert(self.usb_devices@[j] == prev[j]);
                    }
                    assert(usb_views(self.usb_devices@)[j] == self.usb_devices@[j]@);
                }
            }
            i = i + 1;
        }
        self.changed = true;
        proof {
            assert(usb_views(self.usb_devices@) =~= upd_usb_auto(orig, id, on));
            lemma_errs_unchanged_usb_auto(orig, id, on);
        }
    }

    /// Sets autosuspend on every PCI device with the given id and marks
    /// the state changed.
    pub fn set_pci_autosuspend(&mut self, id: &String, on: bool)
        requires
            wf(old(self)@),
        ensures
            final(self)@.pci_devices == upd_pci_auto(old(self)@.pci_devices, id@, on),
            final(self)@.usb_devices == old(self)@.usb_devices,
            final(self)@.changed == true,
            final(self)@.errors == old(self)@.errors,
            wf(final(self)@),
    {
        let ghost orig = old(self)@.pci_devices;
        let mut i: usize = 0;
        while i < self.pci_devices.len()
            invariant
                0 <= i <= self.pci_devices@.len(),
                self.pci_devices@.len() == orig.len(),
                orig == old(self)@.pci_devices,
                self.usb_devices@ == old(self).usb_devices@,
                self.changed == old(self).changed,
                self.errors == old(self).errors,
                forall|j: int|
                    i <= j < orig.len() ==> pci_views(self.pci_devices@)[j] == orig[j],
                forall|j: int|
                    0 <= j < i ==> pci_views(self.pci_devices@)[j] == pci_auto_upd(
                        orig[j],
                        id@,
                        on,
                    ),
            decreases self.pci_devices@.len() - i,
        {
            let ghost prev = self.pci_devices@;
            if self.pci_devices[i].id == *id {
                self.pci_devices[i].autosuspend = on;
            }
            proof {
                assert(forall|j: int|
                    0 <= j < prev.len() && j != i ==> self.pci_devices@[j] == prev[j]);
                assert(prev[i as int]@ == orig[i as int]);
                assert(self.pci_devices@[i as int]@ == pci_auto_upd(orig[i as int], id@, on));
                assert forall|j: int| 0 <= j <= i implies pci_views(self.pci_devices@)[j]
                    == pci_auto_upd(orig[j], id@, on) by {
                    if j < i {
                        assert(pci_views(prev)[j] == pci_auto_upd(orig[j], id@, on));
                        assert(self.pci_devices@[j] == prev[j]);
                    }
                    assert(pci_views(self.pci_devices@)[j] == self.pci_devices@[j]@);
                }
            }
            i = i + 1;
        }
        self.changed = true;
        proof {
            assert(pci_views(self.pci_devices@) =~= upd_pci_auto(orig, id@, on));
            lemma_errs_unchanged_pci_auto(orig, id@, on);
        }
    }
}

impl State {
    /// Validates and applies a delay edit for every USB device with the
    /// given id: a valid delay is stored and clears any outstanding
    /// validation error on those devices; an invalid one records the
    /// validation message against them. Either way the state is marked
    /// changed and the error count keeps counting the flagged devices.
    pub fn set_usb_delay(&mut self, id: u32, text: &str)
        requires
            wf(old(self)@),
        ensures
            final(self)@.pci_devices == old(self)@.pci_devices,
            final(self)@.changed == true,
            wf(final(self)@),
            (match spec_parse_delay(text@) {
                Option::Some(ms) => final(self)@.usb_devices == upd_usb_delay_ok(
                    old(self)@.usb_devices,
                    id,
                    ms,
                ),
                Option::None => final(self)@.usb_devices == upd_usb_delay_err(
                    old(self)@.usb_devices,
                    id,
                    delay_err_msg(text@),
                ),
            }),
    {
        let ghost orig = old(self)@.usb_devices;
        match crate::delay::parse_delay(text) {
            Ok(ms) => {
                let mut i: usize = 0;
                while i < self.usb_devices.len()
                    invariant
                        0 <= i <= self.usb_devices@.len(),
                        self.usb_devices@.len() == orig.len(),
                        orig == old(self)@.usb_devices,
                        self.pci_devices@ == old(self).pci_devices@,
                        self.changed == old(self).changed,
                        orig.len() + self.pci_devices@.len() <= u16::MAX,
                        self.errors == usb_errs(usb_views(self.usb_devices@)) + pci_errs(
                            pci_views(self.pci_devices@),
                        ),
                        forall|j: int|
                            i <= j < orig.len() ==> usb_views(self.usb_devices@)[j] == orig[j],
                        forall|j: int|
                            0 <= j < i ==> usb_views(self.usb_devices@)[j] == usb_delay_ok_upd(
                                orig[j],
                                id,
                                ms,
                            ),
                    decreases self.usb_devices@.len() - i,
                {
                    let ghost prev = self.usb_devices@;
                    if self.usb_devices[i].id == id {
                        if self.usb_devices[i].delay_error.is_some() {
                            proof {
                                lemma_usb_errs_at(usb_views(prev), i as int);
                                lemma_pci_errs_bounds(pci_views(self.pci_devices@));
                            }
                            self.errors = self.errors - 1;
                        }
                        self.usb_devices[i].delay = ms;
                        self.usb_devices[i].delay_error = None;
                    }
                    proof {
                        assert(forall|j: int|
                            0 <= j < prev.len() && j != i ==> self.usb_devices@[j] == prev[j]);
                        assert(prev[i as int]@ == orig[i as int]);
                        assert(self.usb_devices@[i as int]@ == usb_delay_ok_upd(
                            orig[i as int],
                            id,
                            ms,
                        ));
                        assert(usb_views(self.usb_devices@) =~= usb_views(prev).update(
                            i as int,
                            self.usb_devices@[i as int]@,
                        ));
                        lemma_usb_errs_update(
                            usb_views(prev),
                            i as int,
                            self.usb_devices@[i as int]@,
                        );
                        assert forall|j: int| 0 <= j <= i implies usb_views(
                            self.usb_devices@,
                        )[j] == usb_delay_ok_upd(orig[j], id, ms) by {
                            if j < i {
                                assert(usb_views(prev)[j] == usb_delay_ok_upd(orig[j], id, ms));
                                assert(self.usb_devices@[j] == prev[j]);
                            }
                            assert(usb_views(self.usb_devices@)[j] == self.usb_devices@[j]@);
                        }
                    }
                    i = i + 1;
                }
                assert(usb_views(self.usb_devices@) =~= upd_usb_delay_ok(orig, id, ms));
            },
            Err(f) => {
                let msg = f.message();
                let mut i: usize = 0;
                while i < self.usb_devices.len()
                    invariant
                        0 <= i <= self.usb_devices@.len(),
                        self.usb_devices@.len() == orig.len(),
                        orig == old(self)@.usb_devices,
                        self.pci_devices@ == old(self).pci_devices@,
                        self.changed == old(self).changed,
                        orig.len() + self.pci_devices@.len() <= u16::MAX,
                        msg@ == delay_err_msg(text@),
                        self.errors == usb_errs(usb_views(self.usb_devices@)) + pci_errs(
                            pci_views(self.pci_devices@),
                        ),
                        forall|j: int|
                            i <= j < orig.len() ==> usb_views(self.usb_devices@)[j] == orig[j],
                        forall|j: int|
                            0 <= j < i ==> usb_views(self.usb_devices@)[j] == usb_delay_err_upd(
                                orig[j],
                                id,
                                msg@,
                            ),
                    decreases self.usb_devices@.len() - i,
                {
                    let ghost prev = self.usb_devices@;
                    if self.usb_devices[i].id == id {
                        if self.usb_devices[i].delay_error.is_none() {
                            proof {
                                lemma_usb_errs_at(usb_views(prev), i as int);
                                lemma_pci_errs_bounds(pci_views(self.pci_devices@));
                            }
                            self.errors = self.errors + 1;
                        }
                        self.usb_devices[i].delay_error = Some(msg.clone());
                    }
                    proof {
                        assert(forall|j: int|
                            0 <= j < prev.len() && j != i ==> self.usb_devices@[j] == prev[j]);
                        assert(prev[i as int]@ == orig[i as int]);
                        assert(self.usb_devices@[i as int]@ == usb_delay_err_upd(
                            orig[i as int],
                            id,
                            msg@,
                        ));
                        assert(usb_views(self.usb_devices@) =~= usb_views(prev).update(
                            i as int,
                            self.usb_devices@[i as int]@,
                        ));
                        lemma_usb_errs_update(
                            usb_views(prev),
                            i as int,
                            self.usb_devices@[i as int]@,
                        );
                        assert forall|j: int| 0 <= j <= i implies usb_views(
                            self.usb_devices@,
                        )[j] == usb_delay_err_upd(orig[j], id, msg@) by {
                            if j < i {
                                assert(usb_views(prev)[j] == usb_delay_err_upd(orig[j], id, msg@));
                                assert(self.usb_devices@[j] == prev[j]);
                            }
                            assert(usb_views(self.usb_devices@)[j] == self.usb_devices@[j]@);
                        }
                    }
                    i = i + 1;
                }
                assert(usb_views(self.usb_devices@) =~= upd_usb_delay_err(
                    orig,
                    id,
                    delay_err_msg(text@),
                ));
            },
        }
        self.changed = true;
    }

    /// Validates and applies a delay edit for every PCI device with the
    /// given id, as `set_usb_delay` does for USB devices.
    pub fn set_pci_delay(&mut self, id: &String, text: &str)
        requires
            wf(old(self)@),
        ensures
            final(self)@.usb_devices == old(self)@.usb_devices,
            final(self)@.changed == true,
            wf(final(self)@),
            (match spec_parse_delay(text@) {
                Option::Some(ms) => final(self)@.pci_devices == upd_pci_delay_ok(
                    old(self)@.pci_devices,
                    id@,
                    ms,
                ),
                Option::None => final(self)@.pci_devices == upd_pci_delay_err(
                    old(self)@.pci_devices,
                    id@,
                    delay_err_msg(text@),
                ),
            }),
    {
        let ghost orig = old(self)@.pci_devices;
        match crate::delay::parse_delay(text) {
            Ok(ms) => {
                let mut i: usize = 0;
                while i < self.pci_devices.len()
                    invariant
                        0 <= i <= self.pci_devices@.len(),
                        self.pci_devices@.len() == orig.len(),
                        orig == old(self)@.pci_devices,
                        self.usb_devices@ == old(self).usb_devices@,
                        self.changed == old(self).changed,
                        orig.len() + self.usb_devices@.len() <= u16::MAX,
                        self.errors == usb_errs(usb_views(self.usb_devices@)) + pci_errs(
                            pci_views(self.pci_devices@),
                        ),
                        forall|j: int|
                            i <= j < orig.len() ==> pci_views(self.pci_devices@)[j] == orig[j],
                        forall|j: int|
                            0 <= j < i ==> pci_views(self.pci_devices@)[j] == pci_delay_ok_upd(
                                orig[j],
                                id@,
                                ms,
                            ),
                    decreases self.pci_devices@.len() - i,
                {
                    let ghost prev = self.pci_devices@;
                    if self.pci_devices[i].id == *id {
                        if self.pci_devices[i].delay_error.is_some() {
                            proof {
                                lemma_pci_errs_at(pci_views(prev), i as int);
                                lemma_usb_errs_bounds(usb_views(self.usb_devices@));
                            }
                            self.errors = self.errors - 1;
                        }
                        self.pci_devices[i].delay = ms;
                        self.pci_devices[i].delay_error = None;
                    }
                    proof {
                        assert(forall|j: int|
                            0 <= j < prev.len() && j != i ==> self.pci_devices@[j] == prev[j]);
                        assert(prev[i as int]@ == orig[i as int]);
                        assert(self.pci_devices@[i as int]@ == pci_delay_ok_upd(
                            orig[i as int],
                            id@,
                            ms,
                        ));
                        assert(pci_views(self.pci_devices@) =~= pci_views(prev).update(
                            i as int,
                            self.pci_devices@[i as int]@,
                        ));
                        lemma_pci_errs_update(
                            pci_views(prev),
                            i as int,
                            self.pci_devices@[i as int]@,
                        );
                        assert forall|j: int| 0 <= j <= i implies pci_views(
                            self.pci_devices@,
                        )[j] == pci_delay_ok_upd(orig[j], id@, ms) by {
                            if j < i {
                                assert(pci_views(prev)[j] == pci_delay_ok_upd(orig[j], id@, ms));
                                assert(self.pci_devices@[j] == prev[j]);
                            }
                            assert(pci_views(self.pci_devices@)[j] == self.pci_devices@[j]@);
                        }
                    }
                    i = i + 1;
                }
                assert(pci_views(self.pci_devices@) =~= upd_pci_delay_ok(orig, id@, ms));
            },
            Err(f) => {
                let msg = f.message();
                let mut i: usize = 0;
                while i < self.pci_devices.len()
                    invariant
                        0 <= i <= self.pci_devices@.len(),
                        self.pci_devices@.len() == orig.len(),
                        orig == old(self)@.pci_devices,
                        self.usb_devices@ == old(self).usb_devices@,
                        self.changed == old(self).changed,
                        orig.len() + self.usb_devices@.len() <= u16::MAX,
                        msg@ == delay_err_msg(text@),
                        self.errors == usb_errs(usb_views(self.usb_devices@)) + pci_errs(
                            pci_views(self.pci_devices@),
                        ),
                        forall|j: int|
                            i <= j < orig.len() ==> pci_views(self.pci_devices@)[j] == orig[j],
                        forall|j: int|
                            0 <= j < i ==> pci_views(self.pci_devices@)[j] == pci_delay_err_upd(
                                orig[j],
                                id@,
                                msg@,
                            ),
                    decreases self.pci_devices@.len() - i,
                {
                    let ghost prev = self.pci_devices@;
                    if self.pci_devices[i].id == *id {
                        if self.pci_devices[i].delay_error.is_none() {
                            proof {
                                lemma_pci_errs_at(pci_views(prev), i as int);
                                lemma_usb_errs_bounds(usb_views(self.usb_devices@));
                            }
                            self.errors = self.errors + 1;
                        }
                        self.pci_devices[i].delay_error = Some(msg.clone());
                    }
                    proof {
                        assert(forall|j: int|
                            0 <= j < prev.len() && j != i ==> self.pci_devices@[j] == prev[j]);
                        assert(prev[i as int]@ == orig[i as int]);
                        assert(self.pci_devices@[i as int]@ == pci_delay_err_upd(
                            orig[i as int],
                            id@,
                            msg@,
                        ));
                        assert(pci_views(self.pci_devices@) =~= pci_views(prev).update(
                            i as int,
                            self.pci_devices@[i as int]@,
                        ));
                        lemma_pci_errs_update(
                            pci_views(prev),
                            i as int,
                            self.pci_devices@[i as int]@,
                        );
                        assert forall|j: int| 0 <= j <= i implies pci_views(
                            self.pci_devices@,
                        )[j] == pci_delay_err_upd(orig[j], id@, msg@) by {
                            if j < i {
                                assert(pci_views(prev)[j] == pci_delay_err_upd(orig[j], id@, msg@));
                                assert(self.pci_devices@[j] == prev[j]);
                            }
                            assert(pci_views(self.pci_devices@)[j] == self.pci_devices@[j]@);
                        }
                    }
                    i = i + 1;
                }
                assert(pci_views(self.pci_devices@) =~= upd_pci_delay_err(
                    orig,
                    id@,
                    delay_err_msg(text@),
                ));
            },
        }
        self.changed = true;
    }

    /// The central action handler: applies one edit action to the state.
    pub fn process_action(&mut self, action: Action)
        requires
            wf(old(self)@),
        ensures
            wf(final(self)@),
            final(self)@.changed == true,
            (match action {
                Action::SetUsbAutoSuspend(id, on) => final(self)@.usb_devices == upd_usb_auto(
                    old(self)@.usb_devices,
                    id,
                    on,
                ) && final(self)@.pci_devices == old(self)@.pci_devices && final(self)@.errors
                    == old(self)@.errors,
                Action::SetUsbAutoSuspendDelay(id, text) => final(self)@.pci_devices == old(
                    self,
                )@.pci_devices && (match spec_parse_delay(text@) {
                    Option::Some(ms) => final(self)@.usb_devices == upd_usb_delay_ok(
                        old(self)@.usb_devices,
                        id,
                        ms,
                    ),
                    Option::None => final(self)@.usb_devices == upd_usb_delay_err(
                        old(self)@.usb_devices,
                        id,
                        delay_err_msg(text@),
                    ),
                }),
                Action::SetPciAutoSuspend(id, on) => final(self)@.pci_devices == upd_pci_auto(
                    old(self)@.pci_devices,
                    id@,
                    on,
                ) && final(self)@.usb_devices == old(self)@.usb_devices && final(self)@.errors
                    == old(self)@.errors,
                Action::SetPciAutoSuspendDelay(id, text) => final(self)@.usb_devices == old(
                    self,
                )@.usb_devices && (match spec_parse_delay(text@) {
                    Option::Some(ms) => final(self)@.pci_devices == upd_pci_delay_ok(
                        old(self)@.pci_devices,
                        id@,
                        ms,
                    ),
                    Option::None => final(self)@.pci_devices == upd_pci_delay_err(
                        old(self)@.pci_devices,
                        id@,
                        delay_err_msg(text@),
                    ),
                }),
            }),
    {
        match action {
            Action::SetUsbAutoSuspend(id, on) => self.set_usb_autosuspend(id, on),
            Action::SetUsbAutoSuspendDelay(id, text) => self.set_usb_delay(id, text.as_str()),
            Action::SetPciAutoSuspend(id, on) => self.set_pci_autosuspend(&id, on),
            Action::SetPciAutoSuspendDelay(id, text) => self.set_pci_delay(
                &id,
                text.as_str(),
            ),
        }
    }
}

/// One pending write of a small text file.
pub struct WriteOp {
    pub path: String,
    pub content: String,
}

pub struct WriteOpV {
    pub path: Seq<char>,
    pub content: Seq<char>,
}

impl View for WriteOp {
    type V = WriteOpV;

    open spec fn view(&self) -> WriteOpV {
        WriteOpV { path: self.path@, content: self.content@ }
    }
}

impl WriteOp {
    /// An identical copy of this write.
    pub fn cloned(&self) -> (r: WriteOp)
        ensures
            r@ == self@,
    {
        WriteOp { path: self.path.clone(), content: self.content.clone() }
    }
}

/// The two writes that persist one device's power settings, with a label
/// naming the device for error reports. The control file is always
/// written before the delay file.
pub struct DevicePlan {
    pub label: String,
    pub control: WriteOp,
    pub delay: WriteOp,
}

pub struct DevicePlanV {
    pub label: Seq<char>,
    pub control: WriteOpV,
    pub delay: WriteOpV,
}

impl View for DevicePlan {
    type V = DevicePlanV;

    open spec fn view(&self) -> DevicePlanV {
        DevicePlanV { label: self.label@, control: self.control@, delay: self.delay@ }
    }
}

/// The writes that persist one USB device: `auto` or `on` into its
/// control file, then its delay in decimal into its delay file.
pub open spec fn usb_plan(d: UsbDeviceV) -> DevicePlanV {
    DevicePlanV {
        label: d.char_device_path,
        control: WriteOpV {
            path: d.char_device_path + "/power/control"@,
            content: if d.autosuspend {
                "auto"@
            } else {
                "on"@
            },
        },
        delay: WriteOpV {
            path: d.char_device_path + "/power/autosuspend_delay_ms"@,
            content: crate::text::dec_digits_of(d.delay as nat),
        },
    }
}

/// The writes that persist one PCI device, labelled by its bus id.
pub open spec fn pci_plan(d: PciDeviceV) -> DevicePlanV {
    DevicePlanV {
        label: d.id,
        control: WriteOpV {
            path: d.device_path + "/power/control"@,
            content: if d.autosuspend {
                "auto"@
            } else {
                "on"@
            },
        },
        delay: WriteOpV {
            path: d.device_path + "/power/autosuspend_delay_ms"@,
            content: crate::text::dec_digits_of(d.delay as nat),
        },
    }
}

/// The whole apply plan: every USB device in collection order, then
/// every PCI device in collection order — deterministic for a given
/// state.
pub open spec fn plan_of(st: StateV) -> Seq<DevicePlanV> {
    st.usb_devices.map_values(|d: UsbDeviceV| usb_plan(d)) + st.pci_devices.map_values(
        |d: PciDeviceV| pci_plan(d),
    )
}

impl UsbDevice {
    /// The two writes that would persist this device's power settings.
    pub fn save_plan(&self) -> (r: DevicePlan)
        ensures
            r@ == usb_plan(self@),
    {
        let mut control_path = self.char_device_path.clone();
        control_path.append("/power/control");
        let mut delay_path = self.char_device_path.clone();
        delay_path.append("/power/autosuspend_delay_ms");
        let control_content = if self.autosuspend {
            String::from_str("auto")
        } else {
            String::from_str("on")
        };
        DevicePlan {
            label: self.char_device_path.clone(),
            control: WriteOp { path: control_path, content: control_content },
            delay: WriteOp {
                path: delay_path,
                content: crate::text::u64_to_dec_string(self.delay),
            },
        }
    }
}

impl PciDevice {
    /// The two writes that would persist this device's power settings.
    pub fn save_plan(&self) -> (r: DevicePlan)
        ensures
            r@ == pci_plan(self@),
    {
        let mut control_path = self.device_path.clone();
        control_path.append("/power/control");
        let mut delay_path = self.device_path.clone();
        delay_path.append("/power/autosuspend_delay_ms");
        let control_content = if self.autosuspend {
            String::from_str("auto")
        } else {
            String::from_str("on")
        };
        DevicePlan {
            label: self.id.clone(),
            control: WriteOp { path: control_path, content: control_content },
            delay: WriteOp {
                path: delay_path,
                content: crate::text::u64_to_dec_string(self.delay),
            },
        }
    }
}

impl State {
    /// The deterministic apply plan for the current collections, per
    /// `plan_of`.
    pub fn plan(&self) -> (r: Vec<DevicePlan>)
        ensures
            r@.map_values(|p: DevicePlan| p@) == plan_of(self@),
    {
        let mut out: Vec<DevicePlan> = Vec::new();
        let mut i: usize = 0;
        assert(out@.map_values(|p: DevicePlan| p@) =~= Seq::<DevicePlanV>::empty());
        while i < self.usb_devices.len()
            invariant
                0 <= i <= self.usb_devices@.len(),
                out@.map_values(|p: DevicePlan| p@) == usb_views(self.usb_devices@).take(
                    i as int,
                ).map_values(|d: UsbDeviceV| usb_plan(d)),
            decreases self.usb_devices@.len() - i,
        {
            let ghost pre = out@.map_values(|p: DevicePlan| p@);
            out.push(self.usb_devices[i].save_plan());
            proof {
                assert(out@.map_values(|p: DevicePlan| p@) =~= pre.push(out@.last()@));
                assert(usb_views(self.usb_devices@).take(i + 1 as int).map_values(
                    |d: UsbDeviceV| usb_plan(d),
                ) =~= pre.push(out@.last()@));
            }
            i = i + 1;
        }
        let mut j: usize = 0;
        assert(usb_views(self.usb_devices@).take(self.usb_devices@.len() as int) =~= usb_views(
            self.usb_devices@,
        ));
        while j < self.pci_devices.len()
            invariant
                0 <= j <= self.pci_devices@.len(),
                out@.map_values(|p: DevicePlan| p@) == usb_views(self.usb_devices@).map_values(
                    |d: UsbDeviceV| usb_plan(d),
                ) + pci_views(self.pci_devices@).take(j as int).map_values(
                    |d: PciDeviceV| pci_plan(d),
                ),
            decreases self.pci_devices@.len() - j,
        {
            let ghost pre = out@.map_values(|p: DevicePlan| p@);
            out.push(self.pci_devices[j].save_plan());
            proof {
                assert(out@.map_values(|p: DevicePlan| p@) =~= pre.push(out@.last()@));
                assert(usb_views(self.usb_devices@).map_values(|d: UsbDeviceV| usb_plan(d))
                    + pci_views(self.pci_devices@).take(j + 1 as int).map_values(
                    |d: PciDeviceV| pci_plan(d),
                ) =~= pre.push(out@.last()@));
            }
            j = j + 1;
        }
        proof {
            assert(pci_views(self.pci_devices@).take(self.pci_devices@.len() as int)
                =~= pci_views(self.pci_devices@));
        }
        out
    }
}

/// A failed write during apply: the device's label, the file, and the
/// writer's message.
pub struct ApplyError {
    pub device: String,
    pub path: String,
    pub message: String,
}

pub struct ApplyErrorV {
    pub device: Seq<char>,
    pub path: Seq<char>,
    pub message: Seq<char>,
}

impl View for ApplyError {
    type V = ApplyErrorV;

    open spec fn view(&self) -> ApplyErrorV {
        ApplyErrorV { device: self.device@, path: self.path@, message: self.message@ }
    }
}

/// The apply protocol walked together with the collaborator that
/// performs the writes: the caller takes `current()`, performs that one
/// write, and hands the outcome to `report()` until `done()`. A failed
/// control write skips that device's delay write; every later device is
/// still attempted; the first failure overall is recorded.
pub struct ApplyProgress {
    pub plan: Vec<DevicePlan>,
    pub dev: usize,
    pub in_delay: bool,
    pub first_error: Option<ApplyError>,
}

pub struct ApplyProgressV {
    pub plan: Seq<DevicePlanV>,
    pub dev: int,
    pub in_delay: bool,
    pub first_error: Option<ApplyErrorV>,
}

impl View for ApplyProgress {
    type V = ApplyProgressV;

    open spec fn view(&self) -> ApplyProgressV {
        ApplyProgressV {
            plan: self.plan@.map_values(|p: DevicePlan| p@),
            dev: self.dev as int,
            in_delay: self.in_delay,
            first_error: match self.first_error {
                Option::Some(e) => Option::Some(e@),
                Option::None => Option::None,
            },
        }
    }
}

pub open spec fn outcome_view(o: Result<(), String>) -> Result<(), Seq<char>> {
    match o {
        Result::Ok(u) => Result::Ok(u),
        Result::Err(m) => Result::Err(m@),
    }
}

/// How one `report` call advances the protocol: a successful control
/// write moves to the same device's delay write; a failed one skips to
/// the next device, recording the failure if it is the first; a delay
/// outcome moves to the next device, recording a failure likewise.
pub open spec fn report_rel(
    pre: ApplyProgressV,
    outcome: Result<(), Seq<char>>,
    post: ApplyProgressV,
) -> bool {
    &&& post.plan == pre.plan
    &&& 0 <= pre.dev < pre.plan.len()
    &&& if !pre.in_delay {
        match outcome {
            Result::Ok(_) => post.dev == pre.dev && post.in_delay && post.first_error
                == pre.first_error,
            Result::Err(m) => post.dev == pre.dev + 1 && !post.in_delay && post.first_error
                == (if pre.first_error is Some {
                pre.first_error
            } else {
                Option::Some(
                    ApplyErrorV {
                        device: pre.plan[pre.dev].label,
                        path: pre.plan[pre.dev].control.path,
                        message: m,
                    },
                )
            }),
        }
    } else {
        match outcome {
            Result::Ok(_) => post.dev == pre.dev + 1 && !post.in_delay && post.first_error
                == pre.first_error,
            Result::Err(m) => post.dev == pre.dev + 1 && !post.in_delay && post.first_error
                == (if pre.first_error is Some {
                pre.first_error
            } else {
                Option::Some(
                    ApplyErrorV {
                        device: pre.plan[pre.dev].label,
                        path: pre.plan[pre.dev].delay.path,
                        message: m,
                    },
                )
            }),
        }
    }
}

impl ApplyProgress {
    /// Starts the protocol at the first device's control write.
    pub fn new(plan: Vec<DevicePlan>) -> (r: ApplyProgress)
        ensures
            r@.plan == plan@.map_values(|p: DevicePlan| p@),
            r@.dev == 0,
            r@.in_delay == false,
            r@.first_error is None,
    {
        ApplyProgress { plan, dev: 0, in_delay: false, first_error: None }
    }

    /// Whether every device has been handled.
    pub fn done(&self) -> (r: bool)
        ensures
            r == (self@.dev >= self@.plan.len()),
    {
        self.dev >= self.plan.len()
    }

    /// The next write to perform: the current device's control write,
    /// then, once that succeeded, its delay write.
    pub fn current(&self) -> (r: WriteOp)
        requires
            self@.dev < self@.plan.len(),
        ensures
            r@ == (if self@.in_delay {
                self@.plan[self@.dev].delay
            } else {
                self@.plan[self@.dev].control
            }),
    {
        if self.in_delay {
            self.plan[self.dev].delay.cloned()
        } else {
            self.plan[self.dev].control.cloned()
        }
    }

    /// Records the outcome of the write last handed out, per
    /// `report_rel`.
    pub fn report(&mut self, outcome: Result<(), String>)
        requires
            old(self)@.dev < old(self)@.plan.len(),
        ensures
            report_rel(old(self)@, outcome_view(outcome), final(self)@),
    {
        let n = self.plan.len();
        assert(self@.dev < n as int);
        match outcome {
            Ok(_) => {
                if !self.in_delay {
                    self.in_delay = true;
                } else {
                    self.in_delay = false;
                    self.dev = self.dev + 1;
                }
            },
            Err(m) => {
                if self.first_error.is_none() {
                    let device = self.plan[self.dev].label.clone();
                    let path = if self.in_delay {
                        self.plan[self.dev].delay.path.clone()
                    } else {
                        self.plan[self.dev].control.path.clone()
                    };
                    self.first_error = Some(ApplyError { device, path, message: m });
                }
                self.in_delay = false;
                self.dev = self.dev + 1;
            },
        }
    }

    /// The first failure recorded so far, if any.
    pub fn error(&self) -> (r: &Option<ApplyError>)
        ensures
            r == &self.first_error,
    {
        &self.first_error
    }
}

pub open spec fn cleared_usb(s: Seq<UsbDeviceV>) -> Seq<UsbDeviceV> {
    s.map_values(|d: UsbDeviceV| UsbDeviceV { delay_error: Option::None, ..d })
}

pub open spec fn cleared_pci(s: Seq<PciDeviceV>) -> Seq<PciDeviceV> {
    s.map_values(|d: PciDeviceV| PciDeviceV { delay_error: Option::None, ..d })
}

/// The state after a fully successful apply: the same devices with
/// their validation flags cleared, no unsaved changes, no errors.
pub open spec fn after_apply_success(st: StateV) -> StateV {
    StateV {
        usb_devices: cleared_usb(st.usb_devices),
        pci_devices: cleared_pci(st.pci_devices),
        changed: false,
        errors: 0,
    }
}

proof fn lemma_cleared_usb_errs(s: Seq<UsbDeviceV>)
    ensures
        usb_errs(cleared_usb(s)) == 0,
    decreases s.len(),
{
    let t = cleared_usb(s);
    if s.len() > 0 {
        lemma_cleared_usb_errs(s.drop_last());
        assert(t.drop_last() =~= cleared_usb(s.drop_last()));
        assert(t.last() == (UsbDeviceV { delay_error: Option::None, ..s.last() }));
    } else {
        assert(t =~= Seq::<UsbDeviceV>::empty());
    }
}

proof fn lemma_cleared_pci_errs(s: Seq<PciDeviceV>)
    ensures
        pci_errs(cleared_pci(s)) == 0,
    decreases s.len(),
{
    let t = cleared_pci(s);
    if s.len() > 0 {
        lemma_cleared_pci_errs(s.drop_last());
        assert(t.drop_last() =~= cleared_pci(s.drop_last()));
        assert(t.last() == (PciDeviceV { delay_error: Option::None, ..s.last() }));
    } else {
        assert(t =~= Seq::<PciDeviceV>::empty());
    }
}

impl State {
    /// Closes one apply pass. On full success the changed flag and
    /// error count reset and the per-device validation flags are
    /// cleared; on failure the state is left exactly as it was, for the
    /// whole apply to be retried.
    pub fn finish_apply(&mut self, success: bool)
        requires
            wf(old(self)@),
        ensures
            success ==> final(self)@ == after_apply_success(old(self)@),
            !success ==> final(self)@ == old(self)@,
            wf(final(self)@),
    {
        if !success {
            return ;
        }
        let ghost orig = old(self)@.usb_devices;
        let mut i: usize = 0;
        while i < self.usb_devices.len()
            invariant
                0 <= i <= self.usb_devices@.len(),
                self.usb_devices@.len() == orig.len(),
                orig == old(self)@.usb_devices,
                self.pci_devices@ == old(self).pci_devices@,
                self.changed == old(self).changed,
                self.errors == old(self).errors,
                forall|j: int|
                    i <= j < orig.len() ==> usb_views(self.usb_devices@)[j] == orig[j],
                forall|j: int|
                    0 <= j < i ==> usb_views(self.usb_devices@)[j] == (UsbDeviceV {
                        delay_error: Option::None,
                        ..orig[j]
                    }),
            decreases self.usb_devices@.len() - i,
        {
            let ghost prev = self.usb_devices@;
            self.usb_devices[i].delay_error = None;
            proof {
                assert(forall|j: int|
                    0 <= j < prev.len() && j != i ==> self.usb_devices@[j] == prev[j]);
                assert(prev[i as int]@ == orig[i as int]);
                assert forall|j: int| 0 <= j <= i implies usb_views(self.usb_devices@)[j]
                    == (UsbDeviceV { delay_error: Option::None, ..orig[j] }) by {
                    if j < i {
                        assert(usb_views(prev)[j] == (UsbDeviceV {
                            delay_error: Option::None,
                            ..orig[j]
                        }));
                        assert(self.usb_devices@[j] == prev[j]);
                    }
                    assert(usb_views(self.usb_devices@)[j] == self.usb_devices@[j]@);
                }
            }
            i = i + 1;
        }
        let ghost porig = old(self)@.pci_devices;
        let mut k: usize = 0;
        while k < self.pci_devices.len()
            invariant
                0 <= k <= self.pci_devices@.len(),
                self.pci_devices@.len() == porig.len(),
                porig == old(self)@.pci_devices,
                usb_views(self.usb_devices@) == cleared_usb(orig),
                orig == old(self)@.usb_devices,
                self.changed == old(self).changed,
                self.errors == old(self).errors,
                forall|j: int|
                    k <= j < porig.len() ==> pci_views(self.pci_devices@)[j] == porig[j],
                forall|j: int|
                    0 <= j < k ==> pci_views(self.pci_devices@)[j] == (PciDeviceV {
                        delay_error: Option::None,
                        ..porig[j]
                    }),
            decreases self.pci_devices@.len() - k,
        {
            let ghost prev = self.pci_devices@;
            self.pci_devices[k].delay_error = None;
            proof {
                assert(forall|j: int|
                    0 <= j < prev.len() && j != k ==> self.pci_devices@[j] == prev[j]);
                assert(prev[k as int]@ == porig[k as int]);
                assert forall|j: int| 0 <= j <= k implies pci_views(self.pci_devices@)[j]
                    == (PciDeviceV { delay_error: Option::None, ..porig[j] }) by {
                    if j < k {
                        assert(pci_views(prev)[j] == (PciDeviceV {
                            delay_error: Option::None,
                            ..porig[j]
                        }));
                        assert(self.pci_devices@[j] == prev[j]);
                    }
                    assert(pci_views(self.pci_devices@)[j] == self.pci_devices@[j]@);
                }
            }
            k = k + 1;
        }
        self.changed = false;
        self.errors = 0;
        proof {
            assert(usb_views(self.usb_devices@) =~= cleared_usb(orig));
            assert(pci_views(self.pci_devices@) =~= cleared_pci(porig));
            lemma_cleared_usb_errs(orig);
            lemma_cleared_pci_errs(porig);
        }
    }
}

/// The number of devices that currently allow autosuspend.
pub open spec fn usb_susp_count(s: Seq<UsbDeviceV>) -> int
    decreases s.len(),
{
    if s.len() == 0 {
        0
    } else {
        usb_susp_count(s.drop_last()) + if s.last().autosuspend {
            1int
        } else {
            0int
        }
    }
}

/// The number of devices that currently allow autosuspend.
pub open spec fn pci_susp_count(s: Seq<PciDeviceV>) -> int
    decreases s.len(),
{
    if s.len() == 0 {
        0
    } else {
        pci_susp_count(s.drop_last()) + if s.last().autosuspend {
            1int
        } else {
            0int
        }
    }
}

impl State {
    /// How many devices allow autosuspend, and how many there are, per
    /// bus: the numbers behind the summary pane.
    pub fn summary_counts(&self) -> (r: (usize, usize, usize, usize))
        ensures
            r.0 == usb_susp_count(self@.usb_devices),
            r.1 == self@.usb_devices.len(),
            r.2 == pci_susp_count(self@.pci_devices),
            r.3 == self@.pci_devices.len(),
    {
        let mut usb_on: usize = 0;
        let mut i: usize = 0;
        while i < self.usb_devices.len()
            invariant
                0 <= i <= self.usb_devices@.len(),
                usb_on == usb_susp_count(usb_views(self.usb_devices@).take(i as int)),
                usb_on <= i,
            decreases self.usb_devices@.len() - i,
        {
            let ghost pre = usb_views(self.usb_devices@).take(i as int);
            let ghost cur = usb_views(self.usb_devices@).take(i + 1 as int);
            proof {
                assert(cur.drop_last() =~= pre);
                assert(cur.last() == self.usb_devices@[i as int]@);
            }
            if self.usb_devices[i].autosuspend {
                usb_on = usb_on + 1;
            }
            i = i + 1;
        }
        assert(usb_views(self.usb_devices@).take(self.usb_devices@.len() as int) =~= usb_views(
            self.usb_devices@,
        ));
        let mut pci_on: usize = 0;
        let mut k: usize = 0;
        while k < self.pci_devices.len()
            invariant
                0 <= k <= self.pci_devices@.len(),
                pci_on == pci_susp_count(pci_views(self.pci_devices@).take(k as int)),
                pci_on <= k,
            decreases self.pci_devices@.len() - k,
        {
            let ghost pre = pci_views(self.pci_devices@).take(k as int);
            let ghost cur = pci_views(self.pci_devices@).take(k + 1 as int);
            proof {
                assert(cur.drop_last() =~= pre);
                assert(cur.last() == self.pci_devices@[k as int]@);
            }
            if self.pci_devices[k].autosuspend {
                pci_on = pci_on + 1;
            }
            k = k + 1;
        }
        assert(pci_views(self.pci_devices@).take(self.pci_devices@.len() as int) =~= pci_views(
            self.pci_devices@,
        ));
        (usb_on, self.usb_devices.len(), pci_on, self.pci_devices.len())
    }
}

/// Applying twice in a row performs the same writes: a successful apply
/// resets only the bookkeeping, so the plan for a second apply equals
/// the plan the first apply ran, and with a writer that keeps
/// succeeding the second pass succeeds too.
pub proof fn lemma_apply_idempotent(st: StateV)
    ensures
        plan_of(after_apply_success(st)) == plan_of(st),
{
    let a = plan_of(after_apply_success(st));
    let b = plan_of(st);
    assert forall|j: int| 0 <= j < b.len() implies a[j] == b[j] by {
        if j < st.usb_devices.len() {
            assert(cleared_usb(st.usb_devices)[j] == (UsbDeviceV {
                delay_error: Option::None,
                ..st.usb_devices[j]
            }));
        } else {
            let k = j - st.usb_devices.len();
            assert(cleared_pci(st.pci_devices)[k] == (PciDeviceV {
                delay_error: Option::None,
                ..st.pci_devices[k]
            }));
        }
    }
    assert(a =~= b);
}

/// Per-device writes are strictly ordered: the protocol hands out a
/// device's delay write only right after that same device's control
/// write succeeded.
pub proof fn lemma_control_before_delay(
    pre: ApplyProgressV,
    outcome: Result<(), Seq<char>>,
    post: ApplyProgressV,
)
    requires
        report_rel(pre, outcome, post),
        post.in_delay,
    ensures
        !pre.in_delay,
        outcome is Ok,
        post.dev == pre.dev,
{
}

/// Partial failure: when one device's two writes succeeded and the next
/// device's control write then fails, the recorded error names that
/// failing device and its control file, and the protocol has moved past
/// it — it never issues another write for the device that succeeded, so
/// its persisted values remain.
pub proof fn lemma_partial_failure(
    p0: ApplyProgressV,
    p1: ApplyProgressV,
    p2: ApplyProgressV,
    p3: ApplyProgressV,
    m: Seq<char>,
)
    requires
        !p0.in_delay,
        p0.first_error is None,
        0 <= p0.dev,
        p0.dev + 1 < p0.plan.len(),
        report_rel(p0, Ok(()), p1),
        report_rel(p1, Ok(()), p2),
        report_rel(p2, Err(m), p3),
    ensures
        p3.first_error == Some(
            ApplyErrorV {
                device: p0.plan[p0.dev + 1].label,
                path: p0.plan[p0.dev + 1].control.path,
                message: m,
            },
        ),
        p3.dev == p0.dev + 2,
{
}

/// Toggling autosuspend does not touch validation errors.
proof fn lemma_errs_unchanged_usb_auto(s: Seq<UsbDeviceV>, id: u32, on: bool)
    ensures
        usb_errs(upd_usb_auto(s, id, on)) == usb_errs(s),
    decreases s.len(),
{
    let t = upd_usb_auto(s, id, on);
    if s.len() > 0 {
        lemma_errs_unchanged_usb_auto(s.drop_last(), id, on);
        assert(t.drop_last() =~= upd_usb_auto(s.drop_last(), id, on));
        assert(t.last() == usb_auto_upd(s.last(), id, on));
    } else {
        assert(t =~= Seq::<UsbDeviceV>::empty());
    }
}

/// Toggling autosuspend does not touch validation errors.
proof fn lemma_errs_unchanged_pci_auto(s: Seq<PciDeviceV>, id: Seq<char>, on: bool)
    ensures
        pci_errs(upd_pci_auto(s, id, on)) == pci_errs(s),
    decreases s.len(),
{
    let t = upd_pci_auto(s, id, on);
    if s.len() > 0 {
        lemma_errs_unchanged_pci_auto(s.drop_last(), id, on);
        assert(t.drop_last() =~= upd_pci_auto(s.drop_last(), id, on));
        assert(t.last() == pci_auto_upd(s.last(), id, on));
    } else {
        assert(t =~= Seq::<PciDeviceV>::empty());
    }
}

} // verus!
