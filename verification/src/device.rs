//! Printer models on the USB bus and what they can do.

use vstd::prelude::*;

use crate::error::{outcome, ErrorModel, PtouchError};

verus! {

/// USB vendor identifier of Brother.
pub const BROTHER_VENDOR_ID: u16 = 0x04f9;

/// What a printer model supports or demands, one bit each.
#[derive(Debug, Clone, Copy, PartialEq, Eq, Structural)]
pub struct DeviceFlags {
    pub bits: u32,
}

impl DeviceFlags {
    /// No special behaviour.
    pub const NONE: u32 = 0;
    /// The printer is in PLite mode and takes no print jobs.
    pub const PLITE: u32 = 1;
    /// The printer takes no raster data.
    pub const UNSUP_RASTER: u32 = 2;
    /// The printer can report its phase changes by itself.
    pub const AUTO_STATUS_NOTIFICATION: u32 = 4;
    /// The printer announces when it can receive the next page.
    pub const WAIT_FOR_RECEIVE_READY: u32 = 8;
    /// The printer has a high-resolution print mode.
    pub const LEGACY_HIRES: u32 = 16;
    /// The printer can cut the tape ahead of the label.
    pub const HAS_PRECUT: u32 = 32;
    /// The printer wants a print information command before the raster data.
    pub const USE_INFO_CMD: u32 = 64;

    /// Whether every bit of `mask` is set.
    pub open spec fn has(self, mask: u32) -> bool {
        self.bits & mask == mask
    }

    /// Whether every bit of `mask` is set.
    pub fn contains(self, mask: u32) -> (r: bool)
        ensures
            r == self.has(mask),
    {
        self.bits & mask == mask
    }
}

/// A supported printer model.
#[derive(Debug, Clone, Copy)]
pub struct DeviceInfo {
    pub vid: u16,
    pub pid: u16,
    pub name: &'static str,
    pub max_px: u16,
    pub dpi: u16,
    pub flags: DeviceFlags,
}

impl DeviceInfo {
    /// Whether the model takes print jobs at all.
    pub open spec fn printable(self) -> bool {
        !self.flags.has(DeviceFlags::PLITE) && !self.flags.has(DeviceFlags::UNSUP_RASTER)
    }

    /// Whether the model has the given identifiers.
    pub open spec fn identified_by(self, vid: u16, pid: u16) -> bool {
        self.vid == vid && self.pid == pid
    }
}

/// The first entry of `table` with the given identifiers.
pub open spec fn lookup(table: Seq<DeviceInfo>, vid: u16, pid: u16) -> Option<DeviceInfo>
    decreases table.len(),
{
    if table.len() == 0 {
        None
    } else if table[0].identified_by(vid, pid) {
        Some(table[0])
    } else {
        lookup(table.drop_first(), vid, pid)
    }
}

/// Look a printer model up by its USB identifiers.
pub fn find_device(table: &[DeviceInfo], vid: u16, pid: u16) -> (r: Option<DeviceInfo>)
    ensures
        r == lookup(table@, vid, pid),
        r matches Some(info) ==> info.vid == vid && info.pid == pid,
        r is None ==> forall|j: int|
            0 <= j < table@.len() ==> (#[trigger] table@[j]).vid != vid || table@[j].pid != pid,
{
    let mut i: usize = 0;
    assert(table@.skip(0) =~= table@);
    while i < table.len()
        invariant
            i <= table@.len(),
            lookup(table@, vid, pid) == lookup(table@.skip(i as int), vid, pid),
            forall|j: int|
                0 <= j < i ==> (#[trigger] table@[j]).vid != vid || table@[j].pid != pid,
        decreases table@.len() - i,
    {
        let info: DeviceInfo = table[i];
        if info.vid == vid && info.pid == pid {
            return Some(info);
        }
        assert(table@.skip(i as int).drop_first() =~= table@.skip(i + 1));
        i = i + 1;
    }
    None
}

/// What opening the model with the given identifiers comes to, before any USB
/// transfer.
pub open spec fn admitted(table: Seq<DeviceInfo>, vid: u16, pid: u16) -> Result<
    DeviceInfo,
    ErrorModel,
> {
    match lookup(table, vid, pid) {
        None => Err(ErrorModel::DeviceNotFound),
        Some(info) => if info.flags.has(DeviceFlags::PLITE) {
            Err(ErrorModel::PLiteMode(info.name@))
        } else if info.flags.has(DeviceFlags::UNSUP_RASTER) {
            Err(ErrorModel::UnsupportedRaster(info.name@))
        } else {
            Ok(info)
        },
    }
}

/// Decide whether the model with the given identifiers may be opened.
pub fn select_device(table: &[DeviceInfo], vid: u16, pid: u16) -> (r: Result<
    DeviceInfo,
    PtouchError,
>)
    ensures
        outcome(r) == admitted(table@, vid, pid),
{
    match find_device(table, vid, pid) {
        None => Err(PtouchError::DeviceNotFound),
        Some(info) => {
            if info.flags.contains(DeviceFlags::PLITE) {
                Err(PtouchError::PLiteMode(info.name.to_string()))
            } else if info.flags.contains(DeviceFlags::UNSUP_RASTER) {
                Err(PtouchError::UnsupportedRaster(info.name.to_string()))
            } else {
                Ok(info)
            }
        },
    }
}

/// Whether a device on the bus is a Brother printer that takes print jobs.
pub open spec fn eligible(table: Seq<DeviceInfo>, vid: u16, pid: u16) -> bool {
    vid == BROTHER_VENDOR_ID && match lookup(table, vid, pid) {
        Some(info) => info.printable(),
        None => false,
    }
}

/// The position of the first printer on the bus that can be opened, where
/// `bus` lists the vendor and product identifiers in bus order.
pub fn first_printer(table: &[DeviceInfo], bus: &[(u16, u16)]) -> (r: Option<usize>)
    ensures
        match r {
            Some(i) => {
                &&& i < bus@.len()
                &&& eligible(table@, bus@[i as int].0, bus@[i as int].1)
                &&& forall|j: int|
                    0 <= j < i ==> !eligible(table@, #[trigger] bus@[j].0, bus@[j].1)
            },
            None => forall|j: int|
                0 <= j < bus@.len() ==> !eligible(table@, #[trigger] bus@[j].0, bus@[j].1),
        },
{
    let mut i: usize = 0;
    while i < bus.len()
        invariant
            i <= bus@.len(),
            forall|j: int| 0 <= j < i ==> !eligible(table@, #[trigger] bus@[j].0, bus@[j].1),
        decreases bus@.len() - i,
    {
        let (vid, pid): (u16, u16) = bus[i];
        if vid == BROTHER_VENDOR_ID {
            if let Some(info) = find_device(table, vid, pid) {
                if !info.flags.contains(DeviceFlags::PLITE) && !info.flags.contains(
                    DeviceFlags::UNSUP_RASTER,
                ) {
                    return Some(i);
                }
            }
        }
        i = i + 1;
    }
    None
}

/// A printer that [`first_printer`] accepts is never refused when it is opened.
pub proof fn law_eligible_printer_is_admitted(table: Seq<DeviceInfo>, vid: u16, pid: u16)
    requires
        eligible(table, vid, pid),
    ensures
        admitted(table, vid, pid) is Ok,
        admitted(table, vid, pid)->Ok_0.identified_by(vid, pid),
{
    lemma_lookup_matches(table, vid, pid);
}

proof fn lemma_lookup_matches(table: Seq<DeviceInfo>, vid: u16, pid: u16)
    ensures
        lookup(table, vid, pid) matches Some(info) ==> info.identified_by(vid, pid),
    decreases table.len(),
{
    if table.len() > 0 && !table[0].identified_by(vid, pid) {
        lemma_lookup_matches(table.drop_first(), vid, pid);
    }
}

/// A model is looked up in the order of the table: what is found is the first
/// entry with both identifiers, and nothing is found only where no entry has them.
pub proof fn law_lookup_finds_first_entry(table: Seq<DeviceInfo>, vid: u16, pid: u16)
    ensures
        match lookup(table, vid, pid) {
            Some(info) => exists|i: int|
                0 <= i < table.len() && #[trigger] table[i] == info && info.vid == vid && info.pid
                    == pid && forall|j: int|
                    0 <= j < i ==> (#[trigger] table[j]).vid != vid || table[j].pid != pid,
            None => forall|j: int|
                0 <= j < table.len() ==> (#[trigger] table[j]).vid != vid || table[j].pid != pid,
        },
    decreases table.len(),
{
    if table.len() > 0 {
        if table[0].identified_by(vid, pid) {
            assert(table[0].vid == vid);
        } else {
            let rest = table.drop_first();
            law_lookup_finds_first_entry(rest, vid, pid);
            match lookup(rest, vid, pid) {
                Some(info) => {
                    let i = choose|i: int|
                        0 <= i < rest.len() && #[trigger] rest[i] == info && info.vid == vid
                            && info.pid == pid && forall|j: int|
                            0 <= j < i ==> (#[trigger] rest[j]).vid != vid || rest[j].pid != pid;
                    assert(table[i + 1] == info);
                    assert forall|j: int| 0 <= j < i + 1 implies (#[trigger] table[j]).vid != vid
                        || table[j].pid != pid by {
                        if j > 0 {
                            assert(rest[j - 1] == table[j]);
                        }
                    }
                },
                None => {
                    assert forall|j: int| 0 <= j < table.len() implies (#[trigger] table[j]).vid
                        != vid || table[j].pid != pid by {
                        if j > 0 {
                            assert(rest[j - 1] == table[j]);
                        }
                    }
                },
            }
        }
    }
}

/// Opening is decided by the entry that is looked up. Without one no device is
/// found. A model in PLite mode, or else one that takes no raster data, is
/// refused by its name, and every other one is admitted as the table has it.
pub proof fn law_admission(table: Seq<DeviceInfo>, vid: u16, pid: u16)
    ensures
        match admitted(table, vid, pid) {
            Ok(info) => {
                &&& lookup(table, vid, pid) == Some(info)
                &&& info.flags.bits & 1 == 0
                &&& info.flags.bits & 2 == 0
            },
            Err(ErrorModel::DeviceNotFound) => lookup(table, vid, pid) is None,
            Err(ErrorModel::PLiteMode(name)) => lookup(table, vid, pid) matches Some(info)
                && info.flags.bits & 1 != 0 && name == info.name@,
            Err(ErrorModel::UnsupportedRaster(name)) => lookup(table, vid, pid) matches Some(info)
                && info.flags.bits & 1 == 0 && info.flags.bits & 2 != 0 && name == info.name@,
            _ => false,
        },
{
    if let Some(info) = lookup(table, vid, pid) {
        let bits = info.flags.bits;
        assert((bits & 1 == 1 || bits & 1 == 0) && (bits & 2 == 2 || bits & 2 == 0))
            by (bit_vector);
    }
}

/// The printer that is opened first is a Brother one that would not be refused.
pub proof fn law_eligible_means_brother_and_admitted(table: Seq<DeviceInfo>, vid: u16, pid: u16)
    ensures
        eligible(table, vid, pid) <==> vid == 0x04f9 && admitted(table, vid, pid) is Ok,
{
}

/// Two sets of flags are all there if and only if each of them is, and no flags
/// at all are always there.
pub proof fn law_flags_combine(flags: DeviceFlags, a: u32, b: u32)
    ensures
        flags.has(a | b) <==> flags.has(a) && flags.has(b),
        flags.has(0),
        flags.has(flags.bits),
{
    let bits = flags.bits;
    assert((bits & (a | b) == a | b) <==> (bits & a == a && bits & b == b)) by (bit_vector);
    assert(bits & 0 == 0 && bits & bits == bits) by (bit_vector);
}

/// A flag is there or not whatever the other flags are.
pub proof fn law_flags_are_independent(flags: DeviceFlags, k: u32, l: u32)
    requires
        k < 32,
        l < 32,
        k != l,
    ensures
        (DeviceFlags { bits: flags.bits | 1u32 << k }).has(1u32 << k),
        !(DeviceFlags { bits: flags.bits & !(1u32 << k) }).has(1u32 << k),
        (DeviceFlags { bits: flags.bits | 1u32 << k }).has(1u32 << l) <==> flags.has(1u32 << l),
        (DeviceFlags { bits: flags.bits & !(1u32 << k) }).has(1u32 << l) <==> flags.has(1u32 << l),
{
    let bits = flags.bits;
    assert((bits | 1u32 << k) & (1u32 << k) == 1u32 << k) by (bit_vector);
    assert((bits & !(1u32 << k)) & (1u32 << k) != 1u32 << k) by (bit_vector)
        requires
            k < 32,
    ;
    assert((bits | 1u32 << k) & (1u32 << l) == bits & (1u32 << l)) by (bit_vector)
        requires
            k < 32,
            l < 32,
            k != l,
    ;
    assert((bits & !(1u32 << k)) & (1u32 << l) == bits & (1u32 << l)) by (bit_vector)
        requires
            k < 32,
            l < 32,
            k != l,
    ;
}

/// Each flag is a power of two of its own.
pub proof fn law_each_flag_is_a_bit()
    ensures
        DeviceFlags::NONE == 0,
        DeviceFlags::PLITE == 1,
        DeviceFlags::UNSUP_RASTER == 2,
        DeviceFlags::AUTO_STATUS_NOTIFICATION == 4,
        DeviceFlags::WAIT_FOR_RECEIVE_READY == 8,
        DeviceFlags::LEGACY_HIRES == 16,
        DeviceFlags::HAS_PRECUT == 32,
        DeviceFlags::USE_INFO_CMD == 64,
{
}

} // verus!
