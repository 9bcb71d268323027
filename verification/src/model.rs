//! Model capabilities independent of connection identifiers.

use vstd::prelude::*;

use crate::device::{DeviceFlags, DeviceInfo};
use crate::tape;

verus! {

/// The command dialect a printer speaks.
#[derive(Debug, Clone, Copy, PartialEq, Eq, Structural)]
pub enum Dialect {
    Usb,
    P300Bt,
}

/// What a session has to know about a printer model.
#[derive(Debug, Clone, Copy)]
pub struct ModelProfile {
    pub dialect: Dialect,
    pub name: &'static str,
    /// Raster transfer width, separate from the printable width.
    pub raster_width_px: u16,
    pub dpi: u16,
    pub flags: DeviceFlags,
}

impl ModelProfile {
    /// Printable dots on a tape of the given width.
    pub open spec fn printable_px(self, width_mm: u8) -> Option<u16> {
        match self.dialect {
            Dialect::Usb => match tape::pixels(width_mm, self.dpi) {
                Some(px) => Some(
                    if px <= self.raster_width_px {
                        px as u16
                    } else {
                        self.raster_width_px
                    },
                ),
                None => None,
            },
            Dialect::P300Bt => if width_mm == 12 {
                Some(64u16)
            } else {
                None
            },
        }
    }

    /// The profile of the PT-P300BT.
    pub fn p300bt() -> (r: ModelProfile)
        ensures
            r.dialect == Dialect::P300Bt,
            r.name@ == "PT-P300BT"@,
            r.raster_width_px == 128,
            r.dpi == 180,
            r.flags.bits == DeviceFlags::NONE,
    {
        ModelProfile {
            dialect: Dialect::P300Bt,
            name: "PT-P300BT",
            raster_width_px: 128,
            dpi: 180,
            flags: DeviceFlags { bits: DeviceFlags::NONE },
        }
    }

    /// Resolve a tape width to printable dots, clamped to the head width.
    pub fn tape_width_px(self, width_mm: u8) -> (r: Option<u16>)
        ensures
            r == self.printable_px(width_mm),
    {
        match self.dialect {
            Dialect::Usb => match tape::tape_pixels(width_mm, self.dpi) {
                Some(px) => if px <= self.raster_width_px {
                    Some(px)
                } else {
                    Some(self.raster_width_px)
                },
                None => None,
            },
            // Only this tape profile has been physically verified so far.
            Dialect::P300Bt => if width_mm == 12 {
                Some(64)
            } else {
                None
            },
        }
    }
}

/// The profile of a printer on the USB bus.
pub open spec fn usb_profile(info: DeviceInfo) -> ModelProfile {
    ModelProfile {
        dialect: Dialect::Usb,
        name: info.name,
        raster_width_px: info.max_px,
        dpi: info.dpi,
        flags: info.flags,
    }
}

impl From<&DeviceInfo> for ModelProfile {
    fn from(info: &DeviceInfo) -> (r: Self) {
        ModelProfile {
            dialect: Dialect::Usb,
            name: info.name,
            raster_width_px: info.max_px,
            dpi: info.dpi,
            flags: info.flags,
        }
    }
}

impl vstd::std_specs::convert::FromSpecImpl<&DeviceInfo> for ModelProfile {
    open spec fn obeys_from_spec() -> bool {
        true
    }

    open spec fn from_spec(info: &DeviceInfo) -> Self {
        usb_profile(*info)
    }
}

/// The printable width never exceeds the raster transfer width: on the USB bus
/// it is clamped to the head, and the PT-P300BT prints 64 dots of at least as
/// many that are transferred.
pub proof fn law_printable_width_fits_raster(profile: ModelProfile, width_mm: u8)
    requires
        profile.dialect == Dialect::P300Bt ==> profile.raster_width_px >= 64,
    ensures
        profile.printable_px(width_mm) matches Some(px) ==> px <= profile.raster_width_px,
{
}

/// The profile of a printer on the USB bus is that of its entry in the table of
/// printers, field by field.
pub proof fn law_usb_profile_is_of_the_entry(info: DeviceInfo)
    ensures
        ({
            let profile = <ModelProfile as vstd::std_specs::convert::FromSpec<
                &DeviceInfo,
            >>::from_spec(&info);
            &&& profile == usb_profile(info)
            &&& profile.dialect == Dialect::Usb
            &&& profile.name == info.name
            &&& profile.raster_width_px == info.max_px
            &&& profile.dpi == info.dpi
            &&& profile.flags == info.flags
        }),
{
}

/// Which tapes have a known printable width: seven on the USB bus, whatever the
/// resolution and the head, and the 12 mm one on the PT-P300BT, of which 64 dots
/// are printed.
pub proof fn law_known_tapes(profile: ModelProfile, width_mm: u8)
    ensures
        profile.dialect == Dialect::Usb ==> (profile.printable_px(width_mm) is Some <==> width_mm
            == 4 || width_mm == 6 || width_mm == 9 || width_mm == 12 || width_mm == 18 || width_mm
            == 24 || width_mm == 36),
        profile.dialect == Dialect::P300Bt ==> profile.printable_px(width_mm) == if width_mm == 12 {
            Some(64u16)
        } else {
            None
        },
{
}

/// At 180 dots per inch, the seven tapes of the USB bus hold so many dots, or as
/// many as the head has.
pub proof fn law_widths_at_180_dots_per_inch(profile: ModelProfile)
    requires
        profile.dialect == Dialect::Usb,
        profile.dpi == 180,
    ensures
        ({
            let head = profile.raster_width_px;
            &&& profile.printable_px(4) == Some(least(24, head as int) as u16)
            &&& profile.printable_px(6) == Some(least(32, head as int) as u16)
            &&& profile.printable_px(9) == Some(least(52, head as int) as u16)
            &&& profile.printable_px(12) == Some(least(76, head as int) as u16)
            &&& profile.printable_px(18) == Some(least(120, head as int) as u16)
            &&& profile.printable_px(24) == Some(least(128, head as int) as u16)
            &&& profile.printable_px(36) == Some(least(192, head as int) as u16)
        }),
{
}

/// The smaller of two numbers.
pub open spec fn least(a: int, b: int) -> int {
    if a <= b {
        a
    } else {
        b
    }
}

/// On the USB bus the printable width grows with the resolution: it is the width
/// at 180 dots per inch times the resolution over 180, clamped to the head.
pub proof fn law_width_follows_resolution(
    profile: ModelProfile,
    reference: ModelProfile,
    width_mm: u8,
)
    requires
        profile.dialect == Dialect::Usb,
        reference.dialect == Dialect::Usb,
        reference.dpi == 180,
        reference.raster_width_px >= 192,
    ensures
        match (profile.printable_px(width_mm), reference.printable_px(width_mm)) {
            (Some(px), Some(base)) => px == least(
                base * profile.dpi / 180,
                profile.raster_width_px as int,
            ),
            (None, None) => true,
            _ => false,
        },
{
    if let Some(base) = tape::base_pixels(width_mm) {
        assert(base * 180 / 180 == base);
    }
}

/// Of two USB printers, the one with twice the resolution prints twice as many
/// dots on the same tape, or one more where the other drops half a dot, as long
/// as both heads are wider than that. At a multiple of 45 dots per inch, as of
/// every printer in the table, it is twice as many exactly.
pub proof fn law_twice_the_resolution(coarse: ModelProfile, fine: ModelProfile, width_mm: u8)
    requires
        coarse.dialect == Dialect::Usb,
        fine.dialect == Dialect::Usb,
        fine.dpi == 2 * coarse.dpi,
        coarse.printable_px(width_mm) matches Some(px) ==> px < coarse.raster_width_px,
        fine.printable_px(width_mm) matches Some(px) ==> px < fine.raster_width_px,
    ensures
        match (coarse.printable_px(width_mm), fine.printable_px(width_mm)) {
            (Some(few), Some(many)) => {
                &&& many == 2 * few || many == 2 * few + 1
                &&& coarse.dpi % 45 == 0 ==> many == 2 * few
            },
            (None, None) => true,
            _ => false,
        },
{
    if let Some(base) = tape::base_pixels(width_mm) {
        let dots: int = base * coarse.dpi;
        assert(base * fine.dpi == 2 * dots) by (nonlinear_arith)
            requires
                dots == base * coarse.dpi,
                fine.dpi == 2 * coarse.dpi,
        ;
        assert(2 * dots / 180 == 2 * (dots / 180) || 2 * dots / 180 == 2 * (dots / 180) + 1);
        if coarse.dpi % 45 == 0 {
            let k: int = coarse.dpi as int / 45;
            let q: int = base as int / 4;
            assert(coarse.dpi == 45 * k);
            assert(base == 4 * q);
            assert(dots == 180 * (q * k)) by (nonlinear_arith)
                requires
                    dots == base * coarse.dpi,
                    coarse.dpi == 45 * k,
                    base == 4 * q,
            ;
        }
    }
}

/// The strip that a USB printer prints on is never wider than the tape: an inch
/// has 25.4 mm.
pub proof fn law_printable_strip_fits_tape(profile: ModelProfile, width_mm: u8)
    requires
        profile.dialect == Dialect::Usb,
    ensures
        profile.printable_px(width_mm) matches Some(px) ==> px * 254 <= width_mm * 10 * profile.dpi,
{
    if let Some(base) = tape::base_pixels(width_mm) {
        let dots: int = base * profile.dpi;
        assert(180 * (dots / 180) <= dots);
        assert(dots * 254 <= width_mm * 10 * profile.dpi * 180) by (nonlinear_arith)
            requires
                dots == base * profile.dpi,
                base * 254 <= width_mm * 10 * 180,
        ;
        assert(width_mm * 10 * profile.dpi * 180 == (width_mm * 10 * profile.dpi) * 180);
    }
}

/// A wider tape or a finer resolution never has fewer printable dots.
pub proof fn law_width_is_monotone(a: ModelProfile, b: ModelProfile, narrow: u8, wide: u8)
    requires
        a.dialect == Dialect::Usb,
        b.dialect == Dialect::Usb,
        a.raster_width_px <= b.raster_width_px,
        a.dpi <= b.dpi,
        narrow <= wide,
        a.printable_px(narrow) is Some,
        b.printable_px(wide) is Some,
    ensures
        a.printable_px(narrow)->Some_0 <= b.printable_px(wide)->Some_0,
{
    let x = tape::base_pixels(narrow)->Some_0;
    let y = tape::base_pixels(wide)->Some_0;
    assert(x * a.dpi <= y * b.dpi) by (nonlinear_arith)
        requires
            x <= y,
            a.dpi <= b.dpi,
    ;
}

} // verus!
