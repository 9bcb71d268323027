//! Printable width of the tape cassettes.

use vstd::prelude::*;

verus! {

/// Printable dots of a tape of the given width on a 180 dpi head.
pub open spec fn base_pixels(width_mm: u8) -> Option<nat> {
    if width_mm == 4 {
        Some(24)
    } else if width_mm == 6 {
        Some(32)
    } else if width_mm == 9 {
        Some(52)
    } else if width_mm == 12 {
        Some(76)
    } else if width_mm == 18 {
        Some(120)
    } else if width_mm == 24 {
        Some(128)
    } else if width_mm == 36 {
        Some(192)
    } else {
        None
    }
}

/// Printable dots of a tape of the given width on a head of `dpi` dots per
/// inch, at most what sixteen bits hold.
pub open spec fn pixels(width_mm: u8, dpi: u16) -> Option<nat> {
    match base_pixels(width_mm) {
        Some(base) => {
            let scaled = base * (dpi as nat) / 180;
            Some(if scaled <= 0xffff { scaled } else { 0xffff })
        },
        None => None,
    }
}

/// Resolve a tape width in millimetres to printable dots.
pub fn tape_pixels(width_mm: u8, dpi: u16) -> (r: Option<u16>)
    ensures
        match r {
            Some(px) => pixels(width_mm, dpi) == Some(px as nat),
            None => pixels(width_mm, dpi) is None,
        },
{
    let base: u32 = match width_mm {
        4 => 24,
        6 => 32,
        9 => 52,
        12 => 76,
        18 => 120,
        24 => 128,
        36 => 192,
        _ => return None,
    };
    assert(base * dpi <= 192 * 0xffff) by (nonlinear_arith)
        requires
            base <= 192,
            dpi <= 0xffff,
    ;
    let scaled: u32 = base * (dpi as u32) / 180;
    if scaled <= 0xffff {
        Some(scaled as u16)
    } else {
        Some(0xffff)
    }
}

} // verus!
