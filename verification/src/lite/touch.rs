//! FT6336G on the system I2C bus: active area, gutters, and the M5GFX
//! `getTouchRaw` buffer decode ([`decode_m5gfx`]).

use vstd::prelude::*;

verus! {

/// 7-bit address. Same as [`crate::lite::addresses::FT6336G`].
pub const ADDRESS: u8 = crate::lite::addresses::FT6336G;
/// Touch active-area minimum X.
pub const ACTIVE_MIN_X: u16 = 5;
/// Touch active-area maximum X.
pub const ACTIVE_MAX_X: u16 = 475;
/// Touch active-area minimum Y.
pub const ACTIVE_MIN_Y: u16 = 5;
/// Touch active-area maximum Y.
pub const ACTIVE_MAX_Y: u16 = 795;
/// Touch points the panel reports at most.
pub const MAX_POINTS: u8 = 2;
/// M5GFX `getTouchRaw` start register.
pub const M5GFX_STATUS_REG: u8 = 2;
/// Bytes after the status byte for one M5GFX point (XY uses 4).
pub const M5GFX_POINT_BYTES: usize = 6;
/// Finger slop vs a drawn target (pixels).
pub const TARGET_SLOP_PX: u16 = 100;
/// Drawn target radius (pixels).
pub const TARGET_RADIUS_PX: u16 = 48;
/// How long to wait for a tap or BUTTON B abort.
pub const TARGET_WAIT_MS: u64 = 90_000;
/// Right-edge lamp gutter width (official portrait pixels).
pub const LAMP_GUTTER_PX: u16 = 80;
/// PWM0 duty counts per official-Y pixel while in the gutter.
pub const LAMP_DUTY_PER_PX: u16 = 8;
/// Gutter width for the left and right edge sliders (page pixels).
pub const GUTTER_PX: u16 = 80;
/// Inset from the top and bottom page edges for slider deadbands.
pub const SLIDER_INSET_PX: u16 = 40;
/// How close to each active-area end a slide must reach.
pub const SLIDE_END_INSET: u16 = 80;
/// Drawn line half-width (pixels).
pub const SLIDE_HALF_W: u16 = 6;

/// True when official-portrait `x` is in the right-edge lamp strip:
/// `x + LAMP_GUTTER_PX >= ACTIVE_MAX_X`.
pub fn in_lamp_gutter(x: u16) -> (b: bool)
    requires
        x + LAMP_GUTTER_PX <= u16::MAX,
    ensures
        b <==> x + LAMP_GUTTER_PX >= ACTIVE_MAX_X,
{
    x + LAMP_GUTTER_PX >= ACTIVE_MAX_X
}

/// True when page-space `px` is in the left-edge volume slider strip.
pub fn in_page_left_gutter(px: u16) -> (b: bool)
    ensures
        b <==> px <= GUTTER_PX,
{
    px <= GUTTER_PX
}

/// True when page-space `px` is in the right-edge lamp slider strip
/// (`px + GUTTER_PX`, saturating, reaches `page_w`).
pub fn in_page_right_gutter(px: u16, page_w: u16) -> (b: bool)
    ensures
        b <==> (if px + GUTTER_PX > u16::MAX { u16::MAX as int } else { px + GUTTER_PX }) >= page_w,
{
    px.saturating_add(GUTTER_PX) >= page_w
}

/// A 12-bit coordinate from a high byte (low nibble) and a low byte.
pub open spec fn coord12(hi: u8, lo: u8) -> int {
    (hi % 16) * 256 + lo
}

/// Point `idx` of an M5GFX buffer: `(0, 0)` when the buffer is too short,
/// the event flag is lift-up (1) or no-event (3), or the coordinate falls
/// outside the 480×800 panel; otherwise its X and Y.
pub open spec fn m5gfx_point(buf: Seq<u8>, idx: int) -> (u16, u16) {
    let base = idx * 6;
    if buf.len() < base + 5 {
        (0, 0)
    } else {
        let event = buf[base + 1] / 64;
        if event == 1 || event == 3 {
            (0, 0)
        } else {
            let x = coord12(buf[base + 1], buf[base + 2]);
            let y = coord12(buf[base + 3], buf[base + 4]);
            if x >= 480 || y >= 800 {
                (0, 0)
            } else {
                (x as u16, y as u16)
            }
        }
    }
}

/// Decoded `(n, x, y, x2, y2)` of an M5GFX buffer (status at `[0]`):
/// `None` for an empty buffer; all zeros when the count nibble exceeds
/// [`MAX_POINTS`]; otherwise the points the count asks for, and a count
/// of 0 when the first point decodes to the origin.
pub open spec fn spec_decode_m5gfx(buf: Seq<u8>) -> Option<(u8, u16, u16, u16, u16)> {
    if buf.len() == 0 {
        None
    } else {
        let n = buf[0] % 16;
        if n > 2 {
            Some((0, 0, 0, 0, 0))
        } else {
            let p0 = if n >= 1 { m5gfx_point(buf, 0) } else { (0u16, 0u16) };
            let p1 = if n >= 2 { m5gfx_point(buf, 1) } else { (0u16, 0u16) };
            let n2 = if n >= 1 && p0.0 == 0 && p0.1 == 0 { 0u8 } else { n };
            Some((n2, p0.0, p0.1, p1.0, p1.1))
        }
    }
}

fn decode_point(buf: &[u8], idx: usize) -> (p: (u16, u16))
    requires
        idx <= 1,
    ensures
        p == m5gfx_point(buf@, idx as int),
{
    let base = idx * M5GFX_POINT_BYTES;
    if buf.len() < base + 5 {
        return (0, 0);
    }
    let event = buf[base + 1] / 64;
    if event == 1 || event == 3 {
        return (0, 0);
    }
    let x: u16 = ((buf[base + 1] % 16) as u16) * 256 + buf[base + 2] as u16;
    let y: u16 = ((buf[base + 3] % 16) as u16) * 256 + buf[base + 4] as u16;
    if x >= crate::lite::display::WIDTH || y >= crate::lite::display::HEIGHT {
        return (0, 0);
    }
    (x, y)
}

/// Decode one M5GFX `getTouchRaw` buffer (status at `[0]`). Validates
/// event flags and coordinate bounds.
pub fn decode_m5gfx(buf: &[u8]) -> (r: Option<(u8, u16, u16, u16, u16)>)
    ensures
        r == spec_decode_m5gfx(buf@),
{
    if buf.len() == 0 {
        return None;
    }
    let raw_n = buf[0] % 16;
    if raw_n > MAX_POINTS {
        return Some((0, 0, 0, 0, 0));
    }
    let n = raw_n;
    let (x, y) = if n >= 1 { decode_point(buf, 0) } else { (0, 0) };
    let (x2, y2) = if n >= 2 { decode_point(buf, 1) } else { (0, 0) };
    let n = if n >= 1 && x == 0 && y == 0 { 0 } else { n };
    Some((n, x, y, x2, y2))
}


/// A held finger reads as its coordinates. For a one- or two-point status
/// byte (count nibble 1 or 2), a point whose event flag (top two bits of
/// its first byte) is press-down (0) or contact (2) and whose 12-bit
/// coordinates lie on the 480x800 panel decodes to exactly those
/// coordinates (the count stays as reported unless the first point is the
/// origin); a point whose flag is lift-up (1) or no-event (3) decodes to
/// the origin, as does a point off the panel; a first point at the origin
/// turns the count to 0.
pub proof fn law_touch_points_decode(buf: Seq<u8>)
    requires
        buf.len() >= 5,
        buf[0] % 16 == 1 || buf[0] % 16 == 2,
    ensures
        ({
            let x = (buf[1] % 16) * 256 + buf[2];
            let y = (buf[3] % 16) * 256 + buf[4];
            let held = buf[1] / 64 == 0 || buf[1] / 64 == 2;
            let r = spec_decode_m5gfx(buf)->Some_0;
            &&& spec_decode_m5gfx(buf) is Some
            &&& held && x < 480 && y < 800 ==> r.1 == x && r.2 == y
            &&& x >= 480 || y >= 800 ==> r.0 == 0 && r.1 == 0 && r.2 == 0
            &&& held && x < 480 && y < 800 && !(x == 0 && y == 0) ==> r.0 == buf[0] % 16
            &&& !held ==> r.0 == 0 && r.1 == 0 && r.2 == 0
        }),
        buf.len() >= 11 ==> ({
            let x2 = (buf[7] % 16) * 256 + buf[8];
            let y2 = (buf[9] % 16) * 256 + buf[10];
            let held2 = buf[7] / 64 == 0 || buf[7] / 64 == 2;
            let r = spec_decode_m5gfx(buf)->Some_0;
            &&& buf[0] % 16 == 2 && held2 && x2 < 480 && y2 < 800 ==> r.3 == x2 && r.4 == y2
            &&& buf[0] % 16 == 2 && !held2 ==> r.3 == 0 && r.4 == 0
            &&& x2 >= 480 || y2 >= 800 ==> r.3 == 0 && r.4 == 0
            &&& buf[0] % 16 == 1 ==> r.3 == 0 && r.4 == 0
        }),
{
    assert(buf[1] / 64 < 4);
    if buf.len() >= 11 {
        assert(buf[7] / 64 < 4);
    }
}


/// The status byte's count nibble decides how many points are read: an
/// empty buffer decodes to nothing; a count of 0 or above two decodes to
/// no touch at all; a count of 1 never reports a second point; and the
/// count reported is never above two, nor above the count read.
pub proof fn law_touch_count(buf: Seq<u8>)
    ensures
        buf.len() == 0 <==> spec_decode_m5gfx(buf) is None,
        buf.len() > 0 && (buf[0] % 16 == 0 || buf[0] % 16 > 2) ==> spec_decode_m5gfx(buf) == Some(
            (0u8, 0u16, 0u16, 0u16, 0u16),
        ),
        buf.len() > 0 && buf[0] % 16 == 1 ==> spec_decode_m5gfx(buf)->Some_0.3 == 0 && spec_decode_m5gfx(buf)->Some_0.4 == 0,
        buf.len() > 0 ==> spec_decode_m5gfx(buf)->Some_0.0 <= 2,
        buf.len() > 0 && buf[0] % 16 <= 2 ==> spec_decode_m5gfx(buf)->Some_0.0 <= buf[0] % 16,
{
}

} // verus!
