//! Geometry of the touch button on the Wi-Fi survey and access-point
//! cards, in page coordinates. The caller passes the page size and whether
//! the page is held upright.

use vstd::prelude::*;

verus! {

/// The button's `(x, y, w, h)`: 60 in from the left, 120 narrower than the
/// page, 56 tall, its top 140 (upright) or 100 (sideways) above the page's
/// bottom edge, every difference floored at 0.
pub open spec fn spec_wifi_action_rect(page_w: u16, page_h: u16, portrait: bool) -> (u16, u16, u16, u16) {
    (
        60u16,
        if portrait { page_h.saturating_sub(140) } else { page_h.saturating_sub(100) },
        page_w.saturating_sub(120),
        56u16,
    )
}

/// Whether `(px, py)` lands on the button, padded by 10 on each side (the
/// pad clipped at 0 and at `u16::MAX`).
pub open spec fn spec_wifi_action_hit(px: u16, py: u16, page_w: u16, page_h: u16, portrait: bool) -> bool {
    let (x, y, w, h) = spec_wifi_action_rect(page_w, page_h, portrait);
    &&& px >= x.saturating_sub(10)
    &&& px < x.saturating_add(w).saturating_add(10)
    &&& py >= y.saturating_sub(10)
    &&& py < y.saturating_add(h).saturating_add(10)
}

/// Origin and size of the start/stop button on a `page_w` x `page_h` page.
pub fn wifi_action_rect(page_w: u16, page_h: u16, portrait: bool) -> (r: (u16, u16, u16, u16))
    ensures
        r == spec_wifi_action_rect(page_w, page_h, portrait),
{
    let x: u16 = 60;
    let w = page_w.saturating_sub(120);
    let h: u16 = 56;
    let y = if portrait {
        page_h.saturating_sub(140)
    } else {
        page_h.saturating_sub(100)
    };
    (x, y, w, h)
}

/// Whether a touch at `(px, py)` presses the start/stop button.
pub fn wifi_action_hit(px: u16, py: u16, page_w: u16, page_h: u16, portrait: bool) -> (b: bool)
    ensures
        b == spec_wifi_action_hit(px, py, page_w, page_h, portrait),
{
    let (x, y, w, h) = wifi_action_rect(page_w, page_h, portrait);
    let x0 = x.saturating_sub(10);
    let y0 = y.saturating_sub(10);
    let x1 = x.saturating_add(w).saturating_add(10);
    let y1 = y.saturating_add(h).saturating_add(10);
    px >= x0 && px < x1 && py >= y0 && py < y1
}

} // verus!
