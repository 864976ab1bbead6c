//! Target marks and portrait frames turned into SSD1677 RAM rows, pixel
//! lookup in a portrait plane, and the choice between full and partial
//! refreshes.

use vstd::prelude::*;
use crate::lite::display::{otp_ram_to_usb_down, ram_to_phys, BYTES_PER_ROW, HEIGHT, WIDTH, OTP_TARGET_TITLE};
use crate::ssd1677::{otp_title, OtpRefresh, OTP_BYTES_PER_ROW, OTP_RAM_WIDTH};

verus! {

/// Panel stamp mode: a target mark.
pub const MODE_TARGET: u8 = 0;
/// Panel stamp mode: 4-gray full refresh.
pub const MODE_GRAY: u8 = 1;
/// Panel stamp mode: mono full refresh.
pub const MODE_MONO: u8 = 2;
/// Panel stamp mode: partial refresh.
pub const MODE_PARTIAL: u8 = 3;

/// CDC `panel mode=` title of a stamp mode code (unknown codes are
/// target marks).
pub fn mode_title(id: u8) -> (t: &'static str)
    ensures
        t == (if id == MODE_GRAY {
            otp_title(OtpRefresh::GrayFull)
        } else if id == MODE_MONO {
            otp_title(OtpRefresh::MonoFull)
        } else if id == MODE_PARTIAL {
            otp_title(OtpRefresh::Partial)
        } else {
            OTP_TARGET_TITLE
        }),
{
    if id == MODE_GRAY {
        OtpRefresh::GrayFull.title()
    } else if id == MODE_MONO {
        OtpRefresh::MonoFull.title()
    } else if id == MODE_PARTIAL {
        OtpRefresh::Partial.title()
    } else {
        OTP_TARGET_TITLE
    }
}

/// Target mark primitive, in USB-C-down portrait pixels.
#[derive(Debug, Clone, Copy, PartialEq, Eq, Structural)]
pub enum Mark {
    /// Solid black disk centered at `(x, y)` with radius `r`.
    Disk { x: u16, y: u16, r: u16 },
    /// Horizontal band at row `y`, `half` pixels to each side.
    HLine { y: u16, half: u16 },
    /// Vertical band at column `x`, `half` pixels to each side.
    VLine { x: u16, half: u16 },
    /// Nothing: the field stays white.
    Blank,
}

/// The mark covers pixel `(px, py)`.
pub open spec fn covers(mark: Mark, px: int, py: int) -> bool {
    match mark {
        Mark::Disk { x, y, r } => (px - x) * (px - x) + (py - y) * (py - y) <= r * r,
        Mark::HLine { y, half } => (if py >= y { py - y } else { y - py }) <= half,
        Mark::VLine { x, half } => (if px >= x { px - x } else { x - px }) <= half,
        Mark::Blank => false,
    }
}

/// The disk test for this pixel stays within `i32`, as the firmware
/// computes it.
pub open spec fn hit_fits(mark: Mark, px: int, py: int) -> bool {
    match mark {
        Mark::Disk { x, y, r } => (px - x) * (px - x) + (py - y) * (py - y) <= i32::MAX && r * r <= i32::MAX,
        _ => true,
    }
}

/// Whether the mark covers pixel `(px, py)`.
pub fn mark_hit(mark: Mark, px: u16, py: u16) -> (b: bool)
    requires
        hit_fits(mark, px as int, py as int),
    ensures
        b == covers(mark, px as int, py as int),
{
    match mark {
        Mark::Disk { x, y, r } => {
            let dx: i32 = px as i32 - x as i32;
            let dy: i32 = py as i32 - y as i32;
            assert(dx * dx >= 0 && dy * dy >= 0 && dx * dx <= i32::MAX && dy * dy <= i32::MAX) by (nonlinear_arith)
                requires
                    dx * dx + dy * dy <= i32::MAX,
            ;
            assert(r * r >= 0) by (nonlinear_arith);
            dx * dx + dy * dy <= (r as i32) * (r as i32)
        },
        Mark::HLine { y, half } => {
            let d: u16 = if py >= y { py - y } else { y - py };
            d <= half
        },
        Mark::VLine { x, half } => {
            let d: u16 = if px >= x { px - x } else { x - px };
            d <= half
        },
        Mark::Blank => false,
    }
}

/// Mask of pixel `k` (0 = leftmost) within a RAM byte.
pub open spec fn pixel_mask(k: u8) -> u8 {
    0x80u8 >> k
}

/// Pixel `k` of byte `v` is black (its bit is clear).
pub open spec fn is_black(v: u8, k: u8) -> bool {
    v & pixel_mask(k) == 0
}

/// Clearing one pixel's bit blackens that pixel and leaves the others.
proof fn lemma_clear_pixel(v: u8, k: u8, m: u8)
    requires
        k < 8,
        m < 8,
    ensures
        is_black(v & !pixel_mask(k), m) == (k == m || is_black(v, m)),
{
    assert(((v & !(0x80u8 >> k)) & (0x80u8 >> m) == 0) == (k == m || v & (0x80u8 >> m) == 0)) by (bit_vector)
        requires
            k < 8,
            m < 8,
    ;
}

proof fn lemma_white_byte(m: u8)
    requires
        m < 8,
    ensures
        !is_black(0xFF, m),
{
    assert(0xFFu8 & (0x80u8 >> m) != 0) by (bit_vector)
        requires
            m < 8,
    ;
}

/// Blackens RAM pixel `ram_x` of a row (bit `7 - ram_x % 8` of byte
/// `ram_x / 8`); pixels past the RAM width or the row are left alone.
pub fn ink_black(row: &mut [u8], ram_x: u16)
    ensures
        final(row)@ == (if ram_x < OTP_RAM_WIDTH && (ram_x / 8) < old(row)@.len() {
            old(row)@.update((ram_x / 8) as int, old(row)@[(ram_x / 8) as int] & !pixel_mask((ram_x % 8) as u8))
        } else {
            old(row)@
        }),
{
    if ram_x >= OTP_RAM_WIDTH {
        return;
    }
    let byte = (ram_x / 8) as usize;
    let bit = (7 - (ram_x % 8)) as u8;
    if byte < row.len() {
        let k = (ram_x % 8) as u8;
        assert((1u8 << bit) == (0x80u8 >> k)) by (bit_vector)
            requires
                k < 8,
                bit == 7 - k,
        ;
        row[byte] = row[byte] & !((1u8) << bit);
    }
}

/// The RAM row `ram_y` shows the mark: each RAM pixel `ram_x` is black
/// exactly when the mark covers its USB-C-down pixel.
pub open spec fn row_shows(row: Seq<u8>, ram_y: u16, mark: Mark) -> bool {
    forall|ram_x: int|
        0 <= ram_x < OTP_RAM_WIDTH && ram_x / 8 < row.len() ==> (is_black(
            #[trigger] row[ram_x / 8],
            (ram_x % 8) as u8,
        ) <==> covers(mark, ram_to_phys(ram_x as u16, ram_y).0 as int, ram_to_phys(ram_x as u16, ram_y).1 as int))
}

/// Every pixel of RAM row `ram_y` keeps the disk test within `i32`.
pub open spec fn row_fits(mark: Mark, ram_y: u16) -> bool {
    forall|ram_x: int| 0 <= ram_x < OTP_RAM_WIDTH ==> #[trigger] hit_fits(mark, ram_y as int, ram_x)
}

/// Paints RAM row `ram_y`: white everywhere, then black on every RAM
/// pixel whose USB-C-down pixel the mark covers.
pub fn fill_mark_row(row: &mut [u8], ram_y: u16, mark: Mark)
    requires
        row_fits(mark, ram_y),
    ensures
        final(row)@.len() == old(row)@.len(),
        row_shows(final(row)@, ram_y, mark),
        forall|b: int| 100 <= b < final(row)@.len() ==> #[trigger] final(row)@[b] == 0xFF,
{
    let n = row.len();
    let mut i: usize = 0;
    while i < n
        invariant
            n == row@.len(),
            n == old(row)@.len(),
            i <= n,
            forall|b: int| 0 <= b < i ==> #[trigger] row@[b] == 0xFF,
        decreases n - i,
    {
        row[i] = 0xFF;
        i += 1;
    }
    assert forall|j: int| 0 <= j < OTP_RAM_WIDTH && j / 8 < n implies !is_black(#[trigger] row@[j / 8], (j % 8) as u8) by {
        lemma_white_byte((j % 8) as u8);
    }
    let mut x: u16 = 0;
    while x < OTP_RAM_WIDTH
        invariant
            n == row@.len(),
            n == old(row)@.len(),
            x <= OTP_RAM_WIDTH,
            row_fits(mark, ram_y),
            forall|b: int| 100 <= b < n ==> #[trigger] row@[b] == 0xFF,
            forall|j: int|
                0 <= j < OTP_RAM_WIDTH && j / 8 < n ==> (is_black(#[trigger] row@[j / 8], (j % 8) as u8) <==> (j < x
                    && covers(mark, ram_y as int, j))),
        decreases OTP_RAM_WIDTH - x,
    {
        let (px, py) = otp_ram_to_usb_down(x, ram_y);
        assert(hit_fits(mark, ram_y as int, x as int));
        if mark_hit(mark, px, py) {
            let ghost before = row@;
            ink_black(row, x);
            proof {
                assert forall|j: int|
                    0 <= j < OTP_RAM_WIDTH && j / 8 < n implies (is_black(#[trigger] row@[j / 8], (j % 8) as u8) <==> (j < x + 1
                        && covers(mark, ram_y as int, j))) by {
                    if j / 8 == x / 8 {
                        lemma_clear_pixel(before[j / 8], (x % 8) as u8, (j % 8) as u8);
                    }
                }
            }
        }
        x += 1;
    }
}

/// Whether portrait pixel `(x, y)` is set in a 480-wide, 800-tall
/// one-bit plane (60 bytes per row, leftmost pixel in the high bit).
pub open spec fn plane_bit(plane: Seq<u8>, x: u16, y: u16) -> bool {
    let i = y * 60 + x / 8;
    x < WIDTH && y < HEIGHT && i < plane.len() && plane[i] & pixel_mask((x % 8) as u8) != 0
}

/// Pixel `(x, y)` of a portrait plane; off-plane pixels and missing bytes
/// read as clear.
pub fn official_bit(plane: &[u8], x: u16, y: u16) -> (b: bool)
    ensures
        b == plane_bit(plane@, x, y),
{
    if x >= WIDTH || y >= HEIGHT {
        return false;
    }
    let i: usize = (y as usize) * BYTES_PER_ROW + (x as usize) / 8;
    let mask: u8 = 0x80u8 >> ((x % 8) as u8);
    if i < plane.len() {
        plane[i] & mask != 0
    } else {
        false
    }
}

/// Sets (`on`) or clears the bit of portrait pixel (`x`, `y`) in a plane;
/// off-plane pixels are ignored.
pub fn set_plane(plane: &mut [u8], x: u16, y: u16, on: bool)
    requires
        x < WIDTH && y < HEIGHT ==> y * 60 + x / 8 < old(plane)@.len(),
    ensures
        final(plane)@.len() == old(plane)@.len(),
        x < WIDTH && y < HEIGHT ==> final(plane)@ == old(plane)@.update(
            y * 60 + x / 8,
            if on {
                old(plane)@[y * 60 + x / 8] | pixel_mask((x % 8) as u8)
            } else {
                old(plane)@[y * 60 + x / 8] & !pixel_mask((x % 8) as u8)
            },
        ),
        !(x < WIDTH && y < HEIGHT) ==> final(plane)@ == old(plane)@,
{
    if x >= WIDTH || y >= HEIGHT {
        return;
    }
    let i: usize = (y as usize) * BYTES_PER_ROW + (x as usize) / 8;
    let mask: u8 = 0x80u8 >> ((x % 8) as u8);
    let v = plane[i];
    if on {
        plane[i] = v | mask;
    } else {
        plane[i] = v & !mask;
    }
}

/// Reading a pixel back after setting it gives what was set, and the other
/// pixels of the plane keep their values.
pub proof fn law_set_plane_read_back(before: Seq<u8>, after: Seq<u8>, x: u16, y: u16, on: bool, qx: u16, qy: u16)
    requires
        x < WIDTH,
        y < HEIGHT,
        y * 60 + x / 8 < before.len(),
        after == before.update(
            y * 60 + x / 8,
            if on {
                before[y * 60 + x / 8] | pixel_mask((x % 8) as u8)
            } else {
                before[y * 60 + x / 8] & !pixel_mask((x % 8) as u8)
            },
        ),
    ensures
        plane_bit(after, x, y) == on,
        (qx, qy) != (x, y) ==> plane_bit(after, qx, qy) == plane_bit(before, qx, qy),
{
    let i = y * 60 + x / 8;
    let k = (x % 8) as u8;
    let v = before[i];
    assert(((v | (0x80u8 >> k)) & (0x80u8 >> k) != 0) && ((v & !(0x80u8 >> k)) & (0x80u8 >> k) == 0))
        by (bit_vector)
        requires
            k < 8,
    ;
    if (qx, qy) != (x, y) && qx < WIDTH && qy < HEIGHT {
        let j = qy * 60 + qx / 8;
        if j == i {
            let m = (qx % 8) as u8;
            assert(qy == y && qx / 8 == x / 8) by (nonlinear_arith)
                requires
                    qy * 60 + qx / 8 == y * 60 + x / 8,
                    qx < 480,
                    x < 480,
            ;
            assert(m != k);
            lemma_clear_pixel(v, k, m);
            lemma_set_pixel(v, k, m);
        }
    }
}

/// Whether a frame (`bw` or `red` plane) inks the USB-C-down pixel under
/// RAM pixel (`ram_x`, `ram_y`).
pub open spec fn frame_inks(bw: Seq<u8>, red: Seq<u8>, ram_x: u16, ram_y: u16) -> bool {
    let p = ram_to_phys(ram_x, ram_y);
    plane_bit(bw, p.0, p.1) || plane_bit(red, p.0, p.1)
}

/// The RAM row `ram_y` shows the frame: each RAM pixel is black exactly when
/// the frame inks it, or exactly when it does not if `invert`.
pub open spec fn mono_row_shows(row: Seq<u8>, bw: Seq<u8>, red: Seq<u8>, ram_y: u16, invert: bool) -> bool {
    forall|ram_x: int|
        0 <= ram_x < OTP_RAM_WIDTH ==> (is_black(#[trigger] row[ram_x / 8], (ram_x % 8) as u8) <==> (frame_inks(
            bw,
            red,
            ram_x as u16,
            ram_y,
        ) != invert))
}

/// Inverting a byte swaps black and white in every pixel.
proof fn lemma_invert_pixel(v: u8, k: u8)
    requires
        k < 8,
    ensures
        is_black(!v, k) == !is_black(v, k),
{
    assert(((!v) & (0x80u8 >> k) == 0) == !(v & (0x80u8 >> k) == 0)) by (bit_vector)
        requires
            k < 8,
    ;
}

/// Builds RAM row `ram_y` of a mono frame from its portrait planes: black
/// where either plane inks the pixel, the whole row inverted if `invert`.
pub fn official_mono_row(row: &mut [u8], bw: &[u8], red: &[u8], ram_y: u16, invert: bool)
    requires
        old(row)@.len() == OTP_BYTES_PER_ROW,
    ensures
        final(row)@.len() == OTP_BYTES_PER_ROW,
        mono_row_shows(final(row)@, bw@, red@, ram_y, invert),
{
    let n = row.len();
    let mut i: usize = 0;
    while i < n
        invariant
            n == row@.len(),
            n == OTP_BYTES_PER_ROW,
            i <= n,
            forall|b: int| 0 <= b < i ==> #[trigger] row@[b] == 0xFF,
        decreases n - i,
    {
        row[i] = 0xFF;
        i += 1;
    }
    assert forall|j: int| 0 <= j < OTP_RAM_WIDTH implies !is_black(#[trigger] row@[j / 8], (j % 8) as u8) by {
        lemma_white_byte((j % 8) as u8);
    }
    let mut x: u16 = 0;
    while x < OTP_RAM_WIDTH
        invariant
            n == row@.len(),
            n == OTP_BYTES_PER_ROW,
            x <= OTP_RAM_WIDTH,
            forall|j: int|
                0 <= j < OTP_RAM_WIDTH ==> (is_black(#[trigger] row@[j / 8], (j % 8) as u8) <==> (j < x
                    && frame_inks(bw@, red@, j as u16, ram_y))),
        decreases OTP_RAM_WIDTH - x,
    {
        let (px, py) = otp_ram_to_usb_down(x, ram_y);
        if official_bit(bw, px, py) || official_bit(red, px, py) {
            let ghost before = row@;
            ink_black(row, x);
            proof {
                assert forall|j: int| 0 <= j < OTP_RAM_WIDTH implies (is_black(#[trigger] row@[j / 8], (j % 8) as u8)
                    <==> (j < x + 1 && frame_inks(bw@, red@, j as u16, ram_y))) by {
                    if j / 8 == x / 8 {
                        lemma_clear_pixel(before[j / 8], (x % 8) as u8, (j % 8) as u8);
                    }
                }
            }
        }
        x += 1;
    }
    if invert {
        let ghost plain = row@;
        let mut b: usize = 0;
        while b < n
            invariant
                n == row@.len(),
                n == OTP_BYTES_PER_ROW,
                plain.len() == n,
                b <= n,
                forall|k: int| 0 <= k < b ==> #[trigger] row@[k] == !plain[k],
                forall|k: int| b <= k < n ==> #[trigger] row@[k] == plain[k],
            decreases n - b,
        {
            let v = row[b];
            row[b] = !v;
            b += 1;
        }
        assert forall|j: int| 0 <= j < OTP_RAM_WIDTH implies (is_black(#[trigger] row@[j / 8], (j % 8) as u8)
            <==> (frame_inks(bw@, red@, j as u16, ram_y) != invert)) by {
            lemma_invert_pixel(plain[j / 8], (j % 8) as u8);
        }
    }
}

/// The RAM pixel that bit `k` of byte `b` of a gray-plane row stands for:
/// the row is written from the far end of RAM X backwards.
pub open spec fn gray_ram_x(b: int, k: int) -> u16 {
    (OTP_RAM_WIDTH - 1 - (b * 8 + k)) as u16
}

/// The gray-plane row `ram_y`: bit `k` of byte `b` is set exactly when the
/// portrait plane has the pixel under RAM X [`gray_ram_x`].
pub open spec fn gray_row_shows(row: Seq<u8>, official: Seq<u8>, ram_y: u16) -> bool {
    forall|b: int, k: u8|
        0 <= b < OTP_BYTES_PER_ROW && k < 8 ==> (!#[trigger] is_black(row[b], k) <==> plane_bit(
            official,
            ram_to_phys(gray_ram_x(b, k as int), ram_y).0,
            ram_to_phys(gray_ram_x(b, k as int), ram_y).1,
        ))
}

/// Setting one pixel's bit whitens (sets) that pixel and leaves the others.
proof fn lemma_set_pixel(v: u8, k: u8, m: u8)
    requires
        k < 8,
        m < 8,
    ensures
        !is_black(v | pixel_mask(k), m) == (k == m || !is_black(v, m)),
{
    assert(((v | (0x80u8 >> k)) & (0x80u8 >> m) != 0) == (k == m || v & (0x80u8 >> m) != 0)) by (bit_vector)
        requires
            k < 8,
            m < 8,
    ;
}

/// Builds RAM row `ram_y` of one 4-gray plane from its portrait plane.
pub fn gray_plane_row(row: &mut [u8], official: &[u8], ram_y: u16)
    requires
        old(row)@.len() == OTP_BYTES_PER_ROW,
    ensures
        final(row)@.len() == OTP_BYTES_PER_ROW,
        gray_row_shows(final(row)@, official@, ram_y),
{
    let n = row.len();
    let mut byte_i: usize = 0;
    while byte_i < n
        invariant
            n == row@.len(),
            n == OTP_BYTES_PER_ROW,
            byte_i <= n,
            forall|b: int, k: u8|
                0 <= b < byte_i && k < 8 ==> (!#[trigger] is_black(row@[b], k) <==> plane_bit(
                    official@,
                    ram_to_phys(gray_ram_x(b, k as int), ram_y).0,
                    ram_to_phys(gray_ram_x(b, k as int), ram_y).1,
                )),
        decreases n - byte_i,
    {
        let mut v: u8 = 0;
        assert forall|k: u8| k < 8 implies #[trigger] is_black(v, k) by {
            assert(0u8 & (0x80u8 >> k) == 0) by (bit_vector);
        }
        let mut bit: u16 = 0;
        while bit < 8
            invariant
                byte_i < n,
                n == OTP_BYTES_PER_ROW,
                bit <= 8,
                forall|k: u8|
                    k < 8 ==> (!#[trigger] is_black(v, k) <==> (k < bit && plane_bit(
                        official@,
                        ram_to_phys(gray_ram_x(byte_i as int, k as int), ram_y).0,
                        ram_to_phys(gray_ram_x(byte_i as int, k as int), ram_y).1,
                    ))),
            decreases 8 - bit,
        {
            let ram_x: u16 = OTP_RAM_WIDTH - 1 - ((byte_i as u16) * 8 + bit);
            let (px, py) = otp_ram_to_usb_down(ram_x, ram_y);
            if official_bit(official, px, py) {
                let ghost before = v;
                v = v | (0x80u8 >> (bit as u8));
                proof {
                    assert forall|k: u8| k < 8 implies (!#[trigger] is_black(v, k) <==> (k < bit + 1 && plane_bit(
                        official@,
                        ram_to_phys(gray_ram_x(byte_i as int, k as int), ram_y).0,
                        ram_to_phys(gray_ram_x(byte_i as int, k as int), ram_y).1,
                    ))) by {
                        lemma_set_pixel(before, bit as u8, k);
                    }
                }
            }
            bit += 1;
        }
        row[byte_i] = v;
        byte_i += 1;
    }
}

/// Partial refreshes allowed after a full one: past this count a card
/// change or a target mark takes a full refresh first, to keep the panel
/// DC-balanced.
pub const PARTIALS_BEFORE_FULL: u8 = 18;

/// How a mono frame is put on the panel.
#[derive(Debug, Clone, Copy, PartialEq, Eq, Structural)]
pub enum MonoRefresh {
    /// Full mono refresh (clears ghosting, resets the partial count).
    Full,
    /// OTP partial refresh.
    Partial,
}

/// Whether the panel holds a mono baseline, and how many partial refreshes
/// ran since the last full one.
pub struct RefreshPolicy {
    /// A full mono refresh ran since the last gray frame.
    pub mono_ready: bool,
    /// Partial refreshes since then.
    pub partials: u8,
}

/// The refresh a mono frame takes: full without a baseline, or on a card
/// change once the partial budget is spent; partial otherwise (a same-card
/// redraw, `soft`, stays partial past the budget).
pub open spec fn spec_mono_refresh(p: RefreshPolicy, soft: bool) -> MonoRefresh {
    if !p.mono_ready || (!soft && p.partials >= PARTIALS_BEFORE_FULL) {
        MonoRefresh::Full
    } else {
        MonoRefresh::Partial
    }
}

/// Whether painting `mark` first takes a full refresh: a blank mark is
/// only that; without a baseline one is made first; and once the partial
/// budget is spent a full refresh comes before the mark's partial update.
pub open spec fn spec_mark_needs_full(p: RefreshPolicy, mark: Mark) -> bool {
    mark == Mark::Blank || !p.mono_ready || p.partials >= PARTIALS_BEFORE_FULL
}

impl RefreshPolicy {
    /// Power-on: no baseline.
    pub fn new() -> (p: RefreshPolicy)
        ensures
            !p.mono_ready && p.partials == 0,
    {
        RefreshPolicy { mono_ready: false, partials: 0 }
    }

    /// The refresh for a mono frame.
    pub fn mono_refresh(&self, soft: bool) -> (r: MonoRefresh)
        ensures
            r == spec_mono_refresh(*self, soft),
    {
        let budget_exhausted = PARTIALS_BEFORE_FULL > 0 && self.partials >= PARTIALS_BEFORE_FULL;
        if !self.mono_ready || (!soft && budget_exhausted) {
            MonoRefresh::Full
        } else {
            MonoRefresh::Partial
        }
    }

    /// Whether painting `mark` first needs a full refresh.
    pub fn mark_needs_full(&self, mark: Mark) -> (full: bool)
        ensures
            full == spec_mark_needs_full(*self, mark),
    {
        match mark {
            Mark::Blank => true,
            _ => !self.mono_ready || self.partials >= PARTIALS_BEFORE_FULL,
        }
    }

    /// A full mono refresh ran.
    pub fn note_full(&mut self)
        ensures
            final(self).mono_ready && final(self).partials == 0,
    {
        self.mono_ready = true;
        self.partials = 0;
    }

    /// A partial refresh ran.
    pub fn note_partial(&mut self)
        ensures
            final(self).mono_ready == old(self).mono_ready,
            final(self).partials == (if old(self).partials == 255 { 255 } else { old(self).partials + 1 }),
    {
        self.partials = self.partials.saturating_add(1);
    }

    /// A gray frame ran: the mono baseline is gone.
    pub fn note_gray(&mut self)
        ensures
            !final(self).mono_ready && final(self).partials == 0,
    {
        self.mono_ready = false;
        self.partials = 0;
    }
}

/// The partial budget: once `PARTIALS_BEFORE_FULL` partial refreshes ran
/// since the last full one, a card change and every target mark take a
/// full refresh first, which resets the count. Only a same-card redraw
/// (`soft`) may stay partial past the budget, until the next card change
/// or mark.
pub proof fn law_partial_budget(p: RefreshPolicy, mark: Mark)
    requires
        p.partials >= PARTIALS_BEFORE_FULL,
    ensures
        spec_mono_refresh(p, false) == MonoRefresh::Full,
        spec_mark_needs_full(p, mark),
{
}

/// Between two full refreshes, the count of partial refreshes that a card
/// change or a mark may start from never passes the budget: a policy that
/// takes the partial path for either is under the budget, and after that
/// partial the count is at most the budget.
pub proof fn law_partial_stays_in_budget(p: RefreshPolicy, mark: Mark)
    requires
        spec_mono_refresh(p, false) == MonoRefresh::Partial || !spec_mark_needs_full(p, mark),
    ensures
        p.partials < PARTIALS_BEFORE_FULL,
        p.partials + 1 <= PARTIALS_BEFORE_FULL,
{
}

} // verus!
