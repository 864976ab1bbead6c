//! What the Bluetooth pairing, hardware legend and gray tone cards and the
//! sleep notice draw, as lists of drawing steps in
//! page coordinates: clears, filled and outlined rectangles in one of the
//! four gray tones, and lines of 10x20 text anchored left or centred. The
//! caller carries the steps out through its graphics stack, in order
//! (frames and rules first, so no text is overdrawn).

use vstd::prelude::*;
use crate::firmware::layout::{spec_ble_layout, BleLayout};
use crate::firmware::radio::{fail_text, BleFailReason, BlePairStatus};
use crate::log::ChargeSample;
use crate::m5pm1::{battery_percent, spec_battery_percent, PWR_SRC_VIN, VIN_PRESENT_MV};
use crate::ssd1677::{GRAY_BLACK, GRAY_DARK, GRAY_LIGHT, GRAY_WHITE};
use crate::text::{dec, push_dec, push_str, sb};

verus! {

/// One drawing step.
#[derive(Debug, Clone, PartialEq, Eq)]
pub enum DrawOp {
    /// Fill the whole page with a tone.
    Clear(u8),
    /// Fill a rectangle.
    Fill { x: u16, y: u16, w: u16, h: u16, tone: u8 },
    /// Outline a rectangle, one pixel wide.
    Stroke { x: u16, y: u16, w: u16, h: u16, tone: u8 },
    /// A line of text in black: `x` is the left edge, or the centre when
    /// `centered`; `y` is the baseline.
    Text { x: i32, y: i32, centered: bool, text: Vec<u8> },
}

/// A drawing step, with its text as bytes.
pub enum DrawSpec {
    /// Fill the whole page with a tone.
    Clear(u8),
    /// Fill a rectangle.
    Fill { x: u16, y: u16, w: u16, h: u16, tone: u8 },
    /// Outline a rectangle.
    Stroke { x: u16, y: u16, w: u16, h: u16, tone: u8 },
    /// A line of text.
    Text { x: int, y: int, centered: bool, text: Seq<u8> },
}

impl View for DrawOp {
    type V = DrawSpec;

    open spec fn view(&self) -> DrawSpec {
        match self {
            DrawOp::Clear(t) => DrawSpec::Clear(*t),
            DrawOp::Fill { x, y, w, h, tone } => DrawSpec::Fill { x: *x, y: *y, w: *w, h: *h, tone: *tone },
            DrawOp::Stroke { x, y, w, h, tone } => DrawSpec::Stroke { x: *x, y: *y, w: *w, h: *h, tone: *tone },
            DrawOp::Text { x, y, centered, text } => DrawSpec::Text { x: *x as int, y: *y as int, centered: *centered, text: text@ },
        }
    }
}

/// The steps of a list.
pub open spec fn ops_view(ops: Seq<DrawOp>) -> Seq<DrawSpec> {
    ops.map_values(|o: DrawOp| o@)
}

/// `a * b`, stopping at `u16::MAX`.
pub open spec fn sat_mul16(a: u16, b: u16) -> u16 {
    if a * b > u16::MAX { u16::MAX } else { (a * b) as u16 }
}

/// Centred text.
pub open spec fn centred(x: int, y: int, s: &str) -> DrawSpec {
    DrawSpec::Text { x, y, centered: true, text: sb(s) }
}

/// The digit box `i` (0..6) of the PIN row.
pub open spec fn digit_box(l: BleLayout, i: u16) -> DrawSpec {
    DrawSpec::Stroke {
        x: l.digit_x0.saturating_add(sat_mul16(i, l.digit_pitch)),
        y: l.digit_y,
        w: l.digit_w,
        h: l.digit_h,
        tone: GRAY_BLACK,
    }
}

/// The centre of digit box `i`.
pub open spec fn digit_centre(l: BleLayout, i: int) -> int {
    l.digit_x0 + l.digit_pitch * i + l.digit_w / 2
}

/// Digit `i` (0 the most significant) of a six-digit PIN, as an ASCII byte.
pub open spec fn pin_digit(pin: u32, i: int) -> u8 {
    let p: u32 = if i == 0 {
        100_000
    } else if i == 1 {
        10_000
    } else if i == 2 {
        1_000
    } else if i == 3 {
        100
    } else if i == 4 {
        10
    } else {
        1
    };
    ((pin / p) % 10 + 48) as u8
}

/// The instruction under the device line.
pub open spec fn instruction_text(st: BlePairStatus) -> &'static str {
    match st {
        BlePairStatus::Pairing(_) => "Enter this PIN code on your phone:",
        BlePairStatus::Success => "Device paired and connected!",
        BlePairStatus::Failed(_) => "Pairing attempt failed",
        BlePairStatus::Connected => "Connecting, negotiating pairing...",
        BlePairStatus::Advertising => "Discoverable as 'PaperMono'",
        BlePairStatus::Disabled => "BLE radio disabled in build",
    }
}

/// Frames and rules: the page cleared white, the header rule, the double
/// PIN frame, the banner (paired) or the six digit boxes, the mid rule,
/// the double status box (paired or failed), the light tutorial rule and
/// the footer rule.
pub open spec fn ble_frames(st: BlePairStatus, l: BleLayout) -> Seq<DrawSpec> {
    seq![
        DrawSpec::Clear(GRAY_WHITE),
        DrawSpec::Fill { x: l.rule_x, y: l.header_bar_y, w: l.rule_w, h: 2, tone: GRAY_BLACK },
        DrawSpec::Stroke { x: l.pin_frame_x, y: l.pin_frame_y, w: l.pin_frame_w, h: l.pin_frame_h, tone: GRAY_BLACK },
        DrawSpec::Stroke {
            x: l.pin_frame_x.saturating_add(3),
            y: l.pin_frame_y.saturating_add(3),
            w: l.pin_frame_w.saturating_sub(6),
            h: l.pin_frame_h.saturating_sub(6),
            tone: GRAY_BLACK,
        },
    ] + (if st is Success {
        seq![DrawSpec::Stroke { x: l.banner_x, y: l.digit_y, w: l.banner_w, h: l.digit_h, tone: GRAY_BLACK }]
    } else {
        seq![digit_box(l, 0), digit_box(l, 1), digit_box(l, 2), digit_box(l, 3), digit_box(l, 4), digit_box(l, 5)]
    }) + seq![DrawSpec::Fill { x: l.rule_x, y: l.mid_bar_y, w: l.rule_w, h: 2, tone: GRAY_BLACK }] + (if st is Success
        || st is Failed {
        seq![
            DrawSpec::Stroke { x: l.status_x, y: l.status_y, w: l.status_w, h: l.status_h, tone: GRAY_BLACK },
            DrawSpec::Stroke {
                x: l.status_x.saturating_add(2),
                y: l.status_y.saturating_add(2),
                w: l.status_w.saturating_sub(4),
                h: l.status_h.saturating_sub(4),
                tone: GRAY_BLACK,
            },
        ]
    } else {
        Seq::empty()
    }) + seq![
        DrawSpec::Fill { x: l.rule_x, y: l.tutorial_bar_y, w: l.rule_w, h: 1, tone: GRAY_LIGHT },
        DrawSpec::Fill { x: l.rule_x, y: l.footer_bar_y, w: l.rule_w, h: 2, tone: GRAY_BLACK },
    ]
}

/// What the PIN row says: the six digits while pairing, `P A I R E D`
/// once paired, six dashes otherwise.
pub open spec fn ble_pin_row(st: BlePairStatus, l: BleLayout) -> Seq<DrawSpec> {
    let y = l.digit_baseline as int;
    match st {
        BlePairStatus::Pairing(pin) => Seq::new(6, |i: int| DrawSpec::Text {
            x: digit_centre(l, i),
            y,
            centered: true,
            text: seq![pin_digit(pin, i)],
        }),
        BlePairStatus::Success => seq![centred(l.cx as int, y, "P A I R E D")],
        _ => Seq::new(6, |i: int| centred(digit_centre(l, i), y, "-")),
    }
}

/// The status lines.
pub open spec fn ble_status(st: BlePairStatus, l: BleLayout) -> Seq<DrawSpec> {
    let cx = l.cx as int;
    let t = l.status_text_y as int;
    let d = l.status_detail_y as int;
    match st {
        BlePairStatus::Success => seq![centred(cx, t, "SUCCESS"), centred(cx, d, "Bluetooth connection encrypted.")],
        BlePairStatus::Failed(r) => seq![
            centred(cx, t, "FAILED"),
            DrawSpec::Text { x: cx, y: d, centered: true, text: sb("Why: ") + sb(fail_text(r)) },
            centred(cx, l.status_hint_y as int, "Retry pairing from phone settings."),
        ],
        BlePairStatus::Connected => seq![centred(cx, t, "Status: Phone connected"), centred(cx, d, "Awaiting passkey exchange...")],
        BlePairStatus::Pairing(_) => seq![centred(cx, t, "Status: Pairing in progress"), centred(cx, d, "Enter PIN shown above on phone")],
        BlePairStatus::Advertising => seq![centred(cx, t, "Status: Ready to pair"), centred(cx, d, "Select 'PaperMono' in phone Bluetooth")],
        BlePairStatus::Disabled => seq![centred(cx, t, "Status: Radio disabled in build")],
    }
}

/// Tutorial step `i` (0..4).
pub open spec fn tutorial_step(i: int) -> &'static str {
    if i == 0 {
        "1. Open Settings -> Bluetooth on phone"
    } else if i == 1 {
        "2. Select 'PaperMono' under devices"
    } else if i == 2 {
        "3. Wait for pairing passkey prompt"
    } else {
        "4. Enter the 6-digit PIN shown above"
    }
}

/// The four tutorial steps, left-anchored: one column 35 apart upright,
/// two columns 380 apart and rows 32 apart sideways.
pub open spec fn ble_tutorial(l: BleLayout, portrait: bool) -> Seq<DrawSpec> {
    Seq::new(4, |i: int| DrawSpec::Text {
        x: if portrait { l.step_x as int } else { l.step_x + (i % 2) * 380 },
        y: if portrait { l.step_y0 + 35 * i } else { l.step_y0 + (i / 2) * 32 },
        centered: false,
        text: sb(tutorial_step(i)),
    })
}

/// Everything the Bluetooth card draws, in order.
pub open spec fn ble_card_ops(st: BlePairStatus, l: BleLayout, portrait: bool) -> Seq<DrawSpec> {
    let cx = l.cx as int;
    ble_frames(st, l) + seq![
        centred(cx, l.title_y as int, "BLUETOOTH PAIRING"),
        centred(cx, l.device_y as int, "Device: PaperMono"),
        centred(cx, l.instruction_y as int, instruction_text(st)),
    ] + ble_pin_row(st, l) + ble_status(st, l) + seq![centred(cx, l.howto_y as int, "HOW TO PAIR")]
        + ble_tutorial(l, portrait) + seq![centred(cx, l.footer_y as int, "BUTTON A: Prev   |   BUTTON B: Next")]
}

fn push_op(ops: &mut Vec<DrawOp>, op: DrawOp)
    ensures
        ops_view(final(ops)@) == ops_view(old(ops)@).push(op@),
{
    let ghost before = ops@;
    ops.push(op);
    proof {
        assert(ops_view(ops@) =~= ops_view(before).push(op@));
    }
}

fn push_text(ops: &mut Vec<DrawOp>, x: i32, y: i32, centered: bool, s: &str)
    ensures
        ops_view(final(ops)@) == ops_view(old(ops)@).push(DrawSpec::Text { x: x as int, y: y as int, centered, text: sb(s) }),
{
    let mut text: Vec<u8> = Vec::new();
    push_str(&mut text, s);
    assert(text@ =~= sb(s));
    push_op(ops, DrawOp::Text { x, y, centered, text });
}

fn sat_mul(a: u16, b: u16) -> (r: u16)
    ensures
        r == sat_mul16(a, b),
{
    match a.checked_mul(b) {
        Some(v) => v,
        None => u16::MAX,
    }
}

fn instruction(st: BlePairStatus) -> (s: &'static str)
    ensures
        s == instruction_text(st),
{
    match st {
        BlePairStatus::Pairing(_) => "Enter this PIN code on your phone:",
        BlePairStatus::Success => "Device paired and connected!",
        BlePairStatus::Failed(_) => "Pairing attempt failed",
        BlePairStatus::Connected => "Connecting, negotiating pairing...",
        BlePairStatus::Advertising => "Discoverable as 'PaperMono'",
        BlePairStatus::Disabled => "BLE radio disabled in build",
    }
}

fn tutorial(i: usize) -> (s: &'static str)
    ensures
        s == tutorial_step(i as int),
{
    if i == 0 {
        "1. Open Settings -> Bluetooth on phone"
    } else if i == 1 {
        "2. Select 'PaperMono' under devices"
    } else if i == 2 {
        "3. Wait for pairing passkey prompt"
    } else {
        "4. Enter the 6-digit PIN shown above"
    }
}

#[verifier::spinoff_prover]
#[verifier::rlimit(50)]
fn push_frames(ops: &mut Vec<DrawOp>, st: BlePairStatus, l: BleLayout)
    ensures
        ops_view(final(ops)@) == ops_view(old(ops)@) + ble_frames(st, l),
{
    let ghost before = ops_view(ops@);
    push_op(ops, DrawOp::Clear(GRAY_WHITE));
    push_op(ops, DrawOp::Fill { x: l.rule_x, y: l.header_bar_y, w: l.rule_w, h: 2, tone: GRAY_BLACK });
    push_op(ops, DrawOp::Stroke { x: l.pin_frame_x, y: l.pin_frame_y, w: l.pin_frame_w, h: l.pin_frame_h, tone: GRAY_BLACK });
    push_op(ops, DrawOp::Stroke {
        x: l.pin_frame_x.saturating_add(3),
        y: l.pin_frame_y.saturating_add(3),
        w: l.pin_frame_w.saturating_sub(6),
        h: l.pin_frame_h.saturating_sub(6),
        tone: GRAY_BLACK,
    });
    if matches!(st, BlePairStatus::Success) {
        push_op(ops, DrawOp::Stroke { x: l.banner_x, y: l.digit_y, w: l.banner_w, h: l.digit_h, tone: GRAY_BLACK });
    } else {
        let mut i: u16 = 0;
        while i < 6
            invariant
                i <= 6,
                ops_view(ops@) == before + ble_frames(st, l).subrange(0, 4 + i as int),
                !(st is Success),
            decreases 6 - i,
        {
            let x = l.digit_x0.saturating_add(sat_mul(i, l.digit_pitch));
            push_op(ops, DrawOp::Stroke { x, y: l.digit_y, w: l.digit_w, h: l.digit_h, tone: GRAY_BLACK });
            proof {
                assert(ble_frames(st, l)[4 + i as int] == digit_box(l, i));
                assert(ble_frames(st, l).subrange(0, 4 + i + 1 as int) =~= ble_frames(st, l).subrange(0, 4 + i as int).push(
                    digit_box(l, i),
                ));
            }
            i += 1;
        }
    }
    push_op(ops, DrawOp::Fill { x: l.rule_x, y: l.mid_bar_y, w: l.rule_w, h: 2, tone: GRAY_BLACK });
    if matches!(st, BlePairStatus::Success | BlePairStatus::Failed(_)) {
        push_op(ops, DrawOp::Stroke { x: l.status_x, y: l.status_y, w: l.status_w, h: l.status_h, tone: GRAY_BLACK });
        push_op(ops, DrawOp::Stroke {
            x: l.status_x.saturating_add(2),
            y: l.status_y.saturating_add(2),
            w: l.status_w.saturating_sub(4),
            h: l.status_h.saturating_sub(4),
            tone: GRAY_BLACK,
        });
    }
    push_op(ops, DrawOp::Fill { x: l.rule_x, y: l.tutorial_bar_y, w: l.rule_w, h: 1, tone: GRAY_LIGHT });
    push_op(ops, DrawOp::Fill { x: l.rule_x, y: l.footer_bar_y, w: l.rule_w, h: 2, tone: GRAY_BLACK });
    assert(ops_view(ops@) =~= before + ble_frames(st, l));
}

fn push_pin_row(ops: &mut Vec<DrawOp>, st: BlePairStatus, l: BleLayout)
    ensures
        ops_view(final(ops)@) == ops_view(old(ops)@) + ble_pin_row(st, l),
{
    let ghost before = ops_view(ops@);
    let y = l.digit_baseline;
    match st {
        BlePairStatus::Success => {
            push_text(ops, l.cx, y, true, "P A I R E D");
            assert(ops_view(ops@) =~= before + ble_pin_row(st, l));
        },
        _ => {
            let mut i: u16 = 0;
            while i < 6
                invariant
                    i <= 6,
                    !(st is Success),
                    y == l.digit_baseline,
                    ops_view(ops@) == before + ble_pin_row(st, l).subrange(0, i as int),
                decreases 6 - i,
            {
                let pitch = l.digit_pitch as i32;
                let k = i as i32;
                assert(0 <= pitch * k <= 65535 * 5) by (nonlinear_arith)
                    requires
                        0 <= pitch <= 65535,
                        0 <= k <= 5,
                ;
                let x: i32 = l.digit_x0 as i32 + pitch * k + (l.digit_w / 2) as i32;
                match st {
                    BlePairStatus::Pairing(pin) => {
                        let p: u32 = if i == 0 {
                            100_000
                        } else if i == 1 {
                            10_000
                        } else if i == 2 {
                            1_000
                        } else if i == 3 {
                            100
                        } else if i == 4 {
                            10
                        } else {
                            1
                        };
                        let d: u8 = ((pin / p) % 10) as u8 + 48;
                        let text = vec![d];
                        assert(text@ =~= seq![pin_digit(pin, i as int)]);
                        push_op(ops, DrawOp::Text { x, y, centered: true, text });
                    },
                    _ => {
                        push_text(ops, x, y, true, "-");
                    },
                }
                proof {
                    assert(ble_pin_row(st, l).subrange(0, i + 1 as int) =~= ble_pin_row(st, l).subrange(0, i as int).push(
                        ble_pin_row(st, l)[i as int],
                    ));
                }
                i += 1;
            }
            assert(ble_pin_row(st, l).subrange(0, 6) =~= ble_pin_row(st, l));
        },
    }
}

fn push_status(ops: &mut Vec<DrawOp>, st: BlePairStatus, l: BleLayout)
    ensures
        ops_view(final(ops)@) == ops_view(old(ops)@) + ble_status(st, l),
{
    let ghost before = ops_view(ops@);
    let cx = l.cx;
    let t = l.status_text_y;
    let d = l.status_detail_y;
    match st {
        BlePairStatus::Success => {
            push_text(ops, cx, t, true, "SUCCESS");
            push_text(ops, cx, d, true, "Bluetooth connection encrypted.");
        },
        BlePairStatus::Failed(r) => {
            push_text(ops, cx, t, true, "FAILED");
            let mut text: Vec<u8> = Vec::new();
            push_str(&mut text, "Why: ");
            push_str(&mut text, r.as_str());
            assert(text@ =~= sb("Why: ") + sb(fail_text(r)));
            push_op(ops, DrawOp::Text { x: cx, y: d, centered: true, text });
            push_text(ops, cx, l.status_hint_y, true, "Retry pairing from phone settings.");
        },
        BlePairStatus::Connected => {
            push_text(ops, cx, t, true, "Status: Phone connected");
            push_text(ops, cx, d, true, "Awaiting passkey exchange...");
        },
        BlePairStatus::Pairing(_) => {
            push_text(ops, cx, t, true, "Status: Pairing in progress");
            push_text(ops, cx, d, true, "Enter PIN shown above on phone");
        },
        BlePairStatus::Advertising => {
            push_text(ops, cx, t, true, "Status: Ready to pair");
            push_text(ops, cx, d, true, "Select 'PaperMono' in phone Bluetooth");
        },
        BlePairStatus::Disabled => {
            push_text(ops, cx, t, true, "Status: Radio disabled in build");
        },
    }
    assert(ops_view(ops@) =~= before + ble_status(st, l));
}

fn push_tutorial(ops: &mut Vec<DrawOp>, l: BleLayout, portrait: bool)
    requires
        l.step_y0 + 35 * 3 <= i32::MAX,
        l.step_y0 >= i32::MIN,
    ensures
        ops_view(final(ops)@) == ops_view(old(ops)@) + ble_tutorial(l, portrait),
{
    let ghost before = ops_view(ops@);
    let mut i: usize = 0;
    while i < 4
        invariant
            i <= 4,
            l.step_y0 + 35 * 3 <= i32::MAX,
            ops_view(ops@) == before + ble_tutorial(l, portrait).subrange(0, i as int),
        decreases 4 - i,
    {
        let (x, y) = if portrait {
            (l.step_x as i32, l.step_y0 + 35 * (i as i32))
        } else {
            (l.step_x as i32 + ((i % 2) as i32) * 380, l.step_y0 + ((i / 2) as i32) * 32)
        };
        push_text(ops, x, y, false, tutorial(i));
        proof {
            assert(ble_tutorial(l, portrait).subrange(0, i + 1 as int) =~= ble_tutorial(l, portrait).subrange(0, i as int).push(
                ble_tutorial(l, portrait)[i as int],
            ));
        }
        i += 1;
    }
    assert(ble_tutorial(l, portrait).subrange(0, 4) =~= ble_tutorial(l, portrait));
}

/// The drawing steps of the Bluetooth pairing card for pairing status
/// `st`, on a page `page_w` wide, upright or not.
pub fn bluetooth_card(st: BlePairStatus, page_w: u16, portrait: bool) -> (ops: Vec<DrawOp>)
    ensures
        ops_view(ops@) == ble_card_ops(st, spec_ble_layout(page_w, portrait), portrait),
{
    let l = BleLayout::for_rotation(page_w, portrait);
    let mut ops: Vec<DrawOp> = Vec::new();
    assert(ops_view(ops@) =~= Seq::<DrawSpec>::empty());
    let ghost a = ops_view(ops@);
    push_frames(&mut ops, st, l);
    let cx = l.cx;
    push_text(&mut ops, cx, l.title_y, true, "BLUETOOTH PAIRING");
    push_text(&mut ops, cx, l.device_y, true, "Device: PaperMono");
    push_text(&mut ops, cx, l.instruction_y, true, instruction(st));
    push_pin_row(&mut ops, st, l);
    push_status(&mut ops, st, l);
    push_text(&mut ops, cx, l.howto_y, true, "HOW TO PAIR");
    push_tutorial(&mut ops, l, portrait);
    push_text(&mut ops, cx, l.footer_y, true, "BUTTON A: Prev   |   BUTTON B: Next");
    assert(ops_view(ops@) =~= ble_card_ops(st, l, portrait));
    ops
}


/// Key `i` (0..8) of the hardware legend.
pub open spec fn legend_key(i: int) -> &'static str {
    if i == 0 {
        "BUTTON A (GPIO2)"
    } else if i == 1 {
        "BUTTON B (GPIO3)"
    } else if i == 2 {
        "SLEEP & WAKE"
    } else if i == 3 {
        "RIGHT GUTTER"
    } else if i == 4 {
        "TOUCH DIGITIZER"
    } else if i == 5 {
        "PMIC (M5PM1)"
    } else if i == 6 {
        "EXPANDER (M5IOE1)"
    } else {
        "POWER BUTTON"
    }
}

/// Value `i` (0..8) of the hardware legend.
pub open spec fn legend_value(i: int) -> &'static str {
    if i == 0 {
        "Previous card / hold 2s sleep"
    } else if i == 1 {
        "Next card / hold 1s wake"
    } else if i == 2 {
        "Hold A 2s: sleep. Hold A/B 1s: wake"
    } else if i == 3 {
        "Frontlight brightness slider"
    } else if i == 4 {
        "FT6336G capacitive I2C (0x38)"
    } else if i == 5 {
        "Power rails, buttons, battery ADC"
    } else if i == 6 {
        "Power gates & peripheral resets"
    } else {
        "Short press reset / hold download"
    }
}

/// The legend rows, key then value for each item: upright, keys at x 30
/// and values at x 50 25 lower, rows 70 apart from y 90 with 10 more
/// after the expander row; sideways, keys at x 24 and values at x 220 on
/// the same line, rows 36 apart from y 80.
pub open spec fn legend_rows(portrait: bool) -> Seq<DrawSpec> {
    Seq::new(16, |j: int| {
        let i = j / 2;
        let y: int = if portrait { 90 + 70 * i + (if i >= 7 { 10int } else { 0 }) } else { 80 + 36 * i };
        if j % 2 == 0 {
            DrawSpec::Text { x: if portrait { 30 } else { 24 }, y, centered: false, text: sb(legend_key(i)) }
        } else {
            DrawSpec::Text {
                x: if portrait { 50 } else { 220 },
                y: if portrait { y + 25 } else { y },
                centered: false,
                text: sb(legend_value(i)),
            }
        }
    })
}

/// The battery band's rows: the rule, the band title, the gauge, its
/// terminal, the metrics, the power line and the cell line. Upright they
/// are fixed; sideways they hang from a rule 120 above the page's bottom.
pub open spec fn band_rows(page_h: u16, portrait: bool) -> (u16, int, u16, u16, int, int, int) {
    if portrait {
        (638u16, 665int, 680u16, 685u16, 697int, 727int, 755int)
    } else {
        let rule = page_h.saturating_sub(120);
        (rule, rule + 20, rule.saturating_add(32), rule.saturating_add(37), rule + 48, rule + 72, rule + 96)
    }
}

/// The metrics line: charge and battery voltage, or dashes without a
/// sample.
pub open spec fn metrics_text(charge: Option<ChargeSample>) -> Seq<u8> {
    match charge {
        Some(c) => dec(spec_battery_percent(c.vbat as int) as nat) + sb("%  [ ") + dec(c.vbat as nat) + sb(" mV ]"),
        None => sb("--%  [ ---- mV ]"),
    }
}

/// USB power is present: the PMIC reports VIN as the source, or VIN
/// reads at least [`VIN_PRESENT_MV`].
pub open spec fn on_usb(c: ChargeSample) -> bool {
    c.src & PWR_SRC_VIN != 0 || c.vin >= VIN_PRESENT_MV
}

/// The power line.
pub open spec fn power_text(charge: Option<ChargeSample>) -> Seq<u8> {
    match charge {
        Some(c) => if on_usb(c) {
            sb("Power: USB connected (VIN: ") + dec(c.vin as nat) + sb(" mV)")
        } else {
            sb("Power: Running on battery")
        },
        None => sb("Power: Running on battery"),
    }
}

/// Everything the hardware legend card draws: the page cleared white, the
/// title, the legend rows, then the battery band (rule, gauge outline and
/// terminal, the gauge filled one pixel per percent when there is a
/// sample, and four lines of text).
pub open spec fn legend_card_ops(charge: Option<ChargeSample>, page_w: u16, page_h: u16, portrait: bool) -> Seq<DrawSpec> {
    let (rule_y, title_y, gauge_y, terminal_y, metrics_y, pwr_y, lipo_y) = band_rows(page_h, portrait);
    seq![
        DrawSpec::Clear(GRAY_WHITE),
        centred((page_w / 2) as int, if portrait { 50 } else { 36 }, "HARDWARE LEGEND"),
    ] + legend_rows(portrait) + seq![
        DrawSpec::Fill { x: 30, y: rule_y, w: page_w.saturating_sub(60), h: 2, tone: GRAY_BLACK },
        DrawSpec::Stroke { x: 30, y: gauge_y, w: 104, h: 20, tone: GRAY_BLACK },
        DrawSpec::Fill { x: 134, y: terminal_y, w: 4, h: 10, tone: GRAY_BLACK },
    ] + (match charge {
        Some(c) => seq![DrawSpec::Fill {
            x: 32,
            y: gauge_y.saturating_add(2),
            w: spec_battery_percent(c.vbat as int) as u16,
            h: 16,
            tone: GRAY_BLACK,
        }],
        None => Seq::empty(),
    }) + seq![
        DrawSpec::Text { x: 30, y: title_y, centered: false, text: sb("BATTERY & POWER STATUS") },
        DrawSpec::Text { x: 150, y: metrics_y, centered: false, text: metrics_text(charge) },
        DrawSpec::Text { x: 30, y: pwr_y, centered: false, text: power_text(charge) },
        DrawSpec::Text { x: 30, y: lipo_y, centered: false, text: sb("1S LiPo: 3300 mV (0%) - 4150 mV (100%)") },
    ]
}

fn legend_key_at(i: usize) -> (s: &'static str)
    ensures
        s == legend_key(i as int),
{
    if i == 0 {
        "BUTTON A (GPIO2)"
    } else if i == 1 {
        "BUTTON B (GPIO3)"
    } else if i == 2 {
        "SLEEP & WAKE"
    } else if i == 3 {
        "RIGHT GUTTER"
    } else if i == 4 {
        "TOUCH DIGITIZER"
    } else if i == 5 {
        "PMIC (M5PM1)"
    } else if i == 6 {
        "EXPANDER (M5IOE1)"
    } else {
        "POWER BUTTON"
    }
}

fn legend_value_at(i: usize) -> (s: &'static str)
    ensures
        s == legend_value(i as int),
{
    if i == 0 {
        "Previous card / hold 2s sleep"
    } else if i == 1 {
        "Next card / hold 1s wake"
    } else if i == 2 {
        "Hold A 2s: sleep. Hold A/B 1s: wake"
    } else if i == 3 {
        "Frontlight brightness slider"
    } else if i == 4 {
        "FT6336G capacitive I2C (0x38)"
    } else if i == 5 {
        "Power rails, buttons, battery ADC"
    } else if i == 6 {
        "Power gates & peripheral resets"
    } else {
        "Short press reset / hold download"
    }
}

fn push_legend_rows(ops: &mut Vec<DrawOp>, portrait: bool)
    ensures
        ops_view(final(ops)@) == ops_view(old(ops)@) + legend_rows(portrait),
{
    let ghost before = ops_view(ops@);
    let mut i: usize = 0;
    while i < 8
        invariant
            i <= 8,
            ops_view(ops@) == before + legend_rows(portrait).subrange(0, 2 * i as int),
        decreases 8 - i,
    {
        let y: i32 = if portrait {
            90 + 70 * (i as i32) + if i >= 7 { 10 } else { 0 }
        } else {
            80 + 36 * (i as i32)
        };
        if portrait {
            push_text(ops, 30, y, false, legend_key_at(i));
            push_text(ops, 50, y + 25, false, legend_value_at(i));
        } else {
            push_text(ops, 24, y, false, legend_key_at(i));
            push_text(ops, 220, y, false, legend_value_at(i));
        }
        proof {
            let r = legend_rows(portrait);
            assert((2 * i as int) / 2 == i as int && (2 * i as int) % 2 == 0);
            assert((2 * i as int + 1) / 2 == i as int && (2 * i as int + 1) % 2 == 1);
            assert(r.subrange(0, 2 * (i + 1) as int) =~= r.subrange(0, 2 * i as int).push(r[2 * i as int]).push(
                r[2 * i as int + 1],
            ));
        }
        i += 1;
    }
    assert(legend_rows(portrait).subrange(0, 16) =~= legend_rows(portrait));
}

/// The drawing steps of the hardware legend card, with the last charge
/// sample if there is one, on a `page_w` x `page_h` page.
pub fn legend_card(charge: Option<ChargeSample>, page_w: u16, page_h: u16, portrait: bool) -> (ops: Vec<DrawOp>)
    ensures
        ops_view(ops@) == legend_card_ops(charge, page_w, page_h, portrait),
{
    let mut ops: Vec<DrawOp> = Vec::new();
    assert(ops_view(ops@) =~= Seq::<DrawSpec>::empty());
    push_op(&mut ops, DrawOp::Clear(GRAY_WHITE));
    push_text(&mut ops, (page_w / 2) as i32, if portrait { 50 } else { 36 }, true, "HARDWARE LEGEND");
    push_legend_rows(&mut ops, portrait);
    let (rule_y, title_y, gauge_y, terminal_y, metrics_y, pwr_y, lipo_y): (u16, i32, u16, u16, i32, i32, i32) = if portrait {
        (638, 665, 680, 685, 697, 727, 755)
    } else {
        let rule = page_h.saturating_sub(120);
        (rule, rule as i32 + 20, rule.saturating_add(32), rule.saturating_add(37), rule as i32 + 48, rule as i32 + 72, rule as i32 + 96)
    };
    push_op(&mut ops, DrawOp::Fill { x: 30, y: rule_y, w: page_w.saturating_sub(60), h: 2, tone: GRAY_BLACK });
    push_op(&mut ops, DrawOp::Stroke { x: 30, y: gauge_y, w: 104, h: 20, tone: GRAY_BLACK });
    push_op(&mut ops, DrawOp::Fill { x: 134, y: terminal_y, w: 4, h: 10, tone: GRAY_BLACK });
    let mut metrics: Vec<u8> = Vec::new();
    let mut power: Vec<u8> = Vec::new();
    match charge {
        Some(c) => {
            let pct = battery_percent(c.vbat);
            push_op(&mut ops, DrawOp::Fill { x: 32, y: gauge_y.saturating_add(2), w: pct as u16, h: 16, tone: GRAY_BLACK });
            push_dec(&mut metrics, pct as u64);
            push_str(&mut metrics, "%  [ ");
            push_dec(&mut metrics, c.vbat as u64);
            push_str(&mut metrics, " mV ]");
            if (c.src & PWR_SRC_VIN != 0) || c.vin >= VIN_PRESENT_MV {
                push_str(&mut power, "Power: USB connected (VIN: ");
                push_dec(&mut power, c.vin as u64);
                push_str(&mut power, " mV)");
            } else {
                push_str(&mut power, "Power: Running on battery");
            }
        },
        None => {
            push_str(&mut metrics, "--%  [ ---- mV ]");
            push_str(&mut power, "Power: Running on battery");
        },
    }
    assert(metrics@ =~= metrics_text(charge));
    assert(power@ =~= power_text(charge));
    push_text(&mut ops, 30, title_y, false, "BATTERY & POWER STATUS");
    push_op(&mut ops, DrawOp::Text { x: 150, y: metrics_y, centered: false, text: metrics });
    push_op(&mut ops, DrawOp::Text { x: 30, y: pwr_y, centered: false, text: power });
    push_text(&mut ops, 30, lipo_y, false, "1S LiPo: 3300 mV (0%) - 4150 mV (100%)");
    assert(ops_view(ops@) =~= legend_card_ops(charge, page_w, page_h, portrait));
    ops
}

/// The four tones, darkest first.
pub open spec fn tone_at(i: int) -> u8 {
    if i == 0 {
        GRAY_BLACK
    } else if i == 1 {
        GRAY_DARK
    } else if i == 2 {
        GRAY_LIGHT
    } else {
        GRAY_WHITE
    }
}

/// Width of a sideways tone box: the page less 32 on each side and three
/// 16-pixel gaps, split four ways.
pub open spec fn side_box_w(page_w: u16) -> u16 {
    (page_w.saturating_sub(64).saturating_sub(48) / 4) as u16
}

/// Everything the gray tone card draws: the page cleared white, then each
/// of the four tones (black, dark, light, white) as a filled box outlined
/// in black. Upright the boxes are stacked, 140 tall at y 80, 250, 420 and
/// 590, 40 in from each side; sideways they stand side by side, 48 below
/// the top and above the bottom, 32 in from each side with 16 between.
pub open spec fn tones_card_ops(page_w: u16, page_h: u16, portrait: bool) -> Seq<DrawSpec> {
    seq![DrawSpec::Clear(GRAY_WHITE)] + Seq::new(8, |j: int| {
        let i = j / 2;
        let (x, y, w, h) = if portrait {
            (40u16, (80 + 170 * i) as u16, page_w.saturating_sub(80), 140u16)
        } else {
            ((32 + i * (side_box_w(page_w) + 16)) as u16, 48u16, side_box_w(page_w), page_h.saturating_sub(96))
        };
        if j % 2 == 0 {
            DrawSpec::Fill { x, y, w, h, tone: tone_at(i) }
        } else {
            DrawSpec::Stroke { x, y, w, h, tone: GRAY_BLACK }
        }
    })
}

fn tone_of(i: u16) -> (t: u8)
    ensures
        t == tone_at(i as int),
{
    if i == 0 {
        GRAY_BLACK
    } else if i == 1 {
        GRAY_DARK
    } else if i == 2 {
        GRAY_LIGHT
    } else {
        GRAY_WHITE
    }
}

/// The drawing steps of the gray tone card on a `page_w` x `page_h` page.
pub fn tones_card(page_w: u16, page_h: u16, portrait: bool) -> (ops: Vec<DrawOp>)
    ensures
        ops_view(ops@) == tones_card_ops(page_w, page_h, portrait),
{
    let mut ops: Vec<DrawOp> = Vec::new();
    assert(ops_view(ops@) =~= Seq::<DrawSpec>::empty());
    push_op(&mut ops, DrawOp::Clear(GRAY_WHITE));
    let ghost start = ops_view(ops@);
    let box_w = page_w.saturating_sub(64).saturating_sub(48) / 4;
    let mut i: u16 = 0;
    while i < 4
        invariant
            i <= 4,
            box_w == side_box_w(page_w),
            ops_view(ops@) == start + Seq::new(8, |j: int| tones_card_ops(page_w, page_h, portrait)[j + 1]).subrange(0, 2 * i as int),
            start == seq![DrawSpec::Clear(GRAY_WHITE)],
        decreases 4 - i,
    {
        let (x, y, w, h): (u16, u16, u16, u16) = if portrait {
            (40, 80 + 170 * i, page_w.saturating_sub(80), 140)
        } else {
            assert(i * (box_w + 16) <= 3 * 16400) by (nonlinear_arith)
                requires
                    i <= 3,
                    box_w <= 16384,
            ;
            (32 + i * (box_w + 16), 48, box_w, page_h.saturating_sub(96))
        };
        push_op(&mut ops, DrawOp::Fill { x, y, w, h, tone: tone_of(i) });
        push_op(&mut ops, DrawOp::Stroke { x, y, w, h, tone: GRAY_BLACK });
        proof {
            let r = Seq::new(8, |j: int| tones_card_ops(page_w, page_h, portrait)[j + 1]);
            assert((2 * i as int) / 2 == i as int && (2 * i as int) % 2 == 0);
            assert((2 * i as int + 1) / 2 == i as int && (2 * i as int + 1) % 2 == 1);
            assert(r.subrange(0, 2 * (i + 1) as int) =~= r.subrange(0, 2 * i as int).push(r[2 * i as int]).push(
                r[2 * i as int + 1],
            ));
        }
        i += 1;
    }
    assert(ops_view(ops@) =~= tones_card_ops(page_w, page_h, portrait));
    ops
}

/// Everything the sleep notice draws on a `page_w` x `page_h` page: the
/// page cleared white and two centred lines, 12 apart around the middle
/// (the second line's baseline one glyph height, 20, lower).
pub open spec fn sleeping_ops(page_w: u16, page_h: u16) -> Seq<DrawSpec> {
    let cx = page_w / 2;
    let cy = page_h / 2;
    seq![
        DrawSpec::Clear(GRAY_WHITE),
        centred(cx as int, cy - 6, "sleeping,"),
        centred(cx as int, cy + 6 + 20, "press A or B for 1 second to restart"),
    ]
}

/// The drawing steps of the sleep notice.
pub fn draw_sleeping(page_w: u16, page_h: u16) -> (ops: Vec<DrawOp>)
    ensures
        ops_view(ops@) == sleeping_ops(page_w, page_h),
{
    let mut ops: Vec<DrawOp> = Vec::new();
    assert(ops_view(ops@) =~= Seq::<DrawSpec>::empty());
    push_op(&mut ops, DrawOp::Clear(GRAY_WHITE));
    let cx = (page_w / 2) as i32;
    let cy = (page_h / 2) as i32;
    push_text(&mut ops, cx, cy - 6, true, "sleeping,");
    push_text(&mut ops, cx, cy + 6 + 20, true, "press A or B for 1 second to restart");
    assert(ops_view(ops@) =~= sleeping_ops(page_w, page_h));
    ops
}

} // verus!
