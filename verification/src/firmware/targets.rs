//! The touch-target walk: its steps, distances, and the decisions taken on
//! each poll while a target waits for a tap or a slide.

use vstd::prelude::*;
use crate::firmware::mic::{is_floor_sqrt, lemma_newton_fixed, lemma_newton_stays_above};
use crate::firmware::panel::{covers, Mark};
use crate::lite::display::{HEIGHT, WIDTH};
use crate::lite::touch::{
    ACTIVE_MAX_X, ACTIVE_MAX_Y, ACTIVE_MIN_X, ACTIVE_MIN_Y, SLIDE_END_INSET, SLIDE_HALF_W,
    TARGET_RADIUS_PX, TARGET_SLOP_PX,
};
use crate::firmware::touch_bus::{in_right_gutter, scale_from_bottom, LampSlide};
use crate::log::{Edge, TouchSample, POLL_PERIOD_MS};
use crate::m5pm1::PWM0_DUTY_MAX;

verus! {

/// Integer square root of a 32-bit value by Newton's method, as a `u16`.
fn isqrt_u32(n: u32) -> (r: u16)
    ensures
        is_floor_sqrt(n as int, r as int),
{
    if n == 0 {
        assert(is_floor_sqrt(0, 0));
        return 0;
    }
    let mut x: u32 = n;
    let mut y: u32 = n / 2 + n % 2;
    assert((x + n / x) / 2 == y) by (nonlinear_arith)
        requires
            x == n,
            n >= 1,
            y == n / 2 + n % 2,
    ;
    proof {
        lemma_newton_stays_above(n as int, n as int);
    }
    assert((x + 1) * (x + 1) > n) by (nonlinear_arith)
        requires
            x == n,
            n >= 1,
    ;
    while y < x
        invariant
            n >= 1,
            1 <= x <= n,
            y == (x + n / x) / 2,
            (x + 1) * (x + 1) > n,
            (y + 1) * (y + 1) > n,
            2 * y <= n + 1,
        decreases x,
    {
        x = y;
        assert(x >= 1) by (nonlinear_arith)
            requires
                (x + 1) * (x + 1) > n,
                n >= 1,
        ;
        assert(x + n / x <= n || n <= 3) by (nonlinear_arith)
            requires
                x >= 1,
                2 * x <= n + 1,
                (x + 1) * (x + 1) > n,
        ;
        y = (x + n / x) / 2;
        proof {
            lemma_newton_stays_above(n as int, x as int);
        }
        assert(2 * y <= n + 1) by (nonlinear_arith)
            requires
                y == (x + n / x) / 2,
                x >= 1,
                2 * x <= n + 1,
                (x + 1) * (x + 1) > n,
        ;
    }
    proof {
        lemma_newton_fixed(n as int, x as int);
    }
    assert(x <= u16::MAX) by (nonlinear_arith)
        requires
            x * x <= u32::MAX,
    ;
    let c: u32 = if x < 65535 { x } else { 65535 };
    c as u16
}

/// Squared distance between two points.
pub open spec fn dist_sq(ax: u16, ay: u16, bx: u16, by: u16) -> int {
    (ax - bx) * (ax - bx) + (ay - by) * (ay - by)
}

/// Whole-pixel distance between two points, rounded down. The squared
/// distance must fit in an `i32`.
pub fn dist_px(ax: u16, ay: u16, bx: u16, by: u16) -> (d: u16)
    requires
        dist_sq(ax, ay, bx, by) <= i32::MAX,
    ensures
        is_floor_sqrt(dist_sq(ax, ay, bx, by), d as int),
{
    let dx: i32 = ax as i32 - bx as i32;
    let dy: i32 = ay as i32 - by as i32;
    assert(dx * dx <= i32::MAX && dy * dy <= i32::MAX && dx * dx >= 0 && dy * dy >= 0) by (nonlinear_arith)
        requires
            dx * dx + dy * dy <= i32::MAX,
    ;
    let s: i32 = dx * dx + dy * dy;
    isqrt_u32(s as u32)
}

/// Dot targets, X.
pub const DOT_X: [u16; 5] = [240, 80, 400, 80, 400];
/// Dot targets, Y.
pub const DOT_Y: [u16; 5] = [400, 80, 80, 720, 720];
/// Step of the horizontal slide.
pub const SLIDE_X_ID: u8 = 5;
/// Step of the vertical slide.
pub const SLIDE_Y_ID: u8 = 6;
/// Last step of the walk.
pub const LAST_ID: u8 = 6;

/// How a target walk ended.
#[derive(Debug, Clone, Copy, PartialEq, Eq, Structural)]
pub enum WalkEnd {
    /// Every step ran.
    Done,
    /// BUTTON A pressed: go to the previous card.
    AbortPrev,
    /// BUTTON B pressed: go to the next card.
    AbortNext,
}

/// Step `id` of the walk: kind, target X, target Y, radius, and the mark to
/// paint. Steps 0..=4 are dots (ids past 4 that are not slides reuse the
/// last dot), 5 the horizontal slide, 6 the vertical slide, both across
/// the middle of the portrait page.
pub open spec fn spec_scene(id: u8) -> (&'static str, u16, u16, u16, Mark) {
    let mid_x = (WIDTH / 2) as u16;
    let mid_y = (HEIGHT / 2) as u16;
    if id == SLIDE_X_ID {
        ("slide_x", mid_x, mid_y, SLIDE_HALF_W, Mark::HLine { y: mid_y, half: SLIDE_HALF_W })
    } else if id == SLIDE_Y_ID {
        ("slide_y", mid_x, mid_y, SLIDE_HALF_W, Mark::VLine { x: mid_x, half: SLIDE_HALF_W })
    } else {
        let i = if id < 4 { id as int } else { 4 };
        ("dot", DOT_X@[i], DOT_Y@[i], TARGET_RADIUS_PX, Mark::Disk { x: DOT_X@[i], y: DOT_Y@[i], r: TARGET_RADIUS_PX })
    }
}

/// The target of step `id` and the mark that shows it.
pub fn scene(id: u8) -> (t: (&'static str, u16, u16, u16, Mark))
    ensures
        t == spec_scene(id),
{
    let mid_x = WIDTH / 2;
    let mid_y = HEIGHT / 2;
    if id == SLIDE_X_ID {
        ("slide_x", mid_x, mid_y, SLIDE_HALF_W, Mark::HLine { y: mid_y, half: SLIDE_HALF_W })
    } else if id == SLIDE_Y_ID {
        ("slide_y", mid_x, mid_y, SLIDE_HALF_W, Mark::VLine { x: mid_x, half: SLIDE_HALF_W })
    } else {
        let i: usize = if id < 4 { id as usize } else { 4 };
        ("dot", DOT_X[i], DOT_Y[i], TARGET_RADIUS_PX, Mark::Disk { x: DOT_X[i], y: DOT_Y[i], r: TARGET_RADIUS_PX })
    }
}

/// Every step's mark covers its own target point, and every target lies
/// on the portrait page.
pub proof fn law_target_is_marked(id: u8)
    ensures
        ({
            let (kind, tx, ty, r, mark) = spec_scene(id);
            covers(mark, tx as int, ty as int) && tx < WIDTH && ty < HEIGHT
        }),
{
    let t = spec_scene(id);
    if id != SLIDE_X_ID && id != SLIDE_Y_ID {
        let i: int = if id < 4 { id as int } else { 4 };
        assert(DOT_X@ == seq![240u16, 80, 400, 80, 400]);
        assert(DOT_Y@ == seq![400u16, 80, 80, 720, 720]);
        assert(t.1 == DOT_X@[i] && t.2 == DOT_Y@[i]);
        assert(t.1 < WIDTH && t.2 < HEIGHT) by {
            assert(0 <= i < 5);
            if i == 0 {} else if i == 1 {} else if i == 2 {} else if i == 3 {} else {}
        }
        assert((t.1 - t.1) * (t.1 - t.1) + (t.2 - t.2) * (t.2 - t.2) <= 48 * 48) by (nonlinear_arith);
    }
}

/// How waiting on one target ended: where the last contact was, and for a
/// hit its distance (a dot) or the span covered (a slide).
#[derive(Debug, Clone, Copy, PartialEq, Eq, Structural)]
pub enum Outcome {
    /// Tapped or slid: x, y, distance or span.
    Hit(u16, u16, u16),
    /// BUTTON A pressed: x, y of the last contact.
    AbortA(u16, u16),
    /// BUTTON B pressed: x, y of the last contact.
    AbortB(u16, u16),
    /// Time ran out: x, y of the last contact.
    Timeout(u16, u16),
}

/// The button levels last seen (`true` = released).
pub struct ButtonWatch {
    /// BUTTON A level.
    pub prev_a: bool,
    /// BUTTON B level.
    pub prev_b: bool,
}

/// The edge line for a change from (`pa`, `pb`) to (`na`, `nb`), if any.
pub open spec fn edge_of(pa: bool, pb: bool, na: bool, nb: bool, t_ms: u32) -> Option<Edge> {
    if na != pa || nb != pb {
        Some(
            Edge {
                t_ms,
                btn_a: if na != pa { Some((pa, na)) } else { None },
                btn_b: if nb != pb { Some((pb, nb)) } else { None },
            },
        )
    } else {
        None
    }
}

impl ButtonWatch {
    /// Starts from the levels read before the wait.
    pub fn new(a: bool, b: bool) -> (w: ButtonWatch)
        ensures
            w.prev_a == a && w.prev_b == b,
    {
        ButtonWatch { prev_a: a, prev_b: b }
    }

    /// One poll of both buttons: the edge to log when a level changed, and
    /// an abort when a button went down (A before B). Without an abort the
    /// new levels are kept.
    pub fn poll(&mut self, now_a: bool, now_b: bool, t_ms: u32, last_x: u16, last_y: u16) -> (r: (
        Option<Edge>,
        Option<Outcome>,
    ))
        ensures
            r.0 == edge_of(old(self).prev_a, old(self).prev_b, now_a, now_b, t_ms),
            r.1 == (if old(self).prev_a && !now_a {
                Some(Outcome::AbortA(last_x, last_y))
            } else if old(self).prev_b && !now_b {
                Some(Outcome::AbortB(last_x, last_y))
            } else {
                None
            }),
            r.1 is None ==> final(self).prev_a == now_a && final(self).prev_b == now_b,
            r.1 is Some ==> final(self).prev_a == old(self).prev_a && final(self).prev_b == old(self).prev_b,
    {
        let pa = self.prev_a;
        let pb = self.prev_b;
        let edge = if now_a != pa || now_b != pb {
            Some(
                Edge {
                    t_ms,
                    btn_a: if now_a != pa { Some((pa, now_a)) } else { None },
                    btn_b: if now_b != pb { Some((pb, now_b)) } else { None },
                },
            )
        } else {
            None
        };
        if pa && !now_a {
            return (edge, Some(Outcome::AbortA(last_x, last_y)));
        }
        if pb && !now_b {
            return (edge, Some(Outcome::AbortB(last_x, last_y)));
        }
        self.prev_a = now_a;
        self.prev_b = now_b;
        (edge, None)
    }
}

/// `t + POLL_PERIOD_MS`, stopping at the top.
pub open spec fn next_tick(t: u32) -> u32 {
    if t + POLL_PERIOD_MS > u32::MAX { u32::MAX } else { (t + POLL_PERIOD_MS) as u32 }
}

/// What one poll of a dot asks for.
#[derive(Debug, Clone, Copy, PartialEq, Eq, Structural)]
pub struct DotStep {
    /// Distance from the contact to the dot (0 without a contact).
    pub dist: u16,
    /// Frontlight duty the gutter slider asks for.
    pub lamp_duty: Option<u16>,
    /// Log the sample against the target.
    pub log_at: bool,
    /// Log a miss verdict at `dist`.
    pub log_miss: bool,
    /// The wait is over.
    pub outcome: Option<Outcome>,
}

/// Polls of one dot target: the last contact, whether the next miss and
/// the next lift are still to be logged, and the poll clock.
pub struct DotWait {
    /// X of the last contact.
    pub last_x: u16,
    /// Y of the last contact.
    pub last_y: u16,
    /// The next miss gets a verdict line.
    pub miss_once: bool,
    /// The next lift (contact gone, INT low) gets a sample line.
    pub n0_once: bool,
    /// Milliseconds since the wait began, in poll periods.
    pub t_ms: u32,
}

impl DotWait {
    /// Before the first poll.
    pub fn new() -> (w: DotWait)
        ensures
            w.last_x == 0 && w.last_y == 0 && w.miss_once && w.n0_once && w.t_ms == 0,
    {
        DotWait { last_x: 0, last_y: 0, miss_once: true, n0_once: true, t_ms: 0 }
    }

    /// One touch poll for the dot at (`tx`, `ty`). A contact within
    /// `TARGET_SLOP_PX` hits; one elsewhere goes to the frontlight slider
    /// (`page` as for [`LampSlide::feed`]), and if the slider does not take
    /// it, it is logged, with a miss verdict once per contact run. A lift
    /// with INT low is logged once per contact run.
    pub fn step(
        &mut self,
        lamp: &mut LampSlide,
        sample: &TouchSample,
        page: Option<(u16, u16)>,
        page_w: u16,
        page_h: u16,
        int_high: bool,
        tx: u16,
        ty: u16,
    ) -> (r: DotStep)
        requires
            sample.n >= 1 ==> dist_sq(sample.x, sample.y, tx, ty) <= i32::MAX,
        ensures
            sample.n >= 1 ==> is_floor_sqrt(dist_sq(sample.x, sample.y, tx, ty), r.dist as int),
            sample.n < 1 ==> r.dist == 0,
            sample.n >= 1 ==> final(self).last_x == sample.x && final(self).last_y == sample.y,
            sample.n < 1 ==> final(self).last_x == old(self).last_x && final(self).last_y == old(self).last_y,
            // a hit ends the wait, with the sample logged
            sample.n >= 1 && r.dist <= TARGET_SLOP_PX ==> r == (DotStep {
                dist: r.dist,
                lamp_duty: None,
                log_at: true,
                log_miss: false,
                outcome: Some(Outcome::Hit(sample.x, sample.y, r.dist)),
            }) && final(self).t_ms == old(self).t_ms && final(self).miss_once == old(self).miss_once
                && final(self).n0_once == old(self).n0_once && final(lamp)@ == old(lamp)@,
            // a miss feeds the slider
            sample.n >= 1 && r.dist > TARGET_SLOP_PX ==> {
                let took = page matches Some((px, _)) && in_right_gutter(px, page_w);
                &&& r.outcome is None
                &&& final(self).t_ms == next_tick(old(self).t_ms)
                &&& (match page {
                    Some((px, py)) => if in_right_gutter(px, page_w) {
                        &&& r.lamp_duty == Some(scale_from_bottom(py as int, page_h as int, PWM0_DUTY_MAX as int) as u16)
                        &&& final(lamp)@ == (0u8, true)
                    } else {
                        r.lamp_duty is None && final(lamp)@ == (0u8, false)
                    },
                    None => r.lamp_duty is None && final(lamp)@ == old(lamp)@,
                })
                &&& r.log_at == !took
                &&& r.log_miss == (!took && old(self).miss_once)
                &&& final(self).miss_once == (if !took { false } else { old(self).miss_once })
                &&& final(self).n0_once == (if !took { true } else { old(self).n0_once })
            },
            // no contact
            sample.n < 1 ==> {
                &&& r.outcome is None
                &&& r.lamp_duty is None
                &&& !r.log_miss
                &&& r.log_at == (!int_high && old(self).n0_once)
                &&& final(self).miss_once
                &&& final(self).n0_once == (old(self).n0_once && int_high)
                &&& final(self).t_ms == next_tick(old(self).t_ms)
                &&& final(lamp)@ == old(lamp)@
            },
    {
        let mut r = DotStep { dist: 0, lamp_duty: None, log_at: false, log_miss: false, outcome: None };
        if sample.n >= 1 {
            self.last_x = sample.x;
            self.last_y = sample.y;
            let d = dist_px(sample.x, sample.y, tx, ty);
            r.dist = d;
            if d <= TARGET_SLOP_PX {
                r.log_at = true;
                r.outcome = Some(Outcome::Hit(sample.x, sample.y, d));
                return r;
            }
            let duty = lamp.feed(sample, page, page_w, page_h);
            r.lamp_duty = duty;
            if duty.is_none() {
                self.n0_once = true;
                r.log_at = true;
                if self.miss_once {
                    r.log_miss = true;
                    self.miss_once = false;
                }
            }
        } else {
            self.miss_once = true;
            if !int_high && self.n0_once {
                r.log_at = true;
                self.n0_once = false;
            }
        }
        self.t_ms = self.t_ms.saturating_add(POLL_PERIOD_MS);
        r
    }
}

/// The active range along the slide axis: X for a horizontal slide, Y for
/// a vertical one.
pub open spec fn slide_range(along_x: bool) -> (u16, u16) {
    if along_x { (ACTIVE_MIN_X, ACTIVE_MAX_X) } else { (ACTIVE_MIN_Y, ACTIVE_MAX_Y) }
}

/// `|a - b|`.
pub open spec fn gap16(a: u16, b: u16) -> int {
    if a >= b { a - b } else { b - a }
}

/// Whether a contact lies on the slide line (within `TARGET_SLOP_PX` of it
/// across the slide axis).
pub open spec fn on_line(along_x: bool, x: u16, y: u16, line_x: u16, line_y: u16) -> bool {
    if along_x { gap16(y, line_y) <= TARGET_SLOP_PX } else { gap16(x, line_x) <= TARGET_SLOP_PX }
}

/// What one poll of a slide asks for.
#[derive(Debug, Clone, Copy, PartialEq, Eq, Structural)]
pub struct SlideStep {
    /// Frontlight duty the gutter slider asks for.
    pub lamp_duty: Option<u16>,
    /// Log the sample against the line.
    pub log_at: bool,
    /// The wait is over.
    pub outcome: Option<Outcome>,
}

/// Polls of one slide target: the last contact, the extent covered along
/// the line so far, and the poll clock.
pub struct SlideWait {
    /// X of the last contact.
    pub last_x: u16,
    /// Y of the last contact.
    pub last_y: u16,
    /// Smallest coordinate along the slide touched on the line.
    pub min_v: u16,
    /// Largest coordinate along the slide touched on the line.
    pub max_v: u16,
    /// Milliseconds since the wait began, in poll periods.
    pub t_ms: u32,
}

impl SlideWait {
    /// Before the first poll: nothing covered.
    pub fn new() -> (w: SlideWait)
        ensures
            w.last_x == 0 && w.last_y == 0 && w.min_v == u16::MAX && w.max_v == 0 && w.t_ms == 0,
    {
        SlideWait { last_x: 0, last_y: 0, min_v: u16::MAX, max_v: 0, t_ms: 0 }
    }

    /// One touch poll for the line through (`line_x`, `line_y`). A contact on
    /// the line widens the covered extent, and the slide is done once the
    /// extent reaches within `SLIDE_END_INSET` of both ends of the active
    /// range; a contact off the line goes to the frontlight slider.
    pub fn step(
        &mut self,
        lamp: &mut LampSlide,
        sample: &TouchSample,
        page: Option<(u16, u16)>,
        page_w: u16,
        page_h: u16,
        along_x: bool,
        line_x: u16,
        line_y: u16,
    ) -> (r: SlideStep)
        requires
            sample.n >= 1 && on_line(along_x, sample.x, sample.y, line_x, line_y) ==> (if along_x {
                sample.x
            } else {
                sample.y
            }) + SLIDE_END_INSET <= u16::MAX,
            old(self).max_v + SLIDE_END_INSET <= u16::MAX,
        ensures
            final(self).max_v + SLIDE_END_INSET <= u16::MAX,
            sample.n >= 1 ==> final(self).last_x == sample.x && final(self).last_y == sample.y,
            sample.n < 1 ==> r == (SlideStep { lamp_duty: None, log_at: false, outcome: None })
                && final(self).last_x == old(self).last_x && final(self).last_y == old(self).last_y
                && final(self).min_v == old(self).min_v && final(self).max_v == old(self).max_v
                && final(self).t_ms == next_tick(old(self).t_ms) && final(lamp)@ == old(lamp)@,
            sample.n >= 1 && on_line(along_x, sample.x, sample.y, line_x, line_y) ==> {
                let v = if along_x { sample.x } else { sample.y };
                let lo = if v < old(self).min_v { v } else { old(self).min_v };
                let hi = if v > old(self).max_v { v } else { old(self).max_v };
                let done = lo <= slide_range(along_x).0 + SLIDE_END_INSET && hi + SLIDE_END_INSET
                    >= slide_range(along_x).1;
                &&& final(self).min_v == lo
                &&& final(self).max_v == hi
                &&& r.log_at
                &&& r.lamp_duty is None
                &&& final(lamp)@ == old(lamp)@
                &&& r.outcome == (if done {
                    Some(Outcome::Hit(sample.x, sample.y, (hi - lo) as u16))
                } else {
                    None
                })
                &&& final(self).t_ms == (if done { old(self).t_ms } else { next_tick(old(self).t_ms) })
            },
            sample.n >= 1 && !on_line(along_x, sample.x, sample.y, line_x, line_y) ==> {
                &&& r.outcome is None
                &&& !r.log_at
                &&& final(self).min_v == old(self).min_v
                &&& final(self).max_v == old(self).max_v
                &&& final(self).t_ms == next_tick(old(self).t_ms)
                &&& (match page {
                    Some((px, py)) => if in_right_gutter(px, page_w) {
                        &&& r.lamp_duty == Some(scale_from_bottom(py as int, page_h as int, PWM0_DUTY_MAX as int) as u16)
                        &&& final(lamp)@ == (0u8, true)
                    } else {
                        r.lamp_duty is None && final(lamp)@ == (0u8, false)
                    },
                    None => r.lamp_duty is None && final(lamp)@ == old(lamp)@,
                })
            },
    {
        let mut r = SlideStep { lamp_duty: None, log_at: false, outcome: None };
        if sample.n >= 1 {
            self.last_x = sample.x;
            self.last_y = sample.y;
            let on: bool = if along_x {
                let g: u16 = if sample.y >= line_y { sample.y - line_y } else { line_y - sample.y };
                g <= TARGET_SLOP_PX
            } else {
                let g: u16 = if sample.x >= line_x { sample.x - line_x } else { line_x - sample.x };
                g <= TARGET_SLOP_PX
            };
            if on {
                r.log_at = true;
                let v = if along_x { sample.x } else { sample.y };
                if v < self.min_v {
                    self.min_v = v;
                }
                if v > self.max_v {
                    self.max_v = v;
                }
                let span = self.max_v.saturating_sub(self.min_v);
                let lo_end: u16 = if along_x { ACTIVE_MIN_X } else { ACTIVE_MIN_Y };
                let hi_end: u16 = if along_x { ACTIVE_MAX_X } else { ACTIVE_MAX_Y };
                if self.min_v <= lo_end + SLIDE_END_INSET && self.max_v + SLIDE_END_INSET >= hi_end {
                    r.outcome = Some(Outcome::Hit(self.last_x, self.last_y, span));
                    return r;
                }
            } else {
                r.lamp_duty = lamp.feed(sample, page, page_w, page_h);
            }
        }
        self.t_ms = self.t_ms.saturating_add(POLL_PERIOD_MS);
        r
    }
}

/// The verdict word of a finished wait, the contact it reports, the number
/// after `d=`, and how the walk goes on: `None` to the next step.
pub open spec fn spec_verdict(out: Outcome) -> (&'static str, u16, u16, u16, Option<WalkEnd>) {
    match out {
        Outcome::Hit(x, y, d) => ("hit", x, y, d, None),
        Outcome::AbortA(x, y) => ("abort=btn_a", x, y, 0u16, Some(WalkEnd::AbortPrev)),
        Outcome::AbortB(x, y) => ("abort=btn_b", x, y, 0u16, Some(WalkEnd::AbortNext)),
        Outcome::Timeout(x, y) => ("abort=timeout", x, y, 0u16, None),
    }
}

/// How the walk reports a finished wait and whether it stops there: a
/// button ends the whole walk (A back, B forward), a hit or a timeout goes
/// on to the next step.
pub fn verdict(out: Outcome) -> (v: (&'static str, u16, u16, u16, Option<WalkEnd>))
    ensures
        v == spec_verdict(out),
{
    match out {
        Outcome::Hit(x, y, d) => ("hit", x, y, d, None),
        Outcome::AbortA(x, y) => ("abort=btn_a", x, y, 0, Some(WalkEnd::AbortPrev)),
        Outcome::AbortB(x, y) => ("abort=btn_b", x, y, 0, Some(WalkEnd::AbortNext)),
        Outcome::Timeout(x, y) => ("abort=timeout", x, y, 0, None),
    }
}

} // verus!
