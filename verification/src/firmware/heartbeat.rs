//! The telemetry task's schedule: button edges when the UI does not own the
//! buttons, touch INT changes, the 1 s heartbeat and the 10 s banner.

use vstd::prelude::*;
use crate::firmware::targets::edge_of;
use crate::log::{Edge, Snapshot, HEARTBEAT_PERIOD_MS, HELLO_PERIOD_MS, MILLIS_PER_SEC, POLL_PERIOD_MS};

verus! {

/// The level read from the pin when it is at hand, else `shared`, the
/// level another task last stored.
pub fn pin_or_shared(pin: Option<bool>, shared: bool) -> (level: bool)
    ensures
        level == (match pin {
            Some(p) => p,
            None => shared,
        }),
{
    match pin {
        Some(p) => p,
        None => shared,
    }
}

/// What one telemetry poll sends.
#[derive(Debug, Clone, Copy, PartialEq, Eq)]
pub struct Beat {
    /// An idle touch line with this INT level, when INT changed.
    pub touch_idle: Option<bool>,
    /// A button edge line.
    pub edge: Option<Edge>,
    /// Start a PCM tone dump (BUTTON A went down while the UI is off).
    pub ask_tone: bool,
    /// The banner (hello, git, gpio and the stored samples) with this uptime
    /// in seconds.
    pub banner_t_s: Option<u32>,
    /// The heartbeat line.
    pub heartbeat: Option<Snapshot>,
}

/// Levels last seen and the poll clock of the telemetry task.
pub struct HeartbeatState {
    /// Milliseconds since the task began, in poll periods.
    pub t_ms: u32,
    /// BUTTON A level.
    pub prev_a: bool,
    /// BUTTON B level.
    pub prev_b: bool,
    /// Touch INT level.
    pub prev_tp: bool,
}

/// `t + POLL_PERIOD_MS`, stopping at the top.
pub open spec fn advance(t: u32) -> u32 {
    if t + POLL_PERIOD_MS > u32::MAX { u32::MAX } else { (t + POLL_PERIOD_MS) as u32 }
}

impl HeartbeatState {
    /// Starts at time 0 from the levels read first.
    pub fn new(a: bool, b: bool, tp: bool) -> (s: HeartbeatState)
        ensures
            s.t_ms == 0 && s.prev_a == a && s.prev_b == b && s.prev_tp == tp,
    {
        HeartbeatState { t_ms: 0, prev_a: a, prev_b: b, prev_tp: tp }
    }

    /// One poll with the current levels; `ui` says whether the UI task owns
    /// the buttons (it then logs their edges itself).
    pub fn poll(&mut self, now_a: bool, now_b: bool, now_tp: bool, ui: bool) -> (r: Beat)
        ensures
            r.touch_idle == (if now_tp != old(self).prev_tp { Some(now_tp) } else { None }),
            final(self).prev_tp == now_tp,
            r.edge == (if ui {
                None
            } else {
                edge_of(old(self).prev_a, old(self).prev_b, now_a, now_b, old(self).t_ms)
            }),
            r.ask_tone == (!ui && old(self).prev_a && !now_a),
            final(self).prev_a == now_a && final(self).prev_b == now_b,
            r.banner_t_s == (if old(self).t_ms % HELLO_PERIOD_MS == 0 {
                Some((old(self).t_ms / MILLIS_PER_SEC) as u32)
            } else {
                None
            }),
            r.heartbeat == (if old(self).t_ms % HEARTBEAT_PERIOD_MS == 0 {
                Some(Snapshot { t_s: (old(self).t_ms / MILLIS_PER_SEC) as u32, btn_a: now_a, btn_b: now_b })
            } else {
                None
            }),
            final(self).t_ms == advance(old(self).t_ms),
    {
        let t = self.t_ms;
        let touch_idle = if now_tp != self.prev_tp {
            self.prev_tp = now_tp;
            Some(now_tp)
        } else {
            None
        };
        let pa = self.prev_a;
        let pb = self.prev_b;
        let mut edge: Option<Edge> = None;
        let mut ask_tone = false;
        if !ui && (now_a != pa || now_b != pb) {
            edge = Some(
                Edge {
                    t_ms: t,
                    btn_a: if now_a != pa { Some((pa, now_a)) } else { None },
                    btn_b: if now_b != pb { Some((pb, now_b)) } else { None },
                },
            );
            ask_tone = pa && !now_a;
        }
        self.prev_a = now_a;
        self.prev_b = now_b;
        let banner_t_s = if t % HELLO_PERIOD_MS == 0 {
            Some(t / MILLIS_PER_SEC)
        } else {
            None
        };
        let heartbeat = if t % HEARTBEAT_PERIOD_MS == 0 {
            Some(Snapshot { t_s: t / MILLIS_PER_SEC, btn_a: now_a, btn_b: now_b })
        } else {
            None
        };
        self.t_ms = t.saturating_add(POLL_PERIOD_MS);
        Beat { touch_idle, edge, ask_tone, banner_t_s, heartbeat }
    }
}

/// Every banner poll is also a heartbeat poll.
pub proof fn law_banner_has_heartbeat(t: u32)
    ensures
        t % HELLO_PERIOD_MS == 0 ==> t % HEARTBEAT_PERIOD_MS == 0,
{
    assert(t % 10000 == 0 ==> t % 1000 == 0) by (nonlinear_arith);
}

} // verus!
