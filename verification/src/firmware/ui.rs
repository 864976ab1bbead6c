//! Card navigation while a card sits on the panel: short presses step
//! between cards, holding BUTTON A asks for a tone dump (1 s) or sleep
//! (2 s), and a card may ask to be redrawn on a timer or on a Bluetooth
//! state change.

use vstd::prelude::*;
use crate::firmware::targets::edge_of;
use crate::log::{Edge, BUTTON_HOLD_PCM_MS};

verus! {

/// Poll period of the navigation loop, in milliseconds.
pub const NAV_POLL_MS: u32 = 10;

/// How long the legend card waits before redrawing its battery figures.
pub const LEGEND_AUTO_REFRESH_MS: u32 = 60_000;

/// Hold of BUTTON A that puts the board to sleep, in milliseconds.
pub const BUTTON_HOLD_SLEEP_MS: u32 = 2_000;

/// What the navigation loop asks for.
#[derive(Debug, Clone, Copy, PartialEq, Eq, Structural)]
pub enum Nav {
    /// The previous card.
    Prev,
    /// The next card.
    Next,
    /// Redraw the current card.
    Refresh,
    /// Go to sleep.
    Sleep,
}

/// What one button poll asks for.
#[derive(Debug, Clone, Copy, PartialEq, Eq)]
pub struct NavButtons {
    /// The edge line to log, when a level changed.
    pub edge: Option<Edge>,
    /// Start a PCM tone dump.
    pub ask_tone: bool,
    /// Leave the wait.
    pub nav: Option<Nav>,
}

/// State of one navigation wait.
pub struct NavWait {
    /// BUTTON A level last seen (`true` = released).
    pub prev_a: bool,
    /// BUTTON B level last seen.
    pub prev_b: bool,
    /// When BUTTON A went down during this wait (clock ms).
    pub a_down: Option<u64>,
    /// The hold already asked for a tone dump.
    pub a_held: bool,
    /// Milliseconds since the wait began, in poll periods.
    pub t_ms: u32,
}

/// How long BUTTON A has been held at clock `now`, when it is down.
pub open spec fn held_ms(w: NavWait, now_a: bool, now: u64) -> Option<int> {
    let down = if w.prev_a && !now_a { Some(now) } else { w.a_down };
    if !now_a {
        match down {
            Some(s) => Some(now - s),
            None => None,
        }
    } else {
        None
    }
}

impl NavWait {
    /// Starts from the button levels read before the wait.
    pub fn new(a: bool, b: bool) -> (w: NavWait)
        ensures
            w.prev_a == a && w.prev_b == b && w.a_down is None && !w.a_held && w.t_ms == 0,
    {
        NavWait { prev_a: a, prev_b: b, a_down: None, a_held: false, t_ms: 0 }
    }

    /// One poll of both buttons at clock `now` (ms). A held long enough for
    /// sleep ends the wait with [`Nav::Sleep`]; held for the tone time it
    /// asks for one dump per hold; released without that, it means
    /// [`Nav::Prev`]. B going down means [`Nav::Next`].
    pub fn buttons(&mut self, now_a: bool, now_b: bool, now: u64) -> (r: NavButtons)
        requires
            old(self).a_down matches Some(s) ==> s <= now,
        ensures
            r.edge == edge_of(old(self).prev_a, old(self).prev_b, now_a, now_b, old(self).t_ms),
            final(self).t_ms == old(self).t_ms,
            final(self).a_down matches Some(s) ==> s <= now,
            // held long enough to sleep
            held_ms(*old(self), now_a, now) matches Some(d) && d >= BUTTON_HOLD_SLEEP_MS ==> r.nav
                == Some(Nav::Sleep) && !r.ask_tone,
            // held, not yet for sleep
            held_ms(*old(self), now_a, now) matches Some(d) ==> (d < BUTTON_HOLD_SLEEP_MS ==> {
                let fresh = old(self).prev_a && !now_a;
                let was_held = if fresh { false } else { old(self).a_held };
                &&& r.ask_tone == (!was_held && d >= BUTTON_HOLD_PCM_MS)
                &&& final(self).a_held == (was_held || d >= BUTTON_HOLD_PCM_MS)
                &&& final(self).prev_a == now_a
                &&& r.nav == (if old(self).prev_b && !now_b { Some(Nav::Next) } else { None })
            }),
            // A down since before the wait: no hold is timed
            !old(self).prev_a && !now_a && old(self).a_down is None ==> {
                &&& !r.ask_tone
                &&& final(self).a_down is None
                &&& final(self).a_held == old(self).a_held
                &&& !final(self).prev_a
                &&& r.nav == (if old(self).prev_b && !now_b { Some(Nav::Next) } else { None })
            },
            // A released
            !old(self).prev_a && now_a ==> {
                &&& !r.ask_tone
                &&& final(self).a_down is None
                &&& !final(self).a_held
                &&& final(self).prev_a
                &&& r.nav == (if !old(self).a_held {
                    Some(Nav::Prev)
                } else if old(self).prev_b && !now_b {
                    Some(Nav::Next)
                } else {
                    None
                })
            },
            // A up and staying up
            old(self).prev_a && now_a ==> {
                &&& !r.ask_tone
                &&& final(self).prev_a
                &&& final(self).a_held == old(self).a_held
                &&& final(self).a_down == old(self).a_down
                &&& r.nav == (if old(self).prev_b && !now_b { Some(Nav::Next) } else { None })
            },
            r.nav is None ==> final(self).prev_b == now_b,
    {
        let pa = self.prev_a;
        let pb = self.prev_b;
        let edge = if now_a != pa || now_b != pb {
            Some(
                Edge {
                    t_ms: self.t_ms,
                    btn_a: if now_a != pa { Some((pa, now_a)) } else { None },
                    btn_b: if now_b != pb { Some((pb, now_b)) } else { None },
                },
            )
        } else {
            None
        };
        let mut ask_tone = false;
        if pa && !now_a {
            self.a_down = Some(now);
            self.a_held = false;
        }
        match self.a_down {
            Some(start) => {
                if !now_a {
                    let d: u64 = now - start;
                    if d >= BUTTON_HOLD_SLEEP_MS as u64 {
                        return NavButtons { edge, ask_tone: false, nav: Some(Nav::Sleep) };
                    }
                    if !self.a_held && d >= BUTTON_HOLD_PCM_MS as u64 {
                        ask_tone = true;
                        self.a_held = true;
                    }
                }
            },
            None => {},
        }
        if !pa && now_a {
            let held = self.a_held;
            self.a_down = None;
            self.a_held = false;
            self.prev_a = now_a;
            if !held {
                return NavButtons { edge, ask_tone, nav: Some(Nav::Prev) };
            }
        } else {
            self.prev_a = now_a;
        }
        if pb && !now_b {
            return NavButtons { edge, ask_tone, nav: Some(Nav::Next) };
        }
        self.prev_b = now_b;
        NavButtons { edge, ask_tone, nav: None }
    }

    /// The rest of a poll, after the touch sample went to the slider: a
    /// Bluetooth state change the card watches asks for a redraw, then the
    /// clock advances one period and a card with a refresh period asks for a
    /// redraw once it has passed.
    pub fn after_touch(&mut self, ble_changed: bool, auto_refresh_ms: Option<u32>) -> (r: Option<Nav>)
        ensures
            ble_changed ==> r == Some(Nav::Refresh) && final(self).t_ms == old(self).t_ms,
            !ble_changed ==> {
                let t = if old(self).t_ms + NAV_POLL_MS > u32::MAX {
                    u32::MAX as int
                } else {
                    old(self).t_ms + NAV_POLL_MS
                };
                &&& final(self).t_ms == t
                &&& r == (if auto_refresh_ms matches Some(p) && t >= p { Some(Nav::Refresh) } else { None })
            },
            final(self).prev_a == old(self).prev_a,
            final(self).prev_b == old(self).prev_b,
            final(self).a_down == old(self).a_down,
            final(self).a_held == old(self).a_held,
    {
        if ble_changed {
            return Some(Nav::Refresh);
        }
        self.t_ms = self.t_ms.saturating_add(NAV_POLL_MS);
        match auto_refresh_ms {
            Some(p) => {
                if self.t_ms >= p {
                    Some(Nav::Refresh)
                } else {
                    None
                }
            },
            None => None,
        }
    }
}

} // verus!
