//! Buzzer volume and the queue of pending tones. The task that owns the
//! LEDC channel takes requests from here and drives the duty this module
//! computes for the current volume.

use vstd::prelude::*;
use crate::lite::buzzer::{spec_volume_duty, volume_to_duty_pct, BEEP_MS};

verus! {

/// Volume (%) at boot.
pub const DEFAULT_VOLUME: u8 = 50;

/// Length of the slider tick chirp, in milliseconds.
pub const TICK_MS: u32 = 10;

/// How many tones may wait; a request beyond that is dropped.
pub const QUEUE_DEPTH: usize = 4;

/// One pending tone.
#[derive(Clone, Copy, Debug, PartialEq, Eq, Structural)]
pub struct BeepRequest {
    /// Tone length in milliseconds.
    pub ms: u32,
}

/// Buzzer volume (0..=100) and the tones waiting to be played, oldest first.
pub struct Beeper {
    volume: u8,
    queue: Vec<BeepRequest>,
}

impl View for Beeper {
    type V = (u8, Seq<BeepRequest>);

    closed spec fn view(&self) -> (u8, Seq<BeepRequest>) {
        (self.volume, self.queue@)
    }
}

impl Beeper {
    /// Volume at most 100, at most `QUEUE_DEPTH` tones waiting.
    pub closed spec fn wf(&self) -> bool {
        &&& self.volume <= 100
        &&& self.queue@.len() <= QUEUE_DEPTH
    }

    /// Boot state: default volume, nothing queued.
    pub fn new() -> (b: Beeper)
        ensures
            b.wf(),
            b@ == (DEFAULT_VOLUME, Seq::<BeepRequest>::empty()),
    {
        Beeper { volume: DEFAULT_VOLUME, queue: Vec::new() }
    }

    /// Sets the volume, clamped to 100; the queue is untouched.
    pub fn set_volume(&mut self, volume: u8)
        requires
            old(self).wf(),
        ensures
            final(self).wf(),
            final(self)@ == (if volume > 100 { 100u8 } else { volume }, old(self)@.1),
    {
        self.volume = if volume > 100 { 100 } else { volume };
    }

    /// The current volume (0..=100).
    pub fn volume(&self) -> (v: u8)
        requires
            self.wf(),
        ensures
            v == self@.0,
            v <= 100,
    {
        self.volume
    }

    /// Queues a tone of `ms` milliseconds; when `QUEUE_DEPTH` tones already
    /// wait, the request is dropped. Returns whether it was queued.
    pub fn tone(&mut self, ms: u32) -> (queued: bool)
        requires
            old(self).wf(),
        ensures
            final(self).wf(),
            queued <==> old(self)@.1.len() < QUEUE_DEPTH,
            final(self)@ == (if queued {
                (old(self)@.0, old(self)@.1.push(BeepRequest { ms }))
            } else {
                old(self)@
            }),
    {
        if self.queue.len() < QUEUE_DEPTH {
            self.queue.push(BeepRequest { ms });
            true
        } else {
            false
        }
    }

    /// Queues the key click (`BEEP_MS`).
    pub fn click(&mut self) -> (queued: bool)
        requires
            old(self).wf(),
        ensures
            final(self).wf(),
            queued <==> old(self)@.1.len() < QUEUE_DEPTH,
            final(self)@ == (if queued {
                (old(self)@.0, old(self)@.1.push(BeepRequest { ms: BEEP_MS as u32 }))
            } else {
                old(self)@
            }),
    {
        self.tone(BEEP_MS as u32)
    }

    /// Queues the slider tick chirp (`TICK_MS`).
    pub fn tick(&mut self) -> (queued: bool)
        requires
            old(self).wf(),
        ensures
            final(self).wf(),
            queued <==> old(self)@.1.len() < QUEUE_DEPTH,
            final(self)@ == (if queued {
                (old(self)@.0, old(self)@.1.push(BeepRequest { ms: TICK_MS }))
            } else {
                old(self)@
            }),
    {
        self.tone(TICK_MS)
    }

    /// Takes the oldest waiting tone, if any.
    pub fn take(&mut self) -> (r: Option<BeepRequest>)
        requires
            old(self).wf(),
        ensures
            final(self).wf(),
            old(self)@.1.len() == 0 ==> r is None && final(self)@ == old(self)@,
            old(self)@.1.len() > 0 ==> r == Some(old(self)@.1[0]) && final(self)@ == (
                old(self)@.0,
                old(self)@.1.drop_first(),
            ),
    {
        if self.queue.len() == 0 {
            None
        } else {
            let r = self.queue.remove(0);
            proof {
                assert(self.queue@ =~= old(self).queue@.drop_first());
            }
            Some(r)
        }
    }

    /// The LEDC duty (%) with which `req` is played at the current volume,
    /// or `None` when it is silent (zero duty or zero length).
    pub fn duty_for(&self, req: BeepRequest) -> (d: Option<u8>)
        requires
            self.wf(),
        ensures
            d == (if spec_volume_duty(self@.0 as int) > 0 && req.ms > 0 {
                Some(spec_volume_duty(self@.0 as int) as u8)
            } else {
                None
            }),
    {
        let duty = volume_to_duty_pct(self.volume);
        if duty > 0 && req.ms > 0 {
            Some(duty)
        } else {
            None
        }
    }
}

/// Does nothing; kept so that callers of the earlier bring-up prompt still build.
pub fn ask() {
}

} // verus!
