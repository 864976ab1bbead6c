//! The on-demand ISO14443-A poll of the bench firmware as a state machine.
//!
//! The task that owns the expander, the controller and the timer runs the
//! loop: it waits `wait_ms`, carries out the step that [`poll_step`]
//! returns, and hands back what that step gave as a [`PollEvent`]. The
//! decisions stand here:
//!
//! 1. drive the controller's power rail on and let it settle 120 ms;
//! 2. read the IC identity; anything but an ST25R3916 ends the poll;
//! 3. switch the 13.56 MHz field on and let it settle 150 ms;
//! 4. up to 35 attempts, each a REQA, then a WUPA, each followed 5 ms later
//!    by an ATQA read, with 60 ms between attempts;
//! 5. on an ATQA, cascade level 1 (anticollision, select); a UID that
//!    does not start with the cascade tag and a SAK without the cascade
//!    bit is a single-size UID, anything else goes on to level 2;
//! 6. switch the field off, then the power rail, then report the card
//!    (or none).
//!
//! The field is never left on: every way out of the field-on states
//! switches it off first, and the time spent waiting with the field on is
//! at most [`FIELD_ON_BUDGET_MS`].

use vstd::prelude::*;
use crate::st25r3916::initiator::{Iso14443aCard, ISO14443A_CASCADE_TAG};

verus! {

/// Settle time after the power gate is driven on.
pub const GATE_SETTLE_MS: u32 = 120;

/// Settle time after the field is switched on.
pub const FIELD_SETTLE_MS: u32 = 150;

/// Wait between a frame and the read or frame after it.
pub const FRAME_GAP_MS: u32 = 5;

/// Wait after an attempt that got no ATQA.
pub const ATTEMPT_GAP_MS: u32 = 60;

/// REQA/WUPA attempts in one poll.
pub const POLL_ATTEMPTS: u8 = 35;

/// Longest time the poll waits with the field on: the field settle time,
/// then every attempt without an answer.
pub const FIELD_ON_BUDGET_MS: u32 = 2600;

/// What a finished poll found.
#[derive(Debug, Clone, Copy, PartialEq, Eq)]
pub enum PollOutcome {
    /// No card.
    NoCard,
    /// Single-size UID: the ATQA, the level-1 anticollision frame (UID
    /// bytes 0..4, BCC) and the SAK.
    Single { atqa: [u8; 2], cl1: [u8; 5], sak: u8 },
    /// Double-size UID: the ATQA, both anticollision frames and the
    /// level-2 SAK.
    Double { atqa: [u8; 2], cl1: [u8; 5], cl2: [u8; 5], sak: u8 },
}

/// Where the poll stands: the step last handed out, with what it needs.
#[derive(Debug, Clone, Copy, PartialEq, Eq)]
pub enum PollState {
    /// Nothing done yet.
    Begin,
    /// The power gate was driven on.
    Gated,
    /// The identity read was handed out.
    Ident,
    /// The field switch-on was handed out.
    Field,
    /// The REQA of an attempt was handed out.
    Reqa(u8),
    /// The ATQA read after the REQA of an attempt was handed out.
    ReqaRead(u8),
    /// The WUPA of an attempt was handed out.
    Wupa(u8),
    /// The ATQA read after the WUPA of an attempt was handed out.
    WupaRead(u8),
    /// Level-1 anticollision was handed out, for a card with this ATQA.
    Cl1([u8; 2]),
    /// Level-1 select was handed out, for this ATQA and level-1 frame.
    Sel1([u8; 2], [u8; 5]),
    /// Level-2 anticollision was handed out.
    Cl2([u8; 2], [u8; 5]),
    /// Level-2 select was handed out, for these frames.
    Sel2([u8; 2], [u8; 5], [u8; 5]),
    /// The field switch-off was handed out.
    FieldOff(PollOutcome),
    /// The power-rail switch-off was handed out.
    Closing(PollOutcome),
    /// The outcome was handed out.
    Finished(PollOutcome),
}

/// What the step last handed out gave.
#[derive(Debug, Clone, Copy, PartialEq, Eq)]
pub enum PollEvent {
    /// It went through (nothing to report).
    Done,
    /// It failed on the bus.
    Failed,
    /// The identity read: whether the IC is an ST25R3916.
    Identity(bool),
    /// An ATQA read: the two bytes, or none.
    Atqa(Option<[u8; 2]>),
    /// An anticollision: the five-byte frame, or none.
    Frame(Option<[u8; 5]>),
    /// A select: the SAK, or none.
    Sak(Option<u8>),
}

/// The next outside step.
#[derive(Debug, Clone, Copy, PartialEq, Eq)]
pub enum PollOp {
    /// Drive the controller's power gate on.
    GateOn,
    /// Read the IC identity.
    ReadIdentity,
    /// Switch the oscillator and field on.
    EnableField,
    /// Send REQA.
    SendReqa,
    /// Send WUPA.
    SendWupa,
    /// Read the ATQA.
    ReadAtqa,
    /// Level-1 anticollision.
    AnticollisionCl1,
    /// Level-1 select with the frame's UID bytes (0..4) and BCC (4).
    SelectCl1([u8; 5]),
    /// Level-2 anticollision.
    AnticollisionCl2,
    /// Level-2 select with the frame's UID bytes (0..4) and BCC (4).
    SelectCl2([u8; 5]),
    /// Switch the field off.
    DisableField,
    /// Drive the controller's power gate off.
    GateOff,
    /// The poll is over: record and return this outcome.
    Finish(PollOutcome),
}

/// Wait `wait_ms`, then do `op`.
#[derive(Debug, Clone, Copy, PartialEq, Eq)]
pub struct PollAction {
    /// Milliseconds to wait first.
    pub wait_ms: u32,
    /// The step.
    pub op: PollOp,
}

/// The field switch-off that ends a poll with `outcome`.
pub open spec fn field_off(outcome: PollOutcome) -> (PollState, PollAction) {
    (PollState::FieldOff(outcome), PollAction { wait_ms: 0, op: PollOp::DisableField })
}

/// Whether a level-1 answer completes a single-size UID.
pub open spec fn single_size(cl1: [u8; 5], sak: u8) -> bool {
    cl1[0] != ISO14443A_CASCADE_TAG && sak & 0x04u8 == 0
}

/// The poll's transition: from the state and what the last step gave, the
/// next state and step.
pub open spec fn spec_poll_step(s: PollState, e: PollEvent) -> (PollState, PollAction) {
    match s {
        PollState::Begin => (PollState::Gated, PollAction { wait_ms: 0, op: PollOp::GateOn }),
        PollState::Gated => (PollState::Ident, PollAction { wait_ms: GATE_SETTLE_MS, op: PollOp::ReadIdentity }),
        PollState::Ident => match e {
            PollEvent::Identity(true) => (PollState::Field, PollAction { wait_ms: 0, op: PollOp::EnableField }),
            _ => (PollState::Closing(PollOutcome::NoCard), PollAction { wait_ms: 0, op: PollOp::GateOff }),
        },
        PollState::Field => match e {
            PollEvent::Done => (PollState::Reqa(0), PollAction { wait_ms: FIELD_SETTLE_MS, op: PollOp::SendReqa }),
            _ => (PollState::Closing(PollOutcome::NoCard), PollAction { wait_ms: 0, op: PollOp::GateOff }),
        },
        PollState::Reqa(n) => (PollState::ReqaRead(n), PollAction { wait_ms: FRAME_GAP_MS, op: PollOp::ReadAtqa }),
        PollState::ReqaRead(n) => match e {
            PollEvent::Atqa(Some(a)) => (PollState::Cl1(a), PollAction { wait_ms: FRAME_GAP_MS, op: PollOp::AnticollisionCl1 }),
            _ => (PollState::Wupa(n), PollAction { wait_ms: 0, op: PollOp::SendWupa }),
        },
        PollState::Wupa(n) => (PollState::WupaRead(n), PollAction { wait_ms: FRAME_GAP_MS, op: PollOp::ReadAtqa }),
        PollState::WupaRead(n) => match e {
            PollEvent::Atqa(Some(a)) => (PollState::Cl1(a), PollAction { wait_ms: FRAME_GAP_MS, op: PollOp::AnticollisionCl1 }),
            _ => if n + 1 < POLL_ATTEMPTS {
                (PollState::Reqa((n + 1) as u8), PollAction { wait_ms: ATTEMPT_GAP_MS, op: PollOp::SendReqa })
            } else {
                (PollState::FieldOff(PollOutcome::NoCard), PollAction { wait_ms: ATTEMPT_GAP_MS, op: PollOp::DisableField })
            },
        },
        PollState::Cl1(a) => match e {
            PollEvent::Frame(Some(f)) => (PollState::Sel1(a, f), PollAction { wait_ms: FRAME_GAP_MS, op: PollOp::SelectCl1(f) }),
            _ => field_off(PollOutcome::NoCard),
        },
        PollState::Sel1(a, f) => match e {
            PollEvent::Sak(Some(sak)) => if single_size(f, sak) {
                field_off(PollOutcome::Single { atqa: a, cl1: f, sak })
            } else {
                (PollState::Cl2(a, f), PollAction { wait_ms: FRAME_GAP_MS, op: PollOp::AnticollisionCl2 })
            },
            _ => field_off(PollOutcome::NoCard),
        },
        PollState::Cl2(a, f) => match e {
            PollEvent::Frame(Some(g)) => (PollState::Sel2(a, f, g), PollAction { wait_ms: FRAME_GAP_MS, op: PollOp::SelectCl2(g) }),
            _ => field_off(PollOutcome::NoCard),
        },
        PollState::Sel2(a, f, g) => match e {
            PollEvent::Sak(Some(sak)) => field_off(PollOutcome::Double { atqa: a, cl1: f, cl2: g, sak }),
            _ => field_off(PollOutcome::NoCard),
        },
        PollState::FieldOff(o) => (PollState::Closing(o), PollAction { wait_ms: 0, op: PollOp::GateOff }),
        PollState::Closing(o) => (PollState::Finished(o), PollAction { wait_ms: 0, op: PollOp::Finish(o) }),
        PollState::Finished(o) => (PollState::Finished(o), PollAction { wait_ms: 0, op: PollOp::Finish(o) }),
    }
}

/// Attempt numbers stay below [`POLL_ATTEMPTS`].
pub open spec fn poll_wf(s: PollState) -> bool {
    match s {
        PollState::Reqa(n) => n < POLL_ATTEMPTS,
        PollState::ReqaRead(n) => n < POLL_ATTEMPTS,
        PollState::Wupa(n) => n < POLL_ATTEMPTS,
        PollState::WupaRead(n) => n < POLL_ATTEMPTS,
        _ => true,
    }
}

/// The field is on in this state (switched on, not yet switched off).
pub open spec fn field_is_on(s: PollState) -> bool {
    match s {
        PollState::Reqa(_) | PollState::ReqaRead(_) | PollState::Wupa(_) | PollState::WupaRead(_) => true,
        PollState::Cl1(_) | PollState::Sel1(_, _) | PollState::Cl2(_, _) | PollState::Sel2(_, _, _) => true,
        _ => false,
    }
}

/// The wait handed out from `s` on `e` runs with the field on.
pub open spec fn waits_with_field_on(s: PollState, e: PollEvent) -> bool {
    field_is_on(s) || (s == PollState::Field && e == PollEvent::Done)
}

/// Most milliseconds the poll can still wait with the field on from `s`.
pub open spec fn field_wait_left(s: PollState) -> int {
    match s {
        PollState::Field => FIELD_ON_BUDGET_MS as int,
        PollState::Reqa(n) => 70 * (POLL_ATTEMPTS - n),
        PollState::ReqaRead(n) => 70 * (POLL_ATTEMPTS - n) - 5,
        PollState::Wupa(n) => 70 * (POLL_ATTEMPTS - n) - 5,
        PollState::WupaRead(n) => 70 * (POLL_ATTEMPTS - n) - 10,
        PollState::Cl1(_) => 15,
        PollState::Sel1(_, _) => 10,
        PollState::Cl2(_, _) => 5,
        _ => 0,
    }
}

/// Steps the poll can still take before it is finished.
pub open spec fn steps_left(s: PollState) -> int {
    match s {
        PollState::Begin => 150,
        PollState::Gated => 149,
        PollState::Ident => 148,
        PollState::Field => 147,
        PollState::Reqa(n) => 10 + 4 * (34 - n),
        PollState::ReqaRead(n) => 9 + 4 * (34 - n),
        PollState::Wupa(n) => 8 + 4 * (34 - n),
        PollState::WupaRead(n) => 7 + 4 * (34 - n),
        PollState::Cl1(_) => 6,
        PollState::Sel1(_, _) => 5,
        PollState::Cl2(_, _) => 4,
        PollState::Sel2(_, _, _) => 3,
        PollState::FieldOff(_) => 2,
        PollState::Closing(_) => 1,
        PollState::Finished(_) => 0,
    }
}

fn off(outcome: PollOutcome) -> (r: (PollState, PollAction))
    ensures
        r == field_off(outcome),
{
    (PollState::FieldOff(outcome), PollAction { wait_ms: 0, op: PollOp::DisableField })
}

/// One step of the poll.
pub fn poll_step(s: PollState, e: PollEvent) -> (r: (PollState, PollAction))
    requires
        poll_wf(s),
    ensures
        r == spec_poll_step(s, e),
        poll_wf(r.0),
{
    match s {
        PollState::Begin => (PollState::Gated, PollAction { wait_ms: 0, op: PollOp::GateOn }),
        PollState::Gated => (PollState::Ident, PollAction { wait_ms: GATE_SETTLE_MS, op: PollOp::ReadIdentity }),
        PollState::Ident => match e {
            PollEvent::Identity(true) => (PollState::Field, PollAction { wait_ms: 0, op: PollOp::EnableField }),
            _ => (PollState::Closing(PollOutcome::NoCard), PollAction { wait_ms: 0, op: PollOp::GateOff }),
        },
        PollState::Field => match e {
            PollEvent::Done => (PollState::Reqa(0), PollAction { wait_ms: FIELD_SETTLE_MS, op: PollOp::SendReqa }),
            _ => (PollState::Closing(PollOutcome::NoCard), PollAction { wait_ms: 0, op: PollOp::GateOff }),
        },
        PollState::Reqa(n) => (PollState::ReqaRead(n), PollAction { wait_ms: FRAME_GAP_MS, op: PollOp::ReadAtqa }),
        PollState::ReqaRead(n) => match e {
            PollEvent::Atqa(Some(a)) => (PollState::Cl1(a), PollAction { wait_ms: FRAME_GAP_MS, op: PollOp::AnticollisionCl1 }),
            _ => (PollState::Wupa(n), PollAction { wait_ms: 0, op: PollOp::SendWupa }),
        },
        PollState::Wupa(n) => (PollState::WupaRead(n), PollAction { wait_ms: FRAME_GAP_MS, op: PollOp::ReadAtqa }),
        PollState::WupaRead(n) => match e {
            PollEvent::Atqa(Some(a)) => (PollState::Cl1(a), PollAction { wait_ms: FRAME_GAP_MS, op: PollOp::AnticollisionCl1 }),
            _ => if n + 1 < POLL_ATTEMPTS {
                (PollState::Reqa(n + 1), PollAction { wait_ms: ATTEMPT_GAP_MS, op: PollOp::SendReqa })
            } else {
                (PollState::FieldOff(PollOutcome::NoCard), PollAction { wait_ms: ATTEMPT_GAP_MS, op: PollOp::DisableField })
            },
        },
        PollState::Cl1(a) => match e {
            PollEvent::Frame(Some(f)) => (PollState::Sel1(a, f), PollAction { wait_ms: FRAME_GAP_MS, op: PollOp::SelectCl1(f) }),
            _ => off(PollOutcome::NoCard),
        },
        PollState::Sel1(a, f) => match e {
            PollEvent::Sak(Some(sak)) => if f[0] != ISO14443A_CASCADE_TAG && sak & 0x04 == 0 {
                off(PollOutcome::Single { atqa: a, cl1: f, sak })
            } else {
                (PollState::Cl2(a, f), PollAction { wait_ms: FRAME_GAP_MS, op: PollOp::AnticollisionCl2 })
            },
            _ => off(PollOutcome::NoCard),
        },
        PollState::Cl2(a, f) => match e {
            PollEvent::Frame(Some(g)) => (PollState::Sel2(a, f, g), PollAction { wait_ms: FRAME_GAP_MS, op: PollOp::SelectCl2(g) }),
            _ => off(PollOutcome::NoCard),
        },
        PollState::Sel2(a, f, g) => match e {
            PollEvent::Sak(Some(sak)) => off(PollOutcome::Double { atqa: a, cl1: f, cl2: g, sak }),
            _ => off(PollOutcome::NoCard),
        },
        PollState::FieldOff(o) => (PollState::Closing(o), PollAction { wait_ms: 0, op: PollOp::GateOff }),
        PollState::Closing(o) => (PollState::Finished(o), PollAction { wait_ms: 0, op: PollOp::Finish(o) }),
        PollState::Finished(o) => (PollState::Finished(o), PollAction { wait_ms: 0, op: PollOp::Finish(o) }),
    }
}

/// The UID bytes a finished poll reports: a single-size UID is the four
/// level-1 bytes; a double-size UID is level-1 bytes 1..4, then the four
/// level-2 bytes; the rest is zero.
pub open spec fn outcome_uid(o: PollOutcome) -> Seq<u8> {
    match o {
        PollOutcome::Single { cl1, .. } => seq![cl1[0], cl1[1], cl1[2], cl1[3], 0u8, 0u8, 0u8, 0u8, 0u8, 0u8],
        PollOutcome::Double { cl1, cl2, .. } => seq![cl1[1], cl1[2], cl1[3], cl2[0], cl2[1], cl2[2], cl2[3], 0u8, 0u8, 0u8],
        PollOutcome::NoCard => Seq::empty(),
    }
}

/// The card a finished poll reports, or `None`.
pub fn outcome_card(o: PollOutcome) -> (c: Option<Iso14443aCard>)
    ensures
        match o {
            PollOutcome::NoCard => c is None,
            PollOutcome::Single { atqa, sak, .. } => c matches Some(card) && card.atqa == atqa
                && card.sak == sak && card.uid_len == 4 && card.uid@ == outcome_uid(o),
            PollOutcome::Double { atqa, sak, .. } => c matches Some(card) && card.atqa == atqa
                && card.sak == sak && card.uid_len == 7 && card.uid@ == outcome_uid(o),
        },
{
    match o {
        PollOutcome::NoCard => None,
        PollOutcome::Single { atqa, cl1, sak } => {
            let uid = [cl1[0], cl1[1], cl1[2], cl1[3], 0, 0, 0, 0, 0, 0];
            assert(uid@ =~= outcome_uid(o));
            Some(Iso14443aCard { atqa, sak, uid_len: 4, uid })
        },
        PollOutcome::Double { atqa, cl1, cl2, sak } => {
            let uid = [cl1[1], cl1[2], cl1[3], cl2[0], cl2[1], cl2[2], cl2[3], 0, 0, 0];
            assert(uid@ =~= outcome_uid(o));
            Some(Iso14443aCard { atqa, sak, uid_len: 7, uid })
        },
    }
}

/// Every step keeps attempt numbers in range and, until the poll is
/// finished, brings it closer to the end: a poll ends within 150 steps
/// whatever the steps give.
pub proof fn law_poll_terminates(s: PollState, e: PollEvent)
    requires
        poll_wf(s),
    ensures
        poll_wf(spec_poll_step(s, e).0),
        0 <= steps_left(s),
        !(s is Finished) ==> steps_left(spec_poll_step(s, e).0) < steps_left(s),
{
}

/// The field is switched off before the poll leaves it: a step out of a
/// field-on state into one where it is off hands out `DisableField`, and
/// nothing but a successful switch-on turns it on.
pub proof fn law_field_switched_off(s: PollState, e: PollEvent)
    requires
        poll_wf(s),
    ensures
        field_is_on(s) && !field_is_on(spec_poll_step(s, e).0) ==> spec_poll_step(s, e).1.op == PollOp::DisableField,
        !field_is_on(s) && field_is_on(spec_poll_step(s, e).0) ==> s == PollState::Field && e == PollEvent::Done,
{
}

/// The field-on time budget: each wait spent with the field on comes out
/// of what is left, which starts at [`FIELD_ON_BUDGET_MS`] when the field
/// is switched on; so no poll keeps the field on for longer than that in
/// waits.
pub proof fn law_field_on_time(s: PollState, e: PollEvent)
    requires
        poll_wf(s),
    ensures
        field_wait_left(PollState::Field) == FIELD_ON_BUDGET_MS,
        waits_with_field_on(s, e) ==> spec_poll_step(s, e).1.wait_ms + field_wait_left(spec_poll_step(s, e).0)
            <= field_wait_left(s),
        0 <= field_wait_left(spec_poll_step(s, e).0),
{
}

/// The power rail is switched off before the outcome is reported: `Finish` is
/// only handed out once `GateOff` was, and every way to `GateOff` keeps
/// the field off.
pub proof fn law_gate_off_before_finish(s: PollState, e: PollEvent)
    requires
        poll_wf(s),
    ensures
        spec_poll_step(s, e).1.op is Finish ==> (s is Closing || s is Finished),
        spec_poll_step(s, e).1.op == PollOp::GateOff ==> !field_is_on(s) && spec_poll_step(s, e).0 is Closing,
{
}

} // verus!
