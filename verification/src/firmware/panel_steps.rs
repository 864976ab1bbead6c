//! The panel task's refresh sequences as lists of steps, with the refresh
//! policy they leave behind. The task carries each step out on the panel
//! controller, the reset line and the BUSY input; the order of the steps
//! and the choice between a full and a partial refresh stand here.

use vstd::prelude::*;
use crate::firmware::panel::{
    spec_mark_needs_full, spec_mono_refresh, Mark, MonoRefresh, RefreshPolicy, PARTIALS_BEFORE_FULL,
};
use crate::ssd1677::{
    OtpRefresh, BORDER_OTP_FULL, BORDER_OTP_PARTIAL, BORDER_WAVEFORM, DISPLAY_CTRL1_NORMAL,
    DISPLAY_UPDATE_CONTROL_1, DISPLAY_UPDATE_CONTROL_2, UPDATE_SEQ_OTP_4GRAY, UPDATE_SEQ_OTP_MONO,
    UPDATE_SEQ_OTP_MONO_SYNC, UPDATE_SEQ_OTP_PARTIAL, WRITE_RAM_BW, WRITE_RAM_RED,
};

verus! {

/// One step of a refresh sequence.
#[derive(Debug, Clone, Copy, PartialEq, Eq, Structural)]
pub enum PanelStep {
    /// Pulse the controller's reset line low, then wait for BUSY low.
    ResetPulse,
    /// Software reset, then the mono initialization.
    InitMono,
    /// Software reset, then the 4-gray initialization.
    InitGray,
    /// Mono RAM addressing (entry mode, windows, normal RAM).
    ApplyMonoAddressing,
    /// A command with one data byte.
    Cmd(u8, u8),
    /// Master activation.
    Activate,
    /// Wait for BUSY to rise and fall again.
    WaitBusyCycle,
    /// Deep sleep mode 1, then its settle time.
    DeepSleep,
    /// Fill the RAM plane selected by this write command with one byte.
    WriteSolid(u8, u8),
    /// Write the frame into the RAM plane of this write command, inverted
    /// or not.
    WriteFrame(u8, bool),
    /// Write the mark into the RAM plane of this write command.
    WriteMark(u8, Mark),
    /// Write a gray plane (black/white plane for `WRITE_RAM_BW`, red for
    /// `WRITE_RAM_RED`) into the RAM plane of this write command.
    WriteGrayPlane(u8),
    /// Record the panel stamp of this refresh.
    Stamp(OtpRefresh),
}

/// A full mono refresh: reset and mono init, the invert-sync pass over
/// the frame (or an all-black plane without one), then both planes
/// written (the frame, or white), the full border, the mode-1 pass, deep
/// sleep and the stamp.
pub open spec fn full_steps(frame: bool) -> Seq<PanelStep> {
    seq![
        PanelStep::ResetPulse,
        PanelStep::InitMono,
        PanelStep::Cmd(DISPLAY_UPDATE_CONTROL_2, UPDATE_SEQ_OTP_MONO_SYNC),
        if frame { PanelStep::WriteFrame(WRITE_RAM_BW, true) } else { PanelStep::WriteSolid(WRITE_RAM_BW, 0x00) },
        PanelStep::Activate,
        PanelStep::WaitBusyCycle,
        if frame { PanelStep::WriteFrame(WRITE_RAM_RED, false) } else { PanelStep::WriteSolid(WRITE_RAM_RED, 0xFF) },
        if frame { PanelStep::WriteFrame(WRITE_RAM_BW, false) } else { PanelStep::WriteSolid(WRITE_RAM_BW, 0xFF) },
        PanelStep::Cmd(BORDER_WAVEFORM, BORDER_OTP_FULL),
        PanelStep::Cmd(DISPLAY_UPDATE_CONTROL_2, UPDATE_SEQ_OTP_MONO),
        PanelStep::Activate,
        PanelStep::WaitBusyCycle,
        PanelStep::DeepSleep,
        PanelStep::Stamp(OtpRefresh::MonoFull),
    ]
}

/// Waking for a partial refresh: reset, mono addressing, partial border.
pub open spec fn wake_steps() -> Seq<PanelStep> {
    seq![PanelStep::ResetPulse, PanelStep::ApplyMonoAddressing, PanelStep::Cmd(BORDER_WAVEFORM, BORDER_OTP_PARTIAL)]
}

/// A partial refresh writing `first` into the black/white plane and then
/// `second` into the red plane around the partial pass.
pub open spec fn partial_steps(first: PanelStep, second: PanelStep) -> Seq<PanelStep> {
    wake_steps() + seq![
        first,
        PanelStep::Cmd(DISPLAY_UPDATE_CONTROL_1, DISPLAY_CTRL1_NORMAL),
        PanelStep::Cmd(DISPLAY_UPDATE_CONTROL_2, UPDATE_SEQ_OTP_PARTIAL),
        PanelStep::Activate,
        PanelStep::WaitBusyCycle,
        second,
        PanelStep::DeepSleep,
        PanelStep::Stamp(OtpRefresh::Partial),
    ]
}

/// The policy after a full refresh.
pub open spec fn after_full() -> RefreshPolicy {
    RefreshPolicy { mono_ready: true, partials: 0 }
}

/// The policy after a partial refresh.
pub open spec fn after_partial(p: RefreshPolicy) -> RefreshPolicy {
    RefreshPolicy { mono_ready: p.mono_ready, partials: if p.partials == 255 { 255 } else { (p.partials + 1) as u8 } }
}

/// Painting a target mark: a blank mark is a full refresh and nothing
/// else; another mark first takes a full refresh when
/// [`spec_mark_needs_full`] asks for one, then a partial refresh with the
/// mark in both planes.
pub open spec fn paint_steps(p: RefreshPolicy, mark: Mark) -> Seq<PanelStep> {
    if mark == Mark::Blank {
        full_steps(false)
    } else {
        (if spec_mark_needs_full(p, mark) { full_steps(false) } else { Seq::empty() })
            + partial_steps(PanelStep::WriteMark(WRITE_RAM_BW, mark), PanelStep::WriteMark(WRITE_RAM_RED, mark))
    }
}

/// The policy after painting `mark`.
pub open spec fn after_paint(p: RefreshPolicy, mark: Mark) -> RefreshPolicy {
    if mark == Mark::Blank {
        after_full()
    } else if spec_mark_needs_full(p, mark) {
        after_partial(after_full())
    } else {
        after_partial(p)
    }
}

/// Painting a mono frame: the refresh [`spec_mono_refresh`] picks, full
/// over the frame or partial with the frame in both planes.
pub open spec fn mono_fast_steps(p: RefreshPolicy, soft: bool) -> Seq<PanelStep> {
    if spec_mono_refresh(p, soft) == MonoRefresh::Full {
        full_steps(true)
    } else {
        partial_steps(PanelStep::WriteFrame(WRITE_RAM_BW, false), PanelStep::WriteFrame(WRITE_RAM_RED, false))
    }
}

/// The policy after painting a mono frame.
pub open spec fn after_mono_fast(p: RefreshPolicy, soft: bool) -> RefreshPolicy {
    if spec_mono_refresh(p, soft) == MonoRefresh::Full { after_full() } else { after_partial(p) }
}

/// A 4-gray frame: reset and gray init, both gray planes, the 4-gray
/// pass, deep sleep and the stamp, then a software reset back to mono.
pub open spec fn gray_steps() -> Seq<PanelStep> {
    seq![
        PanelStep::ResetPulse,
        PanelStep::InitGray,
        PanelStep::WriteGrayPlane(WRITE_RAM_BW),
        PanelStep::WriteGrayPlane(WRITE_RAM_RED),
        PanelStep::Cmd(DISPLAY_UPDATE_CONTROL_2, UPDATE_SEQ_OTP_4GRAY),
        PanelStep::Activate,
        PanelStep::WaitBusyCycle,
        PanelStep::DeepSleep,
        PanelStep::Stamp(OtpRefresh::GrayFull),
        PanelStep::InitMono,
    ]
}

fn push_all(steps: &mut Vec<PanelStep>, more: Vec<PanelStep>)
    ensures
        final(steps)@ == old(steps)@ + more@,
{
    let mut more = more;
    steps.append(&mut more);
}

/// The steps of a full mono refresh, over the frame or not.
pub fn full_refresh(frame: bool) -> (steps: Vec<PanelStep>)
    ensures
        steps@ == full_steps(frame),
{
    let s = vec![
        PanelStep::ResetPulse,
        PanelStep::InitMono,
        PanelStep::Cmd(DISPLAY_UPDATE_CONTROL_2, UPDATE_SEQ_OTP_MONO_SYNC),
        if frame { PanelStep::WriteFrame(WRITE_RAM_BW, true) } else { PanelStep::WriteSolid(WRITE_RAM_BW, 0x00) },
        PanelStep::Activate,
        PanelStep::WaitBusyCycle,
        if frame { PanelStep::WriteFrame(WRITE_RAM_RED, false) } else { PanelStep::WriteSolid(WRITE_RAM_RED, 0xFF) },
        if frame { PanelStep::WriteFrame(WRITE_RAM_BW, false) } else { PanelStep::WriteSolid(WRITE_RAM_BW, 0xFF) },
        PanelStep::Cmd(BORDER_WAVEFORM, BORDER_OTP_FULL),
        PanelStep::Cmd(DISPLAY_UPDATE_CONTROL_2, UPDATE_SEQ_OTP_MONO),
        PanelStep::Activate,
        PanelStep::WaitBusyCycle,
        PanelStep::DeepSleep,
        PanelStep::Stamp(OtpRefresh::MonoFull),
    ];
    assert(s@ =~= full_steps(frame));
    s
}

fn partial_refresh(first: PanelStep, second: PanelStep) -> (steps: Vec<PanelStep>)
    ensures
        steps@ == partial_steps(first, second),
{
    let s = vec![
        PanelStep::ResetPulse,
        PanelStep::ApplyMonoAddressing,
        PanelStep::Cmd(BORDER_WAVEFORM, BORDER_OTP_PARTIAL),
        first,
        PanelStep::Cmd(DISPLAY_UPDATE_CONTROL_1, DISPLAY_CTRL1_NORMAL),
        PanelStep::Cmd(DISPLAY_UPDATE_CONTROL_2, UPDATE_SEQ_OTP_PARTIAL),
        PanelStep::Activate,
        PanelStep::WaitBusyCycle,
        second,
        PanelStep::DeepSleep,
        PanelStep::Stamp(OtpRefresh::Partial),
    ];
    assert(s@ =~= partial_steps(first, second));
    s
}

/// Paints a target mark: the steps to carry out, and the policy moved on.
pub fn paint(policy: &mut RefreshPolicy, mark: Mark) -> (steps: Vec<PanelStep>)
    ensures
        steps@ == paint_steps(*old(policy), mark),
        *final(policy) == after_paint(*old(policy), mark),
{
    if matches!(mark, Mark::Blank) {
        policy.note_full();
        return full_refresh(false);
    }
    let mut steps: Vec<PanelStep> = Vec::new();
    if policy.mark_needs_full(mark) {
        steps = full_refresh(false);
        policy.note_full();
    }
    push_all(&mut steps, partial_refresh(PanelStep::WriteMark(WRITE_RAM_BW, mark), PanelStep::WriteMark(WRITE_RAM_RED, mark)));
    policy.note_partial();
    steps
}

/// Paints a mono frame (`soft` for a same-card redraw): the steps to
/// carry out, and the policy moved on.
pub fn paint_mono_fast(policy: &mut RefreshPolicy, soft: bool) -> (steps: Vec<PanelStep>)
    ensures
        steps@ == mono_fast_steps(*old(policy), soft),
        *final(policy) == after_mono_fast(*old(policy), soft),
{
    match policy.mono_refresh(soft) {
        MonoRefresh::Full => {
            policy.note_full();
            full_refresh(true)
        },
        MonoRefresh::Partial => {
            policy.note_partial();
            partial_refresh(PanelStep::WriteFrame(WRITE_RAM_BW, false), PanelStep::WriteFrame(WRITE_RAM_RED, false))
        },
    }
}

/// Paints a 4-gray frame: the steps to carry out; the mono baseline is
/// gone afterwards.
pub fn paint_gray(policy: &mut RefreshPolicy) -> (steps: Vec<PanelStep>)
    ensures
        steps@ == gray_steps(),
        !final(policy).mono_ready && final(policy).partials == 0,
{
    policy.note_gray();
    let s = vec![
        PanelStep::ResetPulse,
        PanelStep::InitGray,
        PanelStep::WriteGrayPlane(WRITE_RAM_BW),
        PanelStep::WriteGrayPlane(WRITE_RAM_RED),
        PanelStep::Cmd(DISPLAY_UPDATE_CONTROL_2, UPDATE_SEQ_OTP_4GRAY),
        PanelStep::Activate,
        PanelStep::WaitBusyCycle,
        PanelStep::DeepSleep,
        PanelStep::Stamp(OtpRefresh::GrayFull),
        PanelStep::InitMono,
    ];
    assert(s@ =~= gray_steps());
    s
}

/// Clears the panel to white with a full refresh before the touch walk.
pub fn enter_mono(policy: &mut RefreshPolicy) -> (steps: Vec<PanelStep>)
    ensures
        steps@ == full_steps(false),
        *final(policy) == after_full(),
{
    policy.note_full();
    full_refresh(false)
}

/// Marks and card changes keep the panel DC-balanced: from a policy
/// within the partial budget, painting a mark or a card change leaves it
/// within the budget (a same-card redraw, `soft`, is the one exception).
pub proof fn law_paint_in_budget(p: RefreshPolicy, mark: Mark)
    requires
        p.partials <= PARTIALS_BEFORE_FULL,
    ensures
        after_paint(p, mark).partials <= PARTIALS_BEFORE_FULL,
        after_mono_fast(p, false).partials <= PARTIALS_BEFORE_FULL,
{
}

/// Every partial refresh that a mark or card change runs is preceded in
/// the same call by a full one once the budget is spent: from a spent
/// budget, the sequence starts with the full refresh.
pub proof fn law_spent_budget_starts_full(p: RefreshPolicy, mark: Mark)
    requires
        p.partials >= PARTIALS_BEFORE_FULL,
    ensures
        paint_steps(p, mark).subrange(0, 14) == full_steps(false),
        mono_fast_steps(p, false) == full_steps(true),
{
    assert((full_steps(false) + partial_steps(PanelStep::WriteMark(WRITE_RAM_BW, mark), PanelStep::WriteMark(WRITE_RAM_RED, mark))).subrange(0, 14) =~= full_steps(false));
}

} // verus!
