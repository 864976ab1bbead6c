//! The RTC-timed sleep: the last wake source and sleep outcome kept for the
//! banner, the decisions on waking and on 5 V input, and the register
//! sequences that stop and arm the RX8130 timer and prepare the PMIC.

use vstd::prelude::*;
use crate::log::{
    format_sleep_abort, format_sleep_rtc, format_wake, number_line, sleep_abort_line, wake_line,
    SLEEP_CAPACITY, WAKE_CAPACITY,
};
use crate::text::FormatError;
use crate::bus::{
    completed, lemma_concat, lemma_prefix_trans, lemma_ran_prefix, lemma_replan, lemma_start,
    lemma_step, lemma_stop_extend, lemma_stop_replan, on_track, ran, read_byte, read_pair, stopped, write_req, Event, I2cBus, I2cDevice, I2cLog,
    I2cRequest, Step,
};
use crate::lite::rtc::{
    CONTROL, EXTENSION, FLAG, FLAG_CLEAR_IRQ, FLAG_IRQ, TIMER_10S_COUNTS, TIMER_COUNTER_L, TIMER_EN,
    TSEL_64HZ,
};
use crate::m5pm1::{
    M5pm1, GPIO_DRV, GPIO_FUNC0, GPIO_MODE, GPIO_PULL_UP, GPIO_PUPD0, GPIO_WAKE_CFG, GPIO_WAKE_EN,
    HOLD_CFG, HOLD_LDO, HOLD_VIN, IRQ_MASK1, IRQ_STATUS1, IRQ_STATUS2, IRQ_STATUS3, PWR_SRC_VIN,
    PWR_SRC_VINOUT, VIN_PRESENT_MV, WAKE_SRC, WAKE_SRC_EXT,
};

verus! {

/// `last_wake` before any `wake` line was printed.
pub const NO_WAKE: u8 = 0xFF;
/// `last_sleep`: nothing printed yet.
pub const SLEEP_NONE: u8 = 0;
/// `last_sleep`: `sleep rtc=10` was printed.
pub const SLEEP_RTC: u8 = 1;
/// `last_sleep`: `sleep abort` was printed.
pub const SLEEP_ABORT: u8 = 2;
/// Seconds the RTC timer sleeps before waking the board.
pub const RTC_WAKE_SECS: u8 = 10;

/// What was last printed about waking and sleeping.
pub struct SleepRecord {
    /// Wake source byte, or [`NO_WAKE`].
    pub last_wake: u8,
    /// One of [`SLEEP_NONE`], [`SLEEP_RTC`], [`SLEEP_ABORT`].
    pub last_sleep: u8,
}

/// `line` as a one-line list when it fits a buffer of `cap` bytes.
pub open spec fn if_fits(line: Seq<u8>, cap: nat) -> Seq<Seq<u8>> {
    if line.len() <= cap { seq![line] } else { Seq::empty() }
}

/// The lines `reprint` repeats for the record `r`: the wake line, then the
/// sleep line, each only when it was printed before.
pub open spec fn reprint_lines(r: SleepRecord) -> Seq<Seq<u8>> {
    (if r.last_wake != NO_WAKE { if_fits(wake_line(r.last_wake), WAKE_CAPACITY as nat) } else { Seq::empty() })
        + (if r.last_sleep == SLEEP_RTC {
        if_fits(number_line("sleep rtc=", RTC_WAKE_SECS as nat), SLEEP_CAPACITY as nat)
    } else if r.last_sleep == SLEEP_ABORT {
        if_fits(sleep_abort_line(), SLEEP_CAPACITY as nat)
    } else {
        Seq::empty()
    })
}

impl SleepRecord {
    /// Nothing printed yet.
    pub fn new() -> (r: SleepRecord)
        ensures
            r.last_wake == NO_WAKE,
            r.last_sleep == SLEEP_NONE,
    {
        SleepRecord { last_wake: NO_WAKE, last_sleep: SLEEP_NONE }
    }

    /// A `wake src=` line was printed for `src`.
    pub fn record_wake(&mut self, src: u8)
        ensures
            final(self).last_wake == src,
            final(self).last_sleep == old(self).last_sleep,
    {
        self.last_wake = src;
    }

    /// `sleep rtc=10` was printed.
    pub fn record_sleep_rtc(&mut self)
        ensures
            final(self).last_sleep == SLEEP_RTC,
            final(self).last_wake == old(self).last_wake,
    {
        self.last_sleep = SLEEP_RTC;
    }

    /// `sleep abort` was printed.
    pub fn record_sleep_abort(&mut self)
        ensures
            final(self).last_sleep == SLEEP_ABORT,
            final(self).last_wake == old(self).last_wake,
    {
        self.last_sleep = SLEEP_ABORT;
    }

    /// The lines to print again on the banner period, in order.
    pub fn reprint(&self) -> (lines: Vec<Vec<u8>>)
        ensures
            lines@.map_values(|v: Vec<u8>| v@) == reprint_lines(*self),
    {
        let mut lines: Vec<Vec<u8>> = Vec::new();
        let ghost first: Seq<Seq<u8>> = if self.last_wake != NO_WAKE {
            if_fits(wake_line(self.last_wake), WAKE_CAPACITY as nat)
        } else {
            Seq::empty()
        };
        if self.last_wake != NO_WAKE {
            let mut buf = [0u8; WAKE_CAPACITY];
            match format_wake(self.last_wake, &mut buf) {
                Ok(line) => {
                    lines.push(vstd::slice::slice_to_vec(line.as_bytes()));
                },
                Err(e) => {
                    assert(e == FormatError::Truncated);
                },
            }
        }
        assert(lines@.map_values(|v: Vec<u8>| v@) =~= first);
        if self.last_sleep == SLEEP_RTC {
            let mut buf = [0u8; SLEEP_CAPACITY];
            match format_sleep_rtc(RTC_WAKE_SECS, &mut buf) {
                Ok(line) => {
                    lines.push(vstd::slice::slice_to_vec(line.as_bytes()));
                },
                Err(e) => {
                    assert(e == FormatError::Truncated);
                },
            }
        } else if self.last_sleep == SLEEP_ABORT {
            let mut buf = [0u8; SLEEP_CAPACITY];
            match format_sleep_abort(&mut buf) {
                Ok(line) => {
                    lines.push(vstd::slice::slice_to_vec(line.as_bytes()));
                },
                Err(e) => {
                    assert(e == FormatError::Truncated);
                },
            }
        }
        assert(lines@.map_values(|v: Vec<u8>| v@) =~= reprint_lines(*self));
        lines
    }
}

/// Whether 5 V input is present: the VIN ADC reads at least
/// `VIN_PRESENT_MV`, or `PWR_SRC` flags 5VIN or 5VINOUT (a failed read
/// counts as absent).
pub fn vin_present(vin_mv: Option<u16>, pwr_src: Option<u8>) -> (b: bool)
    ensures
        b == ((vin_mv matches Some(mv) && mv >= VIN_PRESENT_MV) || (pwr_src matches Some(s) && s & (
        PWR_SRC_VIN | PWR_SRC_VINOUT) != 0)),
{
    let adc_on = match vin_mv {
        Some(mv) => mv >= VIN_PRESENT_MV,
        None => false,
    };
    let src_on = match pwr_src {
        Some(s) => s & (PWR_SRC_VIN | PWR_SRC_VINOUT) != 0,
        None => false,
    };
    adc_on || src_on
}

/// Whether the RTC flag register (when it could be read) shows a pending
/// timer interrupt.
pub fn rtc_irq(flag: Option<u8>) -> (b: bool)
    ensures
        b == (flag matches Some(f) && f & FLAG_IRQ != 0),
{
    match flag {
        Some(f) => f & FLAG_IRQ != 0,
        None => false,
    }
}

/// Whether this boot is a clean button wake, which needs no RTC sleep:
/// `WAKE_SRC` names the external wake, PMIC G0 reads high and no RTC
/// interrupt is pending.
pub fn clean_gpio_wake(wake_src: u8, g0_high: Option<bool>, rtc_irq_pending: bool) -> (b: bool)
    ensures
        b == (wake_src & WAKE_SRC_EXT != 0 && g0_high == Some(true) && !rtc_irq_pending),
{
    let g0_idle = match g0_high {
        Some(h) => h && !rtc_irq_pending,
        None => false,
    };
    wake_src & WAKE_SRC_EXT != 0 && g0_idle
}

/// RX8130 `EXTENSION` for the 10 s timer: the timer-select, enable and
/// bit-2 fields cleared, then the 64 Hz source selected.
pub fn timer_extension(ext: u8) -> (e: u8)
    ensures
        e == (ext & !0x17u8) | TSEL_64HZ,
{
    (ext & !0x17u8) | TSEL_64HZ
}

/// A one-byte register read with a repeated start.
pub open spec fn reg_read(a: u8, reg: u8) -> I2cRequest {
    I2cRequest::WriteRead(a, seq![reg], 1)
}

/// The byte that event `i` of `log` read.
pub open spec fn byte_at(log: I2cLog, i: int) -> u8 {
    log[i].data[0]
}

/// The two reads that start stopping the timer.
pub open spec fn stop_reads(a: u8) -> Seq<Step<I2cRequest>> {
    seq![(reg_read(a, EXTENSION), true), (reg_read(a, CONTROL), true)]
}

/// The writes that stop the timer, from the `EXTENSION` and `CONTROL`
/// values read: both lose `TIMER_EN`, then the timer flag is cleared.
pub open spec fn stop_writes(a: u8, ext: u8, ctl: u8) -> Seq<Step<I2cRequest>> {
    seq![
        (write_req(a, EXTENSION, seq![ext & !TIMER_EN]), true),
        (write_req(a, CONTROL, seq![ctl & !TIMER_EN]), true),
        (write_req(a, FLAG, seq![FLAG_CLEAR_IRQ]), true),
    ]
}

/// Stopping the RTC timer as one plan.
pub open spec fn stop_plan(a: u8, ext: u8, ctl: u8) -> Seq<Step<I2cRequest>> {
    stop_reads(a) + stop_writes(a, ext, ctl)
}

/// Joins the reads and the writes of [`stop_timer`] into one run of
/// [`stop_plan`] over the bytes the final log holds.
proof fn lemma_stop_join(base: I2cLog, m: I2cLog, fin: I2cLog, a: u8, ext: u8, ctl: u8)
    requires
        completed(base, m, stop_reads(a)),
        byte_at(m, base.len() as int) == ext,
        byte_at(m, (base.len() + 1) as int) == ctl,
        ran(m, fin, stop_writes(a, ext, ctl)),
    ensures
        ran(base, fin, stop_plan(a, byte_at(fin, base.len() as int), byte_at(fin, (base.len() + 1) as int))),
        completed(m, fin, stop_writes(a, ext, ctl)) <==> completed(
            base,
            fin,
            stop_plan(a, byte_at(fin, base.len() as int), byte_at(fin, (base.len() + 1) as int)),
        ),
{
    lemma_ran_prefix(m, fin, stop_writes(a, ext, ctl));
    lemma_concat(base, m, fin, stop_reads(a), stop_writes(a, ext, ctl));
    let b = base.len() as int;
    assert(fin.subrange(0, m.len() as int)[b] == fin[b]);
    assert(fin.subrange(0, m.len() as int)[b + 1] == fin[b + 1]);
}

/// Stops the RX8130 countdown timer: reads `EXTENSION` and `CONTROL`,
/// writes both back without `TIMER_EN`, then clears the timer flag. Every
/// step is required; returns whether all of them went through.
pub fn stop_timer<B: I2cBus>(rtc: &mut I2cDevice<B>) -> (ok: bool)
    ensures
        final(rtc).spec_address() == old(rtc).spec_address(),
        ran(
            old(rtc).events(),
            final(rtc).events(),
            stop_plan(
                old(rtc).spec_address(),
                byte_at(final(rtc).events(), old(rtc).events().len() as int),
                byte_at(final(rtc).events(), (old(rtc).events().len() + 1) as int),
            ),
        ),
        ok <==> completed(
            old(rtc).events(),
            final(rtc).events(),
            stop_plan(
                old(rtc).spec_address(),
                byte_at(final(rtc).events(), old(rtc).events().len() as int),
                byte_at(final(rtc).events(), (old(rtc).events().len() + 1) as int),
            ),
        ),
{
    let ghost base = rtc.events();
    let ghost a = rtc.spec_address();
    let ghost b = base.len() as int;
    let ghost reads = stop_reads(a);
    proof {
        lemma_start(base, reads);
    }
    let sel_ext = [EXTENSION];
    assert(sel_ext@ =~= seq![EXTENSION]);
    let mut v = [0u8];
    if rtc.write_read_step(&sel_ext, &mut v, Ghost(base), Ghost(reads)).is_err() {
        proof {
            let fin = rtc.events();
            lemma_stop_extend(base, fin, reads, stop_plan(a, byte_at(fin, b), byte_at(fin, b + 1)));
        }
        return false;
    }
    let ext = v[0];
    let sel_ctl = [CONTROL];
    assert(sel_ctl@ =~= seq![CONTROL]);
    let mut w = [0u8];
    let ghost m0 = rtc.events();
    if rtc.write_read_step(&sel_ctl, &mut w, Ghost(base), Ghost(reads)).is_err() {
        proof {
            let fin = rtc.events();
            lemma_stop_extend(base, fin, reads, stop_plan(a, byte_at(fin, b), byte_at(fin, b + 1)));
        }
        return false;
    }
    let ctl = w[0];
    let ghost m = rtc.events();
    proof {
        assert(m[b] == m0[b]);
    }
    let ghost writes = stop_writes(a, ext, ctl);
    proof {
        lemma_start(m, writes);
    }
    let b1 = [EXTENSION, ext & !TIMER_EN];
    assert(b1@ =~= seq![EXTENSION] + seq![ext & !TIMER_EN]);
    if rtc.write_step(&b1, Ghost(m), Ghost(writes)).is_err() {
        proof {
            lemma_stop_join(base, m, rtc.events(), a, ext, ctl);
        }
        return false;
    }
    let b2 = [CONTROL, ctl & !TIMER_EN];
    assert(b2@ =~= seq![CONTROL] + seq![ctl & !TIMER_EN]);
    if rtc.write_step(&b2, Ghost(m), Ghost(writes)).is_err() {
        proof {
            lemma_stop_join(base, m, rtc.events(), a, ext, ctl);
        }
        return false;
    }
    let b3 = [FLAG, FLAG_CLEAR_IRQ];
    assert(b3@ =~= seq![FLAG] + seq![FLAG_CLEAR_IRQ]);
    let r = rtc.write_step(&b3, Ghost(m), Ghost(writes));
    proof {
        lemma_stop_join(base, m, rtc.events(), a, ext, ctl);
    }
    r.is_ok()
}

/// Read-modify-write of a PMIC register: read it, then write back `cur`
/// with the `clear` bits cleared and the `set` bits set.
pub open spec fn rmw_plan(a: u8, reg: u8, clear: u8, set: u8, cur: u8) -> Seq<Step<I2cRequest>> {
    read_pair(a, reg) + seq![(write_req(a, reg, seq![(cur & !clear) | set]), true)]
}

/// One required write as a plan.
pub open spec fn write_plan(a: u8, reg: u8, val: u8) -> Seq<Step<I2cRequest>> {
    seq![(write_req(a, reg, seq![val]), true)]
}

/// A single required step issued once is a run of that one-step plan.
proof fn lemma_one_step(base: I2cLog, fin: I2cLog, s: Step<I2cRequest>)
    requires
        fin.len() == base.len() + 1,
        fin.drop_last() == base,
        fin.last().request == s.0,
        s.1,
    ensures
        ran(base, fin, seq![s]),
        completed(base, fin, seq![s]) <==> fin.last().ok,
{
    lemma_start(base, seq![s]);
    assert(fin =~= base.push(fin.last()));
    lemma_step(base, base, seq![s], fin.last());
}

/// Reads `reg` on the PMIC and writes it back with `clear` cleared and
/// `set` set; nothing is written after a failed read. Returns whether both
/// went through.
pub fn rmw<B: I2cBus>(pm1: &mut M5pm1<B>, reg: u8, clear: u8, set: u8) -> (ok: bool)
    ensures
        final(pm1).spec_address() == old(pm1).spec_address(),
        ran(
            old(pm1).events(),
            final(pm1).events(),
            rmw_plan(old(pm1).spec_address(), reg, clear, set, read_byte(final(pm1).events(), old(pm1).events().len())),
        ),
        ok <==> completed(
            old(pm1).events(),
            final(pm1).events(),
            rmw_plan(old(pm1).spec_address(), reg, clear, set, read_byte(final(pm1).events(), old(pm1).events().len())),
        ),
{
    let ghost base = pm1.events();
    let ghost a = pm1.spec_address();
    let ghost b = base.len();
    let cur = match pm1.read_at(reg) {
        Err(_) => {
            proof {
                let fin = pm1.events();
                lemma_stop_extend(base, fin, read_pair(a, reg), rmw_plan(a, reg, clear, set, read_byte(fin, b)));
            }
            return false;
        },
        Ok(v) => v,
    };
    let ghost m = pm1.events();
    let r = pm1.write_at(reg, (cur & !clear) | set);
    proof {
        let fin = pm1.events();
        let w = seq![(write_req(a, reg, seq![(cur & !clear) | set]), true)];
        lemma_one_step(m, fin, w[0]);
        assert(seq![w[0]] =~= w);
        lemma_concat(base, m, fin, read_pair(a, reg), w);
        assert(fin.drop_last()[b + 1int] == fin[b + 1int]);
    }
    r.is_ok()
}

/// The PMIC set-up before the RTC sleep, in order: G0 wake off, the three
/// IRQ status registers cleared, IRQ masks, G0 as a pulled-up input
/// without wake, LDO and VIN holds off. Each entry is (register, bits to
/// clear, bits to set, read-modify-write); a plain write stores the set
/// bits.
pub open spec fn g0_ops() -> Seq<(u8, u8, u8, bool)> {
    seq![
        (GPIO_WAKE_EN, 0x11u8, 0u8, true),
        (IRQ_STATUS1, 0u8, 0u8, false),
        (IRQ_STATUS2, 0u8, 0u8, false),
        (IRQ_STATUS3, 0u8, 0u8, false),
        (IRQ_MASK1, 0x01u8, 0x1Cu8, true),
        (GPIO_FUNC0, 0x03u8, 0u8, true),
        (GPIO_MODE, 0x01u8, 0u8, true),
        (GPIO_PUPD0, 0x03u8, GPIO_PULL_UP, true),
        (GPIO_DRV, 0x01u8, 0u8, true),
        (GPIO_WAKE_CFG, 0x01u8, 0u8, true),
        (HOLD_CFG, HOLD_LDO | HOLD_VIN, 0u8, true),
    ]
}

/// Transfers one set-up entry takes.
pub open spec fn op_len(op: (u8, u8, u8, bool)) -> nat {
    if op.3 { 3 } else { 1 }
}

/// Where entry `i` starts, counted in transfers from the start of the run.
pub open spec fn op_offset(i: nat) -> nat
    decreases i,
{
    if i == 0 { 0 } else { op_offset((i - 1) as nat) + op_len(g0_ops()[i - 1]) }
}

/// The steps of one set-up entry; a read-modify-write uses the byte that
/// its read at `at` returned in `log`.
pub open spec fn op_plan(a: u8, op: (u8, u8, u8, bool), log: I2cLog, at: nat) -> Seq<Step<I2cRequest>> {
    if op.3 { rmw_plan(a, op.0, op.1, op.2, read_byte(log, at)) } else { write_plan(a, op.0, op.2) }
}

/// The steps of the first `i` set-up entries of a run from `b`.
pub open spec fn g0_upto(a: u8, log: I2cLog, b: nat, i: nat) -> Seq<Step<I2cRequest>>
    decreases i,
{
    if i == 0 {
        Seq::empty()
    } else {
        g0_upto(a, log, b, (i - 1) as nat) + op_plan(a, g0_ops()[i - 1], log, b + op_offset((i - 1) as nat))
    }
}

/// The whole set-up as one plan.
pub open spec fn g0_plan(a: u8, log: I2cLog, b: nat) -> Seq<Step<I2cRequest>> {
    g0_upto(a, log, b, 11)
}

/// The steps of the first `i` entries only read bytes that came before the
/// `i`-th entry, so a longer log gives the same steps.
proof fn lemma_upto_stable(a: u8, l1: I2cLog, l2: I2cLog, b: nat, i: nat)
    requires
        i <= 11,
        l1.is_prefix_of(l2),
        b + op_offset(i) <= l1.len(),
    ensures
        g0_upto(a, l1, b, i) == g0_upto(a, l2, b, i),
    decreases i,
{
    if i > 0 {
        let k = (i - 1) as nat;
        assert(op_offset(i) == op_offset(k) + op_len(g0_ops()[k as int]));
        assert(op_len(g0_ops()[k as int]) >= 1);
        lemma_upto_stable(a, l1, l2, b, k);
        let at = b + op_offset(k);
        if g0_ops()[k as int].3 {
            assert(l2.subrange(0, l1.len() as int)[at + 1int] == l2[at + 1int]);
        }
    }
}

/// A shorter run's steps begin a longer run's.
proof fn lemma_upto_prefix(a: u8, log: I2cLog, b: nat, i: nat, j: nat)
    requires
        i <= j,
    ensures
        g0_upto(a, log, b, i).len() <= g0_upto(a, log, b, j).len(),
        forall|k: int| 0 <= k < g0_upto(a, log, b, i).len() ==> g0_upto(a, log, b, i)[k] == g0_upto(a, log, b, j)[k],
    decreases j - i,
{
    if i < j {
        lemma_upto_prefix(a, log, b, i, (j - 1) as nat);
    }
}

/// The plan run so far, as a state of [`preconfig_g0`]: `done` ran from
/// `base` to `log`, completed when `ok`, stopped otherwise.
pub open spec fn chain_state(base: I2cLog, log: I2cLog, done: Seq<Step<I2cRequest>>, ok: bool) -> bool {
    &&& base.is_prefix_of(log)
    &&& (ok ==> completed(base, log, done))
    &&& (!ok ==> stopped(base, log, done))
}

/// Runs the next read-modify-write of a run that has gone through so far;
/// the plan grows by its steps, with the byte it reads.
fn chain_rmw<B: I2cBus>(
    pm1: &mut M5pm1<B>,
    reg: u8,
    clear: u8,
    set: u8,
    Ghost(base): Ghost<I2cLog>,
    Ghost(done): Ghost<Seq<Step<I2cRequest>>>,
) -> (r: (bool, Ghost<Seq<Step<I2cRequest>>>))
    requires
        chain_state(base, old(pm1).events(), done, true),
    ensures
        final(pm1).spec_address() == old(pm1).spec_address(),
        old(pm1).events().is_prefix_of(final(pm1).events()),
        chain_state(base, final(pm1).events(), r.1@, r.0),
        r.1@ == done + rmw_plan(
            old(pm1).spec_address(),
            reg,
            clear,
            set,
            read_byte(final(pm1).events(), old(pm1).events().len()),
        ),
        r.0 ==> final(pm1).events().len() == old(pm1).events().len() + 3,
{
    let ghost m = pm1.events();
    let ghost a = pm1.spec_address();
    let r = rmw(pm1, reg, clear, set);
    let ghost fin = pm1.events();
    let ghost seg = rmw_plan(a, reg, clear, set, read_byte(fin, m.len()));
    proof {
        lemma_ran_prefix(m, fin, seg);
        lemma_concat(base, m, fin, done, seg);
        lemma_prefix_trans(base, m, fin);
        if r {
            assert(completed(m, fin, seg));
        }
    }
    (r, Ghost(done + seg))
}

/// Runs the next plain write of a run that has gone through so far.
fn chain_write<B: I2cBus>(
    pm1: &mut M5pm1<B>,
    reg: u8,
    val: u8,
    Ghost(base): Ghost<I2cLog>,
    Ghost(done): Ghost<Seq<Step<I2cRequest>>>,
) -> (r: (bool, Ghost<Seq<Step<I2cRequest>>>))
    requires
        chain_state(base, old(pm1).events(), done, true),
    ensures
        final(pm1).spec_address() == old(pm1).spec_address(),
        old(pm1).events().is_prefix_of(final(pm1).events()),
        chain_state(base, final(pm1).events(), r.1@, r.0),
        r.1@ == done + write_plan(old(pm1).spec_address(), reg, val),
        final(pm1).events().len() == old(pm1).events().len() + 1,
{
    let ghost m = pm1.events();
    let ghost a = pm1.spec_address();
    let res = pm1.write_at(reg, val);
    let ghost fin = pm1.events();
    let ghost seg = write_plan(a, reg, val);
    proof {
        lemma_one_step(m, fin, seg[0]);
        assert(seq![seg[0]] =~= seg);
        lemma_ran_prefix(m, fin, seg);
        lemma_concat(base, m, fin, done, seg);
        lemma_prefix_trans(base, m, fin);
    }
    (res.is_ok(), Ghost(done + seg))
}

/// Prepares the PMIC for the RTC sleep (see [`g0_ops`]), stopping at the
/// first transfer that fails, then always clears `WAKE_SRC`. Returns
/// whether every set-up transfer went through.
pub fn preconfig_g0<B: I2cBus>(pm1: &mut M5pm1<B>) -> (ok: bool)
    ensures
        final(pm1).spec_address() == old(pm1).spec_address(),
        final(pm1).events().len() > old(pm1).events().len(),
        ran(
            old(pm1).events(),
            final(pm1).events().drop_last(),
            g0_plan(old(pm1).spec_address(), final(pm1).events().drop_last(), old(pm1).events().len()),
        ),
        ok <==> completed(
            old(pm1).events(),
            final(pm1).events().drop_last(),
            g0_plan(old(pm1).spec_address(), final(pm1).events().drop_last(), old(pm1).events().len()),
        ),
        final(pm1).events().last().request == write_req(old(pm1).spec_address(), WAKE_SRC, seq![0u8]),
{
    let ghost base = pm1.events();
    let ghost a = pm1.spec_address();
    let ghost b = base.len();
    let ops: [(u8, u8, u8, bool); 11] = [
        (GPIO_WAKE_EN, 0x11, 0, true),
        (IRQ_STATUS1, 0, 0, false),
        (IRQ_STATUS2, 0, 0, false),
        (IRQ_STATUS3, 0, 0, false),
        (IRQ_MASK1, 0x01, 0x1C, true),
        (GPIO_FUNC0, 0x03, 0, true),
        (GPIO_MODE, 0x01, 0, true),
        (GPIO_PUPD0, 0x03, GPIO_PULL_UP, true),
        (GPIO_DRV, 0x01, 0, true),
        (GPIO_WAKE_CFG, 0x01, 0, true),
        (HOLD_CFG, HOLD_LDO | HOLD_VIN, 0, true),
    ];
    assert(ops@ =~= g0_ops());
    let mut ok = true;
    let mut i: usize = 0;
    let ghost mut done: Seq<Step<I2cRequest>> = Seq::empty();
    proof {
        lemma_start(base, done);
        assert(base.is_prefix_of(base)) by {
            assert(base =~= base.subrange(0, base.len() as int));
        }
    }
    while ok && i < 11
        invariant
            ops@ == g0_ops(),
            i <= 11,
            !ok ==> i >= 1,
            pm1.spec_address() == a,
            chain_state(base, pm1.events(), done, ok),
            done == g0_upto(a, pm1.events(), b, i as nat),
            ok ==> pm1.events().len() == b + op_offset(i as nat),
        decreases 11 - i,
    {
        let (reg, clear, set, is_rmw) = ops[i];
        let ghost m = pm1.events();
        let r = if is_rmw {
            chain_rmw(pm1, reg, clear, set, Ghost(base), Ghost(done))
        } else {
            chain_write(pm1, reg, set, Ghost(base), Ghost(done))
        };
        let ghost fin = pm1.events();
        proof {
            lemma_upto_stable(a, m, fin, b, i as nat);
            assert(op_offset((i + 1) as nat) == op_offset(i as nat) + op_len(g0_ops()[i as int]));
            assert(r.1@ == g0_upto(a, fin, b, (i + 1) as nat));
        }
        ok = r.0;
        proof {
            done = r.1@;
        }
        i = i + 1;
    }
    let ghost chain = pm1.events();
    proof {
        lemma_upto_prefix(a, chain, b, i as nat, 11);
        if ok {
            assert(i == 11);
        } else {
            lemma_stop_extend(base, chain, done, g0_plan(a, chain, b));
        }
    }
    let _ = pm1.write_at(WAKE_SRC, 0);
    ok
}

/// Setting the RTC timer up for 10 s, from the `EXTENSION` byte `e` and the
/// `CONTROL` byte `c` it reads: 64 Hz source, flag cleared, timer enabled in
/// `CONTROL`.
pub open spec fn setup_plan(a: u8, e: u8, c: u8) -> Seq<Step<I2cRequest>> {
    seq![
        (reg_read(a, EXTENSION), true),
        (write_req(a, EXTENSION, seq![(e & !0x17u8) | TSEL_64HZ]), true),
        (write_req(a, FLAG, seq![FLAG_CLEAR_IRQ]), true),
        (reg_read(a, CONTROL), true),
        (write_req(a, CONTROL, seq![c | TIMER_EN]), true),
    ]
}

/// Runs [`setup_plan`]; returns the `EXTENSION` value written when every
/// step went through.
fn arm_setup<B: I2cBus>(rtc: &mut I2cDevice<B>) -> (r: Option<u8>)
    ensures
        final(rtc).spec_address() == old(rtc).spec_address(),
        ran(
            old(rtc).events(),
            final(rtc).events(),
            setup_plan(
                old(rtc).spec_address(),
                byte_at(final(rtc).events(), old(rtc).events().len() as int),
                byte_at(final(rtc).events(), (old(rtc).events().len() + 3) as int),
            ),
        ),
        r is Some <==> completed(
            old(rtc).events(),
            final(rtc).events(),
            setup_plan(
                old(rtc).spec_address(),
                byte_at(final(rtc).events(), old(rtc).events().len() as int),
                byte_at(final(rtc).events(), (old(rtc).events().len() + 3) as int),
            ),
        ),
        r matches Some(x) ==> x == (byte_at(final(rtc).events(), old(rtc).events().len() as int) & !0x17u8)
            | TSEL_64HZ,
{
    let ghost base = rtc.events();
    let ghost a = rtc.spec_address();
    let ghost b = base.len() as int;
    let ghost p0 = setup_plan(a, 0, 0);
    proof {
        lemma_start(base, p0);
    }
    let sel_ext = [EXTENSION];
    assert(sel_ext@ =~= seq![EXTENSION]);
    let mut v = [0u8];
    if rtc.write_read_step(&sel_ext, &mut v, Ghost(base), Ghost(p0)).is_err() {
        proof {
            let fin = rtc.events();
            lemma_stop_replan(base, fin, p0, setup_plan(a, byte_at(fin, b), byte_at(fin, b + 3)));
        }
        return None;
    }
    let e = v[0];
    let ghost m1 = rtc.events();
    let ext = timer_extension(e);
    let ghost p1 = setup_plan(a, e, 0);
    proof {
        lemma_replan(base, m1, p0, p1);
    }
    let w1 = [EXTENSION, ext];
    assert(w1@ =~= seq![EXTENSION] + seq![ext]);
    if rtc.write_step(&w1, Ghost(base), Ghost(p1)).is_err() {
        proof {
            let fin = rtc.events();
            assert(fin[b] == m1[b]);
            lemma_stop_replan(base, fin, p1, setup_plan(a, byte_at(fin, b), byte_at(fin, b + 3)));
        }
        return None;
    }
    let ghost m2 = rtc.events();
    let w2 = [FLAG, FLAG_CLEAR_IRQ];
    assert(w2@ =~= seq![FLAG] + seq![FLAG_CLEAR_IRQ]);
    if rtc.write_step(&w2, Ghost(base), Ghost(p1)).is_err() {
        proof {
            let fin = rtc.events();
            assert(fin[b] == m2[b] && m2[b] == m1[b]);
            lemma_stop_replan(base, fin, p1, setup_plan(a, byte_at(fin, b), byte_at(fin, b + 3)));
        }
        return None;
    }
    let ghost m3 = rtc.events();
    let sel_ctl = [CONTROL];
    assert(sel_ctl@ =~= seq![CONTROL]);
    let mut w = [0u8];
    if rtc.write_read_step(&sel_ctl, &mut w, Ghost(base), Ghost(p1)).is_err() {
        proof {
            let fin = rtc.events();
            assert(fin[b] == m3[b] && m3[b] == m2[b] && m2[b] == m1[b]);
            lemma_stop_replan(base, fin, p1, setup_plan(a, byte_at(fin, b), byte_at(fin, b + 3)));
        }
        return None;
    }
    let c = w[0];
    let ghost m4 = rtc.events();
    let ghost p2 = setup_plan(a, e, c);
    proof {
        lemma_replan(base, m4, p1, p2);
    }
    let w3 = [CONTROL, c | TIMER_EN];
    assert(w3@ =~= seq![CONTROL] + seq![c | TIMER_EN]);
    let r = rtc.write_step(&w3, Ghost(base), Ghost(p2));
    proof {
        let fin = rtc.events();
        assert(fin[b] == m4[b] && m4[b] == m3[b] && m3[b] == m2[b] && m2[b] == m1[b]);
        assert(fin[b + 3] == m4[b + 3]);
        assert(p2 =~= setup_plan(a, byte_at(fin, b), byte_at(fin, b + 3)));
    }
    match r {
        Ok(()) => Some(ext),
        Err(_) => None,
    }
}

/// Loading the timer counter with `TIMER_10S_COUNTS`, low byte first.
pub open spec fn counter_write(a: u8) -> I2cRequest {
    write_req(a, TIMER_COUNTER_L, seq![(TIMER_10S_COUNTS % 256) as u8, (TIMER_10S_COUNTS / 256) as u8])
}

/// Reading the timer counter back (two bytes, repeated start).
pub open spec fn counter_read(a: u8) -> I2cRequest {
    I2cRequest::WriteRead(a, seq![TIMER_COUNTER_L], 2)
}

/// The read-back went through and holds `TIMER_10S_COUNTS`.
pub open spec fn read_back(e: Event<I2cRequest>) -> bool {
    e.ok && e.data.len() == 2 && e.data[0] + 256 * e.data[1] == TIMER_10S_COUNTS
}

/// The counter loads from event `i` on, at most `left` attempts: each
/// writes the count and, if that went through, reads it back; the attempts
/// end at the first read-back of the count. Whether one did, and where the
/// attempts end.
pub open spec fn loads(log: I2cLog, i: int, left: nat) -> (bool, int)
    decreases left,
{
    if left == 0 {
        (false, i)
    } else if !log[i].ok {
        loads(log, i + 1, (left - 1) as nat)
    } else if read_back(log[i + 1]) {
        (true, i + 2)
    } else {
        loads(log, i + 2, (left - 1) as nat)
    }
}

/// The attempts of [`loads`] issue the counter write and, after a write
/// that went through, the read-back.
pub open spec fn loads_shaped(a: u8, log: I2cLog, i: int, left: nat) -> bool
    decreases left,
{
    left == 0 || {
        &&& 0 <= i < log.len()
        &&& log[i].request == counter_write(a)
        &&& if !log[i].ok {
            loads_shaped(a, log, i + 1, (left - 1) as nat)
        } else {
            &&& i + 1 < log.len()
            &&& log[i + 1].request == counter_read(a)
            &&& (read_back(log[i + 1]) || loads_shaped(a, log, i + 2, (left - 1) as nat))
        }
    }
}

/// Counter loads that took place in a log stay the same in a longer log.
proof fn lemma_loads_stable(a: u8, l1: I2cLog, l2: I2cLog, i: int, left: nat)
    requires
        l1.is_prefix_of(l2),
        loads_shaped(a, l1, i, left),
        0 <= i,
        loads(l1, i, left).1 <= l1.len(),
    ensures
        loads_shaped(a, l2, i, left),
        loads(l2, i, left) == loads(l1, i, left),
    decreases left,
{
    if left > 0 {
        assert(l2.subrange(0, l1.len() as int)[i] == l2[i]);
        if l1[i].ok {
            assert(l2.subrange(0, l1.len() as int)[i + 1] == l2[i + 1]);
            if !read_back(l1[i + 1]) {
                lemma_loads_stable(a, l1, l2, i + 2, (left - 1) as nat);
            }
        } else {
            lemma_loads_stable(a, l1, l2, i + 1, (left - 1) as nat);
        }
    }
}

/// Loads the timer counter, trying `left` more times until it reads back.
fn load_counter<B: I2cBus>(rtc: &mut I2cDevice<B>, left: u8) -> (hit: bool)
    ensures
        final(rtc).spec_address() == old(rtc).spec_address(),
        old(rtc).events().is_prefix_of(final(rtc).events()),
        loads_shaped(old(rtc).spec_address(), final(rtc).events(), old(rtc).events().len() as int, left as nat),
        loads(final(rtc).events(), old(rtc).events().len() as int, left as nat) == (
            hit,
            final(rtc).events().len() as int,
        ),
    decreases left,
{
    let ghost base = rtc.events();
    let ghost a = rtc.spec_address();
    let ghost b = base.len() as int;
    if left == 0 {
        proof {
            assert(base =~= base.subrange(0, b));
        }
        return false;
    }
    let lo: u8 = (TIMER_10S_COUNTS % 256) as u8;
    let hi: u8 = (TIMER_10S_COUNTS / 256) as u8;
    let w = [TIMER_COUNTER_L, lo, hi];
    assert(w@ =~= seq![TIMER_COUNTER_L] + seq![lo, hi]);
    let wr = rtc.write(&w);
    let ghost m1 = rtc.events();
    if wr.is_err() {
        let hit = load_counter(rtc, left - 1);
        proof {
            let fin = rtc.events();
            lemma_prefix_trans(base, m1, fin);
            assert(base.is_prefix_of(m1)) by {
                assert(base =~= m1.subrange(0, b));
            }
            lemma_prefix_trans(base, m1, fin);
            assert(fin.subrange(0, m1.len() as int)[b] == fin[b]);
        }
        return hit;
    }
    let sel = [TIMER_COUNTER_L];
    assert(sel@ =~= seq![TIMER_COUNTER_L]);
    let mut buf = [0u8; 2];
    let rd = rtc.write_read(&sel, &mut buf);
    let ghost m2 = rtc.events();
    proof {
        assert(base.is_prefix_of(m1)) by {
            assert(base =~= m1.subrange(0, b));
        }
        assert(m1.is_prefix_of(m2)) by {
            assert(m1 =~= m2.subrange(0, m1.len() as int));
        }
        lemma_prefix_trans(base, m1, m2);
    }
    if rd.is_ok() && (buf[0] as u16) + (buf[1] as u16) * 256 == TIMER_10S_COUNTS {
        proof {
            assert(m2[b + 1].data =~= buf@);
        }
        return true;
    }
    let hit = load_counter(rtc, left - 1);
    proof {
        let fin = rtc.events();
        lemma_prefix_trans(base, m2, fin);
        assert(fin.subrange(0, m2.len() as int)[b] == fin[b]);
        assert(fin.subrange(0, m2.len() as int)[b + 1] == fin[b + 1]);
        assert(m2[b + 1].data =~= buf@);
    }
    hit
}

/// `log` cut to its first `n` events (all of it when shorter).
pub open spec fn cut(log: I2cLog, n: int) -> I2cLog {
    if log.len() <= n { log } else { log.subrange(0, n) }
}

/// A run that did not complete issued at most as many transfers as its plan.
proof fn lemma_short_run(base: I2cLog, log: I2cLog, plan: Seq<Step<I2cRequest>>)
    requires
        ran(base, log, plan),
        !completed(base, log, plan),
    ensures
        log.len() <= base.len() + plan.len(),
{
}

/// Arms the RX8130 for a 10 s countdown: stops the timer, sets it up
/// (64 Hz, flag cleared, `CONTROL` enabled), loads the count with up to
/// three tries until it reads back, then enables the timer in `EXTENSION`.
/// Stops at the first failure; returns whether the timer was armed.
pub fn arm_timer_10s<B: I2cBus>(rtc: &mut I2cDevice<B>) -> (ok: bool)
    ensures
        final(rtc).spec_address() == old(rtc).spec_address(),
        ({
            let a = old(rtc).spec_address();
            let base = old(rtc).events();
            let fin = final(rtc).events();
            let b = base.len() as int;
            let s = b + 5;
            let p = s + 5;
            let stop = stop_plan(a, byte_at(fin, b), byte_at(fin, b + 1));
            let setup = setup_plan(a, byte_at(fin, s), byte_at(fin, s + 3));
            let l = loads(fin, p, 3);
            &&& ran(base, cut(fin, s), stop)
            &&& (!completed(base, cut(fin, s), stop) ==> fin.len() <= s && !ok)
            &&& (completed(base, cut(fin, s), stop) ==> ran(cut(fin, s), cut(fin, p), setup))
            &&& (completed(base, cut(fin, s), stop) && !completed(cut(fin, s), cut(fin, p), setup) ==> fin.len()
                <= p && !ok)
            &&& (completed(base, cut(fin, s), stop) && completed(cut(fin, s), cut(fin, p), setup) ==> {
                &&& loads_shaped(a, fin, p, 3)
                &&& !l.0 ==> fin.len() == l.1 && !ok
                &&& l.0 ==> fin.len() == l.1 + 1 && fin[l.1].request == write_req(
                    a,
                    EXTENSION,
                    seq![((byte_at(fin, s) & !0x17u8) | TSEL_64HZ) | TIMER_EN],
                ) && ok == fin[l.1].ok
            })
        }),
{
    let ghost base = rtc.events();
    let ghost a = rtc.spec_address();
    let ghost b = base.len() as int;
    let stopped_ok = stop_timer(rtc);
    let ghost sl = rtc.events();
    proof {
        lemma_ran_prefix(base, sl, stop_plan(a, byte_at(sl, b), byte_at(sl, b + 1)));
        if !stopped_ok {
            lemma_short_run(base, sl, stop_plan(a, byte_at(sl, b), byte_at(sl, b + 1)));
        }
    }
    if !stopped_ok {
        return false;
    }
    let setup = arm_setup(rtc);
    let ghost pl = rtc.events();
    proof {
        let u = setup_plan(a, byte_at(pl, b + 5), byte_at(pl, b + 8));
        lemma_ran_prefix(sl, pl, u);
        assert(sl =~= cut(pl, b + 5));
        assert(pl[b] == sl[b] && pl[b + 1] == sl[b + 1]);
        if setup is None {
            lemma_short_run(sl, pl, u);
        }
    }
    let ext = match setup {
        None => {
            return false;
        },
        Some(x) => x,
    };
    let hit = load_counter(rtc, 3);
    let ghost ll = rtc.events();
    proof {
        assert(pl =~= cut(ll, b + 10));
        assert(ll.subrange(0, pl.len() as int)[b] == ll[b]);
        assert(ll.subrange(0, pl.len() as int)[b + 1] == ll[b + 1]);
        assert(ll.subrange(0, pl.len() as int)[b + 5] == ll[b + 5]);
        assert(ll.subrange(0, pl.len() as int)[b + 8] == ll[b + 8]);
        assert(sl =~= cut(ll, b + 5)) by {
            lemma_prefix_trans(sl, pl, ll);
        }
    }
    if !hit {
        return false;
    }
    let w = [EXTENSION, ext | TIMER_EN];
    assert(w@ =~= seq![EXTENSION] + seq![ext | TIMER_EN]);
    let r = rtc.write(&w);
    proof {
        let fin = rtc.events();
        assert(ll =~= fin.subrange(0, ll.len() as int));
        assert(pl =~= cut(fin, b + 10));
        assert(sl =~= cut(fin, b + 5));
        assert(fin[b] == ll[b] && fin[b + 1] == ll[b + 1] && fin[b + 5] == ll[b + 5] && fin[b + 8] == ll[b + 8]);
        lemma_loads_stable(a, ll, fin, b + 10, 3);
    }
    r.is_ok()
}

} // verus!
