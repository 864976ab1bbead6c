//! M5IOE1 expander registers, GPIO banks, and the IP2315 gate typestate.
//!
//! Catalog id `m5ioe1`, UM V 1.4 Table 3 Register Map. Outputs default
//! open-drain. `PYG11` is the IP2315 I2C gate on PaperMono;
//! [`M5ioe1::new`] parks it.

use vstd::prelude::*;
use core::marker::PhantomData;
use crate::bus::{
    I2cBus, I2cDevice, I2cLog, I2cRequest, Event, Step, on_track, ran, completed, stopped,
    lemma_start, lemma_concat, lemma_ran_prefix, lemma_stop_extend, read_pair, write_req, read_byte,
};

mod sealed;

verus! {

/// Catalog UM 7-bit base. The PaperMono board uses `0x4F`.
pub const UM_ADDRESS: u8 = 0x6F;
/// PaperMono / Lite board address.
pub const BOARD_ADDRESS: u8 = 0x4F;
/// `PYG11`: IP2315 I2C gate.
pub const IP2315_I2C_GATE: u8 = 11;
/// `UID_L` (read-only).
pub const UID_L: u8 = 0x00;
/// `REV` (read-only).
pub const REV: u8 = 0x02;
/// `GPIO_M_L`. M=1 output, M=0 input.
pub const GPIO_M_L: u8 = 0x03;
/// `GPIO_M_H`.
pub const GPIO_M_H: u8 = 0x04;
/// `GPIO_O_L`.
pub const GPIO_O_L: u8 = 0x05;
/// `GPIO_O_H`.
pub const GPIO_O_H: u8 = 0x06;
/// `GPIO_I_L` (read-only).
pub const GPIO_I_L: u8 = 0x07;
/// `GPIO_I_H` (read-only).
pub const GPIO_I_H: u8 = 0x08;
/// `GPIO_DRV_L`. DRV=0 push-pull.
pub const GPIO_DRV_L: u8 = 0x13;
/// `GPIO_DRV_H`.
pub const GPIO_DRV_H: u8 = 0x14;

/// Which byte of a 16-bit GPIO register pair a `PYGn` lives in.
#[derive(Debug, Clone, Copy, PartialEq, Eq, Structural)]
pub enum Bank {
    /// `GPIO_*_L`: IO1–IO8. Bit 0 is IO1.
    Low,
    /// `GPIO_*_H`: IO9–IO14. Bit 0 is IO9.
    High,
}

/// Bank and bit of official `PYGn`: IO1–IO8 are bits 0–7 of the low
/// byte, IO9–IO14 bits 0–5 of the high byte, anything else is no pin.
pub open spec fn spec_pin_bit(pyg: u8) -> Option<(Bank, u8)> {
    if 1 <= pyg <= 8 {
        Some((Bank::Low, (pyg - 1) as u8))
    } else if 9 <= pyg <= 14 {
        Some((Bank::High, (pyg - 9) as u8))
    } else {
        None
    }
}

/// Whether bit `i` of `b` is set.
pub open spec fn bit_of(b: u8, i: u8) -> bool {
    b & (1u8 << i) != 0
}

/// `b` with bit `i` set (`v`) or cleared (`!v`).
pub open spec fn with_bit(b: u8, i: u8, v: bool) -> u8 {
    if v {
        b | (1u8 << i)
    } else {
        b & !(1u8 << i)
    }
}

/// Level of `pyg` in a Low/High input pair, `None` for no pin.
pub open spec fn spec_input_level(low: u8, high: u8, pyg: u8) -> Option<bool> {
    match spec_pin_bit(pyg) {
        Some((Bank::Low, bit)) => Some(bit_of(low, bit)),
        Some((Bank::High, bit)) => Some(bit_of(high, bit)),
        None => None,
    }
}

/// The Low/High pair after setting (`set`) or clearing `pyg`; unchanged
/// when `pyg` is no pin.
pub open spec fn spec_apply_bit(low: u8, high: u8, pyg: u8, set: bool) -> (u8, u8) {
    match spec_pin_bit(pyg) {
        Some((Bank::Low, bit)) => (with_bit(low, bit, set), high),
        Some((Bank::High, bit)) => (low, with_bit(high, bit, set)),
        None => (low, high),
    }
}

/// Bank and bit for official `PYGn`.
pub fn pin_bit(pyg: u8) -> (r: Option<(Bank, u8)>)
    ensures
        r == spec_pin_bit(pyg),
{
    if 1 <= pyg && pyg <= 8 {
        Some((Bank::Low, pyg - 1))
    } else if 9 <= pyg && pyg <= 14 {
        Some((Bank::High, pyg - 9))
    } else {
        None
    }
}

/// Level of `pyg` in a Low/High input pair.
pub fn input_level(low: u8, high: u8, pyg: u8) -> (r: Option<bool>)
    ensures
        r == spec_input_level(low, high, pyg),
{
    match pin_bit(pyg) {
        Some((Bank::Low, bit)) => Some(low & (1u8 << bit) != 0),
        Some((Bank::High, bit)) => Some(high & (1u8 << bit) != 0),
        None => None,
    }
}

/// Set or clear `pyg` in a Low/High register pair; no pin leaves both.
pub fn apply_bit(low: &mut u8, high: &mut u8, pyg: u8, set: bool)
    ensures
        (*final(low), *final(high)) == spec_apply_bit(*old(low), *old(high), pyg, set),
{
    match pin_bit(pyg) {
        Some((Bank::Low, bit)) => {
            if set {
                *low = *low | (1u8 << bit);
            } else {
                *low = *low & !(1u8 << bit);
            }
        },
        Some((Bank::High, bit)) => {
            if set {
                *high = *high | (1u8 << bit);
            } else {
                *high = *high & !(1u8 << bit);
            }
        },
        None => {},
    }
}

/// Bit `j` of `b` after bit `i` was set or cleared.
pub proof fn lemma_with_bit(b: u8, i: u8, v: bool, j: u8)
    requires
        i < 8,
        j < 8,
    ensures
        bit_of(with_bit(b, i, v), j) == if i == j { v } else { bit_of(b, j) },
{
    if v {
        assert((b | (1u8 << i)) & (1u8 << j) != 0 <==> (i == j || b & (1u8 << j) != 0))
            by (bit_vector)
            requires i < 8, j < 8;
    } else {
        assert((b & !(1u8 << i)) & (1u8 << j) != 0 <==> (i != j && b & (1u8 << j) != 0))
            by (bit_vector)
            requires i < 8, j < 8;
    }
}

/// Reading a pin back after [`apply_bit`] gives the level written, and
/// every other pin keeps its level.
pub proof fn law_apply_then_read(low: u8, high: u8, pyg: u8, set: bool, other: u8)
    requires
        spec_pin_bit(pyg) is Some,
    ensures
        ({
            let (l, h) = spec_apply_bit(low, high, pyg, set);
            &&& spec_input_level(l, h, pyg) == Some(set)
            &&& other != pyg ==> spec_input_level(l, h, other) == spec_input_level(low, high, other)
        }),
{
    let (bank, bit) = spec_pin_bit(pyg)->0;
    lemma_with_bit(low, bit, set, bit);
    lemma_with_bit(high, bit, set, bit);
    match spec_pin_bit(other) {
        Some((_b2, bit2)) => {
            lemma_with_bit(low, bit, set, bit2);
            lemma_with_bit(high, bit, set, bit2);
        },
        None => {},
    }
}

/// IP2315 I2C-gate states.
pub trait GateState: sealed::Sealed {}

/// Gate low: charger parked off the system bus ([`M5ioe1::new`]).
#[derive(Debug)]
pub struct Parked;

/// Gate high: charger mounted for a charge transaction.
#[derive(Debug)]
pub struct Mounted;

impl sealed::Sealed for Parked {}

impl sealed::Sealed for Mounted {}

impl GateState for Parked {}

impl GateState for Mounted {}

/// Reads of the six direction / output / drive registers, low then high.
pub open spec fn read6_plan(a: u8) -> Seq<Step<I2cRequest>> {
    read_pair(a, GPIO_M_L) + read_pair(a, GPIO_M_H) + read_pair(a, GPIO_O_L) + read_pair(a, GPIO_O_H)
        + read_pair(a, GPIO_DRV_L) + read_pair(a, GPIO_DRV_H)
}

/// Writes that make `pyg` a push-pull output at level `high`, given the
/// six registers as read: drive (DRV=0), output level, then direction
/// (M=1); every other pin keeps its bits.
pub open spec fn write6_plan(a: u8, pyg: u8, high: bool, m_l: u8, m_h: u8, o_l: u8, o_h: u8, d_l: u8, d_h: u8) -> Seq<Step<I2cRequest>> {
    let (dl, dh) = spec_apply_bit(d_l, d_h, pyg, false);
    let (ol, oh) = spec_apply_bit(o_l, o_h, pyg, high);
    let (ml, mh) = spec_apply_bit(m_l, m_h, pyg, true);
    seq![
        (write_req(a, GPIO_DRV_L, seq![dl]), true),
        (write_req(a, GPIO_DRV_H, seq![dh]), true),
        (write_req(a, GPIO_O_L, seq![ol]), true),
        (write_req(a, GPIO_O_H, seq![oh]), true),
        (write_req(a, GPIO_M_L, seq![ml]), true),
        (write_req(a, GPIO_M_H, seq![mh]), true),
    ]
}

/// The whole push-pull configuration from `b`: the six reads, then the
/// writes computed from the bytes they returned.
pub open spec fn push_pull_plan(a: u8, pyg: u8, high: bool, log: I2cLog, b: nat) -> Seq<Step<I2cRequest>> {
    read6_plan(a) + write6_plan(
        a,
        pyg,
        high,
        read_byte(log, b),
        read_byte(log, b + 2),
        read_byte(log, b + 4),
        read_byte(log, b + 6),
        read_byte(log, b + 8),
        read_byte(log, b + 10),
    )
}

/// Input configuration from `b`: read both direction registers, write
/// them back with `pyg` cleared (M=0).
pub open spec fn input_plan(a: u8, pyg: u8, log: I2cLog, b: nat) -> Seq<Step<I2cRequest>> {
    let (ml, mh) = spec_apply_bit(read_byte(log, b), read_byte(log, b + 2), pyg, false);
    read_pair(a, GPIO_M_L) + read_pair(a, GPIO_M_H) + seq![
        (write_req(a, GPIO_M_L, seq![ml]), true),
        (write_req(a, GPIO_M_H, seq![mh]), true),
    ]
}

/// Reads of both input registers.
pub open spec fn level_plan(a: u8) -> Seq<Step<I2cRequest>> {
    read_pair(a, GPIO_I_L) + read_pair(a, GPIO_I_H)
}

/// M5IOE1 I2C driver in gate state `S`. Owns the bus.
pub struct M5ioe1<B, S: GateState> {
    dev: I2cDevice<B>,
    _state: PhantomData<S>,
}

impl<B, S: GateState> M5ioe1<B, S> {
    /// The bus the driver holds.
    pub closed spec fn spec_bus(&self) -> B {
        self.dev.spec_bus()
    }

    /// The bus the driver was made with: the traffic on it since is
    /// [`M5ioe1::events`].
    pub closed spec fn spec_origin(&self) -> B {
        self.dev.spec_origin()
    }

    /// Returns the bus the driver holds.
    pub fn release(self) -> (b: B)
        ensures
            b == self.spec_bus(),
    {
        self.dev.release()
    }
}

impl<B: I2cBus, S: GateState> M5ioe1<B, S> {
    /// Whether the bus answers every transfer.
    pub closed spec fn answers_all(&self) -> bool {
        self.dev.answers_all()
    }

    /// I2C traffic issued so far, oldest first.
    pub closed spec fn events(&self) -> I2cLog {
        self.dev.events()
    }

    /// The 7-bit address the driver talks to.
    pub closed spec fn spec_address(&self) -> u8 {
        self.dev.spec_address()
    }

    fn read6(&mut self) -> (r: Result<[u8; 6], B::Error>)
        ensures
            final(self).spec_address() == old(self).spec_address(),
            final(self).spec_origin() == old(self).spec_origin(),
            old(self).answers_all() ==> r is Ok && final(self).answers_all(),
            ran(old(self).events(), final(self).events(), read6_plan(old(self).spec_address())),
            r is Ok <==> completed(old(self).events(), final(self).events(), read6_plan(old(self).spec_address())),
            r matches Ok(v) ==> forall|i: int| 0 <= i < 6 ==> v@[i] == #[trigger] read_byte(final(self).events(), (old(self).events().len() + 2 * i) as nat),
    {
        let ghost base = self.events();
        let ghost b = base.len();
        let ghost plan = read6_plan(self.spec_address());
        proof { lemma_start(base, plan); }
        let m_l = self.dev.read_pair_step(GPIO_M_L, Ghost(base), Ghost(plan))?;
        let ghost l1 = self.events();
        let m_h = self.dev.read_pair_step(GPIO_M_H, Ghost(base), Ghost(plan))?;
        let ghost l2 = self.events();
        let o_l = self.dev.read_pair_step(GPIO_O_L, Ghost(base), Ghost(plan))?;
        let ghost l3 = self.events();
        let o_h = self.dev.read_pair_step(GPIO_O_H, Ghost(base), Ghost(plan))?;
        let ghost l4 = self.events();
        let d_l = self.dev.read_pair_step(GPIO_DRV_L, Ghost(base), Ghost(plan))?;
        let ghost l5 = self.events();
        let d_h = self.dev.read_pair_step(GPIO_DRV_H, Ghost(base), Ghost(plan))?;
        let v = [m_l, m_h, o_l, o_h, d_l, d_h];
        proof {
            let fin = self.events();
            assert(fin.subrange(0, l5.len() as int)[b + 9int] == fin[b + 9int]);
            assert(l5.subrange(0, l4.len() as int)[b + 7int] == l5[b + 7int]);
            assert(fin.subrange(0, l5.len() as int)[b + 7int] == fin[b + 7int]);
            assert(l4.subrange(0, l3.len() as int)[b + 5int] == l4[b + 5int]);
            assert(l5.subrange(0, l4.len() as int)[b + 5int] == l5[b + 5int]);
            assert(fin.subrange(0, l5.len() as int)[b + 5int] == fin[b + 5int]);
            assert(l3.subrange(0, l2.len() as int)[b + 3int] == l3[b + 3int]);
            assert(l4.subrange(0, l3.len() as int)[b + 3int] == l4[b + 3int]);
            assert(l5.subrange(0, l4.len() as int)[b + 3int] == l5[b + 3int]);
            assert(fin.subrange(0, l5.len() as int)[b + 3int] == fin[b + 3int]);
            assert(l2.subrange(0, l1.len() as int)[b + 1int] == l2[b + 1int]);
            assert(l3.subrange(0, l2.len() as int)[b + 1int] == l3[b + 1int]);
            assert(l4.subrange(0, l3.len() as int)[b + 1int] == l4[b + 1int]);
            assert(l5.subrange(0, l4.len() as int)[b + 1int] == l5[b + 1int]);
            assert(fin.subrange(0, l5.len() as int)[b + 1int] == fin[b + 1int]);
            assert forall|i: int| 0 <= i < 6 implies v@[i] == #[trigger] read_byte(fin, (b + 2 * i) as nat) by {
                if i == 0 {} else if i == 1 {} else if i == 2 {} else if i == 3 {} else if i == 4 {} else {}
            }
        }
        Ok(v)
    }

    fn write6(&mut self, pyg: u8, high: bool, v: [u8; 6]) -> (r: Result<(), B::Error>)
        ensures
            final(self).spec_address() == old(self).spec_address(),
            final(self).spec_origin() == old(self).spec_origin(),
            old(self).answers_all() ==> r is Ok && final(self).answers_all(),
            ran(old(self).events(), final(self).events(), write6_plan(old(self).spec_address(), pyg, high, v[0], v[1], v[2], v[3], v[4], v[5])),
            r is Ok <==> completed(old(self).events(), final(self).events(), write6_plan(old(self).spec_address(), pyg, high, v[0], v[1], v[2], v[3], v[4], v[5])),
    {
        let ghost base = self.events();
        let ghost plan = write6_plan(self.spec_address(), pyg, high, v[0], v[1], v[2], v[3], v[4], v[5]);
        proof { lemma_start(base, plan); }
        let (mut m_l, mut m_h, mut o_l, mut o_h, mut d_l, mut d_h) = (v[0], v[1], v[2], v[3], v[4], v[5]);
        apply_bit(&mut m_l, &mut m_h, pyg, true);
        apply_bit(&mut o_l, &mut o_h, pyg, high);
        apply_bit(&mut d_l, &mut d_h, pyg, false);
        let w1 = [GPIO_DRV_L, d_l];
        assert(w1@ =~= seq![GPIO_DRV_L] + seq![d_l]);
        self.dev.write_step(&w1, Ghost(base), Ghost(plan))?;
        let w2 = [GPIO_DRV_H, d_h];
        assert(w2@ =~= seq![GPIO_DRV_H] + seq![d_h]);
        self.dev.write_step(&w2, Ghost(base), Ghost(plan))?;
        let w3 = [GPIO_O_L, o_l];
        assert(w3@ =~= seq![GPIO_O_L] + seq![o_l]);
        self.dev.write_step(&w3, Ghost(base), Ghost(plan))?;
        let w4 = [GPIO_O_H, o_h];
        assert(w4@ =~= seq![GPIO_O_H] + seq![o_h]);
        self.dev.write_step(&w4, Ghost(base), Ghost(plan))?;
        let w5 = [GPIO_M_L, m_l];
        assert(w5@ =~= seq![GPIO_M_L] + seq![m_l]);
        self.dev.write_step(&w5, Ghost(base), Ghost(plan))?;
        let w6 = [GPIO_M_H, m_h];
        assert(w6@ =~= seq![GPIO_M_H] + seq![m_h]);
        self.dev.write_step(&w6, Ghost(base), Ghost(plan))
    }

    /// Drive `pyg` as push-pull output (DRV=0, M=1) at level `high`:
    /// read the six direction / output / drive registers, then write them
    /// back with only `pyg`'s bits changed. Stops at the first failure.
    pub fn set_push_pull_output(&mut self, pyg: u8, high: bool) -> (r: Result<(), B::Error>)
        ensures
            final(self).spec_address() == old(self).spec_address(),
            final(self).spec_origin() == old(self).spec_origin(),
            old(self).answers_all() ==> r is Ok && final(self).answers_all(),
            ran(old(self).events(), final(self).events(), push_pull_plan(old(self).spec_address(), pyg, high, final(self).events(), old(self).events().len())),
            r is Ok <==> completed(old(self).events(), final(self).events(), push_pull_plan(old(self).spec_address(), pyg, high, final(self).events(), old(self).events().len())),
    {
        let ghost base = self.events();
        let ghost a = self.spec_address();
        let ghost b = base.len();
        let v = match self.read6() {
            Err(e) => {
                proof {
                    let fin = self.events();
                    let p = read6_plan(a);
                    let q = push_pull_plan(a, pyg, high, fin, b);
                    assert forall|i: int| 0 <= i < p.len() implies p[i] == q[i] by {}
                    lemma_stop_extend(base, fin, p, q);
                }
                return Err(e);
            },
            Ok(v) => v,
        };
        let ghost mid = self.events();
        let r = self.write6(pyg, high, v);
        proof {
            let fin = self.events();
            let w = write6_plan(a, pyg, high, v[0], v[1], v[2], v[3], v[4], v[5]);
            lemma_ran_prefix(mid, fin, w);
            lemma_concat(base, mid, fin, read6_plan(a), w);
            assert forall|i: int| 0 <= i < 6 implies #[trigger] read_byte(fin, (b + 2 * i) as nat) == read_byte(mid, (b + 2 * i) as nat) by {
                assert(fin.subrange(0, mid.len() as int)[b + 2 * i + 1] == fin[b + 2 * i + 1]);
            }
            assert(read_byte(fin, b) == v[0]) by { assert(read_byte(mid, (b + 2 * 0) as nat) == v@[0]); }
            assert(read_byte(fin, b + 2) == v[1]) by { assert(read_byte(mid, (b + 2 * 1) as nat) == v@[1]); }
            assert(read_byte(fin, b + 4) == v[2]) by { assert(read_byte(mid, (b + 2 * 2) as nat) == v@[2]); }
            assert(read_byte(fin, b + 6) == v[3]) by { assert(read_byte(mid, (b + 2 * 3) as nat) == v@[3]); }
            assert(read_byte(fin, b + 8) == v[4]) by { assert(read_byte(mid, (b + 2 * 4) as nat) == v@[4]); }
            assert(read_byte(fin, b + 10) == v[5]) by { assert(read_byte(mid, (b + 2 * 5) as nat) == v@[5]); }
        }
        r
    }

    /// `M=0` input: read both direction registers, write them back with
    /// `pyg` cleared. Stops at the first failure.
    pub fn set_input(&mut self, pyg: u8) -> (r: Result<(), B::Error>)
        ensures
            final(self).spec_address() == old(self).spec_address(),
            final(self).spec_origin() == old(self).spec_origin(),
            old(self).answers_all() ==> r is Ok && final(self).answers_all(),
            ran(old(self).events(), final(self).events(), input_plan(old(self).spec_address(), pyg, final(self).events(), old(self).events().len())),
            r is Ok <==> completed(old(self).events(), final(self).events(), input_plan(old(self).spec_address(), pyg, final(self).events(), old(self).events().len())),
    {
        let ghost base = self.events();
        let ghost a = self.spec_address();
        let ghost b = base.len();
        let ghost reads = read_pair(a, GPIO_M_L) + read_pair(a, GPIO_M_H);
        proof { lemma_start(base, reads); }
        let m_l0 = match self.dev.read_pair_step(GPIO_M_L, Ghost(base), Ghost(reads)) {
            Err(e) => {
                proof {
                    let fin = self.events();
                    let q = input_plan(a, pyg, fin, b);
                    assert forall|i: int| 0 <= i < reads.len() implies reads[i] == q[i] by {}
                    lemma_stop_extend(base, fin, reads, q);
                }
                return Err(e);
            },
            Ok(v) => v,
        };
        let ghost l1 = self.events();
        let m_h0 = match self.dev.read_pair_step(GPIO_M_H, Ghost(base), Ghost(reads)) {
            Err(e) => {
                proof {
                    let fin = self.events();
                    let q = input_plan(a, pyg, fin, b);
                    assert forall|i: int| 0 <= i < reads.len() implies reads[i] == q[i] by {}
                    lemma_stop_extend(base, fin, reads, q);
                }
                return Err(e);
            },
            Ok(v) => v,
        };
        let ghost mid = self.events();
        proof {
            assert(mid.subrange(0, l1.len() as int)[b + 1int] == mid[b + 1int]);
        }
        let mut m_l = m_l0;
        let mut m_h = m_h0;
        apply_bit(&mut m_l, &mut m_h, pyg, false);
        let ghost w = seq![(write_req(a, GPIO_M_L, seq![m_l]), true), (write_req(a, GPIO_M_H, seq![m_h]), true)];
        let r = self.write2(m_l, m_h);
        proof {
            let fin = self.events();
            lemma_ran_prefix(mid, fin, w);
            lemma_concat(base, mid, fin, reads, w);
            assert(fin.subrange(0, mid.len() as int)[b + 1int] == fin[b + 1int]);
            assert(fin.subrange(0, mid.len() as int)[b + 3int] == fin[b + 3int]);
            assert(input_plan(a, pyg, fin, b) == reads + w);
        }
        r
    }

    fn write2(&mut self, m_l: u8, m_h: u8) -> (r: Result<(), B::Error>)
        ensures
            final(self).spec_address() == old(self).spec_address(),
            final(self).spec_origin() == old(self).spec_origin(),
            old(self).answers_all() ==> r is Ok && final(self).answers_all(),
            ran(old(self).events(), final(self).events(), seq![(write_req(old(self).spec_address(), GPIO_M_L, seq![m_l]), true), (write_req(old(self).spec_address(), GPIO_M_H, seq![m_h]), true)]),
            r is Ok <==> completed(old(self).events(), final(self).events(), seq![(write_req(old(self).spec_address(), GPIO_M_L, seq![m_l]), true), (write_req(old(self).spec_address(), GPIO_M_H, seq![m_h]), true)]),
    {
        let ghost base = self.events();
        let ghost a = self.spec_address();
        let ghost plan = seq![(write_req(a, GPIO_M_L, seq![m_l]), true), (write_req(a, GPIO_M_H, seq![m_h]), true)];
        proof { lemma_start(base, plan); }
        let w1 = [GPIO_M_L, m_l];
        assert(w1@ =~= seq![GPIO_M_L] + seq![m_l]);
        self.dev.write_step(&w1, Ghost(base), Ghost(plan))?;
        let w2 = [GPIO_M_H, m_h];
        assert(w2@ =~= seq![GPIO_M_H] + seq![m_h]);
        self.dev.write_step(&w2, Ghost(base), Ghost(plan))
    }

    /// Level of `pyg` from the `GPIO_I_*` registers; `true` is high, and a
    /// number that is no pin reads `false`.
    pub fn read_input(&mut self, pyg: u8) -> (r: Result<bool, B::Error>)
        ensures
            final(self).spec_address() == old(self).spec_address(),
            final(self).spec_origin() == old(self).spec_origin(),
            old(self).answers_all() ==> r is Ok && final(self).answers_all(),
            ran(old(self).events(), final(self).events(), level_plan(old(self).spec_address())),
            r is Ok <==> completed(old(self).events(), final(self).events(), level_plan(old(self).spec_address())),
            r matches Ok(level) ==> level == match spec_input_level(read_byte(final(self).events(), old(self).events().len()), read_byte(final(self).events(), old(self).events().len() + 2), pyg) {
                Some(l) => l,
                None => false,
            },
    {
        let ghost base = self.events();
        let ghost b = base.len();
        let ghost plan = level_plan(self.spec_address());
        proof { lemma_start(base, plan); }
        let low = self.dev.read_pair_step(GPIO_I_L, Ghost(base), Ghost(plan))?;
        let ghost l1 = self.events();
        let high = self.dev.read_pair_step(GPIO_I_H, Ghost(base), Ghost(plan))?;
        proof {
            let fin = self.events();
            assert(fin.subrange(0, l1.len() as int)[b + 1int] == fin[b + 1int]);
        }
        match input_level(low, high, pyg) {
            Some(l) => Ok(l),
            None => Ok(false),
        }
    }
}

impl<B: I2cBus> M5ioe1<B, Parked> {
    /// Takes the bus and parks [`IP2315_I2C_GATE`] (push-pull low). On a
    /// bus failure the bus is dropped with the driver.
    pub fn new(i2c: B, addr: u8) -> (r: Result<Self, B::Error>)
        ensures
            r matches Ok(d) ==> d.spec_address() == addr && d.spec_origin() == i2c && completed(
                Seq::<Event<I2cRequest>>::empty(),
                d.events(),
                push_pull_plan(addr, IP2315_I2C_GATE, false, d.events(), 0),
            ),
            i2c.answers_all() ==> (r matches Ok(d) && d.answers_all()),
    {
        let mut this = M5ioe1 { dev: I2cDevice::new(i2c, addr), _state: PhantomData };
        match this.set_push_pull_output(IP2315_I2C_GATE, false) {
            Ok(()) => Ok(this),
            Err(e) => Err(e),
        }
    }

    /// Drives [`IP2315_I2C_GATE`] high for a charge transaction.
    pub fn mount(self) -> (r: Result<M5ioe1<B, Mounted>, B::Error>)
        ensures
            r matches Ok(d) ==> d.spec_address() == self.spec_address() && d.spec_origin() == self.spec_origin() && completed(
                self.events(),
                d.events(),
                push_pull_plan(self.spec_address(), IP2315_I2C_GATE, true, d.events(), self.events().len()),
            ),
            self.answers_all() ==> (r matches Ok(d) && d.answers_all()),
    {
        let mut this = self;
        match this.set_push_pull_output(IP2315_I2C_GATE, true) {
            Ok(()) => Ok(M5ioe1 { dev: this.dev, _state: PhantomData }),
            Err(e) => Err(e),
        }
    }
}

impl<B: I2cBus> M5ioe1<B, Mounted> {
    /// Drives [`IP2315_I2C_GATE`] low again.
    pub fn park(self) -> (r: Result<M5ioe1<B, Parked>, B::Error>)
        ensures
            r matches Ok(d) ==> d.spec_address() == self.spec_address() && d.spec_origin() == self.spec_origin() && completed(
                self.events(),
                d.events(),
                push_pull_plan(self.spec_address(), IP2315_I2C_GATE, false, d.events(), self.events().len()),
            ),
            self.answers_all() ==> (r matches Ok(d) && d.answers_all()),
    {
        let mut this = self;
        match this.set_push_pull_output(IP2315_I2C_GATE, false) {
            Ok(()) => Ok(M5ioe1 { dev: this.dev, _state: PhantomData }),
            Err(e) => Err(e),
        }
    }
}

} // verus!
