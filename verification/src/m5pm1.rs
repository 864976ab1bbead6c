//! M5PM1 PMIC registers and the arithmetic the driver sends over I2C.
//!
//! Catalog id `m5pm1`, UM V 1.9 Table 3 Register Map.

use vstd::prelude::*;
use crate::bus::{I2cBus, I2cDevice, I2cLog, I2cRequest, Event, Step, read_pair, write_req, read_byte, on_track, ran, completed, stopped, lemma_start, lemma_concat, lemma_ran_prefix, lemma_stop_extend, lemma_prefix_trans};

verus! {

/// Catalog default 7-bit address.
pub const DEFAULT_ADDRESS: u8 = 0x6E;
/// `Device_ID` (read-only).
pub const DEVICE_ID: u8 = 0x00;
/// `PWR_SRC` (read-only).
pub const PWR_SRC: u8 = 0x04;
/// [`PWR_SRC`] bit 0: `5VIN` valid.
pub const PWR_SRC_VIN: u8 = 0x01;
/// [`PWR_SRC`] bit 1: `5VINOUT` valid (boost off).
pub const PWR_SRC_VINOUT: u8 = 0x02;
/// [`PWR_SRC`] bit 2: battery valid.
pub const PWR_SRC_BAT: u8 = 0x04;
/// Sheet VIN add/remove threshold (mV).
pub const VIN_PRESENT_MV: u16 = 2400;
/// `WAKE_SRC`.
pub const WAKE_SRC: u8 = 0x05;
/// [`WAKE_SRC`] bit 5: GPIO / `EXT_WAKE`.
pub const WAKE_SRC_EXT: u8 = 0x20;
/// `PWR_CFG`.
pub const PWR_CFG: u8 = 0x06;
/// [`PWR_CFG`] bit 0: `CHG_EN`.
pub const CHG_EN: u8 = 0x01;
/// [`PWR_CFG`] bit 4: `LED_EN` (red LED).
pub const LED_EN: u8 = 0x10;
/// `HOLD_CFG`.
pub const HOLD_CFG: u8 = 0x07;
/// [`HOLD_CFG`] bit 5: LDO 3.3 V hold.
pub const HOLD_LDO: u8 = 0x20;
/// [`HOLD_CFG`] bit 6: 5VIN/OUT retain after off.
pub const HOLD_VIN: u8 = 0x40;
/// `SYS_CMD`.
pub const SYS_CMD: u8 = 0x0C;
/// [`SYS_CMD`] key nibble.
pub const SYS_CMD_KEY: u8 = 0xA0;
/// [`SYS_CMD`] shutdown.
pub const SYS_CMD_SHUTDOWN: u8 = 0xA1;
/// `GPIO_MODE`.
pub const GPIO_MODE: u8 = 0x10;
/// `GPIO_IN`.
pub const GPIO_IN: u8 = 0x12;
/// `GPIO_DRV`.
pub const GPIO_DRV: u8 = 0x13;
/// `GPIO_PUPD0`.
pub const GPIO_PUPD0: u8 = 0x14;
/// Pull-up in a 2-bit `PUPD` field.
pub const GPIO_PULL_UP: u8 = 0x01;
/// `GPIO_FUNC0`. Bits [7:6] are GPIO3; `11` = multiplexed PWM.
pub const GPIO_FUNC0: u8 = 0x16;
/// GPIO3 multiplex bits in [`GPIO_FUNC0`].
pub const GPIO3_FUNC_MASK: u8 = 0xC0;
/// Multiplexed function: PWM0 on G3.
pub const GPIO3_FUNC_PWM: u8 = 0xC0;
/// `GPIO_WAKE_EN`.
pub const GPIO_WAKE_EN: u8 = 0x18;
/// `GPIO_WAKE_CFG`.
pub const GPIO_WAKE_CFG: u8 = 0x19;
/// `VBAT_L`.
pub const VBAT_L: u8 = 0x22;
/// `VIN_L`.
pub const VIN_L: u8 = 0x24;
/// `PWM0_L`.
pub const PWM0_L: u8 = 0x30;
/// `PWM0_HC`.
pub const PWM0_HC: u8 = 0x31;
/// [`PWM0_HC`] bit 4: channel enable.
pub const PWM0_EN: u8 = 0x10;
/// PWM frequency low register.
pub const PWM_FREQ_L: u8 = 0x34;
/// Modest 12-bit duty (~25%).
pub const FRONTLIGHT_DUTY: u16 = 1024;
/// 12-bit PWM0 full scale.
pub const PWM0_DUTY_MAX: u16 = 4095;
/// Frontlight PWM frequency (Hz).
pub const FRONTLIGHT_PWM_HZ: u16 = 5000;
/// `IRQ_STATUS1`.
pub const IRQ_STATUS1: u8 = 0x40;
/// `IRQ_STATUS2`.
pub const IRQ_STATUS2: u8 = 0x41;
/// `IRQ_STATUS3`.
pub const IRQ_STATUS3: u8 = 0x42;
/// `IRQ_MASK1`.
pub const IRQ_MASK1: u8 = 0x43;
/// Battery voltage (mV) read as 0% (cutoff).
pub const BATTERY_EMPTY_MV: u16 = 3300;
/// Battery voltage (mV) read as 100% (1S LiPo full).
pub const BATTERY_FULL_MV: u16 = 4150;

/// Combine an ADC L/H pair (sheet unit: mV): little-endian 16-bit.
pub fn adc_mv(lo: u8, hi: u8) -> (mv: u16)
    ensures
        mv == lo + 256 * hi,
{
    (hi as u16) * 256 + (lo as u16)
}

/// Linear state of charge from terminal voltage, as the spec states it.
pub open spec fn spec_battery_percent(vbat_mv: int) -> int {
    if vbat_mv <= BATTERY_EMPTY_MV {
        0
    } else if vbat_mv >= BATTERY_FULL_MV {
        100
    } else {
        (vbat_mv - BATTERY_EMPTY_MV) * 100 / (BATTERY_FULL_MV - BATTERY_EMPTY_MV)
    }
}

/// Estimated battery state of charge (0..=100) from terminal voltage in mV:
/// 3300 mV -> 0%, 4150 mV -> 100%, linear in between (rounded down).
pub fn battery_percent(vbat_mv: u16) -> (pct: u8)
    ensures
        pct == spec_battery_percent(vbat_mv as int),
        pct <= 100,
{
    if vbat_mv <= BATTERY_EMPTY_MV {
        0
    } else if vbat_mv >= BATTERY_FULL_MV {
        100
    } else {
        let span = (BATTERY_FULL_MV - BATTERY_EMPTY_MV) as u32;
        let delta = (vbat_mv - BATTERY_EMPTY_MV) as u32;
        assert((delta * 100) as int / 850 <= 100) by (nonlinear_arith)
            requires delta < 850;
        ((delta * 100) / span) as u8
    }
}


/// The gauge stays within 0..=100 and never falls as the voltage rises.
pub proof fn law_battery_percent_monotonic(a: int, b: int)
    requires
        a <= b,
    ensures
        0 <= spec_battery_percent(a) <= spec_battery_percent(b) <= 100,
{
    if BATTERY_EMPTY_MV < a && b < BATTERY_FULL_MV {
        assert((a - 3300) * 100 / 850 <= (b - 3300) * 100 / 850) by (nonlinear_arith)
            requires
                3300 < a <= b,
        ;
    }
    if BATTERY_EMPTY_MV < a < BATTERY_FULL_MV {
        assert(0 <= (a - 3300) * 100 / 850 <= 100) by (nonlinear_arith)
            requires
                3300 < a < 4150,
        ;
    }
    if BATTERY_EMPTY_MV < b < BATTERY_FULL_MV {
        assert(0 <= (b - 3300) * 100 / 850 <= 100) by (nonlinear_arith)
            requires
                3300 < b < 4150,
        ;
    }
}

/// PWM0 register bytes of a duty: the duty clamped to
/// [`PWM0_DUTY_MAX`]; zero clears both bytes (channel off), otherwise the
/// low byte and, in `PWM0_HC`, the enable bit plus the high nibble.
pub open spec fn spec_pwm0_bytes(duty: u16) -> (u8, u8) {
    let d = if duty > PWM0_DUTY_MAX { PWM0_DUTY_MAX as int } else { duty as int };
    if d == 0 {
        (0, 0)
    } else {
        ((d % 256) as u8, (PWM0_EN + d / 256) as u8)
    }
}

/// Pack PWM0 duty into [`PWM0_L`] / [`PWM0_HC`].
pub fn pwm0_bytes(duty: u16) -> (b: (u8, u8))
    ensures
        b == spec_pwm0_bytes(duty),
{
    let duty = if duty > PWM0_DUTY_MAX { PWM0_DUTY_MAX } else { duty };
    let lo = (duty % 256) as u8;
    let hi = (duty / 256) as u8;
    if duty == 0 {
        (0, 0)
    } else {
        (lo, PWM0_EN + hi)
    }
}

/// Pack a frequency into [`PWM_FREQ_L`] (little-endian 16-bit).
pub fn pwm_freq_bytes(hz: u16) -> (b: (u8, u8))
    ensures
        b == ((hz % 256) as u8, (hz / 256) as u8),
{
    ((hz % 256) as u8, (hz / 256) as u8)
}

/// `GPIO_FUNC0` after muxing G3 to PWM0.
pub open spec fn func0_pwm(func0: u8) -> u8 {
    (func0 & !GPIO3_FUNC_MASK) | GPIO3_FUNC_PWM
}

/// `GPIO_DRV` with bit `g3` cleared (push-pull).
pub open spec fn drv_push_pull(drv: u8, g3: u8) -> u8 {
    drv & !(1u8 << g3)
}

/// The PWM0 enable: read `GPIO_FUNC0` and `GPIO_DRV`, write them back
/// muxed and push-pull, then set the frontlight frequency.
pub open spec fn pwm_plan(a: u8, g3: u8, log: I2cLog, b: nat) -> Seq<Step<I2cRequest>> {
    read_pair(a, GPIO_FUNC0) + read_pair(a, GPIO_DRV) + seq![
        (write_req(a, GPIO_FUNC0, seq![func0_pwm(read_byte(log, b))]), true),
        (write_req(a, GPIO_DRV, seq![drv_push_pull(read_byte(log, b + 2), g3)]), true),
        (write_req(a, PWM_FREQ_L, seq![0x88u8, 0x13u8]), true),
    ]
}

/// `PWR_CFG` with the red LED bit set or cleared.
pub open spec fn led_cfg(cfg: u8, on: bool) -> u8 {
    if on { cfg | LED_EN } else { cfg & !LED_EN }
}

/// M5PM1 I2C driver. Owns the bus.
pub struct M5pm1<B> {
    dev: I2cDevice<B>,
}

impl<B: I2cBus> M5pm1<B> {
    /// The bus the driver holds.
    pub closed spec fn spec_bus(&self) -> B {
        self.dev.spec_bus()
    }

    /// I2C traffic issued so far, oldest first.
    pub closed spec fn events(&self) -> I2cLog {
        self.dev.events()
    }

    /// The 7-bit address the driver talks to.
    pub closed spec fn spec_address(&self) -> u8 {
        self.dev.spec_address()
    }

    /// Takes the bus; `addr` is the 7-bit slave address. Nothing is sent.
    pub fn new(i2c: B, addr: u8) -> (d: Self)
        ensures
            d.events() == Seq::<Event<I2cRequest>>::empty(),
            d.spec_address() == addr,
            d.spec_bus() == i2c,
    {
        M5pm1 { dev: I2cDevice::new(i2c, addr) }
    }

    /// Returns the bus the driver holds.
    pub fn release(self) -> (b: B)
        ensures
            b == self.spec_bus(),
    {
        self.dev.release()
    }

    /// Named-register read: select the register, read one byte.
    pub fn read_at(&mut self, reg: u8) -> (r: Result<u8, B::Error>)
        ensures
            final(self).spec_address() == old(self).spec_address(),
            ran(old(self).events(), final(self).events(), read_pair(old(self).spec_address(), reg)),
            r is Ok <==> completed(old(self).events(), final(self).events(), read_pair(old(self).spec_address(), reg)),
            r matches Ok(v) ==> v == read_byte(final(self).events(), old(self).events().len()),
    {
        let ghost base = self.events();
        let ghost plan = read_pair(self.spec_address(), reg);
        proof { lemma_start(base, plan); }
        let sel = [reg];
        assert(sel@ =~= seq![reg]);
        self.dev.write_step(&sel, Ghost(base), Ghost(plan))?;
        let mut val = [0u8];
        self.dev.read_step(&mut val, Ghost(base), Ghost(plan))?;
        Ok(val[0])
    }

    /// Two-byte little-endian read (ADC L/H pairs) in one transaction.
    pub fn read_le16(&mut self, reg: u8) -> (r: Result<u16, B::Error>)
        ensures
            final(self).spec_address() == old(self).spec_address(),
            final(self).events().len() == old(self).events().len() + 1,
            final(self).events().drop_last() == old(self).events(),
            final(self).events().last().request == I2cRequest::WriteRead(old(self).spec_address(), seq![reg], 2),
            final(self).events().last().ok == r is Ok,
            r matches Ok(v) ==> v == final(self).events().last().data[0] + 256 * final(self).events().last().data[1],
    {
        let sel = [reg];
        assert(sel@ =~= seq![reg]);
        let mut buf = [0u8; 2];
        let ghost log = self.events();
        let r = self.dev.write_read(&sel, &mut buf);
        proof {
            assert(self.events().drop_last() =~= log);
        }
        match r {
            Ok(()) => Ok(adc_mv(buf[0], buf[1])),
            Err(e) => Err(e),
        }
    }

    /// Named-register write.
    pub fn write_at(&mut self, reg: u8, val: u8) -> (r: Result<(), B::Error>)
        ensures
            final(self).spec_address() == old(self).spec_address(),
            final(self).events().len() == old(self).events().len() + 1,
            final(self).events().drop_last() == old(self).events(),
            final(self).events().last().request == write_req(old(self).spec_address(), reg, seq![val]),
            final(self).events().last().ok == r is Ok,
    {
        let bytes = [reg, val];
        assert(bytes@ =~= seq![reg] + seq![val]);
        let ghost log = self.events();
        let r = self.dev.write(&bytes);
        proof {
            assert(self.events().drop_last() =~= log);
        }
        r
    }

    /// Two data bytes after `reg` (PWM duty / frequency).
    pub fn write_pair(&mut self, reg: u8, lo: u8, hi: u8) -> (r: Result<(), B::Error>)
        ensures
            final(self).spec_address() == old(self).spec_address(),
            final(self).events().drop_last() == old(self).events(),
            final(self).events().last().request == write_req(old(self).spec_address(), reg, seq![lo, hi]),
            final(self).events().last().ok == r is Ok,
    {
        let bytes = [reg, lo, hi];
        assert(bytes@ =~= seq![reg] + seq![lo, hi]);
        let ghost log = self.events();
        let r = self.dev.write(&bytes);
        proof {
            assert(self.events().drop_last() =~= log);
        }
        r
    }

    fn pwm_writes(&mut self, func0: u8, drv: u8) -> (r: Result<(), B::Error>)
        ensures
            final(self).spec_address() == old(self).spec_address(),
            ran(old(self).events(), final(self).events(), seq![
                (write_req(old(self).spec_address(), GPIO_FUNC0, seq![func0]), true),
                (write_req(old(self).spec_address(), GPIO_DRV, seq![drv]), true),
                (write_req(old(self).spec_address(), PWM_FREQ_L, seq![0x88u8, 0x13u8]), true),
            ]),
            r is Ok <==> completed(old(self).events(), final(self).events(), seq![
                (write_req(old(self).spec_address(), GPIO_FUNC0, seq![func0]), true),
                (write_req(old(self).spec_address(), GPIO_DRV, seq![drv]), true),
                (write_req(old(self).spec_address(), PWM_FREQ_L, seq![0x88u8, 0x13u8]), true),
            ]),
    {
        let ghost base = self.events();
        let ghost a = self.spec_address();
        let ghost plan = seq![
            (write_req(a, GPIO_FUNC0, seq![func0]), true),
            (write_req(a, GPIO_DRV, seq![drv]), true),
            (write_req(a, PWM_FREQ_L, seq![0x88u8, 0x13u8]), true),
        ];
        proof { lemma_start(base, plan); }
        let b1 = [GPIO_FUNC0, func0];
        assert(b1@ =~= seq![GPIO_FUNC0] + seq![func0]);
        self.dev.write_step(&b1, Ghost(base), Ghost(plan))?;
        let b2 = [GPIO_DRV, drv];
        assert(b2@ =~= seq![GPIO_DRV] + seq![drv]);
        self.dev.write_step(&b2, Ghost(base), Ghost(plan))?;
        let (lo, hi) = pwm_freq_bytes(FRONTLIGHT_PWM_HZ);
        let b3 = [PWM_FREQ_L, lo, hi];
        assert(b3@ =~= seq![PWM_FREQ_L] + seq![0x88u8, 0x13u8]);
        self.dev.write_step(&b3, Ghost(base), Ghost(plan))
    }

    /// Mux G3 to PWM0, push-pull, set 5 kHz: reads `GPIO_FUNC0` and
    /// `GPIO_DRV`, writes them back changed, then the frequency.
    /// `g3` is the numbered GPIO bit in [`GPIO_DRV`] (PaperMono: 3).
    pub fn enable_pwm0(&mut self, g3: u8) -> (r: Result<(), B::Error>)
        requires
            g3 < 8,
        ensures
            final(self).spec_address() == old(self).spec_address(),
            ran(old(self).events(), final(self).events(), pwm_plan(old(self).spec_address(), g3, final(self).events(), old(self).events().len())),
            r is Ok <==> completed(old(self).events(), final(self).events(), pwm_plan(old(self).spec_address(), g3, final(self).events(), old(self).events().len())),
    {
        let ghost base = self.events();
        let ghost a = self.spec_address();
        let ghost b = base.len();
        let func0 = match self.read_at(GPIO_FUNC0) {
            Err(e) => {
                proof {
                    let fin = self.events();
                    let p = read_pair(a, GPIO_FUNC0);
                    let q = pwm_plan(a, g3, fin, b);
                    assert forall|i: int| 0 <= i < p.len() implies p[i] == q[i] by {}
                    lemma_stop_extend(base, fin, p, q);
                }
                return Err(e);
            },
            Ok(v) => v,
        };
        let ghost m1 = self.events();
        let r2 = self.read_at(GPIO_DRV);
        let ghost m2 = self.events();
        proof {
            lemma_ran_prefix(m1, m2, read_pair(a, GPIO_DRV));
            lemma_concat(base, m1, m2, read_pair(a, GPIO_FUNC0), read_pair(a, GPIO_DRV));
            assert(m2.subrange(0, m1.len() as int)[b + 1int] == m2[b + 1int]);
        }
        let drv = match r2 {
            Err(e) => {
                proof {
                    let p = read_pair(a, GPIO_FUNC0) + read_pair(a, GPIO_DRV);
                    let q = pwm_plan(a, g3, m2, b);
                    assert forall|i: int| 0 <= i < p.len() implies p[i] == q[i] by {}
                    lemma_stop_extend(base, m2, p, q);
                }
                return Err(e);
            },
            Ok(v) => v,
        };
        let new_func0 = (func0 & !GPIO3_FUNC_MASK) | GPIO3_FUNC_PWM;
        let new_drv = drv & !(1u8 << g3);
        let r = self.pwm_writes(new_func0, new_drv);
        proof {
            let fin = self.events();
            let w = seq![
                (write_req(a, GPIO_FUNC0, seq![new_func0]), true),
                (write_req(a, GPIO_DRV, seq![new_drv]), true),
                (write_req(a, PWM_FREQ_L, seq![0x88u8, 0x13u8]), true),
            ];
            lemma_ran_prefix(m2, fin, w);
            lemma_concat(base, m2, fin, read_pair(a, GPIO_FUNC0) + read_pair(a, GPIO_DRV), w);
            assert(fin.subrange(0, m2.len() as int)[b + 1int] == fin[b + 1int]);
            assert(fin.subrange(0, m2.len() as int)[b + 3int] == fin[b + 3int]);
            assert(pwm_plan(a, g3, fin, b) == read_pair(a, GPIO_FUNC0) + read_pair(a, GPIO_DRV) + w);
        }
        r
    }

    /// Write PWM0 duty ([`pwm0_bytes`]); `0` clears enable (lamp off).
    pub fn set_pwm0_duty(&mut self, duty: u16) -> (r: Result<(), B::Error>)
        ensures
            final(self).spec_address() == old(self).spec_address(),
            final(self).events().drop_last() == old(self).events(),
            final(self).events().last().request == write_req(old(self).spec_address(), PWM0_L, seq![spec_pwm0_bytes(duty).0, spec_pwm0_bytes(duty).1]),
            final(self).events().last().ok == r is Ok,
    {
        let (lo, hc) = pwm0_bytes(duty);
        self.write_pair(PWM0_L, lo, hc)
    }

    /// [`SYS_CMD`] shutdown.
    pub fn shutdown(&mut self) -> (r: Result<(), B::Error>)
        ensures
            final(self).spec_address() == old(self).spec_address(),
            final(self).events().drop_last() == old(self).events(),
            final(self).events().last().request == write_req(old(self).spec_address(), SYS_CMD, seq![SYS_CMD_SHUTDOWN]),
            final(self).events().last().ok == r is Ok,
    {
        self.write_at(SYS_CMD, SYS_CMD_SHUTDOWN)
    }

    /// Sets the red status LED: reads [`PWR_CFG`] and writes it back with
    /// [`LED_EN`] set or cleared; a failed read writes nothing.
    pub fn set_led(&mut self, on: bool) -> (r: Result<(), B::Error>)
        ensures
            final(self).spec_address() == old(self).spec_address(),
            ran(old(self).events(), final(self).events(), read_pair(old(self).spec_address(), PWR_CFG) + seq![
                (write_req(old(self).spec_address(), PWR_CFG, seq![led_cfg(read_byte(final(self).events(), old(self).events().len()), on)]), true),
            ]),
            r is Ok <==> completed(old(self).events(), final(self).events(), read_pair(old(self).spec_address(), PWR_CFG) + seq![
                (write_req(old(self).spec_address(), PWR_CFG, seq![led_cfg(read_byte(final(self).events(), old(self).events().len()), on)]), true),
            ]),
    {
        let ghost base = self.events();
        let ghost a = self.spec_address();
        let ghost b = base.len();
        let cfg = match self.read_at(PWR_CFG) {
            Err(e) => {
                proof {
                    let fin = self.events();
                    let p = read_pair(a, PWR_CFG);
                    let q = p + seq![(write_req(a, PWR_CFG, seq![led_cfg(read_byte(fin, b), on)]), true)];
                    assert forall|i: int| 0 <= i < p.len() implies p[i] == q[i] by {}
                    lemma_stop_extend(base, fin, p, q);
                }
                return Err(e);
            },
            Ok(v) => v,
        };
        let new_cfg = if on { cfg | LED_EN } else { cfg & !LED_EN };
        let ghost m1 = self.events();
        let ghost w = seq![(write_req(a, PWR_CFG, seq![new_cfg]), true)];
        proof { lemma_start(m1, w); }
        let bytes = [PWR_CFG, new_cfg];
        assert(bytes@ =~= seq![PWR_CFG] + seq![new_cfg]);
        let r = self.dev.write_step(&bytes, Ghost(m1), Ghost(w));
        proof {
            let fin = self.events();
            assert(ran(m1, fin, w));
            lemma_ran_prefix(m1, fin, w);
            lemma_concat(base, m1, fin, read_pair(a, PWR_CFG), w);
            assert(fin.subrange(0, m1.len() as int)[b + 1int] == fin[b + 1int]);
        }
        r
    }
}

} // verus!
