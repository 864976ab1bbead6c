//! Touch-gutter slider mappings and status-flag packing.

use vstd::prelude::*;
use crate::log::{ChargeSample, I2cSample, TouchSample};
use crate::m5pm1::{adc_mv, M5pm1, CHG_EN, FRONTLIGHT_DUTY, PWM0_DUTY_MAX};
use crate::bus::{completed, lemma_concat, lemma_ran_prefix, ran, read_byte, read_pair, I2cBus, I2cLog, I2cRequest, Step};
use crate::lite::touch::{in_page_left_gutter, in_page_right_gutter, GUTTER_PX};
use crate::firmware::beep::DEFAULT_VOLUME;
use crate::lite::imu::CHIP_ID_VALUE;

verus! {

/// How far `py` is from the bottom of a page `page_h` rows tall, scaled so
/// the bottom row gives 0 and the top row gives `full` (rounded down).
/// `py` past the bottom counts as the bottom row.
pub open spec fn scale_from_bottom(py: int, page_h: int, full: int) -> int {
    let last = if page_h >= 1 { page_h - 1 } else { 0 };
    let y = if py < last { py } else { last };
    let span = if last >= 1 { last } else { 1 };
    ((last - y) * full) / span
}

/// Frontlight duty for a touch at row `py` of the right gutter: top row
/// full scale (`PWM0_DUTY_MAX`), bottom row 0.
pub fn duty_from_page_y(py: u16, page_h: u16) -> (d: u16)
    ensures
        d == scale_from_bottom(py as int, page_h as int, PWM0_DUTY_MAX as int),
        d <= PWM0_DUTY_MAX,
{
    let last: u16 = page_h.saturating_sub(1);
    let y: u16 = if py < last { py } else { last };
    let from_bottom: u16 = last.saturating_sub(y);
    let span: u16 = if last > 1 { last } else { 1 };
    assert((from_bottom as u32) * (PWM0_DUTY_MAX as u32) <= 65535 * 4095) by (nonlinear_arith)
        requires
            from_bottom <= 65535,
    ;
    assert((from_bottom as int * 4095) / (span as int) <= 4095) by (nonlinear_arith)
        requires
            from_bottom <= span,
            span >= 1,
    ;
    (((from_bottom as u32) * (PWM0_DUTY_MAX as u32)) / (span as u32)) as u16
}

/// Buzzer volume for a touch at row `py` of the left gutter: top row 100,
/// bottom row 0.
pub fn volume_from_page_y(py: u16, page_h: u16) -> (v: u8)
    ensures
        v == scale_from_bottom(py as int, page_h as int, 100),
        v <= 100,
{
    let last: u16 = page_h.saturating_sub(1);
    let y: u16 = if py < last { py } else { last };
    let from_bottom: u16 = last.saturating_sub(y);
    let span: u16 = if last > 1 { last } else { 1 };
    assert((from_bottom as u32) * 100 <= 65535 * 100) by (nonlinear_arith)
        requires
            from_bottom <= 65535,
    ;
    assert((from_bottom as int * 100) / (span as int) <= 100) by (nonlinear_arith)
        requires
            from_bottom <= span,
            span >= 1,
    ;
    (((from_bottom as u32) * 100) / (span as u32)) as u8
}

/// `mask` when the bit is set, else 0.
pub fn flag(bit: bool, mask: u16) -> (r: u16)
    ensures
        r == if bit { mask } else { 0 },
{
    if bit {
        mask
    } else {
        0
    }
}

/// `mask` when the bit is set, else 0 (byte-wide).
pub fn flag_u8(bit: bool, mask: u8) -> (r: u8)
    ensures
        r == if bit { mask } else { 0 },
{
    if bit {
        mask
    } else {
        0
    }
}

/// Identity of the ST25R3916 read at bring-up.
#[derive(Debug, Clone, Copy, PartialEq, Eq, Structural)]
pub struct NfcIdentitySample {
    /// The controller answered.
    pub ack: bool,
    /// IC type (5 bits on the chip).
    pub id: u8,
    /// IC revision.
    pub rev: u8,
}

/// The identity word that `store_nfc_id` keeps.
pub open spec fn nfc_word(ack: bool, id: u8, rev: u8) -> u16 {
    if ack { 0x8000u16 | ((id as u16) << 8u16) | (rev as u16) } else { 0u16 }
}

/// What `last_nfc` reads from the identity word `raw`.
pub open spec fn read_nfc(raw: u16) -> Option<NfcIdentitySample> {
    if raw & 0x8000 == 0 {
        None
    } else {
        Some(NfcIdentitySample { ack: true, id: ((raw >> 8u16) & 0x7f) as u8, rev: (raw & 0xff) as u8 })
    }
}

/// An identity that answered reads back as recorded when its type fits in
/// seven bits (an IC type of 128 or more loses its top bit); one that did
/// not answer reads back as `None`.
pub proof fn law_nfc_id_read_back(ack: bool, id: u8, rev: u8)
    requires
        id < 128,
    ensures
        read_nfc(nfc_word(ack, id, rev)) == (if ack {
            Some(NfcIdentitySample { ack: true, id, rev })
        } else {
            None
        }),
{
    if ack {
        let w = nfc_word(ack, id, rev);
        assert(w == 0x8000u16 | ((id as u16) << 8u16) | (rev as u16));
        assert(w & 0x8000 != 0 && ((w >> 8u16) & 0x7f) as u8 == id && (w & 0xff) as u8 == rev) by (bit_vector)
            requires
                w == 0x8000u16 | ((id as u16) << 8u16) | (rev as u16),
                id < 128,
        ;
    } else {
        assert(0u16 & 0x8000u16 == 0) by (bit_vector);
    }
}

/// `i2c_bits` mask: M5PM1 answered.
pub const PM1: u16 = 0x001;
/// `i2c_bits` mask: M5IOE1 answered.
pub const IOE: u16 = 0x002;
/// `i2c_bits` mask: RX8130CE answered.
pub const RTC: u16 = 0x004;
/// `i2c_bits` mask: BMI270 answered.
pub const IMU: u16 = 0x008;
/// `i2c_bits` mask: FT6336G answered.
pub const TP: u16 = 0x010;
/// `i2c_bits` mask: ST25R3916 answered.
pub const NFC: u16 = 0x020;
/// `i2c_bits` mask: IP2315 answered.
pub const CHG: u16 = 0x040;
/// `i2c_bits` mask: microSD detect was high.
pub const TF: u16 = 0x080;
/// `i2c_bits` mask: M5IOE1 answered at its UM address.
pub const IOE_UM: u16 = 0x100;

/// `charge_bits` mask: `CHG_EN` was set.
pub const CHARGE_EN: u8 = 0x01;
/// `charge_bits` mask: IP2315 answered with `PYG11` high.
pub const CHARGE_IP: u8 = 0x02;
/// `charge_bits` mask: IP2315 answered with `PYG11` low again.
pub const CHARGE_THEN: u8 = 0x04;

/// The `i2c_bits` word that packs the ACK flags of `s`.
pub open spec fn i2c_bits_of(s: I2cSample) -> u16 {
    (if s.pm1 { PM1 } else { 0u16 }) | (if s.ioe { IOE } else { 0u16 }) | (if s.rtc { RTC } else { 0u16 })
        | (if s.imu { IMU } else { 0u16 }) | (if s.tp { TP } else { 0u16 }) | (if s.nfc { NFC } else { 0u16 })
        | (if s.chg { CHG } else { 0u16 }) | (if s.tf { TF } else { 0u16 }) | (if s.ioe_um { IOE_UM } else { 0u16 })
}

/// The sample that the stored I2C registers read back as.
pub open spec fn i2c_of(bits: u16, addr: u8, imu_id: u8, rtc_flag: u8) -> I2cSample {
    I2cSample {
        pm1: bits & PM1 != 0,
        ioe: bits & IOE != 0,
        ioe_addr: addr,
        rtc: bits & RTC != 0,
        rtc_flag,
        imu: bits & IMU != 0,
        imu_id,
        tp: bits & TP != 0,
        nfc: bits & NFC != 0,
        chg: bits & CHG != 0,
        ioe_um: bits & IOE_UM != 0,
        tf: bits & TF != 0,
    }
}

/// The `charge_bits` byte that packs the flags of `s`.
pub open spec fn charge_bits_of(s: ChargeSample) -> u8 {
    (if s.chg_en { CHARGE_EN } else { 0u8 }) | (if s.ip { CHARGE_IP } else { 0u8 }) | (if s.then_ack {
        CHARGE_THEN
    } else {
        0u8
    })
}

/// The sample that the stored charge registers read back as.
pub open spec fn charge_of(vbat: u16, vin: u16, src: u8, bits: u8) -> ChargeSample {
    ChargeSample {
        vbat,
        vin,
        src,
        chg_en: bits & CHARGE_EN != 0,
        ip: bits & CHARGE_IP != 0,
        then_ack: bits & CHARGE_THEN != 0,
    }
}

/// Registers that the bus task fills and the telemetry task reads back:
/// the last frontlight duty, the last charge sample and the last I2C roster,
/// each packed into words, with a flag saying whether it was ever written.
pub struct BusMirror {
    /// Frontlight PWM0 duty last applied.
    pub lamp_duty: u16,
    /// `lamp_duty` was written since boot.
    pub have_lamp: bool,
    /// Battery millivolts of the last charge sample.
    pub charge_vbat: u16,
    /// Input millivolts of the last charge sample.
    pub charge_vin: u16,
    /// `PWR_SRC` of the last charge sample.
    pub charge_src: u8,
    /// Flags of the last charge sample (`CHARGE_*` masks).
    pub charge_bits: u8,
    /// A charge sample was written since boot.
    pub have_charge: bool,
    /// ACK flags of the last roster (`PM1` .. `IOE_UM` masks).
    pub i2c_bits: u16,
    /// M5IOE1 address of the last roster.
    pub i2c_addr: u8,
    /// BMI270 chip id of the last roster.
    pub i2c_imu_id: u8,
    /// RX8130CE `FLAG` of the last roster.
    pub i2c_rtc_flag: u8,
    /// A roster was written since boot.
    pub have_i2c: bool,
    /// ST25R3916 identity: bit 15 set when it answered, IC type in bits
    /// 14:8, revision in bits 7:0.
    pub nfc_id: u16,
}

impl BusMirror {
    /// Power-on registers: nothing written, duty at the default frontlight level.
    pub fn new() -> (m: BusMirror)
        ensures
            m.lamp_duty == FRONTLIGHT_DUTY,
            !m.have_lamp,
            !m.have_charge,
            !m.have_i2c,
            m.charge_vbat == 0 && m.charge_vin == 0 && m.charge_src == 0 && m.charge_bits == 0,
            m.i2c_bits == 0 && m.i2c_addr == 0 && m.i2c_imu_id == 0 && m.i2c_rtc_flag == 0,
            m.nfc_id == 0,
    {
        BusMirror {
            lamp_duty: FRONTLIGHT_DUTY,
            have_lamp: false,
            charge_vbat: 0,
            charge_vin: 0,
            charge_src: 0,
            charge_bits: 0,
            have_charge: false,
            i2c_bits: 0,
            i2c_addr: 0,
            i2c_imu_id: 0,
            i2c_rtc_flag: 0,
            have_i2c: false,
            nfc_id: 0,
        }
    }

    /// Records an I2C roster; the other registers stay as they were.
    pub fn store_i2c(&mut self, sample: I2cSample)
        ensures
            final(self).i2c_bits == i2c_bits_of(sample),
            final(self).i2c_addr == sample.ioe_addr,
            final(self).i2c_imu_id == sample.imu_id,
            final(self).i2c_rtc_flag == sample.rtc_flag,
            final(self).have_i2c,
            final(self).lamp_duty == old(self).lamp_duty,
            final(self).have_lamp == old(self).have_lamp,
            final(self).charge_vbat == old(self).charge_vbat,
            final(self).charge_vin == old(self).charge_vin,
            final(self).charge_src == old(self).charge_src,
            final(self).charge_bits == old(self).charge_bits,
            final(self).have_charge == old(self).have_charge,
    {
        let bits: u16 = flag(sample.pm1, PM1) | flag(sample.ioe, IOE) | flag(sample.rtc, RTC)
            | flag(sample.imu, IMU) | flag(sample.tp, TP) | flag(sample.nfc, NFC) | flag(
            sample.chg,
            CHG,
        ) | flag(sample.tf, TF) | flag(sample.ioe_um, IOE_UM);
        self.i2c_bits = bits;
        self.i2c_addr = sample.ioe_addr;
        self.i2c_imu_id = sample.imu_id;
        self.i2c_rtc_flag = sample.rtc_flag;
        self.have_i2c = true;
    }

    /// The roster last recorded, or `None` before the first one.
    pub fn last_i2c(&self) -> (r: Option<I2cSample>)
        ensures
            r == read_i2c(*self),
    {
        if !self.have_i2c {
            return None;
        }
        let bits = self.i2c_bits;
        Some(
            I2cSample {
                pm1: bits & PM1 != 0,
                ioe: bits & IOE != 0,
                ioe_addr: self.i2c_addr,
                rtc: bits & RTC != 0,
                rtc_flag: self.i2c_rtc_flag,
                imu: bits & IMU != 0,
                imu_id: self.i2c_imu_id,
                tp: bits & TP != 0,
                nfc: bits & NFC != 0,
                chg: bits & CHG != 0,
                ioe_um: bits & IOE_UM != 0,
                tf: bits & TF != 0,
            },
        )
    }

    /// Records a charge sample; the other registers stay as they were.
    pub fn store_charge(&mut self, sample: ChargeSample)
        ensures
            final(self).charge_vbat == sample.vbat,
            final(self).charge_vin == sample.vin,
            final(self).charge_src == sample.src,
            final(self).charge_bits == charge_bits_of(sample),
            final(self).have_charge,
            final(self).lamp_duty == old(self).lamp_duty,
            final(self).have_lamp == old(self).have_lamp,
            final(self).i2c_bits == old(self).i2c_bits,
            final(self).i2c_addr == old(self).i2c_addr,
            final(self).i2c_imu_id == old(self).i2c_imu_id,
            final(self).i2c_rtc_flag == old(self).i2c_rtc_flag,
            final(self).have_i2c == old(self).have_i2c,
    {
        self.charge_vbat = sample.vbat;
        self.charge_vin = sample.vin;
        self.charge_src = sample.src;
        self.charge_bits = flag_u8(sample.chg_en, CHARGE_EN) | flag_u8(sample.ip, CHARGE_IP)
            | flag_u8(sample.then_ack, CHARGE_THEN);
        self.have_charge = true;
    }

    /// The charge sample last recorded, or `None` before the first one.
    pub fn last_charge(&self) -> (r: Option<ChargeSample>)
        ensures
            r == read_charge(*self),
    {
        if !self.have_charge {
            return None;
        }
        let bits = self.charge_bits;
        Some(
            ChargeSample {
                vbat: self.charge_vbat,
                vin: self.charge_vin,
                src: self.charge_src,
                chg_en: bits & CHARGE_EN != 0,
                ip: bits & CHARGE_IP != 0,
                then_ack: bits & CHARGE_THEN != 0,
            },
        )
    }

    /// Records the frontlight duty just applied; the other registers stay as they were.
    pub fn store_lamp(&mut self, duty: u16)
        ensures
            final(self).lamp_duty == duty,
            final(self).have_lamp,
            final(self).charge_vbat == old(self).charge_vbat,
            final(self).charge_vin == old(self).charge_vin,
            final(self).charge_src == old(self).charge_src,
            final(self).charge_bits == old(self).charge_bits,
            final(self).have_charge == old(self).have_charge,
            final(self).i2c_bits == old(self).i2c_bits,
            final(self).i2c_addr == old(self).i2c_addr,
            final(self).i2c_imu_id == old(self).i2c_imu_id,
            final(self).i2c_rtc_flag == old(self).i2c_rtc_flag,
            final(self).have_i2c == old(self).have_i2c,
    {
        self.lamp_duty = duty;
        self.have_lamp = true;
    }

    /// The frontlight duty last applied, or `None` before the first one.
    pub fn last_lamp(&self) -> (r: Option<u16>)
        ensures
            r == (if self.have_lamp { Some(self.lamp_duty) } else { None }),
    {
        if !self.have_lamp {
            return None;
        }
        Some(self.lamp_duty)
    }

    /// Records the NFC controller's identity read at bring-up (`ack` false:
    /// it did not answer, and nothing is kept).
    pub fn store_nfc_id(&mut self, ack: bool, id: u8, rev: u8)
        ensures
            final(self).nfc_id == nfc_word(ack, id, rev),
            final(self).have_i2c == old(self).have_i2c,
            final(self).have_charge == old(self).have_charge,
            final(self).have_lamp == old(self).have_lamp,
    {
        self.nfc_id = if ack { 0x8000u16 | ((id as u16) << 8u16) | (rev as u16) } else { 0 };
    }

    /// The NFC identity last recorded, or `None` when the controller did not
    /// answer (or nothing was recorded).
    pub fn last_nfc(&self) -> (r: Option<NfcIdentitySample>)
        ensures
            r == read_nfc(self.nfc_id),
    {
        let raw = self.nfc_id;
        if (raw & 0x8000) == 0 {
            None
        } else {
            Some(NfcIdentitySample { ack: true, id: ((raw >> 8u16) & 0x7f) as u8, rev: (raw & 0xff) as u8 })
        }
    }

    /// Whether a slider at `duty` must write PWM0: only when it differs from
    /// the duty last applied.
    pub fn lamp_needs_write(&self, duty: u16) -> (w: bool)
        ensures
            w <==> self.lamp_duty != duty,
    {
        self.lamp_duty != duty
    }
}

/// The packed roster flags decode to the flags that were packed.
pub proof fn law_i2c_bits_round_trip(s: I2cSample)
    ensures
        i2c_of(i2c_bits_of(s), s.ioe_addr, s.imu_id, s.rtc_flag) == s,
{
    let (a, b, c, d, e, f, g, h, i) = (s.pm1, s.ioe, s.rtc, s.imu, s.tp, s.nfc, s.chg, s.tf, s.ioe_um);
    let w = i2c_bits_of(s);
    assert(w == ((if a { 0x001u16 } else { 0u16 }) | (if b { 0x002u16 } else { 0u16 }) | (if c {
        0x004u16
    } else {
        0u16
    }) | (if d { 0x008u16 } else { 0u16 }) | (if e { 0x010u16 } else { 0u16 }) | (if f {
        0x020u16
    } else {
        0u16
    }) | (if g { 0x040u16 } else { 0u16 }) | (if h { 0x080u16 } else { 0u16 }) | (if i {
        0x100u16
    } else {
        0u16
    })));
    assert({
        &&& (w & 0x001u16 != 0) == a
        &&& (w & 0x002u16 != 0) == b
        &&& (w & 0x004u16 != 0) == c
        &&& (w & 0x008u16 != 0) == d
        &&& (w & 0x010u16 != 0) == e
        &&& (w & 0x020u16 != 0) == f
        &&& (w & 0x040u16 != 0) == g
        &&& (w & 0x080u16 != 0) == h
        &&& (w & 0x100u16 != 0) == i
    }) by (bit_vector)
        requires
            w == ((if a { 0x001u16 } else { 0u16 }) | (if b { 0x002u16 } else { 0u16 }) | (if c {
                0x004u16
            } else {
                0u16
            }) | (if d { 0x008u16 } else { 0u16 }) | (if e { 0x010u16 } else { 0u16 }) | (if f {
                0x020u16
            } else {
                0u16
            }) | (if g { 0x040u16 } else { 0u16 }) | (if h { 0x080u16 } else { 0u16 }) | (if i {
                0x100u16
            } else {
                0u16
            })),
    ;
}

/// The packed charge flags decode to the flags that were packed.
pub proof fn law_charge_bits_round_trip(s: ChargeSample)
    ensures
        charge_of(s.vbat, s.vin, s.src, charge_bits_of(s)) == s,
{
    let (a, b, c) = (s.chg_en, s.ip, s.then_ack);
    let w = charge_bits_of(s);
    assert(w == ((if a { 1u8 } else { 0u8 }) | (if b { 2u8 } else { 0u8 }) | (if c { 4u8 } else { 0u8 })));
    assert({
        &&& (w & 1u8 != 0) == a
        &&& (w & 2u8 != 0) == b
        &&& (w & 4u8 != 0) == c
    }) by (bit_vector)
        requires
            w == ((if a { 1u8 } else { 0u8 }) | (if b { 2u8 } else { 0u8 }) | (if c { 4u8 } else { 0u8 })),
    ;
}

/// What `last_i2c` reads from the registers `m`.
pub open spec fn read_i2c(m: BusMirror) -> Option<I2cSample> {
    if m.have_i2c {
        Some(i2c_of(m.i2c_bits, m.i2c_addr, m.i2c_imu_id, m.i2c_rtc_flag))
    } else {
        None
    }
}

/// What `last_charge` reads from the registers `m`.
pub open spec fn read_charge(m: BusMirror) -> Option<ChargeSample> {
    if m.have_charge {
        Some(charge_of(m.charge_vbat, m.charge_vin, m.charge_src, m.charge_bits))
    } else {
        None
    }
}

/// Whatever registers `store_i2c(s)` leaves, `last_i2c` reads back `s`.
pub proof fn law_i2c_read_back(m: BusMirror, s: I2cSample)
    requires
        m.i2c_bits == i2c_bits_of(s),
        m.i2c_addr == s.ioe_addr,
        m.i2c_imu_id == s.imu_id,
        m.i2c_rtc_flag == s.rtc_flag,
        m.have_i2c,
    ensures
        read_i2c(m) == Some(s),
{
    law_i2c_bits_round_trip(s);
}

/// Whatever registers `store_charge(s)` leaves, `last_charge` reads back `s`.
pub proof fn law_charge_read_back(m: BusMirror, s: ChargeSample)
    requires
        m.charge_vbat == s.vbat,
        m.charge_vin == s.vin,
        m.charge_src == s.src,
        m.charge_bits == charge_bits_of(s),
        m.have_charge,
    ensures
        read_charge(m) == Some(s),
{
    law_charge_bits_round_trip(s);
}

/// An idle digitizer sample: no contacts, all coordinates 0.
pub fn empty_touch(int_high: bool) -> (t: TouchSample)
    ensures
        t == (TouchSample { int_ready: int_high, n: 0, x: 0, y: 0, x2: 0, y2: 0 }),
{
    TouchSample { int_ready: int_high, n: 0, x: 0, y: 0, x2: 0, y2: 0 }
}

/// Empty samples in a row after which a slider lets go.
pub const LAMP_EMPTY_RESET: u8 = 4;

/// The empty-sample counter after one more empty sample (saturating), and
/// whether that sample releases the slider.
pub open spec fn after_empty(empty: u8) -> (u8, bool) {
    let e = if empty == 255 { 255int } else { empty + 1 };
    if e >= LAMP_EMPTY_RESET { (0u8, true) } else { (e as u8, false) }
}

/// Whether page column `px` lies in the right gutter of a page `page_w` wide.
pub open spec fn in_right_gutter(px: u16, page_w: u16) -> bool {
    (if px + GUTTER_PX > u16::MAX { u16::MAX as int } else { px + GUTTER_PX }) >= page_w
}

/// Right-edge frontlight slider: a contact in the right gutter sets the
/// duty from its height (top bright, bottom off).
pub struct LampSlide {
    empty: u8,
    armed: bool,
}

impl View for LampSlide {
    /// (empty samples in a row, tracking a contact)
    type V = (u8, bool);

    closed spec fn view(&self) -> (u8, bool) {
        (self.empty, self.armed)
    }
}

impl LampSlide {
    /// Not tracking, no empty samples counted.
    pub fn new() -> (s: LampSlide)
        ensures
            s@ == (0u8, false),
    {
        LampSlide { empty: 0, armed: false }
    }

    /// Whether a contact in the gutter is being tracked.
    pub fn armed(&self) -> (a: bool)
        ensures
            a == self@.1,
    {
        self.armed
    }

    /// Takes one touch sample. `page` is its first point in page space
    /// (`None` when it maps off the page) on a page `page_w` by `page_h`.
    /// Returns the frontlight duty to apply when the sample was taken by the
    /// slider, `None` when it was not.
    pub fn feed(&mut self, sample: &TouchSample, page: Option<(u16, u16)>, page_w: u16, page_h: u16) -> (r: Option<u16>)
        ensures
            sample.n < 1 ==> r is None && final(self)@ == (
                after_empty(old(self)@.0).0,
                if after_empty(old(self)@.0).1 { false } else { old(self)@.1 },
            ),
            sample.n >= 1 && page is None ==> r is None && final(self)@ == old(self)@,
            sample.n >= 1 ==> (page matches Some((px, py)) ==> {
                if in_right_gutter(px, page_w) {
                    &&& r == Some(scale_from_bottom(py as int, page_h as int, PWM0_DUTY_MAX as int) as u16)
                    &&& final(self)@ == (0u8, true)
                } else {
                    r is None && final(self)@ == (0u8, false)
                }
            }),
    {
        if sample.n < 1 {
            self.empty = self.empty.saturating_add(1);
            if self.empty >= LAMP_EMPTY_RESET {
                self.empty = 0;
                self.armed = false;
            }
            return None;
        }
        match page {
            None => None,
            Some((px, py)) => {
                if !in_page_right_gutter(px, page_w) {
                    self.empty = 0;
                    self.armed = false;
                    return None;
                }
                self.empty = 0;
                self.armed = true;
                Some(duty_from_page_y(py, page_h))
            },
        }
    }
}

/// What a volume-slider sample asks of the buzzer.
#[derive(Clone, Copy, Debug, PartialEq, Eq, Structural)]
pub struct VolumeStep {
    /// The sample was taken by the slider.
    pub consumed: bool,
    /// A volume to set and report, when it changed.
    pub new_volume: Option<u8>,
    /// Whether to play the tick chirp.
    pub tick: bool,
}

/// Left-edge buzzer volume slider: a contact in the left gutter sets the
/// volume from its height (top 100, bottom 0), ticking every 5 points.
pub struct VolumeSlide {
    empty: u8,
    armed: bool,
    last_reported_vol: u8,
    last_tick_vol: u8,
}

impl View for VolumeSlide {
    /// (empty samples in a row, tracking a contact, last volume reported,
    /// volume at the last tick)
    type V = (u8, bool, u8, u8);

    closed spec fn view(&self) -> (u8, bool, u8, u8) {
        (self.empty, self.armed, self.last_reported_vol, self.last_tick_vol)
    }
}

/// Distance between two volumes.
pub open spec fn vol_gap(a: u8, b: u8) -> int {
    if a >= b { a - b } else { b - a }
}

impl VolumeSlide {
    /// Not tracking; both remembered volumes at the boot volume.
    pub fn new() -> (s: VolumeSlide)
        ensures
            s@ == (0u8, false, DEFAULT_VOLUME, DEFAULT_VOLUME),
    {
        VolumeSlide {
            empty: 0,
            armed: false,
            last_reported_vol: DEFAULT_VOLUME,
            last_tick_vol: DEFAULT_VOLUME,
        }
    }

    /// Whether a contact in the gutter is being tracked.
    pub fn armed(&self) -> (a: bool)
        ensures
            a == self@.1,
    {
        self.armed
    }

    /// Takes one touch sample; `page` as for [`LampSlide::feed`], on a page
    /// `page_h` tall. A new volume is set and reported when it differs from
    /// the last one reported; the tick plays on the first sample of a drag and
    /// whenever the volume moved 5 or more from the last tick.
    pub fn feed(&mut self, sample: &TouchSample, page: Option<(u16, u16)>, page_h: u16) -> (r: VolumeStep)
        ensures
            sample.n < 1 ==> r == (VolumeStep { consumed: false, new_volume: None, tick: false })
                && final(self)@ == (
                after_empty(old(self)@.0).0,
                if after_empty(old(self)@.0).1 { false } else { old(self)@.1 },
                old(self)@.2,
                old(self)@.3,
            ),
            sample.n >= 1 && page is None ==> r == (VolumeStep {
                consumed: false,
                new_volume: None,
                tick: false,
            }) && final(self)@ == old(self)@,
            sample.n >= 1 ==> (page matches Some((px, py)) ==> {
                let vol = scale_from_bottom(py as int, page_h as int, 100) as u8;
                let tick = !old(self)@.1 || vol_gap(vol, old(self)@.3) >= 5;
                if px <= GUTTER_PX {
                    &&& r == (VolumeStep {
                        consumed: true,
                        new_volume: if vol != old(self)@.2 { Some(vol) } else { None },
                        tick,
                    })
                    &&& final(self)@ == (0u8, true, vol, if tick { vol } else { old(self)@.3 })
                } else {
                    &&& r == (VolumeStep { consumed: false, new_volume: None, tick: false })
                    &&& final(self)@ == (0u8, false, old(self)@.2, old(self)@.3)
                }
            }),
    {
        let none = VolumeStep { consumed: false, new_volume: None, tick: false };
        if sample.n < 1 {
            self.empty = self.empty.saturating_add(1);
            if self.empty >= LAMP_EMPTY_RESET {
                self.empty = 0;
                self.armed = false;
            }
            return none;
        }
        match page {
            None => none,
            Some((px, py)) => {
                if !in_page_left_gutter(px) {
                    self.empty = 0;
                    self.armed = false;
                    return none;
                }
                let was_armed = self.armed;
                self.empty = 0;
                self.armed = true;
                let vol = volume_from_page_y(py, page_h);
                let mut new_volume: Option<u8> = None;
                if vol != self.last_reported_vol {
                    self.last_reported_vol = vol;
                    new_volume = Some(vol);
                }
                let gap: u8 = if vol >= self.last_tick_vol {
                    vol - self.last_tick_vol
                } else {
                    self.last_tick_vol - vol
                };
                let tick = !was_armed || gap >= 5;
                if tick {
                    self.last_tick_vol = vol;
                }
                VolumeStep { consumed: true, new_volume, tick }
            },
        }
    }
}

/// What bring-up records from its probes, and whether it turns the
/// frontlight on: `ioe_addr` is the M5IOE1 address that answered, `rtc_flag`
/// and `imu_id` what the RTC and IMU reads returned, `tf_level` the
/// microSD detect level, `charge` the gated charger sample. A read that
/// failed counts as 0 (false for the detect level); the IMU counts as
/// present only with the BMI270 chip id; the card slot only behind the
/// expander; the frontlight comes on when both PMIC and expander answered.
pub fn bring_up_roster(
    pm1: bool,
    ioe_addr: Option<u8>,
    rtc_flag: Option<u8>,
    imu_id: Option<u8>,
    tp: bool,
    nfc: bool,
    charge: &ChargeSample,
    ioe_um: bool,
    tf_level: Option<bool>,
) -> (r: (I2cSample, bool))
    ensures
        r.0 == (I2cSample {
            pm1,
            ioe: ioe_addr is Some,
            ioe_addr: match ioe_addr { Some(a) => a, None => 0 },
            rtc: rtc_flag is Some,
            rtc_flag: match rtc_flag { Some(f) => f, None => 0 },
            imu: imu_id == Some(CHIP_ID_VALUE),
            imu_id: match imu_id { Some(i) => i, None => 0 },
            tp,
            nfc,
            chg: charge.then_ack,
            ioe_um,
            tf: ioe_addr is Some && tf_level == Some(true),
        }),
        r.1 == (ioe_addr is Some && pm1),
{
    let ioe = ioe_addr.is_some();
    let id: u8 = match imu_id {
        Some(i) => i,
        None => 0,
    };
    let tf = ioe && match tf_level {
        Some(b) => b,
        None => false,
    };
    let sample = I2cSample {
        pm1,
        ioe,
        ioe_addr: match ioe_addr {
            Some(a) => a,
            None => 0,
        },
        rtc: rtc_flag.is_some(),
        rtc_flag: match rtc_flag {
            Some(f) => f,
            None => 0,
        },
        imu: id == CHIP_ID_VALUE,
        imu_id: id,
        tp,
        nfc,
        chg: charge.then_ack,
        ioe_um,
        tf,
    };
    (sample, ioe && pm1)
}

/// A charge sample from the PMIC reads (a failed read counts as 0) and
/// the IP2315 probe: `CHG_EN` from `PWR_CFG`; the charger is never probed
/// while gated on.
pub fn charge_sample(vbat: Option<u16>, vin: Option<u16>, src: Option<u8>, cfg: Option<u8>, then_ack: bool) -> (c: ChargeSample)
    ensures
        c == (ChargeSample {
            vbat: match vbat { Some(v) => v, None => 0 },
            vin: match vin { Some(v) => v, None => 0 },
            src: match src { Some(v) => v, None => 0 },
            chg_en: match cfg { Some(v) => v & CHG_EN != 0, None => false },
            ip: false,
            then_ack,
        }),
{
    let cfg_v: u8 = match cfg {
        Some(v) => v,
        None => 0,
    };
    assert(0u8 & CHG_EN == 0) by (bit_vector);
    ChargeSample {
        vbat: match vbat {
            Some(v) => v,
            None => 0,
        },
        vin: match vin {
            Some(v) => v,
            None => 0,
        },
        src: match src {
            Some(v) => v,
            None => 0,
        },
        chg_en: cfg_v & CHG_EN != 0,
        ip: false,
        then_ack,
    }
}

/// The two single-byte reads that stand in for a failed 16-bit ADC read.
pub open spec fn adc_fallback(a: u8, lo_reg: u8) -> Seq<Step<I2cRequest>> {
    read_pair(a, lo_reg) + read_pair(a, next_reg(lo_reg))
}

/// The register after `reg`, wrapping.
pub open spec fn next_reg(reg: u8) -> u8 {
    if reg == 255 { 0 } else { (reg + 1) as u8 }
}

/// Reads a PMIC ADC in millivolts: one 16-bit read, or when that fails the
/// low and high bytes one by one (`lo_reg` and the next register).
pub fn read_adc_mv<B: I2cBus>(pm1: &mut M5pm1<B>, lo_reg: u8) -> (r: Option<u16>)
    ensures
        final(pm1).spec_address() == old(pm1).spec_address(),
        ({
            let a = old(pm1).spec_address();
            let b = old(pm1).events().len() as int;
            let fin = final(pm1).events();
            &&& fin.len() > b
            &&& fin.subrange(0, b) == old(pm1).events()
            &&& fin[b].request == I2cRequest::WriteRead(a, seq![lo_reg], 2)
            &&& fin[b].ok ==> fin.len() == b + 1 && r == Some((fin[b].data[0] + 256 * fin[b].data[1]) as u16)
            &&& !fin[b].ok ==> {
                &&& ran(fin.subrange(0, b + 1), fin, adc_fallback(a, lo_reg))
                &&& (r is Some <==> completed(fin.subrange(0, b + 1), fin, adc_fallback(a, lo_reg)))
                &&& r is Some ==> r == Some((read_byte(fin, (b + 1) as nat) + 256 * read_byte(fin, (b + 3) as nat)) as u16)
            }
        }),
{
    let ghost base = pm1.events();
    let ghost a = pm1.spec_address();
    let ghost b = base.len() as int;
    match pm1.read_le16(lo_reg) {
        Ok(v) => {
            proof {
                let fin = pm1.events();
                assert(fin.subrange(0, b) =~= fin.drop_last());
            }
            return Some(v);
        },
        Err(_) => {},
    }
    let ghost m = pm1.events();
    proof {
        assert(m.subrange(0, b) =~= m.drop_last());
        assert(m.subrange(0, b + 1) =~= m);
    }
    let lo = match pm1.read_at(lo_reg) {
        Ok(v) => v,
        Err(_) => {
            proof {
                let fin = pm1.events();
                lemma_ran_prefix(m, fin, read_pair(a, lo_reg));
                assert(fin.subrange(0, b + 1) =~= m);
                assert(fin.subrange(0, b) =~= base) by {
                    assert forall|i: int| 0 <= i < b implies fin[i] == base[i] by {
                        assert(fin.subrange(0, m.len() as int)[i] == fin[i]);
                        assert(m.drop_last()[i] == m[i]);
                    }
                }
                assert(fin[b] == m[b]) by {
                    assert(fin.subrange(0, m.len() as int)[b] == fin[b]);
                }
                crate::bus::lemma_stop_extend(m, fin, read_pair(a, lo_reg), adc_fallback(a, lo_reg));
            }
            return None;
        },
    };
    let ghost m2 = pm1.events();
    let hi_reg: u8 = if lo_reg == 255 { 0 } else { lo_reg + 1 };
    let hi = match pm1.read_at(hi_reg) {
        Ok(v) => v,
        Err(_) => {
            proof {
                let fin = pm1.events();
                lemma_ran_prefix(m, m2, read_pair(a, lo_reg));
                lemma_ran_prefix(m2, fin, read_pair(a, hi_reg));
                lemma_concat(m, m2, fin, read_pair(a, lo_reg), read_pair(a, hi_reg));
                crate::bus::lemma_prefix_trans(m, m2, fin);
                assert(fin.subrange(0, b + 1) =~= m) by {
                    assert forall|i: int| 0 <= i < b + 1 implies fin[i] == m[i] by {
                        assert(fin.subrange(0, m.len() as int)[i] == fin[i]);
                    }
                }
                assert(fin.subrange(0, b) =~= base) by {
                    assert forall|i: int| 0 <= i < b implies fin[i] == base[i] by {
                        assert(fin.subrange(0, m.len() as int)[i] == fin[i]);
                        assert(m.drop_last()[i] == m[i]);
                    }
                }
                assert(fin[b] == m[b]) by {
                    assert(fin.subrange(0, m.len() as int)[b] == fin[b]);
                }
            }
            return None;
        },
    };
    let mv = adc_mv(lo, hi);
    proof {
        let fin = pm1.events();
        lemma_ran_prefix(m, m2, read_pair(a, lo_reg));
        lemma_ran_prefix(m2, fin, read_pair(a, hi_reg));
        lemma_concat(m, m2, fin, read_pair(a, lo_reg), read_pair(a, hi_reg));
        crate::bus::lemma_prefix_trans(m, m2, fin);
        assert(fin.subrange(0, b + 1) =~= m) by {
            assert forall|i: int| 0 <= i < b + 1 implies fin[i] == m[i] by {
                assert(fin.subrange(0, m.len() as int)[i] == fin[i]);
            }
        }
        assert(fin.subrange(0, b) =~= base) by {
            assert forall|i: int| 0 <= i < b implies fin[i] == base[i] by {
                assert(fin.subrange(0, m.len() as int)[i] == fin[i]);
                assert(m.drop_last()[i] == m[i]);
            }
        }
        assert(fin[b] == m[b]) by {
            assert(fin.subrange(0, m.len() as int)[b] == fin[b]);
        }
        assert(fin[b + 2] == m2[b + 2]) by {
            assert(fin.subrange(0, m2.len() as int)[b + 2] == fin[b + 2]);
        }
    }
    Some(mv)
}

} // verus!
