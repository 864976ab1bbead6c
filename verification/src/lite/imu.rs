//! BMI270 on the system I2C bus: register map and the dominant-axis
//! orientation policy ([`classify`]).
//!
//! Lite axis map (glass toward the operator): −X → USB-C down
//! ([`Orientation::Portrait0`]), +X → USB-C up, +Y → USB-C right
//! ([`Orientation::Landscape0`]), −Y → USB-C left.

use vstd::prelude::*;
use crate::lite::display::PageRotation;
use crate::bus::{I2cBus, I2cDevice, I2cLog, I2cRequest, Event, Step, on_track, ran, completed, stopped, lemma_start};

verus! {

/// 7-bit address. Same as [`crate::lite::addresses::BMI270`].
pub const ADDRESS: u8 = crate::lite::addresses::BMI270;
/// `CHIP_ID` register.
pub const CHIP_ID: u8 = 0x00;
/// Power-on `CHIP_ID` payload.
pub const CHIP_ID_VALUE: u8 = 0x24;
/// `DATA_8` register (first accelerometer byte).
pub const DATA_8: u8 = 0x0C;
/// `INTERNAL_STATUS` register.
pub const INTERNAL_STATUS: u8 = 0x21;
/// `ACC_CONF` register.
pub const ACC_CONF: u8 = 0x40;
/// `ACC_RANGE` register.
pub const ACC_RANGE: u8 = 0x41;
/// `INIT_ADDR_0` register.
pub const INIT_ADDR_0: u8 = 0x5B;
/// `INIT_ADDR_1` register.
pub const INIT_ADDR_1: u8 = 0x5C;
/// `INIT_CTRL` register.
pub const INIT_CTRL: u8 = 0x59;
/// `INIT_DATA` register.
pub const INIT_DATA: u8 = 0x5E;
/// `PWR_CONF` register.
pub const PWR_CONF: u8 = 0x7C;
/// `PWR_CTRL` register.
pub const PWR_CTRL: u8 = 0x7D;
/// `CMD` register.
pub const CMD: u8 = 0x7E;
/// Soft-reset command byte written to [`CMD`].
pub const CMD_SOFTRESET: u8 = 0xB6;
/// `PWR_CTRL.acc_en` only.
pub const PWR_CTRL_ACC_EN: u8 = 0x04;
/// `ACC_CONF`: normal filter, ~100 Hz ODR.
pub const ACC_CONF_NORMAL_100HZ: u8 = 0xA8;
/// `ACC_RANGE` ±2 g.
pub const ACC_RANGE_2G: u8 = 0x00;
/// `PWR_CONF` with `adv_power_save` cleared.
pub const PWR_CONF_APS_OFF: u8 = 0x00;
/// Burst length used when streaming the init blob.
pub const CONFIG_CHUNK: usize = 16;
/// Accelerometer sensitivity at ±2 g, LSB per g.
pub const SENSITIVITY_LSB_PER_G: i32 = 16_384;
/// Dominant-axis threshold in raw LSB at ±2 g (0.70 g of 16384 LSB/g,
/// truncated).
pub const DOMINANT_AXIS_THRESHOLD_LSB: i32 = 11_468;

/// One accelerometer sample in sensor frame (raw int16 at ±2 g).
#[derive(Debug, Clone, Copy, PartialEq, Eq, Structural)]
pub struct AccelSample {
    /// Sensor X axis (raw LSB).
    pub x: i16,
    /// Sensor Y axis (raw LSB).
    pub y: i16,
    /// Sensor Z axis (raw LSB).
    pub z: i16,
}

/// Enclosure orientation from accelerometer gravity.
#[derive(Debug, Clone, Copy, PartialEq, Eq, Structural)]
pub enum Orientation {
    /// USB-C on the bottom short edge.
    Portrait0,
    /// USB-C on the top short edge.
    Portrait180,
    /// USB-C on the right short edge.
    Landscape0,
    /// USB-C on the left short edge.
    Landscape180,
    /// Gravity dominant on +Z: lying face up.
    FaceUp,
    /// Gravity dominant on −Z: lying face down.
    FaceDown,
}

/// In-plane page of a pose; `None` when the unit lies flat.
pub open spec fn spec_page_rotation(o: Orientation) -> Option<PageRotation> {
    match o {
        Orientation::Portrait0 => Some(PageRotation::Portrait0),
        Orientation::Portrait180 => Some(PageRotation::Portrait180),
        Orientation::Landscape0 => Some(PageRotation::Landscape0),
        Orientation::Landscape180 => Some(PageRotation::Landscape180),
        Orientation::FaceUp | Orientation::FaceDown => None,
    }
}

/// Log token of a pose (the variant's name).
pub open spec fn orientation_token(o: Orientation) -> &'static str {
    match o {
        Orientation::Portrait0 => "Portrait0",
        Orientation::Portrait180 => "Portrait180",
        Orientation::Landscape0 => "Landscape0",
        Orientation::Landscape180 => "Landscape180",
        Orientation::FaceUp => "FaceUp",
        Orientation::FaceDown => "FaceDown",
    }
}

impl Orientation {
    /// In-plane page for this pose. `None` when the unit is flat.
    pub fn page_rotation(self) -> (r: Option<PageRotation>)
        ensures
            r == spec_page_rotation(self),
    {
        match self {
            Orientation::Portrait0 => Some(PageRotation::Portrait0),
            Orientation::Portrait180 => Some(PageRotation::Portrait180),
            Orientation::Landscape0 => Some(PageRotation::Landscape0),
            Orientation::Landscape180 => Some(PageRotation::Landscape180),
            Orientation::FaceUp | Orientation::FaceDown => None,
        }
    }

    /// Log token.
    pub fn as_str(self) -> (s: &'static str)
        ensures
            s == orientation_token(self),
    {
        match self {
            Orientation::Portrait0 => "Portrait0",
            Orientation::Portrait180 => "Portrait180",
            Orientation::Landscape0 => "Landscape0",
            Orientation::Landscape180 => "Landscape180",
            Orientation::FaceUp => "FaceUp",
            Orientation::FaceDown => "FaceDown",
        }
    }
}

/// Absolute value.
pub open spec fn abs_int(v: int) -> int {
    if v < 0 { -v } else { v }
}

/// Largest of the three axis magnitudes.
pub open spec fn dominant(x: int, y: int, z: int) -> int {
    let (ax, ay, az) = (abs_int(x), abs_int(y), abs_int(z));
    if ax >= ay && ax >= az {
        ax
    } else if ay >= az {
        ay
    } else {
        az
    }
}

/// Dominant-axis pose: none below the threshold; otherwise the first
/// axis (X, then Y, then Z) whose magnitude is the largest, by its sign.
pub open spec fn spec_classify(x: int, y: int, z: int) -> Option<Orientation> {
    let d = dominant(x, y, z);
    if d < DOMINANT_AXIS_THRESHOLD_LSB {
        None
    } else if abs_int(x) == d {
        Some(if x < 0 { Orientation::Portrait0 } else { Orientation::Portrait180 })
    } else if abs_int(y) == d {
        Some(if y < 0 { Orientation::Landscape180 } else { Orientation::Landscape0 })
    } else if z > 0 {
        Some(Orientation::FaceUp)
    } else {
        Some(Orientation::FaceDown)
    }
}

/// Classifies orientation from a raw accelerometer sample. Returns `None`
/// when no axis reaches [`DOMINANT_AXIS_THRESHOLD_LSB`].
pub fn classify(x: i16, y: i16, z: i16) -> (o: Option<Orientation>)
    ensures
        o == spec_classify(x as int, y as int, z as int),
{
    let (x, y, z) = (x as i32, y as i32, z as i32);
    let ax: i32 = if x < 0 { -x } else { x };
    let ay: i32 = if y < 0 { -y } else { y };
    let az: i32 = if z < 0 { -z } else { z };
    let mut dom: i32 = ax;
    if ay > dom {
        dom = ay;
    }
    if az > dom {
        dom = az;
    }
    if dom < DOMINANT_AXIS_THRESHOLD_LSB {
        return None;
    }
    Some(if ax == dom {
        if x < 0 {
            Orientation::Portrait0
        } else {
            Orientation::Portrait180
        }
    } else if ay == dom {
        if y < 0 {
            Orientation::Landscape180
        } else {
            Orientation::Landscape0
        }
    } else if z > 0 {
        Orientation::FaceUp
    } else {
        Orientation::FaceDown
    })
}

/// Every pose classify can return that is not flat has a page rotation,
/// and the flat ones have none.
pub proof fn law_classified_page(x: int, y: int, z: int)
    ensures
        spec_classify(x, y, z) matches Some(o) ==> (spec_page_rotation(o) is None <==> (o
            == Orientation::FaceUp || o == Orientation::FaceDown)),
{
}

/// A register write to the BMI270: register, then value.
pub open spec fn imu_write(reg: u8, val: u8) -> I2cRequest {
    I2cRequest::Write(ADDRESS, seq![reg, val])
}

/// Soft-resets the BMI270 (`CMD` ← `0xB6`). Wait ≥2 ms, then
/// [`disable_adv_power_save`].
pub fn soft_reset<B: I2cBus>(i2c: &mut I2cDevice<B>) -> (r: Result<(), B::Error>)
    ensures
        final(i2c).spec_address() == old(i2c).spec_address(),
        final(i2c).events() == old(i2c).events().push(
            Event { request: imu_write(CMD, CMD_SOFTRESET), ok: r is Ok, data: Seq::empty() },
        ),
{
    let bytes = [CMD, CMD_SOFTRESET];
    assert(bytes@ =~= seq![CMD, CMD_SOFTRESET]);
    i2c.write_to(ADDRESS, &bytes)
}

/// Clears `PWR_CONF.adv_power_save` (`PWR_CONF` ← `0x00`). Wait ≥450 µs
/// before [`load_config`].
pub fn disable_adv_power_save<B: I2cBus>(i2c: &mut I2cDevice<B>) -> (r: Result<(), B::Error>)
    ensures
        final(i2c).spec_address() == old(i2c).spec_address(),
        final(i2c).events() == old(i2c).events().push(
            Event { request: imu_write(PWR_CONF, PWR_CONF_APS_OFF), ok: r is Ok, data: Seq::empty() },
        ),
{
    let bytes = [PWR_CONF, PWR_CONF_APS_OFF];
    assert(bytes@ =~= seq![PWR_CONF, PWR_CONF_APS_OFF]);
    i2c.write_to(ADDRESS, &bytes)
}

/// Number of [`CONFIG_CHUNK`]-byte bursts a config blob of `len` bytes
/// takes (the last one may be short).
pub open spec fn chunk_count(len: nat) -> nat {
    ((len + 15) / 16) as nat
}

/// Byte index of burst `k` in the blob, capped at the blob's end.
pub open spec fn chunk_start(len: nat, k: nat) -> nat {
    if 16 * k <= len { 16 * k } else { len }
}

/// `INIT_ADDR_0` / `INIT_ADDR_1` for the burst starting at byte `index`:
/// the 16-bit word address `index / 2`, low nibble, then the rest.
pub open spec fn init_addr(index: nat) -> (u8, u8) {
    let word = (index / 2) as u16;
    ((word & 0x0F) as u8, (word >> 4) as u8)
}

/// The two writes of burst `k`: its word address, then `INIT_DATA`
/// followed by its bytes.
pub open spec fn chunk_steps(config: Seq<u8>, k: nat) -> Seq<Step<I2cRequest>> {
    let start = chunk_start(config.len(), k);
    let end = chunk_start(config.len(), k + 1);
    let (a0, a1) = init_addr(start);
    seq![
        (I2cRequest::Write(ADDRESS, seq![INIT_ADDR_0, a0, a1]), true),
        (I2cRequest::Write(ADDRESS, seq![INIT_DATA] + config.subrange(start as int, end as int)), true),
    ]
}

/// The bursts `0..k`, in order.
pub open spec fn bursts(config: Seq<u8>, k: nat) -> Seq<Step<I2cRequest>>
    decreases k,
{
    if k == 0 {
        Seq::empty()
    } else {
        bursts(config, (k - 1) as nat) + chunk_steps(config, (k - 1) as nat)
    }
}

/// Config upload: `INIT_CTRL` ← 0, every burst, `INIT_CTRL` ← 1; every
/// write required.
pub open spec fn load_plan(config: Seq<u8>) -> Seq<Step<I2cRequest>> {
    seq![(imu_write(INIT_CTRL, 0x00), true)] + bursts(config, chunk_count(config.len()))
        + seq![(imu_write(INIT_CTRL, 0x01), true)]
}

proof fn lemma_bursts_len(config: Seq<u8>, k: nat)
    ensures
        bursts(config, k).len() == 2 * k,
    decreases k,
{
    if k > 0 {
        lemma_bursts_len(config, (k - 1) as nat);
    }
}

/// The bursts before `j` are a prefix of the bursts before `k`.
proof fn lemma_bursts_prefix(config: Seq<u8>, j: nat, k: nat)
    requires
        j <= k,
    ensures
        forall|i: int| 0 <= i < 2 * j ==> #[trigger] bursts(config, k)[i] == bursts(config, j)[i],
    decreases k - j,
{
    lemma_bursts_len(config, j);
    lemma_bursts_len(config, k);
    if j < k {
        lemma_bursts_prefix(config, j, (k - 1) as nat);
        lemma_bursts_len(config, (k - 1) as nat);
        assert forall|i: int| 0 <= i < 2 * j implies #[trigger] bursts(config, k)[i] == bursts(config, j)[i] by {
            assert(bursts(config, k)[i] == bursts(config, (k - 1) as nat)[i]);
        }
    }
}

/// Streams a config blob to the BMI270 in [`CONFIG_CHUNK`]-byte bursts
/// (`INIT_ADDR_*` word address, then `INIT_DATA`), between `INIT_CTRL` ← 0
/// and `INIT_CTRL` ← 1. Stops at the first failed write. Wait ≥20 ms,
/// then [`read_internal_status`].
#[verifier::rlimit(40)]
pub fn load_config<B: I2cBus>(i2c: &mut I2cDevice<B>, config: &[u8]) -> (r: Result<(), B::Error>)
    ensures
        final(i2c).spec_address() == old(i2c).spec_address(),
        ran(old(i2c).events(), final(i2c).events(), load_plan(config@)),
        r is Ok <==> completed(old(i2c).events(), final(i2c).events(), load_plan(config@)),
{
    let ghost base = i2c.events();
    let ghost plan = load_plan(config@);
    let n = config.len();
    let ghost nk = chunk_count(n as nat);
    proof {
        lemma_start(base, plan);
        lemma_bursts_len(config@, nk);
    }
    let first = [INIT_CTRL, 0x00];
    assert(first@ =~= seq![INIT_CTRL, 0x00u8]);
    i2c.write_step_to(ADDRESS, &first, Ghost(base), Ghost(plan))?;
    let mut index: usize = 0;
    let ghost mut k: nat = 0;
    while index < n
        invariant
            n == config@.len(),
            plan == load_plan(config@),
            nk == chunk_count(n as nat),
            plan.len() == 2 * nk + 2,
            k <= nk,
            index == chunk_start(n as nat, k),
            index < n <==> k < nk,
            i2c.events().len() == base.len() + 1 + 2 * k,
            on_track(base, i2c.events(), plan),
            i2c.spec_address() == old(i2c).spec_address(),
            base == old(i2c).events(),
        decreases n - index,
    {
        let end: usize = if n - index > CONFIG_CHUNK { index + CONFIG_CHUNK } else { n };
        proof {
            lemma_bursts_prefix(config@, k + 1, nk);
            lemma_bursts_len(config@, k);
            assert(end == chunk_start(n as nat, k + 1));
            assert(bursts(config@, k + 1)[2 * k as int] == chunk_steps(config@, k)[0]);
            assert(bursts(config@, k + 1)[2 * k + 1int] == chunk_steps(config@, k)[1]);
            assert(plan[1 + 2 * k as int] == bursts(config@, nk)[2 * k as int]);
            assert(plan[2 + 2 * k as int] == bursts(config@, nk)[2 * k + 1int]);
        }
        let word = (index / 2) as u16;
        let addr = [INIT_ADDR_0, (word & 0x0F) as u8, (word >> 4) as u8];
        assert(addr@ =~= seq![INIT_ADDR_0, init_addr(index as nat).0, init_addr(index as nat).1]);
        i2c.write_step_to(ADDRESS, &addr, Ghost(base), Ghost(plan))?;
        let mut buf: Vec<u8> = Vec::new();
        buf.push(INIT_DATA);
        let mut i: usize = index;
        while i < end
            invariant
                index <= i <= end,
                end <= config@.len(),
                buf@ == seq![INIT_DATA] + config@.subrange(index as int, i as int),
            decreases end - i,
        {
            buf.push(config[i]);
            i += 1;
            assert(buf@ =~= seq![INIT_DATA] + config@.subrange(index as int, i as int));
        }
        i2c.write_step_to(ADDRESS, buf.as_slice(), Ghost(base), Ghost(plan))?;
        index = end;
        proof {
            k = k + 1;
        }
    }
    assert(k == nk);
    let last = [INIT_CTRL, 0x01];
    assert(last@ =~= seq![INIT_CTRL, 0x01u8]);
    i2c.write_step_to(ADDRESS, &last, Ghost(base), Ghost(plan))
}

/// Reads `INTERNAL_STATUS`; bit 0 set means the config was accepted.
pub fn read_internal_status<B: I2cBus>(i2c: &mut I2cDevice<B>) -> (r: Result<u8, B::Error>)
    ensures
        final(i2c).spec_address() == old(i2c).spec_address(),
        final(i2c).events().drop_last() == old(i2c).events(),
        final(i2c).events().len() == old(i2c).events().len() + 1,
        final(i2c).events().last().request == I2cRequest::WriteRead(ADDRESS, seq![INTERNAL_STATUS], 1),
        final(i2c).events().last().ok == r is Ok,
        r matches Ok(v) ==> final(i2c).events().last().data == seq![v],
{
    let sel = [INTERNAL_STATUS];
    assert(sel@ =~= seq![INTERNAL_STATUS]);
    let mut status = [0u8];
    let ghost log = i2c.events();
    let res = i2c.write_read_to(ADDRESS, &sel, &mut status);
    assert(i2c.events().drop_last() =~= log);
    match res {
        Ok(()) => {
            assert(status@ =~= seq![status[0]]);
            Ok(status[0])
        },
        Err(e) => Err(e),
    }
}

/// Accel setup: APS off, normal filter at ~100 Hz, ±2 g, then
/// `PWR_CTRL.acc_en`; every write required.
pub open spec fn accel_plan() -> Seq<Step<I2cRequest>> {
    seq![
        (imu_write(PWR_CONF, PWR_CONF_APS_OFF), true),
        (imu_write(ACC_CONF, ACC_CONF_NORMAL_100HZ), true),
        (imu_write(ACC_RANGE, ACC_RANGE_2G), true),
        (imu_write(PWR_CTRL, PWR_CTRL_ACC_EN), true),
    ]
}

/// Configures ±2 g accel at ~100 Hz and sets `PWR_CTRL.acc_en`; stops at
/// the first failed write.
pub fn enable_accel_sampling<B: I2cBus>(i2c: &mut I2cDevice<B>) -> (r: Result<(), B::Error>)
    ensures
        final(i2c).spec_address() == old(i2c).spec_address(),
        ran(old(i2c).events(), final(i2c).events(), accel_plan()),
        r is Ok <==> completed(old(i2c).events(), final(i2c).events(), accel_plan()),
{
    let ghost base = i2c.events();
    let ghost plan = accel_plan();
    proof {
        lemma_start(base, plan);
    }
    let w0 = [PWR_CONF, PWR_CONF_APS_OFF];
    assert(w0@ =~= seq![PWR_CONF, PWR_CONF_APS_OFF]);
    i2c.write_step_to(ADDRESS, &w0, Ghost(base), Ghost(plan))?;
    let w1 = [ACC_CONF, ACC_CONF_NORMAL_100HZ];
    assert(w1@ =~= seq![ACC_CONF, ACC_CONF_NORMAL_100HZ]);
    i2c.write_step_to(ADDRESS, &w1, Ghost(base), Ghost(plan))?;
    let w2 = [ACC_RANGE, ACC_RANGE_2G];
    assert(w2@ =~= seq![ACC_RANGE, ACC_RANGE_2G]);
    i2c.write_step_to(ADDRESS, &w2, Ghost(base), Ghost(plan))?;
    let w3 = [PWR_CTRL, PWR_CTRL_ACC_EN];
    assert(w3@ =~= seq![PWR_CTRL, PWR_CTRL_ACC_EN]);
    i2c.write_step_to(ADDRESS, &w3, Ghost(base), Ghost(plan))
}

/// Little-endian signed 16-bit value of two bytes.
pub open spec fn le_i16(lo: u8, hi: u8) -> i16 {
    ((hi as u16) * 256 + (lo as u16)) as i16
}

/// Sample decoded from `DATA_8`…`DATA_13`: X, Y, Z, each little-endian.
pub open spec fn decode_accel(raw: Seq<u8>) -> AccelSample {
    AccelSample { x: le_i16(raw[0], raw[1]), y: le_i16(raw[2], raw[3]), z: le_i16(raw[4], raw[5]) }
}

fn le16(lo: u8, hi: u8) -> (v: i16)
    ensures
        v == le_i16(lo, hi),
{
    let u: u16 = (hi as u16) * 256 + (lo as u16);
    u as i16
}

/// Reads one accel sample (`DATA_8`…`DATA_13` in one write-read).
pub fn read_accel<B: I2cBus>(i2c: &mut I2cDevice<B>) -> (r: Result<AccelSample, B::Error>)
    ensures
        final(i2c).spec_address() == old(i2c).spec_address(),
        final(i2c).events().drop_last() == old(i2c).events(),
        final(i2c).events().len() == old(i2c).events().len() + 1,
        final(i2c).events().last().request == I2cRequest::WriteRead(ADDRESS, seq![DATA_8], 6),
        final(i2c).events().last().ok == r is Ok,
        final(i2c).events().last().data.len() == 6,
        r matches Ok(s) ==> s == decode_accel(final(i2c).events().last().data),
{
    let sel = [DATA_8];
    assert(sel@ =~= seq![DATA_8]);
    let mut raw = [0u8; 6];
    let ghost log = i2c.events();
    let res = i2c.write_read_to(ADDRESS, &sel, &mut raw);
    assert(i2c.events().drop_last() =~= log);
    match res {
        Ok(()) => Ok(AccelSample { x: le16(raw[0], raw[1]), y: le16(raw[2], raw[3]), z: le16(raw[4], raw[5]) }),
        Err(e) => Err(e),
    }
}

} // verus!
