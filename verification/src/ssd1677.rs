//! SSD1677 panel-OTP command traffic (PaperMono OTP-Demo sequences).
//!
//! Catalog id `ssd1677`, Rev 1.0 Table 7-1 Command Table and section 8
//! windowing. No MCU look-up table (`0x32`) is ever sent: refreshes use
//! the panel's built-in waveforms ([`OtpRefresh`]).

use vstd::prelude::*;
use crate::bus::{SpiBus, OutputPin, SpiLog, SpiRequest, PinId, Event, Step, on_track, ran, completed, stopped, lemma_start, lemma_step};

verus! {

/// Controller RAM X extent.
pub const OTP_RAM_WIDTH: u16 = 800;
/// Controller RAM Y extent.
pub const OTP_RAM_HEIGHT: u16 = 480;
/// Bytes per row at [`OTP_RAM_WIDTH`] (`800 / 8`).
pub const OTP_BYTES_PER_ROW: usize = 100;
/// Bytes in one RAM plane (`800×480/8`).
pub const OTP_PLANE_BYTES: usize = 48000;
/// Sheet cap for the write `fSCL`.
pub const WRITE_FSCL_MAX_HZ: u32 = 20_000_000;
/// SPI clock the OTP sequences run at.
pub const OTP_SPI_HZ: u32 = 20_000_000;
/// BUSY wait timeout (ms).
pub const OTP_BUSY_TIMEOUT_MS: u64 = 15_000;
/// Delay after [`DEEP_SLEEP`] (ms).
pub const OTP_SLEEP_MS: u64 = 100;

/// Software Reset.
pub const SW_RESET: u8 = 0x12;
/// Data Entry Mode Setting (11h).
pub const DATA_ENTRY_MODE: u8 = 0x11;
/// X increment and Y increment.
pub const DATA_ENTRY_XY_INC: u8 = 0x03;
/// 4-gray: X decrement, Y increment.
pub const DATA_ENTRY_XDEC_YINC: u8 = 0x02;
/// Booster Soft Start (0Ch).
pub const BOOSTER_SOFT_START: u8 = 0x0C;
/// Booster payload of the OTP init sequences.
pub const BOOSTER_SOFT_START_OTP: [u8; 5] = [0xAE, 0xC7, 0xC3, 0xC0, 0x80];
/// Driver Output Control (01h).
pub const DRIVER_OUTPUT: u8 = 0x01;
/// 480 gate outputs (`0x01DF`) plus GD/SM/TB byte `0x02`.
pub const DRIVER_OUTPUT_480_GATES: [u8; 3] = [0xDF, 0x01, 0x02];
/// Border Waveform Control (3Ch).
pub const BORDER_WAVEFORM: u8 = 0x3C;
/// Full-refresh border.
pub const BORDER_OTP_FULL: u8 = 0x01;
/// Partial-update border (float).
pub const BORDER_OTP_PARTIAL: u8 = 0x80;
/// Temperature Sensor Control (18h).
pub const TEMP_SENSOR: u8 = 0x18;
/// Internal temperature sensor.
pub const TEMP_SENSOR_INTERNAL: u8 = 0x80;
/// Temperature value register (1Ah).
pub const TEMP_VALUE: u8 = 0x1A;
/// 4-gray temperature value.
pub const TEMP_VALUE_GRAY_OTP: u8 = 0x5A;
/// Set RAM X window (44h).
pub const RAM_X_WINDOW: u8 = 0x44;
/// Set RAM Y window (45h).
pub const RAM_Y_WINDOW: u8 = 0x45;
/// Set RAM X address counter (4Eh).
pub const RAM_X_COUNTER: u8 = 0x4E;
/// Set RAM Y address counter (4Fh).
pub const RAM_Y_COUNTER: u8 = 0x4F;
/// Write RAM (Black White).
pub const WRITE_RAM_BW: u8 = 0x24;
/// Write RAM (RED).
pub const WRITE_RAM_RED: u8 = 0x26;
/// Display Update Control 2.
pub const DISPLAY_UPDATE_CONTROL_2: u8 = 0x22;
/// Datasheet Mode 1 parameter. Not an OTP sequence.
pub const UPDATE_SEQ_OTP_MODE1: u8 = 0xC7;
/// 4-gray full refresh.
pub const UPDATE_SEQ_OTP_4GRAY: u8 = 0xD7;
/// Display Update Control 1 (21h).
pub const DISPLAY_UPDATE_CONTROL_1: u8 = 0x21;
/// Normal RAM display mode.
pub const DISPLAY_CTRL1_NORMAL: u8 = 0x00;
/// Partial refresh.
pub const UPDATE_SEQ_OTP_PARTIAL: u8 = 0xFF;
/// Mono full refresh: invert sync.
pub const UPDATE_SEQ_OTP_MONO_SYNC: u8 = 0xF8;
/// Mono full refresh: Mode 1 on both planes.
pub const UPDATE_SEQ_OTP_MONO: u8 = 0x14;
/// Master Activation.
pub const MASTER_ACTIVATION: u8 = 0x20;
/// Deep Sleep Mode (10h).
pub const DEEP_SLEEP: u8 = 0x10;
/// Deep Sleep Mode 1. Leave with a hardware reset.
pub const DEEP_SLEEP_MODE1: u8 = 0x01;

/// `panel mode=` title for [`OtpRefresh::GrayFull`].
pub const OTP_GRAY_TITLE: &'static str = "otp_gray";
/// `panel mode=` title for [`OtpRefresh::MonoFull`].
pub const OTP_MONO_TITLE: &'static str = "otp_mono";
/// `panel mode=` title for [`OtpRefresh::Partial`].
pub const OTP_PARTIAL_TITLE: &'static str = "otp_partial";

/// Tone: black.
pub const GRAY_BLACK: u8 = 0;
/// Tone: dark gray.
pub const GRAY_DARK: u8 = 1;
/// Tone: light gray.
pub const GRAY_LIGHT: u8 = 2;
/// Tone: white.
pub const GRAY_WHITE: u8 = 3;

/// Built-in panel refresh the firmware should call.
#[derive(Debug, Clone, Copy, PartialEq, Eq, Structural)]
pub enum OtpRefresh {
    /// 4-gray full. `0xD7`. Both planes. Invalidates the mono baseline.
    GrayFull,
    /// Mono full. Invert-sync `0xF8`, then Mode 1 `0x14` on both planes.
    MonoFull,
    /// Partial. `0xFF`. RAM 1 only. Requires a mono baseline.
    Partial,
}

/// `panel mode=` title of a refresh.
pub open spec fn otp_title(r: OtpRefresh) -> &'static str {
    match r {
        OtpRefresh::GrayFull => OTP_GRAY_TITLE,
        OtpRefresh::MonoFull => OTP_MONO_TITLE,
        OtpRefresh::Partial => OTP_PARTIAL_TITLE,
    }
}

/// `0x22` payload bytes of a refresh, one activation each.
pub open spec fn otp_update_seq(r: OtpRefresh) -> Seq<u8> {
    match r {
        OtpRefresh::GrayFull => seq![UPDATE_SEQ_OTP_4GRAY],
        OtpRefresh::MonoFull => seq![UPDATE_SEQ_OTP_MONO_SYNC, UPDATE_SEQ_OTP_MONO],
        OtpRefresh::Partial => seq![UPDATE_SEQ_OTP_PARTIAL],
    }
}

impl OtpRefresh {
    /// `panel mode=` title for this sequence.
    pub fn title(self) -> (s: &'static str)
        ensures
            s == otp_title(self),
    {
        match self {
            OtpRefresh::GrayFull => OTP_GRAY_TITLE,
            OtpRefresh::MonoFull => OTP_MONO_TITLE,
            OtpRefresh::Partial => OTP_PARTIAL_TITLE,
        }
    }

    /// `0x22` payload. [`OtpRefresh::MonoFull`] is two activations.
    pub fn update_seq(self) -> (s: &'static [u8])
        ensures
            s@ == otp_update_seq(self),
    {
        match self {
            OtpRefresh::GrayFull => &[UPDATE_SEQ_OTP_4GRAY],
            OtpRefresh::MonoFull => &[UPDATE_SEQ_OTP_MONO_SYNC, UPDATE_SEQ_OTP_MONO],
            OtpRefresh::Partial => &[UPDATE_SEQ_OTP_PARTIAL],
        }
    }

    /// `0xFF` is legal only after a mono RAM baseline.
    pub fn requires_mono_baseline(self) -> (b: bool)
        ensures
            b <==> self == OtpRefresh::Partial,
    {
        matches!(self, OtpRefresh::Partial)
    }

    /// `0xD7` drops the mono baseline.
    pub fn invalidates_mono_baseline(self) -> (b: bool)
        ensures
            b <==> self == OtpRefresh::GrayFull,
    {
        matches!(self, OtpRefresh::GrayFull)
    }

    /// `0xF8` then `0x14` restores the mono baseline.
    pub fn rebuilds_mono_baseline(self) -> (b: bool)
        ensures
            b <==> self == OtpRefresh::MonoFull,
    {
        matches!(self, OtpRefresh::MonoFull)
    }
}

/// Four-gray plane bits of a tone (low two bits): white clears both
/// planes, light sets plane 1, dark sets plane 2, black sets both.
pub open spec fn spec_gray_planes(tone: u8) -> (bool, bool) {
    let t = tone % 4;
    if t == GRAY_WHITE {
        (false, false)
    } else if t == GRAY_LIGHT {
        (true, false)
    } else if t == GRAY_DARK {
        (false, true)
    } else {
        (true, true)
    }
}

/// Four-gray bits: `(plane1 0x24, plane2 0x26)`.
pub fn gray_planes(tone: u8) -> (p: (bool, bool))
    ensures
        p == spec_gray_planes(tone),
{
    let t = tone % 4;
    if t == GRAY_WHITE {
        (false, false)
    } else if t == GRAY_LIGHT {
        (true, false)
    } else if t == GRAY_DARK {
        (false, true)
    } else {
        (true, true)
    }
}

/// The two data bytes of a RAM address: low byte, then high byte.
pub open spec fn spec_ram_addr10(value: u16) -> Seq<u8> {
    seq![(value % 256) as u8, (value / 256) as u8]
}

/// Split a 10-bit RAM address into the two data bytes Table 8-5 expects.
pub fn ram_addr10(value: u16) -> (b: [u8; 2])
    ensures
        b@ == spec_ram_addr10(value),
{
    [(value % 256) as u8, (value / 256) as u8]
}

/// Pin or SPI error of [`Ssd1677`].
#[derive(Debug)]
pub enum Error<S, D, C> {
    /// SPI write failed.
    Spi(S),
    /// DC pin failed.
    Dc(D),
    /// CS pin failed.
    Cs(C),
}

/// The error names the kind of operation that failed.
pub open spec fn error_from<S, D, C>(e: Error<S, D, C>, req: SpiRequest) -> bool {
    match e {
        Error::Spi(_) => req is Write,
        Error::Dc(_) => req matches SpiRequest::Drive(PinId::Dc, _),
        Error::Cs(_) => req matches SpiRequest::Drive(PinId::Cs, _),
    }
}

/// One command: CS low, DC low, the opcode; if there is data, DC high
/// and the data; CS high. Every step must succeed.
pub open spec fn cmd_plan(opcode: u8, data: Seq<u8>) -> Seq<Step<SpiRequest>> {
    seq![
        (SpiRequest::Drive(PinId::Cs, false), true),
        (SpiRequest::Drive(PinId::Dc, false), true),
        (SpiRequest::Write(seq![opcode]), true),
    ] + if data.len() > 0 {
        seq![(SpiRequest::Drive(PinId::Dc, true), true), (SpiRequest::Write(data), true)]
    } else {
        Seq::empty()
    } + seq![(SpiRequest::Drive(PinId::Cs, true), true)]
}

/// Opening of a RAM transfer: CS low, DC low, the RAM opcode, DC high.
pub open spec fn begin_ram_plan(ram_cmd: u8) -> Seq<Step<SpiRequest>> {
    seq![
        (SpiRequest::Drive(PinId::Cs, false), true),
        (SpiRequest::Drive(PinId::Dc, false), true),
        (SpiRequest::Write(seq![ram_cmd]), true),
        (SpiRequest::Drive(PinId::Dc, true), true),
    ]
}

/// RAM X address of the last column (799), as its two data bytes.
pub open spec fn x_last() -> Seq<u8> {
    spec_ram_addr10(799)
}

/// RAM Y address of the last row (479), as its two data bytes.
pub open spec fn y_last() -> Seq<u8> {
    spec_ram_addr10(479)
}

/// The 4-gray initialization: booster, 480 gates, X-decrement entry,
/// X window 799..0, Y window 0..479, counters at X 799 / Y 0, full
/// border, internal temperature sensor, 4-gray temperature value.
pub open spec fn init_gray_plan() -> Seq<Step<SpiRequest>> {
    cmd_plan(BOOSTER_SOFT_START, BOOSTER_SOFT_START_OTP@)
        + cmd_plan(DRIVER_OUTPUT, DRIVER_OUTPUT_480_GATES@)
        + cmd_plan(DATA_ENTRY_MODE, seq![DATA_ENTRY_XDEC_YINC])
        + cmd_plan(RAM_X_WINDOW, seq![x_last()[0], x_last()[1], 0u8, 0u8])
        + cmd_plan(RAM_Y_WINDOW, seq![0u8, 0u8, y_last()[0], y_last()[1]])
        + cmd_plan(RAM_X_COUNTER, x_last())
        + cmd_plan(RAM_Y_COUNTER, seq![0u8, 0u8])
        + cmd_plan(BORDER_WAVEFORM, seq![BORDER_OTP_FULL])
        + cmd_plan(TEMP_SENSOR, seq![TEMP_SENSOR_INTERNAL])
        + cmd_plan(TEMP_VALUE, seq![TEMP_VALUE_GRAY_OTP])
}

/// Mono addressing: X/Y-increment entry, X window 0..799, Y window
/// 0..479, normal RAM display mode.
pub open spec fn mono_addressing_plan() -> Seq<Step<SpiRequest>> {
    cmd_plan(DATA_ENTRY_MODE, seq![DATA_ENTRY_XY_INC])
        + cmd_plan(RAM_X_WINDOW, seq![0u8, 0u8, x_last()[0], x_last()[1]])
        + cmd_plan(RAM_Y_WINDOW, seq![0u8, 0u8, y_last()[0], y_last()[1]])
        + cmd_plan(DISPLAY_UPDATE_CONTROL_1, seq![DISPLAY_CTRL1_NORMAL])
}

/// The mono initialization: booster, 480 gates, mono addressing, full
/// border, internal temperature sensor.
pub open spec fn init_mono_plan() -> Seq<Step<SpiRequest>> {
    cmd_plan(BOOSTER_SOFT_START, BOOSTER_SOFT_START_OTP@)
        + cmd_plan(DRIVER_OUTPUT, DRIVER_OUTPUT_480_GATES@)
        + mono_addressing_plan()
        + cmd_plan(BORDER_WAVEFORM, seq![BORDER_OTP_FULL])
        + cmd_plan(TEMP_SENSOR, seq![TEMP_SENSOR_INTERNAL])
}

/// SPI + DC + CS driver for the panel's OTP command traffic.
pub struct Ssd1677<SPI, DC, CS> {
    spi: SPI,
    dc: DC,
    cs: CS,
    log: Ghost<SpiLog>,
}

impl<SPI, DC, CS> Ssd1677<SPI, DC, CS> {
    /// The bus and pins the driver holds.
    pub closed spec fn spec_parts(&self) -> (SPI, DC, CS) {
        (self.spi, self.dc, self.cs)
    }

    /// Returns the bus and pins the driver holds.
    pub fn release(self) -> (r: (SPI, DC, CS))
        ensures
            r == self.spec_parts(),
    {
        (self.spi, self.dc, self.cs)
    }
}

impl<SPI: SpiBus, DC: OutputPin, CS: OutputPin> Ssd1677<SPI, DC, CS> {
    /// SPI and pin traffic issued so far, oldest first.
    pub closed spec fn events(&self) -> SpiLog {
        self.log@
    }

    /// Takes the bus and pins (CS should already be high). Nothing is sent.
    pub fn new(spi: SPI, dc: DC, cs: CS) -> (d: Self)
        ensures
            d.events() == Seq::<Event<SpiRequest>>::empty(),
            d.spec_parts() == (spi, dc, cs),
    {
        Ssd1677 { spi, dc, cs, log: Ghost(Seq::empty()) }
    }

    fn note(&mut self, req: Ghost<SpiRequest>, ok: bool)
        ensures
            final(self).events() == old(self).events().push(Event { request: req@, ok, data: Seq::empty() }),
    {
        self.log = Ghost(self.log@.push(Event { request: req@, ok, data: Seq::empty() }));
    }

    fn cs_step(&mut self, high: bool, Ghost(base): Ghost<SpiLog>, Ghost(plan): Ghost<Seq<Step<SpiRequest>>>) -> (r: Result<(), Error<SPI::Error, DC::Error, CS::Error>>)
        requires
            on_track(base, old(self).events(), plan),
            old(self).events().len() < base.len() + plan.len(),
            plan[old(self).events().len() - base.len()] == (SpiRequest::Drive(PinId::Cs, high), true),
        ensures
            final(self).events().drop_last() == old(self).events(),
            final(self).events().len() == old(self).events().len() + 1,
            r is Ok ==> on_track(base, final(self).events(), plan),
            r matches Err(e) ==> stopped(base, final(self).events(), plan) && e is Cs,
    {
        let res = if high { self.cs.set_high() } else { self.cs.set_low() };
        let ghost log = self.events();
        self.note(Ghost(SpiRequest::Drive(PinId::Cs, high)), res.is_ok());
        proof {
            lemma_step(base, log, plan, self.events().last());
            assert(self.events().drop_last() =~= log);
        }
        match res {
            Ok(()) => Ok(()),
            Err(e) => Err(Error::Cs(e)),
        }
    }

    fn dc_step(&mut self, high: bool, Ghost(base): Ghost<SpiLog>, Ghost(plan): Ghost<Seq<Step<SpiRequest>>>) -> (r: Result<(), Error<SPI::Error, DC::Error, CS::Error>>)
        requires
            on_track(base, old(self).events(), plan),
            old(self).events().len() < base.len() + plan.len(),
            plan[old(self).events().len() - base.len()] == (SpiRequest::Drive(PinId::Dc, high), true),
        ensures
            final(self).events().drop_last() == old(self).events(),
            final(self).events().len() == old(self).events().len() + 1,
            r is Ok ==> on_track(base, final(self).events(), plan),
            r matches Err(e) ==> stopped(base, final(self).events(), plan) && e is Dc,
    {
        let res = if high { self.dc.set_high() } else { self.dc.set_low() };
        let ghost log = self.events();
        self.note(Ghost(SpiRequest::Drive(PinId::Dc, high)), res.is_ok());
        proof {
            lemma_step(base, log, plan, self.events().last());
            assert(self.events().drop_last() =~= log);
        }
        match res {
            Ok(()) => Ok(()),
            Err(e) => Err(Error::Dc(e)),
        }
    }

    fn spi_step(&mut self, bytes: &[u8], Ghost(base): Ghost<SpiLog>, Ghost(plan): Ghost<Seq<Step<SpiRequest>>>) -> (r: Result<(), Error<SPI::Error, DC::Error, CS::Error>>)
        requires
            on_track(base, old(self).events(), plan),
            old(self).events().len() < base.len() + plan.len(),
            plan[old(self).events().len() - base.len()] == (SpiRequest::Write(bytes@), true),
        ensures
            final(self).events().drop_last() == old(self).events(),
            final(self).events().len() == old(self).events().len() + 1,
            r is Ok ==> on_track(base, final(self).events(), plan),
            r matches Err(e) ==> stopped(base, final(self).events(), plan) && e is Spi,
    {
        let res = self.spi.write(bytes);
        let ghost log = self.events();
        self.note(Ghost(SpiRequest::Write(bytes@)), res.is_ok());
        proof {
            lemma_step(base, log, plan, self.events().last());
            assert(self.events().drop_last() =~= log);
        }
        match res {
            Ok(()) => Ok(()),
            Err(e) => Err(Error::Spi(e)),
        }
    }

    fn cmd_step(&mut self, opcode: u8, data: &[u8], Ghost(base): Ghost<SpiLog>, Ghost(plan): Ghost<Seq<Step<SpiRequest>>>) -> (r: Result<(), Error<SPI::Error, DC::Error, CS::Error>>)
        requires
            on_track(base, old(self).events(), plan),
            old(self).events().len() + cmd_plan(opcode, data@).len() <= base.len() + plan.len(),
            forall|i: int| 0 <= i < cmd_plan(opcode, data@).len() ==> plan[old(self).events().len() - base.len() + i] == cmd_plan(opcode, data@)[i],
        ensures
            old(self).events().is_prefix_of(final(self).events()),
            r is Ok ==> on_track(base, final(self).events(), plan) && final(self).events().len() == old(self).events().len() + cmd_plan(opcode, data@).len(),
            r matches Err(e) ==> stopped(base, final(self).events(), plan) && error_from(e, final(self).events().last().request),
    {
        let ghost l0 = self.events();
        let ghost k = l0.len() - base.len();
        let ghost c = cmd_plan(opcode, data@);
        assert(plan[k] == c[0]);
        assert(plan[k + 1] == c[1]);
        assert(plan[k + 2] == c[2]);
        let op = [opcode];
        assert(op@ =~= seq![opcode]);
        let r = self.cmd_body(&op, data, Ghost(base), Ghost(plan));
        r
    }

    fn cmd_body(&mut self, op: &[u8], data: &[u8], Ghost(base): Ghost<SpiLog>, Ghost(plan): Ghost<Seq<Step<SpiRequest>>>) -> (r: Result<(), Error<SPI::Error, DC::Error, CS::Error>>)
        requires
            op@.len() == 1,
            on_track(base, old(self).events(), plan),
            old(self).events().len() + cmd_plan(op@[0], data@).len() <= base.len() + plan.len(),
            forall|i: int| 0 <= i < cmd_plan(op@[0], data@).len() ==> plan[old(self).events().len() - base.len() + i] == cmd_plan(op@[0], data@)[i],
        ensures
            old(self).events().is_prefix_of(final(self).events()),
            r is Ok ==> on_track(base, final(self).events(), plan) && final(self).events().len() == old(self).events().len() + cmd_plan(op@[0], data@).len(),
            r matches Err(e) ==> stopped(base, final(self).events(), plan) && error_from(e, final(self).events().last().request),
    {
        let ghost l0 = self.events();
        let ghost k = l0.len() - base.len();
        let ghost c = cmd_plan(op@[0], data@);
        assert(op@ =~= seq![op@[0]]);
        assert(plan[k] == c[0]);
        self.cs_step(false, Ghost(base), Ghost(plan))?;
        let ghost l1 = self.events();
        assert(plan[k + 1] == c[1]);
        self.dc_step(false, Ghost(base), Ghost(plan))?;
        let ghost l2 = self.events();
        assert(plan[k + 2] == c[2]);
        self.spi_step(op, Ghost(base), Ghost(plan))?;
        let ghost l3 = self.events();
        if data.len() > 0 {
            assert(plan[k + 3] == c[3]);
            self.dc_step(true, Ghost(base), Ghost(plan))?;
            assert(plan[k + 4] == c[4]);
            self.spi_step(data, Ghost(base), Ghost(plan))?;
            assert(plan[k + 5] == c[5]);
        } else {
            assert(plan[k + 3] == c[3]);
        }
        let r = self.cs_step(true, Ghost(base), Ghost(plan));
        proof {
            let fin = self.events();
            assert(l0 =~= fin.subrange(0, l0.len() as int)) by {
                assert forall|i: int| 0 <= i < l0.len() implies l0[i] == fin[i] by {
                    assert(l1[i] == l0[i]);
                    assert(l2[i] == l0[i]);
                    assert(l3[i] == l0[i]);
                }
            }
        }
        r
    }

    /// Command byte, then the data bytes (if any), framed by CS.
    pub fn cmd(&mut self, opcode: u8, data: &[u8]) -> (r: Result<(), Error<SPI::Error, DC::Error, CS::Error>>)
        ensures
            ran(old(self).events(), final(self).events(), cmd_plan(opcode, data@)),
            r is Ok <==> completed(old(self).events(), final(self).events(), cmd_plan(opcode, data@)),
            r matches Err(e) ==> error_from(e, final(self).events().last().request),
    {
        let ghost base = self.events();
        let ghost plan = cmd_plan(opcode, data@);
        proof { lemma_start(base, plan); }
        self.cmd_step(opcode, data, Ghost(base), Ghost(plan))
    }

    /// Holds CS, sends a RAM write opcode, and leaves DC high for payload.
    pub fn begin_ram(&mut self, ram_cmd: u8) -> (r: Result<(), Error<SPI::Error, DC::Error, CS::Error>>)
        ensures
            ran(old(self).events(), final(self).events(), begin_ram_plan(ram_cmd)),
            r is Ok <==> completed(old(self).events(), final(self).events(), begin_ram_plan(ram_cmd)),
            r matches Err(e) ==> error_from(e, final(self).events().last().request),
    {
        let ghost base = self.events();
        let ghost plan = begin_ram_plan(ram_cmd);
        proof { lemma_start(base, plan); }
        self.cs_step(false, Ghost(base), Ghost(plan))?;
        self.dc_step(false, Ghost(base), Ghost(plan))?;
        let op = [ram_cmd];
        assert(op@ =~= seq![ram_cmd]);
        self.spi_step(&op, Ghost(base), Ghost(plan))?;
        self.dc_step(true, Ghost(base), Ghost(plan))
    }

    /// Writes bytes while a RAM transfer is open.
    pub fn write_bytes(&mut self, data: &[u8]) -> (r: Result<(), Error<SPI::Error, DC::Error, CS::Error>>)
        ensures
            ran(old(self).events(), final(self).events(), seq![(SpiRequest::Write(data@), true)]),
            r is Ok <==> completed(old(self).events(), final(self).events(), seq![(SpiRequest::Write(data@), true)]),
            r matches Err(e) ==> error_from(e, final(self).events().last().request),
    {
        let ghost base = self.events();
        let ghost plan = seq![(SpiRequest::Write(data@), true)];
        proof { lemma_start(base, plan); }
        self.spi_step(data, Ghost(base), Ghost(plan))
    }

    /// Releases CS after [`Ssd1677::begin_ram`].
    pub fn end_ram(&mut self) -> (r: Result<(), Error<SPI::Error, DC::Error, CS::Error>>)
        ensures
            ran(old(self).events(), final(self).events(), seq![(SpiRequest::Drive(PinId::Cs, true), true)]),
            r is Ok <==> completed(old(self).events(), final(self).events(), seq![(SpiRequest::Drive(PinId::Cs, true), true)]),
            r matches Err(e) ==> error_from(e, final(self).events().last().request),
    {
        let ghost base = self.events();
        let ghost plan = seq![(SpiRequest::Drive(PinId::Cs, true), true)];
        proof { lemma_start(base, plan); }
        self.cs_step(true, Ghost(base), Ghost(plan))
    }

    /// Master Activation.
    pub fn activate(&mut self) -> (r: Result<(), Error<SPI::Error, DC::Error, CS::Error>>)
        ensures
            ran(old(self).events(), final(self).events(), cmd_plan(MASTER_ACTIVATION, Seq::empty())),
            r is Ok <==> completed(old(self).events(), final(self).events(), cmd_plan(MASTER_ACTIVATION, Seq::empty())),
            r matches Err(e) ==> error_from(e, final(self).events().last().request),
    {
        let ghost base = self.events();
        let ghost plan = cmd_plan(MASTER_ACTIVATION, Seq::empty());
        proof { lemma_start(base, plan); }
        let none: [u8; 0] = [];
        assert(none@ =~= Seq::<u8>::empty());
        self.cmd_step(MASTER_ACTIVATION, &none, Ghost(base), Ghost(plan))
    }

    /// 4-gray initialization commands (no reset wait).
    pub fn init_gray(&mut self) -> (r: Result<(), Error<SPI::Error, DC::Error, CS::Error>>)
        ensures
            ran(old(self).events(), final(self).events(), init_gray_plan()),
            r is Ok <==> completed(old(self).events(), final(self).events(), init_gray_plan()),
            r matches Err(e) ==> error_from(e, final(self).events().last().request),
    {
        let ghost base = self.events();
        let ghost plan = init_gray_plan();
        proof { lemma_start(base, plan); }
        let x0 = ram_addr10(OTP_RAM_WIDTH - 1);
        let y_end = ram_addr10(OTP_RAM_HEIGHT - 1);
        self.cmd_step(BOOSTER_SOFT_START, &BOOSTER_SOFT_START_OTP, Ghost(base), Ghost(plan))?;
        self.cmd_step(DRIVER_OUTPUT, &DRIVER_OUTPUT_480_GATES, Ghost(base), Ghost(plan))?;
        let d = [DATA_ENTRY_XDEC_YINC];
        assert(d@ =~= seq![DATA_ENTRY_XDEC_YINC]);
        self.cmd_step(DATA_ENTRY_MODE, &d, Ghost(base), Ghost(plan))?;
        let xw = [x0[0], x0[1], 0, 0];
        assert(xw@ =~= seq![x_last()[0], x_last()[1], 0u8, 0u8]);
        self.cmd_step(RAM_X_WINDOW, &xw, Ghost(base), Ghost(plan))?;
        let yw = [0, 0, y_end[0], y_end[1]];
        assert(yw@ =~= seq![0u8, 0u8, y_last()[0], y_last()[1]]);
        self.cmd_step(RAM_Y_WINDOW, &yw, Ghost(base), Ghost(plan))?;
        self.cmd_step(RAM_X_COUNTER, &x0, Ghost(base), Ghost(plan))?;
        let z = [0, 0];
        assert(z@ =~= seq![0u8, 0u8]);
        self.cmd_step(RAM_Y_COUNTER, &z, Ghost(base), Ghost(plan))?;
        let bw = [BORDER_OTP_FULL];
        assert(bw@ =~= seq![BORDER_OTP_FULL]);
        self.cmd_step(BORDER_WAVEFORM, &bw, Ghost(base), Ghost(plan))?;
        let ts = [TEMP_SENSOR_INTERNAL];
        assert(ts@ =~= seq![TEMP_SENSOR_INTERNAL]);
        self.cmd_step(TEMP_SENSOR, &ts, Ghost(base), Ghost(plan))?;
        let tv = [TEMP_VALUE_GRAY_OTP];
        assert(tv@ =~= seq![TEMP_VALUE_GRAY_OTP]);
        self.cmd_step(TEMP_VALUE, &tv, Ghost(base), Ghost(plan))
    }

    fn mono_addressing_step(&mut self, Ghost(base): Ghost<SpiLog>, Ghost(plan): Ghost<Seq<Step<SpiRequest>>>) -> (r: Result<(), Error<SPI::Error, DC::Error, CS::Error>>)
        requires
            on_track(base, old(self).events(), plan),
            old(self).events().len() + mono_addressing_plan().len() <= base.len() + plan.len(),
            forall|i: int| 0 <= i < mono_addressing_plan().len() ==> plan[old(self).events().len() - base.len() + i] == mono_addressing_plan()[i],
        ensures
            old(self).events().is_prefix_of(final(self).events()),
            r is Ok ==> on_track(base, final(self).events(), plan) && final(self).events().len() == old(self).events().len() + mono_addressing_plan().len(),
            r matches Err(e) ==> stopped(base, final(self).events(), plan) && error_from(e, final(self).events().last().request),
    {
        let ghost l0 = self.events();
        let ghost k = l0.len() - base.len();
        let ghost m = mono_addressing_plan();
        let ghost c1 = cmd_plan(DATA_ENTRY_MODE, seq![DATA_ENTRY_XY_INC]);
        let ghost c2 = cmd_plan(RAM_X_WINDOW, seq![0u8, 0u8, x_last()[0], x_last()[1]]);
        let ghost c3 = cmd_plan(RAM_Y_WINDOW, seq![0u8, 0u8, y_last()[0], y_last()[1]]);
        let ghost c4 = cmd_plan(DISPLAY_UPDATE_CONTROL_1, seq![DISPLAY_CTRL1_NORMAL]);
        assert(m == c1 + c2 + c3 + c4);
        let x_end = ram_addr10(OTP_RAM_WIDTH - 1);
        let y_end = ram_addr10(OTP_RAM_HEIGHT - 1);
        let d = [DATA_ENTRY_XY_INC];
        assert(d@ =~= seq![DATA_ENTRY_XY_INC]);
        assert forall|i: int| 0 <= i < c1.len() implies plan[k + i] == c1[i] by {
            assert(m[i] == c1[i]);
        }
        self.cmd_step(DATA_ENTRY_MODE, &d, Ghost(base), Ghost(plan))?;
        let ghost l1 = self.events();
        let xw = [0, 0, x_end[0], x_end[1]];
        assert(xw@ =~= seq![0u8, 0u8, x_last()[0], x_last()[1]]);
        assert forall|i: int| 0 <= i < c2.len() implies plan[k + c1.len() + i] == c2[i] by {
            assert(m[c1.len() + i] == c2[i]);
        }
        self.cmd_step(RAM_X_WINDOW, &xw, Ghost(base), Ghost(plan))?;
        let ghost l2 = self.events();
        let yw = [0, 0, y_end[0], y_end[1]];
        assert(yw@ =~= seq![0u8, 0u8, y_last()[0], y_last()[1]]);
        assert forall|i: int| 0 <= i < c3.len() implies plan[k + c1.len() + c2.len() + i] == c3[i] by {
            assert(m[c1.len() + c2.len() + i] == c3[i]);
        }
        self.cmd_step(RAM_Y_WINDOW, &yw, Ghost(base), Ghost(plan))?;
        let ghost l3 = self.events();
        let n = [DISPLAY_CTRL1_NORMAL];
        assert(n@ =~= seq![DISPLAY_CTRL1_NORMAL]);
        assert forall|i: int| 0 <= i < c4.len() implies plan[k + c1.len() + c2.len() + c3.len() + i] == c4[i] by {
            assert(m[c1.len() + c2.len() + c3.len() + i] == c4[i]);
        }
        let r = self.cmd_step(DISPLAY_UPDATE_CONTROL_1, &n, Ghost(base), Ghost(plan));
        proof {
            crate::bus::lemma_prefix_trans(l0, l1, l2);
            crate::bus::lemma_prefix_trans(l0, l2, l3);
            crate::bus::lemma_prefix_trans(l0, l3, self.events());
        }
        r
    }

    /// Mono RAM window and X/Y increment.
    pub fn apply_mono_addressing(&mut self) -> (r: Result<(), Error<SPI::Error, DC::Error, CS::Error>>)
        ensures
            ran(old(self).events(), final(self).events(), mono_addressing_plan()),
            r is Ok <==> completed(old(self).events(), final(self).events(), mono_addressing_plan()),
            r matches Err(e) ==> error_from(e, final(self).events().last().request),
    {
        let ghost base = self.events();
        let ghost plan = mono_addressing_plan();
        proof { lemma_start(base, plan); }
        self.mono_addressing_step(Ghost(base), Ghost(plan))
    }

    /// Mono initialization after a software reset.
    pub fn init_mono(&mut self) -> (r: Result<(), Error<SPI::Error, DC::Error, CS::Error>>)
        ensures
            ran(old(self).events(), final(self).events(), init_mono_plan()),
            r is Ok <==> completed(old(self).events(), final(self).events(), init_mono_plan()),
            r matches Err(e) ==> error_from(e, final(self).events().last().request),
    {
        let ghost base = self.events();
        let ghost plan = init_mono_plan();
        proof { lemma_start(base, plan); }
        self.cmd_step(BOOSTER_SOFT_START, &BOOSTER_SOFT_START_OTP, Ghost(base), Ghost(plan))?;
        self.cmd_step(DRIVER_OUTPUT, &DRIVER_OUTPUT_480_GATES, Ghost(base), Ghost(plan))?;
        self.mono_addressing_step(Ghost(base), Ghost(plan))?;
        let bw = [BORDER_OTP_FULL];
        assert(bw@ =~= seq![BORDER_OTP_FULL]);
        self.cmd_step(BORDER_WAVEFORM, &bw, Ghost(base), Ghost(plan))?;
        let ts = [TEMP_SENSOR_INTERNAL];
        assert(ts@ =~= seq![TEMP_SENSOR_INTERNAL]);
        self.cmd_step(TEMP_SENSOR, &ts, Ghost(base), Ghost(plan))
    }

    /// Deep Sleep Mode 1 (keeps RAM).
    pub fn deep_sleep_mode1(&mut self) -> (r: Result<(), Error<SPI::Error, DC::Error, CS::Error>>)
        ensures
            ran(old(self).events(), final(self).events(), cmd_plan(DEEP_SLEEP, seq![DEEP_SLEEP_MODE1])),
            r is Ok <==> completed(old(self).events(), final(self).events(), cmd_plan(DEEP_SLEEP, seq![DEEP_SLEEP_MODE1])),
            r matches Err(e) ==> error_from(e, final(self).events().last().request),
    {
        let ghost base = self.events();
        let ghost plan = cmd_plan(DEEP_SLEEP, seq![DEEP_SLEEP_MODE1]);
        proof { lemma_start(base, plan); }
        let m = [DEEP_SLEEP_MODE1];
        assert(m@ =~= seq![DEEP_SLEEP_MODE1]);
        self.cmd_step(DEEP_SLEEP, &m, Ghost(base), Ghost(plan))
    }

    /// RAM counters at the origin (XY increment).
    pub fn rewind(&mut self) -> (r: Result<(), Error<SPI::Error, DC::Error, CS::Error>>)
        ensures
            ran(old(self).events(), final(self).events(), cmd_plan(RAM_X_COUNTER, seq![0u8, 0u8]) + cmd_plan(RAM_Y_COUNTER, seq![0u8, 0u8])),
            r is Ok <==> completed(old(self).events(), final(self).events(), cmd_plan(RAM_X_COUNTER, seq![0u8, 0u8]) + cmd_plan(RAM_Y_COUNTER, seq![0u8, 0u8])),
            r matches Err(e) ==> error_from(e, final(self).events().last().request),
    {
        let ghost base = self.events();
        let ghost plan = cmd_plan(RAM_X_COUNTER, seq![0u8, 0u8]) + cmd_plan(RAM_Y_COUNTER, seq![0u8, 0u8]);
        proof { lemma_start(base, plan); }
        let z = [0, 0];
        assert(z@ =~= seq![0u8, 0u8]);
        self.cmd_step(RAM_X_COUNTER, &z, Ghost(base), Ghost(plan))?;
        self.cmd_step(RAM_Y_COUNTER, &z, Ghost(base), Ghost(plan))
    }

    /// RAM counters for X-decrement gray writes (X at the last column).
    pub fn rewind_gray(&mut self) -> (r: Result<(), Error<SPI::Error, DC::Error, CS::Error>>)
        ensures
            ran(old(self).events(), final(self).events(), cmd_plan(RAM_X_COUNTER, x_last()) + cmd_plan(RAM_Y_COUNTER, seq![0u8, 0u8])),
            r is Ok <==> completed(old(self).events(), final(self).events(), cmd_plan(RAM_X_COUNTER, x_last()) + cmd_plan(RAM_Y_COUNTER, seq![0u8, 0u8])),
            r matches Err(e) ==> error_from(e, final(self).events().last().request),
    {
        let ghost base = self.events();
        let ghost plan = cmd_plan(RAM_X_COUNTER, x_last()) + cmd_plan(RAM_Y_COUNTER, seq![0u8, 0u8]);
        proof { lemma_start(base, plan); }
        let x0 = ram_addr10(OTP_RAM_WIDTH - 1);
        self.cmd_step(RAM_X_COUNTER, &x0, Ghost(base), Ghost(plan))?;
        let z = [0, 0];
        assert(z@ =~= seq![0u8, 0u8]);
        self.cmd_step(RAM_Y_COUNTER, &z, Ghost(base), Ghost(plan))
    }
}

} // verus!
