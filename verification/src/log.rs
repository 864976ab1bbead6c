//! USB-Serial/JTAG snapshot lines for PaperMono proof-of-life images.
//!
//! The firmware owns pins; this module owns the **strings** it prints.
//! Every line starts with [`LOG_PREFIX`]. Kinds: `hello`, `git=`, `hb`,
//! `edge`, `gpio`, `leftover`, `i2c`, `touch`, `mic`, `pcm`, `panel`,
//! `scene=`, `lamp=`, `wifi`, `ble`, `charge`, `sleep`, `wake`,
//! `snowflake`. No MAC / BSSID / IRK / USB serial fields.

use vstd::prelude::*;
use vstd::utf8::*;
pub use crate::text::FormatError;
use crate::text::{sb, dec, dec_signed, dec_pad3, hex2, bit, push_str, push_dec, push_bit, push_hex2, push_signed, push_pad3, finish};

pub mod parse;

verus! {

/// Token before every log line (`simple-debug: …`).
pub const LOG_PREFIX: &'static str = "simple-debug";
/// Image name for the blocking proof-of-life firmware.
pub const IMAGE: &'static str = "simple-debug";
/// Image name for the Embassy staged firmware.
pub const IMAGE_EMBASSY: &'static str = "embassy-debug";
/// Chip this image is built for. Not a unique unit id.
pub const CHIP: &'static str = "esp32s3";
/// Bytes reserved for a heartbeat.
pub const HEARTBEAT_CAPACITY: usize = 64;
/// Bytes reserved for a git identity line.
pub const GIT_CAPACITY: usize = 80;
/// Bytes reserved for a repeating hello line.
pub const HELLO_CAPACITY: usize = 192;
/// Bytes reserved for a button-edge line.
pub const EDGE_CAPACITY: usize = 80;
/// Bytes reserved for a GPIO sample line.
pub const GPIO_CAPACITY: usize = 80;
/// Bytes reserved for a leftover-pad input line.
pub const LEFTOVER_CAPACITY: usize = 80;
/// Bytes reserved for a Wi-Fi scan-count line.
pub const WIFI_CAPACITY: usize = 40;
/// Bytes reserved for a BLE scan-count line.
pub const BLE_CAPACITY: usize = 40;
/// Bytes reserved for a gated charge line.
pub const CHARGE_CAPACITY: usize = 80;
/// Bytes reserved for a sleep-arm line.
pub const SLEEP_CAPACITY: usize = 40;
/// Bytes reserved for a wake-source line.
pub const WAKE_CAPACITY: usize = 40;
/// Bytes reserved for an I2C ACK line.
pub const I2C_CAPACITY: usize = 192;
/// Bytes reserved for a touch line.
pub const TOUCH_CAPACITY: usize = 128;
/// Bytes reserved for a mic energy line.
pub const MIC_CAPACITY: usize = 64;
/// Bytes reserved for a PCM dump header.
pub const PCM_HEADER_CAPACITY: usize = 80;
/// Bytes reserved for one PCM row.
pub const PCM_ROW_CAPACITY: usize = 192;
/// Bytes reserved for a panel stamp line.
pub const PANEL_CAPACITY: usize = 80;
/// Bytes reserved for a scene token.
pub const SCENE_CAPACITY: usize = 48;
/// Bytes reserved for a lamp duty line.
pub const LAMP_CAPACITY: usize = 40;
/// Bytes reserved for a snowflake render timing line.
pub const SNOWFLAKE_CAPACITY: usize = 48;
/// How long BUTTON A must stay low to dump PCM.
pub const BUTTON_HOLD_PCM_MS: u32 = 1000;
/// Phone-band A the human may hold on the hole.
pub const TONE_A4_HZ: u32 = 440;
/// `mic pcm hz=` when the board plays nothing.
pub const PCM_DUMP_NO_TONE_HZ: u32 = 0;
/// PDM window length in i16 samples.
pub const PCM_WINDOW_SAMPLES: usize = 256;
/// Samples per `pcm` CDC row.
pub const PCM_ROW_SAMPLES: usize = 16;
/// Windows to dump at each known-tone mark.
pub const TONE_DUMP_WINDOWS: u32 = 2;
/// Live energy period while `PYG12` is up.
pub const MIC_REPORT_MS: u32 = 250;
/// How often the firmware polls buttons, in milliseconds.
pub const POLL_PERIOD_MS: u32 = 50;
/// Heartbeat period, in milliseconds.
pub const HEARTBEAT_PERIOD_MS: u32 = 1000;
/// How often hello / git / gpio repeat, in seconds.
pub const HELLO_PERIOD_S: u32 = 10;
/// Milliseconds in one second.
pub const MILLIS_PER_SEC: u32 = 1000;
/// [`HELLO_PERIOD_S`] in milliseconds.
pub const HELLO_PERIOD_MS: u32 = HELLO_PERIOD_S * MILLIS_PER_SEC;

/// One sample of the raw BUTTON A / BUTTON B levels.
#[derive(Debug, Clone, Copy, PartialEq, Eq)]
pub struct Snapshot {
    /// Seconds since the poll loop started.
    pub t_s: u32,
    /// BUTTON A (UP). `true` is high.
    pub btn_a: bool,
    /// BUTTON B (DOWN). `true` is high.
    pub btn_b: bool,
}

/// Identity fields that repeat so a late CDC attach still sees them.
#[derive(Debug, Clone, Copy, PartialEq, Eq)]
pub struct Hello {
    /// Seconds since the poll loop started.
    pub t_s: u32,
    /// Firmware image token.
    pub image: &'static str,
    /// Board SKU token. Not a unique unit id.
    pub sku: &'static str,
    /// CPU clock, in MHz.
    pub cpu_mhz: u32,
    /// XTAL clock, in MHz.
    pub xtal_mhz: u32,
    /// Stable reset-reason token.
    pub reset: &'static str,
}

/// One button transition. A field is `None` when that key did not change.
#[derive(Debug, Clone, Copy, PartialEq, Eq)]
pub struct Edge {
    /// Milliseconds since the poll loop started.
    pub t_ms: u32,
    /// BUTTON A `(was_high, is_high)` when it changed.
    pub btn_a: Option<(bool, bool)>,
    /// BUTTON B `(was_high, is_high)` when it changed.
    pub btn_b: Option<(bool, bool)>,
}

/// Input-only GPIO sample.
#[derive(Debug, Clone, Copy, PartialEq, Eq)]
pub struct GpioSample {
    /// GPIO0 M5PM1 `BOOT_OUT`.
    pub boot: bool,
    /// GPIO1 M5PM1 IRQ.
    pub pmic_irq: bool,
    /// GPIO4 FT6336G INT.
    pub tp: bool,
    /// GPIO7 M5IOE1 IRQ.
    pub ioe: bool,
    /// GPIO18 EPD BUSY.
    pub busy: bool,
}

/// Lite leftover MCU inputs (full-SKU NFC/LoRa nets).
#[derive(Debug, Clone, Copy, PartialEq, Eq)]
pub struct LeftoverSample {
    /// GPIO5 LoRa IRQ net.
    pub lora_irq: bool,
    /// GPIO6 ST25R3916 IRQ net.
    pub nfc_irq: bool,
    /// GPIO21 SX1262 BUSY net.
    pub sx_busy: bool,
}

/// One gated M5PM1 / IP2315 charge sample. Millivolts only.
#[derive(Debug, Clone, Copy, PartialEq, Eq)]
pub struct ChargeSample {
    /// M5PM1 `VBAT` millivolts, or `0` if the read NAKed.
    pub vbat: u16,
    /// M5PM1 `VIN` millivolts, or `0` if the read NAKed.
    pub vin: u16,
    /// M5PM1 `PWR_SRC` payload, or `0` if the read NAKed.
    pub src: u8,
    /// M5PM1 `PWR_CFG` `CHG_EN`.
    pub chg_en: bool,
    /// IP2315 ACK while `PYG11` is high.
    pub ip: bool,
    /// IP2315 ACK after `PYG11` is low again.
    pub then_ack: bool,
}

/// On-unit radio scan counts. No BSSID / MAC / IRK.
#[derive(Debug, Clone, Copy, PartialEq, Eq)]
pub struct RadioSample {
    /// Wi-Fi AP count from one scan.
    pub wifi_n: u16,
    /// BLE advertisement reports in the scan window.
    pub ble_n: u16,
}

/// I2C ACK bits (`true` = ACK).
#[derive(Debug, Clone, Copy, PartialEq, Eq)]
pub struct I2cSample {
    /// M5PM1 `0x6E`.
    pub pm1: bool,
    /// M5IOE1 ACK (board `0x4F` or UM `0x6F`).
    pub ioe: bool,
    /// 7-bit address that answered official `begin`, or `0`.
    pub ioe_addr: u8,
    /// RX8130CE `0x32`.
    pub rtc: bool,
    /// RX8130CE `FLAG` payload, or `0` when the read NAKed.
    pub rtc_flag: u8,
    /// BMI270 `0x68`.
    pub imu: bool,
    /// BMI270 `CHIP_ID` payload, or `0` when the read NAKed.
    pub imu_id: u8,
    /// FT6336G `0x38`.
    pub tp: bool,
    /// ST25R3916 `0x50` (expect NAK on Lite).
    pub nfc: bool,
    /// IP2315 `0x75` (expect NAK when parked).
    pub chg: bool,
    /// M5IOE1 UM address `0x6F`.
    pub ioe_um: bool,
    /// M5IOE1 `PYG1` `TF_DET`.
    pub tf: bool,
}

/// Touch INT sample.
#[derive(Debug, Clone, Copy, PartialEq, Eq)]
pub struct TouchSample {
    /// GPIO4 level. `/INT` data-ready is low.
    pub int_ready: bool,
    /// Contacts, 0–2.
    pub n: u8,
    /// Point 0 X when `n>=1`.
    pub x: u16,
    /// Point 0 Y when `n>=1`.
    pub y: u16,
    /// Point 1 X when `n>=2`.
    pub x2: u16,
    /// Point 1 Y when `n>=2`.
    pub y2: u16,
}

/// PDM window energy.
#[derive(Debug, Clone, Copy, PartialEq, Eq)]
pub struct MicSample {
    /// RMS of the PCM window.
    pub rms: u32,
    /// Peak absolute sample.
    pub peak: u32,
}

/// Cards the Embassy image can show. Cycle wraps.
#[derive(Debug, Clone, Copy, PartialEq, Eq)]
pub enum Scene {
    /// Ferris + `papermono-rs` + A/B hints.
    Splash,
    /// Koch snowflake with microsecond benchmark and test patterns.
    Shapes,
    /// Physical buttons, sleep/wake controls, and lamp gutter legend.
    Legend,
    /// Four OTP gray boxes.
    Tones,
    /// Dots + midline slides + mono-full white clear.
    Targets,
}

/// Token after `scene=`.
pub open spec fn scene_token(s: Scene) -> &'static str {
    match s {
        Scene::Splash => "splash",
        Scene::Shapes => "shapes",
        Scene::Legend => "legend",
        Scene::Tones => "tones",
        Scene::Targets => "targets",
    }
}

/// Walk position of a card (BUTTON B order).
pub open spec fn scene_index(s: Scene) -> int {
    match s {
        Scene::Splash => 0,
        Scene::Shapes => 1,
        Scene::Legend => 2,
        Scene::Tones => 3,
        Scene::Targets => 4,
    }
}

impl Scene {
    /// Walk order for BUTTON B (next).
    pub const ALL: [Scene; 5] = [
        Scene::Splash,
        Scene::Shapes,
        Scene::Legend,
        Scene::Tones,
        Scene::Targets,
    ];

    /// Token after `scene=`.
    pub fn as_str(self) -> (s: &'static str)
        ensures
            s == scene_token(self),
    {
        match self {
            Scene::Splash => "splash",
            Scene::Shapes => "shapes",
            Scene::Legend => "legend",
            Scene::Tones => "tones",
            Scene::Targets => "targets",
        }
    }

    /// Next card, wrapping.
    pub fn next(self) -> (n: Scene)
        ensures
            scene_index(n) == (scene_index(self) + 1) % 5,
    {
        match self {
            Scene::Splash => Scene::Shapes,
            Scene::Shapes => Scene::Legend,
            Scene::Legend => Scene::Tones,
            Scene::Tones => Scene::Targets,
            Scene::Targets => Scene::Splash,
        }
    }

    /// Previous card, wrapping.
    pub fn prev(self) -> (p: Scene)
        ensures
            scene_index(p) == (scene_index(self) + 4) % 5,
    {
        match self {
            Scene::Splash => Scene::Targets,
            Scene::Shapes => Scene::Splash,
            Scene::Legend => Scene::Shapes,
            Scene::Tones => Scene::Legend,
            Scene::Targets => Scene::Tones,
        }
    }

    /// OTP 4-gray on the tones card only.
    pub fn uses_gray(self) -> (g: bool)
        ensures
            g <==> self == Scene::Tones,
    {
        matches!(self, Scene::Tones)
    }
}

/// A card is determined by its walk position.
pub proof fn law_scene_index_injective(a: Scene, b: Scene)
    ensures
        scene_index(a) == scene_index(b) <==> a == b,
{
}

/// Stepping forward then back (or back then forward) returns to the same card.
pub proof fn law_scene_next_prev_inverse(s: Scene)
    ensures
        spec_next(spec_prev(s)) == s,
        spec_prev(spec_next(s)) == s,
{
}

/// Five forward steps walk the whole cycle back to the start.
pub proof fn law_scene_cycle_has_five_cards(s: Scene)
    ensures
        spec_next(spec_next(spec_next(spec_next(spec_next(s))))) == s,
        s != spec_next(s),
{
}

/// The card after `s` in BUTTON B order.
pub open spec fn spec_next(s: Scene) -> Scene {
    match s {
        Scene::Splash => Scene::Shapes,
        Scene::Shapes => Scene::Legend,
        Scene::Legend => Scene::Tones,
        Scene::Tones => Scene::Targets,
        Scene::Targets => Scene::Splash,
    }
}

/// The card before `s` in BUTTON B order.
pub open spec fn spec_prev(s: Scene) -> Scene {
    match s {
        Scene::Splash => Scene::Targets,
        Scene::Shapes => Scene::Splash,
        Scene::Legend => Scene::Shapes,
        Scene::Tones => Scene::Legend,
        Scene::Targets => Scene::Tones,
    }
}

/// One OTP refresh stamp.
#[derive(Debug, Clone, Copy, PartialEq, Eq)]
pub struct PanelStamp {
    /// OTP sequence title.
    pub mode: &'static str,
    /// RAM width used for this refresh.
    pub w: u16,
    /// RAM height used for this refresh.
    pub h: u16,
    /// BUSY went high after Master Activation.
    pub busy_rose: bool,
}

/// `simple-debug: ` — the prefix and separator every line starts with.
pub open spec fn head() -> Seq<u8> {
    sb(LOG_PREFIX) + sb(": ")
}

/// Outcome shared by every formatter: `Err(Truncated)` exactly when the
/// line is longer than the buffer; otherwise the returned text is the line.
pub open spec fn formatted(r: Result<&str, FormatError>, line: Seq<u8>, cap: nat) -> bool {
    &&& (line.len() > cap <==> r == Err::<&str, FormatError>(FormatError::Truncated))
    &&& (r is Ok ==> sb(r->Ok_0) == line)
}

fn start_line() -> (v: Vec<u8>)
    ensures
        v@ == head(),
        valid_utf8(v@),
{
    let mut v: Vec<u8> = Vec::new();
    proof {
        assert(valid_utf8(v@));
    }
    push_str(&mut v, LOG_PREFIX);
    push_str(&mut v, ": ");
    assert(v@ =~= head());
    v
}


/// `simple-debug: hb t=<t> btn_a=<0|1> btn_b=<0|1>`.
pub open spec fn heartbeat_line(s: Snapshot) -> Seq<u8> {
    head() + sb("hb t=") + dec(s.t_s as nat) + sb(" btn_a=") + bit(s.btn_a) + sb(" btn_b=")
        + bit(s.btn_b)
}

/// Writes `snapshot` into `buf` as a heartbeat line without a trailing newline.
pub fn format_heartbeat<'a>(snapshot: &Snapshot, buf: &'a mut [u8]) -> (r: Result<&'a str, FormatError>)
    ensures
        formatted(r, heartbeat_line(*snapshot), old(buf)@.len()),
{
    let mut v = start_line();
    push_str(&mut v, "hb t=");
    push_dec(&mut v, snapshot.t_s as u64);
    push_str(&mut v, " btn_a=");
    push_bit(&mut v, snapshot.btn_a);
    push_str(&mut v, " btn_b=");
    push_bit(&mut v, snapshot.btn_b);
    assert(v@ =~= heartbeat_line(*snapshot));
    finish(&v, buf)
}

/// `simple-debug: hello t=… image=… sku=… chip=esp32s3 cpu_mhz=… xtal_mhz=… reset=…`.
pub open spec fn hello_line(h: Hello) -> Seq<u8> {
    head() + sb("hello t=") + dec(h.t_s as nat) + sb(" image=") + sb(h.image) + sb(" sku=")
        + sb(h.sku) + sb(" chip=") + sb(CHIP) + sb(" cpu_mhz=") + dec(h.cpu_mhz as nat)
        + sb(" xtal_mhz=") + dec(h.xtal_mhz as nat) + sb(" reset=") + sb(h.reset)
}

/// Writes a repeating identity line without a trailing newline.
pub fn format_hello<'a>(hello: &Hello, buf: &'a mut [u8]) -> (r: Result<&'a str, FormatError>)
    ensures
        formatted(r, hello_line(*hello), old(buf)@.len()),
{
    let mut v = start_line();
    push_str(&mut v, "hello t=");
    push_dec(&mut v, hello.t_s as u64);
    push_str(&mut v, " image=");
    push_str(&mut v, hello.image);
    push_str(&mut v, " sku=");
    push_str(&mut v, hello.sku);
    push_str(&mut v, " chip=");
    push_str(&mut v, CHIP);
    push_str(&mut v, " cpu_mhz=");
    push_dec(&mut v, hello.cpu_mhz as u64);
    push_str(&mut v, " xtal_mhz=");
    push_dec(&mut v, hello.xtal_mhz as u64);
    push_str(&mut v, " reset=");
    push_str(&mut v, hello.reset);
    assert(v@ =~= hello_line(*hello));
    finish(&v, buf)
}

/// `simple-debug: git=<hash> dirty=<0|1>`.
pub open spec fn git_line(hash: &str, dirty: bool) -> Seq<u8> {
    head() + sb("git=") + sb(hash) + sb(" dirty=") + bit(dirty)
}

/// Writes `simple-debug: git=<hash> dirty=<0|1>` without a trailing newline.
pub fn format_git<'a>(hash: &str, dirty: bool, buf: &'a mut [u8]) -> (r: Result<&'a str, FormatError>)
    ensures
        formatted(r, git_line(hash, dirty), old(buf)@.len()),
{
    let mut v = start_line();
    push_str(&mut v, "git=");
    push_str(&mut v, hash);
    push_str(&mut v, " dirty=");
    push_bit(&mut v, dirty);
    assert(v@ =~= git_line(hash, dirty));
    finish(&v, buf)
}

/// ` <name>=<was>-><is>` when the key changed, nothing otherwise.
pub open spec fn btn_edge(name: &str, change: Option<(bool, bool)>) -> Seq<u8> {
    match change {
        Some((from, to)) => sb(" ") + sb(name) + sb("=") + bit(from) + sb("->") + bit(to),
        None => Seq::empty(),
    }
}

/// `simple-debug: edge t_ms=<t>` then the changed buttons.
pub open spec fn edge_line(e: Edge) -> Seq<u8> {
    head() + sb("edge t_ms=") + dec(e.t_ms as nat) + btn_edge("btn_a", e.btn_a) + btn_edge(
        "btn_b",
        e.btn_b,
    )
}

fn append_btn_edge(v: &mut Vec<u8>, name: &str, change: Option<(bool, bool)>)
    ensures
        final(v)@ == old(v)@ + btn_edge(name, change),
        valid_utf8(old(v)@) ==> valid_utf8(final(v)@),
{
    match change {
        Some((from, to)) => {
            push_str(v, " ");
            push_str(v, name);
            push_str(v, "=");
            push_bit(v, from);
            push_str(v, "->");
            push_bit(v, to);
            assert(final(v)@ =~= old(v)@ + btn_edge(name, change));
        },
        None => {
            assert(v@ =~= old(v)@ + btn_edge(name, change));
        },
    }
}

/// Writes a button-edge line without a trailing newline.
pub fn format_edge<'a>(edge: &Edge, buf: &'a mut [u8]) -> (r: Result<&'a str, FormatError>)
    ensures
        formatted(r, edge_line(*edge), old(buf)@.len()),
{
    let mut v = start_line();
    push_str(&mut v, "edge t_ms=");
    push_dec(&mut v, edge.t_ms as u64);
    append_btn_edge(&mut v, "btn_a", edge.btn_a);
    append_btn_edge(&mut v, "btn_b", edge.btn_b);
    assert(v@ =~= edge_line(*edge));
    finish(&v, buf)
}

/// `simple-debug: gpio boot=… pmic_irq=… tp=… ioe=… busy=…`.
pub open spec fn gpio_line(g: GpioSample) -> Seq<u8> {
    head() + sb("gpio boot=") + bit(g.boot) + sb(" pmic_irq=") + bit(g.pmic_irq) + sb(" tp=")
        + bit(g.tp) + sb(" ioe=") + bit(g.ioe) + sb(" busy=") + bit(g.busy)
}

/// Writes a GPIO sample line without a trailing newline.
pub fn format_gpio<'a>(sample: &GpioSample, buf: &'a mut [u8]) -> (r: Result<&'a str, FormatError>)
    ensures
        formatted(r, gpio_line(*sample), old(buf)@.len()),
{
    let mut v = start_line();
    push_str(&mut v, "gpio boot=");
    push_bit(&mut v, sample.boot);
    push_str(&mut v, " pmic_irq=");
    push_bit(&mut v, sample.pmic_irq);
    push_str(&mut v, " tp=");
    push_bit(&mut v, sample.tp);
    push_str(&mut v, " ioe=");
    push_bit(&mut v, sample.ioe);
    push_str(&mut v, " busy=");
    push_bit(&mut v, sample.busy);
    assert(v@ =~= gpio_line(*sample));
    finish(&v, buf)
}

/// `simple-debug: leftover lora_irq=… nfc_irq=… sx_busy=…`.
pub open spec fn leftover_line(g: LeftoverSample) -> Seq<u8> {
    head() + sb("leftover lora_irq=") + bit(g.lora_irq) + sb(" nfc_irq=") + bit(g.nfc_irq)
        + sb(" sx_busy=") + bit(g.sx_busy)
}

/// Writes leftover-pad input levels without a trailing newline.
pub fn format_leftover<'a>(sample: &LeftoverSample, buf: &'a mut [u8]) -> (r: Result<&'a str, FormatError>)
    ensures
        formatted(r, leftover_line(*sample), old(buf)@.len()),
{
    let mut v = start_line();
    push_str(&mut v, "leftover lora_irq=");
    push_bit(&mut v, sample.lora_irq);
    push_str(&mut v, " nfc_irq=");
    push_bit(&mut v, sample.nfc_irq);
    push_str(&mut v, " sx_busy=");
    push_bit(&mut v, sample.sx_busy);
    assert(v@ =~= leftover_line(*sample));
    finish(&v, buf)
}

/// `simple-debug: <kind><n>` for the count-only and single-number lines.
pub open spec fn number_line(kind: &str, n: nat) -> Seq<u8> {
    head() + sb(kind) + dec(n)
}

fn format_number<'a>(kind: &str, n: u64, buf: &'a mut [u8]) -> (r: Result<&'a str, FormatError>)
    ensures
        formatted(r, number_line(kind, n as nat), old(buf)@.len()),
{
    let mut v = start_line();
    push_str(&mut v, kind);
    push_dec(&mut v, n);
    assert(v@ =~= number_line(kind, n as nat));
    finish(&v, buf)
}

/// Writes `wifi n=` without a trailing newline. Count only.
pub fn format_wifi(n: u16, buf: &mut [u8]) -> (r: Result<&str, FormatError>)
    ensures
        formatted(r, number_line("wifi n=", n as nat), old(buf)@.len()),
{
    format_number("wifi n=", n as u64, buf)
}

/// Writes `ble n=` without a trailing newline. Count only.
pub fn format_ble(n: u16, buf: &mut [u8]) -> (r: Result<&str, FormatError>)
    ensures
        formatted(r, number_line("ble n=", n as nat), old(buf)@.len()),
{
    format_number("ble n=", n as u64, buf)
}

/// Writes `sleep rtc=` without a trailing newline.
pub fn format_sleep_rtc(secs: u8, buf: &mut [u8]) -> (r: Result<&str, FormatError>)
    ensures
        formatted(r, number_line("sleep rtc=", secs as nat), old(buf)@.len()),
{
    format_number("sleep rtc=", secs as u64, buf)
}

/// `simple-debug: sleep abort`.
pub open spec fn sleep_abort_line() -> Seq<u8> {
    head() + sb("sleep abort")
}

/// Writes `sleep abort` without a trailing newline.
pub fn format_sleep_abort(buf: &mut [u8]) -> (r: Result<&str, FormatError>)
    ensures
        formatted(r, sleep_abort_line(), old(buf)@.len()),
{
    let mut v = start_line();
    push_str(&mut v, "sleep abort");
    assert(v@ =~= sleep_abort_line());
    finish(&v, buf)
}

/// `simple-debug: wake src=<hh>`.
pub open spec fn wake_line(src: u8) -> Seq<u8> {
    head() + sb("wake src=") + hex2(src)
}

/// Writes `wake src=` without a trailing newline.
pub fn format_wake(src: u8, buf: &mut [u8]) -> (r: Result<&str, FormatError>)
    ensures
        formatted(r, wake_line(src), old(buf)@.len()),
{
    let mut v = start_line();
    push_str(&mut v, "wake src=");
    push_hex2(&mut v, src);
    assert(v@ =~= wake_line(src));
    finish(&v, buf)
}

/// `simple-debug: charge vbat=… vin=… src=<hh> chg_en=… ip=… then=…`.
pub open spec fn charge_line(c: ChargeSample) -> Seq<u8> {
    head() + sb("charge vbat=") + dec(c.vbat as nat) + sb(" vin=") + dec(c.vin as nat) + sb(
        " src=",
    ) + hex2(c.src) + sb(" chg_en=") + bit(c.chg_en) + sb(" ip=") + bit(c.ip) + sb(" then=")
        + bit(c.then_ack)
}

/// Writes a gated charge sample without a trailing newline.
pub fn format_charge<'a>(sample: &ChargeSample, buf: &'a mut [u8]) -> (r: Result<&'a str, FormatError>)
    ensures
        formatted(r, charge_line(*sample), old(buf)@.len()),
{
    let mut v = start_line();
    push_str(&mut v, "charge vbat=");
    push_dec(&mut v, sample.vbat as u64);
    push_str(&mut v, " vin=");
    push_dec(&mut v, sample.vin as u64);
    push_str(&mut v, " src=");
    push_hex2(&mut v, sample.src);
    push_str(&mut v, " chg_en=");
    push_bit(&mut v, sample.chg_en);
    push_str(&mut v, " ip=");
    push_bit(&mut v, sample.ip);
    push_str(&mut v, " then=");
    push_bit(&mut v, sample.then_ack);
    assert(v@ =~= charge_line(*sample));
    finish(&v, buf)
}

/// Writes `simple-debug: scene=<token>` without a trailing newline.
pub fn format_scene(scene: Scene, buf: &mut [u8]) -> (r: Result<&str, FormatError>)
    ensures
        formatted(r, head() + sb("scene=") + sb(scene_token(scene)), old(buf)@.len()),
{
    let mut v = start_line();
    push_str(&mut v, "scene=");
    let tok = scene.as_str();
    push_str(&mut v, tok);
    assert(v@ =~= head() + sb("scene=") + sb(scene_token(scene)));
    finish(&v, buf)
}

/// Writes `simple-debug: lamp=<duty>` without a trailing newline.
pub fn format_lamp(duty: u16, buf: &mut [u8]) -> (r: Result<&str, FormatError>)
    ensures
        formatted(r, number_line("lamp=", duty as nat), old(buf)@.len()),
{
    format_number("lamp=", duty as u64, buf)
}

/// Writes `simple-debug: snowflake us=<us>` without a trailing newline.
pub fn format_snowflake(us: u32, buf: &mut [u8]) -> (r: Result<&str, FormatError>)
    ensures
        formatted(r, number_line("snowflake us=", us as nat), old(buf)@.len()),
{
    format_number("snowflake us=", us as u64, buf)
}

/// `simple-debug: panel mode=… w=… h=… busy_rose=…`.
pub open spec fn panel_line(p: PanelStamp) -> Seq<u8> {
    head() + sb("panel mode=") + sb(p.mode) + sb(" w=") + dec(p.w as nat) + sb(" h=") + dec(
        p.h as nat,
    ) + sb(" busy_rose=") + bit(p.busy_rose)
}

/// Writes a panel stamp without a trailing newline.
pub fn format_panel<'a>(stamp: &PanelStamp, buf: &'a mut [u8]) -> (r: Result<&'a str, FormatError>)
    ensures
        formatted(r, panel_line(*stamp), old(buf)@.len()),
{
    let mut v = start_line();
    push_str(&mut v, "panel mode=");
    push_str(&mut v, stamp.mode);
    push_str(&mut v, " w=");
    push_dec(&mut v, stamp.w as u64);
    push_str(&mut v, " h=");
    push_dec(&mut v, stamp.h as u64);
    push_str(&mut v, " busy_rose=");
    push_bit(&mut v, stamp.busy_rose);
    assert(v@ =~= panel_line(*stamp));
    finish(&v, buf)
}

/// `simple-debug: mic rms=… peak=…`.
pub open spec fn mic_line(m: MicSample) -> Seq<u8> {
    head() + sb("mic rms=") + dec(m.rms as nat) + sb(" peak=") + dec(m.peak as nat)
}

/// Writes a mic energy line without a trailing newline.
pub fn format_mic<'a>(sample: &MicSample, buf: &'a mut [u8]) -> (r: Result<&'a str, FormatError>)
    ensures
        formatted(r, mic_line(*sample), old(buf)@.len()),
{
    let mut v = start_line();
    push_str(&mut v, "mic rms=");
    push_dec(&mut v, sample.rms as u64);
    push_str(&mut v, " peak=");
    push_dec(&mut v, sample.peak as u64);
    assert(v@ =~= mic_line(*sample));
    finish(&v, buf)
}

/// `simple-debug: mic pcm hz=<hz> n=<n>`.
pub open spec fn pcm_header_line(hz: nat, n: nat) -> Seq<u8> {
    head() + sb("mic pcm hz=") + dec(hz) + sb(" n=") + dec(n)
}

/// Header before a PCM dump. `hz=0` means the board played nothing.
pub fn format_mic_pcm_header(hz: u32, n: usize, buf: &mut [u8]) -> (r: Result<&str, FormatError>)
    ensures
        formatted(r, pcm_header_line(hz as nat, n as nat), old(buf)@.len()),
{
    let mut v = start_line();
    push_str(&mut v, "mic pcm hz=");
    push_dec(&mut v, hz as u64);
    push_str(&mut v, " n=");
    push_dec(&mut v, n as u64);
    assert(v@ =~= pcm_header_line(hz as nat, n as nat));
    finish(&v, buf)
}

/// ` s0 s1 …` — each sample as a signed decimal after a space.
pub open spec fn pcm_samples(s: Seq<i16>) -> Seq<u8>
    decreases s.len(),
{
    if s.len() == 0 {
        Seq::empty()
    } else {
        pcm_samples(s.drop_last()) + sb(" ") + dec_signed(s.last() as int)
    }
}

/// `simple-debug: pcm <offset:03> s0 s1 …`.
pub open spec fn pcm_row_line(offset: nat, s: Seq<i16>) -> Seq<u8> {
    head() + sb("pcm ") + dec_pad3(offset) + pcm_samples(s)
}

/// One row of signed i16 samples (`pcm <offset> s0 s1 …`).
pub fn format_mic_pcm_row<'a>(offset: usize, samples: &[i16], buf: &'a mut [u8]) -> (r: Result<&'a str, FormatError>)
    ensures
        formatted(r, pcm_row_line(offset as nat, samples@), old(buf)@.len()),
{
    let mut v = start_line();
    push_str(&mut v, "pcm ");
    push_pad3(&mut v, offset as u64);
    let ghost base = v@;
    let n = samples.len();
    let mut i: usize = 0;
    while i < n
        invariant
            n == samples@.len(),
            i <= n,
            v@ == base + pcm_samples(samples@.take(i as int)),
            vstd::utf8::valid_utf8(v@),
        decreases n - i,
    {
        push_str(&mut v, " ");
        push_signed(&mut v, samples[i]);
        assert(samples@.take(i + 1).drop_last() =~= samples@.take(i as int));
        i = i + 1;
        assert(v@ =~= base + pcm_samples(samples@.take(i as int)));
    }
    assert(samples@.take(n as int) =~= samples@);
    assert(v@ =~= pcm_row_line(offset as nat, samples@));
    finish(&v, buf)
}


/// Pin-map roster: the advertised 7-bit addresses and whether each answered.
/// `0x4F` vs `0x6F` follows which address answered, plus a dedicated UM probe.
pub open spec fn i2c_roster(s: I2cSample) -> Seq<(u8, bool)> {
    seq![
        (0x32u8, s.rtc),
        (0x38u8, s.tp),
        (0x4Fu8, s.ioe_addr == 0x4F),
        (0x50u8, s.nfc),
        (0x68u8, s.imu),
        (0x6Eu8, s.pm1),
        (0x6Fu8, s.ioe_um || s.ioe_addr == 0x6F),
        (0x75u8, s.chg),
    ]
}

/// The roster addresses whose ACK bit equals `want`, in roster order.
pub open spec fn roster_pick(r: Seq<(u8, bool)>, want: bool) -> Seq<u8>
    decreases r.len(),
{
    if r.len() == 0 {
        Seq::empty()
    } else if r.last().1 == want {
        roster_pick(r.drop_last(), want).push(r.last().0)
    } else {
        roster_pick(r.drop_last(), want)
    }
}

/// Comma-separated two-digit hex addresses.
pub open spec fn hex_list(a: Seq<u8>) -> Seq<u8>
    decreases a.len(),
{
    if a.len() == 0 {
        Seq::empty()
    } else if a.len() == 1 {
        hex2(a[0])
    } else {
        hex_list(a.drop_last()) + sb(",") + hex2(a.last())
    }
}

/// `simple-debug: i2c pm1=… … tf=… ack=<list> nak=<list>`.
pub open spec fn i2c_line(s: I2cSample) -> Seq<u8> {
    head() + sb("i2c pm1=") + bit(s.pm1) + sb(" ioe=") + bit(s.ioe) + sb(" ioe_addr=") + hex2(
        s.ioe_addr,
    ) + sb(" rtc=") + bit(s.rtc) + sb(" rtc_flag=") + hex2(s.rtc_flag) + sb(" imu=") + bit(s.imu)
        + sb(" imu_id=") + hex2(s.imu_id) + sb(" tp=") + bit(s.tp) + sb(" nfc=") + bit(s.nfc)
        + sb(" chg=") + bit(s.chg) + sb(" tf=") + bit(s.tf) + sb(" ack=") + hex_list(
        roster_pick(i2c_roster(s), true),
    ) + sb(" nak=") + hex_list(roster_pick(i2c_roster(s), false))
}

fn i2c_scan_map(sample: &I2cSample) -> (m: [(u8, bool); 8])
    ensures
        m@ == i2c_roster(*sample),
{
    let m = [
        (0x32u8, sample.rtc),
        (0x38u8, sample.tp),
        (0x4Fu8, sample.ioe_addr == 0x4F),
        (0x50u8, sample.nfc),
        (0x68u8, sample.imu),
        (0x6Eu8, sample.pm1),
        (0x6Fu8, sample.ioe_um || sample.ioe_addr == 0x6F),
        (0x75u8, sample.chg),
    ];
    assert(m@ =~= i2c_roster(*sample));
    m
}

proof fn lemma_hex_list_push(a: Seq<u8>, x: u8)
    ensures
        hex_list(a.push(x)) == if a.len() == 0 { hex2(x) } else { hex_list(a) + sb(",") + hex2(x) },
{
    assert(a.push(x).drop_last() =~= a);
}

fn write_i2c_scan(v: &mut Vec<u8>, sample: &I2cSample, want_ack: bool)
    requires
        valid_utf8(old(v)@),
    ensures
        final(v)@ == old(v)@ + hex_list(roster_pick(i2c_roster(*sample), want_ack)),
        valid_utf8(final(v)@),
{
    let map = i2c_scan_map(sample);
    let ghost r = i2c_roster(*sample);
    let ghost start = v@;
    let mut first = true;
    let mut i: usize = 0;
    while i < 8
        invariant
            i <= 8,
            map@ == r,
            r.len() == 8,
            v@ == start + hex_list(roster_pick(r.take(i as int), want_ack)),
            first <==> roster_pick(r.take(i as int), want_ack).len() == 0,
            valid_utf8(v@),
        decreases 8 - i,
    {
        let (addr, ack) = map[i];
        let ghost before = roster_pick(r.take(i as int), want_ack);
        assert(r.take(i + 1).drop_last() =~= r.take(i as int));
        assert(r.take(i + 1).last() == r[i as int]);
        if ack == want_ack {
            if !first {
                push_str(v, ",");
            }
            first = false;
            push_hex2(v, addr);
            proof {
                lemma_hex_list_push(before, addr);
                assert(roster_pick(r.take(i + 1), want_ack) == before.push(addr));
                assert(v@ =~= start + hex_list(roster_pick(r.take(i + 1), want_ack)));
            }
        } else {
            assert(roster_pick(r.take(i + 1), want_ack) == before);
        }
        i = i + 1;
    }
    assert(r.take(8) =~= r);
}

/// Writes an I2C ACK sample without a trailing newline.
///
/// `ack=` / `nak=` list the advertised 7-bit addresses.
pub fn format_i2c<'a>(sample: &I2cSample, buf: &'a mut [u8]) -> (r: Result<&'a str, FormatError>)
    ensures
        formatted(r, i2c_line(*sample), old(buf)@.len()),
{
    let mut v = start_line();
    push_str(&mut v, "i2c pm1=");
    push_bit(&mut v, sample.pm1);
    push_str(&mut v, " ioe=");
    push_bit(&mut v, sample.ioe);
    push_str(&mut v, " ioe_addr=");
    push_hex2(&mut v, sample.ioe_addr);
    push_str(&mut v, " rtc=");
    push_bit(&mut v, sample.rtc);
    push_str(&mut v, " rtc_flag=");
    push_hex2(&mut v, sample.rtc_flag);
    push_str(&mut v, " imu=");
    push_bit(&mut v, sample.imu);
    push_str(&mut v, " imu_id=");
    push_hex2(&mut v, sample.imu_id);
    push_str(&mut v, " tp=");
    push_bit(&mut v, sample.tp);
    push_str(&mut v, " nfc=");
    push_bit(&mut v, sample.nfc);
    push_str(&mut v, " chg=");
    push_bit(&mut v, sample.chg);
    push_str(&mut v, " tf=");
    push_bit(&mut v, sample.tf);
    push_str(&mut v, " ack=");
    write_i2c_scan(&mut v, sample, true);
    push_str(&mut v, " nak=");
    write_i2c_scan(&mut v, sample, false);
    assert(v@ =~= i2c_line(*sample));
    finish(&v, buf)
}

/// Touch line: `n=0` carries no XY; `n=1` one point; otherwise both points.
pub open spec fn touch_line(t: TouchSample) -> Seq<u8> {
    head() + sb("touch int=") + bit(t.int_ready) + if t.n == 0 {
        sb(" n=0")
    } else if t.n == 1 {
        sb(" n=1 x=") + dec(t.x as nat) + sb(" y=") + dec(t.y as nat)
    } else {
        sb(" n=") + dec(t.n as nat) + sb(" x=") + dec(t.x as nat) + sb(" y=") + dec(t.y as nat)
            + sb(" x2=") + dec(t.x2 as nat) + sb(" y2=") + dec(t.y2 as nat)
    }
}

/// Writes a touch INT line without a trailing newline.
pub fn format_touch<'a>(sample: &TouchSample, buf: &'a mut [u8]) -> (r: Result<&'a str, FormatError>)
    ensures
        formatted(r, touch_line(*sample), old(buf)@.len()),
{
    let mut v = start_line();
    push_str(&mut v, "touch int=");
    push_bit(&mut v, sample.int_ready);
    let ghost mid = v@;
    if sample.n == 0 {
        push_str(&mut v, " n=0");
    } else if sample.n == 1 {
        push_str(&mut v, " n=1 x=");
        push_dec(&mut v, sample.x as u64);
        push_str(&mut v, " y=");
        push_dec(&mut v, sample.y as u64);
    } else {
        push_str(&mut v, " n=");
        push_dec(&mut v, sample.n as u64);
        push_str(&mut v, " x=");
        push_dec(&mut v, sample.x as u64);
        push_str(&mut v, " y=");
        push_dec(&mut v, sample.y as u64);
        push_str(&mut v, " x2=");
        push_dec(&mut v, sample.x2 as u64);
        push_str(&mut v, " y2=");
        push_dec(&mut v, sample.y2 as u64);
    }
    assert(v@ =~= touch_line(*sample));
    finish(&v, buf)
}

/// `simple-debug: touch target=<id> kind=<kind> x=… y=… r=…`.
pub open spec fn touch_target_line(id: u8, kind: &str, x: u16, y: u16, r: u16) -> Seq<u8> {
    head() + sb("touch target=") + dec(id as nat) + sb(" kind=") + sb(kind) + sb(" x=") + dec(
        x as nat,
    ) + sb(" y=") + dec(y as nat) + sb(" r=") + dec(r as nat)
}

/// Drawn target (`touch target=`). `kind` is `dot`, `slide_x`, or `slide_y`.
pub fn format_touch_target<'a>(id: u8, kind: &str, x: u16, y: u16, r: u16, buf: &'a mut [u8]) -> (res: Result<&'a str, FormatError>)
    ensures
        formatted(res, touch_target_line(id, kind, x, y, r), old(buf)@.len()),
{
    let mut v = start_line();
    push_str(&mut v, "touch target=");
    push_dec(&mut v, id as u64);
    push_str(&mut v, " kind=");
    push_str(&mut v, kind);
    push_str(&mut v, " x=");
    push_dec(&mut v, x as u64);
    push_str(&mut v, " y=");
    push_dec(&mut v, y as u64);
    push_str(&mut v, " r=");
    push_dec(&mut v, r as u64);
    assert(v@ =~= touch_target_line(id, kind, x, y, r));
    finish(&v, buf)
}

/// Live sample vs the drawn target: both points when `n>=2`, one when
/// `n==1`, the INT level when no contact.
pub open spec fn touch_at_line(id: u8, t: TouchSample, tx: u16, ty: u16) -> Seq<u8> {
    head() + sb("touch id=") + dec(id as nat) + if t.n >= 2 {
        sb(" n=") + dec(t.n as nat) + sb(" x=") + dec(t.x as nat) + sb(" y=") + dec(t.y as nat)
            + sb(" x2=") + dec(t.x2 as nat) + sb(" y2=") + dec(t.y2 as nat)
    } else if t.n == 1 {
        sb(" n=1 x=") + dec(t.x as nat) + sb(" y=") + dec(t.y as nat)
    } else {
        sb(" n=0 int=") + bit(t.int_ready)
    } + sb(" tx=") + dec(tx as nat) + sb(" ty=") + dec(ty as nat)
}

/// Live sample vs the drawn target (`tx`/`ty`).
#[verifier::spinoff_prover]
#[verifier::rlimit(40)]
pub fn format_touch_at<'a>(id: u8, sample: &TouchSample, tx: u16, ty: u16, buf: &'a mut [u8]) -> (r: Result<&'a str, FormatError>)
    ensures
        formatted(r, touch_at_line(id, *sample, tx, ty), old(buf)@.len()),
{
    let mut v = start_line();
    push_str(&mut v, "touch id=");
    push_dec(&mut v, id as u64);
    if sample.n >= 2 {
        push_str(&mut v, " n=");
        push_dec(&mut v, sample.n as u64);
        push_str(&mut v, " x=");
        push_dec(&mut v, sample.x as u64);
        push_str(&mut v, " y=");
        push_dec(&mut v, sample.y as u64);
        push_str(&mut v, " x2=");
        push_dec(&mut v, sample.x2 as u64);
        push_str(&mut v, " y2=");
        push_dec(&mut v, sample.y2 as u64);
    } else if sample.n == 1 {
        push_str(&mut v, " n=1 x=");
        push_dec(&mut v, sample.x as u64);
        push_str(&mut v, " y=");
        push_dec(&mut v, sample.y as u64);
    } else {
        push_str(&mut v, " n=0 int=");
        push_bit(&mut v, sample.int_ready);
    }
    push_str(&mut v, " tx=");
    push_dec(&mut v, tx as u64);
    push_str(&mut v, " ty=");
    push_dec(&mut v, ty as u64);
    assert(v@ =~= touch_at_line(id, *sample, tx, ty));
    finish(&v, buf)
}

/// `simple-debug: touch id=<id> <verdict> x=… y=… tx=… ty=… d=…`.
pub open spec fn touch_verdict_line(id: u8, verdict: &str, x: u16, y: u16, tx: u16, ty: u16, d: u16) -> Seq<u8> {
    head() + sb("touch id=") + dec(id as nat) + sb(" ") + sb(verdict) + sb(" x=") + dec(x as nat)
        + sb(" y=") + dec(y as nat) + sb(" tx=") + dec(tx as nat) + sb(" ty=") + dec(ty as nat)
        + sb(" d=") + dec(d as nat)
}

/// Hit / miss / abort. `x`/`y` is the last sample; `tx`/`ty` is drawn.
pub fn format_touch_verdict<'a>(id: u8, verdict: &str, x: u16, y: u16, tx: u16, ty: u16, d: u16, buf: &'a mut [u8]) -> (r: Result<&'a str, FormatError>)
    ensures
        formatted(r, touch_verdict_line(id, verdict, x, y, tx, ty, d), old(buf)@.len()),
{
    let mut v = start_line();
    push_str(&mut v, "touch id=");
    push_dec(&mut v, id as u64);
    push_str(&mut v, " ");
    push_str(&mut v, verdict);
    push_str(&mut v, " x=");
    push_dec(&mut v, x as u64);
    push_str(&mut v, " y=");
    push_dec(&mut v, y as u64);
    push_str(&mut v, " tx=");
    push_dec(&mut v, tx as u64);
    push_str(&mut v, " ty=");
    push_dec(&mut v, ty as u64);
    push_str(&mut v, " d=");
    push_dec(&mut v, d as u64);
    assert(v@ =~= touch_verdict_line(id, verdict, x, y, tx, ty, d));
    finish(&v, buf)
}

}
