//! Lines that the firmware writes to the USB serial port, built in fixed
//! buffers as the telemetry task does; a line that does not fit its buffer
//! is not sent.

use vstd::prelude::*;
use crate::log::{
    charge_line, edge_line, format_ble, format_charge, format_edge, format_git, format_gpio,
    format_heartbeat, format_hello, format_i2c, format_lamp, format_leftover, format_mic,
    format_mic_pcm_header, format_mic_pcm_row, format_panel, format_scene, format_snowflake,
    format_touch, format_touch_at, format_touch_target, format_touch_verdict, format_wifi,
    formatted, git_line, gpio_line, head, heartbeat_line, hello_line, i2c_line, leftover_line,
    mic_line, number_line, panel_line, pcm_header_line, pcm_row_line, scene_token, touch_at_line,
    touch_line, touch_target_line, touch_verdict_line, ChargeSample, Edge, GpioSample, Hello,
    I2cSample, LeftoverSample, MicSample, PanelStamp, Scene, Snapshot, TouchSample, BLE_CAPACITY,
    CHARGE_CAPACITY, EDGE_CAPACITY, GIT_CAPACITY, GPIO_CAPACITY, HEARTBEAT_CAPACITY,
    HELLO_CAPACITY, I2C_CAPACITY, LAMP_CAPACITY, LEFTOVER_CAPACITY, MIC_CAPACITY,
    PANEL_CAPACITY, PCM_HEADER_CAPACITY, PCM_ROW_CAPACITY, PCM_ROW_SAMPLES, SCENE_CAPACITY,
    SNOWFLAKE_CAPACITY, TOUCH_CAPACITY, WIFI_CAPACITY,
};
use crate::text::sb;
use crate::text::FormatError;

verus! {

/// The rows of a PCM dump from sample `off` on: `PCM_ROW_SAMPLES` samples
/// per row (fewer in the last), each kept only if it fits its buffer.
pub open spec fn pcm_rows(s: Seq<i16>, off: nat) -> Seq<Seq<u8>>
    decreases s.len() - off,
{
    if off >= s.len() {
        Seq::empty()
    } else {
        let end: nat = if off + PCM_ROW_SAMPLES < s.len() { (off + PCM_ROW_SAMPLES) as nat } else { s.len() };
        let line = pcm_row_line(off, s.subrange(off as int, end as int));
        let rest = pcm_rows(s, end);
        if line.len() <= PCM_ROW_CAPACITY {
            seq![line] + rest
        } else {
            rest
        }
    }
}

/// The lines of a PCM dump: the header (when it fits), then the rows.
pub open spec fn pcm_dump(hz: nat, s: Seq<i16>) -> Seq<Seq<u8>> {
    let h = pcm_header_line(hz, s.len());
    (if h.len() <= PCM_HEADER_CAPACITY { seq![h] } else { Seq::empty() }) + pcm_rows(s, 0)
}

/// The byte strings of `lines`.
pub open spec fn line_bytes(lines: Seq<Vec<u8>>) -> Seq<Seq<u8>> {
    lines.map_values(|v: Vec<u8>| v@)
}

/// The lines of a dump of `samples` recorded at a tone of `hz`, in the
/// order they are sent.
pub fn mic_pcm(hz: u32, samples: &[i16]) -> (lines: Vec<Vec<u8>>)
    ensures
        line_bytes(lines@) == pcm_dump(hz as nat, samples@),
{
    let mut lines: Vec<Vec<u8>> = Vec::new();
    let mut header = [0u8; PCM_HEADER_CAPACITY];
    let ghost h = pcm_header_line(hz as nat, samples@.len());
    match format_mic_pcm_header(hz, samples.len(), &mut header) {
        Ok(line) => {
            lines.push(vstd::slice::slice_to_vec(line.as_bytes()));
            assert(line_bytes(lines@) =~= seq![h]);
        },
        Err(e) => {
            assert(e == FormatError::Truncated);
            assert(line_bytes(lines@) =~= Seq::empty());
        },
    }
    let n = samples.len();
    let mut offset: usize = 0;
    assert(line_bytes(lines@) + pcm_rows(samples@, 0) == pcm_dump(hz as nat, samples@));
    while offset < n
        invariant
            n == samples@.len(),
            offset <= n,
            line_bytes(lines@) + pcm_rows(samples@, offset as nat) == pcm_dump(hz as nat, samples@),
        decreases n - offset,
    {
        let end: usize = if n - offset > PCM_ROW_SAMPLES { offset + PCM_ROW_SAMPLES } else { n };
        let chunk = vstd::slice::slice_subrange(samples, offset, end);
        let mut row = [0u8; PCM_ROW_CAPACITY];
        let ghost before = line_bytes(lines@);
        let ghost line = pcm_row_line(offset as nat, samples@.subrange(offset as int, end as int));
        assert(pcm_rows(samples@, offset as nat) == (if line.len() <= PCM_ROW_CAPACITY {
            seq![line] + pcm_rows(samples@, end as nat)
        } else {
            pcm_rows(samples@, end as nat)
        }));
        match format_mic_pcm_row(offset, chunk, &mut row) {
            Ok(text) => {
                lines.push(vstd::slice::slice_to_vec(text.as_bytes()));
                assert(line_bytes(lines@) =~= before.push(line));
                assert(before.push(line) + pcm_rows(samples@, end as nat) =~= before + (seq![line]
                    + pcm_rows(samples@, end as nat)));
            },
            Err(e) => {
                assert(e == FormatError::Truncated);
            },
        }
        offset = end;
    }
    assert(pcm_rows(samples@, offset as nat) == Seq::<Seq<u8>>::empty());
    assert(line_bytes(lines@) + Seq::<Seq<u8>>::empty() =~= line_bytes(lines@));
    lines
}

/// `line` when it fits a touch line buffer, else nothing.
pub open spec fn touch_fit(line: Seq<u8>) -> Option<Seq<u8>> {
    if line.len() <= TOUCH_CAPACITY { Some(line) } else { None }
}

/// The bytes of an optional line.
pub open spec fn opt_bytes(o: Option<Vec<u8>>) -> Option<Seq<u8>> {
    match o {
        Some(v) => Some(v@),
        None => None,
    }
}

/// The line announcing walk target `id` (`kind`, centre, radius).
pub fn touch_target(id: u8, kind: &str, x: u16, y: u16, r: u16) -> (line: Option<Vec<u8>>)
    ensures
        opt_bytes(line) == touch_fit(touch_target_line(id, kind, x, y, r)),
{
    let mut buf = [0u8; TOUCH_CAPACITY];
    match format_touch_target(id, kind, x, y, r, &mut buf) {
        Ok(text) => Some(vstd::slice::slice_to_vec(text.as_bytes())),
        Err(e) => {
            assert(e == FormatError::Truncated);
            None
        },
    }
}

/// The line of a touch sample taken while target `id` at (`tx`, `ty`) waits.
pub fn touch_at(id: u8, sample: &TouchSample, tx: u16, ty: u16) -> (line: Option<Vec<u8>>)
    ensures
        opt_bytes(line) == touch_fit(touch_at_line(id, *sample, tx, ty)),
{
    let mut buf = [0u8; TOUCH_CAPACITY];
    match format_touch_at(id, sample, tx, ty, &mut buf) {
        Ok(text) => Some(vstd::slice::slice_to_vec(text.as_bytes())),
        Err(e) => {
            assert(e == FormatError::Truncated);
            None
        },
    }
}

/// The verdict line of target `id`: touch (`x`, `y`), target (`tx`, `ty`),
/// distance `d`.
pub fn touch_verdict(id: u8, verdict: &str, x: u16, y: u16, tx: u16, ty: u16, d: u16) -> (line: Option<Vec<u8>>)
    ensures
        opt_bytes(line) == touch_fit(touch_verdict_line(id, verdict, x, y, tx, ty, d)),
{
    let mut buf = [0u8; TOUCH_CAPACITY];
    match format_touch_verdict(id, verdict, x, y, tx, ty, d, &mut buf) {
        Ok(text) => Some(vstd::slice::slice_to_vec(text.as_bytes())),
        Err(e) => {
            assert(e == FormatError::Truncated);
            None
        },
    }
}

/// `line` when it fits a buffer of `cap` bytes, else nothing.
pub open spec fn fit(line: Seq<u8>, cap: nat) -> Option<Seq<u8>> {
    if line.len() <= cap { Some(line) } else { None }
}

/// The line a formatter wrote, copied out, or nothing when it did not fit.
fn kept(r: Result<&str, FormatError>, Ghost(line): Ghost<Seq<u8>>, Ghost(cap): Ghost<nat>) -> (o: Option<Vec<u8>>)
    requires
        formatted(r, line, cap),
    ensures
        opt_bytes(o) == fit(line, cap),
{
    match r {
        Ok(text) => {
            let v = vstd::slice::slice_to_vec(text.as_bytes());
            assert(v@ =~= line);
            Some(v)
        },
        Err(e) => {
            assert(e == FormatError::Truncated);
            assert(line.len() > cap);
            None
        },
    }
}

/// The boot banner line.
pub fn hello(banner: &Hello) -> (line: Option<Vec<u8>>)
    ensures
        opt_bytes(line) == fit(hello_line(*banner), HELLO_CAPACITY as nat),
{
    let mut buf = [0u8; HELLO_CAPACITY];
    kept(format_hello(banner, &mut buf), Ghost(hello_line(*banner)), Ghost(HELLO_CAPACITY as nat))
}

/// The build line: commit `hash`, and whether the tree was dirty.
pub fn git(hash: &str, dirty: bool) -> (line: Option<Vec<u8>>)
    ensures
        opt_bytes(line) == fit(git_line(hash, dirty), GIT_CAPACITY as nat),
{
    let mut buf = [0u8; GIT_CAPACITY];
    kept(format_git(hash, dirty, &mut buf), Ghost(git_line(hash, dirty)), Ghost(GIT_CAPACITY as nat))
}

/// The line of monitored net levels.
pub fn gpio(sample: &GpioSample) -> (line: Option<Vec<u8>>)
    ensures
        opt_bytes(line) == fit(gpio_line(*sample), GPIO_CAPACITY as nat),
{
    let mut buf = [0u8; GPIO_CAPACITY];
    kept(format_gpio(sample, &mut buf), Ghost(gpio_line(*sample)), Ghost(GPIO_CAPACITY as nat))
}

/// The once-a-second liveness line.
pub fn heartbeat(snapshot: &Snapshot) -> (line: Option<Vec<u8>>)
    ensures
        opt_bytes(line) == fit(heartbeat_line(*snapshot), HEARTBEAT_CAPACITY as nat),
{
    let mut buf = [0u8; HEARTBEAT_CAPACITY];
    kept(format_heartbeat(snapshot, &mut buf), Ghost(heartbeat_line(*snapshot)), Ghost(HEARTBEAT_CAPACITY as nat))
}

/// The line of a button press or release.
pub fn edge(change: &Edge) -> (line: Option<Vec<u8>>)
    ensures
        opt_bytes(line) == fit(edge_line(*change), EDGE_CAPACITY as nat),
{
    let mut buf = [0u8; EDGE_CAPACITY];
    kept(format_edge(change, &mut buf), Ghost(edge_line(*change)), Ghost(EDGE_CAPACITY as nat))
}

/// The line of the system bus roster.
pub fn i2c(sample: &I2cSample) -> (line: Option<Vec<u8>>)
    ensures
        opt_bytes(line) == fit(i2c_line(*sample), I2C_CAPACITY as nat),
{
    let mut buf = [0u8; I2C_CAPACITY];
    kept(format_i2c(sample, &mut buf), Ghost(i2c_line(*sample)), Ghost(I2C_CAPACITY as nat))
}

/// The line of a digitizer reading.
pub fn touch(sample: &TouchSample) -> (line: Option<Vec<u8>>)
    ensures
        opt_bytes(line) == fit(touch_line(*sample), TOUCH_CAPACITY as nat),
{
    let mut buf = [0u8; TOUCH_CAPACITY];
    kept(format_touch(sample, &mut buf), Ghost(touch_line(*sample)), Ghost(TOUCH_CAPACITY as nat))
}

/// The line of a microphone window.
pub fn mic(sample: &MicSample) -> (line: Option<Vec<u8>>)
    ensures
        opt_bytes(line) == fit(mic_line(*sample), MIC_CAPACITY as nat),
{
    let mut buf = [0u8; MIC_CAPACITY];
    kept(format_mic(sample, &mut buf), Ghost(mic_line(*sample)), Ghost(MIC_CAPACITY as nat))
}

/// The line of a card change.
pub fn scene(card: Scene) -> (line: Option<Vec<u8>>)
    ensures
        opt_bytes(line) == fit(head() + sb("scene=") + sb(scene_token(card)), SCENE_CAPACITY as nat),
{
    let mut buf = [0u8; SCENE_CAPACITY];
    kept(
        format_scene(card, &mut buf),
        Ghost(head() + sb("scene=") + sb(scene_token(card))),
        Ghost(SCENE_CAPACITY as nat),
    )
}

/// The line of a snowflake render time in microseconds.
pub fn snowflake(us: u32) -> (line: Option<Vec<u8>>)
    ensures
        opt_bytes(line) == fit(number_line("snowflake us=", us as nat), SNOWFLAKE_CAPACITY as nat),
{
    let mut buf = [0u8; SNOWFLAKE_CAPACITY];
    kept(format_snowflake(us, &mut buf), Ghost(number_line("snowflake us=", us as nat)), Ghost(SNOWFLAKE_CAPACITY as nat))
}

/// The line of the unassigned radio pins.
pub fn leftover(sample: &LeftoverSample) -> (line: Option<Vec<u8>>)
    ensures
        opt_bytes(line) == fit(leftover_line(*sample), LEFTOVER_CAPACITY as nat),
{
    let mut buf = [0u8; LEFTOVER_CAPACITY];
    kept(format_leftover(sample, &mut buf), Ghost(leftover_line(*sample)), Ghost(LEFTOVER_CAPACITY as nat))
}

/// The line of a battery and charger reading.
pub fn charge(sample: &ChargeSample) -> (line: Option<Vec<u8>>)
    ensures
        opt_bytes(line) == fit(charge_line(*sample), CHARGE_CAPACITY as nat),
{
    let mut buf = [0u8; CHARGE_CAPACITY];
    kept(format_charge(sample, &mut buf), Ghost(charge_line(*sample)), Ghost(CHARGE_CAPACITY as nat))
}

/// The line of a Wi-Fi scan count.
pub fn wifi(n: u16) -> (line: Option<Vec<u8>>)
    ensures
        opt_bytes(line) == fit(number_line("wifi n=", n as nat), WIFI_CAPACITY as nat),
{
    let mut buf = [0u8; WIFI_CAPACITY];
    kept(format_wifi(n, &mut buf), Ghost(number_line("wifi n=", n as nat)), Ghost(WIFI_CAPACITY as nat))
}

/// The line of a BLE scan count.
pub fn ble(n: u16) -> (line: Option<Vec<u8>>)
    ensures
        opt_bytes(line) == fit(number_line("ble n=", n as nat), BLE_CAPACITY as nat),
{
    let mut buf = [0u8; BLE_CAPACITY];
    kept(format_ble(n, &mut buf), Ghost(number_line("ble n=", n as nat)), Ghost(BLE_CAPACITY as nat))
}

/// The line of a frontlight duty change.
pub fn lamp(duty: u16) -> (line: Option<Vec<u8>>)
    ensures
        opt_bytes(line) == fit(number_line("lamp=", duty as nat), LAMP_CAPACITY as nat),
{
    let mut buf = [0u8; LAMP_CAPACITY];
    kept(format_lamp(duty, &mut buf), Ghost(number_line("lamp=", duty as nat)), Ghost(LAMP_CAPACITY as nat))
}

/// The line of a finished panel refresh.
pub fn panel(stamp: &PanelStamp) -> (line: Option<Vec<u8>>)
    ensures
        opt_bytes(line) == fit(panel_line(*stamp), PANEL_CAPACITY as nat),
{
    let mut buf = [0u8; PANEL_CAPACITY];
    kept(format_panel(stamp, &mut buf), Ghost(panel_line(*stamp)), Ghost(PANEL_CAPACITY as nat))
}

} // verus!
