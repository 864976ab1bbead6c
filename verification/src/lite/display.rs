//! Panel geometry shared by both SKUs: official 480×800 tables, M5GFX
//! `epd_*` catalog titles, and the Lite USB-C-down RAM map. OTP opcodes
//! and [`OtpRefresh`] live in [`crate::ssd1677`].

use vstd::prelude::*;
use core::time::Duration;
pub use crate::ssd1677::{
    gray_planes, ram_addr10, OtpRefresh, BOOSTER_SOFT_START, BOOSTER_SOFT_START_OTP,
    BORDER_OTP_FULL, BORDER_OTP_PARTIAL, BORDER_WAVEFORM, DATA_ENTRY_MODE, DATA_ENTRY_XDEC_YINC,
    DATA_ENTRY_XY_INC, DEEP_SLEEP, DEEP_SLEEP_MODE1, DISPLAY_CTRL1_NORMAL,
    DISPLAY_UPDATE_CONTROL_1, DISPLAY_UPDATE_CONTROL_2, DRIVER_OUTPUT, DRIVER_OUTPUT_480_GATES,
    GRAY_BLACK, GRAY_DARK, GRAY_LIGHT, GRAY_WHITE, MASTER_ACTIVATION, OTP_BUSY_TIMEOUT_MS,
    OTP_BYTES_PER_ROW, OTP_GRAY_TITLE, OTP_MONO_TITLE, OTP_PARTIAL_TITLE, OTP_PLANE_BYTES,
    OTP_RAM_HEIGHT, OTP_RAM_WIDTH, OTP_SLEEP_MS, OTP_SPI_HZ, RAM_X_COUNTER, RAM_X_WINDOW,
    RAM_Y_COUNTER, RAM_Y_WINDOW, SW_RESET, TEMP_SENSOR, TEMP_SENSOR_INTERNAL, TEMP_VALUE,
    TEMP_VALUE_GRAY_OTP, UPDATE_SEQ_OTP_4GRAY, UPDATE_SEQ_OTP_MODE1, UPDATE_SEQ_OTP_MONO,
    UPDATE_SEQ_OTP_MONO_SYNC, UPDATE_SEQ_OTP_PARTIAL, WRITE_FSCL_MAX_HZ, WRITE_RAM_BW,
    WRITE_RAM_RED,
};

verus! {

/// Official panel width (pixels).
pub const WIDTH: u16 = 480;
/// Official panel height (pixels).
pub const HEIGHT: u16 = 800;
/// Bytes per row in one 1-bit plane at official [`WIDTH`] (`480 / 8`).
pub const BYTES_PER_ROW: usize = 60;
/// Bytes in one 1-bit plane (`480×800/8`).
pub const PLANE_BYTES: usize = 48000;
/// Same OTP 4-gray plus unique RAM-corner bars.
pub const OTP_ORIENT_TITLE: &'static str = "otp_orient";
/// Scene stamp for the target walk (not an [`OtpRefresh`] title).
pub const OTP_TARGET_TITLE: &'static str = "otp_target";
/// Legacy stamp that mixed first Mode 1 and later partial.
pub const OTP_FAST_TITLE: &'static str = "otp_fast";
/// Catalog default for "partials then one Mode 1 full".
pub const PARTIALS_BEFORE_FULL: u8 = 7;

/// In-plane page orientation of the enclosure (USB-C edge position).
#[derive(Debug, Clone, Copy, PartialEq, Eq, Structural)]
pub enum PageRotation {
    /// USB-C on the bottom short edge.
    Portrait0,
    /// USB-C on the top short edge.
    Portrait180,
    /// USB-C on the right short edge.
    Landscape0,
    /// USB-C on the left short edge.
    Landscape180,
}

/// Official M5GFX LUT refresh-speed titles (laboratory figures, not
/// timeouts).
#[derive(Debug, Clone, Copy, PartialEq, Eq, Structural)]
pub enum RefreshMode {
    /// `epd_quality` — lab 4.71 s.
    EpdQuality,
    /// `epd_text` — lab 0.45 s.
    EpdText,
    /// `epd_fast` — lab 0.34 s.
    EpdFast,
    /// `epd_fastest` — lab 0.07 s.
    EpdFastest,
}

/// Laboratory time of one refresh, in milliseconds.
pub open spec fn lab_millis(m: RefreshMode) -> u64 {
    match m {
        RefreshMode::EpdQuality => 4710,
        RefreshMode::EpdText => 450,
        RefreshMode::EpdFast => 340,
        RefreshMode::EpdFastest => 70,
    }
}

/// M5GFX title of a mode.
pub open spec fn refresh_title(m: RefreshMode) -> &'static str {
    match m {
        RefreshMode::EpdQuality => "epd_quality",
        RefreshMode::EpdText => "epd_text",
        RefreshMode::EpdFast => "epd_fast",
        RefreshMode::EpdFastest => "epd_fastest",
    }
}

/// The value `Duration::from_millis(ms)` builds.
pub uninterp spec fn duration_from_millis(ms: u64) -> Duration;

/// `core::time::Duration::from_millis`: the duration of `ms`
/// milliseconds. Nothing about the value beyond that name is claimed.
#[verifier::external_body]
fn duration_millis(ms: u64) -> (d: Duration)
    ensures
        d == duration_from_millis(ms),
{
    Duration::from_millis(ms)
}

impl RefreshMode {
    /// Laboratory reference for one refresh on PaperMono. Not a timeout.
    pub fn lab_duration(self) -> (d: Duration)
        ensures
            d == duration_from_millis(lab_millis(self)),
    {
        let ms: u64 = match self {
            RefreshMode::EpdQuality => 4710,
            RefreshMode::EpdText => 450,
            RefreshMode::EpdFast => 340,
            RefreshMode::EpdFastest => 70,
        };
        duration_millis(ms)
    }

    /// M5GFX title used in `panel mode=`.
    pub fn title(self) -> (s: &'static str)
        ensures
            s == refresh_title(self),
    {
        match self {
            RefreshMode::EpdQuality => "epd_quality",
            RefreshMode::EpdText => "epd_text",
            RefreshMode::EpdFast => "epd_fast",
            RefreshMode::EpdFastest => "epd_fastest",
        }
    }
}

/// Physical USB-C-down coordinates of a controller RAM pixel (Lite): RAM X
/// is physical Y, RAM Y is physical X.
pub open spec fn ram_to_phys(ram_x: u16, ram_y: u16) -> (u16, u16) {
    (ram_y, ram_x)
}

/// Controller RAM coordinates of a physical USB-C-down pixel (Lite).
pub open spec fn phys_to_ram(phys_x: u16, phys_y: u16) -> (u16, u16) {
    (phys_y, phys_x)
}

/// Inverse of [`otp_ram_to_usb_down`] (Lite, USB-C down).
pub fn usb_down_to_otp_ram(phys_x: u16, phys_y: u16) -> (r: (u16, u16))
    ensures
        r == phys_to_ram(phys_x, phys_y),
{
    (phys_y, phys_x)
}

/// USB-C-down portrait from controller RAM (Lite).
pub fn otp_ram_to_usb_down(ram_x: u16, ram_y: u16) -> (r: (u16, u16))
    ensures
        r == ram_to_phys(ram_x, ram_y),
{
    (ram_y, ram_x)
}

/// The two maps undo each other in both directions.
pub proof fn law_usb_down_roundtrip(x: u16, y: u16)
    ensures
        ({
            let (px, py) = ram_to_phys(x, y);
            phys_to_ram(px, py) == (x, y)
        }),
        ({
            let (rx, ry) = phys_to_ram(x, y);
            ram_to_phys(rx, ry) == (x, y)
        }),
{
}

/// The laboratory figures order the modes from slowest to fastest.
pub proof fn law_lab_order()
    ensures
        lab_millis(RefreshMode::EpdQuality) > lab_millis(RefreshMode::EpdText),
        lab_millis(RefreshMode::EpdText) > lab_millis(RefreshMode::EpdFast),
        lab_millis(RefreshMode::EpdFast) > lab_millis(RefreshMode::EpdFastest),
{
}

} // verus!
