//! Passive buzzer on GPIO42 (`BB_PWM`): LEDC timer 3 / channel 7,
//! 10-bit, 40–12000 Hz.

use vstd::prelude::*;

verus! {

/// LEDC timer index.
pub const TIMER: u8 = 3;
/// LEDC channel index.
pub const CHANNEL: u8 = 7;
/// Duty width (bits).
pub const DUTY_BITS: u8 = 10;
/// Click tone (Hz).
pub const BEEP_HZ: u32 = 2000;
/// How long a key click sounds, in milliseconds.
pub const BEEP_MS: u64 = 40;
/// Nominal 50% on-time.
pub const DUTY_PCT: u8 = 50;
/// Duty cycle (%) at which the magnetic buzzer is loudest.
pub const DUTY_MAX_PCT: u8 = 25;

/// Duty (%) for a volume: volume clamped to 100, scaled linearly onto
/// `0..=DUTY_MAX_PCT`, rounded down.
pub open spec fn spec_volume_duty(volume: int) -> int {
    let vol = if volume > 100 { 100 } else { volume };
    vol * 25 / 100
}

/// Maps a volume percentage (0..=100, larger clamps) to the LEDC duty
/// percentage (0..=25): quietest at 0, loudest at 100.
pub fn volume_to_duty_pct(volume: u8) -> (duty: u8)
    ensures
        duty == spec_volume_duty(volume as int),
        duty <= DUTY_MAX_PCT,
{
    let vol: u8 = if volume > 100 { 100 } else { volume };
    assert((vol as int) * 25 / 100 <= 25) by (nonlinear_arith)
        requires vol <= 100;
    ((vol as u16 * DUTY_MAX_PCT as u16) / 100) as u8
}

} // verus!
