//! RX8130CE on the system I2C bus.

use vstd::prelude::*;

verus! {

/// 7-bit address. Same as [`crate::lite::addresses::RX8130CE`].
pub const ADDRESS: u8 = crate::lite::addresses::RX8130CE;
/// Flag register (read-only probe). Do not write `SEC`.
pub const FLAG: u8 = 0x1D;
/// Write-0-to-clear the timer flag only.
pub const FLAG_CLEAR_TF: u8 = 0xAF;
/// Write-0-to-clear TF and AF.
pub const FLAG_CLEAR_IRQ: u8 = 0xA7;
/// TF or AF.
pub const FLAG_IRQ: u8 = 0x18;
/// Timer counter low.
pub const TIMER_COUNTER_L: u8 = 0x1A;
/// Extension register (TE / TSEL).
pub const EXTENSION: u8 = 0x1C;
/// Control register (TIE).
pub const CONTROL: u8 = 0x1E;
/// Timer-enable / timer-IRQ bit of [`EXTENSION`] / [`CONTROL`].
pub const TIMER_EN: u8 = 0x10;
/// TSEL 64 Hz.
pub const TSEL_64HZ: u8 = 0x01;
/// 10 s at 64 Hz.
pub const TIMER_10S_COUNTS: u16 = 640;
/// User RAM byte used as a one-shot "already woke" mark.
pub const USER_RAM_MARK: u8 = 0x23;
/// Value in [`USER_RAM_MARK`] after RTC sleep is armed.
pub const USER_RAM_SLEPT: u8 = 0xA5;

} // verus!
