//! M5PM1 board nets present on both SKUs. Registers live in
//! [`crate::m5pm1`]. `G2` (LoRa enable) is full-SKU only.

use vstd::prelude::*;

verus! {

/// `G0` `WAKEin`: RTC INT.
pub const WAKE_RTC_INT: u8 = 0;
/// `G3` PWM: frontlight into the AW9967.
pub const FRONTLIGHT_PWM: u8 = 3;
/// `G4` `WAKEin`: IMU INT.
pub const WAKE_IMU_INT: u8 = 4;

} // verus!
