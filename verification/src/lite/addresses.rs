//! 7-bit addresses on the **system** I2C bus.
//!
//! Park the IP2315 charger off this bus except for the charge
//! transaction (M5IOE1 `PYG11`). Leaving it mounted can hang the bus.

use vstd::prelude::*;

verus! {

/// FT6336G touch.
pub const FT6336G: u8 = 0x38;
/// RX8130CE RTC.
pub const RX8130CE: u8 = 0x32;
/// BMI270 IMU (SDO to GND).
pub const BMI270: u8 = 0x68;
/// M5PM1 PMIC.
pub const M5PM1: u8 = 0x6E;
/// M5IOE1 on this board. The chip's own default is [`M5IOE1_UM`].
pub const M5IOE1: u8 = 0x4F;
/// M5IOE1 library default / UM floor.
pub const M5IOE1_UM: u8 = 0x6F;
/// IP2315 charger. Gated; see the module docs.
pub const IP2315: u8 = 0x75;
/// ST25R3916 leftover pad on Lite. Probe for NAK only.
pub const ST25R3916_LEFTOVER: u8 = 0x50;
/// ST25R3916 Device_ID register, for the leftover probe only.
pub const ST25R3916_LEFTOVER_DEVICE_ID: u8 = 0x00;

} // verus!
