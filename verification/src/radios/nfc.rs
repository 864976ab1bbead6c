//! ST25R3916 NFC nets on PaperMono (`C153`) only. The chip driver lives
//! in [`crate::st25r3916`].

use vstd::prelude::*;

verus! {

/// NFC IRQ (GPIO6).
pub const IRQ: u8 = 6;
/// 7-bit I2C address on the system bus (`0x50`).
pub const ADDRESS: u8 = 0x50;
/// M5IOE1 `PYG4`: NFC power enable (drive high to power the chip).
pub const IOE1_ENABLE: u8 = 4;

} // verus!
