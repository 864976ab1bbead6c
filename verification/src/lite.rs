//! Board support shared by both SKUs (the PaperMono-Lite map): GPIOs,
//! I2C addresses, expander and PMIC nets, panel geometry, touch decode
//! and IMU orientation.

use vstd::prelude::*;

pub mod addresses;
pub mod buzzer;
pub mod display;
pub mod imu;
pub mod ioe1;
pub mod pins;
pub mod pmic;
pub mod profile;
pub mod rtc;
pub mod touch;


verus! {

/// Official SKU code of the Lite board (`C153-Lite`).
pub const SKU: &'static str = "C153-Lite";

} // verus!
