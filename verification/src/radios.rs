//! The full PaperMono (`C153`): the shared board map plus the ST25R3916
//! NFC and Stamp LoRa-1262 radios. Do not use this module from a Lite
//! image.

use vstd::prelude::*;
pub use crate::lite::{addresses, display, ioe1, pins, pmic, touch, SKU as LITE_SKU};

pub mod lora;
pub mod nfc;

verus! {

/// Official SKU code of the full board (`C153`).
pub const SKU: &'static str = "C153";

} // verus!
