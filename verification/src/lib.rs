//! Board support, chip protocols and log lines for the M5Stack PaperMono
//! (`C153`) and PaperMono-Lite (`C153-Lite`), with machine-checked contracts.

pub mod m5ioe1;
pub mod m5pm1;
pub mod text;
pub mod bus;
pub mod firmware;
pub mod lite;
pub mod log;
pub mod radios;
pub mod ssd1677;
pub mod st25r3916;
