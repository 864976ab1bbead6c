//! Computations and shared state of the bench firmware that do not touch
//! hardware: PCM energy of microphone windows and dump lines, target marks
//! and frames turned into panel RAM rows with the refresh policy and the
//! refresh sequences, the
//! touch-target walk and card navigation decisions, the touch-gutter
//! sliders and the Wi-Fi card button, the card layouts and the drawing
//! steps of the Bluetooth, legend, tone and sleep screens, the NFC poll
//! sequence, the buzzer queue, the telemetry schedule and its serial
//! lines, and the registers
//! through which tasks hand the LoRa, NFC, Bluetooth, charge, I2C, lamp,
//! board, card and sleep state to the UI and telemetry.
//!
//! The tasks that own pins, buses, radios and timers run outside this
//! library: they read inputs, call these functions, and carry out what
//! they return.

pub mod mic;
pub mod targets;
pub mod touch_bus;
pub mod panel;
pub mod beep;
pub mod lora;
pub mod nfc;
pub mod cdc;
pub mod sleep_wake;
pub mod board;
pub mod ui;
pub mod heartbeat;
pub mod radio;
pub mod share;
pub mod draw;
pub mod nfc_poll;
pub mod layout;
pub mod card_ops;
pub mod panel_steps;
