# papermono

Verified board support for the M5Stack PaperMono (`C153`) and
PaperMono-Lite (`C153-Lite`): register maps, chip drivers, log-line
formatting and parsing, written in Verus with contracts proved against
models of the bytes each operation puts on the wire.

## Layout

- `src/bus.rs` — the I2C / SPI / pin traits the drivers use, the traffic
  record (`Event`, `I2cRequest`, `SpiRequest`) and plans of planned runs
  (`on_track`, `completed`, `stopped`, `ran`).
- `src/m5ioe1.rs`, `src/m5pm1.rs` — I/O expander (with the IP2315 gate
  typestate) and power-management chip.
- `src/ssd1677.rs` — panel controller command traffic (OTP waveforms).
- `src/st25r3916.rs` and `src/st25r3916/` — NFC front end: registers,
  FIFO, passive-target memory, ISO 14443-A polling, NDEF, Type 2 and
  Type 4 tag emulation.
- `src/radios/` — full-SKU pin map, SX1262 LoRa driver and NFC pins.
- `src/lite/` — board tables shared by both SKUs: addresses, pins,
  display geometry, touch decoding, BMI270 bring-up and orientation.
- `src/log.rs`, `src/log/parse.rs`, `src/text.rs` — CDC log lines: the
  writers, and the reader that splits captures on `simple-debug:`.
- `src/firmware/` — the bench firmware's logic without its hardware
  tasks: PCM energy and dump lines, panel RAM rows, the refresh policy
  and the refresh sequences, the touch-target walk, card navigation, gutter sliders, the
  buzzer queue, the telemetry schedule and its serial lines, the RTC
  sleep sequences, the NFC poll as a state machine, the card layouts and
  the drawing steps of the Bluetooth, legend, tone and sleep screens, and
  the registers tasks share (LoRa, NFC, Bluetooth, charge, I2C roster,
  lamp, card).
- `tests/` — scenario tests with scripted buses.
- `app/` — embedded-hal 1.0 adapters for the bus traits, and a
  displayable copy of the NFC error.
