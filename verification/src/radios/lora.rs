//! Stamp LoRa-1262 (Semtech SX1262) on PaperMono (`C153`) only: opcodes,
//! registers, parameter encodings, status decoding, and the SPI driver.
//!
//! Citations: Semtech SX1261/2 Datasheet Rev 2.2, section 13.

use vstd::prelude::*;
use crate::bus::{
    SpiBus, OutputPin, InputPin, SpiLog, SpiRequest, PinId, Event, polls, poll_hit, repeat,
    lemma_polls_skip, lemma_polls_prefix, lemma_prefix_trans, lemma_drop_last_prefix,
};

verus! {

/// LoRa IRQ / DIO1 (GPIO5).
pub const IRQ: u8 = 5;
/// SX1262 BUSY line (GPIO21). No internal pull on ESP32-S3 (Table 2-1).
pub const BUSY: u8 = 21;
/// LoRa SPI MOSI (GPIO38).
pub const SPI_MOSI: u8 = 38;
/// LoRa SPI CLK (GPIO39). Multiplex off default ESP32-S3 JTAG `MTCK`.
pub const SPI_CLK: u8 = 39;
/// LoRa SPI MISO (GPIO40). Multiplex off default ESP32-S3 JTAG `MTDO`.
pub const SPI_MISO: u8 = 40;
/// SX1262 NSS chip select (GPIO41). Active low. Multiplex off default ESP32-S3 JTAG `MTDI`.
pub const NSS: u8 = 41;
/// M5IOE1 `PYG2` (`PYB_LoRa_ANT_SW`): LoRa RF antenna switch.
pub const IOE1_ANTENNA_SWITCH: u8 = 2;
/// M5IOE1 `PYG10` (`PYB_LoRa_RST`): LoRa hardware reset line (active low).
pub const IOE1_RESET: u8 = 10;
/// M5PM1 `G2` (`LoRa_EN`): Enables `3V3_L2_LoRa` switched power rail.
pub const PMIC_ENABLE: u8 = 2;
/// SX1262 SPI specification maximum clock rate in hertz (16 MHz). Not a measured board clock.
pub const SPI_SPEC_MAX_HZ: u32 = 16_000_000;
/// SPI clock rate used by the official factory demo firmware (8 MHz).
pub const SPI_USERDEMO_HZ: u32 = 8_000_000;
/// Semtech SX1262 Section 13.1.1 "SetSleep" command opcode (`0x84`).
pub const CMD_SET_SLEEP: u8 = 0x84;
/// Semtech SX1262 Section 13.1.2 "SetStandby" command opcode (`0x80`).
pub const CMD_SET_STANDBY: u8 = 0x80;
/// Semtech SX1262 Section 13.1.3 "SetFs" command opcode (`0xC1`).
pub const CMD_SET_FS: u8 = 0xC1;
/// Semtech SX1262 Section 13.1.4 "SetTx" command opcode (`0x83`).
pub const CMD_SET_TX: u8 = 0x83;
/// Semtech SX1262 Section 13.1.5 "SetRx" command opcode (`0x82`).
pub const CMD_SET_RX: u8 = 0x82;
/// Semtech SX1262 Section 13.1.8 "SetCad" command opcode (`0xC5`).
pub const CMD_SET_CAD: u8 = 0xC5;
/// Semtech SX1262 Section 13.1.6 "StopTimerOnPreamble" command opcode (`0x9F`).
pub const CMD_STOP_TIMER_ON_PREAMBLE: u8 = 0x9F;
/// Semtech SX1262 Section 13.1.7 "SetRxDutyCycle" command opcode (`0x94`).
pub const CMD_SET_RX_DUTY_CYCLE: u8 = 0x94;
/// Semtech SX1262 Section 13.1.8 "SetRegulatorMode" command opcode (`0x96`).
pub const CMD_SET_REGULATOR_MODE: u8 = 0x96;
/// Semtech SX1262 Section 13.1.9 "CalibrateFunction" command opcode (`0x89`).
pub const CMD_CALIBRATE_FUNCTION: u8 = 0x89;
/// Semtech SX1262 Section 13.1.10 "CalibrateImage" command opcode (`0x98`).
pub const CMD_CALIBRATE_IMAGE: u8 = 0x98;
/// Semtech SX1262 Section 13.1.11 "SetPaConfig" command opcode (`0x95`).
pub const CMD_SET_PA_CONFIG: u8 = 0x95;
/// Semtech SX1262 Section 13.1.12 "SetRxTxFallbackMode" command opcode (`0x93`).
pub const CMD_SET_RX_TX_FALLBACK_MODE: u8 = 0x93;
/// Semtech SX1262 Section 13.2.1 "WriteRegister" command opcode (`0x0D`).
pub const CMD_WRITE_REGISTER: u8 = 0x0D;
/// Semtech SX1262 Section 13.2.2 "ReadRegister" command opcode (`0x1D`).
pub const CMD_READ_REGISTER: u8 = 0x1D;
/// Semtech SX1262 Section 13.2.3 "WriteBuffer" command opcode (`0x0E`).
pub const CMD_WRITE_BUFFER: u8 = 0x0E;
/// Semtech SX1262 Section 13.2.4 "ReadBuffer" command opcode (`0x1E`).
pub const CMD_READ_BUFFER: u8 = 0x1E;
/// Semtech SX1262 Section 13.3.1 "SetDioIrqParams" command opcode (`0x08`).
pub const CMD_SET_DIO_IRQ_PARAMS: u8 = 0x08;
/// Semtech SX1262 Section 13.3.2 "GetIrqStatus" command opcode (`0x12`).
pub const CMD_GET_IRQ_STATUS: u8 = 0x12;
/// Semtech SX1262 Section 13.3.3 "ClearIrqStatus" command opcode (`0x02`).
pub const CMD_CLEAR_IRQ_STATUS: u8 = 0x02;
/// Semtech SX1262 Section 13.3.4 "SetDio2AsRfSwitchCtrl" command opcode (`0x9D`).
pub const CMD_SET_DIO2_AS_RF_SWITCH_CTRL: u8 = 0x9D;
/// Semtech SX1262 Section 13.3.5 "SetDio3AsTcxoCtrl" command opcode (`0x97`).
pub const CMD_SET_DIO3_AS_TCXO_CTRL: u8 = 0x97;
/// Semtech SX1262 Section 13.4.1 "SetRfFrequency" command opcode (`0x86`).
pub const CMD_SET_RF_FREQUENCY: u8 = 0x86;
/// Semtech SX1262 Section 13.4.2 "SetPacketType" command opcode (`0x8A`).
pub const CMD_SET_PACKET_TYPE: u8 = 0x8A;
/// Semtech SX1262 Section 13.4.3 "GetPacketType" command opcode (`0x11`).
pub const CMD_GET_PACKET_TYPE: u8 = 0x11;
/// Semtech SX1262 Section 13.4.4 "SetTxParams" command opcode (`0x8E`).
pub const CMD_SET_TX_PARAMS: u8 = 0x8E;
/// Semtech SX1262 Section 13.4.5 "SetModulationParams" command opcode (`0x8B`).
pub const CMD_SET_MODULATION_PARAMS: u8 = 0x8B;
/// Semtech SX1262 Section 13.4.6 "SetPacketParams" command opcode (`0x8C`).
pub const CMD_SET_PACKET_PARAMS: u8 = 0x8C;
/// Semtech SX1262 Section 13.4.7 "SetCadParams" command opcode (`0x88`).
pub const CMD_SET_CAD_PARAMS: u8 = 0x88;
/// Semtech SX1262 Section 13.4.8 "SetBufferBaseAddress" command opcode (`0x8F`).
pub const CMD_SET_BUFFER_BASE_ADDRESS: u8 = 0x8F;
/// Semtech SX1262 Section 13.5.1 "GetStatus" command opcode (`0xC0`).
pub const CMD_GET_STATUS: u8 = 0xC0;
/// Semtech SX1262 Section 13.5.2 "GetRxBufferStatus" command opcode (`0x13`).
pub const CMD_GET_RX_BUFFER_STATUS: u8 = 0x13;
/// Semtech SX1262 Section 13.5.3 "GetPacketStatus" command opcode (`0x14`).
pub const CMD_GET_PACKET_STATUS: u8 = 0x14;
/// Semtech SX1262 Section 13.5.4 "GetRssiInst" command opcode (`0x15`).
pub const CMD_GET_RSSI_INST: u8 = 0x15;
/// Semtech SX1262 Section 13.6.1 "GetDeviceErrors" command opcode (`0x17`).
pub const CMD_GET_DEVICE_ERRORS: u8 = 0x17;
/// Semtech SX1262 Section 13.6.2 "ClearDeviceErrors" command opcode (`0x07`).
pub const CMD_CLEAR_DEVICE_ERRORS: u8 = 0x07;
/// SX1262 LoRa Sync Word MSB register address (`0x0740`).
pub const REG_LORA_SYNC_WORD_MSB: u16 = 0x0740;
/// SX1262 LoRa Sync Word LSB register address (`0x0741`).
pub const REG_LORA_SYNC_WORD_LSB: u16 = 0x0741;
/// SX1262 Over-Current Protection (OCP) register address (`0x08E7`).
pub const REG_OCP: u16 = 0x08E7;
/// Standby configuration: STDBY_RC (13 MHz RC oscillator, opcode param `0x00`).
pub const STDBY_CONFIG_RC: u8 = 0x00;
/// Standby configuration: STDBY_XOSC (32 MHz crystal oscillator, opcode param `0x01`).
pub const STDBY_CONFIG_XOSC: u8 = 0x01;
/// Regulator mode: internal LDO enabled (opcode param `0x00`).
pub const REGULATOR_LDO: u8 = 0x00;
/// Regulator mode: internal DC-DC converter enabled (opcode param `0x01`).
pub const REGULATOR_DC_DC: u8 = 0x01;
/// Fallback mode: return to FS mode after packet handling (opcode param `0x40`).
pub const FALLBACK_FS: u8 = 0x40;
/// Fallback mode: return to STDBY_XOSC mode after packet handling (opcode param `0x30`).
pub const FALLBACK_STDBY_XOSC: u8 = 0x30;
/// Fallback mode: return to STDBY_RC mode after packet handling (opcode param `0x20`).
pub const FALLBACK_STDBY_RC: u8 = 0x20;
/// Packet type: GFSK modem (opcode param `0x00`).
pub const PACKET_TYPE_GFSK: u8 = 0x00;
/// Packet type: LoRa modem (opcode param `0x01`).
pub const PACKET_TYPE_LORA: u8 = 0x01;
/// TCXO control voltage: 3.0 V (opcode param `0x06`).
pub const TCXO_CTRL_3_0V: u8 = 0x06;
/// Default TCXO stabilization delay: 320 ticks (5.0 ms at 15.625 us/tick).
pub const TCXO_DEFAULT_DELAY_TICKS: u32 = 0x000140;
/// Image calibration frequency step 1 for 902–928 MHz ISM band (`0xE1` = 900 MHz).
pub const CAL_IMG_902_MHZ: u8 = 0xE1;
/// Image calibration frequency step 2 for 902–928 MHz ISM band (`0xE9` = 932 MHz).
pub const CAL_IMG_928_MHZ: u8 = 0xE9;
/// PA configuration: SX1262 device selection (`0x00`).
pub const PA_DEVICE_SEL_SX1262: u8 = 0x00;
/// PA configuration: default lookup table (`0x01`).
pub const PA_LUT_DEFAULT: u8 = 0x01;
/// PA configuration: bench-safe +14 dBm duty cycle setting (`0x02`).
pub const PA_DUTY_CYCLE_14DBM: u8 = 0x02;
/// PA configuration: bench-safe +14 dBm hpMax setting (`0x03`).
pub const PA_HP_MAX_14DBM: u8 = 0x03;
/// PA configuration: full +22 dBm duty cycle setting (`0x04`).
pub const PA_DUTY_CYCLE_22DBM: u8 = 0x04;
/// PA configuration: full +22 dBm hpMax setting (`0x07`).
pub const PA_HP_MAX_22DBM: u8 = 0x07;
/// Power amplifier ramp time: 40 us (`0x02`).
pub const RAMP_40_US: u8 = 0x02;
/// Over-current protection clamp: 60 mA (`0x18`) for bench test safety.
pub const OCP_60_MA: u8 = 0x18;
/// Over-current protection clamp: 140 mA (`0x38`) default.
pub const OCP_140_MA: u8 = 0x38;
/// LoRa spreading factor: SF7 (`0x07`).
pub const LORA_SF7: u8 = 0x07;
/// LoRa spreading factor: SF8 (`0x08`).
pub const LORA_SF8: u8 = 0x08;
/// LoRa spreading factor: SF9 (`0x09`).
pub const LORA_SF9: u8 = 0x09;
/// LoRa spreading factor: SF10 (`0x0A`).
pub const LORA_SF10: u8 = 0x0A;
/// LoRa spreading factor: SF11 (`0x0B`).
pub const LORA_SF11: u8 = 0x0B;
/// LoRa spreading factor: SF12 (`0x0C`).
pub const LORA_SF12: u8 = 0x0C;
/// LoRa signal bandwidth: 125 kHz (`0x04`).
pub const LORA_BW_125_KHZ: u8 = 0x04;
/// LoRa signal bandwidth: 250 kHz (`0x05`).
pub const LORA_BW_250_KHZ: u8 = 0x05;
/// LoRa signal bandwidth: 500 kHz (`0x06`).
pub const LORA_BW_500_KHZ: u8 = 0x06;
/// LoRa coding rate: 4/5 (`0x01`).
pub const LORA_CR_4_5: u8 = 0x01;
/// LoRa coding rate: 4/6 (`0x02`).
pub const LORA_CR_4_6: u8 = 0x02;
/// LoRa coding rate: 4/7 (`0x03`).
pub const LORA_CR_4_7: u8 = 0x03;
/// LoRa coding rate: 4/8 (`0x04`).
pub const LORA_CR_4_8: u8 = 0x04;
/// LoRa Low Data Rate Optimization: disabled (`0x00`).
pub const LORA_LDRO_OFF: u8 = 0x00;
/// LoRa Low Data Rate Optimization: enabled (`0x01`).
pub const LORA_LDRO_ON: u8 = 0x01;
/// LoRa packet header type: variable / explicit header (`0x00`).
pub const LORA_HEADER_VARIABLE: u8 = 0x00;
/// LoRa packet header type: fixed / implicit header (`0x01`).
pub const LORA_HEADER_FIXED: u8 = 0x01;
/// LoRa packet CRC: disabled (`0x00`).
pub const LORA_CRC_OFF: u8 = 0x00;
/// LoRa packet CRC: enabled (`0x01`).
pub const LORA_CRC_ON: u8 = 0x01;
/// LoRa packet IQ polarity: standard (`0x00`).
pub const LORA_IQ_STANDARD: u8 = 0x00;
/// LoRa packet IQ polarity: inverted (`0x01`).
pub const LORA_IQ_INVERTED: u8 = 0x01;
/// Standard LoRa private network sync word (`0x1424`, logical `0x12`).
pub const SYNC_WORD_PRIVATE: u16 = 0x1424;
/// Standard LoRa public / LoRaWAN network sync word (`0x3444`, logical `0x34`).
pub const SYNC_WORD_PUBLIC: u16 = 0x3444;
/// Meshtastic default network sync word (logical `0x2B`, encoded `0x24B4`).
pub const SYNC_WORD_MESHTASTIC: u16 = 0x24B4;
/// Alternate network sync word alias (`0x24B4`).
pub const SYNC_WORD_ALT: u16 = SYNC_WORD_MESHTASTIC;
/// Total number of 250 kHz bandwidth channels in the US915 band (902.0 to 928.0 MHz).
pub const US915_NUM_CHANNELS: usize = 104;
/// Packet transmission completed (`0x0001`).
pub const IRQ_TX_DONE: u16 = 0x1;
/// Packet reception completed (`0x0002`).
pub const IRQ_RX_DONE: u16 = 0x2;
/// Preamble detected (`0x0004`).
pub const IRQ_PREAMBLE_DETECTED: u16 = 0x4;
/// Valid sync word detected (`0x0008`).
pub const IRQ_SYNC_WORD_VALID: u16 = 0x8;
/// Valid header received (`0x0010`).
pub const IRQ_HEADER_VALID: u16 = 0x10;
/// Header error detected (`0x0020`).
pub const IRQ_HEADER_ERR: u16 = 0x20;
/// CRC error detected on payload (`0x0040`).
pub const IRQ_CRC_ERR: u16 = 0x40;
/// Channel Activity Detection (CAD) completed (`0x0080`).
pub const IRQ_CAD_DONE: u16 = 0x80;
/// Channel activity detected during CAD (`0x0100`).
pub const IRQ_CAD_DETECTED: u16 = 0x100;
/// RX or TX operation timed out (`0x0200`).
pub const IRQ_TIMEOUT: u16 = 0x200;
/// All IRQ bits combined (`0x03FF`).
pub const IRQ_ALL: u16 = 0x03FF;
/// Test bench ping frequency: 915.000 MHz.
pub const FREQ_BENCH_PING_HZ: u32 = 915_000_000;
/// Primary packet sniffer frequency: 917.625 MHz (US Slot 63).
pub const FREQ_RX_SNIFFER_PRI_HZ: u32 = 917_625_000;
/// Secondary packet sniffer frequency: 906.875 MHz (US Slot 20).
pub const FREQ_RX_SNIFFER_SEC_HZ: u32 = 906_875_000;
/// Bounded polls of the BUSY line before [`SxError::BusyTimeout`].
pub const BUSY_TIMEOUT_POLLS: u32 = 50_000;

/// Register value of an 8-bit logical sync word: the high nibble stays
/// in the high nibble of the MSB register, the low nibble moves to the
/// high nibble of the LSB register, and both low nibbles hold `0x4`.
pub open spec fn spec_encode_sync_word(sync_word: u8) -> u16 {
    let msb = (sync_word / 16) * 16 + 4;
    let lsb = (sync_word % 16) * 16 + 4;
    (msb * 256 + lsb) as u16
}

/// Encodes an 8-bit logical LoRa sync word into the 16-bit value of
/// registers 0x0740 (MSB) and 0x0741 (LSB).
pub fn encode_sync_word(sync_word: u8) -> (r: u16)
    ensures
        r == spec_encode_sync_word(sync_word),
{
    let msb: u16 = (sync_word / 16) as u16 * 16 + 4;
    let lsb: u16 = (sync_word % 16) as u16 * 16 + 4;
    msb * 256 + lsb
}

/// Center frequency in Hz of a US915 250 kHz channel slot:
/// `902_125_000 + slot * 250_000`.
pub fn us915_channel_freq_hz(slot: u8) -> (f: u32)
    ensures
        f == 902_125_000 + slot * 250_000,
{
    902_125_000 + (slot as u32) * 250_000
}

/// RF frequency register parameter of a frequency: `freq_hz * 2^25 /
/// 32 MHz`, rounded down and truncated to 32 bits.
pub open spec fn spec_rf_freq_reg(freq_hz: u32) -> u32 {
    ((freq_hz as int * 33_554_432) / 32_000_000) as u32
}

/// The 32-bit RF frequency register parameter for a frequency in hertz
/// (SetRfFrequency).
pub fn calculate_rf_freq_reg(freq_hz: u32) -> (r: u32)
    ensures
        r == spec_rf_freq_reg(freq_hz),
{
    assert((freq_hz as u64) * 33_554_432 <= u64::MAX) by (nonlinear_arith)
        requires freq_hz <= u32::MAX;
    let num: u64 = (freq_hz as u64) * 33_554_432;
    (num / 32_000_000) as u32
}

/// Decoded operating mode of the SX1262 (status bits 6:4).
#[derive(Debug, Clone, Copy, PartialEq, Eq, Structural)]
pub enum ChipMode {
    /// Mode 0: unused.
    Unused,
    /// Mode 2: standby with RC 13 MHz oscillator.
    StbyRc,
    /// Mode 3: standby with XOSC 32 MHz crystal oscillator.
    StbyXosc,
    /// Mode 4: frequency synthesis.
    Fs,
    /// Mode 5: receive.
    Rx,
    /// Mode 6: transmit.
    Tx,
    /// Reserved or unrecognized mode encoding.
    Other(u8),
}

/// Mode of a 3-bit field (only the low three bits of `bits` count).
pub open spec fn spec_chip_mode(bits: u8) -> ChipMode {
    let b = bits % 8;
    if b == 0 {
        ChipMode::Unused
    } else if b == 2 {
        ChipMode::StbyRc
    } else if b == 3 {
        ChipMode::StbyXosc
    } else if b == 4 {
        ChipMode::Fs
    } else if b == 5 {
        ChipMode::Rx
    } else if b == 6 {
        ChipMode::Tx
    } else {
        ChipMode::Other(b)
    }
}

impl ChipMode {
    /// Decodes a 3-bit mode field (bits 6:4 of a status byte).
    pub fn from_bits(bits: u8) -> (m: ChipMode)
        ensures
            m == spec_chip_mode(bits),
    {
        let b = bits % 8;
        match b {
            0 => ChipMode::Unused,
            2 => ChipMode::StbyRc,
            3 => ChipMode::StbyXosc,
            4 => ChipMode::Fs,
            5 => ChipMode::Rx,
            6 => ChipMode::Tx,
            other => ChipMode::Other(other),
        }
    }
}

/// Decoded status of the most recently processed command (bits 3:1).
#[derive(Debug, Clone, Copy, PartialEq, Eq, Structural)]
pub enum CommandStatus {
    /// Status 0: reserved.
    Reserved,
    /// Status 2: data is available to the host.
    DataAvailable,
    /// Status 3: command timeout.
    Timeout,
    /// Status 4: command processing error.
    ProcessingError,
    /// Status 5: failure to execute command.
    ExecutionFailure,
    /// Status 6: command TX done.
    TxDone,
    /// Reserved or unrecognized status encoding.
    Other(u8),
}

/// Status of a 3-bit field (only the low three bits of `bits` count).
pub open spec fn spec_command_status(bits: u8) -> CommandStatus {
    let b = bits % 8;
    if b == 0 {
        CommandStatus::Reserved
    } else if b == 2 {
        CommandStatus::DataAvailable
    } else if b == 3 {
        CommandStatus::Timeout
    } else if b == 4 {
        CommandStatus::ProcessingError
    } else if b == 5 {
        CommandStatus::ExecutionFailure
    } else if b == 6 {
        CommandStatus::TxDone
    } else {
        CommandStatus::Other(b)
    }
}

impl CommandStatus {
    /// Decodes a 3-bit command status field (bits 3:1 of a status byte).
    pub fn from_bits(bits: u8) -> (s: CommandStatus)
        ensures
            s == spec_command_status(bits),
    {
        let b = bits % 8;
        match b {
            0 => CommandStatus::Reserved,
            2 => CommandStatus::DataAvailable,
            3 => CommandStatus::Timeout,
            4 => CommandStatus::ProcessingError,
            5 => CommandStatus::ExecutionFailure,
            6 => CommandStatus::TxDone,
            other => CommandStatus::Other(other),
        }
    }
}

/// Decoded transceiver status byte.
#[derive(Debug, Clone, Copy, PartialEq, Eq, Structural)]
pub struct RadioStatus {
    /// Raw status byte.
    pub raw: u8,
    /// Chip mode (bits 6:4).
    pub chip_mode: ChipMode,
    /// Command execution status (bits 3:1).
    pub command_status: CommandStatus,
}

/// The status a raw byte decodes to.
pub open spec fn spec_radio_status(raw: u8) -> RadioStatus {
    RadioStatus {
        raw,
        chip_mode: spec_chip_mode(((raw / 16) % 8) as u8),
        command_status: spec_command_status(((raw / 2) % 8) as u8),
    }
}

impl RadioStatus {
    /// Parses a raw status byte returned by `GetStatus`.
    pub fn from_byte(raw: u8) -> (s: RadioStatus)
        ensures
            s == spec_radio_status(raw),
    {
        let chip_mode = ChipMode::from_bits((raw / 16) % 8);
        let command_status = CommandStatus::from_bits((raw / 2) % 8);
        RadioStatus { raw, chip_mode, command_status }
    }

    /// Whether the radio is in RC or XOSC standby.
    pub fn is_standby(&self) -> (b: bool)
        ensures
            b <==> (self.chip_mode == ChipMode::StbyRc || self.chip_mode == ChipMode::StbyXosc),
    {
        matches!(self.chip_mode, ChipMode::StbyRc | ChipMode::StbyXosc)
    }

    /// Whether the status reports no processing error, execution failure
    /// or timeout.
    pub fn is_ok(&self) -> (b: bool)
        ensures
            b <==> !(self.command_status == CommandStatus::ProcessingError
                || self.command_status == CommandStatus::ExecutionFailure
                || self.command_status == CommandStatus::Timeout),
    {
        !matches!(
            self.command_status,
            CommandStatus::ProcessingError | CommandStatus::ExecutionFailure | CommandStatus::Timeout
        )
    }
}

/// Decoded packet reception metrics from `GetPacketStatus`.
#[derive(Debug, Clone, Copy, PartialEq, Eq, Structural)]
pub struct PacketStatus {
    /// Average packet RSSI in dBm.
    pub rssi_pkt_dbm: i16,
    /// Estimated packet SNR in dB.
    pub snr_pkt_db: i8,
    /// Estimated signal RSSI in dBm.
    pub signal_rssi_pkt_dbm: i16,
}

/// Errors of SX1262 SPI traffic or pin polling.
#[derive(Debug, Clone, Copy, PartialEq, Eq)]
pub enum SxError<SpiErr> {
    /// SPI bus communication error.
    Spi(SpiErr),
    /// BUSY stayed high beyond [`BUSY_TIMEOUT_POLLS`].
    BusyTimeout,
    /// Invalid parameter passed to a driver function.
    InvalidParam,
    /// GPIO error toggling NSS or reading BUSY.
    Gpio,
}

/// BUSY samples a transaction from `b` took: until the pin read low (or
/// could not be read), at most [`BUSY_TIMEOUT_POLLS`].
pub open spec fn busy_polls(log: SpiLog, b: nat) -> nat {
    polls(log, b as int, 0, 50_000, 1)
}

/// The BUSY wait from `b` ended on a sample (low, or failed).
pub open spec fn busy_ended(log: SpiLog, b: nat) -> bool {
    poll_hit(log, b as int, busy_polls(log, b) - 1, 1)
}

/// The BUSY wait from `b` saw the pin low.
pub open spec fn busy_ready(log: SpiLog, b: nat) -> bool {
    busy_ended(log, b) && log[b + busy_polls(log, b) - 1].ok
}

/// Body events issued from `s` for a body of `m` (at most two) SPI
/// operations: up to and including the first that failed.
pub open spec fn body_events(log: SpiLog, s: nat, m: nat) -> nat {
    if m >= 1 && !log[s as int].ok {
        1
    } else if m >= 2 && !log[s + 1int].ok {
        2
    } else {
        m
    }
}

/// Some operation of the body from `s` failed.
pub open spec fn body_failed(log: SpiLog, s: nat, m: nat) -> bool {
    (m >= 1 && !log[s as int].ok) || (m >= 2 && !log[s + 1int].ok)
}

/// Requests of one transaction from `b` with SPI `body`: the BUSY
/// samples; if BUSY went low, NSS low; if that worked, the body up to the
/// first failed operation, then NSS high whatever happened.
pub open spec fn txn_requests(log: SpiLog, b: nat, body: Seq<SpiRequest>) -> Seq<SpiRequest> {
    let k = busy_polls(log, b);
    let busy = Seq::new(k, |i: int| SpiRequest::Sample(PinId::Busy));
    if !busy_ready(log, b) {
        busy
    } else if !log[b + k as int].ok {
        busy.push(SpiRequest::Drive(PinId::Nss, false))
    } else {
        busy.push(SpiRequest::Drive(PinId::Nss, false)) + body.take(body_events(log, b + k + 1, body.len()) as int).push(
            SpiRequest::Drive(PinId::Nss, true),
        )
    }
}

/// `fin` is `old` followed by exactly one transaction with `body`.
pub open spec fn sx_txn(old: SpiLog, fin: SpiLog, body: Seq<SpiRequest>) -> bool {
    let q = txn_requests(fin, old.len(), body);
    &&& old.is_prefix_of(fin)
    &&& fin.len() == old.len() + q.len()
    &&& forall|i: int| 0 <= i < q.len() ==> #[trigger] fin[old.len() + i].request == q[i]
}

/// How a transaction from `b` ended.
pub enum TxnEnd {
    /// BUSY never went low.
    Timeout,
    /// BUSY or NSS could not be read or driven.
    Pin,
    /// An SPI operation failed.
    Bus,
    /// Every operation succeeded.
    Done,
}

/// How the transaction from `b` with a body of `m` operations ended.
pub open spec fn txn_end(log: SpiLog, b: nat, m: nat) -> TxnEnd {
    let k = busy_polls(log, b);
    if !busy_ended(log, b) {
        TxnEnd::Timeout
    } else if !log[b + k - 1].ok || !log[b + k as int].ok {
        TxnEnd::Pin
    } else if body_failed(log, b + k + 1, m) {
        TxnEnd::Bus
    } else {
        TxnEnd::Done
    }
}

/// The result matches how the transaction ended.
pub open spec fn sx_result<T, E>(r: Result<T, SxError<E>>, end: TxnEnd) -> bool {
    match r {
        Ok(_) => end is Done,
        Err(SxError::BusyTimeout) => end is Timeout,
        Err(SxError::Gpio) => end is Pin,
        Err(SxError::Spi(_)) => end is Bus,
        Err(SxError::InvalidParam) => false,
    }
}

/// Bytes the last body operation of a finished transaction read.
pub open spec fn txn_data(fin: SpiLog) -> Seq<u8> {
    fin[fin.len() - 2].data
}

/// A finished BUSY wait reads the same in any longer log.
pub proof fn lemma_busy_stable(l1: SpiLog, l2: SpiLog, b: nat)
    requires
        l1.is_prefix_of(l2),
        b + busy_polls(l1, b) <= l1.len(),
    ensures
        busy_polls(l1, b) == busy_polls(l2, b),
        busy_ended(l1, b) == busy_ended(l2, b),
        busy_ready(l1, b) == busy_ready(l2, b),
{
    lemma_polls_prefix(l1, l2, b as int, 0, 50_000, 1);
    let k = busy_polls(l1, b);
    if k >= 1 {
        assert(l2.subrange(0, l1.len() as int)[b + k - 1] == l2[b + k - 1]);
    }
}

/// Body of a write transaction: the first bytes, then the second when
/// `always` is set or they are not empty.
pub open spec fn write_body(first: Seq<u8>, second: Seq<u8>, always: bool) -> Seq<SpiRequest> {
    seq![SpiRequest::Write(first)] + if always || second.len() > 0 {
        seq![SpiRequest::Write(second)]
    } else {
        Seq::empty()
    }
}

/// Body of a read transaction: the command bytes, then `len` bytes in.
pub open spec fn read_body(first: Seq<u8>, len: nat) -> Seq<SpiRequest> {
    seq![SpiRequest::Write(first), SpiRequest::Read(len)]
}

/// Body of a full-duplex transaction.
pub open spec fn transfer_body(tx: Seq<u8>, len: nat) -> Seq<SpiRequest> {
    seq![SpiRequest::Transfer(tx, len)]
}

/// `fin` is `old` plus one transaction sending opcode `cmd` and then
/// `params` (if any), and `r` reports how it ended.
pub open spec fn cmd_sent<T, E>(old: SpiLog, fin: SpiLog, cmd: u8, params: Seq<u8>, r: Result<T, SxError<E>>) -> bool {
    &&& sx_txn(old, fin, write_body(seq![cmd], params, false))
    &&& sx_result(r, txn_end(fin, old.len(), write_body(seq![cmd], params, false).len()))
}

/// Big-endian bytes of the low 16 bits.
pub open spec fn be16(x: int) -> Seq<u8> {
    seq![((x / 256) % 256) as u8, (x % 256) as u8]
}

/// Big-endian bytes of the low 24 bits.
pub open spec fn be24(x: int) -> Seq<u8> {
    seq![((x / 65536) % 256) as u8, ((x / 256) % 256) as u8, (x % 256) as u8]
}

/// Big-endian bytes of a 32-bit value.
pub open spec fn be32(x: int) -> Seq<u8> {
    seq![((x / 16777216) % 256) as u8, ((x / 65536) % 256) as u8, ((x / 256) % 256) as u8, (x % 256) as u8]
}

/// RSSI in dBm of a raw RSSI byte (`-raw / 2`).
pub open spec fn rssi_dbm(raw: u8) -> int {
    -((raw / 2) as int)
}

/// SNR in dB of a raw SNR byte (signed, divided by 4 toward zero).
pub open spec fn snr_db(raw: u8) -> int {
    if raw < 128 { (raw / 4) as int } else { -((256 - raw) / 4) }
}

fn be16_bytes(x: u16) -> (b: [u8; 2])
    ensures
        b@ == be16(x as int),
{
    [((x / 256) % 256) as u8, (x % 256) as u8]
}

fn be24_bytes(x: u32) -> (b: [u8; 3])
    ensures
        b@ == be24(x as int),
{
    [((x / 65536) % 256) as u8, ((x / 256) % 256) as u8, (x % 256) as u8]
}

fn be32_bytes(x: u32) -> (b: [u8; 4])
    ensures
        b@ == be32(x as int),
{
    [((x / 16777216) % 256) as u8, ((x / 65536) % 256) as u8, ((x / 256) % 256) as u8, (x % 256) as u8]
}

fn rssi_of(raw: u8) -> (v: i16)
    ensures
        v == rssi_dbm(raw),
{
    -((raw / 2) as i16)
}

fn snr_of(raw: u8) -> (v: i8)
    ensures
        v == snr_db(raw),
{
    if raw < 128 {
        (raw / 4) as i8
    } else {
        let mag: u16 = 256 - raw as u16;
        -((mag / 4) as i8)
    }
}

/// A finished transaction reads the same in any longer log.
pub proof fn lemma_txn_stable(l1: SpiLog, l2: SpiLog, b: nat, body: Seq<SpiRequest>)
    requires
        l1.is_prefix_of(l2),
        body.len() <= 2,
        b + txn_requests(l1, b, body).len() == l1.len(),
    ensures
        txn_requests(l1, b, body) == txn_requests(l2, b, body),
        txn_end(l1, b, body.len()) == txn_end(l2, b, body.len()),
{
    let k = busy_polls(l1, b);
    assert(b + k <= l1.len());
    lemma_busy_stable(l1, l2, b);
    assert forall|i: int| 0 <= i < l1.len() implies #[trigger] l2[i] == l1[i] by {
        assert(l2.subrange(0, l1.len() as int)[i] == l2[i]);
    }
}

/// Sync word registers: the high byte to 0x0740, then the low byte to
/// 0x0741, the second only when the first transaction went through.
pub open spec fn sync_word_sent<E>(old: SpiLog, fin: SpiLog, sync_word: u16, r: Result<(), SxError<E>>) -> bool {
    let p1 = be16(REG_LORA_SYNC_WORD_MSB as int) + seq![((sync_word / 256) % 256) as u8];
    let p2 = be16(REG_LORA_SYNC_WORD_LSB as int) + seq![(sync_word % 256) as u8];
    let body1 = write_body(seq![CMD_WRITE_REGISTER], p1, false);
    let m = old.len() + txn_requests(fin, old.len(), body1).len();
    &&& old.is_prefix_of(fin)
    &&& m <= fin.len()
    &&& forall|i: int| 0 <= i < txn_requests(fin, old.len(), body1).len() ==> #[trigger] fin[old.len() + i].request == txn_requests(fin, old.len(), body1)[i]
    &&& if txn_end(fin, old.len(), 2) is Done {
        &&& sx_txn(fin.take(m as int), fin, write_body(seq![CMD_WRITE_REGISTER], p2, false))
        &&& sx_result(r, txn_end(fin, m, 2))
    } else {
        &&& fin.len() == m
        &&& sx_result(r, txn_end(fin, old.len(), 2))
    }
}

/// Stamp LoRa-1262 (Semtech SX1262) driver: SPI bus, NSS chip select and
/// BUSY input.
pub struct Sx1262<SPI, NSS, BUSY> {
    spi: SPI,
    nss: NSS,
    busy: BUSY,
    log: Ghost<SpiLog>,
}

impl<SPI, NSS, BUSY> Sx1262<SPI, NSS, BUSY> {
    /// The bus and pins the driver holds.
    pub closed spec fn spec_parts(&self) -> (SPI, NSS, BUSY) {
        (self.spi, self.nss, self.busy)
    }

    /// Releases the bus and pins the driver holds.
    pub fn release(self) -> (r: (SPI, NSS, BUSY))
        ensures
            r == self.spec_parts(),
    {
        (self.spi, self.nss, self.busy)
    }
}

impl<SPI: SpiBus, NSS: OutputPin, BUSY: InputPin> Sx1262<SPI, NSS, BUSY> {
    /// SPI and pin traffic issued so far, oldest first.
    pub closed spec fn events(&self) -> SpiLog {
        self.log@
    }

    /// Wraps the bus and pins. Nothing is sent.
    pub fn new(spi: SPI, nss: NSS, busy: BUSY) -> (d: Self)
        ensures
            d.events() == Seq::<Event<SpiRequest>>::empty(),
            d.spec_parts() == (spi, nss, busy),
    {
        Sx1262 { spi, nss, busy, log: Ghost(Seq::empty()) }
    }

    /// Waits for BUSY to read low (at most [`BUSY_TIMEOUT_POLLS`]
    /// samples): `Gpio` when the pin cannot be read, `BusyTimeout` when it
    /// stays high.
    pub fn wait_busy(&mut self) -> (r: Result<(), SxError<SPI::Error>>)
        ensures
            old(self).events().is_prefix_of(final(self).events()),
            final(self).events().len() == old(self).events().len() + busy_polls(final(self).events(), old(self).events().len()),
            forall|i: int| old(self).events().len() <= i < final(self).events().len() ==> #[trigger] final(self).events()[i].request == SpiRequest::Sample(PinId::Busy),
            r is Ok <==> busy_ready(final(self).events(), old(self).events().len()),
            r matches Err(e) ==> (e is Gpio <==> busy_ended(final(self).events(), old(self).events().len())),
            r matches Err(e) ==> (e is Gpio || e is BusyTimeout),
    {
        let ghost base = self.events();
        let ghost b = base.len();
        let mut n: u32 = 0;
        while n < BUSY_TIMEOUT_POLLS
            invariant
                base == old(self).events(),
                b == base.len(),
                n <= 50_000,
                base.is_prefix_of(self.events()),
                self.events().len() == b + n,
                forall|i: int| b <= i < self.events().len() ==> #[trigger] self.events()[i].request == SpiRequest::Sample(PinId::Busy),
                forall|i: int| 0 <= i < n ==> !poll_hit(self.events(), b as int, i, 1),
            decreases 50_000 - n,
        {
            let ghost before = self.events();
            let res = self.busy.is_low();
            let stop = match res {
                Ok(low) => low,
                Err(_) => true,
            };
            let ghost data = if stop { seq![1u8] } else { seq![0u8] };
            self.log = Ghost(self.log@.push(Event { request: SpiRequest::Sample(PinId::Busy), ok: res.is_ok(), data }));
            proof {
                let log = self.events();
                assert(log.drop_last() =~= before);
                assert(before.is_prefix_of(log)) by {
                    assert(before =~= log.subrange(0, before.len() as int));
                }
                lemma_prefix_trans(base, before, log);
                assert forall|i: int| 0 <= i < n implies !poll_hit(log, b as int, i, 1) by {
                    assert(log[b + i] == before[b + i]);
                    assert(!poll_hit(before, b as int, i, 1));
                }
                if stop {
                    lemma_polls_skip(log, b as int, n as nat, 50_000, 1);
                    assert(busy_polls(log, b) == n + 1);
                }
            }
            match res {
                Err(_) => return Err(SxError::Gpio),
                Ok(true) => return Ok(()),
                Ok(false) => {},
            }
            n += 1;
        }
        proof {
            lemma_polls_skip(self.events(), b as int, 50_000, 50_000, 1);
        }
        Err(SxError::BusyTimeout)
    }

    fn note(&mut self, req: Ghost<SpiRequest>, ok: bool, data: Ghost<Seq<u8>>)
        ensures
            final(self).events() == old(self).events().push(Event { request: req@, ok, data: data@ }),
    {
        self.log = Ghost(self.log@.push(Event { request: req@, ok, data: data@ }));
    }

    /// BUSY wait, then NSS low.
    fn open(&mut self) -> (r: Result<(), SxError<SPI::Error>>)
        ensures
            old(self).events().is_prefix_of(final(self).events()),
            final(self).events().len() == old(self).events().len() + busy_polls(final(self).events(), old(self).events().len())
                + if busy_ready(final(self).events(), old(self).events().len()) { 1nat } else { 0nat },
            forall|i: int| old(self).events().len() <= i < old(self).events().len() + busy_polls(final(self).events(), old(self).events().len())
                ==> #[trigger] final(self).events()[i].request == SpiRequest::Sample(PinId::Busy),
            busy_ready(final(self).events(), old(self).events().len()) ==> final(self).events().last().request == SpiRequest::Drive(PinId::Nss, false),
            r is Ok <==> busy_ready(final(self).events(), old(self).events().len()) && final(self).events().last().ok,
            r matches Err(e) ==> (e is Gpio <==> busy_ended(final(self).events(), old(self).events().len())),
            r matches Err(e) ==> (e is Gpio || e is BusyTimeout),
    {
        let ghost b = self.events().len();
        self.wait_busy()?;
        let ghost mid = self.events();
        let res = self.nss.set_low();
        self.note(Ghost(SpiRequest::Drive(PinId::Nss, false)), res.is_ok(), Ghost(Seq::empty()));
        proof {
            let fin = self.events();
            assert(fin.drop_last() =~= mid);
            assert(mid.is_prefix_of(fin)) by {
                assert(mid =~= fin.subrange(0, mid.len() as int));
            }
            lemma_prefix_trans(old(self).events(), mid, fin);
            lemma_busy_stable(mid, fin, b);
            assert forall|i: int| b <= i < b + busy_polls(fin, b) implies #[trigger] fin[i].request == SpiRequest::Sample(PinId::Busy) by {
                assert(fin[i] == mid[i]);
            }
        }
        match res {
            Ok(()) => Ok(()),
            Err(_) => Err(SxError::Gpio),
        }
    }

    /// Closes a transaction: NSS high (its result is ignored).
    fn close(&mut self)
        ensures
            final(self).events().len() == old(self).events().len() + 1,
            final(self).events().drop_last() == old(self).events(),
            final(self).events().last().request == SpiRequest::Drive(PinId::Nss, true),
    {
        let hr = self.nss.set_high();
        let ghost log = self.events();
        self.note(Ghost(SpiRequest::Drive(PinId::Nss, true)), hr.is_ok(), Ghost(Seq::empty()));
        proof {
            assert(self.events().drop_last() =~= log);
        }
    }

    fn spi_write(&mut self, bytes: &[u8]) -> (r: Result<(), SPI::Error>)
        ensures
            final(self).events() == old(self).events().push(Event { request: SpiRequest::Write(bytes@), ok: r is Ok, data: Seq::empty() }),
    {
        let r = self.spi.write(bytes);
        self.note(Ghost(SpiRequest::Write(bytes@)), r.is_ok(), Ghost(Seq::empty()));
        r
    }

    /// One transaction whose body writes `first`, then `second` (when
    /// `always` is set or `second` is not empty).
    fn txn_write(&mut self, first: &[u8], second: &[u8], always: bool) -> (r: Result<(), SxError<SPI::Error>>)
        ensures
            sx_txn(old(self).events(), final(self).events(), write_body(first@, second@, always)),
            sx_result(r, txn_end(final(self).events(), old(self).events().len(), write_body(first@, second@, always).len())),
    {
        let ghost base = self.events();
        let ghost b = base.len();
        let ghost body = write_body(first@, second@, always);
        match self.open() {
            Err(e) => {
                proof {
                    let fin = self.events();
                    let q = txn_requests(fin, b, body);
                    assert forall|i: int| 0 <= i < q.len() implies #[trigger] fin[b + i].request == q[i] by {}
                }
                return Err(e);
            },
            Ok(()) => {},
        }
        let ghost m0 = self.events();
        let ghost k = busy_polls(m0, b);
        let mut res = self.spi_write(first);
        let ghost m1 = self.events();
        let two = always || second.len() > 0;
        if res.is_ok() && two {
            res = self.spi_write(second);
        }
        let ghost m2 = self.events();
        self.close();
        proof {
            let fin = self.events();
            lemma_drop_last_prefix(m1);
            lemma_drop_last_prefix(fin);
            if m2.len() > m1.len() {
                lemma_drop_last_prefix(m2);
                lemma_prefix_trans(m0, m1, m2);
            }
            lemma_prefix_trans(m0, m2, fin);
            if m2.len() > m1.len() {
                lemma_prefix_trans(m1, m2, fin);
            }
            assert(m1.is_prefix_of(fin));
            assert(fin.subrange(0, m1.len() as int)[m0.len() as int] == fin[m0.len() as int]);
            lemma_prefix_trans(base, m0, fin);
            lemma_busy_stable(m0, fin, b);
            let s = b + k + 1;
            assert(fin[s as int] == m1[s as int]);
            if m2.len() > m1.len() {
                assert(m2.drop_last() =~= m1);
                assert(fin[s + 1int] == m2[s + 1int]);
            }
            let q = txn_requests(fin, b, body);
            assert(fin[b + k as int] == m0[b + k as int]);
            assert forall|i: int| 0 <= i < q.len() implies #[trigger] fin[b + i].request == q[i] by {
                if i < k {
                    assert(fin[b + i] == m0[b + i]);
                } else if i == k {
                } else if i == k + 1 {
                } else if i == k + 2 && m2.len() > m1.len() {
                    assert(m2.drop_last() =~= m1);
                }
            }
        }
        match res {
            Ok(()) => Ok(()),
            Err(e) => Err(SxError::Spi(e)),
        }
    }

    fn spi_read(&mut self, buf: &mut [u8]) -> (r: Result<(), SPI::Error>)
        ensures
            final(buf)@.len() == old(buf)@.len(),
            final(self).events() == old(self).events().push(Event { request: SpiRequest::Read(old(buf)@.len()), ok: r is Ok, data: final(buf)@ }),
    {
        let ghost len = buf@.len();
        let r = self.spi.read(buf);
        self.note(Ghost(SpiRequest::Read(len)), r.is_ok(), Ghost(buf@));
        r
    }

    fn spi_transfer(&mut self, rx: &mut [u8], tx: &[u8]) -> (r: Result<(), SPI::Error>)
        ensures
            final(rx)@.len() == old(rx)@.len(),
            final(self).events() == old(self).events().push(Event { request: SpiRequest::Transfer(tx@, old(rx)@.len()), ok: r is Ok, data: final(rx)@ }),
    {
        let ghost len = rx@.len();
        let r = self.spi.transfer(rx, tx);
        self.note(Ghost(SpiRequest::Transfer(tx@, len)), r.is_ok(), Ghost(rx@));
        r
    }

    /// One transaction whose body writes `first`, then reads `buf.len()`
    /// bytes into `buf`.
    fn txn_write_read(&mut self, first: &[u8], buf: &mut [u8]) -> (r: Result<(), SxError<SPI::Error>>)
        ensures
            final(buf)@.len() == old(buf)@.len(),
            sx_txn(old(self).events(), final(self).events(), read_body(first@, old(buf)@.len())),
            sx_result(r, txn_end(final(self).events(), old(self).events().len(), 2)),
            r is Ok ==> txn_data(final(self).events()) == final(buf)@,
    {
        let ghost base = self.events();
        let ghost b = base.len();
        let ghost body = read_body(first@, buf@.len());
        match self.open() {
            Err(e) => {
                proof {
                    let fin = self.events();
                    let q = txn_requests(fin, b, body);
                    assert forall|i: int| 0 <= i < q.len() implies #[trigger] fin[b + i].request == q[i] by {}
                }
                return Err(e);
            },
            Ok(()) => {},
        }
        let ghost m0 = self.events();
        let ghost k = busy_polls(m0, b);
        let mut res = self.spi_write(first);
        let ghost m1 = self.events();
        if res.is_ok() {
            res = self.spi_read(buf);
        }
        let ghost m2 = self.events();
        self.close();
        proof {
            let fin = self.events();
            lemma_drop_last_prefix(m1);
            lemma_drop_last_prefix(fin);
            if m2.len() > m1.len() {
                lemma_drop_last_prefix(m2);
                lemma_prefix_trans(m0, m1, m2);
            }
            lemma_prefix_trans(m0, m2, fin);
            if m2.len() > m1.len() {
                lemma_prefix_trans(m1, m2, fin);
            }
            assert(m1.is_prefix_of(fin));
            assert(fin.subrange(0, m1.len() as int)[m0.len() as int] == fin[m0.len() as int]);
            lemma_prefix_trans(base, m0, fin);
            lemma_busy_stable(m0, fin, b);
            let s = b + k + 1;
            if m2.len() > m1.len() {
                assert(m2.drop_last() =~= m1);
                assert(fin[s + 1int] == m2[s + 1int]);
            }
            let q = txn_requests(fin, b, body);
            assert(fin[b + k as int] == m0[b + k as int]);
            assert forall|i: int| 0 <= i < q.len() implies #[trigger] fin[b + i].request == q[i] by {
                if i < k {
                    assert(fin[b + i] == m0[b + i]);
                } else if i == k + 2 && m2.len() > m1.len() {
                    assert(m2.drop_last() =~= m1);
                }
            }
        }
        match res {
            Ok(()) => Ok(()),
            Err(e) => Err(SxError::Spi(e)),
        }
    }

    /// One transaction whose body is a single full-duplex transfer.
    fn txn_transfer(&mut self, rx: &mut [u8], tx: &[u8]) -> (r: Result<(), SxError<SPI::Error>>)
        ensures
            final(rx)@.len() == old(rx)@.len(),
            sx_txn(old(self).events(), final(self).events(), transfer_body(tx@, old(rx)@.len())),
            sx_result(r, txn_end(final(self).events(), old(self).events().len(), 1)),
            r is Ok ==> txn_data(final(self).events()) == final(rx)@,
    {
        let ghost base = self.events();
        let ghost b = base.len();
        let ghost body = transfer_body(tx@, rx@.len());
        match self.open() {
            Err(e) => {
                proof {
                    let fin = self.events();
                    let q = txn_requests(fin, b, body);
                    assert forall|i: int| 0 <= i < q.len() implies #[trigger] fin[b + i].request == q[i] by {}
                }
                return Err(e);
            },
            Ok(()) => {},
        }
        let ghost m0 = self.events();
        let ghost k = busy_polls(m0, b);
        let res = self.spi_transfer(rx, tx);
        let ghost m1 = self.events();
        self.close();
        proof {
            let fin = self.events();
            lemma_drop_last_prefix(m1);
            lemma_drop_last_prefix(fin);
            lemma_prefix_trans(m0, m1, fin);
            assert(fin.subrange(0, m1.len() as int)[m0.len() as int] == fin[m0.len() as int]);
            lemma_prefix_trans(base, m0, fin);
            lemma_busy_stable(m0, fin, b);
            let q = txn_requests(fin, b, body);
            assert(fin[b + k as int] == m0[b + k as int]);
            assert forall|i: int| 0 <= i < q.len() implies #[trigger] fin[b + i].request == q[i] by {
                if i < k {
                    assert(fin[b + i] == m0[b + i]);
                }
            }
        }
        match res {
            Ok(()) => Ok(()),
            Err(e) => Err(SxError::Spi(e)),
        }
    }

    /// Writes a command opcode with zero or more parameter bytes.
    pub fn write_cmd(&mut self, cmd: u8, params: &[u8]) -> (r: Result<(), SxError<SPI::Error>>)
        ensures
            cmd_sent(old(self).events(), final(self).events(), cmd, params@, r),
    {
        let op = [cmd];
        assert(op@ =~= seq![cmd]);
        self.txn_write(&op, params, false)
    }

    /// Writes an 8-bit value to a 16-bit register address (WriteRegister:
    /// address big-endian, then the value).
    pub fn write_reg(&mut self, reg: u16, val: u8) -> (r: Result<(), SxError<SPI::Error>>)
        ensures
            cmd_sent(old(self).events(), final(self).events(), CMD_WRITE_REGISTER, be16(reg as int) + seq![val], r),
    {
        let a = be16_bytes(reg);
        let params = [a[0], a[1], val];
        assert(params@ =~= be16(reg as int) + seq![val]);
        self.write_cmd(CMD_WRITE_REGISTER, &params)
    }

    /// Reads an 8-bit value from a 16-bit register address (ReadRegister:
    /// address big-endian and a status byte out, one byte in).
    pub fn read_reg(&mut self, reg: u16) -> (r: Result<u8, SxError<SPI::Error>>)
        ensures
            sx_txn(old(self).events(), final(self).events(), read_body(seq![CMD_READ_REGISTER] + be16(reg as int) + seq![0u8], 1)),
            sx_result(r, txn_end(final(self).events(), old(self).events().len(), 2)),
            r matches Ok(v) ==> v == txn_data(final(self).events())[0],
    {
        let a = be16_bytes(reg);
        let cmd = [CMD_READ_REGISTER, a[0], a[1], 0x00];
        assert(cmd@ =~= seq![CMD_READ_REGISTER] + be16(reg as int) + seq![0u8]);
        let mut out = [0u8; 1];
        match self.txn_write_read(&cmd, &mut out) {
            Ok(()) => Ok(out[0]),
            Err(e) => Err(e),
        }
    }

    /// Writes data into the 256-byte data buffer from `offset` (the data
    /// write happens even when `data` is empty).
    pub fn write_buffer(&mut self, offset: u8, data: &[u8]) -> (r: Result<(), SxError<SPI::Error>>)
        ensures
            sx_txn(old(self).events(), final(self).events(), write_body(seq![CMD_WRITE_BUFFER, offset], data@, true)),
            sx_result(r, txn_end(final(self).events(), old(self).events().len(), 2)),
    {
        let cmd = [CMD_WRITE_BUFFER, offset];
        assert(cmd@ =~= seq![CMD_WRITE_BUFFER, offset]);
        self.txn_write(&cmd, data, true)
    }

    /// Reads `buf.len()` bytes of the data buffer from `offset`.
    pub fn read_buffer(&mut self, offset: u8, buf: &mut [u8]) -> (r: Result<(), SxError<SPI::Error>>)
        ensures
            final(buf)@.len() == old(buf)@.len(),
            sx_txn(old(self).events(), final(self).events(), read_body(seq![CMD_READ_BUFFER, offset, 0u8], old(buf)@.len())),
            sx_result(r, txn_end(final(self).events(), old(self).events().len(), 2)),
            r is Ok ==> final(buf)@ == txn_data(final(self).events()),
    {
        let cmd = [CMD_READ_BUFFER, offset, 0x00];
        assert(cmd@ =~= seq![CMD_READ_BUFFER, offset, 0u8]);
        self.txn_write_read(&cmd, buf)
    }

    /// Queries the status byte (GetStatus): the second byte clocked in.
    pub fn get_status(&mut self) -> (r: Result<RadioStatus, SxError<SPI::Error>>)
        ensures
            sx_txn(old(self).events(), final(self).events(), transfer_body(seq![CMD_GET_STATUS, 0u8], 2)),
            sx_result(r, txn_end(final(self).events(), old(self).events().len(), 1)),
            r matches Ok(st) ==> st == spec_radio_status(txn_data(final(self).events())[1]),
    {
        let tx = [CMD_GET_STATUS, 0x00];
        assert(tx@ =~= seq![CMD_GET_STATUS, 0u8]);
        let mut rx = [0u8; 2];
        match self.txn_transfer(&mut rx, &tx) {
            Ok(()) => Ok(RadioStatus::from_byte(rx[1])),
            Err(e) => Err(e),
        }
    }

    /// Standby (`STDBY_CONFIG_RC` or `STDBY_CONFIG_XOSC`).
    pub fn set_standby(&mut self, config: u8) -> (r: Result<(), SxError<SPI::Error>>)
        ensures
            cmd_sent(old(self).events(), final(self).events(), CMD_SET_STANDBY, seq![config], r),
    {
        let params = [config];
        assert(params@ =~= seq![config]);
        self.write_cmd(CMD_SET_STANDBY, &params)
    }

    /// Regulator mode: LDO or DC-DC.
    pub fn set_regulator_mode(&mut self, mode: u8) -> (r: Result<(), SxError<SPI::Error>>)
        ensures
            cmd_sent(old(self).events(), final(self).events(), CMD_SET_REGULATOR_MODE, seq![mode], r),
    {
        let params = [mode];
        assert(params@ =~= seq![mode]);
        self.write_cmd(CMD_SET_REGULATOR_MODE, &params)
    }

    /// DIO3 as TCXO supply: voltage, then the 24-bit delay in ticks.
    pub fn set_dio3_as_tcxo_ctrl(&mut self, voltage: u8, delay_ticks: u32) -> (r: Result<(), SxError<SPI::Error>>)
        ensures
            cmd_sent(old(self).events(), final(self).events(), CMD_SET_DIO3_AS_TCXO_CTRL, seq![voltage] + be24(delay_ticks as int), r),
    {
        let d = be24_bytes(delay_ticks);
        let params = [voltage, d[0], d[1], d[2]];
        assert(params@ =~= seq![voltage] + be24(delay_ticks as int));
        self.write_cmd(CMD_SET_DIO3_AS_TCXO_CTRL, &params)
    }

    /// Image calibration for a frequency range.
    pub fn calibrate_image(&mut self, freq1: u8, freq2: u8) -> (r: Result<(), SxError<SPI::Error>>)
        ensures
            cmd_sent(old(self).events(), final(self).events(), CMD_CALIBRATE_IMAGE, seq![freq1, freq2], r),
    {
        let params = [freq1, freq2];
        assert(params@ =~= seq![freq1, freq2]);
        self.write_cmd(CMD_CALIBRATE_IMAGE, &params)
    }

    /// DIO2 drives the RF switch (1) or not (0).
    pub fn set_dio2_as_rf_switch_ctrl(&mut self, enable: bool) -> (r: Result<(), SxError<SPI::Error>>)
        ensures
            cmd_sent(old(self).events(), final(self).events(), CMD_SET_DIO2_AS_RF_SWITCH_CTRL, seq![if enable { 1u8 } else { 0u8 }], r),
    {
        let params = [if enable { 0x01 } else { 0x00 }];
        assert(params@ =~= seq![if enable { 1u8 } else { 0u8 }]);
        self.write_cmd(CMD_SET_DIO2_AS_RF_SWITCH_CTRL, &params)
    }

    /// Packet type: GFSK or LoRa.
    pub fn set_packet_type(&mut self, packet_type: u8) -> (r: Result<(), SxError<SPI::Error>>)
        ensures
            cmd_sent(old(self).events(), final(self).events(), CMD_SET_PACKET_TYPE, seq![packet_type], r),
    {
        let params = [packet_type];
        assert(params@ =~= seq![packet_type]);
        self.write_cmd(CMD_SET_PACKET_TYPE, &params)
    }

    /// RF carrier: the frequency register value of `freq_hz`, big-endian.
    pub fn set_rf_frequency(&mut self, freq_hz: u32) -> (r: Result<(), SxError<SPI::Error>>)
        ensures
            cmd_sent(old(self).events(), final(self).events(), CMD_SET_RF_FREQUENCY, be32(spec_rf_freq_reg(freq_hz) as int), r),
    {
        let reg = calculate_rf_freq_reg(freq_hz);
        let params = be32_bytes(reg);
        self.write_cmd(CMD_SET_RF_FREQUENCY, &params)
    }

    /// Power amplifier configuration.
    pub fn set_pa_config(&mut self, pa_duty_cycle: u8, hp_max: u8, device_sel: u8, pa_lut: u8) -> (r: Result<(), SxError<SPI::Error>>)
        ensures
            cmd_sent(old(self).events(), final(self).events(), CMD_SET_PA_CONFIG, seq![pa_duty_cycle, hp_max, device_sel, pa_lut], r),
    {
        let params = [pa_duty_cycle, hp_max, device_sel, pa_lut];
        assert(params@ =~= seq![pa_duty_cycle, hp_max, device_sel, pa_lut]);
        self.write_cmd(CMD_SET_PA_CONFIG, &params)
    }

    /// Transmit power (two's complement dBm) and ramp time.
    pub fn set_tx_params(&mut self, power_dbm: i8, ramp_time: u8) -> (r: Result<(), SxError<SPI::Error>>)
        ensures
            cmd_sent(old(self).events(), final(self).events(), CMD_SET_TX_PARAMS, seq![power_dbm as u8, ramp_time], r),
    {
        let params = [power_dbm as u8, ramp_time];
        assert(params@ =~= seq![power_dbm as u8, ramp_time]);
        self.write_cmd(CMD_SET_TX_PARAMS, &params)
    }

    /// Over-current protection clamp (register `0x08E7`).
    pub fn set_ocp(&mut self, ocp_val: u8) -> (r: Result<(), SxError<SPI::Error>>)
        ensures
            cmd_sent(old(self).events(), final(self).events(), CMD_WRITE_REGISTER, be16(REG_OCP as int) + seq![ocp_val], r),
    {
        self.write_reg(REG_OCP, ocp_val)
    }

    /// TX and RX buffer base addresses.
    pub fn set_buffer_base_address(&mut self, tx_base: u8, rx_base: u8) -> (r: Result<(), SxError<SPI::Error>>)
        ensures
            cmd_sent(old(self).events(), final(self).events(), CMD_SET_BUFFER_BASE_ADDRESS, seq![tx_base, rx_base], r),
    {
        let params = [tx_base, rx_base];
        assert(params@ =~= seq![tx_base, rx_base]);
        self.write_cmd(CMD_SET_BUFFER_BASE_ADDRESS, &params)
    }

    /// LoRa spreading factor, bandwidth, coding rate, low data rate optimize.
    pub fn set_lora_modulation_params(&mut self, sf: u8, bw: u8, cr: u8, ldro: u8) -> (r: Result<(), SxError<SPI::Error>>)
        ensures
            cmd_sent(old(self).events(), final(self).events(), CMD_SET_MODULATION_PARAMS, seq![sf, bw, cr, ldro], r),
    {
        let params = [sf, bw, cr, ldro];
        assert(params@ =~= seq![sf, bw, cr, ldro]);
        self.write_cmd(CMD_SET_MODULATION_PARAMS, &params)
    }

    /// LoRa packet parameters: preamble length (big-endian), header type, payload length, CRC type, IQ polarity.
    pub fn set_lora_packet_params(&mut self, preamble_len: u16, header_type: u8, payload_len: u8, crc_type: u8, invert_iq: u8) -> (r: Result<(), SxError<SPI::Error>>)
        ensures
            cmd_sent(old(self).events(), final(self).events(), CMD_SET_PACKET_PARAMS, be16(preamble_len as int) + seq![header_type, payload_len, crc_type, invert_iq], r),
    {
        let p = be16_bytes(preamble_len);
        let params = [p[0], p[1], header_type, payload_len, crc_type, invert_iq];
        assert(params@ =~= be16(preamble_len as int) + seq![header_type, payload_len, crc_type, invert_iq]);
        self.write_cmd(CMD_SET_PACKET_PARAMS, &params)
    }

    /// IRQ mask and the DIO1..3 routing masks, each big-endian.
    pub fn set_dio_irq_params(&mut self, irq_mask: u16, dio1_mask: u16, dio2_mask: u16, dio3_mask: u16) -> (r: Result<(), SxError<SPI::Error>>)
        ensures
            cmd_sent(old(self).events(), final(self).events(), CMD_SET_DIO_IRQ_PARAMS, be16(irq_mask as int) + be16(dio1_mask as int) + be16(dio2_mask as int) + be16(dio3_mask as int), r),
    {
        let a = be16_bytes(irq_mask);
        let b = be16_bytes(dio1_mask);
        let c = be16_bytes(dio2_mask);
        let d = be16_bytes(dio3_mask);
        let params = [a[0], a[1], b[0], b[1], c[0], c[1], d[0], d[1]];
        assert(params@ =~= be16(irq_mask as int) + be16(dio1_mask as int) + be16(dio2_mask as int) + be16(dio3_mask as int));
        self.write_cmd(CMD_SET_DIO_IRQ_PARAMS, &params)
    }

    /// Clears the IRQ flags in the mask.
    pub fn clear_irq_status(&mut self, clear_mask: u16) -> (r: Result<(), SxError<SPI::Error>>)
        ensures
            cmd_sent(old(self).events(), final(self).events(), CMD_CLEAR_IRQ_STATUS, be16(clear_mask as int), r),
    {
        let params = be16_bytes(clear_mask);
        self.write_cmd(CMD_CLEAR_IRQ_STATUS, &params)
    }

    /// Starts transmission with a 24-bit timeout in ticks (0 = none).
    pub fn set_tx(&mut self, timeout_ticks: u32) -> (r: Result<(), SxError<SPI::Error>>)
        ensures
            cmd_sent(old(self).events(), final(self).events(), CMD_SET_TX, be24(timeout_ticks as int), r),
    {
        let params = be24_bytes(timeout_ticks);
        self.write_cmd(CMD_SET_TX, &params)
    }

    /// Starts reception with a 24-bit timeout in ticks (`0xFFFFFF` = continuous).
    pub fn set_rx(&mut self, timeout_ticks: u32) -> (r: Result<(), SxError<SPI::Error>>)
        ensures
            cmd_sent(old(self).events(), final(self).events(), CMD_SET_RX, be24(timeout_ticks as int), r),
    {
        let params = be24_bytes(timeout_ticks);
        self.write_cmd(CMD_SET_RX, &params)
    }

    /// Channel Activity Detection mode (no parameters).
    pub fn set_cad(&mut self) -> (r: Result<(), SxError<SPI::Error>>)
        ensures
            cmd_sent(old(self).events(), final(self).events(), CMD_SET_CAD, Seq::<u8>::empty(), r),
    {
        let params: [u8; 0] = [];
        assert(params@ =~= Seq::<u8>::empty());
        self.write_cmd(CMD_SET_CAD, &params)
    }

    /// CAD parameters: symbol count, peak, min, exit mode, 24-bit timeout.
    pub fn set_cad_params(&mut self, cad_symbol_num: u8, cad_det_peak: u8, cad_det_min: u8, cad_exit_mode: u8, cad_timeout: u32) -> (r: Result<(), SxError<SPI::Error>>)
        ensures
            cmd_sent(old(self).events(), final(self).events(), CMD_SET_CAD_PARAMS, seq![cad_symbol_num, cad_det_peak, cad_det_min, cad_exit_mode] + be24(cad_timeout as int), r),
    {
        let t = be24_bytes(cad_timeout);
        let params = [cad_symbol_num, cad_det_peak, cad_det_min, cad_exit_mode, t[0], t[1], t[2]];
        assert(params@ =~= seq![cad_symbol_num, cad_det_peak, cad_det_min, cad_exit_mode] + be24(cad_timeout as int));
        self.write_cmd(CMD_SET_CAD_PARAMS, &params)
    }

    /// Active IRQ flags: bytes 2 and 3 clocked in, big-endian.
    pub fn get_irq_status(&mut self) -> (r: Result<u16, SxError<SPI::Error>>)
        ensures
            sx_txn(old(self).events(), final(self).events(), transfer_body(seq![CMD_GET_IRQ_STATUS, 0u8, 0u8, 0u8], 4)),
            sx_result(r, txn_end(final(self).events(), old(self).events().len(), 1)),
            r matches Ok(v) ==> v == txn_data(final(self).events())[2] * 256 + txn_data(final(self).events())[3],
    {
        let tx = [CMD_GET_IRQ_STATUS, 0x00, 0x00, 0x00];
        assert(tx@ =~= seq![CMD_GET_IRQ_STATUS, 0u8, 0u8, 0u8]);
        let mut rx = [0u8; 4];
        match self.txn_transfer(&mut rx, &tx) {
            Ok(()) => Ok((rx[2] as u16) * 256 + rx[3] as u16),
            Err(e) => Err(e),
        }
    }

    /// Instantaneous RSSI in dBm: minus half the third byte clocked in.
    pub fn get_rssi_inst(&mut self) -> (r: Result<i16, SxError<SPI::Error>>)
        ensures
            sx_txn(old(self).events(), final(self).events(), transfer_body(seq![CMD_GET_RSSI_INST, 0u8, 0u8], 3)),
            sx_result(r, txn_end(final(self).events(), old(self).events().len(), 1)),
            r matches Ok(v) ==> v == rssi_dbm(txn_data(final(self).events())[2]),
    {
        let tx = [CMD_GET_RSSI_INST, 0x00, 0x00];
        assert(tx@ =~= seq![CMD_GET_RSSI_INST, 0u8, 0u8]);
        let mut rx = [0u8; 3];
        match self.txn_transfer(&mut rx, &tx) {
            Ok(()) => Ok(rssi_of(rx[2])),
            Err(e) => Err(e),
        }
    }

    /// RX buffer status: (payload length, start pointer), bytes 2 and 3.
    pub fn get_rx_buffer_status(&mut self) -> (r: Result<(u8, u8), SxError<SPI::Error>>)
        ensures
            sx_txn(old(self).events(), final(self).events(), transfer_body(seq![CMD_GET_RX_BUFFER_STATUS, 0u8, 0u8, 0u8], 4)),
            sx_result(r, txn_end(final(self).events(), old(self).events().len(), 1)),
            r matches Ok(v) ==> v == (txn_data(final(self).events())[2], txn_data(final(self).events())[3]),
    {
        let tx = [CMD_GET_RX_BUFFER_STATUS, 0x00, 0x00, 0x00];
        assert(tx@ =~= seq![CMD_GET_RX_BUFFER_STATUS, 0u8, 0u8, 0u8]);
        let mut rx = [0u8; 4];
        match self.txn_transfer(&mut rx, &tx) {
            Ok(()) => Ok((rx[2], rx[3])),
            Err(e) => Err(e),
        }
    }

    /// Packet status: RSSI (byte 2), SNR (byte 3, signed quarter dB), signal RSSI (byte 4).
    pub fn get_packet_status(&mut self) -> (r: Result<PacketStatus, SxError<SPI::Error>>)
        ensures
            sx_txn(old(self).events(), final(self).events(), transfer_body(seq![CMD_GET_PACKET_STATUS, 0u8, 0u8, 0u8, 0u8], 5)),
            sx_result(r, txn_end(final(self).events(), old(self).events().len(), 1)),
            r matches Ok(v) ==> v.rssi_pkt_dbm == rssi_dbm(txn_data(final(self).events())[2]) && v.snr_pkt_db == snr_db(txn_data(final(self).events())[3]) && v.signal_rssi_pkt_dbm == rssi_dbm(txn_data(final(self).events())[4]),
    {
        let tx = [CMD_GET_PACKET_STATUS, 0x00, 0x00, 0x00, 0x00];
        assert(tx@ =~= seq![CMD_GET_PACKET_STATUS, 0u8, 0u8, 0u8, 0u8]);
        let mut rx = [0u8; 5];
        match self.txn_transfer(&mut rx, &tx) {
            Ok(()) => Ok(PacketStatus { rssi_pkt_dbm: rssi_of(rx[2]), snr_pkt_db: snr_of(rx[3]), signal_rssi_pkt_dbm: rssi_of(rx[4]) }),
            Err(e) => Err(e),
        }
    }

    /// Writes the 16-bit sync word: high byte to 0x0740, then low byte to
    /// 0x0741 (only if the first write went through).
    pub fn set_lora_sync_word(&mut self, sync_word: u16) -> (r: Result<(), SxError<SPI::Error>>)
        ensures
            sync_word_sent(old(self).events(), final(self).events(), sync_word, r),
    {
        let ghost base = self.events();
        let ghost b = base.len();
        let ghost p1 = be16(REG_LORA_SYNC_WORD_MSB as int) + seq![((sync_word / 256) % 256) as u8];
        let ghost body1 = write_body(seq![CMD_WRITE_REGISTER], p1, false);
        let r1 = self.write_reg(REG_LORA_SYNC_WORD_MSB, ((sync_word / 256) % 256) as u8);
        let ghost mid = self.events();
        proof {
            assert(mid.take(mid.len() as int) =~= mid);
        }
        match r1 {
            Err(e) => return Err(e),
            Ok(()) => {},
        }
        let r2 = self.write_reg(REG_LORA_SYNC_WORD_LSB, (sync_word % 256) as u8);
        proof {
            let fin = self.events();
            lemma_txn_stable(mid, fin, b, body1);
            assert(fin.take(mid.len() as int) =~= mid);
            assert forall|i: int| 0 <= i < txn_requests(fin, b, body1).len() implies #[trigger] fin[b + i].request == txn_requests(fin, b, body1)[i] by {
                assert(fin.subrange(0, mid.len() as int)[b + i] == fin[b + i]);
            }
        }
        r2
    }
}

} // verus!
