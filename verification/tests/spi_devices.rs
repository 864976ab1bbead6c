use papermono::bus::{InputPin, OutputPin, SpiBus};
use papermono::radios::lora::{
    calculate_rf_freq_reg, encode_sync_word, us915_channel_freq_hz, ChipMode, CommandStatus,
    RadioStatus, Sx1262, SxError, BUSY, CMD_CLEAR_IRQ_STATUS, CMD_GET_DEVICE_ERRORS,
    CMD_GET_IRQ_STATUS, CMD_GET_PACKET_STATUS, CMD_GET_PACKET_TYPE, CMD_GET_RSSI_INST,
    CMD_GET_STATUS, CMD_READ_BUFFER, CMD_READ_REGISTER, CMD_SET_CAD, CMD_SET_CAD_PARAMS,
    CMD_SET_DIO_IRQ_PARAMS, CMD_SET_MODULATION_PARAMS, CMD_SET_PACKET_PARAMS,
    CMD_SET_RF_FREQUENCY, CMD_SET_STANDBY, CMD_WRITE_BUFFER, CMD_WRITE_REGISTER,
    FREQ_BENCH_PING_HZ, FREQ_RX_SNIFFER_PRI_HZ, FREQ_RX_SNIFFER_SEC_HZ, IOE1_ANTENNA_SWITCH,
    IOE1_RESET, IRQ, NSS, REG_LORA_SYNC_WORD_LSB, REG_LORA_SYNC_WORD_MSB, SPI_CLK, SPI_MISO,
    SPI_MOSI, STDBY_CONFIG_RC, SYNC_WORD_ALT, SYNC_WORD_MESHTASTIC, SYNC_WORD_PRIVATE,
    SYNC_WORD_PUBLIC, US915_NUM_CHANNELS,
};
use papermono::radios::{ioe1, nfc, pins, LITE_SKU, SKU};
use papermono::ssd1677::{
    gray_planes, ram_addr10, OtpRefresh, Ssd1677, GRAY_BLACK, GRAY_DARK, GRAY_LIGHT, GRAY_WHITE,
    MASTER_ACTIVATION, OTP_BYTES_PER_ROW, OTP_GRAY_TITLE, OTP_PLANE_BYTES, OTP_RAM_HEIGHT,
    OTP_RAM_WIDTH, OTP_SPI_HZ, SW_RESET, UPDATE_SEQ_OTP_4GRAY, UPDATE_SEQ_OTP_MODE1,
    UPDATE_SEQ_OTP_MONO, UPDATE_SEQ_OTP_MONO_SYNC, UPDATE_SEQ_OTP_PARTIAL, WRITE_FSCL_MAX_HZ,
    WRITE_RAM_BW,
};

#[derive(Debug, Clone, PartialEq)]
enum SpiTxn {
    Write(Vec<u8>),
    Read(Vec<u8>),
    Transfer(Vec<u8>, Vec<u8>),
}

struct SpiMock {
    txns: Vec<SpiTxn>,
    at: usize,
}

impl SpiMock {
    fn new(txns: &[SpiTxn]) -> Self {
        SpiMock { txns: txns.to_vec(), at: 0 }
    }

    fn next(&mut self) -> SpiTxn {
        assert!(self.at < self.txns.len(), "unexpected SPI transfer");
        let t = self.txns[self.at].clone();
        self.at += 1;
        t
    }

    fn done(&self) {
        assert_eq!(self.at, self.txns.len(), "expected SPI transfers did not run");
    }
}

impl SpiBus for SpiMock {
    type Error = ();

    fn write(&mut self, words: &[u8]) -> Result<(), ()> {
        assert_eq!(self.next(), SpiTxn::Write(words.to_vec()));
        Ok(())
    }

    fn read(&mut self, words: &mut [u8]) -> Result<(), ()> {
        match self.next() {
            SpiTxn::Read(data) => {
                words.copy_from_slice(&data);
                Ok(())
            }
            t => panic!("expected {t:?}, got a read"),
        }
    }

    fn transfer(&mut self, read: &mut [u8], write: &[u8]) -> Result<(), ()> {
        match self.next() {
            SpiTxn::Transfer(w, r) => {
                assert_eq!(w, write.to_vec());
                read.copy_from_slice(&r);
                Ok(())
            }
            t => panic!("expected {t:?}, got a transfer"),
        }
    }
}

/// Output pin that expects a script of levels (`true` = high).
struct OutMock {
    levels: Vec<bool>,
    at: usize,
}

impl OutMock {
    fn new(levels: &[bool]) -> Self {
        OutMock { levels: levels.to_vec(), at: 0 }
    }

    fn set(&mut self, high: bool) {
        assert!(self.at < self.levels.len(), "unexpected pin write");
        assert_eq!(self.levels[self.at], high);
        self.at += 1;
    }

    fn done(&self) {
        assert_eq!(self.at, self.levels.len(), "expected pin writes did not run");
    }
}

impl OutputPin for OutMock {
    type Error = ();

    fn set_low(&mut self) -> Result<(), ()> {
        self.set(false);
        Ok(())
    }

    fn set_high(&mut self) -> Result<(), ()> {
        self.set(true);
        Ok(())
    }
}

/// BUSY input: reads high for the first `high_polls` samples, then low.
struct BusyMock {
    high_polls: usize,
    polls: usize,
}

impl InputPin for BusyMock {
    type Error = ();

    fn is_low(&mut self) -> Result<bool, ()> {
        self.polls += 1;
        Ok(self.polls > self.high_polls)
    }
}

fn ready_busy() -> BusyMock {
    BusyMock { high_polls: 0, polls: 0 }
}

const LOW: bool = false;
const HIGH: bool = true;

#[test]
fn sku_is_full_papermono() {
    assert_eq!(SKU, "C153");
    assert_eq!(LITE_SKU, "C153-Lite");
    assert_ne!(SKU, LITE_SKU);
}

#[test]
fn radio_gpios_are_not_on_the_shared_map() {
    for assigned in pins::ASSIGNED.iter() {
        assert_ne!(*assigned, nfc::IRQ);
        assert_ne!(*assigned, IRQ);
        assert_ne!(*assigned, BUSY);
        assert_ne!(*assigned, SPI_MOSI);
        assert_ne!(*assigned, SPI_CLK);
        assert_ne!(*assigned, SPI_MISO);
        assert_ne!(*assigned, NSS);
    }
}

#[test]
fn radio_expander_pins_are_not_on_the_shared_map() {
    for assigned in ioe1::ASSIGNED.iter() {
        assert_ne!(*assigned, nfc::IOE1_ENABLE);
        assert_ne!(*assigned, IOE1_ANTENNA_SWITCH);
        assert_ne!(*assigned, IOE1_RESET);
    }
}

#[test]
fn lora_spi_is_not_epd_spi2() {
    assert_ne!(SPI_MOSI, pins::EPD_MOSI);
    assert_ne!(SPI_CLK, pins::EPD_SCLK);
    assert_ne!(NSS, pins::EPD_CS);
}

#[test]
fn lora_spi_is_not_sdmmc() {
    for sd in [
        pins::SDMMC_DAT0,
        pins::SDMMC_DAT1,
        pins::SDMMC_DAT2,
        pins::SDMMC_DAT3,
        pins::SDMMC_CMD,
        pins::SDMMC_CLK,
    ] {
        assert_ne!(SPI_MOSI, sd);
        assert_ne!(SPI_CLK, sd);
        assert_ne!(SPI_MISO, sd);
        assert_ne!(NSS, sd);
    }
}

#[test]
fn lora_pins_are_unique() {
    let mut pins = [IRQ, BUSY, SPI_MOSI, SPI_CLK, SPI_MISO, NSS];
    pins.sort_unstable();
    for pair in pins.windows(2) {
        assert_ne!(pair[0], pair[1]);
    }
}

#[test]
fn lora_jtag_mux_pins() {
    assert_eq!(SPI_CLK, 39);
    assert_eq!(SPI_MISO, 40);
    assert_eq!(NSS, 41);
}

#[test]
fn decode_radio_status() {
    let stby_data = RadioStatus::from_byte(0x24);
    assert_eq!(stby_data.chip_mode, ChipMode::StbyRc);
    assert_eq!(stby_data.command_status, CommandStatus::DataAvailable);
    assert!(stby_data.is_standby());
    assert!(stby_data.is_ok());

    let stby_xosc = RadioStatus::from_byte(0x30);
    assert_eq!(stby_xosc.chip_mode, ChipMode::StbyXosc);
    assert!(stby_xosc.is_standby());
    assert!(stby_xosc.is_ok());

    let err_status = RadioStatus::from_byte(0x2A);
    assert_eq!(err_status.command_status, CommandStatus::ExecutionFailure);
    assert!(!err_status.is_ok());
}

#[test]
fn radio_status_other_modes_and_failures() {
    let rx = RadioStatus::from_byte(0x5C);
    assert_eq!(rx.chip_mode, ChipMode::Rx);
    assert!(!rx.is_standby());
    let timeout = RadioStatus::from_byte(0x26);
    assert_eq!(timeout.command_status, CommandStatus::Timeout);
    assert!(!timeout.is_ok());
    let bad = RadioStatus::from_byte(0x28);
    assert_eq!(bad.command_status, CommandStatus::ProcessingError);
    assert!(!bad.is_ok());
}

#[test]
fn opcodes_match_sx1262_specification() {
    assert_eq!(CMD_GET_STATUS, 0xC0);
    assert_eq!(CMD_GET_PACKET_TYPE, 0x11);
    assert_eq!(CMD_SET_STANDBY, 0x80);
    assert_eq!(CMD_GET_DEVICE_ERRORS, 0x17);
    assert_eq!(CMD_SET_RF_FREQUENCY, 0x86);
    assert_eq!(CMD_SET_PACKET_PARAMS, 0x8C);
    assert_eq!(CMD_SET_MODULATION_PARAMS, 0x8B);
    assert_eq!(CMD_SET_DIO_IRQ_PARAMS, 0x08);
    assert_eq!(CMD_GET_IRQ_STATUS, 0x12);
    assert_eq!(CMD_CLEAR_IRQ_STATUS, 0x02);
    assert_eq!(CMD_SET_CAD, 0xC5);
    assert_eq!(CMD_SET_CAD_PARAMS, 0x88);
}

#[test]
fn sync_word_encoding_matches_semtech_and_meshtastic() {
    assert_eq!(encode_sync_word(0x12), SYNC_WORD_PRIVATE);
    assert_eq!(SYNC_WORD_PRIVATE, 0x1424);
    assert_eq!(encode_sync_word(0x34), SYNC_WORD_PUBLIC);
    assert_eq!(SYNC_WORD_PUBLIC, 0x3444);
    assert_eq!(encode_sync_word(0x2B), SYNC_WORD_MESHTASTIC);
    assert_eq!(SYNC_WORD_MESHTASTIC, 0x24B4);
    assert_eq!(SYNC_WORD_ALT, 0x24B4);
}

#[test]
fn us915_channels_match_frequency_slots() {
    assert_eq!(US915_NUM_CHANNELS, 104);
    assert_eq!(us915_channel_freq_hz(0), 902_125_000);
    assert_eq!(us915_channel_freq_hz(19), FREQ_RX_SNIFFER_SEC_HZ);
    assert_eq!(us915_channel_freq_hz(62), FREQ_RX_SNIFFER_PRI_HZ);
    assert_eq!(us915_channel_freq_hz(103), 927_875_000);
}

#[test]
fn frequency_calculation_matches_semtech_formula() {
    assert_eq!(calculate_rf_freq_reg(FREQ_BENCH_PING_HZ), 0x3930_0000);
    assert_eq!(calculate_rf_freq_reg(915_000_000), 959_447_040);
    assert_eq!(calculate_rf_freq_reg(FREQ_RX_SNIFFER_PRI_HZ), 0x395A_0000);
    assert_eq!(calculate_rf_freq_reg(917_625_000), 962_199_552);
    assert_eq!(calculate_rf_freq_reg(FREQ_RX_SNIFFER_SEC_HZ), 0x38AE_0000);
    assert_eq!(calculate_rf_freq_reg(906_875_000), 950_927_360);
    assert_eq!(calculate_rf_freq_reg(868_000_000), 0x3640_0000);
}

#[test]
fn frequency_register_edges() {
    assert_eq!(calculate_rf_freq_reg(0), 0);
    assert_eq!(calculate_rf_freq_reg(u32::MAX), 208_632_330);
}

#[test]
fn sx1262_write_cmd_and_get_status_mock() {
    let spi = SpiMock::new(&[
        SpiTxn::Write(vec![CMD_SET_STANDBY]),
        SpiTxn::Write(vec![STDBY_CONFIG_RC]),
        SpiTxn::Transfer(vec![CMD_GET_STATUS, 0x00], vec![0x24, 0x24]),
    ]);
    let nss = OutMock::new(&[LOW, HIGH, LOW, HIGH]);
    let mut sx = Sx1262::new(spi, nss, ready_busy());
    sx.set_standby(STDBY_CONFIG_RC).unwrap();
    let status = sx.get_status().unwrap();
    assert_eq!(status.chip_mode, ChipMode::StbyRc);
    assert_eq!(status.command_status, CommandStatus::DataAvailable);

    let (spi, nss, busy) = sx.release();
    spi.done();
    nss.done();
    assert_eq!(busy.polls, 2);
}

#[test]
fn sx1262_buffer_read_write_mock() {
    let payload = [0x50, 0x49, 0x4E, 0x47];
    let spi = SpiMock::new(&[
        SpiTxn::Write(vec![CMD_WRITE_BUFFER, 0x00]),
        SpiTxn::Write(vec![0x50, 0x49, 0x4E, 0x47]),
        SpiTxn::Write(vec![CMD_READ_BUFFER, 0x00, 0x00]),
        SpiTxn::Read(vec![0x50, 0x49, 0x4E, 0x47]),
    ]);
    let nss = OutMock::new(&[LOW, HIGH, LOW, HIGH]);
    let mut sx = Sx1262::new(spi, nss, ready_busy());
    sx.write_buffer(0x00, &payload).unwrap();

    let mut read_buf = [0u8; 4];
    sx.read_buffer(0x00, &mut read_buf).unwrap();
    assert_eq!(read_buf, payload);

    let (spi, nss, busy) = sx.release();
    spi.done();
    nss.done();
    assert_eq!(busy.polls, 2);
}

#[test]
fn sx1262_packet_status_and_rssi_mock() {
    let spi = SpiMock::new(&[
        SpiTxn::Transfer(vec![CMD_GET_PACKET_STATUS, 0x00, 0x00, 0x00, 0x00], vec![0x24, 0x24, 168, 28, 176]),
        SpiTxn::Transfer(vec![CMD_GET_RSSI_INST, 0x00, 0x00], vec![0x24, 0x24, 216]),
    ]);
    let nss = OutMock::new(&[LOW, HIGH, LOW, HIGH]);
    let mut sx = Sx1262::new(spi, nss, ready_busy());
    let pkt = sx.get_packet_status().unwrap();
    assert_eq!(pkt.rssi_pkt_dbm, -84);
    assert_eq!(pkt.snr_pkt_db, 7);
    assert_eq!(pkt.signal_rssi_pkt_dbm, -88);

    let rssi = sx.get_rssi_inst().unwrap();
    assert_eq!(rssi, -108);

    let (spi, nss, busy) = sx.release();
    spi.done();
    nss.done();
    assert_eq!(busy.polls, 2);
}

#[test]
fn sx1262_registers_frequency_and_sync_word() {
    let reg = calculate_rf_freq_reg(915_000_000).to_be_bytes();
    let spi = SpiMock::new(&[
        SpiTxn::Write(vec![CMD_SET_RF_FREQUENCY]),
        SpiTxn::Write(reg.to_vec()),
        SpiTxn::Write(vec![CMD_WRITE_REGISTER]),
        SpiTxn::Write(vec![0x07, 0x40, 0x24]),
        SpiTxn::Write(vec![CMD_WRITE_REGISTER]),
        SpiTxn::Write(vec![0x07, 0x41, 0xB4]),
        SpiTxn::Write(vec![CMD_READ_REGISTER, 0x07, 0x40, 0x00]),
        SpiTxn::Read(vec![0x24]),
        SpiTxn::Transfer(vec![CMD_GET_IRQ_STATUS, 0, 0, 0], vec![0x24, 0x24, 0x02, 0x01]),
    ]);
    let nss = OutMock::new(&[LOW, HIGH, LOW, HIGH, LOW, HIGH, LOW, HIGH, LOW, HIGH]);
    let mut sx = Sx1262::new(spi, nss, ready_busy());
    sx.set_rf_frequency(915_000_000).unwrap();
    sx.set_lora_sync_word(SYNC_WORD_MESHTASTIC).unwrap();
    assert_eq!(sx.read_reg(REG_LORA_SYNC_WORD_MSB).unwrap(), 0x24);
    assert_eq!(REG_LORA_SYNC_WORD_LSB, 0x0741);
    assert_eq!(sx.get_irq_status().unwrap(), 0x0201);
    let (spi, nss, _busy) = sx.release();
    spi.done();
    nss.done();
}

#[test]
fn sx1262_busy_timeout_touches_nothing() {
    let spi = SpiMock::new(&[]);
    let nss = OutMock::new(&[]);
    let busy = BusyMock { high_polls: usize::MAX, polls: 0 };
    let mut sx = Sx1262::new(spi, nss, busy);
    assert_eq!(sx.set_standby(STDBY_CONFIG_RC), Err(SxError::BusyTimeout));
    let (spi, nss, busy) = sx.release();
    spi.done();
    nss.done();
    assert_eq!(busy.polls, 50_000);
}

#[test]
fn sx1262_waits_while_busy_is_high() {
    let spi = SpiMock::new(&[SpiTxn::Write(vec![CMD_SET_CAD])]);
    let nss = OutMock::new(&[LOW, HIGH]);
    let busy = BusyMock { high_polls: 3, polls: 0 };
    let mut sx = Sx1262::new(spi, nss, busy);
    sx.set_cad().unwrap();
    let (spi, nss, busy) = sx.release();
    spi.done();
    nss.done();
    assert_eq!(busy.polls, 4);
}

#[test]
fn otp_demo_ram_is_landscape_same_plane() {
    assert_eq!(OTP_RAM_WIDTH, 800);
    assert_eq!(OTP_RAM_HEIGHT, 480);
    assert_eq!(OTP_BYTES_PER_ROW, 100);
    assert_eq!(OTP_PLANE_BYTES, 48_000);
    assert_eq!(UPDATE_SEQ_OTP_4GRAY, 0xD7);
    assert_ne!(UPDATE_SEQ_OTP_4GRAY, UPDATE_SEQ_OTP_MODE1);
    assert_eq!(OtpRefresh::GrayFull.title(), OTP_GRAY_TITLE);
    assert_eq!(OtpRefresh::GrayFull.update_seq(), &[UPDATE_SEQ_OTP_4GRAY]);
    assert!(OtpRefresh::GrayFull.invalidates_mono_baseline());
    assert!(OtpRefresh::Partial.requires_mono_baseline());
    assert!(OtpRefresh::MonoFull.rebuilds_mono_baseline());
    assert_eq!(ram_addr10(799), [0x1F, 0x03]);
    assert_eq!(gray_planes(GRAY_WHITE), (false, false));
    assert_eq!(gray_planes(GRAY_BLACK), (true, true));
    assert!(OTP_RAM_WIDTH % 8 == 0);
    assert!(OTP_SPI_HZ <= WRITE_FSCL_MAX_HZ);
}

#[test]
fn refresh_sequences_and_gray_tones() {
    assert_eq!(OtpRefresh::MonoFull.update_seq(), &[UPDATE_SEQ_OTP_MONO_SYNC, UPDATE_SEQ_OTP_MONO]);
    assert_eq!(OtpRefresh::Partial.update_seq(), &[UPDATE_SEQ_OTP_PARTIAL]);
    assert!(!OtpRefresh::MonoFull.requires_mono_baseline());
    assert_eq!(OtpRefresh::Partial.title(), "otp_partial");
    assert_eq!(gray_planes(GRAY_LIGHT), (true, false));
    assert_eq!(gray_planes(GRAY_DARK), (false, true));
    assert_eq!(gray_planes(GRAY_WHITE | 0x04), gray_planes(GRAY_WHITE));
    assert_eq!(ram_addr10(479), [0xDF, 0x01]);
}

#[test]
fn cmd_drives_dc_and_cs() {
    let spi = SpiMock::new(&[SpiTxn::Write(vec![SW_RESET])]);
    let dc = OutMock::new(&[LOW]);
    let cs = OutMock::new(&[LOW, HIGH]);
    let mut epd = Ssd1677::new(spi, dc, cs);
    epd.cmd(SW_RESET, &[]).unwrap();
    let (spi, dc, cs) = epd.release();
    spi.done();
    dc.done();
    cs.done();
}

#[test]
fn cmd_with_data_raises_dc_and_ram_transfer_holds_cs() {
    let spi = SpiMock::new(&[
        SpiTxn::Write(vec![MASTER_ACTIVATION]),
        SpiTxn::Write(vec![WRITE_RAM_BW]),
        SpiTxn::Write(vec![0xAA, 0x55]),
        SpiTxn::Write(vec![0x0F]),
    ]);
    let dc = OutMock::new(&[LOW, LOW, HIGH]);
    let cs = OutMock::new(&[LOW, HIGH, LOW, HIGH]);
    let mut epd = Ssd1677::new(spi, dc, cs);
    epd.activate().unwrap();
    epd.begin_ram(WRITE_RAM_BW).unwrap();
    epd.write_bytes(&[0xAA, 0x55]).unwrap();
    epd.write_bytes(&[0x0F]).unwrap();
    epd.end_ram().unwrap();
    let (spi, dc, cs) = epd.release();
    spi.done();
    dc.done();
    cs.done();
}

#[test]
fn rewind_gray_starts_at_the_last_column() {
    let spi = SpiMock::new(&[
        SpiTxn::Write(vec![0x4E]),
        SpiTxn::Write(vec![0x1F, 0x03]),
        SpiTxn::Write(vec![0x4F]),
        SpiTxn::Write(vec![0x00, 0x00]),
    ]);
    let dc = OutMock::new(&[LOW, HIGH, LOW, HIGH]);
    let cs = OutMock::new(&[LOW, HIGH, LOW, HIGH]);
    let mut epd = Ssd1677::new(spi, dc, cs);
    epd.rewind_gray().unwrap();
    let (spi, dc, cs) = epd.release();
    spi.done();
    dc.done();
    cs.done();
}
