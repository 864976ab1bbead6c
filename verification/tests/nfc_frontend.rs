use papermono::bus::I2cBus;
use papermono::lite::addresses;
use papermono::radios::nfc::{ADDRESS, IOE1_ENABLE};
use papermono::st25r3916::commands::{
    register_read_cmd, CMD_ADJUST_REGULATORS, CMD_CLEAR_FIFO, CMD_NFC_INITIAL_FIELD_ON,
    CMD_READ_IC_IDENTITY, CMD_RESET_RX_GAIN, CMD_SET_DEFAULT, CMD_STOP_ALL, CMD_TEST_ACCESS,
    CMD_TRANSMIT_REQA, CMD_TRANSMIT_WITHOUT_CRC, CMD_TRANSMIT_WITH_CRC, CMD_TRANSMIT_WUPA,
    MODE_FIFO_LOAD, MODE_FIFO_READ, MODE_PT_MEM_A_CONFIG, MODE_PT_MEM_F_CONFIG, MODE_PT_MEM_READ,
    MODE_PT_MEM_TSN,
};
use papermono::st25r3916::initiator::{
    Iso14443aCard, AUX_DEF_NO_CRC_RX, ISO14443A_ANTCL, ISO14443A_CMD_SEL_CL1,
    ISO14443A_NVB_ANTICOLLISION, ISO14443A_NVB_SELECT, RX_CONF1_Z600K, RX_CONF2_DEFAULT,
    RX_CONF3_STABILITY, RX_CONF4_STABILITY, TX_DRIVER_DEFAULT,
};
use papermono::st25r3916::memory::{
    NfcFParams, PtMemory, A_CONFIG_LEN, F_CONFIG_LEN, PT_MEMORY_SIZE, SENSF_RES_BYTE1,
};
use papermono::st25r3916::ndef::{build_text_record, build_uri_record, wrap_in_type2_tlv, NdefError, UriPrefix};
use papermono::st25r3916::registers::{
    AUX_DISPLAY_OSC_OK, IO_CONF2_AAT_EN, IO_CONF2_IO_DRV_LVL, IO_CONF2_SUP3V,
    MODE_INITIATOR_ISO14443A, MODE_NFC_AR8_AUTO, OP_CONTROL_EN, OP_CONTROL_RX_EN,
    OP_CONTROL_TX_EN, REG_ANTENNA_TUNING1, REG_ANTENNA_TUNING2, REG_AUX_DEFINITION,
    REG_AUX_DISPLAY, REG_BIT_RATE, REG_EXT_FIELD_DETECTOR_ACT, REG_EXT_FIELD_DETECTOR_DEACT,
    REG_FIFO_STATUS1, REG_IC_IDENTITY, REG_IO_CONF1, REG_IO_CONF2, REG_ISO14443A_SETTINGS,
    REG_MAIN_IRQ, REG_MODE_DEFINITION, REG_NUM_TX_BYTES1, REG_NUM_TX_BYTES2, REG_OP_CONTROL,
    REG_RECEIVER_CONF1, REG_RECEIVER_CONF2, REG_RECEIVER_CONF3, REG_RECEIVER_CONF4,
    REG_TX_DRIVER,
};
use papermono::st25r3916::type2::{Type2Error, Type2Memory, CMD_TYPE2_READ, CMD_TYPE2_WRITE, TYPE2_ACK};
use papermono::st25r3916::type4::{CommandApdu, Type4TagApp, AID_NDEF_V2, INS_SELECT};
use papermono::st25r3916::registers::{
    PtaState, MODE_TARGET_FELICA, MODE_TARGET_ISO14443A, REG_NFCIP1_PASSIVE_TARGET,
    REG_PASSIVE_TARGET_MOD, REG_TARGET_DISPLAY, REG_TARGET_IRQ,
};
use papermono::st25r3916::{
    IcIdentity, NfcATargetConfig, NfcATargetKind, NfcFBitRate, NfcFTargetConfig, Nfcip1CommunicationMode,
    Nfcip1TargetConfig, St25r3916, TargetInterrupts, TargetModulation, CMD_GOTO_SENSE, CMD_GOTO_SLEEP,
};

#[derive(Debug, Clone, PartialEq)]
enum Txn {
    Write(u8, Vec<u8>),
    WriteRead(u8, Vec<u8>, Vec<u8>),
    Fail,
}

/// Scripted I2C bus: each transfer must match the next expected one.
struct Mock {
    txns: Vec<Txn>,
    at: usize,
}

impl Mock {
    fn new(txns: &[Txn]) -> Self {
        Mock { txns: txns.to_vec(), at: 0 }
    }

    fn next(&mut self) -> Txn {
        assert!(self.at < self.txns.len(), "unexpected transfer");
        let t = self.txns[self.at].clone();
        self.at += 1;
        t
    }

    fn done(&self) {
        assert_eq!(self.at, self.txns.len(), "expected transfers did not run");
    }
}

impl I2cBus for Mock {
    type Error = ();

    fn write(&mut self, address: u8, bytes: &[u8]) -> Result<(), ()> {
        match self.next() {
            Txn::Fail => Err(()),
            t => {
                assert_eq!(t, Txn::Write(address, bytes.to_vec()));
                Ok(())
            }
        }
    }

    fn read(&mut self, _address: u8, _buffer: &mut [u8]) -> Result<(), ()> {
        panic!("plain reads are not expected here");
    }

    fn write_read(&mut self, address: u8, bytes: &[u8], buffer: &mut [u8]) -> Result<(), ()> {
        match self.next() {
            Txn::WriteRead(a, w, r) => {
                assert_eq!((a, w), (address, bytes.to_vec()));
                assert_eq!(r.len(), buffer.len());
                buffer.copy_from_slice(&r);
                Ok(())
            }
            Txn::Fail => Err(()),
            t => panic!("expected {t:?}, got a write-read"),
        }
    }
}

fn w(bytes: &[u8]) -> Txn {
    Txn::Write(ADDRESS, bytes.to_vec())
}

fn wr(bytes: &[u8], back: &[u8]) -> Txn {
    Txn::WriteRead(ADDRESS, bytes.to_vec(), back.to_vec())
}

#[test]
fn nfc_is_not_a_lite_system_address() {
    assert_ne!(ADDRESS, addresses::FT6336G);
    assert_ne!(ADDRESS, addresses::M5IOE1);
    assert_ne!(ADDRESS, addresses::M5PM1);
    assert_ne!(ADDRESS, addresses::IP2315);
    assert_ne!(ADDRESS, addresses::BMI270);
    assert_ne!(ADDRESS, addresses::RX8130CE);
}

#[test]
fn identity_command_encodes_register_3f() {
    assert_eq!(CMD_READ_IC_IDENTITY, 0x7F);
    assert_eq!(register_read_cmd(REG_IC_IDENTITY), 0x7F);
    assert_eq!(register_read_cmd(REG_OP_CONTROL), 0x42);
    assert_eq!(register_read_cmd(REG_FIFO_STATUS1), 0x5E);
}

#[test]
fn parse_st25r3916_identity() {
    let default_ident = IcIdentity::from_byte(0x2A);
    assert_eq!(default_ident.ic_type, 5);
    assert_eq!(default_ident.ic_rev, 2);
    assert!(default_ident.is_st25r3916());

    let rev3_ident = IcIdentity::from_byte((5 << 3) | 3);
    assert!(rev3_ident.is_st25r3916());

    let foreign_ident = IcIdentity::from_byte(0x00);
    assert!(!foreign_ident.is_st25r3916());
}

#[test]
fn ic_identity_decoding() {
    let id = IcIdentity::from_byte(0x2A);
    assert_eq!(id.ic_type, 5);
    assert_eq!(id.ic_rev, 2);
    assert!(id.is_st25r3916());

    let foreign = IcIdentity::from_byte(0x10);
    assert!(!foreign.is_st25r3916());
}

fn single_card() -> Iso14443aCard {
    Iso14443aCard {
        atqa: [0x04, 0x00],
        sak: 0x08,
        uid_len: 4,
        uid: [0x08, 0x2C, 0xA1, 0x3F, 0, 0, 0, 0, 0, 0],
    }
}

fn double_card() -> Iso14443aCard {
    Iso14443aCard {
        atqa: [0x44, 0x00],
        sak: 0x00,
        uid_len: 7,
        uid: [0x04, 0xA2, 0x3B, 0x5C, 0x1D, 0x8E, 0x4A, 0, 0, 0],
    }
}

#[test]
fn nfc_card_uid_and_size_properties() {
    let single = single_card();
    assert!(single.is_single_size());
    assert!(!single.is_double_size());
    assert_eq!(single.uid(), &[0x08, 0x2C, 0xA1, 0x3F]);

    let double = double_card();
    assert!(!double.is_single_size());
    assert!(double.is_double_size());
    assert_eq!(double.uid(), &[0x04, 0xA2, 0x3B, 0x5C, 0x1D, 0x8E, 0x4A]);
}

#[test]
fn initiator_card_uid_and_size_properties() {
    let single = single_card();
    assert!(single.is_single_size());
    assert!(!single.is_double_size());
    assert_eq!(single.uid(), &[0x08, 0x2C, 0xA1, 0x3F]);

    let double = double_card();
    assert!(!double.is_single_size());
    assert!(double.is_double_size());
    assert_eq!(double.uid(), &[0x04, 0xA2, 0x3B, 0x5C, 0x1D, 0x8E, 0x4A]);
}

#[test]
fn nfc_enable_is_an_expander_pin() {
    assert_eq!(IOE1_ENABLE, 4);
}

#[test]
fn st25r3916_read_identity_mock() {
    let txns = [wr(&[CMD_READ_IC_IDENTITY], &[0x2A])];
    let mut st = St25r3916::new(Mock::new(&txns), ADDRESS);
    let id = st.read_identity().unwrap();
    assert_eq!(id.ic_type, 5);
    assert_eq!(id.ic_rev, 2);
    st.release().done();
}

#[test]
fn read_identity_transaction() {
    let txns = [wr(&[CMD_READ_IC_IDENTITY], &[0x2A])];
    let mut nfc = St25r3916::new(Mock::new(&txns), ADDRESS);
    let id = nfc.read_identity().unwrap();
    assert_eq!(id.ic_type, 5);
    assert_eq!(id.ic_rev, 2);
    nfc.release().done();
}

#[test]
fn register_access_and_masked_update() {
    let txns = [
        w(&[REG_IO_CONF1, 0x07]),
        wr(&[register_read_cmd(REG_OP_CONTROL)], &[0x1F]),
        wr(&[register_read_cmd(REG_OP_CONTROL)], &[0x0F]),
        w(&[REG_OP_CONTROL, 0x8F]),
        w(&[CMD_CLEAR_FIFO]),
    ];
    let mut st = St25r3916::new(Mock::new(&txns), ADDRESS);
    assert_eq!(st.address(), ADDRESS);
    st.write_reg(REG_IO_CONF1, 0x07).unwrap();
    assert_eq!(st.read_reg(REG_OP_CONTROL).unwrap(), 0x1F);
    st.modify_reg(REG_OP_CONTROL, 0x84, 0xFF).unwrap();
    st.clear_fifo().unwrap();
    st.release().done();
}

#[test]
fn bus_error_is_passed_through() {
    let mut st = St25r3916::new(Mock::new(&[Txn::Fail]), ADDRESS);
    assert_eq!(st.read_identity().map(|id| id.ic_type), Err(()));
    st.release().done();

    let mut st = St25r3916::new(Mock::new(&[Txn::Fail]), ADDRESS);
    assert_eq!(st.modify_reg(REG_OP_CONTROL, 0x80, 0x80), Err(()));
    st.release().done();
}

#[test]
fn fifo_load_and_read() {
    let txns = [
        w(&[MODE_FIFO_LOAD, 0x93, 0x20]),
        wr(&[register_read_cmd(REG_FIFO_STATUS1)], &[2]),
        wr(&[MODE_FIFO_READ], &[0xAB, 0xCD]),
    ];
    let mut st = St25r3916::new(Mock::new(&txns), ADDRESS);
    st.write_fifo(&[0x93, 0x20]).unwrap();
    assert_eq!(st.fifo_bytes().unwrap(), 2);
    let mut buf = [0u8; 2];
    st.read_fifo(&mut buf).unwrap();
    assert_eq!(buf, [0xAB, 0xCD]);
    st.release().done();
}

fn enable_field_txns() -> Vec<Txn> {
    vec![
        w(&[CMD_STOP_ALL]),
        w(&[REG_OP_CONTROL, 0x00]),
        w(&[CMD_SET_DEFAULT]),
        w(&[CMD_TEST_ACCESS, 0x04, 0x10]),
        w(&[REG_IO_CONF1, 0x07]),
        w(&[REG_IO_CONF2, IO_CONF2_SUP3V | IO_CONF2_IO_DRV_LVL | IO_CONF2_AAT_EN]),
        w(&[REG_TX_DRIVER, TX_DRIVER_DEFAULT]),
        w(&[REG_ANTENNA_TUNING1, 0x82]),
        w(&[REG_ANTENNA_TUNING2, 0x82]),
        w(&[REG_EXT_FIELD_DETECTOR_ACT, 0x13]),
        w(&[REG_EXT_FIELD_DETECTOR_DEACT, 0x02]),
        w(&[REG_OP_CONTROL, OP_CONTROL_EN | 0x03]),
        wr(&[register_read_cmd(REG_AUX_DISPLAY)], &[AUX_DISPLAY_OSC_OK]),
        w(&[CMD_ADJUST_REGULATORS]),
        w(&[REG_MODE_DEFINITION, MODE_INITIATOR_ISO14443A | MODE_NFC_AR8_AUTO]),
        w(&[REG_BIT_RATE, 0x00]),
        w(&[REG_ISO14443A_SETTINGS, 0x00]),
        w(&[REG_AUX_DEFINITION, 0x00]),
        w(&[REG_RECEIVER_CONF1, RX_CONF1_Z600K]),
        w(&[REG_RECEIVER_CONF2, RX_CONF2_DEFAULT]),
        w(&[REG_RECEIVER_CONF3, RX_CONF3_STABILITY]),
        w(&[REG_RECEIVER_CONF4, RX_CONF4_STABILITY]),
        w(&[CMD_RESET_RX_GAIN]),
        w(&[CMD_NFC_INITIAL_FIELD_ON]),
        w(&[REG_OP_CONTROL, OP_CONTROL_EN | OP_CONTROL_RX_EN | OP_CONTROL_TX_EN | 0x03]),
        w(&[CMD_STOP_ALL]),
        w(&[REG_OP_CONTROL, 0x00]),
    ]
}

#[test]
fn nfc_st25r3916_field_enable_and_disable_mock() {
    let txns = enable_field_txns();
    let mut st = St25r3916::new(Mock::new(&txns), ADDRESS);
    st.enable_field().unwrap();
    st.disable_field().unwrap();
    st.release().done();
}

#[test]
fn initiator_st25r3916_field_enable_and_disable_mock() {
    let txns = enable_field_txns();
    let mut st = St25r3916::new(Mock::new(&txns), ADDRESS);
    st.enable_field().unwrap();
    st.disable_field().unwrap();
    st.release().done();
}

#[test]
fn oscillator_poll_gives_up_after_its_budget() {
    let mut txns = enable_field_txns()[..12].to_vec();
    for _ in 0..100 {
        txns.push(wr(&[register_read_cmd(REG_AUX_DISPLAY)], &[0x00]));
    }
    txns.extend_from_slice(&enable_field_txns()[13..25]);
    let mut st = St25r3916::new(Mock::new(&txns), ADDRESS);
    st.enable_field().unwrap();
    st.release().done();
}

#[test]
fn st25r3916_single_size_poll_sequence_mock() {
    let bcc = 0x08 ^ 0x2C ^ 0xA1 ^ 0x3F;
    let txns = [
        w(&[REG_ISO14443A_SETTINGS, ISO14443A_ANTCL]),
        w(&[REG_AUX_DEFINITION, AUX_DEF_NO_CRC_RX]),
        w(&[REG_NUM_TX_BYTES1, 0x00]),
        w(&[REG_NUM_TX_BYTES2, 0x00]),
        wr(&[register_read_cmd(REG_MAIN_IRQ)], &[0x00]),
        w(&[CMD_CLEAR_FIFO]),
        w(&[CMD_TRANSMIT_REQA]),
        wr(&[register_read_cmd(REG_FIFO_STATUS1)], &[2]),
        wr(&[MODE_FIFO_READ], &[0x04, 0x00]),
        w(&[REG_ISO14443A_SETTINGS, ISO14443A_ANTCL]),
        w(&[REG_AUX_DEFINITION, 0x00]),
        w(&[REG_NUM_TX_BYTES1, 0x00]),
        w(&[REG_NUM_TX_BYTES2, 2 << 3]),
        wr(&[register_read_cmd(REG_MAIN_IRQ)], &[0x00]),
        w(&[CMD_CLEAR_FIFO]),
        w(&[MODE_FIFO_LOAD, ISO14443A_CMD_SEL_CL1, ISO14443A_NVB_ANTICOLLISION]),
        w(&[CMD_TRANSMIT_WITHOUT_CRC]),
        wr(&[register_read_cmd(REG_FIFO_STATUS1)], &[5]),
        wr(&[MODE_FIFO_READ], &[0x08, 0x2C, 0xA1, 0x3F, bcc]),
        w(&[REG_ISO14443A_SETTINGS, 0x00]),
        w(&[REG_AUX_DEFINITION, 0x00]),
        w(&[REG_NUM_TX_BYTES1, 0x00]),
        w(&[REG_NUM_TX_BYTES2, 7 << 3]),
        wr(&[register_read_cmd(REG_MAIN_IRQ)], &[0x00]),
        w(&[CMD_CLEAR_FIFO]),
        w(&[MODE_FIFO_LOAD, ISO14443A_CMD_SEL_CL1, ISO14443A_NVB_SELECT, 0x08, 0x2C, 0xA1, 0x3F, bcc]),
        w(&[CMD_TRANSMIT_WITH_CRC]),
        wr(&[register_read_cmd(REG_FIFO_STATUS1)], &[1]),
        wr(&[MODE_FIFO_READ], &[0x08]),
    ];
    let mut st = St25r3916::new(Mock::new(&txns), ADDRESS);

    st.send_reqa().unwrap();
    let atqa = st.read_atqa().unwrap().expect("atqa");
    assert_eq!(atqa, [0x04, 0x00]);

    let cl1 = st.anticollision_cl1().unwrap().expect("cl1");
    assert_eq!(&cl1[..4], &[0x08, 0x2C, 0xA1, 0x3F]);

    let sak = st.select_cl1([cl1[0], cl1[1], cl1[2], cl1[3]], cl1[4]).unwrap().expect("sak");
    assert_eq!(sak, 0x08);

    st.release().done();
}

#[test]
fn wupa_is_a_short_frame_with_no_crc() {
    let txns = [
        w(&[REG_ISO14443A_SETTINGS, ISO14443A_ANTCL]),
        w(&[REG_AUX_DEFINITION, AUX_DEF_NO_CRC_RX]),
        w(&[REG_NUM_TX_BYTES1, 0x00]),
        w(&[REG_NUM_TX_BYTES2, 0x00]),
        wr(&[register_read_cmd(REG_MAIN_IRQ)], &[0x00]),
        w(&[CMD_CLEAR_FIFO]),
        w(&[CMD_TRANSMIT_WUPA]),
    ];
    let mut st = St25r3916::new(Mock::new(&txns), ADDRESS);
    st.send_wupa().unwrap();
    st.release().done();
}

#[test]
fn anticollision_with_a_bad_bcc_is_none() {
    let txns = [
        w(&[REG_ISO14443A_SETTINGS, ISO14443A_ANTCL]),
        w(&[REG_AUX_DEFINITION, 0x00]),
        w(&[REG_NUM_TX_BYTES1, 0x00]),
        w(&[REG_NUM_TX_BYTES2, 2 << 3]),
        wr(&[register_read_cmd(REG_MAIN_IRQ)], &[0x00]),
        w(&[CMD_CLEAR_FIFO]),
        w(&[MODE_FIFO_LOAD, ISO14443A_CMD_SEL_CL1, ISO14443A_NVB_ANTICOLLISION]),
        w(&[CMD_TRANSMIT_WITHOUT_CRC]),
        wr(&[register_read_cmd(REG_FIFO_STATUS1)], &[5]),
        wr(&[MODE_FIFO_READ], &[0x08, 0x2C, 0xA1, 0x3F, 0x00]),
    ];
    let mut st = St25r3916::new(Mock::new(&txns), ADDRESS);
    assert_eq!(st.anticollision_cl1().unwrap(), None);
    st.release().done();
}

#[test]
fn pt_memory_single_a_layout() {
    let uid = [0x01, 0x02, 0x03, 0x04];
    let sens_res = [0x44, 0x00];
    let sak = 0x00;
    let mem = PtMemory::with_nfc_a_single(uid, sens_res, sak);

    assert_eq!(&mem.as_bytes()[0..4], &uid);
    assert_eq!(&mem.as_bytes()[4..10], &[0, 0, 0, 0, 0, 0]);
    assert_eq!(&mem.as_bytes()[10..12], &sens_res);
    assert_eq!(mem.as_bytes()[12], sak);
    assert_eq!(mem.as_bytes()[13], 0);
    assert_eq!(mem.a_config().len(), A_CONFIG_LEN);
}

#[test]
fn pt_memory_double_a_layout() {
    let uid = [0x04, 0x12, 0x34, 0x56, 0x78, 0x9A, 0xBC];
    let sens_res = [0x44, 0x03];
    let sak1 = 0x04;
    let sak2 = 0x20;
    let mem = PtMemory::with_nfc_a_double(uid, sens_res, sak1, sak2);

    assert_eq!(&mem.as_bytes()[0..7], &uid);
    assert_eq!(&mem.as_bytes()[7..10], &[0, 0, 0]);
    assert_eq!(&mem.as_bytes()[10..12], &sens_res);
    assert_eq!(mem.as_bytes()[12], sak1);
    assert_eq!(mem.as_bytes()[13], sak2);
}

#[test]
fn pt_memory_f_layout() {
    let params = NfcFParams {
        system_code: [0x12, 0xFC],
        nfcid2: [1, 2, 3, 4, 5, 6, 7, 8],
        pad0: [0xAA, 0xBB],
        pad1: [0xCC, 0xDD, 0xEE],
        mrti_check: 0x05,
        mrti_update: 0x07,
        pad2: 0x11,
    };
    let mem = PtMemory::new().with_nfc_f(&params);

    let f = mem.f_config();
    assert_eq!(f.len(), F_CONFIG_LEN);
    assert_eq!(&f[0..2], &[0x12, 0xFC]);
    assert_eq!(f[2], SENSF_RES_BYTE1);
    assert_eq!(&f[3..11], &[1, 2, 3, 4, 5, 6, 7, 8]);
    assert_eq!(&f[11..13], &[0xAA, 0xBB]);
    assert_eq!(&f[13..16], &[0xCC, 0xDD, 0xEE]);
    assert_eq!(f[16], 0x05);
    assert_eq!(f[17], 0x07);
    assert_eq!(f[18], 0x11);
}

#[test]
fn pt_memory_tsn_and_defaults() {
    let mem = PtMemory::default().with_tsn([9; 12]);
    assert_eq!(mem.tsn(), &[9; 12]);
    assert_eq!(&mem.as_bytes()[..36], &[0u8; 36]);
    assert_eq!(PtMemory::new(), PtMemory::default());
    let p = NfcFParams::default();
    assert_eq!(p.system_code, [0xFF, 0xFF]);
    assert_eq!(p.nfcid2, [0x02, 0xFE, 0, 0, 0, 0, 0, 0]);
}

#[test]
fn load_pt_memory_a_transaction() {
    let mem = PtMemory::with_nfc_a_single([1, 2, 3, 4], [0x04, 0], 0);
    let mut expected = vec![MODE_PT_MEM_A_CONFIG];
    expected.extend_from_slice(mem.a_config());

    let txns = [Txn::Write(ADDRESS, expected)];
    let mut st = St25r3916::new(Mock::new(&txns), ADDRESS);
    st.load_pt_memory_a(&mem).unwrap();
    st.release().done();
}

#[test]
fn load_pt_memory_f_and_tsn_transactions() {
    let mem = PtMemory::new().with_tsn([7; 12]);
    let mut f = vec![MODE_PT_MEM_F_CONFIG];
    f.extend_from_slice(mem.f_config());
    let mut t = vec![MODE_PT_MEM_TSN];
    t.extend_from_slice(&[7; 12]);
    let txns = [Txn::Write(ADDRESS, f), Txn::Write(ADDRESS, t)];
    let mut st = St25r3916::new(Mock::new(&txns), ADDRESS);
    st.load_pt_memory_f(&mem).unwrap();
    st.load_pt_memory_tsn(&mem).unwrap();
    st.release().done();
}

#[test]
fn read_pt_memory_transaction() {
    let dummy = [0x55u8; PT_MEMORY_SIZE];
    let txns = [wr(&[MODE_PT_MEM_READ], &dummy)];
    let mut st = St25r3916::new(Mock::new(&txns), ADDRESS);
    let mut buf = [0u8; PT_MEMORY_SIZE];
    st.read_pt_memory(&mut buf).unwrap();
    assert_eq!(buf, dummy);
    st.release().done();
}

#[test]
fn test_uri_record_construction() {
    let mut buf = [0u8; 32];
    let n = build_uri_record(UriPrefix::Https, "m5stack.com", &mut buf).unwrap();
    assert_eq!(n, 16);
    assert_eq!(buf[0], 0xD1);
    assert_eq!(buf[1], 1);
    assert_eq!(buf[2], 12);
    assert_eq!(buf[3], b'U');
    assert_eq!(buf[4], 0x04);
    assert_eq!(&buf[5..16], b"m5stack.com");
}

#[test]
fn test_text_record_construction() {
    let mut buf = [0u8; 32];
    let n = build_text_record("en", "PaperMono", &mut buf).unwrap();
    assert_eq!(n, 16);
    assert_eq!(buf[0], 0xD1);
    assert_eq!(buf[1], 1);
    assert_eq!(buf[2], 12);
    assert_eq!(buf[3], b'T');
    assert_eq!(buf[4], 2);
    assert_eq!(&buf[5..7], b"en");
    assert_eq!(&buf[7..16], b"PaperMono");
}

#[test]
fn test_wrap_in_type2_tlv() {
    let mut ndef = [0u8; 16];
    let n = build_uri_record(UriPrefix::Https, "test", &mut ndef).unwrap();

    let mut tlv_buf = [0u8; 32];
    let total = wrap_in_type2_tlv(&ndef[..n], &mut tlv_buf).unwrap();
    assert_eq!(total, n + 3);
    assert_eq!(tlv_buf[0], 0x03);
    assert_eq!(tlv_buf[1], n as u8);
    assert_eq!(&tlv_buf[2..2 + n], &ndef[..n]);
    assert_eq!(tlv_buf[2 + n], 0xFE);
}

#[test]
fn ndef_records_that_do_not_fit_are_rejected() {
    let mut small = [0u8; 8];
    assert_eq!(build_uri_record(UriPrefix::Https, "m5stack.com", &mut small), Err(NdefError::BufferTooSmall));
    assert_eq!(build_text_record("en", "PaperMono", &mut small), Err(NdefError::BufferTooSmall));
    let mut tlv = [0u8; 4];
    assert_eq!(wrap_in_type2_tlv(&[1, 2], &mut tlv), Err(NdefError::BufferTooSmall));
    assert_eq!(UriPrefix::NoPrefix.code(), 0x00);
}

#[test]
fn test_type2_cc_initialization() {
    let mem = Type2Memory::<16>::new();
    let cc = mem.read_page(3).unwrap();
    assert_eq!(cc[0], 0xE1);
    assert_eq!(cc[1], 0x10);
    assert_eq!(cc[2], 6);
    assert_eq!(cc[3], 0x00);
}

#[test]
fn test_type2_read_command() {
    let mut mem = Type2Memory::<16>::new();
    mem.set_uid_single([0x01, 0x02, 0x03, 0x04]);

    let cmd = [CMD_TYPE2_READ, 0x00];
    let mut resp = [0u8; 16];
    let n = mem.handle_command(&cmd, &mut resp).unwrap();
    assert_eq!(n, 16);
    assert_eq!(resp[0], 0x01);
    assert_eq!(resp[1], 0x02);
    assert_eq!(resp[2], 0x03);
    assert_eq!(resp[3], 0x88 ^ 0x01 ^ 0x02 ^ 0x03);
    assert_eq!(resp[4], 0x04);
}

#[test]
fn test_type2_write_command() {
    let mut mem = Type2Memory::<16>::new();
    let write_cmd = [CMD_TYPE2_WRITE, 0x04, 0xAA, 0xBB, 0xCC, 0xDD];
    let mut resp = [0u8; 4];
    let n = mem.handle_command(&write_cmd, &mut resp).unwrap();
    assert_eq!(n, 1);
    assert_eq!(resp[0], TYPE2_ACK);

    assert_eq!(mem.read_page(4).unwrap(), &[0xAA, 0xBB, 0xCC, 0xDD]);
}

#[test]
fn test_type2_write_readonly_block_rejected() {
    let mut mem = Type2Memory::<16>::new();
    let write_cmd = [CMD_TYPE2_WRITE, 0x03, 0xAA, 0xBB, 0xCC, 0xDD];
    let mut resp = [0u8; 4];
    assert_eq!(mem.handle_command(&write_cmd, &mut resp), Err(Type2Error::BlockReadOnly(0x03)));
}

#[test]
fn type2_errors_for_bad_frames() {
    let mut mem = Type2Memory::<16>::new();
    let mut resp = [0u8; 16];
    assert_eq!(mem.handle_command(&[], &mut resp), Err(Type2Error::InvalidCommandLength));
    assert_eq!(mem.handle_command(&[0x55, 0], &mut resp), Err(Type2Error::UnsupportedCommand(0x55)));
    assert_eq!(mem.handle_command(&[CMD_TYPE2_READ, 16], &mut resp), Err(Type2Error::BlockOutOfBounds(16)));
    let mut short = [0u8; 4];
    assert_eq!(mem.handle_command(&[CMD_TYPE2_READ, 0], &mut short), Err(Type2Error::BufferTooSmall));
    assert!(mem.read_page(16).is_none());
}

#[test]
fn type2_write_then_read_gives_the_page_back() {
    let mut mem = Type2Memory::<16>::new();
    assert!(mem.write_page(7, [1, 2, 3, 4]));
    assert_eq!(mem.read_page(7).unwrap(), &[1, 2, 3, 4]);
    assert!(!mem.write_page(2, [1, 2, 3, 4]));
}

#[test]
fn test_parse_command_apdu() {
    let raw = [0x00, 0xA4, 0x04, 0x00, 0x07, 0xD2, 0x76, 0x00, 0x00, 0x85, 0x01, 0x01];
    let apdu = CommandApdu::parse(&raw).unwrap();
    assert_eq!(apdu.cla, 0x00);
    assert_eq!(apdu.ins, INS_SELECT);
    assert_eq!(apdu.p1, 0x04);
    assert_eq!(apdu.p2, 0x00);
    assert_eq!(apdu.data, AID_NDEF_V2);
    assert_eq!(apdu.le, None);
}

#[test]
fn apdu_le_forms() {
    let with_le = [0x00, 0xB0, 0x00, 0x00, 0x0F];
    let apdu = CommandApdu::parse(&with_le).unwrap();
    assert_eq!(apdu.data, &[] as &[u8]);
    assert_eq!(apdu.le, Some(15));
    assert!(CommandApdu::parse(&[0x00, 0xA4, 0x04]).is_err());
}

#[test]
fn test_type4_select_and_read_cc() {
    let mut app = Type4TagApp::<128>::new();
    let mut resp = [0u8; 64];

    let select_aid = [0x00, 0xA4, 0x04, 0x00, 0x07, 0xD2, 0x76, 0x00, 0x00, 0x85, 0x01, 0x01];
    let n = app.handle_apdu(&select_aid, &mut resp).unwrap();
    assert_eq!(n, 2);
    assert_eq!(&resp[..2], &[0x90, 0x00]);

    let select_cc = [0x00, 0xA4, 0x00, 0x0C, 0x02, 0xE1, 0x03];
    let n = app.handle_apdu(&select_cc, &mut resp).unwrap();
    assert_eq!(n, 2);
    assert_eq!(&resp[..2], &[0x90, 0x00]);

    let read_cc = [0x00, 0xB0, 0x00, 0x00, 0x0F];
    let n = app.handle_apdu(&read_cc, &mut resp).unwrap();
    assert_eq!(n, 17);
    assert_eq!(resp[0], 0x00);
    assert_eq!(resp[1], 0x0F);
    assert_eq!(resp[2], 0x20);
    assert_eq!(&resp[15..17], &[0x90, 0x00]);
}

#[test]
fn test_type4_select_and_read_ndef() {
    let mut app = Type4TagApp::<128>::new();
    app.set_ndef_message(b"Hello NDEF");

    let mut resp = [0u8; 64];
    let select_ndef = [0x00, 0xA4, 0x00, 0x0C, 0x02, 0xE1, 0x04];
    let n = app.handle_apdu(&select_ndef, &mut resp).unwrap();
    assert_eq!(&resp[..n], &[0x90, 0x00]);

    let read_len = [0x00, 0xB0, 0x00, 0x00, 0x02];
    let n = app.handle_apdu(&read_len, &mut resp).unwrap();
    assert_eq!(n, 4);
    assert_eq!(resp[0], 0x00);
    assert_eq!(resp[1], 10);
    assert_eq!(&resp[2..4], &[0x90, 0x00]);
}

#[test]
fn type4_ndef_written_is_read_back() {
    let mut app = Type4TagApp::<128>::new();
    assert!(app.set_ndef_message(b"PaperMono"));
    let mut resp = [0u8; 64];
    app.handle_apdu(&[0x00, 0xA4, 0x00, 0x0C, 0x02, 0xE1, 0x04], &mut resp).unwrap();
    let n = app.handle_apdu(&[0x00, 0xB0, 0x00, 0x02, 0x09], &mut resp).unwrap();
    assert_eq!(&resp[..n - 2], b"PaperMono");
    assert_eq!(&resp[n - 2..n], &[0x90, 0x00]);
}

#[test]
fn type4_unknown_file_and_instruction() {
    let mut app = Type4TagApp::<128>::new();
    let mut resp = [0u8; 8];
    let n = app.handle_apdu(&[0x00, 0xA4, 0x00, 0x0C, 0x02, 0xAB, 0xCD], &mut resp).unwrap();
    assert_eq!(&resp[..n], &[0x6A, 0x82]);
    let n = app.handle_apdu(&[0x00, 0x55, 0x00, 0x00], &mut resp).unwrap();
    assert_eq!(&resp[..n], &[0x6D, 0x00]);
    let mut tiny = [0u8; 1];
    assert!(app.handle_apdu(&[0x00, 0x55, 0x00, 0x00], &mut tiny).is_err());
}

#[test]
fn configure_target_nfc_a_type2_mock() {
    let config = NfcATargetConfig::type2([0x12, 0x34, 0x56, 0x78]);
    let mem = config.to_pt_memory();
    let mut expected_pt = vec![MODE_PT_MEM_A_CONFIG];
    expected_pt.extend_from_slice(mem.a_config());
    let txns = [
        Txn::Write(ADDRESS, vec![CMD_STOP_ALL]),
        Txn::Write(ADDRESS, vec![REG_PASSIVE_TARGET_MOD, 0x7F]),
        Txn::Write(ADDRESS, expected_pt),
        Txn::Write(ADDRESS, vec![REG_NFCIP1_PASSIVE_TARGET, 0x20]),
        Txn::Write(ADDRESS, vec![REG_MODE_DEFINITION, MODE_TARGET_ISO14443A | 0x02]),
        Txn::Write(ADDRESS, vec![REG_OP_CONTROL, 0xC0]),
        Txn::Write(ADDRESS, vec![CMD_GOTO_SENSE]),
    ];
    let mut st = St25r3916::new(Mock::new(&txns), ADDRESS);
    st.configure_target_nfc_a(&config).unwrap();
    st.release().done();
}

#[test]
fn configure_target_nfc_f_mock() {
    let config = NfcFTargetConfig::new([1, 2, 3, 4, 5, 6, 7, 8], NfcFBitRate::Kbps212);
    let mem = config.to_pt_memory();
    let mut expected_pt = vec![MODE_PT_MEM_F_CONFIG];
    expected_pt.extend_from_slice(mem.f_config());
    let txns = [
        Txn::Write(ADDRESS, vec![CMD_STOP_ALL]),
        Txn::Write(ADDRESS, vec![REG_PASSIVE_TARGET_MOD, 0x7F]),
        Txn::Write(ADDRESS, expected_pt),
        Txn::Write(ADDRESS, vec![REG_BIT_RATE, 0x11]),
        Txn::Write(ADDRESS, vec![REG_MODE_DEFINITION, MODE_TARGET_FELICA | 0x02]),
        Txn::Write(ADDRESS, vec![REG_OP_CONTROL, 0xC0]),
    ];
    let mut st = St25r3916::new(Mock::new(&txns), ADDRESS);
    st.configure_target_nfc_f(&config).unwrap();
    st.release().done();
}

#[test]
fn configure_target_nfcip1_active_mock() {
    let config = Nfcip1TargetConfig::active();
    let txns = [
        Txn::Write(ADDRESS, vec![CMD_STOP_ALL]),
        Txn::Write(ADDRESS, vec![REG_PASSIVE_TARGET_MOD, 0x7F]),
        Txn::Write(ADDRESS, vec![REG_EXT_FIELD_DETECTOR_ACT, 0x13]),
        Txn::Write(ADDRESS, vec![REG_EXT_FIELD_DETECTOR_DEACT, 0x02]),
        Txn::Write(ADDRESS, vec![REG_MODE_DEFINITION, config.mode.to_mode_byte()]),
        Txn::Write(ADDRESS, vec![REG_OP_CONTROL, 0xC3]),
    ];
    let mut st = St25r3916::new(Mock::new(&txns), ADDRESS);
    st.configure_target_nfcip1(&config).unwrap();
    st.release().done();
}

#[test]
fn target_profiles_and_register_bytes() {
    let m = TargetModulation::default();
    assert_eq!((m.ptm_res, m.pt_res), (0x07, 0x0F));
    assert_eq!(m.to_byte(), 0x7F);
    assert_eq!(TargetModulation { ptm_res: 0x13, pt_res: 0x24 }.to_byte(), 0x34);
    assert_eq!(TargetModulation::from_byte(0xA5), TargetModulation { ptm_res: 0x0A, pt_res: 0x05 });
    assert_eq!(TargetInterrupts::default(), TargetInterrupts::from_byte(0));
    let t = TargetInterrupts::from_byte(0x81);
    assert!(t.wu_a && t.ppon2 && !t.wu_a_star && !t.wu_f && !t.rxe_pta && !t.apon && !t.sl_wl);
    let t = TargetInterrupts::from_byte(0x7E);
    assert!(!t.wu_a && t.wu_a_star && t.wu_f && t.rxe_pta && t.apon && t.sl_wl && !t.ppon2);
    assert_eq!(NfcFBitRate::Kbps424.to_reg_val(), 0x22);
    assert_eq!(Nfcip1CommunicationMode::Active.to_mode_byte(), 0xBA);
    assert_eq!(Nfcip1CommunicationMode::BitRateDetectionAuto.to_mode_byte(), 0xEA);
    assert_eq!(Nfcip1TargetConfig::default(), Nfcip1TargetConfig::active());
    assert_eq!(Nfcip1TargetConfig::bit_rate_detection().mode, Nfcip1CommunicationMode::BitRateDetectionAuto);
    let t4 = NfcATargetConfig::type4a([1, 2, 3, 4, 5, 6, 7]);
    assert_eq!(
        t4.kind,
        NfcATargetKind::Type4Double { uid: [1, 2, 3, 4, 5, 6, 7], sens_res: [0x44, 0x03], sak1: 0x04, sak2: 0x20 }
    );
    assert_eq!(
        t4.to_pt_memory(),
        PtMemory::with_nfc_a_double([1, 2, 3, 4, 5, 6, 7], [0x44, 0x03], 0x04, 0x20)
    );
    let f = NfcFTargetConfig::new([9; 8], NfcFBitRate::Kbps212);
    assert_eq!(f.params.system_code, [0xFF, 0xFF]);
    assert_eq!(f.to_pt_memory().a_config(), &[0u8; 15]);
}

#[test]
fn target_state_and_commands() {
    let txns = [
        Txn::WriteRead(ADDRESS, vec![register_read_cmd(REG_TARGET_IRQ)], vec![0x11]),
        Txn::WriteRead(ADDRESS, vec![register_read_cmd(REG_TARGET_DISPLAY)], vec![0x01]),
        Txn::Write(ADDRESS, vec![REG_PASSIVE_TARGET_MOD, 0x7F]),
        Txn::Write(ADDRESS, vec![CMD_GOTO_SENSE]),
        Txn::Write(ADDRESS, vec![CMD_GOTO_SLEEP]),
        Txn::Fail,
    ];
    let mut st = St25r3916::new(Mock::new(&txns), ADDRESS);
    let irq = st.read_target_interrupts().unwrap();
    assert!(irq.wu_a && irq.rxe_pta && !irq.wu_f);
    assert_eq!(st.read_target_state().unwrap(), PtaState::Idle);
    st.set_target_modulation(TargetModulation::default()).unwrap();
    st.target_goto_sense().unwrap();
    st.target_goto_sleep().unwrap();
    assert!(st.configure_target_nfcip1(&Nfcip1TargetConfig::active()).is_err());
    st.release().done();
}
