//! ST25R3916 ISO/IEC 14443-A initiator (reader) mode: field control,
//! short frames, anticollision and select, and the polling sequence.

use vstd::prelude::*;
use crate::bus::{
    I2cBus, I2cLog, I2cRequest, Step, on_track, ran, completed, stopped, lemma_start, lemma_concat,
    lemma_replan, lemma_ran_prefix, lemma_polls_skip, lemma_polls_prefix, lemma_stop_extend, lemma_prefix_trans, polls,
    poll_hit, repeat,
};
use crate::st25r3916::{St25r3916, reg_write_req, reg_read_req, cmd_req, fifo_read_req, fifo_load_req};
use crate::st25r3916::commands::{
    CMD_ADJUST_REGULATORS, CMD_CLEAR_FIFO, CMD_NFC_INITIAL_FIELD_ON, CMD_RESET_RX_GAIN,
    CMD_SET_DEFAULT, CMD_STOP_ALL, CMD_TEST_ACCESS, CMD_TRANSMIT_REQA, CMD_TRANSMIT_WITHOUT_CRC,
    CMD_TRANSMIT_WITH_CRC, CMD_TRANSMIT_WUPA,
};
use crate::st25r3916::registers::{
    AUX_DISPLAY_OSC_OK, IO_CONF2_AAT_EN, IO_CONF2_IO_DRV_LVL, IO_CONF2_SUP3V,
    MODE_INITIATOR_ISO14443A, MODE_NFC_AR8_AUTO, OP_CONTROL_EN, OP_CONTROL_RX_EN, OP_CONTROL_TX_EN,
    REG_ANTENNA_TUNING1, REG_ANTENNA_TUNING2, REG_AUX_DEFINITION, REG_AUX_DISPLAY, REG_BIT_RATE,
    REG_EXT_FIELD_DETECTOR_ACT, REG_EXT_FIELD_DETECTOR_DEACT, REG_IO_CONF1, REG_IO_CONF2,
    REG_ISO14443A_SETTINGS, REG_MAIN_IRQ, REG_MODE_DEFINITION, REG_NUM_TX_BYTES1,
    REG_NUM_TX_BYTES2, REG_OP_CONTROL, REG_RECEIVER_CONF1, REG_RECEIVER_CONF2, REG_RECEIVER_CONF3,
    REG_RECEIVER_CONF4, REG_TX_DRIVER, REG_FIFO_STATUS1,
};

verus! {

/// ISO14443A settings register bit 0: anticollision frame (`antcl`).
pub const ISO14443A_ANTCL: u8 = 0x01;
/// Auxiliary definition register bit 7: receive without CRC.
pub const AUX_DEF_NO_CRC_RX: u8 = 0x80;
/// Receiver configuration 1 bit 3: 600k input impedance.
pub const RX_CONF1_Z600K: u8 = 0x08;
/// Receiver configuration 2 default settings.
pub const RX_CONF2_DEFAULT: u8 = 0x2D;
/// Receiver configuration 3 stability-focused gain.
pub const RX_CONF3_STABILITY: u8 = 0xD8;
/// Receiver configuration 4 stability-focused gain.
pub const RX_CONF4_STABILITY: u8 = 0x22;
/// TX driver default 22% AM modulation index.
pub const TX_DRIVER_DEFAULT: u8 = 0xD0;
/// ISO/IEC 14443-3 Select, cascade level 1.
pub const ISO14443A_CMD_SEL_CL1: u8 = 0x93;
/// ISO/IEC 14443-3 Select, cascade level 2.
pub const ISO14443A_CMD_SEL_CL2: u8 = 0x95;
/// ISO/IEC 14443-3 NVB of the initial anticollision frame.
pub const ISO14443A_NVB_ANTICOLLISION: u8 = 0x20;
/// ISO/IEC 14443-3 NVB of a complete Select.
pub const ISO14443A_NVB_SELECT: u8 = 0x70;
/// ISO/IEC 14443-3 cascade tag byte announcing a longer UID.
pub const ISO14443A_CASCADE_TAG: u8 = 0x88;

/// The steps that transmit a short frame (`tx_cmd` is WUPA or REQA):
/// anticollision framing on, no RX CRC, zero TX byte counts, clear the
/// main IRQ register (read, failure ignored), clear the FIFO, transmit.
pub open spec fn short_frame_plan(address: u8, tx_cmd: u8) -> Seq<Step<I2cRequest>> {
    seq![
        (reg_write_req(address, REG_ISO14443A_SETTINGS, ISO14443A_ANTCL), true),
        (reg_write_req(address, REG_AUX_DEFINITION, AUX_DEF_NO_CRC_RX), true),
        (reg_write_req(address, REG_NUM_TX_BYTES1, 0), true),
        (reg_write_req(address, REG_NUM_TX_BYTES2, 0), true),
        (reg_read_req(address, REG_MAIN_IRQ), false),
        (cmd_req(address, CMD_CLEAR_FIFO), true),
        (cmd_req(address, tx_cmd), true),
    ]
}

/// The steps that turn the field off: stop all activities (failure
/// ignored), then clear the operation control register.
pub open spec fn field_off_plan(address: u8) -> Seq<Step<I2cRequest>> {
    seq![
        (cmd_req(address, CMD_STOP_ALL), false),
        (reg_write_req(address, REG_OP_CONTROL, 0), true),
    ]
}

/// Oscillator status polls at most issued while waiting for the crystal.
pub const OSC_POLLS: u32 = 100;

/// Power-up steps before the oscillator wait: reset state, set default
/// and the overheat-protection errata write (failures of these three are
/// ignored), IO and antenna configuration, then ready mode.
pub open spec fn init_prefix(a: u8) -> Seq<Step<I2cRequest>> {
    seq![
        (reg_write_req(a, REG_OP_CONTROL, 0), false),
        (cmd_req(a, CMD_SET_DEFAULT), false),
        (I2cRequest::Write(a, seq![CMD_TEST_ACCESS, 0x04u8, 0x10u8]), false),
        (reg_write_req(a, REG_IO_CONF1, 0x07), true),
        (reg_write_req(a, REG_IO_CONF2, IO_CONF2_SUP3V | IO_CONF2_IO_DRV_LVL | IO_CONF2_AAT_EN), true),
        (reg_write_req(a, REG_TX_DRIVER, TX_DRIVER_DEFAULT), true),
        (reg_write_req(a, REG_ANTENNA_TUNING1, 0x82), true),
        (reg_write_req(a, REG_ANTENNA_TUNING2, 0x82), true),
        (reg_write_req(a, REG_EXT_FIELD_DETECTOR_ACT, 0x13), true),
        (reg_write_req(a, REG_EXT_FIELD_DETECTOR_DEACT, 0x02), true),
        (reg_write_req(a, REG_OP_CONTROL, OP_CONTROL_EN | 0x03), true),
    ]
}

/// One oscillator status poll (auxiliary display register).
pub open spec fn osc_poll(a: u8) -> Step<I2cRequest> {
    (reg_read_req(a, REG_AUX_DISPLAY), true)
}

/// Steps after the oscillator wait: adjust regulators, ISO14443A
/// initiator mode, receiver front end, reset RX gain, field on, and
/// enable oscillator, receiver and transmitter.
pub open spec fn init_tail(a: u8) -> Seq<Step<I2cRequest>> {
    seq![
        (cmd_req(a, CMD_ADJUST_REGULATORS), true),
        (reg_write_req(a, REG_MODE_DEFINITION, MODE_INITIATOR_ISO14443A | MODE_NFC_AR8_AUTO), true),
        (reg_write_req(a, REG_BIT_RATE, 0), true),
        (reg_write_req(a, REG_ISO14443A_SETTINGS, 0), true),
        (reg_write_req(a, REG_AUX_DEFINITION, 0), true),
        (reg_write_req(a, REG_RECEIVER_CONF1, RX_CONF1_Z600K), true),
        (reg_write_req(a, REG_RECEIVER_CONF2, RX_CONF2_DEFAULT), true),
        (reg_write_req(a, REG_RECEIVER_CONF3, RX_CONF3_STABILITY), true),
        (reg_write_req(a, REG_RECEIVER_CONF4, RX_CONF4_STABILITY), true),
        (cmd_req(a, CMD_RESET_RX_GAIN), true),
        (cmd_req(a, CMD_NFC_INITIAL_FIELD_ON), true),
        (reg_write_req(a, REG_OP_CONTROL, OP_CONTROL_EN | OP_CONTROL_RX_EN | OP_CONTROL_TX_EN | 0x03), true),
    ]
}

/// The whole power-up with `k` oscillator polls.
pub open spec fn init_plan(a: u8, k: nat) -> Seq<Step<I2cRequest>> {
    init_prefix(a) + repeat(osc_poll(a), k) + init_tail(a)
}

/// Oscillator polls a power-up starting at `base_len` issued: until the
/// status byte shows `osc_ok` (bit 7), at most [`OSC_POLLS`].
pub open spec fn osc_polls(log: I2cLog, base_len: nat) -> nat {
    polls(log, base_len + 11int, 0, 100, 0x80)
}

/// FIFO status polls at most issued while waiting for a response.
pub const FIFO_POLLS: u32 = 80;

/// One FIFO byte-count poll.
pub open spec fn fifo_poll(a: u8) -> Step<I2cRequest> {
    (reg_read_req(a, REG_FIFO_STATUS1), true)
}

/// Polls a response wait starting at `start` issued: until the FIFO
/// holds `need` bytes, at most [`FIFO_POLLS`].
pub open spec fn fifo_polls(log: I2cLog, start: nat, need: u8) -> nat {
    polls(log, start as int, 0, 80, need)
}

/// Whether the wait starting at `start` saw `need` bytes in the FIFO.
pub open spec fn fifo_ready(log: I2cLog, start: nat, need: u8) -> bool {
    poll_hit(log, start as int, fifo_polls(log, start as nat, need) - 1, need)
}

/// A response wait: the FIFO polls, then, if the bytes arrived, one FIFO
/// read of `len` bytes.
pub open spec fn wait_plan(a: u8, log: I2cLog, start: nat, need: u8, len: nat) -> Seq<Step<I2cRequest>> {
    repeat(fifo_poll(a), fifo_polls(log, start as nat, need)) + if fifo_ready(log, start, need) {
        seq![(fifo_read_req(a, len), true)]
    } else {
        Seq::empty()
    }
}

/// The frame setup before an anticollision or select transmit: framing
/// (`antcl`) flag, RX CRC on, TX bit count, clear the main IRQ register
/// (failure ignored), clear the FIFO, load the frame, transmit.
pub open spec fn frame_plan(a: u8, antcl: u8, tx_bits: u8, frame: Seq<u8>, tx_cmd: u8) -> Seq<Step<I2cRequest>> {
    seq![
        (reg_write_req(a, REG_ISO14443A_SETTINGS, antcl), true),
        (reg_write_req(a, REG_AUX_DEFINITION, 0), true),
        (reg_write_req(a, REG_NUM_TX_BYTES1, 0), true),
        (reg_write_req(a, REG_NUM_TX_BYTES2, tx_bits), true),
        (reg_read_req(a, REG_MAIN_IRQ), false),
        (cmd_req(a, CMD_CLEAR_FIFO), true),
        (fifo_load_req(a, frame), true),
        (cmd_req(a, tx_cmd), true),
    ]
}

/// Anticollision frame of a cascade level: SEL and the initial NVB.
pub open spec fn anticollision_frame(sel: u8) -> Seq<u8> {
    seq![sel, ISO14443A_NVB_ANTICOLLISION]
}

/// Select frame of a cascade level: SEL, full NVB, four UID bytes, BCC.
pub open spec fn select_frame(sel: u8, uid: Seq<u8>, bcc: u8) -> Seq<u8> {
    seq![sel, ISO14443A_NVB_SELECT] + uid + seq![bcc]
}

/// The BCC of a 5-byte anticollision response checks out: the last byte
/// is the XOR of the four UID bytes.
pub open spec fn bcc_ok(resp: Seq<u8>) -> bool {
    resp.len() == 5 && resp[4] == resp[0] ^ resp[1] ^ resp[2] ^ resp[3]
}

/// A detected ISO/IEC 14443-A card.
#[derive(Debug, Clone, Copy, PartialEq, Eq)]
pub struct Iso14443aCard {
    /// Answer To Request, type A.
    pub atqa: [u8; 2],
    /// Select acknowledge.
    pub sak: u8,
    /// UID length in bytes (4 single-size, 7 double-size).
    pub uid_len: usize,
    /// UID bytes; the first `uid_len` are valid.
    pub uid: [u8; 10],
}

impl Iso14443aCard {
    /// The valid UID bytes.
    pub fn uid(&self) -> (u: &[u8])
        requires
            self.uid_len <= 10,
        ensures
            u@ == self.uid@.subrange(0, self.uid_len as int),
    {
        vstd::slice::slice_subrange(self.uid.as_slice(), 0, self.uid_len)
    }

    /// Whether the UID is single-size (4 bytes).
    pub fn is_single_size(&self) -> (b: bool)
        ensures
            b <==> self.uid_len == 4,
    {
        self.uid_len == 4
    }

    /// Whether the UID is double-size (7 bytes).
    pub fn is_double_size(&self) -> (b: bool)
        ensures
            b <==> self.uid_len == 7,
    {
        self.uid_len == 7
    }
}

/// The ATQA phase of a poll: WUPA and a response wait; if no ATQA came,
/// REQA and a second wait.
pub open spec fn atqa_plan(a: u8, log: I2cLog, base: nat) -> Seq<Step<I2cRequest>> {
    let w1 = wait_plan(a, log, base + 7, 2, 2);
    if fifo_ready(log, base + 7, 2) {
        short_frame_plan(a, CMD_TRANSMIT_WUPA) + w1
    } else {
        short_frame_plan(a, CMD_TRANSMIT_WUPA) + w1 + short_frame_plan(a, CMD_TRANSMIT_REQA) + wait_plan(
            a,
            log,
            base + 7 + w1.len() + 7,
            2,
            2,
        )
    }
}

/// Whether the ATQA phase got an answer.
pub open spec fn atqa_got(a: u8, log: I2cLog, base: nat) -> bool {
    let w1 = wait_plan(a, log, base + 7, 2, 2);
    fifo_ready(log, base + 7, 2) || fifo_ready(log, base + 7 + w1.len() + 7, 2)
}

/// A finished response wait reads the same in any longer log.
pub proof fn lemma_wait_stable(a: u8, l1: I2cLog, l2: I2cLog, start: nat, need: u8, len: nat)
    requires
        l1.is_prefix_of(l2),
        start + fifo_polls(l1, start, need) <= l1.len(),
    ensures
        fifo_polls(l1, start, need) == fifo_polls(l2, start, need),
        fifo_ready(l1, start, need) == fifo_ready(l2, start, need),
        wait_plan(a, l1, start, need, len) == wait_plan(a, l2, start, need, len),
{
    lemma_polls_prefix(l1, l2, start as int, 0, 80, need);
    let k = fifo_polls(l1, start, need);
    if k >= 1 {
        assert(l2.subrange(0, l1.len() as int)[start + k - 1] == l2[start + k - 1]);
    }
}

/// Anticollision exchange of a cascade level starting at `s`.
pub open spec fn ac_plan(a: u8, log: I2cLog, s: nat, sel: u8) -> Seq<Step<I2cRequest>> {
    frame_plan(a, ISO14443A_ANTCL, 16, anticollision_frame(sel), CMD_TRANSMIT_WITHOUT_CRC) + wait_plan(a, log, s + 8, 5, 5)
}

/// Events an exchange starting at `s` took (setup, polls, read).
pub open spec fn exchange_end(log: I2cLog, s: nat, need: u8) -> nat {
    s + 8 + fifo_polls(log, s + 8, need) + if fifo_ready(log, s + 8, need) { 1nat } else { 0nat }
}

/// Bytes the anticollision exchange at `s` read back.
pub open spec fn ac_resp(log: I2cLog, s: nat) -> Seq<u8> {
    log[exchange_end(log, s, 5) - 1].data
}

/// The anticollision exchange at `s` got a response with a valid BCC.
pub open spec fn ac_done(log: I2cLog, s: nat) -> bool {
    fifo_ready(log, s + 8, 5) && bcc_ok(ac_resp(log, s))
}

/// Select exchange of a cascade level starting at `s` for the UID and
/// BCC of an anticollision response.
pub open spec fn sel_plan(a: u8, log: I2cLog, s: nat, sel: u8, resp: Seq<u8>) -> Seq<Step<I2cRequest>> {
    frame_plan(a, 0, 56, select_frame(sel, resp.subrange(0, 4), resp[4]), CMD_TRANSMIT_WITH_CRC) + wait_plan(a, log, s + 8, 1, 1)
}

/// The select exchange at `s` got a SAK.
pub open spec fn sel_ok(log: I2cLog, s: nat) -> bool {
    fifo_ready(log, s + 8, 1)
}

/// The SAK the select exchange at `s` read.
pub open spec fn sel_sak(log: I2cLog, s: nat) -> u8 {
    log[exchange_end(log, s, 1) - 1].data[0]
}

/// Cascade level 2 at `s`: anticollision, then select if it answered.
pub open spec fn cl2_plan(a: u8, log: I2cLog, s: nat) -> Seq<Step<I2cRequest>> {
    if ac_done(log, s) {
        ac_plan(a, log, s, ISO14443A_CMD_SEL_CL2) + sel_plan(a, log, exchange_end(log, s, 5), ISO14443A_CMD_SEL_CL2, ac_resp(log, s))
    } else {
        ac_plan(a, log, s, ISO14443A_CMD_SEL_CL2)
    }
}

/// The SAK is level 1's and the UID needs a second level: the cascade
/// bit of the SAK is set and the first UID byte is the cascade tag.
pub open spec fn needs_cl2(resp1: Seq<u8>, sak1: u8) -> bool {
    sak1 & 0x04 != 0 && resp1[0] == ISO14443A_CASCADE_TAG
}

/// The cascade from `s`: level 1 anticollision and select, then level 2
/// when the UID is double-size.
pub open spec fn cascade_plan(a: u8, log: I2cLog, s: nat) -> Seq<Step<I2cRequest>> {
    let ac1 = ac_plan(a, log, s, ISO14443A_CMD_SEL_CL1);
    let e1 = exchange_end(log, s, 5);
    let resp1 = ac_resp(log, s);
    let sl1 = sel_plan(a, log, e1, ISO14443A_CMD_SEL_CL1, resp1);
    let e2 = exchange_end(log, e1, 1);
    if !ac_done(log, s) {
        ac1
    } else if !sel_ok(log, e1) || !needs_cl2(resp1, sel_sak(log, e1)) {
        ac1 + sl1
    } else {
        ac1 + sl1 + cl2_plan(a, log, e2)
    }
}

/// What the cascade from `s` found: SAK, UID length, and the 10 UID
/// bytes (zero padded). A single-size UID is the four level-1 bytes; a
/// double-size UID is level-1 bytes 1..4 followed by the four level-2
/// bytes.
pub open spec fn cascade_card(log: I2cLog, s: nat) -> Option<(u8, nat, Seq<u8>)> {
    let e1 = exchange_end(log, s, 5);
    let resp1 = ac_resp(log, s);
    let e2 = exchange_end(log, e1, 1);
    let sak1 = sel_sak(log, e1);
    if !ac_done(log, s) || !sel_ok(log, e1) {
        None
    } else if sak1 & 0x04 == 0 {
        Some((sak1, 4nat, resp1.subrange(0, 4) + seq![0u8, 0, 0, 0, 0, 0]))
    } else if resp1[0] != ISO14443A_CASCADE_TAG {
        None
    } else {
        let e3 = exchange_end(log, e2, 5);
        let resp2 = ac_resp(log, e2);
        if !ac_done(log, e2) || !sel_ok(log, e3) {
            None
        } else {
            Some((sel_sak(log, e3), 7nat, resp1.subrange(1, 4) + resp2.subrange(0, 4) + seq![0u8, 0, 0]))
        }
    }
}

/// A finished anticollision exchange reads the same in any longer log.
pub proof fn lemma_ac_stable(a: u8, l1: I2cLog, l2: I2cLog, s: nat, sel: u8)
    requires
        l1.is_prefix_of(l2),
        exchange_end(l1, s, 5) <= l1.len(),
    ensures
        ac_plan(a, l1, s, sel) == ac_plan(a, l2, s, sel),
        exchange_end(l1, s, 5) == exchange_end(l2, s, 5),
        ac_resp(l1, s) == ac_resp(l2, s),
        ac_done(l1, s) == ac_done(l2, s),
        fifo_ready(l1, s + 8, 5) == fifo_ready(l2, s + 8, 5),
{
    lemma_wait_stable(a, l1, l2, s + 8, 5, 5);
    let e = exchange_end(l1, s, 5);
    if e >= 1 {
        assert(l2.subrange(0, l1.len() as int)[e - 1] == l2[e - 1]);
    }
}

/// A finished select exchange reads the same in any longer log.
pub proof fn lemma_sel_stable(a: u8, l1: I2cLog, l2: I2cLog, s: nat, sel: u8, resp: Seq<u8>)
    requires
        l1.is_prefix_of(l2),
        exchange_end(l1, s, 1) <= l1.len(),
    ensures
        sel_plan(a, l1, s, sel, resp) == sel_plan(a, l2, s, sel, resp),
        exchange_end(l1, s, 1) == exchange_end(l2, s, 1),
        sel_ok(l1, s) == sel_ok(l2, s),
        sel_sak(l1, s) == sel_sak(l2, s),
{
    lemma_wait_stable(a, l1, l2, s + 8, 1, 1);
    let e = exchange_end(l1, s, 1);
    if e >= 1 {
        assert(l2.subrange(0, l1.len() as int)[e - 1] == l2[e - 1]);
    }
}

/// Steps that arm the cascade after an ATQA: RX CRC back on, framing
/// flag off.
pub open spec fn arm_plan(a: u8) -> Seq<Step<I2cRequest>> {
    seq![(reg_write_req(a, REG_AUX_DEFINITION, 0), true), (reg_write_req(a, REG_ISO14443A_SETTINGS, 0), true)]
}

/// Steps that idle the reader when no card answered: clear the FIFO,
/// framing flag off, RX CRC back on.
pub open spec fn idle_plan(a: u8) -> Seq<Step<I2cRequest>> {
    seq![
        (cmd_req(a, CMD_CLEAR_FIFO), true),
        (reg_write_req(a, REG_ISO14443A_SETTINGS, 0), true),
        (reg_write_req(a, REG_AUX_DEFINITION, 0), true),
    ]
}

/// The whole poll from `b`: the ATQA phase, then either the idle steps
/// (no answer) or the arming steps and the cascade.
pub open spec fn poll_plan(a: u8, log: I2cLog, b: nat) -> Seq<Step<I2cRequest>> {
    let p0 = atqa_plan(a, log, b);
    if atqa_got(a, log, b) {
        p0 + arm_plan(a) + cascade_plan(a, log, b + p0.len() + 2)
    } else {
        p0 + idle_plan(a)
    }
}

/// The card a poll from `b` found: ATQA, SAK, UID length and UID bytes.
pub open spec fn poll_outcome(a: u8, log: I2cLog, b: nat) -> Option<(Seq<u8>, u8, nat, Seq<u8>)> {
    let p0 = atqa_plan(a, log, b);
    if !atqa_got(a, log, b) {
        None
    } else {
        match cascade_card(log, b + p0.len() + 2) {
            Some((sak, len, uid)) => Some((log[b + p0.len() - 1].data, sak, len, uid)),
            None => None,
        }
    }
}

/// A finished ATQA phase reads the same in any longer log.
pub proof fn lemma_atqa_stable(a: u8, l1: I2cLog, l2: I2cLog, b: nat)
    requires
        l1.is_prefix_of(l2),
        b + atqa_plan(a, l1, b).len() <= l1.len(),
    ensures
        atqa_plan(a, l1, b) == atqa_plan(a, l2, b),
        atqa_got(a, l1, b) == atqa_got(a, l2, b),
        l1[b + atqa_plan(a, l1, b).len() - 1] == l2[b + atqa_plan(a, l1, b).len() - 1],
{
    lemma_wait_stable(a, l1, l2, b + 7, 2, 2);
    let w1 = wait_plan(a, l1, b + 7, 2, 2);
    if !fifo_ready(l1, b + 7, 2) {
        lemma_wait_stable(a, l1, l2, b + 7 + w1.len() + 7, 2, 2);
    }
    let e = b + atqa_plan(a, l1, b).len();
    assert(l2.subrange(0, l1.len() as int)[e - 1] == l2[e - 1]);
}

impl<B: I2cBus> St25r3916<B> {
    /// Halts transmission and shuts down the RF field and oscillator.
    pub fn disable_field(&mut self) -> (r: Result<(), B::Error>)
        ensures
            final(self).spec_address() == old(self).spec_address(),
            ran(old(self).events(), final(self).events(), field_off_plan(old(self).spec_address())),
            r is Ok <==> completed(old(self).events(), final(self).events(), field_off_plan(old(self).spec_address())),
    {
        let ghost base = self.events();
        let ghost plan = field_off_plan(self.spec_address());
        proof { lemma_start(base, plan); }
        let _ = self.cmd_step(CMD_STOP_ALL, Ghost(base), Ghost(plan));
        self.reg_write_step(REG_OP_CONTROL, 0x00, Ghost(base), Ghost(plan))
    }


    fn init_tail_run(&mut self) -> (r: Result<(), B::Error>)
        ensures
            final(self).spec_address() == old(self).spec_address(),
            ran(old(self).events(), final(self).events(), init_tail(old(self).spec_address())),
            r is Ok <==> completed(old(self).events(), final(self).events(), init_tail(old(self).spec_address())),
    {
        let ghost base = self.events();
        let ghost plan = init_tail(self.spec_address());
        proof { lemma_start(base, plan); }
        self.cmd_step(CMD_ADJUST_REGULATORS, Ghost(base), Ghost(plan))?;
        self.reg_write_step(REG_MODE_DEFINITION, MODE_INITIATOR_ISO14443A | MODE_NFC_AR8_AUTO, Ghost(base), Ghost(plan))?;
        self.reg_write_step(REG_BIT_RATE, 0x00, Ghost(base), Ghost(plan))?;
        self.reg_write_step(REG_ISO14443A_SETTINGS, 0x00, Ghost(base), Ghost(plan))?;
        self.reg_write_step(REG_AUX_DEFINITION, 0x00, Ghost(base), Ghost(plan))?;
        self.reg_write_step(REG_RECEIVER_CONF1, RX_CONF1_Z600K, Ghost(base), Ghost(plan))?;
        self.reg_write_step(REG_RECEIVER_CONF2, RX_CONF2_DEFAULT, Ghost(base), Ghost(plan))?;
        self.reg_write_step(REG_RECEIVER_CONF3, RX_CONF3_STABILITY, Ghost(base), Ghost(plan))?;
        self.reg_write_step(REG_RECEIVER_CONF4, RX_CONF4_STABILITY, Ghost(base), Ghost(plan))?;
        self.cmd_step(CMD_RESET_RX_GAIN, Ghost(base), Ghost(plan))?;
        self.cmd_step(CMD_NFC_INITIAL_FIELD_ON, Ghost(base), Ghost(plan))?;
        self.reg_write_step(
            REG_OP_CONTROL,
            OP_CONTROL_EN | OP_CONTROL_RX_EN | OP_CONTROL_TX_EN | 0x03,
            Ghost(base),
            Ghost(plan),
        )
    }

    /// Full power-up for ISO14443-A initiator operation: reset, errata
    /// workaround, IO and antenna setup, ready mode, wait for the crystal
    /// (polling the oscillator flag up to 100 times), regulators, mode,
    /// receiver front end, and field on.
    pub fn init_hardware(&mut self) -> (r: Result<(), B::Error>)
        ensures
            final(self).spec_address() == old(self).spec_address(),
            ran(old(self).events(), final(self).events(), init_plan(old(self).spec_address(), osc_polls(final(self).events(), old(self).events().len()))),
            r is Ok <==> completed(old(self).events(), final(self).events(), init_plan(old(self).spec_address(), osc_polls(final(self).events(), old(self).events().len()))),
    {
        let ghost base = self.events();
        let ghost addr = self.spec_address();
        let ghost guess = init_plan(addr, 100);
        proof { lemma_start(base, guess); }
        let _ = self.reg_write_step(REG_OP_CONTROL, 0x00, Ghost(base), Ghost(guess));
        let _ = self.cmd_step(CMD_SET_DEFAULT, Ghost(base), Ghost(guess));
        let errata = [CMD_TEST_ACCESS, 0x04, 0x10];
        assert(errata@ =~= seq![CMD_TEST_ACCESS, 0x04u8, 0x10u8]);
        let _ = self.dev.write_step(&errata, Ghost(base), Ghost(guess));
        self.reg_write_step(REG_IO_CONF1, 0x07, Ghost(base), Ghost(guess))?;
        self.reg_write_step(REG_IO_CONF2, IO_CONF2_SUP3V | IO_CONF2_IO_DRV_LVL | IO_CONF2_AAT_EN, Ghost(base), Ghost(guess))?;
        self.reg_write_step(REG_TX_DRIVER, TX_DRIVER_DEFAULT, Ghost(base), Ghost(guess))?;
        self.reg_write_step(REG_ANTENNA_TUNING1, 0x82, Ghost(base), Ghost(guess))?;
        self.reg_write_step(REG_ANTENNA_TUNING2, 0x82, Ghost(base), Ghost(guess))?;
        self.reg_write_step(REG_EXT_FIELD_DETECTOR_ACT, 0x13, Ghost(base), Ghost(guess))?;
        self.reg_write_step(REG_EXT_FIELD_DETECTOR_DEACT, 0x02, Ghost(base), Ghost(guess))?;
        self.reg_write_step(REG_OP_CONTROL, OP_CONTROL_EN | 0x03, Ghost(base), Ghost(guess))?;
        let ghost start: int = base.len() as int + 11;
        let mut j: u32 = 0;
        let mut hit = false;
        while j < OSC_POLLS && !hit
            invariant
                self.spec_address() == addr,
                addr == old(self).spec_address(),
                base == old(self).events(),
                guess == init_plan(addr, 100),
                start == base.len() + 11,
                j <= 100,
                self.events().len() == start + j,
                on_track(base, self.events(), guess),
                hit ==> j >= 1 && poll_hit(self.events(), start, j - 1, 0x80u8),
                forall|i: int| 0 <= i < j && !(hit && i == j - 1) ==> !poll_hit(self.events(), start, i, 0x80),
            decreases 100 - j + (if hit { 0int } else { 1int }),
        {
            let ghost before = self.events();
            assert(guess[start + j - base.len()] == osc_poll(addr));
            match self.reg_read_step(REG_AUX_DISPLAY, Ghost(base), Ghost(guess)) {
                Err(e) => {
                    proof {
                        let log = self.events();
                        assert forall|i: int| 0 <= i < j implies !poll_hit(log, start, i, 0x80) by {
                            assert(log[start + i] == before[start + i]);
                            assert(!poll_hit(before, start, i, 0x80u8));
                        }
                        lemma_polls_skip(log, start, j as nat, 100, 0x80);
                        let k = osc_polls(log, base.len());
                        assert(polls(log, start, (j + 1) as nat, 100, 0x80) == 100);
                        assert(k >= j + 1);
                        lemma_replan(base, log.drop_last(), guess, init_plan(addr, k));
                        assert(stopped(base, log, init_plan(addr, k)));
                    }
                    return Err(e);
                },
                Ok(aux) => {
                    assert((aux & 0x80u8 != 0) == (aux >= 0x80u8)) by (bit_vector);
                    proof {
                        let log = self.events();
                        assert forall|i: int| 0 <= i < j implies !poll_hit(log, start, i, 0x80) by {
                            assert(log[start + i] == before[start + i]);
                            assert(!poll_hit(before, start, i, 0x80u8));
                        }
                    }
                    if aux & AUX_DISPLAY_OSC_OK != 0 {
                        hit = true;
                    }
                },
            }
            j += 1;
        }
        let ghost mid = self.events();
        proof {
            if hit {
                lemma_polls_skip(mid, start, (j - 1) as nat, 100, 0x80);
            } else {
                lemma_polls_skip(mid, start, 100, 100, 0x80);
            }
            assert(osc_polls(mid, base.len()) == j);
            lemma_replan(base, mid, guess, init_prefix(addr) + repeat(osc_poll(addr), j as nat));
        }
        let r = self.init_tail_run();
        proof {
            let fin = self.events();
            let k = j as nat;
            lemma_ran_prefix(mid, fin, init_tail(addr));
            lemma_concat(base, mid, fin, init_prefix(addr) + repeat(osc_poll(addr), k), init_tail(addr));
            lemma_polls_prefix(mid, fin, start, 0, 100, 0x80);
        }
        r
    }


    /// Waits for `need` bytes in the FIFO (up to 80 polls); if they
    /// arrive, reads `buf.len()` of them into `buf`. `Ok(true)` when the
    /// bytes were read, `Ok(false)` when they never arrived.
    fn wait_fifo(&mut self, need: u8, buf: &mut [u8]) -> (r: Result<bool, B::Error>)
        ensures
            final(self).spec_address() == old(self).spec_address(),
            final(buf)@.len() == old(buf)@.len(),
            ran(old(self).events(), final(self).events(), wait_plan(old(self).spec_address(), final(self).events(), old(self).events().len(), need, old(buf)@.len())),
            r is Ok <==> completed(old(self).events(), final(self).events(), wait_plan(old(self).spec_address(), final(self).events(), old(self).events().len(), need, old(buf)@.len())),
            r matches Ok(b) ==> b == fifo_ready(final(self).events(), old(self).events().len(), need),
            r matches Ok(true) ==> final(self).events().last().data == final(buf)@,
    {
        let ghost base = self.events();
        let ghost addr = self.spec_address();
        let ghost start: int = base.len() as int;
        let ghost len = buf@.len();
        let ghost guess = repeat(fifo_poll(addr), 80) + seq![(fifo_read_req(addr, len), true)];
        proof { lemma_start(base, guess); }
        let mut count: u32 = 0;
        let mut hit = false;
        while count < FIFO_POLLS && !hit
            invariant
                self.spec_address() == addr,
                addr == old(self).spec_address(),
                base == old(self).events(),
                start == base.len(),
                len == buf@.len(),
                guess == repeat(fifo_poll(addr), 80) + seq![(fifo_read_req(addr, len), true)],
                count <= 80,
                self.events().len() == start + count,
                on_track(base, self.events(), guess),
                hit ==> count >= 1 && poll_hit(self.events(), start, count - 1, need),
                forall|i: int| 0 <= i < count && !(hit && i == count - 1) ==> !poll_hit(self.events(), start, i, need),
            decreases 80 - count + (if hit { 0int } else { 1int }),
        {
            let ghost before = self.events();
            assert(guess[start + count - base.len()] == fifo_poll(addr));
            match self.reg_read_step(REG_FIFO_STATUS1, Ghost(base), Ghost(guess)) {
                Err(e) => {
                    proof {
                        let log = self.events();
                        assert forall|i: int| 0 <= i < count implies !poll_hit(log, start, i, need) by {
                            assert(log[start + i] == before[start + i]);
                            assert(!poll_hit(before, start, i, need));
                        }
                        lemma_polls_skip(log, start, count as nat, 80, need);
                        let k = fifo_polls(log, start as nat, need);
                        assert(polls(log, start, (count + 1) as nat, 80, need) == 80);
                        assert(k >= count + 1);
                        let fin_plan = wait_plan(addr, log, start as nat, need, len);
                        lemma_replan(base, log.drop_last(), guess, fin_plan);
                        assert(stopped(base, log, fin_plan));
                    }
                    return Err(e);
                },
                Ok(n) => {
                    proof {
                        let log = self.events();
                        assert forall|i: int| 0 <= i < count implies !poll_hit(log, start, i, need) by {
                            assert(log[start + i] == before[start + i]);
                            assert(!poll_hit(before, start, i, need));
                        }
                    }
                    if n >= need {
                        hit = true;
                    }
                },
            }
            count += 1;
        }
        let ghost mid = self.events();
        proof {
            if hit {
                lemma_polls_skip(mid, start, (count - 1) as nat, 80, need);
            } else {
                lemma_polls_skip(mid, start, 80, 80, need);
            }
            assert(fifo_polls(mid, start as nat, need) == count);
        }
        if !hit {
            proof {
                let plan = wait_plan(addr, mid, start as nat, need, len);
                assert(!fifo_ready(mid, start as nat, need));
                lemma_replan(base, mid, guess, plan);
            }
            return Ok(false);
        }
        let ghost plan = repeat(fifo_poll(addr), count as nat) + seq![(fifo_read_req(addr, len), true)];
        proof {
            lemma_replan(base, mid, guess, plan);
        }
        let r = self.fifo_read_step(buf, Ghost(base), Ghost(plan));
        proof {
            let fin = self.events();
            assert(mid.is_prefix_of(fin)) by {
                assert(mid =~= fin.subrange(0, mid.len() as int));
            }
            lemma_polls_prefix(mid, fin, start, 0, 80, need);
            assert(fin[start + count - 1] == mid[start + count - 1]);
            assert(fifo_ready(fin, start as nat, need));
            assert(wait_plan(addr, fin, start as nat, need, len) =~= plan);
        }
        match r {
            Ok(()) => Ok(true),
            Err(e) => Err(e),
        }
    }

    /// Reads the 2-byte ATQA from the FIFO once it has arrived (up to 80
    /// FIFO polls); `None` when it never arrived.
    pub fn read_atqa(&mut self) -> (r: Result<Option<[u8; 2]>, B::Error>)
        ensures
            final(self).spec_address() == old(self).spec_address(),
            ran(old(self).events(), final(self).events(), wait_plan(old(self).spec_address(), final(self).events(), old(self).events().len(), 2, 2)),
            r is Ok <==> completed(old(self).events(), final(self).events(), wait_plan(old(self).spec_address(), final(self).events(), old(self).events().len(), 2, 2)),
            r matches Ok(o) ==> (o is Some <==> fifo_ready(final(self).events(), old(self).events().len(), 2)),
            r matches Ok(Some(atqa)) ==> atqa@ == final(self).events().last().data,
    {
        let mut atqa = [0u8; 2];
        match self.wait_fifo(2, &mut atqa) {
            Ok(true) => Ok(Some(atqa)),
            Ok(false) => Ok(None),
            Err(e) => Err(e),
        }
    }


    /// Frame setup, transmit, and response wait (see [`frame_plan`] and
    /// [`wait_plan`]).
    fn frame_exchange(
        &mut self,
        antcl: u8,
        tx_bits: u8,
        frame: &[u8],
        tx_cmd: u8,
        need: u8,
        buf: &mut [u8],
    ) -> (r: Result<bool, B::Error>)
        requires
            frame@.len() < 16,
        ensures
            final(self).spec_address() == old(self).spec_address(),
            final(buf)@.len() == old(buf)@.len(),
            ran(old(self).events(), final(self).events(), frame_plan(old(self).spec_address(), antcl, tx_bits, frame@, tx_cmd) + wait_plan(old(self).spec_address(), final(self).events(), old(self).events().len() + 8, need, old(buf)@.len())),
            r is Ok <==> completed(old(self).events(), final(self).events(), frame_plan(old(self).spec_address(), antcl, tx_bits, frame@, tx_cmd) + wait_plan(old(self).spec_address(), final(self).events(), old(self).events().len() + 8, need, old(buf)@.len())),
            r matches Ok(b) ==> b == fifo_ready(final(self).events(), old(self).events().len() + 8, need),
            r matches Ok(true) ==> final(self).events().last().data == final(buf)@,
    {
        let ghost base = self.events();
        let ghost addr = self.spec_address();
        let ghost setup = frame_plan(addr, antcl, tx_bits, frame@, tx_cmd);
        let ghost guess = setup + wait_plan(addr, base, base.len() + 8, need, buf@.len());
        proof { lemma_start(base, guess); }
        self.reg_write_step(REG_ISO14443A_SETTINGS, antcl, Ghost(base), Ghost(guess))?;
        self.reg_write_step(REG_AUX_DEFINITION, 0x00, Ghost(base), Ghost(guess))?;
        self.reg_write_step(REG_NUM_TX_BYTES1, 0x00, Ghost(base), Ghost(guess))?;
        self.reg_write_step(REG_NUM_TX_BYTES2, tx_bits, Ghost(base), Ghost(guess))?;
        let _ = self.reg_read_step(REG_MAIN_IRQ, Ghost(base), Ghost(guess));
        self.cmd_step(CMD_CLEAR_FIFO, Ghost(base), Ghost(guess))?;
        self.fifo_load_step(frame, Ghost(base), Ghost(guess))?;
        self.cmd_step(tx_cmd, Ghost(base), Ghost(guess))?;
        let ghost mid = self.events();
        proof {
            lemma_replan(base, mid, guess, setup);
        }
        let r = self.wait_fifo(need, buf);
        proof {
            let fin = self.events();
            lemma_ran_prefix(mid, fin, wait_plan(addr, fin, mid.len(), need, buf@.len()));
            lemma_concat(base, mid, fin, setup, wait_plan(addr, fin, mid.len(), need, buf@.len()));
        }
        r
    }

    fn anticollision(&mut self, sel: u8) -> (r: Result<Option<[u8; 5]>, B::Error>)
        ensures
            final(self).spec_address() == old(self).spec_address(),
            ran(old(self).events(), final(self).events(), frame_plan(old(self).spec_address(), ISO14443A_ANTCL, 16, anticollision_frame(sel), CMD_TRANSMIT_WITHOUT_CRC) + wait_plan(old(self).spec_address(), final(self).events(), old(self).events().len() + 8, 5, 5)),
            r is Ok <==> completed(old(self).events(), final(self).events(), frame_plan(old(self).spec_address(), ISO14443A_ANTCL, 16, anticollision_frame(sel), CMD_TRANSMIT_WITHOUT_CRC) + wait_plan(old(self).spec_address(), final(self).events(), old(self).events().len() + 8, 5, 5)),
            r matches Ok(o) ==> (o is Some <==> fifo_ready(final(self).events(), old(self).events().len() + 8, 5) && bcc_ok(final(self).events().last().data)),
            r matches Ok(Some(resp)) ==> resp@ == final(self).events().last().data,
    {
        let frame = [sel, ISO14443A_NVB_ANTICOLLISION];
        assert(frame@ =~= anticollision_frame(sel));
        let mut resp = [0u8; 5];
        match self.frame_exchange(ISO14443A_ANTCL, 16, &frame, CMD_TRANSMIT_WITHOUT_CRC, 5, &mut resp) {
            Err(e) => Err(e),
            Ok(false) => Ok(None),
            Ok(true) => {
                let expected_bcc = resp[0] ^ resp[1] ^ resp[2] ^ resp[3];
                if resp[4] != expected_bcc {
                    Ok(None)
                } else {
                    Ok(Some(resp))
                }
            },
        }
    }

    fn select(&mut self, sel: u8, uid: [u8; 4], bcc: u8) -> (r: Result<Option<u8>, B::Error>)
        ensures
            final(self).spec_address() == old(self).spec_address(),
            ran(old(self).events(), final(self).events(), frame_plan(old(self).spec_address(), 0, 56, select_frame(sel, uid@, bcc), CMD_TRANSMIT_WITH_CRC) + wait_plan(old(self).spec_address(), final(self).events(), old(self).events().len() + 8, 1, 1)),
            r is Ok <==> completed(old(self).events(), final(self).events(), frame_plan(old(self).spec_address(), 0, 56, select_frame(sel, uid@, bcc), CMD_TRANSMIT_WITH_CRC) + wait_plan(old(self).spec_address(), final(self).events(), old(self).events().len() + 8, 1, 1)),
            r matches Ok(o) ==> (o is Some <==> fifo_ready(final(self).events(), old(self).events().len() + 8, 1)),
            r matches Ok(Some(sak)) ==> final(self).events().last().data == seq![sak],
    {
        let payload = [sel, ISO14443A_NVB_SELECT, uid[0], uid[1], uid[2], uid[3], bcc];
        assert(payload@ =~= select_frame(sel, uid@, bcc));
        let mut sak = [0u8; 1];
        match self.frame_exchange(0x00, 56, &payload, CMD_TRANSMIT_WITH_CRC, 1, &mut sak) {
            Err(e) => Err(e),
            Ok(false) => Ok(None),
            Ok(true) => {
                assert(sak@ =~= seq![sak[0]]);
                Ok(Some(sak[0]))
            },
        }
    }

    /// Cascade level 1 anticollision (`0x93 0x20`, no CRC, 2 bytes = 16
    /// TX bits): 4 UID bytes plus BCC; `None` when no response arrived or
    /// the BCC does not match.
    pub fn anticollision_cl1(&mut self) -> (r: Result<Option<[u8; 5]>, B::Error>)
        ensures
            final(self).spec_address() == old(self).spec_address(),
            ran(old(self).events(), final(self).events(), frame_plan(old(self).spec_address(), ISO14443A_ANTCL, 16, anticollision_frame(ISO14443A_CMD_SEL_CL1), CMD_TRANSMIT_WITHOUT_CRC) + wait_plan(old(self).spec_address(), final(self).events(), old(self).events().len() + 8, 5, 5)),
            r is Ok <==> completed(old(self).events(), final(self).events(), frame_plan(old(self).spec_address(), ISO14443A_ANTCL, 16, anticollision_frame(ISO14443A_CMD_SEL_CL1), CMD_TRANSMIT_WITHOUT_CRC) + wait_plan(old(self).spec_address(), final(self).events(), old(self).events().len() + 8, 5, 5)),
            r matches Ok(o) ==> (o is Some <==> fifo_ready(final(self).events(), old(self).events().len() + 8, 5) && bcc_ok(final(self).events().last().data)),
            r matches Ok(Some(resp)) ==> resp@ == final(self).events().last().data,
    {
        self.anticollision(ISO14443A_CMD_SEL_CL1)
    }

    /// Cascade level 2 anticollision (`0x95 0x20`), as level 1.
    pub fn anticollision_cl2(&mut self) -> (r: Result<Option<[u8; 5]>, B::Error>)
        ensures
            final(self).spec_address() == old(self).spec_address(),
            ran(old(self).events(), final(self).events(), frame_plan(old(self).spec_address(), ISO14443A_ANTCL, 16, anticollision_frame(ISO14443A_CMD_SEL_CL2), CMD_TRANSMIT_WITHOUT_CRC) + wait_plan(old(self).spec_address(), final(self).events(), old(self).events().len() + 8, 5, 5)),
            r is Ok <==> completed(old(self).events(), final(self).events(), frame_plan(old(self).spec_address(), ISO14443A_ANTCL, 16, anticollision_frame(ISO14443A_CMD_SEL_CL2), CMD_TRANSMIT_WITHOUT_CRC) + wait_plan(old(self).spec_address(), final(self).events(), old(self).events().len() + 8, 5, 5)),
            r matches Ok(o) ==> (o is Some <==> fifo_ready(final(self).events(), old(self).events().len() + 8, 5) && bcc_ok(final(self).events().last().data)),
            r matches Ok(Some(resp)) ==> resp@ == final(self).events().last().data,
    {
        self.anticollision(ISO14443A_CMD_SEL_CL2)
    }

    /// Cascade level 1 select with CRC (`0x93 0x70`, UID, BCC; 7 bytes =
    /// 56 TX bits). Returns the SAK byte, `None` when none arrived.
    pub fn select_cl1(&mut self, uid_cl1: [u8; 4], bcc: u8) -> (r: Result<Option<u8>, B::Error>)
        ensures
            final(self).spec_address() == old(self).spec_address(),
            ran(old(self).events(), final(self).events(), frame_plan(old(self).spec_address(), 0, 56, select_frame(ISO14443A_CMD_SEL_CL1, uid_cl1@, bcc), CMD_TRANSMIT_WITH_CRC) + wait_plan(old(self).spec_address(), final(self).events(), old(self).events().len() + 8, 1, 1)),
            r is Ok <==> completed(old(self).events(), final(self).events(), frame_plan(old(self).spec_address(), 0, 56, select_frame(ISO14443A_CMD_SEL_CL1, uid_cl1@, bcc), CMD_TRANSMIT_WITH_CRC) + wait_plan(old(self).spec_address(), final(self).events(), old(self).events().len() + 8, 1, 1)),
            r matches Ok(o) ==> (o is Some <==> fifo_ready(final(self).events(), old(self).events().len() + 8, 1)),
            r matches Ok(Some(sak)) ==> final(self).events().last().data == seq![sak],
    {
        self.select(ISO14443A_CMD_SEL_CL1, uid_cl1, bcc)
    }

    /// Cascade level 2 select with CRC (`0x95 0x70`), as level 1.
    pub fn select_cl2(&mut self, uid_cl2: [u8; 4], bcc: u8) -> (r: Result<Option<u8>, B::Error>)
        ensures
            final(self).spec_address() == old(self).spec_address(),
            ran(old(self).events(), final(self).events(), frame_plan(old(self).spec_address(), 0, 56, select_frame(ISO14443A_CMD_SEL_CL2, uid_cl2@, bcc), CMD_TRANSMIT_WITH_CRC) + wait_plan(old(self).spec_address(), final(self).events(), old(self).events().len() + 8, 1, 1)),
            r is Ok <==> completed(old(self).events(), final(self).events(), frame_plan(old(self).spec_address(), 0, 56, select_frame(ISO14443A_CMD_SEL_CL2, uid_cl2@, bcc), CMD_TRANSMIT_WITH_CRC) + wait_plan(old(self).spec_address(), final(self).events(), old(self).events().len() + 8, 1, 1)),
            r matches Ok(o) ==> (o is Some <==> fifo_ready(final(self).events(), old(self).events().len() + 8, 1)),
            r matches Ok(Some(sak)) ==> final(self).events().last().data == seq![sak],
    {
        self.select(ISO14443A_CMD_SEL_CL2, uid_cl2, bcc)
    }

    /// Stops all activities (failure ignored), then runs
    /// [`St25r3916::init_hardware`].
    pub fn enable_field(&mut self) -> (r: Result<(), B::Error>)
        ensures
            final(self).spec_address() == old(self).spec_address(),
            ran(old(self).events(), final(self).events(), seq![(cmd_req(old(self).spec_address(), CMD_STOP_ALL), false)] + init_plan(old(self).spec_address(), osc_polls(final(self).events(), old(self).events().len() + 1))),
            r is Ok <==> completed(old(self).events(), final(self).events(), seq![(cmd_req(old(self).spec_address(), CMD_STOP_ALL), false)] + init_plan(old(self).spec_address(), osc_polls(final(self).events(), old(self).events().len() + 1))),
    {
        let ghost base = self.events();
        let ghost addr = self.spec_address();
        let ghost first = seq![(cmd_req(addr, CMD_STOP_ALL), false)];
        proof { lemma_start(base, first); }
        let _ = self.cmd_step(CMD_STOP_ALL, Ghost(base), Ghost(first));
        let ghost mid = self.events();
        let r = self.init_hardware();
        proof {
            let fin = self.events();
            let tail = init_plan(addr, osc_polls(fin, mid.len()));
            lemma_ran_prefix(mid, fin, tail);
            lemma_concat(base, mid, fin, first, tail);
        }
        r
    }


    fn get_atqa(&mut self) -> (r: Result<Option<[u8; 2]>, B::Error>)
        ensures
            final(self).spec_address() == old(self).spec_address(),
            ran(old(self).events(), final(self).events(), atqa_plan(old(self).spec_address(), final(self).events(), old(self).events().len())),
            r is Ok <==> completed(old(self).events(), final(self).events(), atqa_plan(old(self).spec_address(), final(self).events(), old(self).events().len())),
            r matches Ok(o) ==> (o is Some <==> atqa_got(old(self).spec_address(), final(self).events(), old(self).events().len())),
            r matches Ok(Some(x)) ==> x@ == final(self).events().last().data,
    {
        let ghost base = self.events();
        let ghost a = self.spec_address();
        let ghost b = base.len();
        let ghost s1 = short_frame_plan(a, CMD_TRANSMIT_WUPA);
        match self.send_wupa() {
            Err(e) => {
                proof {
                    let fin = self.events();
                    assert(stopped(base, fin, s1));
                    let q = atqa_plan(a, fin, b);
                    assert forall|i: int| 0 <= i < s1.len() implies s1[i] == q[i] by {}
                    lemma_stop_extend(base, fin, s1, q);
                }
                return Err(e);
            },
            Ok(()) => {},
        }
        let ghost m1 = self.events();
        let r1 = self.read_atqa();
        let ghost m2 = self.events();
        proof {
            let w1 = wait_plan(a, m2, m1.len(), 2, 2);
            lemma_ran_prefix(m1, m2, w1);
            lemma_concat(base, m1, m2, s1, w1);
        }
        let first = match r1 {
            Err(e) => {
                proof {
                    let w1 = wait_plan(a, m2, m1.len(), 2, 2);
                    assert(stopped(base, m2, s1 + w1));
                    let q = atqa_plan(a, m2, b);
                    assert forall|i: int| 0 <= i < (s1 + w1).len() implies (s1 + w1)[i] == q[i] by {}
                    lemma_stop_extend(base, m2, s1 + w1, q);
                }
                return Err(e);
            },
            Ok(o) => o,
        };
        if let Some(x) = first {
            proof {
                assert(atqa_plan(a, m2, b) == s1 + wait_plan(a, m2, m1.len(), 2, 2));
            }
            return Ok(Some(x));
        }
        let ghost s2 = short_frame_plan(a, CMD_TRANSMIT_REQA);
        let ghost w1 = wait_plan(a, m2, m1.len(), 2, 2);
        let ghost head = s1 + w1;
        match self.send_reqa() {
            Err(e) => {
                proof {
                    let fin = self.events();
                    lemma_ran_prefix(m2, fin, s2);
                    lemma_concat(base, m2, fin, head, s2);
                    lemma_wait_stable(a, m2, fin, m1.len(), 2, 2);
                    let q = atqa_plan(a, fin, b);
                    assert(q == head + s2 + wait_plan(a, fin, b + 7 + w1.len() + 7, 2, 2));
                    assert forall|i: int| 0 <= i < (head + s2).len() implies (head + s2)[i] == q[i] by {}
                    lemma_stop_extend(base, fin, head + s2, q);
                }
                return Err(e);
            },
            Ok(()) => {},
        }
        let ghost m3 = self.events();
        proof {
            lemma_concat(base, m2, m3, head, s2);
        }
        let r2 = self.read_atqa();
        proof {
            let fin = self.events();
            let w2 = wait_plan(a, fin, m3.len(), 2, 2);
            lemma_ran_prefix(m3, fin, w2);
            lemma_concat(base, m3, fin, head + s2, w2);
            assert(m2.is_prefix_of(fin)) by {
                assert(m2 =~= fin.subrange(0, m2.len() as int)) by {
                    assert forall|i: int| 0 <= i < m2.len() implies m2[i] == fin[i] by {
                        assert(m3.subrange(0, m2.len() as int)[i] == m3[i]);
                        assert(fin.subrange(0, m3.len() as int)[i] == fin[i]);
                    }
                }
            }
            lemma_wait_stable(a, m2, fin, m1.len(), 2, 2);
            assert(atqa_plan(a, fin, b) == head + s2 + w2);
        }
        r2
    }


    fn cascade2(&mut self) -> (r: Result<Option<(u8, [u8; 5])>, B::Error>)
        ensures
            final(self).spec_address() == old(self).spec_address(),
            ran(old(self).events(), final(self).events(), cl2_plan(old(self).spec_address(), final(self).events(), old(self).events().len())),
            r is Ok <==> completed(old(self).events(), final(self).events(), cl2_plan(old(self).spec_address(), final(self).events(), old(self).events().len())),
            r matches Ok(o) ==> (o is Some <==> ac_done(final(self).events(), old(self).events().len()) && sel_ok(final(self).events(), exchange_end(final(self).events(), old(self).events().len(), 5))),
            r matches Ok(Some((sak, resp))) ==> resp@ == ac_resp(final(self).events(), old(self).events().len())
                && sak == sel_sak(final(self).events(), exchange_end(final(self).events(), old(self).events().len(), 5)),
    {
        let ghost base = self.events();
        let ghost a = self.spec_address();
        let ghost b = base.len();
        let c = match self.anticollision_cl2() {
            Err(e) => {
                proof {
                    let fin = self.events();
                    let ac = ac_plan(a, fin, b, ISO14443A_CMD_SEL_CL2);
                    let q = cl2_plan(a, fin, b);
                    assert forall|i: int| 0 <= i < ac.len() implies ac[i] == q[i] by {}
                    lemma_stop_extend(base, fin, ac, q);
                }
                return Err(e);
            },
            Ok(None) => return Ok(None),
            Ok(Some(c)) => c,
        };
        let ghost m1 = self.events();
        let ghost ac = ac_plan(a, m1, b, ISO14443A_CMD_SEL_CL2);
        assert(m1.len() == exchange_end(m1, b, 5));
        let uid = [c[0], c[1], c[2], c[3]];
        assert(uid@ =~= c@.subrange(0, 4));
        let res = self.select_cl2(uid, c[4]);
        proof {
            let fin = self.events();
            let sl = sel_plan(a, fin, m1.len(), ISO14443A_CMD_SEL_CL2, c@);
            lemma_ran_prefix(m1, fin, sl);
            lemma_concat(base, m1, fin, ac, sl);
            lemma_ac_stable(a, m1, fin, b, ISO14443A_CMD_SEL_CL2);
            assert(cl2_plan(a, fin, b) == ac + sl);
        }
        match res {
            Err(e) => Err(e),
            Ok(None) => Ok(None),
            Ok(Some(sak)) => Ok(Some((sak, c))),
        }
    }


    #[verifier::rlimit(80)]
    #[verifier::spinoff_prover]
    fn cascade(&mut self) -> (r: Result<Option<(u8, usize, [u8; 10])>, B::Error>)
        ensures
            final(self).spec_address() == old(self).spec_address(),
            ran(old(self).events(), final(self).events(), cascade_plan(old(self).spec_address(), final(self).events(), old(self).events().len())),
            r is Ok <==> completed(old(self).events(), final(self).events(), cascade_plan(old(self).spec_address(), final(self).events(), old(self).events().len())),
            r matches Ok(o) ==> match o {
                Some((sak, len, uid)) => cascade_card(final(self).events(), old(self).events().len()) == Some((sak, len as nat, uid@)),
                None => cascade_card(final(self).events(), old(self).events().len()) is None,
            },
    {
        let ghost base = self.events();
        let ghost a = self.spec_address();
        let ghost b = base.len();
        let cl1 = match self.anticollision_cl1() {
            Err(e) => {
                proof {
                    let fin = self.events();
                    let ac = ac_plan(a, fin, b, ISO14443A_CMD_SEL_CL1);
                    let q = cascade_plan(a, fin, b);
                    assert forall|i: int| 0 <= i < ac.len() implies ac[i] == q[i] by {}
                    lemma_stop_extend(base, fin, ac, q);
                }
                return Err(e);
            },
            Ok(None) => return Ok(None),
            Ok(Some(c)) => c,
        };
        let ghost m1 = self.events();
        let ghost e1 = m1.len();
        let ghost ac = ac_plan(a, m1, b, ISO14443A_CMD_SEL_CL1);
        assert(e1 == exchange_end(m1, b, 5));
        let uid_cl1 = [cl1[0], cl1[1], cl1[2], cl1[3]];
        let bcc1 = cl1[4];
        assert(uid_cl1@ =~= cl1@.subrange(0, 4));
        let res1 = self.select_cl1(uid_cl1, bcc1);
        let ghost m2 = self.events();
        let ghost sl = sel_plan(a, m2, e1, ISO14443A_CMD_SEL_CL1, cl1@);
        proof {
            lemma_ran_prefix(m1, m2, sl);
            lemma_concat(base, m1, m2, ac, sl);
            lemma_ac_stable(a, m1, m2, b, ISO14443A_CMD_SEL_CL1);
        }
        let sak_cl1 = match res1 {
            Err(e) => {
                proof {
                    let q = cascade_plan(a, m2, b);
                    assert forall|i: int| 0 <= i < (ac + sl).len() implies (ac + sl)[i] == q[i] by {}
                    lemma_stop_extend(base, m2, ac + sl, q);
                }
                return Err(e);
            },
            Ok(None) => {
                assert(cascade_plan(a, m2, b) == ac + sl);
                return Ok(None);
            },
            Ok(Some(s)) => s,
        };
        assert(m2.len() == exchange_end(m2, e1, 1));
        assert(sak_cl1 == sel_sak(m2, e1));
        if sak_cl1 & 0x04 == 0 {
            let mut full_uid = [0u8; 10];
            full_uid[0] = uid_cl1[0];
            full_uid[1] = uid_cl1[1];
            full_uid[2] = uid_cl1[2];
            full_uid[3] = uid_cl1[3];
            proof {
                assert(cascade_plan(a, m2, b) == ac + sl);
                assert(full_uid@ =~= cl1@.subrange(0, 4) + seq![0u8, 0, 0, 0, 0, 0]);
            }
            return Ok(Some((sak_cl1, 4, full_uid)));
        }
        if uid_cl1[0] == ISO14443A_CASCADE_TAG {
            let res2 = self.cascade2();
            let ghost fin = self.events();
            proof {
                let c2 = cl2_plan(a, fin, m2.len());
                lemma_ran_prefix(m2, fin, c2);
                lemma_concat(base, m2, fin, ac + sl, c2);
                lemma_prefix_trans(m1, m2, fin);
                lemma_ac_stable(a, m1, fin, b, ISO14443A_CMD_SEL_CL1);
                lemma_sel_stable(a, m2, fin, e1, ISO14443A_CMD_SEL_CL1, cl1@);
                assert(cascade_plan(a, fin, b) == ac + sl + c2);
            }
            return match res2 {
                Err(e) => Err(e),
                Ok(None) => Ok(None),
                Ok(Some((sak_cl2, uid_cl2))) => {
                    let mut full_uid = [0u8; 10];
                    full_uid[0] = uid_cl1[1];
                    full_uid[1] = uid_cl1[2];
                    full_uid[2] = uid_cl1[3];
                    full_uid[3] = uid_cl2[0];
                    full_uid[4] = uid_cl2[1];
                    full_uid[5] = uid_cl2[2];
                    full_uid[6] = uid_cl2[3];
                    proof {
                        assert(full_uid@ =~= cl1@.subrange(1, 4) + uid_cl2@.subrange(0, 4) + seq![0u8, 0, 0]);
                    }
                    Ok(Some((sak_cl2, 7, full_uid)))
                },
            };
        }
        assert(cascade_plan(a, m2, b) == ac + sl);
        Ok(None)
    }


    fn run_arm(&mut self) -> (r: Result<(), B::Error>)
        ensures
            final(self).spec_address() == old(self).spec_address(),
            ran(old(self).events(), final(self).events(), arm_plan(old(self).spec_address())),
            r is Ok <==> completed(old(self).events(), final(self).events(), arm_plan(old(self).spec_address())),
    {
        let ghost base = self.events();
        let ghost plan = arm_plan(self.spec_address());
        proof { lemma_start(base, plan); }
        self.reg_write_step(REG_AUX_DEFINITION, 0x00, Ghost(base), Ghost(plan))?;
        self.reg_write_step(REG_ISO14443A_SETTINGS, 0x00, Ghost(base), Ghost(plan))
    }

    fn run_idle(&mut self) -> (r: Result<(), B::Error>)
        ensures
            final(self).spec_address() == old(self).spec_address(),
            ran(old(self).events(), final(self).events(), idle_plan(old(self).spec_address())),
            r is Ok <==> completed(old(self).events(), final(self).events(), idle_plan(old(self).spec_address())),
    {
        let ghost base = self.events();
        let ghost plan = idle_plan(self.spec_address());
        proof { lemma_start(base, plan); }
        self.cmd_step(CMD_CLEAR_FIFO, Ghost(base), Ghost(plan))?;
        self.reg_write_step(REG_ISO14443A_SETTINGS, 0x00, Ghost(base), Ghost(plan))?;
        self.reg_write_step(REG_AUX_DEFINITION, 0x00, Ghost(base), Ghost(plan))
    }

    /// Polls for an ISO/IEC 14443-A card: WUPA (then REQA if nothing
    /// answered) and the ATQA; without an answer, idle the reader and
    /// return `None`. Otherwise run the cascade: level 1 anticollision and
    /// select; a SAK without the cascade bit gives a single-size UID; with
    /// it and a cascade tag, level 2 gives a double-size UID. Any exchange
    /// without an answer (or with a bad BCC) ends with `None`.
    #[verifier::rlimit(80)]
    #[verifier::spinoff_prover]
    pub fn poll_iso14443a(&mut self) -> (r: Result<Option<Iso14443aCard>, B::Error>)
        ensures
            final(self).spec_address() == old(self).spec_address(),
            ran(old(self).events(), final(self).events(), poll_plan(old(self).spec_address(), final(self).events(), old(self).events().len())),
            r is Ok <==> completed(old(self).events(), final(self).events(), poll_plan(old(self).spec_address(), final(self).events(), old(self).events().len())),
            r matches Ok(o) ==> match o {
                Some(card) => poll_outcome(old(self).spec_address(), final(self).events(), old(self).events().len())
                    == Some((card.atqa@, card.sak, card.uid_len as nat, card.uid@)),
                None => poll_outcome(old(self).spec_address(), final(self).events(), old(self).events().len()) is None,
            },
    {
        let ghost base = self.events();
        let ghost a = self.spec_address();
        let ghost b = base.len();
        let got = self.get_atqa();
        let ghost m0 = self.events();
        let ghost p0 = atqa_plan(a, m0, b);
        let atqa = match got {
            Err(e) => {
                proof {
                    let q = poll_plan(a, m0, b);
                    assert forall|i: int| 0 <= i < p0.len() implies p0[i] == q[i] by {}
                    lemma_stop_extend(base, m0, p0, q);
                }
                return Err(e);
            },
            Ok(None) => {
                let r = self.run_idle();
                proof {
                    let fin = self.events();
                    lemma_ran_prefix(m0, fin, idle_plan(a));
                    lemma_concat(base, m0, fin, p0, idle_plan(a));
                    lemma_atqa_stable(a, m0, fin, b);
                    assert(poll_plan(a, fin, b) == p0 + idle_plan(a));
                }
                return match r {
                    Ok(()) => Ok(None),
                    Err(e) => Err(e),
                };
            },
            Ok(Some(x)) => x,
        };
        let r = self.run_arm();
        let ghost m1 = self.events();
        proof {
            lemma_ran_prefix(m0, m1, arm_plan(a));
            lemma_concat(base, m0, m1, p0, arm_plan(a));
            lemma_atqa_stable(a, m0, m1, b);
        }
        match r {
            Err(e) => {
                proof {
                    let q = poll_plan(a, m1, b);
                    let h = p0 + arm_plan(a);
                    assert forall|i: int| 0 <= i < h.len() implies h[i] == q[i] by {}
                    lemma_stop_extend(base, m1, h, q);
                }
                return Err(e);
            },
            Ok(()) => {},
        }
        let res = self.cascade();
        proof {
            let fin = self.events();
            let c = cascade_plan(a, fin, m1.len());
            lemma_ran_prefix(m1, fin, c);
            lemma_concat(base, m1, fin, p0 + arm_plan(a), c);
            lemma_prefix_trans(m0, m1, fin);
            lemma_atqa_stable(a, m0, fin, b);
            assert(poll_plan(a, fin, b) == p0 + arm_plan(a) + c);
        }
        match res {
            Err(e) => Err(e),
            Ok(None) => Ok(None),
            Ok(Some((sak, uid_len, uid))) => Ok(Some(Iso14443aCard { atqa, sak, uid_len, uid })),
        }
    }

    fn short_frame(&mut self, tx_cmd: u8) -> (r: Result<(), B::Error>)
        ensures
            final(self).spec_address() == old(self).spec_address(),
            ran(old(self).events(), final(self).events(), short_frame_plan(old(self).spec_address(), tx_cmd)),
            r is Ok <==> completed(old(self).events(), final(self).events(), short_frame_plan(old(self).spec_address(), tx_cmd)),
    {
        let ghost base = self.events();
        let ghost plan = short_frame_plan(self.spec_address(), tx_cmd);
        proof { lemma_start(base, plan); }
        self.reg_write_step(REG_ISO14443A_SETTINGS, ISO14443A_ANTCL, Ghost(base), Ghost(plan))?;
        self.reg_write_step(REG_AUX_DEFINITION, AUX_DEF_NO_CRC_RX, Ghost(base), Ghost(plan))?;
        self.reg_write_step(REG_NUM_TX_BYTES1, 0x00, Ghost(base), Ghost(plan))?;
        self.reg_write_step(REG_NUM_TX_BYTES2, 0x00, Ghost(base), Ghost(plan))?;
        let _ = self.reg_read_step(REG_MAIN_IRQ, Ghost(base), Ghost(plan));
        self.cmd_step(CMD_CLEAR_FIFO, Ghost(base), Ghost(plan))?;
        self.cmd_step(tx_cmd, Ghost(base), Ghost(plan))
    }

    /// Transmits an ISO14443-A WUPA short frame.
    pub fn send_wupa(&mut self) -> (r: Result<(), B::Error>)
        ensures
            final(self).spec_address() == old(self).spec_address(),
            ran(old(self).events(), final(self).events(), short_frame_plan(old(self).spec_address(), CMD_TRANSMIT_WUPA)),
            r is Ok <==> completed(old(self).events(), final(self).events(), short_frame_plan(old(self).spec_address(), CMD_TRANSMIT_WUPA)),
    {
        self.short_frame(CMD_TRANSMIT_WUPA)
    }

    /// Transmits an ISO14443-A REQA short frame.
    pub fn send_reqa(&mut self) -> (r: Result<(), B::Error>)
        ensures
            final(self).spec_address() == old(self).spec_address(),
            ran(old(self).events(), final(self).events(), short_frame_plan(old(self).spec_address(), CMD_TRANSMIT_REQA)),
            r is Ok <==> completed(old(self).events(), final(self).events(), short_frame_plan(old(self).spec_address(), CMD_TRANSMIT_REQA)),
    {
        self.short_frame(CMD_TRANSMIT_REQA)
    }
}

} // verus!
