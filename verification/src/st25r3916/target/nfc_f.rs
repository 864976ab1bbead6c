//! NFC-F (FeliCa) passive target.

use vstd::prelude::*;
use crate::bus::{completed, lemma_start, ran, I2cBus, I2cRequest, Step};
use crate::st25r3916::commands::{CMD_STOP_ALL, MODE_PT_MEM_F_CONFIG};
use crate::st25r3916::memory::{f_block, NfcFParams, PtMemory};
use crate::st25r3916::registers::{
    MODE_NFC_AR8_AUTO, MODE_TARGET_FELICA, OP_CONTROL_EN, OP_CONTROL_RX_EN, REG_BIT_RATE,
    REG_MODE_DEFINITION, REG_OP_CONTROL, REG_PASSIVE_TARGET_MOD,
};
use crate::st25r3916::target::{lemma_one_step, mod_byte, TargetModulation};
use crate::st25r3916::{cmd_req, reg_write_req, St25r3916};

verus! {

/// NFC-F bit rate.
#[derive(Debug, Clone, Copy, PartialEq, Eq, Structural)]
pub enum NfcFBitRate {
    /// 212 kbit/s (fc / 64).
    Kbps212,
    /// 424 kbit/s (fc / 32).
    Kbps424,
}

/// The `REG_BIT_RATE` value (same rate both ways).
pub open spec fn bit_rate_val(r: NfcFBitRate) -> u8 {
    match r {
        NfcFBitRate::Kbps212 => 0x11,
        NfcFBitRate::Kbps424 => 0x22,
    }
}

impl NfcFBitRate {
    /// The `REG_BIT_RATE` value for transmit and receive.
    pub fn to_reg_val(&self) -> (v: u8)
        ensures
            v == bit_rate_val(*self),
    {
        match self {
            NfcFBitRate::Kbps212 => 0x11,
            NfcFBitRate::Kbps424 => 0x22,
        }
    }
}

/// An NFC-F target profile.
#[derive(Debug, Clone, Copy, PartialEq, Eq)]
pub struct NfcFTargetConfig {
    /// SENSF_RES parameters.
    pub params: NfcFParams,
    /// Bit rate.
    pub bit_rate: NfcFBitRate,
    /// Load modulation.
    pub modulation: TargetModulation,
}

/// The passive-target memory an NFC-F profile loads: zeros with the
/// SENSF_RES block in bytes 15..36.
pub open spec fn nfc_f_memory(p: NfcFParams) -> Seq<u8> {
    Seq::new(15, |i: int| 0u8) + f_block(p) + Seq::new(12, |i: int| 0u8)
}

/// The transfers that put the chip in NFC-F target mode.
pub open spec fn nfc_f_plan(a: u8, c: NfcFTargetConfig) -> Seq<Step<I2cRequest>> {
    seq![
        (cmd_req(a, CMD_STOP_ALL), true),
        (reg_write_req(a, REG_PASSIVE_TARGET_MOD, mod_byte(c.modulation)), true),
        (I2cRequest::Write(a, seq![MODE_PT_MEM_F_CONFIG] + nfc_f_memory(c.params).subrange(15, 36)), true),
        (reg_write_req(a, REG_BIT_RATE, bit_rate_val(c.bit_rate)), true),
        (reg_write_req(a, REG_MODE_DEFINITION, MODE_TARGET_FELICA | MODE_NFC_AR8_AUTO), true),
        (reg_write_req(a, REG_OP_CONTROL, OP_CONTROL_EN | OP_CONTROL_RX_EN), true),
    ]
}

impl NfcFTargetConfig {
    /// A profile with the wildcard system code `FF FF`, zero pads and MRTI,
    /// default modulation.
    pub fn new(nfcid2: [u8; 8], bit_rate: NfcFBitRate) -> (c: NfcFTargetConfig)
        ensures
            c == (NfcFTargetConfig {
                params: NfcFParams {
                    system_code: [0xFFu8, 0xFFu8],
                    nfcid2,
                    pad0: [0u8, 0u8],
                    pad1: [0u8, 0u8, 0u8],
                    mrti_check: 0,
                    mrti_update: 0,
                    pad2: 0,
                },
                bit_rate,
                modulation: TargetModulation { ptm_res: 0x07, pt_res: 0x0F },
            }),
    {
        NfcFTargetConfig {
            params: NfcFParams {
                system_code: [0xFF, 0xFF],
                nfcid2,
                pad0: [0x00, 0x00],
                pad1: [0x00, 0x00, 0x00],
                mrti_check: 0x00,
                mrti_update: 0x00,
                pad2: 0x00,
            },
            bit_rate,
            modulation: TargetModulation { ptm_res: 0x07, pt_res: 0x0F },
        }
    }

    /// The passive-target memory for this profile.
    pub fn to_pt_memory(&self) -> (m: PtMemory)
        ensures
            m@ == nfc_f_memory(self.params),
    {
        let m = PtMemory::new().with_nfc_f(&self.params);
        assert(m@ =~= nfc_f_memory(self.params));
        m
    }
}

impl<B: I2cBus> St25r3916<B> {
    /// Enters NFC-F target mode: stop everything, set the modulation, load
    /// the NFC-F memory, set the bit rate, select FeliCa target mode with
    /// automatic responses, enable the receiver. Stops at the first failed
    /// transfer.
    pub fn configure_target_nfc_f(&mut self, config: &NfcFTargetConfig) -> (r: Result<(), B::Error>)
        ensures
            final(self).spec_address() == old(self).spec_address(),
            ran(old(self).events(), final(self).events(), nfc_f_plan(old(self).spec_address(), *config)),
            r is Ok <==> completed(old(self).events(), final(self).events(), nfc_f_plan(old(self).spec_address(), *config)),
    {
        let ghost base = self.events();
        let ghost plan = nfc_f_plan(self.spec_address(), *config);
        proof {
            lemma_start(base, plan);
        }
        if let Err(e) = self.cmd_step(CMD_STOP_ALL, Ghost(base), Ghost(plan)) {
            return Err(e);
        }
        let m = config.modulation.to_byte();
        if let Err(e) = self.reg_write_step(REG_PASSIVE_TARGET_MOD, m, Ghost(base), Ghost(plan)) {
            return Err(e);
        }
        let mem = config.to_pt_memory();
        let ghost log = self.events();
        let r = self.load_pt_memory_f(&mem);
        proof {
            lemma_one_step(base, log, self.events(), plan);
        }
        if let Err(e) = r {
            return Err(e);
        }
        let rate = config.bit_rate.to_reg_val();
        if let Err(e) = self.reg_write_step(REG_BIT_RATE, rate, Ghost(base), Ghost(plan)) {
            return Err(e);
        }
        if let Err(e) = self.reg_write_step(REG_MODE_DEFINITION, MODE_TARGET_FELICA | MODE_NFC_AR8_AUTO, Ghost(base), Ghost(plan)) {
            return Err(e);
        }
        self.reg_write_step(REG_OP_CONTROL, OP_CONTROL_EN | OP_CONTROL_RX_EN, Ghost(base), Ghost(plan))
    }
}

} // verus!
