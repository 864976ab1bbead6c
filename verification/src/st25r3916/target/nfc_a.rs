//! NFC-A passive target (Type 2 or Type 4A tag emulation).

use vstd::prelude::*;
use crate::bus::{completed, lemma_start, ran, I2cBus, I2cRequest, Step};
use crate::st25r3916::commands::{CMD_GOTO_SENSE, CMD_STOP_ALL, MODE_PT_MEM_A_CONFIG};
use crate::st25r3916::memory::{a_layout, PtMemory};
use crate::st25r3916::registers::{
    MODE_NFC_AR8_AUTO, MODE_TARGET_ISO14443A, OP_CONTROL_EN, OP_CONTROL_RX_EN, REG_MODE_DEFINITION,
    REG_NFCIP1_PASSIVE_TARGET, REG_OP_CONTROL, REG_PASSIVE_TARGET_MOD,
};
use crate::st25r3916::target::{lemma_one_step, mod_byte, TargetModulation};
use crate::st25r3916::{cmd_req, reg_write_req, St25r3916};

verus! {

/// The tag an NFC-A target presents.
#[derive(Debug, Clone, Copy, PartialEq, Eq)]
pub enum NfcATargetKind {
    /// Type 2 tag, single-size (4-byte) UID.
    Type2Single {
        /// NFCID1.
        uid: [u8; 4],
        /// SENS_RES (ATQA).
        sens_res: [u8; 2],
        /// SAK.
        sak: u8,
    },
    /// Type 4A tag, double-size (7-byte) UID, ISO-DEP.
    Type4Double {
        /// NFCID1.
        uid: [u8; 7],
        /// SENS_RES (ATQA).
        sens_res: [u8; 2],
        /// Level 1 SAK (cascade bit).
        sak1: u8,
        /// Level 2 SAK (ISO-DEP).
        sak2: u8,
    },
}

impl NfcATargetKind {
    /// A Type 2 tag: ATQA `44 00`, SAK `00`.
    pub fn type2(uid: [u8; 4]) -> (k: NfcATargetKind)
        ensures
            k == (NfcATargetKind::Type2Single { uid, sens_res: [0x44u8, 0x00u8], sak: 0x00 }),
    {
        NfcATargetKind::Type2Single { uid, sens_res: [0x44, 0x00], sak: 0x00 }
    }

    /// A Type 4A tag: ATQA `44 03`, SAKs `04` then `20` (ISO-DEP).
    pub fn type4a(uid: [u8; 7]) -> (k: NfcATargetKind)
        ensures
            k == (NfcATargetKind::Type4Double { uid, sens_res: [0x44u8, 0x03u8], sak1: 0x04, sak2: 0x20 }),
    {
        NfcATargetKind::Type4Double { uid, sens_res: [0x44, 0x03], sak1: 0x04, sak2: 0x20 }
    }
}

/// An NFC-A target profile.
#[derive(Debug, Clone, Copy, PartialEq, Eq)]
pub struct NfcATargetConfig {
    /// The tag presented.
    pub kind: NfcATargetKind,
    /// Load modulation.
    pub modulation: TargetModulation,
    /// Frame delay compensation (`fdel`, four bits; 2 recommended).
    pub fdel: u8,
}

/// The passive-target memory an NFC-A tag loads.
pub open spec fn nfc_a_memory(k: NfcATargetKind) -> Seq<u8> {
    match k {
        NfcATargetKind::Type2Single { uid, sens_res, sak } => a_layout(uid@, sens_res@, seq![sak]),
        NfcATargetKind::Type4Double { uid, sens_res, sak1, sak2 } => a_layout(uid@, sens_res@, seq![sak1, sak2]),
    }
}

/// The `REG_NFCIP1_PASSIVE_TARGET` byte: `fdel` in the high nibble, the low
/// bits clear (anticollision and automatic responses on).
pub open spec fn fdel_byte(fdel: u8) -> u8 {
    ((fdel & 0x0F) << 4u8) as u8
}

/// The transfers that put the chip in NFC-A target mode.
pub open spec fn nfc_a_plan(a: u8, c: NfcATargetConfig) -> Seq<Step<I2cRequest>> {
    seq![
        (cmd_req(a, CMD_STOP_ALL), true),
        (reg_write_req(a, REG_PASSIVE_TARGET_MOD, mod_byte(c.modulation)), true),
        (I2cRequest::Write(a, seq![MODE_PT_MEM_A_CONFIG] + nfc_a_memory(c.kind).subrange(0, 15)), true),
        (reg_write_req(a, REG_NFCIP1_PASSIVE_TARGET, fdel_byte(c.fdel)), true),
        (reg_write_req(a, REG_MODE_DEFINITION, MODE_TARGET_ISO14443A | MODE_NFC_AR8_AUTO), true),
        (reg_write_req(a, REG_OP_CONTROL, OP_CONTROL_EN | OP_CONTROL_RX_EN), true),
        (cmd_req(a, CMD_GOTO_SENSE), true),
    ]
}

impl NfcATargetConfig {
    /// Type 2 tag profile: default modulation, `fdel` 2.
    pub fn type2(uid: [u8; 4]) -> (c: NfcATargetConfig)
        ensures
            c == (NfcATargetConfig {
                kind: NfcATargetKind::Type2Single { uid, sens_res: [0x44u8, 0x00u8], sak: 0x00 },
                modulation: TargetModulation { ptm_res: 0x07, pt_res: 0x0F },
                fdel: 0x02,
            }),
    {
        NfcATargetConfig {
            kind: NfcATargetKind::type2(uid),
            modulation: TargetModulation { ptm_res: 0x07, pt_res: 0x0F },
            fdel: 0x02,
        }
    }

    /// Type 4A tag profile: default modulation, `fdel` 2.
    pub fn type4a(uid: [u8; 7]) -> (c: NfcATargetConfig)
        ensures
            c == (NfcATargetConfig {
                kind: NfcATargetKind::Type4Double { uid, sens_res: [0x44u8, 0x03u8], sak1: 0x04, sak2: 0x20 },
                modulation: TargetModulation { ptm_res: 0x07, pt_res: 0x0F },
                fdel: 0x02,
            }),
    {
        NfcATargetConfig {
            kind: NfcATargetKind::type4a(uid),
            modulation: TargetModulation { ptm_res: 0x07, pt_res: 0x0F },
            fdel: 0x02,
        }
    }

    /// The passive-target memory for this tag.
    pub fn to_pt_memory(&self) -> (m: PtMemory)
        ensures
            m@ == nfc_a_memory(self.kind),
    {
        match self.kind {
            NfcATargetKind::Type2Single { uid, sens_res, sak } => PtMemory::with_nfc_a_single(uid, sens_res, sak),
            NfcATargetKind::Type4Double { uid, sens_res, sak1, sak2 } => PtMemory::with_nfc_a_double(
                uid,
                sens_res,
                sak1,
                sak2,
            ),
        }
    }
}

impl<B: I2cBus> St25r3916<B> {
    /// Enters NFC-A target mode: stop everything, set the modulation, load
    /// the NFC-A memory, set `fdel`, select ISO 14443-A target mode with
    /// automatic responses, enable the receiver, go to Sense. Stops at the
    /// first failed transfer.
    pub fn configure_target_nfc_a(&mut self, config: &NfcATargetConfig) -> (r: Result<(), B::Error>)
        ensures
            final(self).spec_address() == old(self).spec_address(),
            ran(old(self).events(), final(self).events(), nfc_a_plan(old(self).spec_address(), *config)),
            r is Ok <==> completed(old(self).events(), final(self).events(), nfc_a_plan(old(self).spec_address(), *config)),
    {
        let ghost base = self.events();
        let ghost plan = nfc_a_plan(self.spec_address(), *config);
        proof {
            lemma_start(base, plan);
        }
        if let Err(e) = self.cmd_step(CMD_STOP_ALL, Ghost(base), Ghost(plan)) {
            return Err(e);
        }
        let m = config.modulation.to_byte();
        if let Err(e) = self.reg_write_step(REG_PASSIVE_TARGET_MOD, m, Ghost(base), Ghost(plan)) {
            return Err(e);
        }
        let mem = config.to_pt_memory();
        let ghost log = self.events();
        let r = self.load_pt_memory_a(&mem);
        proof {
            lemma_one_step(base, log, self.events(), plan);
        }
        if let Err(e) = r {
            return Err(e);
        }
        let fdel = (config.fdel & 0x0F) << 4u8;
        if let Err(e) = self.reg_write_step(REG_NFCIP1_PASSIVE_TARGET, fdel, Ghost(base), Ghost(plan)) {
            return Err(e);
        }
        if let Err(e) = self.reg_write_step(
            REG_MODE_DEFINITION,
            MODE_TARGET_ISO14443A | MODE_NFC_AR8_AUTO,
            Ghost(base),
            Ghost(plan),
        ) {
            return Err(e);
        }
        if let Err(e) = self.reg_write_step(REG_OP_CONTROL, OP_CONTROL_EN | OP_CONTROL_RX_EN, Ghost(base), Ghost(plan)) {
            return Err(e);
        }
        self.cmd_step(CMD_GOTO_SENSE, Ghost(base), Ghost(plan))
    }
}

} // verus!
