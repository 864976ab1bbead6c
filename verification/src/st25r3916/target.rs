//! Target (card emulation / listener) mode: load modulation, the passive
//! target interrupts and state, the sense and sleep commands, and the
//! NFC-A, NFC-F and NFCIP-1 target profiles.

use vstd::prelude::*;
use crate::bus::{lemma_step, on_track, stopped, I2cBus, I2cLog, I2cRequest, Step};
use crate::st25r3916::commands::{CMD_GOTO_SENSE, CMD_GOTO_SLEEP};
use crate::st25r3916::registers::{
    spec_pta_state, PtaState, REG_PASSIVE_TARGET_MOD, REG_TARGET_DISPLAY, REG_TARGET_IRQ, TARGET_IRQ_APON,
    TARGET_IRQ_PPON2, TARGET_IRQ_RXE_PTA, TARGET_IRQ_SL_WL, TARGET_IRQ_WU_A, TARGET_IRQ_WU_A_STAR,
    TARGET_IRQ_WU_F,
};
use crate::st25r3916::{cmd_req, one_event, reg_read_req, reg_write_req, St25r3916};

pub mod nfc_a;
pub mod nfc_f;
pub mod nfcip1;

pub use nfc_a::{NfcATargetConfig, NfcATargetKind};
pub use nfc_f::{NfcFBitRate, NfcFTargetConfig};
pub use nfcip1::{Nfcip1CommunicationMode, Nfcip1TargetConfig};

verus! {

/// Driver resistances of passive load modulation (`REG_PASSIVE_TARGET_MOD`):
/// four bits each, modulated and unmodulated state.
#[derive(Debug, Clone, Copy, PartialEq, Eq, Structural)]
pub struct TargetModulation {
    /// Resistance while modulating (`ptm_res`, 0..15; 7 is 32 Ω).
    pub ptm_res: u8,
    /// Resistance while not modulating (`pt_res`, 0..15; 15 is high Z).
    pub pt_res: u8,
}

impl Default for TargetModulation {
    fn default() -> (m: TargetModulation)
        ensures
            m == (TargetModulation { ptm_res: 0x07, pt_res: 0x0F }),
    {
        TargetModulation { ptm_res: 0x07, pt_res: 0x0F }
    }
}

/// The register byte of a modulation: `ptm_res` in the high nibble,
/// `pt_res` in the low one (each cut to four bits).
pub open spec fn mod_byte(m: TargetModulation) -> u8 {
    (((m.ptm_res & 0x0F) << 4u8) | (m.pt_res & 0x0F)) as u8
}

impl TargetModulation {
    /// The byte for `REG_PASSIVE_TARGET_MOD`.
    pub fn to_byte(&self) -> (b: u8)
        ensures
            b == mod_byte(*self),
    {
        ((self.ptm_res & 0x0F) << 4u8) | (self.pt_res & 0x0F)
    }

    /// Splits a `REG_PASSIVE_TARGET_MOD` byte into its two resistances.
    pub fn from_byte(b: u8) -> (m: TargetModulation)
        ensures
            m == (TargetModulation { ptm_res: (b >> 4u8) & 0x0F, pt_res: b & 0x0F }),
    {
        TargetModulation { ptm_res: (b >> 4u8) & 0x0F, pt_res: b & 0x0F }
    }
}

/// Encoding a modulation and reading it back gives it again when both
/// resistances fit four bits; decoding a byte and encoding it gives the
/// byte.
pub proof fn law_modulation_round_trip(m: TargetModulation, b: u8)
    requires
        m.ptm_res < 16,
        m.pt_res < 16,
    ensures
        ((mod_byte(m) >> 4u8) & 0x0F) == m.ptm_res && (mod_byte(m) & 0x0F) == m.pt_res,
        mod_byte(TargetModulation { ptm_res: (b >> 4u8) & 0x0F, pt_res: b & 0x0F }) == b,
{
    let p = m.ptm_res;
    let q = m.pt_res;
    assert(((((p & 0x0F) << 4u8) | (q & 0x0F)) >> 4u8) & 0x0F == p && ((((p & 0x0F) << 4u8) | (q & 0x0F))
        & 0x0F) == q) by (bit_vector)
        requires
            p < 16,
            q < 16,
    ;
    assert(((((b >> 4u8) & 0x0F) & 0x0F) << 4u8) | ((b & 0x0F) & 0x0F) == b) by (bit_vector);
}

/// The passive target interrupts (`REG_TARGET_IRQ`).
#[derive(Debug, Clone, Copy, PartialEq, Eq, Structural)]
pub struct TargetInterrupts {
    /// 106 kbit/s activation done (`I_wu_a`).
    pub wu_a: bool,
    /// 212/424 kbit/s activation done (`I_wu_a*`).
    pub wu_a_star: bool,
    /// FeliCa automatic SENSF_RES sent (`I_wu_f`).
    pub wu_f: bool,
    /// End of receive with automatic response sent (`I_rxe_pta`).
    pub rxe_pta: bool,
    /// Active P2P field on without collision (`I_apon`).
    pub apon: bool,
    /// Four unused TSN slots left (`I_sl_wl`).
    pub sl_wl: bool,
    /// PPON2 wait expired (`I_ppon2`).
    pub ppon2: bool,
}

impl Default for TargetInterrupts {
    fn default() -> (t: TargetInterrupts)
        ensures
            t == spec_target_irqs(0),
    {
        assert(0u8 & TARGET_IRQ_WU_A == 0 && 0u8 & TARGET_IRQ_WU_A_STAR == 0 && 0u8 & TARGET_IRQ_WU_F == 0
            && 0u8 & TARGET_IRQ_RXE_PTA == 0 && 0u8 & TARGET_IRQ_APON == 0 && 0u8 & TARGET_IRQ_SL_WL == 0
            && 0u8 & TARGET_IRQ_PPON2 == 0) by (bit_vector);
        TargetInterrupts {
            wu_a: false,
            wu_a_star: false,
            wu_f: false,
            rxe_pta: false,
            apon: false,
            sl_wl: false,
            ppon2: false,
        }
    }
}

/// The interrupts a `REG_TARGET_IRQ` byte flags.
pub open spec fn spec_target_irqs(b: u8) -> TargetInterrupts {
    TargetInterrupts {
        wu_a: b & TARGET_IRQ_WU_A != 0,
        wu_a_star: b & TARGET_IRQ_WU_A_STAR != 0,
        wu_f: b & TARGET_IRQ_WU_F != 0,
        rxe_pta: b & TARGET_IRQ_RXE_PTA != 0,
        apon: b & TARGET_IRQ_APON != 0,
        sl_wl: b & TARGET_IRQ_SL_WL != 0,
        ppon2: b & TARGET_IRQ_PPON2 != 0,
    }
}

impl TargetInterrupts {
    /// Decodes a `REG_TARGET_IRQ` byte.
    pub fn from_byte(b: u8) -> (t: TargetInterrupts)
        ensures
            t == spec_target_irqs(b),
    {
        TargetInterrupts {
            wu_a: b & TARGET_IRQ_WU_A != 0,
            wu_a_star: b & TARGET_IRQ_WU_A_STAR != 0,
            wu_f: b & TARGET_IRQ_WU_F != 0,
            rxe_pta: b & TARGET_IRQ_RXE_PTA != 0,
            apon: b & TARGET_IRQ_APON != 0,
            sl_wl: b & TARGET_IRQ_SL_WL != 0,
            ppon2: b & TARGET_IRQ_PPON2 != 0,
        }
    }
}

/// One required single-transfer operation as the next step of a plan.
pub(crate) proof fn lemma_one_step(base: I2cLog, log: I2cLog, fin: I2cLog, plan: Seq<Step<I2cRequest>>)
    requires
        on_track(base, log, plan),
        log.len() < base.len() + plan.len(),
        one_event(log, fin, plan[log.len() - base.len()].0, fin.last().ok),
        plan[log.len() - base.len()].1,
    ensures
        fin.last().ok ==> on_track(base, fin, plan),
        !fin.last().ok ==> stopped(base, fin, plan),
{
    assert(fin =~= log.push(fin.last()));
    lemma_step(base, log, plan, fin.last());
}

impl<B: I2cBus> St25r3916<B> {
    /// Writes the load-modulation resistances to `REG_PASSIVE_TARGET_MOD`.
    pub fn set_target_modulation(&mut self, modulation: TargetModulation) -> (r: Result<(), B::Error>)
        ensures
            final(self).spec_address() == old(self).spec_address(),
            one_event(
                old(self).events(),
                final(self).events(),
                reg_write_req(old(self).spec_address(), REG_PASSIVE_TARGET_MOD, mod_byte(modulation)),
                r is Ok,
            ),
    {
        self.write_reg(REG_PASSIVE_TARGET_MOD, modulation.to_byte())
    }

    /// Reads (and so clears) the passive target interrupts.
    pub fn read_target_interrupts(&mut self) -> (r: Result<TargetInterrupts, B::Error>)
        ensures
            final(self).spec_address() == old(self).spec_address(),
            one_event(old(self).events(), final(self).events(), reg_read_req(old(self).spec_address(), REG_TARGET_IRQ), r is Ok),
            r matches Ok(t) ==> final(self).events().last().data.len() == 1 && t == spec_target_irqs(
                final(self).events().last().data[0],
            ),
    {
        match self.read_reg(REG_TARGET_IRQ) {
            Ok(b) => Ok(TargetInterrupts::from_byte(b)),
            Err(e) => Err(e),
        }
    }

    /// Reads the passive target state from `REG_TARGET_DISPLAY`.
    pub fn read_target_state(&mut self) -> (r: Result<PtaState, B::Error>)
        ensures
            final(self).spec_address() == old(self).spec_address(),
            one_event(old(self).events(), final(self).events(), reg_read_req(old(self).spec_address(), REG_TARGET_DISPLAY), r is Ok),
            r matches Ok(s) ==> final(self).events().last().data.len() == 1 && s == spec_pta_state(
                final(self).events().last().data[0],
            ),
    {
        match self.read_reg(REG_TARGET_DISPLAY) {
            Ok(b) => Ok(PtaState::from_nibble(b)),
            Err(e) => Err(e),
        }
    }

    /// Puts the passive target logic in Sense (idle) state.
    pub fn target_goto_sense(&mut self) -> (r: Result<(), B::Error>)
        ensures
            final(self).spec_address() == old(self).spec_address(),
            one_event(old(self).events(), final(self).events(), cmd_req(old(self).spec_address(), CMD_GOTO_SENSE), r is Ok),
    {
        self.direct_cmd(CMD_GOTO_SENSE)
    }

    /// Puts the passive target logic in Sleep (halt) state.
    pub fn target_goto_sleep(&mut self) -> (r: Result<(), B::Error>)
        ensures
            final(self).spec_address() == old(self).spec_address(),
            one_event(old(self).events(), final(self).events(), cmd_req(old(self).spec_address(), CMD_GOTO_SLEEP), r is Ok),
    {
        self.direct_cmd(CMD_GOTO_SLEEP)
    }
}

} // verus!
