//! NFCIP-1 (ISO/IEC 18092 peer-to-peer) target.

use vstd::prelude::*;
use crate::bus::{completed, lemma_start, ran, I2cBus, I2cRequest, Step};
use crate::st25r3916::commands::CMD_STOP_ALL;
use crate::st25r3916::registers::{
    MODE_NFC_AR8_AUTO, MODE_TARGET_BITRATE_DETECT, MODE_TARGET_NFCIP1_ACTIVE, OP_CONTROL_EN,
    OP_CONTROL_RX_EN, REG_EXT_FIELD_DETECTOR_ACT, REG_EXT_FIELD_DETECTOR_DEACT, REG_MODE_DEFINITION,
    REG_OP_CONTROL, REG_PASSIVE_TARGET_MOD,
};
use crate::st25r3916::target::{mod_byte, TargetModulation};
use crate::st25r3916::{cmd_req, reg_write_req, St25r3916};

verus! {

/// NFCIP-1 target mode.
#[derive(Debug, Clone, Copy, PartialEq, Eq, Structural)]
pub enum Nfcip1CommunicationMode {
    /// Active communication target.
    Active,
    /// Bit rate detection with NFC-A and FeliCa detection.
    BitRateDetectionAuto,
}

/// The `REG_MODE_DEFINITION` value of a mode, with automatic responses.
pub open spec fn mode_byte(m: Nfcip1CommunicationMode) -> u8 {
    match m {
        Nfcip1CommunicationMode::Active => MODE_TARGET_NFCIP1_ACTIVE | MODE_NFC_AR8_AUTO,
        Nfcip1CommunicationMode::BitRateDetectionAuto => MODE_TARGET_BITRATE_DETECT | 0x28 | MODE_NFC_AR8_AUTO,
    }
}

impl Nfcip1CommunicationMode {
    /// The mode definition byte.
    pub fn to_mode_byte(&self) -> (b: u8)
        ensures
            b == mode_byte(*self),
    {
        match self {
            Nfcip1CommunicationMode::Active => MODE_TARGET_NFCIP1_ACTIVE | MODE_NFC_AR8_AUTO,
            Nfcip1CommunicationMode::BitRateDetectionAuto => MODE_TARGET_BITRATE_DETECT | 0x28 | MODE_NFC_AR8_AUTO,
        }
    }
}

/// An NFCIP-1 target profile.
#[derive(Debug, Clone, Copy, PartialEq, Eq, Structural)]
pub struct Nfcip1TargetConfig {
    /// Target mode.
    pub mode: Nfcip1CommunicationMode,
    /// External field detector activation threshold.
    pub act_threshold: u8,
    /// External field detector deactivation threshold.
    pub deact_threshold: u8,
    /// Load modulation.
    pub modulation: TargetModulation,
}

/// A profile for `mode` with the standard thresholds (`13`, `02`) and
/// default modulation.
pub open spec fn standard_profile(mode: Nfcip1CommunicationMode) -> Nfcip1TargetConfig {
    Nfcip1TargetConfig {
        mode,
        act_threshold: 0x13,
        deact_threshold: 0x02,
        modulation: TargetModulation { ptm_res: 0x07, pt_res: 0x0F },
    }
}

impl Default for Nfcip1TargetConfig {
    fn default() -> (c: Nfcip1TargetConfig)
        ensures
            c == standard_profile(Nfcip1CommunicationMode::Active),
    {
        Nfcip1TargetConfig::active()
    }
}

/// The transfers that put the chip in NFCIP-1 target mode.
pub open spec fn nfcip1_plan(a: u8, c: Nfcip1TargetConfig) -> Seq<Step<I2cRequest>> {
    seq![
        (cmd_req(a, CMD_STOP_ALL), true),
        (reg_write_req(a, REG_PASSIVE_TARGET_MOD, mod_byte(c.modulation)), true),
        (reg_write_req(a, REG_EXT_FIELD_DETECTOR_ACT, c.act_threshold), true),
        (reg_write_req(a, REG_EXT_FIELD_DETECTOR_DEACT, c.deact_threshold), true),
        (reg_write_req(a, REG_MODE_DEFINITION, mode_byte(c.mode)), true),
        (reg_write_req(a, REG_OP_CONTROL, OP_CONTROL_EN | OP_CONTROL_RX_EN | 0x03), true),
    ]
}

impl Nfcip1TargetConfig {
    /// Active peer-to-peer target profile.
    pub fn active() -> (c: Nfcip1TargetConfig)
        ensures
            c == standard_profile(Nfcip1CommunicationMode::Active),
    {
        Nfcip1TargetConfig {
            mode: Nfcip1CommunicationMode::Active,
            act_threshold: 0x13,
            deact_threshold: 0x02,
            modulation: TargetModulation { ptm_res: 0x07, pt_res: 0x0F },
        }
    }

    /// Bit rate detection target profile.
    pub fn bit_rate_detection() -> (c: Nfcip1TargetConfig)
        ensures
            c == standard_profile(Nfcip1CommunicationMode::BitRateDetectionAuto),
    {
        Nfcip1TargetConfig {
            mode: Nfcip1CommunicationMode::BitRateDetectionAuto,
            act_threshold: 0x13,
            deact_threshold: 0x02,
            modulation: TargetModulation { ptm_res: 0x07, pt_res: 0x0F },
        }
    }
}

impl<B: I2cBus> St25r3916<B> {
    /// Enters NFCIP-1 target mode: stop everything, set the modulation and
    /// the field detector thresholds, select the mode, enable the chip,
    /// receiver and automatic field detector. Stops at the first failed
    /// transfer.
    pub fn configure_target_nfcip1(&mut self, config: &Nfcip1TargetConfig) -> (r: Result<(), B::Error>)
        ensures
            final(self).spec_address() == old(self).spec_address(),
            ran(old(self).events(), final(self).events(), nfcip1_plan(old(self).spec_address(), *config)),
            r is Ok <==> completed(old(self).events(), final(self).events(), nfcip1_plan(old(self).spec_address(), *config)),
    {
        let ghost base = self.events();
        let ghost plan = nfcip1_plan(self.spec_address(), *config);
        proof {
            lemma_start(base, plan);
        }
        if let Err(e) = self.cmd_step(CMD_STOP_ALL, Ghost(base), Ghost(plan)) {
            return Err(e);
        }
        let m = config.modulation.to_byte();
        if let Err(e) = self.reg_write_step(REG_PASSIVE_TARGET_MOD, m, Ghost(base), Ghost(plan)) {
            return Err(e);
        }
        if let Err(e) = self.reg_write_step(REG_EXT_FIELD_DETECTOR_ACT, config.act_threshold, Ghost(base), Ghost(plan)) {
            return Err(e);
        }
        if let Err(e) = self.reg_write_step(REG_EXT_FIELD_DETECTOR_DEACT, config.deact_threshold, Ghost(base), Ghost(plan)) {
            return Err(e);
        }
        let mode = config.mode.to_mode_byte();
        if let Err(e) = self.reg_write_step(REG_MODE_DEFINITION, mode, Ghost(base), Ghost(plan)) {
            return Err(e);
        }
        self.reg_write_step(REG_OP_CONTROL, OP_CONTROL_EN | OP_CONTROL_RX_EN | 0x03, Ghost(base), Ghost(plan))
    }
}

} // verus!
