//! Hardware model identification and board feature profile.

use vstd::prelude::*;

verus! {

/// Commercial hardware models of the PaperMono line.
#[derive(Debug, Clone, Copy, PartialEq, Eq, Structural, PartialOrd, Ord, Hash)]
pub enum BoardModel {
    /// Standard PaperMono (`C153`) with ST25R3916 NFC and Stamp LoRa-1262.
    PaperMono,
    /// PaperMono-Lite (`C153-Lite`) without NFC and LoRa.
    PaperMonoLite,
}

/// Store SKU of a model.
pub open spec fn model_sku(m: BoardModel) -> &'static str {
    match m {
        BoardModel::PaperMono => "C153",
        BoardModel::PaperMonoLite => "C153-Lite",
    }
}

/// Product name of a model.
pub open spec fn model_name(m: BoardModel) -> &'static str {
    match m {
        BoardModel::PaperMono => "PaperMono",
        BoardModel::PaperMonoLite => "PaperMono-Lite",
    }
}

/// Integer code of a model (1 = Lite, 2 = full).
pub open spec fn model_code(m: BoardModel) -> u8 {
    match m {
        BoardModel::PaperMonoLite => 1,
        BoardModel::PaperMono => 2,
    }
}

impl BoardModel {
    /// Store SKU string (`C153` or `C153-Lite`).
    pub fn sku(&self) -> (s: &'static str)
        ensures
            s == model_sku(*self),
    {
        match self {
            BoardModel::PaperMono => "C153",
            BoardModel::PaperMonoLite => "C153-Lite",
        }
    }

    /// Product name (`PaperMono` or `PaperMono-Lite`).
    pub fn name(&self) -> (s: &'static str)
        ensures
            s == model_name(*self),
    {
        match self {
            BoardModel::PaperMono => "PaperMono",
            BoardModel::PaperMonoLite => "PaperMono-Lite",
        }
    }

    /// Whether the model populates the ST25R3916 NFC transceiver.
    pub fn has_nfc(&self) -> (b: bool)
        ensures
            b <==> *self == BoardModel::PaperMono,
    {
        matches!(self, BoardModel::PaperMono)
    }

    /// Whether the model populates the Stamp LoRa-1262 transceiver.
    pub fn has_lora(&self) -> (b: bool)
        ensures
            b <==> *self == BoardModel::PaperMono,
    {
        matches!(self, BoardModel::PaperMono)
    }

    /// Whether the model populates the optional radios (NFC and LoRa).
    pub fn has_radios(&self) -> (b: bool)
        ensures
            b <==> *self == BoardModel::PaperMono,
    {
        matches!(self, BoardModel::PaperMono)
    }

    /// Decodes an integer code (1 = Lite, 2 = full); any other is `None`.
    pub fn from_u8(val: u8) -> (m: Option<BoardModel>)
        ensures
            m == (if val == 1 {
                Some(BoardModel::PaperMonoLite)
            } else if val == 2 {
                Some(BoardModel::PaperMono)
            } else {
                None
            }),
    {
        match val {
            1 => Some(BoardModel::PaperMonoLite),
            2 => Some(BoardModel::PaperMono),
            _ => None,
        }
    }

    /// Encodes the model as its integer code.
    pub fn to_u8(self) -> (v: u8)
        ensures
            v == model_code(self),
    {
        match self {
            BoardModel::PaperMonoLite => 1,
            BoardModel::PaperMono => 2,
        }
    }
}

/// Decoding the code of a model gives the model back, and a code decodes
/// only when it is the code of some model.
pub proof fn law_model_code_roundtrip(m: BoardModel, v: u8)
    ensures
        model_code(m) == 1 || model_code(m) == 2,
        (v == 1 || v == 2) <==> exists|k: BoardModel| model_code(k) == v,
{
    if v == 1 {
        assert(model_code(BoardModel::PaperMonoLite) == v);
    } else if v == 2 {
        assert(model_code(BoardModel::PaperMono) == v);
    }
}

} // verus!
