//! The board model found at start-up, kept as its one-byte code.

use vstd::prelude::*;
use crate::lite::profile::{model_code, BoardModel};

verus! {

/// The detected board model, as [`BoardModel::to_u8`] encodes it (0 before
/// detection).
pub struct BoardSelect {
    /// Model code, or 0.
    pub detected: u8,
}

/// The model that the code `c` reads back as: the Lite board when the code
/// is not a model's.
pub open spec fn model_of(c: u8) -> BoardModel {
    if c == 2 { BoardModel::PaperMono } else { BoardModel::PaperMonoLite }
}

impl BoardSelect {
    /// Nothing detected yet.
    pub fn new() -> (b: BoardSelect)
        ensures
            b.detected == 0,
    {
        BoardSelect { detected: 0 }
    }

    /// Records the model found at start-up.
    pub fn set_model(&mut self, model: BoardModel)
        ensures
            final(self).detected == model_code(model),
    {
        self.detected = model.to_u8();
    }

    /// The detected model; the Lite board when none was recorded.
    pub fn model(&self) -> (m: BoardModel)
        ensures
            m == model_of(self.detected),
    {
        match BoardModel::from_u8(self.detected) {
            Some(m) => m,
            None => BoardModel::PaperMonoLite,
        }
    }
}

/// The model read back is the model recorded.
pub proof fn law_model_read_back(model: BoardModel)
    ensures
        model_of(model_code(model)) == model,
{
}

} // verus!
