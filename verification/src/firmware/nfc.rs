//! What the NFC card shows: the registers that the poll task fills and how
//! the card state is read back from them.

use vstd::prelude::*;
use crate::st25r3916::initiator::Iso14443aCard;

verus! {

/// What the NFC card shows.
#[derive(Debug, Clone, Copy, PartialEq, Eq)]
pub enum NfcCardState {
    /// No NFC controller on this board.
    Unpopulated,
    /// Controller found, ready for a poll.
    Idle,
    /// A tag answered the last poll.
    Detected(Iso14443aCard),
    /// The last poll found no tag.
    NoTag,
}

/// Registers that the poll task writes and the UI reads: a state code
/// (0 unpopulated, 1 idle, 2 detected, 3 no tag) and the last tag seen.
pub struct NfcShared {
    /// Which state the card is in.
    pub state_code: u8,
    /// `init_status` ran.
    pub initialized: bool,
    /// ATQA of the last tag, first byte low.
    pub atqa_raw: u16,
    /// SAK of the last tag.
    pub sak: u8,
    /// UID length of the last tag.
    pub uid_len: u8,
    /// UID bytes of the last tag.
    pub uid: [u8; 10],
}

/// The tag that the stored registers read back as.
pub open spec fn stored_card(m: NfcShared) -> Iso14443aCard {
    Iso14443aCard {
        atqa: [(m.atqa_raw & 0xff) as u8, (m.atqa_raw >> 8) as u8],
        sak: m.sak,
        uid_len: m.uid_len as usize,
        uid: m.uid,
    }
}

/// The card state that the registers `m` read back as. Before
/// `init_status` the controller is assumed present and idle.
pub open spec fn spec_nfc_state(m: NfcShared) -> NfcCardState {
    if !m.initialized {
        NfcCardState::Idle
    } else if m.state_code == 0 {
        NfcCardState::Unpopulated
    } else if m.state_code == 1 {
        NfcCardState::Idle
    } else if m.state_code == 2 {
        NfcCardState::Detected(stored_card(m))
    } else {
        NfcCardState::NoTag
    }
}

/// The ATQA word: first byte low, second byte high.
pub open spec fn atqa_word(atqa: [u8; 2]) -> u16 {
    (atqa[0] as u16) | ((atqa[1] as u16) << 8u16)
}

impl NfcShared {
    /// Boot registers: every register zero, nothing recorded.
    pub fn new() -> (m: NfcShared)
        ensures
            !m.initialized,
            m.state_code == 0,
            m.atqa_raw == 0,
            m.sak == 0,
            m.uid_len == 0,
            m.uid@ == seq![0u8, 0u8, 0u8, 0u8, 0u8, 0u8, 0u8, 0u8, 0u8, 0u8],
            spec_nfc_state(m) == NfcCardState::Idle,
    {
        NfcShared { state_code: 0, initialized: false, atqa_raw: 0, sak: 0, uid_len: 0, uid: [0u8; 10] }
    }

    /// Records whether the controller answered at bring-up.
    pub fn init_status(&mut self, has_nfc: bool)
        ensures
            final(self).initialized,
            final(self).state_code == (if has_nfc { 1u8 } else { 0u8 }),
            spec_nfc_state(*final(self)) == (if has_nfc {
                NfcCardState::Idle
            } else {
                NfcCardState::Unpopulated
            }),
    {
        self.state_code = if has_nfc { 1 } else { 0 };
        self.initialized = true;
    }

    /// What the card shows now.
    pub fn card_state(&self) -> (s: NfcCardState)
        ensures
            s == spec_nfc_state(*self),
    {
        if !self.initialized {
            return NfcCardState::Idle;
        }
        match self.state_code {
            0 => NfcCardState::Unpopulated,
            1 => NfcCardState::Idle,
            2 => NfcCardState::Detected(
                Iso14443aCard {
                    atqa: [(self.atqa_raw & 0xff) as u8, (self.atqa_raw >> 8) as u8],
                    sak: self.sak,
                    uid_len: self.uid_len as usize,
                    uid: self.uid,
                },
            ),
            _ => NfcCardState::NoTag,
        }
    }

    /// Records a tag that answered a poll.
    pub fn store_detected(&mut self, card: &Iso14443aCard)
        ensures
            final(self).state_code == 2,
            final(self).initialized == old(self).initialized,
            final(self).atqa_raw == atqa_word(card.atqa),
            final(self).sak == card.sak,
            final(self).uid_len == card.uid_len as u8,
            final(self).uid == card.uid,
    {
        self.atqa_raw = (card.atqa[0] as u16) | ((card.atqa[1] as u16) << 8u16);
        self.sak = card.sak;
        #[verifier::truncate]
        let len: u8 = card.uid_len as u8;
        self.uid_len = len;
        self.uid = card.uid;
        self.state_code = 2;
    }

    /// The last poll found no tag.
    pub fn set_no_tag(&mut self)
        ensures
            final(self).state_code == 3,
            final(self).initialized == old(self).initialized,
            old(self).initialized ==> spec_nfc_state(*final(self)) == NfcCardState::NoTag,
    {
        self.state_code = 3;
    }
}

/// Once a tag is recorded, the card shows that very tag (a UID length
/// beyond a byte does not survive the store).
pub proof fn law_detected_read_back(m: NfcShared, card: Iso14443aCard)
    requires
        card.uid_len <= 255,
        m.initialized,
        m.state_code == 2,
        m.atqa_raw == atqa_word(card.atqa),
        m.sak == card.sak,
        m.uid_len == card.uid_len as u8,
        m.uid == card.uid,
    ensures
        spec_nfc_state(m) == NfcCardState::Detected(card),
{
    let a0 = card.atqa[0];
    let a1 = card.atqa[1];
    let w = m.atqa_raw;
    assert(((w & 0xff) as u8) == a0 && ((w >> 8) as u8) == a1) by (bit_vector)
        requires
            w == (a0 as u16) | ((a1 as u16) << 8u16),
    ;
    assert(stored_card(m).atqa =~= card.atqa);
}

} // verus!
