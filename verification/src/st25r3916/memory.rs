//! Passive target memory (PT_Memory) layout and the chunks the loader
//! commands send (DS12484 Rev 8, section 2.2.17 Table 7).

use vstd::prelude::*;

verus! {

/// Total size of PT_Memory in bytes.
pub const PT_MEMORY_SIZE: usize = 48;
/// Start of the NFC-A configuration area.
pub const A_CONFIG_OFFSET: usize = 0;
/// Length of the NFC-A configuration area.
pub const A_CONFIG_LEN: usize = 15;
/// Start of the NFC-F configuration area.
pub const F_CONFIG_OFFSET: usize = 15;
/// Length of the NFC-F configuration area.
pub const F_CONFIG_LEN: usize = 21;
/// Start of the TSN area.
pub const TSN_OFFSET: usize = 36;
/// Length of the TSN area.
pub const TSN_LEN: usize = 12;
/// SENSF_RES byte 1 (always `0x01`).
pub const SENSF_RES_BYTE1: u8 = 0x01;

/// NFC-F (FeliCa) target parameters for the F-config area.
#[derive(Debug, Clone, Copy, PartialEq, Eq)]
pub struct NfcFParams {
    /// System code (2 bytes).
    pub system_code: [u8; 2],
    /// NFCID2 (8 bytes).
    pub nfcid2: [u8; 8],
    /// PAD0 (2 bytes).
    pub pad0: [u8; 2],
    /// PAD1 (3 bytes).
    pub pad1: [u8; 3],
    /// MRTI check.
    pub mrti_check: u8,
    /// MRTI update.
    pub mrti_update: u8,
    /// PAD2.
    pub pad2: u8,
}

impl Default for NfcFParams {
    /// Wildcard system code `FFFF`, NFCID2 `02 FE 00..`, zero padding.
    fn default() -> (p: Self)
        ensures
            p.system_code@ == seq![0xFFu8, 0xFF],
            p.nfcid2@ == seq![0x02u8, 0xFE, 0, 0, 0, 0, 0, 0],
            p.pad0@ == seq![0u8, 0],
            p.pad1@ == seq![0u8, 0, 0],
            p.mrti_check == 0,
            p.mrti_update == 0,
            p.pad2 == 0,
    {
        NfcFParams {
            system_code: [0xFF, 0xFF],
            nfcid2: [0x02, 0xFE, 0, 0, 0, 0, 0, 0],
            pad0: [0x00, 0x00],
            pad1: [0x00, 0x00, 0x00],
            mrti_check: 0x00,
            mrti_update: 0x00,
            pad2: 0x00,
        }
    }
}

/// The 21 bytes of the F-config area for `p`: system code, SENSF_RES
/// byte 1, NFCID2, PAD0, PAD1, MRTI check, MRTI update, PAD2 and two RFU
/// zero bytes.
pub open spec fn f_block(p: NfcFParams) -> Seq<u8> {
    p.system_code@ + seq![SENSF_RES_BYTE1] + p.nfcid2@ + p.pad0@ + p.pad1@ + seq![
        p.mrti_check,
        p.mrti_update,
        p.pad2,
        0u8,
        0u8,
    ]
}

/// Local copy of the 48-byte passive target memory.
#[derive(Debug, Clone, Copy, PartialEq, Eq)]
pub struct PtMemory {
    bytes: [u8; 48],
}

impl View for PtMemory {
    type V = Seq<u8>;

    closed spec fn view(&self) -> Seq<u8> {
        self.bytes@
    }
}

/// 48 bytes with `uid` at 0, `sens_res` at 10..12, the SAK bytes at 12
/// (and 13), zero elsewhere.
pub open spec fn a_layout(uid: Seq<u8>, sens_res: Seq<u8>, saks: Seq<u8>) -> Seq<u8> {
    Seq::new(
        48,
        |i: int|
            if i < uid.len() {
                uid[i]
            } else if i == 10 || i == 11 {
                sens_res[i - 10]
            } else if 12 <= i < 12 + saks.len() {
                saks[i - 12]
            } else {
                0u8
            },
    )
}

impl PtMemory {
    /// The memory is always exactly 48 bytes.
    pub proof fn lemma_len(&self)
        ensures
            self@.len() == 48,
    {
    }

    /// All-zero memory.
    pub fn new() -> (m: Self)
        ensures
            m@ == Seq::new(48, |i: int| 0u8),
    {
        PtMemory { bytes: [0u8; 48] }
    }

    /// Single-size (4-byte UID) NFC-A layout.
    pub fn with_nfc_a_single(uid: [u8; 4], sens_res: [u8; 2], sak: u8) -> (m: Self)
        ensures
            m@ == a_layout(uid@, sens_res@, seq![sak]),
    {
        let mut mem = Self::new();
        mem.bytes[0] = uid[0];
        mem.bytes[1] = uid[1];
        mem.bytes[2] = uid[2];
        mem.bytes[3] = uid[3];
        mem.bytes[10] = sens_res[0];
        mem.bytes[11] = sens_res[1];
        mem.bytes[12] = sak;
        assert(mem@ =~= a_layout(uid@, sens_res@, seq![sak]));
        mem
    }

    /// Double-size (7-byte UID) NFC-A layout with both SAK bytes.
    pub fn with_nfc_a_double(uid: [u8; 7], sens_res: [u8; 2], sak1: u8, sak2: u8) -> (m: Self)
        ensures
            m@ == a_layout(uid@, sens_res@, seq![sak1, sak2]),
    {
        let mut mem = Self::new();
        mem.bytes[0] = uid[0];
        mem.bytes[1] = uid[1];
        mem.bytes[2] = uid[2];
        mem.bytes[3] = uid[3];
        mem.bytes[4] = uid[4];
        mem.bytes[5] = uid[5];
        mem.bytes[6] = uid[6];
        mem.bytes[10] = sens_res[0];
        mem.bytes[11] = sens_res[1];
        mem.bytes[12] = sak1;
        mem.bytes[13] = sak2;
        assert(mem@ =~= a_layout(uid@, sens_res@, seq![sak1, sak2]));
        mem
    }

    /// Fills the NFC-F configuration area (bytes 15..36) from `params`;
    /// every other byte is kept.
    pub fn with_nfc_f(self, params: &NfcFParams) -> (m: Self)
        ensures
            m@ == self@.subrange(0, 15) + f_block(*params) + self@.subrange(36, 48),
    {
        let mut s = self;
        s.bytes[15] = params.system_code[0];
        s.bytes[16] = params.system_code[1];
        s.bytes[17] = SENSF_RES_BYTE1;
        s.bytes[18] = params.nfcid2[0];
        s.bytes[19] = params.nfcid2[1];
        s.bytes[20] = params.nfcid2[2];
        s.bytes[21] = params.nfcid2[3];
        s.bytes[22] = params.nfcid2[4];
        s.bytes[23] = params.nfcid2[5];
        s.bytes[24] = params.nfcid2[6];
        s.bytes[25] = params.nfcid2[7];
        s.bytes[26] = params.pad0[0];
        s.bytes[27] = params.pad0[1];
        s.bytes[28] = params.pad1[0];
        s.bytes[29] = params.pad1[1];
        s.bytes[30] = params.pad1[2];
        s.bytes[31] = params.mrti_check;
        s.bytes[32] = params.mrti_update;
        s.bytes[33] = params.pad2;
        s.bytes[34] = 0x00;
        s.bytes[35] = 0x00;
        assert(s@ =~= self@.subrange(0, 15) + f_block(*params) + self@.subrange(36, 48));
        s
    }

    /// Fills the TSN area (bytes 36..48); every other byte is kept.
    pub fn with_tsn(self, tsn_slots: [u8; 12]) -> (m: Self)
        ensures
            m@ == self@.subrange(0, 36) + tsn_slots@,
    {
        let mut s = self;
        let mut i: usize = 0;
        while i < TSN_LEN
            invariant
                i <= 12,
                s@.len() == 48,
                forall|k: int| 0 <= k < 36 ==> s@[k] == self@[k],
                forall|k: int| 36 <= k < 36 + i ==> s@[k] == tsn_slots@[k - 36],
            decreases 12 - i,
        {
            s.bytes[TSN_OFFSET + i] = tsn_slots[i];
            i += 1;
        }
        assert(s@ =~= self@.subrange(0, 36) + tsn_slots@);
        s
    }

    /// All 48 bytes.
    pub fn as_bytes(&self) -> (b: &[u8; 48])
        ensures
            b@ == self@,
    {
        &self.bytes
    }

    /// The NFC-A configuration area (bytes 0..15).
    pub fn a_config(&self) -> (s: &[u8])
        ensures
            s@ == self@.subrange(0, 15),
    {
        vstd::slice::slice_subrange(self.bytes.as_slice(), A_CONFIG_OFFSET, A_CONFIG_OFFSET + A_CONFIG_LEN)
    }

    /// The NFC-F configuration area (bytes 15..36).
    pub fn f_config(&self) -> (s: &[u8])
        ensures
            s@ == self@.subrange(15, 36),
    {
        vstd::slice::slice_subrange(self.bytes.as_slice(), F_CONFIG_OFFSET, F_CONFIG_OFFSET + F_CONFIG_LEN)
    }

    /// The TSN area (bytes 36..48).
    pub fn tsn(&self) -> (s: &[u8])
        ensures
            s@ == self@.subrange(36, 48),
    {
        vstd::slice::slice_subrange(self.bytes.as_slice(), TSN_OFFSET, TSN_OFFSET + TSN_LEN)
    }
}

impl Default for PtMemory {
    /// All-zero memory, as [`PtMemory::new`].
    fn default() -> (m: Self)
        ensures
            m@ == Seq::new(48, |i: int| 0u8),
    {
        Self::new()
    }
}

} // verus!
