//! ISO/IEC 7816-4 APDU decoding and the NFC Forum Type 4 Tag application.
//!
//! ISO/IEC 7816-4; NFC Forum Type 4 Tag Technical Specification (T4T 2.0).

use vstd::prelude::*;
use crate::st25r3916::ndef::written_front;

verus! {

/// Type 4 Tag NDEF application identifier (`D2760000850101h`).
pub const AID_NDEF_V2: [u8; 7] = [0xD2, 0x76, 0x00, 0x00, 0x85, 0x01, 0x01];
/// Capability Container (CC) File ID (`0xE103h`).
pub const FILE_ID_CC: [u8; 2] = [0xE1, 0x03];
/// NDEF File ID (`0xE104h`).
pub const FILE_ID_NDEF: [u8; 2] = [0xE1, 0x04];
/// ISO 7816-4 Instruction: Select File / Application.
pub const INS_SELECT: u8 = 0xA4;
/// ISO 7816-4 Instruction: Read Binary.
pub const INS_READ_BINARY: u8 = 0xB0;
/// ISO 7816-4 Instruction: Update Binary.
pub const INS_UPDATE_BINARY: u8 = 0xD6;
/// Status Word: Success (`0x9000`).
pub const SW_SUCCESS: (u8, u8) = (0x90, 0x00);
/// Status Word: File Not Found (`0x6A82`).
pub const SW_FILE_NOT_FOUND: (u8, u8) = (0x6A, 0x82);
/// Status Word: Instruction Not Supported (`0x6D00`).
pub const SW_INS_NOT_SUPPORTED: (u8, u8) = (0x6D, 0x00);
/// Status Word: Wrong Length (`0x6700`).
pub const SW_WRONG_LENGTH: (u8, u8) = (0x67, 0x00);
/// Status Word: Wrong Parameters P1-P2 (`0x6B00`).
pub const SW_WRONG_PARAMS: (u8, u8) = (0x6B, 0x00);

/// APDU parsing errors.
#[derive(Debug, Clone, Copy, PartialEq, Eq)]
pub enum ApduError {
    /// APDU was too short for its header or its declared data.
    HeaderTooShort,
    /// Response buffer has insufficient capacity for payload and status word.
    BufferTooSmall,
}

/// Parsed ISO/IEC 7816-4 Command APDU.
#[derive(Debug, Clone, Copy, PartialEq, Eq)]
pub struct CommandApdu<'a> {
    /// Class byte (CLA).
    pub cla: u8,
    /// Instruction byte (INS).
    pub ins: u8,
    /// Parameter 1 (P1).
    pub p1: u8,
    /// Parameter 2 (P2).
    pub p2: u8,
    /// Command data payload.
    pub data: &'a [u8],
    /// Expected response length (Le), if present.
    pub le: Option<usize>,
}

/// An Le byte: `0` stands for 256.
pub open spec fn le_value(b: u8) -> int {
    if b == 0 {
        256
    } else {
        b as int
    }
}

/// The fields of a command APDU: CLA, INS, P1, P2, data, Le.
pub type ApduFields = (u8, u8, u8, u8, Seq<u8>, Option<int>);

/// ISO 7816-4 short APDU cases: header only; header + Le; header + Lc +
/// data (+ Le). A declared Lc longer than the frame is an error.
pub open spec fn parse_apdu(b: Seq<u8>) -> Result<ApduFields, ApduError> {
    if b.len() < 4 {
        Err(ApduError::HeaderTooShort)
    } else if b.len() == 4 {
        Ok((b[0], b[1], b[2], b[3], Seq::empty(), None))
    } else if b.len() == 5 {
        Ok((b[0], b[1], b[2], b[3], Seq::empty(), Some(le_value(b[4]))))
    } else if b.len() < 5 + b[4] {
        Err(ApduError::HeaderTooShort)
    } else {
        let lc = b[4] as int;
        Ok(
            (
                b[0],
                b[1],
                b[2],
                b[3],
                b.subrange(5, 5 + lc),
                if b.len() > 5 + lc {
                    Some(le_value(b[5 + lc]))
                } else {
                    None
                },
            ),
        )
    }
}

/// A parsed APDU carries exactly `f`.
pub open spec fn apdu_is(a: CommandApdu, f: ApduFields) -> bool {
    &&& a.cla == f.0
    &&& a.ins == f.1
    &&& a.p1 == f.2
    &&& a.p2 == f.3
    &&& a.data@ == f.4
    &&& match f.5 {
        Some(l) => a.le == Some(l as usize),
        None => a.le is None,
    }
}

impl<'a> CommandApdu<'a> {
    /// Parses a raw byte slice into a [`CommandApdu`].
    pub fn parse(bytes: &'a [u8]) -> (r: Result<Self, ApduError>)
        ensures
            match parse_apdu(bytes@) {
                Ok(f) => r is Ok && apdu_is(r->Ok_0, f),
                Err(e) => r == Err::<Self, ApduError>(e),
            },
    {
        let n = bytes.len();
        if n < 4 {
            return Err(ApduError::HeaderTooShort);
        }
        let cla = bytes[0];
        let ins = bytes[1];
        let p1 = bytes[2];
        let p2 = bytes[3];
        if n == 4 {
            let data = vstd::slice::slice_subrange(bytes, 4, 4);
            assert(data@ =~= Seq::<u8>::empty());
            return Ok(CommandApdu { cla, ins, p1, p2, data, le: None });
        }
        if n == 5 {
            let le: usize = if bytes[4] == 0 { 256 } else { bytes[4] as usize };
            let data = vstd::slice::slice_subrange(bytes, 5, 5);
            assert(data@ =~= Seq::<u8>::empty());
            return Ok(CommandApdu { cla, ins, p1, p2, data, le: Some(le) });
        }
        let lc = bytes[4] as usize;
        if n < 5 + lc {
            return Err(ApduError::HeaderTooShort);
        }
        let data = vstd::slice::slice_subrange(bytes, 5, 5 + lc);
        let le = if n > 5 + lc {
            let raw_le = bytes[5 + lc];
            Some(if raw_le == 0 { 256 } else { raw_le as usize })
        } else {
            None
        };
        Ok(CommandApdu { cla, ins, p1, p2, data, le })
    }
}

/// Currently selected file in the Type 4 Tag state machine.
#[derive(Debug, Clone, Copy, PartialEq, Eq)]
pub enum SelectedFile {
    /// No file selected (at root application level).
    NoFile,
    /// Capability Container file selected (`0xE103h`).
    CapabilityContainer,
    /// NDEF file selected (`0xE104h`).
    Ndef,
}

/// NFC Forum Type 4 Tag Application state machine with an NDEF file of up
/// to `MAX_NDEF` bytes (NLEN prefix included).
#[derive(Debug, Clone, PartialEq, Eq)]
pub struct Type4TagApp<const MAX_NDEF: usize> {
    selected: SelectedFile,
    app_selected: bool,
    ndef_data: Vec<u8>,
    ndef_len: usize,
}

/// The 15-byte Capability Container for an NDEF file of at most `max`
/// bytes: CCLEN 15, mapping 2.0, MLe/MLc 127, then the NDEF File Control
/// TLV (file `E104`, max size as big-endian u16, free read/write).
pub open spec fn cc_bytes(max: nat) -> Seq<u8> {
    seq![
        0x00u8,
        0x0Fu8,
        0x20u8,
        0x00u8,
        0x7Fu8,
        0x00u8,
        0x7Fu8,
        0x04u8,
        0x06u8,
        0xE1u8,
        0x04u8,
        ((max % 65536) / 256) as u8,
        (max % 256) as u8,
        0x00u8,
        0x00u8,
    ]
}

/// The NDEF file content for message `msg`: 2-byte big-endian NLEN, then
/// the message.
pub open spec fn ndef_file(msg: Seq<u8>) -> Seq<u8> {
    seq![(msg.len() / 256) as u8, (msg.len() % 256) as u8] + msg
}

/// `sw1 sw2`.
pub open spec fn sw(w: (u8, u8)) -> Seq<u8> {
    seq![w.0, w.1]
}

/// Selection after a SELECT APDU with P1 `p1` and data `data`.
pub open spec fn select_next(sel: SelectedFile, app: bool, p1: u8, data: Seq<u8>) -> (SelectedFile, bool) {
    if p1 == 0x04 && data == AID_NDEF_V2@ {
        (SelectedFile::NoFile, true)
    } else if p1 == 0x00 && data == FILE_ID_CC@ {
        (SelectedFile::CapabilityContainer, app)
    } else if p1 == 0x00 && data == FILE_ID_NDEF@ {
        (SelectedFile::Ndef, app)
    } else {
        (sel, app)
    }
}

/// Status word answering a SELECT: success for the NDEF AID (by name) or
/// a known file ID, file-not-found otherwise.
pub open spec fn select_sw(p1: u8, data: Seq<u8>) -> (u8, u8) {
    if (p1 == 0x04 && data == AID_NDEF_V2@) || (p1 == 0x00 && (data == FILE_ID_CC@ || data
        == FILE_ID_NDEF@)) {
        SW_SUCCESS
    } else {
        SW_FILE_NOT_FOUND
    }
}

/// The reply to a READ BINARY of the selected file `src` at
/// `offset = P1:P2` with expected length `le` (`0` or absent = all).
pub open spec fn read_binary_reply(src: Option<Seq<u8>>, p1: u8, p2: u8, le: int, resp_len: nat) -> Result<Seq<u8>, ApduError> {
    let offset = p1 as int * 256 + p2 as int;
    match src {
        None => Ok(sw(SW_FILE_NOT_FOUND)),
        Some(f) => if offset >= f.len() {
            Ok(sw(SW_WRONG_PARAMS))
        } else {
            let avail = f.len() - offset;
            let count = if le == 0 || le > avail {
                avail
            } else {
                le
            };
            if resp_len < count + 2 {
                Err(ApduError::BufferTooSmall)
            } else {
                Ok(f.subrange(offset, offset + count) + sw(SW_SUCCESS))
            }
        },
    }
}

impl<const MAX_NDEF: usize> Type4TagApp<MAX_NDEF> {
    /// Which file is selected.
    pub closed spec fn selected_file(&self) -> SelectedFile {
        self.selected
    }

    /// Whether the NDEF application has been selected by AID.
    pub closed spec fn app_is_selected(&self) -> bool {
        self.app_selected
    }

    /// The NDEF file (NLEN prefix and message).
    pub closed spec fn ndef(&self) -> Seq<u8> {
        self.ndef_data@.subrange(0, self.ndef_len as int)
    }

    /// Internal consistency: the NDEF buffer holds `MAX_NDEF` bytes.
    pub closed spec fn wf(&self) -> bool {
        &&& self.ndef_data@.len() == MAX_NDEF
        &&& self.ndef_len <= MAX_NDEF
    }

    /// The selected file's content, `None` when no file is selected.
    pub open spec fn source(&self) -> Option<Seq<u8>> {
        match self.selected_file() {
            SelectedFile::NoFile => None,
            SelectedFile::CapabilityContainer => Some(cc_bytes(MAX_NDEF as nat)),
            SelectedFile::Ndef => Some(self.ndef()),
        }
    }

    /// The reply this application gives to `apdu` with a response buffer
    /// of `resp_len` bytes.
    pub open spec fn reply(&self, apdu: Seq<u8>, resp_len: nat) -> Result<Seq<u8>, ApduError> {
        match parse_apdu(apdu) {
            Err(e) => Err(e),
            Ok(f) => if resp_len < 2 {
                Err(ApduError::BufferTooSmall)
            } else if f.1 == INS_SELECT {
                Ok(sw(select_sw(f.2, f.4)))
            } else if f.1 == INS_READ_BINARY {
                read_binary_reply(
                    self.source(),
                    f.2,
                    f.3,
                    match f.5 {
                        Some(l) => l,
                        None => 0,
                    },
                    resp_len,
                )
            } else {
                Ok(sw(SW_INS_NOT_SUPPORTED))
            },
        }
    }

    /// Selection after `apdu` (only an accepted SELECT changes it).
    pub open spec fn next_selection(&self, apdu: Seq<u8>, resp_len: nat) -> (SelectedFile, bool) {
        match parse_apdu(apdu) {
            Ok(f) => if resp_len >= 2 && f.1 == INS_SELECT {
                select_next(self.selected_file(), self.app_is_selected(), f.2, f.4)
            } else {
                (self.selected_file(), self.app_is_selected())
            },
            Err(_) => (self.selected_file(), self.app_is_selected()),
        }
    }

    /// Creates a new Type 4 Tag application: nothing selected, empty NDEF file.
    pub fn new() -> (app: Self)
        ensures
            app.wf(),
            app.selected_file() == SelectedFile::NoFile,
            !app.app_is_selected(),
            app.ndef() == Seq::<u8>::empty(),
    {
        let app = Type4TagApp {
            selected: SelectedFile::NoFile,
            app_selected: false,
            ndef_data: vec![0u8; MAX_NDEF],
            ndef_len: 0,
        };
        assert(app.ndef() =~= Seq::<u8>::empty());
        app
    }

    /// Sets the active NDEF message content, stored with a 2-byte
    /// big-endian NLEN prefix. `false` (and no change) when it does not fit.
    pub fn set_ndef_message(&mut self, msg: &[u8]) -> (ok: bool)
        requires
            old(self).wf(),
        ensures
            final(self).wf(),
            ok <==> msg@.len() + 2 <= MAX_NDEF,
            ok ==> final(self).ndef() == ndef_file(msg@),
            !ok ==> final(self).ndef() == old(self).ndef(),
            final(self).selected_file() == old(self).selected_file(),
            final(self).app_is_selected() == old(self).app_is_selected(),
    {
        let n = msg.len();
        if MAX_NDEF < 2 || n > MAX_NDEF - 2 {
            return false;
        }
        self.ndef_data.set(0, (n / 256) as u8);
        self.ndef_data.set(1, (n % 256) as u8);
        let mut i: usize = 0;
        while i < n
            invariant
                n == msg@.len(),
                n + 2 <= MAX_NDEF,
                self.ndef_data@.len() == MAX_NDEF,
                self.ndef_len <= MAX_NDEF,
                i <= n,
                self.ndef_data@[0] == (n / 256) as u8,
                self.ndef_data@[1] == (n % 256) as u8,
                forall|j: int| 0 <= j < i ==> self.ndef_data@[2 + j] == msg@[j],
                self.selected == old(self).selected,
                self.app_selected == old(self).app_selected,
            decreases n - i,
        {
            self.ndef_data.set(2 + i, msg[i]);
            i = i + 1;
        }
        self.ndef_len = 2 + n;
        assert(self.ndef() =~= ndef_file(msg@));
        true
    }

    /// The 15-byte Capability Container (CC) file per T4T v2.0.
    pub fn cc_file(&self) -> (cc: [u8; 15])
        ensures
            cc@ == cc_bytes(MAX_NDEF as nat),
    {
        let hi = ((MAX_NDEF % 65536) / 256) as u8;
        let lo = (MAX_NDEF % 256) as u8;
        let cc = [0x00, 0x0F, 0x20, 0x00, 0x7F, 0x00, 0x7F, 0x04, 0x06, 0xE1, 0x04, hi, lo, 0x00, 0x00];
        assert(cc@ =~= cc_bytes(MAX_NDEF as nat));
        cc
    }

    fn bytes_eq(a: &[u8], b: &[u8]) -> (r: bool)
        ensures
            r == (a@ == b@),
    {
        if a.len() != b.len() {
            return false;
        }
        let mut i: usize = 0;
        while i < a.len()
            invariant
                a@.len() == b@.len(),
                i <= a@.len(),
                forall|j: int| 0 <= j < i ==> a@[j] == b@[j],
            decreases a@.len() - i,
        {
            if a[i] != b[i] {
                return false;
            }
            i += 1;
        }
        assert(a@ =~= b@);
        true
    }

    fn put_sw(resp: &mut [u8], w: (u8, u8)) -> (n: usize)
        requires
            old(resp)@.len() >= 2,
        ensures
            n == 2,
            final(resp)@.len() == old(resp)@.len(),
            final(resp)@.subrange(0, 2) == sw(w),
    {
        resp[0] = w.0;
        resp[1] = w.1;
        assert(resp@.subrange(0, 2) =~= sw(w));
        2
    }

    fn handle_select(&mut self, apdu: &CommandApdu, resp: &mut [u8]) -> (r: Result<usize, ApduError>)
        requires
            old(self).wf(),
            old(resp)@.len() >= 2,
        ensures
            final(self).wf(),
            final(self).ndef() == old(self).ndef(),
            (final(self).selected_file(), final(self).app_is_selected()) == select_next(old(self).selected_file(), old(self).app_is_selected(), apdu.p1, apdu.data@),
            r == Ok::<usize, ApduError>(2),
            final(resp)@.len() == old(resp)@.len(),
            final(resp)@.subrange(0, 2) == sw(select_sw(apdu.p1, apdu.data@)),
    {
        if apdu.p1 == 0x04 {
            if Self::bytes_eq(apdu.data, &AID_NDEF_V2) {
                self.app_selected = true;
                self.selected = SelectedFile::NoFile;
                return Ok(Self::put_sw(resp, SW_SUCCESS));
            }
            return Ok(Self::put_sw(resp, SW_FILE_NOT_FOUND));
        }
        if apdu.p1 == 0x00 {
            if Self::bytes_eq(apdu.data, &FILE_ID_CC) {
                self.selected = SelectedFile::CapabilityContainer;
                return Ok(Self::put_sw(resp, SW_SUCCESS));
            }
            if Self::bytes_eq(apdu.data, &FILE_ID_NDEF) {
                self.selected = SelectedFile::Ndef;
                return Ok(Self::put_sw(resp, SW_SUCCESS));
            }
        }
        Ok(Self::put_sw(resp, SW_FILE_NOT_FOUND))
    }

    fn handle_read_binary(&self, apdu: &CommandApdu, resp: &mut [u8]) -> (r: Result<usize, ApduError>)
        requires
            self.wf(),
            old(resp)@.len() >= 2,
        ensures
            final(resp)@.len() == old(resp)@.len(),
            match read_binary_reply(self.source(), apdu.p1, apdu.p2, match apdu.le { Some(l) => l as int, None => 0 }, old(resp)@.len()) {
                Ok(bytes) => r == Ok::<usize, ApduError>(bytes.len() as usize) && final(resp)@.subrange(0, bytes.len() as int) == bytes,
                Err(e) => r == Err::<usize, ApduError>(e) && final(resp)@ == old(resp)@,
            },
    {
        let offset: usize = (apdu.p1 as usize) * 256 + (apdu.p2 as usize);
        let le: usize = match apdu.le {
            Some(l) => l,
            None => 0,
        };
        let cc = self.cc_file();
        let data_source: &[u8] = match self.selected {
            SelectedFile::CapabilityContainer => cc.as_slice(),
            SelectedFile::Ndef => vstd::slice::slice_subrange(self.ndef_data.as_slice(), 0, self.ndef_len),
            SelectedFile::NoFile => {
                return Ok(Self::put_sw(resp, SW_FILE_NOT_FOUND));
            },
        };
        assert(self.source() == Some(data_source@));
        if offset >= data_source.len() {
            return Ok(Self::put_sw(resp, SW_WRONG_PARAMS));
        }
        let available = data_source.len() - offset;
        let count = if le == 0 || le > available {
            available
        } else {
            le
        };
        if resp.len() - 2 < count {
            return Err(ApduError::BufferTooSmall);
        }
        let mut i: usize = 0;
        while i < count
            invariant
                count <= available,
                available == data_source@.len() - offset,
                offset < data_source@.len(),
                offset + count <= data_source.len(),
                resp@.len() >= count + 2,
                resp@.len() == old(resp)@.len(),
                i <= count,
                forall|j: int| 0 <= j < i ==> resp@[j] == data_source@[offset + j],
            decreases count - i,
        {
            resp[i] = data_source[offset + i];
            i += 1;
        }
        resp[count] = SW_SUCCESS.0;
        resp[count + 1] = SW_SUCCESS.1;
        assert(resp@.subrange(0, count + 2) =~= data_source@.subrange(offset as int, offset + count) + sw(SW_SUCCESS));
        Ok(count + 2)
    }

    /// Processes one ISO 7816-4 APDU and writes the response into `resp`:
    /// SELECT and READ BINARY are served, any other instruction answers
    /// `6D00`. Returns the number of response bytes (status word included).
    pub fn handle_apdu(&mut self, apdu_bytes: &[u8], resp: &mut [u8]) -> (r: Result<usize, ApduError>)
        requires
            old(self).wf(),
        ensures
            final(self).wf(),
            final(self).ndef() == old(self).ndef(),
            (final(self).selected_file(), final(self).app_is_selected()) == old(self).next_selection(apdu_bytes@, old(resp)@.len()),
            final(resp)@.len() == old(resp)@.len(),
            match old(self).reply(apdu_bytes@, old(resp)@.len()) {
                Ok(bytes) => r == Ok::<usize, ApduError>(bytes.len() as usize) && final(resp)@.subrange(0, bytes.len() as int) == bytes,
                Err(e) => r == Err::<usize, ApduError>(e) && final(resp)@ == old(resp)@,
            },
    {
        let apdu = match CommandApdu::parse(apdu_bytes) {
            Ok(a) => a,
            Err(e) => return Err(e),
        };
        if resp.len() < 2 {
            return Err(ApduError::BufferTooSmall);
        }
        if apdu.ins == INS_SELECT {
            self.handle_select(&apdu, resp)
        } else if apdu.ins == INS_READ_BINARY {
            self.handle_read_binary(&apdu, resp)
        } else {
            Ok(Self::put_sw(resp, SW_INS_NOT_SUPPORTED))
        }
    }
}

/// What is stored is what a reader gets back: after selecting the NDEF
/// file (by its file ID), a READ BINARY from offset 0 with no length
/// limit returns the whole NDEF file (NLEN and message) followed by
/// `9000`, given room for it.
pub proof fn law_ndef_read_back(sel: SelectedFile, app: bool, msg: Seq<u8>, resp_len: nat)
    requires
        resp_len >= msg.len() + 4,
    ensures
        select_next(sel, app, 0x00, FILE_ID_NDEF@) == (SelectedFile::Ndef, app),
        select_sw(0x00, FILE_ID_NDEF@) == SW_SUCCESS,
        read_binary_reply(Some(ndef_file(msg)), 0, 0, 0, resp_len) == Ok::<Seq<u8>, ApduError>(ndef_file(msg) + sw(SW_SUCCESS)),
{
    assert(FILE_ID_NDEF@ != FILE_ID_CC@) by {
        assert(FILE_ID_NDEF@[1] != FILE_ID_CC@[1]);
    }
    let f = ndef_file(msg);
    assert(f.subrange(0, f.len() as int) =~= f);
}


/// The Capability Container announces the NDEF file the tag really has:
/// its length field (bytes 0..2, big-endian) is its own length, 15; the
/// mapping version is 2.0; the largest R-APDU and C-APDU data sizes (MLe,
/// MLc, big-endian) are 127; the File Control TLV (bytes 7..15) names the
/// NDEF file `E104`, its maximum NDEF size (bytes 11..13) reads back,
/// big-endian, as the size `max` it was built for whenever that fits 16
/// bits, and read and write access are both granted (0x00).
pub proof fn law_cc_announces_ndef_file(max: nat)
    requires
        max < 65536,
    ensures
        cc_bytes(max).len() == 15,
        cc_bytes(max)[0] * 256 + cc_bytes(max)[1] == cc_bytes(max).len(),
        cc_bytes(max)[2] == 0x20,
        cc_bytes(max)[3] * 256 + cc_bytes(max)[4] == 127,
        cc_bytes(max)[5] * 256 + cc_bytes(max)[6] == 127,
        cc_bytes(max)[7] == 0x04 && cc_bytes(max)[8] == 0x06,
        cc_bytes(max)[13] == 0x00 && cc_bytes(max)[14] == 0x00,
        cc_bytes(max).subrange(9, 11) == FILE_ID_NDEF@,
        cc_bytes(max)[11] * 256 + cc_bytes(max)[12] == max,
{
    assert(cc_bytes(max).subrange(9, 11) =~= FILE_ID_NDEF@);
    let hi = (max % 65536) / 256;
    let lo = max % 256;
    assert(hi < 256 && lo < 256);
    assert(hi * 256 + lo == max);
}

} // verus!
