//! NFC Forum Type 2 Tag memory model, command decoder, and framing.
//!
//! NFC Forum Type 2 Tag Operation Specification; NXP NTAG213/215/216.

use vstd::prelude::*;
use crate::st25r3916::ndef::written_front;

verus! {

/// Standard 4-byte block size for Type 2 Tag memory.
pub const TYPE2_PAGE_SIZE: usize = 4;
/// Type 2 Tag Read command opcode. Reads 4 consecutive blocks (16 bytes).
pub const CMD_TYPE2_READ: u8 = 0x30;
/// Type 2 Tag Write command opcode. Writes 1 block (4 bytes).
pub const CMD_TYPE2_WRITE: u8 = 0xA2;
/// Type 2 Tag 4-bit ACK response code.
pub const TYPE2_ACK: u8 = 0x0A;

/// Errors produced during Type 2 Tag command processing.
#[derive(Debug, Clone, Copy, PartialEq, Eq)]
pub enum Type2Error {
    /// Command frame was incomplete or truncated.
    InvalidCommandLength,
    /// Unknown or unsupported command opcode.
    UnsupportedCommand(u8),
    /// Requested block number is out of bounds.
    BlockOutOfBounds(u8),
    /// Attempt to write to a read-only or locked block.
    BlockReadOnly(u8),
    /// Destination response buffer is too small.
    BufferTooSmall,
}

/// NFC Forum Type 2 Tag static memory model of `PAGES` 4-byte pages.
#[derive(Debug, Clone, PartialEq, Eq)]
pub struct Type2Memory<const PAGES: usize> {
    data: Vec<[u8; 4]>,
}

/// The Capability Container written to block 3: magic `0xE1`, version
/// 1.0, data size in 8-byte units, free access.
pub open spec fn cc_block(pages: nat) -> Seq<u8> {
    seq![0xE1u8, 0x10u8, ((pages - 4) * 4 / 8) as u8, 0u8]
}

/// Page `p` after copying `tlv` from block 4 on: the TLV bytes, the last
/// touched page padded with zeros, later pages untouched.
pub open spec fn tlv_page(old_page: [u8; 4], tlv: Seq<u8>, p: int) -> Seq<u8> {
    if p >= 4 && (p - 4) * 4 < tlv.len() {
        Seq::new(4, |b: int| if (p - 4) * 4 + b < tlv.len() { tlv[(p - 4) * 4 + b] } else { 0u8 })
    } else {
        old_page@
    }
}

/// The 16 bytes a READ at `start` returns: four pages, wrapping within memory.
pub open spec fn read_window(pages: Seq<[u8; 4]>, start: int) -> Seq<u8> {
    Seq::new(16, |i: int| pages[(start + i / 4) % (pages.len() as int)]@[i % 4])
}

/// The reply a Type 2 command gets from memory `pages` with a response
/// buffer of `resp_len` bytes: the response bytes, or the error.
pub open spec fn type2_reply(pages: Seq<[u8; 4]>, cmd: Seq<u8>, resp_len: nat) -> Result<Seq<u8>, Type2Error> {
    if cmd.len() == 0 {
        Err(Type2Error::InvalidCommandLength)
    } else if cmd[0] == CMD_TYPE2_READ {
        if cmd.len() < 2 {
            Err(Type2Error::InvalidCommandLength)
        } else if cmd[1] >= pages.len() {
            Err(Type2Error::BlockOutOfBounds(cmd[1]))
        } else if resp_len < 16 {
            Err(Type2Error::BufferTooSmall)
        } else {
            Ok(read_window(pages, cmd[1] as int))
        }
    } else if cmd[0] == CMD_TYPE2_WRITE {
        if cmd.len() < 6 {
            Err(Type2Error::InvalidCommandLength)
        } else if cmd[1] >= pages.len() {
            Err(Type2Error::BlockOutOfBounds(cmd[1]))
        } else if cmd[1] < 4 {
            Err(Type2Error::BlockReadOnly(cmd[1]))
        } else if resp_len == 0 {
            Err(Type2Error::BufferTooSmall)
        } else {
            Ok(seq![TYPE2_ACK])
        }
    } else {
        Err(Type2Error::UnsupportedCommand(cmd[0]))
    }
}

/// The memory after a Type 2 command: only an accepted WRITE changes it,
/// replacing page `cmd[1]` with `cmd[2..6]`.
pub open spec fn type2_after(pages: Seq<[u8; 4]>, cmd: Seq<u8>, resp_len: nat) -> Seq<[u8; 4]> {
    if cmd.len() >= 6 && cmd[0] == CMD_TYPE2_WRITE && type2_reply(pages, cmd, resp_len) is Ok {
        pages.update(cmd[1] as int, [cmd[2], cmd[3], cmd[4], cmd[5]])
    } else {
        pages
    }
}

/// A READ issued right after an accepted WRITE to page `p` returns the
/// written bytes first.
pub proof fn law_type2_read_after_write(pages: Seq<[u8; 4]>, write: Seq<u8>, resp_len: nat)
    requires
        write.len() >= 6,
        write[0] == CMD_TYPE2_WRITE,
        type2_reply(pages, write, resp_len) is Ok,
        resp_len >= 16,
    ensures
        ({
            let after = type2_after(pages, write, resp_len);
            let read = seq![CMD_TYPE2_READ, write[1]];
            &&& type2_reply(after, read, resp_len) is Ok
            &&& type2_reply(after, read, resp_len)->Ok_0.subrange(0, 4) == write.subrange(2, 6)
        }),
{
    let after = type2_after(pages, write, resp_len);
    let read = seq![CMD_TYPE2_READ, write[1]];
    let w = type2_reply(after, read, resp_len)->Ok_0;
    assert forall|i: int| 0 <= i < 4 implies #[trigger] w[i] == write[i + 2] by {
        assert(i / 4 == 0);
        vstd::arithmetic::div_mod::lemma_small_mod(write[1] as nat, after.len());
    }
    assert(w.subrange(0, 4) =~= write.subrange(2, 6));
}

impl<const PAGES: usize> Type2Memory<PAGES> {
    /// The pages, in order.
    pub closed spec fn pages(&self) -> Seq<[u8; 4]> {
        self.data@
    }

    /// Every value holds exactly `PAGES` pages.
    pub closed spec fn wf(&self) -> bool {
        self.data@.len() == PAGES
    }

    /// Creates a new memory with the standard Capability Container in
    /// block 3 (when there is a block 3); every other byte is zero.
    pub fn new() -> (m: Self)
        ensures
            m.wf(),
            m.pages().len() == PAGES,
            forall|p: int| 0 <= p < PAGES && p != 3 ==> (#[trigger] m.pages()[p])@ == seq![0u8, 0u8, 0u8, 0u8],
            PAGES > 3 ==> m.pages()[3]@ == cc_block(PAGES as nat),
    {
        let mut data: Vec<[u8; 4]> = vec![[0u8; 4]; PAGES];
        if PAGES > 3 {
            let data_size = ((PAGES - 4) / 2) as u8;
            assert(((PAGES - 4) / 2) as u8 == ((PAGES - 4) * 4 / 8) as u8);
            data.set(3, [0xE1, 0x10, data_size, 0x00]);
        }
        Type2Memory { data }
    }

    /// Initializes Block 0 and Block 1 with a 4-byte UID and its BCC0
    /// (`0x88 ^ uid0 ^ uid1 ^ uid2`).
    pub fn set_uid_single(&mut self, uid: [u8; 4])
        requires
            old(self).wf(),
        ensures
            final(self).wf(),
            final(self).pages().len() == PAGES,
            PAGES >= 2 ==> final(self).pages()[0]@ == seq![uid[0], uid[1], uid[2], 0x88u8 ^ uid[0] ^ uid[1] ^ uid[2]],
            PAGES >= 2 ==> final(self).pages()[1]@ == seq![uid[3], 0u8, 0u8, 0u8],
            forall|p: int| 2 <= p < PAGES ==> #[trigger] final(self).pages()[p] == old(self).pages()[p],
            PAGES < 2 ==> final(self).pages() == old(self).pages(),
    {
        if PAGES >= 2 {
            let bcc0 = 0x88 ^ uid[0] ^ uid[1] ^ uid[2];
            self.data.set(0, [uid[0], uid[1], uid[2], bcc0]);
            self.data.set(1, [uid[3], 0x00, 0x00, 0x00]);
        }
    }

    /// Copies an NDEF TLV payload starting at Block 4 (user data area),
    /// zero-padding the last page it reaches; bytes past the end of memory
    /// are dropped.
    pub fn set_ndef_tlv(&mut self, tlv_data: &[u8])
        requires
            old(self).wf(),
        ensures
            final(self).wf(),
            final(self).pages().len() == PAGES,
            forall|p: int|
                0 <= p < PAGES ==> (#[trigger] final(self).pages()[p])@ == tlv_page(
                    old(self).pages()[p],
                    tlv_data@,
                    p,
                ),
    {
        let n = tlv_data.len();
        let mut src_idx: usize = 0;
        let mut page: usize = 4;
        while page < PAGES && src_idx < n
            invariant
                n == tlv_data@.len(),
                self.data@.len() == PAGES,
                4 <= page,
                src_idx == (page - 4) * 4 || (src_idx == n && n <= (page - 4) * 4),
                src_idx <= n,
                forall|p: int|
                    0 <= p < PAGES ==> (#[trigger] self.data@[p])@ == if p < page {
                        tlv_page(old(self).pages()[p], tlv_data@, p)
                    } else {
                        old(self).pages()[p]@
                    },
            decreases PAGES - page,
        {
            let mut bytes = [0u8; 4];
            let mut byte_idx: usize = 0;
            let base = src_idx;
            while byte_idx < 4 && src_idx < n
                invariant
                    n == tlv_data@.len(),
                    base < n,
                    base == (page - 4) * 4,
                    byte_idx <= 4,
                    src_idx == base + byte_idx,
                    src_idx <= n,
                    forall|b: int| 0 <= b < byte_idx ==> bytes@[b] == tlv_data@[base + b],
                    forall|b: int| byte_idx <= b < 4 ==> bytes@[b] == 0,
                decreases 4 - byte_idx,
            {
                bytes[byte_idx] = tlv_data[src_idx];
                src_idx = src_idx + 1;
                byte_idx = byte_idx + 1;
            }
            assert(bytes@ =~= tlv_page(old(self).pages()[page as int], tlv_data@, page as int));
            self.data.set(page, bytes);
            page = page + 1;
        }
        assert forall|p: int| 0 <= p < PAGES implies (#[trigger] self.data@[p])@ == tlv_page(
            old(self).pages()[p],
            tlv_data@,
            p,
        ) by {
            if p >= page {
                assert((p - 4) * 4 >= n);
            }
        }
    }

    /// Reads a single 4-byte page; `None` past the end of memory.
    pub fn read_page(&self, page: usize) -> (r: Option<&[u8; 4]>)
        requires
            self.wf(),
        ensures
            page < PAGES ==> r == Some(&self.pages()[page as int]),
            page >= PAGES ==> r is None,
    {
        if page < self.data.len() {
            Some(&self.data[page])
        } else {
            None
        }
    }

    /// Writes a single 4-byte page. Returns `false` (and changes nothing)
    /// if `page` is out of bounds or read-only (pages 0..3).
    pub fn write_page(&mut self, page: usize, val: [u8; 4]) -> (ok: bool)
        requires
            old(self).wf(),
        ensures
            final(self).wf(),
            ok <==> 4 <= page < PAGES,
            ok ==> final(self).pages() == old(self).pages().update(page as int, val),
            !ok ==> final(self).pages() == old(self).pages(),
    {
        if page < 4 || page >= PAGES {
            return false;
        }
        self.data.set(page, val);
        true
    }
    /// Handles an incoming NFC Forum Type 2 Tag command.
    ///
    /// `READ` (`0x30`) returns 16 bytes (4 blocks, wrapping within memory);
    /// `WRITE` (`0xA2`) writes 4 bytes and returns the 1-byte ACK `0x0A`.
    pub fn handle_command(&mut self, cmd: &[u8], resp: &mut [u8]) -> (r: Result<usize, Type2Error>)
        requires
            old(self).wf(),
        ensures
            final(self).wf(),
            final(self).pages() == type2_after(old(self).pages(), cmd@, old(resp)@.len()),
            match type2_reply(old(self).pages(), cmd@, old(resp)@.len()) {
                Ok(bytes) => r == Ok::<usize, Type2Error>(bytes.len() as usize) && written_front(
                    old(resp)@,
                    final(resp)@,
                    bytes,
                ),
                Err(e) => r == Err::<usize, Type2Error>(e) && final(resp)@ == old(resp)@,
            },
    {
        if cmd.len() == 0 {
            return Err(Type2Error::InvalidCommandLength);
        }
        let op = cmd[0];
        if op == CMD_TYPE2_READ {
            if cmd.len() < 2 {
                return Err(Type2Error::InvalidCommandLength);
            }
            let start_page = cmd[1] as usize;
            if start_page >= PAGES {
                return Err(Type2Error::BlockOutOfBounds(cmd[1]));
            }
            if resp.len() < 16 {
                return Err(Type2Error::BufferTooSmall);
            }
            let ghost pages = self.data@;
            let mut i: usize = 0;
            while i < 4
                invariant
                    i <= 4,
                    self.data@ == pages,
                    pages.len() == PAGES,
                    start_page < PAGES,
                    start_page <= 255,
                    resp@.len() == old(resp)@.len(),
                    resp@.len() >= 16,
                    forall|j: int| 0 <= j < i * 4 ==> #[trigger] resp@[j] == read_window(pages, start_page as int)[j],
                    forall|j: int| i * 4 <= j < resp@.len() ==> resp@[j] == old(resp)@[j],
                decreases 4 - i,
            {
                let page_idx = (start_page + i) % PAGES;
                let page = self.data[page_idx];
                let mut b: usize = 0;
                while b < 4
                    invariant
                        b <= 4,
                        i < 4,
                        page_idx == (start_page + i) % (PAGES as int),
                        page == pages[page_idx as int],
                        pages.len() == PAGES,
                        resp@.len() == old(resp)@.len(),
                        resp@.len() >= 16,
                        forall|j: int| 0 <= j < i * 4 + b ==> #[trigger] resp@[j] == read_window(pages, start_page as int)[j],
                        forall|j: int| i * 4 + b <= j < resp@.len() ==> resp@[j] == old(resp)@[j],
                    decreases 4 - b,
                {
                    resp[i * 4 + b] = page[b];
                    proof {
                        let j = (i * 4 + b) as int;
                        assert(j / 4 == i as int && j % 4 == b as int);
                    }
                    b = b + 1;
                }
                i = i + 1;
            }
            assert(resp@.subrange(0, 16) =~= read_window(pages, start_page as int));
            assert(resp@.subrange(16, resp@.len() as int) =~= old(resp)@.subrange(16, old(resp)@.len() as int));
            Ok(16)
        } else if op == CMD_TYPE2_WRITE {
            if cmd.len() < 6 {
                return Err(Type2Error::InvalidCommandLength);
            }
            let page = cmd[1] as usize;
            if page >= PAGES {
                return Err(Type2Error::BlockOutOfBounds(cmd[1]));
            }
            if page < 4 {
                return Err(Type2Error::BlockReadOnly(cmd[1]));
            }
            if resp.len() == 0 {
                return Err(Type2Error::BufferTooSmall);
            }
            let val = [cmd[2], cmd[3], cmd[4], cmd[5]];
            self.data.set(page, val);
            resp[0] = TYPE2_ACK;
            assert(val@ =~= cmd@.subrange(2, 6));
            assert(resp@.subrange(0, 1) =~= seq![TYPE2_ACK]);
            assert(resp@.subrange(1, resp@.len() as int) =~= old(resp)@.subrange(1, old(resp)@.len() as int));
            Ok(1)
        } else {
            Err(Type2Error::UnsupportedCommand(op))
        }
    }
}

}
