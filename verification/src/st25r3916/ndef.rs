//! Lightweight NDEF (NFC Data Exchange Format) builders.
//!
//! NFC Forum NDEF 1.0, RTD-URI 1.0, RTD-Text 1.0.

use vstd::prelude::*;
use crate::text::sb;

verus! {

/// Error conditions during NDEF record construction.
#[derive(Debug, Clone, Copy, PartialEq, Eq)]
pub enum NdefError {
    /// Provided destination buffer is too small for the record.
    BufferTooSmall,
    /// Language code exceeds maximum allowed 63 ASCII characters.
    LanguageCodeTooLong,
    /// Payload exceeds the Short Record limit (255 bytes).
    PayloadTooLarge,
}

/// NFC Forum URI identifier code prefixes (RTD-URI Table 3).
#[derive(Debug, Clone, Copy, PartialEq, Eq)]
pub enum UriPrefix {
    /// No prepending prefix (`0x00`).
    NoPrefix,
    /// `http://www.` (`0x01`)
    HttpWww,
    /// `https://www.` (`0x02`)
    HttpsWww,
    /// `http://` (`0x03`)
    Http,
    /// `https://` (`0x04`)
    Https,
    /// `tel:` (`0x05`)
    Tel,
    /// `mailto:` (`0x06`)
    Mailto,
}

/// The identifier code byte of a prefix.
pub open spec fn uri_code(p: UriPrefix) -> u8 {
    match p {
        UriPrefix::NoPrefix => 0x00,
        UriPrefix::HttpWww => 0x01,
        UriPrefix::HttpsWww => 0x02,
        UriPrefix::Http => 0x03,
        UriPrefix::Https => 0x04,
        UriPrefix::Tel => 0x05,
        UriPrefix::Mailto => 0x06,
    }
}

impl UriPrefix {
    /// The identifier code byte (RTD-URI Table 3).
    pub fn code(self) -> (c: u8)
        ensures
            c == uri_code(self),
    {
        match self {
            UriPrefix::NoPrefix => 0x00,
            UriPrefix::HttpWww => 0x01,
            UriPrefix::HttpsWww => 0x02,
            UriPrefix::Http => 0x03,
            UriPrefix::Https => 0x04,
            UriPrefix::Tel => 0x05,
            UriPrefix::Mailto => 0x06,
        }
    }
}

/// NDEF record header flag: Message Begin (MB).
pub const NDEF_FLAG_MB: u8 = 0x80;
/// NDEF record header flag: Message End (ME).
pub const NDEF_FLAG_ME: u8 = 0x40;
/// NDEF record header flag: Short Record (SR).
pub const NDEF_FLAG_SR: u8 = 0x10;
/// NDEF record header flag: NFC Forum Well Known Type (TNF = 0x01).
pub const NDEF_TNF_WELL_KNOWN: u8 = 0x01;
/// Record Type Definition for URI (`b"U"`).
pub const RTD_URI: u8 = 0x55;
/// Record Type Definition for Text (`b"T"`).
pub const RTD_TEXT: u8 = 0x54;

/// Header byte of a standalone short well-known record (`0xD1`).
pub open spec fn sr_header() -> u8 {
    NDEF_FLAG_MB | NDEF_FLAG_ME | NDEF_FLAG_SR | NDEF_TNF_WELL_KNOWN
}

/// A standalone short URI record: header, type length 1, payload length,
/// `U`, the prefix code, then the suffix bytes.
pub open spec fn uri_record(prefix: UriPrefix, suffix: Seq<u8>) -> Seq<u8> {
    seq![sr_header(), 1u8, (1 + suffix.len()) as u8, RTD_URI, uri_code(prefix)] + suffix
}

/// A standalone short Text record: header, type length 1, payload length,
/// `T`, the status byte (UTF-8, language length), language, text.
pub open spec fn text_record(lang: Seq<u8>, text: Seq<u8>) -> Seq<u8> {
    seq![sr_header(), 1u8, (1 + lang.len() + text.len()) as u8, RTD_TEXT, lang.len() as u8] + lang
        + text
}

/// Type 2 Tag NDEF Message TLV (`0x03`, length, message) then the
/// Terminator TLV (`0xFE`).
pub open spec fn type2_tlv(msg: Seq<u8>) -> Seq<u8> {
    seq![0x03u8, msg.len() as u8] + msg + seq![0xFEu8]
}

/// `bytes` was written to the front of the buffer; the rest is untouched.
pub open spec fn written_front(before: Seq<u8>, after: Seq<u8>, bytes: Seq<u8>) -> bool {
    &&& after.len() == before.len()
    &&& after.subrange(0, bytes.len() as int) == bytes
    &&& after.subrange(bytes.len() as int, after.len() as int) == before.subrange(
        bytes.len() as int,
        before.len() as int,
    )
}

/// Copy `src` into `buf` starting at `at`.
fn copy_into(buf: &mut [u8], at: usize, src: &[u8])
    requires
        at + src@.len() <= old(buf)@.len(),
    ensures
        final(buf)@.len() == old(buf)@.len(),
        forall|j: int| 0 <= j < at ==> final(buf)@[j] == old(buf)@[j],
        forall|j: int| 0 <= j < src@.len() ==> final(buf)@[at + j] == src@[j],
        forall|j: int| at + src@.len() <= j < old(buf)@.len() ==> final(buf)@[j] == old(buf)@[j],
{
    let n = src.len();
    let blen = buf.len();
    let mut i: usize = 0;
    while i < n
        invariant
            n == src@.len(),
            blen == buf@.len(),
            at + n <= buf@.len(),
            buf@.len() == old(buf)@.len(),
            i <= n,
            forall|j: int| 0 <= j < at ==> buf@[j] == old(buf)@[j],
            forall|j: int| 0 <= j < i ==> buf@[at + j] == src@[j],
            forall|j: int| at + i <= j < old(buf)@.len() ==> buf@[j] == old(buf)@[j],
        decreases n - i,
    {
        buf[at + i] = src[i];
        i = i + 1;
    }
}

/// Builds a standalone Short Record NDEF URI record into `buf`.
///
/// Returns the number of bytes written to `buf`.
pub fn build_uri_record(prefix: UriPrefix, uri_suffix: &str, buf: &mut [u8]) -> (r: Result<usize, NdefError>)
    ensures
        sb(uri_suffix).len() + 1 > 255 ==> r == Err::<usize, NdefError>(NdefError::PayloadTooLarge),
        sb(uri_suffix).len() + 1 <= 255 && old(buf)@.len() < sb(uri_suffix).len() + 5 ==> r
            == Err::<usize, NdefError>(NdefError::BufferTooSmall),
        r is Err ==> final(buf)@ == old(buf)@,
        r is Ok ==> r == Ok::<usize, NdefError>(uri_record(prefix, sb(uri_suffix)).len() as usize)
            && written_front(old(buf)@, final(buf)@, uri_record(prefix, sb(uri_suffix))),
        r is Ok <==> sb(uri_suffix).len() + 1 <= 255 && old(buf)@.len() >= sb(uri_suffix).len() + 5,
{
    let suffix_bytes = uri_suffix.as_bytes();
    if suffix_bytes.len() > 254 {
        return Err(NdefError::PayloadTooLarge);
    }
    let payload_len = 1 + suffix_bytes.len();
    let total_len = 4 + payload_len;
    if buf.len() < total_len {
        return Err(NdefError::BufferTooSmall);
    }
    buf[0] = NDEF_FLAG_MB | NDEF_FLAG_ME | NDEF_FLAG_SR | NDEF_TNF_WELL_KNOWN;
    buf[1] = 1;
    buf[2] = payload_len as u8;
    buf[3] = RTD_URI;
    buf[4] = prefix.code();
    copy_into(buf, 5, suffix_bytes);
    assert(final(buf)@.subrange(0, total_len as int) =~= uri_record(prefix, sb(uri_suffix)));
    assert(final(buf)@.subrange(total_len as int, final(buf)@.len() as int) =~= old(buf)@.subrange(
        total_len as int,
        old(buf)@.len() as int,
    ));
    Ok(total_len)
}

/// Builds a standalone Short Record NDEF Text record into `buf`.
///
/// Returns the number of bytes written to `buf`.
pub fn build_text_record(lang: &str, text: &str, buf: &mut [u8]) -> (r: Result<usize, NdefError>)
    ensures
        sb(lang).len() > 0x3F ==> r == Err::<usize, NdefError>(NdefError::LanguageCodeTooLong),
        sb(lang).len() <= 0x3F && 1 + sb(lang).len() + sb(text).len() > 255 ==> r == Err::<
            usize,
            NdefError,
        >(NdefError::PayloadTooLarge),
        sb(lang).len() <= 0x3F && 1 + sb(lang).len() + sb(text).len() <= 255 && old(buf)@.len()
            < 5 + sb(lang).len() + sb(text).len() ==> r == Err::<usize, NdefError>(
            NdefError::BufferTooSmall,
        ),
        r is Err ==> final(buf)@ == old(buf)@,
        r is Ok ==> r == Ok::<usize, NdefError>(text_record(sb(lang), sb(text)).len() as usize)
            && written_front(old(buf)@, final(buf)@, text_record(sb(lang), sb(text))),
        r is Ok <==> sb(lang).len() <= 0x3F && 1 + sb(lang).len() + sb(text).len() <= 255
            && old(buf)@.len() >= 5 + sb(lang).len() + sb(text).len(),
{
    let lang_bytes = lang.as_bytes();
    if lang_bytes.len() > 0x3F {
        return Err(NdefError::LanguageCodeTooLong);
    }
    let text_bytes = text.as_bytes();
    if text_bytes.len() > 254 - lang_bytes.len() {
        return Err(NdefError::PayloadTooLarge);
    }
    let payload_len = 1 + lang_bytes.len() + text_bytes.len();
    let total_len = 4 + payload_len;
    if buf.len() < total_len {
        return Err(NdefError::BufferTooSmall);
    }
    buf[0] = NDEF_FLAG_MB | NDEF_FLAG_ME | NDEF_FLAG_SR | NDEF_TNF_WELL_KNOWN;
    buf[1] = 1;
    buf[2] = payload_len as u8;
    buf[3] = RTD_TEXT;
    buf[4] = lang_bytes.len() as u8;
    let lang_end = 5 + lang_bytes.len();
    copy_into(buf, 5, lang_bytes);
    copy_into(buf, lang_end, text_bytes);
    assert(final(buf)@.subrange(0, total_len as int) =~= text_record(sb(lang), sb(text)));
    assert(final(buf)@.subrange(total_len as int, final(buf)@.len() as int) =~= old(buf)@.subrange(
        total_len as int,
        old(buf)@.len() as int,
    ));
    Ok(total_len)
}

/// Wraps an NDEF message in a Type 2 Tag NDEF Message TLV (`0x03`)
/// followed by a Terminator TLV (`0xFE`).
///
/// Returns the total number of bytes written to `buf`.
pub fn wrap_in_type2_tlv(ndef_msg: &[u8], buf: &mut [u8]) -> (r: Result<usize, NdefError>)
    ensures
        ndef_msg@.len() > 254 ==> r == Err::<usize, NdefError>(NdefError::PayloadTooLarge),
        ndef_msg@.len() <= 254 && old(buf)@.len() < ndef_msg@.len() + 3 ==> r == Err::<
            usize,
            NdefError,
        >(NdefError::BufferTooSmall),
        r is Err ==> final(buf)@ == old(buf)@,
        r is Ok ==> r == Ok::<usize, NdefError>(type2_tlv(ndef_msg@).len() as usize)
            && written_front(old(buf)@, final(buf)@, type2_tlv(ndef_msg@)),
        r is Ok <==> ndef_msg@.len() <= 254 && old(buf)@.len() >= ndef_msg@.len() + 3,
{
    if ndef_msg.len() > 254 {
        return Err(NdefError::PayloadTooLarge);
    }
    let total_len = 2 + ndef_msg.len() + 1;
    if buf.len() < total_len {
        return Err(NdefError::BufferTooSmall);
    }
    buf[0] = 0x03;
    buf[1] = ndef_msg.len() as u8;
    copy_into(buf, 2, ndef_msg);
    buf[2 + ndef_msg.len()] = 0xFE;
    assert(final(buf)@.subrange(0, total_len as int) =~= type2_tlv(ndef_msg@));
    assert(final(buf)@.subrange(total_len as int, final(buf)@.len() as int) =~= old(buf)@.subrange(
        total_len as int,
        old(buf)@.len() as int,
    ));
    Ok(total_len)
}

/// A URI record is a single short well-known record (header 0xD1, type
/// length 1, payload length one more than the suffix, type `U`) and
/// carries its prefix's RTD-URI identifier code (Table 3) as the first
/// payload byte, before the suffix: no prefix 0x00, `http://www.` 0x01, `https://www.`
/// 0x02, `http://` 0x03, `https://` 0x04, `tel:` 0x05, `mailto:` 0x06. So
/// different prefixes give different records, and a reader expands the
/// record to the prefix it was built with.
pub proof fn law_uri_record_prefix_code(prefix: UriPrefix, other: UriPrefix, suffix: Seq<u8>)
    ensures
        uri_record(prefix, suffix)[0] == 0xD1,
        uri_record(prefix, suffix)[1] == 1,
        suffix.len() < 255 ==> uri_record(prefix, suffix)[2] == suffix.len() + 1,
        uri_record(prefix, suffix).len() == suffix.len() + 5,
        uri_record(prefix, suffix)[3] == 0x55,
        uri_record(prefix, suffix)[4] == (match prefix {
            UriPrefix::NoPrefix => 0x00u8,
            UriPrefix::HttpWww => 0x01u8,
            UriPrefix::HttpsWww => 0x02u8,
            UriPrefix::Http => 0x03u8,
            UriPrefix::Https => 0x04u8,
            UriPrefix::Tel => 0x05u8,
            UriPrefix::Mailto => 0x06u8,
        }),
        prefix != other ==> uri_record(prefix, suffix)[4] != uri_record(other, suffix)[4],
        uri_record(prefix, suffix).subrange(5, uri_record(prefix, suffix).len() as int) == suffix,
{
    assert(sr_header() == 0xD1) by (bit_vector)
        requires
            sr_header() == (0x80u8 | 0x40u8 | 0x10u8 | 0x01u8),
    ;
    assert(uri_record(prefix, suffix).subrange(5, uri_record(prefix, suffix).len() as int) =~= suffix);
}

} // verus!
