//! Byte-level text building for the log lines: decimal and hex digits,
//! string pieces, and the final copy into a caller buffer.

use vstd::prelude::*;
use vstd::utf8::*;
use vstd::string::*;

verus! {

broadcast use group_utf8_lib;

/// Every byte is 7-bit ASCII.
pub open spec fn is_ascii_bytes(b: Seq<u8>) -> bool {
    forall|i: int| 0 <= i < b.len() ==> #[trigger] b[i] < 128
}

/// An ASCII byte sequence is valid UTF-8.
pub proof fn lemma_ascii_valid_utf8(b: Seq<u8>)
    requires
        is_ascii_bytes(b),
    ensures
        valid_utf8(b),
    decreases b.len(),
{
    if b.len() > 0 {
        assert(is_leading_byte_width_1(b[0]));
        let rest = pop_first_scalar(b);
        assert(rest =~= b.subrange(1, b.len() as int));
        assert(is_ascii_bytes(rest)) by {
            assert forall|i: int| 0 <= i < rest.len() implies #[trigger] rest[i] < 128 by {
                assert(rest[i] == b[i + 1]);
            }
        }
        lemma_ascii_valid_utf8(rest);
    }
}

/// Decimal digits of `n`, most significant first, no leading zeros.
pub open spec fn dec(n: nat) -> Seq<u8>
    decreases n,
{
    if n < 10 {
        seq![(48 + n) as u8]
    } else {
        dec(n / 10).push((48 + n % 10) as u8)
    }
}

/// Decimal digits of a signed value: `-` then the magnitude when negative.
pub open spec fn dec_signed(n: int) -> Seq<u8> {
    if n < 0 {
        seq![45u8] + dec((-n) as nat)
    } else {
        dec(n as nat)
    }
}

/// Decimal digits of `n`, left-padded with `0` to at least three digits.
pub open spec fn dec_pad3(n: nat) -> Seq<u8> {
    if n < 10 {
        seq![48u8, 48u8] + dec(n)
    } else if n < 100 {
        seq![48u8] + dec(n)
    } else {
        dec(n)
    }
}

/// One lowercase hex digit.
pub open spec fn hex_digit(d: nat) -> u8 {
    if d < 10 {
        (48 + d) as u8
    } else {
        (87 + d) as u8
    }
}

/// Two lowercase hex digits of a byte (`{:02x}`).
pub open spec fn hex2(b: u8) -> Seq<u8> {
    seq![hex_digit((b / 16) as nat), hex_digit((b % 16) as nat)]
}

/// `1` for true, `0` for false.
pub open spec fn bit(b: bool) -> Seq<u8> {
    if b {
        seq![49u8]
    } else {
        seq![48u8]
    }
}

/// The UTF-8 bytes of a string slice.
pub open spec fn sb(s: &str) -> Seq<u8> {
    s.spec_bytes()
}

pub proof fn lemma_dec_ascii(n: nat)
    ensures
        is_ascii_bytes(dec(n)),
        dec(n).len() >= 1,
    decreases n,
{
    if n >= 10 {
        lemma_dec_ascii(n / 10);
    }
}

/// Every byte of `dec(n)` is a decimal digit.
pub proof fn lemma_dec_digits(n: nat)
    ensures
        dec(n).len() >= 1,
        forall|i: int| 0 <= i < dec(n).len() ==> 48 <= #[trigger] dec(n)[i] <= 57,
    decreases n,
{
    if n >= 10 {
        lemma_dec_digits(n / 10);
    }
}

/// Append the decimal digits of `n`.
pub fn push_dec(v: &mut Vec<u8>, n: u64)
    ensures
        final(v)@ == old(v)@ + dec(n as nat),
        valid_utf8(old(v)@) ==> valid_utf8(final(v)@),
    decreases n,
{
    if n >= 10 {
        push_dec(v, n / 10);
    }
    let d = (n % 10) as u8;
    v.push(48 + d);
    proof {
        lemma_dec_ascii(n as nat);
        lemma_ascii_valid_utf8(dec(n as nat));
        assert(final(v)@ =~= old(v)@ + dec(n as nat)) by {
            if n >= 10 {
                assert(dec(n as nat) =~= dec((n / 10) as nat).push((48 + n % 10) as u8));
            }
        }
    }
}

/// Append the UTF-8 bytes of `s`.
pub fn push_str(v: &mut Vec<u8>, s: &str)
    ensures
        final(v)@ == old(v)@ + sb(s),
        valid_utf8(old(v)@) ==> valid_utf8(final(v)@),
{
    let b = s.as_bytes();
    let ghost start = v@;
    let n = b.len();
    let mut i: usize = 0;
    while i < n
        invariant
            n == b@.len(),
            b@ == sb(s),
            i <= n,
            v@ =~= start + b@.subrange(0, i as int),
        decreases n - i,
    {
        v.push(b[i]);
        i = i + 1;
        assert(v@ =~= start + b@.subrange(0, i as int));
    }
    assert(b@.subrange(0, n as int) =~= b@);
    proof {
        encode_utf8_valid_utf8(s@);
    }
}

/// Append `1` or `0`.
pub fn push_bit(v: &mut Vec<u8>, b: bool)
    ensures
        final(v)@ == old(v)@ + bit(b),
        valid_utf8(old(v)@) ==> valid_utf8(final(v)@),
{
    if b {
        v.push(49u8);
    } else {
        v.push(48u8);
    }
    proof {
        lemma_ascii_valid_utf8(bit(b));
        assert(final(v)@ =~= old(v)@ + bit(b));
    }
}

/// Append two lowercase hex digits (`{:02x}`).
pub fn push_hex2(v: &mut Vec<u8>, b: u8)
    ensures
        final(v)@ == old(v)@ + hex2(b),
        valid_utf8(old(v)@) ==> valid_utf8(final(v)@),
{
    let hi = b / 16;
    let lo = b % 16;
    let h = if hi < 10 { 48 + hi } else { 87 + hi };
    let l = if lo < 10 { 48 + lo } else { 87 + lo };
    v.push(h);
    v.push(l);
    proof {
        assert(is_ascii_bytes(hex2(b)));
        lemma_ascii_valid_utf8(hex2(b));
        assert(final(v)@ =~= old(v)@ + hex2(b));
    }
}

/// Append a signed decimal (`-` then the magnitude when negative).
pub fn push_signed(v: &mut Vec<u8>, x: i16)
    ensures
        final(v)@ == old(v)@ + dec_signed(x as int),
        valid_utf8(old(v)@) ==> valid_utf8(final(v)@),
{
    if x < 0 {
        v.push(45u8);
        proof {
            lemma_ascii_valid_utf8(seq![45u8]);
            assert(v@ =~= old(v)@ + seq![45u8]);
        }
        let m: i32 = -(x as i32);
        push_dec(v, m as u64);
        assert(final(v)@ =~= old(v)@ + dec_signed(x as int));
    } else {
        push_dec(v, x as u64);
    }
}

/// Append a decimal left-padded with `0` to three digits (`{:03}`).
pub fn push_pad3(v: &mut Vec<u8>, n: u64)
    ensures
        final(v)@ == old(v)@ + dec_pad3(n as nat),
        valid_utf8(old(v)@) ==> valid_utf8(final(v)@),
{
    if n < 10 {
        v.push(48u8);
        v.push(48u8);
    } else if n < 100 {
        v.push(48u8);
    }
    let ghost mid = v@;
    proof {
        lemma_ascii_valid_utf8(seq![48u8]);
        lemma_ascii_valid_utf8(seq![48u8, 48u8]);
        if n < 10 {
            assert(mid =~= old(v)@ + seq![48u8, 48u8]);
        } else if n < 100 {
            assert(mid =~= old(v)@ + seq![48u8]);
        }
    }
    push_dec(v, n);
    assert(final(v)@ =~= old(v)@ + dec_pad3(n as nat));
}

/// Why a format into a caller buffer failed.
#[derive(Debug, Clone, Copy, PartialEq, Eq)]
pub enum FormatError {
    /// The buffer was shorter than the formatted line.
    Truncated,
}

/// View a UTF-8 byte slice as a string slice (`core::str::from_utf8`).
#[verifier::external_body]
fn str_from_utf8(bytes: &[u8]) -> (s: &str)
    requires
        valid_utf8(bytes@),
    ensures
        s.spec_bytes() == bytes@,
{
    match core::str::from_utf8(bytes) {
        Ok(s) => s,
        Err(_) => "",
    }
}

/// Copy a finished line to the front of `buf` and view it as text.
///
/// `Err(Truncated)` exactly when the line does not fit.
pub(crate) fn finish<'a>(line: &Vec<u8>, buf: &'a mut [u8]) -> (r: Result<&'a str, FormatError>)
    requires
        valid_utf8(line@),
    ensures
        line@.len() > old(buf)@.len() <==> r == Err::<&str, FormatError>(FormatError::Truncated),
        r is Ok ==> r->Ok_0.spec_bytes() == line@,
{
    let n = line.len();
    if n > buf.len() {
        return Err(FormatError::Truncated);
    }
    let mut i: usize = 0;
    while i < n
        invariant
            n == line@.len(),
            n <= buf@.len(),
            i <= n,
            forall|j: int| 0 <= j < i ==> buf@[j] == line@[j],
        decreases n - i,
    {
        buf[i] = line[i];
        i = i + 1;
    }
    let shared: &'a [u8] = buf;
    let head = vstd::slice::slice_subrange(shared, 0, n);
    assert(head@ =~= line@);
    Ok(str_from_utf8(head))
}

}
