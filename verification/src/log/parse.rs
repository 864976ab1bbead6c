//! Split CDC captures on `simple-debug:`. No heap.
//!
//! USB-Serial/JTAG may glue two records by dropping `\n`. Search for the
//! mark; do not require a newline between them.
//!
//! The model works on the UTF-8 bytes of the capture (`spec_bytes`): every
//! byte this module looks for is ASCII, so byte positions next to them are
//! character boundaries.

use vstd::prelude::*;
use vstd::utf8::*;
use vstd::string::*;
use crate::text::{bit, dec, lemma_dec_digits, sb};
use crate::log::{head, heartbeat_line, touch_line, Snapshot, TouchSample};

verus! {

broadcast use is_char_boundary_iff_not_is_continuation_byte, is_char_boundary_start_end_of_seq;

/// On-wire mark, including the colon (`simple-debug:`), as bytes.
pub const RECORD_MARK: [u8; 13] = [115, 105, 109, 112, 108, 101, 45, 100, 101, 98, 117, 103, 58];

// ---------------------------------------------------------------------------
// Model: marks and records
// ---------------------------------------------------------------------------

/// The mark starts at byte `i` of `b`.
pub open spec fn mark_at(b: Seq<u8>, i: int) -> bool {
    0 <= i && i + 13 <= b.len() && b.subrange(i, i + 13) == RECORD_MARK@
}

/// First byte index at or after `from` where a mark starts; `b.len()` when
/// there is none.
pub open spec fn find_mark(b: Seq<u8>, from: nat) -> nat
    decreases b.len() - from,
{
    if from + 13 > b.len() {
        b.len()
    } else if mark_at(b, from as int) {
        from
    } else {
        find_mark(b, from + 1)
    }
}

/// `b` holds a mark somewhere.
pub open spec fn has_mark(b: Seq<u8>) -> bool {
    find_mark(b, 0) < b.len()
}

/// Bytes after the first mark of `r`.
pub open spec fn tail_after(r: Seq<u8>) -> Seq<u8> {
    r.subrange(find_mark(r, 0) + 13int, r.len() as int)
}

/// Bytes of the first record of `r`, before trimming: from the end of the
/// first mark up to the next mark or the end.
pub open spec fn raw_body(r: Seq<u8>) -> Seq<u8> {
    let t = tail_after(r);
    t.subrange(0, find_mark(t, 0) as int)
}

/// What is left of `r` once its first record is taken: the next mark onward.
pub open spec fn rest_after(r: Seq<u8>) -> Seq<u8> {
    let t = tail_after(r);
    t.subrange(find_mark(t, 0) as int, t.len() as int)
}

/// The bytes that trimming removes: space, tab, line feed, carriage return.
pub open spec fn is_trim(c: u8) -> bool {
    c == 32 || c == 9 || c == 10 || c == 13
}

/// `s` without its leading trim bytes.
pub open spec fn trim_front(s: Seq<u8>) -> Seq<u8>
    decreases s.len(),
{
    if s.len() > 0 && is_trim(s[0]) {
        trim_front(s.drop_first())
    } else {
        s
    }
}

/// `s` without its trailing trim bytes.
pub open spec fn trim_back(s: Seq<u8>) -> Seq<u8>
    decreases s.len(),
{
    if s.len() > 0 && is_trim(s.last()) {
        trim_back(s.drop_last())
    } else {
        s
    }
}

/// `s` without leading and trailing trim bytes.
pub open spec fn trim(s: Seq<u8>) -> Seq<u8> {
    trim_back(trim_front(s))
}

/// The trimmed bodies of every record in `r`, in order.
pub open spec fn record_bodies(r: Seq<u8>) -> Seq<Seq<u8>>
    decreases r.len(),
{
    if has_mark(r) {
        proof {
            lemma_find_mark_bounds(r, 0);
            lemma_find_mark_bounds(tail_after(r), 0);
        }
        seq![trim(raw_body(r))] + record_bodies(rest_after(r))
    } else {
        Seq::empty()
    }
}

// ---------------------------------------------------------------------------
// Lemmas on the model
// ---------------------------------------------------------------------------

/// `find_mark` lands on a mark or the end, and skips no mark.
pub proof fn lemma_find_mark_bounds(b: Seq<u8>, from: nat)
    ensures
        find_mark(b, from) == b.len() || (from <= find_mark(b, from) && mark_at(b, find_mark(b, from) as int)),
        find_mark(b, from) <= b.len(),
        forall|k: int| from <= k < find_mark(b, from) ==> !mark_at(b, k),
    decreases b.len() - from,
{
    if from + 13 > b.len() {
    } else if mark_at(b, from as int) {
    } else {
        lemma_find_mark_bounds(b, from + 1);
    }
}

/// In valid UTF-8, the position right after an ASCII byte is a character
/// boundary.
proof fn lemma_boundary_after_ascii(b: Seq<u8>, i: int)
    requires
        valid_utf8(b),
        0 < i <= b.len(),
        b[i - 1] < 0x80,
    ensures
        is_char_boundary(b, i),
    decreases b.len(),
{
    reveal_with_fuel(is_char_boundary, 2);
    let n = length_of_first_scalar(b);
    if i - 1 == 0 {
        assert(is_leading_byte_width_1(b[0]));
    } else if i - 1 < n {
        assert(is_continuation_byte(b[i - 1]));
        assert(false);
    } else {
        let p = pop_first_scalar(b);
        assert(p[i - 1 - n] == b[i - 1]);
        lemma_boundary_after_ascii(p, i - n);
    }
}

/// A position is a character boundary of `s` when it is an end of `s`, or an
/// ASCII byte stands right before or at it.
proof fn lemma_ascii_boundary(s: &str, i: int)
    requires
        0 <= i <= s.spec_bytes().len(),
        i == 0 || i == s.spec_bytes().len() || s.spec_bytes()[i] < 0x80 || s.spec_bytes()[i - 1] < 0x80,
    ensures
        is_char_boundary(s.spec_bytes(), i),
{
    let b = s.spec_bytes();
    encode_utf8_valid_utf8(s@);
    if i == 0 || i == b.len() {
    } else if b[i] < 0x80 {
        assert(!is_continuation_byte(b[i]));
    } else {
        lemma_boundary_after_ascii(b, i);
    }
}

/// Trimming leaves no trim byte at either end, and the result is a slice of
/// the input.
pub proof fn lemma_trim_shape(s: Seq<u8>)
    ensures
        exists|lo: int, hi: int| 0 <= lo <= hi <= s.len() && trim(s) == s.subrange(lo, hi),
        trim(s).len() > 0 ==> !is_trim(trim(s)[0]) && !is_trim(trim(s).last()),
{
    let (lo, f) = lemma_trim_front_shape(s);
    let (hi, g) = lemma_trim_back_shape(f);
    assert(trim(s) == s.subrange(lo, lo + hi)) by {
        assert(f.subrange(0, hi) =~= s.subrange(lo, lo + hi));
    }
    if trim(s).len() > 0 {
        assert(trim(s)[0] == f[0]);
    }
}

proof fn lemma_trim_front_shape(s: Seq<u8>) -> (r: (int, Seq<u8>))
    ensures
        0 <= r.0 <= s.len(),
        r.1 == trim_front(s),
        r.1 == s.subrange(r.0, s.len() as int),
        r.1.len() > 0 ==> !is_trim(r.1[0]),
    decreases s.len(),
{
    if s.len() > 0 && is_trim(s[0]) {
        let (k, t) = lemma_trim_front_shape(s.drop_first());
        assert(t =~= s.subrange(k + 1, s.len() as int));
        (k + 1, t)
    } else {
        assert(s =~= s.subrange(0, s.len() as int));
        (0, s)
    }
}

proof fn lemma_trim_back_shape(s: Seq<u8>) -> (r: (int, Seq<u8>))
    ensures
        0 <= r.0 <= s.len(),
        r.1 == trim_back(s),
        r.1 == s.subrange(0, r.0),
        r.1.len() > 0 ==> !is_trim(r.1.last()) && r.1[0] == s[0],
    decreases s.len(),
{
    if s.len() > 0 && is_trim(s.last()) {
        let (k, t) = lemma_trim_back_shape(s.drop_last());
        assert(t =~= s.subrange(0, k));
        (k, t)
    } else {
        assert(s =~= s.subrange(0, s.len() as int));
        (s.len() as int, s)
    }
}

/// No record body holds the mark: a capture is cut at every mark.
pub proof fn law_body_has_no_mark(r: Seq<u8>)
    requires
        has_mark(r),
    ensures
        forall|i: int| !mark_at(#[trigger] trim(raw_body(r)), i),
{
    let t = tail_after(r);
    let raw = raw_body(r);
    lemma_find_mark_bounds(r, 0);
    lemma_find_mark_bounds(t, 0);
    lemma_trim_shape(raw);
    let (lo, hi) = choose|lo: int, hi: int| 0 <= lo <= hi <= raw.len() && trim(raw) == raw.subrange(lo, hi);
    assert forall|i: int| !mark_at(trim(raw), i) by {
        if mark_at(trim(raw), i) {
            assert(t.subrange(lo + i, lo + i + 13) =~= trim(raw).subrange(i, i + 13));
            assert(mark_at(t, lo + i));
        }
    }
}

/// The first mark at or after `from` is the first `k` with a mark.
proof fn lemma_find_mark_is(b: Seq<u8>, from: nat, k: nat)
    requires
        from <= k,
        mark_at(b, k as int),
        forall|i: int| from <= i < k ==> !mark_at(b, i),
    ensures
        find_mark(b, from) == k,
    decreases k - from,
{
    if from < k {
        lemma_find_mark_is(b, from + 1, k);
    }
}

/// The mark at the front of `RECORD_MARK + x`.
proof fn lemma_marked(x: Seq<u8>)
    ensures
        find_mark(RECORD_MARK@ + x, 0) == 0,
        tail_after(RECORD_MARK@ + x) == x,
{
    let c = RECORD_MARK@ + x;
    assert(c.subrange(0, 13) =~= RECORD_MARK@);
    lemma_find_mark_is(c, 0, 0);
    assert(tail_after(c) =~= x);
}

/// A capture of one mark and a body with no mark in it holds exactly one
/// record: the trimmed body.
pub proof fn law_single_record(body: Seq<u8>)
    requires
        !has_mark(body),
    ensures
        record_bodies(RECORD_MARK@ + body) == seq![trim(body)],
{
    let c = RECORD_MARK@ + body;
    lemma_marked(body);
    lemma_find_mark_bounds(body, 0);
    assert(find_mark(body, 0) == body.len());
    assert(raw_body(c) =~= body);
    assert(rest_after(c) =~= Seq::<u8>::empty());
    assert(!has_mark(Seq::<u8>::empty()));
    assert(record_bodies(rest_after(c)) =~= Seq::<Seq<u8>>::empty());
    assert(record_bodies(c) =~= seq![trim(body)]);
}

/// Two records glued without a newline still come out as two: the
/// capture is cut at the second mark whatever stands before it, as long
/// as no mark starts inside the first body.
pub proof fn law_glued_records(a: Seq<u8>, b: Seq<u8>)
    requires
        !has_mark(b),
        forall|i: int| 0 <= i < a.len() ==> !mark_at(a + RECORD_MARK@ + b, i),
    ensures
        record_bodies(RECORD_MARK@ + (a + RECORD_MARK@ + b)) == seq![trim(a), trim(b)],
{
    let t = a + RECORD_MARK@ + b;
    let c = RECORD_MARK@ + t;
    lemma_marked(t);
    assert(t.subrange(a.len() as int, a.len() + 13int) =~= RECORD_MARK@);
    lemma_find_mark_is(t, 0, a.len());
    assert(raw_body(c) =~= a);
    assert(rest_after(c) =~= RECORD_MARK@ + b);
    law_single_record(b);
    assert(record_bodies(c) =~= seq![trim(a)] + seq![trim(b)]);
}

/// Record bodies begin and end with a byte other than space, tab, line feed
/// or carriage return.
pub proof fn law_body_is_trimmed(r: Seq<u8>)
    requires
        has_mark(r),
    ensures
        trim(raw_body(r)).len() > 0 ==> !is_trim(trim(raw_body(r))[0]) && !is_trim(trim(raw_body(r)).last()),
{
    lemma_trim_shape(raw_body(r));
}

// ---------------------------------------------------------------------------
// Executable helpers
// ---------------------------------------------------------------------------

fn mark_here(b: &[u8], i: usize) -> (r: bool)
    requires
        i + 13 <= b@.len(),
    ensures
        r == mark_at(b@, i as int),
{
    let n = b.len();
    let mut k: usize = 0;
    while k < 13
        invariant
            k <= 13,
            n == b@.len(),
            i + 13 <= b@.len(),
            forall|j: int| 0 <= j < k ==> b@[i + j] == RECORD_MARK@[j],
        decreases 13 - k,
    {
        if b[i + k] != RECORD_MARK[k] {
            assert(b@.subrange(i as int, i + 13)[k as int] != RECORD_MARK@[k as int]);
            return false;
        }
        k += 1;
    }
    assert(b@.subrange(i as int, i + 13) =~= RECORD_MARK@);
    true
}

fn find_mark_from(b: &[u8], from: usize) -> (r: usize)
    requires
        from <= b@.len(),
    ensures
        r == find_mark(b@, from as nat),
{
    let n = b.len();
    let mut i: usize = from;
    while 13 <= n - i
        invariant
            from <= i <= n,
            n == b@.len(),
            find_mark(b@, from as nat) == find_mark(b@, i as nat),
        decreases n - i,
    {
        if mark_here(b, i) {
            return i;
        }
        i += 1;
    }
    n
}

fn is_trim_byte(c: u8) -> (r: bool)
    ensures
        r == is_trim(c),
{
    c == 32 || c == 9 || c == 10 || c == 13
}

/// Strip leading and trailing space, tab, line feed and carriage return.
fn trim_ascii(s: &str) -> (r: &str)
    ensures
        r.spec_bytes() == trim(s.spec_bytes()),
{
    let b = s.as_bytes();
    let n = b.len();
    let mut i: usize = 0;
    assert(b@.subrange(0, n as int) =~= b@);
    while i < n && is_trim_byte(b[i])
        invariant
            i <= n,
            n == b@.len(),
            trim_front(b@) == trim_front(b@.subrange(i as int, n as int)),
            i > 0 ==> is_trim(b@[i - 1]),
        decreases n - i,
    {
        assert(b@.subrange(i as int, n as int).drop_first() =~= b@.subrange(i + 1, n as int));
        i += 1;
    }
    let ghost front = b@.subrange(i as int, n as int);
    assert(trim_front(b@) == front);
    let mut j: usize = n;
    while j > i && is_trim_byte(b[j - 1])
        invariant
            i <= j <= n,
            n == b@.len(),
            trim_back(front) == trim_back(b@.subrange(i as int, j as int)),
            front == b@.subrange(i as int, n as int),
            j < n ==> is_trim(b@[j as int]),
        decreases j - i,
    {
        assert(b@.subrange(i as int, j as int).drop_last() =~= b@.subrange(i as int, j - 1));
        j -= 1;
    }
    assert(trim(b@) == b@.subrange(i as int, j as int));
    proof {
        lemma_ascii_boundary(s, i as int);
    }
    let (_, t) = s.split_at(i);
    proof {
        assert(t.spec_bytes() =~= front);
        if j < n {
            assert(t.spec_bytes()[j - i] == b@[j as int]);
        }
        lemma_ascii_boundary(t, j - i);
    }
    let (r, _) = t.split_at(j - i);
    assert(r.spec_bytes() =~= b@.subrange(i as int, j as int));
    r
}

// ---------------------------------------------------------------------------
// Records
// ---------------------------------------------------------------------------

/// One record after the mark, whitespace trimmed.
#[derive(Debug, Clone, Copy)]
pub struct Record<'a> {
    /// Classified kind.
    pub kind: LineKind,
    /// Text after `simple-debug:` with leading/trailing ASCII space stripped.
    pub body: &'a str,
}

/// `rec` is the record whose trimmed body has the bytes `body`: its kind is
/// the one its first token names.
pub open spec fn record_of(rec: Record, body: Seq<u8>) -> bool {
    rec.body.spec_bytes() == body && rec.kind == kind_of_body(body)
}

/// Walk over the records of a capture, one per mark, including glued lines.
#[derive(Debug, Clone)]
pub struct RecordIter<'a> {
    rest: &'a str,
}

impl<'a> View for RecordIter<'a> {
    type V = Seq<u8>;

    /// The bytes not walked yet.
    closed spec fn view(&self) -> Seq<u8> {
        self.rest.spec_bytes()
    }
}

/// Walk `text` yielding one record per mark, including glued lines.
pub fn records(text: &str) -> (r: RecordIter<'_>)
    ensures
        r@ == text.spec_bytes(),
{
    RecordIter { rest: text }
}

impl<'a> RecordIter<'a> {
    /// The next record: the text from the end of the next mark up to the mark
    /// after it (or the end), trimmed. `None` once no mark is left.
    pub fn next(&mut self) -> (r: Option<Record<'a>>)
        ensures
            match r {
                None => !has_mark(old(self)@) && final(self)@ == old(self)@,
                Some(rec) => {
                    &&& has_mark(old(self)@)
                    &&& record_of(rec, trim(raw_body(old(self)@)))
                    &&& final(self)@ == rest_after(old(self)@)
                },
            },
    {
        let bytes = self.rest.as_bytes();
        let start = find_mark_from(bytes, 0);
        proof {
            lemma_find_mark_bounds(bytes@, 0);
        }
        if start == bytes.len() {
            return None;
        }
        let after = start + 13;
        proof {
            assert(bytes@.subrange(start as int, start + 13)[12] == 58);
            lemma_ascii_boundary(self.rest, after as int);
        }
        let (_, tail) = self.rest.split_at(after);
        let tb = tail.as_bytes();
        let rel = find_mark_from(tb, 0);
        proof {
            lemma_find_mark_bounds(tb@, 0);
            if rel < tb@.len() {
                assert(tb@.subrange(rel as int, rel + 13)[0] == 115);
            }
            lemma_ascii_boundary(tail, rel as int);
        }
        let (raw, rest) = tail.split_at(rel);
        self.rest = rest;
        let body = trim_ascii(raw);
        let kind = classify(body);
        Some(Record { kind, body })
    }

    /// Every remaining record, in order.
    pub fn collect_all(self) -> (v: Vec<Record<'a>>)
        ensures
            v@.len() == record_bodies(self@).len(),
            forall|k: int| 0 <= k < v@.len() ==> record_of(#[trigger] v@[k], record_bodies(self@)[k]),
    {
        let ghost start = self@;
        let mut it = self;
        let mut v: Vec<Record<'a>> = Vec::new();
        loop
            invariant
                start == self@,
                v@.len() + record_bodies(it@).len() == record_bodies(start).len(),
                forall|k: int| 0 <= k < v@.len() ==> record_of(#[trigger] v@[k], record_bodies(start)[k]),
                record_bodies(it@) == record_bodies(start).subrange(v@.len() as int, record_bodies(start).len() as int),
            decreases it@.len(),
        {
            let ghost before = it@;
            match it.next() {
                None => {
                    assert(record_bodies(before).len() == 0);
                    return v;
                },
                Some(rec) => {
                    let ghost done = v@.len();
                    proof {
                        lemma_find_mark_bounds(before, 0);
                        lemma_find_mark_bounds(tail_after(before), 0);
                        assert(record_bodies(before) == seq![rec.body.spec_bytes()] + record_bodies(it@));
                        assert(record_bodies(before)[0] == rec.body.spec_bytes());
                        assert(record_bodies(start)[done as int] == record_bodies(before)[0]);
                        assert(record_bodies(it@) =~= record_bodies(before).drop_first());
                        assert(record_bodies(it@) =~= record_bodies(start).subrange(done + 1int, record_bodies(start).len() as int));
                    }
                    let ghost old_v = v@;
                    v.push(rec);
                    assert forall|k: int| 0 <= k < v@.len() implies record_of(#[trigger] v@[k], record_bodies(start)[k]) by {
                        if k < done {
                            assert(v@[k] == old_v[k]);
                        } else {
                            assert(v@[k] == rec);
                        }
                    }
                },
            }
        }
    }
}

// ---------------------------------------------------------------------------
// Tokens
// ---------------------------------------------------------------------------

/// Kind of one `simple-debug:` record.
#[derive(Debug, Clone, Copy, PartialEq, Eq, Structural)]
pub enum LineKind {
    /// Repeating identity (`hello`).
    Hello,
    /// Git stamp (`git=`).
    Git,
    /// Input sample (`gpio`).
    Gpio,
    /// 1 Hz buttons (`hb`).
    Hb,
    /// Button transition (`edge`).
    Edge,
    /// I2C ACK/NAK sample (`i2c`).
    I2c,
    /// Touch INT / contacts (`touch`).
    Touch,
    /// PDM energy (`mic`).
    Mic,
    /// PCM sample row (`pcm`).
    Pcm,
    /// Panel refresh stamp (`panel`).
    Panel,
    /// Card token (`scene=`).
    Scene,
    /// Frontlight PWM duty (`lamp=`).
    Lamp,
    /// Lite leftover MCU inputs (`leftover`).
    Leftover,
    /// Wi-Fi scan count (`wifi n=`).
    Wifi,
    /// BLE scan count (`ble n=`).
    Ble,
    /// Gated charge sample (`charge vbat=`).
    Charge,
    /// Sleep arm or abort (`sleep rtc=` / `sleep abort`).
    Sleep,
    /// Wake source (`wake src=`).
    Wake,
    /// Snowflake render time (`snowflake us=`).
    Snowflake,
    /// Mark matched, first token unknown.
    Unknown,
}

/// `git=`
pub const KW_GIT_EQ: [u8; 4] = [103, 105, 116, 61];
/// `scene=`
pub const KW_SCENE_EQ: [u8; 6] = [115, 99, 101, 110, 101, 61];
/// `lamp=`
pub const KW_LAMP_EQ: [u8; 5] = [108, 97, 109, 112, 61];
/// `hello`
pub const KW_HELLO: [u8; 5] = [104, 101, 108, 108, 111];
/// `gpio`
pub const KW_GPIO: [u8; 4] = [103, 112, 105, 111];
/// `hb`
pub const KW_HB: [u8; 2] = [104, 98];
/// `edge`
pub const KW_EDGE: [u8; 4] = [101, 100, 103, 101];
/// `i2c`
pub const KW_I2C: [u8; 3] = [105, 50, 99];
/// `touch`
pub const KW_TOUCH: [u8; 5] = [116, 111, 117, 99, 104];
/// `mic`
pub const KW_MIC: [u8; 3] = [109, 105, 99];
/// `pcm`
pub const KW_PCM: [u8; 3] = [112, 99, 109];
/// `panel`
pub const KW_PANEL: [u8; 5] = [112, 97, 110, 101, 108];
/// `leftover`
pub const KW_LEFTOVER: [u8; 8] = [108, 101, 102, 116, 111, 118, 101, 114];
/// `wifi`
pub const KW_WIFI: [u8; 4] = [119, 105, 102, 105];
/// `ble`
pub const KW_BLE: [u8; 3] = [98, 108, 101];
/// `charge`
pub const KW_CHARGE: [u8; 6] = [99, 104, 97, 114, 103, 101];
/// `sleep`
pub const KW_SLEEP: [u8; 5] = [115, 108, 101, 101, 112];
/// `wake`
pub const KW_WAKE: [u8; 4] = [119, 97, 107, 101];
/// `snowflake`
pub const KW_SNOWFLAKE: [u8; 9] = [115, 110, 111, 119, 102, 108, 97, 107, 101];
/// `mac`
pub const NAME_MAC: [u8; 3] = [109, 97, 99];
/// `iserial`
pub const NAME_ISERIAL: [u8; 7] = [105, 115, 101, 114, 105, 97, 108];
/// `bssid`
pub const NAME_BSSID: [u8; 5] = [98, 115, 115, 105, 100];
/// `irk`
pub const NAME_IRK: [u8; 3] = [105, 114, 107];

/// ASCII whitespace as `split_ascii_whitespace` sees it.
pub open spec fn is_ws(c: u8) -> bool {
    c == 32 || c == 9 || c == 10 || c == 12 || c == 13
}

/// End of the run of non-whitespace bytes that starts at `i`.
pub open spec fn token_end(s: Seq<u8>, i: nat) -> nat
    decreases s.len() - i,
{
    if i < s.len() && !is_ws(s[i as int]) {
        token_end(s, i + 1)
    } else {
        i
    }
}

/// The whitespace-separated tokens of `s` from byte `i` on.
pub open spec fn tokens_from(s: Seq<u8>, i: nat) -> Seq<Seq<u8>>
    decreases s.len() - i,
{
    if i >= s.len() {
        Seq::empty()
    } else if is_ws(s[i as int]) {
        tokens_from(s, i + 1)
    } else {
        proof {
            lemma_token_end(s, i + 1);
        }
        seq![s.subrange(i as int, token_end(s, i) as int)] + tokens_from(s, token_end(s, i))
    }
}

/// Index of the first `=` in `t` at or after `i`; `t.len()` when none.
pub open spec fn first_eq(t: Seq<u8>, i: nat) -> nat
    decreases t.len() - i,
{
    if i >= t.len() {
        t.len()
    } else if t[i as int] == 61 {
        i
    } else {
        first_eq(t, i + 1)
    }
}

/// The key of a token: what comes before its first `=`, or all of it.
pub open spec fn name_of(t: Seq<u8>) -> Seq<u8> {
    t.subrange(0, first_eq(t, 0) as int)
}

/// Value of the first `key=value` token in `ts` whose key is `key`.
pub open spec fn field_in(ts: Seq<Seq<u8>>, key: Seq<u8>) -> Option<Seq<u8>>
    decreases ts.len(),
{
    if ts.len() == 0 {
        None
    } else {
        let t = ts[0];
        let q = first_eq(t, 0);
        if q < t.len() && t.subrange(0, q as int) == key {
            Some(t.subrange(q + 1int, t.len() as int))
        } else {
            field_in(ts.drop_first(), key)
        }
    }
}

/// Value of `key=` in a record body.
pub open spec fn field_of(body: Seq<u8>, key: Seq<u8>) -> Option<Seq<u8>> {
    field_in(tokens_from(body, 0), key)
}

/// ASCII lower case of one byte.
pub open spec fn lower(c: u8) -> u8 {
    if 65 <= c <= 90 {
        (c + 32) as u8
    } else {
        c
    }
}

/// Equal ignoring ASCII case.
pub open spec fn eq_ci(a: Seq<u8>, b: Seq<u8>) -> bool {
    a.len() == b.len() && forall|i: int| 0 <= i < a.len() ==> lower(a[i]) == lower(b[i])
}

/// A token key that names a unit identity (`mac`, `iserial`, `bssid`, `irk`).
pub open spec fn is_id_name(n: Seq<u8>) -> bool {
    eq_ci(n, NAME_MAC@) || eq_ci(n, NAME_ISERIAL@) || eq_ci(n, NAME_BSSID@) || eq_ci(n, NAME_IRK@)
}

/// Some token of `ts` has an identity key.
pub open spec fn any_id(ts: Seq<Seq<u8>>) -> bool
    decreases ts.len(),
{
    ts.len() > 0 && (is_id_name(name_of(ts[0])) || any_id(ts.drop_first()))
}

/// A record body carries a unit identity field.
pub open spec fn mentions_id(body: Seq<u8>) -> bool {
    any_id(tokens_from(body, 0))
}

/// `t` begins with `p`.
pub open spec fn starts(t: Seq<u8>, p: Seq<u8>) -> bool {
    p.len() <= t.len() && t.subrange(0, p.len() as int) == p
}

/// Kind named by a first token.
pub open spec fn kind_of_token(t: Seq<u8>) -> LineKind {
    if starts(t, KW_GIT_EQ@) {
        LineKind::Git
    } else if starts(t, KW_SCENE_EQ@) {
        LineKind::Scene
    } else if starts(t, KW_LAMP_EQ@) {
        LineKind::Lamp
    } else if t == KW_HELLO@ {
        LineKind::Hello
    } else if t == KW_GPIO@ {
        LineKind::Gpio
    } else if t == KW_HB@ {
        LineKind::Hb
    } else if t == KW_EDGE@ {
        LineKind::Edge
    } else if t == KW_I2C@ {
        LineKind::I2c
    } else if t == KW_TOUCH@ {
        LineKind::Touch
    } else if t == KW_MIC@ {
        LineKind::Mic
    } else if t == KW_PCM@ {
        LineKind::Pcm
    } else if t == KW_PANEL@ {
        LineKind::Panel
    } else if t == KW_LEFTOVER@ {
        LineKind::Leftover
    } else if t == KW_WIFI@ {
        LineKind::Wifi
    } else if t == KW_BLE@ {
        LineKind::Ble
    } else if t == KW_CHARGE@ {
        LineKind::Charge
    } else if t == KW_SLEEP@ {
        LineKind::Sleep
    } else if t == KW_WAKE@ {
        LineKind::Wake
    } else if t == KW_SNOWFLAKE@ {
        LineKind::Snowflake
    } else {
        LineKind::Unknown
    }
}

/// First token of `s`, empty when `s` is all whitespace.
pub open spec fn first_token(s: Seq<u8>) -> Seq<u8> {
    let ts = tokens_from(s, 0);
    if ts.len() > 0 {
        ts[0]
    } else {
        Seq::empty()
    }
}

/// Kind of a record body: that of its first token.
pub open spec fn kind_of_body(s: Seq<u8>) -> LineKind {
    kind_of_token(first_token(s))
}

/// Bounds of `token_end`.
pub proof fn lemma_token_end(s: Seq<u8>, i: nat)
    ensures
        i <= token_end(s, i),
        i <= s.len() ==> token_end(s, i) <= s.len(),
        token_end(s, i) < s.len() ==> is_ws(s[token_end(s, i) as int]),
    decreases s.len() - i,
{
    if i < s.len() && !is_ws(s[i as int]) {
        lemma_token_end(s, i + 1);
    }
}

proof fn lemma_first_eq(t: Seq<u8>, i: nat)
    ensures
        first_eq(t, i) <= t.len() || first_eq(t, i) == i,
        i <= t.len() ==> first_eq(t, i) <= t.len(),
        first_eq(t, i) < t.len() ==> t[first_eq(t, i) as int] == 61,
    decreases t.len() - i,
{
    if i < t.len() && t[i as int] != 61 {
        lemma_first_eq(t, i + 1);
    }
}

fn is_ws_byte(c: u8) -> (r: bool)
    ensures
        r == is_ws(c),
{
    c == 32 || c == 9 || c == 10 || c == 12 || c == 13
}

fn token_end_at(b: &[u8], i: usize) -> (r: usize)
    requires
        i <= b@.len(),
    ensures
        r == token_end(b@, i as nat),
{
    let mut j: usize = i;
    while j < b.len() && !is_ws_byte(b[j])
        invariant
            i <= j <= b@.len(),
            token_end(b@, i as nat) == token_end(b@, j as nat),
        decreases b@.len() - j,
    {
        j += 1;
    }
    j
}

fn first_eq_in(t: &[u8]) -> (r: usize)
    ensures
        r == first_eq(t@, 0),
{
    let mut i: usize = 0;
    while i < t.len() && t[i] != 61
        invariant
            i <= t@.len(),
            first_eq(t@, 0) == first_eq(t@, i as nat),
        decreases t@.len() - i,
    {
        i += 1;
    }
    i
}

fn bytes_eq(a: &[u8], b: &[u8]) -> (r: bool)
    ensures
        r == (a@ == b@),
{
    if a.len() != b.len() {
        return false;
    }
    let mut i: usize = 0;
    while i < a.len()
        invariant
            a@.len() == b@.len(),
            i <= a@.len(),
            forall|j: int| 0 <= j < i ==> a@[j] == b@[j],
        decreases a@.len() - i,
    {
        if a[i] != b[i] {
            return false;
        }
        i += 1;
    }
    assert(a@ =~= b@);
    true
}

fn starts_with(t: &[u8], p: &[u8]) -> (r: bool)
    ensures
        r == starts(t@, p@),
{
    if p.len() > t.len() {
        return false;
    }
    let mut i: usize = 0;
    while i < p.len()
        invariant
            p@.len() <= t@.len(),
            i <= p@.len(),
            forall|j: int| 0 <= j < i ==> t@[j] == p@[j],
        decreases p@.len() - i,
    {
        if t[i] != p[i] {
            assert(t@.subrange(0, p@.len() as int)[i as int] != p@[i as int]);
            return false;
        }
        i += 1;
    }
    assert(t@.subrange(0, p@.len() as int) =~= p@);
    true
}

fn lower_byte(c: u8) -> (r: u8)
    ensures
        r == lower(c),
{
    if 65 <= c && c <= 90 {
        c + 32
    } else {
        c
    }
}

fn eq_ignore_ascii(a: &[u8], b: &[u8]) -> (r: bool)
    ensures
        r == eq_ci(a@, b@),
{
    if a.len() != b.len() {
        return false;
    }
    let mut i: usize = 0;
    while i < a.len()
        invariant
            a@.len() == b@.len(),
            i <= a@.len(),
            forall|j: int| 0 <= j < i ==> lower(a@[j]) == lower(b@[j]),
        decreases a@.len() - i,
    {
        if lower_byte(a[i]) != lower_byte(b[i]) {
            return false;
        }
        i += 1;
    }
    true
}

fn kind_of(t: &[u8]) -> (r: LineKind)
    ensures
        r == kind_of_token(t@),
{
    if starts_with(t, &KW_GIT_EQ) {
        LineKind::Git
    } else if starts_with(t, &KW_SCENE_EQ) {
        LineKind::Scene
    } else if starts_with(t, &KW_LAMP_EQ) {
        LineKind::Lamp
    } else if bytes_eq(t, &KW_HELLO) {
        LineKind::Hello
    } else if bytes_eq(t, &KW_GPIO) {
        LineKind::Gpio
    } else if bytes_eq(t, &KW_HB) {
        LineKind::Hb
    } else if bytes_eq(t, &KW_EDGE) {
        LineKind::Edge
    } else if bytes_eq(t, &KW_I2C) {
        LineKind::I2c
    } else if bytes_eq(t, &KW_TOUCH) {
        LineKind::Touch
    } else if bytes_eq(t, &KW_MIC) {
        LineKind::Mic
    } else if bytes_eq(t, &KW_PCM) {
        LineKind::Pcm
    } else if bytes_eq(t, &KW_PANEL) {
        LineKind::Panel
    } else if bytes_eq(t, &KW_LEFTOVER) {
        LineKind::Leftover
    } else if bytes_eq(t, &KW_WIFI) {
        LineKind::Wifi
    } else if bytes_eq(t, &KW_BLE) {
        LineKind::Ble
    } else if bytes_eq(t, &KW_CHARGE) {
        LineKind::Charge
    } else if bytes_eq(t, &KW_SLEEP) {
        LineKind::Sleep
    } else if bytes_eq(t, &KW_WAKE) {
        LineKind::Wake
    } else if bytes_eq(t, &KW_SNOWFLAKE) {
        LineKind::Snowflake
    } else {
        LineKind::Unknown
    }
}

/// Classify the first token of a record body.
pub fn classify(body: &str) -> (r: LineKind)
    ensures
        r == kind_of_body(body.spec_bytes()),
{
    let b = body.as_bytes();
    let n = b.len();
    let mut pos: usize = 0;
    while pos < n && is_ws_byte(b[pos])
        invariant
            pos <= n,
            n == b@.len(),
            tokens_from(b@, 0) == tokens_from(b@, pos as nat),
        decreases n - pos,
    {
        pos += 1;
    }
    let e = if pos < n {
        token_end_at(b, pos)
    } else {
        pos
    };
    proof {
        lemma_token_end(b@, pos as nat);
    }
    let t = vstd::slice::slice_subrange(b, pos, e);
    assert(first_token(b@) == t@) by {
        if pos >= n {
            assert(t@ =~= Seq::<u8>::empty());
        }
    }
    kind_of(t)
}

/// First `key=value` token in `body` whose key matches.
pub fn field<'a>(body: &'a str, key: &str) -> (r: Option<&'a str>)
    ensures
        match r {
            Some(v) => field_of(body.spec_bytes(), key.spec_bytes()) == Some(v.spec_bytes()),
            None => field_of(body.spec_bytes(), key.spec_bytes()) is None,
        },
{
    let b = body.as_bytes();
    let k = key.as_bytes();
    let n = b.len();
    let mut pos: usize = 0;
    while pos < n
        invariant
            pos <= n,
            n == b@.len(),
            b@ == body.spec_bytes(),
            k@ == key.spec_bytes(),
            field_of(b@, k@) == field_in(tokens_from(b@, pos as nat), k@),
        decreases n - pos,
    {
        if is_ws_byte(b[pos]) {
            pos += 1;
        } else {
            let e = token_end_at(b, pos);
            proof {
                lemma_token_end(b@, pos as nat);
                lemma_token_end(b@, (pos + 1) as nat);
            }
            let t = vstd::slice::slice_subrange(b, pos, e);
            let ghost ts = tokens_from(b@, pos as nat);
            assert(ts[0] == t@);
            assert(ts.drop_first() =~= tokens_from(b@, e as nat));
            let q = first_eq_in(t);
            proof {
                lemma_first_eq(t@, 0);
            }
            if q < t.len() && bytes_eq(vstd::slice::slice_subrange(t, 0, q), k) {
                let vs = pos + q + 1;
                proof {
                    assert(b@[vs - 1] == t@[q as int]);
                    lemma_ascii_boundary(body, vs as int);
                }
                let (_, after) = body.split_at(vs);
                proof {
                    if e < n {
                        assert(after.spec_bytes()[e - vs] == b@[e as int]);
                    }
                    lemma_ascii_boundary(after, e - vs);
                }
                let (v, _) = after.split_at(e - vs);
                assert(v.spec_bytes() =~= t@.subrange(q + 1, t@.len() as int));
                return Some(v);
            }
            pos = e;
        }
    }
    None
}

/// The record text holds a token whose key is `mac`, `iserial`, `bssid` or
/// `irk`, in any ASCII case.
fn mentions_mac(body: &str) -> (r: bool)
    ensures
        r == mentions_id(body.spec_bytes()),
{
    let b = body.as_bytes();
    let n = b.len();
    let mut pos: usize = 0;
    while pos < n
        invariant
            pos <= n,
            n == b@.len(),
            b@ == body.spec_bytes(),
            mentions_id(b@) == any_id(tokens_from(b@, pos as nat)),
        decreases n - pos,
    {
        if is_ws_byte(b[pos]) {
            pos += 1;
        } else {
            let e = token_end_at(b, pos);
            proof {
                lemma_token_end(b@, pos as nat);
                lemma_token_end(b@, (pos + 1) as nat);
            }
            let t = vstd::slice::slice_subrange(b, pos, e);
            let ghost ts = tokens_from(b@, pos as nat);
            assert(ts[0] == t@);
            assert(ts.drop_first() =~= tokens_from(b@, e as nat));
            let q = first_eq_in(t);
            proof {
                lemma_first_eq(t@, 0);
            }
            let name = vstd::slice::slice_subrange(t, 0, q);
            if eq_ignore_ascii(name, &NAME_MAC) || eq_ignore_ascii(name, &NAME_ISERIAL)
                || eq_ignore_ascii(name, &NAME_BSSID) || eq_ignore_ascii(name, &NAME_IRK) {
                return true;
            }
            pos = e;
        }
    }
    false
}

impl<'a> Record<'a> {
    /// Value of `key=` in this record, if present.
    pub fn field(&self, key: &str) -> (r: Option<&'a str>)
        ensures
            match r {
                Some(v) => field_of(self.body.spec_bytes(), key.spec_bytes()) == Some(v.spec_bytes()),
                None => field_of(self.body.spec_bytes(), key.spec_bytes()) is None,
            },
    {
        field(self.body, key)
    }

    /// True when the record text has a token keyed `mac`, `iserial`, `bssid`
    /// or `irk` (any ASCII case).
    pub fn mentions_mac(&self) -> (r: bool)
        ensures
            r == mentions_id(self.body.spec_bytes()),
    {
        mentions_mac(self.body)
    }
}

/// No mark can start where no colon stands.
proof fn lemma_no_colon_no_mark(t: Seq<u8>)
    requires
        forall|i: int| 0 <= i < t.len() ==> #[trigger] t[i] != 58,
    ensures
        !has_mark(t),
{
    lemma_find_mark_bounds(t, 0);
    assert(RECORD_MARK@ =~= seq![115u8, 105, 109, 112, 108, 101, 45, 100, 101, 98, 117, 103, 58]);
    if has_mark(t) {
        let k = find_mark(t, 0) as int;
        assert(t.subrange(k, k + 13)[12] == t[k + 12]);
    }
}

/// `token_end` over a run of non-whitespace bytes that ends at `j`.
proof fn lemma_token_end_is(s: Seq<u8>, i: nat, j: nat)
    requires
        i <= j <= s.len(),
        forall|k: int| i <= k < j ==> !is_ws(#[trigger] s[k]),
        j == s.len() || is_ws(s[j as int]),
    ensures
        token_end(s, i) == j,
    decreases j - i,
{
    if i < j {
        lemma_token_end_is(s, i + 1, j);
    }
}

/// A token whose key is shorter than two bytes or exactly two bytes long
/// names no unit identity (those keys have three to seven bytes).
proof fn lemma_not_id(tok: Seq<u8>)
    requires
        tok.len() <= 2 || (tok.len() >= 2 && tok[1] == 61),
    ensures
        !is_id_name(name_of(tok)),
{
    if tok.len() >= 2 && tok[1] == 61 {
        if tok[0] == 61 {
            assert(first_eq(tok, 0) == 0);
        } else {
            assert(first_eq(tok, 1) == 1);
            assert(first_eq(tok, 0) == 1);
        }
    } else {
        lemma_first_eq(tok, 0);
    }
    assert(name_of(tok).len() <= 2);
    assert(NAME_MAC@ =~= seq![109u8, 97, 99]);
    assert(NAME_ISERIAL@ =~= seq![105u8, 115, 101, 114, 105, 97, 108]);
    assert(NAME_BSSID@ =~= seq![98u8, 115, 115, 105, 100]);
    assert(NAME_IRK@ =~= seq![105u8, 114, 107]);
}

/// A `btn_?=<v>` token names no unit identity.
proof fn lemma_button_not_id(tok: Seq<u8>, which: u8, v: u8)
    requires
        tok == seq![98u8, 116, 110, 95, which, 61] + seq![v],
        which != 61,
    ensures
        !is_id_name(name_of(tok)),
{
    assert(first_eq(tok, 5) == 5);
    assert(first_eq(tok, 4) == 5);
    assert(first_eq(tok, 3) == 5);
    assert(first_eq(tok, 2) == 5);
    assert(first_eq(tok, 1) == 5);
    assert(first_eq(tok, 0) == 5);
    assert(NAME_MAC@ =~= seq![109u8, 97, 99]);
    assert(NAME_ISERIAL@ =~= seq![105u8, 115, 101, 114, 105, 97, 108]);
    assert(NAME_BSSID@ =~= seq![98u8, 115, 115, 105, 100]);
    assert(NAME_IRK@ =~= seq![105u8, 114, 107]);
    assert(name_of(tok).len() == 5);
    assert(name_of(tok)[1] == 116);
    assert(lower(name_of(tok)[1]) != lower(NAME_BSSID@[1]));
}

/// Four tokens, none keyed by a unit identity.
proof fn lemma_none_is_id(a: Seq<u8>, b: Seq<u8>, c: Seq<u8>, d: Seq<u8>)
    requires
        !is_id_name(name_of(a)),
        !is_id_name(name_of(b)),
        !is_id_name(name_of(c)),
        !is_id_name(name_of(d)),
    ensures
        !any_id(seq![a, b, c, d]),
{
    let l4 = seq![d];
    let l34 = seq![c, d];
    let l234 = seq![b, c, d];
    let l1234 = seq![a, b, c, d];
    let empty = Seq::<Seq<u8>>::empty();
    assert(!any_id(empty));
    assert(l4.drop_first() =~= empty);
    assert(l4[0] == d);
    assert(!any_id(l4));
    assert(l34.drop_first() =~= l4);
    assert(l34[0] == c);
    assert(!any_id(l34));
    assert(l234.drop_first() =~= l34);
    assert(l234[0] == b);
    assert(!any_id(l234));
    assert(l1234.drop_first() =~= l234);
    assert(l1234[0] == a);
}

/// Body of a heartbeat record: `hb t=<t> btn_a=<a> btn_b=<b>`.
spec fn hb_body(s: Snapshot) -> Seq<u8> {
    seq![104u8, 98, 32, 116, 61] + dec(s.t_s as nat) + seq![32u8, 98, 116, 110, 95, 97, 61] + bit(s.btn_a)
        + seq![32u8, 98, 116, 110, 95, 98, 61] + bit(s.btn_b)
}

/// Tokens of a heartbeat body: `hb`, `t=<t>`, `btn_a=<a>`, `btn_b=<b>`.
spec fn hb_tokens(s: Snapshot) -> Seq<Seq<u8>> {
    seq![
        seq![104u8, 98],
        seq![116u8, 61] + dec(s.t_s as nat),
        seq![98u8, 116, 110, 95, 97, 61] + bit(s.btn_a),
        seq![98u8, 116, 110, 95, 98, 61] + bit(s.btn_b),
    ]
}

/// A heartbeat line is one record, and its body is [`hb_body`].
proof fn lemma_heartbeat_body(s: Snapshot)
    ensures
        record_bodies(heartbeat_line(s)) == seq![hb_body(s)],
{
    broadcast use group_string_axioms;

    reveal_strlit("simple-debug");
    reveal_strlit(": ");
    reveal_strlit("hb t=");
    reveal_strlit(" btn_a=");
    reveal_strlit(" btn_b=");
    assert(is_ascii("simple-debug"));
    assert(is_ascii(": "));
    assert(is_ascii("hb t="));
    assert(is_ascii(" btn_a="));
    assert(is_ascii(" btn_b="));
    is_ascii_spec_bytes("simple-debug");
    is_ascii_spec_bytes(": ");
    is_ascii_spec_bytes("hb t=");
    is_ascii_spec_bytes(" btn_a=");
    is_ascii_spec_bytes(" btn_b=");
    assert(sb("hb t=") =~= seq![104u8, 98, 32, 116, 61]);
    assert(sb(" btn_a=") =~= seq![32u8, 98, 116, 110, 95, 97, 61]);
    assert(sb(" btn_b=") =~= seq![32u8, 98, 116, 110, 95, 98, 61]);
    assert(RECORD_MARK@ =~= seq![115u8, 105, 109, 112, 108, 101, 45, 100, 101, 98, 117, 103, 58]);
    assert(head() =~= RECORD_MARK@ + seq![32u8]);
    let d = dec(s.t_s as nat);
    let bb = bit(s.btn_b);
    lemma_dec_digits(s.t_s as nat);
    let body = hb_body(s);
    let tail = seq![32u8] + body;
    let line = heartbeat_line(s);
    assert(line =~= RECORD_MARK@ + tail);
    let dl = d.len() as int;
    assert(body.len() == 21 + dl);
    assert forall|i: int| 0 <= i < tail.len() implies #[trigger] tail[i] != 58 by {
        if i >= 1 {
            assert(tail[i] == body[i - 1]);
            if 6 <= i < 6 + dl {
                assert(body[i - 1] == d[i - 6]);
            }
        }
    }
    lemma_no_colon_no_mark(tail);
    law_single_record(tail);
    assert(tail.drop_first() =~= body);
    assert(trim_front(body) == body);
    assert(trim_front(tail) == body);
    assert(body.last() == bb[0]);
    assert(trim_back(body) == body);
    assert(trim(tail) == body);
}

/// The tokens of a heartbeat body are [`hb_tokens`].
proof fn lemma_heartbeat_tokens(s: Snapshot)
    ensures
        tokens_from(hb_body(s), 0) == hb_tokens(s),
{
    let d = dec(s.t_s as nat);
    let ba = bit(s.btn_a);
    let bb = bit(s.btn_b);
    lemma_dec_digits(s.t_s as nat);
    let body = hb_body(s);
    let dl = d.len() as int;
    assert(body.len() == 21 + dl);
    let p2 = seq![32u8, 98, 116, 110, 95, 97, 61];
    let p3 = seq![32u8, 98, 116, 110, 95, 98, 61];
    assert forall|k: int| 5 <= k < 5 + dl implies #[trigger] body[k] == d[k - 5] by {}
    assert forall|k: int| 5 + dl <= k < 12 + dl implies #[trigger] body[k] == p2[k - 5 - dl] by {}
    assert forall|k: int| 13 + dl <= k < 20 + dl implies #[trigger] body[k] == p3[k - 13 - dl] by {}
    assert(body[12 + dl] == ba[0] && body[20 + dl] == bb[0]);
    lemma_token_end_is(body, 0, 2);
    assert forall|k: int| 3 <= k < 5 + dl implies !is_ws(#[trigger] body[k]) by {
        if 5 <= k {
            assert(body[k] == d[k - 5]);
        }
    }
    assert forall|k: int| 6 + dl <= k < 13 + dl implies !is_ws(#[trigger] body[k]) by {
        if k < 12 + dl {
            assert(body[k] == p2[k - 5 - dl]);
        }
    }
    assert forall|k: int| 14 + dl <= k < 21 + dl implies !is_ws(#[trigger] body[k]) by {
        if k < 20 + dl {
            assert(body[k] == p3[k - 13 - dl]);
        }
    }
    lemma_token_end_is(body, 3, (5 + dl) as nat);
    lemma_token_end_is(body, (6 + dl) as nat, (13 + dl) as nat);
    lemma_token_end_is(body, (14 + dl) as nat, (21 + dl) as nat);
    let t = hb_tokens(s);
    assert(body.subrange(0, 2) =~= t[0]);
    assert(body.subrange(3, 5 + dl) =~= t[1]);
    assert(body.subrange(6 + dl, 13 + dl) =~= t[2]);
    assert(body.subrange(14 + dl, 21 + dl) =~= t[3]);
    assert(tokens_from(body, (21 + dl) as nat) =~= Seq::<Seq<u8>>::empty());
    assert(tokens_from(body, (14 + dl) as nat) =~= seq![t[3]]);
    assert(tokens_from(body, (13 + dl) as nat) == tokens_from(body, (14 + dl) as nat));
    assert(tokens_from(body, (6 + dl) as nat) =~= seq![t[2], t[3]]);
    assert(tokens_from(body, (5 + dl) as nat) == tokens_from(body, (6 + dl) as nat));
    assert(tokens_from(body, 3) =~= seq![t[1], t[2], t[3]]);
    assert(tokens_from(body, 2) == tokens_from(body, 3));
    assert(tokens_from(body, 0) =~= t);
}

/// A heartbeat line as the log module writes it reads back as exactly
/// one `hb` record whose `t=` field holds the seconds that were written,
/// and none of its tokens is keyed by a unit identity.
pub proof fn law_heartbeat_read_back(s: Snapshot)
    ensures
        record_bodies(heartbeat_line(s)).len() == 1,
        kind_of_body(record_bodies(heartbeat_line(s))[0]) == LineKind::Hb,
        field_of(record_bodies(heartbeat_line(s))[0], sb("t")) == Some(dec(s.t_s as nat)),
        !mentions_id(record_bodies(heartbeat_line(s))[0]),
{
    broadcast use group_string_axioms;

    lemma_heartbeat_body(s);
    lemma_heartbeat_tokens(s);
    let body = hb_body(s);
    let t = hb_tokens(s);
    let d = dec(s.t_s as nat);
    assert(record_bodies(heartbeat_line(s))[0] == body);
    assert(first_token(body) == t[0]);
    assert(KW_HB@ =~= seq![104u8, 98]);
    assert(t[0] == KW_HB@);
    reveal_strlit("t");
    assert(is_ascii("t"));
    is_ascii_spec_bytes("t");
    assert(sb("t") =~= seq![116u8]);
    assert(first_eq(t[0], 2) == 2);
    assert(first_eq(t[0], 1) == 2);
    assert(first_eq(t[0], 0) == 2);
    let tok2 = t[1];
    assert(tok2[0] == 116 && tok2[1] == 61);
    assert(first_eq(tok2, 1) == 1);
    assert(first_eq(tok2, 0) == 1);
    assert(tok2.subrange(0, 1) =~= sb("t"));
    assert(tok2.subrange(2, tok2.len() as int) =~= d);
    assert(t.drop_first()[0] == tok2);
    assert(field_in(t.drop_first(), sb("t")) == Some(d));
    lemma_not_id(t[0]);
    lemma_not_id(t[1]);
    lemma_button_not_id(t[2], 97, bit(s.btn_a)[0]);
    lemma_button_not_id(t[3], 98, bit(s.btn_b)[0]);
    lemma_none_is_id(t[0], t[1], t[2], t[3]);
    assert(t =~= seq![t[0], t[1], t[2], t[3]]);
}


/// Every record kind is named by its first token: a record whose first
/// token is exactly a kind's keyword (`hello`, `gpio`, `hb`, `edge`, `i2c`,
/// `touch`, `mic`, `pcm`, `panel`, `leftover`, `wifi`, `ble`, `charge`,
/// `sleep`, `wake`, `snowflake`) is of that kind, and one whose first token
/// starts with `git=`, `scene=` or `lamp=` is a git stamp, card or lamp
/// record; any other first token is of no known kind.
pub proof fn law_kind_by_first_token(body: Seq<u8>)
    ensures
        first_token(body) == seq![104u8, 101, 108, 108, 111] ==> kind_of_body(body) == LineKind::Hello,
        first_token(body) == seq![103u8, 112, 105, 111] ==> kind_of_body(body) == LineKind::Gpio,
        first_token(body) == seq![104u8, 98] ==> kind_of_body(body) == LineKind::Hb,
        first_token(body) == seq![101u8, 100, 103, 101] ==> kind_of_body(body) == LineKind::Edge,
        first_token(body) == seq![105u8, 50, 99] ==> kind_of_body(body) == LineKind::I2c,
        first_token(body) == seq![116u8, 111, 117, 99, 104] ==> kind_of_body(body) == LineKind::Touch,
        first_token(body) == seq![109u8, 105, 99] ==> kind_of_body(body) == LineKind::Mic,
        first_token(body) == seq![112u8, 99, 109] ==> kind_of_body(body) == LineKind::Pcm,
        first_token(body) == seq![112u8, 97, 110, 101, 108] ==> kind_of_body(body) == LineKind::Panel,
        first_token(body) == seq![108u8, 101, 102, 116, 111, 118, 101, 114] ==> kind_of_body(body) == LineKind::Leftover,
        first_token(body) == seq![119u8, 105, 102, 105] ==> kind_of_body(body) == LineKind::Wifi,
        first_token(body) == seq![98u8, 108, 101] ==> kind_of_body(body) == LineKind::Ble,
        first_token(body) == seq![99u8, 104, 97, 114, 103, 101] ==> kind_of_body(body) == LineKind::Charge,
        first_token(body) == seq![115u8, 108, 101, 101, 112] ==> kind_of_body(body) == LineKind::Sleep,
        first_token(body) == seq![119u8, 97, 107, 101] ==> kind_of_body(body) == LineKind::Wake,
        first_token(body) == seq![115u8, 110, 111, 119, 102, 108, 97, 107, 101] ==> kind_of_body(body) == LineKind::Snowflake,
        starts(first_token(body), seq![103u8, 105, 116, 61]) ==> kind_of_body(body) == LineKind::Git,
        starts(first_token(body), seq![115u8, 99, 101, 110, 101, 61]) ==> kind_of_body(body) == LineKind::Scene,
        starts(first_token(body), seq![108u8, 97, 109, 112, 61]) ==> kind_of_body(body) == LineKind::Lamp,
        !starts(first_token(body), seq![103u8, 105, 116, 61]) && !starts(first_token(body), seq![115u8, 99, 101, 110, 101, 61])
            && !starts(first_token(body), seq![108u8, 97, 109, 112, 61]) && first_token(body) != seq![104u8, 101, 108, 108, 111]
            && first_token(body) != seq![103u8, 112, 105, 111] && first_token(body) != seq![104u8, 98]
            && first_token(body) != seq![101u8, 100, 103, 101] && first_token(body) != seq![105u8, 50, 99]
            && first_token(body) != seq![116u8, 111, 117, 99, 104] && first_token(body) != seq![109u8, 105, 99]
            && first_token(body) != seq![112u8, 99, 109] && first_token(body) != seq![112u8, 97, 110, 101, 108]
            && first_token(body) != seq![108u8, 101, 102, 116, 111, 118, 101, 114]
            && first_token(body) != seq![119u8, 105, 102, 105] && first_token(body) != seq![98u8, 108, 101]
            && first_token(body) != seq![99u8, 104, 97, 114, 103, 101] && first_token(body) != seq![115u8, 108, 101, 101, 112]
            && first_token(body) != seq![119u8, 97, 107, 101]
            && first_token(body) != seq![115u8, 110, 111, 119, 102, 108, 97, 107, 101] ==> kind_of_body(body)
            == LineKind::Unknown,
{
    assert(KW_GIT_EQ@ =~= seq![103u8, 105, 116, 61]);
    assert(KW_SCENE_EQ@ =~= seq![115u8, 99, 101, 110, 101, 61]);
    assert(KW_LAMP_EQ@ =~= seq![108u8, 97, 109, 112, 61]);
    assert(KW_HELLO@ =~= seq![104u8, 101, 108, 108, 111]);
    assert(KW_GPIO@ =~= seq![103u8, 112, 105, 111]);
    assert(KW_HB@ =~= seq![104u8, 98]);
    assert(KW_EDGE@ =~= seq![101u8, 100, 103, 101]);
    assert(KW_I2C@ =~= seq![105u8, 50, 99]);
    assert(KW_TOUCH@ =~= seq![116u8, 111, 117, 99, 104]);
    assert(KW_MIC@ =~= seq![109u8, 105, 99]);
    assert(KW_PCM@ =~= seq![112u8, 99, 109]);
    assert(KW_PANEL@ =~= seq![112u8, 97, 110, 101, 108]);
    assert(KW_LEFTOVER@ =~= seq![108u8, 101, 102, 116, 111, 118, 101, 114]);
    assert(KW_WIFI@ =~= seq![119u8, 105, 102, 105]);
    assert(KW_BLE@ =~= seq![98u8, 108, 101]);
    assert(KW_CHARGE@ =~= seq![99u8, 104, 97, 114, 103, 101]);
    assert(KW_SLEEP@ =~= seq![115u8, 108, 101, 101, 112]);
    assert(KW_WAKE@ =~= seq![119u8, 97, 107, 101]);
    assert(KW_SNOWFLAKE@ =~= seq![115u8, 110, 111, 119, 102, 108, 97, 107, 101]);
    let t = first_token(body);
    if starts(t, KW_GIT_EQ@) || starts(t, KW_SCENE_EQ@) || starts(t, KW_LAMP_EQ@) {
        if starts(t, KW_GIT_EQ@) {
            assert(t[0] == 103u8) by { assert(t.subrange(0, 4)[0] == t[0]); }
            assert(!starts(t, seq![115u8, 99, 101, 110, 101, 61])) by {
                if starts(t, seq![115u8, 99, 101, 110, 101, 61]) { assert(t.subrange(0, 6)[0] == t[0]); }
            }
            assert(!starts(t, seq![108u8, 97, 109, 112, 61])) by {
                if starts(t, seq![108u8, 97, 109, 112, 61]) { assert(t.subrange(0, 5)[0] == t[0]); }
            }
        } else if starts(t, KW_SCENE_EQ@) {
            assert(t[0] == 115u8) by { assert(t.subrange(0, 6)[0] == t[0]); }
            assert(!starts(t, seq![108u8, 97, 109, 112, 61])) by {
                if starts(t, seq![108u8, 97, 109, 112, 61]) { assert(t.subrange(0, 5)[0] == t[0]); }
            }
        }
    }
}


/// No byte of `s` is whitespace.
pub open spec fn no_ws(s: Seq<u8>) -> bool {
    forall|k: int| 0 <= k < s.len() ==> !is_ws(#[trigger] s[k])
}

/// No byte of `s` is `=`.
pub open spec fn no_eq(s: Seq<u8>) -> bool {
    forall|k: int| 0 <= k < s.len() ==> #[trigger] s[k] != 61
}

/// No byte of `s` is `:`.
pub open spec fn no_colon(s: Seq<u8>) -> bool {
    forall|k: int| 0 <= k < s.len() ==> #[trigger] s[k] != 58
}

proof fn lemma_token_end_shift(p: Seq<u8>, b: Seq<u8>, i: nat)
    requires
        i <= b.len(),
    ensures
        token_end(p + b, p.len() + i) == p.len() + token_end(b, i),
    decreases b.len() - i,
{
    let s = p + b;
    if i < b.len() {
        assert(s[p.len() + i as int] == b[i as int]);
        if !is_ws(b[i as int]) {
            lemma_token_end_shift(p, b, i + 1);
            assert(p.len() + i + 1 == p.len() + (i + 1));
        }
    }
}

proof fn lemma_tokens_shift(p: Seq<u8>, b: Seq<u8>, i: nat)
    requires
        i <= b.len(),
    ensures
        tokens_from(p + b, p.len() + i) == tokens_from(b, i),
    decreases b.len() - i,
{
    let s = p + b;
    if i < b.len() {
        assert(s[p.len() + i as int] == b[i as int]);
        if is_ws(b[i as int]) {
            lemma_tokens_shift(p, b, i + 1);
            assert(p.len() + i + 1 == p.len() + (i + 1));
        } else {
            lemma_token_end_shift(p, b, i);
            lemma_token_end(b, i);
            lemma_token_end(b, i + 1);
            let e = token_end(b, i);
            assert(e == token_end(b, i + 1));
            lemma_tokens_shift(p, b, e);
            assert(s.subrange(p.len() + i as int, p.len() + e as int) =~= b.subrange(i as int, e as int));
        }
    }
}

/// The tokens of a word, a space, and the rest.
proof fn lemma_tokens_word(a: Seq<u8>, rest: Seq<u8>)
    requires
        a.len() > 0,
        no_ws(a),
    ensures
        tokens_from(a + seq![32u8] + rest, 0) == seq![a] + tokens_from(rest, 0),
{
    let s = a + seq![32u8] + rest;
    assert forall|k: int| 0 <= k < a.len() implies !is_ws(#[trigger] s[k]) by {
        assert(s[k] == a[k]);
    }
    assert(s[a.len() as int] == 32);
    lemma_token_end_is(s, 0, a.len());
    assert(s.subrange(0, a.len() as int) =~= a);
    lemma_tokens_shift(a + seq![32u8], rest, 0);
    assert(s =~= (a + seq![32u8]) + rest);
    assert(tokens_from(s, a.len()) == tokens_from(s, a.len() + 1));
}

/// The tokens of a single word.
proof fn lemma_tokens_last(a: Seq<u8>)
    requires
        a.len() > 0,
        no_ws(a),
    ensures
        tokens_from(a, 0) == seq![a],
{
    lemma_token_end_is(a, 0, a.len());
    assert(a.subrange(0, a.len() as int) =~= a);
    assert(tokens_from(a, a.len()) == Seq::<Seq<u8>>::empty());
    assert(seq![a] + Seq::<Seq<u8>>::empty() =~= seq![a]);
}

proof fn lemma_first_eq_none(w: Seq<u8>, i: nat)
    requires
        i <= w.len(),
        no_eq(w),
    ensures
        first_eq(w, i) == w.len(),
    decreases w.len() - i,
{
    if i < w.len() {
        lemma_first_eq_none(w, i + 1);
    }
}

proof fn lemma_first_eq_key(k: Seq<u8>, v: Seq<u8>, i: nat)
    requires
        i <= k.len(),
        no_eq(k),
    ensures
        first_eq(k + seq![61u8] + v, i) == k.len(),
    decreases k.len() - i,
{
    let t = k + seq![61u8] + v;
    if i < k.len() {
        assert(t[i as int] == k[i as int]);
        lemma_first_eq_key(k, v, i + 1);
    } else {
        assert(t[k.len() as int] == 61);
    }
}

/// Looking a key up past a `key=value` token.
proof fn lemma_field_pair(k: Seq<u8>, v: Seq<u8>, rest: Seq<Seq<u8>>, key: Seq<u8>)
    requires
        no_eq(k),
    ensures
        field_in(seq![k + seq![61u8] + v] + rest, key) == if k == key { Some(v) } else { field_in(rest, key) },
{
    let t = k + seq![61u8] + v;
    lemma_first_eq_key(k, v, 0);
    let ts = seq![t] + rest;
    assert(ts[0] == t);
    assert(ts.drop_first() =~= rest);
    assert(t.subrange(0, k.len() as int) =~= k);
    assert(t.subrange(k.len() + 1int, t.len() as int) =~= v);
}

/// Looking a key up past a token with no `=`.
proof fn lemma_field_plain(w: Seq<u8>, rest: Seq<Seq<u8>>, key: Seq<u8>)
    requires
        no_eq(w),
    ensures
        field_in(seq![w] + rest, key) == field_in(rest, key),
{
    lemma_first_eq_none(w, 0);
    let ts = seq![w] + rest;
    assert(ts[0] == w);
    assert(ts.drop_first() =~= rest);
}

proof fn lemma_dec_plain(n: nat)
    ensures
        dec(n).len() > 0,
        no_ws(dec(n)),
        no_eq(dec(n)),
        no_colon(dec(n)),
        !is_trim(dec(n).last()),
{
    lemma_dec_digits(n);
    assert(dec(n).last() == dec(n)[dec(n).len() - 1]);
}

proof fn lemma_plain_concat(a: Seq<u8>, b: Seq<u8>)
    ensures
        no_ws(a) && no_ws(b) ==> no_ws(a + b),
        no_eq(a) && no_eq(b) ==> no_eq(a + b),
        no_colon(a) && no_colon(b) ==> no_colon(a + b),
{
    let c = a + b;
    assert forall|k: int| 0 <= k < c.len() implies (#[trigger] c[k] == a[k] || c[k] == b[k - a.len()]) by {
        if k < a.len() {
            assert(c[k] == a[k]);
        } else {
            assert(c[k] == b[k - a.len()]);
        }
    }
}

/// `key=value` with a plain key and a decimal value.
proof fn lemma_pair_plain(k: Seq<u8>, n: nat)
    requires
        k.len() > 0,
        no_ws(k),
        no_eq(k),
        no_colon(k),
    ensures
        no_ws(k + seq![61u8] + dec(n)),
        no_colon(k + seq![61u8] + dec(n)),
        (k + seq![61u8] + dec(n)).len() > 0,
{
    lemma_dec_plain(n);
    let e = seq![61u8];
    assert(no_ws(e) && no_colon(e));
    lemma_plain_concat(k, e);
    lemma_plain_concat(k + e, dec(n));
}

/// The body of a touch line with two contacts.
spec fn touch2_body(t: TouchSample) -> Seq<u8> {
    seq![116u8, 111, 117, 99, 104] + seq![32u8] + (seq![105u8, 110, 116] + seq![61u8] + bit(t.int_ready)) + seq![32u8]
        + (seq![110u8] + seq![61u8] + dec(t.n as nat)) + seq![32u8] + (seq![120u8] + seq![61u8] + dec(t.x as nat))
        + seq![32u8] + (seq![121u8] + seq![61u8] + dec(t.y as nat)) + seq![32u8] + (seq![120u8, 50] + seq![61u8]
        + dec(t.x2 as nat)) + seq![32u8] + (seq![121u8, 50] + seq![61u8] + dec(t.y2 as nat))
}

#[verifier::spinoff_prover]
#[verifier::rlimit(100)]
proof fn lemma_touch2_line(t: TouchSample)
    requires
        t.n >= 2,
    ensures
        touch_line(t) == RECORD_MARK@ + (seq![32u8] + touch2_body(t)),
{
    broadcast use group_string_axioms;

    reveal_strlit("simple-debug");
    reveal_strlit(": ");
    reveal_strlit("touch int=");
    reveal_strlit(" n=");
    reveal_strlit(" x=");
    reveal_strlit(" y=");
    reveal_strlit(" x2=");
    reveal_strlit(" y2=");
    assert(is_ascii("simple-debug"));
    assert(is_ascii(": "));
    assert(is_ascii("touch int="));
    assert(is_ascii(" n="));
    assert(is_ascii(" x="));
    assert(is_ascii(" y="));
    assert(is_ascii(" x2="));
    assert(is_ascii(" y2="));
    is_ascii_spec_bytes("simple-debug");
    is_ascii_spec_bytes(": ");
    is_ascii_spec_bytes("touch int=");
    is_ascii_spec_bytes(" n=");
    is_ascii_spec_bytes(" x=");
    is_ascii_spec_bytes(" y=");
    is_ascii_spec_bytes(" x2=");
    is_ascii_spec_bytes(" y2=");
    assert(sb("touch int=") =~= seq![116u8, 111, 117, 99, 104, 32, 105, 110, 116, 61]);
    assert(sb(" n=") =~= seq![32u8, 110, 61]);
    assert(sb(" x=") =~= seq![32u8, 120, 61]);
    assert(sb(" y=") =~= seq![32u8, 121, 61]);
    assert(sb(" x2=") =~= seq![32u8, 120, 50, 61]);
    assert(sb(" y2=") =~= seq![32u8, 121, 50, 61]);
    assert(RECORD_MARK@ =~= seq![115u8, 105, 109, 112, 108, 101, 45, 100, 101, 98, 117, 103, 58]);
    assert(head() =~= RECORD_MARK@ + seq![32u8]);
    assert(touch_line(t) =~= RECORD_MARK@ + (seq![32u8] + touch2_body(t)));
}

/// The tokens of a two-contact touch body.
spec fn touch2_tokens(t: TouchSample) -> Seq<Seq<u8>> {
    seq![
        seq![116u8, 111, 117, 99, 104],
        seq![105u8, 110, 116] + seq![61u8] + bit(t.int_ready),
        seq![110u8] + seq![61u8] + dec(t.n as nat),
        seq![120u8] + seq![61u8] + dec(t.x as nat),
        seq![121u8] + seq![61u8] + dec(t.y as nat),
        seq![120u8, 50] + seq![61u8] + dec(t.x2 as nat),
        seq![121u8, 50] + seq![61u8] + dec(t.y2 as nat),
    ]
}

#[verifier::spinoff_prover]
#[verifier::rlimit(60)]
proof fn lemma_touch2_parts(t: TouchSample)
    ensures
        tokens_from(touch2_body(t), 0) == touch2_tokens(t),
        no_colon(touch2_body(t)),
        touch2_body(t).len() > 0,
        touch2_body(t)[0] == 116,
        !is_trim(touch2_body(t).last()),
{
    let sp = seq![32u8];
    let eq = seq![61u8];
    let ts = touch2_tokens(t);
    let w0 = ts[0];
    let t1 = ts[1];
    let t2 = ts[2];
    let t3 = ts[3];
    let t4 = ts[4];
    let t5 = ts[5];
    let t6 = ts[6];
    let k1 = seq![105u8, 110, 116];
    assert(no_ws(w0) && no_eq(w0) && no_colon(w0));
    assert(no_ws(k1) && no_eq(k1) && no_colon(k1));
    assert(no_ws(bit(t.int_ready)) && no_colon(bit(t.int_ready)));
    assert(no_ws(eq) && no_colon(eq) && no_colon(sp));
    lemma_plain_concat(k1, eq);
    lemma_plain_concat(k1 + eq, bit(t.int_ready));
    let k2 = seq![110u8];
    let k3 = seq![120u8];
    let k4 = seq![121u8];
    let k5 = seq![120u8, 50];
    let k6 = seq![121u8, 50];
    assert(no_ws(k2) && no_eq(k2) && no_colon(k2));
    assert(no_ws(k3) && no_eq(k3) && no_colon(k3));
    assert(no_ws(k4) && no_eq(k4) && no_colon(k4));
    assert(no_ws(k5) && no_eq(k5) && no_colon(k5));
    assert(no_ws(k6) && no_eq(k6) && no_colon(k6));
    lemma_pair_plain(k2, t.n as nat);
    lemma_pair_plain(k3, t.x as nat);
    lemma_pair_plain(k4, t.y as nat);
    lemma_pair_plain(k5, t.x2 as nat);
    lemma_pair_plain(k6, t.y2 as nat);
    let r6 = t6;
    let r5 = t5 + sp + r6;
    let r4 = t4 + sp + r5;
    let r3 = t3 + sp + r4;
    let r2 = t2 + sp + r3;
    let r1 = t1 + sp + r2;
    let body = w0 + sp + r1;
    assert(body =~= touch2_body(t));
    lemma_tokens_last(r6);
    lemma_tokens_word(t5, r6);
    lemma_tokens_word(t4, r5);
    lemma_tokens_word(t3, r4);
    lemma_tokens_word(t2, r3);
    lemma_tokens_word(t1, r2);
    lemma_tokens_word(w0, r1);
    assert(tokens_from(body, 0) =~= ts);
    lemma_plain_concat(t5, sp);
    lemma_plain_concat(t5 + sp, r6);
    lemma_plain_concat(t4, sp);
    lemma_plain_concat(t4 + sp, r5);
    lemma_plain_concat(t3, sp);
    lemma_plain_concat(t3 + sp, r4);
    lemma_plain_concat(t2, sp);
    lemma_plain_concat(t2 + sp, r3);
    lemma_plain_concat(t1, sp);
    lemma_plain_concat(t1 + sp, r2);
    lemma_plain_concat(w0, sp);
    lemma_plain_concat(w0 + sp, r1);
    lemma_dec_plain(t.y2 as nat);
    assert(body.last() == dec(t.y2 as nat).last());
}

#[verifier::spinoff_prover]
#[verifier::rlimit(60)]
proof fn lemma_touch2_fields(t: TouchSample)
    ensures
        field_in(touch2_tokens(t), seq![105u8, 110, 116]) == Some(bit(t.int_ready)),
        field_in(touch2_tokens(t), seq![110u8]) == Some(dec(t.n as nat)),
        field_in(touch2_tokens(t), seq![120u8]) == Some(dec(t.x as nat)),
        field_in(touch2_tokens(t), seq![121u8]) == Some(dec(t.y as nat)),
        field_in(touch2_tokens(t), seq![120u8, 50]) == Some(dec(t.x2 as nat)),
        field_in(touch2_tokens(t), seq![121u8, 50]) == Some(dec(t.y2 as nat)),
{
    let ts = touch2_tokens(t);
    let eq = seq![61u8];
    let w0 = seq![116u8, 111, 117, 99, 104];
    let k1 = seq![105u8, 110, 116];
    let k2 = seq![110u8];
    let k3 = seq![120u8];
    let k4 = seq![121u8];
    let k5 = seq![120u8, 50];
    let k6 = seq![121u8, 50];
    let l6 = seq![ts[6]];
    let l5 = seq![ts[5]] + l6;
    let l4 = seq![ts[4]] + l5;
    let l3 = seq![ts[3]] + l4;
    let l2 = seq![ts[2]] + l3;
    let l1 = seq![ts[1]] + l2;
    assert(ts =~= seq![w0] + l1);
    lemma_field_plain(seq![116u8, 111, 117, 99, 104], l1, seq![105u8, 110, 116]);
    lemma_field_pair(seq![105u8, 110, 116], bit(t.int_ready), l2, seq![105u8, 110, 116]);
    assert(l6 =~= seq![ts[6]] + Seq::<Seq<u8>>::empty());
    assert(no_eq(w0) && no_eq(k1) && no_eq(k2) && no_eq(k3) && no_eq(k4) && no_eq(k5) && no_eq(k6));
    assert(k2 != seq![120u8]) by { assert(k2[0] != 120u8); }
    assert(k2 != seq![121u8]) by { assert(k2[0] != 121u8); }
    assert(k3 != seq![121u8]) by { assert(k3[0] != 121u8); }
    assert(k5 != seq![121u8, 50]) by { assert(k5[0] != 121u8); }
    assert(k1.len() == 3);
    let keys = seq![seq![110u8], seq![120u8], seq![121u8], seq![120u8, 50], seq![121u8, 50]];
    assert forall|j: int| 0 <= j < 5 implies #[trigger] field_in(ts, keys[j]) == field_in(l1, keys[j]) by {
        lemma_field_plain(w0, l1, keys[j]);
    }
    assert forall|j: int| 0 <= j < 5 implies #[trigger] field_in(l1, keys[j]) == field_in(l2, keys[j]) by {
        lemma_field_pair(k1, bit(t.int_ready), l2, keys[j]);
    }
    lemma_field_pair(k2, dec(t.n as nat), l3, keys[0]);
    assert forall|j: int| 1 <= j < 5 implies #[trigger] field_in(l2, keys[j]) == field_in(l3, keys[j]) by {
        lemma_field_pair(k2, dec(t.n as nat), l3, keys[j]);
    }
    lemma_field_pair(k3, dec(t.x as nat), l4, keys[1]);
    assert forall|j: int| 2 <= j < 5 implies #[trigger] field_in(l3, keys[j]) == field_in(l4, keys[j]) by {
        lemma_field_pair(k3, dec(t.x as nat), l4, keys[j]);
    }
    lemma_field_pair(k4, dec(t.y as nat), l5, keys[2]);
    assert forall|j: int| 3 <= j < 5 implies #[trigger] field_in(l4, keys[j]) == field_in(l5, keys[j]) by {
        lemma_field_pair(k4, dec(t.y as nat), l5, keys[j]);
    }
    lemma_field_pair(k5, dec(t.x2 as nat), l6, keys[3]);
    lemma_field_pair(k5, dec(t.x2 as nat), l6, keys[4]);
    lemma_field_pair(k6, dec(t.y2 as nat), Seq::<Seq<u8>>::empty(), keys[4]);
    assert(keys[0] == seq![110u8] && keys[1] == seq![120u8] && keys[2] == seq![121u8]);
    assert(keys[3] == seq![120u8, 50] && keys[4] == seq![121u8, 50]);
}

/// A two-contact touch line as the log module writes it reads back as
/// exactly one `touch` record whose `int=` field holds the INT level and
/// whose `n=`, `x=`, `y=`, `x2=` and `y2=` fields hold the decimals of the
/// sample's count and both points.
#[verifier::spinoff_prover]
#[verifier::rlimit(60)]
pub proof fn law_touch_read_back(t: TouchSample)
    requires
        t.n >= 2,
    ensures
        field_of(record_bodies(touch_line(t))[0], seq![105u8, 110, 116]) == Some(bit(t.int_ready)),
        record_bodies(touch_line(t)).len() == 1,
        kind_of_body(record_bodies(touch_line(t))[0]) == LineKind::Touch,
        field_of(record_bodies(touch_line(t))[0], seq![110u8]) == Some(dec(t.n as nat)),
        field_of(record_bodies(touch_line(t))[0], seq![120u8]) == Some(dec(t.x as nat)),
        field_of(record_bodies(touch_line(t))[0], seq![121u8]) == Some(dec(t.y as nat)),
        field_of(record_bodies(touch_line(t))[0], seq![120u8, 50]) == Some(dec(t.x2 as nat)),
        field_of(record_bodies(touch_line(t))[0], seq![121u8, 50]) == Some(dec(t.y2 as nat)),
{
    lemma_touch2_line(t);
    lemma_touch2_parts(t);
    lemma_touch2_fields(t);
    let body = touch2_body(t);
    let tail = seq![32u8] + body;
    assert forall|i: int| 0 <= i < tail.len() implies #[trigger] tail[i] != 58 by {
        if i >= 1 {
            assert(tail[i] == body[i - 1]);
        }
    }
    lemma_no_colon_no_mark(tail);
    law_single_record(tail);
    assert(tail.drop_first() =~= body);
    assert(trim_front(body) == body);
    assert(trim_front(tail) == body);
    assert(trim_back(body) == body);
    assert(trim(tail) == body);
    assert(record_bodies(touch_line(t)) == seq![body]);
    assert(first_token(body) == seq![116u8, 111, 117, 99, 104]);
    law_kind_by_first_token(body);
}


/// The body of a touch line with one contact.
spec fn touch1_body(t: TouchSample) -> Seq<u8> {
    seq![116u8, 111, 117, 99, 104] + seq![32u8] + (seq![105u8, 110, 116] + seq![61u8] + bit(t.int_ready)) + seq![32u8]
        + (seq![110u8] + seq![61u8] + seq![49u8]) + seq![32u8] + (seq![120u8] + seq![61u8] + dec(t.x as nat))
        + seq![32u8] + (seq![121u8] + seq![61u8] + dec(t.y as nat))
}

/// The tokens of a one-contact touch body.
spec fn touch1_tokens(t: TouchSample) -> Seq<Seq<u8>> {
    seq![
        seq![116u8, 111, 117, 99, 104],
        seq![105u8, 110, 116] + seq![61u8] + bit(t.int_ready),
        seq![110u8] + seq![61u8] + seq![49u8],
        seq![120u8] + seq![61u8] + dec(t.x as nat),
        seq![121u8] + seq![61u8] + dec(t.y as nat),
    ]
}

#[verifier::spinoff_prover]
#[verifier::rlimit(100)]
proof fn lemma_touch1_line(t: TouchSample)
    requires
        t.n == 1,
    ensures
        touch_line(t) == RECORD_MARK@ + (seq![32u8] + touch1_body(t)),
{
    broadcast use group_string_axioms;

    reveal_strlit("simple-debug");
    reveal_strlit(": ");
    reveal_strlit("touch int=");
    reveal_strlit(" n=1 x=");
    reveal_strlit(" y=");
    assert(is_ascii("simple-debug"));
    assert(is_ascii(": "));
    assert(is_ascii("touch int="));
    assert(is_ascii(" n=1 x="));
    assert(is_ascii(" y="));
    is_ascii_spec_bytes("simple-debug");
    is_ascii_spec_bytes(": ");
    is_ascii_spec_bytes("touch int=");
    is_ascii_spec_bytes(" n=1 x=");
    is_ascii_spec_bytes(" y=");
    assert(sb("touch int=") =~= seq![116u8, 111, 117, 99, 104, 32, 105, 110, 116, 61]);
    assert(sb(" n=1 x=") =~= seq![32u8, 110, 61, 49, 32, 120, 61]);
    assert(sb(" y=") =~= seq![32u8, 121, 61]);
    assert(RECORD_MARK@ =~= seq![115u8, 105, 109, 112, 108, 101, 45, 100, 101, 98, 117, 103, 58]);
    assert(head() =~= RECORD_MARK@ + seq![32u8]);
    assert(touch_line(t) =~= RECORD_MARK@ + (seq![32u8] + touch1_body(t)));
}

#[verifier::spinoff_prover]
#[verifier::rlimit(60)]
proof fn lemma_touch1_parts(t: TouchSample)
    ensures
        tokens_from(touch1_body(t), 0) == touch1_tokens(t),
        no_colon(touch1_body(t)),
        touch1_body(t).len() > 0,
        touch1_body(t)[0] == 116,
        !is_trim(touch1_body(t).last()),
{
    let sp = seq![32u8];
    let eq = seq![61u8];
    let ts = touch1_tokens(t);
    let w0 = ts[0];
    let t1 = ts[1];
    let t2 = ts[2];
    let t3 = ts[3];
    let t4 = ts[4];
    let k1 = seq![105u8, 110, 116];
    let one = seq![49u8];
    assert(no_ws(w0) && no_eq(w0) && no_colon(w0));
    assert(no_ws(k1) && no_eq(k1) && no_colon(k1));
    assert(no_ws(bit(t.int_ready)) && no_colon(bit(t.int_ready)));
    assert(no_ws(eq) && no_colon(eq) && no_colon(sp) && no_ws(one) && no_colon(one));
    lemma_plain_concat(k1, eq);
    lemma_plain_concat(k1 + eq, bit(t.int_ready));
    let k2 = seq![110u8];
    let k3 = seq![120u8];
    let k4 = seq![121u8];
    assert(no_ws(k2) && no_eq(k2) && no_colon(k2));
    assert(no_ws(k3) && no_eq(k3) && no_colon(k3));
    assert(no_ws(k4) && no_eq(k4) && no_colon(k4));
    lemma_plain_concat(k2, eq);
    lemma_plain_concat(k2 + eq, one);
    lemma_pair_plain(k3, t.x as nat);
    lemma_pair_plain(k4, t.y as nat);
    let r4 = t4;
    let r3 = t3 + sp + r4;
    let r2 = t2 + sp + r3;
    let r1 = t1 + sp + r2;
    let body = w0 + sp + r1;
    assert(body =~= touch1_body(t));
    lemma_tokens_last(r4);
    lemma_tokens_word(t3, r4);
    lemma_tokens_word(t2, r3);
    lemma_tokens_word(t1, r2);
    lemma_tokens_word(w0, r1);
    assert(tokens_from(body, 0) =~= ts);
    lemma_plain_concat(t3, sp);
    lemma_plain_concat(t3 + sp, r4);
    lemma_plain_concat(t2, sp);
    lemma_plain_concat(t2 + sp, r3);
    lemma_plain_concat(t1, sp);
    lemma_plain_concat(t1 + sp, r2);
    lemma_plain_concat(w0, sp);
    lemma_plain_concat(w0 + sp, r1);
    lemma_dec_plain(t.y as nat);
    assert(body.last() == dec(t.y as nat).last());
}

#[verifier::spinoff_prover]
#[verifier::rlimit(60)]
proof fn lemma_touch1_fields(t: TouchSample)
    ensures
        field_in(touch1_tokens(t), seq![105u8, 110, 116]) == Some(bit(t.int_ready)),
        field_in(touch1_tokens(t), seq![110u8]) == Some(seq![49u8]),
        field_in(touch1_tokens(t), seq![120u8]) == Some(dec(t.x as nat)),
        field_in(touch1_tokens(t), seq![121u8]) == Some(dec(t.y as nat)),
        field_in(touch1_tokens(t), seq![120u8, 50]) is None,
        field_in(touch1_tokens(t), seq![121u8, 50]) is None,
{
    let ts = touch1_tokens(t);
    let w0 = seq![116u8, 111, 117, 99, 104];
    let k1 = seq![105u8, 110, 116];
    let k2 = seq![110u8];
    let k3 = seq![120u8];
    let k4 = seq![121u8];
    let l4 = seq![ts[4]];
    let l3 = seq![ts[3]] + l4;
    let l2 = seq![ts[2]] + l3;
    let l1 = seq![ts[1]] + l2;
    assert(ts =~= seq![w0] + l1);
    lemma_field_plain(seq![116u8, 111, 117, 99, 104], l1, seq![105u8, 110, 116]);
    lemma_field_pair(seq![105u8, 110, 116], bit(t.int_ready), l2, seq![105u8, 110, 116]);
    assert(l4 =~= seq![ts[4]] + Seq::<Seq<u8>>::empty());
    assert(no_eq(w0) && no_eq(k1) && no_eq(k2) && no_eq(k3) && no_eq(k4));
    assert(k2 != seq![120u8]) by { assert(k2[0] != 120u8); }
    assert(k2 != seq![121u8]) by { assert(k2[0] != 121u8); }
    assert(k3 != seq![121u8]) by { assert(k3[0] != 121u8); }
    let keys = seq![seq![110u8], seq![120u8], seq![121u8], seq![120u8, 50], seq![121u8, 50]];
    assert forall|j: int| 0 <= j < 5 implies #[trigger] field_in(ts, keys[j]) == field_in(l1, keys[j]) by {
        lemma_field_plain(w0, l1, keys[j]);
    }
    assert forall|j: int| 0 <= j < 5 implies #[trigger] field_in(l1, keys[j]) == field_in(l2, keys[j]) by {
        lemma_field_pair(k1, bit(t.int_ready), l2, keys[j]);
    }
    lemma_field_pair(k2, seq![49u8], l3, keys[0]);
    assert forall|j: int| 1 <= j < 5 implies #[trigger] field_in(l2, keys[j]) == field_in(l3, keys[j]) by {
        lemma_field_pair(k2, seq![49u8], l3, keys[j]);
    }
    lemma_field_pair(k3, dec(t.x as nat), l4, keys[1]);
    assert forall|j: int| 2 <= j < 5 implies #[trigger] field_in(l3, keys[j]) == field_in(l4, keys[j]) by {
        lemma_field_pair(k3, dec(t.x as nat), l4, keys[j]);
    }
    lemma_field_pair(k4, dec(t.y as nat), Seq::<Seq<u8>>::empty(), keys[2]);
    lemma_field_pair(k4, dec(t.y as nat), Seq::<Seq<u8>>::empty(), keys[3]);
    lemma_field_pair(k4, dec(t.y as nat), Seq::<Seq<u8>>::empty(), keys[4]);
    assert(keys[0] == seq![110u8] && keys[1] == seq![120u8] && keys[2] == seq![121u8]);
    assert(keys[3] == seq![120u8, 50] && keys[4] == seq![121u8, 50]);
}

/// A one-contact touch line reads back as exactly one `touch` record with
/// the INT level in `int=` and `n=1`, whose `x=` and `y=` fields hold the
/// decimals of the point and which has no second point.
#[verifier::spinoff_prover]
#[verifier::rlimit(60)]
pub proof fn law_touch_one_read_back(t: TouchSample)
    requires
        t.n == 1,
    ensures
        field_of(record_bodies(touch_line(t))[0], seq![105u8, 110, 116]) == Some(bit(t.int_ready)),
        record_bodies(touch_line(t)).len() == 1,
        kind_of_body(record_bodies(touch_line(t))[0]) == LineKind::Touch,
        field_of(record_bodies(touch_line(t))[0], seq![110u8]) == Some(dec(1)),
        field_of(record_bodies(touch_line(t))[0], seq![120u8]) == Some(dec(t.x as nat)),
        field_of(record_bodies(touch_line(t))[0], seq![121u8]) == Some(dec(t.y as nat)),
        field_of(record_bodies(touch_line(t))[0], seq![120u8, 50]) is None,
        field_of(record_bodies(touch_line(t))[0], seq![121u8, 50]) is None,
{
    lemma_touch1_line(t);
    lemma_touch1_parts(t);
    lemma_touch1_fields(t);
    assert(dec(1) =~= seq![49u8]);
    let body = touch1_body(t);
    let tail = seq![32u8] + body;
    assert forall|i: int| 0 <= i < tail.len() implies #[trigger] tail[i] != 58 by {
        if i >= 1 {
            assert(tail[i] == body[i - 1]);
        }
    }
    lemma_no_colon_no_mark(tail);
    law_single_record(tail);
    assert(tail.drop_first() =~= body);
    assert(trim_front(body) == body);
    assert(trim_front(tail) == body);
    assert(trim_back(body) == body);
    assert(trim(tail) == body);
    assert(record_bodies(touch_line(t)) == seq![body]);
    assert(first_token(body) == seq![116u8, 111, 117, 99, 104]);
    law_kind_by_first_token(body);
}


/// The body of a touch line without contacts.
spec fn touch0_body(t: TouchSample) -> Seq<u8> {
    seq![116u8, 111, 117, 99, 104] + seq![32u8] + (seq![105u8, 110, 116] + seq![61u8] + bit(t.int_ready)) + seq![32u8]
        + (seq![110u8] + seq![61u8] + seq![48u8])
}

/// A touch line without contacts reads back as exactly one `touch` record
/// with the INT level in `int=`, `n=0`, and no point fields at all.
#[verifier::spinoff_prover]
#[verifier::rlimit(100)]
pub proof fn law_touch_none_read_back(t: TouchSample)
    requires
        t.n == 0,
    ensures
        record_bodies(touch_line(t)).len() == 1,
        kind_of_body(record_bodies(touch_line(t))[0]) == LineKind::Touch,
        field_of(record_bodies(touch_line(t))[0], seq![105u8, 110, 116]) == Some(bit(t.int_ready)),
        field_of(record_bodies(touch_line(t))[0], seq![110u8]) == Some(dec(0)),
        field_of(record_bodies(touch_line(t))[0], seq![120u8]) is None,
        field_of(record_bodies(touch_line(t))[0], seq![121u8]) is None,
        field_of(record_bodies(touch_line(t))[0], seq![120u8, 50]) is None,
        field_of(record_bodies(touch_line(t))[0], seq![121u8, 50]) is None,
{
    broadcast use group_string_axioms;

    reveal_strlit("simple-debug");
    reveal_strlit(": ");
    reveal_strlit("touch int=");
    reveal_strlit(" n=0");
    assert(is_ascii("simple-debug"));
    assert(is_ascii(": "));
    assert(is_ascii("touch int="));
    assert(is_ascii(" n=0"));
    is_ascii_spec_bytes("simple-debug");
    is_ascii_spec_bytes(": ");
    is_ascii_spec_bytes("touch int=");
    is_ascii_spec_bytes(" n=0");
    assert(sb("touch int=") =~= seq![116u8, 111, 117, 99, 104, 32, 105, 110, 116, 61]);
    assert(sb(" n=0") =~= seq![32u8, 110, 61, 48]);
    assert(RECORD_MARK@ =~= seq![115u8, 105, 109, 112, 108, 101, 45, 100, 101, 98, 117, 103, 58]);
    assert(head() =~= RECORD_MARK@ + seq![32u8]);
    let body = touch0_body(t);
    assert(touch_line(t) =~= RECORD_MARK@ + (seq![32u8] + body));
    assert(dec(0) =~= seq![48u8]);
    let sp = seq![32u8];
    let eq = seq![61u8];
    let w0 = seq![116u8, 111, 117, 99, 104];
    let k1 = seq![105u8, 110, 116];
    let k2 = seq![110u8];
    let zero = seq![48u8];
    let t1 = k1 + eq + bit(t.int_ready);
    let t2 = k2 + eq + zero;
    assert(no_ws(w0) && no_eq(w0) && no_colon(w0));
    assert(no_ws(k1) && no_eq(k1) && no_colon(k1) && no_ws(k2) && no_eq(k2) && no_colon(k2));
    assert(no_ws(bit(t.int_ready)) && no_colon(bit(t.int_ready)));
    assert(no_ws(eq) && no_colon(eq) && no_colon(sp) && no_ws(zero) && no_colon(zero));
    lemma_plain_concat(k1, eq);
    lemma_plain_concat(k1 + eq, bit(t.int_ready));
    lemma_plain_concat(k2, eq);
    lemma_plain_concat(k2 + eq, zero);
    let r1 = t1 + sp + t2;
    assert(body =~= w0 + sp + r1);
    lemma_tokens_last(t2);
    lemma_tokens_word(t1, t2);
    lemma_tokens_word(w0, r1);
    let ts = seq![w0, t1, t2];
    assert(tokens_from(body, 0) =~= ts);
    lemma_plain_concat(t1, sp);
    lemma_plain_concat(t1 + sp, t2);
    lemma_plain_concat(w0, sp);
    lemma_plain_concat(w0 + sp, r1);
    let tail = sp + body;
    assert forall|i: int| 0 <= i < tail.len() implies #[trigger] tail[i] != 58 by {
        if i >= 1 {
            assert(tail[i] == body[i - 1]);
        }
    }
    lemma_no_colon_no_mark(tail);
    law_single_record(tail);
    assert(tail.drop_first() =~= body);
    assert(trim_front(body) == body);
    assert(trim_front(tail) == body);
    assert(body.last() == 48);
    assert(trim_back(body) == body);
    assert(trim(tail) == body);
    assert(record_bodies(touch_line(t)) == seq![body]);
    assert(first_token(body) == w0);
    law_kind_by_first_token(body);
    let l2 = seq![t2];
    let l1 = seq![t1] + l2;
    assert(ts =~= seq![w0] + l1);
    assert(l2 =~= seq![t2] + Seq::<Seq<u8>>::empty());
    let keys = seq![k1, k2, seq![120u8], seq![121u8], seq![120u8, 50], seq![121u8, 50]];
    assert forall|j: int| 0 <= j < 6 implies #[trigger] field_in(ts, keys[j]) == field_in(l1, keys[j]) by {
        lemma_field_plain(w0, l1, keys[j]);
    }
    assert forall|j: int| 0 <= j < 6 implies #[trigger] field_in(l1, keys[j]) == (if k1 == keys[j] {
        Some(bit(t.int_ready))
    } else {
        field_in(l2, keys[j])
    }) by {
        lemma_field_pair(k1, bit(t.int_ready), l2, keys[j]);
    }
    assert forall|j: int| 0 <= j < 6 implies #[trigger] field_in(l2, keys[j]) == (if k2 == keys[j] {
        Some(zero)
    } else {
        field_in(Seq::<Seq<u8>>::empty(), keys[j])
    }) by {
        lemma_field_pair(k2, zero, Seq::<Seq<u8>>::empty(), keys[j]);
    }
    assert(keys[0] == k1 && keys[1] == k2 && keys[2] == seq![120u8] && keys[3] == seq![121u8]);
    assert(keys[4] == seq![120u8, 50] && keys[5] == seq![121u8, 50]);
    assert(k1 != k2 && k1 != keys[2] && k1 != keys[3] && k1 != keys[4] && k1 != keys[5]);
    assert(k2 != keys[2]) by { assert(k2[0] != 120u8); }
    assert(k2 != keys[3]) by { assert(k2[0] != 121u8); }
    assert(k2 != keys[4] && k2 != keys[5]);
}

} // verus!
