//! The worker's result wire format: one record per line, written as a JSON
//! object with exactly the fields `text` (string), `isFinal` (boolean) and
//! `timestamp` (number), in any order, surrounded by optional whitespace.
//!
//! The grammar is specified here as a functional parser over byte
//! sequences, and the executable decoder is proved to return exactly what
//! the specification parser yields.  String values support the JSON escape
//! sequences, including `\uXXXX` with surrogate pairs; the decoded text
//! must be valid UTF-8.  The `timestamp` field is kept as the raw number
//! token, so no precision is lost to any binary float representation;
//! callers that want a float parse the token themselves.

use vstd::prelude::*;
use vstd::utf8::*;

verus! {

/// One decoded result record from the worker.
#[derive(Debug, Clone, PartialEq)]
pub struct StreamingResult {
    /// The transcribed text.
    pub text: String,
    /// Whether this is a settled segment (`true`) or a volatile hypothesis
    /// that a later record may revise (`false`).
    pub is_final: bool,
    /// The record's epoch-seconds timestamp, kept verbatim as the number
    /// token from the wire.
    pub timestamp: String,
}

/// A raw record as the grammar yields it: decoded text bytes, the flag,
/// and the bytes of the number token.
pub struct WireRecord {
    pub text: Seq<u8>,
    pub is_final: bool,
    pub timestamp: Seq<u8>,
}

/// The result of parsing one string value: the decoded bytes and the index
/// just past the closing quote.
pub struct StrPart {
    pub bytes: Seq<u8>,
    pub next: int,
}

/// Fields collected so far while parsing the record's members.
pub struct PartialRec {
    pub text: Option<Seq<u8>>,
    pub is_final: Option<bool>,
    pub timestamp: Option<Seq<u8>>,
}

pub open spec fn is_ws(b: u8) -> bool {
    b == 0x20 || b == 0x09 || b == 0x0a || b == 0x0d
}

pub open spec fn is_digit(b: u8) -> bool {
    0x30 <= b <= 0x39
}

pub open spec fn is_hex_digit(b: u8) -> bool {
    is_digit(b) || (0x41 <= b <= 0x46) || (0x61 <= b <= 0x66)
}

/// Numeric value of a hexadecimal digit byte.
pub open spec fn hex_val(b: u8) -> u32
    recommends
        is_hex_digit(b),
{
    if is_digit(b) {
        (b - 0x30) as u32
    } else if 0x41 <= b <= 0x46 {
        (b - 0x41 + 10) as u32
    } else {
        (b - 0x61 + 10) as u32
    }
}

/// Index of the first byte at or after `i` that is not JSON whitespace.
pub open spec fn skip_ws(s: Seq<u8>, i: int) -> int
    decreases s.len() - i,
{
    if 0 <= i < s.len() && is_ws(s[i]) {
        skip_ws(s, i + 1)
    } else {
        i
    }
}

/// Index of the first byte at or after `i` that is not a decimal digit.
pub open spec fn skip_digits(s: Seq<u8>, i: int) -> int
    decreases s.len() - i,
{
    if 0 <= i < s.len() && is_digit(s[i]) {
        skip_digits(s, i + 1)
    } else {
        i
    }
}

/// The byte produced by a single-character escape (`\"` `\\` `\/` `\b`
/// `\f` `\n` `\r` `\t`).
pub open spec fn esc_byte(b: u8) -> u8 {
    if b == 0x62 {
        0x08
    } else if b == 0x66 {
        0x0c
    } else if b == 0x6e {
        0x0a
    } else if b == 0x72 {
        0x0d
    } else if b == 0x74 {
        0x09
    } else {
        b
    }
}

pub open spec fn is_simple_escape(b: u8) -> bool {
    b == 0x22 || b == 0x5c || b == 0x2f || b == 0x62 || b == 0x66 || b == 0x6e || b == 0x72
        || b == 0x74
}

/// Whether four hexadecimal digits start at `i`.
pub open spec fn hex4_ok(s: Seq<u8>, i: int) -> bool {
    &&& i >= 0
    &&& i + 4 <= s.len()
    &&& is_hex_digit(s[i])
    &&& is_hex_digit(s[i + 1])
    &&& is_hex_digit(s[i + 2])
    &&& is_hex_digit(s[i + 3])
}

/// Value of the four hexadecimal digits starting at `i`.
pub open spec fn hex4(s: Seq<u8>, i: int) -> u32
    recommends
        hex4_ok(s, i),
{
    (hex_val(s[i]) * 0x1000 + hex_val(s[i + 1]) * 0x100 + hex_val(s[i + 2]) * 0x10 + hex_val(
        s[i + 3],
    )) as u32
}

/// Glue the already-decoded prefix onto the rest of a string body parse.
pub open spec fn with_prefix(pre: Seq<u8>, rest: Option<StrPart>) -> Option<StrPart> {
    match rest {
        None => None,
        Some(sp) => Some(StrPart { bytes: pre + sp.bytes, next: sp.next }),
    }
}

/// Parse the body of a JSON string (the opening quote already consumed):
/// raw bytes up to the closing quote, with escape sequences decoded.
/// `\uXXXX` escapes yield the UTF-8 encoding of the named scalar; a high
/// surrogate must be followed by a low surrogate and the pair is combined.
/// Unescaped control bytes, lone surrogates, bad escapes and an
/// unterminated string all fail.
#[verifier::opaque]
pub open spec fn parse_string_body(s: Seq<u8>, i: int) -> Option<StrPart>
    decreases s.len() - i,
{
    if i < 0 || i >= s.len() {
        None
    } else if s[i] == 0x22 {
        Some(StrPart { bytes: seq![], next: i + 1 })
    } else if s[i] == 0x5c {
        if i + 1 >= s.len() {
            None
        } else {
            let e = s[i + 1];
            if is_simple_escape(e) {
                with_prefix(seq![esc_byte(e)], parse_string_body(s, i + 2))
            } else if e == 0x75 {
                if !hex4_ok(s, i + 2) {
                    None
                } else {
                    let cp = hex4(s, i + 2);
                    if 0xd800 <= cp <= 0xdbff {
                        if i + 8 <= s.len() && s[i + 6] == 0x5c && s[i + 7] == 0x75 && hex4_ok(
                            s,
                            i + 8,
                        ) {
                            let lo = hex4(s, i + 8);
                            if 0xdc00 <= lo <= 0xdfff {
                                let combined = (0x10000 + (cp - 0xd800) * 0x400 + (lo
                                    - 0xdc00)) as u32;
                                with_prefix(encode_scalar(combined), parse_string_body(s, i + 12))
                            } else {
                                None
                            }
                        } else {
                            None
                        }
                    } else if 0xdc00 <= cp <= 0xdfff {
                        None
                    } else {
                        with_prefix(encode_scalar(cp), parse_string_body(s, i + 6))
                    }
                }
            } else {
                None
            }
        }
    } else if s[i] < 0x20 {
        None
    } else {
        with_prefix(seq![s[i]], parse_string_body(s, i + 1))
    }
}

/// Parse a JSON string starting with its opening quote at `i`.
pub open spec fn parse_string(s: Seq<u8>, i: int) -> Option<StrPart> {
    if 0 <= i < s.len() && s[i] == 0x22 {
        parse_string_body(s, i + 1)
    } else {
        None
    }
}

/// End index of the JSON number token starting at `i`, if one starts
/// there: an optional minus sign, an integer part without a superfluous
/// leading zero, an optional fraction, an optional exponent.
pub open spec fn parse_number_end(s: Seq<u8>, i: int) -> Option<int> {
    if i < 0 || i >= s.len() {
        None
    } else {
        let j = if s[i] == 0x2d {
            i + 1
        } else {
            i
        };
        if !(j < s.len() && is_digit(s[j])) {
            None
        } else {
            let k = if s[j] == 0x30 {
                j + 1
            } else {
                skip_digits(s, j)
            };
            let k2 = if k < s.len() && s[k] == 0x2e {
                if k + 1 < s.len() && is_digit(s[k + 1]) {
                    skip_digits(s, k + 1)
                } else {
                    -1
                }
            } else {
                k
            };
            if k2 < 0 {
                None
            } else {
                let end = if k2 < s.len() && (s[k2] == 0x65 || s[k2] == 0x45) {
                    let p = if k2 + 1 < s.len() && (s[k2 + 1] == 0x2b || s[k2 + 1] == 0x2d) {
                        k2 + 2
                    } else {
                        k2 + 1
                    };
                    if p < s.len() && is_digit(s[p]) {
                        skip_digits(s, p)
                    } else {
                        -1
                    }
                } else {
                    k2
                };
                if end < 0 {
                    None
                } else {
                    Some(end)
                }
            }
        }
    }
}

pub open spec fn true_lit() -> Seq<u8> {
    seq![0x74u8, 0x72u8, 0x75u8, 0x65u8]
}

pub open spec fn false_lit() -> Seq<u8> {
    seq![0x66u8, 0x61u8, 0x6cu8, 0x73u8, 0x65u8]
}

pub open spec fn text_key() -> Seq<u8> {
    seq![0x74u8, 0x65u8, 0x78u8, 0x74u8]
}

pub open spec fn is_final_key() -> Seq<u8> {
    seq![0x69u8, 0x73u8, 0x46u8, 0x69u8, 0x6eu8, 0x61u8, 0x6cu8]
}

pub open spec fn timestamp_key() -> Seq<u8> {
    seq![0x74u8, 0x69u8, 0x6du8, 0x65u8, 0x73u8, 0x74u8, 0x61u8, 0x6du8, 0x70u8]
}

/// Whether the literal `lit` occurs in `s` starting at `i`.
pub open spec fn lit_at(s: Seq<u8>, i: int, lit: Seq<u8>) -> bool {
    i >= 0 && i + lit.len() <= s.len() && s.subrange(i, i + lit.len() as int) == lit
}

/// Parse the members of the record object, starting at `i` (just after the
/// opening brace or a comma) with the fields collected so far in `acc`.
/// Each member must be one of the three known keys, each at most once;
/// after the closing brace only whitespace may remain, and all three
/// fields must be present.  `fuel` bounds the recursion; four members
/// never parse, since a fourth key is always a repeat or unknown, so the
/// initial fuel of four never runs out.
pub open spec fn parse_members(s: Seq<u8>, i: int, acc: PartialRec, fuel: nat) -> Option<WireRecord>
    decreases fuel, 0int,
{
    if fuel == 0 {
        None
    } else {
        let j = skip_ws(s, i);
        match parse_string(s, j) {
            None => None,
            Some(key) => {
                let k = skip_ws(s, key.next);
                if !(k < s.len() && s[k] == 0x3a) {
                    None
                } else {
                    let v = skip_ws(s, k + 1);
                    if key.bytes == text_key() {
                        if acc.text is Some {
                            None
                        } else {
                            match parse_string(s, v) {
                                None => None,
                                Some(sp) => parse_after_member(
                                    s,
                                    sp.next,
                                    PartialRec { text: Some(sp.bytes), ..acc },
                                    (fuel - 1) as nat,
                                ),
                            }
                        }
                    } else if key.bytes == is_final_key() {
                        if acc.is_final is Some {
                            None
                        } else {
                            if lit_at(s, v, true_lit()) {
                                parse_after_member(
                                    s,
                                    v + 4,
                                    PartialRec { is_final: Some(true), ..acc },
                                    (fuel - 1) as nat,
                                )
                            } else if lit_at(s, v, false_lit()) {
                                parse_after_member(
                                    s,
                                    v + 5,
                                    PartialRec { is_final: Some(false), ..acc },
                                    (fuel - 1) as nat,
                                )
                            } else {
                                None
                            }
                        }
                    } else if key.bytes == timestamp_key() {
                        if acc.timestamp is Some {
                            None
                        } else {
                            match parse_number_end(s, v) {
                                None => None,
                                Some(end) => parse_after_member(
                                    s,
                                    end,
                                    PartialRec { timestamp: Some(s.subrange(v, end)), ..acc },
                                    (fuel - 1) as nat,
                                ),
                            }
                        }
                    } else {
                        None
                    }
                }
            },
        }
    }
}

/// After a member's value: a comma continues with the next member, a
/// closing brace ends the object, which must be complete and followed only
/// by whitespace.
pub open spec fn parse_after_member(s: Seq<u8>, i: int, acc: PartialRec, fuel: nat) -> Option<
    WireRecord,
>
    decreases fuel, 1int,
{
    let j = skip_ws(s, i);
    if !(0 <= j < s.len()) {
        None
    } else if s[j] == 0x2c {
        parse_members(s, j + 1, acc, fuel)
    } else if s[j] == 0x7d {
        match (acc.text, acc.is_final, acc.timestamp) {
            (Some(t), Some(f), Some(ts)) => {
                if skip_ws(s, j + 1) == s.len() {
                    Some(WireRecord { text: t, is_final: f, timestamp: ts })
                } else {
                    None
                }
            },
            _ => None,
        }
    } else {
        None
    }
}

/// Parse one whole line as a result record.
pub open spec fn parse_record(s: Seq<u8>) -> Option<WireRecord> {
    let i = skip_ws(s, 0);
    if 0 <= i < s.len() && s[i] == 0x7b {
        parse_members(
            s,
            i + 1,
            PartialRec { text: None, is_final: None, timestamp: None },
            4nat,
        )
    } else {
        None
    }
}

fn is_ws_byte(b: u8) -> (r: bool)
    ensures
        r == is_ws(b),
{
    b == 0x20 || b == 0x09 || b == 0x0a || b == 0x0d
}

fn is_digit_byte(b: u8) -> (r: bool)
    ensures
        r == is_digit(b),
{
    0x30 <= b && b <= 0x39
}

fn is_hex_digit_byte(b: u8) -> (r: bool)
    ensures
        r == is_hex_digit(b),
{
    (0x30 <= b && b <= 0x39) || (0x41 <= b && b <= 0x46) || (0x61 <= b && b <= 0x66)
}

fn hex_val_byte(b: u8) -> (r: u32)
    requires
        is_hex_digit(b),
    ensures
        r == hex_val(b),
{
    if 0x30 <= b && b <= 0x39 {
        (b - 0x30) as u32
    } else if 0x41 <= b && b <= 0x46 {
        (b - 0x41) as u32 + 10
    } else {
        (b - 0x61) as u32 + 10
    }
}

fn is_simple_escape_byte(b: u8) -> (r: bool)
    ensures
        r == is_simple_escape(b),
{
    b == 0x22 || b == 0x5c || b == 0x2f || b == 0x62 || b == 0x66 || b == 0x6e || b == 0x72
        || b == 0x74
}

fn esc_byte_exec(b: u8) -> (r: u8)
    ensures
        r == esc_byte(b),
{
    if b == 0x62 {
        0x08
    } else if b == 0x66 {
        0x0c
    } else if b == 0x6e {
        0x0a
    } else if b == 0x72 {
        0x0d
    } else if b == 0x74 {
        0x09
    } else {
        b
    }
}

fn skip_ws_exec(s: &Vec<u8>, i: usize) -> (r: usize)
    requires
        i <= s@.len(),
    ensures
        r == skip_ws(s@, i as int),
        i <= r <= s@.len(),
{
    let mut cur: usize = i;
    while cur < s.len() && is_ws_byte(s[cur])
        invariant
            i <= cur <= s@.len(),
            skip_ws(s@, i as int) == skip_ws(s@, cur as int),
        decreases s@.len() - cur,
    {
        cur = cur + 1;
    }
    cur
}

fn skip_digits_exec(s: &Vec<u8>, i: usize) -> (r: usize)
    requires
        i <= s@.len(),
    ensures
        r == skip_digits(s@, i as int),
        i <= r <= s@.len(),
{
    let mut cur: usize = i;
    while cur < s.len() && is_digit_byte(s[cur])
        invariant
            i <= cur <= s@.len(),
            skip_digits(s@, i as int) == skip_digits(s@, cur as int),
        decreases s@.len() - cur,
    {
        cur = cur + 1;
    }
    cur
}

fn parse_hex4(s: &Vec<u8>, i: usize) -> (r: Option<u32>)
    requires
        i <= s@.len(),
    ensures
        r is Some <==> hex4_ok(s@, i as int),
        r matches Some(v) ==> v == hex4(s@, i as int),
{
    if s.len() - i < 4 {
        return None;
    }
    let b0 = s[i];
    let b1 = s[i + 1];
    let b2 = s[i + 2];
    let b3 = s[i + 3];
    if is_hex_digit_byte(b0) && is_hex_digit_byte(b1) && is_hex_digit_byte(b2)
        && is_hex_digit_byte(b3) {
        Some(
            hex_val_byte(b0) * 0x1000 + hex_val_byte(b1) * 0x100 + hex_val_byte(b2) * 0x10
                + hex_val_byte(b3),
        )
    } else {
        None
    }
}

/// UTF-8 encoding of a Unicode scalar, producing exactly the bytes of
/// vstd's `encode_scalar` specification.
fn encode_scalar_exec(cp: u32) -> (v: Vec<u8>)
    requires
        is_scalar(cp),
    ensures
        v@ == encode_scalar(cp),
{
    let mut v: Vec<u8> = Vec::new();
    if cp <= 0x7f {
        v.push((cp & 0x7f) as u8);
    } else if cp <= 0x7ff {
        assert((cp >> 6) & 0x1f <= 0x1f && cp & 0x3f <= 0x3f) by (bit_vector);
        v.push(0xc0u8 | (((cp >> 6) & 0x1f) as u8));
        v.push(0x80u8 | ((cp & 0x3f) as u8));
    } else if cp <= 0xffff {
        assert((cp >> 12) & 0x0f <= 0x0f && (cp >> 6) & 0x3f <= 0x3f && cp & 0x3f <= 0x3f)
            by (bit_vector);
        v.push(0xe0u8 | (((cp >> 12) & 0x0f) as u8));
        v.push(0x80u8 | (((cp >> 6) & 0x3f) as u8));
        v.push(0x80u8 | ((cp & 0x3f) as u8));
    } else {
        assert((cp >> 18) & 0x7 <= 0x7 && (cp >> 12) & 0x3f <= 0x3f && (cp >> 6) & 0x3f <= 0x3f
            && cp & 0x3f <= 0x3f) by (bit_vector);
        v.push(0xf0u8 | (((cp >> 18) & 0x7) as u8));
        v.push(0x80u8 | (((cp >> 12) & 0x3f) as u8));
        v.push(0x80u8 | (((cp >> 6) & 0x3f) as u8));
        v.push(0x80u8 | ((cp & 0x3f) as u8));
    }
    proof {
        assert(v@ =~= encode_scalar(cp));
    }
    v
}

/// Copy of `s[a..b]` as a fresh vector.
pub(crate) fn copy_range(s: &Vec<u8>, a: usize, b: usize) -> (r: Vec<u8>)
    requires
        a <= b <= s@.len(),
    ensures
        r@ == s@.subrange(a as int, b as int),
{
    let mut r: Vec<u8> = Vec::new();
    let mut t: usize = a;
    while t < b
        invariant
            a <= t <= b <= s@.len(),
            r@ == s@.subrange(a as int, t as int),
        decreases b - t,
    {
        r.push(s[t]);
        assert(r@ =~= s@.subrange(a as int, t + 1 as int));
        t = t + 1;
    }
    r
}

fn match_true(s: &Vec<u8>, i: usize) -> (r: bool)
    requires
        i <= s@.len(),
    ensures
        r == lit_at(s@, i as int, true_lit()),
{
    if s.len() - i < 4 {
        return false;
    }
    let r = s[i] == 0x74 && s[i + 1] == 0x72 && s[i + 2] == 0x75 && s[i + 3] == 0x65;
    proof {
        let gi = i as int;
        if lit_at(s@, gi, true_lit()) {
            assert(s@.subrange(gi, gi + 4)[0] == s@[gi]);
            assert(s@.subrange(gi, gi + 4)[1] == s@[gi + 1]);
            assert(s@.subrange(gi, gi + 4)[2] == s@[gi + 2]);
            assert(s@.subrange(gi, gi + 4)[3] == s@[gi + 3]);
        }
        if r {
            assert(s@.subrange(gi, gi + 4) =~= true_lit());
        }
    }
    r
}

fn match_false(s: &Vec<u8>, i: usize) -> (r: bool)
    requires
        i <= s@.len(),
    ensures
        r == lit_at(s@, i as int, false_lit()),
{
    if s.len() - i < 5 {
        return false;
    }
    let r = s[i] == 0x66 && s[i + 1] == 0x61 && s[i + 2] == 0x6c && s[i + 3] == 0x73 && s[i + 4]
        == 0x65;
    proof {
        let gi = i as int;
        if lit_at(s@, gi, false_lit()) {
            assert(s@.subrange(gi, gi + 5)[0] == s@[gi]);
            assert(s@.subrange(gi, gi + 5)[1] == s@[gi + 1]);
            assert(s@.subrange(gi, gi + 5)[2] == s@[gi + 2]);
            assert(s@.subrange(gi, gi + 5)[3] == s@[gi + 3]);
            assert(s@.subrange(gi, gi + 5)[4] == s@[gi + 4]);
        }
        if r {
            assert(s@.subrange(gi, gi + 5) =~= false_lit());
        }
    }
    r
}

fn is_key_text(k: &Vec<u8>) -> (r: bool)
    ensures
        r == (k@ == text_key()),
{
    if k.len() != 4 {
        return false;
    }
    let r = k[0] == 0x74 && k[1] == 0x65 && k[2] == 0x78 && k[3] == 0x74;
    proof {
        if r {
            assert(k@ =~= text_key());
        }
    }
    r
}

fn is_key_is_final(k: &Vec<u8>) -> (r: bool)
    ensures
        r == (k@ == is_final_key()),
{
    if k.len() != 7 {
        return false;
    }
    let r = k[0] == 0x69 && k[1] == 0x73 && k[2] == 0x46 && k[3] == 0x69 && k[4] == 0x6e && k[5]
        == 0x61 && k[6] == 0x6c;
    proof {
        if r {
            assert(k@ =~= is_final_key());
        }
    }
    r
}

fn is_key_timestamp(k: &Vec<u8>) -> (r: bool)
    ensures
        r == (k@ == timestamp_key()),
{
    if k.len() != 9 {
        return false;
    }
    let r = k[0] == 0x74 && k[1] == 0x69 && k[2] == 0x6d && k[3] == 0x65 && k[4] == 0x73 && k[5]
        == 0x74 && k[6] == 0x61 && k[7] == 0x6d && k[8] == 0x70;
    proof {
        if r {
            assert(k@ =~= timestamp_key());
        }
    }
    r
}

proof fn lemma_psb_past_end(s: Seq<u8>, cur: int)
    requires
        cur >= s.len(),
    ensures
        parse_string_body(s, cur) is None,
{
    reveal(parse_string_body);
}

proof fn lemma_psb_quote(s: Seq<u8>, cur: int)
    requires
        0 <= cur < s.len(),
        s[cur] == 0x22,
    ensures
        parse_string_body(s, cur) == Some(StrPart { bytes: seq![], next: cur + 1 }),
{
    reveal(parse_string_body);
}

proof fn lemma_psb_ctrl(s: Seq<u8>, cur: int)
    requires
        0 <= cur < s.len(),
        s[cur] < 0x20,
    ensures
        parse_string_body(s, cur) is None,
{
    reveal(parse_string_body);
}

proof fn lemma_psb_raw(s: Seq<u8>, cur: int)
    requires
        0 <= cur < s.len(),
        s[cur] >= 0x20,
        s[cur] != 0x22,
        s[cur] != 0x5c,
    ensures
        parse_string_body(s, cur) == with_prefix(seq![s[cur]], parse_string_body(s, cur + 1)),
{
    reveal(parse_string_body);
}

proof fn lemma_with_prefix_assoc(a: Seq<u8>, b: Seq<u8>, x: Option<StrPart>)
    ensures
        with_prefix(a, with_prefix(b, x)) == with_prefix(a + b, x),
{
    match x {
        None => {},
        Some(sp) => {
            assert(a + (b + sp.bytes) =~= (a + b) + sp.bytes);
        },
    }
}

/// Handle one escape sequence: `cur` stands on the backslash.  Returns the
/// decoded bytes and the index just past the escape, or nothing when the
/// string body fails to parse here.
fn parse_escape(s: &Vec<u8>, cur: usize) -> (r: Option<(Vec<u8>, usize)>)
    requires
        cur < s@.len(),
        s@[cur as int] == 0x5c,
    ensures
        r is None ==> parse_string_body(s@, cur as int) is None,
        r matches Some(p) ==> parse_string_body(s@, cur as int) == with_prefix(
            p.0@,
            parse_string_body(s@, p.1 as int),
        ) && cur < p.1 <= s@.len(),
{
    proof {
        reveal(parse_string_body);
    }
    if s.len() - cur < 2 {
        return None;
    }
    let e = s[cur + 1];
    if is_simple_escape_byte(e) {
        let mut enc: Vec<u8> = Vec::new();
        enc.push(esc_byte_exec(e));
        proof {
            assert(enc@ =~= seq![esc_byte(e)]);
        }
        return Some((enc, cur + 2));
    }
    if e != 0x75 {
        return None;
    }
    let hv = parse_hex4(s, cur + 2);
    if hv.is_none() {
        return None;
    }
    let cpv = hv.unwrap();
    if 0xd800 <= cpv && cpv <= 0xdbff {
        if s.len() - cur < 8 {
            return None;
        }
        if !(s[cur + 6] == 0x5c && s[cur + 7] == 0x75) {
            return None;
        }
        let lv = parse_hex4(s, cur + 8);
        if lv.is_none() {
            return None;
        }
        let lov = lv.unwrap();
        if !(0xdc00 <= lov && lov <= 0xdfff) {
            return None;
        }
        let comb: u32 = 0x10000 + (cpv - 0xd800) * 0x400 + (lov - 0xdc00);
        let enc = encode_scalar_exec(comb);
        Some((enc, cur + 12))
    } else if 0xdc00 <= cpv && cpv <= 0xdfff {
        None
    } else {
        let enc = encode_scalar_exec(cpv);
        Some((enc, cur + 6))
    }
}

/// Parse a JSON string whose opening quote stands at `i`, returning the
/// decoded bytes and the index just past the closing quote.
fn parse_string_at(s: &Vec<u8>, i: usize) -> (r: Option<(Vec<u8>, usize)>)
    requires
        i <= s@.len(),
    ensures
        match parse_string(s@, i as int) {
            None => r is None,
            Some(sp) => r matches Some(p) && p.0@ == sp.bytes && p.1 == sp.next && i < p.1
                <= s@.len(),
        },
{
    if !(i < s.len() && s[i] == 0x22) {
        return None;
    }
    let mut cur: usize = i + 1;
    let mut acc: Vec<u8> = Vec::new();
    let ghost target = parse_string_body(s@, i + 1);
    loop
        invariant
            i < s@.len(),
            s@[i as int] == 0x22,
            i + 1 <= cur <= s@.len(),
            target == parse_string_body(s@, i + 1),
            target == with_prefix(acc@, parse_string_body(s@, cur as int)),
        decreases s@.len() - cur,
    {
        if cur >= s.len() {
            proof {
                lemma_psb_past_end(s@, cur as int);
            }
            return None;
        }
        let b = s[cur];
        if b == 0x22 {
            proof {
                lemma_psb_quote(s@, cur as int);
                assert(acc@ + seq![] =~= acc@);
                assert(target == Some(StrPart { bytes: acc@, next: cur + 1 }));
                assert(parse_string(s@, i as int) == target);
            }
            return Some((acc, cur + 1));
        } else if b == 0x5c {
            let step = parse_escape(s, cur);
            if step.is_none() {
                return None;
            }
            let (mut enc, nxt) = step.unwrap();
            let ghost encs = enc@;
            let ghost old_acc = acc@;
            acc.append(&mut enc);
            proof {
                lemma_with_prefix_assoc(old_acc, encs, parse_string_body(s@, nxt as int));
            }
            cur = nxt;
        } else if b < 0x20 {
            proof {
                lemma_psb_ctrl(s@, cur as int);
            }
            return None;
        } else {
            let ghost old_acc = acc@;
            acc.push(b);
            proof {
                lemma_psb_raw(s@, cur as int);
                assert(acc@ =~= old_acc + seq![b]);
                lemma_with_prefix_assoc(old_acc, seq![b], parse_string_body(s@, cur + 1));
            }
            cur = cur + 1;
        }
    }
}

/// Scan the JSON number token starting at `i`, returning its end index.
fn scan_number(s: &Vec<u8>, i: usize) -> (r: Option<usize>)
    requires
        i <= s@.len(),
    ensures
        match parse_number_end(s@, i as int) {
            None => r is None,
            Some(e) => r matches Some(x) && x == e && i < x <= s@.len(),
        },
{
    if i >= s.len() {
        return None;
    }
    let j: usize = if s[i] == 0x2d {
        i + 1
    } else {
        i
    };
    if !(j < s.len() && is_digit_byte(s[j])) {
        return None;
    }
    let k: usize = if s[j] == 0x30 {
        j + 1
    } else {
        proof {
            assert(skip_digits(s@, j as int) == skip_digits(s@, j + 1));
        }
        skip_digits_exec(s, j + 1)
    };
    let k2: usize = if k < s.len() && s[k] == 0x2e {
        if k + 1 < s.len() && is_digit_byte(s[k + 1]) {
            skip_digits_exec(s, k + 1)
        } else {
            return None;
        }
    } else {
        k
    };
    let end: usize = if k2 < s.len() && (s[k2] == 0x65 || s[k2] == 0x45) {
        let p: usize = if k2 + 1 < s.len() && (s[k2 + 1] == 0x2b || s[k2 + 1] == 0x2d) {
            k2 + 2
        } else {
            k2 + 1
        };
        if p < s.len() && is_digit_byte(s[p]) {
            skip_digits_exec(s, p)
        } else {
            return None;
        }
    } else {
        k2
    };
    Some(end)
}

proof fn lemma_members_full_none(s: Seq<u8>, i: int, acc: PartialRec, fuel: nat)
    requires
        acc.text is Some,
        acc.is_final is Some,
        acc.timestamp is Some,
    ensures
        parse_members(s, i, acc, fuel) is None,
{
    if fuel != 0 {
        let j = skip_ws(s, i);
        match parse_string(s, j) {
            None => {},
            Some(key) => {},
        }
    }
}

/// View of an optional byte vector.
pub open spec fn opt_bytes_view(o: Option<Vec<u8>>) -> Option<Seq<u8>> {
    match o {
        Some(v) => Some(v@),
        None => None,
    }
}

/// Number of fields already collected.
pub open spec fn fields_set(text: Option<Vec<u8>>, isf: Option<bool>, ts: Option<Vec<u8>>) -> int {
    (if text is Some {
        1int
    } else {
        0int
    }) + (if isf is Some {
        1int
    } else {
        0int
    }) + (if ts is Some {
        1int
    } else {
        0int
    })
}

/// Parse one whole line as a record, returning the decoded text bytes, the
/// flag, and the raw number token of the timestamp.
#[verifier::rlimit(100)]
fn parse_record_exec(s: &Vec<u8>) -> (r: Option<(Vec<u8>, bool, Vec<u8>)>)
    ensures
        match parse_record(s@) {
            None => r is None,
            Some(rec) => r matches Some(t) && t.0@ == rec.text && t.1 == rec.is_final && t.2@
                == rec.timestamp,
        },
{
    let i0 = skip_ws_exec(s, 0);
    if !(i0 < s.len() && s[i0] == 0x7b) {
        return None;
    }
    let mut i: usize = i0 + 1;
    let mut text: Option<Vec<u8>> = None;
    let mut isf: Option<bool> = None;
    let mut ts: Option<Vec<u8>> = None;
    let ghost target = parse_record(s@);
    let ghost mut fuel: nat = 4;
    loop
        invariant
            i <= s@.len(),
            target == parse_record(s@),
            fuel == 4 - fields_set(text, isf, ts),
            1 <= fuel <= 4,
            target == parse_members(
                s@,
                i as int,
                (PartialRec {
                    text: opt_bytes_view(text),
                    is_final: isf,
                    timestamp: opt_bytes_view(ts),
                }),
                fuel,
            ),
        decreases s@.len() - i,
    {
        let j = skip_ws_exec(s, i);
        let ks = parse_string_at(s, j);
        if ks.is_none() {
            return None;
        }
        let (key, kn) = ks.unwrap();
        let k = skip_ws_exec(s, kn);
        if !(k < s.len() && s[k] == 0x3a) {
            return None;
        }
        let v = skip_ws_exec(s, k + 1);
        let vend: usize;
        if is_key_text(&key) {
            if text.is_some() {
                return None;
            }
            let tv = parse_string_at(s, v);
            if tv.is_none() {
                return None;
            }
            let (tb, tn) = tv.unwrap();
            text = Some(tb);
            vend = tn;
            proof {
                fuel = (fuel - 1) as nat;
            }
        } else if is_key_is_final(&key) {
            if isf.is_some() {
                return None;
            }
            if match_true(s, v) {
                isf = Some(true);
                vend = v + 4;
            } else if match_false(s, v) {
                isf = Some(false);
                vend = v + 5;
            } else {
                return None;
            }
            proof {
                fuel = (fuel - 1) as nat;
            }
        } else if is_key_timestamp(&key) {
            if ts.is_some() {
                return None;
            }
            let te = scan_number(s, v);
            if te.is_none() {
                return None;
            }
            let tn = te.unwrap();
            ts = Some(copy_range(s, v, tn));
            vend = tn;
            proof {
                fuel = (fuel - 1) as nat;
            }
        } else {
            return None;
        }
        let j2 = skip_ws_exec(s, vend);
        if j2 >= s.len() {
            return None;
        }
        if s[j2] == 0x2c {
            if text.is_some() && isf.is_some() && ts.is_some() {
                // all three fields are present, so the next member can only
                // repeat a key and the record cannot parse
                proof {
                    lemma_members_full_none(
                        s@,
                        j2 + 1,
                        (PartialRec {
                            text: opt_bytes_view(text),
                            is_final: isf,
                            timestamp: opt_bytes_view(ts),
                        }),
                        fuel,
                    );
                }
                return None;
            }
            i = j2 + 1;
        } else if s[j2] == 0x7d {
            if text.is_some() && isf.is_some() && ts.is_some() {
                let e = skip_ws_exec(s, j2 + 1);
                if e == s.len() {
                    let tb = text.unwrap();
                    let fb = isf.unwrap();
                    let sb = ts.unwrap();
                    return Some((tb, fb, sb));
                } else {
                    return None;
                }
            } else {
                return None;
            }
        } else {
            return None;
        }
    }
}

/// Decode a byte vector as a UTF-8 string.
///
/// Relies on `String::from_utf8`, which succeeds exactly when the bytes
/// are a valid UTF-8 encoding and then yields the characters they encode.
#[verifier::external_body]
fn bytes_to_string(v: Vec<u8>) -> (r: Option<String>)
    ensures
        r is Some <==> valid_utf8(v@),
        r matches Some(t) ==> t@ == decode_utf8(v@),
{
    String::from_utf8(v).ok()
}

/// Decode one line of worker output (without its trailing newline) as a
/// result record.  Returns the record exactly when the line parses under
/// the wire grammar and its text decodes as UTF-8.
pub fn decode_result_line(line: &Vec<u8>) -> (r: Option<StreamingResult>)
    ensures
        match decode_line_spec(line@) {
            None => r is None,
            Some(rec) => r matches Some(res) && res.text@ == rec.0 && res.is_final == rec.1
                && res.timestamp@ == rec.2,
        },
{
    match parse_record_exec(line) {
        None => None,
        Some((tb, fb, sb)) => match bytes_to_string(tb) {
            None => None,
            Some(text) => match bytes_to_string(sb) {
                None => None,
                Some(timestamp) => Some(
                    StreamingResult { text, is_final: fb, timestamp },
                ),
            },
        },
    }
}

/// The full meaning of one line of worker output: the parsed record with
/// its text and timestamp bytes decoded as UTF-8, or nothing if the line
/// is not a well-formed record.
pub open spec fn decode_line_spec(s: Seq<u8>) -> Option<(Seq<char>, bool, Seq<char>)> {
    match parse_record(s) {
        None => None,
        Some(r) => {
            if valid_utf8(r.text) && valid_utf8(r.timestamp) {
                Some((decode_utf8(r.text), r.is_final, decode_utf8(r.timestamp)))
            } else {
                None
            }
        },
    }
}

} // verus!
