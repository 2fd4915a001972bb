//! Lexical layer of the message codec: scanning of JSON whitespace, strings,
//! numbers, and whole values over a sequence of characters.
//!
//! Every scanner is specified against a spec-level twin over `Seq<char>`, so
//! the envelope decoder built on top of this layer has an exact contract.
//! A scan that fails returns `None`; the session treats such a frame as
//! malformed and drops it.

use vstd::prelude::*;
use vstd::string::StrSliceExecFns;

verus! {

/// JSON insignificant whitespace.
pub open spec fn is_ws_char(c: char) -> bool {
    c == ' ' || c == '\t' || c == '\n' || c == '\r'
}

/// A decimal digit.
pub open spec fn is_digit_char(c: char) -> bool {
    48 <= c as u32 <= 57
}

/// The numeric value of a digit character.
pub open spec fn digit_val(c: char) -> int {
    c as u32 - 48
}

/// The value of a digit sequence read in base ten, most significant first.
pub open spec fn dec_val(t: Seq<char>) -> int
    decreases t.len(),
{
    if t.len() == 0 {
        0
    } else {
        dec_val(t.drop_last()) * 10 + digit_val(t.last())
    }
}

/// Whether every character of `t` is a decimal digit.
pub open spec fn all_digits(t: Seq<char>) -> bool {
    forall|k: int| 0 <= k < t.len() ==> is_digit_char(t[k])
}

/// The index of the first non-whitespace character at or after `i`.
pub open spec fn sp_ws(t: Seq<char>, i: int) -> int
    decreases t.len() - i,
{
    if 0 <= i < t.len() && is_ws_char(t[i]) {
        sp_ws(t, i + 1)
    } else {
        i
    }
}

pub proof fn lemma_ws_bounds(t: Seq<char>, i: int)
    requires
        0 <= i <= t.len(),
    ensures
        i <= sp_ws(t, i) <= t.len(),
        sp_ws(t, i) < t.len() ==> !is_ws_char(t[sp_ws(t, i)]),
    decreases t.len() - i,
{
    if i < t.len() && is_ws_char(t[i]) {
        lemma_ws_bounds(t, i + 1);
    }
}

/// The index of the first non-digit character at or after `i`.
pub open spec fn sp_digits_end(t: Seq<char>, i: int) -> int
    decreases t.len() - i,
{
    if 0 <= i < t.len() && is_digit_char(t[i]) {
        sp_digits_end(t, i + 1)
    } else {
        i
    }
}

pub proof fn lemma_digits_end_bounds(t: Seq<char>, i: int)
    requires
        0 <= i <= t.len(),
    ensures
        i <= sp_digits_end(t, i) <= t.len(),
        all_digits(t.subrange(i, sp_digits_end(t, i))),
        sp_digits_end(t, i) < t.len() ==> !is_digit_char(t[sp_digits_end(t, i)]),
    decreases t.len() - i,
{
    if i < t.len() && is_digit_char(t[i]) {
        lemma_digits_end_bounds(t, i + 1);
        let e = sp_digits_end(t, i);
        assert forall|k: int| 0 <= k < t.subrange(i, e).len() implies is_digit_char(
            t.subrange(i, e)[k],
        ) by {
            if k > 0 {
                assert(t.subrange(i, e)[k] == t.subrange(i + 1, e)[k - 1]);
            }
        }
    }
}

pub proof fn lemma_dec_val_nonneg(t: Seq<char>)
    requires
        all_digits(t),
    ensures
        dec_val(t) >= 0,
    decreases t.len(),
{
    if t.len() > 0 {
        assert(all_digits(t.drop_last()));
        lemma_dec_val_nonneg(t.drop_last());
    }
}

/// A longer digit string never has a smaller value than its prefix.
pub proof fn lemma_dec_val_prefix(t: Seq<char>, k: int)
    requires
        all_digits(t),
        0 <= k <= t.len(),
    ensures
        dec_val(t.subrange(0, k)) <= dec_val(t),
    decreases t.len(),
{
    if k == t.len() {
        assert(t.subrange(0, k) =~= t);
    } else {
        assert(t.drop_last() =~= t.subrange(0, t.len() - 1));
        assert(all_digits(t.drop_last()));
        assert(t.subrange(0, k) =~= t.drop_last().subrange(0, k));
        lemma_dec_val_prefix(t.drop_last(), k);
        lemma_dec_val_nonneg(t.drop_last());
    }
}

/// Skips insignificant whitespace.
pub fn skip_ws(s: &str, i: usize) -> (r: usize)
    requires
        i <= s@.len(),
    ensures
        r == sp_ws(s@, i as int),
        i <= r <= s@.len(),
{
    let n = s.unicode_len();
    let mut j = i;
    loop
        invariant
            i <= j <= n,
            n == s@.len(),
            sp_ws(s@, i as int) == sp_ws(s@, j as int),
        ensures
            j == sp_ws(s@, i as int),
            i <= j <= n,
        decreases n - j,
    {
        if j >= n {
            break;
        }
        let c = s.get_char(j);
        if !(c == ' ' || c == '\t' || c == '\n' || c == '\r') {
            break;
        }
        j += 1;
    }
    j
}

/// The character that a backslash escape stands for, if the escape is one
/// the codec supports.
pub open spec fn sp_unescape(c: char) -> Option<char> {
    if c == '"' {
        Some('"')
    } else if c == '\\' {
        Some('\\')
    } else if c == '/' {
        Some('/')
    } else if c == 'n' {
        Some('\n')
    } else if c == 'r' {
        Some('\r')
    } else if c == 't' {
        Some('\t')
    } else if c == 'b' {
        Some('\u{8}')
    } else if c == 'f' {
        Some('\u{c}')
    } else {
        None
    }
}

fn unescape(c: char) -> (r: Option<char>)
    ensures
        r == sp_unescape(c),
{
    if c == '"' {
        Some('"')
    } else if c == '\\' {
        Some('\\')
    } else if c == '/' {
        Some('/')
    } else if c == 'n' {
        Some('\n')
    } else if c == 'r' {
        Some('\r')
    } else if c == 't' {
        Some('\t')
    } else if c == 'b' {
        Some('\u{8}')
    } else if c == 'f' {
        Some('\u{c}')
    } else {
        None
    }
}

/// A hexadecimal digit.
pub open spec fn is_hex_char(c: char) -> bool {
    48 <= c as u32 <= 57 || 97 <= c as u32 <= 102 || 65 <= c as u32 <= 70
}

/// The numeric value of a hexadecimal digit character.
pub open spec fn hex_val(c: char) -> int {
    if 48 <= c as u32 <= 57 {
        c as u32 - 48
    } else if 97 <= c as u32 <= 102 {
        c as u32 - 87
    } else {
        c as u32 - 55
    }
}

/// The code point of the four hexadecimal digits at `i`.
pub open spec fn sp_hex4(t: Seq<char>, i: int) -> int {
    hex_val(t[i]) * 4096 + hex_val(t[i + 1]) * 256 + hex_val(t[i + 2]) * 16 + hex_val(t[i + 3])
}

/// Scans a string body starting just after the opening quote at `i - 1`:
/// the unescaped content and the index just past the closing quote.
/// A `\u` escape names a basic-plane character directly, or a higher one
/// through a surrogate pair; a lone or misordered surrogate, an
/// unsupported escape, and a raw control character fail the scan, which
/// drops the frame.
pub open spec fn sp_str_body(t: Seq<char>, i: int) -> Option<(Seq<char>, int)>
    decreases t.len() - i,
{
    if !(0 <= i < t.len()) {
        None
    } else if t[i] == '"' {
        Some((Seq::empty(), i + 1))
    } else if t[i] == '\\' {
        if i + 1 >= t.len() {
            None
        } else if t[i + 1] == 'u' {
            if !(i + 6 <= t.len() && is_hex_char(t[i + 2]) && is_hex_char(t[i + 3])
                && is_hex_char(t[i + 4]) && is_hex_char(t[i + 5])) {
                None
            } else {
                let h = sp_hex4(t, i + 2);
                if h < 0xD800 || h >= 0xE000 {
                    match sp_str_body(t, i + 6) {
                        None => None,
                        Some((rest, j)) => Some((seq![(h as u32) as char] + rest, j)),
                    }
                } else if h < 0xDC00 {
                    if i + 12 <= t.len() && t[i + 6] == '\\' && t[i + 7] == 'u' && is_hex_char(
                        t[i + 8],
                    ) && is_hex_char(t[i + 9]) && is_hex_char(t[i + 10]) && is_hex_char(
                        t[i + 11],
                    ) && 0xDC00 <= sp_hex4(t, i + 8) < 0xE000 {
                        let w = 0x10000 + (h - 0xD800) * 1024 + (sp_hex4(t, i + 8) - 0xDC00);
                        match sp_str_body(t, i + 12) {
                            None => None,
                            Some((rest, j)) => Some((seq![(w as u32) as char] + rest, j)),
                        }
                    } else {
                        None
                    }
                } else {
                    None
                }
            }
        } else {
            match sp_unescape(t[i + 1]) {
                None => None,
                Some(c) => match sp_str_body(t, i + 2) {
                    None => None,
                    Some((rest, j)) => Some((seq![c] + rest, j)),
                },
            }
        }
    } else if (t[i] as u32) < 32 {
        None
    } else {
        match sp_str_body(t, i + 1) {
            None => None,
            Some((rest, j)) => Some((seq![t[i]] + rest, j)),
        }
    }
}

/// Relies on `char::from_u32`: the character with the given code point,
/// for exactly the Unicode scalar values (everything below the surrogate
/// range, and everything between it and the highest code point).
#[verifier::external_body]
fn char_from_u32(u: u32) -> (r: Option<char>)
    ensures
        r is Some <==> (u < 0xD800 || (0xE000 <= u && u < 0x110000)),
        r is Some ==> r->0 as u32 == u,
{
    char::from_u32(u)
}

/// The value of a hexadecimal digit character.
fn hex_digit(c: char) -> (r: Option<u32>)
    ensures
        match r {
            Some(v) => is_hex_char(c) && v == hex_val(c),
            None => !is_hex_char(c),
        },
{
    let u = c as u32;
    if 48 <= u && u <= 57 {
        Some(u - 48)
    } else if 97 <= u && u <= 102 {
        Some(u - 87)
    } else if 65 <= u && u <= 70 {
        Some(u - 55)
    } else {
        None
    }
}

/// Scans a string body starting at `i`, just after an opening quote.
/// Returns the unescaped content and the index just past the closing quote.
#[verifier::rlimit(60)]
pub fn scan_string(s: &str, i: usize) -> (r: Option<(String, usize)>)
    requires
        i <= s@.len(),
    ensures
        match r {
            Some((content, j)) => sp_str_body(s@, i as int) == Some((content@, j as int)) && i
                < j <= s@.len(),
            None => sp_str_body(s@, i as int) is None,
        },
{
    let n = s.unicode_len();
    let mut acc: Vec<char> = Vec::new();
    let mut j = i;
    loop
        invariant
            i <= j <= n,
            n == s@.len(),
            match sp_str_body(s@, j as int) {
                Some((rest, e)) => sp_str_body(s@, i as int) == Some((acc@ + rest, e)),
                None => sp_str_body(s@, i as int) is None,
            },
        ensures
            match sp_str_body(s@, j as int) {
                Some((rest, e)) => sp_str_body(s@, i as int) == Some((acc@ + rest, e)) && (j
                    < n && s@[j as int] == '"' && rest == Seq::<char>::empty() && e == j + 1),
                None => sp_str_body(s@, i as int) is None,
            },
            i <= j <= n,
        decreases n - j,
    {
        if j >= n {
            assert(sp_str_body(s@, j as int) is None);
            break;
        }
        let c = s.get_char(j);
        if c == '"' {
            break;
        } else if c == '\\' {
            if j + 1 >= n {
                assert(sp_str_body(s@, j as int) is None);
                break;
            }
            let e = s.get_char(j + 1);
            if e == 'u' {
                if n - j < 6 {
                    assert(sp_str_body(s@, j as int) is None);
                    break;
                }
                let h2 = hex_digit(s.get_char(j + 2));
                let h3 = hex_digit(s.get_char(j + 3));
                let h4 = hex_digit(s.get_char(j + 4));
                let h5 = hex_digit(s.get_char(j + 5));
                match (h2, h3, h4, h5) {
                    (Some(a), Some(b), Some(cc), Some(d)) => {
                        let h: u32 = a * 4096 + b * 256 + cc * 16 + d;
                        if h < 0xD800 || h >= 0xE000 {
                            let u = match char_from_u32(h) {
                                Some(u) => u,
                                None => {
                                    proof {
                                        assert(false);
                                    }
                                    break;
                                },
                            };
                            acc.push(u);
                            proof {
                                vstd::utf8::char_u32_cast(u, h);
                                assert(u == (sp_hex4(s@, j + 2) as u32) as char);
                                if let Some((rest2, e2)) = sp_str_body(s@, j + 6) {
                                    assert(acc@ + rest2 =~= acc@.drop_last() + (seq![u]
                                        + rest2));
                                }
                            }
                            j += 6;
                            continue;
                        }
                        if h >= 0xDC00 {
                            assert(sp_str_body(s@, j as int) is None);
                            break;
                        }
                        if n - j < 12 {
                            assert(sp_str_body(s@, j as int) is None);
                            break;
                        }
                        if s.get_char(j + 6) != '\\' || s.get_char(j + 7) != 'u' {
                            assert(sp_str_body(s@, j as int) is None);
                            break;
                        }
                        let l2 = hex_digit(s.get_char(j + 8));
                        let l3 = hex_digit(s.get_char(j + 9));
                        let l4 = hex_digit(s.get_char(j + 10));
                        let l5 = hex_digit(s.get_char(j + 11));
                        match (l2, l3, l4, l5) {
                            (Some(la), Some(lb), Some(lc), Some(ld)) => {
                                let y: u32 = la * 4096 + lb * 256 + lc * 16 + ld;
                                if !(0xDC00 <= y && y < 0xE000) {
                                    assert(sp_str_body(s@, j as int) is None);
                                    break;
                                }
                                let w: u32 = 0x10000 + (h - 0xD800) * 1024 + (y - 0xDC00);
                                let u = match char_from_u32(w) {
                                    Some(u) => u,
                                    None => {
                                        proof {
                                            assert(false);
                                        }
                                        break;
                                    },
                                };
                                acc.push(u);
                                proof {
                                    vstd::utf8::char_u32_cast(u, w);
                                    assert(y == sp_hex4(s@, j + 8));
                                    assert(u == ((0x10000 + (sp_hex4(s@, j + 2) - 0xD800)
                                        * 1024 + (sp_hex4(s@, j + 8) - 0xDC00)) as u32) as char);
                                    if let Some((rest2, e2)) = sp_str_body(s@, j + 12) {
                                        assert(acc@ + rest2 =~= acc@.drop_last() + (seq![u]
                                            + rest2));
                                    }
                                }
                                j += 12;
                                continue;
                            },
                            _ => {
                                assert(sp_str_body(s@, j as int) is None);
                                break;
                            },
                        }
                    },
                    _ => {
                        assert(sp_str_body(s@, j as int) is None);
                        break;
                    },
                }
            }
            match unescape(e) {
                None => {
                    assert(sp_str_body(s@, j as int) is None);
                    break;
                },
                Some(u) => {
                    acc.push(u);
                    proof {
                        if let Some((rest2, e2)) = sp_str_body(s@, j + 2) {
                            assert(acc@ + rest2 =~= acc@.drop_last() + (seq![u] + rest2));
                        }
                    }
                    j += 2;
                },
            }
        } else if (c as u32) < 32 {
            assert(sp_str_body(s@, j as int) is None);
            break;
        } else {
            acc.push(c);
            proof {
                if let Some((rest2, e2)) = sp_str_body(s@, j + 1) {
                    assert(acc@ + rest2 =~= acc@.drop_last() + (seq![c] + rest2));
                }
            }
            j += 1;
        }
    }
    if j < n {
        let c = s.get_char(j);
        if c == '"' {
            proof {
                assert(acc@ + Seq::<char>::empty() =~= acc@);
            }
            let content = crate::text::chars_to_string(&acc);
            return Some((content, j + 1));
        }
    }
    None
}

/// Ten to the power `k`, for small spec arithmetic.
pub open spec fn pow10(k: int) -> int
    decreases k,
{
    if k <= 0 {
        1
    } else {
        10 * pow10(k - 1)
    }
}

/// The spec-level value of a scanned JSON number: sign, whole part, the
/// fractional part truncated to myriadths (four decimal digits), and the
/// power of ten of an exponent part.
pub struct NumModel {
    /// Whether the number was written with a leading minus sign.
    pub neg: bool,
    /// The value of the digits before the decimal point.
    pub whole: int,
    /// The first four fractional digits, read as a count of myriadths.
    pub frac4: int,
    /// Whether the number was written as a plain integer: no decimal
    /// point and no exponent.
    pub is_int: bool,
    /// The power of ten named by an exponent part; zero without one.
    pub exp10: int,
}

/// The first four fractional digits as myriadths; shorter fractions scale up.
pub open spec fn frac4_of(fr: Seq<char>) -> int {
    if fr.len() >= 4 {
        dec_val(fr.subrange(0, 4))
    } else {
        dec_val(fr) * pow10(4 - fr.len())
    }
}

/// A scanned JSON number, fraction truncated to myriadths.
///
/// The protocol's envelopes carry only integers and small load fractions,
/// so the codec keeps no digits beyond that. Exponent notation is read and
/// kept as a power of ten; a number written with an exponent or a decimal
/// point never counts as an integer, matching how the protocol's integer
/// fields are read.
#[derive(Clone, Copy, Debug, PartialEq, Eq, Structural)]
pub struct JsonNum {
    /// Whether the number was written with a leading minus sign.
    pub neg: bool,
    /// The value of the digits before the decimal point.
    pub whole: u64,
    /// The first four fractional digits, read as a count of myriadths.
    pub frac4: u16,
    /// Whether the number was written as a plain integer: no decimal
    /// point and no exponent.
    pub is_int: bool,
    /// The power of ten named by an exponent part; zero without one.
    pub exp10: i32,
}

impl View for JsonNum {
    type V = NumModel;

    open spec fn view(&self) -> NumModel {
        NumModel {
            neg: self.neg,
            whole: self.whole as int,
            frac4: self.frac4 as int,
            is_int: self.is_int,
            exp10: self.exp10 as int,
        }
    }
}

/// The signed integer a scanned number stands for, if it was written as an
/// integer and fits in `i64`.
pub open spec fn sp_num_i64(m: NumModel) -> Option<int> {
    if !m.is_int {
        None
    } else if m.neg {
        if m.whole <= 0x8000_0000_0000_0000 {
            Some(-m.whole)
        } else {
            None
        }
    } else {
        if m.whole <= i64::MAX {
            Some(m.whole)
        } else {
            None
        }
    }
}

impl JsonNum {
    /// The number as a signed 64-bit integer, if it was written as one.
    pub fn to_i64(&self) -> (r: Option<i64>)
        ensures
            match sp_num_i64(self@) {
                Some(v) => r == Some(v as i64) && r->0 == v,
                None => r is None,
            },
    {
        if !self.is_int {
            None
        } else if self.neg {
            if self.whole <= 0x8000_0000_0000_0000 {
                Some((-(self.whole as i128)) as i64)
            } else {
                None
            }
        } else {
            if self.whole <= 0x7fff_ffff_ffff_ffff {
                Some(self.whole as i64)
            } else {
                None
            }
        }
    }
}

/// Reads the value of the digit range `[from, to)`, or `None` when the value
/// does not fit in `u64`.
fn dec_value_range(s: &str, from: usize, to: usize) -> (r: Option<u64>)
    requires
        from <= to <= s@.len(),
        all_digits(s@.subrange(from as int, to as int)),
    ensures
        ({
            let v = dec_val(s@.subrange(from as int, to as int));
            match r {
                Some(x) => x == v,
                None => v > u64::MAX,
            }
        }),
{
    let ghost digits = s@.subrange(from as int, to as int);
    let mut acc: u64 = 0;
    let mut i = from;
    while i < to
        invariant
            from <= i <= to <= s@.len(),
            digits == s@.subrange(from as int, to as int),
            all_digits(digits),
            acc == dec_val(digits.subrange(0, i - from)),
        decreases to - i,
    {
        let c = s.get_char(i);
        proof {
            assert(digits[i - from] == c);
        }
        let d: u64 = (c as u32 as u64) - 48;
        let wide: u128 = acc as u128 * 10 + d as u128;
        proof {
            assert(digits.subrange(0, i + 1 - from).drop_last() =~= digits.subrange(
                0,
                i - from,
            ));
            assert(digits.subrange(0, i + 1 - from).last() == c);
        }
        if wide > 0xffff_ffff_ffff_ffff {
            proof {
                lemma_dec_val_prefix(digits, i + 1 - from);
            }
            return None;
        }
        acc = wide as u64;
        i += 1;
    }
    proof {
        assert(digits.subrange(0, to - from) =~= digits);
    }
    Some(acc)
}

/// Scans a number starting at `i`: an optional minus sign, digits, an
/// optional fraction, and an optional exponent. The scan fails when there
/// is no digit, the whole part does not fit in `u64`, or the exponent's
/// magnitude is absurd (beyond four digits).
pub open spec fn sp_number(t: Seq<char>, i: int) -> Option<(NumModel, int)> {
    let neg = 0 <= i < t.len() && t[i] == '-';
    let j = if neg {
        i + 1
    } else {
        i
    };
    let e = sp_digits_end(t, j);
    if !(j < e <= t.len()) {
        None
    } else {
        let w = dec_val(t.subrange(j, e));
        if w > u64::MAX {
            None
        } else {
            let with_frac = e < t.len() && t[e] == '.';
            let fe = if with_frac {
                sp_digits_end(t, e + 1)
            } else {
                e
            };
            if with_frac && !(e + 1 < fe <= t.len()) {
                None
            } else {
                let f4 = if with_frac {
                    frac4_of(t.subrange(e + 1, fe))
                } else {
                    0
                };
                let with_exp = fe < t.len() && (t[fe] == 'e' || t[fe] == 'E');
                if !with_exp {
                    Some(
                        (
                            NumModel { neg, whole: w, frac4: f4, is_int: !with_frac, exp10: 0 },
                            fe,
                        ),
                    )
                } else {
                    let sx = if fe + 1 < t.len() && (t[fe + 1] == '+' || t[fe + 1] == '-') {
                        fe + 2
                    } else {
                        fe + 1
                    };
                    let xe = sp_digits_end(t, sx);
                    if !(sx < xe <= t.len()) {
                        None
                    } else {
                        let ev = dec_val(t.subrange(sx, xe));
                        if ev > 9999 {
                            None
                        } else {
                            let ex = if fe + 1 < t.len() && t[fe + 1] == '-' {
                                -ev
                            } else {
                                ev
                            };
                            Some(
                                (
                                    NumModel {
                                        neg,
                                        whole: w,
                                        frac4: f4,
                                        is_int: false,
                                        exp10: ex,
                                    },
                                    xe,
                                ),
                            )
                        }
                    }
                }
            }
        }
    }
}

/// Finds the end of a digit run starting at `i`.
fn digits_end(s: &str, i: usize) -> (r: usize)
    requires
        i <= s@.len(),
    ensures
        r == sp_digits_end(s@, i as int),
        i <= r <= s@.len(),
{
    let n = s.unicode_len();
    let mut j = i;
    loop
        invariant
            i <= j <= n,
            n == s@.len(),
            sp_digits_end(s@, i as int) == sp_digits_end(s@, j as int),
        ensures
            j == sp_digits_end(s@, i as int),
            i <= j <= n,
        decreases n - j,
    {
        if j >= n {
            break;
        }
        let c = s.get_char(j);
        let u = c as u32;
        if !(48 <= u && u <= 57) {
            break;
        }
        j += 1;
    }
    j
}

/// Scans a JSON number at `i`.
pub fn scan_number(s: &str, i: usize) -> (r: Option<(JsonNum, usize)>)
    requires
        i <= s@.len(),
    ensures
        match r {
            Some((num, j)) => sp_number(s@, i as int) == Some((num@, j as int)) && i < j
                <= s@.len(),
            None => sp_number(s@, i as int) is None,
        },
{
    let n = s.unicode_len();
    let mut neg = false;
    let mut j = i;
    if j < n && s.get_char(j) == '-' {
        neg = true;
        j += 1;
    }
    let e = digits_end(s, j);
    if e <= j {
        return None;
    }
    proof {
        lemma_digits_end_bounds(s@, j as int);
    }
    let w = match dec_value_range(s, j, e) {
        Some(w) => w,
        None => {
            return None;
        },
    };
    let mut with_frac = false;
    if e < n && s.get_char(e) == '.' {
        with_frac = true;
    }
    let mut frac4: u16 = 0;
    let mut fe = e;
    if with_frac {
        fe = digits_end(s, e + 1);
        if fe <= e + 1 {
            return None;
        }
        proof {
            lemma_digits_end_bounds(s@, e + 1);
        }
        let fr_len = fe - (e + 1);
        let take = if fr_len >= 4 {
            4
        } else {
            fr_len
        };
        proof {
            let fr = s@.subrange(e + 1, fe as int);
            assert(fr.subrange(0, take as int) =~= s@.subrange(e + 1, e + 1 + take));
            assert(all_digits(fr.subrange(0, take as int)));
            if fr_len >= 4 {
                assert(frac4_of(fr) == dec_val(fr.subrange(0, 4)));
            }
        }
        proof {
            let part = s@.subrange(e + 1, e + 1 + take);
            lemma_dec_val_small(part);
            reveal_with_fuel(pow10, 5);
            assert(pow10(0) == 1 && pow10(1) == 10 && pow10(2) == 100 && pow10(3) == 1000
                && pow10(4) == 10000);
        }
        let fv = match dec_value_range(s, e + 1, e + 1 + take) {
            Some(v) => v,
            None => {
                return None;
            },
        };
        let scale: u64 = if take == 1 {
            1000
        } else if take == 2 {
            100
        } else if take == 3 {
            10
        } else {
            1
        };
        frac4 = (fv * scale) as u16;
        proof {
            let fr = s@.subrange(e + 1, fe as int);
            if fr_len < 4 {
                assert(fr.subrange(0, take as int) =~= fr);
                assert(frac4_of(fr) == dec_val(fr) * pow10(4 - fr.len()));
            }
        }
    }
    let mut with_exp = false;
    if fe < n {
        let c = s.get_char(fe);
        if c == 'e' || c == 'E' {
            with_exp = true;
        }
    }
    if !with_exp {
        return Some((JsonNum { neg, whole: w, frac4, is_int: !with_frac, exp10: 0 }, fe));
    }
    let mut exp_neg = false;
    let mut sx = fe + 1;
    if sx < n {
        let c = s.get_char(sx);
        if c == '+' {
            sx += 1;
        } else if c == '-' {
            exp_neg = true;
            sx += 1;
        }
    }
    let xe = digits_end(s, sx);
    if xe <= sx {
        return None;
    }
    proof {
        lemma_digits_end_bounds(s@, sx as int);
    }
    let ev = match dec_value_range(s, sx, xe) {
        Some(v) => v,
        None => {
            return None;
        },
    };
    if ev > 9999 {
        return None;
    }
    let exp10: i32 = if exp_neg {
        -(ev as i32)
    } else {
        ev as i32
    };
    Some((JsonNum { neg, whole: w, frac4, is_int: false, exp10 }, xe))
}

/// Scans past one JSON value starting at `i`: the index just after it.
///
/// The index guards on every derived position keep the mutual recursion
/// visibly well-founded; a scan that would violate them fails instead.
pub open spec fn sp_skip_value(t: Seq<char>, i: int) -> Option<int>
    decreases t.len() - i, 0int,
{
    if !(0 <= i < t.len()) {
        None
    } else {
        let c = t[i];
        if c == '"' {
            match sp_str_body(t, i + 1) {
                None => None,
                Some((_, j)) => Some(j),
            }
        } else if c == '{' {
            sp_skip_object(t, i + 1)
        } else if c == '[' {
            sp_skip_array(t, i + 1)
        } else if c == 't' {
            if i + 4 <= t.len() && t[i + 1] == 'r' && t[i + 2] == 'u' && t[i + 3] == 'e' {
                Some(i + 4)
            } else {
                None
            }
        } else if c == 'f' {
            if i + 5 <= t.len() && t[i + 1] == 'a' && t[i + 2] == 'l' && t[i + 3] == 's' && t[i
                + 4] == 'e' {
                Some(i + 5)
            } else {
                None
            }
        } else if c == 'n' {
            if i + 4 <= t.len() && t[i + 1] == 'u' && t[i + 2] == 'l' && t[i + 3] == 'l' {
                Some(i + 4)
            } else {
                None
            }
        } else if c == '-' || is_digit_char(c) {
            match sp_number(t, i) {
                None => None,
                Some((_, j)) => Some(j),
            }
        } else {
            None
        }
    }
}

/// Scans past an object body starting just after its `{`.
pub open spec fn sp_skip_object(t: Seq<char>, i: int) -> Option<int>
    decreases t.len() - i, 2int,
{
    if !(0 <= i <= t.len()) {
        None
    } else {
        let a = sp_ws(t, i);
        if !(i <= a < t.len()) {
            None
        } else if t[a] == '}' {
            Some(a + 1)
        } else {
            sp_skip_members(t, a)
        }
    }
}

/// Scans past the members of an object, starting at the quote of a key.
pub open spec fn sp_skip_members(t: Seq<char>, i: int) -> Option<int>
    decreases t.len() - i, 1int,
{
    if !(0 <= i < t.len() && t[i] == '"') {
        None
    } else {
        match sp_str_body(t, i + 1) {
            None => None,
            Some((_, j)) => {
                if !(i + 1 < j <= t.len()) {
                    None
                } else {
                    let b = sp_ws(t, j);
                    if !(j <= b < t.len()) || t[b] != ':' {
                        None
                    } else {
                        let c = sp_ws(t, b + 1);
                        if !(b + 1 <= c <= t.len()) {
                            None
                        } else {
                            match sp_skip_value(t, c) {
                                None => None,
                                Some(d) => {
                                    if !(c < d <= t.len()) {
                                        None
                                    } else {
                                        let e = sp_ws(t, d);
                                        if !(d <= e < t.len()) {
                                            None
                                        } else if t[e] == '}' {
                                            Some(e + 1)
                                        } else if t[e] == ',' {
                                            let f = sp_ws(t, e + 1);
                                            if !(e + 1 <= f <= t.len()) {
                                                None
                                            } else {
                                                sp_skip_members(t, f)
                                            }
                                        } else {
                                            None
                                        }
                                    }
                                },
                            }
                        }
                    }
                }
            },
        }
    }
}

/// Scans past an array body starting just after its `[`.
pub open spec fn sp_skip_array(t: Seq<char>, i: int) -> Option<int>
    decreases t.len() - i, 2int,
{
    if !(0 <= i <= t.len()) {
        None
    } else {
        let a = sp_ws(t, i);
        if !(i <= a < t.len()) {
            None
        } else if t[a] == ']' {
            Some(a + 1)
        } else {
            sp_skip_elems(t, a)
        }
    }
}

/// Scans past the elements of an array, starting at the first character of
/// an element.
pub open spec fn sp_skip_elems(t: Seq<char>, i: int) -> Option<int>
    decreases t.len() - i, 1int,
{
    if !(0 <= i < t.len()) {
        None
    } else {
        match sp_skip_value(t, i) {
            None => None,
            Some(d) => {
                if !(i < d <= t.len()) {
                    None
                } else {
                    let e = sp_ws(t, d);
                    if !(d <= e < t.len()) {
                        None
                    } else if t[e] == ']' {
                        Some(e + 1)
                    } else if t[e] == ',' {
                        let f = sp_ws(t, e + 1);
                        if !(e + 1 <= f <= t.len()) {
                            None
                        } else {
                            sp_skip_elems(t, f)
                        }
                    } else {
                        None
                    }
                }
            },
        }
    }
}

/// Skips one JSON value at `i`.
pub fn skip_value(s: &str, i: usize) -> (r: Option<usize>)
    requires
        i <= s@.len(),
    ensures
        match r {
            Some(j) => sp_skip_value(s@, i as int) == Some(j as int) && i < j <= s@.len(),
            None => sp_skip_value(s@, i as int) is None,
        },
    decreases s@.len() - i, 0int,
{
    let n = s.unicode_len();
    if i >= n {
        return None;
    }
    let c = s.get_char(i);
    if c == '"' {
        match scan_string(s, i + 1) {
            None => None,
            Some((_, j)) => Some(j),
        }
    } else if c == '{' {
        skip_object(s, i + 1)
    } else if c == '[' {
        skip_array(s, i + 1)
    } else if c == 't' {
        if n - i >= 4 && s.get_char(i + 1) == 'r' && s.get_char(i + 2) == 'u' && s.get_char(
            i + 3,
        ) == 'e' {
            Some(i + 4)
        } else {
            None
        }
    } else if c == 'f' {
        if n - i >= 5 && s.get_char(i + 1) == 'a' && s.get_char(i + 2) == 'l' && s.get_char(
            i + 3,
        ) == 's' && s.get_char(i + 4) == 'e' {
            Some(i + 5)
        } else {
            None
        }
    } else if c == 'n' {
        if n - i >= 4 && s.get_char(i + 1) == 'u' && s.get_char(i + 2) == 'l' && s.get_char(
            i + 3,
        ) == 'l' {
            Some(i + 4)
        } else {
            None
        }
    } else {
        let u = c as u32;
        if c == '-' || (48 <= u && u <= 57) {
            match scan_number(s, i) {
                None => None,
                Some((_, j)) => Some(j),
            }
        } else {
            None
        }
    }
}

/// Skips an object body, starting just after its `{`.
fn skip_object(s: &str, i: usize) -> (r: Option<usize>)
    requires
        i <= s@.len(),
    ensures
        match r {
            Some(j) => sp_skip_object(s@, i as int) == Some(j as int) && i < j <= s@.len(),
            None => sp_skip_object(s@, i as int) is None,
        },
    decreases s@.len() - i, 2int,
{
    let n = s.unicode_len();
    let a = skip_ws(s, i);
    if a >= n {
        return None;
    }
    if s.get_char(a) == '}' {
        return Some(a + 1);
    }
    skip_members(s, a)
}

/// Skips object members, starting at the quote of a key.
fn skip_members(s: &str, i: usize) -> (r: Option<usize>)
    requires
        i <= s@.len(),
    ensures
        match r {
            Some(j) => sp_skip_members(s@, i as int) == Some(j as int) && i < j <= s@.len(),
            None => sp_skip_members(s@, i as int) is None,
        },
    decreases s@.len() - i, 1int,
{
    let n = s.unicode_len();
    if i >= n || s.get_char(i) != '"' {
        return None;
    }
    let j = match scan_string(s, i + 1) {
        None => {
            return None;
        },
        Some((_, j)) => j,
    };
    let b = skip_ws(s, j);
    if b >= n || s.get_char(b) != ':' {
        return None;
    }
    let c = skip_ws(s, b + 1);
    let d = match skip_value(s, c) {
        None => {
            return None;
        },
        Some(d) => d,
    };
    let e = skip_ws(s, d);
    if e >= n {
        return None;
    }
    if s.get_char(e) == '}' {
        return Some(e + 1);
    }
    if s.get_char(e) == ',' {
        let f = skip_ws(s, e + 1);
        return skip_members(s, f);
    }
    None
}

/// Skips an array body, starting just after its `[`.
fn skip_array(s: &str, i: usize) -> (r: Option<usize>)
    requires
        i <= s@.len(),
    ensures
        match r {
            Some(j) => sp_skip_array(s@, i as int) == Some(j as int) && i < j <= s@.len(),
            None => sp_skip_array(s@, i as int) is None,
        },
    decreases s@.len() - i, 2int,
{
    let n = s.unicode_len();
    let a = skip_ws(s, i);
    if a >= n {
        return None;
    }
    if s.get_char(a) == ']' {
        return Some(a + 1);
    }
    skip_elems(s, a)
}

/// Skips array elements, starting at the first character of an element.
fn skip_elems(s: &str, i: usize) -> (r: Option<usize>)
    requires
        i <= s@.len(),
    ensures
        match r {
            Some(j) => sp_skip_elems(s@, i as int) == Some(j as int) && i < j <= s@.len(),
            None => sp_skip_elems(s@, i as int) is None,
        },
    decreases s@.len() - i, 1int,
{
    let n = s.unicode_len();
    if i >= n {
        return None;
    }
    let d = match skip_value(s, i) {
        None => {
            return None;
        },
        Some(d) => d,
    };
    let e = skip_ws(s, d);
    if e >= n {
        return None;
    }
    if s.get_char(e) == ']' {
        return Some(e + 1);
    }
    if s.get_char(e) == ',' {
        let f = skip_ws(s, e + 1);
        return skip_elems(s, f);
    }
    None
}


/// Scans the literal `null` at `i`.
pub open spec fn sp_null(t: Seq<char>, i: int) -> Option<int> {
    if 0 <= i && i + 4 <= t.len() && t[i] == 'n' && t[i + 1] == 'u' && t[i + 2] == 'l' && t[i
        + 3] == 'l' {
        Some(i + 4)
    } else {
        None
    }
}

/// Scans the literal `true` or `false` at `i`.
pub open spec fn sp_bool(t: Seq<char>, i: int) -> Option<(bool, int)> {
    if 0 <= i && i + 4 <= t.len() && t[i] == 't' && t[i + 1] == 'r' && t[i + 2] == 'u' && t[i
        + 3] == 'e' {
        Some((true, i + 4))
    } else if 0 <= i && i + 5 <= t.len() && t[i] == 'f' && t[i + 1] == 'a' && t[i + 2] == 'l'
        && t[i + 3] == 's' && t[i + 4] == 'e' {
        Some((false, i + 5))
    } else {
        None
    }
}

/// Scans the literal `null` at `i`.
pub fn scan_null(s: &str, i: usize) -> (r: Option<usize>)
    requires
        i <= s@.len(),
    ensures
        match r {
            Some(j) => sp_null(s@, i as int) == Some(j as int) && i < j <= s@.len(),
            None => sp_null(s@, i as int) is None,
        },
{
    let n = s.unicode_len();
    if n - i >= 4 && s.get_char(i) == 'n' && s.get_char(i + 1) == 'u' && s.get_char(i + 2)
        == 'l' && s.get_char(i + 3) == 'l' {
        Some(i + 4)
    } else {
        None
    }
}

/// Scans the literal `true` or `false` at `i`.
pub fn scan_bool(s: &str, i: usize) -> (r: Option<(bool, usize)>)
    requires
        i <= s@.len(),
    ensures
        match r {
            Some((b, j)) => sp_bool(s@, i as int) == Some((b, j as int)) && i < j <= s@.len(),
            None => sp_bool(s@, i as int) is None,
        },
{
    let n = s.unicode_len();
    if n - i >= 4 && s.get_char(i) == 't' && s.get_char(i + 1) == 'r' && s.get_char(i + 2)
        == 'u' && s.get_char(i + 3) == 'e' {
        Some((true, i + 4))
    } else if n - i >= 5 && s.get_char(i) == 'f' && s.get_char(i + 1) == 'a' && s.get_char(
        i + 2,
    ) == 'l' && s.get_char(i + 3) == 's' && s.get_char(i + 4) == 'e' {
        Some((false, i + 5))
    } else {
        None
    }
}

/// Parses a whole piece of text as an unsigned decimal integer.
pub open spec fn sp_parse_u64(t: Seq<char>) -> Option<int> {
    if t.len() > 0 && all_digits(t) && dec_val(t) <= u64::MAX {
        Some(dec_val(t))
    } else {
        None
    }
}

/// Parses text that must consist entirely of decimal digits, as a `u64`.
pub fn parse_u64(s: &str) -> (r: Option<u64>)
    ensures
        match sp_parse_u64(s@) {
            Some(v) => r == Some(v as u64) && r->0 == v,
            None => r is None,
        },
{
    let n = s.unicode_len();
    if n == 0 {
        return None;
    }
    let e = digits_end(s, 0);
    if e < n {
        proof {
            lemma_digits_end_bounds(s@, 0);
            assert(!is_digit_char(s@[e as int]));
        }
        return None;
    }
    proof {
        lemma_digits_end_bounds(s@, 0);
        assert(s@.subrange(0, n as int) =~= s@);
    }
    dec_value_range(s, 0, n)
}

/// A digit run's value is bounded by ten to the number of its digits.
proof fn lemma_dec_val_small(t: Seq<char>)
    requires
        all_digits(t),
    ensures
        0 <= dec_val(t) < pow10(t.len() as int),
    decreases t.len(),
{
    if t.len() > 0 {
        assert(all_digits(t.drop_last()));
        lemma_dec_val_small(t.drop_last());
    }
}

} // verus!
