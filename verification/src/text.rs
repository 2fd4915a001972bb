//! Character-level helpers shared by the message codec: appending text,
//! comparing text, and rendering unsigned and signed decimal numbers.

use vstd::prelude::*;
use vstd::string::StrSliceExecFns;

verus! {

/// The decimal digit character for a value in `0 ..= 9`.
pub open spec fn digit_char(d: int) -> char {
    if d == 0 {
        '0'
    } else if d == 1 {
        '1'
    } else if d == 2 {
        '2'
    } else if d == 3 {
        '3'
    } else if d == 4 {
        '4'
    } else if d == 5 {
        '5'
    } else if d == 6 {
        '6'
    } else if d == 7 {
        '7'
    } else if d == 8 {
        '8'
    } else {
        '9'
    }
}

/// The decimal rendering of a non-negative integer, most significant digit
/// first, with no sign and no leading zeros (zero itself is `"0"`).
pub open spec fn dec_of(n: int) -> Seq<char>
    decreases n,
{
    if n < 10 {
        seq![digit_char(n)]
    } else {
        dec_of(n / 10) + seq![digit_char(n % 10)]
    }
}

/// The decimal rendering of a signed integer: a leading `'-'` for negative
/// values, then the digits of the magnitude.
pub open spec fn dec_of_signed(n: int) -> Seq<char> {
    if n < 0 {
        seq!['-'] + dec_of(-n)
    } else {
        dec_of(n)
    }
}

/// Appends every character of `s` to `v`.
pub fn push_str(v: &mut Vec<char>, s: &str)
    ensures
        final(v)@ == old(v)@ + s@,
{
    let n = s.unicode_len();
    let mut i: usize = 0;
    while i < n
        invariant
            i <= n,
            n == s@.len(),
            v@ == old(v)@ + s@.subrange(0, i as int),
        decreases n - i,
    {
        let c = s.get_char(i);
        v.push(c);
        proof {
            assert(s@.subrange(0, i + 1) =~= s@.subrange(0, i as int).push(s@[i as int]));
        }
        i += 1;
    }
    proof {
        assert(s@.subrange(0, n as int) =~= s@);
    }
}

/// Whether two pieces of text hold the same characters.
pub fn str_eq(a: &str, b: &str) -> (r: bool)
    ensures
        r == (a@ == b@),
{
    let n = a.unicode_len();
    if n != b.unicode_len() {
        proof {
            assert(a@ != b@) by {
                assert(a@.len() != b@.len());
            }
        }
        return false;
    }
    let mut i: usize = 0;
    while i < n
        invariant
            i <= n,
            n == a@.len(),
            n == b@.len(),
            forall|k: int| 0 <= k < i ==> a@[k] == b@[k],
        decreases n - i,
    {
        if a.get_char(i) != b.get_char(i) {
            return false;
        }
        i += 1;
    }
    proof {
        assert(a@ =~= b@);
    }
    true
}

/// Pushes the single decimal digit character for `d`.
fn push_digit(v: &mut Vec<char>, d: u64)
    requires
        d < 10,
    ensures
        final(v)@ == old(v)@ + seq![digit_char(d as int)],
{
    let c: char = if d == 0 {
        '0'
    } else if d == 1 {
        '1'
    } else if d == 2 {
        '2'
    } else if d == 3 {
        '3'
    } else if d == 4 {
        '4'
    } else if d == 5 {
        '5'
    } else if d == 6 {
        '6'
    } else if d == 7 {
        '7'
    } else if d == 8 {
        '8'
    } else {
        '9'
    };
    v.push(c);
}

/// Appends the decimal rendering of `n` to `v`.
pub fn push_u64_dec(v: &mut Vec<char>, n: u64)
    ensures
        final(v)@ == old(v)@ + dec_of(n as int),
    decreases n,
{
    if n < 10 {
        push_digit(v, n);
    } else {
        push_u64_dec(v, n / 10);
        push_digit(v, n % 10);
    }
}

/// Relies on `String`'s `FromIterator<char>` impl: collecting characters
/// yields the string of exactly those characters in order.
#[verifier::external_body]
pub fn chars_to_string(v: &Vec<char>) -> (r: String)
    ensures
        r@ == v@,
{
    v.iter().collect()
}

/// Appends the decimal rendering of the signed value `n` to `v`.
pub fn push_i64_dec(v: &mut Vec<char>, n: i64)
    ensures
        final(v)@ == old(v)@ + dec_of_signed(n as int),
{
    if n < 0 {
        v.push('-');
        let m: u64 = (-(n as i128)) as u64;
        push_u64_dec(v, m);
        proof {
            assert(old(v)@.push('-') + dec_of(m as int) =~= old(v)@ + dec_of_signed(
                n as int,
            ));
        }
    } else {
        push_u64_dec(v, n as u64);
    }
}

} // verus!
