//! The health snapshot a node reports about itself, and the penalty score
//! computed from it for load balancing.

use vstd::prelude::*;

use crate::json::NumModel;

verus! {

/// Frame accounting a node reports when it has any.
#[derive(Clone, Copy, Debug, PartialEq, Eq)]
pub struct FrameStats {
    /// Frames the node fell short of sending in the last window.
    pub deficit: i32,
    /// Frames the node replaced with silence in the last window.
    pub nulled: i32,
}

/// One stats frame from a node.
///
/// The processor load arrives on the wire as a fraction; the codec keeps it
/// as a count of myriadths (ten-thousandths), capped at one million, so the
/// penalty arithmetic stays in integers.
#[derive(Clone, Copy, Debug, PartialEq, Eq)]
pub struct NodeStats {
    /// Processor load in myriadths of a fully loaded core.
    pub system_load_myriadths: u64,
    /// Frame accounting, absent until the node reports any.
    pub frame_stats: Option<FrameStats>,
    /// How many players the node is currently playing for.
    pub playing_players: i32,
}

/// The processor load a scanned number stands for, in myriadths, capped
/// at one million; a negative reading counts as zero, and an exponent
/// part shifts the value by its power of ten.
pub open spec fn sp_load_myriadths(m: NumModel) -> int {
    if m.neg {
        0
    } else {
        let raw = m.whole * 10000 + m.frac4;
        let v = if m.exp10 >= 0 {
            raw * crate::json::pow10(m.exp10)
        } else {
            raw / crate::json::pow10(-m.exp10)
        };
        if v > 1000000 {
            1000000
        } else {
            v
        }
    }
}

/// An unsigned integer a scanned number stands for.
pub open spec fn sp_num_u64(m: NumModel) -> Option<int> {
    if m.is_int && !m.neg && m.whole <= u64::MAX {
        Some(m.whole)
    } else {
        None
    }
}

/// A signed 32-bit integer a scanned number stands for.
pub open spec fn sp_num_i32(m: NumModel) -> Option<int> {
    if !m.is_int {
        None
    } else if m.neg {
        if m.whole <= 0x8000_0000 {
            Some(-m.whole)
        } else {
            None
        }
    } else {
        if m.whole <= i32::MAX {
            Some(m.whole)
        } else {
            None
        }
    }
}

/// Ten to the power `e`, computed in a wide integer.
fn pow10_u128(e: u32) -> (r: u128)
    requires
        e <= 24,
    ensures
        r == crate::json::pow10(e as int),
        r >= 1,
{
    let mut r: u128 = 1;
    let mut k: u32 = 0;
    while k < e
        invariant
            k <= e <= 24,
            r == crate::json::pow10(k as int),
            1 <= r <= 1000000000000000000000000,
        decreases e - k,
    {
        proof {
            lemma_pow10_bound(k as int + 1);
        }
        r = r * 10;
        k += 1;
    }
    r
}

/// Ten to any non-negative power is at least one.
proof fn lemma_pow10_pos(e: int)
    requires
        e >= 0,
    ensures
        crate::json::pow10(e) >= 1,
    decreases e,
{
    if e > 0 {
        lemma_pow10_pos(e - 1);
    }
}

/// Powers of ten grow with the exponent.
proof fn lemma_pow10_mono(a: int, b: int)
    requires
        0 <= a <= b,
    ensures
        crate::json::pow10(a) <= crate::json::pow10(b),
    decreases b - a,
{
    if a < b {
        lemma_pow10_mono(a, b - 1);
        lemma_pow10_pos(b - 1);
    }
}

/// Ten to a power up to twenty-four stays within twenty-five digits.
proof fn lemma_pow10_bound(e: int)
    requires
        0 <= e <= 24,
    ensures
        1 <= crate::json::pow10(e) <= 1000000000000000000000000,
{
    lemma_pow10_pos(e);
    lemma_pow10_mono(e, 24);
    reveal_with_fuel(crate::json::pow10, 25);
    assert(crate::json::pow10(24) == 1000000000000000000000000);
}

/// Ten to a power of at least seven exceeds one million.
proof fn lemma_pow10_large(e: int)
    requires
        e >= 7,
    ensures
        crate::json::pow10(e) > 1000000,
    decreases e,
{
    if e == 7 {
        reveal_with_fuel(crate::json::pow10, 8);
    } else {
        lemma_pow10_large(e - 1);
    }
}

/// Ten to a power of at least twenty-four exceeds the widest raw load.
proof fn lemma_pow10_huge(e: int)
    requires
        e >= 24,
    ensures
        crate::json::pow10(e) >= 1000000000000000000000000,
    decreases e,
{
    if e == 24 {
        lemma_pow10_bound(24);
        reveal_with_fuel(crate::json::pow10, 25);
    } else {
        lemma_pow10_huge(e - 1);
        lemma_pow10_pos(e - 1);
    }
}

/// The processor load a scanned number stands for, in myriadths.
pub fn load_myriadths(n: &crate::json::JsonNum) -> (r: u64)
    ensures
        r == sp_load_myriadths(n@),
{
    if n.neg {
        return 0;
    }
    let raw: u128 = n.whole as u128 * 10000 + n.frac4 as u128;
    proof {
        assert(raw < 1000000000000000000000000);
    }
    if n.exp10 >= 0 {
        let e = n.exp10 as u32;
        if raw == 0 {
            proof {
                lemma_pow10_pos(e as int);
                assert(0 * crate::json::pow10(e as int) == 0) by (nonlinear_arith);
            }
            0
        } else if e >= 7 {
            proof {
                lemma_pow10_large(e as int);
                assert(raw * crate::json::pow10(e as int) >= crate::json::pow10(e as int))
                    by (nonlinear_arith)
                    requires
                        raw >= 1,
                        crate::json::pow10(e as int) >= 0,
                ;
            }
            1000000
        } else {
            let p = pow10_u128(e);
            proof {
                lemma_pow10_mono(e as int, 6);
                reveal_with_fuel(crate::json::pow10, 8);
                assert(crate::json::pow10(6) == 1000000);
                assert(raw * p < 1000000000000000000000000 * 10000000)
                    by (nonlinear_arith)
                    requires
                        0 <= raw < 1000000000000000000000000,
                        0 < p <= 1000000,
                ;
            }
            let v = raw * p;
            if v > 1000000 {
                1000000
            } else {
                v as u64
            }
        }
    } else {
        let me: u64 = (-(n.exp10 as i64)) as u64;
        if me >= 24 {
            proof {
                lemma_pow10_huge(me as int);
                vstd::arithmetic::div_mod::lemma_basic_div(
                    raw as int,
                    crate::json::pow10(me as int),
                );
            }
            0
        } else {
            let p = pow10_u128(me as u32);
            let v = raw / p;
            if v > 1000000 {
                1000000
            } else {
                v as u64
            }
        }
    }
}

/// The unsigned integer a scanned number stands for, if any.
pub fn num_u64(n: &crate::json::JsonNum) -> (r: Option<u64>)
    ensures
        match sp_num_u64(n@) {
            Some(v) => r == Some(v as u64) && r->0 == v,
            None => r is None,
        },
{
    if n.is_int && !n.neg {
        Some(n.whole)
    } else {
        None
    }
}

/// The signed 32-bit integer a scanned number stands for, if any.
pub fn num_i32(n: &crate::json::JsonNum) -> (r: Option<i32>)
    ensures
        match sp_num_i32(n@) {
            Some(v) => r == Some(v as i32) && r->0 == v,
            None => r is None,
        },
{
    if !n.is_int {
        None
    } else if n.neg {
        if n.whole <= 0x8000_0000 {
            Some((-(n.whole as i64)) as i32)
        } else {
            None
        }
    } else {
        if n.whole <= 0x7fff_ffff {
            Some(n.whole as i32)
        } else {
            None
        }
    }
}

/// The fixed-point scale: values carry 32 fractional bits.
pub const SCALE: u64 = 4294967296;

/// Half the scale, for round-to-nearest.
pub const HALF: u64 = 2147483648;

/// The growth ceiling of the fixed-point power: two to the 54th.
pub const CAP: u64 = 18014398509481984;

/// The per-myriadth growth factor of the processor penalty curve, at the
/// fixed-point scale: the hundredth root of `1.05`.
pub const CPU_BASE: u64 = 4297063329;

/// The per-frame growth factor of the frame penalty curves, at the
/// fixed-point scale: the sixth root of `1.03`.
pub const FRAME_BASE: u64 = 4316178516;

/// One multiplication step of the capped fixed-point power, rounding to
/// nearest.
pub open spec fn sp_pow_step(p: int, base: int) -> int {
    let q = (p * base + HALF) / (SCALE as int);
    if q >= CAP {
        CAP as int
    } else {
        q
    }
}

/// The capped fixed-point power `base ^ e`, starting from one at the scale.
pub open spec fn sp_pow_capped(base: int, e: int) -> int
    decreases e,
{
    if e <= 0 {
        SCALE as int
    } else {
        sp_pow_step(sp_pow_capped(base, e - 1), base)
    }
}

/// The capped power stays between one (at the scale) and the ceiling.
pub proof fn lemma_pow_bounds(base: int, e: int)
    requires
        SCALE <= base <= 2 * SCALE,
    ensures
        SCALE <= sp_pow_capped(base, e) <= CAP,
    decreases e,
{
    if e > 0 {
        lemma_pow_bounds(base, e - 1);
        let p = sp_pow_capped(base, e - 1);
        assert(p * SCALE <= p * base) by (nonlinear_arith)
            requires
                SCALE <= base,
                p >= 0,
        ;
        vstd::arithmetic::div_mod::lemma_div_is_ordered(
            p * (SCALE as int),
            p * base + HALF,
            SCALE as int,
        );
        vstd::arithmetic::div_mod::lemma_div_multiples_vanish(p, SCALE as int);
    }
}

/// Once the power reaches the ceiling it stays there.
pub proof fn lemma_pow_stays_capped(base: int, k: int, e: int)
    requires
        SCALE <= base <= 2 * SCALE,
        0 <= k <= e,
        sp_pow_capped(base, k) == CAP,
    ensures
        sp_pow_capped(base, e) == CAP,
    decreases e - k,
{
    if e > k {
        lemma_pow_stays_capped(base, k, e - 1);
        let p = sp_pow_capped(base, e - 1);
        assert(p * SCALE <= p * base) by (nonlinear_arith)
            requires
                SCALE <= base,
                p >= 0,
        ;
        vstd::arithmetic::div_mod::lemma_div_is_ordered(
            p * (SCALE as int),
            p * base + HALF,
            SCALE as int,
        );
        vstd::arithmetic::div_mod::lemma_div_multiples_vanish(p, SCALE as int);
    }
}

/// Computes the capped fixed-point power.
fn pow_capped(base: u64, e: u64) -> (r: u64)
    requires
        SCALE <= base <= 2 * SCALE,
    ensures
        r == sp_pow_capped(base as int, e as int),
        SCALE <= r <= CAP,
{
    let mut p: u64 = SCALE;
    let mut k: u64 = 0;
    proof {
        lemma_pow_bounds(base as int, e as int);
    }
    loop
        invariant
            k <= e,
            SCALE <= base <= 2 * SCALE,
            p == sp_pow_capped(base as int, k as int),
            SCALE <= p <= CAP,
        ensures
            p == sp_pow_capped(base as int, e as int),
        decreases e - k,
    {
        if k >= e {
            break;
        }
        if p == CAP {
            proof {
                lemma_pow_stays_capped(base as int, k as int, e as int);
            }
            break;
        }
        proof {
            assert(p * base <= 154742504910672534362390528) by (nonlinear_arith)
                requires
                    0 <= p <= 18014398509481984,
                    0 <= base <= 8589934592,
            ;
        }
        let wide: u128 = (p as u128 * base as u128 + HALF as u128) / SCALE as u128;
        let q: u64 = if wide >= CAP as u128 {
            CAP
        } else {
            wide as u64
        };
        proof {
            lemma_pow_bounds(base as int, k as int + 1);
        }
        p = q;
        k += 1;
    }
    p
}

/// The processor term of the penalty: the curve `1.05 ^ (load * 100)`
/// scaled by ten, less ten, truncated; at myriadth resolution and capped.
pub open spec fn sp_cpu_term(load_myriadths: int) -> int {
    (10 * sp_pow_capped(CPU_BASE as int, load_myriadths)) / (SCALE as int) - 10
}

/// A frame term of the penalty: the curve `1.03 ^ (count / 6)` scaled by
/// three hundred, less three hundred, truncated; capped, and carried to
/// negative counts through the fixed-point reciprocal.
pub open spec fn sp_frame_term(count: int) -> int {
    if count >= 0 {
        (300 * sp_pow_capped(FRAME_BASE as int, count)) / (SCALE as int) - 300
    } else {
        let a = sp_pow_capped(FRAME_BASE as int, -count);
        let b = ((SCALE * SCALE) as int + a / 2) / a;
        (300 * b) / (SCALE as int) - 300
    }
}

/// The penalty of a node that has reported the stats `st`: its playing
/// players plus the processor term plus the frame terms, the nulled-frame
/// term doubled, the whole clamped to a 32-bit range.
pub open spec fn sp_penalty(st: NodeStats) -> int {
    let cpu = sp_cpu_term(st.system_load_myriadths as int);
    let deficit = match st.frame_stats {
        Some(fs) => sp_frame_term(fs.deficit as int),
        None => 0,
    };
    let nulled = match st.frame_stats {
        Some(fs) => {
            let x = 2 * sp_frame_term(fs.nulled as int);
            if x > i32::MAX {
                i32::MAX as int
            } else {
                x
            }
        },
        None => 0,
    };
    let sum = st.playing_players + cpu + deficit + nulled;
    if sum > i32::MAX {
        i32::MAX as int
    } else if sum < i32::MIN {
        i32::MIN as int
    } else {
        sum
    }
}

/// Computes the processor term.
fn cpu_term(load_myriadths: u64) -> (r: i64)
    ensures
        r == sp_cpu_term(load_myriadths as int),
        0 <= r <= 41943030,
{
    let p = pow_capped(CPU_BASE, load_myriadths);
    proof {
        vstd::arithmetic::div_mod::lemma_div_is_ordered(
            10 * (SCALE as int),
            10 * (p as int),
            SCALE as int,
        );
        vstd::arithmetic::div_mod::lemma_div_is_ordered(
            10 * (p as int),
            10 * (CAP as int),
            SCALE as int,
        );
        vstd::arithmetic::div_mod::lemma_div_multiples_vanish(10, SCALE as int);
        assert((10 * (CAP as int)) / (SCALE as int) == 41943040);
    }
    ((10u64 * p) / SCALE - 10) as i64
}

/// Computes a frame term.
fn frame_term(count: i32) -> (r: i64)
    ensures
        r == sp_frame_term(count as int),
        -300 <= r <= 1258291500,
{
    if count >= 0 {
        let p = pow_capped(FRAME_BASE, count as u64);
        proof {
            vstd::arithmetic::div_mod::lemma_div_is_ordered(
                300 * (SCALE as int),
                300 * (p as int),
                SCALE as int,
            );
            vstd::arithmetic::div_mod::lemma_div_is_ordered(
                300 * (p as int),
                300 * (CAP as int),
                SCALE as int,
            );
            vstd::arithmetic::div_mod::lemma_div_multiples_vanish(300, SCALE as int);
            assert((300 * (CAP as int)) / (SCALE as int) == 1258291200);
        }
        ((300u64 * p) / SCALE - 300) as i64
    } else {
        let e: u64 = (-(count as i64)) as u64;
        let a = pow_capped(FRAME_BASE, e);
        let wide: u128 = ((SCALE as u128 * SCALE as u128) + (a / 2) as u128) / a as u128;
        let b: u64 = wide as u64;
        proof {
            let ai = a as int;
            let num = (SCALE * SCALE) as int + ai / 2;
            assert(num / ai <= num / (SCALE as int)) by {
                vstd::arithmetic::div_mod::lemma_div_is_ordered_by_denominator(
                    num,
                    SCALE as int,
                    ai,
                );
            }
            assert(num / (SCALE as int) <= 2 * (SCALE as int)) by {
                vstd::arithmetic::div_mod::lemma_div_is_ordered(
                    num,
                    2 * (SCALE as int) * (SCALE as int),
                    SCALE as int,
                );
                assert((2 * (SCALE as int) * (SCALE as int)) / (SCALE as int) == 2 * (
                SCALE as int));
            }
            vstd::arithmetic::div_mod::lemma_div_is_ordered(
                0,
                300 * (b as int),
                SCALE as int,
            );
            vstd::arithmetic::div_mod::lemma_div_is_ordered(
                300 * (b as int),
                300 * 2 * (SCALE as int),
                SCALE as int,
            );
            assert((300 * 2 * (SCALE as int)) / (SCALE as int) == 600);
            assert(300 * (b as int) >= 0) by (nonlinear_arith)
                requires
                    b >= 0,
            ;
        }
        ((300u64 * b) / SCALE) as i64 - 300
    }
}

/// Computes the penalty of the stats `st`.
pub fn penalty_of(st: &NodeStats) -> (r: i32)
    ensures
        r == sp_penalty(*st),
{
    let cpu = cpu_term(st.system_load_myriadths);
    let (deficit, nulled): (i64, i64) = match st.frame_stats {
        Some(fs) => {
            let d = frame_term(fs.deficit);
            let n2 = 2 * frame_term(fs.nulled);
            let n = if n2 > 0x7fff_ffff {
                0x7fff_ffff
            } else {
                n2
            };
            (d, n)
        },
        None => (0, 0),
    };
    let sum: i64 = st.playing_players as i64 + cpu + deficit + nulled;
    if sum > 0x7fff_ffff {
        0x7fff_ffff
    } else if sum < -0x8000_0000 {
        -0x8000_0000
    } else {
        sum as i32
    }
}

} // verus!
