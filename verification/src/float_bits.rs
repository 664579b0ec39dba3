//! Single-precision numbers, carried by their IEEE 754 bit patterns: order, extremes and
//! conversion to 16-bit samples.

use vstd::arithmetic::power2::{lemma2_to64, lemma_pow2_adds, lemma_pow2_pos, lemma_pow2_unfold, pow2};
use vstd::prelude::*;

verus! {

/// A single-precision number by its bit pattern.
#[derive(Debug, Clone, Copy, PartialEq, Eq, Structural)]
pub struct F32 {
    pub bits: u32,
}

/// The bit pattern without the sign.
pub open spec fn magnitude(x: F32) -> nat {
    (x.bits % 0x8000_0000) as nat
}

/// Whether the sign bit is set.
pub open spec fn negative(x: F32) -> bool {
    x.bits >= 0x8000_0000
}

/// Whether the pattern stands for no number.
pub open spec fn is_nan(x: F32) -> bool {
    magnitude(x) > 0x7F80_0000
}

/// Whether the pattern stands for a finite number.
pub open spec fn is_finite(x: F32) -> bool {
    magnitude(x) < 0x7F80_0000
}

/// The rank of a number among all numbers; both zeros have rank 0.
pub open spec fn rank(x: F32) -> int {
    if negative(x) {
        -(magnitude(x) as int)
    } else {
        magnitude(x) as int
    }
}

/// Whether `a` is less than `b`; nothing is less than, or greater than, what is no number.
pub open spec fn less(a: F32, b: F32) -> bool {
    !is_nan(a) && !is_nan(b) && rank(a) < rank(b)
}

/// The exponent field of a number, 1 for subnormal numbers.
pub open spec fn exponent(x: F32) -> nat {
    if magnitude(x) / 0x80_0000 == 0 {
        1
    } else {
        magnitude(x) / 0x80_0000
    }
}

/// The significand of a number, so that the number's amount is the significand times two to
/// the power of its exponent less 150.
pub open spec fn significand(x: F32) -> nat {
    if magnitude(x) / 0x80_0000 == 0 {
        magnitude(x)
    } else {
        magnitude(x) % 0x80_0000 + 0x80_0000
    }
}

/// The amount of a finite number in units of the smallest positive one.
pub open spec fn units(x: F32) -> nat {
    significand(x) * pow2((exponent(x) - 1) as nat)
}

/// The bit patterns of two numbers order their amounts.
pub proof fn magnitude_orders_amounts(a: F32, b: F32)
    requires
        magnitude(a) < magnitude(b),
    ensures
        units(a) < units(b),
{
    let (ea, eb) = (exponent(a), exponent(b));
    let (sa, sb) = (significand(a), significand(b));
    let (pa, pb) = (pow2((ea - 1) as nat), pow2((eb - 1) as nat));
    lemma_pow2_pos((ea - 1) as nat);
    if ea == eb {
        assert(sa < sb);
        assert(sa * pa < sb * pa) by (nonlinear_arith)
            requires
                sa < sb,
                pa > 0,
        ;
    } else {
        assert(ea < eb);
        assert(sa < 0x100_0000);
        assert(sb >= 0x80_0000);
        lemma_pow2_adds((ea - 1) as nat, (eb - ea) as nat);
        let d = pow2((eb - ea) as nat);
        lemma_pow2_pos((eb - ea) as nat);
        lemma_pow2_unfold((eb - ea) as nat);
        lemma_pow2_pos((eb - ea - 1) as nat);
        assert(d >= 2);
        assert(sa * pa < sb * pb) by (nonlinear_arith)
            requires
                sa < 0x100_0000,
                sb >= 0x80_0000,
                pb == pa * d,
                d >= 2,
                pa > 0,
        ;
    }
}

impl F32 {
    /// The number of a bit pattern.
    pub fn from_bits(bits: u32) -> (r: Self)
        ensures
            r.bits == bits,
    {
        F32 { bits }
    }

    /// The bit pattern of the number.
    pub fn to_bits(self) -> (r: u32)
        ensures
            r == self.bits,
    {
        self.bits
    }

    /// Whether this is no number.
    pub fn nan(self) -> (r: bool)
        ensures
            r == is_nan(self),
    {
        self.bits % 0x8000_0000 > 0x7F80_0000
    }

    /// Whether this is a finite number.
    pub fn finite(self) -> (r: bool)
        ensures
            r == is_finite(self),
    {
        self.bits % 0x8000_0000 < 0x7F80_0000
    }

    /// The number without its sign.
    pub fn abs(self) -> (r: Self)
        ensures
            r.bits == magnitude(self),
            rank(r) == magnitude(self),
            is_nan(r) == is_nan(self),
    {
        F32 { bits: self.bits % 0x8000_0000 }
    }

    /// Whether the number is less than another.
    pub fn lt(self, other: Self) -> (r: bool)
        ensures
            r == less(self, other),
    {
        if self.nan() || other.nan() {
            return false;
        }
        let a: u32 = self.bits % 0x8000_0000;
        let b: u32 = other.bits % 0x8000_0000;
        if self.bits >= 0x8000_0000 {
            if other.bits >= 0x8000_0000 {
                a > b
            } else {
                a > 0 || b > 0
            }
        } else {
            if other.bits >= 0x8000_0000 {
                false
            } else {
                a < b
            }
        }
    }

    /// The smaller of two numbers; the other one where one is no number.
    pub fn min(self, other: Self) -> (r: Self)
        ensures
            r == if is_nan(self) || less(other, self) {
                other
            } else {
                self
            },
    {
        if self.nan() || other.lt(self) {
            other
        } else {
            self
        }
    }

    /// The greater of two numbers; the other one where one is no number.
    pub fn max(self, other: Self) -> (r: Self)
        ensures
            r == if is_nan(self) || less(self, other) {
                other
            } else {
                self
            },
    {
        if self.nan() || self.lt(other) {
            other
        } else {
            self
        }
    }
}

/// The weight of the last place of a whole number written with 24 significant binary digits.
pub open spec fn last_place(p: nat) -> nat
    decreases p,
{
    if p < 0x100_0000 {
        1
    } else {
        2 * last_place(p / 2)
    }
}

/// A whole number rounded to 24 significant binary digits, ties to even.
pub open spec fn rounded(p: nat) -> nat {
    let w = last_place(p);
    let q = p / w;
    let r = p % w;
    if 2 * r > w || (2 * r == w && q % 2 == 1) {
        (q + 1) * w
    } else {
        q * w
    }
}

/// The 16-bit sample of a number: the number, limited to one in amount, times 32767 in single
/// precision, without its fraction. What is no number is silence.
pub open spec fn pcm_sample(x: F32) -> int {
    let amount = if magnitude(x) >= 0x3F80_0000 {
        32767
    } else {
        (rounded(significand(x) * 32767) / pow2((150 - exponent(x)) as nat)) as int
    };
    if is_nan(x) {
        0
    } else if negative(x) {
        -amount
    } else {
        amount
    }
}

/// The weight of the last place of a number.
fn last_place_of(p: u64) -> (r: u64)
    requires
        p < 0x80_0000_0000,
    ensures
        r == last_place(p as nat),
        r == 1 || (2 <= r && r * 0x80_0000 <= p),
    decreases p,
{
    if p < 0x100_0000 {
        1
    } else {
        let half: u64 = last_place_of(p / 2);
        2 * half
    }
}

/// The place of the last of 24 significant binary digits of a number, and its weight.
pub fn place_of(p: u64) -> (r: (u64, u64))
    requires
        p < 0x80_0000_0000,
    ensures
        r.1 == pow2(r.0 as nat),
        r.1 == last_place(p as nat),
        r.0 < 16,
        r.1 > 0,
        p >= 0x80_0000 ==> r.1 * 0x80_0000 <= p < r.1 * 0x100_0000,
    decreases p,
{
    proof {
        vstd::arithmetic::power2::lemma2_to64();
    }
    if p < 0x100_0000 {
        (0, 1)
    } else {
        let (k, w) = place_of(p / 2);
        proof {
            lemma_pow2_unfold((k + 1) as nat);
            if k + 1 >= 16 {
                vstd::arithmetic::power2::lemma_pow2_strictly_increases(15, (k + 1) as nat);
                assert(false);
            }
        }
        (k + 1, 2 * w)
    }
}

/// A whole number rounded to 24 significant binary digits.
pub fn round_to_single(p: u64) -> (r: u64)
    requires
        p < 0x80_0000_0000,
    ensures
        r == rounded(p as nat),
        r <= p + 0x7FFF,
{
    let w: u64 = last_place_of(p);
    let q: u64 = p / w;
    let rest: u64 = p % w;
    proof {
        vstd::arithmetic::div_mod::lemma_fundamental_div_mod(p as int, w as int);
        assert(q * w == w * q) by (nonlinear_arith);
        assert((q + 1) * w == w * q + w) by (nonlinear_arith);
        vstd::arithmetic::div_mod::lemma_mod_bound(p as int, w as int);
    }
    if 2 * rest > w || (2 * rest == w && q % 2 == 1) {
        (q + 1) * w
    } else {
        q * w
    }
}

/// A power of two.
fn power_of_two(k: u64) -> (r: u64)
    requires
        k <= 40,
    ensures
        r == pow2(k as nat),
        r <= 0x100_0000_0000,
    decreases k,
{
    proof {
        vstd::arithmetic::power2::lemma2_to64();
    }
    if k == 0 {
        1
    } else {
        proof {
            lemma_pow2_unfold(k as nat);
            if k < 40 {
                vstd::arithmetic::power2::lemma_pow2_strictly_increases(k as nat, 40);
            }
            vstd::arithmetic::power2::lemma2_to64_rest();
        }
        let half: u64 = power_of_two(k - 1);
        2 * half
    }
}

/// The 16-bit sample of a number.
pub fn to_pcm(x: F32) -> (r: i16)
    ensures
        r == pcm_sample(x),
{
    if x.nan() {
        return 0;
    }
    let m: u32 = x.bits % 0x8000_0000;
    let amount: i16 = if m >= 0x3F80_0000 {
        32767
    } else {
        let field: u32 = m / 0x80_0000;
        let e: u64 = if field == 0 {
            1
        } else {
            field as u64
        };
        let s: u64 = if field == 0 {
            m as u64
        } else {
            (m % 0x80_0000 + 0x80_0000) as u64
        };
        assert(e == exponent(x) && s == significand(x));
        assert(e <= 126);
        assert(s * 32767 + 0x7FFF <= 0x100_0000 * 32767);
        let p: u64 = round_to_single(s * 32767);
        let shift: u64 = 150 - e;
        assert(p <= 0x100_0000 * 32767);
        if shift > 40 {
            proof {
                vstd::arithmetic::power2::lemma2_to64_rest();
                vstd::arithmetic::power2::lemma_pow2_strictly_increases(40, shift as nat);
                vstd::arithmetic::div_mod::lemma_basic_div(p as int, pow2(shift as nat) as int);
            }
            0
        } else {
            let w: u64 = power_of_two(shift);
            proof {
                vstd::arithmetic::power2::lemma2_to64();
                if shift > 24 {
                    vstd::arithmetic::power2::lemma_pow2_strictly_increases(24, shift as nat);
                }
                assert(w >= 0x100_0000);
                assert(p / w <= 32767) by (nonlinear_arith)
                    requires
                        p <= 0x100_0000 * 32767,
                        w >= 0x100_0000,
                ;
            }
            (p / w) as i16
        }
    };
    if x.bits >= 0x8000_0000 {
        -amount
    } else {
        amount
    }
}

proof fn lemma_last_place(p: nat)
    ensures
        last_place(p) >= 1,
        last_place(p) == 1 || last_place(p) * 0x80_0000 <= p,
        p < last_place(p) * 0x100_0000,
    decreases p,
{
    if p >= 0x100_0000 {
        lemma_last_place(p / 2);
    }
}

/// Rounding keeps a number of at most 24 bits, and errs by at most one part in two to the 24th
/// on any other.
pub proof fn rounding_is_close(p: nat)
    ensures
        p < 0x100_0000 ==> rounded(p) == p,
        rounded(p) * 0x100_0000 <= p * 0x100_0001,
        rounded(p) * 0x100_0000 >= p * 0xFF_FFFF,
{
    lemma_last_place(p);
    let w = last_place(p);
    let q = p / w;
    let r = p % w;
    assert(p == q * w + r && r < w) by (nonlinear_arith)
        requires
            w >= 1,
            q == p / w,
            r == p % w,
    ;
    assert((q + 1) * w == q * w + w) by (nonlinear_arith);
}

/// A sample below one in amount becomes its 32767-fold, cut to a whole number: what that number
/// and its successor stand for lies on both sides of it, but for the rounding.
pub proof fn samples_follow_their_numbers(x: F32, amount: int)
    requires
        magnitude(x) < 0x3F80_0000,
        amount == pcm_sample(x) || amount == -pcm_sample(x),
        amount >= 0,
    ensures
        amount * pow2((150 - exponent(x)) as nat) * 0x100_0000 <= significand(x) * 32767
            * 0x100_0001,
        (amount + 1) * pow2((150 - exponent(x)) as nat) * 0x100_0000 > significand(x) * 32767
            * 0xFF_FFFF,
{
    let p = significand(x) * 32767;
    let k = pow2((150 - exponent(x)) as nat);
    lemma_pow2_pos((150 - exponent(x)) as nat);
    rounding_is_close(p);
    let whole = rounded(p);
    let a = (whole / k) as int;
    assert(a >= 0) by (nonlinear_arith)
        requires
            a == (whole / k) as int,
            k > 0,
            whole >= 0,
    ;
    assert(amount == a);
    assert(a * k <= whole && whole < (a + 1) * k) by (nonlinear_arith)
        requires
            a == (whole / k) as int,
            k > 0,
    ;
    assert(a * k * 0x100_0000 <= whole * 0x100_0000);
    assert((a + 1) * k * 0x100_0000 > whole * 0x100_0000);
}

/// A sample fits in 16 bits: it is at most 32767 in amount, which is what one and everything
/// above it become.
pub proof fn samples_stay_in_range(x: F32)
    ensures
        -32767 <= pcm_sample(x) <= 32767,
        is_nan(x) ==> pcm_sample(x) == 0,
        !is_nan(x) && magnitude(x) >= 0x3F80_0000 && x.bits < 0x8000_0000 ==> pcm_sample(x)
            == 32767,
        !is_nan(x) && magnitude(x) >= 0x3F80_0000 && x.bits >= 0x8000_0000 ==> pcm_sample(x)
            == -32767,
        x.bits < 0x8000_0000 ==> pcm_sample(x) >= 0,
        x.bits >= 0x8000_0000 ==> pcm_sample(x) <= 0,
{
    if magnitude(x) < 0x3F80_0000 {
        let p = significand(x) * 32767;
        let n: nat = (150 - exponent(x)) as nat;
        let k = pow2(n);
        assert(exponent(x) <= 126);
        assert(significand(x) <= 0xFF_FFFF);
        let over: nat = (n - 24) as nat;
        lemma_pow2_adds(24, over);
        lemma_pow2_pos(over);
        lemma2_to64();
        assert(k >= 0x100_0000) by (nonlinear_arith)
            requires
                k == pow2(24) * pow2(over),
                pow2(24) == 0x100_0000,
                pow2(over) >= 1,
        ;
        rounding_is_close(p);
        let whole = rounded(p);
        assert(whole <= 0x100_0000 * 32767);
        assert(0 <= whole / k <= 32767) by (nonlinear_arith)
            requires
                0 <= whole <= 0x100_0000 * 32767,
                k >= 0x100_0000,
        ;
    }
}

/// Two samples that differ only in their sign become numbers that differ only in theirs.
pub proof fn samples_are_symmetric(x: F32, y: F32)
    requires
        y.bits == x.bits + 0x8000_0000,
    ensures
        pcm_sample(y) == -pcm_sample(x),
{
    assert(magnitude(x) == magnitude(y));
}

/// Zero of either sign becomes zero.
pub proof fn silence_is_zero()
    ensures
        pcm_sample(F32 { bits: 0 }) == 0,
        pcm_sample(F32 { bits: 0x8000_0000 }) == 0,
{
    let k = pow2(149);
    lemma_pow2_pos(149);
    rounding_is_close(0);
    assert(0nat / k == 0) by (nonlinear_arith)
        requires
            k > 0,
    ;
}

} // verus!
