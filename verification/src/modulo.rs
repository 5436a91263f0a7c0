use vstd::prelude::*;
use vstd::arithmetic::div_mod::{
    lemma_fundamental_div_mod, lemma_fundamental_div_mod_converse, lemma_mod_bound,
};

verus! {

/// The absolute value of an integer.
pub open spec fn abs(x: int) -> int {
    if x < 0 {
        -x
    } else {
        x
    }
}

/// The remainder of Rust's `%` on signed integers: it takes the sign of the dividend
/// and is smaller in magnitude than the divisor.
pub open spec fn trunc_rem(x: int, b: int) -> int
    recommends
        b != 0,
{
    if x >= 0 {
        x % abs(b)
    } else {
        -((-x) % abs(b))
    }
}

/// `x` modulo `b` with the sign of `b`: the representative of `x`'s class modulo `|b|`
/// that lies in `[0, b)` for `b > 0` and in `(b, 0]` for `b < 0`.
pub open spec fn floor_mod(x: int, b: int) -> int
    recommends
        b != 0,
{
    if b > 0 {
        x % b
    } else if x % abs(b) == 0 {
        0
    } else {
        x % abs(b) + b
    }
}

/// The value of a `u32` bit pattern read as an `i32`.
pub open spec fn u32_as_i32(x: u32) -> int {
    if x <= i32::MAX {
        x as int
    } else {
        x - 0x1_0000_0000
    }
}

/// The value of a `usize` bit pattern read as an `isize`.
pub open spec fn usize_as_isize(x: usize) -> int {
    if x <= isize::MAX {
        x as int
    } else {
        x - (usize::MAX + 1)
    }
}

/// Whether `((x % b) + b) % b`, computed in a signed type with bounds `lo..=hi`, runs
/// without an arithmetic overflow.
pub open spec fn signed_modulo_defined(x: int, b: int, lo: int, hi: int) -> bool {
    b == 0 || (!(x == lo && b == -1) && lo <= trunc_rem(x, b) + b <= hi)
}

/// What `modulo(a, b)` returns.
pub open spec fn modulo_u32_spec(a: u32, b: u32) -> int {
    if b == 0 {
        0
    } else {
        trunc_rem(u32_as_i32(a), u32_as_i32(b)) % (b as int)
    }
}

/// The truncated remainder is congruent to the dividend and bounded by the divisor.
pub proof fn lemma_trunc_rem(x: int, b: int)
    requires
        b != 0,
    ensures
        -abs(b) < trunc_rem(x, b) < abs(b),
        x >= 0 ==> trunc_rem(x, b) >= 0,
        x < 0 ==> trunc_rem(x, b) <= 0,
        trunc_rem(x, b) % abs(b) == x % abs(b),
{
    let d = abs(b);
    if x >= 0 {
        lemma_mod_bound(x, d);
        let r = x % d;
        lemma_fundamental_div_mod_converse(r, d, 0, r);
    } else {
        let m = (-x) % d;
        lemma_mod_bound(-x, d);
        lemma_fundamental_div_mod(-x, d);
        let q = (-x) / d;
        assert(-x == d * q + m);
        if m == 0 {
            assert(x == (-q) * d + 0) by (nonlinear_arith)
                requires
                    -x == d * q + m,
                    m == 0,
            ;
            lemma_fundamental_div_mod_converse(x, d, -q, 0);
            lemma_fundamental_div_mod_converse(0, d, 0, 0);
        } else {
            assert(x == (-q - 1) * d + (d - m)) by (nonlinear_arith)
                requires
                    -x == d * q + m,
            ;
            lemma_fundamental_div_mod_converse(x, d, -q - 1, d - m);
            lemma_fundamental_div_mod_converse(-m, d, -1, d - m);
        }
    }
}

/// For `b > 0` and `x` already reduced to `(-b, b)`, adding `b` does not change the class.
proof fn lemma_shift_class(r: int, d: int)
    requires
        d > 0,
        -d < r < d,
    ensures
        (r + d) % d == r % d,
        (r - d) % d == r % d,
{
    if r >= 0 {
        lemma_fundamental_div_mod_converse(r + d, d, 1, r);
        lemma_fundamental_div_mod_converse(r, d, 0, r);
        lemma_fundamental_div_mod_converse(r - d, d, -1, r);
    } else {
        lemma_fundamental_div_mod_converse(r + d, d, 0, r + d);
        lemma_fundamental_div_mod_converse(r, d, -1, r + d);
        lemma_fundamental_div_mod_converse(r - d, d, -2, r + d);
    }
}

/// `((x % b) + b) % b` with Rust's remainder is `x` modulo `b` with the sign of `b`.
pub proof fn lemma_signed_modulo(x: int, b: int)
    requires
        b != 0,
    ensures
        trunc_rem(trunc_rem(x, b) + b, b) == floor_mod(x, b),
        b > 0 ==> 0 <= floor_mod(x, b) < b,
        b < 0 ==> b < floor_mod(x, b) <= 0,
{
    let d = abs(b);
    let r = trunc_rem(x, b);
    lemma_trunc_rem(x, b);
    lemma_mod_bound(x, d);
    lemma_mod_bound(r, d);
    let s = r + b;
    if b > 0 {
        lemma_shift_class(r, d);
        lemma_mod_bound(s, d);
    } else {
        lemma_shift_class(r, d);
        // s < 0 here
        let t = -s;
        lemma_mod_bound(t, d);
        if x >= 0 {
            // r in [0, d), t = d - r in (0, d]
            if r == 0 {
                lemma_fundamental_div_mod_converse(t, d, 1, 0);
                lemma_fundamental_div_mod_converse(0, d, 0, 0);
            } else {
                lemma_fundamental_div_mod_converse(t, d, 0, t);
                lemma_fundamental_div_mod_converse(r, d, 0, r);
            }
        } else {
            // r in (-d, 0], t = d - r in [d, 2d)
            lemma_fundamental_div_mod_converse(t, d, 1, -r);
            if r == 0 {
                lemma_fundamental_div_mod_converse(0, d, 0, 0);
            } else {
                lemma_fundamental_div_mod_converse(r, d, -1, r + d);
            }
        }
    }
}

/// The remainder of Rust's `%`, for a divisor that is not zero, computed without `%` on
/// signed operands.
fn trunc_rem_i128(x: i128, b: i128) -> (r: i128)
    requires
        b != 0,
        x != i128::MIN,
        b != i128::MIN,
    ensures
        r == trunc_rem(x as int, b as int),
{
    let ux: u128 = if x < 0 { (-x) as u128 } else { x as u128 };
    let ub: u128 = if b < 0 { (-b) as u128 } else { b as u128 };
    let m: u128 = ux % ub;
    proof {
        lemma_mod_bound(ux as int, ub as int);
    }
    if x < 0 {
        -(m as i128)
    } else {
        m as i128
    }
}

/// `a` modulo `b`, computed as `((a % b) + b) % b` on the operands' `i32` bit patterns and
/// read back as a `u32`; `0` where `b` is `0`.
pub fn modulo(a: u32, b: u32) -> (r: u32)
    requires
        signed_modulo_defined(u32_as_i32(a), u32_as_i32(b), i32::MIN as int, i32::MAX as int),
    ensures
        r == modulo_u32_spec(a, b),
        b > 0 ==> r < b,
        0 < b <= i32::MAX ==> r == u32_as_i32(a) % (b as int),
        0 < b <= i32::MAX && a <= i32::MAX ==> r == a % b,
{
    if b == 0 {
        return 0;
    }
    let ai: i64 = if a <= 0x7fff_ffff { a as i64 } else { a as i64 - 0x1_0000_0000 };
    let bi: i64 = if b <= 0x7fff_ffff { b as i64 } else { b as i64 - 0x1_0000_0000 };
    let rem = trunc_rem_i128(ai as i128, bi as i128) as i64;
    proof {
        lemma_trunc_rem(ai as int, bi as int);
    }
    let s: i64 = rem + bi;
    // `s` read as a `u32` bit pattern is `rem + b`.
    let su: u64 = if s >= 0 { s as u64 } else { (s + 0x1_0000_0000) as u64 };
    assert(su == rem + b);
    let res: u64 = su % (b as u64);
    proof {
        lemma_mod_bound(su as int, b as int);
        lemma_mod_bound(rem as int, b as int);
        let d = abs(bi as int);
        if bi > 0 {
            lemma_shift_class(rem as int, b as int);
        } else {
            // b = d' with rem in (-(2^32 - b), 2^32 - b), so rem + b >= 0 and
            // (rem + b) % b == rem % b
            lemma_fundamental_div_mod(rem as int, b as int);
            let q = (rem as int) / (b as int);
            assert((rem + b) as int == (q + 1) * (b as int) + (rem as int) % (b as int)) by (nonlinear_arith)
                requires
                    rem as int == (b as int) * q + (rem as int) % (b as int),
            ;
            lemma_fundamental_div_mod_converse((rem + b) as int, b as int, q + 1, (rem as int) % (b as int));
        }
    }
    res as u32
}

/// Wrap-around remainder: `self` modulo `b` with the sign of `b`, and `0` for a zero `b`.
pub trait Modulo: Sized {
    /// Whether `modulo` runs on these operands without an arithmetic overflow.
    spec fn modulo_defined(self, b: Self) -> bool;

    /// What `modulo` returns on these operands.
    spec fn modulo_result(self, b: Self) -> Self;

    fn modulo(self, b: Self) -> (r: Self)
        requires
            self.modulo_defined(b),
        ensures
            r == self.modulo_result(b),
    ;
}

impl Modulo for i32 {
    open spec fn modulo_defined(self, b: i32) -> bool {
        signed_modulo_defined(self as int, b as int, i32::MIN as int, i32::MAX as int)
    }

    open spec fn modulo_result(self, b: i32) -> i32 {
        if b == 0 {
            0
        } else {
            floor_mod(self as int, b as int) as i32
        }
    }

    fn modulo(self, b: i32) -> (r: i32) {
        if b == 0 {
            return 0;
        }
        proof {
            lemma_signed_modulo(self as int, b as int);
            lemma_trunc_rem(self as int, b as int);
            lemma_trunc_rem(trunc_rem(self as int, b as int) + b, b as int);
        }
        let r1 = trunc_rem_i128(self as i128, b as i128);
        let s = r1 + b as i128;
        let r2 = trunc_rem_i128(s, b as i128);
        r2 as i32
    }
}

impl Modulo for u32 {
    open spec fn modulo_defined(self, b: u32) -> bool {
        signed_modulo_defined(u32_as_i32(self), u32_as_i32(b), i32::MIN as int, i32::MAX as int)
    }

    open spec fn modulo_result(self, b: u32) -> u32 {
        if b == 0 {
            0
        } else {
            (floor_mod(u32_as_i32(self), u32_as_i32(b)) % 0x1_0000_0000) as u32
        }
    }

    fn modulo(self, b: u32) -> (r: u32) {
        if b == 0 {
            return 0;
        }
        let x: i32 = if self <= 0x7fff_ffff {
            self as i32
        } else {
            (self - 0x8000_0000) as i32 - 0x7fff_ffff - 1
        };
        let y: i32 = if b <= 0x7fff_ffff {
            b as i32
        } else {
            (b - 0x8000_0000) as i32 - 0x7fff_ffff - 1
        };
        let m = x.modulo(y);
        proof {
            lemma_signed_modulo(x as int, y as int);
        }
        if m >= 0 {
            m as u32
        } else {
            ((m + 0x7fff_ffff + 1) as u32) + 0x8000_0000
        }
    }
}

impl Modulo for isize {
    open spec fn modulo_defined(self, b: isize) -> bool {
        signed_modulo_defined(self as int, b as int, isize::MIN as int, isize::MAX as int)
    }

    open spec fn modulo_result(self, b: isize) -> isize {
        if b == 0 {
            0
        } else {
            floor_mod(self as int, b as int) as isize
        }
    }

    fn modulo(self, b: isize) -> (r: isize) {
        if b == 0 {
            return 0;
        }
        proof {
            lemma_signed_modulo(self as int, b as int);
            lemma_trunc_rem(self as int, b as int);
            lemma_trunc_rem(trunc_rem(self as int, b as int) + b, b as int);
        }
        let r1 = trunc_rem_i128(self as i128, b as i128);
        let s = r1 + b as i128;
        let r2 = trunc_rem_i128(s, b as i128);
        r2 as isize
    }
}

impl Modulo for usize {
    open spec fn modulo_defined(self, b: usize) -> bool {
        signed_modulo_defined(usize_as_isize(self), usize_as_isize(b), isize::MIN as int, isize::MAX as int)
    }

    open spec fn modulo_result(self, b: usize) -> usize {
        if b == 0 {
            0
        } else {
            (floor_mod(usize_as_isize(self), usize_as_isize(b)) % (usize::MAX + 1)) as usize
        }
    }

    fn modulo(self, b: usize) -> (r: usize) {
        if b == 0 {
            return 0;
        }
        let x: isize = if self <= isize::MAX as usize {
            self as isize
        } else {
            (self - isize::MAX as usize - 1) as isize - isize::MAX - 1
        };
        let y: isize = if b <= isize::MAX as usize {
            b as isize
        } else {
            (b - isize::MAX as usize - 1) as isize - isize::MAX - 1
        };
        let m = x.modulo(y);
        proof {
            lemma_signed_modulo(x as int, y as int);
            assert(usize::MAX == 2 * isize::MAX + 1);
            if m < 0 {
                lemma_fundamental_div_mod_converse(m as int, usize::MAX + 1, -1, m + usize::MAX + 1);
            } else {
                lemma_fundamental_div_mod_converse(m as int, usize::MAX + 1, 0, m as int);
            }
        }
        if m >= 0 {
            m as usize
        } else {
            ((m + isize::MAX + 1) as usize) + isize::MAX as usize + 1
        }
    }
}

} // verus!
