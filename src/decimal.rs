//! Exact decimal numbers, as sensors report them in JSON.
use vstd::prelude::*;

verus! {

/// `10^n`.
pub open spec fn pow10(n: nat) -> nat
    decreases n,
{
    if n == 0 {
        1
    } else {
        10 * pow10((n - 1) as nat)
    }
}

pub proof fn lemma_pow10_pos(n: nat)
    ensures
        pow10(n) >= 1,
    decreases n,
{
    if n > 0 {
        lemma_pow10_pos((n - 1) as nat);
    }
}

pub proof fn lemma_pow10_mono(a: nat, b: nat)
    requires
        a <= b,
    ensures
        pow10(a) <= pow10(b),
    decreases b,
{
    if a < b {
        lemma_pow10_mono(a, (b - 1) as nat);
        lemma_pow10_pos((b - 1) as nat);
    }
}

pub proof fn lemma_pow10_add(a: nat, b: nat)
    ensures
        pow10(a + b) == pow10(a) * pow10(b),
    decreases a,
{
    if a > 0 {
        lemma_pow10_add((a - 1) as nat, b);
        assert((a + b - 1) as nat == (a - 1) as nat + b);
        assert(pow10(a + b) == 10 * pow10(((a - 1) as nat + b) as nat));
        assert(10 * (pow10((a - 1) as nat) * pow10(b)) == (10 * pow10((a - 1) as nat)) * pow10(b))
            by (nonlinear_arith);
        assert(pow10(a) == 10 * pow10((a - 1) as nat));
    } else {
        assert(pow10(0) == 1);
        assert(a + b == b);
    }
}

pub proof fn lemma_pow10_values()
    ensures
        pow10(4) == 10000,
        pow10(38) == 100000000000000000000000000000000000000nat,
        pow10(39) > u128::MAX,
{
    reveal_with_fuel(pow10, 40);
}

/// A decimal number `(-1)^negative * mantissa * 10^exponent`.
#[derive(Clone, Copy, Debug, PartialEq, Eq)]
pub struct Decimal {
    pub negative: bool,
    pub mantissa: u128,
    pub exponent: i32,
}

impl Decimal {
    /// The signed mantissa scaled up by the non-negative part of the exponent.
    pub open spec fn numerator(self) -> int {
        let m = self.mantissa as int * pow10(if self.exponent >= 0 { self.exponent as nat } else { 0 }) as int;
        if self.negative { -m } else { m }
    }

    /// The power of ten that the numerator is divided by.
    pub open spec fn denominator(self) -> int {
        pow10(if self.exponent < 0 { (-self.exponent) as nat } else { 0 }) as int
    }

    /// The value lies in the closed interval `[lo, hi]`.
    pub open spec fn within(self, lo: int, hi: int) -> bool {
        lo * self.denominator() <= self.numerator() <= hi * self.denominator()
    }
}

/// `10^n` for small `n`.
fn pow10_exec(n: u32) -> (r: u128)
    requires
        n <= 38,
    ensures
        r == pow10(n as nat),
{
    let mut r: u128 = 1;
    let mut i: u32 = 0;
    while i < n
        invariant
            i <= n <= 38,
            r == pow10(i as nat),
        decreases n - i,
    {
        proof {
            lemma_pow10_mono((i + 1) as nat, 38);
            lemma_pow10_values();
        }
        r = r * 10;
        i = i + 1;
    }
    r
}

/// Whether `m * 10^e <= b`, compared exactly.
fn scaled_at_most(m: u128, e: i32, b: u64) -> (r: bool)
    ensures
        e >= 0 ==> r == (m as int * pow10(e as nat) <= b as int),
        e < 0 ==> r == (m as int <= b as int * pow10((-e) as nat)),
{
    if e >= 0 {
        if m > b as u128 {
            proof {
                lemma_pow10_pos(e as nat);
                assert(m as int * pow10(e as nat) >= m as int) by (nonlinear_arith)
                    requires pow10(e as nat) >= 1;
            }
            return false;
        }
        let mut v: u128 = m;
        let mut i: i32 = 0;
        proof {
            assert(pow10(0) == 1);
            assert(m as int == m as int * pow10(0));
        }
        while i < e
            invariant
                0 <= i <= e,
                v as int == m as int * pow10(i as nat),
                v <= b,
            decreases e - i,
        {
            if v > (b / 10) as u128 {
                proof {
                    let rest = (e - i - 1) as nat;
                    lemma_pow10_add((i + 1) as nat, rest);
                    lemma_pow10_pos(rest);
                    assert((i + 1) as nat + rest == e as nat);
                    assert(pow10((i + 1) as nat) == 10 * pow10(i as nat));
                    assert(m as int * pow10(e as nat) == (v as int * 10) * pow10(rest)) by (nonlinear_arith)
                        requires
                            v as int == m as int * pow10(i as nat),
                            pow10(e as nat) == pow10((i + 1) as nat) * pow10(rest),
                            pow10((i + 1) as nat) == 10 * pow10(i as nat);
                    assert((v as int * 10) * pow10(rest) >= v as int * 10) by (nonlinear_arith)
                        requires pow10(rest) >= 1, v >= 0;
                }
                return false;
            }
            proof {
                assert(pow10((i + 1) as nat) == 10 * pow10(i as nat));
                assert(v as int * 10 == m as int * pow10((i + 1) as nat)) by (nonlinear_arith)
                    requires
                        v as int == m as int * pow10(i as nat),
                        pow10((i + 1) as nat) == 10 * pow10(i as nat);
            }
            v = v * 10;
            i = i + 1;
        }
        true
    } else {
        let k: u32 = (0i64 - e as i64) as u32;
        assert(k as nat == (-e) as nat);
        if k > 38 {
            proof {
                lemma_pow10_values();
                lemma_pow10_mono(39, k as nat);
                if b >= 1 {
                    assert(b as int * pow10(k as nat) >= pow10(k as nat)) by (nonlinear_arith)
                        requires b >= 1;
                } else {
                    assert(b as int * pow10(k as nat) == 0);
                }
            }
            return m == 0 || b >= 1;
        }
        let p = pow10_exec(k);
        proof { lemma_pow10_pos(k as nat); }
        let q = m / p;
        let rem = m % p;
        proof {
            let bp = b as int * p as int;
            assert(m as int == q as int * p as int + rem as int) by (nonlinear_arith)
                requires q == m / p, rem == m % p, p >= 1;
            assert(rem < p);
            if rem == 0 {
                if q <= b {
                    assert(q as int * p as int <= bp) by (nonlinear_arith)
                        requires q <= b, p >= 1, bp == b as int * p as int;
                } else {
                    assert(q as int * p as int >= bp + p) by (nonlinear_arith)
                        requires q >= b + 1, p >= 1, bp == b as int * p as int;
                }
            } else {
                if q < b {
                    assert(q as int * p as int + p as int <= bp) by (nonlinear_arith)
                        requires q + 1 <= b, p >= 1, bp == b as int * p as int;
                } else {
                    assert(q as int * p as int >= bp) by (nonlinear_arith)
                        requires q >= b, p >= 1, bp == b as int * p as int;
                }
            }
        }
        if rem == 0 {
            q <= b as u128
        } else {
            q < b as u128
        }
    }
}

impl Decimal {
    /// Whether the value lies in `[-lo_magnitude, hi]`, both ends included.
    pub fn is_within(&self, lo_magnitude: u64, hi: u64) -> (r: bool)
        ensures
            r == self.within(-(lo_magnitude as int), hi as int),
    {
        let e = self.exponent;
        proof {
            let pe: nat = if e >= 0 { e as nat } else { 0 };
            let ne: nat = if e < 0 { (-e) as nat } else { 0 };
            lemma_pow10_pos(pe);
            lemma_pow10_pos(ne);
            let d = self.denominator();
            let mm = self.mantissa as int * pow10(pe);
            assert(pow10(0) == 1);
            assert(mm >= 0) by (nonlinear_arith)
                requires mm == self.mantissa as int * pow10(pe), pow10(pe) >= 1;
            assert(lo_magnitude as int * d >= 0 && hi as int * d >= 0) by (nonlinear_arith)
                requires d >= 1;
            assert(-(lo_magnitude as int) * d == -(lo_magnitude as int * d)) by (nonlinear_arith);
            if e >= 0 {
                assert(d == 1);
                assert(lo_magnitude as int * d == lo_magnitude as int && hi as int * d == hi as int)
                    by (nonlinear_arith)
                    requires d == 1;
            } else {
                assert(pe == 0);
                assert(mm == self.mantissa as int) by (nonlinear_arith)
                    requires mm == self.mantissa as int * pow10(pe), pow10(pe) == 1;
                assert(d == pow10((-e) as nat));
            }
        }
        if self.negative {
            scaled_at_most(self.mantissa, e, lo_magnitude)
        } else {
            scaled_at_most(self.mantissa, e, hi)
        }
    }
}

pub open spec fn is_digit(c: u8) -> bool {
    48 <= c <= 57
}

/// The end of the run of ASCII digits that starts at `i`.
#[verifier::opaque]
pub open spec fn digits_end(t: Seq<u8>, i: int) -> int
    decreases t.len() - i,
{
    if 0 <= i < t.len() && is_digit(t[i]) {
        digits_end(t, i + 1)
    } else {
        i
    }
}

/// The value of the digits `t[i..j]` read in base ten.
#[verifier::opaque]
pub open spec fn digits_value(t: Seq<u8>, i: int, j: int) -> nat
    decreases j - i,
{
    if j <= i {
        0
    } else {
        digits_value(t, i, j - 1) * 10 + (t[j - 1] - 48) as nat
    }
}

/// Most significant digits a decimal may carry.
pub const MAX_DIGITS: usize = 38;

/// Most digits an exponent may carry.
pub const MAX_EXPONENT_DIGITS: usize = 4;

/// The number written by `t` in the form `-?D+(.D+)?([eE][+-]?D+)?`, where
/// `D` is an ASCII digit; `None` for any other text, or when the number has
/// more than `MAX_DIGITS` digits or its exponent more than
/// `MAX_EXPONENT_DIGITS`.
pub open spec fn decimal_text(t: Seq<u8>) -> Option<Decimal> {
    let neg = t.len() > 0 && t[0] == 45;
    let s0: int = if neg { 1 } else { 0 };
    let i1 = digits_end(t, s0);
    let has_frac = i1 < t.len() && t[i1] == 46;
    let f0 = if has_frac { i1 + 1 } else { i1 };
    let i2 = if has_frac { digits_end(t, f0) } else { i1 };
    let has_exp = i2 < t.len() && (t[i2] == 101 || t[i2] == 69);
    let x0 = if has_exp { i2 + 1 } else { i2 };
    let x_neg = has_exp && x0 < t.len() && t[x0] == 45;
    let x_sign = has_exp && x0 < t.len() && (t[x0] == 45 || t[x0] == 43);
    let d0 = if x_sign { x0 + 1 } else { x0 };
    let i3 = if has_exp { digits_end(t, d0) } else { i2 };
    let frac_len = i2 - f0;
    if i1 > s0 && (has_frac ==> i2 > f0) && (has_exp ==> i3 > d0) && i3 == t.len()
        && (i1 - s0) + frac_len <= MAX_DIGITS && i3 - d0 <= MAX_EXPONENT_DIGITS {
        let xv = digits_value(t, d0, i3) as int;
        Some(Decimal {
            negative: neg,
            mantissa: (digits_value(t, s0, i1) * pow10(frac_len as nat) + digits_value(t, f0, i2)) as u128,
            exponent: ((if x_neg { -xv } else { xv }) - frac_len) as i32,
        })
    } else {
        None
    }
}

fn digits_end_exec(t: &Vec<u8>, i: usize) -> (r: usize)
    requires
        i <= t@.len(),
    ensures
        r == digits_end(t@, i as int),
        i <= r <= t@.len(),
        forall|k: int| i <= k < r ==> is_digit(#[trigger] t@[k]),
{
    let mut j = i;
    proof { reveal(digits_end); }
    while j < t.len() && 48 <= t[j] && t[j] <= 57
        invariant
            i <= j <= t@.len(),
            digits_end(t@, i as int) == digits_end(t@, j as int),
            forall|k: int| i <= k < j ==> is_digit(#[trigger] t@[k]),
        decreases t@.len() - j,
    {
        proof { reveal(digits_end); }
        j = j + 1;
    }
    proof { reveal(digits_end); }
    j
}

/// `acc * 10^(j-i)` plus the value of the digits `t[i..j]`.
fn fold_digits(t: &Vec<u8>, i: usize, j: usize, acc: u128) -> (r: u128)
    requires
        i <= j <= t@.len(),
        forall|k: int| i <= k < j ==> is_digit(#[trigger] t@[k]),
        (acc as int + 1) * pow10((j - i) as nat) <= pow10(38),
    ensures
        r == acc as int * pow10((j - i) as nat) + digits_value(t@, i as int, j as int),
{
    let mut cur = acc;
    let mut k = i;
    proof {
        reveal(digits_value);
        assert(pow10(0) == 1);
        assert(acc as int * pow10(0) == acc as int);
        lemma_pow10_values();
    }
    while k < j
        invariant
            i <= k <= j <= t@.len(),
            forall|x: int| i <= x < j ==> is_digit(#[trigger] t@[x]),
            (acc as int + 1) * pow10((j - i) as nat) <= pow10(38),
            pow10(38) < u128::MAX,
            cur == acc as int * pow10((k - i) as nat) + digits_value(t@, i as int, k as int),
            cur < (acc as int + 1) * pow10((k - i) as nat),
        decreases j - k,
    {
        let d = t[k] - 48;
        proof {
            let pk = pow10((k - i) as nat);
            let pk1 = pow10((k + 1 - i) as nat);
            assert(pk1 == 10 * pk);
            assert(is_digit(t@[k as int]));
            reveal(digits_value);
            assert(digits_value(t@, i as int, k + 1) == digits_value(t@, i as int, k as int) * 10 + d);
            lemma_pow10_mono((k + 1 - i) as nat, (j - i) as nat);
            assert(cur * 10 + d < (acc as int + 1) * pk1) by (nonlinear_arith)
                requires cur < (acc as int + 1) * pk, pk1 == 10 * pk, d <= 9;
            assert((acc as int + 1) * pk1 <= (acc as int + 1) * pow10((j - i) as nat)) by (nonlinear_arith)
                requires pk1 <= pow10((j - i) as nat), acc >= 0;
            assert(cur * 10 + d == acc as int * pk1 + digits_value(t@, i as int, k + 1)) by (nonlinear_arith)
                requires
                    cur == acc as int * pk + digits_value(t@, i as int, k as int),
                    pk1 == 10 * pk,
                    digits_value(t@, i as int, k + 1) == digits_value(t@, i as int, k as int) * 10 + d;
        }
        cur = cur * 10 + d as u128;
        k = k + 1;
    }
    cur
}

/// Reads the decimal number that `t` writes (see `decimal_text`).
pub fn parse_decimal(t: &Vec<u8>) -> (r: Option<Decimal>)
    ensures
        r == decimal_text(t@),
{
    let n = t.len();
    let neg = n > 0 && t[0] == 45;
    let s0: usize = if neg { 1 } else { 0 };
    let i1 = digits_end_exec(t, s0);
    let has_frac = i1 < n && t[i1] == 46;
    let f0: usize = if has_frac { i1 + 1 } else { i1 };
    let i2 = if has_frac { digits_end_exec(t, f0) } else { i1 };
    let has_exp = i2 < n && (t[i2] == 101 || t[i2] == 69);
    let x0: usize = if has_exp { i2 + 1 } else { i2 };
    let x_neg = has_exp && x0 < n && t[x0] == 45;
    let x_sign = has_exp && x0 < n && (t[x0] == 45 || t[x0] == 43);
    let d0: usize = if x_sign { x0 + 1 } else { x0 };
    let i3 = if has_exp { digits_end_exec(t, d0) } else { i2 };
    if !(i1 > s0 && (!has_frac || i2 > f0) && (!has_exp || i3 > d0) && i3 == n) {
        return None;
    }
    if (i1 - s0) + (i2 - f0) > MAX_DIGITS || i3 - d0 > MAX_EXPONENT_DIGITS {
        return None;
    }
    proof {
        lemma_pow10_values();
        lemma_pow10_mono((i1 - s0) as nat, 38);
        lemma_pow10_mono((i3 - d0) as nat, 38);
        assert(1 * pow10((i1 - s0) as nat) == pow10((i1 - s0) as nat));
        assert(1 * pow10((i3 - d0) as nat) == pow10((i3 - d0) as nat));
    }
    let int_part = fold_digits(t, s0, i1, 0);
    proof {
        lemma_fraction_fits(t@, s0 as int, i1 as int, f0 as int, i2 as int);
    }
    let mantissa = fold_digits(t, f0, i2, int_part);
    let xv = fold_digits(t, d0, i3, 0);
    proof {
        lemma_digits_bound(t@, d0 as int, i3 as int);
        lemma_pow10_mono((i3 - d0) as nat, 4);
    }
    let frac_len = (i2 - f0) as i32;
    let exponent: i32 = if x_neg { 0 - xv as i32 - frac_len } else { xv as i32 - frac_len };
    Some(Decimal { negative: neg, mantissa, exponent })
}

proof fn lemma_fraction_fits(t: Seq<u8>, s0: int, i1: int, f0: int, i2: int)
    requires
        s0 <= i1,
        f0 <= i2,
        (i1 - s0) + (i2 - f0) <= 38,
        forall|k: int| s0 <= k < i1 ==> is_digit(#[trigger] t[k]),
    ensures
        (0 * pow10((i1 - s0) as nat) + digits_value(t, s0, i1) + 1) * pow10((i2 - f0) as nat)
            <= pow10(38),
{
    let a = (i1 - s0) as nat;
    let b = (i2 - f0) as nat;
    lemma_pow10_add(a, b);
    lemma_pow10_mono(a + b, 38);
    lemma_pow10_pos(b);
    lemma_digits_bound(t, s0, i1);
    assert(0 * pow10(a) == 0);
    assert((digits_value(t, s0, i1) + 1) * pow10(b) <= pow10(a) * pow10(b)) by (nonlinear_arith)
        requires digits_value(t, s0, i1) < pow10(a), pow10(b) >= 1;
}

pub proof fn lemma_digits_bound(t: Seq<u8>, i: int, j: int)
    requires
        i <= j,
        forall|k: int| i <= k < j ==> is_digit(#[trigger] t[k]),
    ensures
        digits_value(t, i, j) < pow10((j - i) as nat),
    decreases j - i,
{
    reveal(digits_value);
    if j > i {
        lemma_digits_bound(t, i, j - 1);
        assert(is_digit(t[j - 1]));
        assert(pow10((j - i) as nat) == 10 * pow10((j - 1 - i) as nat));
    }
}

} // verus!
