//! Scalar helpers: approximate equality, floor square root, greatest common
//! divisors and exact division.

use vstd::prelude::*;

verus! {

/// The default tolerance of approximate equality. Integer arithmetic here is
/// exact, so the default comparison is plain equality.
pub const DEFAULT_EPSILON: i64 = 0;

/// `a` and `b` differ by at most `eps`.
pub open spec fn approx_eq_spec(a: int, b: int, eps: int) -> bool {
    -eps <= a - b <= eps
}

/// `-b <= x <= b`.
pub open spec fn within(x: int, b: int) -> bool {
    -b <= x <= b
}

/// `r` is the largest natural number whose square does not exceed `n`.
pub open spec fn is_floor_sqrt(r: int, n: int) -> bool {
    0 <= r && r * r <= n < (r + 1) * (r + 1)
}

/// The absolute value of `x`.
pub open spec fn abs(x: int) -> int {
    if x >= 0 {
        x
    } else {
        -x
    }
}

/// `d` divides `a`: `a` is an integer multiple of `d`.
pub open spec fn divides(d: int, a: int) -> bool {
    abs(a) % abs(d) == 0
}

/// The default tolerance of approximate equality for a scalar.
pub fn approx_epsilon() -> (r: i64)
    ensures
        r == DEFAULT_EPSILON,
{
    DEFAULT_EPSILON
}

/// `a` and `b` differ by at most `epsilon`.
pub fn approx_eq_eps(a: i64, b: i64, epsilon: i64) -> (r: bool)
    ensures
        r == approx_eq_spec(a as int, b as int, epsilon as int),
{
    let d: i128 = a as i128 - b as i128;
    let e: i128 = epsilon as i128;
    -e <= d && d <= e
}

/// `a` and `b` are equal within the default tolerance.
pub fn approx_eq(a: i64, b: i64) -> (r: bool)
    ensures
        r == approx_eq_spec(a as int, b as int, DEFAULT_EPSILON as int),
{
    approx_eq_eps(a, b, DEFAULT_EPSILON)
}

/// The floor of the square root of `n`.
pub fn isqrt(n: u64) -> (r: u64)
    requires
        n <= 0x4000_0000_0000_0000,
    ensures
        is_floor_sqrt(r as int, n as int),
        r <= 0x8000_0000,
{
    let mut lo: u64 = 0;
    let mut hi: u64 = 0x8000_0001;
    assert(n < 0x8000_0001 * 0x8000_0001) by (nonlinear_arith)
        requires
            n <= 0x4000_0000_0000_0000,
    ;
    while hi - lo > 1
        invariant
            lo < hi <= 0x8000_0001,
            lo * lo <= n,
            n < hi * hi,
        decreases hi - lo,
    {
        let mid: u64 = lo + (hi - lo) / 2;
        assert(mid * mid <= 0x8000_0001 * 0x8000_0001) by (nonlinear_arith)
            requires
                mid <= 0x8000_0001,
        ;
        if mid * mid <= n {
            lo = mid;
        } else {
            hi = mid;
        }
    }
    assert(hi == lo + 1);
    lo
}

/// The exact quotient `a / b`, when `b` divides `a`.
pub fn exact_div(a: i64, b: i64) -> (r: Option<i64>)
    requires
        b != 0,
        a > i64::MIN,
        b > i64::MIN,
    ensures
        r.is_some() <==> divides(b as int, a as int),
        r matches Some(q) ==> q * b == a,
{
    let ua: u64 = if a >= 0 {
        a as u64
    } else {
        (-a) as u64
    };
    let ub: u64 = if b >= 0 {
        b as u64
    } else {
        (-b) as u64
    };
    let q: u64 = ua / ub;
    let rem: u64 = ua % ub;
    proof {
        assert(q <= ua) by (nonlinear_arith)
            requires
                q == ua / ub,
                ub > 0,
        ;
        assert(ua == q * ub + rem) by (nonlinear_arith)
            requires
                q == ua / ub,
                rem == ua % ub,
                ub > 0,
        ;
    }
    if rem != 0 {
        None
    } else {
        let neg = (a < 0) != (b < 0);
        let qi: i64 = if neg {
            -(q as i64)
        } else {
            q as i64
        };
        proof {
            assert(qi * b == a) by (nonlinear_arith)
                requires
                    ua == q * ub,
                    ua == (if a >= 0 { a as int } else { -a }),
                    ub == (if b >= 0 { b as int } else { -b }),
                    qi == (if neg { -q } else { q as int }),
                    neg == ((a < 0) != (b < 0)),
            ;
        }
        Some(qi)
    }
}

/// The greatest common divisor of two natural numbers, by Euclid's rule;
/// `gcd(0, 0) == 0`.
pub open spec fn gcd(a: nat, b: nat) -> nat
    decreases b,
{
    if b == 0 {
        a
    } else {
        gcd(b, a % b)
    }
}

/// The greatest common divisor of the magnitudes of three integers.
pub open spec fn gcd3(a: int, b: int, c: int) -> nat {
    gcd(gcd(abs(a) as nat, abs(b) as nat), abs(c) as nat)
}

/// The greatest common divisor of the magnitudes of four integers.
pub open spec fn gcd4(a: int, b: int, c: int, d: int) -> nat {
    gcd(gcd3(a, b, c), abs(d) as nat)
}

/// `d` is positive and divides `a` exactly.
pub open spec fn divides_pos(d: int, a: int) -> bool {
    d > 0 && abs(a) % d == 0
}

proof fn lemma_divides_sum(g: int, b: int, r: int, q: int)
    requires
        g > 0,
        b >= 0,
        r >= 0,
        b % g == 0,
        r % g == 0,
        q >= 0,
    ensures
        (q * b + r) % g == 0,
{
    let k1 = b / g;
    let k2 = r / g;
    assert(b == g * k1 && r == g * k2) by (nonlinear_arith)
        requires
            g > 0,
            b % g == 0,
            r % g == 0,
            k1 == b / g,
            k2 == r / g,
    ;
    assert(q * b + r == (q * k1 + k2) * g) by (nonlinear_arith)
        requires
            b == g * k1,
            r == g * k2,
    ;
    vstd::arithmetic::div_mod::lemma_mod_multiples_basic(q * k1 + k2, g);
}

proof fn lemma_divides_trans(g: int, h: int, a: int)
    requires
        g > 0,
        h > 0,
        a >= 0,
        h % g == 0,
        a % h == 0,
    ensures
        a % g == 0,
{
    let k1 = a / h;
    let k2 = h / g;
    assert(a == h * k1 && h == g * k2) by (nonlinear_arith)
        requires
            g > 0,
            h > 0,
            a % h == 0,
            h % g == 0,
            k1 == a / h,
            k2 == h / g,
    ;
    assert(a == (k2 * k1) * g) by (nonlinear_arith)
        requires
            a == h * k1,
            h == g * k2,
    ;
    vstd::arithmetic::div_mod::lemma_mod_multiples_basic(k2 * k1, g);
}

/// The gcd divides both arguments, and it is zero only when both are.
pub proof fn lemma_gcd_divides(a: nat, b: nat)
    ensures
        gcd(a, b) == 0 <==> (a == 0 && b == 0),
        gcd(a, b) > 0 ==> a % gcd(a, b) == 0 && b % gcd(a, b) == 0,
    decreases b,
{
    if b == 0 {
        if a > 0 {
            vstd::arithmetic::div_mod::lemma_mod_self_0(a as int);
            vstd::arithmetic::div_mod::lemma_small_mod(0, a);
        }
    } else {
        let r = a % b;
        lemma_gcd_divides(b, r);
        let g = gcd(b, r);
        assert(g > 0);
        assert(a == (a / b) * b + r) by (nonlinear_arith)
            requires
                b > 0,
                r == a % b,
        ;
        assert(a / b >= 0) by (nonlinear_arith)
            requires
                b > 0,
                a >= 0,
        ;
        lemma_divides_sum(g as int, b as int, r as int, (a / b) as int);
    }
}

/// The gcd of three magnitudes is positive unless all three are zero, and
/// divides each of them.
pub proof fn lemma_gcd3_divides(a: int, b: int, c: int)
    requires
        a != 0 || b != 0 || c != 0,
    ensures
        gcd3(a, b, c) > 0,
        divides_pos(gcd3(a, b, c) as int, a),
        divides_pos(gcd3(a, b, c) as int, b),
        divides_pos(gcd3(a, b, c) as int, c),
{
    let h = gcd(abs(a) as nat, abs(b) as nat);
    lemma_gcd_divides(abs(a) as nat, abs(b) as nat);
    lemma_gcd_divides(h, abs(c) as nat);
    let g = gcd3(a, b, c);
    if h > 0 {
        lemma_divides_trans(g as int, h as int, abs(a));
        lemma_divides_trans(g as int, h as int, abs(b));
    } else {
        vstd::arithmetic::div_mod::lemma_small_mod(0, g);
    }
}

/// The gcd of four magnitudes is positive unless all four are zero, and
/// divides each of them.
pub proof fn lemma_gcd4_divides(a: int, b: int, c: int, d: int)
    requires
        d != 0,
    ensures
        gcd4(a, b, c, d) > 0,
        divides_pos(gcd4(a, b, c, d) as int, a),
        divides_pos(gcd4(a, b, c, d) as int, b),
        divides_pos(gcd4(a, b, c, d) as int, c),
        divides_pos(gcd4(a, b, c, d) as int, d),
{
    let h = gcd3(a, b, c);
    lemma_gcd_divides(h, abs(d) as nat);
    let g = gcd4(a, b, c, d);
    if h > 0 {
        lemma_gcd3_divides(a, b, c);
        lemma_divides_trans(g as int, h as int, abs(a));
        lemma_divides_trans(g as int, h as int, abs(b));
        lemma_divides_trans(g as int, h as int, abs(c));
    } else {
        lemma_gcd_divides(abs(a) as nat, abs(b) as nat);
        lemma_gcd_divides(gcd(abs(a) as nat, abs(b) as nat), abs(c) as nat);
        vstd::arithmetic::div_mod::lemma_small_mod(0, g);
    }
}

/// The gcd of three magnitudes, none of them above `i64::MAX`, fits in `i64`.
pub proof fn lemma_gcd_le(a: int, b: int, c: int)
    requires
        a != 0 || b != 0 || c != 0,
        within(a, i64::MAX as int),
        within(b, i64::MAX as int),
        within(c, i64::MAX as int),
    ensures
        gcd3(a, b, c) <= i64::MAX,
{
    lemma_gcd3_divides(a, b, c);
    let g = gcd3(a, b, c) as int;
    let m: int = if a != 0 { abs(a) } else if b != 0 { abs(b) } else { abs(c) };
    assert(m > 0 && m % g == 0);
    assert(g <= m) by (nonlinear_arith)
        requires
            g > 0,
            m > 0,
            m % g == 0,
    {
        if g > m {
            vstd::arithmetic::div_mod::lemma_small_mod(m as nat, g as nat);
        }
    }
}

/// The greatest common divisor, by Euclid's algorithm.
pub fn gcd_u64(a: u64, b: u64) -> (r: u64)
    ensures
        r == gcd(a as nat, b as nat),
{
    let mut x: u64 = a;
    let mut y: u64 = b;
    while y != 0
        invariant
            gcd(x as nat, y as nat) == gcd(a as nat, b as nat),
        decreases y,
    {
        let t: u64 = x % y;
        x = y;
        y = t;
    }
    x
}

/// The magnitude of `x`.
pub fn abs_u64(x: i64) -> (r: u64)
    ensures
        r == abs(x as int),
{
    if x >= 0 {
        x as u64
    } else {
        (-(x as i128)) as u64
    }
}

/// `a / d` for a positive `d` that divides `a` exactly.
pub fn div_exact(a: i64, d: i64) -> (r: i64)
    requires
        divides_pos(d as int, a as int),
        a > i64::MIN,
    ensures
        r * d == a,
{
    match exact_div(a, d) {
        Some(q) => q,
        None => 0,
    }
}

} // verus!
