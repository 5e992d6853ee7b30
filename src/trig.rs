//! Fixed-point trigonometry: integer square root, sine and cosine of angles in
//! tenths of a degree, and normalisation of vectors to unit length.
use vstd::prelude::*;
use crate::geometry::{abs, Vec2};

verus! {

/// Fixed-point scale of a unit vector component: `UNIT` stands for 1.0.
pub const UNIT: i64 = 1_000_000;

/// Allowed deviation of a unit vector's squared length from `UNIT * UNIT`.
pub const UNIT_TOL: i64 = 12_000_000;

/// `a / d` rounded toward zero, for a positive divisor.
pub open spec fn tdiv(a: int, d: int) -> int {
    if a >= 0 {
        a / d
    } else {
        -((-a) / d)
    }
}

/// `n` is the integer square root of `m`.
pub open spec fn is_root(n: int, m: int) -> bool {
    0 <= n && n * n <= m < (n + 1) * (n + 1)
}

/// The integer square root of `m`.
pub open spec fn root(m: int) -> int {
    choose|n: int| #[trigger] is_root(n, m)
}

/// Squared length of a vector.
pub open spec fn norm2(v: Vec2) -> int {
    v.x * v.x + v.y * v.y
}

/// The vector has unit length, within `UNIT_TOL` on the squared length.
pub open spec fn is_unit(v: Vec2) -> bool {
    UNIT * UNIT - UNIT_TOL <= norm2(v) <= UNIT * UNIT + UNIT_TOL
}

/// `(x, y)` scaled to length `UNIT`, each component rounded toward zero.
pub open spec fn normalized(x: int, y: int) -> Vec2 {
    let n = root(x * x + y * y);
    Vec2 { x: tdiv(x * UNIT, n) as i64, y: tdiv(y * UNIT, n) as i64 }
}

proof fn lemma_root_unique(a: int, b: int, m: int)
    requires
        is_root(a, m),
        is_root(b, m),
    ensures
        a == b,
{
    if a < b {
        assert((a + 1) * (a + 1) <= b * b) by (nonlinear_arith)
            requires
                0 <= a < b,
        ;
    } else if b < a {
        assert((b + 1) * (b + 1) <= a * a) by (nonlinear_arith)
            requires
                0 <= b < a,
        ;
    }
}

/// The integer square root of `m` is the one `n` with `n * n <= m < (n + 1) * (n + 1)`.
pub proof fn lemma_root_is(n: int, m: int)
    requires
        is_root(n, m),
    ensures
        root(m) == n,
{
    let r = root(m);
    assert(is_root(r, m));
    lemma_root_unique(r, n, m);
}

/// Integer square root by bisection.
pub fn isqrt(m: u64) -> (r: u64)
    requires
        m < 0x4000_0000_0000_0000,
    ensures
        is_root(r as int, m as int),
        r as int == root(m as int),
{
    let mut lo: u64 = 0;
    let mut hi: u64 = 0x8000_0000;
    assert(hi * hi == 0x4000_0000_0000_0000);
    while hi - lo > 1
        invariant
            lo < hi <= 0x8000_0000,
            lo * lo <= m,
            m < hi * hi,
        decreases hi - lo,
    {
        let mid: u64 = lo + (hi - lo) / 2;
        assert(mid * mid <= 0x4000_0000_0000_0000) by (nonlinear_arith)
            requires
                mid < 0x8000_0000,
        ;
        if mid * mid <= m {
            lo = mid;
        } else {
            hi = mid;
        }
    }
    assert(hi == lo + 1);
    proof {
        lemma_root_is(lo as int, m as int);
    }
    lo
}

proof fn lemma_div_bound(a: int, n: int, d: int)
    requires
        0 <= a <= 0x1_0000_0000_0000,
        0 <= n <= d * 0x4000,
        d > 0,
    ensures
        a * n / d <= 0x4000_0000_0000_0000,
{
    let q = a * n / d;
    assert(q * d <= a * n) by {
        vstd::arithmetic::div_mod::lemma_fundamental_div_mod(a * n, d);
        vstd::arithmetic::div_mod::lemma_mod_bound(a * n, d);
    }
    assert(a * n <= 0x1_0000_0000_0000 * 0x4000 * d) by (nonlinear_arith)
        requires
            0 <= a <= 0x1_0000_0000_0000,
            0 <= n <= d * 0x4000,
    ;
    assert(q <= 0x4000_0000_0000_0000) by (nonlinear_arith)
        requires
            q * d <= 0x4000_0000_0000_0000 * d,
            d > 0,
    ;
}

/// Magnitude `|v| * num / den`, rounded toward zero and given the sign of `v`.
pub fn scale_trunc(v: i64, num: i64, den: i64) -> (r: i64)
    requires
        0 <= num <= 0x1_0000_0000,
        0 < den,
        num <= den * 0x4000,
        -0x1_0000_0000_0000 <= v <= 0x1_0000_0000_0000,
    ensures
        r == tdiv(v * num, den as int),
        -0x4000_0000_0000_0000 <= r <= 0x4000_0000_0000_0000,
{
    let a: u128 = if v < 0 { (-v) as u128 } else { v as u128 };
    let n: u128 = num as u128;
    let d: u128 = den as u128;
    assert(a * n <= 0x1_0000_0000_0000_0000_0000) by (nonlinear_arith)
        requires
            a <= 0x1_0000_0000_0000,
            n <= 0x1_0000_0000,
    ;
    let q: u128 = a * n / d;
    proof {
        lemma_div_bound(a as int, n as int, d as int);
    }
    if v < 0 {
        assert((-v) * num == -(v * num)) by (nonlinear_arith);
        -(q as i64)
    } else {
        q as i64
    }
}


/// Bounds of a floor quotient: `q * n <= a < (q + 1) * n`.
proof fn lemma_floor_bounds(a: int, n: int)
    requires
        0 <= a,
        0 < n,
    ensures
        (a / n) * n <= a < (a / n + 1) * n,
        0 <= a / n,
{
    vstd::arithmetic::div_mod::lemma_fundamental_div_mod(a, n);
    vstd::arithmetic::div_mod::lemma_mod_bound(a, n);
    vstd::arithmetic::div_mod::lemma_div_pos_is_pos(a, n);
    assert((a / n) * n == n * (a / n)) by (nonlinear_arith);
    assert((a / n + 1) * n == n * (a / n) + n) by (nonlinear_arith);
}

/// Squaring preserves `<=` and `<` between non-negative values.
proof fn lemma_square_mono(p: int, q: int)
    requires
        0 <= p,
    ensures
        p <= q ==> p * p <= q * q,
        p < q ==> p * p < q * q,
{
    if p <= q {
        assert(p * p <= q * q) by (nonlinear_arith)
            requires
                0 <= p <= q,
        ;
    }
    if p < q {
        assert(p * p < q * q) by (nonlinear_arith)
            requires
                0 <= p < q,
        ;
    }
}

/// One component of a normalised vector: `c = |v| * UNIT / n` satisfies
/// `c <= UNIT`, `c^2 n^2 <= v^2 UNIT^2` and `(c+1)^2 n^2 > v^2 UNIT^2`.
proof fn lemma_component(v: int, n: int, m: int)
    requires
        is_root(n, m),
        n > 0,
        v * v <= m,
    ensures
        ({
            let c = abs(v) * UNIT / n;
            &&& 0 <= c <= UNIT
            &&& (c * n) * (c * n) <= (v * UNIT) * (v * UNIT)
            &&& ((c + 1) * n) * ((c + 1) * n) > (v * UNIT) * (v * UNIT)
            &&& tdiv(v * UNIT, n) == (if v >= 0 { c } else { -c })
        }),
{
    let a = abs(v);
    let c = a * UNIT / n;
    assert(a * a == v * v) by (nonlinear_arith)
        requires
            a == abs(v),
    ;
    assert(a * UNIT >= 0) by (nonlinear_arith)
        requires
            a >= 0,
    ;
    lemma_floor_bounds(a * UNIT, n);
    // a <= n, since a * a <= m < (n + 1) * (n + 1)
    lemma_square_mono(n + 1, a);
    assert(a <= n);
    assert(c * n <= n * UNIT) by (nonlinear_arith)
        requires
            c * n <= a * UNIT,
            a <= n,
    ;
    assert(c <= UNIT) by (nonlinear_arith)
        requires
            c * n <= n * UNIT,
            n > 0,
    ;
    assert((v * UNIT) * (v * UNIT) == (a * UNIT) * (a * UNIT)) by (nonlinear_arith)
        requires
            a * a == v * v,
    ;
    assert(c * n >= 0) by (nonlinear_arith)
        requires
            c >= 0,
            n > 0,
    ;
    lemma_square_mono(c * n, a * UNIT);
    lemma_square_mono(a * UNIT, (c + 1) * n);
    if v < 0 {
        assert(-v * UNIT == -(v * UNIT)) by (nonlinear_arith);
        assert(-(v * UNIT) == a * UNIT);
    }
}

/// A vector of squared length `m`, scaled by `UNIT / root(m)` with components
/// rounded toward zero, has unit length within `UNIT_TOL`, provided that
/// `root(m) >= UNIT / 4`.
pub proof fn lemma_normalized_is_unit(x: int, y: int)
    requires
        root(x * x + y * y) >= UNIT / 4,
        -2 * UNIT <= x <= 2 * UNIT,
        -2 * UNIT <= y <= 2 * UNIT,
    ensures
        ({
            let n = root(x * x + y * y);
            let a = tdiv(x * UNIT, n);
            let b = tdiv(y * UNIT, n);
            UNIT * UNIT - UNIT_TOL <= a * a + b * b <= UNIT * UNIT + UNIT_TOL
        }),
{
    let m = x * x + y * y;
    assert(x * x >= 0 && y * y >= 0) by (nonlinear_arith);
    assert(exists|k: int| #[trigger] is_root(k, m)) by {
        lemma_root_exists(m);
    }
    let n = root(m);
    assert(is_root(n, m));
    lemma_component(x, n, m);
    lemma_component(y, n, m);
    let a = abs(x) * UNIT / n;
    let b = abs(y) * UNIT / n;
    let ta = tdiv(x * UNIT, n);
    let tb = tdiv(y * UNIT, n);
    assert(ta * ta == a * a) by (nonlinear_arith)
        requires
            ta == a || ta == -a,
    ;
    assert(tb * tb == b * b) by (nonlinear_arith)
        requires
            tb == b || tb == -b,
    ;
    let s = a * a + b * b;
    let u2 = UNIT * UNIT;
    // upper bound
    assert(s * (n * n) <= m * u2) by (nonlinear_arith)
        requires
            (a * n) * (a * n) <= (x * UNIT) * (x * UNIT),
            (b * n) * (b * n) <= (y * UNIT) * (y * UNIT),
            s == a * a + b * b,
            m == x * x + y * y,
            u2 == UNIT * UNIT,
    ;
    assert(m * u2 < (n + 1) * (n + 1) * u2) by (nonlinear_arith)
        requires
            m < (n + 1) * (n + 1),
            u2 > 0,
    ;
    assert(s <= u2 + UNIT_TOL) by (nonlinear_arith)
        requires
            s * (n * n) < (n + 1) * (n + 1) * u2,
            n >= UNIT / 4,
            u2 == UNIT * UNIT,
    ;
    // lower bound
    let pa = (a + 1) * n;
    let pb = (b + 1) * n;
    let xu = x * UNIT;
    let yu = y * UNIT;
    assert(pa * pa + pb * pb > xu * xu + yu * yu);
    assert(xu * xu + yu * yu == m * u2) by (nonlinear_arith)
        requires
            xu == x * UNIT,
            yu == y * UNIT,
            m == x * x + y * y,
            u2 == UNIT * UNIT,
    ;
    assert(pa * pa + pb * pb == ((a + 1) * (a + 1) + (b + 1) * (b + 1)) * (n * n)) by (nonlinear_arith)
        requires
            pa == (a + 1) * n,
            pb == (b + 1) * n,
    ;
    assert(m * u2 >= (n * n) * u2) by (nonlinear_arith)
        requires
            n * n <= m,
            u2 > 0,
    ;
    assert((a + 1) * (a + 1) + (b + 1) * (b + 1) > u2) by (nonlinear_arith)
        requires
            ((a + 1) * (a + 1) + (b + 1) * (b + 1)) * (n * n) > (n * n) * u2,
            n > 0,
    ;
    assert(s >= u2 - UNIT_TOL) by (nonlinear_arith)
        requires
            (a + 1) * (a + 1) + (b + 1) * (b + 1) > u2,
            s == a * a + b * b,
            0 <= a <= UNIT,
            0 <= b <= UNIT,
    ;
}

/// Every non-negative integer has an integer square root.
pub proof fn lemma_root_exists(m: int)
    requires
        m >= 0,
    ensures
        exists|k: int| #[trigger] is_root(k, m),
    decreases m,
{
    if m == 0 {
        assert(is_root(0, 0));
    } else {
        lemma_root_exists(m - 1);
        let k = choose|k: int| #[trigger] is_root(k, m - 1);
        if (k + 1) * (k + 1) <= m {
            assert((k + 2) * (k + 2) > m) by (nonlinear_arith)
                requires
                    m - 1 < (k + 1) * (k + 1),
                    k >= 0,
            ;
            assert(is_root(k + 1, m));
        } else {
            assert(is_root(k, m));
        }
    }
}

/// Scales `(x, y)` to length `UNIT`.
pub fn normalize(x: i64, y: i64) -> (r: Vec2)
    requires
        -2 * UNIT <= x <= 2 * UNIT,
        -2 * UNIT <= y <= 2 * UNIT,
        x * x + y * y >= UNIT * UNIT / 16,
    ensures
        r == normalized(x as int, y as int),
        is_unit(r),
        x >= 0 ==> r.x >= 0,
        x <= 0 ==> r.x <= 0,
        y >= 0 ==> r.y >= 0,
        y <= 0 ==> r.y <= 0,
{
    assert(x * x <= 4 * UNIT * UNIT && y * y <= 4 * UNIT * UNIT) by (nonlinear_arith)
        requires
            -2 * UNIT <= x <= 2 * UNIT,
            -2 * UNIT <= y <= 2 * UNIT,
    ;
    let m: u64 = (x * x + y * y) as u64;
    let n: u64 = isqrt(m);
    assert(n >= UNIT / 4) by (nonlinear_arith)
        requires
            m < (n + 1) * (n + 1),
            m >= UNIT * UNIT / 16,
    ;
    assert(n <= 4 * UNIT) by (nonlinear_arith)
        requires
            n * n <= m,
            m <= 8 * UNIT * UNIT,
    ;
    let rx = scale_trunc(x, UNIT, n as i64);
    let ry = scale_trunc(y, UNIT, n as i64);
    proof {
        lemma_normalized_is_unit(x as int, y as int);
        lemma_floor_bounds(abs(x as int) * UNIT, n as int);
        lemma_floor_bounds(abs(y as int) * UNIT, n as int);
        assert(abs(x as int) * UNIT >= 0) by (nonlinear_arith);
        assert(abs(y as int) * UNIT >= 0) by (nonlinear_arith);
        if x < 0 {
            assert(-(x * UNIT) == abs(x as int) * UNIT) by (nonlinear_arith)
                requires
                    x < 0,
            ;
        } else {
            assert(x * UNIT == abs(x as int) * UNIT);
        }
        if y < 0 {
            assert(-(y * UNIT) == abs(y as int) * UNIT) by (nonlinear_arith)
                requires
                    y < 0,
            ;
        } else {
            assert(y * UNIT == abs(y as int) * UNIT);
        }
    }
    Vec2 { x: rx, y: ry }
}


/// A full turn, in tenths of a degree.
pub const FULL_TURN: i64 = 3600;

/// Bhaskara's rational approximation of the sine over half a turn, for an angle
/// `x` in tenths of a degree between 0 and 1800, scaled by `UNIT`.
pub open spec fn half_wave(x: int) -> int {
    let t = x * (1800 - x);
    (4 * UNIT * t) / (4_050_000 - t)
}

/// Sine of an angle in tenths of a degree, scaled by `UNIT`.
pub open spec fn sine(a: int) -> int {
    let r = abs(a) % 3600;
    let s = if r <= 1800 {
        half_wave(r)
    } else {
        -half_wave(r - 1800)
    };
    if a < 0 {
        -s
    } else {
        s
    }
}

/// Cosine of an angle in tenths of a degree, scaled by `UNIT`.
pub open spec fn cosine(a: int) -> int {
    sine(a + 900)
}

proof fn lemma_product_range(x: int)
    requires
        0 <= x <= 1800,
    ensures
        0 <= x * (1800 - x) <= 810_000,
{
    assert(0 <= x * (1800 - x) <= 810_000) by (nonlinear_arith)
        requires
            0 <= x <= 1800,
    {
        assert(810_000 - x * (1800 - x) == (x - 900) * (x - 900));
    }
}

/// The half wave lies between 0 and `UNIT`.
pub proof fn lemma_half_wave_range(x: int)
    requires
        0 <= x <= 1800,
    ensures
        0 <= half_wave(x) <= UNIT,
{
    let t = x * (1800 - x);
    lemma_product_range(x);
    let num = 4 * UNIT * t;
    let den = 4_050_000 - t;
    assert(num <= UNIT * den && num >= 0) by (nonlinear_arith)
        requires
            num == 4 * UNIT * t,
            den == 4_050_000 - t,
            0 <= t <= 810_000,
    ;
    vstd::arithmetic::div_mod::lemma_div_is_ordered(num, UNIT * den, den);
    vstd::arithmetic::div_mod::lemma_div_multiples_vanish(UNIT as int, den);
    vstd::arithmetic::div_mod::lemma_div_pos_is_pos(num, den);
}

/// The half wave is symmetric about a quarter turn.
pub proof fn lemma_half_wave_symmetric(x: int)
    requires
        0 <= x <= 1800,
    ensures
        half_wave(1800 - x) == half_wave(x),
{
    assert((1800 - x) * (1800 - (1800 - x)) == x * (1800 - x)) by (nonlinear_arith);
}

/// The half wave increases over the first quarter turn.
pub proof fn lemma_half_wave_monotonic(x: int, y: int)
    requires
        0 <= x <= y <= 900,
    ensures
        half_wave(x) <= half_wave(y),
{
    let tx = x * (1800 - x);
    let ty = y * (1800 - y);
    assert(tx <= ty) by (nonlinear_arith)
        requires
            0 <= x <= y <= 900,
            tx == x * (1800 - x),
            ty == y * (1800 - y),
    {
        assert(ty - tx == (y - x) * (1800 - x - y));
    }
    lemma_product_range(x);
    lemma_product_range(y);
    let dx = 4_050_000 - tx;
    let dy = 4_050_000 - ty;
    assert(0 <= 4 * UNIT * tx <= 4 * UNIT * ty) by (nonlinear_arith)
        requires
            0 <= tx <= ty,
    ;
    vstd::arithmetic::div_mod::lemma_div_is_ordered(4 * UNIT * tx, 4 * UNIT * ty, dx);
    vstd::arithmetic::div_mod::lemma_div_is_ordered_by_denominator(4 * UNIT * ty, dy, dx);
}

/// The sine increases over `[-900, 900]` (a quarter turn either side of zero),
/// and is odd there.
pub proof fn lemma_sine_monotonic(a: int, b: int)
    requires
        -900 <= a <= b <= 900,
    ensures
        sine(a) <= sine(b),
        sine(-a) == -sine(a),
        -UNIT <= sine(a) <= UNIT,
        a >= 0 ==> sine(a) >= 0,
        a <= 0 ==> sine(a) <= 0,
{
    vstd::arithmetic::div_mod::lemma_small_mod(abs(a) as nat, 3600);
    vstd::arithmetic::div_mod::lemma_small_mod(abs(b) as nat, 3600);
    lemma_half_wave_range(abs(a));
    lemma_half_wave_range(abs(b));
    assert(half_wave(0) == 0);
    if 0 <= a {
        lemma_half_wave_monotonic(a, b);
    } else if b <= 0 {
        lemma_half_wave_monotonic(-b, -a);
    }
}

/// Over `[-750, 750]` (75 degrees either side) the cosine is at least
/// `UNIT / 4` and at most `UNIT`.
pub proof fn lemma_cosine_floor(a: int)
    requires
        -750 <= a <= 750,
    ensures
        UNIT / 4 <= cosine(a) <= UNIT,
{
    let r = a + 900;
    vstd::arithmetic::div_mod::lemma_small_mod(r as nat, 3600);
    lemma_half_wave_range(r);
    let num150 = 4 * UNIT * (150 * 1650);
    vstd::arithmetic::div_mod::lemma_fundamental_div_mod(num150, 3_802_500);
    vstd::arithmetic::div_mod::lemma_mod_bound(num150, 3_802_500);
    assert(half_wave(150) == 260355);
    if r <= 900 {
        lemma_half_wave_monotonic(150, r);
    } else {
        lemma_half_wave_symmetric(r);
        lemma_half_wave_monotonic(150, 1800 - r);
    }
}

fn half_wave_exec(x: i64) -> (r: i64)
    requires
        0 <= x <= 1800,
    ensures
        r == half_wave(x as int),
{
    proof {
        lemma_product_range(x as int);
    }
    let t: i64 = x * (1800 - x);
    assert(0 <= t <= 810_000);
    assert(0 <= 4 * UNIT * t <= 4 * UNIT * 810_000) by (nonlinear_arith)
        requires
            0 <= t <= 810_000,
    ;
    let num: i64 = 4 * UNIT * t;
    let den: i64 = 4_050_000 - t;
    num / den
}

/// Sine of `a` tenths of a degree, scaled by `UNIT`.
pub fn sin_deci(a: i64) -> (r: i64)
    requires
        -0x1_0000_0000_0000 <= a <= 0x1_0000_0000_0000,
    ensures
        r == sine(a as int),
        -UNIT <= r <= UNIT,
{
    let m: i64 = (if a < 0 { -a } else { a }) % FULL_TURN;
    let s = if m <= 1800 {
        proof {
            lemma_half_wave_range(m as int);
        }
        half_wave_exec(m)
    } else {
        proof {
            lemma_half_wave_range(m - 1800);
        }
        -half_wave_exec(m - 1800)
    };
    if a < 0 {
        -s
    } else {
        s
    }
}

/// Cosine of `a` tenths of a degree, scaled by `UNIT`.
pub fn cos_deci(a: i64) -> (r: i64)
    requires
        -0x8000_0000_0000 <= a <= 0x8000_0000_0000,
    ensures
        r == cosine(a as int),
        -UNIT <= r <= UNIT,
{
    sin_deci(a + 900)
}


/// Truncating division by a positive divisor preserves `<=`.
pub proof fn lemma_tdiv_monotonic(a: int, b: int, d: int)
    requires
        a <= b,
        d > 0,
    ensures
        tdiv(a, d) <= tdiv(b, d),
{
    if 0 <= a {
        vstd::arithmetic::div_mod::lemma_div_is_ordered(a, b, d);
    } else if b < 0 {
        vstd::arithmetic::div_mod::lemma_div_is_ordered(-b, -a, d);
    } else {
        vstd::arithmetic::div_mod::lemma_div_pos_is_pos(-a, d);
        vstd::arithmetic::div_mod::lemma_div_pos_is_pos(b, d);
    }
}

/// Truncating division of a value within `[-k, k]` stays within `[-k/d, k/d]`.
pub proof fn lemma_tdiv_bound(a: int, k: int, d: int)
    requires
        -k <= a <= k,
        d > 0,
    ensures
        -(k / d) <= tdiv(a, d) <= k / d,
{
    lemma_tdiv_monotonic(a, k, d);
    lemma_tdiv_monotonic(-k, a, d);
}

/// A unit vector's components lie within `[-2 * UNIT, 2 * UNIT]`, and its
/// squared length is at least `UNIT * UNIT / 16`.
pub proof fn lemma_unit_bounds(v: Vec2)
    requires
        is_unit(v),
    ensures
        -2 * UNIT <= v.x <= 2 * UNIT,
        -2 * UNIT <= v.y <= 2 * UNIT,
        v.x * v.x + v.y * v.y >= UNIT * UNIT / 16,
{
    let x = v.x as int;
    let y = v.y as int;
    assert(x * x >= 0 && y * y >= 0) by (nonlinear_arith);
    assert(-2 * UNIT <= x <= 2 * UNIT) by (nonlinear_arith)
        requires
            x * x <= UNIT * UNIT + UNIT_TOL,
    ;
    assert(-2 * UNIT <= y <= 2 * UNIT) by (nonlinear_arith)
        requires
            y * y <= UNIT * UNIT + UNIT_TOL,
    ;
}


/// Normalising a unit vector: the root of its squared length is at least
/// `UNIT / 4`, and the scaled components lie within `[-2 * UNIT, 2 * UNIT]`.
pub proof fn lemma_normalized_of_unit(v: Vec2)
    requires
        is_unit(v),
    ensures
        ({
            let x = v.x as int;
            let y = v.y as int;
            let n = root(x * x + y * y);
            &&& n >= UNIT / 4
            &&& -2 * UNIT <= tdiv(x * UNIT, n) <= 2 * UNIT
            &&& -2 * UNIT <= tdiv(y * UNIT, n) <= 2 * UNIT
        }),
{
    let x = v.x as int;
    let y = v.y as int;
    lemma_unit_bounds(v);
    let m = x * x + y * y;
    lemma_root_exists(m);
    let n = root(m);
    assert(is_root(n, m));
    assert(n >= UNIT / 4) by (nonlinear_arith)
        requires
            m < (n + 1) * (n + 1),
            m >= UNIT * UNIT / 16,
            n >= 0,
    ;
    lemma_normalized_is_unit(x, y);
    let a = tdiv(x * UNIT, n);
    let b = tdiv(y * UNIT, n);
    assert(a * a >= 0 && b * b >= 0) by (nonlinear_arith);
    assert(-2 * UNIT <= a <= 2 * UNIT) by (nonlinear_arith)
        requires
            a * a <= UNIT * UNIT + UNIT_TOL,
    ;
    assert(-2 * UNIT <= b <= 2 * UNIT) by (nonlinear_arith)
        requires
            b * b <= UNIT * UNIT + UNIT_TOL,
    ;
}

} // verus!
