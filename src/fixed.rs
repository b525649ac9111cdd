//! Fixed-point numbers and 3-vectors.
//!
//! A world quantity `q` is stored as the integer `q * ONE`, so `1500` is one
//! and a half world units (or seconds, radians, scale factors).
use vstd::prelude::*;

verus! {

/// Fixed-point units per world unit.
pub const ONE: i64 = 1000;

/// Largest magnitude of any coordinate (a bound of the machine words used).
pub const COORD_LIMIT: i64 = 1_000_000_000_000;

/// Largest magnitude of any walk speed or velocity component.
pub const SPEED_LIMIT: i64 = 1_000_000_000_000;

/// A 3-vector of fixed-point components.
#[derive(Clone, Copy, Debug, PartialEq, Eq, Structural)]
pub struct Vec3 {
    pub x: i64,
    pub y: i64,
    pub z: i64,
}

impl Vec3 {
    pub open spec fn is_zero(self) -> bool {
        self.x == 0 && self.y == 0 && self.z == 0
    }

    /// Every component lies in `[-limit, limit]`.
    pub open spec fn bounded(self, limit: int) -> bool {
        -limit <= self.x <= limit && -limit <= self.y <= limit && -limit <= self.z <= limit
    }

    /// The squared Euclidean length.
    pub open spec fn norm_sq(self) -> int {
        self.x * self.x + self.y * self.y + self.z * self.z
    }

    pub fn new(x: i64, y: i64, z: i64) -> (r: Vec3)
        ensures
            r.x == x && r.y == y && r.z == z,
    {
        Vec3 { x, y, z }
    }

    pub fn zero() -> (r: Vec3)
        ensures
            r.is_zero(),
    {
        Vec3 { x: 0, y: 0, z: 0 }
    }
}

/// Integer division rounding toward zero, for a positive divisor.
pub open spec fn div_trunc(a: int, b: int) -> int {
    if a >= 0 {
        a / b
    } else {
        -((-a) / b)
    }
}

/// `div_trunc` on machine integers.
pub fn div_trunc_i128(a: i128, b: i128) -> (q: i128)
    requires
        b > 0,
        a > i128::MIN,
    ensures
        q == div_trunc(a as int, b as int),
{
    if a >= 0 {
        a / b
    } else {
        -((-a) / b)
    }
}

/// Rounding toward zero never increases the magnitude, and misses the exact
/// quotient by less than one.
pub proof fn lemma_div_trunc_bounds(a: int, b: int)
    requires
        b > 0,
    ensures
        a >= 0 ==> 0 <= div_trunc(a, b) && div_trunc(a, b) * b <= a && a < (div_trunc(a, b) + 1) * b,
        a < 0 ==> div_trunc(a, b) <= 0 && a <= div_trunc(a, b) * b && (div_trunc(a, b) - 1) * b < a,
{
    if a >= 0 {
        vstd::arithmetic::div_mod::lemma_fundamental_div_mod(a, b);
        assert(0 <= a / b) by {
            vstd::arithmetic::div_mod::lemma_div_pos_is_pos(a, b);
        }
        assert(a / b * b == b * (a / b)) by (nonlinear_arith);
        assert((a / b + 1) * b == b * (a / b) + b) by (nonlinear_arith);
    } else {
        vstd::arithmetic::div_mod::lemma_fundamental_div_mod(-a, b);
        assert(0 <= (-a) / b) by {
            vstd::arithmetic::div_mod::lemma_div_pos_is_pos(-a, b);
        }
        assert(-((-a) / b) * b == -(b * ((-a) / b))) by (nonlinear_arith);
        assert((-((-a) / b) - 1) * b == -(b * ((-a) / b)) - b) by (nonlinear_arith);
    }
}

/// `r` is the least natural number whose square reaches `n`.
pub open spec fn is_ceil_sqrt(n: int, r: int) -> bool {
    0 <= r && n <= r * r && (r == 0 || (r - 1) * (r - 1) < n)
}

/// Largest argument accepted by `ceil_sqrt`.
pub const SQRT_ARG_LIMIT: u128 = 1_267_650_600_228_229_401_496_703_205_376;

/// The least natural number whose square is at least `n`.
pub fn ceil_sqrt(n: u128) -> (r: u128)
    requires
        n <= SQRT_ARG_LIMIT,
    ensures
        is_ceil_sqrt(n as int, r as int),
        r <= 1_125_899_906_842_624,
{
    let mut lo: u128 = 0;
    let mut hi: u128 = 1_125_899_906_842_624;
    assert(hi * hi == SQRT_ARG_LIMIT);
    while lo < hi
        invariant
            lo <= hi <= 1_125_899_906_842_624,
            n <= hi * hi,
            lo == 0 || (lo - 1) * (lo - 1) < n,
        decreases hi - lo,
    {
        let mid: u128 = lo + (hi - lo) / 2;
        assert(mid * mid <= 1_125_899_906_842_624 * 1_125_899_906_842_624) by (nonlinear_arith)
            requires
                mid <= 1_125_899_906_842_624,
        ;
        if mid * mid >= n {
            hi = mid;
        } else {
            lo = mid + 1;
        }
    }
    lo
}

/// The least natural number whose square is at least `n`.
pub open spec fn ceil_sqrt_spec(n: int) -> int {
    choose|r: int| is_ceil_sqrt(n, r)
}

/// A number has at most one ceiling square root.
pub proof fn lemma_ceil_sqrt_unique(n: int, a: int, b: int)
    requires
        is_ceil_sqrt(n, a),
        is_ceil_sqrt(n, b),
    ensures
        a == b,
{
    if a < b {
        assert(a * a <= (b - 1) * (b - 1)) by (nonlinear_arith)
            requires
                0 <= a <= b - 1,
        ;
    } else if b < a {
        assert(b * b <= (a - 1) * (a - 1)) by (nonlinear_arith)
            requires
                0 <= b <= a - 1,
        ;
    }
}

/// Every natural number has a ceiling square root.
pub proof fn lemma_ceil_sqrt_exists(n: nat)
    ensures
        is_ceil_sqrt(n as int, ceil_sqrt_spec(n as int)),
    decreases n,
{
    if n == 0 {
        assert(is_ceil_sqrt(0, 0));
    } else {
        lemma_ceil_sqrt_exists((n - 1) as nat);
        let r = ceil_sqrt_spec(n - 1);
        if n <= r * r {
            assert(is_ceil_sqrt(n as int, r));
        } else {
            assert((r + 1) * (r + 1) == r * r + 2 * r + 1) by (nonlinear_arith);
            assert(((r + 1) - 1) * ((r + 1) - 1) == r * r);
            assert(is_ceil_sqrt(n as int, r + 1));
        }
    }
}

/// Whatever satisfies `is_ceil_sqrt` is the ceiling square root.
pub proof fn lemma_ceil_sqrt_is(n: int, r: int)
    requires
        is_ceil_sqrt(n, r),
    ensures
        ceil_sqrt_spec(n) == r,
{
    lemma_ceil_sqrt_unique(n, r, ceil_sqrt_spec(n));
}

} // verus!
