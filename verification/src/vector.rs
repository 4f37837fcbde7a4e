//! Two-dimensional fixed-point vectors and their normalization.

use crate::fixed::{
    div_toward_zero, is_sqrt_floor, isqrt, lemma_sqrt_floor_exists, lemma_square_le,
    lemma_square_lt, sqrt_floor, LIMIT, UNIT,
};
use vstd::arithmetic::div_mod::lemma_fundamental_div_mod;
use vstd::prelude::*;

verus! {

/// How far, in millionths, the length of a normalized vector may be from one.
pub const UNIT_TOLERANCE: i64 = 3;

/// A point or a direction of the plane, in fixed-point coordinates.
#[derive(Clone, Copy, Debug, PartialEq, Eq, Structural)]
pub struct Vec2 {
    pub x: i64,
    pub y: i64,
}

impl Vec2 {
    /// The vector with the given coordinates.
    pub fn new(x: i64, y: i64) -> (v: Vec2)
        ensures
            v == (Vec2 { x, y }),
    {
        Vec2 { x, y }
    }

    /// The origin, which as a direction means "not yet chosen".
    pub open spec fn zero() -> Vec2 {
        Vec2 { x: 0, y: 0 }
    }

    /// Both coordinates are zero.
    pub open spec fn is_zero(self) -> bool {
        self.x == 0 && self.y == 0
    }

    /// Both coordinates are within [`LIMIT`] in magnitude.
    pub open spec fn within_limit(self) -> bool {
        -LIMIT <= self.x <= LIMIT && -LIMIT <= self.y <= LIMIT
    }

    /// The square of the length, in units of a millionth of a millionth.
    pub open spec fn length_squared(self) -> int {
        self.x * self.x + self.y * self.y
    }

    /// The length is one, up to [`UNIT_TOLERANCE`] millionths.
    pub open spec fn is_unit(self) -> bool {
        (UNIT - UNIT_TOLERANCE) * (UNIT - UNIT_TOLERANCE) <= self.length_squared() <= (UNIT
            + UNIT_TOLERANCE) * (UNIT + UNIT_TOLERANCE)
    }

    /// The length in millionths of a millionth, rounded down: the divisor
    /// that normalization uses.
    pub open spec fn fine_length(self) -> int {
        sqrt_floor(UNIT * UNIT * self.length_squared())
    }

    /// The vector scaled to unit length: each coordinate divided by the
    /// length, the quotient rounded toward zero.
    pub open spec fn normalized(self) -> Vec2 {
        Vec2 {
            x: div_toward_zero(self.x * UNIT * UNIT, self.fine_length()) as i64,
            y: div_toward_zero(self.y * UNIT * UNIT, self.fine_length()) as i64,
        }
    }

    /// Scales a vector other than zero to unit length.
    pub fn normalize(self) -> (n: Vec2)
        requires
            self.within_limit(),
            !self.is_zero(),
        ensures
            n == self.normalized(),
            n.is_unit(),
    {
        let x: i128 = self.x as i128;
        let y: i128 = self.y as i128;
        let one: i128 = UNIT as i128;
        assert(0 <= x * x <= LIMIT * LIMIT && 0 <= y * y <= LIMIT * LIMIT && x * x + y * y > 0)
            by (nonlinear_arith)
            requires
                -LIMIT <= x <= LIMIT,
                -LIMIT <= y <= LIMIT,
                x != 0 || y != 0,
        ;
        let square: i128 = x * x + y * y;
        assert(0 < one * one * square <= 2_000_000_000_000_000_000_000_000_000_000_000_000)
            by (nonlinear_arith)
            requires
                one == 1_000_000,
                0 < square <= 2 * (LIMIT * LIMIT),
                LIMIT == 1_000_000_000_000,
        ;
        let scaled: i128 = one * one * square;
        let length: i128 = isqrt(scaled as u128) as i128;
        proof {
            lemma_normalized_is_unit(self);
            lemma_fine_length_bounds(self);
            assert(length == self.fine_length());
        }
        assert(-LIMIT * 1_000_000_000_000 <= x * one * one <= LIMIT * 1_000_000_000_000 && -LIMIT
            * 1_000_000_000_000 <= y * one * one <= LIMIT * 1_000_000_000_000
            && -LIMIT * 1_000_000 <= x * one <= LIMIT * 1_000_000 && -LIMIT * 1_000_000 <= y * one
            <= LIMIT * 1_000_000) by (nonlinear_arith)
            requires
                one == 1_000_000,
                -LIMIT <= x <= LIMIT,
                -LIMIT <= y <= LIMIT,
        ;
        let nx: i128 = x * one * one / length;
        let ny: i128 = y * one * one / length;
        Vec2 { x: nx as i64, y: ny as i64 }
    }
}

/// The divisor of normalization is at least one and fits the machine.
pub proof fn lemma_fine_length_bounds(v: Vec2)
    requires
        v.within_limit(),
        !v.is_zero(),
    ensures
        is_sqrt_floor(UNIT * UNIT * v.length_squared(), v.fine_length()),
        UNIT <= v.fine_length() <= 2 * UNIT * LIMIT,
{
    let x = v.x as int;
    let y = v.y as int;
    assert(0 <= x * x <= LIMIT * LIMIT && 0 <= y * y <= LIMIT * LIMIT && x * x + y * y > 0)
        by (nonlinear_arith)
        requires
            -LIMIT <= x <= LIMIT,
            -LIMIT <= y <= LIMIT,
            x != 0 || y != 0,
    ;
    let square = v.length_squared();
    let q = UNIT * UNIT * square;
    let top = 2 * UNIT * LIMIT;
    assert(UNIT * UNIT <= q <= top * top) by (nonlinear_arith)
        requires
            q == UNIT * UNIT * square,
            1 <= square <= 2 * (LIMIT * LIMIT),
            top == 2 * UNIT * LIMIT,
            UNIT > 0,
            LIMIT > 0,
    ;
    lemma_sqrt_floor_exists(q);
    let l = v.fine_length();
    if l < UNIT {
        lemma_square_le(l + 1, UNIT as int);
    }
    if l > top {
        lemma_square_lt(top, l);
    }
}

/// The two quotients `p` and `q` of normalization, taken of the magnitudes
/// `a` and `b` of the coordinates, span a vector of unit length.
proof fn lemma_quotients_are_unit(a: int, b: int, l: int, p: int, q: int)
    requires
        0 <= a,
        0 <= b,
        a + b > 0,
        is_sqrt_floor(UNIT * UNIT * (a * a + b * b), l),
        p == (a * UNIT * UNIT) / l,
        q == (b * UNIT * UNIT) / l,
    ensures
        (UNIT - UNIT_TOLERANCE) * (UNIT - UNIT_TOLERANCE) <= p * p + q * q <= (UNIT
            + UNIT_TOLERANCE) * (UNIT + UNIT_TOLERANCE),
        0 <= p <= UNIT,
        0 <= q <= UNIT,
{
    let s = UNIT as int;
    let t = s * s;
    let big = t * (a * a + b * b);
    assert(a * a + b * b >= 1) by (nonlinear_arith)
        requires
            0 <= a,
            0 <= b,
            a + b > 0,
    ;
    assert(t == 1_000_000_000_000) by (nonlinear_arith)
        requires
            t == s * s,
            s == 1_000_000,
    ;
    // The divisor is at least one.
    assert(l >= s) by {
        assert(big >= t) by (nonlinear_arith)
            requires
                big == t * (a * a + b * b),
                a * a + b * b >= 1,
                t > 0,
        ;
        if l < s {
            lemma_square_le(l + 1, s);
        }
    }
    let m = a * t;
    let n = b * t;
    assert(a * UNIT * UNIT == m && b * UNIT * UNIT == n) by (nonlinear_arith)
        requires
            m == a * t,
            n == b * t,
            t == UNIT * UNIT,
    ;
    assert(m >= 0 && n >= 0) by (nonlinear_arith)
        requires
            m == a * t,
            n == b * t,
            a >= 0,
            b >= 0,
            t > 0,
    ;
    lemma_fundamental_div_mod(m, l);
    lemma_fundamental_div_mod(n, l);
    assert(p >= 0 && q >= 0 && p * l <= m < (p + 1) * l && q * l <= n < (q + 1) * l)
        by (nonlinear_arith)
        requires
            m == l * p + m % l,
            n == l * q + n % l,
            0 <= m % l < l,
            0 <= n % l < l,
            m >= 0,
            n >= 0,
            l > 0,
    ;
    // Squares of the two sides of each bound.
    lemma_square_le(p * l, m);
    lemma_square_le(q * l, n);
    lemma_square_lt(m, (p + 1) * l);
    lemma_square_lt(n, (q + 1) * l);
    let ll = l * l;
    assert((p * l) * (p * l) == (p * p) * ll && (q * l) * (q * l) == (q * q) * ll && ((p + 1) * l)
        * ((p + 1) * l) == ((p + 1) * (p + 1)) * ll && ((q + 1) * l) * ((q + 1) * l) == ((q + 1)
        * (q + 1)) * ll) by (nonlinear_arith)
        requires
            ll == l * l,
    ;
    assert(m * m + n * n == t * big) by (nonlinear_arith)
        requires
            m == a * t,
            n == b * t,
            big == t * (a * a + b * b),
    ;
    let low = p * p + q * q;
    let high = (p + 1) * (p + 1) + (q + 1) * (q + 1);
    assert(low * ll <= t * big < high * ll) by (nonlinear_arith)
        requires
            (p * p) * ll + (q * q) * ll <= t * big,
            t * big < ((p + 1) * (p + 1)) * ll + ((q + 1) * (q + 1)) * ll,
            low == p * p + q * q,
            high == (p + 1) * (p + 1) + (q + 1) * (q + 1),
    ;
    // From above: the squared length is below that of one and a millionth.
    assert(low < (s + 1) * (s + 1)) by (nonlinear_arith)
        requires
            low * ll <= t * big,
            big < (l + 1) * (l + 1),
            ll == l * l,
            t == s * s,
            l >= s,
            s > 0,
            low >= 0,
    {
        if low >= (s + 1) * (s + 1) {
            assert(low * ll >= ((s + 1) * (s + 1)) * ll);
            assert(((s + 1) * l) * ((s + 1) * l) == ((s + 1) * (s + 1)) * ll);
            assert((s * (l + 1)) * (s * (l + 1)) == t * ((l + 1) * (l + 1)));
            assert((s + 1) * l >= s * (l + 1));
            assert(((s + 1) * l) * ((s + 1) * l) >= (s * (l + 1)) * (s * (l + 1)));
            assert(t * big < t * ((l + 1) * (l + 1)));
        }
    }
    assert(low >= 0 && p * p >= 0 && q * q >= 0) by (nonlinear_arith)
        requires
            low == p * p + q * q,
    ;
    assert(p <= s) by {
        if p > s {
            lemma_square_le(s + 1, p);
        }
    }
    assert(q <= s) by {
        if q > s {
            lemma_square_le(s + 1, q);
        }
    }
    // From below: rounding each coordinate loses less than a millionth.
    assert(high > t) by (nonlinear_arith)
        requires
            t * big < high * ll,
            big >= ll,
            ll == l * l,
            l > 0,
            t > 0,
    {
        assert(t * big >= t * ll);
        if high <= t {
            assert(high * ll <= t * ll);
        }
    }
    assert(high == low + 2 * p + 2 * q + 2) by (nonlinear_arith)
        requires
            low == p * p + q * q,
            high == (p + 1) * (p + 1) + (q + 1) * (q + 1),
    ;
}

/// Normalizing yields unit length: for every vector other than zero whose
/// coordinates are within the limit, the normalized vector is one long, up to
/// the tolerance, and neither coordinate exceeds one.
pub proof fn lemma_normalized_is_unit(v: Vec2)
    requires
        v.within_limit(),
        !v.is_zero(),
    ensures
        v.normalized().is_unit(),
        -UNIT <= v.normalized().x <= UNIT,
        -UNIT <= v.normalized().y <= UNIT,
        v.normalized().x == div_toward_zero(v.x * UNIT * UNIT, v.fine_length()),
        v.normalized().y == div_toward_zero(v.y * UNIT * UNIT, v.fine_length()),
{
    lemma_fine_length_bounds(v);
    let l = v.fine_length();
    let a: int = if v.x >= 0 {
        v.x as int
    } else {
        -(v.x as int)
    };
    let b: int = if v.y >= 0 {
        v.y as int
    } else {
        -(v.y as int)
    };
    assert(a * a == v.x * v.x && b * b == v.y * v.y) by (nonlinear_arith)
        requires
            a == v.x || a == -v.x,
            b == v.y || b == -v.y,
    ;
    let p = (a * UNIT * UNIT) / l;
    let q = (b * UNIT * UNIT) / l;
    lemma_quotients_are_unit(a, b, l, p, q);
    assert(v.x * UNIT * UNIT == if v.x >= 0 {
        a * UNIT * UNIT
    } else {
        -(a * UNIT * UNIT)
    }) by (nonlinear_arith)
        requires
            a == if v.x >= 0 {
                v.x as int
            } else {
                -(v.x as int)
            },
    ;
    assert(v.y * UNIT * UNIT == if v.y >= 0 {
        b * UNIT * UNIT
    } else {
        -(b * UNIT * UNIT)
    }) by (nonlinear_arith)
        requires
            b == if v.y >= 0 {
                v.y as int
            } else {
                -(v.y as int)
            },
    ;
    assert(a * UNIT * UNIT >= 0 && b * UNIT * UNIT >= 0) by (nonlinear_arith)
        requires
            a >= 0,
            b >= 0,
    ;
    let nx = div_toward_zero(v.x * UNIT * UNIT, l);
    let ny = div_toward_zero(v.y * UNIT * UNIT, l);
    assert(nx == p || nx == -p);
    assert(ny == q || ny == -q);
    assert(nx * nx == p * p && ny * ny == q * q) by (nonlinear_arith)
        requires
            nx == p || nx == -p,
            ny == q || ny == -q,
    ;
}

/// Normalizing keeps the way a vector points: no coordinate changes its
/// sign, and a coordinate is not rounded away to zero unless the other one is
/// a million times as large.
pub proof fn lemma_normalized_keeps_signs(v: Vec2)
    requires
        v.within_limit(),
        !v.is_zero(),
    ensures
        v.x >= 0 ==> v.normalized().x >= 0,
        v.x <= 0 ==> v.normalized().x <= 0,
        v.y >= 0 ==> v.normalized().y >= 0,
        v.y <= 0 ==> v.normalized().y <= 0,
        v.x != 0 && v.y * v.y <= (UNIT * UNIT - 1) * (v.x * v.x) ==> v.normalized().x != 0,
        v.y != 0 && v.x * v.x <= (UNIT * UNIT - 1) * (v.y * v.y) ==> v.normalized().y != 0,
{
    lemma_normalized_is_unit(v);
    lemma_fine_length_bounds(v);
    let l = v.fine_length();
    lemma_quotient_sign(v.x as int, v.y as int, l);
    lemma_quotient_sign(v.y as int, v.x as int, l);
    assert(v.y * v.y + v.x * v.x == v.x * v.x + v.y * v.y);
}

/// The sign of one quotient of normalization: `c` is the coordinate that is
/// divided, `d` the other one and `l` the divisor.
proof fn lemma_quotient_sign(c: int, d: int, l: int)
    requires
        l >= UNIT,
        is_sqrt_floor(UNIT * UNIT * (c * c + d * d), l),
    ensures
        c >= 0 ==> div_toward_zero(c * UNIT * UNIT, l) >= 0,
        c <= 0 ==> div_toward_zero(c * UNIT * UNIT, l) <= 0,
        c != 0 && d * d <= (UNIT * UNIT - 1) * (c * c) ==> div_toward_zero(c * UNIT * UNIT, l)
            != 0,
{
    let t: int = 1_000_000_000_000;
    assert(UNIT * UNIT == t) by (nonlinear_arith)
        requires
            UNIT == 1_000_000,
            t == 1_000_000_000_000,
    ;
    let a = if c >= 0 {
        c
    } else {
        -c
    };
    let n = a * t;
    assert(n >= 0 && a * UNIT * UNIT == n) by (nonlinear_arith)
        requires
            n == a * t,
            a >= 0,
            t == UNIT * UNIT,
            t > 0,
    ;
    assert(c * UNIT * UNIT == if c >= 0 {
        n
    } else {
        -n
    }) by (nonlinear_arith)
        requires
            n == a * t,
            t == UNIT * UNIT,
            a == if c >= 0 {
                c
            } else {
                -c
            },
    ;
    lemma_fundamental_div_mod(n, l);
    assert(n / l >= 0) by (nonlinear_arith)
        requires
            n == l * (n / l) + n % l,
            0 <= n % l < l,
            n >= 0,
            l > 0,
    ;
    if c != 0 && d * d <= (UNIT * UNIT - 1) * (c * c) {
        // The divisor is no larger than what it divides.
        let big = t * (c * c + d * d);
        assert(a * a == c * c) by (nonlinear_arith)
            requires
                a == c || a == -c,
        ;
        assert(big <= n * n) by (nonlinear_arith)
            requires
                big == t * (c * c + d * d),
                d * d <= (t - 1) * (c * c),
                n == a * t,
                a * a == c * c,
                t > 0,
        {
            assert(c * c + d * d <= t * (c * c));
            assert(t * (c * c + d * d) <= t * (t * (c * c)));
            assert(n * n == t * (t * (a * a)));
        }
        assert(l <= n) by {
            if l > n {
                lemma_square_lt(n, l);
            }
        }
        assert(n / l >= 1) by (nonlinear_arith)
            requires
                n == l * (n / l) + n % l,
                0 <= n % l < l,
                n >= l,
                l > 0,
        ;
    }
}

/// Neither component of a unit vector exceeds one by more than the tolerance.
pub proof fn lemma_unit_components(v: Vec2)
    ensures
        v.is_unit() ==> -(UNIT + UNIT_TOLERANCE) <= v.x <= UNIT + UNIT_TOLERANCE && -(UNIT
            + UNIT_TOLERANCE) <= v.y <= UNIT + UNIT_TOLERANCE,
{
    let reach = UNIT + UNIT_TOLERANCE;
    let x = v.x as int;
    let y = v.y as int;
    if v.is_unit() {
        assert(-reach <= x <= reach && -reach <= y <= reach) by (nonlinear_arith)
            requires
                x * x + y * y <= reach * reach,
                reach > 0,
        {
            assert(x * x >= 0 && y * y >= 0);
            if x > reach {
                assert(x * x > reach * reach);
            }
            if x < -reach {
                assert(x * x > reach * reach);
            }
            if y > reach {
                assert(y * y > reach * reach);
            }
            if y < -reach {
                assert(y * y > reach * reach);
            }
        }
    }
}

/// A unit vector is not zero.
pub proof fn lemma_unit_is_not_zero(v: Vec2)
    requires
        v.is_unit(),
    ensures
        !v.is_zero(),
{
    assert((UNIT - UNIT_TOLERANCE) * (UNIT - UNIT_TOLERANCE) > 0) by (nonlinear_arith)
        requires
            UNIT == 1_000_000,
            UNIT_TOLERANCE == 3,
    ;
    assert(v.is_zero() ==> v.length_squared() == 0) by (nonlinear_arith);
}

} // verus!
