//! Logical world units in fixed point: one world unit is a million micro-units.
//! Velocities are micro-units per millisecond, accelerations micro-units per
//! square millisecond, so integration over whole milliseconds is exact.
use vstd::prelude::*;
use vstd::arithmetic::div_mod::{lemma_fundamental_div_mod, lemma_fundamental_div_mod_converse, lemma_mod_pos_bound};

verus! {

/// Micro-units in one world unit.
pub const UNIT: i64 = 1_000_000;

/// Largest magnitude of any coordinate or velocity component; arithmetic saturates here.
pub const WORLD_LIMIT: i64 = 2_000_000_000;

/// Half the logical screen width (the screen is fifty units across).
pub const HALF_SCREEN_WIDTH: i64 = 25_000_000;

/// Half the logical screen height (fifty units across at 16:9).
pub const HALF_SCREEN_HEIGHT: i64 = 14_062_500;

/// The top edge of the screen.
pub const TOP: i64 = HALF_SCREEN_HEIGHT;

/// The bottom edge of the screen.
pub const BOTTOM: i64 = -HALF_SCREEN_HEIGHT;

/// The left edge of the screen.
pub const LEFT: i64 = -HALF_SCREEN_WIDTH;

/// The right edge of the screen.
pub const RIGHT: i64 = HALF_SCREEN_WIDTH;

/// Clamps a mathematical integer to the representable world range.
pub open spec fn saturate(v: int) -> int {
    if v > WORLD_LIMIT {
        WORLD_LIMIT as int
    } else if v < -WORLD_LIMIT {
        -WORLD_LIMIT
    } else {
        v
    }
}

pub open spec fn in_world(v: int) -> bool {
    -WORLD_LIMIT <= v <= WORLD_LIMIT
}

/// Saturating repeatedly while moving by the same amount `d` is saturating once at the end:
/// from a point in the world range, `saturate(saturate(x + k d) + d) == saturate(x + (k + 1) d)`.
pub proof fn lemma_saturate_step(x: int, d: int, k: nat)
    requires
        in_world(x),
    ensures
        saturate(saturate(x + k * d) + d) == saturate(x + (k + 1) * d),
{
    let e = k * d;
    assert((k + 1) * d == e + d) by (nonlinear_arith) requires e == k * d;
    if d >= 0 {
        assert(e >= 0) by (nonlinear_arith) requires e == k * d, d >= 0, k >= 0;
    } else {
        assert(e <= 0) by (nonlinear_arith) requires e == k * d, d < 0, k >= 0;
    }
}

/// For a positive divisor, `/` is floor division: the quotient times the divisor is at most
/// the dividend, and less than a divisor away from it.
pub proof fn lemma_floor_div_bounds(a: int, b: int)
    requires
        b > 0,
    ensures
        b * (a / b) <= a,
        a < b * (a / b) + b,
{
    lemma_fundamental_div_mod(a, b);
    if a >= 0 {
        lemma_mod_pos_bound(a, b);
    } else {
        let n = -(a + 1);
        lemma_fundamental_div_mod(n, b);
        lemma_mod_pos_bound(n, b);
        let q = n / b;
        let r = b - n % b - 1;
        assert(a == (-q - 1) * b + r) by (nonlinear_arith)
            requires
                n == b * q + n % b,
                n == -(a + 1),
                r == b - n % b - 1,
        ;
        lemma_fundamental_div_mod_converse(a, b, -q - 1, r);
        assert(b * (a / b) == (-q - 1) * b) by (nonlinear_arith)
            requires
                a / b == -q - 1,
        ;
    }
}

/// Floor division of `a` by a positive `b`.
pub fn floor_div(a: i128, b: i128) -> (r: i128)
    requires
        b > 0,
    ensures
        r == a / b,
{
    if a >= 0 {
        a / b
    } else {
        let n: i128 = -(a + 1);
        let q: i128 = n / b;
        proof {
            lemma_fundamental_div_mod(n as int, b as int);
            lemma_mod_pos_bound(n as int, b as int);
            let r = b - n % b - 1;
            assert(a == (-q - 1) * b + r) by (nonlinear_arith)
                requires
                    n == b * q + n % b,
                    n == -(a + 1),
                    r == b - n % b - 1,
            ;
            lemma_fundamental_div_mod_converse(a as int, b as int, -q - 1, r);
        }
        -q - 1
    }
}

/// Clamps to the world range; the result always fits an `i64`.
pub fn saturate_i128(v: i128) -> (r: i64)
    ensures
        r == saturate(v as int),
{
    if v > WORLD_LIMIT as i128 {
        WORLD_LIMIT
    } else if v < -(WORLD_LIMIT as i128) {
        -WORLD_LIMIT
    } else {
        v as i64
    }
}

/// A scalar logical distance, in micro-units.
#[derive(Clone, Copy, Debug, PartialEq, Eq, Structural, PartialOrd, Ord, Hash, Default)]
pub struct WorldUnit(pub i64);

impl View for WorldUnit {
    type V = int;

    open spec fn view(&self) -> int {
        self.0 as int
    }
}

impl WorldUnit {
    pub open spec fn wf(self) -> bool {
        in_world(self@)
    }

    /// A distance of `micros` micro-units, saturated to the world range.
    pub fn new(micros: i64) -> (r: WorldUnit)
        ensures
            r@ == saturate(micros as int),
    {
        WorldUnit(saturate_i128(micros as i128))
    }

    /// The horizontal distance that is the fraction `num / den` of half the screen width
    /// (so `1/1` is the right edge, `-1/1` the left), rounded down.
    pub fn normalized_x(num: i64, den: i64) -> (r: WorldUnit)
        requires
            den > 0,
            -den <= num <= den,
        ensures
            r@ == num * HALF_SCREEN_WIDTH / (den as int),
            r.wf(),
    {
        proof { lemma_fraction_in_range(num as int, den as int, HALF_SCREEN_WIDTH as int); }
        WorldUnit(floor_div(num as i128 * HALF_SCREEN_WIDTH as i128, den as i128) as i64)
    }

    /// The vertical distance that is the fraction `num / den` of half the screen height
    /// (so `1/1` is the top edge, `-1/1` the bottom), rounded down.
    pub fn normalized_y(num: i64, den: i64) -> (r: WorldUnit)
        requires
            den > 0,
            -den <= num <= den,
        ensures
            r@ == num * HALF_SCREEN_HEIGHT / (den as int),
            r.wf(),
    {
        proof { lemma_fraction_in_range(num as int, den as int, HALF_SCREEN_HEIGHT as int); }
        WorldUnit(floor_div(num as i128 * HALF_SCREEN_HEIGHT as i128, den as i128) as i64)
    }

    /// The raw number of micro-units.
    pub fn to_untyped(self) -> (r: i64)
        ensures
            r == self@,
    {
        self.0
    }

    pub fn abs(self) -> (r: WorldUnit)
        requires
            self.wf(),
        ensures
            r@ == (if self@ < 0 { -self@ } else { self@ }),
            r.wf(),
    {
        if self.0 < 0 {
            WorldUnit(-self.0)
        } else {
            self
        }
    }

    pub fn squared(self) -> (r: i128)
        ensures
            r == self@ * self@,
    {
        proof { lemma_i64_product_fits(self@, self@); }
        self.0 as i128 * self.0 as i128
    }

    pub fn plus(self, o: WorldUnit) -> (r: WorldUnit)
        ensures
            r@ == saturate(self@ + o@),
    {
        WorldUnit(saturate_i128(self.0 as i128 + o.0 as i128))
    }

    pub fn minus(self, o: WorldUnit) -> (r: WorldUnit)
        ensures
            r@ == saturate(self@ - o@),
    {
        WorldUnit(saturate_i128(self.0 as i128 - o.0 as i128))
    }

    pub fn neg(self) -> (r: WorldUnit)
        ensures
            r@ == saturate(-self@),
    {
        WorldUnit(saturate_i128(-(self.0 as i128)))
    }

    /// Multiplies by a whole number.
    pub fn times(self, k: i64) -> (r: WorldUnit)
        ensures
            r@ == saturate(self@ * k),
    {
        proof { lemma_i64_product_fits(self@, k as int); }
        WorldUnit(saturate_i128(self.0 as i128 * k as i128))
    }

    /// Multiplies by the fraction `num / den`, rounding down.
    pub fn scaled(self, num: i64, den: i64) -> (r: WorldUnit)
        requires
            den > 0,
        ensures
            r@ == saturate(self@ * num / (den as int)),
    {
        proof { lemma_i64_product_fits(self@, num as int); }
        WorldUnit(saturate_i128(floor_div(self.0 as i128 * num as i128, den as i128)))
    }

    /// The smaller of the two.
    pub fn min(self, o: WorldUnit) -> (r: WorldUnit)
        ensures
            r@ == (if self@ <= o@ { self@ } else { o@ }),
    {
        if self.0 <= o.0 { self } else { o }
    }

    /// The larger of the two.
    pub fn max(self, o: WorldUnit) -> (r: WorldUnit)
        ensures
            r@ == (if self@ >= o@ { self@ } else { o@ }),
    {
        if self.0 >= o.0 { self } else { o }
    }
}

pub proof fn lemma_i64_product_fits(a: int, b: int)
    requires
        i64::MIN <= a <= i64::MAX,
        i64::MIN <= b <= i64::MAX,
    ensures
        -0x4000_0000_0000_0000_0000_0000_0000_0000 <= a * b <= 0x4000_0000_0000_0000_0000_0000_0000_0000,
{
    assert(-0x4000_0000_0000_0000_0000_0000_0000_0000 <= a * b <= 0x4000_0000_0000_0000_0000_0000_0000_0000)
        by (nonlinear_arith)
        requires
            -0x8000_0000_0000_0000 <= a <= 0x8000_0000_0000_0000,
            -0x8000_0000_0000_0000 <= b <= 0x8000_0000_0000_0000,
    ;
}

/// A fraction between -1 and 1 of a length in the world range stays in the world range.
proof fn lemma_fraction_in_range(num: int, den: int, len: int)
    requires
        den > 0,
        -den <= num <= den,
        0 <= len <= WORLD_LIMIT,
    ensures
        -len <= num * len / den <= len,
{
    lemma_floor_div_bounds(num * len, den);
    let q = num * len / den;
    assert(-den * len <= num * len <= den * len) by (nonlinear_arith)
        requires
            -den <= num <= den,
            len >= 0,
    ;
    assert(-len <= q <= len) by (nonlinear_arith)
        requires
            den * q <= num * len,
            num * len < den * q + den,
            -den * len <= num * len <= den * len,
            den > 0,
    ;
}

/// A pair of world units.
#[derive(Clone, Copy, Debug, PartialEq, Eq, Structural, Hash, Default)]
pub struct WorldVec2 {
    pub x: WorldUnit,
    pub y: WorldUnit,
}

impl View for WorldVec2 {
    type V = (int, int);

    open spec fn view(&self) -> (int, int) {
        (self.x@, self.y@)
    }
}

pub open spec fn dot_spec(a: (int, int), b: (int, int)) -> int {
    a.0 * b.0 + a.1 * b.1
}

impl WorldVec2 {
    pub open spec fn wf(self) -> bool {
        self.x.wf() && self.y.wf()
    }

    pub fn new(x: WorldUnit, y: WorldUnit) -> (r: WorldVec2)
        ensures
            r.x == x,
            r.y == y,
    {
        WorldVec2 { x, y }
    }

    pub fn zero() -> (r: WorldVec2)
        ensures
            r@ == (0int, 0int),
            r.wf(),
    {
        WorldVec2 { x: WorldUnit(0), y: WorldUnit(0) }
    }

    /// The point at the fractions `x_num / den` of half the screen width and `y_num / den` of
    /// half the screen height from the center.
    pub fn new_normalized(x_num: i64, y_num: i64, den: i64) -> (r: WorldVec2)
        requires
            den > 0,
            -den <= x_num <= den,
            -den <= y_num <= den,
        ensures
            r@ == (x_num * HALF_SCREEN_WIDTH / (den as int), y_num * HALF_SCREEN_HEIGHT / (den as int)),
            r.wf(),
    {
        WorldVec2 { x: WorldUnit::normalized_x(x_num, den), y: WorldUnit::normalized_y(y_num, den) }
    }

    pub fn plus(self, o: WorldVec2) -> (r: WorldVec2)
        ensures
            r@ == (saturate(self@.0 + o@.0), saturate(self@.1 + o@.1)),
    {
        WorldVec2 { x: self.x.plus(o.x), y: self.y.plus(o.y) }
    }

    pub fn minus(self, o: WorldVec2) -> (r: WorldVec2)
        ensures
            r@ == (saturate(self@.0 - o@.0), saturate(self@.1 - o@.1)),
    {
        WorldVec2 { x: self.x.minus(o.x), y: self.y.minus(o.y) }
    }

    pub fn neg(self) -> (r: WorldVec2)
        ensures
            r@ == (saturate(-self@.0), saturate(-self@.1)),
    {
        WorldVec2 { x: self.x.neg(), y: self.y.neg() }
    }

    /// Multiplies both components by a whole number.
    pub fn times(self, k: i64) -> (r: WorldVec2)
        ensures
            r@ == (saturate(self@.0 * k), saturate(self@.1 * k)),
    {
        WorldVec2 { x: self.x.times(k), y: self.y.times(k) }
    }

    pub fn dot(self, o: WorldVec2) -> (r: i128)
        requires
            self.wf(),
            o.wf(),
        ensures
            r == dot_spec(self@, o@),
    {
        proof {
            lemma_world_product_bound(self@.0, o@.0);
            lemma_world_product_bound(self@.1, o@.1);
        }
        self.x.0 as i128 * o.x.0 as i128 + self.y.0 as i128 * o.y.0 as i128
    }

    /// The length, rounded down, saturated at the world limit.
    pub fn length(self) -> (r: WorldUnit)
        requires
            self.wf(),
        ensures
            r@ == length_of(self@),
            r@ < WORLD_LIMIT ==> is_floor_sqrt(dot_spec(self@, self@), r@),
            r@ == WORLD_LIMIT <==> dot_spec(self@, self@) >= WORLD_LIMIT * WORLD_LIMIT,
            r@ == 0 <==> self@ == (0int, 0int),
            r.wf(),
    {
        let l2 = self.length_squared();
        proof {
            lemma_world_product_bound(self@.0, self@.0);
            lemma_world_product_bound(self@.1, self@.1);
        }
        let r = floor_sqrt(l2);
        proof {
            if r >= WORLD_LIMIT {
                assert(l2 >= WORLD_LIMIT * WORLD_LIMIT) by (nonlinear_arith)
                    requires r * r <= l2, r >= WORLD_LIMIT, WORLD_LIMIT > 0;
            } else {
                assert(l2 < WORLD_LIMIT * WORLD_LIMIT) by (nonlinear_arith)
                    requires l2 < (r + 1) * (r + 1), 0 <= r < WORLD_LIMIT;
                let c = choose|c: int| is_floor_sqrt(l2 as int, c);
                assert(is_floor_sqrt(l2 as int, r as int));
                lemma_floor_sqrt_unique(l2 as int, r as int, c);
            }
            assert(self@.0 * self@.0 >= 0 && self@.1 * self@.1 >= 0) by (nonlinear_arith);
            if self@ != (0int, 0int) {
                assert(l2 >= 1) by (nonlinear_arith)
                    requires l2 == self@.0 * self@.0 + self@.1 * self@.1, self@.0 != 0 || self@.1 != 0;
                if r == 0 {
                    assert(false) by (nonlinear_arith) requires l2 < (r + 1) * (r + 1), r == 0, l2 >= 1;
                }
            } else {
                assert(l2 == 0) by (nonlinear_arith)
                    requires l2 == self@.0 * self@.0 + self@.1 * self@.1, self@.0 == 0, self@.1 == 0;
                assert(r == 0) by (nonlinear_arith) requires r * r <= l2, l2 == 0, r >= 0;
            }
        }
        if r >= WORLD_LIMIT {
            WorldUnit(WORLD_LIMIT)
        } else {
            WorldUnit(r)
        }
    }

    /// The vector scaled to a length of one world unit, or `None` for the zero vector,
    /// which has no direction. Each component keeps its sign and has the magnitude
    /// `sqrt(c^2 * UNIT^2 / |v|^2)`, rounded down; the result's squared length is within
    /// `4 * UNIT + 1` of `UNIT^2` (a few micro-units off one unit).
    pub fn try_normalize(self) -> (r: Option<WorldVec2>)
        requires
            self.wf(),
        ensures
            r is None <==> self@ == (0int, 0int),
            r is Some ==> r->0@ == (
                unit_component(self@.0, dot_spec(self@, self@)),
                unit_component(self@.1, dot_spec(self@, self@)),
            ),
            r is Some ==> UNIT * UNIT - 4 * UNIT - 1 <= dot_spec(r->0@, r->0@) <= UNIT * UNIT,
            r is Some ==> r->0.wf(),
    {
        let q = self.length_squared();
        proof {
            lemma_world_product_bound(self@.0, self@.0);
            lemma_world_product_bound(self@.1, self@.1);
            assert(self@.0 * self@.0 >= 0 && self@.1 * self@.1 >= 0) by (nonlinear_arith);
        }
        if q == 0 {
            proof {
                if self@.0 != 0 {
                    assert(self@.0 * self@.0 > 0) by (nonlinear_arith) requires self@.0 != 0;
                }
                if self@.1 != 0 {
                    assert(self@.1 * self@.1 > 0) by (nonlinear_arith) requires self@.1 != 0;
                }
            }
            return None;
        }
        proof {
            if self@ == (0int, 0int) {
                assert(q == 0) by (nonlinear_arith) requires q == self@.0 * self@.0 + self@.1 * self@.1, self@.0 == 0, self@.1 == 0;
            }
        }
        let x = unit_component_exec(self.x.0, self.y.0, q);
        let y = unit_component_exec(self.y.0, self.x.0, q);
        proof {
            lemma_unit_length(self@.0, self@.1, q as int, x as int, y as int);
        }
        Some(WorldVec2 { x: WorldUnit(x), y: WorldUnit(y) })
    }

    /// The vector scaled to a length of one world unit, as `try_normalize`; the zero vector
    /// gives the default direction, straight down.
    pub fn normalized(self) -> (r: WorldVec2)
        requires
            self.wf(),
        ensures
            self@ == (0int, 0int) ==> r@ == (0int, -UNIT as int),
            self@ != (0int, 0int) ==> r@ == (
                unit_component(self@.0, dot_spec(self@, self@)),
                unit_component(self@.1, dot_spec(self@, self@)),
            ),
            UNIT * UNIT - 4 * UNIT - 1 <= dot_spec(r@, r@) <= UNIT * UNIT,
            r.wf(),
    {
        match self.try_normalize() {
            Some(n) => n,
            None => {
                let r = WorldVec2 { x: WorldUnit(0), y: WorldUnit(-UNIT) };
                proof {
                    assert(dot_spec(r@, r@) == UNIT * UNIT) by (nonlinear_arith)
                        requires r@ == (0int, -UNIT as int);
                }
                r
            },
        }
    }

    pub fn length_squared(self) -> (r: i128)
        requires
            self.wf(),
        ensures
            r == dot_spec(self@, self@),
            r >= 0,
    {
        proof {
            assert(self@.0 * self@.0 >= 0 && self@.1 * self@.1 >= 0) by (nonlinear_arith);
        }
        self.dot(self)
    }
}

/// The square root of `n`, rounded down.
pub open spec fn floor_sqrt_of(n: int) -> int {
    choose|r: int| is_floor_sqrt(n, r)
}

/// One component of the unit vector along a vector of squared length `q`: the sign of `c`
/// with the magnitude `sqrt(c^2 * UNIT^2 / q)`, rounded down.
pub open spec fn unit_component(c: int, q: int) -> int {
    let m = floor_sqrt_of(c * c * (UNIT * UNIT) / q);
    if c < 0 { -m } else { m }
}

fn unit_component_exec(c: i64, other: i64, q: i128) -> (r: i64)
    requires
        in_world(c as int),
        in_world(other as int),
        q == c * c + other * other,
        q > 0,
    ensures
        r == unit_component(c as int, q as int),
        -UNIT <= r <= UNIT,
{
    proof {
        lemma_world_product_bound(c as int, c as int);
        lemma_world_product_bound(other as int, other as int);
        assert(0 <= c * c <= q) by (nonlinear_arith) requires q == c * c + other * other;
        assert(c * c * (UNIT * UNIT) <= 4_000_000_000_000_000_000 * 1_000_000_000_000) by (nonlinear_arith)
            requires 0 <= c * c <= 4_000_000_000_000_000_000, UNIT == 1_000_000;
        assert(c * c * (UNIT * UNIT) >= 0) by (nonlinear_arith) requires c * c >= 0;
    }
    let num: i128 = (c as i128 * c as i128) * (UNIT as i128 * UNIT as i128);
    let a: i128 = num / q;
    proof {
        lemma_floor_div_bounds(num as int, q as int);
        assert(a <= UNIT * UNIT) by (nonlinear_arith)
            requires q * a <= num, num == c * c * (UNIT * UNIT), c * c <= q, q > 0, UNIT == 1_000_000;
        assert(a >= 0) by (nonlinear_arith) requires num >= 0, num < q * a + q, q > 0;
    }
    let m = floor_sqrt(a);
    proof {
        lemma_floor_sqrt_unique(a as int, m as int, floor_sqrt_of(a as int));
        assert(m <= UNIT) by (nonlinear_arith) requires m * m <= a, a <= UNIT * UNIT, m >= 0, UNIT == 1_000_000;
    }
    if c < 0 { -m } else { m }
}

/// The two rounded components of a unit vector have a squared length within `4 * UNIT + 1`
/// below `UNIT^2`, and never above it.
proof fn lemma_unit_length(x: int, y: int, q: int, rx: int, ry: int)
    requires
        q == x * x + y * y,
        q > 0,
        rx == unit_component(x, q),
        ry == unit_component(y, q),
        -UNIT <= rx <= UNIT,
        -UNIT <= ry <= UNIT,
    ensures
        UNIT * UNIT - 4 * UNIT - 1 <= dot_spec((rx, ry), (rx, ry)) <= UNIT * UNIT,
{
    let u2 = UNIT * UNIT;
    let a = x * x * u2 / q;
    let b = y * y * u2 / q;
    lemma_floor_div_bounds(x * x * u2, q);
    lemma_floor_div_bounds(y * y * u2, q);
    assert(x * x * u2 + y * y * u2 == q * u2) by (nonlinear_arith) requires q == x * x + y * y;
    assert(a + b <= u2) by (nonlinear_arith)
        requires q * a <= x * x * u2, q * b <= y * y * u2, x * x * u2 + y * y * u2 == q * u2, q > 0;
    assert(a + b >= u2 - 1) by (nonlinear_arith)
        requires x * x * u2 < q * a + q, y * y * u2 < q * b + q, x * x * u2 + y * y * u2 == q * u2, q > 0;
    assert(a >= 0 && b >= 0) by (nonlinear_arith)
        requires x * x * u2 < q * a + q, y * y * u2 < q * b + q, q > 0, u2 > 0;
    let ma = floor_sqrt_of(a);
    let mb = floor_sqrt_of(b);
    lemma_floor_sqrt_exists(a);
    lemma_floor_sqrt_exists(b);
    assert(rx * rx == ma * ma) by (nonlinear_arith) requires rx == ma || rx == -ma;
    assert(ry * ry == mb * mb) by (nonlinear_arith) requires ry == mb || ry == -mb;
    assert(0 <= ma <= UNIT && 0 <= mb <= UNIT);
    assert(ma * ma >= a - 2 * ma) by (nonlinear_arith) requires a < (ma + 1) * (ma + 1);
    assert(mb * mb >= b - 2 * mb) by (nonlinear_arith) requires b < (mb + 1) * (mb + 1);
    assert(dot_spec((rx, ry), (rx, ry)) == rx * rx + ry * ry);
}

/// Every non-negative integer has a square root rounded down.
pub proof fn lemma_floor_sqrt_exists(n: int)
    requires
        0 <= n <= 0x1_0000_0000_0000_0000,
    ensures
        is_floor_sqrt(n, floor_sqrt_of(n)),
{
    let r = floor_sqrt_witness(n as nat);
    assert(is_floor_sqrt(n, r));
}

proof fn floor_sqrt_witness(n: nat) -> (r: int)
    ensures
        is_floor_sqrt(n as int, r),
    decreases n,
{
    if n == 0 {
        assert(0int * 0 <= 0 && 0 < 1int * 1) by (nonlinear_arith);
        0
    } else {
        let p = floor_sqrt_witness((n - 1) as nat);
        if (p + 1) * (p + 1) <= n {
            assert((p + 1) * (p + 1) == n) by (nonlinear_arith)
                requires (p + 1) * (p + 1) <= n, n - 1 < (p + 1) * (p + 1);
            assert(n < (p + 2) * (p + 2)) by (nonlinear_arith)
                requires (p + 1) * (p + 1) == n, p >= 0;
            p + 1
        } else {
            p
        }
    }
}

pub proof fn lemma_world_product_bound(a: int, b: int)
    requires
        in_world(a),
        in_world(b),
    ensures
        -4_000_000_000_000_000_000 <= a * b <= 4_000_000_000_000_000_000,
{
    assert(-4_000_000_000_000_000_000 <= a * b <= 4_000_000_000_000_000_000) by (nonlinear_arith)
        requires
            -2_000_000_000 <= a <= 2_000_000_000,
            -2_000_000_000 <= b <= 2_000_000_000,
    ;
}

pub open spec fn clamp_spec(v: int, lo: int, hi: int) -> int {
    if v < lo {
        lo
    } else if v > hi {
        hi
    } else {
        v
    }
}

/// Whether `r` is the square root of `n` rounded down.
pub open spec fn is_floor_sqrt(n: int, r: int) -> bool {
    0 <= r && r * r <= n < (r + 1) * (r + 1)
}

/// There is one square root rounded down.
pub proof fn lemma_floor_sqrt_unique(n: int, a: int, b: int)
    requires
        is_floor_sqrt(n, a),
        is_floor_sqrt(n, b),
    ensures
        a == b,
{
    if a < b {
        assert((a + 1) * (a + 1) <= b * b) by (nonlinear_arith) requires 0 <= a < b;
    } else if b < a {
        assert((b + 1) * (b + 1) <= a * a) by (nonlinear_arith) requires 0 <= b < a;
    }
}

/// The length of `v` rounded down, saturated at the world limit.
pub open spec fn length_of(v: (int, int)) -> int {
    let n = dot_spec(v, v);
    if n >= WORLD_LIMIT * WORLD_LIMIT {
        WORLD_LIMIT as int
    } else {
        choose|r: int| is_floor_sqrt(n, r)
    }
}

/// The square root of `n`, rounded down.
pub fn floor_sqrt(n: i128) -> (r: i64)
    requires
        0 <= n <= 0x1_0000_0000_0000_0000,
    ensures
        is_floor_sqrt(n as int, r as int),
{
    let mut lo: i128 = 0;
    let mut hi: i128 = 0x1_0000_0001;
    proof {
        assert(hi * hi > 0x1_0000_0000_0000_0000) by (nonlinear_arith) requires hi == 0x1_0000_0001;
    }
    while hi - lo > 1
        invariant
            0 <= lo < hi <= 0x1_0000_0001,
            lo * lo <= n,
            n < hi * hi,
        decreases hi - lo,
    {
        let mid: i128 = lo + (hi - lo) / 2;
        proof {
            assert(mid * mid <= 0x1_0000_0001 * 0x1_0000_0001) by (nonlinear_arith)
                requires 0 <= mid <= 0x1_0000_0001;
        }
        if mid * mid <= n {
            lo = mid;
        } else {
            hi = mid;
        }
    }
    proof {
        assert(hi == lo + 1);
    }
    lo as i64
}

/// An axis-aligned rectangle centered at the origin, given by its half extents.
#[derive(Clone, Copy, Debug, PartialEq, Eq, Structural)]
pub struct WorldRect {
    pub half_width: WorldUnit,
    pub half_height: WorldUnit,
}

impl WorldRect {
    pub open spec fn wf(self) -> bool {
        self.half_width.wf() && self.half_height.wf() && self.half_width@ >= 0
            && self.half_height@ >= 0
    }

    /// The rectangle of the given full width and height (halves rounded down).
    pub fn new(width: WorldUnit, height: WorldUnit) -> (r: WorldRect)
        requires
            width.wf(),
            height.wf(),
            width@ >= 0,
            height@ >= 0,
        ensures
            r.half_width@ == width@ / 2,
            r.half_height@ == height@ / 2,
            r.wf(),
    {
        WorldRect { half_width: WorldUnit(width.0 / 2), half_height: WorldUnit(height.0 / 2) }
    }

    /// The point of the rectangle (boundary or inside) nearest to `point`.
    pub fn closest_point(&self, point: WorldVec2) -> (r: WorldVec2)
        requires
            self.wf(),
        ensures
            r@ == (
                clamp_spec(point@.0, -self.half_width@, self.half_width@),
                clamp_spec(point@.1, -self.half_height@, self.half_height@),
            ),
    {
        let x = if point.x.0 < -self.half_width.0 {
            WorldUnit(-self.half_width.0)
        } else if point.x.0 > self.half_width.0 {
            self.half_width
        } else {
            point.x
        };
        let y = if point.y.0 < -self.half_height.0 {
            WorldUnit(-self.half_height.0)
        } else if point.y.0 > self.half_height.0 {
            self.half_height
        } else {
            point.y
        };
        WorldVec2 { x, y }
    }
}

} // verus!
