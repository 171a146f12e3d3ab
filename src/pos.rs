use vstd::prelude::*;

verus! {

/// Number of fixed-point sub-units in one world unit.
pub const UNIT: i64 = 1000;

/// Largest magnitude of a world coordinate, in sub-units.
pub const WORLD_LIMIT: i64 = 1_000_000_000;

/// Largest magnitude of a cell column whose world position lies in the world.
pub const CELL_LIMIT_X: i64 = 1_000_000;

/// Largest magnitude of a cell row whose world position lies in the world.
pub const CELL_LIMIT_Y: i64 = 500_000;

/// A world coordinate, in thousandths of a world unit.
pub type Coord = i64;

/// A cell (screen) coordinate.
pub type ScreenCoord = i64;

/// A value that has a sign.
pub trait Signed: Copy {
    fn sign(self) -> Self;
}

/// The sign of an integer: -1, 0 or 1.
pub open spec fn sign_of(v: int) -> int {
    if v > 0 {
        1
    } else if v < 0 {
        -1
    } else {
        0
    }
}

impl Signed for i64 {
    fn sign(self) -> (r: i64)
        ensures
            r == sign_of(self as int),
    {
        if self > 0 {
            1
        } else if self < 0 {
            -1
        } else {
            0
        }
    }
}

/// `a / b` rounded toward zero, for `b > 0`.
pub open spec fn trunc_div(a: int, b: int) -> int {
    if a >= 0 {
        a / b
    } else {
        -((-a) / b)
    }
}

/// `a / b` rounded to the nearest integer, halves away from zero, for `b > 0`.
pub open spec fn round_div(a: int, b: int) -> int {
    if a >= 0 {
        (2 * a + b) / (2 * b)
    } else {
        -((2 * (-a) + b) / (2 * b))
    }
}

pub fn div_trunc(a: i64, b: i64) -> (r: i64)
    requires
        b > 0,
        a > i64::MIN,
    ensures
        r == trunc_div(a as int, b as int),
{
    if a >= 0 {
        a / b
    } else {
        -((-a) / b)
    }
}

proof fn lemma_round_split(a: int, b: int)
    requires
        a >= 0,
        b > 0,
        b % 2 == 0,
    ensures
        (2 * a + b) / (2 * b) == a / b + (if a % b >= b / 2 { 1int } else { 0int }),
{
    let q = a / b;
    let m = a % b;
    vstd::arithmetic::div_mod::lemma_fundamental_div_mod(a, b);
    let extra: int = if m >= b / 2 { 1 } else { 0 };
    assert(2 * a + b == (q + extra) * (2 * b) + (2 * m + b - 2 * b * extra)) by (nonlinear_arith)
        requires
            a == b * q + m,
    ;
    assert(0 <= 2 * m + b - 2 * b * extra < 2 * b);
    vstd::arithmetic::div_mod::lemma_fundamental_div_mod_converse(
        2 * a + b,
        2 * b,
        q + extra,
        2 * m + b - 2 * b * extra,
    );
}

/// `a / b` rounded to the nearest integer, halves away from zero; `b` is even.
pub fn div_round(a: i64, b: i64) -> (r: i64)
    requires
        b > 0,
        b % 2 == 0,
        a > i64::MIN,
    ensures
        r == round_div(a as int, b as int),
{
    let pa: i64 = if a >= 0 { a } else { -a };
    proof {
        lemma_round_split(pa as int, b as int);
        vstd::arithmetic::div_mod::lemma_div_is_ordered_by_denominator(pa as int, 2, b as int);
    }
    let q = pa / b;
    let rounded: i64 = if pa % b >= b / 2 { q + 1 } else { q };
    if a >= 0 {
        rounded
    } else {
        -rounded
    }
}

/// `r` is the integer square root of `n`, rounded down.
pub open spec fn is_floor_sqrt(n: int, r: int) -> bool {
    0 <= r && r * r <= n && n < (r + 1) * (r + 1)
}

/// The integer square root of `n`, rounded down.
pub open spec fn floor_sqrt(n: int) -> int {
    choose|r: int| is_floor_sqrt(n, r)
}

proof fn lemma_floor_sqrt_unique(n: int, r1: int, r2: int)
    requires
        is_floor_sqrt(n, r1),
        is_floor_sqrt(n, r2),
    ensures
        r1 == r2,
{
    if r1 < r2 {
        assert((r1 + 1) * (r1 + 1) <= r2 * r2) by (nonlinear_arith)
            requires
                0 <= r1 + 1 <= r2,
        ;
    } else if r2 < r1 {
        assert((r2 + 1) * (r2 + 1) <= r1 * r1) by (nonlinear_arith)
            requires
                0 <= r2 + 1 <= r1,
        ;
    }
}

/// A witness of the integer square root is the integer square root.
pub proof fn lemma_floor_sqrt(n: int, r: int)
    requires
        is_floor_sqrt(n, r),
    ensures
        floor_sqrt(n) == r,
{
    assert(is_floor_sqrt(n, floor_sqrt(n)));
    lemma_floor_sqrt_unique(n, r, floor_sqrt(n));
}

/// The integer square root of `n`, rounded down.
pub fn isqrt(n: u64) -> (r: u64)
    ensures
        is_floor_sqrt(n as int, r as int),
        r == floor_sqrt(n as int),
        r < 4294967296,
{
    let mut lo: u64 = 0;
    let mut hi: u64 = 4294967296;
    assert(4294967296 * 4294967296 == 18446744073709551616int);
    while hi - lo > 1
        invariant
            lo < hi <= 4294967296,
            lo * lo <= n,
            n < hi * hi,
        decreases hi - lo,
    {
        let mid = lo + (hi - lo) / 2;
        proof {
            lemma_square_bound(mid as int, 4294967296);
        }
        if (mid as u128) * (mid as u128) <= n as u128 {
            lo = mid;
        } else {
            hi = mid;
        }
    }
    proof {
        lemma_floor_sqrt(n as int, lo as int);
    }
    lo
}

/// The length of the vector `(x, y)`, rounded down.
pub open spec fn mag(x: int, y: int) -> int {
    floor_sqrt(x * x + y * y)
}

/// A difference of two world coordinates.
pub open spec fn in_span(v: int) -> bool {
    -2 * WORLD_LIMIT <= v <= 2 * WORLD_LIMIT
}

/// A world coordinate.
pub open spec fn in_world(v: int) -> bool {
    -WORLD_LIMIT <= v <= WORLD_LIMIT
}

/// One component of the unit vector (scaled by `UNIT`) along a vector of length `m`.
pub open spec fn norm_comp(c: int, m: int) -> int {
    if m == 0 {
        0
    } else {
        trunc_div(c * UNIT, m)
    }
}

/// `c * s` in fixed point, where `s` counts sub-units.
pub open spec fn scale_comp(c: int, s: int) -> int {
    trunc_div(c * s, UNIT as int)
}

proof fn lemma_square_bound(a: int, b: int)
    requires
        -b <= a <= b,
    ensures
        0 <= a * a <= b * b,
{
    assert(0 <= a * a <= b * b) by (nonlinear_arith)
        requires
            -b <= a <= b,
    ;
}

/// Each component of a vector is at most its length.
pub proof fn lemma_comp_le_mag(x: int, y: int)
    ensures
        -mag(x, y) <= x <= mag(x, y),
        -mag(x, y) <= y <= mag(x, y),
        mag(x, y) >= 0,
        (x != 0 || y != 0) <==> mag(x, y) > 0,
{
    let m = mag(x, y);
    assert(0 <= x * x && 0 <= y * y) by (nonlinear_arith);
    assert(exists|r: int| #[trigger] is_floor_sqrt(x * x + y * y, r)) by {
        lemma_sqrt_exists(x * x + y * y);
    }
    assert(is_floor_sqrt(x * x + y * y, m));
    assert(x * x < (m + 1) * (m + 1));
    assert(y * y < (m + 1) * (m + 1));
    assert(-m <= x <= m) by (nonlinear_arith)
        requires
            x * x < (m + 1) * (m + 1),
            m >= 0,
    ;
    assert(-m <= y <= m) by (nonlinear_arith)
        requires
            y * y < (m + 1) * (m + 1),
            m >= 0,
    ;
    if x != 0 || y != 0 {
        assert(x * x + y * y >= 1) by (nonlinear_arith)
            requires
                x != 0 || y != 0,
        ;
        assert(m > 0);
    } else {
        assert(m * m <= 0);
        assert(m == 0) by (nonlinear_arith)
            requires
                m >= 0,
                m * m <= 0,
        ;
    }
}

proof fn lemma_sqrt_exists(n: int)
    requires
        n >= 0,
    ensures
        exists|r: int| #[trigger] is_floor_sqrt(n, r),
    decreases n,
{
    if n == 0 {
        assert(is_floor_sqrt(0, 0));
    } else {
        lemma_sqrt_exists(n - 1);
        let r = choose|r: int| #[trigger] is_floor_sqrt(n - 1, r);
        if n < (r + 1) * (r + 1) {
            assert(is_floor_sqrt(n, r));
        } else {
            assert(n < (r + 2) * (r + 2)) by (nonlinear_arith)
                requires
                    n - 1 < (r + 1) * (r + 1),
                    r >= 0,
            ;
            assert(is_floor_sqrt(n, r + 1));
        }
    }
}

/// A position in the continuous world, in sub-units; `y` grows downward.
#[derive(Clone, Copy, Debug, PartialEq, Eq, Structural)]
pub struct Pos {
    pub x: Coord,
    pub y: Coord,
}

/// A position on the grid of character cells.
#[derive(Clone, Copy, Debug, PartialEq, Eq, Structural)]
pub struct ScreenPos {
    pub x: ScreenCoord,
    pub y: ScreenCoord,
}

/// The cell that holds a world position: `(round(x), round(y / 2))` in world units.
pub open spec fn cell_of(p: Pos) -> ScreenPos {
    ScreenPos {
        x: round_div(p.x as int, UNIT as int) as i64,
        y: round_div(p.y as int, 2 * UNIT) as i64,
    }
}

/// The world position of a cell's corner: `(x, 2 * y)` in world units.
pub open spec fn world_of(c: ScreenPos) -> Pos {
    Pos { x: (c.x * UNIT) as i64, y: (c.y * 2 * UNIT) as i64 }
}

impl Pos {
    /// Both coordinates lie in the world.
    pub open spec fn wf(&self) -> bool {
        in_world(self.x as int) && in_world(self.y as int)
    }

    /// Both components are differences of world coordinates.
    pub open spec fn in_span(&self) -> bool {
        in_span(self.x as int) && in_span(self.y as int)
    }

    /// Whether both coordinates lie in the world.
    pub fn in_world(&self) -> (r: bool)
        ensures
            r == self.wf(),
    {
        -WORLD_LIMIT <= self.x && self.x <= WORLD_LIMIT && -WORLD_LIMIT <= self.y && self.y
            <= WORLD_LIMIT
    }

    pub fn new(x: Coord, y: Coord) -> (r: Pos)
        ensures
            r.x == x,
            r.y == y,
    {
        Pos { x, y }
    }

    pub fn plus(&self, o: Pos) -> (r: Pos)
        requires
            i64::MIN <= self.x + o.x <= i64::MAX,
            i64::MIN <= self.y + o.y <= i64::MAX,
        ensures
            r.x == self.x + o.x,
            r.y == self.y + o.y,
    {
        Pos { x: self.x + o.x, y: self.y + o.y }
    }

    pub fn minus(&self, o: Pos) -> (r: Pos)
        requires
            i64::MIN <= self.x - o.x <= i64::MAX,
            i64::MIN <= self.y - o.y <= i64::MAX,
        ensures
            r.x == self.x - o.x,
            r.y == self.y - o.y,
    {
        Pos { x: self.x - o.x, y: self.y - o.y }
    }

    /// Multiplies both components by the fixed-point factor `scalar` (`UNIT` is one).
    pub fn scale(&self, scalar: Coord) -> (r: Pos)
        requires
            i64::MIN < self.x * scalar <= i64::MAX,
            i64::MIN < self.y * scalar <= i64::MAX,
        ensures
            r.x == scale_comp(self.x as int, scalar as int),
            r.y == scale_comp(self.y as int, scalar as int),
    {
        Pos { x: div_trunc(self.x * scalar, UNIT), y: div_trunc(self.y * scalar, UNIT) }
    }

    /// The length of the position as a vector, rounded down.
    pub fn magnitude(&self) -> (r: Coord)
        requires
            self.in_span(),
        ensures
            r == mag(self.x as int, self.y as int),
            0 <= r < 4294967296,
    {
        let ax: u64 = if self.x >= 0 { self.x as u64 } else { (-self.x) as u64 };
        let ay: u64 = if self.y >= 0 { self.y as u64 } else { (-self.y) as u64 };
        proof {
            lemma_square_bound(ax as int, 2 * WORLD_LIMIT);
            lemma_square_bound(ay as int, 2 * WORLD_LIMIT);
            assert(ax * ax == self.x * self.x) by (nonlinear_arith)
                requires
                    ax == self.x || ax == -self.x,
            ;
            assert(ay * ay == self.y * self.y) by (nonlinear_arith)
                requires
                    ay == self.y || ay == -self.y,
            ;
        }
        isqrt(ax * ax + ay * ay) as i64
    }

    /// The unit vector (scaled by `UNIT`) along the position, or zero for the zero vector.
    pub fn normalize(&self) -> (r: Pos)
        requires
            self.in_span(),
        ensures
            r.x == norm_comp(self.x as int, mag(self.x as int, self.y as int)),
            r.y == norm_comp(self.y as int, mag(self.x as int, self.y as int)),
            -UNIT <= r.x <= UNIT,
            -UNIT <= r.y <= UNIT,
    {
        let m = self.magnitude();
        proof {
            lemma_comp_le_mag(self.x as int, self.y as int);
        }
        if m == 0 {
            Pos { x: 0, y: 0 }
        } else {
            proof {
                lemma_unit_comp(self.x as int, m as int);
                lemma_unit_comp(self.y as int, m as int);
            }
            Pos { x: div_trunc(self.x * UNIT, m), y: div_trunc(self.y * UNIT, m) }
        }
    }

    /// Expresses the position in the basis whose first axis is the unit vector `basis`
    /// (scaled by `UNIT`) and whose second axis is `basis` turned a quarter clockwise.
    pub fn transform_basis(&self, basis: Pos) -> (r: Pos)
        requires
            -VEL_BOUND <= self.x <= VEL_BOUND,
            -VEL_BOUND <= self.y <= VEL_BOUND,
            -UNIT <= basis.x <= UNIT,
            -UNIT <= basis.y <= UNIT,
        ensures
            r.x == trunc_div(self.x * basis.x + self.y * basis.y, UNIT as int),
            r.y == trunc_div(self.y * basis.x - self.x * basis.y, UNIT as int),
    {
        proof {
            lemma_mul_bound(self.x as int, basis.x as int, VEL_BOUND as int, UNIT as int);
            lemma_mul_bound(self.y as int, basis.y as int, VEL_BOUND as int, UNIT as int);
            lemma_mul_bound(self.x as int, basis.y as int, VEL_BOUND as int, UNIT as int);
            lemma_mul_bound(self.y as int, basis.x as int, VEL_BOUND as int, UNIT as int);
        }
        Pos {
            x: div_trunc(self.x * basis.x + self.y * basis.y, UNIT),
            y: div_trunc(self.y * basis.x - self.x * basis.y, UNIT),
        }
    }

    /// The cell that holds this position.
    pub fn to_cell(&self) -> (r: ScreenPos)
        requires
            self.x > i64::MIN,
            self.y > i64::MIN,
        ensures
            r == cell_of(*self),
            r.x == round_div(self.x as int, UNIT as int),
            r.y == round_div(self.y as int, 2 * UNIT),
    {
        proof {
            lemma_round_div_bound(self.x as int, UNIT as int);
            lemma_round_div_bound(self.y as int, 2 * UNIT);
        }
        ScreenPos { x: div_round(self.x, UNIT), y: div_round(self.y, 2 * UNIT) }
    }
}

/// Bound on the magnitude of a velocity component, in sub-units per second.
pub const VEL_BOUND: i64 = 1_000_000_000_000;

/// `|a * b| <= A * B` when `|a| <= A` and `|b| <= B`.
pub proof fn lemma_mul_bound(a: int, b: int, ba: int, bb: int)
    requires
        -ba <= a <= ba,
        -bb <= b <= bb,
    ensures
        -(ba * bb) <= a * b <= ba * bb,
{
    assert(-(ba * bb) <= a * b <= ba * bb) by (nonlinear_arith)
        requires
            -ba <= a <= ba,
            -bb <= b <= bb,
    ;
}

proof fn lemma_unit_comp(c: int, m: int)
    requires
        m > 0,
        -m <= c <= m,
    ensures
        -UNIT <= trunc_div(c * UNIT, m) <= UNIT,
{
    let a = if c >= 0 { c } else { -c };
    assert(0 <= a * UNIT <= m * UNIT) by (nonlinear_arith)
        requires
            0 <= a <= m,
    ;
    vstd::arithmetic::div_mod::lemma_div_is_ordered(a * UNIT, m * UNIT, m);
    vstd::arithmetic::div_mod::lemma_div_by_multiple(UNIT as int, m);
    assert((m * UNIT) / m == UNIT) by {
        vstd::arithmetic::mul::lemma_mul_is_commutative(m, UNIT as int);
    }
    vstd::arithmetic::div_mod::lemma_div_pos_is_pos(a * UNIT, m);
    if c < 0 {
        assert((-c) * UNIT == -(c * UNIT)) by (nonlinear_arith);
    }
}

proof fn lemma_round_div_bound(a: int, b: int)
    requires
        b >= 2,
        i64::MIN < a <= i64::MAX,
    ensures
        -(if a >= 0 { a } else { -a }) <= round_div(a, b) <= (if a >= 0 { a } else { -a }),
{
    let pa = if a >= 0 { a } else { -a };
    vstd::arithmetic::div_mod::lemma_div_pos_is_pos(2 * pa + b, 2 * b);
    assert((2 * pa + b) / (2 * b) <= pa) by {
        if pa == 0 {
            vstd::arithmetic::div_mod::lemma_basic_div(b, 2 * b);
        } else {
            assert(2 * pa + b <= pa * (2 * b)) by (nonlinear_arith)
                requires
                    pa >= 1,
                    b >= 2,
            ;
            vstd::arithmetic::div_mod::lemma_div_is_ordered(2 * pa + b, pa * (2 * b), 2 * b);
            vstd::arithmetic::div_mod::lemma_div_by_multiple(pa, 2 * b);
        }
    }
}

impl ScreenPos {
    /// The cell's world position lies in the world.
    pub open spec fn wf(&self) -> bool {
        -CELL_LIMIT_X <= self.x <= CELL_LIMIT_X && -CELL_LIMIT_Y <= self.y <= CELL_LIMIT_Y
    }

    pub fn new(x: ScreenCoord, y: ScreenCoord) -> (r: ScreenPos)
        ensures
            r.x == x,
            r.y == y,
    {
        ScreenPos { x, y }
    }

    /// The coordinates as indices into a grid of rows.
    pub fn indices(&self) -> (r: (usize, usize))
        requires
            0 <= self.x <= usize::MAX,
            0 <= self.y <= usize::MAX,
        ensures
            r.0 == self.x,
            r.1 == self.y,
    {
        (self.x as usize, self.y as usize)
    }

    pub fn plus(&self, o: ScreenPos) -> (r: ScreenPos)
        requires
            i64::MIN <= self.x + o.x <= i64::MAX,
            i64::MIN <= self.y + o.y <= i64::MAX,
        ensures
            r.x == self.x + o.x,
            r.y == self.y + o.y,
    {
        ScreenPos { x: self.x + o.x, y: self.y + o.y }
    }

    pub fn minus(&self, o: ScreenPos) -> (r: ScreenPos)
        requires
            i64::MIN <= self.x - o.x <= i64::MAX,
            i64::MIN <= self.y - o.y <= i64::MAX,
        ensures
            r.x == self.x - o.x,
            r.y == self.y - o.y,
    {
        ScreenPos { x: self.x - o.x, y: self.y - o.y }
    }

    /// The world position of this cell.
    pub fn to_world(&self) -> (r: Pos)
        requires
            self.wf(),
        ensures
            r == world_of(*self),
            r.x == self.x * UNIT,
            r.y == self.y * 2 * UNIT,
            r.wf(),
    {
        Pos { x: self.x * UNIT, y: self.y * 2 * UNIT }
    }
}

/// A world position lands in a cell that lies in the world.
pub proof fn lemma_cell_of_wf(p: Pos)
    requires
        p.wf(),
    ensures
        cell_of(p).wf(),
        cell_of(p).x == round_div(p.x as int, UNIT as int),
        cell_of(p).y == round_div(p.y as int, 2 * UNIT),
{
    lemma_round_div_mono(p.x as int, WORLD_LIMIT as int, UNIT as int);
    lemma_round_div_mono(p.y as int, WORLD_LIMIT as int, 2 * UNIT);
    lemma_round_div_bound(p.x as int, UNIT as int);
    lemma_round_div_bound(p.y as int, 2 * UNIT);
    vstd::arithmetic::div_mod::lemma_fundamental_div_mod_converse(
        2_000_001_000,
        2000,
        1_000_000,
        1000,
    );
    vstd::arithmetic::div_mod::lemma_fundamental_div_mod_converse(
        2_000_002_000,
        4000,
        500_000,
        2000,
    );
    assert(round_div(WORLD_LIMIT as int, UNIT as int) == CELL_LIMIT_X);
    assert(round_div(WORLD_LIMIT as int, 2 * UNIT) == CELL_LIMIT_Y);
}

proof fn lemma_round_div_mono(a: int, lim: int, b: int)
    requires
        b > 0,
        lim >= 0,
        -lim <= a <= lim,
    ensures
        -round_div(lim, b) <= round_div(a, b) <= round_div(lim, b),
{
    let pa = if a >= 0 { a } else { -a };
    vstd::arithmetic::div_mod::lemma_div_is_ordered(2 * pa + b, 2 * lim + b, 2 * b);
    vstd::arithmetic::div_mod::lemma_div_pos_is_pos(2 * pa + b, 2 * b);
}

/// A cell's world position lies in that same cell.
pub proof fn lemma_cell_of_world(c: ScreenPos)
    requires
        c.wf(),
    ensures
        cell_of(world_of(c)) == c,
        world_of(c).wf(),
{
    lemma_round_div_exact(c.x as int, UNIT as int);
    lemma_round_div_exact(c.y as int, 2 * UNIT);
    assert(c.y * 2 * UNIT == c.y * (2 * UNIT)) by (nonlinear_arith);
}

proof fn lemma_round_div_exact(v: int, b: int)
    requires
        b > 0,
    ensures
        round_div(v * b, b) == v,
{
    let pv = if v >= 0 { v } else { -v };
    assert(2 * (pv * b) + b == pv * (2 * b) + b) by (nonlinear_arith);
    vstd::arithmetic::div_mod::lemma_fundamental_div_mod_converse(2 * (pv * b) + b, 2 * b, pv, b);
    if v < 0 {
        assert(-(v * b) == pv * b) by (nonlinear_arith)
            requires
                pv == -v,
        ;
        assert(v * b < 0) by (nonlinear_arith)
            requires
                v < 0,
                b > 0,
        ;
    } else {
        assert(v * b >= 0) by (nonlinear_arith)
            requires
                v >= 0,
                b > 0,
        ;
    }
}

/// Converting to cells and back is stable after the first conversion: a cell's world
/// position maps to the same cell, so a second round trip changes nothing.
pub proof fn lemma_cell_round_trip(p: Pos)
    requires
        p.wf(),
    ensures
        world_of(cell_of(world_of(cell_of(p)))) == world_of(cell_of(p)),
{
    lemma_cell_of_wf(p);
    lemma_cell_of_world(cell_of(p));
}

/// Every non-negative integer has an integer square root.
pub proof fn lemma_isqrt_witness(n: int)
    requires
        n >= 0,
    ensures
        is_floor_sqrt(n, floor_sqrt(n)),
{
    lemma_sqrt_exists(n);
}

/// `v` moved into the world's range.
pub open spec fn clamp_world(v: int) -> int {
    if v < -WORLD_LIMIT {
        -WORLD_LIMIT as int
    } else if v > WORLD_LIMIT {
        WORLD_LIMIT as int
    } else {
        v
    }
}

/// A coordinate moved into the world's range.
pub fn clamp_coord(v: i64) -> (r: i64)
    ensures
        r == clamp_world(v as int),
        in_world(r as int),
{
    if v < -WORLD_LIMIT {
        -WORLD_LIMIT
    } else if v > WORLD_LIMIT {
        WORLD_LIMIT
    } else {
        v
    }
}

/// Truncating division by a positive number never grows a magnitude.
pub proof fn lemma_trunc_div_bound(a: int, b: int, bound: int)
    requires
        b >= 1,
        -bound <= a <= bound,
    ensures
        -bound <= trunc_div(a, b) <= bound,
        a >= 0 ==> trunc_div(a, b) >= 0,
        a <= 0 ==> trunc_div(a, b) <= 0,
{
    let pa = if a >= 0 { a } else { -a };
    vstd::arithmetic::div_mod::lemma_div_is_ordered_by_denominator(pa, 1, b);
    vstd::arithmetic::div_mod::lemma_div_pos_is_pos(pa, b);
}

/// `trunc_div(a * s, UNIT)` is at most `|s|` when `|a| <= UNIT`.
pub proof fn lemma_scale_unit_bound(a: int, s: int, bound: int)
    requires
        -UNIT <= a <= UNIT,
        -bound <= s <= bound,
    ensures
        -bound <= trunc_div(a * s, UNIT as int) <= bound,
        -(UNIT * bound) <= a * s <= UNIT * bound,
{
    lemma_mul_bound(a, s, UNIT as int, bound);
    let p = a * s;
    let pp = if p >= 0 { p } else { -p };
    vstd::arithmetic::div_mod::lemma_div_is_ordered(pp, UNIT * bound, UNIT as int);
    vstd::arithmetic::div_mod::lemma_div_by_multiple(bound, UNIT as int);
    assert(UNIT * bound == bound * UNIT) by (nonlinear_arith);
    vstd::arithmetic::div_mod::lemma_div_pos_is_pos(pp, UNIT as int);
}

/// The length of a vector is at most the sum of its components' magnitudes.
pub proof fn lemma_mag_le_sum(x: int, y: int)
    ensures
        0 <= mag(x, y) <= (if x >= 0 { x } else { -x }) + (if y >= 0 { y } else { -y }),
{
    let ax = if x >= 0 { x } else { -x };
    let ay = if y >= 0 { y } else { -y };
    let m = mag(x, y);
    lemma_comp_le_mag(x, y);
    assert(x * x == ax * ax && y * y == ay * ay) by (nonlinear_arith)
        requires
            ax == x || ax == -x,
            ay == y || ay == -y,
    ;
    assert(0 <= x * x + y * y) by (nonlinear_arith);
    lemma_isqrt_witness(x * x + y * y);
    if m > ax + ay {
        assert((ax + ay + 1) * (ax + ay + 1) <= m * m) by (nonlinear_arith)
            requires
                m >= ax + ay + 1,
                ax >= 0,
                ay >= 0,
        ;
        assert(ax * ax + ay * ay < (ax + ay + 1) * (ax + ay + 1)) by (nonlinear_arith)
            requires
                ax >= 0,
                ay >= 0,
        ;
    }
}

/// `|a| <= q * b` gives `|trunc_div(a, b)| <= q`.
pub proof fn lemma_trunc_div_scaled(a: int, b: int, q: int)
    requires
        b >= 1,
        q >= 0,
        -(q * b) <= a <= q * b,
    ensures
        -q <= trunc_div(a, b) <= q,
{
    let pa = if a >= 0 { a } else { -a };
    vstd::arithmetic::div_mod::lemma_div_is_ordered(pa, q * b, b);
    vstd::arithmetic::div_mod::lemma_div_by_multiple(q, b);
    vstd::arithmetic::div_mod::lemma_div_pos_is_pos(pa, b);
}

/// A component of a vector of length `m > 0`, normalized, lies in `[-UNIT, UNIT]`.
pub proof fn lemma_unit_comp_pub(c: int, m: int)
    requires
        m > 0,
        -m <= c <= m,
    ensures
        -UNIT <= trunc_div(c * UNIT, m) <= UNIT,
{
    lemma_unit_comp(c, m);
}

} // verus!
