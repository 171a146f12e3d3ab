use vstd::prelude::*;

use crate::pos::{
    in_world, lemma_comp_le_mag, lemma_mul_bound, mag, norm_comp, trunc_div, Coord, Pos, UNIT,
    WORLD_LIMIT,
};
use crate::render::{dots_painted, Camera, Drawable, Renderer};

verus! {

/// The distance between two marched positions: one cell width, the smaller side of a cell.
pub const STEP: i64 = UNIT;

/// The length of the segment from `s` to `e`, rounded down.
pub open spec fn seg_len(s: Pos, e: Pos) -> int {
    mag(e.x - s.x, e.y - s.y)
}

/// The number of steps that cover a segment of length `l`: `ceil(l / STEP)`.
pub open spec fn step_count(l: int) -> int {
    (l + STEP - 1) / (STEP as int)
}

/// The point at distance `m` along the way from `a` to `b`, of length `l`, on one axis.
pub open spec fn lerp(a: int, b: int, m: int, l: int) -> int {
    a + trunc_div((b - a) * m, l)
}

/// The `k`-th step from `s` toward `e`.
pub open spec fn march_point(s: Pos, e: Pos, k: int) -> Pos {
    Pos {
        x: lerp(s.x as int, e.x as int, k * STEP, seg_len(s, e)) as i64,
        y: lerp(s.y as int, e.y as int, k * STEP, seg_len(s, e)) as i64,
    }
}

/// The marched path from `s` to `e`: the positions one step apart from `s`, with the last
/// one replaced by `e`.
pub open spec fn march_path(s: Pos, e: Pos) -> Seq<Pos> {
    let n = step_count(seg_len(s, e));
    Seq::new((n + 1) as nat, |k: int| if k == n { e } else { march_point(s, e, k) })
}

/// `v` lies between `a` and `b`.
pub open spec fn between(v: int, a: int, b: int) -> bool {
    (a <= v <= b) || (b <= v <= a)
}

proof fn lemma_lerp_between(a: int, b: int, m: int, l: int)
    requires
        0 <= m <= l,
        l > 0,
    ensures
        between(lerp(a, b, m, l), a, b),
{
    let d = b - a;
    let pd = if d >= 0 { d } else { -d };
    assert(0 <= pd * m <= pd * l) by (nonlinear_arith)
        requires
            0 <= m <= l,
            pd >= 0,
    ;
    vstd::arithmetic::div_mod::lemma_div_is_ordered(pd * m, pd * l, l);
    vstd::arithmetic::div_mod::lemma_div_by_multiple(pd, l);
    vstd::arithmetic::div_mod::lemma_div_pos_is_pos(pd * m, l);
    if d < 0 {
        assert(-(d * m) == pd * m) by (nonlinear_arith)
            requires
                pd == -d,
        ;
        assert(d * m <= 0) by (nonlinear_arith)
            requires
                d < 0,
                m >= 0,
        ;
    } else {
        assert(d * m >= 0) by (nonlinear_arith)
            requires
                d >= 0,
                m >= 0,
        ;
    }
}

proof fn lemma_step_count(l: int)
    requires
        l >= 0,
    ensures
        step_count(l) >= 0,
        step_count(l) * STEP >= l,
        (step_count(l) - 1) * STEP < l || l == 0,
        l == 0 ==> step_count(l) == 0,
        l > 0 ==> step_count(l) >= 1,
{
    let n = step_count(l);
    vstd::arithmetic::div_mod::lemma_fundamental_div_mod(l + STEP - 1, STEP as int);
    let r = (l + STEP - 1) % (STEP as int);
    assert(l + STEP - 1 == STEP * n + r);
    assert(0 <= r < STEP);
    vstd::arithmetic::div_mod::lemma_div_pos_is_pos(l + STEP - 1, STEP as int);
    assert(n * STEP == STEP * n) by (nonlinear_arith);
    assert((n - 1) * STEP == STEP * n - STEP) by (nonlinear_arith);
    if l == 0 {
        vstd::arithmetic::div_mod::lemma_basic_div(STEP - 1, STEP as int);
    }
}

/// Every marched position lies between the segment's ends, on each axis.
pub proof fn lemma_march_point_between(s: Pos, e: Pos, k: int)
    requires
        s.wf(),
        e.wf(),
        0 <= k < step_count(seg_len(s, e)),
    ensures
        between(march_point(s, e, k).x as int, s.x as int, e.x as int),
        between(march_point(s, e, k).y as int, s.y as int, e.y as int),
        march_point(s, e, k).wf(),
{
    let l = seg_len(s, e);
    lemma_comp_le_mag(e.x - s.x, e.y - s.y);
    lemma_step_count(l);
    assert(k * STEP <= (step_count(l) - 1) * STEP) by (nonlinear_arith)
        requires
            k <= step_count(l) - 1,
    ;
    assert(k * STEP >= 0) by (nonlinear_arith)
        requires
            k >= 0,
    ;
    lemma_lerp_between(s.x as int, e.x as int, k * STEP, l);
    lemma_lerp_between(s.y as int, e.y as int, k * STEP, l);
}

/// A marched path starts at `s`, ends exactly at `e`, and covers the segment with one
/// step to spare at most: `(len - 1) * STEP >= length > (len - 2) * STEP`.
pub proof fn lemma_march_ends(s: Pos, e: Pos)
    requires
        s.wf(),
        e.wf(),
        s != e,
    ensures
        march_path(s, e)[0] == s,
        march_path(s, e).last() == e,
        (march_path(s, e).len() - 1) * STEP >= seg_len(s, e),
        (march_path(s, e).len() - 2) * STEP < seg_len(s, e),
{
    let l = seg_len(s, e);
    lemma_comp_le_mag(e.x - s.x, e.y - s.y);
    lemma_step_count(l);
    assert(lerp(s.x as int, e.x as int, 0, l) == s.x);
    assert(lerp(s.y as int, e.y as int, 0, l) == s.y);
}

/// Marching from a position to itself yields that position alone.
pub proof fn lemma_march_single(p: Pos)
    requires
        p.wf(),
    ensures
        march_path(p, p) == seq![p],
{
    lemma_comp_le_mag(0, 0);
    lemma_step_count(0);
    assert(march_path(p, p) =~= seq![p]);
}

/// A segment in the world, from `start` to `end`.
#[derive(Clone, Copy, Debug)]
pub struct Ray {
    pub start: Pos,
    pub end: Pos,
}

/// `lerp` on one axis, for exec code.
fn lerp_exec(a: i64, b: i64, m: i64, l: i64) -> (r: i64)
    requires
        in_world(a as int),
        in_world(b as int),
        0 <= m <= l,
        0 < l < 4294967296,
    ensures
        r == lerp(a as int, b as int, m as int, l as int),
        between(r as int, a as int, b as int),
{
    proof {
        lemma_lerp_between(a as int, b as int, m as int, l as int);
        lemma_mul_bound((b - a) as int, m as int, 2 * WORLD_LIMIT, 4294967296);
    }
    let prod: i128 = ((b - a) as i128) * (m as i128);
    let q: i128 = if prod >= 0 {
        prod / (l as i128)
    } else {
        -((-prod) / (l as i128))
    };
    (a as i128 + q) as i64
}

impl Ray {
    /// Both ends lie in the world.
    pub open spec fn wf(&self) -> bool {
        self.start.wf() && self.end.wf()
    }

    /// The positions from `start` to `end`, one step apart, the last one exactly `end`.
    pub fn march(&self) -> (path: Vec<Pos>)
        requires
            self.wf(),
        ensures
            path@ == march_path(self.start, self.end),
            path@.len() >= 1,
            forall|i: int| 0 <= i < path@.len() ==> (#[trigger] path@[i]).wf(),
    {
        let s = self.start;
        let e = self.end;
        let d = e.minus(s);
        let l = d.magnitude();
        proof {
            lemma_comp_le_mag(e.x - s.x, e.y - s.y);
            lemma_step_count(l as int);
        }
        let n: i64 = (l + STEP - 1) / STEP;
        let mut path: Vec<Pos> = Vec::new();
        let mut k: i64 = 0;
        while k < n
            invariant
                0 <= k <= n,
                n == step_count(seg_len(s, e)),
                l == seg_len(s, e),
                s.wf(),
                e.wf(),
                0 <= l < 4294967296,
                path@.len() == k,
                forall|j: int| 0 <= j < k ==> path@[j] == march_point(s, e, j),
                forall|j: int| 0 <= j < k ==> (#[trigger] path@[j]).wf(),
            decreases n - k,
        {
            proof {
                lemma_march_point_between(s, e, k as int);
                assert(k * STEP < l) by (nonlinear_arith)
                    requires
                        k <= n - 1,
                        (n - 1) * STEP < l,
                ;
            }
            let x = lerp_exec(s.x, e.x, k * STEP, l);
            let y = lerp_exec(s.y, e.y, k * STEP, l);
            path.push(Pos { x, y });
            k = k + 1;
        }
        path.push(e);
        assert(path@ =~= march_path(s, e));
        path
    }

    /// The unit vector (scaled by `UNIT`) from `start` toward `end`; zero when they meet.
    pub fn direction(&self) -> (r: Pos)
        requires
            self.wf(),
        ensures
            r.x == norm_comp(self.end.x - self.start.x, seg_len(self.start, self.end)),
            r.y == norm_comp(self.end.y - self.start.y, seg_len(self.start, self.end)),
            -UNIT <= r.x <= UNIT,
            -UNIT <= r.y <= UNIT,
    {
        self.end.minus(self.start).normalize()
    }

    /// The distance from `start` to `end`, rounded down.
    pub fn length(&self) -> (r: Coord)
        requires
            self.wf(),
        ensures
            r == seg_len(self.start, self.end),
    {
        self.end.minus(self.start).magnitude()
    }
}

/// A ray without an end: from a position, one step at a time along a direction.
#[derive(Clone, Copy, Debug)]
pub struct InifiniteRay {
    pos: Pos,
    direction: Pos,
}

impl InifiniteRay {
    /// The position reached so far.
    pub closed spec fn at(&self) -> Pos {
        self.pos
    }

    /// The step taken by each advance: the unit direction, scaled by `UNIT`.
    pub closed spec fn heading(&self) -> Pos {
        self.direction
    }

    /// The heading is a unit vector, or zero.
    pub open spec fn wf(&self) -> bool {
        -UNIT <= self.heading().x <= UNIT && -UNIT <= self.heading().y <= UNIT
    }

    pub fn new(start: Pos, direction: Pos) -> (r: InifiniteRay)
        requires
            direction.in_span(),
        ensures
            r.wf(),
            r.at() == start,
            r.heading().x == norm_comp(direction.x as int, mag(direction.x as int, direction.y as int)),
            r.heading().y == norm_comp(direction.y as int, mag(direction.x as int, direction.y as int)),
    {
        InifiniteRay { pos: start, direction: direction.normalize() }
    }

    /// Moves one step along the ray and returns the new position.
    pub fn advance(&mut self) -> (r: Pos)
        requires
            old(self).wf(),
            old(self).at().wf(),
        ensures
            final(self).wf(),
            final(self).heading() == old(self).heading(),
            r == final(self).at(),
            r.x == old(self).at().x + old(self).heading().x,
            r.y == old(self).at().y + old(self).heading().y,
    {
        self.pos = self.pos.plus(self.direction);
        self.pos
    }
}

/// The character of a marched position.
pub const STEP_CHAR: char = '*';

impl Drawable for Ray {
    open spec fn drawable(&self) -> bool {
        self.wf()
    }

    /// Paints each marched position.
    fn draw(&self, camera: &Camera, renderer: &mut Renderer)
        ensures
            final(renderer)@ == dots_painted(
                *camera,
                old(renderer)@,
                march_path(self.start, self.end),
                STEP_CHAR,
            ),
    {
        let path = self.march();
        let mut i: usize = 0;
        while i < path.len()
            invariant
                camera.wf(),
                renderer.wf(),
                renderer.spec_width() == old(renderer).spec_width(),
                renderer.spec_height() == old(renderer).spec_height(),
                renderer.messages() == old(renderer).messages(),
                forall|j: int| 0 <= j < path@.len() ==> (#[trigger] path@[j]).wf(),
                0 <= i <= path@.len(),
                renderer@ == dots_painted(*camera, old(renderer)@, path@.take(i as int), STEP_CHAR),
            decreases path@.len() - i,
        {
            camera.paint_dot(STEP_CHAR, path[i], renderer);
            i = i + 1;
            assert(path@.take(i as int).drop_last() =~= path@.take(i - 1));
        }
        assert(path@.take(path@.len() as int) =~= path@);
    }
}

} // verus!
