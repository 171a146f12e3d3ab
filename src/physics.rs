use vstd::prelude::*;

use crate::animation::{anim_step, AnimModel};
use crate::chain::{
    chain_step, deploy_model, retract_model, retracted_model, Chain, ChainModel, ChainState,
};
use crate::input::{Button, ButtonState, Input};
use crate::pos::{
    cell_of, clamp_world, div_trunc, is_floor_sqrt, lemma_comp_le_mag, lemma_floor_sqrt,
    lemma_isqrt_witness, lemma_mag_le_sum, lemma_mul_bound,
    lemma_scale_unit_bound, lemma_trunc_div_bound, lemma_trunc_div_scaled, mag, norm_comp,
    scale_comp, sign_of, trunc_div, world_of, Pos, Signed, UNIT,
};
use crate::ray::{march_path, InifiniteRay, Ray};
use crate::stage::{tile_at, Stage, Tile};

verus! {

/// Simulation ticks per second.
pub const UPDATE_RATE: i64 = 100;

/// Largest speed along each axis, in sub-units per second (1000 world units per second).
/// This limit is the simulation's own: it keeps the fixed-point arithmetic in range, and
/// speeds beyond it, whether from the forces or from a spring, are cut back to it.
pub const MAX_SPEED: i64 = 1_000_000;

/// More steps than a throw can take inside the world: from any position in the world,
/// that many steps along a heading lead out of it (`lemma_throw_leaves_world`), so this
/// bound never ends a throw by itself.
pub const THROW_BOUND: u64 = 3_000_000;

/// The physical constants of the game. Speeds are in sub-units per second, forces in
/// sub-units per second squared.
#[derive(Clone, Copy, Debug, PartialEq, Eq, Structural)]
pub struct Tuning {
    pub gravity: i64,
    /// Air drag is `speed^2 / air_drag_div`.
    pub air_drag_div: i64,
    /// The speed that a fresh swing gains along the tangent.
    pub swing_kick: i64,
    /// A spring multiplies the vertical speed by `spring_num / spring_den`.
    pub spring_num: i64,
    pub spring_den: i64,
    /// The least vertical speed that a spring gives.
    pub min_spring_vel: i64,
    /// The speed of a launch.
    pub jump_vel: i64,
}

/// The game's usual constants: gravity 100 units/s^2, drag 0.01 per unit of speed
/// squared, swing kick 30 units/s, springs 1.2 times faster and at least 50 units/s,
/// launches at 60 units/s.
pub open spec fn standard_tuning() -> Tuning {
    Tuning {
        gravity: 100_000,
        air_drag_div: 100_000,
        swing_kick: 30_000,
        spring_num: 6,
        spring_den: 5,
        min_spring_vel: 50_000,
        jump_vel: 60_000,
    }
}

impl Tuning {
    /// Every constant lies in the range that the simulation handles; springs speed up.
    pub open spec fn wf(&self) -> bool {
        &&& 0 <= self.gravity <= 10_000_000
        &&& 1 <= self.air_drag_div <= 1_000_000_000_000
        &&& 0 <= self.swing_kick <= 10_000_000
        &&& 1 <= self.spring_den <= 1_000_000
        &&& self.spring_den <= self.spring_num <= 1_000_000
        &&& 0 <= self.min_spring_vel <= MAX_SPEED
        &&& 0 <= self.jump_vel <= MAX_SPEED
    }

    /// The game's usual constants.
    pub fn standard() -> (r: Tuning)
        ensures
            r.wf(),
            r == standard_tuning(),
    {
        Tuning {
            gravity: 100_000,
            air_drag_div: 100_000,
            swing_kick: 30_000,
            spring_num: 6,
            spring_den: 5,
            min_spring_vel: 50_000,
            jump_vel: 60_000,
        }
    }
}

/// A speed moved into `[-MAX_SPEED, MAX_SPEED]`.
pub open spec fn clamp_speed(v: int) -> int {
    if v < -MAX_SPEED {
        -MAX_SPEED as int
    } else if v > MAX_SPEED {
        MAX_SPEED as int
    } else {
        v
    }
}

pub open spec fn abs(v: int) -> int {
    if v >= 0 {
        v
    } else {
        -v
    }
}

/// The vertical speed after a spring: the speed times the spring's factor, at least the
/// least spring speed, with its sign turned over (a speed of zero goes up).
pub open spec fn bounce(vy: int, t: Tuning) -> int {
    let k = trunc_div(abs(vy) * t.spring_num, t.spring_den as int);
    let m = if k >= t.min_spring_vel { k } else { t.min_spring_vel as int };
    clamp_speed(if vy >= 0 { -m } else { m })
}

/// The abstract state of a player.
pub struct PlayerModel {
    pub pos: Pos,
    pub vel: Pos,
    /// The tether's ray, from the player to the anchor.
    pub ray: Ray,
    pub chain: ChainModel,
    /// Resting against a surface: no gravity, and a launch is possible.
    pub stuck: bool,
    /// The death animation; it plays while the player is dying.
    pub anim: AnimModel,
    /// Where the player comes back after dying.
    pub checkpoint: Pos,
    pub tuning: Tuning,
}

/// What the controls ask of the player on one tick.
pub struct Controls {
    pub launch: bool,
    pub throw: bool,
    pub release: bool,
    /// The world position that launches and throws aim at.
    pub target: Pos,
}

/// The controls that an input state gives: the right mouse button launches, the left one
/// throws the tether and, on release, pulls it back; both aim at the mouse.
pub open spec fn controls_of(input: Input) -> Controls {
    Controls {
        launch: input.state_of(Button::RightMouse) == ButtonState::PressedThisFrame,
        throw: input.state_of(Button::LeftMouse) == ButtonState::PressedThisFrame,
        release: input.state_of(Button::LeftMouse) == ButtonState::ReleasedThisFrame,
        target: input.mouse_pos,
    }
}

/// The player brought back to its checkpoint after the death animation `a` ended: still,
/// stuck, without a tether, the animation rewound and paused.
pub open spec fn respawn(m: PlayerModel, a: AnimModel) -> PlayerModel {
    PlayerModel {
        pos: m.checkpoint,
        vel: Pos { x: 0, y: 0 },
        ray: Ray { start: m.checkpoint, end: m.checkpoint },
        chain: retracted_model(),
        stuck: true,
        anim: AnimModel { current: 0, left: a.frame_time, playing: false, ..a },
        ..m
    }
}

/// The death phase, while the animation plays: it advances, and once it is over the
/// player respawns. Nothing else happens on such a tick.
pub open spec fn death_phase(m: PlayerModel) -> PlayerModel {
    let a = anim_step(m.anim);
    if a.one_shot && a.current == a.frames.len() - 1 {
        respawn(m, a)
    } else {
        PlayerModel { anim: a, ..m }
    }
}

/// The unit vector (scaled by `UNIT`) from `from` toward `to`.
pub open spec fn heading(from: Pos, to: Pos) -> Pos {
    Pos {
        x: norm_comp(to.x - from.x, mag(to.x - from.x, to.y - from.y)) as i64,
        y: norm_comp(to.y - from.y, mag(to.x - from.x, to.y - from.y)) as i64,
    }
}

/// The launch phase: a stuck player that launches flies off toward the target at the
/// launch speed.
pub open spec fn launch_phase(m: PlayerModel, c: Controls) -> PlayerModel {
    if m.stuck && c.launch {
        let h = heading(m.pos, c.target);
        PlayerModel {
            stuck: false,
            vel: Pos {
                x: scale_comp(h.x as int, m.tuning.jump_vel as int) as i64,
                y: scale_comp(h.y as int, m.tuning.jump_vel as int) as i64,
            },
            ..m
        }
    } else {
        m
    }
}

/// The `k`-th step of a throw from `pos` along the unit vector `h`.
pub open spec fn throw_point(pos: Pos, h: Pos, k: int) -> Pos {
    Pos { x: (pos.x + k * h.x) as i64, y: (pos.y + k * h.y) as i64 }
}

/// A thrown tether passes through `p`: it lies in the world, on an empty tile of the map.
pub open spec fn clear_at(rows: Seq<Seq<char>>, p: Pos) -> bool {
    p.wf() && tile_at(rows, p) == Tile::Nothing
}

/// The last step of a throw that has come clear to step `j`.
pub open spec fn throw_reach(rows: Seq<Seq<char>>, pos: Pos, h: Pos, j: int) -> int
    decreases THROW_BOUND - j,
{
    if j < THROW_BOUND && clear_at(rows, throw_point(pos, h, j + 1)) {
        throw_reach(rows, pos, h, j + 1)
    } else {
        j
    }
}

/// Where a tether thrown from `pos` toward `target` anchors: the last of the clear steps
/// that follow one another from the first, stopping before the first step that is not
/// clear; none when the first step is not clear, or when `target` is `pos` itself.
pub open spec fn throw_anchor(rows: Seq<Seq<char>>, pos: Pos, target: Pos) -> Option<Pos> {
    let h = heading(pos, target);
    if pos == target || !clear_at(rows, throw_point(pos, h, 1)) {
        None
    } else {
        Some(throw_point(pos, h, throw_reach(rows, pos, h, 1)))
    }
}

/// The tether phase: a throw anchors and deploys the chain; a release retracts it;
/// otherwise the chain's animation runs.
pub open spec fn tether_phase(m: PlayerModel, c: Controls, rows: Seq<Seq<char>>) -> PlayerModel {
    if c.throw && m.pos != c.target {
        match throw_anchor(rows, m.pos, c.target) {
            Some(end) => PlayerModel {
                stuck: false,
                ray: Ray { start: m.ray.start, end },
                chain: deploy_model(m.chain),
                ..m
            },
            None => m,
        }
    } else if c.release {
        PlayerModel { chain: retract_model(m.chain), ..m }
    } else {
        PlayerModel { chain: chain_step(m.chain, march_path(m.ray.start, m.ray.end)), ..m }
    }
}

/// Gravity, pulling down unless the player is stuck.
pub open spec fn gravity_force(stuck: bool, t: Tuning) -> (int, int) {
    if stuck {
        (0, 0)
    } else {
        (0, t.gravity as int)
    }
}

/// Quadratic air drag against the velocity: `-v * |v| / air_drag_div`.
pub open spec fn drag_force(v: Pos, t: Tuning) -> (int, int) {
    let speed = mag(v.x as int, v.y as int);
    if speed > 0 {
        (
            -trunc_div(v.x * speed, t.air_drag_div as int),
            -trunc_div(v.y * speed, t.air_drag_div as int),
        )
    } else {
        (0, 0)
    }
}

/// The tether's pull on a player moving at `v` along a chain with ray `ray`: it cancels
/// the speed along the chain in one tick and holds against gravity's part along it;
/// right after a deploy it also kicks along the swing, when gravity favours the swing.
pub open spec fn chain_force(v: Pos, ray: Ray, just_deployed: bool, t: Tuning) -> (int, int) {
    let l = mag(ray.end.x - ray.start.x, ray.end.y - ray.start.y);
    let dx = norm_comp(ray.end.x - ray.start.x, l);
    let dy = norm_comp(ray.end.y - ray.start.y, l);
    let tx = dy;
    let ty = -dx;
    let along_swing = trunc_div(v.x * tx + v.y * ty, UNIT as int);
    let along_chain = trunc_div(v.y * tx - v.x * ty, UNIT as int);
    let spring = -along_chain * UPDATE_RATE;
    let pendulum = trunc_div(-t.gravity * dy, UNIT as int);
    let pull = (scale_comp(dx, spring + pendulum), scale_comp(dy, spring + pendulum));
    let vel_dir = sign_of(along_swing);
    if just_deployed && sign_of(ty) == vel_dir {
        let k = t.swing_kick * vel_dir * UPDATE_RATE;
        (pull.0 + scale_comp(tx, k), pull.1 + scale_comp(ty, k))
    } else {
        pull
    }
}

/// The sum of the forces on the player; gravity and drag do not act on a stuck player.
pub open spec fn total_force(m: PlayerModel) -> (int, int) {
    let g = gravity_force(m.stuck, m.tuning);
    let d = if m.stuck {
        (0, 0)
    } else {
        drag_force(m.vel, m.tuning)
    };
    let deployed = m.chain.state == ChainState::Deploying || m.chain.state == ChainState::Deployed;
    let c = if deployed {
        chain_force(m.vel, m.ray, m.chain.just_deployed, m.tuning)
    } else {
        (0, 0)
    };
    (g.0 + d.0 + c.0, g.1 + d.1 + c.1)
}

/// The velocity after one tick of the forces, within the speed limit.
pub open spec fn next_vel(m: PlayerModel) -> Pos {
    let f = total_force(m);
    Pos {
        x: clamp_speed(m.vel.x + trunc_div(f.0, UPDATE_RATE as int)) as i64,
        y: clamp_speed(m.vel.y + trunc_div(f.1, UPDATE_RATE as int)) as i64,
    }
}

/// Where the player would be after one tick at velocity `v`, within the world.
pub open spec fn next_pos(pos: Pos, v: Pos) -> Pos {
    Pos {
        x: clamp_world(pos.x + trunc_div(v.x as int, UPDATE_RATE as int)) as i64,
        y: clamp_world(pos.y + trunc_div(v.y as int, UPDATE_RATE as int)) as i64,
    }
}

/// The state of the collision walk.
pub struct Walk {
    pub pos: Pos,
    pub vel: Pos,
    pub stuck: bool,
    pub checkpoint: Pos,
    /// A hazard was touched.
    pub hit: bool,
    /// A solid tile stopped the walk.
    pub stopped: bool,
}

/// One marched position of the collision walk.
pub open spec fn walk_step(w: Walk, rows: Seq<Seq<char>>, p: Pos, t: Tuning) -> Walk {
    if w.stopped {
        w
    } else {
        match tile_at(rows, p) {
            Tile::OutOfBounds | Tile::Nothing => Walk { pos: p, ..w },
            Tile::Something => Walk {
                vel: Pos { x: 0, y: 0 },
                stuck: true,
                stopped: true,
                ..w
            },
            Tile::Spring => Walk { vel: Pos { x: w.vel.x, y: bounce(w.vel.y as int, t) as i64 }, ..w },
            Tile::Spike => Walk { hit: true, ..w },
            Tile::Checkpoint => Walk { checkpoint: world_of(cell_of(p)), pos: p, ..w },
        }
    }
}

/// The collision walk over the first `k` positions of `path`.
pub open spec fn walk_prefix(w: Walk, rows: Seq<Seq<char>>, path: Seq<Pos>, k: nat, t: Tuning) -> Walk
    decreases k,
{
    if k == 0 {
        w
    } else {
        walk_step(walk_prefix(w, rows, path, (k - 1) as nat, t), rows, path[k - 1], t)
    }
}

/// The player after moving from its position toward `target` at velocity `v`, tile by
/// tile along the marched path.
pub open spec fn collide(m: PlayerModel, v: Pos, target: Pos, rows: Seq<Seq<char>>) -> PlayerModel {
    let path = march_path(m.pos, target);
    let w0 = Walk {
        pos: m.pos,
        vel: v,
        stuck: m.stuck,
        checkpoint: m.checkpoint,
        hit: false,
        stopped: false,
    };
    let w = walk_prefix(w0, rows, path, path.len(), m.tuning);
    PlayerModel {
        pos: w.pos,
        vel: w.vel,
        stuck: w.stuck,
        checkpoint: w.checkpoint,
        anim: if w.hit { AnimModel { playing: true, ..m.anim } } else { m.anim },
        ..m
    }
}

/// The motion phases: forces, integration and the collision walk, after which the
/// tether's near end follows the player.
pub open spec fn motion_phase(m: PlayerModel, rows: Seq<Seq<char>>) -> PlayerModel {
    let v = next_vel(m);
    let moved = collide(m, v, next_pos(m.pos, v), rows);
    PlayerModel { ray: Ray { start: moved.pos, end: moved.ray.end }, ..moved }
}

/// One tick of the player.
pub open spec fn player_step(m: PlayerModel, c: Controls, rows: Seq<Seq<char>>) -> PlayerModel {
    if m.anim.playing {
        death_phase(m)
    } else {
        motion_phase(tether_phase(launch_phase(m, c), c, rows), rows)
    }
}

/// The player's state lies in range: positions in the world, speeds within the limit.
pub open spec fn model_wf(m: PlayerModel) -> bool {
    &&& m.pos.wf()
    &&& m.checkpoint.wf()
    &&& -MAX_SPEED <= m.vel.x <= MAX_SPEED
    &&& -MAX_SPEED <= m.vel.y <= MAX_SPEED
    &&& m.ray.wf()
    &&& m.tuning.wf()
}

/// The vertical speed after touching a spring.
pub fn spring_bounce(vy: i64, tuning: &Tuning) -> (r: i64)
    requires
        tuning.wf(),
        -MAX_SPEED <= vy <= MAX_SPEED,
    ensures
        r == bounce(vy as int, *tuning),
        -MAX_SPEED <= r <= MAX_SPEED,
{
    let a: i64 = if vy >= 0 { vy } else { -vy };
    proof {
        lemma_mul_bound(a as int, tuning.spring_num as int, MAX_SPEED as int, 1_000_000);
        lemma_trunc_div_bound(
            a * tuning.spring_num,
            tuning.spring_den as int,
            1_000_000_000_000,
        );
    }
    let k = div_trunc(a * tuning.spring_num, tuning.spring_den);
    let m = if k >= tuning.min_spring_vel { k } else { tuning.min_spring_vel };
    let v = if vy >= 0 { -m } else { m };
    clamp_speed_exec(v)
}

pub(crate) fn clamp_speed_exec(v: i64) -> (r: i64)
    ensures
        r == clamp_speed(v as int),
        -MAX_SPEED <= r <= MAX_SPEED,
{
    if v < -MAX_SPEED {
        -MAX_SPEED
    } else if v > MAX_SPEED {
        MAX_SPEED
    } else {
        v
    }
}

/// Where a tether thrown from `from` toward `target` anchors, if anywhere: the ray steps
/// out through empty tiles of the map, and the anchor is the last of them before the
/// first step that is not empty.
pub fn cast_tether(stage: &Stage, from: Pos, target: Pos) -> (r: Option<Pos>)
    requires
        from.wf(),
        target.wf(),
    ensures
        r == throw_anchor(stage@, from, target),
        r matches Some(p) ==> p.wf(),
{
    let ghost rows = stage@;
    let ghost h = heading(from, target);
    if from == target {
        return None;
    }
    let mut ray = InifiniteRay::new(from, target.minus(from));
    assert(ray.heading() == h);
    let first = ray.advance();
    assert(first == throw_point(from, h, 1));
    let mut first_clear = false;
    if first.in_world() {
        first_clear = stage.check_pos(first) == Tile::Nothing;
    }
    if !first_clear {
        return None;
    }
    let mut end = first;
    let mut j: u64 = 1;
    let mut blocked = false;
    while j < THROW_BOUND && !blocked
        invariant
            1 <= j <= THROW_BOUND,
            ray.wf(),
            ray.heading() == h,
            -UNIT <= h.x <= UNIT,
            -UNIT <= h.y <= UNIT,
            end == throw_point(from, h, j as int),
            end.wf(),
            from.wf(),
            blocked ==> throw_reach(rows, from, h, 1) == j,
            !blocked ==> ray.at() == end && throw_reach(rows, from, h, 1) == throw_reach(
                rows,
                from,
                h,
                j as int,
            ),
            rows == stage@,
        decreases 2 * (THROW_BOUND - j) + (if blocked { 0int } else { 1int }),
    {
        let next = ray.advance();
        assert(next == throw_point(from, h, j + 1)) by {
            lemma_mul_bound(j as int, h.x as int, THROW_BOUND as int, UNIT as int);
            lemma_mul_bound(j as int, h.y as int, THROW_BOUND as int, UNIT as int);
            assert((j + 1) * h.x == j * h.x + h.x) by (nonlinear_arith);
            assert((j + 1) * h.y == j * h.y + h.y) by (nonlinear_arith);
        }
        let mut clear = false;
        if next.in_world() {
            clear = stage.check_pos(next) == Tile::Nothing;
        }
        if clear {
            end = next;
            j = j + 1;
        } else {
            blocked = true;
        }
    }
    Some(end)
}

/// A velocity within the speed limit on each axis.
pub open spec fn speed_ok(v: Pos) -> bool {
    -MAX_SPEED <= v.x <= MAX_SPEED && -MAX_SPEED <= v.y <= MAX_SPEED
}

/// Quadratic air drag on a velocity.
pub(crate) fn drag(vel: Pos, tuning: &Tuning) -> (r: (i64, i64))
    requires
        speed_ok(vel),
        tuning.wf(),
    ensures
        r.0 == drag_force(vel, *tuning).0,
        r.1 == drag_force(vel, *tuning).1,
        -4_000_000_000_000 <= r.0 <= 4_000_000_000_000,
        -4_000_000_000_000 <= r.1 <= 4_000_000_000_000,
{
    let speed = vel.magnitude();
    if speed > 0 {
        proof {
            lemma_mag_le_sum(vel.x as int, vel.y as int);
            lemma_mul_bound(vel.x as int, speed as int, MAX_SPEED as int, 2 * MAX_SPEED);
            lemma_mul_bound(vel.y as int, speed as int, MAX_SPEED as int, 2 * MAX_SPEED);
            lemma_trunc_div_bound(vel.x * speed, tuning.air_drag_div as int, 2_000_000_000_000);
            lemma_trunc_div_bound(vel.y * speed, tuning.air_drag_div as int, 2_000_000_000_000);
        }
        (
            -div_trunc(vel.x * speed, tuning.air_drag_div),
            -div_trunc(vel.y * speed, tuning.air_drag_div),
        )
    } else {
        (0, 0)
    }
}

/// The tether's pull on a player moving at `vel`.
pub(crate) fn tether_pull(vel: Pos, chain: &Chain, tuning: &Tuning) -> (r: (i64, i64))
    requires
        speed_ok(vel),
        chain.wf(),
        tuning.wf(),
    ensures
        r.0 == chain_force(vel, chain.spec_ray(), chain.model().just_deployed, *tuning).0,
        r.1 == chain_force(vel, chain.spec_ray(), chain.model().just_deployed, *tuning).1,
        -2_000_000_000 <= r.0 <= 2_000_000_000,
        -2_000_000_000 <= r.1 <= 2_000_000_000,
{
    let d = chain.direction();
    let tan = chain.tangent();
    let vt = vel.transform_basis(tan);
    proof {
        lemma_mul_bound(vel.x as int, tan.x as int, MAX_SPEED as int, UNIT as int);
        lemma_mul_bound(vel.y as int, tan.y as int, MAX_SPEED as int, UNIT as int);
        lemma_mul_bound(vel.x as int, tan.y as int, MAX_SPEED as int, UNIT as int);
        lemma_mul_bound(vel.y as int, tan.x as int, MAX_SPEED as int, UNIT as int);
        lemma_trunc_div_scaled(vel.y * tan.x - vel.x * tan.y, UNIT as int, 2_000_000);
        lemma_mul_bound(tuning.gravity as int, d.y as int, 10_000_000, UNIT as int);
        assert(-tuning.gravity * d.y == -(tuning.gravity * d.y)) by (nonlinear_arith);
        lemma_trunc_div_bound(-tuning.gravity * d.y, UNIT as int, 10_000_000_000);
    }
    let spring = -vt.y * UPDATE_RATE;
    let pendulum = div_trunc(-tuning.gravity * d.y, UNIT);
    proof {
        lemma_scale_unit_bound(d.x as int, spring + pendulum, 210_000_000);
        lemma_scale_unit_bound(d.y as int, spring + pendulum, 210_000_000);
    }
    let pull = d.scale(spring + pendulum);
    let vel_dir = vt.x.sign();
    if chain.just_deployed() && tan.y.sign() == vel_dir {
        proof {
            lemma_mul_bound(tuning.swing_kick as int, vel_dir as int, 10_000_000, 1);
        }
        let k = tuning.swing_kick * vel_dir * UPDATE_RATE;
        proof {
            lemma_scale_unit_bound(tan.x as int, k as int, 1_000_000_000);
            lemma_scale_unit_bound(tan.y as int, k as int, 1_000_000_000);
        }
        let kick = tan.scale(k);
        (pull.x + kick.x, pull.y + kick.y)
    } else {
        (pull.x, pull.y)
    }
}

/// Once a solid tile has stopped the walk, the rest of the path changes nothing.
pub(crate) proof fn lemma_walk_stays(w0: Walk, rows: Seq<Seq<char>>, path: Seq<Pos>, k: nat, n: nat, t: Tuning)
    requires
        k <= n,
        walk_prefix(w0, rows, path, k, t).stopped,
    ensures
        walk_prefix(w0, rows, path, n, t) == walk_prefix(w0, rows, path, k, t),
    decreases n,
{
    if n > k {
        lemma_walk_stays(w0, rows, path, k, (n - 1) as nat, t);
    }
}

proof fn lemma_throw_reach(rows: Seq<Seq<char>>, pos: Pos, h: Pos, j: int)
    requires
        1 <= j <= THROW_BOUND,
    ensures
        j <= throw_reach(rows, pos, h, j) <= THROW_BOUND,
        forall|i: int|
            j < i <= throw_reach(rows, pos, h, j) ==> #[trigger] clear_at(
                rows,
                throw_point(pos, h, i),
            ),
        throw_reach(rows, pos, h, j) < THROW_BOUND ==> !clear_at(
            rows,
            throw_point(pos, h, throw_reach(rows, pos, h, j) + 1),
        ),
    decreases THROW_BOUND - j,
{
    if j < THROW_BOUND && clear_at(rows, throw_point(pos, h, j + 1)) {
        lemma_throw_reach(rows, pos, h, j + 1);
    }
}

/// A thrown tether anchors at the last clear step before the first step that is not
/// clear (a tile other than empty space, off the map, or outside the world): every step
/// from the first to the anchor is clear, and the one after it is not. There is no
/// anchor exactly when the target is the thrower's position or the first step is not
/// clear.
pub proof fn lemma_tether_anchor(rows: Seq<Seq<char>>, pos: Pos, target: Pos)
    requires
        pos.wf(),
        target.wf(),
    ensures
        ({
            let h = heading(pos, target);
            &&& throw_anchor(rows, pos, target) is None <==> (pos == target || !clear_at(
                rows,
                throw_point(pos, h, 1),
            ))
            &&& throw_anchor(rows, pos, target) matches Some(a) ==> {
                let r = throw_reach(rows, pos, h, 1);
                &&& 1 <= r < THROW_BOUND
                &&& a == throw_point(pos, h, r)
                &&& forall|i: int|
                    1 <= i <= r ==> #[trigger] clear_at(rows, throw_point(pos, h, i))
                &&& !clear_at(rows, throw_point(pos, h, r + 1))
            }
        }),
{
    let h = heading(pos, target);
    lemma_throw_reach(rows, pos, h, 1);
    if pos != target {
        lemma_heading_dominant(pos, target);
        lemma_throw_leaves_world(pos, h);
        let r = throw_reach(rows, pos, h, 1);
        if r == THROW_BOUND {
            assert(clear_at(rows, throw_point(pos, h, r)));
        }
    }
}

/// The heading between two distinct positions has a component of at least `0.7` (in
/// units of `UNIT`).
pub proof fn lemma_heading_dominant(from: Pos, to: Pos)
    requires
        from.wf(),
        to.wf(),
        from != to,
    ensures
        heading(from, to).x <= -700 || heading(from, to).x >= 700 || heading(from, to).y
            <= -700 || heading(from, to).y >= 700,
        -UNIT <= heading(from, to).x <= UNIT,
        -UNIT <= heading(from, to).y <= UNIT,
{
    let x = to.x - from.x;
    let y = to.y - from.y;
    let m = mag(x, y);
    lemma_comp_le_mag(x, y);
    assert(x * x + y * y >= 0) by (nonlinear_arith);
    lemma_isqrt_witness(x * x + y * y);
    assert(m * m <= x * x + y * y);
    let ax = if x >= 0 { x } else { -x };
    let ay = if y >= 0 { y } else { -y };
    assert(ax * ax == x * x && ay * ay == y * y) by (nonlinear_arith)
        requires
            ax == x || ax == -x,
            ay == y || ay == -y,
    ;
    let big = if 10 * ax >= 7 * m { ax } else { ay };
    if 10 * ax < 7 * m && 10 * ay < 7 * m {
        assert(100 * (ax * ax) < 49 * (m * m)) by (nonlinear_arith)
            requires
                0 <= 10 * ax < 7 * m,
        ;
        assert(100 * (ay * ay) < 49 * (m * m)) by (nonlinear_arith)
            requires
                0 <= 10 * ay < 7 * m,
        ;
        assert(false);
    }
    assert(10 * big >= 7 * m);
    assert(big * UNIT >= 700 * m) by (nonlinear_arith)
        requires
            10 * big >= 7 * m,
    ;
    assert(700 * m >= 0 && (700 * m) / m == 700) by {
        vstd::arithmetic::div_mod::lemma_div_by_multiple(700, m);
        assert(700 * m == m * 700) by (nonlinear_arith);
    }
    vstd::arithmetic::div_mod::lemma_div_is_ordered(700 * m, big * UNIT, m);
    crate::pos::lemma_unit_comp_pub(x, m);
    crate::pos::lemma_unit_comp_pub(y, m);
    if big == ax {
        if x < 0 {
            assert((-x) * UNIT == -(x * UNIT)) by (nonlinear_arith);
        }
    } else {
        if y < 0 {
            assert((-y) * UNIT == -(y * UNIT)) by (nonlinear_arith);
        }
    }
}

/// From a position in the world, `THROW_BOUND` steps along a heading with a component of
/// at least `0.7` lead out of the world.
pub proof fn lemma_throw_leaves_world(pos: Pos, h: Pos)
    requires
        pos.wf(),
        -UNIT <= h.x <= UNIT,
        -UNIT <= h.y <= UNIT,
        h.x <= -700 || h.x >= 700 || h.y <= -700 || h.y >= 700,
    ensures
        !throw_point(pos, h, THROW_BOUND as int).wf(),
{
    let b = THROW_BOUND as int;
    lemma_mul_bound(b, h.x as int, b, UNIT as int);
    lemma_mul_bound(b, h.y as int, b, UNIT as int);
    if h.x >= 700 {
        assert(b * h.x >= b * 700) by (nonlinear_arith)
            requires
                h.x >= 700,
                b >= 0,
        ;
    } else if h.x <= -700 {
        assert(b * h.x <= b * -700) by (nonlinear_arith)
            requires
                h.x <= -700,
                b >= 0,
        ;
    } else if h.y >= 700 {
        assert(b * h.y >= b * 700) by (nonlinear_arith)
            requires
                h.y >= 700,
                b >= 0,
        ;
    } else {
        assert(b * h.y <= b * -700) by (nonlinear_arith)
            requires
                h.y <= -700,
                b >= 0,
        ;
    }
}

/// A spring turns the vertical speed over and sets its size to the larger of the
/// incoming size times the spring's factor and the least spring speed, as long as that
/// size is within the speed limit.
pub proof fn lemma_spring_bounce(v: int, t: Tuning)
    requires
        t.wf(),
        -MAX_SPEED <= v <= MAX_SPEED,
        v != 0,
        trunc_div(abs(v) * t.spring_num, t.spring_den as int) <= MAX_SPEED,
    ensures
        abs(bounce(v, t)) == (if trunc_div(abs(v) * t.spring_num, t.spring_den as int)
            >= t.min_spring_vel {
            trunc_div(abs(v) * t.spring_num, t.spring_den as int)
        } else {
            t.min_spring_vel as int
        }),
        sign_of(bounce(v, t)) == -sign_of(v),
{
    let a = abs(v);
    assert(a * t.spring_den <= a * t.spring_num) by (nonlinear_arith)
        requires
            a >= 1,
            t.spring_den <= t.spring_num,
    ;
    assert(a * t.spring_num >= 0) by (nonlinear_arith)
        requires
            a >= 1,
            t.spring_num >= 1,
    ;
    vstd::arithmetic::div_mod::lemma_div_is_ordered(
        a * t.spring_den,
        a * t.spring_num,
        t.spring_den as int,
    );
    vstd::arithmetic::div_mod::lemma_div_by_multiple(a, t.spring_den as int);
}

/// A walk over a checkpoint tile records that tile's cell, as a world position, as the
/// place to come back to.
pub proof fn lemma_checkpoint_recorded(w: Walk, rows: Seq<Seq<char>>, p: Pos, t: Tuning)
    requires
        !w.stopped,
        tile_at(rows, p) == Tile::Checkpoint,
    ensures
        walk_step(w, rows, p, t).checkpoint == world_of(cell_of(p)),
        walk_step(w, rows, p, t).pos == p,
{
}

/// When the death animation ends, the player is back at its checkpoint, still, stuck to
/// the surface, with its tether gone.
pub proof fn lemma_death_returns_to_checkpoint(m: PlayerModel, c: Controls, rows: Seq<Seq<char>>)
    requires
        model_wf(m),
        m.anim.playing,
        anim_step(m.anim).one_shot,
        anim_step(m.anim).current == anim_step(m.anim).frames.len() - 1,
    ensures
        player_step(m, c, rows).pos == m.checkpoint,
        player_step(m, c, rows).vel == (Pos { x: 0, y: 0 }),
        player_step(m, c, rows).stuck,
        !player_step(m, c, rows).anim.playing,
        player_step(m, c, rows).chain.state == ChainState::Retracted,
{
}

proof fn lemma_walk_clear(w0: Walk, rows: Seq<Seq<char>>, path: Seq<Pos>, k: nat, t: Tuning)
    requires
        !w0.stopped,
        k <= path.len(),
        forall|i: int|
            0 <= i < path.len() ==> #[trigger] tile_at(rows, path[i]) == Tile::Nothing || tile_at(
                rows,
                path[i],
            ) == Tile::OutOfBounds,
    ensures
        walk_prefix(w0, rows, path, k, t).vel == w0.vel,
        !walk_prefix(w0, rows, path, k, t).stopped,
    decreases k,
{
    if k > 0 {
        lemma_walk_clear(w0, rows, path, (k - 1) as nat, t);
    }
}

/// A player in free fall, with no tether and nothing in its way, falls faster each tick
/// while gravity outweighs the drag by at least one unit of speed per tick.
pub proof fn lemma_free_fall_speeds_up(m: PlayerModel, c: Controls, rows: Seq<Seq<char>>)
    requires
        model_wf(m),
        !m.stuck,
        !m.anim.playing,
        m.chain.state == ChainState::Retracted,
        !c.throw,
        !c.release,
        m.vel.y < MAX_SPEED,
        trunc_div(m.vel.y * mag(m.vel.x as int, m.vel.y as int), m.tuning.air_drag_div as int)
            <= m.tuning.gravity - UPDATE_RATE,
        ({
            let m2 = tether_phase(launch_phase(m, c), c, rows);
            let path = march_path(m2.pos, next_pos(m2.pos, next_vel(m2)));
            forall|i: int|
                0 <= i < path.len() ==> #[trigger] tile_at(rows, path[i]) == Tile::Nothing
                    || tile_at(rows, path[i]) == Tile::OutOfBounds
        }),
    ensures
        player_step(m, c, rows).vel.y > m.vel.y,
{
    let m2 = tether_phase(launch_phase(m, c), c, rows);
    assert(m2.vel == m.vel && m2.chain.state == ChainState::Retracted && !m2.stuck);
    let f = total_force(m2);
    let speed = mag(m.vel.x as int, m.vel.y as int);
    lemma_comp_le_mag(m.vel.x as int, m.vel.y as int);
    if speed > 0 {
        assert(f.1 == m.tuning.gravity - trunc_div(
            m.vel.y * speed,
            m.tuning.air_drag_div as int,
        ));
    } else {
        assert(f.1 == m.tuning.gravity);
        assert(m.vel.y * speed == 0) by (nonlinear_arith)
            requires
                speed == 0,
        ;
    }
    assert(f.1 >= UPDATE_RATE);
    vstd::arithmetic::div_mod::lemma_div_is_ordered(UPDATE_RATE as int, f.1, UPDATE_RATE as int);
    let v = next_vel(m2);
    assert(v.y > m.vel.y);
    let path = march_path(m2.pos, next_pos(m2.pos, v));
    let w0 = Walk {
        pos: m2.pos,
        vel: v,
        stuck: m2.stuck,
        checkpoint: m2.checkpoint,
        hit: false,
        stopped: false,
    };
    lemma_walk_clear(w0, rows, path, path.len(), m2.tuning);
}

/// With the usual constants, a player falling straight down in free fall, with no tether
/// and nothing in its way, never falls faster than the speed at which drag balances
/// gravity (100 units per second), and never slower than before.
pub proof fn lemma_free_fall_stays_below_terminal(m: PlayerModel, c: Controls, rows: Seq<Seq<char>>)
    requires
        model_wf(m),
        m.tuning == standard_tuning(),
        !m.stuck,
        !m.anim.playing,
        m.chain.state == ChainState::Retracted,
        !c.throw,
        !c.release,
        m.vel.x == 0,
        0 <= m.vel.y <= 100_000,
        ({
            let m2 = tether_phase(launch_phase(m, c), c, rows);
            let path = march_path(m2.pos, next_pos(m2.pos, next_vel(m2)));
            forall|i: int|
                0 <= i < path.len() ==> #[trigger] tile_at(rows, path[i]) == Tile::Nothing
                    || tile_at(rows, path[i]) == Tile::OutOfBounds
        }),
    ensures
        m.vel.y <= player_step(m, c, rows).vel.y <= 100_000,
        player_step(m, c, rows).vel.x == 0,
{
    let m2 = tether_phase(launch_phase(m, c), c, rows);
    assert(m2.vel == m.vel && m2.chain.state == ChainState::Retracted && !m2.stuck);
    let vy = m.vel.y as int;
    assert(0 * 0 + vy * vy == vy * vy);
    assert(is_floor_sqrt(vy * vy, vy)) by {
        assert(vy * vy < (vy + 1) * (vy + 1)) by (nonlinear_arith)
            requires
                vy >= 0,
        ;
    }
    lemma_floor_sqrt(vy * vy, vy);
    assert(mag(0, vy) == vy);
    let sq = vy * vy;
    assert(0 <= sq <= 10_000_000_000) by (nonlinear_arith)
        requires
            0 <= vy <= 100_000,
            sq == vy * vy,
    ;
    let q = sq / 100_000;
    vstd::arithmetic::div_mod::lemma_fundamental_div_mod(sq, 100_000);
    vstd::arithmetic::div_mod::lemma_div_is_ordered(sq, 10_000_000_000, 100_000);
    vstd::arithmetic::div_mod::lemma_div_pos_is_pos(sq, 100_000);
    let f = total_force(m2);
    if vy > 0 {
        assert(f.1 == 100_000 - q);
    } else {
        assert(f.1 == 100_000);
        assert(q == 0);
    }
    assert(f.0 == 0) by {
        assert(0 * vy == 0);
    }
    let d = (100_000 - q) / 100;
    vstd::arithmetic::div_mod::lemma_fundamental_div_mod(100_000 - q, 100);
    vstd::arithmetic::div_mod::lemma_div_pos_is_pos(100_000 - q, 100);
    let e = 100_000 - vy;
    assert(100 * d <= 2 * e) by (nonlinear_arith)
        requires
            100 * d <= 100_000 - q,
            100_000 * q > sq - 100_000,
            sq == vy * vy,
            e == 100_000 - vy,
            0 <= vy <= 100_000,
    ;
    let v = next_vel(m2);
    assert(v.y == vy + d);
    assert(v.x == 0);
    let path = march_path(m2.pos, next_pos(m2.pos, v));
    let w0 = Walk {
        pos: m2.pos,
        vel: v,
        stuck: m2.stuck,
        checkpoint: m2.checkpoint,
        hit: false,
        stopped: false,
    };
    lemma_walk_clear(w0, rows, path, path.len(), m2.tuning);
}

} // verus!
