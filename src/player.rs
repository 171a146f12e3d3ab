use vstd::prelude::*;

use crate::animation::Animation;
use crate::chain::{Chain, ChainState, LINK_CHAR};
use crate::input::{Button, Input};
use crate::physics::{
    clamp_speed_exec, collide, controls_of, death_phase, drag, launch_phase, lemma_walk_stays,
    model_wf, next_pos, next_vel, player_step, speed_ok, spring_bounce, standard_tuning,
    tether_phase, tether_pull, cast_tether, walk_prefix, PlayerModel, Tuning, Walk, MAX_SPEED,
    UPDATE_RATE,
};
use crate::pos::{
    cell_of, clamp_coord, clamp_world, div_trunc, lemma_cell_of_wf, lemma_cell_of_world,
    lemma_scale_unit_bound, lemma_trunc_div_bound, world_of, Pos, ScreenPos, CELL_LIMIT_X,
    CELL_LIMIT_Y, UNIT,
};
use crate::ray::{march_path, Ray};
use crate::render::{dot_painted, dots_painted, rows_of, Camera, Drawable, Renderer, Sprite};
use crate::stage::{Stage, Tile};

verus! {

/// The player: a dot that launches off surfaces and swings on its tether.
pub struct Player {
    pub pos: Pos,
    vel: Pos,
    chain: Chain,
    stuck: bool,
    death_anim: Animation,
    death_anim_offset: Pos,
    checkpoint: Pos,
    tuning: Tuning,
}

impl Player {
    pub closed spec fn model(&self) -> PlayerModel {
        PlayerModel {
            pos: self.pos,
            vel: self.vel,
            ray: self.chain.spec_ray(),
            chain: self.chain.model(),
            stuck: self.stuck,
            anim: self.death_anim.model(),
            checkpoint: self.checkpoint,
            tuning: self.tuning,
        }
    }

    /// The state lies in range, and the tether starts at the player.
    pub closed spec fn wf(&self) -> bool {
        self.inv() && self.chain.spec_ray().start == self.pos
    }

    /// The state lies in range; the tether may lag behind the player.
    closed spec fn inv(&self) -> bool {
        &&& model_wf(self.model())
        &&& self.chain.wf()
        &&& self.death_anim.wf()
        &&& self.death_anim.model().one_shot
        &&& self.death_anim_offset.x == -UNIT
        &&& self.death_anim_offset.y == -2 * UNIT
    }

    /// A player at rest at `pos`, which is also its first checkpoint, with the usual
    /// constants.
    pub fn new(pos: Pos) -> (r: Player)
        requires
            pos.wf(),
        ensures
            r.wf(),
            r.model().pos == pos,
            r.model().ray.start == pos,
            r.model().vel == (Pos { x: 0, y: 0 }),
            r.model().checkpoint == pos,
            r.model().stuck,
            !r.model().anim.playing,
            r.model().chain.state == ChainState::Retracted,
            r.model().tuning == standard_tuning(),
    {
        Player::with_tuning(pos, Tuning::standard())
    }

    /// A player at rest at `pos`, which is also its first checkpoint.
    pub fn with_tuning(pos: Pos, tuning: Tuning) -> (r: Player)
        requires
            pos.wf(),
            tuning.wf(),
        ensures
            r.wf(),
            r.model().pos == pos,
            r.model().ray.start == pos,
            r.model().vel == (Pos { x: 0, y: 0 }),
            r.model().checkpoint == pos,
            r.model().stuck,
            !r.model().anim.playing,
            r.model().chain.state == ChainState::Retracted,
            r.model().tuning == tuning,
    {
        let frames: Vec<Sprite> = vec![
            vec![vec!['\\', '|', '/'], vec!['-', '*', '-'], vec!['/', '|', '\\']],
            vec![vec!['*', '*', '*'], vec!['*', ' ', '*'], vec!['*', '*', '*']],
            Vec::new(),
            Vec::new(),
            Vec::new(),
            Vec::new(),
            Vec::new(),
            Vec::new(),
        ];
        let mut death_anim = Animation::new(frames, 100_000, true);
        death_anim.pause();
        Player {
            pos,
            vel: Pos::new(0, 0),
            chain: Chain::new(Ray { start: pos, end: pos }),
            stuck: true,
            death_anim,
            death_anim_offset: ScreenPos::new(-1, -1).to_world(),
            checkpoint: pos,
            tuning,
        }
    }

    /// Runs the death animation, if it plays; returns whether it did.
    fn death(&mut self) -> (dying: bool)
        requires
            old(self).wf(),
        ensures
            final(self).wf(),
            dying == old(self).model().anim.playing,
            dying ==> final(self).model() == death_phase(old(self).model()),
            !dying ==> final(self).model() == old(self).model(),
    {
        if !self.death_anim.playing() {
            return false;
        }
        self.death_anim.update();
        if self.death_anim.done() {
            self.pos = self.checkpoint;
            self.vel = Pos::new(0, 0);
            self.chain = Chain::new(Ray { start: self.checkpoint, end: self.checkpoint });
            self.stuck = true;
            self.death_anim.reset();
            self.death_anim.pause();
        }
        true
    }

    /// Launches a stuck player toward the target.
    pub fn jump(&mut self, input: &Input)
        requires
            old(self).wf(),
            input.wf(),
        ensures
            final(self).wf(),
            final(self).model() == launch_phase(old(self).model(), controls_of(*input)),
    {
        if self.stuck && input.pressed_this_frame(Button::RightMouse) {
            self.stuck = false;
            let dir = input.mouse_pos.minus(self.pos).normalize();
            proof {
                lemma_scale_unit_bound(dir.x as int, self.tuning.jump_vel as int, MAX_SPEED as int);
                lemma_scale_unit_bound(dir.y as int, self.tuning.jump_vel as int, MAX_SPEED as int);
            }
            self.vel = dir.scale(self.tuning.jump_vel);
        }
    }

    /// Throws, releases or runs the tether.
    fn chain_throw(&mut self, input: &Input, stage: &Stage)
        requires
            old(self).wf(),
            input.wf(),
        ensures
            final(self).wf(),
            final(self).model() == tether_phase(
                old(self).model(),
                controls_of(*input),
                stage@,
            ),
    {
        if input.pressed_this_frame(Button::LeftMouse) && self.pos != input.mouse_pos {
            match cast_tether(stage, self.pos, input.mouse_pos) {
                Some(end) => {
                    self.stuck = false;
                    self.chain.set_end(end);
                    self.chain.deploy();
                },
                None => {},
            }
        } else if input.released_this_frame(Button::LeftMouse) {
            self.chain.retract();
        } else {
            self.chain.update();
        }
    }

    /// The velocity after this tick's forces, and where it takes the player.
    fn kinematics(&self) -> (r: (Pos, Pos))
        requires
            self.wf(),
        ensures
            r.0 == next_vel(self.model()),
            r.1 == next_pos(self.model().pos, r.0),
            speed_ok(r.0),
            r.1.wf(),
    {
        let t = self.tuning;
        let g: (i64, i64) = if self.stuck {
            (0, 0)
        } else {
            (0, t.gravity)
        };
        let d: (i64, i64) = if self.stuck {
            (0, 0)
        } else {
            drag(self.vel, &t)
        };
        let c: (i64, i64) = if self.chain.deployed() {
            tether_pull(self.vel, &self.chain, &t)
        } else {
            (0, 0)
        };
        let fx = g.0 + d.0 + c.0;
        let fy = g.1 + d.1 + c.1;
        proof {
            lemma_trunc_div_bound(fx as int, UPDATE_RATE as int, 5_000_000_000_000);
            lemma_trunc_div_bound(fy as int, UPDATE_RATE as int, 5_000_000_000_000);
        }
        let vel = Pos::new(
            clamp_speed_exec(self.vel.x + div_trunc(fx, UPDATE_RATE)),
            clamp_speed_exec(self.vel.y + div_trunc(fy, UPDATE_RATE)),
        );
        proof {
            lemma_trunc_div_bound(vel.x as int, UPDATE_RATE as int, MAX_SPEED as int);
            lemma_trunc_div_bound(vel.y as int, UPDATE_RATE as int, MAX_SPEED as int);
        }
        let target = Pos::new(
            clamp_coord(self.pos.x + div_trunc(vel.x, UPDATE_RATE)),
            clamp_coord(self.pos.y + div_trunc(vel.y, UPDATE_RATE)),
        );
        (vel, target)
    }

    /// Walks the player from its position toward `new_pos` at velocity `vel`, reacting to
    /// each tile on the way.
    fn collision(&mut self, vel: Pos, new_pos: Pos, stage: &Stage)
        requires
            old(self).wf(),
            speed_ok(vel),
            new_pos.wf(),
        ensures
            final(self).inv(),
            final(self).model() == collide(old(self).model(), vel, new_pos, stage@),
    {
        let path = Ray { start: self.pos, end: new_pos }.march();
        let ghost w0 = Walk {
            pos: self.pos,
            vel,
            stuck: self.stuck,
            checkpoint: self.checkpoint,
            hit: false,
            stopped: false,
        };
        let tuning = self.tuning;
        let mut pos = self.pos;
        let mut v = vel;
        let mut stuck = self.stuck;
        let mut checkpoint = self.checkpoint;
        let mut hit = false;
        let mut stopped = false;
        let mut k: usize = 0;
        while k < path.len() && !stopped
            invariant
                0 <= k <= path@.len(),
                path@ == march_path(old(self).pos, new_pos),
                (Walk { pos, vel: v, stuck, checkpoint, hit, stopped }) == walk_prefix(
                    w0,
                    stage@,
                    path@,
                    k as nat,
                    tuning,
                ),
                pos.wf(),
                checkpoint.wf(),
                speed_ok(v),
                tuning.wf(),
                forall|i: int| 0 <= i < path@.len() ==> (#[trigger] path@[i]).wf(),
            decreases path@.len() - k,
        {
            let p = path[k];
            match stage.check_pos(p) {
                Tile::OutOfBounds | Tile::Nothing => {
                    pos = p;
                },
                Tile::Something => {
                    v = Pos::new(0, 0);
                    stuck = true;
                    stopped = true;
                },
                Tile::Spring => {
                    v = Pos::new(v.x, spring_bounce(v.y, &tuning));
                },
                Tile::Spike => {
                    hit = true;
                },
                Tile::Checkpoint => {
                    proof {
                        lemma_cell_of_wf(p);
                        lemma_cell_of_world(cell_of(p));
                    }
                    checkpoint = p.to_cell().to_world();
                    pos = p;
                },
            }
            k = k + 1;
        }
        proof {
            if stopped {
                lemma_walk_stays(w0, stage@, path@, k as nat, path@.len(), tuning);
            }
        }
        self.pos = pos;
        self.vel = v;
        self.stuck = stuck;
        self.checkpoint = checkpoint;
        if hit {
            self.death_anim.play();
        }
    }

    /// One tick: the death animation, or else launch, tether, forces, motion and
    /// collisions, in that order.
    pub fn update(&mut self, input: &Input, stage: &Stage)
        requires
            old(self).wf(),
            input.wf(),
        ensures
            final(self).wf(),
            final(self).model() == player_step(old(self).model(), controls_of(*input), stage@),
            final(self).model().ray.start == final(self).model().pos,
    {
        if self.death() {
            return;
        }
        self.jump(input);
        self.chain_throw(input, stage);
        let (vel, new_pos) = self.kinematics();
        self.collision(vel, new_pos, stage);
        self.chain.set_start(self.pos);
    }

    pub fn vel(&self) -> (r: Pos)
        ensures
            r == self.model().vel,
    {
        self.vel
    }

    /// Whether the player rests against a surface.
    pub fn anchored(&self) -> (r: bool)
        ensures
            r == self.model().stuck,
    {
        self.stuck
    }

    pub fn checkpoint(&self) -> (r: Pos)
        ensures
            r == self.model().checkpoint,
    {
        self.checkpoint
    }

    /// Whether the death animation plays.
    pub fn dying(&self) -> (r: bool)
        ensures
            r == self.model().anim.playing,
    {
        self.death_anim.playing()
    }

    pub fn chain(&self) -> (r: &Chain)
        ensures
            r.spec_ray() == self.model().ray,
            r.model() == self.model().chain,
    {
        &self.chain
    }
}

/// The character that shows the player.
pub const PLAYER_CHAR: char = 'O';

impl Drawable for Player {
    open spec fn drawable(&self) -> bool {
        self.wf()
    }

    /// Paints the tether, and the player: a dot, or the death animation around it.
    fn draw(&self, camera: &Camera, renderer: &mut Renderer)
        ensures
            ({
                let m = self.model();
                let mid = dots_painted(
                    *camera,
                    old(renderer)@,
                    m.chain.links.take(m.chain.out),
                    LINK_CHAR,
                );
                if m.anim.playing {
                    let at = Pos {
                        x: clamp_world(m.pos.x - UNIT) as i64,
                        y: clamp_world(m.pos.y - 2 * UNIT) as i64,
                    };
                    let sprite = rows_of(m.anim.frames[m.anim.current]@);
                    &&& final(renderer)@.len() == mid.len()
                    &&& forall|fy: int, fx: int|
                        0 <= fy < mid.len() && 0 <= fx < mid[fy].len()
                            ==> #[trigger] final(renderer)@[fy][fx] == match camera.sprite_dot(
                            sprite,
                            at,
                            fx,
                            fy,
                        ) {
                            Some(ch) => ch,
                            None => mid[fy][fx],
                        }
                } else {
                    final(renderer)@ == dot_painted(*camera, mid, m.pos, PLAYER_CHAR)
                }
            }),
    {
        self.chain.draw(camera, renderer);
        if self.death_anim.playing() {
            let at = Pos::new(
                clamp_coord(self.pos.x + self.death_anim_offset.x),
                clamp_coord(self.pos.y + self.death_anim_offset.y),
            );
            camera.paint_sprite(self.death_anim.get_frame(), at, renderer);
        } else {
            camera.paint_dot(PLAYER_CHAR, self.pos, renderer);
        }
    }
}

/// `v` moved into `[-lim, lim]`.
pub open spec fn clamp_to(v: int, lim: int) -> int {
    if v < -lim {
        -lim
    } else if v > lim {
        lim
    } else {
        v
    }
}

/// The cell that the camera's top-left corner moves to so that the window centres on
/// `pos`, kept in the world.
pub open spec fn follow_cell(cam: Camera, pos: Pos) -> ScreenPos {
    ScreenPos {
        x: clamp_to(cell_of(pos).x - cam.width / 2, CELL_LIMIT_X as int) as i64,
        y: clamp_to(cell_of(pos).y - cam.height / 2, CELL_LIMIT_Y as int) as i64,
    }
}

fn clamp_cell(v: i64, lim: i64) -> (r: i64)
    requires
        lim >= 0,
    ensures
        r == clamp_to(v as int, lim as int),
{
    if v < -lim {
        -lim
    } else if v > lim {
        lim
    } else {
        v
    }
}

impl Camera {
    /// Centres the window on the player, on whole cells.
    pub fn update(&mut self, player: &Player)
        requires
            old(self).wf(),
            player.wf(),
        ensures
            final(self).wf(),
            final(self).frame_pos == old(self).frame_pos,
            final(self).width == old(self).width,
            final(self).height == old(self).height,
            final(self).pos == world_of(follow_cell(*old(self), player.model().pos)),
    {
        proof {
            lemma_cell_of_wf(player.pos);
        }
        let cell = player.pos.to_cell();
        let target = ScreenPos::new(
            clamp_cell(cell.x - (self.width / 2) as i64, CELL_LIMIT_X),
            clamp_cell(cell.y - (self.height / 2) as i64, CELL_LIMIT_Y),
        );
        self.pos = target.to_world();
    }
}

} // verus!
