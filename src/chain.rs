use vstd::prelude::*;

use crate::pos::{is_floor_sqrt, lemma_comp_le_mag, lemma_isqrt_witness, mag, norm_comp, Pos, UNIT};
use crate::ray::{march_path, seg_len, Ray, STEP};
use crate::render::{dots_painted, Camera, Drawable, Renderer};

verus! {

/// The fixed simulation tick, in microseconds.
pub const TICK_US: u64 = 10_000;

/// The time that one link of the chain takes to come out or go back, in microseconds.
pub const LINK_TIME_US: u64 = 5_000;

/// Where the chain is in its deploy / retract animation.
#[derive(Clone, Copy, Debug, PartialEq, Eq, Structural)]
pub enum ChainState {
    Deploying,
    Deployed,
    Retracting,
    Retracted,
}

/// The abstract state of a chain, apart from its ray.
pub struct ChainModel {
    pub state: ChainState,
    /// The positions of the links along the ray, as last marched.
    pub links: Seq<Pos>,
    /// How many links are visible.
    pub out: int,
    /// Time since the last deploy or retract, in microseconds.
    pub elapsed: int,
    /// How many links were visible when the retraction began.
    pub retract_from: int,
    /// Whether `deploy` was called since the last update.
    pub just_deployed: bool,
}

/// The elapsed-time counter after one more tick; it stops at `u64::MAX`.
pub open spec fn tick_elapsed(e: int) -> int {
    if e + TICK_US <= u64::MAX {
        e + TICK_US
    } else {
        u64::MAX as int
    }
}

/// One update of a chain whose ray now marches to `links`.
pub open spec fn chain_step(m: ChainModel, links: Seq<Pos>) -> ChainModel {
    let n = links.len() as int;
    let e = tick_elapsed(m.elapsed);
    match m.state {
        ChainState::Deploying => {
            let grown = e / (LINK_TIME_US as int);
            let out = if grown < n { grown } else { n };
            ChainModel {
                state: if out == n { ChainState::Deployed } else { ChainState::Deploying },
                links,
                out,
                elapsed: e,
                retract_from: m.retract_from,
                just_deployed: false,
            }
        },
        ChainState::Retracting => {
            let gone = e / (LINK_TIME_US as int);
            let left = if gone >= m.retract_from { 0 } else { m.retract_from - gone };
            let out = if left < n { left } else { n };
            ChainModel {
                state: if out == 0 { ChainState::Retracted } else { ChainState::Retracting },
                links,
                out,
                elapsed: e,
                retract_from: m.retract_from,
                just_deployed: false,
            }
        },
        ChainState::Deployed => ChainModel {
            state: ChainState::Deployed,
            links,
            out: n,
            elapsed: m.elapsed,
            retract_from: m.retract_from,
            just_deployed: false,
        },
        ChainState::Retracted => ChainModel {
            state: ChainState::Retracted,
            links,
            out: 0,
            elapsed: m.elapsed,
            retract_from: m.retract_from,
            just_deployed: false,
        },
    }
}

/// `k` updates of a chain whose ray marches to `links` throughout.
pub open spec fn chain_steps(m: ChainModel, links: Seq<Pos>, k: nat) -> ChainModel
    decreases k,
{
    if k == 0 {
        m
    } else {
        chain_step(chain_steps(m, links, (k - 1) as nat), links)
    }
}

/// A retracted chain with no links.
pub open spec fn retracted_model() -> ChainModel {
    ChainModel {
        state: ChainState::Retracted,
        links: Seq::empty(),
        out: 0,
        elapsed: 0,
        retract_from: 0,
        just_deployed: false,
    }
}

/// A chain that was just deployed.
pub open spec fn deploy_model(m: ChainModel) -> ChainModel {
    ChainModel { state: ChainState::Deploying, elapsed: 0, just_deployed: true, ..m }
}

/// A chain that just began to retract.
pub open spec fn retract_model(m: ChainModel) -> ChainModel {
    ChainModel { state: ChainState::Retracting, elapsed: 0, retract_from: m.out, ..m }
}

/// The tether: a ray from the player (`start`) to the anchor (`end`), drawn as links that
/// come out over time after a deploy and go back after a retract.
pub struct Chain {
    pub ray: Ray,
    state: ChainState,
    links: Vec<Pos>,
    num_links_out: usize,
    elapsed: u64,
    retract_from: usize,
    just_deployed: bool,
}

impl Chain {
    /// The chain's ray, from the player to the anchor.
    pub closed spec fn spec_ray(&self) -> Ray {
        self.ray
    }

    pub closed spec fn model(&self) -> ChainModel {
        ChainModel {
            state: self.state,
            links: self.links@,
            out: self.num_links_out as int,
            elapsed: self.elapsed as int,
            retract_from: self.retract_from as int,
            just_deployed: self.just_deployed,
        }
    }

    /// The ray lies in the world, and the animation's counters are consistent.
    pub open spec fn wf(&self) -> bool {
        self.spec_ray().wf() && self.inv()
    }

    /// No more links are out than there are, and every link lies in the world.
    pub closed spec fn inv(&self) -> bool {
        &&& 0 <= self.model().out <= self.model().links.len()
        &&& self.model().links.len() <= usize::MAX
        &&& 0 <= self.model().retract_from <= usize::MAX
        &&& 0 <= self.model().elapsed <= u64::MAX
        &&& forall|i: int|
            0 <= i < self.model().links.len() ==> (#[trigger] self.model().links[i]).wf()
    }

    /// A retracted chain along `ray`.
    pub fn new(ray: Ray) -> (r: Chain)
        requires
            ray.wf(),
        ensures
            r.wf(),
            r.spec_ray() == ray,
            r.model() == retracted_model(),
    {
        let r = Chain {
            ray,
            state: ChainState::Retracted,
            links: Vec::new(),
            num_links_out: 0,
            elapsed: 0,
            retract_from: 0,
            just_deployed: false,
        };
        assert(r.model().links =~= Seq::empty());
        r
    }

    /// Re-marches the ray and advances the animation by one tick.
    pub fn update(&mut self)
        requires
            old(self).wf(),
        ensures
            final(self).wf(),
            final(self).spec_ray() == old(self).spec_ray(),
            final(self).model() == chain_step(
                old(self).model(),
                march_path(old(self).spec_ray().start, old(self).spec_ray().end),
            ),
    {
        self.just_deployed = false;
        self.links = self.ray.march();
        let n = self.links.len();
        let e: u64 = if self.elapsed <= u64::MAX - TICK_US {
            self.elapsed + TICK_US
        } else {
            u64::MAX
        };
        match self.state {
            ChainState::Deploying => {
                self.elapsed = e;
                let grown = e / LINK_TIME_US;
                let out: usize = if grown < n as u64 { grown as usize } else { n };
                self.num_links_out = out;
                if out == n {
                    self.state = ChainState::Deployed;
                }
            },
            ChainState::Retracting => {
                self.elapsed = e;
                let gone = e / LINK_TIME_US;
                let left: u64 = if gone >= self.retract_from as u64 {
                    0
                } else {
                    self.retract_from as u64 - gone
                };
                let out: usize = if left < n as u64 { left as usize } else { n };
                self.num_links_out = out;
                if out == 0 {
                    self.state = ChainState::Retracted;
                }
            },
            ChainState::Deployed => {
                self.num_links_out = n;
            },
            ChainState::Retracted => {
                self.num_links_out = 0;
            },
        }
        assert(self.model() == chain_step(
            old(self).model(),
            march_path(old(self).spec_ray().start, old(self).spec_ray().end),
        ));
    }

    /// Moves the chain's near end, which follows the player.
    pub fn set_start(&mut self, start: Pos)
        requires
            old(self).wf(),
            start.wf(),
        ensures
            final(self).wf(),
            final(self).spec_ray() == (Ray { start, end: old(self).spec_ray().end }),
            final(self).model() == old(self).model(),
    {
        self.ray.start = start;
    }

    /// Moves the chain's anchor.
    pub fn set_end(&mut self, end: Pos)
        requires
            old(self).wf(),
            end.wf(),
        ensures
            final(self).wf(),
            final(self).spec_ray() == (Ray { start: old(self).spec_ray().start, end }),
            final(self).model() == old(self).model(),
    {
        self.ray.end = end;
    }

    /// Starts extending the chain from nothing.
    pub fn deploy(&mut self)
        requires
            old(self).wf(),
        ensures
            final(self).wf(),
            final(self).spec_ray() == old(self).spec_ray(),
            final(self).model() == deploy_model(old(self).model()),
    {
        self.state = ChainState::Deploying;
        self.elapsed = 0;
        self.just_deployed = true;
    }

    /// Whether the chain pulls on the player: it is deploying or deployed.
    pub fn deployed(&self) -> (r: bool)
        ensures
            r == (self.model().state == ChainState::Deploying || self.model().state
                == ChainState::Deployed),
    {
        match self.state {
            ChainState::Deploying | ChainState::Deployed => true,
            _ => false,
        }
    }

    /// Where the chain is in its animation.
    pub fn state(&self) -> (r: ChainState)
        ensures
            r == self.model().state,
    {
        self.state
    }

    /// How many links are visible.
    pub fn links_out(&self) -> (r: usize)
        ensures
            r == self.model().out,
    {
        self.num_links_out
    }

    /// Whether `deploy` was called since the last update.
    pub fn just_deployed(&self) -> (r: bool)
        ensures
            r == self.model().just_deployed,
    {
        self.just_deployed
    }

    /// Starts pulling the chain back in.
    pub fn retract(&mut self)
        requires
            old(self).wf(),
        ensures
            final(self).wf(),
            final(self).spec_ray() == old(self).spec_ray(),
            final(self).model() == retract_model(old(self).model()),
    {
        self.state = ChainState::Retracting;
        self.elapsed = 0;
        self.retract_from = self.num_links_out;
    }

    /// The unit vector (scaled by `UNIT`) from the player toward the anchor.
    pub fn direction(&self) -> (r: Pos)
        requires
            self.wf(),
        ensures
            r.x == norm_comp(
                self.spec_ray().end.x - self.spec_ray().start.x,
                seg_len(self.spec_ray().start, self.spec_ray().end),
            ),
            r.y == norm_comp(
                self.spec_ray().end.y - self.spec_ray().start.y,
                seg_len(self.spec_ray().start, self.spec_ray().end),
            ),
            -UNIT <= r.x <= UNIT,
            -UNIT <= r.y <= UNIT,
    {
        self.ray.direction()
    }

    /// The direction of swing: the ray's direction turned a quarter clockwise.
    pub fn tangent(&self) -> (r: Pos)
        requires
            self.wf(),
        ensures
            r.x == norm_comp(
                self.spec_ray().end.y - self.spec_ray().start.y,
                seg_len(self.spec_ray().start, self.spec_ray().end),
            ),
            r.y == -norm_comp(
                self.spec_ray().end.x - self.spec_ray().start.x,
                seg_len(self.spec_ray().start, self.spec_ray().end),
            ),
            -UNIT <= r.x <= UNIT,
            -UNIT <= r.y <= UNIT,
    {
        let dir = self.ray.direction();
        Pos::new(dir.y, -dir.x)
    }

    /// The positions of the visible links.
    pub fn visible_links(&self) -> (r: Vec<Pos>)
        requires
            self.wf(),
        ensures
            r@ == self.model().links.take(self.model().out),
    {
        let mut r: Vec<Pos> = Vec::new();
        let mut i: usize = 0;
        while i < self.num_links_out
            invariant
                self.wf(),
                0 <= i <= self.num_links_out,
                r@ == self.model().links.take(i as int),
            decreases self.num_links_out - i,
        {
            r.push(self.links[i]);
            i = i + 1;
            assert(r@ =~= self.model().links.take(i as int));
        }
        r
    }
}

/// A marched path between world positions has at most four million positions.
pub proof fn lemma_march_len_bound(s: Pos, e: Pos)
    requires
        s.wf(),
        e.wf(),
    ensures
        march_path(s, e).len() <= 4_000_000,
{
    let dx = e.x - s.x;
    let dy = e.y - s.y;
    let l = seg_len(s, e);
    lemma_comp_le_mag(dx, dy);
    let n = dx * dx + dy * dy;
    assert(n <= 8_000_000_000_000_000_000) by (nonlinear_arith)
        requires
            -2_000_000_000 <= dx <= 2_000_000_000,
            -2_000_000_000 <= dy <= 2_000_000_000,
            n == dx * dx + dy * dy,
    ;
    assert(exists|r: int| #[trigger] is_floor_sqrt(n, r)) by {
        assert(is_floor_sqrt(n, mag(dx, dy))) by {
            lemma_comp_le_mag(dx, dy);
            assert(n >= 0) by (nonlinear_arith)
                requires
                    n == dx * dx + dy * dy,
            ;
            lemma_isqrt_witness(n);
        }
    }
    assert(l * l <= n);
    assert(l <= 3_000_000_000) by (nonlinear_arith)
        requires
            l * l <= 8_000_000_000_000_000_000,
            l >= 0,
    ;
    vstd::arithmetic::div_mod::lemma_div_is_ordered(l + STEP - 1, 3_000_000_999, STEP as int);
}

/// After a deploy, the chain is fully out once enough ticks have passed for every link:
/// `k` updates with `k * TICK_US >= links * LINK_TIME_US` leave it deployed, and the mark
/// of the deploy is gone after the first update.
pub proof fn lemma_deploy_completes(c: Chain, k: nat)
    requires
        c.wf(),
        k >= 1,
        k * TICK_US >= march_path(c.spec_ray().start, c.spec_ray().end).len() * LINK_TIME_US,
    ensures
        ({
            let after = chain_steps(
                deploy_model(c.model()),
                march_path(c.spec_ray().start, c.spec_ray().end),
                k,
            );
            after.state == ChainState::Deployed && !after.just_deployed && after.out
                == march_path(c.spec_ray().start, c.spec_ray().end).len()
        }),
{
    let links = march_path(c.spec_ray().start, c.spec_ray().end);
    lemma_march_len_bound(c.spec_ray().start, c.spec_ray().end);
    lemma_deploy_progress(deploy_model(c.model()), links, k);
}

proof fn lemma_deploy_progress(m: ChainModel, links: Seq<Pos>, j: nat)
    requires
        m.state == ChainState::Deploying,
        m.elapsed == 0,
        links.len() <= 4_000_000,
    ensures
        ({
            let a = chain_steps(m, links, j);
            (a.state == ChainState::Deployed ==> a.out == links.len()) && (a.state
                == ChainState::Deployed || (a.state == ChainState::Deploying && a.elapsed
                == j * TICK_US && j * TICK_US < links.len() * LINK_TIME_US + TICK_US)) && (j
                >= 1 ==> !a.just_deployed) && (j >= 1 && j * TICK_US >= links.len()
                * LINK_TIME_US ==> a.state == ChainState::Deployed)
        }),
    decreases j,
{
    if j > 0 {
        lemma_deploy_progress(m, links, (j - 1) as nat);
        let p = chain_steps(m, links, (j - 1) as nat);
        if p.state == ChainState::Deploying {
            assert(p.elapsed + TICK_US <= u64::MAX);
            let e = p.elapsed + TICK_US;
            assert(e == j * TICK_US);
            let n = links.len() as int;
            if j * TICK_US >= n * LINK_TIME_US {
                vstd::arithmetic::div_mod::lemma_div_is_ordered(
                    n * LINK_TIME_US,
                    e,
                    LINK_TIME_US as int,
                );
                vstd::arithmetic::div_mod::lemma_div_by_multiple(n, LINK_TIME_US as int);
            } else {
                assert(j * TICK_US < n * LINK_TIME_US + TICK_US);
            }
        }
    }
}

/// The character of a link.
pub const LINK_CHAR: char = '\u{2022}';

impl Drawable for Chain {
    open spec fn drawable(&self) -> bool {
        self.wf()
    }

    /// Paints the visible links.
    fn draw(&self, camera: &Camera, renderer: &mut Renderer)
        ensures
            final(renderer)@ == dots_painted(
                *camera,
                old(renderer)@,
                self.model().links.take(self.model().out),
                LINK_CHAR,
            ),
    {
        let mut i: usize = 0;
        while i < self.num_links_out
            invariant
                self.wf(),
                camera.wf(),
                renderer.wf(),
                renderer.spec_width() == old(renderer).spec_width(),
                renderer.spec_height() == old(renderer).spec_height(),
                renderer.messages() == old(renderer).messages(),
                0 <= i <= self.num_links_out,
                renderer@ == dots_painted(
                    *camera,
                    old(renderer)@,
                    self.model().links.take(i as int),
                    LINK_CHAR,
                ),
            decreases self.num_links_out - i,
        {
            camera.paint_dot(LINK_CHAR, self.links[i], renderer);
            i = i + 1;
            assert(self.model().links.take(i as int).drop_last() =~= self.model().links.take(
                i - 1,
            ));
        }
    }
}

/// A call on a chain: `Update` re-marches its ray to the given links.
pub enum ChainCall {
    Deploy,
    Retract,
    Update(Seq<Pos>),
}

/// The chain after the calls `calls`, in order.
pub open spec fn chain_after(m: ChainModel, calls: Seq<ChainCall>) -> ChainModel
    decreases calls.len(),
{
    if calls.len() == 0 {
        m
    } else {
        let before = chain_after(m, calls.drop_last());
        match calls.last() {
            ChainCall::Deploy => deploy_model(before),
            ChainCall::Retract => retract_model(before),
            ChainCall::Update(links) => chain_step(before, links),
        }
    }
}

/// Among `calls` there is a deploy with no update after it.
pub open spec fn deployed_since_update(calls: Seq<ChainCall>) -> bool {
    exists|i: int|
        0 <= i < calls.len() && calls[i] is Deploy && forall|j: int|
            i < j < calls.len() ==> !(#[trigger] calls[j] is Update)
}

/// A chain is marked as just deployed exactly when a deploy came after the last update;
/// starting from a new chain, which is not so marked.
pub proof fn lemma_just_deployed(calls: Seq<ChainCall>)
    ensures
        chain_after(retracted_model(), calls).just_deployed == deployed_since_update(calls),
    decreases calls.len(),
{
    if calls.len() > 0 {
        let rest = calls.drop_last();
        lemma_just_deployed(rest);
        let n = calls.len() - 1;
        match calls.last() {
            ChainCall::Deploy => {
                assert(calls[n] is Deploy);
            },
            ChainCall::Retract => {
                if deployed_since_update(rest) {
                    let i = choose|i: int|
                        0 <= i < rest.len() && rest[i] is Deploy && forall|j: int|
                            i < j < rest.len() ==> !(#[trigger] rest[j] is Update);
                    assert(calls[i] is Deploy);
                    assert forall|j: int| i < j < calls.len() implies !(#[trigger] calls[j] is Update) by {
                        if j < n {
                            assert(calls[j] == rest[j]);
                        }
                    }
                }
                if deployed_since_update(calls) {
                    let i = choose|i: int|
                        0 <= i < calls.len() && calls[i] is Deploy && forall|j: int|
                            i < j < calls.len() ==> !(#[trigger] calls[j] is Update);
                    assert(i < n);
                    assert(rest[i] is Deploy);
                    assert forall|j: int| i < j < rest.len() implies !(#[trigger] rest[j] is Update) by {
                        assert(calls[j] == rest[j]);
                    }
                }
            },
            ChainCall::Update(_) => {
                if deployed_since_update(calls) {
                    let i = choose|i: int|
                        0 <= i < calls.len() && calls[i] is Deploy && forall|j: int|
                            i < j < calls.len() ==> !(#[trigger] calls[j] is Update);
                    if i < n {
                        assert(calls[n] is Update);
                    }
                }
            },
        }
    }
}

} // verus!
