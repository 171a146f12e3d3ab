use vstd::prelude::*;

use crate::chain::TICK_US;
use crate::render::Sprite;

verus! {


/// The abstract state of an animation.
pub struct AnimModel {
    pub frames: Seq<Sprite>,
    pub current: int,
    /// How long each frame shows, in microseconds.
    pub frame_time: int,
    /// How long the current frame still shows, in microseconds.
    pub left: int,
    /// A one-shot animation stops on its last frame; another one starts over.
    pub one_shot: bool,
    pub playing: bool,
}

/// One tick of an animation.
pub open spec fn anim_step(m: AnimModel) -> AnimModel {
    if !m.playing {
        m
    } else if m.left >= TICK_US {
        AnimModel { left: m.left - TICK_US, ..m }
    } else {
        let next = if m.current < m.frames.len() - 1 {
            m.current + 1
        } else if !m.one_shot {
            0
        } else {
            m.current
        };
        AnimModel { left: m.frame_time, current: next, ..m }
    }
}

/// A sequence of sprites shown one after the other, each for a fixed time.
pub struct Animation {
    frames: Vec<Sprite>,
    current_frame: usize,
    frame_time: u64,
    frame_time_left: u64,
    one_shot: bool,
    playing: bool,
}

impl Animation {
    pub closed spec fn model(&self) -> AnimModel {
        AnimModel {
            frames: self.frames@,
            current: self.current_frame as int,
            frame_time: self.frame_time as int,
            left: self.frame_time_left as int,
            one_shot: self.one_shot,
            playing: self.playing,
        }
    }

    /// There is a frame, and the current one is among them.
    pub open spec fn wf(&self) -> bool {
        &&& self.model().frames.len() > 0
        &&& 0 <= self.model().current < self.model().frames.len()
        &&& 0 <= self.model().left <= self.model().frame_time <= u64::MAX
    }

    /// A playing animation at its first frame.
    pub fn new(frames: Vec<Sprite>, frame_time: u64, one_shot: bool) -> (r: Animation)
        requires
            frames@.len() > 0,
        ensures
            r.wf(),
            r.model() == (AnimModel {
                frames: frames@,
                current: 0,
                frame_time: frame_time as int,
                left: frame_time as int,
                one_shot,
                playing: true,
            }),
    {
        Animation {
            frames,
            current_frame: 0,
            frame_time,
            frame_time_left: frame_time,
            one_shot,
            playing: true,
        }
    }

    /// Advances a playing animation by one tick.
    pub fn update(&mut self)
        requires
            old(self).wf(),
        ensures
            final(self).wf(),
            final(self).model() == anim_step(old(self).model()),
    {
        if !self.playing {
            return;
        }
        if self.frame_time_left >= TICK_US {
            self.frame_time_left = self.frame_time_left - TICK_US;
        } else {
            self.frame_time_left = self.frame_time;
            if self.current_frame < self.frames.len() - 1 {
                self.current_frame = self.current_frame + 1;
            } else if !self.one_shot {
                self.current_frame = 0;
            }
        }
    }

    /// The sprite shown now.
    pub fn get_frame(&self) -> (r: &Sprite)
        requires
            self.wf(),
        ensures
            *r == self.model().frames[self.model().current],
    {
        &self.frames[self.current_frame]
    }

    /// Goes back to the first frame, with its full time.
    pub fn reset(&mut self)
        requires
            old(self).wf(),
        ensures
            final(self).wf(),
            final(self).model() == (AnimModel {
                current: 0,
                left: old(self).model().frame_time,
                ..old(self).model()
            }),
    {
        self.current_frame = 0;
        self.frame_time_left = self.frame_time;
    }

    /// A one-shot animation that has reached its last frame.
    pub fn done(&self) -> (r: bool)
        requires
            self.wf(),
        ensures
            r == (self.model().one_shot && self.model().current == self.model().frames.len() - 1),
    {
        self.one_shot && self.current_frame == self.frames.len() - 1
    }

    pub fn play(&mut self)
        requires
            old(self).wf(),
        ensures
            final(self).wf(),
            final(self).model() == (AnimModel { playing: true, ..old(self).model() }),
    {
        self.playing = true;
    }

    pub fn pause(&mut self)
        requires
            old(self).wf(),
        ensures
            final(self).wf(),
            final(self).model() == (AnimModel { playing: false, ..old(self).model() }),
    {
        self.playing = false;
    }

    pub fn playing(&self) -> (r: bool)
        ensures
            r == self.model().playing,
    {
        self.playing
    }
}

} // verus!
