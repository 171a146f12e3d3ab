use vstd::prelude::*;

use crate::render::{lemma_painted_cell, Camera, Drawable, Renderer};

verus! {

/// The character of a decimal digit.
pub open spec fn digit_char(d: int) -> char {
    if d == 0 {
        '0'
    } else if d == 1 {
        '1'
    } else if d == 2 {
        '2'
    } else if d == 3 {
        '3'
    } else if d == 4 {
        '4'
    } else if d == 5 {
        '5'
    } else if d == 6 {
        '6'
    } else if d == 7 {
        '7'
    } else if d == 8 {
        '8'
    } else {
        '9'
    }
}

/// The decimal digits of `n`, most significant first.
pub open spec fn decimal(n: nat) -> Seq<char>
    decreases n,
{
    if n < 10 {
        seq![digit_char(n as int)]
    } else {
        decimal(n / 10).push(digit_char((n % 10) as int))
    }
}

fn digit(d: u64) -> (r: char)
    requires
        d < 10,
    ensures
        r == digit_char(d as int),
{
    if d == 0 {
        '0'
    } else if d == 1 {
        '1'
    } else if d == 2 {
        '2'
    } else if d == 3 {
        '3'
    } else if d == 4 {
        '4'
    } else if d == 5 {
        '5'
    } else if d == 6 {
        '6'
    } else if d == 7 {
        '7'
    } else if d == 8 {
        '8'
    } else {
        '9'
    }
}

/// The decimal digits of `n`, most significant first.
pub fn decimal_digits(n: u64) -> (r: Vec<char>)
    ensures
        r@ == decimal(n as nat),
    decreases n,
{
    if n < 10 {
        vec![digit(n)]
    } else {
        let mut r = decimal_digits(n / 10);
        r.push(digit(n % 10));
        r
    }
}

/// The time the game has run.
pub struct Timer {
    elapsed_us: u64,
}

impl Timer {
    /// Microseconds since the start.
    pub closed spec fn elapsed(&self) -> int {
        self.elapsed_us as int
    }

    /// A timer at zero.
    pub fn new() -> (r: Timer)
        ensures
            r.elapsed() == 0,
    {
        Timer { elapsed_us: 0 }
    }

    /// Lets `us` microseconds pass; the count stops at its largest value.
    pub fn advance(&mut self, us: u64)
        ensures
            final(self).elapsed() == if old(self).elapsed() + us <= u64::MAX {
                old(self).elapsed() + us
            } else {
                u64::MAX as int
            },
    {
        self.elapsed_us = if self.elapsed_us <= u64::MAX - us {
            self.elapsed_us + us
        } else {
            u64::MAX
        };
    }

    /// Whole seconds since the start.
    pub fn seconds(&self) -> (r: u64)
        ensures
            r == self.elapsed() / 1_000_000,
    {
        self.elapsed_us / 1_000_000
    }

    /// The time as shown: whole seconds in decimal.
    pub fn text(&self) -> (r: Vec<char>)
        ensures
            r@ == decimal((self.elapsed() / 1_000_000) as nat),
    {
        decimal_digits(self.seconds())
    }
}

impl Drawable for Timer {
    open spec fn drawable(&self) -> bool {
        true
    }

    /// Paints the time at the right end of the bottom row, if it fits.
    fn draw(&self, _camera: &Camera, renderer: &mut Renderer)
        ensures
            ({
                let text = decimal((self.elapsed() / 1_000_000) as nat);
                let w = old(renderer).spec_width();
                let h = old(renderer).spec_height();
                &&& final(renderer)@.len() == old(renderer)@.len()
                &&& forall|fy: int, fx: int|
                    0 <= fy < old(renderer)@.len() && 0 <= fx < old(renderer)@[fy].len()
                        ==> #[trigger] final(renderer)@[fy][fx] == if text.len() <= w && fy == h
                        - 1 && w - text.len() <= fx {
                        text[fx - (w - text.len())]
                    } else {
                        old(renderer)@[fy][fx]
                    }
            }),
    {
        let ghost before = renderer@;
        let text = self.text();
        let width = renderer.width();
        let height = renderer.height();
        if height == 0 || text.len() > width as usize {
            return;
        }
        let y = height - 1;
        let x_offset = width - text.len() as u16;
        let mut i: usize = 0;
        while i < text.len()
            invariant
                renderer.wf(),
                renderer.spec_width() == old(renderer).spec_width(),
                renderer.spec_height() == old(renderer).spec_height(),
                renderer.messages() == old(renderer).messages(),
                width == renderer.spec_width(),
                height == renderer.spec_height(),
                y == height - 1,
                x_offset + text@.len() == width,
                0 <= i <= text@.len(),
                before == old(renderer)@,
                renderer@.len() == before.len(),
                forall|fy: int| 0 <= fy < before.len() ==> (#[trigger] renderer@[fy]).len() == before[fy].len(),
                forall|fy: int, fx: int|
                    0 <= fy < before.len() && 0 <= fx < before[fy].len() ==> #[trigger] renderer@[fy][fx]
                        == if fy == y && x_offset <= fx < x_offset + i {
                        text@[fx - x_offset]
                    } else {
                        before[fy][fx]
                    },
            decreases text@.len() - i,
        {
            let ghost cur = renderer@;
            renderer.paint(x_offset + i as u16, y, text[i]);
            proof {
                assert forall|fy: int, fx: int|
                    0 <= fy < before.len() && 0 <= fx < before[fy].len() implies #[trigger] renderer@[fy][fx]
                    == if fy == y && x_offset <= fx < x_offset + i + 1 {
                    text@[fx - x_offset]
                } else {
                    before[fy][fx]
                } by {
                    lemma_painted_cell(cur, x_offset + i, y as int, text@[i as int], fx, fy);
                }
                assert forall|fy: int| 0 <= fy < before.len() implies (#[trigger] renderer@[fy]).len()
                    == before[fy].len() by {
                    assert(cur[fy].len() == before[fy].len());
                }
            }
            i = i + 1;
        }
    }
}

} // verus!
