use vstd::prelude::*;

use crate::pos::{cell_of, lemma_cell_of_wf, Pos, ScreenPos};

verus! {

/// A picture made of rows of characters.
pub type Sprite = Vec<Vec<char>>;

/// A size or coordinate on the output grid.
pub type Dimension = u16;

/// The character of an empty cell of the frame.
pub const CLEAR_CHAR: char = ' ';

/// The frame after painting `dot` at `(x, y)`, if that cell is on it.
pub open spec fn painted(frame: Seq<Seq<char>>, x: int, y: int, dot: char) -> Seq<Seq<char>> {
    if 0 <= y < frame.len() && 0 <= x < frame[y].len() {
        frame.update(y, frame[y].update(x, dot))
    } else {
        frame
    }
}

/// The characters of rows held in vectors.
pub open spec fn rows_of(rows: Seq<Vec<char>>) -> Seq<Seq<char>> {
    rows.map_values(|r: Vec<char>| r@)
}

/// Painting changes the one cell painted, if it is on the frame, and nothing else.
pub proof fn lemma_painted_cell(frame: Seq<Seq<char>>, x: int, y: int, dot: char, fx: int, fy: int)
    requires
        0 <= fy < frame.len(),
        0 <= fx < frame[fy].len(),
    ensures
        painted(frame, x, y, dot).len() == frame.len(),
        painted(frame, x, y, dot)[fy].len() == frame[fy].len(),
        painted(frame, x, y, dot)[fy][fx] == if fx == x && fy == y {
            dot
        } else {
            frame[fy][fx]
        },
{
}

/// The frame after a camera paints `dot` where its window shows `pos`.
pub open spec fn dot_painted(cam: Camera, frame: Seq<Seq<char>>, pos: Pos, dot: char) -> Seq<
    Seq<char>,
> {
    if cam.shows(cam.rel_cell(pos)) {
        painted(
            frame,
            cam.frame_pos.x + cam.rel_cell(pos).x,
            cam.frame_pos.y + cam.rel_cell(pos).y,
            dot,
        )
    } else {
        frame
    }
}

/// The frame after a camera paints `dot` at each of `pts`, in order.
pub open spec fn dots_painted(cam: Camera, frame: Seq<Seq<char>>, pts: Seq<Pos>, dot: char) -> Seq<
    Seq<char>,
>
    decreases pts.len(),
{
    if pts.len() == 0 {
        frame
    } else {
        dot_painted(cam, dots_painted(cam, frame, pts.drop_last(), dot), pts.last(), dot)
    }
}

/// A frame of `width` by `height` cells, all holding `c`.
pub open spec fn filled(width: int, height: int, c: char) -> Seq<Seq<char>> {
    Seq::new(height as nat, |y: int| Seq::new(width as nat, |x: int| c))
}

/// The grid of characters that one frame of output shows, and the debug lines under it.
pub struct Renderer {
    width: Dimension,
    height: Dimension,
    frame: Vec<Vec<char>>,
    debug_msgs: Vec<String>,
}

impl View for Renderer {
    type V = Seq<Seq<char>>;

    closed spec fn view(&self) -> Seq<Seq<char>> {
        rows_of(self.frame@)
    }
}

impl Renderer {
    pub closed spec fn spec_width(&self) -> int {
        self.width as int
    }

    pub closed spec fn spec_height(&self) -> int {
        self.height as int
    }

    pub closed spec fn messages(&self) -> Seq<String> {
        self.debug_msgs@
    }

    /// The frame has `height` rows of `width` cells.
    pub open spec fn wf(&self) -> bool {
        &&& self@.len() == self.spec_height()
        &&& forall|y: int| 0 <= y < self@.len() ==> (#[trigger] self@[y]).len() == self.spec_width()
    }

    /// A cleared frame of the given size.
    pub fn new(width: Dimension, height: Dimension) -> (r: Renderer)
        ensures
            r.wf(),
            r.spec_width() == width,
            r.spec_height() == height,
            r@ == filled(width as int, height as int, CLEAR_CHAR),
            r.messages().len() == 0,
    {
        let mut frame: Vec<Vec<char>> = Vec::new();
        let mut y: u16 = 0;
        while y < height
            invariant
                0 <= y <= height,
                frame@.len() == y,
                forall|j: int|
                    0 <= j < y ==> (#[trigger] frame@[j])@ == Seq::new(width as nat, |i: int| CLEAR_CHAR),
            decreases height - y,
        {
            let mut row: Vec<char> = Vec::new();
            let mut x: u16 = 0;
            while x < width
                invariant
                    0 <= x <= width,
                    row@ == Seq::new(x as nat, |i: int| CLEAR_CHAR),
                decreases width - x,
            {
                row.push(CLEAR_CHAR);
                x = x + 1;
                assert(row@ =~= Seq::new(x as nat, |i: int| CLEAR_CHAR));
            }
            frame.push(row);
            y = y + 1;
        }
        assert(rows_of(frame@) =~= filled(width as int, height as int, CLEAR_CHAR));
        Renderer { width, height, frame, debug_msgs: Vec::new() }
    }

    pub fn width(&self) -> (r: Dimension)
        ensures
            r == self.spec_width(),
    {
        self.width
    }

    pub fn height(&self) -> (r: Dimension)
        ensures
            r == self.spec_height(),
    {
        self.height
    }

    /// Puts `dot` at `(frame_x, frame_y)`; a cell off the frame is ignored.
    pub fn paint(&mut self, frame_x: Dimension, frame_y: Dimension, dot: char)
        requires
            old(self).wf(),
        ensures
            final(self).wf(),
            final(self).spec_width() == old(self).spec_width(),
            final(self).spec_height() == old(self).spec_height(),
            final(self).messages() == old(self).messages(),
            final(self)@ == painted(old(self)@, frame_x as int, frame_y as int, dot),
    {
        if frame_x < self.width && frame_y < self.height {
            let y = frame_y as usize;
            let x = frame_x as usize;
            assert(self@[y as int] == self.frame@[y as int]@);
            self.frame[y][x] = dot;
            assert(self@ =~= painted(old(self)@, frame_x as int, frame_y as int, dot));
        }
    }

    /// Empties every cell.
    pub fn clear(&mut self)
        requires
            old(self).wf(),
        ensures
            final(self).wf(),
            final(self).spec_width() == old(self).spec_width(),
            final(self).spec_height() == old(self).spec_height(),
            final(self).messages() == old(self).messages(),
            final(self)@ == filled(old(self).spec_width(), old(self).spec_height(), CLEAR_CHAR),
    {
        let mut y: usize = 0;
        while y < self.height as usize
            invariant
                self.wf(),
                0 <= y <= self.spec_height(),
                self.spec_width() == old(self).spec_width(),
                self.spec_height() == old(self).spec_height(),
                self.messages() == old(self).messages(),
                forall|j: int|
                    0 <= j < y ==> #[trigger] self@[j] == Seq::new(
                        self.spec_width() as nat,
                        |i: int| CLEAR_CHAR,
                    ),
            decreases self.spec_height() - y,
        {
            let mut x: usize = 0;
            while x < self.width as usize
                invariant
                    self.wf(),
                    0 <= y < self.spec_height(),
                    0 <= x <= self.spec_width(),
                    self.spec_width() == old(self).spec_width(),
                    self.spec_height() == old(self).spec_height(),
                    self.messages() == old(self).messages(),
                    forall|j: int|
                        0 <= j < y ==> #[trigger] self@[j] == Seq::new(
                            self.spec_width() as nat,
                            |i: int| CLEAR_CHAR,
                        ),
                    forall|i: int| 0 <= i < x ==> #[trigger] self@[y as int][i] == CLEAR_CHAR,
                decreases self.spec_width() - x,
            {
                self.paint(x as u16, y as u16, CLEAR_CHAR);
                x = x + 1;
            }
            assert(self@[y as int] =~= Seq::new(self.spec_width() as nat, |i: int| CLEAR_CHAR));
            y = y + 1;
        }
        assert(self@ =~= filled(old(self).spec_width(), old(self).spec_height(), CLEAR_CHAR));
    }

    /// Adds a line to show under the frame.
    pub fn debug(&mut self, msg: String)
        ensures
            final(self)@ == old(self)@,
            final(self).spec_width() == old(self).spec_width(),
            final(self).spec_height() == old(self).spec_height(),
            final(self).messages() == old(self).messages().push(msg),
    {
        self.debug_msgs.push(msg);
    }

    /// The rows of the frame, top first.
    pub fn frame(&self) -> (r: &Vec<Vec<char>>)
        ensures
            r@.map_values(|row: Vec<char>| row@) == self@,
    {
        &self.frame
    }

    /// Takes the debug lines out, oldest first.
    pub fn take_messages(&mut self) -> (r: Vec<String>)
        ensures
            r@ == old(self).messages(),
            final(self).messages().len() == 0,
            final(self)@ == old(self)@,
            final(self).spec_width() == old(self).spec_width(),
            final(self).spec_height() == old(self).spec_height(),
    {
        let mut taken: Vec<String> = Vec::new();
        std::mem::swap(&mut taken, &mut self.debug_msgs);
        taken
    }
}

/// The window onto the world: `pos` is the world position of its top-left cell, and
/// `frame_pos` the place of that cell on the output grid.
#[derive(Clone, Copy, Debug)]
pub struct Camera {
    pub pos: Pos,
    pub frame_pos: ScreenPos,
    pub width: Dimension,
    pub height: Dimension,
}

impl Camera {
    /// The camera lies in the world, and its window fits on the output grid.
    pub open spec fn wf(&self) -> bool {
        &&& self.pos.wf()
        &&& 0 <= self.frame_pos.x
        &&& 0 <= self.frame_pos.y
        &&& self.frame_pos.x + self.width < u16::MAX
        &&& self.frame_pos.y + self.height < u16::MAX
    }

    /// The cell of the camera's window that shows `pos`, counted from its top-left cell.
    pub open spec fn rel_cell(&self, pos: Pos) -> ScreenPos {
        cell_of(Pos { x: (pos.x - self.pos.x) as i64, y: (pos.y - self.pos.y) as i64 })
    }

    /// The window shows the cell `rel`, counted from its top-left cell.
    pub open spec fn shows(&self, rel: ScreenPos) -> bool {
        0 <= rel.x < self.width && 0 <= rel.y < self.height
    }

    /// The character that painting `sprite` with its top-left cell at `pos` puts at cell
    /// `(fx, fy)` of the output grid: the sprite's cell there, if the window shows it.
    pub open spec fn sprite_dot(&self, sprite: Seq<Seq<char>>, pos: Pos, fx: int, fy: int) -> Option<
        char,
    > {
        let c = cell_of(self.pos);
        let s = cell_of(pos);
        let x = fx - self.frame_pos.x + c.x;
        let y = fy - self.frame_pos.y + c.y;
        if c.y <= y < c.y + self.height && s.y <= y < s.y + sprite.len() && c.x <= x < c.x
            + self.width && s.x <= x < s.x + sprite[y - s.y].len() {
            Some(sprite[y - s.y][x - s.x])
        } else {
            None
        }
    }

    /// `cur` is `old` with the sprite painted on the cells whose source lies before row
    /// `y`, or on row `y` before column `x`.
    pub open spec fn sprite_progress(
        &self,
        sprite: Seq<Seq<char>>,
        pos: Pos,
        old: Seq<Seq<char>>,
        cur: Seq<Seq<char>>,
        y: int,
        x: int,
    ) -> bool {
        &&& cur.len() == old.len()
        &&& forall|fy: int| 0 <= fy < old.len() ==> (#[trigger] cur[fy]).len() == old[fy].len()
        &&& forall|fy: int, fx: int|
            0 <= fy < old.len() && 0 <= fx < old[fy].len() ==> #[trigger] cur[fy][fx] == (if fy
                - self.frame_pos.y + cell_of(self.pos).y < y || (fy - self.frame_pos.y + cell_of(
                self.pos,
            ).y == y && fx - self.frame_pos.x + cell_of(self.pos).x < x) {
                match self.sprite_dot(sprite, pos, fx, fy) {
                    Some(ch) => ch,
                    None => old[fy][fx],
                }
            } else {
                old[fy][fx]
            })
    }

    /// Paints the part of `sprite`, with its top-left cell at `pos`, that the window shows.
    pub fn paint_sprite(&self, sprite: &Sprite, pos: Pos, renderer: &mut Renderer)
        requires
            self.wf(),
            pos.wf(),
            old(renderer).wf(),
        ensures
            final(renderer).wf(),
            final(renderer).spec_width() == old(renderer).spec_width(),
            final(renderer).spec_height() == old(renderer).spec_height(),
            final(renderer).messages() == old(renderer).messages(),
            final(renderer)@.len() == old(renderer)@.len(),
            forall|fy: int, fx: int|
                0 <= fy < old(renderer)@.len() && 0 <= fx < old(renderer)@[fy].len()
                    ==> #[trigger] final(renderer)@[fy][fx] == match self.sprite_dot(
                    rows_of(sprite@),
                    pos,
                    fx,
                    fy,
                ) {
                    Some(ch) => ch,
                    None => old(renderer)@[fy][fx],
                },
    {
        let ghost rows = rows_of(sprite@);
        let ghost before = renderer@;
        proof {
            lemma_cell_of_wf(self.pos);
            lemma_cell_of_wf(pos);
        }
        let c = self.pos.to_cell();
        let s = pos.to_cell();
        let start_y = if c.y > s.y { c.y } else { s.y };
        let start_x = if c.x > s.x { c.x } else { s.x };
        let cend_x = c.x + self.width as i64;
        let cend_y = c.y + self.height as i64;
        let slen: i64 = if sprite.len() > 4_000_000 { 4_000_000 } else { sprite.len() as i64 };
        let end_y = if cend_y < s.y + slen { cend_y } else { s.y + slen };
        let mut y = start_y;
        while y < end_y
            invariant
                renderer.wf(),
                renderer.spec_width() == old(renderer).spec_width(),
                renderer.spec_height() == old(renderer).spec_height(),
                renderer.messages() == old(renderer).messages(),
                before == old(renderer)@,
                rows == rows_of(sprite@),
                self.wf(),
                c == cell_of(self.pos),
                s == cell_of(pos),
                c.wf(),
                s.wf(),
                start_y == if c.y > s.y { c.y } else { s.y },
                start_x == if c.x > s.x { c.x } else { s.x },
                cend_x == c.x + self.width,
                end_y == if cend_y < s.y + slen { cend_y as int } else { s.y + slen },
                cend_y == c.y + self.height,
                slen == if sprite@.len() > 4_000_000 { 4_000_000int } else { sprite@.len() as int },
                start_y <= y,
                y <= end_y || y == start_y,
                self.sprite_progress(rows, pos, before, renderer@, y as int, start_x as int),
            decreases end_y - y,
        {
            let sy = (y - s.y) as usize;
            let row = &sprite[sy];
            assert(rows[sy as int] == row@);
            let rlen: i64 = if row.len() > 4_000_000 { 4_000_000 } else { row.len() as i64 };
            let end_x = if cend_x < s.x + rlen { cend_x } else { s.x + rlen };
            let mut x = start_x;
            while x < end_x
                invariant
                    renderer.wf(),
                    renderer.spec_width() == old(renderer).spec_width(),
                    renderer.spec_height() == old(renderer).spec_height(),
                    renderer.messages() == old(renderer).messages(),
                    before == old(renderer)@,
                    rows == rows_of(sprite@),
                    self.wf(),
                    c == cell_of(self.pos),
                    s == cell_of(pos),
                    c.wf(),
                    s.wf(),
                    start_y <= y < end_y,
                    start_y == if c.y > s.y { c.y } else { s.y },
                    start_x == if c.x > s.x { c.x } else { s.x },
                    cend_x == c.x + self.width,
                    end_y == if cend_y < s.y + slen { cend_y as int } else { s.y + slen },
                    cend_y == c.y + self.height,
                    slen == if sprite@.len() > 4_000_000 { 4_000_000int } else { sprite@.len() as int },
                    sy == y - s.y,
                    row@ == rows[sy as int],
                    rlen == if row@.len() > 4_000_000 { 4_000_000int } else { row@.len() as int },
                    end_x == if cend_x < s.x + rlen { cend_x as int } else { s.x + rlen },
                    start_x <= x,
                    x <= end_x || x == start_x,
                    self.sprite_progress(rows, pos, before, renderer@, y as int, x as int),
                decreases end_x - x,
            {
                let fx = self.frame_pos.x + x - c.x;
                let fy = self.frame_pos.y + y - c.y;
                let dot = row[(x - s.x) as usize];
                let ghost cur = renderer@;
                renderer.paint(fx as Dimension, fy as Dimension, dot);
                proof {
                    assert(self.sprite_dot(rows, pos, fx as int, fy as int) == Some(dot));
                    assert forall|gy: int, gx: int|
                        0 <= gy < before.len() && 0 <= gx < before[gy].len() implies #[trigger] renderer@[gy][gx]
                        == (if gy - self.frame_pos.y + c.y < y || (gy - self.frame_pos.y + c.y == y
                        && gx - self.frame_pos.x + c.x < x + 1) {
                        match self.sprite_dot(rows, pos, gx, gy) {
                            Some(ch) => ch,
                            None => before[gy][gx],
                        }
                    } else {
                        before[gy][gx]
                    }) by {
                        assert(cur[gy][gx] == (if gy - self.frame_pos.y + c.y < y || (gy
                            - self.frame_pos.y + c.y == y && gx - self.frame_pos.x + c.x < x) {
                            match self.sprite_dot(rows, pos, gx, gy) {
                                Some(ch) => ch,
                                None => before[gy][gx],
                            }
                        } else {
                            before[gy][gx]
                        }));
                    }
                    assert forall|gy: int| 0 <= gy < before.len() implies (#[trigger] renderer@[gy]).len()
                        == before[gy].len() by {
                        assert(cur[gy].len() == before[gy].len());
                    }
                }
                x = x + 1;
            }
            proof {
                let cur = renderer@;
                assert forall|gy: int, gx: int|
                    0 <= gy < before.len() && 0 <= gx < before[gy].len() implies #[trigger] cur[gy][gx]
                    == (if gy - self.frame_pos.y + c.y < y + 1 || (gy - self.frame_pos.y + c.y == y
                    + 1 && gx - self.frame_pos.x + c.x < start_x) {
                    match self.sprite_dot(rows, pos, gx, gy) {
                        Some(ch) => ch,
                        None => before[gy][gx],
                    }
                } else {
                    before[gy][gx]
                }) by {
                    if gy - self.frame_pos.y + c.y == y && gx - self.frame_pos.x + c.x >= x {
                        assert(self.sprite_dot(rows, pos, gx, gy) is None);
                    }
                    if gy - self.frame_pos.y + c.y == y + 1 && gx - self.frame_pos.x + c.x
                        < start_x {
                        assert(self.sprite_dot(rows, pos, gx, gy) is None);
                    }
                }
            }
            y = y + 1;
        }
        proof {
            let cur = renderer@;
            assert forall|gy: int, gx: int|
                0 <= gy < before.len() && 0 <= gx < before[gy].len() implies #[trigger] cur[gy][gx]
                == match self.sprite_dot(rows, pos, gx, gy) {
                Some(ch) => ch,
                None => before[gy][gx],
            } by {
                if gy - self.frame_pos.y + c.y >= y {
                    assert(self.sprite_dot(rows, pos, gx, gy) is None);
                }
            }
        }
    }

    /// Paints `dot` where the window shows `pos`; a position outside it is dropped.
    pub fn paint_dot(&self, dot: char, pos: Pos, renderer: &mut Renderer)
        requires
            self.wf(),
            pos.wf(),
            old(renderer).wf(),
        ensures
            final(renderer).wf(),
            final(renderer).spec_width() == old(renderer).spec_width(),
            final(renderer).spec_height() == old(renderer).spec_height(),
            final(renderer).messages() == old(renderer).messages(),
            final(renderer)@ == dot_painted(*self, old(renderer)@, pos, dot),
    {
        let rel = pos.minus(self.pos).to_cell();
        if rel.x >= 0 && rel.x < self.width as i64 && rel.y >= 0 && rel.y < self.height as i64 {
            renderer.paint(
                (self.frame_pos.x + rel.x) as Dimension,
                (self.frame_pos.y + rel.y) as Dimension,
                dot,
            );
        }
    }
}

/// Something that paints itself through a camera.
pub trait Drawable {
    /// The value is in a state that can be drawn.
    spec fn drawable(&self) -> bool;

    fn draw(&self, camera: &Camera, renderer: &mut Renderer)
        requires
            self.drawable(),
            camera.wf(),
            old(renderer).wf(),
        ensures
            final(renderer).wf(),
            final(renderer).spec_width() == old(renderer).spec_width(),
            final(renderer).spec_height() == old(renderer).spec_height(),
            final(renderer).messages() == old(renderer).messages(),
    ;
}

/// The frame drawn around the camera's window.
pub struct Border;

pub const TOP_LEFT_CORNER: char = '\u{250c}';
pub const TOP_RIGHT_CORNER: char = '\u{2510}';
pub const BOTTOM_LEFT_CORNER: char = '\u{2514}';
pub const BOTTOM_RIGHT_CORNER: char = '\u{2518}';
pub const VERTICAL: char = '\u{2502}';
pub const HORIZONTAL: char = '\u{2500}';

/// The character of the box whose corners are the cells `(0, 0)` and `(w, h)` at cell
/// `(x, y)`, if the box passes there.
pub open spec fn border_char(w: int, h: int, x: int, y: int) -> Option<char> {
    if x == 0 && y == 0 {
        Some(TOP_LEFT_CORNER)
    } else if x == w && y == 0 {
        Some(TOP_RIGHT_CORNER)
    } else if x == w && y == h {
        Some(BOTTOM_RIGHT_CORNER)
    } else if x == 0 && y == h {
        Some(BOTTOM_LEFT_CORNER)
    } else if (y == 0 || y == h) && 0 < x < w {
        Some(HORIZONTAL)
    } else if (x == 0 || x == w) && 0 < y < h {
        Some(VERTICAL)
    } else {
        None
    }
}

/// `cur` is `old` with the box painted on its corners, on its horizontal sides before
/// column `hx`, and on its vertical sides before row `vy`.
pub open spec fn border_progress(
    old: Seq<Seq<char>>,
    cur: Seq<Seq<char>>,
    w: int,
    h: int,
    hx: int,
    vy: int,
) -> bool {
    &&& cur.len() == old.len()
    &&& forall|fy: int| 0 <= fy < old.len() ==> (#[trigger] cur[fy]).len() == old[fy].len()
    &&& forall|fy: int, fx: int|
        0 <= fy < old.len() && 0 <= fx < old[fy].len() ==> #[trigger] cur[fy][fx] == match border_char(
            w,
            h,
            fx,
            fy,
        ) {
            Some(c) => if (fx == 0 || fx == w) && (fy == 0 || fy == h) || (fy == 0 || fy == h)
                && fx < hx || (fx == 0 || fx == w) && fy < vy {
                c
            } else {
                old[fy][fx]
            },
            None => old[fy][fx],
        }
}

impl Drawable for Border {
    open spec fn drawable(&self) -> bool {
        true
    }

    /// Paints a box whose inside is the camera's window.
    fn draw(&self, camera: &Camera, renderer: &mut Renderer)
        ensures
            final(renderer)@.len() == old(renderer)@.len(),
            forall|fy: int, fx: int|
                0 <= fy < old(renderer)@.len() && 0 <= fx < old(renderer)@[fy].len()
                    ==> #[trigger] final(renderer)@[fy][fx] == match border_char(
                    camera.width + 1,
                    camera.height + 1,
                    fx,
                    fy,
                ) {
                    Some(c) => c,
                    None => old(renderer)@[fy][fx],
                },
    {
        let ghost before = renderer@;
        let width = camera.width + 1;
        let height = camera.height + 1;
        let ghost w = width as int;
        let ghost h = height as int;
        renderer.paint(0, 0, TOP_LEFT_CORNER);
        renderer.paint(width, 0, TOP_RIGHT_CORNER);
        renderer.paint(width, height, BOTTOM_RIGHT_CORNER);
        renderer.paint(0, height, BOTTOM_LEFT_CORNER);
        proof {
            let cur = renderer@;
            assert forall|fy: int, fx: int|
                0 <= fy < before.len() && 0 <= fx < before[fy].len() implies #[trigger] cur[fy][fx]
                == match border_char(w, h, fx, fy) {
                Some(c) => if (fx == 0 || fx == w) && (fy == 0 || fy == h) || (fy == 0 || fy == h)
                    && fx < 1 || (fx == 0 || fx == w) && fy < 1 {
                    c
                } else {
                    before[fy][fx]
                },
                None => before[fy][fx],
            } by {
                let f1 = painted(before, 0, 0, TOP_LEFT_CORNER);
                let f2 = painted(f1, w, 0, TOP_RIGHT_CORNER);
                let f3 = painted(f2, w, h, BOTTOM_RIGHT_CORNER);
                lemma_painted_cell(before, 0, 0, TOP_LEFT_CORNER, fx, fy);
                lemma_painted_cell(f1, w, 0, TOP_RIGHT_CORNER, fx, fy);
                lemma_painted_cell(f2, w, h, BOTTOM_RIGHT_CORNER, fx, fy);
                lemma_painted_cell(f3, 0, h, BOTTOM_LEFT_CORNER, fx, fy);
            }
            assert forall|fy: int| 0 <= fy < before.len() implies (#[trigger] cur[fy]).len()
                == before[fy].len() by {
                let f1 = painted(before, 0, 0, TOP_LEFT_CORNER);
                let f2 = painted(f1, w, 0, TOP_RIGHT_CORNER);
                let f3 = painted(f2, w, h, BOTTOM_RIGHT_CORNER);
                if 0 < before[fy].len() {
                    lemma_painted_cell(before, 0, 0, TOP_LEFT_CORNER, 0, fy);
                    lemma_painted_cell(f1, w, 0, TOP_RIGHT_CORNER, 0, fy);
                    lemma_painted_cell(f2, w, h, BOTTOM_RIGHT_CORNER, 0, fy);
                    lemma_painted_cell(f3, 0, h, BOTTOM_LEFT_CORNER, 0, fy);
                }
            }
        }
        let mut x: u16 = 1;
        while x < width
            invariant
                renderer.wf(),
                renderer.spec_width() == old(renderer).spec_width(),
                renderer.spec_height() == old(renderer).spec_height(),
                renderer.messages() == old(renderer).messages(),
                before == old(renderer)@,
                w == width,
                h == height,
                1 <= x <= width,
                border_progress(before, renderer@, w, h, x as int, 1),
            decreases width - x,
        {
            let ghost cur = renderer@;
            renderer.paint(x, 0, HORIZONTAL);
            renderer.paint(x, height, HORIZONTAL);
            proof {
                let mid = painted(cur, x as int, 0, HORIZONTAL);
                assert forall|fy: int, fx: int|
                    0 <= fy < before.len() && 0 <= fx < before[fy].len() implies #[trigger] renderer@[fy][fx]
                    == match border_char(w, h, fx, fy) {
                    Some(c) => if (fx == 0 || fx == w) && (fy == 0 || fy == h) || (fy == 0 || fy
                        == h) && fx < x + 1 || (fx == 0 || fx == w) && fy < 1 {
                        c
                    } else {
                        before[fy][fx]
                    },
                    None => before[fy][fx],
                } by {
                    lemma_painted_cell(cur, x as int, 0, HORIZONTAL, fx, fy);
                    lemma_painted_cell(mid, x as int, h, HORIZONTAL, fx, fy);
                    assert(cur[fy][fx] == match border_char(w, h, fx, fy) {
                        Some(c) => if (fx == 0 || fx == w) && (fy == 0 || fy == h) || (fy == 0
                            || fy == h) && fx < x || (fx == 0 || fx == w) && fy < 1 {
                            c
                        } else {
                            before[fy][fx]
                        },
                        None => before[fy][fx],
                    });
                }
                assert forall|fy: int| 0 <= fy < before.len() implies (#[trigger] renderer@[fy]).len()
                    == before[fy].len() by {
                    assert(cur[fy].len() == before[fy].len());
                }
            }
            x = x + 1;
        }
        let mut y: u16 = 1;
        while y < height
            invariant
                renderer.wf(),
                renderer.spec_width() == old(renderer).spec_width(),
                renderer.spec_height() == old(renderer).spec_height(),
                renderer.messages() == old(renderer).messages(),
                before == old(renderer)@,
                w == width,
                h == height,
                1 <= y <= height,
                border_progress(before, renderer@, w, h, w, y as int),
            decreases height - y,
        {
            let ghost cur = renderer@;
            renderer.paint(0, y, VERTICAL);
            renderer.paint(width, y, VERTICAL);
            proof {
                let mid = painted(cur, 0, y as int, VERTICAL);
                assert forall|fy: int, fx: int|
                    0 <= fy < before.len() && 0 <= fx < before[fy].len() implies #[trigger] renderer@[fy][fx]
                    == match border_char(w, h, fx, fy) {
                    Some(c) => if (fx == 0 || fx == w) && (fy == 0 || fy == h) || (fy == 0 || fy
                        == h) && fx < w || (fx == 0 || fx == w) && fy < y + 1 {
                        c
                    } else {
                        before[fy][fx]
                    },
                    None => before[fy][fx],
                } by {
                    lemma_painted_cell(cur, 0, y as int, VERTICAL, fx, fy);
                    lemma_painted_cell(mid, w, y as int, VERTICAL, fx, fy);
                    assert(cur[fy][fx] == match border_char(w, h, fx, fy) {
                        Some(c) => if (fx == 0 || fx == w) && (fy == 0 || fy == h) || (fy == 0
                            || fy == h) && fx < w || (fx == 0 || fx == w) && fy < y {
                            c
                        } else {
                            before[fy][fx]
                        },
                        None => before[fy][fx],
                    });
                }
                assert forall|fy: int| 0 <= fy < before.len() implies (#[trigger] renderer@[fy]).len()
                    == before[fy].len() by {
                    assert(cur[fy].len() == before[fy].len());
                }
            }
            y = y + 1;
        }
    }
}

} // verus!
