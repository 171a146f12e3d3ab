use vstd::prelude::*;

use crate::pos::{cell_of, Pos, ScreenPos};
use crate::render::{rows_of, Camera, Drawable, Renderer};

verus! {

/// What a cell of the stage holds.
#[derive(Clone, Copy, Debug, PartialEq, Eq, Structural)]
pub enum Tile {
    /// A solid block: the player stops and sticks to it.
    Something,
    /// Empty space.
    Nothing,
    /// A spring: it throws the player back faster than it came.
    Spring,
    /// A hazard: touching it kills the player.
    Spike,
    /// A checkpoint: the player comes back here after dying.
    Checkpoint,
    /// Outside the loaded map; treated as empty space.
    OutOfBounds,
}

/// The tile that a character of a stage file stands for: a space is empty, `~` is a
/// spring, `^` a spike, `!` a checkpoint, and any other character is solid.
pub open spec fn tile_of_char(c: char) -> Tile {
    if c == ' ' {
        Tile::Nothing
    } else if c == '~' {
        Tile::Spring
    } else if c == '^' {
        Tile::Spike
    } else if c == '!' {
        Tile::Checkpoint
    } else {
        Tile::Something
    }
}

impl From<char> for Tile {
    fn from(value: char) -> (r: Tile) {
        if value == ' ' {
            Tile::Nothing
        } else if value == '~' {
            Tile::Spring
        } else if value == '^' {
            Tile::Spike
        } else if value == '!' {
            Tile::Checkpoint
        } else {
            Tile::Something
        }
    }
}

impl vstd::std_specs::convert::FromSpecImpl<char> for Tile {
    open spec fn obeys_from_spec() -> bool {
        true
    }

    open spec fn from_spec(v: char) -> Tile {
        tile_of_char(v)
    }
}

/// The tile at cell `c` of a map given as rows of characters; `OutOfBounds` off the map.
pub open spec fn cell_tile(rows: Seq<Seq<char>>, c: ScreenPos) -> Tile {
    if 0 <= c.y < rows.len() && 0 <= c.x < rows[c.y as int].len() {
        tile_of_char(rows[c.y as int][c.x as int])
    } else {
        Tile::OutOfBounds
    }
}

/// The tile under a world position.
pub open spec fn tile_at(rows: Seq<Seq<char>>, p: Pos) -> Tile {
    cell_tile(rows, cell_of(p))
}

/// The tile map: rows of characters, row 0 at the top.
pub struct Stage {
    data: Vec<Vec<char>>,
}

impl View for Stage {
    type V = Seq<Seq<char>>;

    closed spec fn view(&self) -> Seq<Seq<char>> {
        self.data@.map_values(|r: Vec<char>| r@)
    }
}

impl Stage {
    /// A stage made of the given rows.
    pub fn new(data: Vec<Vec<char>>) -> (r: Stage)
        ensures
            r@ == data@.map_values(|row: Vec<char>| row@),
    {
        Stage { data }
    }

    /// The rows of the stage.
    pub fn rows(&self) -> (r: &Vec<Vec<char>>)
        ensures
            r@.map_values(|row: Vec<char>| row@) == self@,
    {
        &self.data
    }

    /// The tile under a world position; positions off the map give `OutOfBounds`.
    pub fn check_pos(&self, pos: Pos) -> (r: Tile)
        requires
            pos.wf(),
        ensures
            r == tile_at(self@, pos),
    {
        let cell = pos.to_cell();
        if cell.x < 0 || cell.y < 0 {
            return Tile::OutOfBounds;
        }
        let (x, y) = cell.indices();
        if y >= self.data.len() {
            return Tile::OutOfBounds;
        }
        let row = &self.data[y];
        if x >= row.len() {
            return Tile::OutOfBounds;
        }
        Tile::from(row[x])
    }
}

impl Drawable for Stage {
    open spec fn drawable(&self) -> bool {
        true
    }

    /// Paints the part of the map that the camera shows, the map's top-left cell at the
    /// world's origin.
    fn draw(&self, camera: &Camera, renderer: &mut Renderer)
        ensures
            final(renderer)@.len() == old(renderer)@.len(),
            forall|fy: int, fx: int|
                0 <= fy < old(renderer)@.len() && 0 <= fx < old(renderer)@[fy].len()
                    ==> #[trigger] final(renderer)@[fy][fx] == match camera.sprite_dot(
                    self@,
                    Pos { x: 0, y: 0 },
                    fx,
                    fy,
                ) {
                    Some(ch) => ch,
                    None => old(renderer)@[fy][fx],
                },
    {
        assert(rows_of(self.data@) == self@);
        camera.paint_sprite(&self.data, Pos::new(0, 0), renderer);
    }
}

} // verus!
