//! Which tiles of a level are solid, and the tile-level questions the
//! navigation generator asks about them.
use vstd::prelude::*;

verus! {

#[derive(Clone, Copy, Debug)]
pub struct Tile {
    pub solid: bool,
    pub texture_id: u16,
}

/// The tiles of a level, indexed `tiles[x][y]` (column-major), with `x`
/// from the left and `y` from the top.
pub struct TileGrid {
    pub width: usize,
    pub height: usize,
    pub tiles: Vec<Vec<Tile>>,
}

/// Which sides of a tile get a border line.
#[derive(Clone, Copy, Debug)]
pub struct BorderSides {
    pub left: bool,
    pub right: bool,
    pub top: bool,
    pub bottom: bool,
}

impl TileGrid {
    /// Every column exists and has `height` rows.
    pub open spec fn wf(&self) -> bool {
        &&& self.tiles@.len() == self.width
        &&& forall|x: int| 0 <= x < self.width ==> (#[trigger] self.tiles@[x])@.len() == self.height
    }

    pub open spec fn tile_spec(&self, x: int, y: int) -> Tile {
        self.tiles@[x]@[y]
    }

    pub open spec fn solid_spec(&self, x: int, y: int) -> bool {
        self.tile_spec(x, y).solid
    }

    /// A side of a solid tile gets a border when the neighbour on that side
    /// is a solid tile of another texture.
    pub open spec fn border_toward(&self, x: int, y: int, nx: int, ny: int) -> bool {
        &&& 0 <= nx < self.width
        &&& 0 <= ny < self.height
        &&& self.solid_spec(nx, ny)
        &&& self.tile_spec(nx, ny).texture_id != self.tile_spec(x, y).texture_id
    }

    /// Borders of the tile at `(x, y)`; an open tile has none.
    pub fn border_sides(&self, x: usize, y: usize) -> (b: Option<BorderSides>)
        requires
            self.wf(),
            x < self.width,
            y < self.height,
        ensures
            self.solid_spec(x as int, y as int) <==> b is Some,
            b matches Some(s) ==> {
                &&& s.left == self.border_toward(x as int, y as int, x - 1, y as int)
                &&& s.right == self.border_toward(x as int, y as int, x + 1, y as int)
                &&& s.top == self.border_toward(x as int, y as int, x as int, y - 1)
                &&& s.bottom == self.border_toward(x as int, y as int, x as int, y + 1)
            },
    {
        let tile = self.tiles[x][y];
        if !tile.solid {
            return None;
        }
        let id = tile.texture_id;
        let left = x > 0 && self.tiles[x - 1][y].solid && self.tiles[x - 1][y].texture_id != id;
        let right = x + 1 < self.width && self.tiles[x + 1][y].solid && self.tiles[x + 1][y].texture_id
            != id;
        let top = y > 0 && self.tiles[x][y - 1].solid && self.tiles[x][y - 1].texture_id != id;
        let bottom = y + 1 < self.height && self.tiles[x][y + 1].solid
            && self.tiles[x][y + 1].texture_id != id;
        Some(BorderSides { left, right, top, bottom })
    }

    /// A ground tile is a solid tile, neither on the top nor the bottom row,
    /// whose tile above is open: a place where a player can stand.
    pub open spec fn is_ground_spec(&self, x: int, y: int) -> bool {
        &&& 0 <= x < self.width
        &&& 0 < y < self.height - 1
        &&& self.solid_spec(x, y)
        &&& !self.solid_spec(x, y - 1)
    }

    /// Tile coordinates outside the map count as solid.
    pub open spec fn solid_tile_spec(&self, tx: i64, ty: i64) -> bool {
        if tx < 0 || tx >= self.width || ty < 0 || ty >= self.height {
            true
        } else {
            self.solid_spec(tx as int, ty as int)
        }
    }

    pub fn is_ground_tile(&self, x: usize, y: usize) -> (r: bool)
        requires
            self.wf(),
        ensures
            r == self.is_ground_spec(x as int, y as int),
    {
        if x >= self.width || y >= self.height {
            return false;
        }
        if y >= self.height - 1 || y == 0 {
            return false;
        }
        if !self.tiles[x][y].solid {
            return false;
        }
        if self.tiles[x][y - 1].solid {
            return false;
        }
        true
    }

    /// Solidity of the tile at tile coordinates `(tx, ty)`; everything
    /// outside the map is solid.
    pub fn is_solid_tile(&self, tx: i64, ty: i64) -> (r: bool)
        requires
            self.wf(),
        ensures
            r == self.solid_tile_spec(tx, ty),
    {
        if tx < 0 || ty < 0 {
            return true;
        }
        if tx as u64 >= self.width as u64 || ty as u64 >= self.height as u64 {
            return true;
        }
        self.tiles[tx as usize][ty as usize].solid
    }

    /// All ground tiles, column by column from the left, top to bottom
    /// within a column.
    pub fn ground_tiles(&self) -> (tiles: Vec<(usize, usize)>)
        requires
            self.wf(),
        ensures
            forall|x: usize, y: usize|
                #[trigger] tiles@.contains((x, y)) <==> self.is_ground_spec(x as int, y as int),
            forall|i: int, j: int|
                0 <= i < j < tiles@.len() ==> lex_less(#[trigger] tiles@[i], #[trigger] tiles@[j]),
    {
        let mut tiles: Vec<(usize, usize)> = Vec::new();
        let mut x: usize = 0;
        while x < self.width
            invariant
                self.wf(),
                x <= self.width,
                forall|a: usize, b: usize|
                    #[trigger] tiles@.contains((a, b)) <==> (self.is_ground_spec(a as int, b as int) && a < x),
                forall|i: int, j: int|
                    0 <= i < j < tiles@.len() ==> lex_less(#[trigger] tiles@[i], #[trigger] tiles@[j]),
                forall|i: int| 0 <= i < tiles@.len() ==> (#[trigger] tiles@[i]).0 < x,
            decreases self.width - x,
        {
            let mut y: usize = 0;
            while y < self.height
                invariant
                    self.wf(),
                    x < self.width,
                    y <= self.height,
                    forall|a: usize, b: usize|
                        #[trigger] tiles@.contains((a, b)) <==> (self.is_ground_spec(a as int, b as int) && (
                        a < x || (a == x && b < y))),
                    forall|i: int, j: int|
                        0 <= i < j < tiles@.len() ==> lex_less(#[trigger] tiles@[i], #[trigger] tiles@[j]),
                    forall|i: int|
                        0 <= i < tiles@.len() ==> lex_less(#[trigger] tiles@[i], (x, y)),
                decreases self.height - y,
            {
                if self.is_ground_tile(x, y) {
                    let ghost before = tiles@;
                    tiles.push((x, y));
                    proof {
                        assert forall|a: usize, b: usize| #[trigger] tiles@.contains((a, b)) <==> (
                        self.is_ground_spec(a as int, b as int) && (a < x || (a == x && b < y + 1))) by {
                            if tiles@.contains((a, b)) && (a, b) != (x, y) {
                                let k = choose|k: int| 0 <= k < tiles@.len() && tiles@[k] == (a, b);
                                assert(before[k] == (a, b));
                                assert(before.contains((a, b)));
                            }
                            if self.is_ground_spec(a as int, b as int) && (a < x || (a == x && b < y)) {
                                assert(before.contains((a, b)));
                                let k = choose|k: int| 0 <= k < before.len() && before[k] == (a, b);
                                assert(tiles@[k] == (a, b));
                            }
                            if (a, b) == (x, y) {
                                assert(tiles@[before.len() as int] == (a, b));
                            }
                        }
                    }
                }
                y += 1;
            }
            x += 1;
        }
        tiles
    }
}

/// Column-major order of tile coordinates.
pub open spec fn lex_less(a: (usize, usize), b: (usize, usize)) -> bool {
    a.0 < b.0 || (a.0 == b.0 && a.1 < b.1)
}

} // verus!
