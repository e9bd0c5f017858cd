use vstd::prelude::*;

use crate::tile_properties::{kind_blocks, TileTable};

verus! {

/// Size of a tile in the tileset image, in pixels.
pub const TILE_SIZE: u32 = 16;

/// Scale at which tiles are drawn.
pub const TILE_SCALE: u32 = 3;

/// Size of a drawn tile, in screen pixels.
pub const TILE_DRAW_SIZE: u32 = TILE_SIZE * TILE_SCALE;

/// Index of a tile in the tileset.
pub type TileIndex = u32;

/// The index of an empty cell (gid 0 in Tiled).
pub const EMPTY_TILE: TileIndex = 0xffff_ffffu32;

/// A grid of tile indices, `tiles[row][col]`.
pub struct Tilemap {
    pub tiles: Vec<Vec<TileIndex>>,
    pub rows: usize,
    pub cols: usize,
}

impl Tilemap {
    /// `(col, row)` lies inside the grid, as `get_tile` tests it.
    pub open spec fn in_grid(&self, col: i32, row: i32) -> bool {
        !(col < 0 || row < 0 || row >= (self.rows as i32) || col >= (self.cols as i32))
    }

    /// Every cell inside the grid can be read from `tiles`.
    pub open spec fn readable(&self) -> bool {
        forall|col: i32, row: i32|
            #[trigger] self.in_grid(col, row) ==> (row as int) < self.tiles@.len() && (col as int)
                < self.tiles@[row as int]@.len()
    }

    /// The grid is rectangular: `rows` rows of `cols` cells.
    pub open spec fn rectangular(&self) -> bool {
        &&& self.rows == self.tiles@.len()
        &&& forall|r: int| 0 <= r < self.rows ==> #[trigger] self.tiles@[r]@.len() == self.cols
    }

    /// The tile at `(col, row)`, if that cell is in the grid.
    pub open spec fn tile_at(&self, col: i32, row: i32) -> Option<TileIndex> {
        if self.in_grid(col, row) {
            Some(self.tiles@[row as int]@[col as int])
        } else {
            None
        }
    }

    /// Whether the cell `(col, row)` blocks movement: outside the map it does, an empty
    /// cell does not, otherwise the tile's kind decides.
    pub open spec fn solid_at(&self, col: i32, row: i32, table: &TileTable) -> bool {
        match self.tile_at(col, row) {
            None => true,
            Some(t) => t != EMPTY_TILE && kind_blocks(table.kind_of(t)),
        }
    }

    /// Takes the grid; its width is that of its first row.
    pub fn new(tiles: Vec<Vec<TileIndex>>) -> (m: Tilemap)
        ensures
            m.tiles@ == tiles@,
            m.rows == tiles@.len(),
            m.cols == (if tiles@.len() > 0 { tiles@[0]@.len() } else { 0 }),
    {
        let rows = tiles.len();
        let cols = if rows > 0 { tiles[0].len() } else { 0 };
        Tilemap { tiles, rows, cols }
    }

    pub fn get_tile(&self, col: i32, row: i32) -> (r: Option<TileIndex>)
        requires
            self.readable(),
        ensures
            r == self.tile_at(col, row),
    {
        if col < 0 || row < 0 || row >= self.rows as i32 || col >= self.cols as i32 {
            return None;
        }
        assert(self.in_grid(col, row));
        Some(self.tiles[row as usize][col as usize])
    }

    pub fn is_solid(&self, col: i32, row: i32, table: &TileTable) -> (b: bool)
        requires
            self.readable(),
        ensures
            b == self.solid_at(col, row, table),
    {
        match self.get_tile(col, row) {
            None => true,
            Some(idx) => {
                if idx == EMPTY_TILE {
                    false
                } else {
                    table.is_blocking(idx)
                }
            },
        }
    }
}

/// The top-left corner, in the tileset image, of the tile `tile_index`, for a tileset of
/// `tiles_per_row` tiles per row (the source rectangle is `TILE_SIZE` square).
pub fn source_rect_origin(tile_index: u32, tiles_per_row: u32) -> (r: (i32, i32))
    requires
        tiles_per_row > 0,
        (tile_index % tiles_per_row) * TILE_SIZE <= u32::MAX,
        (tile_index / tiles_per_row) * TILE_SIZE <= u32::MAX,
    ensures
        r.0 == (((tile_index % tiles_per_row) * TILE_SIZE) as u32) as i32,
        r.1 == (((tile_index / tiles_per_row) * TILE_SIZE) as u32) as i32,
{
    let col_in_sheet = tile_index % tiles_per_row;
    let row_in_sheet = tile_index / tiles_per_row;
    ((col_in_sheet * TILE_SIZE) as i32, (row_in_sheet * TILE_SIZE) as i32)
}

} // verus!
