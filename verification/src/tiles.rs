use vstd::prelude::*;
use vstd::string::StringExecFns;

verus! {

/// The height 1.0 as the bits of a 32-bit float.
pub const ONE_HEIGHT_BITS: u32 = 0x3f80_0000;

/// One square of the world.
///
/// `h_bits` holds the tile's height as the bit pattern of a 32-bit float;
/// nothing in the rules reads it.
pub struct Tile {
    pub x: i32,
    pub y: i32,
    pub h_bits: u32,
    pub relative_x: i32,
    pub relative_y: i32,
    pub chunk_x: i32,
    pub chunk_y: i32,
    pub tile_type: String,
    pub has_trees: bool,
    pub gathered: bool,
}

/// What a tile stands for.
pub struct TileView {
    pub x: i32,
    pub y: i32,
    pub h_bits: u32,
    pub relative_x: i32,
    pub relative_y: i32,
    pub chunk_x: i32,
    pub chunk_y: i32,
    pub tile_type: Seq<char>,
    pub has_trees: bool,
    pub gathered: bool,
}

impl View for Tile {
    type V = TileView;

    open spec fn view(&self) -> TileView {
        TileView {
            x: self.x,
            y: self.y,
            h_bits: self.h_bits,
            relative_x: self.relative_x,
            relative_y: self.relative_y,
            chunk_x: self.chunk_x,
            chunk_y: self.chunk_y,
            tile_type: self.tile_type@,
            has_trees: self.has_trees,
            gathered: self.gathered,
        }
    }
}

impl Clone for Tile {
    fn clone(&self) -> (r: Tile)
        ensures
            r == *self,
    {
        Tile {
            x: self.x,
            y: self.y,
            h_bits: self.h_bits,
            relative_x: self.relative_x,
            relative_y: self.relative_y,
            chunk_x: self.chunk_x,
            chunk_y: self.chunk_y,
            tile_type: self.tile_type.clone(),
            has_trees: self.has_trees,
            gathered: self.gathered,
        }
    }
}

/// The default tile: a sand tile of height 1 at (1, 1) of chunk (1, 1).
pub open spec fn default_tile() -> TileView {
    TileView {
        x: 1,
        y: 1,
        h_bits: ONE_HEIGHT_BITS,
        relative_x: 1,
        relative_y: 1,
        chunk_x: 1,
        chunk_y: 1,
        tile_type: "sand"@,
        has_trees: false,
        gathered: false,
    }
}

impl Default for Tile {
    fn default() -> (r: Tile)
        ensures
            r@ == default_tile(),
    {
        Tile {
            x: 1,
            y: 1,
            h_bits: ONE_HEIGHT_BITS,
            relative_x: 1,
            relative_y: 1,
            chunk_x: 1,
            chunk_y: 1,
            tile_type: String::from_str("sand"),
            has_trees: false,
            gathered: false,
        }
    }
}

/// The world-map entry of one chunk: its coordinates and its biome.
pub struct WorldMapTile {
    pub x: i32,
    pub y: i32,
    pub chunk_type: String,
}

impl Clone for WorldMapTile {
    fn clone(&self) -> (r: WorldMapTile)
        ensures
            r == *self,
    {
        WorldMapTile { x: self.x, y: self.y, chunk_type: self.chunk_type.clone() }
    }
}

} // verus!
