use crate::entities::{lemma_directions_distinct, step_x, step_y, Entities as Creatures};
use crate::strmap::str_eq;
use std::collections::HashMap;
use vstd::prelude::*;
use vstd::string::StringExecFns;

pub use crate::tiles::{Tile, WorldMapTile};

verus! {

broadcast use vstd::std_specs::hash::group_hash_axioms;

/// A creature as the world generator records it.
pub struct Entity {
    pub x: i32,
    pub y: i32,
    pub id: u64,
    pub name: String,
    pub relative_x: i32,
    pub relative_y: i32,
    pub chunk_x: i32,
    pub chunk_y: i32,
    pub entity_type: String,
}

impl Default for Entity {
    /// The placeholder: "No entity" named "No name" at (1, 1) of chunk (1, 1).
    fn default() -> (r: Entity)
        ensures
            r.x == 1 && r.y == 1 && r.relative_x == 1 && r.relative_y == 1,
            r.chunk_x == 1 && r.chunk_y == 1 && r.id == 0,
            r.entity_type@ == "No entity"@,
            r.name@ == "No name"@,
    {
        Entity {
            x: 1,
            y: 1,
            relative_x: 1,
            relative_y: 1,
            chunk_x: 1,
            chunk_y: 1,
            entity_type: String::from_str("No entity"),
            id: 0,
            name: String::from_str("No name"),
        }
    }
}

impl Clone for Entity {
    fn clone(&self) -> (r: Entity)
        ensures
            r == *self,
    {
        Entity {
            x: self.x,
            y: self.y,
            id: self.id,
            name: self.name.clone(),
            relative_x: self.relative_x,
            relative_y: self.relative_y,
            chunk_x: self.chunk_x,
            chunk_y: self.chunk_y,
            entity_type: self.entity_type.clone(),
        }
    }
}

impl Entity {
    /// Moves one square "up", "down", "left" or "right"; any other direction
    /// stays.
    pub fn move_dir(&mut self, dir: String)
        requires
            i32::MIN <= old(self).x + step_x(dir@) <= i32::MAX,
            i32::MIN <= old(self).relative_x + step_x(dir@) <= i32::MAX,
            i32::MIN <= old(self).y + step_y(dir@) <= i32::MAX,
            i32::MIN <= old(self).relative_y + step_y(dir@) <= i32::MAX,
        ensures
            final(self).x == old(self).x + step_x(dir@),
            final(self).relative_x == old(self).relative_x + step_x(dir@),
            final(self).y == old(self).y + step_y(dir@),
            final(self).relative_y == old(self).relative_y + step_y(dir@),
            final(self).id == old(self).id,
            final(self).name == old(self).name,
            final(self).chunk_x == old(self).chunk_x,
            final(self).chunk_y == old(self).chunk_y,
            final(self).entity_type == old(self).entity_type,
    {
        proof {
            lemma_directions_distinct();
        }
        if str_eq(dir.as_str(), "up") {
            self.relative_y -= 1;
            self.y -= 1;
        } else if str_eq(dir.as_str(), "down") {
            self.relative_y += 1;
            self.y += 1;
        } else if str_eq(dir.as_str(), "left") {
            self.relative_x -= 1;
            self.x -= 1;
        } else if str_eq(dir.as_str(), "right") {
            self.relative_x += 1;
            self.x += 1;
        }
    }
}

/// A biome and how many tiles of a chunk have it.
pub struct Biome {
    pub biome: String,
    pub count: i32,
}

/// The world map: one entry per chunk.
pub struct WorldMap {
    pub chunks: Vec<Vec<WorldMapTile>>,
}

/// The settings a world was generated with.
///
/// `sealevel_bits` holds the sea level as the bit pattern of a 32-bit float;
/// nothing in the rules reads it.
pub struct WorldProperties {
    pub seed: i32,
    pub sealevel_bits: u32,
    pub chunk_size: u32,
    pub world_width: u32,
    pub world_height: u32,
    pub name: String,
}

impl Clone for WorldProperties {
    fn clone(&self) -> (r: WorldProperties)
        ensures
            r == *self,
    {
        WorldProperties {
            seed: self.seed,
            sealevel_bits: self.sealevel_bits,
            chunk_size: self.chunk_size,
            world_width: self.world_width,
            world_height: self.world_height,
            name: self.name.clone(),
        }
    }
}

impl Default for WorldProperties {
    /// A world of no size, named "".
    fn default() -> (r: WorldProperties)
        ensures
            r.seed == 0 && r.sealevel_bits == 0 && r.chunk_size == 0,
            r.world_width == 0 && r.world_height == 0,
            r.name@ == ""@,
    {
        WorldProperties {
            seed: 0,
            sealevel_bits: 0,
            chunk_size: 0,
            world_width: 0,
            world_height: 0,
            name: String::from_str(""),
        }
    }
}

/// The tiles of one chunk, row by row, its coordinates and its biome.
pub struct Tiles {
    pub tiles: Vec<Vec<Tile>>,
    pub x: i32,
    pub y: i32,
    pub biome: String,
}

impl Default for Tiles {
    /// No tiles, at chunk (0, 0), of biome "No Biome".
    fn default() -> (r: Tiles)
        ensures
            r.tiles@.len() == 0,
            r.x == 0 && r.y == 0,
            r.biome@ == "No Biome"@,
    {
        Tiles { tiles: Vec::new(), x: 0, y: 0, biome: String::from_str("No Biome") }
    }
}

/// The creatures the generator places in a chunk, and the chunk's
/// coordinates.
pub struct Entities {
    pub entities: HashMap<u64, Entity>,
    pub x: i32,
    pub y: i32,
}

impl Default for Entities {
    /// No creatures, at chunk (0, 0).
    fn default() -> (r: Entities)
        ensures
            r.entities@ == Map::<u64, Entity>::empty(),
            r.x == 0 && r.y == 0,
    {
        Entities { entities: HashMap::new(), x: 0, y: 0 }
    }
}

/// All chunks' tiles.
pub struct World {
    pub tilemap: Vec<Vec<Tiles>>,
}


/// The noise one tile of a chunk is generated from: its height, and for each
/// desert kind in turn whether that kind's noise falls below the biome
/// threshold.
pub struct TileSample {
    pub h_bits: u32,
    pub dunes: bool,
    pub ash_desert: bool,
    pub salt_desert: bool,
    pub ice_desert: bool,
    pub rock_desert: bool,
}

/// The biome of a tile, by number: the first desert kind whose noise is below
/// the threshold, else 5, barren land.
pub open spec fn biome_of(s: TileSample) -> int {
    if s.dunes {
        0
    } else if s.ash_desert {
        1
    } else if s.salt_desert {
        2
    } else if s.ice_desert {
        3
    } else if s.rock_desert {
        4
    } else {
        5
    }
}

/// The name of a biome.
pub open spec fn biome_name(b: int) -> Seq<char> {
    if b == 0 {
        "dunes"@
    } else if b == 1 {
        "ash_desert"@
    } else if b == 2 {
        "salt_desert"@
    } else if b == 3 {
        "ice_desert"@
    } else if b == 4 {
        "rock_desert"@
    } else {
        "barren_land"@
    }
}

/// The ground of a biome's tiles.
pub open spec fn biome_ground(b: int) -> Seq<char> {
    if b == 0 {
        "dune_sand"@
    } else if b == 1 {
        "ash"@
    } else if b == 2 {
        "salt"@
    } else if b == 3 {
        "ice"@
    } else if b == 4 {
        "gravel"@
    } else {
        "sand"@
    }
}

/// How many of the samples have biome `b`.
pub open spec fn biome_count(samples: Seq<TileSample>, b: int) -> nat
    decreases samples.len(),
{
    if samples.len() == 0 {
        0
    } else {
        biome_count(samples.drop_last(), b) + if biome_of(samples.last()) == b {
            1nat
        } else {
            0nat
        }
    }
}

/// Whether `t` is the tile in row `i`, column `j` of chunk (`cx`, `cy`) with
/// sides of `cs` tiles, made from sample `s`.
pub open spec fn is_generated_tile(t: Tile, cs: int, cx: int, cy: int, i: int, j: int, s: TileSample) -> bool {
    &&& t.x == j + cx * cs
    &&& t.y == i + cy * cs
    &&& t.relative_x == j
    &&& t.relative_y == i
    &&& t.chunk_x == cx
    &&& t.chunk_y == cy
    &&& t.h_bits == s.h_bits
    &&& t.tile_type@ == biome_ground(biome_of(s))
    &&& !t.has_trees
    &&& !t.gathered
}

fn biome_of_sample(s: &TileSample) -> (r: usize)
    ensures
        r as int == biome_of(*s),
{
    if s.dunes {
        0
    } else if s.ash_desert {
        1
    } else if s.salt_desert {
        2
    } else if s.ice_desert {
        3
    } else if s.rock_desert {
        4
    } else {
        5
    }
}

fn biome_name_of(b: usize) -> (r: String)
    ensures
        r@ == biome_name(b as int),
{
    if b == 0 {
        String::from_str("dunes")
    } else if b == 1 {
        String::from_str("ash_desert")
    } else if b == 2 {
        String::from_str("salt_desert")
    } else if b == 3 {
        String::from_str("ice_desert")
    } else if b == 4 {
        String::from_str("rock_desert")
    } else {
        String::from_str("barren_land")
    }
}

fn biome_ground_of(b: usize) -> (r: String)
    ensures
        r@ == biome_ground(b as int),
{
    if b == 0 {
        String::from_str("dune_sand")
    } else if b == 1 {
        String::from_str("ash")
    } else if b == 2 {
        String::from_str("salt")
    } else if b == 3 {
        String::from_str("ice")
    } else if b == 4 {
        String::from_str("gravel")
    } else {
        String::from_str("sand")
    }
}

/// The biome met most often among the samples: no other biome is met more
/// often.
pub fn main_biome(samples: &Vec<TileSample>) -> (r: usize)
    ensures
        r < 6,
        forall|b: int| 0 <= b < 6 ==> biome_count(samples@, b) <= biome_count(samples@, r as int),
{
    let mut counts: Vec<usize> = vec![0, 0, 0, 0, 0, 0];
    let mut k: usize = 0;
    assert(samples@.take(0) =~= Seq::<TileSample>::empty());
    while k < samples.len()
        invariant
            0 <= k <= samples@.len(),
            counts@.len() == 6,
            forall|b: int| 0 <= b < 6 ==> #[trigger] counts@[b] == biome_count(samples@.take(k as int), b),
            forall|b: int| 0 <= b < 6 ==> #[trigger] counts@[b] <= k,
        decreases samples@.len() - k,
    {
        let b = biome_of_sample(&samples[k]);
        let c = counts[b];
        counts.set(b, c + 1);
        assert(samples@.take(k + 1).drop_last() =~= samples@.take(k as int));
        assert forall|b2: int| 0 <= b2 < 6 implies #[trigger] counts@[b2] == biome_count(
            samples@.take(k + 1),
            b2,
        ) by {
            assert(samples@.take(k + 1).last() == samples@[k as int]);
        }
        k = k + 1;
    }
    assert(samples@.take(samples@.len() as int) =~= samples@);
    let mut best: usize = 0;
    let mut b: usize = 1;
    while b < 6
        invariant
            counts@.len() == 6,
            forall|b2: int| 0 <= b2 < 6 ==> #[trigger] counts@[b2] == biome_count(samples@, b2),
            1 <= b <= 6,
            best < b,
            forall|b2: int| 0 <= b2 < b ==> #[trigger] counts@[b2] <= counts@[best as int],
        decreases 6 - b,
    {
        if counts[b] > counts[best] {
            best = b;
        }
        b = b + 1;
    }
    assert forall|b2: int| 0 <= b2 < 6 implies biome_count(samples@, b2) <= biome_count(
        samples@,
        best as int,
    ) by {
        assert(counts@[b2] <= counts@[best as int]);
    }
    best
}

fn generated_tile(cs: u32, cx: i32, cy: i32, i: u32, j: u32, s: &TileSample) -> (r: Tile)
    requires
        i < cs,
        j < cs,
        cs <= i32::MAX,
        i32::MIN <= cx * cs,
        cx * cs + cs <= i32::MAX,
        i32::MIN <= cy * cs,
        cy * cs + cs <= i32::MAX,
    ensures
        is_generated_tile(r, cs as int, cx as int, cy as int, i as int, j as int, *s),
{
    let b = biome_of_sample(s);
    Tile {
        x: j as i32 + cx * cs as i32,
        y: i as i32 + cy * cs as i32,
        relative_x: j as i32,
        relative_y: i as i32,
        chunk_x: cx,
        chunk_y: cy,
        h_bits: s.h_bits,
        tile_type: biome_ground_of(b),
        has_trees: false,
        gathered: false,
    }
}

/// Whether a chunk of side `cs` at (`cx`, `cy`) has coordinates that fit in
/// 32 bits.
pub open spec fn chunk_fits(cs: int, cx: int, cy: int) -> bool {
    &&& cs <= i32::MAX
    &&& i32::MIN <= cx * cs
    &&& cx * cs + cs <= i32::MAX
    &&& i32::MIN <= cy * cs
    &&& cy * cs + cs <= i32::MAX
}

/// Whether `t` and `e` are chunk (`x`, `y`) as built from its tile samples,
/// taken row by row, with sides of `cs` tiles: every tile is made from its
/// sample, the chunk's biome is one met most often, and the chunk holds no
/// creatures.
pub open spec fn chunk_built(cs: u32, x: i32, y: i32, samples: Seq<TileSample>, t: Tiles, e: Creatures) -> bool {
    &&& t.x == x && t.y == y
    &&& t.tiles@.len() == cs
    &&& forall|i: int| 0 <= i < cs ==> (#[trigger] t.tiles@[i])@.len() == cs
    &&& forall|i: int, j: int|
        0 <= i < cs && 0 <= j < cs ==> is_generated_tile(
            #[trigger] t.tiles@[i]@[j],
            cs as int,
            x as int,
            y as int,
            i,
            j,
            samples[i * cs + j],
        )
    &&& exists|b: int|
        0 <= b < 6 && t.biome@ == biome_name(b) && forall|b2: int|
            0 <= b2 < 6 ==> biome_count(samples, b2) <= #[trigger] biome_count(samples, b)
    &&& e.entities@ == Map::<u64, crate::entities::Entity>::empty()
    &&& e.x == x && e.y == y
}

/// Builds chunk (`x`, `y`) from its tile samples, taken row by row: every
/// tile's ground follows its biome, the chunk's biome is one met most often,
/// and the chunk holds no creatures.
pub fn build_chunk(chunk_size: u32, x: i32, y: i32, samples: &Vec<TileSample>) -> (r: (
    Tiles,
    Creatures,
))
    requires
        samples@.len() == chunk_size * chunk_size,
        chunk_fits(chunk_size as int, x as int, y as int),
    ensures
        chunk_built(chunk_size, x, y, samples@, r.0, r.1),
{
    let cs = chunk_size;
    let n = samples.len();
    let mut rows: Vec<Vec<Tile>> = Vec::new();
    let mut i: u32 = 0;
    while i < cs
        invariant
            samples@.len() == cs * cs,
            n == samples@.len(),
            chunk_fits(cs as int, x as int, y as int),
            0 <= i <= cs,
            rows@.len() == i,
            forall|a: int| 0 <= a < i ==> (#[trigger] rows@[a])@.len() == cs,
            forall|a: int, c: int|
                0 <= a < i && 0 <= c < cs ==> is_generated_tile(
                    #[trigger] rows@[a]@[c],
                    cs as int,
                    x as int,
                    y as int,
                    a,
                    c,
                    samples@[a * cs + c],
                ),
        decreases cs - i,
    {
        let mut row: Vec<Tile> = Vec::new();
        let mut j: u32 = 0;
        while j < cs
            invariant
                samples@.len() == cs * cs,
                n == samples@.len(),
                chunk_fits(cs as int, x as int, y as int),
                0 <= i < cs,
                0 <= j <= cs,
                row@.len() == j,
                forall|c: int|
                    0 <= c < j ==> is_generated_tile(
                        #[trigger] row@[c],
                        cs as int,
                        x as int,
                        y as int,
                        i as int,
                        c,
                        samples@[i * cs + c],
                    ),
            decreases cs - j,
        {
            assert(i * cs + j < cs * cs) by (nonlinear_arith)
                requires
                    i < cs,
                    j < cs,
            ;
            assert(0 <= i * cs <= i * cs + j) by (nonlinear_arith)
                requires
                    0 <= i,
                    0 <= cs,
                    0 <= j,
            ;
            let k = (i as usize) * (cs as usize) + (j as usize);
            let t = generated_tile(cs, x, y, i, j, &samples[k]);
            row.push(t);
            j = j + 1;
        }
        rows.push(row);
        i = i + 1;
    }
    let best = main_biome(samples);
    assert(forall|b2: int|
        0 <= b2 < 6 ==> biome_count(samples@, b2) <= #[trigger] biome_count(samples@, best as int));
    let tiles = Tiles { tiles: rows, x, y, biome: biome_name_of(best) };
    let creatures = Creatures { entities: HashMap::new(), x, y };
    assert(tiles.biome@ == biome_name(best as int));
    (tiles, creatures)
}

} // verus!
