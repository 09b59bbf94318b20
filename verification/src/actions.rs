use crate::classes::{ability_table, stat_table, CharacterStats, CharacterStatsView};
use crate::entities::{
    hurt, after_rolls, damaged, damage_fits, hp_room, rolls_fit, stepped, step_fits, survives, units_view,
    weapon_power, Entities, Entity, EntityView, Unit, UnitView, lemma_hunger_and_water_bounds,
};
use crate::queue::PostData;
use crate::text::{parse_i32_spec, parse_u64_spec};
use crate::tiles::{default_tile, Tile, TileView};
use crate::world::{Tiles, WorldProperties};
use std::collections::HashMap;
use vstd::prelude::*;
use vstd::string::StringExecFns;
use crate::strmap::{str_eq, StrMap};
use crate::classes::Ogre;
use crate::text::{parse_i32, parse_u64};
use crate::random::random_in;
use crate::names::{name_source_ok, texts};
use crate::entities::{drawn_band, step_x, step_y, weapon_power_of, GenerateDefault};

verus! {

broadcast use vstd::std_specs::hash::group_hash_axioms;

// ---------------------------------------------------------------------------
// The parameters of a request.
// ---------------------------------------------------------------------------

/// The number a parameter holds, read as `str::parse::<i32>` reads it.
pub open spec fn int_param(p: Map<Seq<char>, Seq<char>>, key: Seq<char>) -> i32 {
    parse_i32_spec(p[key]).unwrap()
}

/// The number a parameter holds, read as `str::parse::<u64>` reads it.
pub open spec fn id_param(p: Map<Seq<char>, Seq<char>>, key: Seq<char>) -> u64 {
    parse_u64_spec(p[key]).unwrap()
}

/// Whether parameter `key` is set and holds a 32-bit number.
pub open spec fn has_int(p: Map<Seq<char>, Seq<char>>, key: Seq<char>) -> bool {
    p.contains_key(key) && parse_i32_spec(p[key]) is Some
}

/// Whether parameter `key` is set and holds an unsigned 64-bit number.
pub open spec fn has_id(p: Map<Seq<char>, Seq<char>>, key: Seq<char>) -> bool {
    p.contains_key(key) && parse_u64_spec(p[key]) is Some
}

// ---------------------------------------------------------------------------
// The world's measures, as the server reads them: 32-bit casts of the
// unsigned settings.
// ---------------------------------------------------------------------------

pub open spec fn side(w: WorldProperties) -> i32 {
    w.chunk_size as i32
}

pub open spec fn width(w: WorldProperties) -> i32 {
    w.world_width as i32
}

pub open spec fn height(w: WorldProperties) -> i32 {
    w.world_height as i32
}

// ---------------------------------------------------------------------------
// Resources.
// ---------------------------------------------------------------------------

/// The amount of a resource, or 0 where the creature has none of that kind.
pub open spec fn amount(r: Map<Seq<char>, i32>, key: Seq<char>) -> int {
    if r.contains_key(key) {
        r[key] as int
    } else {
        0
    }
}

/// The resources after adding `n` of a kind the creature keeps; a kind it
/// does not keep stays absent.
pub open spec fn add_amount(r: Map<Seq<char>, i32>, key: Seq<char>, n: int) -> Map<Seq<char>, i32> {
    if r.contains_key(key) {
        r.insert(key, (r[key] + n) as i32)
    } else {
        r
    }
}

// ---------------------------------------------------------------------------
// Spawning.
// ---------------------------------------------------------------------------

/// The statistics of a spawned player: an ogre whose ability slots read
/// "LEVEL 2" to "LEVEL 6".
pub open spec fn spawned_stats() -> CharacterStatsView {
    CharacterStatsView {
        abilities: ability_table(
            "LEVEL 2"@,
            "LEVEL 3"@,
            "LEVEL 4"@,
            "LEVEL 5"@,
            "LEVEL 6"@,
        ),
        stats: stat_table(9, 2, 3),
        creature_type: ""@,
    }
}

/// The resources of a spawned player: no wood, ten food.
pub open spec fn spawned_resources() -> Map<Seq<char>, i32> {
    Map::empty().insert("wood"@, 0i32).insert("food"@, 10i32)
}

/// The player a "spawn" request creates: an ogre at square ("x", "y") of the
/// request's chunk, named by "name", with the given band.
pub open spec fn spawned(
    p: Map<Seq<char>, Seq<char>>,
    w: WorldProperties,
    cx: i32,
    cy: i32,
    id: u64,
    units: Map<u64, UnitView>,
) -> EntityView {
    let ax = int_param(p, "x"@);
    let ay = int_param(p, "y"@);
    EntityView {
        x: (side(w) * cx + ax) as i32,
        y: (side(w) * cy + ay) as i32,
        experience: 0,
        level: 1,
        id,
        name: p["name"@],
        relative_x: ax,
        relative_y: ay,
        chunk_x: cx,
        chunk_y: cy,
        entity_type: "ogre"@,
        stats: spawned_stats(),
        resources: spawned_resources(),
        units,
        standing_tile: default_tile(),
        alive: true,
        target_entity_id: 1,
    }
}

/// Whether the spawned player's coordinates fit in 32 bits.
pub open spec fn spawn_fits(p: Map<Seq<char>, Seq<char>>, w: WorldProperties, cx: i32, cy: i32) -> bool {
    let ax = int_param(p, "x"@);
    let ay = int_param(p, "y"@);
    &&& i32::MIN <= side(w) * cx <= i32::MAX
    &&& i32::MIN <= side(w) * cx + ax <= i32::MAX
    &&& i32::MIN <= side(w) * cy <= i32::MAX
    &&& i32::MIN <= side(w) * cy + ay <= i32::MAX
}


// ---------------------------------------------------------------------------
// Moving.
// ---------------------------------------------------------------------------

/// Whether a step in `dir` would leave the world: up from the top row of the
/// top chunks, down from the bottom row of the bottom chunks, left from the
/// left column of the left chunks, and right from the last column of chunks
/// where the creature stands in the chunk's bottom row (the server tests the
/// row there).
pub open spec fn move_blocked(dir: Seq<char>, e: EntityView, w: WorldProperties) -> bool {
    if dir == "up"@ {
        e.chunk_y == 0 && e.relative_y == 0
    } else if dir == "down"@ {
        e.chunk_y == height(w) - 1 && e.relative_y == side(w) - 1
    } else if dir == "left"@ {
        e.chunk_x == 0 && e.relative_x == 0
    } else if dir == "right"@ {
        e.chunk_x == width(w) - 1 && e.relative_y == side(w) - 1
    } else {
        false
    }
}

/// A creature carried into a neighbouring chunk, and where to add it.
pub struct Wrap {
    pub e: EntityView,
    pub add: bool,
    pub cxa: int,
    pub cya: int,
    pub updated: bool,
}

pub open spec fn wrap_left(s: Wrap, cs: i32, cx: i32) -> Wrap {
    if s.e.relative_x < 0 {
        Wrap {
            e: EntityView { relative_x: (cs - 1) as i32, chunk_x: (cx - 1) as i32, ..s.e },
            add: true,
            cxa: cx - 1,
            updated: true,
            ..s
        }
    } else {
        s
    }
}

pub open spec fn wrap_up(s: Wrap, cs: i32, cy: i32) -> Wrap {
    if s.e.relative_y < 0 {
        Wrap {
            e: EntityView { relative_y: (cs - 1) as i32, chunk_y: (cy - 1) as i32, ..s.e },
            add: true,
            cya: cy - 1,
            updated: true,
            ..s
        }
    } else {
        s
    }
}

pub open spec fn wrap_right(s: Wrap, cs: i32, cx: i32) -> Wrap {
    if s.e.relative_x > cs - 1 {
        Wrap {
            e: EntityView { relative_x: 0, chunk_x: (cx + 1) as i32, ..s.e },
            add: true,
            cxa: cx + 1,
            updated: true,
            ..s
        }
    } else {
        s
    }
}

pub open spec fn wrap_down(s: Wrap, cs: i32, cy: i32) -> Wrap {
    if s.e.relative_y > cs - 1 {
        Wrap {
            e: EntityView { relative_y: 0, chunk_y: (cy + 1) as i32, ..s.e },
            add: true,
            cya: cy + 1,
            updated: true,
            ..s
        }
    } else {
        s
    }
}

/// A creature whose square left its chunk, carried into the neighbouring
/// chunk of the request's chunk (`cx`, `cy`): checked for the left, top,
/// right and bottom edges in that order.
pub open spec fn wrapped(e: EntityView, cs: i32, cx: i32, cy: i32) -> Wrap {
    let s0 = Wrap { e, add: false, cxa: cx as int, cya: cy as int, updated: false };
    wrap_down(wrap_right(wrap_up(wrap_left(s0, cs, cx), cs, cy), cs, cx), cs, cy)
}

/// Whether carrying the creature over stays within 32 bits.
pub open spec fn wrap_fits(e: EntityView, cs: i32, cx: i32, cy: i32) -> bool {
    let s1 = wrap_left(Wrap { e, add: false, cxa: cx as int, cya: cy as int, updated: false }, cs, cx);
    let s2 = wrap_up(s1, cs, cy);
    let s3 = wrap_right(s2, cs, cx);
    &&& cs > i32::MIN
    &&& e.relative_x < 0 ==> cx > i32::MIN
    &&& s1.e.relative_y < 0 ==> cy > i32::MIN
    &&& s2.e.relative_x > cs - 1 ==> cx < i32::MAX
    &&& s3.e.relative_y > cs - 1 ==> cy < i32::MAX
}

/// A creature after its meal: one food less if it has any, else its units
/// starve.
pub open spec fn ate(e: EntityView, starve: Map<u64, i32>) -> EntityView {
    if amount(e.resources, "food"@) > 0 {
        EntityView { resources: e.resources.insert("food"@, (e.resources["food"@] - 1) as i32), ..e }
    } else {
        damaged(e, "starve"@, starve)
    }
}

/// A creature after wading: on water it spends one wood on a raft if it has
/// any, else its units suffer the water.
pub open spec fn drank(e: EntityView, on_water: bool, water: Map<u64, i32>) -> EntityView {
    if !on_water {
        e
    } else if amount(e.resources, "wood"@) > 0 {
        EntityView { resources: e.resources.insert("wood"@, (e.resources["wood"@] - 1) as i32), ..e }
    } else {
        damaged(e, "water"@, water)
    }
}

/// The tiles of a chunk, row after row.
pub open spec fn flat(g: Seq<Seq<TileView>>) -> Seq<TileView>
    decreases g.len(),
{
    if g.len() == 0 {
        Seq::empty()
    } else {
        flat(g.drop_last()) + g.last()
    }
}

/// The rolls of a chunk's tiles, row after row.
pub open spec fn flat_rolls(g: Seq<Seq<i32>>) -> Seq<i32>
    decreases g.len(),
{
    if g.len() == 0 {
        Seq::empty()
    } else {
        flat_rolls(g.drop_last()) + g.last()
    }
}

/// Whether a tile lies at (`x`, `y`).
pub open spec fn lies_at(t: TileView, x: int, y: int) -> bool {
    t.x == x && t.y == y
}

/// The last of the tiles that lies at (`x`, `y`), if any.
pub open spec fn last_at(s: Seq<TileView>, x: int, y: int) -> Option<TileView>
    decreases s.len(),
{
    if s.len() == 0 {
        None
    } else if lies_at(s.last(), x, y) {
        Some(s.last())
    } else {
        last_at(s.drop_last(), x, y)
    }
}

/// Whether the tile a creature at (`x`, `y`) stands on is water: the last
/// tile of the chunk lying there, or, where none does, the default sand tile.
pub open spec fn on_water(g: Seq<Seq<TileView>>, x: int, y: int) -> bool {
    match last_at(flat(g), x, y) {
        Some(t) => t.tile_type == "water"@,
        None => false,
    }
}

/// The dead creatures lying at (`x`, `y`).
pub open spec fn corpses(m: Map<u64, EntityView>, x: int, y: int) -> Set<u64> {
    m.dom().filter(|k: u64| !m[k].alive && m[k].x == x && m[k].y == y)
}

/// The steps of a move up to the corpses: the step, the carry into a
/// neighbouring chunk, the meal and the wading.
pub open spec fn walked(
    e: EntityView,
    dir: Seq<char>,
    w: WorldProperties,
    cx: i32,
    cy: i32,
    g: Seq<Seq<TileView>>,
    starve: Map<u64, i32>,
    water: Map<u64, i32>,
) -> EntityView {
    let e2 = ate(wrapped(stepped(e, dir), side(w), cx, cy).e, starve);
    drank(e2, on_water(g, e2.x as int, e2.y as int), water)
}

// ---------------------------------------------------------------------------
// Attacking.
// ---------------------------------------------------------------------------

/// Whether `b` is within two squares of `a`.
pub open spec fn within_reach(a: EntityView, b: EntityView) -> bool {
    (a.x - b.x) * (a.x - b.x) + (a.y - b.y) * (a.y - b.y) <= 4
}

// ---------------------------------------------------------------------------
// Gathering.
// ---------------------------------------------------------------------------

/// Whether a tile is grass with trees.
pub open spec fn wooded(t: TileView) -> bool {
    t.tile_type == "grass"@ && t.has_trees
}

/// A tile after its trees are felled, if it lies at (`x`, `y`) and has any:
/// bare sand.
pub open spec fn felled(t: TileView, x: int, y: int) -> TileView {
    if lies_at(t, x, y) && wooded(t) {
        TileView { tile_type: "sand"@, has_trees: false, ..t }
    } else {
        t
    }
}

/// A tile after its food is gathered, if it lies at (`x`, `y`).
pub open spec fn picked(t: TileView, x: int, y: int) -> TileView {
    if lies_at(t, x, y) {
        TileView { gathered: true, ..t }
    } else {
        t
    }
}

/// How many of the tiles lying at (`x`, `y`) have trees.
pub open spec fn wooded_count(s: Seq<TileView>, x: int, y: int) -> int
    decreases s.len(),
{
    if s.len() == 0 {
        0
    } else {
        wooded_count(s.drop_last(), x, y) + if lies_at(s.last(), x, y) && wooded(s.last()) {
            1int
        } else {
            0int
        }
    }
}

/// The food the tiles lying at (`x`, `y`) and not gathered yet give: each
/// its roll.
pub open spec fn food_gain(s: Seq<TileView>, r: Seq<i32>, x: int, y: int) -> int
    decreases s.len(),
{
    if s.len() == 0 {
        0
    } else {
        food_gain(s.drop_last(), r.drop_last(), x, y) + if lies_at(s.last(), x, y)
            && !s.last().gathered {
            r.last() as int
        } else {
            0int
        }
    }
}

/// How many of the tiles lying at (`x`, `y`) are not gathered yet.
pub open spec fn unpicked_count(s: Seq<TileView>, x: int, y: int) -> int
    decreases s.len(),
{
    if s.len() == 0 {
        0
    } else {
        unpicked_count(s.drop_last(), x, y) + if lies_at(s.last(), x, y) && !s.last().gathered {
            1int
        } else {
            0int
        }
    }
}

/// The chunk's tiles after felling the trees at (`x`, `y`).
pub open spec fn felled_grid(g: Seq<Seq<TileView>>, x: int, y: int) -> Seq<Seq<TileView>> {
    g.map_values(|row: Seq<TileView>| row.map_values(|t: TileView| felled(t, x, y)))
}

/// The chunk's tiles after gathering the food at (`x`, `y`).
pub open spec fn picked_grid(g: Seq<Seq<TileView>>, x: int, y: int) -> Seq<Seq<TileView>> {
    g.map_values(|row: Seq<TileView>| row.map_values(|t: TileView| picked(t, x, y)))
}

/// What rows of tiles stand for.
pub open spec fn grid_view(rows: Seq<Vec<Tile>>) -> Seq<Seq<TileView>> {
    rows.map_values(|row: Vec<Tile>| row@.map_values(|t: Tile| t@))
}

/// What rows of rolls stand for.
pub open spec fn rolls_grid(rows: Seq<Vec<i32>>) -> Seq<Seq<i32>> {
    rows.map_values(|row: Vec<i32>| row@)
}

/// A creature after felling `n` trees: one wood each if it keeps wood, and
/// one food less each while it has food.
pub open spec fn lumbered(e: EntityView, n: int) -> EntityView {
    let r1 = add_amount(e.resources, "wood"@, n);
    let food = amount(e.resources, "food"@);
    let r2 = if food > 0 {
        r1.insert("food"@, (if food - n > 0 {
            food - n
        } else {
            0
        }) as i32)
    } else {
        r1
    };
    EntityView { resources: r2, ..e }
}


// ---------------------------------------------------------------------------
// The whole action.
// ---------------------------------------------------------------------------

/// What the server writes back after an action that went on.
pub struct AppliedView {
    /// The creatures of the request's chunk.
    pub entities: Map<u64, EntityView>,
    /// The tiles of the request's chunk.
    pub tiles: Seq<Seq<TileView>>,
    /// A creature to add to another chunk, and that chunk.
    pub moved: Option<(i32, i32, EntityView)>,
    /// A player's new chunk, by the player's name.
    pub client_move: Option<(Seq<char>, i32, i32)>,
}

/// What an action comes to: nothing written, or what is written back.
pub enum OutcomeView {
    Unchanged,
    Applied(AppliedView),
}

/// The end of every action that goes on: the acting creature dies if it has
/// no units left, is added to the chunk it was carried into if that chunk's
/// coordinates lie between 0 and the world's width and height, and the
/// creature `rid` leaves the request's chunk if `remove` is set.
pub open spec fn finished(
    m: Map<u64, EntityView>,
    g: Seq<Seq<TileView>>,
    id: u64,
    add: bool,
    cxa: int,
    cya: int,
    remove: bool,
    rid: u64,
    w: WorldProperties,
    client_move: Option<(Seq<char>, i32, i32)>,
) -> OutcomeView {
    let e = m[id];
    let e2 = if e.units.dom().len() == 0 {
        EntityView { alive: false, ..e }
    } else {
        e
    };
    let m2 = m.insert(id, e2);
    let moved = if add && 0 <= cxa <= width(w) && 0 <= cya <= height(w) {
        Some((cxa as i32, cya as i32, e2))
    } else {
        None
    };
    let m3 = if remove {
        m2.remove(rid)
    } else {
        m2
    };
    OutcomeView::Applied(AppliedView { entities: m3, tiles: g, moved, client_move })
}

/// What the random draws of an action stand for.
pub struct RollsView {
    pub spawn_units: Map<u64, UnitView>,
    pub starve: Map<u64, i32>,
    pub water: Map<u64, i32>,
    pub attack: Map<u64, i32>,
    pub food: Seq<Seq<i32>>,
}

/// A creature after a move, up to the corpses.
pub open spec fn mover(p: Map<Seq<char>, Seq<char>>, w: WorldProperties, m: Map<u64, EntityView>, g: Seq<Seq<TileView>>, r: RollsView) -> EntityView {
    let cx = int_param(p, "chunk_x"@);
    let cy = int_param(p, "chunk_y"@);
    let id = id_param(p, "id"@);
    walked(m[id], p["move_dir"@], w, cx, cy, g, r.starve, r.water)
}

/// What a "spawn" request comes to: the new player joins the chunk and the
/// player's record moves to the chunk.
pub open spec fn spawn_outcome(
    p: Map<Seq<char>, Seq<char>>,
    w: WorldProperties,
    m: Map<u64, EntityView>,
    g: Seq<Seq<TileView>>,
    r: RollsView,
) -> OutcomeView {
    let cx = int_param(p, "chunk_x"@);
    let cy = int_param(p, "chunk_y"@);
    let id = id_param(p, "id"@);
    let e = spawned(p, w, cx, cy, id, r.spawn_units);
    finished(
        m.insert(id, e),
        g,
        id,
        false,
        cx as int,
        cy as int,
        false,
        id,
        w,
        Some((p["name"@], cx, cy)),
    )
}

/// What a "move" request comes to: nothing for a creature that is not in the
/// chunk or would leave the world; else the creature steps, is carried into
/// a neighbouring chunk if it left its own, eats, wades, and eats the corpses
/// it finds (ten experience each), one of which, `pick`, leaves the chunk.
pub open spec fn move_outcome(
    p: Map<Seq<char>, Seq<char>>,
    w: WorldProperties,
    m: Map<u64, EntityView>,
    g: Seq<Seq<TileView>>,
    r: RollsView,
    pick: u64,
) -> OutcomeView {
    let cx = int_param(p, "chunk_x"@);
    let cy = int_param(p, "chunk_y"@);
    let id = id_param(p, "id"@);
    if !m.contains_key(id) || move_blocked(p["move_dir"@], m[id], w) {
        OutcomeView::Unchanged
    } else {
        let wr = wrapped(stepped(m[id], p["move_dir"@]), side(w), cx, cy);
        let e3 = mover(p, w, m, g, r);
        let c = corpses(m, e3.x as int, e3.y as int);
        let e4 = EntityView { experience: (e3.experience + 10 * c.len()) as i32, ..e3 };
        let rid = if c.len() > 0 {
            pick
        } else {
            id
        };
        let client_move = if wr.updated {
            Some((wr.e.name, wr.e.chunk_x, wr.e.chunk_y))
        } else {
            None
        };
        finished(
            m.insert(id, e4),
            g,
            id,
            wr.add,
            wr.cxa,
            wr.cya,
            wr.add || c.len() > 0,
            rid,
            w,
            client_move,
        )
    }
}

/// What an "attack" request comes to: nothing for an attacker that is not in
/// the chunk or a target out of reach; an "auto" attack on a target in the
/// chunk takes from each of its units a roll of its own band's weapon power.
pub open spec fn attack_outcome(
    p: Map<Seq<char>, Seq<char>>,
    w: WorldProperties,
    m: Map<u64, EntityView>,
    g: Seq<Seq<TileView>>,
    r: RollsView,
) -> OutcomeView {
    let cx = int_param(p, "chunk_x"@);
    let cy = int_param(p, "chunk_y"@);
    let id = id_param(p, "id"@);
    let tid = id_param(p, "target_id"@);
    if !m.contains_key(id) {
        OutcomeView::Unchanged
    } else if m.contains_key(tid) && !within_reach(m[id], m[tid]) {
        OutcomeView::Unchanged
    } else {
        let m1 = if m.contains_key(tid) && p["type"@] == "auto"@ {
            m.insert(tid, EntityView { units: after_rolls(m[tid].units, r.attack), ..m[tid] })
        } else {
            m
        };
        finished(m1, g, id, false, cx as int, cy as int, false, id, w, None)
    }
}

/// What a "gather_resource" request comes to: the trees where the creature
/// stands are felled, for wood.
pub open spec fn wood_outcome(
    p: Map<Seq<char>, Seq<char>>,
    w: WorldProperties,
    m: Map<u64, EntityView>,
    g: Seq<Seq<TileView>>,
) -> OutcomeView {
    let cx = int_param(p, "chunk_x"@);
    let cy = int_param(p, "chunk_y"@);
    let id = id_param(p, "id"@);
    let e = m[id];
    let n = wooded_count(flat(g), e.x as int, e.y as int);
    let g1 = felled_grid(g, e.x as int, e.y as int);
    finished(m.insert(id, lumbered(e, n)), g1, id, false, cx as int, cy as int, false, id, w, None)
}

/// What a "gather_food" request comes to: the food where the creature stands
/// is gathered, each tile not gathered before giving its roll.
pub open spec fn food_outcome(
    p: Map<Seq<char>, Seq<char>>,
    w: WorldProperties,
    m: Map<u64, EntityView>,
    g: Seq<Seq<TileView>>,
    r: RollsView,
) -> OutcomeView {
    let cx = int_param(p, "chunk_x"@);
    let cy = int_param(p, "chunk_y"@);
    let id = id_param(p, "id"@);
    let e = m[id];
    let gain = food_gain(flat(g), flat_rolls(r.food), e.x as int, e.y as int);
    let e1 = EntityView { resources: add_amount(e.resources, "food"@, gain), ..e };
    let g1 = picked_grid(g, e.x as int, e.y as int);
    finished(m.insert(id, e1), g1, id, false, cx as int, cy as int, false, id, w, None)
}

/// What an action comes to, on the creatures `m` and the tiles `g` of the
/// request's chunk, with the draws `r`; `pick` is the corpse a mover eats
/// where it finds several. An unknown command changes nothing but the
/// acting creature's death check.
pub open spec fn action_outcome(
    p: Map<Seq<char>, Seq<char>>,
    w: WorldProperties,
    m: Map<u64, EntityView>,
    g: Seq<Seq<TileView>>,
    r: RollsView,
    pick: u64,
) -> OutcomeView {
    let cmd = p["command"@];
    if cmd == "spawn"@ {
        spawn_outcome(p, w, m, g, r)
    } else if cmd == "move"@ {
        move_outcome(p, w, m, g, r, pick)
    } else if cmd == "attack"@ {
        attack_outcome(p, w, m, g, r)
    } else if cmd == "gather_resource"@ {
        wood_outcome(p, w, m, g)
    } else if cmd == "gather_food"@ {
        food_outcome(p, w, m, g, r)
    } else {
        let cx = int_param(p, "chunk_x"@);
        let cy = int_param(p, "chunk_y"@);
        finished(m, g, id_param(p, "id"@), false, cx as int, cy as int, false, id_param(p, "id"@), w, None)
    }
}

/// Whether the mover's corpse pick is one of the corpses, where there are
/// any.
pub open spec fn pick_ok(
    p: Map<Seq<char>, Seq<char>>,
    w: WorldProperties,
    m: Map<u64, EntityView>,
    g: Seq<Seq<TileView>>,
    r: RollsView,
    pick: u64,
) -> bool {
    let id = id_param(p, "id"@);
    (p["command"@] == "move"@ && m.contains_key(id) && !move_blocked(p["move_dir"@], m[id], w))
        ==> {
        let e3 = mover(p, w, m, g, r);
        let c = corpses(m, e3.x as int, e3.y as int);
        c.len() > 0 ==> c.contains(pick)
    }
}

/// Whether the request holds every parameter the server reads for it: the
/// chunk and id always, the square and name of a spawn, the direction of a
/// creature's move, the target of a creature's attack and, for a target
/// within reach, the attack's type and a special attack's ability; every
/// other command needs the acting creature in the chunk.
pub open spec fn action_defined(p: Map<Seq<char>, Seq<char>>, m: Map<u64, EntityView>) -> bool {
    let id = id_param(p, "id"@);
    let cmd = p["command"@];
    &&& has_int(p, "chunk_x"@)
    &&& has_int(p, "chunk_y"@)
    &&& has_id(p, "id"@)
    &&& p.contains_key("command"@)
    &&& if cmd == "spawn"@ {
        has_int(p, "x"@) && has_int(p, "y"@) && p.contains_key("name"@)
    } else if cmd == "move"@ {
        m.contains_key(id) ==> p.contains_key("move_dir"@)
    } else if cmd == "attack"@ {
        m.contains_key(id) ==> {
            let tid = id_param(p, "target_id"@);
            &&& has_id(p, "target_id"@)
            &&& (m.contains_key(tid) && within_reach(m[id], m[tid])) ==> {
                &&& p.contains_key("type"@)
                &&& p["type"@] == "special"@ ==> p.contains_key("ability"@)
            }
        }
    } else {
        m.contains_key(id)
    }
}

/// Whether the rolls cover what the action draws: a roll from 0..10 for
/// every unit of a mover against hunger and water, a roll from the weapon
/// power's range for every unit of an auto-attacked target, and, for a food
/// gathering, a roll from 1..4 for every tile.
pub open spec fn rolls_valid(p: Map<Seq<char>, Seq<char>>, m: Map<u64, EntityView>, g: Seq<Seq<TileView>>, r: RollsView) -> bool {
    let id = id_param(p, "id"@);
    let tid = id_param(p, "target_id"@);
    let cmd = p["command"@];
    &&& (cmd == "move"@ && m.contains_key(id)) ==> {
        &&& rolls_fit(m[id].units, r.starve, 0, 10)
        &&& rolls_fit(m[id].units, r.water, 0, 10)
    }
    &&& (cmd == "attack"@ && m.contains_key(id) && m.contains_key(tid) && within_reach(m[id], m[tid])
        && p["type"@] == "auto"@) ==> rolls_fit(
        m[tid].units,
        r.attack,
        weapon_power(m[tid].units),
        weapon_power(m[tid].units) + 5,
    )
    &&& cmd == "gather_food"@ ==> {
        &&& r.food.len() == g.len()
        &&& forall|i: int| 0 <= i < g.len() ==> (#[trigger] r.food[i]).len() == g[i].len()
        &&& forall|i: int, j: int|
            0 <= i < g.len() && 0 <= j < g[i].len() ==> 1 <= #[trigger] r.food[i][j] < 4
    }
}

/// Whether the action's arithmetic stays within 32 bits.
pub open spec fn action_fits(p: Map<Seq<char>, Seq<char>>, w: WorldProperties, m: Map<u64, EntityView>, g: Seq<Seq<TileView>>) -> bool {
    let cx = int_param(p, "chunk_x"@);
    let cy = int_param(p, "chunk_y"@);
    let id = id_param(p, "id"@);
    let cmd = p["command"@];
    if cmd == "spawn"@ {
        spawn_fits(p, w, cx, cy)
    } else if cmd == "move"@ {
        let dir = p["move_dir"@];
        m.contains_key(id) ==> {
            let e = m[id];
            &&& (dir == "down"@ ==> height(w) > i32::MIN && side(w) > i32::MIN)
            &&& (dir == "right"@ ==> width(w) > i32::MIN && side(w) > i32::MIN)
            &&& !move_blocked(dir, e, w) ==> {
                let e1 = stepped(e, dir);
                let e2 = wrapped(e1, side(w), cx, cy).e;
                &&& step_fits(e, dir)
                &&& wrap_fits(e1, side(w), cx, cy)
                &&& amount(e2.resources, "food"@) <= 0 ==> damage_fits(e2, "starve"@)
                &&& (amount(e2.resources, "food"@) > 0 && on_water(g, e2.x as int, e2.y as int)
                    && amount(e2.resources, "wood"@) <= 0) ==> damage_fits(e2, "water"@)
                &&& e.experience + 10 * corpses(m, e1.x as int, e1.y as int).len() <= i32::MAX
            }
        }
    } else if cmd == "attack"@ {
        let tid = id_param(p, "target_id"@);
        (m.contains_key(id) && m.contains_key(tid) && within_reach(m[id], m[tid]) && p["type"@]
            == "auto"@) ==> {
            &&& weapon_power(m[tid].units) + 5 <= i32::MAX
            &&& hp_room(m[tid].units, weapon_power(m[tid].units) + 5)
        }
    } else if cmd == "gather_resource"@ {
        let e = m[id];
        amount(e.resources, "wood"@) + wooded_count(flat(g), e.x as int, e.y as int) <= i32::MAX
    } else if cmd == "gather_food"@ {
        let e = m[id];
        &&& 3 * unpicked_count(flat(g), e.x as int, e.y as int) <= i32::MAX
        &&& amount(e.resources, "food"@) + 3 * unpicked_count(flat(g), e.x as int, e.y as int) <= i32::MAX
    } else {
        true
    }
}


// ---------------------------------------------------------------------------
// The steps, carried out.
// ---------------------------------------------------------------------------

fn amount_of(r: &StrMap<i32>, key: &str) -> (a: i32)
    ensures
        a as int == amount(r@, key@),
{
    match r.get(key) {
        Some(v) => *v,
        None => 0,
    }
}

fn int_of(action: &PostData, key: &str) -> (r: i32)
    requires
        has_int(action@, key@),
    ensures
        r == int_param(action@, key@),
{
    let v = action.get(key).unwrap();
    parse_i32(v.as_str()).unwrap()
}

fn id_of(action: &PostData, key: &str) -> (r: u64)
    requires
        has_id(action@, key@),
    ensures
        r == id_param(action@, key@),
{
    let v = action.get(key).unwrap();
    parse_u64(v.as_str()).unwrap()
}

fn spawn_entity(action: &PostData, w: &WorldProperties, cx: i32, cy: i32, id: u64, units: HashMap<u64, Unit>) -> (r: Entity)
    requires
        has_int(action@, "x"@),
        has_int(action@, "y"@),
        action@.contains_key("name"@),
        spawn_fits(action@, *w, cx, cy),
    ensures
        r@ == spawned(action@, *w, cx, cy, id, units_view(units@)),
{
    let ax = int_of(action, "x");
    let ay = int_of(action, "y");
    let cs = w.chunk_size as i32;
    let mut stats = CharacterStats::ogre();
    stats.abilities.insert(String::from_str("1"), String::from_str("LEVEL 2"));
    stats.abilities.insert(String::from_str("2"), String::from_str("LEVEL 3"));
    stats.abilities.insert(String::from_str("3"), String::from_str("LEVEL 4"));
    stats.abilities.insert(String::from_str("4"), String::from_str("LEVEL 5"));
    stats.abilities.insert(String::from_str("5"), String::from_str("LEVEL 6"));
    let mut resources = StrMap::new();
    resources.insert(String::from_str("wood"), 0i32);
    resources.insert(String::from_str("food"), 10i32);
    let name = action.get("name").unwrap().clone();
    let e = Entity {
        x: cs * cx + ax,
        y: cs * cy + ay,
        alive: true,
        relative_x: ax,
        relative_y: ay,
        experience: 0,
        level: 1,
        chunk_x: cx,
        chunk_y: cy,
        entity_type: String::from_str("ogre"),
        name,
        id,
        target_entity_id: 1,
        stats,
        units,
        resources,
        standing_tile: Tile::default(),
    };
    assert(e@.stats.abilities =~= spawned_stats().abilities);
    assert(e@.stats =~= spawned_stats());
    assert(e@.resources =~= spawned_resources());
    e
}

fn move_blocked_exec(dir: &str, e: &Entity, w: &WorldProperties) -> (r: bool)
    requires
        dir@ == "down"@ ==> height(*w) > i32::MIN && side(*w) > i32::MIN,
        dir@ == "right"@ ==> width(*w) > i32::MIN && side(*w) > i32::MIN,
    ensures
        r == move_blocked(dir@, e@, *w),
{
    if str_eq(dir, "up") {
        e.chunk_y == 0 && e.relative_y == 0
    } else if str_eq(dir, "down") {
        e.chunk_y == w.world_height as i32 - 1 && e.relative_y == w.chunk_size as i32 - 1
    } else if str_eq(dir, "left") {
        e.chunk_x == 0 && e.relative_x == 0
    } else if str_eq(dir, "right") {
        e.chunk_x == w.world_width as i32 - 1 && e.relative_y == w.chunk_size as i32 - 1
    } else {
        false
    }
}

fn wrap_exec(e: &mut Entity, cs: i32, cx: i32, cy: i32) -> (r: (bool, i32, i32, bool))
    requires
        wrap_fits(old(e)@, cs, cx, cy),
    ensures
        ({
            let wr = wrapped(old(e)@, cs, cx, cy);
            &&& final(e)@ == wr.e
            &&& r.0 == wr.add
            &&& r.1 as int == wr.cxa
            &&& r.2 as int == wr.cya
            &&& r.3 == wr.updated
        }),
{
    let mut add = false;
    let mut cxa = cx;
    let mut cya = cy;
    let mut updated = false;
    if e.relative_x < 0 {
        add = true;
        cxa = cx - 1;
        e.relative_x = cs - 1;
        e.chunk_x = cxa;
        updated = true;
    }
    if e.relative_y < 0 {
        add = true;
        cya = cy - 1;
        e.relative_y = cs - 1;
        e.chunk_y = cya;
        updated = true;
    }
    if e.relative_x > cs - 1 {
        add = true;
        cxa = cx + 1;
        e.relative_x = 0;
        e.chunk_x = cxa;
        updated = true;
    }
    if e.relative_y > cs - 1 {
        add = true;
        cya = cy + 1;
        e.relative_y = 0;
        e.chunk_y = cya;
        updated = true;
    }
    (add, cxa, cya, updated)
}

fn eat_exec(e: &mut Entity, starve: &HashMap<u64, i32>)
    requires
        rolls_fit(old(e)@.units, starve@, 0, 10),
        amount(old(e)@.resources, "food"@) <= 0 ==> damage_fits(old(e)@, "starve"@),
    ensures
        final(e)@ == ate(old(e)@, starve@),
{
    let food = amount_of(&e.resources, "food");
    if food > 0 {
        e.resources.insert(String::from_str("food"), food - 1);
    } else {
        proof {
            lemma_hunger_and_water_bounds();
        }
        e.damage_with_rolls("starve", starve);
    }
}

fn drink_exec(e: &mut Entity, on_water: bool, water: &HashMap<u64, i32>)
    requires
        rolls_fit(old(e)@.units, water@, 0, 10),
        (on_water && amount(old(e)@.resources, "wood"@) <= 0) ==> damage_fits(old(e)@, "water"@),
    ensures
        final(e)@ == drank(old(e)@, on_water, water@),
{
    if !on_water {
        return;
    }
    let wood = amount_of(&e.resources, "wood");
    if wood > 0 {
        e.resources.insert(String::from_str("wood"), wood - 1);
    } else {
        proof {
            lemma_hunger_and_water_bounds();
        }
        e.damage_with_rolls("water", water);
    }
}


/// Whether a tile, if any, is water.
pub open spec fn water_of(t: Option<TileView>) -> bool {
    match t {
        Some(t) => t.tile_type == "water"@,
        None => false,
    }
}

proof fn lemma_flat_step(g: Seq<Seq<TileView>>, r: int)
    requires
        0 <= r < g.len(),
    ensures
        flat(g.take(r + 1)) == flat(g.take(r)) + g[r],
{
    assert(g.take(r + 1).drop_last() =~= g.take(r));
}

proof fn lemma_flat_rolls_step(g: Seq<Seq<i32>>, r: int)
    requires
        0 <= r < g.len(),
    ensures
        flat_rolls(g.take(r + 1)) == flat_rolls(g.take(r)) + g[r],
{
    assert(g.take(r + 1).drop_last() =~= g.take(r));
}

fn on_water_exec(rows: &Vec<Vec<Tile>>, x: i32, y: i32) -> (r: bool)
    ensures
        r == on_water(grid_view(rows@), x as int, y as int),
{
    let ghost g = grid_view(rows@);
    let mut found = false;
    let mut i: usize = 0;
    assert(flat(g.take(0)) =~= Seq::<TileView>::empty());
    while i < rows.len()
        invariant
            g == grid_view(rows@),
            0 <= i <= rows@.len(),
            found == water_of(last_at(flat(g.take(i as int)), x as int, y as int)),
        decreases rows@.len() - i,
    {
        let row = &rows[i];
        assert(g[i as int] == row@.map_values(|t: Tile| t@));
        let mut j: usize = 0;
        assert(flat(g.take(i as int)) + g[i as int].take(0) =~= flat(g.take(i as int)));
        while j < row.len()
            invariant
                g == grid_view(rows@),
                0 <= i < rows@.len(),
                *row == rows@[i as int],
                g[i as int] == row@.map_values(|t: Tile| t@),
                0 <= j <= row@.len(),
                found == water_of(last_at(flat(g.take(i as int)) + g[i as int].take(j as int), x as int, y as int)),
            decreases row@.len() - j,
        {
            let t = &row[j];
            if t.x == x && t.y == y {
                found = str_eq(t.tile_type.as_str(), "water");
            }
            proof {
                let s0 = flat(g.take(i as int)) + g[i as int].take(j as int);
                let s1 = flat(g.take(i as int)) + g[i as int].take(j + 1);
                assert(s1 =~= s0.push(t@));
                assert(s1.drop_last() =~= s0);
            }
            j = j + 1;
        }
        proof {
            assert(g[i as int].take(row@.len() as int) =~= g[i as int]);
            lemma_flat_step(g, i as int);
        }
        i = i + 1;
    }
    assert(g.take(rows@.len() as int) =~= g);
    found
}

/// Counts the dead creatures lying at (`x`, `y`) and names one of them.
fn corpses_exec(m: &HashMap<u64, Entity>, x: i32, y: i32) -> (r: (usize, u64))
    ensures
        r.0 == corpses(crate::entities::entities_view(m@), x as int, y as int).len(),
        r.0 > 0 ==> corpses(crate::entities::entities_view(m@), x as int, y as int).contains(r.1),
{
    let ghost mv = crate::entities::entities_view(m@);
    let ghost c = corpses(mv, x as int, y as int);
    let keys = crate::ids::id_keys(m);
    let ghost mut found: Set<u64> = Set::empty();
    let mut count: usize = 0;
    let mut pick: u64 = 0;
    let mut i: usize = 0;
    while i < keys.len()
        invariant
            mv == crate::entities::entities_view(m@),
            c == corpses(mv, x as int, y as int),
            keys@.no_duplicates(),
            keys@.to_set() == m@.dom(),
            0 <= i <= keys@.len(),
            found.finite(),
            count == found.len(),
            count <= i,
            forall|k: u64| #[trigger] found.contains(k) <==> (keys@.take(i as int).contains(k) && c.contains(k)),
            count > 0 ==> c.contains(pick),
        decreases keys@.len() - i,
    {
        let k = keys[i];
        assert(keys@.to_set().contains(k));
        let e = m.get(&k).unwrap();
        assert(mv[k] == e@);
        proof {
            assert(keys@.take(i + 1) =~= keys@.take(i as int).push(k));
            assert(!keys@.take(i as int).contains(k)) by {
                let t0 = keys@.take(i as int);
                if t0.contains(k) {
                    let j = choose|j: int| 0 <= j < t0.len() && #[trigger] t0[j] == k;
                    assert(keys@[j] == keys@[i as int]);
                }
            }
        }
        let ghost found0 = found;
        let is_corpse = !e.alive && e.x == x && e.y == y;
        assert(is_corpse == c.contains(k));
        if is_corpse {
            proof {
                assert(c.contains(k));
                assert(!found.contains(k));
                found = found.insert(k);
            }
            count = count + 1;
            pick = k;
        }
        proof {
            assert forall|k2: u64| #[trigger] found.contains(k2) <==> (keys@.take(i + 1).contains(k2) && c.contains(k2)) by {
                let t1 = keys@.take(i + 1);
                let t0 = keys@.take(i as int);
                assert(t1[i as int] == k);
                assert(found0.contains(k2) <==> (t0.contains(k2) && c.contains(k2)));
                if t1.contains(k2) && k2 != k {
                    let j = choose|j: int| 0 <= j < t1.len() && #[trigger] t1[j] == k2;
                    assert(j < i);
                    assert(t0[j] == k2);
                }
                if t0.contains(k2) {
                    let j = choose|j: int| 0 <= j < t0.len() && #[trigger] t0[j] == k2;
                    assert(t1[j] == k2);
                }
            }
        }
        i = i + 1;
    }
    proof {
        assert(keys@.take(keys@.len() as int) =~= keys@);
        assert(found =~= c) by {
            assert forall|k: u64| found.contains(k) <==> c.contains(k) by {
                if c.contains(k) {
                    assert(m@.dom().contains(k));
                    assert(keys@.to_set().contains(k));
                }
            }
        }
    }
    (count, pick)
}


fn fell_exec(rows: &Vec<Vec<Tile>>, x: i32, y: i32) -> (r: (Vec<Vec<Tile>>, u128))
    ensures
        grid_view(r.0@) == felled_grid(grid_view(rows@), x as int, y as int),
        r.1 as int == wooded_count(flat(grid_view(rows@)), x as int, y as int),
{
    let ghost g = grid_view(rows@);
    let mut out: Vec<Vec<Tile>> = Vec::new();
    let mut count: u128 = 0;
    let mut i: usize = 0;
    assert(flat(g.take(0)) =~= Seq::<TileView>::empty());
    while i < rows.len()
        invariant
            g == grid_view(rows@),
            0 <= i <= rows@.len(),
            out@.len() == i,
            forall|a: int| 0 <= a < i ==> (#[trigger] grid_view(out@)[a]) == felled_grid(g, x as int, y as int)[a],
            count as int == wooded_count(flat(g.take(i as int)), x as int, y as int),
            count <= i as int * 0x1_0000_0000_0000_0000,
        decreases rows@.len() - i,
    {
        let row = &rows[i];
        assert(g[i as int] == row@.map_values(|t: Tile| t@));
        let mut new_row: Vec<Tile> = Vec::new();
        let mut j: usize = 0;
        assert(flat(g.take(i as int)) + g[i as int].take(0) =~= flat(g.take(i as int)));
        while j < row.len()
            invariant
                g == grid_view(rows@),
                0 <= i < rows@.len(),
                *row == rows@[i as int],
                g[i as int] == row@.map_values(|t: Tile| t@),
                0 <= j <= row@.len(),
                new_row@.len() == j,
                forall|b: int| 0 <= b < j ==> (#[trigger] new_row@[b])@ == felled(g[i as int][b], x as int, y as int),
                count as int == wooded_count(flat(g.take(i as int)) + g[i as int].take(j as int), x as int, y as int),
                count <= i as int * 0x1_0000_0000_0000_0000 + j,
            decreases row@.len() - j,
        {
            let t = &row[j];
            let mut t2 = t.clone();
            if t.x == x && t.y == y && str_eq(t.tile_type.as_str(), "grass") && t.has_trees {
                t2.tile_type = String::from_str("sand");
                t2.has_trees = false;
                count = count + 1;
            }
            new_row.push(t2);
            proof {
                let s0 = flat(g.take(i as int)) + g[i as int].take(j as int);
                let s1 = flat(g.take(i as int)) + g[i as int].take(j + 1);
                assert(s1 =~= s0.push(t@));
                assert(s1.drop_last() =~= s0);
                assert(g[i as int][j as int] == t@);
            }
            j = j + 1;
        }
        proof {
            assert(g[i as int].take(row@.len() as int) =~= g[i as int]);
            lemma_flat_step(g, i as int);
            assert(new_row@.map_values(|t: Tile| t@) =~= felled_grid(g, x as int, y as int)[i as int]);
        }
        let ghost out0 = out@;
        let ghost nr = new_row@;
        out.push(new_row);
        proof {
            assert forall|a: int| 0 <= a < i + 1 implies (#[trigger] grid_view(out@)[a]) == felled_grid(g, x as int, y as int)[a] by {
                assert(grid_view(out@)[a] == out@[a]@.map_values(|t: Tile| t@));
                if a < i {
                    assert(out@[a] == out0[a]);
                    assert(grid_view(out0)[a] == out0[a]@.map_values(|t: Tile| t@));
                } else {
                    assert(out@[a]@ == nr);
                }
            }
        }
        i = i + 1;
    }
    assert(g.take(rows@.len() as int) =~= g);
    assert(grid_view(out@) =~= felled_grid(g, x as int, y as int));
    (out, count)
}

proof fn lemma_unpicked_add(s1: Seq<TileView>, s2: Seq<TileView>, x: int, y: int)
    ensures
        unpicked_count(s1 + s2, x, y) == unpicked_count(s1, x, y) + unpicked_count(s2, x, y),
    decreases s2.len(),
{
    if s2.len() == 0 {
        assert(s1 + s2 =~= s1);
    } else {
        assert((s1 + s2).drop_last() =~= s1 + s2.drop_last());
        lemma_unpicked_add(s1, s2.drop_last(), x, y);
    }
}

proof fn lemma_unpicked_nonneg(s: Seq<TileView>, x: int, y: int)
    ensures
        unpicked_count(s, x, y) >= 0,
    decreases s.len(),
{
    if s.len() > 0 {
        lemma_unpicked_nonneg(s.drop_last(), x, y);
    }
}

proof fn lemma_unpicked_rows(g: Seq<Seq<TileView>>, k: int, x: int, y: int)
    requires
        0 <= k <= g.len(),
    ensures
        unpicked_count(flat(g.take(k)), x, y) <= unpicked_count(flat(g), x, y),
    decreases g.len() - k,
{
    if k < g.len() {
        lemma_unpicked_rows(g, k + 1, x, y);
        lemma_flat_step(g, k);
        lemma_unpicked_add(flat(g.take(k)), g[k], x, y);
        lemma_unpicked_nonneg(g[k], x, y);
    } else {
        assert(g.take(k) =~= g);
    }
}

proof fn lemma_unpicked_prefix(g: Seq<Seq<TileView>>, i: int, j: int, x: int, y: int)
    requires
        0 <= i < g.len(),
        0 <= j <= g[i].len(),
    ensures
        unpicked_count(flat(g.take(i)) + g[i].take(j), x, y) <= unpicked_count(flat(g), x, y),
{
    lemma_unpicked_rows(g, i + 1, x, y);
    lemma_flat_step(g, i);
    lemma_unpicked_add(flat(g.take(i)), g[i].take(j), x, y);
    lemma_unpicked_add(flat(g.take(i)), g[i], x, y);
    assert(g[i] =~= g[i].take(j) + g[i].skip(j));
    lemma_unpicked_add(g[i].take(j), g[i].skip(j), x, y);
    lemma_unpicked_nonneg(g[i].skip(j), x, y);
}

fn pick_exec(rows: &Vec<Vec<Tile>>, x: i32, y: i32, rolls: &Vec<Vec<i32>>) -> (r: (Vec<Vec<Tile>>, u128))
    requires
        rolls@.len() == rows@.len(),
        forall|i: int| 0 <= i < rows@.len() ==> (#[trigger] rolls@[i])@.len() == rows@[i]@.len(),
        forall|i: int, j: int|
            0 <= i < rows@.len() && 0 <= j < rows@[i]@.len() ==> 1 <= #[trigger] rolls@[i]@[j] < 4,
        3 * unpicked_count(flat(grid_view(rows@)), x as int, y as int) <= i32::MAX,
    ensures
        grid_view(r.0@) == picked_grid(grid_view(rows@), x as int, y as int),
        r.1 as int == food_gain(flat(grid_view(rows@)), flat_rolls(rolls_grid(rolls@)), x as int, y as int),
        r.1 as int <= 3 * unpicked_count(flat(grid_view(rows@)), x as int, y as int),
{
    let ghost g = grid_view(rows@);
    let ghost rg = rolls_grid(rolls@);
    let mut out: Vec<Vec<Tile>> = Vec::new();
    let mut gain: u128 = 0;
    let mut i: usize = 0;
    assert(flat(g.take(0)) =~= Seq::<TileView>::empty());
    assert(flat_rolls(rg.take(0)) =~= Seq::<i32>::empty());
    while i < rows.len()
        invariant
            g == grid_view(rows@),
            rg == rolls_grid(rolls@),
            rolls@.len() == rows@.len(),
            forall|a: int| 0 <= a < rows@.len() ==> (#[trigger] rolls@[a])@.len() == rows@[a]@.len(),
            forall|a: int, b: int|
                0 <= a < rows@.len() && 0 <= b < rows@[a]@.len() ==> 1 <= #[trigger] rolls@[a]@[b] < 4,
            0 <= i <= rows@.len(),
            out@.len() == i,
            forall|a: int| 0 <= a < i ==> (#[trigger] grid_view(out@)[a]) == picked_grid(g, x as int, y as int)[a],
            flat(g.take(i as int)).len() == flat_rolls(rg.take(i as int)).len(),
            gain as int == food_gain(flat(g.take(i as int)), flat_rolls(rg.take(i as int)), x as int, y as int),
            gain as int <= 3 * unpicked_count(flat(g.take(i as int)), x as int, y as int),
            3 * unpicked_count(flat(g), x as int, y as int) <= i32::MAX,
        decreases rows@.len() - i,
    {
        let row = &rows[i];
        let rrow = &rolls[i];
        assert(g[i as int] == row@.map_values(|t: Tile| t@));
        assert(rg[i as int] == rrow@);
        let mut new_row: Vec<Tile> = Vec::new();
        let mut j: usize = 0;
        assert(flat(g.take(i as int)) + g[i as int].take(0) =~= flat(g.take(i as int)));
        assert(flat_rolls(rg.take(i as int)) + rg[i as int].take(0) =~= flat_rolls(rg.take(i as int)));
        while j < row.len()
            invariant
                g == grid_view(rows@),
                rg == rolls_grid(rolls@),
                0 <= i < rows@.len(),
                *row == rows@[i as int],
                *rrow == rolls@[i as int],
                rrow@.len() == row@.len(),
                forall|b: int| 0 <= b < row@.len() ==> 1 <= #[trigger] rrow@[b] < 4,
                g[i as int] == row@.map_values(|t: Tile| t@),
                rg[i as int] == rrow@,
                0 <= j <= row@.len(),
                new_row@.len() == j,
                forall|b: int| 0 <= b < j ==> (#[trigger] new_row@[b])@ == picked(g[i as int][b], x as int, y as int),
                (flat(g.take(i as int)) + g[i as int].take(j as int)).len() == (flat_rolls(rg.take(i as int)) + rg[i as int].take(j as int)).len(),
                gain as int == food_gain(flat(g.take(i as int)) + g[i as int].take(j as int), flat_rolls(rg.take(i as int)) + rg[i as int].take(j as int), x as int, y as int),
                gain as int <= 3 * unpicked_count(flat(g.take(i as int)) + g[i as int].take(j as int), x as int, y as int),
                3 * unpicked_count(flat(g), x as int, y as int) <= i32::MAX,
            decreases row@.len() - j,
        {
            let t = &row[j];
            let mut t2 = t.clone();
            let roll = rrow[j];
            proof {
                let s0 = flat(g.take(i as int)) + g[i as int].take(j as int);
                let s1 = flat(g.take(i as int)) + g[i as int].take(j + 1);
                assert(s1 =~= s0.push(t@));
                assert(s1.drop_last() =~= s0);
                lemma_unpicked_prefix(g, i as int, j + 1, x as int, y as int);
            }
            if t.x == x && t.y == y {
                if !t.gathered {
                    gain = gain + roll as u128;
                }
                t2.gathered = true;
            }
            new_row.push(t2);
            proof {
                let s0 = flat(g.take(i as int)) + g[i as int].take(j as int);
                let s1 = flat(g.take(i as int)) + g[i as int].take(j + 1);
                let q0 = flat_rolls(rg.take(i as int)) + rg[i as int].take(j as int);
                let q1 = flat_rolls(rg.take(i as int)) + rg[i as int].take(j + 1);
                assert(s1 =~= s0.push(t@));
                assert(s1.drop_last() =~= s0);
                assert(q1 =~= q0.push(roll));
                assert(q1.drop_last() =~= q0);
                assert(g[i as int][j as int] == t@);
            }
            j = j + 1;
        }
        proof {
            assert(g[i as int].take(row@.len() as int) =~= g[i as int]);
            assert(rg[i as int].take(row@.len() as int) =~= rg[i as int]);
            lemma_flat_step(g, i as int);
            lemma_flat_rolls_step(rg, i as int);
            assert(new_row@.map_values(|t: Tile| t@) =~= picked_grid(g, x as int, y as int)[i as int]);
        }
        let ghost out0 = out@;
        let ghost nr = new_row@;
        out.push(new_row);
        proof {
            assert forall|a: int| 0 <= a < i + 1 implies (#[trigger] grid_view(out@)[a]) == picked_grid(g, x as int, y as int)[a] by {
                assert(grid_view(out@)[a] == out@[a]@.map_values(|t: Tile| t@));
                if a < i {
                    assert(out@[a] == out0[a]);
                    assert(grid_view(out0)[a] == out0[a]@.map_values(|t: Tile| t@));
                } else {
                    assert(out@[a]@ == nr);
                }
            }
        }
        i = i + 1;
    }
    assert(g.take(rows@.len() as int) =~= g);
    assert(rg.take(rows@.len() as int) =~= rg);
    assert(grid_view(out@) =~= picked_grid(g, x as int, y as int));
    (out, gain)
}


// ---------------------------------------------------------------------------
// What an action draws and what it writes back.
// ---------------------------------------------------------------------------

/// The random draws of an action: the band of a spawned player, the rolls
/// against a mover's units for hunger and water, the rolls of an auto
/// attack against the target's units, and a food roll per tile.
pub struct ActionRolls {
    pub spawn_units: HashMap<u64, Unit>,
    pub starve: HashMap<u64, i32>,
    pub water: HashMap<u64, i32>,
    pub attack: HashMap<u64, i32>,
    pub food: Vec<Vec<i32>>,
}

impl View for ActionRolls {
    type V = RollsView;

    open spec fn view(&self) -> RollsView {
        RollsView {
            spawn_units: units_view(self.spawn_units@),
            starve: self.starve@,
            water: self.water@,
            attack: self.attack@,
            food: rolls_grid(self.food@),
        }
    }
}

/// What the server writes back after an action that went on: the creatures
/// and tiles of the request's chunk, a creature to add to another chunk with
/// that chunk's coordinates, and a player's new chunk by the player's name.
pub struct Applied {
    pub entities: HashMap<u64, Entity>,
    pub tiles: Vec<Vec<Tile>>,
    pub moved: Option<(i32, i32, Entity)>,
    pub client_move: Option<(String, i32, i32)>,
}

/// What a player's chunk change stands for.
pub open spec fn client_move_view(c: Option<(String, i32, i32)>) -> Option<(Seq<char>, i32, i32)> {
    match c {
        Some(t) => Some((t.0@, t.1, t.2)),
        None => None,
    }
}

/// What a creature to add to another chunk stands for.
pub open spec fn moved_view(c: Option<(i32, i32, Entity)>) -> Option<(i32, i32, EntityView)> {
    match c {
        Some(t) => Some((t.0, t.1, t.2@)),
        None => None,
    }
}

impl View for Applied {
    type V = AppliedView;

    open spec fn view(&self) -> AppliedView {
        AppliedView {
            entities: crate::entities::entities_view(self.entities@),
            tiles: grid_view(self.tiles@),
            moved: moved_view(self.moved),
            client_move: client_move_view(self.client_move),
        }
    }
}

/// What an action came to: nothing to write, or what to write back.
pub enum ActionOutcome {
    Unchanged,
    Applied(Applied),
}

impl View for ActionOutcome {
    type V = OutcomeView;

    open spec fn view(&self) -> OutcomeView {
        match self {
            ActionOutcome::Unchanged => OutcomeView::Unchanged,
            ActionOutcome::Applied(a) => OutcomeView::Applied(a@),
        }
    }
}

fn finish(
    m: HashMap<u64, Entity>,
    g: Vec<Vec<Tile>>,
    id: u64,
    add: bool,
    cxa: i32,
    cya: i32,
    remove: bool,
    rid: u64,
    w: &WorldProperties,
    client_move: Option<(String, i32, i32)>,
) -> (r: ActionOutcome)
    requires
        m@.contains_key(id),
    ensures
        r@ == finished(
            crate::entities::entities_view(m@),
            grid_view(g@),
            id,
            add,
            cxa as int,
            cya as int,
            remove,
            rid,
            *w,
            client_move_view(client_move),
        ),
{
    let ghost mv = crate::entities::entities_view(m@);
    let mut m = m;
    let mut e = m.remove(&id).unwrap();
    assert(e@ == mv[id]);
    assert(units_view(e.units@).dom() =~= e.units@.dom());
    if e.units.len() == 0 {
        e.alive = false;
    }
    let moved = if add && 0 <= cxa && cxa <= w.world_width as i32 && 0 <= cya && cya
        <= w.world_height as i32 {
        Some((cxa, cya, e.clone()))
    } else {
        None
    };
    let ghost ev = e@;
    m.insert(id, e);
    let ghost m2 = crate::entities::entities_view(m@);
    assert(m2 =~= mv.insert(id, ev));
    if remove {
        m.remove(&rid);
        assert(crate::entities::entities_view(m@) =~= m2.remove(rid));
    }
    ActionOutcome::Applied(Applied { entities: m, tiles: g, moved, client_move })
}


// ---------------------------------------------------------------------------
// The commands, carried out.
// ---------------------------------------------------------------------------

/// Units that survived a roll from 0..10 are left with no fewer than zero
/// hit points, so a second roll below `hi` stays within 32 bits for `hi` up
/// to 2^31.
proof fn lemma_survivors_have_room(units: Map<u64, UnitView>, rolls: Map<u64, i32>, hi: int)
    requires
        rolls_fit(units, rolls, 0, 10),
        hi <= 0x8000_0000,
    ensures
        hp_room(after_rolls(units, rolls), hi),
{
    let after = after_rolls(units, rolls);
    assert forall|k: u64| #[trigger] after.contains_key(k) implies after[k].hp - (hi - 1)
        >= i32::MIN by {
        assert(units.contains_key(k) && survives(units[k], rolls[k]));
        assert(after[k] == hurt(units[k], rolls[k]));
    }
}

/// Rolls that cover a band cover what is left of it after a roll.
proof fn lemma_rolls_fit_after(
    units: Map<u64, UnitView>,
    first: Map<u64, i32>,
    rolls: Map<u64, i32>,
    lo: int,
    hi: int,
)
    requires
        rolls_fit(units, rolls, lo, hi),
    ensures
        rolls_fit(after_rolls(units, first), rolls, lo, hi),
{
    let after = after_rolls(units, first);
    assert forall|k: u64| #[trigger] after.contains_key(k) implies rolls.contains_key(k) && lo
        <= rolls[k] < hi by {
        assert(units.contains_key(k));
    }
}

/// The two resource words differ.
pub proof fn lemma_resources_distinct()
    ensures
        "food"@ != "wood"@,
{
    reveal_strlit("food");
    reveal_strlit("wood");
    assert(("food"@)[0] == 'f' && ("wood"@)[0] == 'w');
}

/// The five command words differ from each other.
pub proof fn lemma_commands_distinct()
    ensures
        "spawn"@ != "move"@,
        "spawn"@ != "attack"@,
        "spawn"@ != "gather_resource"@,
        "spawn"@ != "gather_food"@,
        "move"@ != "attack"@,
        "move"@ != "gather_resource"@,
        "move"@ != "gather_food"@,
        "attack"@ != "gather_resource"@,
        "attack"@ != "gather_food"@,
        "gather_resource"@ != "gather_food"@,
{
    reveal_strlit("spawn");
    reveal_strlit("move");
    reveal_strlit("attack");
    reveal_strlit("gather_resource");
    reveal_strlit("gather_food");
    assert(("spawn"@).len() == 5 && ("move"@).len() == 4 && ("attack"@).len() == 6);
    assert(("gather_resource"@).len() == 15 && ("gather_food"@).len() == 11);
}

fn spawn_action(
    action: &PostData,
    w: &WorldProperties,
    m: HashMap<u64, Entity>,
    g: Vec<Vec<Tile>>,
    rolls: &ActionRolls,
) -> (r: ActionOutcome)
    requires
        action@["command"@] == "spawn"@,
        action_defined(action@, crate::entities::entities_view(m@)),
        action_fits(action@, *w, crate::entities::entities_view(m@), grid_view(g@)),
    ensures
        r@ == spawn_outcome(action@, *w, crate::entities::entities_view(m@), grid_view(g@), rolls@),
{
    let ghost mv = crate::entities::entities_view(m@);
    proof {
        lemma_commands_distinct();
    }
    let cx = int_of(action, "chunk_x");
    let cy = int_of(action, "chunk_y");
    let id = id_of(action, "id");
    let e = spawn_entity(action, w, cx, cy, id, rolls.spawn_units.clone());
    let client_move = Some((e.name.clone(), cx, cy));
    let ghost ev = e@;
    let mut m = m;
    m.insert(id, e);
    assert(crate::entities::entities_view(m@) =~= mv.insert(id, ev));
    finish(m, g, id, false, cx, cy, false, id, w, client_move)
}

fn within_reach_exec(a: &Entity, b: &Entity) -> (r: bool)
    ensures
        r == within_reach(a@, b@),
{
    let dx: i128 = a.x as i128 - b.x as i128;
    let dy: i128 = a.y as i128 - b.y as i128;
    assert(0 <= dx * dx <= 0x1_0000_0000_0000_0000) by (nonlinear_arith)
        requires
            -0x1_0000_0000 <= dx <= 0x1_0000_0000,
    ;
    assert(0 <= dy * dy <= 0x1_0000_0000_0000_0000) by (nonlinear_arith)
        requires
            -0x1_0000_0000 <= dy <= 0x1_0000_0000,
    ;
    dx * dx + dy * dy <= 4
}

fn move_action(
    action: &PostData,
    w: &WorldProperties,
    m: HashMap<u64, Entity>,
    g: Vec<Vec<Tile>>,
    rolls: &ActionRolls,
) -> (r: ActionOutcome)
    requires
        action@["command"@] == "move"@,
        action_defined(action@, crate::entities::entities_view(m@)),
        action_fits(action@, *w, crate::entities::entities_view(m@), grid_view(g@)),
        rolls_valid(action@, crate::entities::entities_view(m@), grid_view(g@), rolls@),
    ensures
        exists|pick: u64|
            {
                &&& pick_ok(
                    action@,
                    *w,
                    crate::entities::entities_view(m@),
                    grid_view(g@),
                    rolls@,
                    pick,
                )
                &&& r@ == move_outcome(
                    action@,
                    *w,
                    crate::entities::entities_view(m@),
                    grid_view(g@),
                    rolls@,
                    pick,
                )
            },
{
    let ghost mv = crate::entities::entities_view(m@);
    let ghost gv = grid_view(g@);
    proof {
        lemma_commands_distinct();
    }
    let cx = int_of(action, "chunk_x");
    let cy = int_of(action, "chunk_y");
    let id = id_of(action, "id");
    if !m.contains_key(&id) {
        assert(pick_ok(action@, *w, mv, gv, rolls@, 0));
        return ActionOutcome::Unchanged;
    }
    assert(mv.contains_key(id));
    let dir = action.get("move_dir").unwrap();
    let cur = m.get(&id).unwrap();
    assert(cur@ == mv[id]);
    if move_blocked_exec(dir.as_str(), cur, w) {
        assert(pick_ok(action@, *w, mv, gv, rolls@, 0));
        return ActionOutcome::Unchanged;
    }
    let mut e = cur.clone();
    e.move_dir(dir.clone());
    let ghost e1 = e@;
    let (add, cxa, cya, updated) = wrap_exec(&mut e, w.chunk_size as i32, cx, cy);
    let ghost e2 = e@;
    let client_move = if updated {
        Some((e.name.clone(), e.chunk_x, e.chunk_y))
    } else {
        None
    };
    eat_exec(&mut e, &rolls.starve);
    let ghost e2b = e@;
    let water = on_water_exec(&g, e.x, e.y);
    proof {
        lemma_hunger_and_water_bounds();
        lemma_resources_distinct();
        if amount(e2.resources, "food"@) <= 0 {
            lemma_survivors_have_room(e2.units, rolls.starve@, 10);
            lemma_rolls_fit_after(e2.units, rolls.starve@, rolls.water@, 0, 10);
        }
    }
    drink_exec(&mut e, water, &rolls.water);
    let ghost e3 = e@;
    assert(e3 == mover(action@, *w, mv, gv, rolls@));
    let (count, pick) = corpses_exec(&m, e.x, e.y);
    let total: i128 = e.experience as i128 + 10 * (count as i128);
    e.experience = total as i32;
    let remove = add || count > 0;
    let rid = if count > 0 {
        pick
    } else {
        id
    };
    let ghost e4 = e@;
    let mut m = m;
    m.insert(id, e);
    assert(crate::entities::entities_view(m@) =~= mv.insert(id, e4));
    let r = finish(m, g, id, add, cxa, cya, remove, rid, w, client_move);
    assert(pick_ok(action@, *w, mv, gv, rolls@, pick));
    assert(r@ == move_outcome(action@, *w, mv, gv, rolls@, pick));
    r
}

fn attack_action(
    action: &PostData,
    w: &WorldProperties,
    m: HashMap<u64, Entity>,
    g: Vec<Vec<Tile>>,
    rolls: &ActionRolls,
) -> (r: ActionOutcome)
    requires
        action@["command"@] == "attack"@,
        action_defined(action@, crate::entities::entities_view(m@)),
        action_fits(action@, *w, crate::entities::entities_view(m@), grid_view(g@)),
        rolls_valid(action@, crate::entities::entities_view(m@), grid_view(g@), rolls@),
    ensures
        r@ == attack_outcome(action@, *w, crate::entities::entities_view(m@), grid_view(g@), rolls@),
{
    let ghost mv = crate::entities::entities_view(m@);
    proof {
        lemma_commands_distinct();
    }
    let cx = int_of(action, "chunk_x");
    let cy = int_of(action, "chunk_y");
    let id = id_of(action, "id");
    if !m.contains_key(&id) {
        return ActionOutcome::Unchanged;
    }
    assert(mv.contains_key(id));
    let tid = id_of(action, "target_id");
    let mut m = m;
    if m.contains_key(&tid) {
        assert(mv.contains_key(tid));
        let near = within_reach_exec(m.get(&id).unwrap(), m.get(&tid).unwrap());
        if !near {
            return ActionOutcome::Unchanged;
        }
        let kind = action.get("type").unwrap();
        if str_eq(kind.as_str(), "auto") {
            let mut target = m.remove(&tid).unwrap();
            assert(target@ == mv[tid]);
            let source = target.clone();
            target.damage_by_entity_with_rolls(&source, &rolls.attack);
            let ghost tv = target@;
            m.insert(tid, target);
            assert(crate::entities::entities_view(m@) =~= mv.insert(tid, tv));
        }
    }
    finish(m, g, id, false, cx, cy, false, id, w, None)
}

fn wood_action(
    action: &PostData,
    w: &WorldProperties,
    m: HashMap<u64, Entity>,
    g: Vec<Vec<Tile>>,
) -> (r: ActionOutcome)
    requires
        action@["command"@] == "gather_resource"@,
        action_defined(action@, crate::entities::entities_view(m@)),
        action_fits(action@, *w, crate::entities::entities_view(m@), grid_view(g@)),
    ensures
        r@ == wood_outcome(action@, *w, crate::entities::entities_view(m@), grid_view(g@)),
{
    let ghost mv = crate::entities::entities_view(m@);
    proof {
        lemma_commands_distinct();
    }
    let cx = int_of(action, "chunk_x");
    let cy = int_of(action, "chunk_y");
    let id = id_of(action, "id");
    assert(mv.contains_key(id));
    let mut m = m;
    let mut e = m.remove(&id).unwrap();
    assert(e@ == mv[id]);
    let (g1, n) = fell_exec(&g, e.x, e.y);
    let food = amount_of(&e.resources, "food");
    if e.resources.contains_key("wood") {
        let wood = amount_of(&e.resources, "wood");
        let more: i128 = wood as i128 + n as i128;
        e.resources.insert(String::from_str("wood"), more as i32);
    }
    if food > 0 {
        let left: i128 = food as i128 - n as i128;
        let v: i32 = if left > 0 {
            left as i32
        } else {
            0
        };
        e.resources.insert(String::from_str("food"), v);
    }
    let ghost ev = e@;
    assert(ev == lumbered(mv[id], wooded_count(flat(grid_view(g@)), mv[id].x as int, mv[id].y as int)));
    m.insert(id, e);
    assert(crate::entities::entities_view(m@) =~= mv.insert(id, ev));
    finish(m, g1, id, false, cx, cy, false, id, w, None)
}

fn food_action(
    action: &PostData,
    w: &WorldProperties,
    m: HashMap<u64, Entity>,
    g: Vec<Vec<Tile>>,
    rolls: &ActionRolls,
) -> (r: ActionOutcome)
    requires
        action@["command"@] == "gather_food"@,
        action_defined(action@, crate::entities::entities_view(m@)),
        action_fits(action@, *w, crate::entities::entities_view(m@), grid_view(g@)),
        rolls_valid(action@, crate::entities::entities_view(m@), grid_view(g@), rolls@),
    ensures
        r@ == food_outcome(action@, *w, crate::entities::entities_view(m@), grid_view(g@), rolls@),
{
    let ghost mv = crate::entities::entities_view(m@);
    let ghost gv = grid_view(g@);
    proof {
        lemma_commands_distinct();
    }
    let cx = int_of(action, "chunk_x");
    let cy = int_of(action, "chunk_y");
    let id = id_of(action, "id");
    assert(mv.contains_key(id));
    let mut m = m;
    let mut e = m.remove(&id).unwrap();
    assert(e@ == mv[id]);
    assert forall|i: int| 0 <= i < g@.len() implies (#[trigger] rolls.food@[i])@.len()
        == g@[i]@.len() by {
        assert(rolls_grid(rolls.food@)[i] == rolls.food@[i]@);
        assert(gv[i] == g@[i]@.map_values(|t: Tile| t@));
    }
    assert forall|i: int, j: int|
        0 <= i < g@.len() && 0 <= j < g@[i]@.len() implies 1 <= #[trigger] rolls.food@[i]@[j]
        < 4 by {
        assert(rolls_grid(rolls.food@)[i] == rolls.food@[i]@);
        assert(gv[i] == g@[i]@.map_values(|t: Tile| t@));
        assert(1 <= rolls_grid(rolls.food@)[i][j] < 4);
    }
    let (g1, gain) = pick_exec(&g, e.x, e.y, &rolls.food);
    if e.resources.contains_key("food") {
        let food = amount_of(&e.resources, "food");
        let more: i128 = food as i128 + gain as i128;
        e.resources.insert(String::from_str("food"), more as i32);
    }
    let ghost ev = e@;
    m.insert(id, e);
    assert(crate::entities::entities_view(m@) =~= mv.insert(id, ev));
    finish(m, g1, id, false, cx, cy, false, id, w, None)
}

/// Carries out a request on the creatures `chunk` and the tiles `tiles` of
/// the request's chunk with the draws `rolls`: a "spawn" places a new
/// player, a "move" steps a creature, an "attack" hurts a target's band, a
/// "gather_resource" fells trees and a "gather_food" picks food where the
/// acting creature stands. Where several corpses lie where a mover arrives,
/// the one that leaves the chunk is one of them.
pub fn execute_action_with(
    action: &PostData,
    w: &WorldProperties,
    chunk: HashMap<u64, Entity>,
    tiles: Vec<Vec<Tile>>,
    rolls: &ActionRolls,
) -> (r: ActionOutcome)
    requires
        action_defined(action@, crate::entities::entities_view(chunk@)),
        action_fits(action@, *w, crate::entities::entities_view(chunk@), grid_view(tiles@)),
        rolls_valid(action@, crate::entities::entities_view(chunk@), grid_view(tiles@), rolls@),
    ensures
        exists|pick: u64|
            {
                &&& pick_ok(
                    action@,
                    *w,
                    crate::entities::entities_view(chunk@),
                    grid_view(tiles@),
                    rolls@,
                    pick,
                )
                &&& r@ == action_outcome(
                    action@,
                    *w,
                    crate::entities::entities_view(chunk@),
                    grid_view(tiles@),
                    rolls@,
                    pick,
                )
            },
{
    let ghost mv = crate::entities::entities_view(chunk@);
    let ghost gv = grid_view(tiles@);
    proof {
        lemma_commands_distinct();
    }
    let cmd = action.get("command").unwrap();
    if str_eq(cmd.as_str(), "move") {
        let r = move_action(action, w, chunk, tiles, rolls);
        let ghost pick = choose|pick: u64|
            {
                &&& pick_ok(action@, *w, mv, gv, rolls@, pick)
                &&& r@ == move_outcome(action@, *w, mv, gv, rolls@, pick)
            };
        assert(r@ == action_outcome(action@, *w, mv, gv, rolls@, pick));
        return r;
    }
    let r = if str_eq(cmd.as_str(), "spawn") {
        spawn_action(action, w, chunk, tiles, rolls)
    } else if str_eq(cmd.as_str(), "attack") {
        attack_action(action, w, chunk, tiles, rolls)
    } else if str_eq(cmd.as_str(), "gather_resource") {
        wood_action(action, w, chunk, tiles)
    } else if str_eq(cmd.as_str(), "gather_food") {
        food_action(action, w, chunk, tiles, rolls)
    } else {
        let cx = int_of(action, "chunk_x");
        let cy = int_of(action, "chunk_y");
        let id = id_of(action, "id");
        assert(mv.contains_key(id));
        finish(chunk, tiles, id, false, cx, cy, false, id, w, None)
    };
    assert(pick_ok(action@, *w, mv, gv, rolls@, 0));
    assert(r@ == action_outcome(action@, *w, mv, gv, rolls@, 0));
    r
}

/// Draws a food roll from 1..4 for every tile.
fn food_rolls(rows: &Vec<Vec<Tile>>) -> (r: Vec<Vec<i32>>)
    ensures
        r@.len() == rows@.len(),
        forall|i: int| 0 <= i < rows@.len() ==> (#[trigger] r@[i])@.len() == rows@[i]@.len(),
        forall|i: int, j: int|
            0 <= i < rows@.len() && 0 <= j < rows@[i]@.len() ==> 1 <= #[trigger] r@[i]@[j] < 4,
{
    let mut out: Vec<Vec<i32>> = Vec::new();
    let mut i: usize = 0;
    while i < rows.len()
        invariant
            0 <= i <= rows@.len(),
            out@.len() == i,
            forall|a: int| 0 <= a < i ==> (#[trigger] out@[a])@.len() == rows@[a]@.len(),
            forall|a: int, b: int|
                0 <= a < i && 0 <= b < rows@[a]@.len() ==> 1 <= #[trigger] out@[a]@[b] < 4,
        decreases rows@.len() - i,
    {
        let n = rows[i].len();
        let mut row: Vec<i32> = Vec::new();
        let mut j: usize = 0;
        while j < n
            invariant
                0 <= j <= n,
                row@.len() == j,
                forall|b: int| 0 <= b < j ==> 1 <= #[trigger] row@[b] < 4,
            decreases n - j,
        {
            row.push(random_in(1, 4));
            j = j + 1;
        }
        out.push(row);
        i = i + 1;
    }
    out
}

/// Carries out a request on the creatures `chunk` and the tiles `tiles` of
/// the request's chunk, drawing what the action leaves to chance: a spawned
/// player's band (named from `words`), the hunger and water rolls of a
/// mover, the rolls of an auto attack and the food of the tiles gathered.
pub fn execute_action(
    action: &PostData,
    w: &WorldProperties,
    chunk: HashMap<u64, Entity>,
    tiles: Vec<Vec<Tile>>,
    words: &Vec<String>,
) -> (r: ActionOutcome)
    requires
        action_defined(action@, crate::entities::entities_view(chunk@)),
        action_fits(action@, *w, crate::entities::entities_view(chunk@), grid_view(tiles@)),
        action@["command"@] == "spawn"@ ==> name_source_ok(texts(words@)),
    ensures
        exists|rolls: RollsView, pick: u64|
            {
                &&& rolls_valid(
                    action@,
                    crate::entities::entities_view(chunk@),
                    grid_view(tiles@),
                    rolls,
                )
                &&& action@["command"@] == "spawn"@ ==> drawn_band(
                    texts(words@),
                    rolls.spawn_units,
                )
                &&& pick_ok(
                    action@,
                    *w,
                    crate::entities::entities_view(chunk@),
                    grid_view(tiles@),
                    rolls,
                    pick,
                )
                &&& r@ == action_outcome(
                    action@,
                    *w,
                    crate::entities::entities_view(chunk@),
                    grid_view(tiles@),
                    rolls,
                    pick,
                )
            },
{
    let ghost mv = crate::entities::entities_view(chunk@);
    let ghost gv = grid_view(tiles@);
    proof {
        lemma_commands_distinct();
    }
    let cmd = action.get("command").unwrap();
    let spawn_units = if str_eq(cmd.as_str(), "spawn") {
        Entity::generate_default_units(words)
    } else {
        HashMap::new()
    };
    let mut starve: HashMap<u64, i32> = HashMap::new();
    let mut water: HashMap<u64, i32> = HashMap::new();
    let mut attack: HashMap<u64, i32> = HashMap::new();
    let mut food: Vec<Vec<i32>> = Vec::new();
    if str_eq(cmd.as_str(), "move") {
        let id = id_of(action, "id");
        if chunk.contains_key(&id) {
            let e = chunk.get(&id).unwrap();
            assert(e@ == mv[id]);
            starve = e.draw_rolls(0, 10);
            water = e.draw_rolls(0, 10);
        }
    } else if str_eq(cmd.as_str(), "attack") {
        let id = id_of(action, "id");
        if chunk.contains_key(&id) {
            assert(mv.contains_key(id));
            let tid = id_of(action, "target_id");
            if chunk.contains_key(&tid) {
                let target = chunk.get(&tid).unwrap();
                assert(target@ == mv[tid]);
                if within_reach_exec(chunk.get(&id).unwrap(), target) {
                    let kind = action.get("type").unwrap();
                    if str_eq(kind.as_str(), "auto") {
                        let p = weapon_power_of(&target.units) as i32;
                        attack = target.draw_rolls(p, p + 5);
                    }
                }
            }
        }
    } else if str_eq(cmd.as_str(), "gather_food") {
        food = food_rolls(&tiles);
    }
    let rolls = ActionRolls { spawn_units, starve, water, attack, food };
    proof {
        if action@["command"@] == "gather_food"@ {
            assert forall|i: int| 0 <= i < gv.len() implies (#[trigger] rolls@.food[i]).len()
                == gv[i].len() by {
                assert(rolls@.food[i] == rolls.food@[i]@);
                assert(gv[i] == tiles@[i]@.map_values(|t: Tile| t@));
            }
            assert forall|i: int, j: int|
                0 <= i < gv.len() && 0 <= j < gv[i].len() implies 1 <= #[trigger] rolls@.food[i][j]
                < 4 by {
                assert(rolls@.food[i] == rolls.food@[i]@);
                assert(gv[i] == tiles@[i]@.map_values(|t: Tile| t@));
            }
        }
    }
    let r = execute_action_with(action, w, chunk, tiles, &rolls);
    let ghost pick = choose|pick: u64|
        {
            &&& pick_ok(action@, *w, mv, gv, rolls@, pick)
            &&& r@ == action_outcome(action@, *w, mv, gv, rolls@, pick)
        };
    assert(rolls_valid(action@, mv, gv, rolls@));
    assert(pick_ok(action@, *w, mv, gv, rolls@, pick));
    r
}

// ---------------------------------------------------------------------------
// Whether a request can be carried out.
// ---------------------------------------------------------------------------

fn has_int_exec(action: &PostData, key: &str) -> (r: bool)
    ensures
        r == has_int(action@, key@),
{
    match action.get(key) {
        Some(v) => parse_i32(v.as_str()).is_some(),
        None => false,
    }
}

fn has_id_exec(action: &PostData, key: &str) -> (r: bool)
    ensures
        r == has_id(action@, key@),
{
    match action.get(key) {
        Some(v) => parse_u64(v.as_str()).is_some(),
        None => false,
    }
}

fn defined_exec(action: &PostData, m: &HashMap<u64, Entity>) -> (r: bool)
    ensures
        r == action_defined(action@, crate::entities::entities_view(m@)),
{
    let ghost mv = crate::entities::entities_view(m@);
    if !(has_int_exec(action, "chunk_x") && has_int_exec(action, "chunk_y") && has_id_exec(
        action,
        "id",
    )) {
        return false;
    }
    let cmd = match action.get("command") {
        Some(c) => c,
        None => {
            return false;
        },
    };
    let id = id_of(action, "id");
    assert(mv.contains_key(id) == m@.contains_key(id));
    if str_eq(cmd.as_str(), "spawn") {
        has_int_exec(action, "x") && has_int_exec(action, "y") && action.get("name").is_some()
    } else if str_eq(cmd.as_str(), "move") {
        !m.contains_key(&id) || action.get("move_dir").is_some()
    } else if str_eq(cmd.as_str(), "attack") {
        if !m.contains_key(&id) {
            return true;
        }
        if !has_id_exec(action, "target_id") {
            return false;
        }
        let tid = id_of(action, "target_id");
        assert(mv.contains_key(tid) == m@.contains_key(tid));
        if !m.contains_key(&tid) {
            return true;
        }
        assert(mv[id] == m@[id]@ && mv[tid] == m@[tid]@);
        if !within_reach_exec(m.get(&id).unwrap(), m.get(&tid).unwrap()) {
            return true;
        }
        match action.get("type") {
            Some(t) => !str_eq(t.as_str(), "special") || action.get("ability").is_some(),
            None => false,
        }
    } else {
        m.contains_key(&id)
    }
}

fn unpicked_exec(rows: &Vec<Vec<Tile>>, x: i32, y: i32) -> (r: u128)
    ensures
        r as int == unpicked_count(flat(grid_view(rows@)), x as int, y as int),
{
    let ghost g = grid_view(rows@);
    let mut count: u128 = 0;
    let mut i: usize = 0;
    assert(flat(g.take(0)) =~= Seq::<TileView>::empty());
    while i < rows.len()
        invariant
            g == grid_view(rows@),
            0 <= i <= rows@.len(),
            count as int == unpicked_count(flat(g.take(i as int)), x as int, y as int),
            count <= i as int * 0x1_0000_0000_0000_0000,
        decreases rows@.len() - i,
    {
        let row = &rows[i];
        assert(g[i as int] == row@.map_values(|t: Tile| t@));
        let mut j: usize = 0;
        assert(flat(g.take(i as int)) + g[i as int].take(0) =~= flat(g.take(i as int)));
        while j < row.len()
            invariant
                g == grid_view(rows@),
                0 <= i < rows@.len(),
                *row == rows@[i as int],
                g[i as int] == row@.map_values(|t: Tile| t@),
                0 <= j <= row@.len(),
                count as int == unpicked_count(
                    flat(g.take(i as int)) + g[i as int].take(j as int),
                    x as int,
                    y as int,
                ),
                count <= i as int * 0x1_0000_0000_0000_0000 + j,
            decreases row@.len() - j,
        {
            let t = &row[j];
            if t.x == x && t.y == y && !t.gathered {
                count = count + 1;
            }
            proof {
                let s0 = flat(g.take(i as int)) + g[i as int].take(j as int);
                let s1 = flat(g.take(i as int)) + g[i as int].take(j + 1);
                assert(s1 =~= s0.push(t@));
                assert(s1.drop_last() =~= s0);
            }
            j = j + 1;
        }
        proof {
            assert(g[i as int].take(row@.len() as int) =~= g[i as int]);
            lemma_flat_step(g, i as int);
        }
        i = i + 1;
    }
    assert(g.take(rows@.len() as int) =~= g);
    count
}

fn wrap_fits_exec(e: &Entity, cs: i32, cx: i32, cy: i32) -> (r: bool)
    ensures
        r == wrap_fits(e@, cs, cx, cy),
{
    let rel_x2 = if e.relative_x < 0 {
        cs as i64 - 1
    } else {
        e.relative_x as i64
    };
    let rel_y3 = if e.relative_y < 0 {
        cs as i64 - 1
    } else {
        e.relative_y as i64
    };
    cs > i32::MIN && (!(e.relative_x < 0) || cx > i32::MIN) && (!(e.relative_y < 0) || cy
        > i32::MIN) && (!(rel_x2 > cs as i64 - 1) || cx < i32::MAX) && (!(rel_y3 > cs as i64 - 1)
        || cy < i32::MAX)
}

fn step_of(dir: &str) -> (r: (i64, i64))
    ensures
        r.0 == step_x(dir@),
        r.1 == step_y(dir@),
{
    let sx: i64 = if str_eq(dir, "left") {
        -1
    } else if str_eq(dir, "right") {
        1
    } else {
        0
    };
    let sy: i64 = if str_eq(dir, "up") {
        -1
    } else if str_eq(dir, "down") {
        1
    } else {
        0
    };
    (sx, sy)
}

fn step_fits_exec(e: &Entity, dir: &str) -> (r: bool)
    ensures
        r == step_fits(e@, dir@),
{
    if !e.alive {
        return true;
    }
    let (sx, sy) = step_of(dir);
    let lo = i32::MIN as i64;
    let hi = i32::MAX as i64;
    let x = e.x as i64 + sx;
    let rx = e.relative_x as i64 + sx;
    let y = e.y as i64 + sy;
    let ry = e.relative_y as i64 + sy;
    lo <= x && x <= hi && lo <= rx && rx <= hi && lo <= y && y <= hi && lo <= ry && ry <= hi
}

fn spawn_fits_exec(action: &PostData, w: &WorldProperties, cx: i32, cy: i32) -> (r: bool)
    requires
        has_int(action@, "x"@),
        has_int(action@, "y"@),
    ensures
        r == spawn_fits(action@, *w, cx, cy),
{
    let ax = int_of(action, "x") as i64;
    let ay = int_of(action, "y") as i64;
    let cs = (w.chunk_size as i32) as i64;
    assert(-0x8000_0000 * 0x8000_0000 <= cs * (cx as i64) <= 0x8000_0000 * 0x8000_0000)
        by (nonlinear_arith)
        requires
            -0x8000_0000 <= cs < 0x8000_0000,
            -0x8000_0000 <= cx < 0x8000_0000,
    ;
    assert(-0x8000_0000 * 0x8000_0000 <= cs * (cy as i64) <= 0x8000_0000 * 0x8000_0000)
        by (nonlinear_arith)
        requires
            -0x8000_0000 <= cs < 0x8000_0000,
            -0x8000_0000 <= cy < 0x8000_0000,
    ;
    let bx = cs * cx as i64;
    let by = cs * cy as i64;
    let lo = i32::MIN as i64;
    let hi = i32::MAX as i64;
    lo <= bx && bx <= hi && lo <= bx + ax && bx + ax <= hi && lo <= by && by <= hi && lo <= by + ay
        && by + ay <= hi
}

fn fits_exec(action: &PostData, w: &WorldProperties, m: &HashMap<u64, Entity>, g: &Vec<Vec<Tile>>) -> (r:
    bool)
    requires
        action_defined(action@, crate::entities::entities_view(m@)),
    ensures
        r == action_fits(action@, *w, crate::entities::entities_view(m@), grid_view(g@)),
{
    let ghost mv = crate::entities::entities_view(m@);
    proof {
        lemma_commands_distinct();
    }
    let cx = int_of(action, "chunk_x");
    let cy = int_of(action, "chunk_y");
    let id = id_of(action, "id");
    let cmd = action.get("command").unwrap();
    assert(mv.contains_key(id) == m@.contains_key(id));
    if str_eq(cmd.as_str(), "spawn") {
        spawn_fits_exec(action, w, cx, cy)
    } else if str_eq(cmd.as_str(), "move") {
        if !m.contains_key(&id) {
            return true;
        }
        let e = m.get(&id).unwrap();
        assert(e@ == mv[id]);
        let dir = action.get("move_dir").unwrap();
        let cs = w.chunk_size as i32;
        let down_ok = !str_eq(dir.as_str(), "down") || (w.world_height as i32 > i32::MIN && cs
            > i32::MIN);
        let right_ok = !str_eq(dir.as_str(), "right") || (w.world_width as i32 > i32::MIN && cs
            > i32::MIN);
        if !(down_ok && right_ok) {
            return false;
        }
        if move_blocked_exec(dir.as_str(), e, w) {
            return true;
        }
        if !step_fits_exec(e, dir.as_str()) {
            return false;
        }
        let mut e1 = e.clone();
        e1.move_dir(dir.clone());
        if !wrap_fits_exec(&e1, cs, cx, cy) {
            return false;
        }
        let mut e2 = e1.clone();
        wrap_exec(&mut e2, cs, cx, cy);
        let food = amount_of(&e2.resources, "food");
        if food <= 0 && !crate::entities::damage_fits_exec(&e2, "starve") {
            return false;
        }
        if food > 0 && on_water_exec(g, e2.x, e2.y) && amount_of(&e2.resources, "wood") <= 0
            && !crate::entities::damage_fits_exec(&e2, "water") {
            return false;
        }
        let (count, _) = corpses_exec(m, e1.x, e1.y);
        (e.experience as i128) + 10 * (count as i128) <= i32::MAX as i128
    } else if str_eq(cmd.as_str(), "attack") {
        if !m.contains_key(&id) {
            return true;
        }
        let tid = id_of(action, "target_id");
        assert(mv.contains_key(tid) == m@.contains_key(tid));
        if !m.contains_key(&tid) {
            return true;
        }
        let target = m.get(&tid).unwrap();
        assert(mv[id] == m@[id]@ && mv[tid] == target@);
        if !within_reach_exec(m.get(&id).unwrap(), target) {
            return true;
        }
        let kind = action.get("type").unwrap();
        if !str_eq(kind.as_str(), "auto") {
            return true;
        }
        let p = weapon_power_of(&target.units);
        if p > i32::MAX as u128 - 5 {
            return false;
        }
        crate::entities::hp_room_exec(&target.units, p as i128 + 5)
    } else if str_eq(cmd.as_str(), "gather_resource") {
        let e = m.get(&id).unwrap();
        assert(e@ == mv[id]);
        let (_, n) = fell_exec(g, e.x, e.y);
        if n > 0x1_0000_0000 {
            return false;
        }
        (amount_of(&e.resources, "wood") as i128) + (n as i128) <= i32::MAX as i128
    } else if str_eq(cmd.as_str(), "gather_food") {
        let e = m.get(&id).unwrap();
        assert(e@ == mv[id]);
        let n = unpicked_exec(g, e.x, e.y);
        if n > 0x1_0000_0000 {
            return false;
        }
        3 * (n as i128) <= i32::MAX as i128 && (amount_of(&e.resources, "food") as i128) + 3 * (
        n as i128) <= i32::MAX as i128
    } else {
        true
    }
}

/// Whether the server can carry out a request on the creatures `chunk` and
/// the tiles `tiles` of its chunk: the request holds every parameter the
/// server reads for it, and its arithmetic stays within 32 bits.
pub fn action_ready(action: &PostData, w: &WorldProperties, chunk: &HashMap<u64, Entity>, tiles: &Vec<
    Vec<Tile>,
>) -> (r: bool)
    ensures
        r == (action_defined(action@, crate::entities::entities_view(chunk@)) && action_fits(
            action@,
            *w,
            crate::entities::entities_view(chunk@),
            grid_view(tiles@),
        )),
{
    defined_exec(action, chunk) && fits_exec(action, w, chunk, tiles)
}

} // verus!
