use crate::actions::{
    action_outcome, attack_outcome, finished, food_outcome, move_outcome, wood_outcome,
    OutcomeView, RollsView, pick_ok,
    action_defined, grid_view, has_id, has_int, id_param, int_param,
    corpses, felled, felled_grid, flat, food_gain, lies_at, picked, picked_grid, wooded,
    wooded_count, wrapped, Wrap,
};
use crate::client::{
    attack_params, clamped_index, is_move_key, key_direction, next_index, spawn_params,
    stepped_client, steps, ticked, toggled_view, Client, Key, key_handled, moved_client,
    INPUT_DELAY,
};
use crate::entities::{after_rolls, damaged, rolls_fit, stepped, step_fits, EntityView, UnitView};
use crate::menu::{pressed_status, ButtonState, ButtonStatus};
use crate::queue::{attack_request, move_request, window_end, window_start};
use crate::text::{int_text, lemma_parse_format_i32, lemma_parse_format_u64, nat_text};
use crate::server::ClientId;
use crate::tiles::TileView;
use crate::world::{biome_count, biome_name, biome_of, chunk_built, is_generated_tile, Tiles, TileSample, WorldProperties};
use crate::entities::Entities;
use vstd::prelude::*;

verus! {

// ---------------------------------------------------------------------------
// Moving.
// ---------------------------------------------------------------------------

/// A step up followed by a step down, or a step left followed by a step
/// right, brings a creature back where it stood.
pub proof fn lemma_step_back(e: EntityView)
    requires
        step_fits(e, "up"@),
        step_fits(e, "left"@),
    ensures
        stepped(stepped(e, "up"@), "down"@) == e,
        stepped(stepped(e, "left"@), "right"@) == e,
{
    crate::entities::lemma_directions_distinct();
}

/// A step moves a creature's square and its square within the chunk alike,
/// so the chunk's corner (their difference) stays.
pub proof fn lemma_step_keeps_corner(e: EntityView, dir: Seq<char>)
    requires
        step_fits(e, dir),
    ensures
        stepped(e, dir).x - stepped(e, dir).relative_x == e.x - e.relative_x,
        stepped(e, dir).y - stepped(e, dir).relative_y == e.y - e.relative_y,
{
}

/// Dead creatures do not move.
pub proof fn lemma_dead_stay(e: EntityView, dir: Seq<char>)
    requires
        !e.alive,
    ensures
        stepped(e, dir) == e,
{
}

/// Whether a creature's square agrees with its chunk and its square within
/// the chunk, for chunks of side `cs`.
pub open spec fn placed(e: EntityView, cs: int) -> bool {
    &&& e.x == e.chunk_x * cs + e.relative_x
    &&& e.y == e.chunk_y * cs + e.relative_y
    &&& 0 <= e.relative_x < cs
    &&& 0 <= e.relative_y < cs
}

/// A creature placed in the request's chunk stays placed after a step and
/// the carry into a neighbouring chunk: leaving its chunk on one side, it
/// enters the neighbouring chunk on the other.
pub proof fn lemma_move_keeps_placement(e: EntityView, dir: Seq<char>, cs: i32)
    requires
        placed(e, cs as int),
        step_fits(e, dir),
        i32::MIN < e.chunk_x < i32::MAX,
        i32::MIN < e.chunk_y < i32::MAX,
    ensures
        placed(wrapped(stepped(e, dir), cs, e.chunk_x, e.chunk_y).e, cs as int),
{
    crate::entities::lemma_directions_distinct();
    let e1 = stepped(e, dir);
    let w = wrapped(e1, cs, e.chunk_x, e.chunk_y).e;
    if e.alive {
        assert((e.chunk_x - 1) * cs + (cs - 1) == e.chunk_x * cs + (0 - 1)) by (nonlinear_arith);
        assert((e.chunk_x + 1) * cs + 0 == e.chunk_x * cs + cs) by (nonlinear_arith);
        assert((e.chunk_y - 1) * cs + (cs - 1) == e.chunk_y * cs + (0 - 1)) by (nonlinear_arith);
        assert((e.chunk_y + 1) * cs + 0 == e.chunk_y * cs + cs) by (nonlinear_arith);
    }
}

/// The corpses a mover eats lie dead on its square.
pub proof fn lemma_corpses_are_dead(m: Map<u64, EntityView>, x: int, y: int, k: u64)
    requires
        corpses(m, x, y).contains(k),
    ensures
        m.contains_key(k),
        !m[k].alive,
        m[k].x == x && m[k].y == y,
{
}

// ---------------------------------------------------------------------------
// Fighting.
// ---------------------------------------------------------------------------

/// Damage only takes: no unit joins a band, and no unit gains hit points
/// from a roll of at least 0.
pub proof fn lemma_damage_only_takes(units: Map<u64, UnitView>, rolls: Map<u64, i32>, hi: int, k: u64)
    requires
        rolls_fit(units, rolls, 0, hi),
        after_rolls(units, rolls).contains_key(k),
    ensures
        units.contains_key(k),
        after_rolls(units, rolls)[k].hp <= units[k].hp,
        after_rolls(units, rolls)[k].hp >= 0,
{
}

/// Coyotes do not suffer hunger or water.
pub proof fn lemma_coyotes_endure(e: EntityView, rolls: Map<u64, i32>)
    requires
        e.entity_type == "coyote"@,
    ensures
        damaged(e, "starve"@, rolls) == e,
        damaged(e, "water"@, rolls) == e,
{
}

// ---------------------------------------------------------------------------
// Gathering.
// ---------------------------------------------------------------------------

proof fn lemma_felled_flat(g: Seq<Seq<TileView>>, x: int, y: int)
    ensures
        flat(felled_grid(g, x, y)) == flat(g).map_values(|t: TileView| felled(t, x, y)),
    decreases g.len(),
{
    let fg = felled_grid(g, x, y);
    if g.len() == 0 {
        assert(flat(fg) =~= Seq::<TileView>::empty());
        assert(flat(g).map_values(|t: TileView| felled(t, x, y)) =~= Seq::<TileView>::empty());
    } else {
        assert(fg.drop_last() =~= felled_grid(g.drop_last(), x, y));
        lemma_felled_flat(g.drop_last(), x, y);
        assert(flat(fg) =~= flat(g).map_values(|t: TileView| felled(t, x, y)));
    }
}

proof fn lemma_no_wood_left(s: Seq<TileView>, x: int, y: int)
    ensures
        wooded_count(s.map_values(|t: TileView| felled(t, x, y)), x, y) == 0,
    decreases s.len(),
{
    if s.len() > 0 {
        let m = s.map_values(|t: TileView| felled(t, x, y));
        assert(m.drop_last() =~= s.drop_last().map_values(|t: TileView| felled(t, x, y)));
        lemma_no_wood_left(s.drop_last(), x, y);
        reveal_strlit("sand");
        reveal_strlit("grass");
    }
}

/// The trees of a square are felled once: gathering wood there again finds
/// none.
pub proof fn lemma_trees_felled_once(g: Seq<Seq<TileView>>, x: int, y: int)
    ensures
        wooded_count(flat(felled_grid(g, x, y)), x, y) == 0,
{
    lemma_felled_flat(g, x, y);
    lemma_no_wood_left(flat(g), x, y);
}

proof fn lemma_picked_flat(g: Seq<Seq<TileView>>, x: int, y: int)
    ensures
        flat(picked_grid(g, x, y)) == flat(g).map_values(|t: TileView| picked(t, x, y)),
    decreases g.len(),
{
    let pg = picked_grid(g, x, y);
    if g.len() == 0 {
        assert(flat(pg) =~= Seq::<TileView>::empty());
        assert(flat(g).map_values(|t: TileView| picked(t, x, y)) =~= Seq::<TileView>::empty());
    } else {
        assert(pg.drop_last() =~= picked_grid(g.drop_last(), x, y));
        lemma_picked_flat(g.drop_last(), x, y);
        assert(flat(pg) =~= flat(g).map_values(|t: TileView| picked(t, x, y)));
    }
}

proof fn lemma_no_food_left(s: Seq<TileView>, r: Seq<i32>, x: int, y: int)
    ensures
        food_gain(s.map_values(|t: TileView| picked(t, x, y)), r, x, y) == 0,
    decreases s.len(),
{
    if s.len() > 0 {
        let m = s.map_values(|t: TileView| picked(t, x, y));
        assert(m.drop_last() =~= s.drop_last().map_values(|t: TileView| picked(t, x, y)));
        lemma_no_food_left(s.drop_last(), r.drop_last(), x, y);
    }
}

/// The food of a square is gathered once: gathering food there again, with
/// whatever rolls, gives none.
pub proof fn lemma_food_gathered_once(g: Seq<Seq<TileView>>, rolls: Seq<i32>, x: int, y: int)
    ensures
        food_gain(flat(picked_grid(g, x, y)), rolls, x, y) == 0,
{
    lemma_picked_flat(g, x, y);
    lemma_no_food_left(flat(g), rolls, x, y);
}

// ---------------------------------------------------------------------------
// The queue and the players.
// ---------------------------------------------------------------------------

/// Requests leave the queue in the order they came: after queueing `d`, the
/// next request taken is the oldest one waiting before, or `d` if none was,
/// and the rest keep their order with `d` last.
pub proof fn lemma_queue_first_in_first_out<T>(q: Seq<T>, d: T)
    ensures
        q.push(d)[0] == (if q.len() == 0 {
            d
        } else {
            q[0]
        }),
        q.len() > 0 ==> q.push(d).drop_first() == q.drop_first().push(d),
{
    if q.len() > 0 {
        assert(q.push(d).drop_first() =~= q.drop_first().push(d));
    }
}

/// A registered player exists, with the id it registered under, in chunk
/// (0, 0).
pub proof fn lemma_registered_exists(ids: Map<Seq<char>, ClientId>, name: Seq<char>, id: u64)
    ensures
        ids.insert(name, ClientId { id, chunk_x: 0, chunk_y: 0 }).contains_key(name),
        ids.insert(name, ClientId { id, chunk_x: 0, chunk_y: 0 })[name].id == id,
{
}

/// Moving a player to another chunk keeps who is registered and their ids.
pub proof fn lemma_chunk_change_keeps_ids(
    ids: Map<Seq<char>, ClientId>,
    name: Seq<char>,
    chunk_x: i32,
    chunk_y: i32,
)
    requires
        ids.contains_key(name),
    ensures
        ids.insert(name, ClientId { chunk_x, chunk_y, ..ids[name] }).dom() == ids.dom(),
        forall|k: Seq<char>| #[trigger]
            ids.contains_key(k) ==> ids.insert(name, ClientId { chunk_x, chunk_y, ..ids[name] })[k].id
                == ids[k].id,
{
    assert(ids.insert(name, ClientId { chunk_x, chunk_y, ..ids[name] }).dom() =~= ids.dom());
}

/// The chunks around a player lie within the world: from chunk 0 on, and
/// before the world's last chunk.
pub proof fn lemma_window_in_world(c: i32, n: u32)
    requires
        1 <= n <= i32::MAX,
    ensures
        window_start(c) >= 0,
        window_end(c, n) <= n - 1,
{
}

// ---------------------------------------------------------------------------
// The client.
// ---------------------------------------------------------------------------

/// A view key pressed twice brings the client back to the view it was in.
pub proof fn lemma_view_key_twice(view: Seq<char>, other: Seq<char>)
    requires
        view == "game"@ || view == other,
        other != "game"@,
    ensures
        toggled_view(view, other) is Some,
        toggled_view(toggled_view(view, other)->0, other) == Some(view),
{
}

/// The tab key keeps the target index among the creatures to cycle.
pub proof fn lemma_tab_in_range(index: usize, count: usize, len: int)
    requires
        count > 0,
        index < usize::MAX,
        len > 0,
    ensures
        0 <= clamped_index(next_index(index, count), len) < len,
{
}

/// A button is pressed only while hovered, and every press check leaves
/// the remembered status equal to the status.
pub proof fn lemma_press_needs_hover(b: ButtonState, pressed: bool)
    ensures
        pressed_status(b, pressed) == ButtonStatus::Pressed ==> b.status == ButtonStatus::Pressed
            || b.status == ButtonStatus::Hovered,
        pressed_status(b, pressed) == ButtonStatus::Released ==> !pressed || b.status
            == ButtonStatus::Released,
{
}

// ---------------------------------------------------------------------------
// Requests between the clients and the server.
// ---------------------------------------------------------------------------

/// What a request's number parameters are written as, the server reads back:
/// a 32-bit number written with `set_i32` and an id written with `set_u64`.
pub proof fn lemma_request_numbers_read_back(
    p: Map<Seq<char>, Seq<char>>,
    key: Seq<char>,
    n: i32,
    id: u64,
)
    ensures
        has_int(p.insert(key, int_text(n as int)), key),
        int_param(p.insert(key, int_text(n as int)), key) == n,
        has_id(p.insert(key, nat_text(id as nat)), key),
        id_param(p.insert(key, nat_text(id as nat)), key) == id,
{
    lemma_parse_format_i32(n);
    lemma_parse_format_u64(id);
}

proof fn lemma_request_keys_distinct()
    ensures
        "command"@ != "move_dir"@,
        "command"@ != "id"@,
        "command"@ != "chunk_x"@,
        "command"@ != "chunk_y"@,
        "command"@ != "type"@,
        "command"@ != "target_id"@,
        "move_dir"@ != "id"@,
        "move_dir"@ != "chunk_x"@,
        "move_dir"@ != "chunk_y"@,
        "id"@ != "chunk_x"@,
        "id"@ != "chunk_y"@,
        "chunk_x"@ != "chunk_y"@,
        "type"@ != "id"@,
        "type"@ != "target_id"@,
        "type"@ != "chunk_x"@,
        "type"@ != "chunk_y"@,
        "target_id"@ != "id"@,
        "target_id"@ != "chunk_x"@,
        "target_id"@ != "chunk_y"@,
{
    reveal_strlit("command");
    reveal_strlit("move_dir");
    reveal_strlit("id");
    reveal_strlit("chunk_x");
    reveal_strlit("chunk_y");
    reveal_strlit("type");
    reveal_strlit("target_id");
    assert(("command"@)[1] != ("chunk_x"@)[1]);
    assert(("command"@)[1] != ("chunk_y"@)[1]);
    assert(("chunk_x"@)[6] != ("chunk_y"@)[6]);
    assert(("move_dir"@).len() != ("target_id"@).len());
    assert(("type"@).len() == 4 && ("id"@).len() == 2 && ("target_id"@).len() == 9);
}

/// A move request, as the client and the coyotes ask for one, is a request
/// the server carries out: it holds every parameter the server reads for a
/// move.
pub proof fn lemma_move_request_accepted(
    id: u64,
    dir: Seq<char>,
    cx: i32,
    cy: i32,
    m: Map<u64, EntityView>,
)
    ensures
        action_defined(move_request(id, dir, cx, cy), m),
        move_request(id, dir, cx, cy)["command"@] == "move"@,
        id_param(move_request(id, dir, cx, cy), "id"@) == id,
        int_param(move_request(id, dir, cx, cy), "chunk_x"@) == cx,
        int_param(move_request(id, dir, cx, cy), "chunk_y"@) == cy,
{
    lemma_request_keys_distinct();
    crate::actions::lemma_commands_distinct();
    lemma_parse_format_i32(cx);
    lemma_parse_format_i32(cy);
    lemma_parse_format_u64(id);
}

/// The attack a coyote asks for is a request the server carries out: an
/// automatic attack that holds every parameter the server reads for it.
pub proof fn lemma_coyote_attack_accepted(e: EntityView, target: u64, m: Map<u64, EntityView>)
    ensures
        action_defined(attack_request(e, target), m),
        attack_request(e, target)["command"@] == "attack"@,
        attack_request(e, target)["type"@] == "auto"@,
        id_param(attack_request(e, target), "target_id"@) == target,
{
    lemma_request_keys_distinct();
    crate::actions::lemma_commands_distinct();
    lemma_parse_format_i32(e.chunk_x);
    lemma_parse_format_i32(e.chunk_y);
    lemma_parse_format_u64(e.id);
    lemma_parse_format_u64(target);
    reveal_strlit("auto");
    reveal_strlit("special");
    assert(("auto"@).len() != ("special"@).len());
}

/// The client's spawn request holds every parameter the server reads for a
/// spawn, and the server reads back the square, chunk and name written.
pub proof fn lemma_spawn_request_accepted(
    id: u64,
    x: i32,
    y: i32,
    cx: i32,
    cy: i32,
    name: Seq<char>,
    m: Map<u64, EntityView>,
)
    ensures
        action_defined(spawn_params(id, x, y, cx, cy, name), m),
        spawn_params(id, x, y, cx, cy, name)["command"@] == "spawn"@,
        int_param(spawn_params(id, x, y, cx, cy, name), "x"@) == x,
        int_param(spawn_params(id, x, y, cx, cy, name), "y"@) == y,
        int_param(spawn_params(id, x, y, cx, cy, name), "chunk_x"@) == cx,
        int_param(spawn_params(id, x, y, cx, cy, name), "chunk_y"@) == cy,
        spawn_params(id, x, y, cx, cy, name)["name"@] == name,
{
    lemma_request_keys_distinct();
    crate::actions::lemma_commands_distinct();
    reveal_strlit("x");
    reveal_strlit("y");
    reveal_strlit("name");
    reveal_strlit("command");
    reveal_strlit("id");
    reveal_strlit("chunk_x");
    reveal_strlit("chunk_y");
    reveal_strlit("spawn");
    assert(("x"@).len() == 1 && ("y"@).len() == 1 && ("name"@).len() == 4);
    assert(("command"@).len() == 7 && ("id"@).len() == 2 && ("chunk_x"@).len() == 7);
    assert(("chunk_y"@).len() == 7);
    assert(("x"@)[0] != ("y"@)[0]);
    assert("command"@ != "x"@ && "command"@ != "y"@ && "command"@ != "name"@);
    assert("x"@ != "id"@ && "x"@ != "chunk_x"@ && "x"@ != "chunk_y"@ && "x"@ != "name"@);
    assert("y"@ != "id"@ && "y"@ != "chunk_x"@ && "y"@ != "chunk_y"@ && "y"@ != "name"@);
    assert("name"@ != "id"@ && "name"@ != "chunk_x"@ && "name"@ != "chunk_y"@);
    lemma_parse_format_i32(x);
    lemma_parse_format_i32(y);
    lemma_parse_format_i32(cx);
    lemma_parse_format_i32(cy);
    lemma_parse_format_u64(id);
}

/// The client's attack request holds every parameter the server reads for
/// an attack, the ability included.
pub proof fn lemma_client_attack_accepted(
    id: u64,
    cx: i32,
    cy: i32,
    target: u64,
    attack_type: Seq<char>,
    ability: Seq<char>,
    m: Map<u64, EntityView>,
)
    ensures
        action_defined(attack_params(id, cx, cy, target, attack_type, ability), m),
        attack_params(id, cx, cy, target, attack_type, ability)["command"@] == "attack"@,
{
    lemma_request_keys_distinct();
    crate::actions::lemma_commands_distinct();
    reveal_strlit("ability");
    reveal_strlit("type");
    reveal_strlit("command");
    reveal_strlit("id");
    reveal_strlit("target_id");
    reveal_strlit("chunk_x");
    reveal_strlit("chunk_y");
    reveal_strlit("attack");
    assert(("ability"@).len() == 7 && ("command"@).len() == 7 && ("type"@).len() == 4);
    assert(("id"@).len() == 2 && ("target_id"@).len() == 9 && ("chunk_x"@).len() == 7);
    assert(("chunk_y"@).len() == 7);
    assert(("ability"@)[0] != ("command"@)[0]);
    assert(("ability"@)[0] != ("chunk_x"@)[0]);
    assert(("ability"@)[0] != ("chunk_y"@)[0]);
    assert("command"@ != "ability"@ && "ability"@ != "id"@ && "ability"@ != "target_id"@);
    assert("ability"@ != "chunk_x"@ && "ability"@ != "chunk_y"@ && "ability"@ != "type"@);
    lemma_parse_format_i32(cx);
    lemma_parse_format_i32(cy);
    lemma_parse_format_u64(id);
    lemma_parse_format_u64(target);
}

/// The client's own step agrees with the server's: where the client moves
/// its player for the set direction is where the server moves the living
/// creature that the move request sent for that step is about.
pub proof fn lemma_client_step_matches_server(c: Client, e: EntityView)
    requires
        steps(c),
        e.alive,
        e.x == c.client_player.x,
        e.y == c.client_player.y,
        e.relative_x == c.client_player.relative_x,
        e.relative_y == c.client_player.relative_y,
        step_fits(e, key_direction(c.move_dir)),
    ensures
        stepped(e, key_direction(c.move_dir)).x == stepped_client(c).client_player.x,
        stepped(e, key_direction(c.move_dir)).y == stepped_client(c).client_player.y,
        stepped(e, key_direction(c.move_dir)).relative_x == stepped_client(c).client_player.relative_x,
        stepped(e, key_direction(c.move_dir)).relative_y == stepped_client(c).client_player.relative_y,
{
    crate::entities::lemma_directions_distinct();
}

// ---------------------------------------------------------------------------
// What an action leaves alone.
// ---------------------------------------------------------------------------

/// A move changes no creature of the chunk but the mover and the corpse it
/// eats: every other creature stays as it was.
pub proof fn lemma_move_leaves_others(
    p: Map<Seq<char>, Seq<char>>,
    w: WorldProperties,
    m: Map<u64, EntityView>,
    g: Seq<Seq<TileView>>,
    r: RollsView,
    pick: u64,
    k: u64,
)
    requires
        m.contains_key(k),
        k != id_param(p, "id"@),
        k != pick,
    ensures
        match move_outcome(p, w, m, g, r, pick) {
            OutcomeView::Applied(a) => a.entities.contains_key(k) && a.entities[k] == m[k],
            OutcomeView::Unchanged => true,
        },
{
}

/// An attack changes no creature of the chunk but the target's band and the
/// attacker's death check.
pub proof fn lemma_attack_leaves_others(
    p: Map<Seq<char>, Seq<char>>,
    w: WorldProperties,
    m: Map<u64, EntityView>,
    g: Seq<Seq<TileView>>,
    r: RollsView,
    k: u64,
)
    requires
        m.contains_key(k),
        k != id_param(p, "id"@),
        k != id_param(p, "target_id"@),
    ensures
        match attack_outcome(p, w, m, g, r) {
            OutcomeView::Applied(a) => a.entities.contains_key(k) && a.entities[k] == m[k] && a.tiles
                == g,
            OutcomeView::Unchanged => true,
        },
{
}

/// Gathering changes no creature but the gatherer, and no tile away from the
/// gatherer's square.
pub proof fn lemma_gathering_stays_on_the_square(
    p: Map<Seq<char>, Seq<char>>,
    w: WorldProperties,
    m: Map<u64, EntityView>,
    g: Seq<Seq<TileView>>,
    r: RollsView,
    k: u64,
    i: int,
    j: int,
)
    requires
        m.contains_key(k),
        k != id_param(p, "id"@),
        0 <= i < g.len(),
        0 <= j < g[i].len(),
        !lies_at(g[i][j], m[id_param(p, "id"@)].x as int, m[id_param(p, "id"@)].y as int),
    ensures
        match wood_outcome(p, w, m, g) {
            OutcomeView::Applied(a) => a.entities[k] == m[k] && a.tiles[i][j] == g[i][j],
            OutcomeView::Unchanged => true,
        },
        match food_outcome(p, w, m, g, r) {
            OutcomeView::Applied(a) => a.entities[k] == m[k] && a.tiles[i][j] == g[i][j],
            OutcomeView::Unchanged => true,
        },
{
}

// ---------------------------------------------------------------------------
// Life and death.
// ---------------------------------------------------------------------------

/// Whether the outcome `o` of an action keeps the alive flags as the game
/// does: the acting creature `id`, written back or carried into another
/// chunk, is dead if its band is empty; and no creature of `m` that was dead
/// is written back alive.
pub open spec fn alive_flags_kept(o: OutcomeView, m: Map<u64, EntityView>, id: u64) -> bool {
    match o {
        OutcomeView::Applied(a) => {
            &&& (a.entities.contains_key(id) && a.entities[id].units.dom().len() == 0)
                ==> !a.entities[id].alive
            &&& match a.moved {
                Some(t) => t.2.units.dom().len() == 0 ==> !t.2.alive,
                None => true,
            }
            &&& forall|k: u64|
                #![trigger a.entities[k]]
                m.contains_key(k) && !m[k].alive && a.entities.contains_key(k)
                    ==> !a.entities[k].alive
        },
        OutcomeView::Unchanged => true,
    }
}

proof fn lemma_finished_flags(
    m: Map<u64, EntityView>,
    m1: Map<u64, EntityView>,
    g: Seq<Seq<TileView>>,
    id: u64,
    add: bool,
    cxa: int,
    cya: int,
    remove: bool,
    rid: u64,
    w: WorldProperties,
    client_move: Option<(Seq<char>, i32, i32)>,
)
    requires
        forall|k: u64| #[trigger]
            m.contains_key(k) && !m[k].alive && m1.contains_key(k) ==> !m1[k].alive,
        forall|k: u64| #[trigger] m1.contains_key(k) && k != id ==> m.contains_key(k),
        m.contains_key(id) ==> m1.contains_key(id),
    ensures
        alive_flags_kept(finished(m1, g, id, add, cxa, cya, remove, rid, w, client_move), m, id),
{
    let o = finished(m1, g, id, add, cxa, cya, remove, rid, w, client_move);
    match o {
        OutcomeView::Applied(a) => {
            assert forall|k: u64|
                #![trigger a.entities[k]]
                m.contains_key(k) && !m[k].alive && a.entities.contains_key(k) implies !a.entities[
                k].alive by {
                if k != id {
                    assert(a.entities[k] == m1[k]);
                }
            }
        },
        OutcomeView::Unchanged => {},
    }
}

/// An action writes a creature whose band is empty as dead, and no command
/// but "spawn" brings a dead creature back: whatever the command, the draws
/// and the corpse picked, the acting creature is dead where its band is
/// empty, in its chunk and in the chunk it is carried into, and a creature
/// that was dead is not written back alive.
pub proof fn lemma_alive_flags(
    p: Map<Seq<char>, Seq<char>>,
    w: WorldProperties,
    m: Map<u64, EntityView>,
    g: Seq<Seq<TileView>>,
    r: RollsView,
    pick: u64,
)
    ensures
        p["command"@] != "spawn"@ ==> alive_flags_kept(
            action_outcome(p, w, m, g, r, pick),
            m,
            id_param(p, "id"@),
        ),
        p["command"@] == "spawn"@ ==> match action_outcome(p, w, m, g, r, pick) {
            OutcomeView::Applied(a) => a.entities[id_param(p, "id"@)].units.dom().len() == 0
                ==> !a.entities[id_param(p, "id"@)].alive,
            OutcomeView::Unchanged => true,
        },
{
    crate::actions::lemma_commands_distinct();
    let id = id_param(p, "id"@);
    let cmd = p["command"@];
    if cmd == "move"@ {
        if m.contains_key(id) && !crate::actions::move_blocked(p["move_dir"@], m[id], w) {
            let e3 = crate::actions::mover(p, w, m, g, r);
            assert(e3.alive == m[id].alive);
            let c = corpses(m, e3.x as int, e3.y as int);
            let e4 = EntityView { experience: (e3.experience + 10 * c.len()) as i32, ..e3 };
            let m1 = m.insert(id, e4);
            let wr = wrapped(stepped(m[id], p["move_dir"@]), crate::actions::side(w), int_param(p, "chunk_x"@), int_param(p, "chunk_y"@));
            let rid = if c.len() > 0 { pick } else { id };
            let cm = if wr.updated { Some((wr.e.name, wr.e.chunk_x, wr.e.chunk_y)) } else { None };
            lemma_finished_flags(m, m1, g, id, wr.add, wr.cxa, wr.cya, wr.add || c.len() > 0, rid, w, cm);
        }
    } else if cmd == "attack"@ {
        let tid = id_param(p, "target_id"@);
        if m.contains_key(id) && !(m.contains_key(tid) && !crate::actions::within_reach(m[id], m[tid])) {
            let m1 = if m.contains_key(tid) && p["type"@] == "auto"@ {
                m.insert(tid, EntityView { units: after_rolls(m[tid].units, r.attack), ..m[tid] })
            } else {
                m
            };
            lemma_finished_flags(m, m1, g, id, false, int_param(p, "chunk_x"@) as int, int_param(p, "chunk_y"@) as int, false, id, w, None);
        }
    } else if cmd == "gather_resource"@ {
        let e = m[id];
        let n = wooded_count(flat(g), e.x as int, e.y as int);
        let m1 = m.insert(id, crate::actions::lumbered(e, n));
        lemma_finished_flags(m, m1, felled_grid(g, e.x as int, e.y as int), id, false, int_param(p, "chunk_x"@) as int, int_param(p, "chunk_y"@) as int, false, id, w, None);
    } else if cmd == "gather_food"@ {
        let e = m[id];
        let gain = food_gain(flat(g), crate::actions::flat_rolls(r.food), e.x as int, e.y as int);
        let e1 = EntityView { resources: crate::actions::add_amount(e.resources, "food"@, gain), ..e };
        let m1 = m.insert(id, e1);
        lemma_finished_flags(m, m1, picked_grid(g, e.x as int, e.y as int), id, false, int_param(p, "chunk_x"@) as int, int_param(p, "chunk_y"@) as int, false, id, w, None);
    } else if cmd != "spawn"@ {
        lemma_finished_flags(m, m, g, id, false, int_param(p, "chunk_x"@) as int, int_param(p, "chunk_y"@) as int, false, id, w, None);
    }
}

// ---------------------------------------------------------------------------
// The client's views.
// ---------------------------------------------------------------------------

/// The views the client can show: the game, the world map, the unit list
/// and the resources.
pub open spec fn known_view(v: Seq<char>) -> bool {
    v == "game"@ || v == "map"@ || v == "unit"@ || v == "resources"@
}

/// The client always shows one of its four views: it starts in the game
/// (see `Client::default`), a key keeps the view among the four, "m", "u"
/// and "r" switch between the game and the map, the unit list and the
/// resources, a view key pressed in another side view changes nothing, and
/// a turn's movement keeps the view.
pub proof fn lemma_view_stays_known(
    c: Client,
    key: Key,
    id: u64,
    count: usize,
    sorted: Seq<EntityView>,
    n: Client,
    req: Option<Map<Seq<char>, Seq<char>>>,
    refresh: bool,
)
    requires
        known_view(c.view@),
        key_handled(c, key, id, count, sorted, n, req, refresh),
    ensures
        known_view(n.view@),
        known_view(moved_client(c).view@),
        key == Key::Char('m') ==> toggled_view(c.view@, "map"@) == Some(n.view@) || (c.view@
            != "game"@ && c.view@ != "map"@ && n.view@ == c.view@),
        key == Key::Char('u') ==> toggled_view(c.view@, "unit"@) == Some(n.view@) || (c.view@
            != "game"@ && c.view@ != "unit"@ && n.view@ == c.view@),
        key == Key::Char('r') ==> toggled_view(c.view@, "resources"@) == Some(n.view@) || (c.view@
            != "game"@ && c.view@ != "resources"@ && n.view@ == c.view@),
        (c.view@ == "game"@ && key == Key::Char('m')) ==> n.view@ == "map"@,
        (c.view@ == "map"@ && key == Key::Char('m')) ==> n.view@ == "game"@,
        (c.view@ == "game"@ && key == Key::Char('u')) ==> n.view@ == "unit"@,
        (c.view@ == "unit"@ && key == Key::Char('u')) ==> n.view@ == "game"@,
        (c.view@ == "game"@ && key == Key::Char('r')) ==> n.view@ == "resources"@,
        (c.view@ == "resources"@ && key == Key::Char('r')) ==> n.view@ == "game"@,
{
    reveal_strlit("game");
    reveal_strlit("map");
    reveal_strlit("unit");
    reveal_strlit("resources");
    assert(("game"@).len() == 4 && ("map"@).len() == 3 && ("unit"@).len() == 4);
    assert(("resources"@).len() == 9 && ("game"@)[0] != ("unit"@)[0]);
}


// ---------------------------------------------------------------------------
// A run of the client.
// ---------------------------------------------------------------------------

/// Whether client `f` keeps what a frame's bookkeeping (`begin_frame`,
/// `see_tile`, `see_entity`, `refresh_target`, `place_player`) leaves alone
/// of client `c`: the view, the direction, endless moving and the input
/// delay.
pub open spec fn controls_kept(c: Client, f: Client) -> bool {
    &&& f.view@ == c.view@
    &&& f.move_dir == c.move_dir
    &&& f.endless_move_mode == c.endless_move_mode
    &&& f.input_change == c.input_change
}

/// Whether one turn of the client's loop takes client `c` to client `n`
/// through client `k`: the frame's bookkeeping, key `key` handled (giving
/// `k`), the turn's movement, and `delta` milliseconds passing.
pub open spec fn turn(c: Client, key: Key, k: Client, delta: u64, n: Client) -> bool {
    &&& exists|
        f: Client,
        id: u64,
        count: usize,
        sorted: Seq<EntityView>,
        req: Option<Map<Seq<char>, Seq<char>>>,
        refresh: bool,
    |
        #![trigger key_handled(f, key, id, count, sorted, k, req, refresh)]
        controls_kept(c, f) && key_handled(f, key, id, count, sorted, k, req, refresh)
    &&& moved_client(k).input_change + delta <= u64::MAX
    &&& n == ticked(moved_client(k), delta)
}

/// Whether `cs` (the client at the start of each turn and after the last),
/// `keys`, `ks` (the client after each turn's key) and `deltas` make up a
/// run of the client's loop.
pub open spec fn run(cs: Seq<Client>, keys: Seq<Key>, ks: Seq<Client>, deltas: Seq<u64>) -> bool {
    &&& cs.len() == keys.len() + 1
    &&& ks.len() == keys.len()
    &&& deltas.len() == keys.len()
    &&& forall|i: int| 0 <= i < keys.len() ==> #[trigger] turn(cs[i], keys[i], ks[i], deltas[i], cs[i + 1])
}

/// The view after key `key` in view `v`: "m", "u" and "r" switch between
/// the game and the map, the unit list and the resources; nothing else
/// changes the view.
pub open spec fn view_after_key(v: Seq<char>, key: Key) -> Seq<char> {
    let other = if key == Key::Char('m') {
        Some("map"@)
    } else if key == Key::Char('u') {
        Some("unit"@)
    } else if key == Key::Char('r') {
        Some("resources"@)
    } else {
        None
    };
    match other {
        Some(o) => match toggled_view(v, o) {
            Some(w) => w,
            None => v,
        },
        None => v,
    }
}

proof fn lemma_turn_view(c: Client, key: Key, k: Client, delta: u64, n: Client)
    requires
        turn(c, key, k, delta, n),
    ensures
        n.view@ == view_after_key(c.view@, key),
        known_view(c.view@) ==> known_view(n.view@),
{
    let (f, id, count, sorted, req, refresh) = choose|
        f: Client,
        id: u64,
        count: usize,
        sorted: Seq<EntityView>,
        req: Option<Map<Seq<char>, Seq<char>>>,
        refresh: bool,
    |
        #![trigger key_handled(f, key, id, count, sorted, k, req, refresh)]
        controls_kept(c, f) && key_handled(f, key, id, count, sorted, k, req, refresh);
    assert(n.view@ == k.view@);
    if known_view(c.view@) {
        lemma_view_stays_known(f, key, id, count, sorted, k, req, refresh);
    }
}

/// The client shows one of its four views all through a run that starts in
/// one of them (as `Client::default` does, in the game): each turn's view
/// is the one its key switches to, "m", "u" and "r" switching between the
/// game and the map, the unit list and the resources, and nothing else
/// changing it.
pub proof fn lemma_run_views_known(cs: Seq<Client>, keys: Seq<Key>, ks: Seq<Client>, deltas: Seq<u64>)
    requires
        run(cs, keys, ks, deltas),
        known_view(cs[0].view@),
    ensures
        forall|i: int| 0 <= i < keys.len() ==> #[trigger] cs[i + 1].view@ == view_after_key(cs[i].view@, keys[i]),
        forall|i: int| 0 <= i < cs.len() ==> known_view(#[trigger] cs[i].view@),
    decreases keys.len(),
{
    if keys.len() > 0 {
        let l = (keys.len() - 1) as int;
        let cs1 = cs.take(l + 1);
        assert(run(cs1, keys.take(l), ks.take(l), deltas.take(l))) by {
            assert forall|i: int| 0 <= i < l implies #[trigger] turn(
                cs1[i],
                keys.take(l)[i],
                ks.take(l)[i],
                deltas.take(l)[i],
                cs1[i + 1],
            ) by {
                assert(turn(cs[i], keys[i], ks[i], deltas[i], cs[i + 1]));
            }
        }
        lemma_run_views_known(cs1, keys.take(l), ks.take(l), deltas.take(l));
        assert(known_view(cs1[l].view@) && cs1[l] == cs[l]);
        assert(turn(cs[l], keys[l], ks[l], deltas[l], cs[l + 1]));
        lemma_turn_view(cs[l], keys[l], ks[l], deltas[l], cs[l + 1]);
        assert forall|i: int| 0 <= i < keys.len() implies #[trigger] cs[i + 1].view@ == view_after_key(
            cs[i].view@,
            keys[i],
        ) by {
            if i < l {
                assert(cs1[i + 1] == cs[i + 1] && cs1[i] == cs[i]);
                assert(cs1[i + 1].view@ == view_after_key(cs1[i].view@, keys.take(l)[i]));
            }
        }
        assert forall|i: int| 0 <= i < cs.len() implies known_view(#[trigger] cs[i].view@) by {
            if i <= l {
                assert(cs1[i] == cs[i]);
                assert(known_view(cs1[i].view@));
            }
        }
    }
}

/// The direction after key `key` with direction `d` set: a movement key sets
/// its own; any other key keeps `d`.
pub open spec fn dir_after_key(d: char, key: Key) -> char {
    match key {
        Key::Char(ch) => if is_move_key(ch) {
            ch
        } else {
            d
        },
        _ => d,
    }
}

/// The milliseconds that pass from the start of turn `i` to the start of
/// turn `j`, turn `t` taking `deltas[t]`.
pub open spec fn elapsed(deltas: Seq<u64>, i: int, j: int) -> int
    decreases j - i,
{
    if j <= i {
        0
    } else {
        elapsed(deltas, i, j - 1) + deltas[j - 1]
    }
}

proof fn lemma_turn_delay(c: Client, key: Key, k: Client, delta: u64, n: Client)
    requires
        turn(c, key, k, delta, n),
    ensures
        k.input_change == c.input_change,
        k.move_dir == dir_after_key(c.move_dir, key),
        k.endless_move_mode == (if key == Key::Char('t') {
            !c.endless_move_mode
        } else {
            c.endless_move_mode
        }),
        n.input_change == (if steps(k) {
            0
        } else {
            c.input_change as int
        }) + delta,
        !k.endless_move_mode ==> n.move_dir == '?',
{
    let (f, id, count, sorted, req, refresh) = choose|
        f: Client,
        id: u64,
        count: usize,
        sorted: Seq<EntityView>,
        req: Option<Map<Seq<char>, Seq<char>>>,
        refresh: bool,
    |
        #![trigger key_handled(f, key, id, count, sorted, k, req, refresh)]
        controls_kept(c, f) && key_handled(f, key, id, count, sorted, k, req, refresh);
    if steps(k) {
        assert(stepped_client(k).input_change == 0);
        assert(stepped_client(k).endless_move_mode == k.endless_move_mode);
    }
}

proof fn lemma_delay_since_step(
    cs: Seq<Client>,
    keys: Seq<Key>,
    ks: Seq<Client>,
    deltas: Seq<u64>,
    i: int,
    t: int,
)
    requires
        run(cs, keys, ks, deltas),
        0 <= i < t <= keys.len(),
        steps(ks[i]),
    ensures
        cs[t].input_change <= elapsed(deltas, i, t),
    decreases t - i,
{
    let u = t - 1;
    assert(turn(cs[u], keys[u], ks[u], deltas[u], cs[u + 1]));
    assert(cs[u + 1] == cs[t]);
    lemma_turn_delay(cs[u], keys[u], ks[u], deltas[u], cs[t]);
    assert(elapsed(deltas, i, i) == 0);
    if t > i + 1 {
        lemma_delay_since_step(cs, keys, ks, deltas, i, t - 1);
    }
}

/// The player steps at most once every `INPUT_DELAY` milliseconds over a
/// run of the client's loop: a turn sends a move exactly when a direction
/// is set (by its key, or kept from before) and the input delay has passed;
/// the delay then starts over before the turn's milliseconds count; the
/// direction is forgotten at the turn's end unless moving endlessly; and of
/// two turns that step, more than `INPUT_DELAY` milliseconds pass from the
/// start of the first to the start of the second.
pub proof fn lemma_run_move_delay(cs: Seq<Client>, keys: Seq<Key>, ks: Seq<Client>, deltas: Seq<u64>)
    requires
        run(cs, keys, ks, deltas),
    ensures
        forall|i: int|
            0 <= i < keys.len() ==> #[trigger] ks[i].move_dir == dir_after_key(cs[i].move_dir, keys[i]),
        forall|i: int|
            0 <= i < keys.len() ==> (#[trigger] steps(ks[i]) <==> (is_move_key(ks[i].move_dir)
                && cs[i].input_change > INPUT_DELAY)),
        forall|i: int|
            0 <= i < keys.len() ==> #[trigger] cs[i + 1].input_change == (if steps(ks[i]) {
                0
            } else {
                cs[i].input_change as int
            }) + deltas[i],
        forall|i: int|
            0 <= i < keys.len() && !ks[i].endless_move_mode ==> #[trigger] cs[i + 1].move_dir == '?',
        forall|i: int, j: int|
            0 <= i < j < keys.len() && #[trigger] steps(ks[i]) && #[trigger] steps(ks[j])
                ==> elapsed(deltas, i, j) > INPUT_DELAY,
{
    assert forall|i: int| #![trigger ks[i]] 0 <= i < keys.len() implies {
        &&& ks[i].move_dir == dir_after_key(cs[i].move_dir, keys[i])
        &&& ks[i].input_change == cs[i].input_change
        &&& cs[i + 1].input_change == (if steps(ks[i]) {
            0
        } else {
            cs[i].input_change as int
        }) + deltas[i]
        &&& !ks[i].endless_move_mode ==> cs[i + 1].move_dir == '?'
    } by {
        assert(turn(cs[i], keys[i], ks[i], deltas[i], cs[i + 1]));
        lemma_turn_delay(cs[i], keys[i], ks[i], deltas[i], cs[i + 1]);
    }
    assert forall|i: int, j: int|
        0 <= i < j < keys.len() && #[trigger] steps(ks[i]) && #[trigger] steps(ks[j]) implies elapsed(
        deltas,
        i,
        j,
    ) > INPUT_DELAY by {
        lemma_delay_since_step(cs, keys, ks, deltas, i, j);
        assert(ks[j].move_dir == dir_after_key(cs[j].move_dir, keys[j]));
    }
}

// ---------------------------------------------------------------------------
// Generating chunks.
// ---------------------------------------------------------------------------

/// Whether biome `m` is met more often among the samples than any other.
pub open spec fn sole_most_met(samples: Seq<TileSample>, m: int) -> bool {
    &&& 0 <= m < 6
    &&& forall|b: int| 0 <= b < 6 && b != m ==> #[trigger] biome_count(samples, b) < biome_count(samples, m)
}

/// Every generated tile stands where its row `i` and column `j` put it (x =
/// chunk x * side + j, y = chunk y * side + i), has no trees and has not been
/// gathered, and its ground follows the first biome noise of its sample,
/// taken row by row, that is low: dunes give "dune_sand", ash desert "ash", salt desert
/// "salt", ice desert "ice", rock desert "gravel", and none of them "sand";
/// the six grounds differ from each other.
pub proof fn lemma_chunk_tiles(
    cs: u32,
    x: i32,
    y: i32,
    samples: Seq<TileSample>,
    t: Tiles,
    e: Entities,
    i: int,
    j: int,
)
    requires
        chunk_built(cs, x, y, samples, t, e),
        0 <= i < cs,
        0 <= j < cs,
    ensures
        ({
            let s = samples[i * cs + j];
            let tile = t.tiles@[i]@[j];
            let ground = tile.tile_type@;
            &&& tile.x == x * cs + j && tile.y == y * cs + i
            &&& tile.relative_x == j && tile.relative_y == i
            &&& tile.chunk_x == x && tile.chunk_y == y
            &&& tile.h_bits == s.h_bits
            &&& !tile.has_trees && !tile.gathered
            &&& s.dunes ==> ground == "dune_sand"@
            &&& (!s.dunes && s.ash_desert) ==> ground == "ash"@
            &&& (!s.dunes && !s.ash_desert && s.salt_desert) ==> ground == "salt"@
            &&& (!s.dunes && !s.ash_desert && !s.salt_desert && s.ice_desert) ==> ground == "ice"@
            &&& (!s.dunes && !s.ash_desert && !s.salt_desert && !s.ice_desert && s.rock_desert)
                ==> ground == "gravel"@
            &&& (!s.dunes && !s.ash_desert && !s.salt_desert && !s.ice_desert && !s.rock_desert)
                ==> ground == "sand"@
        }),
        distinct_texts(seq!["dune_sand"@, "ash"@, "salt"@, "ice"@, "gravel"@, "sand"@]),
{
    assert(is_generated_tile(
        t.tiles@[i]@[j],
        cs as int,
        x as int,
        y as int,
        i,
        j,
        samples[i * cs + j],
    ));
    assert(j + x * cs == x * cs + j && i + y * cs == y * cs + i);
    lemma_grounds_distinct();
}

/// Whether no two of the texts are equal.
pub open spec fn distinct_texts(v: Seq<Seq<char>>) -> bool {
    forall|a: int, b: int| 0 <= a < b < v.len() ==> #[trigger] v[a] != #[trigger] v[b]
}

proof fn lemma_grounds_distinct()
    ensures
        distinct_texts(seq!["dune_sand"@, "ash"@, "salt"@, "ice"@, "gravel"@, "sand"@]),
{
    reveal_strlit("dune_sand");
    reveal_strlit("ash");
    reveal_strlit("salt");
    reveal_strlit("ice");
    reveal_strlit("gravel");
    reveal_strlit("sand");
    let v = seq!["dune_sand"@, "ash"@, "salt"@, "ice"@, "gravel"@, "sand"@];
    assert(v[0].len() == 9 && v[1].len() == 3 && v[2].len() == 4 && v[3].len() == 3);
    assert(v[4].len() == 6 && v[5].len() == 4);
    assert(v[1][0] != v[3][0] && v[2][2] != v[5][2]);
    assert forall|a: int, b: int| 0 <= a < b < v.len() implies #[trigger] v[a] != #[trigger] v[b] by {
        if a == 1 && b == 3 {
            assert(v[a][0] != v[b][0]);
        } else if a == 2 && b == 5 {
            assert(v[a][2] != v[b][2]);
        } else {
            assert(v[a].len() != v[b].len());
        }
    }
}

/// The name of the first biome whose noise is low in sample `s`, or barren
/// land where none is.
pub open spec fn first_low_biome(s: TileSample) -> Seq<char> {
    if s.dunes {
        "dunes"@
    } else if s.ash_desert {
        "ash_desert"@
    } else if s.salt_desert {
        "salt_desert"@
    } else if s.ice_desert {
        "ice_desert"@
    } else if s.rock_desert {
        "rock_desert"@
    } else {
        "barren_land"@
    }
}

proof fn lemma_biome_names(s: TileSample)
    ensures
        biome_name(biome_of(s)) == first_low_biome(s),
        forall|a: int, b: int| 0 <= a < 6 && 0 <= b < 6 && a != b ==> #[trigger] biome_name(a) != #[trigger] biome_name(b),
{
    reveal_strlit("dunes");
    reveal_strlit("ash_desert");
    reveal_strlit("salt_desert");
    reveal_strlit("ice_desert");
    reveal_strlit("rock_desert");
    reveal_strlit("barren_land");
    assert forall|a: int, b: int| 0 <= a < 6 && 0 <= b < 6 && a != b implies #[trigger] biome_name(a) != #[trigger] biome_name(b) by {
        if biome_name(a).len() == biome_name(b).len() {
            assert(biome_name(a)[0] != biome_name(b)[0]);
        }
    }
}

proof fn lemma_count_alike(samples: Seq<TileSample>, b0: int, b: int)
    requires
        forall|k: int| 0 <= k < samples.len() ==> biome_of(#[trigger] samples[k]) == b0,
    ensures
        biome_count(samples, b) == if b == b0 {
            samples.len()
        } else {
            0
        },
    decreases samples.len(),
{
    if samples.len() > 0 {
        let d = samples.drop_last();
        assert forall|k: int| 0 <= k < d.len() implies biome_of(#[trigger] d[k]) == b0 by {
            assert(d[k] == samples[k]);
        }
        lemma_count_alike(d, b0, b);
        assert(biome_of(samples[samples.len() - 1]) == b0);
    }
}

/// A chunk whose samples all have the same first low biome noise has that
/// biome: all ice desert samples make an "ice_desert" chunk, and so on.
pub proof fn lemma_chunk_biome_of_alike_samples(
    cs: u32,
    x: i32,
    y: i32,
    samples: Seq<TileSample>,
    t: Tiles,
    e: Entities,
    name: Seq<char>,
)
    requires
        chunk_built(cs, x, y, samples, t, e),
        samples.len() > 0,
        forall|k: int| 0 <= k < samples.len() ==> first_low_biome(#[trigger] samples[k]) == name,
    ensures
        t.biome@ == name,
{
    let b0 = biome_of(samples[0]);
    lemma_biome_names(samples[0]);
    assert forall|k: int| 0 <= k < samples.len() implies biome_of(#[trigger] samples[k]) == b0 by {
        lemma_biome_names(samples[k]);
        assert(biome_name(biome_of(samples[k])) == biome_name(b0));
    }
    let b = choose|b: int|
        0 <= b < 6 && t.biome@ == biome_name(b) && forall|b2: int|
            0 <= b2 < 6 ==> biome_count(samples, b2) <= #[trigger] biome_count(samples, b);
    lemma_count_alike(samples, b0, b);
    lemma_count_alike(samples, b0, b0);
    assert(biome_count(samples, b0) <= biome_count(samples, b));
}

/// Chunk generation is deterministic: two chunks built (by `build_chunk`)
/// with the same side, at the same coordinates, from the same tile samples
/// have the same tiles, every field of every tile alike, and the same
/// creatures (none); their biomes agree whenever one biome alone is met
/// most often among the samples.
pub proof fn lemma_chunk_deterministic(
    cs: u32,
    x: i32,
    y: i32,
    samples: Seq<TileSample>,
    t1: Tiles,
    e1: Entities,
    t2: Tiles,
    e2: Entities,
)
    requires
        chunk_built(cs, x, y, samples, t1, e1),
        chunk_built(cs, x, y, samples, t2, e2),
    ensures
        t1.x == t2.x && t1.y == t2.y,
        grid_view(t1.tiles@) == grid_view(t2.tiles@),
        e1.entities@ == e2.entities@ && e1.x == e2.x && e1.y == e2.y,
        (exists|m: int| sole_most_met(samples, m)) ==> t1.biome@ == t2.biome@,
{
    let g1 = grid_view(t1.tiles@);
    let g2 = grid_view(t2.tiles@);
    assert forall|i: int| 0 <= i < cs implies #[trigger] g1[i] == g2[i] by {
        assert(t1.tiles@[i]@.len() == cs && t2.tiles@[i]@.len() == cs);
        assert forall|j: int| 0 <= j < cs implies #[trigger] g1[i][j] == g2[i][j] by {
            let s = samples[i * cs + j];
            assert(is_generated_tile(t1.tiles@[i]@[j], cs as int, x as int, y as int, i, j, s));
            assert(is_generated_tile(t2.tiles@[i]@[j], cs as int, x as int, y as int, i, j, s));
        }
        assert(g1[i] =~= g2[i]);
    }
    assert(g1 =~= g2);
    if exists|m: int| sole_most_met(samples, m) {
        let m = choose|m: int| sole_most_met(samples, m);
        let b1 = choose|b: int|
            0 <= b < 6 && t1.biome@ == biome_name(b) && forall|b2: int|
                0 <= b2 < 6 ==> biome_count(samples, b2) <= #[trigger] biome_count(samples, b);
        let b2 = choose|b: int|
            0 <= b < 6 && t2.biome@ == biome_name(b) && forall|b3: int|
                0 <= b3 < 6 ==> biome_count(samples, b3) <= #[trigger] biome_count(samples, b);
        assert(biome_count(samples, m) <= biome_count(samples, b1));
        assert(biome_count(samples, m) <= biome_count(samples, b2));
        assert(b1 == m && b2 == m);
    }
}

// ---------------------------------------------------------------------------
// What single requests and keys do.
// ---------------------------------------------------------------------------

/// The digit keys 1 to 5 fire the abilities of their own slots: once the
/// special attack's cooldown has passed, key `ch` sends a special attack
/// on the target with the ability in slot `ch` ("4" for key '4'), and the
/// cooldown starts over.
pub proof fn lemma_digit_key_fires_its_slot(
    c: Client,
    ch: char,
    id: u64,
    count: usize,
    sorted: Seq<EntityView>,
    n: Client,
    req: Option<Map<Seq<char>, Seq<char>>>,
    refresh: bool,
)
    requires
        '1' <= ch <= '5',
        c.client_player.special_attack_change > c.client_player.special_attack_time,
        key_handled(c, Key::Char(ch), id, count, sorted, n, req, refresh),
    ensures
        req == Some(
            attack_params(
                id,
                c.client_player.chunk_x,
                c.client_player.chunk_y,
                c.target.id,
                "special"@,
                c.client_player.stats@.abilities[seq![ch]],
            ),
        ),
        n.client_player.special_attack_change == 0,
        !refresh,
{
    reveal_strlit("1");
    reveal_strlit("2");
    reveal_strlit("3");
    reveal_strlit("4");
    reveal_strlit("5");
    assert(ch == '1' || ch == '2' || ch == '3' || ch == '4' || ch == '5');
    if ch == '1' {
        assert("1"@ =~= seq![ch]);
    } else if ch == '2' {
        assert("2"@ =~= seq![ch]);
    } else if ch == '3' {
        assert("3"@ =~= seq![ch]);
    } else if ch == '4' {
        assert("4"@ =~= seq![ch]);
    } else {
        assert("5"@ =~= seq![ch]);
    }
}

/// An attack reaches exactly two squares: with attacker and target in the
/// chunk, the attack goes on if and only if the target's squared distance
/// from the attacker is at most 4 (two squares in a straight line is within
/// reach); an auto attack that goes on takes from each of the target's
/// units its roll.
pub proof fn lemma_attack_reaches_two_squares(
    p: Map<Seq<char>, Seq<char>>,
    w: WorldProperties,
    m: Map<u64, EntityView>,
    g: Seq<Seq<TileView>>,
    r: RollsView,
    pick: u64,
)
    requires
        p["command"@] == "attack"@,
        m.contains_key(id_param(p, "id"@)),
        m.contains_key(id_param(p, "target_id"@)),
    ensures
        ({
            let a = m[id_param(p, "id"@)];
            let b = m[id_param(p, "target_id"@)];
            let d = (a.x - b.x) * (a.x - b.x) + (a.y - b.y) * (a.y - b.y);
            &&& (action_outcome(p, w, m, g, r, pick) is Applied) <==> d <= 4
            &&& (d <= 4 && p["type"@] == "auto"@) ==> match action_outcome(p, w, m, g, r, pick) {
                OutcomeView::Applied(o) => o.entities.contains_key(id_param(p, "target_id"@))
                    && o.entities[id_param(p, "target_id"@)].units == after_rolls(b.units, r.attack),
                OutcomeView::Unchanged => false,
            }
        }),
{
    crate::entities::lemma_directions_distinct();
    reveal_strlit("spawn");
    reveal_strlit("move");
    reveal_strlit("attack");
    assert(("attack"@).len() == 6 && ("spawn"@).len() == 5 && ("move"@).len() == 4);
}

/// A spawned player stands where it was asked to: at square ("x", "y") of
/// the request's chunk, its square in the world agreeing with its chunk and
/// its square within the chunk (x = chunk_x * chunk_size + relative_x, and
/// likewise for y).
pub proof fn lemma_spawn_placed(
    p: Map<Seq<char>, Seq<char>>,
    w: WorldProperties,
    m: Map<u64, EntityView>,
    g: Seq<Seq<TileView>>,
    r: RollsView,
    pick: u64,
)
    requires
        p["command"@] == "spawn"@,
        w.chunk_size <= i32::MAX,
        i32::MIN <= w.chunk_size * int_param(p, "chunk_x"@) + int_param(p, "x"@) <= i32::MAX,
        i32::MIN <= w.chunk_size * int_param(p, "chunk_y"@) + int_param(p, "y"@) <= i32::MAX,
    ensures
        match action_outcome(p, w, m, g, r, pick) {
            OutcomeView::Applied(o) => {
                let e = o.entities[id_param(p, "id"@)];
                &&& o.entities.contains_key(id_param(p, "id"@))
                &&& e.chunk_x == int_param(p, "chunk_x"@)
                &&& e.chunk_y == int_param(p, "chunk_y"@)
                &&& e.relative_x == int_param(p, "x"@)
                &&& e.relative_y == int_param(p, "y"@)
                &&& e.x == e.chunk_x * w.chunk_size + e.relative_x
                &&& e.y == e.chunk_y * w.chunk_size + e.relative_y
            },
            OutcomeView::Unchanged => false,
        },
{
    let cx = int_param(p, "chunk_x"@);
    let cy = int_param(p, "chunk_y"@);
    let id = id_param(p, "id"@);
    assert(crate::actions::side(w) == w.chunk_size);
    let e = crate::actions::spawned(p, w, cx, cy, id, r.spawn_units);
    assert(e.x == w.chunk_size * cx + int_param(p, "x"@));
    assert(e.y == w.chunk_size * cy + int_param(p, "y"@));
    assert(cx * w.chunk_size == w.chunk_size * cx) by (nonlinear_arith);
    assert(cy * w.chunk_size == w.chunk_size * cy) by (nonlinear_arith);
    assert(action_outcome(p, w, m, g, r, pick) == crate::actions::spawn_outcome(p, w, m, g, r));
}

/// Whether `dir` is one of the four direction words.
pub open spec fn four_ways(dir: Seq<char>) -> bool {
    dir == "up"@ || dir == "down"@ || dir == "left"@ || dir == "right"@
}

/// A move is refused only at the world's edge: up from the top row of the
/// top chunks, down from the bottom row of the bottom chunks, left from the
/// left column of the left chunks (chunk_x 0 and relative_x 0), and right
/// from the last column of chunks where the creature stands in its chunk's
/// bottom row (the row is what the server tests there); every other move of
/// a creature in the chunk goes on.
pub proof fn lemma_move_refused_only_at_edge(
    p: Map<Seq<char>, Seq<char>>,
    w: WorldProperties,
    m: Map<u64, EntityView>,
    g: Seq<Seq<TileView>>,
    r: RollsView,
    pick: u64,
)
    requires
        p["command"@] == "move"@,
        four_ways(p["move_dir"@]),
        m.contains_key(id_param(p, "id"@)),
        w.chunk_size <= i32::MAX,
        w.world_width <= i32::MAX,
        w.world_height <= i32::MAX,
    ensures
        ({
            let e = m[id_param(p, "id"@)];
            let dir = p["move_dir"@];
            let edge = {
                ||| dir == "up"@ && e.chunk_y == 0 && e.relative_y == 0
                ||| dir == "down"@ && e.chunk_y == w.world_height - 1 && e.relative_y == w.chunk_size - 1
                ||| dir == "left"@ && e.chunk_x == 0 && e.relative_x == 0
                ||| dir == "right"@ && e.chunk_x == w.world_width - 1 && e.relative_y == w.chunk_size - 1
            };
            (action_outcome(p, w, m, g, r, pick) is Unchanged) <==> edge
        }),
{
    crate::entities::lemma_directions_distinct();
    reveal_strlit("spawn");
    reveal_strlit("move");
    assert(("spawn"@).len() == 5 && ("move"@).len() == 4);
    assert(crate::actions::side(w) == w.chunk_size);
    assert(crate::actions::width(w) == w.world_width);
    assert(crate::actions::height(w) == w.world_height);
}

/// Whether `n` is creature `e` after one square's step in `dir`, placed in
/// chunks of side `cs`: leaving its chunk on one side, it stands in the
/// neighbouring chunk on the other.
pub open spec fn took_step(e: EntityView, n: EntityView, dir: Seq<char>, cs: int) -> bool {
    &&& n.x == e.x + (if dir == "left"@ {
        -1int
    } else if dir == "right"@ {
        1int
    } else {
        0int
    })
    &&& n.y == e.y + (if dir == "up"@ {
        -1int
    } else if dir == "down"@ {
        1int
    } else {
        0int
    })
    &&& placed(n, cs)
    &&& (dir == "left"@ && e.relative_x == 0) ==> n.chunk_x == e.chunk_x - 1 && n.relative_x == cs - 1
    &&& (dir == "right"@ && e.relative_x == cs - 1) ==> n.chunk_x == e.chunk_x + 1 && n.relative_x == 0
    &&& (dir == "up"@ && e.relative_y == 0) ==> n.chunk_y == e.chunk_y - 1 && n.relative_y == cs - 1
    &&& (dir == "down"@ && e.relative_y == cs - 1) ==> n.chunk_y == e.chunk_y + 1 && n.relative_y == 0
}

/// Whether a step in `dir` takes `e` out of its chunk of side `cs`.
pub open spec fn leaves_chunk(e: EntityView, dir: Seq<char>, cs: int) -> bool {
    ||| dir == "left"@ && e.relative_x == 0
    ||| dir == "right"@ && e.relative_x == cs - 1
    ||| dir == "up"@ && e.relative_y == 0
    ||| dir == "down"@ && e.relative_y == cs - 1
}

/// A move away from the world's edge goes on and takes a living, placed
/// creature of the chunk one square in its direction: within its chunk it
/// stays in the chunk's creatures; leaving its chunk (a step left from the
/// left column of chunk cx lands in the last column of chunk cx - 1, and
/// likewise for the other directions) it is handed to the neighbouring
/// chunk, where that chunk lies in the world.
pub proof fn lemma_move_carries(
    p: Map<Seq<char>, Seq<char>>,
    w: WorldProperties,
    m: Map<u64, EntityView>,
    g: Seq<Seq<TileView>>,
    r: RollsView,
    pick: u64,
)
    requires
        p["command"@] == "move"@,
        four_ways(p["move_dir"@]),
        m.contains_key(id_param(p, "id"@)),
        m[id_param(p, "id"@)].alive,
        m[id_param(p, "id"@)].chunk_x == int_param(p, "chunk_x"@),
        m[id_param(p, "id"@)].chunk_y == int_param(p, "chunk_y"@),
        w.chunk_size <= i32::MAX,
        w.world_width <= i32::MAX,
        w.world_height <= i32::MAX,
        placed(m[id_param(p, "id"@)], w.chunk_size as int),
        i32::MIN < m[id_param(p, "id"@)].x < i32::MAX,
        i32::MIN < m[id_param(p, "id"@)].y < i32::MAX,
        i32::MIN < int_param(p, "chunk_x"@) < i32::MAX,
        i32::MIN < int_param(p, "chunk_y"@) < i32::MAX,
        !({
            let e = m[id_param(p, "id"@)];
            let dir = p["move_dir"@];
            ||| dir == "up"@ && e.chunk_y == 0 && e.relative_y == 0
            ||| dir == "down"@ && e.chunk_y == w.world_height - 1 && e.relative_y == w.chunk_size - 1
            ||| dir == "left"@ && e.chunk_x == 0 && e.relative_x == 0
            ||| dir == "right"@ && e.chunk_x == w.world_width - 1 && e.relative_y == w.chunk_size - 1
        }),
        pick_ok(p, w, m, g, r, pick),
    ensures
        match action_outcome(p, w, m, g, r, pick) {
            OutcomeView::Applied(o) => {
                let id = id_param(p, "id"@);
                let e = m[id];
                let dir = p["move_dir"@];
                let cs = w.chunk_size as int;
                let ncx = e.chunk_x + (if dir == "left"@ && e.relative_x == 0 {
                    -1int
                } else if dir == "right"@ && e.relative_x == cs - 1 {
                    1int
                } else {
                    0int
                });
                let ncy = e.chunk_y + (if dir == "up"@ && e.relative_y == 0 {
                    -1int
                } else if dir == "down"@ && e.relative_y == cs - 1 {
                    1int
                } else {
                    0int
                });
                &&& o.entities.contains_key(id) ==> took_step(e, o.entities[id], dir, cs)
                &&& !leaves_chunk(e, dir, cs) ==> o.entities.contains_key(id)
                &&& (leaves_chunk(e, dir, cs) && 0 <= ncx <= w.world_width && 0 <= ncy
                    <= w.world_height) ==> match o.moved {
                    Some(mv) => mv.0 == ncx && mv.1 == ncy && took_step(e, mv.2, dir, cs),
                    None => false,
                }
            },
            OutcomeView::Unchanged => false,
        },
{
    crate::entities::lemma_directions_distinct();
    reveal_strlit("spawn");
    reveal_strlit("move");
    assert(("spawn"@).len() == 5 && ("move"@).len() == 4);
    let id = id_param(p, "id"@);
    let e = m[id];
    let dir = p["move_dir"@];
    let cs = w.chunk_size as i32;
    assert(crate::actions::side(w) == cs);
    assert(crate::actions::width(w) == w.world_width);
    assert(crate::actions::height(w) == w.world_height);
    lemma_move_keeps_placement(e, dir, cs);
    let e3 = crate::actions::mover(p, w, m, g, r);
    let ws = wrapped(stepped(e, dir), cs, e.chunk_x, e.chunk_y);
    let wr = ws.e;
    assert(e3.x == wr.x && e3.y == wr.y && e3.chunk_x == wr.chunk_x && e3.chunk_y == wr.chunk_y);
    assert(e3.relative_x == wr.relative_x && e3.relative_y == wr.relative_y);
    assert(took_step(e, wr, dir, cs as int));
    assert(ws.add == leaves_chunk(e, dir, cs as int));
    let c = corpses(m, e3.x as int, e3.y as int);
    if c.len() > 0 {
        assert(c.contains(pick));
        assert(!m[pick].alive);
        assert(pick != id);
    }
}

// ---------------------------------------------------------------------------
// Gathering food twice.
// ---------------------------------------------------------------------------

/// Food is gathered once at the server: after a "gather_food" request, a
/// second one from the same creature, on the chunk as the first left it and
/// with any draws, leaves the creature's resources as they are.
pub proof fn lemma_food_request_once(
    p: Map<Seq<char>, Seq<char>>,
    w: WorldProperties,
    m: Map<u64, EntityView>,
    g: Seq<Seq<TileView>>,
    r: RollsView,
    r2: RollsView,
)
    requires
        m.contains_key(id_param(p, "id"@)),
    ensures
        match food_outcome(p, w, m, g, r) {
            OutcomeView::Applied(a) => match food_outcome(p, w, a.entities, a.tiles, r2) {
                OutcomeView::Applied(b) => b.entities[id_param(p, "id"@)].resources
                    == a.entities[id_param(p, "id"@)].resources,
                OutcomeView::Unchanged => true,
            },
            OutcomeView::Unchanged => true,
        },
{
    let id = id_param(p, "id"@);
    let e = m[id];
    let x = e.x as int;
    let y = e.y as int;
    lemma_food_gathered_once(g, crate::actions::flat_rolls(r2.food), x, y);
    match food_outcome(p, w, m, g, r) {
        OutcomeView::Applied(a) => {
            let e2 = a.entities[id];
            assert(e2.x == e.x && e2.y == e.y);
            assert(a.tiles == picked_grid(g, x, y));
            let res = e2.resources;
            assert(crate::actions::add_amount(res, "food"@, 0) =~= res);
        },
        OutcomeView::Unchanged => {},
    }
}

} // verus!
