use crate::classes::{plain_stats, CharacterStats};
use crate::draw::{EDGE_X, EDGE_Y, SCREEN_HEIGHT, SCREEN_WIDTH};
use crate::entities::{drawn_band, fresh_entity, units_view, Entity, GenerateDefault, Unit};
use crate::names::{name_source_ok, texts};
use crate::queue::{move_request, PostData};
use crate::random::random_u64;
use crate::strmap::{str_eq, StrMap};
use crate::text::{int_text, nat_text};
use crate::tiles::{default_tile, Tile, WorldMapTile};
use crate::world::{Tiles, WorldProperties};
use std::collections::hash_map::DefaultHasher;
use std::collections::HashMap;
use std::hash::Hasher;
use vstd::prelude::*;
use vstd::std_specs::hash::DefaultHasherAdditionalSpecFns;
use vstd::string::StringExecFns;
use vstd::utf8::encode_utf8;

verus! {

broadcast use vstd::std_specs::hash::group_hash_axioms;

/// Milliseconds the client waits between two steps of the player.
pub const INPUT_DELAY: u64 = 500;

/// What the client knows of its own player.
pub struct ClientPlayer {
    pub x: i32,
    pub y: i32,
    pub relative_x: i32,
    pub relative_y: i32,
    pub chunk_x: i32,
    pub chunk_y: i32,
    pub render_x: i32,
    pub render_y: i32,
    pub level: i32,
    pub experience: i32,
    pub hp: i32,
    pub energy: i32,
    pub autoattack_change: u64,
    pub autoattack_time: u64,
    pub special_attack_change: u64,
    pub special_attack_time: u64,
    pub stats: CharacterStats,
    pub units: HashMap<u64, Unit>,
    pub resources: StrMap<i32>,
}

/// The square of the world shown in the top left corner of the screen.
pub struct Camera {
    pub x: i32,
    pub y: i32,
}

/// The state of the text client: what it shows, what it has loaded and what
/// the player is doing.
pub struct Client {
    pub running: bool,
    pub move_dir: char,
    pub attacking: bool,
    pub endless_move_mode: bool,
    pub input_change: u64,
    pub render_x: i32,
    pub render_y: i32,
    pub target: Entity,
    pub has_target: bool,
    pub camera: Camera,
    pub current_chunk_tiles: Vec<Vec<Tiles>>,
    pub current_world_map: Vec<Vec<WorldMapTile>>,
    pub first_loop: bool,
    pub target_index: usize,
    pub view: String,
    pub player_inited: bool,
    pub client_player: ClientPlayer,
    pub current_world_properties: WorldProperties,
    pub standing_tile: Tile,
    pub standing_entity: Entity,
    pub graphics_mode: String,
}

/// Whether `p` is the player a client starts with: at square (2, 2) of
/// chunk (0, 0), full of health and energy, with plain statistics, the band
/// `units` and no resources.
pub open spec fn fresh_player(p: ClientPlayer, units: Map<u64, Unit>) -> bool {
    &&& p.x == 2 && p.y == 2
    &&& p.relative_x == 2 && p.relative_y == 2
    &&& p.chunk_x == 0 && p.chunk_y == 0
    &&& p.render_x == 2 && p.render_y == 2
    &&& p.hp == 100 && p.energy == 100
    &&& p.experience == 0 && p.level == 1
    &&& p.autoattack_time == 1000 && p.autoattack_change == 0
    &&& p.special_attack_time == 1000 && p.special_attack_change == 1000
    &&& p.stats@ == plain_stats()
    &&& p.units@ == units
    &&& p.resources@ == Map::<Seq<char>, i32>::empty()
}

/// Whether `c` is a client as it starts: running, showing the game, nothing
/// loaded, no target, the camera at (0, 0).
pub open spec fn fresh_client(c: Client) -> bool {
    &&& c.current_chunk_tiles@.len() == 0
    &&& c.current_world_map@.len() == 0
    &&& c.first_loop
    &&& c.target_index == 0
    &&& c.view@ == "game"@
    &&& !c.player_inited
    &&& c.running
    &&& c.move_dir == '?'
    &&& !c.attacking
    &&& !c.endless_move_mode
    &&& c.input_change == 0
    &&& c.render_x == 2 && c.render_y == 1
    &&& fresh_entity(1, 1, 1, 1, 1, 1, 0, "no entity"@, "no name"@, Map::empty(), c.target@)
    &&& !c.has_target
    &&& c.camera.x == 0 && c.camera.y == 0
    &&& c.current_world_properties.chunk_size == 0
    &&& c.current_world_properties.world_width == 0
    &&& c.current_world_properties.world_height == 0
    &&& c.standing_tile@ == default_tile()
    &&& fresh_entity(1, 1, 1, 1, 1, 1, 0, "no entity"@, "no name"@, Map::empty(), c.standing_entity@)
    &&& c.graphics_mode@ == "curses"@
    &&& fresh_player(c.client_player, c.client_player.units@)
}

impl Client {
    /// The client as it starts, its player leading a starting band named
    /// from `words`.
    pub fn default(words: &Vec<String>) -> (r: Client)
        requires
            name_source_ok(texts(words@)),
        ensures
            fresh_client(r),
            drawn_band(texts(words@), units_view(r.client_player.units@)),
    {
        Client {
            current_chunk_tiles: Vec::new(),
            current_world_map: Vec::new(),
            first_loop: true,
            target_index: 0,
            view: String::from_str("game"),
            player_inited: false,
            running: true,
            move_dir: '?',
            attacking: false,
            endless_move_mode: false,
            input_change: 0,
            render_x: 2,
            render_y: 1,
            target: Entity::default(),
            has_target: false,
            camera: Camera { x: 0, y: 0 },
            current_world_properties: WorldProperties::default(),
            standing_tile: Tile::default(),
            standing_entity: Entity::default(),
            graphics_mode: String::from_str("curses"),
            client_player: ClientPlayer {
                x: 2,
                y: 2,
                relative_x: 2,
                relative_y: 2,
                chunk_x: 0,
                chunk_y: 0,
                render_x: 2,
                render_y: 2,
                hp: 100,
                energy: 100,
                experience: 0,
                level: 1,
                autoattack_time: 1000,
                autoattack_change: 0,
                special_attack_time: 1000,
                special_attack_change: 1000,
                stats: CharacterStats::default(),
                units: Entity::generate_default_units(words),
                resources: StrMap::new(),
            },
        }
    }
}

// ---------------------------------------------------------------------------
// Who the player is.
// ---------------------------------------------------------------------------

/// The hash of a text: its UTF-8 bytes and a closing 0xff byte written to a
/// fresh `DefaultHasher`, as `Hash` for `str` writes them.
pub open spec fn text_hash(s: Seq<char>) -> u64 {
    DefaultHasher::spec_finish(seq![encode_utf8(s), seq![0xffu8]])
}

/// Hashes a text with a fresh `DefaultHasher`, writing what `Hash` for `str`
/// writes: its bytes and a closing 0xff byte.
pub fn calculate_hash(t: &String) -> (r: u64)
    ensures
        r == text_hash(t@),
{
    let mut s = DefaultHasher::new();
    s.write(t.as_str().as_bytes());
    let tail: [u8; 1] = [0xff];
    s.write(&tail);
    assert(tail@ =~= seq![0xffu8]);
    assert(s@ =~= seq![encode_utf8(t@), seq![0xffu8]]);
    s.finish()
}

/// The name and id the client plays under: with a name and a secret on the
/// command line (`args` holds the program, the name and the secret), the
/// name and the hash of the secret followed by the name; else no name and a
/// random id.
pub fn player_identity(args: &Vec<String>) -> (r: (String, u64))
    ensures
        args@.len() == 3 ==> r.0@ == args@[1]@ && r.1 == text_hash(args@[2]@ + args@[1]@),
        args@.len() != 3 ==> r.0@ == ""@,
{
    let id = random_u64();
    if args.len() == 3 {
        let username = args[1].clone();
        let mut secret = args[2].clone();
        secret.append(username.as_str());
        let hashed = calculate_hash(&secret);
        (username, hashed)
    } else {
        (String::from_str(""), id)
    }
}

// ---------------------------------------------------------------------------
// The requests the client sends.
// ---------------------------------------------------------------------------

/// The request to spawn the player `name` with id `id` at square (`x`,
/// `y`) of chunk (`cx`, `cy`).
pub open spec fn spawn_params(id: u64, x: i32, y: i32, cx: i32, cy: i32, name: Seq<char>) -> Map<
    Seq<char>,
    Seq<char>,
> {
    Map::empty().insert("command"@, "spawn"@).insert("id"@, nat_text(id as nat)).insert(
        "x"@,
        int_text(x as int),
    ).insert("y"@, int_text(y as int)).insert("chunk_x"@, int_text(cx as int)).insert(
        "chunk_y"@,
        int_text(cy as int),
    ).insert("name"@, name)
}

/// The request for player `id` in chunk (`cx`, `cy`) to do `action_type`,
/// aimed at creature `target`.
pub open spec fn conduct_params(id: u64, cx: i32, cy: i32, target: u64, action_type: Seq<char>) -> Map<
    Seq<char>,
    Seq<char>,
> {
    Map::empty().insert("command"@, action_type).insert("id"@, nat_text(id as nat)).insert(
        "target_id"@,
        nat_text(target as nat),
    ).insert("chunk_x"@, int_text(cx as int)).insert("chunk_y"@, int_text(cy as int))
}

/// The request for player `id` in chunk (`cx`, `cy`) to attack creature
/// `target` with an attack of type `attack_type` and ability `ability`.
pub open spec fn attack_params(
    id: u64,
    cx: i32,
    cy: i32,
    target: u64,
    attack_type: Seq<char>,
    ability: Seq<char>,
) -> Map<Seq<char>, Seq<char>> {
    Map::empty().insert("command"@, "attack"@).insert("type"@, attack_type).insert(
        "ability"@,
        ability,
    ).insert("id"@, nat_text(id as nat)).insert("target_id"@, nat_text(target as nat)).insert(
        "chunk_x"@,
        int_text(cx as int),
    ).insert("chunk_y"@, int_text(cy as int))
}

/// Whether `dir` is one of the four directions.
pub open spec fn is_direction(dir: Seq<char>) -> bool {
    dir == "up"@ || dir == "down"@ || dir == "left"@ || dir == "right"@
}

/// The request that spawns the player where the client stands it.
pub fn spawn_request(id: u64, client_player: &ClientPlayer, username: &String) -> (r: PostData)
    ensures
        r@ == spawn_params(
            id,
            client_player.x,
            client_player.y,
            client_player.chunk_x,
            client_player.chunk_y,
            username@,
        ),
{
    let mut r = PostData::new();
    r.set("command", String::from_str("spawn"));
    r.set_u64("id", id);
    r.set_i32("x", client_player.x);
    r.set_i32("y", client_player.y);
    r.set_i32("chunk_x", client_player.chunk_x);
    r.set_i32("chunk_y", client_player.chunk_y);
    r.set("name", username.clone());
    r
}

/// The request for the player to do `action_type` ("gather_resource" or
/// "gather_food") aimed at `target`.
pub fn conduct_action(id: u64, client_player: &ClientPlayer, target: &Entity, action_type: String) -> (r:
    PostData)
    ensures
        r@ == conduct_params(
            id,
            client_player.chunk_x,
            client_player.chunk_y,
            target.id,
            action_type@,
        ),
{
    let mut r = PostData::new();
    r.set("command", action_type);
    r.set_u64("id", id);
    r.set_u64("target_id", target.id);
    r.set_i32("chunk_x", client_player.chunk_x);
    r.set_i32("chunk_y", client_player.chunk_y);
    r
}

/// The request for the player to attack `target` ("auto" or "special",
/// with the ability's name).
pub fn attack(
    id: u64,
    client_player: &ClientPlayer,
    target: &Entity,
    attack_type: String,
    ability: String,
) -> (r: PostData)
    ensures
        r@ == attack_params(
            id,
            client_player.chunk_x,
            client_player.chunk_y,
            target.id,
            attack_type@,
            ability@,
        ),
{
    let mut r = PostData::new();
    r.set("command", String::from_str("attack"));
    r.set("type", attack_type);
    r.set("ability", ability);
    r.set_u64("id", id);
    r.set_u64("target_id", target.id);
    r.set_i32("chunk_x", client_player.chunk_x);
    r.set_i32("chunk_y", client_player.chunk_y);
    r
}

/// The request for the player to move one square in `dir`; none for a word
/// that is not a direction.
pub fn move_player(id: u64, dir: String, client_player: &ClientPlayer) -> (r: Option<PostData>)
    ensures
        is_direction(dir@) ==> r is Some && r->0@ == move_request(
            id,
            dir@,
            client_player.chunk_x,
            client_player.chunk_y,
        ),
        !is_direction(dir@) ==> r is None,
{
    if str_eq(dir.as_str(), "up") || str_eq(dir.as_str(), "down") || str_eq(dir.as_str(), "left")
        || str_eq(dir.as_str(), "right") {
        let mut r = PostData::new();
        r.set("command", String::from_str("move"));
        r.set("move_dir", dir);
        r.set_u64("id", id);
        r.set_i32("chunk_x", client_player.chunk_x);
        r.set_i32("chunk_y", client_player.chunk_y);
        Some(r)
    } else {
        None
    }
}

// ---------------------------------------------------------------------------
// Where things are.
// ---------------------------------------------------------------------------

/// The chunk loaded into cell (`i`, `j`) of the client's grid around the
/// player's chunk: the player's chunk offset by (`j - render_x`,
/// `i - render_y`), cut at 0 and at the world's last chunk; past the last
/// row the client falls back to the world's width (as it does).
pub open spec fn grid_chunk(
    chunk_x: i32,
    chunk_y: i32,
    render_x: i32,
    render_y: i32,
    i: i32,
    j: i32,
    w: WorldProperties,
) -> (i32, i32) {
    let cx0 = chunk_x + (j - render_x);
    let cy0 = chunk_y + (i - render_y);
    let cx1 = if cx0 < 0 {
        0
    } else {
        cx0
    };
    let cy1 = if cy0 < 0 {
        0
    } else {
        cy0
    };
    let cx2 = if cx1 > ((w.world_width - 1) as i32) {
        (w.world_width as i32) - 1
    } else {
        cx1
    };
    let cy2 = if cy1 > ((w.world_height - 1) as i32) {
        (w.world_width as i32) - 1
    } else {
        cy1
    };
    (cx2 as i32, cy2 as i32)
}

impl Client {
    /// The chunk to load into cell (`i`, `j`) of the grid around the player.
    pub fn grid_chunk_at(&self, i: i32, j: i32) -> (r: (i32, i32))
        requires
            self.current_world_properties.world_width >= 1,
            self.current_world_properties.world_height >= 1,
            (self.current_world_properties.world_width as i32) > i32::MIN,
            i32::MIN <= j - self.render_x <= i32::MAX,
            i32::MIN <= i - self.render_y <= i32::MAX,
            i32::MIN <= self.client_player.chunk_x + (j - self.render_x) <= i32::MAX,
            i32::MIN <= self.client_player.chunk_y + (i - self.render_y) <= i32::MAX,
        ensures
            r == grid_chunk(
                self.client_player.chunk_x,
                self.client_player.chunk_y,
                self.render_x,
                self.render_y,
                i,
                j,
                self.current_world_properties,
            ),
    {
        let r_i = i - self.render_y;
        let r_j = j - self.render_x;
        let mut c_x = self.client_player.chunk_x + r_j;
        let mut c_y = self.client_player.chunk_y + r_i;
        if c_x < 0 {
            c_x = 0;
        }
        if c_y < 0 {
            c_y = 0;
        }
        if c_x > (self.current_world_properties.world_width - 1) as i32 {
            c_x = self.current_world_properties.world_width as i32 - 1;
        }
        if c_y > (self.current_world_properties.world_height - 1) as i32 {
            c_y = self.current_world_properties.world_width as i32 - 1;
        }
        (c_x, c_y)
    }

    /// Puts the player in chunk (`chunk_x`, `chunk_y`), as the server has it,
    /// and the camera half a chunk to the left of and a quarter chunk above
    /// that chunk's corner.
    pub fn place_player(&mut self, chunk_x: i32, chunk_y: i32)
        requires
            old(self).current_world_properties.chunk_size <= i32::MAX,
            i32::MIN <= chunk_x * (old(self).current_world_properties.chunk_size as i32) - (
            old(self).current_world_properties.chunk_size as i32) / 2 <= i32::MAX,
            i32::MIN <= chunk_x * (old(self).current_world_properties.chunk_size as i32) <= i32::MAX,
            i32::MIN <= chunk_y * (old(self).current_world_properties.chunk_size as i32) - (
            old(self).current_world_properties.chunk_size as i32) / 4 <= i32::MAX,
            i32::MIN <= chunk_y * (old(self).current_world_properties.chunk_size as i32) <= i32::MAX,
        ensures
            ({
                let cs = old(self).current_world_properties.chunk_size as i32;
                *final(self) == (Client {
                    client_player: ClientPlayer { chunk_x, chunk_y, ..old(self).client_player },
                    camera: Camera {
                        x: (chunk_x * cs - cs / 2) as i32,
                        y: (chunk_y * cs - cs / 4) as i32,
                    },
                    ..*old(self)
                })
            }),
    {
        self.client_player.chunk_x = chunk_x;
        self.client_player.chunk_y = chunk_y;
        let cs = self.current_world_properties.chunk_size as i32;
        self.camera.x = chunk_x * cs - cs / 2;
        self.camera.y = chunk_y * cs - cs / 4;
    }
}

/// Whether the offset of a thing at `relative` in chunk `chunk` from the
/// camera can be computed within 32 bits, as the client computes it.
pub open spec fn offset_fits(chunk: i32, chunk_size: u32, relative: i32, camera: i32) -> bool {
    &&& i32::MIN <= chunk * (chunk_size as i32) <= i32::MAX
    &&& i32::MIN <= chunk * (chunk_size as i32) + relative <= i32::MAX
    &&& i32::MIN <= chunk * (chunk_size as i32) + relative - camera <= i32::MAX
}

/// Where, relative to the camera, a thing at `relative` in chunk `chunk`
/// lies along one axis; none where the client's 32-bit arithmetic would
/// overflow.
pub fn screen_offset(chunk: i32, chunk_size: u32, relative: i32, camera: i32) -> (r: Option<i32>)
    ensures
        offset_fits(chunk, chunk_size, relative, camera) ==> r == Some(
            (chunk * (chunk_size as i32) + relative - camera) as i32,
        ),
        !offset_fits(chunk, chunk_size, relative, camera) ==> r is None,
{
    let cs = (chunk_size as i32) as i64;
    assert(-0x8000_0000 * 0x8000_0000 <= cs * (chunk as i64) <= 0x8000_0000 * 0x8000_0000)
        by (nonlinear_arith)
        requires
            -0x8000_0000 <= cs < 0x8000_0000,
            -0x8000_0000 <= chunk < 0x8000_0000,
    ;
    let a = chunk as i64 * cs;
    let b = a + relative as i64;
    let c = b - camera as i64;
    let lo = i32::MIN as i64;
    let hi = i32::MAX as i64;
    if lo <= a && a <= hi && lo <= b && b <= hi && lo <= c && c <= hi {
        Some(c as i32)
    } else {
        None
    }
}

// ---------------------------------------------------------------------------
// The keyboard.
// ---------------------------------------------------------------------------

/// A key the player pressed: a character, the delete key, or another key.
#[derive(Clone, Copy, Debug)]
pub enum Key {
    Char(char),
    Delete,
    Other,
}

/// What a request stands for, if there is one.
pub open spec fn request_view(r: Option<PostData>) -> Option<Map<Seq<char>, Seq<char>>> {
    match r {
        Some(p) => Some(p@),
        None => None,
    }
}

/// The view a view key switches to: from the game to `other` and back; no
/// switch from any other view.
pub open spec fn toggled_view(view: Seq<char>, other: Seq<char>) -> Option<Seq<char>> {
    if view == "game"@ {
        Some(other)
    } else if view == other {
        Some("game"@)
    } else {
        None
    }
}

/// The target index after the tab key: one further, back to 0 past the
/// last of the `count` targetable creatures.
pub open spec fn next_index(index: usize, count: usize) -> int {
    if index + 1 > count - 1 {
        0
    } else {
        index + 1
    }
}

/// The target index kept within `len` sorted creatures.
pub open spec fn clamped_index(index: int, len: int) -> int {
    if index > len - 1 {
        len - 1
    } else {
        index
    }
}

/// The ability slot a digit key stands for.
pub open spec fn slot_key(ch: char) -> Seq<char> {
    if ch == '1' {
        "1"@
    } else if ch == '2' {
        "2"@
    } else if ch == '3' {
        "3"@
    } else if ch == '4' {
        "4"@
    } else {
        "5"@
    }
}

/// Whether `ch` is one of the ability keys 1 to 5.
pub open spec fn is_slot_key(ch: char) -> bool {
    ch == '1' || ch == '2' || ch == '3' || ch == '4' || ch == '5'
}

/// Whether `n` (with the request `req` and the tile refresh `refresh`) is
/// what client `c` comes to after key `key`, for the player `id`, with
/// `count` targetable creatures, `sorted` in the order they are cycled:
/// "w", "a", "s", "d" set the direction; "t" toggles endless moving, "c"
/// attacking; "m", "u", "r" switch to and from the map, the unit list and
/// the resources; tab cycles the target; "g" and "f" gather wood and food;
/// "1" to "5" fire a special attack once the cooldown has passed; delete
/// stops the client.
pub open spec fn key_handled(
    c: Client,
    key: Key,
    id: u64,
    count: usize,
    sorted: Seq<crate::entities::EntityView>,
    n: Client,
    req: Option<Map<Seq<char>, Seq<char>>>,
    refresh: bool,
) -> bool {
    let p = c.client_player;
    match key {
        Key::Delete => n == (Client { running: false, ..c }) && req is None && !refresh,
        Key::Other => n == c && req is None && !refresh,
        Key::Char(ch) => if ch == 'w' || ch == 'a' || ch == 's' || ch == 'd' {
            n == (Client { move_dir: ch, ..c }) && req is None && !refresh
        } else if ch == 't' {
            n == (Client { endless_move_mode: !c.endless_move_mode, ..c }) && req is None && !refresh
        } else if ch == 'c' {
            n == (Client { attacking: !c.attacking, ..c }) && req is None && !refresh
        } else if ch == 'm' || ch == 'u' || ch == 'r' {
            let other = if ch == 'm' {
                "map"@
            } else if ch == 'u' {
                "unit"@
            } else {
                "resources"@
            };
            &&& n == (Client { view: n.view, ..c })
            &&& match toggled_view(c.view@, other) {
                Some(v) => n.view@ == v,
                None => n.view == c.view,
            }
            &&& req is None
            &&& !refresh
        } else if ch == '\t' {
            let i1 = next_index(c.target_index, count);
            let i2 = if sorted.len() > 0 {
                clamped_index(i1, sorted.len() as int)
            } else {
                i1
            };
            &&& n == (Client { target_index: i2 as usize, target: n.target, ..c })
            &&& (sorted.len() > 0 && sorted[i2].id != id) ==> n.target@ == sorted[i2]
            &&& !(sorted.len() > 0 && sorted[i2].id != id) ==> n.target == c.target
            &&& req is None
            &&& !refresh
        } else if ch == 'g' {
            &&& n == c
            &&& req == Some(conduct_params(id, p.chunk_x, p.chunk_y, c.target.id, "gather_resource"@))
            &&& refresh
        } else if ch == 'f' {
            &&& n == c
            &&& req == Some(conduct_params(id, p.chunk_x, p.chunk_y, c.target.id, "gather_food"@))
            &&& !refresh
        } else if is_slot_key(ch) {
            &&& !refresh
            &&& if p.special_attack_change > p.special_attack_time {
                &&& n == (Client {
                    client_player: ClientPlayer { special_attack_change: 0, ..p },
                    ..c
                })
                &&& req == Some(
                    attack_params(
                        id,
                        p.chunk_x,
                        p.chunk_y,
                        c.target.id,
                        "special"@,
                        p.stats@.abilities[slot_key(ch)],
                    ),
                )
            } else {
                n == c && req is None
            }
        } else {
            n == c && req is None && !refresh
        },
    }
}

/// What key handling needs: creatures to cycle through for the tab key,
/// and the ability of a slot whose special attack fires.
pub open spec fn key_ok(c: Client, key: Key, count: usize) -> bool {
    match key {
        Key::Char(ch) => {
            &&& ch == '\t' ==> count > 0 && c.target_index < usize::MAX
            &&& (is_slot_key(ch) && c.client_player.special_attack_change
                > c.client_player.special_attack_time) ==> c.client_player.stats@.abilities.contains_key(
                slot_key(ch),
            )
        },
        _ => true,
    }
}

fn toggle_view(view: &mut String, other: &str)
    ensures
        match toggled_view(old(view)@, other@) {
            Some(v) => final(view)@ == v,
            None => *final(view) == *old(view),
        },
{
    if str_eq(view.as_str(), "game") {
        *view = String::from_str(other);
    } else if str_eq(view.as_str(), other) {
        *view = String::from_str("game");
    }
}

impl Client {
    /// Handles one key of player `id`, with `count` targetable creatures and
    /// `sorted` the order the tab key cycles them in; gives the request to
    /// send, if any, and whether the tiles must be loaded again.
    pub fn handle_key(&mut self, key: Key, id: u64, count: usize, sorted: &Vec<Entity>) -> (r: (
        Option<PostData>,
        bool,
    ))
        requires
            key_ok(*old(self), key, count),
        ensures
            key_handled(
                *old(self),
                key,
                id,
                count,
                sorted@.map_values(|e: Entity| e@),
                *final(self),
                request_view(r.0),
                r.1,
            ),
    {
        let ghost sv = sorted@.map_values(|e: Entity| e@);
        match key {
            Key::Delete => {
                self.running = false;
                (None, false)
            },
            Key::Other => (None, false),
            Key::Char(ch) => {
                if ch == 'w' || ch == 'a' || ch == 's' || ch == 'd' {
                    self.move_dir = ch;
                    (None, false)
                } else if ch == 't' {
                    self.endless_move_mode = !self.endless_move_mode;
                    (None, false)
                } else if ch == 'c' {
                    self.attacking = !self.attacking;
                    (None, false)
                } else if ch == 'm' {
                    toggle_view(&mut self.view, "map");
                    (None, false)
                } else if ch == 'u' {
                    toggle_view(&mut self.view, "unit");
                    (None, false)
                } else if ch == 'r' {
                    toggle_view(&mut self.view, "resources");
                    (None, false)
                } else if ch == '\t' {
                    self.target_index = self.target_index + 1;
                    if self.target_index > count - 1 {
                        self.target_index = 0;
                    }
                    if sorted.len() > 0 {
                        if self.target_index > sorted.len() - 1 {
                            self.target_index = sorted.len() - 1;
                        }
                        if sorted[self.target_index].id != id {
                            self.target = sorted[self.target_index].clone();
                        }
                    }
                    (None, false)
                } else if ch == 'g' {
                    let r = conduct_action(
                        id,
                        &self.client_player,
                        &self.target,
                        String::from_str("gather_resource"),
                    );
                    (Some(r), true)
                } else if ch == 'f' {
                    let r = conduct_action(
                        id,
                        &self.client_player,
                        &self.target,
                        String::from_str("gather_food"),
                    );
                    (Some(r), false)
                } else if ch == '1' || ch == '2' || ch == '3' || ch == '4' || ch == '5' {
                    if self.client_player.special_attack_change
                        > self.client_player.special_attack_time {
                        let slot = if ch == '1' {
                            "1"
                        } else if ch == '2' {
                            "2"
                        } else if ch == '3' {
                            "3"
                        } else if ch == '4' {
                            "4"
                        } else {
                            "5"
                        };
                        let ability = self.client_player.stats.abilities.get(slot).unwrap().clone();
                        let r = attack(
                            id,
                            &self.client_player,
                            &self.target,
                            String::from_str("special"),
                            ability,
                        );
                        self.client_player.special_attack_change = 0;
                        (Some(r), false)
                    } else {
                        (None, false)
                    }
                } else {
                    (None, false)
                }
            },
        }
    }
}

// ---------------------------------------------------------------------------
// Moving and attacking over time.
// ---------------------------------------------------------------------------

/// Whether `m` is one of the movement keys "w", "a", "s", "d".
pub open spec fn is_move_key(m: char) -> bool {
    m == 'w' || m == 'a' || m == 's' || m == 'd'
}

/// The direction a movement key stands for.
pub open spec fn key_direction(m: char) -> Seq<char> {
    if m == 'w' {
        "up"@
    } else if m == 'a' {
        "left"@
    } else if m == 's' {
        "down"@
    } else {
        "right"@
    }
}

/// Whether the player steps this turn: a direction is set and the input
/// delay has passed.
pub open spec fn steps(c: Client) -> bool {
    is_move_key(c.move_dir) && c.input_change > INPUT_DELAY
}

/// The client after its player's step: one square in the set direction,
/// the camera following where the player comes near the screen's edge, the
/// input delay starting over.
pub open spec fn stepped_client(c: Client) -> Client {
    let p = c.client_player;
    let cam = c.camera;
    if c.move_dir == 'w' {
        Client {
            client_player: ClientPlayer {
                y: (p.y - 1) as i32,
                relative_y: (p.relative_y - 1) as i32,
                ..p
            },
            camera: if p.render_y < EDGE_Y {
                Camera { y: (cam.y - 1) as i32, ..cam }
            } else {
                cam
            },
            input_change: 0,
            ..c
        }
    } else if c.move_dir == 'a' {
        Client {
            client_player: ClientPlayer {
                x: (p.x - 1) as i32,
                relative_x: (p.relative_x - 1) as i32,
                ..p
            },
            camera: if p.render_x < EDGE_X {
                Camera { x: (cam.x - 1) as i32, ..cam }
            } else {
                cam
            },
            input_change: 0,
            ..c
        }
    } else if c.move_dir == 's' {
        Client {
            client_player: ClientPlayer {
                y: (p.y + 1) as i32,
                relative_y: (p.relative_y + 1) as i32,
                ..p
            },
            camera: if p.render_y > SCREEN_HEIGHT - EDGE_Y {
                Camera { y: (cam.y + 1) as i32, ..cam }
            } else {
                cam
            },
            input_change: 0,
            ..c
        }
    } else {
        Client {
            client_player: ClientPlayer {
                x: (p.x + 1) as i32,
                relative_x: (p.relative_x + 1) as i32,
                ..p
            },
            camera: if p.render_x > SCREEN_WIDTH - EDGE_X {
                Camera { x: (cam.x + 1) as i32, ..cam }
            } else {
                cam
            },
            input_change: 0,
            ..c
        }
    }
}

/// Whether the player, having moved in the set direction, stands just past
/// its chunk's edge.
pub open spec fn crossed(c: Client) -> bool {
    let p = c.client_player;
    let cs = c.current_world_properties.chunk_size as i32;
    ||| c.move_dir == 'd' && p.relative_x == cs
    ||| c.move_dir == 's' && p.relative_y == cs
    ||| c.move_dir == 'a' && p.relative_x == -1
    ||| c.move_dir == 'w' && p.relative_y == -1
}

/// The client with its player counted in the next chunk in the set
/// direction.
pub open spec fn next_chunk(c: Client) -> Client {
    let p = c.client_player;
    if c.move_dir == 'd' {
        Client { client_player: ClientPlayer { chunk_x: (p.chunk_x + 1) as i32, ..p }, ..c }
    } else if c.move_dir == 's' {
        Client { client_player: ClientPlayer { chunk_y: (p.chunk_y + 1) as i32, ..p }, ..c }
    } else if c.move_dir == 'a' {
        Client { client_player: ClientPlayer { chunk_x: (p.chunk_x - 1) as i32, ..p }, ..c }
    } else {
        Client { client_player: ClientPlayer { chunk_y: (p.chunk_y - 1) as i32, ..p }, ..c }
    }
}

/// The client after a turn's movement: the step, if it is due; the chunk
/// change, if the player stands past its chunk's edge; and the direction
/// forgotten unless moving endlessly.
pub open spec fn moved_client(c: Client) -> Client {
    let c1 = if steps(c) {
        stepped_client(c)
    } else {
        c
    };
    let c2 = if crossed(c1) {
        next_chunk(c1)
    } else {
        c1
    };
    if c2.endless_move_mode {
        c2
    } else {
        Client { move_dir: '?', ..c2 }
    }
}

/// Whether a turn's movement stays within 32 bits.
pub open spec fn move_fits(c: Client) -> bool {
    let p = c.client_player;
    let c1 = if steps(c) {
        stepped_client(c)
    } else {
        c
    };
    let p1 = c1.client_player;
    &&& steps(c) && c.move_dir == 'w' ==> p.y > i32::MIN && p.relative_y > i32::MIN && c.camera.y
        > i32::MIN
    &&& steps(c) && c.move_dir == 'a' ==> p.x > i32::MIN && p.relative_x > i32::MIN && c.camera.x
        > i32::MIN
    &&& steps(c) && c.move_dir == 's' ==> p.y < i32::MAX && p.relative_y < i32::MAX && c.camera.y
        < i32::MAX
    &&& steps(c) && c.move_dir == 'd' ==> p.x < i32::MAX && p.relative_x < i32::MAX && c.camera.x
        < i32::MAX
    &&& crossed(c1) && (c.move_dir == 'd' || c.move_dir == 'a') ==> i32::MIN < p1.chunk_x < i32::MAX
    &&& crossed(c1) && (c.move_dir == 's' || c.move_dir == 'w') ==> i32::MIN < p1.chunk_y < i32::MAX
}

/// Whether the auto attack fires when `delta` milliseconds pass: the
/// client is attacking and the auto attack's cooldown has passed.
pub open spec fn auto_fires(c: Client, delta: u64) -> bool {
    c.attacking && c.client_player.autoattack_change + delta > c.client_player.autoattack_time
}

/// The client after `delta` milliseconds: the input delay counts them and,
/// while attacking, so do both attack cooldowns, the auto attack's starting
/// over when it fires.
pub open spec fn ticked(c: Client, delta: u64) -> Client {
    let p = c.client_player;
    if c.attacking {
        Client {
            input_change: (c.input_change + delta) as u64,
            client_player: ClientPlayer {
                autoattack_change: if auto_fires(c, delta) {
                    0
                } else {
                    (p.autoattack_change + delta) as u64
                },
                special_attack_change: (p.special_attack_change + delta) as u64,
                ..p
            },
            ..c
        }
    } else {
        Client { input_change: (c.input_change + delta) as u64, ..c }
    }
}

impl Client {
    fn take_step(&mut self, id: u64) -> (r: Option<PostData>)
        requires
            move_fits(*old(self)),
        ensures
            *final(self) == (if steps(*old(self)) {
                stepped_client(*old(self))
            } else {
                *old(self)
            }),
            steps(*old(self)) ==> request_view(r) == Some(
                move_request(
                    id,
                    key_direction(old(self).move_dir),
                    old(self).client_player.chunk_x,
                    old(self).client_player.chunk_y,
                ),
            ),
            !steps(*old(self)) ==> r is None,
    {
        proof {
            crate::entities::lemma_directions_distinct();
        }
        if !((self.move_dir == 'w' || self.move_dir == 'a' || self.move_dir == 's' || self.move_dir
            == 'd') && self.input_change > INPUT_DELAY) {
            return None;
        }
        self.input_change = 0;
        if self.move_dir == 'w' {
            let request = move_player(id, String::from_str("up"), &self.client_player);
            self.client_player.y = self.client_player.y - 1;
            self.client_player.relative_y = self.client_player.relative_y - 1;
            if self.client_player.render_y < EDGE_Y as i32 {
                self.camera.y = self.camera.y - 1;
            }
            request
        } else if self.move_dir == 'a' {
            let request = move_player(id, String::from_str("left"), &self.client_player);
            self.client_player.x = self.client_player.x - 1;
            self.client_player.relative_x = self.client_player.relative_x - 1;
            if self.client_player.render_x < EDGE_X as i32 {
                self.camera.x = self.camera.x - 1;
            }
            request
        } else if self.move_dir == 's' {
            let request = move_player(id, String::from_str("down"), &self.client_player);
            self.client_player.y = self.client_player.y + 1;
            self.client_player.relative_y = self.client_player.relative_y + 1;
            if self.client_player.render_y > (SCREEN_HEIGHT - EDGE_Y) as i32 {
                self.camera.y = self.camera.y + 1;
            }
            request
        } else {
            let request = move_player(id, String::from_str("right"), &self.client_player);
            self.client_player.x = self.client_player.x + 1;
            self.client_player.relative_x = self.client_player.relative_x + 1;
            if self.client_player.render_x > (SCREEN_WIDTH - EDGE_X) as i32 {
                self.camera.x = self.camera.x + 1;
            }
            request
        }
    }

    fn cross_chunk(&mut self) -> (r: bool)
        requires
            crossed(*old(self)) && (old(self).move_dir == 'd' || old(self).move_dir == 'a') ==> i32::MIN
                < old(self).client_player.chunk_x < i32::MAX,
            crossed(*old(self)) && (old(self).move_dir == 's' || old(self).move_dir == 'w') ==> i32::MIN
                < old(self).client_player.chunk_y < i32::MAX,
        ensures
            *final(self) == (if crossed(*old(self)) {
                next_chunk(*old(self))
            } else {
                *old(self)
            }),
            r == crossed(*old(self)),
    {
        let cs = self.current_world_properties.chunk_size as i32;
        if self.move_dir == 'd' {
            if self.client_player.relative_x == cs {
                self.client_player.chunk_x = self.client_player.chunk_x + 1;
                return true;
            }
        } else if self.move_dir == 's' {
            if self.client_player.relative_y == cs {
                self.client_player.chunk_y = self.client_player.chunk_y + 1;
                return true;
            }
        } else if self.move_dir == 'a' {
            if self.client_player.relative_x == -1 {
                self.client_player.chunk_x = self.client_player.chunk_x - 1;
                return true;
            }
        } else if self.move_dir == 'w' {
            if self.client_player.relative_y == -1 {
                self.client_player.chunk_y = self.client_player.chunk_y - 1;
                return true;
            }
        }
        false
    }

    /// A turn's movement of player `id`: steps in the set direction once the
    /// input delay has passed, giving the move request to send; counts the
    /// player in the next chunk once it stands past its chunk's edge (the
    /// second result: the tiles must be loaded again).
    pub fn move_step(&mut self, id: u64) -> (r: (Option<PostData>, bool))
        requires
            move_fits(*old(self)),
        ensures
            *final(self) == moved_client(*old(self)),
            steps(*old(self)) ==> request_view(r.0) == Some(
                move_request(
                    id,
                    key_direction(old(self).move_dir),
                    old(self).client_player.chunk_x,
                    old(self).client_player.chunk_y,
                ),
            ),
            !steps(*old(self)) ==> r.0 is None,
            r.1 == crossed(
                if steps(*old(self)) {
                    stepped_client(*old(self))
                } else {
                    *old(self)
                },
            ),
    {
        let request = self.take_step(id);
        let refresh = self.cross_chunk();
        if !self.endless_move_mode {
            self.move_dir = '?';
        }
        (request, refresh)
    }

    /// Lets `delta` milliseconds pass: the input delay runs down and, while
    /// attacking, the attack cooldowns too; an auto attack on the target is
    /// due (and given) once its cooldown has passed.
    pub fn tick(&mut self, id: u64, delta: u64) -> (r: Option<PostData>)
        requires
            old(self).input_change + delta <= u64::MAX,
            old(self).attacking ==> old(self).client_player.autoattack_change + delta <= u64::MAX,
            old(self).attacking ==> old(self).client_player.special_attack_change + delta
                <= u64::MAX,
        ensures
            *final(self) == ticked(*old(self), delta),
            auto_fires(*old(self), delta) ==> request_view(r) == Some(
                attack_params(
                    id,
                    old(self).client_player.chunk_x,
                    old(self).client_player.chunk_y,
                    old(self).target.id,
                    "auto"@,
                    ""@,
                ),
            ),
            !auto_fires(*old(self), delta) ==> r is None,
    {
        self.input_change = self.input_change + delta;
        if self.attacking {
            self.client_player.autoattack_change = self.client_player.autoattack_change + delta;
            self.client_player.special_attack_change = self.client_player.special_attack_change
                + delta;
            if self.client_player.autoattack_change > self.client_player.autoattack_time {
                let r = attack(
                    id,
                    &self.client_player,
                    &self.target,
                    String::from_str("auto"),
                    String::from_str(""),
                );
                self.client_player.autoattack_change = 0;
                return Some(r);
            }
        }
        None
    }
}

// ---------------------------------------------------------------------------
// Targets.
// ---------------------------------------------------------------------------

/// Whether creature `a` comes before creature `b` in the order targets are
/// cycled in: by row, then by column.
pub open spec fn key_before(a: crate::entities::EntityView, b: crate::entities::EntityView) -> bool {
    a.y < b.y || (a.y == b.y && a.x < b.x)
}

/// Whether two creatures stand on the same square.
pub open spec fn same_square(a: crate::entities::EntityView, b: crate::entities::EntityView) -> bool {
    a.y == b.y && a.x == b.x
}

/// Whether the creature `a` from position `i` of the input goes before the
/// creature `b` from position `j`: it lies before, or on the same square
/// and came first.
pub open spec fn goes_before(
    a: crate::entities::EntityView,
    i: int,
    b: crate::entities::EntityView,
    j: int,
) -> bool {
    key_before(a, b) || (same_square(a, b) && i < j)
}

/// Whether `out` holds the creatures of `input` ordered by row, then by
/// column, those on one square in their input order: `idx` tells where in
/// `input` each comes from.
pub open spec fn sorted_from(
    input: Seq<crate::entities::EntityView>,
    out: Seq<crate::entities::EntityView>,
    idx: Seq<int>,
) -> bool {
    &&& idx.len() == input.len()
    &&& out.len() == input.len()
    &&& idx.no_duplicates()
    &&& forall|a: int| 0 <= a < idx.len() ==> 0 <= #[trigger] idx[a] < input.len()
    &&& forall|a: int| 0 <= a < out.len() ==> #[trigger] out[a] == input[idx[a]]
    &&& forall|a: int, b: int|
        0 <= a < b < out.len() ==> goes_before(#[trigger] out[a], idx[a], #[trigger] out[b], idx[b])
}

/// What creatures stand for.
pub open spec fn views(s: Seq<Entity>) -> Seq<crate::entities::EntityView> {
    s.map_values(|e: Entity| e@)
}

fn before_exec(a: &Entity, b: &Entity) -> (r: bool)
    ensures
        r == key_before(a@, b@),
{
    a.y < b.y || (a.y == b.y && a.x < b.x)
}

/// The creatures ordered by row, then by column, those on one square in
/// their given order (a stable sort).
pub fn sort_targets(input: &Vec<Entity>) -> (r: Vec<Entity>)
    ensures
        exists|idx: Seq<int>| sorted_from(views(input@), views(r@), idx),
{
    let ghost iv = views(input@);
    let mut out: Vec<Entity> = Vec::new();
    let ghost mut idx: Seq<int> = Seq::empty();
    let mut i: usize = 0;
    while i < input.len()
        invariant
            iv == views(input@),
            0 <= i <= input@.len(),
            out@.len() == i,
            idx.len() == i,
            idx.no_duplicates(),
            forall|a: int| 0 <= a < i ==> 0 <= #[trigger] idx[a] < i,
            forall|a: int| 0 <= a < i ==> #[trigger] views(out@)[a] == iv[idx[a]],
            forall|a: int, b: int|
                0 <= a < b < i ==> goes_before(
                    #[trigger] views(out@)[a],
                    idx[a],
                    #[trigger] views(out@)[b],
                    idx[b],
                ),
        decreases input@.len() - i,
    {
        let e = &input[i];
        assert(iv[i as int] == e@);
        let mut p: usize = 0;
        while p < out.len() && !before_exec(e, &out[p])
            invariant
                0 <= p <= out@.len(),
                out@.len() == i,
                forall|q: int| 0 <= q < p ==> !key_before(e@, #[trigger] views(out@)[q]),
            decreases out@.len() - p,
        {
            p = p + 1;
        }
        let ghost ov = views(out@);
        let ghost idx0 = idx;
        out.insert(p, e.clone());
        proof {
            idx = idx.insert(p as int, i as int);
            let nv = views(out@);
            assert(nv =~= ov.insert(p as int, e@));
            assert forall|a: int| 0 <= a < i + 1 implies 0 <= #[trigger] idx[a] < i + 1 by {
                if a < p {
                    assert(idx[a] == idx0[a]);
                } else if a > p {
                    assert(idx[a] == idx0[a - 1]);
                }
            }
            assert forall|a: int| 0 <= a < i + 1 implies #[trigger] views(out@)[a] == iv[idx[a]] by {
                assert(nv[a] == views(out@)[a]);
                if a < p {
                    assert(idx[a] == idx0[a]);
                    assert(nv[a] == ov[a]);
                } else if a > p {
                    assert(idx[a] == idx0[a - 1]);
                    assert(nv[a] == ov[a - 1]);
                }
            }
            assert(idx.no_duplicates()) by {
                assert forall|a: int, b: int| 0 <= a < b < idx.len() implies idx[a] != idx[b] by {
                    if a < p && b < p {
                        assert(idx[a] == idx0[a] && idx[b] == idx0[b]);
                    } else if a < p && b == p {
                        assert(idx[a] == idx0[a]);
                    } else if a < p && b > p {
                        assert(idx[a] == idx0[a] && idx[b] == idx0[b - 1]);
                    } else if a == p {
                        assert(idx[b] == idx0[b - 1]);
                    } else {
                        assert(idx[a] == idx0[a - 1] && idx[b] == idx0[b - 1]);
                    }
                }
            }
            assert forall|a: int, b: int| 0 <= a < b < i + 1 implies goes_before(
                #[trigger] views(out@)[a],
                idx[a],
                #[trigger] views(out@)[b],
                idx[b],
            ) by {
                assert(nv[a] == views(out@)[a] && nv[b] == views(out@)[b]);
                if a < p && b < p {
                    assert(idx[a] == idx0[a] && idx[b] == idx0[b]);
                    assert(nv[a] == ov[a] && nv[b] == ov[b]);
                } else if a < p && b == p {
                    assert(idx[a] == idx0[a]);
                    assert(nv[a] == ov[a]);
                    assert(!key_before(e@, ov[a]));
                } else if a < p && b > p {
                    assert(idx[a] == idx0[a] && idx[b] == idx0[b - 1]);
                    assert(nv[a] == ov[a] && nv[b] == ov[b - 1]);
                    assert(goes_before(ov[a], idx0[a], ov[b - 1], idx0[b - 1]));
                } else if a == p {
                    assert(idx[b] == idx0[b - 1]);
                    assert(nv[b] == ov[b - 1]);
                    assert(p < i);
                    assert(key_before(e@, ov[p as int]));
                    if b - 1 > p {
                        assert(goes_before(ov[p as int], idx0[p as int], ov[b - 1], idx0[b - 1]));
                    }
                } else {
                    assert(idx[a] == idx0[a - 1] && idx[b] == idx0[b - 1]);
                    assert(nv[a] == ov[a - 1] && nv[b] == ov[b - 1]);
                    assert(goes_before(ov[a - 1], idx0[a - 1], ov[b - 1], idx0[b - 1]));
                }
            }
        }
        i = i + 1;
    }
    proof {
        assert(sorted_from(iv, views(out@), idx));
    }
    out
}

/// Adds the creatures of one chunk to those the player can target; a
/// creature already there is replaced by the chunk's.
pub fn gather_targets(targetable: &mut HashMap<u64, Entity>, chunk: &HashMap<u64, Entity>)
    ensures
        crate::entities::entities_view(final(targetable)@) == crate::entities::entities_view(
            old(targetable)@,
        ).union_prefer_right(crate::entities::entities_view(chunk@)),
{
    let ghost start = crate::entities::entities_view(targetable@);
    let ghost cv = crate::entities::entities_view(chunk@);
    let keys = crate::ids::id_keys(chunk);
    let mut i: usize = 0;
    while i < keys.len()
        invariant
            start == crate::entities::entities_view(old(targetable)@),
            cv == crate::entities::entities_view(chunk@),
            keys@.to_set() == chunk@.dom(),
            0 <= i <= keys@.len(),
            crate::entities::entities_view(targetable@) == start.union_prefer_right(
                cv.restrict(keys@.take(i as int).to_set()),
            ),
        decreases keys@.len() - i,
    {
        let k = keys[i];
        assert(keys@.to_set().contains(k));
        let e = chunk.get(&k).unwrap().clone();
        let ghost before = crate::entities::entities_view(targetable@);
        targetable.insert(k, e);
        proof {
            assert(keys@.take(i + 1) =~= keys@.take(i as int).push(k));
            keys@.take(i as int).lemma_push_to_set_commute(k);
            assert(crate::entities::entities_view(targetable@) =~= before.insert(k, cv[k]));
            assert(crate::entities::entities_view(targetable@) =~= start.union_prefer_right(
                cv.restrict(keys@.take(i + 1).to_set()),
            ));
        }
        i = i + 1;
    }
    proof {
        assert(keys@.take(keys@.len() as int) =~= keys@);
        assert(cv.restrict(keys@.to_set()) =~= cv);
    }
}

/// The creatures of `m` under the keys `ks`, in their order.
pub open spec fn lookup_all(m: Map<u64, crate::entities::EntityView>, ks: Seq<u64>) -> Seq<
    crate::entities::EntityView,
> {
    ks.map_values(|k: u64| m[k])
}

/// The creatures the player can target, ordered by row, then by column
/// (those on one square in the map's own order).
pub fn targetable_sorted(targetable: &HashMap<u64, Entity>) -> (r: Vec<Entity>)
    ensures
        exists|ks: Seq<u64>, idx: Seq<int>|
            {
                &&& ks.no_duplicates()
                &&& ks.to_set() == targetable@.dom()
                &&& #[trigger] sorted_from(
                    lookup_all(crate::entities::entities_view(targetable@), ks),
                    views(r@),
                    idx,
                )
            },
{
    let ghost m = crate::entities::entities_view(targetable@);
    let keys = crate::ids::id_keys(targetable);
    let mut list: Vec<Entity> = Vec::new();
    let mut i: usize = 0;
    while i < keys.len()
        invariant
            m == crate::entities::entities_view(targetable@),
            keys@.to_set() == targetable@.dom(),
            0 <= i <= keys@.len(),
            list@.len() == i,
            forall|a: int| 0 <= a < i ==> #[trigger] views(list@)[a] == m[keys@[a]],
        decreases keys@.len() - i,
    {
        let k = keys[i];
        assert(keys@.to_set().contains(k));
        let e = targetable.get(&k).unwrap().clone();
        let ghost before = list@;
        list.push(e);
        proof {
            assert forall|a: int| 0 <= a < i + 1 implies #[trigger] views(list@)[a] == m[keys@[a]] by {
                if a < i {
                    assert(list@[a] == before[a]);
                    assert(views(before)[a] == before[a]@);
                }
            }
        }
        i = i + 1;
    }
    let r = sort_targets(&list);
    proof {
        assert(views(list@) =~= lookup_all(m, keys@));
    }
    r
}

impl Client {
    /// Starts a frame: the player stands on no known tile and by no known
    /// creature.
    pub fn begin_frame(&mut self)
        ensures
            *final(self) == (Client {
                standing_tile: final(self).standing_tile,
                standing_entity: final(self).standing_entity,
                ..*old(self)
            }),
            final(self).standing_tile@ == default_tile(),
            fresh_entity(
                1,
                1,
                1,
                1,
                1,
                1,
                0,
                "no entity"@,
                "no name"@,
                Map::empty(),
                final(self).standing_entity@,
            ),
    {
        self.standing_tile = Tile::default();
        self.standing_entity = Entity::default();
    }

    /// Notes a tile drawn this frame: the player stands on it if it lies
    /// where the player is.
    pub fn see_tile(&mut self, tile: &Tile)
        ensures
            (old(self).client_player.x == tile.x && old(self).client_player.y == tile.y)
                ==> *final(self) == (Client { standing_tile: *tile, ..*old(self) }),
            !(old(self).client_player.x == tile.x && old(self).client_player.y == tile.y)
                ==> *final(self) == *old(self),
    {
        if self.client_player.x == tile.x && self.client_player.y == tile.y {
            self.standing_tile = tile.clone();
        }
    }

    /// Notes creature `e_id` seen this frame at (`rel_x`, `rel_y`) from the
    /// camera, and tells whether to draw it: a creature off the screen is
    /// skipped; the player's own creature updates what the client knows of
    /// the player; another creature where the player stands is the one the
    /// player stands by; the target is drawn as the cursor instead.
    pub fn see_entity(&mut self, e_id: u64, entity: &Entity, rel_x: i32, rel_y: i32, id: u64) -> (r:
        bool)
        ensures
            ({
                let c = *old(self);
                let p = c.client_player;
                let n = *final(self);
                let shown = crate::draw::on_screen(rel_x as int, rel_y as int);
                &&& !shown ==> n == c && !r
                &&& (shown && e_id == id) ==> {
                    &&& n == (Client {
                        client_player: ClientPlayer {
                            render_x: rel_x,
                            render_y: rel_y,
                            relative_x: entity.relative_x,
                            relative_y: entity.relative_y,
                            x: entity.x,
                            y: entity.y,
                            level: entity.level,
                            experience: entity.experience,
                            stats: n.client_player.stats,
                            units: n.client_player.units,
                            resources: n.client_player.resources,
                            ..p
                        },
                        ..c
                    })
                    &&& n.client_player.stats@ == entity.stats@
                    &&& n.client_player.units@ == entity.units@
                    &&& n.client_player.resources@ == entity.resources@
                }
                &&& (shown && e_id != id && p.x == entity.x && p.y == entity.y) ==> {
                    &&& n == (Client { standing_entity: n.standing_entity, ..c })
                    &&& n.standing_entity@ == entity@
                }
                &&& (shown && e_id != id && !(p.x == entity.x && p.y == entity.y)) ==> n == c
                &&& shown ==> r == (e_id != c.target.id)
            }),
    {
        if rel_x < 0 || rel_y < 0 || rel_x > SCREEN_WIDTH as i32 - 1 || rel_y > SCREEN_HEIGHT as i32
            - crate::draw::MARGIN_Y {
            return false;
        }
        if e_id == id {
            self.client_player.render_x = rel_x;
            self.client_player.render_y = rel_y;
            self.client_player.relative_x = entity.relative_x;
            self.client_player.relative_y = entity.relative_y;
            self.client_player.x = entity.x;
            self.client_player.y = entity.y;
            self.client_player.level = entity.level;
            self.client_player.experience = entity.experience;
            self.client_player.stats = entity.stats.clone();
            self.client_player.units = entity.units.clone();
            self.client_player.resources = entity.resources.clone();
        } else if self.client_player.x == entity.x && self.client_player.y == entity.y {
            self.standing_entity = entity.clone();
        }
        e_id != self.target.id
    }

    /// Takes the target's latest state from the creatures the player can
    /// target, if it is among them.
    pub fn refresh_target(&mut self, targetable: &HashMap<u64, Entity>)
        ensures
            targetable@.contains_key(old(self).target.id) ==> {
                &&& *final(self) == (Client { target: final(self).target, ..*old(self) })
                &&& final(self).target@ == targetable@[old(self).target.id]@
            },
            !targetable@.contains_key(old(self).target.id) ==> *final(self) == *old(self),
    {
        if targetable.contains_key(&self.target.id) {
            self.target = targetable.get(&self.target.id).unwrap().clone();
        }
    }
}

// ---------------------------------------------------------------------------
// What the client's steps need.
// ---------------------------------------------------------------------------

impl Client {
    /// Whether the grid cell (`i`, `j`) can be worked out: the world has at
    /// least one chunk each way and the arithmetic stays within 32 bits.
    pub fn grid_ready(&self, i: i32, j: i32) -> (r: bool)
        ensures
            r == ({
                &&& self.current_world_properties.world_width >= 1
                &&& self.current_world_properties.world_height >= 1
                &&& (self.current_world_properties.world_width as i32) > i32::MIN
                &&& i32::MIN <= j - self.render_x <= i32::MAX
                &&& i32::MIN <= i - self.render_y <= i32::MAX
                &&& i32::MIN <= self.client_player.chunk_x + (j - self.render_x) <= i32::MAX
                &&& i32::MIN <= self.client_player.chunk_y + (i - self.render_y) <= i32::MAX
            }),
    {
        let lo = i32::MIN as i64;
        let hi = i32::MAX as i64;
        let dj = j as i64 - self.render_x as i64;
        let di = i as i64 - self.render_y as i64;
        let cx = self.client_player.chunk_x as i64 + dj;
        let cy = self.client_player.chunk_y as i64 + di;
        self.current_world_properties.world_width >= 1 && self.current_world_properties.world_height
            >= 1 && (self.current_world_properties.world_width as i32) > i32::MIN && lo <= dj && dj
            <= hi && lo <= di && di <= hi && lo <= cx && cx <= hi && lo <= cy && cy <= hi
    }

    /// Whether the player can be placed in chunk (`chunk_x`, `chunk_y`)
    /// with the camera's arithmetic within 32 bits.
    pub fn place_ready(&self, chunk_x: i32, chunk_y: i32) -> (r: bool)
        ensures
            r == ({
                let cs = self.current_world_properties.chunk_size as i32;
                &&& self.current_world_properties.chunk_size <= i32::MAX
                &&& i32::MIN <= chunk_x * cs - cs / 2 <= i32::MAX
                &&& i32::MIN <= chunk_x * cs <= i32::MAX
                &&& i32::MIN <= chunk_y * cs - cs / 4 <= i32::MAX
                &&& i32::MIN <= chunk_y * cs <= i32::MAX
            }),
    {
        if self.current_world_properties.chunk_size > i32::MAX as u32 {
            return false;
        }
        let cs = self.current_world_properties.chunk_size as i64;
        assert(0 <= cs * (chunk_x as i64) + 0x8000_0000 * 0x8000_0000 <= 2 * 0x8000_0000
            * 0x8000_0000) by (nonlinear_arith)
            requires
                0 <= cs < 0x8000_0000,
                -0x8000_0000 <= chunk_x < 0x8000_0000,
        ;
        assert(0 <= cs * (chunk_y as i64) + 0x8000_0000 * 0x8000_0000 <= 2 * 0x8000_0000
            * 0x8000_0000) by (nonlinear_arith)
            requires
                0 <= cs < 0x8000_0000,
                -0x8000_0000 <= chunk_y < 0x8000_0000,
        ;
        let ax = chunk_x as i64 * cs;
        let ay = chunk_y as i64 * cs;
        let lo = i32::MIN as i64;
        let hi = i32::MAX as i64;
        lo <= ax && ax <= hi && lo <= ax - cs / 2 && ax - cs / 2 <= hi && lo <= ay && ay <= hi && lo
            <= ay - cs / 4 && ay - cs / 4 <= hi
    }

    /// Whether key handling can go on: see `key_ok`.
    pub fn key_ready(&self, key: Key, count: usize) -> (r: bool)
        ensures
            r == key_ok(*self, key, count),
    {
        match key {
            Key::Char(ch) => {
                if ch == '\t' && !(count > 0 && self.target_index < usize::MAX) {
                    return false;
                }
                if (ch == '1' || ch == '2' || ch == '3' || ch == '4' || ch == '5')
                    && self.client_player.special_attack_change
                    > self.client_player.special_attack_time {
                    let slot = if ch == '1' {
                        "1"
                    } else if ch == '2' {
                        "2"
                    } else if ch == '3' {
                        "3"
                    } else if ch == '4' {
                        "4"
                    } else {
                        "5"
                    };
                    return self.client_player.stats.abilities.contains_key(slot);
                }
                true
            },
            _ => true,
        }
    }

    /// Whether a turn's movement stays within 32 bits: see `move_fits`.
    pub fn move_ready(&self) -> (r: bool)
        ensures
            r == move_fits(*self),
    {
        let p = &self.client_player;
        let steps = (self.move_dir == 'w' || self.move_dir == 'a' || self.move_dir == 's'
            || self.move_dir == 'd') && self.input_change > INPUT_DELAY;
        if steps {
            if self.move_dir == 'w' && !(p.y > i32::MIN && p.relative_y > i32::MIN && self.camera.y
                > i32::MIN) {
                return false;
            }
            if self.move_dir == 'a' && !(p.x > i32::MIN && p.relative_x > i32::MIN && self.camera.x
                > i32::MIN) {
                return false;
            }
            if self.move_dir == 's' && !(p.y < i32::MAX && p.relative_y < i32::MAX && self.camera.y
                < i32::MAX) {
                return false;
            }
            if self.move_dir == 'd' && !(p.x < i32::MAX && p.relative_x < i32::MAX && self.camera.x
                < i32::MAX) {
                return false;
            }
        }
        let rel_x: i64 = if steps && self.move_dir == 'a' {
            p.relative_x as i64 - 1
        } else if steps && self.move_dir == 'd' {
            p.relative_x as i64 + 1
        } else {
            p.relative_x as i64
        };
        let rel_y: i64 = if steps && self.move_dir == 'w' {
            p.relative_y as i64 - 1
        } else if steps && self.move_dir == 's' {
            p.relative_y as i64 + 1
        } else {
            p.relative_y as i64
        };
        let cs = (self.current_world_properties.chunk_size as i32) as i64;
        let crossed = (self.move_dir == 'd' && rel_x == cs) || (self.move_dir == 's' && rel_y == cs)
            || (self.move_dir == 'a' && rel_x == -1) || (self.move_dir == 'w' && rel_y == -1);
        if crossed && (self.move_dir == 'd' || self.move_dir == 'a') && !(i32::MIN < p.chunk_x
            && p.chunk_x < i32::MAX) {
            return false;
        }
        if crossed && (self.move_dir == 's' || self.move_dir == 'w') && !(i32::MIN < p.chunk_y
            && p.chunk_y < i32::MAX) {
            return false;
        }
        true
    }

    /// Whether `delta` milliseconds can be added to the client's clocks.
    pub fn tick_ready(&self, delta: u64) -> (r: bool)
        ensures
            r == ({
                &&& self.input_change + delta <= u64::MAX
                &&& self.attacking ==> self.client_player.autoattack_change + delta <= u64::MAX
                &&& self.attacking ==> self.client_player.special_attack_change + delta <= u64::MAX
            }),
    {
        let room = u64::MAX - delta;
        self.input_change <= room && (!self.attacking || (self.client_player.autoattack_change
            <= room && self.client_player.special_attack_change <= room))
    }
}

} // verus!
