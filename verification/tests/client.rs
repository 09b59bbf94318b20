use journey::client::{
    attack, calculate_hash, conduct_action, gather_targets, move_player, player_identity,
    screen_offset, sort_targets, spawn_request, targetable_sorted, Client, Key, INPUT_DELAY,
};
use journey::draw::{hud_element, hud_text_cell, map_cell, text_cell, Glyphs, NotFound, UiTile};
use journey::classes::Ogre;
use journey::entities::Entity;
use journey::menu::{ButtonState, ButtonStatus};
use journey::queue::{
    add_to_queue, chunk_window, coyote_request, queue_coyote_actions, ActionQueue, MoveSet, PostData,
};
use journey::server::{add_client_id, check_if_client_exists, client_exists, set_client_chunk, ClientIds, IdQueryData};
use journey::tiles::Tile;
use std::collections::HashMap;
use std::hash::{Hash, Hasher};

fn words() -> Vec<String> {
    vec!["Tarrant".to_string(), "Bolleck".to_string(), "".to_string()]
}

fn param(p: &PostData, key: &str) -> Option<String> {
    p.get(key).cloned()
}

fn client() -> Client {
    let mut c = Client::default(&words());
    c.current_world_properties.chunk_size = 4;
    c.current_world_properties.world_width = 3;
    c.current_world_properties.world_height = 5;
    c
}

fn at(id: u64, x: i32, y: i32) -> Entity {
    let mut e = Entity::default();
    e.id = id;
    e.x = x;
    e.y = y;
    e
}

#[test]
fn client_starts_fresh() {
    let c = Client::default(&words());
    assert!(c.running && c.first_loop && !c.attacking);
    assert_eq!(c.view, "game");
    assert_eq!(c.move_dir, '?');
    assert_eq!((c.render_x, c.render_y), (2, 1));
    assert_eq!((c.client_player.x, c.client_player.y, c.client_player.hp), (2, 2, 100));
    assert_eq!(c.client_player.special_attack_change, 1000);
    assert_eq!(c.graphics_mode, "curses");
    assert_eq!(c.target.entity_type, "no entity");
    assert!(c.client_player.units.len() >= 19);
}

#[test]
fn requests_carry_their_parameters() {
    let c = client();
    let target = at(77, 0, 0);
    let g = conduct_action(5, &c.client_player, &target, "gather_food".to_string());
    assert_eq!(param(&g, "command").as_deref(), Some("gather_food"));
    assert_eq!(param(&g, "target_id").as_deref(), Some("77"));
    assert_eq!(param(&g, "chunk_x").as_deref(), Some("0"));
    let a = attack(5, &c.client_player, &target, "special".to_string(), "Shout".to_string());
    assert_eq!(param(&a, "type").as_deref(), Some("special"));
    assert_eq!(param(&a, "ability").as_deref(), Some("Shout"));
    assert_eq!(param(&a, "id").as_deref(), Some("5"));
    let m = move_player(5, "left".to_string(), &c.client_player).expect("a direction");
    assert_eq!(param(&m, "move_dir").as_deref(), Some("left"));
    assert!(move_player(5, "north".to_string(), &c.client_player).is_none());
    let s = spawn_request(5, &c.client_player, &"zed".to_string());
    assert_eq!(param(&s, "x").as_deref(), Some("2"));
    assert_eq!(param(&s, "name").as_deref(), Some("zed"));
}

#[test]
fn identity_from_name_and_secret() {
    let args = vec!["client".to_string(), "ann".to_string(), "pw".to_string()];
    let (name, id) = player_identity(&args);
    assert_eq!(name, "ann");
    assert_eq!(id, calculate_hash(&"pwann".to_string()));
    let (_, again) = player_identity(&args);
    assert_eq!(id, again);
    let mut h = std::collections::hash_map::DefaultHasher::new();
    "pwann".to_string().hash(&mut h);
    assert_eq!(id, h.finish());
    let (anon, _) = player_identity(&vec!["client".to_string()]);
    assert_eq!(anon, "");
}

#[test]
fn grid_cells_are_clamped() {
    let mut c = client();
    c.client_player.chunk_x = 0;
    c.client_player.chunk_y = 4;
    assert_eq!(c.grid_chunk_at(0, 0), (0, 3));
    assert_eq!(c.grid_chunk_at(1, 3), (1, 4));
    // past the last row the client takes the width's last chunk
    assert_eq!(c.grid_chunk_at(2, 1), (0, 2));
    c.place_player(2, 1);
    assert_eq!((c.camera.x, c.camera.y), (6, 3));
    assert_eq!(screen_offset(2, 4, 1, 6), Some(3));
    assert_eq!(screen_offset(i32::MAX, 4, 1, 6), None);
    assert!(c.grid_ready(0, 0));
    assert!(c.place_ready(2, 1));
    assert!(!c.place_ready(i32::MAX, 1));
}

#[test]
fn keys_change_the_client() {
    let mut c = client();
    let sorted: Vec<Entity> = Vec::new();
    assert_eq!(c.handle_key(Key::Char('d'), 1, 1, &sorted).0.is_none(), true);
    assert_eq!(c.move_dir, 'd');
    c.handle_key(Key::Char('m'), 1, 1, &sorted);
    assert_eq!(c.view, "map");
    c.handle_key(Key::Char('u'), 1, 1, &sorted);
    assert_eq!(c.view, "map");
    c.handle_key(Key::Char('m'), 1, 1, &sorted);
    assert_eq!(c.view, "game");
    c.handle_key(Key::Char('r'), 1, 1, &sorted);
    assert_eq!(c.view, "resources");
    c.handle_key(Key::Char('c'), 1, 1, &sorted);
    assert!(c.attacking);
    c.handle_key(Key::Char('t'), 1, 1, &sorted);
    assert!(c.endless_move_mode);
    let (req, refresh) = c.handle_key(Key::Char('g'), 1, 1, &sorted);
    assert!(refresh);
    assert_eq!(param(&req.unwrap(), "command").as_deref(), Some("gather_resource"));
    c.handle_key(Key::Delete, 1, 1, &sorted);
    assert!(!c.running);
}

#[test]
fn special_attacks_wait_for_the_cooldown() {
    let mut c = client();
    c.client_player.stats = journey::classes::CharacterStats::default();
    c.client_player.stats.abilities.insert("2".to_string(), "Charge".to_string());
    c.client_player.special_attack_change = 1001;
    let sorted: Vec<Entity> = Vec::new();
    let (req, _) = c.handle_key(Key::Char('2'), 1, 1, &sorted);
    assert_eq!(param(&req.unwrap(), "ability").as_deref(), Some("Charge"));
    assert_eq!(c.client_player.special_attack_change, 0);
    let (req, _) = c.handle_key(Key::Char('2'), 1, 1, &sorted);
    assert!(req.is_none());
}

#[test]
fn tab_cycles_targets_in_square_order() {
    let mut c = client();
    let mut m = HashMap::new();
    m.insert(1, at(1, 5, 1));
    m.insert(2, at(2, 3, 0));
    m.insert(3, at(3, 0, 1));
    let sorted = targetable_sorted(&m);
    let ids: Vec<u64> = sorted.iter().map(|e| e.id).collect();
    assert_eq!(ids, vec![2, 3, 1]);
    c.handle_key(Key::Char('\t'), 99, 3, &sorted);
    assert_eq!(c.target_index, 1);
    assert_eq!(c.target.id, 3);
    c.handle_key(Key::Char('\t'), 99, 3, &sorted);
    assert_eq!(c.target.id, 1);
    c.handle_key(Key::Char('\t'), 99, 3, &sorted);
    assert_eq!(c.target_index, 0);
    assert_eq!(c.target.id, 2);
    // the player's own creature is never targeted
    c.handle_key(Key::Char('\t'), 3, 3, &sorted);
    assert_eq!(c.target_index, 1);
    assert_eq!(c.target.id, 2);
    c.handle_key(Key::Char('\t'), 99, 3, &sorted);
    assert_eq!(c.target_index, 2);
    assert_eq!(c.target.id, 1);
}

#[test]
fn sorting_is_stable() {
    let list = vec![at(1, 2, 2), at(2, 1, 2), at(3, 2, 2), at(4, 0, 0)];
    let ids: Vec<u64> = sort_targets(&list).iter().map(|e| e.id).collect();
    assert_eq!(ids, vec![4, 2, 1, 3]);
}

#[test]
fn targets_gather_from_chunks() {
    let mut t = HashMap::new();
    t.insert(1, at(1, 0, 0));
    let mut chunk = HashMap::new();
    chunk.insert(1, at(1, 9, 9));
    chunk.insert(2, at(2, 1, 1));
    gather_targets(&mut t, &chunk);
    assert_eq!(t.len(), 2);
    assert_eq!(t[&1].x, 9);
    let mut c = client();
    c.target = at(2, 0, 0);
    c.refresh_target(&t);
    assert_eq!(c.target.x, 1);
}

#[test]
fn steps_wait_for_the_input_delay() {
    let mut c = client();
    c.move_dir = 'w';
    let (req, _) = c.move_step(9);
    assert!(req.is_none());
    assert_eq!(c.move_dir, '?');
    assert_eq!(c.client_player.y, 2);
    c.move_dir = 'w';
    c.input_change = INPUT_DELAY + 1;
    let (req, refresh) = c.move_step(9);
    assert_eq!(param(&req.unwrap(), "move_dir").as_deref(), Some("up"));
    assert!(!refresh);
    assert_eq!((c.client_player.y, c.client_player.relative_y, c.input_change), (1, 1, 0));
    assert_eq!(c.camera.y, -1);
}

#[test]
fn stepping_past_the_edge_changes_chunk() {
    let mut c = client();
    c.client_player.relative_x = 3;
    c.client_player.render_x = 20;
    c.move_dir = 'd';
    c.endless_move_mode = true;
    c.input_change = 600;
    let (_, refresh) = c.move_step(9);
    assert!(refresh);
    assert_eq!((c.client_player.chunk_x, c.client_player.relative_x), (1, 4));
    assert_eq!(c.move_dir, 'd');
    assert_eq!(c.camera.x, 0);
}

#[test]
fn auto_attacks_follow_the_cooldown() {
    let mut c = client();
    assert!(c.tick(1, 700).is_none());
    assert_eq!(c.input_change, 700);
    c.attacking = true;
    assert!(c.tick(1, 600).is_none());
    let r = c.tick(1, 600).expect("the cooldown has passed");
    assert_eq!(param(&r, "type").as_deref(), Some("auto"));
    assert_eq!(c.client_player.autoattack_change, 0);
    assert_eq!(c.client_player.special_attack_change, 2200);
}

#[test]
fn seeing_the_own_creature_updates_the_player() {
    let mut c = client();
    c.target = at(50, 0, 0);
    let mut me = at(9, 7, 8);
    me.level = 3;
    me.relative_x = 3;
    assert!(c.see_entity(9, &me, 4, 5, 9));
    assert_eq!((c.client_player.x, c.client_player.y, c.client_player.level), (7, 8, 3));
    assert_eq!((c.client_player.render_x, c.client_player.render_y), (4, 5));
    let other = at(10, 7, 8);
    assert!(c.see_entity(10, &other, 4, 5, 9));
    assert_eq!(c.standing_entity.id, 10);
    assert!(!c.see_entity(50, &other, 4, 5, 9));
    assert!(!c.see_entity(11, &other, -1, 5, 9));
    let mut t = Tile::default();
    t.x = 7;
    t.y = 8;
    t.tile_type = "grass".to_string();
    c.see_tile(&t);
    assert_eq!(c.standing_tile.tile_type, "grass");
    c.begin_frame();
    assert_eq!(c.standing_tile.tile_type, "sand");
    assert_eq!(c.standing_entity.entity_type, "no entity");
}

#[test]
fn glyph_tables() {
    let g = Glyphs::default();
    let w = g.tile_glyph("water");
    assert_eq!((w.symbol.as_str(), w.color), ("~", 2));
    assert_eq!(g.world_tile_glyph("oasis").color, 4);
    assert_eq!(g.entity_glyph("scarab").symbol, "S");
    assert_eq!(g.entity_glyph("dragon").symbol, "?");
    assert_eq!(UiTile::not_found().color, 0);
    assert_eq!(g.hud_glyph("hud_text").color, 3);
    assert_eq!(map_cell(3, 4), Some((5, 3)));
    assert_eq!(map_cell(64, 4), None);
    assert_eq!(map_cell(0, 31), Some((32, 0)));
    assert_eq!(map_cell(0, 32), None);
    assert_eq!(hud_element(32, 5), "border");
    assert_eq!(hud_element(33, 5), "hud_body");
    assert_eq!(hud_element(40, 63), "border");
    assert_eq!(text_cell(2, 3), (3, 3));
    assert_eq!(hud_text_cell(2, 3), (35, 3));
}

#[test]
fn buttons_press_and_release() {
    let mut b = ButtonState { status: ButtonStatus::Neutral, previous_status: ButtonStatus::Neutral };
    b.check_if_pressed(true);
    assert_eq!(b.status, ButtonStatus::Neutral);
    b.check_if_hovered(true);
    b.check_if_pressed(true);
    assert_eq!(b.status, ButtonStatus::Pressed);
    assert_eq!(b.previous_status, ButtonStatus::Pressed);
    b.check_if_pressed(false);
    assert_eq!(b.status, ButtonStatus::Released);
    b.check_if_hovered(false);
    assert_eq!(b.status, ButtonStatus::Neutral);
    b.hover();
    b.press();
    b.release();
    assert_eq!(b.status, ButtonStatus::Released);
    b.neutralize();
    assert_eq!(b.status, ButtonStatus::Neutral);
}

#[test]
fn queue_is_first_in_first_out() {
    let mut q = ActionQueue::new();
    let mut a = PostData::new();
    a.set("command", "spawn".to_string());
    let mut b = PostData::new();
    b.set("command", "move".to_string());
    add_to_queue(&mut q, a);
    add_to_queue(&mut q, b);
    assert_eq!(param(&q.take_next().unwrap(), "command").as_deref(), Some("spawn"));
    assert_eq!(param(&q.take_next().unwrap(), "command").as_deref(), Some("move"));
    assert!(q.take_next().is_none());
}

#[test]
fn directions_are_drawn_from_four() {
    let m = MoveSet::default();
    for _ in 0..20 {
        let d = m.get_direction();
        assert!(["up", "down", "left", "right"].contains(&d.as_str()));
    }
}

#[test]
fn windows_stay_in_the_world() {
    assert_eq!(chunk_window(0, 0, 4, 4), (0, 0, 2, 2));
    assert_eq!(chunk_window(2, 3, 4, 6), (1, 2, 3, 5));
    assert_eq!(chunk_window(3, 1, 4, 4), (2, 0, 3, 3));
}

#[test]
fn coyotes_hunt_or_wander() {
    let mut coyote = at(1, 5, 5);
    coyote.entity_type = "coyote".to_string();
    coyote.chunk_x = 2;
    let mut chunk = HashMap::new();
    chunk.insert(1, coyote.clone());
    let r = coyote_request(&coyote, &chunk, 2, 0, "left".to_string());
    assert_eq!(param(&r, "command").as_deref(), Some("move"));
    assert_eq!(param(&r, "move_dir").as_deref(), Some("left"));
    chunk.insert(2, at(2, 6, 6));
    chunk.insert(3, at(3, 7, 5));
    let r = coyote_request(&coyote, &chunk, 2, 0, "left".to_string());
    assert_eq!(param(&r, "command").as_deref(), Some("attack"));
    assert_eq!(param(&r, "target_id").as_deref(), Some("2"));
    assert_eq!(param(&r, "chunk_x").as_deref(), Some("2"));
    let mut q = ActionQueue::new();
    queue_coyote_actions(&mut q, &chunk, 2, 0);
    assert_eq!(q.queue.len(), 1);
}

#[test]
fn players_register_once() {
    let mut ids = ClientIds::default();
    assert!(!check_if_client_exists(&ids, "ann", 1));
    let query = IdQueryData { id: 7, username: "ann".to_string() };
    assert!(!client_exists(&mut ids, &query));
    assert!(client_exists(&mut ids, &query));
    assert!(check_if_client_exists(&ids, "ann", 99));
    set_client_chunk(&mut ids, "ann", 3, 4);
    let c = ids.ids.get("ann").copied().unwrap();
    assert_eq!((c.id, c.chunk_x, c.chunk_y), (7, 3, 4));
    set_client_chunk(&mut ids, "bob", 1, 1);
    assert!(!check_if_client_exists(&ids, "bob", 0));
    add_client_id(&mut ids, "bob".to_string(), 8);
    assert_eq!(ids.ids.get("bob").copied().unwrap().chunk_x, 0);
}

#[test]
fn readiness_checks_guard_the_steps() {
    let mut c = client();
    assert!(!c.key_ready(Key::Char('\t'), 0));
    assert!(c.key_ready(Key::Char('\t'), 2));
    c.client_player.special_attack_change = 5000;
    assert!(c.key_ready(Key::Char('3'), 0));
    c.client_player.stats = journey::classes::CharacterStats::ogre();
    assert!(c.key_ready(Key::Char('3'), 0));
    assert!(c.move_ready());
    c.move_dir = 'a';
    c.input_change = 1000;
    c.client_player.x = i32::MIN;
    assert!(!c.move_ready());
    assert!(c.tick_ready(10));
    c.input_change = u64::MAX;
    assert!(!c.tick_ready(1));
}

#[test]
fn numbers_in_requests_read_back() {
    let mut p = PostData::new();
    p.set_i32("chunk_x", -12);
    p.set_u64("id", 18446744073709551615);
    assert_eq!(journey::text::parse_i32(p.get("chunk_x").unwrap()), Some(-12));
    assert_eq!(journey::text::parse_u64(p.get("id").unwrap()), Some(u64::MAX));
}

#[test]
fn client_and_server_steps_agree() {
    let mut c = client();
    let mut e = at(9, c.client_player.x, c.client_player.y);
    e.relative_x = c.client_player.relative_x;
    e.relative_y = c.client_player.relative_y;
    c.move_dir = 's';
    c.input_change = INPUT_DELAY + 1;
    let (req, _) = c.move_step(9);
    let dir = req.unwrap().get("move_dir").cloned().unwrap();
    e.move_dir(dir);
    assert_eq!((e.x, e.y), (c.client_player.x, c.client_player.y));
    assert_eq!((e.relative_x, e.relative_y), (c.client_player.relative_x, c.client_player.relative_y));
}

#[test]
fn views_stay_among_four() {
    let mut c = client();
    let sorted: Vec<Entity> = Vec::new();
    for key in ['u', 'm', 'r', 'u', 'r', 'm', 'm', 'r', 'r'] {
        c.handle_key(Key::Char(key), 1, 1, &sorted);
        assert!(["game", "map", "unit", "resources"].contains(&c.view.as_str()));
    }
    assert_eq!(c.view, "resources");
}

#[test]
fn a_run_keeps_the_view_known() {
    let mut c = client();
    let sorted: Vec<Entity> = Vec::new();
    let turns = [
        (Key::Char('m'), "map"),
        (Key::Char('u'), "map"),
        (Key::Char('x'), "map"),
        (Key::Char('m'), "game"),
        (Key::Char('r'), "resources"),
        (Key::Other, "resources"),
        (Key::Char('r'), "game"),
        (Key::Char('u'), "unit"),
    ];
    assert_eq!(c.view, "game");
    for (key, view) in turns {
        c.begin_frame();
        c.handle_key(key, 1, 1, &sorted);
        c.move_step(1);
        c.tick(1, 40);
        assert_eq!(c.view, view);
    }
}

#[test]
fn a_run_steps_once_per_input_delay() {
    let mut c = client();
    let sorted: Vec<Entity> = Vec::new();
    c.handle_key(Key::Char('t'), 1, 1, &sorted);
    c.handle_key(Key::Char('d'), 1, 1, &sorted);
    let mut stepped_at = Vec::new();
    let mut clock: u64 = 0;
    for _ in 0..12 {
        c.begin_frame();
        c.handle_key(Key::Other, 1, 1, &sorted);
        let before = c.input_change;
        let (req, _) = c.move_step(1);
        if req.is_some() {
            assert!(before > INPUT_DELAY);
            assert_eq!(c.input_change, 0);
            stepped_at.push(clock);
        } else {
            assert_eq!(c.input_change, before);
        }
        assert_eq!(c.move_dir, 'd');
        c.tick(1, 200);
        clock += 200;
    }
    assert_eq!(stepped_at, vec![600, 1200, 1800]);
    for w in stepped_at.windows(2) {
        assert!(w[1] - w[0] > INPUT_DELAY);
    }
    c.handle_key(Key::Char('t'), 1, 1, &sorted);
    c.move_step(1);
    assert_eq!(c.move_dir, '?');
}
