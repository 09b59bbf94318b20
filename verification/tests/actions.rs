use journey::actions::{action_ready, execute_action, execute_action_with, ActionOutcome, ActionRolls, Applied};
use journey::names::words_ok;
use journey::client::{attack, spawn_request, Client};
use journey::queue::coyote_request;
use journey::entities::{Entity, Soldier, Unit};
use journey::queue::PostData;
use journey::strmap::StrMap;
use journey::tiles::Tile;
use journey::world::WorldProperties;
use std::collections::HashMap;

fn world() -> WorldProperties {
    WorldProperties {
        seed: 0,
        sealevel_bits: 0,
        chunk_size: 4,
        world_width: 2,
        world_height: 2,
        name: "Land".to_string(),
    }
}

fn band(ids: &[u64]) -> HashMap<u64, Unit> {
    let mut units = HashMap::new();
    for id in ids {
        units.insert(*id, Unit::soldier(format!("unit {}", id)));
    }
    units
}

fn creature(id: u64, rel_x: i32, rel_y: i32, food: i32, wood: i32, units: &[u64]) -> Entity {
    let mut e = Entity::default();
    e.id = id;
    e.name = format!("player{}", id);
    e.entity_type = "ogre".to_string();
    e.chunk_x = 0;
    e.chunk_y = 0;
    e.relative_x = rel_x;
    e.relative_y = rel_y;
    e.x = rel_x;
    e.y = rel_y;
    let mut resources = StrMap::new();
    resources.insert("wood".to_string(), wood);
    resources.insert("food".to_string(), food);
    e.resources = resources;
    e.units = band(units);
    e
}

fn tile(x: i32, y: i32, kind: &str) -> Tile {
    Tile {
        x,
        y,
        h_bits: 0x3f80_0000,
        relative_x: x,
        relative_y: y,
        chunk_x: 0,
        chunk_y: 0,
        tile_type: kind.to_string(),
        has_trees: false,
        gathered: false,
    }
}

fn sand_grid() -> Vec<Vec<Tile>> {
    let mut rows = Vec::new();
    for y in 0..4 {
        let mut row = Vec::new();
        for x in 0..4 {
            row.push(tile(x, y, "sand"));
        }
        rows.push(row);
    }
    rows
}

fn no_rolls() -> ActionRolls {
    ActionRolls {
        spawn_units: HashMap::new(),
        starve: HashMap::new(),
        water: HashMap::new(),
        attack: HashMap::new(),
        food: Vec::new(),
    }
}

fn request(command: &str, id: u64) -> PostData {
    let mut p = PostData::new();
    p.set("command", command.to_string());
    p.set_u64("id", id);
    p.set_i32("chunk_x", 0);
    p.set_i32("chunk_y", 0);
    p
}

fn applied(r: ActionOutcome) -> Applied {
    match r {
        ActionOutcome::Applied(a) => a,
        ActionOutcome::Unchanged => panic!("the action changed nothing"),
    }
}

fn amount(e: &Entity, key: &str) -> Option<i32> {
    e.resources.get(key).copied()
}

#[test]
fn move_right_steps_and_eats() {
    let mut chunk = HashMap::new();
    chunk.insert(7, creature(7, 1, 1, 10, 0, &[1, 2]));
    let mut p = request("move", 7);
    p.set("move_dir", "right".to_string());
    let a = applied(execute_action_with(&p, &world(), chunk, sand_grid(), &no_rolls()));
    let e = &a.entities[&7];
    assert_eq!((e.x, e.y, e.relative_x, e.relative_y), (2, 1, 2, 1));
    assert_eq!(amount(e, "food"), Some(9));
    assert!(a.moved.is_none());
    assert!(a.client_move.is_none());
    assert!(e.alive);
}

#[test]
fn move_across_the_edge_changes_chunk() {
    let mut chunk = HashMap::new();
    chunk.insert(7, creature(7, 3, 2, 10, 0, &[1]));
    let mut p = request("move", 7);
    p.set("move_dir", "right".to_string());
    let a = applied(execute_action_with(&p, &world(), chunk, sand_grid(), &no_rolls()));
    assert!(!a.entities.contains_key(&7));
    let (cx, cy, e) = a.moved.expect("the creature moves to the next chunk");
    assert_eq!((cx, cy), (1, 0));
    assert_eq!((e.x, e.relative_x, e.chunk_x), (4, 0, 1));
    let (name, ncx, ncy) = a.client_move.expect("the player's chunk is recorded");
    assert_eq!((name.as_str(), ncx, ncy), ("player7", 1, 0));
}

#[test]
fn move_off_the_world_is_refused() {
    let mut chunk = HashMap::new();
    chunk.insert(7, creature(7, 2, 0, 10, 0, &[1]));
    let mut p = request("move", 7);
    p.set("move_dir", "up".to_string());
    let r = execute_action_with(&p, &world(), chunk, sand_grid(), &no_rolls());
    assert!(matches!(r, ActionOutcome::Unchanged));
}

#[test]
fn move_of_a_missing_creature_changes_nothing() {
    let chunk = HashMap::new();
    let mut p = request("move", 7);
    p.set("move_dir", "down".to_string());
    let r = execute_action_with(&p, &world(), chunk, sand_grid(), &no_rolls());
    assert!(matches!(r, ActionOutcome::Unchanged));
}

#[test]
fn hunger_hurts_without_food() {
    let mut chunk = HashMap::new();
    chunk.insert(7, creature(7, 1, 1, 0, 0, &[1, 2]));
    let mut p = request("move", 7);
    p.set("move_dir", "down".to_string());
    let mut rolls = no_rolls();
    rolls.starve.insert(1, 4);
    rolls.starve.insert(2, 9);
    let a = applied(execute_action_with(&p, &world(), chunk, sand_grid(), &rolls));
    let e = &a.entities[&7];
    assert_eq!(e.units[&1].hp, 96);
    assert_eq!(e.units[&2].hp, 91);
    assert_eq!(amount(e, "food"), Some(0));
}

#[test]
fn water_costs_wood_or_health() {
    let mut grid = sand_grid();
    grid[2][1] = tile(1, 2, "water");
    let mut chunk = HashMap::new();
    chunk.insert(7, creature(7, 1, 1, 5, 2, &[1]));
    let mut p = request("move", 7);
    p.set("move_dir", "down".to_string());
    let a = applied(execute_action_with(&p, &world(), chunk, grid.clone(), &no_rolls()));
    assert_eq!(amount(&a.entities[&7], "wood"), Some(1));

    let mut chunk = HashMap::new();
    chunk.insert(7, creature(7, 1, 1, 5, 0, &[1]));
    let mut rolls = no_rolls();
    rolls.water.insert(1, 6);
    let a = applied(execute_action_with(&p, &world(), chunk, grid, &rolls));
    assert_eq!(a.entities[&7].units[&1].hp, 94);
    assert_eq!(amount(&a.entities[&7], "food"), Some(4));
}

#[test]
fn eating_a_corpse_gives_experience() {
    let mut corpse = creature(9, 2, 1, 0, 0, &[]);
    corpse.alive = false;
    let mut chunk = HashMap::new();
    chunk.insert(7, creature(7, 1, 1, 10, 0, &[1]));
    chunk.insert(9, corpse);
    let mut p = request("move", 7);
    p.set("move_dir", "right".to_string());
    let a = applied(execute_action_with(&p, &world(), chunk, sand_grid(), &no_rolls()));
    assert_eq!(a.entities[&7].experience, 10);
    assert!(!a.entities.contains_key(&9));
}

#[test]
fn auto_attack_hurts_the_target() {
    let mut chunk = HashMap::new();
    chunk.insert(7, creature(7, 1, 1, 10, 0, &[1]));
    chunk.insert(8, creature(8, 2, 2, 10, 0, &[3, 4]));
    let mut p = request("attack", 7);
    p.set_u64("target_id", 8);
    p.set("type", "auto".to_string());
    let mut rolls = no_rolls();
    // the target's band holds two spears: rolls fall in 2..7
    rolls.attack.insert(3, 2);
    rolls.attack.insert(4, 6);
    let a = applied(execute_action_with(&p, &world(), chunk, sand_grid(), &rolls));
    assert_eq!(a.entities[&8].units[&3].hp, 98);
    assert_eq!(a.entities[&8].units[&4].hp, 94);
    assert_eq!(a.entities[&7].units[&1].hp, 100);
}

#[test]
fn attack_out_of_reach_is_refused() {
    let mut chunk = HashMap::new();
    chunk.insert(7, creature(7, 0, 0, 10, 0, &[1]));
    chunk.insert(8, creature(8, 3, 3, 10, 0, &[3]));
    let mut p = request("attack", 7);
    p.set_u64("target_id", 8);
    p.set("type", "auto".to_string());
    let r = execute_action_with(&p, &world(), chunk, sand_grid(), &no_rolls());
    assert!(matches!(r, ActionOutcome::Unchanged));
}

#[test]
fn special_attack_leaves_the_target() {
    let mut chunk = HashMap::new();
    chunk.insert(7, creature(7, 1, 1, 10, 0, &[1]));
    chunk.insert(8, creature(8, 1, 2, 10, 0, &[3]));
    let mut p = request("attack", 7);
    p.set_u64("target_id", 8);
    p.set("type", "special".to_string());
    p.set("ability", "Shout".to_string());
    let a = applied(execute_action_with(&p, &world(), chunk, sand_grid(), &no_rolls()));
    assert_eq!(a.entities[&8].units[&3].hp, 100);
}

#[test]
fn felling_trees_gives_wood() {
    let mut grid = sand_grid();
    let mut t = tile(1, 1, "grass");
    t.has_trees = true;
    grid[1][1] = t;
    let mut chunk = HashMap::new();
    chunk.insert(7, creature(7, 1, 1, 3, 0, &[1]));
    let a = applied(execute_action_with(
        &request("gather_resource", 7),
        &world(),
        chunk,
        grid,
        &no_rolls(),
    ));
    assert_eq!(amount(&a.entities[&7], "wood"), Some(1));
    assert_eq!(amount(&a.entities[&7], "food"), Some(2));
    assert_eq!(a.tiles[1][1].tile_type, "sand");
    assert!(!a.tiles[1][1].has_trees);
}

#[test]
fn gathering_food_takes_the_roll_once() {
    let mut chunk = HashMap::new();
    chunk.insert(7, creature(7, 1, 1, 3, 0, &[1]));
    let mut rolls = no_rolls();
    rolls.food = vec![vec![1, 1, 1, 1], vec![1, 3, 1, 1], vec![1, 1, 1, 1], vec![1, 1, 1, 1]];
    let a = applied(execute_action_with(&request("gather_food", 7), &world(), chunk, sand_grid(), &rolls));
    assert_eq!(amount(&a.entities[&7], "food"), Some(6));
    assert!(a.tiles[1][1].gathered);
    assert!(!a.tiles[0][0].gathered);
    let a2 = applied(execute_action_with(
        &request("gather_food", 7),
        &world(),
        a.entities,
        a.tiles,
        &rolls,
    ));
    assert_eq!(amount(&a2.entities[&7], "food"), Some(6));
}

#[test]
fn spawn_places_an_ogre() {
    let mut p = request("spawn", 5);
    p.set_i32("x", 2);
    p.set_i32("y", 3);
    p.set("name", "alice".to_string());
    let mut rolls = no_rolls();
    rolls.spawn_units = band(&[11, 12]);
    let a = applied(execute_action_with(&p, &world(), HashMap::new(), sand_grid(), &rolls));
    let e = &a.entities[&5];
    assert_eq!((e.x, e.y, e.relative_x, e.relative_y), (2, 3, 2, 3));
    assert_eq!(e.entity_type, "ogre");
    assert_eq!(e.name, "alice");
    assert_eq!(amount(e, "food"), Some(10));
    assert_eq!(amount(e, "wood"), Some(0));
    assert_eq!(e.stats.abilities.get("3").map(|s| s.as_str()), Some("LEVEL 4"));
    assert_eq!(e.units.len(), 2);
    let (name, cx, cy) = a.client_move.expect("the player is recorded");
    assert_eq!((name.as_str(), cx, cy), ("alice", 0, 0));
}

#[test]
fn a_creature_without_units_dies() {
    let mut chunk = HashMap::new();
    chunk.insert(7, creature(7, 1, 1, 3, 0, &[]));
    let a = applied(execute_action_with(&request("wave", 7), &world(), chunk, sand_grid(), &no_rolls()));
    assert!(!a.entities[&7].alive);
}

#[test]
fn spawn_draws_a_starting_band() {
    let words: Vec<String> = vec!["Tarrant".to_string(), "Bolleck".to_string(), "".to_string()];
    let mut p = request("spawn", 5);
    p.set_i32("x", 1);
    p.set_i32("y", 1);
    p.set("name", "bob".to_string());
    let a = applied(execute_action(&p, &world(), HashMap::new(), sand_grid(), &words));
    let e = &a.entities[&5];
    assert!(e.units.len() <= 20 && !e.units.is_empty());
    assert!(e.units.values().all(|u| u.hp == 100));
}

#[test]
fn random_hunger_stays_in_range() {
    let mut chunk = HashMap::new();
    chunk.insert(7, creature(7, 1, 1, 0, 0, &[1, 2, 3]));
    let mut p = request("move", 7);
    p.set("move_dir", "left".to_string());
    let a = applied(execute_action(&p, &world(), chunk, sand_grid(), &Vec::new()));
    for u in a.entities[&7].units.values() {
        assert!(u.hp > 90 && u.hp <= 100);
    }
}

#[test]
fn ready_requests_are_recognised() {
    let mut chunk = HashMap::new();
    chunk.insert(7, creature(7, 1, 1, 10, 0, &[1]));
    let mut p = request("move", 7);
    assert!(!action_ready(&p, &world(), &chunk, &sand_grid()));
    p.set("move_dir", "up".to_string());
    assert!(action_ready(&p, &world(), &chunk, &sand_grid()));
    let mut no_chunk = PostData::new();
    no_chunk.set("command", "move".to_string());
    no_chunk.set_u64("id", 7);
    assert!(!action_ready(&no_chunk, &world(), &chunk, &sand_grid()));
    let gather = request("gather_food", 8);
    assert!(!action_ready(&gather, &world(), &chunk, &sand_grid()));
    let mut attack = request("attack", 7);
    assert!(!action_ready(&attack, &world(), &chunk, &sand_grid()));
    attack.set_u64("target_id", 99);
    assert!(action_ready(&attack, &world(), &chunk, &sand_grid()));
}

#[test]
fn overflowing_requests_are_refused() {
    let mut veteran = creature(7, 1, 1, 10, 0, &[1]);
    veteran.experience = i32::MAX - 5;
    let mut corpse = creature(9, 1, 2, 0, 0, &[]);
    corpse.alive = false;
    let mut chunk = HashMap::new();
    chunk.insert(7, veteran);
    chunk.insert(9, corpse);
    let mut p = request("move", 7);
    p.set("move_dir", "down".to_string());
    assert!(!action_ready(&p, &world(), &chunk, &sand_grid()));
    let mut spawn = request("spawn", 5);
    spawn.set_i32("x", i32::MAX);
    spawn.set_i32("y", 0);
    spawn.set("name", "z".to_string());
    let mut far = PostData::new();
    far.set("command", "spawn".to_string());
    far.set_u64("id", 5);
    far.set_i32("chunk_x", 1);
    far.set_i32("chunk_y", 0);
    far.set_i32("x", i32::MAX);
    far.set_i32("y", 0);
    far.set("name", "z".to_string());
    assert!(action_ready(&spawn, &world(), &HashMap::new(), &sand_grid()));
    assert!(!action_ready(&far, &world(), &HashMap::new(), &sand_grid()));
}

#[test]
fn word_lists_are_checked() {
    assert!(words_ok(&vec!["Tarrant".to_string(), "".to_string()]));
    assert!(!words_ok(&vec!["Tarrant".to_string()]));
    assert!(!words_ok(&vec!["T".to_string(), "".to_string()]));
    assert!(!words_ok(&vec!["Tärrant".to_string(), "".to_string()]));
    assert!(words_ok(&vec!["ab".to_string(), "Ü".to_string()]));
}

#[test]
fn felled_trees_give_no_more_wood() {
    let mut grid = sand_grid();
    let mut t = tile(1, 1, "grass");
    t.has_trees = true;
    grid[1][1] = t;
    let mut chunk = HashMap::new();
    chunk.insert(7, creature(7, 1, 1, 3, 0, &[1]));
    let first = applied(execute_action_with(&request("gather_resource", 7), &world(), chunk, grid, &no_rolls()));
    let second = applied(execute_action_with(
        &request("gather_resource", 7),
        &world(),
        first.entities,
        first.tiles,
        &no_rolls(),
    ));
    assert_eq!(amount(&second.entities[&7], "wood"), Some(1));
    assert_eq!(amount(&second.entities[&7], "food"), Some(2));
}

#[test]
fn the_clients_requests_are_carried_out() {
    let words = vec!["Tarrant".to_string(), "".to_string()];
    let c = Client::default(&words);
    let spawn = spawn_request(5, &c.client_player, &"ann".to_string());
    assert!(action_ready(&spawn, &world(), &HashMap::new(), &sand_grid()));
    let mut chunk = HashMap::new();
    chunk.insert(5, creature(5, 2, 2, 10, 0, &[1]));
    let mut coyote = creature(6, 1, 1, 10, 0, &[2]);
    coyote.entity_type = "coyote".to_string();
    chunk.insert(6, coyote.clone());
    let hunt = coyote_request(&coyote, &chunk, 0, 0, "up".to_string());
    assert!(action_ready(&hunt, &world(), &chunk, &sand_grid()));
    let target = chunk[&6].clone();
    let special = attack(5, &c.client_player, &target, "special".to_string(), "Shout".to_string());
    assert!(action_ready(&special, &world(), &chunk, &sand_grid()));
}

#[test]
fn bystanders_are_left_alone() {
    let mut chunk = HashMap::new();
    chunk.insert(7, creature(7, 1, 1, 10, 0, &[1]));
    chunk.insert(8, creature(8, 2, 2, 10, 0, &[3]));
    chunk.insert(9, creature(9, 3, 3, 4, 1, &[4]));
    let mut p = request("attack", 7);
    p.set_u64("target_id", 8);
    p.set("type", "auto".to_string());
    let mut rolls = no_rolls();
    rolls.attack.insert(3, 3);
    let a = applied(execute_action_with(&p, &world(), chunk, sand_grid(), &rolls));
    let b = &a.entities[&9];
    assert_eq!((b.x, b.y, b.units[&4].hp), (3, 3, 100));
    assert_eq!(amount(b, "food"), Some(4));
    let mut grid = sand_grid();
    let mut t = tile(3, 3, "grass");
    t.has_trees = true;
    grid[3][3] = t;
    let a = applied(execute_action_with(&request("gather_resource", 7), &world(), a.entities, grid, &no_rolls()));
    assert!(a.tiles[3][3].has_trees);
    assert_eq!(a.entities[&8].units[&3].hp, 97);
}

#[test]
fn the_dead_stay_dead() {
    let mut fallen = creature(8, 2, 1, 10, 0, &[3]);
    fallen.alive = false;
    let mut chunk = HashMap::new();
    chunk.insert(7, creature(7, 1, 1, 10, 0, &[1]));
    chunk.insert(8, fallen);
    let mut p = request("attack", 7);
    p.set_u64("target_id", 8);
    p.set("type", "auto".to_string());
    let mut rolls = no_rolls();
    rolls.attack.insert(3, 1);
    let a = applied(execute_action_with(&p, &world(), chunk, sand_grid(), &rolls));
    assert!(!a.entities[&8].alive);
    assert!(a.entities[&7].alive);
    let mut chunk = HashMap::new();
    chunk.insert(7, creature(7, 3, 1, 10, 0, &[]));
    let mut p = request("move", 7);
    p.set("move_dir", "right".to_string());
    let a = applied(execute_action_with(&p, &world(), chunk, sand_grid(), &no_rolls()));
    let (_, _, e) = a.moved.unwrap();
    assert!(!e.alive);
}
