use journey::classes::{CharacterStats, Gnoll, Goblin, Kobold, Ogre, Rat, UnitStats};
use journey::entities::{
    coyote_pack_from, default_units_from, Coyote, CoyoteUnit, Crafter, Donkey, Entities, Entity,
    Gatherer, GenerateDefault, Item, Scarab, Soldier, Unit, Worker,
};
use journey::names::{get_name, name_from_parts, split_lines};
use journey::strmap::StrMap;
use journey::text::{format_i32, format_u64, parse_i32, parse_u64};
use journey::tiles::Tile;
use journey::world::{build_chunk, main_biome, TileSample, WorldProperties};
use std::collections::HashMap;

fn words() -> Vec<String> {
    vec!["Tarrant".to_string(), "Bolleck".to_string(), "Ostra".to_string(), "".to_string()]
}

fn ability(s: &CharacterStats, slot: &str) -> String {
    s.abilities.get(slot).cloned().unwrap()
}

#[test]
fn ogre_statistics() {
    let s = CharacterStats::ogre();
    assert_eq!(ability(&s, "1"), "Shout");
    assert_eq!(ability(&s, "5"), "Earthquake");
    assert_eq!(s.stats.get("str").copied(), Some(9));
    assert_eq!(s.stats.get("agi").copied(), Some(2));
    assert_eq!(s.stats.get("int").copied(), Some(3));
}

#[test]
fn plain_statistics() {
    for s in [
        CharacterStats::default(),
        CharacterStats::kobold(),
        CharacterStats::gnoll(),
        CharacterStats::goblin(),
        CharacterStats::rat(),
    ] {
        assert_eq!(ability(&s, "2"), "");
        assert_eq!(s.stats.get("int").copied(), Some(5));
        assert_eq!(s.creature_type, "");
    }
    assert_eq!(UnitStats::default().stats.get("agi").copied(), Some(5));
}

#[test]
fn unit_kits() {
    let s = Unit::soldier("Ann".to_string());
    assert_eq!((s.name.as_str(), s.profession.as_str(), s.hp, s.energy), ("Ann", "soldier", 100, 100));
    assert!(s.items.contains_key("wooden spear"));
    assert!(s.items.contains_key("flax shirt"));
    assert_eq!(s.items.get("flax trousers").map(|i| i.quantity), Some(1));
    assert_eq!(Unit::gatherer("B".to_string()).items.entries().len(), 2);
    assert!(Unit::worker("C".to_string()).items.contains_key("shovel"));
    let c = Unit::crafter("D".to_string());
    assert!(c.items.contains_key("needle") && c.items.contains_key("knife"));
    assert_eq!(Unit::donkey("E".to_string()).profession, "carrier");
    let y = Unit::coyote();
    assert_eq!((y.name.as_str(), y.hp), ("coyote", 25));
    let d = Unit::default();
    assert_eq!((d.name.as_str(), d.profession.as_str(), d.hp, d.energy), ("default unit", "none", 1, 1));
    let i = Item { name: "rope".to_string(), quantity: 3 };
    assert_eq!(i.clone().quantity, 3);
}

#[test]
fn starting_band_by_slot() {
    let ids: Vec<u64> = (100..120).collect();
    let names: Vec<String> = (0..20).map(|i| format!("n{}", i)).collect();
    let band = default_units_from(&ids, &names);
    assert_eq!(band.len(), 20);
    assert_eq!(band[&100].profession, "soldier");
    assert_eq!(band[&104].profession, "gatherer");
    assert_eq!(band[&108].profession, "worker");
    assert_eq!(band[&112].profession, "crafter");
    assert_eq!(band[&119].profession, "carrier");
    assert_eq!(band[&119].name, "n19");
    let pack = coyote_pack_from(&(0..12).collect());
    assert_eq!(pack.len(), 12);
    assert!(pack.values().all(|u| u.name == "coyote"));
}

#[test]
fn drawn_bands_and_packs() {
    let band = Entity::generate_default_units(&words());
    assert!(band.len() <= 20 && band.len() >= 19);
    assert!(band.values().all(|u| u.hp == 100 && u.name.len() >= 1));
    let pack = Entity::generate_units("whatever".to_string());
    assert!(pack.values().all(|u| u.profession == "coyote"));
}

#[test]
fn default_creature() {
    let e = Entity::default();
    assert_eq!((e.x, e.y, e.chunk_x, e.id), (1, 1, 1, 0));
    assert_eq!(e.entity_type, "no entity");
    assert_eq!(e.name, "no name");
    assert!(e.alive && e.units.is_empty());
    assert_eq!(e.standing_tile.tile_type, "sand");
    let t = Tile::default();
    assert_eq!((t.x, t.y, t.tile_type.as_str()), (1, 1, "sand"));
}

#[test]
fn creature_constructors() {
    let s = Entity::scarab(5, 6, 1, 2, 1, 1, 42, "scarab".to_string(), "Sc".to_string(), &words());
    assert_eq!((s.x, s.y, s.relative_x, s.relative_y, s.id), (5, 6, 1, 2, 42));
    assert_eq!(s.entity_type, "scarab");
    assert!(!s.units.is_empty());
    let c = Entity::coyote(1, 2, 1, 2, 0, 0, 7, "coyote".to_string(), "Yip".to_string());
    assert_eq!(c.name, "Yip");
    assert!(c.units.values().all(|u| u.hp == 25));
}

#[test]
fn moving_steps_one_square() {
    let mut e = Entity::default();
    e.move_dir("up".to_string());
    assert_eq!((e.x, e.y, e.relative_y), (1, 0, 0));
    e.move_dir("down".to_string());
    assert_eq!((e.x, e.y, e.relative_y), (1, 1, 1));
    e.move_dir("left".to_string());
    e.move_dir("right".to_string());
    assert_eq!((e.x, e.relative_x), (1, 1));
    e.move_dir("sideways".to_string());
    assert_eq!((e.x, e.y), (1, 1));
    e.alive = false;
    e.move_dir("up".to_string());
    assert_eq!(e.y, 1);
}

#[test]
fn world_creature_moves() {
    let mut e = journey::world::Entity::default();
    e.move_dir("right".to_string());
    assert_eq!((e.x, e.relative_x), (2, 2));
    assert_eq!(e.entity_type, "No entity");
}

#[test]
fn damage_with_given_rolls() {
    let mut e = Entity::default();
    e.units.insert(1, Unit::soldier("a".to_string()));
    e.units.insert(2, Unit::gatherer("b".to_string()));
    let mut rolls = HashMap::new();
    rolls.insert(1, 7);
    rolls.insert(2, 3);
    e.damage_with_rolls("Shout", &rolls);
    assert_eq!(e.units[&1].hp, 93);
    assert_eq!(e.units[&2].hp, 97);
    let mut coyote = Entity::default();
    coyote.entity_type = "coyote".to_string();
    coyote.units.insert(1, Unit::coyote());
    coyote.damage_with_rolls("starve", &rolls);
    assert_eq!(coyote.units[&1].hp, 25);
}

#[test]
fn damage_removes_fallen_units() {
    let mut e = Entity::default();
    let mut weak = Unit::default();
    weak.hp = 2;
    e.units.insert(1, weak);
    e.units.insert(2, Unit::soldier("b".to_string()));
    let mut rolls = HashMap::new();
    rolls.insert(1, 5);
    rolls.insert(2, 5);
    e.damage_with_rolls("water", &rolls);
    assert!(!e.units.contains_key(&1));
    assert_eq!(e.units[&2].hp, 95);
}

#[test]
fn random_damage_in_range() {
    let mut e = Entity::default();
    e.units.insert(1, Unit::soldier("a".to_string()));
    e.damage("Earthquake".to_string());
    let hp = e.units[&1].hp;
    assert!((71..=75).contains(&hp));
    let mut t = Entity::default();
    t.units.insert(1, Unit::gatherer("a".to_string()));
    let mut source = Entity::default();
    source.units.insert(1, Unit::soldier("s".to_string()));
    source.units.insert(2, Unit::soldier("t".to_string()));
    t.damage_by_entity("auto".to_string(), source);
    let hp = t.units[&1].hp;
    assert!((94..=98).contains(&hp));
}

#[test]
fn damage_by_entity_with_rolls_uses_rolls() {
    let mut t = Entity::default();
    t.units.insert(4, Unit::worker("w".to_string()));
    let source = Entity::default();
    let mut rolls = HashMap::new();
    rolls.insert(4, 2);
    t.damage_by_entity_with_rolls(&source, &rolls);
    assert_eq!(t.units[&4].hp, 98);
}

#[test]
fn entities_default_and_clone() {
    let mut es = Entities::default();
    assert!(es.entities.is_empty() && es.x == 0 && es.y == 0);
    es.entities.insert(3, Entity::default());
    es.x = 2;
    let c = es.clone();
    assert_eq!((c.entities.len(), c.x), (1, 2));
}

#[test]
fn names_are_shaped() {
    assert_eq!(name_from_parts("Tarrant", 'b', 2), "Tnrrab");
    assert_eq!(name_from_parts("ab", 'x', 0), "X");
    let n = get_name(&words());
    assert!(n.len() >= 1);
    assert!(n.chars().next().unwrap().is_ascii_uppercase() || !n.chars().next().unwrap().is_ascii_alphabetic());
}

#[test]
fn lines_are_split() {
    let parts = split_lines("a\nbb\n\nc");
    assert_eq!(parts, vec!["a".to_string(), "bb".to_string(), "".to_string(), "c".to_string()]);
    assert_eq!(split_lines(""), vec!["".to_string()]);
    assert_eq!(split_lines("x\n"), vec!["x".to_string(), "".to_string()]);
}

#[test]
fn numbers_round_trip() {
    assert_eq!(format_u64(0), "0");
    assert_eq!(format_u64(18446744073709551615), "18446744073709551615");
    assert_eq!(format_i32(-2147483648), "-2147483648");
    assert_eq!(format_i32(42), "42");
    assert_eq!(parse_i32("-17"), Some(-17));
    assert_eq!(parse_i32("+5"), Some(5));
    assert_eq!(parse_i32("2147483648"), None);
    assert_eq!(parse_i32("1a"), None);
    assert_eq!(parse_i32(""), None);
    assert_eq!(parse_u64("18446744073709551615"), Some(u64::MAX));
    assert_eq!(parse_u64("18446744073709551616"), None);
    assert_eq!(parse_u64("-1"), None);
    for n in [0i32, 1, -1, 99, i32::MIN, i32::MAX] {
        assert_eq!(parse_i32(&format_i32(n)), Some(n));
    }
}

#[test]
fn string_map_keeps_one_value_per_key() {
    let mut m: StrMap<i32> = StrMap::new();
    m.insert("a".to_string(), 1);
    m.insert("b".to_string(), 2);
    m.insert("a".to_string(), 3);
    assert_eq!(m.get("a").copied(), Some(3));
    assert_eq!(m.get("c"), None);
    assert!(m.contains_key("b"));
    assert_eq!(m.entries().len(), 2);
    let c = m.clone();
    assert_eq!(c.get("b").copied(), Some(2));
}

fn sample(dunes: bool, ash: bool) -> TileSample {
    TileSample {
        h_bits: 0,
        dunes,
        ash_desert: ash,
        salt_desert: false,
        ice_desert: false,
        rock_desert: false,
    }
}

#[test]
fn chunks_follow_their_samples() {
    let samples = vec![sample(false, true), sample(true, false), sample(false, true), sample(false, false)];
    let (tiles, entities) = build_chunk(2, 1, 2, &samples);
    assert_eq!((tiles.x, tiles.y), (1, 2));
    assert_eq!(tiles.biome, "ash_desert");
    assert_eq!(tiles.tiles[0][0].tile_type, "ash");
    assert_eq!(tiles.tiles[0][1].tile_type, "dune_sand");
    assert_eq!(tiles.tiles[1][1].tile_type, "sand");
    assert_eq!((tiles.tiles[1][0].x, tiles.tiles[1][0].y), (2, 5));
    assert!(entities.entities.is_empty());
    assert_eq!(main_biome(&vec![sample(true, false)]), 0);
    let w = WorldProperties::default();
    assert_eq!((w.chunk_size, w.world_width), (0, 0));
}

#[test]
fn chunk_generation_is_deterministic() {
    let samples = vec![
        sample(true, false),
        sample(false, true),
        sample(true, true),
        sample(false, false),
        sample(true, false),
        sample(false, true),
        sample(true, false),
        sample(false, false),
        sample(false, false),
    ];
    let (t1, e1) = build_chunk(3, -2, 4, &samples);
    let (t2, e2) = build_chunk(3, -2, 4, &samples);
    assert_eq!((t1.x, t1.y), (t2.x, t2.y));
    assert_eq!(t1.biome, t2.biome);
    assert_eq!(t1.biome, "dunes");
    assert_eq!(t1.tiles.len(), t2.tiles.len());
    for (r1, r2) in t1.tiles.iter().zip(t2.tiles.iter()) {
        assert_eq!(r1.len(), r2.len());
        for (a, b) in r1.iter().zip(r2.iter()) {
            assert_eq!((a.x, a.y, a.relative_x, a.relative_y), (b.x, b.y, b.relative_x, b.relative_y));
            assert_eq!((a.chunk_x, a.chunk_y, a.h_bits), (b.chunk_x, b.chunk_y, b.h_bits));
            assert_eq!((&a.tile_type, a.has_trees, a.gathered), (&b.tile_type, b.has_trees, b.gathered));
        }
    }
    assert_eq!((t1.tiles[2][1].x, t1.tiles[2][1].y), (-5, 14));
    assert!(e1.entities.is_empty() && e2.entities.is_empty());
    assert_eq!((e1.x, e1.y), (e2.x, e2.y));
}
