use crate::classes::{plain_stats, stat_table, CharacterStats, CharacterStatsView, UnitStats};
use crate::strmap::{keys_distinct, lemma_map_of_contains, lemma_map_of_first, map_of, str_eq, Duplicate, StrMap};
use crate::tiles::{default_tile, Tile, TileView};
use crate::ids::id_keys;
use crate::random::{random_in, random_u64};
use crate::names::{drawn_name, get_name, name_source_ok, texts};
use std::collections::HashMap;
use vstd::prelude::*;
use vstd::set::fold::is_fun_commutative;
use vstd::string::StringExecFns;

verus! {

broadcast use vstd::std_specs::hash::group_hash_axioms;

/// What an item stands for.
pub struct ItemView {
    pub name: Seq<char>,
    pub quantity: u8,
}

/// A carried item and how many of it.
pub struct Item {
    pub name: String,
    pub quantity: u8,
}

impl View for Item {
    type V = ItemView;

    open spec fn view(&self) -> ItemView {
        ItemView { name: self.name@, quantity: self.quantity }
    }
}

impl Clone for Item {
    fn clone(&self) -> (r: Item)
        ensures
            r == *self,
    {
        Item { name: self.name.clone(), quantity: self.quantity }
    }
}

impl Duplicate for Item {
    fn duplicate(&self) -> (r: Item) {
        self.clone()
    }
}

/// What a unit stands for.
pub struct UnitView {
    pub name: Seq<char>,
    pub hp: i32,
    pub energy: i32,
    pub profession: Seq<char>,
    pub stats: Map<Seq<char>, u8>,
    pub items: Map<Seq<char>, ItemView>,
}

/// One member of a creature's band.
pub struct Unit {
    pub name: String,
    pub hp: i32,
    pub energy: i32,
    pub profession: String,
    pub stats: UnitStats,
    pub items: StrMap<Item>,
}

impl View for Unit {
    type V = UnitView;

    open spec fn view(&self) -> UnitView {
        UnitView {
            name: self.name@,
            hp: self.hp,
            energy: self.energy,
            profession: self.profession@,
            stats: self.stats@,
            items: self.items@,
        }
    }
}

impl Clone for Unit {
    fn clone(&self) -> (r: Unit)
        ensures
            r@ == self@,
    {
        Unit {
            name: self.name.clone(),
            hp: self.hp,
            energy: self.energy,
            profession: self.profession.clone(),
            stats: self.stats.clone(),
            items: self.items.clone(),
        }
    }
}

/// One piece of a starting kit.
pub open spec fn kit_item(name: Seq<char>) -> ItemView {
    ItemView { name, quantity: 1 }
}

/// The clothes every worker starts with: a flax shirt and flax trousers.
pub open spec fn clothes() -> Map<Seq<char>, ItemView> {
    Map::empty().insert("flax shirt"@, kit_item("flax shirt"@)).insert(
        "flax trousers"@,
        kit_item("flax trousers"@),
    )
}

/// A unit with every attribute at 5.
pub open spec fn unit_profile(
    name: Seq<char>,
    profession: Seq<char>,
    hp: i32,
    energy: i32,
    items: Map<Seq<char>, ItemView>,
) -> UnitView {
    UnitView { name, hp, energy, profession, stats: stat_table(5, 5, 5), items }
}

pub open spec fn default_unit() -> UnitView {
    unit_profile("default unit"@, "none"@, 1, 1, Map::empty())
}

pub open spec fn soldier_unit(name: Seq<char>) -> UnitView {
    unit_profile(
        name,
        "soldier"@,
        100,
        100,
        clothes().insert("wooden spear"@, kit_item("wooden spear"@)),
    )
}

pub open spec fn gatherer_unit(name: Seq<char>) -> UnitView {
    unit_profile(name, "gatherer"@, 100, 100, clothes())
}

pub open spec fn worker_unit(name: Seq<char>) -> UnitView {
    unit_profile(name, "worker"@, 100, 100, clothes().insert("shovel"@, kit_item("shovel"@)))
}

pub open spec fn crafter_unit(name: Seq<char>) -> UnitView {
    unit_profile(
        name,
        "crafter"@,
        100,
        100,
        clothes().insert("needle"@, kit_item("needle"@)).insert("knife"@, kit_item("knife"@)),
    )
}

pub open spec fn donkey_unit(name: Seq<char>) -> UnitView {
    unit_profile(name, "carrier"@, 100, 100, Map::empty())
}

pub open spec fn coyote_unit() -> UnitView {
    unit_profile("coyote"@, "coyote"@, 25, 100, Map::empty())
}

fn add_kit_item(items: &mut StrMap<Item>, name: &str)
    ensures
        final(items)@ == old(items)@.insert(name@, kit_item(name@)),
{
    items.insert(String::from_str(name), Item { name: String::from_str(name), quantity: 1 });
}

fn clothes_kit() -> (r: StrMap<Item>)
    ensures
        r@ == clothes(),
{
    let mut items = StrMap::new();
    add_kit_item(&mut items, "flax shirt");
    add_kit_item(&mut items, "flax trousers");
    items
}

fn new_unit(name: String, profession: &str, hp: i32, energy: i32, items: StrMap<Item>) -> (r: Unit)
    ensures
        r@ == unit_profile(name@, profession@, hp, energy, items@),
{
    Unit {
        name,
        hp,
        energy,
        profession: String::from_str(profession),
        stats: UnitStats::default(),
        items,
    }
}

impl Default for Unit {
    fn default() -> (r: Unit)
        ensures
            r@ == default_unit(),
    {
        new_unit(String::from_str("default unit"), "none", 1, 1, StrMap::new())
    }
}

pub trait Soldier {
    fn soldier(name: String) -> Unit;
}

impl Soldier for Unit {
    /// A soldier: clothes and a wooden spear.
    fn soldier(name: String) -> (r: Unit)
        ensures
            r@ == soldier_unit(name@),
    {
        let mut items = clothes_kit();
        add_kit_item(&mut items, "wooden spear");
        new_unit(name, "soldier", 100, 100, items)
    }
}

pub trait Gatherer {
    fn gatherer(name: String) -> Unit;
}

impl Gatherer for Unit {
    /// A gatherer: clothes only.
    fn gatherer(name: String) -> (r: Unit)
        ensures
            r@ == gatherer_unit(name@),
    {
        new_unit(name, "gatherer", 100, 100, clothes_kit())
    }
}

pub trait Worker {
    fn worker(name: String) -> Unit;
}

impl Worker for Unit {
    /// A worker: clothes and a shovel.
    fn worker(name: String) -> (r: Unit)
        ensures
            r@ == worker_unit(name@),
    {
        let mut items = clothes_kit();
        add_kit_item(&mut items, "shovel");
        new_unit(name, "worker", 100, 100, items)
    }
}

pub trait Crafter {
    fn crafter(name: String) -> Unit;
}

impl Crafter for Unit {
    /// A crafter: clothes, a needle and a knife.
    fn crafter(name: String) -> (r: Unit)
        ensures
            r@ == crafter_unit(name@),
    {
        let mut items = clothes_kit();
        add_kit_item(&mut items, "needle");
        add_kit_item(&mut items, "knife");
        new_unit(name, "crafter", 100, 100, items)
    }
}

pub trait Donkey {
    fn donkey(name: String) -> Unit;
}

impl Donkey for Unit {
    /// A pack animal that carries nothing yet.
    fn donkey(name: String) -> (r: Unit)
        ensures
            r@ == donkey_unit(name@),
    {
        new_unit(name, "carrier", 100, 100, StrMap::new())
    }
}

pub trait CoyoteUnit {
    fn coyote() -> Unit;
}

impl CoyoteUnit for Unit {
    /// A coyote of a pack.
    fn coyote() -> (r: Unit)
        ensures
            r@ == coyote_unit(),
    {
        new_unit(String::from_str("coyote"), "coyote", 25, 100, StrMap::new())
    }
}

/// What the units of a band stand for.
pub open spec fn units_view(units: Map<u64, Unit>) -> Map<u64, UnitView> {
    units.map_values(|u: Unit| u@)
}

/// What a creature stands for.
pub struct EntityView {
    pub x: i32,
    pub y: i32,
    pub experience: i32,
    pub level: i32,
    pub id: u64,
    pub name: Seq<char>,
    pub relative_x: i32,
    pub relative_y: i32,
    pub chunk_x: i32,
    pub chunk_y: i32,
    pub entity_type: Seq<char>,
    pub stats: CharacterStatsView,
    pub resources: Map<Seq<char>, i32>,
    pub units: Map<u64, UnitView>,
    pub standing_tile: TileView,
    pub alive: bool,
    pub target_entity_id: u64,
}

/// A creature of the world: where it stands, who it is, its band of units
/// and what it carries.
pub struct Entity {
    pub x: i32,
    pub y: i32,
    pub experience: i32,
    pub level: i32,
    pub id: u64,
    pub name: String,
    pub relative_x: i32,
    pub relative_y: i32,
    pub chunk_x: i32,
    pub chunk_y: i32,
    pub entity_type: String,
    pub stats: CharacterStats,
    pub resources: StrMap<i32>,
    pub units: HashMap<u64, Unit>,
    pub standing_tile: Tile,
    pub alive: bool,
    pub target_entity_id: u64,
}

impl View for Entity {
    type V = EntityView;

    open spec fn view(&self) -> EntityView {
        EntityView {
            x: self.x,
            y: self.y,
            experience: self.experience,
            level: self.level,
            id: self.id,
            name: self.name@,
            relative_x: self.relative_x,
            relative_y: self.relative_y,
            chunk_x: self.chunk_x,
            chunk_y: self.chunk_y,
            entity_type: self.entity_type@,
            stats: self.stats@,
            resources: self.resources@,
            units: units_view(self.units@),
            standing_tile: self.standing_tile@,
            alive: self.alive,
            target_entity_id: self.target_entity_id,
        }
    }
}

impl Clone for Entity {
    fn clone(&self) -> (r: Entity)
        ensures
            r@ == self@,
    {
        Entity {
            x: self.x,
            y: self.y,
            experience: self.experience,
            level: self.level,
            id: self.id,
            name: self.name.clone(),
            relative_x: self.relative_x,
            relative_y: self.relative_y,
            chunk_x: self.chunk_x,
            chunk_y: self.chunk_y,
            entity_type: self.entity_type.clone(),
            stats: self.stats.clone(),
            resources: self.resources.clone(),
            units: self.units.clone(),
            standing_tile: self.standing_tile.clone(),
            alive: self.alive,
            target_entity_id: self.target_entity_id,
        }
    }
}

/// A creature at the given place with plain statistics, no resources, the
/// default standing tile, alive, targeting id 1.
pub open spec fn fresh_entity(
    x: i32,
    y: i32,
    relative_x: i32,
    relative_y: i32,
    chunk_x: i32,
    chunk_y: i32,
    id: u64,
    entity_type: Seq<char>,
    name: Seq<char>,
    units: Map<u64, UnitView>,
    e: EntityView,
) -> bool {
    &&& e.x == x
    &&& e.y == y
    &&& e.experience == 0
    &&& e.level == 1
    &&& e.relative_x == relative_x
    &&& e.relative_y == relative_y
    &&& e.chunk_x == chunk_x
    &&& e.chunk_y == chunk_y
    &&& e.entity_type == entity_type
    &&& e.id == id
    &&& e.name == name
    &&& e.stats == plain_stats()
    &&& e.units == units
    &&& e.resources == Map::<Seq<char>, i32>::empty()
    &&& e.standing_tile == default_tile()
    &&& e.alive
    &&& e.target_entity_id == 1
}

impl Default for Entity {
    /// The placeholder creature: "no entity" named "no name" at (1, 1) of
    /// chunk (1, 1), without units.
    fn default() -> (r: Entity)
        ensures
            fresh_entity(1, 1, 1, 1, 1, 1, 0, "no entity"@, "no name"@, Map::empty(), r@),
    {
        let r = Entity {
            x: 1,
            y: 1,
            experience: 0,
            level: 1,
            relative_x: 1,
            relative_y: 1,
            chunk_x: 1,
            chunk_y: 1,
            entity_type: String::from_str("no entity"),
            id: 0,
            name: String::from_str("no name"),
            stats: CharacterStats::default(),
            units: HashMap::new(),
            resources: StrMap::new(),
            standing_tile: Tile::default(),
            alive: true,
            target_entity_id: 1,
        };
        assert(units_view(r.units@) =~= Map::empty());
        r
    }
}

/// The column step of a direction: "left" is -1, "right" is 1.
pub open spec fn step_x(dir: Seq<char>) -> int {
    if dir == "left"@ {
        -1
    } else if dir == "right"@ {
        1
    } else {
        0
    }
}

/// The row step of a direction: "up" is -1, "down" is 1.
pub open spec fn step_y(dir: Seq<char>) -> int {
    if dir == "up"@ {
        -1
    } else if dir == "down"@ {
        1
    } else {
        0
    }
}

/// Whether a step in `dir` keeps the coordinates of a living creature within
/// 32 bits.
pub open spec fn step_fits(e: EntityView, dir: Seq<char>) -> bool {
    e.alive ==> {
        &&& i32::MIN <= e.x + step_x(dir) <= i32::MAX
        &&& i32::MIN <= e.relative_x + step_x(dir) <= i32::MAX
        &&& i32::MIN <= e.y + step_y(dir) <= i32::MAX
        &&& i32::MIN <= e.relative_y + step_y(dir) <= i32::MAX
    }
}

/// A creature after a step in `dir`: a living one moves one square, a dead
/// one stays.
pub open spec fn stepped(e: EntityView, dir: Seq<char>) -> EntityView {
    if e.alive {
        EntityView {
            x: (e.x + step_x(dir)) as i32,
            relative_x: (e.relative_x + step_x(dir)) as i32,
            y: (e.y + step_y(dir)) as i32,
            relative_y: (e.relative_y + step_y(dir)) as i32,
            ..e
        }
    } else {
        e
    }
}

/// The four direction words differ from each other.
pub proof fn lemma_directions_distinct()
    ensures
        "up"@ != "down"@,
        "up"@ != "left"@,
        "up"@ != "right"@,
        "down"@ != "left"@,
        "down"@ != "right"@,
        "left"@ != "right"@,
{
    reveal_strlit("up");
    reveal_strlit("down");
    reveal_strlit("left");
    reveal_strlit("right");
    assert(("up"@).len() == 2 && ("down"@).len() == 4 && ("left"@).len() == 4 && ("right"@).len()
        == 5);
    assert(("down"@)[0] == 'd' && ("left"@)[0] == 'l');
}

impl Entity {
    /// Moves a living creature one square "up", "down", "left" or "right";
    /// any other direction, or a dead creature, stays.
    pub fn move_dir(&mut self, dir: String)
        requires
            step_fits(old(self)@, dir@),
        ensures
            final(self)@ == stepped(old(self)@, dir@),
    {
        if !self.alive {
            return;
        }
        proof {
            lemma_directions_distinct();
        }
        if str_eq(dir.as_str(), "up") {
            self.relative_y -= 1;
            self.y -= 1;
        } else if str_eq(dir.as_str(), "down") {
            self.relative_y += 1;
            self.y += 1;
        } else if str_eq(dir.as_str(), "left") {
            self.relative_x -= 1;
            self.x -= 1;
        } else if str_eq(dir.as_str(), "right") {
            self.relative_x += 1;
            self.x += 1;
        }
    }
}


/// The damage range `(lo, hi)` of an attack kind: rolls fall in `lo..hi`.
pub open spec fn damage_bounds(kind: Seq<char>) -> (int, int) {
    if kind == "Shout"@ {
        (5, 10)
    } else if kind == "Roll Attack"@ {
        (10, 15)
    } else if kind == "Charge"@ {
        (15, 20)
    } else if kind == "Earth Spike"@ {
        (20, 25)
    } else if kind == "Earthquake"@ {
        (25, 30)
    } else {
        (0, 10)
    }
}

/// Hunger and water hurt as plain attacks do: rolls from 0..10.
pub proof fn lemma_hunger_and_water_bounds()
    ensures
        damage_bounds("starve"@) == (0int, 10int),
        damage_bounds("water"@) == (0int, 10int),
{
    reveal_strlit("starve");
    reveal_strlit("water");
    reveal_strlit("Shout");
    reveal_strlit("Roll Attack");
    reveal_strlit("Charge");
    reveal_strlit("Earth Spike");
    reveal_strlit("Earthquake");
    assert(("starve"@)[0] != ("Shout"@)[0]);
    assert(("starve"@)[0] != ("Charge"@)[0]);
    assert(("water"@)[0] != ("Shout"@)[0]);
    assert(("water"@)[0] != ("Charge"@)[0]);
    assert("starve"@ != "Shout"@);
    assert("starve"@ != "Roll Attack"@);
    assert("starve"@ != "Charge"@);
    assert("starve"@ != "Earth Spike"@);
    assert("starve"@ != "Earthquake"@);
    assert("water"@ != "Shout"@);
    assert("water"@ != "Roll Attack"@);
    assert("water"@ != "Charge"@);
    assert("water"@ != "Earth Spike"@);
    assert("water"@ != "Earthquake"@);
}

/// Coyotes suffer neither hunger nor water.
pub open spec fn damage_skipped(kind: Seq<char>, entity_type: Seq<char>) -> bool {
    (kind == "starve"@ || kind == "water"@) && entity_type == "coyote"@
}

/// Whether `rolls` holds a roll in `lo..hi` for every unit.
pub open spec fn rolls_fit(units: Map<u64, UnitView>, rolls: Map<u64, i32>, lo: int, hi: int) -> bool {
    forall|k: u64| #[trigger]
        units.contains_key(k) ==> rolls.contains_key(k) && lo <= rolls[k] < hi
}

/// Whether every unit can lose up to `hi - 1` hit points within 32 bits.
pub open spec fn hp_room(units: Map<u64, UnitView>, hi: int) -> bool {
    forall|k: u64| #[trigger] units.contains_key(k) ==> units[k].hp - (hi - 1) >= i32::MIN
}

/// Whether a unit survives losing `roll` hit points.
pub open spec fn survives(u: UnitView, roll: i32) -> bool {
    u.hp - roll >= 0
}

/// A unit after losing `roll` hit points.
pub open spec fn hurt(u: UnitView, roll: i32) -> UnitView {
    UnitView { hp: (u.hp - roll) as i32, ..u }
}

/// The band after each unit loses its roll: the units left below zero hit
/// points are gone.
pub open spec fn after_rolls(units: Map<u64, UnitView>, rolls: Map<u64, i32>) -> Map<u64, UnitView> {
    Map::new(
        |k: u64| units.contains_key(k) && survives(units[k], rolls[k]),
        |k: u64| hurt(units[k], rolls[k]),
    )
}

/// The band after the rolls applied to the units in `done` only.
pub open spec fn partly_hurt(units: Map<u64, UnitView>, rolls: Map<u64, i32>, done: Set<u64>) -> Map<
    u64,
    UnitView,
> {
    Map::new(
        |k: u64| units.contains_key(k) && (done.contains(k) ==> survives(units[k], rolls[k])),
        |k: u64|
            if done.contains(k) {
                hurt(units[k], rolls[k])
            } else {
                units[k]
            },
    )
}

impl Entity {
    /// Takes `rolls[k]` hit points from each unit `k`, each roll in `lo..hi`,
    /// and drops the units left below zero.
    fn apply_rolls(&mut self, rolls: &HashMap<u64, i32>, lo: Ghost<int>, hi: Ghost<int>)
        requires
            0 <= lo@,
            rolls_fit(old(self)@.units, rolls@, lo@, hi@),
            hp_room(old(self)@.units, hi@),
        ensures
            final(self)@ == (EntityView { units: after_rolls(old(self)@.units, rolls@), ..old(self)@ }),
    {
        let ghost old_units = self@.units;
        let keys = id_keys(&self.units);
        let ghost mut done: Set<u64> = Set::empty();
        let mut i: usize = 0;
        assert(keys@.take(0) =~= Seq::<u64>::empty());
        assert(partly_hurt(old_units, rolls@, done) =~= old_units);
        while i < keys.len()
            invariant
                keys@.no_duplicates(),
                keys@.to_set() == old_units.dom(),
                0 <= i <= keys@.len(),
                done == keys@.take(i as int).to_set(),
                0 <= lo@,
                rolls_fit(old_units, rolls@, lo@, hi@),
                hp_room(old_units, hi@),
                units_view(self.units@) == partly_hurt(old_units, rolls@, done),
                self@ == (EntityView { units: units_view(self.units@), ..old(self)@ }),
            decreases keys@.len() - i,
        {
            let k = keys[i];
            assert(keys@.to_set().contains(k));
            assert(!done.contains(k)) by {
                if done.contains(k) {
                    let j = choose|j: int| 0 <= j < i && keys@.take(i as int)[j] == k;
                    assert(keys@[j] == keys@[i as int]);
                }
            }
            let r = *rolls.get(&k).unwrap();
            assert(old_units.contains_key(k));
            assert(units_view(self.units@).contains_key(k));
            assert(self.units@.contains_key(k));
            assert(units_view(self.units@)[k] == self.units@[k]@);
            assert(partly_hurt(old_units, rolls@, done).contains_key(k));
            assert(partly_hurt(old_units, rolls@, done)[k] == old_units[k]);
            assert(self.units@[k]@ == old_units[k]);
            assert(lo@ <= r < hi@);
            assert(old_units[k].hp - (hi@ - 1) >= i32::MIN);
            let ghost pre = self.units@;
            let removed = self.units.remove(&k);
            match removed {
                Some(mut u) => {
                    assert(r == rolls@[k]);
                    assert(u == pre[k]);
                    assert(u.hp == old_units[k].hp);
                    assert(u.hp - r >= i32::MIN);
                    u.hp = u.hp - r;
                    assert(u@ == hurt(old_units[k], r));
                    if u.hp >= 0 {
                        self.units.insert(k, u);
                        assert(self.units@ == pre.remove(k).insert(k, u));
                    } else {
                        assert(self.units@ == pre.remove(k));
                    }
                },
                None => {
                    assert(false);
                },
            }
            proof {
                let before_map = partly_hurt(old_units, rolls@, done);
                assert(units_view(pre) == before_map);
                let after_map = partly_hurt(old_units, rolls@, done.insert(k));
                if survives(old_units[k], r) {
                    assert(after_map =~= before_map.insert(k, hurt(old_units[k], r)));
                    assert(units_view(self.units@) =~= units_view(pre).insert(k, hurt(old_units[k], r)));
                } else {
                    assert(after_map =~= before_map.remove(k));
                    assert(units_view(self.units@) =~= units_view(pre).remove(k));
                }
                assert(keys@.take(i + 1) =~= keys@.take(i as int).push(k));
                done = done.insert(k);
                assert(keys@.take(i + 1).to_set() =~= keys@.take(i as int).to_set().insert(k)) by {
                    keys@.take(i as int).lemma_push_to_set_commute(k);
                }
                assert(units_view(self.units@) =~= partly_hurt(old_units, rolls@, done));
            }
            i = i + 1;
        }
        proof {
            assert(keys@.take(keys@.len() as int) =~= keys@);
            assert(units_view(self.units@) =~= after_rolls(old_units, rolls@));
        }
    }

    /// Draws a roll in `lo..hi` for every unit.
    pub(crate) fn draw_rolls(&self, lo: i32, hi: i32) -> (r: HashMap<u64, i32>)
        requires
            lo < hi,
        ensures
            rolls_fit(self@.units, r@, lo as int, hi as int),
    {
        let keys = id_keys(&self.units);
        let mut rolls: HashMap<u64, i32> = HashMap::new();
        let mut i: usize = 0;
        while i < keys.len()
            invariant
                lo < hi,
                keys@.to_set() == self@.units.dom(),
                0 <= i <= keys@.len(),
                forall|j: int|
                    0 <= j < i ==> #[trigger] rolls@.contains_key(keys@[j]) && lo <= rolls@[keys@[j]] < hi,
                forall|k: u64| #[trigger] rolls@.contains_key(k) ==> lo <= rolls@[k] < hi,
            decreases keys@.len() - i,
        {
            let d = random_in(lo, hi);
            let ghost before = rolls@;
            rolls.insert(keys[i], d);
            assert forall|j: int| 0 <= j <= i implies #[trigger] rolls@.contains_key(keys@[j]) && lo
                <= rolls@[keys@[j]] < hi by {
                if j < i && keys@[j] != keys@[i as int] {
                    assert(before.contains_key(keys@[j]));
                }
            }
            i = i + 1;
        }
        proof {
            assert forall|k: u64| #[trigger] self@.units.contains_key(k) implies rolls@.contains_key(k)
                && lo <= rolls@[k] < hi by {
                assert(keys@.to_set().contains(k));
                let j = choose|j: int| 0 <= j < keys@.len() && keys@[j] == k;
                assert(rolls@.contains_key(keys@[j]));
            }
        }
        rolls
    }
}


/// A creature after an attack of kind `kind` with the given rolls.
pub open spec fn damaged(e: EntityView, kind: Seq<char>, rolls: Map<u64, i32>) -> EntityView {
    if damage_skipped(kind, e.entity_type) {
        e
    } else {
        EntityView { units: after_rolls(e.units, rolls), ..e }
    }
}

/// Whether an attack of kind `kind` can be rolled on `e` within 32 bits.
pub open spec fn damage_fits(e: EntityView, kind: Seq<char>) -> bool {
    !damage_skipped(kind, e.entity_type) ==> hp_room(e.units, damage_bounds(kind).1)
}

fn damage_bounds_of(kind: &str) -> (r: (i32, i32))
    ensures
        r.0 as int == damage_bounds(kind@).0,
        r.1 as int == damage_bounds(kind@).1,
{
    if str_eq(kind, "Shout") {
        (5, 10)
    } else if str_eq(kind, "Roll Attack") {
        (10, 15)
    } else if str_eq(kind, "Charge") {
        (15, 20)
    } else if str_eq(kind, "Earth Spike") {
        (20, 25)
    } else if str_eq(kind, "Earthquake") {
        (25, 30)
    } else {
        (0, 10)
    }
}

fn is_damage_skipped(kind: &str, entity_type: &str) -> (r: bool)
    ensures
        r == damage_skipped(kind@, entity_type@),
{
    (str_eq(kind, "starve") || str_eq(kind, "water")) && str_eq(entity_type, "coyote")
}

/// Whether every unit can lose up to `hi - 1` hit points within 32 bits.
pub(crate) fn hp_room_exec(units: &HashMap<u64, Unit>, hi: i128) -> (r: bool)
    requires
        -0x1_0000_0000 <= hi <= 0x1_0000_0000,
    ensures
        r == hp_room(units_view(units@), hi as int),
{
    let ghost uv = units_view(units@);
    let keys = id_keys(units);
    let mut i: usize = 0;
    while i < keys.len()
        invariant
            uv == units_view(units@),
            -0x1_0000_0000 <= hi <= 0x1_0000_0000,
            keys@.to_set() == units@.dom(),
            0 <= i <= keys@.len(),
            forall|j: int|
                0 <= j < i ==> uv[#[trigger] keys@[j]].hp - (hi - 1) >= i32::MIN,
        decreases keys@.len() - i,
    {
        let k = keys[i];
        assert(keys@.to_set().contains(k));
        let u = units.get(&k).unwrap();
        assert(uv[k] == u@);
        if (u.hp as i128) - (hi - 1) < i32::MIN as i128 {
            assert(uv.contains_key(k));
            return false;
        }
        i = i + 1;
    }
    proof {
        assert forall|k: u64| #[trigger] uv.contains_key(k) implies uv[k].hp - (hi - 1)
            >= i32::MIN by {
            assert(keys@.to_set().contains(k));
            let j = choose|j: int| 0 <= j < keys@.len() && keys@[j] == k;
            assert(uv[keys@[j]].hp - (hi - 1) >= i32::MIN);
        }
    }
    true
}

/// Whether an attack of kind `kind` can be rolled on `e` within 32 bits.
pub(crate) fn damage_fits_exec(e: &Entity, kind: &str) -> (r: bool)
    ensures
        r == damage_fits(e@, kind@),
{
    if is_damage_skipped(kind, e.entity_type.as_str()) {
        return true;
    }
    let (_, hi) = damage_bounds_of(kind);
    hp_room_exec(&e.units, hi as i128)
}

/// How many of the items are wooden spears: 1 for a spear, 0 otherwise.
pub open spec fn spear_value(i: ItemView) -> int {
    if i.name == "wooden spear"@ {
        1
    } else {
        0
    }
}

pub open spec fn spear_step(items: Map<Seq<char>, ItemView>) -> spec_fn(int, Seq<char>) -> int {
    |acc: int, k: Seq<char>| acc + spear_value(items[k])
}

/// The number of wooden spears among the items.
pub open spec fn spear_count(items: Map<Seq<char>, ItemView>) -> int {
    items.dom().fold(0, spear_step(items))
}

/// What a unit adds to its band's weapon power: its spears, and 1 for a
/// coyote.
pub open spec fn unit_power(u: UnitView) -> int {
    spear_count(u.items) + if u.name == "coyote"@ {
        1int
    } else {
        0int
    }
}

pub open spec fn power_step(units: Map<u64, UnitView>) -> spec_fn(int, u64) -> int {
    |acc: int, k: u64| acc + unit_power(units[k])
}

/// The weapon power of a band: the sum of its units' powers.
pub open spec fn weapon_power(units: Map<u64, UnitView>) -> int {
    units.dom().fold(0, power_step(units))
}

fn count_spears(items: &StrMap<Item>) -> (r: usize)
    ensures
        r as int == spear_count(items@),
{
    let es = items.entries();
    let ghost f = spear_step(items@);
    let ghost mut done: Set<Seq<char>> = Set::empty();
    assert(is_fun_commutative(f));
    proof {
        vstd::set::fold::lemma_fold_empty(0int, f);
    }
    let mut acc: usize = 0;
    let mut i: usize = 0;
    while i < es.len()
        invariant
            map_of(es@) == items@,
            keys_distinct(es@),
            f == spear_step(items@),
            is_fun_commutative(f),
            0 <= i <= es@.len(),
            acc <= i,
            done.finite(),
            forall|k: Seq<char>| #[trigger]
                done.contains(k) <==> exists|j: int| 0 <= j < i && es@[j].0@ == k,
            acc as int == done.fold(0, f),
        decreases es@.len() - i,
    {
        let ghost k = es@[i as int].0@;
        proof {
            assert(!done.contains(k)) by {
                if done.contains(k) {
                    let j = choose|j: int| 0 <= j < i && es@[j].0@ == k;
                    assert(es@[j].0@ != es@[i as int].0@);
                }
            }
            assert forall|j: int| 0 <= j < i implies #[trigger] es@[j].0@ != es@[i as int].0@ by {}
            lemma_map_of_first(es@, i as int);
            vstd::set::fold::lemma_fold_insert(done, 0int, f, k);
        }
        if str_eq(es[i].1.name.as_str(), "wooden spear") {
            acc = acc + 1;
        }
        proof {
            done = done.insert(k);
            assert forall|k2: Seq<char>| #[trigger] done.contains(k2) <==> exists|j: int|
                0 <= j < i + 1 && es@[j].0@ == k2 by {
                if done.contains(k2) && k2 != k {
                    let j = choose|j: int| 0 <= j < i && es@[j].0@ == k2;
                    assert(0 <= j < i + 1 && es@[j].0@ == k2);
                }
                if k2 == k {
                    assert(es@[i as int].0@ == k2);
                }
            }
        }
        i = i + 1;
    }
    proof {
        assert forall|k: Seq<char>| #[trigger] done.contains(k) <==> items@.dom().contains(k) by {
            lemma_map_of_contains(es@, k);
        }
        assert(done =~= items@.dom());
    }
    acc
}

fn unit_power_of(u: &Unit) -> (r: u128)
    ensures
        r as int == unit_power(u@),
        r <= usize::MAX as int + 1,
{
    let s = count_spears(&u.items) as u128;
    if str_eq(u.name.as_str(), "coyote") {
        s + 1
    } else {
        s
    }
}

pub(crate) fn weapon_power_of(units: &HashMap<u64, Unit>) -> (r: u128)
    ensures
        r as int == weapon_power(units_view(units@)),
{
    let keys = id_keys(units);
    let ghost uv = units_view(units@);
    let ghost f = power_step(uv);
    let ghost mut done: Set<u64> = Set::empty();
    assert(is_fun_commutative(f));
    proof {
        vstd::set::fold::lemma_fold_empty(0int, f);
    }
    let mut acc: u128 = 0;
    let mut i: usize = 0;
    while i < keys.len()
        invariant
            keys@.no_duplicates(),
            keys@.to_set() == uv.dom(),
            uv == units_view(units@),
            f == power_step(uv),
            is_fun_commutative(f),
            0 <= i <= keys@.len(),
            acc <= i as int * 0x1_0000_0000_0000_0000,
            done.finite(),
            done == keys@.take(i as int).to_set(),
            acc as int == done.fold(0, f),
        decreases keys@.len() - i,
    {
        let k = keys[i];
        proof {
            assert(!done.contains(k)) by {
                if done.contains(k) {
                    let j = choose|j: int| 0 <= j < i && keys@.take(i as int)[j] == k;
                    assert(keys@[j] == keys@[i as int]);
                }
            }
            vstd::set::fold::lemma_fold_insert(done, 0int, f, k);
            assert(keys@.to_set().contains(k));
        }
        let u = units.get(&k).unwrap();
        let p = unit_power_of(u);
        acc = acc + p;
        proof {
            assert(keys@.take(i + 1) =~= keys@.take(i as int).push(k));
            keys@.take(i as int).lemma_push_to_set_commute(k);
            done = done.insert(k);
        }
        i = i + 1;
    }
    proof {
        assert(keys@.take(keys@.len() as int) =~= keys@);
    }
    acc
}

impl Entity {
    /// Takes the rolled damage of an attack of kind `kind` from every unit
    /// and drops the units left below zero hit points; coyotes shrug off
    /// hunger and water.
    pub fn damage_with_rolls(&mut self, kind: &str, rolls: &HashMap<u64, i32>)
        requires
            !damage_skipped(kind@, old(self)@.entity_type) ==> {
                &&& rolls_fit(old(self)@.units, rolls@, damage_bounds(kind@).0, damage_bounds(kind@).1)
                &&& hp_room(old(self)@.units, damage_bounds(kind@).1)
            },
        ensures
            final(self)@ == damaged(old(self)@, kind@, rolls@),
    {
        if is_damage_skipped(kind, self.entity_type.as_str()) {
            return;
        }
        let (lo, hi) = damage_bounds_of(kind);
        self.apply_rolls(rolls, Ghost(lo as int), Ghost(hi as int));
    }

    /// Hurts every unit by a random amount in the range of the attack kind
    /// `damage_type` and drops the units left below zero hit points; coyotes
    /// shrug off hunger ("starve") and "water".
    pub fn damage(&mut self, damage_type: String)
        requires
            damage_fits(old(self)@, damage_type@),
        ensures
            exists|rolls: Map<u64, i32>|
                {
                    &&& rolls_fit(
                        old(self)@.units,
                        rolls,
                        damage_bounds(damage_type@).0,
                        damage_bounds(damage_type@).1,
                    )
                    &&& final(self)@ == damaged(old(self)@, damage_type@, rolls)
                },
    {
        let (lo, hi) = damage_bounds_of(damage_type.as_str());
        let rolls = self.draw_rolls(lo, hi);
        self.damage_with_rolls(damage_type.as_str(), &rolls);
    }

    /// Takes from every unit a roll in `p..p + 5`, where `p` is the weapon
    /// power of `entity`'s band, and drops the units left below zero hit
    /// points.
    pub fn damage_by_entity_with_rolls(&mut self, entity: &Entity, rolls: &HashMap<u64, i32>)
        requires
            weapon_power(entity@.units) + 5 <= i32::MAX,
            rolls_fit(
                old(self)@.units,
                rolls@,
                weapon_power(entity@.units),
                weapon_power(entity@.units) + 5,
            ),
            hp_room(old(self)@.units, weapon_power(entity@.units) + 5),
        ensures
            final(self)@ == (EntityView { units: after_rolls(old(self)@.units, rolls@), ..old(self)@ }),
    {
        let p = weapon_power_of(&entity.units);
        self.apply_rolls(rolls, Ghost(p as int), Ghost(p as int + 5));
    }

    /// The damage one band deals another: every unit loses a random amount in
    /// `p..p + 5`, where `p` is the weapon power of `entity`'s band; the
    /// units left below zero hit points are gone.
    pub fn damage_by_entity(&mut self, damage_type: String, entity: Entity)
        requires
            weapon_power(entity@.units) + 5 <= i32::MAX,
            hp_room(old(self)@.units, weapon_power(entity@.units) + 5),
        ensures
            exists|rolls: Map<u64, i32>|
                {
                    &&& rolls_fit(
                        old(self)@.units,
                        rolls,
                        weapon_power(entity@.units),
                        weapon_power(entity@.units) + 5,
                    )
                    &&& final(self)@ == (EntityView {
                        units: #[trigger] after_rolls(old(self)@.units, rolls),
                        ..old(self)@
                    })
                },
    {
        let p = weapon_power_of(&entity.units) as i32;
        let rolls = self.draw_rolls(p, p + 5);
        self.damage_by_entity_with_rolls(&entity, &rolls);
    }
}


/// The unit of a starting band in slot `slot`: four soldiers, four
/// gatherers, four workers, four crafters, then four donkeys.
pub open spec fn roster_unit(slot: int, name: Seq<char>) -> UnitView {
    if slot < 4 {
        soldier_unit(name)
    } else if slot < 8 {
        gatherer_unit(name)
    } else if slot < 12 {
        worker_unit(name)
    } else if slot < 16 {
        crafter_unit(name)
    } else {
        donkey_unit(name)
    }
}

/// The first `n` slots of a starting band, each stored under its id; a later
/// slot replaces an earlier one with the same id.
pub open spec fn roster(ids: Seq<u64>, names: Seq<Seq<char>>, n: nat) -> Map<u64, UnitView>
    decreases n,
{
    if n == 0 {
        Map::empty()
    } else {
        roster(ids, names, (n - 1) as nat).insert(ids[n - 1], roster_unit(n - 1, names[n - 1]))
    }
}

/// A pack of `n` coyotes stored under the given ids.
pub open spec fn pack(ids: Seq<u64>, n: nat) -> Map<u64, UnitView>
    decreases n,
{
    if n == 0 {
        Map::empty()
    } else {
        pack(ids, (n - 1) as nat).insert(ids[n - 1], coyote_unit())
    }
}

fn roster_slot(slot: usize, name: String) -> (r: Unit)
    ensures
        r@ == roster_unit(slot as int, name@),
{
    if slot < 4 {
        Unit::soldier(name)
    } else if slot < 8 {
        Unit::gatherer(name)
    } else if slot < 12 {
        Unit::worker(name)
    } else if slot < 16 {
        Unit::crafter(name)
    } else {
        Unit::donkey(name)
    }
}

/// The starting band of twenty units under the given ids and names.
pub fn default_units_from(ids: &Vec<u64>, names: &Vec<String>) -> (r: HashMap<u64, Unit>)
    requires
        ids@.len() == 20,
        names@.len() == 20,
    ensures
        units_view(r@) == roster(ids@, texts(names@), 20),
{
    let mut units: HashMap<u64, Unit> = HashMap::new();
    let mut i: usize = 0;
    assert(units_view(units@) =~= roster(ids@, texts(names@), 0));
    while i < 20
        invariant
            ids@.len() == 20,
            names@.len() == 20,
            0 <= i <= 20,
            units_view(units@) == roster(ids@, texts(names@), i as nat),
        decreases 20 - i,
    {
        let u = roster_slot(i, names[i].clone());
        units.insert(ids[i], u);
        assert(units_view(units@) =~= roster(ids@, texts(names@), (i + 1) as nat));
        i = i + 1;
    }
    units
}

/// A pack of twelve coyotes under the given ids.
pub fn coyote_pack_from(ids: &Vec<u64>) -> (r: HashMap<u64, Unit>)
    requires
        ids@.len() == 12,
    ensures
        units_view(r@) == pack(ids@, 12),
{
    let mut units: HashMap<u64, Unit> = HashMap::new();
    let mut i: usize = 0;
    assert(units_view(units@) =~= pack(ids@, 0));
    while i < 12
        invariant
            ids@.len() == 12,
            0 <= i <= 12,
            units_view(units@) == pack(ids@, i as nat),
        decreases 12 - i,
    {
        units.insert(ids[i], Unit::coyote());
        assert(units_view(units@) =~= pack(ids@, (i + 1) as nat));
        i = i + 1;
    }
    units
}

/// Whether `units` is a starting band drawn at random: twenty slots with
/// random ids and names made from `words`.
pub open spec fn drawn_band(words: Seq<Seq<char>>, units: Map<u64, UnitView>) -> bool {
    exists|ids: Seq<u64>, names: Seq<Seq<char>>|
        {
            &&& ids.len() == 20
            &&& names.len() == 20
            &&& forall|i: int| 0 <= i < 20 ==> drawn_name(words, #[trigger] names[i])
            &&& units == #[trigger] roster(ids, names, 20)
        }
}

/// Whether `units` is a pack of twelve coyotes under random ids.
pub open spec fn drawn_pack(units: Map<u64, UnitView>) -> bool {
    exists|ids: Seq<u64>| ids.len() == 12 && units == #[trigger] pack(ids, 12)
}

pub trait GenerateDefault {
    fn generate_default_units(words: &Vec<String>) -> HashMap<u64, Unit>
        requires
            name_source_ok(texts(words@)),
    ;

    fn generate_units(unit_type: String) -> HashMap<u64, Unit>;
}

impl GenerateDefault for Entity {
    /// A starting band: four soldiers, gatherers, workers, crafters and
    /// donkeys each, under random ids, named from `words`.
    fn generate_default_units(words: &Vec<String>) -> (r: HashMap<u64, Unit>)
        ensures
            drawn_band(texts(words@), units_view(r@)),
    {
        let mut ids: Vec<u64> = Vec::new();
        let mut names: Vec<String> = Vec::new();
        let mut i: usize = 0;
        while i < 20
            invariant
                name_source_ok(texts(words@)),
                0 <= i <= 20,
                ids@.len() == i,
                names@.len() == i,
                forall|j: int| 0 <= j < i ==> drawn_name(texts(words@), #[trigger] texts(names@)[j]),
            decreases 20 - i,
        {
            ids.push(random_u64());
            let name = get_name(words);
            let ghost nv = name@;
            let ghost before = names@;
            names.push(name);
            assert forall|j: int| 0 <= j < i + 1 implies drawn_name(
                texts(words@),
                #[trigger] texts(names@)[j],
            ) by {
                if j < i {
                    assert(texts(names@)[j] == names@[j]@);
                    assert(names@[j] == before[j]);
                    assert(texts(before)[j] == before[j]@);
                } else {
                    assert(texts(names@)[j] == nv);
                }
            }
            i = i + 1;
        }
        let r = default_units_from(&ids, &names);
        assert(forall|j: int| 0 <= j < 20 ==> drawn_name(texts(words@), #[trigger] texts(names@)[j]));
        r
    }

    /// A pack of twelve coyotes under random ids, whatever kind is asked for.
    fn generate_units(unit_type: String) -> (r: HashMap<u64, Unit>)
        ensures
            drawn_pack(units_view(r@)),
    {
        let mut ids: Vec<u64> = Vec::new();
        let mut i: usize = 0;
        while i < 12
            invariant
                0 <= i <= 12,
                ids@.len() == i,
            decreases 12 - i,
        {
            ids.push(random_u64());
            i = i + 1;
        }
        coyote_pack_from(&ids)
    }
}

fn new_creature(
    x: i32,
    y: i32,
    relative_x: i32,
    relative_y: i32,
    chunk_x: i32,
    chunk_y: i32,
    id: u64,
    entity_type: String,
    name: String,
    units: HashMap<u64, Unit>,
) -> (r: Entity)
    ensures
        fresh_entity(
            x,
            y,
            relative_x,
            relative_y,
            chunk_x,
            chunk_y,
            id,
            entity_type@,
            name@,
            units_view(units@),
            r@,
        ),
{
    Entity {
        x,
        y,
        experience: 0,
        level: 1,
        relative_x,
        relative_y,
        chunk_x,
        chunk_y,
        entity_type,
        id,
        target_entity_id: 1,
        name,
        stats: CharacterStats::default(),
        units,
        resources: StrMap::new(),
        standing_tile: Tile::default(),
        alive: true,
    }
}

pub trait Scarab {
    fn scarab(
        x: i32,
        y: i32,
        relative_x: i32,
        relative_y: i32,
        chunk_x: i32,
        chunk_y: i32,
        id: u64,
        entity_type: String,
        name: String,
        words: &Vec<String>,
    ) -> Entity
        requires
            name_source_ok(texts(words@)),
    ;
}

impl Scarab for Entity {
    /// A new creature at the given place with a starting band named from
    /// `words`.
    fn scarab(
        x: i32,
        y: i32,
        relative_x: i32,
        relative_y: i32,
        chunk_x: i32,
        chunk_y: i32,
        id: u64,
        entity_type: String,
        name: String,
        words: &Vec<String>,
    ) -> (r: Entity)
        ensures
            fresh_entity(
                x,
                y,
                relative_x,
                relative_y,
                chunk_x,
                chunk_y,
                id,
                entity_type@,
                name@,
                r@.units,
                r@,
            ),
            drawn_band(texts(words@), r@.units),
    {
        let units = Entity::generate_default_units(words);
        new_creature(x, y, relative_x, relative_y, chunk_x, chunk_y, id, entity_type, name, units)
    }
}

pub trait Coyote {
    fn coyote(
        x: i32,
        y: i32,
        relative_x: i32,
        relative_y: i32,
        chunk_x: i32,
        chunk_y: i32,
        id: u64,
        entity_type: String,
        name: String,
    ) -> Entity;
}

impl Coyote for Entity {
    /// A new creature at the given place leading a pack of twelve coyotes.
    fn coyote(
        x: i32,
        y: i32,
        relative_x: i32,
        relative_y: i32,
        chunk_x: i32,
        chunk_y: i32,
        id: u64,
        entity_type: String,
        name: String,
    ) -> (r: Entity)
        ensures
            fresh_entity(
                x,
                y,
                relative_x,
                relative_y,
                chunk_x,
                chunk_y,
                id,
                entity_type@,
                name@,
                r@.units,
                r@,
            ),
            drawn_pack(r@.units),
    {
        let units = Entity::generate_units(String::from_str("coyote"));
        new_creature(x, y, relative_x, relative_y, chunk_x, chunk_y, id, entity_type, name, units)
    }
}

/// The creatures of one chunk, keyed by id, and the chunk's coordinates.
pub struct Entities {
    pub entities: HashMap<u64, Entity>,
    pub x: i32,
    pub y: i32,
}

/// What the creatures of a chunk stand for.
pub open spec fn entities_view(m: Map<u64, Entity>) -> Map<u64, EntityView> {
    m.map_values(|e: Entity| e@)
}

impl Default for Entities {
    /// No creatures, at chunk (0, 0).
    fn default() -> (r: Entities)
        ensures
            r.entities@ == Map::<u64, Entity>::empty(),
            r.x == 0,
            r.y == 0,
    {
        Entities { entities: HashMap::new(), x: 0, y: 0 }
    }
}

impl Clone for Entities {
    fn clone(&self) -> (r: Entities)
        ensures
            r.entities@ == self.entities@,
            r.x == self.x,
            r.y == self.y,
    {
        Entities { entities: self.entities.clone(), x: self.x, y: self.y }
    }
}

} // verus!
