use crate::strmap::StrMap;
use vstd::prelude::*;
use vstd::string::StringExecFns;

verus! {

/// The table of three attribute scores, keyed "str", "agi" and "int".
pub open spec fn stat_table(strength: u8, agility: u8, intellect: u8) -> Map<Seq<char>, u8> {
    Map::empty().insert("str"@, strength).insert("agi"@, agility).insert("int"@, intellect)
}

/// The table of the five ability slots, keyed "1" to "5".
pub open spec fn ability_table(
    a1: Seq<char>,
    a2: Seq<char>,
    a3: Seq<char>,
    a4: Seq<char>,
    a5: Seq<char>,
) -> Map<Seq<char>, Seq<char>> {
    Map::empty().insert("1"@, a1).insert("2"@, a2).insert("3"@, a3).insert("4"@, a4).insert(
        "5"@,
        a5,
    )
}

/// The ability table of a creature with no abilities: five empty slots.
pub open spec fn no_abilities() -> Map<Seq<char>, Seq<char>> {
    ability_table(""@, ""@, ""@, ""@, ""@)
}

pub(crate) fn make_stats(strength: u8, agility: u8, intellect: u8) -> (r: StrMap<u8>)
    ensures
        r@ == stat_table(strength, agility, intellect),
{
    let mut m = StrMap::new();
    m.insert(String::from_str("str"), strength);
    m.insert(String::from_str("agi"), agility);
    m.insert(String::from_str("int"), intellect);
    m
}

fn make_abilities(a1: &str, a2: &str, a3: &str, a4: &str, a5: &str) -> (r: StrMap<String>)
    ensures
        r@ == ability_table(a1@, a2@, a3@, a4@, a5@),
{
    let mut m = StrMap::new();
    m.insert(String::from_str("1"), String::from_str(a1));
    m.insert(String::from_str("2"), String::from_str(a2));
    m.insert(String::from_str("3"), String::from_str(a3));
    m.insert(String::from_str("4"), String::from_str(a4));
    m.insert(String::from_str("5"), String::from_str(a5));
    m
}

/// The attribute scores of a unit.
pub struct UnitStats {
    pub stats: StrMap<u8>,
}

impl View for UnitStats {
    type V = Map<Seq<char>, u8>;

    open spec fn view(&self) -> Map<Seq<char>, u8> {
        self.stats@
    }
}

impl Default for UnitStats {
    /// Every attribute at 5.
    fn default() -> (r: UnitStats)
        ensures
            r@ == stat_table(5, 5, 5),
    {
        UnitStats { stats: make_stats(5, 5, 5) }
    }
}

impl Clone for UnitStats {
    fn clone(&self) -> (r: UnitStats)
        ensures
            r@ == self@,
    {
        UnitStats { stats: self.stats.clone() }
    }
}

/// What a character's statistics stand for.
pub struct CharacterStatsView {
    pub abilities: Map<Seq<char>, Seq<char>>,
    pub stats: Map<Seq<char>, u8>,
    pub creature_type: Seq<char>,
}

/// A character's abilities, attribute scores and creature type.
pub struct CharacterStats {
    pub abilities: StrMap<String>,
    pub stats: StrMap<u8>,
    pub creature_type: String,
}

impl View for CharacterStats {
    type V = CharacterStatsView;

    open spec fn view(&self) -> CharacterStatsView {
        CharacterStatsView {
            abilities: self.abilities@,
            stats: self.stats@,
            creature_type: self.creature_type@,
        }
    }
}

impl Clone for CharacterStats {
    fn clone(&self) -> (r: CharacterStats)
        ensures
            r@ == self@,
    {
        CharacterStats {
            abilities: self.abilities.clone(),
            stats: self.stats.clone(),
            creature_type: self.creature_type.clone(),
        }
    }
}

/// The statistics of a plain creature: no abilities and every attribute at 5.
pub open spec fn plain_stats() -> CharacterStatsView {
    CharacterStatsView {
        abilities: no_abilities(),
        stats: stat_table(5, 5, 5),
        creature_type: ""@,
    }
}

fn plain_character() -> (r: CharacterStats)
    ensures
        r@ == plain_stats(),
{
    CharacterStats {
        abilities: make_abilities("", "", "", "", ""),
        stats: make_stats(5, 5, 5),
        creature_type: String::from_str(""),
    }
}

impl Default for CharacterStats {
    fn default() -> (r: CharacterStats)
        ensures
            r@ == plain_stats(),
    {
        plain_character()
    }
}

pub trait Kobold {
    fn kobold() -> CharacterStats;
}

impl Kobold for CharacterStats {
    fn kobold() -> (r: CharacterStats)
        ensures
            r@ == plain_stats(),
    {
        plain_character()
    }
}

/// The statistics of an ogre: strong, slow, with five earth and shout
/// abilities.
pub open spec fn ogre_stats() -> CharacterStatsView {
    CharacterStatsView {
        abilities: ability_table(
            "Shout"@,
            "Roll Attack"@,
            "Charge"@,
            "Earth Spike"@,
            "Earthquake"@,
        ),
        stats: stat_table(9, 2, 3),
        creature_type: ""@,
    }
}

pub trait Ogre {
    fn ogre() -> CharacterStats;
}

impl Ogre for CharacterStats {
    fn ogre() -> (r: CharacterStats)
        ensures
            r@ == ogre_stats(),
    {
        CharacterStats {
            abilities: make_abilities("Shout", "Roll Attack", "Charge", "Earth Spike", "Earthquake"),
            stats: make_stats(9, 2, 3),
            creature_type: String::from_str(""),
        }
    }
}

pub trait Gnoll {
    fn gnoll() -> CharacterStats;
}

impl Gnoll for CharacterStats {
    fn gnoll() -> (r: CharacterStats)
        ensures
            r@ == plain_stats(),
    {
        plain_character()
    }
}

pub trait Goblin {
    fn goblin() -> CharacterStats;
}

impl Goblin for CharacterStats {
    fn goblin() -> (r: CharacterStats)
        ensures
            r@ == plain_stats(),
    {
        plain_character()
    }
}

pub trait Rat {
    fn rat() -> CharacterStats;
}

impl Rat for CharacterStats {
    fn rat() -> (r: CharacterStats)
        ensures
            r@ == plain_stats(),
    {
        plain_character()
    }
}

} // verus!
