use crate::strmap::StrMap;
use vstd::prelude::*;
use vstd::string::StringExecFns;

verus! {

/// Columns of the map part of the screen.
pub const SCREEN_WIDTH: u8 = 64;

/// Rows of the map part of the screen.
pub const SCREEN_HEIGHT: u8 = 32;

/// How close to the left or right edge the player may come before the camera
/// follows.
pub const EDGE_X: u8 = 16;

/// How close to the top or bottom edge the player may come before the camera
/// follows.
pub const EDGE_Y: u8 = 8;

/// The first column of the status panel.
pub const HUD_X: u8 = 0;

/// The first row of the status panel.
pub const HUD_Y: u8 = 32;

/// The width of the status panel.
pub const HUD_WIDTH: u8 = 64;

/// The height of the status panel.
pub const HUD_HEIGHT: u8 = 12;

/// The columns left free on the left of the screen.
pub const MARGIN_X: i32 = 0;

/// The rows left free at the top of the screen.
pub const MARGIN_Y: i32 = 1;

/// Milliseconds between two frames.
pub const REFRESH_TIME: u64 = 10;

/// What a glyph stands for: its text and its colour pair.
pub struct UiTileView {
    pub symbol: Seq<char>,
    pub color: u8,
}

/// How one cell of the screen is drawn: a text and a colour pair.
pub struct UiTile {
    pub symbol: String,
    pub color: u8,
}

impl View for UiTile {
    type V = UiTileView;

    open spec fn view(&self) -> UiTileView {
        UiTileView { symbol: self.symbol@, color: self.color }
    }
}

impl Clone for UiTile {
    fn clone(&self) -> (r: UiTile)
        ensures
            r@ == self@,
    {
        UiTile { symbol: self.symbol.clone(), color: self.color }
    }
}

/// The glyph of text `symbol` in colour pair `color`.
pub open spec fn glyph(symbol: Seq<char>, color: u8) -> UiTileView {
    UiTileView { symbol, color }
}

/// A glyph for what has none of its own.
pub trait NotFound {
    fn not_found() -> UiTile;
}

impl NotFound for UiTile {
    /// A question mark in the default colours.
    fn not_found() -> (r: UiTile)
        ensures
            r@ == glyph("?"@, 0),
    {
        UiTile { symbol: String::from_str("?"), color: 0 }
    }
}

/// The glyphs of the chunks of the world map, by biome.
pub open spec fn world_map_glyphs() -> Map<Seq<char>, UiTileView> {
    Map::empty().insert("barren_land"@, glyph("."@, 1)).insert("rock_desert"@, glyph("*"@, 9)).insert(
        "salt_desert"@,
        glyph("_"@, 7),
    ).insert("ice_desert"@, glyph("~"@, 7)).insert("ash_desert"@, glyph("`"@, 7)).insert(
        "dunes"@,
        glyph("~"@, 1),
    ).insert("oasis"@, glyph("."@, 4))
}

/// The glyphs of the status panel: its border, its body and its text.
pub open spec fn hud_glyphs() -> Map<Seq<char>, UiTileView> {
    Map::empty().insert("border"@, glyph(" "@, 6)).insert("hud_body"@, glyph(" "@, 5)).insert(
        "hud_text"@,
        glyph(" "@, 3),
    )
}

/// The glyphs of the tiles, by ground.
pub open spec fn tile_glyphs() -> Map<Seq<char>, UiTileView> {
    Map::empty().insert("sand"@, glyph("."@, 1)).insert("ice"@, glyph("."@, 7)).insert(
        "dune_sand"@,
        glyph("~"@, 1),
    ).insert("ash"@, glyph("`"@, 9)).insert("salt"@, glyph("_"@, 7)).insert(
        "gravel"@,
        glyph("*"@, 9),
    ).insert("rock"@, glyph("^"@, 1)).insert("water"@, glyph("~"@, 2)).insert(
        "grass"@,
        glyph("."@, 4),
    ).insert("lava"@, glyph("~"@, 10))
}

/// The glyphs of the creatures, by kind.
pub open spec fn entity_glyphs() -> Map<Seq<char>, UiTileView> {
    Map::empty().insert("ogre"@, glyph("o"@, 3)).insert("kobold"@, glyph("p"@, 3)).insert(
        "goblin"@,
        glyph("G"@, 3),
    ).insert("gnoll"@, glyph("g"@, 3)).insert("rat"@, glyph("r"@, 3)).insert(
        "scarab"@,
        glyph("S"@, 9),
    ).insert("no entity"@, glyph(" "@, 3))
}

/// The glyph tables of the text screen.
pub struct Glyphs {
    pub ui_world_map_tiles: StrMap<UiTile>,
    pub ui_hud: StrMap<UiTile>,
    pub ui_tiles: StrMap<UiTile>,
    pub ui_entities: StrMap<UiTile>,
}

fn put(table: &mut StrMap<UiTile>, key: &str, symbol: &str, color: u8)
    ensures
        final(table)@ == old(table)@.insert(key@, glyph(symbol@, color)),
{
    table.insert(String::from_str(key), UiTile { symbol: String::from_str(symbol), color });
}

impl Default for Glyphs {
    /// The game's glyphs for biomes, the panel, grounds and creatures.
    fn default() -> (r: Glyphs)
        ensures
            r.ui_world_map_tiles@ == world_map_glyphs(),
            r.ui_hud@ == hud_glyphs(),
            r.ui_tiles@ == tile_glyphs(),
            r.ui_entities@ == entity_glyphs(),
    {
        let mut world = StrMap::new();
        put(&mut world, "barren_land", ".", 1);
        put(&mut world, "rock_desert", "*", 9);
        put(&mut world, "salt_desert", "_", 7);
        put(&mut world, "ice_desert", "~", 7);
        put(&mut world, "ash_desert", "`", 7);
        put(&mut world, "dunes", "~", 1);
        put(&mut world, "oasis", ".", 4);
        let mut hud = StrMap::new();
        put(&mut hud, "border", " ", 6);
        put(&mut hud, "hud_body", " ", 5);
        put(&mut hud, "hud_text", " ", 3);
        let mut tiles = StrMap::new();
        put(&mut tiles, "sand", ".", 1);
        put(&mut tiles, "ice", ".", 7);
        put(&mut tiles, "dune_sand", "~", 1);
        put(&mut tiles, "ash", "`", 9);
        put(&mut tiles, "salt", "_", 7);
        put(&mut tiles, "gravel", "*", 9);
        put(&mut tiles, "rock", "^", 1);
        put(&mut tiles, "water", "~", 2);
        put(&mut tiles, "grass", ".", 4);
        put(&mut tiles, "lava", "~", 10);
        let mut entities = StrMap::new();
        put(&mut entities, "ogre", "o", 3);
        put(&mut entities, "kobold", "p", 3);
        put(&mut entities, "goblin", "G", 3);
        put(&mut entities, "gnoll", "g", 3);
        put(&mut entities, "rat", "r", 3);
        put(&mut entities, "scarab", "S", 9);
        put(&mut entities, "no entity", " ", 3);
        Glyphs { ui_world_map_tiles: world, ui_hud: hud, ui_tiles: tiles, ui_entities: entities }
    }
}

impl Glyphs {
    /// The glyph of a ground, which must have one.
    pub fn tile_glyph(&self, tile_type: &str) -> (r: &UiTile)
        requires
            self.ui_tiles@.contains_key(tile_type@),
        ensures
            r@ == self.ui_tiles@[tile_type@],
    {
        self.ui_tiles.get(tile_type).unwrap()
    }

    /// The glyph of a biome, which must have one.
    pub fn world_tile_glyph(&self, chunk_type: &str) -> (r: &UiTile)
        requires
            self.ui_world_map_tiles@.contains_key(chunk_type@),
        ensures
            r@ == self.ui_world_map_tiles@[chunk_type@],
    {
        self.ui_world_map_tiles.get(chunk_type).unwrap()
    }

    /// The glyph of a kind of creature, or the question mark for a kind
    /// without one.
    pub fn entity_glyph(&self, entity_type: &str) -> (r: UiTile)
        ensures
            self.ui_entities@.contains_key(entity_type@) ==> r@ == self.ui_entities@[entity_type@],
            !self.ui_entities@.contains_key(entity_type@) ==> r@ == glyph("?"@, 0),
    {
        match self.ui_entities.get(entity_type) {
            Some(t) => t.clone(),
            None => UiTile::not_found(),
        }
    }

    /// The glyph of a part of the status panel, which must have one.
    pub fn hud_glyph(&self, element: &str) -> (r: &UiTile)
        requires
            self.ui_hud@.contains_key(element@),
        ensures
            r@ == self.ui_hud@[element@],
    {
        self.ui_hud.get(element).unwrap()
    }
}

/// Whether a cell at (`rel_x`, `rel_y`) from the camera is on the map part
/// of the screen.
pub open spec fn on_screen(rel_x: int, rel_y: int) -> bool {
    !(rel_x < 0 || rel_y < 0 || rel_x > SCREEN_WIDTH - 1 || rel_y > SCREEN_HEIGHT - MARGIN_Y)
}

/// Where on the screen (row, column) a cell at (`rel_x`, `rel_y`) from the
/// camera is drawn, if it is on the map part of the screen.
pub fn map_cell(rel_x: i32, rel_y: i32) -> (r: Option<(i32, i32)>)
    ensures
        on_screen(rel_x as int, rel_y as int) ==> r == Some(
            ((rel_y + MARGIN_Y) as i32, (rel_x + MARGIN_X) as i32),
        ),
        !on_screen(rel_x as int, rel_y as int) ==> r is None,
{
    if rel_x < 0 || rel_y < 0 || rel_x > SCREEN_WIDTH as i32 - 1 || rel_y > SCREEN_HEIGHT as i32
        - MARGIN_Y {
        None
    } else {
        Some((rel_y + MARGIN_Y, rel_x + MARGIN_X))
    }
}

/// Whether the panel cell at row `i`, column `j` of the screen lies on the
/// panel's border.
pub open spec fn on_border(i: int, j: int) -> bool {
    i == HUD_Y || i == HUD_Y + HUD_HEIGHT - 1 || j == HUD_X || j == HUD_X + HUD_WIDTH - 1
}

/// The part of the status panel at row `i`, column `j`: "border" on its
/// edges, "hud_body" inside.
pub fn hud_element(i: u8, j: u8) -> (r: &'static str)
    ensures
        on_border(i as int, j as int) ==> r@ == "border"@,
        !on_border(i as int, j as int) ==> r@ == "hud_body"@,
{
    if !(i == HUD_Y || i == HUD_Y + HUD_HEIGHT - 1 || j == HUD_X || j == HUD_X + HUD_WIDTH - 1) {
        "hud_body"
    } else {
        "border"
    }
}

/// Where on the screen (row, column) text at row `y`, column `x` of the map
/// part is written.
pub fn text_cell(y: i32, x: i32) -> (r: (i32, i32))
    requires
        y < i32::MAX,
    ensures
        r.0 == y + MARGIN_Y && r.1 == x + MARGIN_X,
{
    (MARGIN_Y + y, MARGIN_X + x)
}

/// Where on the screen (row, column) text at row `y`, column `x` of the
/// status panel is written.
pub fn hud_text_cell(y: i32, x: i32) -> (r: (i32, i32))
    requires
        y + MARGIN_Y + HUD_Y <= i32::MAX,
    ensures
        r.0 == y + MARGIN_Y + HUD_Y && r.1 == x + MARGIN_X + HUD_X,
{
    (MARGIN_Y + HUD_Y as i32 + y, MARGIN_X + HUD_X as i32 + x)
}

} // verus!
