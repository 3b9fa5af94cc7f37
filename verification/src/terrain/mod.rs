//! Ground and overlay kinds, their walking costs, and autotile selection.

pub mod authored_pois;
pub mod fog;
pub mod frontier;
pub mod interior;
pub mod lighting;
pub mod night_lights;
pub mod path;
pub mod procedural_ground;
pub mod search;
pub mod textures;
pub mod tilemap;
pub mod water_shader;
pub mod world;
pub mod world_map;

use vstd::prelude::*;

verus! {

/// Ground terrain types (layer 0). These use autotiling with 3x3 blocks.
#[derive(Debug, Clone, Copy, PartialEq, Eq, Hash, Structural)]
pub enum Ground {
    Grass,
    Road,
    Water,
    Sand,
    Snow,
    Swamp,
    Lava,
    /// Grey rocky ground.
    Mountain,
}

/// Overlay objects (layer 1), drawn on top of the ground with transparency.
#[derive(Debug, Clone, Copy, PartialEq, Eq, Hash, Structural)]
pub enum Overlay {
    Tree,
    DenseTree,
    Village,
    Bridge,
    /// Decoration of the generated map: a boulder on rocky ground.
    Rock,
    /// Decoration of the generated map: a conifer on snow.
    PineTree,
    /// Decoration of the generated map: the mouth of a cave.
    CaveEntrance,
}

/// Combined terrain for game logic.
#[derive(Debug, Clone, Copy)]
pub struct Terrain {
    pub ground: Ground,
    pub overlay: Option<Overlay>,
}

/// Meters it takes to cross plain ground; `u32::MAX` marks it impassable.
pub open spec fn ground_cost(ground: Ground) -> u32 {
    match ground {
        Ground::Road => 100,
        Ground::Grass => 200,
        Ground::Sand => 250,
        Ground::Snow => 350,
        Ground::Swamp => 500,
        Ground::Mountain => 600,
        Ground::Lava => 800,
        Ground::Water => u32::MAX,
    }
}

/// Meters it takes to cross a tile, its overlay taken into account: a bridge
/// is crossed as easily as a road whatever it spans, other overlays count only
/// on ground that can be walked on.
pub open spec fn terrain_cost(terrain: Terrain) -> u32 {
    let base = ground_cost(terrain.ground);
    if terrain.overlay == Some(Overlay::Bridge) {
        100
    } else if base == u32::MAX {
        u32::MAX
    } else {
        match terrain.overlay {
            Some(Overlay::Tree) => (base + 150) as u32,
            Some(Overlay::DenseTree) => (base + 250) as u32,
            Some(Overlay::Village) => 150,
            _ => base,
        }
    }
}

/// A tile can be walked on when its ground can, or when a bridge spans it.
pub open spec fn terrain_passable(terrain: Terrain) -> bool {
    terrain.overlay == Some(Overlay::Bridge) || ground_cost(terrain.ground) < u32::MAX
}

/// Display name of plain ground.
pub open spec fn ground_name(ground: Ground) -> Seq<char> {
    match ground {
        Ground::Grass => "Grass"@,
        Ground::Road => "Road"@,
        Ground::Water => "Water"@,
        Ground::Sand => "Sand"@,
        Ground::Snow => "Snow"@,
        Ground::Swamp => "Swamp"@,
        Ground::Lava => "Lava"@,
        Ground::Mountain => "Mountain"@,
    }
}

/// Display name of a tile: its overlay's name where that has one.
pub open spec fn terrain_name(terrain: Terrain) -> Seq<char> {
    match terrain.overlay {
        Some(Overlay::Tree) => "Forest"@,
        Some(Overlay::DenseTree) => "Dense Forest"@,
        Some(Overlay::Village) => "Village"@,
        Some(Overlay::Bridge) => "Bridge"@,
        _ => ground_name(terrain.ground),
    }
}

/// Top-left tile of the ground's 3x3 autotile block.
pub open spec fn ground_block(ground: Ground) -> u32 {
    match ground {
        Ground::Grass => 0,
        Ground::Road => 3,
        Ground::Sand => 15,
        Ground::Water => 270,
        Ground::Snow => 15,
        Ground::Swamp => 189,
        Ground::Mountain => 6,
        Ground::Lava => 9,
    }
}

/// Fallback colour of the ground as (red, green, blue) in hundredths.
pub open spec fn ground_hundredths(ground: Ground) -> (u8, u8, u8) {
    match ground {
        Ground::Grass => (33, 66, 33),
        Ground::Road => (66, 60, 40),
        Ground::Water => (20, 40, 66),
        Ground::Sand => (80, 73, 53),
        Ground::Snow => (87, 87, 93),
        Ground::Swamp => (27, 33, 20),
        Ground::Mountain => (53, 47, 40),
        Ground::Lava => (60, 20, 7),
    }
}

/// Overlays that have a sprite of their own in the tile atlas.
pub open spec fn overlay_has_tile(overlay: Overlay) -> bool {
    match overlay {
        Overlay::Tree | Overlay::DenseTree | Overlay::Village | Overlay::Bridge => true,
        _ => false,
    }
}

/// Tile of an overlay's sprite in the tile atlas.
pub open spec fn overlay_tile(overlay: Overlay) -> u32 {
    match overlay {
        Overlay::Tree => 138,
        Overlay::DenseTree => 165,
        Overlay::Village => 769,
        _ => 85,
    }
}

/// Offset inside a 3x3 block along one axis: 0 on the edge where only the
/// following neighbour matches, 2 where only the preceding one does, else the
/// middle.
pub open spec fn block_offset(before: bool, after: bool) -> u32 {
    if !before && after {
        0
    } else if before && !after {
        2
    } else {
        1
    }
}

/// The tile of the ground's block for the given matching neighbours.
pub open spec fn block_tile(
    ground: Ground,
    up: bool,
    down: bool,
    left: bool,
    right: bool,
) -> int {
    ground_block(ground) + block_offset(up, down) * 27 + block_offset(left, right)
}

impl Terrain {
    /// Meters required to traverse this tile.
    pub fn movement_cost(&self) -> (cost: u32)
        ensures
            cost == terrain_cost(*self),
    {
        let base: u32 = self.ground.movement_cost();
        match self.overlay {
            // Bridges override to easy crossing, over water too.
            Some(Overlay::Bridge) => 100,
            _ if base == u32::MAX => u32::MAX,
            Some(Overlay::Tree) => base + 150,
            Some(Overlay::DenseTree) => base + 250,
            Some(Overlay::Village) => 150,
            _ => base,
        }
    }

    pub fn is_passable(&self) -> (passable: bool)
        ensures
            passable == terrain_passable(*self),
    {
        // Bridges make water passable.
        match self.overlay {
            Some(Overlay::Bridge) => true,
            _ => self.ground.is_passable(),
        }
    }

    /// Incline percentage, in hundredths. All ground is flat so far.
    pub fn incline(&self) -> (hundredths: i32)
        ensures
            hundredths == 0,
    {
        self.ground.incline()
    }

    /// Display name for the HUD.
    pub fn name(&self) -> (name: &'static str)
        ensures
            name@ == terrain_name(*self),
    {
        match self.overlay {
            Some(Overlay::Tree) => "Forest",
            Some(Overlay::DenseTree) => "Dense Forest",
            Some(Overlay::Village) => "Village",
            Some(Overlay::Bridge) => "Bridge",
            _ => self.ground.name(),
        }
    }
}

impl Ground {
    pub fn movement_cost(self) -> (cost: u32)
        ensures
            cost == ground_cost(self),
    {
        match self {
            Ground::Road => 100,
            Ground::Grass => 200,
            Ground::Sand => 250,
            Ground::Snow => 350,
            Ground::Swamp => 500,
            Ground::Mountain => 600,
            Ground::Lava => 800,
            Ground::Water => u32::MAX,
        }
    }

    pub fn is_passable(self) -> (passable: bool)
        ensures
            passable == (ground_cost(self) < u32::MAX),
    {
        self.movement_cost() < u32::MAX
    }

    /// Incline percentage, in hundredths. All ground is flat so far.
    pub fn incline(self) -> (hundredths: i32)
        ensures
            hundredths == 0,
    {
        0
    }

    pub fn name(self) -> (name: &'static str)
        ensures
            name@ == ground_name(self),
    {
        match self {
            Ground::Grass => "Grass",
            Ground::Road => "Road",
            Ground::Water => "Water",
            Ground::Sand => "Sand",
            Ground::Snow => "Snow",
            Ground::Swamp => "Swamp",
            Ground::Lava => "Lava",
            Ground::Mountain => "Mountain",
        }
    }

    /// Base tile index (top-left of the 3x3 autotile block). The block is laid
    /// out in an atlas of 27 columns:
    ///   base+0,  base+1,  base+2     (top-left, top, top-right)
    ///   base+27, base+28, base+29    (left, center, right)
    ///   base+54, base+55, base+56    (bot-left, bot, bot-right)
    pub fn autotile_base(self) -> (tile: u32)
        ensures
            tile == ground_block(self),
    {
        match self {
            Ground::Grass => 0,  // row 0, col 0: green grass
            Ground::Road => 3,  // row 0, col 3: dirt/sandy path
            Ground::Sand => 15,  // row 0, col 15: lighter sand
            Ground::Water => 270,  // row 10, col 0: water with edges
            Ground::Snow => 15,  // shares the light sand block
            Ground::Swamp => 189,  // row 7, col 0: dark forest ground
            Ground::Mountain => 6,  // row 0, col 6: dark grass/rock
            Ground::Lava => 9,  // row 0, col 9: another sand variant
        }
    }

    /// Center tile index (used when all neighbors match).
    pub fn center_tile(self) -> (tile: u32)
        ensures
            tile == ground_block(self) + 28,
    {
        self.autotile_base() + 28
    }

    /// Color fallback as (red, green, blue) in hundredths.
    pub fn color(self) -> (rgb: (u8, u8, u8))
        ensures
            rgb == ground_hundredths(self),
    {
        match self {
            Ground::Grass => (33, 66, 33),
            Ground::Road => (66, 60, 40),
            Ground::Water => (20, 40, 66),
            Ground::Sand => (80, 73, 53),
            Ground::Snow => (87, 87, 93),
            Ground::Swamp => (27, 33, 20),
            Ground::Mountain => (53, 47, 40),
            Ground::Lava => (60, 20, 7),
        }
    }
}

impl Overlay {
    /// Tile index for the overlay sprite. The decorations of the generated map
    /// are drawn from other art and have none.
    pub fn tile_index(self) -> (tile: u32)
        requires
            overlay_has_tile(self),
        ensures
            tile == overlay_tile(self),
    {
        match self {
            Overlay::Tree => 138,  // row 5, col 3: tree sprite
            Overlay::DenseTree => 165,  // row 6, col 3: dense/darker tree
            Overlay::Village => 769,  // building (row 28, col 13)
            _ => 85,  // row 3, col 4: wooden bridge
        }
    }
}

/// Compute the autotile index for a ground tile based on its neighbors.
/// `same_fn` returns true if the neighbor at (nx, ny) has the same ground type;
/// beyond the top and left edges of the map no neighbor matches.
pub fn autotile_index(
    ground: Ground,
    x: usize,
    y: usize,
    same_fn: impl Fn(usize, usize) -> bool,
) -> (tile: u32)
    requires
        x < usize::MAX,
        y < usize::MAX,
        y > 0 ==> same_fn.requires((x, (y - 1) as usize)),
        same_fn.requires((x, (y + 1) as usize)),
        x > 0 ==> same_fn.requires(((x - 1) as usize, y)),
        same_fn.requires(((x + 1) as usize, y)),
    ensures
        exists|up: bool, down: bool, left: bool, right: bool|
            {
                &&& if y > 0 {
                    same_fn.ensures((x, (y - 1) as usize), up)
                } else {
                    !up
                }
                &&& same_fn.ensures((x, (y + 1) as usize), down)
                &&& if x > 0 {
                    same_fn.ensures(((x - 1) as usize, y), left)
                } else {
                    !left
                }
                &&& same_fn.ensures(((x + 1) as usize, y), right)
                &&& tile == #[trigger] block_tile(ground, up, down, left, right)
            },
{
    let base: u32 = ground.autotile_base();

    let up = y > 0 && same_fn(x, y - 1);
    let down = same_fn(x, y + 1);
    let left = x > 0 && same_fn(x - 1, y);
    let right = same_fn(x + 1, y);

    let col_offset: u32 = match (left, right) {
        (false, false) => 1,  // isolated horizontally: center column
        (false, true) => 0,  // left edge
        (true, false) => 2,  // right edge
        (true, true) => 1,  // center
    };

    let row_offset: u32 = match (up, down) {
        (false, false) => 1,  // isolated vertically: center row
        (false, true) => 0,  // top edge
        (true, false) => 2,  // bottom edge
        (true, true) => 1,  // center
    };

    let tile: u32 = base + row_offset * 27 + col_offset;
    assert(tile == block_tile(ground, up, down, left, right));
    tile
}

/// A tile is walkable exactly when crossing it costs a finite number of
/// meters.
pub proof fn passable_iff_finite_cost(terrain: Terrain)
    ensures
        terrain_passable(terrain) <==> terrain_cost(terrain) < u32::MAX,
{
}

/// No tile is crossed in less than a road tile's hundred meters, and none that
/// can be walked on takes more than 1050.
pub proof fn walking_cost_bounds(terrain: Terrain)
    ensures
        terrain_cost(terrain) >= 100,
        terrain_cost(terrain) < u32::MAX ==> terrain_cost(terrain) <= 1050,
{
}

/// Whatever the neighbours, the chosen tile lies in the ground's 3x3 block of
/// the 27-column atlas, and it is the center tile when all four match.
pub proof fn autotile_stays_in_block(
    ground: Ground,
    up: bool,
    down: bool,
    left: bool,
    right: bool,
)
    ensures
        ({
            let offset = block_tile(ground, up, down, left, right) - ground_block(ground);
            0 <= offset / 27 <= 2 && 0 <= offset % 27 <= 2
        }),
        block_tile(ground, true, true, true, true) == ground_block(ground) + 28,
{
}

/// Every ground has meters of its own: bare road takes 100, grass 200, sand
/// 250, snow 350, swamp 500, rock 600, lava 800, and only water cannot be
/// crossed. So no ground but road is as short as a road.
pub proof fn meters_of_every_ground(ground: Ground)
    ensures
        ({
            let bare = terrain_cost(Terrain { ground, overlay: None });
            &&& bare == ground_cost(ground)
            &&& bare == 100 <==> ground == Ground::Road
            &&& bare == 200 <==> ground == Ground::Grass
            &&& bare == 250 <==> ground == Ground::Sand
            &&& bare == 350 <==> ground == Ground::Snow
            &&& bare == 500 <==> ground == Ground::Swamp
            &&& bare == 600 <==> ground == Ground::Mountain
            &&& bare == 800 <==> ground == Ground::Lava
            &&& bare == u32::MAX <==> ground == Ground::Water
        }),
{
}

/// What stands on a tile changes its meters in one way on every ground that
/// can be walked on: trees add 150, dense trees 250, a village is crossed in
/// 150, everything else changes nothing. A bridge is as short as a bare road
/// even over water, on which nothing else helps.
pub proof fn overlays_change_the_meters(ground: Ground, overlay: Overlay)
    ensures
        ({
            let bare = terrain_cost(Terrain { ground, overlay: None });
            let with = terrain_cost(Terrain { ground, overlay: Some(overlay) });
            &&& overlay == Overlay::Bridge ==> with == terrain_cost(
                Terrain { ground: Ground::Road, overlay: None },
            )
            &&& overlay != Overlay::Bridge && ground == Ground::Water ==> with == bare
            &&& ground != Ground::Water ==> {
                &&& overlay == Overlay::Tree ==> with == bare + 150
                &&& overlay == Overlay::DenseTree ==> with == bare + 250
                &&& overlay == Overlay::Village ==> with == 150
                &&& overlay == Overlay::Rock || overlay == Overlay::PineTree || overlay
                    == Overlay::CaveEntrance ==> with == bare
            }
        }),
{
}

/// Only water without a bridge keeps anybody out.
pub proof fn only_open_water_is_impassable(terrain: Terrain)
    ensures
        !terrain_passable(terrain) <==> terrain.ground == Ground::Water && terrain.overlay != Some(
            Overlay::Bridge,
        ),
{
}

/// A tile is called after what stands on it, else after its ground, and no two
/// of these share a name.
pub proof fn names_tell_tiles_apart(a: Ground, b: Ground, overlay: Overlay)
    ensures
        ({
            let name = |ground: Ground, overlay: Option<Overlay>|
                terrain_name(Terrain { ground, overlay });
            &&& name(a, None) == ground_name(a)
            &&& name(a, None) == name(b, None) <==> a == b
            &&& overlay_has_tile(overlay) ==> name(a, Some(overlay)) == name(b, Some(overlay))
            &&& overlay_has_tile(overlay) ==> name(a, Some(overlay)) != name(b, None)
            &&& !overlay_has_tile(overlay) ==> name(a, Some(overlay)) == name(a, None)
            &&& name(Ground::Grass, None) == "Grass"@
            &&& name(Ground::Road, None) == "Road"@
            &&& name(Ground::Water, None) == "Water"@
            &&& name(Ground::Sand, None) == "Sand"@
            &&& name(Ground::Snow, None) == "Snow"@
            &&& name(Ground::Swamp, None) == "Swamp"@
            &&& name(Ground::Lava, None) == "Lava"@
            &&& name(Ground::Mountain, None) == "Mountain"@
            &&& name(a, Some(Overlay::Tree)) == "Forest"@
            &&& name(a, Some(Overlay::DenseTree)) == "Dense Forest"@
            &&& name(a, Some(Overlay::Village)) == "Village"@
            &&& name(a, Some(Overlay::Bridge)) == "Bridge"@
        }),
{
    reveal_strlit("Grass");
    reveal_strlit("Road");
    reveal_strlit("Water");
    reveal_strlit("Sand");
    reveal_strlit("Snow");
    reveal_strlit("Swamp");
    reveal_strlit("Lava");
    reveal_strlit("Mountain");
    reveal_strlit("Forest");
    reveal_strlit("Dense Forest");
    reveal_strlit("Village");
    reveal_strlit("Bridge");
    assert(forall|s: Seq<char>, t: Seq<char>| s == t && s.len() > 0 ==> #[trigger] s[0] == #[trigger]
        t[0]);
    assert("Grass"@[0] == 'G');
    assert("Road"@[0] == 'R');
    assert("Water"@[0] == 'W');
    assert("Sand"@[1] == 'a');
    assert("Snow"@[1] == 'n');
    assert("Swamp"@[1] == 'w');
    assert("Lava"@[0] == 'L');
    assert("Mountain"@[0] == 'M');
    assert("Forest"@[0] == 'F');
    assert("Dense Forest"@[0] == 'D');
    assert("Village"@[0] == 'V');
    assert("Bridge"@[0] == 'B');
}

/// Where each ground's block lies in the atlas of 27 columns: row 0 holds grass
/// from column 0 on, road from 3, rock from 6, lava from 9, sand from 15; swamp
/// starts row 7 and water row 10. Snow borrows the sand.
pub proof fn blocks_lie_in_the_atlas(ground: Ground)
    ensures
        ({
            let row = ground_block(ground) / 27;
            let col = ground_block(ground) % 27;
            &&& row == 10 && col == 0 <==> ground == Ground::Water
            &&& row == 7 && col == 0 <==> ground == Ground::Swamp
            &&& row == 0 && col == 0 <==> ground == Ground::Grass
            &&& row == 0 && col == 3 <==> ground == Ground::Road
            &&& row == 0 && col == 6 <==> ground == Ground::Mountain
            &&& row == 0 && col == 9 <==> ground == Ground::Lava
            &&& row == 0 && col == 15 <==> ground == Ground::Sand || ground == Ground::Snow
        }),
{
}

/// Where the sprites of overlays lie in the atlas, by row and column.
pub proof fn overlay_sprites_lie_in_the_atlas(overlay: Overlay)
    requires
        overlay_has_tile(overlay),
    ensures
        ({
            let tile = overlay_tile(overlay);
            &&& tile == 5 * 27 + 3 <==> overlay == Overlay::Tree
            &&& tile == 6 * 27 + 3 <==> overlay == Overlay::DenseTree
            &&& tile == 28 * 27 + 13 <==> overlay == Overlay::Village
            &&& tile == 3 * 27 + 4 <==> overlay == Overlay::Bridge
        }),
{
}

/// The four overlays that a name and a sprite exist for.
pub proof fn overlays_with_a_sprite(overlay: Overlay)
    ensures
        overlay_has_tile(overlay) <==> overlay != Overlay::Rock && overlay != Overlay::PineTree
            && overlay != Overlay::CaveEntrance,
{
}

/// Fallback colors are told apart, and each ground has its own.
pub proof fn fallback_colors(ground: Ground)
    ensures
        ground_hundredths(ground) == (33u8, 66u8, 33u8) <==> ground == Ground::Grass,
        ground_hundredths(ground) == (66u8, 60u8, 40u8) <==> ground == Ground::Road,
        ground_hundredths(ground) == (20u8, 40u8, 66u8) <==> ground == Ground::Water,
        ground_hundredths(ground) == (80u8, 73u8, 53u8) <==> ground == Ground::Sand,
        ground_hundredths(ground) == (87u8, 87u8, 93u8) <==> ground == Ground::Snow,
        ground_hundredths(ground) == (27u8, 33u8, 20u8) <==> ground == Ground::Swamp,
        ground_hundredths(ground) == (53u8, 47u8, 40u8) <==> ground == Ground::Mountain,
        ground_hundredths(ground) == (60u8, 20u8, 7u8) <==> ground == Ground::Lava,
{
}

/// The chosen tile shows its open sides: it is in the block's top row exactly
/// where only the tile below is alike, in the bottom row where only the one
/// above is, in the left column where only the one to the right is, in the
/// right column where only the one to the left is, and else in the middle.
pub proof fn autotile_shows_open_sides(
    ground: Ground,
    up: bool,
    down: bool,
    left: bool,
    right: bool,
)
    ensures
        ({
            let offset = block_tile(ground, up, down, left, right) - ground_block(ground);
            &&& offset / 27 == 0 <==> !up && down
            &&& offset / 27 == 2 <==> up && !down
            &&& offset / 27 == 1 <==> up == down
            &&& offset % 27 == 0 <==> !left && right
            &&& offset % 27 == 2 <==> left && !right
            &&& offset % 27 == 1 <==> left == right
        }),
{
}

} // verus!
