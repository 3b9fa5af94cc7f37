//! Mobile entities: wandering and patrolling creatures that the server moves.

use vstd::prelude::*;
use vstd::string::StringExecFns;

use crate::reconcile::{missing_from, reconcile, Changes};
use crate::terrain::textures::{
    decoded_rgba, frame_count, load_sheet, loadable, ImageFile, SpriteSheet,
};
use crate::text::{same_text, texts};

verus! {

/// An entity as the server reports it.
#[derive(Debug, Clone)]
pub struct PolledEntity {
    pub id: String,
    pub sprite: String,
    pub x: usize,
    pub y: usize,
    pub facing: String,
}

#[derive(Debug, Clone, Copy, PartialEq, Eq, Structural)]
pub enum EntityFacing {
    Up,
    Down,
    Left,
    Right,
}

/// Facing of that name; down for any other.
pub open spec fn facing_named(name: Seq<char>) -> EntityFacing {
    if name == "up"@ {
        EntityFacing::Up
    } else if name == "left"@ {
        EntityFacing::Left
    } else if name == "right"@ {
        EntityFacing::Right
    } else {
        EntityFacing::Down
    }
}

/// Row of a facing on a monster sheet: down, left, right, up.
pub open spec fn facing_row(facing: EntityFacing) -> int {
    match facing {
        EntityFacing::Down => 0,
        EntityFacing::Left => 1,
        EntityFacing::Right => 2,
        EntityFacing::Up => 3,
    }
}

impl EntityFacing {
    pub fn parse(s: &str) -> (facing: EntityFacing)
        ensures
            facing == facing_named(s@),
    {
        if same_text(s, "up") {
            EntityFacing::Up
        } else if same_text(s, "left") {
            EntityFacing::Left
        } else if same_text(s, "right") {
            EntityFacing::Right
        } else {
            EntityFacing::Down
        }
    }

    pub fn atlas_row(self) -> (row: usize)
        ensures
            row == facing_row(self),
            row <= 3,
    {
        match self {
            EntityFacing::Down => 0,
            EntityFacing::Left => 1,
            EntityFacing::Right => 2,
            EntityFacing::Up => 3,
        }
    }
}

/// A sprite sheet under the name by which entities ask for it.
pub struct NamedSheet {
    pub name: String,
    pub sheet: SpriteSheet,
    /// Frames of the walk cycle, at least one.
    pub anim_frames: u32,
}

/// The sheets that could be loaded, in the order in which they were listed.
pub struct EntitySpriteRegistry {
    pub sheets: Vec<NamedSheet>,
}

/// The sheet is the picture in the file, measured, under the file's name.
pub open spec fn is_sheet_of(sheet: NamedSheet, file: ImageFile) -> bool {
    let image = sheet.sheet.image;
    &&& sheet.name@ == file.name@
    &&& decoded_rgba(file.bytes@) == Some((image.width, image.height, image.pixels@))
    &&& sheet.sheet.cols == image.width / 16
    &&& sheet.sheet.rows == image.height / 16
    &&& sheet.sheet.frames == frame_count(
        image.pixels@,
        image.width as int,
        (image.width / 16) as int,
    )
    &&& sheet.anim_frames == (if sheet.sheet.frames == 0 {
        1
    } else {
        sheet.sheet.frames
    })
}

/// Names of the sheets in a registry.
pub open spec fn sheet_names(sheets: Seq<NamedSheet>) -> Seq<Seq<char>> {
    sheets.map_values(|s: NamedSheet| s.name@)
}

/// Loads the sheets of all entities. A file that holds no picture is left out.
pub fn build_sprite_registry(files: &Vec<ImageFile>) -> (registry: EntitySpriteRegistry)
    ensures
        registry.sheets.len() == loadable(files@).len(),
        forall|k: int|
            0 <= k < registry.sheets.len() ==> is_sheet_of(
                #[trigger] registry.sheets@[k],
                loadable(files@)[k],
            ),
{
    let mut sheets: Vec<NamedSheet> = Vec::new();
    let mut i: usize = 0;
    while i < files.len()
        invariant
            i <= files.len(),
            sheets.len() == loadable(files@.take(i as int)).len(),
            forall|k: int|
                0 <= k < sheets.len() ==> is_sheet_of(
                    #[trigger] sheets@[k],
                    loadable(files@.take(i as int))[k],
                ),
        decreases files.len() - i,
    {
        proof {
            assert(files@.take(i + 1).drop_last() =~= files@.take(i as int));
            assert(files@.take(i + 1).last() == files@[i as int]);
        }
        if let Some(sheet) = load_sheet(files[i].bytes.as_slice()) {
            let anim_frames: u32 = if sheet.frames == 0 {
                1
            } else {
                sheet.frames
            };
            let named = NamedSheet { name: files[i].name.clone(), sheet, anim_frames };
            assert(is_sheet_of(named, files@[i as int]));
            sheets.push(named);
        }
        i = i + 1;
    }
    assert(files@.take(i as int) =~= files@);
    EntitySpriteRegistry { sheets }
}

/// Which sheet of a registry an entity shows: the one it asks for, else the
/// first one, which stands in for sprites that are not known.
pub open spec fn sheet_for(names: Seq<Seq<char>>, sprite: Seq<char>) -> Option<int> {
    if exists|k: int| 0 <= k < names.len() && #[trigger] names[k] == sprite {
        Some(first_named(names, sprite))
    } else if names.len() > 0 {
        Some(0)
    } else {
        None
    }
}

/// First place of a name in a list, its length if it is not there.
pub open spec fn first_named(names: Seq<Seq<char>>, name: Seq<char>) -> int
    decreases names.len(),
{
    if names.len() == 0 || names[0] == name {
        0
    } else {
        1 + first_named(names.drop_first(), name)
    }
}

impl EntitySpriteRegistry {
    /// Finds the sheet that an entity shows; `None` while nothing is loaded.
    pub fn find(&self, sprite: &str) -> (found: Option<usize>)
        ensures
            match found {
                Some(k) => sheet_for(sheet_names(self.sheets@), sprite@) == Some(k as int) && k
                    < self.sheets.len(),
                None => sheet_for(sheet_names(self.sheets@), sprite@) is None,
            },
    {
        let ghost names = sheet_names(self.sheets@);
        let mut k: usize = 0;
        assert(names.skip(0) =~= names);
        while k < self.sheets.len()
            invariant
                k <= self.sheets.len(),
                names == sheet_names(self.sheets@),
                first_named(names, sprite@) == k + first_named(names.skip(k as int), sprite@),
                forall|j: int| 0 <= j < k ==> #[trigger] names[j] != sprite@,
            decreases self.sheets.len() - k,
        {
            proof {
                assert(names.skip(k as int)[0] == names[k as int]);
                assert(names.skip(k as int).drop_first() =~= names.skip(k + 1));
                assert(names[k as int] == self.sheets@[k as int].name@);
            }
            if same_text(self.sheets[k].name.as_str(), sprite) {
                return Some(k);
            }
            k = k + 1;
        }
        if self.sheets.len() > 0 {
            Some(0)
        } else {
            None
        }
    }
}

/// Whether a new request for the entities goes out: when the timer is up, the
/// player is known and no request is on its way.
pub fn poll_entities(timer_up: bool, player_id: &str, in_flight: bool) -> (fetch: bool)
    ensures
        fetch == (timer_up && player_id@.len() > 0 && !in_flight),
{
    timer_up && !player_id.is_empty() && !in_flight
}

/// Path of the entities around a player.
pub fn entities_path(player_id: &str) -> (path: String)
    ensures
        path@ == "/entities?player_id="@ + player_id@,
{
    let mut path = String::from_str("/entities?player_id=");
    path.append(player_id);
    path
}

/// Ids of entities.
pub open spec fn entity_ids(list: Seq<PolledEntity>) -> Seq<Seq<char>> {
    list.map_values(|e: PolledEntity| e.id@)
}

/// Which sprites go and which entities get one, given the ids of the sprites
/// there are and the entities that the server reports.
pub fn render_entities(sprites: &Vec<String>, list: &Vec<PolledEntity>) -> (changes: Changes)
    ensures
        changes.remove@ == missing_from(texts(sprites@), entity_ids(list@)),
        changes.add@ == missing_from(entity_ids(list@), texts(sprites@)),
{
    let mut ids: Vec<String> = Vec::new();
    let mut i: usize = 0;
    while i < list.len()
        invariant
            i <= list.len(),
            ids.len() == i,
            forall|j: int| 0 <= j < i ==> (#[trigger] ids@[j])@ == list@[j].id@,
        decreases list.len() - i,
    {
        ids.push(list[i].id.clone());
        i = i + 1;
    }
    assert(texts(ids@) =~= entity_ids(list@));
    reconcile(sprites, &ids)
}

/// Where an entity's sprite heads, and its walk cycle.
#[derive(Debug, Clone, Copy)]
pub struct MobileEntity {
    /// Tile that the server reported last.
    pub tile: (usize, usize),
    pub facing: EntityFacing,
    pub frame: usize,
    /// Frames in a row of the sheet.
    pub cols: usize,
    pub moving: bool,
}

/// The sprite keeps walking: it has not arrived, or it was just sent on.
pub open spec fn entity_walks(before: MobileEntity, tile: (usize, usize), arrived: bool) -> bool {
    !arrived || before.tile != tile
}

/// Frame in the atlas, never beyond the last of 32 rows.
pub open spec fn entity_index(facing: EntityFacing, cols: int, frame: int) -> int {
    let index = facing_row(facing) * cols + frame;
    if index <= cols * 32 {
        index
    } else {
        cols * 32
    }
}

impl MobileEntity {
    pub open spec fn wf(&self) -> bool {
        &&& self.frame <= 4
        &&& 1 <= self.cols
        &&& self.cols * 32 <= usize::MAX
    }

    /// Sprite of an entity that just appeared.
    pub fn appear(tile: (usize, usize), facing: EntityFacing, anim_frames: u32) -> (entity:
        MobileEntity)
        ensures
            entity.tile == tile,
            entity.facing == facing,
            entity.frame == 0,
            entity.cols == (if anim_frames == 0 {
                1
            } else {
                anim_frames as int
            }),
            !entity.moving,
            anim_frames * 32 <= usize::MAX ==> entity.wf(),
    {
        let cols: usize = if anim_frames == 0 {
            1
        } else {
            anim_frames as usize
        };
        MobileEntity { tile, facing, frame: 0, cols, moving: false }
    }

    /// Takes over what the server reported and advances the walk cycle.
    /// `arrived` tells that the sprite has reached the reported tile. Returns
    /// the frame to switch to, `None` to leave the sprite as it is.
    pub fn advance(
        &mut self,
        tile: (usize, usize),
        facing: EntityFacing,
        arrived: bool,
        timer_up: bool,
    ) -> (index: Option<usize>)
        requires
            old(self).wf(),
        ensures
            final(self).wf(),
            final(self).tile == tile,
            final(self).facing == facing,
            final(self).cols == old(self).cols,
            final(self).moving == entity_walks(*old(self), tile, arrived),
            entity_walks(*old(self), tile, arrived) ==> {
                &&& final(self).frame == (if timer_up {
                    old(self).frame as int % 4 + 1
                } else {
                    old(self).frame as int
                })
                &&& index == Some(
                    entity_index(facing, old(self).cols as int, final(self).frame as int) as usize,
                )
            },
            !entity_walks(*old(self), tile, arrived) && (old(self).moving || old(self).facing
                != facing) ==> {
                &&& final(self).frame == 0
                &&& index == Some(entity_index(facing, old(self).cols as int, 0) as usize)
            },
            !entity_walks(*old(self), tile, arrived) && !old(self).moving && old(self).facing
                == facing ==> final(self).frame == old(self).frame && index is None,
    {
        let moved: bool = self.tile.0 != tile.0 || self.tile.1 != tile.1;
        let same_facing: bool = self.facing == facing;
        self.tile = tile;
        self.facing = facing;
        let row: usize = facing.atlas_row();
        let cols: usize = self.cols;
        assert(0 <= row * cols <= 3 * cols) by (nonlinear_arith)
            requires
                row <= 3,
        ;
        let start: usize = row * cols;
        let last: usize = cols * 32;
        if !arrived || moved {
            if timer_up {
                self.frame = self.frame % 4 + 1;
            }
            self.moving = true;
            let index: usize = start + self.frame;
            Some(
                if index <= last {
                    index
                } else {
                    last
                },
            )
        } else if self.moving || !same_facing {
            self.moving = false;
            self.frame = 0;
            Some(
                if start <= last {
                    start
                } else {
                    last
                },
            )
        } else {
            None
        }
    }
}

/// Facings go by their names, and whatever is none of them looks down. Each
/// has a row of its own.
pub proof fn facings_go_by_their_names(name: Seq<char>)
    ensures
        facing_named(name) == EntityFacing::Up <==> name == "up"@,
        facing_named(name) == EntityFacing::Left <==> name == "left"@,
        facing_named(name) == EntityFacing::Right <==> name == "right"@,
        facing_named("down"@) == EntityFacing::Down,
        facing_row(EntityFacing::Down) == 0,
        facing_row(EntityFacing::Left) == 1,
        facing_row(EntityFacing::Right) == 2,
        facing_row(EntityFacing::Up) == 3,
{
    reveal_strlit("up");
    reveal_strlit("left");
    reveal_strlit("right");
    reveal_strlit("down");
    assert("up"@.len() == 2 && "left"@.len() == 4 && "right"@.len() == 5 && "down"@.len() == 4);
    assert("left"@[0] == 'l' && "down"@[0] == 'd');
}

/// An entity shows the first sheet of the name it asks for; where none has the
/// name, the first sheet of all; and nothing only where there is no sheet.
pub proof fn entities_show_the_sheet_they_ask_for(names: Seq<Seq<char>>, k: int, sprite: Seq<char>)
    ensures
        names.len() == 0 <==> sheet_for(names, sprite) is None,
        0 <= k < names.len() && names[k] == sprite && (forall|j: int|
            0 <= j < k ==> #[trigger] names[j] != sprite) ==> sheet_for(names, sprite) == Some(k),
        names.len() > 0 && (forall|j: int| 0 <= j < names.len() ==> #[trigger] names[j] != sprite)
            ==> sheet_for(names, sprite) == Some(0int),
{
    if 0 <= k < names.len() && names[k] == sprite && (forall|j: int|
        0 <= j < k ==> #[trigger] names[j] != sprite) {
        lemma_first_named(names, sprite, k);
    }
}

proof fn lemma_first_named(names: Seq<Seq<char>>, name: Seq<char>, k: int)
    requires
        0 <= k < names.len(),
        names[k] == name,
        forall|j: int| 0 <= j < k ==> #[trigger] names[j] != name,
    ensures
        first_named(names, name) == k,
    decreases k,
{
    if k > 0 {
        assert(names[0] != name);
        assert(names.drop_first()[k - 1] == names[k]);
        assert forall|j: int| 0 <= j < k - 1 implies #[trigger] names.drop_first()[j] != name by {
            assert(names.drop_first()[j] == names[j + 1]);
        }
        lemma_first_named(names.drop_first(), name, k - 1);
    }
}

/// A sprite walks until it has arrived, and goes on when it is sent to another
/// tile; it rests once it has arrived where it was sent.
pub proof fn entities_walk_until_they_arrive(
    entity: MobileEntity,
    tile: (usize, usize),
    arrived: bool,
)
    ensures
        !arrived ==> entity_walks(entity, tile, arrived),
        entity.tile != tile ==> entity_walks(entity, tile, arrived),
        arrived && entity.tile == tile ==> !entity_walks(entity, tile, arrived),
{
}

/// A frame of the walk is found in the row of the facing where the sheet has
/// room for it: the frames of one row are followed by those of the next.
pub proof fn entity_frames_stand_in_rows(facing: EntityFacing, cols: int, frame: int)
    requires
        1 <= cols,
        0 <= frame <= 4,
    ensures
        entity_index(facing, cols, frame) == facing_row(facing) * cols + frame,
        facing == EntityFacing::Down ==> entity_index(facing, cols, frame) == frame,
        facing == EntityFacing::Left ==> entity_index(facing, cols, frame) == cols + frame,
        facing == EntityFacing::Right ==> entity_index(facing, cols, frame) == 2 * cols + frame,
        facing == EntityFacing::Up ==> entity_index(facing, cols, frame) == 3 * cols + frame,
{
    let row = facing_row(facing);
    assert(row * cols <= 3 * cols) by (nonlinear_arith)
        requires
            row <= 3,
            1 <= cols,
    ;
}

/// The ids keep the order of the entities.
pub proof fn entity_ids_keep_the_order(list: Seq<PolledEntity>, i: int)
    requires
        0 <= i < list.len(),
    ensures
        entity_ids(list).len() == list.len(),
        entity_ids(list)[i] == list[i].id@,
{
}

/// A sheet is named after its file, measured in frames of sixteen pixels, and
/// has a frame to show even where all frames are empty.
pub proof fn sheets_are_measured(sheet: NamedSheet, file: ImageFile)
    requires
        is_sheet_of(sheet, file),
    ensures
        sheet.name@ == file.name@,
        decoded_rgba(file.bytes@) == Some(
            (sheet.sheet.image.width, sheet.sheet.image.height, sheet.sheet.image.pixels@),
        ),
        16 * sheet.sheet.cols <= sheet.sheet.image.width < 16 * (sheet.sheet.cols + 1),
        16 * sheet.sheet.rows <= sheet.sheet.image.height < 16 * (sheet.sheet.rows + 1),
        sheet.anim_frames >= 1,
        sheet.sheet.frames >= 1 ==> sheet.anim_frames == sheet.sheet.frames,
        sheet.sheet.frames == 0 ==> sheet.anim_frames == 1,
        sheet.sheet.frames == frame_count(
            sheet.sheet.image.pixels@,
            sheet.sheet.image.width as int,
            sheet.sheet.cols as int,
        ),
{
}

/// The names keep the order of the sheets.
pub proof fn sheet_names_keep_the_order(sheets: Seq<NamedSheet>, i: int)
    requires
        0 <= i < sheets.len(),
    ensures
        sheet_names(sheets).len() == sheets.len(),
        sheet_names(sheets)[i] == sheets[i].name@,
{
}

} // verus!
