//! Fog of war: which tiles the player has seen.

use vstd::prelude::*;

verus! {

pub struct FogOfWar {
    pub width: usize,
    pub height: usize,
    /// Row by row, whether the tile has been seen.
    pub revealed: Vec<bool>,
    /// Whether the fog has changed since it was last drawn.
    pub dirty: bool,
}

/// Largest radius that can be uncovered at once: the sum of two of its squares
/// is still an `i32`.
pub const MAX_REVEAL_RADIUS: usize = 32767;

/// The tile lies in the disc around `(cx, cy)`.
pub open spec fn in_disc(cx: int, cy: int, radius: int, x: int, y: int) -> bool {
    (x - cx) * (x - cx) + (y - cy) * (y - cy) <= radius * radius
}

/// Uncovering the disc around `(cx, cy)` leads from one state of the fog to the
/// other: the tiles of the disc are seen besides those seen before, and the fog
/// needs drawing if one of them is new.
pub open spec fn uncovers_disc(
    before: FogOfWar,
    after: FogOfWar,
    cx: int,
    cy: int,
    radius: int,
) -> bool {
    &&& after.wf()
    &&& after.width == before.width
    &&& after.height == before.height
    &&& forall|x: int, y: int| #[trigger]
        after.seen(x, y) == (before.seen(x, y) || (0 <= x < after.width && 0 <= y < after.height
            && in_disc(cx, cy, radius, x, y)))
    &&& after.dirty == (before.dirty || exists|x: int, y: int|
        after.seen(x, y) && !#[trigger] before.seen(x, y))
}

impl FogOfWar {
    /// The table covers the whole map.
    pub open spec fn wf(&self) -> bool {
        self.width * self.height <= usize::MAX && self.revealed.len() == self.width * self.height
    }

    pub open spec fn seen(&self, x: int, y: int) -> bool {
        &&& 0 <= x < self.width
        &&& 0 <= y < self.height
        &&& self.revealed@[super::world_map::tile_slot(self.width as int, x, y)]
    }

    /// Fog over a whole world of the given size, to be drawn first.
    pub fn new_sized(w: usize, h: usize) -> (fog: FogOfWar)
        requires
            w * h <= usize::MAX,
        ensures
            fog.wf(),
            fog.width == w,
            fog.height == h,
            fog.dirty,
            forall|x: int, y: int| !#[trigger] fog.seen(x, y),
    {
        let fog = FogOfWar { width: w, height: h, revealed: vec![false; w * h], dirty: true };
        proof {
            assert forall|x: int, y: int| !#[trigger] fog.seen(x, y) by {
                if 0 <= x < w && 0 <= y < h {
                    super::world_map::lemma_tile_slot(w as int, h as int, x, y);
                }
            }
        }
        fog
    }

    fn slot(&self, x: usize, y: usize) -> (slot: usize)
        requires
            self.wf(),
            x < self.width,
            y < self.height,
        ensures
            slot == super::world_map::tile_slot(self.width as int, x as int, y as int),
            slot < self.revealed.len(),
    {
        proof {
            super::world_map::lemma_tile_slot(
                self.width as int,
                self.height as int,
                x as int,
                y as int,
            );
        }
        y * self.width + x
    }

    /// Whether the tile has been seen. Nothing beyond the map has.
    pub fn is_revealed(&self, x: usize, y: usize) -> (seen: bool)
        requires
            self.wf(),
        ensures
            seen == self.seen(x as int, y as int),
    {
        if x < self.width && y < self.height {
            let slot: usize = self.slot(x, y);
            self.revealed[slot]
        } else {
            false
        }
    }

    /// Uncovers a tile of the map; the fog needs drawing if it was covered.
    fn uncover(&mut self, x: usize, y: usize)
        requires
            old(self).wf(),
            x < old(self).width,
            y < old(self).height,
        ensures
            final(self).wf(),
            final(self).width == old(self).width,
            final(self).height == old(self).height,
            forall|a: int, b: int| #[trigger]
                final(self).seen(a, b) == (old(self).seen(a, b) || (a == x && b == y)),
            final(self).dirty == (old(self).dirty || !old(self).seen(x as int, y as int)),
    {
        let slot: usize = self.slot(x, y);
        if !self.revealed[slot] {
            let ghost before = *self;
            self.revealed.set(slot, true);
            self.dirty = true;
            proof {
                assert forall|a: int, b: int| #[trigger]
                    self.seen(a, b) == (before.seen(a, b) || (a == x && b == y)) by {
                    if 0 <= a < self.width && 0 <= b < self.height {
                        super::world_map::lemma_tile_slot(
                            self.width as int,
                            self.height as int,
                            a,
                            b,
                        );
                        if super::world_map::tile_slot(self.width as int, a, b) == slot {
                            super::world_map::lemma_slot_injective(
                                self.width as int,
                                a,
                                b,
                                x as int,
                                y as int,
                            );
                        }
                    }
                }
            }
        }
    }

    /// Uncovers the disc of tiles around a place.
    pub fn reveal_around(&mut self, cx: usize, cy: usize, radius: usize)
        requires
            old(self).wf(),
            radius <= MAX_REVEAL_RADIUS,
            cx + radius <= i32::MAX,
            cy + radius <= i32::MAX,
        ensures
            uncovers_disc(*old(self), *final(self), cx as int, cy as int, radius as int),
    {
        let r: i64 = radius as i64;
        let mut dy: i64 = -r;
        let ghost before = *self;
        proof {
            lemma_far_is_outside(cx as int, cy as int, radius as int);
        }
        while dy <= r
            invariant
                self.wf(),
                self.width == before.width,
                self.height == before.height,
                r == radius <= MAX_REVEAL_RADIUS,
                cx + radius <= i32::MAX,
                cy + radius <= i32::MAX,
                -r <= dy <= r + 1,
                forall|x: int, y: int| #[trigger]
                    self.seen(x, y) == (before.seen(x, y) || (0 <= x < self.width && 0 <= y
                        < self.height && y < cy + dy && in_disc(
                        cx as int,
                        cy as int,
                        radius as int,
                        x,
                        y,
                    ))),
                self.dirty == (before.dirty || exists|x: int, y: int|
                    self.seen(x, y) && !#[trigger] before.seen(x, y)),
            decreases r + 1 - dy,
        {
            let mut dx: i64 = -r;
            proof {
                lemma_far_is_outside(cx as int, cy as int, radius as int);
            }
            while dx <= r
                invariant
                    self.wf(),
                    self.width == before.width,
                    self.height == before.height,
                    r == radius <= MAX_REVEAL_RADIUS,
                    cx + radius <= i32::MAX,
                    cy + radius <= i32::MAX,
                    -r <= dy <= r,
                    -r <= dx <= r + 1,
                    forall|x: int, y: int| #[trigger]
                        self.seen(x, y) == (before.seen(x, y) || (0 <= x < self.width && 0 <= y
                            < self.height && (y < cy + dy || (y == cy + dy && x < cx + dx))
                            && in_disc(cx as int, cy as int, radius as int, x, y))),
                    self.dirty == (before.dirty || exists|x: int, y: int|
                        self.seen(x, y) && !#[trigger] before.seen(x, y)),
                decreases r + 1 - dx,
            {
                proof {
                    lemma_square_bound(dx as int, r as int);
                    lemma_square_bound(dy as int, r as int);
                    lemma_square_bound(r as int, r as int);
                    lemma_far_is_outside(cx as int, cy as int, radius as int);
                }
                let ghost mid = *self;
                if dx * dx + dy * dy <= r * r {
                    let x: i64 = cx as i64 + dx;
                    let y: i64 = cy as i64 + dy;
                    if x >= 0 && (x as u64) < self.width as u64 && y >= 0 && (y as u64)
                        < self.height as u64 {
                        self.uncover(x as usize, y as usize);
                        proof {
                            if !mid.seen(x as int, y as int) {
                                assert(!before.seen(x as int, y as int));
                                assert(self.seen(x as int, y as int));
                            }
                            assert forall|a: int, b: int|
                                mid.seen(a, b) && !#[trigger] before.seen(a, b) implies self.seen(
                                a,
                                b,
                            ) by {}
                        }
                    }
                }
                dx = dx + 1;
            }
            proof {
                lemma_far_is_outside(cx as int, cy as int, radius as int);
            }
            dy = dy + 1;
        }
        proof {
            lemma_far_is_outside(cx as int, cy as int, radius as int);
        }
    }

    /// Whether the mask has to be drawn again; asking settles it.
    pub fn take_dirty(&mut self) -> (dirty: bool)
        ensures
            dirty == old(self).dirty,
            *final(self) == (FogOfWar { dirty: false, ..*old(self) }),
    {
        let dirty: bool = self.dirty;
        self.dirty = false;
        dirty
    }

    /// Covers the whole map again, as on entering another world.
    pub fn cover_all(&mut self)
        requires
            old(self).wf(),
        ensures
            final(self).wf(),
            final(self).width == old(self).width,
            final(self).height == old(self).height,
            final(self).dirty,
            forall|x: int, y: int| !#[trigger] final(self).seen(x, y),
    {
        let fresh = FogOfWar::new_sized(self.width, self.height);
        self.revealed = fresh.revealed;
        self.dirty = true;
        assert forall|x: int, y: int| !#[trigger] self.seen(x, y) by {
            assert(!fresh.seen(x, y));
        }
    }

    /// Uncovers every tile that the server reports as seen, row by row.
    pub fn merge_server(&mut self, server: &Vec<bool>)
        requires
            old(self).wf(),
            server.len() == old(self).revealed.len(),
        ensures
            final(self).wf(),
            final(self).width == old(self).width,
            final(self).height == old(self).height,
            forall|i: int|
                0 <= i < server.len() ==> #[trigger] final(self).revealed@[i] == (
                old(self).revealed@[i] || server@[i]),
            final(self).dirty == (old(self).dirty || exists|i: int|
                0 <= i < server.len() && #[trigger] server@[i] && !old(self).revealed@[i]),
    {
        let ghost before = *self;
        let mut i: usize = 0;
        while i < server.len()
            invariant
                i <= server.len(),
                server.len() == before.revealed.len(),
                self.revealed.len() == before.revealed.len(),
                self.width == before.width,
                self.height == before.height,
                forall|j: int|
                    0 <= j < server.len() ==> #[trigger] self.revealed@[j] == (before.revealed@[j]
                        || (j < i && server@[j])),
                self.dirty == (before.dirty || exists|j: int|
                    0 <= j < i && #[trigger] server@[j] && !before.revealed@[j]),
            decreases server.len() - i,
        {
            if server[i] && !self.revealed[i] {
                self.revealed.set(i, true);
                self.dirty = true;
            }
            i = i + 1;
        }
    }

    /// Mask with one byte per tile: 255 where it shows, 0 where it is fogged.
    pub fn create_fog_mask(&self, fog_disabled: bool) -> (mask: Vec<u8>)
        requires
            self.wf(),
        ensures
            mask.len() == self.revealed.len(),
            forall|i: int|
                0 <= i < mask.len() ==> #[trigger] mask@[i] == (if fog_disabled
                    || self.revealed@[i] {
                    255u8
                } else {
                    0u8
                }),
    {
        let mut mask: Vec<u8> = Vec::new();
        let mut i: usize = 0;
        while i < self.revealed.len()
            invariant
                i <= self.revealed.len(),
                mask.len() == i,
                forall|j: int|
                    0 <= j < i ==> #[trigger] mask@[j] == (if fog_disabled || self.revealed@[j] {
                        255u8
                    } else {
                        0u8
                    }),
            decreases self.revealed.len() - i,
        {
            let shows = fog_disabled || self.revealed[i];
            mask.push(
                if shows {
                    255
                } else {
                    0
                },
            );
            i = i + 1;
        }
        mask
    }
}

proof fn lemma_square_bound(d: int, r: int)
    by (nonlinear_arith)
    requires
        -r <= d <= r <= 32767,
        0 <= r,
    ensures
        0 <= d * d <= r * r,
        r * r <= 32767 * 32767,
{
}

/// The disc ends a radius away from its center along each axis.
proof fn lemma_far_is_outside(cx: int, cy: int, radius: int)
    requires
        0 <= radius,
    ensures
        forall|x: int, y: int|
            #![trigger in_disc(cx, cy, radius, x, y)]
            (x - cx > radius || cx - x > radius || y - cy > radius || cy - y > radius) ==> !in_disc(
                cx,
                cy,
                radius,
                x,
                y,
            ),
{
    assert forall|x: int, y: int|
        #![trigger in_disc(cx, cy, radius, x, y)]
        (x - cx > radius || cx - x > radius || y - cy > radius || cy - y > radius) implies !in_disc(
        cx,
        cy,
        radius,
        x,
        y,
    ) by {
        let a = x - cx;
        let b = y - cy;
        assert(a * a + b * b > radius * radius) by (nonlinear_arith)
            requires
                a > radius || -a > radius || b > radius || -b > radius,
                0 <= radius,
        ;
    }
}

/// Uncovering a disc hides nothing, and uncovering it again changes nothing.
pub proof fn uncovering_again_changes_nothing(
    before: FogOfWar,
    once: FogOfWar,
    twice: FogOfWar,
    cx: int,
    cy: int,
    radius: int,
)
    requires
        uncovers_disc(before, once, cx, cy, radius),
        uncovers_disc(once, twice, cx, cy, radius),
    ensures
        forall|x: int, y: int| #[trigger] before.seen(x, y) ==> once.seen(x, y),
        twice.width == once.width,
        twice.height == once.height,
        twice.revealed@ == once.revealed@,
        twice.dirty == once.dirty,
{
    assert forall|x: int, y: int| #[trigger] before.seen(x, y) implies once.seen(x, y) by {}
    assert forall|x: int, y: int| #[trigger] twice.seen(x, y) == once.seen(x, y) by {}
    assert(twice.dirty == once.dirty);
    assert forall|slot: int| 0 <= slot < once.revealed@.len() implies #[trigger]
        twice.revealed@[slot] == once.revealed@[slot] by {
        let w = once.width as int;
        super::world_map::lemma_slot_onto_nonempty(w, once.height as int, slot);
        assert(twice.seen(slot % w, slot / w) == once.seen(slot % w, slot / w));
    }
    assert(twice.revealed@ =~= once.revealed@);
}

/// A tile is seen exactly where it lies on the map and its entry, row by row,
/// says so.
pub proof fn seen_is_an_entry_of_the_table(fog: FogOfWar, x: int, y: int)
    ensures
        fog.seen(x, y) <==> 0 <= x && x < fog.width && 0 <= y && y < fog.height
            && fog.revealed@[y * fog.width + x],
{
}

/// Uncovering around a place shows exactly the tiles that are no farther from
/// it than the radius, straight as the crow flies: the place itself, the tiles
/// a radius to each side, and none beyond. Everything else stays as it was.
pub proof fn a_disc_is_uncovered(
    before: FogOfWar,
    after: FogOfWar,
    cx: int,
    cy: int,
    radius: int,
    x: int,
    y: int,
)
    requires
        uncovers_disc(before, after, cx, cy, radius),
        0 <= radius,
        0 <= x < before.width,
        0 <= y < before.height,
    ensures
        after.seen(x, y) <==> before.seen(x, y) || (x - cx) * (x - cx) + (y - cy) * (y - cy)
            <= radius * radius,
        x == cx && y == cy ==> after.seen(x, y),
        y == cy && -radius <= x - cx <= radius ==> after.seen(x, y),
        x == cx && -radius <= y - cy <= radius ==> after.seen(x, y),
        (x - cx > radius || cx - x > radius || y - cy > radius || cy - y > radius) ==> (after.seen(
            x,
            y,
        ) <==> before.seen(x, y)),
        after.width == before.width && after.height == before.height,
        before.dirty ==> after.dirty,
        after.seen(x, y) && !before.seen(x, y) ==> after.dirty,
{
    lemma_far_is_outside(cx, cy, radius);
    assert(after.seen(x, y) == (before.seen(x, y) || in_disc(cx, cy, radius, x, y)));
    let dx = x - cx;
    let dy = y - cy;
    if -radius <= dx <= radius {
        assert(dx * dx <= radius * radius) by (nonlinear_arith)
            requires
                -radius <= dx <= radius,
        ;
    }
    if -radius <= dy <= radius {
        assert(dy * dy <= radius * radius) by (nonlinear_arith)
            requires
                -radius <= dy <= radius,
        ;
    }
    assert(0 <= radius * radius) by (nonlinear_arith);
    if dx == 0 {
        assert(dx * dx == 0) by (nonlinear_arith)
            requires
                dx == 0,
        ;
    }
    if dy == 0 {
        assert(dy * dy == 0) by (nonlinear_arith)
            requires
                dy == 0,
        ;
    }
    assert(in_disc(cx, cy, radius, x, y) == (dx * dx + dy * dy <= radius * radius));
}

/// A larger radius uncovers no less.
pub proof fn larger_discs_uncover_more(cx: int, cy: int, less: int, more: int, x: int, y: int)
    requires
        0 <= less <= more,
        in_disc(cx, cy, less, x, y),
    ensures
        in_disc(cx, cy, more, x, y),
{
    assert(less * less <= more * more) by (nonlinear_arith)
        requires
            0 <= less <= more,
    ;
}

} // verus!
