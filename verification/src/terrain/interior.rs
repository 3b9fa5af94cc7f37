//! Interior spaces (caves, castles): their grid, routes inside them, and what
//! the client does when the player enters or leaves one.

use vstd::prelude::*;
use vstd::string::StringExecFns;

use super::path::reversed;
use crate::text::{append_decimal, contains_text, is_text, same_text};

verus! {

#[derive(Debug, Clone, Copy, PartialEq, Eq, Hash, Structural)]
pub enum InteriorTile {
    Wall,
    Floor,
}

/// Where a portal leads.
#[derive(Debug, Clone)]
pub enum PortalDest {
    Overworld { x: usize, y: usize },
    Interior { id: String, x: usize, y: usize },
    OverworldReturn,
}

#[derive(Debug, Clone)]
pub struct Portal {
    pub x: usize,
    pub y: usize,
    pub destination: PortalDest,
    pub label: String,
    /// Event that must be completed before the portal can be used.
    pub unlock_event_id: Option<String>,
}

#[derive(Debug, Clone, Copy)]
pub struct InteriorChest {
    pub x: usize,
    pub y: usize,
}

#[derive(Debug, Clone, Copy)]
pub struct InteriorMonster {
    pub x: usize,
    pub y: usize,
}

/// One interior, as the server describes it.
#[derive(Debug, Clone)]
pub struct InteriorMap {
    pub id: String,
    pub name: String,
    pub width: usize,
    pub height: usize,
    /// Row by row.
    pub tiles: Vec<InteriorTile>,
    pub portals: Vec<Portal>,
    pub chests: Vec<InteriorChest>,
    pub monsters: Vec<InteriorMonster>,
    pub floor_cost_m: u32,
}

impl InteriorMap {
    /// The tiles fill the grid.
    pub open spec fn wf(&self) -> bool {
        self.width * self.height <= usize::MAX && self.tiles.len() == self.width * self.height
    }

    pub open spec fn contains(&self, tile: (usize, usize)) -> bool {
        tile.0 < self.width && tile.1 < self.height
    }

    pub open spec fn slot_of(&self, tile: (usize, usize)) -> int {
        super::world_map::tile_slot(self.width as int, tile.0 as int, tile.1 as int)
    }

    pub open spec fn walkable(&self, tile: (usize, usize)) -> bool {
        self.contains(tile) && self.tiles@[self.slot_of(tile)] == InteriorTile::Floor
    }

    /// Whether the tiles fill the grid.
    pub fn is_well_formed(&self) -> (ok: bool)
        ensures
            ok == self.wf(),
    {
        match self.width.checked_mul(self.height) {
            Some(area) => self.tiles.len() == area,
            None => false,
        }
    }

    fn slot(&self, x: usize, y: usize) -> (slot: usize)
        requires
            self.wf(),
            self.contains((x, y)),
        ensures
            slot == self.slot_of((x, y)),
            slot < self.tiles.len(),
    {
        proof {
            super::world_map::lemma_tile_slot(
                self.width as int,
                self.height as int,
                x as int,
                y as int,
            );
        }
        y * self.width + x
    }

    /// The tile at a place of the grid.
    pub fn tile_at(&self, x: usize, y: usize) -> (tile: Option<InteriorTile>)
        requires
            self.wf(),
        ensures
            tile == (if self.contains((x, y)) {
                Some(self.tiles@[self.slot_of((x, y))])
            } else {
                None
            }),
    {
        if x < self.width && y < self.height {
            let slot: usize = self.slot(x, y);
            Some(self.tiles[slot])
        } else {
            None
        }
    }

    pub fn is_walkable(&self, x: usize, y: usize) -> (walkable: bool)
        requires
            self.wf(),
        ensures
            walkable == self.walkable((x, y)),
    {
        match self.tile_at(x, y) {
            Some(InteriorTile::Floor) => true,
            _ => false,
        }
    }

    /// Index of the first portal on a tile.
    pub fn portal_at(&self, x: usize, y: usize) -> (portal: Option<usize>)
        ensures
            match portal {
                Some(i) => {
                    &&& i < self.portals.len()
                    &&& self.portals@[i as int].x == x && self.portals@[i as int].y == y
                    &&& forall|j: int|
                        0 <= j < i ==> !((#[trigger] self.portals@[j]).x == x && self.portals@[j].y
                            == y)
                },
                None => forall|j: int|
                    0 <= j < self.portals.len() ==> !((#[trigger] self.portals@[j]).x == x
                        && self.portals@[j].y == y),
            },
    {
        let mut i: usize = 0;
        while i < self.portals.len()
            invariant
                i <= self.portals.len(),
                forall|j: int|
                    0 <= j < i ==> !((#[trigger] self.portals@[j]).x == x && self.portals@[j].y
                        == y),
            decreases self.portals.len() - i,
        {
            if self.portals[i].x == x && self.portals[i].y == y {
                return Some(i);
            }
            i = i + 1;
        }
        None
    }
}

/// The floor of an interior.
pub open spec fn floor_of(map: InteriorMap) -> spec_fn((usize, usize)) -> bool {
    |tile: (usize, usize)| map.walkable(tile)
}

/// A walk over the interior's floor from one tile to another.
pub open spec fn is_floor_walk(
    map: InteriorMap,
    start: (usize, usize),
    goal: (usize, usize),
    path: Seq<(usize, usize)>,
) -> bool {
    super::search::is_walk_between(path, floor_of(map), start, goal)
}

spec fn one_each() -> spec_fn((usize, usize)) -> nat {
    |tile: (usize, usize)| 1nat
}

proof fn lemma_steps(path: Seq<(usize, usize)>)
    requires
        path.len() > 0,
    ensures
        super::search::walk_cost(path, one_each()) == path.len() - 1,
    decreases path.len(),
{
    if path.len() > 1 {
        lemma_steps(path.drop_last());
    }
}

proof fn lemma_slots(map: InteriorMap, a: (usize, usize), b: (usize, usize))
    requires
        map.wf(),
        map.contains(a),
        map.contains(b),
    ensures
        0 <= map.slot_of(a) < map.tiles.len(),
        0 <= map.slot_of(b) < map.tiles.len(),
        a != b ==> map.slot_of(a) != map.slot_of(b),
{
    super::world_map::lemma_tile_slot(
        map.width as int,
        map.height as int,
        a.0 as int,
        a.1 as int,
    );
    super::world_map::lemma_tile_slot(
        map.width as int,
        map.height as int,
        b.0 as int,
        b.1 as int,
    );
    if map.slot_of(a) == map.slot_of(b) {
        super::world_map::lemma_slot_injective(
            map.width as int,
            a.0 as int,
            a.1 as int,
            b.0 as int,
            b.1 as int,
        );
    }
}

/// The tile has been seen, and how many steps away it was found.
spec fn found_at(
    map: InteriorMap,
    visited: Seq<bool>,
    depth: Seq<nat>,
) -> spec_fn((usize, usize)) -> Option<nat> {
    |tile: (usize, usize)|
        if map.contains(tile) && visited[map.slot_of(tile)] {
            Some(depth[map.slot_of(tile)])
        } else {
            None
        }
}

/// Tiles of the queue from `head` on.
spec fn in_line(queue: Seq<(usize, usize)>, head: int) -> spec_fn((usize, usize)) -> bool {
    |tile: (usize, usize)| exists|i: int| head <= i < queue.len() && #[trigger] queue[i] == tile
}

/// Every seen tile but the start was found from a neighbour one step nearer.
#[verifier::opaque]
spec fn linked(
    map: InteriorMap,
    start: (usize, usize),
    visited: Seq<bool>,
    depth: Seq<nat>,
    came_from: Seq<Option<(usize, usize)>>,
) -> bool {
    &&& visited.len() == map.tiles.len()
    &&& depth.len() == map.tiles.len()
    &&& came_from.len() == map.tiles.len()
    &&& map.contains(start)
    &&& visited[map.slot_of(start)]
    &&& depth[map.slot_of(start)] == 0
    &&& forall|t: (usize, usize)| #[trigger]
        map.contains(t) && t != start && visited[map.slot_of(t)] ==> {
            &&& map.walkable(t)
            &&& came_from[map.slot_of(t)] matches Some(p) && {
                &&& map.contains(p)
                &&& visited[map.slot_of(p)]
                &&& super::search::adjacent(p, t)
                &&& depth[map.slot_of(p)] + 1 == depth[map.slot_of(t)]
            }
        }
}

/// The queue holds seen tiles in the order of their distance, and those from
/// `head` on lie within a step of each other.
spec fn line_sound(
    map: InteriorMap,
    visited: Seq<bool>,
    depth: Seq<nat>,
    queue: Seq<(usize, usize)>,
    head: int,
) -> bool {
    &&& 0 <= head <= queue.len()
    &&& forall|i: int|
        0 <= i < queue.len() ==> map.contains(#[trigger] queue[i]) && visited[map.slot_of(queue[i])]
    &&& forall|i: int, j: int|
        0 <= i <= j < queue.len() ==> depth[map.slot_of(#[trigger] queue[i])] <= depth[map.slot_of(
            #[trigger] queue[j],
        )]
}

/// The tile's floor neighbours have all been seen, within a step of it.
spec fn neighbours_seen(
    map: InteriorMap,
    visited: Seq<bool>,
    depth: Seq<nat>,
    tile: (usize, usize),
) -> bool {
    forall|v: (usize, usize)|
        #![trigger super::search::adjacent(tile, v)]
        super::search::adjacent(tile, v) && map.walkable(v) ==> visited[map.slot_of(v)]
            && depth[map.slot_of(v)] <= depth[map.slot_of(tile)] + 1
}

#[verifier::opaque]
spec fn sweep_inv(
    map: InteriorMap,
    start: (usize, usize),
    visited: Seq<bool>,
    depth: Seq<nat>,
    came_from: Seq<Option<(usize, usize)>>,
    queue: Seq<(usize, usize)>,
    head: int,
) -> bool {
    &&& linked(map, start, visited, depth, came_from)
    &&& line_sound(map, visited, depth, queue, head)
    &&& forall|t: (usize, usize)| #[trigger]
        map.contains(t) && visited[map.slot_of(t)] ==> exists|i: int|
            0 <= i < queue.len() && #[trigger] queue[i] == t
    &&& forall|i: int|
        0 <= i < head ==> neighbours_seen(map, visited, depth, #[trigger] queue[i])
}

/// Number of tiles not seen yet.
spec fn unseen(visited: Seq<bool>) -> nat
    decreases visited.len(),
{
    if visited.len() == 0 {
        0
    } else {
        unseen(visited.drop_last()) + (if visited.last() {
            0nat
        } else {
            1nat
        })
    }
}

proof fn lemma_unseen_update(visited: Seq<bool>, i: int)
    requires
        0 <= i < visited.len(),
        !visited[i],
    ensures
        unseen(visited.update(i, true)) + 1 == unseen(visited),
    decreases visited.len(),
{
    let changed = visited.update(i, true);
    if i == visited.len() - 1 {
        assert(changed.drop_last() =~= visited.drop_last());
    } else {
        assert(changed.drop_last() =~= visited.drop_last().update(i, true));
        lemma_unseen_update(visited.drop_last(), i);
    }
}

proof fn lemma_relaxed(
    map: InteriorMap,
    start: (usize, usize),
    visited: Seq<bool>,
    depth: Seq<nat>,
    came_from: Seq<Option<(usize, usize)>>,
    queue: Seq<(usize, usize)>,
    head: int,
    bound: nat,
)
    requires
        map.wf(),
        sweep_inv(map, start, visited, depth, came_from, queue, head),
    ensures
        super::search::relaxed(
            floor_of(map),
            one_each(),
            found_at(map, visited, depth),
            in_line(queue, head),
            bound,
        ),
{
    reveal(sweep_inv);
    reveal(linked);
    let d = found_at(map, visited, depth);
    let waiting = in_line(queue, head);
    assert forall|u: (usize, usize), v: (usize, usize)|
        #![trigger d(u), super::search::adjacent(u, v)]
        d(u) is Some && !waiting(u) && super::search::adjacent(u, v) && floor_of(map)(v) && d(u)->0
            + one_each()(v) < bound implies d(v) is Some && d(v)->0 <= d(u)->0 + one_each()(v) by {
        let i = choose|i: int| 0 <= i < queue.len() && #[trigger] queue[i] == u;
        assert(queue[i] == u);
        assert(i < head);
        assert(neighbours_seen(map, visited, depth, queue[i]));
    }
}

/// What is known of a tile in the queue.
proof fn lemma_queued(
    map: InteriorMap,
    start: (usize, usize),
    visited: Seq<bool>,
    depth: Seq<nat>,
    came_from: Seq<Option<(usize, usize)>>,
    queue: Seq<(usize, usize)>,
    head: int,
    i: int,
)
    requires
        sweep_inv(map, start, visited, depth, came_from, queue, head),
        0 <= i < queue.len(),
    ensures
        linked(map, start, visited, depth, came_from),
        visited.len() == map.tiles.len(),
        depth.len() == map.tiles.len(),
        came_from.len() == map.tiles.len(),
        map.contains(queue[i]),
        visited[map.slot_of(queue[i])],
        i > 0 ==> depth[map.slot_of(queue[i - 1])] <= depth[map.slot_of(queue[i])],
{
    reveal(sweep_inv);
    reveal(linked);
    if i > 0 {
        assert(queue[i - 1] == queue[i - 1]);
    }
}

/// The tile at the head is done with once its floor neighbours are seen.
proof fn lemma_head_done(
    map: InteriorMap,
    start: (usize, usize),
    visited: Seq<bool>,
    depth: Seq<nat>,
    came_from: Seq<Option<(usize, usize)>>,
    queue: Seq<(usize, usize)>,
    head: int,
)
    requires
        sweep_inv(map, start, visited, depth, came_from, queue, head),
        0 <= head < queue.len(),
        forall|j: int|
            0 <= j < queue.len() ==> depth[map.slot_of(#[trigger] queue[j])] <= depth[map.slot_of(
                queue[head],
            )] + 1,
        forall|v: (usize, usize)|
            #![trigger super::search::adjacent(queue[head], v)]
            super::search::adjacent(queue[head], v) && map.walkable(v)
                ==> visited[map.slot_of(v)],
    ensures
        sweep_inv(map, start, visited, depth, came_from, queue, head + 1),
{
    reveal(sweep_inv);
    reveal(linked);
    assert(neighbours_seen(map, visited, depth, queue[head])) by {
        assert forall|v: (usize, usize)|
            #![trigger super::search::adjacent(queue[head], v)]
            super::search::adjacent(queue[head], v) && map.walkable(v) implies visited[map.slot_of(
            v,
        )] && depth[map.slot_of(v)] <= depth[map.slot_of(queue[head])] + 1 by {
            assert(map.contains(v));
            let j = choose|j: int| 0 <= j < queue.len() && #[trigger] queue[j] == v;
            assert(depth[map.slot_of(queue[j])] <= depth[map.slot_of(queue[head])] + 1);
        }
    }
}

/// No walk reaches the tile at the head of the queue in fewer steps.
proof fn lemma_head_is_nearest(
    map: InteriorMap,
    start: (usize, usize),
    goal: (usize, usize),
    visited: Seq<bool>,
    depth: Seq<nat>,
    came_from: Seq<Option<(usize, usize)>>,
    queue: Seq<(usize, usize)>,
    head: int,
    walk: Seq<(usize, usize)>,
)
    requires
        map.wf(),
        sweep_inv(map, start, visited, depth, came_from, queue, head),
        head < queue.len(),
        queue[head] == goal,
        is_floor_walk(map, start, goal, walk),
    ensures
        depth[map.slot_of(goal)] + 1 <= walk.len(),
{
    reveal(sweep_inv);
    reveal(linked);
    let d = found_at(map, visited, depth);
    let waiting = in_line(queue, head);
    let bound = walk.len() + 1;
    lemma_relaxed(map, start, visited, depth, came_from, queue, head, bound);
    lemma_steps(walk);
    super::search::lemma_frontier(walk, floor_of(map), one_each(), d, waiting, bound);
    if exists|i: int| #[trigger] super::search::waits_on(walk, one_each(), d, waiting, i) {
        let i = choose|i: int| #[trigger]
            super::search::waits_on(walk, one_each(), d, waiting, i);
        let k = choose|k: int| head <= k < queue.len() && #[trigger] queue[k] == walk[i];
        assert(depth[map.slot_of(queue[head])] <= depth[map.slot_of(queue[k])]);
        lemma_steps(walk.take(i + 1));
    }
}

/// Once nothing is left in line, a tile not seen cannot be walked to.
proof fn lemma_unseen_is_cut_off(
    map: InteriorMap,
    start: (usize, usize),
    goal: (usize, usize),
    visited: Seq<bool>,
    depth: Seq<nat>,
    came_from: Seq<Option<(usize, usize)>>,
    queue: Seq<(usize, usize)>,
    walk: Seq<(usize, usize)>,
)
    requires
        map.wf(),
        map.contains(goal),
        sweep_inv(map, start, visited, depth, came_from, queue, queue.len() as int),
        !visited[map.slot_of(goal)],
    ensures
        !is_floor_walk(map, start, goal, walk),
{
    reveal(sweep_inv);
    reveal(linked);
    if is_floor_walk(map, start, goal, walk) {
        let d = found_at(map, visited, depth);
        let waiting = in_line(queue, queue.len() as int);
        let bound = walk.len() + 1;
        lemma_relaxed(
            map,
            start,
            visited,
            depth,
            came_from,
            queue,
            queue.len() as int,
            bound,
        );
        lemma_steps(walk);
        super::search::lemma_frontier(walk, floor_of(map), one_each(), d, waiting, bound);
        assert(forall|i: int| !super::search::waits_on(walk, one_each(), d, waiting, i));
    }
}

/// A tile next to another one on a grid of that size.
pub open spec fn is_neighbor(w: int, h: int, a: (usize, usize), b: (usize, usize)) -> bool {
    super::search::adjacent(a, b) && b.0 < w && b.1 < h
}

/// Of two tiles of a grid, either both are neighbours of each other or none is.
pub proof fn neighbors_are_mutual(w: int, h: int, a: (usize, usize), b: (usize, usize))
    requires
        a.0 < w && a.1 < h,
        b.0 < w && b.1 < h,
    ensures
        is_neighbor(w, h, a, b) <==> is_neighbor(w, h, b, a),
{
    super::search::lemma_adjacent_both_ways(a, b);
}

/// A walk with as few steps as any enters no tile twice, nor comes back to its
/// start.
pub proof fn shortest_walk_visits_no_tile_twice(
    map: InteriorMap,
    start: (usize, usize),
    goal: (usize, usize),
    path: Seq<(usize, usize)>,
)
    requires
        is_floor_walk(map, start, goal, path),
        forall|other: Seq<(usize, usize)>| #[trigger]
            is_floor_walk(map, start, goal, other) ==> path.len() <= other.len(),
    ensures
        path.no_duplicates(),
{
    assert forall|i: int, j: int| 0 <= i < j < path.len() implies path[i] != path[j] by {
        if path[i] == path[j] {
            super::search::lemma_cut_round_trip(path, floor_of(map), one_each(), i, j);
            let cut = path.take(i + 1) + path.skip(j + 1);
            assert(is_floor_walk(map, start, goal, cut));
        }
    }
}

/// The tiles of the grid around a tile: left, right, above, below.
fn neighbors(x: usize, y: usize, w: usize, h: usize) -> (out: Vec<(usize, usize)>)
    requires
        x < w,
        y < h,
    ensures
        forall|i: int|
            0 <= i < out.len() ==> is_neighbor(w as int, h as int, (x, y), #[trigger] out@[i]),
        forall|t: (usize, usize)|
            #![trigger super::search::adjacent((x, y), t)]
            is_neighbor(w as int, h as int, (x, y), t) ==> exists|i: int|
                0 <= i < out.len() && #[trigger] out@[i] == t,
        out@.no_duplicates(),
{
    let mut out: Vec<(usize, usize)> = Vec::new();
    let ghost mut left: int = -1;
    let ghost mut right: int = -1;
    let ghost mut above: int = -1;
    let ghost mut below: int = -1;
    if x > 0 {
        proof {
            left = out.len() as int;
        }
        out.push((x - 1, y));
    }
    if x + 1 < w {
        proof {
            right = out.len() as int;
        }
        out.push((x + 1, y));
    }
    if y > 0 {
        proof {
            above = out.len() as int;
        }
        out.push((x, y - 1));
    }
    if y + 1 < h {
        proof {
            below = out.len() as int;
        }
        out.push((x, y + 1));
    }
    proof {
        assert forall|t: (usize, usize)|
            #![trigger super::search::adjacent((x, y), t)]
            super::search::adjacent((x, y), t) && t.0 < w && t.1 < h implies exists|i: int|
            0 <= i < out.len() && #[trigger] out@[i] == t by {
            if t.0 + 1 == x {
                assert(out@[left] == t);
            } else if t.0 == x + 1 {
                assert(out@[right] == t);
            } else if t.1 + 1 == y {
                assert(out@[above] == t);
            } else {
                assert(out@[below] == t);
            }
        }
    }
    out
}

/// Seeing a new neighbour of the tile at the head of the queue.
proof fn lemma_seen(
    map: InteriorMap,
    start: (usize, usize),
    visited: Seq<bool>,
    depth: Seq<nat>,
    came_from: Seq<Option<(usize, usize)>>,
    queue: Seq<(usize, usize)>,
    head: int,
    next: (usize, usize),
)
    requires
        map.wf(),
        sweep_inv(map, start, visited, depth, came_from, queue, head),
        head < queue.len(),
        forall|j: int|
            0 <= j < queue.len() ==> depth[map.slot_of(#[trigger] queue[j])] <= depth[map.slot_of(
                queue[head],
            )] + 1,
        map.walkable(next),
        !visited[map.slot_of(next)],
        super::search::adjacent(queue[head], next),
    ensures
        ({
            let slot = map.slot_of(next);
            let depth2 = depth.update(slot, depth[map.slot_of(queue[head])] + 1);
            let queue2 = queue.push(next);
            &&& sweep_inv(
                map,
                start,
                visited.update(slot, true),
                depth2,
                came_from.update(slot, Some(queue[head])),
                queue2,
                head,
            )
            &&& forall|j: int|
                0 <= j < queue2.len() ==> depth2[map.slot_of(#[trigger] queue2[j])]
                    <= depth2[map.slot_of(queue[head])] + 1
        }),
{
    reveal(sweep_inv);
    reveal(linked);
    let slot = map.slot_of(next);
    let t = queue[head];
    let visited2 = visited.update(slot, true);
    let depth2 = depth.update(slot, depth[map.slot_of(t)] + 1);
    let came2 = came_from.update(slot, Some(t));
    let queue2 = queue.push(next);
    lemma_slots(map, next, next);
    assert forall|u: (usize, usize)| #[trigger] map.contains(u) implies 0 <= map.slot_of(u)
        < map.tiles.len() && (u != next ==> map.slot_of(u) != slot) by {
        lemma_slots(map, u, next);
    }
    assert forall|i: int| 0 <= i < queue.len() implies #[trigger] queue2[i] == queue[i] && queue[i]
        != next by {}
    assert(queue2[queue.len() as int] == next);
    assert(linked(map, start, visited2, depth2, came2));
    assert forall|i: int, j: int| 0 <= i <= j < queue2.len() implies depth2[map.slot_of(
        #[trigger] queue2[i],
    )] <= depth2[map.slot_of(#[trigger] queue2[j])] by {
        if i < queue.len() {
            assert(depth2[map.slot_of(queue2[i])] == depth[map.slot_of(queue[i])]);
        }
        if j < queue.len() {
            assert(depth2[map.slot_of(queue2[j])] == depth[map.slot_of(queue[j])]);
        }
    }
    assert(line_sound(map, visited2, depth2, queue2, head));
    assert forall|u: (usize, usize)| #[trigger]
        map.contains(u) && visited2[map.slot_of(u)] implies exists|i: int|
        0 <= i < queue2.len() && #[trigger] queue2[i] == u by {
        if u == next {
            assert(queue2[queue.len() as int] == u);
        } else {
            let i = choose|i: int| 0 <= i < queue.len() && #[trigger] queue[i] == u;
            assert(queue2[i] == u);
        }
    }
    assert forall|i: int| 0 <= i < head implies neighbours_seen(
        map,
        visited2,
        depth2,
        #[trigger] queue2[i],
    ) by {
        assert(neighbours_seen(map, visited, depth, queue[i]));
        assert forall|v: (usize, usize)|
            #![trigger super::search::adjacent(queue2[i], v)]
            super::search::adjacent(queue2[i], v) && map.walkable(v) implies visited2[map.slot_of(
            v,
        )] && depth2[map.slot_of(v)] <= depth2[map.slot_of(queue2[i])] + 1 by {
            assert(super::search::adjacent(queue[i], v));
            assert(map.contains(v));
        }
    }
}

/// The tile from which a seen tile was found leads on to it.
proof fn lemma_found_from(
    map: InteriorMap,
    start: (usize, usize),
    visited: Seq<bool>,
    depth: Seq<nat>,
    came_from: Seq<Option<(usize, usize)>>,
    walked: Seq<(usize, usize)>,
    cur: (usize, usize),
    goal: (usize, usize),
)
    requires
        linked(map, start, visited, depth, came_from),
        map.contains(cur),
        visited[map.slot_of(cur)],
        cur != start,
        super::search::is_walk_between(walked, floor_of(map), cur, goal),
    ensures
        came_from[map.slot_of(cur)] matches Some(p) && {
            &&& map.contains(p)
            &&& visited[map.slot_of(p)]
            &&& depth[map.slot_of(p)] + 1 == depth[map.slot_of(cur)]
            &&& super::search::is_walk_between(seq![p] + walked, floor_of(map), p, goal)
        },
{
    reveal(linked);
    let p = came_from[map.slot_of(cur)]->0;
    super::search::lemma_walk_prepend(walked, floor_of(map), one_each(), p);
    assert((seq![p] + walked).last() == walked.last());
}

/// Follows the chain of predecessors from the goal back to the start.
fn walk_back(
    map: &InteriorMap,
    start: (usize, usize),
    goal: (usize, usize),
    Ghost(visited): Ghost<Seq<bool>>,
    Ghost(depth): Ghost<Seq<nat>>,
    came_from: &Vec<Option<(usize, usize)>>,
) -> (path: Vec<(usize, usize)>)
    requires
        map.wf(),
        linked(*map, start, visited, depth, came_from@),
        map.contains(goal),
        visited[map.slot_of(goal)],
    ensures
        is_floor_walk(*map, start, goal, path@),
        path.len() == depth[map.slot_of(goal)] + 1,
{
    let ghost floor = floor_of(*map);
    let mut path: Vec<(usize, usize)> = Vec::new();
    path.push(goal);
    let mut cur = goal;
    assert(path@.reverse() =~= seq![goal]);
    assert(came_from.len() == map.tiles.len() && depth[map.slot_of(start)] == 0) by {
        reveal(linked);
    }
    while cur.0 != start.0 || cur.1 != start.1
        invariant
            map.wf(),
            linked(*map, start, visited, depth, came_from@),
            came_from.len() == map.tiles.len(),
            map.contains(cur),
            visited[map.slot_of(cur)],
            floor == floor_of(*map),
            path.len() + depth[map.slot_of(cur)] == depth[map.slot_of(goal)] + 1,
            super::search::is_walk_between(path@.reverse(), floor, cur, goal),
        decreases depth[map.slot_of(cur)],
    {
        let ghost walked = path@.reverse();
        proof {
            lemma_slots(*map, cur, cur);
            lemma_found_from(*map, start, visited, depth, came_from@, walked, cur, goal);
        }
        let slot: usize = map.slot(cur.0, cur.1);
        match came_from[slot] {
            Some(p) => {
                path.push(p);
                assert(path@.reverse() =~= seq![p] + walked);
                cur = p;
            },
            None => {
                assert(false);
            },
        }
    }
    reversed(&path)
}

/// Puts the unseen floor neighbours of the tile at the head of the queue in
/// line.
fn look_around(
    map: &InteriorMap,
    Ghost(start): Ghost<(usize, usize)>,
    head: usize,
    visited: &mut Vec<bool>,
    Ghost(depth): Ghost<Seq<nat>>,
    came_from: &mut Vec<Option<(usize, usize)>>,
    queue: &mut Vec<(usize, usize)>,
) -> (deeper: Ghost<Seq<nat>>)
    requires
        map.wf(),
        head < old(queue).len(),
        sweep_inv(
            *map,
            start,
            old(visited)@,
            depth,
            old(came_from)@,
            old(queue)@,
            head as int,
        ),
        forall|j: int|
            0 <= j < old(queue).len() ==> depth[map.slot_of(#[trigger] old(queue)@[j])]
                <= depth[map.slot_of(old(queue)@[head as int])] + 1,
    ensures
        sweep_inv(
            *map,
            start,
            final(visited)@,
            deeper@,
            final(came_from)@,
            final(queue)@,
            head + 1,
        ),
        forall|j: int|
            0 <= j < final(queue).len() ==> deeper@[map.slot_of(#[trigger] final(queue)@[j])]
                <= deeper@[map.slot_of(old(queue)@[head as int])] + 1,
        old(queue).len() <= final(queue).len(),
        forall|j: int|
            0 <= j < old(queue).len() ==> #[trigger] final(queue)@[j] == old(queue)@[j],
        unseen(final(visited)@) + final(queue).len() == unseen(old(visited)@) + old(queue).len(),
{
    let tile = queue[head];
    let ghost queue_before = queue@;
    let ghost left_before = unseen(visited@) + queue.len();
    let ghost mut depth = depth;
    proof {
        lemma_queued(*map, start, visited@, depth, came_from@, queue@, head as int, head as int);
    }
    let around = neighbors(tile.0, tile.1, map.width, map.height);
    proof {
        assert forall|j: int| 0 <= j < around.len() implies 0 <= map.slot_of(
            #[trigger] around@[j],
        ) < map.tiles.len() by {
            lemma_slots(*map, around@[j], tile);
        }
    }
    let mut k: usize = 0;
    while k < around.len()
        invariant
            map.wf(),
            map.contains(tile),
            k <= around.len(),
            head < queue_before.len() <= queue.len(),
            queue_before[head as int] == tile,
            forall|j: int| 0 <= j < queue_before.len() ==> #[trigger] queue@[j] == queue_before[j],
            sweep_inv(*map, start, visited@, depth, came_from@, queue@, head as int),
            forall|j: int|
                0 <= j < queue.len() ==> depth[map.slot_of(#[trigger] queue@[j])]
                    <= depth[map.slot_of(tile)] + 1,
            forall|j: int|
                0 <= j < around.len() ==> super::search::adjacent(tile, #[trigger] around@[j])
                    && map.contains(around@[j]) && 0 <= map.slot_of(around@[j]) < map.tiles.len(),
            visited.len() == map.tiles.len(),
            came_from.len() == map.tiles.len(),
            forall|t: (usize, usize)|
                #![trigger super::search::adjacent(tile, t)]
                super::search::adjacent(tile, t) && map.contains(t) ==> exists|i: int|
                    0 <= i < around.len() && #[trigger] around@[i] == t,
            forall|j: int|
                0 <= j < k && map.walkable(#[trigger] around@[j]) ==> visited@[map.slot_of(
                    around@[j],
                )],
            unseen(visited@) + queue.len() == left_before,
        decreases around.len() - k,
    {
        let next = around[k];
        assert(queue@[head as int] == tile);
        proof {
            lemma_slots(*map, next, tile);
        }
        if map.is_walkable(next.0, next.1) {
            let slot: usize = map.slot(next.0, next.1);
            if !visited[slot] {
                proof {
                    lemma_seen(
                        *map,
                        start,
                        visited@,
                        depth,
                        came_from@,
                        queue@,
                        head as int,
                        next,
                    );
                    lemma_unseen_update(visited@, slot as int);
                    depth = depth.update(slot as int, depth[map.slot_of(tile)] + 1);
                }
                visited.set(slot, true);
                came_from.set(slot, Some(tile));
                queue.push(next);
            }
        }
        k = k + 1;
    }
    proof {
        assert(queue@[head as int] == tile);
        assert forall|v: (usize, usize)|
            #![trigger super::search::adjacent(tile, v)]
            super::search::adjacent(tile, v) && map.walkable(v) implies visited@[map.slot_of(v)] by {
            let i = choose|i: int| 0 <= i < around.len() && #[trigger] around@[i] == v;
            assert(visited@[map.slot_of(around@[i])]);
        }
        lemma_head_done(*map, start, visited@, depth, came_from@, queue@, head as int);
    }
    Ghost(depth)
}

/// 4-neighbor BFS on the interior grid. Returns the full path including
/// start and end, with as few steps as any; `None` if unreachable.
pub fn bfs_path(
    map: &InteriorMap,
    start: (usize, usize),
    goal: (usize, usize),
) -> (path: Option<Vec<(usize, usize)>>)
    requires
        map.wf(),
        start != goal && map.walkable(goal) ==> map.contains(start),
    ensures
        match path {
            Some(p) => {
                &&& is_floor_walk(*map, start, goal, p@)
                &&& forall|other: Seq<(usize, usize)>| #[trigger]
                    is_floor_walk(*map, start, goal, other) ==> p@.len() <= other.len()
            },
            None => forall|other: Seq<(usize, usize)>| !#[trigger] is_floor_walk(
                *map,
                start,
                goal,
                other,
            ),
        },
{
    if start.0 == goal.0 && start.1 == goal.1 {
        let mut path: Vec<(usize, usize)> = Vec::new();
        path.push(start);
        return Some(path);
    }
    if !map.is_walkable(goal.0, goal.1) {
        assert forall|other: Seq<(usize, usize)>| !#[trigger] is_floor_walk(
            *map,
            start,
            goal,
            other,
        ) by {
            if is_floor_walk(*map, start, goal, other) {
                assert(other[other.len() - 1] == goal);
            }
        }
        return None;
    }
    let area: usize = map.tiles.len();
    let mut came_from: Vec<Option<(usize, usize)>> = Vec::new();
    let mut visited: Vec<bool> = Vec::new();
    let mut i: usize = 0;
    while i < area
        invariant
            i <= area,
            came_from.len() == i,
            visited.len() == i,
            forall|j: int| 0 <= j < i ==> !#[trigger] visited@[j],
        decreases area - i,
    {
        came_from.push(None);
        visited.push(false);
        i = i + 1;
    }
    let ghost mut depth: Seq<nat> = Seq::new(area as nat, |i: int| 0nat);
    let mut queue: Vec<(usize, usize)> = Vec::new();
    queue.push(start);
    proof {
        lemma_slots(*map, start, goal);
    }
    let start_slot: usize = map.slot(start.0, start.1);
    visited.set(start_slot, true);
    let mut head: usize = 0;
    proof {
        assert forall|t: (usize, usize)| #[trigger]
            map.contains(t) && t != start implies !visited@[map.slot_of(t)] by {
            lemma_slots(*map, t, start);
        }
        assert(queue@[0] == start);
        reveal(sweep_inv);
        reveal(linked);
        assert(sweep_inv(*map, start, visited@, depth, came_from@, queue@, 0));
    }
    while head < queue.len()
        invariant
            map.wf(),
            map.contains(goal),
            head <= queue.len(),
            sweep_inv(*map, start, visited@, depth, came_from@, queue@, head as int),
            head < queue.len() ==> forall|j: int|
                0 <= j < queue.len() ==> depth[map.slot_of(#[trigger] queue@[j])]
                    <= depth[map.slot_of(queue@[head as int])] + 1,
            forall|j: int| 0 <= j < head ==> #[trigger] queue@[j] != goal,
        decreases unseen(visited@) + queue.len() - head,
    {
        proof {
            lemma_queued(
                *map,
                start,
                visited@,
                depth,
                came_from@,
                queue@,
                head as int,
                head as int,
            );
        }
        let (x, y) = queue[head];
        if x == goal.0 && y == goal.1 {
            let path = walk_back(map, start, goal, Ghost(visited@), Ghost(depth), &came_from);
            proof {
                assert forall|other: Seq<(usize, usize)>| #[trigger]
                    is_floor_walk(*map, start, goal, other) implies path@.len() <= other.len() by {
                    lemma_head_is_nearest(
                        *map,
                        start,
                        goal,
                        visited@,
                        depth,
                        came_from@,
                        queue@,
                        head as int,
                        other,
                    );
                }
            }
            return Some(path);
        }
        let ghost queue_before = queue@;
        let Ghost(deeper) = look_around(
            map,
            Ghost(start),
            head,
            &mut visited,
            Ghost(depth),
            &mut came_from,
            &mut queue,
        );
        proof {
            depth = deeper;
            assert forall|j: int| 0 <= j < head + 1 implies #[trigger] queue@[j] != goal by {
                assert(queue@[j] == queue_before[j]);
            }
            assert(queue@[head as int] == queue_before[head as int]);
            if head + 1 < queue.len() {
                lemma_queued(
                    *map,
                    start,
                    visited@,
                    depth,
                    came_from@,
                    queue@,
                    head + 1,
                    head + 1,
                );
            }
        }
        head = head + 1;
    }
    proof {
        assert(!visited@[map.slot_of(goal)]) by {
            reveal(sweep_inv);
            reveal(linked);
            assert(map.contains(goal));
        }
        assert forall|other: Seq<(usize, usize)>| !#[trigger] is_floor_walk(
            *map,
            start,
            goal,
            other,
        ) by {
            lemma_unseen_is_cut_off(
                *map,
                start,
                goal,
                visited@,
                depth,
                came_from@,
                queue@,
                other,
            );
        }
    }
    None
}

/// The interior on screen, and the one that was asked for.
pub struct CurrentInterior {
    /// Interior currently being rendered, on whose grid routes are planned.
    pub map: Option<InteriorMap>,
    /// Last interior id that a fetch was started for. Prevents duplicate
    /// fetches if the location flips twice in rapid succession.
    pub fetching_id: Option<String>,
}

/// The ids that decide what the client does next.
pub struct InteriorIds {
    /// Interior on screen.
    pub shown: Option<Seq<char>>,
    /// Interior being fetched.
    pub fetching: Option<Seq<char>>,
}

impl View for CurrentInterior {
    type V = InteriorIds;

    open spec fn view(&self) -> InteriorIds {
        InteriorIds {
            shown: match self.map {
                Some(map) => Some(map.id@),
                None => None,
            },
            fetching: crate::text::option_text(self.fetching_id),
        }
    }
}

impl Default for CurrentInterior {
    fn default() -> (current: CurrentInterior)
        ensures
            current.map is None,
            current.fetching_id is None,
    {
        CurrentInterior { map: None, fetching_id: None }
    }
}

/// What to do after the player's location was looked at.
pub struct LocationChange {
    /// Whether everything that belongs to the overworld shows.
    pub overworld_visible: bool,
    /// Whether the interior on screen is to be taken down.
    pub clear_scene: bool,
    /// Interior to fetch from the server.
    pub fetch: Option<String>,
}

/// The ids once the player's location has been looked at: the overworld shows
/// nothing, a wanted interior that is not on screen is being fetched.
pub open spec fn ids_after_watch(ids: InteriorIds, location: Option<Seq<char>>) -> InteriorIds {
    match location {
        None => InteriorIds { shown: None, fetching: None },
        Some(id) => if ids.shown == Some(id) {
            ids
        } else {
            InteriorIds { shown: None, fetching: Some(id) }
        },
    }
}

/// A scene is taken down when another place is wanted than the one on screen,
/// and on the overworld also when one was still to come.
pub open spec fn clears_scene(ids: InteriorIds, location: Option<Seq<char>>) -> bool {
    match location {
        None => ids.shown is Some || ids.fetching is Some,
        Some(id) => ids.shown is Some && ids.shown != Some(id),
    }
}

/// An interior is fetched when it is wanted, not on screen and not on its way.
pub open spec fn fetches(ids: InteriorIds, location: Option<Seq<char>>) -> Option<Seq<char>> {
    match location {
        None => None,
        Some(id) => if ids.shown == Some(id) || ids.fetching == Some(id) {
            None
        } else {
            Some(id)
        },
    }
}

/// A fetch is stranded when the wanted interior is on its way, nothing is on
/// screen and nothing has arrived.
pub open spec fn fetch_is_stranded(
    ids: InteriorIds,
    location: Option<Seq<char>>,
    slot_empty: bool,
) -> bool {
    location is Some && ids.fetching == location && ids.shown is None && slot_empty
}

/// Looks at the player's location and decides what shows: on the overworld
/// (`None`) no interior, inside one its scene, fetched first where needed.
pub fn watch_location_changes(
    current: &mut CurrentInterior,
    location: &Option<String>,
) -> (change: LocationChange)
    ensures
        change.overworld_visible == (location is None),
        change.clear_scene == clears_scene(old(current)@, crate::text::option_text(*location)),
        crate::text::option_text(change.fetch) == fetches(
            old(current)@,
            crate::text::option_text(*location),
        ),
        final(current)@ == ids_after_watch(old(current)@, crate::text::option_text(*location)),
        final(current).map is Some ==> final(current).map == old(current).map,
{
    match location {
        None => {
            let clear_scene = current.map.is_some() || current.fetching_id.is_some();
            current.map = None;
            current.fetching_id = None;
            LocationChange { overworld_visible: true, clear_scene, fetch: None }
        },
        Some(want_id) => {
            let shows_it = match &current.map {
                Some(map) => same_text(map.id.as_str(), want_id.as_str()),
                None => false,
            };
            if shows_it {
                return LocationChange {
                    overworld_visible: false,
                    clear_scene: false,
                    fetch: None,
                };
            }
            // Another interior would stay on screen during the fetch.
            let clear_scene = current.map.is_some();
            current.map = None;
            if is_text(&current.fetching_id, want_id.as_str()) {
                return LocationChange { overworld_visible: false, clear_scene, fetch: None };
            }
            current.fetching_id = Some(want_id.clone());
            LocationChange {
                overworld_visible: false,
                clear_scene,
                fetch: Some(want_id.clone()),
            }
        },
    }
}

/// Forgets a fetch that never landed, so that the next look at the location
/// starts it again. Returns whether it did.
pub fn retry_stuck_interior_fetch(
    current: &mut CurrentInterior,
    location: &Option<String>,
    slot_empty: bool,
) -> (forgot: bool)
    ensures
        forgot == fetch_is_stranded(
            old(current)@,
            crate::text::option_text(*location),
            slot_empty,
        ),
        final(current).map == old(current).map,
        forgot ==> final(current).fetching_id is None,
        !forgot ==> *final(current) == *old(current),
{
    let stranded = match (location, &current.fetching_id) {
        (Some(want), Some(fetching)) => same_text(want.as_str(), fetching.as_str())
            && current.map.is_none() && slot_empty,
        _ => false,
    };
    if stranded {
        current.fetching_id = None;
    }
    stranded
}

/// Looking twice at the same location does nothing the second time.
pub proof fn watching_again_changes_nothing(ids: InteriorIds, location: Option<Seq<char>>)
    ensures
        ({
            let after = ids_after_watch(ids, location);
            &&& ids_after_watch(after, location) == after
            &&& fetches(after, location) is None
            &&& !clears_scene(after, location)
        }),
{
}

/// A stranded fetch, once forgotten, is started again by the next look.
pub proof fn stranded_fetch_is_retried(ids: InteriorIds, location: Option<Seq<char>>)
    requires
        fetch_is_stranded(ids, location, true),
    ensures
        fetches(InteriorIds { shown: ids.shown, fetching: None }, location) == location,
{
}

/// What one quad of an interior scene stands for.
pub enum QuadKind {
    Wall,
    Floor,
    /// Index of the portal.
    Portal(usize),
    Chest,
    /// Index of the monster.
    Monster(usize),
}

/// A colored quad of an interior scene, on a tile.
pub struct InteriorQuad {
    pub x: usize,
    pub y: usize,
    pub kind: QuadKind,
}

/// Color in hundredths, side in hundredths of a tile, and height in
/// hundredths at which a quad is drawn.
pub struct QuadStyle {
    pub rgb: (u8, u8, u8),
    pub size: u8,
    pub z: u8,
}

pub open spec fn style_of(kind: QuadKind) -> QuadStyle {
    match kind {
        QuadKind::Wall => QuadStyle { rgb: (10, 8, 10), size: 100, z: 10 },
        QuadKind::Floor => QuadStyle { rgb: (22, 20, 18), size: 100, z: 5 },
        QuadKind::Portal(_) => QuadStyle { rgb: (20, 70, 85), size: 85, z: 100 },
        QuadKind::Chest => QuadStyle { rgb: (90, 70, 20), size: 55, z: 90 },
        QuadKind::Monster(_) => QuadStyle { rgb: (80, 25, 25), size: 65, z: 95 },
    }
}

impl QuadKind {
    pub fn style(&self) -> (style: QuadStyle)
        ensures
            style == style_of(*self),
    {
        match self {
            QuadKind::Wall => QuadStyle { rgb: (10, 8, 10), size: 100, z: 10 },
            QuadKind::Floor => QuadStyle { rgb: (22, 20, 18), size: 100, z: 5 },
            QuadKind::Portal(_) => QuadStyle { rgb: (20, 70, 85), size: 85, z: 100 },
            QuadKind::Chest => QuadStyle { rgb: (90, 70, 20), size: 55, z: 90 },
            QuadKind::Monster(_) => QuadStyle { rgb: (80, 25, 25), size: 65, z: 95 },
        }
    }
}

/// The quad of the grid's `i`-th tile.
pub open spec fn tile_quad(map: InteriorMap, i: int) -> InteriorQuad {
    InteriorQuad {
        x: (i % map.width as int) as usize,
        y: (i / map.width as int) as usize,
        kind: match map.tiles@[i] {
            InteriorTile::Wall => QuadKind::Wall,
            InteriorTile::Floor => QuadKind::Floor,
        },
    }
}

pub open spec fn portal_quad(map: InteriorMap, i: int) -> InteriorQuad {
    InteriorQuad {
        x: map.portals@[i].x,
        y: map.portals@[i].y,
        kind: QuadKind::Portal(i as usize),
    }
}

pub open spec fn chest_quad(map: InteriorMap, i: int) -> InteriorQuad {
    InteriorQuad { x: map.chests@[i].x, y: map.chests@[i].y, kind: QuadKind::Chest }
}

pub open spec fn monster_quad(map: InteriorMap, i: int) -> InteriorQuad {
    InteriorQuad {
        x: map.monsters@[i].x,
        y: map.monsters@[i].y,
        kind: QuadKind::Monster(i as usize),
    }
}

/// All quads of an interior: the tiles row by row, then portals, chests and
/// monsters in their order.
pub open spec fn scene_of(map: InteriorMap) -> Seq<InteriorQuad> {
    Seq::new(map.tiles@.len(), |i: int| tile_quad(map, i)) + Seq::new(
        map.portals@.len(),
        |i: int| portal_quad(map, i),
    ) + Seq::new(map.chests@.len(), |i: int| chest_quad(map, i)) + Seq::new(
        map.monsters@.len(),
        |i: int| monster_quad(map, i),
    )
}

/// The quads that render an interior.
pub fn interior_scene(map: &InteriorMap) -> (quads: Vec<InteriorQuad>)
    requires
        map.wf(),
    ensures
        quads@ == scene_of(*map),
{
    let ghost tiles = Seq::new(map.tiles@.len(), |i: int| tile_quad(*map, i));
    let ghost portals = Seq::new(map.portals@.len(), |i: int| portal_quad(*map, i));
    let ghost chests = Seq::new(map.chests@.len(), |i: int| chest_quad(*map, i));
    let ghost monsters = Seq::new(map.monsters@.len(), |i: int| monster_quad(*map, i));
    let mut quads: Vec<InteriorQuad> = Vec::new();
    let mut i: usize = 0;
    while i < map.tiles.len()
        invariant
            map.wf(),
            i <= map.tiles.len(),
            tiles == Seq::new(map.tiles@.len(), |i: int| tile_quad(*map, i)),
            quads@ == tiles.take(i as int),
        decreases map.tiles.len() - i,
    {
        assert(map.width > 0) by (nonlinear_arith)
            requires
                map.width * map.height > 0,
        ;
        let kind = match map.tiles[i] {
            InteriorTile::Wall => QuadKind::Wall,
            InteriorTile::Floor => QuadKind::Floor,
        };
        quads.push(InteriorQuad { x: i % map.width, y: i / map.width, kind });
        i = i + 1;
        assert(quads@ =~= tiles.take(i as int));
    }
    assert(quads@ =~= tiles + portals.take(0));
    let mut i: usize = 0;
    while i < map.portals.len()
        invariant
            i <= map.portals.len(),
            portals == Seq::new(map.portals@.len(), |i: int| portal_quad(*map, i)),
            quads@ == tiles + portals.take(i as int),
        decreases map.portals.len() - i,
    {
        quads.push(
            InteriorQuad { x: map.portals[i].x, y: map.portals[i].y, kind: QuadKind::Portal(i) },
        );
        i = i + 1;
        assert(quads@ =~= tiles + portals.take(i as int));
    }
    assert(quads@ =~= tiles + portals + chests.take(0));
    let mut i: usize = 0;
    while i < map.chests.len()
        invariant
            i <= map.chests.len(),
            chests == Seq::new(map.chests@.len(), |i: int| chest_quad(*map, i)),
            quads@ == tiles + portals + chests.take(i as int),
        decreases map.chests.len() - i,
    {
        quads.push(
            InteriorQuad { x: map.chests[i].x, y: map.chests[i].y, kind: QuadKind::Chest },
        );
        i = i + 1;
        assert(quads@ =~= tiles + portals + chests.take(i as int));
    }
    assert(quads@ =~= tiles + portals + chests + monsters.take(0));
    let mut i: usize = 0;
    while i < map.monsters.len()
        invariant
            i <= map.monsters.len(),
            monsters == Seq::new(map.monsters@.len(), |i: int| monster_quad(*map, i)),
            quads@ == tiles + portals + chests + monsters.take(i as int),
        decreases map.monsters.len() - i,
    {
        quads.push(
            InteriorQuad {
                x: map.monsters[i].x,
                y: map.monsters[i].y,
                kind: QuadKind::Monster(i),
            },
        );
        i = i + 1;
        assert(quads@ =~= tiles + portals + chests + monsters.take(i as int));
    }
    assert(quads@ =~= tiles + portals + chests + monsters);
    quads
}

/// Key under which a defeated monster of an interior is remembered:
/// "<interior_id>:monster:<idx>".
pub open spec fn monster_key_text(interior_id: Seq<char>, idx: nat) -> Seq<char> {
    interior_id + ":monster:"@ + crate::text::decimal_text(idx)
}

pub fn monster_key(interior_id: &str, idx: usize) -> (key: String)
    ensures
        key@ == monster_key_text(interior_id@, idx as nat),
{
    let mut key = String::from_str(interior_id);
    key.append(":monster:");
    append_decimal(&mut key, idx as u64);
    key
}

/// Title shown while inside an interior.
pub fn interior_title(map: &InteriorMap) -> (title: String)
    ensures
        title@ == "⟐ "@ + map.name@,
{
    let mut title = String::from_str("⟐ ");
    title.append(map.name.as_str());
    title
}

/// A portal is locked while its unlock event is not among the completed ones.
pub open spec fn is_locked(unlock: Option<Seq<char>>, completed: Seq<Seq<char>>) -> bool {
    match unlock {
        Some(id) => !completed.contains(id),
        None => false,
    }
}

/// A portal with an unlock event is locked until the player has completed it.
pub fn portal_locked(unlock_event_id: &Option<String>, completed_events: &[String]) -> (locked:
    bool)
    ensures
        locked == is_locked(
            crate::text::option_text(*unlock_event_id),
            crate::text::texts(completed_events@),
        ),
{
    match unlock_event_id {
        Some(id) => !contains_text(completed_events, id.as_str()),
        None => false,
    }
}

/// Portal color in hundredths: dim orange while locked, teal otherwise.
pub fn portal_color(locked: bool) -> (rgb: (u8, u8, u8))
    ensures
        rgb == (if locked {
            (55u8, 40u8, 20u8)
        } else {
            (20u8, 70u8, 85u8)
        }),
{
    if locked {
        (55, 40, 20)
    } else {
        (20, 70, 85)
    }
}

/// A monster shows unless its key is among the defeated.
pub fn monster_visible(key: &str, defeated_monsters: &[String]) -> (visible: bool)
    ensures
        visible == !crate::text::texts(defeated_monsters@).contains(key@),
{
    !contains_text(defeated_monsters, key)
}

/// A click on the tile is for a route: the interior is on screen, the click
/// was not on the interface, and the tile holds a portal or is floor.
pub open spec fn click_asks_for_route(
    map: InteriorMap,
    inside: bool,
    clicked: bool,
    over_ui: bool,
    tile: (usize, usize),
) -> bool {
    &&& inside && clicked && !over_ui
    &&& map.contains(tile)
    &&& map.walkable(tile) || exists|i: int|
        0 <= i < map.portals.len() && (#[trigger] map.portals@[i]).x == tile.0 && map.portals@[i].y
            == tile.1
}

/// Plans the route for a click inside an interior. Portals are destinations
/// like any floor tile: the player walks there first.
pub fn handle_interior_click(
    map: &InteriorMap,
    inside: bool,
    clicked: bool,
    over_ui: bool,
    from: (usize, usize),
    tile: (usize, usize),
) -> (route: Option<Vec<(usize, usize)>>)
    requires
        map.wf(),
        map.contains(from),
    ensures
        match route {
            Some(r) => {
                &&& click_asks_for_route(*map, inside, clicked, over_ui, tile)
                &&& is_floor_walk(*map, from, tile, r@)
                &&& forall|other: Seq<(usize, usize)>| #[trigger]
                    is_floor_walk(*map, from, tile, other) ==> r@.len() <= other.len()
            },
            None => !click_asks_for_route(*map, inside, clicked, over_ui, tile) || forall|
                other: Seq<(usize, usize)>,
            | !#[trigger] is_floor_walk(*map, from, tile, other),
        },
{
    if !inside || !clicked || over_ui {
        return None;
    }
    if tile.0 >= map.width || tile.1 >= map.height {
        return None;
    }
    if map.portal_at(tile.0, tile.1).is_none() && !map.is_walkable(tile.0, tile.1) {
        return None;
    }
    bfs_path(map, from, tile)
}

/// Every kind of destination lets the player leave.
pub fn portal_allows_exit(dest: &PortalDest) -> (allowed: bool)
    ensures
        allowed,
{
    match dest {
        PortalDest::Overworld { .. } => true,
        PortalDest::Interior { .. } => true,
        PortalDest::OverworldReturn => true,
    }
}

/// A walk is exactly a row of tiles from start to goal, each one step beside
/// the one before, of which all but the first are floor of the grid.
pub proof fn what_a_floor_walk_is(
    map: InteriorMap,
    start: (usize, usize),
    goal: (usize, usize),
    path: Seq<(usize, usize)>,
)
    ensures
        is_floor_walk(map, start, goal, path) <==> {
            &&& path.len() > 0
            &&& path[0] == start
            &&& path[path.len() - 1] == goal
            &&& forall|i: int|
                0 < i < path.len() ==> {
                    let dx = (#[trigger] path[i]).0 - path[i - 1].0;
                    let dy = path[i].1 - path[i - 1].1;
                    &&& (dx == 0 && (dy == 1 || dy == -1)) || (dy == 0 && (dx == 1 || dx == -1))
                    &&& path[i].0 < map.width
                    &&& path[i].1 < map.height
                    &&& map.tiles@[path[i].1 * map.width + path[i].0] == InteriorTile::Floor
                }
        },
{
    let floor = floor_of(map);
    if is_floor_walk(map, start, goal, path) {
        assert forall|i: int| 0 < i < path.len() implies {
            let dx = (#[trigger] path[i]).0 - path[i - 1].0;
            let dy = path[i].1 - path[i - 1].1;
            &&& (dx == 0 && (dy == 1 || dy == -1)) || (dy == 0 && (dx == 1 || dx == -1))
            &&& path[i].0 < map.width
            &&& path[i].1 < map.height
            &&& map.tiles@[path[i].1 * map.width + path[i].0] == InteriorTile::Floor
        } by {
            assert(super::search::adjacent(path[i - 1], path[i]) && floor(path[i]));
        }
    } else if path.len() > 0 && path[0] == start && path[path.len() - 1] == goal {
        let i = choose|i: int|
            0 < i < path.len() && !(super::search::adjacent(path[i - 1], #[trigger] path[i])
                && floor(path[i]));
        assert(0 < i < path.len() && !(super::search::adjacent(path[i - 1], path[i]) && floor(
            path[i],
        )));
    }
}

/// A click inside asks for a route exactly where the interior is on screen, the
/// click is not on the interface, and it falls on a tile of the grid that is
/// floor or holds a portal.
pub proof fn which_clicks_inside_ask_for_a_route(
    map: InteriorMap,
    inside: bool,
    clicked: bool,
    over_ui: bool,
    tile: (usize, usize),
)
    ensures
        !inside || !clicked || over_ui || tile.0 >= map.width || tile.1 >= map.height
            ==> !click_asks_for_route(map, inside, clicked, over_ui, tile),
        inside && clicked && !over_ui && tile.0 < map.width && tile.1 < map.height && map.tiles@[tile.1
            * map.width + tile.0] == InteriorTile::Floor ==> click_asks_for_route(
            map,
            inside,
            clicked,
            over_ui,
            tile,
        ),
        inside && clicked && !over_ui && tile.0 < map.width && tile.1 < map.height && map.tiles@[tile.1
            * map.width + tile.0] == InteriorTile::Wall ==> (click_asks_for_route(
            map,
            inside,
            clicked,
            over_ui,
            tile,
        ) <==> exists|i: int|
            0 <= i < map.portals.len() && (#[trigger] map.portals@[i]).x == tile.0
                && map.portals@[i].y == tile.1),
{
}

/// What is on screen is what the player's location asks for, or nothing yet:
/// on the overworld no interior, inside one only that one. It is asked for once
/// and taken down as soon as another place is wanted.
pub proof fn the_scene_follows_the_location(ids: InteriorIds, location: Option<Seq<char>>)
    ensures
        ({
            let after = ids_after_watch(ids, location);
            &&& location is None ==> after.shown is None && after.fetching is None
            &&& after.shown is Some ==> after.shown == location
            &&& location is Some && ids.shown == location ==> {
                &&& after.shown == location
                &&& after.fetching == ids.fetching
                &&& fetches(ids, location) is None
                &&& !clears_scene(ids, location)
            }
            &&& location is Some && ids.shown != location ==> {
                &&& after.shown is None
                &&& after.fetching == location
                &&& ids.fetching == location <==> fetches(ids, location) is None
                &&& ids.fetching != location ==> fetches(ids, location) == location
                &&& clears_scene(ids, location) <==> ids.shown is Some
            }
            &&& location is None ==> fetches(ids, location) is None
            &&& location is None ==> (clears_scene(ids, location) <==> ids.shown is Some
                || ids.fetching is Some)
        }),
{
}

/// A fetch is given up exactly where the wanted interior is on its way and has
/// neither arrived nor come on screen.
pub proof fn which_fetches_are_stranded(
    ids: InteriorIds,
    location: Option<Seq<char>>,
    slot_empty: bool,
)
    ensures
        fetch_is_stranded(ids, location, slot_empty) <==> {
            &&& location is Some
            &&& ids.fetching == location
            &&& ids.shown is None
            &&& slot_empty
        },
{
}

/// A portal without an event is open; one with an event is locked exactly until
/// that event is completed, whatever else is.
pub proof fn completed_events_unlock(id: Seq<char>, completed: Seq<Seq<char>>, other: Seq<char>)
    ensures
        !is_locked(None, completed),
        !is_locked(Some(id), completed.push(id)),
        is_locked(Some(id), Seq::empty()),
        other != id ==> (is_locked(Some(id), completed.push(other)) <==> is_locked(
            Some(id),
            completed,
        )),
{
    assert(completed.push(id)[completed.len() as int] == id);
    if completed.contains(id) {
        let i = choose|i: int| 0 <= i < completed.len() && completed[i] == id;
        assert(completed.push(other)[i] == id);
    }
    if completed.push(other).contains(id) && other != id {
        let i = choose|i: int|
            0 <= i < completed.push(other).len() && completed.push(other)[i] == id;
        assert(completed[i] == id);
    }
}

/// The scene holds every tile of the grid on its place, as wall or floor, and
/// every portal, chest and monster on its own.
pub proof fn the_scene_shows_the_interior(map: InteriorMap, i: int)
    requires
        map.wf(),
    ensures
        scene_of(map).len() == map.tiles.len() + map.portals.len() + map.chests.len()
            + map.monsters.len(),
        0 <= i < map.tiles.len() ==> {
            let quad = scene_of(map)[i];
            &&& quad.y * map.width + quad.x == i
            &&& quad.x < map.width
            &&& quad.kind is Wall <==> map.tiles@[i] == InteriorTile::Wall
            &&& quad.kind is Floor <==> map.tiles@[i] == InteriorTile::Floor
        },
        0 <= i < map.portals.len() ==> {
            let quad = scene_of(map)[map.tiles.len() + i];
            quad.x == map.portals@[i].x && quad.y == map.portals@[i].y && quad.kind
                == QuadKind::Portal(i as usize)
        },
        0 <= i < map.chests.len() ==> {
            let quad = scene_of(map)[map.tiles.len() + map.portals.len() + i];
            quad.x == map.chests@[i].x && quad.y == map.chests@[i].y && quad.kind is Chest
        },
        0 <= i < map.monsters.len() ==> {
            let quad = scene_of(map)[map.tiles.len() + map.portals.len() + map.chests.len() + i];
            quad.x == map.monsters@[i].x && quad.y == map.monsters@[i].y && quad.kind
                == QuadKind::Monster(i as usize)
        },
{
    if 0 <= i < map.tiles.len() {
        super::world_map::lemma_slot_onto_nonempty(map.width as int, map.height as int, i);
    }
}

/// Quads lie in their order: the floor lowest, then walls, chests, monsters and
/// portals on top; only tiles fill their square.
pub proof fn quads_lie_in_order(i: usize, j: usize)
    ensures
        style_of(QuadKind::Floor).z < style_of(QuadKind::Wall).z < style_of(QuadKind::Chest).z
            < style_of(QuadKind::Monster(i)).z < style_of(QuadKind::Portal(j)).z,
        style_of(QuadKind::Floor).size == 100 && style_of(QuadKind::Wall).size == 100,
        style_of(QuadKind::Chest).size == 55,
        style_of(QuadKind::Monster(i)).size == 65,
        style_of(QuadKind::Portal(j)).size == 85,
        style_of(QuadKind::Floor).rgb == (22u8, 20u8, 18u8),
        style_of(QuadKind::Wall).rgb == (10u8, 8u8, 10u8),
        style_of(QuadKind::Chest).rgb == (90u8, 70u8, 20u8),
        style_of(QuadKind::Monster(i)).rgb == (80u8, 25u8, 25u8),
        style_of(QuadKind::Portal(j)).rgb == (20u8, 70u8, 85u8),
{
}

/// No two monsters of an interior share a key, and each key begins with the
/// interior's id.
pub proof fn monster_keys_are_distinct(interior: Seq<char>, i: nat, j: nat)
    ensures
        monster_key_text(interior, i) == monster_key_text(interior, j) ==> i == j,
        monster_key_text(interior, i) == interior + ":monster:"@ + crate::text::decimal_text(i),
{
    let head = interior + ":monster:"@;
    if monster_key_text(interior, i) == monster_key_text(interior, j) {
        assert((head + crate::text::decimal_text(i)).skip(head.len() as int)
            =~= crate::text::decimal_text(i));
        assert((head + crate::text::decimal_text(j)).skip(head.len() as int)
            =~= crate::text::decimal_text(j));
        crate::text::decimals_tell_numbers_apart(i, j);
    }
}

/// The neighbors of a tile are one step away across or down, and lie in the
/// interior.
pub proof fn neighbors_are_one_step_away(w: int, h: int, a: (usize, usize), b: (usize, usize))
    ensures
        is_neighbor(w, h, a, b) <==> {
            &&& b.0 < w
            &&& b.1 < h
            &&& (b.0 == a.0 && (b.1 == a.1 + 1 || b.1 + 1 == a.1)) || (b.1 == a.1 && (b.0 == a.0 + 1
                || b.0 + 1 == a.0))
        },
{
}

} // verus!
