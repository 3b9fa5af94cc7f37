//! Routes over the overworld: walking along one, and finding one.

use vstd::multiset::Multiset;
use vstd::prelude::*;

use super::frontier::{Frontier, Node};
use super::world::WorldGrid;
use crate::text::contains_text;

verus! {

broadcast use vstd::multiset::group_multiset_axioms;

/// A player carrying the items may step on the tile: it lies on the map, can
/// be walked on, and its biome demands no item that is missing.
pub open spec fn may_enter(
    world: WorldGrid,
    items: Seq<Seq<char>>,
    tile: (usize, usize),
) -> bool {
    &&& world.map.contains(tile.0 as int, tile.1 as int)
    &&& super::terrain_passable(world.terrain_at(tile.0 as int, tile.1 as int))
    &&& match world.map.gate(world.map.biome(tile.0 as int, tile.1 as int)) {
        Some(item) => items.contains(item),
        None => true,
    }
}

/// The tiles that a player carrying the items may step on.
pub open spec fn enterable(world: WorldGrid, items: Seq<Seq<char>>) -> spec_fn(
    (usize, usize),
) -> bool {
    |tile: (usize, usize)| may_enter(world, items, tile)
}

/// Meters it takes to enter each tile.
pub open spec fn tile_costs(world: WorldGrid) -> spec_fn((usize, usize)) -> nat {
    |tile: (usize, usize)|
        super::terrain_cost(world.terrain_at(tile.0 as int, tile.1 as int)) as nat
}

/// The estimate of a hundred meters for each step is a `u32` even between two
/// opposite corners of the map.
pub open spec fn estimates_fit(world: WorldGrid) -> bool {
    (world.width - 1 + world.height - 1) * 100 <= u32::MAX
}

/// A walk from start to goal over tiles that the player may enter.
pub open spec fn is_route(
    world: WorldGrid,
    items: Seq<Seq<char>>,
    start: (usize, usize),
    goal: (usize, usize),
    path: Seq<(usize, usize)>,
) -> bool {
    super::search::is_walk_between(path, enterable(world, items), start, goal)
}

/// Meters that a route takes.
pub open spec fn route_cost(world: WorldGrid, path: Seq<(usize, usize)>) -> nat {
    super::search::walk_cost(path, tile_costs(world))
}

/// A route whose cost can be counted and that no other undercuts.
pub open spec fn is_best_route(
    world: WorldGrid,
    items: Seq<Seq<char>>,
    start: (usize, usize),
    goal: (usize, usize),
    path: Seq<(usize, usize)>,
) -> bool {
    &&& is_route(world, items, start, goal, path)
    &&& route_cost(world, path) < u32::MAX
    &&& forall|other: Seq<(usize, usize)>| #[trigger]
        is_route(world, items, start, goal, other) ==> route_cost(world, path) <= route_cost(
            world,
            other,
        )
}

/// No route leads to the goal at a cost that can be counted.
pub open spec fn no_route(
    world: WorldGrid,
    items: Seq<Seq<char>>,
    start: (usize, usize),
    goal: (usize, usize),
) -> bool {
    forall|other: Seq<(usize, usize)>| #[trigger]
        is_route(world, items, start, goal, other) ==> route_cost(world, other) >= u32::MAX
}

spec fn slot_of(world: WorldGrid, tile: (usize, usize)) -> int {
    super::world_map::tile_slot(world.width as int, tile.0 as int, tile.1 as int)
}

spec fn on_map(world: WorldGrid, tile: (usize, usize)) -> bool {
    world.map.contains(tile.0 as int, tile.1 as int)
}

/// Estimate of what is left: a hundred meters for every step still to go.
spec fn estimate(tile: (usize, usize), goal: (usize, usize)) -> nat {
    super::search::manhattan(tile, goal) * 100
}

spec fn node_of(
    world: WorldGrid,
    goal: (usize, usize),
    dist: Seq<u32>,
    tile: (usize, usize),
) -> Node {
    Node { cost: dist[slot_of(world, tile)], heuristic: estimate(tile, goal) as u32, pos: tile }
}

spec fn reached(world: WorldGrid, dist: Seq<u32>) -> spec_fn((usize, usize)) -> Option<nat> {
    |tile: (usize, usize)|
        if on_map(world, tile) && dist[slot_of(world, tile)] < u32::MAX {
            Some(dist[slot_of(world, tile)] as nat)
        } else {
            None
        }
}

spec fn queued(
    world: WorldGrid,
    goal: (usize, usize),
    dist: Seq<u32>,
    open: Multiset<Node>,
    current: Option<(usize, usize)>,
) -> spec_fn((usize, usize)) -> bool {
    |tile: (usize, usize)|
        open.contains(node_of(world, goal, dist, tile)) || current == Some(tile)
}

/// Every reached tile but the start was reached from a neighbour at the
/// neighbour's cost plus its own.
spec fn chained(
    world: WorldGrid,
    items: Seq<Seq<char>>,
    start: (usize, usize),
    dist: Seq<u32>,
    prev: Seq<Option<(usize, usize)>>,
) -> bool {
    &&& dist.len() == world.width * world.height
    &&& prev.len() == world.width * world.height
    &&& on_map(world, start)
    &&& dist[slot_of(world, start)] == 0
    &&& forall|t: (usize, usize)| #[trigger]
        on_map(world, t) && t != start && dist[slot_of(world, t)] < u32::MAX ==> {
            &&& may_enter(world, items, t)
            &&& prev[slot_of(world, t)] matches Some(p) && {
                &&& on_map(world, p)
                &&& super::search::adjacent(p, t)
                &&& dist[slot_of(world, p)] + tile_costs(world)(t) <= dist[slot_of(world, t)]
            }
        }
}

spec fn nodes_sound(
    world: WorldGrid,
    goal: (usize, usize),
    dist: Seq<u32>,
    open: Multiset<Node>,
) -> bool {
    forall|n: Node| #[trigger]
        open.contains(n) ==> {
            &&& on_map(world, n.pos)
            &&& n.heuristic == estimate(n.pos, goal)
            &&& dist[slot_of(world, n.pos)] <= n.cost < u32::MAX
        }
}

spec fn search_inv(
    world: WorldGrid,
    items: Seq<Seq<char>>,
    start: (usize, usize),
    goal: (usize, usize),
    dist: Seq<u32>,
    prev: Seq<Option<(usize, usize)>>,
    open: Multiset<Node>,
    current: Option<(usize, usize)>,
) -> bool {
    &&& chained(world, items, start, dist, prev)
    &&& nodes_sound(world, goal, dist, open)
    &&& super::search::relaxed(
        enterable(world, items),
        tile_costs(world),
        reached(world, dist),
        queued(world, goal, dist, open, current),
        u32::MAX as nat,
    )
    &&& dist[slot_of(world, goal)] < u32::MAX ==> open.contains(node_of(world, goal, dist, goal))
}

spec fn total(dist: Seq<u32>) -> nat
    decreases dist.len(),
{
    if dist.len() == 0 {
        0
    } else {
        total(dist.drop_last()) + dist.last() as nat
    }
}

proof fn lemma_total_update(dist: Seq<u32>, i: int, v: u32)
    requires
        0 <= i < dist.len(),
        v < dist[i],
    ensures
        total(dist.update(i, v)) < total(dist),
    decreases dist.len(),
{
    let changed = dist.update(i, v);
    if i == dist.len() - 1 {
        assert(changed.drop_last() =~= dist.drop_last());
    } else {
        assert(changed.drop_last() =~= dist.drop_last().update(i, v));
        lemma_total_update(dist.drop_last(), i, v);
    }
}

proof fn lemma_slots_differ(world: WorldGrid, a: (usize, usize), b: (usize, usize))
    requires
        world.wf(),
        on_map(world, a),
        on_map(world, b),
    ensures
        0 <= slot_of(world, a) < world.width * world.height,
        a != b ==> slot_of(world, a) != slot_of(world, b),
{
    super::world_map::lemma_tile_slot(
        world.width as int,
        world.height as int,
        a.0 as int,
        a.1 as int,
    );
    if slot_of(world, a) == slot_of(world, b) {
        super::world_map::lemma_slot_injective(
            world.width as int,
            a.0 as int,
            a.1 as int,
            b.0 as int,
            b.1 as int,
        );
    }
}

/// Once the node taken from the frontier is the goal's, no route is cheaper
/// than what the goal was reached at.
proof fn lemma_goal_is_cheapest(
    world: WorldGrid,
    items: Seq<Seq<char>>,
    start: (usize, usize),
    goal: (usize, usize),
    dist: Seq<u32>,
    prev: Seq<Option<(usize, usize)>>,
    open: Multiset<Node>,
    taken: Node,
    route: Seq<(usize, usize)>,
)
    requires
        world.wf(),
        on_map(world, goal),
        search_inv(world, items, start, goal, dist, prev, open, None),
        open.contains(taken),
        taken.pos == goal,
        forall|n: Node| #[trigger]
            open.contains(n) ==> super::frontier::node_key(taken) <= super::frontier::node_key(n),
        is_route(world, items, start, goal, route),
    ensures
        dist[slot_of(world, goal)] <= route_cost(world, route),
{
    let open_tiles = enterable(world, items);
    let cost = tile_costs(world);
    let d = reached(world, dist);
    let waiting = queued(world, goal, dist, open, None);
    if route_cost(world, route) < u32::MAX {
        assert(d(route[0]) == Some(0nat));
        super::search::lemma_frontier(route, open_tiles, cost, d, waiting, u32::MAX as nat);
        if exists|i: int| #[trigger] super::search::waits_on(route, cost, d, waiting, i) {
            let i = choose|i: int| #[trigger]
                super::search::waits_on(route, cost, d, waiting, i);
            assert forall|t: (usize, usize)| open_tiles(t) implies #[trigger] cost(t) >= 100 by {
                super::walking_cost_bounds(world.terrain_at(t.0 as int, t.1 as int));
            }
            super::search::lemma_rest_of_walk(route, open_tiles, cost, 100, i);
            let n = node_of(world, goal, dist, route[i]);
            assert(open.contains(n));
            assert(super::frontier::node_key(taken) <= super::frontier::node_key(n));
            assert(taken.heuristic == 0);
        }
    }
}

/// With nothing left to expand and the goal never reached, there is no route.
proof fn lemma_goal_is_unreachable(
    world: WorldGrid,
    items: Seq<Seq<char>>,
    start: (usize, usize),
    goal: (usize, usize),
    dist: Seq<u32>,
    prev: Seq<Option<(usize, usize)>>,
    route: Seq<(usize, usize)>,
)
    requires
        world.wf(),
        on_map(world, goal),
        search_inv(world, items, start, goal, dist, prev, Multiset::empty(), None),
        is_route(world, items, start, goal, route),
    ensures
        route_cost(world, route) >= u32::MAX,
{
    let open_tiles = enterable(world, items);
    let cost = tile_costs(world);
    let d = reached(world, dist);
    let waiting = queued(world, goal, dist, Multiset::empty(), None);
    assert(!Multiset::<Node>::empty().contains(node_of(world, goal, dist, goal)));
    if route_cost(world, route) < u32::MAX {
        assert(d(route[0]) == Some(0nat));
        super::search::lemma_frontier(route, open_tiles, cost, d, waiting, u32::MAX as nat);
        assert(forall|i: int| !super::search::waits_on(route, cost, d, waiting, i));
    }
}

/// Dropping a node that a cheaper visit has overtaken changes nothing.
proof fn lemma_stale_node(
    world: WorldGrid,
    items: Seq<Seq<char>>,
    start: (usize, usize),
    goal: (usize, usize),
    dist: Seq<u32>,
    prev: Seq<Option<(usize, usize)>>,
    open: Multiset<Node>,
    node: Node,
)
    requires
        world.wf(),
        on_map(world, goal),
        search_inv(world, items, start, goal, dist, prev, open, None),
        open.contains(node),
        node.cost > dist[slot_of(world, node.pos)],
    ensures
        search_inv(world, items, start, goal, dist, prev, open.remove(node), None),
{
    let left = open.remove(node);
    assert forall|t: (usize, usize)|
        open.contains(#[trigger] node_of(world, goal, dist, t)) implies left.contains(
        node_of(world, goal, dist, t),
    ) by {
        assert(node_of(world, goal, dist, t) != node);
    }
    assert forall|n: Node| #[trigger] left.contains(n) implies open.contains(n) by {}
    let before = queued(world, goal, dist, open, None);
    let after = queued(world, goal, dist, left, None);
    assert forall|t: (usize, usize)| #[trigger] before(t) implies after(t) by {}
    let d = reached(world, dist);
    assert forall|u: (usize, usize), v: (usize, usize)|
        #![trigger d(u), super::search::adjacent(u, v)]
        d(u) is Some && !after(u) && super::search::adjacent(u, v) && enterable(world, items)(v)
            && d(u)->0 + tile_costs(world)(v) < u32::MAX implies d(v) is Some && d(v)->0 <= d(u)->0
        + tile_costs(world)(v) by {
        assert(!before(u));
    }
}

/// Taking a node up for expansion: its tile counts as waiting until all its
/// neighbours have been offered their cost.
proof fn lemma_expanding(
    world: WorldGrid,
    items: Seq<Seq<char>>,
    start: (usize, usize),
    goal: (usize, usize),
    dist: Seq<u32>,
    prev: Seq<Option<(usize, usize)>>,
    open: Multiset<Node>,
    node: Node,
)
    requires
        world.wf(),
        on_map(world, goal),
        search_inv(world, items, start, goal, dist, prev, open, None),
        open.contains(node),
        node.pos != goal,
    ensures
        search_inv(world, items, start, goal, dist, prev, open.remove(node), Some(node.pos)),
{
    let left = open.remove(node);
    assert forall|t: (usize, usize)|
        open.contains(#[trigger] node_of(world, goal, dist, t)) && t != node.pos implies left.contains(
        node_of(world, goal, dist, t),
    ) by {
        assert(node_of(world, goal, dist, t) != node);
    }
    assert forall|n: Node| #[trigger] left.contains(n) implies open.contains(n) by {}
    let before = queued(world, goal, dist, open, None);
    let after = queued(world, goal, dist, left, Some(node.pos));
    assert forall|t: (usize, usize)| #[trigger] before(t) implies after(t) by {}
    let d = reached(world, dist);
    assert forall|u: (usize, usize), v: (usize, usize)|
        #![trigger d(u), super::search::adjacent(u, v)]
        d(u) is Some && !after(u) && super::search::adjacent(u, v) && enterable(world, items)(v)
            && d(u)->0 + tile_costs(world)(v) < u32::MAX implies d(v) is Some && d(v)->0 <= d(u)->0
        + tile_costs(world)(v) by {
        assert(!before(u));
    }
}

/// Once all neighbours have been offered their cost the tile no longer waits.
proof fn lemma_expanded(
    world: WorldGrid,
    items: Seq<Seq<char>>,
    start: (usize, usize),
    goal: (usize, usize),
    dist: Seq<u32>,
    prev: Seq<Option<(usize, usize)>>,
    open: Multiset<Node>,
    pos: (usize, usize),
)
    requires
        world.wf(),
        on_map(world, goal),
        on_map(world, pos),
        search_inv(world, items, start, goal, dist, prev, open, Some(pos)),
        forall|v: (usize, usize)|
            #![trigger super::search::adjacent(pos, v)]
            super::search::adjacent(pos, v) && may_enter(world, items, v) && dist[slot_of(
                world,
                pos,
            )] + tile_costs(world)(v) < u32::MAX ==> dist[slot_of(world, v)] <= dist[slot_of(
                world,
                pos,
            )] + tile_costs(world)(v),
    ensures
        search_inv(world, items, start, goal, dist, prev, open, None),
{
    let before = queued(world, goal, dist, open, Some(pos));
    let after = queued(world, goal, dist, open, None);
    let d = reached(world, dist);
    assert forall|u: (usize, usize), v: (usize, usize)|
        #![trigger d(u), super::search::adjacent(u, v)]
        d(u) is Some && !after(u) && super::search::adjacent(u, v) && enterable(world, items)(v)
            && d(u)->0 + tile_costs(world)(v) < u32::MAX implies d(v) is Some && d(v)->0 <= d(u)->0
        + tile_costs(world)(v) by {
        if u != pos {
            assert(!before(u));
        }
    }
}

/// Lowering what a neighbour of the expanded tile was reached at.
proof fn lemma_improved(
    world: WorldGrid,
    items: Seq<Seq<char>>,
    start: (usize, usize),
    goal: (usize, usize),
    dist: Seq<u32>,
    prev: Seq<Option<(usize, usize)>>,
    open: Multiset<Node>,
    pos: (usize, usize),
    next: (usize, usize),
    cost: u32,
)
    requires
        world.wf(),
        on_map(world, goal),
        on_map(world, pos),
        estimate(next, goal) <= u32::MAX,
        search_inv(world, items, start, goal, dist, prev, open, Some(pos)),
        dist[slot_of(world, pos)] < u32::MAX,
        may_enter(world, items, next),
        super::search::adjacent(pos, next),
        cost == dist[slot_of(world, pos)] + tile_costs(world)(next),
        cost < dist[slot_of(world, next)],
    ensures
        search_inv(
            world,
            items,
            start,
            goal,
            dist.update(slot_of(world, next), cost),
            prev.update(slot_of(world, next), Some(pos)),
            open.insert(
                Node { cost, heuristic: estimate(next, goal) as u32, pos: next },
            ),
            Some(pos),
        ),
{
    let slot = slot_of(world, next);
    let found = Node { cost, heuristic: estimate(next, goal) as u32, pos: next };
    let dist2 = dist.update(slot, cost);
    let prev2 = prev.update(slot, Some(pos));
    let open2 = open.insert(found);
    lemma_slots_differ(world, next, next);
    super::walking_cost_bounds(world.terrain_at(next.0 as int, next.1 as int));
    assert forall|t: (usize, usize)| on_map(world, t) implies 0 <= #[trigger] slot_of(world, t)
        < dist.len() && (t != next ==> slot_of(world, t) != slot) by {
        lemma_slots_differ(world, t, next);
    }
    assert(found == node_of(world, goal, dist2, next));
    assert(open2.contains(found));
    assert forall|n: Node| open.contains(n) implies #[trigger] open2.contains(n) by {}
    assert forall|n: Node| #[trigger] open2.contains(n) implies open.contains(n) || n == found by {}
    assert(chained(world, items, start, dist2, prev2));
    assert(nodes_sound(world, goal, dist2, open2));
    let d = reached(world, dist);
    let d2 = reached(world, dist2);
    let before = queued(world, goal, dist, open, Some(pos));
    let after = queued(world, goal, dist2, open2, Some(pos));
    assert forall|t: (usize, usize)| on_map(world, t) && t != next implies #[trigger] node_of(
        world,
        goal,
        dist2,
        t,
    ) == node_of(world, goal, dist, t) by {}
    assert forall|u: (usize, usize), v: (usize, usize)|
        #![trigger d2(u), super::search::adjacent(u, v)]
        d2(u) is Some && !after(u) && super::search::adjacent(u, v) && enterable(world, items)(v)
            && d2(u)->0 + tile_costs(world)(v) < u32::MAX implies d2(v) is Some && d2(v)->0
        <= d2(u)->0 + tile_costs(world)(v) by {
        assert(u != next);
        assert(node_of(world, goal, dist2, u) == node_of(world, goal, dist, u));
        assert(!before(u));
        assert(d(u) == d2(u));
    }
}

/// What a search knows: what each tile was reached at and from where, and the
/// nodes that wait, in order.
#[verifier::ext_equal]
struct Search {
    dist: Seq<u32>,
    prev: Seq<Option<(usize, usize)>>,
    open: Seq<Node>,
}

/// The four tiles around a tile, in the order in which they are looked at.
spec fn around_tile(tile: (usize, usize), k: int) -> (usize, usize) {
    if k == 0 {
        ((if tile.0 == 0 { usize::MAX } else { (tile.0 - 1) as usize }), tile.1)
    } else if k == 1 {
        ((tile.0 + 1) as usize, tile.1)
    } else if k == 2 {
        (tile.0, (if tile.1 == 0 { usize::MAX } else { (tile.1 - 1) as usize }))
    } else {
        (tile.0, (tile.1 + 1) as usize)
    }
}

/// The search after a tile was offered its cost through the node's tile.
spec fn offered(
    world: WorldGrid,
    items: Seq<Seq<char>>,
    goal: (usize, usize),
    node: Node,
    next: (usize, usize),
    search: Search,
) -> Search {
    let slot = slot_of(world, next);
    let sum = node.cost + tile_costs(world)(next);
    if may_enter(world, items, next) && sum < search.dist[slot] {
        Search {
            dist: search.dist.update(slot, sum as u32),
            prev: search.prev.update(slot, Some(node.pos)),
            open: super::frontier::with_node(
                search.open,
                Node { cost: sum as u32, heuristic: estimate(next, goal) as u32, pos: next },
            ),
        }
    } else {
        search
    }
}

/// The search after the first `count` tiles around the node's were offered
/// their cost.
spec fn expanded(
    world: WorldGrid,
    items: Seq<Seq<char>>,
    goal: (usize, usize),
    node: Node,
    search: Search,
    count: int,
) -> Search
    decreases count,
{
    if count <= 0 {
        search
    } else {
        offered(
            world,
            items,
            goal,
            node,
            around_tile(node.pos, count - 1),
            expanded(world, items, goal, node, search, count - 1),
        )
    }
}

/// The search is over: nothing waits, or the goal is next.
spec fn is_over(goal: (usize, usize), search: Search) -> bool {
    search.open.len() == 0 || search.open[0].pos == goal
}

/// The search after its next node was taken up.
spec fn stepped(
    world: WorldGrid,
    items: Seq<Seq<char>>,
    goal: (usize, usize),
    search: Search,
) -> Search {
    let node = search.open[0];
    let rest = Search { open: super::frontier::without_first(search.open), ..search };
    if is_over(goal, search) {
        search
    } else if node.cost > search.dist[slot_of(world, node.pos)] {
        rest
    } else {
        expanded(world, items, goal, node, rest, 4)
    }
}

/// The search before anything was taken up.
spec fn started(world: WorldGrid, start: (usize, usize), goal: (usize, usize)) -> Search {
    let tiles = (world.width * world.height) as nat;
    Search {
        dist: Seq::new(tiles, |i: int| u32::MAX).update(slot_of(world, start), 0),
        prev: Seq::new(tiles, |i: int| None),
        open: super::frontier::with_node(
            Seq::empty(),
            Node { cost: 0, heuristic: estimate(start, goal) as u32, pos: start },
        ),
    }
}

/// The search after so many steps.
spec fn after_steps(
    world: WorldGrid,
    items: Seq<Seq<char>>,
    start: (usize, usize),
    goal: (usize, usize),
    n: nat,
) -> Search
    decreases n,
{
    if n == 0 {
        started(world, start, goal)
    } else {
        stepped(world, items, goal, after_steps(world, items, start, goal, (n - 1) as nat))
    }
}

/// Every tile of the path but the first was reached from the one before, and
/// none of them is the start.
#[verifier::opaque]
spec fn follows(
    world: WorldGrid,
    prev: Seq<Option<(usize, usize)>>,
    start: (usize, usize),
    path: Seq<(usize, usize)>,
) -> bool {
    forall|i: int|
        0 < i < path.len() ==> #[trigger] path[i] != start && prev[slot_of(world, path[i])] == Some(
            path[i - 1],
        )
}

proof fn lemma_follows_prepend(
    world: WorldGrid,
    prev: Seq<Option<(usize, usize)>>,
    start: (usize, usize),
    path: Seq<(usize, usize)>,
    first: (usize, usize),
)
    requires
        path.len() > 0,
        follows(world, prev, start, path),
        path[0] != start,
        prev[slot_of(world, path[0])] == Some(first),
    ensures
        follows(world, prev, start, seq![first] + path),
{
    reveal(follows);
    let longer = seq![first] + path;
    assert forall|i: int| 0 < i < longer.len() implies #[trigger] longer[i] != start
        && prev[slot_of(world, longer[i])] == Some(longer[i - 1]) by {
        assert(longer[i] == path[i - 1]);
        if i > 1 {
            assert(longer[i - 1] == path[i - 2]);
        }
    }
}

/// The path leads along the predecessors from the goal back to the start.
spec fn is_traced(
    world: WorldGrid,
    prev: Seq<Option<(usize, usize)>>,
    start: (usize, usize),
    goal: (usize, usize),
    path: Seq<(usize, usize)>,
) -> bool {
    &&& path.len() > 0
    &&& path[0] == start
    &&& path.last() == goal
    &&& follows(world, prev, start, path)
}

/// The answer to a search for a route. Among several best routes it is always
/// the same one for the same world, items, start and goal; which one is left
/// open.
pub closed spec fn route_found(
    world: WorldGrid,
    items: Seq<Seq<char>>,
    start: (usize, usize),
    goal: (usize, usize),
) -> Option<Seq<(usize, usize)>> {
    let n = choose|n: nat| is_over(goal, #[trigger] after_steps(world, items, start, goal, n));
    let end = after_steps(world, items, start, goal, n);
    if !may_enter(world, items, goal) || end.open.len() == 0 {
        None
    } else {
        Some(choose|path: Seq<(usize, usize)>| is_traced(world, end.prev, start, goal, path))
    }
}

/// The tiles of a route, where there is one.
pub open spec fn tiles_of(path: Option<Vec<(usize, usize)>>) -> Option<Seq<(usize, usize)>> {
    match path {
        Some(p) => Some(p@),
        None => None,
    }
}

/// Once it is over, a search stays as it is.
proof fn lemma_over_stays(
    world: WorldGrid,
    items: Seq<Seq<char>>,
    start: (usize, usize),
    goal: (usize, usize),
    n: nat,
    later: nat,
)
    requires
        n <= later,
        is_over(goal, after_steps(world, items, start, goal, n)),
    ensures
        after_steps(world, items, start, goal, later) == after_steps(world, items, start, goal, n),
    decreases later - n,
{
    if n < later {
        lemma_over_stays(world, items, start, goal, n, (later - 1) as nat);
    }
}

/// Only one path leads along the predecessors.
proof fn lemma_traced_once(
    world: WorldGrid,
    prev: Seq<Option<(usize, usize)>>,
    start: (usize, usize),
    goal: (usize, usize),
    a: Seq<(usize, usize)>,
    b: Seq<(usize, usize)>,
)
    requires
        is_traced(world, prev, start, goal, a),
        is_traced(world, prev, start, goal, b),
        a.len() <= b.len(),
    ensures
        a == b,
{
    reveal(follows);
    let more = b.len() - a.len();
    lemma_traced_alike(world, prev, start, goal, a, b, 0);
    assert(b[more] == a[0]);
    assert(more == 0);
    assert forall|i: int| 0 <= i < a.len() implies a[i] == b[i] by {
        lemma_traced_alike(world, prev, start, goal, a, b, i);
    }
    assert(a =~= b);
}

proof fn lemma_traced_alike(
    world: WorldGrid,
    prev: Seq<Option<(usize, usize)>>,
    start: (usize, usize),
    goal: (usize, usize),
    a: Seq<(usize, usize)>,
    b: Seq<(usize, usize)>,
    i: int,
)
    requires
        is_traced(world, prev, start, goal, a),
        is_traced(world, prev, start, goal, b),
        0 <= i < a.len() <= b.len(),
    ensures
        a[i] == b[i + b.len() - a.len()],
    decreases a.len() - i,
{
    reveal(follows);
    if i < a.len() - 1 {
        lemma_traced_alike(world, prev, start, goal, a, b, i + 1);
        let j = i + 1 + b.len() - a.len();
        assert(a[i + 1] != start && prev[slot_of(world, a[i + 1])] == Some(a[i + 1 - 1]));
        assert(b[j] != start && prev[slot_of(world, b[j])] == Some(b[j - 1]));
    }
}

/// A search that is over gives the answer.
proof fn lemma_route_found(
    world: WorldGrid,
    items: Seq<Seq<char>>,
    start: (usize, usize),
    goal: (usize, usize),
    n: nat,
    path: Option<Seq<(usize, usize)>>,
)
    requires
        may_enter(world, items, goal),
        ({
            let end = after_steps(world, items, start, goal, n);
            match path {
                Some(p) => {
                    &&& end.open.len() > 0
                    &&& end.open[0].pos == goal
                    &&& is_traced(world, end.prev, start, goal, p)
                },
                None => end.open.len() == 0,
            }
        }),
    ensures
        route_found(world, items, start, goal) == path,
{
    let end = after_steps(world, items, start, goal, n);
    assert(is_over(goal, after_steps(world, items, start, goal, n)));
    let m = choose|m: nat| is_over(goal, #[trigger] after_steps(world, items, start, goal, m));
    if m <= n {
        lemma_over_stays(world, items, start, goal, m, n);
    } else {
        lemma_over_stays(world, items, start, goal, n, m);
    }
    if path is Some {
        let p = path->0;
        let q = choose|q: Seq<(usize, usize)>| is_traced(world, end.prev, start, goal, q);
        if p.len() <= q.len() {
            lemma_traced_once(world, end.prev, start, goal, p, q);
        } else {
            lemma_traced_once(world, end.prev, start, goal, q, p);
        }
    }
}

/// Meters per step that the search counts on.
fn heuristic(a: (usize, usize), b: (usize, usize)) -> (h: u32)
    requires
        a.0 + b.0 + a.1 + b.1 <= u32::MAX,
        super::search::manhattan(a, b) * 100 <= u32::MAX,
    ensures
        h == estimate(a, b),
{
    let dx: usize = if a.0 >= b.0 {
        a.0 - b.0
    } else {
        b.0 - a.0
    };
    let dy: usize = if a.1 >= b.1 {
        a.1 - b.1
    } else {
        b.1 - a.1
    };
    (dx + dy) as u32 * 100
}

/// The four tiles around a tile; beyond the left and top edge they wrap
/// around to coordinates that no map has.
fn neighbors(x: usize, y: usize) -> (around: [(usize, usize); 4])
    requires
        x < usize::MAX,
        y < usize::MAX,
    ensures
        around@[0] == ((if x == 0 { usize::MAX } else { (x - 1) as usize }), y),
        around@[1] == ((x + 1) as usize, y),
        around@[2] == (x, (if y == 0 { usize::MAX } else { (y - 1) as usize })),
        around@[3] == (x, (y + 1) as usize),
{
    [(x.wrapping_sub(1), y), (x + 1, y), (x, y.wrapping_sub(1)), (x, y + 1)]
}

pub(crate) fn reversed(tiles: &Vec<(usize, usize)>) -> (out: Vec<(usize, usize)>)
    ensures
        out@ == tiles@.reverse(),
{
    let mut out: Vec<(usize, usize)> = Vec::new();
    let mut left: usize = tiles.len();
    while left > 0
        invariant
            left <= tiles.len(),
            out.len() == tiles.len() - left,
            forall|i: int| 0 <= i < out.len() ==> out@[i] == tiles@[tiles.len() - 1 - i],
        decreases left,
    {
        left = left - 1;
        out.push(tiles[left]);
    }
    assert(out@ =~= tiles@.reverse());
    out
}

/// Follows the chain of predecessors from the goal back to the start.
fn walk_back(
    world: &WorldGrid,
    Ghost(items): Ghost<Seq<Seq<char>>>,
    start: (usize, usize),
    goal: (usize, usize),
    Ghost(dist): Ghost<Seq<u32>>,
    prev: &Vec<Option<(usize, usize)>>,
) -> (path: Vec<(usize, usize)>)
    requires
        world.wf(),
        chained(*world, items, start, dist, prev@),
        on_map(*world, goal),
        dist[slot_of(*world, goal)] < u32::MAX,
    ensures
        is_route(*world, items, start, goal, path@),
        route_cost(*world, path@) <= dist[slot_of(*world, goal)],
        is_traced(*world, prev@, start, goal, path@),
{
    let ghost open_tiles = enterable(*world, items);
    let ghost cost = tile_costs(*world);
    let mut path: Vec<(usize, usize)> = Vec::new();
    path.push(goal);
    let mut cur = goal;
    assert(path@.reverse() =~= seq![goal]);
    assert(super::search::walk_cost(seq![goal], cost) == 0);
    assert(follows(*world, prev@, start, seq![goal])) by {
        reveal(follows);
    }
    while cur.0 != start.0 || cur.1 != start.1
        invariant
            world.wf(),
            chained(*world, items, start, dist, prev@),
            on_map(*world, cur),
            open_tiles == enterable(*world, items),
            cost == tile_costs(*world),
            path.len() > 0,
            super::search::is_walk_between(path@.reverse(), open_tiles, cur, goal),
            follows(*world, prev@, start, path@.reverse()),
            super::search::walk_cost(path@.reverse(), cost) + dist[slot_of(*world, cur)]
                <= dist[slot_of(*world, goal)] < u32::MAX,
        decreases dist[slot_of(*world, cur)],
    {
        proof {
            lemma_slots_differ(*world, cur, cur);
            super::walking_cost_bounds(world.terrain_at(cur.0 as int, cur.1 as int));
        }
        let slot: usize = world.map.slot(cur.0, cur.1);
        match prev[slot] {
            Some(p) => {
                let ghost walked = path@.reverse();
                path.push(p);
                proof {
                    super::search::lemma_walk_prepend(walked, open_tiles, cost, p);
                    assert(path@.reverse() =~= seq![p] + walked);
                    assert((seq![p] + walked).last() == walked.last());
                    lemma_follows_prepend(*world, prev@, start, walked, p);
                }
                cur = p;
            },
            None => {
                assert(false);
            },
        }
    }
    reversed(&path)
}

/// Whether a world is small enough to search for routes in.
pub fn can_search(world: &WorldGrid) -> (ok: bool)
    requires
        world.wf(),
    ensures
        ok == estimates_fit(*world),
{
    (world.width as u128 - 1 + world.height as u128 - 1) * 100 <= u32::MAX as u128
}

/// A* pathfinding between two tiles, using movement cost as weight.
pub fn find_path(
    world: &WorldGrid,
    start: (usize, usize),
    goal: (usize, usize),
) -> (path: Option<Vec<(usize, usize)>>)
    requires
        world.wf(),
        estimates_fit(*world),
        world.map.contains(start.0 as int, start.1 as int),
    ensures
        match path {
            Some(p) => may_enter(*world, Seq::empty(), goal) && is_best_route(
                *world,
                Seq::empty(),
                start,
                goal,
                p@,
            ),
            None => !may_enter(*world, Seq::empty(), goal) || no_route(
                *world,
                Seq::empty(),
                start,
                goal,
            ),
        },
        tiles_of(path) == route_found(*world, Seq::empty(), start, goal),
{
    let nothing: Vec<String> = Vec::new();
    assert(crate::text::texts(nothing@) =~= Seq::<Seq<char>>::empty());
    find_path_with_items(world, start, goal, nothing.as_slice())
}

/// Whether a player carrying the items may step on a tile of the map.
fn can_enter(world: &WorldGrid, inventory_ids: &[String], x: usize, y: usize) -> (allowed: bool)
    requires
        world.wf(),
    ensures
        allowed == may_enter(*world, crate::text::texts(inventory_ids@), (x, y)),
{
    if x >= world.width || y >= world.height {
        return false;
    }
    if !world.get(x, y).is_passable() {
        return false;
    }
    let biome = world.map.biome_at(x, y);
    match &world.map.required_items[biome.code() as usize] {
        Some(item) => contains_text(inventory_ids, item.as_str()),
        None => true,
    }
}

/// Offers every neighbour of the node's tile its cost through that tile.
fn expand(
    world: &WorldGrid,
    inventory_ids: &[String],
    Ghost(start): Ghost<(usize, usize)>,
    goal: (usize, usize),
    node: Node,
    dist: &mut Vec<u32>,
    prev: &mut Vec<Option<(usize, usize)>>,
    frontier: &mut Frontier,
)
    requires
        world.wf(),
        estimates_fit(*world),
        on_map(*world, goal),
        on_map(*world, node.pos),
        node.cost < u32::MAX,
        old(dist)@[slot_of(*world, node.pos)] == node.cost,
        old(frontier).wf(),
        search_inv(
            *world,
            crate::text::texts(inventory_ids@),
            start,
            goal,
            old(dist)@,
            old(prev)@,
            old(frontier)@,
            Some(node.pos),
        ),
    ensures
        final(frontier).wf(),
        search_inv(
            *world,
            crate::text::texts(inventory_ids@),
            start,
            goal,
            final(dist)@,
            final(prev)@,
            final(frontier)@,
            None,
        ),
        total(final(dist)@) < total(old(dist)@) || (total(final(dist)@) == total(old(dist)@)
            && final(frontier)@.len() <= old(frontier)@.len()),
        (Search { dist: final(dist)@, prev: final(prev)@, open: final(frontier).order() })
            == expanded(
            *world,
            crate::text::texts(inventory_ids@),
            goal,
            node,
            (Search { dist: old(dist)@, prev: old(prev)@, open: old(frontier).order() }),
            4,
        ),
{
    let ghost items = crate::text::texts(inventory_ids@);
    let ghost total_before = total(dist@);
    let ghost len_before = frontier@.len();
    let ghost begun = Search { dist: dist@, prev: prev@, open: frontier.order() };
    let pos = node.pos;
    proof {
        lemma_slots_differ(*world, pos, goal);
    }
    let around = neighbors(pos.0, pos.1);
    let mut k: usize = 0;
    while k < 4
        invariant
            k <= 4,
            world.wf(),
            estimates_fit(*world),
            on_map(*world, goal),
            on_map(*world, pos),
            pos == node.pos,
            node.cost < u32::MAX,
            items == crate::text::texts(inventory_ids@),
            frontier.wf(),
            search_inv(*world, items, start, goal, dist@, prev@, frontier@, Some(pos)),
            dist@[slot_of(*world, pos)] == node.cost,
            (Search { dist: dist@, prev: prev@, open: frontier.order() }) == expanded(
                *world,
                items,
                goal,
                node,
                begun,
                k as int,
            ),
            total(dist@) < total_before || (total(dist@) == total_before && frontier@.len()
                <= len_before),
            around@[0] == (
                (if pos.0 == 0 { usize::MAX } else { (pos.0 - 1) as usize }),
                pos.1,
            ),
            around@[1] == ((pos.0 + 1) as usize, pos.1),
            around@[2] == (
                pos.0,
                (if pos.1 == 0 { usize::MAX } else { (pos.1 - 1) as usize }),
            ),
            around@[3] == (pos.0, (pos.1 + 1) as usize),
            forall|j: int|
                0 <= j < k && may_enter(*world, items, #[trigger] around@[j]) && node.cost
                    + tile_costs(*world)(around@[j]) < u32::MAX ==> dist@[slot_of(
                    *world,
                    around@[j],
                )] <= node.cost + tile_costs(*world)(around@[j]),
        decreases 4 - k,
    {
        let (nx, ny) = around[k];
        assert(around_tile(pos, k as int) == (nx, ny));
        if can_enter(world, inventory_ids, nx, ny) {
            proof {
                assert(super::search::adjacent(pos, (nx, ny)));
                lemma_slots_differ(*world, (nx, ny), pos);
                lemma_slots_differ(*world, pos, (nx, ny));
                super::walking_cost_bounds(world.terrain_at(nx as int, ny as int));
            }
            let move_cost: u32 = world.get(nx, ny).movement_cost();
            let new_cost: u32 = node.cost.saturating_add(move_cost);
            let slot: usize = world.map.slot(nx, ny);
            if new_cost < dist[slot] {
                let ghost dist_before = dist@;
                let ghost prev_before = prev@;
                let ghost frontier_before = frontier@;
                dist.set(slot, new_cost);
                prev.set(slot, Some(pos));
                let found = Node {
                    cost: new_cost,
                    heuristic: heuristic((nx, ny), goal),
                    pos: (nx, ny),
                };
                frontier.push(found);
                proof {
                    lemma_total_update(dist_before, slot as int, new_cost);
                    lemma_improved(
                        *world,
                        items,
                        start,
                        goal,
                        dist_before,
                        prev_before,
                        frontier_before,
                        pos,
                        (nx, ny),
                        new_cost,
                    );
                    assert forall|j: int|
                        0 <= j < k && may_enter(*world, items, #[trigger] around@[j])
                            && node.cost + tile_costs(*world)(around@[j])
                            < u32::MAX implies dist@[slot_of(*world, around@[j])] <= node.cost
                        + tile_costs(*world)(around@[j]) by {
                        lemma_slots_differ(*world, around@[j], (nx, ny));
                    }
                }
            }
        }
        k = k + 1;
    }
    proof {
        lemma_expanded(*world, items, start, goal, dist@, prev@, frontier@, pos);
    }
}

/// A* pathfinding for a player who carries the given items. Tiles whose biome
/// demands an item that is missing are blocked. The path takes the fewest
/// meters; there is none where the goal itself is barred or where every way
/// is blocked.
pub fn find_path_with_items(
    world: &WorldGrid,
    start: (usize, usize),
    goal: (usize, usize),
    inventory_ids: &[String],
) -> (path: Option<Vec<(usize, usize)>>)
    requires
        world.wf(),
        estimates_fit(*world),
        world.map.contains(start.0 as int, start.1 as int),
    ensures
        ({
            let items = crate::text::texts(inventory_ids@);
            match path {
                Some(p) => may_enter(*world, items, goal) && is_best_route(
                    *world,
                    items,
                    start,
                    goal,
                    p@,
                ),
                None => !may_enter(*world, items, goal) || no_route(*world, items, start, goal),
            }
        }),
        tiles_of(path) == route_found(
            *world,
            crate::text::texts(inventory_ids@),
            start,
            goal,
        ),
{
    let ghost items = crate::text::texts(inventory_ids@);
    if !can_enter(world, inventory_ids, goal.0, goal.1) {
        return None;
    }
    let w: usize = world.width;
    let h: usize = world.height;

    let mut dist: Vec<u32> = vec![u32::MAX; w * h];
    let mut prev: Vec<Option<(usize, usize)>> = Vec::new();
    let mut i: usize = 0;
    while i < w * h
        invariant
            w * h <= usize::MAX,
            prev.len() == i,
            i <= w * h,
            forall|j: int| 0 <= j < i ==> #[trigger] prev@[j] == None::<(usize, usize)>,
        decreases w * h - i,
    {
        prev.push(None);
        i = i + 1;
    }
    let mut frontier = Frontier::new();

    proof {
        lemma_slots_differ(*world, start, goal);
    }
    let start_slot: usize = world.map.slot(start.0, start.1);
    dist.set(start_slot, 0);
    let first = Node { cost: 0, heuristic: heuristic(start, goal), pos: start };
    frontier.push(first);
    proof {
        assert forall|t: (usize, usize)| on_map(*world, t) && t != start implies dist@[slot_of(
            *world,
            t,
        )] == u32::MAX by {
            lemma_slots_differ(*world, t, start);
        }
        assert(first == node_of(*world, goal, dist@, start));
        assert(frontier@.contains(first));
        assert forall|n: Node| #[trigger] frontier@.contains(n) implies n == first by {}
        let d = reached(*world, dist@);
        let waiting = queued(*world, goal, dist@, frontier@, None);
        assert(waiting(start));
        assert forall|u: (usize, usize)| #[trigger] d(u) is Some implies u == start by {}
        assert(super::search::relaxed(
            enterable(*world, items),
            tile_costs(*world),
            d,
            waiting,
            u32::MAX as nat,
        ));
        assert(goal != start ==> on_map(*world, goal) && dist@[slot_of(*world, goal)]
            == u32::MAX);
        assert(chained(*world, items, start, dist@, prev@));
        assert(nodes_sound(*world, goal, dist@, frontier@));
        assert(search_inv(*world, items, start, goal, dist@, prev@, frontier@, None));
    }

    let ghost mut n: nat = 0;
    proof {
        let begun = started(*world, start, goal);
        assert(dist@ =~= begun.dist);
        assert(prev@ =~= begun.prev);
    }
    loop
        invariant
            world.wf(),
            w == world.width,
            h == world.height,
            estimates_fit(*world),
            on_map(*world, start),
            on_map(*world, goal),
            items == crate::text::texts(inventory_ids@),
            may_enter(*world, items, goal),
            frontier.wf(),
            search_inv(*world, items, start, goal, dist@, prev@, frontier@, None),
            (Search { dist: dist@, prev: prev@, open: frontier.order() }) == after_steps(
                *world,
                items,
                start,
                goal,
                n,
            ),
        decreases total(dist@), frontier@.len(),
    {
        let ghost open_before = frontier@;
        let node = match frontier.pop() {
            Some(node) => node,
            None => {
                proof {
                    assert forall|other: Seq<(usize, usize)>| #[trigger]
                        is_route(*world, items, start, goal, other) implies route_cost(
                        *world,
                        other,
                    ) >= u32::MAX by {
                        lemma_goal_is_unreachable(
                            *world,
                            items,
                            start,
                            goal,
                            dist@,
                            prev@,
                            other,
                        );
                    }
                    lemma_route_found(*world, items, start, goal, n, None);
                }
                return None;
            },
        };
        let pos = node.pos;
        assert(open_before.contains(node));
        if pos.0 == goal.0 && pos.1 == goal.1 {
            let path = walk_back(world, Ghost(items), start, goal, Ghost(dist@), &prev);
            proof {
                assert forall|other: Seq<(usize, usize)>| #[trigger]
                    is_route(*world, items, start, goal, other) implies route_cost(*world, path@)
                    <= route_cost(*world, other) by {
                    lemma_goal_is_cheapest(
                        *world,
                        items,
                        start,
                        goal,
                        dist@,
                        prev@,
                        open_before,
                        node,
                        other,
                    );
                }
                lemma_route_found(*world, items, start, goal, n, Some(path@));
            }
            return Some(path);
        }
        proof {
            lemma_slots_differ(*world, pos, goal);
        }
        let slot: usize = world.map.slot(pos.0, pos.1);
        proof {
            n = n + 1;
        }
        if node.cost > dist[slot] {
            proof {
                lemma_stale_node(
                    *world,
                    items,
                    start,
                    goal,
                    dist@,
                    prev@,
                    open_before,
                    node,
                );
            }
            continue;
        }
        proof {
            lemma_expanding(*world, items, start, goal, dist@, prev@, open_before, node);
        }
        expand(
            world,
            inventory_ids,
            Ghost(start),
            goal,
            node,
            &mut dist,
            &mut prev,
            &mut frontier,
        );
    }
}

/// Route displayed on screen (for path markers).
#[derive(Debug, Clone)]
pub struct DisplayRoute {
    pub waypoints: Vec<(usize, usize)>,
    /// True if the user just set or cleared the route locally: it is not
    /// overwritten from the server until a poll confirms it.
    pub locally_modified: bool,
}

impl Default for DisplayRoute {
    fn default() -> (route: DisplayRoute)
        ensures
            route.waypoints@.len() == 0,
            !route.locally_modified,
    {
        DisplayRoute { waypoints: Vec::new(), locally_modified: false }
    }
}

/// Where a walker stands on a route.
#[derive(Debug, Clone, Copy, PartialEq, Eq, Structural)]
pub enum RouteSpot {
    /// On the center of the route's tile of that index.
    At(usize),
    /// On the way from a tile of the route to the next: `walked` meters were
    /// used up before the tile, and crossing it takes `cost` meters.
    Between { index: usize, walked: i64, cost: u32 },
}

/// Meters that the server charges for a tile of a route.
pub open spec fn leg_cost(world: WorldGrid, route: Seq<(usize, usize)>, i: int) -> u32 {
    world.server_cost(route[i].0 as int, route[i].1 as int)
}

/// Meters used up by the first `count` tiles of a route.
pub open spec fn meters_before(world: WorldGrid, route: Seq<(usize, usize)>, count: int) -> nat
    decreases count,
{
    if count <= 0 {
        0
    } else {
        meters_before(world, route, count - 1) + leg_cost(world, route, count - 1) as nat
    }
}

/// A walker with that many meters crosses the tile: it can be walked on and
/// the meters suffice.
pub open spec fn crosses(
    world: WorldGrid,
    route: Seq<(usize, usize)>,
    meters: int,
    i: int,
) -> bool {
    leg_cost(world, route, i) < u32::MAX && meters >= meters_before(world, route, i + 1)
}

/// The walker crosses the tiles before `i` and no more; `i` is the route's
/// length where all of it is crossed.
pub open spec fn stops_at(
    world: WorldGrid,
    route: Seq<(usize, usize)>,
    meters: int,
    i: int,
) -> bool {
    &&& 0 <= i <= route.len()
    &&& forall|j: int| 0 <= j < i ==> #[trigger] crosses(world, route, meters, j)
    &&& i < route.len() ==> !crosses(world, route, meters, i)
}

/// Where the walker stands who stopped at `i`.
pub open spec fn spot_at(
    world: WorldGrid,
    route: Seq<(usize, usize)>,
    i: int,
) -> RouteSpot {
    if i >= route.len() {
        RouteSpot::At((route.len() - 1) as usize)
    } else if leg_cost(world, route, i) == u32::MAX || i == route.len() - 1 {
        RouteSpot::At(i as usize)
    } else {
        RouteSpot::Between {
            index: i as usize,
            walked: meters_before(world, route, i) as i64,
            cost: leg_cost(world, route, i),
        }
    }
}

/// First tile that the walker does not cross, and the meters used up before.
fn find_stop(route: &[(usize, usize)], meters: i64, world: &WorldGrid) -> (stop: (usize, i64))
    requires
        world.wf(),
    ensures
        stops_at(*world, route@, meters as int, stop.0 as int),
        stop.1 == meters_before(*world, route@, stop.0 as int),
{
    let mut remaining: i64 = meters;
    let mut i: usize = 0;
    while i < route.len()
        invariant
            world.wf(),
            i <= route.len(),
            remaining == meters - meters_before(*world, route@, i as int),
            i > 0 ==> remaining >= 0,
            forall|j: int| 0 <= j < i ==> #[trigger] crosses(*world, route@, meters as int, j),
        ensures
            i <= route.len(),
            remaining == meters - meters_before(*world, route@, i as int),
            i > 0 ==> remaining >= 0,
            forall|j: int| 0 <= j < i ==> #[trigger] crosses(*world, route@, meters as int, j),
            i < route.len() ==> !crosses(*world, route@, meters as int, i as int),
        decreases route.len() - i,
    {
        let (x, y) = route[i];
        // Server-compatible cost, to stay in sync with the game master.
        let cost: u32 = world.server_tile_cost(x, y);
        if cost == u32::MAX || remaining < cost as i64 {
            break;
        }
        remaining = remaining - cost as i64;
        i = i + 1;
    }
    if i == 0 {
        (0, 0)
    } else {
        (i, meters - remaining)
    }
}

/// Position from a route and the whole meters walked along it: walks through
/// the tiles consuming their costs. `None` only for an empty route.
pub fn position_from_route_meters(
    route: &[(usize, usize)],
    meters: i64,
    world: &WorldGrid,
) -> (spot: Option<RouteSpot>)
    requires
        world.wf(),
    ensures
        spot is None <==> route@.len() == 0,
        spot matches Some(s) ==> exists|i: int| #[trigger]
            stops_at(*world, route@, meters as int, i) && s == spot_at(*world, route@, i),
{
    match position_and_index_from_route_meters(route, meters, world) {
        Some((spot, _)) => Some(spot),
        None => None,
    }
}

/// Position and route index from a route and the whole meters walked.
pub fn position_and_index_from_route_meters(
    route: &[(usize, usize)],
    meters: i64,
    world: &WorldGrid,
) -> (spot: Option<(RouteSpot, usize)>)
    requires
        world.wf(),
    ensures
        spot is None <==> route@.len() == 0,
        spot matches Some(s) ==> exists|i: int| #[trigger]
            stops_at(*world, route@, meters as int, i) && s.0 == spot_at(*world, route@, i) && s.1
                == (if i < route@.len() {
                i
            } else {
                route@.len() - 1
            }),
{
    if route.len() == 0 {
        return None;
    }
    let (stop, walked) = find_stop(route, meters, world);
    if stop >= route.len() {
        // Past the end of the route: the last tile.
        return Some((RouteSpot::At(route.len() - 1), route.len() - 1));
    }
    let cost: u32 = world.server_tile_cost(route[stop].0, route[stop].1);
    if cost == u32::MAX || stop == route.len() - 1 {
        Some((RouteSpot::At(stop), stop))
    } else {
        Some((RouteSpot::Between { index: stop, walked, cost }, stop))
    }
}

/// Find which tile index in a route corresponds to the whole meters walked.
pub fn tile_index_from_meters(
    route: &[(usize, usize)],
    meters: i64,
    world: &WorldGrid,
) -> (index: usize)
    requires
        world.wf(),
    ensures
        exists|i: int| #[trigger]
            stops_at(*world, route@, meters as int, i) && index == (if i < route@.len() {
                i
            } else if route@.len() == 0 {
                0
            } else {
                route@.len() - 1
            }),
{
    let (stop, _) = find_stop(route, meters, world);
    if stop < route.len() {
        stop
    } else {
        route.len().saturating_sub(1)
    }
}

/// A walker stops at one place only, and never further back with more meters.
pub proof fn stop_moves_forward(
    world: WorldGrid,
    route: Seq<(usize, usize)>,
    less: int,
    more: int,
    i: int,
    j: int,
)
    requires
        less <= more,
        stops_at(world, route, less, i),
        stops_at(world, route, more, j),
    ensures
        i <= j,
        less == more ==> i == j,
{
    if j < i {
        assert(crosses(world, route, less, j));
        assert(crosses(world, route, more, j));
    }
    if less == more && i < j {
        assert(crosses(world, route, more, i));
    }
}

/// An impassable tile is never crossed, however far one has walked.
pub proof fn impassable_tile_stops(
    world: WorldGrid,
    route: Seq<(usize, usize)>,
    meters: int,
    i: int,
    wall: int,
)
    requires
        stops_at(world, route, meters, i),
        0 <= wall < route.len(),
        leg_cost(world, route, wall) == u32::MAX,
    ensures
        i <= wall,
{
    if wall < i {
        assert(crosses(world, route, meters, wall));
    }
}

/// Carrying more never closes a way: whatever could be walked can still be
/// walked, and the best route takes no more meters.
pub proof fn more_items_never_close_a_way(
    world: WorldGrid,
    items: Seq<Seq<char>>,
    more: Seq<Seq<char>>,
    start: (usize, usize),
    goal: (usize, usize),
)
    requires
        forall|item: Seq<char>| items.contains(item) ==> more.contains(item),
    ensures
        forall|tile: (usize, usize)| #[trigger]
            may_enter(world, items, tile) ==> may_enter(world, more, tile),
        forall|path: Seq<(usize, usize)>| #[trigger]
            is_route(world, items, start, goal, path) ==> is_route(world, more, start, goal, path),
        forall|path: Seq<(usize, usize)>, better: Seq<(usize, usize)>|
            is_best_route(world, items, start, goal, path) && is_best_route(
                world,
                more,
                start,
                goal,
                better,
            ) ==> #[trigger] route_cost(world, better) <= #[trigger] route_cost(world, path),
        forall|path: Seq<(usize, usize)>| #[trigger]
            is_best_route(world, items, start, goal, path) ==> !no_route(world, more, start, goal),
        no_route(world, more, start, goal) ==> no_route(world, items, start, goal),
{
    assert forall|path: Seq<(usize, usize)>| #[trigger]
        is_route(world, items, start, goal, path) implies is_route(
        world,
        more,
        start,
        goal,
        path,
    ) by {
        let open = enterable(world, items);
        let wider = enterable(world, more);
        assert forall|i: int| 0 < i < path.len() implies super::search::adjacent(
            path[i - 1],
            #[trigger] path[i],
        ) && wider(path[i]) by {
            assert(open(path[i]));
        }
    }
    assert forall|other: Seq<(usize, usize)>|
        no_route(world, more, start, goal) && #[trigger] is_route(
            world,
            items,
            start,
            goal,
            other,
        ) implies route_cost(world, other) >= u32::MAX by {
        assert(is_route(world, more, start, goal, other));
    }
}

/// Searching with an empty inventory is the plain search: both give the very
/// same route.
pub proof fn empty_inventory_is_the_plain_search(
    world: WorldGrid,
    inventory_ids: Seq<String>,
    start: (usize, usize),
    goal: (usize, usize),
)
    requires
        inventory_ids.len() == 0,
    ensures
        route_found(world, crate::text::texts(inventory_ids), start, goal) == route_found(
            world,
            Seq::empty(),
            start,
            goal,
        ),
{
    assert(crate::text::texts(inventory_ids) =~= Seq::<Seq<char>>::empty());
}

/// A best route enters no tile twice, nor comes back to its start.
pub proof fn best_route_visits_no_tile_twice(
    world: WorldGrid,
    items: Seq<Seq<char>>,
    start: (usize, usize),
    goal: (usize, usize),
    path: Seq<(usize, usize)>,
)
    requires
        is_best_route(world, items, start, goal, path),
    ensures
        path.no_duplicates(),
{
    let open = enterable(world, items);
    let cost = tile_costs(world);
    assert forall|t: (usize, usize)| open(t) implies #[trigger] cost(t) >= 1 by {
        super::walking_cost_bounds(world.terrain_at(t.0 as int, t.1 as int));
    }
    assert forall|i: int, j: int| 0 <= i < j < path.len() implies path[i] != path[j] by {
        if path[i] == path[j] {
            super::search::lemma_cut_round_trip(path, open, cost, i, j);
            let cut = path.take(i + 1) + path.skip(j + 1);
            assert(is_route(world, items, start, goal, cut));
        }
    }
}

/// A route costs the meters of the tiles it enters, one by one; standing still
/// costs nothing.
pub proof fn every_step_costs_its_tile(
    world: WorldGrid,
    path: Seq<(usize, usize)>,
    tile: (usize, usize),
)
    requires
        path.len() > 0,
    ensures
        route_cost(world, seq![tile]) == 0,
        route_cost(world, path.push(tile)) == route_cost(world, path) + super::terrain_cost(
            world.terrain_at(tile.0 as int, tile.1 as int),
        ),
{
    assert(path.push(tile).drop_last() =~= path);
}

/// Over bare ground of one kind a route takes that ground's meters for each
/// step: 100 on road, 200 on grass, 250 on sand, 350 on snow, 500 in a swamp,
/// 600 on rock and 800 on lava.
pub proof fn even_ground_takes_its_meters(
    world: WorldGrid,
    path: Seq<(usize, usize)>,
    ground: super::Ground,
)
    requires
        path.len() > 0,
        ground != super::Ground::Water,
        forall|i: int|
            0 < i < path.len() ==> {
                let terrain = world.terrain_at(
                    (#[trigger] path[i]).0 as int,
                    path[i].1 as int,
                );
                terrain.ground == ground && terrain.overlay is None
            },
    ensures
        ({
            let steps = path.len() - 1;
            &&& ground == super::Ground::Road ==> route_cost(world, path) == 100 * steps
            &&& ground == super::Ground::Grass ==> route_cost(world, path) == 200 * steps
            &&& ground == super::Ground::Sand ==> route_cost(world, path) == 250 * steps
            &&& ground == super::Ground::Snow ==> route_cost(world, path) == 350 * steps
            &&& ground == super::Ground::Swamp ==> route_cost(world, path) == 500 * steps
            &&& ground == super::Ground::Mountain ==> route_cost(world, path) == 600 * steps
            &&& ground == super::Ground::Lava ==> route_cost(world, path) == 800 * steps
        }),
    decreases path.len(),
{
    if path.len() > 1 {
        let shorter = path.drop_last();
        assert forall|i: int| 0 < i < shorter.len() implies {
            let terrain = world.terrain_at(
                (#[trigger] shorter[i]).0 as int,
                shorter[i].1 as int,
            );
            terrain.ground == ground && terrain.overlay is None
        } by {
            assert(shorter[i] == path[i]);
        }
        even_ground_takes_its_meters(world, shorter, ground);
        assert(path[path.len() - 1] == path.last());
        every_step_costs_its_tile(world, shorter, path.last());
        assert(shorter.push(path.last()) =~= path);
    }
}

/// A player may enter exactly the tiles of the map that are not open water and
/// whose biome demands nothing or something that is carried.
pub proof fn who_may_enter(world: WorldGrid, items: Seq<Seq<char>>, tile: (usize, usize))
    requires
        world.wf(),
    ensures
        may_enter(world, items, tile) <==> {
            &&& tile.0 < world.width
            &&& tile.1 < world.height
            &&& {
                let cell = world.cells@[tile.1 as int]@[tile.0 as int];
                cell.ground != super::Ground::Water || cell.overlay == Some(super::Overlay::Bridge)
            }
            &&& {
                let biome = world.map.biomes@[tile.1 * world.width + tile.0];
                let demanded = world.map.required_items@[super::world_map::biome_code(
                    biome,
                ) as int];
                demanded is None || items.contains(demanded->0@)
            }
        },
{
}

/// A route is exactly a row of tiles from start to goal, each one step to the
/// left, right, up or down of the one before, of which all but the first may
/// be entered.
pub proof fn what_a_route_is(
    world: WorldGrid,
    items: Seq<Seq<char>>,
    start: (usize, usize),
    goal: (usize, usize),
    path: Seq<(usize, usize)>,
)
    ensures
        is_route(world, items, start, goal, path) <==> {
            &&& path.len() > 0
            &&& path[0] == start
            &&& path[path.len() - 1] == goal
            &&& forall|i: int|
                0 < i < path.len() ==> {
                    let dx = (#[trigger] path[i]).0 - path[i - 1].0;
                    let dy = path[i].1 - path[i - 1].1;
                    &&& (dx == 0 && (dy == 1 || dy == -1)) || (dy == 0 && (dx == 1 || dx == -1))
                    &&& may_enter(world, items, path[i])
                }
        },
{
    let open = enterable(world, items);
    if is_route(world, items, start, goal, path) {
        assert forall|i: int| 0 < i < path.len() implies {
            let dx = (#[trigger] path[i]).0 - path[i - 1].0;
            let dy = path[i].1 - path[i - 1].1;
            &&& (dx == 0 && (dy == 1 || dy == -1)) || (dy == 0 && (dx == 1 || dx == -1))
            &&& may_enter(world, items, path[i])
        } by {
            assert(super::search::adjacent(path[i - 1], path[i]) && open(path[i]));
        }
    } else if path.len() > 0 && path[0] == start && path[path.len() - 1] == goal {
        let i = choose|i: int|
            0 < i < path.len() && !(super::search::adjacent(path[i - 1], #[trigger] path[i]) && open(
                path[i],
            ));
        assert(0 < i < path.len() && !(super::search::adjacent(path[i - 1], path[i]) && open(
            path[i],
        )));
    }
}

/// Nothing beats a best route, and where there is said to be none, every row of
/// tiles that leads there is too long to be counted.
pub proof fn nothing_beats_a_best_route(
    world: WorldGrid,
    items: Seq<Seq<char>>,
    start: (usize, usize),
    goal: (usize, usize),
    best: Seq<(usize, usize)>,
    other: Seq<(usize, usize)>,
)
    requires
        is_route(world, items, start, goal, other),
    ensures
        is_best_route(world, items, start, goal, best) ==> is_route(
            world,
            items,
            start,
            goal,
            best,
        ) && route_cost(world, best) <= route_cost(world, other) && route_cost(world, best)
            < u32::MAX,
        no_route(world, items, start, goal) ==> route_cost(world, other) >= u32::MAX,
{
}

/// The meters before a tile are those of the first tile and those before it on
/// the rest of the route.
pub proof fn lemma_meters_behind_first(
    world: WorldGrid,
    route: Seq<(usize, usize)>,
    count: int,
)
    requires
        0 <= count < route.len(),
    ensures
        meters_before(world, route, count + 1) == leg_cost(world, route, 0) as nat + meters_before(
            world,
            route.drop_first(),
            count,
        ),
    decreases count,
{
    if count > 0 {
        lemma_meters_behind_first(world, route, count - 1);
        assert(route.drop_first()[count - 1] == route[count]);
    } else {
        assert(meters_before(world, route, 0) == 0);
    }
}

/// A walker who has fewer meters than the server charges for the first tile,
/// or finds it closed, has not left it; anybody else walks the rest of the
/// route with what is left after that charge. So each tile uses up what the
/// server's table says of it, no more and no less.
pub proof fn each_tile_uses_up_its_charge(
    world: WorldGrid,
    route: Seq<(usize, usize)>,
    meters: int,
    i: int,
)
    requires
        world.wf(),
        route.len() > 0,
        world.map.contains(route[0].0 as int, route[0].1 as int),
        stops_at(world, route, meters, i),
    ensures
        ({
            let charge = world.map.step_costs@[route[0].1 * world.width + route[0].0];
            if charge == u32::MAX || meters < charge {
                i == 0
            } else {
                i > 0 && stops_at(world, route.drop_first(), meters - charge, i - 1)
            }
        }),
{
    let charge = leg_cost(world, route, 0);
    let rest = route.drop_first();
    assert(meters_before(world, route, 0) == 0);
    assert(meters_before(world, route, 1) == charge);
    if charge == u32::MAX || meters < charge {
        if i > 0 {
            assert(crosses(world, route, meters, 0));
        }
    } else {
        assert(crosses(world, route, meters, 0));
        assert forall|j: int| 0 <= j < rest.len() implies #[trigger] crosses(
            world,
            rest,
            meters - charge,
            j,
        ) == crosses(world, route, meters, j + 1) by {
            lemma_meters_behind_first(world, route, j + 1);
            assert(rest[j] == route[j + 1]);
        }
        assert forall|j: int| 0 <= j < i - 1 implies #[trigger] crosses(
            world,
            rest,
            meters - charge,
            j,
        ) by {
            assert(crosses(world, route, meters, j + 1));
        }
    }
}

/// A walker stands on the tile where they stopped: on its center where the
/// route ends or the tile is closed, else on the way to the next one, with the
/// meters used up before and the server's charge for it around what was
/// walked.
pub proof fn walkers_stand_where_they_stopped(
    world: WorldGrid,
    route: Seq<(usize, usize)>,
    meters: int,
    i: int,
)
    requires
        world.wf(),
        0 < route.len() <= usize::MAX,
        meters <= i64::MAX,
        stops_at(world, route, meters, i),
        forall|k: int|
            0 <= k < route.len() ==> world.map.contains(
                (#[trigger] route[k]).0 as int,
                route[k].1 as int,
            ),
    ensures
        i == route.len() ==> spot_at(world, route, i) == RouteSpot::At((route.len() - 1) as usize),
        i < route.len() ==> {
            let charge = world.map.step_costs@[route[i].1 * world.width + route[i].0];
            match spot_at(world, route, i) {
                RouteSpot::At(k) => k == i && (charge == u32::MAX || i == route.len() - 1),
                RouteSpot::Between { index, walked, cost } => {
                    &&& index == i
                    &&& cost == charge
                    &&& charge < u32::MAX
                    &&& i < route.len() - 1
                    &&& i > 0 ==> 0 <= walked <= meters
                    &&& i == 0 ==> walked == 0
                    &&& meters < walked + cost
                },
            }
        },
{
    assert(meters_before(world, route, 0) == 0);
    if i < route.len() {
        assert(world.map.contains(route[i].0 as int, route[i].1 as int));
        if i > 0 {
            assert(crosses(world, route, meters, i - 1));
        }
        assert(!crosses(world, route, meters, i));
    }
}

} // verus!
