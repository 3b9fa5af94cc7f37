//! What a walk over tiles is, what it costs, and the argument by which a
//! search that relaxes every tile it takes finds the cheapest one.

use vstd::prelude::*;

verus! {

/// The tiles share an edge.
pub open spec fn adjacent(a: (usize, usize), b: (usize, usize)) -> bool {
    ||| a.1 == b.1 && (a.0 + 1 == b.0 || b.0 + 1 == a.0)
    ||| a.0 == b.0 && (a.1 + 1 == b.1 || b.1 + 1 == a.1)
}

/// A walk over edge-sharing tiles, of which all but the first must be open.
pub open spec fn is_walk(
    path: Seq<(usize, usize)>,
    open: spec_fn((usize, usize)) -> bool,
) -> bool {
    &&& path.len() > 0
    &&& forall|i: int|
        0 < i < path.len() ==> adjacent(path[i - 1], #[trigger] path[i]) && open(path[i])
}

/// A walk from one tile to another.
pub open spec fn is_walk_between(
    path: Seq<(usize, usize)>,
    open: spec_fn((usize, usize)) -> bool,
    start: (usize, usize),
    goal: (usize, usize),
) -> bool {
    is_walk(path, open) && path[0] == start && path.last() == goal
}

/// Sum of the costs of the tiles entered: all but the first.
pub open spec fn walk_cost(
    path: Seq<(usize, usize)>,
    cost: spec_fn((usize, usize)) -> nat,
) -> nat
    decreases path.len(),
{
    if path.len() <= 1 {
        0
    } else {
        walk_cost(path.drop_last(), cost) + cost(path.last())
    }
}

/// Steps between two tiles when nothing stands in the way.
pub open spec fn manhattan(a: (usize, usize), b: (usize, usize)) -> nat {
    let dx = if a.0 >= b.0 {
        a.0 - b.0
    } else {
        b.0 - a.0
    };
    let dy = if a.1 >= b.1 {
        a.1 - b.1
    } else {
        b.1 - a.1
    };
    (dx + dy) as nat
}

/// Every reached tile that no longer waits has offered its open neighbours
/// their cost through it, where that is below the bound.
pub open spec fn relaxed(
    open: spec_fn((usize, usize)) -> bool,
    cost: spec_fn((usize, usize)) -> nat,
    dist: spec_fn((usize, usize)) -> Option<nat>,
    waiting: spec_fn((usize, usize)) -> bool,
    bound: nat,
) -> bool {
    forall|u: (usize, usize), v: (usize, usize)|
        #![trigger dist(u), adjacent(u, v)]
        dist(u) is Some && !waiting(u) && adjacent(u, v) && open(v) && dist(u)->0 + cost(v) < bound
            ==> dist(v) is Some && dist(v)->0 <= dist(u)->0 + cost(v)
}

/// A waiting tile on the walk, reached no dearer than along the walk.
pub open spec fn waits_on(
    path: Seq<(usize, usize)>,
    cost: spec_fn((usize, usize)) -> nat,
    dist: spec_fn((usize, usize)) -> Option<nat>,
    waiting: spec_fn((usize, usize)) -> bool,
    i: int,
) -> bool {
    &&& 0 <= i < path.len()
    &&& waiting(path[i])
    &&& dist(path[i]) is Some
    &&& dist(path[i])->0 <= walk_cost(path.take(i + 1), cost)
}

/// Along any walk from the start, either the search has reached the end no
/// dearer than the walk does, or some tile of the walk still waits.
pub proof fn lemma_frontier(
    path: Seq<(usize, usize)>,
    open: spec_fn((usize, usize)) -> bool,
    cost: spec_fn((usize, usize)) -> nat,
    dist: spec_fn((usize, usize)) -> Option<nat>,
    waiting: spec_fn((usize, usize)) -> bool,
    bound: nat,
)
    requires
        is_walk(path, open),
        walk_cost(path, cost) < bound,
        dist(path[0]) == Some(0nat),
        relaxed(open, cost, dist, waiting, bound),
    ensures
        (exists|i: int| #[trigger] waits_on(path, cost, dist, waiting, i)) || (dist(path.last())
            is Some && dist(path.last())->0 <= walk_cost(path, cost)),
    decreases path.len(),
{
    if path.len() > 1 {
        let shorter = path.drop_last();
        assert(is_walk(shorter, open)) by {
            assert forall|i: int| 0 < i < shorter.len() implies adjacent(
                shorter[i - 1],
                #[trigger] shorter[i],
            ) && open(shorter[i]) by {
                assert(shorter[i] == path[i]);
            }
        }
        lemma_frontier(shorter, open, cost, dist, waiting, bound);
        if exists|i: int| #[trigger] waits_on(shorter, cost, dist, waiting, i) {
            let i = choose|i: int| #[trigger] waits_on(shorter, cost, dist, waiting, i);
            assert(shorter.take(i + 1) =~= path.take(i + 1));
            assert(waits_on(path, cost, dist, waiting, i));
        } else {
            let u = shorter.last();
            let v = path.last();
            assert(path[path.len() - 1] == v);
            assert(adjacent(u, v) && open(v));
            if waiting(u) {
                assert(shorter.take(shorter.len() as int) =~= shorter);
                assert(waits_on(shorter, cost, dist, waiting, shorter.len() - 1));
            }
        }
    }
}

/// A step changes the distance to any tile by at most one.
pub proof fn lemma_manhattan_step(
    a: (usize, usize),
    b: (usize, usize),
    goal: (usize, usize),
)
    requires
        adjacent(a, b),
    ensures
        manhattan(a, goal) <= manhattan(b, goal) + 1,
{
}

/// Where every tile costs at least `least`, what a walk still costs after its
/// `i`-th tile is at least `least` for each step that the end is away.
pub proof fn lemma_rest_of_walk(
    path: Seq<(usize, usize)>,
    open: spec_fn((usize, usize)) -> bool,
    cost: spec_fn((usize, usize)) -> nat,
    least: nat,
    i: int,
)
    requires
        is_walk(path, open),
        0 <= i < path.len(),
        forall|t: (usize, usize)| open(t) ==> #[trigger] cost(t) >= least,
    ensures
        walk_cost(path.take(i + 1), cost) + least * (path.len() - 1 - i) <= walk_cost(path, cost),
        manhattan(path[i], path.last()) <= path.len() - 1 - i,
    decreases path.len() - i,
{
    if i == path.len() - 1 {
        assert(path.take(i + 1) =~= path);
    } else {
        lemma_rest_of_walk(path, open, cost, least, i + 1);
        let longer = path.take(i + 2);
        assert(longer.drop_last() =~= path.take(i + 1));
        assert(longer.last() == path[i + 1]);
        assert(adjacent(path[i + 1 - 1], path[i + 1]) && open(path[i + 1]));
        lemma_manhattan_step(path[i], path[i + 1], path.last());
        assert(least * (path.len() - 1 - i) == least * (path.len() - 2 - i) + least)
            by (nonlinear_arith);
    }
}

/// Coming from one tile further back.
pub proof fn lemma_walk_prepend(
    path: Seq<(usize, usize)>,
    open: spec_fn((usize, usize)) -> bool,
    cost: spec_fn((usize, usize)) -> nat,
    first: (usize, usize),
)
    requires
        is_walk(path, open),
        adjacent(first, path[0]),
        open(path[0]),
    ensures
        is_walk(seq![first] + path, open),
        walk_cost(seq![first] + path, cost) == cost(path[0]) + walk_cost(path, cost),
    decreases path.len(),
{
    let longer = seq![first] + path;
    assert forall|i: int| 0 < i < longer.len() implies adjacent(longer[i - 1], #[trigger] longer[i])
        && open(longer[i]) by {
        if i > 1 {
            assert(longer[i] == path[i - 1]);
        }
    }
    if path.len() > 1 {
        let shorter = path.drop_last();
        assert(is_walk(shorter, open)) by {
            assert forall|i: int| 0 < i < shorter.len() implies adjacent(
                shorter[i - 1],
                #[trigger] shorter[i],
            ) && open(shorter[i]) by {
                assert(shorter[i] == path[i]);
            }
        }
        lemma_walk_prepend(shorter, open, cost, first);
        assert(longer.drop_last() =~= seq![first] + shorter);
    } else {
        assert(longer.drop_last() =~= seq![first]);
        assert(walk_cost(seq![first], cost) == 0);
    }
}

/// Leaving out a round trip makes a walk cheaper.
pub proof fn lemma_cut_round_trip(
    path: Seq<(usize, usize)>,
    open: spec_fn((usize, usize)) -> bool,
    cost: spec_fn((usize, usize)) -> nat,
    i: int,
    j: int,
)
    requires
        is_walk(path, open),
        0 <= i < j < path.len(),
        path[i] == path[j],
        forall|t: (usize, usize)| open(t) ==> #[trigger] cost(t) >= 1,
    ensures
        ({
            let cut = path.take(i + 1) + path.skip(j + 1);
            &&& is_walk(cut, open)
            &&& cut[0] == path[0]
            &&& cut.last() == path.last()
            &&& walk_cost(cut, cost) < walk_cost(path, cost)
        }),
    decreases path.len(),
{
    let cut = path.take(i + 1) + path.skip(j + 1);
    assert forall|k: int| 0 < k < cut.len() implies adjacent(cut[k - 1], #[trigger] cut[k]) && open(
        cut[k],
    ) by {
        if k <= i {
            assert(cut[k] == path[k]);
        } else {
            assert(cut[k] == path[k - i + j]);
            assert(cut[k - 1] == path[k - i + j - 1]);
        }
    }
    if j == path.len() - 1 {
        assert(cut =~= path.take(i + 1));
        lemma_rest_of_walk(path, open, cost, 1, i);
    } else {
        let shorter = path.drop_last();
        assert(is_walk(shorter, open)) by {
            assert forall|k: int| 0 < k < shorter.len() implies adjacent(
                shorter[k - 1],
                #[trigger] shorter[k],
            ) && open(shorter[k]) by {
                assert(shorter[k] == path[k]);
            }
        }
        lemma_cut_round_trip(shorter, open, cost, i, j);
        assert(cut.drop_last() =~= shorter.take(i + 1) + shorter.skip(j + 1));
    }
}

/// Sharing an edge goes both ways.
pub proof fn lemma_adjacent_both_ways(a: (usize, usize), b: (usize, usize))
    ensures
        adjacent(a, b) == adjacent(b, a),
{
}

/// Two tiles share an edge exactly where one step of one coordinate leads from
/// one to the other, and as many steps as the coordinates differ lie between
/// any two.
pub proof fn steps_between_tiles(a: (usize, usize), b: (usize, usize))
    ensures
        adjacent(a, b) <==> manhattan(a, b) == 1,
        manhattan(a, b) == 0 <==> a == b,
        manhattan(a, b) == manhattan(b, a),
        b.0 >= a.0 && b.1 >= a.1 ==> manhattan(a, b) == (b.0 - a.0) + (b.1 - a.1),
        b.0 >= a.0 && b.1 <= a.1 ==> manhattan(a, b) == (b.0 - a.0) + (a.1 - b.1),
{
}

} // verus!
