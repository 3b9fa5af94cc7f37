//! Priority queue of tiles waiting to be expanded by the path search.

use vstd::multiset::Multiset;
use vstd::prelude::*;
use vstd::seq_lib::{group_to_multiset_ensures, to_multiset_remove};

verus! {

/// A tile reached at some cost, together with the estimate of what is left.
#[derive(Debug, Clone, Copy)]
pub struct Node {
    pub cost: u32,
    pub heuristic: u32,
    pub pos: (usize, usize),
}

/// Estimated total cost through the node; nodes are taken in its order.
pub open spec fn node_key(node: Node) -> int {
    if node.cost + node.heuristic > u32::MAX {
        u32::MAX as int
    } else {
        node.cost + node.heuristic
    }
}

/// Binary min-heap of nodes by estimated total cost.
pub struct Frontier {
    nodes: Vec<Node>,
}

/// The nodes once the one in a place has risen past every parent of a greater
/// key.
spec fn risen(s: Seq<Node>, at: int) -> Seq<Node>
    decreases at,
{
    let up = (at - 1) / 2;
    if at <= 0 || node_key(s[up]) <= node_key(s[at]) {
        s
    } else {
        risen(s.update(up, s[at]).update(at, s[up]), up)
    }
}

/// The place of the child of the lesser key.
spec fn lesser_child(s: Seq<Node>, at: int) -> int {
    let left = 2 * at + 1;
    if left + 1 < s.len() && node_key(s[left + 1]) < node_key(s[left]) {
        left + 1
    } else {
        left
    }
}

/// The nodes once the one in a place has sunk below every child of a lesser
/// key.
spec fn sunk(s: Seq<Node>, at: int) -> Seq<Node>
    decreases s.len() - at,
{
    let least = lesser_child(s, at);
    if at < 0 || at >= s.len() / 2 || node_key(s[at]) <= node_key(s[least]) {
        s
    } else {
        sunk(s.update(at, s[least]).update(least, s[at]), least)
    }
}

/// The nodes of a frontier, in the order in which it keeps them, after a node
/// is added.
pub closed spec fn with_node(s: Seq<Node>, node: Node) -> Seq<Node> {
    risen(s.push(node), s.len() as int)
}

/// The nodes of a frontier after the first one is taken out.
pub closed spec fn without_first(s: Seq<Node>) -> Seq<Node> {
    if s.len() <= 1 {
        Seq::empty()
    } else {
        sunk(s.drop_last().update(0, s.last()), 0)
    }
}

#[verifier::opaque]
spec fn heap_ordered(s: Seq<Node>) -> bool {
    forall|i: int| 0 < i < s.len() ==> node_key(#[trigger] s[i]) >= node_key(s[(i - 1) / 2])
}

/// Ordered but for the edges that touch `at`, around which the order skips a
/// generation.
#[verifier::opaque]
spec fn ordered_around(s: Seq<Node>, at: int) -> bool {
    forall|i: int| 0 < i < s.len() ==> {
        let p = (i - 1) / 2;
        &&& (i != at && p != at) ==> node_key(#[trigger] s[i]) >= node_key(s[p])
        &&& (p == at && at > 0) ==> node_key(s[i]) >= node_key(s[(at - 1) / 2])
    }
}

proof fn lemma_root_is_least(s: Seq<Node>, i: int)
    requires
        heap_ordered(s),
        0 <= i < s.len(),
    ensures
        node_key(s[0]) <= node_key(s[i]),
    decreases i,
{
    reveal(heap_ordered);
    if i > 0 {
        lemma_root_is_least(s, (i - 1) / 2);
    }
}

proof fn lemma_update_to_multiset<A>(s: Seq<A>, i: int, a: A)
    requires
        0 <= i < s.len(),
    ensures
        s.update(i, a).to_multiset() =~= s.to_multiset().remove(s[i]).insert(a),
{
    broadcast use {vstd::multiset::group_multiset_axioms, group_to_multiset_ensures};

    let t = s.update(i, a);
    assert(t.remove(i) =~= s.remove(i));
    to_multiset_remove(t, i);
    to_multiset_remove(s, i);
    assert(t[i] == a);
    assert(t.contains(a));
    assert(t.to_multiset().count(a) > 0);
    assert(t.to_multiset() =~= t.to_multiset().remove(a).insert(a));
}

proof fn lemma_swap_to_multiset<A>(s: Seq<A>, i: int, j: int)
    requires
        0 <= i < s.len(),
        0 <= j < s.len(),
        i != j,
    ensures
        s.update(i, s[j]).update(j, s[i]).to_multiset() =~= s.to_multiset(),
{
    broadcast use {vstd::multiset::group_multiset_axioms, group_to_multiset_ensures};

    lemma_update_to_multiset(s, i, s[j]);
    lemma_update_to_multiset(s.update(i, s[j]), j, s[i]);
    assert(s.contains(s[i]));
    assert(s.contains(s[j]));
    assert(s.to_multiset().count(s[i]) > 0);
}

/// Where the node fits its parent and its children, the whole is ordered.
proof fn lemma_settled(s: Seq<Node>, at: int)
    requires
        0 <= at < s.len(),
        ordered_around(s, at),
        at > 0 ==> node_key(s[at]) >= node_key(s[(at - 1) / 2]),
        2 * at + 1 < s.len() ==> node_key(s[at]) <= node_key(s[2 * at + 1]),
        2 * at + 2 < s.len() ==> node_key(s[at]) <= node_key(s[2 * at + 2]),
    ensures
        heap_ordered(s),
{
    reveal(heap_ordered);
    reveal(ordered_around);
    assert forall|i: int| 0 < i < s.len() implies node_key(#[trigger] s[i]) >= node_key(
        s[(i - 1) / 2],
    ) by {
        if (i - 1) / 2 == at {
            assert(i == 2 * at + 1 || i == 2 * at + 2);
        }
    }
}

/// Swapping the misplaced node with the lesser of its children moves the
/// misplacement one generation down.
proof fn lemma_sunk_one_level(s: Seq<Node>, at: int, least: int)
    requires
        0 <= at < s.len(),
        least == 2 * at + 1 || least == 2 * at + 2,
        least < s.len(),
        ordered_around(s, at),
        node_key(s[at]) > node_key(s[least]),
        2 * at + 1 < s.len() ==> node_key(s[least]) <= node_key(s[2 * at + 1]),
        2 * at + 2 < s.len() ==> node_key(s[least]) <= node_key(s[2 * at + 2]),
    ensures
        ordered_around(s.update(at, s[least]).update(least, s[at]), least),
        node_key(s.update(at, s[least]).update(least, s[at])[least]) >= node_key(
            s.update(at, s[least]).update(least, s[at])[(least - 1) / 2],
        ),
{
    reveal(ordered_around);
    let t = s.update(at, s[least]).update(least, s[at]);
    assert((least - 1) / 2 == at);
    assert(s[least] == s[least]);
    assert forall|i: int| 0 < i < t.len() implies {
        let p = (i - 1) / 2;
        &&& (i != least && p != least) ==> node_key(#[trigger] t[i]) >= node_key(t[p])
        &&& (p == least && least > 0) ==> node_key(t[i]) >= node_key(t[(least - 1) / 2])
    } by {
        let p = (i - 1) / 2;
        assert(s[i] == s[i]);
        if p == at {
            assert(i == 2 * at + 1 || i == 2 * at + 2);
        }
    }
}

/// Swapping the misplaced node with its greater parent moves the misplacement
/// one generation up, where the node fits its children.
proof fn lemma_raised_one_level(s: Seq<Node>, at: int)
    requires
        0 < at < s.len(),
        ordered_around(s, at),
        2 * at + 1 < s.len() ==> node_key(s[at]) <= node_key(s[2 * at + 1]),
        2 * at + 2 < s.len() ==> node_key(s[at]) <= node_key(s[2 * at + 2]),
        node_key(s[(at - 1) / 2]) > node_key(s[at]),
    ensures
        ({
            let up = (at - 1) / 2;
            let t = s.update(up, s[at]).update(at, s[up]);
            &&& ordered_around(t, up)
            &&& 2 * up + 1 < t.len() ==> node_key(t[up]) <= node_key(t[2 * up + 1])
            &&& 2 * up + 2 < t.len() ==> node_key(t[up]) <= node_key(t[2 * up + 2])
        }),
{
    reveal(ordered_around);
    let up = (at - 1) / 2;
    let t = s.update(up, s[at]).update(at, s[up]);
    assert forall|i: int| 0 < i < t.len() implies {
        let p = (i - 1) / 2;
        &&& (i != up && p != up) ==> node_key(#[trigger] t[i]) >= node_key(t[p])
        &&& (p == up && up > 0) ==> node_key(t[i]) >= node_key(t[(up - 1) / 2])
    } by {
        let p = (i - 1) / 2;
        assert(s[i] == s[i]);
        assert(s[up] == s[up]);
        if p == up {
            assert(i == 2 * up + 1 || i == 2 * up + 2);
        }
        if p == at {
            assert(i == 2 * at + 1 || i == 2 * at + 2);
        }
    }
    if 2 * up + 1 < t.len() {
        assert(s[2 * up + 1] == s[2 * up + 1]);
    }
    if 2 * up + 2 < t.len() {
        assert(s[2 * up + 2] == s[2 * up + 2]);
    }
}

/// A node pushed at the end may only be out of order with its parent.
proof fn lemma_pushed(s: Seq<Node>, node: Node)
    requires
        heap_ordered(s),
    ensures
        ordered_around(s.push(node), s.len() as int),
{
    reveal(heap_ordered);
    reveal(ordered_around);
    let t = s.push(node);
    assert forall|i: int| 0 < i < t.len() implies {
        let p = (i - 1) / 2;
        &&& (i != s.len() && p != s.len()) ==> node_key(#[trigger] t[i]) >= node_key(t[p])
        &&& (p == s.len() && s.len() > 0) ==> node_key(t[i]) >= node_key(t[(s.len() - 1) / 2])
    } by {
        if i < s.len() {
            assert(t[i] == s[i]);
        }
    }
}

/// Putting another node in the root's place leaves order below it.
proof fn lemma_root_replaced(s: Seq<Node>, node: Node)
    requires
        heap_ordered(s),
        s.len() > 1,
    ensures
        ordered_around(s.drop_last().update(0, node), 0),
{
    reveal(heap_ordered);
    reveal(ordered_around);
    let t = s.drop_last().update(0, node);
    assert forall|i: int| 0 < i < t.len() implies {
        let p = (i - 1) / 2;
        &&& (i != 0 && p != 0) ==> node_key(#[trigger] t[i]) >= node_key(t[p])
        &&& (p == 0 && 0 > 0) ==> node_key(t[i]) >= node_key(t[(0 - 1) / 2])
    } by {
        assert(t[i] == s[i]);
    }
}

impl View for Frontier {
    type V = Multiset<Node>;

    closed spec fn view(&self) -> Multiset<Node> {
        self.nodes@.to_multiset()
    }
}

impl Frontier {
    /// Every node's key is at least its parent's.
    pub closed spec fn wf(&self) -> bool {
        heap_ordered(self.nodes@)
    }

    /// The nodes in the order in which they are kept; the first one is taken
    /// next.
    pub closed spec fn order(&self) -> Seq<Node> {
        self.nodes@
    }

    pub fn new() -> (frontier: Frontier)
        ensures
            frontier.wf(),
            frontier@ == Multiset::<Node>::empty(),
            frontier.order() == Seq::<Node>::empty(),
    {
        let frontier = Frontier { nodes: Vec::new() };
        proof {
            reveal(heap_ordered);
            broadcast use {vstd::multiset::group_multiset_axioms, group_to_multiset_ensures};

            assert(frontier.nodes@.len() == 0);
            assert(frontier@.len() == 0);
            vstd::multiset::lemma_multiset_empty_len(frontier@);
        }
        frontier
    }

    fn key(&self, i: usize) -> (key: u32)
        requires
            i < self.nodes.len(),
        ensures
            key == node_key(self.nodes@[i as int]),
    {
        self.nodes[i].cost.saturating_add(self.nodes[i].heuristic)
    }

    /// Adds a node.
    pub fn push(&mut self, node: Node)
        requires
            old(self).wf(),
        ensures
            final(self).wf(),
            final(self)@ == old(self)@.insert(node),
            final(self).order() == with_node(old(self).order(), node),
    {
        let ghost before = self.nodes@;
        self.nodes.push(node);
        proof {
            vstd::seq_lib::to_multiset_build(before, node);
        }
        proof {
            lemma_pushed(before, node);
        }
        let ghost all = self.nodes@.to_multiset();
        let mut at: usize = self.nodes.len() - 1;
        while at > 0
            invariant
                at < self.nodes.len(),
                self.nodes@.to_multiset() == all,
                risen(self.nodes@, at as int) == with_node(before, node),
                ordered_around(self.nodes@, at as int),
                2 * at + 1 < self.nodes.len() ==> node_key(self.nodes@[at as int]) <= node_key(
                    self.nodes@[2 * at + 1],
                ),
                2 * at + 2 < self.nodes.len() ==> node_key(self.nodes@[at as int]) <= node_key(
                    self.nodes@[2 * at + 2],
                ),
            ensures
                at < self.nodes.len(),
                self.nodes@.to_multiset() == all,
                self.nodes@ == with_node(before, node),
                ordered_around(self.nodes@, at as int),
                at > 0 ==> node_key(self.nodes@[at as int]) >= node_key(
                    self.nodes@[(at - 1) / 2],
                ),
                2 * at + 1 < self.nodes.len() ==> node_key(self.nodes@[at as int]) <= node_key(
                    self.nodes@[2 * at + 1],
                ),
                2 * at + 2 < self.nodes.len() ==> node_key(self.nodes@[at as int]) <= node_key(
                    self.nodes@[2 * at + 2],
                ),
            decreases at,
        {
            let parent: usize = (at - 1) / 2;
            if self.key(parent) <= self.key(at) {
                break;
            }
            let ghost prior = self.nodes@;
            let upper = self.nodes[parent];
            let lower = self.nodes[at];
            self.nodes.set(parent, lower);
            self.nodes.set(at, upper);
            proof {
                lemma_swap_to_multiset(prior, parent as int, at as int);
                lemma_raised_one_level(prior, at as int);
            }
            at = parent;
        }
        proof {
            lemma_settled(self.nodes@, at as int);
        }
    }

    /// Lets the root sink to where it belongs.
    fn sift_down(&mut self)
        requires
            old(self).nodes.len() > 0,
            ordered_around(old(self).nodes@, 0),
        ensures
            heap_ordered(final(self).nodes@),
            final(self).nodes@.to_multiset() == old(self).nodes@.to_multiset(),
            final(self).nodes@ == sunk(old(self).nodes@, 0),
    {
        let ghost whole = sunk(self.nodes@, 0);
        let ghost all = self.nodes@.to_multiset();
        let mut at: usize = 0;
        let len: usize = self.nodes.len();
        proof {
            if len < 2 {
                lemma_settled(self.nodes@, 0);
            }
        }
        while at < len / 2
            invariant
                at < self.nodes.len(),
                len == self.nodes.len(),
                self.nodes@.to_multiset() == all,
                sunk(self.nodes@, at as int) == whole,
                ordered_around(self.nodes@, at as int),
                at > 0 ==> node_key(self.nodes@[at as int]) >= node_key(
                    self.nodes@[(at - 1) / 2],
                ),
                at >= len / 2 ==> heap_ordered(self.nodes@),
            ensures
                self.nodes@.to_multiset() == all,
                self.nodes@ == whole,
                heap_ordered(self.nodes@),
            decreases self.nodes.len() - at,
        {
            let left: usize = 2 * at + 1;
            let mut least: usize = left;
            if left + 1 < len && self.key(left + 1) < self.key(left) {
                least = left + 1;
            }
            if self.key(at) <= self.key(least) {
                proof {
                    lemma_settled(self.nodes@, at as int);
                }
                break;
            }
            let ghost prior = self.nodes@;
            let upper = self.nodes[at];
            let lower = self.nodes[least];
            self.nodes.set(at, lower);
            self.nodes.set(least, upper);
            proof {
                lemma_swap_to_multiset(prior, at as int, least as int);
                lemma_sunk_one_level(prior, at as int, least as int);
            }
            at = least;
            proof {
                if at >= len / 2 {
                    lemma_settled(self.nodes@, at as int);
                }
            }
        }
    }

    /// Takes out a node of the least estimated total cost.
    pub fn pop(&mut self) -> (taken: Option<Node>)
        requires
            old(self).wf(),
        ensures
            final(self).wf(),
            match taken {
                Some(node) => {
                    &&& old(self)@.contains(node)
                    &&& final(self)@ == old(self)@.remove(node)
                    &&& old(self).order().len() > 0
                    &&& node == old(self).order()[0]
                    &&& final(self).order() == without_first(old(self).order())
                    &&& forall|other: Node| #[trigger]
                        old(self)@.contains(other) ==> node_key(node) <= node_key(other)
                },
                None => {
                    &&& old(self)@ == Multiset::<Node>::empty() && final(self)@ == old(self)@
                    &&& old(self).order().len() == 0
                },
            },
    {
        broadcast use {vstd::multiset::group_multiset_axioms, group_to_multiset_ensures};

        let ghost before = self.nodes@;
        if self.nodes.len() == 0 {
            proof {
                assert(self@.len() == 0);
                vstd::multiset::lemma_multiset_empty_len(self@);
            }
            return None;
        }
        let first = self.nodes[0];
        proof {
            assert(before.contains(first));
            assert forall|other: Node| before.to_multiset().contains(other) implies node_key(first)
                <= node_key(other) by {
                assert(before.contains(other));
                let i = choose|i: int| 0 <= i < before.len() && before[i] == other;
                lemma_root_is_least(before, i);
            }
        }
        let last = self.nodes[self.nodes.len() - 1];
        let _ = self.nodes.pop();
        proof {
            to_multiset_remove(before, before.len() - 1);
            assert(self.nodes@ =~= before.remove(before.len() - 1));
        }
        if self.nodes.len() == 0 {
            reveal(heap_ordered);
            assert(self.nodes@ =~= Seq::empty());
            return Some(first);
        }
        let ghost shorter = self.nodes@;
        self.nodes.set(0, last);
        proof {
            lemma_update_to_multiset(shorter, 0, last);
            assert(before.to_multiset().remove(last).remove(first).insert(last)
                =~= before.to_multiset().remove(first)) by {
                assert(shorter.contains(first));
                assert(before.contains(last));
                assert(before.to_multiset().remove(last).count(first) > 0);
            }
        }
        proof {
            lemma_root_replaced(before, last);
            assert(self.nodes@ =~= before.drop_last().update(0, last));
        }
        self.sift_down();
        Some(first)
    }
}

/// The key of a node is what it has cost and what is estimated to be left; a
/// sum beyond the largest number counts as that number. A greater cost or
/// estimate never makes a lesser key.
pub proof fn keys_add_cost_and_estimate(node: Node, other: Node)
    ensures
        node.cost + node.heuristic <= u32::MAX ==> node_key(node) == node.cost + node.heuristic,
        node.cost + node.heuristic > u32::MAX ==> node_key(node) == u32::MAX,
        node.cost <= other.cost && node.heuristic <= other.heuristic ==> node_key(node) <= node_key(
            other,
        ),
{
}

} // verus!
