//! Bringing what is on screen in line with what should be there.

use vstd::prelude::*;

use crate::text::{contains_text, texts};

verus! {

/// What to take away and what to add.
#[derive(Debug, Clone)]
pub struct Changes {
    /// For each thing on screen: whether to take it away.
    pub remove: Vec<bool>,
    /// For each thing that should be there: whether to add it.
    pub add: Vec<bool>,
}

/// For each id of the first list: whether the second lacks it.
pub open spec fn missing_from(ids: Seq<Seq<char>>, others: Seq<Seq<char>>) -> Seq<bool> {
    ids.map_values(|id: Seq<char>| !others.contains(id))
}

fn missing(ids: &Vec<String>, others: &Vec<String>) -> (flags: Vec<bool>)
    ensures
        flags@ == missing_from(texts(ids@), texts(others@)),
{
    let mut flags: Vec<bool> = Vec::new();
    let mut i: usize = 0;
    while i < ids.len()
        invariant
            i <= ids.len(),
            flags.len() == i,
            forall|j: int|
                0 <= j < i ==> #[trigger] flags@[j] == !texts(others@).contains(ids@[j]@),
        decreases ids.len() - i,
    {
        flags.push(!contains_text(others.as_slice(), ids[i].as_str()));
        i = i + 1;
    }
    assert(flags@ =~= missing_from(texts(ids@), texts(others@)));
    flags
}

/// Takes away what should not be there and adds what is not there yet; what is
/// in both lists is left in place.
pub fn reconcile(on_screen: &Vec<String>, wanted: &Vec<String>) -> (changes: Changes)
    ensures
        changes.remove@ == missing_from(texts(on_screen@), texts(wanted@)),
        changes.add@ == missing_from(texts(wanted@), texts(on_screen@)),
{
    Changes { remove: missing(on_screen, wanted), add: missing(wanted, on_screen) }
}

/// The ids for which a flag is set.
pub open spec fn picked(ids: Seq<Seq<char>>, flags: Seq<bool>) -> Set<Seq<char>> {
    Set::new(|id: Seq<char>| exists|i: int| 0 <= i < ids.len() && #[trigger] ids[i] == id && flags[i])
}

/// Once the changes are made, what is on screen is what should be there, and
/// doing it again changes nothing.
pub proof fn reconciled_matches_what_is_wanted(on_screen: Seq<Seq<char>>, wanted: Seq<Seq<char>>)
    ensures
        on_screen.to_set().difference(
            picked(on_screen, missing_from(on_screen, wanted)),
        ).union(picked(wanted, missing_from(wanted, on_screen))) == wanted.to_set(),
        forall|i: int| 0 <= i < wanted.len() ==> !(#[trigger] missing_from(wanted, wanted)[i]),
{
    let removed = picked(on_screen, missing_from(on_screen, wanted));
    let added = picked(wanted, missing_from(wanted, on_screen));
    let after = on_screen.to_set().difference(removed).union(added);
    assert forall|id: Seq<char>| after.contains(id) == wanted.to_set().contains(id) by {
        if wanted.contains(id) {
            let i = choose|i: int| 0 <= i < wanted.len() && wanted[i] == id;
            assert(wanted[i] == id);
            if on_screen.contains(id) {
                assert(!removed.contains(id)) by {
                    if removed.contains(id) {
                        let k = choose|k: int|
                            0 <= k < on_screen.len() && #[trigger] on_screen[k] == id
                                && missing_from(on_screen, wanted)[k];
                        assert(missing_from(on_screen, wanted)[k] == !wanted.contains(on_screen[k]));
                    }
                }
            } else {
                assert(missing_from(wanted, on_screen)[i]);
                assert(added.contains(id));
            }
        } else {
            if on_screen.contains(id) {
                let k = choose|k: int| 0 <= k < on_screen.len() && on_screen[k] == id;
                assert(missing_from(on_screen, wanted)[k]);
                assert(removed.contains(id));
            }
            if added.contains(id) {
                let i = choose|i: int|
                    0 <= i < wanted.len() && #[trigger] wanted[i] == id
                        && missing_from(wanted, on_screen)[i];
                assert(wanted.contains(id));
            }
        }
    }
    assert(after =~= wanted.to_set());
    assert forall|i: int| 0 <= i < wanted.len() implies !(#[trigger] missing_from(
        wanted,
        wanted,
    )[i]) by {
        assert(wanted.contains(wanted[i]));
    }
}

/// What to do about a layer that can be switched on and off.
#[derive(Debug, Clone, Copy, PartialEq, Eq, Structural)]
pub enum LayerAction {
    Spawn,
    Despawn,
    Keep,
}

/// What is due for a layer.
pub open spec fn layer_step(want: bool, has: bool, ready: bool) -> LayerAction {
    if want == has {
        LayerAction::Keep
    } else if has {
        LayerAction::Despawn
    } else if ready {
        LayerAction::Spawn
    } else {
        LayerAction::Keep
    }
}

/// Brings a layer in line with its switch; it can only be spawned once what it
/// is made of is there.
pub fn manage_layer(want: bool, has: bool, ready: bool) -> (action: LayerAction)
    ensures
        action == layer_step(want, has, ready),
{
    if want == has {
        LayerAction::Keep
    } else if !want {
        LayerAction::Despawn
    } else if ready {
        LayerAction::Spawn
    } else {
        LayerAction::Keep
    }
}

/// A layer is taken away exactly if it is there and not wanted, and made
/// exactly if it is wanted, not there and can be made.
pub proof fn layers_follow_their_switch(want: bool, there: bool, ready: bool)
    ensures
        layer_step(want, there, ready) == LayerAction::Despawn <==> there && !want,
        layer_step(want, there, ready) == LayerAction::Spawn <==> want && !there && ready,
{
}

} // verus!
