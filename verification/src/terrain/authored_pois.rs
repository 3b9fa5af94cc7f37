//! Landmarks that an adventure authors, merged into the generated map.

use vstd::prelude::*;

use super::world_map::{PointOfInterest, WorldMap};

verus! {

/// The list holds a landmark with that id.
pub open spec fn knows(pois: Seq<PointOfInterest>, id: usize) -> bool {
    exists|i: int| 0 <= i < pois.len() && (#[trigger] pois[i]).id == id
}

/// The landmarks of a list that another does not know.
pub open spec fn unknown_to(
    list: Seq<PointOfInterest>,
    known: Seq<PointOfInterest>,
) -> Seq<PointOfInterest>
    decreases list.len(),
{
    if list.len() == 0 {
        Seq::empty()
    } else if knows(known, list[0].id) {
        unknown_to(list.drop_first(), known)
    } else {
        seq![list[0]] + unknown_to(list.drop_first(), known)
    }
}

fn is_known(pois: &Vec<PointOfInterest>, count: usize, id: usize) -> (known: bool)
    requires
        count <= pois.len(),
    ensures
        known == knows(pois@.take(count as int), id),
{
    let mut i: usize = 0;
    while i < count
        invariant
            i <= count <= pois.len(),
            forall|j: int| 0 <= j < i ==> (#[trigger] pois@.take(count as int)[j]).id != id,
        decreases count - i,
    {
        assert(pois@.take(count as int)[i as int] == pois@[i as int]);
        if pois[i].id == id {
            return true;
        }
        i = i + 1;
    }
    false
}

/// Adds the landmarks of the server's list that the map did not have. Returns
/// the number it had before, from which on the new ones stand.
pub fn merge_pois(map: &mut WorldMap, server_pois: Vec<PointOfInterest>) -> (had: usize)
    ensures
        had == old(map).pois.len(),
        final(map).pois@ == old(map).pois@ + unknown_to(server_pois@, old(map).pois@),
        *final(map) == (WorldMap { pois: final(map).pois, ..*old(map) }),
{
    let had: usize = map.pois.len();
    let mut left = server_pois;
    let ghost known = map.pois@;
    while left.len() > 0
        invariant
            had == known.len(),
            had <= map.pois.len(),
            map.pois@.take(had as int) == known,
            map.pois@ + unknown_to(left@, known) == known + unknown_to(server_pois@, known),
            *map == (WorldMap { pois: map.pois, ..*old(map) }),
        decreases left.len(),
    {
        let ghost rest = left@;
        let ghost before = map.pois@;
        let poi = left.remove(0);
        assert(rest.drop_first() =~= left@);
        if !is_known(&map.pois, had, poi.id) {
            map.pois.push(poi);
            proof {
                assert(map.pois@.take(had as int) =~= known);
                assert(map.pois@ + unknown_to(left@, known) =~= before + (seq![poi] + unknown_to(
                    left@,
                    known,
                )));
            }
        }
    }
    assert(map.pois@ =~= map.pois@ + unknown_to(left@, known));
    had
}

proof fn lemma_unknown_by_id(
    list: Seq<PointOfInterest>,
    known: Seq<PointOfInterest>,
    id: usize,
)
    requires
        knows(list, id),
    ensures
        knows(known, id) || knows(unknown_to(list, known), id),
    decreases list.len(),
{
    let i = choose|i: int| 0 <= i < list.len() && (#[trigger] list[i]).id == id;
    let rest = unknown_to(list.drop_first(), known);
    if i == 0 {
        if !knows(known, id) {
            assert(unknown_to(list, known)[0] == list[0]);
        }
    } else {
        assert(list.drop_first()[i - 1] == list[i]);
        lemma_unknown_by_id(list.drop_first(), known, id);
        if !knows(known, id) {
            let k = choose|k: int| 0 <= k < rest.len() && (#[trigger] rest[k]).id == id;
            if !knows(known, list[0].id) {
                assert(unknown_to(list, known)[k + 1] == rest[k]);
            }
        }
    }
}

proof fn lemma_nothing_unknown(list: Seq<PointOfInterest>, known: Seq<PointOfInterest>)
    requires
        forall|i: int| 0 <= i < list.len() ==> knows(known, (#[trigger] list[i]).id),
    ensures
        unknown_to(list, known) == Seq::<PointOfInterest>::empty(),
    decreases list.len(),
{
    if list.len() > 0 {
        assert(knows(known, list[0].id));
        assert forall|i: int| 0 <= i < list.drop_first().len() implies knows(
            known,
            (#[trigger] list.drop_first()[i]).id,
        ) by {
            assert(list.drop_first()[i] == list[i + 1]);
        }
        lemma_nothing_unknown(list.drop_first(), known);
    }
}

/// Merging the same list again adds nothing.
pub proof fn merging_again_adds_nothing(
    list: Seq<PointOfInterest>,
    known: Seq<PointOfInterest>,
)
    ensures
        unknown_to(list, known + unknown_to(list, known)) == Seq::<PointOfInterest>::empty(),
{
    let merged = known + unknown_to(list, known);
    assert forall|i: int| 0 <= i < list.len() implies knows(merged, (#[trigger] list[i]).id) by {
        let id = list[i].id;
        assert(knows(list, id));
        lemma_unknown_by_id(list, known, id);
        if knows(known, id) {
            let k = choose|k: int| 0 <= k < known.len() && (#[trigger] known[k]).id == id;
            assert(merged[k] == known[k]);
        } else {
            let extra = unknown_to(list, known);
            let k = choose|k: int| 0 <= k < extra.len() && (#[trigger] extra[k]).id == id;
            assert(merged[known.len() + k] == extra[k]);
        }
    }
    lemma_nothing_unknown(list, merged);
}

/// Path of the landmarks of an adventure; nothing is fetched before login.
pub fn authored_pois_path(player_name: &str) -> (path: Option<&'static str>)
    ensures
        path is Some <==> player_name@.len() > 0,
        path matches Some(p) ==> p@ == "/world/pois?adventure_id=chaos"@,
{
    if player_name.is_empty() {
        None
    } else {
        Some("/world/pois?adventure_id=chaos")
    }
}

/// A landmark of the server's list is added exactly where the map had none of
/// its id; those added keep their order.
pub proof fn unknown_landmarks_are_added(
    list: Seq<PointOfInterest>,
    poi: PointOfInterest,
    known: Seq<PointOfInterest>,
)
    ensures
        unknown_to(Seq::empty(), known).len() == 0,
        (forall|i: int| 0 <= i < known.len() ==> (#[trigger] known[i]).id != poi.id) ==> unknown_to(
            seq![poi] + list,
            known,
        ) == seq![poi] + unknown_to(list, known),
        (exists|i: int| 0 <= i < known.len() && (#[trigger] known[i]).id == poi.id) ==> unknown_to(
            seq![poi] + list,
            known,
        ) == unknown_to(list, known),
{
    assert((seq![poi] + list)[0] == poi);
    assert((seq![poi] + list).drop_first() =~= list);
}

} // verus!
