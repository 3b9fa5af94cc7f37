//! Strip of the boons that the player owns, with a tooltip.

use vstd::prelude::*;
use vstd::string::StringExecFns;

use crate::terrain::textures::{image_names, NamedImage};
use crate::text::{copy_texts, same_text, same_texts, texts};

verus! {

/// The boons of a list that have an icon.
pub open spec fn with_icon(boons: Seq<Seq<char>>, icons: Seq<Seq<char>>) -> Seq<Seq<char>>
    decreases boons.len(),
{
    if boons.len() == 0 {
        Seq::empty()
    } else if icons.contains(boons.last()) {
        with_icon(boons.drop_last(), icons).push(boons.last())
    } else {
        with_icon(boons.drop_last(), icons)
    }
}

fn has_icon(icons: &Vec<NamedImage>, id: &str) -> (found: bool)
    ensures
        found == image_names(icons@).contains(id@),
{
    let mut i: usize = 0;
    while i < icons.len()
        invariant
            i <= icons.len(),
            forall|j: int| 0 <= j < i ==> #[trigger] image_names(icons@)[j] != id@,
        decreases icons.len() - i,
    {
        if same_text(icons[i].name.as_str(), id) {
            assert(image_names(icons@)[i as int] == id@);
            return true;
        }
        i = i + 1;
    }
    false
}

/// The chips of the strip when they have to be rebuilt: one for each boon that
/// has an icon under its id. `None` while the boons are those that were shown last.
pub fn rebuild_chips(
    boons: &Vec<String>,
    icons: &Vec<NamedImage>,
    last_owned: &mut Vec<String>,
) -> (chips: Option<Vec<String>>)
    ensures
        texts(final(last_owned)@) == texts(boons@),
        match chips {
            Some(list) => {
                &&& texts(boons@) != texts(old(last_owned)@)
                &&& texts(list@) == with_icon(texts(boons@), image_names(icons@))
            },
            None => texts(boons@) == texts(old(last_owned)@),
        },
{
    if same_texts(boons, last_owned) {
        return None;
    }
    *last_owned = copy_texts(boons);
    let ghost all = texts(boons@);
    let mut chips: Vec<String> = Vec::new();
    let mut i: usize = 0;
    assert(texts(chips@) =~= with_icon(all.take(0), image_names(icons@)));
    while i < boons.len()
        invariant
            i <= boons.len(),
            all == texts(boons@),
            texts(chips@) == with_icon(all.take(i as int), image_names(icons@)),
        decreases boons.len() - i,
    {
        proof {
            assert(all.take(i + 1).drop_last() =~= all.take(i as int));
            assert(all.take(i + 1).last() == boons@[i as int]@);
        }
        let ghost before = chips@;
        if has_icon(icons, boons[i].as_str()) {
            let chip = boons[i].clone();
            chips.push(chip);
            assert(texts(chips@) =~= texts(before).push(chip@));
        }
        i = i + 1;
    }
    assert(all.take(i as int) =~= all);
    Some(chips)
}

/// What is known of a boon.
#[derive(Debug)]
pub struct BoonInfo {
    pub id: String,
    pub name: String,
    pub description: String,
}

/// What the tooltip says about the boon under the mouse; `None` hides it, for
/// a boon that is not known too.
pub fn update_tooltip(hovered: Option<&BoonInfo>) -> (text: Option<String>)
    ensures
        match hovered {
            Some(boon) => text matches Some(t) && t@ == boon.name@ + "\n"@ + boon.description@,
            None => text is None,
        },
{
    match hovered {
        Some(boon) => {
            let mut text = String::from_str(boon.name.as_str());
            text.append("\n");
            text.append(boon.description.as_str());
            Some(text)
        },
        None => None,
    }
}

/// A boon has a chip if it has an icon; the chips keep the order of the boons.
pub proof fn boons_with_an_icon_have_a_chip(
    boons: Seq<Seq<char>>,
    boon: Seq<char>,
    icons: Seq<Seq<char>>,
)
    ensures
        with_icon(Seq::empty(), icons).len() == 0,
        icons.contains(boon) ==> with_icon(boons.push(boon), icons) == with_icon(boons, icons).push(
            boon,
        ),
        !icons.contains(boon) ==> with_icon(boons.push(boon), icons) == with_icon(boons, icons),
{
    assert(boons.push(boon).drop_last() =~= boons);
    assert(boons.push(boon).last() == boon);
}

} // verus!
