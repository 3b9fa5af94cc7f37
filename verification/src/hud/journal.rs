//! Journal panel: the story so far, as the list of completed events.

use vstd::prelude::*;
use vstd::string::StringExecFns;

use crate::session::Hover;
use crate::text::{option_text, same_option_text, same_text, texts};

verus! {

/// A completed event.
#[derive(Debug)]
pub struct JournalEntry {
    pub id: String,
    pub name: String,
    pub description: String,
    pub kind: String,
    /// What was said, for reading again.
    pub lines: Vec<String>,
}

/// The journal is open after those keys and clicks.
pub open spec fn journal_open(open: bool, key_j: bool, close_button: bool) -> bool {
    open != key_j && !close_button
}

/// Opens and closes the journal: the key J does both, the cross closes it.
pub fn toggle_journal(open: bool, key_j: bool, close_button: bool) -> (now: bool)
    ensures
        now == journal_open(open, key_j, close_button),
{
    let mut now: bool = open;
    if key_j {
        now = !now;
    }
    if close_button {
        now = false;
    }
    now
}

/// What to do about fetching the journal.
#[derive(Debug, Clone, Copy, PartialEq, Eq, Structural)]
pub enum FetchStep {
    /// The journal is closed: opening it fetches at once.
    Reset,
    /// Wait for the timer, or for the player to be known.
    Wait,
    /// Fetch now and start the timer again.
    Fetch,
}

/// What is due about fetching.
pub open spec fn fetch_step(open: bool, timer_up: bool, known: bool) -> FetchStep {
    if !open {
        FetchStep::Reset
    } else if timer_up && known {
        FetchStep::Fetch
    } else {
        FetchStep::Wait
    }
}

/// Decides when the open journal is fetched. As long as the player is not
/// known it is tried again, so that the journal never stays empty for good.
pub fn fetch_on_open(open: bool, timer_up: bool, player_id: &str) -> (step: FetchStep)
    ensures
        step == fetch_step(open, timer_up, player_id@.len() > 0),
{
    if !open {
        FetchStep::Reset
    } else if timer_up && !player_id.is_empty() {
        FetchStep::Fetch
    } else {
        FetchStep::Wait
    }
}

/// Path of a player's journal.
pub fn journal_path(player_id: &str) -> (path: String)
    ensures
        path@ == "/journal?player_id="@ + player_id@,
{
    let mut path = String::from_str("/journal?player_id=");
    path.append(player_id);
    path
}

/// Color of the tag of a kind of event, in hundredths of red, green and blue.
pub open spec fn kind_rgb(kind: Seq<char>) -> (u8, u8, u8) {
    if kind == "dialogue"@ {
        (55, 75, 95)
    } else if kind == "treasure"@ {
        (95, 80, 35)
    } else if kind == "encounter"@ {
        (90, 45, 45)
    } else if kind == "boss"@ {
        (95, 30, 60)
    } else if kind == "story"@ {
        (70, 90, 70)
    } else if kind == "cave"@ {
        (65, 55, 90)
    } else if kind == "quest"@ {
        (85, 75, 35)
    } else {
        (60, 60, 60)
    }
}

/// Color of the tag of a kind of event.
pub fn kind_color(kind: &str) -> (rgb: (u8, u8, u8))
    ensures
        rgb == kind_rgb(kind@),
{
    if same_text(kind, "dialogue") {
        (55, 75, 95)
    } else if same_text(kind, "treasure") {
        (95, 80, 35)
    } else if same_text(kind, "encounter") {
        (90, 45, 45)
    } else if same_text(kind, "boss") {
        (95, 30, 60)
    } else if same_text(kind, "story") {
        (70, 90, 70)
    } else if same_text(kind, "cave") {
        (65, 55, 90)
    } else if same_text(kind, "quest") {
        (85, 75, 35)
    } else {
        (60, 60, 60)
    }
}

/// A row of the journal.
#[derive(Debug)]
pub struct JournalRow {
    pub id: String,
    pub name: String,
    pub tag: String,
    pub description: String,
    pub color: (u8, u8, u8),
}

/// The row shows the entry.
pub open spec fn is_row_of(row: JournalRow, entry: JournalEntry) -> bool {
    &&& row.id@ == entry.id@
    &&& row.name@ == entry.name@
    &&& row.tag@ == "["@ + entry.kind@ + "]"@
    &&& row.description@ == entry.description@
    &&& row.color == kind_rgb(entry.kind@)
}

/// The rows show the entries, the last one first.
pub open spec fn are_rows_of(rows: Seq<JournalRow>, entries: Seq<JournalEntry>) -> bool {
    &&& rows.len() == entries.len()
    &&& forall|i: int|
        0 <= i < rows.len() ==> is_row_of(#[trigger] rows[i], entries[entries.len() - 1 - i])
}

fn kind_tag(kind: &str) -> (tag: String)
    ensures
        tag@ == "["@ + kind@ + "]"@,
{
    let mut tag = String::from_str("[");
    tag.append(kind);
    tag.append("]");
    tag
}

fn build_row(entry: &JournalEntry) -> (row: JournalRow)
    ensures
        is_row_of(row, *entry),
{
    JournalRow {
        id: entry.id.clone(),
        name: entry.name.clone(),
        tag: kind_tag(entry.kind.as_str()),
        description: entry.description.clone(),
        color: kind_color(entry.kind.as_str()),
    }
}

/// What the journal shows below its header.
#[derive(Debug)]
pub enum JournalContent {
    /// The journal has not arrived yet.
    Loading,
    /// Nothing was completed yet.
    Beginning,
    /// The completed events, the newest first.
    Rows(Vec<JournalRow>),
}

/// What the journal shows.
pub open spec fn is_content(
    content: JournalContent,
    entries: Option<Vec<JournalEntry>>,
) -> bool {
    match entries {
        None => content is Loading,
        Some(list) => if list@.len() == 0 {
            content is Beginning
        } else {
            content matches JournalContent::Rows(rows) && are_rows_of(rows@, list@)
        },
    }
}

/// What to do about the journal panel.
#[derive(Debug)]
pub enum JournalStep {
    /// Take the panel and the popup away.
    Close,
    Keep,
    Rebuild(JournalContent),
}

/// Number of entries, where they have arrived.
pub open spec fn entry_count(entries: Option<Vec<JournalEntry>>) -> Option<usize> {
    match entries {
        Some(list) => Some(list@.len() as usize),
        None => None,
    }
}

fn build_rows(list: &Vec<JournalEntry>) -> (rows: Vec<JournalRow>)
    ensures
        are_rows_of(rows@, list@),
{
    let mut rows: Vec<JournalRow> = Vec::new();
    let mut left: usize = list.len();
    while left > 0
        invariant
            left + rows.len() == list.len(),
            forall|i: int|
                0 <= i < rows.len() ==> is_row_of(#[trigger] rows@[i], list@[list.len() - 1 - i]),
        decreases left,
    {
        left = left - 1;
        let ghost before = rows@;
        rows.push(build_row(&list[left]));
        assert forall|i: int| 0 <= i < rows.len() implies is_row_of(
            #[trigger] rows@[i],
            list@[list.len() - 1 - i],
        ) by {
            if i < before.len() {
                assert(rows@[i] == before[i]);
            }
        }
    }
    rows
}

/// Decides what becomes of the journal panel: it is built anew when the number
/// of entries has changed since it was last built.
pub fn update_journal_panel(
    open: bool,
    has_panel: bool,
    entries: &Option<Vec<JournalEntry>>,
    last_count: &mut Option<usize>,
) -> (step: JournalStep)
    ensures
        !open ==> step is Close && *final(last_count) == None::<usize>,
        open && has_panel && *old(last_count) == entry_count(*entries) ==> step is Keep
            && *final(last_count) == *old(last_count),
        open && (!has_panel || *old(last_count) != entry_count(*entries)) ==> {
            &&& step matches JournalStep::Rebuild(content) && is_content(content, *entries)
            &&& *final(last_count) == entry_count(*entries)
        },
{
    if !open {
        *last_count = None;
        return JournalStep::Close;
    }
    let count: Option<usize> = match entries {
        Some(list) => Some(list.len()),
        None => None,
    };
    let same_count: bool = match (*last_count, count) {
        (Some(a), Some(b)) => a == b,
        (None, None) => true,
        _ => false,
    };
    if has_panel && same_count {
        return JournalStep::Keep;
    }
    *last_count = count;
    match entries {
        None => JournalStep::Rebuild(JournalContent::Loading),
        Some(list) => {
            if list.len() == 0 {
                JournalStep::Rebuild(JournalContent::Beginning)
            } else {
                JournalStep::Rebuild(JournalContent::Rows(build_rows(list)))
            }
        },
    }
}

/// Index of the first row under the mouse.
pub open spec fn first_over(rows: Seq<Hover>) -> Option<int>
    decreases rows.len(),
{
    if rows.len() == 0 {
        None
    } else if crate::session::is_over(rows[0]) {
        Some(0)
    } else {
        match first_over(rows.drop_first()) {
            Some(i) => Some(i + 1),
            None => None,
        }
    }
}

proof fn lemma_first_over(rows: Seq<Hover>, i: int)
    requires
        0 <= i <= rows.len(),
        forall|j: int| 0 <= j < i ==> !crate::session::is_over(#[trigger] rows[j]),
    ensures
        i == rows.len() ==> first_over(rows) is None,
        i < rows.len() && crate::session::is_over(rows[i]) ==> first_over(rows) == Some(i),
    decreases rows.len(),
{
    if i > 0 {
        let rest = rows.drop_first();
        assert(!crate::session::is_over(rows[0]));
        assert forall|j: int| 0 <= j < i - 1 implies !crate::session::is_over(#[trigger] rest[j]) by {
            assert(rest[j] == rows[j + 1]);
        }
        lemma_first_over(rest, i - 1);
        if i < rows.len() {
            assert(rest[i - 1] == rows[i]);
        }
    }
}

/// Finds the first row under the mouse.
pub fn hovered_row(rows: &Vec<Hover>) -> (row: Option<usize>)
    ensures
        match row {
            Some(i) => first_over(rows@) == Some(i as int) && i < rows.len(),
            None => first_over(rows@) is None,
        },
{
    let mut i: usize = 0;
    while i < rows.len()
        invariant
            i <= rows.len(),
            forall|j: int| 0 <= j < i ==> !crate::session::is_over(#[trigger] rows@[j]),
        decreases rows.len() - i,
    {
        if rows[i] != Hover::Away {
            proof {
                lemma_first_over(rows@, i as int);
            }
            return Some(i);
        }
        i = i + 1;
    }
    proof {
        lemma_first_over(rows@, i as int);
    }
    None
}

/// The popup with everything about an entry.
#[derive(Debug)]
pub struct Popup {
    pub name: String,
    pub tag: String,
    pub description: String,
    pub color: (u8, u8, u8),
    /// What was said, each line in quotes, or a note that nothing was.
    pub lines: Vec<String>,
}

/// The lines of a popup.
pub open spec fn popup_lines(lines: Seq<Seq<char>>) -> Seq<Seq<char>> {
    if lines.len() == 0 {
        seq!["(no recorded dialogue)"@]
    } else {
        lines.map_values(|line: Seq<char>| "\""@ + line + "\""@)
    }
}

/// The popup shows the entry.
pub open spec fn is_popup_of(popup: Popup, entry: JournalEntry) -> bool {
    &&& popup.name@ == entry.name@
    &&& popup.tag@ == "["@ + entry.kind@ + "]"@
    &&& popup.description@ == entry.description@
    &&& popup.color == kind_rgb(entry.kind@)
    &&& texts(popup.lines@) == popup_lines(texts(entry.lines@))
}

/// The first entry with that id.
pub open spec fn find_entry(entries: Seq<JournalEntry>, id: Seq<char>) -> Option<JournalEntry>
    decreases entries.len(),
{
    if entries.len() == 0 {
        None
    } else if entries[0].id@ == id {
        Some(entries[0])
    } else {
        find_entry(entries.drop_first(), id)
    }
}

fn build_lines(lines: &Vec<String>) -> (out: Vec<String>)
    ensures
        texts(out@) == popup_lines(texts(lines@)),
{
    let mut out: Vec<String> = Vec::new();
    if lines.len() == 0 {
        out.push(String::from_str("(no recorded dialogue)"));
        assert(texts(out@) =~= popup_lines(texts(lines@)));
        return out;
    }
    let ghost all = popup_lines(texts(lines@));
    let mut i: usize = 0;
    while i < lines.len()
        invariant
            i <= lines.len(),
            lines.len() > 0,
            all == popup_lines(texts(lines@)),
            texts(out@) == all.take(i as int),
        decreases lines.len() - i,
    {
        let mut line = String::from_str("\"");
        line.append(lines[i].as_str());
        line.append("\"");
        let ghost before = out@;
        out.push(line);
        assert(texts(out@) =~= texts(before).push(line@));
        assert(all.take(i + 1) =~= all.take(i as int).push(all[i as int]));
        i = i + 1;
    }
    assert(all.take(i as int) =~= all);
    out
}

/// Builds the popup of the entry with that id, if there is one.
pub fn build_popup(entries: &Vec<JournalEntry>, id: &str) -> (popup: Option<Popup>)
    ensures
        match find_entry(entries@, id@) {
            Some(entry) => popup matches Some(p) && is_popup_of(p, entry),
            None => popup is None,
        },
{
    let mut i: usize = 0;
    assert(entries@.skip(0) =~= entries@);
    while i < entries.len()
        invariant
            i <= entries.len(),
            find_entry(entries@, id@) == find_entry(entries@.skip(i as int), id@),
        decreases entries.len() - i,
    {
        let entry = &entries[i];
        assert(entries@.skip(i as int)[0] == *entry);
        assert(entries@.skip(i as int).drop_first() =~= entries@.skip(i + 1));
        if same_text(entry.id.as_str(), id) {
            return Some(
                Popup {
                    name: entry.name.clone(),
                    tag: kind_tag(entry.kind.as_str()),
                    description: entry.description.clone(),
                    color: kind_color(entry.kind.as_str()),
                    lines: build_lines(&entry.lines),
                },
            );
        }
        i = i + 1;
    }
    None
}

/// What to do about the popup.
#[derive(Debug)]
pub enum PopupStep {
    Keep,
    /// Take the old popup away and show this one, if any.
    Replace(Option<Popup>),
}

/// The entry that a popup is due for: the one under the mouse while the
/// journal is open.
pub open spec fn due_popup(open: bool, hover: Option<String>) -> Option<Seq<char>> {
    if open {
        option_text(hover)
    } else {
        None
    }
}

/// Decides what becomes of the popup: it changes with the entry under the
/// mouse and goes when the journal is closed.
pub fn update_popup(
    open: bool,
    hover: &Option<String>,
    entries: &Option<Vec<JournalEntry>>,
    last_id: &mut Option<String>,
) -> (step: PopupStep)
    ensures
        option_text(*final(last_id)) == due_popup(open, *hover),
        due_popup(open, *hover) == option_text(*old(last_id)) ==> step is Keep,
        due_popup(open, *hover) != option_text(*old(last_id)) ==> {
            &&& step matches PopupStep::Replace(popup) && match (due_popup(open, *hover), *entries) {
                (Some(id), Some(list)) => match find_entry(list@, id) {
                    Some(entry) => popup matches Some(p) && is_popup_of(p, entry),
                    None => popup is None,
                },
                _ => popup is None,
            }
        },
{
    let effective: Option<String> = if open {
        match hover {
            Some(id) => Some(id.clone()),
            None => None,
        }
    } else {
        None
    };
    if same_option_text(&effective, last_id) {
        return PopupStep::Keep;
    }
    let popup: Option<Popup> = match (&effective, entries) {
        (Some(id), Some(list)) => build_popup(list, id.as_str()),
        _ => None,
    };
    *last_id = effective;
    PopupStep::Replace(popup)
}

/// The key flips the journal, and the cross closes it whatever else was
/// pressed.
pub proof fn the_journal_opens_and_closes(open: bool, key_j: bool)
    ensures
        journal_open(open, true, false) == !open,
        journal_open(open, false, false) == open,
        !journal_open(open, key_j, true),
{
}

/// An open journal of a known player is fetched when the timer is up; a closed
/// one never is.
pub proof fn when_the_journal_is_fetched(open: bool, timer_up: bool, known: bool)
    ensures
        fetch_step(open, timer_up, known) == FetchStep::Fetch <==> open && timer_up && known,
        fetch_step(open, timer_up, known) == FetchStep::Reset <==> !open,
{
}

/// Each kind of event has its color; a kind without one is gray.
pub proof fn kinds_have_their_color(kind: Seq<char>)
    ensures
        kind == "dialogue"@ ==> kind_rgb(kind) == (55u8, 75u8, 95u8),
        kind == "treasure"@ ==> kind_rgb(kind) == (95u8, 80u8, 35u8),
        kind == "encounter"@ ==> kind_rgb(kind) == (90u8, 45u8, 45u8),
        kind == "boss"@ ==> kind_rgb(kind) == (95u8, 30u8, 60u8),
        kind == "story"@ ==> kind_rgb(kind) == (70u8, 90u8, 70u8),
        kind == "cave"@ ==> kind_rgb(kind) == (65u8, 55u8, 90u8),
        kind == "quest"@ ==> kind_rgb(kind) == (85u8, 75u8, 35u8),
        kind != "dialogue"@ && kind != "treasure"@ && kind != "encounter"@ && kind != "boss"@ && kind != "story"@ && kind != "cave"@ && kind != "quest"@ ==> kind_rgb(kind) == (60u8, 60u8, 60u8),
{
    reveal_strlit("dialogue");
    reveal_strlit("treasure");
    reveal_strlit("encounter");
    reveal_strlit("boss");
    reveal_strlit("story");
    reveal_strlit("cave");
    reveal_strlit("quest");
    assert("dialogue"@.len() == 8 && "treasure"@.len() == 8 && "encounter"@.len() == 9);
    assert("boss"@.len() == 4 && "story"@.len() == 5 && "cave"@.len() == 4 && "quest"@.len() == 5);
    assert("dialogue"@[0] == 'd' && "treasure"@[0] == 't');
    assert("boss"@[0] == 'b' && "cave"@[0] == 'c' && "story"@[0] == 's' && "quest"@[0] == 'q');
}

/// The newest entry stands on top, and older ones follow in turn.
pub proof fn newest_entries_come_first(rows: Seq<JournalRow>, entries: Seq<JournalEntry>)
    requires
        are_rows_of(rows, entries),
    ensures
        rows.len() == entries.len(),
        entries.len() > 0 ==> rows.first().id@ == entries.last().id@ && rows.last().id@
            == entries.first().id@,
        forall|i: int, j: int|
            0 <= i < rows.len() && j == entries.len() - 1 - i ==> {
                &&& (#[trigger] rows[i]).name@ == (#[trigger] entries[j]).name@
                &&& rows[i].description@ == entries[j].description@
                &&& rows[i].color == kind_rgb(entries[j].kind@)
            },
{
}

/// A journal that has not arrived is loading, an empty one says that the story
/// begins, and any other shows its entries.
pub proof fn what_the_journal_shows(content: JournalContent, entries: Option<Vec<JournalEntry>>)
    requires
        is_content(content, entries),
    ensures
        content is Loading <==> entries is None,
        content is Beginning <==> (entries matches Some(list) && list@.len() == 0),
        content matches JournalContent::Rows(rows) ==> (entries matches Some(list) && rows@.len()
            == list@.len()),
{
}

/// The row that counts is the first one under the mouse; there is none only
/// where the mouse is over no row.
pub proof fn first_row_under_the_mouse_counts(rows: Seq<Hover>, i: int)
    requires
        0 <= i < rows.len(),
    ensures
        rows[i] != Hover::Away && (forall|j: int|
            0 <= j < i ==> #[trigger] rows[j] == Hover::Away) ==> first_over(rows) == Some(i),
        (forall|j: int| 0 <= j < rows.len() ==> #[trigger] rows[j] == Hover::Away) ==> first_over(
            rows,
        ) is None,
{
    if rows[i] != Hover::Away && (forall|j: int| 0 <= j < i ==> #[trigger] rows[j] == Hover::Away) {
        lemma_first_over(rows, i);
    }
    if forall|j: int| 0 <= j < rows.len() ==> #[trigger] rows[j] == Hover::Away {
        lemma_first_over(rows, rows.len() as int);
    }
}

/// A popup repeats every line that was said, in quotes, or notes that nothing
/// was.
pub proof fn popups_repeat_what_was_said(lines: Seq<Seq<char>>, i: int)
    ensures
        lines.len() == 0 ==> popup_lines(lines).len() == 1 && popup_lines(lines)[0]
            == "(no recorded dialogue)"@,
        lines.len() > 0 ==> popup_lines(lines).len() == lines.len(),
        0 <= i < lines.len() ==> popup_lines(lines)[i] == "\""@ + lines[i] + "\""@,
{
}

/// The first entry of an id is the one that counts.
pub proof fn first_entry_counts(entries: Seq<JournalEntry>, entry: JournalEntry, id: Seq<char>)
    ensures
        find_entry(Seq::empty(), id) is None,
        entry.id@ == id ==> find_entry(seq![entry] + entries, id) == Some(entry),
        entry.id@ != id ==> find_entry(seq![entry] + entries, id) == find_entry(entries, id),
{
    assert((seq![entry] + entries).drop_first() =~= entries);
    assert((seq![entry] + entries)[0] == entry);
}

/// Only the open journal has a popup, for what is under the mouse.
pub proof fn popups_follow_the_mouse(open: bool, hover: Option<String>)
    ensures
        due_popup(false, hover) is None,
        due_popup(open, None) is None,
        hover matches Some(id) ==> due_popup(true, hover) == Some(id@),
{
}

/// Rows and popups show the kind in brackets; a popup shows all that its entry
/// holds.
pub proof fn entries_are_shown_whole(row: JournalRow, popup: Popup, entry: JournalEntry, i: int)
    requires
        is_row_of(row, entry),
        is_popup_of(popup, entry),
    ensures
        row.id@ == entry.id@,
        row.tag@ == "["@ + entry.kind@ + "]"@,
        popup.tag@ == row.tag@,
        popup.name@ == entry.name@,
        row.name@ == entry.name@,
        popup.description@ == entry.description@,
        row.description@ == entry.description@,
        popup.color == row.color,
        popup.color == kind_rgb(entry.kind@),
        entry.lines@.len() > 0 ==> popup.lines@.len() == entry.lines@.len(),
        entry.lines@.len() == 0 ==> popup.lines@.len() == 1,
        0 <= i < entry.lines@.len() ==> popup.lines@[i]@ == "\""@ + entry.lines@[i]@ + "\""@,
{
    let shown = texts(popup.lines@);
    assert(shown.len() == popup.lines@.len());
    assert(texts(entry.lines@).len() == entry.lines@.len());
    if 0 <= i < entry.lines@.len() {
        assert(shown[i] == popup.lines@[i]@);
        assert(texts(entry.lines@)[i] == entry.lines@[i]@);
    }
}

/// A journal that has arrived has as many entries as it lists; one that has
/// not has no number, which is not the number zero.
pub proof fn entries_are_counted(list: Vec<JournalEntry>)
    ensures
        entry_count(None) is None,
        entry_count(Some(list)) matches Some(n) && n == list@.len(),
{
    assert(list@.len() == list.len());
}

} // verus!
