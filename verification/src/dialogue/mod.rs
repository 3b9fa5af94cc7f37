//! The dialogue box: lines of speech typed out one after the other.

pub mod event_poll;
pub mod message_log;
pub mod shop;

use vstd::prelude::*;
use vstd::string::StrSliceExecFns;

use crate::text::take_chars;

verus! {

/// What the dialogue box shows.
pub struct DialogueState {
    pub active: bool,
    pub event_id: String,
    pub speaker: String,
    pub lines: Vec<String>,
    pub current_line: usize,
    /// Characters of the current line typed so far.
    pub typewriter_index: usize,
}

/// Content of the dialogue box.
#[verifier::ext_equal]
pub struct Dialogue {
    pub active: bool,
    pub event_id: Seq<char>,
    pub speaker: Seq<char>,
    pub lines: Seq<Seq<char>>,
    pub current_line: int,
    pub typed: int,
}

impl View for DialogueState {
    type V = Dialogue;

    open spec fn view(&self) -> Dialogue {
        Dialogue {
            active: self.active,
            event_id: self.event_id@,
            speaker: self.speaker@,
            lines: crate::text::texts(self.lines@),
            current_line: self.current_line as int,
            typed: self.typewriter_index as int,
        }
    }
}

impl Default for DialogueState {
    fn default() -> (state: DialogueState)
        ensures
            state@ == (Dialogue {
                active: false,
                event_id: Seq::empty(),
                speaker: Seq::empty(),
                lines: Seq::empty(),
                current_line: 0,
                typed: 0,
            }),
    {
        let state = DialogueState {
            active: false,
            event_id: String::new(),
            speaker: String::new(),
            lines: Vec::new(),
            current_line: 0,
            typewriter_index: 0,
        };
        assert(state@.lines =~= Seq::empty());
        state
    }
}

/// What pressing on does to a dialogue.
pub enum Advance {
    /// No dialogue is open.
    Ignored,
    /// The line being typed shows in full.
    LineShown,
    /// The next line starts.
    NextLine,
    /// The dialogue is over. The event is to be reported as completed, unless
    /// it has no id.
    Finished { event_id: String },
}

/// What becomes of the dialogue box.
pub enum BoxStep {
    /// No dialogue is open: take the box away.
    Close,
    /// Show this much of the line; `None` leaves the text as it is.
    Show { line: Option<String> },
    /// Put up a box for the speaker.
    Open { speaker: String, text: String },
}

/// The current line is still being typed.
pub open spec fn typing(dialogue: Dialogue) -> bool {
    dialogue.current_line < dialogue.lines.len() && dialogue.typed < dialogue.lines[
        dialogue.current_line].len()
}

/// The dialogue after one more character was typed, if one was left.
pub open spec fn after_tick(dialogue: Dialogue) -> Dialogue {
    if dialogue.active && typing(dialogue) {
        Dialogue { typed: dialogue.typed + 1, ..dialogue }
    } else {
        dialogue
    }
}

/// The dialogue after pressing on: first the line in full, then the next
/// line, and the end after the last.
pub open spec fn after_advance(dialogue: Dialogue) -> Dialogue {
    if !dialogue.active {
        dialogue
    } else if typing(dialogue) {
        Dialogue { typed: dialogue.lines[dialogue.current_line].len() as int, ..dialogue }
    } else if dialogue.current_line + 1 >= dialogue.lines.len() {
        Dialogue {
            active: false,
            lines: Seq::empty(),
            current_line: 0,
            typed: 0,
            ..dialogue
        }
    } else {
        Dialogue { current_line: dialogue.current_line + 1, typed: 0, ..dialogue }
    }
}

/// Part of the current line that shows.
pub open spec fn visible_line(dialogue: Dialogue) -> Seq<char> {
    if dialogue.current_line < dialogue.lines.len() {
        crate::text::prefix(dialogue.lines[dialogue.current_line], dialogue.typed)
    } else {
        Seq::empty()
    }
}

/// What becomes of the dialogue box, given what it is to show.
pub open spec fn is_box_step(step: BoxStep, dialogue: Dialogue, has_box: bool) -> bool {
    if !dialogue.active {
        step is Close
    } else if has_box {
        step matches BoxStep::Show { line } && (if dialogue.current_line < dialogue.lines.len() {
            line matches Some(t) && t@ == visible_line(dialogue)
        } else {
            line is None
        })
    } else {
        step matches BoxStep::Open { speaker, text } && speaker@ == dialogue.speaker && text@
            == visible_line(dialogue)
    }
}

/// Most presses that it takes until a dialogue is over: one for the current
/// line, another while it is being typed, and two for each to come.
pub open spec fn presses_left(dialogue: Dialogue) -> int {
    if !dialogue.active {
        0
    } else if dialogue.lines.len() == 0 {
        1
    } else {
        2 * (dialogue.lines.len() - dialogue.current_line - 1) + (if typing(dialogue) {
            2int
        } else {
            1int
        })
    }
}

impl DialogueState {
    /// Whether a dialogue is open.
    pub fn dialogue_active(&self) -> (active: bool)
        ensures
            active == self@.active,
    {
        self.active
    }

    /// Types one more character of the current line, if one is left.
    pub fn tick_typewriter(&mut self)
        ensures
            final(self)@ == after_tick(old(self)@),
    {
        if self.active && self.current_line < self.lines.len() {
            let char_count: usize = self.lines[self.current_line].as_str().unicode_len();
            assert(old(self)@.lines[self.current_line as int] == self.lines@[self.current_line as int]@);
            if self.typewriter_index < char_count {
                self.typewriter_index = self.typewriter_index + 1;
            }
        }
    }

    /// Part of the current line that shows.
    pub fn visible_text(&self) -> (text: String)
        ensures
            text@ == visible_line(self@),
    {
        if self.current_line < self.lines.len() {
            assert(self@.lines[self.current_line as int] == self.lines@[self.current_line as int]@);
            take_chars(self.lines[self.current_line].as_str(), self.typewriter_index)
        } else {
            String::new()
        }
    }

    /// Types on while a dialogue is open, and tells what becomes of its box.
    pub fn update_dialogue(&mut self, timer_up: bool, has_box: bool) -> (step: BoxStep)
        ensures
            final(self)@ == (if timer_up {
                after_tick(old(self)@)
            } else {
                old(self)@
            }),
            is_box_step(step, final(self)@, has_box),
    {
        if !self.active {
            return BoxStep::Close;
        }
        if timer_up {
            self.tick_typewriter();
        }
        if has_box {
            let line: Option<String> = if self.current_line < self.lines.len() {
                Some(self.visible_text())
            } else {
                None
            };
            return BoxStep::Show { line };
        }
        BoxStep::Open { speaker: self.speaker.clone(), text: self.visible_text() }
    }

    /// Presses on: shows the line being typed in full, else goes to the next
    /// line, and ends the dialogue after the last.
    pub fn handle_dialogue_input(&mut self) -> (advance: Advance)
        requires
            old(self).current_line < usize::MAX,
        ensures
            final(self)@ == after_advance(old(self)@),
            match advance {
                Advance::Ignored => !old(self)@.active,
                Advance::LineShown => old(self)@.active && typing(old(self)@),
                Advance::NextLine => old(self)@.active && !typing(old(self)@)
                    && old(self)@.current_line + 1 < old(self)@.lines.len(),
                Advance::Finished { event_id } => old(self)@.active && !typing(old(self)@)
                    && old(self)@.current_line + 1 >= old(self)@.lines.len() && event_id@
                    == old(self)@.event_id,
            },
    {
        if !self.active {
            return Advance::Ignored;
        }
        if self.current_line < self.lines.len() {
            let char_count: usize = self.lines[self.current_line].as_str().unicode_len();
            assert(self@.lines[self.current_line as int] == self.lines@[self.current_line as int]@);
            if self.typewriter_index < char_count {
                self.typewriter_index = char_count;
                return Advance::LineShown;
            }
        }
        self.current_line = self.current_line + 1;
        self.typewriter_index = 0;
        if self.current_line >= self.lines.len() {
            let event_id = self.event_id.clone();
            self.active = false;
            self.lines = Vec::new();
            self.current_line = 0;
            assert(self@.lines =~= Seq::empty());
            Advance::Finished { event_id }
        } else {
            Advance::NextLine
        }
    }
}

/// Every press brings an open dialogue closer to its end, so that it is over
/// after at most two presses for each line, and none goes back on it.
pub proof fn pressing_on_ends_the_dialogue(dialogue: Dialogue)
    requires
        dialogue.active,
        0 <= dialogue.current_line,
        dialogue.lines.len() == 0 || dialogue.current_line < dialogue.lines.len(),
    ensures
        0 < presses_left(dialogue) <= 2 * dialogue.lines.len() + 1,
        0 <= presses_left(after_advance(dialogue)) < presses_left(dialogue),
        after_advance(dialogue).active <==> presses_left(after_advance(dialogue)) > 0,
        after_advance(dialogue).active ==> dialogue.current_line <= after_advance(
            dialogue,
        ).current_line < dialogue.lines.len(),
{
}

/// The typewriter shows ever longer parts of the line, never more than all of
/// it.
pub proof fn typewriter_only_adds(dialogue: Dialogue)
    requires
        dialogue.active,
        0 <= dialogue.current_line < dialogue.lines.len(),
        0 <= dialogue.typed,
    ensures
        visible_line(dialogue).is_prefix_of(visible_line(after_tick(dialogue))),
        visible_line(after_tick(dialogue)).is_prefix_of(dialogue.lines[dialogue.current_line]),
        !typing(dialogue) ==> visible_line(dialogue) == dialogue.lines[dialogue.current_line],
{
}

/// The first press on a line that is being typed shows all of it and stays on
/// it; the next press leads to the line after it, from its first character on;
/// the press on the last line ends the dialogue. Who speaks, and about which
/// event, stays as it is.
pub proof fn presses_lead_line_by_line(dialogue: Dialogue)
    requires
        dialogue.active,
        0 <= dialogue.current_line < dialogue.lines.len(),
        0 <= dialogue.typed,
    ensures
        ({
            let after = after_advance(dialogue);
            let line = dialogue.lines[dialogue.current_line];
            &&& after.event_id == dialogue.event_id
            &&& after.speaker == dialogue.speaker
            &&& dialogue.typed < line.len() ==> {
                &&& after.active
                &&& after.lines == dialogue.lines
                &&& after.current_line == dialogue.current_line
                &&& visible_line(after) == line
                &&& dialogue.current_line + 1 < dialogue.lines.len() ==> after_advance(
                    after,
                ).current_line == dialogue.current_line + 1
            }
            &&& dialogue.typed >= line.len() && dialogue.current_line + 1 < dialogue.lines.len()
                ==> {
                &&& after.active
                &&& after.lines == dialogue.lines
                &&& after.current_line == dialogue.current_line + 1
                &&& visible_line(after).len() == 0
            }
            &&& dialogue.typed >= line.len() && dialogue.current_line + 1 == dialogue.lines.len()
                ==> !after.active
        }),
{
}

/// A closed dialogue takes no notice of presses or of time.
pub proof fn closed_dialogues_stay_closed(dialogue: Dialogue)
    requires
        !dialogue.active,
    ensures
        after_advance(dialogue) == dialogue,
        after_tick(dialogue) == dialogue,
{
}

/// With every tick one more character of the line shows, until all do.
pub proof fn a_tick_types_one_character(dialogue: Dialogue)
    requires
        dialogue.active,
        0 <= dialogue.current_line < dialogue.lines.len(),
        0 <= dialogue.typed,
    ensures
        ({
            let line = dialogue.lines[dialogue.current_line];
            let shown = visible_line(dialogue).len();
            let then = visible_line(after_tick(dialogue)).len();
            &&& visible_line(dialogue).is_prefix_of(line)
            &&& dialogue.typed <= line.len() ==> shown == dialogue.typed
            &&& dialogue.typed < line.len() ==> then == shown + 1
            &&& dialogue.typed >= line.len() ==> then == shown && shown == line.len()
            &&& after_tick(dialogue).current_line == dialogue.current_line
            &&& after_tick(dialogue).lines == dialogue.lines
            &&& after_tick(dialogue).active
        }),
{
}

/// The box goes exactly with the dialogue, is put up once with its speaker, and
/// shows what is typed of the line.
pub proof fn the_box_follows_the_dialogue(step: BoxStep, dialogue: Dialogue, has_box: bool)
    requires
        is_box_step(step, dialogue, has_box),
        0 <= dialogue.current_line < dialogue.lines.len(),
        0 <= dialogue.typed <= dialogue.lines[dialogue.current_line].len(),
    ensures
        step is Close <==> !dialogue.active,
        step is Open <==> dialogue.active && !has_box,
        step matches BoxStep::Open { speaker, text } ==> speaker@ == dialogue.speaker && text@
            == dialogue.lines[dialogue.current_line].take(dialogue.typed),
        step matches BoxStep::Show { line } ==> line is Some && line->0@
            == dialogue.lines[dialogue.current_line].take(dialogue.typed),
{
    assert(dialogue.lines[dialogue.current_line].take(
        dialogue.lines[dialogue.current_line].len() as int,
    ) =~= dialogue.lines[dialogue.current_line]);
}

/// Of the current line only what is typed shows; behind the last line nothing
/// does.
pub proof fn only_what_is_typed_shows(dialogue: Dialogue)
    requires
        0 <= dialogue.current_line,
    ensures
        dialogue.current_line >= dialogue.lines.len() ==> visible_line(dialogue).len() == 0,
        dialogue.current_line < dialogue.lines.len() ==> ({
            let line = dialogue.lines[dialogue.current_line];
            &&& 0 <= dialogue.typed <= line.len() ==> visible_line(dialogue) == line.take(
                dialogue.typed,
            )
            &&& dialogue.typed >= line.len() ==> visible_line(dialogue) == line
        }),
{
    if dialogue.current_line < dialogue.lines.len() {
        let line = dialogue.lines[dialogue.current_line];
        assert(line.take(line.len() as int) =~= line);
    }
}

} // verus!
