//! Sound effects: which sounds are due, and the notes they are made of.

use vstd::prelude::*;

verus! {

#[derive(Debug, Clone, Copy, PartialEq, Eq, Structural)]
pub enum SfxKind {
    GoldGained,
    RouteArrived,
    LevelUp,
    CombatVictory,
}

/// What was seen in the last frame.
#[derive(Debug, Clone, Copy, PartialEq, Eq, Structural)]
pub struct SfxWatch {
    pub gold: i32,
    pub level: u32,
    pub route_len: usize,
    pub combat_active: bool,
}

impl Default for SfxWatch {
    fn default() -> (watch: SfxWatch)
        ensures
            watch == (SfxWatch { gold: 0, level: 0, route_len: 0, combat_active: false }),
    {
        SfxWatch { gold: 0, level: 0, route_len: 0, combat_active: false }
    }
}

/// Gold came in, other than by the first report.
pub open spec fn gold_gained(before: SfxWatch, gold: i32) -> bool {
    gold > before.gold && !(before.gold == 0 && gold > 0)
}

/// The route was walked to its end.
pub open spec fn route_arrived(before: SfxWatch, route_len: usize) -> bool {
    before.route_len > 0 && route_len == 0
}

/// The player rose a level, other than by the first report.
pub open spec fn level_gained(before: SfxWatch, level: u32) -> bool {
    before.level > 0 && level > before.level
}

/// A fight came to its end.
pub open spec fn combat_ended(before: SfxWatch, combat_active: bool) -> bool {
    before.combat_active && !combat_active
}

impl SfxWatch {
    /// Whether the sound for gold is due. The first gold that is seen is only
    /// taken note of.
    pub fn detect_gold_gain(&mut self, gold: i32) -> (due: bool)
        ensures
            due == gold_gained(*old(self), gold),
            *final(self) == (SfxWatch { gold, ..*old(self) }),
    {
        if self.gold == 0 && gold > 0 {
            self.gold = gold;
            return false;
        }
        let due: bool = gold > self.gold;
        self.gold = gold;
        due
    }

    /// Whether the sound for an arrival is due: the server took the route away
    /// as it was completed.
    pub fn detect_route_arrival(&mut self, route_len: usize) -> (due: bool)
        ensures
            due == route_arrived(*old(self), route_len),
            *final(self) == (SfxWatch { route_len, ..*old(self) }),
    {
        let due: bool = self.route_len > 0 && route_len == 0;
        self.route_len = route_len;
        due
    }

    /// Whether the sound for a new level is due.
    pub fn detect_level_up(&mut self, level: u32) -> (due: bool)
        ensures
            due == level_gained(*old(self), level),
            *final(self) == (SfxWatch { level, ..*old(self) }),
    {
        let due: bool = self.level > 0 && level > self.level;
        self.level = level;
        due
    }

    /// Whether the sound for the end of a fight is due.
    pub fn detect_combat_victory(&mut self, combat_active: bool) -> (due: bool)
        ensures
            due == combat_ended(*old(self), combat_active),
            *final(self) == (SfxWatch { combat_active, ..*old(self) }),
    {
        let due: bool = self.combat_active && !combat_active;
        self.combat_active = combat_active;
        due
    }
}

/// As long as nothing changes no sound is due, and joining the game with what
/// was earned before is silent too.
pub proof fn quiet_without_news(watch: SfxWatch, gold: i32, level: u32)
    ensures
        !gold_gained(watch, watch.gold),
        !route_arrived(watch, watch.route_len),
        !level_gained(watch, watch.level),
        !combat_ended(watch, watch.combat_active),
        watch.gold == 0 ==> !gold_gained(watch, gold),
        watch.level == 0 ==> !level_gained(watch, level),
{
}

/// One note of a phrase: times in hundredths of a second, the frequency in
/// hertz, the gain in hundredths.
#[derive(Debug, Clone, Copy, PartialEq, Eq, Structural)]
pub struct Note {
    pub offset: u32,
    pub duration: u32,
    pub freq_hz: u32,
    pub gain: u32,
}

/// The notes of a sound.
pub open spec fn phrase(kind: SfxKind) -> Seq<Note> {
    match kind {
        // A quick rising chirp.
        SfxKind::GoldGained => seq![
            Note { offset: 0, duration: 8, freq_hz: 523, gain: 25 },
            Note { offset: 6, duration: 10, freq_hz: 659, gain: 22 },
        ],
        // A soft falling pair.
        SfxKind::RouteArrived => seq![
            Note { offset: 0, duration: 8, freq_hz: 659, gain: 15 },
            Note { offset: 8, duration: 12, freq_hz: 523, gain: 13 },
        ],
        // A rising triad.
        SfxKind::LevelUp => seq![
            Note { offset: 0, duration: 8, freq_hz: 523, gain: 25 },
            Note { offset: 8, duration: 8, freq_hz: 659, gain: 25 },
            Note { offset: 16, duration: 16, freq_hz: 784, gain: 28 },
        ],
        // A fanfare.
        SfxKind::CombatVictory => seq![
            Note { offset: 0, duration: 8, freq_hz: 392, gain: 22 },
            Note { offset: 8, duration: 8, freq_hz: 523, gain: 25 },
            Note { offset: 16, duration: 8, freq_hz: 659, gain: 25 },
            Note { offset: 24, duration: 20, freq_hz: 784, gain: 28 },
        ],
    }
}

/// The notes of a sound.
pub fn notes_for(kind: SfxKind) -> (notes: Vec<Note>)
    ensures
        notes@ == phrase(kind),
{
    let mut notes: Vec<Note> = Vec::new();
    match kind {
        SfxKind::GoldGained => {
            notes.push(Note { offset: 0, duration: 8, freq_hz: 523, gain: 25 });
            notes.push(Note { offset: 6, duration: 10, freq_hz: 659, gain: 22 });
        },
        SfxKind::RouteArrived => {
            notes.push(Note { offset: 0, duration: 8, freq_hz: 659, gain: 15 });
            notes.push(Note { offset: 8, duration: 12, freq_hz: 523, gain: 13 });
        },
        SfxKind::LevelUp => {
            notes.push(Note { offset: 0, duration: 8, freq_hz: 523, gain: 25 });
            notes.push(Note { offset: 8, duration: 8, freq_hz: 659, gain: 25 });
            notes.push(Note { offset: 16, duration: 16, freq_hz: 784, gain: 28 });
        },
        SfxKind::CombatVictory => {
            notes.push(Note { offset: 0, duration: 8, freq_hz: 392, gain: 22 });
            notes.push(Note { offset: 8, duration: 8, freq_hz: 523, gain: 25 });
            notes.push(Note { offset: 16, duration: 8, freq_hz: 659, gain: 25 });
            notes.push(Note { offset: 24, duration: 20, freq_hz: 784, gain: 28 });
        },
    }
    notes
}

/// When the last note of a phrase has ended, in hundredths of a second.
pub open spec fn phrase_end(notes: Seq<Note>) -> int
    decreases notes.len(),
{
    if notes.len() == 0 {
        0
    } else {
        let before = phrase_end(notes.drop_last());
        let end = notes.last().offset + notes.last().duration;
        if end > before {
            end
        } else {
            before
        }
    }
}

/// When the sound's resources are freed, in hundredths of a second: shortly
/// after its last note.
pub fn tail_hundredths(notes: &Vec<Note>) -> (tail: u64)
    ensures
        tail == phrase_end(notes@) + 5,
{
    let mut end: u64 = 0;
    let mut i: usize = 0;
    assert(notes@.take(0).len() == 0);
    while i < notes.len()
        invariant
            i <= notes.len(),
            end == phrase_end(notes@.take(i as int)),
            end <= 2 * u32::MAX,
        decreases notes.len() - i,
    {
        proof {
            assert(notes@.take(i + 1).drop_last() =~= notes@.take(i as int));
            assert(notes@.take(i + 1).last() == notes@[i as int]);
        }
        let this: u64 = notes[i].offset as u64 + notes[i].duration as u64;
        if this > end {
            end = this;
        }
        i = i + 1;
    }
    assert(notes@.take(i as int) =~= notes@);
    end + 5
}

/// More gold is heard once some was seen before; less gold never is.
pub proof fn when_gold_is_heard(watch: SfxWatch, gold: i32)
    ensures
        watch.gold != 0 && gold > watch.gold ==> gold_gained(watch, gold),
        gold <= watch.gold ==> !gold_gained(watch, gold),
{
}

/// A route that ends is heard; one that begins, goes on or gets shorter is
/// not.
pub proof fn when_arrivals_are_heard(watch: SfxWatch, route_len: usize)
    ensures
        watch.route_len > 0 ==> route_arrived(watch, 0),
        route_len > 0 ==> !route_arrived(watch, route_len),
        watch.route_len == 0 ==> !route_arrived(watch, route_len),
{
}

/// A higher level is heard once one was seen before; a lower one never is.
pub proof fn when_levels_are_heard(watch: SfxWatch, level: u32)
    ensures
        watch.level > 0 && level > watch.level ==> level_gained(watch, level),
        level <= watch.level ==> !level_gained(watch, level),
{
}

/// The end of a fight is heard, not its beginning.
pub proof fn when_victories_are_heard(watch: SfxWatch, combat_active: bool)
    ensures
        watch.combat_active ==> combat_ended(watch, false),
        !combat_ended(watch, true),
        !watch.combat_active ==> !combat_ended(watch, combat_active),
{
}

/// How many notes each sound has, and which way they go: gold, levels and
/// victories rise, arrivals fall. All notes are of one chord.
pub proof fn what_sounds_sound_like(kind: SfxKind, i: int)
    ensures
        kind == SfxKind::GoldGained || kind == SfxKind::RouteArrived ==> phrase(kind).len() == 2,
        kind == SfxKind::LevelUp ==> phrase(kind).len() == 3,
        kind == SfxKind::CombatVictory ==> phrase(kind).len() == 4,
        0 <= i < phrase(kind).len() - 1 ==> ({
            let (note, next) = (phrase(kind)[i], phrase(kind)[i + 1]);
            &&& note.offset < next.offset <= note.offset + note.duration
            &&& note.duration == 8 && next.duration >= 8
            &&& kind != SfxKind::RouteArrived ==> note.freq_hz < next.freq_hz
            &&& kind == SfxKind::RouteArrived ==> note.freq_hz > next.freq_hz
        }),
        0 <= i < phrase(kind).len() ==> ({
            let hz = phrase(kind)[i].freq_hz;
            let gain = phrase(kind)[i].gain;
            &&& hz == 392 || hz == 523 || hz == 659 || hz == 784
            &&& kind == SfxKind::RouteArrived ==> gain <= 15
            &&& kind != SfxKind::RouteArrived ==> 22 <= gain <= 28
        }),
        phrase(kind)[0].offset == 0,
{
}

/// How long each sound lasts.
pub proof fn how_long_sounds_last()
    ensures
        phrase_end(phrase(SfxKind::GoldGained)) == 16,
        phrase_end(phrase(SfxKind::RouteArrived)) == 20,
        phrase_end(phrase(SfxKind::LevelUp)) == 32,
        phrase_end(phrase(SfxKind::CombatVictory)) == 44,
{
    reveal_with_fuel(phrase_end, 5);
}

/// A phrase ends with the note that ends last.
pub proof fn phrases_end_with_their_last_note(notes: Seq<Note>, note: Note, i: int)
    ensures
        phrase_end(Seq::empty()) == 0,
        phrase_end(notes.push(note)) >= note.offset + note.duration,
        phrase_end(notes.push(note)) >= phrase_end(notes),
        phrase_end(notes.push(note)) == note.offset + note.duration || phrase_end(notes.push(note))
            == phrase_end(notes),
{
    assert(notes.push(note).drop_last() =~= notes);
    assert(notes.push(note).last() == note);
}

} // verus!
