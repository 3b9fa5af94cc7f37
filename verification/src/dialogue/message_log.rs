//! The message log: notifications typed out line by line.

use vstd::prelude::*;
use vstd::string::{StrSliceExecFns, StringExecFns};

use crate::text::take_chars;

verus! {

/// Lines that the log keeps.
pub const MAX_LOG_LINES: usize = 8;

pub struct NotificationData {
    pub text: String,
    /// Seconds for which the sender would like it to show.
    pub duration: u32,
}

/// Notifications that wait for their turn in the log.
pub struct NotificationQueue {
    pub pending: Vec<NotificationData>,
}

/// Texts of waiting notifications.
pub open spec fn notice_texts(pending: Seq<NotificationData>) -> Seq<Seq<char>> {
    pending.map_values(|n: NotificationData| n.text@)
}

impl Default for NotificationQueue {
    fn default() -> (queue: NotificationQueue)
        ensures
            queue.pending@.len() == 0,
    {
        NotificationQueue { pending: Vec::new() }
    }
}

impl NotificationQueue {
    /// Puts a notification at the end of the queue.
    pub fn notify(&mut self, text: String, duration: u32)
        ensures
            final(self).pending@ == old(self).pending@.push((NotificationData { text, duration })),
            notice_texts(final(self).pending@) == notice_texts(old(self).pending@).push(text@),
    {
        self.pending.push(NotificationData { text, duration });
        assert(notice_texts(self.pending@) =~= notice_texts(old(self).pending@).push(text@));
    }
}

pub struct MessageLog {
    /// Completed lines (fully typed out).
    pub lines: Vec<String>,
    /// Currently typing line.
    pub current_text: Option<String>,
    /// Characters revealed so far in current line.
    pub typewriter_index: usize,
}

/// Content of the log and of the queue before it.
#[verifier::ext_equal]
pub struct LogView {
    pub lines: Seq<Seq<char>>,
    pub current: Option<Seq<char>>,
    pub typed: int,
    pub pending: Seq<Seq<char>>,
}

/// The content of a log and its queue.
pub open spec fn log_view(log: MessageLog, queue: NotificationQueue) -> LogView {
    LogView {
        lines: crate::text::texts(log.lines@),
        current: crate::text::option_text(log.current_text),
        typed: log.typewriter_index as int,
        pending: notice_texts(queue.pending@),
    }
}

impl Default for MessageLog {
    fn default() -> (log: MessageLog)
        ensures
            log.lines@.len() == 0,
            log.current_text is None,
            log.typewriter_index == 0,
    {
        MessageLog { lines: Vec::new(), current_text: None, typewriter_index: 0 }
    }
}

/// The lines with one more at the end; the oldest goes once there are too
/// many.
pub open spec fn with_line(lines: Seq<Seq<char>>, line: Seq<char>) -> Seq<Seq<char>> {
    if lines.len() + 1 > MAX_LOG_LINES {
        lines.push(line).skip(1)
    } else {
        lines.push(line)
    }
}

/// First half of a step: a line typed in full joins the completed ones, any
/// other is typed on by the given number of characters.
pub open spec fn after_typing(log: LogView, steps: int) -> LogView {
    match log.current {
        Some(line) => if log.typed >= line.len() {
            LogView { lines: with_line(log.lines, line), current: None, ..log }
        } else {
            LogView { typed: log.typed + steps, ..log }
        },
        None => log,
    }
}

/// Second half of a step: with no line being typed, the next one starts.
pub open spec fn after_pickup(log: LogView) -> LogView {
    if log.current is None && log.pending.len() > 0 {
        LogView {
            current: Some(log.pending[0]),
            typed: 0,
            pending: log.pending.skip(1),
            ..log
        }
    } else {
        log
    }
}

/// The first `count` lines, a line break after each that is followed by
/// another, but none after leading empty lines.
pub open spec fn joined_lines(lines: Seq<Seq<char>>, count: int) -> Seq<char>
    decreases count,
{
    if count <= 0 {
        Seq::empty()
    } else {
        let before = joined_lines(lines, count - 1);
        (if before.len() > 0 {
            before + "\n"@
        } else {
            before
        }) + lines[count - 1]
    }
}

/// What the log shows: its lines, and as much of the current one as is typed.
pub open spec fn display_of(log: LogView) -> Seq<char> {
    let done = joined_lines(log.lines, log.lines.len() as int);
    match log.current {
        Some(line) => (if done.len() > 0 {
            done + "\n"@
        } else {
            done
        }) + crate::text::prefix(line, log.typed),
        None => done,
    }
}

/// All messages that the log and the queue still hold, oldest first.
pub open spec fn held_messages(log: LogView) -> Seq<Seq<char>> {
    log.lines + (match log.current {
        Some(line) => seq![line],
        None => Seq::empty(),
    }) + log.pending
}

/// Advances the log by one frame, in which `steps` more characters are typed.
pub fn update_notifications(log: &mut MessageLog, queue: &mut NotificationQueue, steps: usize)
    requires
        old(log).typewriter_index + steps <= usize::MAX,
        old(log).lines.len() < usize::MAX,
    ensures
        log_view(*final(log), *final(queue)) == after_pickup(
            after_typing(log_view(*old(log), *old(queue)), steps as int),
        ),
{
    let ghost before = log_view(*log, *queue);
    let mut done = false;
    if let Some(current) = &log.current_text {
        let char_count: usize = current.as_str().unicode_len();
        done = log.typewriter_index >= char_count;
    }
    if done {
        let finished = log.current_text.take();
        if let Some(line) = finished {
            let ghost lines = log.lines@;
            log.lines.push(line);
            assert(crate::text::texts(log.lines@) =~= crate::text::texts(lines).push(line@));
            if log.lines.len() > MAX_LOG_LINES {
                let ghost longer = log.lines@;
                log.lines.remove(0);
                assert(crate::text::texts(log.lines@) =~= crate::text::texts(longer).skip(1));
            }
        }
    } else if log.current_text.is_some() {
        log.typewriter_index = log.typewriter_index + steps;
    }
    assert(log_view(*log, *queue) =~= after_typing(before, steps as int));

    let ghost between = log_view(*log, *queue);
    if log.current_text.is_none() && queue.pending.len() > 0 {
        let ghost waiting = queue.pending@;
        let notif = queue.pending.remove(0);
        assert(notice_texts(queue.pending@) =~= notice_texts(waiting).skip(1));
        assert(notif.text@ == notice_texts(waiting)[0]);
        log.current_text = Some(notif.text);
        log.typewriter_index = 0;
    }
    assert(log_view(*log, *queue) =~= after_pickup(between));
}

/// What the log shows.
pub fn display_text(log: &MessageLog, queue: &NotificationQueue) -> (display: String)
    ensures
        display@ == display_of(log_view(*log, *queue)),
{
    let ghost lines = crate::text::texts(log.lines@);
    let mut display = String::new();
    let mut i: usize = 0;
    while i < log.lines.len()
        invariant
            i <= log.lines.len(),
            lines == crate::text::texts(log.lines@),
            display@ == joined_lines(lines, i as int),
        decreases log.lines.len() - i,
    {
        if !display.as_str().is_empty() {
            display.append("\n");
        }
        display.append(log.lines[i].as_str());
        i = i + 1;
    }
    if let Some(current) = &log.current_text {
        if !display.as_str().is_empty() {
            display.append("\n");
        }
        let visible = take_chars(current.as_str(), log.typewriter_index);
        display.append(visible.as_str());
    }
    display
}

/// The log never keeps more than its lines, whatever happens to it.
pub proof fn log_stays_short(log: LogView, steps: int)
    requires
        log.lines.len() <= MAX_LOG_LINES,
    ensures
        after_pickup(after_typing(log, steps)).lines.len() <= MAX_LOG_LINES,
{
}

/// Messages keep their order and none is lost but the oldest completed lines:
/// what is held after a frame is an end part of what was held before.
pub proof fn messages_keep_their_order(log: LogView, steps: int)
    ensures
        ({
            let after = after_pickup(after_typing(log, steps));
            let before = held_messages(log);
            held_messages(after) == before || (log.lines.len() >= MAX_LOG_LINES && held_messages(
                after,
            ) == before.skip(1))
        }),
{
    let mid = after_typing(log, steps);
    let after = after_pickup(mid);
    assert(held_messages(after) =~= held_messages(mid));
    match log.current {
        Some(line) => {
            if log.typed >= line.len() {
                if log.lines.len() + 1 > MAX_LOG_LINES {
                    assert(held_messages(mid) =~= held_messages(log).skip(1));
                } else {
                    assert(held_messages(mid) =~= held_messages(log));
                }
            } else {
                assert(held_messages(mid) =~= held_messages(log));
            }
        },
        None => {},
    }
}

/// A frame types on a line that is not complete, by so many characters, and
/// touches nothing else. A complete line becomes the last of the log, which
/// keeps the latest eight, and the oldest waiting message starts in its place.
pub proof fn what_a_frame_does(log: LogView, line: Seq<char>, steps: int)
    requires
        log.current == Some(line),
        log.lines.len() <= 8,
    ensures
        ({
            let after = after_pickup(after_typing(log, steps));
            &&& log.typed < line.len() ==> {
                &&& after.current == Some(line)
                &&& after.typed == log.typed + steps
                &&& after.lines == log.lines
                &&& after.pending == log.pending
            }
            &&& log.typed >= line.len() ==> {
                &&& after.lines.len() == (if log.lines.len() < 8 {
                    log.lines.len() + 1
                } else {
                    8
                })
                &&& after.lines.last() == line
                &&& log.lines.len() < 8 ==> after.lines.drop_last() == log.lines
                &&& log.lines.len() == 8 ==> after.lines.drop_last() == log.lines.skip(1)
                &&& log.pending.len() == 0 ==> after.current is None && after.pending.len() == 0
                &&& log.pending.len() > 0 ==> {
                    &&& after.current == Some(log.pending[0])
                    &&& after.typed == 0
                    &&& after.pending == log.pending.skip(1)
                }
            }
        }),
{
    let after = after_pickup(after_typing(log, steps));
    if log.typed >= line.len() {
        if log.lines.len() < 8 {
            assert(after.lines.drop_last() =~= log.lines);
        } else {
            assert(after.lines.drop_last() =~= log.lines.skip(1));
        }
    }
}

/// Without a line being typed, the oldest waiting message starts; without one
/// that waits, nothing happens.
pub proof fn waiting_messages_start_in_turn(log: LogView, steps: int)
    requires
        log.current is None,
    ensures
        ({
            let after = after_pickup(after_typing(log, steps));
            &&& after.lines == log.lines
            &&& log.pending.len() == 0 ==> after == log
            &&& log.pending.len() > 0 ==> {
                &&& after.current == Some(log.pending[0])
                &&& after.typed == 0
                &&& after.pending == log.pending.skip(1)
            }
        }),
{
}

/// The log shows its lines from the oldest on, each on a line of its own, and
/// below them what is typed of the current one.
pub proof fn the_log_shows_its_lines(log: LogView, count: int)
    requires
        1 <= count <= log.lines.len(),
        log.lines[0].len() > 0,
    ensures
        joined_lines(log.lines, 1) == log.lines[0],
        count < log.lines.len() ==> joined_lines(log.lines, count + 1) == joined_lines(
            log.lines,
            count,
        ) + seq!['\n'] + log.lines[count],
        log.current is None ==> display_of(log) == joined_lines(
            log.lines,
            log.lines.len() as int,
        ),
        log.current matches Some(line) ==> 0 <= log.typed <= line.len() ==> display_of(log)
            == joined_lines(log.lines, log.lines.len() as int) + seq!['\n'] + line.take(log.typed),
    decreases log.lines.len() - count,
{
    reveal_strlit("\n");
    assert("\n"@ =~= seq!['\n']);
    assert(joined_lines(log.lines, 0) =~= Seq::empty());
    assert(joined_lines(log.lines, 1) =~= log.lines[0]);
    lemma_joined_len(log.lines, count);
    lemma_joined_len(log.lines, log.lines.len() as int);
    if let Some(line) = log.current {
        assert(line.take(line.len() as int) =~= line);
    }
}

proof fn lemma_joined_len(lines: Seq<Seq<char>>, count: int)
    requires
        1 <= count <= lines.len(),
        lines[0].len() > 0,
    ensures
        joined_lines(lines, count).len() > 0,
    decreases count,
{
    if count > 1 {
        lemma_joined_len(lines, count - 1);
    } else {
        assert(joined_lines(lines, 0) =~= Seq::empty());
    }
}

/// The log's content is its lines, what is being typed, how far, and what
/// waits.
pub proof fn the_log_holds_everything(log: MessageLog, queue: NotificationQueue, i: int)
    ensures
        ({
            let view = log_view(log, queue);
            &&& view.lines.len() == log.lines@.len()
            &&& 0 <= i < log.lines@.len() ==> view.lines[i] == log.lines@[i]@
            &&& log.current_text matches Some(text) ==> view.current == Some(text@)
            &&& log.current_text is None ==> view.current is None
            &&& view.typed == log.typewriter_index
            &&& view.pending.len() == queue.pending@.len()
            &&& 0 <= i < queue.pending@.len() ==> view.pending[i] == queue.pending@[i].text@
        }),
{
}

/// The first message stands alone: no line is left empty above it.
pub proof fn the_first_message_stands_alone(log: LogView)
    requires
        log.lines.len() == 0,
    ensures
        log.current is None ==> display_of(log).len() == 0,
        log.current matches Some(line) ==> 0 <= log.typed <= line.len() ==> display_of(log)
            == line.take(log.typed),
{
    let done = joined_lines(log.lines, 0);
    assert(done.len() == 0);
    if let Some(line) = log.current {
        if 0 <= log.typed <= line.len() {
            assert(line.take(line.len() as int) =~= line);
            assert(done + line.take(log.typed) =~= line.take(log.typed));
        }
    }
}

} // verus!
