//! Day and night: what the server's clock says, and when it is asked.

use vstd::prelude::*;

use crate::scan::{number_text, parse_field};

verus! {

/// The two numbers of the server's clock, in decimal notation: seconds into
/// the cycle, and seconds that a cycle takes.
#[derive(Debug)]
pub struct ServerClock {
    pub time_s: Vec<char>,
    pub cycle_seconds: Vec<char>,
}

/// Reads the server's clock from its answer; both numbers must be there.
pub fn read_clock(text: &str) -> (clock: Option<ServerClock>)
    ensures
        match clock {
            Some(c) => {
                &&& number_text(text@, "\"time_s\":"@) == Some(c.time_s@)
                &&& number_text(text@, "\"cycle_seconds\":"@) == Some(c.cycle_seconds@)
            },
            None => number_text(text@, "\"time_s\":"@) is None || number_text(
                text@,
                "\"cycle_seconds\":"@,
            ) is None,
        },
{
    match (parse_field(text, "\"time_s\":"), parse_field(text, "\"cycle_seconds\":")) {
        (Some(time_s), Some(cycle_seconds)) => Some(ServerClock { time_s, cycle_seconds }),
        _ => None,
    }
}

/// Whether the clock was ever asked for.
#[derive(Debug, Clone, Copy, PartialEq, Eq, Structural)]
pub struct DayNightSync {
    pub boot_fetched: bool,
}

impl DayNightSync {
    /// Whether the server's clock is asked now: at once, and then whenever the
    /// timer is up.
    pub fn poll_server_time(&mut self, timer_up: bool) -> (fetch: bool)
        ensures
            fetch == (timer_up || !old(self).boot_fetched),
            final(self).boot_fetched == (old(self).boot_fetched || fetch),
    {
        if !timer_up && self.boot_fetched {
            return false;
        }
        self.boot_fetched = true;
        true
    }
}

} // verus!
