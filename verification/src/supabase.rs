//! Long polling of the players' state, and who may write.

use vstd::prelude::*;
use vstd::string::StringExecFns;

use crate::text::{append_decimal, decimal_text};

verus! {

/// Where the database is reached.
#[derive(Debug, Clone)]
pub struct SupabaseConfig {
    pub url: String,
    pub anon_key: String,
}

/// State of the long-poll loop: whether a request is on its way, and the last
/// tick that was seen.
#[derive(Debug, Clone, Copy, PartialEq, Eq, Structural)]
pub struct LongPollState {
    pub in_flight: bool,
    pub last_tick: u64,
}

impl Default for LongPollState {
    fn default() -> (state: LongPollState)
        ensures
            !state.in_flight,
            state.last_tick == 0,
    {
        LongPollState { in_flight: false, last_tick: 0 }
    }
}

impl LongPollState {
    /// Starts a request unless one is on its way; returns the tick after which
    /// to ask.
    pub fn check_long_poll(&mut self) -> (after: Option<u64>)
        ensures
            after == asks_after(*old(self)),
            *final(self) == polling(*old(self)),
    {
        if self.in_flight {
            return None;
        }
        self.in_flight = true;
        Some(self.last_tick)
    }

    /// Ends a request. `tick` is what a readable answer brought; without one
    /// the same tick is asked for again.
    pub fn finish(&mut self, tick: Option<u64>)
        ensures
            *final(self) == polled(*old(self), tick),
    {
        if let Some(t) = tick {
            self.last_tick = t;
        }
        self.in_flight = false;
    }
}

/// Path of a long poll.
pub fn poll_path(after: u64) -> (path: String)
    ensures
        path@ == "/players/poll?after="@ + decimal_text(after as nat),
{
    let mut path = String::from_str("/players/poll?after=");
    append_decimal(&mut path, after);
    path
}

/// Whether a planned route is written: only for a known player.
pub fn writes_route(player_id: &str) -> (write: bool)
    ensures
        write == (player_id@.len() > 0),
{
    !player_id.is_empty()
}

/// Address of the heartbeat; `None` without a database or a known player.
pub fn heartbeat_url(config: &SupabaseConfig, player_id: &str) -> (url: Option<String>)
    ensures
        url is Some <==> config.url@.len() > 0 && player_id@.len() > 0,
        url matches Some(u) ==> u@ == config.url@ + "/rest/v1/rpc/browser_heartbeat"@,
{
    if config.url.as_str().is_empty() || player_id.is_empty() {
        return None;
    }
    let mut url = String::from_str(config.url.as_str());
    url.append("/rest/v1/rpc/browser_heartbeat");
    Some(url)
}

/// Where a player is, as the server tags it.
#[derive(Debug, Clone)]
pub enum Location {
    Overworld,
    Interior { id: String },
}

/// The interior that a player is in, if any.
pub fn interior_of(location: Option<Location>) -> (id: Option<String>)
    ensures
        id == (match location {
            Some(Location::Interior { id }) => Some(id),
            _ => None,
        }),
{
    match location {
        Some(Location::Interior { id }) => Some(id),
        _ => None,
    }
}

/// State after a request was started.
pub open spec fn polling(state: LongPollState) -> LongPollState {
    LongPollState { in_flight: true, ..state }
}

/// State after a request has ended.
pub open spec fn polled(state: LongPollState, tick: Option<u64>) -> LongPollState {
    LongPollState {
        in_flight: false,
        last_tick: match tick {
            Some(t) => t,
            None => state.last_tick,
        },
    }
}

/// The tick after which a request asks, if one may be started.
pub open spec fn asks_after(state: LongPollState) -> Option<u64> {
    if state.in_flight {
        None
    } else {
        Some(state.last_tick)
    }
}

/// There is one request at a time, and the next one asks for what follows the
/// last answer: nothing is asked twice unless an answer was lost.
pub proof fn polls_follow_each_other(state: LongPollState, tick: Option<u64>)
    requires
        !state.in_flight,
    ensures
        asks_after(polling(state)) is None,
        asks_after(polled(polling(state), tick)) == Some(
            match tick {
                Some(t) => t,
                None => state.last_tick,
            },
        ),
{
}

/// A request only marks that it is on its way; its end keeps the latest tick
/// that was read.
pub proof fn ticks_are_kept(state: LongPollState, tick: u64)
    ensures
        polling(state).in_flight,
        polling(state).last_tick == state.last_tick,
        !polled(state, Some(tick)).in_flight,
        polled(state, Some(tick)).last_tick == tick,
        !polled(state, None).in_flight,
        polled(state, None).last_tick == state.last_tick,
        state.in_flight <==> asks_after(state) is None,
        !state.in_flight ==> asks_after(state) == Some(state.last_tick),
{
}

} // verus!
