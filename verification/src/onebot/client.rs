//! The connection to the OneBot implementation: when to reconnect, and what
//! becomes of what comes in.

use vstd::prelude::*;
use vstd::string::*;

use crate::onebot::types::{ActionResponse, PostEvent};
use crate::table::Table;
use crate::text;

verus! {

/// A connection that was up this long counts as healthy, in seconds.
pub const STABLE_CONNECTION: u64 = 30;

/// The longest pause between two attempts, in seconds.
pub const MAX_BACKOFF: u64 = 30;

/// How a connection ended.
#[derive(Debug, Clone, Copy, PartialEq, Eq, Structural)]
pub enum WsEnd {
    /// It closed after being up this many seconds.
    Gone(u64),
    /// It failed.
    Failed,
    /// The bridge shut down.
    Shutdown,
}

/// The pause before the next attempt, in seconds.
#[derive(Debug, Clone, Copy, PartialEq, Eq, Structural)]
pub struct Backoff {
    pub seconds: u64,
}

/// The pause that follows the end of a connection: a healthy connection starts
/// over at one second.
pub open spec fn pause_after(b: Backoff, end: WsEnd) -> u64 {
    match end {
        WsEnd::Gone(up) if up >= STABLE_CONNECTION => 1,
        _ => b.seconds,
    }
}

/// The pause after that one: twice as long, up to the longest.
pub open spec fn doubled(seconds: u64) -> Backoff {
    Backoff {
        seconds: if 2 * seconds <= MAX_BACKOFF {
            (2 * seconds) as u64
        } else {
            MAX_BACKOFF
        },
    }
}

impl Backoff {
    /// The pause before the second attempt is one second.
    pub fn new() -> (r: Self)
        ensures
            r.seconds == 1,
    {
        Backoff { seconds: 1 }
    }

    /// A connection ended: how long to pause before the next attempt, or
    /// `None` to stop.
    pub fn ended(&mut self, end: WsEnd) -> (r: Option<u64>)
        requires
            1 <= old(self).seconds <= MAX_BACKOFF,
        ensures
            1 <= final(self).seconds <= MAX_BACKOFF,
            match end {
                WsEnd::Shutdown => r is None && *final(self) == *old(self),
                _ => r == Some(pause_after(*old(self), end)) && *final(self) == doubled(
                    pause_after(*old(self), end),
                ),
            },
    {
        let pause = match end {
            WsEnd::Shutdown => {
                return None;
            },
            WsEnd::Gone(up) => if up >= STABLE_CONNECTION {
                1
            } else {
                self.seconds
            },
            WsEnd::Failed => self.seconds,
        };
        self.seconds = if 2 * pause <= MAX_BACKOFF {
            2 * pause
        } else {
            MAX_BACKOFF
        };
        Some(pause)
    }
}

/// The pause after a number of failures in a row.
pub open spec fn pause_after_failures(n: nat) -> u64
    decreases n,
{
    if n == 0 {
        1
    } else {
        doubled(pause_after_failures((n - 1) as nat)).seconds
    }
}

/// Failures in a row double the pause until it stays at the longest: 1, 2, 4,
/// 8, 16 seconds, then 30 each time; it never leaves these bounds and never
/// shrinks.
pub proof fn law_failures_double_the_pause(n: nat)
    ensures
        1 <= pause_after_failures(n) <= MAX_BACKOFF,
        pause_after_failures(n) <= pause_after_failures(n + 1),
        n >= 5 ==> pause_after_failures(n) == MAX_BACKOFF,
        pause_after_failures(4) == 16,
    decreases n,
{
    reveal_with_fuel(pause_after_failures, 6);
    if n > 5 {
        law_failures_double_the_pause((n - 1) as nat);
    }
    if n > 0 {
        law_failures_double_the_pause((n - 1) as nat);
    }
}

// What comes in ---------------------------------------------------------------------

/// The actions whose responses are awaited, by echo, and whether the
/// connection is up.
pub struct OneBotApi {
    pending: Table<String, bool>,
    connected: bool,
}

/// The view of a [`OneBotApi`].
pub struct ApiView {
    pub pending: Set<Seq<char>>,
    pub connected: bool,
}

impl View for OneBotApi {
    type V = ApiView;

    closed spec fn view(&self) -> ApiView {
        ApiView { pending: self.pending@.dom(), connected: self.connected }
    }
}

/// What becomes of a text that came in.
#[derive(Debug)]
pub enum Dispatch {
    /// An event for the bridge.
    Forward(PostEvent),
    /// The awaited response of an action.
    Answer { echo: String, response: ActionResponse },
    /// A response that nobody awaits.
    Unclaimed,
    /// Neither an event nor a response.
    Unrecognized,
}

impl OneBotApi {
    pub fn new() -> (r: Self)
        ensures
            r@ == (ApiView { pending: Set::empty(), connected: false }),
    {
        let r = OneBotApi { pending: Table::new(), connected: false };
        assert(r@.pending =~= Set::empty());
        r
    }

    pub fn is_connected(&self) -> (r: bool)
        ensures
            r == self@.connected,
    {
        self.connected
    }

    pub fn set_connected(&mut self, connected: bool)
        ensures
            final(self)@ == (ApiView { connected, ..old(self)@ }),
    {
        self.connected = connected;
    }

    /// Awaits the response of an action.
    pub fn await_response(&mut self, echo: &str)
        ensures
            final(self)@ == (ApiView { pending: old(self)@.pending.insert(echo@), ..old(self)@ }),
    {
        let ghost before = self@.pending;
        self.pending.insert(echo.to_owned(), true);
        assert(self@.pending =~= before.insert(echo@));
    }

    /// Awaits the response of an action no longer.
    pub fn give_up(&mut self, echo: &str)
        ensures
            final(self)@ == (ApiView { pending: old(self)@.pending.remove(echo@), ..old(self)@ }),
    {
        let ghost before = self@.pending;
        self.pending.remove(&echo.to_owned());
        assert(self@.pending =~= before.remove(echo@));
    }

    /// What becomes of a text that came in. `event` and `response` are what
    /// reading it as one or the other gave; an event takes precedence. A
    /// response is handed out once.
    pub fn incoming(&mut self, event: Option<PostEvent>, response: Option<ActionResponse>) -> (r:
        Dispatch)
        ensures
            match (event, response) {
                (Some(e), _) => r == Dispatch::Forward(e) && final(self)@ == old(self)@,
                (None, Some(resp)) => match resp.echo {
                    Some(echo) => if old(self)@.pending.contains(echo@) {
                        &&& r matches Dispatch::Answer { echo: told, response: given }
                        &&& told == echo
                        &&& given == resp
                        &&& final(self)@ == (ApiView {
                            pending: old(self)@.pending.remove(echo@),
                            ..old(self)@
                        })
                    } else {
                        r is Unclaimed && final(self)@ == old(self)@
                    },
                    None => r is Unclaimed && final(self)@ == old(self)@,
                },
                (None, None) => r is Unrecognized && final(self)@ == old(self)@,
            },
    {
        let ghost before = self@.pending;
        match event {
            Some(e) => {
                return Dispatch::Forward(e);
            },
            None => {},
        }
        match response {
            Some(resp) => {
                let echo = match &resp.echo {
                    Some(echo) => echo.clone(),
                    None => {
                        return Dispatch::Unclaimed;
                    },
                };
                if self.pending.remove(&echo).is_some() {
                    assert(self@.pending =~= before.remove(echo@));
                    Dispatch::Answer { echo, response: resp }
                } else {
                    assert(self@.pending =~= before);
                    Dispatch::Unclaimed
                }
            },
            None => Dispatch::Unrecognized,
        }
    }
}

impl Default for OneBotApi {
    fn default() -> (r: Self)
        ensures
            r@ == (ApiView { pending: Set::empty(), connected: false }),
    {
        OneBotApi::new()
    }
}

/// The error of an action that could not be sent.
pub fn closed_text() -> (r: String)
    ensures
        r@ == "OneBot action channel closed"@,
{
    "OneBot action channel closed".to_owned()
}

/// The error of an action whose waiter was dropped.
pub fn dropped_text(echo: &str) -> (r: String)
    ensures
        r@ == "OneBot action '"@ + echo@ + "' sender dropped"@,
{
    "OneBot action '".to_owned().concat(echo).concat("' sender dropped")
}

/// How long the response of an action is awaited, in seconds.
pub const ACTION_TIMEOUT: u64 = 15;

/// The error of an action that was not answered in time.
pub fn timed_out_text(echo: &str) -> (r: String)
    ensures
        r@ == "OneBot action '"@ + echo@ + "' timed out after 15s"@,
{
    "OneBot action '".to_owned().concat(echo).concat("' timed out after 15s")
}

/// Only a connection that was up for half a minute starts the pauses over;
/// every other end keeps the pause that was reached. A pause is followed by one
/// of twice its length, but never of more than half a minute.
pub proof fn law_only_healthy_connections_start_over(b: Backoff, up: u64, seconds: u64)
    ensures
        up >= 30 ==> pause_after(b, WsEnd::Gone(up)) == 1,
        up < 30 ==> pause_after(b, WsEnd::Gone(up)) == b.seconds,
        pause_after(b, WsEnd::Failed) == b.seconds,
        seconds <= 15 ==> doubled(seconds).seconds == 2 * seconds,
        seconds >= 15 ==> doubled(seconds).seconds == 30,
{
}

/// An event is handed on as it came; a response goes to the action that awaits
/// it, once, and to no other.
pub proof fn law_responses_go_to_their_action(
    api: &mut OneBotApi,
    event: Option<PostEvent>,
    response: Option<ActionResponse>,
    r: Dispatch,
)
    requires
        call_ensures(OneBotApi::incoming, (api, event, response), r),
    ensures
        event matches Some(e) ==> r == Dispatch::Forward(e),
        r matches Dispatch::Answer { echo, response: given } ==> {
            &&& event is None
            &&& response is Some && response->Some_0 == given
            &&& given.echo is Some && given.echo->Some_0@ == echo@
            &&& old(api)@.pending.contains(echo@)
            &&& !final(api)@.pending.contains(echo@)
        },
        event is None && response is Some && response->Some_0.echo is Some && old(
            api,
        )@.pending.contains(response->Some_0.echo->Some_0@) ==> r is Answer,
        !(r is Answer) ==> final(api)@ == old(api)@,
        final(api)@.connected == old(api)@.connected,
{
}

/// After an end other than a shutdown the next attempt comes after the pause
/// that was reached, and the pause after that is longer, up to half a minute.
pub proof fn law_reconnecting_waits_longer_each_time(b: &mut Backoff, end: WsEnd, r: Option<u64>)
    requires
        1 <= old(b).seconds <= 30,
        call_ensures(Backoff::ended, (b, end), r),
    ensures
        r is None <==> end is Shutdown,
        end is Failed ==> r == Some(old(b).seconds),
        r matches Some(pause) ==> 1 <= pause <= 30,
        r matches Some(pause) ==> pause <= 15 ==> final(b).seconds == 2 * pause,
        r matches Some(pause) ==> pause > 15 ==> final(b).seconds == 30,
        end matches WsEnd::Gone(up) ==> up >= 30 ==> r == Some(1u64),
{
}

} // verus!
