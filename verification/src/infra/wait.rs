//! Conversations that are held open.
//!
//! The model may hold a conversation open when a message looks incomplete. A
//! wait belongs to one conversation and has a budget: a real message cancels
//! it and restores the budget; a timeout wakes the persona with a notice,
//! which does not; more than the admitted number of waits in a row are
//! rejected.

use vstd::prelude::*;
use vstd::string::*;

use crate::domain::conversation::{Conversation, ConversationView};
use crate::number;
use crate::table::Table;
use crate::text;

verus! {

/// How many waits in a row a conversation admits.
pub const MAX_CONSECUTIVE_WAITS: u32 = 3;

/// How long a wait lasts when nothing is said of it.
pub const DEFAULT_WAIT_SECONDS: u64 = 10;

/// Who timeout notices come from.
pub const WAIT_TIMEOUT_SENDER: &'static str = "wait_timeout";

/// The wait of one conversation.
#[derive(Debug, Clone, Copy, PartialEq, Eq, Structural)]
pub struct WaitState {
    /// The generation of the latest registration: only its timer may fire.
    pub generation: u64,
    /// Whether a timer may still fire.
    pub pending: bool,
    /// The waits since the last real message.
    pub count: u32,
}

/// The view of a [`WaitHub`].
pub struct HubView {
    pub waits: Map<ConversationView, WaitState>,
    /// The generation that was given out last.
    pub counter: u64,
}

/// What holds of every hub: generations were given out, and budgets are kept.
pub open spec fn valid(h: HubView) -> bool {
    forall|c: ConversationView| #[trigger]
        h.waits.dom().contains(c) ==> h.waits[c].generation <= h.counter && 1 <= h.waits[c].count
            <= MAX_CONSECUTIVE_WAITS
}

/// The waits in a row that a conversation has used.
pub open spec fn used(h: HubView, c: ConversationView) -> int {
    if h.waits.dom().contains(c) {
        h.waits[c].count as int
    } else {
        0
    }
}

/// The hub after an admitted wait.
pub open spec fn registered(h: HubView, c: ConversationView) -> HubView {
    let generation = (h.counter + 1) as u64;
    HubView {
        waits: h.waits.insert(
            c,
            WaitState { generation, pending: true, count: (used(h, c) + 1) as u32 },
        ),
        counter: generation,
    }
}

/// Whether the timer of a generation may fire.
pub open spec fn armed(h: HubView, c: ConversationView, generation: u64) -> bool {
    h.waits.dom().contains(c) && h.waits[c].pending && h.waits[c].generation == generation
}

/// The hub after the timer of a generation ran out.
pub open spec fn expired(h: HubView, c: ConversationView, generation: u64) -> HubView {
    if armed(h, c, generation) {
        HubView { waits: h.waits.insert(c, WaitState { pending: false, ..h.waits[c] }), ..h }
    } else {
        h
    }
}

/// The hub after a real message or a cleared session.
pub open spec fn cancelled(h: HubView, c: ConversationView) -> HubView {
    HubView { waits: h.waits.remove(c), ..h }
}

/// The notice of a wait that ran out.
pub open spec fn notice(seconds: nat, reason: Option<Seq<char>>) -> Seq<char> {
    match reason {
        Some(reason) => "[等待超时] 你请求等待（原因："@ + reason + "），"@ + number::decimal_nat(
            seconds,
        ) + notice_tail(),
        None => "[等待超时] 你请求等待，"@ + number::decimal_nat(seconds) + notice_tail(),
    }
}

/// How every notice ends.
pub open spec fn notice_tail() -> Seq<char> {
    " 秒内没有新的消息到达。如果你还在等对方把话说完，可以主动发送一条消息询问（例如“？”），也可以继续等待或就此结束。"@
}

/// The notice of a wait that ran out.
pub fn timeout_text(seconds: u64, reason: Option<&str>) -> (r: String)
    ensures
        r@ == notice(seconds as nat, text::opt_str(reason)),
{
    let tail =
        " 秒内没有新的消息到达。如果你还在等对方把话说完，可以主动发送一条消息询问（例如“？”），也可以继续等待或就此结束。";
    let count = number::u64_text(seconds);
    match reason {
        Some(reason) => "[等待超时] 你请求等待（原因：".to_owned().concat(reason).concat(
            "），",
        ).concat(count.as_str()).concat(tail),
        None => "[等待超时] 你请求等待，".to_owned().concat(count.as_str()).concat(tail),
    }
}

/// A timer to be started: when it runs out, the hub says whether the notice is
/// to be delivered.
#[derive(Debug)]
pub struct Timer {
    pub conversation: Conversation,
    pub generation: u64,
    pub seconds: u64,
    pub text: String,
}

/// The message of a rejected wait.
pub open spec fn rejected_text() -> Seq<char> {
    "wait rejected: 3 consecutive waits used up; reply now or end the turn silently"@
}

/// The conversations that are held open.
pub struct WaitHub {
    waits: Table<Conversation, WaitState>,
    counter: u64,
}

impl View for WaitHub {
    type V = HubView;

    closed spec fn view(&self) -> HubView {
        HubView { waits: self.waits@, counter: self.counter }
    }
}

impl WaitHub {
    pub fn new() -> (r: Self)
        ensures
            r@ == (HubView { waits: Map::empty(), counter: 0 }),
            valid(r@),
    {
        WaitHub { waits: Table::new(), counter: 0 }
    }

    /// Registers a wait in place of a pending one, unless the budget is used
    /// up. Gives the timer to start; no seconds means to wait for the next
    /// real message, without a timer.
    pub fn register(
        &mut self,
        persona: &str,
        conversation_id: &str,
        seconds: u64,
        reason: Option<&str>,
    ) -> (r: Result<Option<Timer>, String>)
        requires
            valid(old(self)@),
            old(self)@.counter < u64::MAX,
        ensures
            valid(final(self)@),
            ({
                let c = ConversationView { persona: persona@, conversation_id: conversation_id@ };
                if used(old(self)@, c) >= MAX_CONSECUTIVE_WAITS {
                    &&& r matches Err(e) && e@ == rejected_text()
                    &&& final(self)@ == old(self)@
                } else {
                    &&& final(self)@ == registered(old(self)@, c)
                    &&& r matches Ok(timer)
                    &&& seconds == 0 ==> timer is None
                    &&& seconds > 0 ==> (timer matches Some(t) && t.conversation@ == c
                        && t.generation == final(self)@.counter && t.seconds == seconds && t.text@
                        == notice(seconds as nat, text::opt_str(reason)))
                }
            }),
    {
        let conversation = Conversation::new(persona, conversation_id);
        let ghost before = self@;
        let ghost c = conversation@;
        let used = match self.waits.get(&conversation) {
            Some(state) => state.count,
            None => 0,
        };
        if used >= MAX_CONSECUTIVE_WAITS {
            return Err(
                "wait rejected: 3 consecutive waits used up; reply now or end the turn silently".to_owned(),
            );
        }
        let generation = self.counter + 1;
        self.counter = generation;
        self.waits.insert(
            conversation.clone(),
            WaitState { generation, pending: true, count: used + 1 },
        );
        proof {
            assert(self@ == registered(before, c));
            assert forall|k: ConversationView| #[trigger]
                self@.waits.dom().contains(k) implies self@.waits[k].generation <= self@.counter
                && 1 <= self@.waits[k].count <= MAX_CONSECUTIVE_WAITS by {
                if k != c {
                    assert(before.waits.dom().contains(k));
                }
            }
        }
        if seconds == 0 {
            return Ok(None);
        }
        Ok(Some(Timer { conversation, generation, seconds, text: timeout_text(seconds, reason) }))
    }

    /// A timer ran out: whether its notice is to be delivered.
    pub fn expire(&mut self, timer: &Timer) -> (r: bool)
        requires
            valid(old(self)@),
        ensures
            valid(final(self)@),
            r == armed(old(self)@, timer.conversation@, timer.generation),
            final(self)@ == expired(old(self)@, timer.conversation@, timer.generation),
    {
        let ghost before = self@;
        let state = match self.waits.get(&timer.conversation) {
            Some(state) => *state,
            None => {
                return false;
            },
        };
        if state.pending && state.generation == timer.generation {
            self.waits.insert(
                timer.conversation.clone(),
                WaitState { generation: state.generation, pending: false, count: state.count },
            );
            proof {
                assert forall|k: ConversationView| #[trigger]
                    self@.waits.dom().contains(k) implies self@.waits[k].generation
                    <= self@.counter && 1 <= self@.waits[k].count <= MAX_CONSECUTIVE_WAITS by {
                    assert(before.waits.dom().contains(k));
                }
            }
            true
        } else {
            false
        }
    }

    /// Cancels the wait of a conversation and restores its budget: a real
    /// message came, or the session was cleared.
    pub fn cancel(&mut self, persona: &str, conversation_id: &str)
        requires
            valid(old(self)@),
        ensures
            valid(final(self)@),
            final(self)@ == cancelled(
                old(self)@,
                ConversationView { persona: persona@, conversation_id: conversation_id@ },
            ),
    {
        let ghost before = self@;
        self.waits.remove(&Conversation::new(persona, conversation_id));
        assert forall|k: ConversationView| #[trigger]
            self@.waits.dom().contains(k) implies self@.waits[k].generation <= self@.counter && 1
            <= self@.waits[k].count <= MAX_CONSECUTIVE_WAITS by {
            assert(before.waits.dom().contains(k));
        }
    }
}

impl Default for WaitHub {
    fn default() -> (r: Self)
        ensures
            r@ == (HubView { waits: Map::empty(), counter: 0 }),
            valid(r@),
    {
        WaitHub::new()
    }
}

// What every hub keeps --------------------------------------------------------

/// Whether the timer of a generation will never fire again.
pub open spec fn spent(h: HubView, c: ConversationView, generation: u64) -> bool {
    generation <= h.counter && !armed(h, c, generation)
}

/// A timer is spent once it fired, once its wait was cancelled, and once its
/// wait was replaced by another.
pub proof fn law_fired_cancelled_and_replaced_timers_are_spent(
    h: HubView,
    c: ConversationView,
    generation: u64,
)
    requires
        valid(h),
        generation <= h.counter < u64::MAX,
    ensures
        spent(expired(h, c, generation), c, generation),
        spent(cancelled(h, c), c, generation),
        spent(registered(h, c), c, generation),
{
}

/// A spent timer stays spent, whatever happens in this or another
/// conversation: it never fires.
pub proof fn law_spent_timers_stay_spent(
    h: HubView,
    c: ConversationView,
    generation: u64,
    other: ConversationView,
    other_generation: u64,
)
    requires
        valid(h),
        h.counter < u64::MAX,
        spent(h, c, generation),
    ensures
        spent(expired(h, other, other_generation), c, generation),
        spent(cancelled(h, other), c, generation),
        spent(registered(h, other), c, generation),
{
}

/// A fresh wait is armed, and what happens in other conversations does not
/// change that.
pub proof fn law_armed_timers_are_not_disturbed(
    h: HubView,
    c: ConversationView,
    other: ConversationView,
    other_generation: u64,
)
    requires
        valid(h),
        h.counter < u64::MAX - 1,
        other != c,
    ensures
        ({
            let armed_hub = registered(h, c);
            let generation = armed_hub.counter;
            &&& armed(armed_hub, c, generation)
            &&& armed(expired(armed_hub, other, other_generation), c, generation)
            &&& armed(cancelled(armed_hub, other), c, generation)
            &&& armed(registered(armed_hub, other), c, generation)
        }),
{
}

/// The budget: each wait uses one of it, a timeout gives nothing back, a real
/// message restores all of it, and other conversations have their own.
pub proof fn law_only_real_messages_restore_the_budget(
    h: HubView,
    c: ConversationView,
    other: ConversationView,
    generation: u64,
)
    requires
        valid(h),
        h.counter < u64::MAX,
        used(h, c) < MAX_CONSECUTIVE_WAITS,
        other != c,
    ensures
        used(registered(h, c), c) == used(h, c) + 1,
        used(expired(h, c, generation), c) == used(h, c),
        used(cancelled(h, c), c) == 0,
        used(registered(h, c), other) == used(h, other),
        used(cancelled(h, c), other) == used(h, other),
{
}

/// A registered wait is pending under a generation that no wait had before, and
/// counts one more than the waits before it; nothing else changes.
pub proof fn law_registering_changes_one_conversation(
    h: HubView,
    c: ConversationView,
    other: ConversationView,
)
    requires
        h.counter < u64::MAX,
        used(h, c) < 3,
        other != c,
    ensures
        ({
            let after = registered(h, c);
            &&& after.counter == h.counter + 1
            &&& after.waits.dom().contains(c)
            &&& after.waits[c].pending
            &&& after.waits[c].generation == after.counter
            &&& !h.waits.dom().contains(c) ==> after.waits[c].count == 1
            &&& h.waits.dom().contains(c) ==> after.waits[c].count == h.waits[c].count + 1
            &&& after.waits.dom().contains(other) == h.waits.dom().contains(other)
            &&& h.waits.dom().contains(other) ==> after.waits[other] == h.waits[other]
        }),
        MAX_CONSECUTIVE_WAITS == 3,
        DEFAULT_WAIT_SECONDS == 10,
{
}

/// A timer that ran out ends its own wait, once, and keeps its count; a
/// cancelled wait is gone. Nothing else changes.
pub proof fn law_ending_a_wait_changes_one_conversation(
    h: HubView,
    c: ConversationView,
    other: ConversationView,
    generation: u64,
)
    requires
        other != c,
    ensures
        ({
            let mine = h.waits.dom().contains(c) && h.waits[c].pending && h.waits[c].generation
                == generation;
            let after = expired(h, c, generation);
            &&& armed(h, c, generation) == mine
            &&& mine ==> after.waits.dom().contains(c) && !after.waits[c].pending
                && after.waits[c].count == h.waits[c].count && after.waits[c].generation
                == generation
            &&& !mine ==> after == h
            &&& after.counter == h.counter
            &&& after.waits.dom().contains(other) == h.waits.dom().contains(other)
            &&& h.waits.dom().contains(other) ==> after.waits[other] == h.waits[other]
        }),
        ({
            let after = cancelled(h, c);
            &&& !after.waits.dom().contains(c)
            &&& after.counter == h.counter
            &&& after.waits.dom().contains(other) == h.waits.dom().contains(other)
            &&& h.waits.dom().contains(other) ==> after.waits[other] == h.waits[other]
        }),
{
}

/// The notice of a wait tells how long it lasted and, where there is one, the
/// whole of its reason.
pub proof fn law_notices_tell_time_and_reason(seconds: nat, reason: Seq<char>)
    ensures
        notice(seconds, None) == "[等待超时] 你请求等待，"@ + number::decimal(seconds as int)
            + notice_tail(),
        ({
            let head = "[等待超时] 你请求等待（原因："@;
            let told = notice(seconds, Some(reason));
            &&& told.take(head.len() as int) == head
            &&& told.len() >= head.len() + reason.len()
            &&& told.subrange(head.len() as int, (head.len() + reason.len()) as int) == reason
            &&& told.skip((head.len() + reason.len()) as int) == "），"@ + number::decimal(
                seconds as int,
            ) + notice_tail()
        }),
{
    let head = "[等待超时] 你请求等待（原因："@;
    let told = notice(seconds, Some(reason));
    assert(told.take(head.len() as int) =~= head);
    assert(told.subrange(head.len() as int, (head.len() + reason.len()) as int) =~= reason);
    assert(told.skip((head.len() + reason.len()) as int) =~= "），"@ + number::decimal(
        seconds as int,
    ) + notice_tail());
}

/// A wait is admitted exactly while fewer than three were used since the last
/// real message. An admitted wait of some seconds comes with a timer of its own
/// for as long; one of no seconds has none. A rejected one changes nothing.
pub proof fn law_three_waits_are_admitted(
    hub: &mut WaitHub,
    persona: &str,
    conversation_id: &str,
    seconds: u64,
    reason: Option<&str>,
    r: Result<Option<Timer>, String>,
)
    requires
        valid(old(hub)@),
        old(hub)@.counter < u64::MAX,
        call_ensures(WaitHub::register, (hub, persona, conversation_id, seconds, reason), r),
    ensures
        ({
            let c = ConversationView { persona: persona@, conversation_id: conversation_id@ };
            &&& r is Ok <==> used(old(hub)@, c) < 3
            &&& r is Err ==> final(hub)@ == old(hub)@
            &&& r is Ok ==> used(final(hub)@, c) == used(old(hub)@, c) + 1
            &&& r is Ok ==> (r->Ok_0 is Some <==> seconds > 0)
            &&& r is Ok && seconds > 0 ==> {
                let t = r->Ok_0->Some_0;
                &&& t.seconds == seconds
                &&& t.conversation.persona@ == persona@
                &&& t.conversation.conversation_id@ == conversation_id@
                &&& armed(final(hub)@, c, t.generation)
                &&& t.text@ == notice(
                    seconds as nat,
                    match reason {
                        Some(s) => Some(s@),
                        None => None,
                    },
                )
            }
        }),
{
    if r is Ok && seconds > 0 {
        let t = r->Ok_0->Some_0;
        assert(t.conversation@.persona == t.conversation.persona@);
        assert(t.conversation@.conversation_id == t.conversation.conversation_id@);
    }
}

} // verus!
