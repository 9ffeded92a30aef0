//! Reminders that come at a later time.

use vstd::prelude::*;
use vstd::string::*;

use crate::domain::conversation;
use crate::domain::conversation::{Conversation, ConversationManager, InboundMessage};

verus! {

/// A reminder for a conversation at a Unix time.
#[derive(Debug)]
pub struct Reminder {
    pub at_unix: i64,
    pub conversation: Conversation,
    pub message: String,
}

/// How many seconds are left until a time, none when it has passed.
pub fn delay_seconds(at_unix: i64, now: i64) -> (r: u64)
    requires
        i64::MIN <= at_unix - now <= i64::MAX,
    ensures
        r == (if at_unix > now {
            at_unix - now
        } else {
            0
        }),
{
    if at_unix > now {
        (at_unix - now) as u64
    } else {
        0
    }
}

impl Reminder {
    /// The reminder as a chat message from the scheduler, at the time it is
    /// delivered. `None` where the persona has no inbox.
    pub fn deliver_at(&self, manager: &ConversationManager, now: i64) -> (r: Option<
        (u64, InboundMessage),
    >)
        ensures
            match r {
                Some(d) => {
                    &&& manager@.inboxes.dom().contains(self.conversation.persona@)
                    &&& d.0 == manager@.inboxes[self.conversation.persona@]
                    &&& d.1@ == (conversation::InboundView {
                        conversation: self.conversation@,
                        sender: "scheduler"@,
                        prefix: ""@,
                        content: self.message@,
                        timestamp: now,
                        request_id: None,
                    })
                },
                None => !manager@.inboxes.dom().contains(self.conversation.persona@),
            },
    {
        manager.deliver_at(
            &self.conversation,
            "scheduler",
            "",
            self.message.as_str(),
            now,
            None,
        )
    }
}

/// A reminder waits for the time that is left, and not at all once its time has
/// passed: with the pause it comes at its time or later, never earlier.
pub proof fn law_reminders_wait_for_their_time(at_unix: i64, now: i64, r: u64)
    requires
        i64::MIN <= at_unix - now <= i64::MAX,
        call_ensures(delay_seconds, (at_unix, now), r),
    ensures
        now + r >= at_unix,
        at_unix >= now ==> now + r == at_unix,
        at_unix <= now ==> r == 0,
{
}

/// A reminder comes whole, to the conversation that it was made for, as a
/// message of the scheduler.
pub proof fn law_reminders_come_whole(
    reminder: Reminder,
    manager: ConversationManager,
    now: i64,
    r: Option<(u64, InboundMessage)>,
)
    requires
        call_ensures(Reminder::deliver_at, (&reminder, &manager, now), r),
    ensures
        r is Some <==> manager@.inboxes.dom().contains(reminder.conversation.persona@),
        r matches Some(d) ==> d.0 == manager@.inboxes[reminder.conversation.persona@]
            && d.1.content@ == reminder.message@ && d.1.sender@ == "scheduler"@ && d.1.prefix@
            == ""@ && d.1.timestamp == now && d.1.conversation.persona@
            == reminder.conversation.persona@ && d.1.conversation.conversation_id@
            == reminder.conversation.conversation_id@ && d.1.request_id is None,
{
    match r {
        Some(d) => {
            assert(d.1@.conversation == d.1.conversation@);
        },
        None => {},
    }
}

} // verus!
