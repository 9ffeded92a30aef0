//! Events on the bus that web connections listen to.

use vstd::prelude::*;
use vstd::string::*;

use crate::domain::session;
use crate::platform;
use crate::text;

verus! {

/// What an event is.
#[derive(Debug, Clone, Copy, PartialEq, Eq, Structural)]
pub enum EventKind {
    /// A chat message for a persona to answer.
    Message,
    /// A tool call needs a decision.
    PermissionRequest,
    /// A persona asks to send a message; the context holds the target.
    OutboundMessage,
}

/// An event on the bus.
#[derive(Debug)]
pub struct BusEvent {
    pub kind: EventKind,
    pub sender: String,
    pub content: String,
    pub timestamp: i64,
    pub context: String,
    /// The conversation that the event belongs to, where it has one.
    pub session_id: Option<String>,
    pub request_id: Option<String>,
    pub parent_request_id: Option<String>,
    pub target: Option<String>,
}

/// The view of a [`BusEvent`].
pub struct BusEventView {
    pub kind: EventKind,
    pub sender: Seq<char>,
    pub content: Seq<char>,
    pub timestamp: i64,
    pub context: Seq<char>,
    pub session_id: Option<Seq<char>>,
    pub request_id: Option<Seq<char>>,
    pub parent_request_id: Option<Seq<char>>,
    pub target: Option<Seq<char>>,
}

impl View for BusEvent {
    type V = BusEventView;

    open spec fn view(&self) -> BusEventView {
        BusEventView {
            kind: self.kind,
            sender: self.sender@,
            content: self.content@,
            timestamp: self.timestamp,
            context: self.context@,
            session_id: text::opt_text(self.session_id),
            request_id: text::opt_text(self.request_id),
            parent_request_id: text::opt_text(self.parent_request_id),
            target: text::opt_text(self.target),
        }
    }
}

impl Clone for BusEvent {
    fn clone(&self) -> (r: Self)
        ensures
            r == *self,
    {
        BusEvent {
            kind: self.kind,
            sender: self.sender.clone(),
            content: self.content.clone(),
            timestamp: self.timestamp,
            context: self.context.clone(),
            session_id: session::copy_opt(&self.session_id),
            request_id: session::copy_opt(&self.request_id),
            parent_request_id: session::copy_opt(&self.parent_request_id),
            target: session::copy_opt(&self.target),
        }
    }
}

/// An event of a kind with its text, at a time, and nothing else.
pub open spec fn plain_event(
    kind: EventKind,
    sender: Seq<char>,
    content: Seq<char>,
    timestamp: i64,
    request_id: Option<Seq<char>>,
) -> BusEventView {
    BusEventView {
        kind,
        sender,
        content,
        timestamp,
        context: Seq::empty(),
        session_id: None,
        request_id,
        parent_request_id: None,
        target: None,
    }
}

impl BusEvent {
    /// An event of a kind with its text, at a time, and nothing else.
    pub fn at(
        kind: EventKind,
        sender: String,
        content: String,
        timestamp: i64,
        request_id: Option<String>,
    ) -> (r: Self)
        ensures
            r@ == plain_event(kind, sender@, content@, timestamp, text::opt_text(request_id)),
    {
        let context = String::new();
        assert(context@ =~= Seq::empty());
        BusEvent {
            kind,
            sender,
            content,
            timestamp,
            context,
            session_id: None,
            request_id,
            parent_request_id: None,
            target: None,
        }
    }

    /// The event, for a conversation.
    pub fn with_session(self, session_id: Option<String>) -> (r: Self)
        ensures
            r@ == (BusEventView { session_id: text::opt_text(session_id), ..self@ }),
    {
        BusEvent { session_id, ..self }
    }

    /// A chat message, now.
    pub fn message(sender: String, content: String, request_id: Option<String>) -> (r: Self)
        ensures
            r.timestamp >= 0,
            r@ == plain_event(
                EventKind::Message,
                sender@,
                content@,
                r.timestamp,
                text::opt_text(request_id),
            ),
    {
        BusEvent::at(EventKind::Message, sender, content, platform::unix_seconds(), request_id)
    }

    /// A chat message with the chat it came from, now.
    pub fn message_with_context(
        sender: String,
        content: String,
        request_id: Option<String>,
        context: String,
    ) -> (r: Self)
        ensures
            r.timestamp >= 0,
            r@ == (BusEventView {
                context: context@,
                ..plain_event(
                    EventKind::Message,
                    sender@,
                    content@,
                    r.timestamp,
                    text::opt_text(request_id),
                )
            }),
    {
        let event = BusEvent::message(sender, content, request_id);
        BusEvent { context, ..event }
    }

    /// A chat message for one persona, now.
    pub fn targeted_message(
        sender: String,
        content: String,
        request_id: Option<String>,
        target: String,
    ) -> (r: Self)
        ensures
            r.timestamp >= 0,
            r@ == (BusEventView {
                target: Some(target@),
                ..plain_event(
                    EventKind::Message,
                    sender@,
                    content@,
                    r.timestamp,
                    text::opt_text(request_id),
                )
            }),
    {
        let event = BusEvent::message(sender, content, request_id);
        BusEvent { target: Some(target), ..event }
    }

    /// A chat message for one persona with the chat it came from, now.
    pub fn targeted_message_with_context(
        sender: String,
        content: String,
        request_id: Option<String>,
        target: String,
        context: String,
    ) -> (r: Self)
        ensures
            r.timestamp >= 0,
            r@ == (BusEventView {
                target: Some(target@),
                context: context@,
                ..plain_event(
                    EventKind::Message,
                    sender@,
                    content@,
                    r.timestamp,
                    text::opt_text(request_id),
                )
            }),
    {
        let event = BusEvent::message(sender, content, request_id);
        BusEvent { target: Some(target), context, ..event }
    }

    /// A question to the user, now: its own id is the request id.
    pub fn permission_request(
        sender: String,
        prompt: String,
        permission_id: String,
        parent_request_id: Option<String>,
    ) -> (r: Self)
        ensures
            r.timestamp >= 0,
            r@ == (BusEventView {
                parent_request_id: text::opt_text(parent_request_id),
                ..plain_event(
                    EventKind::PermissionRequest,
                    sender@,
                    prompt@,
                    r.timestamp,
                    Some(permission_id@),
                )
            }),
    {
        let event = BusEvent::at(
            EventKind::PermissionRequest,
            sender,
            prompt,
            platform::unix_seconds(),
            Some(permission_id),
        );
        BusEvent { parent_request_id, ..event }
    }

    /// A message that a persona sends, now: the context holds the target.
    pub fn outbound_message(
        sender: String,
        content: String,
        request_id: Option<String>,
        context: String,
    ) -> (r: Self)
        ensures
            r.timestamp >= 0,
            r@ == (BusEventView {
                context: context@,
                ..plain_event(
                    EventKind::OutboundMessage,
                    sender@,
                    content@,
                    r.timestamp,
                    text::opt_text(request_id),
                )
            }),
    {
        let event = BusEvent::at(
            EventKind::OutboundMessage,
            sender,
            content,
            platform::unix_seconds(),
            request_id,
        );
        BusEvent { context, ..event }
    }
}

/// A bus: every event goes to every subscriber. Subscribers are known by
/// handles.
pub struct EventBus {
    pub subscribers: Vec<u64>,
    pub next: u64,
}

impl EventBus {
    pub fn new() -> (r: Self)
        ensures
            r.subscribers@ == Seq::<u64>::empty(),
            r.next == 0,
    {
        EventBus { subscribers: Vec::new(), next: 0 }
    }

    /// Subscribes under a fresh handle.
    pub fn subscribe(&mut self) -> (r: u64)
        requires
            old(self).next < u64::MAX,
        ensures
            r == old(self).next,
            final(self).next == old(self).next + 1,
            final(self).subscribers@ == old(self).subscribers@.push(r),
    {
        let handle = self.next;
        self.subscribers.push(handle);
        self.next = handle + 1;
        handle
    }

    /// Subscribes under a handle that the caller holds already.
    pub fn subscribe_with_sender(&mut self, handle: u64)
        ensures
            final(self).next == old(self).next,
            final(self).subscribers@ == old(self).subscribers@.push(handle),
    {
        self.subscribers.push(handle);
    }

    /// The copies of an event, one for each subscriber, in the order of
    /// subscription.
    pub fn send(&self, event: &BusEvent) -> (r: Vec<(u64, BusEvent)>)
        ensures
            r@ == self.subscribers@.map_values(|h: u64| (h, *event)),
    {
        let mut r: Vec<(u64, BusEvent)> = Vec::new();
        let mut i: usize = 0;
        while i < self.subscribers.len()
            invariant
                i <= self.subscribers@.len(),
                r@.len() == i,
                forall|j: int| 0 <= j < i ==> r@[j] == (self.subscribers@[j], *event),
            decreases self.subscribers@.len() - i,
        {
            r.push((self.subscribers[i], event.clone()));
            i = i + 1;
        }
        assert(r@ =~= self.subscribers@.map_values(|h: u64| (h, *event)));
        r
    }
}

impl Default for EventBus {
    fn default() -> (r: Self)
        ensures
            r.subscribers@ == Seq::<u64>::empty(),
            r.next == 0,
    {
        EventBus::new()
    }
}

/// The view of an event shows every part of it, character for character, and a
/// plain event carries what it was given and nothing else.
pub proof fn law_event_views_show_the_event(
    e: BusEvent,
    kind: EventKind,
    sender: Seq<char>,
    content: Seq<char>,
    timestamp: i64,
    request_id: Option<Seq<char>>,
)
    ensures
        e@.kind == e.kind,
        e@.sender == e.sender@,
        e@.content == e.content@,
        e@.timestamp == e.timestamp,
        e@.context == e.context@,
        e.session_id matches Some(id) ==> e@.session_id == Some(id@),
        e.session_id is None ==> e@.session_id is None,
        e.request_id matches Some(id) ==> e@.request_id == Some(id@),
        e.request_id is None ==> e@.request_id is None,
        e.parent_request_id matches Some(id) ==> e@.parent_request_id == Some(id@),
        e.parent_request_id is None ==> e@.parent_request_id is None,
        e.target matches Some(t) ==> e@.target == Some(t@),
        e.target is None ==> e@.target is None,
        ({
            let plain = plain_event(kind, sender, content, timestamp, request_id);
            &&& plain.kind == kind && plain.sender == sender && plain.content == content
            &&& plain.timestamp == timestamp && plain.request_id == request_id
            &&& plain.context.len() == 0 && plain.session_id is None
            &&& plain.parent_request_id is None && plain.target is None
        }),
{
}

/// Every subscriber gets every event, whole, in the order of subscription.
pub proof fn law_every_subscriber_gets_the_event(
    events: EventBus,
    event: BusEvent,
    r: Vec<(u64, BusEvent)>,
    i: int,
)
    requires
        call_ensures(EventBus::send, (&events, &event), r),
    ensures
        r@.len() == events.subscribers@.len(),
        0 <= i < r@.len() ==> r@[i].0 == events.subscribers@[i] && r@[i].1@ == event@,
{
}

/// A message for a persona carries its text, its request and the chat it came
/// from, whole, and names the persona.
pub proof fn law_targeted_messages_carry_every_part(
    sender: String,
    content: String,
    request_id: Option<String>,
    target: String,
    context: String,
    r: BusEvent,
)
    requires
        call_ensures(
            BusEvent::targeted_message_with_context,
            (sender, content, request_id, target, context),
            r,
        ),
    ensures
        r.kind is Message,
        r.sender@ == sender@,
        r.content@ == content@,
        r.context@ == context@,
        r.target is Some && r.target->Some_0@ == target@,
        request_id matches Some(id) ==> r.request_id is Some && r.request_id->Some_0@ == id@,
        request_id is None ==> r.request_id is None,
        r.session_id is None,
        r.parent_request_id is None,
{
}

/// A question carries its whole prompt under its own id, and the request that
/// it arose from.
pub proof fn law_questions_carry_every_part(
    sender: String,
    prompt: String,
    permission_id: String,
    parent_request_id: Option<String>,
    r: BusEvent,
)
    requires
        call_ensures(
            BusEvent::permission_request,
            (sender, prompt, permission_id, parent_request_id),
            r,
        ),
    ensures
        r.kind is PermissionRequest,
        r.sender@ == sender@,
        r.content@ == prompt@,
        r.request_id is Some && r.request_id->Some_0@ == permission_id@,
        parent_request_id matches Some(id) ==> r.parent_request_id is Some
            && r.parent_request_id->Some_0@ == id@,
        parent_request_id is None ==> r.parent_request_id is None,
{
}

} // verus!
