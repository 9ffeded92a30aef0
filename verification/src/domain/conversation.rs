//! User-visible conversations and the routing of messages by conversation.
//!
//! There is no broadcast bus. An inbound message goes to the inbox of the
//! persona it is for. An outbound message goes to the adapter of its
//! conversation, or to every adapter when only a target is known that no
//! channel owns. Permission requests go to the adapter of their conversation.
//!
//! Inboxes and outboxes are known by handles; whoever subscribes holds the
//! queue behind the handle.

use vstd::prelude::*;
use vstd::string::*;

use crate::platform;
use crate::table::{Key, Table};
use crate::text;

verus! {

/// One conversation: a persona and an id that the adapter assigned.
#[derive(Debug, PartialEq, Eq, Hash)]
pub struct Conversation {
    pub persona: String,
    pub conversation_id: String,
}

/// The view of a [`Conversation`].
pub struct ConversationView {
    pub persona: Seq<char>,
    pub conversation_id: Seq<char>,
}

impl View for Conversation {
    type V = ConversationView;

    open spec fn view(&self) -> ConversationView {
        ConversationView { persona: self.persona@, conversation_id: self.conversation_id@ }
    }
}

impl Key for Conversation {
    type Name = ConversationView;

    open spec fn key_name(&self) -> ConversationView {
        self@
    }

    fn same_key(&self, other: &Self) -> (r: bool) {
        text::str_eq(self.persona.as_str(), other.persona.as_str()) && text::str_eq(
            self.conversation_id.as_str(),
            other.conversation_id.as_str(),
        )
    }
}

impl Clone for Conversation {
    fn clone(&self) -> (r: Self)
        ensures
            r == *self,
    {
        Conversation {
            persona: self.persona.clone(),
            conversation_id: self.conversation_id.clone(),
        }
    }
}

impl Conversation {
    pub fn new(persona: &str, conversation_id: &str) -> (r: Self)
        ensures
            r@ == (ConversationView { persona: persona@, conversation_id: conversation_id@ }),
    {
        Conversation {
            persona: persona.to_owned(),
            conversation_id: conversation_id.to_owned(),
        }
    }
}

/// The adapter prefix of a conversation id: everything up to the first
/// underscore.
pub open spec fn prefix_of(conversation_id: Seq<char>) -> Seq<char> {
    conversation_id.take(text::first_index(conversation_id, '_'))
}

/// The adapter prefix of a conversation id.
pub fn adapter_prefix(conversation_id: &str) -> (r: &str)
    ensures
        r@ == prefix_of(conversation_id@),
{
    let chars = text::chars_of(conversation_id);
    let k = text::find_char(&chars, '_');
    proof {
        text::lemma_first_index(conversation_id@, '_');
        assert(conversation_id@.subrange(0, k as int) =~= conversation_id@.take(k as int));
    }
    conversation_id.substring_char(0, k)
}

/// The ids that an adapter makes, a name without underscore, an underscore
/// and anything behind it, have that name as their prefix.
pub proof fn law_adapter_ids_carry_their_prefix(adapter: Seq<char>, rest: Seq<char>)
    requires
        !adapter.contains('_'),
    ensures
        prefix_of(adapter.push('_') + rest) == adapter,
        prefix_of(adapter) == adapter,
{
    let id = adapter.push('_') + rest;
    assert forall|i: int| 0 <= i < adapter.len() implies id[i] != '_' by {
        assert(id[i] == adapter[i]);
        assert(adapter.contains(adapter[i]));
    }
    text::lemma_first_index_is(id, '_', adapter.len() as int);
    assert(id.take(adapter.len() as int) =~= adapter);
    assert forall|i: int| 0 <= i < adapter.len() implies adapter[i] != '_' by {
        assert(adapter.contains(adapter[i]));
    }
    text::lemma_first_index(adapter, '_');
    let k = text::first_index(adapter, '_');
    assert(adapter.take(adapter.len() as int) =~= adapter);
}

/// A message for a persona.
#[derive(Debug, Clone)]
pub struct InboundMessage {
    pub conversation: Conversation,
    pub sender: String,
    /// The identity header shown before the content.
    pub prefix: String,
    /// The text of the message itself.
    pub content: String,
    pub timestamp: i64,
    pub request_id: Option<String>,
}

/// The view of an [`InboundMessage`].
pub struct InboundView {
    pub conversation: ConversationView,
    pub sender: Seq<char>,
    pub prefix: Seq<char>,
    pub content: Seq<char>,
    pub timestamp: i64,
    pub request_id: Option<Seq<char>>,
}

impl View for InboundMessage {
    type V = InboundView;

    open spec fn view(&self) -> InboundView {
        InboundView {
            conversation: self.conversation@,
            sender: self.sender@,
            prefix: self.prefix@,
            content: self.content@,
            timestamp: self.timestamp,
            request_id: text::opt_text(self.request_id),
        }
    }
}

/// A message for adapters: for a conversation, or for a target that any
/// channel may claim.
#[derive(Debug, Clone)]
pub struct OutboundEvent {
    pub conversation_id: Option<String>,
    pub target: Option<String>,
    pub content: String,
    pub request_id: Option<String>,
}

/// A question to the user of a conversation.
#[derive(Debug, Clone)]
pub struct PermissionEvent {
    pub conversation_id: String,
    pub permission_id: String,
    pub prompt: String,
    pub parent_request_id: Option<String>,
}

/// Everything that an adapter can receive.
#[derive(Debug, Clone)]
pub enum AdapterEvent {
    Outbound(OutboundEvent),
    Permission(PermissionEvent),
}

/// The view of an [`AdapterEvent`].
pub enum EventView {
    Outbound {
        conversation_id: Option<Seq<char>>,
        target: Option<Seq<char>>,
        content: Seq<char>,
        request_id: Option<Seq<char>>,
    },
    Permission {
        conversation_id: Seq<char>,
        permission_id: Seq<char>,
        prompt: Seq<char>,
        parent_request_id: Option<Seq<char>>,
    },
}

impl View for AdapterEvent {
    type V = EventView;

    open spec fn view(&self) -> EventView {
        match *self {
            AdapterEvent::Outbound(e) => EventView::Outbound {
                conversation_id: text::opt_text(e.conversation_id),
                target: text::opt_text(e.target),
                content: e.content@,
                request_id: text::opt_text(e.request_id),
            },
            AdapterEvent::Permission(e) => EventView::Permission {
                conversation_id: e.conversation_id@,
                permission_id: e.permission_id@,
                prompt: e.prompt@,
                parent_request_id: text::opt_text(e.parent_request_id),
            },
        }
    }
}

/// An event and the outboxes it goes to.
#[derive(Debug)]
pub struct Routed {
    pub recipients: Vec<u64>,
    pub event: AdapterEvent,
}

/// The outboxes subscribed under a prefix, in the order of subscription.
pub open spec fn subscribed(outboxes: Seq<(Seq<char>, u64)>, prefix: Seq<char>) -> Seq<u64>
    decreases outboxes.len(),
{
    if outboxes.len() == 0 {
        Seq::empty()
    } else {
        let before = subscribed(outboxes.drop_last(), prefix);
        if outboxes.last().0 == prefix {
            before.push(outboxes.last().1)
        } else {
            before
        }
    }
}

/// Every outbox, in the order of subscription.
pub open spec fn everyone(outboxes: Seq<(Seq<char>, u64)>) -> Seq<u64> {
    outboxes.map_values(|o: (Seq<char>, u64)| o.1)
}

/// The view of a [`ConversationManager`].
pub struct RoutesView {
    /// The inbox of each persona.
    pub inboxes: Map<Seq<char>, u64>,
    /// The outboxes with their adapter prefixes, in the order of subscription.
    pub outboxes: Seq<(Seq<char>, u64)>,
    /// The next handle.
    pub next: u64,
}

/// Routes messages by conversation.
pub struct ConversationManager {
    inboxes: Table<String, u64>,
    outboxes: Vec<(String, u64)>,
    next: u64,
}

spec fn outbox_views(v: Seq<(String, u64)>) -> Seq<(Seq<char>, u64)> {
    v.map_values(|o: (String, u64)| (o.0@, o.1))
}

impl View for ConversationManager {
    type V = RoutesView;

    closed spec fn view(&self) -> RoutesView {
        RoutesView {
            inboxes: self.inboxes@,
            outboxes: outbox_views(self.outboxes@),
            next: self.next,
        }
    }
}

/// Every handle is given out once.
pub open spec fn handles_distinct(m: RoutesView) -> bool {
    &&& forall|i: int| 0 <= i < m.outboxes.len() ==> (#[trigger] m.outboxes[i]).1 < m.next
    &&& forall|i: int, j: int|
        0 <= i < j < m.outboxes.len() ==> (#[trigger] m.outboxes[i]).1 != (
        #[trigger] m.outboxes[j]).1
    &&& forall|p: Seq<char>| #[trigger] m.inboxes.dom().contains(p) ==> m.inboxes[p] < m.next
}

impl ConversationManager {
    pub fn new() -> (r: Self)
        ensures
            r@ == (RoutesView { inboxes: Map::empty(), outboxes: Seq::empty(), next: 0 }),
            handles_distinct(r@),
    {
        let r = ConversationManager { inboxes: Table::new(), outboxes: Vec::new(), next: 0 };
        assert(r@.outboxes =~= Seq::empty());
        r
    }

    /// Registers the inbox of a persona, in place of an earlier one, and gives
    /// its handle.
    pub fn subscribe_persona(&mut self, persona: &str) -> (r: u64)
        requires
            old(self)@.next < u64::MAX,
            handles_distinct(old(self)@),
        ensures
            r == old(self)@.next,
            final(self)@ == (RoutesView {
                inboxes: old(self)@.inboxes.insert(persona@, r),
                next: (old(self)@.next + 1) as u64,
                ..old(self)@
            }),
            handles_distinct(final(self)@),
    {
        let handle = self.next;
        self.inboxes.insert(persona.to_owned(), handle);
        self.next = handle + 1;
        handle
    }

    /// Registers an outbox under an adapter prefix and gives its handle.
    pub fn subscribe_adapter(&mut self, prefix: &str) -> (r: u64)
        requires
            old(self)@.next < u64::MAX,
            handles_distinct(old(self)@),
        ensures
            r == old(self)@.next,
            final(self)@ == (RoutesView {
                outboxes: old(self)@.outboxes.push((prefix@, r)),
                next: (old(self)@.next + 1) as u64,
                ..old(self)@
            }),
            handles_distinct(final(self)@),
    {
        let handle = self.next;
        let ghost before = self@.outboxes;
        self.outboxes.push((prefix.to_owned(), handle));
        self.next = handle + 1;
        assert(self@.outboxes =~= before.push((prefix@, handle)));
        handle
    }

    /// The inbox that a message goes to, and the message. `None` where the
    /// persona has no inbox: the message is dropped.
    pub fn deliver_at(
        &self,
        conversation: &Conversation,
        sender: &str,
        prefix: &str,
        content: &str,
        timestamp: i64,
        request_id: Option<String>,
    ) -> (r: Option<(u64, InboundMessage)>)
        ensures
            match r {
                Some(d) => {
                    &&& self@.inboxes.dom().contains(conversation.persona@)
                    &&& d.0 == self@.inboxes[conversation.persona@]
                    &&& d.1@ == (InboundView {
                        conversation: conversation@,
                        sender: sender@,
                        prefix: prefix@,
                        content: content@,
                        timestamp,
                        request_id: text::opt_text(request_id),
                    })
                },
                None => !self@.inboxes.dom().contains(conversation.persona@),
            },
    {
        match self.inboxes.get(&conversation.persona) {
            Some(handle) => Some(
                (
                    *handle,
                    InboundMessage {
                        conversation: conversation.clone(),
                        sender: sender.to_owned(),
                        prefix: prefix.to_owned(),
                        content: content.to_owned(),
                        timestamp,
                        request_id,
                    },
                ),
            ),
            None => None,
        }
    }

    /// Like `deliver_at`, at the time of the system clock.
    pub fn deliver(
        &self,
        conversation: &Conversation,
        sender: &str,
        prefix: &str,
        content: &str,
        request_id: Option<String>,
    ) -> (r: Option<(u64, InboundMessage)>)
        ensures
            match r {
                Some(d) => {
                    &&& self@.inboxes.dom().contains(conversation.persona@)
                    &&& d.0 == self@.inboxes[conversation.persona@]
                    &&& d.1.timestamp >= 0
                    &&& d.1@ == (InboundView {
                        conversation: conversation@,
                        sender: sender@,
                        prefix: prefix@,
                        content: content@,
                        timestamp: d.1.timestamp,
                        request_id: text::opt_text(request_id),
                    })
                },
                None => !self@.inboxes.dom().contains(conversation.persona@),
            },
    {
        self.deliver_at(
            conversation,
            sender,
            prefix,
            content,
            platform::unix_seconds(),
            request_id,
        )
    }

    fn with_prefix(&self, prefix: &str) -> (r: Vec<u64>)
        ensures
            r@ == subscribed(self@.outboxes, prefix@),
    {
        let mut r: Vec<u64> = Vec::new();
        let mut i: usize = 0;
        let ghost all = self@.outboxes;
        while i < self.outboxes.len()
            invariant
                i <= self.outboxes@.len(),
                all == outbox_views(self.outboxes@),
                r@ == subscribed(all.take(i as int), prefix@),
            decreases self.outboxes@.len() - i,
        {
            proof {
                let t = all.take(i + 1);
                assert(t.drop_last() =~= all.take(i as int));
                assert(t.last() == all[i as int]);
                assert(all[i as int] == (self.outboxes@[i as int].0@, self.outboxes@[i as int].1));
            }
            if text::str_eq(self.outboxes[i].0.as_str(), prefix) {
                r.push(self.outboxes[i].1);
            }
            i = i + 1;
        }
        assert(all.take(i as int) =~= all);
        r
    }

    fn all_outboxes(&self) -> (r: Vec<u64>)
        ensures
            r@ == everyone(self@.outboxes),
    {
        let mut r: Vec<u64> = Vec::new();
        let mut i: usize = 0;
        while i < self.outboxes.len()
            invariant
                i <= self.outboxes@.len(),
                r@.len() == i,
                forall|j: int| 0 <= j < i ==> r@[j] == (#[trigger] self.outboxes@[j]).1,
            decreases self.outboxes@.len() - i,
        {
            r.push(self.outboxes[i].1);
            i = i + 1;
        }
        assert(r@ =~= everyone(self@.outboxes));
        r
    }

    /// Where a message of a persona goes: to the adapter of its conversation,
    /// or to every adapter when no conversation is given.
    pub fn route_outbound(
        &self,
        conversation_id: Option<&str>,
        target: Option<&str>,
        content: &str,
        request_id: Option<String>,
    ) -> (r: Routed)
        ensures
            r.recipients@ == (match text::opt_str(conversation_id) {
                Some(id) => subscribed(self@.outboxes, prefix_of(id)),
                None => everyone(self@.outboxes),
            }),
            r.event@ == (EventView::Outbound {
                conversation_id: text::opt_str(conversation_id),
                target: text::opt_str(target),
                content: content@,
                request_id: text::opt_text(request_id),
            }),
    {
        let recipients = match conversation_id {
            Some(id) => self.with_prefix(adapter_prefix(id)),
            None => self.all_outboxes(),
        };
        Routed {
            recipients,
            event: AdapterEvent::Outbound(
                OutboundEvent {
                    conversation_id: owned(conversation_id),
                    target: owned(target),
                    content: content.to_owned(),
                    request_id,
                },
            ),
        }
    }

    /// Where a permission request goes: to the adapter of its conversation.
    pub fn send_permission(
        &self,
        conversation_id: &str,
        permission_id: &str,
        prompt: &str,
        parent_request_id: Option<String>,
    ) -> (r: Routed)
        ensures
            r.recipients@ == subscribed(self@.outboxes, prefix_of(conversation_id@)),
            r.event@ == (EventView::Permission {
                conversation_id: conversation_id@,
                permission_id: permission_id@,
                prompt: prompt@,
                parent_request_id: text::opt_text(parent_request_id),
            }),
    {
        Routed {
            recipients: self.with_prefix(adapter_prefix(conversation_id)),
            event: AdapterEvent::Permission(
                PermissionEvent {
                    conversation_id: conversation_id.to_owned(),
                    permission_id: permission_id.to_owned(),
                    prompt: prompt.to_owned(),
                    parent_request_id,
                },
            ),
        }
    }
}

impl Default for ConversationManager {
    fn default() -> (r: Self)
        ensures
            r@ == (RoutesView { inboxes: Map::empty(), outboxes: Seq::empty(), next: 0 }),
    {
        ConversationManager::new()
    }
}

/// The owned copy of an optional text.
pub fn owned(o: Option<&str>) -> (r: Option<String>)
    ensures
        text::opt_text(r) == text::opt_str(o),
{
    match o {
        Some(s) => Some(s.to_owned()),
        None => None,
    }
}

proof fn lemma_subscribed(outboxes: Seq<(Seq<char>, u64)>, prefix: Seq<char>, handle: u64)
    ensures
        subscribed(outboxes, prefix).contains(handle) <==> outboxes.contains((prefix, handle)),
    decreases outboxes.len(),
{
    if outboxes.len() > 0 {
        let rest = outboxes.drop_last();
        let before = subscribed(rest, prefix);
        lemma_subscribed(rest, prefix, handle);
        assert(outboxes =~= rest.push(outboxes.last()));
        if outboxes.contains((prefix, handle)) {
            let i = choose|i: int| 0 <= i < outboxes.len() && outboxes[i] == (prefix, handle);
            if i < rest.len() {
                assert(rest[i] == (prefix, handle));
                let j = choose|j: int| 0 <= j < before.len() && before[j] == handle;
                assert(subscribed(outboxes, prefix)[j] == handle);
            } else {
                assert(subscribed(outboxes, prefix)[before.len() as int] == handle);
            }
        }
        if subscribed(outboxes, prefix).contains(handle) {
            let after = subscribed(outboxes, prefix);
            let j = choose|j: int| 0 <= j < after.len() && after[j] == handle;
            if j < before.len() {
                assert(before[j] == handle);
                assert(before.contains(handle));
                let i = choose|i: int| 0 <= i < rest.len() && rest[i] == (prefix, handle);
                assert(outboxes[i] == (prefix, handle));
            } else {
                assert(outboxes[rest.len() as int] == (prefix, handle));
            }
        }
    }
}

/// What is routed by conversation reaches exactly the outboxes subscribed
/// under the conversation's prefix; an outbox never receives the events of two
/// prefixes.
pub proof fn law_conversations_stay_with_their_adapter(
    m: RoutesView,
    conversation_id: Seq<char>,
    other_id: Seq<char>,
    handle: u64,
)
    requires
        handles_distinct(m),
        subscribed(m.outboxes, prefix_of(conversation_id)).contains(handle),
    ensures
        m.outboxes.contains((prefix_of(conversation_id), handle)),
        everyone(m.outboxes).contains(handle),
        prefix_of(other_id) != prefix_of(conversation_id) ==> !subscribed(
            m.outboxes,
            prefix_of(other_id),
        ).contains(handle),
{
    let mine = prefix_of(conversation_id);
    let theirs = prefix_of(other_id);
    lemma_subscribed(m.outboxes, mine, handle);
    lemma_subscribed(m.outboxes, theirs, handle);
    let i = choose|i: int| 0 <= i < m.outboxes.len() && m.outboxes[i] == (mine, handle);
    assert(everyone(m.outboxes)[i] == handle);
    if theirs != mine && m.outboxes.contains((theirs, handle)) {
        let j = choose|j: int| 0 <= j < m.outboxes.len() && m.outboxes[j] == (theirs, handle);
        assert(m.outboxes[i].1 == m.outboxes[j].1);
        assert(i != j);
    }
}

/// The outboxes of an adapter are those that subscribed under its prefix, all
/// of them and in the order of subscription.
pub proof fn law_subscribers_are_found_in_order(
    first: Seq<(Seq<char>, u64)>,
    second: Seq<(Seq<char>, u64)>,
    prefix: Seq<char>,
    name: Seq<char>,
    handle: u64,
    i: int,
)
    ensures
        subscribed(Seq::empty(), prefix) == Seq::<u64>::empty(),
        subscribed(first + second, prefix) == subscribed(first, prefix) + subscribed(
            second,
            prefix,
        ),
        name == prefix ==> subscribed(seq![(name, handle)], prefix) == seq![handle],
        name != prefix ==> subscribed(seq![(name, handle)], prefix).len() == 0,
        everyone(first).len() == first.len(),
        0 <= i < first.len() ==> everyone(first)[i] == first[i].1,
{
    lemma_subscribed_extends(first, second, prefix);
    reveal_with_fuel(subscribed, 2);
    let one = seq![(name, handle)];
    assert(one.drop_last() =~= Seq::empty());
    assert(one.last() == (name, handle));
    if name == prefix {
        assert(subscribed(one, prefix) =~= seq![handle]);
    }
}

proof fn lemma_subscribed_extends(
    first: Seq<(Seq<char>, u64)>,
    second: Seq<(Seq<char>, u64)>,
    prefix: Seq<char>,
)
    ensures
        subscribed(first + second, prefix) == subscribed(first, prefix) + subscribed(
            second,
            prefix,
        ),
    decreases second.len(),
{
    if second.len() == 0 {
        assert(first + second =~= first);
        assert(subscribed(first, prefix) + subscribed(second, prefix) =~= subscribed(
            first,
            prefix,
        ));
    } else {
        lemma_subscribed_extends(first, second.drop_last(), prefix);
        assert((first + second).drop_last() =~= first + second.drop_last());
        assert((first + second).last() == second.last());
        assert(subscribed(first + second, prefix) =~= subscribed(first, prefix) + subscribed(
            second,
            prefix,
        ));
    }
}

/// The views of conversations, messages and events show every part of them,
/// character for character.
pub proof fn law_message_views_show_every_part(
    conversation: Conversation,
    message: InboundMessage,
    event: AdapterEvent,
)
    ensures
        conversation@.persona == conversation.persona@,
        conversation@.conversation_id == conversation.conversation_id@,
        conversation.key_name() == conversation@,
        message@.conversation == message.conversation@,
        message@.sender == message.sender@,
        message@.prefix == message.prefix@,
        message@.content == message.content@,
        message@.timestamp == message.timestamp,
        message.request_id matches Some(id) ==> message@.request_id == Some(id@),
        message.request_id is None ==> message@.request_id is None,
        match event {
            AdapterEvent::Outbound(e) => {
                &&& event@ is Outbound
                &&& event@->content == e.content@
                &&& e.conversation_id matches Some(id) ==> event@->Outbound_conversation_id
                    == Some(id@)
                &&& e.conversation_id is None ==> event@->Outbound_conversation_id is None
                &&& e.target matches Some(t) ==> event@->target == Some(t@)
                &&& e.target is None ==> event@->target is None
                &&& e.request_id matches Some(id) ==> event@->request_id == Some(id@)
                &&& e.request_id is None ==> event@->request_id is None
            },
            AdapterEvent::Permission(e) => {
                &&& event@ is Permission
                &&& event@->Permission_conversation_id == e.conversation_id@
                &&& event@->permission_id == e.permission_id@
                &&& event@->prompt == e.prompt@
                &&& e.parent_request_id matches Some(id) ==> event@->parent_request_id == Some(
                    id@,
                )
                &&& e.parent_request_id is None ==> event@->parent_request_id is None
            },
        },
{
}

/// A message for a persona that has an inbox goes to that inbox, whole; one for
/// any other persona goes nowhere.
pub proof fn law_messages_are_delivered_whole(
    manager: ConversationManager,
    conversation: Conversation,
    sender: &str,
    prefix: &str,
    content: &str,
    timestamp: i64,
    request_id: Option<String>,
    r: Option<(u64, InboundMessage)>,
)
    requires
        call_ensures(
            ConversationManager::deliver_at,
            (&manager, &conversation, sender, prefix, content, timestamp, request_id),
            r,
        ),
    ensures
        r is Some <==> manager@.inboxes.dom().contains(conversation.persona@),
        r matches Some(d) ==> {
            &&& d.0 == manager@.inboxes[conversation.persona@]
            &&& d.1.conversation.persona@ == conversation.persona@
            &&& d.1.conversation.conversation_id@ == conversation.conversation_id@
            &&& d.1.sender@ == sender@
            &&& d.1.prefix@ == prefix@
            &&& d.1.content@ == content@
            &&& d.1.timestamp == timestamp
            &&& request_id matches Some(id) ==> d.1.request_id is Some && d.1.request_id->Some_0@
                == id@
            &&& request_id is None ==> d.1.request_id is None
        },
{
    match r {
        Some(d) => {
            law_message_views_show_every_part(
                conversation,
                d.1,
                AdapterEvent::Outbound(
                    OutboundEvent {
                        conversation_id: None,
                        target: None,
                        content: d.1.content,
                        request_id: None,
                    },
                ),
            );
        },
        None => {},
    }
}

/// What a persona says goes out whole, to the outboxes of its conversation's
/// adapter, or to every outbox where it belongs to no conversation.
pub proof fn law_outbound_messages_are_routed_whole(
    manager: ConversationManager,
    conversation_id: Option<&str>,
    target: Option<&str>,
    content: &str,
    request_id: Option<String>,
    r: Routed,
)
    requires
        call_ensures(
            ConversationManager::route_outbound,
            (&manager, conversation_id, target, content, request_id),
            r,
        ),
    ensures
        conversation_id matches Some(id) ==> r.recipients@ == subscribed(
            manager@.outboxes,
            prefix_of(id@),
        ),
        conversation_id is None ==> r.recipients@ == everyone(manager@.outboxes),
        r.event is Outbound,
        r.event->Outbound_0.content@ == content@,
        conversation_id matches Some(id) ==> r.event->Outbound_0.conversation_id is Some
            && r.event->Outbound_0.conversation_id->Some_0@ == id@,
        target matches Some(t) ==> r.event->Outbound_0.target is Some
            && r.event->Outbound_0.target->Some_0@ == t@,
        target is None ==> r.event->Outbound_0.target is None,
        request_id matches Some(id) ==> r.event->Outbound_0.request_id is Some
            && r.event->Outbound_0.request_id->Some_0@ == id@,
{
}

/// A question goes out whole, to the outboxes of its conversation's adapter,
/// under the id that it is decided by.
pub proof fn law_questions_are_routed_whole(
    manager: ConversationManager,
    conversation_id: &str,
    permission_id: &str,
    prompt: &str,
    parent_request_id: Option<String>,
    r: Routed,
)
    requires
        call_ensures(
            ConversationManager::send_permission,
            (&manager, conversation_id, permission_id, prompt, parent_request_id),
            r,
        ),
    ensures
        r.recipients@ == subscribed(manager@.outboxes, prefix_of(conversation_id@)),
        r.event is Permission,
        r.event->Permission_0.conversation_id@ == conversation_id@,
        r.event->Permission_0.permission_id@ == permission_id@,
        r.event->Permission_0.prompt@ == prompt@,
        parent_request_id matches Some(id) ==> r.event->Permission_0.parent_request_id is Some
            && r.event->Permission_0.parent_request_id->Some_0@ == id@,
        parent_request_id is None ==> r.event->Permission_0.parent_request_id is None,
{
}

} // verus!
