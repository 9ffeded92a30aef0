//! The persona runtime: what becomes of a message that reaches a persona.

use vstd::prelude::*;
use vstd::string::*;

use crate::domain::conversation;
use crate::domain::conversation::{ConversationManager, ConversationView, InboundMessage, Routed};
use crate::domain::permissions;
use crate::domain::permissions::PathPolicy;
use crate::domain::persona::Persona;
use crate::domain::session;
use crate::infra::wait;
use crate::infra::wait::WaitHub;
use crate::table::Table;
use crate::text;

verus! {

/// A command that the runtime handles itself.
#[derive(Debug)]
pub enum SlashCommand {
    /// Archive the current session and start a fresh one.
    Clear,
    /// Allow everything at and below a path to be read.
    AllowRead(String),
}

/// The view of a [`SlashCommand`].
pub enum CommandView {
    Clear,
    AllowRead(Seq<char>),
}

impl View for SlashCommand {
    type V = CommandView;

    open spec fn view(&self) -> CommandView {
        match *self {
            SlashCommand::Clear => CommandView::Clear,
            SlashCommand::AllowRead(path) => CommandView::AllowRead(path@),
        }
    }
}

/// The command that a message is: two slashes and a known word; `allow_read`
/// needs a path.
pub open spec fn command_of(content: Seq<char>) -> Option<CommandView> {
    match text::after_prefix(text::trim(content), "//"@) {
        None => None,
        Some(rest) => {
            let command = text::trim(rest);
            if command == "clear"@ {
                Some(CommandView::Clear)
            } else {
                match text::after_prefix(command, "allow_read"@) {
                    None => None,
                    Some(argument) => {
                        let path = text::trim(argument);
                        if path.len() > 0 {
                            Some(CommandView::AllowRead(path))
                        } else {
                            None
                        }
                    },
                }
            }
        },
    }
}

/// The command that a message is.
pub fn parse_command(content: &str) -> (r: Option<SlashCommand>)
    ensures
        match r {
            Some(c) => command_of(content@) == Some(c@),
            None => command_of(content@) is None,
        },
{
    let trimmed = text::trimmed(content);
    let rest = match text::strip_prefix(trimmed.as_str(), "//") {
        Some(rest) => rest,
        None => {
            return None;
        },
    };
    let command = text::trimmed(rest.as_str());
    if text::str_eq(command.as_str(), "clear") {
        return Some(SlashCommand::Clear);
    }
    match text::strip_prefix(command.as_str(), "allow_read") {
        Some(argument) => {
            let path = text::trimmed(argument.as_str());
            if text::is_empty(path.as_str()) {
                None
            } else {
                Some(SlashCommand::AllowRead(path))
            }
        },
        None => None,
    }
}

/// What becomes of a message.
#[derive(Debug)]
pub enum Action {
    /// Run a command: nothing reaches the session.
    Command(SlashCommand),
    /// Feed the text into the current session.
    Turn { display: String, request_id: Option<String> },
}

/// The view of an [`Action`].
pub enum ActionView {
    Command(CommandView),
    Turn { display: Seq<char>, request_id: Option<Seq<char>> },
}

impl View for Action {
    type V = ActionView;

    open spec fn view(&self) -> ActionView {
        match *self {
            Action::Command(c) => ActionView::Command(c@),
            Action::Turn { display, request_id } => ActionView::Turn {
                display: display@,
                request_id: text::opt_text(request_id),
            },
        }
    }
}

/// What becomes of a message: a command is run; everything else is fed into
/// the session behind its identity header.
pub open spec fn action_of(message: conversation::InboundView) -> ActionView {
    match command_of(message.content) {
        Some(c) => ActionView::Command(c),
        None => ActionView::Turn {
            display: message.prefix + message.content,
            request_id: message.request_id,
        },
    }
}

/// What the waits become when a message arrives: everything but a timeout
/// notice cancels the wait of its conversation.
pub open spec fn waits_after(
    hub: wait::HubView,
    persona: Seq<char>,
    message: conversation::InboundView,
) -> wait::HubView {
    if message.sender == wait::WAIT_TIMEOUT_SENDER@ {
        hub
    } else {
        wait::cancelled(
            hub,
            ConversationView { persona, conversation_id: message.conversation.conversation_id },
        )
    }
}

/// A timeout notice leaves the budget of its conversation as it is; any other
/// message restores it.
pub proof fn law_notices_keep_the_wait_budget(
    hub: wait::HubView,
    persona: Seq<char>,
    message: conversation::InboundView,
)
    ensures
        ({
            let c = ConversationView {
                persona,
                conversation_id: message.conversation.conversation_id,
            };
            let after = waits_after(hub, persona, message);
            if message.sender == wait::WAIT_TIMEOUT_SENDER@ {
                wait::used(after, c) == wait::used(hub, c)
            } else {
                wait::used(after, c) == 0
            }
        }),
{
}

/// What is asked of the sessions of a conversation.
#[derive(Debug, Clone, Copy, PartialEq, Eq, Structural)]
pub enum Purpose {
    /// Go on in the current session.
    Continue,
    /// Leave the current session and begin another.
    Clear,
}

/// What is to be done with the sessions of a conversation.
#[derive(Debug, Clone, Copy, PartialEq, Eq, Structural)]
pub struct SessionPlan {
    /// Archive the current session.
    pub archive: bool,
    /// Create a session and make it the current one.
    pub create: bool,
}

/// What is to be done: to go on, a session is created only where there is no
/// current one that can be loaded; to clear, one is created in any case, and
/// a loadable current one is archived, never deleted.
pub open spec fn planned(purpose: Purpose, loadable: bool) -> SessionPlan {
    match purpose {
        Purpose::Continue => SessionPlan { archive: false, create: !loadable },
        Purpose::Clear => SessionPlan { archive: loadable, create: true },
    }
}

/// What is to be done with the sessions of a conversation, where `found` says
/// whether the session that `current` names could be loaded.
pub fn session_plan(purpose: Purpose, current: &Option<String>, found: bool) -> (r: SessionPlan)
    ensures
        r == planned(purpose, current is Some && found),
{
    let loadable = current.is_some() && found;
    match purpose {
        Purpose::Continue => SessionPlan { archive: false, create: !loadable },
        Purpose::Clear => SessionPlan { archive: loadable, create: true },
    }
}

/// The session that a pointer file names: none where the file could not be
/// read or names the empty id.
pub fn current_session(stored: Option<String>) -> (r: Option<String>)
    ensures
        r == (match stored {
            Some(id) if id@.len() > 0 => Some(id),
            _ => None,
        }),
{
    match stored {
        Some(id) => if text::is_empty(id.as_str()) {
            None
        } else {
            Some(id)
        },
        None => None,
    }
}

/// The view of a [`PersonaRuntime`].
pub struct RuntimeView {
    pub name: Seq<char>,
    /// The session manager of each conversation.
    pub managers: Map<Seq<char>, u64>,
    /// The next handle of a manager.
    pub next: u64,
}

/// The runtime of one persona. The session managers of its conversations are
/// known by handles.
pub struct PersonaRuntime {
    persona: Persona,
    managers: Table<String, u64>,
    next: u64,
}

impl View for PersonaRuntime {
    type V = RuntimeView;

    closed spec fn view(&self) -> RuntimeView {
        RuntimeView { name: self.persona.name@, managers: self.managers@, next: self.next }
    }
}

/// The reply to a cleared session.
pub open spec fn cleared_text() -> Seq<char> {
    "已开启新的会话，旧记录已存档"@
}

impl PersonaRuntime {
    pub fn new(persona: Persona) -> (r: Self)
        ensures
            r@ == (RuntimeView { name: persona.name@, managers: Map::empty(), next: 0 }),
    {
        PersonaRuntime { persona, managers: Table::new(), next: 0 }
    }

    pub fn name(&self) -> (r: &str)
        ensures
            r@ == self@.name,
    {
        self.persona.name.as_str()
    }

    /// The session manager of a conversation, where it has one already.
    pub fn manager_of(&self, conversation_id: &str) -> (r: Option<u64>)
        ensures
            r == (if self@.managers.dom().contains(conversation_id@) {
                Some(self@.managers[conversation_id@])
            } else {
                None
            }),
    {
        match self.managers.get(&conversation_id.to_owned()) {
            Some(handle) => Some(*handle),
            None => None,
        }
    }

    /// Records a session manager for a conversation and gives its handle.
    pub fn add_manager(&mut self, conversation_id: &str) -> (r: u64)
        requires
            old(self)@.next < u64::MAX,
        ensures
            r == old(self)@.next,
            final(self)@ == (RuntimeView {
                managers: old(self)@.managers.insert(conversation_id@, r),
                next: (old(self)@.next + 1) as u64,
                ..old(self)@
            }),
    {
        let handle = self.next;
        self.managers.insert(conversation_id.to_owned(), handle);
        self.next = handle + 1;
        handle
    }

    /// Takes a message: cancels the wait of its conversation, unless it is a
    /// timeout notice, and says what becomes of it.
    pub fn receive(&self, message: &InboundMessage, hub: &mut WaitHub) -> (r: Action)
        requires
            wait::valid(old(hub)@),
        ensures
            wait::valid(final(hub)@),
            final(hub)@ == waits_after(old(hub)@, self@.name, message@),
            r@ == action_of(message@),
    {
        if !text::str_eq(message.sender.as_str(), wait::WAIT_TIMEOUT_SENDER) {
            hub.cancel(
                self.persona.name.as_str(),
                message.conversation.conversation_id.as_str(),
            );
        }
        match parse_command(message.content.as_str()) {
            Some(c) => Action::Command(c),
            None => Action::Turn {
                display: message.prefix.clone().concat(message.content.as_str()),
                request_id: session::copy_opt(&message.request_id),
            },
        }
    }

    /// The reply to a cleared session.
    pub fn reply_cleared(&self, manager: &ConversationManager, conversation_id: &str) -> (r: Routed)
        ensures
            r.recipients@ == conversation::subscribed(
                manager@.outboxes,
                conversation::prefix_of(conversation_id@),
            ),
            r.event@ == (conversation::EventView::Outbound {
                conversation_id: Some(conversation_id@),
                target: None,
                content: cleared_text(),
                request_id: None,
            }),
    {
        manager.route_outbound(
            Some(conversation_id),
            None,
            "已开启新的会话，旧记录已存档",
            None,
        )
    }

    /// Allows a path, given as text and as its components, and replies.
    pub fn allow_read(
        &self,
        policy: &mut PathPolicy,
        manager: &ConversationManager,
        conversation_id: &str,
        path: &str,
        components: Vec<String>,
    ) -> (r: Routed)
        ensures
            final(policy)@ == old(policy)@.insert(
                permissions::resolved(text::texts(components@)),
            ),
            r.recipients@ == conversation::subscribed(
                manager@.outboxes,
                conversation::prefix_of(conversation_id@),
            ),
            r.event@ == (conversation::EventView::Outbound {
                conversation_id: Some(conversation_id@),
                target: None,
                content: "已允许读取："@ + path@,
                request_id: None,
            }),
    {
        policy.allow_read(components);
        let content = "已允许读取：".to_owned().concat(path);
        manager.route_outbound(Some(conversation_id), None, content.as_str(), None)
    }
}

// What becomes of messages --------------------------------------------------------------

/// A message is the clear command exactly where it is two slashes and `clear`,
/// white space around and between them aside; the command to allow a path is
/// two slashes and `allow_read` before the path, which is kept whole.
pub proof fn law_commands_are_read(
    before: Seq<char>,
    between: Seq<char>,
    inside: Seq<char>,
    path: Seq<char>,
    after: Seq<char>,
)
    requires
        text::all_white(before),
        text::all_white(between),
        text::all_white(inside),
        text::all_white(after),
        path.len() > 0,
        !text::white_space(path[0]),
        !text::white_space(path.last()),
    ensures
        command_of(before + ("//"@ + (between + "clear"@)) + after) == Some(CommandView::Clear),
        command_of(before + ("//"@ + (between + ("allow_read"@ + (inside + path)))) + after)
            == Some(CommandView::AllowRead(path)),
        command_of(before + ("//"@ + (between + "allow_read"@)) + after) is None,
{
    reveal_strlit("//");
    reveal_strlit("clear");
    reveal_strlit("allow_read");
    let none = Seq::<char>::empty();
    let clear = "//"@ + (between + "clear"@);
    assert(clear.last() == 'r');
    text::law_trimming_gives_the_core(before, clear, after);
    text::law_prefixes_come_off("//"@, between + "clear"@, clear);
    text::law_trimming_gives_the_core(between, "clear"@, none);
    assert(between + "clear"@ + none =~= between + "clear"@);

    let word = "allow_read"@ + (inside + path);
    let allow = "//"@ + (between + word);
    assert(allow.last() == path.last());
    text::law_trimming_gives_the_core(before, allow, after);
    text::law_prefixes_come_off("//"@, between + word, allow);
    assert(word[0] == 'a');
    assert(word.last() == path.last());
    text::law_trimming_gives_the_core(between, word, none);
    assert(between + word + none =~= between + word);
    assert("clear"@[0] == 'c');
    text::law_prefixes_come_off("allow_read"@, inside + path, word);
    text::law_trimming_gives_the_core(inside, path, none);
    assert(inside + path + none =~= inside + path);

    let bare = "//"@ + (between + "allow_read"@);
    assert(bare.last() == 'd');
    text::law_trimming_gives_the_core(before, bare, after);
    text::law_prefixes_come_off("//"@, between + "allow_read"@, bare);
    text::law_trimming_gives_the_core(between, "allow_read"@, none);
    assert(between + "allow_read"@ + none =~= between + "allow_read"@);
    assert("allow_read"@[0] == 'a');
    text::law_prefixes_come_off("allow_read"@, none, "allow_read"@);
    assert("allow_read"@ + none =~= "allow_read"@);
    assert(text::trim(none) =~= none);
}

/// Nothing else is a command: what is one begins with two slashes, and goes on
/// with `clear` alone or with `allow_read` and a visible path.
pub proof fn law_nothing_else_is_a_command(content: Seq<char>)
    ensures
        command_of(content) is Some ==> {
            let s = text::trim(content);
            &&& s.len() >= 2
            &&& s[0] == '/' && s[1] == '/'
            &&& command_of(content)->Some_0 is Clear ==> text::trim(s.skip(2)) == "clear"@
            &&& command_of(content)->Some_0 matches CommandView::AllowRead(path) ==> {
                let command = text::trim(s.skip(2));
                &&& path.len() > 0
                &&& command.len() > 10
                &&& command.take(10) == "allow_read"@
                &&& path == text::trim(command.skip(10))
            }
        },
{
    reveal_strlit("//");
    reveal_strlit("allow_read");
    let s = text::trim(content);
    if text::has_prefix(s, "//"@) {
        assert(s.take(2)[0] == s[0] && s.take(2)[1] == s[1]);
        let command = text::trim(s.skip(2));
        if text::has_prefix(command, "allow_read"@) && command.len() == 10 {
            assert(command.skip(10) =~= Seq::empty());
            assert(text::trim(command.skip(10)) =~= Seq::empty());
        }
    }
}

/// A message that is no command reaches the session whole: its header, then
/// all of its content, under its request.
pub proof fn law_messages_reach_the_session_whole(message: conversation::InboundView)
    ensures
        command_of(message.content) is None ==> {
            let action = action_of(message);
            &&& action is Turn
            &&& action->display.len() == message.prefix.len() + message.content.len()
            &&& action->display.take(message.prefix.len() as int) == message.prefix
            &&& action->display.skip(message.prefix.len() as int) == message.content
            &&& action->request_id == message.request_id
        },
        command_of(message.content) matches Some(c) ==> action_of(message)
            == ActionView::Command(c),
{
    let shown = message.prefix + message.content;
    assert(shown.take(message.prefix.len() as int) =~= message.prefix);
    assert(shown.skip(message.prefix.len() as int) =~= message.content);
}

/// A real message ends the wait of its own conversation and of no other; the
/// notice of a wait that ran out ends none.
pub proof fn law_real_messages_end_their_own_wait(
    hub: wait::HubView,
    persona: Seq<char>,
    message: conversation::InboundView,
    other: ConversationView,
)
    ensures
        ({
            let c = ConversationView {
                persona,
                conversation_id: message.conversation.conversation_id,
            };
            let after = waits_after(hub, persona, message);
            &&& message.sender == "wait_timeout"@ ==> after == hub
            &&& message.sender != "wait_timeout"@ ==> !after.waits.dom().contains(c)
            &&& other != c ==> after.waits.dom().contains(other) == hub.waits.dom().contains(other)
            &&& other != c && hub.waits.dom().contains(other) ==> after.waits[other]
                == hub.waits[other]
            &&& after.counter == hub.counter
        }),
{
}

/// A session is created exactly where there is none to go on in, or where a
/// fresh one is asked for; only then, and only where it could be loaded, is the
/// current one archived.
pub proof fn law_sessions_are_kept_or_archived(loadable: bool)
    ensures
        planned(Purpose::Continue, loadable).create <==> !loadable,
        !planned(Purpose::Continue, loadable).archive,
        planned(Purpose::Clear, loadable).create,
        planned(Purpose::Clear, loadable).archive <==> loadable,
{
}

/// The views of commands and actions show every part of them.
pub proof fn law_action_views_show_the_action(command: SlashCommand, action: Action)
    ensures
        match command {
            SlashCommand::Clear => command@ is Clear,
            SlashCommand::AllowRead(path) => command@ == CommandView::AllowRead(path@),
        },
        match action {
            Action::Command(c) => action@ == ActionView::Command(c@),
            Action::Turn { display, request_id } => {
                &&& action@ is Turn
                &&& action@->display == display@
                &&& request_id matches Some(id) ==> action@->request_id == Some(id@)
                &&& request_id is None ==> action@->request_id is None
            },
        },
{
}

/// What the runtime answers to a command goes out in the conversation that it
/// came from and to its adapter alone.
pub proof fn law_commands_are_answered_where_they_came_from(
    runtime: PersonaRuntime,
    manager: ConversationManager,
    conversation_id: &str,
    r: Routed,
)
    requires
        call_ensures(PersonaRuntime::reply_cleared, (&runtime, &manager, conversation_id), r),
    ensures
        r.recipients@ == conversation::subscribed(
            manager@.outboxes,
            conversation::prefix_of(conversation_id@),
        ),
        r.event is Outbound,
        r.event->Outbound_0.conversation_id is Some,
        r.event->Outbound_0.conversation_id->Some_0@ == conversation_id@,
        r.event->Outbound_0.target is None,
        r.event->Outbound_0.content@ == "已开启新的会话，旧记录已存档"@,
{
}

/// The current session is the one that the pointer file names, where it names one.
pub proof fn law_pointers_name_the_current_session(stored: Option<String>, r: Option<String>)
    requires
        call_ensures(current_session, (stored,), r),
    ensures
        r is Some <==> stored is Some && stored->Some_0@.len() > 0,
        r is Some ==> r->Some_0@ == stored->Some_0@,
{
}

/// A message that is no command is fed into the session whole, behind its
/// header; a real message ends the wait of its conversation.
pub proof fn law_received_messages_are_fed_whole(
    runtime: PersonaRuntime,
    message: InboundMessage,
    hub: &mut WaitHub,
    r: Action,
)
    requires
        wait::valid(old(hub)@),
        call_ensures(PersonaRuntime::receive, (&runtime, &message, hub), r),
    ensures
        r is Turn <==> command_of(message.content@) is None,
        r matches Action::Turn { display, request_id } ==> display@ == message.prefix@
            + message.content@,
        r matches Action::Command(c) ==> command_of(message.content@) == Some(c@),
        message.sender@ == "wait_timeout"@ ==> final(hub)@ == old(hub)@,
        message.sender@ != "wait_timeout"@ ==> wait::used(
            final(hub)@,
            ConversationView {
                persona: runtime@.name,
                conversation_id: message.conversation.conversation_id@,
            },
        ) == 0,
{
    law_action_views_show_the_action(SlashCommand::Clear, r);
}

} // verus!
