//! Web connections: what a client may ask and what it is told.

use vstd::prelude::*;
use vstd::string::*;

use crate::domain::bus;
use crate::domain::bus::{BusEvent, EventKind};
use crate::domain::session;
use crate::platform;
use crate::text;

verus! {

/// What a client asks.
#[derive(Debug)]
pub enum ClientCommand {
    Send { persona: String, content: String, request_id: String },
    Permission { permission_id: String, approved: bool },
}

/// What a client is told.
#[derive(Debug, PartialEq)]
pub enum ServerEvent {
    Message { content: String, request_id: String },
    PermissionNeeded { permission_id: String, prompt: String, request_id: String },
    Error { content: String },
}

/// The view of a [`ServerEvent`].
pub enum ServerEventView {
    Message { content: Seq<char>, request_id: Seq<char> },
    PermissionNeeded { permission_id: Seq<char>, prompt: Seq<char>, request_id: Seq<char> },
    Error { content: Seq<char> },
}

impl View for ServerEvent {
    type V = ServerEventView;

    open spec fn view(&self) -> ServerEventView {
        match *self {
            ServerEvent::Message { content, request_id } => ServerEventView::Message {
                content: content@,
                request_id: request_id@,
            },
            ServerEvent::PermissionNeeded { permission_id, prompt, request_id } =>
                ServerEventView::PermissionNeeded {
                permission_id: permission_id@,
                prompt: prompt@,
                request_id: request_id@,
            },
            ServerEvent::Error { content } => ServerEventView::Error { content: content@ },
        }
    }
}

/// The conversation of a connection whose id is known.
pub fn session_name(id: &str) -> (r: String)
    ensures
        r@ == "web_"@ + id@,
{
    "web_".to_owned().concat(id)
}

/// The conversation of a fresh connection: every connection has its own.
pub fn fresh_session() -> (r: String)
    ensures
        exists|id: Seq<char>| #[trigger] platform::is_uuid_text(id) && r@ == "web_"@ + id,
{
    let id = platform::fresh_id();
    session_name(id.as_str())
}

/// What a command leads to.
#[derive(Debug)]
pub enum Handled {
    /// Put the event on the bus.
    Publish(BusEvent),
    /// Decide a question.
    Resolve { permission_id: String, approved: bool },
}

/// What a command of a connection leads to: a message goes to the persona as
/// part of the connection's conversation; a decision goes to the question.
pub fn handle_command(command: ClientCommand, session_id: &str) -> (r: Handled)
    ensures
        match command {
            ClientCommand::Send { persona, content, request_id } => {
                &&& r matches Handled::Publish(e)
                &&& e.timestamp >= 0
                &&& e@ == (bus::BusEventView {
                    target: Some(persona@),
                    session_id: Some(session_id@),
                    ..bus::plain_event(
                        EventKind::Message,
                        "user"@,
                        content@,
                        e.timestamp,
                        Some(request_id@),
                    )
                })
            },
            ClientCommand::Permission { permission_id, approved } => {
                &&& r matches Handled::Resolve { permission_id: id, approved: a }
                &&& id == permission_id
                &&& a == approved
            },
        },
{
    match command {
        ClientCommand::Send { persona, content, request_id } => Handled::Publish(
            BusEvent::targeted_message(
                "user".to_owned(),
                content,
                Some(request_id),
                persona,
            ).with_session(Some(session_id.to_owned())),
        ),
        ClientCommand::Permission { permission_id, approved } => Handled::Resolve {
            permission_id,
            approved,
        },
    }
}

/// What a connection is told of an event: nothing of other conversations,
/// every message of its own, and every question that a request of it led to.
pub open spec fn told(event: bus::BusEventView, session_id: Seq<char>) -> Option<ServerEventView> {
    if event.session_id != Some(session_id) {
        None
    } else {
        match event.kind {
            EventKind::Message => Some(
                ServerEventView::Message {
                    content: event.content,
                    request_id: match event.request_id {
                        Some(id) => id,
                        None => Seq::empty(),
                    },
                },
            ),
            EventKind::PermissionRequest => match event.parent_request_id {
                Some(parent) => Some(
                    ServerEventView::PermissionNeeded {
                        permission_id: match event.request_id {
                            Some(id) => id,
                            None => Seq::empty(),
                        },
                        prompt: event.content,
                        request_id: parent,
                    },
                ),
                None => None,
            },
            EventKind::OutboundMessage => None,
        }
    }
}

fn or_empty(o: &Option<String>) -> (r: String)
    ensures
        r@ == (match *o {
            Some(s) => s@,
            None => Seq::empty(),
        }),
{
    match o {
        Some(s) => s.clone(),
        None => {
            let r = String::new();
            assert(r@ =~= Seq::empty());
            r
        },
    }
}

/// What a connection is told of an event.
pub fn forward_event(event: &BusEvent, session_id: &str) -> (r: Option<ServerEvent>)
    ensures
        match r {
            Some(e) => told(event@, session_id@) == Some(e@),
            None => told(event@, session_id@) is None,
        },
{
    let mine = match &event.session_id {
        Some(id) => text::str_eq(id.as_str(), session_id),
        None => false,
    };
    if !mine {
        return None;
    }
    match event.kind {
        EventKind::Message => Some(
            ServerEvent::Message {
                content: event.content.clone(),
                request_id: or_empty(&event.request_id),
            },
        ),
        EventKind::PermissionRequest => match &event.parent_request_id {
            Some(parent) => Some(
                ServerEvent::PermissionNeeded {
                    permission_id: or_empty(&event.request_id),
                    prompt: event.content.clone(),
                    request_id: parent.clone(),
                },
            ),
            None => None,
        },
        EventKind::OutboundMessage => None,
    }
}

/// Connections never see each other's events: what one is told, no other is.
pub proof fn law_connections_are_isolated(
    event: bus::BusEventView,
    mine: Seq<char>,
    other: Seq<char>,
)
    requires
        told(event, mine) is Some,
        other != mine,
    ensures
        event.session_id == Some(mine),
        told(event, other) is None,
{
}

/// An answer to a message that a connection sent, under the message's
/// conversation and request, comes back to the connection and to no other.
pub proof fn law_answers_come_back(
    sent: bus::BusEventView,
    answer: bus::BusEventView,
    mine: Seq<char>,
    request_id: Seq<char>,
    other: Seq<char>,
)
    requires
        sent.session_id == Some(mine),
        sent.request_id == Some(request_id),
        answer.session_id == sent.session_id,
        answer.request_id == sent.request_id,
        answer.kind is Message,
        other != mine,
    ensures
        told(answer, mine) == Some(
            ServerEventView::Message { content: answer.content, request_id },
        ),
        told(answer, other) is None,
{
}

/// A connection is told of every message of its conversation, whole and under
/// its request, and of every question that a request led to, whole and with the
/// id to decide it by; of outbound messages and of other conversations nothing.
pub proof fn law_connections_are_told_whole(event: bus::BusEventView, mine: Seq<char>)
    ensures
        event.session_id != Some(mine) ==> told(event, mine) is None,
        event.session_id == Some(mine) && event.kind is Message ==> {
            &&& told(event, mine) is Some
            &&& told(event, mine)->Some_0 is Message
            &&& told(event, mine)->Some_0->Message_content == event.content
            &&& event.request_id matches Some(id) ==> told(
                event,
                mine,
            )->Some_0->Message_request_id == id
            &&& event.request_id is None ==> told(
                event,
                mine,
            )->Some_0->Message_request_id.len() == 0
        },
        event.session_id == Some(mine) && event.kind is PermissionRequest
            && event.parent_request_id is Some ==> {
            &&& told(event, mine) is Some
            &&& told(event, mine)->Some_0 is PermissionNeeded
            &&& told(event, mine)->Some_0->prompt == event.content
            &&& told(event, mine)->Some_0->PermissionNeeded_request_id
                == event.parent_request_id->Some_0
            &&& event.request_id matches Some(id) ==> told(event, mine)->Some_0->permission_id
                == id
            &&& event.request_id is None ==> told(event, mine)->Some_0->permission_id.len() == 0
        },
        event.kind is PermissionRequest && event.parent_request_id is None ==> told(
            event,
            mine,
        ) is None,
        event.kind is OutboundMessage ==> told(event, mine) is None,
{
}

/// The view of what a client is told shows every part of it.
pub proof fn law_server_views_show_the_event(event: ServerEvent)
    ensures
        match event {
            ServerEvent::Message { content, request_id } => event@ == (ServerEventView::Message {
                content: content@,
                request_id: request_id@,
            }),
            ServerEvent::PermissionNeeded { permission_id, prompt, request_id } => event@ == (
            ServerEventView::PermissionNeeded {
                permission_id: permission_id@,
                prompt: prompt@,
                request_id: request_id@,
            }),
            ServerEvent::Error { content } => event@ == (ServerEventView::Error {
                content: content@,
            }),
        },
{
}

/// What a client sends goes to the persona it names, whole, under its request
/// and as part of the connection's own conversation; a decision goes to its
/// question as it was made.
pub proof fn law_commands_are_handed_on_whole(
    command: ClientCommand,
    session_id: &str,
    r: Handled,
)
    requires
        call_ensures(handle_command, (command, session_id), r),
    ensures
        command matches ClientCommand::Send { persona, content, request_id } ==> {
            &&& r is Publish
            &&& r->Publish_0.kind is Message
            &&& r->Publish_0.sender@ == "user"@
            &&& r->Publish_0.content@ == content@
            &&& r->Publish_0.target is Some && r->Publish_0.target->Some_0@ == persona@
            &&& r->Publish_0.session_id is Some && r->Publish_0.session_id->Some_0@ == session_id@
            &&& r->Publish_0.request_id is Some && r->Publish_0.request_id->Some_0@ == request_id@
            &&& r->Publish_0.parent_request_id is None
        },
        command matches ClientCommand::Permission { permission_id, approved } ==> r == (
        Handled::Resolve { permission_id, approved }),
{
}

/// A connection is told of an event of its own conversation only, and of each
/// such message.
pub proof fn law_forwarding_keeps_to_the_connection(
    event: BusEvent,
    session_id: &str,
    r: Option<ServerEvent>,
)
    requires
        call_ensures(forward_event, (&event, session_id), r),
    ensures
        r is Some ==> event.session_id is Some && event.session_id->Some_0@ == session_id@,
        event.session_id is Some && event.session_id->Some_0@ == session_id@ && event.kind
            is Message ==> r is Some && r->Some_0 is Message && r->Some_0->Message_content@
            == event.content@ && (event.request_id matches Some(id)
            ==> r->Some_0->Message_request_id@ == id@),
        r matches Some(ServerEvent::PermissionNeeded { permission_id, prompt, request_id })
            ==> event.kind is PermissionRequest && prompt@ == event.content@
            && event.parent_request_id is Some && request_id@ == event.parent_request_id->Some_0@
            && (event.request_id matches Some(id) ==> permission_id@ == id@),
{
    law_connections_are_told_whole(event@, session_id@);
}

} // verus!
