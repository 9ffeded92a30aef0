//! The bridge between OneBot chats and a persona.
//!
//! The allowlist is a hard boundary: nothing from a chat outside it reaches
//! the persona, and nothing is sent to one.

use vstd::prelude::*;
use vstd::string::*;

use crate::domain::bus;
use crate::domain::bus::{BusEvent, EventKind};
use crate::domain::conversation;
use crate::domain::conversation::OutboundEvent;
use crate::domain::permissions::PermissionRegistry;
use crate::number;
use crate::onebot::config;
use crate::onebot::config::OnebotConfig;
use crate::onebot::types;
use crate::onebot::types::{ActionRequest, MessageEvent, PostEvent, ReplyRoute};
use crate::platform;
use crate::table::Table;
use crate::text;

verus! {

/// How many characters a message holds at most.
pub const MAX_MESSAGE_CHARS: usize = 4000;

// Sending -----------------------------------------------------------------------

/// The actions that send a text along a route, piece by piece.
pub open spec fn sends(actions: Seq<ActionRequest>, route: ReplyRoute, text: Seq<char>) -> bool {
    let pieces = types::chunks(text, MAX_MESSAGE_CHARS as nat);
    &&& actions.len() == pieces.len()
    &&& forall|i: int|
        0 <= i < actions.len() ==> types::requests(
            #[trigger] actions[i],
            types::route_action(route, pieces[i]),
        )
}

/// The actions that send a text along a route.
pub fn send_along(route: &ReplyRoute, text: &str) -> (r: Vec<ActionRequest>)
    ensures
        sends(r@, *route, text@),
{
    let pieces = types::chunk_text(text, MAX_MESSAGE_CHARS);
    let ghost shown = types::chunks(text@, MAX_MESSAGE_CHARS as nat);
    let mut r: Vec<ActionRequest> = Vec::new();
    let mut i: usize = 0;
    while i < pieces.len()
        invariant
            i <= pieces@.len(),
            shown == text::texts(pieces@),
            r@.len() == i,
            forall|j: int|
                0 <= j < i ==> types::requests(
                    #[trigger] r@[j],
                    types::route_action(*route, shown[j]),
                ),
        decreases pieces@.len() - i,
    {
        let action = route.to_action(pieces[i].as_str());
        assert(shown[i as int] == pieces@[i as int]@);
        r.push(action);
        i = i + 1;
    }
    assert(shown.len() == pieces@.len());
    r
}

/// Whether the chat of a route is in the allowlist.
pub open spec fn allowed(cfg: OnebotConfig, route: ReplyRoute) -> bool {
    match route {
        ReplyRoute::Private { user_id } => cfg.friend_ids@.contains(user_id),
        ReplyRoute::Group { group_id } => cfg.group_ids@.contains(group_id),
    }
}

/// Whether the chat of a route is in the allowlist.
pub fn route_allowed(cfg: &OnebotConfig, route: &ReplyRoute) -> (r: bool)
    ensures
        r == allowed(*cfg, *route),
{
    match route {
        ReplyRoute::Private { user_id } => config::lists(&cfg.friend_ids, *user_id),
        ReplyRoute::Group { group_id } => config::lists(&cfg.group_ids, *group_id),
    }
}

/// Sends on behalf of the persona, within the allowlist.
#[derive(Debug)]
pub struct Outbound {
    pub cfg: OnebotConfig,
}

impl Outbound {
    /// The actions that send a text to a friend of the allowlist.
    pub fn send_private(&self, user_id: i64, text: &str) -> (r: Result<Vec<ActionRequest>, String>)
        ensures
            if self.cfg.friend_ids@.contains(user_id) {
                r matches Ok(actions) && sends(
                    actions@,
                    ReplyRoute::Private { user_id },
                    text@,
                )
            } else {
                r matches Err(e) && e@ == "target user "@ + number::decimal(user_id as int)
                    + " is not in the friend allowlist"@
            },
    {
        if !config::lists(&self.cfg.friend_ids, user_id) {
            return Err(
                "target user ".to_owned().concat(number::i64_text(user_id).as_str()).concat(
                    " is not in the friend allowlist",
                ),
            );
        }
        Ok(send_along(&ReplyRoute::Private { user_id }, text))
    }

    /// The actions that send a text to a group of the allowlist.
    pub fn send_group(&self, group_id: i64, text: &str) -> (r: Result<Vec<ActionRequest>, String>)
        ensures
            if self.cfg.group_ids@.contains(group_id) {
                r matches Ok(actions) && sends(
                    actions@,
                    ReplyRoute::Group { group_id },
                    text@,
                )
            } else {
                r matches Err(e) && e@ == "target group "@ + number::decimal(group_id as int)
                    + " is not in the group allowlist"@
            },
    {
        if !config::lists(&self.cfg.group_ids, group_id) {
            return Err(
                "target group ".to_owned().concat(number::i64_text(group_id).as_str()).concat(
                    " is not in the group allowlist",
                ),
            );
        }
        Ok(send_along(&ReplyRoute::Group { group_id }, text))
    }
}

// Receiving ---------------------------------------------------------------------

/// The chat that a message comes from, where it is a private chat or a group.
pub open spec fn chat_of(msg: MessageEvent) -> Option<ReplyRoute> {
    if msg.message_type@ == "private"@ {
        Some(ReplyRoute::Private { user_id: msg.user_id })
    } else if msg.message_type@ == "group"@ {
        match msg.group_id {
            Some(group_id) => Some(ReplyRoute::Group { group_id }),
            None => None,
        }
    } else {
        None
    }
}

/// Whether a message comes from a chat of the allowlist.
pub open spec fn comes_from_allowed(cfg: OnebotConfig, msg: MessageEvent) -> bool {
    chat_of(msg) matches Some(route) && allowed(cfg, route)
}

/// What is left of a text behind the configured prefix: `None` where the text
/// is not meant for the bot.
pub open spec fn addressed(cfg: OnebotConfig, text: Seq<char>) -> Option<Seq<char>> {
    if cfg.prefix@.len() == 0 {
        Some(text)
    } else {
        match text::after_prefix(text, cfg.prefix@) {
            Some(rest) => Some(text::trim_start(rest)),
            None => None,
        }
    }
}

/// The header that tells the persona who writes where.
pub open spec fn header(msg: MessageEvent, route: ReplyRoute) -> Seq<char> {
    let who = types::identity_text(msg.sender, msg.user_id) + " → bot("@ + number::decimal(
        msg.self_id as int,
    ) + ")] "@;
    match route {
        ReplyRoute::Private { user_id } => "[私聊 "@ + who,
        ReplyRoute::Group { group_id } => "[群 "@ + number::decimal(group_id as int) + " "@ + who,
    }
}

/// What the persona sees of a message: the text, with a marker for everything
/// else that names the message to fetch it by.
pub open spec fn shown(msg: MessageEvent, content: types::MessageContent) -> Seq<char> {
    types::content_text_with_id(content, number::decimal(msg.message_id as int))
}

/// What the persona is handed of a message, as header and body, and where a
/// reply goes: nothing of the bot's own messages, of chats outside the
/// allowlist, of messages without visible text, and of messages that lack the
/// prefix.
pub open spec fn accepted(cfg: OnebotConfig, msg: MessageEvent) -> Option<
    (Seq<char>, Seq<char>, ReplyRoute),
> {
    if msg.user_id == msg.self_id || !comes_from_allowed(cfg, msg) {
        None
    } else {
        match (chat_of(msg), msg.message) {
            (Some(route), Some(content)) => {
                let text = shown(msg, content);
                if text::trim(text).len() == 0 {
                    None
                } else {
                    match addressed(cfg, text) {
                        Some(rest) => Some((header(msg, route), rest, route)),
                        None => None,
                    }
                }
            },
            _ => None,
        }
    }
}

/// The conversation of a chat.
pub open spec fn conversation_name(route: ReplyRoute) -> Seq<char> {
    match route {
        ReplyRoute::Private { user_id } => "onebot_private_"@ + number::decimal(user_id as int),
        ReplyRoute::Group { group_id } => "onebot_group_"@ + number::decimal(group_id as int),
    }
}

/// The chat of a conversation.
pub open spec fn conversation_chat(id: Seq<char>) -> Option<ReplyRoute> {
    match text::after_prefix(id, "onebot_private_"@) {
        Some(rest) => match number::i64_of(rest) {
            Some(user_id) => Some(ReplyRoute::Private { user_id }),
            None => None,
        },
        None => match text::after_prefix(id, "onebot_group_"@) {
            Some(rest) => match number::i64_of(rest) {
                Some(group_id) => Some(ReplyRoute::Group { group_id }),
                None => None,
            },
            None => None,
        },
    }
}

/// The conversation of a chat.
pub fn conversation_of(route: &ReplyRoute) -> (r: String)
    ensures
        r@ == conversation_name(*route),
{
    match route {
        ReplyRoute::Private { user_id } => "onebot_private_".to_owned().concat(
            number::i64_text(*user_id).as_str(),
        ),
        ReplyRoute::Group { group_id } => "onebot_group_".to_owned().concat(
            number::i64_text(*group_id).as_str(),
        ),
    }
}

/// The chat of a conversation, where it is one of this adapter.
pub fn chat_of_conversation(id: &str) -> (r: Option<ReplyRoute>)
    ensures
        r == conversation_chat(id@),
{
    match text::strip_prefix(id, "onebot_private_") {
        Some(rest) => match number::parse_i64(rest.as_str()) {
            Some(user_id) => Some(ReplyRoute::Private { user_id }),
            None => None,
        },
        None => match text::strip_prefix(id, "onebot_group_") {
            Some(rest) => match number::parse_i64(rest.as_str()) {
                Some(group_id) => Some(ReplyRoute::Group { group_id }),
                None => None,
            },
            None => None,
        },
    }
}

/// Where a message of a persona goes: to its target, else to the chat of its
/// conversation.
pub open spec fn destination(
    target: Option<Seq<char>>,
    conversation_id: Option<Seq<char>>,
) -> Option<ReplyRoute> {
    match (target, conversation_id) {
        (Some(target), _) => types::route_of(target),
        (None, Some(id)) => conversation_chat(id),
        (None, None) => None,
    }
}

/// What the persona is handed of a message.
#[derive(Debug)]
pub struct Accepted {
    /// Who writes where.
    pub header: String,
    /// What is written.
    pub body: String,
    pub route: ReplyRoute,
}

/// The bridge of one persona.
pub struct OneBotBridge {
    pub persona: String,
    pub cfg: OnebotConfig,
}

/// What the bridge does in response to an event on the bus.
#[derive(Debug)]
pub struct Response {
    /// The question that was decided with no.
    pub denied: Option<String>,
    /// The actions to send.
    pub actions: Vec<ActionRequest>,
}

/// The notice of a question that cannot be answered over OneBot.
pub open spec fn denial_notice(prompt: Seq<char>) -> Seq<char> {
    "需要你授权："@ + prompt + "\nOneBot 通道暂不支持在线授权，已自动拒绝。"@
}

fn chat(msg: &MessageEvent) -> (r: Option<ReplyRoute>)
    ensures
        r == chat_of(*msg),
{
    if text::str_eq(msg.message_type.as_str(), "private") {
        Some(ReplyRoute::Private { user_id: msg.user_id })
    } else if text::str_eq(msg.message_type.as_str(), "group") {
        match msg.group_id {
            Some(group_id) => Some(ReplyRoute::Group { group_id }),
            None => None,
        }
    } else {
        None
    }
}

fn show_header(msg: &MessageEvent, route: &ReplyRoute) -> (r: String)
    ensures
        r@ == header(*msg, *route),
{
    let name = match &msg.sender {
        Some(s) => types::identity(Some(s), msg.user_id),
        None => types::identity(None, msg.user_id),
    };
    let who = name.concat(" → bot(").concat(number::i64_text(msg.self_id).as_str()).concat(")] ");
    match route {
        ReplyRoute::Private { user_id } => "[私聊 ".to_owned().concat(who.as_str()),
        ReplyRoute::Group { group_id } => "[群 ".to_owned().concat(
            number::i64_text(*group_id).as_str(),
        ).concat(" ").concat(who.as_str()),
    }
}

impl OneBotBridge {
    pub fn new(persona: String, cfg: OnebotConfig) -> (r: Self)
        ensures
            r.persona == persona,
            r.cfg == cfg,
    {
        OneBotBridge { persona, cfg }
    }

    /// What the persona sends with, under the same allowlist.
    pub fn outbound(&self) -> (r: Outbound)
        ensures
            config::same_config(r.cfg, self.cfg),
    {
        Outbound { cfg: self.cfg.clone() }
    }

    /// Whether a message comes from a chat of the allowlist.
    pub fn is_allowed(&self, msg: &MessageEvent) -> (r: bool)
        ensures
            r == comes_from_allowed(self.cfg, *msg),
    {
        match chat(msg) {
            Some(route) => route_allowed(&self.cfg, &route),
            None => false,
        }
    }

    fn strip(&self, text: String) -> (r: Option<String>)
        ensures
            text::opt_text(r) == addressed(self.cfg, text@),
    {
        if text::is_empty(self.cfg.prefix.as_str()) {
            return Some(text);
        }
        match text::strip_prefix(text.as_str(), self.cfg.prefix.as_str()) {
            Some(rest) => Some(text::trimmed_start(rest.as_str())),
            None => None,
        }
    }

    /// What the persona is handed of a message and where a reply goes.
    pub fn accept(&self, msg: &MessageEvent) -> (r: Option<Accepted>)
        ensures
            match r {
                Some(a) => accepted(self.cfg, *msg) == Some((a.header@, a.body@, a.route)),
                None => accepted(self.cfg, *msg) is None,
            },
    {
        if msg.user_id == msg.self_id {
            return None;
        }
        let route = match chat(msg) {
            Some(route) => route,
            None => {
                return None;
            },
        };
        if !route_allowed(&self.cfg, &route) {
            return None;
        }
        let content = match &msg.message {
            Some(content) => content,
            None => {
                return None;
            },
        };
        let text = content.to_text_with_id(number::i64_text(msg.message_id).as_str());
        if text::is_blank(text.as_str()) {
            return None;
        }
        match self.strip(text) {
            Some(body) => Some(Accepted { header: show_header(msg, &route), body, route }),
            None => None,
        }
    }

    /// Takes an event of the implementation: an accepted message becomes an
    /// event for the persona under a fresh request id, and its route is kept
    /// under that id. Everything else leads to nothing.
    pub fn handle_onebot_event(&self, event: &PostEvent, routes: &mut Table<String, ReplyRoute>)
        -> (r: Option<BusEvent>)
        ensures
            match *event {
                PostEvent::Message(msg) => match accepted(self.cfg, msg) {
                    Some((head, body, route)) => {
                        &&& r matches Some(e)
                        &&& e.request_id matches Some(id)
                        &&& platform::is_uuid_text(id@)
                        &&& e.timestamp >= 0
                        &&& e@ == (bus::BusEventView {
                            target: Some(self.persona@),
                            context: types::route_text(route),
                            ..bus::plain_event(
                                EventKind::Message,
                                "user"@,
                                head + body,
                                e.timestamp,
                                Some(id@),
                            )
                        })
                        &&& final(routes)@ == old(routes)@.insert(id@, route)
                    },
                    None => r is None && final(routes)@ == old(routes)@,
                },
                _ => r is None && final(routes)@ == old(routes)@,
            },
    {
        let msg = match event {
            PostEvent::Message(msg) => msg,
            _ => {
                return None;
            },
        };
        match self.accept(msg) {
            Some(a) => {
                let id = platform::fresh_id();
                routes.insert(id.clone(), a.route);
                Some(
                    BusEvent::targeted_message_with_context(
                        "user".to_owned(),
                        a.header.concat(a.body.as_str()),
                        Some(id),
                        self.persona.clone(),
                        a.route.to_context(),
                    ),
                )
            },
            None => None,
        }
    }

    /// The actions that send a message of the persona: `None` where it has no
    /// destination here or its chat is not in the allowlist.
    pub fn handle_outbound(&self, event: &OutboundEvent) -> (r: Option<Vec<ActionRequest>>)
        ensures
            match destination(text::opt_text(event.target), text::opt_text(event.conversation_id)) {
                Some(route) => match r {
                    Some(actions) => allowed(self.cfg, route) && sends(
                        actions@,
                        route,
                        event.content@,
                    ),
                    None => !allowed(self.cfg, route),
                },
                None => r is None,
            },
    {
        let route = match &event.target {
            Some(target) => ReplyRoute::parse(target.as_str()),
            None => match &event.conversation_id {
                Some(id) => chat_of_conversation(id.as_str()),
                None => None,
            },
        };
        match route {
            Some(route) => self.send_reply(&route, event.content.as_str()),
            None => None,
        }
    }

    /// The actions that send a text along a route, where its chat is in the
    /// allowlist.
    pub fn send_reply(&self, route: &ReplyRoute, text: &str) -> (r: Option<Vec<ActionRequest>>)
        ensures
            match r {
                Some(actions) => allowed(self.cfg, *route) && sends(actions@, *route, text@),
                None => !allowed(self.cfg, *route),
            },
    {
        if route_allowed(&self.cfg, route) {
            Some(send_along(route, text))
        } else {
            None
        }
    }

    /// Takes an event of the bus. Only events of the bridge's own persona
    /// count. A reply is not sent from here: its route is dropped. A question
    /// that belongs to a known request is decided with no, and the chat is
    /// told so, where it is in the allowlist.
    pub fn handle_bus_event(
        &self,
        event: &BusEvent,
        routes: &mut Table<String, ReplyRoute>,
        permissions: &mut PermissionRegistry,
    ) -> (r: Response)
        ensures
            ({
                let mine = event.sender@ == self.persona@;
                let parent = text::opt_text(event.parent_request_id);
                let asked = mine && event.kind is PermissionRequest && parent is Some && old(
                    routes,
                )@.dom().contains(parent->Some_0);
                let question = match text::opt_text(event.request_id) {
                    Some(id) => id,
                    None => Seq::empty(),
                };
                &&& final(routes)@ == (if mine && event.kind is Message && event.request_id
                    is Some {
                    old(routes)@.remove(text::opt_text(event.request_id)->Some_0)
                } else {
                    old(routes)@
                })
                &&& final(permissions)@ == (if asked {
                    old(permissions)@.remove(question)
                } else {
                    old(permissions)@
                })
                &&& text::opt_text(r.denied) == (if asked && old(permissions)@.contains(question) {
                    Some(question)
                } else {
                    None
                })
                &&& if asked && allowed(self.cfg, old(routes)@[parent->Some_0]) {
                    sends(
                        r.actions@,
                        old(routes)@[parent->Some_0],
                        denial_notice(event.content@),
                    )
                } else {
                    r.actions@.len() == 0
                }
            }),
    {
        if !text::str_eq(event.sender.as_str(), self.persona.as_str()) {
            return Response { denied: None, actions: Vec::new() };
        }
        match event.kind {
            EventKind::Message => {
                match &event.request_id {
                    Some(id) => {
                        routes.remove(id);
                    },
                    None => {},
                }
                Response { denied: None, actions: Vec::new() }
            },
            EventKind::PermissionRequest => {
                let parent = match &event.parent_request_id {
                    Some(parent) => parent,
                    None => {
                        return Response { denied: None, actions: Vec::new() };
                    },
                };
                let route = match routes.get(parent) {
                    Some(route) => *route,
                    None => {
                        return Response { denied: None, actions: Vec::new() };
                    },
                };
                let question = match &event.request_id {
                    Some(id) => id.clone(),
                    None => {
                        let nothing = String::new();
                        assert(nothing@ =~= Seq::empty());
                        nothing
                    },
                };
                let decided = permissions.resolve(question.as_str(), false);
                let notice = "需要你授权：".to_owned().concat(event.content.as_str()).concat(
                    "\nOneBot 通道暂不支持在线授权，已自动拒绝。",
                );
                let actions = match self.send_reply(&route, notice.as_str()) {
                    Some(actions) => actions,
                    None => Vec::new(),
                };
                let denied = if decided.is_some() {
                    Some(question)
                } else {
                    None
                };
                Response { denied, actions }
            },
            EventKind::OutboundMessage => Response { denied: None, actions: Vec::new() },
        }
    }
}

// The boundary --------------------------------------------------------------------

/// Nothing from outside the allowlist reaches the persona, nor do the bot's
/// own messages, and a reply goes back to the chat that the message came from.
pub proof fn law_only_allowed_chats_reach_the_persona(cfg: OnebotConfig, msg: MessageEvent)
    requires
        accepted(cfg, msg) is Some,
    ensures
        msg.user_id != msg.self_id,
        ({
            let route = accepted(cfg, msg)->Some_0.2;
            &&& allowed(cfg, route)
            &&& chat_of(msg) == Some(route)
            &&& msg.message_type@ == "private"@ ==> cfg.friend_ids@.contains(msg.user_id)
            &&& msg.message_type@ != "private"@ ==> (msg.group_id matches Some(g)
                && cfg.group_ids@.contains(g))
        }),
{
}

/// An empty list disables its category: with an empty list of friends no
/// private message reaches the persona and no private chat is written to, and
/// likewise for groups; with both empty nobody reaches the persona.
pub proof fn law_empty_allowlists_admit_nobody(cfg: OnebotConfig, msg: MessageEvent, id: i64)
    ensures
        cfg.friend_ids@.len() == 0 ==> !allowed(cfg, ReplyRoute::Private { user_id: id }),
        cfg.friend_ids@.len() == 0 && msg.message_type@ == "private"@ ==> accepted(cfg, msg) is None,
        cfg.group_ids@.len() == 0 ==> !allowed(cfg, ReplyRoute::Group { group_id: id }),
        cfg.group_ids@.len() == 0 && msg.message_type@ != "private"@ ==> accepted(cfg, msg) is None,
        cfg.friend_ids@.len() == 0 && cfg.group_ids@.len() == 0 ==> accepted(cfg, msg) is None,
{
}

/// Every visible message of an allowed chat reaches the persona when no prefix
/// is configured.
pub proof fn law_allowed_messages_reach_the_persona(cfg: OnebotConfig, msg: MessageEvent)
    requires
        msg.user_id != msg.self_id,
        comes_from_allowed(cfg, msg),
        cfg.prefix@.len() == 0,
        msg.message matches Some(content) && text::trim(shown(msg, content)).len() > 0,
    ensures
        ({
            let route = chat_of(msg)->Some_0;
            accepted(cfg, msg) == Some(
                (header(msg, route), shown(msg, msg.message->Some_0), route),
            )
        }),
{
}

/// What a route was kept for can be read back from the context that the
/// persona sees.
pub proof fn law_context_names_the_route(cfg: OnebotConfig, msg: MessageEvent)
    requires
        accepted(cfg, msg) is Some,
    ensures
        types::route_of(types::route_text(accepted(cfg, msg)->Some_0.2)) == Some(
            accepted(cfg, msg)->Some_0.2,
        ),
{
    types::law_route_text_round_trips(accepted(cfg, msg)->Some_0.2);
}

/// A conversation names its chat, and belongs to this adapter: what the
/// persona says in the conversation of an accepted message goes back to the
/// chat that the message came from.
pub proof fn law_conversations_name_their_chat(route: ReplyRoute)
    ensures
        conversation_chat(conversation_name(route)) == Some(route),
        destination(None, Some(conversation_name(route))) == Some(route),
        conversation::prefix_of(conversation_name(route)) == "onebot"@,
{
    reveal_strlit("onebot");
    reveal_strlit("onebot_private_");
    reveal_strlit("onebot_group_");
    let name = conversation_name(route);
    let (head, id) = match route {
        ReplyRoute::Private { user_id } => ("onebot_private_"@, user_id),
        ReplyRoute::Group { group_id } => ("onebot_group_"@, group_id),
    };
    let digits = number::decimal(id as int);
    number::law_integer_text_round_trips(id as int);
    assert(name.take(head.len() as int) =~= head);
    assert(name.skip(head.len() as int) =~= digits);
    if route is Group && name.len() >= 15 {
        assert(name[7] == 'g');
        assert("onebot_private_"@[7] == 'p');
        assert(name.take(15)[7] == name[7]);
    }
    text::lemma_first_index_is(name, '_', 6);
    assert(name.take(6) =~= "onebot"@);
}

// What comes in and what goes out -------------------------------------------------------

/// A message reaches the persona exactly where it is not the bot's own, comes
/// from a friend or a group of the allowlist, shows a visible character and,
/// whatever kind of chat it comes from, begins with the prefix.
pub proof fn law_messages_are_accepted_by_rule(cfg: OnebotConfig, msg: MessageEvent)
    ensures
        accepted(cfg, msg) is Some <==> {
            &&& msg.user_id != msg.self_id
            &&& {
                ||| msg.message_type@ == "private"@ && cfg.friend_ids@.contains(msg.user_id)
                ||| msg.message_type@ == "group"@ && msg.group_id is Some
                    && cfg.group_ids@.contains(msg.group_id->Some_0)
            }
            &&& msg.message is Some
            &&& ({
                let s = types::content_text_with_id(
                    msg.message->Some_0,
                    number::decimal(msg.message_id as int),
                );
                &&& exists|i: int| 0 <= i < s.len() && !text::white_space(#[trigger] s[i])
                &&& exists|rest: Seq<char>| s == #[trigger] (cfg.prefix@ + rest)
            })
        },
{
    reveal_strlit("private");
    reveal_strlit("group");
    assert("private"@.len() != "group"@.len());
    if msg.message is Some {
        let s = types::content_text_with_id(
            msg.message->Some_0,
            number::decimal(msg.message_id as int),
        );
        text::law_blank_texts_are_white_space(s);
        text::law_prefixes_come_off(cfg.prefix@, s, s);
        if cfg.prefix@.len() == 0 {
            assert(s =~= cfg.prefix@ + s);
        } else if exists|rest: Seq<char>| s == #[trigger] (cfg.prefix@ + rest) {
            let rest = choose|rest: Seq<char>| s == #[trigger] (cfg.prefix@ + rest);
            text::law_prefixes_come_off(cfg.prefix@, rest, s);
        }
    }
}

/// With a prefix configured, in private chats and in groups alike, an accepted
/// message begins with the prefix; its body is what the message shows behind
/// the prefix, without the white space that follows it, and nothing else is
/// lost. Without a prefix the body is all that the message shows.
pub proof fn law_bodies_follow_the_prefix(cfg: OnebotConfig, msg: MessageEvent)
    requires
        accepted(cfg, msg) is Some,
    ensures
        msg.message is Some,
        ({
            let body = accepted(cfg, msg)->Some_0.1;
            let s = types::content_text_with_id(
                msg.message->Some_0,
                number::decimal(msg.message_id as int),
            );
            let n = cfg.prefix@.len() as int;
            let k = s.len() - body.len();
            &&& n == 0 ==> body == s
            &&& n <= k <= s.len()
            &&& s.take(n) == cfg.prefix@
            &&& forall|i: int| n <= i < k ==> text::white_space(#[trigger] s[i])
            &&& s.skip(k) == body
            &&& n > 0 && body.len() > 0 ==> !text::white_space(body[0])
        }),
{
    let body = accepted(cfg, msg)->Some_0.1;
    let s = types::content_text_with_id(
        msg.message->Some_0,
        number::decimal(msg.message_id as int),
    );
    let n = cfg.prefix@.len() as int;
    let k = s.len() - body.len();
    if n == 0 {
        assert(s.skip(0) =~= s);
        assert(s.take(0) =~= cfg.prefix@);
    } else {
        let rest = s.skip(n);
        text::law_trimming_the_start(rest);
        let white = rest.take(rest.len() - body.len());
        assert forall|i: int| n <= i < k implies text::white_space(#[trigger] s[i]) by {
            assert(white[i - n] == s[i]);
        }
        assert(s.skip(k) =~= body) by {
            assert forall|i: int| 0 <= i < body.len() implies s.skip(k)[i] == body[i] by {
                assert((white + body)[white.len() + i] == body[i]);
                assert(rest[white.len() + i] == s[k + i]);
            }
        }
    }
}

/// The header of an accepted message tells the kind of chat, in a group its
/// number, who writes and to which bot; a reply goes to the friend who wrote or
/// to the group.
pub proof fn law_headers_tell_who_writes_where(cfg: OnebotConfig, msg: MessageEvent)
    requires
        accepted(cfg, msg) is Some,
    ensures
        ({
            let (head, body, route) = accepted(cfg, msg)->Some_0;
            let who = types::identity_text(msg.sender, msg.user_id);
            let bot = number::decimal(msg.self_id as int);
            &&& msg.message_type@ == "private"@ ==> {
                &&& route == (ReplyRoute::Private { user_id: msg.user_id })
                &&& head == "[私聊 "@ + (who + " → bot("@ + bot + ")] "@)
            }
            &&& msg.message_type@ == "group"@ ==> {
                &&& msg.group_id is Some
                &&& route == (ReplyRoute::Group { group_id: msg.group_id->Some_0 })
                &&& head == "[群 "@ + number::decimal(msg.group_id->Some_0 as int) + " "@ + (who
                    + " → bot("@ + bot + ")] "@)
            }
        }),
{
    reveal_strlit("private");
    reveal_strlit("group");
    assert("private"@.len() != "group"@.len());
}

/// The text that an action sends.
pub open spec fn sent_text(action: ActionRequest) -> Seq<char> {
    match action.params {
        types::ActionParams::Private { user_id, message } => message@[0].data.text@,
        types::ActionParams::Group { group_id, message } => message@[0].data.text@,
        _ => Seq::empty(),
    }
}

/// Whether an action sends to the chat of a route.
pub open spec fn goes_to(action: ActionRequest, route: ReplyRoute) -> bool {
    match route {
        ReplyRoute::Private { user_id } => action.action@ == "send_private_msg"@
            && action.params is Private && action.params->Private_user_id == user_id,
        ReplyRoute::Group { group_id } => action.action@ == "send_group_msg"@ && action.params
            is Group && action.params->Group_group_id == group_id,
    }
}

/// Sending loses nothing: the pieces make up the text in their order, none is
/// longer than four thousand characters, and every piece goes to the chat of
/// the route and to no other.
pub proof fn law_sending_loses_nothing(
    actions: Seq<ActionRequest>,
    route: ReplyRoute,
    s: Seq<char>,
    i: int,
)
    requires
        sends(actions, route, s),
    ensures
        text::concatenated(actions.map_values(|a: ActionRequest| sent_text(a))) == s,
        0 <= i < actions.len() ==> goes_to(actions[i], route) && 0 < sent_text(actions[i]).len()
            <= 4000,
        0 <= i < actions.len() - 1 ==> sent_text(actions[i]).len() == 4000,
{
    let pieces = types::chunks(s, MAX_MESSAGE_CHARS as nat);
    types::law_chunks_make_up_the_text(s, MAX_MESSAGE_CHARS as nat);
    let texts = actions.map_values(|a: ActionRequest| sent_text(a));
    assert forall|j: int| 0 <= j < actions.len() implies sent_text(#[trigger] actions[j])
        == pieces[j] && goes_to(actions[j], route) by {
        types::law_sent_messages_carry_the_text(actions[j], route, pieces[j]);
    }
    assert(texts =~= pieces);
    if 0 <= i < actions.len() {
        assert(sent_text(actions[i]) == pieces[i]);
    }
}

/// A message with a target goes where the target says, whatever conversation it
/// belongs to; without one it goes to the chat that the conversation is named
/// after, and without either nowhere.
pub proof fn law_targets_come_first(
    target: Seq<char>,
    conversation_id: Option<Seq<char>>,
    digits: Seq<char>,
    n: i64,
)
    requires
        number::i64_of(digits) == Some(n),
    ensures
        destination(Some("private:"@ + digits), conversation_id) == Some(
            ReplyRoute::Private { user_id: n },
        ),
        destination(Some("group:"@ + digits), conversation_id) == Some(
            ReplyRoute::Group { group_id: n },
        ),
        destination(Some(target), conversation_id) == destination(Some(target), None),
        destination(None, Some("onebot_private_"@ + digits)) == Some(
            ReplyRoute::Private { user_id: n },
        ),
        destination(None, Some("onebot_group_"@ + digits)) == Some(
            ReplyRoute::Group { group_id: n },
        ),
        destination(None, None) is None,
        conversation_name(ReplyRoute::Private { user_id: n }) == "onebot_private_"@
            + number::decimal(n as int),
        conversation_name(ReplyRoute::Group { group_id: n }) == "onebot_group_"@
            + number::decimal(n as int),
{
    types::law_targets_name_chats(target, digits, n);
    text::law_prefixes_come_off("onebot_private_"@, digits, digits);
    text::law_prefixes_come_off("onebot_group_"@, digits, digits);
    let group = "onebot_group_"@ + digits;
    text::law_prefixes_come_off("onebot_private_"@, digits, group);
    reveal_strlit("onebot_private_");
    reveal_strlit("onebot_group_");
    if text::has_prefix(group, "onebot_private_"@) {
        assert(group.take("onebot_private_"@.len() as int)[7] == group[7]);
        assert(group[7] == 'g');
    }
}

/// The notice of a refused question repeats the whole question.
pub proof fn law_notices_repeat_the_question(prompt: Seq<char>)
    ensures
        ({
            let head = "需要你授权："@;
            let tail = "\nOneBot 通道暂不支持在线授权，已自动拒绝。"@;
            let notice = denial_notice(prompt);
            &&& notice.len() == head.len() + prompt.len() + tail.len()
            &&& notice.take(head.len() as int) == head
            &&& notice.subrange(head.len() as int, (head.len() + prompt.len()) as int)
                == prompt
            &&& notice.skip((head.len() + prompt.len()) as int) == tail
        }),
{
    let head = "需要你授权："@;
    let tail = "\nOneBot 通道暂不支持在线授权，已自动拒绝。"@;
    let notice = denial_notice(prompt);
    assert(notice.take(head.len() as int) =~= head);
    assert(notice.subrange(head.len() as int, (head.len() + prompt.len()) as int) =~= prompt);
    assert(notice.skip((head.len() + prompt.len()) as int) =~= tail);
}

/// The allowlist of friends decides on private chats, that of groups on groups.
pub proof fn law_each_list_decides_on_its_chats(cfg: OnebotConfig, id: i64)
    ensures
        allowed(cfg, ReplyRoute::Private { user_id: id }) <==> exists|i: int|
            0 <= i < cfg.friend_ids@.len() && cfg.friend_ids@[i] == id,
        allowed(cfg, ReplyRoute::Group { group_id: id }) <==> exists|i: int|
            0 <= i < cfg.group_ids@.len() && cfg.group_ids@[i] == id,
{
}

/// What the persona is handed of a message is what the message shows behind the
/// prefix; a message without the prefix is not accepted, in groups no more than
/// in private chats.
pub proof fn law_accepting_takes_the_prefix_off(
    bridge: OneBotBridge,
    msg: MessageEvent,
    r: Option<Accepted>,
)
    requires
        call_ensures(OneBotBridge::accept, (&bridge, &msg), r),
    ensures
        r matches Some(a) ==> {
            let s = types::content_text_with_id(
                msg.message->Some_0,
                number::decimal(msg.message_id as int),
            );
            let n = bridge.cfg.prefix@.len() as int;
            &&& msg.message is Some
            &&& n <= s.len()
            &&& s.take(n) == bridge.cfg.prefix@
            &&& n == 0 ==> a.body@ == s
            &&& n > 0 ==> a.body@ == text::trim_start(s.skip(n))
        },
        r is Some <==> accepted(bridge.cfg, msg) is Some,
{
    if r is Some {
        law_bodies_follow_the_prefix(bridge.cfg, msg);
    }
}

/// A message of the persona is sent whole and to its destination, where the
/// chat is in the allowlist, and not at all elsewhere.
pub proof fn law_outbound_messages_go_out_whole(
    bridge: OneBotBridge,
    event: OutboundEvent,
    r: Option<Vec<ActionRequest>>,
    i: int,
)
    requires
        call_ensures(OneBotBridge::handle_outbound, (&bridge, &event), r),
    ensures
        ({
            let route = destination(
                text::opt_text(event.target),
                text::opt_text(event.conversation_id),
            );
            &&& r is Some <==> route is Some && allowed(bridge.cfg, route->Some_0)
            &&& r matches Some(actions) ==> {
                &&& text::concatenated(actions@.map_values(|a: ActionRequest| sent_text(a)))
                    == event.content@
                &&& 0 <= i < actions@.len() ==> goes_to(actions@[i], route->Some_0)
            }
        }),
{
    let route = destination(text::opt_text(event.target), text::opt_text(event.conversation_id));
    match r {
        Some(actions) => {
            law_sending_loses_nothing(actions@, route->Some_0, event.content@, i);
        },
        None => {},
    }
}

/// What the persona sends to a friend or a group goes out exactly where that
/// friend or group is in its list, whole; else the refusal names the number.
pub proof fn law_sending_keeps_to_the_lists(
    out: Outbound,
    id: i64,
    s: &str,
    private: Result<Vec<ActionRequest>, String>,
    group: Result<Vec<ActionRequest>, String>,
)
    requires
        call_ensures(Outbound::send_private, (&out, id, s), private),
        call_ensures(Outbound::send_group, (&out, id, s), group),
    ensures
        private is Ok <==> out.cfg.friend_ids@.contains(id),
        group is Ok <==> out.cfg.group_ids@.contains(id),
        private matches Ok(actions) ==> text::concatenated(
            actions@.map_values(|a: ActionRequest| sent_text(a)),
        ) == s@ && forall|i: int|
            0 <= i < actions@.len() ==> goes_to(
                #[trigger] actions@[i],
                ReplyRoute::Private { user_id: id },
            ),
        group matches Ok(actions) ==> text::concatenated(
            actions@.map_values(|a: ActionRequest| sent_text(a)),
        ) == s@ && forall|i: int|
            0 <= i < actions@.len() ==> goes_to(
                #[trigger] actions@[i],
                ReplyRoute::Group { group_id: id },
            ),
        private matches Err(e) ==> e@ == "target user "@ + number::decimal(id as int)
            + " is not in the friend allowlist"@,
        group matches Err(e) ==> e@ == "target group "@ + number::decimal(id as int)
            + " is not in the group allowlist"@,
{
    match private {
        Ok(actions) => {
            let route = ReplyRoute::Private { user_id: id };
            law_sending_loses_nothing(actions@, route, s@, 0);
            assert forall|i: int| 0 <= i < actions@.len() implies goes_to(
                #[trigger] actions@[i],
                route,
            ) by {
                law_sending_loses_nothing(actions@, route, s@, i);
            }
        },
        Err(e) => {},
    }
    match group {
        Ok(actions) => {
            let route = ReplyRoute::Group { group_id: id };
            law_sending_loses_nothing(actions@, route, s@, 0);
            assert forall|i: int| 0 <= i < actions@.len() implies goes_to(
                #[trigger] actions@[i],
                route,
            ) by {
                law_sending_loses_nothing(actions@, route, s@, i);
            }
        },
        Err(e) => {},
    }
}

/// An accepted message reaches the persona as its header and its body, whole,
/// under a request id of its own by which the chat is found again; every other
/// event leads to nothing.
pub proof fn law_accepted_messages_reach_the_persona_whole(
    bridge: OneBotBridge,
    event: PostEvent,
    routes: &mut Table<String, ReplyRoute>,
    r: Option<BusEvent>,
)
    requires
        call_ensures(OneBotBridge::handle_onebot_event, (&bridge, &event, routes), r),
    ensures
        r is Some <==> event is Message && accepted(bridge.cfg, event->Message_0) is Some,
        r is None ==> final(routes)@ == old(routes)@,
        r matches Some(e) ==> {
            let (head, body, route) = accepted(bridge.cfg, event->Message_0)->Some_0;
            &&& e.kind is Message
            &&& e.content@ == head + body
            &&& e.sender@ == "user"@
            &&& e.target is Some && e.target->Some_0@ == bridge.persona@
            &&& e.context@ == types::route_text(route)
            &&& e.request_id is Some
            &&& final(routes)@ == old(routes)@.insert(e.request_id->Some_0@, route)
        },
{
}

/// A question of the bridge's own persona about a known request is decided with
/// no, and the chat of the request, where it is in the allowlist, is told the
/// whole question. Nothing else is sent or decided.
pub proof fn law_questions_are_refused_and_told(
    bridge: OneBotBridge,
    event: BusEvent,
    routes: &mut Table<String, ReplyRoute>,
    permissions: &mut PermissionRegistry,
    r: Response,
)
    requires
        call_ensures(OneBotBridge::handle_bus_event, (&bridge, &event, routes, permissions), r),
    ensures
        ({
            let asked = event.sender@ == bridge.persona@ && event.kind is PermissionRequest
                && event.parent_request_id is Some && old(routes)@.dom().contains(
                event.parent_request_id->Some_0@,
            );
            let route = old(routes)@[event.parent_request_id->Some_0@];
            &&& !asked ==> r.denied is None && r.actions@.len() == 0 && final(permissions)@ == old(
                permissions,
            )@
            &&& asked && event.request_id is Some ==> final(permissions)@ == old(
                permissions,
            )@.remove(event.request_id->Some_0@)
            &&& r.denied matches Some(id) ==> asked && old(permissions)@.contains(id@)
            &&& asked && allowed(bridge.cfg, route) ==> text::concatenated(
                r.actions@.map_values(|a: ActionRequest| sent_text(a)),
            ) == denial_notice(event.content@)
            &&& asked && !allowed(bridge.cfg, route) ==> r.actions@.len() == 0
            &&& event.sender@ != bridge.persona@ ==> final(routes)@ == old(routes)@
        }),
{
    let asked = event.sender@ == bridge.persona@ && event.kind is PermissionRequest
        && event.parent_request_id is Some && old(routes)@.dom().contains(
        event.parent_request_id->Some_0@,
    );
    let route = old(routes)@[event.parent_request_id->Some_0@];
    if asked && allowed(bridge.cfg, route) {
        law_sending_loses_nothing(r.actions@, route, denial_notice(event.content@), 0);
    }
}

} // verus!
