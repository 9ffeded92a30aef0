//! The tools of the OneBot adapter. Every name carries the `onebot_` prefix.
//!
//! A tool prepares an action and reads the response; the call itself is made
//! elsewhere.

use vstd::prelude::*;
use vstd::string::*;

use crate::domain::conversation;
use crate::domain::conversation::{ConversationManager, Routed};
use crate::domain::permissions::ToolContext;
use crate::domain::session;
use crate::domain::tool;
use crate::domain::tool::{ParamsView, PropertyDef, Tool, ToolParams};
use crate::number;
use crate::onebot::types;
use crate::onebot::types::{ActionRequest, GetMsgData, HistoryMessage, LoginInfoData, ReplyRoute};
use crate::platform;
use crate::text;

verus! {

// Showing outcomes -----------------------------------------------------------------

/// An optional text as diagnostics show it.
pub open spec fn debug_opt_text(o: Option<Seq<char>>) -> Seq<char> {
    match o {
        Some(s) => "Some("@ + platform::quoted(s) + ")"@,
        None => "None"@,
    }
}

/// An optional integer as diagnostics show it.
pub open spec fn debug_opt_int(o: Option<i64>) -> Seq<char> {
    match o {
        Some(n) => "Some("@ + number::decimal(n as int) + ")"@,
        None => "None"@,
    }
}

/// How a failed action is described.
pub open spec fn failure(
    action: Seq<char>,
    status: Option<Seq<char>>,
    retcode: Option<i64>,
) -> Seq<char> {
    action + " failed: status="@ + debug_opt_text(status) + " retcode="@ + debug_opt_int(retcode)
}

/// What came back of an action, without its data.
#[derive(Debug)]
pub struct Reply {
    pub status: Option<String>,
    pub retcode: Option<i64>,
}

fn show_failure(action: &str, reply: &Reply) -> (r: String)
    ensures
        r@ == failure(action@, text::opt_text(reply.status), reply.retcode),
{
    let status = match &reply.status {
        Some(s) => "Some(".to_owned().concat(platform::quote(s.as_str()).as_str()).concat(")"),
        None => "None".to_owned(),
    };
    let retcode = match reply.retcode {
        Some(n) => "Some(".to_owned().concat(number::i64_text(n).as_str()).concat(")"),
        None => "None".to_owned(),
    };
    action.to_owned().concat(" failed: status=").concat(status.as_str()).concat(
        " retcode=",
    ).concat(retcode.as_str())
}

fn succeeded(reply: &Reply) -> (r: bool)
    ensures
        r == (reply.retcode == Some(0i64)),
{
    match reply.retcode {
        Some(n) => n == 0,
        None => false,
    }
}

// Targets -----------------------------------------------------------------------------

/// The error of a target that names no chat.
pub open spec fn bad_target_text() -> Seq<char> {
    "missing or invalid 'target' (expected private:<id> or group:<id>)"@
}

/// Whether a text names a chat.
pub fn is_valid_target(target: &str) -> (r: bool)
    ensures
        r == (types::route_of(target@) is Some),
{
    ReplyRoute::parse(target).is_some()
}

/// The target of a call, where it names a chat. `member` is the string that
/// the arguments hold under `target`.
pub open spec fn target_of(member: Option<Seq<char>>) -> Option<Seq<char>> {
    match member {
        Some(t) if types::route_of(t) is Some => Some(t),
        _ => None,
    }
}

fn keep_target(member: Option<String>) -> (r: Option<String>)
    ensures
        text::opt_text(r) == target_of(text::opt_text(member)),
{
    match member {
        Some(t) => if is_valid_target(t.as_str()) {
            Some(t)
        } else {
            None
        },
        None => None,
    }
}

// Sending -------------------------------------------------------------------------------

/// What the `onebot_send_msg` tool says of itself.
pub const SEND_DESCRIPTION: &'static str =
    "Send a message to a specific QQ chat. target is private:<QQ> or group:<群号>; the target must be allowlisted (or approved by the user in the current chat). Each call sends immediately, chunked if needed.\nThis is for sending OUTSIDE the current conversation — to reply in the chat you are currently talking in, use `reply` instead.";

/// Sends a message to a chat other than the current one.
#[derive(Debug)]
pub struct OneBotSendMsgTool {}

/// The parameters of the `onebot_send_msg` tool.
pub open spec fn send_params() -> ParamsView {
    tool::needing(
        tool::needing(
            tool::no_params(),
            "target"@,
            tool::string_property("Target QQ chat: private:<QQ> or group:<群号>"@),
        ),
        "content"@,
        tool::string_property("Message text to send"@),
    )
}

impl Tool for OneBotSendMsgTool {
    open spec fn tool_name(&self) -> Seq<char> {
        "onebot_send_msg"@
    }

    open spec fn tool_description(&self) -> Seq<char> {
        SEND_DESCRIPTION@
    }

    open spec fn tool_parameters(&self) -> ParamsView {
        send_params()
    }

    fn name(&self) -> (r: &str) {
        "onebot_send_msg"
    }

    fn description(&self) -> (r: &str) {
        SEND_DESCRIPTION
    }

    fn parameters(&self) -> (r: ToolParams) {
        ToolParams::none().needing(
            "target",
            PropertyDef::string("Target QQ chat: private:<QQ> or group:<群号>"),
        ).needing("content", PropertyDef::string("Message text to send"))
    }
}

impl Default for OneBotSendMsgTool {
    fn default() -> (r: Self) {
        OneBotSendMsgTool {  }
    }
}

/// A message that a call asks to send.
#[derive(Debug)]
pub struct SendRequest {
    pub target: String,
    pub content: String,
}

/// The text of a member, where it is not blank.
pub open spec fn visible(member: Option<Seq<char>>) -> Option<Seq<char>> {
    match member {
        Some(s) if text::trim(s).len() > 0 => Some(s),
        _ => None,
    }
}

/// The message that a call asks to send. `target` and `content` are the
/// strings that the arguments hold under these names.
pub fn send_arguments(target: Option<String>, content: Option<String>) -> (r: Result<
    SendRequest,
    String,
>)
    ensures
        match target_of(text::opt_text(target)) {
            None => r matches Err(e) && e@ == bad_target_text(),
            Some(t) => match visible(text::opt_text(content)) {
                None => r matches Err(e) && e@ == "missing or empty 'content'"@,
                Some(c) => r matches Ok(s) && s.target@ == t && s.content@ == c,
            },
        },
{
    let target = match keep_target(target) {
        Some(t) => t,
        None => {
            return Err(
                "missing or invalid 'target' (expected private:<id> or group:<id>)".to_owned(),
            );
        },
    };
    match content {
        Some(content) => if text::is_blank(content.as_str()) {
            Err("missing or empty 'content'".to_owned())
        } else {
            Ok(SendRequest { target, content })
        },
        None => Err("missing or empty 'content'".to_owned()),
    }
}

impl OneBotSendMsgTool {
    /// Runs the tool: where the message goes and what the model is told.
    pub fn run(
        &self,
        args: &str,
        ctx: &ToolContext,
        conversation_id: Option<&str>,
        manager: &ConversationManager,
    ) -> (r: Result<(Routed, String), String>)
        ensures
            match target_of(platform::json_string_member(args@, "target"@)) {
                None => r matches Err(e) && e@ == bad_target_text(),
                Some(t) => match visible(platform::json_string_member(args@, "content"@)) {
                    None => r matches Err(e) && e@ == "missing or empty 'content'"@,
                    Some(c) => {
                        &&& r matches Ok(sent)
                        &&& sent.0.recipients@ == (match text::opt_str(conversation_id) {
                            Some(id) => conversation::subscribed(
                                manager@.outboxes,
                                conversation::prefix_of(id),
                            ),
                            None => conversation::everyone(manager@.outboxes),
                        })
                        &&& sent.0.event@ == (conversation::EventView::Outbound {
                            conversation_id: text::opt_str(conversation_id),
                            target: Some(t),
                            content: c,
                            request_id: text::opt_text(ctx.request_id),
                        })
                        &&& sent.1@ == "已发送"@
                    },
                },
            },
    {
        match send_arguments(
            platform::string_member(args, "target"),
            platform::string_member(args, "content"),
        ) {
            Ok(s) => Ok(
                (
                    manager.route_outbound(
                        conversation_id,
                        Some(s.target.as_str()),
                        s.content.as_str(),
                        session::copy_opt(&ctx.request_id),
                    ),
                    "已发送".to_owned(),
                ),
            ),
            Err(e) => Err(e),
        }
    }
}

// Reading a history -----------------------------------------------------------------------

/// What the `onebot_get_msg_history` tool says of itself.
pub const HISTORY_DESCRIPTION: &'static str =
    "Read the recent message history of a QQ chat via the OneBot connection: group history (get_group_msg_history) or private/friend history (get_friend_msg_history). target is private:<QQ> or group:<群号>. Returns the last N messages as text.";

/// What is said when a private history cannot be read.
pub const FRIEND_HISTORY_HINT: &'static str =
    "get_friend_msg_history is a NapCat/go-cqhttp extension; this OneBot implementation may not support reading private chat history — for a single message use onebot_get_content instead";

/// Reads the recent messages of a chat. Reading is not limited to the
/// allowlist.
#[derive(Debug)]
pub struct OneBotGetMsgHistoryTool {}

/// The parameters of the `onebot_get_msg_history` tool.
pub open spec fn history_params() -> ParamsView {
    tool::taking(
        tool::needing(
            tool::no_params(),
            "target"@,
            tool::string_property("Chat to read: private:<QQ> or group:<群号>"@),
        ),
        "limit"@,
        tool::integer_property("Max messages to fetch (default 20, max 100)"@),
    )
}

impl Tool for OneBotGetMsgHistoryTool {
    open spec fn tool_name(&self) -> Seq<char> {
        "onebot_get_msg_history"@
    }

    open spec fn tool_description(&self) -> Seq<char> {
        HISTORY_DESCRIPTION@
    }

    open spec fn tool_parameters(&self) -> ParamsView {
        history_params()
    }

    fn name(&self) -> (r: &str) {
        "onebot_get_msg_history"
    }

    fn description(&self) -> (r: &str) {
        HISTORY_DESCRIPTION
    }

    fn parameters(&self) -> (r: ToolParams) {
        ToolParams::none().needing(
            "target",
            PropertyDef::string("Chat to read: private:<QQ> or group:<群号>"),
        ).taking("limit", PropertyDef::integer("Max messages to fetch (default 20, max 100)"))
    }
}

/// How many messages are read: twenty when nothing is said, never fewer than
/// one nor more than a hundred.
pub open spec fn limit_of(limit: Option<i64>) -> i64 {
    let n = match limit {
        Some(n) => n,
        None => 20,
    };
    if n < 1 {
        1
    } else if n > 100 {
        100
    } else {
        n
    }
}

/// The action that reads the history of a chat.
pub open spec fn history_action(route: ReplyRoute, count: i64) -> types::ActionView {
    match route {
        ReplyRoute::Private { user_id } => types::ActionView::FriendHistory {
            user_id,
            message_seq: 0,
            count,
        },
        ReplyRoute::Group { group_id } => types::ActionView::GroupHistory {
            group_id,
            message_seq: 0,
            count,
        },
    }
}

/// A history that a call asks for.
#[derive(Debug)]
pub struct HistoryRequest {
    pub target: String,
    pub action: ActionRequest,
}

/// The history that a call asks for. `target` and `limit` are what the
/// arguments hold under these names.
pub fn history_arguments(target: Option<String>, limit: Option<i64>) -> (r: Result<
    HistoryRequest,
    String,
>)
    ensures
        match target_of(text::opt_text(target)) {
            None => r matches Err(e) && e@ == bad_target_text(),
            Some(t) => r matches Ok(h) && h.target@ == t && types::requests(
                h.action,
                history_action(types::route_of(t)->Some_0, limit_of(limit)),
            ),
        },
{
    let target = match target {
        Some(t) => t,
        None => {
            return Err(
                "missing or invalid 'target' (expected private:<id> or group:<id>)".to_owned(),
            );
        },
    };
    let route = match ReplyRoute::parse(target.as_str()) {
        Some(route) => route,
        None => {
            return Err(
                "missing or invalid 'target' (expected private:<id> or group:<id>)".to_owned(),
            );
        },
    };
    let n = match limit {
        Some(n) => n,
        None => 20,
    };
    let count = if n < 1 {
        1
    } else if n > 100 {
        100
    } else {
        n
    };
    let action = match route {
        ReplyRoute::Private { user_id } => ActionRequest::get_friend_msg_history(user_id, count),
        ReplyRoute::Group { group_id } => ActionRequest::get_group_msg_history(group_id, count),
    };
    Ok(HistoryRequest { target, action })
}

/// The answer of a history that could be read, shown as text.
pub open spec fn history_answer(target: Seq<char>, shown: Seq<char>) -> Seq<char> {
    if shown.len() == 0 {
        "chat "@ + target + " has no readable recent messages"@
    } else {
        "Recent messages in "@ + target + ":\n"@ + shown
    }
}

/// The error of a history that could not be read.
pub open spec fn history_failure(
    action: Seq<char>,
    target: Seq<char>,
    status: Option<Seq<char>>,
    retcode: Option<i64>,
) -> Seq<char> {
    let failed = failure(action, status, retcode);
    if text::has_prefix(target, "private:"@) {
        failed + " — "@ + FRIEND_HISTORY_HINT@
    } else {
        failed
    }
}

/// Says what the model is told of a history that is shown as text.
pub fn answer_history(target: &str, shown: &str) -> (r: String)
    ensures
        r@ == history_answer(target@, shown@),
{
    if text::is_empty(shown) {
        "chat ".to_owned().concat(target).concat(" has no readable recent messages")
    } else {
        "Recent messages in ".to_owned().concat(target).concat(":\n").concat(shown)
    }
}

impl OneBotGetMsgHistoryTool {
    pub fn new() -> (r: Self) {
        OneBotGetMsgHistoryTool {  }
    }

    /// The history that a call asks for.
    pub fn prepare(&self, args: &str) -> (r: Result<HistoryRequest, String>)
        ensures
            match target_of(platform::json_string_member(args@, "target"@)) {
                None => r matches Err(e) && e@ == bad_target_text(),
                Some(t) => r matches Ok(h) && h.target@ == t && types::requests(
                    h.action,
                    history_action(
                        types::route_of(t)->Some_0,
                        limit_of(platform::json_integer_member(args@, "limit"@)),
                    ),
                ),
            },
    {
        history_arguments(
            platform::string_member(args, "target"),
            platform::integer_member(args, "limit"),
        )
    }

    /// What the model is told. `messages` is what the data of the response was
    /// read as: no data are no messages.
    pub fn conclude(
        &self,
        request: &HistoryRequest,
        reply: &Reply,
        messages: Result<Vec<HistoryMessage>, String>,
    ) -> (r: Result<String, String>)
        ensures
            if reply.retcode != Some(0i64) {
                r matches Err(e) && e@ == history_failure(
                    request.action.action@,
                    request.target@,
                    text::opt_text(reply.status),
                    reply.retcode,
                )
            } else {
                match messages {
                    Err(m) => r matches Err(e) && e == m,
                    Ok(list) => r matches Ok(s) && exists|stamps: Seq<Option<Seq<char>>>|
                        #![trigger types::history_lines(list@, stamps)]
                        types::are_times_of(stamps, list@) && s@ == history_answer(
                            request.target@,
                            text::joined(types::history_lines(list@, stamps), "\n"@),
                        ),
                }
            },
    {
        if !succeeded(reply) {
            let failed = show_failure(request.action.action.as_str(), reply);
            return Err(
                if text::starts_with(request.target.as_str(), "private:") {
                    failed.concat(" — ").concat(FRIEND_HISTORY_HINT)
                } else {
                    failed
                },
            );
        }
        match messages {
            Err(m) => Err(m),
            Ok(list) => {
                let shown = types::format_history(&list);
                Ok(answer_history(request.target.as_str(), shown.as_str()))
            },
        }
    }
}

// Reading one message -----------------------------------------------------------------------

/// What the `onebot_get_content` tool says of itself.
pub const CONTENT_DESCRIPTION: &'static str =
    "Get the full content of a specific QQ message by its message id (e.g. the id in a [reply msg id:...], [image msg id:...] or [record msg id:...] segment) and return sender, time and full text.";

/// Fetches one message by its id.
#[derive(Debug)]
pub struct OneBotGetContentTool {}

/// The parameters of the `onebot_get_content` tool.
pub open spec fn content_params() -> ParamsView {
    tool::needing(
        tool::no_params(),
        "message_id"@,
        tool::string_property(
            "Message id from a [reply msg id:...] or [record msg id:...] segment"@,
        ),
    )
}

impl Tool for OneBotGetContentTool {
    open spec fn tool_name(&self) -> Seq<char> {
        "onebot_get_content"@
    }

    open spec fn tool_description(&self) -> Seq<char> {
        CONTENT_DESCRIPTION@
    }

    open spec fn tool_parameters(&self) -> ParamsView {
        content_params()
    }

    fn name(&self) -> (r: &str) {
        "onebot_get_content"
    }

    fn description(&self) -> (r: &str) {
        CONTENT_DESCRIPTION
    }

    fn parameters(&self) -> (r: ToolParams) {
        ToolParams::none().needing(
            "message_id",
            PropertyDef::string(
                "Message id from a [reply msg id:...] or [record msg id:...] segment",
            ),
        )
    }
}

/// The message id of a call: a string that holds an integer between optional
/// white space, else an integer.
pub open spec fn message_id_of(as_text: Option<Seq<char>>, as_integer: Option<i64>) -> Option<
    i64,
> {
    match as_text {
        Some(s) => match number::i64_of(text::trim(s)) {
            Some(n) => Some(n),
            None => as_integer,
        },
        None => as_integer,
    }
}

/// The message id of a call. The arguments are what it holds under
/// `message_id` as a string and as an integer.
pub fn message_id_argument(as_text: Option<String>, as_integer: Option<i64>) -> (r: Result<
    i64,
    String,
>)
    ensures
        match message_id_of(text::opt_text(as_text), as_integer) {
            Some(n) => r == Ok::<i64, String>(n),
            None => r matches Err(e) && e@ == "missing or invalid 'message_id'"@,
        },
{
    match as_text {
        Some(s) => {
            let trimmed = text::trimmed(s.as_str());
            match number::parse_i64(trimmed.as_str()) {
                Some(n) => {
                    return Ok(n);
                },
                None => {},
            }
        },
        None => {},
    }
    match as_integer {
        Some(n) => Ok(n),
        None => Err("missing or invalid 'message_id'".to_owned()),
    }
}

/// The message id of a call.
pub fn requested_message(args: &str) -> (r: Result<i64, String>)
    ensures
        match message_id_of(
            platform::json_string_member(args@, "message_id"@),
            platform::json_integer_member(args@, "message_id"@),
        ) {
            Some(n) => r == Ok::<i64, String>(n),
            None => r matches Err(e) && e@ == "missing or invalid 'message_id'"@,
        },
{
    message_id_argument(
        platform::string_member(args, "message_id"),
        platform::integer_member(args, "message_id"),
    )
}

/// What the model is told of a message. `stamp` is its local date and time,
/// where it has one.
pub open spec fn content_answer(data: GetMsgData, stamp: Option<Seq<char>>) -> Seq<char> {
    let kind = match data.message_type {
        Some(t) => t@,
        None => "unknown"@,
    };
    let time = match stamp {
        Some(t) => t,
        None => "--"@,
    };
    "消息 "@ + data.message_id@ + "（"@ + kind + "，"@ + time + "）"@ + types::identity_text(
        data.sender,
        data.user_id,
    ) + ": "@ + types::body_text(data.message, data.message_id@)
}

/// Whether a stamp can be the local date and time of a Unix time: there is one
/// exactly where the time has a date, and it is the date and time at some
/// offset from UTC.
pub open spec fn can_be_date_of(stamp: Option<Seq<char>>, time: i64) -> bool {
    &&& stamp is Some <==> platform::has_date(time)
    &&& stamp matches Some(t) ==> exists|offset: int|
        -86400 < offset < 86400 && t == #[trigger] platform::calendar_text(
            time,
            "%Y-%m-%d %H:%M:%S"@,
            offset,
        )
}

/// Says what the model is told of a message with a given date and time.
pub fn show_content(data: &GetMsgData, stamp: Option<String>) -> (r: String)
    ensures
        r@ == content_answer(*data, text::opt_text(stamp)),
{
    let kind = match &data.message_type {
        Some(t) => t.clone(),
        None => "unknown".to_owned(),
    };
    let time = match stamp {
        Some(t) => t,
        None => "--".to_owned(),
    };
    let who = match &data.sender {
        Some(s) => types::identity(Some(s), data.user_id),
        None => types::identity(None, data.user_id),
    };
    let body = types::show_body(&data.message, data.message_id.as_str());
    "消息 ".to_owned().concat(data.message_id.as_str()).concat("（").concat(kind.as_str()).concat(
        "，",
    ).concat(time.as_str()).concat("）").concat(who.as_str()).concat(": ").concat(body.as_str())
}

impl OneBotGetContentTool {
    pub fn new() -> (r: Self) {
        OneBotGetContentTool {  }
    }

    /// The action that a call leads to.
    pub fn prepare(&self, args: &str) -> (r: Result<ActionRequest, String>)
        ensures
            match message_id_of(
                platform::json_string_member(args@, "message_id"@),
                platform::json_integer_member(args@, "message_id"@),
            ) {
                Some(n) => r matches Ok(a) && types::requests(
                    a,
                    types::ActionView::GetMsg { message_id: n },
                ),
                None => r matches Err(e) && e@ == "missing or invalid 'message_id'"@,
            },
    {
        match requested_message(args) {
            Ok(n) => Ok(ActionRequest::get_msg(n)),
            Err(e) => Err(e),
        }
    }

    /// What the model is told. `data` is what the data of the response were
    /// read as, `None` where there were none.
    pub fn conclude(&self, reply: &Reply, data: Option<Result<GetMsgData, String>>) -> (r: Result<
        String,
        String,
    >)
        ensures
            if reply.retcode != Some(0i64) {
                r matches Err(e) && e@ == failure(
                    "get_msg"@,
                    text::opt_text(reply.status),
                    reply.retcode,
                )
            } else {
                match data {
                    None => r matches Err(e) && e@ == "get_msg returned no data"@,
                    Some(Err(m)) => r matches Err(e) && e == m,
                    Some(Ok(d)) => r matches Ok(s) && exists|stamp: Option<Seq<char>>|
                        can_be_date_of(stamp, d.time) && s@ == #[trigger] content_answer(d, stamp),
                }
            },
    {
        if !succeeded(reply) {
            return Err(show_failure("get_msg", reply));
        }
        match data {
            None => Err("get_msg returned no data".to_owned()),
            Some(Err(m)) => Err(m),
            Some(Ok(d)) => {
                let stamp = platform::local_time(d.time, "%Y-%m-%d %H:%M:%S");
                Ok(show_content(&d, stamp))
            },
        }
    }
}

// Status ------------------------------------------------------------------------------------

/// What the `onebot_status` tool says of itself.
pub const STATUS_DESCRIPTION: &'static str =
    "Get the OneBot connection status and the bot's own QQ account info (QQ number and nickname) via the OneBot connection.";

/// Reports the connection and the bot's own account.
#[derive(Debug)]
pub struct OneBotStatusTool {
    pub ws_url: String,
}

impl Tool for OneBotStatusTool {
    open spec fn tool_name(&self) -> Seq<char> {
        "onebot_status"@
    }

    open spec fn tool_description(&self) -> Seq<char> {
        STATUS_DESCRIPTION@
    }

    open spec fn tool_parameters(&self) -> ParamsView {
        tool::no_params()
    }

    fn name(&self) -> (r: &str) {
        "onebot_status"
    }

    fn description(&self) -> (r: &str) {
        STATUS_DESCRIPTION
    }

    fn parameters(&self) -> (r: ToolParams) {
        ToolParams::none()
    }
}

impl OneBotStatusTool {
    pub fn new(ws_url: String) -> (r: Self)
        ensures
            r.ws_url == ws_url,
    {
        OneBotStatusTool { ws_url }
    }

    /// The action to ask for the account, where the connection is up.
    pub fn prepare(&self, connected: bool) -> (r: Option<ActionRequest>)
        ensures
            match r {
                Some(a) => connected && types::requests(a, types::ActionView::LoginInfo),
                None => !connected,
            },
    {
        if connected {
            Some(ActionRequest::get_login_info())
        } else {
            None
        }
    }

    /// What the model is told. `login` is the account, where asking for it
    /// succeeded; an unknown account is shown as zero without a name.
    pub fn conclude(&self, connected: bool, retcode: Option<i64>, login: Option<LoginInfoData>) -> (r:
        String)
        ensures
            ({
                let known = connected && retcode == Some(0i64) && login is Some;
                let id: i64 = if known {
                    login->Some_0.user_id
                } else {
                    0
                };
                let name = if known {
                    login->Some_0.nickname@
                } else {
                    Seq::empty()
                };
                r@ == "Bot status: QQ "@ + number::decimal(id as int) + " ("@ + name
                    + ") · connected: "@ + (if connected {
                    "true"@
                } else {
                    "false"@
                }) + " · "@ + self.ws_url@
            }),
    {
        let mut user_id: i64 = 0;
        let mut nickname: String = String::new();
        assert(nickname@ =~= Seq::empty());
        let answered = match retcode {
            Some(n) => n == 0,
            None => false,
        };
        if connected && answered {
            match login {
                Some(info) => {
                    user_id = info.user_id;
                    nickname = info.nickname;
                },
                None => {},
            }
        }
        "Bot status: QQ ".to_owned().concat(number::i64_text(user_id).as_str()).concat(
            " (",
        ).concat(nickname.as_str()).concat(") · connected: ").concat(
            if connected {
                "true"
            } else {
                "false"
            },
        ).concat(" · ").concat(self.ws_url.as_str())
    }
}

// Voice ---------------------------------------------------------------------------------------

/// What the `onebot_voice_text` tool says of itself.
pub const VOICE_DESCRIPTION: &'static str =
    "Transcribe a voice message (语音) into text via the OneBot connection (NapCat fetch_ptt_text). Pass the message id from a [record msg id:...] segment.";

/// Transcribes a voice message.
#[derive(Debug)]
pub struct OneBotVoiceTextTool {}

/// The parameters of the `onebot_voice_text` tool.
pub open spec fn voice_params() -> ParamsView {
    tool::needing(
        tool::no_params(),
        "message_id"@,
        tool::string_property(
            "Message id from a [record msg id:...] segment in an incoming or historical message"@,
        ),
    )
}

impl Tool for OneBotVoiceTextTool {
    open spec fn tool_name(&self) -> Seq<char> {
        "onebot_voice_text"@
    }

    open spec fn tool_description(&self) -> Seq<char> {
        VOICE_DESCRIPTION@
    }

    open spec fn tool_parameters(&self) -> ParamsView {
        voice_params()
    }

    fn name(&self) -> (r: &str) {
        "onebot_voice_text"
    }

    fn description(&self) -> (r: &str) {
        VOICE_DESCRIPTION
    }

    fn parameters(&self) -> (r: ToolParams) {
        ToolParams::none().needing(
            "message_id",
            PropertyDef::string(
                "Message id from a [record msg id:...] segment in an incoming or historical message",
            ),
        )
    }
}

/// How often a transcription is tried.
pub const ATTEMPTS: usize = 3;

/// The pause between two attempts, in seconds.
pub const RETRY_DELAY: u64 = 2;

/// What came of one attempt.
#[derive(Debug)]
pub enum Attempt {
    /// The call itself failed.
    Failed(String),
    /// The call was answered; `text` is what the data were read as, `None`
    /// where there were none.
    Answered { reply: Reply, text: Option<Result<String, String>> },
}

/// What one attempt says: the answer for the model, or why it failed.
pub open spec fn attempt_outcome(message_id: i64, attempt: Attempt) -> Result<
    Seq<char>,
    Seq<char>,
> {
    match attempt {
        Attempt::Failed(e) => Err(e@),
        Attempt::Answered { reply, text } => if reply.retcode != Some(0i64) {
            Err(failure("fetch_ptt_text"@, text::opt_text(reply.status), reply.retcode))
        } else {
            match text {
                None => Err("fetch_ptt_text returned no data"@),
                Some(Err(e)) => Err(e@),
                Some(Ok(t)) => Ok(transcription(message_id, text::trim(t@))),
            }
        },
    }
}

/// The answer of a transcription.
pub open spec fn transcription(message_id: i64, spoken: Seq<char>) -> Seq<char> {
    let id = number::decimal(message_id as int);
    if spoken.len() == 0 {
        "语音 "@ + id + " 没有可转写的文字内容"@
    } else {
        "语音 "@ + id + " 转文字: "@ + spoken
    }
}

/// What one attempt says.
pub fn transcribe(message_id: i64, attempt: Attempt) -> (r: Result<String, String>)
    ensures
        text::outcome(r) == attempt_outcome(message_id, attempt),
{
    match attempt {
        Attempt::Failed(e) => Err(e),
        Attempt::Answered { reply, text } => {
            if !succeeded(&reply) {
                return Err(show_failure("fetch_ptt_text", &reply));
            }
            match text {
                None => Err("fetch_ptt_text returned no data".to_owned()),
                Some(Err(e)) => Err(e),
                Some(Ok(t)) => {
                    let spoken = text::trimmed(t.as_str());
                    let id = number::i64_text(message_id);
                    if text::is_empty(spoken.as_str()) {
                        Ok(
                            "语音 ".to_owned().concat(id.as_str()).concat(
                                " 没有可转写的文字内容",
                            ),
                        )
                    } else {
                        Ok(
                            "语音 ".to_owned().concat(id.as_str()).concat(" 转文字: ").concat(
                                spoken.as_str(),
                            ),
                        )
                    }
                },
            }
        },
    }
}

/// The error of a transcription that failed every time.
pub open spec fn voice_failure(message_id: i64, last: Seq<char>) -> Seq<char> {
    "语音 "@ + number::decimal(message_id as int) + " 转写失败（重试 3 次）："@ + last
        + "。语音可能还在处理中，稍后重试或让用户重新发送"@
}

/// What is to be done next for a transcription.
#[derive(Debug)]
pub enum VoiceStep {
    /// Pause so many seconds, then try again.
    Retry(u64),
    /// The answer, or the error.
    Done(Result<String, String>),
}

/// A transcription in progress.
#[derive(Debug, Clone, Copy, PartialEq, Eq, Structural)]
pub struct VoiceRun {
    pub message_id: i64,
    /// How many attempts failed.
    pub failures: usize,
}

impl VoiceRun {
    pub fn begin(message_id: i64) -> (r: Self)
        ensures
            r.message_id == message_id,
            r.failures == 0,
    {
        VoiceRun { message_id, failures: 0 }
    }

    /// The action of an attempt.
    pub fn action(&self) -> (r: ActionRequest)
        ensures
            types::requests(
                r,
                types::ActionView::FetchPttText {
                    message_id: number::decimal(self.message_id as int),
                },
            ),
    {
        ActionRequest::fetch_ptt_text(self.message_id)
    }

    /// Takes what came of an attempt: a success ends the transcription, and so
    /// does the last admitted failure.
    pub fn tried(&mut self, attempt: Attempt) -> (r: VoiceStep)
        requires
            old(self).failures < ATTEMPTS,
        ensures
            final(self).message_id == old(self).message_id,
            match attempt_outcome(old(self).message_id, attempt) {
                Ok(answer) => {
                    &&& r matches VoiceStep::Done(Ok(s)) && s@ == answer
                    &&& final(self).failures == old(self).failures
                },
                Err(last) => {
                    &&& final(self).failures == old(self).failures + 1
                    &&& if final(self).failures < ATTEMPTS {
                        r == VoiceStep::Retry(RETRY_DELAY)
                    } else {
                        r matches VoiceStep::Done(Err(e)) && e@ == voice_failure(
                            old(self).message_id,
                            last,
                        )
                    }
                },
            },
    {
        match transcribe(self.message_id, attempt) {
            Ok(answer) => VoiceStep::Done(Ok(answer)),
            Err(last) => {
                self.failures = self.failures + 1;
                if self.failures < ATTEMPTS {
                    VoiceStep::Retry(RETRY_DELAY)
                } else {
                    VoiceStep::Done(
                        Err(
                            "语音 ".to_owned().concat(
                                number::i64_text(self.message_id).as_str(),
                            ).concat(" 转写失败（重试 3 次）：").concat(last.as_str()).concat(
                                "。语音可能还在处理中，稍后重试或让用户重新发送",
                            ),
                        ),
                    )
                }
            },
        }
    }
}

impl OneBotVoiceTextTool {
    pub fn new() -> (r: Self) {
        OneBotVoiceTextTool {  }
    }

    /// The transcription that a call asks for.
    pub fn prepare(&self, args: &str) -> (r: Result<VoiceRun, String>)
        ensures
            match message_id_of(
                platform::json_string_member(args@, "message_id"@),
                platform::json_integer_member(args@, "message_id"@),
            ) {
                Some(n) => r matches Ok(v) && v == (VoiceRun { message_id: n, failures: 0 }),
                None => r matches Err(e) && e@ == "missing or invalid 'message_id'"@,
            },
    {
        match requested_message(args) {
            Ok(n) => Ok(VoiceRun::begin(n)),
            Err(e) => Err(e),
        }
    }
}

// What the model is told -------------------------------------------------------------------

/// What the model is told of a message ends with the whole text of the message
/// behind a colon, in both forms of a body: a string is itself, and segments
/// stand in order, one behind another and none left out, a text segment as the
/// text it carries and any other as its type and the id of the message between
/// brackets. Before the colon stand the id, the kind of chat, the time and the
/// sender.
pub proof fn law_answers_end_with_the_message(
    data: GetMsgData,
    stamp: Option<Seq<char>>,
    parts: Seq<Seq<char>>,
)
    requires
        data.message matches Some(types::MessageContent::Segments(segs)) ==> {
            &&& parts.len() == segs@.len()
            &&& forall|i: int|
                #![trigger segs@[i]]
                0 <= i < segs@.len() ==> if segs@[i].segment_type@ == "text"@ {
                    match tool::member(segs@[i].data@, "text"@) {
                        Some(tool::Value::String(t)) => parts[i] == t@,
                        _ => parts[i].len() == 0,
                    }
                } else {
                    parts[i] == "["@ + segs@[i].segment_type@ + " msg id:"@ + data.message_id@
                        + "]"@
                }
        },
    ensures
        ({
            let kind = match data.message_type {
                Some(t) => t@,
                None => "unknown"@,
            };
            let time = match stamp {
                Some(t) => t,
                None => "--"@,
            };
            let head = "消息 "@ + data.message_id@ + "（"@ + kind + "，"@ + time + "）"@
                + types::identity_text(data.sender, data.user_id);
            match data.message {
                None => content_answer(data, stamp) == head + ": "@,
                Some(types::MessageContent::Text(s)) => content_answer(data, stamp) == head + ": "@
                    + s@,
                Some(types::MessageContent::Segments(segs)) => content_answer(data, stamp) == head
                    + ": "@ + text::concatenated(parts),
            }
        }),
{
    match data.message {
        Some(types::MessageContent::Segments(segs)) => {
            let s = data.message_id;
            types::law_bodies_show_every_segment(s, segs, data.message_id@, parts);
        },
        None => {
            let kind = match data.message_type {
                Some(t) => t@,
                None => "unknown"@,
            };
            let time = match stamp {
                Some(t) => t,
                None => "--"@,
            };
            let head = "消息 "@ + data.message_id@ + "（"@ + kind + "，"@ + time + "）"@
                + types::identity_text(data.sender, data.user_id);
            assert(content_answer(data, stamp) =~= head + ": "@);
        },
        _ => {},
    }
}

/// A history is answered with all of its text behind its target; only one
/// without any text is called unreadable.
pub proof fn law_history_answers_hold_the_history(target: Seq<char>, shown: Seq<char>)
    ensures
        ({
            let answer = history_answer(target, shown);
            let head = "Recent messages in "@ + target + ":\n"@;
            &&& shown.len() > 0 ==> answer.len() == head.len() + shown.len() && answer.skip(
                head.len() as int,
            ) == shown && answer.take(head.len() as int) == head
            &&& shown.len() == 0 ==> answer == "chat "@ + target
                + " has no readable recent messages"@
        }),
{
    let answer = history_answer(target, shown);
    let head = "Recent messages in "@ + target + ":\n"@;
    if shown.len() > 0 {
        assert(answer.skip(head.len() as int) =~= shown);
        assert(answer.take(head.len() as int) =~= head);
    }
}

/// The number of messages to read is what was asked for, held between one and a
/// hundred, and twenty where nothing was asked for.
pub proof fn law_limits_are_held_in_range(n: i64)
    ensures
        1 <= n <= 100 ==> limit_of(Some(n)) == n,
        n <= 1 ==> limit_of(Some(n)) == 1,
        n >= 100 ==> limit_of(Some(n)) == 100,
        limit_of(None) == 20,
{
}

/// A history is read from the chat of the route, in the number of messages that
/// was asked for, from the latest back.
pub proof fn law_histories_are_read_from_the_chat(
    r: ActionRequest,
    route: ReplyRoute,
    count: i64,
)
    requires
        types::requests(r, history_action(route, count)),
    ensures
        match route {
            ReplyRoute::Private { user_id } => r.action@ == "get_friend_msg_history"@ && r.params
                == (types::ActionParams::FriendHistory { user_id, message_seq: 0, count }),
            ReplyRoute::Group { group_id } => r.action@ == "get_group_msg_history"@ && r.params
                == (types::ActionParams::GroupHistory { group_id, message_seq: 0, count }),
        },
{
    match route {
        ReplyRoute::Private { user_id } => {
            types::law_requests_carry_what_they_ask(r, user_id, 0, count, Seq::empty());
        },
        ReplyRoute::Group { group_id } => {
            types::law_requests_carry_what_they_ask(r, group_id, 0, count, Seq::empty());
        },
    }
}

/// A target is kept as it was written where it names a chat; a content is kept
/// whole where it has a visible character.
pub proof fn law_arguments_are_kept_whole(s: Seq<char>, digits: Seq<char>, n: i64)
    requires
        number::i64_of(digits) == Some(n),
    ensures
        target_of(Some("private:"@ + digits)) == Some("private:"@ + digits),
        target_of(Some("group:"@ + digits)) == Some("group:"@ + digits),
        target_of(Some(s)) is Some <==> types::route_of(s) is Some,
        target_of(Some(s)) is Some ==> target_of(Some(s)) == Some(s),
        target_of(None) is None,
        visible(Some(s)) is Some <==> exists|i: int|
            0 <= i < s.len() && !text::white_space(#[trigger] s[i]),
        visible(Some(s)) is Some ==> visible(Some(s)) == Some(s),
        visible(None) is None,
{
    types::law_targets_name_chats(s, digits, n);
    text::law_blank_texts_are_white_space(s);
}

/// A message id is read from the string, white space around it aside; only
/// where the string is no integer does the integer count.
pub proof fn law_message_ids_are_read(
    before: Seq<char>,
    s: Seq<char>,
    after: Seq<char>,
    n: i64,
    as_integer: Option<i64>,
)
    requires
        text::all_white(before),
        text::all_white(after),
        s.len() > 0,
        !text::white_space(s[0]),
        !text::white_space(s.last()),
    ensures
        number::i64_of(s) == Some(n) ==> message_id_of(Some(before + s + after), as_integer)
            == Some(n),
        number::i64_of(s) is None ==> message_id_of(Some(before + s + after), as_integer)
            == as_integer,
        message_id_of(None, as_integer) == as_integer,
{
    text::law_trimming_gives_the_core(before, s, after);
}

/// A failed action is told with its name, its status and its code.
pub proof fn law_failures_are_told(action: Seq<char>, status: Seq<char>, n: i64)
    ensures
        failure(action, Some(status), Some(n)) == action + " failed: status="@ + ("Some("@
            + platform::quoted(status) + ")"@) + " retcode="@ + ("Some("@ + number::decimal(
            n as int,
        ) + ")"@),
        failure(action, None, Some(n)) == action + " failed: status="@ + "None"@ + " retcode="@ + (
        "Some("@ + number::decimal(n as int) + ")"@),
        failure(action, Some(status), None) == action + " failed: status="@ + ("Some("@
            + platform::quoted(status) + ")"@) + " retcode="@ + "None"@,
        failure(action, None, None) == action + " failed: status="@ + "None"@ + " retcode="@
            + "None"@,
{
}

/// A history that could not be read is told as the failure that it is; only for
/// private chats does a hint follow.
pub proof fn law_unread_histories_are_told(
    action: Seq<char>,
    digits: Seq<char>,
    status: Option<Seq<char>>,
    retcode: Option<i64>,
)
    ensures
        history_failure(action, "private:"@ + digits, status, retcode) == failure(
            action,
            status,
            retcode,
        ) + " — "@ + FRIEND_HISTORY_HINT@,
        history_failure(action, "group:"@ + digits, status, retcode) == failure(
            action,
            status,
            retcode,
        ),
{
    text::law_prefixes_come_off("private:"@, digits, digits);
    reveal_strlit("private:");
    reveal_strlit("group:");
    let group = "group:"@ + digits;
    if text::has_prefix(group, "private:"@) {
        assert(group.take("private:"@.len() as int)[0] == group[0]);
    }
}

/// A transcription that came through is told whole, behind the id of the
/// message and without the white space around it; one without a visible
/// character is told as such. Every failure keeps its reason.
pub proof fn law_transcriptions_are_told_whole(
    message_id: i64,
    reply: Reply,
    before: Seq<char>,
    spoken: Seq<char>,
    after: Seq<char>,
    heard: String,
    e: String,
)
    requires
        text::all_white(before),
        text::all_white(after),
        spoken.len() > 0,
        !text::white_space(spoken[0]),
        !text::white_space(spoken.last()),
    ensures
        attempt_outcome(message_id, Attempt::Failed(e)) == Err::<Seq<char>, Seq<char>>(e@),
        reply.retcode == Some(0i64) && heard@ == before + spoken + after ==> attempt_outcome(
            message_id,
            Attempt::Answered { reply, text: Some(Ok(heard)) },
        ) == Ok::<Seq<char>, Seq<char>>(
            "语音 "@ + number::decimal(message_id as int) + " 转文字: "@ + spoken,
        ),
        reply.retcode == Some(0i64) && text::all_white(heard@) ==> attempt_outcome(
            message_id,
            Attempt::Answered { reply, text: Some(Ok(heard)) },
        ) == Ok::<Seq<char>, Seq<char>>(
            "语音 "@ + number::decimal(message_id as int) + " 没有可转写的文字内容"@,
        ),
        reply.retcode == Some(0i64) ==> attempt_outcome(
            message_id,
            Attempt::Answered { reply, text: Some(Err(e)) },
        ) == Err::<Seq<char>, Seq<char>>(e@),
        reply.retcode == Some(0i64) ==> attempt_outcome(
            message_id,
            Attempt::Answered { reply, text: None },
        ) is Err,
        reply.retcode != Some(0i64) ==> attempt_outcome(
            message_id,
            Attempt::Answered { reply, text: Some(Ok(heard)) },
        ) == Err::<Seq<char>, Seq<char>>(
            failure("fetch_ptt_text"@, text::opt_text(reply.status), reply.retcode),
        ),
{
    text::law_trimming_gives_the_core(before, spoken, after);
    text::law_blank_texts_are_white_space(heard@);
}

/// A transcription that failed every time tells the id of the message and the
/// last reason, whole.
pub proof fn law_lost_voices_keep_the_reason(message_id: i64, last: Seq<char>)
    ensures
        ({
            let head = "语音 "@ + number::decimal(message_id as int) + " 转写失败（重试 3 次）："@;
            let told = voice_failure(message_id, last);
            &&& told.len() >= head.len() + last.len()
            &&& told.take(head.len() as int) == head
            &&& told.subrange(head.len() as int, (head.len() + last.len()) as int) == last
        }),
        ATTEMPTS == 3,
        RETRY_DELAY == 2,
{
    let head = "语音 "@ + number::decimal(message_id as int) + " 转写失败（重试 3 次）："@;
    let told = voice_failure(message_id, last);
    assert(told.take(head.len() as int) =~= head);
    assert(told.subrange(head.len() as int, (head.len() + last.len()) as int) =~= last);
}

/// The status names the address and whether the connection is up, and the
/// account exactly where asking for it over the connection succeeded.
pub proof fn law_status_names_the_account(
    t: OneBotStatusTool,
    connected: bool,
    retcode: Option<i64>,
    login: Option<LoginInfoData>,
    r: String,
)
    requires
        call_ensures(OneBotStatusTool::conclude, (&t, connected, retcode, login), r),
    ensures
        connected && retcode == Some(0i64) && login is Some ==> r@ == "Bot status: QQ "@
            + number::decimal(login->Some_0.user_id as int) + " ("@ + login->Some_0.nickname@
            + ") · connected: "@ + "true"@ + " · "@ + t.ws_url@,
        connected && (retcode != Some(0i64) || login is None) ==> r@ == "Bot status: QQ "@
            + number::decimal(0) + " ("@ + Seq::<char>::empty() + ") · connected: "@ + "true"@
            + " · "@ + t.ws_url@,
        !connected ==> r@ == "Bot status: QQ "@ + number::decimal(0) + " ("@ + Seq::<char>::empty()
            + ") · connected: "@ + "false"@ + " · "@ + t.ws_url@,
{
}

/// A fetched message is told exactly where the action succeeded and its data
/// were read; a text is then told whole, at the end.
pub proof fn law_fetched_messages_are_told_whole(
    t: OneBotGetContentTool,
    reply: Reply,
    data: Option<Result<GetMsgData, String>>,
    r: Result<String, String>,
)
    requires
        call_ensures(OneBotGetContentTool::conclude, (&t, &reply, data), r),
    ensures
        r is Ok <==> reply.retcode == Some(0i64) && data is Some && data->Some_0 is Ok,
        reply.retcode != Some(0i64) ==> r->Err_0@ == failure(
            "get_msg"@,
            text::opt_text(reply.status),
            reply.retcode,
        ),
        reply.retcode == Some(0i64) && data is Some && data->Some_0 is Err ==> r->Err_0@
            == data->Some_0->Err_0@,
        r is Ok ==> (data->Some_0->Ok_0.message matches Some(types::MessageContent::Text(s))
            ==> r->Ok_0@.len() >= s@.len() + 2 && r->Ok_0@.skip(r->Ok_0@.len() - s@.len() - 2)
            == ": "@ + s@),
{
    reveal_strlit(": ");
    if r is Ok {
        let d = data->Some_0->Ok_0;
        let stamp = choose|stamp: Option<Seq<char>>|
            can_be_date_of(stamp, d.time) && r->Ok_0@ == #[trigger] content_answer(d, stamp);
        match d.message {
            Some(types::MessageContent::Text(s)) => {
                law_answers_end_with_the_message(d, stamp, Seq::empty());
                let kind = match d.message_type {
                    Some(t) => t@,
                    None => "unknown"@,
                };
                let time = match stamp {
                    Some(t) => t,
                    None => "--"@,
                };
                let head = "消息 "@ + d.message_id@ + "（"@ + kind + "，"@ + time + "）"@
                    + types::identity_text(d.sender, d.user_id);
                assert(r->Ok_0@ == head + ": "@ + s@);
                assert(r->Ok_0@.skip(head.len() as int) =~= ": "@ + s@);
            },
            _ => {},
        }
    }
}

/// A history is told exactly where the action succeeded and its messages were
/// read: all lines of all messages, behind the target.
pub proof fn law_read_histories_are_told_whole(
    t: OneBotGetMsgHistoryTool,
    request: HistoryRequest,
    reply: Reply,
    messages: Result<Vec<HistoryMessage>, String>,
    r: Result<String, String>,
)
    requires
        call_ensures(OneBotGetMsgHistoryTool::conclude, (&t, &request, &reply, messages), r),
    ensures
        r is Ok <==> reply.retcode == Some(0i64) && messages is Ok,
        reply.retcode == Some(0i64) && messages is Err ==> r->Err_0@ == messages->Err_0@,
        r is Ok ==> exists|stamps: Seq<Option<Seq<char>>>|
            #![trigger types::history_lines(messages->Ok_0@, stamps)]
            {
                let shown = text::joined(
                    types::history_lines(messages->Ok_0@, stamps),
                    "\n"@,
                );
                &&& types::are_times_of(stamps, messages->Ok_0@)
                &&& shown.len() > 0 ==> r->Ok_0@ == "Recent messages in "@ + request.target@
                    + ":\n"@ + shown
                &&& shown.len() == 0 ==> r->Ok_0@ == "chat "@ + request.target@
                    + " has no readable recent messages"@
            },
{
    if r is Ok {
        let list = messages->Ok_0;
        let stamps = choose|stamps: Seq<Option<Seq<char>>>|
            #![trigger types::history_lines(list@, stamps)]
            types::are_times_of(stamps, list@) && r->Ok_0@ == history_answer(
                request.target@,
                text::joined(types::history_lines(list@, stamps), "\n"@),
            );
        assert(types::are_times_of(stamps, messages->Ok_0@));
    }
}

/// A message that is sent to another chat goes out whole and with its target, to
/// the adapter of the conversation that sends it.
pub proof fn law_sent_messages_keep_target_and_content(
    t: OneBotSendMsgTool,
    args: &str,
    ctx: ToolContext,
    conversation_id: Option<&str>,
    manager: ConversationManager,
    r: Result<(Routed, String), String>,
)
    requires
        call_ensures(OneBotSendMsgTool::run, (&t, args, &ctx, conversation_id, &manager), r),
    ensures
        ({
            let target = platform::json_string_member(args@, "target"@);
            let content = platform::json_string_member(args@, "content"@);
            &&& r is Ok <==> target is Some && types::route_of(target->Some_0) is Some && content
                is Some && exists|i: int|
                0 <= i < content->Some_0.len() && !text::white_space(#[trigger] content->Some_0[i])
            &&& r matches Ok(sent) ==> {
                &&& sent.0.event is Outbound
                &&& sent.0.event->Outbound_0.content@ == content->Some_0
                &&& sent.0.event->Outbound_0.target is Some
                &&& sent.0.event->Outbound_0.target->Some_0@ == target->Some_0
                &&& conversation_id matches Some(id) ==> sent.0.recipients@
                    == conversation::subscribed(manager@.outboxes, conversation::prefix_of(id@))
                &&& conversation_id is None ==> sent.0.recipients@ == conversation::everyone(
                    manager@.outboxes,
                )
            }
        }),
{
    let content = platform::json_string_member(args@, "content"@);
    if content is Some {
        text::law_blank_texts_are_white_space(content->Some_0);
    }
}

/// What is shown of a message ends with a colon and the message's own text: a
/// string as it is, segments in order and none left out.
pub proof fn law_shown_messages_end_with_their_text(
    data: GetMsgData,
    stamp: Option<String>,
    parts: Seq<Seq<char>>,
    r: String,
)
    requires
        call_ensures(show_content, (&data, stamp), r),
        data.message matches Some(types::MessageContent::Segments(segs)) ==> {
            &&& parts.len() == segs@.len()
            &&& forall|i: int|
                #![trigger segs@[i]]
                0 <= i < segs@.len() ==> if segs@[i].segment_type@ == "text"@ {
                    match tool::member(segs@[i].data@, "text"@) {
                        Some(tool::Value::String(t)) => parts[i] == t@,
                        _ => parts[i].len() == 0,
                    }
                } else {
                    parts[i] == "["@ + segs@[i].segment_type@ + " msg id:"@ + data.message_id@
                        + "]"@
                }
        },
    ensures
        data.message matches Some(types::MessageContent::Text(s)) ==> r@.len() >= s@.len() + 2
            && r@.skip(r@.len() - s@.len() - 2) == ": "@ + s@,
        data.message is Some && data.message->Some_0 is Segments ==> r@.len()
            >= text::concatenated(parts).len() + 2 && r@.skip(
            r@.len() - text::concatenated(parts).len() - 2,
        ) == ": "@ + text::concatenated(parts),
{
    reveal_strlit(": ");
    law_answers_end_with_the_message(data, text::opt_text(stamp), parts);
    let kind = match data.message_type {
        Some(t) => t@,
        None => "unknown"@,
    };
    let time = match text::opt_text(stamp) {
        Some(t) => t,
        None => "--"@,
    };
    let head = "消息 "@ + data.message_id@ + "（"@ + kind + "，"@ + time + "）"@
        + types::identity_text(data.sender, data.user_id);
    match data.message {
        Some(types::MessageContent::Text(s)) => {
            assert(r@ == head + ": "@ + s@);
            assert(r@.skip(head.len() as int) =~= ": "@ + s@);
        },
        Some(types::MessageContent::Segments(segs)) => {
            let whole = text::concatenated(parts);
            assert(r@ == head + ": "@ + whole);
            assert(r@.skip(head.len() as int) =~= ": "@ + whole);
        },
        None => {},
    }
}

/// A message to send keeps its target and its content as they were given; it is
/// refused exactly where the target names no chat or the content shows nothing.
pub proof fn law_messages_to_send_are_kept_whole(
    target: Option<String>,
    content: Option<String>,
    r: Result<SendRequest, String>,
)
    requires
        call_ensures(send_arguments, (target, content), r),
    ensures
        r is Ok <==> target is Some && types::route_of(target->Some_0@) is Some && content is Some
            && exists|i: int|
            0 <= i < content->Some_0@.len() && !text::white_space(
                #[trigger] content->Some_0@[i],
            ),
        r matches Ok(s) ==> s.target@ == target->Some_0@ && s.content@ == content->Some_0@,
{
    if content is Some {
        text::law_blank_texts_are_white_space(content->Some_0@);
    }
}

/// A history is asked of the chat that the target names, in the number of
/// messages that was asked for, held in range.
pub proof fn law_history_requests_name_the_chat(
    target: String,
    limit: Option<i64>,
    r: Result<HistoryRequest, String>,
)
    requires
        call_ensures(history_arguments, (Some(target), limit), r),
    ensures
        r is Ok <==> types::route_of(target@) is Some,
        r matches Ok(h) ==> {
            let count = limit_of(limit);
            &&& h.target@ == target@
            &&& types::route_of(target@) matches Some(ReplyRoute::Private { user_id })
                ==> h.action.params == (types::ActionParams::FriendHistory {
                user_id,
                message_seq: 0,
                count,
            })
            &&& types::route_of(target@) matches Some(ReplyRoute::Group { group_id })
                ==> h.action.params == (types::ActionParams::GroupHistory {
                group_id,
                message_seq: 0,
                count,
            })
        },
{
    match r {
        Ok(h) => {
            law_histories_are_read_from_the_chat(
                h.action,
                types::route_of(target@)->Some_0,
                limit_of(limit),
            );
        },
        Err(e) => {},
    }
}

/// A transcription that came through ends the run with its answer. A failure is
/// tried again after two seconds, and the third one ends the run with its
/// reason.
pub proof fn law_transcriptions_are_tried_three_times(
    run: &mut VoiceRun,
    attempt: Attempt,
    r: VoiceStep,
)
    requires
        old(run).failures < 3,
        call_ensures(VoiceRun::tried, (run, attempt), r),
    ensures
        final(run).message_id == old(run).message_id,
        ({
            let outcome = attempt_outcome(old(run).message_id, attempt);
            &&& outcome matches Ok(answer) ==> r is Done && r->Done_0 is Ok && r->Done_0->Ok_0@
                == answer
            &&& outcome is Err ==> final(run).failures == old(run).failures + 1
            &&& outcome is Err && old(run).failures < 2 ==> r == VoiceStep::Retry(2)
            &&& outcome is Err && old(run).failures == 2 ==> r is Done && r->Done_0 is Err
                && r->Done_0->Err_0@ == voice_failure(old(run).message_id, outcome->Err_0)
        }),
{
}

} // verus!
