//! The OneBot 11 messages and actions that the bridge knows.

use vstd::prelude::*;
use vstd::string::*;

use crate::domain::tool;
use crate::domain::tool::Value;
use crate::number;
use crate::platform;
use crate::text;

verus! {

// Events ----------------------------------------------------------------------

/// What the implementation posts.
#[derive(Debug)]
pub enum PostEvent {
    Message(MessageEvent),
    Notice,
    Request,
    MetaEvent,
}

/// A private or group message.
#[derive(Debug)]
pub struct MessageEvent {
    /// The number of the bot itself.
    pub self_id: i64,
    /// The time of the event in Unix seconds.
    pub time: i64,
    pub message_id: i64,
    /// `private` or `group`.
    pub message_type: String,
    pub sub_type: Option<String>,
    /// The number of the sender.
    pub user_id: i64,
    pub message: Option<MessageContent>,
    /// Present only for group messages.
    pub group_id: Option<i64>,
    pub sender: Option<Sender>,
}

/// Who sent a message.
#[derive(Debug)]
pub struct Sender {
    pub user_id: i64,
    pub nickname: String,
    pub card: Option<String>,
}

/// The best name that is known of a sender: the card in the group, else the
/// nickname.
pub open spec fn name_of(sender: Sender) -> Seq<char> {
    match sender.card {
        Some(card) if card@.len() > 0 => card@,
        _ => sender.nickname@,
    }
}

impl Sender {
    /// The best name that is known of the sender, empty where none is.
    pub fn display_name(&self) -> (r: String)
        ensures
            r@ == name_of(*self),
    {
        match &self.card {
            Some(card) => if text::is_empty(card.as_str()) {
                self.nickname.clone()
            } else {
                card.clone()
            },
            None => self.nickname.clone(),
        }
    }
}

/// A participant as `name(number)`, or the bare number where no name is known.
pub open spec fn identity_text(sender: Option<Sender>, user_id: i64) -> Seq<char> {
    let number = number::decimal(user_id as int);
    match sender {
        Some(s) if name_of(s).len() > 0 => name_of(s) + "("@ + number + ")"@,
        _ => number,
    }
}

/// A participant as `name(number)`, or the bare number where no name is known.
pub fn identity(sender: Option<&Sender>, user_id: i64) -> (r: String)
    ensures
        r@ == identity_text(
            match sender {
                Some(s) => Some(*s),
                None => None,
            },
            user_id,
        ),
{
    let number = number::i64_text(user_id);
    match sender {
        Some(s) => {
            let name = s.display_name();
            if text::is_empty(name.as_str()) {
                number
            } else {
                name.concat("(").concat(number.as_str()).concat(")")
            }
        },
        None => number,
    }
}

/// The body of a message: a string or a list of segments.
#[derive(Debug)]
pub enum MessageContent {
    Text(String),
    Segments(Vec<MessageSegment>),
}

/// A segment of a message.
#[derive(Debug)]
pub struct MessageSegment {
    pub segment_type: String,
    pub data: Vec<(String, Value)>,
}

/// The text that a text segment carries.
pub open spec fn carried_text(data: Seq<(String, Value)>) -> Seq<char> {
    match tool::member(data, "text"@) {
        Some(Value::String(s)) => s@,
        _ => Seq::empty(),
    }
}

/// A segment as text: a text segment is its text, every other segment its
/// type between brackets.
pub open spec fn segment_text(seg: MessageSegment) -> Seq<char> {
    if seg.segment_type@ == "text"@ {
        carried_text(seg.data@)
    } else {
        "["@ + seg.segment_type@ + "]"@
    }
}

/// A segment as text for the model: every segment but text shows its type and
/// the id of the message, by which the content can be fetched.
pub open spec fn segment_text_with_id(seg: MessageSegment, message_id: Seq<char>) -> Seq<char> {
    if seg.segment_type@ == "text"@ {
        carried_text(seg.data@)
    } else {
        "["@ + seg.segment_type@ + " msg id:"@ + message_id + "]"@
    }
}

/// The segments as text, one after another.
pub open spec fn segments_text(segs: Seq<MessageSegment>) -> Seq<char>
    decreases segs.len(),
{
    if segs.len() == 0 {
        Seq::empty()
    } else {
        segments_text(segs.drop_last()) + segment_text(segs.last())
    }
}

/// The segments as text for the model, one after another.
pub open spec fn segments_text_with_id(
    segs: Seq<MessageSegment>,
    message_id: Seq<char>,
) -> Seq<char>
    decreases segs.len(),
{
    if segs.len() == 0 {
        Seq::empty()
    } else {
        segments_text_with_id(segs.drop_last(), message_id) + segment_text_with_id(
            segs.last(),
            message_id,
        )
    }
}

/// A body as plain text.
pub open spec fn content_text(content: MessageContent) -> Seq<char> {
    match content {
        MessageContent::Text(s) => s@,
        MessageContent::Segments(segs) => segments_text(segs@),
    }
}

/// A body as text for the model.
pub open spec fn content_text_with_id(content: MessageContent, message_id: Seq<char>) -> Seq<
    char,
> {
    match content {
        MessageContent::Text(s) => s@,
        MessageContent::Segments(segs) => segments_text_with_id(segs@, message_id),
    }
}

fn find_carried_text(data: &Vec<(String, Value)>) -> (r: String)
    ensures
        r@ == carried_text(data@),
{
    match tool::find_member(data, "text") {
        Some(Value::String(s)) => s.clone(),
        _ => {
            let r = String::new();
            assert(r@ =~= Seq::empty());
            r
        },
    }
}

fn segment_to_text(seg: &MessageSegment) -> (r: String)
    ensures
        r@ == segment_text(*seg),
{
    if text::str_eq(seg.segment_type.as_str(), "text") {
        find_carried_text(&seg.data)
    } else {
        "[".to_owned().concat(seg.segment_type.as_str()).concat("]")
    }
}

fn segment_to_text_with_id(seg: &MessageSegment, message_id: &str) -> (r: String)
    ensures
        r@ == segment_text_with_id(*seg, message_id@),
{
    if text::str_eq(seg.segment_type.as_str(), "text") {
        find_carried_text(&seg.data)
    } else {
        "[".to_owned().concat(seg.segment_type.as_str()).concat(" msg id:").concat(
            message_id,
        ).concat("]")
    }
}

impl MessageContent {
    /// The body as plain text; segments other than text show their type.
    pub fn to_text(&self) -> (r: String)
        ensures
            r@ == content_text(*self),
    {
        match self {
            MessageContent::Text(s) => s.clone(),
            MessageContent::Segments(segs) => {
                let mut r: String = String::new();
                let mut i: usize = 0;
                assert(r@ =~= segments_text(segs@.take(0)));
                while i < segs.len()
                    invariant
                        i <= segs@.len(),
                        r@ == segments_text(segs@.take(i as int)),
                    decreases segs@.len() - i,
                {
                    proof {
                        let t = segs@.take(i + 1);
                        assert(t.drop_last() =~= segs@.take(i as int));
                        assert(t.last() == segs@[i as int]);
                    }
                    r.append(segment_to_text(&segs[i]).as_str());
                    i = i + 1;
                }
                assert(segs@.take(i as int) =~= segs@);
                r
            },
        }
    }

    /// The body as text for the model; segments other than text show their
    /// type and the id of the message.
    pub fn to_text_with_id(&self, message_id: &str) -> (r: String)
        ensures
            r@ == content_text_with_id(*self, message_id@),
    {
        match self {
            MessageContent::Text(s) => s.clone(),
            MessageContent::Segments(segs) => {
                let mut r: String = String::new();
                let mut i: usize = 0;
                assert(r@ =~= segments_text_with_id(segs@.take(0), message_id@));
                while i < segs.len()
                    invariant
                        i <= segs@.len(),
                        r@ == segments_text_with_id(segs@.take(i as int), message_id@),
                    decreases segs@.len() - i,
                {
                    proof {
                        let t = segs@.take(i + 1);
                        assert(t.drop_last() =~= segs@.take(i as int));
                        assert(t.last() == segs@[i as int]);
                    }
                    r.append(segment_to_text_with_id(&segs[i], message_id).as_str());
                    i = i + 1;
                }
                assert(segs@.take(i as int) =~= segs@);
                r
            },
        }
    }
}

/// A message id as text: implementations send a string or a number.
pub fn json_value_to_string(v: &Value) -> (r: String)
    ensures
        r@ == (match *v {
            Value::String(s) => s@,
            Value::Number(n) => n.text@,
            _ => Seq::empty(),
        }),
{
    match v {
        Value::String(s) => s.clone(),
        Value::Number(n) => n.text.clone(),
        _ => {
            let r = String::new();
            assert(r@ =~= Seq::empty());
            r
        },
    }
}

// Actions -----------------------------------------------------------------------

/// The text of an outbound segment.
#[derive(Debug)]
pub struct TextSegmentData {
    pub text: String,
}

/// An outbound segment.
#[derive(Debug)]
pub struct TextSegment {
    pub segment_type: String,
    pub data: TextSegmentData,
}

/// The parameters of an action.
#[derive(Debug)]
pub enum ActionParams {
    Private { user_id: i64, message: Vec<TextSegment> },
    Group { group_id: i64, message: Vec<TextSegment> },
    GroupHistory { group_id: i64, message_seq: i64, count: i64 },
    FriendHistory { user_id: i64, message_seq: i64, count: i64 },
    LoginInfo,
    GetMsg { message_id: i64 },
    FetchPttText { message_id: String },
}

/// An action request; `echo` correlates the response.
#[derive(Debug)]
pub struct ActionRequest {
    pub action: String,
    pub params: ActionParams,
    pub echo: String,
}

/// What an action asks for, without its echo. A message is shown as the texts
/// of its segments with their types.
pub enum ActionView {
    SendPrivate { user_id: i64, message: Seq<(Seq<char>, Seq<char>)> },
    SendGroup { group_id: i64, message: Seq<(Seq<char>, Seq<char>)> },
    GroupHistory { group_id: i64, message_seq: i64, count: i64 },
    FriendHistory { user_id: i64, message_seq: i64, count: i64 },
    LoginInfo,
    GetMsg { message_id: i64 },
    FetchPttText { message_id: Seq<char> },
}

/// The types and texts of segments.
pub open spec fn segment_views(v: Seq<TextSegment>) -> Seq<(Seq<char>, Seq<char>)> {
    v.map_values(|s: TextSegment| (s.segment_type@, s.data.text@))
}

/// The name under which an action is called.
pub open spec fn action_name(view: ActionView) -> Seq<char> {
    match view {
        ActionView::SendPrivate { .. } => "send_private_msg"@,
        ActionView::SendGroup { .. } => "send_group_msg"@,
        ActionView::GroupHistory { .. } => "get_group_msg_history"@,
        ActionView::FriendHistory { .. } => "get_friend_msg_history"@,
        ActionView::LoginInfo => "get_login_info"@,
        ActionView::GetMsg { .. } => "get_msg"@,
        ActionView::FetchPttText { .. } => "fetch_ptt_text"@,
    }
}

impl View for ActionParams {
    type V = ActionView;

    open spec fn view(&self) -> ActionView {
        match *self {
            ActionParams::Private { user_id, message } => ActionView::SendPrivate {
                user_id,
                message: segment_views(message@),
            },
            ActionParams::Group { group_id, message } => ActionView::SendGroup {
                group_id,
                message: segment_views(message@),
            },
            ActionParams::GroupHistory { group_id, message_seq, count } =>
                ActionView::GroupHistory { group_id, message_seq, count },
            ActionParams::FriendHistory { user_id, message_seq, count } =>
                ActionView::FriendHistory { user_id, message_seq, count },
            ActionParams::LoginInfo => ActionView::LoginInfo,
            ActionParams::GetMsg { message_id } => ActionView::GetMsg { message_id },
            ActionParams::FetchPttText { message_id } => ActionView::FetchPttText {
                message_id: message_id@,
            },
        }
    }
}

/// Whether a request asks for an action, under its name and with an echo of
/// its own.
pub open spec fn requests(r: ActionRequest, view: ActionView) -> bool {
    &&& r.params@ == view
    &&& r.action@ == action_name(view)
    &&& platform::is_uuid_text(r.echo@)
}

/// A text as the single segment of a message.
pub open spec fn one_text(text: Seq<char>) -> Seq<(Seq<char>, Seq<char>)> {
    seq![("text"@, text)]
}

/// A text as the single segment of a message.
pub fn text_segments(text: &str) -> (r: Vec<TextSegment>)
    ensures
        segment_views(r@) == one_text(text@),
{
    let mut r: Vec<TextSegment> = Vec::new();
    r.push(
        TextSegment {
            segment_type: "text".to_owned(),
            data: TextSegmentData { text: text.to_owned() },
        },
    );
    assert(segment_views(r@) =~= one_text(text@));
    r
}

impl ActionRequest {
    pub fn send_private_msg(user_id: i64, text: &str) -> (r: Self)
        ensures
            requests(r, ActionView::SendPrivate { user_id, message: one_text(text@) }),
    {
        ActionRequest {
            action: "send_private_msg".to_owned(),
            params: ActionParams::Private { user_id, message: text_segments(text) },
            echo: platform::fresh_id(),
        }
    }

    pub fn send_group_msg(group_id: i64, text: &str) -> (r: Self)
        ensures
            requests(r, ActionView::SendGroup { group_id, message: one_text(text@) }),
    {
        ActionRequest {
            action: "send_group_msg".to_owned(),
            params: ActionParams::Group { group_id, message: text_segments(text) },
            echo: platform::fresh_id(),
        }
    }

    /// The recent messages of a group.
    pub fn get_group_msg_history(group_id: i64, count: i64) -> (r: Self)
        ensures
            requests(r, ActionView::GroupHistory { group_id, message_seq: 0, count }),
    {
        ActionRequest {
            action: "get_group_msg_history".to_owned(),
            params: ActionParams::GroupHistory { group_id, message_seq: 0, count },
            echo: platform::fresh_id(),
        }
    }

    /// The recent messages of a private chat.
    pub fn get_friend_msg_history(user_id: i64, count: i64) -> (r: Self)
        ensures
            requests(r, ActionView::FriendHistory { user_id, message_seq: 0, count }),
    {
        ActionRequest {
            action: "get_friend_msg_history".to_owned(),
            params: ActionParams::FriendHistory { user_id, message_seq: 0, count },
            echo: platform::fresh_id(),
        }
    }

    /// The bot's own account.
    pub fn get_login_info() -> (r: Self)
        ensures
            requests(r, ActionView::LoginInfo),
    {
        ActionRequest {
            action: "get_login_info".to_owned(),
            params: ActionParams::LoginInfo,
            echo: platform::fresh_id(),
        }
    }

    /// One message by its id.
    pub fn get_msg(message_id: i64) -> (r: Self)
        ensures
            requests(r, ActionView::GetMsg { message_id }),
    {
        ActionRequest {
            action: "get_msg".to_owned(),
            params: ActionParams::GetMsg { message_id },
            echo: platform::fresh_id(),
        }
    }

    /// The text of a voice message.
    pub fn fetch_ptt_text(message_id: i64) -> (r: Self)
        ensures
            requests(
                r,
                ActionView::FetchPttText { message_id: number::decimal(message_id as int) },
            ),
    {
        ActionRequest {
            action: "fetch_ptt_text".to_owned(),
            params: ActionParams::FetchPttText { message_id: number::i64_text(message_id) },
            echo: platform::fresh_id(),
        }
    }
}

/// The response to an action.
#[derive(Debug)]
pub struct ActionResponse {
    pub status: Option<String>,
    pub retcode: Option<i64>,
    pub echo: Option<String>,
    pub data: Option<Value>,
}

/// What reading a group's history returns.
#[derive(Debug)]
pub struct GroupMsgHistoryData {
    pub messages: Vec<HistoryMessage>,
}

/// A message of a history.
#[derive(Debug)]
pub struct HistoryMessage {
    pub message_id: String,
    pub message_seq: i64,
    pub user_id: i64,
    pub time: i64,
    pub message: Option<MessageContent>,
    pub sender: Option<Sender>,
    pub group_id: Option<i64>,
}

/// What fetching one message returns.
#[derive(Debug)]
pub struct GetMsgData {
    pub message_id: String,
    pub message_type: Option<String>,
    pub time: i64,
    pub user_id: i64,
    pub message: Option<MessageContent>,
    pub sender: Option<Sender>,
}

/// What asking for the bot's account returns.
#[derive(Debug)]
pub struct LoginInfoData {
    pub user_id: i64,
    pub nickname: String,
}

/// What transcribing a voice message returns.
#[derive(Debug)]
pub struct FetchPttTextData {
    pub text: String,
}

// History -------------------------------------------------------------------------

/// The text of a message for the model, empty where it has no body.
pub open spec fn body_text(message: Option<MessageContent>, message_id: Seq<char>) -> Seq<char> {
    match message {
        Some(m) => content_text_with_id(m, message_id),
        None => Seq::empty(),
    }
}

/// The text of a message for the model.
pub fn show_body(message: &Option<MessageContent>, message_id: &str) -> (r: String)
    ensures
        r@ == body_text(*message, message_id@),
{
    match message {
        Some(m) => m.to_text_with_id(message_id),
        None => {
            let r = String::new();
            assert(r@ =~= Seq::empty());
            r
        },
    }
}

/// The line of a message in a history. `stamp` is the local time of day, where
/// the time of the message has one.
pub open spec fn history_line(msg: HistoryMessage, stamp: Option<Seq<char>>) -> Seq<char> {
    let time = match stamp {
        Some(t) => t,
        None => "--:--"@,
    };
    "["@ + time + "] "@ + identity_text(msg.sender, msg.user_id) + " 消息ID:"@ + msg.message_id@
        + ": "@ + body_text(msg.message, msg.message_id@)
}

/// The lines of a history; messages without visible text are left out.
pub open spec fn history_lines(
    messages: Seq<HistoryMessage>,
    stamps: Seq<Option<Seq<char>>>,
) -> Seq<Seq<char>>
    decreases messages.len(),
{
    if messages.len() == 0 || stamps.len() != messages.len() {
        Seq::empty()
    } else {
        let msg = messages.last();
        let before = history_lines(messages.drop_last(), stamps.drop_last());
        if text::trim(body_text(msg.message, msg.message_id@)).len() == 0 {
            before
        } else {
            before.push(history_line(msg, stamps.last()))
        }
    }
}

/// The views of a list of stamps.
pub open spec fn stamp_views(stamps: Seq<Option<String>>) -> Seq<Option<Seq<char>>> {
    stamps.map_values(|s: Option<String>| text::opt_text(s))
}

/// Whether a stamp can be the local time of day of a Unix time: there is one
/// exactly where the time has a date, and it is the time of day at some offset
/// from UTC.
pub open spec fn can_be_time_of(stamp: Option<Seq<char>>, time: i64) -> bool {
    &&& stamp is Some <==> platform::has_date(time)
    &&& stamp matches Some(t) ==> exists|offset: int|
        -86400 < offset < 86400 && t == platform::time_of_day(time, offset) && t
            == #[trigger] platform::calendar_text(time, "%H:%M"@, offset)
}

/// Whether each stamp can be the local time of day of its message.
pub open spec fn are_times_of(stamps: Seq<Option<Seq<char>>>, messages: Seq<HistoryMessage>) -> bool {
    &&& stamps.len() == messages.len()
    &&& forall|i: int|
        0 <= i < stamps.len() ==> can_be_time_of(#[trigger] stamps[i], messages[i].time)
}

fn show_line(msg: &HistoryMessage, stamp: &Option<String>, body: &str) -> (r: String)
    requires
        body@ == body_text(msg.message, msg.message_id@),
    ensures
        r@ == history_line(*msg, text::opt_text(*stamp)),
{
    let time = match stamp {
        Some(t) => t.clone(),
        None => "--:--".to_owned(),
    };
    let who = match &msg.sender {
        Some(s) => identity(Some(s), msg.user_id),
        None => identity(None, msg.user_id),
    };
    "[".to_owned().concat(time.as_str()).concat("] ").concat(who.as_str()).concat(
        " 消息ID:",
    ).concat(msg.message_id.as_str()).concat(": ").concat(body)
}

/// The history as text, one message on each line, with given times of day.
pub fn format_history_at(messages: &Vec<HistoryMessage>, stamps: &Vec<Option<String>>) -> (r:
    String)
    requires
        stamps@.len() == messages@.len(),
    ensures
        r@ == text::joined(history_lines(messages@, stamp_views(stamps@)), "\n"@),
{
    let mut out: Vec<String> = Vec::new();
    let mut i: usize = 0;
    let ghost times = stamp_views(stamps@);
    assert(text::texts(out@) =~= history_lines(messages@.take(0), times.take(0)));
    while i < messages.len()
        invariant
            i <= messages@.len(),
            stamps@.len() == messages@.len(),
            times == stamp_views(stamps@),
            text::texts(out@) == history_lines(messages@.take(i as int), times.take(i as int)),
        decreases messages@.len() - i,
    {
        let msg = &messages[i];
        let ghost before = text::texts(out@);
        proof {
            let m = messages@.take(i + 1);
            let t = times.take(i + 1);
            assert(m.drop_last() =~= messages@.take(i as int));
            assert(t.drop_last() =~= times.take(i as int));
            assert(m.last() == messages@[i as int]);
            assert(t.last() == text::opt_text(stamps@[i as int]));
        }
        let body = show_body(&msg.message, msg.message_id.as_str());
        if !text::is_blank(body.as_str()) {
            let line = show_line(msg, &stamps[i], body.as_str());
            let ghost shown = line@;
            out.push(line);
            assert(text::texts(out@) =~= before.push(shown));
        }
        i = i + 1;
    }
    assert(messages@.take(i as int) =~= messages@);
    assert(times.take(i as int) =~= times);
    text::join(&out, "\n")
}

/// The history as text, one message on each line, in the machine's local time.
pub fn format_history(messages: &Vec<HistoryMessage>) -> (r: String)
    ensures
        exists|stamps: Seq<Option<Seq<char>>>|
            #![trigger history_lines(messages@, stamps)]
            are_times_of(stamps, messages@) && r@ == text::joined(
                history_lines(messages@, stamps),
                "\n"@,
            ),
{
    let mut stamps: Vec<Option<String>> = Vec::new();
    let mut i: usize = 0;
    while i < messages.len()
        invariant
            i <= messages@.len(),
            stamps@.len() == i,
            forall|j: int|
                0 <= j < i ==> can_be_time_of(
                    text::opt_text(#[trigger] stamps@[j]),
                    messages@[j].time,
                ),
        decreases messages@.len() - i,
    {
        stamps.push(platform::local_time(messages[i].time, "%H:%M"));
        i = i + 1;
    }
    let r = format_history_at(messages, &stamps);
    proof {
        let times = stamp_views(stamps@);
        assert forall|j: int| 0 <= j < times.len() implies can_be_time_of(
            #[trigger] times[j],
            messages@[j].time,
        ) by {
            assert(times[j] == text::opt_text(stamps@[j]));
        }
        assert(r@ == text::joined(history_lines(messages@, times), "\n"@));
    }
    r
}

// Routes ----------------------------------------------------------------------------

/// Where a reply goes.
#[derive(Debug, Clone, Copy, PartialEq, Eq, Structural)]
pub enum ReplyRoute {
    Private { user_id: i64 },
    Group { group_id: i64 },
}

/// The action that sends a text along a route.
pub open spec fn route_action(route: ReplyRoute, text: Seq<char>) -> ActionView {
    match route {
        ReplyRoute::Private { user_id } => ActionView::SendPrivate {
            user_id,
            message: one_text(text),
        },
        ReplyRoute::Group { group_id } => ActionView::SendGroup {
            group_id,
            message: one_text(text),
        },
    }
}

/// A route as text.
pub open spec fn route_text(route: ReplyRoute) -> Seq<char> {
    match route {
        ReplyRoute::Private { user_id } => "private:"@ + number::decimal(user_id as int),
        ReplyRoute::Group { group_id } => "group:"@ + number::decimal(group_id as int),
    }
}

/// The route that a text names.
pub open spec fn route_of(target: Seq<char>) -> Option<ReplyRoute> {
    match text::split_at_char(target, ':') {
        Some((kind, id)) => match number::i64_of(id) {
            Some(n) => if kind == "private"@ {
                Some(ReplyRoute::Private { user_id: n })
            } else if kind == "group"@ {
                Some(ReplyRoute::Group { group_id: n })
            } else {
                None
            },
            None => None,
        },
        None => None,
    }
}

impl ReplyRoute {
    /// The action that sends a text along the route.
    pub fn to_action(&self, text: &str) -> (r: ActionRequest)
        ensures
            requests(r, route_action(*self, text@)),
    {
        match self {
            ReplyRoute::Private { user_id } => ActionRequest::send_private_msg(*user_id, text),
            ReplyRoute::Group { group_id } => ActionRequest::send_group_msg(*group_id, text),
        }
    }

    /// The route as text.
    pub fn to_context(&self) -> (r: String)
        ensures
            r@ == route_text(*self),
    {
        match self {
            ReplyRoute::Private { user_id } => "private:".to_owned().concat(
                number::i64_text(*user_id).as_str(),
            ),
            ReplyRoute::Group { group_id } => "group:".to_owned().concat(
                number::i64_text(*group_id).as_str(),
            ),
        }
    }

    /// The route that a text names.
    pub fn parse(target: &str) -> (r: Option<ReplyRoute>)
        ensures
            r == route_of(target@),
    {
        match text::split_once(target, ':') {
            Some((kind, id)) => match number::parse_i64(id.as_str()) {
                Some(n) => if text::str_eq(kind.as_str(), "private") {
                    Some(ReplyRoute::Private { user_id: n })
                } else if text::str_eq(kind.as_str(), "group") {
                    Some(ReplyRoute::Group { group_id: n })
                } else {
                    None
                },
                None => None,
            },
            None => None,
        }
    }
}

/// A route that was written as text is read back as the same route.
pub proof fn law_route_text_round_trips(route: ReplyRoute)
    ensures
        route_of(route_text(route)) == Some(route),
{
    reveal_strlit("private:");
    reveal_strlit("group:");
    reveal_strlit("private");
    reveal_strlit("group");
    let (kind, id) = match route {
        ReplyRoute::Private { user_id } => ("private"@, user_id),
        ReplyRoute::Group { group_id } => ("group"@, group_id),
    };
    let t = route_text(route);
    let digits = number::decimal(id as int);
    number::law_integer_text_round_trips(id as int);
    text::lemma_first_index_is(t, ':', kind.len() as int);
    assert(t.take(kind.len() as int) =~= kind);
    assert(t.skip(kind.len() as int + 1) =~= digits);
    assert("private"@[0] == 'p' && "group"@[0] == 'g');
}

// Chunks ----------------------------------------------------------------------------

/// A text in pieces of at most so many characters.
pub open spec fn chunks(s: Seq<char>, max: nat) -> Seq<Seq<char>>
    decreases s.len(),
{
    if max == 0 {
        seq![s]
    } else if s.len() == 0 {
        Seq::empty()
    } else if s.len() <= max {
        seq![s]
    } else {
        seq![s.take(max as int)] + chunks(s.skip(max as int), max)
    }
}

/// A text in pieces of at most so many characters; no limit means one piece.
pub fn chunk_text(text: &str, max_chars: usize) -> (r: Vec<String>)
    ensures
        text::texts(r@) == chunks(text@, max_chars as nat),
{
    let mut r: Vec<String> = Vec::new();
    if max_chars == 0 {
        r.push(text.to_owned());
        assert(text::texts(r@) =~= seq![text@]);
        return r;
    }
    let chars = text::chars_of(text);
    let mut i: usize = 0;
    let ghost all = chunks(text@, max_chars as nat);
    assert(chars@.skip(0) =~= chars@);
    assert(text::texts(r@) + all =~= all);
    while i < chars.len()
        invariant
            i <= chars@.len(),
            max_chars > 0,
            all == text::texts(r@) + chunks(chars@.skip(i as int), max_chars as nat),
        decreases chars@.len() - i,
    {
        let ghost before = text::texts(r@);
        let ghost rest = chars@.skip(i as int);
        let left = chars.len() - i;
        let n = if left <= max_chars {
            left
        } else {
            max_chars
        };
        let piece = text::string_of(&chars, i, i + n);
        let ghost shown = piece@;
        r.push(piece);
        proof {
            assert(text::texts(r@) =~= before.push(shown));
            assert(shown =~= rest.take(n as int));
            assert(rest.skip(n as int) =~= chars@.skip(i + n));
            if left <= max_chars {
                assert(rest.take(n as int) =~= rest);
                assert(chars@.skip(i + n) =~= Seq::empty());
                assert(chunks(rest, max_chars as nat) =~= seq![shown]);
            }
            let tail = chunks(rest.skip(n as int), max_chars as nat);
            assert(chunks(rest, max_chars as nat) =~= seq![shown] + tail);
            assert(before + (seq![shown] + tail) =~= before.push(shown) + tail);
        }
        i = i + n;
    }
    assert(chars@.skip(i as int) =~= Seq::empty());
    assert(text::texts(r@) + Seq::<Seq<char>>::empty() =~= text::texts(r@));
    r
}

/// The pieces put together are the text; with a limit none is empty, none is
/// longer than the limit, and all but the last are exactly as long.
pub proof fn law_chunks_make_up_the_text(s: Seq<char>, max: nat)
    ensures
        text::concatenated(chunks(s, max)) == s,
        max > 0 ==> forall|i: int|
            0 <= i < chunks(s, max).len() ==> 0 < (#[trigger] chunks(s, max)[i]).len() <= max,
        max > 0 ==> forall|i: int|
            0 <= i < chunks(s, max).len() - 1 ==> (#[trigger] chunks(s, max)[i]).len() == max,
    decreases s.len(),
{
    reveal_with_fuel(text::concatenated, 2);
    let c = chunks(s, max);
    if max == 0 || 0 < s.len() <= max {
        assert(c =~= seq![s]);
        lemma_concatenated_front(s, Seq::empty());
        assert(seq![s] + Seq::<Seq<char>>::empty() =~= seq![s]);
        assert(s + Seq::<char>::empty() =~= s);
    } else if s.len() > 0 {
        let first = s.take(max as int);
        let rest = s.skip(max as int);
        law_chunks_make_up_the_text(rest, max);
        let tail = chunks(rest, max);
        lemma_concatenated_front(first, tail);
        assert(first + rest =~= s);
        assert forall|i: int| 0 <= i < c.len() implies 0 < (#[trigger] c[i]).len() <= max by {
            if i > 0 {
                assert(c[i] == tail[i - 1]);
            }
        }
        assert forall|i: int| 0 <= i < c.len() - 1 implies (#[trigger] c[i]).len() == max by {
            if i > 0 {
                assert(c[i] == tail[i - 1]);
            }
        }
    } else {
        assert(s =~= Seq::empty());
    }
}

proof fn lemma_concatenated_front(first: Seq<char>, rest: Seq<Seq<char>>)
    ensures
        text::concatenated(seq![first] + rest) == first + text::concatenated(rest),
    decreases rest.len(),
{
    reveal_with_fuel(text::concatenated, 2);
    let all = seq![first] + rest;
    if rest.len() == 0 {
        assert(all =~= seq![first]);
        assert(all.drop_last() =~= Seq::empty());
        assert(text::concatenated(all) =~= first + text::concatenated(rest));
    } else {
        lemma_concatenated_front(first, rest.drop_last());
        assert(all.drop_last() =~= seq![first] + rest.drop_last());
        assert(all.last() == rest.last());
        assert(text::concatenated(all) =~= first + text::concatenated(rest));
    }
}

// What the texts and the actions carry ---------------------------------------------------

/// A participant shows under the card of the group, else under the nickname,
/// always with the number between brackets; without any name the number stands
/// alone.
pub proof fn law_participants_show_name_and_number(sender: Sender, user_id: i64)
    ensures
        ({
            let number = number::decimal(user_id as int);
            let shown = identity_text(Some(sender), user_id);
            let card = match sender.card {
                Some(card) => card@,
                None => Seq::empty(),
            };
            &&& card.len() > 0 ==> shown == card + "("@ + number + ")"@
            &&& card.len() == 0 && sender.nickname@.len() > 0 ==> shown == sender.nickname@ + "("@
                + number + ")"@
            &&& card.len() == 0 && sender.nickname@.len() == 0 ==> shown == number
            &&& identity_text(None, user_id) == number
        }),
{
}

/// A body that is a string shows as itself. One of segments shows them in
/// order, one behind another and none left out: a text segment as the text it
/// carries, any other segment as its type and the id of the message between
/// brackets.
pub proof fn law_bodies_show_every_segment(
    s: String,
    segs: Vec<MessageSegment>,
    id: Seq<char>,
    parts: Seq<Seq<char>>,
)
    requires
        parts.len() == segs@.len(),
        forall|i: int|
            #![trigger segs@[i]]
            0 <= i < segs@.len() ==> if segs@[i].segment_type@ == "text"@ {
                match tool::member(segs@[i].data@, "text"@) {
                    Some(Value::String(t)) => parts[i] == t@,
                    _ => parts[i].len() == 0,
                }
            } else {
                parts[i] == "["@ + segs@[i].segment_type@ + " msg id:"@ + id + "]"@
            },
    ensures
        content_text_with_id(MessageContent::Text(s), id) == s@,
        content_text_with_id(MessageContent::Segments(segs), id) == text::concatenated(parts),
        body_text(Some(MessageContent::Text(s)), id) == s@,
        body_text(Some(MessageContent::Segments(segs)), id) == text::concatenated(parts),
        body_text(None, id).len() == 0,
{
    lemma_segments_with_id(segs@, id, parts);
}

proof fn lemma_segments_with_id(
    segs: Seq<MessageSegment>,
    id: Seq<char>,
    parts: Seq<Seq<char>>,
)
    requires
        parts.len() == segs.len(),
        forall|i: int|
            #![trigger segs[i]]
            0 <= i < segs.len() ==> if segs[i].segment_type@ == "text"@ {
                match tool::member(segs[i].data@, "text"@) {
                    Some(Value::String(t)) => parts[i] == t@,
                    _ => parts[i].len() == 0,
                }
            } else {
                parts[i] == "["@ + segs[i].segment_type@ + " msg id:"@ + id + "]"@
            },
    ensures
        segments_text_with_id(segs, id) == text::concatenated(parts),
    decreases segs.len(),
{
    if segs.len() > 0 {
        let fewer = segs.drop_last();
        assert forall|i: int|
            #![trigger fewer[i]]
            0 <= i < fewer.len() implies if fewer[i].segment_type@ == "text"@ {
            match tool::member(fewer[i].data@, "text"@) {
                Some(Value::String(t)) => parts.drop_last()[i] == t@,
                _ => parts.drop_last()[i].len() == 0,
            }
        } else {
            parts.drop_last()[i] == "["@ + fewer[i].segment_type@ + " msg id:"@ + id + "]"@
        } by {
            assert(fewer[i] == segs[i]);
        }
        lemma_segments_with_id(fewer, id, parts.drop_last());
        assert(segs.last() == segs[segs.len() - 1]);
        assert(segment_text_with_id(segs.last(), id) =~= parts.last());
    }
}

/// As plain text a body shows the same, with the bare type of a segment that is
/// no text between the brackets.
pub proof fn law_plain_bodies_show_every_segment(
    s: String,
    segs: Vec<MessageSegment>,
    parts: Seq<Seq<char>>,
)
    requires
        parts.len() == segs@.len(),
        forall|i: int|
            #![trigger segs@[i]]
            0 <= i < segs@.len() ==> if segs@[i].segment_type@ == "text"@ {
                match tool::member(segs@[i].data@, "text"@) {
                    Some(Value::String(t)) => parts[i] == t@,
                    _ => parts[i].len() == 0,
                }
            } else {
                parts[i] == "["@ + segs@[i].segment_type@ + "]"@
            },
    ensures
        content_text(MessageContent::Text(s)) == s@,
        content_text(MessageContent::Segments(segs)) == text::concatenated(parts),
{
    lemma_segments_plain(segs@, parts);
}

proof fn lemma_segments_plain(segs: Seq<MessageSegment>, parts: Seq<Seq<char>>)
    requires
        parts.len() == segs.len(),
        forall|i: int|
            #![trigger segs[i]]
            0 <= i < segs.len() ==> if segs[i].segment_type@ == "text"@ {
                match tool::member(segs[i].data@, "text"@) {
                    Some(Value::String(t)) => parts[i] == t@,
                    _ => parts[i].len() == 0,
                }
            } else {
                parts[i] == "["@ + segs[i].segment_type@ + "]"@
            },
    ensures
        segments_text(segs) == text::concatenated(parts),
    decreases segs.len(),
{
    if segs.len() > 0 {
        let fewer = segs.drop_last();
        assert forall|i: int|
            #![trigger fewer[i]]
            0 <= i < fewer.len() implies if fewer[i].segment_type@ == "text"@ {
            match tool::member(fewer[i].data@, "text"@) {
                Some(Value::String(t)) => parts.drop_last()[i] == t@,
                _ => parts.drop_last()[i].len() == 0,
            }
        } else {
            parts.drop_last()[i] == "["@ + fewer[i].segment_type@ + "]"@
        } by {
            assert(fewer[i] == segs[i]);
        }
        lemma_segments_plain(fewer, parts.drop_last());
        assert(segs.last() == segs[segs.len() - 1]);
        assert(segment_text(segs.last()) =~= parts.last());
    }
}

/// A history shows its messages in order, each on a line of its own that
/// carries the time, the sender, the id and the whole text; only messages
/// without a visible character are left out.
pub proof fn law_histories_show_every_message(
    first: Seq<HistoryMessage>,
    first_stamps: Seq<Option<Seq<char>>>,
    second: Seq<HistoryMessage>,
    second_stamps: Seq<Option<Seq<char>>>,
    msg: HistoryMessage,
    stamp: Option<Seq<char>>,
)
    requires
        first.len() == first_stamps.len(),
        second.len() == second_stamps.len(),
    ensures
        history_lines(first + second, first_stamps + second_stamps) == history_lines(
            first,
            first_stamps,
        ) + history_lines(second, second_stamps),
        ({
            let body = body_text(msg.message, msg.message_id@);
            let visible = exists|i: int|
                0 <= i < body.len() && !text::white_space(#[trigger] body[i]);
            let lines = history_lines(seq![msg], seq![stamp]);
            &&& visible ==> lines.len() == 1
            &&& visible && stamp is Some ==> lines[0] == "["@ + stamp->Some_0 + "] "@
                + identity_text(msg.sender, msg.user_id) + " 消息ID:"@ + msg.message_id@ + ": "@
                + body
            &&& visible && stamp is None ==> lines[0] == "["@ + "--:--"@ + "] "@ + identity_text(
                msg.sender,
                msg.user_id,
            ) + " 消息ID:"@ + msg.message_id@ + ": "@ + body
            &&& !visible ==> lines.len() == 0
        }),
{
    lemma_history_extends(first, first_stamps, second, second_stamps);
    let body = body_text(msg.message, msg.message_id@);
    text::law_blank_texts_are_white_space(body);
    reveal_with_fuel(history_lines, 2);
    assert(seq![msg].drop_last() =~= Seq::empty());
    assert(seq![stamp].drop_last() =~= Seq::empty());
    assert(seq![msg].last() == msg);
    assert(seq![stamp].last() == stamp);
}

proof fn lemma_history_extends(
    first: Seq<HistoryMessage>,
    first_stamps: Seq<Option<Seq<char>>>,
    second: Seq<HistoryMessage>,
    second_stamps: Seq<Option<Seq<char>>>,
)
    requires
        first.len() == first_stamps.len(),
        second.len() == second_stamps.len(),
    ensures
        history_lines(first + second, first_stamps + second_stamps) == history_lines(
            first,
            first_stamps,
        ) + history_lines(second, second_stamps),
    decreases second.len(),
{
    let all = first + second;
    let stamps = first_stamps + second_stamps;
    if second.len() == 0 {
        assert(all =~= first);
        assert(stamps =~= first_stamps);
        assert(history_lines(first, first_stamps) + history_lines(second, second_stamps)
            =~= history_lines(first, first_stamps));
    } else {
        lemma_history_extends(first, first_stamps, second.drop_last(), second_stamps.drop_last());
        assert(all.drop_last() =~= first + second.drop_last());
        assert(stamps.drop_last() =~= first_stamps + second_stamps.drop_last());
        assert(all.last() == second.last());
        assert(stamps.last() == second_stamps.last());
        assert(history_lines(all, stamps) =~= history_lines(first, first_stamps) + history_lines(
            second,
            second_stamps,
        ));
    }
}

/// A request that sends along a route goes to the chat of the route and to no
/// other, and carries the whole of the text as its one segment.
pub proof fn law_sent_messages_carry_the_text(r: ActionRequest, route: ReplyRoute, s: Seq<char>)
    requires
        requests(r, route_action(route, s)),
    ensures
        match route {
            ReplyRoute::Private { user_id } => {
                &&& r.action@ == "send_private_msg"@
                &&& r.params is Private
                &&& r.params->Private_user_id == user_id
                &&& r.params->Private_message@.len() == 1
                &&& r.params->Private_message@[0].segment_type@ == "text"@
                &&& r.params->Private_message@[0].data.text@ == s
            },
            ReplyRoute::Group { group_id } => {
                &&& r.action@ == "send_group_msg"@
                &&& r.params is Group
                &&& r.params->Group_group_id == group_id
                &&& r.params->Group_message@.len() == 1
                &&& r.params->Group_message@[0].segment_type@ == "text"@
                &&& r.params->Group_message@[0].data.text@ == s
            },
        },
{
    match r.params {
        ActionParams::Private { user_id, message } => {
            assert(segment_views(message@) == one_text(s));
            assert(segment_views(message@)[0] == one_text(s)[0]);
        },
        ActionParams::Group { group_id, message } => {
            assert(segment_views(message@) == one_text(s));
            assert(segment_views(message@)[0] == one_text(s)[0]);
        },
        _ => {},
    }
}

/// Every other request names its action and carries what it asks for.
pub proof fn law_requests_carry_what_they_ask(
    r: ActionRequest,
    id: i64,
    message_seq: i64,
    count: i64,
    s: Seq<char>,
)
    ensures
        requests(r, ActionView::GroupHistory { group_id: id, message_seq, count }) ==> r.action@
            == "get_group_msg_history"@ && r.params == (ActionParams::GroupHistory {
            group_id: id,
            message_seq,
            count,
        }),
        requests(r, ActionView::FriendHistory { user_id: id, message_seq, count }) ==> r.action@
            == "get_friend_msg_history"@ && r.params == (ActionParams::FriendHistory {
            user_id: id,
            message_seq,
            count,
        }),
        requests(r, ActionView::LoginInfo) ==> r.action@ == "get_login_info"@ && r.params
            is LoginInfo,
        requests(r, ActionView::GetMsg { message_id: id }) ==> r.action@ == "get_msg"@ && r.params
            == (ActionParams::GetMsg { message_id: id }),
        requests(r, ActionView::FetchPttText { message_id: s }) ==> r.action@
            == "fetch_ptt_text"@ && r.params is FetchPttText
            && r.params->FetchPttText_message_id@ == s,
{
}

/// A target names a private chat or a group by its number, written behind
/// `private:` or `group:`; nothing else is a target.
pub proof fn law_targets_name_chats(target: Seq<char>, digits: Seq<char>, n: i64)
    requires
        number::i64_of(digits) == Some(n),
    ensures
        route_of("private:"@ + digits) == Some(ReplyRoute::Private { user_id: n }),
        route_of("group:"@ + digits) == Some(ReplyRoute::Group { group_id: n }),
        route_of(target) matches Some(route) ==> exists|rest: Seq<char>| match route {
            ReplyRoute::Private { user_id } => target == #[trigger] ("private:"@ + rest)
                && number::i64_of(rest) == Some(user_id),
            ReplyRoute::Group { group_id } => target == ("group:"@ + rest) && number::i64_of(rest)
                == Some(group_id),
        },
        route_text(ReplyRoute::Private { user_id: n }) == "private:"@ + number::decimal(n as int),
        route_text(ReplyRoute::Group { group_id: n }) == "group:"@ + number::decimal(n as int),
{
    reveal_strlit("private:");
    reveal_strlit("group:");
    reveal_strlit("private");
    reveal_strlit("group");
    assert("private:"@ =~= "private"@.push(':'));
    assert("group:"@ =~= "group"@.push(':'));
    assert(!"private"@.contains(':'));
    assert(!"group"@.contains(':'));
    assert("private"@.len() != "group"@.len());
    text::law_splitting_cuts_at_the_first(target, ':', "private"@, digits);
    text::law_splitting_cuts_at_the_first(target, ':', "group"@, digits);
    if route_of(target) is Some {
        let rest = text::split_at_char(target, ':')->Some_0.1;
        match route_of(target)->Some_0 {
            ReplyRoute::Private { user_id } => {
                assert(target == "private:"@ + rest);
            },
            ReplyRoute::Group { group_id } => {
                assert(target == "group:"@ + rest);
                assert(("private:"@ + rest).len() == "private:"@.len() + rest.len());
            },
        }
    }
}

/// A history shows a time where the time of a message has a date, and then the
/// hour and the minute on a clock that is less than a day from UTC.
pub proof fn law_history_times_are_times_of_day(
    stamp: Option<Seq<char>>,
    time: i64,
    stamps: Seq<Option<Seq<char>>>,
    messages: Seq<HistoryMessage>,
    i: int,
)
    ensures
        can_be_time_of(stamp, time) ==> (stamp is Some <==> platform::has_date(time)),
        can_be_time_of(stamp, time) && stamp is Some ==> exists|offset: int|
            -86400 < offset < 86400 && stamp->Some_0 == #[trigger] platform::time_of_day(
                time,
                offset,
            ),
        are_times_of(stamps, messages) ==> stamps.len() == messages.len(),
        are_times_of(stamps, messages) && 0 <= i < stamps.len() ==> can_be_time_of(
            stamps[i],
            messages[i].time,
        ),
{
    if can_be_time_of(stamp, time) && stamp is Some {
        let offset = choose|offset: int|
            -86400 < offset < 86400 && stamp->Some_0 == platform::time_of_day(time, offset)
                && stamp->Some_0 == #[trigger] platform::calendar_text(time, "%H:%M"@, offset);
        assert(stamp->Some_0 == platform::time_of_day(time, offset));
    }
}

/// A history with given times is the lines of its messages, one below another,
/// and no message with a visible character is missing.
pub proof fn law_formatted_histories_hold_every_message(
    messages: Vec<HistoryMessage>,
    stamps: Vec<Option<String>>,
    r: String,
    i: int,
)
    requires
        stamps@.len() == messages@.len(),
        call_ensures(format_history_at, (&messages, &stamps), r),
    ensures
        r@ == text::joined(history_lines(messages@, stamp_views(stamps@)), "\n"@),
        stamp_views(stamps@).len() == stamps@.len(),
        0 <= i < stamps@.len() ==> (stamps@[i] matches Some(t) ==> stamp_views(stamps@)[i] == Some(
            t@,
        )),
        0 <= i < stamps@.len() && stamps@[i] is None ==> stamp_views(stamps@)[i] is None,
{
}

/// A message id is the text of a string or the digits of a number.
pub proof fn law_message_ids_are_shown(v: Value, r: String)
    requires
        call_ensures(json_value_to_string, (&v,), r),
    ensures
        v matches Value::String(s) ==> r@ == s@,
        v matches Value::Number(n) ==> r@ == n.text@,
        !(v is String) && !(v is Number) ==> r@.len() == 0,
{
}

} // verus!
