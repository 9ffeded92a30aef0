//! The chat tool of a conversation.

use vstd::prelude::*;
use vstd::string::*;

use crate::domain::conversation;
use crate::domain::conversation::{ConversationManager, Routed};
use crate::domain::permissions::ToolContext;
use crate::domain::session;
use crate::domain::tool;
use crate::domain::tool::{ParamsView, PropertyDef, Tool, ToolParams, Value};
use crate::text;

verus! {

/// What the `reply` tool says of itself.
pub const REPLY_DESCRIPTION: &'static str =
    "Send a message to the current chat. Your reply reaches the user only through this tool, so call it once per message and again for every message you want to send.\nYou can call this tool several times in one turn, for example to answer, then check a fact, then answer again.\nPeople in chat apps usually send short messages, one or two sentences at a time. If your reply is long, prefer a few short calls over one long text.\nCall this tool when you have something worth saying. If the user asks you to stay quiet, or you have nothing useful to add, say nothing and end the turn.\nTo send a message to another chat, use that adapter's send tool (such as onebot_send_msg).";

/// Replies to the conversation that the tool was made for.
#[derive(Debug)]
pub struct ReplyTool {
    pub conversation_id: String,
}

/// The parameters of the `reply` tool.
pub open spec fn reply_params() -> ParamsView {
    tool::needing(
        tool::no_params(),
        "content"@,
        tool::string_property("Message text to send"@),
    )
}

impl Tool for ReplyTool {
    open spec fn tool_name(&self) -> Seq<char> {
        "reply"@
    }

    open spec fn tool_description(&self) -> Seq<char> {
        REPLY_DESCRIPTION@
    }

    open spec fn tool_parameters(&self) -> ParamsView {
        reply_params()
    }

    fn name(&self) -> (r: &str) {
        "reply"
    }

    fn description(&self) -> (r: &str) {
        REPLY_DESCRIPTION
    }

    fn parameters(&self) -> (r: ToolParams) {
        ToolParams::none().needing("content", PropertyDef::string("Message text to send"))
    }
}

/// The string member of arguments, where it is not blank.
pub open spec fn text_argument(args: Seq<(String, Value)>, name: Seq<char>) -> Option<Seq<char>> {
    match tool::member(args, name) {
        Some(Value::String(s)) => if text::trim(s@).len() == 0 {
            None
        } else {
            Some(s@)
        },
        _ => None,
    }
}

/// The string member of arguments, where it is not blank.
pub fn find_text_argument(args: &Vec<(String, Value)>, name: &str) -> (r: Option<String>)
    ensures
        text::opt_text(r) == text_argument(args@, name@),
{
    match tool::find_member(args, name) {
        Some(Value::String(s)) => if text::is_blank(s.as_str()) {
            None
        } else {
            Some(s.clone())
        },
        _ => None,
    }
}

impl ReplyTool {
    pub fn new(conversation_id: &str) -> (r: Self)
        ensures
            r.conversation_id@ == conversation_id@,
    {
        ReplyTool { conversation_id: conversation_id.to_owned() }
    }

    /// Runs the tool: where the message goes and what the model is told.
    pub fn run(
        &self,
        args: &Vec<(String, Value)>,
        ctx: &ToolContext,
        manager: &ConversationManager,
    ) -> (r: Result<(Routed, String), String>)
        ensures
            match text_argument(args@, "content"@) {
                Some(content) => {
                    &&& r matches Ok(sent)
                    &&& sent.0.recipients@ == conversation::subscribed(
                        manager@.outboxes,
                        conversation::prefix_of(self.conversation_id@),
                    )
                    &&& sent.0.event@ == (conversation::EventView::Outbound {
                        conversation_id: Some(self.conversation_id@),
                        target: None,
                        content,
                        request_id: text::opt_text(ctx.request_id),
                    })
                    &&& sent.1@ == "已发送"@
                },
                None => r matches Err(e) && e@ == "missing or empty 'content'"@,
            },
    {
        match find_text_argument(args, "content") {
            Some(content) => Ok(
                (
                    manager.route_outbound(
                        Some(self.conversation_id.as_str()),
                        None,
                        content.as_str(),
                        session::copy_opt(&ctx.request_id),
                    ),
                    "已发送".to_owned(),
                ),
            ),
            None => Err("missing or empty 'content'".to_owned()),
        }
    }
}

/// A text argument is the whole of the string under its name; a string without
/// a visible character, another value and a missing one are none.
pub proof fn law_text_arguments_are_whole(args: Seq<(String, Value)>, name: Seq<char>)
    ensures
        text_argument(args, name) matches Some(s) ==> {
            &&& tool::member(args, name) is Some
            &&& tool::member(args, name)->Some_0 is String
            &&& tool::member(args, name)->Some_0->String_0@ == s
        },
        tool::member(args, name) matches Some(Value::String(s)) ==> (text_argument(
            args,
            name,
        ) is Some <==> exists|j: int| 0 <= j < s@.len() && !text::white_space(#[trigger] s@[j])),
        tool::member(args, name) is None ==> text_argument(args, name) is None,
{
    match tool::member(args, name) {
        Some(Value::String(s)) => {
            text::law_blank_texts_are_white_space(s@);
        },
        _ => {},
    }
}

/// A reply goes out whole, in the conversation that the tool was made for; it is
/// refused exactly where its content shows nothing.
pub proof fn law_replies_go_out_whole(
    t: ReplyTool,
    args: Vec<(String, Value)>,
    ctx: ToolContext,
    manager: ConversationManager,
    r: Result<(Routed, String), String>,
)
    requires
        call_ensures(ReplyTool::run, (&t, &args, &ctx, &manager), r),
    ensures
        r is Ok <==> text_argument(args@, "content"@) is Some,
        r matches Ok(sent) ==> {
            &&& sent.0.recipients@ == conversation::subscribed(
                manager@.outboxes,
                conversation::prefix_of(t.conversation_id@),
            )
            &&& sent.0.event is Outbound
            &&& sent.0.event->Outbound_0.content@ == tool::member(
                args@,
                "content"@,
            )->Some_0->String_0@
            &&& sent.0.event->Outbound_0.conversation_id is Some
            &&& sent.0.event->Outbound_0.conversation_id->Some_0@ == t.conversation_id@
            &&& sent.0.event->Outbound_0.target is None
            &&& ctx.request_id matches Some(id) ==> sent.0.event->Outbound_0.request_id is Some
                && sent.0.event->Outbound_0.request_id->Some_0@ == id@
        },
{
    law_text_arguments_are_whole(args@, "content"@);
}

} // verus!
