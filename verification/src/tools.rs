//! All tools of the program, and their registration.

use vstd::prelude::*;
use vstd::string::*;

use crate::domain::tool;
use crate::domain::tool::{DeclaredTool, ParamsView, Tool, ToolParams, ToolRegistry};
use crate::infra::builtin::{FileReadTool, FileWriteTool, ScheduleTool, StatusTool};
use crate::infra::chat::ReplyTool;
use crate::onebot::bridge::OneBotBridge;
use crate::onebot::tools::{OneBotGetContentTool, OneBotGetMsgHistoryTool, OneBotSendMsgTool,
    OneBotStatusTool, OneBotVoiceTextTool};

verus! {

/// Any of the tools.
#[derive(Debug)]
pub enum AnyTool {
    FileRead(FileReadTool),
    FileWrite(FileWriteTool),
    Schedule(ScheduleTool),
    Status(StatusTool),
    Reply(ReplyTool),
    SendMsg(OneBotSendMsgTool),
    MsgHistory(OneBotGetMsgHistoryTool),
    Content(OneBotGetContentTool),
    OneBotStatus(OneBotStatusTool),
    VoiceText(OneBotVoiceTextTool),
    Declared(DeclaredTool),
}

impl Tool for AnyTool {
    open spec fn tool_name(&self) -> Seq<char> {
        match *self {
            AnyTool::FileRead(t) => t.tool_name(),
            AnyTool::FileWrite(t) => t.tool_name(),
            AnyTool::Schedule(t) => t.tool_name(),
            AnyTool::Status(t) => t.tool_name(),
            AnyTool::Reply(t) => t.tool_name(),
            AnyTool::SendMsg(t) => t.tool_name(),
            AnyTool::MsgHistory(t) => t.tool_name(),
            AnyTool::Content(t) => t.tool_name(),
            AnyTool::OneBotStatus(t) => t.tool_name(),
            AnyTool::VoiceText(t) => t.tool_name(),
            AnyTool::Declared(t) => t.tool_name(),
        }
    }

    open spec fn tool_description(&self) -> Seq<char> {
        match *self {
            AnyTool::FileRead(t) => t.tool_description(),
            AnyTool::FileWrite(t) => t.tool_description(),
            AnyTool::Schedule(t) => t.tool_description(),
            AnyTool::Status(t) => t.tool_description(),
            AnyTool::Reply(t) => t.tool_description(),
            AnyTool::SendMsg(t) => t.tool_description(),
            AnyTool::MsgHistory(t) => t.tool_description(),
            AnyTool::Content(t) => t.tool_description(),
            AnyTool::OneBotStatus(t) => t.tool_description(),
            AnyTool::VoiceText(t) => t.tool_description(),
            AnyTool::Declared(t) => t.tool_description(),
        }
    }

    open spec fn tool_parameters(&self) -> ParamsView {
        match *self {
            AnyTool::FileRead(t) => t.tool_parameters(),
            AnyTool::FileWrite(t) => t.tool_parameters(),
            AnyTool::Schedule(t) => t.tool_parameters(),
            AnyTool::Status(t) => t.tool_parameters(),
            AnyTool::Reply(t) => t.tool_parameters(),
            AnyTool::SendMsg(t) => t.tool_parameters(),
            AnyTool::MsgHistory(t) => t.tool_parameters(),
            AnyTool::Content(t) => t.tool_parameters(),
            AnyTool::OneBotStatus(t) => t.tool_parameters(),
            AnyTool::VoiceText(t) => t.tool_parameters(),
            AnyTool::Declared(t) => t.tool_parameters(),
        }
    }

    fn name(&self) -> (r: &str) {
        match self {
            AnyTool::FileRead(t) => t.name(),
            AnyTool::FileWrite(t) => t.name(),
            AnyTool::Schedule(t) => t.name(),
            AnyTool::Status(t) => t.name(),
            AnyTool::Reply(t) => t.name(),
            AnyTool::SendMsg(t) => t.name(),
            AnyTool::MsgHistory(t) => t.name(),
            AnyTool::Content(t) => t.name(),
            AnyTool::OneBotStatus(t) => t.name(),
            AnyTool::VoiceText(t) => t.name(),
            AnyTool::Declared(t) => t.name(),
        }
    }

    fn description(&self) -> (r: &str) {
        match self {
            AnyTool::FileRead(t) => t.description(),
            AnyTool::FileWrite(t) => t.description(),
            AnyTool::Schedule(t) => t.description(),
            AnyTool::Status(t) => t.description(),
            AnyTool::Reply(t) => t.description(),
            AnyTool::SendMsg(t) => t.description(),
            AnyTool::MsgHistory(t) => t.description(),
            AnyTool::Content(t) => t.description(),
            AnyTool::OneBotStatus(t) => t.description(),
            AnyTool::VoiceText(t) => t.description(),
            AnyTool::Declared(t) => t.description(),
        }
    }

    fn parameters(&self) -> (r: ToolParams) {
        match self {
            AnyTool::FileRead(t) => t.parameters(),
            AnyTool::FileWrite(t) => t.parameters(),
            AnyTool::Schedule(t) => t.parameters(),
            AnyTool::Status(t) => t.parameters(),
            AnyTool::Reply(t) => t.parameters(),
            AnyTool::SendMsg(t) => t.parameters(),
            AnyTool::MsgHistory(t) => t.parameters(),
            AnyTool::Content(t) => t.parameters(),
            AnyTool::OneBotStatus(t) => t.parameters(),
            AnyTool::VoiceText(t) => t.parameters(),
            AnyTool::Declared(t) => t.parameters(),
        }
    }
}

/// What registering tools one after another leads to: every tool is added,
/// until one whose name is taken stops it.
pub open spec fn registering(m: Map<Seq<char>, AnyTool>, tools: Seq<AnyTool>) -> (
    Map<Seq<char>, AnyTool>,
    Option<Seq<char>>,
)
    decreases tools.len(),
{
    if tools.len() == 0 {
        (m, None)
    } else {
        let name = tools[0].tool_name();
        if m.dom().contains(name) {
            (m, Some(name))
        } else {
            registering(m.insert(name, tools[0]), tools.drop_first())
        }
    }
}

/// Registers tools one after another.
pub fn register_all(registry: &mut ToolRegistry<AnyTool>, tools: Vec<AnyTool>) -> (r: Result<
    (),
    String,
>)
    requires
        old(registry).wf(),
    ensures
        final(registry).wf(),
        final(registry)@ == registering(old(registry)@, tools@).0,
        match r {
            Ok(()) => registering(old(registry)@, tools@).1 is None,
            Err(e) => registering(old(registry)@, tools@).1 matches Some(name) && e@
                == tool::duplicate_tool_text(name),
        },
{
    let mut rest = tools;
    let ghost outcome = registering(registry@, tools@);
    while rest.len() > 0
        invariant
            registry.wf(),
            outcome == registering(registry@, rest@),
            outcome == registering(old(registry)@, tools@),
        decreases rest@.len(),
    {
        let ghost now = rest@;
        let next = rest.remove(0);
        proof {
            assert(next == now[0]);
            assert(rest@ =~= now.drop_first());
        }
        match registry.register(next) {
            Ok(()) => {},
            Err(e) => {
                return Err(e);
            },
        }
    }
    Ok(())
}

/// The names of tools.
pub open spec fn names_of(tools: Seq<AnyTool>) -> Seq<Seq<char>> {
    tools.map_values(|t: AnyTool| t.tool_name())
}

/// Tools with distinct names can be registered together exactly when none of
/// their names is taken; the registry then holds them beside what it held.
pub proof fn law_free_names_register(m: Map<Seq<char>, AnyTool>, tools: Seq<AnyTool>)
    requires
        names_of(tools).no_duplicates(),
    ensures
        registering(m, tools).1 is None <==> forall|i: int|
            0 <= i < tools.len() ==> !m.dom().contains(#[trigger] tools[i].tool_name()),
        registering(m, tools).1 is None ==> forall|i: int|
            0 <= i < tools.len() ==> registering(m, tools).0.dom().contains(
                #[trigger] tools[i].tool_name(),
            ) && registering(m, tools).0[tools[i].tool_name()] == tools[i],
        forall|n: Seq<char>| #[trigger]
            m.dom().contains(n) ==> registering(m, tools).0.dom().contains(n) && registering(
                m,
                tools,
            ).0[n] == m[n],
        forall|n: Seq<char>| #[trigger]
            registering(m, tools).0.dom().contains(n) ==> m.dom().contains(n) || names_of(
                tools,
            ).contains(n),
    decreases tools.len(),
{
    if tools.len() > 0 {
        let name = tools[0].tool_name();
        let names = names_of(tools);
        let rest = tools.drop_first();
        assert(names[0] == name);
        if !m.dom().contains(name) {
            let next = m.insert(name, tools[0]);
            assert forall|i: int, j: int|
                0 <= i < names_of(rest).len() && 0 <= j < names_of(rest).len() && i
                    != j implies names_of(rest)[i] != names_of(rest)[j] by {
                assert(names_of(rest)[i] == names[i + 1]);
                assert(names_of(rest)[j] == names[j + 1]);
            }
            law_free_names_register(next, rest);
            let after = registering(next, rest);
            assert(after == registering(m, tools));
            assert forall|i: int| 0 <= i < rest.len() implies (#[trigger] rest[i]).tool_name()
                != name by {
                assert(rest[i] == tools[i + 1]);
                assert(names[i + 1] == tools[i + 1].tool_name());
            }
            if after.1 is None {
                assert forall|i: int| 0 <= i < tools.len() implies !m.dom().contains(
                    #[trigger] tools[i].tool_name(),
                ) && after.0.dom().contains(tools[i].tool_name())
                    && after.0[tools[i].tool_name()] == tools[i] by {
                    if i > 0 {
                        assert(rest[i - 1] == tools[i]);
                    } else {
                        assert(next.dom().contains(name));
                    }
                }
            } else {
                let i = choose|i: int|
                    0 <= i < rest.len() && next.dom().contains(#[trigger] rest[i].tool_name());
                assert(rest[i] == tools[i + 1]);
                assert(m.dom().contains(tools[i + 1].tool_name()));
            }
            assert forall|n: Seq<char>| #[trigger] m.dom().contains(n) implies after.0.dom().contains(
                n,
            ) && after.0[n] == m[n] by {
                assert(next.dom().contains(n));
            }
            assert forall|n: Seq<char>| #[trigger]
                after.0.dom().contains(n) implies m.dom().contains(n) || names.contains(n) by {
                if next.dom().contains(n) {
                    if n == name {
                        assert(names[0] == n);
                    }
                } else {
                    let i = choose|i: int| 0 <= i < names_of(rest).len() && names_of(rest)[i] == n;
                    assert(names[i + 1] == n);
                }
            }
        }
    }
}

/// Whether tools are the built-in ones, working in a directory.
pub open spec fn are_builtin(tools: Seq<AnyTool>, personas_dir: Seq<String>) -> bool {
    &&& tools.len() == 4
    &&& tools[0] matches AnyTool::FileRead(t) && t.personas_dir@ == personas_dir
    &&& tools[1] matches AnyTool::FileWrite(t) && t.personas_dir@ == personas_dir
    &&& tools[2] is Schedule
    &&& tools[3] is Status
}

/// Registers the built-in tools.
pub fn register_builtin_tools(registry: &mut ToolRegistry<AnyTool>, personas_dir: &Vec<String>) -> (r:
    Result<(), String>)
    requires
        old(registry).wf(),
    ensures
        final(registry).wf(),
        exists|tools: Seq<AnyTool>| #[trigger]
            are_builtin(tools, personas_dir@) && registered(
                old(registry)@,
                tools,
                final(registry)@,
                r,
            ),
{
    let mut tools: Vec<AnyTool> = Vec::new();
    tools.push(AnyTool::FileRead(FileReadTool::new(tool::copy_texts(personas_dir))));
    tools.push(AnyTool::FileWrite(FileWriteTool::new(tool::copy_texts(personas_dir))));
    tools.push(AnyTool::Schedule(ScheduleTool::new()));
    tools.push(AnyTool::Status(StatusTool::new()));
    let ghost all = tools@;
    assert(are_builtin(all, personas_dir@));
    register_all(registry, tools)
}

/// What a registration of tools shows.
pub open spec fn registered(
    before: Map<Seq<char>, AnyTool>,
    tools: Seq<AnyTool>,
    after: Map<Seq<char>, AnyTool>,
    r: Result<(), String>,
) -> bool {
    &&& after == registering(before, tools).0
    &&& match r {
        Ok(()) => registering(before, tools).1 is None,
        Err(e) => registering(before, tools).1 matches Some(name) && e@
            == tool::duplicate_tool_text(name),
    }
}

/// Whether tools are the chat tool of a conversation.
pub open spec fn are_chat(tools: Seq<AnyTool>, conversation_id: Seq<char>) -> bool {
    &&& tools.len() == 1
    &&& tools[0] matches AnyTool::Reply(t) && t.conversation_id@ == conversation_id
}

/// Registers the chat tool of a conversation.
pub fn register_chat_tools(registry: &mut ToolRegistry<AnyTool>, conversation_id: &str) -> (r:
    Result<(), String>)
    requires
        old(registry).wf(),
    ensures
        final(registry).wf(),
        exists|tools: Seq<AnyTool>| #[trigger]
            are_chat(tools, conversation_id@) && registered(
                old(registry)@,
                tools,
                final(registry)@,
                r,
            ),
{
    let mut tools: Vec<AnyTool> = Vec::new();
    tools.push(AnyTool::Reply(ReplyTool::new(conversation_id)));
    let ghost all = tools@;
    assert(are_chat(all, conversation_id@));
    register_all(registry, tools)
}

/// Whether tools are those of the OneBot adapter.
pub open spec fn are_onebot(tools: Seq<AnyTool>, ws_url: Seq<char>) -> bool {
    &&& tools.len() == 5
    &&& tools[0] is SendMsg
    &&& tools[1] is MsgHistory
    &&& tools[2] is Content
    &&& tools[3] matches AnyTool::OneBotStatus(t) && t.ws_url@ == ws_url
    &&& tools[4] is VoiceText
}

impl OneBotBridge {
    /// Registers the tools of the adapter.
    pub fn register_tools(&self, registry: &mut ToolRegistry<AnyTool>) -> (r: Result<(), String>)
        requires
            old(registry).wf(),
        ensures
            final(registry).wf(),
            exists|tools: Seq<AnyTool>| #[trigger]
                are_onebot(tools, self.cfg.ws_url@) && registered(
                    old(registry)@,
                    tools,
                    final(registry)@,
                    r,
                ),
    {
        let mut tools: Vec<AnyTool> = Vec::new();
        tools.push(AnyTool::SendMsg(OneBotSendMsgTool {  }));
        tools.push(AnyTool::MsgHistory(OneBotGetMsgHistoryTool::new()));
        tools.push(AnyTool::Content(OneBotGetContentTool::new()));
        tools.push(AnyTool::OneBotStatus(OneBotStatusTool::new(self.cfg.ws_url.clone())));
        tools.push(AnyTool::VoiceText(OneBotVoiceTextTool::new()));
        let ghost all = tools@;
        assert(are_onebot(all, self.cfg.ws_url@));
        register_all(registry, tools)
    }
}

/// The built-in tools, the chat tool and the OneBot tools never conflict: in
/// an empty registry all of them can be registered, one family after another.
pub proof fn law_tool_families_do_not_conflict(
    builtin: Seq<AnyTool>,
    chat: Seq<AnyTool>,
    onebot: Seq<AnyTool>,
    personas_dir: Seq<String>,
    conversation_id: Seq<char>,
    ws_url: Seq<char>,
)
    requires
        are_builtin(builtin, personas_dir),
        are_chat(chat, conversation_id),
        are_onebot(onebot, ws_url),
    ensures
        registering(Map::empty(), builtin + chat + onebot).1 is None,
{
    reveal_strlit("file_read");
    reveal_strlit("file_write");
    reveal_strlit("schedule");
    reveal_strlit("status");
    reveal_strlit("reply");
    reveal_strlit("onebot_send_msg");
    reveal_strlit("onebot_get_msg_history");
    reveal_strlit("onebot_get_content");
    reveal_strlit("onebot_status");
    reveal_strlit("onebot_voice_text");
    let all = builtin + chat + onebot;
    let names = names_of(all);
    assert(names =~= seq![
        "file_read"@,
        "file_write"@,
        "schedule"@,
        "status"@,
        "reply"@,
        "onebot_send_msg"@,
        "onebot_get_msg_history"@,
        "onebot_get_content"@,
        "onebot_status"@,
        "onebot_voice_text"@,
    ]);
    assert forall|i: int, j: int|
        0 <= i < names.len() && 0 <= j < names.len() && i != j implies names[i] != names[j] by {
        lemma_lengths_apart(names, i, j);
    }
    law_free_names_register(Map::empty(), all);
}

proof fn lemma_lengths_apart(names: Seq<Seq<char>>, i: int, j: int)
    requires
        names == seq![
            "file_read"@,
            "file_write"@,
            "schedule"@,
            "status"@,
            "reply"@,
            "onebot_send_msg"@,
            "onebot_get_msg_history"@,
            "onebot_get_content"@,
            "onebot_status"@,
            "onebot_voice_text"@,
        ],
        0 <= i < 10,
        0 <= j < 10,
        i != j,
    ensures
        names[i] != names[j],
{
    reveal_strlit("file_read");
    reveal_strlit("file_write");
    reveal_strlit("schedule");
    reveal_strlit("status");
    reveal_strlit("reply");
    reveal_strlit("onebot_send_msg");
    reveal_strlit("onebot_get_msg_history");
    reveal_strlit("onebot_get_content");
    reveal_strlit("onebot_status");
    reveal_strlit("onebot_voice_text");
    assert(names[0].len() == 9 && names[1].len() == 10 && names[2].len() == 8);
    assert(names[3].len() == 6 && names[4].len() == 5 && names[5].len() == 15);
    assert(names[6].len() == 22 && names[7].len() == 18 && names[8].len() == 13);
    assert(names[9].len() == 17);
}

/// Whether parameters are strings under these names, all of them required.
pub open spec fn needs_strings(params: ParamsView, names: Seq<Seq<char>>) -> bool {
    &&& params.schema_type == "object"@
    &&& params.required == names
    &&& params.properties.len() == names.len()
    &&& forall|i: int|
        0 <= i < names.len() ==> (#[trigger] params.properties[i]).0 == names[i]
            && params.properties[i].1.prop_type == "string"@
            && params.properties[i].1.choices.len() == 0
}

/// Every tool goes by its name and declares the arguments that it reads, each
/// under the name that it is read by.
pub proof fn law_tools_declare_what_they_read(t: AnyTool)
    ensures
        match t {
            AnyTool::FileRead(x) => t.tool_name() == "file_read"@ && needs_strings(
                t.tool_parameters(),
                seq!["path"@],
            ),
            AnyTool::FileWrite(x) => t.tool_name() == "file_write"@ && needs_strings(
                t.tool_parameters(),
                seq!["path"@, "content"@],
            ),
            AnyTool::Schedule(x) => t.tool_name() == "schedule"@ && needs_strings(
                t.tool_parameters(),
                seq!["message"@, "trigger_at"@],
            ),
            AnyTool::Status(x) => t.tool_name() == "status"@ && needs_strings(
                t.tool_parameters(),
                Seq::empty(),
            ),
            AnyTool::Reply(x) => t.tool_name() == "reply"@ && needs_strings(
                t.tool_parameters(),
                seq!["content"@],
            ),
            AnyTool::SendMsg(x) => t.tool_name() == "onebot_send_msg"@ && needs_strings(
                t.tool_parameters(),
                seq!["target"@, "content"@],
            ),
            AnyTool::MsgHistory(x) => {
                &&& t.tool_name() == "onebot_get_msg_history"@
                &&& t.tool_parameters().required == seq!["target"@]
                &&& t.tool_parameters().properties.len() == 2
                &&& t.tool_parameters().properties[0].0 == "target"@
                &&& t.tool_parameters().properties[0].1.prop_type == "string"@
                &&& t.tool_parameters().properties[1].0 == "limit"@
                &&& t.tool_parameters().properties[1].1.prop_type == "integer"@
            },
            AnyTool::Content(x) => t.tool_name() == "onebot_get_content"@ && needs_strings(
                t.tool_parameters(),
                seq!["message_id"@],
            ),
            AnyTool::OneBotStatus(x) => t.tool_name() == "onebot_status"@ && needs_strings(
                t.tool_parameters(),
                Seq::empty(),
            ),
            AnyTool::VoiceText(x) => t.tool_name() == "onebot_voice_text"@ && needs_strings(
                t.tool_parameters(),
                seq!["message_id"@],
            ),
            AnyTool::Declared(x) => t.tool_name() == x.name@ && t.tool_description()
                == x.description@ && t.tool_parameters() == x.parameters@,
        },
{
    match t {
        AnyTool::FileRead(x) => {
            assert(t.tool_parameters().required =~= seq!["path"@]);
        },
        AnyTool::FileWrite(x) => {
            assert(t.tool_parameters().required =~= seq!["path"@, "content"@]);
        },
        AnyTool::Schedule(x) => {
            assert(t.tool_parameters().required =~= seq!["message"@, "trigger_at"@]);
        },
        AnyTool::Reply(x) => {
            assert(t.tool_parameters().required =~= seq!["content"@]);
        },
        AnyTool::SendMsg(x) => {
            assert(t.tool_parameters().required =~= seq!["target"@, "content"@]);
        },
        AnyTool::MsgHistory(x) => {
            assert(t.tool_parameters().required =~= seq!["target"@]);
        },
        AnyTool::Content(x) => {
            assert(t.tool_parameters().required =~= seq!["message_id"@]);
        },
        AnyTool::VoiceText(x) => {
            assert(t.tool_parameters().required =~= seq!["message_id"@]);
        },
        _ => {},
    }
}

/// The families hold their tools, each made with what it was given.
pub proof fn law_families_hold_their_tools(
    tools: Seq<AnyTool>,
    personas_dir: Seq<String>,
    conversation_id: Seq<char>,
    ws_url: Seq<char>,
)
    ensures
        are_builtin(tools, personas_dir) ==> names_of(tools) == seq![
            "file_read"@,
            "file_write"@,
            "schedule"@,
            "status"@,
        ] && tools[0]->FileRead_0.personas_dir@ == personas_dir
            && tools[1]->FileWrite_0.personas_dir@ == personas_dir,
        are_chat(tools, conversation_id) ==> names_of(tools) == seq!["reply"@]
            && tools[0]->Reply_0.conversation_id@ == conversation_id,
        are_onebot(tools, ws_url) ==> names_of(tools) == seq![
            "onebot_send_msg"@,
            "onebot_get_msg_history"@,
            "onebot_get_content"@,
            "onebot_status"@,
            "onebot_voice_text"@,
        ] && tools[3]->OneBotStatus_0.ws_url@ == ws_url,
{
    if are_builtin(tools, personas_dir) {
        assert(names_of(tools) =~= seq![
            "file_read"@,
            "file_write"@,
            "schedule"@,
            "status"@,
        ]);
    }
    if are_chat(tools, conversation_id) {
        assert(names_of(tools) =~= seq!["reply"@]);
    }
    if are_onebot(tools, ws_url) {
        assert(names_of(tools) =~= seq![
            "onebot_send_msg"@,
            "onebot_get_msg_history"@,
            "onebot_get_content"@,
            "onebot_status"@,
            "onebot_voice_text"@,
        ]);
    }
}

} // verus!
