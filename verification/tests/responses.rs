use nota::domain::llm::{LlmItem, MessageRole as LlmRole, ToolCall as LlmToolCall, ToolDef};
use nota::domain::session::{MessageRole, SessionItem, ToolCall, ToolCallKind};
use nota::domain::tool::ToolParams;
use nota::infra::llm;
use nota::llm::responses::{
    api_error, build_instructions, build_responses_tools, read_response, to_responses_input,
    wire_role, OpenAiLlm, ResponsesContentPart, ResponsesInputItem, ResponsesOutputItem,
    LlmResponse, ResponsesOutputPart, ResponsesResponse, ResponsesTool,
};

fn msg(role: MessageRole, content: &str) -> SessionItem {
    SessionItem::Message { role, content: content.to_string() }
}

fn llm_msg(role: LlmRole, content: &str) -> LlmItem {
    LlmItem::Message { role, content: content.to_string() }
}

fn call(id: &str, name: &str) -> SessionItem {
    SessionItem::ToolCall(ToolCall {
        id: id.to_string(),
        kind: ToolCallKind::FunctionCall,
        name: Some(name.to_string()),
        arguments: Some("{}".to_string()),
    })
}

fn output(id: &str, text: &str) -> SessionItem {
    SessionItem::ToolCallOutput { call_id: id.to_string(), output: text.to_string() }
}

fn types(wire: &[ResponsesInputItem]) -> Vec<&'static str> {
    wire.iter()
        .map(|item| match item {
            ResponsesInputItem::Message { .. } => "message",
            ResponsesInputItem::FunctionCall { .. } => "function_call",
            ResponsesInputItem::FunctionCallOutput { .. } => "function_call_output",
        })
        .collect()
}

fn check_pairing(wire: Vec<ResponsesInputItem>) {
    assert_eq!(
        types(&wire),
        vec![
            "message",
            "function_call",
            "function_call_output",
            "function_call",
            "function_call_output",
        ]
    );
    assert_eq!(wire.len(), 5);
    assert_eq!(
        wire[1],
        ResponsesInputItem::FunctionCall {
            call_id: "call_A".to_string(),
            name: "foo".to_string(),
            arguments: "{}".to_string(),
        }
    );
    assert_eq!(
        wire[2],
        ResponsesInputItem::FunctionCallOutput {
            call_id: "call_A".to_string(),
            output: "result A".to_string(),
        }
    );
}

#[test]
fn responses_responses_input_keeps_call_and_output_pairing() {
    let items = vec![
        msg(MessageRole::User, "hi"),
        call("call_A", "foo"),
        output("call_A", "result A"),
        call("call_B", "bar"),
        output("call_B", "result B"),
    ];
    check_pairing(to_responses_input(&items));
}

#[test]
fn mod_responses_input_keeps_call_and_output_pairing() {
    let function = |id: &str, name: &str| {
        LlmItem::FunctionCall(LlmToolCall {
            id: id.to_string(),
            name: name.to_string(),
            arguments: "{}".to_string(),
        })
    };
    let result = |id: &str, text: &str| LlmItem::FunctionCallOutput {
        call_id: id.to_string(),
        output: text.to_string(),
    };
    let items = vec![
        llm_msg(LlmRole::User, "hi"),
        function("call_A", "foo"),
        result("call_A", "result A"),
        function("call_B", "bar"),
        result("call_B", "result B"),
    ];
    check_pairing(llm::to_responses_input(&items));
}

fn check_shape(wire: Vec<ResponsesInputItem>) {
    assert_eq!(
        wire,
        vec![
            ResponsesInputItem::Message {
                role: "user".to_string(),
                content: vec![ResponsesContentPart::InputText { text: "hi".to_string() }],
            },
            ResponsesInputItem::Message {
                role: "assistant".to_string(),
                content: vec![ResponsesContentPart::OutputText { text: "hello".to_string() }],
            },
        ]
    );
}

#[test]
fn responses_responses_input_serializes_with_expected_shape() {
    check_shape(to_responses_input(&vec![
        msg(MessageRole::User, "hi"),
        msg(MessageRole::Assistant, "hello"),
    ]));
}

#[test]
fn mod_responses_input_serializes_with_expected_shape() {
    check_shape(llm::to_responses_input(&vec![
        llm_msg(LlmRole::User, "hi"),
        llm_msg(LlmRole::Assistant, "hello"),
    ]));
}

fn weather() -> Vec<ToolDef> {
    vec![ToolDef {
        name: "get_weather".to_string(),
        description: "Get the weather".to_string(),
        parameters: ToolParams::object(Vec::new(), Vec::new()),
    }]
}

fn check_web_search(tools: Vec<ResponsesTool>) {
    assert_eq!(tools.len(), 2);
    match &tools[0] {
        ResponsesTool::Function { name, description, parameters } => {
            assert_eq!(name, "get_weather");
            assert_eq!(description, "Get the weather");
            assert_eq!(parameters.schema_type, "object");
            assert!(parameters.properties.is_empty());
            assert!(parameters.required.is_empty());
        }
        ResponsesTool::WebSearch => panic!("expected a function"),
    }
    assert!(matches!(tools[1], ResponsesTool::WebSearch));
}

#[test]
fn responses_responses_tools_include_web_search_by_default() {
    check_web_search(build_responses_tools(&weather(), true));
}

#[test]
fn mod_responses_tools_include_web_search_by_default() {
    let request = OpenAiLlm::new("https://example.com/v1", "k", "m", true).request(
        "",
        &vec![],
        &weather(),
    );
    check_web_search(request.tools.unwrap());
}

#[test]
fn responses_responses_tools_omit_web_search_when_disabled() {
    assert!(build_responses_tools(&vec![], false).is_empty());
}

#[test]
fn mod_responses_tools_omit_web_search_when_disabled() {
    let request = OpenAiLlm::new("https://example.com/v1", "k", "m", false).request(
        "",
        &vec![],
        &vec![],
    );
    assert!(request.tools.is_none());
}

#[test]
fn input_emits_context_as_system_message() {
    let items = vec![
        msg(MessageRole::Context, "# solo.md\npersona"),
        msg(MessageRole::User, "hi"),
    ];
    let wire = to_responses_input(&items);
    assert_eq!(wire.len(), 2);
    assert!(matches!(
        &wire[0],
        ResponsesInputItem::Message { role, .. } if role == "system"
    ));
    assert!(matches!(
        &wire[1],
        ResponsesInputItem::Message { role, .. } if role == "user"
    ));
}

#[test]
fn context_serializes_as_system_input_message() {
    let wire = to_responses_input(&vec![msg(MessageRole::Context, "# solo.md\npersona")]);
    assert_eq!(
        wire,
        vec![ResponsesInputItem::Message {
            role: "system".to_string(),
            content: vec![ResponsesContentPart::InputText {
                text: "# solo.md\npersona".to_string(),
            }],
        }]
    );
}

#[test]
fn instructions_come_from_system_param_only() {
    assert_eq!(build_instructions("You are Nota.").as_deref(), Some("You are Nota."));
    assert_eq!(build_instructions("   "), None);
    assert_eq!(llm::build_instructions("   ").as_deref(), Some("   "));
    assert_eq!(llm::build_instructions(""), None);
}

#[test]
fn roles_serialize_as_numbers_with_zero_reserved() {
    assert_eq!(MessageRole::User.number(), 1);
    assert_eq!(MessageRole::Assistant.number(), 2);
    assert_eq!(MessageRole::Context.number(), 3);

    assert_eq!(MessageRole::try_from(2).unwrap(), MessageRole::Assistant);
    assert!(MessageRole::try_from(0).is_err());
    assert!(MessageRole::try_from(4).is_err());
    assert!(MessageRole::try_from(9).is_err());
    assert_eq!(MessageRole::try_from(9).unwrap_err().message(), "invalid message role: 9");
}

#[test]
fn call_kinds_are_stored_as_numbers() {
    assert_eq!(ToolCallKind::FunctionCall.number(), 1);
    assert_eq!(ToolCallKind::WebSearchCall.number(), 2);
    assert_eq!(ToolCallKind::try_from(1).unwrap(), ToolCallKind::FunctionCall);
    assert_eq!(ToolCallKind::try_from(2).unwrap(), ToolCallKind::WebSearchCall);
    assert_eq!(
        ToolCallKind::try_from(0).unwrap_err().message(),
        "invalid tool call kind: 0"
    );
}

fn text_part(text: &str) -> ResponsesOutputPart {
    ResponsesOutputPart::OutputText { text: text.to_string() }
}

fn function(id: Option<&str>, call_id: Option<&str>, name: &str, arguments: &str) -> ResponsesOutputItem {
    ResponsesOutputItem::FunctionCall {
        id: id.map(str::to_string),
        call_id: call_id.map(str::to_string),
        name: name.to_string(),
        arguments: arguments.to_string(),
    }
}

fn sample() -> ResponsesResponse {
    ResponsesResponse {
        id: None,
        output: vec![
            ResponsesOutputItem::Message { content: vec![text_part("hi there")] },
            function(Some("fc_1"), Some("call_1"), "get_weather", "{\"city\":\"sh\"}"),
            function(Some("fc_2"), None, "other", "{}"),
            ResponsesOutputItem::Unknown,
        ],
        output_text: None,
    }
}

#[test]
fn responses_parses_responses_output() {
    let r = read_response(sample());
    assert_eq!(r.content.as_deref(), Some("hi there"));
    assert_eq!(r.tool_calls.len(), 2);
    assert_eq!(r.tool_calls[0].id, "call_1");
    assert_eq!(r.tool_calls[1].id, "fc_2");
}

#[test]
fn mod_parses_responses_output() {
    let r = read_response(sample());
    assert_eq!(r.content.unwrap(), "hi there");
    let names: Vec<&str> = r.tool_calls.iter().map(|c| c.name.as_deref().unwrap()).collect();
    assert_eq!(names, vec!["get_weather", "other"]);
    assert!(r.tool_calls.iter().all(|c| c.kind == ToolCallKind::FunctionCall));
}

#[test]
fn answers_fall_back_to_the_provided_text() {
    let read = |output, output_text: Option<&str>| {
        read_response(ResponsesResponse {
            id: Some("r".to_string()),
            output,
            output_text: output_text.map(str::to_string),
        })
    };
    let r = read(vec![], Some("fallback"));
    assert_eq!(r.content.as_deref(), Some("fallback"));
    assert_eq!(r.id.as_deref(), Some("r"));
    assert_eq!(read(vec![], Some("")).content, None);
    assert_eq!(read(vec![], None).content, None);
    let r = read(
        vec![ResponsesOutputItem::Message {
            content: vec![
                text_part("a"),
                ResponsesOutputPart::Unknown,
                ResponsesOutputPart::InputText { text: "b".to_string() },
            ],
        }],
        Some("other"),
    );
    assert_eq!(r.content.as_deref(), Some("ab"));
    let r = read(vec![function(None, None, "lost", "{}")], None);
    assert!(r.tool_calls.is_empty());
}

#[test]
fn reasoning_waits_and_server_side_calls_are_not_sent() {
    let items = vec![
        msg(MessageRole::User, "hi"),
        SessionItem::Reasoning { content: "hm".to_string() },
        SessionItem::ToolCall(ToolCall {
            id: "ws_1".to_string(),
            kind: ToolCallKind::WebSearchCall,
            name: Some("web_search".to_string()),
            arguments: None,
        }),
        SessionItem::Wait { arguments: "{}".to_string() },
        SessionItem::ToolCall(ToolCall {
            id: "c".to_string(),
            kind: ToolCallKind::FunctionCall,
            name: None,
            arguments: None,
        }),
    ];
    let wire = to_responses_input(&items);
    assert_eq!(wire.len(), 2);
    assert_eq!(
        wire[1],
        ResponsesInputItem::FunctionCall {
            call_id: "c".to_string(),
            name: String::new(),
            arguments: String::new(),
        }
    );
}

#[test]
fn longer_dialogues_keep_the_sent_prefix() {
    let mut items = vec![msg(MessageRole::Context, "c"), msg(MessageRole::User, "u")];
    let before = to_responses_input(&items);
    items.push(SessionItem::Reasoning { content: "r".to_string() });
    items.push(msg(MessageRole::Assistant, "a"));
    let after = to_responses_input(&items);
    assert_eq!(after[..before.len()], before[..]);
    assert_eq!(after.len(), before.len() + 1);
}

#[test]
fn requests_name_their_endpoint_and_key() {
    let llm = OpenAiLlm::new("https://example.com/v1", "SECRET-REDACTED", "m", false);
    assert_eq!(llm.endpoint(), "https://example.com/v1/responses");
    assert_eq!(llm.authorization(), "Bearer SECRET-REDACTED");
    let request = llm.request("You are Nota.", &vec![msg(MessageRole::User, "hi")], &weather());
    assert_eq!(request.model, "m");
    assert_eq!(request.instructions.as_deref(), Some("You are Nota."));
    assert_eq!(request.input.len(), 1);
    assert_eq!(request.tools.unwrap().len(), 1);
    assert_eq!(api_error("500 Internal Server Error", "boom"), "LLM API error (500 Internal Server Error): boom");
    assert_eq!(wire_role(MessageRole::Context), "system");
}

#[test]
fn agent_requests_carry_the_dialogue_and_the_tools() {
    let client = OpenAiLlm::new("https://a", "k", "m", false);
    let items = vec![llm_msg(LlmRole::User, "hi"), llm_msg(LlmRole::Assistant, "ho")];
    let tool = ToolDef {
        name: "echo".to_string(),
        description: "echo tool".to_string(),
        parameters: ToolParams::none(),
    };
    let request = llm::request(&client, "be kind", &items, &vec![tool]);
    assert_eq!(request.model, "m");
    assert_eq!(request.instructions.as_deref(), Some("be kind"));
    assert_eq!(request.input.len(), 2);
    let tools = request.tools.unwrap();
    assert!(matches!(&tools[0], ResponsesTool::Function { name, .. } if name == "echo"));
    assert_eq!(tools.len(), 1);

    let bare = llm::request(&client, "", &items, &vec![]);
    assert!(bare.instructions.is_none());
    assert!(bare.tools.is_none());
    let searching = OpenAiLlm::new("https://a", "k", "m", true);
    let tools = llm::request(&searching, "", &items, &vec![]).tools.unwrap();
    assert!(matches!(tools[0], ResponsesTool::WebSearch));
}

#[test]
fn agents_see_missing_names_and_arguments_as_empty() {
    let answer = llm::loop_answer(LlmResponse {
        id: Some("r".to_string()),
        content: Some("text".to_string()),
        reasoning: None,
        tool_calls: vec![
            ToolCall {
                id: "c1".to_string(),
                kind: ToolCallKind::FunctionCall,
                name: Some("echo".to_string()),
                arguments: Some("{}".to_string()),
            },
            ToolCall {
                id: "c2".to_string(),
                kind: ToolCallKind::FunctionCall,
                name: None,
                arguments: None,
            },
        ],
    });
    assert_eq!(answer.content.as_deref(), Some("text"));
    let calls: Vec<(&str, &str, &str)> = answer
        .tool_calls
        .iter()
        .map(|c| (c.id.as_str(), c.name.as_str(), c.arguments.as_str()))
        .collect();
    assert_eq!(calls, vec![("c1", "echo", "{}"), ("c2", "", "")]);
}
