use nota::domain::permissions::ToolContext;
use nota::domain::session::{MessageRole, SessionItem, ToolCall, ToolCallKind};
use nota::domain::tool::{DeclaredTool, Number, PropertyDef, ToolParams, ToolRegistry, Value};
use nota::llm::args::{parse_tool_args, rejected_tool_args_report};
use nota::llm::responses::LlmResponse;
use nota::llm::session::{
    called_name, raw_arguments, resolve_call, LlmConfig, Lookup, Refusal, SqliteSessionManager,
};
use nota::llm::store::{create, list, session_file, session_id_of, StoredSession};
use nota::llm::turn::{is_wait_call, Next, Step, Turn, MAX_ITERATIONS};

fn message(role: MessageRole, content: &str) -> SessionItem {
    SessionItem::Message { role, content: content.to_string() }
}

fn function(id: &str, name: &str, arguments: &str) -> ToolCall {
    ToolCall {
        id: id.to_string(),
        kind: ToolCallKind::FunctionCall,
        name: Some(name.to_string()),
        arguments: Some(arguments.to_string()),
    }
}

fn answer(id: &str, content: Option<&str>, reasoning: Option<&str>, tool_calls: Vec<ToolCall>) -> LlmResponse {
    LlmResponse {
        id: Some(id.to_string()),
        content: content.map(str::to_string),
        reasoning: reasoning.map(str::to_string),
        tool_calls,
    }
}

fn kinds(items: &[SessionItem]) -> Vec<&'static str> {
    items
        .iter()
        .map(|i| match i {
            SessionItem::Message { .. } => "message",
            SessionItem::Reasoning { .. } => "reasoning",
            SessionItem::ToolCall(_) => "tool_call",
            SessionItem::ToolCallOutput { .. } => "tool_call_output",
            SessionItem::Wait { .. } => "wait",
        })
        .collect()
}

/// A store in memory, with one row for each item.
struct Store {
    rows: Vec<(i64, SessionItem)>,
    next: i64,
    response_id: Option<String>,
}

impl Store {
    fn new(items: Vec<SessionItem>) -> Self {
        let mut store = Store { rows: vec![], next: 1, response_id: None };
        store.append(&items);
        store
    }

    fn append(&mut self, items: &[SessionItem]) {
        for item in items {
            self.rows.push((self.next, item.clone()));
            self.next += 1;
        }
    }

    fn items(&self) -> Vec<SessionItem> {
        self.rows.iter().map(|r| r.1.clone()).collect()
    }

    fn last_row(&self) -> i64 {
        self.rows.last().map(|r| r.0).unwrap_or(0)
    }
}

/// Runs a turn: `answers` is what the model says, `run` what tools give.
/// Returns how many times the model was asked.
fn run_turn(
    store: &mut Store,
    content: &str,
    answers: Vec<LlmResponse>,
    mut run: impl FnMut(&ToolCall) -> Result<String, String>,
) -> usize {
    let mut answers = answers.into_iter();
    let mut asked = 0;
    let (mut turn, mut step) = Turn::begin(
        store.items(),
        content.to_string(),
        store.last_row(),
        store.response_id.clone(),
    );
    loop {
        store.append(&step.persist);
        step = match step.next {
            Next::Ask => {
                assert_eq!(turn.context(), &store.items());
                asked += 1;
                turn.answered(answers.next().expect("model exhausted"))
            }
            Next::Run(call) => turn.tool_done(run(&call)),
            Next::Finish { response_id } => {
                if response_id.is_some() {
                    store.response_id = response_id;
                }
                return asked;
            }
            Next::Hold { after_row, items, response_id } => {
                store.rows.retain(|r| r.0 <= after_row);
                store.append(&items);
                if response_id.is_some() {
                    store.response_id = response_id;
                }
                return asked;
            }
        };
    }
}

fn context_only() -> Store {
    Store::new(vec![message(MessageRole::Context, "persona context")])
}

#[test]
fn send_persists_user_and_assistant_items_and_response_id() {
    let mut store = context_only();
    let asked = run_turn(
        &mut store,
        "hello",
        vec![answer("resp_x", Some("hi back"), None, vec![])],
        |_| Err("no tool".to_string()),
    );
    assert_eq!(asked, 1);
    assert_eq!(
        store.items(),
        vec![
            message(MessageRole::Context, "persona context"),
            message(MessageRole::User, "hello"),
            message(MessageRole::Assistant, "hi back"),
        ]
    );
    assert_eq!(store.response_id.as_deref(), Some("resp_x"));
}

#[test]
fn send_runs_tool_loop_with_live_registry() {
    let mut store = context_only();
    let ctx = ToolContext { persona_name: "bob".to_string(), request_id: Some("req_9".to_string()) };
    let mut registry = ToolRegistry::new();
    registry.register(DeclaredTool::new("echo", "echo tool", ToolParams::none())).unwrap();
    let mut seen = vec![];
    run_turn(
        &mut store,
        "please",
        vec![
            answer(
                "r1",
                None,
                None,
                vec![function("call_1", "echo", "{}"), function("call_2", "echo", "{}")],
            ),
            answer("r2", Some("done"), None, vec![]),
        ],
        |call| {
            let (tool, args) = resolve_call(&registry, call, Ok(Value::Object(vec![]))).unwrap();
            assert_eq!(tool.name, "echo");
            assert!(args.is_empty());
            seen.push(format!("{}|{:?}", ctx.persona_name, ctx.request_id));
            Ok("tool result".to_string())
        },
    );
    assert_eq!(
        kinds(&store.items()),
        vec![
            "message",
            "message",
            "tool_call",
            "tool_call",
            "tool_call_output",
            "tool_call_output",
            "message",
        ]
    );
    assert_eq!(seen.len(), 2);
    assert!(seen[0].starts_with("bob|Some(\"req_9\")"));
    assert!(seen[1].starts_with("bob|Some(\"req_9\")"));
    assert_eq!(store.response_id.as_deref(), Some("r2"));

    // A tool that is removed between two calls is unknown to the second.
    registry.unregister("echo");
    let call = function("call_3", "echo", "{}");
    let refused = resolve_call(&registry, &call, Ok(Value::Object(vec![]))).unwrap_err();
    assert_eq!(refused.message(""), "unknown tool: echo");
}

#[test]
fn finished_turns_leave_every_call_answered_once() {
    let mut store = context_only();
    let search = ToolCall {
        id: "ws_1".to_string(),
        kind: ToolCallKind::WebSearchCall,
        name: Some("web_search".to_string()),
        arguments: None,
    };
    for (turn, search) in [("a", vec![search]), ("b", vec![])] {
        let mut calls = search;
        calls.push(function(&format!("{turn}_1"), "echo", "{}"));
        calls.push(function(&format!("{turn}_2"), "echo", "{}"));
        run_turn(
            &mut store,
            turn,
            vec![
                answer("r1", None, None, calls),
                answer("r2", None, None, vec![function(&format!("{turn}_3"), "echo", "{}")]),
                answer("r3", Some("done"), None, vec![]),
            ],
            |call| if call.id == "a_2" { Err("no".to_string()) } else { Ok("yes".to_string()) },
        );
    }
    let items = store.items();
    let outputs = |id: &str| -> Vec<usize> {
        items
            .iter()
            .enumerate()
            .filter(|(_, i)| matches!(i, SessionItem::ToolCallOutput { call_id, .. } if call_id == id))
            .map(|(at, _)| at)
            .collect()
    };
    let mut functions = 0;
    for (at, item) in items.iter().enumerate() {
        if let SessionItem::ToolCall(call) = item {
            let found = outputs(&call.id);
            if call.kind == ToolCallKind::FunctionCall {
                functions += 1;
                assert_eq!(found.len(), 1);
                assert!(found[0] > at);
            } else {
                assert!(found.is_empty());
            }
        }
    }
    assert_eq!(functions, 6);
}

#[test]
fn web_search_call_with_text_completes_turn() {
    let mut store = context_only();
    let web = ToolCall {
        id: "ws_1".to_string(),
        kind: ToolCallKind::WebSearchCall,
        name: Some("web_search".to_string()),
        arguments: Some(r#"{"query":"what's new"}"#.to_string()),
    };
    let asked = run_turn(
        &mut store,
        "what's new?",
        vec![answer("r1", Some("found it"), None, vec![web])],
        |_| panic!("nothing to run"),
    );
    assert_eq!(asked, 1);
    let items = store.items();
    assert_eq!(kinds(&items), vec!["message", "message", "tool_call", "message"]);
    let SessionItem::ToolCall(web_call) = &items[2] else {
        panic!("expected a tool_call item");
    };
    assert_eq!(web_call.id, "ws_1");
    assert_eq!(web_call.kind, ToolCallKind::WebSearchCall);
    assert_eq!(web_call.name.as_deref(), Some("web_search"));
    assert_eq!(web_call.arguments.as_deref(), Some(r#"{"query":"what's new"}"#));
}

#[test]
fn wait_call_rolls_back_turn_and_persists_marker() {
    let mut store = context_only();
    let arguments = r#"{"seconds":10,"reason":"message incomplete"}"#;
    let asked = run_turn(
        &mut store,
        "你",
        vec![answer(
            "r1",
            None,
            Some("is this message complete?"),
            vec![function("call_w", "wait", arguments)],
        )],
        |_| Ok("ok".to_string()),
    );
    assert_eq!(asked, 1);
    let items = store.items();
    assert_eq!(items.len(), 3);
    assert_eq!(items[1], message(MessageRole::User, "你"));
    assert_eq!(items[2], SessionItem::Wait { arguments: arguments.to_string() });
    assert_eq!(store.response_id.as_deref(), Some("r1"));
}

#[test]
fn rejected_wait_does_not_hold_the_turn() {
    let mut store = context_only();
    let asked = run_turn(
        &mut store,
        "你",
        vec![
            answer("r1", None, None, vec![function("w", "wait", "{}")]),
            answer("r2", None, None, vec![]),
        ],
        |_| Err("wait rejected".to_string()),
    );
    assert_eq!(asked, 2);
    let items = store.items();
    assert_eq!(kinds(&items), vec!["message", "message", "tool_call", "tool_call_output"]);
    assert_eq!(
        items[3],
        SessionItem::ToolCallOutput {
            call_id: "w".to_string(),
            output: "tool error: wait rejected".to_string(),
        }
    );
}

#[test]
fn turns_ask_at_most_sixteen_times() {
    let mut store = Store::new(vec![]);
    let answers = (0..40)
        .map(|i| answer(&format!("r{i}"), Some("ignored"), Some(""), vec![function(&format!("c{i}"), "echo", "{}")]))
        .collect();
    let asked = run_turn(&mut store, "go", answers, |_| Ok("again".to_string()));
    assert_eq!(asked, MAX_ITERATIONS);
    assert_eq!(asked, 16);
    let items = store.items();
    let calls = items.iter().filter(|i| matches!(i, SessionItem::ToolCall(_))).count();
    let outputs = items.iter().filter(|i| matches!(i, SessionItem::ToolCallOutput { .. })).count();
    assert_eq!((calls, outputs), (16, 16));
    assert!(!items.iter().any(|i| *i == message(MessageRole::Assistant, "ignored")));
    assert_eq!(store.response_id.as_deref(), Some("r15"));
}

#[test]
fn kept_response_id_survives_answers_without_one() {
    let mut store = Store::new(vec![]);
    store.response_id = Some("old".to_string());
    let silent = LlmResponse { id: None, content: None, reasoning: None, tool_calls: vec![] };
    run_turn(&mut store, "hi", vec![silent], |_| Ok(String::new()));
    assert_eq!(store.response_id.as_deref(), Some("old"));
    assert_eq!(kinds(&store.items()), vec!["message"]);
}

#[test]
fn first_step_stores_the_user_message() {
    let (turn, step) = Turn::begin(vec![], "hi".to_string(), 0, None);
    assert_eq!(step, Step { persist: vec![message(MessageRole::User, "hi")], next: Next::Ask });
    assert_eq!(turn.context().len(), 1);
}

#[test]
fn only_function_calls_of_that_name_wait() {
    assert!(is_wait_call(&function("a", "wait", "{}")));
    assert!(!is_wait_call(&function("a", "waits", "{}")));
    let web = ToolCall {
        id: "a".to_string(),
        kind: ToolCallKind::WebSearchCall,
        name: Some("wait".to_string()),
        arguments: None,
    };
    assert!(!is_wait_call(&web));
}

// Arguments ---------------------------------------------------------------

fn value(v: &serde_json::Value) -> Value {
    match v {
        serde_json::Value::Null => Value::Null,
        serde_json::Value::Bool(b) => Value::Bool(*b),
        serde_json::Value::Number(n) => {
            let f = n.as_f64().unwrap();
            Value::Number(Number {
                whole: if f.fract() == 0.0 { Some(f as i64) } else { None },
                text: n.to_string(),
                debug: format!("{f:?}"),
            })
        }
        serde_json::Value::String(s) => Value::String(s.clone()),
        serde_json::Value::Array(a) => Value::Array(a.iter().map(value).collect()),
        serde_json::Value::Object(m) => {
            Value::Object(m.iter().map(|(k, v)| (k.clone(), value(v))).collect())
        }
    }
}

fn parse(raw: &str) -> Result<Value, String> {
    serde_json::from_str::<serde_json::Value>(raw).map(|v| value(&v)).map_err(|e| e.to_string())
}

fn property(prop_type: &str, choices: &[&str]) -> PropertyDef {
    PropertyDef {
        prop_type: prop_type.to_string(),
        description: String::new(),
        choices: choices.iter().map(|c| c.to_string()).collect(),
    }
}

fn weather_params() -> ToolParams {
    ToolParams::object(
        vec![
            ("name".to_string(), property("string", &[])),
            ("unit".to_string(), property("string", &["celsius", "fahrenheit"])),
        ],
        vec!["name".to_string(), "unit".to_string()],
    )
}

#[test]
fn parse_tool_args_validates_required_types_and_enum() {
    let params = weather_params();

    let ok = parse_tool_args(parse(r#"{"name":"sh","unit":"celsius"}"#), &params).unwrap();
    let name = ok.iter().find(|m| m.0 == "name").unwrap();
    assert_eq!(name.1, Value::String("sh".to_string()));

    let err = parse_tool_args(parse(r#"{"name":1,"extra":true}"#), &params).unwrap_err();
    assert!(err.iter().any(|v| v.contains("missing required property 'unit'")));
    assert!(err.iter().any(|v| v.contains("property 'name' must be a string")));
    assert!(err.iter().any(|v| v.contains("unknown property 'extra'")));

    let err = parse_tool_args(parse(r#"{"name":"x","unit":"kelvin"}"#), &params).unwrap_err();
    assert!(err.iter().any(|v| v.contains("property 'unit' must be one of")));
    assert_eq!(err, vec![r#"property 'unit' must be one of ["celsius", "fahrenheit"]"#.to_string()]);
}

#[test]
fn violations_show_the_given_value() {
    let params = ToolParams::object(
        vec![("n".to_string(), property("integer", &[])), ("b".to_string(), property("boolean", &[]))],
        vec![],
    );
    assert!(parse_tool_args(parse(r#"{"n":3.0,"b":false}"#), &params).is_ok());
    assert_eq!(
        parse_tool_args(parse(r#"{"n":3.5}"#), &params).unwrap_err(),
        vec!["property 'n' must be a integer but the model provided Number(3.5)".to_string()]
    );
    assert_eq!(
        parse_tool_args(parse(r#"{"b":["a\"b",null,{"k":true}]}"#), &params).unwrap_err(),
        vec![
            "property 'b' must be a boolean but the model provided Array([String(\"a\\\"b\"), Null, Object({\"k\": Bool(true)})])"
                .to_string()
        ]
    );
}

#[test]
fn every_declared_type_is_checked() {
    let samples = [
        ("string", "\"s\""),
        ("number", "1.5"),
        ("boolean", "true"),
        ("array", "[]"),
        ("object", "{}"),
        ("null", "null"),
    ];
    for (declared, _) in samples {
        let params = ToolParams::object(vec![("p".to_string(), property(declared, &[]))], vec![]);
        for (given, text) in samples {
            let result = parse_tool_args(parse(&format!("{{\"p\":{text}}}")), &params);
            assert_eq!(result.is_ok(), declared == given, "{declared} {given}");
        }
    }
    let any = ToolParams::object(vec![("p".to_string(), property("whatever", &[]))], vec![]);
    assert!(parse_tool_args(parse(r#"{"p":[1]}"#), &any).is_ok());
}

#[test]
fn arguments_must_be_a_json_object() {
    let params = weather_params();
    assert_eq!(
        parse_tool_args(parse("[1]"), &params).unwrap_err(),
        vec!["arguments must be a JSON object".to_string()]
    );
    let err = parse_tool_args(parse("{"), &params).unwrap_err();
    assert_eq!(err.len(), 1);
    assert!(err[0].starts_with("arguments are not valid JSON: "));
}

fn echo() -> DeclaredTool {
    DeclaredTool::new("echo", "echo tool", ToolParams::object(Vec::new(), vec![]))
}

#[test]
fn invalid_tool_args_are_rejected_with_definition_feedback() {
    let mut registry = ToolRegistry::new();
    registry.register(echo()).unwrap();
    let mut store = context_only();
    let mut ran = 0;
    run_turn(
        &mut store,
        "please",
        vec![
            answer("r1", None, None, vec![function("call_1", "echo", r#"{"extra":1}"#)]),
            answer("r2", None, None, vec![function("call_2", "echo", "{}")]),
            answer("r3", Some("done"), None, vec![]),
        ],
        |call| match resolve_call(&registry, call, parse(&raw_arguments(call))) {
            Ok(_) => {
                ran += 1;
                Ok("tool result".to_string())
            }
            Err(refusal) => Err(refusal.message("{\"name\": \"echo\"}")),
        },
    );
    let items = store.items();
    let outputs: Vec<&str> = items
        .iter()
        .filter_map(|i| match i {
            SessionItem::ToolCallOutput { output, .. } => Some(output.as_str()),
            _ => None,
        })
        .collect();
    assert_eq!(outputs.len(), 2);
    assert!(outputs[0].contains("rejected"));
    assert!(outputs[0].contains("echo"));
    assert!(outputs[0].contains("tool definition"));
    assert!(!outputs[0].contains("example.com"));
    assert!(!outputs[0].contains("unknown property"));
    assert_eq!(outputs[1], "tool result");
    assert_eq!(ran, 1);
}

#[test]
fn unknown_tools_are_refused() {
    let registry: ToolRegistry<DeclaredTool> = ToolRegistry::new();
    let call = function("c", "nope", "{}");
    match resolve_call(&registry, &call, parse("{}")) {
        Err(refusal) => {
            assert!(matches!(refusal, Refusal::UnknownTool { .. }));
            assert_eq!(refusal.message(""), "unknown tool: nope");
        }
        Ok(_) => panic!("expected a refusal"),
    }
    let bare = ToolCall {
        id: "c".to_string(),
        kind: ToolCallKind::FunctionCall,
        name: None,
        arguments: None,
    };
    assert_eq!(raw_arguments(&bare), "{}");
    assert_eq!(called_name(&bare), "");
}

#[test]
fn rejections_are_reported_to_the_operator() {
    assert_eq!(
        rejected_tool_args_report(
            "echo",
            "{}",
            &vec!["a".to_string(), "b".to_string()],
            "https://example.com/v1",
            "test-model",
        ),
        "tool call 'echo' rejected: the arguments do not match the tool definition.\nprovider: https://example.com/v1\nmodel: test-model\nmodel output: {}\nreasons:\n- a\n- b"
    );
}

// Sessions ----------------------------------------------------------------

fn manager(context: &str) -> SqliteSessionManager {
    SqliteSessionManager::new(
        "bob".to_string(),
        "system".to_string(),
        context.to_string(),
        LlmConfig {
            api_url: String::new(),
            api_key: String::new(),
            model: String::new(),
            web_search: false,
        },
    )
}

#[test]
fn create_and_load_roundtrip() {
    let mut sm = manager("persona context");
    let s1 = create(&vec![], 1700000000123);
    assert!(!s1.id.contains('/'), "session id must be a plain uuid: {}", s1.id);
    let files = vec![session_file(&s1.id)];
    let has = |id: &str| files.contains(&session_file(id));

    assert_eq!(sm.load(&s1.id, has(&s1.id)), Lookup::Stored);
    assert_eq!(sm.load(&s1.id, has(&s1.id)), Lookup::Loaded);
    assert_eq!(sm.loaded, vec![s1.id.clone()]);
    assert_eq!(sm.load("missing-session", has("missing-session")), Lookup::Missing);

    let found = list(
        files
            .iter()
            .filter_map(|f| session_id_of(f))
            .map(|id| StoredSession { id, seq: s1.seq, created_at: s1.created_at })
            .collect(),
    );
    assert_eq!(found.len(), 1);
    assert_eq!(found[0].id, s1.id);
}

#[test]
fn loaded_sessions_are_found_without_their_file() {
    let mut sm = manager("persona context");
    assert_eq!(sm.load("s1", true), Lookup::Stored);
    assert_eq!(sm.load("s1", false), Lookup::Loaded);
    assert_eq!(sm.load("missing-session", false), Lookup::Missing);
    assert_eq!(sm.load("missing-session", false), Lookup::Missing);
}

#[test]
fn sessions_open_with_the_persona_context() {
    assert_eq!(
        manager("persona context").opening_items(),
        vec![message(MessageRole::Context, "persona context")]
    );
    assert!(manager("").opening_items().is_empty());
}
