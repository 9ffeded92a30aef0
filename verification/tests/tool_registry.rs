use nota::domain::tool::{
    find_member, show_value, DeclaredTool, Number, PropertyDef, Tool, ToolParams, ToolRegistry,
    Value,
};
use nota::infra::builtin::{FileReadTool, FileWriteTool, ScheduleTool, StatusTool};
use nota::infra::chat::ReplyTool;
use nota::onebot::bridge::OneBotBridge;
use nota::onebot::config::OnebotConfig;
use nota::tools::{register_all, register_builtin_tools, register_chat_tools, AnyTool};

fn dummy(name: &str) -> DeclaredTool {
    DeclaredTool::new(name, "test tool", ToolParams::object(Vec::new(), vec![]))
}

#[test]
fn duplicate_registration_fails_loudly() {
    let mut registry = ToolRegistry::new();
    registry.register(dummy("dup")).unwrap();

    let err = registry.register(dummy("dup")).unwrap_err();
    assert!(err.contains("duplicate tool name 'dup'"), "unexpected error: {err}");
    assert_eq!(
        err,
        "duplicate tool name 'dup': a tool with this name is already registered; refusing to start with conflicting tools"
    );
    assert_eq!(registry.list().len(), 1);
}

#[test]
fn re_register_after_unregister_is_allowed() {
    let mut registry = ToolRegistry::new();
    registry.register(dummy("tmp")).unwrap();
    registry.unregister("tmp");
    registry.register(dummy("tmp")).unwrap();
}

#[test]
fn list_is_sorted_by_name() {
    let mut registry = ToolRegistry::new();
    registry.register(dummy("zeta")).unwrap();
    registry.register(dummy("alpha")).unwrap();
    let names: Vec<String> = registry.list().iter().map(|t| t.name().to_string()).collect();
    assert_eq!(names, vec!["alpha".to_string(), "zeta".to_string()]);
}

#[test]
fn listing_does_not_depend_on_the_order_of_registration() {
    let names = |order: [&'static str; 4]| {
        let mut registry = ToolRegistry::default();
        for name in order {
            registry.register(dummy(name)).unwrap();
        }
        registry.unregister("c");
        registry.unregister("missing");
        registry.list().iter().map(|t| t.name().to_string()).collect::<Vec<_>>()
    };
    assert_eq!(names(["a", "b", "c", "ab"]), vec!["a", "ab", "b"]);
    assert_eq!(names(["ab", "c", "b", "a"]), vec!["a", "ab", "b"]);
}

#[test]
fn get_finds_registered_tools_only() {
    let mut registry = ToolRegistry::new();
    registry.register(dummy("b")).unwrap();
    registry.register(dummy("a")).unwrap();
    assert_eq!(registry.get("a").unwrap().name(), "a");
    assert!(registry.get("c").is_none());
    assert!(registry.get("").is_none());
}

#[test]
fn built_in_chat_and_onebot_tools_register_together() {
    let mut registry = ToolRegistry::new();
    register_builtin_tools(&mut registry, &vec!["personas".to_string()]).unwrap();
    register_chat_tools(&mut registry, "onebot_private_42").unwrap();
    let bridge = OneBotBridge::new(
        "bob".to_string(),
        OnebotConfig { ws_url: "ws://127.0.0.1:3001".to_string(), ..OnebotConfig::default() },
    );
    bridge.register_tools(&mut registry).unwrap();
    let names: Vec<&str> = registry.list().iter().map(|t| t.name()).collect();
    assert_eq!(
        names,
        vec![
            "file_read",
            "file_write",
            "onebot_get_content",
            "onebot_get_msg_history",
            "onebot_send_msg",
            "onebot_status",
            "onebot_voice_text",
            "reply",
            "schedule",
            "status",
        ]
    );
    let err = register_chat_tools(&mut registry, "onebot_private_43").unwrap_err();
    assert!(err.contains("duplicate tool name 'reply'"));
    match registry.get("reply").unwrap() {
        AnyTool::Reply(t) => assert_eq!(t.conversation_id, "onebot_private_42"),
        _ => panic!("expected the reply tool"),
    }
}

#[test]
fn registration_stops_at_the_first_conflict() {
    let mut registry = ToolRegistry::new();
    registry.register(AnyTool::Status(StatusTool::new())).unwrap();
    let err = register_all(
        &mut registry,
        vec![
            AnyTool::Schedule(ScheduleTool::new()),
            AnyTool::Status(StatusTool::new()),
            AnyTool::Reply(ReplyTool::new("web_1")),
        ],
    )
    .unwrap_err();
    assert!(err.contains("'status'"));
    let names: Vec<&str> = registry.list().iter().map(|t| t.name()).collect();
    assert_eq!(names, vec!["schedule", "status"]);
}

#[test]
fn tools_declare_their_parameters() {
    let read = FileReadTool::new(vec![]);
    let params = read.parameters();
    assert_eq!(params.schema_type, "object");
    assert_eq!(params.required, vec!["path".to_string()]);
    assert_eq!(params.properties[0].0, "path");
    assert_eq!(params.properties[0].1.prop_type, "string");
    let write = FileWriteTool::new(vec![]).parameters();
    assert_eq!(write.required, vec!["path".to_string(), "content".to_string()]);
    let reply = ReplyTool::new("web_1");
    assert!(reply.description().starts_with("Send a message to the current chat. Your reply reaches the user only through this tool, so call it once per message"));
    assert!(reply.description().ends_with("use that adapter's send tool (such as onebot_send_msg)."));
}

#[test]
fn cloned_parameters_are_the_same() {
    let def = PropertyDef {
        prop_type: "string".to_string(),
        description: "unit".to_string(),
        choices: vec!["celsius".to_string()],
    };
    let params = ToolParams::none().needing("unit", def).taking("n", PropertyDef::integer("count"));
    let copy = params.clone();
    assert_eq!(copy.required, vec!["unit".to_string()]);
    assert_eq!(copy.properties.len(), 2);
    assert_eq!(copy.properties[0].1.choices, vec!["celsius".to_string()]);
    assert_eq!(copy.properties[1].1.prop_type, "integer");
}

#[test]
fn values_are_read_by_their_kind() {
    let number = |whole: Option<i64>, text: &str, debug: &str| {
        Value::Number(Number { whole, text: text.to_string(), debug: debug.to_string() })
    };
    let object = Value::Object(vec![
        ("a".to_string(), Value::String("x\"".to_string())),
        ("b".to_string(), number(Some(3), "3", "3.0")),
        ("c".to_string(), number(None, "1.5", "1.5")),
    ]);
    let members = object.as_object().unwrap();
    assert_eq!(find_member(members, "a").unwrap().as_str(), Some("x\""));
    assert_eq!(find_member(members, "b").unwrap().as_i64(), Some(3));
    assert_eq!(find_member(members, "c").unwrap().as_i64(), None);
    assert!(find_member(members, "d").is_none());
    assert!(object.is_object() && !object.is_array());
    assert!(Value::Null.is_null() && Value::Bool(true).is_bool());
    assert!(members[0].1.is_string() && members[1].1.is_number());
    assert!(Value::Null.as_object().is_none());
    assert_eq!(show_value(&members[0].1), "String(\"x\\\"\")");
    assert_eq!(show_value(&members[1].1), "Number(3.0)");
    assert_eq!(
        show_value(&Value::Array(vec![Value::Null, Value::Bool(false)])),
        "Array([Null, Bool(false)])"
    );
}
