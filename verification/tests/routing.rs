use nota::domain::bus::{BusEvent, EventBus, EventKind};
use nota::domain::conversation::{
    adapter_prefix, AdapterEvent, Conversation, ConversationManager,
};
use nota::domain::permissions::{
    decision, path_starts_with, PathPolicy, PermissionRegistry, ToolContext,
};
use nota::domain::tool::{Number, Tool, Value};
use nota::infra::api::{
    answer, err, file_answer, persona_info, requested_name, unknown_persona, Status,
};
use nota::infra::chat::ReplyTool;
use nota::infra::ws::{
    forward_event, fresh_session, handle_command, session_name, ClientCommand, Handled,
    ServerEvent,
};

fn ctx(request_id: Option<&str>) -> ToolContext {
    ToolContext {
        persona_name: "bob".to_string(),
        request_id: request_id.map(str::to_string),
    }
}

#[test]
fn reply_emits_outbound_to_baked_conversation() {
    let mut manager = ConversationManager::new();
    manager.subscribe_adapter("web");
    let outbox = manager.subscribe_adapter("onebot");
    let args = vec![("content".to_string(), Value::String("hi".to_string()))];
    let (routed, told) =
        ReplyTool::new("onebot_private_42").run(&args, &ctx(Some("r")), &manager).unwrap();
    assert_eq!(routed.recipients, vec![outbox]);
    let AdapterEvent::Outbound(event) = routed.event else {
        panic!("expected outbound event");
    };
    assert_eq!(event.conversation_id.as_deref(), Some("onebot_private_42"));
    assert_eq!(event.target, None);
    assert_eq!(event.content, "hi");
    assert_eq!(event.request_id.as_deref(), Some("r"));
    assert_eq!(told, "已发送");
}

#[test]
fn reply_rejects_missing_content() {
    let manager = ConversationManager::new();
    let tool = ReplyTool::new("onebot_private_42");
    let number = Value::Number(Number {
        whole: Some(1),
        text: "1".to_string(),
        debug: "1.0".to_string(),
    });
    for args in [
        vec![],
        vec![("content".to_string(), Value::String("  ".to_string()))],
        vec![("content".to_string(), number)],
    ] {
        let err = tool.run(&args, &ctx(None), &manager).unwrap_err();
        assert!(err.contains("content"));
    }
    assert_eq!(tool.name(), "reply");
    assert_eq!(tool.parameters().required, vec!["content".to_string()]);
}

#[test]
fn prefixes_end_at_the_first_underscore() {
    assert_eq!(adapter_prefix("onebot_private_42"), "onebot");
    assert_eq!(adapter_prefix("web"), "web");
    assert_eq!(adapter_prefix("_x"), "");
}

#[test]
fn events_go_to_the_adapter_of_their_conversation() {
    let mut manager = ConversationManager::default();
    let a = manager.subscribe_adapter("onebot");
    let web = manager.subscribe_adapter("web");
    let b = manager.subscribe_adapter("onebot");
    assert_eq!(manager.route_outbound(Some("onebot_group_1"), None, "x", None).recipients, vec![a, b]);
    assert_eq!(manager.route_outbound(Some("web_1"), None, "x", None).recipients, vec![web]);
    assert!(manager.route_outbound(Some("cli_1"), None, "x", None).recipients.is_empty());
    let broadcast = manager.route_outbound(None, Some("group:1"), "x", None);
    assert_eq!(broadcast.recipients, vec![a, web, b]);
    let question = manager.send_permission("web_1", "p", "May I?", Some("r".to_string()));
    assert_eq!(question.recipients, vec![web]);
    let AdapterEvent::Permission(question) = question.event else {
        panic!("expected a question");
    };
    assert_eq!(question.permission_id, "p");
    assert_eq!(question.prompt, "May I?");
    assert_eq!(question.parent_request_id.as_deref(), Some("r"));
}

#[test]
fn messages_go_to_the_inbox_of_their_persona() {
    let mut manager = ConversationManager::new();
    let conversation = Conversation::new("bob", "web_1");
    assert!(manager.deliver(&conversation, "user", "p", "hi", None).is_none());
    let first = manager.subscribe_persona("bob");
    let second = manager.subscribe_persona("bob");
    assert_ne!(first, second);
    let (to, message) = manager.deliver(&conversation, "user", "p", "hi", None).unwrap();
    assert_eq!(to, second);
    assert!(message.timestamp > 1_600_000_000);
    assert_eq!(message.conversation, conversation);
    assert_eq!((message.sender.as_str(), message.prefix.as_str()), ("user", "p"));
}

#[test]
fn every_subscriber_receives_every_event() {
    let mut bus = EventBus::default();
    let a = bus.subscribe();
    let b = bus.subscribe();
    bus.subscribe_with_sender(77);
    let event = BusEvent::outbound_message(
        "bob".to_string(),
        "hi".to_string(),
        None,
        "group:1".to_string(),
    );
    let copies = bus.send(&event);
    let handles: Vec<u64> = copies.iter().map(|c| c.0).collect();
    assert_eq!(handles, vec![a, b, 77]);
    assert!(copies.iter().all(|c| c.1.content == "hi" && c.1.context == "group:1"));
    assert!(copies.iter().all(|c| c.1.kind == EventKind::OutboundMessage));
}

#[test]
fn events_carry_what_they_were_made_of() {
    let e = BusEvent::message_with_context("u".to_string(), "c".to_string(), None, "x".to_string());
    assert_eq!((e.kind, e.context.as_str(), e.target), (EventKind::Message, "x", None));
    let e = BusEvent::targeted_message_with_context(
        "u".to_string(),
        "c".to_string(),
        Some("r".to_string()),
        "bob".to_string(),
        "x".to_string(),
    );
    assert_eq!(e.target.as_deref(), Some("bob"));
    assert_eq!(e.request_id.as_deref(), Some("r"));
    let e = BusEvent::at(EventKind::Message, "u".to_string(), "c".to_string(), 5, None);
    assert_eq!(e.timestamp, 5);
}

// Permissions -------------------------------------------------------------

fn path(parts: &[&str]) -> Vec<String> {
    parts.iter().map(|p| p.to_string()).collect()
}

#[test]
fn questions_are_decided_once() {
    let mut manager = ConversationManager::new();
    let outbox = manager.subscribe_adapter("onebot");
    let mut permissions = PermissionRegistry::default();
    let (id, routed) = ctx(Some("r")).request_permission(
        &mut permissions,
        &manager,
        "onebot_private_42",
        "May I?",
    );
    assert_eq!(routed.recipients, vec![outbox]);
    assert_eq!(id.len(), 36);
    assert_eq!(id.matches('-').count(), 4);
    assert_eq!(permissions.resolve(&id, false), Some(false));
    assert_eq!(permissions.resolve(&id, true), None);
    permissions.register_as("x");
    assert_eq!(permissions.resolve("x", true), Some(true));
    assert!(decision(Some(true)));
    assert!(!decision(Some(false)));
    assert!(!decision(None));
}

#[test]
fn paths_are_compared_by_components() {
    assert!(path_starts_with(&path(&["/", "a", "b"]), &path(&["/", "a"])));
    assert!(!path_starts_with(&path(&["/", "ab"]), &path(&["/", "a"])));
    assert!(!path_starts_with(&path(&["/"]), &path(&["/", "a"])));
    let mut policy = PathPolicy::default();
    assert!(!policy.is_read_allowed(&path(&["/", "a"])));
    policy.allow_read(path(&["/", "a"]));
    policy.allow_read(path(&["/", "c"]));
    assert!(policy.is_read_allowed(&path(&["/", "a"])));
    assert!(policy.is_read_allowed(&path(&["/", "c", "d"])));
    assert!(!policy.is_read_allowed(&path(&["/", "b"])));
    policy.allow_read(path(&["/", "c", "..", "b", "."]));
    assert!(policy.is_read_allowed(&path(&["/", "b", "x"])));
    assert!(!policy.is_read_allowed(&path(&["/", "e"])));
}

// Web ---------------------------------------------------------------------

#[test]
fn connections_see_only_their_own_events() {
    let mine = fresh_session();
    let other = fresh_session();
    assert!(mine.starts_with("web_"));
    assert_ne!(mine, other);
    assert_eq!(session_name("1"), "web_1");
    let command = ClientCommand::Send {
        persona: "bob".to_string(),
        content: "hi".to_string(),
        request_id: "r".to_string(),
    };
    let Handled::Publish(sent) = handle_command(command, &mine) else {
        panic!("expected an event");
    };
    assert_eq!(sent.target.as_deref(), Some("bob"));
    assert_eq!(sent.sender, "user");
    let answer = BusEvent::message("bob".to_string(), "yo".to_string(), sent.request_id.clone())
        .with_session(sent.session_id.clone());
    assert_eq!(
        forward_event(&answer, &mine),
        Some(ServerEvent::Message { content: "yo".to_string(), request_id: "r".to_string() })
    );
    assert_eq!(forward_event(&answer, &other), None);
    let loose = BusEvent::message("bob".to_string(), "yo".to_string(), None);
    assert_eq!(forward_event(&loose, &mine), None);
}

#[test]
fn questions_reach_the_connection_that_caused_them() {
    let question = |parent: Option<&str>| {
        BusEvent::permission_request(
            "bob".to_string(),
            "May I?".to_string(),
            "p".to_string(),
            parent.map(str::to_string),
        )
        .with_session(Some("web_1".to_string()))
    };
    assert_eq!(
        forward_event(&question(Some("r")), "web_1"),
        Some(ServerEvent::PermissionNeeded {
            permission_id: "p".to_string(),
            prompt: "May I?".to_string(),
            request_id: "r".to_string(),
        })
    );
    assert_eq!(forward_event(&question(None), "web_1"), None);
    let command = ClientCommand::Permission { permission_id: "p".to_string(), approved: true };
    assert!(matches!(
        handle_command(command, "web_1"),
        Handled::Resolve { permission_id, approved: true } if permission_id == "p"
    ));
}

#[test]
fn answers_have_their_status() {
    let codes: Vec<u16> = [
        Status::Success,
        Status::Created,
        Status::NoContent,
        Status::BadRequest,
        Status::NotFound,
        Status::InternalServerError,
    ]
    .iter()
    .map(Status::code)
    .collect();
    assert_eq!(codes, vec![200, 201, 204, 400, 404, 500]);
    assert_eq!(answer(Status::Created, Ok(())).unwrap(), Status::Created);
    let failed = answer(Status::NoContent, Err("disk".to_string())).unwrap_err();
    assert_eq!((failed.status, failed.error.as_str()), (Status::InternalServerError, "disk"));
    assert_eq!(requested_name("  bob ").unwrap(), "bob");
    let failed = requested_name("  ").unwrap_err();
    assert_eq!((failed.status, failed.error.as_str()), (Status::BadRequest, "name is required"));
    let names = path(&["alice", "bob"]);
    let info = persona_info(&names, "bob".to_string()).unwrap();
    assert_eq!(info.files, path(&["solo.md", "memory.md"]));
    let failed = persona_info(&names, "eve".to_string()).unwrap_err();
    assert_eq!((failed.status, failed.error.as_str()), (Status::NotFound, "persona not found"));
    assert_eq!(file_answer(Some("x".to_string()), "bob", "solo.md").unwrap(), "x");
    let failed = file_answer(None, "bob", "solo.md").unwrap_err();
    assert_eq!(failed.error, "file not found: bob/solo.md");
    assert_eq!(unknown_persona("eve").error, "persona not found: eve");
    assert_eq!(err(Status::NotFound, "e".to_string()).error, "e");
}
