use nota::domain::bus::BusEvent;
use nota::domain::permissions::PermissionRegistry;
use nota::domain::conversation::OutboundEvent;
use nota::onebot::bridge::{chat_of_conversation, conversation_of, OneBotBridge, Outbound};
use nota::onebot::client::{
    closed_text, dropped_text, timed_out_text, Backoff, Dispatch, OneBotApi, WsEnd,
};
use nota::onebot::config::OnebotConfig;
use nota::onebot::types::{
    ActionParams, ActionRequest, ActionResponse, MessageContent, MessageEvent, MessageSegment,
    PostEvent, ReplyRoute, Sender,
};
use nota::table::Table;

fn config(friend_ids: Vec<i64>, group_ids: Vec<i64>) -> OnebotConfig {
    OnebotConfig {
        enabled: true,
        mode: "ws".to_string(),
        ws_url: "ws://127.0.0.1:3001".to_string(),
        access_token: String::new(),
        persona: "bob".to_string(),
        prefix: String::new(),
        friend_ids,
        group_ids,
    }
}

fn bridge(friend_ids: Vec<i64>, group_ids: Vec<i64>) -> OneBotBridge {
    OneBotBridge::new("bob".to_string(), config(friend_ids, group_ids))
}

fn message(kind: &str, user_id: i64, group_id: Option<i64>, text: &str, named: bool) -> PostEvent {
    PostEvent::Message(MessageEvent {
        self_id: 7,
        time: 1700000000,
        message_id: 1,
        message_type: kind.to_string(),
        sub_type: None,
        user_id,
        message: Some(MessageContent::Text(text.to_string())),
        group_id,
        sender: if named {
            Some(Sender { user_id, nickname: "Alice".to_string(), card: None })
        } else {
            None
        },
    })
}

fn private_event(user_id: i64, text: &str) -> PostEvent {
    message("private", user_id, None, text, true)
}

fn routes() -> Table<String, ReplyRoute> {
    Table::new()
}

#[test]
fn forwards_private_message_to_persona() {
    let mut routes = routes();
    let event = bridge(vec![42], vec![])
        .handle_onebot_event(&private_event(42, "hello"), &mut routes)
        .unwrap();
    assert_eq!(event.sender, "user");
    assert_eq!(event.content, "[私聊 Alice(42) → bot(7)] hello");
    assert_eq!(event.target.as_deref(), Some("bob"));
    assert_eq!(event.context, "private:42");
    let rid = event.request_id.clone().unwrap();
    assert!(matches!(routes.get(&rid), Some(ReplyRoute::Private { user_id: 42 })));
}

#[test]
fn forwards_group_message_from_allowlisted_group() {
    let mut routes = routes();
    let event = bridge(vec![], vec![30003])
        .handle_onebot_event(&message("group", 42, Some(30003), "hi", true), &mut routes)
        .unwrap();
    assert_eq!(event.content, "[群 30003 Alice(42) → bot(7)] hi");
    assert_eq!(event.context, "group:30003");
    let rid = event.request_id.clone().unwrap();
    assert!(matches!(routes.get(&rid), Some(ReplyRoute::Group { group_id: 30003 })));
}

#[test]
fn ignores_private_message_from_non_allowlisted_friend() {
    let mut routes = routes();
    assert!(bridge(vec![42], vec![])
        .handle_onebot_event(&private_event(99, "hi"), &mut routes)
        .is_none());
    assert!(routes.is_empty());
}

#[test]
fn ignores_group_message_from_non_allowlisted_group() {
    let mut routes = routes();
    let event = message("group", 42, Some(99999), "hi", false);
    assert!(bridge(vec![42], vec![30003]).handle_onebot_event(&event, &mut routes).is_none());
    assert!(routes.is_empty());
}

#[test]
fn ignores_all_when_allowlists_are_empty() {
    let mut routes = routes();
    let bridge = bridge(vec![], vec![]);
    let group = message("group", 42, Some(30003), "hi", false);
    assert!(bridge.handle_onebot_event(&group, &mut routes).is_none());
    assert!(bridge.handle_onebot_event(&private_event(42, "hi"), &mut routes).is_none());
    assert!(routes.is_empty());
}

#[test]
fn an_empty_list_disables_its_category_alone() {
    let mut routes = routes();
    let group = message("group", 42, Some(30003), "hi", false);
    let only_groups = bridge(vec![], vec![30003]);
    assert!(only_groups.handle_onebot_event(&private_event(42, "hi"), &mut routes).is_none());
    assert!(only_groups.handle_onebot_event(&group, &mut routes).is_some());
    let only_friends = bridge(vec![42], vec![]);
    assert!(only_friends.handle_onebot_event(&group, &mut routes).is_none());
    assert!(only_friends.handle_onebot_event(&private_event(42, "hi"), &mut routes).is_some());
}

#[test]
fn ignores_notice_and_meta_events() {
    let mut routes = routes();
    let bridge = bridge(vec![42], vec![]);
    for event in [PostEvent::Notice, PostEvent::Request, PostEvent::MetaEvent] {
        assert!(bridge.handle_onebot_event(&event, &mut routes).is_none());
    }
}

#[test]
fn ignores_own_blank_and_odd_messages() {
    let mut routes = routes();
    let bridge = bridge(vec![7, 42], vec![30003]);
    assert!(bridge.handle_onebot_event(&private_event(7, "hi"), &mut routes).is_none());
    assert!(bridge.handle_onebot_event(&private_event(42, " \n"), &mut routes).is_none());
    let odd = message("channel", 42, Some(30003), "hi", true);
    assert!(bridge.handle_onebot_event(&odd, &mut routes).is_none());
    let groupless = message("group", 42, None, "hi", true);
    assert!(bridge.handle_onebot_event(&groupless, &mut routes).is_none());
    let PostEvent::Message(mut bodyless) = private_event(42, "x") else { unreachable!() };
    bodyless.message = None;
    assert!(bridge.accept(&bodyless).is_none());
    assert!(bridge.is_allowed(&bodyless));
}

#[test]
fn configured_prefixes_are_required_and_stripped() {
    let mut cfg = config(vec![42], vec![]);
    cfg.prefix = "/ai".to_string();
    let bridge = OneBotBridge::new("bob".to_string(), cfg);
    let PostEvent::Message(with) = private_event(42, "/ai  hello ") else { unreachable!() };
    let PostEvent::Message(without) = private_event(42, "hello") else { unreachable!() };
    let accepted = bridge.accept(&with).unwrap();
    assert_eq!(accepted.header, "[私聊 Alice(42) → bot(7)] ");
    assert_eq!(accepted.body, "hello ");
    assert!(bridge.accept(&without).is_none());
}

#[test]
fn media_arrive_as_markers_that_name_the_message() {
    let PostEvent::Message(mut photo) = private_event(42, "x") else { unreachable!() };
    photo.message_id = 123;
    photo.message = Some(MessageContent::Segments(vec![MessageSegment {
        segment_type: "image".to_string(),
        data: vec![],
    }]));
    let accepted = bridge(vec![42], vec![]).accept(&photo).unwrap();
    assert_eq!(accepted.body, "[image msg id:123]");
}

#[test]
fn does_not_auto_send_persona_reply() {
    let mut routes = routes();
    let mut permissions = PermissionRegistry::new();
    routes.insert("r1".to_string(), ReplyRoute::Private { user_id: 42 });
    let reply = BusEvent::message("bob".to_string(), "hi".to_string(), Some("r1".to_string()));
    let response = bridge(vec![42], vec![]).handle_bus_event(&reply, &mut routes, &mut permissions);
    assert!(routes.get(&"r1".to_string()).is_none());
    assert!(response.actions.is_empty());
    assert!(response.denied.is_none());
}

fn text_of(action: &ActionRequest) -> &str {
    match &action.params {
        ActionParams::Private { message, .. } | ActionParams::Group { message, .. } => {
            &message[0].data.text
        }
        _ => panic!("expected a message"),
    }
}

#[test]
fn auto_denies_permission_request() {
    let mut routes = routes();
    let mut permissions = PermissionRegistry::new();
    routes.insert("p1".to_string(), ReplyRoute::Private { user_id: 42 });
    let permission_id = permissions.register();
    let question = BusEvent::permission_request(
        "bob".to_string(),
        "Allow file_read on /etc/passwd?".to_string(),
        permission_id.clone(),
        Some("p1".to_string()),
    );
    let response = bridge(vec![42], vec![]).handle_bus_event(&question, &mut routes, &mut permissions);
    assert_eq!(response.denied, Some(permission_id.clone()));
    assert_eq!(response.actions.len(), 1);
    assert!(text_of(&response.actions[0]).contains("需要你授权"));
    assert_eq!(
        text_of(&response.actions[0]),
        "需要你授权：Allow file_read on /etc/passwd?\nOneBot 通道暂不支持在线授权，已自动拒绝。"
    );
    assert_eq!(permissions.resolve(&permission_id, true), None);
}

#[test]
fn questions_of_unknown_requests_are_left_alone() {
    let mut routes = routes();
    let mut permissions = PermissionRegistry::new();
    let id = permissions.register();
    let bridge = bridge(vec![42], vec![]);
    let unknown = BusEvent::permission_request("bob".to_string(), "?".to_string(), id.clone(), Some("p9".to_string()));
    let orphan = BusEvent::permission_request("bob".to_string(), "?".to_string(), id.clone(), None);
    let other = BusEvent::permission_request("eve".to_string(), "?".to_string(), id.clone(), Some("p1".to_string()));
    routes.insert("p1".to_string(), ReplyRoute::Private { user_id: 42 });
    for event in [unknown, orphan, other] {
        let response = bridge.handle_bus_event(&event, &mut routes, &mut permissions);
        assert!(response.denied.is_none());
        assert!(response.actions.is_empty());
    }
    assert_eq!(permissions.resolve(&id, true), Some(true));
}

#[test]
fn suppresses_reply_to_non_allowlisted_friend() {
    let mut routes = routes();
    let mut permissions = PermissionRegistry::new();
    routes.insert("r1".to_string(), ReplyRoute::Private { user_id: 99 });
    let bridge = bridge(vec![42], vec![]);
    let reply = BusEvent::message("bob".to_string(), "hi".to_string(), Some("r1".to_string()));
    let response = bridge.handle_bus_event(&reply, &mut routes, &mut permissions);
    assert!(routes.get(&"r1".to_string()).is_none());
    assert!(response.actions.is_empty());
    assert!(bridge.send_reply(&ReplyRoute::Private { user_id: 99 }, "hi").is_none());
}

#[test]
fn suppresses_reply_to_non_allowlisted_group() {
    let mut routes = routes();
    let mut permissions = PermissionRegistry::new();
    routes.insert("r2".to_string(), ReplyRoute::Group { group_id: 99999 });
    let bridge = bridge(vec![], vec![30003]);
    let reply = BusEvent::message("bob".to_string(), "hi".to_string(), Some("r2".to_string()));
    let response = bridge.handle_bus_event(&reply, &mut routes, &mut permissions);
    assert!(routes.get(&"r2".to_string()).is_none());
    assert!(response.actions.is_empty());
    assert!(bridge.send_reply(&ReplyRoute::Group { group_id: 99999 }, "hi").is_none());
    assert_eq!(bridge.send_reply(&ReplyRoute::Group { group_id: 30003 }, "hi").unwrap().len(), 1);
}

#[test]
fn outbound_rejects_non_allowlisted_targets() {
    let out = Outbound { cfg: config(vec![42], vec![]) };
    let err = out.send_private(99, "hi").unwrap_err();
    assert!(err.contains("allowlist"));
    assert_eq!(err, "target user 99 is not in the friend allowlist");
    let err = out.send_group(99999, "hi").unwrap_err();
    assert!(err.contains("allowlist"));
    assert_eq!(err, "target group 99999 is not in the group allowlist");
}

#[test]
fn outbound_chunks_long_text() {
    let out = bridge(vec![42], vec![]).outbound();
    let actions = out.send_private(42, &"a".repeat(9000)).unwrap();
    let sizes: Vec<usize> = actions.iter().map(|a| text_of(a).len()).collect();
    assert_eq!(sizes, vec![4000, 4000, 1000]);
    assert!(actions.iter().all(|a| matches!(a.params, ActionParams::Private { user_id: 42, .. })));
}

#[test]
fn conversations_name_their_chat() {
    for route in [ReplyRoute::Private { user_id: 42 }, ReplyRoute::Group { group_id: -7 }] {
        assert_eq!(chat_of_conversation(&conversation_of(&route)), Some(route));
    }
    assert_eq!(conversation_of(&ReplyRoute::Private { user_id: 42 }), "onebot_private_42");
    for other in ["web_1", "onebot_private_", "onebot_group_x", "onebot_42"] {
        assert_eq!(chat_of_conversation(other), None, "{other}");
    }
}

#[test]
fn messages_of_the_persona_go_to_allowed_chats_only() {
    let bridge = bridge(vec![42], vec![30003]);
    let event = |target: Option<&str>, conversation: Option<&str>| OutboundEvent {
        conversation_id: conversation.map(str::to_string),
        target: target.map(str::to_string),
        content: "hi".to_string(),
        request_id: None,
    };
    let sent = |target, conversation| {
        bridge.handle_outbound(&event(target, conversation)).map(|a| a[0].action.clone())
    };
    assert_eq!(sent(None, Some("onebot_private_42")).as_deref(), Some("send_private_msg"));
    assert_eq!(
        sent(Some("group:30003"), Some("onebot_private_42")).as_deref(),
        Some("send_group_msg")
    );
    assert_eq!(sent(Some("group:1"), Some("onebot_private_42")), None);
    assert_eq!(sent(None, Some("onebot_private_99")), None);
    assert_eq!(sent(None, Some("web_1")), None);
    assert_eq!(sent(None, None), None);
}

// Connection --------------------------------------------------------------

#[test]
fn status_tracks_connected_flag() {
    let mut api = OneBotApi::new();
    assert!(!api.is_connected());
    api.set_connected(true);
    assert!(api.is_connected());
}

fn response(echo: Option<&str>) -> ActionResponse {
    ActionResponse {
        status: Some("ok".to_string()),
        retcode: Some(0),
        echo: echo.map(str::to_string),
        data: None,
    }
}

#[test]
fn responses_are_handed_to_their_waiter_once() {
    let mut api = OneBotApi::default();
    api.await_response("e1");
    assert!(matches!(
        api.incoming(None, Some(response(Some("e1")))),
        Dispatch::Answer { echo, response } if echo == "e1" && response.retcode == Some(0)
    ));
    assert!(matches!(api.incoming(None, Some(response(Some("e1")))), Dispatch::Unclaimed));
    assert!(matches!(api.incoming(None, Some(response(None))), Dispatch::Unclaimed));
    api.await_response("e2");
    api.give_up("e2");
    assert!(matches!(api.incoming(None, Some(response(Some("e2")))), Dispatch::Unclaimed));
    assert!(matches!(api.incoming(Some(PostEvent::Notice), None), Dispatch::Forward(PostEvent::Notice)));
    assert!(matches!(api.incoming(None, None), Dispatch::Unrecognized));
}

#[test]
fn pauses_double_and_start_over() {
    let mut backoff = Backoff::new();
    let pauses: Vec<u64> = (0..7).map(|_| backoff.ended(WsEnd::Failed).unwrap()).collect();
    assert_eq!(pauses, vec![1, 2, 4, 8, 16, 30, 30]);
    assert_eq!(backoff.ended(WsEnd::Gone(29)), Some(30));
    assert_eq!(backoff.ended(WsEnd::Gone(30)), Some(1));
    assert_eq!(backoff.ended(WsEnd::Failed), Some(2));
    assert_eq!(backoff.ended(WsEnd::Shutdown), None);
}

#[test]
fn failed_actions_name_their_echo() {
    assert_eq!(closed_text(), "OneBot action channel closed");
    assert_eq!(dropped_text("e"), "OneBot action 'e' sender dropped");
    assert_eq!(timed_out_text("e"), "OneBot action 'e' timed out after 15s");
}

#[test]
fn tokens_become_bearer_headers() {
    let mut cfg = config(vec![], vec![]);
    assert_eq!(cfg.authorization(), None);
    cfg.access_token = "t".to_string();
    assert_eq!(cfg.authorization().as_deref(), Some("Bearer t"));
    assert_eq!(OnebotConfig::default().mode, "ws");
}
