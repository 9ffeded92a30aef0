use nota::domain::tool::{Number, Value};
use nota::onebot::types::{
    chunk_text, format_history, format_history_at, identity, json_value_to_string, text_segments,
    ActionParams, ActionRequest, GetMsgData, GroupMsgHistoryData, HistoryMessage,
    MessageContent, MessageEvent, MessageSegment, PostEvent, ReplyRoute, Sender,
};

fn string(s: &str) -> Value {
    Value::String(s.to_string())
}

fn integer(n: i64) -> Value {
    Value::Number(Number { whole: Some(n), text: n.to_string(), debug: format!("{n}.0") })
}

fn segment(segment_type: &str, data: Vec<(&str, Value)>) -> MessageSegment {
    MessageSegment {
        segment_type: segment_type.to_string(),
        data: data.into_iter().map(|(k, v)| (k.to_string(), v)).collect(),
    }
}

fn sender(user_id: i64, nickname: &str, card: Option<&str>) -> Sender {
    Sender { user_id, nickname: nickname.to_string(), card: card.map(str::to_string) }
}

#[test]
fn parses_private_message_with_segments() {
    let event = PostEvent::Message(MessageEvent {
        self_id: 20002,
        time: 1700000000,
        message_id: 123,
        message_type: "private".to_string(),
        sub_type: Some("friend".to_string()),
        user_id: 10001,
        message: Some(MessageContent::Segments(vec![
            segment("text", vec![("text", string("hello "))]),
            segment("face", vec![("id", string("1"))]),
            segment("text", vec![("text", string(" world"))]),
        ])),
        group_id: None,
        sender: Some(sender(10001, "Alice", None)),
    });
    let PostEvent::Message(msg) = event else {
        panic!("expected message event");
    };
    assert_eq!(msg.message_type, "private");
    assert_eq!(msg.user_id, 10001);
    assert_eq!(msg.message.unwrap().to_text(), "hello [face] world");
}

#[test]
fn parses_group_message_with_string_message() {
    let content = MessageContent::Text("@someone 你好".to_string());
    assert_eq!(content.to_text(), "@someone 你好");
    assert_eq!(content.to_text_with_id("456"), "@someone 你好");
}

#[test]
fn serializes_group_action() {
    let action = ActionRequest::send_group_msg(30003, "hi");
    assert_eq!(action.action, "send_group_msg");
    let ActionParams::Group { group_id, message } = action.params else {
        panic!("expected group action");
    };
    assert_eq!(group_id, 30003);
    assert_eq!(message[0].segment_type, "text");
    assert_eq!(message[0].data.text, "hi");
    assert_eq!(action.echo.len(), 36);
}

#[test]
fn serializes_group_history_action() {
    let action = ActionRequest::get_group_msg_history(30003, 20);
    assert_eq!(action.action, "get_group_msg_history");
    let ActionParams::GroupHistory { group_id, message_seq, count } = action.params else {
        panic!("expected history action");
    };
    assert_eq!(group_id, 30003);
    assert_eq!(count, 20);
    assert_eq!(message_seq, 0);
}

#[test]
fn serializes_login_info_action() {
    let action = ActionRequest::get_login_info();
    assert_eq!(action.action, "get_login_info");
    assert!(matches!(action.params, ActionParams::LoginInfo));
    assert_ne!(action.echo, ActionRequest::get_login_info().echo);
}

#[test]
fn serializes_get_msg_action() {
    let action = ActionRequest::get_msg(1234567890);
    assert_eq!(action.action, "get_msg");
    assert!(matches!(action.params, ActionParams::GetMsg { message_id: 1234567890 }));
}

#[test]
fn serializes_fetch_ptt_text_action() {
    let action = ActionRequest::fetch_ptt_text(99);
    assert_eq!(action.action, "fetch_ptt_text");
    let ActionParams::FetchPttText { message_id } = action.params else {
        panic!("expected voice action");
    };
    assert_eq!(message_id, "99");
}

#[test]
fn friend_history_action_names_the_friend() {
    let action = ActionRequest::get_friend_msg_history(10001, 5);
    assert_eq!(action.action, "get_friend_msg_history");
    assert!(matches!(
        action.params,
        ActionParams::FriendHistory { user_id: 10001, message_seq: 0, count: 5 }
    ));
}

fn history_message(id: &str, user_id: i64, message: MessageContent, who: Option<Sender>) -> HistoryMessage {
    HistoryMessage {
        message_id: id.to_string(),
        message_seq: 0,
        user_id,
        time: 1700000000,
        message: Some(message),
        sender: who,
        group_id: None,
    }
}

#[test]
fn parses_history_response_and_formats() {
    let data = GroupMsgHistoryData {
        messages: vec![
            history_message(
                "1",
                10001,
                MessageContent::Segments(vec![segment("text", vec![("text", string("hello"))])]),
                Some(sender(10001, "Alice", None)),
            ),
            history_message(
                "2",
                10002,
                MessageContent::Text("world".to_string()),
                Some(sender(10002, "Bob", Some("B"))),
            ),
        ],
    };
    let text = format_history(&data.messages);
    assert!(text.contains("Alice(10001) 消息ID:1: hello"));
    assert!(text.contains("B(10002) 消息ID:2: world"));
    assert!(text.lines().count() == 2);
    let first = text.lines().next().unwrap();
    assert_eq!(&first[..1], "[");
    assert_eq!(&first[3..4], ":");
    assert_eq!(&first[6..8], "] ");
}

#[test]
fn histories_skip_messages_without_text() {
    let messages = vec![
        history_message("1", 1, MessageContent::Text("  ".to_string()), None),
        history_message("2", 2, MessageContent::Text("x".to_string()), None),
        HistoryMessage {
            message_id: "3".to_string(),
            message_seq: 0,
            user_id: 3,
            time: 0,
            message: None,
            sender: None,
            group_id: None,
        },
        history_message("4", 4, MessageContent::Segments(vec![segment("image", vec![])]), None),
    ];
    let stamps = vec![None, Some("08:30".to_string()), None, None];
    assert_eq!(
        format_history_at(&messages, &stamps),
        "[08:30] 2 消息ID:2: x\n[--:--] 4 消息ID:4: [image msg id:4]"
    );
    assert_eq!(format_history_at(&vec![], &vec![]), "");
}

#[test]
fn parses_reply_segment_with_id() {
    let content = MessageContent::Segments(vec![
        segment("reply", vec![("id", string("1234567890"))]),
        segment("text", vec![("text", string(" 收到"))]),
    ]);
    assert_eq!(content.to_text(), "[reply] 收到");
}

#[test]
fn parses_reply_segment_with_numeric_id() {
    let content = MessageContent::Segments(vec![segment("reply", vec![("id", integer(42))])]);
    assert_eq!(content.to_text(), "[reply]");
}

#[test]
fn renders_record_segment_with_message_id() {
    let voice = MessageContent::Segments(vec![segment("record", vec![("file", string("voice.amr"))])]);
    assert_eq!(voice.to_text(), "[record]");
    assert_eq!(voice.to_text_with_id("99"), "[record msg id:99]");

    let mixed = MessageContent::Segments(vec![
        segment("text", vec![("text", string("收到 "))]),
        segment("record", vec![]),
    ]);
    assert_eq!(mixed.to_text_with_id("42"), "收到 [record msg id:42]");
}

#[test]
fn renders_all_non_text_segments_uniformly_with_message_id() {
    let content = MessageContent::Segments(vec![
        segment("image", vec![]),
        segment("face", vec![("id", integer(1))]),
        segment("video", vec![]),
        segment("at", vec![("qq", string("10001"))]),
        segment("forward", vec![]),
        segment("some_future_type", vec![]),
    ]);
    assert_eq!(
        content.to_text_with_id("77"),
        "[image msg id:77][face msg id:77][video msg id:77][at msg id:77][forward msg id:77][some_future_type msg id:77]"
    );
    assert_eq!(content.to_text(), "[image][face][video][at][forward][some_future_type]");
}

#[test]
fn text_segments_without_text_are_empty() {
    let content = MessageContent::Segments(vec![
        segment("text", vec![]),
        segment("text", vec![("text", integer(3))]),
        segment("text", vec![("text", string("x"))]),
    ]);
    assert_eq!(content.to_text(), "x");
}

#[test]
fn parses_get_msg_response() {
    let data = GetMsgData {
        message_id: json_value_to_string(&integer(1234567890)),
        message_type: Some("group".to_string()),
        time: 1700000000,
        user_id: 10001,
        message: Some(MessageContent::Segments(vec![segment(
            "text",
            vec![("text", string("具体回复了这句"))],
        )])),
        sender: Some(sender(10001, "Alice", None)),
    };
    assert_eq!(data.message_id, "1234567890");
    assert_eq!(data.message_type.as_deref(), Some("group"));
    assert_eq!(data.message.unwrap().to_text(), "具体回复了这句");
}

#[test]
fn message_ids_may_be_strings_or_numbers() {
    assert_eq!(json_value_to_string(&string("abc")), "abc");
    assert_eq!(json_value_to_string(&integer(-3)), "-3");
    assert_eq!(json_value_to_string(&Value::Null), "");
    assert_eq!(json_value_to_string(&Value::Array(vec![])), "");
}

#[test]
fn chunks_long_text() {
    let text = "a".repeat(9000);
    let chunks = chunk_text(&text, 4000);
    assert_eq!(chunks.len(), 3);
    assert_eq!(chunks.iter().map(String::len).sum::<usize>(), 9000);
    assert_eq!(chunk_text("short", 4000), vec!["short".to_string()]);
}

#[test]
fn chunks_make_up_the_text() {
    let text = "一二三四五六七";
    assert_eq!(chunk_text(text, 3), vec!["一二三", "四五六", "七"]);
    assert_eq!(chunk_text(text, 7), vec![text]);
    assert_eq!(chunk_text(text, 0), vec![text]);
    assert_eq!(chunk_text("", 0), vec![""]);
    assert!(chunk_text("", 5).is_empty());
    assert_eq!(chunk_text(text, 2).concat(), text);
}

#[test]
fn participants_are_shown_by_their_best_name() {
    assert_eq!(identity(Some(&sender(1, "Alice", Some("A"))), 1), "A(1)");
    assert_eq!(identity(Some(&sender(1, "Alice", Some(""))), 1), "Alice(1)");
    assert_eq!(identity(Some(&sender(1, "", None)), 1), "1");
    assert_eq!(identity(None, -5), "-5");
    assert_eq!(sender(1, "", None).display_name(), "");
}

#[test]
fn routes_are_written_and_read_back() {
    for route in [
        ReplyRoute::Private { user_id: 42 },
        ReplyRoute::Group { group_id: 30003 },
        ReplyRoute::Private { user_id: i64::MIN },
        ReplyRoute::Group { group_id: i64::MAX },
    ] {
        assert_eq!(ReplyRoute::parse(&route.to_context()), Some(route));
    }
    assert_eq!(ReplyRoute::Private { user_id: 42 }.to_context(), "private:42");
    assert_eq!(ReplyRoute::Group { group_id: 30003 }.to_context(), "group:30003");
    for bad in ["", "private", "private:", "private:x", "channel:1", ":1", "group:1:2", "group:9223372036854775808"] {
        assert_eq!(ReplyRoute::parse(bad), None, "{bad}");
    }
}

#[test]
fn routes_send_to_their_chat() {
    let action = ReplyRoute::Private { user_id: 42 }.to_action("hi");
    assert_eq!(action.action, "send_private_msg");
    assert!(matches!(action.params, ActionParams::Private { user_id: 42, .. }));
    let action = ReplyRoute::Group { group_id: 7 }.to_action("hi");
    assert_eq!(action.action, "send_group_msg");
    assert!(matches!(action.params, ActionParams::Group { group_id: 7, .. }));
    assert_eq!(text_segments("x").len(), 1);
}
