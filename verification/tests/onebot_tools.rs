use nota::domain::conversation::{AdapterEvent, ConversationManager};
use nota::domain::permissions::ToolContext;
use nota::domain::tool::Tool;
use nota::onebot::tools::{
    is_valid_target, message_id_argument, send_arguments, Attempt, OneBotGetContentTool,
    OneBotGetMsgHistoryTool, OneBotSendMsgTool, OneBotStatusTool, OneBotVoiceTextTool, Reply,
    VoiceStep,
};
use nota::onebot::types::{
    ActionParams, GetMsgData, HistoryMessage, LoginInfoData, MessageContent, Sender,
};

fn ctx() -> ToolContext {
    ToolContext { persona_name: "bob".to_string(), request_id: None }
}

fn ok() -> Reply {
    Reply { status: Some("ok".to_string()), retcode: Some(0) }
}

fn failed() -> Reply {
    Reply { status: Some("failed".to_string()), retcode: Some(1200) }
}

#[test]
fn onebot_send_msg_routes_target_event() {
    let mut manager = ConversationManager::new();
    let outbox = manager.subscribe_adapter("onebot");
    let (routed, told) = OneBotSendMsgTool::default()
        .run(
            r#"{"target":"group:30003","content":"yo"}"#,
            &ctx(),
            Some("onebot_private_42"),
            &manager,
        )
        .unwrap();
    assert_eq!(routed.recipients, vec![outbox]);
    let AdapterEvent::Outbound(e) = routed.event else {
        panic!("expected outbound event");
    };
    assert_eq!(e.conversation_id.as_deref(), Some("onebot_private_42"));
    assert_eq!(e.target.as_deref(), Some("group:30003"));
    assert_eq!(e.content, "yo");
    assert_eq!(told, "已发送");
}

#[test]
fn onebot_send_msg_rejects_bad_target() {
    let manager = ConversationManager::new();
    let err = OneBotSendMsgTool::default()
        .run(r#"{"target":"bogus","content":"yo"}"#, &ctx(), None, &manager)
        .unwrap_err();
    assert!(err.contains("target"));
    let err = OneBotSendMsgTool::default()
        .run(r#"{"target":"group:1","content":"  "}"#, &ctx(), None, &manager)
        .unwrap_err();
    assert_eq!(err, "missing or empty 'content'");
    let err = OneBotSendMsgTool::default().run("not json", &ctx(), None, &manager).unwrap_err();
    assert_eq!(err, "missing or invalid 'target' (expected private:<id> or group:<id>)");
    assert!(send_arguments(Some("private:1".to_string()), None).is_err());
    assert!(is_valid_target("private:-1"));
    assert!(!is_valid_target("private:1.5"));
}

fn history_message(id: &str, text: &str) -> HistoryMessage {
    HistoryMessage {
        message_id: id.to_string(),
        message_seq: 0,
        user_id: 10001,
        time: 1700000000,
        message: Some(MessageContent::Text(text.to_string())),
        sender: Some(Sender { user_id: 10001, nickname: "Alice".to_string(), card: None }),
        group_id: None,
    }
}

#[test]
fn onebot_get_msg_history_reads_group() {
    let tool = OneBotGetMsgHistoryTool::new();
    let request = tool.prepare(r#"{"target":"group:30003","limit":10}"#).unwrap();
    assert_eq!(request.action.action, "get_group_msg_history");
    assert!(matches!(
        request.action.params,
        ActionParams::GroupHistory { group_id: 30003, message_seq: 0, count: 10 }
    ));
    let out = tool.conclude(&request, &ok(), Ok(vec![history_message("1", "hi")])).unwrap();
    assert!(out.contains("Recent messages in group:30003"));
    assert!(out.contains("Alice(10001) 消息ID:1: hi"));
}

#[test]
fn onebot_get_msg_history_reads_private() {
    let tool = OneBotGetMsgHistoryTool::new();
    let request = tool.prepare(r#"{"target":"private:10001"}"#).unwrap();
    assert_eq!(request.action.action, "get_friend_msg_history");
    assert!(matches!(
        request.action.params,
        ActionParams::FriendHistory { user_id: 10001, message_seq: 0, count: 20 }
    ));
    let out = tool.conclude(&request, &ok(), Ok(vec![])).unwrap();
    assert_eq!(out, "chat private:10001 has no readable recent messages");
}

#[test]
fn history_limits_are_clamped() {
    let tool = OneBotGetMsgHistoryTool::new();
    for (limit, expected) in [("0", 1), ("-3", 1), ("100", 100), ("101", 100), ("\"7\"", 20)] {
        let request = tool.prepare(&format!("{{\"target\":\"group:1\",\"limit\":{limit}}}")).unwrap();
        let ActionParams::GroupHistory { count, .. } = request.action.params else {
            panic!("expected history action");
        };
        assert_eq!(count, expected, "{limit}");
    }
    assert!(tool.prepare("{}").is_err());
}

#[test]
fn failed_histories_are_explained() {
    let tool = OneBotGetMsgHistoryTool::new();
    let group = tool.prepare(r#"{"target":"group:1"}"#).unwrap();
    assert_eq!(
        tool.conclude(&group, &failed(), Ok(vec![])).unwrap_err(),
        "get_group_msg_history failed: status=Some(\"failed\") retcode=Some(1200)"
    );
    let private = tool.prepare(r#"{"target":"private:1"}"#).unwrap();
    let silent = Reply { status: None, retcode: None };
    assert_eq!(
        tool.conclude(&private, &silent, Ok(vec![])).unwrap_err(),
        "get_friend_msg_history failed: status=None retcode=None — get_friend_msg_history is a NapCat/go-cqhttp extension; this OneBot implementation may not support reading private chat history — for a single message use onebot_get_content instead"
    );
    assert_eq!(tool.conclude(&group, &ok(), Err("bad data".to_string())).unwrap_err(), "bad data");
}

#[test]
fn onebot_status_reports_connection_and_login_info() {
    let tool = OneBotStatusTool::new("ws://127.0.0.1:3001".to_string());
    assert_eq!(tool.prepare(true).unwrap().action, "get_login_info");
    assert!(tool.prepare(false).is_none());
    let login = LoginInfoData { user_id: 20002, nickname: "Nota".to_string() };
    let out = tool.conclude(true, Some(0), Some(login));
    assert!(out.contains("QQ 20002 (Nota)"));
    assert!(out.contains("connected: true"));
    assert!(out.contains("ws://127.0.0.1:3001"));
    assert_eq!(
        tool.conclude(false, None, None),
        "Bot status: QQ 0 () · connected: false · ws://127.0.0.1:3001"
    );
}

#[test]
fn contents_are_shown_with_sender_and_time() {
    let tool = OneBotGetContentTool::new();
    assert!(matches!(
        tool.prepare(r#"{"message_id":" 12 "}"#).unwrap().params,
        ActionParams::GetMsg { message_id: 12 }
    ));
    assert!(matches!(
        tool.prepare(r#"{"message_id":12}"#).unwrap().params,
        ActionParams::GetMsg { message_id: 12 }
    ));
    let data = |time: i64| GetMsgData {
        message_id: "12".to_string(),
        message_type: None,
        time,
        user_id: 10001,
        message: Some(MessageContent::Text("hi".to_string())),
        sender: None,
    };
    let out = tool.conclude(&ok(), Some(Ok(data(1700000000)))).unwrap();
    assert!(out.starts_with("消息 12（unknown，2023-11-1"), "{out}");
    assert!(out.ends_with("）10001: hi"), "{out}");
    assert_eq!(
        tool.conclude(&ok(), Some(Ok(data(i64::MAX)))).unwrap(),
        "消息 12（unknown，--）10001: hi"
    );
    for (time, dated) in [
        (-8334601228801, false),
        (-8334601228800, true),
        (8210266876799, true),
        (8210266876800, false),
    ] {
        let out = tool.conclude(&ok(), Some(Ok(data(time)))).unwrap();
        assert_eq!(out != "消息 12（unknown，--）10001: hi", dated, "{time}");
    }
    assert_eq!(tool.conclude(&ok(), None).unwrap_err(), "get_msg returned no data");
    assert_eq!(tool.conclude(&ok(), Some(Err("odd".to_string()))).unwrap_err(), "odd");
    assert_eq!(
        tool.conclude(&failed(), None).unwrap_err(),
        "get_msg failed: status=Some(\"failed\") retcode=Some(1200)"
    );
}

fn answered(reply: Reply, text: Option<&str>) -> Attempt {
    Attempt::Answered { reply, text: text.map(|t| Ok(t.to_string())) }
}

#[test]
fn get_voice_text_returns_transcription() {
    let mut run = OneBotVoiceTextTool::new().prepare(r#"{"message_id":"99"}"#).unwrap();
    assert_eq!(run.action().action, "fetch_ptt_text");
    match run.tried(answered(ok(), Some("今天的天气真好"))) {
        VoiceStep::Done(out) => assert_eq!(out.unwrap(), "语音 99 转文字: 今天的天气真好"),
        VoiceStep::Retry(_) => panic!("expected an answer"),
    }
}

#[test]
fn get_voice_text_bails_on_failure() {
    let mut run = OneBotVoiceTextTool::new().prepare(r#"{"message_id":"99"}"#).unwrap();
    assert!(matches!(run.tried(answered(failed(), None)), VoiceStep::Retry(2)));
    assert!(matches!(run.tried(Attempt::Failed("lost".to_string())), VoiceStep::Retry(2)));
    match run.tried(answered(failed(), None)) {
        VoiceStep::Done(Err(err)) => {
            assert!(err.contains("转写失败（重试 3 次）"));
            assert!(err.contains("retcode=Some(1200)"));
            assert_eq!(
                err,
                "语音 99 转写失败（重试 3 次）：fetch_ptt_text failed: status=Some(\"failed\") retcode=Some(1200)。语音可能还在处理中，稍后重试或让用户重新发送"
            );
        }
        _ => panic!("expected an error"),
    }
}

#[test]
fn get_voice_text_retries_then_succeeds() {
    let mut run = OneBotVoiceTextTool::new().prepare(r#"{"message_id":"1193185804"}"#).unwrap();
    assert!(matches!(run.tried(answered(failed(), None)), VoiceStep::Retry(_)));
    match run.tried(answered(ok(), Some("现在能听见了吗？"))) {
        VoiceStep::Done(out) => {
            assert_eq!(out.unwrap(), "语音 1193185804 转文字: 现在能听见了吗？")
        }
        VoiceStep::Retry(_) => panic!("expected an answer"),
    }
}

#[test]
fn get_voice_text_rejects_missing_id() {
    let err = OneBotVoiceTextTool::new().prepare("{}").unwrap_err();
    assert!(err.contains("message_id"));
    assert_eq!(message_id_argument(Some("x".to_string()), Some(3)).unwrap(), 3);
    assert_eq!(message_id_argument(Some("4".to_string()), Some(3)).unwrap(), 4);
    assert!(message_id_argument(None, None).is_err());
}

#[test]
fn silent_voices_are_told_apart() {
    let mut run = OneBotVoiceTextTool::new().prepare(r#"{"message_id":5}"#).unwrap();
    match run.tried(answered(ok(), Some("  "))) {
        VoiceStep::Done(out) => assert_eq!(out.unwrap(), "语音 5 没有可转写的文字内容"),
        VoiceStep::Retry(_) => panic!("expected an answer"),
    }
    assert!(matches!(run.tried(answered(ok(), None)), VoiceStep::Retry(2)));
    assert!(matches!(
        run.tried(Attempt::Answered { reply: ok(), text: Some(Err("odd".to_string())) }),
        VoiceStep::Retry(2)
    ));
}

#[test]
fn onebot_tools_carry_their_prefix() {
    let names = [
        OneBotSendMsgTool::default().name().to_string(),
        OneBotGetMsgHistoryTool::new().name().to_string(),
        OneBotGetContentTool::new().name().to_string(),
        OneBotStatusTool::new(String::new()).name().to_string(),
        OneBotVoiceTextTool::new().name().to_string(),
    ];
    assert!(names.iter().all(|n| n.starts_with("onebot_")));
    let history = OneBotGetMsgHistoryTool::new().parameters();
    assert_eq!(history.required, vec!["target".to_string()]);
    assert_eq!(history.properties[1].0, "limit");
    assert_eq!(history.properties[1].1.prop_type, "integer");
}
