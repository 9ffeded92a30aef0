use nota::domain::conversation::{Conversation, ConversationManager, InboundMessage};
use nota::domain::permissions::PathPolicy;
use nota::domain::persona::Persona;
use nota::infra::runtime::{
    current_session, parse_command, session_plan, Action, PersonaRuntime, Purpose, SessionPlan,
    SlashCommand,
};
use nota::infra::scheduler::{delay_seconds, Reminder};
use nota::infra::wait::{timeout_text, WaitHub, MAX_CONSECUTIVE_WAITS, WAIT_TIMEOUT_SENDER};

const CHAT: &str = "onebot_private_42";

#[test]
fn timeout_delivers_wake_message() {
    let mut manager = ConversationManager::new();
    let inbox = manager.subscribe_persona("bob");
    let mut hub = WaitHub::new();
    let timer = hub.register("bob", CHAT, 1, Some("等对方把话说完")).unwrap().unwrap();
    assert_eq!(timer.seconds, 1);
    assert!(hub.expire(&timer));
    let (to, message) = manager
        .deliver(&timer.conversation, WAIT_TIMEOUT_SENDER, "", &timer.text, None)
        .unwrap();
    assert_eq!(to, inbox);
    assert_eq!(message.sender, WAIT_TIMEOUT_SENDER);
    assert!(message.content.starts_with("[等待超时]"));
    assert!(message.content.contains("等对方把话说完"));
    assert_eq!(message.conversation.conversation_id, CHAT);
    assert!(!hub.expire(&timer));
}

#[test]
fn cancel_prevents_timeout_delivery() {
    let mut hub = WaitHub::new();
    let timer = hub.register("bob", CHAT, 1, None).unwrap().unwrap();
    hub.cancel("bob", CHAT);
    assert!(!hub.expire(&timer));
}

#[test]
fn budget_rejects_more_than_three_consecutive_waits() {
    let mut hub = WaitHub::default();
    for _ in 0..MAX_CONSECUTIVE_WAITS {
        hub.register("bob", CHAT, 0, None).unwrap();
    }
    let err = hub.register("bob", CHAT, 0, None).unwrap_err();
    assert!(err.contains("consecutive waits"));
    hub.cancel("bob", CHAT);
    hub.register("bob", CHAT, 0, None).unwrap();
}

#[test]
fn waits_that_ran_out_use_up_the_budget() {
    let mut hub = WaitHub::default();
    for _ in 0..3 {
        let timer = hub.register("bob", CHAT, 5, None).unwrap().unwrap();
        hub.expire(&timer);
    }
    assert!(hub.register("bob", CHAT, 5, None).is_err());
    assert!(hub.register("bob", "onebot_private_43", 5, None).is_ok());
    hub.cancel("bob", CHAT);
    assert!(hub.register("bob", CHAT, 5, None).is_ok());
}

#[test]
fn replacing_a_pending_wait_cancels_the_old_timer() {
    let mut hub = WaitHub::new();
    let first = hub.register("bob", CHAT, 2, None).unwrap().unwrap();
    let second = hub.register("bob", CHAT, 1, None).unwrap().unwrap();
    assert!(!hub.expire(&first));
    assert!(hub.expire(&second));
    assert!(second.text.contains("1 秒内"));
}

#[test]
fn waits_without_a_limit_have_no_timer() {
    let mut hub = WaitHub::new();
    assert!(hub.register("bob", CHAT, 0, Some("x")).unwrap().is_none());
}

#[test]
fn notices_name_the_reason() {
    assert_eq!(
        timeout_text(10, Some("语音")),
        "[等待超时] 你请求等待（原因：语音），10 秒内没有新的消息到达。如果你还在等对方把话说完，可以主动发送一条消息询问（例如“？”），也可以继续等待或就此结束。"
    );
    assert!(timeout_text(3, None).starts_with("[等待超时] 你请求等待，3 秒内"));
}

// Runtime -----------------------------------------------------------------

fn inbound(sender: &str, prefix: &str, content: &str) -> InboundMessage {
    InboundMessage {
        conversation: Conversation::new("bob", CHAT),
        sender: sender.to_string(),
        prefix: prefix.to_string(),
        content: content.to_string(),
        timestamp: 1,
        request_id: Some("r".to_string()),
    }
}

fn runtime() -> PersonaRuntime {
    PersonaRuntime::new(Persona { name: "bob".to_string() })
}

#[test]
fn commands_are_recognised() {
    assert!(matches!(parse_command("//clear"), Some(SlashCommand::Clear)));
    assert!(matches!(parse_command("  // clear \n"), Some(SlashCommand::Clear)));
    assert!(matches!(
        parse_command("//allow_read  /srv/data "),
        Some(SlashCommand::AllowRead(p)) if p == "/srv/data"
    ));
    assert!(matches!(
        parse_command("//allow_read/srv"),
        Some(SlashCommand::AllowRead(p)) if p == "/srv"
    ));
    for text in ["/clear", "//allow_read", "//allow_read   ", "//clear all", "hello //clear", ""] {
        assert!(parse_command(text).is_none(), "{text}");
    }
}

#[test]
fn real_messages_cancel_waits_and_start_turns() {
    let runtime = runtime();
    let mut hub = WaitHub::new();
    let timer = hub.register("bob", CHAT, 5, None).unwrap().unwrap();
    match runtime.receive(&inbound("user", "[私聊] ", "hi"), &mut hub) {
        Action::Turn { display, request_id } => {
            assert_eq!(display, "[私聊] hi");
            assert_eq!(request_id.as_deref(), Some("r"));
        }
        Action::Command(_) => panic!("expected a turn"),
    }
    assert!(!hub.expire(&timer));
}

#[test]
fn notices_keep_waits_and_budget() {
    let runtime = runtime();
    let mut hub = WaitHub::new();
    for _ in 0..3 {
        let timer = hub.register("bob", CHAT, 5, None).unwrap().unwrap();
        assert!(hub.expire(&timer));
        let notice = inbound(WAIT_TIMEOUT_SENDER, "", &timer.text);
        assert!(matches!(runtime.receive(&notice, &mut hub), Action::Turn { .. }));
    }
    assert!(hub.register("bob", CHAT, 5, None).is_err());
    assert!(matches!(
        runtime.receive(&inbound("user", "", "//clear"), &mut hub),
        Action::Command(SlashCommand::Clear)
    ));
    assert!(hub.register("bob", CHAT, 5, None).is_ok());
}

#[test]
fn sessions_are_created_once_and_archived_on_clear() {
    let some = Some("s".to_string());
    let keep = SessionPlan { archive: false, create: false };
    let create = SessionPlan { archive: false, create: true };
    let both = SessionPlan { archive: true, create: true };
    assert_eq!(session_plan(Purpose::Continue, &some, true), keep);
    assert_eq!(session_plan(Purpose::Continue, &some, false), create);
    assert_eq!(session_plan(Purpose::Continue, &None, true), create);
    assert_eq!(session_plan(Purpose::Clear, &some, true), both);
    assert_eq!(session_plan(Purpose::Clear, &some, false), create);
    assert_eq!(current_session(Some("s".to_string())), some);
    assert_eq!(current_session(Some(String::new())), None);
    assert_eq!(current_session(None), None);
}

#[test]
fn commands_are_answered_in_their_conversation() {
    let mut manager = ConversationManager::new();
    let onebot = manager.subscribe_adapter("onebot");
    manager.subscribe_adapter("web");
    let runtime = runtime();
    let cleared = runtime.reply_cleared(&manager, CHAT);
    assert_eq!(cleared.recipients, vec![onebot]);
    let mut policy = PathPolicy::new();
    let path = vec!["/".to_string(), "srv".to_string()];
    let routed = runtime.allow_read(&mut policy, &manager, CHAT, "/srv", path.clone());
    assert_eq!(routed.recipients, vec![onebot]);
    assert!(format!("{:?}", routed.event).contains("已允许读取：/srv"));
    assert!(format!("{:?}", cleared.event).contains("已开启新的会话，旧记录已存档"));
    assert!(policy.is_read_allowed(&path));
}

#[test]
fn managers_are_kept_for_each_conversation() {
    let mut runtime = runtime();
    assert_eq!(runtime.name(), "bob");
    assert_eq!(runtime.manager_of(CHAT), None);
    let a = runtime.add_manager(CHAT);
    let b = runtime.add_manager("web_1");
    assert_ne!(a, b);
    assert_eq!(runtime.manager_of(CHAT), Some(a));
    assert_eq!(runtime.manager_of("web_1"), Some(b));
}

#[test]
fn reminders_come_from_the_scheduler() {
    let reminder = Reminder {
        at_unix: 100,
        conversation: Conversation::new("bob", CHAT),
        message: "drink".to_string(),
    };
    let mut manager = ConversationManager::new();
    assert!(reminder.deliver_at(&manager, 7).is_none());
    let inbox = manager.subscribe_persona("bob");
    let (to, message) = reminder.deliver_at(&manager, 7).unwrap();
    assert_eq!(to, inbox);
    assert_eq!(message.sender, "scheduler");
    assert_eq!(message.prefix, "");
    assert_eq!(message.content, "drink");
    assert_eq!(message.timestamp, 7);
    assert_eq!(delay_seconds(100, 40), 60);
    assert_eq!(delay_seconds(40, 100), 0);
}
