use nota::domain::history::{
    clear_boundary, read_context, read_raw, row_to_entry, HistoryKind, HistoryRow,
};
use nota::domain::permissions::{resolve_path, PathPolicy};
use nota::domain::tool::{Tool, ToolRegistry};
use nota::infra::builtin::{
    path_argument, write_arguments, write_decided, write_prompt, write_target, written_text,
    FilePath, FileRead, FileReadTool, FileWriteTool, ReadStep, ScheduleTool, StatusTool,
};
use nota::infra::persona_store::{
    appended_text, entries_since, is_legacy, list_personas, log_lines, migrated_text,
    missing_file, solo_text, DirEntry, FileCache, FilePersonaStore, Stamp,
};
use nota::onebot::bridge::OneBotBridge;
use nota::onebot::config::OnebotConfig;
use nota::tools::{register_builtin_tools, register_chat_tools, AnyTool};

fn path(parts: &[&str]) -> Vec<String> {
    parts.iter().map(|p| p.to_string()).collect()
}

#[test]
fn stores_know_their_places() {
    let store = FilePersonaStore::new(&path(&["/", "home", ".nota"]));
    assert_eq!(store.workspace("bob"), path(&["/", "home", ".nota", "personas", "bob"]));
    assert_eq!(
        store.history_path("s1"),
        path(&["/", "home", ".nota", "sessions", "s1", "chatlog.jsonl"])
    );
    assert_eq!(solo_text("# {name}\nI am {name}{", "Bob"), "# Bob\nI am Bob{");
    assert_eq!(solo_text("{{name}}", "{name}"), "{{name}}");
    assert_eq!(missing_file("bob", "solo.md"), "persona file not found: bob/solo.md");
}

#[test]
fn personas_are_directories_with_a_personality() {
    let entry = |name: Option<&str>, is_dir: bool, has_solo: bool| DirEntry {
        name: name.map(str::to_string),
        is_dir,
        has_solo,
    };
    let entries = vec![
        entry(Some("bob"), true, true),
        entry(Some("file"), false, true),
        entry(Some("empty"), true, false),
        entry(None, true, true),
        entry(Some("alice"), true, true),
    ];
    assert_eq!(list_personas(&entries), path(&["bob", "alice"]));
}

#[test]
fn cached_files_are_used_until_they_change() {
    let mut cache = FileCache::new();
    let at = |seconds: i64| Stamp { seconds, nanos: 0 };
    let file = "solo.md".to_string();
    assert_eq!(cache.get(&file, at(1)), None);
    cache.keep(file.clone(), "a".to_string(), at(1));
    assert_eq!(cache.get(&file, at(1)).as_deref(), Some("a"));
    assert_eq!(cache.get(&file, at(2)), None);
    cache.keep(file.clone(), "b".to_string(), at(2));
    assert_eq!(cache.get(&file, at(2)).as_deref(), Some("b"));
    cache.invalidate(&file);
    assert_eq!(cache.get(&file, at(2)), None);
}

#[test]
fn logs_give_back_what_was_written() {
    let entries = path(&[r#"{"a":1}"#, r#"{"b":" x "}"#]);
    let mut log = appended_text(&entries);
    assert_eq!(log, "{\"a\":1}\n{\"b\":\" x \"}\n");
    assert_eq!(log_lines(&log), entries);
    let more = path(&["{}"]);
    log.push_str(&appended_text(&more));
    assert_eq!(log_lines(&log), path(&[r#"{"a":1}"#, r#"{"b":" x "}"#, "{}"]));
    assert_eq!(migrated_text(&entries), appended_text(&entries));
    assert_eq!(log_lines("\r\n  {}  \r\n\n"), more);
    assert!(log_lines("").is_empty());
}

#[test]
fn array_logs_are_told_apart() {
    assert!(is_legacy(" \n[{}]"));
    assert!(!is_legacy("{\"a\":[]}"));
    assert!(!is_legacy("  "));
    assert_eq!(entries_since(&vec![1, 5, 3], Some(3)), vec![1, 2]);
    assert_eq!(entries_since(&vec![1, 5, 3], None), vec![0, 1, 2]);
}

// History -----------------------------------------------------------------

fn row(id: i64, kind: i64, content: &str) -> HistoryRow {
    HistoryRow { id, kind, content: content.to_string(), timestamp: id }
}

#[test]
fn clearing_hides_and_keeps() {
    let rows = vec![row(1, 1, "a"), row(2, 2, "b"), row(3, 0, ""), row(4, 9, "?"), row(5, 3, "c")];
    let raw = read_raw(&rows);
    let ids: Vec<i64> = raw.iter().map(|e| e.0).collect();
    assert_eq!(ids, vec![1, 2, 3, 5]);
    let context = read_context(&rows);
    assert_eq!(context.len(), 1);
    assert_eq!(context[0].content, "c");
    assert_eq!(context[0].kind, HistoryKind::Tool);
    assert!(read_context(&vec![row(1, 1, "a"), row(2, 0, "")]).is_empty());
    assert!(row_to_entry(&row(1, -1, "x")).is_none());
    let boundary = clear_boundary(9);
    assert_eq!((boundary.kind, boundary.content.as_str(), boundary.timestamp), (HistoryKind::ClearBoundary, "", 9));
}

#[test]
fn kinds_have_fixed_numbers() {
    for (kind, number) in [
        (HistoryKind::ClearBoundary, 0),
        (HistoryKind::User, 1),
        (HistoryKind::Assistant, 2),
        (HistoryKind::Tool, 3),
    ] {
        assert_eq!(kind.as_i64(), number);
        assert_eq!(HistoryKind::from_i64(number), Some(kind));
    }
    assert_eq!(HistoryKind::from_i64(4), None);
}

// Reading and writing files -----------------------------------------------

fn read_of(display: &str, components: &[&str]) -> FileRead {
    FileRead::begin(
        "bob",
        FilePath { display: display.to_string(), components: path(components) },
        path(&["/", "p", "bob"]),
    )
}

#[test]
fn workspace_files_are_read_without_a_question() {
    let policy = PathPolicy::new();
    let mut read = read_of("/p/bob/a", &["/", "p", "bob", "a"]);
    assert_eq!(read.located(&path(&["/", "p", "bob", "a"]), &policy), ReadStep::Read);
}

#[test]
fn files_elsewhere_need_the_user() {
    let mut policy = PathPolicy::new();
    let question = "bob wants to read outside its workspace: /etc/x".to_string();
    let mut read = read_of("/etc/x", &["/", "etc", "x"]);
    assert_eq!(read.located(&path(&["/", "etc", "x"]), &policy), ReadStep::Ask(question.clone()));
    assert_eq!(read.decided(false), ReadStep::Fail("permission denied".to_string()));
    let mut read = read_of("/etc/x", &["/", "etc", "x"]);
    read.located(&path(&["/", "etc", "x"]), &policy);
    assert_eq!(read.decided(true), ReadStep::Read);
    let mut read = read_of("/etc/x", &["/", "etc", "x"]);
    assert_eq!(read.unlocated(&policy), ReadStep::Ask(question));
    assert_eq!(read.decided(true), ReadStep::Locate);
    policy.allow_read(path(&["/", "etc"]));
    assert_eq!(read.located(&path(&["/", "etc", "x"]), &policy), ReadStep::Read);
    let mut read = read_of("/etc/x", &["/", "etc", "x"]);
    assert_eq!(read.unlocated(&policy), ReadStep::Locate);
}

#[test]
fn links_out_of_the_workspace_need_the_user() {
    let policy = PathPolicy::new();
    let mut read = read_of("/p/bob/link", &["/", "p", "bob", "link"]);
    assert!(matches!(read.located(&path(&["/", "etc", "x"]), &policy), ReadStep::Ask(_)));
}

#[test]
fn file_tools_read_their_arguments() {
    let read = FileReadTool::new(path(&["/", "p"]));
    assert_eq!(read.requested_path(r#"{"path":"a/b"}"#).unwrap(), "a/b");
    assert_eq!(read.requested_path(r#"{"path":1}"#).unwrap_err(), "missing 'path' argument");
    assert_eq!(read.requested_path("nonsense").unwrap_err(), "missing 'path' argument");
    assert_eq!(path_argument(Some("x".to_string())).unwrap(), "x");
    let write = FileWriteTool::new(path(&["/", "p"]));
    let request = write.requested(r#"{"path":"a","content":"b"}"#).unwrap();
    assert_eq!((request.path.as_str(), request.content.as_str()), ("a", "b"));
    assert_eq!(write.requested(r#"{"path":"a"}"#).unwrap_err(), "missing 'content' argument");
    assert_eq!(write_arguments(None, None).unwrap_err(), "missing 'path' argument");
    let workspace = path(&["/", "p", "bob"]);
    assert_eq!(write_prompt("bob", "x", &path(&["/", "p", "bob", "x"]), &workspace), None);
    assert_eq!(
        write_prompt("bob", "/etc/x", &path(&["/", "etc", "x"]), &workspace).as_deref(),
        Some("bob wants to write outside its workspace: /etc/x")
    );
    assert_eq!(write_decided(true), Ok(()));
    assert_eq!(write_decided(false).unwrap_err(), "permission denied");
    assert_eq!(written_text("héllo"), "ok: wrote 6 bytes");
}

#[test]
fn writes_that_leave_the_workspace_ask_first() {
    let workspace = path(&["/", "p", "bob"]);
    let up = path(&["/", "p", "bob", "..", "new.txt"]);
    assert_eq!(
        write_prompt("bob", "/p/bob/../new.txt", &up, &workspace).as_deref(),
        Some("bob wants to write outside its workspace: /p/bob/../new.txt")
    );
    assert_eq!(write_target(&workspace, &path(&["..", "new.txt"])), path(&["/", "p", "new.txt"]));
    let back = path(&["/", "p", "bob", "a", "..", ".", "b"]);
    assert_eq!(write_prompt("bob", "b", &back, &workspace), None);
    assert_eq!(
        write_target(&workspace, &path(&["a", "..", ".", "b"])),
        path(&["/", "p", "bob", "b"])
    );
    let found = path(&["/", "etc", "x"]);
    assert_eq!(write_target(&found, &vec![]), found);
    assert_eq!(
        write_target(&workspace, &path(&["\\", "..", "x"])),
        path(&["/", "p", "bob", "x"])
    );
    assert_eq!(resolve_path(&path(&["/", "..", "a"])), path(&["/", "a"]));
    assert_eq!(resolve_path(&path(&["..", "..", "a"])), path(&["..", "..", "a"]));
    assert!(resolve_path(&path(&["a", ".."])).is_empty());
    assert_eq!(resolve_path(&path(&["\\", "..", "a"])), path(&["\\", "a"]));
    assert_eq!(resolve_path(&path(&["C:", "\\", "..", "a"])), path(&["C:", "\\", "a"]));
    assert_eq!(resolve_path(&path(&["/", "w", "/", "..", "a"])), path(&["/", "w", "a"]));
}

// Reminders ---------------------------------------------------------------

#[test]
fn reminders_are_read_from_dates() {
    let tool = ScheduleTool::new();
    let args = r#"{"message":"drink","trigger_at":"2023-11-14T23:13:20+01:00"}"#;
    let (reminder, told) = tool.run(args, "bob", Some("web_1")).unwrap();
    assert_eq!(reminder.at_unix, 1700000000);
    assert_eq!(reminder.message, "drink");
    assert_eq!(reminder.conversation.persona, "bob");
    assert_eq!(reminder.conversation.conversation_id, "web_1");
    assert_eq!(told, "已安排于 2023-11-14T23:13:20+01:00 提醒");
    assert_eq!(
        tool.run(args, "bob", None).unwrap_err(),
        "no conversation available for scheduling"
    );
}

#[test]
fn odd_reminders_are_refused() {
    let tool = ScheduleTool::new();
    let run = |args: &str| tool.run(args, "bob", Some("web_1")).unwrap_err();
    assert_eq!(run(r#"{"trigger_at":"x"}"#), "missing or empty 'message'");
    assert_eq!(run(r#"{"message":" ","trigger_at":"x"}"#), "missing or empty 'message'");
    assert_eq!(run(r#"{"message":"m"}"#), "missing 'trigger_at'");
    assert_eq!(run(r#"{"message":"m","trigger_at":" "}"#), "missing 'trigger_at'");
    let err = run(r#"{"message":"m","trigger_at":"tomorrow"}"#);
    assert!(err.starts_with("invalid trigger_at (expected ISO 8601): "));
    assert!(err.len() > "invalid trigger_at (expected ISO 8601): ".len());
}

// Registration ------------------------------------------------------------

#[test]
fn tool_families_share_a_registry() {
    let mut registry: ToolRegistry<AnyTool> = ToolRegistry::new();
    register_builtin_tools(&mut registry, &path(&["/", "p"])).unwrap();
    register_chat_tools(&mut registry, "web_1").unwrap();
    let bridge = OneBotBridge::new("bob".to_string(), OnebotConfig::default());
    bridge.register_tools(&mut registry).unwrap();
    let names: Vec<&str> = registry.list().iter().map(|t| t.name()).collect();
    assert_eq!(
        names,
        vec![
            "file_read",
            "file_write",
            "onebot_get_content",
            "onebot_get_msg_history",
            "onebot_send_msg",
            "onebot_status",
            "onebot_voice_text",
            "reply",
            "schedule",
            "status",
        ]
    );
    let err = register_chat_tools(&mut registry, "web_2").unwrap_err();
    assert!(err.contains("duplicate tool name 'reply'"));
    assert_eq!(StatusTool::new().name(), "status");
    assert!(StatusTool::default().parameters().properties.is_empty());
}
