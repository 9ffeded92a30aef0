use nota::domain::session::{MessageRole, SessionItem, ToolCall, ToolCallKind};
use nota::llm::store::{
    create, item_type, list, meta_i64, next_seq, session_file, session_id_of, StoredSession,
};

fn stored(id: &str, seq: i64) -> StoredSession {
    StoredSession { id: id.to_string(), seq, created_at: 0 }
}

#[test]
fn session_files_are_named_by_id() {
    assert_eq!(session_file("abc"), "abc.db");
    assert_eq!(session_id_of("abc.db").as_deref(), Some("abc"));
    assert_eq!(session_id_of("a.b.db").as_deref(), Some("a.b"));
    assert_eq!(session_id_of(".db"), None);
    assert_eq!(session_id_of("current.json"), None);
    assert_eq!(session_id_of("xdb"), None);
}

#[test]
fn sequence_numbers_grow() {
    assert_eq!(next_seq(&vec![]), 1);
    assert_eq!(next_seq(&vec![3, 1, 2]), 4);
    assert_eq!(next_seq(&vec![-5]), 1);
    let fresh = create(&vec![7], 1700000000123);
    assert_eq!(fresh.seq, 8);
    assert_eq!(fresh.created_at, 1700000000123);
    assert_eq!(fresh.id.len(), 36);
    assert_ne!(fresh.id, create(&vec![7], 1700000000123).id);
}

#[test]
fn sessions_are_listed_in_creation_order() {
    let sorted = list(vec![stored("c", 2), stored("b", 1), stored("a", 2), stored("d", 3)]);
    let ids: Vec<&str> = sorted.iter().map(|s| s.id.as_str()).collect();
    assert_eq!(ids, vec!["b", "a", "c", "d"]);
    assert!(list(vec![]).is_empty());
}

#[test]
fn created_sessions_are_listed_behind_earlier_ones() {
    let s1 = create(&vec![], 1);
    let s2 = create(&vec![s1.seq], 2);
    assert_ne!(s1.id, s2.id);
    let sessions = list(vec![stored(&s2.id, s2.seq), stored(&s1.id, s1.seq)]);
    assert_eq!(sessions.len(), 2);
    assert_eq!(sessions[0].id, s1.id);
    assert_eq!(sessions[1].id, s2.id);
}

#[test]
fn metadata_numbers_are_read() {
    assert_eq!(meta_i64(None, "seq", "s").unwrap(), None);
    assert_eq!(meta_i64(Some("42".to_string()), "seq", "s").unwrap(), Some(42));
    assert_eq!(meta_i64(Some("-7".to_string()), "seq", "s").unwrap(), Some(-7));
    assert_eq!(
        meta_i64(Some("x".to_string()), "seq", "s").unwrap_err(),
        "bad seq for s: invalid digit found in string"
    );
    assert_eq!(
        meta_i64(Some(String::new()), "created_at", "s").unwrap_err(),
        "bad created_at for s: cannot parse integer from empty string"
    );
    assert_eq!(
        meta_i64(Some("9223372036854775808".to_string()), "seq", "s").unwrap_err(),
        "bad seq for s: number too large to fit in target type"
    );
}

#[test]
fn item_types_are_plain_numbers() {
    let items = [
        SessionItem::Message { role: MessageRole::User, content: String::new() },
        SessionItem::Reasoning { content: String::new() },
        SessionItem::ToolCall(ToolCall {
            id: String::new(),
            kind: ToolCallKind::FunctionCall,
            name: None,
            arguments: None,
        }),
        SessionItem::ToolCallOutput { call_id: String::new(), output: String::new() },
        SessionItem::Wait { arguments: String::new() },
    ];
    let types: Vec<u8> = items.iter().map(item_type).collect();
    assert_eq!(types, vec![1, 2, 3, 4, 5]);
}
