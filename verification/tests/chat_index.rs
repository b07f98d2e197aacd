use app_server_core::chat_index::{meta_content, new_index_entry, random_identifier, ChatIndex, ChatIndexEntry, CHAT_INDEX_VERSION};
use app_server_core::chat_store::{message_id_for_append, ChatErrorCode, StoredMessageIds};

fn entry(chat_id: &str, agent_id: &str, request: Option<&str>, now_ms: u64) -> ChatIndexEntry<u32> {
    new_index_entry(
        format!("title {chat_id}"),
        None,
        Vec::new(),
        request.map(|r| r.to_string()),
        Some(7),
        chat_id.to_string(),
        agent_id.to_string(),
        now_ms,
    )
}

fn index_of(chats: Vec<ChatIndexEntry<u32>>) -> ChatIndex<u32> {
    ChatIndex::from_legacy(chats)
}

#[test]
fn new_entry_names_its_files_by_ids() {
    let e = entry("chat-1", "agent-1", Some("req-1"), 100);
    assert_eq!(e.messages_path, "chats/chat-1.jsonl");
    assert_eq!(e.events_path, "agent-events/agent-1.jsonl");
    assert!(!e.archived);
    assert_eq!(e.created_at_ms, 100);
    assert_eq!(e.updated_at_ms, 100);
    assert_eq!(e.summary, None);
    assert!(e.open_questions.is_empty());
    assert_eq!(meta_content(&e), "chat:title chat-1");
    let with_goal = new_index_entry::<u32>(
        "t".to_string(),
        Some("build a bracket".to_string()),
        Vec::new(),
        None,
        None,
        "c".to_string(),
        "a".to_string(),
        1,
    );
    assert_eq!(meta_content(&with_goal), "build a bracket");
}

#[test]
fn legacy_index_activates_first_open_chat() {
    let mut first = entry("chat-a", "agent-a", None, 1);
    first.archived = true;
    let second = entry("chat-b", "agent-b", None, 2);
    let index = index_of(vec![first, second]);
    assert_eq!(index.version, CHAT_INDEX_VERSION);
    assert_eq!(index.active_chat_id.as_deref(), Some("chat-b"));
    assert_eq!(index.chats.len(), 2);

    let mut only = entry("chat-c", "agent-c", None, 3);
    only.archived = true;
    let none_open = index_of(vec![only]);
    assert_eq!(none_open.active_chat_id, None);
}

#[test]
fn repeated_create_request_is_answered_by_first_chat() {
    let mut index = index_of(Vec::new());
    assert!(index.existing_creation(Some("req-1")).is_none());
    let created = index.add_chat(entry("chat-1", "agent-1", Some("req-1"), 10));
    assert!(created.created_now);
    assert_eq!(created.session_id, "chat-1");
    assert_eq!(created.agent_id, "agent-1");
    assert_eq!(created.title, "title chat-1");
    assert_eq!(index.active_chat_id.as_deref(), Some("chat-1"));

    let again = index.existing_creation(Some("req-1")).expect("earlier chat");
    assert!(!again.created_now);
    assert_eq!(again.session_id, "chat-1");
    assert_eq!(again.agent_id, "agent-1");
    assert!(index.existing_creation(None).is_none());
    assert!(index.existing_creation(Some("req-2")).is_none());
    assert!(index.has_create_request_id("req-1"));
    assert!(!index.has_create_request_id("req-2"));
}

#[test]
fn select_checks_id_and_archived_state() {
    let mut archived = entry("chat-old", "agent-old", None, 1);
    archived.archived = true;
    let mut index = index_of(vec![entry("chat-a", "agent-a", None, 1), archived]);

    let bad = index.select("bad id!", 5).unwrap_err();
    assert_eq!(bad.code, ChatErrorCode::InvalidCommand);
    let missing = index.select("chat-zzz", 5).unwrap_err();
    assert_eq!(missing.code, ChatErrorCode::NotFound);
    assert_eq!(missing.message, "Chat session 不存在");
    let closed = index.select("chat-old", 5).unwrap_err();
    assert_eq!(closed.code, ChatErrorCode::NotFound);
    assert_eq!(index.active_chat_id.as_deref(), Some("chat-a"));

    index.select("chat-a", 9).unwrap();
    assert_eq!(index.active_chat_id.as_deref(), Some("chat-a"));
    assert_eq!(index.chats[0].updated_at_ms, 9);
    assert_eq!(index.chats[0].created_at_ms, 1);
}

#[test]
fn archiving_active_chat_moves_to_first_open_chat() {
    let mut index = index_of(vec![
        entry("chat-a", "agent-a", None, 1),
        entry("chat-b", "agent-b", None, 2),
        entry("chat-c", "agent-c", None, 3),
    ]);
    index.select("chat-b", 4).unwrap();
    index.archive("chat-b", 5).unwrap();
    assert!(index.chats[1].archived);
    assert_eq!(index.chats[1].updated_at_ms, 5);
    assert_eq!(index.active_chat_id.as_deref(), Some("chat-a"));

    index.archive("chat-c", 6).unwrap();
    assert_eq!(index.active_chat_id.as_deref(), Some("chat-a"));
    index.archive("chat-a", 7).unwrap();
    assert_eq!(index.active_chat_id, None);
    assert_eq!(index.archive("chat-q", 8).unwrap_err().code, ChatErrorCode::NotFound);
    assert_eq!(index.archive("", 8).unwrap_err().code, ChatErrorCode::InvalidCommand);
}

#[test]
fn summary_update_records_fields() {
    let mut index = index_of(vec![entry("chat-a", "agent-a", None, 1)]);
    index
        .update_summary(
            "chat-a",
            "made a cube".to_string(),
            "model a cube".to_string(),
            vec!["cube.scad".to_string()],
            vec!["size?".to_string()],
            42,
        )
        .unwrap();
    let e = &index.chats[0];
    assert_eq!(e.summary.as_deref(), Some("made a cube"));
    assert_eq!(e.goal.as_deref(), Some("model a cube"));
    assert_eq!(e.related_files, vec!["cube.scad".to_string()]);
    assert_eq!(e.open_questions, vec!["size?".to_string()]);
    assert_eq!(e.updated_at_ms, 42);
    assert_eq!(e.title, "title chat-a");
    let err = index
        .update_summary("chat-b", String::new(), String::new(), Vec::new(), Vec::new(), 43)
        .unwrap_err();
    assert_eq!(err.code, ChatErrorCode::NotFound);
}

#[test]
fn lookups_by_chat_and_agent() {
    let index = index_of(vec![entry("chat-a", "agent-a", None, 1), entry("chat-b", "agent-b", None, 2)]);
    assert_eq!(index.agent_id_for_session("chat-b").unwrap(), "agent-b");
    assert_eq!(index.session_id_for_agent("agent-a").unwrap(), "chat-a");
    assert_eq!(index.bound_model_for_session("chat-a").unwrap(), &Some(7));
    assert_eq!(index.bound_model_for_agent("agent-b").unwrap(), &Some(7));
    let e = index.session_id_for_agent("agent-z").unwrap_err();
    assert_eq!(e.code, ChatErrorCode::NotFound);
    assert_eq!(e.message, "Agent 不存在");
    assert_eq!(index.messages_path_for("chat-b").unwrap(), "chats/chat-b.jsonl");
    assert_eq!(index.messages_path_for("chat/../x").unwrap_err().code, ChatErrorCode::InvalidCommand);
}

#[test]
fn listing_skips_archived_unless_asked() {
    let mut archived = entry("chat-b", "agent-b", None, 2);
    archived.archived = true;
    let index = index_of(vec![entry("chat-a", "agent-a", None, 1), archived, entry("chat-c", "agent-c", None, 3)]);
    assert_eq!(index.listed_chats(false), vec![0, 2]);
    assert_eq!(index.listed_chats(true), vec![0, 1, 2]);
}

#[test]
fn random_identifier_is_prefix_dash_and_hex() {
    let id = random_identifier("chat").unwrap();
    assert!(id.starts_with("chat-"));
    let hex = &id["chat-".len()..];
    assert_eq!(hex.len(), 32);
    assert!(hex.chars().all(|c| c.is_ascii_hexdigit() && !c.is_ascii_uppercase()));
    assert_ne!(random_identifier("chat").unwrap(), id);
}

#[test]
fn append_numbers_messages_and_repeats_by_request() {
    let mut stored: Vec<StoredMessageIds> = Vec::new();
    assert_eq!(message_id_for_append(&stored, None), ("msg-1".to_string(), true));
    stored.push(StoredMessageIds { message_id: "msg-1".to_string(), client_request_id: Some("req-a".to_string()) });
    stored.push(StoredMessageIds { message_id: "msg-2".to_string(), client_request_id: None });
    assert_eq!(message_id_for_append(&stored, Some("req-a")), ("msg-1".to_string(), false));
    assert_eq!(message_id_for_append(&stored, Some("req-b")), ("msg-3".to_string(), true));
    assert_eq!(message_id_for_append(&stored, None), ("msg-3".to_string(), true));
}
