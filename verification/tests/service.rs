use chat_chain::chat::Chat;
use chat_chain::message::{Message, Role};
use chat_chain::state::State;
use chat_chain::ChatError;

#[test]
fn create_and_list_single_chat() {
    let mut s = State::new();
    s.create_chat("demo".to_string());
    let chats = s.list_chats();
    assert_eq!(chats.len(), 1);
    assert_eq!(chats[0].title, "demo");
    assert!(chats[0].head.is_none());
}

#[test]
fn post_and_fetch_transcript() {
    let mut s = State::new();
    s.create_chat("demo".to_string());
    let (user, hist) = s.post_user_message("demo", "hello".to_string()).unwrap();
    assert_eq!(hist.len(), 1);
    assert_eq!(hist[0].id, user.id);
    let ai = s
        .post_completion("demo", user.id.as_str(), Some("hi there".to_string()))
        .unwrap();
    let (chat, messages) = s.fetch_transcript("demo").unwrap();
    assert_eq!(chat.head, Some(ai.id.clone()));
    assert_eq!(messages.len(), 2);
    assert_eq!(messages[0].role, Role::User);
    assert_eq!(messages[0].content, "hello");
    assert_eq!(messages[0].parent, None);
    assert_eq!(messages[0].id, user.id);
    assert_eq!(messages[1].role, Role::Assistant);
    assert_eq!(messages[1].content, "hi there");
    assert_eq!(messages[1].parent, Some(user.id.clone()));
    assert_eq!(messages[1].id, ai.id);
}

#[test]
fn fetch_transcript_missing_title_not_found() {
    let s = State::new();
    assert!(matches!(
        s.fetch_transcript("nonexistent"),
        Err(ChatError::NotFound)
    ));
}

#[test]
fn completion_failure_leaves_head_at_user() {
    let mut s = State::new();
    s.create_chat("demo".to_string());
    let (user, _) = s.post_user_message("demo", "hello".to_string()).unwrap();
    let r = s.post_completion("demo", user.id.as_str(), None);
    assert!(matches!(r, Err(ChatError::CompletionFailed)));
    let chat = s.read_chat("demo").unwrap();
    assert_eq!(chat.head, Some(user.id.clone()));
    let stored = s.load_message(user.id.as_str()).unwrap();
    assert_eq!(stored.content, "hello");
    assert_eq!(stored.role, Role::User);
}

#[test]
fn save_message_idempotent() {
    let mut s = State::new();
    let m = Message::new(Role::User, "same".to_string(), None);
    s.save_message(&m);
    let first = s.load_message(m.id.as_str()).unwrap();
    let count_after_first = s.messages.len();
    s.save_message(&m);
    let second = s.load_message(m.id.as_str()).unwrap();
    assert_eq!(s.messages.len(), count_after_first);
    assert_eq!(first.content, second.content);
    assert_eq!(first.id, second.id);
    assert_eq!(first.parent, second.parent);
    assert_eq!(first.role, second.role);
}

#[test]
fn register_idempotent_and_distinct() {
    let mut s = State::new();
    s.register("alpha");
    let once = s.list_titles();
    s.register("alpha");
    let twice = s.list_titles();
    assert_eq!(once.len(), twice.len());
    assert_eq!(once, twice);
    s.register("beta");
    let titles = s.list_titles();
    assert!(titles.iter().any(|t| t == "alpha"));
    assert!(titles.iter().any(|t| t == "beta"));
    assert_eq!(titles, vec!["alpha".to_string(), "beta".to_string()]);
}

#[test]
fn chain_of_three_reconstructs_in_order() {
    let mut s = State::new();
    let root = Message::new(Role::User, "one".to_string(), None);
    let mid = Message::new(Role::Assistant, "two".to_string(), Some(root.id.clone()));
    let top = Message::new(Role::User, "three".to_string(), Some(mid.id.clone()));
    s.save_message(&root);
    s.save_message(&mid);
    s.save_message(&top);
    let hist = s.get_message_history(top.id.as_str()).unwrap();
    assert_eq!(hist.len(), 3);
    assert_eq!(hist[0].content, "one");
    assert_eq!(hist[1].content, "two");
    assert_eq!(hist[2].content, "three");
    let root_hist = s.get_message_history(root.id.as_str()).unwrap();
    assert_eq!(root_hist.len(), 1);
    assert_eq!(root_hist[0].content, "one");
}

#[test]
fn broken_chain_reported() {
    let mut s = State::new();
    assert!(matches!(
        s.get_message_history("deadbeef"),
        Err(ChatError::BrokenChain)
    ));
    let orphan = Message::new(Role::User, "x".to_string(), Some("missing".to_string()));
    s.save_message(&orphan);
    assert!(matches!(
        s.get_message_history(orphan.id.as_str()),
        Err(ChatError::BrokenChain)
    ));
    s.save_chat(&Chat {
        title: "bad".to_string(),
        head: Some("missing".to_string()),
    });
    assert!(matches!(
        s.fetch_transcript("bad"),
        Err(ChatError::BrokenChain)
    ));
}

#[test]
fn cycle_reported_as_corrupt_data() {
    let s = State {
        messages: vec![
            Message {
                role: Role::User,
                content: "loop".to_string(),
                parent: Some("selfref".to_string()),
                id: "selfref".to_string(),
            },
        ],
        chats: Vec::new(),
        index: Vec::new(),
    };
    assert!(matches!(
        s.get_message_history("selfref"),
        Err(ChatError::CorruptData)
    ));
}

#[test]
fn create_chat_resets_record_keeps_index() {
    let mut s = State::new();
    s.create_chat("demo".to_string());
    let (user, _) = s.post_user_message("demo", "hello".to_string()).unwrap();
    assert_eq!(s.read_chat("demo").unwrap().head, Some(user.id.clone()));
    s.create_chat("demo".to_string());
    assert_eq!(s.read_chat("demo").unwrap().head, None);
    assert_eq!(s.list_titles().len(), 1);
    assert_eq!(s.list_chats().len(), 1);
}

#[test]
fn listing_skips_unresolved_titles() {
    let mut s = State::new();
    s.register("ghost");
    assert_eq!(s.list_titles().len(), 1);
    assert_eq!(s.list_chats().len(), 0);
    s.create_chat("real".to_string());
    let chats = s.list_chats();
    assert_eq!(chats.len(), 1);
    assert_eq!(chats[0].title, "real");
}

#[test]
fn load_message_not_found() {
    let s = State::new();
    assert!(matches!(
        s.load_message("0000000000000000000000000000000000000000"),
        Err(ChatError::NotFound)
    ));
    assert!(matches!(s.read_chat("none"), Err(ChatError::NotFound)));
}

#[test]
fn empty_chat_fetches_empty_transcript() {
    let mut s = State::new();
    s.create_chat("fresh".to_string());
    let (chat, messages) = s.fetch_transcript("fresh").unwrap();
    assert_eq!(chat.title, "fresh");
    assert!(chat.head.is_none());
    assert!(messages.is_empty());
}

#[test]
fn empty_title_is_a_valid_key() {
    let mut s = State::new();
    s.create_chat(String::new());
    let (user, _) = s.post_user_message("", "hi".to_string()).unwrap();
    assert_eq!(s.read_chat("").unwrap().head, Some(user.id.clone()));
    assert_eq!(s.list_chats().len(), 1);
}

#[test]
fn post_to_missing_chat_keeps_message() {
    let mut s = State::new();
    let r = s.post_user_message("absent", "hello".to_string());
    assert!(matches!(r, Err(ChatError::NotFound)));
    let probe = Message::new(Role::User, "hello".to_string(), None);
    let stored = s.load_message(probe.id.as_str()).unwrap();
    assert_eq!(stored.content, "hello");
}
