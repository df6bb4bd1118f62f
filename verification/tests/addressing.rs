use chat_chain::codec::encode_message_record;
use chat_chain::message::{is_addressed, Message, Role};
use sha1::{Digest, Sha1};

#[test]
fn id_deterministic_same_inputs() {
    let a = Message::new(Role::User, "hello".to_string(), None);
    let b = Message::new(Role::User, "hello".to_string(), None);
    assert_eq!(a.id, b.id);
    let c = Message::new(
        Role::Assistant,
        "reply".to_string(),
        Some("abc123".to_string()),
    );
    let d = Message::new(
        Role::Assistant,
        "reply".to_string(),
        Some("abc123".to_string()),
    );
    assert_eq!(c.id, d.id);
}

#[test]
fn id_changes_with_each_field() {
    let base = Message::new(Role::User, "hello".to_string(), None);
    let other_role = Message::new(Role::Assistant, "hello".to_string(), None);
    let other_content = Message::new(Role::User, "hello!".to_string(), None);
    let other_parent = Message::new(Role::User, "hello".to_string(), Some("p".to_string()));
    assert_ne!(base.id, other_role.id);
    assert_ne!(base.id, other_content.id);
    assert_ne!(base.id, other_parent.id);
    assert_ne!(other_role.id, other_content.id);
}

#[test]
fn id_matches_known_digest() {
    let m = Message::new(Role::User, "hello".to_string(), None);
    assert_eq!(m.id, "1a02c6d0649baa3e396d02d03ea3113b1189eb4d");
}

#[test]
fn id_of_chained_message_matches_known_digest() {
    let user = Message::new(Role::User, "hello".to_string(), None);
    let ai = Message::new(Role::Assistant, "hi there".to_string(), Some(user.id.clone()));
    assert_eq!(ai.id, "c10feac596eee541ef1acb8b60d26c5c650865fc");
}

#[test]
fn id_escaped_content_matches_known_digest() {
    let m = Message::new(Role::User, "say \"hi\"\\now\u{1}".to_string(), None);
    assert_eq!(m.id, "4590dd0709cde5575a5467934f1e8787856a0e64");
}

#[test]
fn id_is_forty_lowercase_hex() {
    let m = Message::new(Role::User, "anything".to_string(), None);
    assert_eq!(m.id.len(), 40);
    assert!(m
        .id
        .chars()
        .all(|c| c.is_ascii_digit() || ('a'..='f').contains(&c)));
}

#[test]
fn canonical_record_bytes() {
    let r = encode_message_record("user", "hello", &None, "");
    assert_eq!(
        r,
        b"{\"role\":\"user\",\"content\":\"hello\",\"parent\":null,\"id\":\"\"}".to_vec()
    );
    let with_parent = encode_message_record("assistant", "hi", &Some("abc".to_string()), "xyz");
    assert_eq!(
        with_parent,
        b"{\"role\":\"assistant\",\"content\":\"hi\",\"parent\":\"abc\",\"id\":\"xyz\"}".to_vec()
    );
}

#[test]
fn canonical_record_escapes() {
    let r = encode_message_record("user", "say \"hi\"\\now\u{1}", &None, "");
    let expected =
        "{\"role\":\"user\",\"content\":\"say \\\"hi\\\"\\\\now\\u0001\",\"parent\":null,\"id\":\"\"}";
    assert_eq!(r, expected.as_bytes().to_vec());
    let ctl = encode_message_record("user", "a\u{8}\t\n\u{c}\r\u{1f}b", &None, "");
    let expected_ctl =
        "{\"role\":\"user\",\"content\":\"a\\b\\t\\n\\f\\r\\u001fb\",\"parent\":null,\"id\":\"\"}";
    assert_eq!(ctl, expected_ctl.as_bytes().to_vec());
}

#[test]
fn addressed_check_accepts_built_and_rejects_tampered() {
    let mut m = Message::new(Role::User, "hello".to_string(), None);
    assert!(is_addressed(&m));
    m.content = "tampered".to_string();
    assert!(!is_addressed(&m));
}

#[test]
fn empty_content_has_canonical_record() {
    let r = encode_message_record("user", "", &None, "");
    assert_eq!(
        r,
        b"{\"role\":\"user\",\"content\":\"\",\"parent\":null,\"id\":\"\"}".to_vec()
    );
    let m = Message::new(Role::User, String::new(), None);
    assert_eq!(m.id.len(), 40);
}

#[test]
fn id_agrees_with_direct_digest_of_canonical_record() {
    let content = "round trip \u{263a} with unicode";
    let m = Message::new(Role::User, content.to_string(), None);
    let payload = encode_message_record("user", content, &None, "");
    let digest = Sha1::digest(&payload);
    let mut expected = String::new();
    for byte in digest {
        expected.push_str(&format!("{:02x}", byte));
    }
    assert_eq!(m.id, expected);
}
