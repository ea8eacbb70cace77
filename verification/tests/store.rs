use esmail::store::{
    envelope_from_headers, first_address, parse_envelope, split_address, Envelope, ListedAddress,
    Mailbox, Store,
};

const RAW: &[u8] = b"From: Alice Smith <alice@example.com>\r\nTo: bob@example.com, carol@example.com\r\nSubject: =?utf-8?Q?caf=C3=A9?=\r\nDate: Mon, 1 Jan 2026 00:00:00 +0000\r\nmessage-id: <m1@example.com>\r\n\r\nhello";

fn triple(a: &str, b: &str, c: &str) -> Option<(String, String, String)> {
    Some((a.to_string(), b.to_string(), c.to_string()))
}

#[test]
fn an_envelope_is_read_from_the_headers() {
    let e = parse_envelope(RAW);
    assert_eq!(e.subject, "caf\u{e9}");
    assert_eq!(e.date, "Mon, 1 Jan 2026 00:00:00 +0000");
    assert_eq!(e.message_id, "<m1@example.com>");
    assert_eq!(e.from, triple("Alice Smith", "alice", "example.com"));
    assert_eq!(e.to, triple("", "bob", "example.com"));
}

#[test]
fn an_empty_message_has_an_empty_envelope() {
    let e = parse_envelope(b"");
    assert_eq!((e.subject.as_str(), e.date.as_str(), e.message_id.as_str()), ("", "", ""));
    assert_eq!((e.from, e.to), (None, None));
}

#[test]
fn groups_and_unreadable_lists_give_no_address() {
    let e = parse_envelope(b"From: Team: a@example.com, b@example.com;\r\nTo: <broken\r\n\r\n");
    assert_eq!((e.from, e.to), (None, None));
    assert_eq!(first_address("", &Some(vec![])), None);
    assert_eq!(first_address("x", &None), None);
    assert_eq!(first_address("x", &Some(vec![ListedAddress::Group])), None);
}

#[test]
fn an_address_is_split_at_its_first_at_sign() {
    assert_eq!(
        split_address(&Some("N".to_string()), "a@b@c"),
        ("N".to_string(), "a".to_string(), "b@c".to_string())
    );
    assert_eq!(split_address(&None, "local"), (String::new(), "local".to_string(), String::new()));
}

#[test]
fn the_first_of_repeated_headers_counts() {
    let headers = vec![
        ("SUBJECT".to_string(), "one".to_string()),
        ("Subject".to_string(), "two".to_string()),
    ];
    assert_eq!(envelope_from_headers(&headers).subject, "one");
}

fn blank() -> Envelope {
    Envelope { date: String::new(), subject: String::new(), from: None, to: None, message_id: String::new() }
}

#[test]
fn a_mailbox_numbers_its_messages_from_one() {
    let mut m = Mailbox::new("INBOX", 7);
    assert_eq!((m.name.as_str(), m.uid_validity, m.uid_next), ("INBOX", 7, 1));
    assert_eq!(m.append(b"a".to_vec(), blank()), 1);
    assert_eq!(m.append(b"b".to_vec(), blank()), 2);
    assert_eq!(m.uid_next, 3);
    let uids: Vec<u32> = m.messages.iter().map(|s| s.uid).collect();
    assert_eq!(uids, vec![1, 2]);
    assert_eq!(m.messages[1].raw, b"b".to_vec());
}

#[test]
fn a_user_gets_the_usual_mailboxes_and_can_log_in() {
    let mut s = Store::new();
    assert!(!s.check_login("alice", "pw"));
    s.add_user("alice", "pw");
    assert_eq!(s.mailbox_names(), vec!["Drafts", "INBOX", "Sent", "Trash"]);
    assert!(s.check_login("alice", "pw"));
    assert!(!s.check_login("alice", "PW") && !s.check_login("bob", "pw"));
    s.add_user("alice", "new");
    s.add_user("bob", "b");
    assert!(s.check_login("alice", "new") && !s.check_login("alice", "pw") && s.check_login("bob", "b"));
    assert_eq!(s.mailbox_names().len(), 4);
    assert_eq!(s.mailbox("INBOX").unwrap().uid_validity, 1);
}

#[test]
fn delivered_mail_lands_in_its_mailbox() {
    let mut s = Store::new();
    s.add_user("alice", "pw");
    assert_eq!(s.deliver("INBOX", RAW.to_vec()), 1);
    assert_eq!(s.deliver("INBOX", b"x".to_vec()), 2);
    assert_eq!(s.deliver("Archive", b"y".to_vec()), 1);
    assert_eq!(s.mailbox_names(), vec!["Archive", "Drafts", "INBOX", "Sent", "Trash"]);
    let inbox = s.mailbox("INBOX").unwrap();
    assert_eq!(inbox.messages.len(), 2);
    assert_eq!(inbox.messages[0].raw, RAW.to_vec());
    assert_eq!(inbox.messages[0].envelope.subject, "caf\u{e9}");
    assert!(s.mailbox("Sent").unwrap().messages.is_empty());
    assert!(s.mailbox("Nowhere").is_none());
    s.mailbox_mut("INBOX").unwrap().uid_validity = 9;
    assert_eq!(s.mailbox("INBOX").unwrap().uid_validity, 9);
    assert!(s.mailbox_mut("Nowhere").is_none());
}
