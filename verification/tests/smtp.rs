use esmail::compose::ComposeState;
use esmail::config::TlsMode;
use esmail::smtp::{
    build_message, guess_mime_type, relay_kind, send_event, split_addresses, Relay, SmtpAccount,
    SmtpEvent,
};
use secrecy::SecretString;

fn account(from: &str) -> SmtpAccount<SecretString> {
    SmtpAccount {
        host: "smtp.example.com".to_string(),
        port: 465,
        tls: TlsMode::Ssl,
        username: "alice@example.com".to_string(),
        password: SecretString::from("hunter2"),
        from_address: from.to_string(),
    }
}

fn raw(account: &SmtpAccount<SecretString>, compose: &ComposeState) -> String {
    let message = build_message(account, compose).expect("should build");
    String::from_utf8_lossy(&message.formatted()).to_string()
}

#[test]
fn split_addresses_trims_and_drops_empty_entries() {
    assert_eq!(
        split_addresses(" alice@example.com ,bob@example.com,, carol@example.com"),
        vec!["alice@example.com", "bob@example.com", "carol@example.com"]
    );
}

#[test]
fn split_addresses_of_an_empty_field_is_empty() {
    assert!(split_addresses("").is_empty());
    assert!(split_addresses("   ").is_empty());
}

#[test]
fn guess_mime_type_recognizes_common_extensions() {
    assert_eq!(guess_mime_type("report.pdf"), "application/pdf");
    assert_eq!(guess_mime_type("photo.JPG"), "image/jpeg");
}

#[test]
fn guess_mime_type_falls_back_to_octet_stream() {
    assert_eq!(guess_mime_type("mystery.xyz"), "application/octet-stream");
    assert_eq!(guess_mime_type("no_extension"), "application/octet-stream");
}

#[test]
fn guess_mime_type_knows_its_whole_table() {
    for (name, mime) in [
        ("a.png", "image/png"),
        ("a.jpeg", "image/jpeg"),
        ("a.gif", "image/gif"),
        ("a.txt", "text/plain"),
        ("a.csv", "text/csv"),
        ("a.html", "text/html"),
        ("a.HTM", "text/html"),
        ("a.zip", "application/zip"),
        ("a.doc", "application/msword"),
        ("a.docx", "application/vnd.openxmlformats-officedocument.wordprocessingml.document"),
        ("a.xls", "application/vnd.ms-excel"),
        ("a.xlsx", "application/vnd.openxmlformats-officedocument.spreadsheetml.sheet"),
        ("pdf", "application/pdf"),
        ("a.tar.gz", "application/octet-stream"),
        ("a.pdf.", "application/octet-stream"),
        ("", "application/octet-stream"),
    ] {
        assert_eq!(guess_mime_type(name), mime, "{name}");
    }
}

#[test]
fn build_message_with_no_attachments_produces_a_plain_body() {
    let account = account("Alice <alice@example.com>");
    let compose = ComposeState {
        to: "bob@example.com".to_string(),
        subject: "Hello".to_string(),
        body: "Hi Bob".to_string(),
        ..Default::default()
    };
    let raw = raw(&account, &compose);
    assert!(raw.contains("Hi Bob"));
    assert!(raw.contains("Subject: Hello"));
}

#[test]
fn build_message_sets_threading_headers_when_present() {
    let account = account("alice@example.com");
    let compose = ComposeState {
        to: "bob@example.com".to_string(),
        subject: "Re: Hello".to_string(),
        body: "Hi Bob".to_string(),
        in_reply_to: Some("<abc@example.com>".to_string()),
        references: Some("<abc@example.com>".to_string()),
        ..Default::default()
    };
    let raw = raw(&account, &compose);
    assert!(raw.contains("In-Reply-To: <abc@example.com>"));
    assert!(raw.contains("References: <abc@example.com>"));
}

#[test]
fn build_message_rejects_an_unparseable_recipient_rather_than_silently_dropping_it() {
    let account = account("alice@example.com");
    let compose = ComposeState {
        to: "not an email address".to_string(),
        subject: "Hello".to_string(),
        body: "Hi".to_string(),
        ..Default::default()
    };
    assert!(build_message(&account, &compose).is_err());
}

#[test]
fn build_message_with_an_attachment_includes_it_as_a_separate_part() {
    let account = account("alice@example.com");
    let compose = ComposeState {
        to: "bob@example.com".to_string(),
        subject: "Files".to_string(),
        body: "see attached".to_string(),
        attachments: vec![("notes.txt".to_string(), b"hello world".to_vec())],
        ..Default::default()
    };
    let raw = raw(&account, &compose);
    assert!(raw.contains("notes.txt"));
    assert!(raw.contains("see attached"));
}

#[test]
fn every_recipient_is_addressed_and_blind_copies_are_not_shown() {
    let account = account("Alice <alice@example.com>");
    let compose = ComposeState {
        to: "bob@example.com, Carol <carol@example.com>".to_string(),
        cc: "dave@example.com,".to_string(),
        bcc: " erin@example.com ".to_string(),
        subject: "S".to_string(),
        body: "B".to_string(),
        ..Default::default()
    };
    let message = build_message(&account, &compose).unwrap();
    let to: Vec<String> = message.envelope().to().iter().map(|a| a.to_string()).collect();
    assert_eq!(to, vec!["bob@example.com", "carol@example.com", "dave@example.com", "erin@example.com"]);
    assert_eq!(message.envelope().from().unwrap().to_string(), "alice@example.com");
    let raw = String::from_utf8_lossy(&message.formatted()).to_string();
    assert!(raw.contains("From: Alice <alice@example.com>"));
    assert!(raw.contains("Cc: dave@example.com"));
    assert!(!raw.contains("erin"));
}

#[test]
fn a_message_without_recipients_or_sender_is_an_error() {
    let compose = ComposeState { body: "B".to_string(), ..Default::default() };
    assert_eq!(
        build_message(&account("alice@example.com"), &compose).unwrap_err(),
        "missing destination address, invalid envelope"
    );
    assert!(build_message(&account("nobody"), &compose).is_err());
    let bad_cc = ComposeState { to: "a@example.com".into(), cc: "x y".into(), ..Default::default() };
    assert!(build_message(&account("alice@example.com"), &bad_cc).is_err());
    let bad_bcc = ComposeState { to: "a@example.com".into(), bcc: "x y".into(), ..Default::default() };
    assert!(build_message(&account("alice@example.com"), &bad_bcc).is_err());
}

#[test]
fn attachments_carry_the_media_type_of_their_names() {
    let account = account("alice@example.com");
    let compose = ComposeState {
        to: "bob@example.com".to_string(),
        body: "text".to_string(),
        attachments: vec![
            ("a.pdf".to_string(), vec![1, 2, 3]),
            ("b.unknown".to_string(), vec![4]),
        ],
        ..Default::default()
    };
    let raw = raw(&account, &compose);
    assert!(raw.contains("multipart/mixed"));
    assert!(raw.contains("Content-Type: application/pdf"));
    assert!(raw.contains("Content-Type: application/octet-stream"));
    assert!(raw.find("a.pdf").unwrap() < raw.find("b.unknown").unwrap());
}

#[test]
fn the_transport_follows_the_account() {
    assert_eq!(relay_kind(TlsMode::Ssl), Relay::Tls);
    assert_eq!(relay_kind(TlsMode::StartTls), Relay::StartTls);
    assert_eq!(relay_kind(TlsMode::Plaintext), Relay::Unprotected);
}

#[test]
fn a_send_is_reported() {
    assert!(matches!(send_event(Ok(())), SmtpEvent::Sent));
    assert!(matches!(send_event(Err("e".to_string())), SmtpEvent::Error(e) if e == "e"));
}

#[test]
fn a_copied_message_says_the_same() {
    let c = ComposeState {
        to: "t".into(),
        references: Some("r".into()),
        attachments: vec![("a".into(), vec![1, 2])],
        ..Default::default()
    };
    let d = c.clone();
    assert_eq!(d.to, "t");
    assert_eq!(d.references, Some("r".to_string()));
    assert_eq!(d.in_reply_to, None);
    assert_eq!(d.attachments, vec![("a".to_string(), vec![1u8, 2])]);
}
