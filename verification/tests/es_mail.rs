use esmail::db::{SqlValue, Statement};
use esmail::es_mail::{
    count_query, fetch_mail, fetched_body, imap_step, index_mail, load_config, page_headers,
    page_reply, save_config, search, step_event, Effect, EsMailApp, ImapCommand, ImapEvent,
    ImapStep, MailHeader, StepOutcome, SCHEMA,
};
use esmail::imap::{header_page, EnvelopeAddress, FetchedEnvelope, FetchedMessage};
use rusqlite::types::Value;
use rusqlite::{params_from_iter, Connection};

fn values(s: &Statement) -> Vec<Value> {
    s.params
        .iter()
        .map(|p| match p {
            SqlValue::Text(t) => Value::Text(t.clone()),
            SqlValue::Integer(i) => Value::Integer(*i),
            SqlValue::Null => Value::Null,
        })
        .collect()
}

fn header(uid: u32) -> MailHeader {
    MailHeader {
        uid,
        subject: format!("Subject {uid}"),
        from: "alice".to_string(),
        to: "bob".to_string(),
        date: "today".to_string(),
    }
}

fn index(conn: &Connection, mailbox: &str, h: &MailHeader, body: &str) {
    let q = count_query(mailbox, h.uid);
    let count: u32 = conn.query_row(q.sql, params_from_iter(values(&q)), |r| r.get(0)).unwrap();
    if let Some(s) = index_mail(count, mailbox, h, body) {
        conn.execute(s.sql, params_from_iter(values(&s))).unwrap();
    }
}

fn found(conn: &Connection, query: &str, mailbox: Option<&str>) -> Vec<u32> {
    let s = search(query, &mailbox.map(|m| m.to_string()));
    let mut stmt = conn.prepare(s.sql).unwrap();
    let rows = stmt.query_map(params_from_iter(values(&s)), |r| r.get(0)).unwrap();
    rows.map(|r| r.unwrap()).collect()
}

#[test]
fn the_plain_index_holds_a_message_once() {
    let conn = Connection::open_in_memory().unwrap();
    conn.execute(SCHEMA, []).unwrap();
    index(&conn, "INBOX", &header(1), "first");
    index(&conn, "INBOX", &header(1), "second");
    index(&conn, "Sent", &header(2), "first");
    let s = fetch_mail("INBOX", 1);
    let body: String = conn.query_row(s.sql, params_from_iter(values(&s)), |r| r.get(4)).unwrap();
    assert_eq!(body, "first");
    assert_eq!(found(&conn, "second", None).len(), 0);
    assert_eq!(found(&conn, "first", None).len(), 2);
    assert_eq!(found(&conn, "first", Some("Sent")), vec![2]);
    assert_eq!(found(&conn, "first", Some("Sent' OR '1'='1")).len(), 0);
}

#[test]
fn saved_settings_are_read_back() {
    let content = save_config("imap.example.com", "993", "alice");
    assert_eq!(content, "imap.example.com\n993\nalice");
    assert_eq!(
        load_config(&content),
        Some(("imap.example.com".to_string(), "993".to_string(), "alice".to_string()))
    );
    assert_eq!(load_config(" h \r\n 1\r\nu\nextra").unwrap().0, "h");
    assert_eq!(load_config("h\n993"), None);
    assert_eq!(load_config(&save_config("h", "993", "")), None);
}

#[test]
fn commands_without_a_session() {
    assert!(matches!(imap_step::<String>(true, ImapCommand::FetchMailboxes), ImapStep::ListMailboxes));
    assert!(!matches!(imap_step::<String>(false, ImapCommand::FetchMailboxes), ImapStep::ListMailboxes));
    let connect = ImapCommand::Connect {
        host: "h".to_string(),
        port: 1,
        username: "u".to_string(),
        password: "p".to_string(),
    };
    assert!(matches!(imap_step(false, connect), ImapStep::LogIn { port: 1, .. }));
}

#[test]
fn steps_are_answered_with_what_was_asked_for() {
    let log_in = || ImapStep::LogIn {
        host: "h".to_string(),
        port: 1,
        username: "u".to_string(),
        password: "p".to_string(),
    };
    let failed = || "e".to_string();
    assert!(matches!(step_event(log_in(), StepOutcome::LoggedIn(Ok(()))), ImapEvent::Connected));
    assert!(matches!(step_event(log_in(), StepOutcome::LoggedIn(Err(failed()))), ImapEvent::Error(e) if e == "e"));
    let list = || ImapStep::<String>::ListMailboxes;
    assert!(matches!(step_event(list(), StepOutcome::Listed(Ok(vec![]))), ImapEvent::Mailboxes(_)));
    assert!(matches!(step_event(list(), StepOutcome::Listed(Err(failed()))), ImapEvent::Error(_)));
    let page = || ImapStep::<String>::FetchPage { mailbox: "m".to_string(), page: 3 };
    assert!(matches!(
        step_event(page(), StepOutcome::Page(Ok((vec![header(1)], 5)))),
        ImapEvent::Headers { mailbox, headers, page: 3, total_pages: 5 } if mailbox == "m" && headers.len() == 1
    ));
    assert!(matches!(step_event(page(), StepOutcome::Page(Err(failed()))), ImapEvent::Error(_)));
    let message = || ImapStep::<String>::FetchMessage { mailbox: "m".to_string(), uid: 9 };
    assert!(matches!(step_event(message(), StepOutcome::Message(Ok("h".to_string()))), ImapEvent::Body { uid: 9, .. }));
    assert!(matches!(step_event(message(), StepOutcome::Message(Err(failed()))), ImapEvent::Error(_)));
    assert_eq!(page_reply(header_page(0, 1), &vec![]).unwrap().1, 0);
    assert_eq!(page_reply(header_page(1, 1), &vec![Err(failed())]).unwrap_err(), "e");
}

#[test]
fn plain_text_bodies_are_escaped() {
    let raw = b"Content-Type: text/plain\r\n\r\n<b>&".to_vec();
    assert_eq!(fetched_body(&Some(Ok(Some(raw)))).unwrap(), "<pre>&lt;b&gt;&amp;</pre>");
    let html = b"Content-Type: text/html\r\n\r\n<b>x</b>".to_vec();
    assert_eq!(fetched_body(&Some(Ok(Some(html)))).unwrap(), "<b>x</b>");
    let image = b"Content-Type: image/png\r\n\r\nx".to_vec();
    assert_eq!(fetched_body(&Some(Ok(Some(image)))).unwrap_err(), "Message not found or no body");
    assert_eq!(fetched_body(&None).unwrap_err(), "Message not found or no body");
    assert_eq!(fetched_body(&Some(Ok(None))).unwrap_err(), "No body");
    assert_eq!(fetched_body(&Some(Err("e".to_string()))).unwrap_err(), "e");
}

#[test]
fn a_plain_page_is_newest_first() {
    let message = |uid: u32| {
        Ok(FetchedMessage {
            uid: Some(uid),
            envelope: Some(FetchedEnvelope {
                subject: Some(b"=?utf-8?B?w6k=?=".to_vec()),
                from: Some(vec![EnvelopeAddress {
                    name: None,
                    mailbox: Some(b"a".to_vec()),
                    host: Some(b"b".to_vec()),
                }]),
                to: None,
                date: None,
                message_id: None,
            }),
        })
    };
    let headers = page_headers(&vec![message(1), message(2)]).unwrap();
    assert_eq!((headers[0].uid, headers[1].uid), (2, 1));
    assert_eq!((headers[0].subject.as_str(), headers[0].from.as_str()), ("\u{e9}", "a@b"));
    assert_eq!(page_headers(&vec![Err("e".to_string())]).unwrap_err(), "e");
}

#[test]
fn the_plain_window_follows_its_events() {
    let mut app = EsMailApp::new(None);
    assert_eq!((app.host.as_str(), app.port.as_str(), app.status.as_str()), ("imap.gmail.com", "993", "Ready"));
    app.port = "nonsense".to_string();
    let effects = app.connect();
    assert!(matches!(&effects[0], Effect::SaveSettings(s) if s == "imap.gmail.com\nnonsense\n"));
    assert!(matches!(&effects[1], Effect::Imap(ImapCommand::Connect { port: 993, .. })));
    assert_eq!(app.handle_imap_event(ImapEvent::Connected).len(), 3);
    assert!(app.is_connected);
    app.handle_imap_event(ImapEvent::Headers {
        mailbox: "INBOX".to_string(),
        headers: vec![header(4)],
        page: 1,
        total_pages: 2,
    });
    assert_eq!((app.status.as_str(), app.headers.len()), ("Page 1 of 2", 1));
    app.handle_imap_event(ImapEvent::Headers {
        mailbox: "Sent".to_string(),
        headers: vec![],
        page: 1,
        total_pages: 1,
    });
    assert_eq!((app.headers.len(), app.total_pages), (1, 2));
    assert!(app.previous_page().is_none());
    assert!(matches!(app.next_page(), Some(Effect::Imap(ImapCommand::FetchHeaders { page: 2, .. }))));
    assert!(app.next_page().is_none());
    assert_eq!(app.open_message(4).len(), 2);
    assert!(app.handle_imap_event(ImapEvent::Body { uid: 5, html: "x".to_string() }).is_empty());
    assert_eq!(app.handle_imap_event(ImapEvent::Body { uid: 4, html: "x".to_string() }).len(), 1);
    app.handle_imap_event(ImapEvent::Error("bad".to_string()));
    assert_eq!(app.status, "Error: bad");
    assert!(matches!(app.select_mailbox("Sent".to_string()), Effect::Imap(ImapCommand::FetchHeaders { page: 1, .. })));
    assert_eq!(app.selected_uid, None);
    assert!(matches!(app.refresh(), Effect::Imap(ImapCommand::FetchHeaders { mailbox, .. }) if mailbox == "Sent"));
    app.logout();
    assert!(!app.is_connected && app.status == "Logged out");
}

#[test]
fn saved_settings_fill_the_plain_form() {
    let app = EsMailApp::new(Some(("h".to_string(), "1".to_string(), "u".to_string())));
    assert_eq!((app.host.as_str(), app.port.as_str(), app.username.as_str()), ("h", "1", "u"));
}
