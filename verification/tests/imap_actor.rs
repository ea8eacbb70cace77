use esmail::imap::{
    FetchedEnvelope, FetchedMessage, ImapCommand, ImapEvent, MailboxState,
};
use esmail::imap_actor::{
    fetched_body, BodyWorker, BulkDownload, BulkStep, ImapAction, ImapActor, JobReply, Phase,
    WorkerAction, WorkerCommand, WorkerPhase,
};

fn connect() -> ImapCommand<String> {
    ImapCommand::Connect {
        host: "h".to_string(),
        port: 993,
        username: "u".to_string(),
        password: "p".to_string(),
    }
}

fn connected() -> ImapActor<String> {
    let mut a = ImapActor::new();
    assert!(matches!(a.on_command(connect())[..], [ImapAction::LogIn]));
    assert!(matches!(
        a.on_login(Ok(()))[..],
        [ImapAction::StartWorker, ImapAction::Emit(ImapEvent::Connected)]
    ));
    a
}

fn error_text(a: &ImapAction) -> String {
    match a {
        ImapAction::Emit(ImapEvent::Error(e)) => e.clone(),
        _ => panic!("no error"),
    }
}

#[test]
fn a_login_keeps_the_credentials_and_starts_a_worker() {
    let a = connected();
    assert!(a.session && a.worker);
    let c = a.credentials.unwrap();
    assert_eq!((c.host.as_str(), c.port, c.username.as_str(), c.password.as_str()), ("h", 993, "u", "p"));
}

#[test]
fn a_failed_login_is_reported_and_changes_nothing() {
    let mut a: ImapActor<String> = ImapActor::new();
    a.on_command(connect());
    let actions = a.on_login(Err("bad password".to_string()));
    assert_eq!(actions.len(), 1);
    assert_eq!(error_text(&actions[0]), "bad password");
    assert!(!a.session && a.credentials.is_none() && !a.worker);
}

#[test]
fn nothing_can_be_fetched_before_the_first_login() {
    let mut a: ImapActor<String> = ImapActor::new();
    assert_eq!(error_text(&a.on_command(ImapCommand::FetchMailboxes)[0]), "not connected yet");
    let body = ImapCommand::FetchBody { mailbox: "INBOX".to_string(), uid: 1, req_id: 1 };
    assert_eq!(error_text(&a.on_command(body)[0]), "not connected");
    let bulk = ImapCommand::BulkDownload { mailbox: "INBOX".to_string() };
    assert_eq!(error_text(&a.on_command(bulk)[0]), "not connected");
}

#[test]
fn background_polls_are_dropped_without_a_session() {
    let mut a: ImapActor<String> = ImapActor::new();
    assert!(a.on_command(ImapCommand::PollMailbox { mailbox: "INBOX".to_string() }).is_empty());
    let new = ImapCommand::FetchNewHeaders { mailbox: "INBOX".to_string(), first_uid: 3 };
    assert!(a.on_command(new).is_empty());
    assert!(matches!(a.phase, Phase::Idle));
}

#[test]
fn a_page_is_answered_with_its_request_id() {
    let mut a = connected();
    let cmd = ImapCommand::FetchHeaders { mailbox: "INBOX".to_string(), page: 2, req_id: 9 };
    assert!(matches!(a.on_command(cmd)[..], [ImapAction::Perform]));
    let state = MailboxState { uid_validity: 1, uid_next: 5 };
    let actions = a.on_reply(Ok(JobReply::Headers { headers: vec![], total_pages: 4, mailbox_state: state }));
    match &actions[..] {
        [ImapAction::Emit(ImapEvent::Headers { mailbox, page, total_pages, req_id, mailbox_state, .. })] => {
            assert_eq!((mailbox.as_str(), *page, *total_pages, *req_id), ("INBOX", 2, 4, 9));
            assert_eq!(*mailbox_state, state);
        }
        _ => panic!("no page"),
    }
    assert!(a.session);
}

#[test]
fn a_failed_job_drops_the_session_and_the_next_one_reconnects() {
    let mut a = connected();
    a.on_command(ImapCommand::FetchMailboxes);
    assert_eq!(error_text(&a.on_reply(Err("gone".to_string()))[0]), "gone");
    assert!(!a.session);
    assert!(matches!(
        a.on_command(ImapCommand::FetchMailboxes)[..],
        [ImapAction::Emit(ImapEvent::Disconnected), ImapAction::Reconnect]
    ));
    assert!(matches!(
        a.on_login(Ok(()))[..],
        [ImapAction::Emit(ImapEvent::Connected), ImapAction::Perform]
    ));
    assert!(matches!(
        a.on_reply(Ok(JobReply::Mailboxes(vec!["INBOX".to_string()])))[..],
        [ImapAction::Emit(ImapEvent::Mailboxes(_))]
    ));
}

#[test]
fn a_failed_poll_is_reported_quietly() {
    let mut a = connected();
    a.on_command(ImapCommand::PollMailbox { mailbox: "INBOX".to_string() });
    assert!(matches!(
        a.on_reply(Err("x".to_string()))[..],
        [ImapAction::Emit(ImapEvent::PollFailed(_))]
    ));
    assert!(!a.session);
}

#[test]
fn reconnecting_waits_longer_each_time_and_gives_up() {
    let mut a = connected();
    a.on_command(ImapCommand::FetchMailboxes);
    a.on_reply(Err("gone".to_string()));
    a.on_command(ImapCommand::FetchMailboxes);
    let mut waits = Vec::new();
    for _ in 0..4 {
        match a.on_login(Err("down".to_string()))[..] {
            [ImapAction::Wait { seconds }] => waits.push(seconds),
            _ => panic!("no wait"),
        }
        assert!(matches!(a.on_waited()[..], [ImapAction::Reconnect]));
    }
    assert_eq!(waits, vec![1, 2, 4, 8]);
    let last = a.on_login(Err("still down".to_string()));
    assert_eq!(error_text(&last[0]), "still down");
    assert!(matches!(a.phase, Phase::Idle));
}

#[test]
fn bodies_go_to_the_worker() {
    let mut a = connected();
    let actions = a.on_command(ImapCommand::FetchBody { mailbox: "INBOX".to_string(), uid: 4, req_id: 2 });
    assert!(matches!(
        actions[..],
        [ImapAction::Delegate(WorkerCommand::FetchBody { uid: 4, req_id: 2, .. })]
    ));
    assert!(matches!(a.phase, Phase::Idle));
}

#[test]
fn the_worker_reconnects_without_a_word() {
    let mut w = BodyWorker::new();
    let cmd = WorkerCommand::FetchBody { mailbox: "INBOX".to_string(), uid: 4, req_id: 2 };
    assert!(matches!(w.on_command(cmd)[..], [WorkerAction::LogIn]));
    assert!(matches!(w.on_login(Err("x".to_string()))[..], [WorkerAction::Wait { seconds: 1 }]));
    assert!(matches!(w.on_waited()[..], [WorkerAction::LogIn]));
    assert!(matches!(w.on_login(Ok(()))[..], [WorkerAction::Perform]));
    let actions = w.on_body(Ok(("<p>".to_string(), vec![])));
    assert!(matches!(
        actions[..],
        [WorkerAction::Emit(ImapEvent::Body { uid: 4, req_id: 2, .. })]
    ));
    assert!(w.session && matches!(w.phase, WorkerPhase::Idle));
}

#[test]
fn the_worker_gives_up_with_a_reason() {
    let mut w = BodyWorker::new();
    w.on_command(WorkerCommand::BulkDownload { mailbox: "INBOX".to_string() });
    for _ in 0..4 {
        w.on_login(Err("x".to_string()));
        w.on_waited();
    }
    match &w.on_login(Err("refused".to_string()))[..] {
        [WorkerAction::Emit(ImapEvent::Error(e))] => {
            assert_eq!(e, "could not open a connection for this request: refused");
        }
        _ => panic!("no error"),
    }
}

#[test]
fn a_failed_download_drops_the_worker_session() {
    let mut w = BodyWorker::new();
    w.on_command(WorkerCommand::BulkDownload { mailbox: "INBOX".to_string() });
    w.on_login(Ok(()));
    assert_eq!(w.on_download_end(Err("x".to_string())).len(), 1);
    assert!(!w.session);
    w.on_command(WorkerCommand::BulkDownload { mailbox: "INBOX".to_string() });
    w.on_login(Ok(()));
    assert!(w.on_download_end(Ok(())).is_empty());
    assert!(w.session);
}

#[test]
fn a_body_that_is_missing_says_why() {
    assert_eq!(fetched_body(&None).unwrap_err(), "Message not found or no body");
    assert_eq!(fetched_body(&Some(Ok(None))).unwrap_err(), "No body");
    assert_eq!(fetched_body(&Some(Err("e".to_string()))).unwrap_err(), "e");
    let raw = b"Content-Type: text/html\r\n\r\n<p>x</p>".to_vec();
    let (html, attachments) = fetched_body(&Some(Ok(Some(raw)))).unwrap();
    assert!(html.ends_with("<p>x</p>"));
    assert!(attachments.is_empty());
}

fn fetched(uid: u32) -> Result<FetchedMessage, String> {
    Ok(FetchedMessage {
        uid: Some(uid),
        envelope: Some(FetchedEnvelope {
            subject: Some(b"s".to_vec()),
            from: None,
            to: None,
            date: None,
            message_id: None,
        }),
    })
}

#[test]
fn a_download_reports_every_message_and_its_progress() {
    let (mut d, events, step) = BulkDownload::begin("INBOX".to_string(), 2);
    assert!(matches!(events[..], [ImapEvent::DownloadProgress { current: 0, total: 2 }]));
    assert!(matches!(step, BulkStep::FetchEnvelopes { query } if query == "1:2"));
    let step = d.on_envelopes(vec![fetched(10), fetched(11)]);
    assert!(matches!(step, BulkStep::FetchBody { uid: 10, query } if query == "10"));
    let raw = b"Content-Type: text/plain\r\n\r\nhello".to_vec();
    let (events, step) = d.on_body(Ok(Some(Some(raw))));
    match &events[..] {
        [ImapEvent::MailData { mailbox, header, body }, ImapEvent::DownloadProgress { current: 1, total: 2 }] => {
            assert_eq!((mailbox.as_str(), header.uid), ("INBOX", 10));
            assert!(body.ends_with("<pre>hello</pre>"));
        }
        _ => panic!("wrong events"),
    }
    assert!(matches!(step, BulkStep::FetchBody { uid: 11, .. }));
    let (events, step) = d.on_body(Ok(None));
    assert!(matches!(
        events[..],
        [ImapEvent::MailData { .. }, ImapEvent::DownloadProgress { current: 2, total: 2 }]
    ));
    assert!(matches!(step, BulkStep::Finished));
}

#[test]
fn an_empty_mailbox_needs_no_download() {
    let (_, events, step) = BulkDownload::begin("INBOX".to_string(), 0);
    assert!(events.is_empty());
    assert!(matches!(step, BulkStep::Finished));
}

#[test]
fn a_download_stops_at_the_first_fault() {
    let (mut d, _, _) = BulkDownload::begin("INBOX".to_string(), 2);
    let step = d.on_envelopes(vec![Ok(FetchedMessage { uid: None, envelope: None })]);
    assert!(matches!(step, BulkStep::Failed(e) if e == "No UID"));
    let (mut d, _, _) = BulkDownload::begin("INBOX".to_string(), 1);
    d.on_envelopes(vec![fetched(1)]);
    let (events, step) = d.on_body(Err("lost".to_string()));
    assert!(events.is_empty());
    assert!(matches!(step, BulkStep::Failed(e) if e == "lost"));
}

#[test]
fn a_fetched_message_brings_its_attachments() {
    let raw = b"Content-Type: multipart/mixed; boundary=b\r\n\r\n--b\r\nContent-Type: text/plain\r\n\r\nhi\r\n--b\r\nContent-Type: application/pdf\r\nContent-Disposition: attachment; filename=\"a.pdf\"\r\nContent-Transfer-Encoding: base64\r\n\r\naGVsbG8=\r\n--b--".to_vec();
    let (html, attachments) = fetched_body(&Some(Ok(Some(raw)))).unwrap();
    assert!(html.ends_with("<pre>hi</pre>"));
    assert_eq!(attachments.len(), 1);
    assert_eq!(attachments[0].filename, "a.pdf");
    assert_eq!(attachments[0].mime_type, "application/pdf");
    assert_eq!(attachments[0].data, b"hello".to_vec());
    let mut w = BodyWorker::new();
    w.on_command(WorkerCommand::FetchBody { mailbox: "INBOX".to_string(), uid: 4, req_id: 2 });
    w.on_login(Ok(()));
    match &w.on_body(Ok((html, attachments)))[..] {
        [WorkerAction::Emit(ImapEvent::Body { attachments, .. })] => assert_eq!(attachments.len(), 1),
        _ => panic!("no body"),
    }
}
