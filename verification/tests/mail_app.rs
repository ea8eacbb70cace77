use esmail::compose::ComposeState;
use esmail::config::{AccountConfig, Config, TlsMode};
use esmail::db::{DbCommand, DbEvent, SyncPlan};
use esmail::imap::{ImapCommand, ImapEvent, MailHeader, MailboxState};
use esmail::mail_app::{
    attached_file_label, attachment_label, is_remote_url, page_label, preview_demo_html,
    preview_file_html, preview_source, progress_label, row_text, Effect, EsMailApp,
    MessageViewHandler, PreviewSource, TrayAction, WindowCommand, WELCOME_HTML,
};
use esmail::render::Attachment;
use esmail::servo_view::{InterceptOutcome, NavigationPolicy, WebResourceRequest, WebViewHandler};
use esmail::smtp::{SmtpCommand, SmtpEvent};

fn header(uid: u32) -> MailHeader {
    MailHeader {
        uid,
        subject: "S".to_string(),
        from: "F".to_string(),
        to: "T".to_string(),
        date: "D".to_string(),
        message_id: "M".to_string(),
    }
}

fn fresh() -> EsMailApp {
    let mut app = EsMailApp::new(Config { accounts: vec![] }, None, false);
    app.host = "imap.example.com".to_string();
    app.username = "alice".to_string();
    app.password = "pw".to_string();
    app
}

fn connected() -> EsMailApp {
    let mut app = fresh();
    app.connect();
    app.handle_imap_event(ImapEvent::Connected);
    app
}

fn page(mailbox: &str, uid: u32, req_id: u64) -> ImapEvent {
    ImapEvent::Headers {
        mailbox: mailbox.to_string(),
        headers: vec![header(uid)],
        page: 1,
        total_pages: 3,
        req_id,
        mailbox_state: MailboxState { uid_validity: 11, uid_next: 12 },
    }
}

#[test]
fn a_fresh_window_offers_the_usual_server() {
    let app = EsMailApp::new(Config { accounts: vec![] }, Some("ignored".to_string()), true);
    assert!(app.preview && !app.is_connected && !app.allow_remote);
    assert_eq!((app.host.as_str(), app.port.as_str()), ("imap.gmail.com", "993"));
    assert_eq!((app.smtp_host.as_str(), app.smtp_port.as_str()), ("smtp.gmail.com", "465"));
    assert_eq!((app.status.as_str(), app.password.as_str()), ("Ready", ""));
}

#[test]
fn the_first_saved_account_fills_the_form() {
    let mut a = AccountConfig::new("Bob".to_string(), "imap.a.com".to_string(), 1993, "bob".to_string());
    a.smtp_host = "smtp.a.com".to_string();
    let app = EsMailApp::new(Config { accounts: vec![a] }, Some("pw".to_string()), false);
    assert_eq!((app.host.as_str(), app.port.as_str(), app.username.as_str()), ("imap.a.com", "1993", "bob"));
    assert_eq!((app.smtp_host.as_str(), app.password.as_str()), ("smtp.a.com", "pw"));
    assert_eq!(app.account_id(), "bob@imap.a.com");
}

#[test]
fn the_push_watch_starts_with_the_first_connection() {
    let mut app = fresh();
    app.port = "abc".to_string();
    let effects = app.connect();
    assert!(matches!(&effects[0], Effect::Imap(ImapCommand::Connect { port: 993, .. })));
    assert!(matches!(&effects[1], Effect::StartIdleWatch { mailbox: "INBOX", port: 993, .. }));
    assert_eq!(app.status, "Connecting...");
    assert_eq!(app.connect().len(), 1);
}

#[test]
fn a_connection_saves_the_account_and_fetches() {
    let mut app = fresh();
    let effects = app.handle_imap_event(ImapEvent::Connected);
    match &effects[..] {
        [Effect::SavePassword { account_id, service: "imap", password }, Effect::SavePassword { service: "smtp", .. }, Effect::SaveConfig, Effect::Imap(ImapCommand::FetchMailboxes), Effect::Imap(ImapCommand::FetchHeaders { mailbox, page: 1, req_id })] =>
        {
            assert_eq!((account_id.as_str(), password.as_str()), ("alice@imap.example.com", "pw"));
            assert_eq!((mailbox.as_str(), *req_id), ("INBOX", app.current_headers_req));
        }
        _ => panic!("wrong effects"),
    }
    assert_eq!(app.config.accounts.len(), 1);
    let a = &app.config.accounts[0];
    assert_eq!((a.imap_port, a.smtp_port, a.smtp_tls), (993, 465, TlsMode::Ssl));
    assert_eq!(a.smtp_host, "smtp.gmail.com");
    app.smtp_host.clear();
    app.handle_imap_event(ImapEvent::Connected);
    assert_eq!(app.config.accounts.len(), 1);
    assert_eq!(app.config.accounts[0].smtp_host, "smtp.example.com");
}

#[test]
fn only_the_latest_page_request_is_applied() {
    let mut app = connected();
    let first = app.current_headers_req;
    app.refresh();
    let latest = app.current_headers_req;
    assert!(latest > first);
    let effects = app.handle_imap_event(page("INBOX", 1, first));
    assert!(app.headers.is_empty());
    assert!(matches!(
        &effects[..],
        [Effect::Db(DbCommand::ReportMailboxState { uid_validity: 11, uid_next: 12, .. })]
    ));
    app.handle_imap_event(page("Sent", 1, latest));
    assert!(app.headers.is_empty());
    app.handle_imap_event(page("INBOX", 2, latest));
    assert_eq!((app.headers[0].uid, app.total_pages, app.status.as_str()), (2, 3, "Page 1 of 3"));
}

#[test]
fn only_the_open_message_is_shown() {
    let mut app = connected();
    app.allow_remote = true;
    app.open_message(5);
    assert!(!app.allow_remote);
    let old = app.current_body_req;
    app.open_message(6);
    let body = |uid: u32, req_id: u64| ImapEvent::Body {
        uid,
        html: "<p>".to_string(),
        attachments: vec![Attachment { filename: "a".into(), mime_type: "t/t".into(), data: vec![1] }],
        req_id,
    };
    assert!(app.handle_imap_event(body(5, old)).is_empty());
    assert!(app.handle_imap_event(body(5, app.current_body_req)).is_empty());
    assert!(app.current_attachments.is_empty());
    let effects = app.handle_imap_event(body(6, app.current_body_req));
    assert!(matches!(&effects[..], [Effect::Show(h)] if h == "<p>"));
    assert_eq!((app.current_message_html.as_str(), app.current_attachments.len()), ("<p>", 1));
    assert!(!app.view_handler().allow_remote);
    assert!(matches!(app.load_remote_images(), Effect::Reload));
    assert!(app.view_handler().allow_remote);
    app.handle_smtp_event(SmtpEvent::Sent);
    assert!(app.view_handler().allow_remote);
    app.open_message(7);
    let mut handler = app.view_handler();
    assert!(matches!(handler.intercept(&request("https://x/i.png")), InterceptOutcome::Block));
}

#[test]
fn search_results_open_from_the_cache() {
    let mut app = connected();
    assert!(app.can_page() && app.list_title() == "Inbox");
    match app.search(Some("body:x".to_string())) {
        Some(Effect::Db(DbCommand::Search { account_id, query, mailbox })) => {
            assert_eq!((account_id.as_str(), query.as_str()), ("alice@imap.example.com", "body:x"));
            assert_eq!(mailbox.as_deref(), Some("INBOX"));
        }
        _ => panic!("no search"),
    }
    app.handle_db_event(DbEvent::SearchResult { headers: vec![header(9)] });
    assert!(!app.can_page() && app.list_title() == "Search Results");
    assert_eq!(app.shown_headers()[0].uid, 9);
    let effects = app.open_message(9);
    assert!(matches!(&effects[1], Effect::Db(DbCommand::FetchMail { uid: 9, .. })));
    let fetched = DbEvent::MailFetched { header: header(9), body: "b".to_string() };
    assert!(matches!(&app.handle_db_event(fetched)[..], [Effect::Show(_)]));
    let other = DbEvent::MailFetched { header: header(8), body: "b".to_string() };
    assert!(app.handle_db_event(other).is_empty());
    let late = ImapEvent::Body { uid: 9, html: "h".into(), attachments: vec![], req_id: app.current_body_req };
    assert!(app.handle_imap_event(late).is_empty());
    app.search_query = "x".to_string();
    app.clear_search();
    assert!(app.search_results.is_none() && app.search_query.is_empty());
    app.handle_db_event(DbEvent::SearchResult { headers: vec![] });
    assert!(app.search(None).is_none() && app.search_results.is_none());
}

#[test]
fn sync_plans_fetch_what_is_missing() {
    let mut app = connected();
    let plan = |plan: SyncPlan| DbEvent::SyncPlan { account_id: "a".into(), mailbox: "INBOX".into(), plan };
    assert!(app.handle_db_event(plan(SyncPlan::UpToDate)).is_empty());
    assert!(matches!(
        &app.handle_db_event(plan(SyncPlan::FetchFrom { first_new_uid: 7 }))[..],
        [Effect::Imap(ImapCommand::FetchHeadersFrom { first_uid: 7, .. })]
    ));
    assert!(matches!(
        &app.handle_db_event(plan(SyncPlan::Resync))[..],
        [Effect::Imap(ImapCommand::FetchHeadersFrom { first_uid: 1, .. })]
    ));
    app.handle_db_event(DbEvent::Error("locked".to_string()));
    assert_eq!(app.status, "DB Error: locked");
}

#[test]
fn other_events_of_the_connection() {
    let mut app = connected();
    app.handle_imap_event(ImapEvent::Disconnected);
    assert_eq!(app.status, "Connection lost, reconnecting...");
    app.handle_imap_event(ImapEvent::Error("x".to_string()));
    assert_eq!(app.status, "Error: x");
    app.handle_imap_event(ImapEvent::Mailboxes(vec!["A".to_string()]));
    assert_eq!(app.mailboxes, vec!["A"]);
    app.handle_imap_event(ImapEvent::DownloadProgress { current: 1, total: 2 });
    assert_eq!(app.download_progress, Some((1, 2)));
    app.handle_imap_event(ImapEvent::DownloadProgress { current: 2, total: 2 });
    assert_eq!((app.download_progress, app.status.as_str()), (None, "Download complete"));
    let data = ImapEvent::MailData { mailbox: "INBOX".into(), header: header(3), body: "b".into() };
    assert!(matches!(&app.handle_imap_event(data)[..], [Effect::Db(DbCommand::IndexMail { .. })]));
    let from = ImapEvent::HeadersFrom { mailbox: "INBOX".into(), headers: vec![header(3)] };
    assert!(matches!(&app.handle_imap_event(from)[..], [Effect::Db(DbCommand::IndexHeaders { .. })]));
    assert!(app.handle_imap_event(ImapEvent::PollFailed("p".to_string())).is_empty());
    assert_eq!(app.status, "Download complete");
}

#[test]
fn paging_stays_within_the_mailbox() {
    let mut app = connected();
    assert!(app.previous_page().is_none() && app.next_page().is_none());
    app.total_pages = 2;
    assert!(matches!(app.next_page(), Some(Effect::Imap(ImapCommand::FetchHeaders { page: 2, .. }))));
    assert!(app.next_page().is_none());
    assert!(matches!(app.previous_page(), Some(Effect::Imap(ImapCommand::FetchHeaders { page: 1, .. }))));
    app.selected_uid = Some(4);
    assert!(matches!(app.select_mailbox("Sent".into()), Effect::Imap(ImapCommand::FetchHeaders { page: 1, .. })));
    assert_eq!((app.selected_mailbox.as_str(), app.selected_uid), ("Sent", None));
    assert!(matches!(app.download_all(), Effect::Imap(ImapCommand::BulkDownload { mailbox }) if mailbox == "Sent"));
    app.headers = vec![header(1), header(2)];
    app.selected_uid = Some(2);
    assert_eq!(app.open_header().unwrap().uid, 2);
    app.selected_uid = Some(3);
    assert!(app.open_header().is_none());
    assert!(matches!(app.logout(), Effect::Show(h) if h == "<h1>Logged out</h1>"));
    assert!(app.headers.is_empty() && !app.is_connected);
}

#[test]
fn the_last_request_id_stops_only_what_needs_one() {
    let mut app = connected();
    app.next_req_id = u64::MAX;
    assert!(app.previous_page().is_none() && app.next_page().is_none());
    app.search_results = Some(vec![header(9)]);
    assert_eq!(app.open_message(9).len(), 2);
}

#[test]
fn forgotten_accounts_are_gone() {
    let mut app = connected();
    let effects = app.forget_account("alice@imap.example.com".to_string());
    assert!(app.config.accounts.is_empty());
    assert!(matches!(
        &effects[..],
        [Effect::ForgetPassword { service: "imap", .. }, Effect::SaveConfig]
    ));
}

#[test]
fn a_message_is_written_and_sent() {
    let mut app = connected();
    app.new_message();
    assert!(app.compose.is_some());
    app.attach_file("/x/a.txt", Some("a.txt".to_string()), Ok(vec![1]));
    app.attach_file("/x/", None, Ok(vec![2]));
    app.attach_file("/x/b", None, Err("denied".to_string()));
    assert_eq!(app.compose_status, "Could not read /x/b: denied");
    let names: Vec<&str> = app.compose.as_ref().unwrap().attachments.iter().map(|a| a.0.as_str()).collect();
    assert_eq!(names, vec!["a.txt", "attachment"]);
    assert!(app.on_compose_buttons::<String>(true, false, true, None).is_none());
    assert_eq!(app.compose_status, "No SMTP password on file yet \u{2014} connect once via IMAP first.");
    match app.on_compose_buttons(true, false, true, Some("pw".to_string())) {
        Some(SmtpCommand::Send { account, compose }) => {
            assert_eq!((account.host.as_str(), account.port), ("smtp.gmail.com", 465));
            assert_eq!((account.from_address.as_str(), account.password.as_str()), ("alice", "pw"));
            assert_eq!(compose.attachments.len(), 2);
        }
        None => panic!("not sent"),
    }
    assert_eq!(app.compose_status, "Sending\u{2026}");
    app.handle_smtp_event(SmtpEvent::Error("refused".to_string()));
    assert!(app.compose.is_some());
    app.handle_smtp_event(SmtpEvent::Sent);
    assert!(app.compose.is_none());
    app.open_compose(ComposeState { to: "x".to_string(), ..Default::default() });
    assert!(app.on_compose_buttons::<String>(false, true, true, None).is_none());
    assert!(app.compose.is_none() && app.compose_status.is_empty());
}

#[test]
fn the_window_hides_until_quit_is_chosen() {
    let mut app = fresh();
    assert_eq!(app.on_close_request(), vec![WindowCommand::CancelClose, WindowCommand::Hide]);
    assert_eq!(app.on_tray_action(TrayAction::Show), vec![WindowCommand::Show, WindowCommand::Focus]);
    assert_eq!(app.on_tray_action(TrayAction::Quit), vec![WindowCommand::Close]);
    assert!(app.on_close_request().is_empty());
}

fn request(url: &str) -> WebResourceRequest {
    WebResourceRequest {
        method: "GET".to_string(),
        url: url.to_string(),
        is_for_main_frame: false,
        is_redirect: false,
    }
}

#[test]
fn remote_content_is_blocked_until_allowed() {
    let mut h = MessageViewHandler { allow_remote: false };
    assert_eq!(h.navigation("https://x/"), NavigationPolicy::Deny);
    assert!(matches!(h.intercept(&request("https://x/i.png")), InterceptOutcome::Block));
    assert!(matches!(h.intercept(&request("http://x/i.png")), InterceptOutcome::Block));
    assert!(matches!(h.intercept(&request("data:image/png;base64,AA==")), InterceptOutcome::Allow));
    h.allow_remote = true;
    assert!(matches!(h.intercept(&request("https://x/i.png")), InterceptOutcome::Allow));
    assert!(is_remote_url("http:x") && !is_remote_url("httpx:") && !is_remote_url("ftp://x/"));
}

#[test]
fn previews_show_the_demo_a_page_or_a_file() {
    assert!(matches!(preview_source(None), PreviewSource::Html(h) if h == WELCOME_HTML));
    assert!(matches!(preview_source(Some("demo")), PreviewSource::Html(h) if h == preview_demo_html()));
    assert!(matches!(preview_source(Some("https://x/")), PreviewSource::Url(u) if u == "https://x/"));
    assert!(matches!(preview_source(Some("a.html")), PreviewSource::File(f) if f == "a.html"));
    assert_eq!(preview_file_html("a", Ok("<p>".to_string())), "<p>");
    assert_eq!(
        preview_file_html("a", Err("gone".to_string())),
        "<h1>could not read a</h1><p>gone</p>"
    );
}

#[test]
fn labels_say_what_is_shown() {
    assert_eq!(page_label(2, 10), "Page 2 of 10");
    assert_eq!(progress_label(3, 40), "3/40");
    assert_eq!(row_text(&header(1)), "F\nS");
    assert_eq!(attached_file_label("a.txt", 500), "a.txt (500 B)");
    let a = Attachment { filename: "a".into(), mime_type: "image/png".into(), data: vec![0; 3] };
    assert_eq!(attachment_label(&a), "a \u{2014} image/png, 3 B");
}
