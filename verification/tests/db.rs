use esmail::db::{
    evict_lru_bodies, fetch_mail_query, header_from_columns, index_headers, index_mail,
    is_duplicate_column, mailbox_query, report_mailbox_state, search_query, statement,
    sync_decision, CacheOp, DbCommand, DbEvent, SqlValue, Statement, SyncPlan,
    ADD_MESSAGE_ID_COLUMN, SCHEMA,
};
use esmail::db_actor::{DbActor, DbOutcome, DbPhase, DbRequest};
use esmail::imap::MailHeader;
use rusqlite::types::Value;
use rusqlite::{params_from_iter, Connection};

fn test_header(uid: u32) -> MailHeader {
    MailHeader {
        uid,
        subject: format!("Subject {uid}"),
        from: "alice@example.com".to_string(),
        to: "bob@example.com".to_string(),
        date: "2026-01-01".to_string(),
        message_id: format!("<msg{uid}@example.com>"),
    }
}

fn values(s: &Statement) -> Vec<Value> {
    s.params
        .iter()
        .map(|p| match p {
            SqlValue::Text(t) => Value::Text(t.clone()),
            SqlValue::Integer(i) => Value::Integer(*i),
            SqlValue::Null => Value::Null,
        })
        .collect()
}

fn init_schema(conn: &Connection) {
    conn.execute_batch(SCHEMA).unwrap();
    match conn.execute(ADD_MESSAGE_ID_COLUMN, []) {
        Ok(_) => {}
        Err(rusqlite::Error::SqliteFailure(_, Some(m))) if is_duplicate_column(&m) => {}
        Err(e) => panic!("{e}"),
    }
}

fn test_conn() -> Connection {
    let conn = Connection::open_in_memory().unwrap();
    init_schema(&conn);
    conn
}

fn run(conn: &Connection, ops: &[CacheOp]) {
    for op in ops {
        let s = statement(op);
        conn.execute(s.sql, params_from_iter(values(&s))).unwrap();
    }
}

fn index_at(conn: &Connection, account: &str, mailbox: &str, h: &MailHeader, body: &str, at: i64) {
    run(conn, &index_mail(account, mailbox, h, body, at));
}

fn index(conn: &Connection, account: &str, mailbox: &str, h: &MailHeader, body: &str) {
    index_at(conn, account, mailbox, h, body, 1000);
}

fn fetch_mail(conn: &Connection, account: &str, mailbox: &str, uid: u32) -> Option<(MailHeader, String)> {
    let s = fetch_mail_query(account, mailbox, uid);
    conn.query_row(s.sql, params_from_iter(values(&s)), |row| {
        let columns: Vec<String> = (0..5).map(|i| row.get(i).unwrap()).collect();
        Ok((header_from_columns(uid, &columns), row.get(5)?))
    })
    .ok()
}

fn search(conn: &Connection, account: &str, query: &str, mailbox: Option<&str>) -> Vec<MailHeader> {
    let s = search_query(account, query, &mailbox.map(|m| m.to_string()));
    let mut stmt = conn.prepare(s.sql).unwrap();
    let rows = stmt
        .query_map(params_from_iter(values(&s)), |row| {
            let columns: Vec<String> = (1..6).map(|i| row.get(i).unwrap()).collect();
            Ok(header_from_columns(row.get(0)?, &columns))
        })
        .unwrap();
    rows.map(|r| r.unwrap()).collect()
}

fn report(conn: &Connection, account: &str, mailbox: &str, validity: u32, next: u32) -> SyncPlan {
    let s = mailbox_query(account, mailbox);
    let previous = conn
        .query_row(s.sql, params_from_iter(values(&s)), |r| Ok((r.get(0)?, r.get(1)?)))
        .ok();
    let (plan, ops) = report_mailbox_state(previous, account, mailbox, validity, next);
    run(conn, &ops);
    plan
}

fn count(conn: &Connection, sql: &str) -> i64 {
    conn.query_row(sql, [], |r| r.get(0)).unwrap()
}

#[test]
fn init_schema_is_idempotent() {
    let conn = Connection::open_in_memory().unwrap();
    init_schema(&conn);
    init_schema(&conn);
}

#[test]
fn init_schema_adds_message_id_to_a_pre_b7_messages_table() {
    let conn = Connection::open_in_memory().unwrap();
    conn.execute_batch(
        "CREATE TABLE messages (
            account_id TEXT NOT NULL, mailbox TEXT NOT NULL, uid INTEGER NOT NULL,
            subject TEXT NOT NULL, from_addr TEXT NOT NULL, to_addr TEXT NOT NULL,
            date TEXT NOT NULL, size INTEGER NOT NULL DEFAULT 0,
            flags TEXT NOT NULL DEFAULT '', thread_key TEXT,
            PRIMARY KEY (account_id, mailbox, uid)
        )",
    )
    .unwrap();

    init_schema(&conn);
    index(&conn, "acc", "INBOX", &test_header(1), "body");

    let (header, _) = fetch_mail(&conn, "acc", "INBOX", 1).unwrap();
    assert_eq!(header.message_id, "<msg1@example.com>");
}

#[test]
fn only_a_duplicate_column_is_forgiven() {
    assert!(is_duplicate_column("duplicate column name: message_id"));
    assert!(!is_duplicate_column("no such table: messages"));
}

#[test]
fn index_then_fetch_round_trips() {
    let conn = test_conn();
    index(&conn, "acc", "INBOX", &test_header(1), "<p>hello</p>");

    let (header, body) = fetch_mail(&conn, "acc", "INBOX", 1).unwrap();
    assert_eq!(header.uid, 1);
    assert_eq!(header.subject, "Subject 1");
    assert_eq!(body, "<p>hello</p>");
}

#[test]
fn indexing_the_same_uid_twice_updates_rather_than_duplicates() {
    let conn = test_conn();
    index(&conn, "acc", "INBOX", &test_header(1), "<p>v1</p>");
    let mut updated = test_header(1);
    updated.subject = "Updated subject".to_string();
    index(&conn, "acc", "INBOX", &updated, "<p>v2</p>");

    assert_eq!(count(&conn, "SELECT COUNT(*) FROM messages"), 1);
    assert_eq!(count(&conn, "SELECT COUNT(*) FROM messages_fts"), 1);

    let (header, body) = fetch_mail(&conn, "acc", "INBOX", 1).unwrap();
    assert_eq!(header.subject, "Updated subject");
    assert_eq!(body, "<p>v2</p>");
}

#[test]
fn accounts_and_mailboxes_do_not_collide_on_the_same_uid() {
    let conn = test_conn();
    index(&conn, "acc1", "INBOX", &test_header(1), "acc1 inbox");
    index(&conn, "acc2", "INBOX", &test_header(1), "acc2 inbox");
    index(&conn, "acc1", "Archive", &test_header(1), "acc1 archive");

    assert_eq!(fetch_mail(&conn, "acc1", "INBOX", 1).unwrap().1, "acc1 inbox");
    assert_eq!(fetch_mail(&conn, "acc2", "INBOX", 1).unwrap().1, "acc2 inbox");
    assert_eq!(fetch_mail(&conn, "acc1", "Archive", 1).unwrap().1, "acc1 archive");
}

#[test]
fn search_finds_a_matching_subject() {
    let conn = test_conn();
    index(&conn, "acc", "INBOX", &test_header(1), "irrelevant body");
    let results = search(&conn, "acc", "\"Subject 1\"", None);
    assert_eq!(results.len(), 1);
    assert_eq!(results[0].uid, 1);
}

#[test]
fn search_is_scoped_to_the_given_account() {
    let conn = test_conn();
    index(&conn, "acc1", "INBOX", &test_header(1), "body");
    index(&conn, "acc2", "INBOX", &test_header(2), "body");
    let results = search(&conn, "acc1", "body", None);
    assert_eq!(results.len(), 1);
    assert_eq!(results[0].uid, 1);
}

#[test]
fn search_mailbox_filter_does_not_allow_sql_injection() {
    let conn = test_conn();
    index(&conn, "acc", "INBOX", &test_header(1), "body");
    let malicious_mailbox = "INBOX' OR '1'='1";
    let results = search(&conn, "acc", "body", Some(malicious_mailbox));
    assert_eq!(results.len(), 0);
    assert_eq!(search(&conn, "acc", "body", Some("INBOX")).len(), 1);
}

#[test]
fn evict_lru_bodies_keeps_only_the_newest_rows() {
    let conn = test_conn();
    for uid in 1..=5 {
        conn.execute(
            "INSERT INTO bodies (account_id, mailbox, uid, body, cached_at) VALUES ('acc', 'INBOX', ?1, 'x', ?1)",
            [uid],
        )
        .unwrap();
    }
    run(&conn, &[evict_lru_bodies(3)]);

    let mut stmt = conn.prepare("SELECT uid FROM bodies ORDER BY uid").unwrap();
    let uids: Vec<i64> = stmt.query_map([], |r| r.get(0)).unwrap().map(|r| r.unwrap()).collect();
    assert_eq!(uids, vec![3, 4, 5]);
}

#[test]
fn evict_lru_bodies_is_a_no_op_under_the_cap() {
    let conn = test_conn();
    conn.execute(
        "INSERT INTO bodies (account_id, mailbox, uid, body, cached_at) VALUES ('acc', 'INBOX', 1, 'x', 1)",
        [],
    )
    .unwrap();
    run(&conn, &[evict_lru_bodies(100)]);
    assert_eq!(count(&conn, "SELECT COUNT(*) FROM bodies"), 1);
}

#[test]
fn the_cap_evicts_the_oldest_body_and_keeps_the_message() {
    let conn = test_conn();
    for uid in 1..=2001u32 {
        let ops = index_mail("acc", "INBOX", &test_header(uid), "b", uid as i64);
        run(&conn, &ops[..2]);
    }
    index_at(&conn, "acc", "INBOX", &test_header(5000), "new", 9000);
    assert_eq!(count(&conn, "SELECT COUNT(*) FROM bodies"), 2000);
    assert!(fetch_mail(&conn, "acc", "INBOX", 1).is_none());
    assert!(fetch_mail(&conn, "acc", "INBOX", 2).is_none());
    assert!(fetch_mail(&conn, "acc", "INBOX", 3).is_some());
    assert_eq!(fetch_mail(&conn, "acc", "INBOX", 5000).unwrap().1, "new");
    assert_eq!(count(&conn, "SELECT COUNT(*) FROM messages"), 2002);
}

#[test]
fn index_headers_does_not_clobber_an_already_cached_body_or_its_size() {
    let conn = test_conn();
    index(&conn, "acc", "INBOX", &test_header(1), "caf\u{e9}");
    let mut renamed = test_header(1);
    renamed.subject = "New".to_string();
    run(&conn, &index_headers("acc", "INBOX", &vec![renamed, test_header(2)]));
    let (header, body) = fetch_mail(&conn, "acc", "INBOX", 1).unwrap();
    assert_eq!((header.subject.as_str(), body.as_str()), ("New", "caf\u{e9}"));
    assert_eq!(count(&conn, "SELECT size FROM messages WHERE uid = 1"), 5);
    assert_eq!(count(&conn, "SELECT size FROM messages WHERE uid = 2"), 0);
    assert_eq!(count(&conn, "SELECT COUNT(*) FROM messages_fts"), 1);
    assert!(fetch_mail(&conn, "acc", "INBOX", 2).is_none());
}

#[test]
fn first_time_seeing_a_nonempty_mailbox_fetches_from_uid_1() {
    assert_eq!(
        sync_decision(None, 100, 50),
        SyncPlan::FetchFrom { first_new_uid: 1 }
    );
}

#[test]
fn first_time_seeing_an_empty_mailbox_is_up_to_date() {
    assert_eq!(sync_decision(None, 100, 1), SyncPlan::UpToDate);
}

#[test]
fn unchanged_uid_validity_and_uid_next_is_up_to_date() {
    assert_eq!(sync_decision(Some((100, 50)), 100, 50), SyncPlan::UpToDate);
}

#[test]
fn new_mail_since_last_sync_fetches_from_the_old_uid_next() {
    assert_eq!(
        sync_decision(Some((100, 50)), 100, 80),
        SyncPlan::FetchFrom { first_new_uid: 50 }
    );
}

#[test]
fn changed_uid_validity_forces_a_full_resync_regardless_of_uid_next() {
    assert_eq!(sync_decision(Some((100, 50)), 200, 50), SyncPlan::Resync);
    assert_eq!(sync_decision(Some((100, 50)), 200, 5), SyncPlan::Resync);
}

#[test]
fn a_uid_next_that_went_back_is_up_to_date() {
    assert_eq!(sync_decision(Some((100, 50)), 100, 49), SyncPlan::UpToDate);
    assert_eq!(sync_decision(None, 100, 0), SyncPlan::UpToDate);
}

#[test]
fn report_mailbox_state_wipes_cached_messages_on_uid_validity_change() {
    let conn = test_conn();
    index(&conn, "acc", "INBOX", &test_header(1), "body");
    index(&conn, "acc", "Archive", &test_header(1), "kept");
    report(&conn, "acc", "INBOX", 100, 50);

    let plan = report(&conn, "acc", "INBOX", 200, 50);
    assert_eq!(plan, SyncPlan::Resync);

    assert_eq!(count(&conn, "SELECT COUNT(*) FROM messages WHERE mailbox = 'INBOX'"), 0);
    assert_eq!(count(&conn, "SELECT COUNT(*) FROM bodies WHERE mailbox = 'INBOX'"), 0);
    assert!(search(&conn, "acc", "body", None).is_empty());
    assert_eq!(fetch_mail(&conn, "acc", "Archive", 1).unwrap().1, "kept");
}

#[test]
fn report_mailbox_state_persists_what_it_saw_for_next_time() {
    let conn = test_conn();
    report(&conn, "acc", "INBOX", 100, 50);
    let plan = report(&conn, "acc", "INBOX", 100, 50);
    assert_eq!(plan, SyncPlan::UpToDate);
}

fn report_cmd() -> DbCommand {
    DbCommand::ReportMailboxState {
        account_id: "a".to_string(),
        mailbox: "m".to_string(),
        uid_validity: 1,
        uid_next: 7,
    }
}

fn search_cmd() -> DbCommand {
    DbCommand::Search { account_id: "a".to_string(), query: "q".to_string(), mailbox: None }
}

fn fetch_cmd() -> DbCommand {
    DbCommand::FetchMail { account_id: "a".to_string(), mailbox: "m".to_string(), uid: 3 }
}

fn index_cmd() -> DbCommand {
    DbCommand::IndexMail {
        account_id: "a".to_string(),
        mailbox: "m".to_string(),
        header: test_header(1),
        body: "b".to_string(),
    }
}

#[test]
fn commands_become_requests() {
    let ask = |cmd: DbCommand| DbActor::new().on_command(cmd, 5);
    assert!(matches!(ask(index_cmd()), DbRequest::Write { ops } if ops.len() == 5));
    let headers_cmd = DbCommand::IndexHeaders {
        account_id: "a".to_string(),
        mailbox: "m".to_string(),
        headers: vec![test_header(1), test_header(2)],
    };
    assert!(matches!(ask(headers_cmd), DbRequest::Write { ops } if ops.len() == 2));
    assert!(matches!(ask(fetch_cmd()), DbRequest::Fetch { uid: 3, .. }));
    assert!(matches!(ask(search_cmd()), DbRequest::Search { statement } if matches!(statement.params[1], SqlValue::Null)));
    assert!(matches!(ask(report_cmd()), DbRequest::Look { statement } if statement.params.len() == 2));
}

#[test]
fn each_command_is_answered_once_and_failures_stop_nothing() {
    let mut actor = DbActor::new();
    let mut answered = |cmd: DbCommand, outcomes: Vec<DbOutcome>| {
        assert!(matches!(actor.phase, DbPhase::Idle));
        actor.on_command(cmd, 5);
        let mut events = Vec::new();
        for outcome in outcomes {
            events.extend(actor.on_outcome(outcome).event);
        }
        assert!(matches!(actor.phase, DbPhase::Idle));
        events
    };
    let failed = || "e".to_string();
    assert!(answered(index_cmd(), vec![DbOutcome::Written(Ok(()))]).is_empty());
    assert!(matches!(&answered(index_cmd(), vec![DbOutcome::Written(Err(failed()))])[..], [DbEvent::Error(e)] if e == "e"));
    assert!(matches!(&answered(search_cmd(), vec![DbOutcome::Found(Err(failed()))])[..], [DbEvent::Error(_)]));
    assert!(matches!(&answered(search_cmd(), vec![DbOutcome::Found(Ok(vec![test_header(1)]))])[..], [DbEvent::SearchResult { headers }] if headers.len() == 1));
    assert!(matches!(&answered(fetch_cmd(), vec![DbOutcome::Fetched(Ok((test_header(2), "b".to_string())))])[..], [DbEvent::MailFetched { header, .. }] if header.uid == 2));
    assert!(matches!(&answered(fetch_cmd(), vec![DbOutcome::Fetched(Err(failed()))])[..], [DbEvent::Error(_)]));
    let unseen = vec![DbOutcome::Looked(Err(failed())), DbOutcome::Written(Ok(()))];
    assert!(matches!(&answered(report_cmd(), unseen)[..], [DbEvent::SyncPlan { plan: SyncPlan::FetchFrom { first_new_uid: 1 }, .. }]));
    assert!(matches!(&answered(report_cmd(), vec![DbOutcome::Looked(Ok(Some((1, 3)))), DbOutcome::Written(Err(failed()))])[..], [DbEvent::Error(_)]));
    match &answered(report_cmd(), vec![DbOutcome::Looked(Ok(Some((1, 3)))), DbOutcome::Written(Ok(()))])[..] {
        [DbEvent::SyncPlan { account_id, mailbox, plan }] => {
            assert_eq!((account_id.as_str(), mailbox.as_str()), ("a", "m"));
            assert_eq!(*plan, SyncPlan::FetchFrom { first_new_uid: 3 });
        }
        _ => panic!("no plan"),
    }
}

#[test]
fn a_negative_limit_leaves_no_bodies() {
    let conn = test_conn();
    index(&conn, "acc", "INBOX", &test_header(1), "body");
    run(&conn, &[evict_lru_bodies(-1)]);
    assert_eq!(count(&conn, "SELECT COUNT(*) FROM bodies"), 0);
}

#[test]
fn a_stored_message_is_found_by_its_new_text_only() {
    let conn = test_conn();
    index(&conn, "acc", "INBOX", &test_header(1), "apple");
    index(&conn, "acc", "INBOX", &test_header(1), "pear");
    index(&conn, "acc", "Archive", &test_header(1), "apple");
    assert!(search(&conn, "acc", "apple", Some("INBOX")).is_empty());
    assert_eq!(search(&conn, "acc", "pear", Some("INBOX")).len(), 1);
    assert_eq!(search(&conn, "acc", "apple OR pear", None).len(), 2);
    report(&conn, "acc", "INBOX", 1, 2);
    report(&conn, "acc", "INBOX", 2, 2);
    assert!(search(&conn, "acc", "pear", None).is_empty());
    assert_eq!(search(&conn, "acc", "apple", None).len(), 1);
}
