//! The local cache of messages: what is written to it and read from it, and
//! when it has to be brought up to date.
//!
//! The cache is an SQLite file with four tables, keyed by account, mailbox and
//! UID: mailboxes, messages, bodies, and a full-text index. This module decides
//! which operations bring the cache from one state to the next, gives the
//! statement that carries each operation out, and says what each operation
//! means for the tables; the caller runs the statements.
use vstd::prelude::*;
use vstd::utf8::encode_utf8;

use crate::imap::{HeaderView, MailHeader};
use crate::text::{contains, occurs};

verus! {

/// Cap on cached bodies across all accounts and mailboxes; the oldest are
/// evicted once a write pushes past it.
pub const MAX_CACHED_BODIES: i64 = 2000;

/// What the user interface asks of the cache.
#[derive(Debug)]
#[allow(inconsistent_fields)]
pub enum DbCommand {
    IndexMail { account_id: String, mailbox: String, header: MailHeader, body: String },
    /// Store envelopes without bodies: leaves cached bodies, their sizes and
    /// the full-text index alone.
    IndexHeaders { account_id: String, mailbox: String, headers: Vec<MailHeader> },
    Search { account_id: String, query: String, mailbox: Option<String> },
    FetchMail { account_id: String, mailbox: String, uid: u32 },
    /// Report what the server said about a mailbox on the most recent
    /// `EXAMINE`/`SELECT`. Answered with a [`DbEvent::SyncPlan`].
    ReportMailboxState { account_id: String, mailbox: String, uid_validity: u32, uid_next: u32 },
}

/// What the cache answers.
#[derive(Debug)]
pub enum DbEvent {
    SearchResult { headers: Vec<MailHeader> },
    MailFetched { header: MailHeader, body: String },
    SyncPlan { account_id: String, mailbox: String, plan: SyncPlan },
    Error(String),
}

/// What should happen to bring a mailbox's local cache up to date, given what
/// the server just reported and what was last stored for it.
#[derive(Debug, Clone, Copy, PartialEq, Eq, Structural)]
pub enum SyncPlan {
    /// UIDVALIDITY is unchanged from last time and UIDNEXT didn't move: the
    /// cache already has everything the server has.
    UpToDate,
    /// UIDVALIDITY is unchanged; `first_new_uid` is the first UID worth
    /// fetching.
    FetchFrom { first_new_uid: u32 },
    /// UIDVALIDITY changed: the server has reassigned UIDs, so every UID the
    /// cache has for the mailbox means nothing anymore. What was cached of it
    /// is wiped; start a full resync from UID 1.
    Resync,
}

/// What the cache needs, given what was stored last time (nothing the first
/// time a mailbox is seen) and what the server just reported.
pub open spec fn sync_plan(
    previous: Option<(u32, u32)>,
    server_uid_validity: u32,
    server_uid_next: u32,
) -> SyncPlan {
    match previous {
        None => if server_uid_next <= 1 {
            SyncPlan::UpToDate
        } else {
            SyncPlan::FetchFrom { first_new_uid: 1 }
        },
        Some((validity, uid_next)) => if validity != server_uid_validity {
            SyncPlan::Resync
        } else if server_uid_next > uid_next {
            SyncPlan::FetchFrom { first_new_uid: uid_next }
        } else {
            SyncPlan::UpToDate
        },
    }
}

/// The decision behind [`report_mailbox_state`]: given what was stored last
/// time and what the server just reported, decide what the cache needs.
pub fn sync_decision(
    previous: Option<(u32, u32)>,
    server_uid_validity: u32,
    server_uid_next: u32,
) -> (plan: SyncPlan)
    ensures
        plan == sync_plan(previous, server_uid_validity, server_uid_next),
{
    match previous {
        None => {
            if server_uid_next <= 1 {
                SyncPlan::UpToDate
            } else {
                SyncPlan::FetchFrom { first_new_uid: 1 }
            }
        },
        Some((validity, uid_next)) => {
            if validity != server_uid_validity {
                SyncPlan::Resync
            } else if server_uid_next > uid_next {
                SyncPlan::FetchFrom { first_new_uid: uid_next }
            } else {
                SyncPlan::UpToDate
            }
        },
    }
}

/// One operation on the cache.
#[derive(Debug)]
pub enum CacheOp {
    /// Insert a message's list line and size, or replace what is there.
    UpsertMessage { account_id: String, mailbox: String, header: MailHeader, size: i64 },
    /// Insert a message's list line, or replace it and keep its size.
    UpsertHeader { account_id: String, mailbox: String, header: MailHeader },
    /// Insert a message's body, or replace it, and note when.
    UpsertBody { account_id: String, mailbox: String, uid: u32, body: String, cached_at: i64 },
    /// Delete a message's rows of the full-text index.
    DeleteIndexRow { account_id: String, mailbox: String, uid: u32 },
    /// Add a row for a message to the full-text index.
    InsertIndexRow { account_id: String, mailbox: String, header: MailHeader, body: String },
    /// Delete the oldest bodies until at most this many are left.
    EvictBodies { max_rows: i64 },
    /// Delete all messages of a mailbox.
    DeleteMessages { account_id: String, mailbox: String },
    /// Delete all bodies of a mailbox.
    DeleteBodies { account_id: String, mailbox: String },
    /// Delete all rows of a mailbox from the full-text index.
    DeleteIndexRows { account_id: String, mailbox: String },
    /// Insert what the server reported of a mailbox, or replace it.
    UpsertMailbox { account_id: String, mailbox: String, uid_validity: u32, uid_next: u32 },
}

/// One operation on the cache, as mathematical values.
#[verifier::ext_equal]
pub enum OpView {
    UpsertMessage { account_id: Seq<char>, mailbox: Seq<char>, header: HeaderView, size: i64 },
    UpsertHeader { account_id: Seq<char>, mailbox: Seq<char>, header: HeaderView },
    UpsertBody {
        account_id: Seq<char>,
        mailbox: Seq<char>,
        uid: u32,
        body: Seq<char>,
        cached_at: i64,
    },
    DeleteIndexRow { account_id: Seq<char>, mailbox: Seq<char>, uid: u32 },
    InsertIndexRow {
        account_id: Seq<char>,
        mailbox: Seq<char>,
        header: HeaderView,
        body: Seq<char>,
    },
    EvictBodies { max_rows: i64 },
    DeleteMessages { account_id: Seq<char>, mailbox: Seq<char> },
    DeleteBodies { account_id: Seq<char>, mailbox: Seq<char> },
    DeleteIndexRows { account_id: Seq<char>, mailbox: Seq<char> },
    UpsertMailbox { account_id: Seq<char>, mailbox: Seq<char>, uid_validity: u32, uid_next: u32 },
}

impl View for CacheOp {
    type V = OpView;

    open spec fn view(&self) -> OpView {
        match *self {
            CacheOp::UpsertMessage { account_id, mailbox, header, size } => OpView::UpsertMessage {
                account_id: account_id@,
                mailbox: mailbox@,
                header: header@,
                size,
            },
            CacheOp::UpsertHeader { account_id, mailbox, header } => OpView::UpsertHeader {
                account_id: account_id@,
                mailbox: mailbox@,
                header: header@,
            },
            CacheOp::UpsertBody { account_id, mailbox, uid, body, cached_at } =>
                OpView::UpsertBody {
                account_id: account_id@,
                mailbox: mailbox@,
                uid,
                body: body@,
                cached_at,
            },
            CacheOp::DeleteIndexRow { account_id, mailbox, uid } => OpView::DeleteIndexRow {
                account_id: account_id@,
                mailbox: mailbox@,
                uid,
            },
            CacheOp::InsertIndexRow { account_id, mailbox, header, body } =>
                OpView::InsertIndexRow {
                account_id: account_id@,
                mailbox: mailbox@,
                header: header@,
                body: body@,
            },
            CacheOp::EvictBodies { max_rows } => OpView::EvictBodies { max_rows },
            CacheOp::DeleteMessages { account_id, mailbox } => OpView::DeleteMessages {
                account_id: account_id@,
                mailbox: mailbox@,
            },
            CacheOp::DeleteBodies { account_id, mailbox } => OpView::DeleteBodies {
                account_id: account_id@,
                mailbox: mailbox@,
            },
            CacheOp::DeleteIndexRows { account_id, mailbox } => OpView::DeleteIndexRows {
                account_id: account_id@,
                mailbox: mailbox@,
            },
            CacheOp::UpsertMailbox { account_id, mailbox, uid_validity, uid_next } =>
                OpView::UpsertMailbox {
                account_id: account_id@,
                mailbox: mailbox@,
                uid_validity,
                uid_next,
            },
        }
    }
}

/// The operations of a list, each by its view.
pub open spec fn op_views(ops: Seq<CacheOp>) -> Seq<OpView> {
    ops.map_values(|op: CacheOp| op@)
}

/// The operations that store a message with its body: its line, its body, its
/// row of the full-text index in place of an older one, and the eviction of
/// what is over the cap.
pub open spec fn index_ops(
    account_id: Seq<char>,
    mailbox: Seq<char>,
    header: HeaderView,
    body: Seq<char>,
    cached_at: i64,
) -> Seq<OpView> {
    seq![
        OpView::UpsertMessage {
            account_id,
            mailbox,
            header,
            size: encode_utf8(body).len() as usize as i64,
        },
        OpView::UpsertBody { account_id, mailbox, uid: header.uid, body, cached_at },
        OpView::DeleteIndexRow { account_id, mailbox, uid: header.uid },
        OpView::InsertIndexRow { account_id, mailbox, header, body },
        OpView::EvictBodies { max_rows: MAX_CACHED_BODIES },
    ]
}

/// Insert or update one message's metadata, cached body, and full-text row.
/// Safe to repeat for the same message: every table replaces rather than
/// duplicates.
pub fn index_mail(
    account_id: &str,
    mailbox: &str,
    header: &MailHeader,
    body: &str,
    cached_at: i64,
) -> (ops: Vec<CacheOp>)
    ensures
        op_views(ops@) == index_ops(account_id@, mailbox@, header@, body@, cached_at),
{
    let mut ops: Vec<CacheOp> = Vec::new();
    ops.push(
        CacheOp::UpsertMessage {
            account_id: account_id.to_owned(),
            mailbox: mailbox.to_owned(),
            header: header.clone(),
            size: body.len() as i64,
        },
    );
    ops.push(
        CacheOp::UpsertBody {
            account_id: account_id.to_owned(),
            mailbox: mailbox.to_owned(),
            uid: header.uid,
            body: body.to_owned(),
            cached_at,
        },
    );
    ops.push(
        CacheOp::DeleteIndexRow {
            account_id: account_id.to_owned(),
            mailbox: mailbox.to_owned(),
            uid: header.uid,
        },
    );
    ops.push(
        CacheOp::InsertIndexRow {
            account_id: account_id.to_owned(),
            mailbox: mailbox.to_owned(),
            header: header.clone(),
            body: body.to_owned(),
        },
    );
    ops.push(evict_lru_bodies(MAX_CACHED_BODIES));
    assert(op_views(ops@) =~= index_ops(account_id@, mailbox@, header@, body@, cached_at));
    ops
}

/// Delete the oldest-cached bodies until at most `max_rows` remain. Messages
/// and the full-text index are untouched: this only trims the (larger,
/// re-fetchable) bodies.
pub fn evict_lru_bodies(max_rows: i64) -> (op: CacheOp)
    ensures
        op@ == (OpView::EvictBodies { max_rows }),
{
    CacheOp::EvictBodies { max_rows }
}

/// The operations that store list lines without bodies.
pub open spec fn header_ops(
    account_id: Seq<char>,
    mailbox: Seq<char>,
    headers: Seq<MailHeader>,
) -> Seq<OpView> {
    headers.map_values(
        |h: MailHeader| OpView::UpsertHeader { account_id, mailbox, header: h@ },
    )
}

/// Insert or update the metadata of messages whose bodies were not fetched:
/// neither cached bodies and their sizes nor the full-text index are touched.
pub fn index_headers(account_id: &str, mailbox: &str, headers: &Vec<MailHeader>) -> (ops: Vec<
    CacheOp,
>)
    ensures
        op_views(ops@) == header_ops(account_id@, mailbox@, headers@),
{
    let mut ops: Vec<CacheOp> = Vec::new();
    let mut i: usize = 0;
    while i < headers.len()
        invariant
            i <= headers.len(),
            op_views(ops@) == header_ops(account_id@, mailbox@, headers@.take(i as int)),
        decreases headers.len() - i,
    {
        let ghost before = ops@;
        ops.push(
            CacheOp::UpsertHeader {
                account_id: account_id.to_owned(),
                mailbox: mailbox.to_owned(),
                header: headers[i].clone(),
            },
        );
        assert(op_views(ops@) == op_views(before).push(ops@.last()@));
        i = i + 1;
        assert(op_views(ops@) =~= header_ops(account_id@, mailbox@, headers@.take(i as int)));
    }
    assert(headers@.take(headers@.len() as int) == headers@);
    ops
}

/// The operations that record what a server reported of a mailbox: on a
/// resync everything cached of it goes first.
pub open spec fn report_ops(
    account_id: Seq<char>,
    mailbox: Seq<char>,
    plan: SyncPlan,
    uid_validity: u32,
    uid_next: u32,
) -> Seq<OpView> {
    let record = OpView::UpsertMailbox { account_id, mailbox, uid_validity, uid_next };
    if plan is Resync {
        seq![
            OpView::DeleteMessages { account_id, mailbox },
            OpView::DeleteBodies { account_id, mailbox },
            OpView::DeleteIndexRows { account_id, mailbox },
            record,
        ]
    } else {
        seq![record]
    }
}

/// Decide what a mailbox's cache needs from what was stored of it and what the
/// server reports, and how to record the report.
pub fn report_mailbox_state(
    previous: Option<(u32, u32)>,
    account_id: &str,
    mailbox: &str,
    uid_validity: u32,
    uid_next: u32,
) -> (r: (SyncPlan, Vec<CacheOp>))
    ensures
        r.0 == sync_plan(previous, uid_validity, uid_next),
        op_views(r.1@) == report_ops(account_id@, mailbox@, r.0, uid_validity, uid_next),
{
    let plan = sync_decision(previous, uid_validity, uid_next);
    let mut ops: Vec<CacheOp> = Vec::new();
    if plan == SyncPlan::Resync {
        ops.push(
            CacheOp::DeleteMessages {
                account_id: account_id.to_owned(),
                mailbox: mailbox.to_owned(),
            },
        );
        ops.push(
            CacheOp::DeleteBodies {
                account_id: account_id.to_owned(),
                mailbox: mailbox.to_owned(),
            },
        );
        ops.push(
            CacheOp::DeleteIndexRows {
                account_id: account_id.to_owned(),
                mailbox: mailbox.to_owned(),
            },
        );
    }
    ops.push(
        CacheOp::UpsertMailbox {
            account_id: account_id.to_owned(),
            mailbox: mailbox.to_owned(),
            uid_validity,
            uid_next,
        },
    );
    assert(op_views(ops@) =~= report_ops(account_id@, mailbox@, plan, uid_validity, uid_next));
    (plan, ops)
}

/// A value bound to a statement's parameter.
#[derive(Debug)]
pub enum SqlValue {
    Text(String),
    Integer(i64),
    Null,
}

/// A value bound to a statement's parameter, as a mathematical value.
#[verifier::ext_equal]
pub enum SqlView {
    Text(Seq<char>),
    Integer(i64),
    Null,
}

impl View for SqlValue {
    type V = SqlView;

    open spec fn view(&self) -> SqlView {
        match *self {
            SqlValue::Text(t) => SqlView::Text(t@),
            SqlValue::Integer(i) => SqlView::Integer(i),
            SqlValue::Null => SqlView::Null,
        }
    }
}

/// A statement with the values of its parameters `?1`, `?2` and so on. Values
/// are always bound, never spliced into the text.
#[derive(Debug)]
pub struct Statement {
    pub sql: &'static str,
    pub params: Vec<SqlValue>,
}

/// The parameters of a statement, each by its view.
pub open spec fn param_views(params: Seq<SqlValue>) -> Seq<SqlView> {
    params.map_values(|p: SqlValue| p@)
}

/// The tables of the cache.
pub const SCHEMA: &'static str = "
        CREATE TABLE IF NOT EXISTS mailboxes (
            account_id      TEXT NOT NULL,
            mailbox         TEXT NOT NULL,
            uid_validity    INTEGER NOT NULL,
            uid_next        INTEGER NOT NULL,
            highest_modseq  INTEGER NOT NULL DEFAULT 0,
            PRIMARY KEY (account_id, mailbox)
        );

        CREATE TABLE IF NOT EXISTS messages (
            account_id  TEXT NOT NULL,
            mailbox     TEXT NOT NULL,
            uid         INTEGER NOT NULL,
            subject     TEXT NOT NULL,
            from_addr   TEXT NOT NULL,
            to_addr     TEXT NOT NULL,
            date        TEXT NOT NULL,
            message_id  TEXT NOT NULL DEFAULT '',
            size        INTEGER NOT NULL DEFAULT 0,
            flags       TEXT NOT NULL DEFAULT '',
            thread_key  TEXT,
            PRIMARY KEY (account_id, mailbox, uid)
        );

        CREATE TABLE IF NOT EXISTS bodies (
            account_id  TEXT NOT NULL,
            mailbox     TEXT NOT NULL,
            uid         INTEGER NOT NULL,
            body        TEXT NOT NULL,
            cached_at   INTEGER NOT NULL,
            PRIMARY KEY (account_id, mailbox, uid)
        );

        CREATE VIRTUAL TABLE IF NOT EXISTS messages_fts USING fts5(
            account_id UNINDEXED,
            mailbox UNINDEXED,
            uid UNINDEXED,
            subject,
            from_addr,
            to_addr,
            body
        );
        ";

/// Adds the `message_id` column to a `messages` table that an older build made
/// without it: creating the tables leaves an existing one as it is.
pub const ADD_MESSAGE_ID_COLUMN: &'static str =
    "ALTER TABLE messages ADD COLUMN message_id TEXT NOT NULL DEFAULT ''";

/// SQLite's words when a column is there already.
pub const DUPLICATE_COLUMN: &'static str = "duplicate column name";

/// Inserts or replaces a message's line and size.
pub const UPSERT_MESSAGE: &'static str =
    "INSERT INTO messages (account_id, mailbox, uid, subject, from_addr, to_addr, date, message_id, size)
         VALUES (?1, ?2, ?3, ?4, ?5, ?6, ?7, ?8, ?9)
         ON CONFLICT (account_id, mailbox, uid) DO UPDATE SET
            subject = excluded.subject,
            from_addr = excluded.from_addr,
            to_addr = excluded.to_addr,
            date = excluded.date,
            message_id = excluded.message_id,
            size = excluded.size";

/// Inserts or replaces a message's line, its size untouched.
pub const UPSERT_HEADER: &'static str =
    "INSERT INTO messages (account_id, mailbox, uid, subject, from_addr, to_addr, date, message_id)
         VALUES (?1, ?2, ?3, ?4, ?5, ?6, ?7, ?8)
         ON CONFLICT (account_id, mailbox, uid) DO UPDATE SET
            subject = excluded.subject,
            from_addr = excluded.from_addr,
            to_addr = excluded.to_addr,
            date = excluded.date,
            message_id = excluded.message_id";

/// Inserts or replaces a message's body.
pub const UPSERT_BODY: &'static str =
    "INSERT INTO bodies (account_id, mailbox, uid, body, cached_at)
         VALUES (?1, ?2, ?3, ?4, ?5)
         ON CONFLICT (account_id, mailbox, uid) DO UPDATE SET
            body = excluded.body,
            cached_at = excluded.cached_at";

/// Deletes a message from the full-text index, which has no key to replace by.
pub const DELETE_INDEX_ROW: &'static str =
    "DELETE FROM messages_fts WHERE account_id = ?1 AND mailbox = ?2 AND uid = ?3";

/// Adds a message to the full-text index.
pub const INSERT_INDEX_ROW: &'static str =
    "INSERT INTO messages_fts (account_id, mailbox, uid, subject, from_addr, to_addr, body)
         VALUES (?1, ?2, ?3, ?4, ?5, ?6, ?7)";

/// Deletes the oldest bodies over the cap.
pub const EVICT_BODIES: &'static str =
    "DELETE FROM bodies WHERE rowid IN (
            SELECT rowid FROM bodies ORDER BY cached_at ASC
            LIMIT MAX(0, (SELECT COUNT(*) FROM bodies) - ?1)
        )";

/// Deletes a mailbox's messages.
pub const DELETE_MESSAGES: &'static str =
    "DELETE FROM messages WHERE account_id = ?1 AND mailbox = ?2";

/// Deletes a mailbox's bodies.
pub const DELETE_BODIES: &'static str = "DELETE FROM bodies WHERE account_id = ?1 AND mailbox = ?2";

/// Deletes a mailbox from the full-text index.
pub const DELETE_INDEX_ROWS: &'static str =
    "DELETE FROM messages_fts WHERE account_id = ?1 AND mailbox = ?2";

/// Inserts or replaces what a server reported of a mailbox.
pub const UPSERT_MAILBOX: &'static str =
    "INSERT INTO mailboxes (account_id, mailbox, uid_validity, uid_next)
         VALUES (?1, ?2, ?3, ?4)
         ON CONFLICT (account_id, mailbox) DO UPDATE SET
            uid_validity = excluded.uid_validity,
            uid_next = excluded.uid_next";

/// Reads what a server last reported of a mailbox.
pub const SELECT_MAILBOX: &'static str =
    "SELECT uid_validity, uid_next FROM mailboxes WHERE account_id = ?1 AND mailbox = ?2";

/// Reads one message with its body.
pub const SELECT_MAIL: &'static str =
    "SELECT m.subject, m.from_addr, m.to_addr, m.date, m.message_id, b.body
         FROM messages m JOIN bodies b
            ON b.account_id = m.account_id AND b.mailbox = m.mailbox AND b.uid = m.uid
         WHERE m.account_id = ?1 AND m.mailbox = ?2 AND m.uid = ?3";

/// Finds messages by the full-text index, best match first.
pub const SEARCH: &'static str =
    "SELECT m.uid, m.subject, m.from_addr, m.to_addr, m.date, m.message_id
         FROM messages_fts f
         JOIN messages m ON m.account_id = f.account_id
            AND m.mailbox = f.mailbox AND m.uid = f.uid
         WHERE f.account_id = ?1
            AND (?2 IS NULL OR f.mailbox = ?2)
            AND messages_fts MATCH ?3
         ORDER BY f.rank";

/// The text of the statement that carries an operation out.
pub open spec fn op_sql(op: OpView) -> Seq<char> {
    match op {
        OpView::UpsertMessage { .. } => UPSERT_MESSAGE@,
        OpView::UpsertHeader { .. } => UPSERT_HEADER@,
        OpView::UpsertBody { .. } => UPSERT_BODY@,
        OpView::DeleteIndexRow { .. } => DELETE_INDEX_ROW@,
        OpView::InsertIndexRow { .. } => INSERT_INDEX_ROW@,
        OpView::EvictBodies { .. } => EVICT_BODIES@,
        OpView::DeleteMessages { .. } => DELETE_MESSAGES@,
        OpView::DeleteBodies { .. } => DELETE_BODIES@,
        OpView::DeleteIndexRows { .. } => DELETE_INDEX_ROWS@,
        OpView::UpsertMailbox { .. } => UPSERT_MAILBOX@,
    }
}

/// The values that the statement of an operation is given, in order.
pub open spec fn op_params(op: OpView) -> Seq<SqlView> {
    match op {
        OpView::UpsertMessage { account_id, mailbox, header, size } => seq![
            SqlView::Text(account_id),
            SqlView::Text(mailbox),
            SqlView::Integer(header.uid as i64),
            SqlView::Text(header.subject),
            SqlView::Text(header.from),
            SqlView::Text(header.to),
            SqlView::Text(header.date),
            SqlView::Text(header.message_id),
            SqlView::Integer(size),
        ],
        OpView::UpsertHeader { account_id, mailbox, header } => seq![
            SqlView::Text(account_id),
            SqlView::Text(mailbox),
            SqlView::Integer(header.uid as i64),
            SqlView::Text(header.subject),
            SqlView::Text(header.from),
            SqlView::Text(header.to),
            SqlView::Text(header.date),
            SqlView::Text(header.message_id),
        ],
        OpView::UpsertBody { account_id, mailbox, uid, body, cached_at } => seq![
            SqlView::Text(account_id),
            SqlView::Text(mailbox),
            SqlView::Integer(uid as i64),
            SqlView::Text(body),
            SqlView::Integer(cached_at),
        ],
        OpView::DeleteIndexRow { account_id, mailbox, uid } => seq![
            SqlView::Text(account_id),
            SqlView::Text(mailbox),
            SqlView::Integer(uid as i64),
        ],
        OpView::InsertIndexRow { account_id, mailbox, header, body } => seq![
            SqlView::Text(account_id),
            SqlView::Text(mailbox),
            SqlView::Integer(header.uid as i64),
            SqlView::Text(header.subject),
            SqlView::Text(header.from),
            SqlView::Text(header.to),
            SqlView::Text(body),
        ],
        OpView::EvictBodies { max_rows } => seq![SqlView::Integer(max_rows)],
        OpView::DeleteMessages { account_id, mailbox } => seq![
            SqlView::Text(account_id),
            SqlView::Text(mailbox),
        ],
        OpView::DeleteBodies { account_id, mailbox } => seq![
            SqlView::Text(account_id),
            SqlView::Text(mailbox),
        ],
        OpView::DeleteIndexRows { account_id, mailbox } => seq![
            SqlView::Text(account_id),
            SqlView::Text(mailbox),
        ],
        OpView::UpsertMailbox { account_id, mailbox, uid_validity, uid_next } => seq![
            SqlView::Text(account_id),
            SqlView::Text(mailbox),
            SqlView::Integer(uid_validity as i64),
            SqlView::Integer(uid_next as i64),
        ],
    }
}

fn message_params(account_id: &String, mailbox: &String, header: &MailHeader) -> (r: Vec<SqlValue>)
    ensures
        param_views(r@) == op_params(
            OpView::UpsertHeader { account_id: account_id@, mailbox: mailbox@, header: header@ },
        ),
{
    let params = vec![
        SqlValue::Text(account_id.clone()),
        SqlValue::Text(mailbox.clone()),
        SqlValue::Integer(header.uid as i64),
        SqlValue::Text(header.subject.clone()),
        SqlValue::Text(header.from.clone()),
        SqlValue::Text(header.to.clone()),
        SqlValue::Text(header.date.clone()),
        SqlValue::Text(header.message_id.clone()),
    ];
    assert(param_views(params@) =~= op_params(
        OpView::UpsertHeader { account_id: account_id@, mailbox: mailbox@, header: header@ },
    ));
    params
}

fn mailbox_params(account_id: &String, mailbox: &String) -> (r: Vec<SqlValue>)
    ensures
        param_views(r@) == seq![SqlView::Text(account_id@), SqlView::Text(mailbox@)],
{
    let params = vec![SqlValue::Text(account_id.clone()), SqlValue::Text(mailbox.clone())];
    assert(param_views(params@) =~= seq![SqlView::Text(account_id@), SqlView::Text(mailbox@)]);
    params
}

fn add_param(params: &mut Vec<SqlValue>, value: SqlValue)
    ensures
        param_views(final(params)@) == param_views(old(params)@).push(value@),
{
    let ghost before = params@;
    params.push(value);
    assert(param_views(params@) =~= param_views(before).push(value@));
}

/// The statement that carries an operation out, with its values.
pub fn statement(op: &CacheOp) -> (r: Statement)
    ensures
        r.sql@ == op_sql(op@),
        param_views(r.params@) == op_params(op@),
{
    match op {
        CacheOp::UpsertMessage { account_id, mailbox, header, size } => {
            let mut params = message_params(account_id, mailbox, header);
            add_param(&mut params, SqlValue::Integer(*size));
            assert(param_views(params@) =~= op_params(op@));
            Statement { sql: UPSERT_MESSAGE, params }
        },
        CacheOp::UpsertHeader { account_id, mailbox, header } => Statement {
            sql: UPSERT_HEADER,
            params: message_params(account_id, mailbox, header),
        },
        CacheOp::UpsertBody { account_id, mailbox, uid, body, cached_at } => {
            let mut params = mailbox_params(account_id, mailbox);
            add_param(&mut params, SqlValue::Integer(*uid as i64));
            add_param(&mut params, SqlValue::Text(body.clone()));
            add_param(&mut params, SqlValue::Integer(*cached_at));
            assert(param_views(params@) =~= op_params(op@));
            Statement { sql: UPSERT_BODY, params }
        },
        CacheOp::DeleteIndexRow { account_id, mailbox, uid } => {
            let mut params = mailbox_params(account_id, mailbox);
            add_param(&mut params, SqlValue::Integer(*uid as i64));
            assert(param_views(params@) =~= op_params(op@));
            Statement { sql: DELETE_INDEX_ROW, params }
        },
        CacheOp::InsertIndexRow { account_id, mailbox, header, body } => {
            let mut params = mailbox_params(account_id, mailbox);
            add_param(&mut params, SqlValue::Integer(header.uid as i64));
            add_param(&mut params, SqlValue::Text(header.subject.clone()));
            add_param(&mut params, SqlValue::Text(header.from.clone()));
            add_param(&mut params, SqlValue::Text(header.to.clone()));
            add_param(&mut params, SqlValue::Text(body.clone()));
            assert(param_views(params@) =~= op_params(op@));
            Statement { sql: INSERT_INDEX_ROW, params }
        },
        CacheOp::EvictBodies { max_rows } => {
            let params = vec![SqlValue::Integer(*max_rows)];
            assert(param_views(params@) =~= op_params(op@));
            Statement { sql: EVICT_BODIES, params }
        },
        CacheOp::DeleteMessages { account_id, mailbox } => Statement {
            sql: DELETE_MESSAGES,
            params: mailbox_params(account_id, mailbox),
        },
        CacheOp::DeleteBodies { account_id, mailbox } => Statement {
            sql: DELETE_BODIES,
            params: mailbox_params(account_id, mailbox),
        },
        CacheOp::DeleteIndexRows { account_id, mailbox } => Statement {
            sql: DELETE_INDEX_ROWS,
            params: mailbox_params(account_id, mailbox),
        },
        CacheOp::UpsertMailbox { account_id, mailbox, uid_validity, uid_next } => {
            let mut params = mailbox_params(account_id, mailbox);
            add_param(&mut params, SqlValue::Integer(*uid_validity as i64));
            add_param(&mut params, SqlValue::Integer(*uid_next as i64));
            assert(param_views(params@) =~= op_params(op@));
            Statement { sql: UPSERT_MAILBOX, params }
        },
    }
}

/// The query for what a server last reported of a mailbox: UIDVALIDITY and
/// UIDNEXT.
pub fn mailbox_query(account_id: &str, mailbox: &str) -> (r: Statement)
    ensures
        r.sql@ == SELECT_MAILBOX@,
        param_views(r.params@) == seq![SqlView::Text(account_id@), SqlView::Text(mailbox@)],
{
    Statement {
        sql: SELECT_MAILBOX,
        params: mailbox_params(&account_id.to_owned(), &mailbox.to_owned()),
    }
}

/// The query for one message with its body: subject, from, to, date, message
/// id and body.
pub fn fetch_mail_query(account_id: &str, mailbox: &str, uid: u32) -> (r: Statement)
    ensures
        r.sql@ == SELECT_MAIL@,
        param_views(r.params@) == seq![
            SqlView::Text(account_id@),
            SqlView::Text(mailbox@),
            SqlView::Integer(uid as i64),
        ],
{
    let mut params = mailbox_params(&account_id.to_owned(), &mailbox.to_owned());
    add_param(&mut params, SqlValue::Integer(uid as i64));
    Statement { sql: SELECT_MAIL, params }
}

/// The full-text query: UID, subject, from, to, date and message id of each
/// match in one account, in one mailbox or in all of them. The mailbox is a
/// bound value like the others, whatever characters its name holds.
pub fn search_query(account_id: &str, query: &str, mailbox: &Option<String>) -> (r: Statement)
    ensures
        r.sql@ == SEARCH@,
        param_views(r.params@) == seq![
            SqlView::Text(account_id@),
            match mailbox {
                Some(m) => SqlView::Text(m@),
                None => SqlView::Null,
            },
            SqlView::Text(query@),
        ],
{
    let scope = match mailbox {
        Some(m) => SqlValue::Text(m.clone()),
        None => SqlValue::Null,
    };
    let params = vec![
        SqlValue::Text(account_id.to_owned()),
        scope,
        SqlValue::Text(query.to_owned()),
    ];
    assert(param_views(params@) =~= seq![
        SqlView::Text(account_id@),
        match mailbox {
            Some(m) => SqlView::Text(m@),
            None => SqlView::Null,
        },
        SqlView::Text(query@),
    ]);
    Statement { sql: SEARCH, params }
}

/// The list line that a row of `subject, from, to, date, message id` holds.
pub fn header_from_columns(uid: u32, columns: &Vec<String>) -> (h: MailHeader)
    requires
        columns@.len() >= 5,
    ensures
        h@ == (HeaderView {
            uid,
            subject: columns@[0]@,
            from: columns@[1]@,
            to: columns@[2]@,
            date: columns@[3]@,
            message_id: columns@[4]@,
        }),
{
    MailHeader {
        uid,
        subject: columns[0].clone(),
        from: columns[1].clone(),
        to: columns[2].clone(),
        date: columns[3].clone(),
        message_id: columns[4].clone(),
    }
}

/// Whether the `message_id` column is in place once the statement that adds it
/// ended with this error: it is when the error says that the column was there
/// already.
pub fn is_duplicate_column(message: &str) -> (r: bool)
    ensures
        r == occurs(DUPLICATE_COLUMN@, message@),
{
    contains(message, DUPLICATE_COLUMN)
}

/// Nothing that arrived is passed over. While the numbering stands, the cache is
/// up to date exactly when no UID lies between the one that was next last time
/// and the one that is next now; else the fetch starts early enough to reach
/// every such UID, and with the first of them.
pub proof fn every_new_message_is_fetched(
    validity: u32,
    stored_next: u32,
    server_next: u32,
    uid: u32,
)
    ensures
        sync_plan(Some((validity, stored_next)), validity, server_next) is UpToDate ==> !(stored_next
            <= uid < server_next),
        server_next <= stored_next ==> sync_plan(
            Some((validity, stored_next)),
            validity,
            server_next,
        ) is UpToDate,
        stored_next <= uid < server_next ==> sync_plan(
            Some((validity, stored_next)),
            validity,
            server_next,
        ) == (SyncPlan::FetchFrom { first_new_uid: stored_next }),
{
}

/// A mailbox that was never seen is fetched from its first message on, unless it
/// never held one.
pub proof fn an_unseen_mailbox_is_fetched_whole(validity: u32, server_next: u32, uid: u32)
    ensures
        1 <= uid < server_next ==> sync_plan(None, validity, server_next) == (SyncPlan::FetchFrom {
            first_new_uid: 1,
        }),
        server_next <= 1 ==> sync_plan(None, validity, server_next) is UpToDate,
{
}

/// A mailbox is read anew exactly when its numbering changed.
pub proof fn only_renumbering_starts_over(
    previous: Option<(u32, u32)>,
    validity: u32,
    server_next: u32,
)
    ensures
        sync_plan(previous, validity, server_next) is Resync <==> (previous matches Some(p) && p.0
            != validity),
{
}

/// Every value of a statement stands in the place of its own column: account,
/// mailbox and UID first, then subject, sender, recipient and what else the
/// statement writes, each from the field of that name.
pub proof fn values_stand_in_their_columns(
    account_id: Seq<char>,
    mailbox: Seq<char>,
    header: HeaderView,
    body: Seq<char>,
    number: i64,
)
    ensures
        ({
            let insert = op_params(OpView::InsertIndexRow { account_id, mailbox, header, body });
            let upsert = op_params(
                OpView::UpsertMessage { account_id, mailbox, header, size: number },
            );
            let line = op_params(OpView::UpsertHeader { account_id, mailbox, header });
            let stored = op_params(
                OpView::UpsertBody {
                    account_id,
                    mailbox,
                    uid: header.uid,
                    body,
                    cached_at: number,
                },
            );
            let deleted = op_params(
                OpView::DeleteIndexRow { account_id, mailbox, uid: header.uid },
            );
            &&& insert.len() == 7 && upsert.len() == 9 && line.len() == 8 && stored.len() == 5
            &&& deleted.len() == 3
            &&& forall|p: Seq<SqlView>|
                p == insert || p == upsert || p == line || p == stored || p == deleted ==> (
                #[trigger] p[0]) == SqlView::Text(account_id) && p[1] == SqlView::Text(mailbox)
                    && p[2] == SqlView::Integer(header.uid as i64)
            &&& forall|p: Seq<SqlView>|
                p == insert || p == upsert || p == line ==> (#[trigger] p[3]) == SqlView::Text(
                    header.subject,
                ) && p[4] == SqlView::Text(header.from) && p[5] == SqlView::Text(header.to)
            &&& insert[6] == SqlView::Text(body)
            &&& forall|p: Seq<SqlView>|
                p == upsert || p == line ==> (#[trigger] p[6]) == SqlView::Text(header.date)
                    && p[7] == SqlView::Text(header.message_id)
            &&& upsert[8] == SqlView::Integer(number)
            &&& stored[3] == SqlView::Text(body) && stored[4] == SqlView::Integer(number)
        }),
{
}

/// What is done to a whole mailbox names that mailbox, and what is recorded of
/// it is what the server reported; the eviction has its limit.
pub proof fn values_name_their_mailbox(
    account_id: Seq<char>,
    mailbox: Seq<char>,
    uid_validity: u32,
    uid_next: u32,
    max_rows: i64,
)
    ensures
        ({
            let here = seq![SqlView::Text(account_id), SqlView::Text(mailbox)];
            &&& op_params(OpView::DeleteMessages { account_id, mailbox }) == here
            &&& op_params(OpView::DeleteBodies { account_id, mailbox }) == here
            &&& op_params(OpView::DeleteIndexRows { account_id, mailbox }) == here
            &&& op_params(
                OpView::UpsertMailbox { account_id, mailbox, uid_validity, uid_next },
            ) == here.push(SqlView::Integer(uid_validity as i64)).push(
                SqlView::Integer(uid_next as i64),
            )
            &&& op_params(OpView::EvictBodies { max_rows }) == seq![SqlView::Integer(max_rows)]
        }),
{
    let here = seq![SqlView::Text(account_id), SqlView::Text(mailbox)];
    assert(op_params(OpView::UpsertMailbox { account_id, mailbox, uid_validity, uid_next })
        =~= here.push(SqlView::Integer(uid_validity as i64)).push(
        SqlView::Integer(uid_next as i64),
    ));
}

/// Each kind of operation has a statement of its own.
pub proof fn operations_run_their_own_statement(op: OpView)
    ensures
        op is UpsertMessage ==> op_sql(op) == UPSERT_MESSAGE@,
        op is UpsertHeader ==> op_sql(op) == UPSERT_HEADER@,
        op is UpsertBody ==> op_sql(op) == UPSERT_BODY@,
        op is DeleteIndexRow ==> op_sql(op) == DELETE_INDEX_ROW@,
        op is InsertIndexRow ==> op_sql(op) == INSERT_INDEX_ROW@,
        op is EvictBodies ==> op_sql(op) == EVICT_BODIES@,
        op is DeleteMessages ==> op_sql(op) == DELETE_MESSAGES@,
        op is DeleteBodies ==> op_sql(op) == DELETE_BODIES@,
        op is DeleteIndexRows ==> op_sql(op) == DELETE_INDEX_ROWS@,
        op is UpsertMailbox ==> op_sql(op) == UPSERT_MAILBOX@,
{
}

/// Storing a message writes its line with the size of its body in bytes, its
/// body with the time, and its full-text row, the old row being deleted before
/// the new one is added; last comes the eviction, down to the cap.
pub proof fn storing_writes_line_body_and_row(
    account_id: Seq<char>,
    mailbox: Seq<char>,
    header: HeaderView,
    body: Seq<char>,
    cached_at: i64,
)
    ensures
        ({
            let ops = index_ops(account_id, mailbox, header, body, cached_at);
            &&& exists|i: int|
                0 <= i < ops.len() && #[trigger] ops[i] == (OpView::UpsertMessage {
                    account_id,
                    mailbox,
                    header,
                    size: encode_utf8(body).len() as usize as i64,
                })
            &&& exists|i: int|
                0 <= i < ops.len() && #[trigger] ops[i] == (OpView::UpsertBody {
                    account_id,
                    mailbox,
                    uid: header.uid,
                    body,
                    cached_at,
                })
            &&& exists|i: int, j: int|
                0 <= i < j < ops.len() && #[trigger] ops[i] == (OpView::DeleteIndexRow {
                    account_id,
                    mailbox,
                    uid: header.uid,
                }) && #[trigger] ops[j] == (OpView::InsertIndexRow {
                    account_id,
                    mailbox,
                    header,
                    body,
                })
            &&& ops.last() == OpView::EvictBodies { max_rows: 2000 }
        }),
{
    let ops = index_ops(account_id, mailbox, header, body, cached_at);
    assert(ops[0] is UpsertMessage);
    assert(ops[1] is UpsertBody);
    assert(ops[2] is DeleteIndexRow);
    assert(ops[3] is InsertIndexRow);
}

/// Every line that is stored without a body is stored as it is, in order.
pub proof fn every_header_is_stored(
    account_id: Seq<char>,
    mailbox: Seq<char>,
    headers: Seq<MailHeader>,
    i: int,
)
    requires
        0 <= i < headers.len(),
    ensures
        header_ops(account_id, mailbox, headers).len() == headers.len(),
        header_ops(account_id, mailbox, headers)[i] matches OpView::UpsertHeader {
            account_id: a,
            mailbox: m,
            header: h,
        } && a == account_id && m == mailbox && h.uid == headers[i].uid && h.subject
            == headers[i].subject@ && h.from == headers[i].from@ && h.to == headers[i].to@ && h.date
            == headers[i].date@ && h.message_id == headers[i].message_id@,
{
}

/// An operation's model has the operation's own fields, a list line's model the
/// line's, and a bound value's model the value itself.
pub proof fn models_keep_every_field(
    account_id: String,
    mailbox: String,
    header: MailHeader,
    body: String,
    number: i64,
    uid_validity: u32,
    uid_next: u32,
)
    ensures
        header@ == (HeaderView {
            uid: header.uid,
            subject: header.subject@,
            from: header.from@,
            to: header.to@,
            date: header.date@,
            message_id: header.message_id@,
        }),
        (CacheOp::InsertIndexRow { account_id, mailbox, header, body })@ == (
        OpView::InsertIndexRow {
            account_id: account_id@,
            mailbox: mailbox@,
            header: header@,
            body: body@,
        }),
        (CacheOp::UpsertMessage { account_id, mailbox, header, size: number })@ == (
        OpView::UpsertMessage {
            account_id: account_id@,
            mailbox: mailbox@,
            header: header@,
            size: number,
        }),
        (CacheOp::UpsertHeader { account_id, mailbox, header })@ == (OpView::UpsertHeader {
            account_id: account_id@,
            mailbox: mailbox@,
            header: header@,
        }),
        (CacheOp::UpsertBody { account_id, mailbox, uid: header.uid, body, cached_at: number })@
            == (OpView::UpsertBody {
            account_id: account_id@,
            mailbox: mailbox@,
            uid: header.uid,
            body: body@,
            cached_at: number,
        }),
        SqlValue::Text(body)@ == SqlView::Text(body@),
        SqlValue::Integer(number)@ == SqlView::Integer(number),
        (CacheOp::DeleteIndexRow { account_id, mailbox, uid: header.uid })@ == (
        OpView::DeleteIndexRow { account_id: account_id@, mailbox: mailbox@, uid: header.uid }),
        (CacheOp::EvictBodies { max_rows: number })@ == (OpView::EvictBodies { max_rows: number }),
        (CacheOp::DeleteMessages { account_id, mailbox })@ == (OpView::DeleteMessages {
            account_id: account_id@,
            mailbox: mailbox@,
        }),
        (CacheOp::DeleteBodies { account_id, mailbox })@ == (OpView::DeleteBodies {
            account_id: account_id@,
            mailbox: mailbox@,
        }),
        (CacheOp::DeleteIndexRows { account_id, mailbox })@ == (OpView::DeleteIndexRows {
            account_id: account_id@,
            mailbox: mailbox@,
        }),
        (CacheOp::UpsertMailbox { account_id, mailbox, uid_validity, uid_next })@ == (
        OpView::UpsertMailbox {
            account_id: account_id@,
            mailbox: mailbox@,
            uid_validity,
            uid_next,
        }),
        forall|ops: Seq<CacheOp>, i: int|
            0 <= i < ops.len() ==> op_views(ops).len() == ops.len() && #[trigger] op_views(ops)[i]
                == ops[i]@,
        forall|params: Seq<SqlValue>, i: int|
            0 <= i < params.len() ==> param_views(params).len() == params.len()
                && #[trigger] param_views(params)[i] == params[i]@,
{
}

} // verus!
