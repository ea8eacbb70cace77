//! The plain mail window: one connection, one message list, a full-text index,
//! and the three-line settings file.
use vstd::prelude::*;

use crate::imap::{
    collect_page, is_first_problem, is_line_of, message_problem, FetchedMessage, HeaderPage,
};
use crate::mail_app::{page_label, page_text, port_or};
use crate::db::{param_views, SqlValue, SqlView, Statement};
use crate::render::{
    clean_text, escaped, find_html, find_text, first_body, parse_mail, parsed_mail, part_views,
    MailPart, PartView,
};
use crate::text::{
    decimal, is_white, lemma_index_of_is, lines, lines_of, parse_u16, same_text, trim, trimmed, trimmed_end,
    trimmed_start, without_cr,
};

verus! {

/// One line of a message list.
#[derive(Debug)]
pub struct MailHeader {
    pub uid: u32,
    pub subject: String,
    pub from: String,
    pub to: String,
    pub date: String,
}

/// What the window asks of the IMAP connection. `P` is the type that carries a
/// password.
#[derive(Debug)]
pub enum ImapCommand<P> {
    Connect { host: String, port: u16, username: String, password: P },
    FetchMailboxes,
    FetchHeaders { mailbox: String, page: u32 },
    FetchBody { mailbox: String, uid: u32 },
}

/// What the IMAP connection tells the window.
#[derive(Debug)]
pub enum ImapEvent {
    Connected,
    Error(String),
    Mailboxes(Vec<String>),
    Headers { mailbox: String, headers: Vec<MailHeader>, page: u32, total_pages: u32 },
    Body { uid: u32, html: String },
}

/// What is asked of the full-text index.
#[derive(Debug)]
#[allow(inconsistent_fields)]
pub enum DbCommand {
    IndexMail { mailbox: String, header: MailHeader, body: String },
    Search { query: String, mailbox: Option<String> },
    FetchMail { mailbox: String, uid: u32 },
}

/// What the full-text index answers.
#[derive(Debug)]
pub enum DbEvent {
    SearchResult { headers: Vec<MailHeader> },
    MailFetched { header: MailHeader, body: String },
    Error(String),
}

/// The list line that a fuller one holds.
pub fn plain_header(h: &crate::imap::MailHeader) -> (r: MailHeader)
    ensures
        is_plain_of(r, *h),
{
    MailHeader {
        uid: h.uid,
        subject: h.subject.clone(),
        from: h.from.clone(),
        to: h.to.clone(),
        date: h.date.clone(),
    }
}

/// What the caller does for a command; what came of it goes to [`step_event`].
#[derive(Debug)]
pub enum ImapStep<P> {
    /// Log in with these.
    LogIn { host: String, port: u16, username: String, password: P },
    /// List the mailboxes.
    ListMailboxes,
    /// Fetch a page of a mailbox.
    FetchPage { mailbox: String, page: u32 },
    /// Fetch a message.
    FetchMessage { mailbox: String, uid: u32 },
    /// Report this.
    Emit(ImapEvent),
    /// Nothing: without a session there is nothing to ask.
    Nothing,
}

/// What the caller does for a command, given whether there is a session. Only a
/// page that cannot be fetched is reported.
pub fn imap_step<P>(session: bool, cmd: ImapCommand<P>) -> (step: ImapStep<P>)
    ensures
        match cmd {
            ImapCommand::Connect { host, port, username, password } => step == (ImapStep::LogIn {
                host,
                port,
                username,
                password,
            }),
            ImapCommand::FetchMailboxes => step == if session {
                ImapStep::<P>::ListMailboxes
            } else {
                ImapStep::<P>::Nothing
            },
            ImapCommand::FetchHeaders { mailbox, page } => if session {
                step == (ImapStep::<P>::FetchPage { mailbox, page })
            } else {
                step matches ImapStep::Emit(ImapEvent::Error(e)) && e@ == "Not connected"@
            },
            ImapCommand::FetchBody { mailbox, uid } => step == if session {
                ImapStep::<P>::FetchMessage { mailbox, uid }
            } else {
                ImapStep::<P>::Nothing
            },
        },
{
    match cmd {
        ImapCommand::Connect { host, port, username, password } => ImapStep::LogIn {
            host,
            port,
            username,
            password,
        },
        ImapCommand::FetchMailboxes => {
            if session {
                ImapStep::ListMailboxes
            } else {
                ImapStep::Nothing
            }
        },
        ImapCommand::FetchHeaders { mailbox, page } => {
            if session {
                ImapStep::FetchPage { mailbox, page }
            } else {
                ImapStep::Emit(ImapEvent::Error("Not connected".to_owned()))
            }
        },
        ImapCommand::FetchBody { mailbox, uid } => {
            if session {
                ImapStep::FetchMessage { mailbox, uid }
            } else {
                ImapStep::Nothing
            }
        },
    }
}

/// What came of a step.
#[derive(Debug)]
pub enum StepOutcome {
    LoggedIn(Result<(), String>),
    Listed(Result<Vec<String>, String>),
    /// The page's list lines and the number of pages.
    Page(Result<(Vec<MailHeader>, u32), String>),
    Message(Result<String, String>),
}

/// Whether this is an outcome of a step of this kind.
pub open spec fn is_outcome_of<P>(step: ImapStep<P>, outcome: StepOutcome) -> bool {
    match outcome {
        StepOutcome::LoggedIn(_) => step is LogIn,
        StepOutcome::Listed(_) => step is ListMailboxes,
        StepOutcome::Page(_) => step is FetchPage,
        StepOutcome::Message(_) => step is FetchMessage,
    }
}

/// What is reported of a step: what it brought, for the mailbox, the page and
/// the message that were asked for, or its error.
pub open spec fn reported<P>(step: ImapStep<P>, outcome: StepOutcome) -> ImapEvent
    recommends
        is_outcome_of(step, outcome),
{
    match outcome {
        StepOutcome::LoggedIn(Ok(_)) => ImapEvent::Connected,
        StepOutcome::Listed(Ok(names)) => ImapEvent::Mailboxes(names),
        StepOutcome::Page(Ok((headers, total_pages))) => ImapEvent::Headers {
            mailbox: step->FetchPage_mailbox,
            headers,
            page: step->FetchPage_page,
            total_pages,
        },
        StepOutcome::Message(Ok(html)) => ImapEvent::Body { uid: step->FetchMessage_uid, html },
        StepOutcome::LoggedIn(Err(e)) => ImapEvent::Error(e),
        StepOutcome::Listed(Err(e)) => ImapEvent::Error(e),
        StepOutcome::Page(Err(e)) => ImapEvent::Error(e),
        StepOutcome::Message(Err(e)) => ImapEvent::Error(e),
    }
}

/// What is reported of a step.
pub fn step_event<P>(step: ImapStep<P>, outcome: StepOutcome) -> (r: ImapEvent)
    requires
        is_outcome_of(step, outcome),
    ensures
        r == reported(step, outcome),
{
    match (step, outcome) {
        (_, StepOutcome::LoggedIn(Ok(_))) => ImapEvent::Connected,
        (_, StepOutcome::Listed(Ok(names))) => ImapEvent::Mailboxes(names),
        (
            ImapStep::FetchPage { mailbox, page },
            StepOutcome::Page(Ok((headers, total_pages))),
        ) => ImapEvent::Headers { mailbox, headers, page, total_pages },
        (ImapStep::FetchMessage { mailbox: _, uid }, StepOutcome::Message(Ok(html))) =>
            ImapEvent::Body { uid, html },
        (_, StepOutcome::LoggedIn(Err(e))) => ImapEvent::Error(e),
        (_, StepOutcome::Listed(Err(e))) => ImapEvent::Error(e),
        (_, StepOutcome::Page(Err(e))) => ImapEvent::Error(e),
        (_, StepOutcome::Message(Err(e))) => ImapEvent::Error(e),
        _ => vstd::pervasive::unreached(),
    }
}

/// The list lines of one page, newest first, from the answers to a `FETCH` of
/// its sequence numbers; the first answer that lacks something makes the whole
/// page fail.
pub fn page_headers(messages: &Vec<Result<FetchedMessage, String>>) -> (r: Result<
    Vec<MailHeader>,
    String,
>)
    ensures
        match r {
            Ok(headers) => is_plain_page(headers@, messages@),
            Err(e) => is_first_problem(messages@, e@),
        },
{
    let full = collect_page(messages)?;
    let mut headers: Vec<MailHeader> = Vec::new();
    let mut i: usize = 0;
    while i < full.len()
        invariant
            i <= full.len(),
            headers@.len() == i,
            forall|k: int| 0 <= k < i ==> is_plain_of(#[trigger] headers@[k], full@[k]),
        decreases full.len() - i,
    {
        headers.push(plain_header(&full[i]));
        i = i + 1;
    }
    assert forall|k: int| 0 <= k < messages@.len() implies is_plain_line(
        headers@[messages@.len() - 1 - k],
        #[trigger] messages@[k],
    ) by {
        let at = messages@.len() - 1 - k;
        assert(is_plain_of(headers@[at], full@[at]));
        assert(is_line_of(full@[at], messages@[k]));
    }
    Ok(headers)
}

/// The reply to a request for a page: its list lines and the number of pages. An
/// empty mailbox has neither. `messages` are the answers to the fetch of `page`.
pub fn page_reply(
    page: Option<HeaderPage>,
    messages: &Vec<Result<FetchedMessage, String>>,
) -> (r: Result<(Vec<MailHeader>, u32), String>)
    ensures
        match (page, r) {
            (None, Ok((headers, total_pages))) => headers@.len() == 0 && total_pages == 0,
            (None, Err(_)) => false,
            (Some(p), Ok((headers, total_pages))) => is_plain_page(headers@, messages@)
                && total_pages == p.total_pages,
            (Some(p), Err(e)) => is_first_problem(messages@, e@),
        },
{
    match page {
        None => Ok((Vec::new(), 0)),
        Some(p) => match page_headers(messages) {
            Ok(headers) => Ok((headers, p.total_pages)),
            Err(e) => Err(e),
        },
    }
}

/// Whether `headers` are the list lines of one page, newest first, none of the
/// answers lacking anything.
pub open spec fn is_plain_page(
    headers: Seq<MailHeader>,
    messages: Seq<Result<FetchedMessage, String>>,
) -> bool {
    &&& headers.len() == messages.len()
    &&& forall|i: int|
        0 <= i < messages.len() ==> message_problem(#[trigger] messages[i]) is None
            && is_plain_line(headers[messages.len() - 1 - i], messages[i])
}

/// Whether `h` is the plain form of a fuller list line.
pub open spec fn is_plain_of(h: MailHeader, full: crate::imap::MailHeader) -> bool {
    h == MailHeader {
        uid: full.uid,
        subject: full.subject,
        from: full.from,
        to: full.to,
        date: full.date,
    }
}

/// Whether `h` is the list line of the answer `m`, which lacks nothing.
pub open spec fn is_plain_line(h: MailHeader, m: Result<FetchedMessage, String>) -> bool {
    exists|full: crate::imap::MailHeader| is_plain_of(h, full) && #[trigger] is_line_of(full, m)
}

/// What is shown of a parsed message: its HTML as it is, or its text, escaped,
/// between `<pre>` and `</pre>`; an error where it has neither.
pub open spec fn shown_body(parts: Seq<PartView>) -> Result<Seq<char>, Seq<char>> {
    match first_body(parts, "text/html"@) {
        Some(html) => Ok(html),
        None => match first_body(parts, "text/plain"@) {
            Some(text) => Ok("<pre>"@ + escaped(text) + "</pre>"@),
            None => Err("Message not found or no body"@),
        },
    }
}

/// What is shown of a parsed message.
pub fn body_of_parts(parts: &Vec<MailPart>) -> (r: Result<String, String>)
    ensures
        text_result(r) == shown_body(part_views(parts@)),
{
    match find_html(parts) {
        Some(html) => Ok(html),
        None => match find_text(parts) {
            Some(text) => {
                let mut s = "<pre>".to_owned();
                s.append(clean_text(text.as_str()).as_str());
                s.append("</pre>");
                Ok(s)
            },
            None => Err("Message not found or no body".to_owned()),
        },
    }
}

/// A text or an error, by their characters.
pub open spec fn text_result(r: Result<String, String>) -> Result<Seq<char>, Seq<char>> {
    match r {
        Ok(t) => Ok(t@),
        Err(e) => Err(e@),
    }
}

/// What is shown of a fetched message, or why nothing is.
pub open spec fn body_outcome(found: crate::imap_actor::FetchedBody) -> Result<
    Seq<char>,
    Seq<char>,
> {
    match found {
        None => Err("Message not found or no body"@),
        Some(Err(e)) => Err(e@),
        Some(Ok(None)) => Err("No body"@),
        Some(Ok(Some(raw))) => match parsed_mail(raw@) {
            Ok(parts) => shown_body(parts),
            Err(e) => Err(e),
        },
    }
}

/// What is shown of a fetched message, or why nothing is.
pub fn fetched_body(found: &crate::imap_actor::FetchedBody) -> (r: Result<String, String>)
    ensures
        text_result(r) == body_outcome(*found),
{
    match found {
        None => Err("Message not found or no body".to_owned()),
        Some(Err(e)) => Err(e.clone()),
        Some(Ok(None)) => Err("No body".to_owned()),
        Some(Ok(Some(raw))) => match parse_mail(raw.as_slice()) {
            Ok(parts) => body_of_parts(&parts),
            Err(e) => Err(e),
        },
    }
}

/// The index, one row per message.
pub const SCHEMA: &'static str = "CREATE VIRTUAL TABLE IF NOT EXISTS mails_fts USING fts5(
                mailbox,
                uid UNINDEXED,
                subject,
                from_addr,
                to_addr,
                date,
                body
            )";

/// Counts the rows of a message.
pub const COUNT_MAIL: &'static str = "SELECT count(*) FROM mails_fts WHERE mailbox = ? AND uid = ?";

/// Adds the row of a message.
pub const INSERT_MAIL: &'static str =
    "INSERT INTO mails_fts (mailbox, uid, subject, from_addr, to_addr, date, body) VALUES (?, ?, ?, ?, ?, ?, ?)";

/// Reads the row of a message.
pub const SELECT_MAIL: &'static str =
    "SELECT subject, from_addr, to_addr, date, body FROM mails_fts WHERE mailbox = ? AND uid = ?";

/// Finds matches in all mailboxes, the best first.
pub const SEARCH: &'static str =
    "SELECT uid, subject, from_addr, to_addr, date FROM mails_fts WHERE mails_fts MATCH ? ORDER BY rank";

/// Finds matches in one mailbox, the best first.
pub const SEARCH_MAILBOX: &'static str =
    "SELECT uid, subject, from_addr, to_addr, date FROM mails_fts WHERE mailbox = ? AND mails_fts MATCH ? ORDER BY rank";

/// How many rows a message has.
pub fn count_query(mailbox: &str, uid: u32) -> (r: Statement)
    ensures
        r.sql@ == COUNT_MAIL@,
        param_views(r.params@) == seq![SqlView::Text(mailbox@), SqlView::Integer(uid as i64)],
{
    let params = vec![SqlValue::Text(mailbox.to_owned()), SqlValue::Integer(uid as i64)];
    assert(param_views(params@) =~= seq![
        SqlView::Text(mailbox@),
        SqlView::Integer(uid as i64),
    ]);
    Statement { sql: COUNT_MAIL, params }
}

/// The values of a message's row.
pub open spec fn row_of(mailbox: Seq<char>, header: MailHeader, body: Seq<char>) -> Seq<SqlView> {
    seq![
        SqlView::Text(mailbox),
        SqlView::Integer(header.uid as i64),
        SqlView::Text(header.subject@),
        SqlView::Text(header.from@),
        SqlView::Text(header.to@),
        SqlView::Text(header.date@),
        SqlView::Text(body),
    ]
}

/// The statement that indexes a message which has `count` rows already. A
/// message is indexed once.
pub fn index_mail(count: u32, mailbox: &str, header: &MailHeader, body: &str) -> (r: Option<
    Statement,
>)
    ensures
        match r {
            Some(s) => count == 0 && s.sql@ == INSERT_MAIL@ && param_views(s.params@) == row_of(
                mailbox@,
                *header,
                body@,
            ),
            None => count > 0,
        },
{
    if count > 0 {
        return None;
    }
    let params = vec![
        SqlValue::Text(mailbox.to_owned()),
        SqlValue::Integer(header.uid as i64),
        SqlValue::Text(header.subject.clone()),
        SqlValue::Text(header.from.clone()),
        SqlValue::Text(header.to.clone()),
        SqlValue::Text(header.date.clone()),
        SqlValue::Text(body.to_owned()),
    ];
    assert(param_views(params@) =~= row_of(mailbox@, *header, body@));
    Some(Statement { sql: INSERT_MAIL, params })
}

/// The search for a full-text query, in one mailbox or in all. The mailbox is a
/// bound value, whatever characters its name holds.
pub fn search(query: &str, mailbox: &Option<String>) -> (r: Statement)
    ensures
        match mailbox {
            Some(m) => r.sql@ == SEARCH_MAILBOX@ && param_views(r.params@) == seq![
                SqlView::Text(m@),
                SqlView::Text(query@),
            ],
            None => r.sql@ == SEARCH@ && param_views(r.params@) == seq![SqlView::Text(query@)],
        },
{
    match mailbox {
        Some(m) => {
            let params = vec![SqlValue::Text(m.clone()), SqlValue::Text(query.to_owned())];
            assert(param_views(params@) =~= seq![SqlView::Text(m@), SqlView::Text(query@)]);
            Statement { sql: SEARCH_MAILBOX, params }
        },
        None => {
            let params = vec![SqlValue::Text(query.to_owned())];
            assert(param_views(params@) =~= seq![SqlView::Text(query@)]);
            Statement { sql: SEARCH, params }
        },
    }
}

/// The query for one message: subject, from, to, date and body.
pub fn fetch_mail(mailbox: &str, uid: u32) -> (r: Statement)
    ensures
        r.sql@ == SELECT_MAIL@,
        param_views(r.params@) == seq![SqlView::Text(mailbox@), SqlView::Integer(uid as i64)],
{
    let params = vec![SqlValue::Text(mailbox.to_owned()), SqlValue::Integer(uid as i64)];
    assert(param_views(params@) =~= seq![
        SqlView::Text(mailbox@),
        SqlView::Integer(uid as i64),
    ]);
    Statement { sql: SELECT_MAIL, params }
}

/// The settings file: host, port and user name, one to a line.
pub open spec fn settings_text(host: Seq<char>, port: Seq<char>, username: Seq<char>) -> Seq<char> {
    host + seq!['\n'] + port + seq!['\n'] + username
}

/// The settings that a file's content holds, each trimmed; nothing where a
/// line is missing.
pub open spec fn settings_in(content: Seq<char>) -> Option<(Seq<char>, Seq<char>, Seq<char>)> {
    let ls = lines(content);
    if ls.len() >= 3 {
        Some((trimmed(ls[0]), trimmed(ls[1]), trimmed(ls[2])))
    } else {
        None
    }
}

/// What is written to the settings file.
pub fn save_config(host: &str, port: &str, username: &str) -> (content: String)
    ensures
        content@ == settings_text(host@, port@, username@),
{
    let mut s = host.to_owned();
    s.push('\n');
    s.append(port);
    s.push('\n');
    s.append(username);
    assert(s@ == settings_text(host@, port@, username@));
    s
}

/// The settings that a file's content holds.
pub fn load_config(content: &str) -> (r: Option<(String, String, String)>)
    ensures
        match r {
            Some((host, port, username)) => settings_in(content@) == Some(
                (host@, port@, username@),
            ),
            None => settings_in(content@) is None,
        },
{
    let found = lines_of(content);
    assert(lines(content@).len() == found@.len());
    if found.len() >= 3 {
        assert(lines(content@)[0] == found@[0]@);
        assert(lines(content@)[1] == found@[1]@);
        assert(lines(content@)[2] == found@[2]@);
        Some((trim(found[0].as_str()), trim(found[1].as_str()), trim(found[2].as_str())))
    } else {
        None
    }
}

proof fn lemma_trimmed_without_cr(s: Seq<char>)
    ensures
        trimmed(without_cr(s)) == trimmed(s),
{
    let drop = |c: char| is_white(c);
    if s.len() > 0 && s.last() == '\r' {
        lemma_trim_drops_last(s, drop);
    }
}

proof fn lemma_trim_drops_last(s: Seq<char>, drop: spec_fn(char) -> bool)
    requires
        s.len() > 0,
        drop(s.last()),
    ensures
        trimmed_end(trimmed_start(s.drop_last(), drop), drop) == trimmed_end(
            trimmed_start(s, drop),
            drop,
        ),
    decreases s.len(),
{
    if drop(s[0]) {
        if s.len() == 1 {
            assert(s.skip(1) == s.drop_last());
        } else {
            assert(s.skip(1).drop_last() == s.drop_last().skip(1));
            lemma_trim_drops_last(s.skip(1), drop);
        }
    } else {
        assert(s.len() > 1);
        assert(s.drop_last()[0] == s[0]);
    }
}

proof fn lemma_first_line(line: Seq<char>, rest: Seq<char>)
    requires
        !line.contains('\n'),
    ensures
        lines(line + seq!['\n'] + rest) == seq![without_cr(line)] + lines(rest),
{
    let s = line + seq!['\n'] + rest;
    assert forall|i: int| 0 <= i < line.len() implies s[i] != '\n' by {
        assert(s[i] == line[i]);
        assert(line.contains(line[i]));
    }
    lemma_index_of_is(s, '\n', line.len() as int);
    assert(s.take(line.len() as int) == line);
    assert(s.skip(line.len() as int + 1) == rest);
}

/// Settings that were saved are loaded again, trimmed, as long as none of them
/// holds a line feed and the user name is not empty.
pub proof fn saved_settings_are_loaded(host: Seq<char>, port: Seq<char>, username: Seq<char>)
    requires
        !host.contains('\n'),
        !port.contains('\n'),
        !username.contains('\n'),
        username.len() > 0,
    ensures
        settings_in(settings_text(host, port, username)) == Some(
            (trimmed(host), trimmed(port), trimmed(username)),
        ),
{
    let content = settings_text(host, port, username);
    let below = port + seq!['\n'] + username;
    assert(content == host + seq!['\n'] + below);
    lemma_first_line(host, below);
    lemma_first_line(port, username);
    assert forall|i: int| 0 <= i < username.len() implies username[i] != '\n' by {
        assert(username.contains(username[i]));
    }
    lemma_index_of_is(username, '\n', username.len() as int);
    assert(lines(username) == seq![username]);
    let ls = lines(content);
    assert(ls == seq![without_cr(host)] + (seq![without_cr(port)] + seq![username]));
    assert(ls[0] == without_cr(host));
    assert(ls[1] == without_cr(port));
    assert(ls[2] == username);
    lemma_trimmed_without_cr(host);
    lemma_trimmed_without_cr(port);
}

/// Everything the plain window shows and remembers.
pub struct EsMailApp {
    pub host: String,
    pub port: String,
    pub username: String,
    pub password: String,
    pub status: String,
    pub is_connected: bool,
    pub mailboxes: Vec<String>,
    pub selected_mailbox: String,
    pub headers: Vec<MailHeader>,
    pub selected_uid: Option<u32>,
    pub current_page: u32,
    pub total_pages: u32,
}

/// What the plain window asks for.
pub enum Effect {
    /// Send this to the IMAP connection.
    Imap(ImapCommand<String>),
    /// Show this HTML in the message view.
    Show(String),
    /// Write this to the settings file.
    SaveSettings(String),
}

/// Whether `e` writes the settings of the login form.
pub open spec fn saves_settings(e: Effect, app: EsMailApp) -> bool {
    e matches Effect::SaveSettings(c) && c@ == settings_text(app.host@, app.port@, app.username@)
}

/// Whether `e` asks for a page of a mailbox.
pub open spec fn asks_headers(e: Effect, mailbox: Seq<char>, page: u32) -> bool {
    e matches Effect::Imap(ImapCommand::FetchHeaders { mailbox: m, page: p }) && m@ == mailbox && p
        == page
}

/// Whether `e` shows this HTML.
pub open spec fn shows(e: Effect, html: Seq<char>) -> bool {
    e matches Effect::Show(h) && h@ == html
}

/// What an event of the IMAP connection changes and asks for. A page of
/// another mailbox than the selected one, or a body of another message than the
/// open one, is dropped.
pub open spec fn imap_outcome(
    before: EsMailApp,
    event: ImapEvent,
    after: EsMailApp,
    effects: Seq<Effect>,
) -> bool {
    match event {
        ImapEvent::Connected => {
            &&& after == EsMailApp { status: after.status, is_connected: true, ..before }
            &&& after.status@ == "Connected!"@
            &&& effects.len() == 3
            &&& saves_settings(effects[0], before)
            &&& effects[1] == Effect::Imap(ImapCommand::FetchMailboxes)
            &&& asks_headers(effects[2], before.selected_mailbox@, 1)
        },
        ImapEvent::Error(e) => {
            &&& after == EsMailApp { status: after.status, ..before }
            &&& after.status@ == "Error: "@ + e@
            &&& effects.len() == 0
        },
        ImapEvent::Mailboxes(names) => {
            &&& after == EsMailApp { mailboxes: names, ..before }
            &&& effects.len() == 0
        },
        ImapEvent::Headers { mailbox, headers, page, total_pages } => {
            &&& effects.len() == 0
            &&& if mailbox@ == before.selected_mailbox@ {
                &&& after == EsMailApp {
                    headers,
                    current_page: page,
                    total_pages,
                    status: after.status,
                    ..before
                }
                &&& after.status@ == page_text(page, total_pages)
            } else {
                after == before
            }
        },
        ImapEvent::Body { uid, html } => {
            &&& after == before
            &&& if before.selected_uid == Some(uid) {
                effects.len() == 1 && shows(effects[0], html@)
            } else {
                effects.len() == 0
            }
        },
    }
}

impl EsMailApp {
    /// A fresh window, its login form filled from the saved settings or with
    /// the usual server.
    pub fn new(saved: Option<(String, String, String)>) -> (r: Self)
        ensures
            match saved {
                Some((host, port, username)) => r.host == host && r.port == port && r.username
                    == username,
                None => r.host@ == "imap.gmail.com"@ && r.port@ == "993"@ && r.username@
                    == ""@,
            },
            r.password@ == Seq::<char>::empty(),
            r.status@ == "Ready"@,
            !r.is_connected,
            r.mailboxes@.len() == 0,
            r.selected_mailbox@ == "INBOX"@,
            r.headers@.len() == 0,
            r.selected_uid is None,
            r.current_page == 1,
            r.total_pages == 1,
    {
        let (host, port, username) = match saved {
            Some(s) => s,
            None => ("imap.gmail.com".to_owned(), "993".to_owned(), "".to_owned()),
        };
        EsMailApp {
            host,
            port,
            username,
            password: String::new(),
            status: "Ready".to_owned(),
            is_connected: false,
            mailboxes: Vec::new(),
            selected_mailbox: "INBOX".to_owned(),
            headers: Vec::new(),
            selected_uid: None,
            current_page: 1,
            total_pages: 1,
        }
    }

    fn save_settings(&self) -> (e: Effect)
        ensures
            saves_settings(e, *self),
    {
        Effect::SaveSettings(
            save_config(self.host.as_str(), self.port.as_str(), self.username.as_str()),
        )
    }

    fn fetch_page(&self) -> (e: Effect)
        ensures
            asks_headers(e, self.selected_mailbox@, self.current_page),
    {
        Effect::Imap(
            ImapCommand::FetchHeaders {
                mailbox: self.selected_mailbox.clone(),
                page: self.current_page,
            },
        )
    }

    /// Take one event of the IMAP connection.
    pub fn handle_imap_event(&mut self, event: ImapEvent) -> (effects: Vec<Effect>)
        ensures
            imap_outcome(*old(self), event, *final(self), effects@),
    {
        let mut effects: Vec<Effect> = Vec::new();
        match event {
            ImapEvent::Connected => {
                self.status = "Connected!".to_owned();
                self.is_connected = true;
                effects.push(self.save_settings());
                effects.push(Effect::Imap(ImapCommand::FetchMailboxes));
                effects.push(
                    Effect::Imap(
                        ImapCommand::FetchHeaders {
                            mailbox: self.selected_mailbox.clone(),
                            page: 1,
                        },
                    ),
                );
            },
            ImapEvent::Error(e) => {
                let mut s = "Error: ".to_owned();
                s.append(e.as_str());
                self.status = s;
            },
            ImapEvent::Mailboxes(names) => {
                self.mailboxes = names;
            },
            ImapEvent::Headers { mailbox, headers, page, total_pages } => {
                if same_text(mailbox.as_str(), self.selected_mailbox.as_str()) {
                    self.headers = headers;
                    self.current_page = page;
                    self.total_pages = total_pages;
                    self.status = page_label(page, total_pages);
                }
            },
            ImapEvent::Body { uid, html } => {
                let wanted = match self.selected_uid {
                    Some(selected) => selected == uid,
                    None => false,
                };
                if wanted {
                    effects.push(Effect::Show(html));
                }
            },
        }
        effects
    }

    /// Save the login form and connect with what it holds.
    pub fn connect(&mut self) -> (effects: Vec<Effect>)
        ensures
            *final(self) == (EsMailApp { status: final(self).status, ..*old(self) }),
            final(self).status@ == "Connecting..."@,
            effects@.len() == 2,
            saves_settings(effects@[0], *old(self)),
            effects@[1] matches Effect::Imap(
                ImapCommand::Connect { host, port, username, password },
            ) && host@ == old(self).host@ && port == port_or(old(self).port@, 993) && username@
                == old(self).username@ && password@ == old(self).password@,
    {
        self.status = "Connecting...".to_owned();
        let port: u16 = match parse_u16(self.port.as_str()) {
            Some(p) => p,
            None => 993,
        };
        let mut effects: Vec<Effect> = Vec::new();
        effects.push(self.save_settings());
        effects.push(
            Effect::Imap(
                ImapCommand::Connect {
                    host: self.host.clone(),
                    port,
                    username: self.username.clone(),
                    password: self.password.clone(),
                },
            ),
        );
        effects
    }

    /// Go back to the login form.
    pub fn logout(&mut self) -> (e: Effect)
        ensures
            *final(self) == (EsMailApp {
                is_connected: false,
                headers: final(self).headers,
                selected_uid: None,
                status: final(self).status,
                ..*old(self)
            }),
            final(self).headers@.len() == 0,
            final(self).status@ == "Logged out"@,
            shows(e, "<h1>Logged out</h1>"@),
    {
        self.is_connected = false;
        self.headers = Vec::new();
        self.selected_uid = None;
        self.status = "Logged out".to_owned();
        Effect::Show("<h1>Logged out</h1>".to_owned())
    }

    /// Turn to another mailbox, on its first page.
    pub fn select_mailbox(&mut self, mailbox: String) -> (e: Effect)
        ensures
            *final(self) == (EsMailApp {
                selected_mailbox: mailbox,
                selected_uid: None,
                current_page: 1,
                ..*old(self)
            }),
            asks_headers(e, mailbox@, 1),
    {
        self.selected_mailbox = mailbox;
        self.selected_uid = None;
        self.current_page = 1;
        self.fetch_page()
    }

    /// Fetch the current page again.
    pub fn refresh(&self) -> (e: Effect)
        ensures
            asks_headers(e, self.selected_mailbox@, self.current_page),
    {
        self.fetch_page()
    }

    /// Turn to the page before, if there is one.
    pub fn previous_page(&mut self) -> (e: Option<Effect>)
        ensures
            old(self).current_page <= 1 ==> *final(self) == *old(self) && e is None,
            old(self).current_page > 1 ==> {
                &&& *final(self) == (EsMailApp {
                    current_page: (old(self).current_page - 1) as u32,
                    ..*old(self)
                })
                &&& e is Some
                &&& asks_headers(e->0, old(self).selected_mailbox@, final(self).current_page)
            },
    {
        if self.current_page > 1 {
            self.current_page = self.current_page - 1;
            Some(self.fetch_page())
        } else {
            None
        }
    }

    /// Turn to the page after, if there is one.
    pub fn next_page(&mut self) -> (e: Option<Effect>)
        ensures
            old(self).current_page >= old(self).total_pages ==> *final(self) == *old(self)
                && e is None,
            old(self).current_page < old(self).total_pages ==> {
                &&& *final(self) == (EsMailApp {
                    current_page: (old(self).current_page + 1) as u32,
                    ..*old(self)
                })
                &&& e is Some
                &&& asks_headers(e->0, old(self).selected_mailbox@, final(self).current_page)
            },
    {
        if self.current_page < self.total_pages {
            self.current_page = self.current_page + 1;
            Some(self.fetch_page())
        } else {
            None
        }
    }

    /// Open a message of the list.
    pub fn open_message(&mut self, uid: u32) -> (effects: Vec<Effect>)
        ensures
            *final(self) == (EsMailApp { selected_uid: Some(uid), ..*old(self) }),
            effects@.len() == 2,
            effects@[0] matches Effect::Imap(ImapCommand::FetchBody { mailbox, uid: u }) && mailbox@
                == old(self).selected_mailbox@ && u == uid,
            shows(effects@[1], "<i>Loading message...</i>"@),
    {
        self.selected_uid = Some(uid);
        let mut effects: Vec<Effect> = Vec::new();
        effects.push(
            Effect::Imap(ImapCommand::FetchBody { mailbox: self.selected_mailbox.clone(), uid }),
        );
        effects.push(Effect::Show("<i>Loading message...</i>".to_owned()));
        effects
    }
}

/// What arrives for another mailbox or another message than the ones shown
/// changes nothing.
pub proof fn what_is_not_awaited_is_dropped(
    before: EsMailApp,
    event: ImapEvent,
    after: EsMailApp,
    effects: Seq<Effect>,
)
    requires
        imap_outcome(before, event, after, effects),
        match event {
            ImapEvent::Headers { mailbox, .. } => mailbox@ != before.selected_mailbox@,
            ImapEvent::Body { uid, .. } => before.selected_uid != Some(uid),
            _ => false,
        },
    ensures
        after == before,
        effects.len() == 0,
{
}

/// What a step brought is reported under the mailbox, the page and the message
/// that were asked for, and an error word for word.
pub proof fn steps_are_reported_under_their_request(
    mailbox: String,
    page: u32,
    uid: u32,
    names: Vec<String>,
    headers: Vec<MailHeader>,
    total_pages: u32,
    html: String,
    error: String,
)
    ensures
        reported(
            ImapStep::<()>::FetchPage { mailbox, page },
            StepOutcome::Page(Ok((headers, total_pages))),
        ) == (ImapEvent::Headers { mailbox, headers, page, total_pages }),
        reported(ImapStep::<()>::FetchMessage { mailbox, uid }, StepOutcome::Message(Ok(html))) == (
        ImapEvent::Body { uid, html }),
        reported(ImapStep::<()>::ListMailboxes, StepOutcome::Listed(Ok(names)))
            == ImapEvent::Mailboxes(names),
        reported(ImapStep::<()>::FetchPage { mailbox, page }, StepOutcome::Page(Err(error)))
            == ImapEvent::Error(error),
        reported(ImapStep::<()>::FetchMessage { mailbox, uid }, StepOutcome::Message(Err(error)))
            == ImapEvent::Error(error),
        reported(ImapStep::<()>::ListMailboxes, StepOutcome::Listed(Err(error)))
            == ImapEvent::Error(error),
{
}

/// The plain list line of an answer has the UID that the answer was given with,
/// and the fields of the fuller line.
pub proof fn plain_lines_keep_their_fields(h: MailHeader, full: crate::imap::MailHeader)
    requires
        is_plain_of(h, full),
    ensures
        h.uid == full.uid,
        h.subject@ == full.subject@,
        h.from@ == full.from@,
        h.to@ == full.to@,
        h.date@ == full.date@,
{
}

/// A page has a line for every answer, the newest message first.
pub proof fn plain_pages_run_from_newest_to_oldest(
    headers: Seq<MailHeader>,
    messages: Seq<Result<FetchedMessage, String>>,
    i: int,
)
    requires
        is_plain_page(headers, messages),
        0 <= i < messages.len(),
    ensures
        headers.len() == messages.len(),
        is_plain_line(headers[messages.len() - 1 - i], messages[i]),
        message_problem(messages[i]) is None,
{
}

/// HTML is shown as it is, before any text; text is shown escaped, between
/// `<pre>` and `</pre>`; without either there is an error.
pub proof fn html_is_shown_before_text(parts: Seq<PartView>)
    ensures
        first_body(parts, "text/html"@) matches Some(html) ==> shown_body(parts) == Ok::<
            Seq<char>,
            Seq<char>,
        >(html),
        first_body(parts, "text/html"@) is None ==> (first_body(parts, "text/plain"@) matches Some(
            text,
        ) ==> shown_body(parts) == Ok::<Seq<char>, Seq<char>>(
            "<pre>"@ + escaped(text) + "</pre>"@,
        )),
        first_body(parts, "text/html"@) is None && first_body(parts, "text/plain"@) is None
            ==> shown_body(parts) == Err::<Seq<char>, Seq<char>>("Message not found or no body"@),
{
}

/// A fetched message is shown by its parts; where the server had none or failed,
/// the reason is told, an error word for word.
pub proof fn fetched_messages_are_shown(raw: Vec<u8>, error: String)
    ensures
        parsed_mail(raw@) matches Ok(parts) ==> body_outcome(Some(Ok(Some(raw)))) == shown_body(
            parts,
        ),
        parsed_mail(raw@) matches Err(e) ==> body_outcome(Some(Ok(Some(raw)))) == Err::<
            Seq<char>,
            Seq<char>,
        >(e),
        body_outcome(Some(Err(error))) == Err::<Seq<char>, Seq<char>>(error@),
        body_outcome(Some(Ok(None))) == Err::<Seq<char>, Seq<char>>("No body"@),
        body_outcome(None) == Err::<Seq<char>, Seq<char>>("Message not found or no body"@),
{
}

/// The values of a row stand in the order of the columns that the insertion
/// names: mailbox, UID, subject, sender, recipient, date and body.
pub proof fn row_values_stand_in_their_columns(
    mailbox: Seq<char>,
    header: MailHeader,
    body: Seq<char>,
)
    ensures
        row_of(mailbox, header, body).len() == 7,
        row_of(mailbox, header, body)[0] == SqlView::Text(mailbox),
        row_of(mailbox, header, body)[1] == SqlView::Integer(header.uid as i64),
        row_of(mailbox, header, body)[2] == SqlView::Text(header.subject@),
        row_of(mailbox, header, body)[3] == SqlView::Text(header.from@),
        row_of(mailbox, header, body)[4] == SqlView::Text(header.to@),
        row_of(mailbox, header, body)[5] == SqlView::Text(header.date@),
        row_of(mailbox, header, body)[6] == SqlView::Text(body),
{
}

/// The settings file has the host, the port and the user name, one to a line, and
/// is read in that order.
pub proof fn settings_stand_one_to_a_line(host: Seq<char>, port: Seq<char>, username: Seq<char>)
    requires
        !host.contains('\n'),
        !port.contains('\n'),
        !username.contains('\n'),
        username.len() > 0,
    ensures
        settings_text(host, port, username) == host + seq!['\n'] + port + seq!['\n'] + username,
        settings_in(host + seq!['\n'] + port + seq!['\n'] + username) == Some(
            (trimmed(host), trimmed(port), trimmed(username)),
        ),
        settings_in(host + seq!['\n'] + username) is None,
{
    saved_settings_are_loaded(host, port, username);
    lemma_first_line(host, username);
    assert forall|i: int| 0 <= i < username.len() implies username[i] != '\n' by {
        assert(username.contains(username[i]));
    }
    lemma_index_of_is(username, '\n', username.len() as int);
    assert(lines(username) == seq![username]);
}

/// A page of the selected mailbox and the body of the open message are shown when
/// they come, as they came; an error is shown word for word.
pub proof fn what_is_awaited_is_shown(
    before: EsMailApp,
    event: ImapEvent,
    after: EsMailApp,
    effects: Seq<Effect>,
)
    requires
        imap_outcome(before, event, after, effects),
    ensures
        event matches ImapEvent::Headers { mailbox, headers, page, total_pages } ==> (mailbox@
            == before.selected_mailbox@ ==> after.headers == headers && after.current_page == page
            && after.total_pages == total_pages && after.status@ == "Page "@ + decimal(page as nat)
            + " of "@ + decimal(total_pages as nat)),
        event matches ImapEvent::Body { uid, html } ==> (before.selected_uid == Some(uid)
            ==> effects.len() == 1 && (effects[0] matches Effect::Show(h) && h@ == html@)),
        event matches ImapEvent::Mailboxes(names) ==> after.mailboxes == names,
        event matches ImapEvent::Error(e) ==> after.status@ == "Error: "@ + e@ && after.is_connected
            == before.is_connected,
{
}

/// Once connected, the settings of the form are saved, and the mailboxes and the
/// first page are asked for.
pub proof fn a_connection_is_remembered_and_used(
    before: EsMailApp,
    after: EsMailApp,
    effects: Seq<Effect>,
)
    requires
        imap_outcome(before, ImapEvent::Connected, after, effects),
    ensures
        after.is_connected,
        effects.len() == 3,
        effects[0] matches Effect::SaveSettings(c) && c@ == before.host@ + seq!['\n']
            + before.port@ + seq!['\n'] + before.username@,
        effects[1] == Effect::Imap(ImapCommand::<String>::FetchMailboxes),
        effects[2] matches Effect::Imap(ImapCommand::FetchHeaders { mailbox, page }) && mailbox@
            == before.selected_mailbox@ && page == 1,
{
}

} // verus!
