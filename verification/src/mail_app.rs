//! The mail window's state and its decisions: what each event from the
//! connections and each action of the user changes, and what is asked of the
//! connections, the message view and the keyring in turn. Drawing and sending
//! are the caller's affair.
use vstd::prelude::*;

use crate::compose::{is_blank, same_message, ComposeState};
use crate::config::{
    account_id, account_with, guessed_smtp_host, make_account_id, upserted,
    upserted_account_is_found, without_id, AccountConfig, Config, TlsMode,
};
use crate::db::{DbCommand, DbEvent, SyncPlan};
use crate::files::{format_size, size_text};
use crate::imap::{ImapCommand, ImapEvent, MailHeader, MailboxState};
use crate::notify::NEW_MAIL_POLL_MAILBOX;
use crate::render::Attachment;
use crate::servo_view::{
    InterceptOutcome, NavigationPolicy, WebResourceRequest, WebViewHandler,
};
use crate::smtp::{SmtpAccount, SmtpCommand, SmtpEvent};
use crate::text::{
    chars_of, decimal, decimal_text, has_prefix, index_of, lemma_index_of_is, parse_u16, parsed_u16,
    ports_are_read_in_decimal, same_text, starts_with, text_between,
};

verus! {

/// Everything the mail window shows and remembers.
pub struct EsMailApp {
    /// Show only the message view, with no account.
    pub preview: bool,
    /// Set once a push watch was started, so that connecting again does not
    /// start another.
    pub idle_watch_started: bool,
    /// Saved accounts, without passwords.
    pub config: Config,
    pub host: String,
    pub port: String,
    pub username: String,
    pub password: String,
    pub smtp_host: String,
    pub smtp_port: String,
    pub status: String,
    pub is_connected: bool,
    pub mailboxes: Vec<String>,
    pub selected_mailbox: String,
    pub headers: Vec<MailHeader>,
    pub selected_uid: Option<u32>,
    pub current_page: u32,
    pub total_pages: u32,
    /// Attachments of the open message, if it came straight from the server.
    pub current_attachments: Vec<Attachment>,
    /// The open message's HTML, kept so that a reply can quote it.
    pub current_message_html: String,
    /// The message being written, when the compose window is open.
    pub compose: Option<ComposeState>,
    pub compose_status: String,
    /// Source of request ids. Only the reply to the latest request of a kind is
    /// applied; an older one that arrives late is dropped.
    pub next_req_id: u64,
    pub current_headers_req: u64,
    pub current_body_req: u64,
    pub search_query: String,
    pub search_results: Option<Vec<MailHeader>>,
    pub download_progress: Option<(u32, u32)>,
    /// Whether the open message may load remote content.
    pub allow_remote: bool,
    /// Set by the tray's "Quit"; the next close request then closes the app.
    pub exit_requested: bool,
}

/// What the mail window asks for.
pub enum Effect {
    /// Send this to the IMAP connection.
    Imap(ImapCommand<String>),
    /// Send this to the cache.
    Db(DbCommand),
    /// Show this HTML in the message view.
    Show(String),
    /// Load the shown document again.
    Reload,
    /// Save a password in the keyring.
    SavePassword { account_id: String, service: &'static str, password: String },
    /// Delete a password from the keyring.
    ForgetPassword { account_id: String, service: &'static str },
    /// Write the accounts to disk.
    SaveConfig,
    /// Start the push watch on a mailbox.
    StartIdleWatch {
        host: String,
        port: u16,
        username: String,
        password: String,
        mailbox: &'static str,
    },
}

/// The port that a login field names, or a default where it names none.
pub open spec fn port_or(text: Seq<char>, default: u16) -> u16 {
    match parsed_u16(text) {
        Some(p) => p,
        None => default,
    }
}

fn read_port(text: &String, default: u16) -> (r: u16)
    ensures
        r == port_or(text@, default),
{
    match parse_u16(text.as_str()) {
        Some(p) => p,
        None => default,
    }
}

/// The identity of the account in the login form.
pub open spec fn form_account_id(app: EsMailApp) -> Seq<char> {
    account_id(app.username@, app.host@)
}

/// The sending host in the login form, or the guess where the form names none.
pub open spec fn form_smtp_host(app: EsMailApp) -> Seq<char> {
    if app.smtp_host@.len() == 0 {
        guessed_smtp_host(app.host@)
    } else {
        app.smtp_host@
    }
}

/// Whether `a` is the account that the login form describes: implicit TLS both
/// ways, port 993 for reading and 465 for sending where the form names none,
/// and a guessed sending host where it names none.
pub open spec fn is_form_account(a: AccountConfig, app: EsMailApp) -> bool {
    &&& a.id@ == form_account_id(app)
    &&& a.display_name@ == app.username@
    &&& a.imap_host@ == app.host@
    &&& a.imap_port == port_or(app.port@, 993)
    &&& a.imap_tls == TlsMode::Ssl
    &&& a.smtp_host@ == form_smtp_host(app)
    &&& a.smtp_port == port_or(app.smtp_port@, 465)
    &&& a.smtp_tls == TlsMode::Ssl
    &&& a.username@ == app.username@
}

/// `"Page {page} of {total}"`.
pub open spec fn page_text(page: u32, total: u32) -> Seq<char> {
    "Page "@ + decimal(page as nat) + " of "@ + decimal(total as nat)
}

/// `"Page {page} of {total}"`.
pub fn page_label(page: u32, total: u32) -> (r: String)
    ensures
        r@ == page_text(page, total),
{
    let mut s = "Page ".to_owned();
    s.append(decimal_text(page as u64).as_str());
    s.append(" of ");
    s.append(decimal_text(total as u64).as_str());
    s
}

fn prefixed(prefix: &str, text: &String) -> (r: String)
    ensures
        r@ == prefix@ + text@,
{
    let mut s = prefix.to_owned();
    s.append(text.as_str());
    s
}

/// Whether `e` asks for a page of a mailbox under this request id.
pub open spec fn asks_headers(e: Effect, mailbox: Seq<char>, page: u32, req_id: u64) -> bool {
    e matches Effect::Imap(ImapCommand::FetchHeaders { mailbox: m, page: p, req_id: r }) && m@
        == mailbox && p == page && r == req_id
}

/// Whether `e` asks for a message body under this request id.
pub open spec fn asks_body(e: Effect, mailbox: Seq<char>, uid: u32, req_id: u64) -> bool {
    e matches Effect::Imap(ImapCommand::FetchBody { mailbox: m, uid: u, req_id: r }) && m@
        == mailbox && u == uid && r == req_id
}

/// Whether `e` shows this HTML.
pub open spec fn shows(e: Effect, html: Seq<char>) -> bool {
    e matches Effect::Show(h) && h@ == html
}

/// Whether `e` saves a password of the form's account.
pub open spec fn saves_password(e: Effect, app: EsMailApp, service: Seq<char>) -> bool {
    e matches Effect::SavePassword { account_id, service: s, password } && account_id@
        == form_account_id(app) && s@ == service && password@ == app.password@
}

/// `before` with a fresh request for a page of a mailbox.
pub open spec fn with_headers_request(before: EsMailApp) -> EsMailApp {
    EsMailApp {
        next_req_id: (before.next_req_id + 1) as u64,
        current_headers_req: (before.next_req_id + 1) as u64,
        ..before
    }
}

/// `before` with a fresh request for a message body.
pub open spec fn with_body_request(before: EsMailApp) -> EsMailApp {
    EsMailApp {
        next_req_id: (before.next_req_id + 1) as u64,
        current_body_req: (before.next_req_id + 1) as u64,
        ..before
    }
}

/// What a successful connection changes and asks for: the account is saved,
/// and the mailboxes and the first page are fetched.
pub open spec fn connected_outcome(
    before: EsMailApp,
    after: EsMailApp,
    effects: Seq<Effect>,
) -> bool {
    &&& after == EsMailApp {
        status: after.status,
        is_connected: true,
        config: after.config,
        ..with_headers_request(before)
    }
    &&& after.status@ == "Connected!"@
    &&& exists|a: AccountConfig|
        is_form_account(a, before) && #[trigger] upserted(before.config.accounts@, a)
            == after.config.accounts@
    &&& effects.len() == 5
    &&& saves_password(effects[0], before, "imap"@)
    &&& saves_password(effects[1], before, "smtp"@)
    &&& effects[2] == Effect::SaveConfig
    &&& effects[3] == Effect::Imap(ImapCommand::FetchMailboxes)
    &&& asks_headers(effects[4], before.selected_mailbox@, 1, after.next_req_id)
}

/// Whether a page of headers is the one that is waited for.
pub open spec fn is_awaited_page(app: EsMailApp, mailbox: Seq<char>, req_id: u64) -> bool {
    req_id == app.current_headers_req && mailbox == app.selected_mailbox@
}

/// Whether a body is the one that is waited for.
pub open spec fn is_awaited_body(app: EsMailApp, uid: u32, req_id: u64) -> bool {
    req_id == app.current_body_req && app.selected_uid == Some(uid) && app.search_results is None
}

/// What an event of the IMAP connection changes and asks for.
pub open spec fn imap_outcome(
    before: EsMailApp,
    event: ImapEvent,
    after: EsMailApp,
    effects: Seq<Effect>,
) -> bool {
    match event {
        ImapEvent::Connected => connected_outcome(before, after, effects),
        ImapEvent::Disconnected => {
            &&& after == EsMailApp { status: after.status, ..before }
            &&& after.status@ == "Connection lost, reconnecting..."@
            &&& effects.len() == 0
        },
        ImapEvent::Error(e) => {
            &&& after == EsMailApp { status: after.status, ..before }
            &&& after.status@ == "Error: "@ + e@
            &&& effects.len() == 0
        },
        ImapEvent::Mailboxes(names) => {
            &&& after == EsMailApp { mailboxes: names, ..before }
            &&& effects.len() == 0
        },
        ImapEvent::Headers { mailbox, headers, page, total_pages, req_id, mailbox_state } => {
            &&& if is_awaited_page(before, mailbox@, req_id) {
                &&& after == EsMailApp {
                    headers,
                    current_page: page,
                    total_pages,
                    status: after.status,
                    ..before
                }
                &&& after.status@ == page_text(page, total_pages)
            } else {
                after == before
            }
            &&& effects.len() == 1
            &&& effects[0] matches Effect::Db(
                DbCommand::ReportMailboxState { account_id, mailbox: m, uid_validity, uid_next },
            ) && account_id@ == form_account_id(before) && m == mailbox && uid_validity
                == mailbox_state.uid_validity && uid_next == mailbox_state.uid_next
        },
        ImapEvent::Body { uid, html, attachments, req_id } => if is_awaited_body(
            before,
            uid,
            req_id,
        ) {
            &&& after == EsMailApp {
                current_message_html: after.current_message_html,
                current_attachments: attachments,
                ..before
            }
            &&& after.current_message_html@ == html@
            &&& effects.len() == 1
            &&& shows(effects[0], html@)
        } else {
            after == before && effects.len() == 0
        },
        ImapEvent::DownloadProgress { current, total } => {
            &&& effects.len() == 0
            &&& if current == total {
                &&& after == EsMailApp {
                    download_progress: None,
                    status: after.status,
                    ..before
                }
                &&& after.status@ == "Download complete"@
            } else {
                after == EsMailApp { download_progress: Some((current, total)), ..before }
            }
        },
        ImapEvent::MailData { mailbox, header, body } => {
            &&& after == before
            &&& effects.len() == 1
            &&& effects[0] matches Effect::Db(
                DbCommand::IndexMail { account_id, mailbox: m, header: h, body: b },
            ) && account_id@ == form_account_id(before) && m == mailbox && h == header && b == body
        },
        ImapEvent::HeadersFrom { mailbox, headers } => {
            &&& after == before
            &&& effects.len() == 1
            &&& effects[0] matches Effect::Db(
                DbCommand::IndexHeaders { account_id, mailbox: m, headers: h },
            ) && account_id@ == form_account_id(before) && m == mailbox && h == headers
        },
        ImapEvent::MailboxPolled { .. } => after == before && effects.len() == 0,
        ImapEvent::NewHeaders { .. } => after == before && effects.len() == 0,
        ImapEvent::PollFailed(_) => after == before && effects.len() == 0,
    }
}

/// Whether `e` asks for the envelopes of a mailbox from a UID on.
pub open spec fn asks_headers_from(e: Effect, mailbox: String, first_uid: u32) -> bool {
    e == Effect::Imap(ImapCommand::FetchHeadersFrom { mailbox, first_uid })
}

/// What an event of the cache changes and asks for.
pub open spec fn db_outcome(
    before: EsMailApp,
    event: DbEvent,
    after: EsMailApp,
    effects: Seq<Effect>,
) -> bool {
    match event {
        DbEvent::SearchResult { headers } => {
            &&& after == EsMailApp { search_results: Some(headers), ..before }
            &&& effects.len() == 0
        },
        DbEvent::MailFetched { header, body } => if before.selected_uid == Some(header.uid) {
            &&& after == EsMailApp {
                current_message_html: after.current_message_html,
                ..before
            }
            &&& after.current_message_html@ == body@
            &&& effects.len() == 1
            &&& shows(effects[0], body@)
        } else {
            after == before && effects.len() == 0
        },
        DbEvent::SyncPlan { account_id, mailbox, plan } => {
            &&& after == before
            &&& match plan {
                SyncPlan::UpToDate => effects.len() == 0,
                SyncPlan::FetchFrom { first_new_uid } => effects.len() == 1 && asks_headers_from(
                    effects[0],
                    mailbox,
                    first_new_uid,
                ),
                SyncPlan::Resync => effects.len() == 1 && asks_headers_from(
                    effects[0],
                    mailbox,
                    1,
                ),
            }
        },
        DbEvent::Error(e) => {
            &&& after == EsMailApp { status: after.status, ..before }
            &&& after.status@ == "DB Error: "@ + e@
            &&& effects.len() == 0
        },
    }
}

/// What the outcome of a send changes: a message that was sent closes the
/// compose window, one that was not leaves it open.
pub open spec fn smtp_outcome(before: EsMailApp, event: SmtpEvent, after: EsMailApp) -> bool {
    match event {
        SmtpEvent::Sent => {
            &&& after == EsMailApp {
                compose: None,
                compose_status: after.compose_status,
                status: after.status,
                ..before
            }
            &&& after.compose_status@ == Seq::<char>::empty()
            &&& after.status@ == "Message sent"@
        },
        SmtpEvent::Error(e) => {
            &&& after == EsMailApp { compose_status: after.compose_status, ..before }
            &&& after.compose_status@ == "Send failed: "@ + e@
        },
    }
}

/// What opening a message changes: it is the selected one, its attachments are
/// not known yet, and remote content is blocked.
pub open spec fn is_opened(before: EsMailApp, uid: u32, after: EsMailApp) -> bool {
    let opened = EsMailApp {
        selected_uid: Some(uid),
        allow_remote: false,
        current_attachments: after.current_attachments,
        ..before
    };
    &&& after == if before.search_results is Some {
        opened
    } else {
        with_body_request(opened)
    }
    &&& after.current_attachments@.len() == 0
}

impl EsMailApp {
    /// The ids that are waited for were handed out.
    pub open spec fn wf(self) -> bool {
        self.current_headers_req <= self.next_req_id && self.current_body_req <= self.next_req_id
    }

    /// Identifies the connected account to the cache, in the same
    /// `username@host` shape that a saved account's id has.
    pub fn account_id(&self) -> (r: String)
        ensures
            r@ == form_account_id(*self),
    {
        make_account_id(self.username.as_str(), self.host.as_str())
    }

    /// A fresh request id, distinct from every one handed out before.
    pub fn next_req_id(&mut self) -> (r: u64)
        requires
            old(self).next_req_id < u64::MAX,
        ensures
            r == old(self).next_req_id + 1,
            *final(self) == (EsMailApp { next_req_id: r, ..*old(self) }),
    {
        self.next_req_id = self.next_req_id + 1;
        self.next_req_id
    }

    /// Ask for a page of a mailbox, recording the request id as the only one
    /// whose reply will still be applied.
    pub fn fetch_headers(&mut self, mailbox: String, page: u32) -> (e: Effect)
        requires
            old(self).next_req_id < u64::MAX,
        ensures
            *final(self) == with_headers_request(*old(self)),
            e == Effect::Imap(
                ImapCommand::FetchHeaders { mailbox, page, req_id: final(self).next_req_id },
            ),
    {
        let req_id: u64 = self.next_req_id();
        self.current_headers_req = req_id;
        Effect::Imap(ImapCommand::FetchHeaders { mailbox, page, req_id })
    }

    /// Ask for a message body, recording the request id the same way.
    pub fn fetch_body(&mut self, mailbox: String, uid: u32) -> (e: Effect)
        requires
            old(self).next_req_id < u64::MAX,
        ensures
            *final(self) == with_body_request(*old(self)),
            e == Effect::Imap(
                ImapCommand::FetchBody { mailbox, uid, req_id: final(self).next_req_id },
            ),
    {
        let req_id: u64 = self.next_req_id();
        self.current_body_req = req_id;
        Effect::Imap(ImapCommand::FetchBody { mailbox, uid, req_id })
    }

    /// Persist the account in the login form: put it among the saved accounts
    /// and its password in the keyring, for reading and for sending. Called
    /// once a connection actually succeeds.
    pub fn persist_current_account(&mut self) -> (effects: Vec<Effect>)
        ensures
            *final(self) == (EsMailApp { config: final(self).config, ..*old(self) }),
            exists|a: AccountConfig|
                is_form_account(a, *old(self)) && #[trigger] upserted(
                    old(self).config.accounts@,
                    a,
                ) == final(self).config.accounts@,
            effects@.len() == 3,
            saves_password(effects@[0], *old(self), "imap"@),
            saves_password(effects@[1], *old(self), "smtp"@),
            effects@[2] == Effect::SaveConfig,
    {
        let mut account = AccountConfig::new(
            self.username.clone(),
            self.host.clone(),
            read_port(&self.port, 993),
            self.username.clone(),
        );
        if !self.smtp_host.as_str().is_empty() {
            account.smtp_host = self.smtp_host.clone();
        }
        match parse_u16(self.smtp_port.as_str()) {
            Some(port) => {
                account.smtp_port = port;
            },
            None => {},
        }
        let mut effects: Vec<Effect> = Vec::new();
        effects.push(
            Effect::SavePassword {
                account_id: account.id.clone(),
                service: "imap",
                password: self.password.clone(),
            },
        );
        effects.push(
            Effect::SavePassword {
                account_id: account.id.clone(),
                service: "smtp",
                password: self.password.clone(),
            },
        );
        let ghost saved = account;
        assert(is_form_account(saved, *old(self)));
        self.config.upsert_account(account);
        assert(upserted(old(self).config.accounts@, saved) == self.config.accounts@);
        effects.push(Effect::SaveConfig);
        effects
    }

    /// Take one event of the IMAP connection.
    pub fn handle_imap_event(&mut self, event: ImapEvent) -> (effects: Vec<Effect>)
        requires
            event is Connected ==> old(self).next_req_id < u64::MAX,
        ensures
            imap_outcome(*old(self), event, *final(self), effects@),
    {
        match event {
            ImapEvent::Connected => {
                self.status = "Connected!".to_owned();
                self.is_connected = true;
                let ghost ready = *self;
                let mut effects = self.persist_current_account();
                assert(exists|a: AccountConfig|
                    is_form_account(a, *old(self)) && #[trigger] upserted(
                        old(self).config.accounts@,
                        a,
                    ) == self.config.accounts@) by {
                    let a = choose|a: AccountConfig|
                        is_form_account(a, ready) && #[trigger] upserted(
                            ready.config.accounts@,
                            a,
                        ) == self.config.accounts@;
                    assert(is_form_account(a, *old(self)));
                    assert(upserted(old(self).config.accounts@, a) == self.config.accounts@);
                }
                effects.push(Effect::Imap(ImapCommand::FetchMailboxes));
                let mailbox = self.selected_mailbox.clone();
                let fetch = self.fetch_headers(mailbox, 1);
                effects.push(fetch);
                effects
            },
            ImapEvent::Disconnected => {
                self.status = "Connection lost, reconnecting...".to_owned();
                Vec::new()
            },
            ImapEvent::Error(e) => {
                self.status = prefixed("Error: ", &e);
                Vec::new()
            },
            ImapEvent::Mailboxes(names) => {
                self.mailboxes = names;
                Vec::new()
            },
            ImapEvent::Headers { mailbox, headers, page, total_pages, req_id, mailbox_state } => {
                if req_id == self.current_headers_req && same_text(
                    mailbox.as_str(),
                    self.selected_mailbox.as_str(),
                ) {
                    self.headers = headers;
                    self.current_page = page;
                    self.total_pages = total_pages;
                    self.status = page_label(page, total_pages);
                }
                let mut effects: Vec<Effect> = Vec::new();
                effects.push(
                    Effect::Db(
                        DbCommand::ReportMailboxState {
                            account_id: self.account_id(),
                            mailbox,
                            uid_validity: mailbox_state.uid_validity,
                            uid_next: mailbox_state.uid_next,
                        },
                    ),
                );
                effects
            },
            ImapEvent::Body { uid, html, attachments, req_id } => {
                let mut effects: Vec<Effect> = Vec::new();
                let wanted = match self.selected_uid {
                    Some(selected) => selected == uid,
                    None => false,
                };
                if req_id == self.current_body_req && wanted && self.search_results.is_none() {
                    self.current_message_html = html.clone();
                    self.current_attachments = attachments;
                    effects.push(Effect::Show(html));
                }
                effects
            },
            ImapEvent::DownloadProgress { current, total } => {
                self.download_progress = Some((current, total));
                if current == total {
                    self.download_progress = None;
                    self.status = "Download complete".to_owned();
                }
                Vec::new()
            },
            ImapEvent::MailData { mailbox, header, body } => {
                let mut effects: Vec<Effect> = Vec::new();
                effects.push(
                    Effect::Db(
                        DbCommand::IndexMail {
                            account_id: self.account_id(),
                            mailbox,
                            header,
                            body,
                        },
                    ),
                );
                effects
            },
            ImapEvent::HeadersFrom { mailbox, headers } => {
                let mut effects: Vec<Effect> = Vec::new();
                effects.push(
                    Effect::Db(
                        DbCommand::IndexHeaders {
                            account_id: self.account_id(),
                            mailbox,
                            headers,
                        },
                    ),
                );
                effects
            },
            ImapEvent::MailboxPolled { .. } => Vec::new(),
            ImapEvent::NewHeaders { .. } => Vec::new(),
            ImapEvent::PollFailed(_) => Vec::new(),
        }
    }

    /// Take one event of the cache.
    pub fn handle_db_event(&mut self, event: DbEvent) -> (effects: Vec<Effect>)
        ensures
            db_outcome(*old(self), event, *final(self), effects@),
    {
        let mut effects: Vec<Effect> = Vec::new();
        match event {
            DbEvent::SearchResult { headers } => {
                self.search_results = Some(headers);
            },
            DbEvent::MailFetched { header, body } => {
                let wanted = match self.selected_uid {
                    Some(selected) => selected == header.uid,
                    None => false,
                };
                if wanted {
                    self.current_message_html = body.clone();
                    effects.push(Effect::Show(body));
                }
            },
            DbEvent::SyncPlan { account_id: _, mailbox, plan } => match plan {
                SyncPlan::UpToDate => {},
                SyncPlan::FetchFrom { first_new_uid } => {
                    effects.push(
                        Effect::Imap(
                            ImapCommand::FetchHeadersFrom { mailbox, first_uid: first_new_uid },
                        ),
                    );
                },
                SyncPlan::Resync => {
                    effects.push(
                        Effect::Imap(ImapCommand::FetchHeadersFrom { mailbox, first_uid: 1 }),
                    );
                },
            },
            DbEvent::Error(e) => {
                self.status = prefixed("DB Error: ", &e);
            },
        }
        effects
    }

    /// Take one event of the sending side: the compose window closes on
    /// success; a failure leaves it open with the typed text intact.
    pub fn handle_smtp_event(&mut self, event: SmtpEvent)
        ensures
            smtp_outcome(*old(self), event, *final(self)),
    {
        match event {
            SmtpEvent::Sent => {
                self.compose = None;
                self.compose_status = String::new();
                self.status = "Message sent".to_owned();
            },
            SmtpEvent::Error(e) => {
                self.compose_status = prefixed("Send failed: ", &e);
            },
        }
    }
}

/// The policy for the view that shows message bodies. It never navigates away
/// from the message: a clicked link is reported and opened elsewhere. Remote
/// resources are blocked unless the user let this message load them.
#[derive(Debug, Clone, Copy, PartialEq, Eq, Structural)]
pub struct MessageViewHandler {
    pub allow_remote: bool,
}

/// The scheme of a serialized URL: what stands before its first colon.
pub open spec fn scheme(url: Seq<char>) -> Seq<char> {
    url.take(index_of(url, ':'))
}

/// Whether a URL leads to the network.
pub open spec fn is_remote(url: Seq<char>) -> bool {
    scheme(url) == "http"@ || scheme(url) == "https"@
}

/// What is done with a resource of the open message.
pub open spec fn message_policy(allow_remote: bool, url: Seq<char>) -> InterceptOutcome {
    if !allow_remote && is_remote(url) {
        InterceptOutcome::Block
    } else {
        InterceptOutcome::Allow
    }
}

/// Whether a URL leads to the network: its scheme is `http` or `https`.
pub fn is_remote_url(url: &str) -> (r: bool)
    ensures
        r == is_remote(url@),
{
    let v = chars_of(url);
    let n: usize = v.len();
    let mut at: usize = 0;
    while at < n && v[at] != ':'
        invariant
            at <= n == v.len(),
            forall|i: int| 0 <= i < at ==> v@[i] != ':',
        decreases n - at,
    {
        at = at + 1;
    }
    proof {
        lemma_index_of_is(v@, ':', at as int);
    }
    let s = text_between(&v, 0, at);
    assert(s@ == v@.take(at as int));
    same_text(s.as_str(), "http") || same_text(s.as_str(), "https")
}

impl WebViewHandler for MessageViewHandler {
    fn navigation(&mut self, url: &str) -> (r: NavigationPolicy)
        ensures
            r == NavigationPolicy::Deny,
            *final(self) == *old(self),
    {
        NavigationPolicy::Deny
    }

    fn intercept(&mut self, request: &WebResourceRequest) -> (r: InterceptOutcome)
        ensures
            r == message_policy(old(self).allow_remote, request.url@),
            *final(self) == *old(self),
    {
        if self.allow_remote {
            return InterceptOutcome::Allow;
        }
        if is_remote_url(request.url.as_str()) {
            InterceptOutcome::Block
        } else {
            InterceptOutcome::Allow
        }
    }
}

/// The login form that an account fills: its hosts, ports and user name.
pub open spec fn form_holds(app: EsMailApp, account: AccountConfig) -> bool {
    &&& app.host@ == account.imap_host@
    &&& app.port@ == decimal(account.imap_port as nat)
    &&& app.username@ == account.username@
    &&& app.smtp_host@ == account.smtp_host@
    &&& app.smtp_port@ == decimal(account.smtp_port as nat)
}

/// The login form without a saved account.
pub open spec fn form_is_default(app: EsMailApp) -> bool {
    &&& app.host@ == "imap.gmail.com"@
    &&& app.port@ == "993"@
    &&& app.username@ == Seq::<char>::empty()
    &&& app.password@ == Seq::<char>::empty()
    &&& app.smtp_host@ == "smtp.gmail.com"@
    &&& app.smtp_port@ == "465"@
}

/// A saved password, or none.
pub open spec fn text_or_empty(t: Option<String>) -> Seq<char> {
    match t {
        Some(s) => s@,
        None => Seq::empty(),
    }
}

fn or_empty(t: Option<String>) -> (r: String)
    ensures
        r@ == text_or_empty(t),
{
    match t {
        Some(s) => s,
        None => String::new(),
    }
}

/// A window that shows nothing yet: not connected, the inbox selected, page one
/// of one, no request made, remote content blocked.
pub open spec fn is_fresh(app: EsMailApp) -> bool {
    &&& !app.idle_watch_started
    &&& app.status@ == "Ready"@
    &&& !app.is_connected
    &&& app.mailboxes@.len() == 0
    &&& app.selected_mailbox@ == "INBOX"@
    &&& app.headers@.len() == 0
    &&& app.selected_uid is None
    &&& app.current_page == 1
    &&& app.total_pages == 1
    &&& app.current_attachments@.len() == 0
    &&& app.current_message_html@ == Seq::<char>::empty()
    &&& app.compose is None
    &&& app.compose_status@ == Seq::<char>::empty()
    &&& app.next_req_id == 0
    &&& app.current_headers_req == 0
    &&& app.current_body_req == 0
    &&& app.search_query@ == Seq::<char>::empty()
    &&& app.search_results is None
    &&& app.download_progress is None
    &&& !app.allow_remote
    &&& !app.exit_requested
}

/// What a preview run shows.
#[derive(Debug)]
pub enum PreviewSource {
    /// This HTML.
    Html(String),
    /// The page at this URL.
    Url(String),
    /// The HTML in this file.
    File(String),
}

/// What is shown before the user connects.
pub const WELCOME_HTML: &'static str =
    "<h1>Welcome to esMail</h1><p>Connect to your IMAP account to start reading.</p>";

/// A page that exercises the parts of the message view that matter for mail:
/// text flow, tables, links, forms, and scrolling past the fold.
pub const DEMO_HTML: &'static str = r#"<!doctype html>
<meta charset="utf-8">
<style>
  body { font: 16px/1.5 system-ui, sans-serif; margin: 2rem; color: #111; }
  table { border-collapse: collapse; } td, th { border: 1px solid #999; padding: .3rem .6rem; }
  .tall { height: 60vh; background: linear-gradient(#eee, #fff); }
</style>
<h1>esMail webview preview</h1>
<p>Accented text to check character encoding: <b>&eacute;&agrave;&uuml;&ccedil;</b> &euro; &mdash; &ldquo;quoted&rdquo;.</p>
<p><a href="https://example.com/clicked">A link</a> &mdash; clicking it should emit LinkClicked and not navigate.</p>
<table><tr><th>From</th><th>Subject</th></tr><tr><td>a@b.c</td><td>Hello</td></tr></table>
<p>Type here to check keyboard input: <input type="text" size="30" placeholder="type me"></p>
<div class="tall">Scroll down past this block to check scrolling.</div>
<h2 id="bottom">Bottom of the page</h2>
"#;

/// The built-in demonstration page.
pub fn preview_demo_html() -> (r: String)
    ensures
        r@ == DEMO_HTML@,
{
    DEMO_HTML.to_owned()
}

/// What is shown at the start: a greeting without a preview request; else the
/// demonstration page for `demo`, the page of a URL, or the HTML of a file.
pub fn preview_source(preview: Option<&str>) -> (r: PreviewSource)
    ensures
        match preview {
            None => r matches PreviewSource::Html(h) && h@ == WELCOME_HTML@,
            Some(target) => if target@ == "demo"@ {
                r matches PreviewSource::Html(h) && h@ == DEMO_HTML@
            } else if has_prefix(target@, "http"@) {
                r matches PreviewSource::Url(u) && u@ == target@
            } else {
                r matches PreviewSource::File(p) && p@ == target@
            },
        },
{
    match preview {
        None => PreviewSource::Html(WELCOME_HTML.to_owned()),
        Some(target) => {
            if same_text(target, "demo") {
                PreviewSource::Html(preview_demo_html())
            } else if starts_with(target, "http") {
                PreviewSource::Url(target.to_owned())
            } else {
                PreviewSource::File(target.to_owned())
            }
        },
    }
}

/// What is shown for a preview file: its HTML, or a notice that it could not
/// be read.
pub fn preview_file_html(path: &str, content: Result<String, String>) -> (r: String)
    ensures
        r@ == match content {
            Ok(html) => html@,
            Err(e) => "<h1>could not read "@ + path@ + "</h1><p>"@ + e@ + "</p>"@,
        },
{
    match content {
        Ok(html) => html,
        Err(e) => {
            let mut s = "<h1>could not read ".to_owned();
            s.append(path);
            s.append("</h1><p>");
            s.append(e.as_str());
            s.append("</p>");
            s
        },
    }
}

/// What the tray's menu asks for.
#[derive(Debug, Clone, Copy, PartialEq, Eq, Structural)]
pub enum TrayAction {
    Show,
    Quit,
}

/// What is done to the window.
#[derive(Debug, Clone, Copy, PartialEq, Eq, Structural)]
pub enum WindowCommand {
    Show,
    Hide,
    Focus,
    Close,
    CancelClose,
}

/// The place of the first line with this UID, or the number of lines when there
/// is none.
pub open spec fn line_of(headers: Seq<MailHeader>, uid: u32) -> int
    decreases headers.len(),
{
    if headers.len() == 0 || headers[0].uid == uid {
        0
    } else {
        1 + line_of(headers.skip(1), uid)
    }
}

/// Whether `command` sends the message being written, from the account in the
/// login form; nothing is sent without a saved password.
pub open spec fn is_send<P>(
    app: EsMailApp,
    saved_password: Option<P>,
    command: Option<SmtpCommand<P>>,
) -> bool {
    match saved_password {
        None => command is None,
        Some(p) => {
            &&& command matches Some(SmtpCommand::Send { account, compose })
            &&& account.host@ == app.smtp_host@
            &&& account.port == port_or(app.smtp_port@, 465)
            &&& account.tls == TlsMode::Ssl
            &&& account.username@ == app.username@
            &&& account.password == p
            &&& account.from_address@ == app.username@
            &&& same_message(compose, app.compose->0)
        },
    }
}

/// What the compose window says of a send.
pub open spec fn send_status(has_password: bool) -> Seq<char> {
    if has_password {
        "Sending\u{2026}"@
    } else {
        "No SMTP password on file yet \u{2014} connect once via IMAP first."@
    }
}

impl EsMailApp {
    /// A fresh window. The login form is filled from the first saved account,
    /// if there is one, with the password that the keyring has for it.
    pub fn new(config: Config, saved_password: Option<String>, preview: bool) -> (r: Self)
        ensures
            is_fresh(r),
            r.preview == preview,
            r.config == config,
            config.accounts@.len() > 0 ==> form_holds(r, config.accounts@[0]) && r.password@
                == text_or_empty(saved_password),
            config.accounts@.len() == 0 ==> form_is_default(r),
    {
        let mut app = EsMailApp {
            preview,
            idle_watch_started: false,
            config: Config { accounts: Vec::new() },
            host: "imap.gmail.com".to_owned(),
            port: "993".to_owned(),
            username: String::new(),
            password: String::new(),
            smtp_host: "smtp.gmail.com".to_owned(),
            smtp_port: "465".to_owned(),
            status: "Ready".to_owned(),
            is_connected: false,
            mailboxes: Vec::new(),
            selected_mailbox: "INBOX".to_owned(),
            headers: Vec::new(),
            selected_uid: None,
            current_page: 1,
            total_pages: 1,
            current_attachments: Vec::new(),
            current_message_html: String::new(),
            compose: None,
            compose_status: String::new(),
            next_req_id: 0,
            current_headers_req: 0,
            current_body_req: 0,
            search_query: String::new(),
            search_results: None,
            download_progress: None,
            allow_remote: false,
            exit_requested: false,
        };
        if config.accounts.len() > 0 {
            app.select_account(&config.accounts[0], saved_password);
        }
        app.config = config;
        app
    }

    /// Fill the login form from a saved account, with the password that the
    /// keyring has for it.
    pub fn select_account(&mut self, account: &AccountConfig, saved_password: Option<String>)
        ensures
            *final(self) == (EsMailApp {
                host: final(self).host,
                port: final(self).port,
                username: final(self).username,
                password: final(self).password,
                smtp_host: final(self).smtp_host,
                smtp_port: final(self).smtp_port,
                ..*old(self)
            }),
            form_holds(*final(self), *account),
            final(self).password@ == text_or_empty(saved_password),
    {
        self.host = account.imap_host.clone();
        self.port = decimal_text(account.imap_port as u64);
        self.username = account.username.clone();
        self.smtp_host = account.smtp_host.clone();
        self.smtp_port = decimal_text(account.smtp_port as u64);
        self.password = or_empty(saved_password);
    }

    /// Forget a saved account and its password.
    pub fn forget_account(&mut self, id: String) -> (effects: Vec<Effect>)
        ensures
            *final(self) == (EsMailApp { config: final(self).config, ..*old(self) }),
            final(self).config.accounts@ == without_id(old(self).config.accounts@, id@),
            effects@ == seq![
                Effect::ForgetPassword { account_id: id, service: "imap" },
                Effect::SaveConfig,
            ],
    {
        self.config.remove_account(id.as_str());
        let mut effects: Vec<Effect> = Vec::new();
        effects.push(Effect::ForgetPassword { account_id: id, service: "imap" });
        effects.push(Effect::SaveConfig);
        assert(effects@ == seq![
            Effect::ForgetPassword { account_id: id, service: "imap" },
            Effect::SaveConfig,
        ]);
        effects
    }

    /// Connect with what the login form holds. The push watch is started along
    /// with the first connection only.
    pub fn connect(&mut self) -> (effects: Vec<Effect>)
        ensures
            *final(self) == (EsMailApp {
                status: final(self).status,
                idle_watch_started: true,
                ..*old(self)
            }),
            final(self).status@ == "Connecting..."@,
            effects@.len() == if old(self).idle_watch_started {
                1int
            } else {
                2int
            },
            effects@[0] matches Effect::Imap(
                ImapCommand::Connect { host, port, username, password },
            ) && host@ == old(self).host@ && port == port_or(old(self).port@, 993) && username@
                == old(self).username@ && password@ == old(self).password@,
            !old(self).idle_watch_started ==> {
                effects@[1] matches Effect::StartIdleWatch {
                    host,
                    port,
                    username,
                    password,
                    mailbox,
                } && host@ == old(self).host@ && port == port_or(old(self).port@, 993) && username@
                    == old(self).username@ && password@ == old(self).password@ && mailbox@
                    == NEW_MAIL_POLL_MAILBOX@
            },
    {
        self.status = "Connecting...".to_owned();
        let port: u16 = read_port(&self.port, 993);
        let mut effects: Vec<Effect> = Vec::new();
        effects.push(
            Effect::Imap(
                ImapCommand::Connect {
                    host: self.host.clone(),
                    port,
                    username: self.username.clone(),
                    password: self.password.clone(),
                },
            ),
        );
        if !self.idle_watch_started {
            self.idle_watch_started = true;
            effects.push(
                Effect::StartIdleWatch {
                    host: self.host.clone(),
                    port,
                    username: self.username.clone(),
                    password: self.password.clone(),
                    mailbox: NEW_MAIL_POLL_MAILBOX,
                },
            );
        }
        effects
    }

    /// Go back to the login form.
    pub fn logout(&mut self) -> (e: Effect)
        ensures
            *final(self) == (EsMailApp {
                is_connected: false,
                headers: final(self).headers,
                selected_uid: None,
                status: final(self).status,
                ..*old(self)
            }),
            final(self).headers@.len() == 0,
            final(self).status@ == "Logged out"@,
            shows(e, "<h1>Logged out</h1>"@),
    {
        self.is_connected = false;
        self.headers = Vec::new();
        self.selected_uid = None;
        self.status = "Logged out".to_owned();
        Effect::Show("<h1>Logged out</h1>".to_owned())
    }

    /// Download the selected mailbox whole.
    pub fn download_all(&self) -> (e: Effect)
        ensures
            e matches Effect::Imap(ImapCommand::BulkDownload { mailbox }) && mailbox@
                == self.selected_mailbox@,
    {
        Effect::Imap(ImapCommand::BulkDownload { mailbox: self.selected_mailbox.clone() })
    }

    /// The search field changed; `fts_query` is the full-text query that its
    /// text stands for, if it stands for one. Without one the results go away.
    pub fn search(&mut self, fts_query: Option<String>) -> (e: Option<Effect>)
        ensures
            match fts_query {
                Some(q) => {
                    &&& *final(self) == *old(self)
                    &&& e matches Some(Effect::Db(DbCommand::Search { account_id, query, mailbox }))
                    &&& account_id@ == form_account_id(*old(self))
                    &&& query == q
                    &&& mailbox matches Some(m) && m@ == old(self).selected_mailbox@
                },
                None => {
                    &&& *final(self) == (EsMailApp { search_results: None, ..*old(self) })
                    &&& e is None
                },
            },
    {
        match fts_query {
            Some(query) => Some(
                Effect::Db(
                    DbCommand::Search {
                        account_id: self.account_id(),
                        query,
                        mailbox: Some(self.selected_mailbox.clone()),
                    },
                ),
            ),
            None => {
                self.search_results = None;
                None
            },
        }
    }

    /// Empty the search field and drop the results.
    pub fn clear_search(&mut self)
        ensures
            *final(self) == (EsMailApp {
                search_query: final(self).search_query,
                search_results: None,
                ..*old(self)
            }),
            final(self).search_query@ == Seq::<char>::empty(),
    {
        self.search_query = String::new();
        self.search_results = None;
    }

    /// Turn to another mailbox, on its first page.
    pub fn select_mailbox(&mut self, mailbox: String) -> (e: Effect)
        requires
            old(self).next_req_id < u64::MAX,
        ensures
            *final(self) == (EsMailApp {
                selected_mailbox: final(self).selected_mailbox,
                selected_uid: None,
                current_page: 1,
                ..with_headers_request(*old(self))
            }),
            final(self).selected_mailbox@ == mailbox@,
            asks_headers(e, mailbox@, 1, final(self).next_req_id),
    {
        self.selected_mailbox = mailbox.clone();
        self.selected_uid = None;
        self.current_page = 1;
        self.fetch_headers(mailbox, 1)
    }

    /// Fetch the current page again.
    pub fn refresh(&mut self) -> (e: Effect)
        requires
            old(self).next_req_id < u64::MAX,
        ensures
            *final(self) == with_headers_request(*old(self)),
            asks_headers(
                e,
                old(self).selected_mailbox@,
                old(self).current_page,
                final(self).next_req_id,
            ),
    {
        let mailbox = self.selected_mailbox.clone();
        let page: u32 = self.current_page;
        self.fetch_headers(mailbox, page)
    }

    /// Turn to the page before, if there is one.
    pub fn previous_page(&mut self) -> (e: Option<Effect>)
        requires
            old(self).current_page > 1 ==> old(self).next_req_id < u64::MAX,
        ensures
            old(self).current_page <= 1 ==> *final(self) == *old(self) && e is None,
            old(self).current_page > 1 ==> {
                &&& *final(self) == (EsMailApp {
                    current_page: (old(self).current_page - 1) as u32,
                    ..with_headers_request(*old(self))
                })
                &&& e is Some
                &&& asks_headers(
                    e->0,
                    old(self).selected_mailbox@,
                    (old(self).current_page - 1) as u32,
                    final(self).next_req_id,
                )
            },
    {
        if self.current_page > 1 {
            self.current_page = self.current_page - 1;
            Some(self.refresh())
        } else {
            None
        }
    }

    /// Turn to the page after, if there is one.
    pub fn next_page(&mut self) -> (e: Option<Effect>)
        requires
            old(self).current_page < old(self).total_pages ==> old(self).next_req_id < u64::MAX,
        ensures
            old(self).current_page >= old(self).total_pages ==> *final(self) == *old(self)
                && e is None,
            old(self).current_page < old(self).total_pages ==> {
                &&& *final(self) == (EsMailApp {
                    current_page: (old(self).current_page + 1) as u32,
                    ..with_headers_request(*old(self))
                })
                &&& e is Some
                &&& asks_headers(
                    e->0,
                    old(self).selected_mailbox@,
                    (old(self).current_page + 1) as u32,
                    final(self).next_req_id,
                )
            },
    {
        if self.current_page < self.total_pages {
            self.current_page = self.current_page + 1;
            Some(self.refresh())
        } else {
            None
        }
    }

    /// Whether the message list can be paged and refreshed: search results
    /// cannot.
    pub fn can_page(&self) -> (r: bool)
        ensures
            r == (self.search_results is None),
    {
        self.search_results.is_none()
    }

    /// The lines of the message list: the search results, if there are any,
    /// else the current page.
    pub fn shown_headers(&self) -> (r: &Vec<MailHeader>)
        ensures
            *r == match self.search_results {
                Some(results) => results,
                None => self.headers,
            },
    {
        match &self.search_results {
            Some(results) => results,
            None => &self.headers,
        }
    }

    /// The title of the message list.
    pub fn list_title(&self) -> (r: &'static str)
        ensures
            r@ == if self.search_results is Some {
                "Search Results"@
            } else {
                "Inbox"@
            },
    {
        if self.search_results.is_some() {
            "Search Results"
        } else {
            "Inbox"
        }
    }

    /// Open a message of the list: from the cache when it is a search result,
    /// else from the server. Every message opens with remote content blocked.
    pub fn open_message(&mut self, uid: u32) -> (effects: Vec<Effect>)
        requires
            old(self).search_results is None ==> old(self).next_req_id < u64::MAX,
        ensures
            is_opened(*old(self), uid, *final(self)),
            effects@.len() == 2,
            shows(effects@[0], "<i>Loading message...</i>"@),
            old(self).search_results is Some ==> {
                effects@[1] matches Effect::Db(
                    DbCommand::FetchMail { account_id, mailbox, uid: u },
                ) && account_id@ == form_account_id(*old(self)) && mailbox@
                    == old(self).selected_mailbox@ && u == uid
            },
            old(self).search_results is None ==> asks_body(
                effects@[1],
                old(self).selected_mailbox@,
                uid,
                final(self).next_req_id,
            ),
    {
        self.selected_uid = Some(uid);
        self.allow_remote = false;
        self.current_attachments = Vec::new();
        let mut effects: Vec<Effect> = Vec::new();
        effects.push(Effect::Show("<i>Loading message...</i>".to_owned()));
        if self.search_results.is_some() {
            effects.push(
                Effect::Db(
                    DbCommand::FetchMail {
                        account_id: self.account_id(),
                        mailbox: self.selected_mailbox.clone(),
                        uid,
                    },
                ),
            );
        } else {
            let mailbox = self.selected_mailbox.clone();
            let fetch = self.fetch_body(mailbox, uid);
            effects.push(fetch);
        }
        effects
    }

    /// The line of the open message on the current page, if it is there.
    pub fn open_header(&self) -> (r: Option<MailHeader>)
        ensures
            match self.selected_uid {
                None => r is None,
                Some(uid) => {
                    let at = line_of(self.headers@, uid);
                    if at < self.headers@.len() {
                        r == Some(self.headers@[at])
                    } else {
                        r is None
                    }
                },
            },
    {
        match self.selected_uid {
            None => None,
            Some(uid) => {
                let mut i: usize = 0;
                assert(self.headers@.skip(0) == self.headers@);
                while i < self.headers.len()
                    invariant
                        i <= self.headers.len(),
                        self.selected_uid == Some(uid),
                        line_of(self.headers@, uid) == i + line_of(
                            self.headers@.skip(i as int),
                            uid,
                        ),
                    decreases self.headers.len() - i,
                {
                    assert(self.headers@.skip(i as int)[0] == self.headers@[i as int]);
                    if self.headers[i].uid == uid {
                        return Some(self.headers[i].clone());
                    }
                    assert(self.headers@.skip(i as int).skip(1) == self.headers@.skip(i + 1));
                    i = i + 1;
                }
                None
            },
        }
    }

    /// The policy of the message view as things stand.
    pub fn view_handler(&self) -> (r: MessageViewHandler)
        ensures
            r.allow_remote == self.allow_remote,
    {
        MessageViewHandler { allow_remote: self.allow_remote }
    }

    /// Let the open message load its remote content, and load it again.
    pub fn load_remote_images(&mut self) -> (e: Effect)
        ensures
            *final(self) == (EsMailApp { allow_remote: true, ..*old(self) }),
            e == Effect::Reload,
    {
        self.allow_remote = true;
        Effect::Reload
    }

    /// Open the compose window on a message: a new one, a reply, or a forward.
    pub fn open_compose(&mut self, message: ComposeState)
        ensures
            *final(self) == (EsMailApp {
                compose: Some(message),
                compose_status: final(self).compose_status,
                ..*old(self)
            }),
            final(self).compose_status@ == Seq::<char>::empty(),
    {
        self.compose = Some(message);
        self.compose_status = String::new();
    }

    /// Open the compose window on a new message.
    pub fn new_message(&mut self)
        ensures
            *final(self) == (EsMailApp {
                compose: final(self).compose,
                compose_status: final(self).compose_status,
                ..*old(self)
            }),
            final(self).compose matches Some(c) && is_blank(c),
            final(self).compose_status@ == Seq::<char>::empty(),
    {
        self.open_compose(ComposeState::default());
    }

    /// Attach a file to the message being written, under its own name or as
    /// `attachment`; a file that could not be read is reported instead.
    pub fn attach_file(
        &mut self,
        path: &str,
        filename: Option<String>,
        content: Result<Vec<u8>, String>,
    )
        requires
            old(self).compose is Some,
        ensures
            final(self).compose is Some,
            match content {
                Ok(data) => {
                    &&& *final(self) == (EsMailApp {
                        compose: Some(
                            ComposeState {
                                attachments: final(self).compose->0.attachments,
                                ..old(self).compose->0
                            },
                        ),
                        ..*old(self)
                    })
                    &&& final(self).compose->0.attachments@.drop_last()
                        == old(self).compose->0.attachments@
                    &&& final(self).compose->0.attachments@.len()
                        == old(self).compose->0.attachments@.len() + 1
                    &&& final(self).compose->0.attachments@.last().0@ == match filename {
                        Some(n) => n@,
                        None => "attachment"@,
                    }
                    &&& final(self).compose->0.attachments@.last().1 == data
                },
                Err(e) => {
                    &&& *final(self) == (EsMailApp {
                        compose_status: final(self).compose_status,
                        ..*old(self)
                    })
                    &&& final(self).compose_status@ == "Could not read "@ + path@ + ": "@ + e@
                },
            },
    {
        match content {
            Ok(data) => {
                let name = match filename {
                    Some(n) => n,
                    None => "attachment".to_owned(),
                };
                let mut taken: Option<ComposeState> = None;
                core::mem::swap(&mut taken, &mut self.compose);
                match taken {
                    Some(mut c) => {
                        c.attachments.push((name, data));
                        assert(c.attachments@.drop_last() == old(self).compose->0.attachments@);
                        self.compose = Some(c);
                    },
                    None => {},
                }
            },
            Err(e) => {
                let mut s = "Could not read ".to_owned();
                s.append(path);
                s.append(": ");
                s.append(e.as_str());
                self.compose_status = s;
            },
        }
    }

    /// The account that mail is sent from: what the login form holds, with the
    /// sending password of the keyring. Nothing without that password.
    pub fn smtp_account<P>(&self, saved_password: Option<P>) -> (r: Option<SmtpAccount<P>>)
        ensures
            match saved_password {
                None => r is None,
                Some(p) => {
                    &&& r matches Some(a)
                    &&& a.host@ == self.smtp_host@
                    &&& a.port == port_or(self.smtp_port@, 465)
                    &&& a.tls == TlsMode::Ssl
                    &&& a.username@ == self.username@
                    &&& a.password == p
                    &&& a.from_address@ == self.username@
                },
            },
    {
        match saved_password {
            None => None,
            Some(password) => Some(
                SmtpAccount {
                    host: self.smtp_host.clone(),
                    port: read_port(&self.smtp_port, 465),
                    tls: TlsMode::Ssl,
                    username: self.username.clone(),
                    password,
                    from_address: self.username.clone(),
                },
            ),
        }
    }

    /// Send the message being written, with the sending password of the
    /// keyring. The window stays open until the outcome is known.
    pub fn send<P>(&mut self, saved_password: Option<P>) -> (r: Option<SmtpCommand<P>>)
        requires
            old(self).compose is Some,
        ensures
            *final(self) == (EsMailApp {
                compose_status: final(self).compose_status,
                ..*old(self)
            }),
            is_send(*old(self), saved_password, r),
            final(self).compose_status@ == send_status(saved_password is Some),
    {
        match self.smtp_account(saved_password) {
            Some(account) => {
                self.compose_status = "Sending\u{2026}".to_owned();
                match &self.compose {
                    Some(c) => Some(SmtpCommand::Send { account, compose: c.clone() }),
                    None => None,
                }
            },
            None => {
                self.compose_status =
                "No SMTP password on file yet \u{2014} connect once via IMAP first.".to_owned();
                None
            },
        }
    }

    /// Close the compose window and drop what was typed.
    pub fn discard(&mut self)
        ensures
            *final(self) == (EsMailApp {
                compose: None,
                compose_status: final(self).compose_status,
                ..*old(self)
            }),
            final(self).compose_status@ == Seq::<char>::empty(),
    {
        self.compose = None;
        self.compose_status = String::new();
    }

    /// What the compose window's buttons did in one frame: send first, then
    /// close when it was discarded or its own close button was used.
    pub fn on_compose_buttons<P>(
        &mut self,
        send_clicked: bool,
        discard_clicked: bool,
        open: bool,
        saved_password: Option<P>,
    ) -> (r: Option<SmtpCommand<P>>)
        requires
            old(self).compose is Some,
        ensures
            !send_clicked ==> r is None,
            send_clicked ==> is_send(*old(self), saved_password, r),
            discard_clicked || !open ==> final(self).compose is None
                && final(self).compose_status@ == Seq::<char>::empty(),
            !discard_clicked && open ==> final(self).compose == old(self).compose,
            !discard_clicked && open && !send_clicked ==> *final(self) == *old(self),
            !discard_clicked && open && send_clicked ==> final(self).compose_status@
                == send_status(saved_password is Some),
            *final(self) == (EsMailApp {
                compose: final(self).compose,
                compose_status: final(self).compose_status,
                ..*old(self)
            }),
    {
        let mut command: Option<SmtpCommand<P>> = None;
        if send_clicked {
            command = self.send(saved_password);
        }
        if discard_clicked || !open {
            self.discard();
        }
        command
    }

    /// Take a choice from the tray's menu.
    pub fn on_tray_action(&mut self, action: TrayAction) -> (commands: Vec<WindowCommand>)
        ensures
            match action {
                TrayAction::Show => {
                    &&& *final(self) == *old(self)
                    &&& commands@ == seq![WindowCommand::Show, WindowCommand::Focus]
                },
                TrayAction::Quit => {
                    &&& *final(self) == (EsMailApp { exit_requested: true, ..*old(self) })
                    &&& commands@ == seq![WindowCommand::Close]
                },
            },
    {
        let mut commands: Vec<WindowCommand> = Vec::new();
        match action {
            TrayAction::Show => {
                commands.push(WindowCommand::Show);
                commands.push(WindowCommand::Focus);
                assert(commands@ == seq![WindowCommand::Show, WindowCommand::Focus]);
            },
            TrayAction::Quit => {
                self.exit_requested = true;
                commands.push(WindowCommand::Close);
                assert(commands@ == seq![WindowCommand::Close]);
            },
        }
        commands
    }

    /// The window was asked to close: with a tray it hides instead, unless
    /// "Quit" was chosen there.
    pub fn on_close_request(&self) -> (commands: Vec<WindowCommand>)
        ensures
            self.exit_requested ==> commands@ == Seq::<WindowCommand>::empty(),
            !self.exit_requested ==> commands@ == seq![
                WindowCommand::CancelClose,
                WindowCommand::Hide,
            ],
    {
        let mut commands: Vec<WindowCommand> = Vec::new();
        if !self.exit_requested {
            commands.push(WindowCommand::CancelClose);
            commands.push(WindowCommand::Hide);
            assert(commands@ == seq![WindowCommand::CancelClose, WindowCommand::Hide]);
        }
        commands
    }
}

/// The text of a line of the message list: sender and subject, one below the
/// other.
pub fn row_text(header: &MailHeader) -> (r: String)
    ensures
        r@ == header.from@ + seq!['\n'] + header.subject@,
{
    let mut s = header.from.clone();
    s.push('\n');
    s.append(header.subject.as_str());
    assert(s@ == header.from@ + seq!['\n'] + header.subject@);
    s
}

/// The label of an attachment of the open message: its name, media type and
/// size.
pub fn attachment_label(attachment: &Attachment) -> (r: String)
    ensures
        r@ == attachment.filename@ + " \u{2014} "@ + attachment.mime_type@ + ", "@ + size_text(
            attachment.data@.len() as int,
        ),
{
    let mut s = attachment.filename.clone();
    s.append(" \u{2014} ");
    s.append(attachment.mime_type.as_str());
    s.append(", ");
    s.append(format_size(attachment.data.len()).as_str());
    s
}

/// The label of a file attached to the message being written: its name and
/// size.
pub fn attached_file_label(filename: &str, size: usize) -> (r: String)
    ensures
        r@ == filename@ + " ("@ + size_text(size as int) + ")"@,
{
    let mut s = filename.to_owned();
    s.append(" (");
    s.append(format_size(size).as_str());
    s.append(")");
    s
}

/// The label of the download progress: `"{current}/{total}"`.
pub fn progress_label(current: u32, total: u32) -> (r: String)
    ensures
        r@ == decimal(current as nat) + seq!['/'] + decimal(total as nat),
{
    let mut s = decimal_text(current as u64);
    s.push('/');
    s.append(decimal_text(total as u64).as_str());
    assert(s@ == decimal(current as nat) + seq!['/'] + decimal(total as nat));
    s
}

/// A page of headers that is not the reply to the latest request, or is of
/// another mailbox than the selected one, changes nothing that is shown.
pub proof fn late_pages_are_dropped(
    before: EsMailApp,
    event: ImapEvent,
    after: EsMailApp,
    effects: Seq<Effect>,
)
    requires
        imap_outcome(before, event, after, effects),
        event matches ImapEvent::Headers { mailbox, req_id, .. } && (req_id
            != before.current_headers_req || mailbox@ != before.selected_mailbox@),
    ensures
        after == before,
{
}

/// A body that is not the reply to the latest request, or is of another message
/// than the open one, changes nothing and shows nothing.
pub proof fn late_bodies_are_dropped(
    before: EsMailApp,
    event: ImapEvent,
    after: EsMailApp,
    effects: Seq<Effect>,
)
    requires
        imap_outcome(before, event, after, effects),
        event matches ImapEvent::Body { uid, req_id, .. } && (req_id != before.current_body_req
            || before.selected_uid != Some(uid)),
    ensures
        after == before,
        effects.len() == 0,
{
}

/// What the server reports of a mailbox reaches the cache with every page of
/// headers, late ones too.
pub proof fn mailbox_state_is_always_reported(
    before: EsMailApp,
    event: ImapEvent,
    after: EsMailApp,
    effects: Seq<Effect>,
)
    requires
        imap_outcome(before, event, after, effects),
        event is Headers,
    ensures
        effects.len() == 1,
        effects[0] matches Effect::Db(DbCommand::ReportMailboxState { .. }),
{
}

/// Request ids only grow: every request has an id greater than all before it,
/// and the ids that are waited for are among those handed out.
pub proof fn request_ids_grow(before: EsMailApp)
    requires
        before.next_req_id < u64::MAX,
        before.wf(),
    ensures
        with_headers_request(before).wf(),
        with_headers_request(before).current_headers_req > before.next_req_id,
        with_body_request(before).wf(),
        with_body_request(before).current_body_req > before.next_req_id,
{
}

/// Once a newer page was asked for, the reply to any earlier request is
/// dropped, even one for the same mailbox.
pub proof fn superseded_pages_are_dropped(
    before: EsMailApp,
    event: ImapEvent,
    after: EsMailApp,
    effects: Seq<Effect>,
)
    requires
        before.wf(),
        before.next_req_id < u64::MAX,
        event matches ImapEvent::Headers { req_id, .. } && req_id <= before.next_req_id,
        imap_outcome(with_headers_request(before), event, after, effects),
    ensures
        after == with_headers_request(before),
{
}

/// No event of a connection touches the request ids, but for a new connection,
/// which asks for the first page.
pub proof fn events_keep_request_ids(
    before: EsMailApp,
    event: ImapEvent,
    after: EsMailApp,
    effects: Seq<Effect>,
)
    requires
        before.wf(),
        before.next_req_id < u64::MAX,
        imap_outcome(before, event, after, effects),
    ensures
        after.wf(),
        !(event is Connected) ==> after.next_req_id == before.next_req_id,
{
}

/// No event of a connection or of the cache lets the open message load remote
/// content.
pub proof fn events_never_allow_remote_content(
    before: EsMailApp,
    event: ImapEvent,
    after: EsMailApp,
    effects: Seq<Effect>,
)
    requires
        imap_outcome(before, event, after, effects),
    ensures
        after.allow_remote == before.allow_remote,
{
}

/// One thing that happens to the mail window.
pub enum AppStep {
    /// An event of the IMAP connection.
    Imap(ImapEvent, Seq<Effect>),
    /// An event of the cache.
    Db(DbEvent, Seq<Effect>),
    /// The outcome of a send.
    Smtp(SmtpEvent),
    /// The user opens a message.
    Open(u32),
    /// The user asks for the open message's remote content.
    Unblock,
    /// Anything else that the user does; no other action touches the permission.
    Other,
}

/// Whether a step leads from `before` to `after`.
pub open spec fn leads_to(before: EsMailApp, step: AppStep, after: EsMailApp) -> bool {
    match step {
        AppStep::Imap(event, effects) => imap_outcome(before, event, after, effects),
        AppStep::Db(event, effects) => db_outcome(before, event, after, effects),
        AppStep::Smtp(event) => smtp_outcome(before, event, after),
        AppStep::Open(uid) => is_opened(before, uid, after),
        AppStep::Unblock => after == EsMailApp { allow_remote: true, ..before },
        AppStep::Other => after.allow_remote == before.allow_remote,
    }
}

/// Whether step number `i` leads from state `i` to the next.
pub open spec fn app_step_holds(states: Seq<EsMailApp>, steps: Seq<AppStep>, i: int) -> bool {
    leads_to(states[i], steps[i], states[i + 1])
}

/// Whether the user asked for remote content after the last message was opened.
pub open spec fn asked_for_remote(steps: Seq<AppStep>) -> bool
    decreases steps.len(),
{
    if steps.len() == 0 {
        false
    } else {
        match steps.last() {
            AppStep::Unblock => true,
            AppStep::Open(_) => false,
            _ => asked_for_remote(steps.drop_last()),
        }
    }
}

/// However a fresh window got where it is, the message that is open loads
/// nothing over `http` or `https` unless the user asked for it after opening
/// that message. What is not remote is never blocked.
pub proof fn remote_content_is_blocked_until_asked_for(
    states: Seq<EsMailApp>,
    steps: Seq<AppStep>,
    url: Seq<char>,
)
    requires
        states.len() == steps.len() + 1,
        is_fresh(states[0]),
        forall|i: int| 0 <= i < steps.len() ==> #[trigger] app_step_holds(states, steps, i),
    ensures
        states.last().allow_remote == asked_for_remote(steps),
        message_policy(states.last().allow_remote, url) == if is_remote(url) && !asked_for_remote(
            steps,
        ) {
            InterceptOutcome::Block
        } else {
            InterceptOutcome::Allow
        },
    decreases steps.len(),
{
    if steps.len() > 0 {
        let n = steps.len() - 1;
        let (a, b) = (states.drop_last(), steps.drop_last());
        assert forall|i: int| 0 <= i < b.len() implies #[trigger] app_step_holds(a, b, i) by {
            assert(app_step_holds(states, steps, i));
        }
        remote_content_is_blocked_until_asked_for(a, b, url);
        assert(a.last() == states[n]);
        assert(app_step_holds(states, steps, n));
    }
}

/// What leads to the network is what is read over `http` or `https`; a URL of
/// any other scheme does not.
pub proof fn only_web_urls_are_remote(name: Seq<char>, rest: Seq<char>)
    requires
        forall|i: int| 0 <= i < name.len() ==> #[trigger] name[i] != ':',
    ensures
        name == seq!['h', 't', 't', 'p'] ==> is_remote(name + seq![':'] + rest),
        name == seq!['h', 't', 't', 'p', 's'] ==> is_remote(name + seq![':'] + rest),
        name != seq!['h', 't', 't', 'p'] && name != seq!['h', 't', 't', 'p', 's'] ==> !is_remote(
            name + seq![':'] + rest,
        ),
{
    reveal_strlit("http");
    reveal_strlit("https");
    let url = name + seq![':'] + rest;
    assert forall|i: int| 0 <= i < name.len() implies url[i] != ':' by {
        assert(url[i] == name[i]);
    }
    lemma_index_of_is(url, ':', name.len() as int);
    assert(url.take(name.len() as int) == name);
    assert("http"@ == seq!['h', 't', 't', 'p']);
    assert("https"@ == seq!['h', 't', 't', 'p', 's']);
}

/// The page that was asked for last is shown when it comes, with its number
/// among all pages, and what the server said of the mailbox goes to the cache
/// under the account that is logged in.
pub proof fn awaited_pages_are_shown(
    before: EsMailApp,
    mailbox: String,
    headers: Vec<MailHeader>,
    page: u32,
    total_pages: u32,
    req_id: u64,
    mailbox_state: MailboxState,
    after: EsMailApp,
    effects: Seq<Effect>,
)
    requires
        imap_outcome(
            before,
            ImapEvent::Headers { mailbox, headers, page, total_pages, req_id, mailbox_state },
            after,
            effects,
        ),
        req_id == before.current_headers_req,
        mailbox@ == before.selected_mailbox@,
    ensures
        after.headers == headers,
        after.current_page == page,
        after.total_pages == total_pages,
        after.status@ == "Page "@ + decimal(page as nat) + " of "@ + decimal(total_pages as nat),
        after.selected_mailbox == before.selected_mailbox,
        after.selected_uid == before.selected_uid,
        effects.len() == 1,
        effects[0] matches Effect::Db(
            DbCommand::ReportMailboxState { account_id, mailbox: m, uid_validity, uid_next },
        ) && account_id@ == before.username@ + seq!['@'] + before.host@ && m@ == mailbox@
            && uid_validity == mailbox_state.uid_validity && uid_next == mailbox_state.uid_next,
{
    assert(before.username@.push('@') + before.host@ == before.username@ + seq!['@'] + before.host@);
}

/// The body of the open message is shown when it comes, whole and with its
/// attachments, and is kept for a reply.
pub proof fn awaited_bodies_are_shown(
    before: EsMailApp,
    uid: u32,
    html: String,
    attachments: Vec<Attachment>,
    req_id: u64,
    after: EsMailApp,
    effects: Seq<Effect>,
)
    requires
        imap_outcome(before, ImapEvent::Body { uid, html, attachments, req_id }, after, effects),
        req_id == before.current_body_req,
        before.selected_uid == Some(uid),
        before.search_results is None,
    ensures
        after.current_message_html@ == html@,
        after.current_attachments == attachments,
        effects.len() == 1,
        effects[0] matches Effect::Show(h) && h@ == html@,
{
}

/// What is downloaded or fetched behind the scenes goes to the cache as it came,
/// under the account that is logged in.
pub proof fn fetched_mail_reaches_the_cache(
    before: EsMailApp,
    event: ImapEvent,
    after: EsMailApp,
    effects: Seq<Effect>,
)
    requires
        imap_outcome(before, event, after, effects),
    ensures
        event matches ImapEvent::MailData { mailbox, header, body } ==> effects.len() == 1 && (
        effects[0] matches Effect::Db(
            DbCommand::IndexMail { account_id, mailbox: m, header: h, body: b },
        ) && account_id@ == before.username@ + seq!['@'] + before.host@ && m@ == mailbox@ && h
            == header && b@ == body@),
        event matches ImapEvent::HeadersFrom { mailbox, headers } ==> effects.len() == 1 && (
        effects[0] matches Effect::Db(
            DbCommand::IndexHeaders { account_id, mailbox: m, headers: h },
        ) && account_id@ == before.username@ + seq!['@'] + before.host@ && m@ == mailbox@ && h
            == headers),
{
    assert(before.username@.push('@') + before.host@ == before.username@ + seq!['@'] + before.host@);
}

/// How far a download has come is shown until it is done; errors are shown word
/// for word, and a new list of mailboxes as it came.
pub proof fn reports_are_shown(
    before: EsMailApp,
    event: ImapEvent,
    after: EsMailApp,
    effects: Seq<Effect>,
)
    requires
        imap_outcome(before, event, after, effects),
    ensures
        event matches ImapEvent::DownloadProgress { current, total } ==> after.download_progress
            == (if current == total {
            None
        } else {
            Some((current, total))
        }),
        event matches ImapEvent::Error(e) ==> after.status@ == "Error: "@ + e@ && after.headers
            == before.headers && after.is_connected == before.is_connected,
        event matches ImapEvent::Mailboxes(names) ==> after.mailboxes == names,
        event is Disconnected ==> after.status@ == "Connection lost, reconnecting..."@
            && after.is_connected == before.is_connected,
        event matches ImapEvent::DownloadProgress { current, total } ==> (current == total
            ==> after.status@ == "Download complete"@) && (current != total ==> after.status
            == before.status),
        event is Disconnected || event is Error || event is Mailboxes || event is DownloadProgress
            ==> effects.len() == 0,
        event is MailboxPolled || event is NewHeaders || event is PollFailed ==> after == before
            && effects.len() == 0,
{
}

/// Once connected, the account of the login form is among the saved ones with
/// what the form says, its password goes to the keyring for reading and for
/// sending, and the mailboxes and the first page are asked for.
pub proof fn a_connection_is_remembered_and_used(
    before: EsMailApp,
    after: EsMailApp,
    effects: Seq<Effect>,
)
    requires
        imap_outcome(before, ImapEvent::Connected, after, effects),
        before.next_req_id < u64::MAX,
    ensures
        after.is_connected,
        after.status@ == "Connected!"@,
        ({
            let id = before.username@ + seq!['@'] + before.host@;
            &&& account_with(after.config.accounts@, id) matches Some(a) && a.imap_host@
                == before.host@ && a.username@ == before.username@ && a.display_name@
                == before.username@ && a.imap_tls == TlsMode::Ssl && a.smtp_tls == TlsMode::Ssl && (
            before.smtp_host@.len() > 0 ==> a.smtp_host@ == before.smtp_host@)
            &&& forall|other: Seq<char>|
                other != id ==> #[trigger] account_with(after.config.accounts@, other)
                    == account_with(before.config.accounts@, other)
            &&& effects.len() == 5
            &&& effects[0] matches Effect::SavePassword { account_id, service, password }
                && account_id@ == id && service@ == "imap"@ && password@ == before.password@
            &&& effects[1] matches Effect::SavePassword { account_id, service, password }
                && account_id@ == id && service@ == "smtp"@ && password@ == before.password@
        }),
        effects.contains(Effect::SaveConfig),
        effects.contains(Effect::Imap(ImapCommand::FetchMailboxes)),
        effects[4] matches Effect::Imap(ImapCommand::FetchHeaders { mailbox, page, req_id })
            && mailbox@ == before.selected_mailbox@ && page == 1 && req_id
            == after.current_headers_req,
        after.current_headers_req == before.next_req_id + 1,
{
    let id = before.username@ + seq!['@'] + before.host@;
    assert(before.username@.push('@') + before.host@ == id);
    let a = choose|a: AccountConfig|
        is_form_account(a, before) && #[trigger] upserted(before.config.accounts@, a)
            == after.config.accounts@;
    assert(a.id@ == id);
    upserted_account_is_found(before.config.accounts@, a, id);
    assert forall|other: Seq<char>| other != id implies #[trigger] account_with(
        after.config.accounts@,
        other,
    ) == account_with(before.config.accounts@, other) by {
        upserted_account_is_found(before.config.accounts@, a, other);
    }
    assert(effects[2] == Effect::SaveConfig);
    assert(effects[3] == Effect::Imap(ImapCommand::FetchMailboxes));
}

/// A port is the number that its field spells; a field that spells none stands
/// for the usual port.
pub proof fn ports_are_what_the_form_says(n: u16, text: Seq<char>, default: u16)
    ensures
        port_or(decimal(n as nat), default) == n,
        text.len() == 0 ==> port_or(text, default) == default,
        text.len() > 0 && text[0] != '+' && !('0' <= text[0] <= '9') ==> port_or(text, default)
            == default,
{
    ports_are_read_in_decimal(n as nat, text);
}

/// An account that was picked from the list and then used is the account it was:
/// the form carries its hosts, ports and user name through.
pub proof fn picked_accounts_stay_as_they_were(
    app: EsMailApp,
    picked: AccountConfig,
    used: AccountConfig,
)
    requires
        form_holds(app, picked),
        is_form_account(used, app),
    ensures
        used.imap_host@ == picked.imap_host@,
        used.imap_port == picked.imap_port,
        used.smtp_port == picked.smtp_port,
        used.username@ == picked.username@,
        picked.smtp_host@.len() > 0 ==> used.smtp_host@ == picked.smtp_host@,
        used.id@ == picked.username@ + seq!['@'] + picked.imap_host@,
{
    ports_are_what_the_form_says(picked.imap_port, Seq::empty(), 993);
    ports_are_what_the_form_says(picked.smtp_port, Seq::empty(), 465);
    assert(app.username@.push('@') + app.host@ == picked.username@ + seq!['@'] + picked.imap_host@);
}

/// A form without ports and without a sending host stands for the usual ports
/// and for the host that is guessed from the reading one.
pub proof fn empty_fields_have_their_usual_values(app: EsMailApp, a: AccountConfig)
    requires
        is_form_account(a, app),
        app.port@.len() == 0,
        app.smtp_port@.len() == 0,
        app.smtp_host@.len() == 0,
    ensures
        a.imap_port == 993,
        a.smtp_port == 465,
        a.smtp_host@ == guessed_smtp_host(app.host@),
{
    ports_are_what_the_form_says(0, app.port@, 993);
    ports_are_what_the_form_says(0, app.smtp_port@, 465);
}

/// A search result is listed as it came, a message from the cache is shown whole
/// while it is the open one, and whatever is missing of a mailbox is asked for:
/// from the first new message on, or all of it after a renumbering.
pub proof fn answers_of_the_cache_are_used(
    before: EsMailApp,
    event: DbEvent,
    after: EsMailApp,
    effects: Seq<Effect>,
)
    requires
        db_outcome(before, event, after, effects),
    ensures
        event matches DbEvent::SearchResult { headers } ==> after.search_results == Some(headers),
        event matches DbEvent::MailFetched { header, body } ==> if before.selected_uid == Some(
            header.uid,
        ) {
            &&& after.current_message_html@ == body@
            &&& effects.len() == 1
            &&& effects[0] matches Effect::Show(h) && h@ == body@
        } else {
            after == before && effects.len() == 0
        },
        event matches DbEvent::SyncPlan {
            account_id,
            mailbox,
            plan: SyncPlan::FetchFrom { first_new_uid },
        } ==> effects == seq![
            Effect::Imap(ImapCommand::FetchHeadersFrom { mailbox, first_uid: first_new_uid }),
        ],
        event matches DbEvent::SyncPlan { account_id, mailbox, plan: SyncPlan::Resync } ==> effects
            == seq![Effect::Imap(ImapCommand::FetchHeadersFrom { mailbox, first_uid: 1 })],
        event matches DbEvent::SyncPlan { account_id, mailbox, plan: SyncPlan::UpToDate }
            ==> effects.len() == 0 && after == before,
        event matches DbEvent::Error(e) ==> after.status@ == "DB Error: "@ + e@,
{
    if let DbEvent::SyncPlan { account_id, mailbox, plan } = event {
        if let SyncPlan::FetchFrom { first_new_uid } = plan {
            assert(effects =~= seq![
                Effect::Imap(ImapCommand::FetchHeadersFrom { mailbox, first_uid: first_new_uid }),
            ]);
        }
        if let SyncPlan::Resync = plan {
            assert(effects =~= seq![
                Effect::Imap(ImapCommand::FetchHeadersFrom { mailbox, first_uid: 1 }),
            ]);
        }
    }
}

/// A message that was sent is gone from the compose window; one that was not
/// stays there as it was written, with the reason beside it.
pub proof fn unsent_messages_are_kept(before: EsMailApp, e: String, after: EsMailApp)
    ensures
        smtp_outcome(before, SmtpEvent::Error(e), after) ==> after.compose == before.compose
            && after.compose_status@ == "Send failed: "@ + e@ && after.status == before.status,
        smtp_outcome(before, SmtpEvent::Sent, after) ==> after.compose is None
            && after.compose_status@.len() == 0 && after.status@ == "Message sent"@,
{
}

/// What is sent is the message in the compose window, every field and every
/// attachment of it, from the account in the login form. Without a password
/// nothing is.
pub proof fn the_written_message_is_sent<P>(
    app: EsMailApp,
    password: P,
    command: Option<SmtpCommand<P>>,
    i: int,
)
    requires
        app.compose is Some,
    ensures
        is_send(app, Some(password), command) ==> {
            &&& command matches Some(SmtpCommand::Send { account, compose }) && {
                &&& account.host@ == app.smtp_host@ && account.username@ == app.username@
                &&& account.port == port_or(app.smtp_port@, 465) && account.tls == TlsMode::Ssl
                &&& account.from_address@ == app.username@ && account.password == password
                &&& compose.to@ == app.compose->0.to@ && compose.cc@ == app.compose->0.cc@
                &&& compose.bcc@ == app.compose->0.bcc@ && compose.subject@
                    == app.compose->0.subject@
                &&& compose.body@ == app.compose->0.body@
                &&& compose.in_reply_to == app.compose->0.in_reply_to && compose.references
                    == app.compose->0.references
                &&& compose.attachments@.len() == app.compose->0.attachments@.len()
                &&& 0 <= i < compose.attachments@.len() ==> compose.attachments@[i].0@
                    == app.compose->0.attachments@[i].0@ && compose.attachments@[i].1@
                    == app.compose->0.attachments@[i].1@
            }
        },
        is_send(app, None::<P>, command) ==> command is None,
{
}

/// Opening a message selects it, blocks remote content again and drops the
/// attachments of the one before; what the server is asked for is awaited.
pub proof fn an_opened_message_starts_afresh(before: EsMailApp, uid: u32, after: EsMailApp)
    requires
        is_opened(before, uid, after),
        before.next_req_id < u64::MAX,
    ensures
        after.selected_uid == Some(uid),
        !after.allow_remote,
        after.current_attachments@.len() == 0,
        after.selected_mailbox == before.selected_mailbox,
        after.headers == before.headers,
        before.search_results is None ==> after.current_body_req == before.next_req_id + 1
            && after.next_req_id == before.next_req_id + 1,
        before.search_results is Some ==> after.next_req_id == before.next_req_id,
        after.current_headers_req == before.current_headers_req,
{
}

/// The line of a message is the first one with its UID.
pub proof fn lines_are_found_by_uid(
    before: Seq<MailHeader>,
    line: MailHeader,
    after: Seq<MailHeader>,
)
    requires
        forall|i: int| 0 <= i < before.len() ==> (#[trigger] before[i]).uid != line.uid,
    ensures
        line_of(before + seq![line] + after, line.uid) == before.len(),
        line_of(before, line.uid) == before.len(),
    decreases before.len(),
{
    let all = before + seq![line] + after;
    if before.len() > 0 {
        assert forall|i: int| 0 <= i < before.skip(1).len() implies (
        #[trigger] before.skip(1)[i]).uid != line.uid by {
            assert(before.skip(1)[i] == before[i + 1]);
        }
        lines_are_found_by_uid(before.skip(1), line, after);
        assert(before[0].uid != line.uid);
        assert(all[0] == before[0]);
        assert(all.skip(1) == before.skip(1) + seq![line] + after);
    } else {
        assert(all[0] == line);
    }
}

/// A form without a saved account names the usual servers and ports, and nobody.
pub proof fn an_empty_form_names_the_usual_servers(app: EsMailApp)
    requires
        form_is_default(app),
    ensures
        app.host@ == "imap.gmail.com"@ && app.port@ == "993"@,
        app.smtp_host@ == "smtp.gmail.com"@ && app.smtp_port@ == "465"@,
        app.username@.len() == 0 && app.password@.len() == 0,
{
}

/// A saved account fills the form with its hosts, its ports in decimal, and its
/// user name.
pub proof fn saved_accounts_fill_the_form(app: EsMailApp, account: AccountConfig)
    requires
        form_holds(app, account),
    ensures
        app.host@ == account.imap_host@ && port_or(app.port@, 0) == account.imap_port,
        app.smtp_host@ == account.smtp_host@ && port_or(app.smtp_port@, 0) == account.smtp_port,
        app.username@ == account.username@,
{
    ports_are_what_the_form_says(account.imap_port, Seq::empty(), 0);
    ports_are_what_the_form_says(account.smtp_port, Seq::empty(), 0);
}

/// A fresh window is not connected, shows the first page of an empty inbox, has
/// asked for nothing, is writing nothing and lets nothing remote through.
pub proof fn a_fresh_window_shows_nothing(app: EsMailApp)
    requires
        is_fresh(app),
    ensures
        !app.is_connected && !app.idle_watch_started && !app.allow_remote && !app.exit_requested,
        app.status@ == "Ready"@,
        app.selected_mailbox@ == "INBOX"@ && app.selected_uid is None,
        app.current_page == 1 && app.total_pages == 1,
        app.headers@.len() == 0 && app.mailboxes@.len() == 0 && app.current_attachments@.len() == 0,
        app.current_message_html@.len() == 0,
        app.compose is None && app.compose_status@.len() == 0,
        app.next_req_id == 0 && app.current_headers_req == 0 && app.current_body_req == 0,
        app.search_results is None && app.search_query@.len() == 0,
        app.download_progress is None,
        app.wf(),
{
}

/// A saved password is used as it is; without one there is none.
pub proof fn saved_passwords_are_used(password: String)
    ensures
        text_or_empty(Some(password)) == password@,
        text_or_empty(None).len() == 0,
{
}

/// The compose window tells that a message is on its way only where there is a
/// password to send it with.
pub proof fn sends_are_told_apart()
    ensures
        send_status(true) == "Sending\u{2026}"@,
        send_status(false)
            == "No SMTP password on file yet \u{2014} connect once via IMAP first."@,
{
}

/// A request names the mailbox, the page or the message, and the number it is
/// made under, just as they were asked for.
pub proof fn requests_name_what_is_wanted(
    e: Effect,
    mailbox: Seq<char>,
    page: u32,
    uid: u32,
    req_id: u64,
    html: Seq<char>,
)
    ensures
        asks_headers(e, mailbox, page, req_id) ==> (e matches Effect::Imap(
            ImapCommand::FetchHeaders { mailbox: m, page: p, req_id: r },
        ) && m@ == mailbox && p == page && r == req_id),
        asks_body(e, mailbox, uid, req_id) ==> (e matches Effect::Imap(
            ImapCommand::FetchBody { mailbox: m, uid: u, req_id: r },
        ) && m@ == mailbox && u == uid && r == req_id),
        shows(e, html) ==> (e matches Effect::Show(h) && h@ == html),
{
}

/// A request is the next in number, and the one that is waited for from then on:
/// its reply is shown, that to any other is not.
pub proof fn the_latest_request_is_awaited(
    before: EsMailApp,
    mailbox: Seq<char>,
    uid: u32,
    req_id: u64,
)
    requires
        before.next_req_id < u64::MAX,
    ensures
        is_awaited_page(with_headers_request(before), mailbox, req_id) <==> req_id
            == before.next_req_id + 1 && mailbox == before.selected_mailbox@,
        is_awaited_body(with_body_request(before), uid, req_id) <==> req_id == before.next_req_id
            + 1 && before.selected_uid == Some(uid) && before.search_results is None,
        with_headers_request(before).next_req_id == before.next_req_id + 1,
        with_body_request(before).next_req_id == before.next_req_id + 1,
        with_headers_request(before).current_body_req == before.current_body_req,
        with_body_request(before).current_headers_req == before.current_headers_req,
{
}

} // verus!
