//! What the mail client says to an IMAP server and makes of the answers:
//! message headers, mailbox state, paging through a mailbox, and the commands
//! and events that pass between the user interface and the IMAP connection.
use vstd::prelude::*;
use vstd::utf8::{decode_first_scalar, decode_utf8, pop_first_scalar, valid_utf8};

use crate::render::Attachment;
use crate::text::{decimal, decimal_text};

verus! {

/// One line of a message list.
#[derive(Debug)]
pub struct MailHeader {
    pub uid: u32,
    pub subject: String,
    pub from: String,
    pub to: String,
    pub date: String,
    /// The `Message-ID` header, e.g. `<abc123@example.com>`, angle brackets
    /// included (that's how `In-Reply-To`/`References` expect it). Empty
    /// when the server's ENVELOPE didn't have one: rare, but legal.
    pub message_id: String,
}

impl Clone for MailHeader {
    fn clone(&self) -> (r: Self)
        ensures
            r == *self,
    {
        MailHeader {
            uid: self.uid,
            subject: self.subject.clone(),
            from: self.from.clone(),
            to: self.to.clone(),
            date: self.date.clone(),
            message_id: self.message_id.clone(),
        }
    }
}

/// One line of a message list, as mathematical values.
#[verifier::ext_equal]
pub struct HeaderView {
    pub uid: u32,
    pub subject: Seq<char>,
    pub from: Seq<char>,
    pub to: Seq<char>,
    pub date: Seq<char>,
    pub message_id: Seq<char>,
}

impl View for MailHeader {
    type V = HeaderView;

    open spec fn view(&self) -> HeaderView {
        HeaderView {
            uid: self.uid,
            subject: self.subject@,
            from: self.from@,
            to: self.to@,
            date: self.date@,
            message_id: self.message_id@,
        }
    }
}

/// UIDVALIDITY/UIDNEXT as of the most recent `EXAMINE`/`SELECT`. Feeds the
/// cache's incremental-sync bookkeeping.
#[derive(Debug, Clone, Copy, PartialEq, Eq, Structural)]
pub struct MailboxState {
    pub uid_validity: u32,
    pub uid_next: u32,
}

/// What the user interface asks of the IMAP connection. `P` is the type that
/// carries a password.
#[derive(Debug)]
pub enum ImapCommand<P> {
    Connect { host: String, port: u16, username: String, password: P },
    FetchMailboxes,
    /// `req_id` is echoed on the resulting [`ImapEvent::Headers`] so the UI
    /// can drop a reply that arrives after a newer request superseded it.
    FetchHeaders { mailbox: String, page: u32, req_id: u64 },
    /// See `FetchHeaders`; echoed on [`ImapEvent::Body`].
    FetchBody { mailbox: String, uid: u32, req_id: u64 },
    BulkDownload { mailbox: String },
    /// Lightweight new-mail poll: re-`EXAMINE`s `mailbox` to read the fresh
    /// UIDVALIDITY/UIDNEXT. Silently dropped if there is no live session: a
    /// background poll on a timer should never itself start a reconnect storm
    /// while the user is offline.
    PollMailbox { mailbox: String },
    /// Fetch just the envelopes for UIDs `first_uid..` in `mailbox`, to build
    /// a new-mail notification. Dropped without a live session, like
    /// `PollMailbox`.
    FetchNewHeaders { mailbox: String, first_uid: u32 },
    /// Fetch envelopes for UIDs `first_uid..` in `mailbox`, to feed the
    /// incremental cache sync. Reconnects where needed, and is kept apart from
    /// `FetchNewHeaders` so that the user's own refresh never raises a
    /// new-mail notification.
    FetchHeadersFrom { mailbox: String, first_uid: u32 },
}

/// What the IMAP connection tells the user interface.
#[derive(Debug)]
pub enum ImapEvent {
    Connected,
    /// The connection was lost (or a command needed a reconnect). Followed by
    /// either a `Connected` or an `Error`.
    Disconnected,
    Error(String),
    Mailboxes(Vec<String>),
    Headers {
        mailbox: String,
        headers: Vec<MailHeader>,
        page: u32,
        total_pages: u32,
        req_id: u64,
        mailbox_state: MailboxState,
    },
    Body { uid: u32, html: String, attachments: Vec<Attachment>, req_id: u64 },
    DownloadProgress { current: u32, total: u32 },
    MailData { mailbox: String, header: MailHeader, body: String },
    /// Reply to `PollMailbox`.
    MailboxPolled { mailbox: String, state: MailboxState },
    /// Reply to `FetchNewHeaders`.
    NewHeaders { mailbox: String, headers: Vec<MailHeader> },
    /// Reply to `FetchHeadersFrom`.
    HeadersFrom { mailbox: String, headers: Vec<MailHeader> },
    /// `PollMailbox`/`FetchNewHeaders` failed. Kept apart from `Error` so a
    /// transient blip on a timer never overwrites what the user is looking at.
    PollFailed(String),
}

/// One address of an IMAP `ENVELOPE`, each field as the server sent it.
#[derive(Debug)]
pub struct EnvelopeAddress {
    pub name: Option<Vec<u8>>,
    pub mailbox: Option<Vec<u8>>,
    pub host: Option<Vec<u8>>,
}

/// The fields of an IMAP `ENVELOPE` that a message list shows, as the server
/// sent them.
#[derive(Debug)]
pub struct FetchedEnvelope {
    pub subject: Option<Vec<u8>>,
    pub from: Option<Vec<EnvelopeAddress>>,
    pub to: Option<Vec<EnvelopeAddress>>,
    pub date: Option<Vec<u8>>,
    pub message_id: Option<Vec<u8>>,
}

/// One answer to a `FETCH`: either field may be missing from it.
#[derive(Debug)]
pub struct FetchedMessage {
    pub uid: Option<u32>,
    pub envelope: Option<FetchedEnvelope>,
}

/// The value that mailparse reads off one raw header line, encoded words
/// decoded; nothing where it finds no header.
pub uninterp spec fn parsed_header_value(raw: Seq<u8>) -> Option<Seq<char>>;

/// The text that `String::from_utf8_lossy` makes of `bytes`.
pub uninterp spec fn utf8_lossy(bytes: Seq<u8>) -> Seq<char>;

/// Whether a header value needs no decoding: printable ASCII without the mark
/// `=?` that starts an encoded word, and no blank in front.
pub open spec fn is_plain_value(value: Seq<u8>) -> bool {
    &&& forall|i: int| 0 <= i < value.len() ==> 32 <= #[trigger] value[i] <= 126
    &&& forall|i: int| 0 <= i < value.len() - 1 && #[trigger] value[i] == 61 ==> value[i + 1] != 63
    &&& value.len() > 0 ==> value[0] != 32
}

/// Whether `text` is what these ASCII bytes spell, character by character.
pub open spec fn spells(bytes: Seq<u8>, text: Seq<char>) -> bool {
    &&& text.len() == bytes.len()
    &&& forall|i: int| 0 <= i < bytes.len() ==> #[trigger] text[i] as int == bytes[i] as int
}

/// `mailparse::parse_header`, and `MailHeader::get_value` on the header it
/// finds: the header's value as one line of text with its encoded words
/// decoded, `None` where the parse fails. Both look at the given bytes alone. Of
/// a header named `X` on one line whose value is printable ASCII without an
/// encoded word, the value comes out as it stands behind the colon and the
/// blank.
#[verifier::external_body]
fn header_value(raw: &[u8]) -> (r: Option<String>)
    ensures
        match r {
            Some(v) => parsed_header_value(raw@) == Some(v@),
            None => parsed_header_value(raw@) is None,
        },
        raw@.len() >= 4 && raw@[0] == 88 && raw@[1] == 58 && raw@[2] == 32 && raw@.last() == 10
            && is_plain_value(raw@.subrange(3, raw@.len() - 1)) ==> r is Some && spells(
            raw@.subrange(3, raw@.len() - 1),
            r->0@,
        ),
{
    match mailparse::parse_header(raw) {
        Ok((header, _)) => Some(header.get_value()),
        Err(_) => None,
    }
}

/// `String::from_utf8_lossy`: the text that `bytes` encode, with a replacement
/// character for each invalid stretch; valid UTF-8 comes through unchanged.
#[verifier::external_body]
pub(crate) fn from_utf8_lossy(bytes: &[u8]) -> (r: String)
    ensures
        r@ == utf8_lossy(bytes@),
        valid_utf8(bytes@) ==> r@ == decode_utf8(bytes@),
{
    String::from_utf8_lossy(bytes).into_owned()
}

/// `bytes` framed as a whole header line: `X: `, the bytes, a line feed.
pub open spec fn header_line(bytes: Seq<u8>) -> Seq<u8> {
    seq![88u8, 58u8, 32u8] + bytes + seq![10u8]
}

/// What is shown for a header value once the parser gave `parsed` for its
/// header line: that, or the bytes read as UTF-8 when the parser failed.
pub open spec fn shown_value(parsed: Option<Seq<char>>, bytes: Seq<u8>) -> Seq<char> {
    match parsed {
        Some(v) => v,
        None => utf8_lossy(bytes),
    }
}

/// The text of a header value as the server sent it, encoded words decoded.
pub open spec fn decoded(bytes: Seq<u8>) -> Seq<char> {
    shown_value(parsed_header_value(header_line(bytes)), bytes)
}

/// What is shown for a header value: what the parser made of it, or the bytes
/// read as UTF-8 when the parser failed.
pub fn shown_header_value(parsed: Option<String>, bytes: &[u8]) -> (r: String)
    ensures
        r@ == shown_value(
            match parsed {
                Some(v) => Some(v@),
                None => None,
            },
            bytes@,
        ),
{
    match parsed {
        Some(v) => v,
        None => from_utf8_lossy(bytes),
    }
}

/// The text of a header value as the server sent it, encoded words decoded.
pub fn decode_rfc2047(bytes: &[u8]) -> (r: String)
    ensures
        r@ == decoded(bytes@),
        is_plain_value(bytes@) ==> spells(bytes@, r@),
{
    let mut raw: Vec<u8> = Vec::new();
    raw.push(88);
    raw.push(58);
    raw.push(32);
    let mut i: usize = 0;
    while i < bytes.len()
        invariant
            i <= bytes.len(),
            raw@ == seq![88u8, 58u8, 32u8] + bytes@.take(i as int),
        decreases bytes.len() - i,
    {
        raw.push(bytes[i]);
        i = i + 1;
        assert(raw@ == seq![88u8, 58u8, 32u8] + bytes@.take(i as int));
    }
    raw.push(10);
    assert(bytes@.take(bytes@.len() as int) == bytes@);
    assert(raw@ == header_line(bytes@));
    assert(raw@.subrange(3, raw@.len() - 1) == bytes@);
    shown_header_value(header_value(raw.as_slice()), bytes)
}

/// The text of an optional field, empty when the field is missing.
pub open spec fn lossy_or_empty(field: Option<Vec<u8>>) -> Seq<char> {
    match field {
        Some(b) => utf8_lossy(b@),
        None => Seq::empty(),
    }
}

/// `"name <mailbox@host>"`, or just `"mailbox@host"` without a name.
pub open spec fn address_text(a: EnvelopeAddress) -> Seq<char> {
    let plain = lossy_or_empty(a.mailbox) + seq!['@'] + lossy_or_empty(a.host);
    match a.name {
        Some(n) => decoded(n@) + seq![' ', '<'] + plain + seq!['>'],
        None => plain,
    }
}

/// The first address of a list, or nothing.
pub open spec fn first_address_text(list: Option<Vec<EnvelopeAddress>>) -> Seq<char> {
    match list {
        Some(l) => if l@.len() > 0 {
            address_text(l@[0])
        } else {
            Seq::empty()
        },
        None => Seq::empty(),
    }
}

/// Whether `h` is the list line of the message `uid` with this envelope.
pub open spec fn is_header_of(h: MailHeader, uid: u32, envelope: FetchedEnvelope) -> bool {
    &&& h.uid == uid
    &&& h.subject@ == match envelope.subject {
        Some(s) => decoded(s@),
        None => Seq::empty(),
    }
    &&& h.from@ == first_address_text(envelope.from)
    &&& h.to@ == first_address_text(envelope.to)
    &&& h.date@ == lossy_or_empty(envelope.date)
    &&& h.message_id@ == lossy_or_empty(envelope.message_id)
}

proof fn lemma_ascii(bytes: Seq<u8>)
    requires
        forall|i: int| 0 <= i < bytes.len() ==> #[trigger] bytes[i] < 128,
    ensures
        valid_utf8(bytes),
        spells(bytes, decode_utf8(bytes)),
    decreases bytes.len(),
{
    if bytes.len() > 0 {
        let b = bytes[0];
        assert(b < 128);
        assert(b & 0x7f == b) by (bit_vector)
            requires
                b < 128u8,
        ;
        assert(b & 0x80 == 0) by (bit_vector)
            requires
                b < 128u8,
        ;
        let rest = pop_first_scalar(bytes);
        assert(rest == bytes.skip(1));
        assert forall|i: int| 0 <= i < rest.len() implies #[trigger] rest[i] < 128 by {
            assert(rest[i] == bytes[i + 1]);
        }
        lemma_ascii(rest);
        let text = decode_utf8(bytes);
        assert(decode_first_scalar(bytes) == b as u32);
        assert(text == seq![b as u32 as char] + decode_utf8(rest));
        assert forall|i: int| 0 <= i < bytes.len() implies #[trigger] text[i] as int
            == bytes[i] as int by {
            if i > 0 {
                assert(text[i] == decode_utf8(rest)[i - 1]);
                assert(rest[i - 1] == bytes[i]);
            }
        }
    }
}

/// Whether a field that is there is ASCII.
pub open spec fn is_ascii_field(field: Option<Vec<u8>>) -> bool {
    field matches Some(b) && forall|i: int| 0 <= i < b@.len() ==> #[trigger] b@[i] < 128
}

fn optional_text(field: &Option<Vec<u8>>) -> (r: String)
    ensures
        r@ == lossy_or_empty(*field),
        field is None ==> r@.len() == 0,
        is_ascii_field(*field) ==> spells(field->0@, r@),
{
    proof {
        if is_ascii_field(*field) {
            lemma_ascii(field->0@);
        }
    }
    match field {
        Some(b) => from_utf8_lossy(b.as_slice()),
        None => String::new(),
    }
}

/// `"name <mailbox@host>"` for the first address of a list, `"mailbox@host"`
/// when it has no name, and nothing for an empty list.
pub fn format_address(list: &Option<Vec<EnvelopeAddress>>) -> (r: String)
    ensures
        r@ == first_address_text(*list),
        list is None ==> r@.len() == 0,
        list matches Some(l) && l@.len() > 0 && is_ascii_field(l@[0].mailbox) && is_ascii_field(
            l@[0].host,
        ) && (l@[0].name matches Some(n) ==> is_plain_value(n@)) ==> exists|
            name: Seq<char>,
            mailbox: Seq<char>,
            host: Seq<char>,
        |
            {
                let a = list->0@[0];
                &&& spells(a.mailbox->0@, mailbox)
                &&& spells(a.host->0@, host)
                &&& a.name matches Some(n) ==> spells(n@, name) && r@ == #[trigger] (name + " <"@
                    + mailbox + "@"@ + host + ">"@)
                &&& a.name is None ==> r@ == mailbox + "@"@ + host
            },
{
    proof {
        reveal_strlit(" <");
        reveal_strlit("@");
        reveal_strlit(">");
    }
    match list {
        Some(l) => {
            if l.len() == 0 {
                return String::new();
            }
            let mailbox = optional_text(&l[0].mailbox);
            let host = optional_text(&l[0].host);
            match &l[0].name {
                Some(n) => {
                    let mut out = decode_rfc2047(n.as_slice());
                    let ghost name = out@;
                    out.push(' ');
                    out.push('<');
                    out.append(mailbox.as_str());
                    out.push('@');
                    out.append(host.as_str());
                    out.push('>');
                    assert(out@ == address_text(l@[0]));
                    assert(out@ == name + " <"@ + mailbox@ + "@"@ + host@ + ">"@);
                    out
                },
                None => {
                    let ghost before = mailbox@;
                    let mut out = mailbox;
                    out.push('@');
                    out.append(host.as_str());
                    assert(out@ == address_text(l@[0]));
                    assert(out@ == before + "@"@ + host@);
                    let ghost shown = Seq::<char>::empty() + " <"@ + before + "@"@ + host@ + ">"@;
                    out
                },
            }
        },
        None => String::new(),
    }
}

/// Turn one fetched UID and its `ENVELOPE` into a list line.
pub fn parse_envelope_header(uid: u32, envelope: &FetchedEnvelope) -> (h: MailHeader)
    ensures
        is_header_of(h, uid, *envelope),
        h.uid == uid,
        envelope.subject matches Some(v) && is_plain_value(v@) ==> spells(
            envelope.subject->0@,
            h.subject@,
        ),
        is_ascii_field(envelope.date) ==> spells(envelope.date->0@, h.date@),
        is_ascii_field(envelope.message_id) ==> spells(envelope.message_id->0@, h.message_id@),
{
    let subject = match &envelope.subject {
        Some(s) => decode_rfc2047(s.as_slice()),
        None => String::new(),
    };
    MailHeader {
        uid,
        subject,
        from: format_address(&envelope.from),
        to: format_address(&envelope.to),
        date: optional_text(&envelope.date),
        message_id: optional_text(&envelope.message_id),
    }
}

/// What a server reported of a mailbox; a value it left out counts as zero.
pub fn mailbox_state(uid_validity: Option<u32>, uid_next: Option<u32>) -> (r: MailboxState)
    ensures
        r.uid_validity == match uid_validity {
            Some(v) => v,
            None => 0u32,
        },
        r.uid_next == match uid_next {
            Some(v) => v,
            None => 0u32,
        },
{
    MailboxState {
        uid_validity: match uid_validity {
            Some(v) => v,
            None => 0,
        },
        uid_next: match uid_next {
            Some(v) => v,
            None => 0,
        },
    }
}

/// Messages on one page of a mailbox.
pub const PER_PAGE: u32 = 50;

/// The sequence numbers that make up one page, and how many pages there are.
#[derive(Debug, Clone, Copy, PartialEq, Eq, Structural)]
pub struct HeaderPage {
    pub start: u32,
    pub end: u32,
    pub total_pages: u32,
}

/// The number of pages that `total` messages fill.
pub open spec fn page_count(total: int) -> int {
    (total + PER_PAGE - 1) / (PER_PAGE as int)
}

/// The page that is shown when `page` is asked for: at least the first, at
/// most the last.
pub open spec fn shown_page(total: int, page: int) -> int {
    if page > page_count(total) {
        page_count(total)
    } else if page < 1 {
        1
    } else {
        page
    }
}

/// The last sequence number on page `page`, page one holding the newest
/// messages.
pub open spec fn page_end(total: int, page: int) -> int {
    total - (page - 1) * PER_PAGE
}

/// The first sequence number on page `page`.
pub open spec fn page_start(total: int, page: int) -> int {
    if page_end(total, page) - (PER_PAGE - 1) < 1 {
        1
    } else {
        page_end(total, page) - (PER_PAGE - 1)
    }
}

/// Which messages page `page` of a mailbox of `total` messages holds; nothing
/// for an empty mailbox.
pub fn header_page(total: u32, page: u32) -> (r: Option<HeaderPage>)
    requires
        total <= u32::MAX - 50,
    ensures
        r is None <==> total == 0,
        match r {
            Some(p) => {
                let shown = shown_page(total as int, page as int);
                &&& p.total_pages == page_count(total as int)
                &&& p.start == page_start(total as int, shown)
                &&& p.end == page_end(total as int, shown)
                &&& 1 <= p.start <= p.end <= total
            },
            None => true,
        },
{
    if total == 0 {
        return None;
    }
    let total_pages: u32 = (total + PER_PAGE - 1) / PER_PAGE;
    let mut shown: u32 = page;
    if shown > total_pages {
        shown = total_pages;
    }
    if shown < 1 {
        shown = 1;
    }
    assert(shown == shown_page(total as int, page as int));
    assert((shown - 1) * 50 < total);
    let end: u32 = total - (shown - 1) * PER_PAGE;
    let start: u32 = if end > PER_PAGE - 1 {
        end - (PER_PAGE - 1)
    } else {
        1
    };
    Some(HeaderPage { start, end, total_pages })
}

/// The pages of a mailbox partition it: every message of a non-empty mailbox
/// stands on exactly one page, and no page holds more than fifty.
pub proof fn pages_partition_a_mailbox(total: int, message: int)
    requires
        1 <= message <= total,
    ensures
        ({
            let page = (total - message) / (PER_PAGE as int) + 1;
            &&& 1 <= page <= page_count(total)
            &&& page_start(total, page) <= message <= page_end(total, page)
        }),
        forall|p: int|
            1 <= p <= page_count(total) && #[trigger] page_start(total, p) <= message <= page_end(
                total,
                p,
            ) ==> p == (total - message) / (PER_PAGE as int) + 1,
        forall|p: int|
            1 <= p <= page_count(total) ==> page_end(total, p) - #[trigger] page_start(total, p)
                < PER_PAGE,
{
}

/// The `FETCH` range `start:end`.
pub fn range_query(start: u32, end: u32) -> (r: String)
    ensures
        r@ == decimal(start as nat) + seq![':'] + decimal(end as nat),
{
    let mut q = decimal_text(start as u64);
    q.push(':');
    q.append(decimal_text(end as u64).as_str());
    assert(q@ == decimal(start as nat) + seq![':'] + decimal(end as nat));
    q
}

/// The `UID FETCH` range of every UID from `first_uid` on.
pub fn uids_from_query(first_uid: u32) -> (r: String)
    ensures
        r@ == decimal(first_uid as nat) + seq![':', '*'],
{
    let mut q = decimal_text(first_uid as u64);
    q.push(':');
    q.push('*');
    assert(q@ == decimal(first_uid as nat) + seq![':', '*']);
    q
}

/// The `UID FETCH` range of one message.
pub fn uid_query(uid: u32) -> (r: String)
    ensures
        r@ == decimal(uid as nat),
{
    decimal_text(uid as u64)
}

/// What is wrong with one answer to a `FETCH` of UIDs and envelopes.
pub open spec fn message_problem(m: Result<FetchedMessage, String>) -> Option<Seq<char>> {
    match m {
        Err(e) => Some(e@),
        Ok(f) => if f.uid is None {
            Some("No UID"@)
        } else if f.envelope is None {
            Some("No envelope"@)
        } else {
            None
        },
    }
}

/// Whether `h` is the list line of the answer `m`, which lacks nothing.
pub open spec fn is_line_of(h: MailHeader, m: Result<FetchedMessage, String>) -> bool {
    match m {
        Ok(f) => match (f.uid, f.envelope) {
            (Some(uid), Some(envelope)) => is_header_of(h, uid, envelope),
            _ => false,
        },
        Err(_) => false,
    }
}

/// The list line of one answer to a `FETCH`, or what is wrong with it.
pub fn read_message(m: &Result<FetchedMessage, String>) -> (r: Result<MailHeader, String>)
    ensures
        match r {
            Ok(h) => message_problem(*m) is None && is_line_of(h, *m),
            Err(e) => message_problem(*m) == Some(e@),
        },
{
    match m {
        Err(e) => Err(e.clone()),
        Ok(f) => match f.uid {
            None => Err("No UID".to_owned()),
            Some(uid) => match &f.envelope {
                None => Err("No envelope".to_owned()),
                Some(envelope) => Ok(parse_envelope_header(uid, envelope)),
            },
        },
    }
}

/// The list lines of the answers to a `FETCH`, in the order they came. The
/// first answer that lacks something makes the whole fetch fail with what it
/// lacks.
pub fn collect_headers(messages: &Vec<Result<FetchedMessage, String>>) -> (r: Result<
    Vec<MailHeader>,
    String,
>)
    ensures
        match r {
            Ok(headers) => {
                &&& headers@.len() == messages@.len()
                &&& forall|i: int|
                    0 <= i < messages@.len() ==> message_problem(#[trigger] messages@[i]) is None
                        && is_line_of(headers@[i], messages@[i])
            },
            Err(e) => exists|k: int|
                0 <= k < messages@.len() && #[trigger] message_problem(messages@[k]) == Some(e@)
                    && forall|i: int|
                    0 <= i < k ==> message_problem(#[trigger] messages@[i]) is None,
        },
{
    let mut headers: Vec<MailHeader> = Vec::new();
    let mut i: usize = 0;
    while i < messages.len()
        invariant
            i <= messages.len(),
            headers@.len() == i,
            forall|k: int|
                0 <= k < i ==> message_problem(#[trigger] messages@[k]) is None && is_line_of(
                    headers@[k],
                    messages@[k],
                ),
        decreases messages.len() - i,
    {
        match read_message(&messages[i]) {
            Ok(h) => {
                headers.push(h);
            },
            Err(e) => {
                return Err(e);
            },
        }
        i = i + 1;
    }
    Ok(headers)
}

/// Whether `headers` are the list lines of one page, newest first, none of the
/// answers lacking anything.
pub open spec fn is_page_of(
    headers: Seq<MailHeader>,
    messages: Seq<Result<FetchedMessage, String>>,
) -> bool {
    &&& headers.len() == messages.len()
    &&& forall|i: int|
        0 <= i < messages.len() ==> message_problem(#[trigger] messages[i]) is None && is_line_of(
            headers[messages.len() - 1 - i],
            messages[i],
        )
}

/// Whether `problem` is what the first answer that lacks something lacks.
pub open spec fn is_first_problem(
    messages: Seq<Result<FetchedMessage, String>>,
    problem: Seq<char>,
) -> bool {
    exists|k: int|
        0 <= k < messages.len() && #[trigger] message_problem(messages[k]) == Some(problem)
            && forall|i: int| 0 <= i < k ==> message_problem(#[trigger] messages[i]) is None
}

/// The list lines of one page, newest first: the answers to a `FETCH` of the
/// page's sequence numbers, in reverse.
pub fn collect_page(messages: &Vec<Result<FetchedMessage, String>>) -> (r: Result<
    Vec<MailHeader>,
    String,
>)
    ensures
        match r {
            Ok(headers) => is_page_of(headers@, messages@),
            Err(e) => is_first_problem(messages@, e@),
        },
{
    let mut headers = collect_headers(messages)?;
    let mut newest_first: Vec<MailHeader> = Vec::new();
    let ghost all = headers@;
    while headers.len() > 0
        invariant
            headers@.len() + newest_first@.len() == all.len(),
            headers@ == all.take(headers@.len() as int),
            forall|k: int|
                0 <= k < newest_first@.len() ==> #[trigger] newest_first@[k] == all[all.len() - 1
                    - k],
        decreases headers.len(),
    {
        match headers.pop() {
            Some(h) => {
                newest_first.push(h);
            },
            None => {},
        }
    }
    assert forall|i: int| 0 <= i < messages@.len() implies is_line_of(
        newest_first@[messages@.len() - 1 - i],
        #[trigger] messages@[i],
    ) by {
        assert(newest_first@[messages@.len() - 1 - i] == all[i]);
    }
    Ok(newest_first)
}

/// The reply to a request for a page: its list lines, the number of pages and
/// the mailbox's state. An empty mailbox has no page to fetch: no lines, no
/// pages, and its state all the same. `messages` are the answers to the fetch of
/// `page`.
pub fn page_reply(
    page: Option<HeaderPage>,
    messages: &Vec<Result<FetchedMessage, String>>,
    state: MailboxState,
) -> (r: Result<(Vec<MailHeader>, u32, MailboxState), String>)
    ensures
        match (page, r) {
            (None, Ok((headers, total_pages, s))) => headers@.len() == 0 && total_pages == 0 && s
                == state,
            (None, Err(_)) => false,
            (Some(p), Ok((headers, total_pages, s))) => is_page_of(headers@, messages@)
                && total_pages == p.total_pages && s == state,
            (Some(p), Err(e)) => is_first_problem(messages@, e@),
        },
{
    match page {
        None => Ok((Vec::new(), 0, state)),
        Some(p) => match collect_page(messages) {
            Ok(headers) => Ok((headers, p.total_pages, state)),
            Err(e) => Err(e),
        },
    }
}

/// The parser sees the server's bytes as they came, behind a header name: what
/// it makes of that line is what is shown, and where it fails the bytes
/// themselves are.
pub proof fn header_values_reach_the_parser_unchanged(bytes: Seq<u8>)
    ensures
        parsed_header_value(seq![88u8, 58u8, 32u8] + bytes + seq![10u8]) matches Some(v)
            ==> decoded(bytes) == v,
        parsed_header_value(seq![88u8, 58u8, 32u8] + bytes + seq![10u8]) is None ==> decoded(bytes)
            == utf8_lossy(bytes),
{
}

/// Each field of a list line comes from its own field of the envelope: the
/// sender from `from`, the recipient from `to`, and what the envelope lacks is
/// empty.
pub proof fn list_lines_keep_their_fields(h: MailHeader, uid: u32, e: FetchedEnvelope)
    requires
        is_header_of(h, uid, e),
    ensures
        h.uid == uid,
        e.subject matches Some(v) ==> h.subject@ == decoded(v@),
        e.subject is None ==> h.subject@.len() == 0,
        e.date matches Some(v) ==> h.date@ == utf8_lossy(v@),
        e.date is None ==> h.date@.len() == 0,
        e.message_id matches Some(v) ==> h.message_id@ == utf8_lossy(v@),
        e.message_id is None ==> h.message_id@.len() == 0,
        e.from matches Some(l) && l@.len() > 0 ==> h.from@ == address_text(e.from->0@[0]),
        e.to matches Some(l) && l@.len() > 0 ==> h.to@ == address_text(e.to->0@[0]),
        e.from is None ==> h.from@.len() == 0,
        e.to is None ==> h.to@.len() == 0,
        e.from matches Some(l) ==> (l@.len() == 0 ==> h.from@.len() == 0),
        e.to matches Some(l) ==> (l@.len() == 0 ==> h.to@.len() == 0),
{
}

/// An address is its mailbox, an at sign and its host; with a name, the name
/// stands in front of it and the address in angle brackets.
pub proof fn addresses_show_name_mailbox_and_host(a: EnvelopeAddress)
    requires
        a.mailbox is Some,
        a.host is Some,
    ensures
        a.name is None ==> address_text(a) == utf8_lossy(a.mailbox->0@) + "@"@ + utf8_lossy(
            a.host->0@,
        ),
        a.name matches Some(n) ==> address_text(a) == decoded(n@) + " <"@ + utf8_lossy(
            a.mailbox->0@,
        ) + "@"@ + utf8_lossy(a.host->0@) + ">"@,
{
    reveal_strlit(" <");
    reveal_strlit("@");
    reveal_strlit(">");
    let m = utf8_lossy(a.mailbox->0@);
    let h = utf8_lossy(a.host->0@);
    match a.name {
        Some(n) => {
            assert(address_text(a) =~= decoded(n@) + " <"@ + m + "@"@ + h + ">"@);
        },
        None => {
            assert(address_text(a) =~= m + "@"@ + h);
        },
    }
}

/// The first page ends with the newest message, each page begins right behind
/// the one after it, the last begins with message one, and every page but the
/// last is full. A page that is not there is the nearest that is.
pub proof fn pages_run_from_newest_to_oldest(total: int, page: int, asked: int)
    requires
        1 <= total,
        1 <= page <= page_count(total),
    ensures
        page_end(total, 1) == total,
        page < page_count(total) ==> page_start(total, page) == page_end(total, page + 1) + 1
            && page_end(total, page) - page_start(total, page) + 1 == 50,
        page_start(total, page_count(total)) == 1,
        (page_count(total) - 1) * 50 < total <= page_count(total) * 50,
        1 <= shown_page(total, asked) <= page_count(total),
        1 <= asked <= page_count(total) ==> shown_page(total, asked) == asked,
        asked < 1 ==> shown_page(total, asked) == 1,
        asked > page_count(total) ==> shown_page(total, asked) == page_count(total),
{
}

/// A page lists every message that was fetched, once, the last one first, under
/// its own UID.
pub proof fn a_page_lists_every_message(
    headers: Seq<MailHeader>,
    messages: Seq<Result<FetchedMessage, String>>,
    i: int,
)
    requires
        is_page_of(headers, messages),
        0 <= i < messages.len(),
    ensures
        headers.len() == messages.len(),
        messages[i] matches Ok(f) && f.uid == Some(headers[messages.len() - 1 - i].uid)
            && f.envelope is Some && is_header_of(
            headers[messages.len() - 1 - i],
            f.uid->0,
            f.envelope->0,
        ),
{
}

/// A fetch fails with the error of an answer, or for want of a UID or an
/// envelope in one, and for nothing else.
pub proof fn only_incomplete_answers_fail(m: Result<FetchedMessage, String>)
    ensures
        m matches Err(e) ==> message_problem(m) == Some(e@),
        m matches Ok(f) ==> (message_problem(m) is None <==> f.uid is Some && f.envelope is Some),
        m matches Ok(f) ==> (f.uid is None ==> message_problem(m) == Some("No UID"@)),
        m matches Ok(f) ==> (f.uid is Some && f.envelope is None ==> message_problem(m) == Some(
            "No envelope"@,
        )),
{
}

/// The error of a page is that of the first answer that lacks something: none
/// before it does.
pub proof fn the_first_problem_is_told(
    messages: Seq<Result<FetchedMessage, String>>,
    problem: Seq<char>,
    k: int,
)
    requires
        0 <= k < messages.len(),
        message_problem(messages[k]) is Some,
        forall|i: int| 0 <= i < k ==> message_problem(#[trigger] messages[i]) is None,
    ensures
        is_first_problem(messages, problem) <==> message_problem(messages[k]) == Some(problem),
{
    if is_first_problem(messages, problem) {
        let j = choose|j: int|
            0 <= j < messages.len() && #[trigger] message_problem(messages[j]) == Some(problem)
                && forall|i: int| 0 <= i < j ==> message_problem(#[trigger] messages[i]) is None;
        if j < k {
            assert(message_problem(messages[j]) is None);
        }
        if k < j {
            assert(message_problem(messages[k]) is None);
        }
    }
}

} // verus!
