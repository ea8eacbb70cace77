//! Sending mail: who a message goes to, what it is made of, and how the
//! server is reached. A failed send is reported and leaves the typed text
//! intact; there is no retry queue.
use vstd::prelude::*;

use lettre::message::{Attachment, Message, MessageBuilder, MultiPart, SinglePart};
use lettre::message::header::ContentType;

use crate::compose::{copy_bytes, ComposeState};
use crate::config::TlsMode;
use crate::text::{
    after_last, ascii_lowered, chars_of, index_of, is_just, is_white, lemma_after_last_is,
    lemma_index_of, lemma_trimmed_end_is_prefix, lemma_trimmed_start_is_suffix, same_text, split,
    split_text, text_between, texts, texts_are_split_at_separators, the_last_separator_counts,
    to_ascii_lower, trim, trimmed, trimmed_end, trimmed_start,
};

verus! {

/// Everything sending needs that isn't in the [`ComposeState`] itself. `P` is
/// the type that carries a password.
#[derive(Debug)]
pub struct SmtpAccount<P> {
    pub host: String,
    pub port: u16,
    pub tls: TlsMode,
    pub username: String,
    pub password: P,
    /// `"Display Name <address@host>"` (or just the bare address): this
    /// account's own address, used as the `From`.
    pub from_address: String,
}

/// What the user interface asks of the sending side.
#[derive(Debug)]
pub enum SmtpCommand<P> {
    Send { account: SmtpAccount<P>, compose: ComposeState },
}

/// What the sending side answers.
#[derive(Debug)]
pub enum SmtpEvent {
    Sent,
    Error(String),
}

/// What is reported of a send.
pub fn send_event(outcome: Result<(), String>) -> (r: SmtpEvent)
    ensures
        r == match outcome {
            Ok(_) => SmtpEvent::Sent,
            Err(e) => SmtpEvent::Error(e),
        },
{
    match outcome {
        Ok(_) => SmtpEvent::Sent,
        Err(e) => SmtpEvent::Error(e),
    }
}

/// How a server is reached.
#[derive(Debug, Clone, Copy, PartialEq, Eq, Structural)]
pub enum Relay {
    /// TLS from the first byte.
    Tls,
    /// A plaintext connection upgraded with `STARTTLS`.
    StartTls,
    /// No transport security; only useful for a local or test server.
    Unprotected,
}

/// How the server of an account with this setting is reached.
pub fn relay_kind(tls: TlsMode) -> (r: Relay)
    ensures
        r == match tls {
            TlsMode::Ssl => Relay::Tls,
            TlsMode::StartTls => Relay::StartTls,
            TlsMode::Plaintext => Relay::Unprotected,
        },
{
    match tls {
        TlsMode::Ssl => Relay::Tls,
        TlsMode::StartTls => Relay::StartTls,
        TlsMode::Plaintext => Relay::Unprotected,
    }
}

/// The entries of a list that are not blank, trimmed.
pub open spec fn nonblank(pieces: Seq<Seq<char>>) -> Seq<Seq<char>>
    decreases pieces.len(),
{
    if pieces.len() == 0 {
        Seq::empty()
    } else {
        let rest = nonblank(pieces.drop_last());
        let last = trimmed(pieces.last());
        if last.len() == 0 {
            rest
        } else {
            rest.push(last)
        }
    }
}

/// The addresses of a comma-separated field.
pub open spec fn addresses(field: Seq<char>) -> Seq<Seq<char>> {
    nonblank(split(field, ','))
}

/// Comma-separated addresses, e.g. from a To/Cc/Bcc field, trimmed and with
/// empty entries (a trailing comma, blank field) dropped.
pub fn split_addresses(field: &str) -> (r: Vec<String>)
    ensures
        texts(r@) == addresses(field@),
{
    let pieces = split_text(field, ',');
    let ghost all = texts(pieces@);
    let mut out: Vec<String> = Vec::new();
    let mut i: usize = 0;
    assert(texts(out@) == nonblank(all.take(0)));
    while i < pieces.len()
        invariant
            i <= pieces.len(),
            all == texts(pieces@),
            texts(out@) == nonblank(all.take(i as int)),
        decreases pieces.len() - i,
    {
        assert(all.take(i + 1).drop_last() == all.take(i as int));
        assert(all.take(i + 1).last() == pieces@[i as int]@);
        let piece = trim(pieces[i].as_str());
        let ghost before = out@;
        if !piece.as_str().is_empty() {
            out.push(piece);
            assert(texts(out@) == texts(before).push(piece@));
        }
        i = i + 1;
    }
    assert(all.take(all.len() as int) == all);
    out
}

/// The media type of a file name's extension, lower case.
pub open spec fn mime_of_extension(ext: Seq<char>) -> Seq<char> {
    if ext == "pdf"@ {
        "application/pdf"@
    } else if ext == "png"@ {
        "image/png"@
    } else if ext == "jpg"@ || ext == "jpeg"@ {
        "image/jpeg"@
    } else if ext == "gif"@ {
        "image/gif"@
    } else if ext == "txt"@ {
        "text/plain"@
    } else if ext == "csv"@ {
        "text/csv"@
    } else if ext == "html"@ || ext == "htm"@ {
        "text/html"@
    } else if ext == "zip"@ {
        "application/zip"@
    } else if ext == "doc"@ {
        "application/msword"@
    } else if ext == "docx"@ {
        "application/vnd.openxmlformats-officedocument.wordprocessingml.document"@
    } else if ext == "xls"@ {
        "application/vnd.ms-excel"@
    } else if ext == "xlsx"@ {
        "application/vnd.openxmlformats-officedocument.spreadsheetml.sheet"@
    } else {
        "application/octet-stream"@
    }
}

/// What follows the last full stop of a file name (all of it without one), in
/// lower case.
pub open spec fn extension(filename: Seq<char>) -> Seq<char> {
    ascii_lowered(after_last(filename, is_just('.')))
}

/// A small built-in table from file name extensions to media types. Anything
/// unrecognized becomes `application/octet-stream`, which every mail client
/// treats as just an attachment.
pub fn guess_mime_type(filename: &str) -> (r: &'static str)
    ensures
        r@ == mime_of_extension(extension(filename@)),
{
    let v = chars_of(filename);
    let n: usize = v.len();
    let mut from: usize = n;
    while from > 0 && v[from - 1] != '.'
        invariant
            from <= n == v.len(),
            forall|i: int| from <= i < n ==> v@[i] != '.',
        decreases from,
    {
        from = from - 1;
    }
    proof {
        lemma_after_last_is(v@, is_just('.'), from as int);
        assert(v@.skip(from as int) == v@.subrange(from as int, n as int));
    }
    let ext = to_ascii_lower(text_between(&v, from, n).as_str());
    let e = ext.as_str();
    if same_text(e, "pdf") {
        "application/pdf"
    } else if same_text(e, "png") {
        "image/png"
    } else if same_text(e, "jpg") || same_text(e, "jpeg") {
        "image/jpeg"
    } else if same_text(e, "gif") {
        "image/gif"
    } else if same_text(e, "txt") {
        "text/plain"
    } else if same_text(e, "csv") {
        "text/csv"
    } else if same_text(e, "html") || same_text(e, "htm") {
        "text/html"
    } else if same_text(e, "zip") {
        "application/zip"
    } else if same_text(e, "doc") {
        "application/msword"
    } else if same_text(e, "docx") {
        "application/vnd.openxmlformats-officedocument.wordprocessingml.document"
    } else if same_text(e, "xls") {
        "application/vnd.ms-excel"
    } else if same_text(e, "xlsx") {
        "application/vnd.openxmlformats-officedocument.spreadsheetml.sheet"
    } else {
        "application/octet-stream"
    }
}

/// lettre's builder of a message.
#[verifier::external_type_specification]
#[verifier::external_body]
pub struct ExMessageBuilder(MessageBuilder);

/// lettre's list of body parts.
#[verifier::external_type_specification]
#[verifier::external_body]
pub struct ExMultiPart(MultiPart);

/// lettre's finished message.
#[verifier::external_type_specification]
#[verifier::external_body]
pub struct ExMessage(Message);

/// The header fields that a builder holds: their names, and their values
/// before any encoding for transport.
pub uninterp spec fn builder_fields(b: MessageBuilder) -> Map<Seq<char>, Seq<char>>;

/// Whether a builder is as `Message::builder` makes it but for its header
/// fields: its envelope is not forced, `Bcc` is not kept, and no transfer
/// encoding is set.
pub uninterp spec fn is_ordinary(b: MessageBuilder) -> bool;

/// The value of an address field once lettre read `address` and joined it to
/// what the field held before, or the text of its error where it could not
/// read the address.
pub uninterp spec fn joined_address(held: Option<Seq<char>>, address: Seq<char>) -> Result<
    Seq<char>,
    Seq<char>,
>;

/// The body parts that a list holds, each as it is formatted for transport.
pub uninterp spec fn list_parts(m: MultiPart) -> Seq<Seq<u8>>;

/// The formatted part that holds `body` as plain text.
pub uninterp spec fn text_part(body: Seq<char>) -> Seq<u8>;

/// The formatted part that attaches `data` as a file of this name and media
/// type; nothing where the media type is malformed.
pub uninterp spec fn attachment_part(
    filename: Seq<char>,
    data: Seq<u8>,
    mime: Seq<char>,
) -> Option<Seq<u8>>;

/// `body` encoded as the whole body of a message.
pub uninterp spec fn encoded_body(body: Seq<char>) -> Seq<u8>;

/// The header fields of a finished message.
pub uninterp spec fn message_fields(m: Message) -> Map<Seq<char>, Seq<char>>;

/// The body of a finished message: its encoded text alone, or its parts.
pub uninterp spec fn message_parts(m: Message) -> Seq<Seq<u8>>;

/// The addresses that a finished message is sent to.
pub uninterp spec fn message_recipients(m: Message) -> Seq<Seq<char>>;

/// What lettre makes of the address fields when it finishes a message: the
/// addresses to send to, those of `To`, `Cc` and `Bcc` in this order, or the
/// text of its error.
pub uninterp spec fn envelope_of(fields: Map<Seq<char>, Seq<char>>) -> Result<
    Seq<Seq<char>>,
    Seq<char>,
>;

/// No header fields.
pub open spec fn no_fields() -> Map<Seq<char>, Seq<char>> {
    Map::empty()
}

/// What a builder holds under a name.
pub open spec fn held(fields: Map<Seq<char>, Seq<char>>, name: Seq<char>) -> Option<Seq<char>> {
    if fields.contains_key(name) {
        Some(fields[name])
    } else {
        None
    }
}

/// `fields` with this value under `name`, unless it is an error.
pub open spec fn with_value(
    fields: Map<Seq<char>, Seq<char>>,
    name: Seq<char>,
    value: Result<Seq<char>, Seq<char>>,
) -> Result<Map<Seq<char>, Seq<char>>, Seq<char>> {
    match value {
        Ok(v) => Ok(fields.insert(name, v)),
        Err(e) => Err(e),
    }
}

/// `fields` with one more address under `name`.
pub open spec fn with_address(
    fields: Map<Seq<char>, Seq<char>>,
    name: Seq<char>,
    address: Seq<char>,
) -> Result<Map<Seq<char>, Seq<char>>, Seq<char>> {
    with_value(fields, name, joined_address(held(fields, name), address))
}

/// The header fields of a builder, or an error's text.
pub open spec fn builder_view(r: Result<MessageBuilder, String>) -> Result<
    Map<Seq<char>, Seq<char>>,
    Seq<char>,
> {
    match r {
        Ok(b) => Ok(builder_fields(b)),
        Err(e) => Err(e@),
    }
}

/// `Message::builder`: no header fields yet.
#[verifier::external_body]
fn new_builder() -> (r: MessageBuilder)
    ensures
        builder_fields(r) == no_fields(),
        is_ordinary(r),
{
    Message::builder()
}

/// `MessageBuilder::from` with the address that `str::parse` reads: sets the
/// `From` field, or adds to it.
#[verifier::external_body]
fn with_from(b: MessageBuilder, address: &str) -> (r: Result<MessageBuilder, String>)
    ensures
        builder_view(r) == with_value(
            builder_fields(b),
            "From"@,
            joined_address(held(builder_fields(b), "From"@), address@),
        ),
        r is Ok && is_ordinary(b) ==> is_ordinary(r->Ok_0),
{
    match address.parse() {
        Ok(mailbox) => Ok(b.from(mailbox)),
        Err(e) => Err(lettre::address::AddressError::to_string(&e)),
    }
}

/// `MessageBuilder::to` with the address that `str::parse` reads: sets the `To`
/// field, or adds to it.
#[verifier::external_body]
fn with_to(b: MessageBuilder, address: &str) -> (r: Result<MessageBuilder, String>)
    ensures
        builder_view(r) == with_value(
            builder_fields(b),
            "To"@,
            joined_address(held(builder_fields(b), "To"@), address@),
        ),
        r is Ok && is_ordinary(b) ==> is_ordinary(r->Ok_0),
{
    match address.parse() {
        Ok(mailbox) => Ok(b.to(mailbox)),
        Err(e) => Err(lettre::address::AddressError::to_string(&e)),
    }
}

/// `MessageBuilder::cc` with the address that `str::parse` reads: sets the `Cc`
/// field, or adds to it.
#[verifier::external_body]
fn with_cc(b: MessageBuilder, address: &str) -> (r: Result<MessageBuilder, String>)
    ensures
        builder_view(r) == with_value(
            builder_fields(b),
            "Cc"@,
            joined_address(held(builder_fields(b), "Cc"@), address@),
        ),
        r is Ok && is_ordinary(b) ==> is_ordinary(r->Ok_0),
{
    match address.parse() {
        Ok(mailbox) => Ok(b.cc(mailbox)),
        Err(e) => Err(lettre::address::AddressError::to_string(&e)),
    }
}

/// `MessageBuilder::bcc` with the address that `str::parse` reads: sets the
/// `Bcc` field, or adds to it.
#[verifier::external_body]
fn with_bcc(b: MessageBuilder, address: &str) -> (r: Result<MessageBuilder, String>)
    ensures
        builder_view(r) == with_value(
            builder_fields(b),
            "Bcc"@,
            joined_address(held(builder_fields(b), "Bcc"@), address@),
        ),
        r is Ok && is_ordinary(b) ==> is_ordinary(r->Ok_0),
{
    match address.parse() {
        Ok(mailbox) => Ok(b.bcc(mailbox)),
        Err(e) => Err(lettre::address::AddressError::to_string(&e)),
    }
}

/// `MessageBuilder::subject`: sets the `Subject` field.
#[verifier::external_body]
fn with_subject(b: MessageBuilder, subject: String) -> (r: MessageBuilder)
    ensures
        builder_fields(r) == builder_fields(b).insert("Subject"@, subject@),
        is_ordinary(b) ==> is_ordinary(r),
{
    b.subject(subject)
}

/// `MessageBuilder::in_reply_to`: sets the `In-Reply-To` field.
pub assume_specification[ MessageBuilder::in_reply_to ](b: MessageBuilder, id: String) -> (r:
    MessageBuilder)
    ensures
        builder_fields(r) == builder_fields(b).insert("In-Reply-To"@, id@),
        is_ordinary(b) ==> is_ordinary(r),
;

/// `MessageBuilder::references`: sets the `References` field.
pub assume_specification[ MessageBuilder::references ](b: MessageBuilder, id: String) -> (r:
    MessageBuilder)
    ensures
        builder_fields(r) == builder_fields(b).insert("References"@, id@),
        is_ordinary(b) ==> is_ordinary(r),
;

/// `MultiPart::mixed` with `singlepart(SinglePart::plain(..))`: a list that
/// holds the text as its one part.
#[verifier::external_body]
fn mixed_with_text(body: String) -> (r: MultiPart)
    ensures
        list_parts(r) == seq![text_part(body@)],
{
    MultiPart::mixed().singlepart(SinglePart::plain(body))
}

/// `ContentType::parse`, then `MultiPart::singlepart` with
/// `Attachment::new(..).body(..)`: adds the file at the end of the list. A
/// media type that does not parse gives the list back as it was;
/// `application/octet-stream` does parse.
#[verifier::external_body]
fn attach(list: MultiPart, filename: String, data: Vec<u8>, mime: &str) -> (r: Result<
    MultiPart,
    MultiPart,
>)
    ensures
        match attachment_part(filename@, data@, mime@) {
            Some(part) => r is Ok && list_parts(r->Ok_0) == list_parts(list).push(part),
            None => r == Err::<MultiPart, MultiPart>(list),
        },
        mime@ == "application/octet-stream"@ ==> r is Ok,
{
    match ContentType::parse(mime) {
        Ok(content_type) => Ok(
            list.singlepart(Attachment::new(filename).body(data, content_type)),
        ),
        Err(_) => Err(list),
    }
}

/// What a finished message keeps of the builder's fields: all but `Bcc`, which
/// is taken out once the recipients are known, and the fields that finishing
/// sets itself.
pub open spec fn keeps_fields(
    fields: Map<Seq<char>, Seq<char>>,
    finished: Map<Seq<char>, Seq<char>>,
) -> bool {
    &&& !finished.contains_key("Bcc"@)
    &&& forall|name: Seq<char>|
        #![trigger finished.contains_key(name)]
        name != "Bcc"@ && name != "Date"@ && name != "MIME-Version"@ && name
            != "Content-Transfer-Encoding"@ ==> {
            &&& finished.contains_key(name) == fields.contains_key(name)
            &&& fields.contains_key(name) ==> finished[name] == fields[name]
        }
}

/// `MessageBuilder::body`: the message with `body` as its text. Where it
/// succeeds, and with what error it fails, rests on the address fields alone.
/// What is not said of the finished message is its date, which is the time of
/// the call.
#[verifier::external_body]
fn finish_text(b: MessageBuilder, body: String) -> (r: Result<Message, String>)
    requires
        is_ordinary(b),
    ensures
        match r {
            Ok(m) => {
                &&& envelope_of(builder_fields(b)) == Ok::<Seq<Seq<char>>, Seq<char>>(
                    message_recipients(m),
                )
                &&& keeps_fields(builder_fields(b), message_fields(m))
                &&& message_parts(m) == seq![encoded_body(body@)]
            },
            Err(e) => envelope_of(builder_fields(b)) == Err::<Seq<Seq<char>>, Seq<char>>(e@),
        },
{
    b.body(body).map_err(|e| e.to_string())
}

/// `MessageBuilder::multipart`: the message with the parts of `list` as its
/// body. Where it succeeds, and with what error it fails, rests on the address
/// fields alone. What is not said of the finished message is its date, which
/// is the time of the call, and the random text between its parts.
#[verifier::external_body]
fn finish_mixed(b: MessageBuilder, list: MultiPart) -> (r: Result<Message, String>)
    requires
        is_ordinary(b),
    ensures
        match r {
            Ok(m) => {
                &&& envelope_of(builder_fields(b)) == Ok::<Seq<Seq<char>>, Seq<char>>(
                    message_recipients(m),
                )
                &&& keeps_fields(builder_fields(b), message_fields(m))
                &&& message_parts(m) == list_parts(list)
            },
            Err(e) => envelope_of(builder_fields(b)) == Err::<Seq<Seq<char>>, Seq<char>>(e@),
        },
{
    b.multipart(list).map_err(|e| e.to_string())
}

/// Whether `r` is the outcome of finishing a message from these fields, its
/// body being `parts`.
pub open spec fn is_finished(
    fields: Map<Seq<char>, Seq<char>>,
    parts: Seq<Seq<u8>>,
    r: Result<Message, String>,
) -> bool {
    match r {
        Ok(m) => {
            &&& envelope_of(fields) == Ok::<Seq<Seq<char>>, Seq<char>>(message_recipients(m))
            &&& keeps_fields(fields, message_fields(m))
            &&& message_parts(m) == parts
        },
        Err(e) => envelope_of(fields) == Err::<Seq<Seq<char>>, Seq<char>>(e@),
    }
}

/// `fields` with all these addresses, in order, under `name`; the error of the
/// first that cannot be read.
pub open spec fn with_addresses(
    fields: Map<Seq<char>, Seq<char>>,
    name: Seq<char>,
    list: Seq<Seq<char>>,
) -> Result<Map<Seq<char>, Seq<char>>, Seq<char>>
    decreases list.len(),
{
    if list.len() == 0 {
        Ok(fields)
    } else {
        match with_address(fields, name, list[0]) {
            Ok(more) => with_addresses(more, name, list.skip(1)),
            Err(e) => Err(e),
        }
    }
}

/// `fields` with an optional field.
pub open spec fn with_optional(
    fields: Map<Seq<char>, Seq<char>>,
    name: Seq<char>,
    value: Option<String>,
) -> Map<Seq<char>, Seq<char>> {
    match value {
        Some(v) => fields.insert(name, v@),
        None => fields,
    }
}

/// The header fields of a message from `from`: its sender, subject, recipients
/// and thread, or the error of the first address that cannot be read.
pub open spec fn draft_fields(from: Seq<char>, compose: ComposeState) -> Result<
    Map<Seq<char>, Seq<char>>,
    Seq<char>,
> {
    match with_address(no_fields(), "From"@, from) {
        Err(e) => Err(e),
        Ok(f) => match with_addresses(
            f.insert("Subject"@, compose.subject@),
            "To"@,
            addresses(compose.to@),
        ) {
            Err(e) => Err(e),
            Ok(f) => match with_addresses(f, "Cc"@, addresses(compose.cc@)) {
                Err(e) => Err(e),
                Ok(f) => match with_addresses(f, "Bcc"@, addresses(compose.bcc@)) {
                    Err(e) => Err(e),
                    Ok(f) => Ok(
                        with_optional(
                            with_optional(f, "In-Reply-To"@, compose.in_reply_to),
                            "References"@,
                            compose.references,
                        ),
                    ),
                },
            },
        },
    }
}

/// The part that attaches a file: with the media type of its name, or as plain
/// bytes where that one is malformed.
pub open spec fn file_part(filename: Seq<char>, data: Seq<u8>) -> Seq<u8> {
    match attachment_part(filename, data, mime_of_extension(extension(filename))) {
        Some(part) => part,
        None => attachment_part(filename, data, "application/octet-stream"@)->0,
    }
}

/// The body of a message: its text alone or, with attachments, its text and
/// then each file as a part of its own.
pub open spec fn draft_parts(compose: ComposeState) -> Seq<Seq<u8>> {
    if compose.attachments@.len() == 0 {
        seq![encoded_body(compose.body@)]
    } else {
        seq![text_part(compose.body@)] + compose.attachments@.map_values(
            |a: (String, Vec<u8>)| file_part(a.0@, a.1@),
        )
    }
}

/// A builder's address field.
#[derive(Debug, Clone, Copy, PartialEq, Eq, Structural)]
pub enum AddressField {
    To,
    Cc,
    Bcc,
}

/// The name of an address field.
pub open spec fn field_name(field: AddressField) -> Seq<char> {
    match field {
        AddressField::To => "To"@,
        AddressField::Cc => "Cc"@,
        AddressField::Bcc => "Bcc"@,
    }
}

fn add_addresses(builder: MessageBuilder, field: AddressField, list: &Vec<String>) -> (r: Result<
    MessageBuilder,
    String,
>)
    ensures
        builder_view(r) == with_addresses(builder_fields(builder), field_name(field), texts(list@)),
        r is Ok && is_ordinary(builder) ==> is_ordinary(r->Ok_0),
{
    let ghost all = texts(list@);
    let ghost name = field_name(field);
    let ghost start = builder_fields(builder);
    let mut b = builder;
    let mut i: usize = 0;
    assert(all.skip(0) == all);
    while i < list.len()
        invariant
            i <= list.len(),
            all == texts(list@),
            name == field_name(field),
            start == builder_fields(builder),
            is_ordinary(builder) ==> is_ordinary(b),
            with_addresses(start, name, all) == with_addresses(
                builder_fields(b),
                name,
                all.skip(i as int),
            ),
        decreases list.len() - i,
    {
        assert(all.skip(i as int)[0] == list@[i as int]@);
        assert(all.skip(i as int).skip(1) == all.skip(i + 1));
        let added = match field {
            AddressField::To => with_to(b, list[i].as_str()),
            AddressField::Cc => with_cc(b, list[i].as_str()),
            AddressField::Bcc => with_bcc(b, list[i].as_str()),
        };
        match added {
            Ok(more) => {
                b = more;
            },
            Err(e) => {
                return Err(e);
            },
        }
        i = i + 1;
    }
    Ok(b)
}

fn attach_all(list: MultiPart, attachments: &Vec<(String, Vec<u8>)>) -> (r: MultiPart)
    ensures
        list_parts(r) == list_parts(list) + attachments@.map_values(
            |a: (String, Vec<u8>)| file_part(a.0@, a.1@),
        ),
{
    let ghost start = list_parts(list);
    let ghost files = attachments@.map_values(|a: (String, Vec<u8>)| file_part(a.0@, a.1@));
    let mut m = list;
    let mut i: usize = 0;
    assert(start + files.take(0) == start);
    while i < attachments.len()
        invariant
            i <= attachments.len(),
            files == attachments@.map_values(|a: (String, Vec<u8>)| file_part(a.0@, a.1@)),
            list_parts(m) == start + files.take(i as int),
        decreases attachments.len() - i,
    {
        let ghost before = list_parts(m);
        let filename = attachments[i].0.clone();
        let data = copy_bytes(&attachments[i].1);
        let mime = guess_mime_type(filename.as_str());
        match attach(m, filename, data, mime) {
            Ok(more) => {
                m = more;
            },
            Err(same) => {
                let name_again = attachments[i].0.clone();
                let data_again = copy_bytes(&attachments[i].1);
                match attach(same, name_again, data_again, "application/octet-stream") {
                    Ok(more) => {
                        m = more;
                    },
                    Err(still) => {
                        m = still;
                    },
                }
            },
        }
        assert(list_parts(m) == before.push(files[i as int]));
        i = i + 1;
        assert(before.push(files[i - 1]) == start + files.take(i as int));
    }
    assert(files.take(files.len() as int) == files);
    m
}

/// The message that a compose window holds, from this account. An address that
/// cannot be read is an error, never dropped; so is a message without a
/// recipient.
pub fn build_message<P>(account: &SmtpAccount<P>, compose: &ComposeState) -> (r: Result<
    Message,
    String,
>)
    ensures
        match draft_fields(account.from_address@, *compose) {
            Err(text) => r matches Err(e) && e@ == text,
            Ok(fields) => is_finished(fields, draft_parts(*compose), r),
        },
        r matches Ok(m) ==> {
            &&& message_fields(m).contains_key("Subject"@) && message_fields(m)["Subject"@]
                == compose.subject@
            &&& compose.in_reply_to matches Some(id) ==> message_fields(m).contains_key(
                "In-Reply-To"@,
            ) && message_fields(m)["In-Reply-To"@] == id@
            &&& compose.references matches Some(id) ==> message_fields(m).contains_key(
                "References"@,
            ) && message_fields(m)["References"@] == id@
            &&& !message_fields(m).contains_key("Bcc"@)
            &&& held(message_fields(m), "From"@) == joined_all(None, seq![account.from_address@])
            &&& held(message_fields(m), "To"@) == joined_all(None, addresses(compose.to@))
            &&& held(message_fields(m), "Cc"@) == joined_all(None, addresses(compose.cc@))
            &&& forall|i: int|
                0 <= i < compose.attachments@.len() ==> message_parts(m)[i + 1] == file_part(
                    (#[trigger] compose.attachments@[i]).0@,
                    compose.attachments@[i].1@,
                )
            &&& compose.attachments@.len() == 0 ==> message_parts(m) == seq![
                encoded_body(compose.body@),
            ]
            &&& compose.attachments@.len() > 0 ==> message_parts(m).len()
                == compose.attachments@.len() + 1 && message_parts(m)[0] == text_part(
                compose.body@,
            )
        },
{
    proof {
        lemma_field_names();
        if draft_fields(account.from_address@, *compose) is Ok {
            a_draft_has_its_fields(account.from_address@, *compose);
        }
    }
    let b = match with_from(new_builder(), account.from_address.as_str()) {
        Ok(b) => with_subject(b, compose.subject.clone()),
        Err(e) => {
            return Err(e);
        },
    };
    let b = match add_addresses(b, AddressField::To, &split_addresses(compose.to.as_str())) {
        Ok(b) => b,
        Err(e) => {
            return Err(e);
        },
    };
    let b = match add_addresses(b, AddressField::Cc, &split_addresses(compose.cc.as_str())) {
        Ok(b) => b,
        Err(e) => {
            return Err(e);
        },
    };
    let b = match add_addresses(b, AddressField::Bcc, &split_addresses(compose.bcc.as_str())) {
        Ok(b) => b,
        Err(e) => {
            return Err(e);
        },
    };
    let b = match &compose.in_reply_to {
        Some(id) => b.in_reply_to(id.clone()),
        None => b,
    };
    let b = match &compose.references {
        Some(id) => b.references(id.clone()),
        None => b,
    };
    let r = if compose.attachments.len() == 0 {
        finish_text(b, compose.body.clone())
    } else {
        let list = attach_all(mixed_with_text(compose.body.clone()), &compose.attachments);
        finish_mixed(b, list)
    };
    proof {
        let fields = draft_fields(account.from_address@, *compose)->Ok_0;
        if r is Ok {
            let finished = message_fields(r->Ok_0);
            assert(keeps_fields(fields, finished));
            assert(held(fields, "Subject"@) == Some(compose.subject@));
            assert(finished.contains_key("Subject"@) == fields.contains_key("Subject"@));
            assert(finished.contains_key("In-Reply-To"@) == fields.contains_key("In-Reply-To"@));
            assert(finished.contains_key("References"@) == fields.contains_key("References"@));
            assert(finished.contains_key("From"@) == fields.contains_key("From"@));
            assert(finished.contains_key("To"@) == fields.contains_key("To"@));
            assert(finished.contains_key("Cc"@) == fields.contains_key("Cc"@));
            all_that_was_written_is_sent(*compose, 0);
            assert forall|i: int| 0 <= i < compose.attachments@.len() implies draft_parts(
                *compose,
            )[i + 1] == file_part(
                (#[trigger] compose.attachments@[i]).0@,
                compose.attachments@[i].1@,
            ) by {
            }
            assert(message_parts(r->Ok_0) == draft_parts(*compose));
        }
    }
    r
}

/// An address that lettre cannot read, whatever the field held before.
pub open spec fn is_unreadable(address: Seq<char>) -> bool {
    forall|held: Option<Seq<char>>| (#[trigger] joined_address(held, address)) is Err
}

proof fn lemma_unreadable_address_fails(
    fields: Map<Seq<char>, Seq<char>>,
    name: Seq<char>,
    list: Seq<Seq<char>>,
    i: int,
)
    requires
        0 <= i < list.len(),
        is_unreadable(list[i]),
    ensures
        with_addresses(fields, name, list) is Err,
    decreases list.len(),
{
    if i == 0 {
        assert(joined_address(held(fields, name), list[0]) is Err);
    } else {
        match with_address(fields, name, list[0]) {
            Ok(more) => {
                assert(list.skip(1)[i - 1] == list[i]);
                lemma_unreadable_address_fails(more, name, list.skip(1), i - 1);
            },
            Err(_) => {},
        }
    }
}

/// A recipient that cannot be read makes the message fail rather than go out
/// without that recipient, whichever field it stands in.
pub proof fn unreadable_recipients_are_never_dropped(
    from: Seq<char>,
    compose: ComposeState,
    address: Seq<char>,
)
    requires
        is_unreadable(address),
        ({
            ||| addresses(compose.to@).contains(address)
            ||| addresses(compose.cc@).contains(address)
            ||| addresses(compose.bcc@).contains(address)
        }),
    ensures
        draft_fields(from, compose) is Err,
{
    match with_address(no_fields(), "From"@, from) {
        Err(_) => {},
        Ok(f) => {
            let f = f.insert("Subject"@, compose.subject@);
            let to = addresses(compose.to@);
            let cc = addresses(compose.cc@);
            let bcc = addresses(compose.bcc@);
            if to.contains(address) {
                let i = choose|i: int| 0 <= i < to.len() && to[i] == address;
                lemma_unreadable_address_fails(f, "To"@, to, i);
            }
            match with_addresses(f, "To"@, to) {
                Err(_) => {},
                Ok(f) => {
                    if cc.contains(address) {
                        let i = choose|i: int| 0 <= i < cc.len() && cc[i] == address;
                        lemma_unreadable_address_fails(f, "Cc"@, cc, i);
                    }
                    match with_addresses(f, "Cc"@, cc) {
                        Err(_) => {},
                        Ok(f) => {
                            if bcc.contains(address) {
                                let i = choose|i: int| 0 <= i < bcc.len() && bcc[i] == address;
                                lemma_unreadable_address_fails(f, "Bcc"@, bcc, i);
                            }
                        },
                    }
                },
            }
        },
    }
}

/// Every address taken from a field is trimmed and not blank, and holds no
/// comma.
pub proof fn addresses_are_trimmed_and_nonblank(field: Seq<char>)
    ensures
        forall|i: int|
            0 <= i < addresses(field).len() ==> {
                let a = #[trigger] addresses(field)[i];
                &&& a.len() > 0
                &&& !is_white(a[0])
                &&& !is_white(a.last())
                &&& !a.contains(',')
            },
{
    lemma_split_pieces(field, ',');
    lemma_nonblank_entries(split(field, ','));
}

proof fn lemma_split_pieces(s: Seq<char>, c: char)
    ensures
        forall|i: int| 0 <= i < split(s, c).len() ==> !(#[trigger] split(s, c)[i]).contains(c),
    decreases s.len(),
{
    lemma_index_of(s, c);
    let k = index_of(s, c);
    if k < s.len() {
        lemma_split_pieces(s.skip(k + 1), c);
        let rest = split(s.skip(k + 1), c);
        assert forall|i: int| 0 <= i < split(s, c).len() implies !(
        #[trigger] split(s, c)[i]).contains(c) by {
            if i == 0 {
                assert(split(s, c)[0] == s.take(k));
            } else {
                assert(split(s, c)[i] == rest[i - 1]);
            }
        }
    } else {
        assert(split(s, c)[0] == s);
    }
}

proof fn lemma_nonblank_entries(pieces: Seq<Seq<char>>)
    requires
        forall|i: int| 0 <= i < pieces.len() ==> !(#[trigger] pieces[i]).contains(','),
    ensures
        forall|i: int|
            0 <= i < nonblank(pieces).len() ==> {
                let a = #[trigger] nonblank(pieces)[i];
                &&& a.len() > 0
                &&& !is_white(a[0])
                &&& !is_white(a.last())
                &&& !a.contains(',')
            },
    decreases pieces.len(),
{
    if pieces.len() > 0 {
        let p = pieces.last();
        let drop = |c: char| is_white(c);
        lemma_nonblank_entries(pieces.drop_last());
        lemma_trimmed_start_is_suffix(p, drop);
        let t = trimmed_start(p, drop);
        lemma_trimmed_end_is_prefix(t, drop);
        let a = trimmed(p);
        assert(a == trimmed_end(t, drop));
        assert(pieces[pieces.len() - 1] == p);
        if a.len() > 0 {
            assert(a[0] == t[0]);
            assert forall|i: int| 0 <= i < a.len() implies a[i] != ',' by {
                assert(a[i] == t[i]);
                assert(t[i] == p[p.len() - t.len() + i]);
                assert(p.contains(p[p.len() - t.len() + i]));
            }
            assert(!is_white(a[0]));
            assert(!is_white(a.last()));
            let rest = nonblank(pieces.drop_last());
            assert(nonblank(pieces) == rest.push(a));
            assert forall|i: int| 0 <= i < nonblank(pieces).len() implies {
                let e = #[trigger] nonblank(pieces)[i];
                &&& e.len() > 0
                &&& !is_white(e[0])
                &&& !is_white(e.last())
                &&& !e.contains(',')
            } by {
                if i < rest.len() {
                    assert(nonblank(pieces)[i] == rest[i]);
                }
            }
        }
    }
}

proof fn lemma_field_names()
    ensures
        "Subject"@ != "Bcc"@ && "Subject"@ != "Date"@ && "Subject"@ != "MIME-Version"@ && "Subject"@
            != "Content-Transfer-Encoding"@,
        "In-Reply-To"@ != "Bcc"@ && "In-Reply-To"@ != "Date"@ && "In-Reply-To"@ != "MIME-Version"@
            && "In-Reply-To"@ != "Content-Transfer-Encoding"@,
        "References"@ != "Bcc"@ && "References"@ != "Date"@ && "References"@ != "MIME-Version"@
            && "References"@ != "Content-Transfer-Encoding"@,
        "Subject"@ != "To"@ && "Subject"@ != "Cc"@ && "Subject"@ != "From"@ && "Subject"@
            != "In-Reply-To"@ && "Subject"@ != "References"@,
        "In-Reply-To"@ != "References"@ && "In-Reply-To"@ != "To"@ && "In-Reply-To"@ != "Cc"@
            && "In-Reply-To"@ != "From"@,
        "References"@ != "To"@ && "References"@ != "Cc"@ && "References"@ != "From"@,
        "From"@ != "To"@ && "From"@ != "Cc"@ && "From"@ != "Bcc"@,
        "To"@ != "Cc"@ && "To"@ != "Bcc"@ && "Cc"@ != "Bcc"@,
        "From"@ != "Date"@ && "From"@ != "MIME-Version"@ && "From"@ != "Content-Transfer-Encoding"@,
        "To"@ != "Date"@ && "To"@ != "MIME-Version"@ && "To"@ != "Content-Transfer-Encoding"@,
        "Cc"@ != "Date"@ && "Cc"@ != "MIME-Version"@ && "Cc"@ != "Content-Transfer-Encoding"@,
{
    reveal_strlit("Subject");
    reveal_strlit("Bcc");
    reveal_strlit("Date");
    reveal_strlit("MIME-Version");
    reveal_strlit("Content-Transfer-Encoding");
    reveal_strlit("In-Reply-To");
    reveal_strlit("References");
    reveal_strlit("To");
    reveal_strlit("Cc");
    reveal_strlit("From");
    assert("Subject"@[0] == 'S');
    assert("Bcc"@[0] == 'B');
    assert("Date"@[0] == 'D');
    assert("MIME-Version"@[0] == 'M');
    assert("Content-Transfer-Encoding"@[0] == 'C');
    assert("In-Reply-To"@[0] == 'I');
    assert("References"@[0] == 'R');
    assert("To"@[0] == 'T');
    assert("Cc"@[0] == 'C');
    assert("Cc"@.len() == 2);
    assert("From"@[0] == 'F');
}

/// What an address field holds after all these addresses, each read and joined
/// to what stood there before.
pub open spec fn joined_all(start: Option<Seq<char>>, list: Seq<Seq<char>>) -> Option<Seq<char>>
    decreases list.len(),
{
    if list.len() == 0 {
        start
    } else {
        Some(joined_address(joined_all(start, list.drop_last()), list.last())->Ok_0)
    }
}

proof fn lemma_joined_all(start: Option<Seq<char>>, list: Seq<Seq<char>>)
    requires
        list.len() > 0,
    ensures
        joined_all(start, list) == joined_all(
            Some(joined_address(start, list[0])->Ok_0),
            list.skip(1),
        ),
    decreases list.len(),
{
    let next = Some(joined_address(start, list[0])->Ok_0);
    if list.len() > 1 {
        lemma_joined_all(start, list.drop_last());
        assert(list.drop_last().skip(1) == list.skip(1).drop_last());
        assert(list.skip(1).last() == list.last());
    } else {
        assert(list.drop_last() == Seq::<Seq<char>>::empty());
        assert(list.skip(1) == Seq::<Seq<char>>::empty());
        assert(joined_all(start, list.drop_last()) == start);
        assert(joined_all(next, list.skip(1)) == next);
    }
}

/// Adding addresses to a field joins every one of them, in order, and touches no
/// other field.
pub proof fn every_address_is_joined(
    fields: Map<Seq<char>, Seq<char>>,
    name: Seq<char>,
    list: Seq<Seq<char>>,
    other: Seq<char>,
)
    ensures
        with_addresses(fields, name, list) matches Ok(after) ==> {
            &&& held(after, name) == joined_all(held(fields, name), list)
            &&& other != name ==> held(after, other) == held(fields, other)
        },
        (forall|before: Option<Seq<char>>, i: int|
            0 <= i < list.len() ==> (#[trigger] joined_address(before, list[i])) is Ok)
            ==> with_addresses(fields, name, list) is Ok,
    decreases list.len(),
{
    if list.len() > 0 {
        lemma_joined_all(held(fields, name), list);
        match with_address(fields, name, list[0]) {
            Ok(more) => {
                every_address_is_joined(more, name, list.skip(1), other);
                if forall|before: Option<Seq<char>>, i: int|
                    0 <= i < list.len() ==> (#[trigger] joined_address(before, list[i])) is Ok {
                    assert forall|before: Option<Seq<char>>, i: int|
                        0 <= i < list.skip(1).len() implies (#[trigger] joined_address(
                        before,
                        list.skip(1)[i],
                    )) is Ok by {
                        assert(list.skip(1)[i] == list[i + 1]);
                    }
                }
            },
            Err(_) => {
                assert(joined_address(held(fields, name), list[0]) is Err);
            },
        }
    }
}

/// A draft has its sender, its subject, every address of its three fields, and
/// the thread it belongs to, each under its own name; a field that was left
/// empty is not there.
pub proof fn a_draft_has_its_fields(from: Seq<char>, compose: ComposeState)
    requires
        draft_fields(from, compose) is Ok,
    ensures
        ({
            let fields = draft_fields(from, compose)->Ok_0;
            &&& held(fields, "Subject"@) == Some(compose.subject@)
            &&& held(fields, "From"@) == joined_all(None, seq![from])
            &&& held(fields, "To"@) == joined_all(None, addresses(compose.to@))
            &&& held(fields, "Cc"@) == joined_all(None, addresses(compose.cc@))
            &&& held(fields, "Bcc"@) == joined_all(None, addresses(compose.bcc@))
            &&& compose.in_reply_to matches Some(id) ==> held(fields, "In-Reply-To"@) == Some(id@)
            &&& compose.in_reply_to is None ==> held(fields, "In-Reply-To"@) is None
            &&& compose.references matches Some(id) ==> held(fields, "References"@) == Some(id@)
            &&& compose.references is None ==> held(fields, "References"@) is None
        }),
{
    lemma_field_names();
    let none = no_fields();
    let sender = with_address(none, "From"@, from)->Ok_0;
    assert(seq![from].drop_last() == Seq::<Seq<char>>::empty());
    assert(joined_all(None, seq![from].drop_last()) == None::<Seq<char>>);
    let a = sender.insert("Subject"@, compose.subject@);
    let to = addresses(compose.to@);
    let cc = addresses(compose.cc@);
    let bcc = addresses(compose.bcc@);
    let b = with_addresses(a, "To"@, to)->Ok_0;
    let c = with_addresses(b, "Cc"@, cc)->Ok_0;
    let d = with_addresses(c, "Bcc"@, bcc)->Ok_0;
    let names = seq!["Subject"@, "From"@, "To"@, "Cc"@, "Bcc"@, "In-Reply-To"@, "References"@];
    assert forall|i: int| 0 <= i < names.len() implies {
        &&& #[trigger] names[i] != "To"@ ==> held(b, names[i]) == held(a, names[i])
        &&& names[i] != "Cc"@ ==> held(c, names[i]) == held(b, names[i])
        &&& names[i] != "Bcc"@ ==> held(d, names[i]) == held(c, names[i])
    } by {
        every_address_is_joined(a, "To"@, to, names[i]);
        every_address_is_joined(b, "Cc"@, cc, names[i]);
        every_address_is_joined(c, "Bcc"@, bcc, names[i]);
    }
    every_address_is_joined(a, "To"@, to, "To"@);
    every_address_is_joined(b, "Cc"@, cc, "Cc"@);
    every_address_is_joined(c, "Bcc"@, bcc, "Bcc"@);
    assert(names[0] == "Subject"@ && names[1] == "From"@ && names[2] == "To"@ && names[3] == "Cc"@
        && names[4] == "Bcc"@ && names[5] == "In-Reply-To"@ && names[6] == "References"@);
}

/// A draft whose addresses can all be read is never refused.
pub proof fn readable_drafts_are_built(from: Seq<char>, compose: ComposeState)
    requires
        forall|before: Option<Seq<char>>, a: Seq<char>|
            a == from || addresses(compose.to@).contains(a) || addresses(compose.cc@).contains(a)
                || addresses(compose.bcc@).contains(a) ==> (#[trigger] joined_address(before, a)) is Ok,
    ensures
        draft_fields(from, compose) is Ok,
{
    let to = addresses(compose.to@);
    let cc = addresses(compose.cc@);
    let bcc = addresses(compose.bcc@);
    assert(joined_address(held(no_fields(), "From"@), from) is Ok);
    let a = with_address(no_fields(), "From"@, from)->Ok_0.insert("Subject"@, compose.subject@);
    every_address_is_joined(a, "To"@, to, "To"@);
    let b = with_addresses(a, "To"@, to)->Ok_0;
    every_address_is_joined(b, "Cc"@, cc, "Cc"@);
    let c = with_addresses(b, "Cc"@, cc)->Ok_0;
    every_address_is_joined(c, "Bcc"@, bcc, "Bcc"@);
}

/// A message without attachments has one body, the encoding of all the text that
/// was written. With attachments the whole text is the first part, and every
/// file follows as a part of its own, in order, with all its bytes.
pub proof fn all_that_was_written_is_sent(compose: ComposeState, i: int)
    ensures
        compose.attachments@.len() == 0 ==> draft_parts(compose).len() == 1 && exists|
            text: Seq<char>,
        |
            draft_parts(compose)[0] == #[trigger] encoded_body(text) && text.len()
                == compose.body@.len() && forall|j: int|
                0 <= j < text.len() ==> text[j] == compose.body@[j],
        compose.attachments@.len() > 0 ==> draft_parts(compose).len() == compose.attachments@.len()
            + 1 && draft_parts(compose)[0] == text_part(compose.body@),
        0 <= i < compose.attachments@.len() ==> ({
            let name = compose.attachments@[i].0@;
            let data = compose.attachments@[i].1@;
            let part = draft_parts(compose)[i + 1];
            &&& attachment_part(name, data, mime_of_extension(extension(name))) matches Some(p)
                ==> part == p
            &&& attachment_part(name, data, mime_of_extension(extension(name))) is None ==> part
                == attachment_part(name, data, "application/octet-stream"@)->0
        }),
{
    if compose.attachments@.len() == 0 {
        assert(draft_parts(compose)[0] == encoded_body(compose.body@));
    }
}

/// Addresses are separated by commas, and by nothing else: the two sides of one
/// give their addresses on their own, a side without a comma gives itself
/// without the blanks around it, and a blank side gives none.
pub proof fn fields_are_read_address_by_address(a: Seq<char>, b: Seq<char>)
    ensures
        addresses(a + seq![','] + b) == addresses(a) + addresses(b),
        (forall|i: int| 0 <= i < a.len() ==> a[i] != ',') ==> addresses(a) == if trimmed(a).len()
            == 0 {
            Seq::<Seq<char>>::empty()
        } else {
            seq![trimmed(a)]
        },
{
    texts_are_split_at_separators(a, b, ',');
    lemma_nonblank_add(split(a, ','), split(b, ','));
    if forall|i: int| 0 <= i < a.len() ==> a[i] != ',' {
        let one = seq![a];
        assert(one.drop_last() == Seq::<Seq<char>>::empty());
        assert(nonblank(one.drop_last()) == Seq::<Seq<char>>::empty());
        assert(nonblank(one) =~= if trimmed(a).len() == 0 {
            Seq::<Seq<char>>::empty()
        } else {
            seq![trimmed(a)]
        });
    }
}

proof fn lemma_nonblank_add(a: Seq<Seq<char>>, b: Seq<Seq<char>>)
    ensures
        nonblank(a + b) == nonblank(a) + nonblank(b),
    decreases b.len(),
{
    if b.len() > 0 {
        lemma_nonblank_add(a, b.drop_last());
        assert((a + b).drop_last() == a + b.drop_last());
        assert((a + b).last() == b.last());
        assert(nonblank(a + b) =~= nonblank(a) + nonblank(b));
    } else {
        assert(a + b == a);
        assert(nonblank(a) + nonblank(b) == nonblank(a));
    }
}

/// The media type goes by what stands behind the last full stop, capitals and
/// small letters alike, whatever the name before it.
pub proof fn media_types_go_by_the_extension(base: Seq<char>, ext: Seq<char>)
    requires
        forall|i: int| 0 <= i < ext.len() ==> #[trigger] ext[i] != '.',
    ensures
        extension(base + seq!['.'] + ext) == ascii_lowered(ext),
        extension(ext) == ascii_lowered(ext),
{
    the_last_separator_counts(base, '.', ext, is_just('.'));
}

/// The known extensions have their registered types; all others are plain
/// bytes.
pub proof fn known_extensions_have_their_types(ext: Seq<char>)
    ensures
        ext == "pdf"@ ==> mime_of_extension(ext) == "application/pdf"@,
        ext == "png"@ ==> mime_of_extension(ext) == "image/png"@,
        ext == "jpg"@ || ext == "jpeg"@ ==> mime_of_extension(ext) == "image/jpeg"@,
        ext == "gif"@ ==> mime_of_extension(ext) == "image/gif"@,
        ext == "txt"@ ==> mime_of_extension(ext) == "text/plain"@,
        ext == "csv"@ ==> mime_of_extension(ext) == "text/csv"@,
        ext == "html"@ || ext == "htm"@ ==> mime_of_extension(ext) == "text/html"@,
        ext == "zip"@ ==> mime_of_extension(ext) == "application/zip"@,
        ext == "doc"@ ==> mime_of_extension(ext) == "application/msword"@,
        ext == "docx"@ ==> mime_of_extension(ext)
            == "application/vnd.openxmlformats-officedocument.wordprocessingml.document"@,
        ext == "xls"@ ==> mime_of_extension(ext) == "application/vnd.ms-excel"@,
        ext == "xlsx"@ ==> mime_of_extension(ext)
            == "application/vnd.openxmlformats-officedocument.spreadsheetml.sheet"@,
        ext.len() < 3 || ext.len() > 4 ==> mime_of_extension(ext) == "application/octet-stream"@,
        !seq![
            "pdf"@,
            "png"@,
            "jpg"@,
            "jpeg"@,
            "gif"@,
            "txt"@,
            "csv"@,
            "html"@,
            "htm"@,
            "zip"@,
            "doc"@,
            "docx"@,
            "xls"@,
            "xlsx"@,
        ].contains(ext) ==> mime_of_extension(ext) == "application/octet-stream"@,
{
    let known = seq![
        "pdf"@,
        "png"@,
        "jpg"@,
        "jpeg"@,
        "gif"@,
        "txt"@,
        "csv"@,
        "html"@,
        "htm"@,
        "zip"@,
        "doc"@,
        "docx"@,
        "xls"@,
        "xlsx"@,
    ];
    reveal_strlit("pdf");
    reveal_strlit("png");
    reveal_strlit("jpg");
    reveal_strlit("jpeg");
    reveal_strlit("gif");
    reveal_strlit("txt");
    reveal_strlit("csv");
    reveal_strlit("html");
    reveal_strlit("htm");
    reveal_strlit("zip");
    reveal_strlit("doc");
    reveal_strlit("docx");
    reveal_strlit("xls");
    reveal_strlit("xlsx");
    assert("pdf"@[0] == 'p' && "pdf"@[1] == 'd' && "pdf"@.len() == 3);
    assert("png"@[0] == 'p' && "png"@[1] == 'n' && "png"@.len() == 3);
    assert("jpg"@[0] == 'j' && "jpg"@.len() == 3);
    assert("jpeg"@[0] == 'j' && "jpeg"@.len() == 4);
    assert("gif"@[0] == 'g' && "gif"@.len() == 3);
    assert("txt"@[0] == 't' && "txt"@.len() == 3);
    assert("csv"@[0] == 'c' && "csv"@.len() == 3);
    assert("html"@[0] == 'h' && "html"@.len() == 4);
    assert("htm"@[0] == 'h' && "htm"@.len() == 3);
    assert("zip"@[0] == 'z' && "zip"@.len() == 3);
    assert("doc"@[0] == 'd' && "doc"@.len() == 3);
    assert("docx"@[0] == 'd' && "docx"@.len() == 4);
    assert("xls"@[0] == 'x' && "xls"@.len() == 3);
    assert("xlsx"@[0] == 'x' && "xlsx"@.len() == 4);
    assert(known[0] == "pdf"@ && known[1] == "png"@ && known[2] == "jpg"@ && known[3] == "jpeg"@
        && known[4] == "gif"@ && known[5] == "txt"@ && known[6] == "csv"@ && known[7] == "html"@
        && known[8] == "htm"@ && known[9] == "zip"@ && known[10] == "doc"@ && known[11] == "docx"@
        && known[12] == "xls"@ && known[13] == "xlsx"@);
}

/// The three address fields go by the names that mail gives them.
pub proof fn address_fields_have_their_names()
    ensures
        field_name(AddressField::To) == "To"@,
        field_name(AddressField::Cc) == "Cc"@,
        field_name(AddressField::Bcc) == "Bcc"@,
{
}

} // verus!
