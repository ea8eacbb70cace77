//! Safe HTML rendering for a fetched message.
//!
//! The pipeline: parse the raw RFC822 bytes, pick the first `text/html` part
//! or else the first `text/plain` part (escaped), put the message's own inline
//! parts in the place of `cid:` references, sanitize, and wrap the result in a
//! base document.
//!
//! Blocking remote images is not done here: remote URLs stay exactly as the
//! message had them, and the network layer decides whether a request happens.
use vstd::prelude::*;
use vstd::seq_lib::lemma_flatten_concat;

use crate::compose::copy_bytes;
use crate::data_uri::{base64_encode, base64_text};
use crate::references::{
    at_reference, id_view, id_views, is_id_char, lemma_named, lemma_piece_names,
    lemma_replaced_in_place, named, names, next_named, opening_quote, piece_texts, piece_views,
    pieces, pieces_from, pieces_make_up_the_text, references_are_whole, split_references,
    PieceView,
};
use crate::text::{
    ascii_lowered, brackets_come_off, has_prefix, is_white, same_text, to_ascii_lower, trim,
    trim_pair, trimmed, trimmed_pair, trimming_keeps_what_is_between,
};

verus! {

/// A file attached to a message, decoded.
#[derive(Debug)]
pub struct Attachment {
    pub filename: String,
    pub mime_type: String,
    pub data: Vec<u8>,
}

/// A file attached to a message, as mathematical values.
#[verifier::ext_equal]
pub struct AttachmentView {
    pub filename: Seq<char>,
    pub mime_type: Seq<char>,
    pub data: Seq<u8>,
}

impl View for Attachment {
    type V = AttachmentView;

    open spec fn view(&self) -> AttachmentView {
        AttachmentView {
            filename: self.filename@,
            mime_type: self.mime_type@,
            data: self.data@,
        }
    }
}

/// One part of a parsed message.
#[derive(Debug)]
pub struct MailPart {
    /// The media type, lower case, e.g. `text/html`.
    pub mimetype: String,
    /// The headers, names and decoded values, in the order they stand in.
    pub headers: Vec<(String, String)>,
    /// The body as text, where it could be decoded.
    pub body: Option<String>,
    /// The body's bytes without their transfer encoding, where it could be
    /// undone.
    pub bytes: Option<Vec<u8>>,
    /// How many parts stand directly inside this one.
    pub subparts: usize,
    /// The `filename` of its `Content-Disposition`.
    pub filename: Option<String>,
    /// The `name` of its `Content-Type`.
    pub content_name: Option<String>,
}

/// One part of a parsed message, as mathematical values.
#[verifier::ext_equal]
pub struct PartView {
    pub mimetype: Seq<char>,
    pub headers: Seq<(Seq<char>, Seq<char>)>,
    pub body: Option<Seq<char>>,
    pub bytes: Option<Seq<u8>>,
    pub subparts: usize,
    pub filename: Option<Seq<char>>,
    pub content_name: Option<Seq<char>>,
}

/// A text that may be missing, by its characters.
pub open spec fn text_view(t: Option<String>) -> Option<Seq<char>> {
    match t {
        Some(t) => Some(t@),
        None => None,
    }
}

/// A header's name and value, by their characters.
pub open spec fn header_view(h: (String, String)) -> (Seq<char>, Seq<char>) {
    (h.0@, h.1@)
}

impl View for MailPart {
    type V = PartView;

    open spec fn view(&self) -> PartView {
        PartView {
            mimetype: self.mimetype@,
            headers: self.headers@.map_values(|h: (String, String)| header_view(h)),
            body: text_view(self.body),
            bytes: match self.bytes {
                Some(b) => Some(b@),
                None => None,
            },
            subparts: self.subparts,
            filename: text_view(self.filename),
            content_name: text_view(self.content_name),
        }
    }
}

/// The parts of a message, each by its view.
pub open spec fn part_views(parts: Seq<MailPart>) -> Seq<PartView> {
    parts.map_values(|p: MailPart| p@)
}

/// What mailparse makes of a raw message: all its parts, each before the parts
/// it holds, or the text of the parser's error.
pub uninterp spec fn parsed_mail(raw: Seq<u8>) -> Result<Seq<PartView>, Seq<char>>;

/// What ammonia leaves of `html` with its default allowlist, `schemes` being
/// allowed in URLs beside the default ones.
pub uninterp spec fn ammonia_clean(html: Seq<char>, schemes: Seq<Seq<char>>) -> Seq<char>;

/// The outcome of a parse, by its views.
pub open spec fn parse_view(r: Result<Vec<MailPart>, String>) -> Result<Seq<PartView>, Seq<char>> {
    match r {
        Ok(parts) => Ok(part_views(parts@)),
        Err(e) => Err(e@),
    }
}

/// `mailparse::parse_mail`, and of each part that `ParsedMail::parts` walks
/// (pre-order, the message itself first): its media type, its headers
/// (`get_key`, `get_value`), its body (`get_body`, `get_body_raw`), the number
/// of its `subparts`, and the file names that `get_content_disposition` and its
/// media type give it. A failed parse gives the error's text. All of it rests
/// on the bytes alone.
#[verifier::external_body]
pub(crate) fn parse_mail(raw: &[u8]) -> (r: Result<Vec<MailPart>, String>)
    ensures
        parse_view(r) == parsed_mail(raw@),
        r is Ok ==> r->Ok_0@.len() > 0,
{
    match mailparse::parse_mail(raw) {
        Ok(mail) => Ok(mail.parts().map(|p| MailPart {
            mimetype: p.ctype.mimetype.clone(),
            headers: p.headers.iter().map(|h| (h.get_key(), h.get_value())).collect(),
            body: p.get_body().ok(),
            bytes: p.get_body_raw().ok(),
            subparts: p.subparts.len(),
            filename: p.get_content_disposition().params.get("filename").cloned(),
            content_name: p.ctype.params.get("name").cloned(),
        }).collect()),
        Err(e) => Err(e.to_string()),
    }
}

/// `ammonia::Builder::default` with `add_url_schemes`, then `clean`: the HTML
/// that is left of `html` once everything outside ammonia's allowlist is gone.
#[verifier::external_body]
fn clean_html(html: &str, schemes: &[&str]) -> (r: String)
    ensures
        r@ == ammonia_clean(html@, schemes@.map_values(|s: &str| s@)),
{
    ammonia::Builder::default().add_url_schemes(schemes).clean(html).to_string()
}

/// The characters that stand for `c` in escaped text.
pub open spec fn entity(c: char) -> Seq<char> {
    if c == '<' {
        "&lt;"@
    } else if c == '>' {
        "&gt;"@
    } else if c == '"' {
        "&quot;"@
    } else if c == '\'' {
        "&apos;"@
    } else if c == '`' {
        "&grave;"@
    } else if c == '/' {
        "&#47;"@
    } else if c == '&' {
        "&amp;"@
    } else if c == '=' {
        "&#61;"@
    } else if c == ' ' {
        "&#32;"@
    } else if c == '\t' {
        "&#9;"@
    } else if c == '\n' {
        "&#10;"@
    } else if c == '\u{c}' {
        "&#12;"@
    } else if c == '\r' {
        "&#13;"@
    } else if c == '\0' {
        "&#65533;"@
    } else {
        seq![c]
    }
}

/// `s` with every character that means something to an HTML parser replaced by
/// an entity.
pub open spec fn escaped(s: Seq<char>) -> Seq<char>
    decreases s.len(),
{
    if s.len() == 0 {
        s
    } else {
        escaped(s.drop_last()) + entity(s.last())
    }
}

/// `ammonia::clean_text`: `src` with each character that has a meaning in HTML
/// replaced by its entity, all others unchanged.
#[verifier::external_body]
pub(crate) fn clean_text(src: &str) -> (r: String)
    ensures
        r@ == escaped(src@),
{
    ammonia::clean_text(src)
}

/// Escaped text cannot start a tag or end one, nor end a quoted attribute: it
/// holds none of the characters that would.
pub proof fn escaped_text_is_inert(s: Seq<char>)
    ensures
        forall|i: int|
            0 <= i < escaped(s).len() ==> {
                let c = #[trigger] escaped(s)[i];
                c != '<' && c != '>' && c != '"' && c != '\''
            },
    decreases s.len(),
{
    if s.len() > 0 {
        escaped_text_is_inert(s.drop_last());
        entity_is_inert(s.last());
        assert forall|i: int| 0 <= i < escaped(s).len() implies {
            let c = #[trigger] escaped(s)[i];
            c != '<' && c != '>' && c != '"' && c != '\''
        } by {
            let head = escaped(s.drop_last());
            if i < head.len() {
                assert(escaped(s)[i] == head[i]);
            } else {
                assert(escaped(s)[i] == entity(s.last())[i - head.len()]);
            }
        }
    }
}

proof fn entity_is_inert(c: char)
    ensures
        forall|i: int|
            0 <= i < entity(c).len() ==> {
                let d = #[trigger] entity(c)[i];
                d != '<' && d != '>' && d != '"' && d != '\''
            },
{
    reveal_strlit("&lt;");
    reveal_strlit("&gt;");
    reveal_strlit("&quot;");
    reveal_strlit("&apos;");
    reveal_strlit("&grave;");
    reveal_strlit("&#47;");
    reveal_strlit("&amp;");
    reveal_strlit("&#61;");
    reveal_strlit("&#32;");
    reveal_strlit("&#9;");
    reveal_strlit("&#10;");
    reveal_strlit("&#12;");
    reveal_strlit("&#13;");
    reveal_strlit("&#65533;");
}

/// The value of the first header named `name`, upper and lower case alike.
pub open spec fn first_value(headers: Seq<(Seq<char>, Seq<char>)>, name: Seq<char>) -> Option<
    Seq<char>,
>
    decreases headers.len(),
{
    if headers.len() == 0 {
        None
    } else if ascii_lowered(headers[0].0) == ascii_lowered(name) {
        Some(headers[0].1)
    } else {
        first_value(headers.skip(1), name)
    }
}

/// The value of the first header named `name`, upper and lower case alike.
pub fn get_first_value(headers: &Vec<(String, String)>, name: &str) -> (r: Option<String>)
    ensures
        match r {
            Some(v) => first_value(
                headers@.map_values(|h: (String, String)| header_view(h)),
                name@,
            ) == Some(v@),
            None => first_value(
                headers@.map_values(|h: (String, String)| header_view(h)),
                name@,
            ) is None,
        },
{
    let wanted = to_ascii_lower(name);
    let ghost all = headers@.map_values(|h: (String, String)| header_view(h));
    let mut i: usize = 0;
    assert(all.skip(0) == all);
    while i < headers.len()
        invariant
            i <= headers.len(),
            wanted@ == ascii_lowered(name@),
            all == headers@.map_values(|h: (String, String)| header_view(h)),
            first_value(all, name@) == first_value(all.skip(i as int), name@),
        decreases headers.len() - i,
    {
        assert(all.skip(i as int)[0] == header_view(headers@[i as int]));
        let found = to_ascii_lower(headers[i].0.as_str());
        if same_text(found.as_str(), wanted.as_str()) {
            return Some(headers[i].1.clone());
        }
        assert(all.skip(i as int).skip(1) == all.skip(i + 1));
        i = i + 1;
    }
    None
}

/// The place of the first part of this media type whose body can be decoded, or
/// the number of parts when there is none.
pub open spec fn body_place(parts: Seq<PartView>, mimetype: Seq<char>) -> int
    decreases parts.len(),
{
    if parts.len() == 0 || (parts[0].mimetype == mimetype && parts[0].body is Some) {
        0
    } else {
        1 + body_place(parts.skip(1), mimetype)
    }
}

/// The body of the first part of this media type whose body can be decoded.
pub open spec fn first_body(parts: Seq<PartView>, mimetype: Seq<char>) -> Option<Seq<char>> {
    let at = body_place(parts, mimetype);
    if at < parts.len() {
        parts[at].body
    } else {
        None
    }
}

fn find_place(parts: &Vec<MailPart>, mimetype: &str) -> (at: usize)
    ensures
        at == body_place(part_views(parts@), mimetype@),
        at <= parts@.len(),
        at < parts@.len() ==> parts@[at as int].body is Some,
{
    let ghost all = part_views(parts@);
    let mut i: usize = 0;
    assert(all.skip(0) == all);
    while i < parts.len()
        invariant
            i <= parts.len(),
            all == part_views(parts@),
            body_place(all, mimetype@) == i + body_place(all.skip(i as int), mimetype@),
        decreases parts.len() - i,
    {
        assert(all.skip(i as int)[0] == parts@[i as int]@);
        if same_text(parts[i].mimetype.as_str(), mimetype) && parts[i].body.is_some() {
            return i;
        }
        assert(all.skip(i as int).skip(1) == all.skip(i + 1));
        i = i + 1;
    }
    i
}

fn find_body(parts: &Vec<MailPart>, mimetype: &str) -> (r: Option<String>)
    ensures
        text_view(r) == first_body(part_views(parts@), mimetype@),
{
    let at: usize = find_place(parts, mimetype);
    if at < parts.len() {
        assert(part_views(parts@)[at as int] == parts@[at as int]@);
        parts[at].body.clone()
    } else {
        None
    }
}

/// The text of the message's first decodable `text/html` part.
pub fn find_html(parts: &Vec<MailPart>) -> (r: Option<String>)
    ensures
        match r {
            Some(b) => first_body(part_views(parts@), "text/html"@) == Some(b@),
            None => first_body(part_views(parts@), "text/html"@) is None,
        },
{
    find_body(parts, "text/html")
}

/// The text of the message's first decodable `text/plain` part.
pub fn find_text(parts: &Vec<MailPart>) -> (r: Option<String>)
    ensures
        match r {
            Some(b) => first_body(part_views(parts@), "text/plain"@) == Some(b@),
            None => first_body(part_views(parts@), "text/plain"@) is None,
        },
{
    find_body(parts, "text/plain")
}

/// A part's content id: its `Content-ID` header without the angle brackets
/// around it.
pub open spec fn content_id_of(part: PartView) -> Option<Seq<char>> {
    match first_value(part.headers, "Content-ID"@) {
        Some(v) => Some(trimmed_pair(trimmed(v), '<', '>')),
        None => None,
    }
}

/// The `Content-ID` header's value with the surrounding `<...>` stripped:
/// `cid:` URLs never have the angle brackets even though the header itself
/// always does.
pub fn content_id(part: &MailPart) -> (r: Option<String>)
    ensures
        match r {
            Some(v) => content_id_of(part@) == Some(v@),
            None => content_id_of(part@) is None,
        },
{
    match get_first_value(&part.headers, "Content-ID") {
        Some(v) => Some(trim_pair(trim(v.as_str()).as_str(), '<', '>')),
        None => None,
    }
}

/// The `data:` URL that holds `bytes` as `mimetype`.
pub open spec fn inline_url(mimetype: Seq<char>, bytes: Seq<u8>) -> Seq<char> {
    "data:"@ + mimetype + ";base64,"@ + base64_text(bytes)
}

/// The content id under which a part can be shown: that of a part whose bytes
/// can be had.
pub open spec fn usable_id(part: PartView) -> Option<Seq<char>> {
    if part.bytes is Some {
        content_id_of(part)
    } else {
        None
    }
}

/// The content ids under which the parts can be shown.
pub open spec fn usable_ids(parts: Seq<PartView>) -> Seq<Option<Seq<char>>> {
    parts.map_values(|p: PartView| usable_id(p))
}

/// What stands in the place of a piece of the HTML: the data of the part that a
/// reference names, else the piece's own text.
pub open spec fn shown_piece(piece: PieceView, parts: Seq<PartView>) -> Seq<char> {
    match piece.names {
        Some(k) => inline_url(parts[k].mimetype, parts[k].bytes->0),
        None => piece.text,
    }
}

/// [`shown_piece`] for these parts.
pub open spec fn showing(parts: Seq<PartView>) -> spec_fn(PieceView) -> Seq<char> {
    |piece: PieceView| shown_piece(piece, parts)
}

/// `html` cut into its references to these parts and the texts between them.
pub open spec fn cut(html: Seq<char>, parts: Seq<PartView>) -> Seq<PieceView> {
    pieces(html, usable_ids(parts))
}

/// `html` with each reference that names a part replaced by that part's data.
pub open spec fn resolved(html: Seq<char>, parts: Seq<PartView>) -> Seq<char> {
    cut(html, parts).map_values(showing(parts)).flatten()
}

fn list_ids(parts: &Vec<MailPart>) -> (r: Vec<Option<String>>)
    ensures
        id_views(r@) == usable_ids(part_views(parts@)),
        r@.len() == parts@.len(),
{
    let ghost all = part_views(parts@);
    let mut r: Vec<Option<String>> = Vec::new();
    let mut i: usize = 0;
    assert(id_views(r@) == usable_ids(all.take(0)));
    while i < parts.len()
        invariant
            i <= parts.len(),
            all == part_views(parts@),
            r@.len() == i,
            id_views(r@) == usable_ids(all.take(i as int)),
        decreases parts.len() - i,
    {
        let ghost before = r@;
        let id: Option<String> = if parts[i].bytes.is_some() {
            content_id(&parts[i])
        } else {
            None
        };
        let ghost found = id;
        r.push(id);
        proof {
            assert(all[i as int] == parts@[i as int]@);
            assert(id_views(r@) =~= id_views(before).push(id_view(found)));
            assert(usable_ids(all.take(i + 1)) =~= usable_ids(all.take(i as int)).push(
                usable_id(all[i as int]),
            ));
        }
        i = i + 1;
    }
    assert(all.take(all.len() as int) == all);
    r
}

/// Replace every `cid:<id>` reference in `html` with a `data:` URL built from
/// the matching inline part's own bytes and media type. A `cid:` with no
/// matching part is left as it is.
pub fn resolve_cid_parts(html: &str, parts: &Vec<MailPart>) -> (r: String)
    ensures
        r@ == resolved(html@, part_views(parts@)),
{
    let ghost all = part_views(parts@);
    let ids = list_ids(parts);
    let split = split_references(html, &ids);
    let ghost found = piece_views(split@);
    let mut out = String::new();
    let mut i: usize = 0;
    assert(found.take(0).map_values(showing(all)) == Seq::<Seq<char>>::empty());
    while i < split.len()
        invariant
            i <= split.len(),
            all == part_views(parts@),
            found == piece_views(split@),
            found == cut(html@, all),
            out@ == found.take(i as int).map_values(showing(all)).flatten(),
        decreases split.len() - i,
    {
        proof {
            let shown = found.take(i as int).map_values(showing(all));
            assert(found.take(i + 1).map_values(showing(all)) == shown.push(
                shown_piece(found[i as int], all),
            ));
            shown.lemma_flatten_push(shown_piece(found[i as int], all));
            references_are_whole(html@, usable_ids(all), i as int);
            assert(found[i as int] == split@[i as int]@);
        }
        match split[i].names {
            Some(at) => {
                assert(usable_ids(all)[at as int] == usable_id(all[at as int]));
                assert(all[at as int] == parts@[at as int]@);
                match &parts[at].bytes {
                    Some(bytes) => {
                        let mut url = "data:".to_owned();
                        url.append(parts[at].mimetype.as_str());
                        url.append(";base64,");
                        url.append(base64_encode(bytes.as_slice()).as_str());
                        out.append(url.as_str());
                    },
                    None => {},
                }
            },
            None => {
                out.append(split[i].text.as_str());
            },
        }
        i = i + 1;
    }
    assert(found.take(found.len() as int) == found);
    out
}

/// Whether part number `i` was put into the shown HTML in the place of a
/// reference.
pub open spec fn is_inlined(parts: Seq<PartView>, i: int) -> bool {
    &&& first_body(parts, "text/html"@) is Some
    &&& is_named(cut(first_body(parts, "text/html"@)->0, parts), i)
}

/// Whether one of these pieces names part number `i`.
pub open spec fn is_named(all: Seq<PieceView>, i: int) -> bool {
    exists|k: int| 0 <= k < all.len() && (#[trigger] all[k]).names == Some(i)
}

/// The place of the part that is shown as the message's body: the first HTML,
/// else the first plain text; the number of parts when there is neither.
pub open spec fn shown_place(parts: Seq<PartView>) -> int {
    if body_place(parts, "text/html"@) < parts.len() {
        body_place(parts, "text/html"@)
    } else {
        body_place(parts, "text/plain"@)
    }
}

/// Whether part number `i` is an attachment: it holds no other parts, its bytes
/// can be had, and it is neither the body that is shown nor put into that body
/// in the place of a reference.
pub open spec fn is_attachment(parts: Seq<PartView>, i: int) -> bool {
    &&& parts[i].subparts == 0
    &&& parts[i].bytes is Some
    &&& i != shown_place(parts)
    &&& !is_inlined(parts, i)
}

/// The attachment that a part is: under the name that its disposition gives it,
/// else the one that its media type gives it, else as `attachment`.
pub open spec fn attachment_of(part: PartView) -> AttachmentView {
    AttachmentView {
        filename: match (part.filename, part.content_name) {
            (Some(name), _) => name,
            (None, Some(name)) => name,
            (None, None) => "attachment"@,
        },
        mime_type: part.mimetype,
        data: part.bytes->0,
    }
}

/// The attachments among the first `n` parts, in order.
pub open spec fn attachments_among(parts: Seq<PartView>, n: int) -> Seq<AttachmentView>
    decreases n,
{
    if n <= 0 {
        Seq::empty()
    } else if is_attachment(parts, n - 1) {
        attachments_among(parts, n - 1).push(attachment_of(parts[n - 1]))
    } else {
        attachments_among(parts, n - 1)
    }
}

/// The attachments of a parsed message, in order.
pub open spec fn attachments_of(parts: Seq<PartView>) -> Seq<AttachmentView> {
    attachments_among(parts, parts.len() as int)
}

/// Attachments, each by its view.
pub open spec fn attachment_views(list: Seq<Attachment>) -> Seq<AttachmentView> {
    list.map_values(|a: Attachment| a@)
}

fn inlined_places(html: &str, parts: &Vec<MailPart>) -> (r: Vec<bool>)
    ensures
        r@.len() == parts@.len(),
        forall|i: int|
            0 <= i < r@.len() ==> #[trigger] r@[i] == is_named(
                cut(html@, part_views(parts@)),
                i,
            ),
{
    let ghost all = part_views(parts@);
    let ids = list_ids(parts);
    let split = split_references(html, &ids);
    let ghost found = piece_views(split@);
    let mut r: Vec<bool> = Vec::new();
    while r.len() < parts.len()
        invariant
            r.len() <= parts.len(),
            forall|i: int| 0 <= i < r@.len() ==> !(#[trigger] r@[i]),
        decreases parts.len() - r.len(),
    {
        r.push(false);
    }
    let mut k: usize = 0;
    assert forall|i: int| 0 <= i < r@.len() implies #[trigger] r@[i] == is_named(
        found.take(0),
        i,
    ) by {}
    while k < split.len()
        invariant
            k <= split.len(),
            r@.len() == parts@.len(),
            all == part_views(parts@),
            found == piece_views(split@),
            found == cut(html@, all),
            forall|i: int|
                0 <= i < r@.len() ==> #[trigger] r@[i] == is_named(found.take(k as int), i),
        decreases split.len() - k,
    {
        let ghost before = r@;
        proof {
            references_are_whole(html@, usable_ids(all), k as int);
            assert(found[k as int] == split@[k as int]@);
        }
        match split[k].names {
            Some(at) => {
                r.set(at, true);
            },
            None => {},
        }
        proof {
            let shorter = found.take(k as int);
            let longer = found.take(k + 1);
            assert(longer[k as int] == split@[k as int]@);
            assert forall|i: int| 0 <= i < r@.len() implies #[trigger] r@[i] == is_named(
                longer,
                i,
            ) by {
                assert(before[i] == is_named(shorter, i));
                if is_named(shorter, i) {
                    let j = choose|j: int|
                        0 <= j < shorter.len() && (#[trigger] shorter[j]).names == Some(i);
                    assert(longer[j] == shorter[j]);
                }
                if is_named(longer, i) {
                    let j = choose|j: int|
                        0 <= j < longer.len() && (#[trigger] longer[j]).names == Some(i);
                    if j < k {
                        assert(shorter[j] == longer[j]);
                    }
                }
            }
        }
        k = k + 1;
    }
    assert(found.take(found.len() as int) == found);
    r
}

fn attachment_from(part: &MailPart) -> (r: Option<Attachment>)
    ensures
        match r {
            Some(a) => part.bytes is Some && a@ == attachment_of(part@),
            None => part.bytes is None,
        },
{
    match &part.bytes {
        None => None,
        Some(bytes) => {
            let filename = match (&part.filename, &part.content_name) {
                (Some(name), _) => name.clone(),
                (None, Some(name)) => name.clone(),
                (None, None) => "attachment".to_owned(),
            };
            Some(
                Attachment {
                    filename,
                    mime_type: part.mimetype.clone(),
                    data: copy_bytes(bytes),
                },
            )
        },
    }
}

/// The attachments of a parsed message: every part that is neither the body
/// that is shown nor shown inside it.
pub fn list_attachments(parts: &Vec<MailPart>) -> (r: Vec<Attachment>)
    ensures
        attachment_views(r@) == attachments_of(part_views(parts@)),
{
    let ghost all = part_views(parts@);
    let html_at: usize = find_place(parts, "text/html");
    let shown: usize = if html_at < parts.len() {
        html_at
    } else {
        find_place(parts, "text/plain")
    };
    let inlined: Vec<bool> = match find_html(parts) {
        Some(html) => inlined_places(html.as_str(), parts),
        None => Vec::new(),
    };
    let mut r: Vec<Attachment> = Vec::new();
    let mut i: usize = 0;
    assert(attachment_views(r@) == attachments_among(all, 0));
    while i < parts.len()
        invariant
            i <= parts.len(),
            all == part_views(parts@),
            shown == shown_place(all),
            inlined@.len() == 0 || inlined@.len() == parts@.len(),
            inlined@.len() == 0 ==> first_body(all, "text/html"@) is None || parts@.len() == 0,
            inlined@.len() > 0 ==> forall|k: int|
                0 <= k < parts@.len() ==> #[trigger] inlined@[k] == is_inlined(all, k),
            attachment_views(r@) == attachments_among(all, i as int),
        decreases parts.len() - i,
    {
        assert(all[i as int] == parts@[i as int]@);
        let ghost before = r@;
        let is_shown_inside: bool = inlined.len() > 0 && inlined[i];
        assert(is_shown_inside == is_inlined(all, i as int));
        if parts[i].subparts == 0 && i != shown && !is_shown_inside {
            match attachment_from(&parts[i]) {
                Some(a) => {
                    r.push(a);
                    assert(attachment_views(r@) == attachment_views(before).push(a@));
                },
                None => {},
            }
        }
        i = i + 1;
    }
    r
}

/// The attachments that a message has once the parser gave `parsed`: none where
/// it failed.
pub open spec fn attached(parsed: Result<Seq<PartView>, Seq<char>>) -> Seq<AttachmentView> {
    match parsed {
        Ok(parts) => attachments_of(parts),
        Err(_) => Seq::empty(),
    }
}

/// The attachments of one message's raw RFC822 bytes, decoded.
pub fn extract_attachments(raw: &[u8]) -> (r: Vec<Attachment>)
    ensures
        attachment_views(r@) == attached(parsed_mail(raw@)),
{
    match parse_mail(raw) {
        Ok(parts) => list_attachments(&parts),
        Err(_) => {
            let none: Vec<Attachment> = Vec::new();
            assert(attachment_views(none@) == Seq::<AttachmentView>::empty());
            none
        },
    }
}

/// No part of a message is lost: one that holds no other parts, and whose bytes
/// can be had, is shown as the body, shown inside it, or attached.
pub proof fn every_part_is_shown_or_attached(parts: Seq<PartView>, i: int)
    requires
        0 <= i < parts.len(),
        parts[i].subparts == 0,
        parts[i].bytes is Some,
    ensures
        i == shown_place(parts) || is_inlined(parts, i) || attachments_of(parts).contains(
            attachment_of(parts[i]),
        ),
{
    if is_attachment(parts, i) {
        lemma_attached(parts, i, parts.len() as int);
    }
}

proof fn lemma_attached(parts: Seq<PartView>, i: int, n: int)
    requires
        0 <= i < n <= parts.len(),
        is_attachment(parts, i),
    ensures
        attachments_among(parts, n).contains(attachment_of(parts[i])),
    decreases n,
{
    let list = attachments_among(parts, n);
    if i == n - 1 {
        assert(list.last() == attachment_of(parts[i]));
    } else {
        lemma_attached(parts, i, n - 1);
        let rest = attachments_among(parts, n - 1);
        let k = choose|k: int| 0 <= k < rest.len() && rest[k] == attachment_of(parts[i]);
        assert(list[k] == rest[k]);
    }
}

/// The URL schemes a message may use beside the sanitizer's default ones:
/// `data:` for the inline parts put in the place of `cid:` references, and
/// `cid:` itself so that a reference without a part stays as it is.
pub open spec fn message_schemes() -> Seq<Seq<char>> {
    seq!["data"@, "cid"@]
}

/// `html` without anything outside the sanitizer's allowlist; `data:` and
/// `cid:` URLs may stay.
pub fn sanitize(html: &str) -> (r: String)
    ensures
        r@ == ammonia_clean(html@, message_schemes()),
{
    let schemes = ["data", "cid"];
    assert(schemes@.map_values(|s: &str| s@) == message_schemes());
    clean_html(html, &schemes)
}

/// What is shown of a parsed message: its HTML body sanitized, or its text
/// escaped, or a notice that it has neither.
pub open spec fn rendered_parts(parts: Seq<PartView>) -> Seq<char> {
    match first_body(parts, "text/html"@) {
        Some(html) => ammonia_clean(resolved(html, parts), message_schemes()),
        None => match first_body(parts, "text/plain"@) {
            Some(text) => "<pre>"@ + escaped(text) + "</pre>"@,
            None => "<p><em>(this message has no readable body)</em></p>"@,
        },
    }
}

/// What is shown of a parsed message.
pub fn render_parsed(parts: &Vec<MailPart>) -> (r: String)
    ensures
        r@ == rendered_parts(part_views(parts@)),
{
    match find_html(parts) {
        Some(html) => sanitize(resolve_cid_parts(html.as_str(), parts).as_str()),
        None => match find_text(parts) {
            Some(text) => {
                let mut out = "<pre>".to_owned();
                out.append(clean_text(text.as_str()).as_str());
                out.append("</pre>");
                out
            },
            None => "<p><em>(this message has no readable body)</em></p>".to_owned(),
        },
    }
}

/// The head of every document that shows a message: charset, a readable
/// default font, and widths that keep wide mail from scrolling sideways.
pub const DOCUMENT_HEAD: &'static str = r#"<!doctype html>
<meta charset="utf-8">
<style>
  body {
    font-family: -apple-system, "Segoe UI", Roboto, Helvetica, Arial, sans-serif;
    font-size: 14px;
    line-height: 1.4;
    color: #1a1a1a;
    margin: 12px;
    max-width: 100%;
    overflow-wrap: break-word;
  }
  img { max-width: 100%; height: auto; }
  pre { white-space: pre-wrap; font-family: inherit; }
</style>
"#;

/// `body` below the head of every message document.
pub fn wrap_document(body: &str) -> (r: String)
    ensures
        r@ == DOCUMENT_HEAD@ + body@,
{
    let mut out = DOCUMENT_HEAD.to_owned();
    out.append(body);
    out
}

/// What is shown once the parser gave `parsed`: the message, or a notice with
/// the parser's error, escaped.
pub open spec fn rendered(parsed: Result<Seq<PartView>, Seq<char>>) -> Seq<char> {
    DOCUMENT_HEAD@ + match parsed {
        Ok(parts) => rendered_parts(parts),
        Err(e) => "<p>Could not parse this message: "@ + escaped(e) + "</p>"@,
    }
}

/// What is shown once the parser gave `parsed`.
pub fn render_outcome(parsed: &Result<Vec<MailPart>, String>) -> (r: String)
    ensures
        r@ == rendered(parse_view(*parsed)),
{
    match parsed {
        Ok(parts) => wrap_document(render_parsed(parts).as_str()),
        Err(e) => {
            let mut notice = "<p>Could not parse this message: ".to_owned();
            notice.append(clean_text(e.as_str()).as_str());
            notice.append("</p>");
            wrap_document(notice.as_str())
        },
    }
}

/// Render one message's raw RFC822 bytes into safe-to-display HTML. Never
/// fails: a message that can't be parsed at all renders as an escaped error
/// notice.
pub fn render_message(raw: &[u8]) -> (r: String)
    ensures
        r@ == rendered(parsed_mail(raw@)),
{
    render_outcome(&parse_mail(raw))
}

/// A message without HTML shows its plain text escaped: nothing in the text
/// can become markup.
pub proof fn plain_text_never_becomes_markup(parts: Seq<PartView>, text: Seq<char>)
    requires
        first_body(parts, "text/html"@) is None,
        first_body(parts, "text/plain"@) == Some(text),
    ensures
        rendered(Ok(parts)) == DOCUMENT_HEAD@ + ("<pre>"@ + escaped(text) + "</pre>"@),
        forall|i: int| 0 <= i < escaped(text).len() ==> #[trigger] escaped(text)[i] != '<',
{
    escaped_text_is_inert(text);
}

/// An HTML part is preferred over plain text, whatever order they come in.
pub proof fn html_is_preferred(parts: Seq<PartView>, html: Seq<char>)
    requires
        first_body(parts, "text/html"@) == Some(html),
    ensures
        rendered(Ok(parts)) == DOCUMENT_HEAD@ + ammonia_clean(
            resolved(html, parts),
            message_schemes(),
        ),
{
}

/// Text that names no part is left as it is, references to what is not there
/// included, whatever else the HTML refers to: it stands between what becomes of
/// the HTML before it and what becomes of the HTML behind it.
pub proof fn unmatched_references_stay(html: Seq<char>, parts: Seq<PartView>, k: int)
    requires
        0 <= k < cut(html, parts).len(),
        cut(html, parts)[k].names is None,
    ensures
        html == piece_texts(cut(html, parts).take(k)).flatten() + cut(html, parts)[k].text
            + piece_texts(cut(html, parts).skip(k + 1)).flatten(),
        resolved(html, parts) == cut(html, parts).take(k).map_values(showing(parts)).flatten()
            + cut(html, parts)[k].text + cut(html, parts).skip(k + 1).map_values(
            showing(parts),
        ).flatten(),
{
    let all = cut(html, parts);
    lemma_replaced_in_place(all, showing(parts), k);
    let same = |piece: PieceView| piece.text;
    lemma_replaced_in_place(all, same, k);
    assert(all.map_values(same) =~= piece_texts(all));
    assert(all.take(k).map_values(same) =~= piece_texts(all.take(k)));
    assert(all.skip(k + 1).map_values(same) =~= piece_texts(all.skip(k + 1)));
    pieces_make_up_the_text(html, usable_ids(parts));
}

/// A reference to a part becomes that part's data, whatever else the HTML
/// refers to. What is replaced is the whole reference: `cid:` and the part's
/// content id.
pub proof fn matched_references_are_inlined(html: Seq<char>, parts: Seq<PartView>, k: int)
    requires
        0 <= k < cut(html, parts).len(),
        cut(html, parts)[k].names is Some,
    ensures
        ({
            let n = cut(html, parts)[k].names->0;
            &&& 0 <= n < parts.len()
            &&& parts[n].bytes is Some
            &&& content_id_of(parts[n]) matches Some(id) && cut(html, parts)[k].text == "cid:"@ + id
            &&& resolved(html, parts) == cut(html, parts).take(k).map_values(
                showing(parts),
            ).flatten() + inline_url(parts[n].mimetype, parts[n].bytes->0) + cut(
                html,
                parts,
            ).skip(k + 1).map_values(showing(parts)).flatten()
        }),
{
    references_are_whole(html, usable_ids(parts), k);
    let n = cut(html, parts)[k].names->0;
    assert(usable_ids(parts)[n] == usable_id(parts[n]));
    lemma_replaced_in_place(cut(html, parts), showing(parts), k);
}

/// HTML that names none of the parts comes through unchanged: a reference whose
/// id is no part's id stays.
pub proof fn html_without_matches_stays(html: Seq<char>, parts: Seq<PartView>)
    requires
        forall|i: int, n: int|
            0 <= i < html.len() && 0 <= n < parts.len() && parts[n].bytes is Some
                && content_id_of(parts[n]) is Some ==> !#[trigger] names(
                html,
                i,
                content_id_of(parts[n])->0,
            ),
    ensures
        resolved(html, parts) == html,
{
    let all = cut(html, parts);
    let ids = usable_ids(parts);
    assert forall|k: int| 0 <= k < all.len() implies (#[trigger] all[k]).names is None by {
        lemma_piece_names(html, ids, k);
        if all[k].names is Some {
            let n = all[k].names->0;
            let at = piece_texts(all.take(k)).flatten().len() as int;
            assert(ids[n] == usable_id(parts[n]));
            assert(!names(html, at, content_id_of(parts[n])->0));
        }
    }
    assert(all.map_values(showing(parts)) =~= piece_texts(all));
    pieces_make_up_the_text(html, ids);
}

/// The first header of a name counts, capitals and small letters alike, whatever
/// headers of other names stand around it.
pub proof fn headers_are_found_by_name(
    before: Seq<(Seq<char>, Seq<char>)>,
    header: (Seq<char>, Seq<char>),
    after: Seq<(Seq<char>, Seq<char>)>,
    name: Seq<char>,
)
    requires
        forall|i: int|
            0 <= i < before.len() ==> ascii_lowered((#[trigger] before[i]).0) != ascii_lowered(name),
    ensures
        ascii_lowered(header.0) == ascii_lowered(name) ==> first_value(
            before + seq![header] + after,
            name,
        ) == Some(header.1),
        first_value(before, name) is None,
    decreases before.len(),
{
    let all = before + seq![header] + after;
    if before.len() > 0 {
        assert(ascii_lowered(before[0].0) != ascii_lowered(name));
        assert forall|i: int| 0 <= i < before.skip(1).len() implies ascii_lowered(
            (#[trigger] before.skip(1)[i]).0,
        ) != ascii_lowered(name) by {
            assert(before.skip(1)[i] == before[i + 1]);
        }
        headers_are_found_by_name(before.skip(1), header, after, name);
        assert(all.skip(1) == before.skip(1) + seq![header] + after);
        assert(all[0] == before[0]);
    } else {
        assert(all[0] == header);
    }
}

/// A part's content id is the value of its first `Content-ID` header without the
/// angle brackets around it; no other header and nothing else of the part has a
/// say in it.
pub proof fn content_ids_come_from_their_header(
    part: PartView,
    before: Seq<(Seq<char>, Seq<char>)>,
    name: Seq<char>,
    lead: Seq<char>,
    id: Seq<char>,
    tail: Seq<char>,
    after: Seq<(Seq<char>, Seq<char>)>,
)
    requires
        part.headers == before + seq![(name, lead + (seq!['<'] + id + seq!['>']) + tail)] + after,
        ascii_lowered(name) == ascii_lowered("Content-ID"@),
        forall|i: int| 0 <= i < lead.len() ==> is_white(#[trigger] lead[i]),
        forall|i: int| 0 <= i < tail.len() ==> is_white(#[trigger] tail[i]),
        forall|i: int|
            0 <= i < before.len() ==> ascii_lowered((#[trigger] before[i]).0) != ascii_lowered(
                "Content-ID"@,
            ),
        id.len() > 0,
        id[0] != '<',
        id.last() != '>',
    ensures
        content_id_of(part) == Some(id),
        part.bytes is Some ==> usable_id(part) == Some(id),
{
    let value = seq!['<'] + id + seq!['>'];
    headers_are_found_by_name(before, (name, lead + value + tail), after, "Content-ID"@);
    trimming_keeps_what_is_between(lead, value, tail);
    brackets_come_off(id, '<', '>');
}

/// Any part whose bytes can be had and that has a content id can be referred to:
/// where `cid:` and that id stand as a whole reference, the piece cut there names
/// a part with this id, or with a longer one that stands there too. Nothing else
/// of the part matters.
pub proof fn every_part_with_an_id_can_be_shown(
    html: Seq<char>,
    parts: Seq<PartView>,
    p: int,
    id: Seq<char>,
    at: int,
)
    requires
        0 <= p < parts.len(),
        parts[p].bytes is Some,
        content_id_of(parts[p]) == Some(id),
        0 <= at < html.len(),
        names(html, at, id),
    ensures
        ({
            let piece = pieces_from(html, usable_ids(parts), at)[0];
            &&& piece.names matches Some(n) && 0 <= n < parts.len() && parts[n].bytes is Some && (
            content_id_of(parts[n]) matches Some(other) && has_prefix(other, id))
            &&& shown_piece(piece, parts) == "data:"@ + parts[piece.names->0].mimetype
                + ";base64,"@ + base64_text(parts[piece.names->0].bytes->0)
        }),
{
    reveal_strlit("cid:");
    let ids = usable_ids(parts);
    lemma_named(html, at, ids);
    assert(ids[p] == usable_id(parts[p]));
    let n = named(html, at, ids);
    if n is None {
        assert(!names(html, at, ids[p]->0));
    } else {
        let other = ids[n->0]->0;
        assert(ids[n->0] == usable_id(parts[n->0]));
        assert(ids[p]->0.len() <= other.len());
        let rest = html.skip(at + 4);
        assert(rest.take(other.len() as int).take(id.len() as int) == rest.take(id.len() as int));
        assert(has_prefix(other, id));
    }
}

/// An inline image is shown in its place. Where a document refers to a part once,
/// by its whole id, the reference becomes the part's data and all around it stays;
/// of several parts with the id, the first whose bytes can be had is shown.
pub proof fn inline_parts_are_shown_in_their_place(
    before: Seq<char>,
    id: Seq<char>,
    after: Seq<char>,
    parts: Seq<PartView>,
    p: int,
)
    requires
        forall|i: int| 0 <= i < before.len() ==> #[trigger] before[i] != ':',
        forall|i: int| 0 <= i < after.len() ==> #[trigger] after[i] != ':',
        forall|i: int| 0 <= i < id.len() ==> #[trigger] id[i] != ':',
        after.len() > 0 ==> after[0] == '"' || after[0] == '>' || after[0] == ' ' || after[0] == ')'
            || after[0] == '<',
        0 <= p < parts.len(),
        parts[p].bytes is Some,
        content_id_of(parts[p]) == Some(id),
        forall|q: int|
            0 <= q < p && (#[trigger] parts[q]).bytes is Some ==> content_id_of(parts[q]) != Some(id),
        forall|q: int|
            0 <= q < parts.len() && content_id_of(#[trigger] parts[q]) is Some && has_prefix(
                content_id_of(parts[q])->0,
                id,
            ) ==> content_id_of(parts[q]) == Some(id),
    ensures
        resolved(before + "cid:"@ + id + after, parts) == before + ("data:"@ + parts[p].mimetype
            + ";base64,"@ + base64_text(parts[p].bytes->0)) + after,
{
    reveal_strlit("cid:");
    let html = before + "cid:"@ + id + after;
    let ids = usable_ids(parts);
    let at = before.len() as int;
    let end = at + 4 + id.len();
    assert(html.skip(at).take(4) =~= "cid:"@);
    assert(html.skip(at + 4).take(id.len() as int) =~= id);
    assert(end < html.len() ==> html[end] == after[0]);
    assert(!is_id_char('"', opening_quote(html, at)));
    assert(names(html, at, id));
    lemma_named(html, at, ids);
    assert(ids[p] == usable_id(parts[p]));
    let n = named(html, at, ids)->0;
    assert(ids[n] == usable_id(parts[n]));
    every_part_with_an_id_can_be_shown(html, parts, p, id, at);
    assert(content_id_of(parts[n]) == Some(id));
    assert(n == p) by {
        if n < p {
            assert(content_id_of(parts[n]) != Some(id));
        }
        if p < n {
            assert(ids[p]->0.len() < ids[n]->0.len());
        }
    }
    assert forall|i: int| 0 <= i < html.len() && i != at implies !#[trigger] at_reference(
        html,
        i,
    ) by {
        if at_reference(html, i) {
            assert(html.skip(i).take(4)[3] == html[i + 3]);
            assert(html[i + 3] == ':');
            if i + 3 < at {
                assert(before[i + 3] != ':');
            } else if i + 3 < at + 3 {
                assert(html[i + 3] == "cid:"@[i + 3 - at]);
            } else if i + 3 < end {
                assert(html[i + 3] == id[i + 3 - at - 4]);
            } else {
                assert(html[i + 3] == after[i + 3 - end]);
            }
        }
    }
    lemma_no_reference(html, ids, 0, at);
    lemma_no_reference(html, ids, end, html.len() as int);
    let shown = inline_url(parts[p].mimetype, parts[p].bytes->0);
    let tail = pieces_from(html, ids, end);
    let middle = PieceView { text: html.subrange(at, end), names: Some(p) };
    assert(pieces_from(html, ids, at) == seq![middle] + tail);
    assert(tail.map_values(showing(parts)).flatten() == after) by {
        if after.len() > 0 {
            let last = PieceView { text: html.subrange(end, html.len() as int), names: None };
            assert(pieces_from(html, ids, html.len() as int) == Seq::<PieceView>::empty());
            assert(tail == seq![last]);
            assert(tail.map_values(showing(parts)) =~= seq![last.text]);
            seq![last.text].lemma_flatten_one_element();
            assert(last.text =~= after);
        } else {
            assert(tail.map_values(showing(parts)) =~= Seq::<Seq<char>>::empty());
            assert(after =~= Seq::<char>::empty());
        }
    }
    let from_middle = (seq![middle] + tail).map_values(showing(parts));
    assert(from_middle =~= seq![shown] + tail.map_values(showing(parts)));
    lemma_flatten_concat(seq![shown], tail.map_values(showing(parts)));
    seq![shown].lemma_flatten_one_element();
    assert(from_middle.flatten() == shown + after);
    if before.len() > 0 {
        let first = PieceView { text: html.subrange(0, at), names: None };
        assert(named(html, 0, ids) is None);
        assert(pieces(html, ids) == seq![first] + (seq![middle] + tail));
        let all = pieces(html, ids).map_values(showing(parts));
        assert(all =~= seq![first.text] + from_middle);
        lemma_flatten_concat(seq![first.text], from_middle);
        seq![first.text].lemma_flatten_one_element();
        assert(first.text =~= before);
        assert(before + (shown + after) =~= before + shown + after);
    } else {
        assert(before + shown + after =~= shown + after);
    }
}

proof fn lemma_no_reference(html: Seq<char>, ids: Seq<Option<Seq<char>>>, from: int, to: int)
    requires
        0 <= from <= to <= html.len(),
        forall|i: int| from <= i < to ==> !#[trigger] at_reference(html, i),
        to < html.len() ==> named(html, to, ids) is Some,
    ensures
        next_named(html, ids, from) == to,
        from < to ==> named(html, from, ids) is None,
    decreases to - from,
{
    if from < to {
        lemma_named(html, from, ids);
        assert(!at_reference(html, from));
        if named(html, from, ids) is Some {
            assert(names(html, from, ids[named(html, from, ids)->0]->0));
        }
        lemma_no_reference(html, ids, from + 1, to);
    }
}

/// The body that is shown is that of the first HTML part that can be read,
/// whatever stands before and behind it; without one, that of the first plain
/// text; and where there is neither, there is no body.
pub proof fn the_first_readable_part_is_shown(parts: Seq<PartView>, mimetype: Seq<char>, i: int)
    ensures
        0 <= i < parts.len() && parts[i].mimetype == mimetype && parts[i].body is Some && (forall|
            j: int,
        |
            0 <= j < i ==> (#[trigger] parts[j]).mimetype != mimetype || parts[j].body is None)
            ==> first_body(parts, mimetype) == parts[i].body && body_place(parts, mimetype) == i,
        (forall|j: int|
            0 <= j < parts.len() ==> (#[trigger] parts[j]).mimetype != mimetype || parts[j].body
                is None) ==> first_body(parts, mimetype) is None,
{
    lemma_body_place(parts, mimetype);
}

proof fn lemma_body_place(parts: Seq<PartView>, mimetype: Seq<char>)
    ensures
        0 <= body_place(parts, mimetype) <= parts.len(),
        body_place(parts, mimetype) < parts.len() ==> ({
            let p = parts[body_place(parts, mimetype)];
            p.mimetype == mimetype && p.body is Some
        }),
        forall|j: int|
            0 <= j < body_place(parts, mimetype) ==> (#[trigger] parts[j]).mimetype != mimetype
                || parts[j].body is None,
    decreases parts.len(),
{
    if parts.len() > 0 && !(parts[0].mimetype == mimetype && parts[0].body is Some) {
        lemma_body_place(parts.skip(1), mimetype);
        assert forall|j: int| 0 <= j < body_place(parts, mimetype) implies (
        #[trigger] parts[j]).mimetype != mimetype || parts[j].body is None by {
            if j > 0 {
                assert(parts.skip(1)[j - 1] == parts[j]);
            }
        }
    }
}

/// What is shown of a message: its HTML with the inline parts in place, cleaned,
/// `data:` and `cid:` URLs being kept; else its text, escaped; else a notice. A
/// message that cannot be parsed shows why.
pub proof fn messages_are_rendered_whole(parts: Seq<PartView>, error: Seq<char>)
    ensures
        first_body(parts, "text/html"@) matches Some(html) ==> rendered(Ok(parts))
            == DOCUMENT_HEAD@ + ammonia_clean(resolved(html, parts), seq!["data"@, "cid"@]),
        first_body(parts, "text/html"@) is None && first_body(parts, "text/plain"@) is Some
            ==> rendered(Ok(parts)) == DOCUMENT_HEAD@ + ("<pre>"@ + escaped(
            first_body(parts, "text/plain"@)->0,
        ) + "</pre>"@),
        first_body(parts, "text/html"@) is None && first_body(parts, "text/plain"@) is None
            ==> rendered(Ok(parts)) == DOCUMENT_HEAD@
            + "<p><em>(this message has no readable body)</em></p>"@,
        rendered(Err(error)) == DOCUMENT_HEAD@ + ("<p>Could not parse this message: "@ + escaped(
            error,
        ) + "</p>"@),
{
}

/// Escaping goes character by character, and a character without a meaning in
/// HTML stays itself.
pub proof fn escaping_keeps_other_characters(a: Seq<char>, b: Seq<char>, c: char)
    ensures
        escaped(a + b) == escaped(a) + escaped(b),
        'a' <= c <= 'z' || 'A' <= c <= 'Z' || '0' <= c <= '9' || c == '.' || c == ',' || '\u{80}' <= c
            ==> escaped(seq![c]) == seq![c],
        escaped(seq!['<']) == "&lt;"@,
        escaped(seq!['>']) == "&gt;"@,
        escaped(seq!['&']) == "&amp;"@,
        escaped(seq!['"']) == "&quot;"@,
        escaped(seq!['\'']) == "&apos;"@,
        escaped(seq!['`']) == "&grave;"@,
        escaped(seq!['/']) == "&#47;"@,
        escaped(seq!['=']) == "&#61;"@,
        escaped(seq![' ']) == "&#32;"@,
        escaped(seq!['\t']) == "&#9;"@,
        escaped(seq!['\n']) == "&#10;"@,
        escaped(seq!['\u{c}']) == "&#12;"@,
        escaped(seq!['\r']) == "&#13;"@,
        escaped(seq!['\0']) == "&#65533;"@,
    decreases b.len(),
{
    assert forall|x: char| #[trigger] escaped(seq![x]) == entity(x) by {
        assert(seq![x].drop_last() == Seq::<char>::empty());
        assert(escaped(Seq::<char>::empty()) == Seq::<char>::empty());
        assert(escaped(seq![x]) =~= entity(x));
    }
    if b.len() > 0 {
        escaping_keeps_other_characters(a, b.drop_last(), c);
        assert((a + b).drop_last() == a + b.drop_last());
        assert((a + b).last() == b.last());
        assert(escaped(a + b) =~= escaped(a) + escaped(b));
    } else {
        assert(a + b =~= a);
        assert(escaped(a) + escaped(b) =~= escaped(a));
    }
}

/// An attachment has all the bytes of its part, the part's media type, and the
/// name that the part's disposition gives it, else the one of its media type.
pub proof fn attachments_are_their_parts(part: PartView)
    ensures
        attachment_of(part).data == part.bytes->0,
        attachment_of(part).mime_type == part.mimetype,
        part.filename matches Some(name) ==> attachment_of(part).filename == name,
        part.filename is None ==> (part.content_name matches Some(name) ==> attachment_of(
            part,
        ).filename == name),
        part.filename is None && part.content_name is None ==> attachment_of(part).filename
            == "attachment"@,
{
}

/// Only parts that hold no other parts, whose bytes can be had, and that are not
/// shown are attached, each once and in the order of the message.
pub proof fn what_is_shown_is_not_attached(parts: Seq<PartView>, n: int)
    requires
        0 <= n < parts.len(),
    ensures
        n == shown_place(parts) || is_inlined(parts, n) || parts[n].subparts > 0 || parts[n].bytes
            is None ==> attachments_among(parts, n + 1) == attachments_among(parts, n),
        !(n == shown_place(parts) || is_inlined(parts, n) || parts[n].subparts > 0
            || parts[n].bytes is None) ==> attachments_among(parts, n + 1) == attachments_among(
            parts,
            n,
        ).push(attachment_of(parts[n])),
        attachments_among(parts, 0).len() == 0,
        first_body(parts, "text/html"@) is None ==> !is_inlined(parts, n),
        first_body(parts, "text/html"@) matches Some(html) ==> (is_inlined(parts, n) <==> exists|
            k: int,
        |
            0 <= k < cut(html, parts).len() && (#[trigger] cut(html, parts)[k]).names == Some(n)),
        first_body(parts, "text/html"@) is Some ==> shown_place(parts) == body_place(
            parts,
            "text/html"@,
        ),
        first_body(parts, "text/html"@) is None ==> shown_place(parts) == body_place(
            parts,
            "text/plain"@,
        ),
{
    lemma_body_place(parts, "text/html"@);
}

/// The model of a message has every part, and of each part every header, its
/// text, its bytes and its names; the model of an attachment its name, its type
/// and all its bytes.
pub proof fn models_keep_every_part(
    parts: Vec<MailPart>,
    i: int,
    j: int,
    files: Seq<Attachment>,
    k: int,
    error: String,
)
    requires
        0 <= i < parts@.len(),
        0 <= j < parts@[i].headers@.len(),
        0 <= k < files.len(),
    ensures
        parse_view(Ok(parts)) matches Ok(all) && all.len() == parts@.len() && all[i]
            == parts@[i]@,
        parse_view(Err(error)) == Err::<Seq<PartView>, Seq<char>>(error@),
        part_views(parts@).len() == parts@.len(),
        ({
            let part = part_views(parts@)[i];
            &&& part.mimetype == parts@[i].mimetype@
            &&& part.headers.len() == parts@[i].headers@.len()
            &&& part.headers[j].0 == parts@[i].headers@[j].0@
            &&& part.headers[j].1 == parts@[i].headers@[j].1@
            &&& part.subparts == parts@[i].subparts
            &&& part.body is Some <==> parts@[i].body is Some
            &&& parts@[i].body matches Some(t) ==> part.body == Some(t@)
            &&& part.bytes is Some <==> parts@[i].bytes is Some
            &&& parts@[i].bytes matches Some(b) ==> part.bytes == Some(b@)
            &&& part.filename is Some <==> parts@[i].filename is Some
            &&& parts@[i].filename matches Some(n) ==> part.filename == Some(n@)
            &&& part.content_name is Some <==> parts@[i].content_name is Some
            &&& parts@[i].content_name matches Some(n) ==> part.content_name == Some(n@)
        }),
        attachment_views(files).len() == files.len(),
        attachment_views(files)[k].filename == files[k].filename@,
        attachment_views(files)[k].mime_type == files[k].mime_type@,
        attachment_views(files)[k].data == files[k].data@,
{
}

/// All attachments of a message are listed: those among all its parts.
pub proof fn no_part_is_passed_over(parts: Seq<PartView>)
    ensures
        attachments_of(parts) == attachments_among(parts, parts.len() as int),
        attached(Ok(parts)) == attachments_of(parts),
{
}

} // verus!
