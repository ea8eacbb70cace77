//! The in-memory mail store of a mock mail server: users, mailboxes, and the
//! delivery of messages into them. What is sent over SMTP lands straight in the
//! recipient's mailbox, where IMAP finds it.
use vstd::prelude::*;

use crate::render::{
    first_value, get_first_value, headers_are_found_by_name, parse_mail, parsed_mail, PartView,
};
use crate::text::{
    ascii_lowered, chars_of, index_of, is_sorted, lemma_index_of_is, same_text, sort_texts, text_between, texts,
};

verus! {

/// The envelope fields of a stored message.
#[derive(Debug)]
pub struct Envelope {
    pub date: String,
    pub subject: String,
    /// Display name, mailbox and host of the first address.
    pub from: Option<(String, String, String)>,
    pub to: Option<(String, String, String)>,
    pub message_id: String,
}

/// One stored message: the raw bytes, and the envelope fields read once so
/// that listing a mailbox doesn't parse every message again.
#[derive(Debug)]
pub struct StoredMessage {
    pub uid: u32,
    pub raw: Vec<u8>,
    pub envelope: Envelope,
}

/// A mailbox, its messages in the order they came.
#[derive(Debug)]
pub struct Mailbox {
    pub name: String,
    pub messages: Vec<StoredMessage>,
    pub uid_validity: u32,
    pub uid_next: u32,
}

/// A mailbox, by its name's characters.
#[verifier::ext_equal]
pub struct MailboxView {
    pub name: Seq<char>,
    pub messages: Seq<StoredMessage>,
    pub uid_validity: u32,
    pub uid_next: u32,
}

impl View for Mailbox {
    type V = MailboxView;

    open spec fn view(&self) -> MailboxView {
        MailboxView {
            name: self.name@,
            messages: self.messages@,
            uid_validity: self.uid_validity,
            uid_next: self.uid_next,
        }
    }
}

/// An empty mailbox; its first message will have UID 1.
pub open spec fn fresh_mailbox(name: Seq<char>, uid_validity: u32) -> MailboxView {
    MailboxView { name, messages: Seq::empty(), uid_validity, uid_next: 1 }
}

/// Whether UIDs grow from message to message and stay below the next one.
pub open spec fn uids_in_order(m: MailboxView) -> bool {
    &&& forall|i: int|
        0 <= i < m.messages.len() ==> (#[trigger] m.messages[i]).uid < m.uid_next
    &&& forall|i: int, j: int|
        0 <= i < j < m.messages.len() ==> (#[trigger] m.messages[i]).uid < (
        #[trigger] m.messages[j]).uid
}

/// `m` with one more message, under the next UID.
pub open spec fn with_message(m: MailboxView, raw: Vec<u8>, envelope: Envelope) -> MailboxView {
    MailboxView {
        messages: m.messages.push(StoredMessage { uid: m.uid_next, raw, envelope }),
        uid_next: (m.uid_next + 1) as u32,
        ..m
    }
}

impl Mailbox {
    /// An empty mailbox.
    pub fn new(name: &str, uid_validity: u32) -> (r: Self)
        ensures
            r@ == fresh_mailbox(name@, uid_validity),
    {
        Mailbox { name: name.to_owned(), messages: Vec::new(), uid_validity, uid_next: 1 }
    }

    /// Add a message; returns the UID it got.
    pub fn append(&mut self, raw: Vec<u8>, envelope: Envelope) -> (uid: u32)
        requires
            old(self).uid_next < u32::MAX,
        ensures
            uid == old(self).uid_next,
            final(self)@ == with_message(old(self)@, raw, envelope),
            final(self).name == old(self).name,
    {
        let uid: u32 = self.uid_next;
        self.uid_next = self.uid_next + 1;
        self.messages.push(StoredMessage { uid, raw, envelope });
        uid
    }
}

/// A fresh mailbox has its UIDs in order, and every message added keeps them
/// so: no UID is ever handed out twice.
pub proof fn uids_stay_in_order(
    m: MailboxView,
    name: Seq<char>,
    uid_validity: u32,
    raw: Vec<u8>,
    envelope: Envelope,
)
    requires
        uids_in_order(m),
        m.uid_next < u32::MAX,
    ensures
        uids_in_order(fresh_mailbox(name, uid_validity)),
        uids_in_order(with_message(m, raw, envelope)),
        forall|i: int|
            0 <= i < m.messages.len() ==> (#[trigger] m.messages[i]).uid != with_message(
                m,
                raw,
                envelope,
            ).messages.last().uid,
{
}

/// One entry of an address list.
#[derive(Debug)]
pub enum ListedAddress {
    Single { display_name: Option<String>, addr: String },
    Group,
}

/// One entry of an address list, as mathematical values.
#[verifier::ext_equal]
pub enum ListedAddressView {
    Single { display_name: Option<Seq<char>>, addr: Seq<char> },
    Group,
}

impl View for ListedAddress {
    type V = ListedAddressView;

    open spec fn view(&self) -> ListedAddressView {
        match *self {
            ListedAddress::Single { display_name, addr } => ListedAddressView::Single {
                display_name: match display_name {
                    Some(n) => Some(n@),
                    None => None,
                },
                addr: addr@,
            },
            ListedAddress::Group => ListedAddressView::Group,
        }
    }
}

/// The entries that mailparse reads off an address header's value; nothing
/// where it cannot.
pub uninterp spec fn parsed_addresses(value: Seq<char>) -> Option<Seq<ListedAddressView>>;

/// An address list, by its views.
pub open spec fn address_views(r: Option<Vec<ListedAddress>>) -> Option<Seq<ListedAddressView>> {
    match r {
        Some(list) => Some(list@.map_values(|a: ListedAddress| a@)),
        None => None,
    }
}

/// `mailparse::addrparse`: the entries of an address header's value, in order,
/// groups without their members; `None` where the parse fails.
#[verifier::external_body]
fn addrparse(value: &str) -> (r: Option<Vec<ListedAddress>>)
    ensures
        address_views(r) == parsed_addresses(value@),
{
    let list = mailparse::addrparse(value).ok()?;
    Some(list.iter().map(|a| match a {
        mailparse::MailAddr::Single(s) => ListedAddress::Single {
            display_name: s.display_name.clone(),
            addr: s.addr.clone(),
        },
        mailparse::MailAddr::Group(_) => ListedAddress::Group,
    }).collect())
}

/// The value of a header, empty where the message has none of this name.
pub open spec fn header_or_empty(headers: Seq<(Seq<char>, Seq<char>)>, name: Seq<char>) -> Seq<
    char,
> {
    match first_value(headers, name) {
        Some(v) => v,
        None => Seq::empty(),
    }
}

/// Display name, mailbox and host of an address; what has no `@` is all
/// mailbox.
pub open spec fn address_parts(display_name: Option<Seq<char>>, addr: Seq<char>) -> (
    Seq<char>,
    Seq<char>,
    Seq<char>,
) {
    let at = index_of(addr, '@');
    let name = match display_name {
        Some(n) => n,
        None => Seq::empty(),
    };
    if at < addr.len() {
        (name, addr.take(at), addr.skip(at + 1))
    } else {
        (name, addr, Seq::empty())
    }
}

/// The first address of a parsed header; nothing where the header is missing
/// or does not parse, or starts with a group.
pub open spec fn first_listed(value: Seq<char>, parsed: Option<Seq<ListedAddressView>>) -> Option<
    (Seq<char>, Seq<char>, Seq<char>),
> {
    match parsed {
        Some(list) => if value.len() == 0 || list.len() == 0 {
            None
        } else {
            match list[0] {
                ListedAddressView::Single { display_name, addr } => Some(
                    address_parts(display_name, addr),
                ),
                ListedAddressView::Group => None,
            }
        },
        None => None,
    }
}

/// A stored address, by its characters.
pub open spec fn triple_view(t: Option<(String, String, String)>) -> Option<
    (Seq<char>, Seq<char>, Seq<char>),
> {
    match t {
        Some((a, b, c)) => Some((a@, b@, c@)),
        None => None,
    }
}

/// Whether `e` holds nothing.
pub open spec fn is_blank_envelope(e: Envelope) -> bool {
    &&& e.date@.len() == 0
    &&& e.subject@.len() == 0
    &&& e.from is None
    &&& e.to is None
    &&& e.message_id@.len() == 0
}

/// Whether `e` holds the envelope fields of a message with these headers.
pub open spec fn is_envelope_of(e: Envelope, headers: Seq<(Seq<char>, Seq<char>)>) -> bool {
    let from = header_or_empty(headers, "From"@);
    let to = header_or_empty(headers, "To"@);
    &&& e.date@ == header_or_empty(headers, "Date"@)
    &&& e.subject@ == header_or_empty(headers, "Subject"@)
    &&& triple_view(e.from) == first_listed(from, parsed_addresses(from))
    &&& triple_view(e.to) == first_listed(to, parsed_addresses(to))
    &&& e.message_id@ == header_or_empty(headers, "Message-ID"@)
}

/// Whether `e` is what is kept of a message once the parser gave `parsed`: the
/// fields of its own headers, or nothing where the parse failed.
pub open spec fn is_parsed_envelope(e: Envelope, parsed: Result<Seq<PartView>, Seq<char>>) -> bool {
    match parsed {
        Ok(parts) => is_envelope_of(e, parts[0].headers),
        Err(_) => is_blank_envelope(e),
    }
}

impl Default for Envelope {
    fn default() -> (r: Self)
        ensures
            is_blank_envelope(r),
    {
        Envelope {
            date: String::new(),
            subject: String::new(),
            from: None,
            to: None,
            message_id: String::new(),
        }
    }
}

fn header_text(headers: &Vec<(String, String)>, name: &str) -> (r: String)
    ensures
        r@ == header_or_empty(
            headers@.map_values(|h: (String, String)| crate::render::header_view(h)),
            name@,
        ),
{
    match get_first_value(headers, name) {
        Some(v) => v,
        None => String::new(),
    }
}

/// Display name, mailbox and host of an address, split at the first `@`.
pub fn split_address(display_name: &Option<String>, addr: &str) -> (r: (String, String, String))
    ensures
        (r.0@, r.1@, r.2@) == address_parts(
            match display_name {
                Some(n) => Some(n@),
                None => None,
            },
            addr@,
        ),
{
    let name = match display_name {
        Some(n) => n.clone(),
        None => String::new(),
    };
    let v = chars_of(addr);
    let n: usize = v.len();
    let mut at: usize = 0;
    while at < n && v[at] != '@'
        invariant
            at <= n == v.len(),
            v@ == addr@,
            forall|i: int| 0 <= i < at ==> v@[i] != '@',
        decreases n - at,
    {
        at = at + 1;
    }
    proof {
        lemma_index_of_is(v@, '@', at as int);
    }
    let mailbox = text_between(&v, 0, at);
    assert(v@.subrange(0, at as int) == v@.take(at as int));
    if at < n {
        let host = text_between(&v, at + 1, n);
        assert(host@ == v@.skip(at + 1));
        (name, mailbox, host)
    } else {
        assert(v@.take(n as int) == v@);
        (name, mailbox, String::new())
    }
}

/// The first address of a header, once the parser gave `parsed` for its value.
pub fn first_address(value: &str, parsed: &Option<Vec<ListedAddress>>) -> (r: Option<
    (String, String, String),
>)
    ensures
        triple_view(r) == first_listed(value@, address_views(*parsed)),
{
    if value.is_empty() {
        return None;
    }
    match parsed {
        Some(list) => {
            if list.len() == 0 {
                return None;
            }
            let ghost views = list@.map_values(|a: ListedAddress| a@);
            assert(views[0] == list@[0]@);
            match &list[0] {
                ListedAddress::Single { display_name, addr } => Some(
                    split_address(display_name, addr.as_str()),
                ),
                ListedAddress::Group => None,
            }
        },
        None => None,
    }
}

fn header_address(headers: &Vec<(String, String)>, name: &str) -> (r: Option<
    (String, String, String),
>)
    ensures
        ({
            let value = header_or_empty(
                headers@.map_values(|h: (String, String)| crate::render::header_view(h)),
                name@,
            );
            triple_view(r) == first_listed(value, parsed_addresses(value))
        }),
{
    let value = header_text(headers, name);
    first_address(value.as_str(), &addrparse(value.as_str()))
}

/// The envelope fields of a message with these headers.
pub fn envelope_from_headers(headers: &Vec<(String, String)>) -> (e: Envelope)
    ensures
        is_envelope_of(
            e,
            headers@.map_values(|h: (String, String)| crate::render::header_view(h)),
        ),
{
    Envelope {
        date: header_text(headers, "Date"),
        subject: header_text(headers, "Subject"),
        from: header_address(headers, "From"),
        to: header_address(headers, "To"),
        message_id: header_text(headers, "Message-ID"),
    }
}

/// Reads the handful of headers that listing a mailbox needs from a raw
/// message; nothing where it does not parse.
pub fn parse_envelope(raw: &[u8]) -> (e: Envelope)
    ensures
        is_parsed_envelope(e, parsed_mail(raw@)),
{
    match parse_mail(raw) {
        Ok(parts) => {
            assert(parsed_mail(raw@)->Ok_0[0] == parts@[0]@);
            envelope_from_headers(&parts[0].headers)
        },
        Err(_) => Envelope::default(),
    }
}

/// Users with their passwords, and mailboxes by name.
#[derive(Debug)]
pub struct Store {
    pub users: Vec<(String, String)>,
    pub mailboxes: Vec<Mailbox>,
}

/// The mailboxes of a list, each by its view.
pub open spec fn mailbox_views(mailboxes: Seq<Mailbox>) -> Seq<MailboxView> {
    mailboxes.map_values(|m: Mailbox| m@)
}

/// The place of the first mailbox of this name, or the number of mailboxes when
/// there is none.
pub open spec fn place_of(mailboxes: Seq<MailboxView>, name: Seq<char>) -> int
    decreases mailboxes.len(),
{
    if mailboxes.len() == 0 || mailboxes[0].name == name {
        0
    } else {
        1 + place_of(mailboxes.skip(1), name)
    }
}

/// The place of the first user of this name, or the number of users when there
/// is none.
pub open spec fn user_place(users: Seq<(String, String)>, name: Seq<char>) -> int
    decreases users.len(),
{
    if users.len() == 0 || users[0].0@ == name {
        0
    } else {
        1 + user_place(users.skip(1), name)
    }
}

/// A user's password, if there is such a user.
pub open spec fn password_of(users: Seq<(String, String)>, name: Seq<char>) -> Option<Seq<char>> {
    let at = user_place(users, name);
    if at < users.len() {
        Some(users[at].1@)
    } else {
        None
    }
}

/// `mailboxes` with an empty one of this name, unless there is one already.
pub open spec fn with_mailbox(mailboxes: Seq<MailboxView>, name: Seq<char>) -> Seq<MailboxView> {
    if place_of(mailboxes, name) < mailboxes.len() {
        mailboxes
    } else {
        mailboxes.push(fresh_mailbox(name, 1))
    }
}

/// `mailboxes` with those that every account has.
pub open spec fn with_usual_mailboxes(mailboxes: Seq<MailboxView>) -> Seq<MailboxView> {
    with_mailbox(
        with_mailbox(with_mailbox(with_mailbox(mailboxes, "INBOX"@), "Sent"@), "Drafts"@),
        "Trash"@,
    )
}

/// The names of mailboxes.
pub open spec fn mailbox_names_of(mailboxes: Seq<MailboxView>) -> Seq<Seq<char>> {
    mailboxes.map_values(|m: MailboxView| m.name)
}

proof fn lemma_place_of(mailboxes: Seq<MailboxView>, name: Seq<char>)
    ensures
        0 <= place_of(mailboxes, name) <= mailboxes.len(),
        forall|i: int| 0 <= i < place_of(mailboxes, name) ==> (#[trigger] mailboxes[i]).name != name,
        place_of(mailboxes, name) < mailboxes.len() ==> mailboxes[place_of(mailboxes, name)].name
            == name,
    decreases mailboxes.len(),
{
    if mailboxes.len() > 0 && mailboxes[0].name != name {
        lemma_place_of(mailboxes.skip(1), name);
        let k = place_of(mailboxes.skip(1), name);
        assert forall|i: int| 0 <= i < place_of(mailboxes, name) implies (
        #[trigger] mailboxes[i]).name != name by {
            if i > 0 {
                assert(mailboxes[i] == mailboxes.skip(1)[i - 1]);
            }
        }
        if k < mailboxes.skip(1).len() {
            assert(mailboxes.skip(1)[k] == mailboxes[k + 1]);
        }
    }
}

proof fn lemma_place_is(mailboxes: Seq<MailboxView>, name: Seq<char>, at: int)
    requires
        0 <= at <= mailboxes.len(),
        forall|i: int| 0 <= i < at ==> (#[trigger] mailboxes[i]).name != name,
        at < mailboxes.len() ==> mailboxes[at].name == name,
    ensures
        place_of(mailboxes, name) == at,
{
    lemma_place_of(mailboxes, name);
    let found = place_of(mailboxes, name);
    if found < at {
        assert(mailboxes[found].name != name);
    }
    if at < found {
        assert(mailboxes[at].name != name);
    }
}

proof fn lemma_user_place(users: Seq<(String, String)>, name: Seq<char>)
    ensures
        0 <= user_place(users, name) <= users.len(),
        forall|i: int| 0 <= i < user_place(users, name) ==> (#[trigger] users[i]).0@ != name,
        user_place(users, name) < users.len() ==> users[user_place(users, name)].0@ == name,
    decreases users.len(),
{
    if users.len() > 0 && users[0].0@ != name {
        lemma_user_place(users.skip(1), name);
        let k = user_place(users.skip(1), name);
        assert forall|i: int| 0 <= i < user_place(users, name) implies (
        #[trigger] users[i]).0@ != name by {
            if i > 0 {
                assert(users[i] == users.skip(1)[i - 1]);
            }
        }
        if k < users.skip(1).len() {
            assert(users.skip(1)[k] == users[k + 1]);
        }
    }
}

proof fn lemma_user_place_is(users: Seq<(String, String)>, name: Seq<char>, at: int)
    requires
        0 <= at <= users.len(),
        forall|i: int| 0 <= i < at ==> (#[trigger] users[i]).0@ != name,
        at < users.len() ==> users[at].0@ == name,
    ensures
        user_place(users, name) == at,
{
    lemma_user_place(users, name);
    let found = user_place(users, name);
    if found < at {
        assert(users[found].0@ != name);
    }
    if at < found {
        assert(users[at].0@ != name);
    }
}

impl Store {
    /// The mailboxes, each by its view.
    pub open spec fn views(self) -> Seq<MailboxView> {
        mailbox_views(self.mailboxes@)
    }

    /// No two mailboxes share a name, and the UIDs of each are in order.
    pub open spec fn wf(self) -> bool {
        &&& forall|i: int, j: int|
            0 <= i < j < self.views().len() ==> (#[trigger] self.views()[i]).name != (
            #[trigger] self.views()[j]).name
        &&& forall|i: int| 0 <= i < self.views().len() ==> uids_in_order(#[trigger] self.views()[i])
    }

    /// No users, no mailboxes.
    pub fn new() -> (r: Self)
        ensures
            r.users@.len() == 0,
            r.mailboxes@.len() == 0,
            r.wf(),
    {
        Store { users: Vec::new(), mailboxes: Vec::new() }
    }

    fn find(&self, name: &str) -> (at: usize)
        ensures
            at == place_of(self.views(), name@),
            at <= self.mailboxes@.len(),
    {
        let ghost views = self.views();
        let mut i: usize = 0;
        while i < self.mailboxes.len() && !same_text(self.mailboxes[i].name.as_str(), name)
            invariant
                i <= self.mailboxes.len(),
                views == self.views(),
                forall|k: int| 0 <= k < i ==> (#[trigger] views[k]).name != name@,
            decreases self.mailboxes.len() - i,
        {
            assert(views[i as int] == self.mailboxes@[i as int]@);
            i = i + 1;
        }
        proof {
            if i < views.len() {
                assert(views[i as int] == self.mailboxes@[i as int]@);
            }
            lemma_place_is(views, name@, i as int);
        }
        i
    }

    fn ensure_mailbox(&mut self, name: &str) -> (at: usize)
        requires
            old(self).wf(),
        ensures
            final(self).wf(),
            final(self).users == old(self).users,
            final(self).views() == with_mailbox(old(self).views(), name@),
            at == place_of(final(self).views(), name@),
            at < final(self).mailboxes@.len(),
    {
        let at: usize = self.find(name);
        let ghost before = self.views();
        if at == self.mailboxes.len() {
            self.mailboxes.push(Mailbox::new(name, 1));
            assert(self.views() == before.push(fresh_mailbox(name@, 1)));
            proof {
                lemma_place_of(before, name@);
                let after = self.views();
                assert forall|i: int, j: int| 0 <= i < j < after.len() implies (
                #[trigger] after[i]).name != (#[trigger] after[j]).name by {
                    if j < before.len() {
                        assert(before[i].name != before[j].name);
                    } else {
                        assert(before[i].name != name@);
                    }
                }
                assert forall|i: int| 0 <= i < after.len() implies uids_in_order(
                    #[trigger] after[i],
                ) by {
                    if i < before.len() {
                        assert(uids_in_order(before[i]));
                    }
                }
                assert forall|i: int| 0 <= i < at implies (#[trigger] after[i]).name != name@ by {
                    assert(after[i] == before[i]);
                }
                lemma_place_is(after, name@, at as int);
            }
        }
        at
    }

    /// Add a user, or change a user's password. A fresh account gets the usual
    /// mailboxes, so that listing them has something to return and delivery
    /// always has an inbox to land in.
    pub fn add_user(&mut self, username: &str, password: &str)
        requires
            old(self).wf(),
        ensures
            final(self).wf(),
            final(self).views() == with_usual_mailboxes(old(self).views()),
            password_of(final(self).users@, username@) == Some(password@),
            forall|other: Seq<char>|
                other != username@ ==> #[trigger] password_of(final(self).users@, other)
                    == password_of(old(self).users@, other),
    {
        let ghost before = self.users@;
        let mut i: usize = 0;
        while i < self.users.len() && !same_text(self.users[i].0.as_str(), username)
            invariant
                i <= self.users.len(),
                self.users@ == before,
                *self == *old(self),
                forall|k: int| 0 <= k < i ==> (#[trigger] before[k]).0@ != username@,
            decreases self.users.len() - i,
        {
            i = i + 1;
        }
        let entry = (username.to_owned(), password.to_owned());
        if i < self.users.len() {
            self.users.set(i, entry);
        } else {
            self.users.push(entry);
        }
        proof {
            let after = self.users@;
            assert forall|k: int| 0 <= k < i implies (#[trigger] after[k]).0@ != username@ by {
                assert(after[k] == before[k]);
            }
            lemma_user_place_is(after, username@, i as int);
            assert forall|other: Seq<char>| other != username@ implies #[trigger] password_of(
                after,
                other,
            ) == password_of(before, other) by {
                lemma_user_place(before, other);
                let p = user_place(before, other);
                if p < before.len() {
                    assert forall|k: int| 0 <= k < p implies (#[trigger] after[k]).0@ != other by {
                        if k != i {
                            assert(after[k] == before[k]);
                        }
                    }
                    assert(p != i);
                    assert(after[p] == before[p]);
                    lemma_user_place_is(after, other, p);
                } else {
                    assert forall|k: int| 0 <= k < after.len() implies (
                    #[trigger] after[k]).0@ != other by {
                        if k != i {
                            assert(after[k] == before[k]);
                        }
                    }
                    lemma_user_place_is(after, other, after.len() as int);
                }
            }
        }
        assert(self.views() == old(self).views());
        assert(self.wf());
        self.ensure_mailbox("INBOX");
        self.ensure_mailbox("Sent");
        self.ensure_mailbox("Drafts");
        self.ensure_mailbox("Trash");
    }

    /// Whether this is the user's password.
    pub fn check_login(&self, username: &str, password: &str) -> (r: bool)
        ensures
            r == (password_of(self.users@, username@) == Some(password@)),
    {
        let mut i: usize = 0;
        while i < self.users.len() && !same_text(self.users[i].0.as_str(), username)
            invariant
                i <= self.users.len(),
                forall|k: int| 0 <= k < i ==> (#[trigger] self.users@[k]).0@ != username@,
            decreases self.users.len() - i,
        {
            i = i + 1;
        }
        proof {
            lemma_user_place_is(self.users@, username@, i as int);
        }
        if i < self.users.len() {
            same_text(self.users[i].1.as_str(), password)
        } else {
            false
        }
    }

    /// The names of all mailboxes, in order.
    pub fn mailbox_names(&self) -> (r: Vec<String>)
        ensures
            is_sorted(texts(r@)),
            texts(r@).to_multiset() == mailbox_names_of(self.views()).to_multiset(),
    {
        let mut names: Vec<String> = Vec::new();
        let ghost all = mailbox_names_of(self.views());
        let mut i: usize = 0;
        assert(texts(names@) == all.take(0));
        while i < self.mailboxes.len()
            invariant
                i <= self.mailboxes.len(),
                all == mailbox_names_of(self.views()),
                texts(names@) == all.take(i as int),
            decreases self.mailboxes.len() - i,
        {
            let ghost before = names@;
            names.push(self.mailboxes[i].name.clone());
            assert(texts(names@) == texts(before).push(self.mailboxes@[i as int].name@));
            assert(all[i as int] == self.mailboxes@[i as int].name@);
            i = i + 1;
            assert(texts(names@) == all.take(i as int));
        }
        assert(all.take(all.len() as int) == all);
        sort_texts(names)
    }

    /// The mailbox of this name.
    pub fn mailbox(&self, name: &str) -> (r: Option<&Mailbox>)
        ensures
            match r {
                Some(m) => place_of(self.views(), name@) < self.mailboxes@.len() && *m
                    == self.mailboxes@[place_of(self.views(), name@)],
                None => place_of(self.views(), name@) == self.mailboxes@.len(),
            },
    {
        let at: usize = self.find(name);
        if at < self.mailboxes.len() {
            Some(&self.mailboxes[at])
        } else {
            None
        }
    }

    /// The mailbox of this name, to change it.
    pub fn mailbox_mut(&mut self, name: &str) -> (r: Option<&mut Mailbox>)
        ensures
            final(self).users == old(self).users,
            match r {
                Some(m) => {
                    let at = place_of(old(self).views(), name@);
                    &&& at < old(self).mailboxes@.len()
                    &&& *m == old(self).mailboxes@[at]
                    &&& final(self).mailboxes@ == old(self).mailboxes@.update(at, *final(m))
                },
                None => place_of(old(self).views(), name@) == old(self).mailboxes@.len()
                    && *final(self) == *old(self),
            },
    {
        let at: usize = self.find(name);
        if at < self.mailboxes.len() {
            Some(&mut self.mailboxes[at])
        } else {
            None
        }
    }

    /// Deliver a message into a mailbox, which is made if it is not there;
    /// returns the UID that the message got.
    pub fn deliver(&mut self, recipient_mailbox: &str, raw: Vec<u8>) -> (uid: u32)
        requires
            old(self).wf(),
            ({
                let at = place_of(old(self).views(), recipient_mailbox@);
                at < old(self).views().len() ==> old(self).views()[at].uid_next < u32::MAX
            }),
        ensures
            final(self).wf(),
            final(self).users == old(self).users,
            is_delivered(old(self).views(), recipient_mailbox@, raw, uid, final(self).views()),
    {
        let envelope = parse_envelope(raw.as_slice());
        let at: usize = self.ensure_mailbox(recipient_mailbox);
        let ghost ready = self.views();
        let ghost kept = envelope;
        proof {
            lemma_place_of(old(self).views(), recipient_mailbox@);
            assert(ready[at as int] == self.mailboxes@[at as int]@);
            if place_of(old(self).views(), recipient_mailbox@) == old(self).views().len() {
                lemma_place_is(ready, recipient_mailbox@, old(self).views().len() as int);
            }
        }
        let uid: u32 = self.mailboxes[at].append(raw, envelope);
        proof {
            let after = self.views();
            assert(after == ready.update(at as int, with_message(ready[at as int], raw, kept)));
            uids_stay_in_order(ready[at as int], recipient_mailbox@, 1, raw, kept);
            assert forall|i: int, j: int| 0 <= i < j < after.len() implies (
            #[trigger] after[i]).name != (#[trigger] after[j]).name by {
                assert(ready[i].name != ready[j].name);
            }
            assert forall|i: int| 0 <= i < after.len() implies uids_in_order(
                #[trigger] after[i],
            ) by {
                assert(uids_in_order(ready[i]));
            }
        }
        uid
    }
}

/// Whether `after` is `before` with this message, its envelope fields read,
/// under this UID at the end of the recipient's mailbox.
pub open spec fn is_delivered(
    before: Seq<MailboxView>,
    recipient: Seq<char>,
    raw: Vec<u8>,
    uid: u32,
    after: Seq<MailboxView>,
) -> bool {
    let ready = with_mailbox(before, recipient);
    let at = place_of(ready, recipient);
    &&& uid == ready[at].uid_next
    &&& exists|envelope: Envelope|
        is_parsed_envelope(envelope, parsed_mail(raw@)) && after == ready.update(
            at,
            #[trigger] with_message(ready[at], raw, envelope),
        )
}

/// A message that was delivered is the last one of the recipient's mailbox,
/// byte for byte, under the UID that delivery returned; every other mailbox is
/// as it was.
pub proof fn delivered_mail_is_found(
    before: Seq<MailboxView>,
    recipient: Seq<char>,
    raw: Vec<u8>,
    uid: u32,
    after: Seq<MailboxView>,
    other: Seq<char>,
)
    requires
        is_delivered(before, recipient, raw, uid, after),
    ensures
        place_of(after, recipient) < after.len(),
        ({
            let m = after[place_of(after, recipient)];
            &&& m.messages.len() > 0
            &&& m.messages.last().uid == uid
            &&& m.messages.last().raw == raw
        }),
        other != recipient && place_of(before, other) < before.len() ==> {
            &&& place_of(after, other) < after.len()
            &&& after[place_of(after, other)] == before[place_of(before, other)]
        },
{
    let ready = with_mailbox(before, recipient);
    lemma_place_of(before, recipient);
    let at = place_of(before, recipient);
    assert forall|i: int| 0 <= i < at implies (#[trigger] ready[i]).name != recipient by {
        assert(ready[i] == before[i]);
    }
    lemma_place_is(ready, recipient, at);
    let envelope = choose|envelope: Envelope|
        is_parsed_envelope(envelope, parsed_mail(raw@)) && after == ready.update(
            at,
            #[trigger] with_message(ready[at], raw, envelope),
        );
    assert(after == ready.update(at, with_message(ready[at], raw, envelope)));
    assert forall|i: int| 0 <= i < at implies (#[trigger] after[i]).name != recipient by {
        assert(after[i] == ready[i]);
    }
    lemma_place_is(after, recipient, at);
    if other != recipient && place_of(before, other) < before.len() {
        lemma_place_of(before, other);
        let p = place_of(before, other);
        assert forall|i: int| 0 <= i < p implies (#[trigger] after[i]).name != other by {
            if i != at {
                assert(after[i] == before[i]);
            }
        }
        assert(after[p] == before[p]);
        lemma_place_is(after, other, p);
    }
}

/// An address is split at its first `@`: what stands before it is the mailbox,
/// all that follows the host. Without one all of it is the mailbox.
pub proof fn addresses_are_split_at_the_first_at_sign(
    name: Seq<char>,
    mailbox: Seq<char>,
    host: Seq<char>,
)
    requires
        forall|i: int| 0 <= i < mailbox.len() ==> #[trigger] mailbox[i] != '@',
    ensures
        address_parts(Some(name), mailbox + seq!['@'] + host) == (name, mailbox, host),
        address_parts(None, mailbox + seq!['@'] + host) == (Seq::<char>::empty(), mailbox, host),
        address_parts(Some(name), mailbox) == (name, mailbox, Seq::<char>::empty()),
        address_parts(None, mailbox) == (Seq::<char>::empty(), mailbox, Seq::<char>::empty()),
{
    let addr = mailbox + seq!['@'] + host;
    assert forall|i: int| 0 <= i < mailbox.len() implies addr[i] != '@' by {
        assert(addr[i] == mailbox[i]);
    }
    lemma_index_of_is(addr, '@', mailbox.len() as int);
    lemma_index_of_is(mailbox, '@', mailbox.len() as int);
    assert(addr.take(mailbox.len() as int) == mailbox);
    assert(addr.skip(mailbox.len() as int + 1) == host);
}

/// The first of the listed addresses counts, whatever follows it; a group in
/// its place, or a header that does not parse, names nobody.
pub proof fn the_first_listed_address_counts(
    value: Seq<char>,
    name: Option<Seq<char>>,
    addr: Seq<char>,
    rest: Seq<ListedAddressView>,
)
    requires
        value.len() > 0,
    ensures
        first_listed(
            value,
            Some(seq![ListedAddressView::Single { display_name: name, addr }] + rest),
        ) == Some(address_parts(name, addr)),
        first_listed(value, Some(seq![ListedAddressView::Group] + rest)) is None,
        first_listed(value, None) is None,
{
    assert((seq![ListedAddressView::Single { display_name: name, addr }] + rest)[0]
        == ListedAddressView::Single { display_name: name, addr });
    assert((seq![ListedAddressView::Group] + rest)[0] == ListedAddressView::Group);
}

/// Each field of an envelope holds the value of its own header, wherever that
/// header stands and however its name is cased.
pub proof fn envelopes_hold_their_headers(
    e: Envelope,
    before: Seq<(Seq<char>, Seq<char>)>,
    header: (Seq<char>, Seq<char>),
    after: Seq<(Seq<char>, Seq<char>)>,
)
    requires
        is_envelope_of(e, before + seq![header] + after),
        forall|i: int|
            0 <= i < before.len() ==> ascii_lowered((#[trigger] before[i]).0) != ascii_lowered(
                header.0,
            ),
    ensures
        ascii_lowered(header.0) == ascii_lowered("Date"@) ==> e.date@ == header.1,
        ascii_lowered(header.0) == ascii_lowered("Subject"@) ==> e.subject@ == header.1,
        ascii_lowered(header.0) == ascii_lowered("Message-ID"@) ==> e.message_id@ == header.1,
        ascii_lowered(header.0) == ascii_lowered("From"@) ==> triple_view(e.from) == first_listed(
            header.1,
            parsed_addresses(header.1),
        ),
        ascii_lowered(header.0) == ascii_lowered("To"@) ==> triple_view(e.to) == first_listed(
            header.1,
            parsed_addresses(header.1),
        ),
{
    if ascii_lowered(header.0) == ascii_lowered("Date"@) {
        headers_are_found_by_name(before, header, after, "Date"@);
    }
    if ascii_lowered(header.0) == ascii_lowered("Subject"@) {
        headers_are_found_by_name(before, header, after, "Subject"@);
    }
    if ascii_lowered(header.0) == ascii_lowered("Message-ID"@) {
        headers_are_found_by_name(before, header, after, "Message-ID"@);
    }
    if ascii_lowered(header.0) == ascii_lowered("From"@) {
        headers_are_found_by_name(before, header, after, "From"@);
    }
    if ascii_lowered(header.0) == ascii_lowered("To"@) {
        headers_are_found_by_name(before, header, after, "To"@);
    }
}

/// A message is added behind all that were there, whole and under the UID that
/// was next, and the one after it gets the following UID.
pub proof fn added_messages_come_last(m: MailboxView, raw: Vec<u8>, envelope: Envelope, i: int)
    requires
        m.uid_next < u32::MAX,
    ensures
        with_message(m, raw, envelope).messages.len() == m.messages.len() + 1,
        with_message(m, raw, envelope).messages.last().raw == raw,
        with_message(m, raw, envelope).messages.last().envelope == envelope,
        with_message(m, raw, envelope).messages.last().uid == m.uid_next,
        with_message(m, raw, envelope).uid_next == m.uid_next + 1,
        with_message(m, raw, envelope).name == m.name,
        with_message(m, raw, envelope).uid_validity == m.uid_validity,
        0 <= i < m.messages.len() ==> with_message(m, raw, envelope).messages[i] == m.messages[i],
{
}

/// The first mailbox that a message is delivered to is made on the way, empty
/// but for it; a later message is added to what is there.
pub proof fn delivery_keeps_earlier_mail(
    before: Seq<MailboxView>,
    recipient: Seq<char>,
    raw: Vec<u8>,
    uid: u32,
    after: Seq<MailboxView>,
)
    requires
        is_delivered(before, recipient, raw, uid, after),
        forall|i: int|
            0 <= i < before.len() ==> (#[trigger] before[i]).uid_next < u32::MAX,
    ensures
        place_of(before, recipient) < before.len() ==> {
            let old_mail = before[place_of(before, recipient)];
            let new_mail = after[place_of(after, recipient)];
            &&& after.len() == before.len()
            &&& new_mail.messages.drop_last() == old_mail.messages
            &&& new_mail.uid_validity == old_mail.uid_validity
            &&& uid == old_mail.uid_next
            &&& new_mail.uid_next == uid + 1
        },
        place_of(before, recipient) == before.len() ==> {
            let new_mail = after[place_of(after, recipient)];
            &&& after.len() == before.len() + 1
            &&& new_mail.messages.len() == 1
            &&& uid == 1
            &&& new_mail.uid_next == 2
            &&& new_mail.name == recipient
        },
        is_parsed_envelope(
            after[place_of(after, recipient)].messages.last().envelope,
            parsed_mail(raw@),
        ),
{
    let ready = with_mailbox(before, recipient);
    lemma_place_of(before, recipient);
    let at = place_of(before, recipient);
    assert forall|i: int| 0 <= i < at implies (#[trigger] ready[i]).name != recipient by {
        assert(ready[i] == before[i]);
    }
    lemma_place_is(ready, recipient, at);
    let envelope = choose|envelope: Envelope|
        is_parsed_envelope(envelope, parsed_mail(raw@)) && after == ready.update(
            at,
            #[trigger] with_message(ready[at], raw, envelope),
        );
    assert(after == ready.update(at, with_message(ready[at], raw, envelope)));
    assert forall|i: int| 0 <= i < at implies (#[trigger] after[i]).name != recipient by {
        assert(after[i] == ready[i]);
    }
    lemma_place_is(after, recipient, at);
    if at < before.len() {
        assert(before[at].uid_next < u32::MAX);
        assert(after[at].messages.drop_last() == before[at].messages);
    }
}

/// Every account has an inbox and the mailboxes for what is sent, drafted and
/// thrown away; those that were there stay as they were.
pub proof fn accounts_have_the_usual_mailboxes(mailboxes: Seq<MailboxView>, i: int)
    ensures
        place_of(with_usual_mailboxes(mailboxes), "INBOX"@) < with_usual_mailboxes(mailboxes).len(),
        place_of(with_usual_mailboxes(mailboxes), "Sent"@) < with_usual_mailboxes(mailboxes).len(),
        place_of(with_usual_mailboxes(mailboxes), "Drafts"@) < with_usual_mailboxes(
            mailboxes,
        ).len(),
        place_of(with_usual_mailboxes(mailboxes), "Trash"@) < with_usual_mailboxes(mailboxes).len(),
        mailboxes.len() <= with_usual_mailboxes(mailboxes).len() <= mailboxes.len() + 4,
        0 <= i < mailboxes.len() ==> with_usual_mailboxes(mailboxes)[i] == mailboxes[i],
        mailboxes.len() <= i < with_usual_mailboxes(mailboxes).len() ==> with_usual_mailboxes(
            mailboxes,
        )[i].messages.len() == 0,
{
    let a = with_mailbox(mailboxes, "INBOX"@);
    let b = with_mailbox(a, "Sent"@);
    let c = with_mailbox(b, "Drafts"@);
    let d = with_mailbox(c, "Trash"@);
    lemma_with_mailbox(mailboxes, "INBOX"@, "INBOX"@);
    lemma_with_mailbox(a, "Sent"@, "INBOX"@);
    lemma_with_mailbox(b, "Drafts"@, "INBOX"@);
    lemma_with_mailbox(b, "Drafts"@, "Sent"@);
    lemma_with_mailbox(c, "Trash"@, "INBOX"@);
    lemma_with_mailbox(c, "Trash"@, "Sent"@);
    lemma_with_mailbox(c, "Trash"@, "Drafts"@);
}

proof fn lemma_with_mailbox(mailboxes: Seq<MailboxView>, name: Seq<char>, other: Seq<char>)
    ensures
        place_of(with_mailbox(mailboxes, name), name) < with_mailbox(mailboxes, name).len(),
        place_of(mailboxes, other) < mailboxes.len() ==> place_of(
            with_mailbox(mailboxes, name),
            other,
        ) < with_mailbox(mailboxes, name).len(),
{
    lemma_place_of(mailboxes, name);
    lemma_place_of(mailboxes, other);
    let all = with_mailbox(mailboxes, name);
    if place_of(mailboxes, name) == mailboxes.len() {
        assert forall|i: int| 0 <= i < mailboxes.len() implies (#[trigger] all[i]).name != name by {
            assert(all[i] == mailboxes[i]);
        }
        lemma_place_is(all, name, mailboxes.len() as int);
    }
    let at = place_of(mailboxes, other);
    if at < mailboxes.len() {
        assert forall|i: int| 0 <= i < at implies (#[trigger] all[i]).name != other by {
            assert(all[i] == mailboxes[i]);
        }
        assert(all[at] == mailboxes[at]);
        lemma_place_is(all, other, at);
    }
}

/// The password of a user is the one of the first entry under this very name.
pub proof fn passwords_go_by_the_name(
    before: Seq<(String, String)>,
    entry: (String, String),
    after: Seq<(String, String)>,
)
    requires
        forall|i: int| 0 <= i < before.len() ==> (#[trigger] before[i]).0@ != entry.0@,
    ensures
        password_of(before + seq![entry] + after, entry.0@) == Some(entry.1@),
        password_of(before, entry.0@) is None,
{
    let all = before + seq![entry] + after;
    assert forall|i: int| 0 <= i < before.len() implies (#[trigger] all[i]).0@ != entry.0@ by {
        assert(all[i] == before[i]);
    }
    lemma_user_place_is(all, entry.0@, before.len() as int);
    lemma_user_place_is(before, entry.0@, before.len() as int);
}

/// A message that cannot be read, and a fresh envelope, hold nothing; a header
/// without a value names nobody.
pub proof fn unreadable_messages_have_blank_envelopes(
    e: Envelope,
    error: Seq<char>,
    list: Option<Seq<ListedAddressView>>,
)
    ensures
        is_blank_envelope(e) <==> e.date@.len() == 0 && e.subject@.len() == 0 && e.from is None
            && e.to is None && e.message_id@.len() == 0,
        is_parsed_envelope(e, Err(error)) ==> e.date@.len() == 0 && e.subject@.len() == 0
            && e.from is None && e.to is None && e.message_id@.len() == 0,
        first_listed(Seq::empty(), list) is None,
{
}

/// The envelope of a message that can be read comes from the headers of the
/// message itself, not from those of its parts.
pub proof fn envelopes_come_from_the_outermost_part(e: Envelope, parts: Seq<PartView>)
    requires
        parts.len() > 0,
        is_parsed_envelope(e, Ok(parts)),
    ensures
        is_envelope_of(e, parts[0].headers),
{
}

/// A mailbox that is made holds nothing; its numbering is the first, and so is
/// the UID that its first message gets.
pub proof fn new_mailboxes_are_empty(mailboxes: Seq<MailboxView>, name: Seq<char>)
    requires
        place_of(mailboxes, name) == mailboxes.len(),
    ensures
        with_mailbox(mailboxes, name).len() == mailboxes.len() + 1,
        with_mailbox(mailboxes, name).drop_last() == mailboxes,
        with_mailbox(mailboxes, name).last().name == name,
        with_mailbox(mailboxes, name).last().messages.len() == 0,
        with_mailbox(mailboxes, name).last().uid_validity == 1,
        with_mailbox(mailboxes, name).last().uid_next == 1,
{
    assert(with_mailbox(mailboxes, name).drop_last() =~= mailboxes);
}

/// The model of a mailbox has the mailbox's own fields, and in a mailbox in order
/// no UID stands twice and the next one is larger than all of them.
pub proof fn mailboxes_keep_their_numbers(m: Mailbox, i: int, j: int)
    ensures
        m@.name == m.name@,
        m@.messages == m.messages@,
        m@.uid_validity == m.uid_validity,
        m@.uid_next == m.uid_next,
        uids_in_order(m@) && 0 <= i < j < m.messages@.len() ==> m.messages@[i].uid
            < m.messages@[j].uid && m.messages@[j].uid < m.uid_next,
{
}

/// The model of an address list has each entry, with its name and its address,
/// and the names of mailboxes are listed one for one.
pub proof fn models_keep_every_entry(
    list: Vec<ListedAddress>,
    i: int,
    name: String,
    addr: String,
    mailboxes: Seq<Mailbox>,
    k: int,
)
    requires
        0 <= i < list@.len(),
        0 <= k < mailboxes.len(),
    ensures
        address_views(Some(list)) matches Some(all) && all.len() == list@.len() && all[i]
            == list@[i]@,
        address_views(None) is None,
        (ListedAddress::Single { display_name: Some(name), addr })@ == (ListedAddressView::Single {
            display_name: Some(name@),
            addr: addr@,
        }),
        (ListedAddress::Single { display_name: None, addr })@ == (ListedAddressView::Single {
            display_name: None,
            addr: addr@,
        }),
        ListedAddress::Group@ == ListedAddressView::Group,
        mailbox_views(mailboxes).len() == mailboxes.len(),
        mailbox_views(mailboxes)[k] == mailboxes[k]@,
        mailbox_names_of(mailbox_views(mailboxes)).len() == mailboxes.len(),
        mailbox_names_of(mailbox_views(mailboxes))[k] == mailboxes[k].name@,
{
}

} // verus!
