//! Account configuration: the accounts a user has set up, how they are added,
//! replaced and removed, and how the older three-line settings file becomes an
//! account. Passwords never live here.
use vstd::prelude::*;

use crate::text::{
    chars_of, decimal, has_prefix, is_white, lines, lines_end_at_line_feeds, lines_of,
    numbers_are_written_in_decimal, parse_u16, parsed_u16,
    parts_of_a_text_are_found, ports_are_read_in_decimal, same_text, starts_with, text_between,
    trim, trimmed, trimming_keeps_what_is_between,
};

verus! {

/// How to secure a connection to a mail server.
#[derive(Debug, Clone, Copy, PartialEq, Eq, Structural)]
pub enum TlsMode {
    /// Implicit TLS from the first byte (IMAPS/SMTPS, ports 993/465).
    Ssl,
    /// Plaintext connection upgraded via `STARTTLS`.
    StartTls,
    /// No transport security. Only useful for local/test servers.
    Plaintext,
}

/// One configured mail account. Passwords are looked up separately, from the
/// OS keyring, keyed by the account's `id`.
#[derive(Debug, PartialEq)]
pub struct AccountConfig {
    /// Stable identifier for this account, used as the keyring key and to
    /// match this entry across edits. Not shown in the UI.
    pub id: String,
    /// Human-readable label, e.g. "Work" or the email address.
    pub display_name: String,
    pub imap_host: String,
    pub imap_port: u16,
    pub imap_tls: TlsMode,
    pub smtp_host: String,
    pub smtp_port: u16,
    pub smtp_tls: TlsMode,
    /// Used for both IMAP and SMTP auth.
    pub username: String,
}

impl Clone for AccountConfig {
    fn clone(&self) -> (r: Self)
        ensures
            r == *self,
    {
        AccountConfig {
            id: self.id.clone(),
            display_name: self.display_name.clone(),
            imap_host: self.imap_host.clone(),
            imap_port: self.imap_port,
            imap_tls: self.imap_tls,
            smtp_host: self.smtp_host.clone(),
            smtp_port: self.smtp_port,
            smtp_tls: self.smtp_tls,
            username: self.username.clone(),
        }
    }
}

/// The identifier of the account of `username` on `imap_host`.
pub open spec fn account_id(username: Seq<char>, imap_host: Seq<char>) -> Seq<char> {
    username.push('@') + imap_host
}

/// The sending host that usually stands beside an IMAP host: `imap.` in front
/// becomes `smtp.`; a host that is named otherwise is taken to do both.
pub open spec fn guessed_smtp_host(imap_host: Seq<char>) -> Seq<char> {
    if has_prefix(imap_host, "imap."@) {
        "smtp."@ + imap_host.skip(5)
    } else {
        imap_host
    }
}

/// The sending host that usually stands beside an IMAP host: `imap.` in front
/// becomes `smtp.`; a host that is named otherwise is taken to do both. A
/// guess, which the user can change.
pub fn derive_smtp_host(imap_host: &str) -> (r: String)
    ensures
        r@ == guessed_smtp_host(imap_host@),
{
    proof {
        reveal_strlit("imap.");
    }
    if starts_with(imap_host, "imap.") {
        let v = chars_of(imap_host);
        let mut s = "smtp.".to_owned();
        s.append(text_between(&v, 5, v.len()).as_str());
        assert(v@.subrange(5, v@.len() as int) == v@.skip(5));
        s
    } else {
        imap_host.to_owned()
    }
}

/// Whether `a` is a fresh account with these settings: implicit TLS both ways,
/// port 465 for sending, and the sending host guessed from the other.
pub open spec fn is_new_account(
    a: AccountConfig,
    display_name: Seq<char>,
    imap_host: Seq<char>,
    imap_port: u16,
    username: Seq<char>,
) -> bool {
    &&& a.id@ == account_id(username, imap_host)
    &&& a.display_name@ == display_name
    &&& a.imap_host@ == imap_host
    &&& a.imap_port == imap_port
    &&& a.imap_tls == TlsMode::Ssl
    &&& a.smtp_host@ == guessed_smtp_host(imap_host)
    &&& a.smtp_port == 465
    &&& a.smtp_tls == TlsMode::Ssl
    &&& a.username@ == username
}

/// The identifier of the account of `username` on `imap_host`.
pub fn make_account_id(username: &str, imap_host: &str) -> (id: String)
    ensures
        id@ == account_id(username@, imap_host@),
{
    let mut id = username.to_owned();
    id.push('@');
    id.append(imap_host);
    id
}

impl AccountConfig {
    /// A new account for `username`@`imap_host`, with the common IMAPS/SMTPS
    /// defaults (993/465, implicit TLS) and a guess at the sending host, until
    /// the user overrides them.
    pub fn new(display_name: String, imap_host: String, imap_port: u16, username: String) -> (r: Self)
        ensures
            is_new_account(r, display_name@, imap_host@, imap_port, username@),
    {
        AccountConfig {
            id: make_account_id(&username, &imap_host),
            display_name,
            smtp_host: derive_smtp_host(&imap_host),
            imap_host,
            imap_port,
            imap_tls: TlsMode::Ssl,
            smtp_port: 465,
            smtp_tls: TlsMode::Ssl,
            username,
        }
    }
}

/// All configured accounts.
#[derive(Debug, PartialEq)]
pub struct Config {
    pub accounts: Vec<AccountConfig>,
}

impl Clone for Config {
    fn clone(&self) -> (r: Self)
        ensures
            r.accounts@ == self.accounts@,
    {
        let mut accounts: Vec<AccountConfig> = Vec::new();
        let mut i: usize = 0;
        while i < self.accounts.len()
            invariant
                i <= self.accounts.len(),
                accounts@ == self.accounts@.take(i as int),
            decreases self.accounts.len() - i,
        {
            accounts.push(self.accounts[i].clone());
            i = i + 1;
            assert(accounts@ == self.accounts@.take(i as int));
        }
        assert(self.accounts@.take(self.accounts@.len() as int) == self.accounts@);
        Config { accounts }
    }
}

impl Default for Config {
    fn default() -> (r: Self)
        ensures
            r.accounts@ == Seq::<AccountConfig>::empty(),
    {
        Config { accounts: Vec::new() }
    }
}

/// The place of the first account with this `id`, or the number of accounts
/// when there is none.
pub open spec fn position(accounts: Seq<AccountConfig>, id: Seq<char>) -> int
    decreases accounts.len(),
{
    if accounts.len() == 0 || accounts[0].id@ == id {
        0
    } else {
        1 + position(accounts.skip(1), id)
    }
}

/// `accounts` with the first entry of `account`'s id replaced by it, or with
/// `account` at the end when no entry has that id.
pub open spec fn upserted(accounts: Seq<AccountConfig>, account: AccountConfig) -> Seq<
    AccountConfig,
> {
    let at = position(accounts, account.id@);
    if at < accounts.len() {
        accounts.update(at, account)
    } else {
        accounts.push(account)
    }
}

/// The test for accounts of another id.
pub open spec fn has_other_id(id: Seq<char>) -> spec_fn(AccountConfig) -> bool {
    |a: AccountConfig| a.id@ != id
}

/// `accounts` without the entries of this `id`, the others in their order.
pub open spec fn without_id(accounts: Seq<AccountConfig>, id: Seq<char>) -> Seq<AccountConfig> {
    accounts.filter(has_other_id(id))
}

/// No two accounts share an id.
pub open spec fn distinct_ids(accounts: Seq<AccountConfig>) -> bool {
    forall|i: int, j: int|
        0 <= i < j < accounts.len() ==> (#[trigger] accounts[i]).id@ != (#[trigger] accounts[j]).id@
}

/// What the older settings file holds: host, port and user name, one to a
/// line, each trimmed; an unreadable port means 993. Nothing, when a line is
/// missing or the host or the user name is blank.
pub open spec fn legacy_settings(content: Seq<char>) -> Option<(Seq<char>, u16, Seq<char>)> {
    let ls = lines(content);
    if ls.len() < 3 {
        None
    } else {
        let host = trimmed(ls[0]);
        let port = match parsed_u16(trimmed(ls[1])) {
            Some(p) => p,
            None => 993u16,
        };
        let username = trimmed(ls[2]);
        if host.len() == 0 || username.len() == 0 {
            None
        } else {
            Some((host, port, username))
        }
    }
}

proof fn lemma_position(accounts: Seq<AccountConfig>, id: Seq<char>)
    ensures
        0 <= position(accounts, id) <= accounts.len(),
        forall|i: int| 0 <= i < position(accounts, id) ==> (#[trigger] accounts[i]).id@ != id,
        position(accounts, id) < accounts.len() ==> accounts[position(accounts, id)].id@ == id,
    decreases accounts.len(),
{
    if accounts.len() > 0 && accounts[0].id@ != id {
        lemma_position(accounts.skip(1), id);
        let k = position(accounts.skip(1), id);
        assert forall|i: int| 0 <= i < position(accounts, id) implies (
        #[trigger] accounts[i]).id@ != id by {
            if i > 0 {
                assert(accounts[i] == accounts.skip(1)[i - 1]);
            }
        }
        if k < accounts.skip(1).len() {
            assert(accounts.skip(1)[k] == accounts[k + 1]);
        }
    }
}

impl Config {
    /// If there are no accounts yet, turn the content of the older settings
    /// file (host/port/username, it never held a password) into a single
    /// account. Returns `true` if an account was made, so the caller knows to
    /// persist the result.
    pub fn migrate_legacy_content(&mut self, content: &str) -> (migrated: bool)
        ensures
            migrated == (old(self).accounts@.len() == 0 && legacy_settings(content@) is Some),
            migrated ==> {
                let (host, port, username) = legacy_settings(content@)->0;
                &&& final(self).accounts@.len() == 1
                &&& is_new_account(final(self).accounts@[0], username, host, port, username)
            },
            !migrated ==> *final(self) == *old(self),
    {
        if self.accounts.len() != 0 {
            return false;
        }
        let found = lines_of(content);
        if found.len() < 3 {
            assert(lines(content@).len() == found@.len());
            return false;
        }
        assert(lines(content@)[0] == found@[0]@);
        assert(lines(content@)[1] == found@[1]@);
        assert(lines(content@)[2] == found@[2]@);
        let host = trim(&found[0]);
        let port: u16 = match parse_u16(&trim(&found[1])) {
            Some(p) => p,
            None => 993,
        };
        let username = trim(&found[2]);
        if host.as_str().is_empty() || username.as_str().is_empty() {
            return false;
        }
        self.accounts.push(AccountConfig::new(username.clone(), host, port, username));
        true
    }

    /// Insert `account`, or replace the existing entry with the same `id`.
    pub fn upsert_account(&mut self, account: AccountConfig)
        ensures
            final(self).accounts@ == upserted(old(self).accounts@, account),
    {
        let n: usize = self.accounts.len();
        let mut i: usize = 0;
        assert(self.accounts@.skip(0) == self.accounts@);
        while i < n
            invariant
                i <= n == self.accounts.len(),
                self.accounts@ == old(self).accounts@,
                position(self.accounts@, account.id@) == i + position(
                    self.accounts@.skip(i as int),
                    account.id@,
                ),
            decreases n - i,
        {
            assert(self.accounts@.skip(i as int)[0] == self.accounts@[i as int]);
            if self.accounts[i].id == account.id {
                self.accounts.set(i, account);
                return;
            }
            assert(self.accounts@.skip(i as int).skip(1) == self.accounts@.skip(i + 1));
            i = i + 1;
        }
        self.accounts.push(account);
    }

    /// Remove the account with this `id`, if any.
    pub fn remove_account(&mut self, id: &str)
        ensures
            final(self).accounts@ == without_id(old(self).accounts@, id@),
    {
        let ghost all = self.accounts@;
        let ghost keep = has_other_id(id@);
        let ghost mut seen: int = 0;
        let mut i: usize = 0;
        assert(all.take(0).filter(keep) == Seq::<AccountConfig>::empty()) by {
            reveal(Seq::filter);
        }
        assert(all.take(0).filter(keep) + all.skip(0) == all);
        while i < self.accounts.len()
            invariant
                0 <= seen <= all.len(),
                i == all.take(seen).filter(keep).len(),
                self.accounts@ == all.take(seen).filter(keep) + all.skip(seen),
                keep == has_other_id(id@),
            decreases self.accounts.len() - i,
        {
            assert(seen < all.len());
            assert(self.accounts@[i as int] == all[seen]);
            proof {
                reveal(Seq::filter);
                assert(all.take(seen + 1).drop_last() == all.take(seen));
                assert(all.skip(seen).skip(1) == all.skip(seen + 1));
            }
            if same_text(&self.accounts[i].id, id) {
                let _removed = self.accounts.remove(i);
                assert(self.accounts@ == all.take(seen).filter(keep) + all.skip(seen + 1));
            } else {
                i = i + 1;
                assert(self.accounts@ == all.take(seen).filter(keep).push(all[seen]) + all.skip(
                    seen + 1,
                ));
            }
            proof {
                seen = seen + 1;
            }
        }
        assert(seen == all.len());
        assert(all.take(seen) == all);
        assert(all.skip(seen) == Seq::<AccountConfig>::empty());
        assert(self.accounts@ == all.filter(keep));
    }
}

/// The first account with this id, if there is one.
pub open spec fn account_with(accounts: Seq<AccountConfig>, id: Seq<char>) -> Option<
    AccountConfig,
> {
    let at = position(accounts, id);
    if at < accounts.len() {
        Some(accounts[at])
    } else {
        None
    }
}

proof fn lemma_position_is(accounts: Seq<AccountConfig>, id: Seq<char>, at: int)
    requires
        0 <= at <= accounts.len(),
        forall|i: int| 0 <= i < at ==> (#[trigger] accounts[i]).id@ != id,
        at < accounts.len() ==> accounts[at].id@ == id,
    ensures
        position(accounts, id) == at,
{
    lemma_position(accounts, id);
    let found = position(accounts, id);
    if found < at {
        assert(accounts[found].id@ != id);
    }
    if at < found {
        assert(accounts[at].id@ != id);
    }
}

/// Two users on one host have accounts with different ids.
pub proof fn account_ids_tell_users_apart(
    username: Seq<char>,
    other_username: Seq<char>,
    imap_host: Seq<char>,
)
    requires
        username != other_username,
    ensures
        account_id(username, imap_host) != account_id(other_username, imap_host),
{
    let a = account_id(username, imap_host);
    let b = account_id(other_username, imap_host);
    assert(a.len() == username.len() + 1 + imap_host.len());
    assert(b.len() == other_username.len() + 1 + imap_host.len());
    if a == b {
        assert(a.take(username.len() as int) == username);
        assert(b.take(username.len() as int) == other_username);
    }
}

/// An account that was put among the others is found there as it was put, and
/// every other id still finds what it found before.
pub proof fn upserted_account_is_found(
    accounts: Seq<AccountConfig>,
    account: AccountConfig,
    id: Seq<char>,
)
    ensures
        account_with(upserted(accounts, account), account.id@) == Some(account),
        id != account.id@ ==> account_with(upserted(accounts, account), id) == account_with(
            accounts,
            id,
        ),
{
    let at = position(accounts, account.id@);
    let after = upserted(accounts, account);
    lemma_position(accounts, account.id@);
    assert forall|i: int| 0 <= i < at implies (#[trigger] after[i]).id@ != account.id@ by {
        assert(after[i] == accounts[i]);
    }
    lemma_position_is(after, account.id@, at);
    if id != account.id@ {
        lemma_position(accounts, id);
        let k = position(accounts, id);
        if k < accounts.len() {
            assert forall|i: int| 0 <= i < k implies (#[trigger] after[i]).id@ != id by {
                if i != at {
                    assert(after[i] == accounts[i]);
                }
            }
            assert(after[k] == accounts[k]);
            lemma_position_is(after, id, k);
        } else {
            assert forall|i: int| 0 <= i < after.len() implies (#[trigger] after[i]).id@ != id by {
                if i != at {
                    assert(after[i] == accounts[i]);
                }
            }
            lemma_position_is(after, id, after.len() as int);
        }
    }
}

/// Putting an account among the others never makes two entries of one id: ids
/// that were distinct stay so, and an id that was there already keeps its one
/// entry.
pub proof fn upsert_keeps_ids_distinct(accounts: Seq<AccountConfig>, account: AccountConfig)
    requires
        distinct_ids(accounts),
    ensures
        distinct_ids(upserted(accounts, account)),
        upserted(accounts, account).len() == if account_with(accounts, account.id@) is Some {
            accounts.len()
        } else {
            accounts.len() + 1
        },
{
    let at = position(accounts, account.id@);
    lemma_position(accounts, account.id@);
    let after = upserted(accounts, account);
    assert forall|i: int, j: int| 0 <= i < j < after.len() implies (#[trigger] after[i]).id@ != (
    #[trigger] after[j]).id@ by {
        if i != at {
            assert(after[i] == accounts[i]);
        }
        if j != at {
            assert(after[j] == accounts[j]);
        }
        if i == at && at < accounts.len() {
            assert(accounts[at].id@ != accounts[j].id@);
        }
        if j == at && at < accounts.len() {
            assert(accounts[i].id@ != accounts[at].id@);
        }
        if i != at && j != at {
            assert(accounts[i].id@ != accounts[j].id@);
        }
    }
}

/// Putting the same account again changes nothing.
pub proof fn upsert_is_idempotent(accounts: Seq<AccountConfig>, account: AccountConfig)
    ensures
        upserted(upserted(accounts, account), account) == upserted(accounts, account),
{
    let at = position(accounts, account.id@);
    lemma_position(accounts, account.id@);
    let after = upserted(accounts, account);
    assert forall|i: int| 0 <= i < at implies (#[trigger] after[i]).id@ != account.id@ by {
        assert(after[i] == accounts[i]);
    }
    lemma_position_is(after, account.id@, at);
    assert(after.update(at, account) == after);
}

/// A removed id finds nothing any more, and every other id finds what it found
/// before.
pub proof fn removed_account_is_gone(accounts: Seq<AccountConfig>, id: Seq<char>, other: Seq<char>)
    ensures
        account_with(without_id(accounts, id), id) is None,
        other != id ==> account_with(without_id(accounts, id), other) == account_with(
            accounts,
            other,
        ),
    decreases accounts.len(),
{
    let keep = has_other_id(id);
    if accounts.len() == 0 {
        assert(without_id(accounts, id) == accounts) by {
            reveal(Seq::filter);
        }
    } else {
        let first = accounts[0];
        let rest = accounts.skip(1);
        assert(accounts == seq![first] + rest);
        Seq::filter_distributes_over_add(seq![first], rest, keep);
        assert(seq![first].filter(keep) == if keep(first) {
            seq![first]
        } else {
            Seq::<AccountConfig>::empty()
        }) by {
            reveal_with_fuel(Seq::filter, 2);
            assert(seq![first].drop_last() == Seq::<AccountConfig>::empty());
        }
        removed_account_is_gone(rest, id, other);
        let kept = without_id(rest, id);
        lemma_position(kept, id);
        lemma_position(kept, other);
        lemma_position(rest, other);
        if keep(first) {
            let all = without_id(accounts, id);
            assert(all == seq![first] + kept);
            assert(all.skip(1) == kept);
        } else {
            assert(without_id(accounts, id) == kept);
        }
    }
}

/// Whether a text is one line, with no white space around it.
pub open spec fn is_bare_line(s: Seq<char>) -> bool {
    &&& forall|i: int| 0 <= i < s.len() ==> #[trigger] s[i] != '\n'
    &&& s.len() > 0 ==> !is_white(s[0]) && !is_white(s.last())
}

/// The three lines of the older settings file are its host, port and user name,
/// and the port is read as the number it spells; an unreadable port is 993.
pub proof fn older_settings_are_read(
    host: Seq<char>,
    port: Seq<char>,
    username: Seq<char>,
    n: nat,
)
    requires
        is_bare_line(host),
        is_bare_line(port),
        is_bare_line(username),
        host.len() > 0,
        username.len() > 0,
        n <= 65535,
    ensures
        port == decimal(n) ==> legacy_settings(
            host + seq!['\n'] + (port + seq!['\n'] + username),
        ) == Some((host, n as u16, username)),
        parsed_u16(port) is None ==> legacy_settings(
            host + seq!['\n'] + (port + seq!['\n'] + username),
        ) == Some((host, 993u16, username)),
        legacy_settings(host + seq!['\n'] + username) is None,
{
    let none = Seq::<char>::empty();
    lines_end_at_line_feeds(host, port + seq!['\n'] + username);
    lines_end_at_line_feeds(port, username);
    lines_end_at_line_feeds(username, none);
    lines_end_at_line_feeds(host, username);
    trimming_keeps_what_is_between(none, host, none);
    trimming_keeps_what_is_between(none, port, none);
    trimming_keeps_what_is_between(none, username, none);
    assert(none + host + none == host);
    assert(none + port + none == port);
    assert(none + username + none == username);
    ports_are_read_in_decimal(n, none);
    let ls = lines(host + seq!['\n'] + (port + seq!['\n'] + username));
    assert(ls =~= seq![host, port, username]);
    assert(lines(host + seq!['\n'] + username) =~= seq![host, username]);
}

/// A host that is named `imap.` something is taken to send from `smtp.` the
/// same; any other from itself.
pub proof fn sending_hosts_are_guessed_by_name(rest: Seq<char>, host: Seq<char>)
    ensures
        guessed_smtp_host("imap."@ + rest) == "smtp."@ + rest,
        !has_prefix(host, "imap."@) ==> guessed_smtp_host(host) == host,
{
    reveal_strlit("imap.");
    parts_of_a_text_are_found(Seq::empty(), "imap."@, rest);
    assert(("imap."@ + rest).skip(5) == rest);
}

/// A fresh account has the settings it was made with, secured both ways, and its
/// id is the user name, an at sign and the host.
pub proof fn fresh_accounts_keep_their_settings(
    a: AccountConfig,
    display_name: Seq<char>,
    imap_host: Seq<char>,
    imap_port: u16,
    username: Seq<char>,
)
    requires
        is_new_account(a, display_name, imap_host, imap_port, username),
    ensures
        a.id@ == username + seq!['@'] + imap_host,
        a.display_name@ == display_name,
        a.imap_host@ == imap_host && a.imap_port == imap_port && a.imap_tls == TlsMode::Ssl,
        a.smtp_host@ == guessed_smtp_host(imap_host) && a.smtp_port == 465 && a.smtp_tls
            == TlsMode::Ssl,
        a.username@ == username,
{
    assert(username.push('@') + imap_host == username + seq!['@'] + imap_host);
}

/// Putting an account among the others changes no entry but its own, and adds at
/// most itself, at the end.
pub proof fn upsert_keeps_the_others(accounts: Seq<AccountConfig>, account: AccountConfig, i: int)
    requires
        0 <= i < accounts.len(),
    ensures
        accounts[i].id@ != account.id@ ==> upserted(accounts, account)[i] == accounts[i],
        upserted(accounts, account).len() <= accounts.len() + 1,
        upserted(accounts, account).len() == accounts.len() + 1 ==> upserted(accounts, account)
            == accounts.push(account),
{
    lemma_position(accounts, account.id@);
}

/// An id finds the first account that has it, and nothing where none does.
pub proof fn the_first_account_of_an_id_is_found(
    before: Seq<AccountConfig>,
    account: AccountConfig,
    after: Seq<AccountConfig>,
)
    requires
        forall|i: int| 0 <= i < before.len() ==> (#[trigger] before[i]).id@ != account.id@,
    ensures
        account_with(before + seq![account] + after, account.id@) == Some(account),
        account_with(before, account.id@) is None,
{
    let all = before + seq![account] + after;
    assert forall|i: int| 0 <= i < before.len() implies (#[trigger] all[i]).id@
        != account.id@ by {
        assert(all[i] == before[i]);
    }
    lemma_position_is(all, account.id@, before.len() as int);
    lemma_position_is(before, account.id@, before.len() as int);
}

/// Blanks around the lines of the older settings file do not count, and a file
/// whose host or user name is nothing but blanks holds no settings.
pub proof fn blanks_around_older_settings_do_not_count(
    pad: Seq<char>,
    host: Seq<char>,
    username: Seq<char>,
    n: nat,
)
    requires
        forall|i: int| 0 <= i < pad.len() ==> #[trigger] pad[i] == ' ',
        is_bare_line(host),
        is_bare_line(username),
        pad.len() > 0,
        n <= 65535,
    ensures
        host.len() > 0 && username.len() > 0 ==> legacy_settings(
            pad + host + pad + seq!['\n'] + (pad + decimal(n) + pad + seq!['\n'] + (pad + username
                + pad)),
        ) == Some((host, n as u16, username)),
        host.len() == 0 || username.len() == 0 ==> legacy_settings(
            pad + host + pad + seq!['\n'] + (pad + decimal(n) + pad + seq!['\n'] + (pad + username
                + pad)),
        ) is None,
{
    let none = Seq::<char>::empty();
    let port = decimal(n);
    numbers_are_written_in_decimal(n);
    let (first, second, third) = (pad + host + pad, pad + port + pad, pad + username + pad);
    lines_end_at_line_feeds(first, second + seq!['\n'] + third);
    lines_end_at_line_feeds(second, third);
    lines_end_at_line_feeds(third, none);
    assert forall|i: int| 0 <= i < pad.len() implies is_white(#[trigger] pad[i]) by {
    }
    trimming_keeps_what_is_between(pad, host, pad);
    trimming_keeps_what_is_between(pad, port, pad);
    trimming_keeps_what_is_between(pad, username, pad);
    ports_are_read_in_decimal(n, none);
    let ls = lines(first + seq!['\n'] + (second + seq!['\n'] + third));
    assert(ls =~= seq![first, second, third]);
}

} // verus!
