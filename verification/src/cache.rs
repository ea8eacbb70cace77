//! What the cache holds, and what each operation on it means: the tables as
//! mathematical values, and the promises that the operations keep.
use vstd::prelude::*;
use vstd::utf8::encode_utf8;

use crate::db::{
    header_ops, index_ops, op_params, report_ops, sync_plan, OpView, SqlView, SyncPlan,
    MAX_CACHED_BODIES,
};
use crate::imap::{HeaderView, MailHeader};

verus! {

/// What identifies a message in the cache.
#[verifier::ext_equal]
pub struct MessageKey {
    pub account_id: Seq<char>,
    pub mailbox: Seq<char>,
    pub uid: u32,
}

/// A row of the message table.
#[verifier::ext_equal]
pub struct MessageRow {
    pub header: HeaderView,
    pub size: i64,
}

/// A row of the body table.
#[verifier::ext_equal]
pub struct BodyRow {
    pub body: Seq<char>,
    pub cached_at: i64,
}

/// A row of the full-text index.
#[verifier::ext_equal]
pub struct IndexRow {
    pub key: MessageKey,
    pub subject: Seq<char>,
    pub from: Seq<char>,
    pub to: Seq<char>,
    pub body: Seq<char>,
}

/// The four tables.
#[verifier::ext_equal]
pub struct Cache {
    pub mailboxes: Map<(Seq<char>, Seq<char>), (u32, u32)>,
    pub messages: Map<MessageKey, MessageRow>,
    pub bodies: Map<MessageKey, BodyRow>,
    pub index: Seq<IndexRow>,
}

/// The key of a message.
pub open spec fn key(account_id: Seq<char>, mailbox: Seq<char>, uid: u32) -> MessageKey {
    MessageKey { account_id, mailbox, uid }
}

/// Whether a message belongs to a mailbox.
pub open spec fn belongs(k: MessageKey, account_id: Seq<char>, mailbox: Seq<char>) -> bool {
    k.account_id == account_id && k.mailbox == mailbox
}

/// `m` without what belongs to a mailbox.
pub open spec fn without_mailbox<V>(
    m: Map<MessageKey, V>,
    account_id: Seq<char>,
    mailbox: Seq<char>,
) -> Map<MessageKey, V> {
    m.restrict(m.dom().filter(|k: MessageKey| !belongs(k, account_id, mailbox)))
}

/// The size that a message line without a size of its own keeps: the one that
/// is there, or zero.
pub open spec fn kept_size(messages: Map<MessageKey, MessageRow>, k: MessageKey) -> i64 {
    if messages.contains_key(k) {
        messages[k].size
    } else {
        0
    }
}

/// Whether `after` is `before` without its oldest rows, as many as are over
/// `max_rows`; a negative limit leaves none. Which of several equally old rows
/// go is left open.
pub open spec fn is_evicted(
    before: Map<MessageKey, BodyRow>,
    max_rows: int,
    after: Map<MessageKey, BodyRow>,
) -> bool {
    &&& after.dom().subset_of(before.dom())
    &&& forall|k: MessageKey| #[trigger] after.contains_key(k) ==> after[k] == before[k]
    &&& after.dom().len() == if max_rows < 0 {
        0
    } else if before.dom().len() > max_rows {
        max_rows
    } else {
        before.dom().len() as int
    }
    &&& forall|gone: MessageKey, kept: MessageKey|
        #![trigger before.contains_key(gone), after.contains_key(kept)]
        before.contains_key(gone) && !after.contains_key(gone) && after.contains_key(kept)
            ==> before[gone].cached_at <= before[kept].cached_at
}

/// Whether an operation leads from `before` to `after`.
pub open spec fn leads_to(before: Cache, op: OpView, after: Cache) -> bool {
    match op {
        OpView::UpsertMessage { account_id, mailbox, header, size } => after == Cache {
            messages: before.messages.insert(
                key(account_id, mailbox, header.uid),
                MessageRow { header, size },
            ),
            ..before
        },
        OpView::UpsertHeader { account_id, mailbox, header } => after == Cache {
            messages: before.messages.insert(
                key(account_id, mailbox, header.uid),
                MessageRow {
                    header,
                    size: kept_size(before.messages, key(account_id, mailbox, header.uid)),
                },
            ),
            ..before
        },
        OpView::UpsertBody { account_id, mailbox, uid, body, cached_at } => after == Cache {
            bodies: before.bodies.insert(
                key(account_id, mailbox, uid),
                BodyRow { body, cached_at },
            ),
            ..before
        },
        OpView::DeleteIndexRow { account_id, mailbox, uid } => after == Cache {
            index: before.index.filter(|r: IndexRow| r.key != key(account_id, mailbox, uid)),
            ..before
        },
        OpView::InsertIndexRow { account_id, mailbox, header, body } => after == Cache {
            index: before.index.push(
                IndexRow {
                    key: key(account_id, mailbox, header.uid),
                    subject: header.subject,
                    from: header.from,
                    to: header.to,
                    body,
                },
            ),
            ..before
        },
        OpView::EvictBodies { max_rows } => {
            &&& after == Cache { bodies: after.bodies, ..before }
            &&& is_evicted(before.bodies, max_rows as int, after.bodies)
        },
        OpView::DeleteMessages { account_id, mailbox } => after == Cache {
            messages: without_mailbox(before.messages, account_id, mailbox),
            ..before
        },
        OpView::DeleteBodies { account_id, mailbox } => after == Cache {
            bodies: without_mailbox(before.bodies, account_id, mailbox),
            ..before
        },
        OpView::DeleteIndexRows { account_id, mailbox } => after == Cache {
            index: before.index.filter(|r: IndexRow| !belongs(r.key, account_id, mailbox)),
            ..before
        },
        OpView::UpsertMailbox { account_id, mailbox, uid_validity, uid_next } => after == Cache {
            mailboxes: before.mailboxes.insert((account_id, mailbox), (uid_validity, uid_next)),
            ..before
        },
    }
}

/// Whether operation number `i` leads from state `i` to the next.
pub open spec fn step_holds(states: Seq<Cache>, ops: Seq<OpView>, i: int) -> bool {
    leads_to(states[i], ops[i], states[i + 1])
}

/// Whether the operations, one after the other, lead through these states.
pub open spec fn runs(states: Seq<Cache>, ops: Seq<OpView>) -> bool {
    &&& states.len() == ops.len() + 1
    &&& forall|i: int| 0 <= i < ops.len() ==> #[trigger] step_holds(states, ops, i)
}

/// What a fetch of one message gives: its line and its body, if both are
/// there.
pub open spec fn fetched(c: Cache, k: MessageKey) -> Option<(HeaderView, Seq<char>)> {
    if c.messages.contains_key(k) && c.bodies.contains_key(k) {
        Some((c.messages[k].header, c.bodies[k].body))
    } else {
        None
    }
}

/// Whether a search of an account, in one mailbox or in all, finds the message
/// of a full-text row; `matches` says which rows the query's words match.
pub open spec fn finds(
    c: Cache,
    account_id: Seq<char>,
    mailbox: Option<Seq<char>>,
    matches: spec_fn(IndexRow) -> bool,
    row: IndexRow,
) -> bool {
    &&& c.index.contains(row)
    &&& c.messages.contains_key(row.key)
    &&& row.key.account_id == account_id
    &&& mailbox matches Some(m) ==> row.key.mailbox == m
    &&& matches(row)
}

/// What is recorded of a mailbox.
pub open spec fn recorded(c: Cache, account_id: Seq<char>, mailbox: Seq<char>) -> Option<
    (u32, u32),
> {
    if c.mailboxes.contains_key((account_id, mailbox)) {
        Some(c.mailboxes[(account_id, mailbox)])
    } else {
        None
    }
}

/// A message that was stored is what a fetch gives back, as long as its body
/// was not evicted at once; and it is not evicted while there is room, or when
/// it is newer than every other body.
pub proof fn stored_mail_is_fetched(
    states: Seq<Cache>,
    account_id: Seq<char>,
    mailbox: Seq<char>,
    header: HeaderView,
    body: Seq<char>,
    cached_at: i64,
)
    requires
        runs(states, index_ops(account_id, mailbox, header, body, cached_at)),
        states[0].bodies.dom().finite(),
        ({
            let k = key(account_id, mailbox, header.uid);
            ||| states[0].bodies.insert(k, BodyRow { body, cached_at }).dom().len()
                <= MAX_CACHED_BODIES
            ||| forall|other: MessageKey|
                other != k && #[trigger] states[0].bodies.contains_key(other)
                    ==> states[0].bodies[other].cached_at < cached_at
        }),
    ensures
        fetched(states.last(), key(account_id, mailbox, header.uid)) == Some((header, body)),
{
    let k = key(account_id, mailbox, header.uid);
    let ops = index_ops(account_id, mailbox, header, body, cached_at);
    assert(step_holds(states, ops, 0));
    assert(step_holds(states, ops, 1));
    assert(step_holds(states, ops, 2));
    assert(step_holds(states, ops, 3));
    assert(step_holds(states, ops, 4));
    let before = states[4].bodies;
    let after = states[5].bodies;
    assert(before == states[0].bodies.insert(k, BodyRow { body, cached_at }));
    assert(before.contains_key(k));
    if !after.contains_key(k) {
        if before.dom().len() <= MAX_CACHED_BODIES {
            vstd::set_lib::lemma_subset_equality(after.dom(), before.dom());
        } else {
            assert(after.dom().finite()) by {
                vstd::set_lib::lemma_set_subset_finite(before.dom(), after.dom());
            }
            assert(after.dom().len() > 0);
            let kept = after.dom().choose();
            assert(after.dom().contains(kept));
            assert(after.contains_key(kept));
            assert(before[k].cached_at <= before[kept].cached_at);
            assert(states[0].bodies.contains_key(kept));
        }
    }
}

/// Storing a message replaces what was there of it and touches nothing of any
/// other message: lines and full-text rows of the others stay, the message has
/// one line and one full-text row, and no body but its own can change.
pub proof fn storing_mail_replaces_and_keeps_others(
    states: Seq<Cache>,
    account_id: Seq<char>,
    mailbox: Seq<char>,
    header: HeaderView,
    body: Seq<char>,
    cached_at: i64,
)
    requires
        runs(states, index_ops(account_id, mailbox, header, body, cached_at)),
    ensures
        ({
            let k = key(account_id, mailbox, header.uid);
            let others = |r: IndexRow| r.key != k;
            let first = states[0];
            let last = states.last();
            &&& last.messages.dom() == first.messages.dom().insert(k)
            &&& last.messages[k].header == header
            &&& forall|other: MessageKey|
                other != k && first.messages.contains_key(other) ==> #[trigger] last.messages[other]
                    == first.messages[other]
            &&& forall|other: MessageKey|
                other != k && #[trigger] last.bodies.contains_key(other)
                    ==> first.bodies.contains_key(other) && last.bodies[other]
                    == first.bodies[other]
            &&& last.index == first.index.filter(others).push(
                IndexRow {
                    key: k,
                    subject: header.subject,
                    from: header.from,
                    to: header.to,
                    body,
                },
            )
            &&& last.mailboxes == first.mailboxes
        }),
{
    let k = key(account_id, mailbox, header.uid);
    let ops = index_ops(account_id, mailbox, header, body, cached_at);
    assert(step_holds(states, ops, 0));
    assert(step_holds(states, ops, 1));
    assert(step_holds(states, ops, 2));
    assert(step_holds(states, ops, 3));
    assert(step_holds(states, ops, 4));
    let last = states.last();
    assert forall|other: MessageKey| other != k && #[trigger] last.bodies.contains_key(other) implies
        states[0].bodies.contains_key(other) && last.bodies[other] == states[0].bodies[other] by {
        assert(states[4].bodies.dom().contains(other));
    }
}

/// A stored message is found by the searches of its account that its new text
/// matches, in its mailbox or in all, and no longer by its old text.
pub proof fn stored_mail_is_searched(
    states: Seq<Cache>,
    account_id: Seq<char>,
    mailbox: Seq<char>,
    header: HeaderView,
    body: Seq<char>,
    cached_at: i64,
    scope: Option<Seq<char>>,
    matches: spec_fn(IndexRow) -> bool,
)
    requires
        runs(states, index_ops(account_id, mailbox, header, body, cached_at)),
        scope matches Some(m) ==> m == mailbox,
    ensures
        ({
            let k = key(account_id, mailbox, header.uid);
            let row = IndexRow {
                key: k,
                subject: header.subject,
                from: header.from,
                to: header.to,
                body,
            };
            &&& finds(states.last(), account_id, scope, matches, row) == matches(row)
            &&& forall|other: IndexRow| #[trigger]
                finds(states.last(), account_id, scope, matches, other) && other.key == k
                    ==> other == row
        }),
{
    let k = key(account_id, mailbox, header.uid);
    let row = IndexRow {
        key: k,
        subject: header.subject,
        from: header.from,
        to: header.to,
        body,
    };
    let others = |r: IndexRow| r.key != k;
    storing_mail_replaces_and_keeps_others(states, account_id, mailbox, header, body, cached_at);
    let kept = states[0].index.filter(others);
    let index = states.last().index;
    assert(index == kept.push(row));
    assert(index[index.len() - 1] == row);
    assert(states.last().messages.dom().contains(k));
    assert forall|other: IndexRow| #[trigger]
        finds(states.last(), account_id, scope, matches, other) && other.key == k implies other
        == row by {
        let i = choose|i: int| 0 <= i < index.len() && index[i] == other;
        if i < kept.len() {
            states[0].index.lemma_filter_pred(others, i);
        }
    }
}

/// What a search of a mailbox finds rests on what is cached of that mailbox
/// alone: other accounts and mailboxes have no part in it.
pub proof fn searches_stay_in_their_mailbox(
    c: Cache,
    other: Cache,
    account_id: Seq<char>,
    mailbox: Seq<char>,
    matches: spec_fn(IndexRow) -> bool,
    row: IndexRow,
)
    requires
        forall|r: IndexRow|
            belongs(r.key, account_id, mailbox) ==> #[trigger] c.index.contains(r)
                == other.index.contains(r),
        forall|k: MessageKey|
            belongs(k, account_id, mailbox) ==> #[trigger] c.messages.contains_key(k)
                == other.messages.contains_key(k),
    ensures
        finds(c, account_id, Some(mailbox), matches, row) == finds(
            other,
            account_id,
            Some(mailbox),
            matches,
            row,
        ),
{
}

/// Storing a message never leaves more bodies than the cap.
pub proof fn bodies_stay_within_the_cap(
    states: Seq<Cache>,
    account_id: Seq<char>,
    mailbox: Seq<char>,
    header: HeaderView,
    body: Seq<char>,
    cached_at: i64,
)
    requires
        runs(states, index_ops(account_id, mailbox, header, body, cached_at)),
    ensures
        states.last().bodies.dom().len() <= MAX_CACHED_BODIES,
{
    let ops = index_ops(account_id, mailbox, header, body, cached_at);
    assert(step_holds(states, ops, 4));
}

/// Storing list lines without bodies changes no body, no full-text row and no
/// message's size.
pub proof fn storing_headers_keeps_bodies(
    states: Seq<Cache>,
    account_id: Seq<char>,
    mailbox: Seq<char>,
    headers: Seq<MailHeader>,
)
    requires
        runs(states, header_ops(account_id, mailbox, headers)),
    ensures
        states.last().bodies == states[0].bodies,
        states.last().index == states[0].index,
        states.last().mailboxes == states[0].mailboxes,
        forall|k: MessageKey|
            #[trigger] states[0].messages.contains_key(k) ==> states.last().messages.contains_key(k)
                && states.last().messages[k].size == states[0].messages[k].size,
    decreases headers.len(),
{
    let ops = header_ops(account_id, mailbox, headers);
    if headers.len() > 0 {
        let shorter = states.drop_last();
        let fewer = headers.drop_last();
        assert(header_ops(account_id, mailbox, fewer) =~= ops.drop_last());
        assert forall|i: int| 0 <= i < fewer.len() implies #[trigger] step_holds(
            shorter,
            header_ops(account_id, mailbox, fewer),
            i,
        ) by {
            assert(step_holds(states, ops, i));
        }
        storing_headers_keeps_bodies(shorter, account_id, mailbox, fewer);
        let n = headers.len() - 1;
        assert(step_holds(states, ops, n));
        assert(shorter.last() == states[n]);
        assert(shorter[0] == states[0]);
    }
}

/// What a server reports of a mailbox is recorded; reported again, it calls
/// for nothing.
pub proof fn reported_state_is_recorded(
    states: Seq<Cache>,
    account_id: Seq<char>,
    mailbox: Seq<char>,
    uid_validity: u32,
    uid_next: u32,
)
    requires
        runs(
            states,
            report_ops(
                account_id,
                mailbox,
                sync_plan(recorded(states[0], account_id, mailbox), uid_validity, uid_next),
                uid_validity,
                uid_next,
            ),
        ),
    ensures
        recorded(states.last(), account_id, mailbox) == Some((uid_validity, uid_next)),
        sync_plan(recorded(states.last(), account_id, mailbox), uid_validity, uid_next)
            == SyncPlan::UpToDate,
{
    let plan = sync_plan(recorded(states[0], account_id, mailbox), uid_validity, uid_next);
    let ops = report_ops(account_id, mailbox, plan, uid_validity, uid_next);
    let n = ops.len() - 1;
    assert(step_holds(states, ops, n));
}

/// A changed UIDVALIDITY wipes everything cached of the mailbox, and nothing of
/// any other.
pub proof fn resync_wipes_the_mailbox(
    states: Seq<Cache>,
    account_id: Seq<char>,
    mailbox: Seq<char>,
    uid_validity: u32,
    uid_next: u32,
)
    requires
        recorded(states[0], account_id, mailbox) matches Some((validity, _)) && validity
            != uid_validity,
        runs(
            states,
            report_ops(
                account_id,
                mailbox,
                sync_plan(recorded(states[0], account_id, mailbox), uid_validity, uid_next),
                uid_validity,
                uid_next,
            ),
        ),
    ensures
        forall|k: MessageKey|
            belongs(k, account_id, mailbox) ==> !states.last().messages.contains_key(k)
                && !states.last().bodies.contains_key(k),
        forall|i: int|
            0 <= i < states.last().index.len() ==> !belongs(
                #[trigger] states.last().index[i].key,
                account_id,
                mailbox,
            ),
        forall|k: MessageKey|
            !belongs(k, account_id, mailbox) ==> {
                &&& states.last().messages.contains_key(k) == states[0].messages.contains_key(k)
                &&& states[0].messages.contains_key(k) ==> states.last().messages[k]
                    == states[0].messages[k]
                &&& states.last().bodies.contains_key(k) == states[0].bodies.contains_key(k)
                &&& states[0].bodies.contains_key(k) ==> states.last().bodies[k]
                    == states[0].bodies[k]
            },
        states.last().index == states[0].index.filter(
            |r: IndexRow| !belongs(r.key, account_id, mailbox),
        ),
        forall|account: Seq<char>, name: Seq<char>|
            (account, name) != (account_id, mailbox) ==> #[trigger] recorded(
                states.last(),
                account,
                name,
            ) == recorded(states[0], account, name),
{
    let plan = sync_plan(recorded(states[0], account_id, mailbox), uid_validity, uid_next);
    assert(plan is Resync);
    let ops = report_ops(account_id, mailbox, plan, uid_validity, uid_next);
    assert(step_holds(states, ops, 0));
    assert(step_holds(states, ops, 1));
    assert(step_holds(states, ops, 2));
    assert(step_holds(states, ops, 3));
    let keep = |r: IndexRow| !belongs(r.key, account_id, mailbox);
    assert(states.last().index == states[0].index.filter(keep));
    assert forall|i: int| 0 <= i < states.last().index.len() implies !belongs(
        #[trigger] states.last().index[i].key,
        account_id,
        mailbox,
    ) by {
        states[0].index.lemma_filter_pred(keep, i);
    }
}

/// What is read back of the columns that a full-text row is written to is the
/// row that the cache then holds: its key, subject, sender, recipient and body.
pub proof fn index_rows_are_read_back(
    before: Cache,
    account_id: Seq<char>,
    mailbox: Seq<char>,
    header: HeaderView,
    body: Seq<char>,
    after: Cache,
)
    requires
        leads_to(before, OpView::InsertIndexRow { account_id, mailbox, header, body }, after),
    ensures
        ({
            let written = op_params(OpView::InsertIndexRow { account_id, mailbox, header, body });
            let row = after.index.last();
            &&& after.index.drop_last() == before.index
            &&& written[0] == SqlView::Text(row.key.account_id)
            &&& written[1] == SqlView::Text(row.key.mailbox)
            &&& written[2] == SqlView::Integer(row.key.uid as i64)
            &&& written[3] == SqlView::Text(row.subject) && row.subject == header.subject
            &&& written[4] == SqlView::Text(row.from) && row.from == header.from
            &&& written[5] == SqlView::Text(row.to) && row.to == header.to
            &&& written[6] == SqlView::Text(row.body) && row.body == body
            &&& row.key == (MessageKey { account_id, mailbox, uid: header.uid })
        }),
{
    assert(after.index.drop_last() == before.index);
}

/// A stored message has its line and the size of its body in bytes.
pub proof fn stored_mail_has_its_size(
    states: Seq<Cache>,
    account_id: Seq<char>,
    mailbox: Seq<char>,
    header: HeaderView,
    body: Seq<char>,
    cached_at: i64,
)
    requires
        runs(states, index_ops(account_id, mailbox, header, body, cached_at)),
    ensures
        ({
            let k = MessageKey { account_id, mailbox, uid: header.uid };
            &&& states.last().messages.contains_key(k)
            &&& states.last().messages[k].header == header
            &&& states.last().messages[k].size == encode_utf8(body).len() as usize as i64
        }),
{
    let ops = index_ops(account_id, mailbox, header, body, cached_at);
    assert(step_holds(states, ops, 0));
    assert(step_holds(states, ops, 1));
    assert(step_holds(states, ops, 2));
    assert(step_holds(states, ops, 3));
    assert(step_holds(states, ops, 4));
}

/// Lines that are stored without bodies are listed: the last one that was given
/// for a UID is the one that is there.
pub proof fn stored_headers_are_listed(
    states: Seq<Cache>,
    account_id: Seq<char>,
    mailbox: Seq<char>,
    headers: Seq<MailHeader>,
    i: int,
)
    requires
        runs(states, header_ops(account_id, mailbox, headers)),
        0 <= i < headers.len(),
        forall|j: int| i < j < headers.len() ==> (#[trigger] headers[j]).uid != headers[i].uid,
    ensures
        ({
            let k = MessageKey { account_id, mailbox, uid: headers[i].uid };
            &&& states.last().messages.contains_key(k)
            &&& states.last().messages[k].header == headers[i]@
        }),
    decreases headers.len(),
{
    let ops = header_ops(account_id, mailbox, headers);
    let n = headers.len() - 1;
    assert(step_holds(states, ops, n));
    assert(states.last() == states[n + 1]);
    if i < n {
        let shorter = states.drop_last();
        let fewer = headers.drop_last();
        assert(header_ops(account_id, mailbox, fewer) =~= ops.drop_last());
        assert forall|j: int| 0 <= j < fewer.len() implies #[trigger] step_holds(
            shorter,
            header_ops(account_id, mailbox, fewer),
            j,
        ) by {
            assert(step_holds(states, ops, j));
        }
        assert forall|j: int| i < j < fewer.len() implies (#[trigger] fewer[j]).uid
            != fewer[i].uid by {
            assert(headers[j].uid != headers[i].uid);
        }
        stored_headers_are_listed(shorter, account_id, mailbox, fewer, i);
        assert(headers[n].uid != headers[i].uid);
        assert(shorter.last() == states[n]);
    }
}

/// A report that keeps the numbering touches no message, no body and no
/// full-text row, and nothing recorded of another mailbox.
pub proof fn reports_keep_what_is_cached(
    states: Seq<Cache>,
    account_id: Seq<char>,
    mailbox: Seq<char>,
    uid_validity: u32,
    uid_next: u32,
    account: Seq<char>,
    name: Seq<char>,
)
    requires
        recorded(states[0], account_id, mailbox) matches Some(p) ==> p.0 == uid_validity,
        runs(
            states,
            report_ops(
                account_id,
                mailbox,
                sync_plan(recorded(states[0], account_id, mailbox), uid_validity, uid_next),
                uid_validity,
                uid_next,
            ),
        ),
    ensures
        states.last().messages == states[0].messages,
        states.last().bodies == states[0].bodies,
        states.last().index == states[0].index,
        account != account_id || name != mailbox ==> recorded(states.last(), account, name)
            == recorded(states[0], account, name),
{
    let plan = sync_plan(recorded(states[0], account_id, mailbox), uid_validity, uid_next);
    let ops = report_ops(account_id, mailbox, plan, uid_validity, uid_next);
    assert(step_holds(states, ops, 0));
}

} // verus!
