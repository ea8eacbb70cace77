//! The cache's command loop: what each command needs of the database, and what
//! is reported of it once the database answered. Running the statements is the
//! caller's affair.
use vstd::prelude::*;

use crate::db::{
    fetch_mail_query, header_ops, index_headers, index_mail, index_ops, mailbox_query, op_views,
    param_views, report_mailbox_state, report_ops, search_query, sync_plan, CacheOp, DbCommand,
    DbEvent, SqlView, Statement, SyncPlan, SEARCH, SELECT_MAIL, SELECT_MAILBOX,
};
use crate::imap::MailHeader;

verus! {

/// What is asked of the database.
#[derive(Debug)]
pub enum DbRequest {
    /// Run these operations in order, up to the first that fails.
    Write { ops: Vec<CacheOp> },
    /// Run this query; each row is a message line with its UID.
    Search { statement: Statement },
    /// Run this query; its row is the line and the body of message `uid`.
    Fetch { uid: u32, statement: Statement },
    /// Run this query; its row, if there is one, is a recorded state. A query
    /// that fails counts as one without a row.
    Look { statement: Statement },
}

/// What the database answered.
#[derive(Debug)]
pub enum DbOutcome {
    Written(Result<(), String>),
    Found(Result<Vec<MailHeader>, String>),
    Fetched(Result<(MailHeader, String), String>),
    Looked(Result<Option<(u32, u32)>, String>),
}

/// What the loop is waiting for.
#[derive(Debug)]
pub enum DbPhase {
    /// A command.
    Idle,
    /// The end of a write.
    Writing,
    /// The rows of a search.
    Searching,
    /// One message.
    Fetching,
    /// What is recorded of a mailbox whose state was reported.
    Looking { account_id: String, mailbox: String, uid_validity: u32, uid_next: u32 },
    /// The end of the write that records a reported state.
    Recording { account_id: String, mailbox: String, plan: SyncPlan },
}

/// What follows an answer of the database.
#[derive(Debug)]
pub struct DbReply {
    /// What the command needs further.
    pub request: Option<DbRequest>,
    /// What is reported of it.
    pub event: Option<DbEvent>,
}

/// The command loop.
#[derive(Debug)]
pub struct DbActor {
    pub phase: DbPhase,
}

/// Whether the loop waits for an answer of this kind.
pub open spec fn expects(phase: DbPhase, outcome: DbOutcome) -> bool {
    match outcome {
        DbOutcome::Written(_) => phase is Writing || phase is Recording,
        DbOutcome::Found(_) => phase is Searching,
        DbOutcome::Fetched(_) => phase is Fetching,
        DbOutcome::Looked(_) => phase is Looking,
    }
}

/// What a command, given at the time `now`, asks of the database, and what the
/// loop waits for then.
pub open spec fn command_outcome(
    cmd: DbCommand,
    now: i64,
    after: DbActor,
    request: DbRequest,
) -> bool {
    match cmd {
        DbCommand::IndexMail { account_id, mailbox, header, body } => {
            &&& after.phase == DbPhase::Writing
            &&& request matches DbRequest::Write { ops } && op_views(ops@) == index_ops(
                account_id@,
                mailbox@,
                header@,
                body@,
                now,
            )
        },
        DbCommand::IndexHeaders { account_id, mailbox, headers } => {
            &&& after.phase == DbPhase::Writing
            &&& request matches DbRequest::Write { ops } && op_views(ops@) == header_ops(
                account_id@,
                mailbox@,
                headers@,
            )
        },
        DbCommand::Search { account_id, query, mailbox } => {
            &&& after.phase == DbPhase::Searching
            &&& request matches DbRequest::Search { statement } && statement.sql@ == SEARCH@
                && param_views(statement.params@) == seq![
                SqlView::Text(account_id@),
                match mailbox {
                    Some(m) => SqlView::Text(m@),
                    None => SqlView::Null,
                },
                SqlView::Text(query@),
            ]
        },
        DbCommand::FetchMail { account_id, mailbox, uid } => {
            &&& after.phase == DbPhase::Fetching
            &&& request matches DbRequest::Fetch { uid: wanted, statement } && wanted == uid
                && statement.sql@ == SELECT_MAIL@ && param_views(statement.params@) == seq![
                SqlView::Text(account_id@),
                SqlView::Text(mailbox@),
                SqlView::Integer(uid as i64),
            ]
        },
        DbCommand::ReportMailboxState { account_id, mailbox, uid_validity, uid_next } => {
            &&& after.phase == DbPhase::Looking { account_id, mailbox, uid_validity, uid_next }
            &&& request matches DbRequest::Look { statement } && statement.sql@ == SELECT_MAILBOX@
                && param_views(statement.params@) == seq![
                SqlView::Text(account_id@),
                SqlView::Text(mailbox@),
            ]
        },
    }
}

/// What a look at a mailbox found recorded: a look that failed found nothing.
pub open spec fn found_recorded(looked: Result<Option<(u32, u32)>, String>) -> Option<(u32, u32)> {
    match looked {
        Ok(previous) => previous,
        Err(_) => None,
    }
}

/// What an answer that the loop waits for leads to. Every answer ends its
/// command, but for a look at a mailbox: what was reported of the mailbox is
/// then recorded.
pub open spec fn answer_outcome(
    before: DbPhase,
    outcome: DbOutcome,
    after: DbPhase,
    reply: DbReply,
) -> bool {
    match (before, outcome) {
        (
            DbPhase::Looking { account_id, mailbox, uid_validity, uid_next },
            DbOutcome::Looked(looked),
        ) => {
            let plan = sync_plan(found_recorded(looked), uid_validity, uid_next);
            &&& after == DbPhase::Recording { account_id, mailbox, plan }
            &&& reply.event is None
            &&& reply.request matches Some(DbRequest::Write { ops }) && op_views(ops@)
                == report_ops(account_id@, mailbox@, plan, uid_validity, uid_next)
        },
        _ => {
            &&& after == DbPhase::Idle
            &&& reply.request is None
            &&& reply.event == report_of(before, outcome)
        },
    }
}

/// What is reported of the answer that ends a command: an error of any, the
/// result of a search, a fetch or a reported state, and nothing of a write that
/// succeeded.
pub open spec fn report_of(before: DbPhase, outcome: DbOutcome) -> Option<DbEvent> {
    match (before, outcome) {
        (_, DbOutcome::Written(Err(e))) => Some(DbEvent::Error(e)),
        (_, DbOutcome::Found(Err(e))) => Some(DbEvent::Error(e)),
        (_, DbOutcome::Fetched(Err(e))) => Some(DbEvent::Error(e)),
        (_, DbOutcome::Found(Ok(headers))) => Some(DbEvent::SearchResult { headers }),
        (_, DbOutcome::Fetched(Ok((header, body)))) => Some(DbEvent::MailFetched { header, body }),
        (
            DbPhase::Recording { account_id, mailbox, plan },
            DbOutcome::Written(Ok(_)),
        ) => Some(DbEvent::SyncPlan { account_id, mailbox, plan }),
        _ => None,
    }
}

impl DbActor {
    /// Waiting for the first command.
    pub fn new() -> (r: Self)
        ensures
            r.phase == DbPhase::Idle,
    {
        DbActor { phase: DbPhase::Idle }
    }

    /// Take a command, given at the time `now`.
    pub fn on_command(&mut self, cmd: DbCommand, now: i64) -> (request: DbRequest)
        requires
            old(self).phase is Idle,
        ensures
            command_outcome(cmd, now, *final(self), request),
    {
        match cmd {
            DbCommand::IndexMail { account_id, mailbox, header, body } => {
                self.phase = DbPhase::Writing;
                DbRequest::Write {
                    ops: index_mail(
                        account_id.as_str(),
                        mailbox.as_str(),
                        &header,
                        body.as_str(),
                        now,
                    ),
                }
            },
            DbCommand::IndexHeaders { account_id, mailbox, headers } => {
                self.phase = DbPhase::Writing;
                DbRequest::Write {
                    ops: index_headers(account_id.as_str(), mailbox.as_str(), &headers),
                }
            },
            DbCommand::Search { account_id, query, mailbox } => {
                self.phase = DbPhase::Searching;
                DbRequest::Search {
                    statement: search_query(account_id.as_str(), query.as_str(), &mailbox),
                }
            },
            DbCommand::FetchMail { account_id, mailbox, uid } => {
                self.phase = DbPhase::Fetching;
                DbRequest::Fetch {
                    uid,
                    statement: fetch_mail_query(account_id.as_str(), mailbox.as_str(), uid),
                }
            },
            DbCommand::ReportMailboxState { account_id, mailbox, uid_validity, uid_next } => {
                let statement = mailbox_query(account_id.as_str(), mailbox.as_str());
                self.phase = DbPhase::Looking { account_id, mailbox, uid_validity, uid_next };
                DbRequest::Look { statement }
            },
        }
    }

    /// Take the database's answer to the last request.
    pub fn on_outcome(&mut self, outcome: DbOutcome) -> (reply: DbReply)
        requires
            expects(old(self).phase, outcome),
        ensures
            answer_outcome(old(self).phase, outcome, final(self).phase, reply),
    {
        let mut phase: DbPhase = DbPhase::Idle;
        core::mem::swap(&mut phase, &mut self.phase);
        let event: Option<DbEvent> = match (phase, outcome) {
            (
                DbPhase::Looking { account_id, mailbox, uid_validity, uid_next },
                DbOutcome::Looked(looked),
            ) => {
                let previous: Option<(u32, u32)> = match looked {
                    Ok(previous) => previous,
                    Err(_) => None,
                };
                let (plan, ops) = report_mailbox_state(
                    previous,
                    account_id.as_str(),
                    mailbox.as_str(),
                    uid_validity,
                    uid_next,
                );
                self.phase = DbPhase::Recording { account_id, mailbox, plan };
                return DbReply { request: Some(DbRequest::Write { ops }), event: None };
            },
            (DbPhase::Recording { account_id, mailbox, plan }, DbOutcome::Written(Ok(_))) => Some(
                DbEvent::SyncPlan { account_id, mailbox, plan },
            ),
            (_, DbOutcome::Found(Ok(headers))) => Some(DbEvent::SearchResult { headers }),
            (_, DbOutcome::Fetched(Ok((header, body)))) => Some(
                DbEvent::MailFetched { header, body },
            ),
            (_, DbOutcome::Written(Err(e))) => Some(DbEvent::Error(e)),
            (_, DbOutcome::Found(Err(e))) => Some(DbEvent::Error(e)),
            (_, DbOutcome::Fetched(Err(e))) => Some(DbEvent::Error(e)),
            _ => None,
        };
        DbReply { request: None, event }
    }
}

/// One command and what came of it: the answers of the database, the phases
/// between them, and what followed each.
pub struct Serving {
    pub cmd: DbCommand,
    pub now: i64,
    pub request: DbRequest,
    pub outcomes: Seq<DbOutcome>,
    /// Before each answer, and after the last.
    pub phases: Seq<DbPhase>,
    pub replies: Seq<DbReply>,
}

/// Whether answer number `i` of a serving is one the loop waited for, and led to
/// what followed it.
pub open spec fn answer_holds(s: Serving, i: int) -> bool {
    &&& expects(s.phases[i], s.outcomes[i])
    &&& answer_outcome(s.phases[i], s.outcomes[i], s.phases[i + 1], s.replies[i])
}

/// Whether a serving is what the loop does on its command, up to the moment
/// when it waits for the next one.
pub open spec fn is_served(s: Serving) -> bool {
    &&& s.phases.len() == s.outcomes.len() + 1
    &&& s.replies.len() == s.outcomes.len()
    &&& command_outcome(s.cmd, s.now, DbActor { phase: s.phases[0] }, s.request)
    &&& forall|i: int| 0 <= i < s.outcomes.len() ==> #[trigger] answer_holds(s, i)
    &&& s.phases.last() is Idle
}

/// The events that a serving reports, in order.
pub open spec fn reported(replies: Seq<DbReply>) -> Seq<DbEvent>
    decreases replies.len(),
{
    if replies.len() == 0 {
        Seq::empty()
    } else {
        match replies.last().event {
            Some(event) => reported(replies.drop_last()).push(event),
            None => reported(replies.drop_last()),
        }
    }
}

/// The answer that a command is owed, given how the database answered it last
/// and, for a reported state, what was recorded before.
pub open spec fn answer_to(cmd: DbCommand, outcomes: Seq<DbOutcome>) -> Seq<DbEvent> {
    match outcomes.last() {
        DbOutcome::Written(Err(e)) => seq![DbEvent::Error(e)],
        DbOutcome::Found(Err(e)) => seq![DbEvent::Error(e)],
        DbOutcome::Fetched(Err(e)) => seq![DbEvent::Error(e)],
        DbOutcome::Found(Ok(headers)) => seq![DbEvent::SearchResult { headers }],
        DbOutcome::Fetched(Ok((header, body))) => seq![DbEvent::MailFetched { header, body }],
        DbOutcome::Written(Ok(_)) => match (cmd, outcomes[0]) {
            (
                DbCommand::ReportMailboxState { account_id, mailbox, uid_validity, uid_next },
                DbOutcome::Looked(looked),
            ) => seq![
                DbEvent::SyncPlan {
                    account_id,
                    mailbox,
                    plan: sync_plan(found_recorded(looked), uid_validity, uid_next),
                },
            ],
            _ => Seq::empty(),
        },
        DbOutcome::Looked(_) => Seq::empty(),
    }
}

/// Whether an answer ends a command of this kind.
pub open spec fn ends(cmd: DbCommand, outcome: DbOutcome) -> bool {
    match cmd {
        DbCommand::IndexMail { .. } => outcome is Written,
        DbCommand::IndexHeaders { .. } => outcome is Written,
        DbCommand::Search { .. } => outcome is Found,
        DbCommand::FetchMail { .. } => outcome is Fetched,
        DbCommand::ReportMailboxState { .. } => outcome is Written,
    }
}

/// Every command comes to an end, whatever the database answers: the loop waits
/// for the next command after one answer, or after the second one to a reported
/// state, which has to be recorded.
pub proof fn every_answer_leads_on(
    before: DbPhase,
    outcome: DbOutcome,
    after: DbPhase,
    reply: DbReply,
)
    requires
        expects(before, outcome),
        answer_outcome(before, outcome, after, reply),
    ensures
        after is Idle || (before is Looking && after is Recording && outcome is Looked),
        after is Idle <==> reply.request is None,
{
}

/// A command is answered by exactly the event that it is owed: a search, a fetch
/// and a reported state by one event, their result or an error; a write by an
/// error or nothing.
pub proof fn each_command_is_answered_once(s: Serving)
    requires
        is_served(s),
    ensures
        1 <= s.outcomes.len() <= 2,
        ends(s.cmd, s.outcomes.last()),
        reported(s.replies) == answer_to(s.cmd, s.outcomes),
        (s.cmd is Search || s.cmd is FetchMail || s.cmd is ReportMailboxState) ==> reported(
            s.replies,
        ).len() == 1,
{
    let n = s.outcomes.len() as int;
    assert(n > 0);
    assert(answer_holds(s, 0));
    if n > 1 {
        assert(answer_holds(s, 1));
        if n > 2 {
            assert(answer_holds(s, 2));
        }
        assert(n == 2);
        assert(s.replies.drop_last() == seq![s.replies[0]]);
        assert(seq![s.replies[0]].drop_last() == Seq::<DbReply>::empty());
        assert(reported(Seq::<DbReply>::empty()) == Seq::<DbEvent>::empty());
        assert(reported(seq![s.replies[0]]) == Seq::<DbEvent>::empty());
    } else {
        assert(s.replies.drop_last() == Seq::<DbReply>::empty());
        assert(reported(Seq::<DbReply>::empty()) == Seq::<DbEvent>::empty());
    }
    assert(reported(s.replies) =~= answer_to(s.cmd, s.outcomes));
}

/// The events that a series of servings reports, in order.
pub open spec fn all_reported(servings: Seq<Serving>) -> Seq<DbEvent>
    decreases servings.len(),
{
    if servings.len() == 0 {
        Seq::empty()
    } else {
        all_reported(servings.drop_last()) + reported(servings.last().replies)
    }
}

/// The answers that a series of commands is owed, in the order of the commands.
pub open spec fn all_answers(servings: Seq<Serving>) -> Seq<DbEvent>
    decreases servings.len(),
{
    if servings.len() == 0 {
        Seq::empty()
    } else {
        all_answers(servings.drop_last()) + answer_to(
            servings.last().cmd,
            servings.last().outcomes,
        )
    }
}

/// Commands are answered in the order in which they came, each by what it is
/// owed; one that failed stops none of those behind it.
pub proof fn commands_are_answered_in_order(servings: Seq<Serving>)
    requires
        forall|i: int| 0 <= i < servings.len() ==> is_served(#[trigger] servings[i]),
    ensures
        all_reported(servings) == all_answers(servings),
    decreases servings.len(),
{
    if servings.len() > 0 {
        let shorter = servings.drop_last();
        assert forall|i: int| 0 <= i < shorter.len() implies is_served(#[trigger] shorter[i]) by {
            assert(shorter[i] == servings[i]);
        }
        commands_are_answered_in_order(shorter);
        assert(is_served(servings[servings.len() - 1]));
        each_command_is_answered_once(servings.last());
    }
}

/// A search and a fetch ask for what the command names, in the account that it
/// names; a search without a mailbox goes through all of them.
pub proof fn queries_name_what_is_wanted(
    account_id: String,
    mailbox: String,
    query: String,
    uid: u32,
    now: i64,
    after: DbActor,
    request: DbRequest,
)
    ensures
        command_outcome(
            DbCommand::Search { account_id, query, mailbox: Some(mailbox) },
            now,
            after,
            request,
        ) ==> (request matches DbRequest::Search { statement } && param_views(statement.params@)
            == seq![
            SqlView::Text(account_id@),
            SqlView::Text(mailbox@),
            SqlView::Text(query@),
        ]),
        command_outcome(
            DbCommand::Search { account_id, query, mailbox: None },
            now,
            after,
            request,
        ) ==> (request matches DbRequest::Search { statement } && param_views(statement.params@)
            == seq![SqlView::Text(account_id@), SqlView::Null, SqlView::Text(query@)]),
        command_outcome(DbCommand::FetchMail { account_id, mailbox, uid }, now, after, request)
            ==> (request matches DbRequest::Fetch { uid: wanted, statement } && wanted == uid
            && param_views(statement.params@) == seq![
            SqlView::Text(account_id@),
            SqlView::Text(mailbox@),
            SqlView::Integer(uid as i64),
        ]),
{
}

/// A reported state is held against what is recorded of that very mailbox, and
/// the plan that is reported follows from the two: a mailbox with new messages
/// is fetched from the first of them on, one that was renumbered or never seen
/// whole, and any other not at all.
pub proof fn reported_states_are_compared(
    account_id: String,
    mailbox: String,
    uid_validity: u32,
    uid_next: u32,
    looked: Result<Option<(u32, u32)>, String>,
    now: i64,
    waiting: DbActor,
    request: DbRequest,
    recording: DbPhase,
    reply: DbReply,
    written: Result<(), String>,
    done: DbPhase,
    last: DbReply,
)
    requires
        command_outcome(
            DbCommand::ReportMailboxState { account_id, mailbox, uid_validity, uid_next },
            now,
            waiting,
            request,
        ),
        answer_outcome(waiting.phase, DbOutcome::Looked(looked), recording, reply),
        answer_outcome(recording, DbOutcome::Written(written), done, last),
    ensures
        request matches DbRequest::Look { statement } && param_views(statement.params@) == seq![
            SqlView::Text(account_id@),
            SqlView::Text(mailbox@),
        ],
        written matches Err(e) ==> last.event == Some(DbEvent::Error(e)),
        written is Ok ==> (last.event matches Some(DbEvent::SyncPlan {
            account_id: a,
            mailbox: m,
            plan,
        }) && a == account_id && m == mailbox && (looked matches Ok(Some((validity, next))) ==> (
        validity == uid_validity && next < uid_next ==> plan == (SyncPlan::FetchFrom {
            first_new_uid: next,
        })) && (validity == uid_validity && next >= uid_next ==> plan == SyncPlan::UpToDate) && (
        validity != uid_validity ==> plan == SyncPlan::Resync))),
{
}

/// What the database found is reported as it is, and so is its error.
pub proof fn answers_are_passed_on(
    phase: DbPhase,
    headers: Vec<MailHeader>,
    header: MailHeader,
    body: String,
    error: String,
    after: DbPhase,
    reply: DbReply,
)
    requires
        phase is Searching || phase is Fetching || phase is Writing,
    ensures
        answer_outcome(phase, DbOutcome::Found(Ok(headers)), after, reply) ==> reply.event == Some(
            DbEvent::SearchResult { headers },
        ),
        answer_outcome(phase, DbOutcome::Fetched(Ok((header, body))), after, reply)
            ==> reply.event == Some(DbEvent::MailFetched { header, body }),
        answer_outcome(phase, DbOutcome::Found(Err(error)), after, reply) ==> reply.event == Some(
            DbEvent::Error(error),
        ),
        answer_outcome(phase, DbOutcome::Fetched(Err(error)), after, reply) ==> reply.event == Some(
            DbEvent::Error(error),
        ),
        answer_outcome(phase, DbOutcome::Written(Err(error)), after, reply) ==> reply.event == Some(
            DbEvent::Error(error),
        ),
        answer_outcome(phase, DbOutcome::Written(Ok(())), after, reply) ==> reply.event is None,
{
}

} // verus!
