//! The decisions behind the IMAP connections: when to log in, reconnect, wait,
//! or give up; which command goes to which connection; and what is reported of
//! each outcome. The network work itself is done by the caller, which carries
//! out the actions and hands back what came of them.
use vstd::prelude::*;

use crate::imap::{
    message_problem, is_line_of, read_message, uid_query, range_query, FetchedMessage,
    ImapCommand, ImapEvent, MailHeader, MailboxState,
};
use crate::render::{
    attached, attachment_views, extract_attachments, parsed_mail, render_message, rendered,
    Attachment, AttachmentView,
};
use crate::text::decimal;

verus! {

/// How many times a lost connection is retried before the error is reported.
pub const MAX_RECONNECT_ATTEMPTS: u32 = 5;

/// The longest wait between two reconnect attempts, in seconds.
pub const MAX_RECONNECT_DELAY: u64 = 16;

/// The wait after reconnect attempt number `attempt`: 1 s, 2 s, 4 s, 8 s, and
/// so on up to the longest wait.
pub open spec fn backoff(attempt: int) -> int
    decreases attempt,
{
    if attempt <= 1 {
        1
    } else if 2 * backoff(attempt - 1) < MAX_RECONNECT_DELAY {
        2 * backoff(attempt - 1)
    } else {
        MAX_RECONNECT_DELAY as int
    }
}

/// The waits that five attempts take: one second after the first, then twice
/// as long each time; never more than the longest wait, however many follow.
pub proof fn backoff_doubles_up_to_its_cap(attempt: int)
    ensures
        backoff(1) == 1,
        backoff(2) == 2,
        backoff(3) == 4,
        backoff(4) == 8,
        1 <= backoff(attempt) <= MAX_RECONNECT_DELAY,
    decreases attempt,
{
    reveal_with_fuel(backoff, 5);
    if attempt > 1 {
        backoff_doubles_up_to_its_cap(attempt - 1);
    }
}

/// The next wait after a wait of `delay` seconds.
fn next_delay(delay: u64) -> (r: u64)
    requires
        delay <= MAX_RECONNECT_DELAY,
    ensures
        r == if 2 * delay < MAX_RECONNECT_DELAY {
            2 * delay
        } else {
            MAX_RECONNECT_DELAY as int
        },
{
    if delay * 2 < MAX_RECONNECT_DELAY {
        delay * 2
    } else {
        MAX_RECONNECT_DELAY
    }
}

/// Credentials kept around so a dropped connection can be retried without the
/// user re-entering their password. Held only in memory.
pub struct Credentials<P> {
    pub host: String,
    pub port: u16,
    pub username: String,
    pub password: P,
}

/// Work for the control connection.
#[derive(Debug)]
pub enum Job {
    ListMailboxes,
    Headers { mailbox: String, page: u32, req_id: u64 },
    Poll { mailbox: String },
    NewHeaders { mailbox: String, first_uid: u32 },
    HeadersFrom { mailbox: String, first_uid: u32 },
}

/// What came of a job that succeeded.
#[derive(Debug)]
pub enum JobReply {
    Mailboxes(Vec<String>),
    Headers { headers: Vec<MailHeader>, total_pages: u32, mailbox_state: MailboxState },
    Polled(MailboxState),
    Envelopes(Vec<MailHeader>),
}

/// Work for the second connection, which fetches message bodies.
#[derive(Debug)]
pub enum WorkerCommand {
    FetchBody { mailbox: String, uid: u32, req_id: u64 },
    BulkDownload { mailbox: String },
}

/// What the control connection is doing.
pub enum Phase<P> {
    /// Waiting for a command.
    Idle,
    /// A login the user asked for is under way.
    LoggingIn(Credentials<P>),
    /// Reconnect attempt number `attempt` is under way, on behalf of `job`.
    Reconnecting { attempt: u32, delay: u64, job: Job },
    /// Attempt number `attempt` failed; `delay` seconds pass before the next.
    Waiting { attempt: u32, delay: u64, job: Job },
    /// The session is carrying out `job`.
    Working(Job),
}

/// What the caller is to do next, in order.
pub enum ImapAction {
    /// Pass this event on to the user interface.
    Emit(ImapEvent),
    /// Log in with the credentials of the `LoggingIn` phase; the outcome goes
    /// to `on_login`.
    LogIn,
    /// Log in again with the last credentials that worked; the outcome goes to
    /// `on_login`.
    Reconnect,
    /// Let this many seconds pass, then call `on_waited`.
    Wait { seconds: u64 },
    /// Carry out the job of the `Working` phase; the outcome goes to
    /// `on_reply`.
    Perform,
    /// Start a body worker with the credentials that just worked; it takes the
    /// place of an earlier one.
    StartWorker,
    /// Hand this to the body worker.
    Delegate(WorkerCommand),
}

/// The control connection: whether a session is live, the last credentials
/// that worked, whether a body worker was started, and what is under way.
pub struct ImapActor<P> {
    pub session: bool,
    pub credentials: Option<Credentials<P>>,
    pub worker: bool,
    pub phase: Phase<P>,
}

/// Whether `actions` is the single report of an error with this text.
pub open spec fn is_error_report(actions: Seq<ImapAction>, text: Seq<char>) -> bool {
    &&& actions.len() == 1
    &&& actions[0] matches ImapAction::Emit(ImapEvent::Error(e)) && e@ == text
}

/// How a job that may reconnect starts: at once on a live session; with a
/// reconnect, announced as a lost connection, where credentials are at hand;
/// with an error where the user never logged in.
pub open spec fn job_starts<P>(
    before: ImapActor<P>,
    job: Job,
    after: ImapActor<P>,
    actions: Seq<ImapAction>,
) -> bool {
    if before.session {
        &&& after == ImapActor { phase: Phase::Working(job), ..before }
        &&& actions == seq![ImapAction::Perform]
    } else if before.credentials is Some {
        &&& after == ImapActor {
            phase: Phase::Reconnecting { attempt: 1, delay: 1, job },
            ..before
        }
        &&& actions == seq![ImapAction::Emit(ImapEvent::Disconnected), ImapAction::Reconnect]
    } else {
        &&& after == before
        &&& is_error_report(actions, "not connected yet"@)
    }
}

/// How a job that only a live session may do starts: not at all without one.
pub open spec fn background_job_starts<P>(
    before: ImapActor<P>,
    job: Job,
    after: ImapActor<P>,
    actions: Seq<ImapAction>,
) -> bool {
    if before.session {
        &&& after == ImapActor { phase: Phase::Working(job), ..before }
        &&& actions == seq![ImapAction::Perform]
    } else {
        &&& after == before
        &&& actions == Seq::<ImapAction>::empty()
    }
}

/// How work for the body worker is handed over; it never touches this
/// connection.
pub open spec fn is_delegated<P>(
    before: ImapActor<P>,
    work: WorkerCommand,
    after: ImapActor<P>,
    actions: Seq<ImapAction>,
) -> bool {
    &&& after == before
    &&& if before.worker {
        actions == seq![ImapAction::Delegate(work)]
    } else {
        is_error_report(actions, "not connected"@)
    }
}

/// What happens on a command.
pub open spec fn command_outcome<P>(
    before: ImapActor<P>,
    cmd: ImapCommand<P>,
    after: ImapActor<P>,
    actions: Seq<ImapAction>,
) -> bool {
    match cmd {
        ImapCommand::Connect { host, port, username, password } => {
            &&& after == ImapActor {
                phase: Phase::LoggingIn(Credentials { host, port, username, password }),
                ..before
            }
            &&& actions == seq![ImapAction::LogIn]
        },
        ImapCommand::FetchMailboxes => job_starts(before, Job::ListMailboxes, after, actions),
        ImapCommand::FetchHeaders { mailbox, page, req_id } => job_starts(
            before,
            Job::Headers { mailbox, page, req_id },
            after,
            actions,
        ),
        ImapCommand::FetchBody { mailbox, uid, req_id } => is_delegated(
            before,
            WorkerCommand::FetchBody { mailbox, uid, req_id },
            after,
            actions,
        ),
        ImapCommand::BulkDownload { mailbox } => is_delegated(
            before,
            WorkerCommand::BulkDownload { mailbox },
            after,
            actions,
        ),
        ImapCommand::PollMailbox { mailbox } => background_job_starts(
            before,
            Job::Poll { mailbox },
            after,
            actions,
        ),
        ImapCommand::FetchNewHeaders { mailbox, first_uid } => background_job_starts(
            before,
            Job::NewHeaders { mailbox, first_uid },
            after,
            actions,
        ),
        ImapCommand::FetchHeadersFrom { mailbox, first_uid } => job_starts(
            before,
            Job::HeadersFrom { mailbox, first_uid },
            after,
            actions,
        ),
    }
}

/// What happens on the outcome of a login.
pub open spec fn login_outcome<P>(
    before: ImapActor<P>,
    outcome: Result<(), String>,
    after: ImapActor<P>,
    actions: Seq<ImapAction>,
) -> bool {
    match (before.phase, outcome) {
        (Phase::LoggingIn(credentials), Ok(_)) => {
            &&& after == ImapActor {
                session: true,
                credentials: Some(credentials),
                worker: true,
                phase: Phase::Idle,
            }
            &&& actions == seq![ImapAction::StartWorker, ImapAction::Emit(ImapEvent::Connected)]
        },
        (Phase::LoggingIn(_), Err(e)) => {
            &&& after == ImapActor { phase: Phase::Idle, ..before }
            &&& actions == seq![ImapAction::Emit(ImapEvent::Error(e))]
        },
        (Phase::Reconnecting { attempt, delay, job }, Ok(_)) => {
            &&& after == ImapActor { session: true, phase: Phase::Working(job), ..before }
            &&& actions == seq![ImapAction::Emit(ImapEvent::Connected), ImapAction::Perform]
        },
        (Phase::Reconnecting { attempt, delay, job }, Err(e)) => if attempt
            < MAX_RECONNECT_ATTEMPTS {
            &&& after == ImapActor { phase: Phase::Waiting { attempt, delay, job }, ..before }
            &&& actions == seq![ImapAction::Wait { seconds: delay }]
        } else {
            &&& after == ImapActor { phase: Phase::Idle, ..before }
            &&& actions == seq![ImapAction::Emit(ImapEvent::Error(e))]
        },
        _ => false,
    }
}

/// What happens once the wait after a failed attempt is over: the next attempt
/// starts, with the next wait.
pub open spec fn waited_outcome<P>(
    before: ImapActor<P>,
    after: ImapActor<P>,
    actions: Seq<ImapAction>,
) -> bool {
    &&& before.phase matches Phase::Waiting { attempt, delay, job } && after == ImapActor {
        phase: Phase::Reconnecting {
            attempt: (attempt + 1) as u32,
            delay: backoff(attempt + 1) as u64,
            job,
        },
        ..before
    }
    &&& actions == seq![ImapAction::Reconnect]
}

/// Whether a reply is one that this job can have.
pub open spec fn reply_fits(job: Job, reply: JobReply) -> bool {
    match job {
        Job::ListMailboxes => reply is Mailboxes,
        Job::Headers { .. } => reply is Headers,
        Job::Poll { .. } => reply is Polled,
        Job::NewHeaders { .. } => reply is Envelopes,
        Job::HeadersFrom { .. } => reply is Envelopes,
    }
}

/// What is reported of a job that succeeded.
pub open spec fn success_event(job: Job, reply: JobReply) -> ImapEvent
    recommends
        reply_fits(job, reply),
{
    match (job, reply) {
        (Job::ListMailboxes, JobReply::Mailboxes(names)) => ImapEvent::Mailboxes(names),
        (
            Job::Headers { mailbox, page, req_id },
            JobReply::Headers { headers, total_pages, mailbox_state },
        ) => ImapEvent::Headers { mailbox, headers, page, total_pages, req_id, mailbox_state },
        (Job::Poll { mailbox }, JobReply::Polled(state)) => ImapEvent::MailboxPolled {
            mailbox,
            state,
        },
        (Job::NewHeaders { mailbox, .. }, JobReply::Envelopes(headers)) => ImapEvent::NewHeaders {
            mailbox,
            headers,
        },
        (Job::HeadersFrom { mailbox, .. }, JobReply::Envelopes(headers)) => ImapEvent::HeadersFrom {
            mailbox,
            headers,
        },
        _ => ImapEvent::Disconnected,
    }
}

/// What is reported of a job that failed: a background job fails quietly.
pub open spec fn failure_event(job: Job, error: String) -> ImapEvent {
    match job {
        Job::Poll { .. } => ImapEvent::PollFailed(error),
        Job::NewHeaders { .. } => ImapEvent::PollFailed(error),
        _ => ImapEvent::Error(error),
    }
}

fn one_action(a: ImapAction) -> (r: Vec<ImapAction>)
    ensures
        r@ == seq![a],
{
    let mut v: Vec<ImapAction> = Vec::new();
    v.push(a);
    assert(v@ == seq![a]);
    v
}

fn two_actions(a: ImapAction, b: ImapAction) -> (r: Vec<ImapAction>)
    ensures
        r@ == seq![a, b],
{
    let mut v: Vec<ImapAction> = Vec::new();
    v.push(a);
    v.push(b);
    assert(v@ == seq![a, b]);
    v
}

impl<P> ImapActor<P> {
    /// A job runs only on a live session. A reconnect has credentials, no
    /// session, at most five attempts, and the wait that belongs to its
    /// attempt.
    pub open spec fn wf(self) -> bool {
        match self.phase {
            Phase::Idle => true,
            Phase::LoggingIn(_) => true,
            Phase::Working(_) => self.session,
            Phase::Reconnecting { attempt, delay, job } => {
                &&& !self.session
                &&& self.credentials is Some
                &&& 1 <= attempt <= MAX_RECONNECT_ATTEMPTS
                &&& delay == backoff(attempt as int)
            },
            Phase::Waiting { attempt, delay, job } => {
                &&& !self.session
                &&& self.credentials is Some
                &&& 1 <= attempt < MAX_RECONNECT_ATTEMPTS
                &&& delay == backoff(attempt as int)
            },
        }
    }

    /// No session, no credentials, no worker.
    pub fn new() -> (r: Self)
        ensures
            r.wf(),
            r == (ImapActor::<P> {
                session: false,
                credentials: None,
                worker: false,
                phase: Phase::Idle,
            }),
    {
        ImapActor { session: false, credentials: None, worker: false, phase: Phase::Idle }
    }

    fn start_job(&mut self, job: Job) -> (actions: Vec<ImapAction>)
        requires
            old(self).wf(),
            old(self).phase is Idle,
        ensures
            final(self).wf(),
            job_starts(*old(self), job, *final(self), actions@),
    {
        if self.session {
            self.phase = Phase::Working(job);
            one_action(ImapAction::Perform)
        } else if self.credentials.is_some() {
            self.phase = Phase::Reconnecting { attempt: 1, delay: 1, job };
            two_actions(ImapAction::Emit(ImapEvent::Disconnected), ImapAction::Reconnect)
        } else {
            one_action(ImapAction::Emit(ImapEvent::Error("not connected yet".to_owned())))
        }
    }

    fn start_background_job(&mut self, job: Job) -> (actions: Vec<ImapAction>)
        requires
            old(self).wf(),
            old(self).phase is Idle,
        ensures
            final(self).wf(),
            background_job_starts(*old(self), job, *final(self), actions@),
    {
        if self.session {
            self.phase = Phase::Working(job);
            one_action(ImapAction::Perform)
        } else {
            Vec::new()
        }
    }

    fn delegate(&self, work: WorkerCommand) -> (actions: Vec<ImapAction>)
        ensures
            is_delegated(*self, work, *self, actions@),
    {
        if self.worker {
            one_action(ImapAction::Delegate(work))
        } else {
            one_action(ImapAction::Emit(ImapEvent::Error("not connected".to_owned())))
        }
    }

    /// Take the next command. Commands wait while anything is under way.
    pub fn on_command(&mut self, cmd: ImapCommand<P>) -> (actions: Vec<ImapAction>)
        requires
            old(self).wf(),
            old(self).phase is Idle,
        ensures
            final(self).wf(),
            command_outcome(*old(self), cmd, *final(self), actions@),
    {
        match cmd {
            ImapCommand::Connect { host, port, username, password } => {
                self.phase = Phase::LoggingIn(Credentials { host, port, username, password });
                one_action(ImapAction::LogIn)
            },
            ImapCommand::FetchMailboxes => self.start_job(Job::ListMailboxes),
            ImapCommand::FetchHeaders { mailbox, page, req_id } => self.start_job(
                Job::Headers { mailbox, page, req_id },
            ),
            ImapCommand::FetchBody { mailbox, uid, req_id } => self.delegate(
                WorkerCommand::FetchBody { mailbox, uid, req_id },
            ),
            ImapCommand::BulkDownload { mailbox } => self.delegate(
                WorkerCommand::BulkDownload { mailbox },
            ),
            ImapCommand::PollMailbox { mailbox } => self.start_background_job(
                Job::Poll { mailbox },
            ),
            ImapCommand::FetchNewHeaders { mailbox, first_uid } => self.start_background_job(
                Job::NewHeaders { mailbox, first_uid },
            ),
            ImapCommand::FetchHeadersFrom { mailbox, first_uid } => self.start_job(
                Job::HeadersFrom { mailbox, first_uid },
            ),
        }
    }

    /// Take the outcome of a login, the user's own or a reconnect.
    pub fn on_login(&mut self, outcome: Result<(), String>) -> (actions: Vec<ImapAction>)
        requires
            old(self).wf(),
            old(self).phase is LoggingIn || old(self).phase is Reconnecting,
        ensures
            final(self).wf(),
            login_outcome(*old(self), outcome, *final(self), actions@),
    {
        let mut phase: Phase<P> = Phase::Idle;
        core::mem::swap(&mut phase, &mut self.phase);
        match phase {
            Phase::LoggingIn(credentials) => match outcome {
                Ok(_) => {
                    self.session = true;
                    self.credentials = Some(credentials);
                    self.worker = true;
                    two_actions(ImapAction::StartWorker, ImapAction::Emit(ImapEvent::Connected))
                },
                Err(e) => one_action(ImapAction::Emit(ImapEvent::Error(e))),
            },
            Phase::Reconnecting { attempt, delay, job } => match outcome {
                Ok(_) => {
                    self.session = true;
                    self.phase = Phase::Working(job);
                    two_actions(ImapAction::Emit(ImapEvent::Connected), ImapAction::Perform)
                },
                Err(e) => {
                    if attempt < MAX_RECONNECT_ATTEMPTS {
                        self.phase = Phase::Waiting { attempt, delay, job };
                        one_action(ImapAction::Wait { seconds: delay })
                    } else {
                        one_action(ImapAction::Emit(ImapEvent::Error(e)))
                    }
                },
            },
            _ => Vec::new(),
        }
    }

    /// The wait before the next reconnect attempt is over.
    pub fn on_waited(&mut self) -> (actions: Vec<ImapAction>)
        requires
            old(self).wf(),
            old(self).phase is Waiting,
        ensures
            final(self).wf(),
            waited_outcome(*old(self), *final(self), actions@),
    {
        let mut phase: Phase<P> = Phase::Idle;
        core::mem::swap(&mut phase, &mut self.phase);
        match phase {
            Phase::Waiting { attempt, delay, job } => {
                proof {
                    backoff_doubles_up_to_its_cap(attempt as int);
                    backoff_doubles_up_to_its_cap(attempt + 1);
                }
                self.phase = Phase::Reconnecting {
                    attempt: attempt + 1,
                    delay: next_delay(delay),
                    job,
                };
            },
            _ => {},
        }
        one_action(ImapAction::Reconnect)
    }

    /// Take what came of the job. A failure drops the session, so that the
    /// next command that may reconnect does.
    pub fn on_reply(&mut self, outcome: Result<JobReply, String>) -> (actions: Vec<ImapAction>)
        requires
            old(self).wf(),
            old(self).phase is Working,
            outcome is Ok ==> reply_fits(old(self).phase->Working_0, outcome->Ok_0),
        ensures
            final(self).wf(),
            match outcome {
                Ok(reply) => {
                    &&& *final(self) == (ImapActor::<P> { phase: Phase::Idle, ..*old(self) })
                    &&& actions@ == seq![
                        ImapAction::Emit(success_event(old(self).phase->Working_0, reply)),
                    ]
                },
                Err(e) => {
                    &&& *final(self) == (ImapActor::<P> {
                        session: false,
                        phase: Phase::Idle,
                        ..*old(self)
                    })
                    &&& actions@ == seq![
                        ImapAction::Emit(failure_event(old(self).phase->Working_0, e)),
                    ]
                },
            },
    {
        let mut actions: Vec<ImapAction> = Vec::new();
        let mut phase: Phase<P> = Phase::Idle;
        core::mem::swap(&mut phase, &mut self.phase);
        match phase {
            Phase::Working(job) => match outcome {
                Ok(reply) => match (job, reply) {
                    (Job::ListMailboxes, JobReply::Mailboxes(names)) => {
                        actions.push(ImapAction::Emit(ImapEvent::Mailboxes(names)));
                    },
                    (
                        Job::Headers { mailbox, page, req_id },
                        JobReply::Headers { headers, total_pages, mailbox_state },
                    ) => {
                        actions.push(
                            ImapAction::Emit(
                                ImapEvent::Headers {
                                    mailbox,
                                    headers,
                                    page,
                                    total_pages,
                                    req_id,
                                    mailbox_state,
                                },
                            ),
                        );
                    },
                    (Job::Poll { mailbox }, JobReply::Polled(state)) => {
                        actions.push(ImapAction::Emit(ImapEvent::MailboxPolled { mailbox, state }));
                    },
                    (Job::NewHeaders { mailbox, .. }, JobReply::Envelopes(headers)) => {
                        actions.push(ImapAction::Emit(ImapEvent::NewHeaders { mailbox, headers }));
                    },
                    (Job::HeadersFrom { mailbox, .. }, JobReply::Envelopes(headers)) => {
                        actions.push(ImapAction::Emit(ImapEvent::HeadersFrom { mailbox, headers }));
                    },
                    _ => {},
                },
                Err(e) => {
                    self.session = false;
                    match job {
                        Job::Poll { .. } => {
                            actions.push(ImapAction::Emit(ImapEvent::PollFailed(e)));
                        },
                        Job::NewHeaders { .. } => {
                            actions.push(ImapAction::Emit(ImapEvent::PollFailed(e)));
                        },
                        _ => {
                            actions.push(ImapAction::Emit(ImapEvent::Error(e)));
                        },
                    }
                },
            },
            _ => {},
        }
        actions
    }
}

/// A poll or a new-mail fetch never starts a reconnect: without a session
/// nothing at all is done, with one no login is asked for.
pub proof fn background_polls_never_reconnect<P>(
    before: ImapActor<P>,
    cmd: ImapCommand<P>,
    after: ImapActor<P>,
    actions: Seq<ImapAction>,
)
    requires
        cmd is PollMailbox || cmd is FetchNewHeaders,
        command_outcome(before, cmd, after, actions),
    ensures
        !before.session ==> after == before && actions.len() == 0,
        !actions.contains(ImapAction::Reconnect),
        !actions.contains(ImapAction::LogIn),
{
}

/// Opening a message or a bulk download never blocks or changes the control
/// connection.
pub proof fn body_work_leaves_the_control_connection_alone<P>(
    before: ImapActor<P>,
    cmd: ImapCommand<P>,
    after: ImapActor<P>,
    actions: Seq<ImapAction>,
)
    requires
        cmd is FetchBody || cmd is BulkDownload,
        command_outcome(before, cmd, after, actions),
    ensures
        after == before,
{
}

/// Attempt number `k`, counted from zero, fails: it leads from state `2 k` to
/// the next.
pub open spec fn attempt_fails<P>(
    a: Seq<ImapActor<P>>,
    actions: Seq<Seq<ImapAction>>,
    errors: Seq<String>,
    k: int,
) -> bool {
    login_outcome(a[2 * k], Err::<(), String>(errors[k]), a[2 * k + 1], actions[2 * k])
}

/// The wait after attempt number `k` leads to the state of the next attempt.
pub open spec fn wait_passes<P>(
    a: Seq<ImapActor<P>>,
    actions: Seq<Seq<ImapAction>>,
    k: int,
) -> bool {
    waited_outcome(a[2 * k + 1], a[2 * k + 2], actions[2 * k + 1])
}

/// A server that cannot be reached is tried five times, with waits of one, two,
/// four and eight seconds between; then the last error is reported and nothing
/// is under way any more.
pub proof fn reconnect_gives_up_after_five_attempts<P>(
    a: Seq<ImapActor<P>>,
    actions: Seq<Seq<ImapAction>>,
    errors: Seq<String>,
    job: Job,
)
    requires
        a.len() == 10,
        actions.len() == 9,
        errors.len() == 5,
        a[0].phase == (Phase::<P>::Reconnecting { attempt: 1, delay: 1, job }),
        forall|k: int| 0 <= k < 5 ==> #[trigger] attempt_fails(a, actions, errors, k),
        forall|k: int| 0 <= k < 4 ==> #[trigger] wait_passes(a, actions, k),
    ensures
        actions[0] == seq![ImapAction::Wait { seconds: 1 }],
        actions[2] == seq![ImapAction::Wait { seconds: 2 }],
        actions[4] == seq![ImapAction::Wait { seconds: 4 }],
        actions[6] == seq![ImapAction::Wait { seconds: 8 }],
        actions[8] == seq![ImapAction::Emit(ImapEvent::Error(errors[4]))],
        a[9] == (ImapActor::<P> { phase: Phase::Idle, ..a[0] }),
{
    reveal_with_fuel(backoff, 6);
    assert(attempt_fails(a, actions, errors, 0));
    assert(wait_passes(a, actions, 0));
    assert(attempt_fails(a, actions, errors, 1));
    assert(wait_passes(a, actions, 1));
    assert(attempt_fails(a, actions, errors, 2));
    assert(wait_passes(a, actions, 2));
    assert(attempt_fails(a, actions, errors, 3));
    assert(wait_passes(a, actions, 3));
    assert(attempt_fails(a, actions, errors, 4));
}

/// What the body worker's connection is doing.
pub enum WorkerPhase {
    /// Waiting for a command.
    Idle,
    /// Connection attempt number `attempt` is under way.
    Connecting { attempt: u32, delay: u64, command: WorkerCommand },
    /// Attempt number `attempt` failed; `delay` seconds pass before the next.
    Waiting { attempt: u32, delay: u64, command: WorkerCommand },
    /// The session is carrying out the command.
    Working(WorkerCommand),
}

/// What the body worker's caller is to do next, in order.
pub enum WorkerAction {
    /// Pass this event on to the user interface.
    Emit(ImapEvent),
    /// Log in; the outcome goes to `on_login`.
    LogIn,
    /// Let this many seconds pass, then call `on_waited`.
    Wait { seconds: u64 },
    /// Carry out the command of the `Working` phase.
    Perform,
}

/// The second connection, which fetches message bodies so that opening a
/// message never blocks the message list. It reconnects silently: whether the
/// account counts as connected is the control connection's affair.
pub struct BodyWorker {
    pub session: bool,
    pub phase: WorkerPhase,
}

/// What happens on a command for the worker.
pub open spec fn worker_command_outcome(
    before: BodyWorker,
    command: WorkerCommand,
    after: BodyWorker,
    actions: Seq<WorkerAction>,
) -> bool {
    if before.session {
        &&& after == BodyWorker { phase: WorkerPhase::Working(command), ..before }
        &&& actions == seq![WorkerAction::Perform]
    } else {
        &&& after == BodyWorker {
            phase: WorkerPhase::Connecting { attempt: 1, delay: 1, command },
            ..before
        }
        &&& actions == seq![WorkerAction::LogIn]
    }
}

/// What is reported when no connection could be opened.
pub open spec fn connection_failure(e: Seq<char>) -> Seq<char> {
    "could not open a connection for this request: "@ + e
}

/// What happens on the outcome of the worker's login: no event but the final
/// failure.
pub open spec fn worker_login_outcome(
    before: BodyWorker,
    outcome: Result<(), String>,
    after: BodyWorker,
    actions: Seq<WorkerAction>,
) -> bool {
    match (before.phase, outcome) {
        (WorkerPhase::Connecting { attempt, delay, command }, Ok(_)) => {
            &&& after == BodyWorker { session: true, phase: WorkerPhase::Working(command) }
            &&& actions == seq![WorkerAction::Perform]
        },
        (WorkerPhase::Connecting { attempt, delay, command }, Err(e)) => if attempt
            < MAX_RECONNECT_ATTEMPTS {
            &&& after == BodyWorker {
                phase: WorkerPhase::Waiting { attempt, delay, command },
                ..before
            }
            &&& actions == seq![WorkerAction::Wait { seconds: delay }]
        } else {
            &&& after == BodyWorker { phase: WorkerPhase::Idle, ..before }
            &&& actions.len() == 1
            &&& actions[0] matches WorkerAction::Emit(ImapEvent::Error(text)) && text@
                == connection_failure(e@)
        },
        _ => false,
    }
}

fn one_worker_action(a: WorkerAction) -> (r: Vec<WorkerAction>)
    ensures
        r@ == seq![a],
{
    let mut v: Vec<WorkerAction> = Vec::new();
    v.push(a);
    assert(v@ == seq![a]);
    v
}

impl BodyWorker {
    /// A command runs only on a live session; a reconnect makes at most five
    /// attempts, each with the wait that belongs to it.
    pub open spec fn wf(self) -> bool {
        match self.phase {
            WorkerPhase::Idle => true,
            WorkerPhase::Working(_) => self.session,
            WorkerPhase::Connecting { attempt, delay, command } => {
                &&& !self.session
                &&& 1 <= attempt <= MAX_RECONNECT_ATTEMPTS
                &&& delay == backoff(attempt as int)
            },
            WorkerPhase::Waiting { attempt, delay, command } => {
                &&& !self.session
                &&& 1 <= attempt < MAX_RECONNECT_ATTEMPTS
                &&& delay == backoff(attempt as int)
            },
        }
    }

    /// Not connected, nothing under way.
    pub fn new() -> (r: Self)
        ensures
            r.wf(),
            r == (BodyWorker { session: false, phase: WorkerPhase::Idle }),
    {
        BodyWorker { session: false, phase: WorkerPhase::Idle }
    }

    /// Take the next command: at once on a live session, else after logging
    /// in.
    pub fn on_command(&mut self, command: WorkerCommand) -> (actions: Vec<WorkerAction>)
        requires
            old(self).wf(),
            old(self).phase is Idle,
        ensures
            final(self).wf(),
            worker_command_outcome(*old(self), command, *final(self), actions@),
    {
        if self.session {
            self.phase = WorkerPhase::Working(command);
            one_worker_action(WorkerAction::Perform)
        } else {
            self.phase = WorkerPhase::Connecting { attempt: 1, delay: 1, command };
            one_worker_action(WorkerAction::LogIn)
        }
    }

    /// Take the outcome of a login.
    pub fn on_login(&mut self, outcome: Result<(), String>) -> (actions: Vec<WorkerAction>)
        requires
            old(self).wf(),
            old(self).phase is Connecting,
        ensures
            final(self).wf(),
            worker_login_outcome(*old(self), outcome, *final(self), actions@),
    {
        let mut phase: WorkerPhase = WorkerPhase::Idle;
        core::mem::swap(&mut phase, &mut self.phase);
        match phase {
            WorkerPhase::Connecting { attempt, delay, command } => match outcome {
                Ok(_) => {
                    self.session = true;
                    self.phase = WorkerPhase::Working(command);
                    one_worker_action(WorkerAction::Perform)
                },
                Err(e) => {
                    if attempt < MAX_RECONNECT_ATTEMPTS {
                        self.phase = WorkerPhase::Waiting { attempt, delay, command };
                        one_worker_action(WorkerAction::Wait { seconds: delay })
                    } else {
                        let mut text = "could not open a connection for this request: ".to_owned();
                        text.append(e.as_str());
                        one_worker_action(WorkerAction::Emit(ImapEvent::Error(text)))
                    }
                },
            },
            _ => Vec::new(),
        }
    }

    /// The wait before the next attempt is over.
    pub fn on_waited(&mut self) -> (actions: Vec<WorkerAction>)
        requires
            old(self).wf(),
            old(self).phase is Waiting,
        ensures
            final(self).wf(),
            old(self).phase matches WorkerPhase::Waiting { attempt, delay, command }
                && *final(self) == (BodyWorker {
                phase: WorkerPhase::Connecting {
                    attempt: (attempt + 1) as u32,
                    delay: backoff(attempt + 1) as u64,
                    command,
                },
                ..*old(self)
            }),
            actions@ == seq![WorkerAction::LogIn],
    {
        let mut phase: WorkerPhase = WorkerPhase::Idle;
        core::mem::swap(&mut phase, &mut self.phase);
        match phase {
            WorkerPhase::Waiting { attempt, delay, command } => {
                proof {
                    backoff_doubles_up_to_its_cap(attempt as int);
                    backoff_doubles_up_to_its_cap(attempt + 1);
                }
                self.phase = WorkerPhase::Connecting {
                    attempt: attempt + 1,
                    delay: next_delay(delay),
                    command,
                };
            },
            _ => {},
        }
        one_worker_action(WorkerAction::LogIn)
    }

    /// Take a fetched message body with its attachments, or the error. An error
    /// drops the session, so that the next command reconnects.
    pub fn on_body(&mut self, outcome: Result<(String, Vec<Attachment>), String>) -> (actions: Vec<
        WorkerAction,
    >)
        requires
            old(self).wf(),
            old(self).phase is Working,
            old(self).phase->Working_0 is FetchBody,
        ensures
            final(self).wf(),
            *final(self) == (BodyWorker {
                session: outcome is Ok,
                phase: WorkerPhase::Idle,
            }),
            match outcome {
                Ok((html, attachments)) => old(self).phase->Working_0 matches WorkerCommand::FetchBody {
                    mailbox,
                    uid,
                    req_id,
                } && actions@ == seq![
                    WorkerAction::Emit(ImapEvent::Body { uid, html, attachments, req_id }),
                ],
                Err(e) => actions@ == seq![WorkerAction::Emit(ImapEvent::Error(e))],
            },
    {
        let mut phase: WorkerPhase = WorkerPhase::Idle;
        core::mem::swap(&mut phase, &mut self.phase);
        match (phase, outcome) {
            (
                WorkerPhase::Working(WorkerCommand::FetchBody { mailbox, uid, req_id }),
                Ok((html, attachments)),
            ) => one_worker_action(
                WorkerAction::Emit(ImapEvent::Body { uid, html, attachments, req_id }),
            ),
            (_, Err(e)) => {
                self.session = false;
                one_worker_action(WorkerAction::Emit(ImapEvent::Error(e)))
            },
            _ => Vec::new(),
        }
    }

    /// A bulk download is over: it reported its own progress, so only a
    /// failure is left to report. A failure drops the session.
    pub fn on_download_end(&mut self, outcome: Result<(), String>) -> (actions: Vec<WorkerAction>)
        requires
            old(self).wf(),
            old(self).phase is Working,
            old(self).phase->Working_0 is BulkDownload,
        ensures
            final(self).wf(),
            *final(self) == (BodyWorker {
                session: outcome is Ok,
                phase: WorkerPhase::Idle,
            }),
            match outcome {
                Ok(_) => actions@ == Seq::<WorkerAction>::empty(),
                Err(e) => actions@ == seq![WorkerAction::Emit(ImapEvent::Error(e))],
            },
    {
        self.phase = WorkerPhase::Idle;
        match outcome {
            Ok(_) => Vec::new(),
            Err(e) => {
                self.session = false;
                one_worker_action(WorkerAction::Emit(ImapEvent::Error(e)))
            },
        }
    }
}

/// What a fetch of one message brought: no answer at all, a failed one, or an
/// answer with or without a body.
pub type FetchedBody = Option<Result<Option<Vec<u8>>, String>>;

/// The HTML that shows the fetched message and its attachments, or why there
/// are none.
pub open spec fn body_outcome(found: FetchedBody) -> Result<
    (Seq<char>, Seq<AttachmentView>),
    Seq<char>,
> {
    match found {
        None => Err("Message not found or no body"@),
        Some(Err(e)) => Err(e@),
        Some(Ok(None)) => Err("No body"@),
        Some(Ok(Some(raw))) => Ok((rendered(parsed_mail(raw@)), attached(parsed_mail(raw@)))),
    }
}

/// The HTML that shows the fetched message and its attachments, or why there
/// are none.
pub fn fetched_body(found: &FetchedBody) -> (r: Result<(String, Vec<Attachment>), String>)
    ensures
        match r {
            Ok((html, attachments)) => body_outcome(*found) == Ok::<
                (Seq<char>, Seq<AttachmentView>),
                Seq<char>,
            >((html@, attachment_views(attachments@))),
            Err(e) => body_outcome(*found) == Err::<(Seq<char>, Seq<AttachmentView>), Seq<char>>(
                e@,
            ),
        },
{
    match found {
        None => Err("Message not found or no body".to_owned()),
        Some(Err(e)) => Err(e.clone()),
        Some(Ok(None)) => Err("No body".to_owned()),
        Some(Ok(Some(raw))) => Ok(
            (render_message(raw.as_slice()), extract_attachments(raw.as_slice())),
        ),
    }
}

/// What a bulk download does next.
pub enum BulkStep {
    /// Fetch UIDs and envelopes of this range; the answers go to
    /// `on_envelopes`.
    FetchEnvelopes { query: String },
    /// Fetch the message of this UID; the answer goes to `on_body`.
    FetchBody { uid: u32, query: String },
    /// Everything was downloaded.
    Finished,
    /// The download failed.
    Failed(String),
}

/// The download of a whole mailbox: all envelopes first, then each message in
/// turn.
pub struct BulkDownload {
    pub mailbox: String,
    pub total: u32,
    /// The answers to the envelope fetch.
    pub messages: Vec<Result<FetchedMessage, String>>,
    /// How many messages were downloaded.
    pub next: usize,
    /// The list line of the message whose body is being fetched.
    pub header: Option<MailHeader>,
}

/// Whether `step` is what follows once `d.next` messages were downloaded, with
/// `header` the list line of the next one.
pub open spec fn is_next_step(d: BulkDownload, step: BulkStep) -> bool {
    if d.next >= d.messages@.len() {
        step is Finished && d.header is None
    } else {
        match message_problem(d.messages@[d.next as int]) {
            Some(problem) => {
                &&& step matches BulkStep::Failed(e) && e@ == problem
                &&& d.header is None
            },
            None => {
                &&& d.header is Some
                &&& is_line_of(d.header->0, d.messages@[d.next as int])
                &&& step matches BulkStep::FetchBody { uid, query } && uid == d.header->0.uid
                    && query@ == decimal(uid as nat)
            },
        }
    }
}

/// The rendered body of a downloaded message; empty where the server had none.
pub open spec fn downloaded_body(found: Option<Option<Vec<u8>>>) -> Seq<char> {
    match found {
        Some(Some(raw)) => rendered(parsed_mail(raw@)),
        _ => Seq::empty(),
    }
}

impl BulkDownload {
    /// Start with the number of messages that the server says the mailbox
    /// holds: nothing to do for an empty one, else progress zero is reported
    /// and all envelopes are fetched.
    pub fn begin(mailbox: String, total: u32) -> (r: (Self, Vec<ImapEvent>, BulkStep))
        ensures
            r.0.mailbox == mailbox,
            r.0.total == total,
            r.0.messages@.len() == 0,
            r.0.next == 0,
            r.0.header is None,
            total == 0 ==> r.1@ == Seq::<ImapEvent>::empty() && r.2 is Finished,
            total > 0 ==> {
                &&& r.1@ == seq![ImapEvent::DownloadProgress { current: 0, total }]
                &&& r.2 matches BulkStep::FetchEnvelopes { query } && query@ == decimal(1) + seq![
                    ':',
                ] + decimal(total as nat)
            },
    {
        let download = BulkDownload {
            mailbox,
            total,
            messages: Vec::new(),
            next: 0,
            header: None,
        };
        let mut events: Vec<ImapEvent> = Vec::new();
        if total == 0 {
            return (download, events, BulkStep::Finished);
        }
        events.push(ImapEvent::DownloadProgress { current: 0, total });
        assert(events@ == seq![ImapEvent::DownloadProgress { current: 0, total }]);
        (download, events, BulkStep::FetchEnvelopes { query: range_query(1, total) })
    }

    fn next_step(&mut self) -> (step: BulkStep)
        ensures
            *final(self) == (BulkDownload { header: final(self).header, ..*old(self) }),
            is_next_step(*final(self), step),
    {
        self.header = None;
        if self.next >= self.messages.len() {
            return BulkStep::Finished;
        }
        match read_message(&self.messages[self.next]) {
            Err(e) => BulkStep::Failed(e),
            Ok(h) => {
                let uid: u32 = h.uid;
                self.header = Some(h);
                BulkStep::FetchBody { uid, query: uid_query(uid) }
            },
        }
    }

    /// Take the answers to the envelope fetch and turn to the first message.
    pub fn on_envelopes(&mut self, messages: Vec<Result<FetchedMessage, String>>) -> (step:
        BulkStep)
        ensures
            *final(self) == (BulkDownload {
                messages,
                next: 0,
                header: final(self).header,
                ..*old(self)
            }),
            is_next_step(*final(self), step),
    {
        self.messages = messages;
        self.next = 0;
        self.next_step()
    }

    /// Take a message: report it and the progress made, and turn to the next
    /// one. A failed fetch ends the download.
    pub fn on_body(&mut self, found: Result<Option<Option<Vec<u8>>>, String>) -> (r: (
        Vec<ImapEvent>,
        BulkStep,
    ))
        requires
            old(self).header is Some,
            old(self).next < old(self).messages@.len(),
        ensures
            match found {
                Err(e) => {
                    &&& *final(self) == *old(self)
                    &&& r.0@ == Seq::<ImapEvent>::empty()
                    &&& r.1 == BulkStep::Failed(e)
                },
                Ok(body) => {
                    &&& *final(self) == (BulkDownload {
                        next: (old(self).next + 1) as usize,
                        header: final(self).header,
                        ..*old(self)
                    })
                    &&& r.0@.len() == 2
                    &&& r.0@[0] matches ImapEvent::MailData { mailbox, header, body: html }
                        && mailbox@ == old(self).mailbox@ && header == old(self).header->0 && html@
                        == downloaded_body(body)
                    &&& r.0@[1] == (ImapEvent::DownloadProgress {
                        current: (old(self).next + 1) as u32,
                        total: old(self).total,
                    })
                    &&& is_next_step(*final(self), r.1)
                },
            },
    {
        let mut events: Vec<ImapEvent> = Vec::new();
        match found {
            Err(e) => (events, BulkStep::Failed(e)),
            Ok(answer) => {
                let html = match answer {
                    Some(Some(raw)) => render_message(raw.as_slice()),
                    _ => String::new(),
                };
                let mut header: Option<MailHeader> = None;
                core::mem::swap(&mut header, &mut self.header);
                match header {
                    Some(h) => {
                        events.push(
                            ImapEvent::MailData {
                                mailbox: self.mailbox.clone(),
                                header: h,
                                body: html,
                            },
                        );
                    },
                    None => {},
                }
                let count: usize = self.messages.len();
                assert(self.next < count);
                self.next = self.next + 1;
                events.push(
                    ImapEvent::DownloadProgress { current: self.next as u32, total: self.total },
                );
                let step = self.next_step();
                (events, step)
            },
        }
    }
}

/// The wait doubles with every attempt until it has reached the longest.
pub proof fn waits_double(attempt: int)
    requires
        1 <= attempt,
    ensures
        2 * backoff(attempt) <= 16 ==> backoff(attempt + 1) == 2 * backoff(attempt),
        2 * backoff(attempt) > 16 ==> backoff(attempt + 1) == 16,
{
}

/// Asking for a page of headers is answered with that page: on a live session
/// the fetch starts at once, and what it brings is reported under the mailbox,
/// the page and the number of the request. An error is reported as it is.
pub proof fn pages_are_answered_under_their_request<P>(
    before: ImapActor<P>,
    mailbox: String,
    page: u32,
    req_id: u64,
    after: ImapActor<P>,
    actions: Seq<ImapAction>,
    headers: Vec<MailHeader>,
    total_pages: u32,
    mailbox_state: MailboxState,
    error: String,
)
    requires
        command_outcome(
            before,
            ImapCommand::FetchHeaders { mailbox, page, req_id },
            after,
            actions,
        ),
        before.session,
    ensures
        actions == seq![ImapAction::Perform],
        after.phase matches Phase::Working(job) && {
            &&& reply_fits(job, JobReply::Headers { headers, total_pages, mailbox_state })
            &&& success_event(job, JobReply::Headers { headers, total_pages, mailbox_state })
                == ImapEvent::Headers { mailbox, headers, page, total_pages, req_id, mailbox_state }
            &&& failure_event(job, error) == ImapEvent::Error(error)
        },
{
}

/// Each other fetch starts at once on a live session too, and what it brings is
/// reported under its own mailbox; a failed look for new mail is reported apart
/// from the errors that the user sees.
pub proof fn fetches_are_answered_under_their_mailbox<P>(
    before: ImapActor<P>,
    cmd: ImapCommand<P>,
    after: ImapActor<P>,
    actions: Seq<ImapAction>,
    names: Vec<String>,
    headers: Vec<MailHeader>,
    state: MailboxState,
    error: String,
)
    requires
        command_outcome(before, cmd, after, actions),
        before.session,
    ensures
        cmd is FetchMailboxes || cmd is PollMailbox || cmd is FetchNewHeaders
            || cmd is FetchHeadersFrom ==> after.phase is Working && actions == seq![
            ImapAction::Perform,
        ],
        cmd is FetchMailboxes ==> success_event(
            after.phase->Working_0,
            JobReply::Mailboxes(names),
        ) == ImapEvent::Mailboxes(names) && failure_event(after.phase->Working_0, error)
            == ImapEvent::Error(error),
        cmd matches ImapCommand::PollMailbox { mailbox } ==> success_event(
            after.phase->Working_0,
            JobReply::Polled(state),
        ) == (ImapEvent::MailboxPolled { mailbox, state }) && failure_event(
            after.phase->Working_0,
            error,
        ) == ImapEvent::PollFailed(error),
        cmd matches ImapCommand::FetchNewHeaders { mailbox, first_uid } ==> after.phase->Working_0
            == (Job::NewHeaders { mailbox, first_uid }) && success_event(
            after.phase->Working_0,
            JobReply::Envelopes(headers),
        ) == (ImapEvent::NewHeaders { mailbox, headers }) && failure_event(
            after.phase->Working_0,
            error,
        ) == ImapEvent::PollFailed(error),
        cmd matches ImapCommand::FetchHeadersFrom { mailbox, first_uid } ==> after.phase->Working_0
            == (Job::HeadersFrom { mailbox, first_uid }) && success_event(
            after.phase->Working_0,
            JobReply::Envelopes(headers),
        ) == (ImapEvent::HeadersFrom { mailbox, headers }) && failure_event(
            after.phase->Working_0,
            error,
        ) == ImapEvent::Error(error),
{
}

/// Whoever opens a message or downloads a mailbox gets that very request handed
/// to the second connection, once one was started, and is told so otherwise.
pub proof fn body_work_is_handed_over_unchanged<P>(
    before: ImapActor<P>,
    mailbox: String,
    uid: u32,
    req_id: u64,
    after: ImapActor<P>,
    actions: Seq<ImapAction>,
)
    ensures
        before.worker && command_outcome(
            before,
            ImapCommand::FetchBody { mailbox, uid, req_id },
            after,
            actions,
        ) ==> actions == seq![
            ImapAction::Delegate(WorkerCommand::FetchBody { mailbox, uid, req_id }),
        ],
        before.worker && command_outcome(
            before,
            ImapCommand::BulkDownload { mailbox },
            after,
            actions,
        ) ==> actions == seq![ImapAction::Delegate(WorkerCommand::BulkDownload { mailbox })],
        !before.worker && (command_outcome(
            before,
            ImapCommand::FetchBody { mailbox, uid, req_id },
            after,
            actions,
        ) || command_outcome(before, ImapCommand::BulkDownload { mailbox }, after, actions))
            ==> actions.len() == 1 && (actions[0] matches ImapAction::Emit(ImapEvent::Error(e))
            && e@ == "not connected"@),
{
}

/// Without a session a command of the user logs in again where a login worked
/// before, and then goes on with that command; where none ever did, it is told
/// so, and nothing changes.
pub proof fn lost_sessions_are_opened_again<P>(
    before: ImapActor<P>,
    cmd: ImapCommand<P>,
    after: ImapActor<P>,
    actions: Seq<ImapAction>,
    again: ImapActor<P>,
    actions_again: Seq<ImapAction>,
)
    requires
        command_outcome(before, cmd, after, actions),
        cmd is FetchMailboxes || cmd is FetchHeaders || cmd is FetchHeadersFrom,
        !before.session,
    ensures
        before.credentials is Some ==> {
            &&& actions == seq![
                ImapAction::Emit(ImapEvent::Disconnected),
                ImapAction::Reconnect,
            ]
            &&& after.phase matches Phase::Reconnecting { attempt, delay, job } && attempt == 1
                && delay == 1
            &&& login_outcome(after, Ok(()), again, actions_again) ==> {
                &&& again.session
                &&& again.credentials == before.credentials
                &&& command_outcome(
                    ImapActor { session: true, ..before },
                    cmd,
                    again,
                    seq![ImapAction::Perform],
                )
                &&& actions_again == seq![
                    ImapAction::Emit(ImapEvent::Connected),
                    ImapAction::Perform,
                ]
            }
        },
        before.credentials is None ==> after == before && actions.len() == 1 && (
        actions[0] matches ImapAction::Emit(ImapEvent::Error(e)) && e@ == "not connected yet"@),
{
}

/// A login that works leaves a session, a second connection and the credentials
/// it was made with; one that fails is reported and changes none of them.
pub proof fn logins_keep_what_worked<P>(
    before: ImapActor<P>,
    host: String,
    port: u16,
    username: String,
    password: P,
    asked: ImapActor<P>,
    actions: Seq<ImapAction>,
    error: String,
    after: ImapActor<P>,
    reported: Seq<ImapAction>,
)
    requires
        command_outcome(
            before,
            ImapCommand::Connect { host, port, username, password },
            asked,
            actions,
        ),
    ensures
        actions == seq![ImapAction::LogIn],
        login_outcome(asked, Ok(()), after, reported) ==> {
            &&& after.session && after.worker && after.phase is Idle
            &&& after.credentials == Some(Credentials { host, port, username, password })
            &&& reported == seq![ImapAction::StartWorker, ImapAction::Emit(ImapEvent::Connected)]
        },
        login_outcome(asked, Err(error), after, reported) ==> {
            &&& after.session == before.session && after.worker == before.worker
            &&& after.credentials == before.credentials
            &&& after.phase is Idle
            &&& reported == seq![ImapAction::Emit(ImapEvent::Error(error))]
        },
{
}

/// The second connection carries out the command it was given, at once or after
/// logging in; after the fifth login in a row that fails it says why.
pub proof fn the_worker_keeps_its_command(
    before: BodyWorker,
    command: WorkerCommand,
    after: BodyWorker,
    actions: Seq<WorkerAction>,
    again: BodyWorker,
    actions_again: Seq<WorkerAction>,
    attempt: u32,
    delay: u64,
    error: String,
)
    requires
        worker_command_outcome(before, command, after, actions),
    ensures
        before.session ==> after.phase == WorkerPhase::Working(command) && after.session && actions
            == seq![WorkerAction::Perform],
        !before.session ==> after.phase == (WorkerPhase::Connecting {
            attempt: 1,
            delay: 1,
            command,
        }) && !after.session && actions == seq![WorkerAction::LogIn],
        !before.session && worker_login_outcome(after, Ok(()), again, actions_again)
            ==> again.phase == WorkerPhase::Working(command) && again.session && actions_again
            == seq![WorkerAction::Perform],
        worker_login_outcome(
            BodyWorker {
                session: false,
                phase: WorkerPhase::Connecting { attempt, delay, command },
            },
            Err(error),
            again,
            actions_again,
        ) ==> {
            &&& !again.session
            &&& attempt < 5 ==> again.phase == (WorkerPhase::Waiting { attempt, delay, command })
                && actions_again == seq![WorkerAction::Wait { seconds: delay }]
            &&& attempt >= 5 ==> again.phase is Idle && actions_again.len() == 1 && (
            actions_again[0] matches WorkerAction::Emit(ImapEvent::Error(text)) && text@
                == "could not open a connection for this request: "@ + error@)
        },
{
}

/// A fetched message is shown whole, with its attachments; where the server had
/// no message, the reason is told, and an error of the server word for word.
pub proof fn fetched_messages_are_shown(raw: Vec<u8>, error: String)
    ensures
        body_outcome(Some(Ok(Some(raw)))) == Ok::<(Seq<char>, Seq<AttachmentView>), Seq<char>>(
            (rendered(parsed_mail(raw@)), attached(parsed_mail(raw@))),
        ),
        body_outcome(Some(Err(error))) == Err::<(Seq<char>, Seq<AttachmentView>), Seq<char>>(
            error@,
        ),
        body_outcome(Some(Ok(None))) == Err::<(Seq<char>, Seq<AttachmentView>), Seq<char>>(
            "No body"@,
        ),
        body_outcome(None) == Err::<(Seq<char>, Seq<AttachmentView>), Seq<char>>(
            "Message not found or no body"@,
        ),
        downloaded_body(Some(Some(raw))) == rendered(parsed_mail(raw@)),
        downloaded_body(Some(None)) == Seq::<char>::empty(),
        downloaded_body(None) == Seq::<char>::empty(),
{
}

/// A download asks for the messages one by one, in order, each by the UID of its
/// own list line, and ends behind the last one.
pub proof fn downloads_go_message_by_message(d: BulkDownload, step: BulkStep)
    requires
        is_next_step(d, step),
    ensures
        step is Finished <==> d.next >= d.messages@.len(),
        !(step is FetchEnvelopes),
        step matches BulkStep::FetchBody { uid, query } ==> {
            &&& d.header is Some && d.header->0.uid == uid
            &&& is_line_of(d.header->0, d.messages@[d.next as int])
            &&& query@ == decimal(uid as nat)
        },
        d.next < d.messages@.len() && message_problem(d.messages@[d.next as int]) is None
            ==> step is FetchBody,
        d.next < d.messages@.len() && message_problem(d.messages@[d.next as int]) is Some ==> (
        step matches BulkStep::Failed(e) && e@ == message_problem(
            d.messages@[d.next as int],
        )->0),
{
}

} // verus!
