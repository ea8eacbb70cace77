//! New-mail detection: when a mailbox is polled, and when what a poll brings
//! counts as new mail.
use vstd::prelude::*;

use crate::imap::{ImapCommand, ImapEvent, MailboxState};
use crate::text::same_text;

verus! {

/// The mailbox that is watched: the one every account has, and the one that
/// "new mail" conventionally means.
pub const NEW_MAIL_POLL_MAILBOX: &'static str = "INBOX";

/// Seconds between two polls of [`NEW_MAIL_POLL_MAILBOX`].
pub const NEW_MAIL_POLL_INTERVAL: u64 = 60;

/// How far a mailbox had been counted when it was last looked at.
#[derive(Debug, Clone, Copy, PartialEq, Eq, Structural)]
pub struct MailWatermark {
    pub uid_validity: u32,
    pub uid_next: u32,
}

/// What a fresh look at a mailbox means.
#[derive(Debug, Clone, Copy, PartialEq, Eq, Structural)]
pub enum WatermarkUpdate {
    /// There was nothing to compare with, or the numbering changed: a new
    /// baseline, never new mail.
    Baseline,
    /// Nothing arrived.
    Unchanged,
    /// Messages arrived; the first of them has this UID.
    NewMail { first_new_uid: u32 },
}

/// What a fresh look at a mailbox means: only an advance of UIDNEXT under an
/// unchanged UIDVALIDITY is new mail.
pub open spec fn watermark_update(
    previous: Option<MailWatermark>,
    observed: MailWatermark,
) -> WatermarkUpdate {
    match previous {
        None => WatermarkUpdate::Baseline,
        Some(p) => if p.uid_validity != observed.uid_validity {
            WatermarkUpdate::Baseline
        } else if observed.uid_next > p.uid_next {
            WatermarkUpdate::NewMail { first_new_uid: p.uid_next }
        } else {
            WatermarkUpdate::Unchanged
        },
    }
}

/// Compare a fresh look at a mailbox with the previous one; what was observed
/// is what the next look is compared with.
pub fn update_watermark(previous: Option<MailWatermark>, observed: MailWatermark) -> (r: (
    MailWatermark,
    WatermarkUpdate,
))
    ensures
        r.0 == observed,
        r.1 == watermark_update(previous, observed),
{
    match previous {
        None => (observed, WatermarkUpdate::Baseline),
        Some(p) => {
            if p.uid_validity != observed.uid_validity {
                (observed, WatermarkUpdate::Baseline)
            } else if observed.uid_next > p.uid_next {
                (observed, WatermarkUpdate::NewMail { first_new_uid: p.uid_next })
            } else {
                (observed, WatermarkUpdate::Unchanged)
            }
        },
    }
}

/// The background watch for new mail. It sees every event of the IMAP
/// connection on its way to the user interface, and asks for polls: on a timer
/// while connected, and at once when the server pushes a change.
#[derive(Debug, Clone, Copy, PartialEq, Eq, Structural)]
pub struct NewMailWatch {
    pub connected: bool,
    pub watermark: Option<MailWatermark>,
    /// Whether pushes can still come; once their source is gone the timer
    /// alone is left.
    pub idle_wake_open: bool,
}

/// What reaches the watch.
pub enum WatchInput {
    /// An event of the IMAP connection.
    Event(ImapEvent),
    /// The poll timer fired.
    Tick,
    /// The server pushed a change, or the source of pushes is gone.
    Wake { pushed: bool },
}

/// What the watch does on one input.
pub struct WatchStep<P> {
    /// An event to pass on to the user interface.
    pub forward: Option<ImapEvent>,
    /// A command for the IMAP connection.
    pub command: Option<ImapCommand<P>>,
    /// Whether the event's headers are to be announced as new mail.
    pub announce: bool,
}

/// Whether a command asks for the envelopes from `first_uid` on of the watched
/// mailbox.
pub open spec fn fetches_new<P>(command: Option<ImapCommand<P>>, first_uid: u32) -> bool {
    command matches Some(ImapCommand::FetchNewHeaders { mailbox, first_uid: first }) && mailbox@
        == NEW_MAIL_POLL_MAILBOX@ && first == first_uid
}

/// Whether a command polls the watched mailbox.
pub open spec fn polls<P>(command: Option<ImapCommand<P>>) -> bool {
    command matches Some(ImapCommand::PollMailbox { mailbox }) && mailbox@
        == NEW_MAIL_POLL_MAILBOX@
}

/// The watermark of a reported state.
pub open spec fn watermark_of(state: MailboxState) -> MailWatermark {
    MailWatermark { uid_validity: state.uid_validity, uid_next: state.uid_next }
}

/// What the watch does on an event: it passes the event on as it is, whatever
/// else it does.
pub open spec fn watch_outcome<P>(
    before: NewMailWatch,
    event: ImapEvent,
    after: NewMailWatch,
    step: WatchStep<P>,
) -> bool {
    &&& step.forward == Some(event)
    &&& match event {
        ImapEvent::Connected => {
            &&& after == NewMailWatch { connected: true, watermark: None, ..before }
            &&& step.command is None
            &&& !step.announce
        },
        ImapEvent::Disconnected => {
            &&& after == NewMailWatch { connected: false, ..before }
            &&& step.command is None
            &&& !step.announce
        },
        ImapEvent::MailboxPolled { mailbox, state } => if mailbox@ == NEW_MAIL_POLL_MAILBOX@ {
            &&& after == NewMailWatch { watermark: Some(watermark_of(state)), ..before }
            &&& match watermark_update(before.watermark, watermark_of(state)) {
                WatermarkUpdate::NewMail { first_new_uid } => fetches_new(
                    step.command,
                    first_new_uid,
                ),
                _ => step.command is None,
            }
            &&& !step.announce
        } else {
            after == before && step.command is None && !step.announce
        },
        ImapEvent::NewHeaders { mailbox, headers } => {
            &&& after == before
            &&& step.command is None
            &&& step.announce == (mailbox@ == NEW_MAIL_POLL_MAILBOX@)
        },
        _ => after == before && step.command is None && !step.announce,
    }
}

impl NewMailWatch {
    /// Not connected, nothing seen yet.
    pub fn new() -> (r: Self)
        ensures
            r == (NewMailWatch { connected: false, watermark: None, idle_wake_open: true }),
    {
        NewMailWatch { connected: false, watermark: None, idle_wake_open: true }
    }

    /// Look at an event on its way to the user interface, and pass it on.
    pub fn on_event<P>(&mut self, event: ImapEvent) -> (step: WatchStep<P>)
        ensures
            watch_outcome(*old(self), event, *final(self), step),
    {
        let mut command: Option<ImapCommand<P>> = None;
        let mut announce: bool = false;
        match &event {
            ImapEvent::Connected => {
                self.connected = true;
                self.watermark = None;
            },
            ImapEvent::Disconnected => {
                self.connected = false;
            },
            ImapEvent::MailboxPolled { mailbox, state } => {
                if same_text(mailbox.as_str(), NEW_MAIL_POLL_MAILBOX) {
                    let (next, update) = update_watermark(
                        self.watermark,
                        MailWatermark { uid_validity: state.uid_validity, uid_next: state.uid_next },
                    );
                    self.watermark = Some(next);
                    match update {
                        WatermarkUpdate::NewMail { first_new_uid } => {
                            command = Some(
                                ImapCommand::FetchNewHeaders {
                                    mailbox: NEW_MAIL_POLL_MAILBOX.to_owned(),
                                    first_uid: first_new_uid,
                                },
                            );
                        },
                        _ => {},
                    }
                }
            },
            ImapEvent::NewHeaders { mailbox, .. } => {
                announce = same_text(mailbox.as_str(), NEW_MAIL_POLL_MAILBOX);
            },
            _ => {},
        }
        WatchStep { forward: Some(event), command, announce }
    }

    /// The poll timer fired.
    pub fn on_tick<P>(&self) -> (command: Option<ImapCommand<P>>)
        ensures
            self.connected ==> polls(command),
            !self.connected ==> command is None,
    {
        if self.connected {
            Some(ImapCommand::PollMailbox { mailbox: NEW_MAIL_POLL_MAILBOX.to_owned() })
        } else {
            None
        }
    }

    /// The server pushed a change (`true`), or the source of pushes is gone.
    pub fn on_idle_wake<P>(&mut self, pushed: bool) -> (command: Option<ImapCommand<P>>)
        ensures
            *final(self) == (NewMailWatch {
                idle_wake_open: old(self).idle_wake_open && pushed,
                ..*old(self)
            }),
            pushed && old(self).connected ==> polls(command),
            !(pushed && old(self).connected) ==> command is None,
    {
        if !pushed {
            self.idle_wake_open = false;
            return None;
        }
        self.on_tick()
    }

    /// Take whatever reaches the watch.
    pub fn on_input<P>(&mut self, input: WatchInput) -> (step: WatchStep<P>)
        ensures
            input_outcome(*old(self), input, *final(self), step),
    {
        match input {
            WatchInput::Event(event) => self.on_event(event),
            WatchInput::Tick => WatchStep {
                forward: None,
                command: self.on_tick(),
                announce: false,
            },
            WatchInput::Wake { pushed } => {
                let command = self.on_idle_wake(pushed);
                WatchStep { forward: None, command, announce: false }
            },
        }
    }
}

/// What the watch does on an input. Polls are asked for while connected only.
pub open spec fn input_outcome<P>(
    before: NewMailWatch,
    input: WatchInput,
    after: NewMailWatch,
    step: WatchStep<P>,
) -> bool {
    match input {
        WatchInput::Event(event) => watch_outcome(before, event, after, step),
        WatchInput::Tick => {
            &&& after == before
            &&& step.forward is None
            &&& !step.announce
            &&& if before.connected {
                polls(step.command)
            } else {
                step.command is None
            }
        },
        WatchInput::Wake { pushed } => {
            &&& after == NewMailWatch {
                idle_wake_open: before.idle_wake_open && pushed,
                ..before
            }
            &&& step.forward is None
            &&& !step.announce
            &&& if pushed && before.connected {
                polls(step.command)
            } else {
                step.command is None
            }
        },
    }
}

/// Whether input number `i` leads from state `i` to the next.
pub open spec fn input_holds<P>(
    states: Seq<NewMailWatch>,
    inputs: Seq<WatchInput>,
    steps: Seq<WatchStep<P>>,
    i: int,
) -> bool {
    input_outcome(states[i], inputs[i], states[i + 1], steps[i])
}

/// Whether a fresh watch goes through these states and steps on these inputs.
pub open spec fn watch_runs<P>(
    states: Seq<NewMailWatch>,
    inputs: Seq<WatchInput>,
    steps: Seq<WatchStep<P>>,
) -> bool {
    &&& states.len() == inputs.len() + 1
    &&& steps.len() == inputs.len()
    &&& states[0] == NewMailWatch { connected: false, watermark: None, idle_wake_open: true }
    &&& forall|i: int|
        0 <= i < inputs.len() ==> #[trigger] input_holds(states, inputs, steps, i)
}

/// The events among the inputs, in order.
pub open spec fn events_in(inputs: Seq<WatchInput>) -> Seq<ImapEvent>
    decreases inputs.len(),
{
    if inputs.len() == 0 {
        Seq::empty()
    } else {
        match inputs.last() {
            WatchInput::Event(event) => events_in(inputs.drop_last()).push(event),
            _ => events_in(inputs.drop_last()),
        }
    }
}

/// The events that were passed on, in order.
pub open spec fn forwarded<P>(steps: Seq<WatchStep<P>>) -> Seq<ImapEvent>
    decreases steps.len(),
{
    if steps.len() == 0 {
        Seq::empty()
    } else {
        match steps.last().forward {
            Some(event) => forwarded(steps.drop_last()).push(event),
            None => forwarded(steps.drop_last()),
        }
    }
}

/// Whether the last of the events that speak of the connection says that it is
/// there.
pub open spec fn is_connected_after(inputs: Seq<WatchInput>) -> bool
    decreases inputs.len(),
{
    if inputs.len() == 0 {
        false
    } else {
        match inputs.last() {
            WatchInput::Event(ImapEvent::Connected) => true,
            WatchInput::Event(ImapEvent::Disconnected) => false,
            _ => is_connected_after(inputs.drop_last()),
        }
    }
}

/// Whether an input is a look at the watched mailbox.
pub open spec fn is_look(input: WatchInput) -> bool {
    input matches WatchInput::Event(ImapEvent::MailboxPolled { mailbox, .. }) && mailbox@
        == NEW_MAIL_POLL_MAILBOX@
}

/// How often the watched mailbox was looked at since the last connection.
pub open spec fn looks_since_connecting(inputs: Seq<WatchInput>) -> nat
    decreases inputs.len(),
{
    if inputs.len() == 0 || inputs.last() == WatchInput::Event(ImapEvent::Connected) {
        0
    } else {
        looks_since_connecting(inputs.drop_last()) + if is_look(inputs.last()) {
            1nat
        } else {
            0nat
        }
    }
}

proof fn lemma_run_prefix<P>(
    states: Seq<NewMailWatch>,
    inputs: Seq<WatchInput>,
    steps: Seq<WatchStep<P>>,
    n: int,
)
    requires
        watch_runs(states, inputs, steps),
        0 <= n <= inputs.len(),
    ensures
        watch_runs(states.take(n + 1), inputs.take(n), steps.take(n)),
{
    let (a, b, c) = (states.take(n + 1), inputs.take(n), steps.take(n));
    assert forall|i: int| 0 <= i < n implies #[trigger] input_holds(a, b, c, i) by {
        assert(input_holds(states, inputs, steps, i));
    }
}

proof fn lemma_run<P>(
    states: Seq<NewMailWatch>,
    inputs: Seq<WatchInput>,
    steps: Seq<WatchStep<P>>,
)
    requires
        watch_runs(states, inputs, steps),
    ensures
        forwarded(steps) == events_in(inputs),
        states.last().connected == is_connected_after(inputs),
        looks_since_connecting(inputs) == 0 ==> states.last().watermark is None,
    decreases inputs.len(),
{
    if inputs.len() > 0 {
        let n = inputs.len() - 1;
        lemma_run_prefix(states, inputs, steps, n);
        lemma_run(states.take(n + 1), inputs.take(n), steps.take(n));
        assert(states.take(n + 1).last() == states[n]);
        assert(inputs.take(n) == inputs.drop_last());
        assert(steps.take(n) == steps.drop_last());
        assert(input_holds(states, inputs, steps, n));
    }
}

/// Every event of the IMAP connection is passed on to the user interface,
/// unchanged and in order, and nothing else is, whatever ticks and pushes come
/// between.
pub proof fn every_event_is_passed_on<P>(
    states: Seq<NewMailWatch>,
    inputs: Seq<WatchInput>,
    steps: Seq<WatchStep<P>>,
)
    requires
        watch_runs(states, inputs, steps),
    ensures
        forwarded(steps) == events_in(inputs),
{
    lemma_run(states, inputs, steps);
}

/// A poll is asked for exactly when the timer fires or the server pushes while
/// the connection is there, and it is the watched mailbox that is polled.
pub proof fn polls_come_while_connected<P>(
    states: Seq<NewMailWatch>,
    inputs: Seq<WatchInput>,
    steps: Seq<WatchStep<P>>,
    i: int,
)
    requires
        watch_runs(states, inputs, steps),
        0 <= i < inputs.len(),
    ensures
        steps[i].command matches Some(ImapCommand::PollMailbox { .. }) ==> polls(steps[i].command),
        polls(steps[i].command) <==> is_connected_after(inputs.take(i)) && (inputs[i]
            == WatchInput::Tick || inputs[i] == WatchInput::Wake { pushed: true }),
{
    lemma_run_prefix(states, inputs, steps, i);
    lemma_run(states.take(i + 1), inputs.take(i), steps.take(i));
    assert(states.take(i + 1).last() == states[i]);
    assert(input_holds(states, inputs, steps, i));
}

/// The first look at the mailbox after a connection or reconnection is never
/// taken for new mail, whatever was seen before it and whatever it finds.
pub proof fn first_look_after_connecting_is_not_new_mail<P>(
    states: Seq<NewMailWatch>,
    inputs: Seq<WatchInput>,
    steps: Seq<WatchStep<P>>,
    i: int,
)
    requires
        watch_runs(states, inputs, steps),
        0 <= i < inputs.len(),
        is_look(inputs[i]),
        looks_since_connecting(inputs.take(i)) == 0,
    ensures
        steps[i].command is None,
        !steps[i].announce,
{
    lemma_run_prefix(states, inputs, steps, i);
    lemma_run(states.take(i + 1), inputs.take(i), steps.take(i));
    assert(states.take(i + 1).last() == states[i]);
    assert(input_holds(states, inputs, steps, i));
}

/// A changed UIDVALIDITY is a new baseline, not new mail: UIDs of two
/// numberings are never compared.
pub proof fn renumbering_is_not_new_mail(previous: MailWatermark, observed: MailWatermark)
    requires
        previous.uid_validity != observed.uid_validity,
    ensures
        watermark_update(Some(previous), observed) == WatermarkUpdate::Baseline,
{
}

/// Mail is reported once: a poll that finds what the one before it found asks
/// for nothing.
pub proof fn mail_is_reported_once<P>(
    before: NewMailWatch,
    mailbox: String,
    state: MailboxState,
    middle: NewMailWatch,
    first: WatchStep<P>,
    after: NewMailWatch,
    second: WatchStep<P>,
)
    requires
        watch_outcome(before, ImapEvent::MailboxPolled { mailbox, state }, middle, first),
        watch_outcome(middle, ImapEvent::MailboxPolled { mailbox, state }, after, second),
    ensures
        second.command is None,
{
}

/// New mail is what lies between the UID that was next at the last look and the
/// one that is next now, while the numbering stands: every such UID is covered by
/// what is fetched, and without one nothing is reported.
pub proof fn every_arrival_is_noticed(
    validity: u32,
    seen_next: u32,
    next: u32,
    uid: u32,
)
    ensures
        seen_next <= uid < next ==> watermark_update(
            Some(MailWatermark { uid_validity: validity, uid_next: seen_next }),
            MailWatermark { uid_validity: validity, uid_next: next },
        ) == (WatermarkUpdate::NewMail { first_new_uid: seen_next }),
        next <= seen_next ==> watermark_update(
            Some(MailWatermark { uid_validity: validity, uid_next: seen_next }),
            MailWatermark { uid_validity: validity, uid_next: next },
        ) is Unchanged,
        watermark_update(
            None,
            MailWatermark { uid_validity: validity, uid_next: next },
        ) is Baseline,
{
}

/// On a look that finds new mail the envelopes of exactly that mail are asked
/// for, and what was seen is remembered for the next look.
pub proof fn new_mail_is_fetched_from_the_first_on<P>(
    before: NewMailWatch,
    mailbox: String,
    state: MailboxState,
    after: NewMailWatch,
    step: WatchStep<P>,
)
    requires
        watch_outcome(before, ImapEvent::MailboxPolled { mailbox, state }, after, step),
        mailbox@ == "INBOX"@,
    ensures
        after.watermark matches Some(w) && w.uid_validity == state.uid_validity && w.uid_next
            == state.uid_next,
        before.watermark matches Some(w) && w.uid_validity == state.uid_validity && w.uid_next
            < state.uid_next ==> (step.command matches Some(
            ImapCommand::FetchNewHeaders { mailbox: m, first_uid },
        ) && m@ == "INBOX"@ && first_uid == before.watermark->0.uid_next),
{
}

/// Every poll, on a timer or on a push, is one of the inbox, and comes while
/// connected only; a push whose source is gone is none.
pub proof fn polls_are_of_the_inbox<P>(
    before: NewMailWatch,
    input: WatchInput,
    after: NewMailWatch,
    step: WatchStep<P>,
)
    requires
        input_outcome(before, input, after, step),
    ensures
        input is Tick && before.connected ==> (step.command matches Some(
            ImapCommand::PollMailbox { mailbox },
        ) && mailbox@ == "INBOX"@),
        input == (WatchInput::Wake { pushed: true }) && before.connected ==> (
        step.command matches Some(ImapCommand::PollMailbox { mailbox }) && mailbox@ == "INBOX"@),
        (input is Tick || input is Wake) && !before.connected ==> step.command is None,
        input == (WatchInput::Wake { pushed: false }) ==> step.command is None
            && !after.idle_wake_open,
        input == (WatchInput::Wake { pushed: true }) ==> after.idle_wake_open
            == before.idle_wake_open,
        input is Tick ==> after == before,
        input is Tick || input is Wake ==> step.forward is None && !step.announce && after.connected
            == before.connected && after.watermark == before.watermark,
{
}

/// Only headers that were fetched as new mail of the inbox are announced, and
/// they always are; a connection starts a new comparison.
pub proof fn only_new_mail_is_announced<P>(
    before: NewMailWatch,
    event: ImapEvent,
    after: NewMailWatch,
    step: WatchStep<P>,
)
    requires
        watch_outcome(before, event, after, step),
    ensures
        step.announce <==> (event matches ImapEvent::NewHeaders { mailbox, headers } && mailbox@
            == "INBOX"@),
        step.forward == Some(event),
        event is Connected ==> after.connected && after.watermark is None,
        event is Disconnected ==> !after.connected && after.watermark == before.watermark,
        !(event is Connected || event is Disconnected) ==> after.connected == before.connected,
        event matches ImapEvent::MailboxPolled { mailbox, state } ==> (mailbox@ != "INBOX"@ ==> after
            == before && step.command is None),
        !(event is MailboxPolled) ==> step.command is None,
{
}

} // verus!
