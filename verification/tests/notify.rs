use esmail::imap::{ImapCommand, ImapEvent, MailboxState};
use esmail::notify::{
    update_watermark, MailWatermark, NewMailWatch, WatchInput, WatchStep, WatermarkUpdate,
};

fn mark(uid_validity: u32, uid_next: u32) -> MailWatermark {
    MailWatermark { uid_validity, uid_next }
}

fn polled(mailbox: &str, uid_validity: u32, uid_next: u32) -> ImapEvent {
    ImapEvent::MailboxPolled {
        mailbox: mailbox.to_string(),
        state: MailboxState { uid_validity, uid_next },
    }
}

fn on(watch: &mut NewMailWatch, event: ImapEvent) -> WatchStep<String> {
    watch.on_event(event)
}

#[test]
fn a_first_observation_is_a_baseline() {
    assert_eq!(update_watermark(None, mark(1, 9)), (mark(1, 9), WatermarkUpdate::Baseline));
    assert_eq!(update_watermark(Some(mark(1, 3)), mark(2, 9)), (mark(2, 9), WatermarkUpdate::Baseline));
}

#[test]
fn a_higher_next_uid_is_new_mail() {
    assert_eq!(
        update_watermark(Some(mark(1, 3)), mark(1, 5)),
        (mark(1, 5), WatermarkUpdate::NewMail { first_new_uid: 3 })
    );
    assert_eq!(update_watermark(Some(mark(1, 5)), mark(1, 5)).1, WatermarkUpdate::Unchanged);
    assert_eq!(update_watermark(Some(mark(1, 5)), mark(1, 4)).1, WatermarkUpdate::Unchanged);
}

#[test]
fn new_mail_is_fetched_once_and_then_announced() {
    let mut w = NewMailWatch::new();
    assert!(on(&mut w, ImapEvent::Connected).command.is_none());
    assert!(on(&mut w, polled("INBOX", 1, 5)).command.is_none());
    let step = on(&mut w, polled("INBOX", 1, 7));
    assert!(matches!(
        step.command,
        Some(ImapCommand::FetchNewHeaders { mailbox, first_uid: 5 }) if mailbox == "INBOX"
    ));
    assert!(on(&mut w, polled("INBOX", 1, 7)).command.is_none());
    let found = ImapEvent::NewHeaders { mailbox: "INBOX".to_string(), headers: vec![] };
    assert!(on(&mut w, found).announce);
    let elsewhere = ImapEvent::NewHeaders { mailbox: "Sent".to_string(), headers: vec![] };
    assert!(!on(&mut w, elsewhere).announce);
    assert!(on(&mut w, polled("Sent", 1, 99)).command.is_none());
}

#[test]
fn reconnecting_looks_afresh() {
    let mut w = NewMailWatch::new();
    on(&mut w, ImapEvent::Connected);
    on(&mut w, polled("INBOX", 1, 5));
    on(&mut w, ImapEvent::Disconnected);
    assert!(w.on_tick::<String>().is_none());
    on(&mut w, ImapEvent::Connected);
    assert!(on(&mut w, polled("INBOX", 1, 50)).command.is_none());
}

#[test]
fn polls_run_while_connected() {
    let mut w = NewMailWatch::new();
    assert!(w.on_tick::<String>().is_none());
    assert!(w.on_idle_wake::<String>(true).is_none());
    on(&mut w, ImapEvent::Connected);
    assert!(matches!(w.on_tick::<String>(), Some(ImapCommand::PollMailbox { mailbox }) if mailbox == "INBOX"));
    assert!(w.on_idle_wake::<String>(true).is_some());
    assert!(w.idle_wake_open);
    assert!(w.on_idle_wake::<String>(false).is_none());
    assert!(!w.idle_wake_open);
}

#[test]
fn every_event_is_forwarded_in_order() {
    let mut w = NewMailWatch::new();
    let inputs = vec![
        WatchInput::Tick,
        WatchInput::Event(ImapEvent::Connected),
        WatchInput::Event(polled("INBOX", 1, 5)),
        WatchInput::Wake { pushed: true },
        WatchInput::Event(ImapEvent::Error("e".to_string())),
        WatchInput::Event(polled("INBOX", 1, 6)),
        WatchInput::Tick,
        WatchInput::Event(ImapEvent::Disconnected),
        WatchInput::Tick,
        WatchInput::Wake { pushed: false },
    ];
    let mut forwarded = Vec::new();
    let mut commands = Vec::new();
    for input in inputs {
        let step: WatchStep<String> = w.on_input(input);
        if let Some(event) = step.forward {
            forwarded.push(match event {
                ImapEvent::Connected => "connected".to_string(),
                ImapEvent::Disconnected => "disconnected".to_string(),
                ImapEvent::Error(e) => format!("error {e}"),
                ImapEvent::MailboxPolled { mailbox, state } => format!("{mailbox} {}", state.uid_next),
                _ => unreachable!(),
            });
        }
        commands.push(match step.command {
            None => "",
            Some(ImapCommand::PollMailbox { .. }) => "poll",
            Some(ImapCommand::FetchNewHeaders { .. }) => "fetch",
            Some(_) => unreachable!(),
        });
    }
    assert_eq!(forwarded, vec!["connected", "INBOX 5", "error e", "INBOX 6", "disconnected"]);
    assert_eq!(commands, vec!["", "", "", "poll", "", "fetch", "poll", "", "", ""]);
    assert!(!w.idle_wake_open);
}
