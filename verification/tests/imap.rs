use esmail::imap::{
    collect_headers, collect_page, decode_rfc2047, format_address, header_page, mailbox_state,
    page_reply, parse_envelope_header, range_query, shown_header_value, uid_query, uids_from_query,
    EnvelopeAddress, FetchedEnvelope, FetchedMessage, HeaderPage, MailboxState,
};

fn address(name: Option<&str>, mailbox: Option<&str>, host: Option<&str>) -> EnvelopeAddress {
    EnvelopeAddress {
        name: name.map(|s| s.as_bytes().to_vec()),
        mailbox: mailbox.map(|s| s.as_bytes().to_vec()),
        host: host.map(|s| s.as_bytes().to_vec()),
    }
}

fn envelope(subject: &str) -> FetchedEnvelope {
    FetchedEnvelope {
        subject: Some(subject.as_bytes().to_vec()),
        from: Some(vec![
            address(Some("Alice"), Some("alice"), Some("example.com")),
            address(None, Some("other"), Some("example.com")),
        ]),
        to: Some(vec![address(None, Some("bob"), Some("example.com"))]),
        date: Some(b"Mon, 1 Jan 2026".to_vec()),
        message_id: Some(b"<m1@example.com>".to_vec()),
    }
}

fn fetched(uid: u32) -> Result<FetchedMessage, String> {
    Ok(FetchedMessage { uid: Some(uid), envelope: Some(envelope("s")) })
}

#[test]
fn encoded_words_are_decoded() {
    assert_eq!(decode_rfc2047(b"=?iso-8859-1?Q?=A1Hola,_se=F1or!?="), "\u{a1}Hola, se\u{f1}or!");
    assert_eq!(decode_rfc2047(b"plain"), "plain");
    assert_eq!(decode_rfc2047(b""), "");
}

#[test]
fn an_unparsed_value_is_read_as_utf8() {
    assert_eq!(shown_header_value(None, "caf\u{e9}".as_bytes()), "caf\u{e9}");
    assert_eq!(shown_header_value(None, b"a\xffb"), "a\u{fffd}b");
    assert_eq!(shown_header_value(Some("x".to_string()), b"y"), "x");
}

#[test]
fn an_envelope_becomes_a_list_line() {
    let h = parse_envelope_header(7, &envelope("=?utf-8?B?w6k=?="));
    assert_eq!(h.uid, 7);
    assert_eq!(h.subject, "\u{e9}");
    assert_eq!(h.from, "Alice <alice@example.com>");
    assert_eq!(h.to, "bob@example.com");
    assert_eq!(h.date, "Mon, 1 Jan 2026");
    assert_eq!(h.message_id, "<m1@example.com>");
}

#[test]
fn missing_envelope_fields_are_empty() {
    let h = parse_envelope_header(
        1,
        &FetchedEnvelope { subject: None, from: None, to: Some(vec![]), date: None, message_id: None },
    );
    assert_eq!((h.subject.as_str(), h.from.as_str(), h.to.as_str()), ("", "", ""));
    assert_eq!((h.date.as_str(), h.message_id.as_str()), ("", ""));
    assert_eq!(format_address(&Some(vec![address(Some("N"), None, None)])), "N <@>");
}

#[test]
fn a_server_that_reports_nothing_counts_as_zero() {
    let s = mailbox_state(None, Some(5));
    assert_eq!((s.uid_validity, s.uid_next), (0, 5));
}

#[test]
fn pages_are_fifty_messages_newest_first() {
    assert_eq!(header_page(0, 1), None);
    assert_eq!(header_page(1, 1), Some(HeaderPage { start: 1, end: 1, total_pages: 1 }));
    assert_eq!(header_page(50, 1), Some(HeaderPage { start: 1, end: 50, total_pages: 1 }));
    assert_eq!(header_page(51, 1), Some(HeaderPage { start: 2, end: 51, total_pages: 2 }));
    assert_eq!(header_page(51, 2), Some(HeaderPage { start: 1, end: 1, total_pages: 2 }));
    assert_eq!(header_page(120, 2), Some(HeaderPage { start: 21, end: 70, total_pages: 3 }));
}

#[test]
fn a_page_out_of_range_is_brought_into_it() {
    assert_eq!(header_page(120, 0), header_page(120, 1));
    assert_eq!(header_page(120, 99), Some(HeaderPage { start: 1, end: 20, total_pages: 3 }));
}

#[test]
fn every_message_stands_on_exactly_one_page() {
    for total in [1u32, 49, 50, 51, 100, 101, 237] {
        let pages = header_page(total, 1).unwrap().total_pages;
        let mut seen = vec![0; total as usize + 1];
        for p in 1..=pages {
            let r = header_page(total, p).unwrap();
            for m in r.start..=r.end {
                seen[m as usize] += 1;
            }
        }
        assert!(seen[1..].iter().all(|n| *n == 1));
    }
}

#[test]
fn ranges_are_written_as_imap_wants_them() {
    assert_eq!(range_query(21, 70), "21:70");
    assert_eq!(uids_from_query(17), "17:*");
    assert_eq!(uid_query(9), "9");
}

#[test]
fn a_page_is_turned_newest_first() {
    let messages = vec![fetched(1), fetched(2), fetched(3)];
    let uids: Vec<u32> = collect_page(&messages).unwrap().iter().map(|h| h.uid).collect();
    assert_eq!(uids, vec![3, 2, 1]);
    let uids: Vec<u32> = collect_headers(&messages).unwrap().iter().map(|h| h.uid).collect();
    assert_eq!(uids, vec![1, 2, 3]);
}

#[test]
fn the_first_faulty_answer_fails_the_fetch() {
    let no_uid = Ok(FetchedMessage { uid: None, envelope: None });
    let no_envelope = Ok(FetchedMessage { uid: Some(2), envelope: None });
    assert_eq!(collect_page(&vec![fetched(1), no_uid]).unwrap_err(), "No UID");
    assert_eq!(
        collect_headers(&vec![no_envelope, Err("late".to_string())]).unwrap_err(),
        "No envelope"
    );
    assert_eq!(collect_page(&vec![Err("lost".to_string())]).unwrap_err(), "lost");
}

#[test]
fn an_empty_mailbox_has_no_pages_but_a_state() {
    let state = MailboxState { uid_validity: 3, uid_next: 1 };
    let (headers, total_pages, s) = page_reply(header_page(0, 1), &vec![], state).unwrap();
    assert!(headers.is_empty());
    assert_eq!((total_pages, s), (0, state));
    let messages = vec![fetched(1), fetched(2)];
    let (headers, total_pages, s) = page_reply(header_page(52, 2), &messages, state).unwrap();
    assert_eq!((headers[0].uid, headers[1].uid, total_pages, s), (2, 1, 2, state));
    let lost = vec![Err("lost".to_string())];
    assert_eq!(page_reply(header_page(1, 1), &lost, state).unwrap_err(), "lost");
}
