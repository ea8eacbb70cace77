use base64::Engine;
use esmail::references::split_references;
use esmail::render::{
    content_id, extract_attachments, find_html, find_text, get_first_value, list_attachments,
    render_message, render_outcome, render_parsed, resolve_cid_parts, sanitize, wrap_document,
    MailPart, DOCUMENT_HEAD,
};

fn message(headers: &str, body: &str) -> Vec<u8> {
    format!("{headers}\r\n\r\n{body}").into_bytes()
}

#[test]
fn plain_text_is_html_escaped_not_injected_raw() {
    let raw = message(
        "Content-Type: text/plain",
        "<script>alert(1)</script> & <b>bold</b>",
    );
    let html = render_message(&raw);
    assert!(!html.contains("<script>"));
    assert!(!html.contains("<b>bold</b>"));
    assert!(html.contains("&lt;script&gt;"));
    assert!(html.contains("&amp;"));
}

#[test]
fn html_part_is_preferred_over_plain_text() {
    let raw = message(
        "Content-Type: multipart/alternative; boundary=b",
        "--b\r\nContent-Type: text/plain\r\n\r\nplain version\r\n--b\r\nContent-Type: text/html\r\n\r\n<p>html version</p>\r\n--b--",
    );
    let html = render_message(&raw);
    assert!(html.contains("html version"));
    assert!(!html.contains("plain version"));
}

#[test]
fn script_tags_are_stripped() {
    let raw = message(
        "Content-Type: text/html",
        "<p>hi</p><script>alert(document.cookie)</script>",
    );
    let html = render_message(&raw);
    assert!(!html.contains("<script"));
    assert!(!html.contains("alert(document.cookie)"));
    assert!(html.contains("<p>hi</p>"));
}

#[test]
fn event_handler_attributes_are_stripped() {
    let raw = message(
        "Content-Type: text/html",
        r#"<img src="https://example.com/a.png" onerror="alert(1)">"#,
    );
    let html = render_message(&raw);
    assert!(!html.contains("onerror"));
    assert!(!html.contains("alert(1)"));
    assert!(html.contains(r#"src="https://example.com/a.png""#));
}

#[test]
fn iframes_and_forms_are_stripped() {
    let raw = message(
        "Content-Type: text/html",
        r#"<iframe src="https://evil.example"></iframe><form action="https://evil.example"><input name="x"></form><p>safe</p>"#,
    );
    let html = render_message(&raw);
    assert!(!html.contains("<iframe"));
    assert!(!html.contains("<form"));
    assert!(!html.contains("<input"));
    assert!(html.contains("<p>safe</p>"));
}

#[test]
fn cid_references_become_inline_data_urls() {
    let raw = message(
        "Content-Type: multipart/related; boundary=b",
        "--b\r\nContent-Type: text/html\r\n\r\n<img src=\"cid:img1\">\r\n\
         --b\r\nContent-Type: image/png\r\nContent-ID: <img1>\r\nContent-Transfer-Encoding: base64\r\n\r\n\
         aGVsbG8=\r\n--b--",
    );
    let html = render_message(&raw);
    let expected_data_url = format!(
        "data:image/png;base64,{}",
        base64::engine::general_purpose::STANDARD.encode(b"hello")
    );
    assert!(
        html.contains(&expected_data_url),
        "expected {html:?} to contain {expected_data_url:?}"
    );
    assert!(!html.contains("cid:img1"));
}

#[test]
fn an_unmatched_cid_is_left_as_is_rather_than_guessed_at() {
    let raw = message(
        "Content-Type: text/html",
        r#"<img src="cid:nonexistent">"#,
    );
    let html = render_message(&raw);
    assert!(html.contains("cid:nonexistent"));
}

#[test]
fn an_unparseable_message_renders_an_escaped_notice_rather_than_panicking() {
    let html = render_message(b"not a valid mime message at all \xFF\xFE");
    assert!(html.contains("<html") || html.contains("<meta") || html.contains("<p>"));
}

#[test]
fn empty_message_body_renders_a_placeholder() {
    let raw = message("Content-Type: text/plain", "");
    let html = render_message(&raw);
    assert!(html.len() > 0);
}

fn part(mimetype: &str, body: Option<&str>, id: Option<&str>) -> MailPart {
    let mut headers = vec![("Subject".to_string(), "s".to_string())];
    if let Some(id) = id {
        headers.push(("content-id".to_string(), id.to_string()));
    }
    MailPart {
        mimetype: mimetype.to_string(),
        headers,
        body: body.map(|b| b.to_string()),
        bytes: body.map(|b| b.as_bytes().to_vec()),
        subparts: 0,
        filename: None,
        content_name: None,
    }
}

#[test]
fn a_parse_error_is_shown_escaped() {
    let html = render_outcome(&Err("a <b> & c".to_string()));
    assert_eq!(
        html,
        format!("{DOCUMENT_HEAD}<p>Could not parse this message: a&#32;&lt;b&gt;&#32;&amp;&#32;c</p>")
    );
    let lone_cr = render_message(b"Subject: x\n\rbody");
    assert!(lone_cr.contains("<p>Could not parse this message: "));
}

#[test]
fn text_is_escaped_entity_by_entity() {
    let parts = vec![part("text/plain", Some("<>\"'`/&= \t\n\u{c}\r\0é"), None)];
    assert_eq!(
        render_parsed(&parts),
        "<pre>&lt;&gt;&quot;&apos;&grave;&#47;&amp;&#61;&#32;&#9;&#10;&#12;&#13;&#65533;é</pre>"
    );
}

#[test]
fn a_message_without_a_readable_part_says_so() {
    let parts = vec![part("image/png", Some("x"), None), part("text/html", None, None)];
    assert_eq!(
        render_parsed(&parts),
        "<p><em>(this message has no readable body)</em></p>"
    );
}

#[test]
fn the_first_decodable_part_of_a_type_counts() {
    let parts = vec![
        part("multipart/mixed", Some(""), None),
        part("text/html", None, None),
        part("text/plain", Some("t1"), None),
        part("text/html", Some("h2"), None),
        part("text/html", Some("h3"), None),
    ];
    assert_eq!(find_html(&parts), Some("h2".to_string()));
    assert_eq!(find_text(&parts), Some("t1".to_string()));
}

#[test]
fn content_ids_lose_their_brackets() {
    assert_eq!(content_id(&part("a/b", None, Some(" <img1@x> "))), Some("img1@x".to_string()));
    assert_eq!(content_id(&part("a/b", None, Some("<<x>>"))), Some("x".to_string()));
    assert_eq!(content_id(&part("a/b", None, None)), None);
    let headers = vec![("A".to_string(), "1".to_string()), ("a".to_string(), "2".to_string())];
    assert_eq!(get_first_value(&headers, "a"), Some("1".to_string()));
    assert_eq!(get_first_value(&headers, "b"), None);
}

#[test]
fn references_are_replaced_part_by_part() {
    let parts = vec![
        part("image/png", Some("hello"), Some("<a>")),
        part("image/gif", None, Some("<b>")),
        part("image/gif", Some("hi"), Some("<c>")),
    ];
    assert_eq!(
        resolve_cid_parts("cid:a cid:b cid:c cid:d", &parts),
        "data:image/png;base64,aGVsbG8= cid:b data:image/gif;base64,aGk= cid:d"
    );
}

#[test]
fn sanitizing_keeps_data_and_cid_urls() {
    let html = sanitize(r#"<img src="data:image/png;base64,AA=="><img src="cid:x"><img src="javascript:x">"#);
    assert!(html.contains("data:image/png;base64,AA=="));
    assert!(html.contains("cid:x"));
    assert!(!html.contains("javascript"));
}

#[test]
fn a_document_starts_with_the_head() {
    let html = wrap_document("<p>x</p>");
    assert!(html.starts_with("<!doctype html>\n<meta charset=\"utf-8\">\n<style>\n  body {\n"));
    assert!(html.ends_with("</style>\n<p>x</p>"));
}

#[test]
fn a_reference_is_matched_whole() {
    let parts = vec![
        part("image/png", Some("hello"), Some("<img1>")),
        part("image/gif", Some("hi"), Some("<it's@x>")),
    ];
    let url = "data:image/png;base64,aGVsbG8=";
    let html = "<img src=\"cid:img10\">";
    assert_eq!(resolve_cid_parts(html, &parts), html);
    assert_eq!(
        resolve_cid_parts("<img src=\"cid:img10\"><img src='cid:img1'>", &parts),
        format!("<img src=\"cid:img10\"><img src='{url}'>")
    );
    assert_eq!(resolve_cid_parts("url(cid:img1) cid:img1<br>", &parts), format!("url({url}) {url}<br>"));
    assert_eq!(resolve_cid_parts("<img src=\"cid:it's@x\">", &parts), "<img src=\"data:image/gif;base64,aGk=\">");
    assert_eq!(resolve_cid_parts("cid:cid:img1", &parts), format!("cid:{url}"));
    assert_eq!(resolve_cid_parts("&quot;cid:img1&quot;", &parts), format!("&quot;{url}&quot;"));
    assert_eq!(resolve_cid_parts("\"cid:img1, cid:img1 2x\"", &parts), format!("\"{url}, {url} 2x\""));
    assert_eq!(resolve_cid_parts("see cid:img1. cid:img1#top", &parts), format!("see {url}. {url}#top"));
    for kept in ["'cid:img1a'", "cid:img1.png", "cid:img1@x", "\"cid:img1&x\"", "\"cid:it\"", "cid:img1\u{e9}"] {
        assert_eq!(resolve_cid_parts(kept, &parts), kept);
    }
    assert_eq!(resolve_cid_parts("<img src=cid:img1>cid:", &parts), format!("<img src={url}>cid:"));
    assert_eq!(resolve_cid_parts("", &parts), "");
}

#[test]
fn the_first_usable_part_of_an_id_is_taken() {
    let parts = vec![
        part("image/png", None, Some("<a>")),
        part("image/gif", Some("hi"), Some("<a>")),
        part("image/png", Some("hello"), Some("<a>")),
    ];
    assert_eq!(resolve_cid_parts("'cid:a'", &parts), "'data:image/gif;base64,aGk='");
}

#[test]
fn the_longest_id_that_stands_there_is_taken() {
    let parts = vec![
        part("image/gif", Some("hi"), Some("<a>")),
        part("image/png", Some("hello"), Some("<a b>")),
    ];
    assert_eq!(resolve_cid_parts("src='cid:a b'", &parts), "src='data:image/png;base64,aGVsbG8='");
    assert_eq!(resolve_cid_parts("src='cid:a c'", &parts), "src='data:image/gif;base64,aGk= c'");
}

#[test]
fn pieces_are_references_and_the_texts_between() {
    let ids = vec![Some("x".to_string()), None, Some("z".to_string())];
    let cut: Vec<(String, Option<usize>)> =
        split_references("a \"cid:x y\" (cid:z)", &ids).into_iter().map(|p| (p.text, p.names)).collect();
    assert_eq!(
        cut,
        vec![
            ("a \"".to_string(), None),
            ("cid:x".to_string(), Some(0)),
            (" y\" (".to_string(), None),
            ("cid:z".to_string(), Some(2)),
            (")".to_string(), None),
        ]
    );
    assert_eq!(split_references("cid:xy cid:w", &ids).len(), 1);
    assert!(split_references("", &ids).is_empty());
}

fn names(parts: &Vec<MailPart>) -> Vec<String> {
    list_attachments(parts).into_iter().map(|a| a.filename).collect()
}

#[test]
fn what_is_not_shown_is_attached() {
    let mut container = part("multipart/mixed", Some(""), None);
    container.subparts = 4;
    let mut inline = part("image/png", Some("i"), Some("<i>"));
    inline.filename = Some("inline.png".to_string());
    let mut unused = part("image/png", Some("u"), Some("<u>"));
    unused.content_name = Some("unused.png".to_string());
    let mut file = part("application/pdf", Some("f"), None);
    file.filename = Some("f.pdf".to_string());
    file.content_name = Some("other.pdf".to_string());
    let nameless = part("application/zip", Some("z"), None);
    let broken = part("application/zip", None, None);
    let html = part("text/html", Some("<img src=\"cid:i\"><img src=\"cid:u2\">"), None);
    let parts = vec![container, html, inline, unused, file, nameless, broken];
    assert_eq!(names(&parts), vec!["unused.png", "f.pdf", "attachment"]);
    assert_eq!(list_attachments(&parts)[1].data, b"f".to_vec());
    let text = vec![part("text/plain", Some("cid:a"), None), part("image/png", Some("x"), Some("<a>"))];
    assert_eq!(names(&text), vec!["attachment"]);
}

#[test]
fn attachments_are_read_off_the_raw_message() {
    let raw = message(
        "Content-Type: multipart/mixed; boundary=b",
        "--b\r\nContent-Type: text/html\r\n\r\n<img src=\"cid:img1\">\r\n\
         --b\r\nContent-Type: image/png\r\nContent-ID: <img1>\r\n\r\nx\r\n\
         --b\r\nContent-Type: text/csv; name=\"t.csv\"\r\nContent-Transfer-Encoding: base64\r\n\r\naGk=\r\n--b--",
    );
    let found = extract_attachments(&raw);
    assert_eq!(found.len(), 1);
    assert_eq!((found[0].filename.as_str(), found[0].mime_type.as_str()), ("t.csv", "text/csv"));
    assert_eq!(found[0].data, b"hi".to_vec());
    assert!(extract_attachments(b"Subject: x\n\rbody").is_empty());
    assert!(extract_attachments(b"Content-Type: text/plain\r\n\r\nhi").is_empty());
}
