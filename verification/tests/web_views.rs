use base64::engine::general_purpose;
use base64::Engine;
use esmail::cursor::{servo_cursor_to_egui_cursor_icon, CursorIcon, PageCursor};
use esmail::data_uri::{decode_data_uri, percent_decode, remove_ascii_white};
use esmail::es_webview;
use esmail::keyboard::{
    action_for, egui_ime_to_servo_ime, egui_key_to_code, egui_key_to_keyboard_types,
    egui_modifiers_to_keyboard_types, forward_event, scroll_for_key, text_to_keyboard_events,
    CompositionState, EditingAction, KeyCode, KeyScroll, NamedKey, PageIme, PageInput, PageKey,
    PageModifiers, UiEvent, UiIme, UiKey, UiModifiers,
};
use esmail::litehtml_view::RenderStep::{Draw, LoadImages, Measure, Resize, Upload};
use esmail::litehtml_view::{self, flatten_onto_white, load_pending_images, resolve_image_bytes};
use esmail::servo_view::{
    drain_events, forward_pointer, js_value_to_scroll_info, load_web_resource, resource_action, scroll_poll_due,
    source_to_url, texture_name, thumb_alpha, Buttons, DefaultHandler, InterceptOutcome,
    InterceptedResponse, JsValue, MouseButton, NavigationGate, NavigationPolicy, PointerAction,
    PointerFrame, ResourceAction, ScrollInfo, TextureAction, ViewIds, ViewSurface,
    WebResourceRequest, WebViewEvent, WebViewHandler, WebViewSource,
};

struct RecordingHandler {
    seen: Vec<String>,
    outcome: litehtml_view::InterceptOutcome,
}

impl litehtml_view::WebViewHandler for RecordingHandler {
    fn intercept(&mut self, request: &litehtml_view::ImageRequest) -> litehtml_view::InterceptOutcome {
        self.seen.push(request.url.clone());
        match &self.outcome {
            litehtml_view::InterceptOutcome::Allow => litehtml_view::InterceptOutcome::Allow,
            litehtml_view::InterceptOutcome::Block => litehtml_view::InterceptOutcome::Block,
            litehtml_view::InterceptOutcome::Serve(bytes) => {
                litehtml_view::InterceptOutcome::Serve(bytes.clone())
            }
        }
    }
}

fn recording(outcome: litehtml_view::InterceptOutcome) -> RecordingHandler {
    RecordingHandler { seen: Vec::new(), outcome }
}

#[test]
fn resolve_image_bytes_decodes_a_data_uri_without_asking_the_handler() {
    let mut handler = recording(litehtml_view::InterceptOutcome::Allow);
    let bytes = resolve_image_bytes("data:text/plain;base64,aGk=", &mut handler);
    assert_eq!(bytes, Some(b"hi".to_vec()));
    assert!(handler.seen.is_empty(), "a data: URL must never reach the handler");
}

#[test]
fn resolve_image_bytes_leaves_an_unmatched_cid_unresolved_without_asking_the_handler() {
    let mut handler = recording(litehtml_view::InterceptOutcome::Serve(vec![1]));
    let bytes = resolve_image_bytes("cid:missing-part", &mut handler);
    assert_eq!(bytes, None);
    assert!(handler.seen.is_empty(), "an unmatched cid: URL must never reach the handler either");
}

#[test]
fn resolve_image_bytes_asks_the_handler_for_a_remote_url_and_serves_its_bytes() {
    let mut handler = recording(litehtml_view::InterceptOutcome::Serve(vec![9, 9, 9]));
    let bytes = resolve_image_bytes("https://example.com/pixel.png", &mut handler);
    assert_eq!(bytes, Some(vec![9, 9, 9]));
    assert_eq!(handler.seen, vec!["https://example.com/pixel.png".to_string()]);
}

#[test]
fn resolve_image_bytes_blocks_a_remote_url_when_the_handler_declines() {
    for outcome in [litehtml_view::InterceptOutcome::Allow, litehtml_view::InterceptOutcome::Block] {
        let mut handler = recording(outcome);
        let bytes = resolve_image_bytes("https://example.com/track.gif", &mut handler);
        assert_eq!(bytes, None);
    }
}

#[test]
fn a_malformed_data_uri_never_reaches_the_handler() {
    let mut handler = recording(litehtml_view::InterceptOutcome::Serve(vec![1]));
    assert_eq!(resolve_image_bytes("data:no-comma-here", &mut handler), None);
    assert_eq!(resolve_image_bytes("data:image/png;base64,!!!", &mut handler), None);
    assert!(handler.seen.is_empty());
}

#[test]
fn pending_images_are_resolved_in_order() {
    let mut handler = recording(litehtml_view::InterceptOutcome::Serve(vec![7]));
    let pending = vec![
        "https://a/1".to_string(),
        "cid:x".to_string(),
        "data:,hi".to_string(),
        "https://a/2".to_string(),
    ];
    let loaded = load_pending_images(&pending, &mut handler);
    let urls: Vec<&str> = loaded.iter().map(|i| i.url.as_str()).collect();
    assert_eq!(urls, vec!["https://a/1", "data:,hi", "https://a/2"]);
    assert_eq!(loaded[0].bytes, vec![7]);
    assert_eq!(loaded[1].bytes, b"hi".to_vec());
    assert_eq!(handler.seen, vec!["https://a/1", "https://a/2"]);
    let mut default = litehtml_view::DefaultHandler;
    assert!(load_pending_images(&vec!["https://a/1".to_string()], &mut default).is_empty());
}

#[test]
fn pictures_are_put_on_white() {
    let mut pixels = vec![0, 0, 0, 0, 10, 20, 30, 255, 100, 200, 50, 128, 9, 9];
    flatten_onto_white(&mut pixels);
    assert_eq!(pixels, vec![255, 255, 255, 255, 10, 20, 30, 255, 227, 255, 177, 255, 9, 9]);
}

#[test]
fn a_static_view_draws_twice_when_images_load() {
    let mut r = litehtml_view::Rendering::new();
    let mut steps = Vec::new();
    while r.step != litehtml_view::RenderStep::Done {
        steps.push(r.step);
        r.advance(true);
    }
    assert_eq!(steps, vec![Measure, Resize, Draw, LoadImages, Measure, Resize, Draw, Upload]);
    let mut r = litehtml_view::Rendering::new();
    let mut n = 0;
    while r.step != litehtml_view::RenderStep::Done {
        n += 1;
        r.advance(false);
    }
    assert_eq!(n, 5);
}

#[test]
fn static_views_have_textures_of_their_own() {
    let mut host = litehtml_view::WebViewHost::new();
    let mut a = host.new_view(litehtml_view::WebViewSource::Html("<p>".to_string()));
    let b = host.new_view(litehtml_view::WebViewSource::Html(String::new()));
    assert_eq!(a.texture_name, "egui_litehtml_webview_0");
    assert_eq!(b.texture_name, "egui_litehtml_webview_1");
    assert!(a.needs_layout(false, false));
    a.on_drawn();
    assert!(!a.needs_layout(false, false) && a.needs_layout(true, false) && a.needs_layout(false, true));
    a.load(litehtml_view::WebViewSource::Html("<b>".to_string()));
    assert!(a.dirty && a.html == "<b>");
    a.on_drawn();
    a.reload();
    assert!(a.dirty);
    assert_eq!(litehtml_view::ViewState::click_events(None).len(), 0);
    assert_eq!(litehtml_view::ViewState::click_events(Some("u".to_string())).len(), 1);
}

#[test]
fn decode_data_uri_plain_and_base64() {
    assert_eq!(decode_data_uri("data:text/plain,Hello%20World"), Some(b"Hello World".to_vec()));
    assert_eq!(decode_data_uri("data:,bare%20data"), Some(b"bare data".to_vec()));
    assert_eq!(decode_data_uri("https://example.com"), None);
    assert_eq!(decode_data_uri("data:no-comma-here"), None);
    assert_eq!(decode_data_uri("data:image/png;base64,!!!not-valid!!!"), None);
    assert_eq!(decode_data_uri("data:x;base64,aG\n k="), Some(b"hi".to_vec()));
    assert_eq!(decode_data_uri("data:x;base64,"), Some(vec![]));
    assert_eq!(percent_decode(b"%4a%4G%%31%2"), b"J%4G%1%2".to_vec());
    assert_eq!(remove_ascii_white(" a\tb\u{b}c\u{c}\r\n\u{a0}"), "ab\u{b}c\u{a0}");
}

#[test]
fn url_source_passes_through() {
    let url = source_to_url(&WebViewSource::Url("https://servo.org/a?b=c".into()));
    assert_eq!(url.as_str(), "https://servo.org/a?b=c");
}

#[test]
fn urls_are_normalized() {
    assert_eq!(source_to_url(&WebViewSource::Url("HTTPS://Servo.org".into())), "https://servo.org/");
    assert_eq!(es_webview::source_to_url(&es_webview::WebViewSource::Url("x".into())), "about:blank");
}

#[test]
fn unparseable_url_falls_back_to_blank_rather_than_panicking() {
    let url = source_to_url(&WebViewSource::Url("not a url".into()));
    assert_eq!(url.as_str(), "about:blank");
}

#[test]
fn html_source_round_trips_through_a_data_url() {
    let html = "<p>café € &amp; \"quotes\"</p>";
    let url = source_to_url(&WebViewSource::Html(html.to_string()));

    let encoded = url
        .as_str()
        .strip_prefix("data:text/html;charset=utf-8;base64,")
        .expect("should be a base64 data URL");
    let decoded = general_purpose::STANDARD
        .decode(encoded)
        .expect("should be valid base64");

    assert_eq!(String::from_utf8(decoded).unwrap(), html);
    assert_eq!(url, es_webview::source_to_url(&es_webview::WebViewSource::Html(html.to_string())));
}

#[test]
fn empty_html_is_still_a_valid_url() {
    let url = source_to_url(&WebViewSource::Html(String::new()));
    assert_eq!(url.as_str(), "data:text/html;charset=utf-8;base64,");
}

#[test]
fn html_with_base_injects_a_base_tag_so_relative_links_resolve() {
    let url = source_to_url(&WebViewSource::HtmlWithBase {
        html: "<p><a href=\"reply\">reply</a></p>".to_string(),
        base: "https://mail.example.com/inbox/42/".to_string(),
    });

    let encoded = url
        .as_str()
        .strip_prefix("data:text/html;charset=utf-8;base64,")
        .expect("should be a base64 data URL");
    let decoded = general_purpose::STANDARD.decode(encoded).unwrap();
    let html = String::from_utf8(decoded).unwrap();

    assert_eq!(
        html,
        "<base href=\"https://mail.example.com/inbox/42/\"><p><a href=\"reply\">reply</a></p>"
    );
}

#[test]
fn html_with_base_escapes_quotes_and_ampersands_in_the_base() {
    let url = source_to_url(&WebViewSource::HtmlWithBase {
        html: "<p>hi</p>".to_string(),
        base: "https://example.com/\"><script>evil()</script>&x=1".to_string(),
    });

    let encoded = url
        .as_str()
        .strip_prefix("data:text/html;charset=utf-8;base64,")
        .unwrap();
    let html = String::from_utf8(general_purpose::STANDARD.decode(encoded).unwrap()).unwrap();

    assert_eq!(
        html,
        "<base href=\"https://example.com/&quot;><script>evil()</script>&amp;x=1\"><p>hi</p>"
    );
}

fn request(url: &str) -> WebResourceRequest {
    WebResourceRequest {
        method: "GET".to_string(),
        url: url.to_string(),
        is_for_main_frame: false,
        is_redirect: false,
    }
}

#[test]
fn default_handler_denies_navigation_and_never_intercepts() {
    let mut handler = DefaultHandler;
    let url = "https://example.com/clicked";
    assert_eq!(handler.navigation(url), NavigationPolicy::Deny);
    assert!(matches!(handler.intercept(&request(url)), InterceptOutcome::Allow));
}

struct SilentHandler;

impl WebViewHandler for SilentHandler {}

#[test]
fn a_handler_that_says_nothing_denies_and_lets_resources_through() {
    let mut handler = SilentHandler;
    assert_eq!(handler.navigation("https://x/"), NavigationPolicy::Deny);
    assert!(matches!(load_web_resource(&mut handler, &request("https://x/")), ResourceAction::PassThrough));
}

struct OpenHandler {
    asked: Vec<String>,
}

impl WebViewHandler for OpenHandler {
    fn navigation(&mut self, url: &str) -> NavigationPolicy {
        self.asked.push(url.to_string());
        NavigationPolicy::Allow
    }

    fn intercept(&mut self, _request: &WebResourceRequest) -> InterceptOutcome {
        InterceptOutcome::Serve(InterceptedResponse { status_code: 99, body: vec![1] })
    }
}

#[test]
fn the_first_navigation_is_allowed_and_later_ones_are_asked_about() {
    let mut gate = NavigationGate::new();
    let mut events = Vec::new();
    let mut strict = DefaultHandler;
    assert_eq!(gate.request_navigation(&mut strict, "https://a/", &mut events), NavigationPolicy::Allow);
    assert!(events.is_empty());
    assert_eq!(gate.request_navigation(&mut strict, "https://b/", &mut events), NavigationPolicy::Deny);
    assert!(matches!(&events[..], [WebViewEvent::LinkClicked(u)] if u == "https://b/"));
    let mut open = OpenHandler { asked: Vec::new() };
    assert_eq!(gate.request_navigation(&mut open, "https://c/", &mut events), NavigationPolicy::Allow);
    assert_eq!(events.len(), 1);
    assert_eq!(open.asked, vec!["https://c/"]);
    let mut fresh = NavigationGate::new();
    fresh.request_navigation(&mut open, "https://d/", &mut events);
    assert_eq!(open.asked.len(), 1);
}

#[test]
fn resources_are_passed_cancelled_or_served() {
    assert!(matches!(resource_action(InterceptOutcome::Allow), ResourceAction::PassThrough));
    assert!(matches!(resource_action(InterceptOutcome::Block), ResourceAction::Cancel));
    let ok = InterceptOutcome::Serve(InterceptedResponse::ok(vec![5]));
    assert!(matches!(resource_action(ok), ResourceAction::Respond { status: 200, body } if body == vec![5]));
    for (code, served) in [(100, 100), (404, 404), (999, 999), (99, 200), (1000, 200), (0, 200)] {
        let r = InterceptOutcome::Serve(InterceptedResponse { status_code: code, body: vec![] });
        assert!(matches!(resource_action(r), ResourceAction::Respond { status, .. } if status == served));
    }
    let mut open = OpenHandler { asked: Vec::new() };
    assert!(matches!(
        load_web_resource(&mut open, &request("https://x/")),
        ResourceAction::Respond { status: 200, .. }
    ));
}

#[test]
fn named_keys_map_across() {
    assert_eq!(egui_key_to_keyboard_types(UiKey::Enter), PageKey::Named(NamedKey::Enter));
    assert_eq!(egui_key_to_keyboard_types(UiKey::Escape), PageKey::Named(NamedKey::Escape));
    assert_eq!(
        egui_key_to_keyboard_types(UiKey::ArrowDown),
        PageKey::Named(NamedKey::ArrowDown)
    );
    assert_eq!(egui_key_to_keyboard_types(UiKey::Space), PageKey::Character(" ".to_string()));
    assert_eq!(egui_key_to_keyboard_types(UiKey::F12), PageKey::Named(NamedKey::F12));
}

#[test]
fn unmapped_keys_are_unidentified_rather_than_a_panic() {
    assert_eq!(
        egui_key_to_keyboard_types(UiKey::Insert),
        PageKey::Named(NamedKey::Unidentified)
    );
    assert_eq!(egui_key_to_code(UiKey::Insert), KeyCode::Unidentified);
    assert_eq!(egui_key_to_code(UiKey::F1), KeyCode::Unidentified);
}

#[test]
fn letter_and_digit_keys_no_longer_synthesize_a_lowercase_character() {
    assert_eq!(egui_key_to_keyboard_types(UiKey::A), PageKey::Named(NamedKey::Unidentified));
    assert_eq!(egui_key_to_keyboard_types(UiKey::Num2), PageKey::Named(NamedKey::Unidentified));
    assert_eq!(egui_key_to_code(UiKey::A), KeyCode::KeyA);
}

#[test]
fn text_to_keyboard_events_produces_a_down_then_up_with_the_real_character() {
    let shift = PageModifiers { shift: true, control: false, alt: false, meta: false };
    let (down, up) = text_to_keyboard_events("@", shift);
    assert!(down.pressed);
    assert_eq!(down.key, PageKey::Character("@".into()));
    assert!(down.modifiers.shift);
    assert!(!up.pressed);
    assert_eq!(up.key, PageKey::Character("@".into()));
}

#[test]
fn text_to_keyboard_events_carries_multi_character_input_through_unsplit() {
    let none = PageModifiers { shift: false, control: false, alt: false, meta: false };
    let (down, _) = text_to_keyboard_events("café", none);
    assert_eq!(down.key, PageKey::Character("café".into()));
}

fn no_modifiers() -> UiModifiers {
    UiModifiers { alt: false, ctrl: false, shift: false, mac_cmd: false, command: false }
}

#[test]
fn modifiers_map_across() {
    let none = egui_modifiers_to_keyboard_types(no_modifiers());
    assert_eq!(none, PageModifiers { shift: false, control: false, alt: false, meta: false });

    let shift_ctrl = egui_modifiers_to_keyboard_types(UiModifiers {
        shift: true,
        ctrl: true,
        ..no_modifiers()
    });
    assert!(shift_ctrl.shift);
    assert!(shift_ctrl.control);
    assert!(!shift_ctrl.alt);
}

#[test]
fn the_shortcut_key_is_meta_only_on_a_mac() {
    let windows = UiModifiers { ctrl: true, command: true, ..no_modifiers() };
    assert!(!egui_modifiers_to_keyboard_types(windows).meta);
    assert!(es_webview::egui_modifiers_to_keyboard_types(windows).meta);
    let mac = UiModifiers { mac_cmd: true, command: true, ..no_modifiers() };
    assert!(egui_modifiers_to_keyboard_types(mac).meta);
}

#[test]
fn cursor_mapping_covers_pointer_and_resize_cursors() {
    assert_eq!(servo_cursor_to_egui_cursor_icon(PageCursor::Pointer), CursorIcon::PointingHand);
    assert_eq!(servo_cursor_to_egui_cursor_icon(PageCursor::Default), CursorIcon::Default);
    assert_eq!(servo_cursor_to_egui_cursor_icon(PageCursor::Text), CursorIcon::Text);
    assert_eq!(servo_cursor_to_egui_cursor_icon(PageCursor::NeswResize), CursorIcon::ResizeNeSw);
    assert_eq!(servo_cursor_to_egui_cursor_icon(PageCursor::EwResize), CursorIcon::ResizeHorizontal);
    assert_eq!(servo_cursor_to_egui_cursor_icon(PageCursor::NsResize), CursorIcon::ResizeVertical);
}

#[test]
fn ime_events_map_to_the_matching_composition_state() {
    assert!(matches!(
        egui_ime_to_servo_ime(UiIme::Enabled),
        PageIme::Composition { state: CompositionState::Start, .. }
    ));

    match egui_ime_to_servo_ime(UiIme::Preedit("ｎ".into())) {
        PageIme::Composition { state: CompositionState::Update, data } => {
            assert_eq!(data, "ｎ");
        }
        other => panic!("expected Composition(Update), got {other:?}"),
    }

    match egui_ime_to_servo_ime(UiIme::Commit("日本語".into())) {
        PageIme::Composition { state: CompositionState::End, data } => {
            assert_eq!(data, "日本語");
        }
        other => panic!("expected Composition(End), got {other:?}"),
    }

    assert!(matches!(egui_ime_to_servo_ime(UiIme::Disabled), PageIme::Dismissed));
}

#[test]
fn js_value_to_scroll_info_parses_the_polled_array_shape() {
    let value = JsValue::Array(vec![
        JsValue::Number(123.5),
        JsValue::Number(2000.0),
        JsValue::Number(400.0),
    ]);
    assert_eq!(
        js_value_to_scroll_info(&value),
        Some(ScrollInfo { scroll_top: 123.5, scroll_height: 2000.0, client_height: 400.0 })
    );
}

#[test]
fn js_value_to_scroll_info_rejects_any_other_shape() {
    assert_eq!(js_value_to_scroll_info(&JsValue::<f64>::Undefined), None);
    assert_eq!(js_value_to_scroll_info(&JsValue::Number(1.0)), None);
    assert_eq!(
        js_value_to_scroll_info(&JsValue::Array(vec![JsValue::Number(1.0), JsValue::Number(2.0)])),
        None
    );
    assert_eq!(
        js_value_to_scroll_info(&JsValue::Array(vec![
            JsValue::Null,
            JsValue::Number(2000.0),
            JsValue::Number(400.0)
        ])),
        None
    );
}

#[test]
fn clipboard_shortcut_keys_map_to_the_matching_editing_action() {
    assert!(matches!(action_for(UiKey::C), Some(EditingAction::Copy)));
    assert!(matches!(action_for(UiKey::X), Some(EditingAction::Cut)));
    assert!(matches!(action_for(UiKey::V), Some(EditingAction::Paste)));
    assert!(action_for(UiKey::A).is_none());
}

fn key(key: UiKey, pressed: bool, modifiers: UiModifiers) -> UiEvent {
    UiEvent::Key { key, pressed, repeat: false, modifiers }
}

#[test]
fn shortcuts_reach_the_page_as_commands() {
    let ctrl = UiModifiers { ctrl: true, ..no_modifiers() };
    let inputs = forward_event(key(UiKey::C, true, ctrl), ctrl);
    assert!(matches!(&inputs[..], [PageInput::Keyboard(k), PageInput::Editing(EditingAction::Copy)] if k.code == KeyCode::KeyC));
    assert_eq!(forward_event(key(UiKey::C, false, ctrl), ctrl).len(), 1);
    let shifted = UiModifiers { shift: true, ..ctrl };
    assert_eq!(forward_event(key(UiKey::C, true, shifted), shifted).len(), 1);
    let alt = UiModifiers { alt: true, ..ctrl };
    assert_eq!(forward_event(key(UiKey::V, true, alt), alt).len(), 1);
    let mac = UiModifiers { mac_cmd: true, ..no_modifiers() };
    assert_eq!(forward_event(key(UiKey::X, true, mac), mac).len(), 2);
}

#[test]
fn scroll_keys_scroll_and_are_not_forwarded() {
    assert_eq!(scroll_for_key(UiKey::ArrowDown), Some(KeyScroll::LineDown));
    assert_eq!(scroll_for_key(UiKey::PageUp), Some(KeyScroll::PageUp));
    assert_eq!(scroll_for_key(UiKey::Home), Some(KeyScroll::ToStart));
    assert_eq!(scroll_for_key(UiKey::End), Some(KeyScroll::ToEnd));
    assert_eq!(scroll_for_key(UiKey::A), None);
    assert!(forward_event(key(UiKey::End, true, no_modifiers()), no_modifiers()).is_empty());
    assert!(es_webview::forward_key(UiKey::End, true, false, no_modifiers()).is_none());
    assert!(forward_event(UiEvent::Other, no_modifiers()).is_empty());
    assert_eq!(forward_event(UiEvent::Text("x".to_string()), no_modifiers()).len(), 2);
    assert_eq!(forward_event(UiEvent::Ime(UiIme::Disabled), no_modifiers()).len(), 1);
}

#[test]
fn the_single_view_types_lower_case_characters() {
    assert_eq!(es_webview::egui_key_to_keyboard_types(UiKey::Q), PageKey::Character("q".to_string()));
    assert_eq!(es_webview::egui_key_to_keyboard_types(UiKey::Num7), PageKey::Character("7".to_string()));
    assert_eq!(es_webview::egui_key_to_keyboard_types(UiKey::Tab), PageKey::Named(NamedKey::Tab));
    assert_eq!(es_webview::egui_key_to_keyboard_types(UiKey::Other), PageKey::Named(NamedKey::Unidentified));
    let k = es_webview::forward_key(UiKey::A, false, true, no_modifiers()).unwrap();
    assert!(!k.pressed && k.repeat && k.code == KeyCode::Unidentified);
}

#[test]
fn the_single_view_reports_every_later_navigation() {
    let mut done = false;
    let mut events = Vec::new();
    assert_eq!(
        es_webview::request_navigation(&mut done, "https://a/", &mut events),
        es_webview::NavigationAnswer::Allow
    );
    assert!(done && events.is_empty());
    assert_eq!(
        es_webview::request_navigation(&mut done, "https://b/", &mut events),
        es_webview::NavigationAnswer::Report
    );
    let es_webview::ESWebViewEvent::LinkClicked(url) = &events[0];
    assert_eq!(url, "https://b/");
}

fn pointer() -> PointerFrame {
    let none = Buttons { left: false, right: false, middle: false };
    PointerFrame {
        present: true,
        in_bounds: true,
        dragged: false,
        scrollbar_dragging: false,
        over_scrollbar: false,
        down: none,
        up: none,
        moved: true,
        known_to_page: true,
    }
}

#[test]
fn presses_come_before_the_move() {
    let mut f = pointer();
    f.down = Buttons { left: true, right: false, middle: true };
    f.up = Buttons { left: false, right: true, middle: false };
    assert_eq!(
        forward_pointer(f),
        vec![
            PointerAction::Focus,
            PointerAction::Press(MouseButton::Left),
            PointerAction::Press(MouseButton::Middle),
            PointerAction::Release(MouseButton::Right),
            PointerAction::Move,
        ]
    );
}

#[test]
fn the_scrollbar_keeps_the_pointer_from_the_page() {
    let mut f = pointer();
    f.down.left = true;
    f.over_scrollbar = true;
    assert!(forward_pointer(f).is_empty());
    f.over_scrollbar = false;
    f.scrollbar_dragging = true;
    assert!(forward_pointer(f).is_empty());
}

#[test]
fn a_release_outside_moves_but_does_not_click() {
    let mut f = pointer();
    f.in_bounds = false;
    f.up.left = true;
    assert_eq!(forward_pointer(f), vec![PointerAction::Move]);
    f.dragged = true;
    f.moved = false;
    assert_eq!(forward_pointer(f), vec![PointerAction::Release(MouseButton::Left)]);
}

#[test]
fn a_pointer_that_left_is_reported_once() {
    let mut f = pointer();
    f.present = false;
    assert_eq!(forward_pointer(f), vec![PointerAction::Leave]);
    f.known_to_page = false;
    assert!(forward_pointer(f).is_empty());
}

#[test]
fn the_single_view_moves_before_it_presses() {
    let f = es_webview::PointerFrame {
        present: true,
        in_bounds: false,
        dragged: true,
        primary_down: true,
        primary_up: true,
    };
    assert_eq!(
        es_webview::forward_pointer(f),
        vec![
            PointerAction::Move,
            PointerAction::Press(MouseButton::Left),
            PointerAction::Release(MouseButton::Left),
        ]
    );
    let away = es_webview::PointerFrame { dragged: false, ..f };
    assert!(es_webview::forward_pointer(away).is_empty());
    assert!(es_webview::takes_keys(true, false, false) && !es_webview::takes_keys(false, false, false));
}

#[test]
fn a_surface_is_read_only_when_a_frame_arrived() {
    let mut s = ViewSurface::new(1024, 768);
    assert!(s.frame_dirty && !s.fit(1024, 768) && s.fit(800, 768));
    assert_eq!(s.on_frame_read(None), TextureAction::Keep);
    assert!(!s.frame_dirty);
    s.on_frame_ready();
    assert!(s.frame_dirty);
    assert_eq!(s.on_frame_read(Some((0, 5))), TextureAction::Keep);
    assert_eq!(s.on_frame_read(Some((4, 5))), TextureAction::Create);
    assert_eq!(s.on_frame_read(Some((4, 5))), TextureAction::Update);
}

#[test]
fn scroll_positions_are_polled_now_and_then() {
    assert!(scroll_poll_due(None) && scroll_poll_due(Some(150)) && !scroll_poll_due(Some(149)));
    assert_eq!((thumb_alpha(true, true), thumb_alpha(false, true), thumb_alpha(false, false)), (160, 130, 90));
}

#[test]
fn views_have_textures_of_their_own() {
    let mut ids = ViewIds::new();
    assert_eq!(texture_name(ids.take()), "egui_servo_webview_0");
    assert_eq!(texture_name(ids.take()), "egui_servo_webview_1");
}

#[test]
fn queued_events_are_handed_out_once() {
    let mut events = vec![WebViewEvent::FaviconChanged, WebViewEvent::LinkClicked("u".to_string())];
    let first = drain_events(&mut events);
    assert!(matches!(&first[..], [WebViewEvent::FaviconChanged, WebViewEvent::LinkClicked(_)]));
    assert!(events.is_empty());
    assert!(drain_events(&mut events).is_empty());
    let mut clicks = vec![es_webview::ESWebViewEvent::LinkClicked("u".to_string())];
    assert_eq!(es_webview::drain_events(&mut clicks).len(), 1);
    assert!(clicks.is_empty());
}
