//! The decisions of the single-view widget: one engine, one page, and a plainer
//! way of forwarding input than that of the multi-view widget.
use vstd::prelude::*;

use crate::keyboard::{
    key_scroll, named_key, printed_on, scroll_for_key, KeyCode, KeyboardInput, NamedKey, PageKey,
    PageModifiers, UiKey, UiModifiers,
};
use crate::servo_view::{MouseButton, PointerAction};
use crate::text::{ascii_lowered, only_capitals_are_lowered};
use crate::web_url::{html_to_data_url, html_url, text_to_url, url_or_blank};

verus! {

/// What to load in the web view.
#[derive(Debug)]
pub enum WebViewSource {
    /// Navigate to a remote (or local) URL, e.g. `"https://example.com"`.
    Url(String),
    /// Render an in-memory HTML string.
    Html(String),
}

impl Clone for WebViewSource {
    fn clone(&self) -> (r: Self)
        ensures
            r == *self,
    {
        match self {
            WebViewSource::Url(url) => WebViewSource::Url(url.clone()),
            WebViewSource::Html(html) => WebViewSource::Html(html.clone()),
        }
    }
}

/// What happened in a web view.
#[derive(Debug)]
pub enum ESWebViewEvent {
    /// The user triggered a navigation to a new URL (link click, etc.).
    LinkClicked(String),
}

/// The URL that the engine loads for a source.
pub open spec fn source_url(source: WebViewSource) -> Seq<char> {
    match source {
        WebViewSource::Url(u) => url_or_blank(u@),
        WebViewSource::Html(html) => html_url(html@),
    }
}

/// The URL that the engine loads for a source: a blank page where the source
/// names no URL.
pub fn source_to_url(source: &WebViewSource) -> (r: String)
    ensures
        r@ == source_url(*source),
{
    match source {
        WebViewSource::Url(u) => text_to_url(u.as_str()),
        WebViewSource::Html(html) => html_to_data_url(html.as_str()),
    }
}

/// What is done with the engine's navigation request.
#[derive(Debug, Clone, Copy, PartialEq, Eq, Structural)]
pub enum NavigationAnswer {
    /// Allow it.
    Allow,
    /// Deny it: it was reported as a clicked link instead.
    Report,
}

/// Hand out the events that were queued since the last time, each once and in
/// order; the queue is empty then.
pub fn drain_events(events: &mut Vec<ESWebViewEvent>) -> (r: Vec<ESWebViewEvent>)
    ensures
        r@ == old(events)@,
        final(events)@.len() == 0,
{
    let mut queued: Vec<ESWebViewEvent> = Vec::new();
    core::mem::swap(&mut queued, events);
    queued
}

/// Take a navigation: the first one is allowed, every later one is denied and
/// reported as a clicked link.
pub fn request_navigation(
    initial_load_done: &mut bool,
    url: &str,
    events: &mut Vec<ESWebViewEvent>,
) -> (r: NavigationAnswer)
    ensures
        *final(initial_load_done),
        !*old(initial_load_done) ==> r == NavigationAnswer::Allow && final(events)@ == old(events)@,
        *old(initial_load_done) ==> {
            &&& r == NavigationAnswer::Report
            &&& final(events)@.len() == old(events)@.len() + 1
            &&& final(events)@.drop_last() == old(events)@
            &&& final(events)@.last() matches ESWebViewEvent::LinkClicked(u) && u@ == url@
        },
{
    if *initial_load_done {
        events.push(ESWebViewEvent::LinkClicked(url.to_owned()));
        assert(events@.drop_last() == old(events)@);
        NavigationAnswer::Report
    } else {
        *initial_load_done = true;
        NavigationAnswer::Allow
    }
}

/// The character that a key types: a letter in lower case, a digit, a space.
pub open spec fn typed_character(key: UiKey) -> Option<Seq<char>> {
    match key {
        UiKey::Space => Some(" "@),
        UiKey::A => Some("a"@),
        UiKey::B => Some("b"@),
        UiKey::C => Some("c"@),
        UiKey::D => Some("d"@),
        UiKey::E => Some("e"@),
        UiKey::F => Some("f"@),
        UiKey::G => Some("g"@),
        UiKey::H => Some("h"@),
        UiKey::I => Some("i"@),
        UiKey::J => Some("j"@),
        UiKey::K => Some("k"@),
        UiKey::L => Some("l"@),
        UiKey::M => Some("m"@),
        UiKey::N => Some("n"@),
        UiKey::O => Some("o"@),
        UiKey::P => Some("p"@),
        UiKey::Q => Some("q"@),
        UiKey::R => Some("r"@),
        UiKey::S => Some("s"@),
        UiKey::T => Some("t"@),
        UiKey::U => Some("u"@),
        UiKey::V => Some("v"@),
        UiKey::W => Some("w"@),
        UiKey::X => Some("x"@),
        UiKey::Y => Some("y"@),
        UiKey::Z => Some("z"@),
        UiKey::Num0 => Some("0"@),
        UiKey::Num1 => Some("1"@),
        UiKey::Num2 => Some("2"@),
        UiKey::Num3 => Some("3"@),
        UiKey::Num4 => Some("4"@),
        UiKey::Num5 => Some("5"@),
        UiKey::Num6 => Some("6"@),
        UiKey::Num7 => Some("7"@),
        UiKey::Num8 => Some("8"@),
        UiKey::Num9 => Some("9"@),
        _ => None,
    }
}

/// What a key means to a page: its character in lower case (the page itself
/// heeds shift), or its name.
pub fn egui_key_to_keyboard_types(key: UiKey) -> (r: PageKey)
    ensures
        match typed_character(key) {
            Some(text) => r matches PageKey::Character(c) && c@ == text,
            None => r == PageKey::Named(named_key(key)),
        },
{
    match key {
        UiKey::Enter => PageKey::Named(NamedKey::Enter),
        UiKey::Tab => PageKey::Named(NamedKey::Tab),
        UiKey::Backspace => PageKey::Named(NamedKey::Backspace),
        UiKey::Delete => PageKey::Named(NamedKey::Delete),
        UiKey::Escape => PageKey::Named(NamedKey::Escape),
        UiKey::F1 => PageKey::Named(NamedKey::F1),
        UiKey::F2 => PageKey::Named(NamedKey::F2),
        UiKey::F3 => PageKey::Named(NamedKey::F3),
        UiKey::F4 => PageKey::Named(NamedKey::F4),
        UiKey::F5 => PageKey::Named(NamedKey::F5),
        UiKey::F6 => PageKey::Named(NamedKey::F6),
        UiKey::F7 => PageKey::Named(NamedKey::F7),
        UiKey::F8 => PageKey::Named(NamedKey::F8),
        UiKey::F9 => PageKey::Named(NamedKey::F9),
        UiKey::F10 => PageKey::Named(NamedKey::F10),
        UiKey::F11 => PageKey::Named(NamedKey::F11),
        UiKey::F12 => PageKey::Named(NamedKey::F12),
        UiKey::ArrowDown => PageKey::Named(NamedKey::ArrowDown),
        UiKey::ArrowUp => PageKey::Named(NamedKey::ArrowUp),
        UiKey::ArrowLeft => PageKey::Named(NamedKey::ArrowLeft),
        UiKey::ArrowRight => PageKey::Named(NamedKey::ArrowRight),
        UiKey::Home => PageKey::Named(NamedKey::Home),
        UiKey::End => PageKey::Named(NamedKey::End),
        UiKey::PageUp => PageKey::Named(NamedKey::PageUp),
        UiKey::PageDown => PageKey::Named(NamedKey::PageDown),
        UiKey::Space => PageKey::Character(" ".to_owned()),
        UiKey::A => PageKey::Character("a".to_owned()),
        UiKey::B => PageKey::Character("b".to_owned()),
        UiKey::C => PageKey::Character("c".to_owned()),
        UiKey::D => PageKey::Character("d".to_owned()),
        UiKey::E => PageKey::Character("e".to_owned()),
        UiKey::F => PageKey::Character("f".to_owned()),
        UiKey::G => PageKey::Character("g".to_owned()),
        UiKey::H => PageKey::Character("h".to_owned()),
        UiKey::I => PageKey::Character("i".to_owned()),
        UiKey::J => PageKey::Character("j".to_owned()),
        UiKey::K => PageKey::Character("k".to_owned()),
        UiKey::L => PageKey::Character("l".to_owned()),
        UiKey::M => PageKey::Character("m".to_owned()),
        UiKey::N => PageKey::Character("n".to_owned()),
        UiKey::O => PageKey::Character("o".to_owned()),
        UiKey::P => PageKey::Character("p".to_owned()),
        UiKey::Q => PageKey::Character("q".to_owned()),
        UiKey::R => PageKey::Character("r".to_owned()),
        UiKey::S => PageKey::Character("s".to_owned()),
        UiKey::T => PageKey::Character("t".to_owned()),
        UiKey::U => PageKey::Character("u".to_owned()),
        UiKey::V => PageKey::Character("v".to_owned()),
        UiKey::W => PageKey::Character("w".to_owned()),
        UiKey::X => PageKey::Character("x".to_owned()),
        UiKey::Y => PageKey::Character("y".to_owned()),
        UiKey::Z => PageKey::Character("z".to_owned()),
        UiKey::Num0 => PageKey::Character("0".to_owned()),
        UiKey::Num1 => PageKey::Character("1".to_owned()),
        UiKey::Num2 => PageKey::Character("2".to_owned()),
        UiKey::Num3 => PageKey::Character("3".to_owned()),
        UiKey::Num4 => PageKey::Character("4".to_owned()),
        UiKey::Num5 => PageKey::Character("5".to_owned()),
        UiKey::Num6 => PageKey::Character("6".to_owned()),
        UiKey::Num7 => PageKey::Character("7".to_owned()),
        UiKey::Num8 => PageKey::Character("8".to_owned()),
        UiKey::Num9 => PageKey::Character("9".to_owned()),
        _ => PageKey::Named(NamedKey::Unidentified),
    }
}

/// The modifiers as a page sees them, the shortcut key as meta.
pub fn egui_modifiers_to_keyboard_types(m: UiModifiers) -> (r: PageModifiers)
    ensures
        r == (PageModifiers { shift: m.shift, control: m.ctrl, alt: m.alt, meta: m.command }),
{
    PageModifiers { shift: m.shift, control: m.ctrl, alt: m.alt, meta: m.command }
}

/// What the page is told of a key: nothing of one that scrolls.
pub fn forward_key(key: UiKey, pressed: bool, repeat: bool, modifiers: UiModifiers) -> (r: Option<
    KeyboardInput,
>)
    ensures
        r is Some <==> key_scroll(key) is None,
        r matches Some(e) ==> {
            &&& e.pressed == pressed
            &&& match typed_character(key) {
                Some(text) => e.key matches PageKey::Character(c) && c@ == text,
                None => e.key == PageKey::Named(named_key(key)),
            }
            &&& e.code == KeyCode::Unidentified
            &&& e.modifiers == (PageModifiers {
                shift: modifiers.shift,
                control: modifiers.ctrl,
                alt: modifiers.alt,
                meta: modifiers.command,
            })
            &&& e.repeat == repeat
            &&& !e.is_composing
        },
{
    if scroll_for_key(key).is_some() {
        return None;
    }
    Some(
        KeyboardInput {
            pressed,
            key: egui_key_to_keyboard_types(key),
            code: KeyCode::Unidentified,
            modifiers: egui_modifiers_to_keyboard_types(modifiers),
            repeat,
            is_composing: false,
        },
    )
}

/// Whether keys reach the page: the pointer is over it, it was clicked, or it
/// has the focus.
pub fn takes_keys(hovered: bool, clicked: bool, focused: bool) -> (r: bool)
    ensures
        r == (hovered || clicked || focused),
{
    hovered || clicked || focused
}

/// What the pointer did in one frame: whether it is over the view, whether a
/// drag that started there goes on, and what the left button did.
#[derive(Debug, Clone, Copy, PartialEq, Eq, Structural)]
pub struct PointerFrame {
    pub present: bool,
    pub in_bounds: bool,
    pub dragged: bool,
    pub primary_down: bool,
    pub primary_up: bool,
}

/// What the page is told of the pointer in one frame: where it is, and then
/// what the left button did; nothing while it is elsewhere.
pub open spec fn pointer_actions(f: PointerFrame) -> Seq<PointerAction> {
    if f.present && (f.in_bounds || f.dragged) {
        seq![PointerAction::Move] + (if f.primary_down {
            seq![PointerAction::Press(MouseButton::Left)]
        } else {
            Seq::empty()
        }) + (if f.primary_up {
            seq![PointerAction::Release(MouseButton::Left)]
        } else {
            Seq::empty()
        })
    } else {
        Seq::empty()
    }
}

/// What the page is told of the pointer in one frame.
pub fn forward_pointer(f: PointerFrame) -> (actions: Vec<PointerAction>)
    ensures
        actions@ == pointer_actions(f),
{
    let mut actions: Vec<PointerAction> = Vec::new();
    if f.present && (f.in_bounds || f.dragged) {
        actions.push(PointerAction::Move);
        if f.primary_down {
            actions.push(PointerAction::Press(MouseButton::Left));
        }
        if f.primary_up {
            actions.push(PointerAction::Release(MouseButton::Left));
        }
    }
    assert(actions@ == pointer_actions(f));
    actions
}

/// Each kind of source is loaded as what it is.
pub proof fn sources_are_loaded_as_they_are(url: String, html: String)
    ensures
        source_url(WebViewSource::Url(url)) == url_or_blank(url@),
        source_url(WebViewSource::Html(html)) == html_url(html@),
{
}

/// A key with a letter or a digit on it types that letter, in lower case, or that
/// digit; the space bar a space; no other key types anything.
pub proof fn keys_type_what_is_printed_on_them(key: UiKey)
    ensures
        printed_on(key) matches Some(c) ==> typed_character(key) == Some(ascii_lowered(seq![c])),
        key == UiKey::Space ==> typed_character(key) == Some(seq![' ']),
        printed_on(key) is None && key != UiKey::Space ==> typed_character(key) is None,
{
    reveal_strlit(" ");
    assert(" "@ =~= seq![' ']);
    reveal_strlit("a");
    reveal_strlit("b");
    reveal_strlit("c");
    reveal_strlit("d");
    reveal_strlit("e");
    reveal_strlit("f");
    reveal_strlit("g");
    reveal_strlit("h");
    reveal_strlit("i");
    reveal_strlit("j");
    reveal_strlit("k");
    reveal_strlit("l");
    reveal_strlit("m");
    reveal_strlit("n");
    reveal_strlit("o");
    reveal_strlit("p");
    reveal_strlit("q");
    reveal_strlit("r");
    reveal_strlit("s");
    reveal_strlit("t");
    reveal_strlit("u");
    reveal_strlit("v");
    reveal_strlit("w");
    reveal_strlit("x");
    reveal_strlit("y");
    reveal_strlit("z");
    reveal_strlit("0");
    reveal_strlit("1");
    reveal_strlit("2");
    reveal_strlit("3");
    reveal_strlit("4");
    reveal_strlit("5");
    reveal_strlit("6");
    reveal_strlit("7");
    reveal_strlit("8");
    reveal_strlit("9");
    if let Some(c) = printed_on(key) {
        only_capitals_are_lowered(seq![c], 0);
        assert(typed_character(key)->0 =~= ascii_lowered(seq![c]));
    }
}

/// A pointer over the page or in a drag is reported where it is, then what its
/// button did; elsewhere nothing is.
pub proof fn the_page_is_told_what_the_pointer_did(f: PointerFrame)
    ensures
        f.present && (f.in_bounds || f.dragged) ==> {
            &&& pointer_actions(f).len() > 0
            &&& pointer_actions(f)[0] == PointerAction::Move
            &&& f.primary_down ==> pointer_actions(f)[1] == PointerAction::Press(MouseButton::Left)
            &&& f.primary_up ==> pointer_actions(f).last() == PointerAction::Release(
                MouseButton::Left,
            )
            &&& pointer_actions(f).len() == 1 + (if f.primary_down {
                1int
            } else {
                0int
            }) + (if f.primary_up {
                1int
            } else {
                0int
            })
        },
        !f.present || !(f.in_bounds || f.dragged) ==> pointer_actions(f).len() == 0,
{
}

} // verus!
