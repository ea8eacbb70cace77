//! The decisions of the web view that a full browser engine draws: what it
//! loads, which navigations and resource loads are let through, and what of
//! the user's input reaches the page. Painting and the engine itself are the
//! caller's affair.
use vstd::prelude::*;

use crate::text::{decimal, decimal_is_injective, decimal_text};
use crate::web_url::{
    add_base, escaped_base, html_to_data_url, html_url, text_to_url, url_or_blank, with_base,
};

verus! {

/// What to load in the web view.
#[derive(Debug)]
pub enum WebViewSource {
    /// Navigate to a remote (or local) URL, e.g. `"https://example.com"`.
    Url(String),
    /// Render an in-memory HTML string. It becomes a `data:` URL, so every
    /// relative link and resource in it is dead.
    Html(String),
    /// Render an in-memory HTML string with relative links and resources
    /// resolved against `base`.
    HtmlWithBase { html: String, base: String },
}

impl Clone for WebViewSource {
    fn clone(&self) -> (r: Self)
        ensures
            r == *self,
    {
        match self {
            WebViewSource::Url(url) => WebViewSource::Url(url.clone()),
            WebViewSource::Html(html) => WebViewSource::Html(html.clone()),
            WebViewSource::HtmlWithBase { html, base } => WebViewSource::HtmlWithBase {
                html: html.clone(),
                base: base.clone(),
            },
        }
    }
}

/// Where a page is in its loading.
#[derive(Debug, Clone, Copy, PartialEq, Eq, Structural)]
pub enum LoadStatus {
    Started,
    HeadParsed,
    Complete,
}

/// What happened in a web view.
#[derive(Debug)]
pub enum WebViewEvent {
    /// The user triggered a navigation and the handler denied it. The host
    /// typically opens this externally.
    LinkClicked(String),
    UrlChanged(String),
    TitleChanged(Option<String>),
    StatusTextChanged(Option<String>),
    LoadStatusChanged(LoadStatus),
    /// The page's icon changed; it is read from the view.
    FaviconChanged,
    HistoryChanged {
        /// The full back/forward list, oldest first.
        entries: Vec<String>,
        /// Index of the current entry within `entries`.
        current: usize,
    },
    /// A step back or forward finished.
    TraversalComplete,
}

/// Decision on a navigation past the view's initial load.
#[derive(Debug, Clone, Copy, PartialEq, Eq, Structural)]
pub enum NavigationPolicy {
    /// Let the navigation proceed in this view.
    Allow,
    /// Block it. The view stays where it is; a [`WebViewEvent::LinkClicked`]
    /// is queued so the host can act on it.
    Deny,
}

/// A response to serve in place of a real network fetch.
#[derive(Debug)]
pub struct InterceptedResponse {
    /// HTTP status code, e.g. `200`.
    pub status_code: u16,
    /// The response body.
    pub body: Vec<u8>,
}

impl InterceptedResponse {
    /// A `200 OK` response with `body`.
    pub fn ok(body: Vec<u8>) -> (r: Self)
        ensures
            r == (InterceptedResponse { status_code: 200, body }),
    {
        InterceptedResponse { status_code: 200, body }
    }
}

/// What is done with one resource load.
#[derive(Debug)]
pub enum InterceptOutcome {
    /// Let it load normally, from the network.
    Allow,
    /// Cancel it: the page sees a network error.
    Block,
    /// Serve this response instead of the network.
    Serve(InterceptedResponse),
}

/// One resource that a page wants to load.
#[derive(Debug)]
pub struct WebResourceRequest {
    pub method: String,
    /// The resource's URL, serialized.
    pub url: String,
    pub is_for_main_frame: bool,
    pub is_redirect: bool,
}

/// Host-supplied policy for navigation and resource loading in a web view.
pub trait WebViewHandler {
    /// Called for every navigation after the view's initial load (which is
    /// always allowed: otherwise the view could never load anything). Denied
    /// unless the host says otherwise.
    fn navigation(&mut self, url: &str) -> (r: NavigationPolicy)
        default_ensures
            r == NavigationPolicy::Deny,
            &*final(self) == &*old(self),
    {
        NavigationPolicy::Deny
    }

    /// Called for every resource load the view makes. Let through unless the
    /// host says otherwise.
    fn intercept(&mut self, request: &WebResourceRequest) -> (r: InterceptOutcome)
        default_ensures
            r == InterceptOutcome::Allow,
            &*final(self) == &*old(self),
    {
        InterceptOutcome::Allow
    }
}

/// The handler of a view that was given none: every later navigation is
/// denied, every resource is let through.
#[derive(Debug)]
pub struct DefaultHandler;

impl WebViewHandler for DefaultHandler {
    fn navigation(&mut self, url: &str) -> (r: NavigationPolicy)
        ensures
            r == NavigationPolicy::Deny,
    {
        NavigationPolicy::Deny
    }

    fn intercept(&mut self, request: &WebResourceRequest) -> (r: InterceptOutcome)
        ensures
            r == InterceptOutcome::Allow,
    {
        InterceptOutcome::Allow
    }
}

/// The URL that the engine loads for a source.
pub open spec fn source_url(source: WebViewSource) -> Seq<char> {
    match source {
        WebViewSource::Url(u) => url_or_blank(u@),
        WebViewSource::Html(html) => html_url(html@),
        WebViewSource::HtmlWithBase { html, base } => html_url(with_base(html@, base@)),
    }
}

/// The URL that the engine loads for a source: a blank page where the source
/// names no URL.
pub fn source_to_url(source: &WebViewSource) -> (r: String)
    ensures
        r@ == source_url(*source),
{
    match source {
        WebViewSource::Url(u) => text_to_url(u.as_str()),
        WebViewSource::Html(html) => html_to_data_url(html.as_str()),
        WebViewSource::HtmlWithBase { html, base } => html_to_data_url(
            add_base(html.as_str(), base.as_str()).as_str(),
        ),
    }
}

/// Lets the first load of a view through and asks the handler about every
/// navigation after it.
#[derive(Debug, Clone, Copy, PartialEq, Eq, Structural)]
pub struct NavigationGate {
    pub initial_load_done: bool,
}

/// The events that a navigation adds once the handler gave `policy`: a denied
/// one is reported as a clicked link.
pub open spec fn is_after_policy(
    before: Seq<WebViewEvent>,
    policy: NavigationPolicy,
    url: Seq<char>,
    after: Seq<WebViewEvent>,
) -> bool {
    match policy {
        NavigationPolicy::Allow => after == before,
        NavigationPolicy::Deny => {
            &&& after.len() == before.len() + 1
            &&& after.drop_last() == before
            &&& after.last() matches WebViewEvent::LinkClicked(u) && u@ == url
        },
    }
}

/// Queue what a navigation reports once the handler gave `policy`.
pub fn apply_policy(policy: NavigationPolicy, url: &str, events: &mut Vec<WebViewEvent>)
    ensures
        is_after_policy(old(events)@, policy, url@, final(events)@),
{
    match policy {
        NavigationPolicy::Allow => {},
        NavigationPolicy::Deny => {
            events.push(WebViewEvent::LinkClicked(url.to_owned()));
            assert(events@.drop_last() == old(events)@);
        },
    }
}

impl NavigationGate {
    /// A view that has loaded nothing yet.
    pub fn new() -> (r: Self)
        ensures
            !r.initial_load_done,
    {
        NavigationGate { initial_load_done: false }
    }

    /// Decide on a navigation, and queue the report of a denied one. The first
    /// one is allowed without asking the handler.
    pub fn request_navigation<H: WebViewHandler>(
        &mut self,
        handler: &mut H,
        url: &str,
        events: &mut Vec<WebViewEvent>,
    ) -> (r: NavigationPolicy)
        ensures
            final(self).initial_load_done,
            !old(self).initial_load_done ==> r == NavigationPolicy::Allow && *final(handler)
                == *old(handler),
            old(self).initial_load_done ==> exists|asked: &mut H|
                *asked == *old(handler) && *final(asked) == *final(handler) && #[trigger] call_ensures(
                    H::navigation,
                    (asked, url),
                    r,
                ),
            is_after_policy(old(events)@, r, url@, final(events)@),
    {
        if self.initial_load_done {
            let policy = handler.navigation(url);
            apply_policy(policy, url, events);
            policy
        } else {
            self.initial_load_done = true;
            NavigationPolicy::Allow
        }
    }
}

/// A denied navigation leaves exactly one report, behind what was queued
/// before; an allowed one leaves none.
pub proof fn denied_navigations_are_reported_once(
    before: Seq<WebViewEvent>,
    policy: NavigationPolicy,
    url: Seq<char>,
    after: Seq<WebViewEvent>,
)
    requires
        is_after_policy(before, policy, url, after),
    ensures
        policy == NavigationPolicy::Allow <==> after.len() == before.len(),
        after.take(before.len() as int) == before,
{
}

/// Hand out the events that were queued since the last time, each once and in
/// order; the queue is empty then.
pub fn drain_events(events: &mut Vec<WebViewEvent>) -> (r: Vec<WebViewEvent>)
    ensures
        r@ == old(events)@,
        final(events)@.len() == 0,
{
    let mut queued: Vec<WebViewEvent> = Vec::new();
    core::mem::swap(&mut queued, events);
    queued
}

/// What the engine is told to do with a resource load.
#[derive(Debug)]
pub enum ResourceAction {
    /// Load it from the network.
    PassThrough,
    /// Fail it as a network error.
    Cancel,
    /// Answer it with this status and body.
    Respond { status: u16, body: Vec<u8> },
}

/// `http::StatusCode::from_u16`: the code where it has three digits, nothing
/// otherwise.
#[verifier::external_body]
fn status_code(code: u16) -> (r: Option<u16>)
    ensures
        r == if 100 <= code <= 999 {
            Some(code)
        } else {
            None
        },
{
    http::StatusCode::from_u16(code).ok().map(|s| s.as_u16())
}

/// The status that a response is served with: its own where that is a valid
/// one, `200` otherwise.
pub open spec fn served_status(code: u16) -> u16 {
    if 100 <= code <= 999 {
        code
    } else {
        200
    }
}

/// What the engine is told to do, once the handler gave `outcome`.
pub fn resource_action(outcome: InterceptOutcome) -> (r: ResourceAction)
    ensures
        r == match outcome {
            InterceptOutcome::Allow => ResourceAction::PassThrough,
            InterceptOutcome::Block => ResourceAction::Cancel,
            InterceptOutcome::Serve(response) => ResourceAction::Respond {
                status: served_status(response.status_code),
                body: response.body,
            },
        },
{
    match outcome {
        InterceptOutcome::Allow => ResourceAction::PassThrough,
        InterceptOutcome::Block => ResourceAction::Cancel,
        InterceptOutcome::Serve(response) => {
            let status: u16 = match status_code(response.status_code) {
                Some(s) => s,
                None => 200,
            };
            ResourceAction::Respond { status, body: response.body }
        },
    }
}

/// Ask the handler about a resource load; returns what the engine is told to
/// do.
pub fn load_web_resource<H: WebViewHandler>(
    handler: &mut H,
    request: &WebResourceRequest,
) -> (r: ResourceAction)
    ensures
        exists|asked: &mut H, outcome: InterceptOutcome|
            *asked == *old(handler) && *final(asked) == *final(handler) && #[trigger] call_ensures(
                H::intercept,
                (asked, request),
                outcome,
            ) && r == match outcome {
                InterceptOutcome::Allow => ResourceAction::PassThrough,
                InterceptOutcome::Block => ResourceAction::Cancel,
                InterceptOutcome::Serve(response) => ResourceAction::Respond {
                    status: served_status(response.status_code),
                    body: response.body,
                },
            },
{
    let outcome = handler.intercept(request);
    resource_action(outcome)
}

/// A value that a script in the page returned; `N` is the type of its numbers.
#[derive(Debug)]
pub enum JsValue<N> {
    Undefined,
    Null,
    Boolean(bool),
    Number(N),
    Text(String),
    Array(Vec<JsValue<N>>),
    /// An object, element, frame or window.
    Other,
}

/// Where a page is scrolled to: how far from its top, how tall it is, and how
/// much of it is visible.
#[derive(Debug, PartialEq)]
pub struct ScrollInfo<N> {
    pub scroll_top: N,
    pub scroll_height: N,
    pub client_height: N,
}

/// The script that a page's scroll position is read with.
pub const SCROLL_INFO_SCRIPT: &'static str =
    "(() => { const el = document.scrollingElement || document.documentElement; if (!el) { return [0, 0, 0]; } return [el.scrollTop, el.scrollHeight, el.clientHeight]; })()";

/// The scroll position in a script's answer: an array of exactly three numbers.
pub open spec fn scroll_info_in<N>(value: JsValue<N>) -> Option<ScrollInfo<N>> {
    match value {
        JsValue::Array(items) => if items@.len() == 3 {
            match (items@[0], items@[1], items@[2]) {
                (JsValue::Number(top), JsValue::Number(height), JsValue::Number(client)) => Some(
                    ScrollInfo { scroll_top: top, scroll_height: height, client_height: client },
                ),
                _ => None,
            }
        } else {
            None
        },
        _ => None,
    }
}

/// The scroll position in a script's answer; nothing for any other shape, so
/// that a page's error leaves the last known position alone.
pub fn js_value_to_scroll_info<N: Copy>(value: &JsValue<N>) -> (r: Option<ScrollInfo<N>>)
    ensures
        r == scroll_info_in(*value),
{
    match value {
        JsValue::Array(items) => {
            if items.len() != 3 {
                return None;
            }
            match (&items[0], &items[1], &items[2]) {
                (JsValue::Number(top), JsValue::Number(height), JsValue::Number(client)) => Some(
                    ScrollInfo {
                        scroll_top: *top,
                        scroll_height: *height,
                        client_height: *client,
                    },
                ),
                _ => None,
            }
        },
        _ => None,
    }
}

/// Milliseconds between two reads of the scroll position.
pub const SCROLL_POLL_INTERVAL: u64 = 150;

/// Whether the scroll position is to be read again, given the milliseconds
/// since it last was.
pub fn scroll_poll_due(elapsed: Option<u64>) -> (r: bool)
    ensures
        r == match elapsed {
            None => true,
            Some(ms) => ms >= SCROLL_POLL_INTERVAL,
        },
{
    match elapsed {
        None => true,
        Some(ms) => ms >= SCROLL_POLL_INTERVAL,
    }
}

/// How dark the scrollbar's thumb is drawn.
pub fn thumb_alpha(dragging: bool, hovered: bool) -> (r: u8)
    ensures
        dragging ==> r == 160,
        !dragging && hovered ==> r == 130,
        !dragging && !hovered ==> r == 90,
{
    if dragging {
        160
    } else if hovered {
        130
    } else {
        90
    }
}

/// The surface that a view is drawn on.
#[derive(Debug, Clone, Copy, PartialEq, Eq, Structural)]
pub struct ViewSurface {
    /// Size in physical pixels.
    pub width: u32,
    pub height: u32,
    /// Whether the engine painted a frame that was not read yet. A new view
    /// starts with one, so that its first frame is read.
    pub frame_dirty: bool,
    pub has_texture: bool,
}

/// What is done with the texture after a frame was read.
#[derive(Debug, Clone, Copy, PartialEq, Eq, Structural)]
pub enum TextureAction {
    /// Nothing: there was no image, or an empty one.
    Keep,
    Create,
    Update,
}

impl ViewSurface {
    /// The surface of a new view.
    pub fn new(width: u32, height: u32) -> (r: Self)
        ensures
            r == (ViewSurface { width, height, frame_dirty: true, has_texture: false }),
    {
        ViewSurface { width, height, frame_dirty: true, has_texture: false }
    }

    /// The engine painted a frame.
    pub fn on_frame_ready(&mut self)
        ensures
            *final(self) == (ViewSurface { frame_dirty: true, ..*old(self) }),
    {
        self.frame_dirty = true;
    }

    /// Take the size that the view is shown at; returns whether the engine has
    /// to be told.
    pub fn fit(&mut self, width: u32, height: u32) -> (resize: bool)
        ensures
            resize == (width != old(self).width || height != old(self).height),
            *final(self) == (ViewSurface { width, height, ..*old(self) }),
    {
        let resize = width != self.width || height != self.height;
        self.width = width;
        self.height = height;
        resize
    }

    /// Take the frame that was read, by its size if there was one. One texture
    /// is used for the life of the view.
    pub fn on_frame_read(&mut self, image: Option<(usize, usize)>) -> (action: TextureAction)
        ensures
            final(self).frame_dirty == false,
            final(self).width == old(self).width,
            final(self).height == old(self).height,
            match image {
                Some((w, h)) => if w > 0 && h > 0 {
                    &&& final(self).has_texture
                    &&& action == if old(self).has_texture {
                        TextureAction::Update
                    } else {
                        TextureAction::Create
                    }
                } else {
                    final(self).has_texture == old(self).has_texture && action
                        == TextureAction::Keep
                },
                None => final(self).has_texture == old(self).has_texture && action
                    == TextureAction::Keep,
            },
    {
        self.frame_dirty = false;
        match image {
            Some((w, h)) => {
                if w > 0 && h > 0 {
                    if self.has_texture {
                        TextureAction::Update
                    } else {
                        self.has_texture = true;
                        TextureAction::Create
                    }
                } else {
                    TextureAction::Keep
                }
            },
            None => TextureAction::Keep,
        }
    }
}

/// A mouse button.
#[derive(Debug, Clone, Copy, PartialEq, Eq, Structural)]
pub enum MouseButton {
    Left,
    Right,
    Middle,
}

/// Which buttons changed in one frame.
#[derive(Debug, Clone, Copy, PartialEq, Eq, Structural)]
pub struct Buttons {
    pub left: bool,
    pub right: bool,
    pub middle: bool,
}

/// What the pointer did in one frame.
#[derive(Debug, Clone, Copy, PartialEq, Eq, Structural)]
pub struct PointerFrame {
    /// Whether the pointer is anywhere at all.
    pub present: bool,
    /// Whether it is over the view.
    pub in_bounds: bool,
    /// Whether a drag that started in the view goes on.
    pub dragged: bool,
    pub scrollbar_dragging: bool,
    pub over_scrollbar: bool,
    /// Buttons that went down.
    pub down: Buttons,
    /// Buttons that went up.
    pub up: Buttons,
    /// Whether it is elsewhere than when the page was last told.
    pub moved: bool,
    /// Whether the page was told a position and not that the pointer left.
    pub known_to_page: bool,
}

/// What the page is told of the pointer.
#[derive(Debug, Clone, Copy, PartialEq, Eq, Structural)]
pub enum PointerAction {
    /// Give the view the focus.
    Focus,
    Press(MouseButton),
    Release(MouseButton),
    /// The pointer is where it is now; the page was told.
    Move,
    /// The pointer left; the page knows no position any more.
    Leave,
}

/// Whether any button is in the set.
pub open spec fn any_button(b: Buttons) -> bool {
    b.left || b.right || b.middle
}

/// The buttons of a set, left, right, middle.
pub open spec fn buttons_in(b: Buttons) -> Seq<MouseButton> {
    (if b.left {
        seq![MouseButton::Left]
    } else {
        Seq::empty()
    }) + (if b.right {
        seq![MouseButton::Right]
    } else {
        Seq::empty()
    }) + (if b.middle {
        seq![MouseButton::Middle]
    } else {
        Seq::empty()
    })
}

/// Whether clicks reach the page: over the view or in a drag, and not on the
/// scrollbar.
pub open spec fn clicks_pass(f: PointerFrame) -> bool {
    (f.in_bounds || f.dragged) && !f.scrollbar_dragging && !f.over_scrollbar
}

/// Whether moves reach the page: as clicks, and to the end of a drag.
pub open spec fn moves_pass(f: PointerFrame) -> bool {
    (f.in_bounds || f.dragged || f.up.left) && !f.scrollbar_dragging && !f.over_scrollbar
}

/// What the page is told of the pointer in one frame: presses and releases
/// first, so that a press is seen before the move that drags.
pub open spec fn pointer_actions(f: PointerFrame) -> Seq<PointerAction> {
    if f.present {
        (if clicks_pass(f) {
            (if any_button(f.down) {
                seq![PointerAction::Focus]
            } else {
                Seq::empty()
            }) + buttons_in(f.down).map_values(|b: MouseButton| PointerAction::Press(b))
                + buttons_in(f.up).map_values(|b: MouseButton| PointerAction::Release(b))
        } else {
            Seq::empty()
        }) + (if moves_pass(f) && f.moved {
            seq![PointerAction::Move]
        } else {
            Seq::empty()
        })
    } else if f.known_to_page {
        seq![PointerAction::Leave]
    } else {
        Seq::empty()
    }
}

fn push_presses(actions: &mut Vec<PointerAction>, b: Buttons)
    ensures
        final(actions)@ == old(actions)@ + buttons_in(b).map_values(
            |b: MouseButton| PointerAction::Press(b),
        ),
{
    if b.left {
        actions.push(PointerAction::Press(MouseButton::Left));
    }
    if b.right {
        actions.push(PointerAction::Press(MouseButton::Right));
    }
    if b.middle {
        actions.push(PointerAction::Press(MouseButton::Middle));
    }
    assert(actions@ == old(actions)@ + buttons_in(b).map_values(
        |b: MouseButton| PointerAction::Press(b),
    ));
}

fn push_releases(actions: &mut Vec<PointerAction>, b: Buttons)
    ensures
        final(actions)@ == old(actions)@ + buttons_in(b).map_values(
            |b: MouseButton| PointerAction::Release(b),
        ),
{
    if b.left {
        actions.push(PointerAction::Release(MouseButton::Left));
    }
    if b.right {
        actions.push(PointerAction::Release(MouseButton::Right));
    }
    if b.middle {
        actions.push(PointerAction::Release(MouseButton::Middle));
    }
    assert(actions@ == old(actions)@ + buttons_in(b).map_values(
        |b: MouseButton| PointerAction::Release(b),
    ));
}

/// What the page is told of the pointer in one frame.
pub fn forward_pointer(f: PointerFrame) -> (actions: Vec<PointerAction>)
    ensures
        actions@ == pointer_actions(f),
{
    let mut actions: Vec<PointerAction> = Vec::new();
    if !f.present {
        if f.known_to_page {
            actions.push(PointerAction::Leave);
        }
        assert(actions@ == pointer_actions(f));
        return actions;
    }
    let free = !f.scrollbar_dragging && !f.over_scrollbar;
    if (f.in_bounds || f.dragged) && free {
        if f.down.left || f.down.right || f.down.middle {
            actions.push(PointerAction::Focus);
        }
        push_presses(&mut actions, f.down);
        push_releases(&mut actions, f.up);
    }
    if (f.in_bounds || f.dragged || f.up.left) && free && f.moved {
        actions.push(PointerAction::Move);
    }
    assert(actions@ == pointer_actions(f));
    actions
}

/// A pointer on the scrollbar, or one that drags it, never reaches the page
/// underneath.
pub proof fn scrollbar_hides_the_page(f: PointerFrame)
    requires
        f.present,
        f.scrollbar_dragging || f.over_scrollbar,
    ensures
        pointer_actions(f).len() == 0,
{
}

/// A press always gives the view the focus first.
pub proof fn presses_focus_first(f: PointerFrame, b: MouseButton)
    requires
        pointer_actions(f).contains(PointerAction::Press(b)),
    ensures
        pointer_actions(f)[0] == PointerAction::Focus,
{
    let pressed = buttons_in(f.down);
    let presses = pressed.map_values(|b: MouseButton| PointerAction::Press(b));
    let releases = buttons_in(f.up).map_values(|b: MouseButton| PointerAction::Release(b));
    if !any_button(f.down) {
        assert(pressed == Seq::<MouseButton>::empty());
        let k = choose|k: int|
            0 <= k < pointer_actions(f).len() && pointer_actions(f)[k] == PointerAction::Press(b);
        assert(pointer_actions(f)[k] == PointerAction::Press(b));
        if k < releases.len() && clicks_pass(f) {
            assert(pointer_actions(f)[k] == releases[k]);
        }
    }
}

/// The source of view ids; every view gets one of its own.
#[derive(Debug, Clone, Copy, PartialEq, Eq, Structural)]
pub struct ViewIds {
    pub next: u64,
}

impl ViewIds {
    /// No view yet.
    pub fn new() -> (r: Self)
        ensures
            r.next == 0,
    {
        ViewIds { next: 0 }
    }

    /// The id of the next view.
    pub fn take(&mut self) -> (id: u64)
        requires
            old(self).next < u64::MAX,
        ensures
            id == old(self).next,
            final(self).next == old(self).next + 1,
    {
        let id: u64 = self.next;
        self.next = self.next + 1;
        id
    }
}

/// The name of the texture of a view.
pub open spec fn texture_name_of(id: u64) -> Seq<char> {
    "egui_servo_webview_"@ + decimal(id as nat)
}

/// The name of the texture of a view.
pub fn texture_name(id: u64) -> (r: String)
    ensures
        r@ == texture_name_of(id),
{
    let mut s = "egui_servo_webview_".to_owned();
    s.append(decimal_text(id).as_str());
    s
}

/// Two views never share a texture.
pub proof fn texture_names_are_distinct(a: u64, b: u64)
    requires
        a != b,
    ensures
        texture_name_of(a) != texture_name_of(b),
{
    if texture_name_of(a) == texture_name_of(b) {
        let n = "egui_servo_webview_"@.len() as int;
        assert(texture_name_of(a).skip(n) == decimal(a as nat));
        assert(texture_name_of(b).skip(n) == decimal(b as nat));
        decimal_is_injective(a as nat, b as nat);
    }
}

/// Each kind of source is loaded as what it is: a URL as that URL, HTML as the
/// URL that holds it, and HTML with a base as the URL of the page under a
/// `<base>` element.
pub proof fn sources_are_loaded_as_they_are(url: String, html: String, base: String)
    ensures
        source_url(WebViewSource::Url(url)) == url_or_blank(url@),
        source_url(WebViewSource::Html(html)) == html_url(html@),
        source_url(WebViewSource::HtmlWithBase { html, base }) == html_url(
            "<base href=\""@ + escaped_base(base@) + "\">"@ + html@,
        ),
{
}

/// A denied navigation is reported with its URL, behind what was queued before.
pub proof fn denied_navigations_name_their_url(
    before: Seq<WebViewEvent>,
    url: Seq<char>,
    after: Seq<WebViewEvent>,
)
    requires
        is_after_policy(before, NavigationPolicy::Deny, url, after),
    ensures
        after.len() == before.len() + 1,
        after.last() matches WebViewEvent::LinkClicked(u) && u@ == url,
        forall|i: int| 0 <= i < before.len() ==> after[i] == #[trigger] before[i],
{
    assert forall|i: int| 0 <= i < before.len() implies after[i] == #[trigger] before[i] by {
        assert(after.drop_last()[i] == before[i]);
    }
}

/// A response is served with its own status where that has three digits, and as
/// a plain success otherwise.
pub proof fn valid_statuses_are_kept(code: u16)
    ensures
        100 <= code && code <= 999 ==> served_status(code) == code,
        code < 100 || code > 999 ==> served_status(code) == 200,
{
}

/// A scroll position is read from three numbers, in this order: how far from the
/// top, how tall, how much is visible. Any other answer says nothing.
pub proof fn scroll_positions_are_three_numbers<N>(items: Vec<JsValue<N>>, a: N, b: N, c: N)
    ensures
        items@ == seq![JsValue::Number(a), JsValue::Number(b), JsValue::Number(c)] ==> (
        scroll_info_in(JsValue::Array(items)) matches Some(s) && s.scroll_top == a
            && s.scroll_height == b && s.client_height == c),
        items@.len() != 3 ==> scroll_info_in(JsValue::Array(items)) is None,
        items@.len() == 3 && !(items@[0] is Number && items@[1] is Number && items@[2] is Number)
            ==> scroll_info_in(JsValue::Array(items)) is None,
        scroll_info_in(JsValue::<N>::Null) is None,
        scroll_info_in(JsValue::<N>::Undefined) is None,
        scroll_info_in(JsValue::Number(a)) is None,
{
}

/// Whether a button is in a set.
pub open spec fn holds_button(b: Buttons, button: MouseButton) -> bool {
    match button {
        MouseButton::Left => b.left,
        MouseButton::Right => b.right,
        MouseButton::Middle => b.middle,
    }
}

/// A pointer over the page or in a drag that is not on the scrollbar has every
/// press and every release reported, and a move, last, where it moved. Elsewhere
/// no press is reported, and a move only at the end of a drag. A pointer that is
/// gone is reported to have left, once.
pub proof fn the_page_is_told_what_the_pointer_did(f: PointerFrame, button: MouseButton)
    ensures
        f.present && (f.in_bounds || f.dragged) && !f.scrollbar_dragging && !f.over_scrollbar ==> {
            &&& pointer_actions(f).contains(PointerAction::Press(button)) <==> holds_button(
                f.down,
                button,
            )
            &&& pointer_actions(f).contains(PointerAction::Release(button)) <==> holds_button(
                f.up,
                button,
            )
            &&& pointer_actions(f).contains(PointerAction::Move) <==> f.moved
            &&& f.moved ==> pointer_actions(f).last() == PointerAction::Move
            &&& !pointer_actions(f).contains(PointerAction::Leave)
        },
        f.present && !f.in_bounds && !f.dragged && !f.scrollbar_dragging && !f.over_scrollbar
            ==> pointer_actions(f) == (if f.up.left && f.moved {
            seq![PointerAction::Move]
        } else {
            Seq::empty()
        }),
        !f.present && f.known_to_page ==> pointer_actions(f) == seq![PointerAction::Leave],
        !f.present && !f.known_to_page ==> pointer_actions(f).len() == 0,
{
    let focus = if any_button(f.down) {
        seq![PointerAction::Focus]
    } else {
        Seq::empty()
    };
    let presses = buttons_in(f.down).map_values(|b: MouseButton| PointerAction::Press(b));
    let releases = buttons_in(f.up).map_values(|b: MouseButton| PointerAction::Release(b));
    let moves = if moves_pass(f) && f.moved {
        seq![PointerAction::Move]
    } else {
        Seq::empty()
    };
    if f.present && clicks_pass(f) {
        let all = focus + presses + releases + moves;
        assert(pointer_actions(f) == all);
        lemma_buttons(f.down, button);
        lemma_buttons(f.up, button);
        lemma_either_part(focus, presses, PointerAction::Press(button));
        lemma_either_part(focus + presses, releases, PointerAction::Press(button));
        lemma_either_part(focus + presses + releases, moves, PointerAction::Press(button));
        lemma_either_part(focus, presses, PointerAction::Release(button));
        lemma_either_part(focus + presses, releases, PointerAction::Release(button));
        lemma_either_part(focus + presses + releases, moves, PointerAction::Release(button));
        lemma_either_part(focus, presses, PointerAction::Move);
        lemma_either_part(focus + presses, releases, PointerAction::Move);
        lemma_either_part(focus + presses + releases, moves, PointerAction::Move);
        lemma_either_part(focus, presses, PointerAction::Leave);
        lemma_either_part(focus + presses, releases, PointerAction::Leave);
        lemma_either_part(focus + presses + releases, moves, PointerAction::Leave);
        if f.moved {
            assert(moves[0] == PointerAction::Move);
        }
    } else if f.present {
        assert(pointer_actions(f) == moves);
    }
}

proof fn lemma_either_part(a: Seq<PointerAction>, b: Seq<PointerAction>, x: PointerAction)
    ensures
        (a + b).contains(x) <==> a.contains(x) || b.contains(x),
{
    if a.contains(x) {
        let i = choose|i: int| 0 <= i < a.len() && a[i] == x;
        assert((a + b)[i] == x);
    }
    if b.contains(x) {
        let i = choose|i: int| 0 <= i < b.len() && b[i] == x;
        assert((a + b)[a.len() + i] == x);
    }
    if (a + b).contains(x) {
        let i = choose|i: int| 0 <= i < (a + b).len() && (a + b)[i] == x;
        if i < a.len() {
            assert(a[i] == x);
        } else {
            assert(b[i - a.len()] == x);
        }
    }
}

proof fn lemma_buttons(b: Buttons, button: MouseButton)
    ensures
        buttons_in(b).map_values(|b: MouseButton| PointerAction::Press(b)).contains(
            PointerAction::Press(button),
        ) <==> holds_button(b, button),
        buttons_in(b).map_values(|b: MouseButton| PointerAction::Release(b)).contains(
            PointerAction::Release(button),
        ) <==> holds_button(b, button),
{
    let all = buttons_in(b);
    let presses = all.map_values(|b: MouseButton| PointerAction::Press(b));
    let releases = all.map_values(|b: MouseButton| PointerAction::Release(b));
    if holds_button(b, button) {
        let at: int = match button {
            MouseButton::Left => 0,
            MouseButton::Right => if b.left {
                1
            } else {
                0
            },
            MouseButton::Middle => all.len() - 1,
        };
        assert(all[at] == button);
        assert(presses[at] == PointerAction::Press(button));
        assert(releases[at] == PointerAction::Release(button));
    }
    if presses.contains(PointerAction::Press(button)) {
        let i = choose|i: int|
            0 <= i < presses.len() && presses[i] == PointerAction::Press(button);
        assert(all[i] == button);
    }
    if releases.contains(PointerAction::Release(button)) {
        let i = choose|i: int|
            0 <= i < releases.len() && releases[i] == PointerAction::Release(button);
        assert(all[i] == button);
    }
}

} // verus!
