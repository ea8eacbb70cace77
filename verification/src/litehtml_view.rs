//! The decisions of the web view that draws static HTML into one image: which
//! images are loaded and from where, when the document is laid out again, and
//! how the picture is made opaque. Layout and drawing are the caller's affair.
use vstd::prelude::*;

use crate::data_uri::{data_uri_bytes, decode_data_uri};
use crate::text::{
    decimal, decimal_is_injective, decimal_text, has_prefix, parts_of_a_text_are_found,
    starts_with, texts,
};

verus! {

/// What to load in the web view: only an in-memory HTML string, since this
/// view has no network layer of its own.
#[derive(Debug)]
pub enum WebViewSource {
    Html(String),
}

impl Clone for WebViewSource {
    fn clone(&self) -> (r: Self)
        ensures
            r == *self,
    {
        let WebViewSource::Html(html) = self;
        WebViewSource::Html(html.clone())
    }
}

/// What happened in a web view.
#[derive(Debug)]
pub enum WebViewEvent {
    /// The user clicked a link. This view never navigates, so the host decides
    /// what to do with every one.
    LinkClicked(String),
}

/// One image that a document wants.
#[derive(Debug)]
pub struct ImageRequest {
    /// The image's URL as it stands in the markup; never a `data:` or `cid:`
    /// URL, which are settled without the host.
    pub url: String,
}

/// What is done with one image.
#[derive(Debug)]
pub enum InterceptOutcome {
    /// Do not fetch it; as [`Self::Block`], since this view has no network
    /// layer to fall back to.
    Allow,
    /// Do not fetch it; it is simply left unloaded.
    Block,
    /// Serve these bytes as the image's data, fetched however the host saw fit.
    Serve(Vec<u8>),
}

/// Host-supplied policy for which images a view loads.
pub trait WebViewHandler {
    /// Called for every image the document wants other than `data:` and `cid:`
    /// ones. Not fetched unless the host says otherwise.
    fn intercept(&mut self, request: &ImageRequest) -> (r: InterceptOutcome)
        default_ensures
            r == InterceptOutcome::Allow,
            &*final(self) == &*old(self),
    {
        InterceptOutcome::Allow
    }
}

/// The handler of a view that was given none: no image is ever fetched.
#[derive(Debug)]
pub struct DefaultHandler;

impl WebViewHandler for DefaultHandler {
    fn intercept(&mut self, request: &ImageRequest) -> (r: InterceptOutcome)
        ensures
            r == InterceptOutcome::Allow,
    {
        InterceptOutcome::Allow
    }
}

/// Whether an image's URL is settled without the host: it holds its own data,
/// or names a part of the message that is not there.
pub open spec fn is_local(url: Seq<char>) -> bool {
    has_prefix(url, "data:"@) || has_prefix(url, "cid:"@)
}

/// The bytes of an image that is settled without the host: those a `data:` URL
/// holds, none for a `cid:` URL.
pub open spec fn local_bytes(url: Seq<char>) -> Option<Seq<u8>> {
    if has_prefix(url, "data:"@) {
        data_uri_bytes(url)
    } else {
        None
    }
}

/// The bytes that the host serves.
pub open spec fn served_bytes(outcome: InterceptOutcome) -> Option<Seq<u8>> {
    match outcome {
        InterceptOutcome::Serve(bytes) => Some(bytes@),
        InterceptOutcome::Allow => None,
        InterceptOutcome::Block => None,
    }
}

/// Bytes, by their view.
pub open spec fn bytes_view(r: Option<Vec<u8>>) -> Option<Seq<u8>> {
    match r {
        Some(b) => Some(b@),
        None => None,
    }
}

/// What the host serves.
pub fn served(outcome: InterceptOutcome) -> (r: Option<Vec<u8>>)
    ensures
        bytes_view(r) == served_bytes(outcome),
{
    match outcome {
        InterceptOutcome::Serve(bytes) => Some(bytes),
        InterceptOutcome::Allow => None,
        InterceptOutcome::Block => None,
    }
}

/// Decide how to resolve one image. `data:` URLs are decoded here, a surviving
/// `cid:` URL has no part to show, and only what is left goes to the host.
pub fn resolve_image_bytes<H: WebViewHandler>(url: &str, handler: &mut H) -> (r: Option<Vec<u8>>)
    ensures
        is_local(url@) ==> bytes_view(r) == local_bytes(url@) && *final(handler) == *old(handler),
        !is_local(url@) ==> exists|asked: &mut H, request: &ImageRequest, outcome: InterceptOutcome|
            *asked == *old(handler) && *final(asked) == *final(handler) && request.url@ == url@
                && #[trigger] call_ensures(H::intercept, (asked, request), outcome) && bytes_view(r)
                == served_bytes(outcome),
{
    if starts_with(url, "data:") {
        return decode_data_uri(url);
    }
    if starts_with(url, "cid:") {
        return None;
    }
    let request = ImageRequest { url: url.to_owned() };
    let outcome = handler.intercept(&request);
    served(outcome)
}

/// An image that was resolved.
#[derive(Debug)]
pub struct LoadedImage {
    pub url: String,
    pub bytes: Vec<u8>,
}

/// An image that was resolved, by its views.
pub open spec fn image_view(i: LoadedImage) -> (Seq<char>, Seq<u8>) {
    (i.url@, i.bytes@)
}

/// The images that have bytes, in order, given what each of `urls` was resolved
/// to.
pub open spec fn with_bytes(urls: Seq<Seq<char>>, answers: Seq<Option<Seq<u8>>>) -> Seq<
    (Seq<char>, Seq<u8>),
>
    decreases urls.len(),
{
    if urls.len() == 0 {
        Seq::empty()
    } else {
        let rest = with_bytes(urls.drop_last(), answers.drop_last());
        match answers.last() {
            Some(b) => rest.push((urls.last(), b)),
            None => rest,
        }
    }
}

/// Resolve the images that a document wants, in order, asking the host about
/// those that are not local, one by one. What has no bytes is left out; the
/// document is drawn again if any are left.
pub fn load_pending_images<H: WebViewHandler>(pending: &Vec<String>, handler: &mut H) -> (loaded:
    Vec<LoadedImage>)
    ensures
        exists|answers: Seq<Option<Seq<u8>>>, states: Seq<H>|
            #![trigger with_bytes(texts(pending@), answers), states.last()]
            {
                &&& answers.len() == pending@.len()
                &&& states.len() == pending@.len() + 1
                &&& states[0] == *old(handler)
                &&& states.last() == *final(handler)
                &&& loaded@.map_values(|i: LoadedImage| image_view(i)) == with_bytes(
                    texts(pending@),
                    answers,
                )
                &&& forall|i: int|
                    #![trigger texts(pending@)[i]]
                    0 <= i < pending@.len() ==> {
                        &&& is_local(texts(pending@)[i]) ==> states[i + 1] == states[i]
                            && answers[i] == local_bytes(texts(pending@)[i])
                        &&& !is_local(texts(pending@)[i]) ==> exists|
                            asked: &mut H,
                            request: &ImageRequest,
                            outcome: InterceptOutcome,
                        |
                            *asked == states[i] && *final(asked) == states[i + 1] && request.url@
                                == texts(pending@)[i] && #[trigger] call_ensures(
                                H::intercept,
                                (asked, request),
                                outcome,
                            ) && answers[i] == served_bytes(outcome)
                    }
            },
{
    let ghost urls = texts(pending@);
    let ghost mut answers: Seq<Option<Seq<u8>>> = Seq::empty();
    let ghost mut states: Seq<H> = seq![*handler];
    let mut loaded: Vec<LoadedImage> = Vec::new();
    let mut i: usize = 0;
    assert(urls.take(0) == Seq::<Seq<char>>::empty());
    assert(loaded@.map_values(|i: LoadedImage| image_view(i)) == with_bytes(urls.take(0), answers));
    while i < pending.len()
        invariant
            i <= pending.len(),
            urls == texts(pending@),
            answers.len() == i,
            states.len() == i + 1,
            states[0] == *old(handler),
            states.last() == *handler,
            loaded@.map_values(|i: LoadedImage| image_view(i)) == with_bytes(
                urls.take(i as int),
                answers,
            ),
            forall|k: int|
                #![trigger urls[k]]
                0 <= k < i ==> {
                    &&& is_local(urls[k]) ==> states[k + 1] == states[k] && answers[k]
                        == local_bytes(urls[k])
                    &&& !is_local(urls[k]) ==> exists|
                        asked: &mut H,
                        request: &ImageRequest,
                        outcome: InterceptOutcome,
                    |
                        *asked == states[k] && *final(asked) == states[k + 1] && request.url@
                            == urls[k] && #[trigger] call_ensures(
                            H::intercept,
                            (asked, request),
                            outcome,
                        ) && answers[k] == served_bytes(outcome)
                },
        decreases pending.len() - i,
    {
        let ghost before = loaded@;
        let ghost earlier = answers;
        let ghost reached = states;
        let found = resolve_image_bytes(pending[i].as_str(), handler);
        proof {
            assert(urls[i as int] == pending@[i as int]@);
            assert(urls.take(i + 1).drop_last() == urls.take(i as int));
            assert(urls.take(i + 1).last() == urls[i as int]);
            answers = earlier.push(bytes_view(found));
            states = reached.push(*handler);
            assert(answers.drop_last() == earlier);
            assert(states[i as int] == reached.last());
            assert(states[i + 1] == *handler);
            assert(answers[i as int] == bytes_view(found));
        }
        match found {
            Some(bytes) => {
                loaded.push(LoadedImage { url: pending[i].clone(), bytes });
                assert(loaded@.map_values(|i: LoadedImage| image_view(i)) == before.map_values(
                    |i: LoadedImage| image_view(i),
                ).push((urls[i as int], answers.last()->0)));
            },
            None => {},
        }
        i = i + 1;
    }
    assert(urls.take(urls.len() as int) == urls);
    loaded
}

/// One channel of a pixel over white: what is missing to opaque is white.
pub open spec fn over_white(channel: u8, alpha: u8) -> u8 {
    if channel + (255 - alpha) > 255 {
        255
    } else {
        (channel + (255 - alpha)) as u8
    }
}

/// A byte of a picture of premultiplied RGBA pixels, once the picture stands on
/// opaque white. Bytes that make up no whole pixel stay as they are.
pub open spec fn flattened_byte(pixels: Seq<u8>, i: int) -> u8 {
    let alpha_at = i - i % 4 + 3;
    if alpha_at >= pixels.len() {
        pixels[i]
    } else if i % 4 == 3 {
        255
    } else {
        over_white(pixels[i], pixels[alpha_at])
    }
}

/// Put a picture of premultiplied RGBA pixels on opaque white: the engine
/// paints only where the document says so, and what shows through has to be
/// the colour of paper.
pub fn flatten_onto_white(pixels: &mut Vec<u8>)
    ensures
        final(pixels)@.len() == old(pixels)@.len(),
        forall|i: int|
            0 <= i < final(pixels)@.len() ==> #[trigger] final(pixels)@[i] == flattened_byte(
                old(pixels)@,
                i,
            ),
{
    let n: usize = pixels.len();
    let ghost before = pixels@;
    let mut at: usize = 0;
    while n - at >= 4
        invariant
            at <= n == pixels.len(),
            at % 4 == 0,
            before == old(pixels)@,
            before.len() == n,
            forall|i: int| 0 <= i < at ==> #[trigger] pixels@[i] == flattened_byte(before, i),
            forall|i: int| at <= i < n ==> #[trigger] pixels@[i] == before[i],
        decreases n - at,
    {
        let alpha: u8 = pixels[at + 3];
        assert(alpha == before[at + 3]);
        if alpha != 255 {
            let carry: u8 = 255 - alpha;
            let red: u8 = pixels[at].saturating_add(carry);
            let green: u8 = pixels[at + 1].saturating_add(carry);
            let blue: u8 = pixels[at + 2].saturating_add(carry);
            pixels.set(at, red);
            pixels.set(at + 1, green);
            pixels.set(at + 2, blue);
            pixels.set(at + 3, 255);
        }
        proof {
            assert forall|i: int| 0 <= i < at + 4 implies #[trigger] pixels@[i] == flattened_byte(
                before,
                i,
            ) by {
                if i >= at {
                    assert(i - i % 4 == at);
                }
            }
        }
        at = at + 4;
    }
    proof {
        assert forall|i: int| 0 <= i < n implies #[trigger] pixels@[i] == flattened_byte(
            before,
            i,
        ) by {
            if i >= at {
                assert(i - i % 4 == at);
            }
        }
    }
}

/// Every whole pixel of a flattened picture is opaque, and a pixel that was
/// opaque keeps its colour.
pub proof fn flattened_pictures_are_opaque(pixels: Seq<u8>, pixel: int)
    requires
        0 <= pixel,
        4 * pixel + 3 < pixels.len(),
    ensures
        flattened_byte(pixels, 4 * pixel + 3) == 255,
        pixels[4 * pixel + 3] == 255 ==> forall|c: int|
            0 <= c < 3 ==> #[trigger] flattened_byte(pixels, 4 * pixel + c) == pixels[4 * pixel
                + c],
{
}

/// The next step of drawing a document.
#[derive(Debug, Clone, Copy, PartialEq, Eq, Structural)]
pub enum RenderStep {
    /// Lay the document out to learn its height.
    Measure,
    /// Make the picture that high.
    Resize,
    /// Lay out and draw.
    Draw,
    /// Resolve the images that the drawing asked for.
    LoadImages,
    /// Copy the picture into the texture.
    Upload,
    Done,
}

/// Where the drawing of a document stands. Images can change its height, so a
/// document for which any were loaded is measured and drawn once more, and no
/// more than once.
#[derive(Debug, Clone, Copy, PartialEq, Eq, Structural)]
pub struct Rendering {
    pub step: RenderStep,
    pub images_loaded: bool,
}

/// The step that follows, given whether the images step just loaded any.
pub open spec fn next_rendering(r: Rendering, loaded_any: bool) -> Rendering {
    match r.step {
        RenderStep::Measure => Rendering { step: RenderStep::Resize, ..r },
        RenderStep::Resize => Rendering { step: RenderStep::Draw, ..r },
        RenderStep::Draw => Rendering {
            step: if r.images_loaded {
                RenderStep::Upload
            } else {
                RenderStep::LoadImages
            },
            ..r
        },
        RenderStep::LoadImages => if loaded_any {
            Rendering { step: RenderStep::Measure, images_loaded: true }
        } else {
            Rendering { step: RenderStep::Upload, ..r }
        },
        RenderStep::Upload => Rendering { step: RenderStep::Done, ..r },
        RenderStep::Done => r,
    }
}

impl Rendering {
    /// Start with a measurement.
    pub fn new() -> (r: Self)
        ensures
            r == (Rendering { step: RenderStep::Measure, images_loaded: false }),
    {
        Rendering { step: RenderStep::Measure, images_loaded: false }
    }

    /// The current step is done; `loaded_any` says whether it loaded images.
    pub fn advance(&mut self, loaded_any: bool)
        ensures
            *final(self) == next_rendering(*old(self), loaded_any),
    {
        match self.step {
            RenderStep::Measure => {
                self.step = RenderStep::Resize;
            },
            RenderStep::Resize => {
                self.step = RenderStep::Draw;
            },
            RenderStep::Draw => {
                if self.images_loaded {
                    self.step = RenderStep::Upload;
                } else {
                    self.step = RenderStep::LoadImages;
                }
            },
            RenderStep::LoadImages => {
                if loaded_any {
                    self.step = RenderStep::Measure;
                    self.images_loaded = true;
                } else {
                    self.step = RenderStep::Upload;
                }
            },
            RenderStep::Upload => {
                self.step = RenderStep::Done;
            },
            RenderStep::Done => {},
        }
    }
}

/// How many steps are left at most.
pub open spec fn steps_left(r: Rendering) -> int {
    match r.step {
        RenderStep::Measure => if r.images_loaded {
            4
        } else {
            8
        },
        RenderStep::Resize => if r.images_loaded {
            3
        } else {
            7
        },
        RenderStep::Draw => if r.images_loaded {
            2
        } else {
            6
        },
        RenderStep::LoadImages => 5,
        RenderStep::Upload => 1,
        RenderStep::Done => 0,
    }
}

/// Drawing always ends: every step brings it closer, whatever images load.
pub proof fn rendering_ends(r: Rendering, loaded_any: bool)
    requires
        r.step != RenderStep::Done,
    ensures
        0 <= steps_left(next_rendering(r, loaded_any)) < steps_left(r),
{
}

/// The document of a view, and whether it has to be drawn again.
#[derive(Debug)]
pub struct ViewState {
    pub html: String,
    pub texture_name: String,
    pub dirty: bool,
}

/// The name of the texture of a view.
pub open spec fn texture_name_of(id: u64) -> Seq<char> {
    "egui_litehtml_webview_"@ + decimal(id as nat)
}

/// Two views never share a texture.
pub proof fn texture_names_are_distinct(a: u64, b: u64)
    requires
        a != b,
    ensures
        texture_name_of(a) != texture_name_of(b),
{
    if texture_name_of(a) == texture_name_of(b) {
        let n = "egui_litehtml_webview_"@.len() as int;
        assert(texture_name_of(a).skip(n) == decimal(a as nat));
        assert(texture_name_of(b).skip(n) == decimal(b as nat));
        decimal_is_injective(a as nat, b as nat);
    }
}

/// Makes views: each gets an id of its own.
#[derive(Debug, Clone, Copy, PartialEq, Eq, Structural)]
pub struct WebViewHost {
    pub next_view_id: u64,
}

impl WebViewHost {
    /// No view yet.
    pub fn new() -> (r: Self)
        ensures
            r.next_view_id == 0,
    {
        WebViewHost { next_view_id: 0 }
    }

    /// A new view showing `source`, still to be drawn.
    pub fn new_view(&mut self, source: WebViewSource) -> (r: ViewState)
        requires
            old(self).next_view_id < u64::MAX,
        ensures
            final(self).next_view_id == old(self).next_view_id + 1,
            r.html == source->0,
            r.texture_name@ == texture_name_of(old(self).next_view_id),
            r.dirty,
    {
        let id: u64 = self.next_view_id;
        self.next_view_id = self.next_view_id + 1;
        let mut name = "egui_litehtml_webview_".to_owned();
        name.append(decimal_text(id).as_str());
        match source {
            WebViewSource::Html(html) => ViewState { html, texture_name: name, dirty: true },
        }
    }
}

impl ViewState {
    /// Show another document; it is drawn afresh.
    pub fn load(&mut self, source: WebViewSource)
        ensures
            *final(self) == (ViewState { html: source->0, dirty: true, ..*old(self) }),
    {
        match source {
            WebViewSource::Html(html) => {
                self.html = html;
            },
        }
        self.dirty = true;
    }

    /// Draw the same document afresh, asking for its images again.
    pub fn reload(&mut self)
        ensures
            *final(self) == (ViewState { dirty: true, ..*old(self) }),
    {
        self.dirty = true;
    }

    /// Whether the document has to be laid out before it is shown: it changed,
    /// or its width or the screen's resolution did.
    pub fn needs_layout(&self, width_changed: bool, resolution_changed: bool) -> (r: bool)
        ensures
            r == (self.dirty || width_changed || resolution_changed),
    {
        self.dirty || width_changed || resolution_changed
    }

    /// The document was drawn.
    pub fn on_drawn(&mut self)
        ensures
            *final(self) == (ViewState { dirty: false, ..*old(self) }),
    {
        self.dirty = false;
    }

    /// What a click reports, given the link it landed on.
    pub fn click_events(link: Option<String>) -> (events: Vec<WebViewEvent>)
        ensures
            match link {
                Some(url) => events@ == seq![WebViewEvent::LinkClicked(url)],
                None => events@ == Seq::<WebViewEvent>::empty(),
            },
    {
        let mut events: Vec<WebViewEvent> = Vec::new();
        match link {
            Some(url) => {
                events.push(WebViewEvent::LinkClicked(url));
                assert(events@ == seq![WebViewEvent::LinkClicked(url)]);
            },
            None => {},
        }
        events
    }
}

/// A `data:` URL shows what it holds and a `cid:` URL nothing, without the host;
/// a URL that starts with neither is the host's affair.
pub proof fn only_data_and_cid_urls_are_local(rest: Seq<char>, url: Seq<char>)
    ensures
        is_local("data:"@ + rest),
        local_bytes("data:"@ + rest) == data_uri_bytes("data:"@ + rest),
        is_local("cid:"@ + rest),
        local_bytes("cid:"@ + rest) is None,
        url.len() > 0 && url[0] != 'd' && url[0] != 'c' ==> !is_local(url),
        is_local(url) ==> url == "data:"@ + url.skip(5) || url == "cid:"@ + url.skip(4),
{
    reveal_strlit("data:");
    reveal_strlit("cid:");
    parts_of_a_text_are_found(url, "data:"@, rest);
    parts_of_a_text_are_found(url, "cid:"@, rest);
    if has_prefix("cid:"@ + rest, "data:"@) {
        assert(("cid:"@ + rest).take(5)[0] == 'c');
    }
    if url.len() > 0 && has_prefix(url, "data:"@) {
        assert(url.take(5)[0] == url[0]);
    }
    if url.len() > 0 && has_prefix(url, "cid:"@) {
        assert(url.take(4)[0] == url[0]);
    }
}

/// An image with bytes is handed on with them, behind those before it; one
/// without is left out.
pub proof fn images_with_bytes_are_handed_on(
    urls: Seq<Seq<char>>,
    answers: Seq<Option<Seq<u8>>>,
    url: Seq<char>,
    bytes: Seq<u8>,
)
    requires
        urls.len() == answers.len(),
    ensures
        with_bytes(urls.push(url), answers.push(Some(bytes))) == with_bytes(urls, answers).push(
            (url, bytes),
        ),
        with_bytes(urls.push(url), answers.push(None)) == with_bytes(urls, answers),
        with_bytes(Seq::empty(), Seq::empty()).len() == 0,
{
    assert(urls.push(url).drop_last() == urls);
    assert(answers.push(Some(bytes)).drop_last() == answers);
    assert(answers.push(None::<Seq<u8>>).drop_last() == answers);
}

/// What the host serves is what is drawn; what it lets through or blocks is not
/// fetched here.
pub proof fn only_served_bytes_are_drawn(bytes: Vec<u8>)
    ensures
        served_bytes(InterceptOutcome::Serve(bytes)) == Some(bytes@),
        served_bytes(InterceptOutcome::Allow) is None,
        served_bytes(InterceptOutcome::Block) is None,
{
}

/// A colour channel of a pixel gains just as much white as the pixel lacks to
/// opaque, the same for each channel; what is left over behind the last whole
/// pixel stays.
pub proof fn what_is_missing_is_white(pixels: Seq<u8>, pixel: int, c: int, i: int)
    requires
        0 <= pixel,
        4 * pixel + 3 < pixels.len(),
        0 <= c < 3,
        pixels.len() - pixels.len() % 4 <= i < pixels.len(),
    ensures
        pixels[4 * pixel + c] <= pixels[4 * pixel + 3] ==> flattened_byte(pixels, 4 * pixel + c)
            - pixels[4 * pixel + c] == 255 - pixels[4 * pixel + 3],
        pixels[4 * pixel + c] > pixels[4 * pixel + 3] ==> flattened_byte(pixels, 4 * pixel + c)
            == 255,
        flattened_byte(pixels, i) == pixels[i],
{
}

/// Drawing a document measures it, fits the picture to it, draws it, and asks
/// for its images; with images it measures, fits and draws once more before the
/// picture is shown, without any it is shown at once.
pub proof fn documents_are_drawn_in_order(loaded_any: bool)
    ensures
        ({
            let start = Rendering { step: RenderStep::Measure, images_loaded: false };
            let sized = next_rendering(start, loaded_any);
            let ready = next_rendering(sized, loaded_any);
            let drawn = next_rendering(ready, loaded_any);
            let loaded = next_rendering(drawn, loaded_any);
            &&& sized.step == RenderStep::Resize
            &&& ready.step == RenderStep::Draw
            &&& drawn.step == RenderStep::LoadImages
            &&& !loaded_any ==> loaded.step == RenderStep::Upload && next_rendering(
                loaded,
                loaded_any,
            ).step == RenderStep::Done
            &&& loaded_any ==> {
                let sized_again = next_rendering(loaded, loaded_any);
                let ready_again = next_rendering(sized_again, loaded_any);
                let drawn_again = next_rendering(ready_again, loaded_any);
                &&& loaded.step == RenderStep::Measure
                &&& sized_again.step == RenderStep::Resize
                &&& ready_again.step == RenderStep::Draw
                &&& drawn_again.step == RenderStep::Upload
                &&& next_rendering(drawn_again, loaded_any).step == RenderStep::Done
            }
        }),
        forall|r: Rendering|
            r.step == RenderStep::Done ==> #[trigger] next_rendering(r, loaded_any) == r,
{
}

} // verus!
