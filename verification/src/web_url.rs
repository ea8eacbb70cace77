//! What a web view loads, as a URL.
use vstd::prelude::*;
use vstd::utf8::{
    decode_utf8, encode_utf8, encode_utf8_decode_utf8, encode_utf8_valid_utf8, valid_utf8,
};

use crate::data_uri::{base64_bytes, base64_encode, base64_text, is_base64_char};
use crate::text::{has_prefix, replace_text, replaced, replacing_goes_by_character};

verus! {

/// What the URL standard makes of a text: the URL, serialized; nothing where
/// the text is no absolute URL.
pub uninterp spec fn parsed_url(text: Seq<char>) -> Option<Seq<char>>;

/// What every URL of in-memory HTML starts with.
pub const HTML_URL_PREFIX: &'static str = "data:text/html;charset=utf-8;base64,";

/// Whether `text` is the URL of in-memory HTML: its prefix, and base64.
pub open spec fn is_html_url(text: Seq<char>) -> bool {
    &&& has_prefix(text, HTML_URL_PREFIX@)
    &&& forall|i: int| HTML_URL_PREFIX@.len() <= i < text.len() ==> is_base64_char(#[trigger] text[i])
}

/// `url::Url::parse`, and `Url::to_string` on what it finds: the normalized
/// URL, `None` where the text does not parse. `about:blank` parses to itself,
/// and so does base64 in a `data:` URL: its characters are kept as they are,
/// and none of them ends the path.
#[verifier::external_body]
pub(crate) fn parse_url(text: &str) -> (r: Option<String>)
    ensures
        match r {
            Some(u) => parsed_url(text@) == Some(u@),
            None => parsed_url(text@) is None,
        },
        text@ == "about:blank"@ ==> r is Some && r->0@ == text@,
        is_html_url(text@) ==> r is Some && r->0@ == text@,
{
    url::Url::parse(text).ok().map(|u| u.to_string())
}

/// The URL of in-memory HTML.
pub open spec fn html_url(html: Seq<char>) -> Seq<char> {
    HTML_URL_PREFIX@ + base64_text(encode_utf8(html))
}

/// The URL that a text names, or a blank page where it names none.
pub open spec fn url_or_blank(text: Seq<char>) -> Seq<char> {
    match parsed_url(text) {
        Some(u) => u,
        None => "about:blank"@,
    }
}

/// What is shown for a text that should name a URL, once the parser gave
/// `parsed` for it.
pub fn or_blank(parsed: Option<String>) -> (r: String)
    ensures
        r@ == match parsed {
            Some(u) => u@,
            None => "about:blank"@,
        },
{
    match parsed {
        Some(u) => u,
        None => "about:blank".to_owned(),
    }
}

/// The URL that a text names, or a blank page where it names none.
pub fn text_to_url(text: &str) -> (r: String)
    ensures
        r@ == url_or_blank(text@),
{
    or_blank(parse_url(text))
}

/// Whether the HTML survives the way through its URL: what follows the prefix
/// decodes, as base64 and then as UTF-8, to the HTML itself.
pub open spec fn holds_html(url: Seq<char>, html: Seq<char>) -> bool {
    &&& has_prefix(url, HTML_URL_PREFIX@)
    &&& base64_bytes(url.skip(HTML_URL_PREFIX@.len() as int)) matches Some(bytes) && valid_utf8(
        bytes,
    ) && decode_utf8(bytes) == html
}

/// In-memory HTML as a URL, so that no server is needed. The HTML can be read
/// back from it.
pub fn html_to_data_url(html: &str) -> (r: String)
    ensures
        r@ == html_url(html@),
        holds_html(r@, html@),
{
    let b64 = base64_encode(html.as_bytes());
    let mut s = HTML_URL_PREFIX.to_owned();
    s.append(b64.as_str());
    proof {
        assert(s@.take(HTML_URL_PREFIX@.len() as int) == HTML_URL_PREFIX@);
        assert forall|i: int| HTML_URL_PREFIX@.len() <= i < s@.len() implies is_base64_char(
            #[trigger] s@[i],
        ) by {
            assert(s@[i] == b64@[i - HTML_URL_PREFIX@.len()]);
        }
        assert(s@.skip(HTML_URL_PREFIX@.len() as int) == b64@);
        encode_utf8_valid_utf8(html@);
        encode_utf8_decode_utf8(html@);
    }
    match parse_url(s.as_str()) {
        Some(u) => u,
        None => s,
    }
}

/// `base` as the value of an HTML attribute in double quotes.
pub open spec fn escaped_base(base: Seq<char>) -> Seq<char> {
    replaced(replaced(base, "&"@, "&amp;"@), "\""@, "&quot;"@)
}

/// `html` under a `<base>` element, so that its relative links resolve.
pub open spec fn with_base(html: Seq<char>, base: Seq<char>) -> Seq<char> {
    "<base href=\""@ + escaped_base(base) + "\">"@ + html
}

/// `html` under a `<base>` element, so that its relative links resolve.
pub fn add_base(html: &str, base: &str) -> (r: String)
    ensures
        r@ == with_base(html@, base@),
{
    proof {
        reveal_strlit("&");
        reveal_strlit("\"");
    }
    let ampersands = replace_text(base, "&", "&amp;");
    let escaped = replace_text(ampersands.as_str(), "\"", "&quot;");
    let mut s = "<base href=\"".to_owned();
    s.append(escaped.as_str());
    s.append("\">");
    s.append(html);
    s
}

proof fn lemma_replaced_char_is_gone(s: Seq<char>, c: char, to: Seq<char>)
    requires
        !to.contains(c),
    ensures
        !replaced(s, seq![c], to).contains(c),
    decreases s.len(),
{
    if s.len() > 0 {
        let from = seq![c];
        lemma_replaced_char_is_gone(s.skip(1), c, to);
        let rest = replaced(s.skip(1), from, to);
        let all = replaced(s, from, to);
        assert(s.take(1) == seq![s[0]]);
        if s[0] == c {
            assert(has_prefix(s, from));
            assert(all == to + rest);
        } else {
            assert(!has_prefix(s, from)) by {
                assert(s.take(1)[0] == s[0]);
            }
            assert(all == seq![s[0]] + rest);
        }
        assert forall|i: int| 0 <= i < all.len() implies all[i] != c by {
            if s[0] == c {
                if i < to.len() {
                    assert(all[i] == to[i]);
                } else {
                    assert(all[i] == rest[i - to.len()]);
                }
            } else if i > 0 {
                assert(all[i] == rest[i - 1]);
            }
        }
    }
}

/// Whatever the base holds, it cannot end the attribute it stands in: the
/// escaped base has no double quote.
pub proof fn escaped_base_cannot_end_its_attribute(base: Seq<char>)
    ensures
        !escaped_base(base).contains('"'),
{
    reveal_strlit("\"");
    reveal_strlit("&quot;");
    assert("\""@ == seq!['"']);
    assert(!"&quot;"@.contains('"'));
    lemma_replaced_char_is_gone(replaced(base, "&"@, "&amp;"@), '"', "&quot;"@);
}

/// The base stands in its attribute with each `&` and each double quote escaped
/// and every other character kept, and the page follows it whole.
pub proof fn bases_are_escaped_by_character(
    html: Seq<char>,
    base: Seq<char>,
    a: Seq<char>,
    b: Seq<char>,
    c: char,
)
    ensures
        with_base(html, base) == "<base href=\""@ + escaped_base(base) + "\">"@ + html,
        escaped_base(a + b) == escaped_base(a) + escaped_base(b),
        escaped_base(seq!['&']) == "&amp;"@,
        escaped_base(seq!['"']) == "&quot;"@,
        c != '&' && c != '"' ==> escaped_base(seq![c]) == seq![c],
        escaped_base(Seq::empty()) == Seq::<char>::empty(),
{
    reveal_strlit("&");
    reveal_strlit("\"");
    reveal_strlit("&amp;");
    let amp = "&amp;"@;
    let quot = "&quot;"@;
    assert("&"@ == seq!['&']);
    assert("\""@ == seq!['"']);
    replacing_goes_by_character(a, b, '&', amp);
    replacing_goes_by_character(
        replaced(a, seq!['&'], amp),
        replaced(b, seq!['&'], amp),
        '"',
        quot,
    );
    lemma_nothing_to_replace(amp, '"', quot);
}

proof fn lemma_nothing_to_replace(s: Seq<char>, c: char, to: Seq<char>)
    requires
        forall|i: int| 0 <= i < s.len() ==> #[trigger] s[i] != c,
    ensures
        replaced(s, seq![c], to) == s,
    decreases s.len(),
{
    replacing_goes_by_character(s, s, c, to);
    if s.len() > 0 {
        let rest = s.skip(1);
        assert forall|i: int| 0 <= i < rest.len() implies #[trigger] rest[i] != c by {
            assert(rest[i] == s[i + 1]);
        }
        lemma_nothing_to_replace(rest, c, to);
        replacing_goes_by_character(seq![s[0]], rest, c, to);
        assert(s[0] != c);
        assert(seq![s[0]] + rest == s);
    } else {
        assert(s == Seq::<char>::empty());
    }
}

/// A text that names a URL gives that URL; one that names none a blank page.
pub proof fn urls_are_kept(text: Seq<char>)
    ensures
        parsed_url(text) is Some ==> url_or_blank(text) == parsed_url(text)->0,
        parsed_url(text) is None ==> url_or_blank(text) == "about:blank"@,
{
}

/// The URL of in-memory HTML says that it is HTML in UTF-8 and base64, and its
/// data is that of the HTML's bytes; whatever holds HTML in this way gives the
/// same HTML back.
pub proof fn html_urls_name_type_charset_and_encoding(html: Seq<char>, url: Seq<char>)
    ensures
        html_url(html) == "data:text/html;charset=utf-8;base64,"@ + base64_text(encode_utf8(html)),
        holds_html(url, html) ==> has_prefix(url, "data:text/html;charset=utf-8;base64,"@) && (
        base64_bytes(url.skip("data:text/html;charset=utf-8;base64,"@.len() as int)) matches Some(
            bytes,
        ) && decode_utf8(bytes) == html),
{
}

} // verus!
