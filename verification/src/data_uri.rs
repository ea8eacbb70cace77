//! Inline data: base64, and the `data:` URIs that carry it.
use vstd::prelude::*;
use vstd::utf8::encode_utf8;

use base64::Engine;

use crate::text::{
    chars_of, ends_with, has_prefix, has_suffix, index_of, lemma_index_of, lemma_index_of_is,
    starts_with, text_between,
};

verus! {

/// The base64 text of `bytes`: standard alphabet, padded.
pub uninterp spec fn base64_text(bytes: Seq<u8>) -> Seq<char>;

/// The bytes that a base64 text stands for; nothing where it is malformed.
pub uninterp spec fn base64_bytes(text: Seq<char>) -> Option<Seq<u8>>;

/// The characters a base64 text is made of.
pub open spec fn is_base64_char(c: char) -> bool {
    'A' <= c <= 'Z' || 'a' <= c <= 'z' || '0' <= c <= '9' || c == '+' || c == '/' || c == '='
}

/// `base64::engine::general_purpose::STANDARD.encode`: the padded base64 text
/// of `bytes`. It holds letters, digits, `+`, `/` and `=` only, and decoding it
/// gives `bytes` back.
#[verifier::external_body]
pub(crate) fn base64_encode(bytes: &[u8]) -> (r: String)
    ensures
        r@ == base64_text(bytes@),
        forall|i: int| 0 <= i < r@.len() ==> is_base64_char(#[trigger] r@[i]),
        base64_bytes(r@) == Some(bytes@),
{
    base64::engine::general_purpose::STANDARD.encode(bytes)
}

/// `base64::engine::general_purpose::STANDARD.decode`: the bytes that `text`
/// stands for, `None` where it is not well-formed base64.
#[verifier::external_body]
fn base64_decode(text: &str) -> (r: Option<Vec<u8>>)
    ensures
        match r {
            Some(b) => base64_bytes(text@) == Some(b@),
            None => base64_bytes(text@) is None,
        },
{
    base64::engine::general_purpose::STANDARD.decode(text).ok()
}

/// The value of a hexadecimal digit.
pub open spec fn hex_value(b: u8) -> Option<u8> {
    if 48 <= b <= 57 {
        Some((b - 48) as u8)
    } else if 97 <= b <= 102 {
        Some((b - 97 + 10) as u8)
    } else if 65 <= b <= 70 {
        Some((b - 65 + 10) as u8)
    } else {
        None
    }
}

/// The value of a hexadecimal digit, in either case.
pub fn hex_val(b: u8) -> (r: Option<u8>)
    ensures
        r == hex_value(b),
{
    if 48 <= b && b <= 57 {
        Some(b - 48)
    } else if 97 <= b && b <= 102 {
        Some(b - 97 + 10)
    } else if 65 <= b && b <= 70 {
        Some(b - 65 + 10)
    } else {
        None
    }
}

/// Whether `s` starts with a percent sign and two hexadecimal digits.
pub open spec fn starts_with_escape(s: Seq<u8>) -> bool {
    s.len() > 2 && s[0] == 37 && hex_value(s[1]) is Some && hex_value(s[2]) is Some
}

/// `s` with each `%XX` turned into the byte it names; a percent sign that
/// does not start one stands for itself.
pub open spec fn percent_decoded(s: Seq<u8>) -> Seq<u8>
    decreases s.len(),
{
    if s.len() == 0 {
        s
    } else if starts_with_escape(s) {
        seq![(hex_value(s[1])->0 * 16 + hex_value(s[2])->0) as u8] + percent_decoded(s.skip(3))
    } else {
        seq![s[0]] + percent_decoded(s.skip(1))
    }
}

/// `bytes` with each `%XX` turned into the byte it names.
pub fn percent_decode(bytes: &[u8]) -> (r: Vec<u8>)
    ensures
        r@ == percent_decoded(bytes@),
{
    let mut out: Vec<u8> = Vec::new();
    let n: usize = bytes.len();
    let mut i: usize = 0;
    assert(bytes@.skip(0) == bytes@);
    assert(out@ + percent_decoded(bytes@) == percent_decoded(bytes@));
    while i < n
        invariant
            i <= n == bytes.len(),
            percent_decoded(bytes@) == out@ + percent_decoded(bytes@.skip(i as int)),
        decreases n - i,
    {
        let ghost rest = bytes@.skip(i as int);
        let ghost before = out@;
        let mut taken: bool = false;
        if bytes[i] == 37 && n - i > 2 {
            assert(rest[1] == bytes@[i + 1]);
            assert(rest[2] == bytes@[i + 2]);
            match (hex_val(bytes[i + 1]), hex_val(bytes[i + 2])) {
                (Some(hi), Some(lo)) => {
                    out.push(hi * 16 + lo);
                    taken = true;
                },
                _ => {},
            }
        }
        if taken {
            assert(rest.skip(3) == bytes@.skip(i + 3));
            i = i + 3;
            assert(out@ + percent_decoded(bytes@.skip(i as int)) == before + (seq![
                (hex_value(rest[1])->0 * 16 + hex_value(rest[2])->0) as u8,
            ] + percent_decoded(bytes@.skip(i as int))));
        } else {
            out.push(bytes[i]);
            assert(rest.skip(1) == bytes@.skip(i + 1));
            i = i + 1;
            assert(out@ + percent_decoded(bytes@.skip(i as int)) == before + (seq![rest[0]]
                + percent_decoded(bytes@.skip(i as int))));
        }
    }
    assert(bytes@.skip(n as int) == Seq::<u8>::empty());
    assert(out@ + Seq::<u8>::empty() == out@);
    out
}

/// ASCII white space: space, tab, line feed, form feed, carriage return.
pub open spec fn is_ascii_white(c: char) -> bool {
    c == ' ' || c == '\t' || c == '\n' || c == '\u{c}' || c == '\r'
}

/// `s` without its ASCII white space.
pub open spec fn without_ascii_white(s: Seq<char>) -> Seq<char> {
    s.filter(|c: char| !is_ascii_white(c))
}

/// What stands between the scheme and the first comma of a `data:` URI, and
/// what follows that comma; nothing where either is missing.
pub open spec fn data_uri_parts(uri: Seq<char>) -> Option<(Seq<char>, Seq<char>)> {
    let rest = uri.skip(5);
    let comma = index_of(rest, ',');
    if !has_prefix(uri, "data:"@) || comma >= rest.len() {
        None
    } else {
        Some((rest.take(comma), rest.skip(comma + 1)))
    }
}

/// The bytes that the data of a base64 URI stands for: as it is or, where that
/// is malformed, without its white space.
pub open spec fn lenient_base64(data: Seq<char>) -> Option<Seq<u8>> {
    match base64_bytes(data) {
        Some(b) => Some(b),
        None => base64_bytes(without_ascii_white(data)),
    }
}

/// The bytes that a `data:` URI holds.
pub open spec fn data_uri_bytes(uri: Seq<char>) -> Option<Seq<u8>> {
    match data_uri_parts(uri) {
        None => None,
        Some((header, data)) => if has_suffix(header, ";base64"@) {
            lenient_base64(data)
        } else {
            Some(percent_decoded(encode_utf8(data)))
        },
    }
}

/// `s` without its ASCII white space.
pub fn remove_ascii_white(s: &str) -> (r: String)
    ensures
        r@ == without_ascii_white(s@),
{
    let v = chars_of(s);
    let ghost keep = |c: char| !is_ascii_white(c);
    let mut out = String::new();
    let mut i: usize = 0;
    assert(v@.take(0).filter(keep) == Seq::<char>::empty()) by {
        reveal(Seq::filter);
    }
    while i < v.len()
        invariant
            i <= v.len(),
            keep == |c: char| !is_ascii_white(c),
            out@ == v@.take(i as int).filter(keep),
        decreases v.len() - i,
    {
        let c = v[i];
        proof {
            reveal(Seq::filter);
            assert(v@.take(i + 1).drop_last() == v@.take(i as int));
        }
        if !(c == ' ' || c == '\t' || c == '\n' || c == '\u{c}' || c == '\r') {
            out.push(c);
        }
        i = i + 1;
    }
    assert(v@.take(v@.len() as int) == v@);
    out
}

/// Decode a `data:` URI into raw bytes: `data:[<mediatype>][;base64],<data>`.
/// Returns `None` for invalid or non-data URIs.
pub fn decode_data_uri(uri: &str) -> (r: Option<Vec<u8>>)
    ensures
        match r {
            Some(b) => data_uri_bytes(uri@) == Some(b@),
            None => data_uri_bytes(uri@) is None,
        },
{
    if !starts_with(uri, "data:") {
        return None;
    }
    proof {
        reveal_strlit("data:");
    }
    let v = chars_of(uri);
    let n: usize = v.len();
    let mut comma: usize = 5;
    let ghost rest = uri@.skip(5);
    assert(rest == rest.skip(0));
    while comma < n && v[comma] != ','
        invariant
            5 <= comma <= n == v.len(),
            v@ == uri@,
            rest == uri@.skip(5),
            index_of(rest, ',') == comma - 5 + index_of(rest.skip(comma - 5), ','),
        decreases n - comma,
    {
        assert(rest.skip(comma - 5)[0] == v@[comma as int]);
        assert(rest.skip(comma - 5).skip(1) == rest.skip(comma - 4));
        comma = comma + 1;
    }
    proof {
        lemma_index_of(rest.skip(comma - 5), ',');
        if comma < n {
            assert(rest.skip(comma - 5)[0] == v@[comma as int]);
        }
    }
    if comma == n {
        return None;
    }
    let header = text_between(&v, 5, comma);
    let data = text_between(&v, comma + 1, n);
    assert(header@ == rest.take(comma - 5));
    assert(data@ == rest.skip(comma - 5 + 1));
    if ends_with(header.as_str(), ";base64") {
        match base64_decode(data.as_str()) {
            Some(b) => Some(b),
            None => base64_decode(remove_ascii_white(data.as_str()).as_str()),
        }
    } else {
        Some(percent_decode(data.as_str().as_bytes()))
    }
}

/// A hexadecimal digit has its value in either case, and nothing else has one.
pub proof fn hexadecimal_digits_have_their_value(b: u8)
    ensures
        '0' as int <= b <= '9' as int ==> hex_value(b) == Some((b - 48) as u8),
        'a' as int <= b <= 'f' as int ==> hex_value(b) == Some((b - 87) as u8),
        'A' as int <= b <= 'F' as int ==> hex_value(b) == Some((b - 55) as u8),
        !('0' as int <= b <= '9' as int || 'a' as int <= b <= 'f' as int || 'A' as int <= b
            <= 'F' as int) ==> hex_value(b) is None,
{
}

/// Bytes stand for themselves up to the first percent sign; one with two
/// hexadecimal digits behind it stands for the byte they spell.
pub proof fn escapes_are_undone(plain: Seq<u8>, high: u8, low: u8, rest: Seq<u8>)
    requires
        forall|i: int| 0 <= i < plain.len() ==> #[trigger] plain[i] != 37,
    ensures
        percent_decoded(plain + rest) == plain + percent_decoded(rest),
        hex_value(high) is Some && hex_value(low) is Some ==> percent_decoded(
            seq![37u8, high, low] + rest,
        ) == seq![(16 * hex_value(high)->0 + hex_value(low)->0) as u8] + percent_decoded(rest),
        hex_value(high) is None ==> percent_decoded(seq![37u8, high] + rest) == seq![37u8]
            + percent_decoded(seq![high] + rest),
        hex_value(low) is None ==> percent_decoded(seq![37u8, high, low] + rest) == seq![37u8]
            + percent_decoded(seq![high, low] + rest),
        percent_decoded(seq![37u8]) == seq![37u8],
        percent_decoded(seq![37u8, high]) == seq![37u8] + percent_decoded(seq![high]),
    decreases plain.len(),
{
    if plain.len() > 0 {
        assert(plain[0] != 37);
        assert forall|i: int| 0 <= i < plain.skip(1).len() implies #[trigger] plain.skip(1)[i]
            != 37 by {
            assert(plain.skip(1)[i] == plain[i + 1]);
        }
        escapes_are_undone(plain.skip(1), high, low, rest);
        assert((plain + rest).skip(1) == plain.skip(1) + rest);
        assert(seq![plain[0]] + (plain.skip(1) + percent_decoded(rest)) == plain + percent_decoded(
            rest,
        ));
    } else {
        assert(plain + rest == rest);
        assert(plain + percent_decoded(rest) == percent_decoded(rest));
    }
    assert((seq![37u8, high, low] + rest).skip(3) == rest);
    assert((seq![37u8, high] + rest).skip(1) == seq![high] + rest);
    assert((seq![37u8, high, low] + rest).skip(1) == seq![high, low] + rest);
    assert(seq![37u8, high].skip(1) == seq![high]);
    assert(seq![37u8].skip(1) == Seq::<u8>::empty());
    assert(percent_decoded(Seq::<u8>::empty()) == Seq::<u8>::empty());
    assert(seq![37u8] + Seq::<u8>::empty() == seq![37u8]);
}

/// A `data:` URI holds what stands behind its first comma: base64 where its
/// header says so, else text with escapes. What is no such URI, or has no comma,
/// holds nothing.
pub proof fn data_uris_hold_what_follows_the_comma(header: Seq<char>, data: Seq<char>)
    requires
        forall|i: int| 0 <= i < header.len() ==> #[trigger] header[i] != ',',
    ensures
        has_suffix(header, ";base64"@) && base64_bytes(data) is Some ==> data_uri_bytes(
            "data:"@ + header + seq![','] + data,
        ) == base64_bytes(data),
        !has_suffix(header, ";base64"@) ==> data_uri_bytes("data:"@ + header + seq![','] + data)
            == Some(percent_decoded(encode_utf8(data))),
        data_uri_bytes("data:"@ + header) is None,
        !has_prefix(header, "data:"@) ==> data_uri_bytes(header) is None,
{
    reveal_strlit("data:");
    let uri = "data:"@ + header + seq![','] + data;
    let rest = header + seq![','] + data;
    assert(uri.skip(5) == rest);
    assert(uri.take(5) == "data:"@);
    assert forall|i: int| 0 <= i < header.len() implies rest[i] != ',' by {
        assert(rest[i] == header[i]);
    }
    lemma_index_of_is(rest, ',', header.len() as int);
    assert(rest.take(header.len() as int) == header);
    assert(rest.skip(header.len() as int + 1) == data);
    assert(("data:"@ + header).skip(5) == header);
    lemma_index_of_is(header, ',', header.len() as int);
}

/// Removing white space keeps every other character, in order.
pub proof fn only_white_space_is_removed(a: Seq<char>, c: char)
    ensures
        c == ' ' || c == '\t' || c == '\n' || c == '\r' ==> without_ascii_white(a.push(c))
            == without_ascii_white(a),
        '!' <= c <= '~' || '\u{80}' <= c ==> without_ascii_white(a.push(c)) == without_ascii_white(
            a,
        ).push(c),
{
    reveal(Seq::filter);
    assert(a.push(c).drop_last() == a);
}

/// White space in base64 data does not count where the data cannot be read with
/// it; what cannot be read either way holds nothing.
pub proof fn white_space_in_base64_does_not_count(header: Seq<char>, data: Seq<char>)
    requires
        forall|i: int| 0 <= i < header.len() ==> #[trigger] header[i] != ',',
        has_suffix(header, ";base64"@),
        base64_bytes(data) is None,
    ensures
        data_uri_bytes("data:"@ + header + seq![','] + data) == base64_bytes(
            without_ascii_white(data),
        ),
{
    reveal_strlit("data:");
    let uri = "data:"@ + header + seq![','] + data;
    let rest = header + seq![','] + data;
    assert(uri.skip(5) == rest);
    assert(uri.take(5) == "data:"@);
    assert forall|i: int| 0 <= i < header.len() implies rest[i] != ',' by {
        assert(rest[i] == header[i]);
    }
    lemma_index_of_is(rest, ',', header.len() as int);
    assert(rest.take(header.len() as int) == header);
    assert(rest.skip(header.len() as int + 1) == data);
}

/// Base64 is written in letters, digits, plus, slash and the sign that pads it,
/// so that nothing in it ends a URL, a header or an attribute.
pub proof fn base64_is_plain(c: char)
    ensures
        'a' <= c <= 'z' || 'A' <= c <= 'Z' || '0' <= c <= '9' || c == '+' || c == '/' || c == '='
            <==> is_base64_char(c),
        c == ',' || c == ';' || c == '"' || c == '\'' || c == '#' || c == '?' || c == ' ' || c == '<'
            ==> !is_base64_char(c),
{
}

} // verus!
