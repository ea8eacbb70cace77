//! The `cid:` references in a message's HTML: which of the message's parts each
//! one names.
use vstd::prelude::*;
use vstd::seq_lib::lemma_flatten_concat;

use crate::text::{chars_of, has_prefix, is_white, is_white_char, stands_at, text_between};

verus! {

/// Content ids, by their characters; nothing for a part that cannot be named.
pub open spec fn id_views(ids: Seq<Option<String>>) -> Seq<Option<Seq<char>>> {
    ids.map_values(|id: Option<String>| id_view(id))
}

/// A content id, by its characters.
pub open spec fn id_view(id: Option<String>) -> Option<Seq<char>> {
    match id {
        Some(t) => Some(t@),
        None => None,
    }
}

/// Whether a reference starts at place `i`.
pub open spec fn at_reference(html: Seq<char>, i: int) -> bool {
    has_prefix(html.skip(i), "cid:"@)
}

/// The quote that a reference at place `i` stands directly behind, if it stands
/// behind one.
pub open spec fn opening_quote(html: Seq<char>, i: int) -> Option<char> {
    if 0 < i <= html.len() && (html[i - 1] == '"' || html[i - 1] == '\'') {
        Some(html[i - 1])
    } else {
        None
    }
}

/// Whether `c` is one of the characters that the words of a content id are made
/// of. An ampersand is one only behind a quote, and an apostrophe only behind a
/// double quote: elsewhere they belong to the HTML.
pub open spec fn is_id_char(c: char, quote: Option<char>) -> bool {
    ||| 'a' <= c <= 'z'
    ||| 'A' <= c <= 'Z'
    ||| '0' <= c <= '9'
    ||| '\u{80}' <= c && !is_white(c)
    ||| c == '!' || c == '$' || c == '%' || c == '*' || c == '+' || c == '-' || c == '/' || c == '='
        || c == '^' || c == '_' || c == '`' || c == '{' || c == '|' || c == '}' || c == '~'
    ||| c == '&' && quote is Some
    ||| c == '\'' && quote == Some('"')
}

/// Whether the character at place `j` carries an id on: it is a character of a
/// word, or a full stop or an at sign with another word behind it.
pub open spec fn carries_on(html: Seq<char>, j: int, quote: Option<char>) -> bool {
    &&& 0 <= j < html.len()
    &&& is_id_char(html[j], quote) || ((html[j] == '.' || html[j] == '@') && j + 1 < html.len()
        && is_id_char(html[j + 1], quote))
}

/// Whether there is a reference at place `i` that names `id`: the id stands
/// there, and what follows does not carry it on to be another one.
pub open spec fn names(html: Seq<char>, i: int, id: Seq<char>) -> bool {
    &&& at_reference(html, i)
    &&& has_prefix(html.skip(i + 4), id)
    &&& !carries_on(html, i + 4 + id.len(), opening_quote(html, i))
}

/// The place among `ids` of the one that a reference at place `i` names: the
/// longest that stands there, and of equal ones the first.
pub open spec fn named(html: Seq<char>, i: int, ids: Seq<Option<Seq<char>>>) -> Option<int>
    decreases ids.len(),
{
    if ids.len() == 0 {
        None
    } else {
        let rest = named(html, i, ids.drop_last());
        match ids.last() {
            Some(id) => if names(html, i, id) && (rest is None || ids[rest->0]->0.len()
                < id.len()) {
                Some(ids.len() - 1)
            } else {
                rest
            },
            None => rest,
        }
    }
}

/// The first place from `j` on with a reference that names one of `ids`, or the
/// end of the text.
pub open spec fn next_named(html: Seq<char>, ids: Seq<Option<Seq<char>>>, j: int) -> int
    decreases html.len() - j,
{
    if j >= html.len() {
        html.len() as int
    } else if named(html, j, ids) is Some {
        j
    } else {
        next_named(html, ids, j + 1)
    }
}

/// A piece of a text: a reference with the place of the id it names, or the text
/// up to the next such reference.
#[verifier::ext_equal]
pub struct PieceView {
    pub text: Seq<char>,
    pub names: Option<int>,
}

/// Where the piece that starts at place `i` ends.
pub open spec fn piece_end(html: Seq<char>, ids: Seq<Option<Seq<char>>>, i: int) -> int {
    match named(html, i, ids) {
        Some(k) => i + 4 + ids[k]->0.len(),
        None => next_named(html, ids, i),
    }
}

/// The pieces of `html` from place `i` on, in order.
pub open spec fn pieces_from(html: Seq<char>, ids: Seq<Option<Seq<char>>>, i: int) -> Seq<PieceView>
    decreases html.len() - i,
    when 0 <= i
    via pieces_from_ends
{
    if i >= html.len() {
        Seq::empty()
    } else {
        seq![
            PieceView {
                text: html.subrange(i, piece_end(html, ids, i)),
                names: named(html, i, ids),
            },
        ] + pieces_from(html, ids, piece_end(html, ids, i))
    }
}

#[via_fn]
proof fn pieces_from_ends(html: Seq<char>, ids: Seq<Option<Seq<char>>>, i: int) {
    if i < html.len() {
        lemma_piece_end(html, ids, i);
    }
}

/// The references in `html` that name one of `ids`, and the texts between them,
/// in order.
pub open spec fn pieces(html: Seq<char>, ids: Seq<Option<Seq<char>>>) -> Seq<PieceView> {
    pieces_from(html, ids, 0)
}

/// The texts of the pieces, in order.
pub open spec fn piece_texts(all: Seq<PieceView>) -> Seq<Seq<char>> {
    all.map_values(|p: PieceView| p.text)
}

/// What a reference names is among the ids, it is named there, and no longer id
/// is.
pub proof fn lemma_named(html: Seq<char>, i: int, ids: Seq<Option<Seq<char>>>)
    ensures
        match named(html, i, ids) {
            Some(k) => {
                &&& 0 <= k < ids.len()
                &&& ids[k] matches Some(id) && names(html, i, id)
                &&& forall|j: int|
                    0 <= j < ids.len() && (#[trigger] ids[j]) is Some && names(html, i, ids[j]->0)
                        ==> ids[j]->0.len() <= ids[k]->0.len()
                &&& forall|j: int|
                    0 <= j < k && (#[trigger] ids[j]) is Some && names(html, i, ids[j]->0)
                        ==> ids[j]->0.len() < ids[k]->0.len()
            },
            None => forall|j: int|
                0 <= j < ids.len() && (#[trigger] ids[j]) is Some ==> !names(html, i, ids[j]->0),
        },
    decreases ids.len(),
{
    if ids.len() > 0 {
        let shorter = ids.drop_last();
        lemma_named(html, i, shorter);
        assert forall|j: int| 0 <= j < shorter.len() implies #[trigger] ids[j] == shorter[j] by {}
    }
}

proof fn lemma_next_named(html: Seq<char>, ids: Seq<Option<Seq<char>>>, j: int)
    requires
        0 <= j <= html.len(),
    ensures
        j <= next_named(html, ids, j) <= html.len(),
        forall|k: int| j <= k < next_named(html, ids, j) ==> #[trigger] named(html, k, ids) is None,
        next_named(html, ids, j) < html.len() ==> named(
            html,
            next_named(html, ids, j),
            ids,
        ) is Some,
    decreases html.len() - j,
{
    if j < html.len() && named(html, j, ids) is None {
        lemma_next_named(html, ids, j + 1);
    }
}

proof fn lemma_piece_end(html: Seq<char>, ids: Seq<Option<Seq<char>>>, i: int)
    requires
        0 <= i < html.len(),
    ensures
        i < piece_end(html, ids, i) <= html.len(),
{
    reveal_strlit("cid:");
    lemma_named(html, i, ids);
    lemma_next_named(html, ids, i);
}

/// A piece of a text.
#[derive(Debug)]
pub struct Piece {
    pub text: String,
    /// The place of the id that it names, where it is a reference.
    pub names: Option<usize>,
}

impl View for Piece {
    type V = PieceView;

    open spec fn view(&self) -> PieceView {
        PieceView {
            text: self.text@,
            names: match self.names {
                Some(k) => Some(k as int),
                None => None,
            },
        }
    }
}

/// Pieces, each by its view.
pub open spec fn piece_views(all: Seq<Piece>) -> Seq<PieceView> {
    all.map_values(|p: Piece| p@)
}

fn is_word_char(c: char, quote: Option<char>) -> (r: bool)
    ensures
        r == is_id_char(c, quote),
{
    ('a' <= c && c <= 'z') || ('A' <= c && c <= 'Z') || ('0' <= c && c <= '9') || ('\u{80}' <= c
        && !is_white_char(c)) || c == '!' || c == '$' || c == '%' || c == '*' || c == '+' || c
        == '-' || c == '/' || c == '=' || c == '^' || c == '_' || c == '`' || c == '{' || c == '|'
        || c == '}' || c == '~' || (c == '&' && quote.is_some()) || (c == '\'' && match quote {
        Some(q) => q == '"',
        None => false,
    })
}

fn id_carries_on(v: &Vec<char>, j: usize, quote: Option<char>) -> (r: bool)
    ensures
        r == carries_on(v@, j as int, quote),
{
    if j >= v.len() {
        return false;
    }
    is_word_char(v[j], quote) || ((v[j] == '.' || v[j] == '@') && v.len() - j > 1 && is_word_char(
        v[j + 1],
        quote,
    ))
}

fn find_named(v: &Vec<char>, i: usize, ids: &Vec<Option<String>>) -> (r: Option<usize>)
    requires
        i <= v@.len(),
    ensures
        match r {
            Some(k) => named(v@, i as int, id_views(ids@)) == Some(k as int),
            None => named(v@, i as int, id_views(ids@)) is None,
        },
{
    proof {
        reveal_strlit("cid:");
        lemma_named(v@, i as int, id_views(ids@));
    }
    let ghost all = id_views(ids@);
    let scheme = chars_of("cid:");
    if !stands_at(v, i, &scheme) {
        return None;
    }
    let quote: Option<char> = if i > 0 && (v[i - 1] == '"' || v[i - 1] == '\'') {
        Some(v[i - 1])
    } else {
        None
    };
    let n: usize = v.len();
    let mut best: Option<usize> = None;
    let mut longest: usize = 0;
    let mut k: usize = 0;
    while k < ids.len()
        invariant
            k <= ids.len(),
            i + 4 <= n == v.len(),
            at_reference(v@, i as int),
            quote == opening_quote(v@, i as int),
            all == id_views(ids@),
            match best {
                Some(b) => {
                    &&& b < k
                    &&& named(v@, i as int, all.take(k as int)) == Some(b as int)
                    &&& all[b as int] is Some
                    &&& longest == all[b as int]->0.len()
                },
                None => named(v@, i as int, all.take(k as int)) is None,
            },
        decreases ids.len() - k,
    {
        proof {
            assert(all.take(k + 1).drop_last() == all.take(k as int));
            assert(all.take(k + 1).last() == id_view(ids@[k as int]));
            assert(all[k as int] == id_view(ids@[k as int]));
        }
        match &ids[k] {
            Some(id) => {
                let word = chars_of(id.as_str());
                if stands_at(v, i + 4, &word) {
                    assert(i + 4 + word@.len() <= n);
                    let longer: bool = match best {
                        Some(_) => longest < word.len(),
                        None => true,
                    };
                    if longer && !id_carries_on(v, i + 4 + word.len(), quote) {
                        best = Some(k);
                        longest = word.len();
                    }
                }
            },
            None => {},
        }
        k = k + 1;
    }
    assert(all.take(all.len() as int) == all);
    best
}

/// Cut `html` into the references that name one of `ids` and the texts between
/// them.
pub fn split_references(html: &str, ids: &Vec<Option<String>>) -> (r: Vec<Piece>)
    ensures
        piece_views(r@) == pieces(html@, id_views(ids@)),
{
    let ghost all = id_views(ids@);
    let v = chars_of(html);
    let n: usize = v.len();
    let mut out: Vec<Piece> = Vec::new();
    let mut i: usize = 0;
    assert(piece_views(out@) + pieces_from(v@, all, 0) == pieces_from(v@, all, 0));
    while i < n
        invariant
            i <= n == v.len(),
            v@ == html@,
            all == id_views(ids@),
            pieces_from(v@, all, 0) == piece_views(out@) + pieces_from(v@, all, i as int),
        decreases n - i,
    {
        let ghost before = out@;
        proof {
            reveal_strlit("cid:");
            lemma_piece_end(v@, all, i as int);
            lemma_named(v@, i as int, all);
        }
        let names: Option<usize> = find_named(&v, i, ids);
        let mut end: usize = i;
        match names {
            Some(k) => {
                match &ids[k] {
                    Some(id) => {
                        let word = chars_of(id.as_str());
                        assert(all[k as int] == id_view(ids@[k as int]));
                        end = i + 4 + word.len();
                    },
                    None => {
                        assert(all[k as int] == id_view(ids@[k as int]));
                    },
                }
            },
            None => {
                while end < n && find_named(&v, end, ids).is_none()
                    invariant
                        i <= end <= n == v.len(),
                        all == id_views(ids@),
                        next_named(v@, all, i as int) == next_named(v@, all, end as int),
                    decreases n - end,
                {
                    end = end + 1;
                }
            },
        }
        assert(end == piece_end(v@, all, i as int));
        let piece = Piece { text: text_between(&v, i, end), names };
        let ghost cut = piece@;
        out.push(piece);
        proof {
            assert(piece_views(out@) == piece_views(before).push(cut));
            assert(piece_views(before) + pieces_from(v@, all, i as int) == piece_views(out@)
                + pieces_from(v@, all, end as int));
        }
        i = end;
    }
    assert(piece_views(out@) + Seq::<PieceView>::empty() == piece_views(out@));
    out
}

proof fn lemma_pieces_from(html: Seq<char>, ids: Seq<Option<Seq<char>>>, i: int)
    requires
        0 <= i <= html.len(),
    ensures
        piece_texts(pieces_from(html, ids, i)).flatten() == html.skip(i),
    decreases html.len() - i,
{
    let all = pieces_from(html, ids, i);
    if i < html.len() {
        lemma_piece_end(html, ids, i);
        let end = piece_end(html, ids, i);
        lemma_pieces_from(html, ids, end);
        assert(piece_texts(all).drop_first() == piece_texts(pieces_from(html, ids, end)));
        assert(html.subrange(i, end) + html.skip(end) == html.skip(i));
    } else {
        assert(piece_texts(all) == Seq::<Seq<char>>::empty());
        assert(html.skip(i) == Seq::<char>::empty());
    }
}

/// The pieces, one behind the other, are the text that was cut.
pub proof fn pieces_make_up_the_text(html: Seq<char>, ids: Seq<Option<Seq<char>>>)
    ensures
        piece_texts(pieces(html, ids)).flatten() == html,
{
    lemma_pieces_from(html, ids, 0);
    assert(html.skip(0) == html);
}

proof fn lemma_reached(html: Seq<char>, ids: Seq<Option<Seq<char>>>, i: int, k: int)
    requires
        0 <= i <= html.len(),
        0 <= k < pieces_from(html, ids, i).len(),
    ensures
        i <= i + piece_texts(pieces_from(html, ids, i).take(k)).flatten().len() < html.len(),
        ({
            let at = i + piece_texts(pieces_from(html, ids, i).take(k)).flatten().len();
            pieces_from(html, ids, i)[k] == (PieceView {
                text: html.subrange(at, piece_end(html, ids, at)),
                names: named(html, at, ids),
            })
        }),
    decreases html.len() - i,
{
    if i < html.len() {
        lemma_piece_end(html, ids, i);
        let end = piece_end(html, ids, i);
        let all = pieces_from(html, ids, i);
        let rest = pieces_from(html, ids, end);
        assert(all.drop_first() == rest);
        if k > 0 {
            lemma_reached(html, ids, end, k - 1);
            let texts = piece_texts(all.take(k));
            assert(texts.drop_first() == piece_texts(rest.take(k - 1)));
            assert(texts.first() == html.subrange(i, end));
            assert(all[k] == rest[k - 1]);
        } else {
            assert(piece_texts(all.take(0)).flatten() == Seq::<char>::empty());
        }
    }
}

/// A piece that names an id stands where that id is named.
pub proof fn lemma_piece_names(html: Seq<char>, ids: Seq<Option<Seq<char>>>, k: int)
    requires
        0 <= k < pieces(html, ids).len(),
    ensures
        ({
            let at = piece_texts(pieces(html, ids).take(k)).flatten().len() as int;
            &&& at < html.len()
            &&& pieces(html, ids)[k].names matches Some(n) ==> 0 <= n < ids.len() && ids[n] is Some
                && names(html, at, ids[n]->0)
        }),
{
    lemma_reached(html, ids, 0, k);
    lemma_named(html, piece_texts(pieces(html, ids).take(k)).flatten().len() as int, ids);
}

/// Whether a piece at place `at` is cut right. One that names an id is the whole
/// reference to it: `cid:`, the id, and nothing behind it that would carry it
/// on. One that names none holds no reference to any of the ids.
pub open spec fn is_whole(
    html: Seq<char>,
    ids: Seq<Option<Seq<char>>>,
    at: int,
    piece: PieceView,
) -> bool {
    &&& 0 <= at <= at + piece.text.len() <= html.len()
    &&& piece.text == html.subrange(at, at + piece.text.len())
    &&& match piece.names {
        Some(n) => {
            &&& 0 <= n < ids.len()
            &&& ids[n] is Some
            &&& piece.text == "cid:"@ + ids[n]->0
            &&& !carries_on(html, at + piece.text.len(), opening_quote(html, at))
        },
        None => forall|i: int, n: int|
            at <= i < at + piece.text.len() && 0 <= n < ids.len() && ids[n] is Some
                ==> !#[trigger] names(html, i, ids[n]->0),
    }
}

/// Every piece is cut right, at the place where the pieces before it end.
pub proof fn references_are_whole(html: Seq<char>, ids: Seq<Option<Seq<char>>>, k: int)
    requires
        0 <= k < pieces(html, ids).len(),
    ensures
        is_whole(
            html,
            ids,
            piece_texts(pieces(html, ids).take(k)).flatten().len() as int,
            pieces(html, ids)[k],
        ),
{
    reveal_strlit("cid:");
    lemma_reached(html, ids, 0, k);
    let at = piece_texts(pieces(html, ids).take(k)).flatten().len() as int;
    let piece = pieces(html, ids)[k];
    let end = piece_end(html, ids, at);
    lemma_piece_end(html, ids, at);
    lemma_named(html, at, ids);
    assert(at + piece.text.len() == end);
    match piece.names {
        Some(n) => {
            let id = ids[n]->0;
            assert(piece.text =~= "cid:"@ + id) by {
                assert(html.skip(at).take(4) == "cid:"@);
                assert(html.skip(at + 4).take(id.len() as int) == id);
                assert forall|j: int| 0 <= j < piece.text.len() implies #[trigger] piece.text[j] == (
                "cid:"@ + id)[j] by {
                    if j < 4 {
                        assert(html.skip(at).take(4)[j] == html[at + j]);
                    } else {
                        assert(html.skip(at + 4).take(id.len() as int)[j - 4] == html[at + j]);
                    }
                }
            }
        },
        None => {
            lemma_next_named(html, ids, at);
            assert forall|i: int, n: int|
                at <= i < end && 0 <= n < ids.len() && ids[n] is Some implies !#[trigger] names(
                html,
                i,
                ids[n]->0,
            ) by {
                assert(named(html, i, ids) is None);
                lemma_named(html, i, ids);
            }
        },
    }
}

/// A reference whose id goes on names no id that ends before: `cid:img10` does
/// not name `img1`.
pub proof fn longer_ids_are_other_ids(html: Seq<char>, i: int, id: Seq<char>)
    requires
        carries_on(html, i + 4 + id.len(), opening_quote(html, i)),
    ensures
        !names(html, i, id),
{
}

/// What a cut text becomes where each piece is replaced by `shown` of it: one
/// piece is replaced in its place, whatever becomes of the others.
pub proof fn lemma_replaced_in_place(
    all: Seq<PieceView>,
    shown: spec_fn(PieceView) -> Seq<char>,
    k: int,
)
    requires
        0 <= k < all.len(),
    ensures
        all.map_values(shown).flatten() == all.take(k).map_values(shown).flatten() + shown(all[k])
            + all.skip(k + 1).map_values(shown).flatten(),
{
    let mapped = all.map_values(shown);
    let front = all.take(k).map_values(shown);
    let back = all.skip(k + 1).map_values(shown);
    assert(mapped == front + (seq![shown(all[k])] + back));
    lemma_flatten_concat(front, seq![shown(all[k])] + back);
    lemma_flatten_concat(seq![shown(all[k])], back);
    seq![shown(all[k])].lemma_flatten_one_element();
    assert(front.flatten() + (shown(all[k]) + back.flatten()) == front.flatten() + shown(all[k])
        + back.flatten());
}

/// Letters, digits, hyphens and underscores carry an id on; quotes of the
/// reference's own kind, brackets, blanks and the signs between texts end it.
pub proof fn words_carry_an_id_on(html: Seq<char>, j: int, quote: Option<char>)
    requires
        0 <= j < html.len(),
    ensures
        'a' <= html[j] <= 'z' || 'A' <= html[j] <= 'Z' || '0' <= html[j] <= '9' || html[j] == '-'
            || html[j] == '_' ==> carries_on(html, j, quote),
        html[j] == '"' || html[j] == '<' || html[j] == '>' || html[j] == '(' || html[j] == ')'
            || html[j] == ' ' || html[j] == '\n' || html[j] == ',' || html[j] == ';' ==> !carries_on(
            html,
            j,
            quote,
        ),
        html[j] == '\'' && quote != Some('"') ==> !carries_on(html, j, quote),
        html[j] == '&' && quote is None ==> !carries_on(html, j, quote),
        html[j] == '&' && quote is Some ==> carries_on(html, j, quote),
        html[j] == '\'' && quote == Some('"') ==> carries_on(html, j, quote),
        html[j] == '!' || html[j] == '$' || html[j] == '%' || html[j] == '*' || html[j] == '+'
            || html[j] == '/' || html[j] == '=' || html[j] == '^' || html[j] == '`' || html[j] == '{'
            || html[j] == '|' || html[j] == '}' || html[j] == '~' ==> carries_on(html, j, quote),
        html[j] == '[' || html[j] == ']' || html[j] == ':' || html[j] == '\\' || html[j] == '#'
            || html[j] == '?' || html[j] == '\t' || html[j] == '\r' ==> !carries_on(html, j, quote),
{
}

/// A full stop or an at sign carries an id on only with a word right behind it:
/// at the end of a sentence it does not.
pub proof fn stops_between_words_carry_an_id_on(html: Seq<char>, j: int, quote: Option<char>)
    requires
        0 <= j < html.len(),
        html[j] == '.' || html[j] == '@',
    ensures
        j + 1 < html.len() && ('a' <= html[j + 1] <= 'z' || 'A' <= html[j + 1] <= 'Z' || '0'
            <= html[j + 1] <= '9' || html[j + 1] == '-' || html[j + 1] == '_') ==> carries_on(
            html,
            j,
            quote,
        ),
        j + 1 == html.len() ==> !carries_on(html, j, quote),
        j + 1 < html.len() && (html[j + 1] == '"' || html[j + 1] == '<' || html[j + 1] == ' '
            || html[j + 1] == '>' || html[j + 1] == '.' || html[j + 1] == ')') ==> !carries_on(
            html,
            j,
            quote,
        ),
{
}

/// A reference is `cid:` with the id right behind it and nothing that carries the
/// id on; the quote that counts is the one right before it.
pub proof fn references_stand_whole(before: Seq<char>, id: Seq<char>, after: Seq<char>)
    ensures
        names(before + "cid:"@ + id + after, before.len() as int, id) <==> !carries_on(
            before + "cid:"@ + id + after,
            before.len() as int + 4 + id.len(),
            if before.len() > 0 && (before.last() == '"' || before.last() == '\'') {
                Some(before.last())
            } else {
                None
            },
        ),
        after.len() == 0 ==> names(before + "cid:"@ + id + after, before.len() as int, id),
{
    reveal_strlit("cid:");
    let html = before + "cid:"@ + id + after;
    let at = before.len() as int;
    assert(html.skip(at).take(4) =~= "cid:"@);
    assert(html.skip(at + 4).take(id.len() as int) =~= id);
}

/// The model of a list of ids, and of a list of pieces, has each entry in its
/// place.
pub proof fn models_keep_every_piece(
    ids: Seq<Option<String>>,
    i: int,
    all: Seq<Piece>,
    k: int,
)
    requires
        0 <= i < ids.len(),
        0 <= k < all.len(),
    ensures
        id_views(ids).len() == ids.len(),
        ids[i] matches Some(id) ==> id_views(ids)[i] == Some(id@),
        ids[i] is None ==> id_views(ids)[i] is None,
        piece_views(all).len() == all.len(),
        piece_views(all)[k].text == all[k].text@,
        all[k].names matches Some(n) ==> piece_views(all)[k].names == Some(n as int),
        all[k].names is None ==> piece_views(all)[k].names is None,
{
}

} // verus!
