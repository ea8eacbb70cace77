//! Text as sequences of characters: the few string operations the rest of the
//! library is stated over.
use vstd::prelude::*;

verus! {

/// `String::push` appends one character to the end of the string.
pub assume_specification[ String::push ](s: &mut String, c: char)
    ensures
        final(s)@ == old(s)@.push(c),
;

/// The characters of `s`, in order.
pub fn chars_of(s: &str) -> (v: Vec<char>)
    ensures
        v@ == s@,
{
    let mut v: Vec<char> = Vec::new();
    for c in it: s.chars()
        invariant
            it.seq() == s@,
            v@ == s@.take(it.index()),
    {
        v.push(c);
        assert(v@ == s@.take(it.index() + 1));
    }
    assert(s@.take(s@.len() as int) == s@);
    v
}

/// The text made of the characters `v[from..to]`.
pub fn text_between(v: &Vec<char>, from: usize, to: usize) -> (s: String)
    requires
        from <= to <= v.len(),
    ensures
        s@ == v@.subrange(from as int, to as int),
{
    let mut s = String::new();
    let mut i: usize = from;
    while i < to
        invariant
            from <= i <= to <= v.len(),
            s@ == v@.subrange(from as int, i as int),
        decreases to - i,
    {
        s.push(v[i]);
        i = i + 1;
        assert(s@ == v@.subrange(from as int, i as int));
    }
    s
}

/// Whether two texts hold the same characters.
pub fn same_text(a: &str, b: &str) -> (r: bool)
    ensures
        r == (a@ == b@),
{
    let x = a.to_owned();
    let y = b.to_owned();
    x == y
}

/// Unicode's `White_Space` characters.
pub open spec fn is_white(c: char) -> bool {
    ||| '\u{9}' <= c <= '\u{d}'
    ||| c == ' '
    ||| c == '\u{85}'
    ||| c == '\u{a0}'
    ||| c == '\u{1680}'
    ||| '\u{2000}' <= c <= '\u{200a}'
    ||| c == '\u{2028}'
    ||| c == '\u{2029}'
    ||| c == '\u{202f}'
    ||| c == '\u{205f}'
    ||| c == '\u{3000}'
}

/// Whether `c` is white space.
pub fn is_white_char(c: char) -> (r: bool)
    ensures
        r == is_white(c),
{
    ('\u{9}' <= c && c <= '\u{d}') || c == ' ' || c == '\u{85}' || c == '\u{a0}' || c == '\u{1680}'
        || ('\u{2000}' <= c && c <= '\u{200a}') || c == '\u{2028}' || c == '\u{2029}' || c
        == '\u{202f}' || c == '\u{205f}' || c == '\u{3000}'
}

/// `s` without the leading characters that satisfy `drop`.
pub open spec fn trimmed_start(s: Seq<char>, drop: spec_fn(char) -> bool) -> Seq<char>
    decreases s.len(),
{
    if s.len() > 0 && drop(s[0]) {
        trimmed_start(s.skip(1), drop)
    } else {
        s
    }
}

/// `s` without the trailing characters that satisfy `drop`.
pub open spec fn trimmed_end(s: Seq<char>, drop: spec_fn(char) -> bool) -> Seq<char>
    decreases s.len(),
{
    if s.len() > 0 && drop(s.last()) {
        trimmed_end(s.drop_last(), drop)
    } else {
        s
    }
}

/// `s` without white space at either end.
pub open spec fn trimmed(s: Seq<char>) -> Seq<char> {
    trimmed_end(trimmed_start(s, |c: char| is_white(c)), |c: char| is_white(c))
}

/// Trimming keeps a stretch of the text: nothing is reordered or invented.
pub proof fn lemma_trimmed_start_is_suffix(s: Seq<char>, drop: spec_fn(char) -> bool)
    ensures
        trimmed_start(s, drop).len() <= s.len(),
        trimmed_start(s, drop) == s.skip(s.len() - trimmed_start(s, drop).len()),
        trimmed_start(s, drop).len() > 0 ==> !drop(trimmed_start(s, drop)[0]),
    decreases s.len(),
{
    if s.len() > 0 && drop(s[0]) {
        lemma_trimmed_start_is_suffix(s.skip(1), drop);
        let t = trimmed_start(s.skip(1), drop);
        assert(s.skip(1).skip(s.skip(1).len() - t.len()) == s.skip(s.len() - t.len()));
    } else {
        assert(s.skip(0) == s);
    }
}

/// Trimming keeps a stretch of the text: nothing is reordered or invented.
pub proof fn lemma_trimmed_end_is_prefix(s: Seq<char>, drop: spec_fn(char) -> bool)
    ensures
        trimmed_end(s, drop).len() <= s.len(),
        trimmed_end(s, drop) == s.take(trimmed_end(s, drop).len() as int),
        trimmed_end(s, drop).len() > 0 ==> !drop(trimmed_end(s, drop).last()),
    decreases s.len(),
{
    if s.len() > 0 && drop(s.last()) {
        lemma_trimmed_end_is_prefix(s.drop_last(), drop);
        let t = trimmed_end(s.drop_last(), drop);
        assert(s.drop_last().take(t.len() as int) == s.take(t.len() as int));
    } else {
        assert(s.take(s.len() as int) == s);
    }
}

/// `s` without white space at either end, as `str::trim` gives it.
pub fn trim(s: &str) -> (r: String)
    ensures
        r@ == trimmed(s@),
{
    let v = chars_of(s);
    let ghost drop = |c: char| is_white(c);
    let n: usize = v.len();
    let mut from: usize = 0;
    assert(v@.skip(0) == v@);
    while from < n && is_white_char(v[from])
        invariant
            from <= n == v.len(),
            trimmed_start(v@, drop) == trimmed_start(v@.skip(from as int), drop),
            drop == |c: char| is_white(c),
        decreases n - from,
    {
        assert(v@.skip(from as int).skip(1) == v@.skip(from as int + 1));
        from = from + 1;
    }
    let ghost rest = v@.skip(from as int);
    assert(trimmed_start(v@, drop) == rest);
    let mut to: usize = n;
    assert(rest.take(n - from) == rest);
    while to > from && is_white_char(v[to - 1])
        invariant
            from <= to <= n == v.len(),
            rest == v@.skip(from as int),
            trimmed_end(rest, drop) == trimmed_end(rest.take(to - from), drop),
            drop == |c: char| is_white(c),
        decreases to,
    {
        assert(rest.take(to - from).last() == v@[to - 1]);
        assert(rest.take(to - from).drop_last() == rest.take(to - from - 1));
        to = to - 1;
    }
    assert(to > from ==> rest.take(to - from).last() == v@[to - 1]);
    assert(rest.take(to - from) == v@.subrange(from as int, to as int));
    text_between(&v, from, to)
}

/// The test for one character.
pub open spec fn is_just(x: char) -> spec_fn(char) -> bool {
    |c: char| c == x
}

/// `s` without leading `start` characters and without trailing `end`
/// characters.
pub open spec fn trimmed_pair(s: Seq<char>, start: char, end: char) -> Seq<char> {
    trimmed_end(trimmed_start(s, is_just(start)), is_just(end))
}

/// `s` without leading `start` characters and then without trailing `end`
/// characters.
pub fn trim_pair(s: &str, start: char, end: char) -> (r: String)
    ensures
        r@ == trimmed_pair(s@, start, end),
{
    let v = chars_of(s);
    let ghost drop_start = is_just(start);
    let ghost drop_end = is_just(end);
    let n: usize = v.len();
    let mut from: usize = 0;
    assert(v@.skip(0) == v@);
    while from < n && v[from] == start
        invariant
            from <= n == v.len(),
            trimmed_start(v@, drop_start) == trimmed_start(v@.skip(from as int), drop_start),
            drop_start == is_just(start),
        decreases n - from,
    {
        assert(v@.skip(from as int).skip(1) == v@.skip(from as int + 1));
        from = from + 1;
    }
    let ghost rest = v@.skip(from as int);
    assert(trimmed_start(v@, drop_start) == rest);
    let mut to: usize = n;
    assert(rest.take(n - from) == rest);
    while to > from && v[to - 1] == end
        invariant
            from <= to <= n == v.len(),
            rest == v@.skip(from as int),
            trimmed_end(rest, drop_end) == trimmed_end(rest.take(to - from), drop_end),
            drop_end == is_just(end),
        decreases to,
    {
        assert(rest.take(to - from).last() == v@[to - 1]);
        assert(rest.take(to - from).drop_last() == rest.take(to - from - 1));
        to = to - 1;
    }
    assert(to > from ==> rest.take(to - from).last() == v@[to - 1]);
    assert(rest.take(to - from) == v@.subrange(from as int, to as int));
    text_between(&v, from, to)
}

/// The index of the first `c` in `s`, or `s.len()` when there is none.
pub open spec fn index_of(s: Seq<char>, c: char) -> int
    decreases s.len(),
{
    if s.len() == 0 {
        0
    } else if s[0] == c {
        0
    } else {
        1 + index_of(s.skip(1), c)
    }
}

/// What `index_of` finds: nothing before it is `c`, and it is `c` itself
/// unless the text ran out.
pub proof fn lemma_index_of(s: Seq<char>, c: char)
    ensures
        0 <= index_of(s, c) <= s.len(),
        forall|i: int| 0 <= i < index_of(s, c) ==> s[i] != c,
        index_of(s, c) < s.len() ==> s[index_of(s, c)] == c,
    decreases s.len(),
{
    if s.len() > 0 && s[0] != c {
        lemma_index_of(s.skip(1), c);
        let k = index_of(s.skip(1), c);
        assert forall|i: int| 0 <= i < index_of(s, c) implies s[i] != c by {
            if i > 0 {
                assert(s[i] == s.skip(1)[i - 1]);
            }
        }
        if k < s.skip(1).len() {
            assert(s.skip(1)[k] == s[k + 1]);
        }
    }
}

/// The place of a first `c` is the place `index_of` gives.
pub proof fn lemma_index_of_is(s: Seq<char>, c: char, k: int)
    requires
        0 <= k <= s.len(),
        forall|i: int| 0 <= i < k ==> s[i] != c,
        k < s.len() ==> s[k] == c,
    ensures
        index_of(s, c) == k,
{
    lemma_index_of(s, c);
    let found = index_of(s, c);
    if found < k {
        assert(s[found] != c);
    }
    if k < found {
        assert(s[k] != c);
    }
}

/// The pieces of `s` between the separators `c`; always at least one.
pub open spec fn split(s: Seq<char>, c: char) -> Seq<Seq<char>>
    decreases s.len(),
{
    let i = index_of(s, c);
    if i < 0 || i >= s.len() {
        seq![s]
    } else {
        seq![s.take(i)] + split(s.skip(i + 1), c)
    }
}

/// The texts of a list, each by its characters.
pub open spec fn texts(v: Seq<String>) -> Seq<Seq<char>> {
    v.map_values(|t: String| t@)
}

/// The pieces of `s` between the separators `c`, as `str::split` gives them.
pub fn split_text(s: &str, c: char) -> (r: Vec<String>)
    ensures
        texts(r@) == split(s@, c),
{
    let v = chars_of(s);
    let n: usize = v.len();
    let mut pieces: Vec<String> = Vec::new();
    let mut start: usize = 0;
    let mut i: usize = 0;
    assert(v@.skip(0) == v@);
    assert(texts(pieces@) + split(v@, c) == split(v@, c));
    while i < n
        invariant
            start <= i <= n == v.len(),
            forall|k: int| start <= k < i ==> v@[k] != c,
            split(v@, c) == texts(pieces@) + split(v@.skip(start as int), c),
        decreases n - i,
    {
        if v[i] == c {
            let ghost rest = v@.skip(start as int);
            let ghost before = pieces@;
            let piece = text_between(&v, start, i);
            proof {
                assert forall|k: int| 0 <= k < i - start implies rest[k] != c by {
                    assert(rest[k] == v@[start + k]);
                }
                assert(rest[i - start] == v@[i as int]);
                lemma_index_of_is(rest, c, i - start);
                assert(rest.take(i - start) == piece@);
                assert(rest.skip(i - start + 1) == v@.skip(i + 1));
            }
            pieces.push(piece);
            assert(texts(pieces@) == texts(before).push(piece@));
            assert(texts(pieces@) + split(v@.skip(i + 1), c) == texts(before) + (seq![piece@] + split(
                v@.skip(i + 1),
                c,
            )));
            start = i + 1;
        }
        i = i + 1;
    }
    let ghost rest = v@.skip(start as int);
    let ghost before = pieces@;
    let piece = text_between(&v, start, n);
    proof {
        assert forall|k: int| 0 <= k < n - start implies rest[k] != c by {
            assert(rest[k] == v@[start + k]);
        }
        lemma_index_of_is(rest, c, n - start);
        assert(piece@ == rest);
    }
    pieces.push(piece);
    assert(texts(pieces@) == texts(before).push(piece@));
    assert(texts(before).push(piece@) == texts(before) + seq![piece@]);
    pieces
}

/// `s` without one trailing carriage return.
pub open spec fn without_cr(s: Seq<char>) -> Seq<char> {
    if s.len() > 0 && s.last() == '\r' {
        s.drop_last()
    } else {
        s
    }
}

/// The lines of `s`: each ends at a line feed, with or without a carriage
/// return before it; what follows the last line feed is a line of its own
/// unless it is empty.
pub open spec fn lines(s: Seq<char>) -> Seq<Seq<char>>
    decreases s.len(),
{
    let i = index_of(s, '\n');
    if s.len() == 0 {
        Seq::empty()
    } else if i < 0 || i >= s.len() {
        seq![s]
    } else {
        seq![without_cr(s.take(i))] + lines(s.skip(i + 1))
    }
}

/// The lines of `s`, as `str::lines` gives them.
pub fn lines_of(s: &str) -> (r: Vec<String>)
    ensures
        texts(r@) == lines(s@),
{
    let v = chars_of(s);
    let n: usize = v.len();
    let mut out: Vec<String> = Vec::new();
    let mut start: usize = 0;
    let mut i: usize = 0;
    assert(v@.skip(0) == v@);
    assert(texts(out@) + lines(v@) == lines(v@));
    while i < n
        invariant
            start <= i <= n == v.len(),
            forall|k: int| start <= k < i ==> v@[k] != '\n',
            lines(v@) == texts(out@) + lines(v@.skip(start as int)),
        decreases n - i,
    {
        if v[i] == '\n' {
            let ghost rest = v@.skip(start as int);
            let ghost before = out@;
            let mut end: usize = i;
            if i > start && v[i - 1] == '\r' {
                end = i - 1;
            }
            let line = text_between(&v, start, end);
            proof {
                assert forall|k: int| 0 <= k < i - start implies rest[k] != '\n' by {
                    assert(rest[k] == v@[start + k]);
                }
                assert(rest[i - start] == v@[i as int]);
                lemma_index_of_is(rest, '\n', i - start);
                let whole = rest.take(i - start);
                assert(whole == v@.subrange(start as int, i as int));
                if i > start {
                    assert(whole.last() == v@[i - 1]);
                    assert(whole.drop_last() == v@.subrange(start as int, i - 1));
                }
                assert(without_cr(whole) == line@);
                assert(rest.skip(i - start + 1) == v@.skip(i + 1));
            }
            out.push(line);
            assert(texts(out@) == texts(before).push(line@));
            assert(texts(out@) + lines(v@.skip(i + 1)) == texts(before) + (seq![line@] + lines(
                v@.skip(i + 1),
            )));
            start = i + 1;
        }
        i = i + 1;
    }
    if start < n {
        let ghost rest = v@.skip(start as int);
        let ghost before = out@;
        let line = text_between(&v, start, n);
        proof {
            assert forall|k: int| 0 <= k < n - start implies rest[k] != '\n' by {
                assert(rest[k] == v@[start + k]);
            }
            lemma_index_of_is(rest, '\n', n - start);
            assert(line@ == rest);
        }
        out.push(line);
        assert(texts(out@) == texts(before).push(line@));
        assert(texts(before).push(line@) == texts(before) + seq![line@]);
    } else {
        assert(v@.skip(start as int).len() == 0);
        assert(texts(out@) + Seq::<Seq<char>>::empty() == texts(out@));
    }
    out
}

/// What follows the last character of `s` that satisfies `sep`; all of `s`
/// when none does.
pub open spec fn after_last(s: Seq<char>, sep: spec_fn(char) -> bool) -> Seq<char>
    decreases s.len(),
{
    if s.len() == 0 || sep(s.last()) {
        Seq::empty()
    } else {
        after_last(s.drop_last(), sep).push(s.last())
    }
}

/// What follows the last separator is a suffix of `s` without separators, and
/// a separator stands right before it unless it is all of `s`.
pub proof fn lemma_after_last(s: Seq<char>, sep: spec_fn(char) -> bool)
    ensures
        after_last(s, sep).len() <= s.len(),
        after_last(s, sep) == s.skip(s.len() - after_last(s, sep).len()),
        forall|i: int| 0 <= i < after_last(s, sep).len() ==> !sep(#[trigger] after_last(s, sep)[i]),
        after_last(s, sep).len() < s.len() ==> sep(s[s.len() - after_last(s, sep).len() - 1]),
    decreases s.len(),
{
    if s.len() == 0 {
    } else if sep(s.last()) {
        assert(s.skip(s.len() as int) == Seq::<char>::empty());
    } else {
        lemma_after_last(s.drop_last(), sep);
        let t = after_last(s.drop_last(), sep);
        assert(after_last(s, sep) == s.skip(s.len() - after_last(s, sep).len()));
        assert forall|i: int| 0 <= i < after_last(s, sep).len() implies !sep(
            #[trigger] after_last(s, sep)[i],
        ) by {
            if i < t.len() {
                assert(!sep(t[i]));
            }
        }
    }
}

/// A separator-free suffix with a separator right before it, or all of a
/// separator-free text, is what follows the last separator.
pub proof fn lemma_after_last_is(s: Seq<char>, sep: spec_fn(char) -> bool, from: int)
    requires
        0 <= from <= s.len(),
        forall|i: int| from <= i < s.len() ==> !sep(#[trigger] s[i]),
        from > 0 ==> sep(s[from - 1]),
    ensures
        after_last(s, sep) == s.skip(from),
    decreases s.len(),
{
    if s.len() == from {
        assert(s.skip(from) == Seq::<char>::empty());
        if from > 0 {
            assert(s.last() == s[from - 1]);
        }
    } else {
        assert(!sep(s[s.len() - 1]));
        assert forall|i: int| from <= i < s.drop_last().len() implies !sep(
            #[trigger] s.drop_last()[i],
        ) by {
            assert(!sep(s[i]));
        }
        lemma_after_last_is(s.drop_last(), sep, from);
        assert(s.drop_last().skip(from).push(s.last()) == s.skip(from));
    }
}

/// `c` with an ASCII capital turned into its small letter.
pub open spec fn ascii_lower(c: char) -> char {
    if 'A' <= c <= 'Z' {
        (c as u32 + 32) as char
    } else {
        c
    }
}

/// `s` with the ASCII capitals turned into small letters.
pub open spec fn ascii_lowered(s: Seq<char>) -> Seq<char> {
    s.map_values(|c: char| ascii_lower(c))
}

/// `c` with an ASCII capital turned into its small letter.
pub fn ascii_lower_char(c: char) -> (r: char)
    ensures
        r == ascii_lower(c),
{
    if 'A' <= c && c <= 'Z' {
        let b: u8 = c as u8;
        (b + 32) as char
    } else {
        c
    }
}

/// `s` with the ASCII capitals turned into small letters, as
/// `str::to_ascii_lowercase` gives it.
pub fn to_ascii_lower(s: &str) -> (r: String)
    ensures
        r@ == ascii_lowered(s@),
{
    let v = chars_of(s);
    let mut out = String::new();
    let mut i: usize = 0;
    while i < v.len()
        invariant
            i <= v.len(),
            out@ == ascii_lowered(v@.take(i as int)),
        decreases v.len() - i,
    {
        out.push(ascii_lower_char(v[i]));
        i = i + 1;
        assert(out@ == ascii_lowered(v@.take(i as int)));
    }
    assert(v@.take(v@.len() as int) == v@);
    out
}

/// Whether `s` starts with `p`.
pub open spec fn has_prefix(s: Seq<char>, p: Seq<char>) -> bool {
    p.len() <= s.len() && s.take(p.len() as int) == p
}

/// Whether `s` ends with `p`.
pub open spec fn has_suffix(s: Seq<char>, p: Seq<char>) -> bool {
    p.len() <= s.len() && s.skip(s.len() - p.len()) == p
}

/// Whether the characters of `p` stand in `v` from place `at` on.
pub fn stands_at(v: &Vec<char>, at: usize, p: &Vec<char>) -> (r: bool)
    requires
        at <= v.len(),
    ensures
        r == has_prefix(v@.skip(at as int), p@),
{
    if v.len() - at < p.len() {
        return false;
    }
    let ghost rest = v@.skip(at as int);
    let mut i: usize = 0;
    while i < p.len()
        invariant
            i <= p.len() <= v.len() - at,
            rest == v@.skip(at as int),
            forall|k: int| 0 <= k < i ==> rest[k] == p@[k],
        decreases p.len() - i,
    {
        if v[at + i] != p[i] {
            assert(rest.take(p@.len() as int)[i as int] == v@[at + i]);
            return false;
        }
        assert(rest[i as int] == v@[at + i]);
        i = i + 1;
    }
    assert(rest.take(p@.len() as int) == p@);
    true
}

/// Whether `s` starts with `p`.
pub fn starts_with(s: &str, p: &str) -> (r: bool)
    ensures
        r == has_prefix(s@, p@),
{
    let v = chars_of(s);
    let w = chars_of(p);
    assert(v@.skip(0) == v@);
    stands_at(&v, 0, &w)
}

/// Whether `s` ends with `p`.
pub fn ends_with(s: &str, p: &str) -> (r: bool)
    ensures
        r == has_suffix(s@, p@),
{
    let v = chars_of(s);
    let w = chars_of(p);
    if v.len() < w.len() {
        return false;
    }
    let at: usize = v.len() - w.len();
    let ghost rest = v@.skip(at as int);
    assert(rest.take(w@.len() as int) == rest);
    stands_at(&v, at, &w)
}

/// `s` with every occurrence of `from` replaced by `to`, looked for from the
/// left and never overlapping.
pub open spec fn replaced(s: Seq<char>, from: Seq<char>, to: Seq<char>) -> Seq<char>
    decreases s.len(),
{
    if s.len() == 0 || from.len() == 0 {
        s
    } else if has_prefix(s, from) {
        to + replaced(s.skip(from.len() as int), from, to)
    } else {
        seq![s[0]] + replaced(s.skip(1), from, to)
    }
}

/// Whether `p` stands somewhere in `s`.
pub open spec fn occurs(p: Seq<char>, s: Seq<char>) -> bool {
    exists|i: int| 0 <= i <= s.len() && has_prefix(#[trigger] s.skip(i), p)
}

/// Whether `p` stands somewhere in `s`, as `str::contains` tells it.
pub fn contains(s: &str, p: &str) -> (r: bool)
    ensures
        r == occurs(p@, s@),
{
    let v = chars_of(s);
    let w = chars_of(p);
    let mut i: usize = 0;
    while i <= v.len()
        invariant
            0 <= i <= v.len() + 1,
            v@ == s@,
            w@ == p@,
            forall|k: int| 0 <= k < i ==> !has_prefix(#[trigger] s@.skip(k), p@),
        decreases v.len() + 1 - i,
    {
        if stands_at(&v, i, &w) {
            assert(has_prefix(s@.skip(i as int), p@));
            return true;
        }
        if i == v.len() {
            return false;
        }
        i = i + 1;
    }
    false
}

/// Nothing is replaced where there is nothing to replace.
pub proof fn lemma_replaced_without_occurrence(s: Seq<char>, from: Seq<char>, to: Seq<char>)
    requires
        from.len() > 0,
        !occurs(from, s),
    ensures
        replaced(s, from, to) == s,
    decreases s.len(),
{
    if s.len() > 0 {
        assert(s.skip(0) == s);
        assert(!has_prefix(s.skip(0), from));
        assert forall|i: int| 0 <= i <= s.skip(1).len() implies !has_prefix(
            #[trigger] s.skip(1).skip(i),
            from,
        ) by {
            assert(s.skip(1).skip(i) == s.skip(i + 1));
        }
        lemma_replaced_without_occurrence(s.skip(1), from, to);
        assert(seq![s[0]] + s.skip(1) == s);
    }
}

/// `s` with every occurrence of the non-empty `from` replaced by `to`, as
/// `str::replace` gives it.
pub fn replace_text(s: &str, from: &str, to: &str) -> (r: String)
    requires
        from@.len() > 0,
    ensures
        r@ == replaced(s@, from@, to@),
{
    let v = chars_of(s);
    let w = chars_of(from);
    let n: usize = v.len();
    let mut out = String::new();
    let mut i: usize = 0;
    assert(v@.skip(0) == v@);
    assert(out@ + replaced(v@, from@, to@) == replaced(v@, from@, to@));
    while i < n
        invariant
            i <= n == v.len(),
            v@ == s@,
            w@ == from@,
            from@.len() > 0,
            replaced(s@, from@, to@) == out@ + replaced(v@.skip(i as int), from@, to@),
        decreases n - i,
    {
        let ghost rest = v@.skip(i as int);
        let ghost before = out@;
        if stands_at(&v, i, &w) {
            out.append(to);
            assert(rest.skip(w@.len() as int) == v@.skip(i + w@.len()));
            i = i + w.len();
            assert(out@ + replaced(v@.skip(i as int), from@, to@) == before + (to@ + replaced(
                v@.skip(i as int),
                from@,
                to@,
            )));
        } else {
            out.push(v[i]);
            assert(rest.skip(1) == v@.skip(i + 1));
            i = i + 1;
            assert(out@ + replaced(v@.skip(i as int), from@, to@) == before + (seq![rest[0]]
                + replaced(v@.skip(i as int), from@, to@)));
        }
    }
    assert(v@.skip(n as int) == Seq::<char>::empty());
    assert(out@ + Seq::<char>::empty() == out@);
    out
}

/// The character of a decimal digit.
pub open spec fn digit(d: nat) -> char {
    (48 + d) as char
}

/// The decimal digits of `n`, most significant first.
pub open spec fn decimal(n: nat) -> Seq<char>
    decreases n,
{
    if n < 10 {
        seq![digit(n)]
    } else {
        decimal(n / 10).push(digit(n % 10))
    }
}

/// Different numbers have different digits.
pub proof fn decimal_is_injective(a: nat, b: nat)
    requires
        decimal(a) == decimal(b),
    ensures
        a == b,
    decreases a,
{
    assert(decimal(a).last() == digit(a % 10)) by {
        if a < 10 {
            assert(a % 10 == a);
        }
    }
    assert(decimal(b).last() == digit(b % 10)) by {
        if b < 10 {
            assert(b % 10 == b);
        }
    }
    assert(digit(a % 10) as nat == 48 + a % 10);
    assert(digit(b % 10) as nat == 48 + b % 10);
    lemma_decimal_not_empty(a / 10);
    lemma_decimal_not_empty(b / 10);
    if a >= 10 && b >= 10 {
        assert(decimal(a).drop_last() == decimal(a / 10));
        assert(decimal(b).drop_last() == decimal(b / 10));
        decimal_is_injective(a / 10, b / 10);
    } else if a >= 10 {
        assert(decimal(a).len() == decimal(a / 10).len() + 1);
    } else if b >= 10 {
        assert(decimal(b).len() == decimal(b / 10).len() + 1);
    }
}

proof fn lemma_decimal_not_empty(n: nat)
    ensures
        decimal(n).len() > 0,
{
    if n >= 10 {
        assert(decimal(n).len() == decimal(n / 10).len() + 1);
    }
}

/// `n` in decimal, as its `Display` prints it.
pub fn decimal_text(n: u64) -> (r: String)
    ensures
        r@ == decimal(n as nat),
    decreases n,
{
    if n < 10 {
        let mut s = String::new();
        s.push((48 + n as u8) as char);
        assert(s@ == seq![digit(n as nat)]);
        s
    } else {
        let mut s = decimal_text(n / 10);
        let d: u8 = (n % 10) as u8;
        s.push((48 + d) as char);
        s
    }
}

/// Whether `c` is an ASCII decimal digit.
pub open spec fn is_digit(c: char) -> bool {
    '0' <= c <= '9'
}

/// The number that a row of decimal digits stands for.
pub open spec fn digits_value(s: Seq<char>) -> nat
    decreases s.len(),
{
    if s.len() == 0 {
        0
    } else {
        digits_value(s.drop_last()) * 10 + (s.last() as nat - 48) as nat
    }
}

/// The digits of a number in text form: what is left after one optional plus
/// sign.
pub open spec fn after_plus(s: Seq<char>) -> Seq<char> {
    if s.len() > 0 && s[0] == '+' {
        s.skip(1)
    } else {
        s
    }
}

/// The port number that `s` spells: an optional plus sign and one or more
/// decimal digits whose value is at most 65535.
pub open spec fn parsed_u16(s: Seq<char>) -> Option<u16> {
    let d = after_plus(s);
    if d.len() > 0 && (forall|i: int| 0 <= i < d.len() ==> is_digit(#[trigger] d[i]))
        && digits_value(d) <= u16::MAX {
        Some(digits_value(d) as u16)
    } else {
        None
    }
}

proof fn lemma_digits_value_grows(s: Seq<char>, k: int)
    requires
        0 <= k <= s.len(),
    ensures
        digits_value(s.take(k)) <= digits_value(s),
    decreases s.len(),
{
    if k == s.len() {
        assert(s.take(k) == s);
    } else {
        lemma_digits_value_grows(s.drop_last(), k);
        assert(s.drop_last().take(k) == s.take(k));
    }
}

/// The port number that `s` spells, as `str::parse::<u16>` reads it.
pub fn parse_u16(s: &str) -> (r: Option<u16>)
    ensures
        r == parsed_u16(s@),
{
    let v = chars_of(s);
    let n: usize = v.len();
    let mut from: usize = 0;
    if n > 0 && v[0] == '+' {
        from = 1;
    }
    let ghost d = after_plus(s@);
    assert(d == v@.skip(from as int));
    if from == n {
        return None;
    }
    let mut value: u32 = 0;
    let mut i: usize = from;
    assert(d.take(0) == Seq::<char>::empty());
    while i < n
        invariant
            from <= i <= n == v.len(),
            v@ == s@,
            d == after_plus(s@),
            d == v@.skip(from as int),
            value <= 65535,
            value == digits_value(d.take(i - from)),
            forall|k: int| 0 <= k < i - from ==> is_digit(#[trigger] d[k]),
        decreases n - i,
    {
        let c = v[i];
        assert(c == d[i - from]);
        if !('0' <= c && c <= '9') {
            return None;
        }
        let b: u8 = c as u8;
        let next: u32 = value * 10 + (b - 48) as u32;
        assert(d.take(i - from + 1).drop_last() == d.take(i - from));
        assert(digits_value(d.take(i - from + 1)) == next);
        if next > 65535 {
            proof {
                lemma_digits_value_grows(d, i - from + 1);
            }
            return None;
        }
        value = next;
        i = i + 1;
    }
    assert(d.take(n - from) == d);
    Some(value as u16)
}

/// Whether `a` comes before `b`, or is `b`, in the order of their characters'
/// code points, first difference first. It is the order of `str`.
pub open spec fn at_most(a: Seq<char>, b: Seq<char>) -> bool
    decreases a.len(),
{
    a.len() == 0 || (b.len() > 0 && (a[0] < b[0] || (a[0] == b[0] && at_most(a.skip(1), b.skip(1)))))
}

/// Any two texts are in order one way or the other.
pub proof fn lemma_at_most_total(a: Seq<char>, b: Seq<char>)
    ensures
        at_most(a, b) || at_most(b, a),
    decreases a.len(),
{
    if a.len() > 0 && b.len() > 0 {
        lemma_at_most_total(a.skip(1), b.skip(1));
    }
}

/// The order carries over.
pub proof fn lemma_at_most_transitive(a: Seq<char>, b: Seq<char>, c: Seq<char>)
    requires
        at_most(a, b),
        at_most(b, c),
    ensures
        at_most(a, c),
    decreases a.len(),
{
    if a.len() > 0 && a[0] == b[0] && b[0] == c[0] {
        lemma_at_most_transitive(a.skip(1), b.skip(1), c.skip(1));
    }
}

/// Whether `a` comes before `b`, or is `b`.
pub fn is_at_most(a: &str, b: &str) -> (r: bool)
    ensures
        r == at_most(a@, b@),
{
    let v = chars_of(a);
    let w = chars_of(b);
    let mut i: usize = 0;
    assert(v@.skip(0) == v@);
    assert(w@.skip(0) == w@);
    while i < v.len() && i < w.len() && v[i] == w[i]
        invariant
            i <= v.len(),
            i <= w.len(),
            at_most(v@, w@) == at_most(v@.skip(i as int), w@.skip(i as int)),
        decreases v.len() - i,
    {
        assert(v@.skip(i as int).skip(1) == v@.skip(i + 1));
        assert(w@.skip(i as int).skip(1) == w@.skip(i + 1));
        i = i + 1;
    }
    if i == v.len() {
        true
    } else if i == w.len() {
        false
    } else {
        v[i] < w[i]
    }
}

/// Whether the texts stand in order.
pub open spec fn is_sorted(s: Seq<Seq<char>>) -> bool {
    forall|i: int, j: int| 0 <= i <= j < s.len() ==> at_most(#[trigger] s[i], #[trigger] s[j])
}

fn insert_in_order(sorted: &mut Vec<String>, text: String)
    requires
        is_sorted(texts(old(sorted)@)),
    ensures
        is_sorted(texts(final(sorted)@)),
        texts(final(sorted)@).to_multiset() == texts(old(sorted)@).to_multiset().insert(text@),
{
    broadcast use vstd::seq_lib::group_to_multiset_ensures;

    let ghost before = texts(sorted@);
    let mut at: usize = 0;
    while at < sorted.len() && is_at_most(sorted[at].as_str(), text.as_str())
        invariant
            at <= sorted.len(),
            before == texts(sorted@),
            is_sorted(before),
            forall|k: int| 0 <= k < at ==> at_most(#[trigger] before[k], text@),
        decreases sorted.len() - at,
    {
        assert(before[at as int] == sorted@[at as int]@);
        at = at + 1;
    }
    proof {
        if at < before.len() {
            assert(before[at as int] == sorted@[at as int]@);
            lemma_at_most_total(before[at as int], text@);
            assert forall|k: int| at <= k < before.len() implies at_most(
                text@,
                #[trigger] before[k],
            ) by {
                assert(at_most(before[at as int], before[k]));
                lemma_at_most_transitive(text@, before[at as int], before[k]);
            }
        }
        lemma_at_most_total(text@, text@);
    }
    sorted.insert(at, text);
    assert(texts(sorted@) == before.insert(at as int, text@));
    proof {
        let after = texts(sorted@);
        assert forall|i: int, j: int| 0 <= i <= j < after.len() implies at_most(
            #[trigger] after[i],
            #[trigger] after[j],
        ) by {
            let x = if i < at {
                i
            } else {
                i - 1
            };
            let y = if j < at {
                j
            } else {
                j - 1
            };
            if i != at && j != at {
                assert(at_most(before[x], before[y]));
            } else if i == at && j != at {
                assert(at_most(text@, before[y]));
            } else if i != at && j == at {
                assert(at_most(before[x], text@));
            }
        }
        after.to_multiset_ensures();
        assert(after.remove(at as int) == before);
        assert(after[at as int] == text@);
        assert(after.contains(text@));
        assert(after.to_multiset().remove(text@).insert(text@) =~= after.to_multiset());
    }
}

/// The texts in order, each as often as it was there.
pub fn sort_texts(list: Vec<String>) -> (r: Vec<String>)
    ensures
        is_sorted(texts(r@)),
        texts(r@).to_multiset() == texts(list@).to_multiset(),
{
    broadcast use vstd::seq_lib::group_to_multiset_ensures;

    let mut sorted: Vec<String> = Vec::new();
    let ghost all = texts(list@);
    let mut i: usize = 0;
    assert(texts(sorted@) == all.take(0));
    while i < list.len()
        invariant
            i <= list.len(),
            all == texts(list@),
            is_sorted(texts(sorted@)),
            texts(sorted@).to_multiset() == all.take(i as int).to_multiset(),
        decreases list.len() - i,
    {
        insert_in_order(&mut sorted, list[i].clone());
        proof {
            all.take(i as int).to_multiset_ensures();
            assert(all.take(i + 1) == all.take(i as int).push(list@[i as int]@));
        }
        i = i + 1;
    }
    assert(all.take(all.len() as int) == all);
    sorted
}

/// Blanks, tabs and line ends are white space, and so are the blanks of every
/// width; no printable ASCII character beside the blank is, nor what stands right
/// before or behind a run of white space.
pub proof fn white_space_is_what_is_not_seen(c: char)
    ensures
        c == '\u{b}' || c == '\u{c}' || c == '\u{85}' || c == '\u{a0}' || c == '\u{1680}' ==> is_white(c),
        0x2000 <= c as u32 && c as u32 <= 0x200a ==> is_white(c),
        c == '\u{2028}' || c == '\u{2029}' || c == '\u{202f}' || c == '\u{205f}' || c == '\u{3000}'
            ==> is_white(c),
        c as u32 <= 8 || 0xe <= c as u32 && c as u32 <= 0x1f ==> !is_white(c),
        0x7f <= c as u32 && c as u32 <= 0x84 || 0x86 <= c as u32 && c as u32 <= 0x9f ==> !is_white(c),
        0xa1 <= c as u32 && c as u32 <= 0x167f || 0x1681 <= c as u32 && c as u32 <= 0x1fff ==> !is_white(
            c,
        ),
        0x200b <= c as u32 && c as u32 <= 0x2027 || 0x202a <= c as u32 && c as u32 <= 0x202e
            ==> !is_white(c),
        0x2030 <= c as u32 && c as u32 <= 0x205e || 0x2060 <= c as u32 && c as u32 <= 0x2fff
            ==> !is_white(c),
        0x3001 <= c as u32 ==> !is_white(c),
        c == ' ' || c == '\t' || c == '\n' || c == '\r' ==> is_white(c),
        '!' <= c <= '~' ==> !is_white(c),
{
}

proof fn lemma_trimmed_start_is(lead: Seq<char>, rest: Seq<char>, drop: spec_fn(char) -> bool)
    requires
        forall|i: int| 0 <= i < lead.len() ==> drop(#[trigger] lead[i]),
        rest.len() > 0 ==> !drop(rest[0]),
    ensures
        trimmed_start(lead + rest, drop) == rest,
    decreases lead.len(),
{
    let s = lead + rest;
    if lead.len() > 0 {
        assert(s[0] == lead[0]);
        assert(s.skip(1) == lead.skip(1) + rest);
        assert forall|i: int| 0 <= i < lead.skip(1).len() implies drop(
            #[trigger] lead.skip(1)[i],
        ) by {
            assert(lead.skip(1)[i] == lead[i + 1]);
        }
        lemma_trimmed_start_is(lead.skip(1), rest, drop);
    } else {
        assert(s == rest);
    }
}

proof fn lemma_trimmed_end_is(rest: Seq<char>, tail: Seq<char>, drop: spec_fn(char) -> bool)
    requires
        forall|i: int| 0 <= i < tail.len() ==> drop(#[trigger] tail[i]),
        rest.len() > 0 ==> !drop(rest.last()),
    ensures
        trimmed_end(rest + tail, drop) == rest,
    decreases tail.len(),
{
    let s = rest + tail;
    if tail.len() > 0 {
        assert(s.last() == tail.last());
        assert(s.drop_last() == rest + tail.drop_last());
        assert forall|i: int| 0 <= i < tail.drop_last().len() implies drop(
            #[trigger] tail.drop_last()[i],
        ) by {
            assert(tail.drop_last()[i] == tail[i]);
        }
        lemma_trimmed_end_is(rest, tail.drop_last(), drop);
    } else {
        assert(s == rest);
    }
}

/// Trimming takes the white space off both ends and keeps all between, white
/// space included.
pub proof fn trimming_keeps_what_is_between(lead: Seq<char>, inner: Seq<char>, tail: Seq<char>)
    requires
        forall|i: int| 0 <= i < lead.len() ==> is_white(#[trigger] lead[i]),
        forall|i: int| 0 <= i < tail.len() ==> is_white(#[trigger] tail[i]),
        inner.len() > 0 ==> !is_white(inner[0]) && !is_white(inner.last()),
    ensures
        trimmed(lead + inner + tail) == inner,
{
    let drop = |c: char| is_white(c);
    if inner.len() > 0 {
        assert(lead + inner + tail == lead + (inner + tail));
        lemma_trimmed_start_is(lead, inner + tail, drop);
        lemma_trimmed_end_is(inner, tail, drop);
    } else {
        let all = lead + inner + tail;
        assert forall|i: int| 0 <= i < all.len() implies drop(#[trigger] all[i]) by {
            if i < lead.len() {
                assert(all[i] == lead[i]);
            } else {
                assert(all[i] == tail[i - lead.len()]);
            }
        }
        lemma_trimmed_start_is(all, Seq::empty(), drop);
        assert(all + Seq::<char>::empty() == all);
        lemma_trimmed_end_is(Seq::empty(), Seq::empty(), drop);
        assert(Seq::<char>::empty() + Seq::<char>::empty() == Seq::<char>::empty());
        assert(inner == Seq::<char>::empty());
    }
}

/// The brackets around a text come off, and nothing inside them does.
pub proof fn brackets_come_off(inner: Seq<char>, start: char, end: char)
    requires
        inner.len() > 0,
        inner[0] != start,
        inner.last() != end,
    ensures
        trimmed_pair(seq![start] + inner + seq![end], start, end) == inner,
        trimmed_pair(inner, start, end) == inner,
{
    let lead = seq![start];
    let tail = seq![end];
    assert(lead + inner + tail == lead + (inner + tail));
    lemma_trimmed_start_is(lead, inner + tail, is_just(start));
    lemma_trimmed_end_is(inner, tail, is_just(end));
    lemma_trimmed_start_is(Seq::empty(), inner, is_just(start));
    lemma_trimmed_end_is(inner, Seq::empty(), is_just(end));
    assert(Seq::<char>::empty() + inner == inner);
    assert(inner + Seq::<char>::empty() == inner);
}

/// A text is split at its separators and nowhere else: what stands on the two
/// sides of one is split on its own, and a text without any stays whole.
pub proof fn texts_are_split_at_separators(a: Seq<char>, b: Seq<char>, c: char)
    ensures
        split(a + seq![c] + b, c) == split(a, c) + split(b, c),
        (forall|i: int| 0 <= i < a.len() ==> a[i] != c) ==> split(a, c) == seq![a],
    decreases a.len(),
{
    let s = a + seq![c] + b;
    lemma_index_of(a, c);
    let k = index_of(a, c);
    if k < a.len() {
        assert forall|i: int| 0 <= i < k implies s[i] != c by {
            assert(s[i] == a[i]);
        }
        assert(s[k] == a[k]);
        lemma_index_of_is(s, c, k);
        texts_are_split_at_separators(a.skip(k + 1), b, c);
        assert(s.skip(k + 1) == a.skip(k + 1) + seq![c] + b);
        assert(s.take(k) == a.take(k));
        assert(seq![a.take(k)] + (split(a.skip(k + 1), c) + split(b, c)) == seq![a.take(k)] + split(
            a.skip(k + 1),
            c,
        ) + split(b, c));
    } else {
        assert forall|i: int| 0 <= i < a.len() implies s[i] != c by {
            assert(s[i] == a[i]);
        }
        lemma_index_of_is(s, c, a.len() as int);
        assert(s.take(a.len() as int) == a);
        assert(s.skip(a.len() as int + 1) == b);
    }
}

/// A line ends at the first line feed, and a carriage return before it belongs
/// to the line end; the rest has its own lines. A last line needs no line feed.
pub proof fn lines_end_at_line_feeds(line: Seq<char>, rest: Seq<char>)
    requires
        forall|i: int| 0 <= i < line.len() ==> line[i] != '\n',
    ensures
        lines(line + seq!['\n'] + rest) == seq![
            if line.len() > 0 && line.last() == '\r' {
                line.drop_last()
            } else {
                line
            },
        ] + lines(rest),
        line.len() > 0 ==> lines(line) == seq![line],
        lines(Seq::<char>::empty()) == Seq::<Seq<char>>::empty(),
{
    let s = line + seq!['\n'] + rest;
    assert forall|i: int| 0 <= i < line.len() implies s[i] != '\n' by {
        assert(s[i] == line[i]);
    }
    lemma_index_of_is(s, '\n', line.len() as int);
    lemma_index_of_is(line, '\n', line.len() as int);
    assert(s.take(line.len() as int) == line);
    assert(s.skip(line.len() as int + 1) == rest);
}

/// What follows the last separator is what stands behind it.
pub proof fn the_last_separator_counts(a: Seq<char>, c: char, b: Seq<char>, sep: spec_fn(char) -> bool)
    requires
        sep(c),
        forall|i: int| 0 <= i < b.len() ==> !sep(#[trigger] b[i]),
    ensures
        after_last(a + seq![c] + b, sep) == b,
        after_last(b, sep) == b,
{
    let s = a + seq![c] + b;
    let from = a.len() + 1;
    assert forall|i: int| from <= i < s.len() implies !sep(#[trigger] s[i]) by {
        assert(s[i] == b[i - from]);
    }
    assert(s[from - 1] == c);
    lemma_after_last_is(s, sep, from as int);
    assert(s.skip(from as int) == b);
    lemma_after_last_is(b, sep, 0);
    assert(b.skip(0) == b);
}

/// Lowering touches ASCII capitals alone, each becomes its small letter, and the
/// text keeps its length.
pub proof fn only_capitals_are_lowered(s: Seq<char>, i: int)
    requires
        0 <= i < s.len(),
    ensures
        ascii_lowered(s).len() == s.len(),
        'A' <= s[i] <= 'Z' ==> ascii_lowered(s)[i] as int == s[i] as int + 32,
        !('A' <= s[i] <= 'Z') ==> ascii_lowered(s)[i] == s[i],
{
}

/// A character is replaced wherever it stands, and no other is.
pub proof fn replacing_goes_by_character(a: Seq<char>, b: Seq<char>, c: char, to: Seq<char>)
    ensures
        replaced(a + b, seq![c], to) == replaced(a, seq![c], to) + replaced(b, seq![c], to),
        replaced(seq![c], seq![c], to) == to,
        forall|x: char| x != c ==> #[trigger] replaced(seq![x], seq![c], to) == seq![x],
        replaced(Seq::empty(), seq![c], to) == Seq::<char>::empty(),
    decreases a.len(),
{
    let from = seq![c];
    let none = Seq::<char>::empty();
    assert(seq![c].take(1) == from);
    assert(seq![c].skip(1) == none);
    assert(has_prefix(seq![c], from));
    assert(replaced(none, from, to) == none);
    assert(replaced(seq![c], from, to) == to + replaced(none, from, to));
    assert(to + none == to);
    assert forall|x: char| x != c implies #[trigger] replaced(seq![x], from, to) == seq![x] by {
        let one = seq![x];
        assert(one.take(1)[0] != from[0]);
        assert(!has_prefix(one, from));
        assert(one.skip(1) == none);
        assert(replaced(none, from, to) == none);
        assert(seq![one[0]] + none == one);
    }
    if a.len() == 0 {
        assert(a + b == b);
        assert(replaced(a, from, to) + replaced(b, from, to) == replaced(b, from, to));
    } else {
        let s = a + b;
        replacing_goes_by_character(a.skip(1), b, c, to);
        assert(s.skip(1) == a.skip(1) + b);
        assert(s.take(1) == a.take(1));
        let x = replaced(a.skip(1), from, to);
        let y = replaced(b, from, to);
        assert(to + (x + y) == to + x + y);
        assert(seq![a[0]] + (x + y) == seq![a[0]] + x + y);
    }
}

/// A number is written in decimal: one digit for a number below ten, else the
/// digits of its tenth and then its last digit; reading the digits gives the
/// number back.
pub proof fn numbers_are_written_in_decimal(n: nat)
    ensures
        n < 10 ==> decimal(n).len() == 1 && decimal(n)[0] as int == '0' as int + n,
        n >= 10 ==> decimal(n).drop_last() == decimal(n / 10) && decimal(n).last() as int
            == '0' as int + n % 10,
        forall|i: int| 0 <= i < decimal(n).len() ==> '0' <= #[trigger] decimal(n)[i] <= '9',
        digits_value(decimal(n)) == n,
    decreases n,
{
    let d = decimal(n);
    if n < 10 {
        assert(d.drop_last() == Seq::<char>::empty());
        assert(digits_value(d.drop_last()) == 0);
        assert(d.last() as nat == 48 + n);
    } else {
        numbers_are_written_in_decimal(n / 10);
        assert(d.drop_last() == decimal(n / 10));
        assert(d.last() as nat == 48 + n % 10);
        assert forall|i: int| 0 <= i < d.len() implies '0' <= #[trigger] d[i] <= '9' by {
            if i < d.len() - 1 {
                assert(d[i] == decimal(n / 10)[i]);
            }
        }
    }
}

/// A port is read back from its decimal form, with or without a plus sign;
/// nothing above 65535 and nothing with another character in it is a port.
pub proof fn ports_are_read_in_decimal(n: nat, s: Seq<char>)
    ensures
        n <= 65535 ==> parsed_u16(decimal(n)) == Some(n as u16) && parsed_u16(
            seq!['+'] + decimal(n),
        ) == Some(n as u16),
        n > 65535 ==> parsed_u16(decimal(n)) is None,
        s.len() == 0 ==> parsed_u16(s) is None,
        (exists|i: int| 0 < i < s.len() && !('0' <= #[trigger] s[i] <= '9')) ==> parsed_u16(
            s,
        ) is None,
        s.len() > 0 && s[0] != '+' && !('0' <= s[0] <= '9') ==> parsed_u16(s) is None,
{
    numbers_are_written_in_decimal(n);
    lemma_decimal_not_empty(n);
    let d = decimal(n);
    assert(d[0] != '+');
    assert((seq!['+'] + d).skip(1) == d);
    if exists|i: int| 0 < i < s.len() && !('0' <= #[trigger] s[i] <= '9') {
        let i = choose|i: int| 0 < i < s.len() && !('0' <= #[trigger] s[i] <= '9');
        let rest = after_plus(s);
        if s[0] == '+' {
            assert(rest[i - 1] == s[i]);
        } else {
            assert(rest[i] == s[i]);
        }
    }
    if s.len() > 0 && s[0] != '+' && !('0' <= s[0] <= '9') {
        assert(after_plus(s)[0] == s[0]);
    }
}

/// Texts are ordered by their first difference, and a text comes before those
/// that it begins.
pub proof fn texts_are_ordered_by_their_first_difference(
    p: Seq<char>,
    a: char,
    b: char,
    x: Seq<char>,
    y: Seq<char>,
)
    requires
        a < b,
    ensures
        at_most(p + seq![a] + x, p + seq![b] + y),
        !at_most(p + seq![b] + y, p + seq![a] + x),
        at_most(p, p + x),
        x.len() > 0 ==> !at_most(p + x, p),
    decreases p.len(),
{
    if p.len() > 0 {
        texts_are_ordered_by_their_first_difference(p.skip(1), a, b, x, y);
        assert((p + seq![a] + x).skip(1) == p.skip(1) + seq![a] + x);
        assert((p + seq![b] + y).skip(1) == p.skip(1) + seq![b] + y);
        assert((p + x).skip(1) == p.skip(1) + x);
    } else {
        assert((p + seq![a] + x)[0] == a);
        assert((p + seq![b] + y)[0] == b);
        assert(p + x == x);
    }
}

/// A prefix, a suffix and an occurrence are found where they stand.
pub proof fn parts_of_a_text_are_found(a: Seq<char>, p: Seq<char>, b: Seq<char>)
    ensures
        has_prefix(p + b, p),
        has_suffix(a + p, p),
        occurs(p, a + p + b),
        has_prefix(a, p) ==> a == p + a.skip(p.len() as int),
        has_suffix(a, p) ==> a == a.take(a.len() - p.len()) + p,
        occurs(p, a) ==> exists|i: int|
            0 <= i <= a.len() - p.len() && #[trigger] a.subrange(i, i + p.len()) == p,
{
    assert((p + b).take(p.len() as int) == p);
    assert((a + p).skip(a.len() as int) == p);
    let s = a + p + b;
    assert(s.skip(a.len() as int).take(p.len() as int) == p);
    assert(has_prefix(s.skip(a.len() as int), p));
    if has_prefix(a, p) {
        assert(a == a.take(p.len() as int) + a.skip(p.len() as int));
    }
    if has_suffix(a, p) {
        assert(a == a.take(a.len() - p.len()) + a.skip(a.len() - p.len()));
    }
    if occurs(p, a) {
        let i = choose|i: int| 0 <= i <= a.len() && has_prefix(#[trigger] a.skip(i), p);
        assert(a.skip(i).take(p.len() as int) == a.subrange(i, i + p.len()));
    }
}

/// Texts in order never fall from one to a later one.
pub proof fn sorted_texts_never_fall(s: Seq<Seq<char>>, i: int, j: int)
    requires
        is_sorted(s),
        0 <= i < j < s.len(),
    ensures
        at_most(s[i], s[j]),
{
}

/// However many brackets stand around a text, on either side, all of them come
/// off, and nothing else does.
pub proof fn all_brackets_come_off(
    lead: Seq<char>,
    inner: Seq<char>,
    tail: Seq<char>,
    start: char,
    end: char,
)
    requires
        forall|i: int| 0 <= i < lead.len() ==> #[trigger] lead[i] == start,
        forall|i: int| 0 <= i < tail.len() ==> #[trigger] tail[i] == end,
        inner.len() > 0,
        inner[0] != start,
        inner.last() != end,
    ensures
        trimmed_pair(lead + inner + tail, start, end) == inner,
{
    assert(lead + inner + tail == lead + (inner + tail));
    lemma_trimmed_start_is(lead, inner + tail, is_just(start));
    lemma_trimmed_end_is(inner, tail, is_just(end));
}

/// Zeros in front of a port number do not count, and a digit behind it counts
/// for ten times as much of what stands before.
pub proof fn port_digits_count_by_their_place(s: Seq<char>, d: char)
    requires
        s.len() > 0,
        forall|i: int| 0 <= i < s.len() ==> '0' <= #[trigger] s[i] <= '9',
        '0' <= d <= '9',
    ensures
        parsed_u16(seq!['0'] + s) == parsed_u16(s),
        parsed_u16(s) matches Some(p) ==> parsed_u16(s.push(d)) == (if 10 * p + (d as int - 48)
            <= 65535 {
            Some((10 * p + (d as int - 48)) as u16)
        } else {
            None
        }),
        parsed_u16(s) is None ==> parsed_u16(s.push(d)) is None,
{
    let zeros = seq!['0'] + s;
    lemma_leading_zero(s);
    assert(zeros[0] == '0');
    assert forall|i: int| 0 <= i < zeros.len() implies is_digit(#[trigger] zeros[i]) by {
        if i > 0 {
            assert(zeros[i] == s[i - 1]);
        }
    }
    assert(s[0] >= '0');
    assert forall|i: int| 0 <= i < s.len() implies is_digit(#[trigger] s[i]) by {
    }
    let more = s.push(d);
    assert(more.drop_last() == s);
    assert(more[0] == s[0]);
    assert forall|i: int| 0 <= i < more.len() implies is_digit(#[trigger] more[i]) by {
        if i < s.len() {
            assert(more[i] == s[i]);
        }
    }
    assert(digits_value(more) == digits_value(s) * 10 + (d as nat - 48) as nat);
}

proof fn lemma_leading_zero(s: Seq<char>)
    ensures
        digits_value(seq!['0'] + s) == digits_value(s),
    decreases s.len(),
{
    let zeros = seq!['0'] + s;
    if s.len() == 0 {
        assert(zeros.drop_last() == Seq::<char>::empty());
        assert(zeros.last() == '0');
        assert(digits_value(Seq::<char>::empty()) == 0);
    } else {
        assert(zeros.drop_last() == seq!['0'] + s.drop_last());
        lemma_leading_zero(s.drop_last());
    }
}

} // verus!
