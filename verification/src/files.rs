//! Attachments as the user sees them: a name that is safe to write to, and a
//! readable size.
use vstd::arithmetic::div_mod::lemma_div_denominator;
use vstd::prelude::*;

use crate::text::{
    after_last, chars_of, decimal, decimal_text, digit, lemma_after_last, lemma_after_last_is,
    same_text, text_between, the_last_separator_counts,
};

verus! {

/// The characters that separate the components of a path, on any system.
pub open spec fn is_separator() -> spec_fn(char) -> bool {
    |c: char| c == '/' || c == '\\'
}

/// The name an attachment is written under: the last component of the name it
/// came with, or `attachment` where nothing usable is left.
pub open spec fn safe_name(filename: Seq<char>) -> Seq<char> {
    let last = after_last(filename, is_separator());
    if last.len() == 0 || last == "."@ || last == ".."@ {
        "attachment"@
    } else {
        last
    }
}

/// A file name that cannot lead out of the directory it is joined to. The name
/// comes from the message itself, so from its sender; `/` and `\` both count
/// as separators, whatever the system.
pub fn safe_attachment_filename(filename: &str) -> (r: String)
    ensures
        r@ == safe_name(filename@),
{
    let v = chars_of(filename);
    let n: usize = v.len();
    let mut from: usize = n;
    while from > 0 && v[from - 1] != '/' && v[from - 1] != '\\'
        invariant
            from <= n == v.len(),
            forall|i: int| from <= i < n ==> !is_separator()(#[trigger] v@[i]),
        decreases from,
    {
        from = from - 1;
    }
    proof {
        lemma_after_last_is(v@, is_separator(), from as int);
        assert(v@.skip(from as int) == v@.subrange(from as int, n as int));
    }
    let last = text_between(&v, from, n);
    if last.as_str().is_empty() || same_text(last.as_str(), ".") || same_text(last.as_str(), "..") {
        "attachment".to_owned()
    } else {
        last
    }
}

/// Whatever name a message gives, the name written to is one plain component:
/// it is not empty, holds no separator, and is neither the directory itself
/// nor its parent.
pub proof fn safe_names_stay_in_their_directory(filename: Seq<char>)
    ensures
        safe_name(filename).len() > 0,
        forall|i: int|
            0 <= i < safe_name(filename).len() ==> {
                let c = #[trigger] safe_name(filename)[i];
                c != '/' && c != '\\'
            },
        safe_name(filename) != "."@,
        safe_name(filename) != ".."@,
{
    reveal_strlit("attachment");
    reveal_strlit(".");
    reveal_strlit("..");
    lemma_after_last(filename, is_separator());
    let last = after_last(filename, is_separator());
    assert forall|i: int| 0 <= i < safe_name(filename).len() implies {
        let c = #[trigger] safe_name(filename)[i];
        c != '/' && c != '\\'
    } by {
        if safe_name(filename) == last {
            assert(!is_separator()(last[i]));
        }
    }
}

/// An ordinary name, one without separators, is used as it is.
pub proof fn ordinary_names_are_kept(filename: Seq<char>)
    requires
        filename.len() > 0,
        filename != "."@,
        filename != ".."@,
        forall|i: int| 0 <= i < filename.len() ==> filename[i] != '/' && filename[i] != '\\',
    ensures
        safe_name(filename) == filename,
{
    assert forall|i: int| 0 <= i < filename.len() implies !is_separator()(
        #[trigger] filename[i],
    ) by {}
    lemma_after_last_is(filename, is_separator(), 0);
    assert(filename.skip(0) == filename);
}

/// The whole number nearest to `a / b`; of two equally near ones, the even one.
pub open spec fn nearest(a: int, b: int) -> int {
    let q = a / b;
    let r = a % b;
    if 2 * r > b || (2 * r == b && q % 2 == 1) {
        q + 1
    } else {
        q
    }
}

/// Whole numbers below this are kept exactly in double precision.
pub const EXACT_LIMIT: u64 = 0x20_0000_0000_0000;

/// The distance between neighbouring double-precision numbers around `n`, for
/// numbers that are whole.
pub open spec fn spacing(n: int) -> int
    decreases n,
{
    if n < EXACT_LIMIT {
        1
    } else {
        2 * spacing(n / 2)
    }
}

/// The double-precision number nearest to `n`.
pub open spec fn in_double_precision(n: int) -> int {
    nearest(n, spacing(n)) * spacing(n)
}

/// `n / unit` with one digit after the point.
pub open spec fn one_decimal(n: int, unit: int) -> Seq<char> {
    let tenths = nearest(10 * n, unit);
    decimal((tenths / 10) as nat).push('.').push(digit((tenths % 10) as nat))
}

/// A readable size: whole bytes below a kilobyte; kilobytes, and from a
/// megabyte on megabytes, with one digit after the point. Rounding is that of
/// double-precision arithmetic.
pub open spec fn size_text(bytes: int) -> Seq<char> {
    let n = in_double_precision(bytes);
    if n >= 1048576 {
        one_decimal(n, 1048576) + " MB"@
    } else if n >= 1024 {
        one_decimal(n, 1024) + " KB"@
    } else {
        decimal(n as nat) + " B"@
    }
}

fn nearest_of(a: u128, b: u128) -> (r: u128)
    requires
        0 < b <= 0x1_0000_0000_0000_0000,
        a <= 0xffff_ffff_ffff_ffff_ffff,
    ensures
        r == nearest(a as int, b as int),
        r <= a / b + 1,
{
    let q: u128 = a / b;
    let r: u128 = a % b;
    assert(q <= a) by (nonlinear_arith)
        requires
            q == a / b,
            b > 0,
    ;
    if 2 * r > b || (2 * r == b && q % 2 == 1) {
        q + 1
    } else {
        q
    }
}

fn spacing_of(n: u64) -> (p: u128)
    ensures
        p == spacing(n as int),
        1 <= p,
        p <= 1 || p <= n,
{
    let wide: u128 = n as u128;
    let mut p: u128 = 1;
    assert(n as int / 1 == n);
    while wide / p >= EXACT_LIMIT as u128
        invariant
            wide == n,
            1 <= p,
            p <= 1 || p <= n,
            spacing(n as int) == p * spacing(n as int / p as int),
        decreases wide / p,
    {
        let ghost m = n as int / p as int;
        proof {
            lemma_div_denominator(n as int, p as int, 2);
            assert(spacing(m) == 2 * spacing(m / 2));
            assert(p * (2 * spacing(m / 2)) == (p * 2) * spacing(m / 2)) by (nonlinear_arith);
            assert(p * 2 <= n) by (nonlinear_arith)
                requires
                    m == n as int / p as int,
                    m >= 2,
                    p >= 1,
            ;
            assert(m / 2 < m);
        }
        p = p * 2;
    }
    assert(p * 1 == p);
    p
}

fn one_decimal_text(n: u128, unit: u128, suffix: &str) -> (r: String)
    requires
        unit == 1024 || unit == 1048576,
        n <= 0x2_0000_0000_0000_0000,
        unit == 1024 ==> n < 1048576,
    ensures
        r@ == one_decimal(n as int, unit as int) + suffix@,
{
    let tenths: u128 = nearest_of(10 * n, unit);
    let mut s = decimal_text((tenths / 10) as u64);
    s.push('.');
    let d: u8 = (tenths % 10) as u8;
    s.push((48 + d) as char);
    s.append(suffix);
    s
}

/// A human-readable size, e.g. `"4.2 KB"`. Only goes up to MB since a mail
/// attachment in the GB range would be unusual enough to want the exact byte
/// count anyway.
pub fn format_size(bytes: usize) -> (r: String)
    ensures
        r@ == size_text(bytes as int),
{
    let wide: u64 = bytes as u64;
    let p: u128 = spacing_of(wide);
    let q: u128 = nearest_of(wide as u128, p);
    let ghost b = bytes as int;
    assert(q * p <= b + p) by (nonlinear_arith)
        requires
            q <= b / p as int + 1,
            p >= 1,
            b >= 0,
    ;
    let n: u128 = q * p;
    assert(n == in_double_precision(b));
    if n >= 1048576 {
        one_decimal_text(n, 1048576, " MB")
    } else if n >= 1024 {
        one_decimal_text(n, 1024, " KB")
    } else {
        let mut s = decimal_text(n as u64);
        s.append(" B");
        s
    }
}

/// The last component of a path is kept as it is, whatever directories stand
/// before it.
pub proof fn last_components_are_kept(directory: Seq<char>, separator: char, name: Seq<char>)
    requires
        separator == '/' || separator == '\\',
        forall|i: int| 0 <= i < name.len() ==> #[trigger] name[i] != '/' && name[i] != '\\',
        name.len() > 0,
        name != "."@,
        name != ".."@,
    ensures
        safe_name(directory + seq![separator] + name) == name,
        safe_name(name) == name,
{
    the_last_separator_counts(directory, separator, name, is_separator());
}

/// A size below a kilobyte is given in bytes, exactly; above, in kilobytes or
/// megabytes, off by no more than half of a tenth.
pub proof fn sizes_are_off_by_half_a_tenth_at_most(bytes: int)
    requires
        0 <= bytes < 0x20_0000_0000_0000,
    ensures
        bytes < 1024 ==> size_text(bytes) == decimal(bytes as nat) + " B"@,
        1024 <= bytes < 1048576 ==> exists|tenths: int|
            -1024 <= 2 * (tenths * 1024 - 10 * bytes) <= 1024 && size_text(bytes)
                == #[trigger] tenths_text(tenths) + " KB"@,
        1048576 <= bytes ==> exists|tenths: int|
            -1048576 <= 2 * (tenths * 1048576 - 10 * bytes) <= 1048576 && size_text(bytes)
                == #[trigger] tenths_text(tenths) + " MB"@,
{
    assert(spacing(bytes) == 1);
    assert(nearest(bytes, 1) == bytes);
    assert(in_double_precision(bytes) == bytes);
    lemma_nearest(10 * bytes, 1024);
    lemma_nearest(10 * bytes, 1048576);
    assert(one_decimal(bytes, 1024) =~= tenths_text(nearest(10 * bytes, 1024)));
    assert(one_decimal(bytes, 1048576) =~= tenths_text(nearest(10 * bytes, 1048576)));
}

/// A number of tenths, written with one digit after the point.
pub open spec fn tenths_text(tenths: int) -> Seq<char> {
    decimal((tenths / 10) as nat) + seq!['.'] + decimal((tenths % 10) as nat)
}

proof fn lemma_nearest(a: int, b: int)
    requires
        0 <= a,
        b == 1024 || b == 1048576,
    ensures
        0 <= nearest(a, b),
        -b <= 2 * (nearest(a, b) * b - a) <= b,
{
    assert(a == (a / b) * b + a % b) by (nonlinear_arith)
        requires
            b > 0,
    ;
    let q = a / b;
    assert((q + 1) * b == q * b + b) by (nonlinear_arith);
}

/// Of two tenths that are equally near, the even one is written.
pub proof fn ties_go_to_the_even_tenth(a: int, b: int)
    requires
        0 <= a,
        0 < b,
    ensures
        2 * (a % b) == b ==> nearest(a, b) % 2 == 0 && a / b <= nearest(a, b) <= a / b + 1,
        2 * (a % b) < b ==> nearest(a, b) == a / b,
        2 * (a % b) > b ==> nearest(a, b) == a / b + 1,
{
}

/// Large sizes are rounded as double precision does: to the nearest multiple of
/// a power of two that leaves 53 digits, so that the error is at most one part
/// in 2 to the 53rd.
pub proof fn large_sizes_keep_53_digits(n: int)
    requires
        0 <= n,
    ensures
        0 < spacing(n),
        n < 0x20_0000_0000_0000 ==> spacing(n) == 1,
        n < spacing(n) * 0x20_0000_0000_0000,
        n >= 0x20_0000_0000_0000 ==> spacing(n) * 0x10_0000_0000_0000 <= n && spacing(n) == 2
            * spacing(n / 2),
        -spacing(n) <= 2 * (in_double_precision(n) - n) <= spacing(n),
    decreases n,
{
    if n >= EXACT_LIMIT {
        large_sizes_keep_53_digits(n / 2);
    }
    let s = spacing(n);
    let q = n / s;
    assert(n == q * s + n % s && 0 <= n % s < s) by {
        vstd::arithmetic::div_mod::lemma_fundamental_div_mod(n, s);
        vstd::arithmetic::div_mod::lemma_mod_bound(n, s);
        assert(s * q == q * s) by (nonlinear_arith);
    }
    assert((q + 1) * s == q * s + s) by (nonlinear_arith);
}

/// A name that leaves nothing usable, or names the directory or its parent, is
/// replaced.
pub proof fn unusable_names_are_replaced(directory: Seq<char>, separator: char)
    requires
        separator == '/' || separator == '\\',
    ensures
        safe_name(Seq::empty()) == "attachment"@,
        safe_name(directory + seq![separator]) == "attachment"@,
        safe_name(directory + seq![separator] + "."@) == "attachment"@,
        safe_name(directory + seq![separator] + ".."@) == "attachment"@,
        safe_name("."@) == "attachment"@,
        safe_name(".."@) == "attachment"@,
{
    reveal_strlit(".");
    reveal_strlit("..");
    let none = Seq::<char>::empty();
    the_last_separator_counts(directory, separator, none, is_separator());
    the_last_separator_counts(directory, separator, "."@, is_separator());
    the_last_separator_counts(directory, separator, ".."@, is_separator());
    assert(directory + seq![separator] + none == directory + seq![separator]);
}

} // verus!
