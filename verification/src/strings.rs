//! Characters, decimal numerals and the ordering of strings.
use unicode_width::UnicodeWidthStr;
use vstd::prelude::*;
use vstd::std_specs::iter::IteratorSpec;
use vstd::string::StringExecFns;

verus! {

/// The number of columns that a text takes when it is displayed, as the
/// crate `unicode-width` counts them.
pub uninterp spec fn display_width(s: Seq<char>) -> nat;

/// The displayed width of a text in columns.
///
/// Trusted: this is `UnicodeWidthStr::width` of the crate `unicode-width`,
/// which computes the width from the characters of the text alone, by the
/// rules and tables of that crate. Nothing is claimed of the number but
/// that it is the same for the same text.
#[verifier::external_body]
pub(crate) fn measure(s: &str) -> (w: usize)
    ensures
        w == display_width(s@),
{
    UnicodeWidthStr::width(s)
}

/// The width that a text will have when rendered, in characters: its
/// displayed width and a twentieth of it on top.
pub open spec fn spec_text_width(s: Seq<char>) -> nat {
    display_width(s) + display_width(s) / 20
}

/// Determine the width some text will have when rendered.
///
/// The geometry of some primitives depends on this.
pub fn text_width(s: &str) -> (r: usize)
    requires
        spec_text_width(s@) <= usize::MAX,
    ensures
        r == spec_text_width(s@),
{
    let w = measure(s);
    w + w / 20
}

/// The width that a text will have when rendered, where the number fits.
pub fn checked_text_width(s: &str) -> (r: Option<usize>)
    ensures
        r == (if spec_text_width(s@) <= usize::MAX {
            Some(spec_text_width(s@) as usize)
        } else {
            None
        }),
{
    let w = measure(s);
    if w / 20 <= usize::MAX - w {
        Some(text_width(s))
    } else {
        None
    }
}

/// Appends one character to a string.
///
/// Trusted: this is `String::push` of the standard library, which appends
/// the given character to the end of the string.
#[verifier::external_body]
pub(crate) fn push_char(s: &mut String, c: char)
    ensures
        final(s)@ == old(s)@.push(c),
{
    s.push(c);
}

/// The characters of a string slice, in order.
pub fn to_chars(s: &str) -> (v: Vec<char>)
    ensures
        v@ == s@,
{
    let mut v: Vec<char> = Vec::new();
    for c in it: s.chars()
        invariant
            v@ == it.seq().take(it.index() as int),
            it.seq() == s@,
    {
        v.push(c);
    }
    v
}

/// The decimal digit for `d`, which is meant to lie in `0..=9`.
pub open spec fn digit(d: int) -> char {
    if d == 0 {
        '0'
    } else if d == 1 {
        '1'
    } else if d == 2 {
        '2'
    } else if d == 3 {
        '3'
    } else if d == 4 {
        '4'
    } else if d == 5 {
        '5'
    } else if d == 6 {
        '6'
    } else if d == 7 {
        '7'
    } else if d == 8 {
        '8'
    } else {
        '9'
    }
}

/// The decimal numeral of a natural number, without leading zeros.
pub open spec fn decimal_nat(n: nat) -> Seq<char>
    decreases n,
{
    if n < 10 {
        seq![digit(n as int)]
    } else {
        decimal_nat(n / 10).push(digit((n % 10) as int))
    }
}

/// The decimal numeral of an integer: a minus sign for negative numbers,
/// then the digits of the magnitude.
pub open spec fn decimal(n: int) -> Seq<char> {
    if n < 0 {
        seq!['-'] + decimal_nat((-n) as nat)
    } else {
        decimal_nat(n as nat)
    }
}

fn digit_of(d: u64) -> (c: char)
    requires
        d < 10,
    ensures
        c == digit(d as int),
{
    if d == 0 {
        '0'
    } else if d == 1 {
        '1'
    } else if d == 2 {
        '2'
    } else if d == 3 {
        '3'
    } else if d == 4 {
        '4'
    } else if d == 5 {
        '5'
    } else if d == 6 {
        '6'
    } else if d == 7 {
        '7'
    } else if d == 8 {
        '8'
    } else {
        '9'
    }
}

fn push_decimal_nat(out: &mut String, n: u64)
    ensures
        final(out)@ == old(out)@ + decimal_nat(n as nat),
    decreases n,
{
    if n >= 10 {
        push_decimal_nat(out, n / 10);
    }
    push_char(out, digit_of(n % 10));
}

/// Appends the decimal numeral of `n` to `out`.
pub fn push_decimal(out: &mut String, n: i64)
    ensures
        final(out)@ == old(out)@ + decimal(n as int),
{
    if n < 0 {
        push_char(out, '-');
        let magnitude: u64 = if n == i64::MIN {
            0x8000_0000_0000_0000u64
        } else {
            (-n) as u64
        };
        push_decimal_nat(out, magnitude);
    } else {
        push_decimal_nat(out, n as u64);
    }
}

/// The decimal numeral of `n` as a string.
pub fn decimal_string(n: i64) -> (s: String)
    ensures
        s@ == decimal(n as int),
{
    let mut s = String::new();
    push_decimal(&mut s, n);
    s
}

/// Lexicographic order on strings by the code points of their characters:
/// `a` comes strictly before `b`.
pub open spec fn lex_lt(a: Seq<char>, b: Seq<char>) -> bool
    decreases a.len(),
{
    if b.len() == 0 {
        false
    } else if a.len() == 0 {
        true
    } else if a[0] != b[0] {
        (a[0] as u32) < (b[0] as u32)
    } else {
        lex_lt(a.drop_first(), b.drop_first())
    }
}

/// `lex_lt` read from position `i` on: the order of the two suffixes.
proof fn lemma_lex_lt_suffix(a: Seq<char>, b: Seq<char>, i: int)
    requires
        0 <= i <= a.len(),
        i <= b.len(),
        a.take(i) == b.take(i),
    ensures
        lex_lt(a, b) == lex_lt(a.skip(i), b.skip(i)),
    decreases i,
{
    if i > 0 {
        assert(a[0] == a.take(i)[0]);
        assert(b[0] == b.take(i)[0]);
        assert(a.drop_first().take(i - 1) =~= a.take(i).drop_first());
        assert(b.drop_first().take(i - 1) =~= b.take(i).drop_first());
        lemma_lex_lt_suffix(a.drop_first(), b.drop_first(), i - 1);
        assert(a.drop_first().skip(i - 1) =~= a.skip(i));
        assert(b.drop_first().skip(i - 1) =~= b.skip(i));
    } else {
        assert(a.skip(0) =~= a);
        assert(b.skip(0) =~= b);
    }
}

/// Whether `a` comes strictly before `b` in lexicographic order.
pub fn str_lt(a: &str, b: &str) -> (r: bool)
    ensures
        r == lex_lt(a@, b@),
{
    let x = to_chars(a);
    let y = to_chars(b);
    let mut i: usize = 0;
    while i < x.len() && i < y.len()
        invariant
            i <= x.len(),
            i <= y.len(),
            x@.take(i as int) == y@.take(i as int),
            x@ == a@,
            y@ == b@,
        decreases x.len() - i,
    {
        if x[i] != y[i] {
            proof {
                lemma_lex_lt_suffix(x@, y@, i as int);
            }
            let cx: char = x[i];
            let cy: char = y[i];
            assert(x@.skip(i as int)[0] == cx);
            assert(y@.skip(i as int)[0] == cy);
            return (cx as u32) < (cy as u32);
        }
        assert(x@.take(i + 1) =~= x@.take(i as int).push(x@[i as int]));
        assert(y@.take(i + 1) =~= y@.take(i as int).push(y@[i as int]));
        i += 1;
    }
    proof {
        lemma_lex_lt_suffix(x@, y@, i as int);
    }
    i < y.len()
}

/// Whether two string slices hold the same characters.
pub fn str_eq(a: &str, b: &str) -> (r: bool)
    ensures
        r == (a@ == b@),
{
    let x = to_chars(a);
    let y = to_chars(b);
    if x.len() != y.len() {
        return false;
    }
    let mut i: usize = 0;
    while i < x.len()
        invariant
            i <= x.len(),
            x.len() == y.len(),
            x@.take(i as int) == y@.take(i as int),
            x@ == a@,
            y@ == b@,
        decreases x.len() - i,
    {
        if x[i] != y[i] {
            return false;
        }
        assert(x@.take(i + 1) =~= x@.take(i as int).push(x@[i as int]));
        assert(y@.take(i + 1) =~= y@.take(i as int).push(y@[i as int]));
        i += 1;
    }
    assert(x@.take(i as int) =~= x@);
    assert(y@.take(i as int) =~= y@);
    true
}

/// The order is irreflexive: no string comes before itself.
pub proof fn lemma_lex_lt_irreflexive(a: Seq<char>)
    ensures
        !lex_lt(a, a),
    decreases a.len(),
{
    if a.len() > 0 {
        lemma_lex_lt_irreflexive(a.drop_first());
    }
}

/// The order is transitive.
pub proof fn lemma_lex_lt_transitive(a: Seq<char>, b: Seq<char>, c: Seq<char>)
    requires
        lex_lt(a, b),
        lex_lt(b, c),
    ensures
        lex_lt(a, c),
    decreases a.len(),
{
    if a.len() > 0 && b.len() > 0 && c.len() > 0 {
        if a[0] == b[0] && b[0] == c[0] {
            lemma_lex_lt_transitive(a.drop_first(), b.drop_first(), c.drop_first());
        }
    }
}

/// The order is total: of two different strings one comes before the other.
pub proof fn lemma_lex_lt_total(a: Seq<char>, b: Seq<char>)
    ensures
        lex_lt(a, b) || lex_lt(b, a) || a == b,
    decreases a.len(),
{
    if a.len() > 0 && b.len() > 0 {
        if a[0] == b[0] {
            lemma_lex_lt_total(a.drop_first(), b.drop_first());
            if a.drop_first() == b.drop_first() {
                assert(a =~= seq![a[0]] + a.drop_first());
                assert(b =~= seq![b[0]] + b.drop_first());
            }
        } else {
            vstd::utf8::char_u32_cast(a[0], a[0] as u32);
            vstd::utf8::char_u32_cast(b[0], b[0] as u32);
        }
    } else if a.len() == 0 && b.len() == 0 {
        assert(a =~= b);
    }
}

} // verus!
