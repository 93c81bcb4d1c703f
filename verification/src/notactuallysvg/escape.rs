//! Escaping of text and of attribute values.
use crate::strings::push_char;
use std::borrow::Cow;
use vstd::prelude::*;
use vstd::std_specs::iter::IteratorSpec;
use vstd::string::StringExecFns;

verus! {

/// The entity that stands for `c` in text, for the five characters that
/// text may not hold as they are.
pub open spec fn minimal_entity(c: char) -> Option<Seq<char>> {
    if c == '"' {
        Some("&quot;"@)
    } else if c == '&' {
        Some("&amp;"@)
    } else if c == '<' {
        Some("&lt;"@)
    } else if c == '>' {
        Some("&gt;"@)
    } else if c == '\'' {
        Some("&#x27;"@)
    } else {
        None
    }
}

/// The text with each of `"`, `&`, `<`, `>` and `'` replaced by its entity
/// and every other character kept.
pub open spec fn escape_minimal(s: Seq<char>) -> Seq<char>
    decreases s.len(),
{
    if s.len() == 0 {
        Seq::empty()
    } else {
        escape_minimal(s.drop_last()) + match minimal_entity(s.last()) {
            Some(e) => e,
            None => seq![s.last()],
        }
    }
}

/// Some character of the text has to be replaced.
pub open spec fn needs_minimal(s: Seq<char>) -> bool {
    exists|i: int| 0 <= i < s.len() && minimal_entity(#[trigger] s[i]) is Some
}

/// The hexadecimal digit for `d`, which is meant to lie in `0..=15`.
pub open spec fn hex_digit(d: int) -> char {
    if d == 10 {
        'A'
    } else if d == 11 {
        'B'
    } else if d == 12 {
        'C'
    } else if d == 13 {
        'D'
    } else if d == 14 {
        'E'
    } else if d == 15 {
        'F'
    } else {
        crate::strings::digit(d)
    }
}

/// The code point is one of the letters and digits of ASCII.
pub open spec fn is_ascii_alphanumeric(u: int) -> bool {
    0x30 <= u <= 0x39 || 0x41 <= u <= 0x5A || 0x61 <= u <= 0x7A
}

/// The entity that stands for `c` in an attribute value: every character
/// below U+0100 but the letters and digits of ASCII is replaced, four of
/// them by their names and the others by two hexadecimal digits.
pub open spec fn attribute_entity(c: char) -> Option<Seq<char>> {
    let u = c as u32 as int;
    if u >= 256 || is_ascii_alphanumeric(u) {
        None
    } else if c == '"' {
        Some("&quot;"@)
    } else if c == '&' {
        Some("&amp;"@)
    } else if c == '<' {
        Some("&lt;"@)
    } else if c == '>' {
        Some("&gt;"@)
    } else {
        Some("&#x"@ + seq![hex_digit(u / 16), hex_digit(u % 16)] + ";"@)
    }
}

/// The value with every character escaped that `attribute_entity` names.
pub open spec fn escape_attribute(s: Seq<char>) -> Seq<char>
    decreases s.len(),
{
    if s.len() == 0 {
        Seq::empty()
    } else {
        escape_attribute(s.drop_last()) + match attribute_entity(s.last()) {
            Some(e) => e,
            None => seq![s.last()],
        }
    }
}

/// Some character of the value has to be replaced.
pub open spec fn needs_attribute(s: Seq<char>) -> bool {
    exists|i: int| 0 <= i < s.len() && attribute_entity(#[trigger] s[i]) is Some
}

/// Escaping changes nothing where no character has to be replaced.
pub proof fn lemma_escape_minimal_unchanged(s: Seq<char>)
    requires
        !needs_minimal(s),
    ensures
        escape_minimal(s) == s,
    decreases s.len(),
{
    if s.len() > 0 {
        assert(minimal_entity(s[s.len() - 1]) is None);
        assert forall|i: int| 0 <= i < s.drop_last().len() implies minimal_entity(
            #[trigger] s.drop_last()[i],
        ) is None by {
            assert(s.drop_last()[i] == s[i]);
        }
        lemma_escape_minimal_unchanged(s.drop_last());
        assert(s.drop_last() + seq![s.last()] =~= s);
    } else {
        assert(s =~= Seq::empty());
    }
}

/// Escaping changes nothing where no character has to be replaced.
pub proof fn lemma_escape_attribute_unchanged(s: Seq<char>)
    requires
        !needs_attribute(s),
    ensures
        escape_attribute(s) == s,
    decreases s.len(),
{
    if s.len() > 0 {
        assert(attribute_entity(s[s.len() - 1]) is None);
        assert forall|i: int| 0 <= i < s.drop_last().len() implies attribute_entity(
            #[trigger] s.drop_last()[i],
        ) is None by {
            assert(s.drop_last()[i] == s[i]);
        }
        lemma_escape_attribute_unchanged(s.drop_last());
        assert(s.drop_last() + seq![s.last()] =~= s);
    } else {
        assert(s =~= Seq::empty());
    }
}

/// Escaped text holds none of `"`, `<`, `>` and `'`: what is left of the
/// five characters is the `&` that begins an entity.
pub proof fn lemma_escape_minimal_clean(s: Seq<char>, i: int)
    requires
        0 <= i < escape_minimal(s).len(),
    ensures
        escape_minimal(s)[i] != '"',
        escape_minimal(s)[i] != '<',
        escape_minimal(s)[i] != '>',
        escape_minimal(s)[i] != '\'',
    decreases s.len(),
{
    reveal_strlit("&quot;");
    reveal_strlit("&amp;");
    reveal_strlit("&lt;");
    reveal_strlit("&gt;");
    reveal_strlit("&#x27;");
    if s.len() > 0 {
        let head = escape_minimal(s.drop_last());
        if i < head.len() {
            lemma_escape_minimal_clean(s.drop_last(), i);
        }
    }
}

/// The escaped text, and whether any character was replaced.
pub(crate) fn escaped_minimal(inp: &str) -> (r: (String, bool))
    ensures
        r.0@ == escape_minimal(inp@),
        r.1 == needs_minimal(inp@),
{
    let mut buf = String::new();
    let mut changed = false;
    let ghost mut n: int = 0;
    for c in it: inp.chars()
        invariant
            it.seq() == inp@,
            n == it.index(),
            buf@ == escape_minimal(inp@.take(n)),
            changed == needs_minimal(inp@.take(n)),
    {
        let ghost done = inp@.take(n);
        let ghost next = inp@.take(n + 1);
        assert(next.drop_last() =~= done);
        assert(next.last() == c);
        proof {
            n = n + 1;
        }
        if c == '"' {
            buf.append("&quot;");
            changed = true;
        } else if c == '&' {
            buf.append("&amp;");
            changed = true;
        } else if c == '<' {
            buf.append("&lt;");
            changed = true;
        } else if c == '>' {
            buf.append("&gt;");
            changed = true;
        } else if c == '\'' {
            buf.append("&#x27;");
            changed = true;
        } else {
            push_char(&mut buf, c);
            proof {
                if needs_minimal(next) {
                    let k = choose|k: int|
                        0 <= k < next.len() && minimal_entity(#[trigger] next[k]) is Some;
                    assert(done[k] == next[k]);
                }
                if needs_minimal(done) {
                    let k = choose|k: int|
                        0 <= k < done.len() && minimal_entity(#[trigger] done[k]) is Some;
                    assert(done[k] == next[k]);
                }
            }
        }
        assert(minimal_entity(c) is Some ==> minimal_entity(next[next.len() - 1]) is Some);
    }
    assert(inp@.take(n) =~= inp@);
    (buf, changed)
}

/// Entity-encode the bare minimum of the given string (`"`, `&`, `<`, `>`, `'`) to allow
/// safely using that string as pure text in an SVG.
///
/// The input is handed back as it is where nothing has to be replaced.
pub fn encode_minimal(inp: &str) -> (r: Cow<'_, str>)
    ensures
        r@ == escape_minimal(inp@),
        (r matches Cow::Borrowed(_)) <==> !needs_minimal(inp@),
{
    let (buf, changed) = escaped_minimal(inp);
    if changed {
        Cow::Owned(buf)
    } else {
        proof {
            lemma_escape_minimal_unchanged(inp@);
        }
        Cow::Borrowed(inp)
    }
}

fn hex_digit_of(d: u32) -> (c: char)
    requires
        d < 16,
    ensures
        c == hex_digit(d as int),
{
    if d == 0 {
        '0'
    } else if d == 1 {
        '1'
    } else if d == 2 {
        '2'
    } else if d == 3 {
        '3'
    } else if d == 4 {
        '4'
    } else if d == 5 {
        '5'
    } else if d == 6 {
        '6'
    } else if d == 7 {
        '7'
    } else if d == 8 {
        '8'
    } else if d == 9 {
        '9'
    } else if d == 10 {
        'A'
    } else if d == 11 {
        'B'
    } else if d == 12 {
        'C'
    } else if d == 13 {
        'D'
    } else if d == 14 {
        'E'
    } else {
        'F'
    }
}

/// Appends what stands for `c` in an attribute value, and says whether
/// that is an entity.
fn push_attribute_char(buf: &mut String, c: char) -> (replaced: bool)
    ensures
        final(buf)@ == old(buf)@ + match attribute_entity(c) {
            Some(e) => e,
            None => seq![c],
        },
        replaced == attribute_entity(c) is Some,
{
    let u: u32 = c as u32;
    let alphanumeric = (0x30 <= u && u <= 0x39) || (0x41 <= u && u <= 0x5A) || (0x61 <= u && u
        <= 0x7A);
    if u >= 256 || alphanumeric {
        push_char(buf, c);
        assert(buf@ =~= old(buf)@ + seq![c]);
        false
    } else if c == '"' {
        buf.append("&quot;");
        true
    } else if c == '&' {
        buf.append("&amp;");
        true
    } else if c == '<' {
        buf.append("&lt;");
        true
    } else if c == '>' {
        buf.append("&gt;");
        true
    } else {
        buf.append("&#x");
        push_char(buf, hex_digit_of(u / 16));
        push_char(buf, hex_digit_of(u % 16));
        buf.append(";");
        assert(buf@ =~= old(buf)@ + ("&#x"@ + seq![
            hex_digit(u as int / 16),
            hex_digit(u as int % 16),
        ] + ";"@));
        true
    }
}

/// The escaped value, and whether any character was replaced.
pub(crate) fn escaped_attribute(inp: &str) -> (r: (String, bool))
    ensures
        r.0@ == escape_attribute(inp@),
        r.1 == needs_attribute(inp@),
{
    let mut buf = String::new();
    let mut changed = false;
    let ghost mut n: int = 0;
    for c in it: inp.chars()
        invariant
            it.seq() == inp@,
            n == it.index(),
            buf@ == escape_attribute(inp@.take(n)),
            changed == needs_attribute(inp@.take(n)),
    {
        let ghost done = inp@.take(n);
        let ghost next = inp@.take(n + 1);
        assert(next.drop_last() =~= done);
        assert(next.last() == c);
        proof {
            n = n + 1;
        }
        let replaced = push_attribute_char(&mut buf, c);
        if replaced {
            changed = true;
            assert(attribute_entity(next[next.len() - 1]) is Some);
        } else {
            proof {
                if needs_attribute(next) {
                    let k = choose|k: int|
                        0 <= k < next.len() && attribute_entity(#[trigger] next[k]) is Some;
                    assert(done[k] == next[k]);
                }
                if needs_attribute(done) {
                    let k = choose|k: int|
                        0 <= k < done.len() && attribute_entity(#[trigger] done[k]) is Some;
                    assert(done[k] == next[k]);
                }
            }
        }
    }
    assert(inp@.take(n) =~= inp@);
    (buf, changed)
}

/// Encode the given string to allow safely using that string as an attribute-value.
///
/// The input is handed back as it is where nothing has to be replaced.
pub fn encode_attribute(inp: &str) -> (r: Cow<'_, str>)
    ensures
        r@ == escape_attribute(inp@),
        (r matches Cow::Borrowed(_)) <==> !needs_attribute(inp@),
{
    let (buf, changed) = escaped_attribute(inp);
    if changed {
        Cow::Owned(buf)
    } else {
        proof {
            lemma_escape_attribute_unchanged(inp@);
        }
        Cow::Borrowed(inp)
    }
}

} // verus!
