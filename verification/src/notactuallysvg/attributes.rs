//! The attributes of an element: pairs of key and value, sorted by key.
use crate::strings::{lemma_lex_lt_total, lemma_lex_lt_transitive, lex_lt, str_lt};
use vstd::prelude::*;

verus! {

/// What a list of attributes holds: pairs of key and value.
pub type AttrSeq = Seq<(Seq<char>, Seq<char>)>;

/// The keys stand in strictly ascending order, so that no key occurs twice.
pub open spec fn attrs_sorted(s: AttrSeq) -> bool {
    forall|i: int, j: int| 0 <= i < j < s.len() ==> lex_lt(#[trigger] s[i].0, #[trigger] s[j].0)
}

/// The list with `key` set to `value`: a pair with that key is replaced,
/// otherwise the new pair goes in front of the first larger key.
pub open spec fn attrs_insert(s: AttrSeq, key: Seq<char>, value: Seq<char>) -> AttrSeq
    decreases s.len(),
{
    if s.len() == 0 {
        seq![(key, value)]
    } else if s[0].0 == key {
        seq![(key, value)] + s.drop_first()
    } else if lex_lt(key, s[0].0) {
        seq![(key, value)] + s
    } else {
        seq![s[0]] + attrs_insert(s.drop_first(), key, value)
    }
}

/// The list with every pair of `other` set in turn.
pub open spec fn attrs_extend(s: AttrSeq, other: AttrSeq) -> AttrSeq
    decreases other.len(),
{
    if other.len() == 0 {
        s
    } else {
        attrs_insert(attrs_extend(s, other.drop_last()), other.last().0, other.last().1)
    }
}

/// The value that the list holds for `key`, if any.
pub open spec fn attrs_get(s: AttrSeq, key: Seq<char>) -> Option<Seq<char>>
    decreases s.len(),
{
    if s.len() == 0 {
        None
    } else if s[0].0 == key {
        Some(s[0].1)
    } else {
        attrs_get(s.drop_first(), key)
    }
}

/// Inserting keeps the keys of the list and adds only `key`.
proof fn lemma_insert_keys(s: AttrSeq, key: Seq<char>, value: Seq<char>, i: int)
    requires
        0 <= i < attrs_insert(s, key, value).len(),
    ensures
        attrs_insert(s, key, value)[i].0 == key || exists|j: int|
            0 <= j < s.len() && #[trigger] s[j].0 == attrs_insert(s, key, value)[i].0,
    decreases s.len(),
{
    let r = attrs_insert(s, key, value);
    if s.len() == 0 {
    } else if s[0].0 == key {
        if i > 0 {
            assert(s[i].0 == r[i].0);
        }
    } else if lex_lt(key, s[0].0) {
        if i > 0 {
            assert(s[i - 1].0 == r[i].0);
        }
    } else {
        if i == 0 {
            assert(s[0].0 == r[0].0);
        } else {
            lemma_insert_keys(s.drop_first(), key, value, i - 1);
            let t = attrs_insert(s.drop_first(), key, value);
            if t[i - 1].0 != key {
                let j = choose|j: int|
                    0 <= j < s.drop_first().len() && #[trigger] s.drop_first()[j].0 == t[i - 1].0;
                assert(s[j + 1].0 == r[i].0);
            }
        }
    }
}

/// Setting a key in a sorted list leaves it sorted: the attributes are
/// always written out in the order of their keys, each key once.
pub proof fn lemma_insert_sorted(s: AttrSeq, key: Seq<char>, value: Seq<char>)
    requires
        attrs_sorted(s),
    ensures
        attrs_sorted(attrs_insert(s, key, value)),
    decreases s.len(),
{
    let r = attrs_insert(s, key, value);
    if s.len() == 0 {
    } else if s[0].0 == key {
        assert forall|i: int, j: int| 0 <= i < j < r.len() implies lex_lt(
            #[trigger] r[i].0,
            #[trigger] r[j].0,
        ) by {
            assert(r[j] == s[j]);
            if i > 0 {
                assert(r[i] == s[i]);
            } else {
                assert(lex_lt(s[0].0, s[j].0));
            }
        }
    } else if lex_lt(key, s[0].0) {
        assert forall|i: int, j: int| 0 <= i < j < r.len() implies lex_lt(
            #[trigger] r[i].0,
            #[trigger] r[j].0,
        ) by {
            assert(r[j] == s[j - 1]);
            if i > 0 {
                assert(r[i] == s[i - 1]);
            } else if j > 1 {
                assert(lex_lt(s[0].0, s[j - 1].0));
                lemma_lex_lt_transitive(key, s[0].0, s[j - 1].0);
            }
        }
    } else {
        let rest = s.drop_first();
        assert forall|i: int, j: int| 0 <= i < j < rest.len() implies lex_lt(
            #[trigger] rest[i].0,
            #[trigger] rest[j].0,
        ) by {
            assert(lex_lt(s[i + 1].0, s[j + 1].0));
        }
        lemma_insert_sorted(rest, key, value);
        let t = attrs_insert(rest, key, value);
        lemma_lex_lt_total(key, s[0].0);
        assert forall|i: int, j: int| 0 <= i < j < r.len() implies lex_lt(
            #[trigger] r[i].0,
            #[trigger] r[j].0,
        ) by {
            assert(r[j] == t[j - 1]);
            if i > 0 {
                assert(r[i] == t[i - 1]);
                assert(lex_lt(t[i - 1].0, t[j - 1].0));
            } else {
                lemma_insert_keys(rest, key, value, j - 1);
                if t[j - 1].0 != key {
                    let k = choose|k: int|
                        0 <= k < rest.len() && #[trigger] rest[k].0 == t[j - 1].0;
                    assert(lex_lt(s[0].0, s[k + 1].0));
                }
            }
        }
    }
}

/// Setting every pair of another list in a sorted list leaves it sorted.
pub proof fn lemma_extend_sorted(s: AttrSeq, other: AttrSeq)
    requires
        attrs_sorted(s),
    ensures
        attrs_sorted(attrs_extend(s, other)),
    decreases other.len(),
{
    if other.len() > 0 {
        lemma_extend_sorted(s, other.drop_last());
        lemma_insert_sorted(attrs_extend(s, other.drop_last()), other.last().0, other.last().1);
    }
}

/// After setting `key` to `value` the list holds `value` for `key`, and for
/// every other key what it held before.
pub proof fn lemma_insert_get(s: AttrSeq, key: Seq<char>, value: Seq<char>, other: Seq<char>)
    ensures
        attrs_get(attrs_insert(s, key, value), key) == Some(value),
        other != key ==> attrs_get(attrs_insert(s, key, value), other) == attrs_get(s, other),
    decreases s.len(),
{
    let r = attrs_insert(s, key, value);
    if s.len() == 0 {
        assert(r.drop_first() =~= s);
    } else if s[0].0 == key {
        assert(r.drop_first() =~= s.drop_first());
    } else if lex_lt(key, s[0].0) {
        assert(r.drop_first() =~= s);
    } else {
        lemma_insert_get(s.drop_first(), key, value, other);
        assert(r.drop_first() =~= attrs_insert(s.drop_first(), key, value));
    }
}

/// Where the first `i` keys are all smaller than `key`, the new pair goes
/// in behind them.
proof fn lemma_insert_skips(s: AttrSeq, key: Seq<char>, value: Seq<char>, i: int)
    requires
        0 <= i <= s.len(),
        forall|j: int| 0 <= j < i ==> (#[trigger] s[j]).0 != key && !lex_lt(key, s[j].0),
    ensures
        attrs_insert(s, key, value) == s.take(i) + attrs_insert(s.skip(i), key, value),
    decreases i,
{
    if i == 0 {
        assert(s.skip(0) =~= s);
        assert(s.take(0) + attrs_insert(s, key, value) =~= attrs_insert(s, key, value));
    } else {
        let rest = s.drop_first();
        assert forall|j: int| 0 <= j < i - 1 implies (#[trigger] rest[j]).0 != key && !lex_lt(
            key,
            rest[j].0,
        ) by {
            assert(rest[j] == s[j + 1]);
        }
        lemma_insert_skips(rest, key, value, i - 1);
        assert(rest.skip(i - 1) =~= s.skip(i));
        assert(seq![s[0]] + (rest.take(i - 1) + attrs_insert(s.skip(i), key, value)) =~= s.take(i)
            + attrs_insert(s.skip(i), key, value));
    }
}

/// The attributes of an element or of a node, kept sorted by key.
#[derive(Debug)]
pub struct Attributes {
    entries: Vec<(String, String)>,
}

impl View for Attributes {
    type V = AttrSeq;

    closed spec fn view(&self) -> AttrSeq {
        Seq::new(self.entries@.len(), |i: int| (self.entries@[i].0@, self.entries@[i].1@))
    }
}

impl Clone for Attributes {
    fn clone(&self) -> (r: Self)
        ensures
            r@ == self@,
    {
        proof {
            use_type_invariant(self);
        }
        let mut entries: Vec<(String, String)> = Vec::new();
        let mut i: usize = 0;
        while i < self.entries.len()
            invariant
                i <= self.entries.len(),
                entries@.len() == i,
                forall|j: int|
                    0 <= j < i ==> (#[trigger] entries@[j]).0@ == self.entries@[j].0@
                        && entries@[j].1@ == self.entries@[j].1@,
            decreases self.entries.len() - i,
        {
            entries.push((self.entries[i].0.clone(), self.entries[i].1.clone()));
            i += 1;
        }
        assert(Seq::new(entries@.len(), |i: int| (entries@[i].0@, entries@[i].1@)) =~= self@);
        Attributes { entries }
    }
}

impl Default for Attributes {
    fn default() -> (a: Self)
        ensures
            a@ == AttrSeq::empty(),
    {
        Attributes::new()
    }
}

impl Attributes {
    #[verifier::type_invariant]
    spec fn ordered(self) -> bool {
        attrs_sorted(self@)
    }

    /// No attributes.
    pub fn new() -> (a: Self)
        ensures
            a@ == AttrSeq::empty(),
    {
        let a = Attributes { entries: Vec::new() };
        assert(a@ =~= AttrSeq::empty());
        a
    }

    /// The number of attributes. Every list of attributes is sorted by key.
    pub fn len(&self) -> (n: usize)
        ensures
            n == self@.len(),
            attrs_sorted(self@),
    {
        proof {
            use_type_invariant(self);
        }
        self.entries.len()
    }

    /// The key of the attribute at position `i`.
    pub fn key(&self, i: usize) -> (k: &str)
        requires
            i < self@.len(),
        ensures
            k@ == self@[i as int].0,
    {
        self.entries[i].0.as_str()
    }

    /// The value of the attribute at position `i`.
    pub fn value(&self, i: usize) -> (v: &str)
        requires
            i < self@.len(),
        ensures
            v@ == self@[i as int].1,
    {
        self.entries[i].1.as_str()
    }

    /// The value of the attribute `key`, if it is set.
    pub fn get(&self, key: &str) -> (r: Option<&str>)
        ensures
            match r {
                Some(v) => attrs_get(self@, key@) == Some(v@),
                None => attrs_get(self@, key@) is None,
            },
    {
        let mut i: usize = 0;
        assert(self@.skip(0) =~= self@);
        while i < self.entries.len()
            invariant
                i <= self.entries.len(),
                attrs_get(self@, key@) == attrs_get(self@.skip(i as int), key@),
            decreases self.entries.len() - i,
        {
            if crate::strings::str_eq(self.entries[i].0.as_str(), key) {
                return Some(self.entries[i].1.as_str());
            }
            assert(self@.skip(i as int).drop_first() =~= self@.skip(i + 1));
            i += 1;
        }
        None
    }

    /// Sets the attribute `key` to `value`, replacing an earlier value.
    pub fn insert(&mut self, key: String, value: String)
        ensures
            final(self)@ == attrs_insert(old(self)@, key@, value@),
            attrs_sorted(final(self)@),
    {
        proof {
            use_type_invariant(&*self);
        }
        let ghost before = self@;
        let mut entries: Vec<(String, String)> = Vec::new();
        core::mem::swap(&mut entries, &mut self.entries);
        let ghost held = entries@;
        assert(before =~= Seq::new(held.len(), |i: int| (held[i].0@, held[i].1@)));
        proof {
            lemma_insert_sorted(before, key@, value@);
        }
        let mut i: usize = 0;
        let mut at: Option<(usize, bool)> = None;
        while i < entries.len()
            invariant_except_break
                at is None,
            invariant
                i <= entries.len(),
                entries@ == held,
                forall|j: int|
                    0 <= j < i ==> (#[trigger] before[j]).0 != key@ && !lex_lt(key@, before[j].0),
                before =~= Seq::new(held.len(), |i: int| (held[i].0@, held[i].1@)),
            ensures
                i <= entries.len(),
                entries@ == held,
                forall|j: int|
                    0 <= j < i ==> (#[trigger] before[j]).0 != key@ && !lex_lt(key@, before[j].0),
                match at {
                    Some((k, replace)) => k == i && i < entries.len() && replace == (before[i as int].0
                        == key@) && (replace || lex_lt(key@, before[i as int].0)),
                    None => i == entries.len(),
                },
            decreases entries.len() - i,
        {
            let replace = crate::strings::str_eq(entries[i].0.as_str(), key.as_str());
            let before_it = str_lt(key.as_str(), entries[i].0.as_str());
            if replace || before_it {
                at = Some((i, replace));
                break ;
            }
            i += 1;
        }
        proof {
            lemma_insert_skips(before, key@, value@, i as int);
        }
        match at {
            Some((k, true)) => {
                entries.set(k, (key, value));
            },
            Some((k, false)) => {
                entries.insert(k, (key, value));
            },
            None => {
                entries.push((key, value));
            },
        }
        let ghost after = Seq::new(entries@.len(), |i: int| (entries@[i].0@, entries@[i].1@));
        proof {
            match at {
                Some((k, true)) => {
                    assert(after =~= before.take(i as int) + (seq![(key@, value@)] + before.skip(
                        i as int,
                    ).drop_first()));
                },
                Some((k, false)) => {
                    assert(after =~= before.take(i as int) + (seq![(key@, value@)] + before.skip(
                        i as int,
                    )));
                },
                None => {
                    assert(before.skip(i as int) =~= AttrSeq::empty());
                    assert(after =~= before.take(i as int) + seq![(key@, value@)]);
                },
            }
        }
        self.entries = entries;
        assert(self@ =~= after);
    }

    /// Sets every attribute of `other` in turn.
    pub fn extend(&mut self, other: &Attributes)
        ensures
            final(self)@ == attrs_extend(old(self)@, other@),
            attrs_sorted(final(self)@),
    {
        proof {
            use_type_invariant(&*self);
        }
        let mut i: usize = 0;
        while i < other.len()
            invariant
                i <= other@.len(),
                self@ == attrs_extend(old(self)@, other@.take(i as int)),
                attrs_sorted(self@),
            decreases other@.len() - i,
        {
            let k = String::from_str(other.key(i));
            let v = String::from_str(other.value(i));
            self.insert(k, v);
            assert(other@.take(i + 1).drop_last() =~= other@.take(i as int));
            i += 1;
        }
        assert(other@.take(i as int) =~= other@);
    }
}

} // verus!
