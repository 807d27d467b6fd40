//! Text primitives shared by the emitters: searching, indenting and joining
//! strings, and the order in which keys are kept. Everything is specified
//! over the sequence of characters a string holds.

use vstd::prelude::*;
use vstd::std_specs::iter::IteratorSpec;
use vstd::string::*;
use vstd::utf8::*;

verus! {

/// `s` with every occurrence of `from` replaced by the text `to`.
pub open spec fn replace_char(s: Seq<char>, from: char, to: Seq<char>) -> Seq<char>
    decreases s.len(),
{
    if s.len() == 0 {
        s
    } else {
        replace_char(s.drop_last(), from, to) + (if s.last() == from {
            to
        } else {
            seq![s.last()]
        })
    }
}

/// The parts of `parts`, in order, with `sep` between each two neighbours.
pub open spec fn join(parts: Seq<Seq<char>>, sep: Seq<char>) -> Seq<char>
    decreases parts.len(),
{
    if parts.len() == 0 {
        Seq::empty()
    } else if parts.len() == 1 {
        parts[0]
    } else {
        join(parts.drop_last(), sep) + sep + parts.last()
    }
}

/// What each of the strings holds.
pub open spec fn views(parts: Seq<String>) -> Seq<Seq<char>> {
    parts.map_values(|p: String| p@)
}

/// While a text is split: the parts that are complete, and the part that
/// is still growing.
pub open spec fn split_state(s: Seq<char>, sep: char) -> (Seq<Seq<char>>, Seq<char>)
    decreases s.len(),
{
    if s.len() == 0 {
        (Seq::empty(), Seq::empty())
    } else {
        let (done, current) = split_state(s.drop_last(), sep);
        if s.last() == sep {
            (done.push(current), Seq::empty())
        } else {
            (done, current.push(s.last()))
        }
    }
}

/// The parts of `s` between the occurrences of `sep`. A text without `sep`
/// is one part, the empty text too.
pub open spec fn split(s: Seq<char>, sep: char) -> Seq<Seq<char>> {
    split_state(s, sep).0.push(split_state(s, sep).1)
}

/// While a text is split, the complete parts and the growing part joined
/// by the separator are the text read so far, and the growing part holds no
/// separator.
pub proof fn lemma_split_state_joins(s: Seq<char>, sep: char)
    ensures
        join(split_state(s, sep).0.push(split_state(s, sep).1), seq![sep]) == s,
        !split_state(s, sep).1.contains(sep),
    decreases s.len(),
{
    if s.len() == 0 {
        let parts = split_state(s, sep).0.push(split_state(s, sep).1);
        assert(parts.len() == 1);
        assert(join(parts, seq![sep]) =~= s);
    } else {
        let front = s.drop_last();
        lemma_split_state_joins(front, sep);
        let (done, current) = split_state(front, sep);
        let before = done.push(current);
        assert(before.drop_last() =~= done);
        if s.last() == sep {
            let parts = done.push(current).push(Seq::<char>::empty());
            assert(parts.drop_last() =~= before);
            assert(join(parts, seq![sep]) =~= join(before, seq![sep]) + seq![sep]);
            assert(s =~= front + seq![sep]);
        } else {
            let grown = current.push(s.last());
            let parts = done.push(grown);
            assert(parts.drop_last() =~= done);
            if done.len() == 0 {
                assert(join(before, seq![sep]) =~= current);
                assert(join(parts, seq![sep]) =~= grown);
            } else {
                assert(join(before, seq![sep]) =~= join(done, seq![sep]) + seq![sep] + current);
                assert(join(parts, seq![sep]) =~= join(done, seq![sep]) + seq![sep] + grown);
            }
            assert(s =~= front + seq![s.last()]);
            assert forall|i: int| 0 <= i < grown.len() implies grown[i] != sep by {
                if i < current.len() {
                    assert(current.contains(current[i]));
                }
            }
        }
    }
}

/// The parts of a text, joined by the separator at which it was split, are
/// the text again.
pub proof fn lemma_join_split(s: Seq<char>, sep: char)
    ensures
        join(split(s, sep), seq![sep]) == s,
        split(s, sep).len() >= 1,
{
    lemma_split_state_joins(s, sep);
}

/// `s` in parentheses when it holds a space, and `s` itself otherwise.
pub open spec fn parenthesized(s: Seq<char>) -> Seq<char> {
    if s.contains(' ') {
        "("@ + s + ")"@
    } else {
        s
    }
}

/// Lexicographic order on byte strings: a proper prefix comes first, and
/// otherwise the first differing byte decides.
pub open spec fn bytes_lt(a: Seq<u8>, b: Seq<u8>) -> bool
    decreases a.len(),
{
    if b.len() == 0 {
        false
    } else if a.len() == 0 {
        true
    } else if a[0] != b[0] {
        a[0] < b[0]
    } else {
        bytes_lt(a.drop_first(), b.drop_first())
    }
}

/// The order of keys: lexicographic on the UTF-8 encoding, which is how
/// strings compare with `<`.
pub open spec fn key_lt(a: Seq<char>, b: Seq<char>) -> bool {
    bytes_lt(encode_utf8(a), encode_utf8(b))
}

/// No byte string comes before itself.
pub proof fn lemma_bytes_lt_irreflexive(a: Seq<u8>)
    ensures
        !bytes_lt(a, a),
    decreases a.len(),
{
    if a.len() > 0 {
        lemma_bytes_lt_irreflexive(a.drop_first());
    }
}

/// Two different byte strings are ordered one way or the other.
pub proof fn lemma_bytes_lt_total(a: Seq<u8>, b: Seq<u8>)
    ensures
        bytes_lt(a, b) || bytes_lt(b, a) || a == b,
    decreases a.len(),
{
    if a.len() > 0 && b.len() > 0 && a[0] == b[0] {
        lemma_bytes_lt_total(a.drop_first(), b.drop_first());
        if a.drop_first() == b.drop_first() {
            assert(a =~= seq![a[0]] + a.drop_first());
            assert(b =~= seq![b[0]] + b.drop_first());
        }
    } else if a.len() == 0 && b.len() == 0 {
        assert(a =~= b);
    }
}

/// The order on byte strings is transitive.
pub proof fn lemma_bytes_lt_transitive(a: Seq<u8>, b: Seq<u8>, c: Seq<u8>)
    requires
        bytes_lt(a, b),
        bytes_lt(b, c),
    ensures
        bytes_lt(a, c),
    decreases a.len(),
{
    if a.len() > 0 && a[0] == b[0] && b[0] == c[0] {
        lemma_bytes_lt_transitive(a.drop_first(), b.drop_first(), c.drop_first());
    }
}

/// The key order is a strict total order on strings: irreflexive, transitive,
/// and any two different keys are ordered.
pub proof fn lemma_key_lt_strict_total(a: Seq<char>, b: Seq<char>, c: Seq<char>)
    ensures
        !key_lt(a, a),
        key_lt(a, b) && key_lt(b, c) ==> key_lt(a, c),
        key_lt(a, b) || key_lt(b, a) || a == b,
{
    lemma_bytes_lt_irreflexive(encode_utf8(a));
    if key_lt(a, b) && key_lt(b, c) {
        lemma_bytes_lt_transitive(encode_utf8(a), encode_utf8(b), encode_utf8(c));
    }
    lemma_bytes_lt_total(encode_utf8(a), encode_utf8(b));
    if encode_utf8(a) == encode_utf8(b) {
        encode_utf8_decode_utf8(a);
        encode_utf8_decode_utf8(b);
    }
}

/// Appends one character to a string.
///
/// Trusted: stands for `String::push`, which std documents as appending the
/// given character to the end of the string.
#[verifier::external_body]
pub(crate) fn push_char(s: &mut String, c: char)
    ensures
        final(s)@ == old(s)@.push(c),
{
    s.push(c);
}

/// Whether the character `c` occurs in `s`.
pub fn contains_char(s: &str, c: char) -> (found: bool)
    ensures
        found == s@.contains(c),
{
    broadcast use group_string_axioms;

    let mut it = s.chars();
    let ghost mut seen: int = 0;
    loop
        invariant
            0 <= seen <= s@.len(),
            it.obeys_prophetic_iter_laws(),
            it.remaining() == s@.subrange(seen, s@.len() as int),
            forall|j: int| 0 <= j < seen ==> s@[j] != c,
            it.decrease() is Some,
        decreases it.decrease()->0,
    {
        match it.next() {
            None => {
                return false;
            },
            Some(d) => {
                assert(d == s@[seen]);
                if d == c {
                    return true;
                }
                proof {
                    assert(s@.subrange(seen, s@.len() as int).drop_first() =~= s@.subrange(
                        seen + 1,
                        s@.len() as int,
                    ));
                    seen = seen + 1;
                }
            },
        }
    }
}

/// The first character of `s`, if it has one.
pub fn first_char(s: &str) -> (c: Option<char>)
    ensures
        s@.len() == 0 ==> c is None,
        s@.len() > 0 ==> c == Some(s@[0]),
{
    broadcast use group_string_axioms;

    let mut it = s.chars();
    it.next()
}

/// A copy of `s` in which the text `to` stands for every `from`.
pub fn replace_char_with(s: &str, from: char, to: &str) -> (out: String)
    ensures
        out@ == replace_char(s@, from, to@),
{
    broadcast use group_string_axioms;

    let mut out = String::new();
    let mut it = s.chars();
    let ghost mut seen: int = 0;
    loop
        invariant
            0 <= seen <= s@.len(),
            it.obeys_prophetic_iter_laws(),
            it.remaining() == s@.subrange(seen, s@.len() as int),
            out@ == replace_char(s@.take(seen), from, to@),
            it.decrease() is Some,
        decreases it.decrease()->0,
    {
        match it.next() {
            None => {
                assert(s@.take(seen) =~= s@);
                return out;
            },
            Some(d) => {
                assert(d == s@[seen]);
                if d == from {
                    out.append(to);
                } else {
                    push_char(&mut out, d);
                }
                proof {
                    assert(s@.subrange(seen, s@.len() as int).drop_first() =~= s@.subrange(
                        seen + 1,
                        s@.len() as int,
                    ));
                    assert(s@.take(seen + 1).drop_last() =~= s@.take(seen));
                    assert(s@.take(seen + 1).last() == d);
                    assert(out@ =~= replace_char(s@.take(seen + 1), from, to@));
                    seen = seen + 1;
                }
            },
        }
    }
}

/// `s` itself, or `s` in parentheses when it holds a space, appended to `out`.
pub fn push_parenthesized(out: &mut String, s: &str)
    ensures
        final(out)@ == old(out)@ + parenthesized(s@),
{
    if contains_char(s, ' ') {
        out.append("(");
        out.append(s);
        out.append(")");
        assert(final(out)@ =~= old(out)@ + ("("@ + s@ + ")"@));
    } else {
        out.append(s);
    }
}

/// The parts of `s` between the occurrences of `sep`.
pub fn split_on(s: &str, sep: char) -> (parts: Vec<String>)
    ensures
        views(parts@) == split(s@, sep),
{
    broadcast use group_string_axioms;

    let mut parts: Vec<String> = Vec::new();
    let mut current = String::new();
    let mut it = s.chars();
    let ghost mut seen: int = 0;
    proof {
        assert(views(parts@) =~= Seq::empty());
    }
    loop
        invariant
            0 <= seen <= s@.len(),
            it.obeys_prophetic_iter_laws(),
            it.remaining() == s@.subrange(seen, s@.len() as int),
            split_state(s@.take(seen), sep) == (views(parts@), current@),
            it.decrease() is Some,
        decreases it.decrease()->0,
    {
        match it.next() {
            None => {
                proof {
                    assert(s@.take(seen) =~= s@);
                }
                let ghost done = views(parts@);
                parts.push(current);
                proof {
                    assert(views(parts@) =~= done.push(current@));
                }
                return parts;
            },
            Some(c) => {
                proof {
                    assert(c == s@[seen]);
                    assert(s@.subrange(seen, s@.len() as int).drop_first() =~= s@.subrange(
                        seen + 1,
                        s@.len() as int,
                    ));
                    assert(s@.take(seen + 1).drop_last() =~= s@.take(seen));
                    assert(s@.take(seen + 1).last() == c);
                }
                if c == sep {
                    let ghost done = views(parts@);
                    let ghost complete = current@;
                    parts.push(current);
                    current = String::new();
                    proof {
                        assert(views(parts@) =~= done.push(complete));
                    }
                } else {
                    push_char(&mut current, c);
                }
                proof {
                    seen = seen + 1;
                }
            },
        }
    }
}

/// The strings of `parts` joined by `sep`.
pub fn join_strings(parts: &Vec<String>, sep: &str) -> (out: String)
    ensures
        out@ == join(views(parts@), sep@),
{
    let ghost views = views(parts@);
    let mut out = String::new();
    let mut i: usize = 0;
    while i < parts.len()
        invariant
            i <= parts.len(),
            views == crate::text::views(parts@),
            out@ == join(views.take(i as int), sep@),
        decreases parts.len() - i,
    {
        if i > 0 {
            out.append(sep);
        }
        out.append(parts[i].as_str());
        proof {
            assert(views.take(i + 1).drop_last() =~= views.take(i as int));
            assert(views.take(i + 1).last() == parts@[i as int]@);
            if i == 0 {
                assert(views.take(1)[0] == parts@[0]@);
                assert(out@ =~= parts@[0]@);
            } else {
                assert(out@ =~= join(views.take(i as int), sep@) + sep@ + parts@[i as int]@);
            }
        }
        i += 1;
    }
    proof {
        assert(views.take(i as int) =~= views);
    }
    out
}

/// Whether `a` and `b` hold the same characters.
pub fn str_eq(a: &str, b: &str) -> (same: bool)
    ensures
        same == (a@ == b@),
{
    let x = a.as_bytes();
    let y = b.as_bytes();
    proof {
        encode_utf8_decode_utf8(a@);
        encode_utf8_decode_utf8(b@);
    }
    if x.len() != y.len() {
        return false;
    }
    let mut i: usize = 0;
    while i < x.len()
        invariant
            i <= x@.len(),
            x@.len() == y@.len(),
            x@ == encode_utf8(a@),
            y@ == encode_utf8(b@),
            forall|j: int| 0 <= j < i ==> x@[j] == y@[j],
        decreases x@.len() - i,
    {
        if x[i] != y[i] {
            return false;
        }
        i += 1;
    }
    assert(x@ =~= y@);
    true
}

/// Whether `a` comes before `b` in the key order.
pub fn str_lt(a: &str, b: &str) -> (less: bool)
    ensures
        less == key_lt(a@, b@),
{
    let x = a.as_bytes();
    let y = b.as_bytes();
    let mut i: usize = 0;
    proof {
        assert(x@.skip(0) =~= x@);
        assert(y@.skip(0) =~= y@);
    }
    while i < x.len() && i < y.len()
        invariant
            i <= x@.len(),
            i <= y@.len(),
            x@ == encode_utf8(a@),
            y@ == encode_utf8(b@),
            key_lt(a@, b@) == bytes_lt(x@.skip(i as int), y@.skip(i as int)),
        decreases x@.len() - i,
    {
        proof {
            assert(x@.skip(i as int).drop_first() =~= x@.skip(i + 1));
            assert(y@.skip(i as int).drop_first() =~= y@.skip(i + 1));
            assert(x@.skip(i as int)[0] == x@[i as int]);
            assert(y@.skip(i as int)[0] == y@[i as int]);
        }
        if x[i] != y[i] {
            return x[i] < y[i];
        }
        i += 1;
    }
    i < y.len()
}

} // verus!
