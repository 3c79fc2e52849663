//! Text as a sequence of characters: reading, comparing and splitting on a separator.
//!
//! Every value of this crate travels as text, and every contract speaks of the characters
//! of that text, `Seq<char>`. The functions here are the only ones that look inside a
//! string slice; the parsers are built on them.

use vstd::prelude::*;

verus! {

/// The fields of `s` between the occurrences of `sep`.
///
/// A text without `sep` is a single field. Each `sep` closes a field and opens the next, so
/// `n` separators give `n + 1` fields, and a field is empty wherever two separators meet or
/// the text begins or ends with one. Nothing is trimmed.
pub open spec fn split(s: Seq<char>, sep: char) -> Seq<Seq<char>>
    decreases s.len(),
{
    if s.len() == 0 {
        seq![Seq::empty()]
    } else {
        let before = split(s.drop_last(), sep);
        if s.last() == sep {
            before.push(Seq::empty())
        } else {
            before.drop_last().push(before.last().push(s.last()))
        }
    }
}

/// The fields written one after another with `sep` between neighbours.
pub open spec fn join(fields: Seq<Seq<char>>, sep: char) -> Seq<char>
    decreases fields.len(),
{
    if fields.len() == 0 {
        Seq::empty()
    } else if fields.len() == 1 {
        fields[0]
    } else {
        join(fields.drop_last(), sep).push(sep) + fields.last()
    }
}

/// Whether `sep` occurs nowhere in `s`.
pub open spec fn free_of(s: Seq<char>, sep: char) -> bool {
    forall|i: int| 0 <= i < s.len() ==> s[i] != sep
}

/// The texts held by a sequence of strings.
pub open spec fn texts(strings: Seq<String>) -> Seq<Seq<char>> {
    strings.map_values(|s: String| s@)
}

/// Whether `spans` marks, field by field, where `fields` lie in `s`: the span at `i` is the
/// half-open range of positions of `s` that holds field `i`.
pub open spec fn spans_mark(
    spans: Seq<(usize, usize)>,
    s: Seq<char>,
    fields: Seq<Seq<char>>,
) -> bool {
    &&& spans.len() == fields.len()
    &&& forall|i: int|
        0 <= i < spans.len() ==> {
            &&& (#[trigger] spans[i]).0 <= spans[i].1 <= s.len()
            &&& s.subrange(spans[i].0 as int, spans[i].1 as int) == fields[i]
        }
}

/// Splitting always yields at least one field.
pub proof fn lemma_split_nonempty(s: Seq<char>, sep: char)
    ensures
        split(s, sep).len() >= 1,
    decreases s.len(),
{
    if s.len() > 0 {
        lemma_split_nonempty(s.drop_last(), sep);
    }
}

/// No field of a split holds the separator.
pub proof fn lemma_split_fields_free(s: Seq<char>, sep: char)
    ensures
        forall|i: int| 0 <= i < split(s, sep).len() ==> free_of(#[trigger] split(s, sep)[i], sep),
    decreases s.len(),
{
    if s.len() > 0 {
        lemma_split_nonempty(s.drop_last(), sep);
        lemma_split_fields_free(s.drop_last(), sep);
    }
}

/// Joining the fields of a split gives the text back: splitting loses nothing.
pub proof fn lemma_join_split(s: Seq<char>, sep: char)
    ensures
        join(split(s, sep), sep) == s,
    decreases s.len(),
{
    if s.len() == 0 {
        assert(join(split(s, sep), sep) =~= s);
    } else {
        let rest = s.drop_last();
        let before = split(rest, sep);
        lemma_split_nonempty(rest, sep);
        lemma_join_split(rest, sep);
        if s.last() == sep {
            let after = before.push(Seq::empty());
            assert(after.drop_last() =~= before);
            assert(join(after, sep) =~= s);
        } else {
            let grown = before.last().push(s.last());
            let after = before.drop_last().push(grown);
            assert(after.drop_last() =~= before.drop_last());
            if before.len() == 1 {
                assert(join(before, sep) == before[0]);
                assert(join(after, sep) =~= s);
            } else {
                assert(join(before, sep) == join(before.drop_last(), sep).push(sep)
                    + before.last());
                assert(after.last() == grown);
                assert(join(after, sep) == join(before.drop_last(), sep).push(sep) + grown);
                assert(rest.push(s.last()) =~= s);
                assert(join(after, sep) =~= s);
            }
        }
    }
}

/// A text without the separator is its own single field.
pub proof fn lemma_split_plain(s: Seq<char>, sep: char)
    requires
        free_of(s, sep),
    ensures
        split(s, sep) == seq![s],
    decreases s.len(),
{
    if s.len() == 0 {
        assert(s =~= Seq::empty());
    } else {
        lemma_split_plain(s.drop_last(), sep);
        assert(s.drop_last().push(s.last()) =~= s);
        assert(split(s, sep) =~= seq![s]);
    }
}

/// A text that splits into a single field holds no separator.
pub proof fn lemma_single_field_free(s: Seq<char>, sep: char)
    requires
        split(s, sep).len() == 1,
    ensures
        free_of(s, sep),
    decreases s.len(),
{
    if s.len() > 0 {
        lemma_split_nonempty(s.drop_last(), sep);
        lemma_single_field_free(s.drop_last(), sep);
        assert forall|i: int| 0 <= i < s.len() implies s[i] != sep by {
            if i < s.len() - 1 {
                assert(s.drop_last()[i] == s[i]);
            }
        }
    }
}

/// The fields of two texts with a separator between them are the fields of the first and
/// then those of the second.
pub proof fn lemma_split_concat(x: Seq<char>, y: Seq<char>, sep: char)
    ensures
        split(x.push(sep) + y, sep) == split(x, sep) + split(y, sep),
    decreases y.len(),
{
    let whole = x.push(sep) + y;
    if y.len() == 0 {
        assert(whole.drop_last() =~= x);
        assert(split(whole, sep) =~= split(x, sep) + split(y, sep));
    } else {
        let shorter = y.drop_last();
        lemma_split_concat(x, shorter, sep);
        lemma_split_nonempty(shorter, sep);
        assert(whole.drop_last() =~= x.push(sep) + shorter);
        assert(whole.last() == y.last());
        assert(split(whole, sep) =~= split(x, sep) + split(y, sep));
    }
}

/// Splitting a joined list of fields gives the fields back, provided there is at least one
/// field and none holds the separator. With `lemma_join_split` this makes `split` the
/// inverse of `join`.
pub proof fn lemma_split_join(fields: Seq<Seq<char>>, sep: char)
    requires
        fields.len() >= 1,
        forall|i: int| 0 <= i < fields.len() ==> free_of(#[trigger] fields[i], sep),
    ensures
        split(join(fields, sep), sep) == fields,
    decreases fields.len(),
{
    if fields.len() == 1 {
        lemma_split_plain(fields[0], sep);
        assert(seq![fields[0]] =~= fields);
    } else {
        let init = fields.drop_last();
        lemma_split_join(init, sep);
        lemma_split_concat(join(init, sep), fields.last(), sep);
        lemma_split_plain(fields.last(), sep);
        assert(init + seq![fields.last()] =~= fields);
    }
}

/// Three fields joined: the first, a separator, the second, a separator, the third.
pub proof fn lemma_join_three(a: Seq<char>, b: Seq<char>, c: Seq<char>, sep: char)
    ensures
        join(seq![a, b, c], sep) == (a.push(sep) + b).push(sep) + c,
{
    let three = seq![a, b, c];
    let two = seq![a, b];
    assert(three.drop_last() =~= two);
    assert(two.drop_last() =~= seq![a]);
    assert(join(seq![a], sep) == a);
    assert(join(two, sep) == join(seq![a], sep).push(sep) + b);
}

/// The characters of `s`, in order.
pub fn chars_of(s: &str) -> (chars: Vec<char>)
    ensures
        chars@ == s@,
{
    let mut chars: Vec<char> = Vec::new();
    for c in it: s.chars()
        invariant
            chars@ == it.seq().take(it.index() as int),
            it.seq() == s@,
    {
        chars.push(c);
    }
    chars
}

/// Whether two string slices hold the same characters.
pub fn same_text(a: &str, b: &str) -> (same: bool)
    ensures
        same == (a@ == b@),
{
    let x = chars_of(a);
    let y = chars_of(b);
    if x.len() != y.len() {
        return false;
    }
    let mut i: usize = 0;
    while i < x.len()
        invariant
            i <= x.len(),
            x.len() == y.len(),
            x@ == a@,
            y@ == b@,
            forall|j: int| 0 <= j < i ==> x@[j] == y@[j],
        decreases x.len() - i,
    {
        if x[i] != y[i] {
            assert(x@[i as int] != y@[i as int]);
            return false;
        }
        i += 1;
    }
    assert(x@ =~= y@);
    true
}

/// Where the fields of `chars` between occurrences of `sep` begin and end.
pub fn split_spans(chars: &Vec<char>, sep: char) -> (spans: Vec<(usize, usize)>)
    ensures
        spans_mark(spans@, chars@, split(chars@, sep)),
{
    let mut spans: Vec<(usize, usize)> = Vec::new();
    let mut start: usize = 0;
    let mut i: usize = 0;
    while i < chars.len()
        invariant
            start <= i <= chars.len(),
            split(chars@.take(i as int), sep).len() == spans.len() + 1,
            split(chars@.take(i as int), sep).last() == chars@.subrange(start as int, i as int),
            forall|k: int|
                0 <= k < spans.len() ==> {
                    &&& (#[trigger] spans[k]).0 <= spans[k].1 <= chars.len()
                    &&& chars@.subrange(spans[k].0 as int, spans[k].1 as int) == split(
                        chars@.take(i as int),
                        sep,
                    )[k]
                },
        decreases chars.len() - i,
    {
        let ghost seen = chars@.take(i as int);
        let ghost next = chars@.take(i + 1);
        proof {
            assert(next.drop_last() =~= seen);
            assert(next.last() == chars@[i as int]);
        }
        if chars[i] == sep {
            spans.push((start, i));
            start = i + 1;
            proof {
                assert(chars@.subrange(start as int, i + 1) =~= Seq::empty());
            }
        } else {
            proof {
                assert(chars@.subrange(start as int, i as int).push(chars@[i as int])
                    =~= chars@.subrange(start as int, i + 1));
            }
        }
        i += 1;
    }
    proof {
        assert(chars@.take(i as int) =~= chars@);
    }
    spans.push((start, i));
    spans
}

/// The fields of `text` between occurrences of `sep`, each as a string of its own.
pub fn split_text(text: &str, sep: char) -> (fields: Vec<String>)
    ensures
        texts(fields@) == split(text@, sep),
{
    let chars = chars_of(text);
    let spans = split_spans(&chars, sep);
    let mut fields: Vec<String> = Vec::new();
    let mut i: usize = 0;
    while i < spans.len()
        invariant
            i <= spans.len(),
            chars@ == text@,
            spans_mark(spans@, chars@, split(text@, sep)),
            fields.len() == i,
            forall|k: int| 0 <= k < i ==> (#[trigger] fields@[k])@ == split(text@, sep)[k],
        decreases spans.len() - i,
    {
        let (from, to) = spans[i];
        fields.push(text.substring_char(from, to).to_owned());
        i += 1;
    }
    assert(texts(fields@) =~= split(text@, sep));
    fields
}

} // verus!
