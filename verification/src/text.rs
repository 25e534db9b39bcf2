//! Character-level helpers shared by the parsers.

use vstd::prelude::*;
use vstd::std_specs::iter::IteratorSpec;

verus! {

/// The characters of `s`, in order.
pub fn chars_of(s: &str) -> (out: Vec<char>)
    ensures
        out@ == s@,
{
    let mut out: Vec<char> = Vec::new();
    for c in it: s.chars()
        invariant
            it.seq() == s@,
            out@ == it.seq().take(it.index() as int),
    {
        out.push(c);
    }
    out
}

/// Whether two character slices hold the same characters.
pub fn same_chars(a: &[char], b: &[char]) -> (same: bool)
    ensures
        same == (a@ == b@),
{
    if a.len() != b.len() {
        return false;
    }
    let mut i: usize = 0;
    while i < a.len()
        invariant
            a@.len() == b@.len(),
            i <= a@.len(),
            a@.take(i as int) == b@.take(i as int),
        decreases a@.len() - i,
    {
        if a[i] != b[i] {
            return false;
        }
        assert(a@.take(i + 1) == a@.take(i as int).push(a@[i as int]));
        assert(b@.take(i + 1) == b@.take(i as int).push(b@[i as int]));
        i += 1;
    }
    assert(a@.take(i as int) == a@);
    assert(b@.take(i as int) == b@);
    true
}

/// Whether `chars` spells exactly the word `word`.
pub fn spells(chars: &[char], word: &str) -> (same: bool)
    ensures
        same == (chars@ == word@),
{
    let w = chars_of(word);
    same_chars(chars, w.as_slice())
}

/// `String::push` of std. Taken on trust: it appends the one character to
/// the text and changes nothing else.
pub assume_specification[ String::push ](s: &mut String, c: char)
    ensures
        final(s)@ == old(s)@.push(c),
;

/// The text made of `chars`, in order.
pub fn text_of(chars: &[char]) -> (out: String)
    ensures
        out@ == chars@,
{
    let mut out = String::new();
    let mut i: usize = 0;
    while i < chars.len()
        invariant
            i <= chars@.len(),
            out@ == chars@.take(i as int),
        decreases chars@.len() - i,
    {
        out.push(chars[i]);
        assert(chars@.take(i + 1) == chars@.take(i as int).push(chars@[i as int]));
        i += 1;
    }
    assert(chars@.take(i as int) == chars@);
    out
}

/// A copy of the characters from position `from` up to, not including, `to`.
pub(crate) fn copy_range(chars: &[char], from: usize, to: usize) -> (out: Vec<char>)
    requires
        from <= to <= chars@.len(),
    ensures
        out@ == chars@.subrange(from as int, to as int),
{
    let mut out: Vec<char> = Vec::new();
    let mut i: usize = from;
    while i < to
        invariant
            from <= i <= to <= chars@.len(),
            out@ == chars@.subrange(from as int, i as int),
        decreases to - i,
    {
        out.push(chars[i]);
        assert(chars@.subrange(from as int, i + 1) == chars@.subrange(from as int, i as int).push(
            chars@[i as int],
        ));
        i += 1;
    }
    out
}

/// Whether `s` begins with `prefix`.
pub open spec fn has_prefix(s: Seq<char>, prefix: Seq<char>) -> bool {
    prefix.len() <= s.len() && s.take(prefix.len() as int) == prefix
}

/// Whether `chars` begins with the word `word`.
pub fn starts_with(chars: &[char], word: &str) -> (yes: bool)
    ensures
        yes == has_prefix(chars@, word@),
{
    let w = chars_of(word);
    if w.len() > chars.len() {
        return false;
    }
    let head = copy_range(chars, 0, w.len());
    same_chars(head.as_slice(), w.as_slice())
}

/// The position of the first `c` in `s`, or the length of `s` where there
/// is none.
pub open spec fn first_index(s: Seq<char>, c: char) -> int
    decreases s.len(),
{
    if s.len() == 0 || s[0] == c {
        0
    } else {
        1 + first_index(s.skip(1), c)
    }
}

/// `first_index` lies within the text or at its end, no `c` stands before
/// it, and a `c` stands at it unless it is the end.
pub proof fn lemma_first_index(s: Seq<char>, c: char)
    ensures
        0 <= first_index(s, c) <= s.len(),
        forall|i: int| 0 <= i < first_index(s, c) ==> s[i] != c,
        first_index(s, c) < s.len() ==> s[first_index(s, c)] == c,
    decreases s.len(),
{
    if s.len() == 0 || s[0] == c {
    } else {
        lemma_first_index(s.skip(1), c);
        assert forall|i: int| 0 <= i < first_index(s, c) implies s[i] != c by {
            if i > 0 {
                assert(s.skip(1)[i - 1] == s[i]);
            }
        }
        assert(s.skip(1)[first_index(s.skip(1), c)] == s[first_index(s, c)] || first_index(s, c)
            == s.len());
    }
}

/// A position with no `c` before it, and with a `c` at it or at the end of
/// the text, is `first_index`.
pub proof fn lemma_first_index_is(s: Seq<char>, c: char, k: int)
    requires
        0 <= k <= s.len(),
        forall|i: int| 0 <= i < k ==> s[i] != c,
        k < s.len() ==> s[k] == c,
    ensures
        first_index(s, c) == k,
{
    lemma_first_index(s, c);
    let f = first_index(s, c);
    if f < k {
        assert(s[f] == c);
    } else if k < f {
        assert(s[k] != c);
    }
}

/// The fields of `s` between the separators `sep`: one more field than
/// there are separators; a field may be empty.
pub open spec fn split(s: Seq<char>, sep: char) -> Seq<Seq<char>>
    decreases s.len(),
    via split_decreases
{
    let k = first_index(s, sep);
    if k >= s.len() {
        seq![s]
    } else {
        seq![s.take(k)] + split(s.skip(k + 1), sep)
    }
}

#[via_fn]
proof fn split_decreases(s: Seq<char>, sep: char) {
    lemma_first_index(s, sep);
}

/// The position of the first `c` at or after `from`, or the length of the
/// text where there is none.
pub(crate) fn find_from(chars: &[char], c: char, from: usize) -> (at: usize)
    requires
        from <= chars@.len(),
    ensures
        at == from + first_index(chars@.skip(from as int), c),
        from <= at <= chars@.len(),
{
    let mut i: usize = from;
    while i < chars.len() && chars[i] != c
        invariant
            from <= i <= chars@.len(),
            forall|j: int| from <= j < i ==> chars@[j] != c,
        decreases chars@.len() - i,
    {
        i += 1;
    }
    proof {
        let rest = chars@.skip(from as int);
        assert forall|j: int| 0 <= j < i - from implies rest[j] != c by {
            assert(rest[j] == chars@[from + j]);
        }
        lemma_first_index_is(rest, c, i - from);
    }
    i
}

/// The fields of `chars` between the separators `sep`.
pub fn split_on(chars: &[char], sep: char) -> (fields: Vec<Vec<char>>)
    ensures
        fields@.len() == split(chars@, sep).len(),
        fields@.len() >= 1,
        forall|i: int| 0 <= i < fields@.len() ==> (#[trigger] fields@[i])@ == split(chars@, sep)[i],
        fields_of(fields@) == split(chars@, sep),
{
    let mut fields: Vec<Vec<char>> = Vec::new();
    let mut start: usize = 0;
    proof {
        assert(chars@.skip(0) == chars@);
        assert(fields@.map_values(|f: Vec<char>| f@) + split(chars@, sep) == split(chars@, sep));
    }
    loop
        invariant
            start <= chars@.len(),
            forall|i: int| 0 <= i < fields@.len() ==> (#[trigger] fields@[i])@ == split(
                chars@,
                sep,
            )[i],
            split(chars@, sep) == fields@.map_values(|f: Vec<char>| f@) + split(
                chars@.skip(start as int),
                sep,
            ),
        decreases chars@.len() - start,
    {
        let at = find_from(chars, sep, start);
        let field = copy_range(chars, start, at);
        let ghost before = fields@.map_values(|f: Vec<char>| f@);
        let ghost rest = chars@.skip(start as int);
        proof {
            assert(field@ == rest.take(at - start));
        }
        fields.push(field);
        proof {
            assert(fields@.map_values(|f: Vec<char>| f@) == before.push(field@));
        }
        if at >= chars.len() {
            proof {
                assert(rest.take(at - start) == rest);
                assert(split(rest, sep) == seq![rest]);
                assert(before + seq![rest] == before.push(rest));
                let whole = split(chars@, sep);
                assert(whole == fields@.map_values(|f: Vec<char>| f@));
                assert forall|i: int| 0 <= i < fields@.len() implies (#[trigger] fields@[i])@
                    == whole[i] by {
                    assert(fields@.map_values(|f: Vec<char>| f@)[i] == fields@[i]@);
                }
                assert(fields_of(fields@) =~= whole);
            }
            return fields;
        }
        proof {
            assert(rest.skip(at - start + 1) == chars@.skip(at + 1));
            assert(split(rest, sep) == seq![field@] + split(chars@.skip(at + 1), sep));
            assert(before + (seq![field@] + split(chars@.skip(at + 1), sep)) == before.push(
                field@,
            ) + split(chars@.skip(at + 1), sep));
            let whole = split(chars@, sep);
            let k = fields@.len() - 1;
            assert(whole[k] == before.push(field@)[k]);
        }
        start = at + 1;
    }
}

/// The fields joined again, with `sep` between each two.
pub open spec fn join(fields: Seq<Seq<char>>, sep: char) -> Seq<char>
    decreases fields.len(),
{
    if fields.len() == 0 {
        Seq::empty()
    } else if fields.len() == 1 {
        fields[0]
    } else {
        join(fields.drop_last(), sep) + seq![sep] + fields.last()
    }
}

/// Joining a first field and one or more others puts the separator after
/// the first.
pub proof fn lemma_join_first(first: Seq<char>, others: Seq<Seq<char>>, sep: char)
    requires
        others.len() >= 1,
    ensures
        join(seq![first] + others, sep) == first + seq![sep] + join(others, sep),
    decreases others.len(),
{
    let all = seq![first] + others;
    assert(all.drop_last() == seq![first] + others.drop_last());
    assert(all.last() == others.last());
    if others.len() == 1 {
        assert(all.drop_last() == seq![first]);
        assert(join(all.drop_last(), sep) == first);
        assert(join(others, sep) == others.last());
    } else {
        lemma_join_first(first, others.drop_last(), sep);
        assert(first + seq![sep] + join(others.drop_last(), sep) + seq![sep] + others.last()
            == first + seq![sep] + (join(others.drop_last(), sep) + seq![sep] + others.last()));
    }
}

/// Splitting leaves at least one field, none of which holds the
/// separator, and joining the fields gives the text back.
pub proof fn lemma_join_split(s: Seq<char>, sep: char)
    ensures
        split(s, sep).len() >= 1,
        forall|i: int| 0 <= i < split(s, sep).len() ==> !(#[trigger] split(s, sep)[i]).contains(sep),
        join(split(s, sep), sep) == s,
    decreases s.len(),
{
    lemma_first_index(s, sep);
    let k = first_index(s, sep);
    if k >= s.len() {
        assert(split(s, sep) == seq![s]);
        assert(!s.contains(sep));
    } else {
        let rest = s.skip(k + 1);
        lemma_join_split(rest, sep);
        lemma_join_first(s.take(k), split(rest, sep), sep);
        assert(s.take(k) + seq![sep] + rest == s);
        assert(!s.take(k).contains(sep));
        assert forall|i: int| 0 <= i < split(s, sep).len() implies !(#[trigger] split(
            s,
            sep,
        )[i]).contains(sep) by {
            if i > 0 {
                assert(split(s, sep)[i] == split(rest, sep)[i - 1]);
            }
        }
    }
}

/// The fields as they are held in a vector.
pub open spec fn fields_of(fields: Seq<Vec<char>>) -> Seq<Seq<char>> {
    Seq::new(fields.len(), |i: int| fields[i]@)
}

/// The first `count` fields joined, with `sep` between each two.
pub(crate) fn join_first(fields: &Vec<Vec<char>>, count: usize, sep: char) -> (out: Vec<char>)
    requires
        count <= fields@.len(),
    ensures
        out@ == join(fields_of(fields@).take(count as int), sep),
{
    let mut out: Vec<char> = Vec::new();
    let mut i: usize = 0;
    let ghost all = fields_of(fields@);
    while i < count
        invariant
            i <= count <= fields@.len(),
            all == fields_of(fields@),
            out@ == join(all.take(i as int), sep),
        decreases count - i,
    {
        if i > 0 {
            out.push(sep);
        }
        let field = &fields[i];
        let ghost before = out@;
        let mut j: usize = 0;
        while j < field.len()
            invariant
                j <= field@.len(),
                out@ == before + field@.take(j as int),
            decreases field@.len() - j,
        {
            out.push(field[j]);
            assert(field@.take(j + 1) == field@.take(j as int).push(field@[j as int]));
            j += 1;
        }
        proof {
            assert(field@.take(j as int) == field@);
            let next = all.take(i + 1);
            assert(next.drop_last() == all.take(i as int));
            assert(next.last() == field@);
            if i == 0 {
                assert(out@ == field@);
            }
        }
        i += 1;
    }
    out
}

/// Whether `pattern` stands in `s` at position `at`.
pub open spec fn occurs_at(s: Seq<char>, pattern: Seq<char>, at: int) -> bool {
    0 <= at && at + pattern.len() <= s.len() && s.subrange(at, at + pattern.len()) == pattern
}

/// The first position at which `pattern` stands in `s`, if it stands
/// anywhere.
pub open spec fn first_match(s: Seq<char>, pattern: Seq<char>) -> Option<int>
    decreases s.len(),
{
    if has_prefix(s, pattern) {
        Some(0)
    } else if s.len() == 0 {
        None
    } else {
        match first_match(s.skip(1), pattern) {
            Some(i) => Some(i + 1),
            None => None,
        }
    }
}

/// A position at which `pattern` stands, with none before it, is
/// `first_match`; and where it stands nowhere, there is no `first_match`.
pub proof fn lemma_first_match_is(s: Seq<char>, pattern: Seq<char>, k: int)
    requires
        0 <= k,
        forall|i: int| 0 <= i < k && i <= s.len() ==> !occurs_at(s, pattern, i),
        occurs_at(s, pattern, k) || k > s.len(),
    ensures
        first_match(s, pattern) == (if k > s.len() {
            None
        } else {
            Some(k)
        }),
    decreases s.len(),
{
    if has_prefix(s, pattern) {
        assert(s.take(pattern.len() as int) == s.subrange(0int, 0int + pattern.len()));
        assert(occurs_at(s, pattern, 0));
    } else {
        assert(!occurs_at(s, pattern, 0)) by {
            if occurs_at(s, pattern, 0) {
                assert(s.take(pattern.len() as int) == s.subrange(0int, 0int + pattern.len()));
            }
        }
        if s.len() == 0 {
        } else {
            let t = s.skip(1);
            assert forall|i: int| 0 <= i < k - 1 && i <= t.len() implies !occurs_at(
                t,
                pattern,
                i,
            ) by {
                if occurs_at(t, pattern, i) {
                    assert(t.subrange(i, i + pattern.len()) == s.subrange(
                        i + 1,
                        i + 1 + pattern.len(),
                    ));
                    assert(occurs_at(s, pattern, i + 1));
                }
            }
            if k <= s.len() {
                assert(t.subrange(k - 1, k - 1 + pattern.len()) == s.subrange(
                    k,
                    k + pattern.len(),
                ));
            }
            lemma_first_match_is(t, pattern, k - 1);
        }
    }
}

/// Whether `pattern` stands in `chars` at position `at`.
fn stands_at(chars: &[char], pattern: &[char], at: usize) -> (yes: bool)
    requires
        at <= chars@.len(),
    ensures
        yes == occurs_at(chars@, pattern@, at as int),
{
    if pattern.len() > chars.len() - at {
        return false;
    }
    let part = copy_range(chars, at, at + pattern.len());
    same_chars(part.as_slice(), pattern)
}

/// The first position at which `pattern` stands in `chars`.
pub fn find_first(chars: &[char], pattern: &[char]) -> (at: Option<usize>)
    ensures
        match at {
            Some(k) => first_match(chars@, pattern@) == Some(k as int) && k + pattern@.len()
                <= chars@.len(),
            None => first_match(chars@, pattern@) is None,
        },
{
    let mut i: usize = 0;
    while i <= chars.len()
        invariant
            i <= chars@.len() + 1,
            forall|j: int| 0 <= j < i && j <= chars@.len() ==> !occurs_at(chars@, pattern@, j),
        decreases chars@.len() + 1 - i,
    {
        if stands_at(chars, pattern, i) {
            proof {
                lemma_first_match_is(chars@, pattern@, i as int);
            }
            return Some(i);
        }
        if i == chars.len() {
            proof {
                lemma_first_match_is(chars@, pattern@, i + 1);
            }
            return None;
        }
        i += 1;
    }
    proof {
        lemma_first_match_is(chars@, pattern@, i as int);
    }
    None
}

} // verus!
