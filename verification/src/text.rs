//! Framing of a record: tab-separated fields and the line terminator.
//!
//! Everything here works on characters, not bytes: a field is a run of
//! characters that holds no tab, and a record body is its fields joined by
//! single tabs.

use vstd::prelude::*;

verus! {

/// Carriage return or line feed.
pub open spec fn is_line_break(c: char) -> bool {
    c == '\r' || c == '\n'
}

/// A character that would corrupt the framing if it stood inside a field:
/// the field separator or a line-terminator character.
pub open spec fn is_framing_char(c: char) -> bool {
    c == '\t' || is_line_break(c)
}

/// Whether `s` holds a tab.
pub open spec fn has_tab(s: Seq<char>) -> bool {
    exists|i: int| 0 <= i < s.len() && #[trigger] s[i] == '\t'
}

/// Whether `s` holds a carriage return or a line feed.
pub open spec fn has_line_break(s: Seq<char>) -> bool {
    exists|i: int| 0 <= i < s.len() && is_line_break(#[trigger] s[i])
}

/// A string that may stand in a field of an encoded line: it holds no tab,
/// no carriage return and no line feed.
pub open spec fn is_field_text(s: Seq<char>) -> bool {
    forall|i: int| 0 <= i < s.len() ==> !is_framing_char(#[trigger] s[i])
}

/// Index of the first tab in `s`, or `s.len()` if there is none.
pub open spec fn first_tab(s: Seq<char>) -> int
    decreases s.len(),
{
    if s.len() == 0 || s[0] == '\t' {
        0
    } else {
        1 + first_tab(s.drop_first())
    }
}

/// The fields of `s`: the runs of characters between its tabs, in order.
/// There is always at least one field, and `k` tabs make `k + 1` fields.
pub open spec fn split_fields(s: Seq<char>) -> Seq<Seq<char>>
    decreases s.len(),
{
    let k = first_tab(s);
    if 0 <= k < s.len() {
        seq![s.take(k)] + split_fields(s.skip(k + 1))
    } else {
        seq![s]
    }
}

/// The fields of `fs` with one tab between each two neighbours.
pub open spec fn join_fields(fs: Seq<Seq<char>>) -> Seq<char>
    decreases fs.len(),
{
    if fs.len() == 0 {
        Seq::empty()
    } else if fs.len() == 1 {
        fs[0]
    } else {
        fs[0] + seq!['\t'] + join_fields(fs.drop_first())
    }
}

/// `s` without its line terminator: a trailing `\r\n` or a trailing bare
/// `\n` is removed, anything else is left as it is.
pub open spec fn strip_line_end(s: Seq<char>) -> Seq<char> {
    let n = s.len() as int;
    if n >= 2 && s[n - 2] == '\r' && s[n - 1] == '\n' {
        s.take(n - 2)
    } else if n >= 1 && s[n - 1] == '\n' {
        s.take(n - 1)
    } else {
        s
    }
}

/// `first_tab` is the one position that has a tab (or the end) at it and no
/// tab before it.
pub proof fn lemma_first_tab(s: Seq<char>, k: int)
    requires
        0 <= k <= s.len(),
        forall|j: int| 0 <= j < k ==> s[j] != '\t',
        k < s.len() ==> s[k] == '\t',
    ensures
        first_tab(s) == k,
    decreases s.len(),
{
    if s.len() == 0 || s[0] == '\t' {
    } else {
        let t = s.drop_first();
        assert forall|j: int| 0 <= j < k - 1 implies t[j] != '\t' by {
            assert(t[j] == s[j + 1]);
        }
        lemma_first_tab(t, k - 1);
    }
}

/// `first_tab` lies within `s` or at its end, no tab stands before it, and
/// where it lies within `s` a tab stands at it.
pub proof fn lemma_first_tab_bounds(s: Seq<char>)
    ensures
        0 <= first_tab(s) <= s.len(),
        forall|j: int| 0 <= j < first_tab(s) ==> s[j] != '\t',
        first_tab(s) < s.len() ==> s[first_tab(s)] == '\t',
    decreases s.len(),
{
    if s.len() == 0 || s[0] == '\t' {
    } else {
        let t = s.drop_first();
        lemma_first_tab_bounds(t);
        assert forall|j: int| 0 <= j < first_tab(s) implies s[j] != '\t' by {
            if j > 0 {
                assert(s[j] == t[j - 1]);
            }
        }
        if first_tab(s) < s.len() {
            assert(s[first_tab(s)] == t[first_tab(t)]);
        }
    }
}

/// Four fields joined, written out.
pub proof fn lemma_join_four(a: Seq<char>, b: Seq<char>, c: Seq<char>, d: Seq<char>)
    ensures
        join_fields(seq![a, b, c, d]) == a + seq!['\t'] + b + seq!['\t'] + c + seq!['\t'] + d,
{
    let f4 = seq![a, b, c, d];
    let f3 = seq![b, c, d];
    let f2 = seq![c, d];
    let f1 = seq![d];
    assert(f4.drop_first() =~= f3);
    assert(f3.drop_first() =~= f2);
    assert(f2.drop_first() =~= f1);
    assert(join_fields(f1) == d);
    assert(join_fields(f2) == c + seq!['\t'] + d);
    assert(join_fields(f3) == b + seq!['\t'] + (c + seq!['\t'] + d));
    assert(join_fields(f4) == a + seq!['\t'] + (b + seq!['\t'] + (c + seq!['\t'] + d)));
    assert(a + seq!['\t'] + (b + seq!['\t'] + (c + seq!['\t'] + d)) =~= a + seq!['\t'] + b + seq![
        '\t',
    ] + c + seq!['\t'] + d);
}

/// Splitting undoes joining: fields that hold no tab come back unchanged.
pub proof fn lemma_split_join(fs: Seq<Seq<char>>)
    requires
        fs.len() >= 1,
        forall|k: int| 0 <= k < fs.len() ==> !has_tab(#[trigger] fs[k]),
    ensures
        split_fields(join_fields(fs)) == fs,
    decreases fs.len(),
{
    let head = fs[0];
    assert(!has_tab(head));
    if fs.len() == 1 {
        lemma_first_tab(head, head.len() as int);
        assert(seq![head] =~= fs);
    } else {
        let tail = fs.drop_first();
        let rest = join_fields(tail);
        let s = join_fields(fs);
        assert(s == head + seq!['\t'] + rest);
        assert forall|k: int| 0 <= k < tail.len() implies !has_tab(#[trigger] tail[k]) by {
            assert(tail[k] == fs[k + 1]);
        }
        lemma_split_join(tail);
        assert forall|j: int| 0 <= j < head.len() implies s[j] != '\t' by {
            assert(s[j] == head[j]);
        }
        assert(s[head.len() as int] == '\t');
        lemma_first_tab(s, head.len() as int);
        assert(s.take(head.len() as int) =~= head);
        assert(s.skip(head.len() as int + 1) =~= rest);
        assert(seq![head] + tail =~= fs);
    }
}

/// Joining undoes splitting, and no field that splitting yields holds a tab.
pub proof fn lemma_join_split(s: Seq<char>)
    ensures
        split_fields(s).len() >= 1,
        forall|k: int| 0 <= k < split_fields(s).len() ==> !has_tab(#[trigger] split_fields(s)[k]),
        join_fields(split_fields(s)) == s,
    decreases s.len(),
{
    lemma_first_tab_bounds(s);
    let k = first_tab(s);
    if 0 <= k < s.len() {
        let head = s.take(k);
        let t = s.skip(k + 1);
        lemma_join_split(t);
        let fs = split_fields(s);
        assert(fs == seq![head] + split_fields(t));
        assert(fs.drop_first() =~= split_fields(t));
        assert(fs[0] == head);
        assert forall|i: int| 0 <= i < fs.len() implies !has_tab(#[trigger] fs[i]) by {
            if i > 0 {
                assert(fs[i] == split_fields(t)[i - 1]);
            }
        }
        assert(head + seq!['\t'] + t =~= s);
    } else {
        assert(split_fields(s) == seq![s]);
    }
}

/// Every character of a field is a character of the string it was split from.
pub proof fn lemma_split_chars(s: Seq<char>, k: int, j: int)
    requires
        0 <= k < split_fields(s).len(),
        0 <= j < split_fields(s)[k].len(),
    ensures
        s.contains(split_fields(s)[k][j]),
    decreases s.len(),
{
    lemma_first_tab_bounds(s);
    let p = first_tab(s);
    if 0 <= p < s.len() {
        let t = s.skip(p + 1);
        if k == 0 {
            assert(split_fields(s)[0] == s.take(p));
            assert(s[j] == s.take(p)[j]);
        } else {
            assert(split_fields(s)[k] == split_fields(t)[k - 1]);
            lemma_split_chars(t, k - 1, j);
            let c = split_fields(t)[k - 1][j];
            let i = choose|i: int| 0 <= i < t.len() && t[i] == c;
            assert(s[p + 1 + i] == c);
        }
    } else {
        assert(split_fields(s)[0] == s);
    }
}

/// Every character of a joined string is a tab or a character of a field.
pub proof fn lemma_join_chars(fs: Seq<Seq<char>>, i: int)
    requires
        0 <= i < join_fields(fs).len(),
    ensures
        join_fields(fs)[i] == '\t' || exists|k: int|
            0 <= k < fs.len() && (#[trigger] fs[k]).contains(join_fields(fs)[i]),
    decreases fs.len(),
{
    let c = join_fields(fs)[i];
    if fs.len() == 1 {
        assert(fs[0].contains(c));
    } else if fs.len() >= 2 {
        let head = fs[0];
        let tail = fs.drop_first();
        if i < head.len() {
            assert(head[i] == c);
            assert(fs[0].contains(c));
        } else if i > head.len() {
            let i2 = i - head.len() - 1;
            assert(join_fields(tail)[i2] == c);
            lemma_join_chars(tail, i2);
            if c != '\t' {
                let k = choose|k: int| 0 <= k < tail.len() && (#[trigger] tail[k]).contains(c);
                assert(tail[k] == fs[k + 1]);
                assert(fs[k + 1].contains(c));
            }
        }
    }
}

/// A terminator that was appended to a string without line breaks is
/// stripped again, leaving that string.
pub proof fn lemma_strip_line_end_of_terminated(s: Seq<char>)
    requires
        !has_line_break(s),
    ensures
        strip_line_end(s + seq!['\r', '\n']) == s,
        strip_line_end(s + seq!['\n']) == s,
        strip_line_end(s) == s,
{
    let a = s + seq!['\r', '\n'];
    assert(a[a.len() - 2] == '\r' && a[a.len() - 1] == '\n');
    assert(a.take(a.len() - 2) =~= s);
    let b = s + seq!['\n'];
    assert(b[b.len() - 1] == '\n');
    if b.len() >= 2 {
        assert(b[b.len() - 2] == s[s.len() - 1]);
        assert(!is_line_break(s[s.len() - 1]));
    }
    assert(b.take(b.len() - 1) =~= s);
    if s.len() >= 1 {
        assert(!is_line_break(s[s.len() - 1]));
    }
}


/// Whether `s` holds a carriage return or a line feed.
pub fn contains_line_break(s: &str) -> (b: bool)
    ensures
        b == has_line_break(s@),
{
    for c in it: s.chars()
        invariant
            it.seq() == s@,
            forall|j: int| 0 <= j < it.index() ==> !is_line_break(#[trigger] s@[j]),
    {
        if c == '\r' || c == '\n' {
            assert(is_line_break(s@[it.index() as int]));
            return true;
        }
    }
    false
}

/// Whether `s` may stand in a field of an encoded line.
pub fn check_field_text(s: &str) -> (b: bool)
    ensures
        b == is_field_text(s@),
{
    for c in it: s.chars()
        invariant
            it.seq() == s@,
            forall|j: int| 0 <= j < it.index() ==> !is_framing_char(#[trigger] s@[j]),
    {
        if c == '\t' || c == '\r' || c == '\n' {
            assert(is_framing_char(s@[it.index() as int]));
            return false;
        }
    }
    true
}

/// The first `limit` fields of `s`, or all of them where `s` has fewer.
///
/// Each field borrows from `s`. The work is bounded by `limit` passes over
/// `s`, however many tabs it holds.
pub fn leading_fields<'a>(s: &'a str, limit: usize) -> (fields: Vec<&'a str>)
    ensures
        fields@.len() == if limit <= split_fields(s@).len() {
            limit as nat
        } else {
            split_fields(s@).len()
        },
        forall|k: int| 0 <= k < fields@.len() ==> (#[trigger] fields@[k])@ == split_fields(s@)[k],
{
    let mut fields: Vec<&'a str> = Vec::new();
    if limit == 0 {
        return fields;
    }
    let n: usize = s.unicode_len();
    let mut start: usize = 0;
    let mut i: usize = 0;
    proof {
        assert(s@.skip(0) =~= s@);
        assert(Seq::new(fields@.len(), |k: int| fields@[k]@) + split_fields(s@) =~= split_fields(
            s@,
        ));
    }
    for c in it: s.chars()
        invariant
            it.seq() == s@,
            n == s@.len(),
            i == it.index(),
            start <= i <= n,
            fields@.len() < limit,
            forall|j: int| start <= j < i ==> s@[j] != '\t',
            split_fields(s@) == Seq::new(fields@.len(), |k: int| fields@[k]@) + split_fields(
                s@.skip(start as int),
            ),
    {
        if c == '\t' {
            let field = s.substring_char(start, i);
            proof {
                let rest = s@.skip(start as int);
                assert forall|j: int| 0 <= j < i - start implies rest[j] != '\t' by {
                    assert(rest[j] == s@[start + j]);
                }
                assert(rest[i - start] == '\t');
                lemma_first_tab(rest, i - start);
                assert(rest.take(i - start) =~= field@);
                assert(rest.skip(i - start + 1) =~= s@.skip(i + 1));
                assert(split_fields(rest) == seq![field@] + split_fields(s@.skip(i + 1)));
                let done = Seq::new(fields@.len(), |k: int| fields@[k]@);
                let done_next = Seq::new(fields@.push(field).len(), |k: int| fields@.push(field)[k]@);
                assert(done_next =~= done + seq![field@]);
                assert(done + (seq![field@] + split_fields(s@.skip(i + 1))) =~= done_next
                    + split_fields(s@.skip(i + 1)));
            }
            fields.push(field);
            start = i + 1;
            if fields.len() == limit {
                return fields;
            }
        }
        i = i + 1;
    }
    let field = s.substring_char(start, n);
    proof {
        let rest = s@.skip(start as int);
        assert forall|j: int| 0 <= j < rest.len() implies rest[j] != '\t' by {
            assert(rest[j] == s@[start + j]);
        }
        lemma_first_tab(rest, rest.len() as int);
        assert(rest =~= field@);
        assert(split_fields(rest) == seq![field@]);
        let done = Seq::new(fields@.len(), |k: int| fields@[k]@);
        let done_next = Seq::new(fields@.push(field).len(), |k: int| fields@.push(field)[k]@);
        assert(done_next =~= done + seq![field@]);
    }
    fields.push(field);
    fields
}

} // verus!
