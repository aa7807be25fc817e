//! Text as sequences of characters: what it means to trim, split, join and
//! search a text, and the functions that do so.
use vstd::prelude::*;

verus! {

// ---------------------------------------------------------------------------
// What the operations mean
// ---------------------------------------------------------------------------
/// The characters with the Unicode property White_Space.
pub open spec fn is_white(c: char) -> bool {
    let u = c as u32;
    ||| 0x9 <= u <= 0xd
    ||| u == 0x20
    ||| u == 0x85
    ||| u == 0xa0
    ||| u == 0x1680
    ||| 0x2000 <= u <= 0x200a
    ||| u == 0x2028
    ||| u == 0x2029
    ||| u == 0x202f
    ||| u == 0x205f
    ||| u == 0x3000
}

/// The digits `0` to `9`.
pub open spec fn is_ascii_digit(c: char) -> bool {
    '0' <= c <= '9'
}

/// `s` without its leading white space.
pub open spec fn trim_start(s: Seq<char>) -> Seq<char>
    decreases s.len(),
{
    if s.len() > 0 && is_white(s[0]) {
        trim_start(s.drop_first())
    } else {
        s
    }
}

/// `s` without its trailing white space.
pub open spec fn trim_end(s: Seq<char>) -> Seq<char>
    decreases s.len(),
{
    if s.len() > 0 && is_white(s.last()) {
        trim_end(s.drop_last())
    } else {
        s
    }
}

/// `s` without the white space at either end.
pub open spec fn trim(s: Seq<char>) -> Seq<char> {
    trim_end(trim_start(s))
}

/// `s` begins with `p`.
pub open spec fn starts_with(s: Seq<char>, p: Seq<char>) -> bool {
    p.len() <= s.len() && s.take(p.len() as int) == p
}

/// `s` ends with `p`.
pub open spec fn ends_with(s: Seq<char>, p: Seq<char>) -> bool {
    p.len() <= s.len() && s.skip(s.len() - p.len()) == p
}

/// `p` stands in `s` at position `i`.
pub open spec fn occurs_at(s: Seq<char>, p: Seq<char>, i: int) -> bool {
    0 <= i <= s.len() - p.len() && s.subrange(i, i + p.len()) == p
}

/// `p` stands somewhere in `s`.
pub open spec fn contains(s: Seq<char>, p: Seq<char>) -> bool {
    exists|i: int| #[trigger] occurs_at(s, p, i)
}

/// What follows the first `p` in `s`, if it holds one.
pub open spec fn after_first(s: Seq<char>, p: Seq<char>) -> Option<Seq<char>>
    decreases s.len(),
{
    if occurs_at(s, p, 0) {
        Some(s.skip(p.len() as int))
    } else if s.len() == 0 {
        None
    } else {
        after_first(s.drop_first(), p)
    }
}

/// The parts that are not empty.
pub open spec fn filled_parts(parts: Seq<Seq<char>>) -> Seq<Seq<char>>
    decreases parts.len(),
{
    if parts.len() == 0 {
        Seq::empty()
    } else if parts.last().len() == 0 {
        filled_parts(parts.drop_last())
    } else {
        filled_parts(parts.drop_last()).push(parts.last())
    }
}

/// `s` with the first `p` in it replaced by `w`.
pub open spec fn replaced_once(s: Seq<char>, p: Seq<char>, w: Seq<char>) -> Seq<char>
    decreases s.len(),
{
    if occurs_at(s, p, 0) {
        w + s.skip(p.len() as int)
    } else if s.len() == 0 {
        s
    } else {
        seq![s[0]] + replaced_once(s.drop_first(), p, w)
    }
}

/// The position of the first `c` in `s`, or the length of `s` if it holds none.
pub open spec fn first_of(s: Seq<char>, c: char) -> int
    decreases s.len(),
{
    if s.len() == 0 || s[0] == c {
        0
    } else {
        1 + first_of(s.drop_first(), c)
    }
}

/// The parts of `s` between the separators `c`.
pub open spec fn split(s: Seq<char>, c: char) -> Seq<Seq<char>>
    decreases s.len(),
{
    proof {
        lemma_first_of(s, c);
    }
    let i = first_of(s, c);
    if i < s.len() {
        seq![s.take(i)] + split(s.skip(i + 1), c)
    } else {
        seq![s]
    }
}

/// The parts of `s` between its first `n - 1` separators `c`.
pub open spec fn split_n(s: Seq<char>, c: char, n: nat) -> Seq<Seq<char>>
    decreases n,
{
    let i = first_of(s, c);
    if n > 1 && i < s.len() {
        seq![s.take(i)] + split_n(s.skip(i + 1), c, (n - 1) as nat)
    } else {
        seq![s]
    }
}

/// `s` without a carriage return at its end.
pub open spec fn strip_return(s: Seq<char>) -> Seq<char> {
    if s.len() > 0 && s.last() == '\r' {
        s.drop_last()
    } else {
        s
    }
}

/// The lines of `s`: each ends with a line feed, or a carriage return and a
/// line feed, which are not part of it; the last line may lack its ending.
pub open spec fn lines(s: Seq<char>) -> Seq<Seq<char>>
    decreases s.len(),
{
    proof {
        lemma_first_of(s, '\n');
    }
    let i = first_of(s, '\n');
    if s.len() == 0 {
        seq![]
    } else if i < s.len() {
        seq![strip_return(s.take(i))] + lines(s.skip(i + 1))
    } else {
        seq![s]
    }
}

/// The parts one after the other with `sep` between each two.
pub open spec fn join(parts: Seq<Seq<char>>, sep: Seq<char>) -> Seq<char>
    decreases parts.len(),
{
    if parts.len() == 0 {
        seq![]
    } else if parts.len() == 1 {
        parts[0]
    } else {
        join(parts.drop_last(), sep) + sep + parts.last()
    }
}

/// The parts without those equal to the part just before them.
pub open spec fn dedup(parts: Seq<Seq<char>>) -> Seq<Seq<char>>
    decreases parts.len(),
{
    if parts.len() < 2 {
        parts
    } else if parts.last() == parts[parts.len() - 2] {
        dedup(parts.drop_last())
    } else {
        dedup(parts.drop_last()).push(parts.last())
    }
}

/// What a list of strings holds.
pub open spec fn texts(v: Seq<String>) -> Seq<Seq<char>> {
    Seq::new(v.len(), |i: int| v[i]@)
}

/// What an optional string holds.
pub open spec fn opt_text(o: Option<String>) -> Option<Seq<char>> {
    match o {
        Some(s) => Some(s@),
        None => None,
    }
}

/// What an optional string slice holds.
pub open spec fn opt_str(o: Option<&str>) -> Option<Seq<char>> {
    match o {
        Some(s) => Some(s@),
        None => None,
    }
}

// ---------------------------------------------------------------------------
// Facts about the meanings
// ---------------------------------------------------------------------------
/// `first_of` is the one position before which there is no `c` and at which
/// there is one, or the end.
pub proof fn lemma_first_of(s: Seq<char>, c: char)
    ensures
        0 <= first_of(s, c) <= s.len(),
        forall|j: int| 0 <= j < first_of(s, c) ==> s[j] != c,
        first_of(s, c) < s.len() ==> s[first_of(s, c)] == c,
    decreases s.len(),
{
    if s.len() > 0 && s[0] != c {
        lemma_first_of(s.drop_first(), c);
        assert forall|j: int| 0 <= j < first_of(s, c) implies s[j] != c by {
            if j > 0 {
                assert(s[j] == s.drop_first()[j - 1]);
            }
        }
    }
}

/// A position with no `c` before it and a `c` at it, or the end, is `first_of`.
pub proof fn lemma_first_of_is(s: Seq<char>, c: char, i: int)
    requires
        0 <= i <= s.len(),
        forall|j: int| 0 <= j < i ==> s[j] != c,
        i < s.len() ==> s[i] == c,
    ensures
        first_of(s, c) == i,
{
    lemma_first_of(s, c);
    let k = first_of(s, c);
    if k < i {
        assert(s[k] != c);
    } else if i < k {
        assert(s[i] != c);
    }
}

/// A text without separators is its only part.
pub proof fn lemma_split_none(a: Seq<char>, c: char)
    requires
        forall|j: int| 0 <= j < a.len() ==> a[j] != c,
    ensures
        split(a, c) == seq![a],
{
    lemma_first_of_is(a, c, a.len() as int);
}

/// What stands before the first separator is the first part.
pub proof fn lemma_split_first(a: Seq<char>, c: char, rest: Seq<char>)
    requires
        forall|j: int| 0 <= j < a.len() ==> a[j] != c,
    ensures
        split(a + seq![c] + rest, c) == seq![a] + split(rest, c),
{
    let s = a + seq![c] + rest;
    assert forall|j: int| 0 <= j < a.len() implies s[j] != c by {
        assert(s[j] == a[j]);
    }
    lemma_first_of_is(s, c, a.len() as int);
    assert(s.take(a.len() as int) == a);
    assert(s.skip((a.len() + 1) as int) == rest);
}

/// What stands behind the last separator is the last part.
pub proof fn lemma_split_last(s: Seq<char>, c: char, a: Seq<char>)
    requires
        forall|j: int| 0 <= j < a.len() ==> a[j] != c,
    ensures
        split(s + seq![c] + a, c) == split(s, c).push(a),
    decreases s.len(),
{
    lemma_first_of(s, c);
    let i = first_of(s, c);
    if i < s.len() {
        let rest = s.skip(i + 1);
        assert(s + seq![c] + a == s.take(i) + seq![c] + (rest + seq![c] + a));
        lemma_split_first(s.take(i), c, rest + seq![c] + a);
        lemma_split_last(rest, c, a);
        assert(seq![s.take(i)] + split(rest, c).push(a) == (seq![s.take(i)] + split(rest, c)).push(
            a,
        ));
    } else {
        lemma_split_first(s, c, a);
        lemma_split_none(a, c);
        assert(seq![s] + seq![a] == seq![s].push(a));
    }
}

/// No part holds a separator, nor anything that the whole does not hold.
pub proof fn lemma_split_lacks(s: Seq<char>, c: char, d: char)
    requires
        c == d || !s.contains(d),
    ensures
        forall|i: int| 0 <= i < split(s, c).len() ==> !(#[trigger] split(s, c)[i]).contains(d),
    decreases s.len(),
{
    lemma_first_of(s, c);
    let k = first_of(s, c);
    if k < s.len() {
        lemma_split_lacks(s.skip(k + 1), c, d);
        let rest = split(s.skip(k + 1), c);
        assert forall|i: int| 0 <= i < split(s, c).len() implies !(#[trigger] split(
            s,
            c,
        )[i]).contains(d) by {
            if i > 0 {
                assert(split(s, c)[i] == rest[i - 1]);
            }
        }
    }
}

/// The filled parts are among the parts.
pub proof fn lemma_filled_parts(parts: Seq<Seq<char>>)
    ensures
        forall|i: int|
            0 <= i < filled_parts(parts).len() ==> (#[trigger] filled_parts(parts)[i]).len() > 0
                && parts.contains(filled_parts(parts)[i]),
    decreases parts.len(),
{
    if parts.len() > 0 {
        let init = parts.drop_last();
        lemma_filled_parts(init);
        assert forall|i: int| 0 <= i < filled_parts(parts).len() implies (#[trigger] filled_parts(
            parts,
        )[i]).len() > 0 && parts.contains(filled_parts(parts)[i]) by {
            if i < filled_parts(init).len() {
                let j = init.index_of(filled_parts(init)[i]);
                assert(parts[j] == filled_parts(init)[i]);
            } else {
                assert(parts[parts.len() - 1] == filled_parts(parts)[i]);
            }
        }
    }
}

/// Filled parts that were joined are found again by splitting.
pub proof fn lemma_split_joined(parts: Seq<Seq<char>>, c: char)
    requires
        forall|i: int|
            0 <= i < parts.len() ==> (#[trigger] parts[i]).len() > 0 && !parts[i].contains(c),
    ensures
        filled_parts(split(join(parts, seq![c]), c)) == parts,
    decreases parts.len(),
{
    reveal_with_fuel(filled_parts, 2);
    if parts.len() == 0 {
        lemma_split_none(Seq::empty(), c);
        assert(seq![Seq::<char>::empty()].drop_last() == Seq::<Seq<char>>::empty());
        assert(parts == Seq::<Seq<char>>::empty());
    } else {
        let last = parts.last();
        let init = parts.drop_last();
        assert(last == parts[parts.len() - 1]);
        assert forall|j: int| 0 <= j < last.len() implies last[j] != c by {
            assert(last.contains(last[j]));
        }
        assert(parts == init.push(last));
        if parts.len() == 1 {
            lemma_split_none(last, c);
            assert(seq![last].drop_last() == init);
        } else {
            let head = join(init, seq![c]);
            assert forall|i: int| 0 <= i < init.len() implies (#[trigger] init[i]).len() > 0
                && !init[i].contains(c) by {
                assert(init[i] == parts[i]);
            }
            lemma_split_joined(init, c);
            lemma_split_last(head, c, last);
            assert(split(head, c).push(last).drop_last() == split(head, c));
        }
    }
}

/// Joined parts hold nothing but what the parts and the separator hold.
pub proof fn lemma_join_lacks(parts: Seq<Seq<char>>, sep: Seq<char>, d: char)
    requires
        !sep.contains(d),
        forall|i: int| 0 <= i < parts.len() ==> !(#[trigger] parts[i]).contains(d),
    ensures
        !join(parts, sep).contains(d),
    decreases parts.len(),
{
    if parts.len() >= 2 {
        let init = parts.drop_last();
        assert forall|i: int| 0 <= i < init.len() implies !(#[trigger] init[i]).contains(d) by {
            assert(init[i] == parts[i]);
        }
        lemma_join_lacks(init, sep, d);
        let head = join(init, sep);
        assert(!parts[parts.len() - 1].contains(d));
        assert forall|i: int| 0 <= i < join(parts, sep).len() implies join(parts, sep)[i] != d by {
            if i < head.len() {
                assert(head.contains(head[i]));
            } else if i < head.len() + sep.len() {
                assert(sep.contains(sep[i - head.len()]));
            } else {
                let k = i - head.len() - sep.len();
                assert(parts.last().contains(parts.last()[k]));
            }
        }
    }
}

/// Dropping repetitions keeps the last part.
pub proof fn lemma_dedup_last(parts: Seq<Seq<char>>)
    requires
        parts.len() > 0,
    ensures
        dedup(parts).len() > 0,
        dedup(parts).last() == parts.last(),
    decreases parts.len(),
{
    if parts.len() >= 2 {
        lemma_dedup_last(parts.drop_last());
    }
}

/// Dropping repetitions keeps the first part.
pub proof fn lemma_dedup_first(parts: Seq<Seq<char>>)
    requires
        parts.len() > 0,
    ensures
        dedup(parts).len() > 0,
        dedup(parts)[0] == parts[0],
    decreases parts.len(),
{
    if parts.len() >= 2 {
        lemma_dedup_first(parts.drop_last());
    }
}

/// After dropping repetitions no part equals the part just before it.
pub proof fn lemma_dedup_distinct(parts: Seq<Seq<char>>)
    ensures
        forall|i: int|
            #![trigger dedup(parts)[i]]
            0 < i < dedup(parts).len() ==> dedup(parts)[i] != dedup(parts)[i - 1],
    decreases parts.len(),
{
    if parts.len() >= 2 {
        let shorter = dedup(parts.drop_last());
        lemma_dedup_distinct(parts.drop_last());
        lemma_dedup_last(parts.drop_last());
        if parts.last() != parts[parts.len() - 2] {
            let d = dedup(parts);
            assert forall|i: int| 0 < i < d.len() implies #[trigger] d[i] != d[i - 1] by {
                if i < shorter.len() {
                    assert(d[i] == shorter[i] && d[i - 1] == shorter[i - 1]);
                } else {
                    assert(d[i - 1] == shorter.last());
                }
            }
        }
    }
}

/// Two or more joined parts end with the separator and the last part.
pub proof fn lemma_join_last(parts: Seq<Seq<char>>, sep: Seq<char>)
    requires
        parts.len() >= 2,
    ensures
        ends_with(join(parts, sep), sep + parts.last()),
{
    let head = join(parts.drop_last(), sep);
    let tail = sep + parts.last();
    assert(join(parts, sep) == head + tail);
    assert((head + tail).skip(head.len() as int) == tail);
}

proof fn lemma_trim_start_around(left: Seq<char>, s: Seq<char>)
    requires
        forall|i: int| 0 <= i < left.len() ==> is_white(left[i]),
    ensures
        trim_start(left + s) == trim_start(s),
    decreases left.len(),
{
    if left.len() == 0 {
        assert(left + s == s);
    } else {
        assert((left + s)[0] == left[0]);
        assert((left + s).drop_first() == left.drop_first() + s);
        lemma_trim_start_around(left.drop_first(), s);
    }
}

proof fn lemma_trim_end_around(s: Seq<char>, right: Seq<char>)
    requires
        forall|i: int| 0 <= i < right.len() ==> is_white(right[i]),
    ensures
        trim_end(s + right) == trim_end(s),
    decreases right.len(),
{
    if right.len() == 0 {
        assert(s + right == s);
    } else {
        assert((s + right).last() == right.last());
        assert((s + right).drop_last() == s + right.drop_last());
        lemma_trim_end_around(s, right.drop_last());
    }
}

proof fn lemma_trim_start_keeps(s: Seq<char>, right: Seq<char>)
    requires
        forall|i: int| 0 <= i < right.len() ==> is_white(right[i]),
    ensures
        trim_end(trim_start(s + right)) == trim_end(trim_start(s)),
    decreases s.len(),
{
    if s.len() == 0 {
        assert(s + right == right);
        lemma_trim_start_around(right, Seq::empty());
        assert(right + Seq::<char>::empty() == right);
    } else if is_white(s[0]) {
        assert((s + right)[0] == s[0]);
        assert((s + right).drop_first() == s.drop_first() + right);
        lemma_trim_start_keeps(s.drop_first(), right);
    } else {
        assert((s + right)[0] == s[0]);
        lemma_trim_end_around(s, right);
    }
}

/// White space around a text is trimmed away.
pub proof fn lemma_trim_around(left: Seq<char>, s: Seq<char>, right: Seq<char>)
    requires
        forall|i: int| 0 <= i < left.len() ==> is_white(left[i]),
        forall|i: int| 0 <= i < right.len() ==> is_white(right[i]),
    ensures
        trim(left + s + right) == trim(s),
{
    assert(left + s + right == left + (s + right));
    lemma_trim_start_around(left, s + right);
    lemma_trim_start_keeps(s, right);
}

proof fn lemma_after_first(s: Seq<char>, p: Seq<char>, i: int)
    requires
        occurs_at(s, p, i),
        forall|j: int| 0 <= j < i ==> !occurs_at(s, p, j),
    ensures
        after_first(s, p) == Some(s.skip(i + p.len())),
    decreases s.len(),
{
    if i > 0 {
        let rest = s.drop_first();
        assert forall|j: int| 0 <= j < i - 1 implies !occurs_at(rest, p, j) by {
            if occurs_at(rest, p, j) {
                assert(s.subrange(j + 1, j + 1 + p.len()) == rest.subrange(j, j + p.len()));
                assert(occurs_at(s, p, j + 1));
            }
        }
        assert(rest.subrange(i - 1, i - 1 + p.len()) == s.subrange(i, i + p.len()));
        lemma_after_first(rest, p, i - 1);
        assert(rest.skip(i - 1 + p.len()) == s.skip(i + p.len()));
    }
}

proof fn lemma_after_none(s: Seq<char>, p: Seq<char>)
    requires
        !contains(s, p),
    ensures
        after_first(s, p) is None,
    decreases s.len(),
{
    assert(!occurs_at(s, p, 0));
    if s.len() > 0 {
        let rest = s.drop_first();
        assert forall|j: int| !(#[trigger] occurs_at(rest, p, j)) by {
            if occurs_at(rest, p, j) {
                assert(s.subrange(j + 1, j + 1 + p.len()) == rest.subrange(j, j + p.len()));
                assert(occurs_at(s, p, j + 1));
            }
        }
        lemma_after_none(rest, p);
    }
}

/// Where the first `p` stands, `w` comes into its place.
pub proof fn lemma_replaced_at(s: Seq<char>, p: Seq<char>, w: Seq<char>, i: int)
    requires
        occurs_at(s, p, i),
        forall|j: int| 0 <= j < i ==> !occurs_at(s, p, j),
    ensures
        replaced_once(s, p, w) == s.take(i) + w + s.skip(i + p.len()),
    decreases s.len(),
{
    if i > 0 {
        let rest = s.drop_first();
        assert forall|j: int| 0 <= j < i - 1 implies !occurs_at(rest, p, j) by {
            if occurs_at(rest, p, j) {
                assert(s.subrange(j + 1, j + 1 + p.len()) == rest.subrange(j, j + p.len()));
                assert(occurs_at(s, p, j + 1));
            }
        }
        assert(rest.subrange(i - 1, i - 1 + p.len()) == s.subrange(i, i + p.len()));
        lemma_replaced_at(rest, p, w, i - 1);
        assert(s.take(i) == seq![s[0]] + rest.take(i - 1));
        assert(rest.skip(i - 1 + p.len()) == s.skip(i + p.len()));
    } else {
        assert(s.take(0) == Seq::<char>::empty());
    }
}

/// Where there is no `p`, nothing is replaced.
pub proof fn lemma_replaced_none(s: Seq<char>, p: Seq<char>, w: Seq<char>)
    requires
        !contains(s, p),
    ensures
        replaced_once(s, p, w) == s,
    decreases s.len(),
{
    assert(!occurs_at(s, p, 0));
    if s.len() > 0 {
        let rest = s.drop_first();
        assert forall|j: int| !(#[trigger] occurs_at(rest, p, j)) by {
            if occurs_at(rest, p, j) {
                assert(s.subrange(j + 1, j + 1 + p.len()) == rest.subrange(j, j + p.len()));
                assert(occurs_at(s, p, j + 1));
            }
        }
        lemma_replaced_none(rest, p, w);
        assert(seq![s[0]] + rest == s);
    }
}

// ---------------------------------------------------------------------------
// The operations
// ---------------------------------------------------------------------------
/// `String::push` appends one character.
pub assume_specification[ String::push ](s: &mut String, c: char)
    ensures
        final(s)@ == old(s)@.push(c),
;

/// Whether `c` is white space.
pub fn white(c: char) -> (r: bool)
    ensures
        r == is_white(c),
{
    let u: u32 = c as u32;
    (0x9 <= u && u <= 0xd) || u == 0x20 || u == 0x85 || u == 0xa0 || u == 0x1680 || (0x2000 <= u
        && u <= 0x200a) || u == 0x2028 || u == 0x2029 || u == 0x202f || u == 0x205f || u == 0x3000
}

/// Whether `c` is one of `0` to `9`.
pub fn ascii_digit(c: char) -> (r: bool)
    ensures
        r == is_ascii_digit(c),
{
    '0' <= c && c <= '9'
}

/// The characters of a string, in order.
pub fn chars_of(s: &str) -> (r: Vec<char>)
    ensures
        r@ == s@,
{
    let mut out: Vec<char> = Vec::new();
    for c in it: s.chars()
        invariant
            out@ == it.seq().take(it.index()),
            it.seq() == s@,
    {
        out.push(c);
    }
    out
}

/// The string of the characters from `from` up to `to`.
pub fn string_of(cs: &Vec<char>, from: usize, to: usize) -> (r: String)
    requires
        from <= to <= cs@.len(),
    ensures
        r@ == cs@.subrange(from as int, to as int),
{
    let mut out = String::new();
    let mut i: usize = from;
    while i < to
        invariant
            from <= i <= to <= cs@.len(),
            out@ == cs@.subrange(from as int, i as int),
        decreases to - i,
    {
        out.push(cs[i]);
        i = i + 1;
    }
    out
}

/// Whether two strings hold the same characters.
pub fn same_text(a: &str, b: &str) -> (r: bool)
    ensures
        r == (a@ == b@),
{
    a.to_owned() == b.to_owned()
}

/// Whether `o` is `b`.
pub fn is_text(o: Option<&str>, b: &str) -> (r: bool)
    ensures
        r == (opt_str(o) == Some(b@)),
{
    match o {
        Some(a) => same_text(a, b),
        None => false,
    }
}

/// `a` followed by `b`.
pub fn cat(a: &str, b: &str) -> (r: String)
    ensures
        r@ == a@ + b@,
{
    let mut out = a.to_owned();
    out.append(b);
    out
}

/// `a` followed by `b` and `c`.
pub fn cat3(a: &str, b: &str, c: &str) -> (r: String)
    ensures
        r@ == a@ + b@ + c@,
{
    let mut out = a.to_owned();
    out.append(b);
    out.append(c);
    out
}

/// `s` without the white space at either end.
pub fn trim_text(s: &str) -> (r: String)
    ensures
        r@ == trim(s@),
{
    let cs = chars_of(s);
    let mut i: usize = 0;
    assert(cs@.skip(0) == cs@);
    while i < cs.len() && white(cs[i])
        invariant
            i <= cs@.len(),
            trim_start(cs@) == trim_start(cs@.skip(i as int)),
        decreases cs@.len() - i,
    {
        assert(cs@.skip(i as int).drop_first() == cs@.skip(i + 1));
        i = i + 1;
    }
    let mut j: usize = cs.len();
    assert(cs@.skip(i as int) == cs@.subrange(i as int, j as int));
    assert(trim_start(cs@.skip(i as int)) == cs@.skip(i as int));
    while j > i && white(cs[j - 1])
        invariant
            i <= j <= cs@.len(),
            trim_end(cs@.skip(i as int)) == trim_end(cs@.subrange(i as int, j as int)),
        decreases j,
    {
        assert(cs@.subrange(i as int, j as int).drop_last() == cs@.subrange(i as int, j - 1));
        j = j - 1;
    }
    string_of(&cs, i, j)
}

/// Whether `p` stands in `cs` at position `i`.
pub fn matches_at(cs: &Vec<char>, p: &Vec<char>, i: usize) -> (r: bool)
    ensures
        r == occurs_at(cs@, p@, i as int),
{
    let n: usize = cs.len();
    if p.len() > n || i > n - p.len() {
        return false;
    }
    let mut k: usize = 0;
    while k < p.len()
        invariant
            k <= p@.len(),
            i + p@.len() <= n == cs@.len(),
            forall|j: int| 0 <= j < k ==> cs@[i + j] == p@[j],
        decreases p@.len() - k,
    {
        if cs[i + k] != p[k] {
            assert(cs@.subrange(i as int, i + p@.len())[k as int] != p@[k as int]);
            return false;
        }
        k = k + 1;
    }
    assert(cs@.subrange(i as int, i + p@.len()) == p@);
    true
}

/// Whether `s` begins with `p`.
pub fn begins(s: &str, p: &str) -> (r: bool)
    ensures
        r == starts_with(s@, p@),
{
    let cs = chars_of(s);
    let ps = chars_of(p);
    let r = matches_at(&cs, &ps, 0);
    proof {
        if p@.len() <= s@.len() {
            assert(s@.take(p@.len() as int) == s@.subrange(0, p@.len() as int));
        }
    }
    r
}

/// Whether `s` ends with `p`.
pub fn ends(s: &str, p: &str) -> (r: bool)
    ensures
        r == ends_with(s@, p@),
{
    let cs = chars_of(s);
    let ps = chars_of(p);
    if ps.len() > cs.len() {
        return false;
    }
    assert(s@.skip(s@.len() - p@.len()) == s@.subrange(s@.len() - p@.len(), s@.len() as int));
    matches_at(&cs, &ps, cs.len() - ps.len())
}

/// The first position at which `p` stands in `s`, counted in characters.
pub fn find_text(s: &str, p: &str) -> (r: Option<usize>)
    ensures
        match r {
            Some(i) => occurs_at(s@, p@, i as int) && forall|j: int|
                0 <= j < i ==> !occurs_at(s@, p@, j),
            None => !contains(s@, p@),
        },
{
    let cs = chars_of(s);
    let ps = chars_of(p);
    if ps.len() > cs.len() {
        return None;
    }
    let mut i: usize = 0;
    while i <= cs.len() - ps.len()
        invariant
            cs@ == s@,
            ps@ == p@,
            ps@.len() <= cs@.len(),
            i <= cs@.len() - ps@.len() + 1,
            forall|j: int| 0 <= j < i ==> !occurs_at(s@, p@, j),
        decreases cs@.len() - i,
    {
        if matches_at(&cs, &ps, i) {
            return Some(i);
        }
        if i == cs.len() - ps.len() {
            return None;
        }
        i = i + 1;
    }
    None
}

/// What follows the first `p` in `s`, if it holds one.
pub fn text_after(s: &str, p: &str) -> (r: Option<String>)
    ensures
        opt_text(r) == after_first(s@, p@),
{
    match find_text(s, p) {
        Some(i) => {
            let cs = chars_of(s);
            let ps = chars_of(p);
            let len: usize = cs.len();
            proof {
                lemma_after_first(s@, p@, i as int);
                assert(s@.subrange(i + p@.len(), s@.len() as int) == s@.skip(i + p@.len()));
            }
            assert(i + ps@.len() <= len);
            Some(string_of(&cs, i + ps.len(), len))
        },
        None => {
            proof {
                lemma_after_none(s@, p@);
            }
            None
        },
    }
}

/// The parts that are not empty.
pub fn keep_filled(parts: &Vec<String>) -> (r: Vec<String>)
    ensures
        texts(r@) == filled_parts(texts(parts@)),
{
    let mut out: Vec<String> = Vec::new();
    let mut i: usize = 0;
    assert(texts(out@) == Seq::<Seq<char>>::empty());
    while i < parts.len()
        invariant
            i <= parts@.len(),
            texts(out@) == filled_parts(texts(parts@).take(i as int)),
        decreases parts@.len() - i,
    {
        proof {
            let next = texts(parts@).take(i + 1);
            assert(next.drop_last() == texts(parts@).take(i as int));
            assert(next.last() == parts@[i as int]@);
        }
        if !parts[i].as_str().is_empty() {
            push_text(&mut out, parts[i].as_str());
        }
        i = i + 1;
    }
    assert(texts(parts@).take(i as int) == texts(parts@));
    out
}

/// `s` with the first `p` in it replaced by `w`.
pub fn replace_once(s: &str, p: &str, w: &str) -> (r: String)
    ensures
        r@ == replaced_once(s@, p@, w@),
{
    match find_text(s, p) {
        Some(i) => {
            let cs = chars_of(s);
            let ps = chars_of(p);
            proof {
                lemma_replaced_at(s@, p@, w@, i as int);
                assert(s@.subrange(0, i as int) == s@.take(i as int));
                assert(s@.subrange(i + p@.len(), s@.len() as int) == s@.skip(i + p@.len()));
            }
            let before = string_of(&cs, 0, i);
            let len: usize = cs.len();
            assert(i + ps@.len() <= len);
            let after = string_of(&cs, i + ps.len(), len);
            cat3(before.as_str(), w, after.as_str())
        },
        None => {
            proof {
                lemma_replaced_none(s@, p@, w@);
            }
            s.to_owned()
        },
    }
}

/// Whether `p` stands somewhere in `s`.
pub fn holds(s: &str, p: &str) -> (r: bool)
    ensures
        r == contains(s@, p@),
{
    find_text(s, p).is_some()
}

/// The position of the first `c` at or after `from`, or the length of `cs`.
pub fn find_char(cs: &Vec<char>, from: usize, c: char) -> (r: usize)
    requires
        from <= cs@.len(),
    ensures
        from <= r <= cs@.len(),
        r - from == first_of(cs@.skip(from as int), c),
{
    let mut i: usize = from;
    while i < cs.len() && cs[i] != c
        invariant
            from <= i <= cs@.len(),
            forall|j: int| from <= j < i ==> cs@[j] != c,
        decreases cs@.len() - i,
    {
        i = i + 1;
    }
    proof {
        lemma_first_of_is(cs@.skip(from as int), c, i - from);
    }
    i
}

/// The parts of `s` between the separators `c`.
pub fn split_text(s: &str, c: char) -> (r: Vec<String>)
    ensures
        texts(r@) == split(s@, c),
{
    let cs = chars_of(s);
    let mut out: Vec<String> = Vec::new();
    let mut from: usize = 0;
    assert(cs@.skip(0) == cs@);
    assert(texts(out@) + split(cs@, c) == split(cs@, c));
    loop
        invariant
            from <= cs@.len(),
            cs@ == s@,
            split(s@, c) == texts(out@) + split(cs@.skip(from as int), c),
        decreases cs@.len() - from,
    {
        let i: usize = find_char(&cs, from, c);
        let ghost rest = cs@.skip(from as int);
        let ghost before = texts(out@);
        out.push(string_of(&cs, from, i));
        assert(rest.take(i - from) == cs@.subrange(from as int, i as int));
        assert(texts(out@) == before.push(cs@.subrange(from as int, i as int)));
        if i == cs.len() {
            assert(rest.take(i - from) == rest);
            assert(texts(out@) == before + seq![rest]);
            return out;
        }
        assert(rest.skip(i - from + 1) == cs@.skip(i + 1));
        assert(before + (seq![rest.take(i - from)] + split(cs@.skip(i + 1), c)) == texts(out@)
            + split(cs@.skip(i + 1), c));
        from = i + 1;
    }
}

/// The parts of `s` between its first `n - 1` separators `c`.
pub fn split_text_n(s: &str, c: char, n: usize) -> (r: Vec<String>)
    requires
        n > 0,
    ensures
        texts(r@) == split_n(s@, c, n as nat),
{
    let cs = chars_of(s);
    let mut out: Vec<String> = Vec::new();
    let mut from: usize = 0;
    let mut left: usize = n;
    assert(cs@.skip(0) == cs@);
    assert(texts(out@) + split_n(cs@, c, n as nat) == split_n(cs@, c, n as nat));
    loop
        invariant
            from <= cs@.len(),
            cs@ == s@,
            0 < left,
            split_n(s@, c, n as nat) == texts(out@) + split_n(
                cs@.skip(from as int),
                c,
                left as nat,
            ),
        decreases left,
    {
        let i: usize = find_char(&cs, from, c);
        let ghost rest = cs@.skip(from as int);
        let ghost before = texts(out@);
        if left == 1 || i == cs.len() {
            out.push(string_of(&cs, from, cs.len()));
            assert(cs@.subrange(from as int, cs@.len() as int) == rest);
            assert(texts(out@) == before + seq![rest]);
            return out;
        }
        out.push(string_of(&cs, from, i));
        assert(rest.take(i - from) == cs@.subrange(from as int, i as int));
        assert(texts(out@) == before.push(cs@.subrange(from as int, i as int)));
        assert(rest.skip(i - from + 1) == cs@.skip(i + 1));
        assert(before + (seq![rest.take(i - from)] + split_n(
            cs@.skip(i + 1),
            c,
            (left - 1) as nat,
        )) == texts(out@) + split_n(cs@.skip(i + 1), c, (left - 1) as nat));
        from = i + 1;
        left = left - 1;
    }
}

/// The lines of `s`.
pub fn lines_of(s: &str) -> (r: Vec<String>)
    ensures
        texts(r@) == lines(s@),
{
    let cs = chars_of(s);
    let mut out: Vec<String> = Vec::new();
    let mut from: usize = 0;
    assert(cs@.skip(0) == cs@);
    assert(texts(out@) + lines(cs@) == lines(cs@));
    while from < cs.len()
        invariant
            from <= cs@.len(),
            cs@ == s@,
            lines(s@) == texts(out@) + lines(cs@.skip(from as int)),
        decreases cs@.len() - from,
    {
        let i: usize = find_char(&cs, from, '\n');
        let ghost rest = cs@.skip(from as int);
        let ghost before = texts(out@);
        if i == cs.len() {
            out.push(string_of(&cs, from, i));
            assert(cs@.subrange(from as int, i as int) == rest);
            assert(texts(out@) == before + seq![rest]);
            return out;
        }
        let ghost line = rest.take(i - from);
        assert(line == cs@.subrange(from as int, i as int));
        let to: usize = if i > from && cs[i - 1] == '\r' {
            i - 1
        } else {
            i
        };
        assert(strip_return(line) == cs@.subrange(from as int, to as int));
        out.push(string_of(&cs, from, to));
        assert(texts(out@) == before.push(strip_return(line)));
        assert(rest.skip(i - from + 1) == cs@.skip(i + 1));
        assert(before + (seq![strip_return(line)] + lines(cs@.skip(i + 1))) == texts(out@) + lines(
            cs@.skip(i + 1),
        ));
        from = i + 1;
    }
    assert(lines(cs@.skip(from as int)) == Seq::<Seq<char>>::empty());
    assert(texts(out@) + Seq::<Seq<char>>::empty() == texts(out@));
    out
}

/// The parts one after the other with `sep` between each two.
pub fn join_texts(parts: &Vec<String>, sep: &str) -> (r: String)
    ensures
        r@ == join(texts(parts@), sep@),
{
    let mut out = String::new();
    let mut i: usize = 0;
    assert(texts(parts@).take(0) == Seq::<Seq<char>>::empty());
    while i < parts.len()
        invariant
            i <= parts@.len(),
            out@ == join(texts(parts@).take(i as int), sep@),
        decreases parts@.len() - i,
    {
        let ghost next = texts(parts@).take(i + 1);
        assert(next.drop_last() == texts(parts@).take(i as int));
        if i > 0 {
            out.append(sep);
        }
        out.append(parts[i].as_str());
        assert(next.last() == parts@[i as int]@);
        i = i + 1;
    }
    assert(texts(parts@).take(i as int) == texts(parts@));
    out
}

/// The parts without those equal to the part just before them.
pub fn dedup_texts(parts: &Vec<String>) -> (r: Vec<String>)
    ensures
        texts(r@) == dedup(texts(parts@)),
{
    let mut out: Vec<String> = Vec::new();
    let mut i: usize = 0;
    assert(texts(parts@).take(0) == Seq::<Seq<char>>::empty());
    assert(texts(out@) == Seq::<Seq<char>>::empty());
    while i < parts.len()
        invariant
            i <= parts@.len(),
            texts(out@) == dedup(texts(parts@).take(i as int)),
        decreases parts@.len() - i,
    {
        let ghost next = texts(parts@).take(i + 1);
        let ghost before = texts(out@);
        assert(next.drop_last() == texts(parts@).take(i as int));
        assert(next.last() == parts@[i as int]@);
        if i == 0 || parts[i] != parts[i - 1] {
            out.push(parts[i].clone());
            assert(texts(out@) == before.push(parts@[i as int]@));
        }
        i = i + 1;
    }
    assert(texts(parts@).take(i as int) == texts(parts@));
    out
}

/// Appends `s` to a list of strings.
pub fn push_text(v: &mut Vec<String>, s: &str)
    ensures
        texts(final(v)@) == texts(old(v)@).push(s@),
{
    v.push(s.to_owned());
    assert(texts(v@) == texts(old(v)@).push(s@));
}

/// Appends the strings of `more` to a list of strings.
pub fn extend_texts(v: &mut Vec<String>, more: &Vec<String>)
    ensures
        texts(final(v)@) == texts(old(v)@) + texts(more@),
{
    let mut i: usize = 0;
    assert(texts(v@) == texts(old(v)@) + texts(more@).take(0));
    while i < more.len()
        invariant
            i <= more@.len(),
            texts(v@) == texts(old(v)@) + texts(more@).take(i as int),
        decreases more@.len() - i,
    {
        push_text(v, more[i].as_str());
        assert(texts(old(v)@) + texts(more@).take(i + 1) == (texts(old(v)@) + texts(more@).take(
            i as int,
        )).push(more@[i as int]@));
        i = i + 1;
    }
    assert(texts(more@).take(i as int) == texts(more@));
}

/// A list of the same strings.
pub fn copy_texts(v: &Vec<String>) -> (r: Vec<String>)
    ensures
        texts(r@) == texts(v@),
{
    let mut out: Vec<String> = Vec::new();
    extend_texts(&mut out, v);
    assert(texts(Seq::<String>::empty()) + texts(v@) == texts(v@));
    out
}

} // verus!
