//! What is done to texts and lists of texts.
use crate::functions::output::{decodable, output_text, windows_1251_text};
use crate::numbers::{all_digits, decimal_text, lemma_decimal_text, u64_value, unsigned_part};
use crate::text::{
    contains, dedup, ends_with, filled_parts, is_ascii_digit, join, lemma_split_first,
    lemma_split_none, occurs_at, split, starts_with,
};
use vstd::prelude::*;
use vstd::utf8::valid_utf8;

verus! {

/// Of parts that are equal to the part just before them none is left; all others are
/// left, in their order.
pub proof fn law_only_repetitions_are_dropped(parts: Seq<Seq<char>>, part: Seq<char>)
    ensures
        dedup(Seq::empty()) == Seq::<Seq<char>>::empty(),
        dedup(parts.push(part)) == if parts.len() > 0 && parts.last() == part {
            dedup(parts)
        } else {
            dedup(parts).push(part)
        },
{
    let all = parts.push(part);
    assert(all.drop_last() == parts);
    if parts.len() == 0 {
        assert(all == dedup(parts).push(part));
    } else {
        assert(all[all.len() - 2] == parts.last());
    }
}

/// Parts are joined in their order, with the separator between each two.
pub proof fn law_parts_are_joined_in_order(
    parts: Seq<Seq<char>>,
    part: Seq<char>,
    sep: Seq<char>,
)
    ensures
        join(Seq::empty(), sep) == Seq::<char>::empty(),
        join(parts.push(part), sep) == if parts.len() == 0 {
            part
        } else {
            join(parts, sep) + sep + part
        },
{
    assert(parts.push(part).drop_last() == parts);
}

/// A text is parted at each separator, and only there.
pub proof fn law_texts_are_parted_at_separators(part: Seq<char>, c: char, rest: Seq<char>)
    requires
        !part.contains(c),
    ensures
        split(part, c) == seq![part],
        split(part + seq![c] + rest, c) == seq![part] + split(rest, c),
{
    assert forall|j: int| 0 <= j < part.len() implies part[j] != c by {
        assert(part.contains(part[j]));
    }
    lemma_split_none(part, c);
    lemma_split_first(part, c, rest);
}

/// Empty parts are dropped; all others are left, in their order.
pub proof fn law_only_empty_parts_are_dropped(parts: Seq<Seq<char>>, part: Seq<char>)
    ensures
        filled_parts(Seq::empty()) == Seq::<Seq<char>>::empty(),
        filled_parts(parts.push(part)) == if part.len() == 0 {
            filled_parts(parts)
        } else {
            filled_parts(parts).push(part)
        },
{
    assert(parts.push(part).drop_last() == parts);
}

/// A text holds what stands somewhere in it, begins with what stands at its beginning,
/// and ends with what stands at its end; and each of these gives such a place.
pub proof fn law_where_a_text_stands(left: Seq<char>, p: Seq<char>, right: Seq<char>, s: Seq<char>)
    ensures
        contains(left + p + right, p),
        starts_with(p + right, p),
        ends_with(left + p, p),
        contains(s, p) ==> exists|a: Seq<char>, b: Seq<char>| s == #[trigger] (a + p + b),
        starts_with(s, p) ==> s == p + s.skip(p.len() as int),
        ends_with(s, p) ==> s == s.take(s.len() - p.len()) + p,
{
    let all = left + p + right;
    let n = left.len() as int;
    assert(all.subrange(n, n + p.len()) == p);
    assert(occurs_at(all, p, n));
    assert((p + right).take(p.len() as int) == p);
    assert((left + p).skip(n) == p);
    if contains(s, p) {
        let i = choose|i: int| #[trigger] occurs_at(s, p, i);
        assert(s == s.take(i) + s.subrange(i, i + p.len()) + s.skip(i + p.len()));
        assert(s == s.take(i) + p + s.skip(i + p.len()));
    }
    if starts_with(s, p) {
        assert(s == s.take(p.len() as int) + s.skip(p.len() as int));
    }
    if ends_with(s, p) {
        assert(s == s.take(s.len() - p.len()) + s.skip(s.len() - p.len()));
    }
}

/// A number in digits is read as that number, with or without a plus sign, if it fits
/// in 64 bits; what is larger, holds anything but digits, or is empty is no number.
pub proof fn law_what_a_number_is(n: nat, s: Seq<char>, i: int)
    ensures
        n <= u64::MAX ==> u64_value(decimal_text(n)) == Some(n as u64) && u64_value(
            seq!['+'] + decimal_text(n),
        ) == Some(n as u64),
        n > u64::MAX ==> u64_value(decimal_text(n)) is None,
        s.len() == 0 ==> u64_value(s) is None,
        0 < i < s.len() && !('0' <= s[i] <= '9') ==> u64_value(s) is None,
        s.len() > 0 && !('0' <= s[0] <= '9') && s[0] != '+' ==> u64_value(s) is None,
{
    lemma_decimal_text(n);
    let t = decimal_text(n);
    assert(is_ascii_digit(t[0]));
    assert(unsigned_part(t) == t);
    let signed = seq!['+'] + t;
    assert(signed.skip(1) == t);
    let d = unsigned_part(s);
    if 0 < i < s.len() && !('0' <= s[i] <= '9') {
        if all_digits(d) {
            if s.len() > 1 && s[0] == '+' {
                assert(is_ascii_digit(d[i - 1]));
            } else {
                assert(is_ascii_digit(d[i]));
            }
        }
    }
    if s.len() > 0 && !('0' <= s[0] <= '9') && s[0] != '+' {
        if all_digits(d) {
            assert(is_ascii_digit(d[0]));
        }
    }
}

/// A number is written in its digits: the last is its ones, the others are its tens.
pub proof fn law_numbers_are_written_in_digits(n: nat)
    ensures
        n < 10 ==> decimal_text(n).len() == 1 && decimal_text(n)[0] as u32 == 48 + n,
        n >= 10 ==> decimal_text(n) == decimal_text(n / 10) + decimal_text(n % 10),
{
    if n >= 10 {
        assert(decimal_text(n / 10).push(crate::numbers::digit_char(n % 10)) == decimal_text(n / 10)
            + decimal_text(n % 10));
    }
}

/// Output that is not UTF-8 is read as windows-1251, and there is no output of a quarter
/// of a gigabyte or less that is not read.
pub proof fn law_other_output_is_read_as_cyrillic(bytes: Seq<u8>)
    ensures
        !valid_utf8(bytes) ==> output_text(bytes) == windows_1251_text(bytes),
        bytes.len() <= 0x0fff_ffff ==> decodable(bytes),
{
}

} // verus!
