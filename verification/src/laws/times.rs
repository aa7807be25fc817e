//! Clock times, and which part of a recording they ask for.
use crate::classes::is_digit;
use crate::functions::section::{
    clock_fits, clock_text, clock_value, law_clock_text_reads_back, lemma_zero_clock, section_differs,
    section_end, section_start,
};
use crate::functions::valid::{
    law_strict_time_is_clock_time, plain_range, plain_time, range_verdict, strict_time, time_shape,
};
use crate::numbers::{lemma_two_digits, two_digits, u64_value, unsigned_part};
use crate::text::{is_ascii_digit, lemma_split_first, lemma_split_none, split, trim};
use vstd::prelude::*;

verus! {

/// A number below a hundred is written in its tens and its ones.
pub proof fn law_tens_and_ones(n: nat)
    requires
        n < 100,
    ensures
        two_digits(n).len() == 2,
        two_digits(n)[0] as u32 == 48 + n / 10,
        two_digits(n)[1] as u32 == 48 + n % 10,
{
    reveal_with_fuel(crate::numbers::decimal_text, 3);
    if n >= 10 {
        assert(n / 10 < 10);
    }
}

proof fn lemma_number(n: nat)
    requires
        n <= u64::MAX,
    ensures
        u64_value(two_digits(n)) == Some(n as u64),
        forall|j: int| 0 <= j < two_digits(n).len() ==> two_digits(n)[j] != ':',
{
    lemma_two_digits(n);
    let t = two_digits(n);
    assert forall|j: int| 0 <= j < t.len() implies t[j] != ':' by {
        assert(is_ascii_digit(t[j]));
    }
    assert(is_ascii_digit(t[0]));
    assert(unsigned_part(t) == t);
}

/// Hours, minutes and seconds between colons stand for 3600 seconds an hour and 60 a
/// minute. They stand for no time if the minutes or the seconds are 60 or more.
pub proof fn law_clock_counts_seconds(h: u64, m: u64, s: u64)
    ensures
        ({
            let t = two_digits(h as nat) + seq![':'] + two_digits(m as nat) + seq![':']
                + two_digits(s as nat);
            clock_value(t) == if m < 60 && s < 60 {
                Some(h * 3600 + m * 60 + s)
            } else {
                None
            }
        }),
{
    let (a, b, c) = (two_digits(h as nat), two_digits(m as nat), two_digits(s as nat));
    let t = a + seq![':'] + b + seq![':'] + c;
    lemma_number(h as nat);
    lemma_number(m as nat);
    lemma_number(s as nat);
    assert(t == a + seq![':'] + (b + seq![':'] + c));
    lemma_split_first(a, ':', b + seq![':'] + c);
    lemma_split_first(b, ':', c);
    lemma_split_none(c, ':');
    assert(split(t, ':') == seq![a, b, c]);
}

/// So many seconds are written as the hours, minutes and seconds that they are.
pub proof fn law_seconds_are_written_as_a_clock(h: nat, m: nat, s: nat)
    requires
        m < 60,
        s < 60,
    ensures
        clock_text(h * 3600 + m * 60 + s) == two_digits(h) + seq![':'] + two_digits(m) + seq![':']
            + two_digits(s),
{
    let t = h * 3600 + m * 60 + s;
    assert(t / 3600 == h);
    assert(t % 3600 == m * 60 + s);
    assert(t % 3600 / 60 == m);
    assert(t % 60 == s);
}

/// A part from `a` to `b` seconds differs from the whole exactly if it starts later
/// than the whole, or if its end is named and lies more than a second before the
/// whole one's, or if the length of the whole is not known.
pub proof fn law_part_or_whole(
    start: Seq<char>,
    end: Seq<char>,
    a: int,
    b: int,
    duration: Option<u64>,
)
    requires
        clock_value(start) == Some(a) || clock_value(start) is None && a == 0,
        clock_value(end) == Some(b),
        a >= 0,
        b >= 0,
    ensures
        section_differs(start, end, duration) <==> a > 0 || b > 0 && (match duration {
            Some(d) => b + 1 < d,
            None => true,
        }),
{
}

/// An end that is no clock time is handed on as it is.
pub proof fn law_odd_end_is_a_part(start: Seq<char>, end: Seq<char>, duration: Option<u64>)
    requires
        clock_value(end) is None,
    ensures
        section_differs(start, end, duration),
{
}

/// The part begins at the start that is asked for, or at zero, and ends at the end
/// that is asked for; if that is missing or `00:00:00`, at the end of the recording,
/// as far as that is known.
pub proof fn law_part_is_what_was_asked_for(
    start: Option<Seq<char>>,
    end: Option<Seq<char>>,
    duration: Option<u64>,
)
    ensures
        start is Some ==> section_start(start) == start->0,
        start is None ==> clock_value(section_start(start)) == Some(0int),
        end is Some && end->0 != "00:00:00"@ ==> section_end(end, duration) == end->0,
        end is None || end->0 == "00:00:00"@ ==> clock_value(section_end(end, duration)) == (
        match duration {
            Some(d) => Some(d as int),
            None => Some(0int),
        }),
{
    lemma_zero_clock();
    if let Some(d) = duration {
        law_clock_text_reads_back(d);
    }
}

// ---------------------------------------------------------------------------
// Which ranges are accepted
// ---------------------------------------------------------------------------
/// `HH:MM:SS` is read as 3600 seconds an hour and 60 a minute, and refused if the
/// minutes or the seconds are 60 or more.
pub proof fn law_strict_time_counts_seconds(h: nat, m: nat, s: nat)
    requires
        h < 100,
        m < 100,
        s < 100,
    ensures
        ({
            let t = two_digits(h) + seq![':'] + two_digits(m) + seq![':'] + two_digits(s);
            &&& m < 60 && s < 60 ==> strict_time(t) == Ok::<u64, Seq<char>>(
                (h * 3600 + m * 60 + s) as u64,
            )
            &&& m >= 60 || s >= 60 ==> strict_time(t) == Err::<u64, Seq<char>>(
                "Minutes and seconds must be less than 60"@,
            )
        }),
{
    let t = two_digits(h) + seq![':'] + two_digits(m) + seq![':'] + two_digits(s);
    law_tens_and_ones(h);
    law_tens_and_ones(m);
    law_tens_and_ones(s);
    assert(t.len() == 8);
    assert(t[0] == two_digits(h)[0] && t[1] == two_digits(h)[1]);
    assert(t[3] == two_digits(m)[0] && t[4] == two_digits(m)[1]);
    assert(t[6] == two_digits(s)[0] && t[7] == two_digits(s)[1]);
    lemma_two_digits(h);
    lemma_two_digits(m);
    lemma_two_digits(s);
    assert(t[2] == ':' && t[5] == ':');
    assert(forall|i: int| 0 <= i < 2 ==> is_ascii_digit(#[trigger] two_digits(h)[i]));
    assert(forall|i: int| 0 <= i < 2 ==> is_ascii_digit(#[trigger] two_digits(m)[i]));
    assert(forall|i: int| 0 <= i < 2 ==> is_ascii_digit(#[trigger] two_digits(s)[i]));
    assert(time_shape(t));
}

/// What is not two digits, a colon, two digits, a colon and two digits is no time.
pub proof fn law_other_shapes_are_refused(t: Seq<char>)
    requires
        t.len() != 8 || t[2] != ':' || t[5] != ':' || !is_digit(t[0]) || !is_digit(t[1])
            || !is_digit(t[3]) || !is_digit(t[4]) || !is_digit(t[6]) || !is_digit(t[7]),
    ensures
        strict_time(t) == Err::<u64, Seq<char>>("Time format must be HH:MM:SS (e.g. 00:05:30)"@),
{
}

/// A range is accepted exactly if its times are times and it can be cut out. The
/// start counts as zero if it is missing or blank. If the end is missing or blank,
/// nothing more is asked; an end of zero stands for the very end, so that the start
/// need only lie within the length; any other end has to come after the start and
/// lie within the length. A length that is not known limits nothing.
pub proof fn law_good_ranges_are_accepted(
    start: Option<Seq<char>>,
    end: Option<Seq<char>>,
    max_duration: Option<u64>,
)
    ensures
        ({
            let no_start = start is None || trim(start->0).len() == 0;
            let no_end = end is None || trim(end->0).len() == 0;
            let a = if no_start {
                Ok(0u64)
            } else {
                strict_time(start->0)
            };
            let b = strict_time(end->0);
            range_verdict(start, end, max_duration) is Ok <==> {
                &&& a is Ok
                &&& no_end || b is Ok && if b->Ok_0 == 0 {
                    a->Ok_0 == 0 || max_duration is None || a->Ok_0 <= max_duration->0
                } else {
                    a->Ok_0 < b->Ok_0 && (max_duration is None || b->Ok_0 <= max_duration->0)
                }
            }
        }),
{
}

/// A range is refused for the first thing that is wrong with it: the start is no time,
/// the end is no time, the end does not come after the start, the end lies beyond the
/// length, or the start does.
pub proof fn law_ranges_are_refused_with_a_reason(
    start: Option<Seq<char>>,
    end: Option<Seq<char>>,
    max_duration: Option<u64>,
)
    requires
        start is Some && trim(start->0).len() > 0,
        end is Some && trim(end->0).len() > 0,
    ensures
        ({
            let a = strict_time(start->0);
            let b = strict_time(end->0);
            let verdict = range_verdict(start, end, max_duration);
            &&& a is Err ==> verdict == Err::<(), Seq<char>>(a->Err_0)
            &&& a is Ok && b is Err ==> verdict == Err::<(), Seq<char>>(b->Err_0)
            &&& a is Ok && b is Ok && 0 < b->Ok_0 <= a->Ok_0 ==> verdict == Err::<(), Seq<char>>(
                "Start must be earlier than end"@,
            )
            &&& a is Ok && b is Ok && a->Ok_0 < b->Ok_0 && max_duration is Some && max_duration->0
                < b->Ok_0 ==> verdict == Err::<(), Seq<char>>("End exceeds the video's duration"@)
            &&& a is Ok && b == Ok::<u64, Seq<char>>(0) && max_duration is Some && max_duration->0
                < a->Ok_0 ==> verdict == Err::<(), Seq<char>>(
                "Start exceeds the video's duration"@,
            )
        }),
{
}

/// Every text in ASCII is one that can be judged, and every accepted time can be
/// counted in seconds of 64 bits.
pub proof fn law_ordinary_times_can_be_judged(t: Seq<char>)
    ensures
        (forall|i: int| 0 <= i < t.len() ==> #[trigger] t[i] <= '\u{7f}') ==> plain_time(t),
        plain_time(t) && strict_time(t) is Ok ==> clock_fits(t),
        clock_value(t) is None ==> clock_fits(t),
        clock_value(t) is Some && clock_value(t)->0 <= u64::MAX ==> clock_fits(t),
{
    if time_shape(t) && (forall|i: int| 0 <= i < t.len() ==> #[trigger] t[i] <= '\u{7f}') {
        assert(t[0] <= '\u{7f}' && t[1] <= '\u{7f}' && t[3] <= '\u{7f}' && t[4] <= '\u{7f}' && t[6]
            <= '\u{7f}' && t[7] <= '\u{7f}');
        lemma_ascii_digit(t[0]);
        lemma_ascii_digit(t[1]);
        lemma_ascii_digit(t[3]);
        lemma_ascii_digit(t[4]);
        lemma_ascii_digit(t[6]);
        lemma_ascii_digit(t[7]);
    }
    if plain_time(t) && strict_time(t) is Ok {
        law_strict_time_is_clock_time(t);
    }
}

proof fn lemma_ascii_digit(c: char)
    requires
        is_digit(c),
        c <= '\u{7f}',
    ensures
        is_ascii_digit(c),
{
}

/// A range can be judged if its start and its end can, as far as they are given.
pub proof fn law_ordinary_ranges_can_be_judged(start: Option<Seq<char>>, end: Option<Seq<char>>)
    requires
        start is Some ==> plain_time(start->0),
        end is Some ==> plain_time(end->0),
    ensures
        plain_range(start, end),
{
}

} // verus!
