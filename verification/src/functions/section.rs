//! Clock times and the part of a recording that is to be kept.
use crate::numbers::{
    lemma_two_digits, parse_u64, push_two_digits, two_digits, u64_value, unsigned_part,
};
use crate::text::{
    is_ascii_digit, lemma_split_first, lemma_split_none, opt_str, same_text, split, split_text,
    texts,
};
use vstd::prelude::*;

verus! {

/// The seconds that a clock time `H:M:S` stands for: three numbers between
/// colons, the minutes and the seconds below 60.
pub open spec fn clock_value(t: Seq<char>) -> Option<int> {
    let p = split(t, ':');
    if p.len() != 3 {
        None
    } else {
        match (u64_value(p[0]), u64_value(p[1]), u64_value(p[2])) {
            (Some(h), Some(m), Some(s)) => if m < 60 && s < 60 {
                Some(h * 3600 + m * 60 + s)
            } else {
                None
            },
            _ => None,
        }
    }
}

/// `t` is no clock time beyond what 64 bits of seconds hold.
pub open spec fn clock_fits(t: Seq<char>) -> bool {
    clock_value(t) matches Some(v) ==> v <= u64::MAX
}

/// `t`, if it is there, is no clock time beyond what 64 bits of seconds hold.
pub open spec fn opt_clock_fits(t: Option<Seq<char>>) -> bool {
    t matches Some(v) ==> clock_fits(v)
}

/// `secs` as hours, minutes and seconds of at least two digits each.
pub open spec fn clock_text(secs: nat) -> Seq<char> {
    two_digits(secs / 3600) + seq![':'] + two_digits(secs % 3600 / 60) + seq![':'] + two_digits(
        secs % 60,
    )
}

/// Whether keeping the part from `start` to `end` differs from keeping all of
/// a recording of the given length. A start that is no clock time counts as
/// zero, an end of zero as the very end; an end that is no clock time differs,
/// and so does one more than a second before the length, or any end if the
/// length is not known.
pub open spec fn section_differs(start: Seq<char>, end: Seq<char>, duration: Option<u64>) -> bool {
    if clock_value(start).is_some() && clock_value(start) != Some(0int) {
        true
    } else {
        match clock_value(end) {
            None => true,
            Some(e) => e != 0 && match duration {
                Some(d) => e < d - 1,
                None => true,
            },
        }
    }
}

/// The start that is meant where `start` may be missing.
pub open spec fn section_start(start: Option<Seq<char>>) -> Seq<char> {
    match start {
        Some(s) => s,
        None => "00:00:00"@,
    }
}

/// The end that is meant where `end` may be missing or zero: then it is the
/// length of the recording, as far as that is known.
pub open spec fn section_end(end: Option<Seq<char>>, duration: Option<u64>) -> Seq<char> {
    match end {
        Some(e) if e != "00:00:00"@ => e,
        _ => match duration {
            Some(d) => clock_text(d as nat),
            None => "00:00:00"@,
        },
    }
}

proof fn lemma_no_colon(n: nat)
    ensures
        forall|j: int| 0 <= j < two_digits(n).len() ==> two_digits(n)[j] != ':',
        unsigned_part(two_digits(n)) == two_digits(n),
{
    lemma_two_digits(n);
    let t = two_digits(n);
    assert(is_ascii_digit(t[0]));
    assert forall|j: int| 0 <= j < t.len() implies t[j] != ':' by {
        assert(is_ascii_digit(t[j]));
    }
}

/// A number of seconds written as a clock time reads back as that number.
pub proof fn law_clock_text_reads_back(secs: u64)
    ensures
        clock_value(clock_text(secs as nat)) == Some(secs as int),
{
    let h = (secs / 3600) as nat;
    let m = (secs % 3600 / 60) as nat;
    let s = (secs % 60) as nat;
    lemma_two_digits(h);
    lemma_two_digits(m);
    lemma_two_digits(s);
    lemma_no_colon(h);
    lemma_no_colon(m);
    lemma_no_colon(s);
    let (a, b, c) = (two_digits(h), two_digits(m), two_digits(s));
    let t = clock_text(secs as nat);
    assert(t == a + seq![':'] + (b + seq![':'] + c));
    lemma_split_first(a, ':', b + seq![':'] + c);
    lemma_split_first(b, ':', c);
    lemma_split_none(c, ':');
    assert(split(t, ':') == seq![a, b, c]);
}

/// When neither a start nor an end is asked for, there is nothing to cut,
/// whatever is known of the length.
pub proof fn law_nothing_asked_nothing_cut(
    start: Option<Seq<char>>,
    end: Option<Seq<char>>,
    duration: Option<u64>,
)
    requires
        start is None || start == Some("00:00:00"@),
        end is None || end == Some("00:00:00"@),
    ensures
        !section_differs(section_start(start), section_end(end, duration), duration),
{
    lemma_zero_clock();
    if let Some(d) = duration {
        law_clock_text_reads_back(d);
    }
}

/// `00:00:00` is zero seconds.
pub proof fn lemma_zero_clock()
    ensures
        clock_value("00:00:00"@) == Some(0int),
{
    reveal_strlit("00:00:00");
    law_clock_text_reads_back(0);
    lemma_two_digits(0);
    assert("00:00:00"@ == clock_text(0));
}

/// Whether the seconds of `t`, if it is a clock time, fit in 64 bits.
pub fn time_fits(t: &str) -> (r: bool)
    ensures
        r == clock_fits(t@),
{
    let p = split_text(t, ':');
    assert(texts(p@) == split(t@, ':'));
    if p.len() != 3 {
        return true;
    }
    assert(split(t@, ':')[0] == p@[0]@ && split(t@, ':')[1] == p@[1]@ && split(t@, ':')[2]
        == p@[2]@);
    match (parse_u64(p[0].as_str()), parse_u64(p[1].as_str()), parse_u64(p[2].as_str())) {
        (Some(h), Some(m), Some(s)) => m >= 60 || s >= 60 || h <= (u64::MAX - (m * 60 + s)) / 3600,
        _ => true,
    }
}

/// The seconds that a clock time `H:M:S` stands for.
pub fn parse_time_to_secs(t: &str) -> (r: Option<u64>)
    requires
        clock_fits(t@),
    ensures
        match r {
            Some(v) => clock_value(t@) == Some(v as int),
            None => clock_value(t@) is None,
        },
{
    let p = split_text(t, ':');
    assert(texts(p@) == split(t@, ':'));
    if p.len() != 3 {
        return None;
    }
    assert(split(t@, ':')[0] == p@[0]@ && split(t@, ':')[1] == p@[1]@ && split(t@, ':')[2]
        == p@[2]@);
    match (parse_u64(p[0].as_str()), parse_u64(p[1].as_str()), parse_u64(p[2].as_str())) {
        (Some(h), Some(m), Some(s)) => {
            if m >= 60 || s >= 60 {
                return None;
            }
            Some(h * 3600 + m * 60 + s)
        },
        _ => None,
    }
}

/// Whether keeping the part from `start` to `end` differs from keeping all of
/// a recording of the given length.
pub fn section_changed(start: &str, end: &str, duration: Option<u64>) -> (r: bool)
    requires
        clock_fits(start@),
        clock_fits(end@),
    ensures
        r == section_differs(start@, end@, duration),
{
    let start_secs: u64 = match parse_time_to_secs(start) {
        Some(s) => s,
        None => 0,
    };
    if start_secs != 0 {
        return true;
    }
    match parse_time_to_secs(end) {
        None => true,
        Some(end_secs) => {
            if end_secs == 0 {
                return false;
            }
            match duration {
                Some(d) => end_secs < d.saturating_sub(1),
                None => true,
            }
        },
    }
}

/// `secs` as hours, minutes and seconds of at least two digits each.
pub fn format_clock(secs: u64) -> (r: String)
    ensures
        r@ == clock_text(secs as nat),
{
    let mut out = String::new();
    push_two_digits(&mut out, secs / 3600);
    out.push(':');
    push_two_digits(&mut out, secs % 3600 / 60);
    out.push(':');
    push_two_digits(&mut out, secs % 60);
    assert(out@ == clock_text(secs as nat));
    out
}

/// The part of a recording that is to be kept.
pub struct Section {
    pub start: String,
    pub end: String,
    /// Whether the part differs from the whole.
    pub needed: bool,
}

/// The part of a recording of the given length that `start` and `end` ask for.
pub fn plan_section(start: Option<&str>, end: Option<&str>, duration: Option<u64>) -> (r: Section)
    requires
        opt_clock_fits(opt_str(start)),
        opt_clock_fits(opt_str(end)),
    ensures
        r.start@ == section_start(opt_str(start)),
        r.end@ == section_end(opt_str(end), duration),
        r.needed == section_differs(r.start@, r.end@, duration),
{
    let start_text = match start {
        Some(s) => s.to_owned(),
        None => "00:00:00".to_owned(),
    };
    let asked = match end {
        Some(e) => !same_text(e, "00:00:00"),
        None => false,
    };
    let end_text = match end {
        Some(e) if asked => e.to_owned(),
        _ => match duration {
            Some(d) => format_clock(d),
            None => "00:00:00".to_owned(),
        },
    };
    proof {
        lemma_zero_clock();
        if let Some(d) = duration {
            law_clock_text_reads_back(d);
        }
    }
    let needed = section_changed(start_text.as_str(), end_text.as_str(), duration);
    Section { start: start_text, end: end_text, needed }
}

} // verus!
