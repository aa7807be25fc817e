//! Which addresses and time ranges are accepted.
use crate::classes::{digit, is_digit, is_word, word};
use crate::functions::section::clock_value;
use crate::numbers::{all_digits, decimal_value, u64_value, unsigned_part};
use crate::text::{
    chars_of, is_ascii_digit, lemma_split_first, lemma_split_none, matches_at, opt_text, split,
    starts_with, trim, trim_text,
};
use vstd::prelude::*;

verus! {

// ---------------------------------------------------------------------------
// Addresses
// ---------------------------------------------------------------------------
/// `s` is `site` followed by at least one character, none of them a line feed.
pub open spec fn page_of(s: Seq<char>, site: Seq<char>) -> bool {
    &&& starts_with(s, site)
    &&& s.len() > site.len()
    &&& forall|i: int| site.len() <= i < s.len() ==> s[i] != '\n'
}

/// `s` is a YouTube page without scheme, with or without `www.`.
pub open spec fn youtube_page(s: Seq<char>) -> bool {
    ||| youtube_host(s)
    ||| starts_with(s, "www."@) && youtube_host(s.skip("www."@.len() as int))
}

/// `s` is a page of one of YouTube's hosts.
pub open spec fn youtube_host(s: Seq<char>) -> bool {
    page_of(s, "youtube.com/"@) || page_of(s, "youtu.be/"@)
}

/// `s` is the address of a YouTube page, with or without a scheme.
pub open spec fn youtube_address(s: Seq<char>) -> bool {
    ||| youtube_page(s)
    ||| starts_with(s, "http://"@) && youtube_page(s.skip("http://"@.len() as int))
    ||| starts_with(s, "https://"@) && youtube_page(s.skip("https://"@.len() as int))
}

/// `s` is a non-empty run of digits of any script.
pub open spec fn digit_run(s: Seq<char>) -> bool {
    s.len() > 0 && forall|i: int| 0 <= i < s.len() ==> is_digit(#[trigger] s[i])
}

/// `s` is a non-empty run of word characters and hyphens.
pub open spec fn name_run(s: Seq<char>) -> bool {
    s.len() > 0 && forall|i: int| 0 <= i < s.len() ==> is_word(#[trigger] s[i]) || s[i] == '-'
}

/// `s` is `<name>/v/<number>`, where the name is the first `k` characters.
pub open spec fn channel_video(s: Seq<char>, k: int) -> bool {
    &&& 0 < k <= s.len()
    &&& name_run(s.take(k))
    &&& starts_with(s.skip(k), "/v/"@)
    &&& digit_run(s.skip(k + "/v/"@.len()))
}

/// `s` is the path of a recording or clip on Twitch's main host.
pub open spec fn twitch_path(s: Seq<char>) -> bool {
    ||| starts_with(s, "videos/"@) && digit_run(s.skip("videos/"@.len() as int))
    ||| exists|k: int| channel_video(s, k)
    ||| starts_with(s, "clips/"@) && name_run(s.skip("clips/"@.len() as int))
}

/// `s` is a recording or clip on one of Twitch's hosts.
pub open spec fn twitch_host(s: Seq<char>) -> bool {
    ||| starts_with(s, "twitch.tv/"@) && twitch_path(s.skip("twitch.tv/"@.len() as int))
    ||| starts_with(s, "clips.twitch.tv/"@) && name_run(s.skip("clips.twitch.tv/"@.len() as int))
}

/// `s` is a recording or clip on Twitch, with or without `www.`.
pub open spec fn twitch_page(s: Seq<char>) -> bool {
    ||| twitch_host(s)
    ||| starts_with(s, "www."@) && twitch_host(s.skip("www."@.len() as int))
}

/// `s` is the address of a recording or clip on Twitch.
pub open spec fn twitch_address(s: Seq<char>) -> bool {
    ||| starts_with(s, "http://"@) && twitch_page(s.skip("http://"@.len() as int))
    ||| starts_with(s, "https://"@) && twitch_page(s.skip("https://"@.len() as int))
}

/// Where `p` ends, if it stands in `cs` at `from`.
fn after(cs: &Vec<char>, from: usize, p: &str) -> (r: Option<usize>)
    requires
        from <= cs@.len(),
    ensures
        match r {
            Some(i) => starts_with(cs@.skip(from as int), p@) && i == from + p@.len() && i
                <= cs@.len() && cs@.skip(i as int) == cs@.skip(from as int).skip(p@.len() as int),
            None => !starts_with(cs@.skip(from as int), p@),
        },
{
    let ps = chars_of(p);
    let n: usize = cs.len();
    let hit = matches_at(cs, &ps, from);
    proof {
        if p@.len() <= cs@.len() - from {
            assert(cs@.skip(from as int).take(p@.len() as int) == cs@.subrange(
                from as int,
                from + p@.len(),
            ));
        }
    }
    if hit {
        assert(cs@.skip(from + p@.len()) == cs@.skip(from as int).skip(p@.len() as int));
        assert(from + p@.len() <= n);
        Some(from + ps.len())
    } else {
        None
    }
}

fn is_page_of(cs: &Vec<char>, from: usize, site: &str) -> (r: bool)
    requires
        from <= cs@.len(),
    ensures
        r == page_of(cs@.skip(from as int), site@),
{
    let ghost s = cs@.skip(from as int);
    match after(cs, from, site) {
        None => false,
        Some(at) => {
            if at == cs.len() {
                return false;
            }
            let mut i: usize = at;
            while i < cs.len()
                invariant
                    from <= at <= i <= cs@.len(),
                    at == from + site@.len(),
                    s == cs@.skip(from as int),
                    forall|j: int| site@.len() <= j < i - from ==> s[j] != '\n',
                decreases cs@.len() - i,
            {
                if cs[i] == '\n' {
                    assert(s[i - from] == '\n');
                    return false;
                }
                assert(s[i - from] == cs@[i as int]);
                i = i + 1;
            }
            true
        },
    }
}

fn is_youtube_host(cs: &Vec<char>, from: usize) -> (r: bool)
    requires
        from <= cs@.len(),
    ensures
        r == youtube_host(cs@.skip(from as int)),
{
    is_page_of(cs, from, "youtube.com/") || is_page_of(cs, from, "youtu.be/")
}

fn is_youtube_page(cs: &Vec<char>, from: usize) -> (r: bool)
    requires
        from <= cs@.len(),
    ensures
        r == youtube_page(cs@.skip(from as int)),
{
    if is_youtube_host(cs, from) {
        return true;
    }
    match after(cs, from, "www.") {
        Some(at) => is_youtube_host(cs, at),
        None => false,
    }
}

/// Whether `url` is the address of a YouTube page.
pub fn is_youtube_url(url: String) -> (r: bool)
    ensures
        r == youtube_address(url@),
{
    let cs = chars_of(url.as_str());
    assert(cs@.skip(0) == cs@);
    if is_youtube_page(&cs, 0) {
        return true;
    }
    if let Some(at) = after(&cs, 0, "http://") {
        if is_youtube_page(&cs, at) {
            return true;
        }
    }
    match after(&cs, 0, "https://") {
        Some(at) => is_youtube_page(&cs, at),
        None => false,
    }
}

fn is_digit_run(cs: &Vec<char>, from: usize) -> (r: bool)
    requires
        from <= cs@.len(),
    ensures
        r == digit_run(cs@.skip(from as int)),
{
    if from == cs.len() {
        return false;
    }
    let ghost s = cs@.skip(from as int);
    let mut i: usize = from;
    while i < cs.len()
        invariant
            from <= i <= cs@.len(),
            s == cs@.skip(from as int),
            forall|j: int| 0 <= j < i - from ==> is_digit(#[trigger] s[j]),
        decreases cs@.len() - i,
    {
        assert(s[i - from] == cs@[i as int]);
        if !digit(cs[i]) {
            return false;
        }
        i = i + 1;
    }
    true
}

fn is_name_run(cs: &Vec<char>, from: usize, to: usize) -> (r: bool)
    requires
        from <= to <= cs@.len(),
    ensures
        r == name_run(cs@.subrange(from as int, to as int)),
{
    if from == to {
        return false;
    }
    let ghost s = cs@.subrange(from as int, to as int);
    let mut i: usize = from;
    while i < to
        invariant
            from <= i <= to <= cs@.len(),
            s == cs@.subrange(from as int, to as int),
            forall|j: int| 0 <= j < i - from ==> is_word(#[trigger] s[j]) || s[j] == '-',
        decreases to - i,
    {
        assert(s[i - from] == cs@[i as int]);
        if !(word(cs[i]) || cs[i] == '-') {
            return false;
        }
        i = i + 1;
    }
    true
}

fn is_channel_video(cs: &Vec<char>, from: usize) -> (r: bool)
    requires
        from <= cs@.len(),
    ensures
        r == exists|k: int| channel_video(cs@.skip(from as int), k),
{
    let ghost s = cs@.skip(from as int);
    proof {
        reveal_strlit("/v/");
    }
    let mut i: usize = from;
    while i < cs.len() && cs[i] != '/'
        invariant
            from <= i <= cs@.len(),
            s == cs@.skip(from as int),
            forall|j: int| 0 <= j < i - from ==> s[j] != '/',
        decreases cs@.len() - i,
    {
        assert(s[i - from] == cs@[i as int]);
        i = i + 1;
    }
    let ghost n = i - from;
    proof {
        // The name holds no slash, so it can only end at the first one.
        assert forall|k: int| channel_video(s, k) implies k == n by {
            let name = s.take(k);
            assert(s.skip(k)[0] == '/') by {
                assert(s.skip(k).take(3)[0] == '/');
            }
            if n < k {
                assert(s[n] == cs@[i as int]);
                assert(name[n] == '/');
            }
        }
        assert(s.take(n) == cs@.subrange(from as int, i as int));
        assert(s.skip(n) == cs@.skip(i as int));
    }
    if !is_name_run(cs, from, i) {
        return false;
    }
    match after(cs, i, "/v/") {
        Some(at) => {
            assert(s.skip(n + 3) == cs@.skip(at as int));
            let r = is_digit_run(cs, at);
            assert(r ==> channel_video(s, n));
            r
        },
        None => false,
    }
}

fn is_twitch_path(cs: &Vec<char>, from: usize) -> (r: bool)
    requires
        from <= cs@.len(),
    ensures
        r == twitch_path(cs@.skip(from as int)),
{
    if let Some(at) = after(cs, from, "videos/") {
        if is_digit_run(cs, at) {
            return true;
        }
    }
    if is_channel_video(cs, from) {
        return true;
    }
    match after(cs, from, "clips/") {
        Some(at) => {
            assert(cs@.subrange(at as int, cs@.len() as int) == cs@.skip(at as int));
            is_name_run(cs, at, cs.len())
        },
        None => false,
    }
}

fn is_twitch_host(cs: &Vec<char>, from: usize) -> (r: bool)
    requires
        from <= cs@.len(),
    ensures
        r == twitch_host(cs@.skip(from as int)),
{
    if let Some(at) = after(cs, from, "twitch.tv/") {
        if is_twitch_path(cs, at) {
            return true;
        }
    }
    match after(cs, from, "clips.twitch.tv/") {
        Some(at) => {
            assert(cs@.subrange(at as int, cs@.len() as int) == cs@.skip(at as int));
            is_name_run(cs, at, cs.len())
        },
        None => false,
    }
}

fn is_twitch_page(cs: &Vec<char>, from: usize) -> (r: bool)
    requires
        from <= cs@.len(),
    ensures
        r == twitch_page(cs@.skip(from as int)),
{
    if is_twitch_host(cs, from) {
        return true;
    }
    match after(cs, from, "www.") {
        Some(at) => is_twitch_host(cs, at),
        None => false,
    }
}

/// Whether `url`, but for white space around it, is the address of a recording
/// or clip on Twitch.
pub fn is_twitch_url(url: String) -> (r: bool)
    ensures
        r == twitch_address(trim(url@)),
{
    let trimmed = trim_text(url.as_str());
    let cs = chars_of(trimmed.as_str());
    assert(cs@.skip(0) == cs@);
    if let Some(at) = after(&cs, 0, "http://") {
        if is_twitch_page(&cs, at) {
            return true;
        }
    }
    match after(&cs, 0, "https://") {
        Some(at) => is_twitch_page(&cs, at),
        None => false,
    }
}

// ---------------------------------------------------------------------------
// Time ranges
// ---------------------------------------------------------------------------
/// `t` is two digits of any script, a colon, two digits, a colon, two digits.
pub open spec fn time_shape(t: Seq<char>) -> bool {
    &&& t.len() == 8
    &&& t[2] == ':'
    &&& t[5] == ':'
    &&& is_digit(t[0])
    &&& is_digit(t[1])
    &&& is_digit(t[3])
    &&& is_digit(t[4])
    &&& is_digit(t[6])
    &&& is_digit(t[7])
}

/// `t` holds no digits but `0` to `9` where a time has digits.
pub open spec fn plain_time(t: Seq<char>) -> bool {
    time_shape(t) ==> {
        &&& is_ascii_digit(t[0])
        &&& is_ascii_digit(t[1])
        &&& is_ascii_digit(t[3])
        &&& is_ascii_digit(t[4])
        &&& is_ascii_digit(t[6])
        &&& is_ascii_digit(t[7])
    }
}

/// The number of the two digits of `t` at `i`.
pub open spec fn two_at(t: Seq<char>, i: int) -> int {
    (t[i] as int - '0' as int) * 10 + (t[i + 1] as int - '0' as int)
}

/// The seconds of a time `HH:MM:SS`, or why `t` is none.
pub open spec fn strict_time(t: Seq<char>) -> Result<u64, Seq<char>> {
    if !time_shape(t) {
        Err("Time format must be HH:MM:SS (e.g. 00:05:30)"@)
    } else if two_at(t, 3) >= 60 || two_at(t, 6) >= 60 {
        Err("Minutes and seconds must be less than 60"@)
    } else {
        Ok((two_at(t, 0) * 3600 + two_at(t, 3) * 60 + two_at(t, 6)) as u64)
    }
}

/// `t` is there and holds more than white space.
pub open spec fn given(t: Option<Seq<char>>) -> bool {
    t matches Some(v) && trim(v).len() > 0
}

/// The seconds of the start: zero where none is given.
pub open spec fn start_time(start: Option<Seq<char>>) -> Result<u64, Seq<char>> {
    if given(start) {
        strict_time(start->0)
    } else {
        Ok(0)
    }
}

/// What is read of the range is written in the digits `0` to `9`: the start,
/// and, if that is a time, the end.
pub open spec fn plain_range(start: Option<Seq<char>>, end: Option<Seq<char>>) -> bool {
    &&& given(start) ==> plain_time(start->0)
    &&& start_time(start) is Ok && given(end) ==> plain_time(end->0)
}

/// Whether a part of a recording can be cut out, or why not. Where no end is
/// given, the start alone decides; a start and an end of zero ask for the whole.
pub open spec fn range_verdict(
    start: Option<Seq<char>>,
    end: Option<Seq<char>>,
    max_duration: Option<u64>,
) -> Result<(), Seq<char>> {
    match start_time(start) {
        Err(e) => Err(e),
        Ok(a) => if !given(end) {
            Ok(())
        } else {
            match strict_time(end->0) {
                Err(e) => Err(e),
                Ok(b) => if a == 0 && b == 0 {
                    Ok(())
                } else if b > 0 && a >= b {
                    Err("Start must be earlier than end"@)
                } else {
                    match max_duration {
                        Some(max) if b > max => Err("End exceeds the video's duration"@),
                        Some(max) if a > max => Err("Start exceeds the video's duration"@),
                        _ => Ok(()),
                    }
                },
            }
        },
    }
}

/// A time that the strict reading accepts stands for the same seconds as a
/// clock time in general.
pub proof fn law_strict_time_is_clock_time(t: Seq<char>)
    requires
        plain_time(t),
        strict_time(t) is Ok,
    ensures
        clock_value(t) == Some(strict_time(t)->Ok_0 as int),
{
    let (a, b, c) = (t.subrange(0, 2), t.subrange(3, 5), t.subrange(6, 8));
    assert(t == a + seq![':'] + (b + seq![':'] + c));
    lemma_pair(t, 0);
    lemma_pair(t, 3);
    lemma_pair(t, 6);
    lemma_split_first(a, ':', b + seq![':'] + c);
    lemma_split_first(b, ':', c);
    lemma_split_none(c, ':');
    assert(split(t, ':') == seq![a, b, c]);
}

proof fn lemma_pair(t: Seq<char>, i: int)
    requires
        0 <= i,
        i + 2 <= t.len(),
        is_ascii_digit(t[i]),
        is_ascii_digit(t[i + 1]),
    ensures
        u64_value(t.subrange(i, i + 2)) == Some(two_at(t, i) as u64),
        0 <= two_at(t, i) <= 99,
{
    let s = t.subrange(i, i + 2);
    reveal_with_fuel(decimal_value, 3);
    assert(s.drop_last() == seq![t[i]]);
    assert(seq![t[i]].drop_last() == Seq::<char>::empty());
    assert(all_digits(s));
    assert(unsigned_part(s) == s);
}

/// Every range that is accepted with an end after zero starts before it ends
/// and ends within the recording.
pub proof fn law_accepted_range_lies_within(
    start: Option<Seq<char>>,
    end: Option<Seq<char>>,
    max_duration: Option<u64>,
)
    requires
        range_verdict(start, end, max_duration) is Ok,
        given(end),
        strict_time(end->0)->Ok_0 > 0,
    ensures
        start_time(start) is Ok,
        strict_time(end->0) is Ok,
        start_time(start)->Ok_0 < strict_time(end->0)->Ok_0,
        max_duration matches Some(max) ==> strict_time(end->0)->Ok_0 <= max,
{
}

/// Without times there is nothing to object to.
pub proof fn law_no_times_accepted(max_duration: Option<u64>)
    ensures
        range_verdict(None, None, max_duration) is Ok,
{
}

fn has_time_shape(cs: &Vec<char>) -> (r: bool)
    ensures
        r == time_shape(cs@),
{
    cs.len() == 8 && cs[2] == ':' && cs[5] == ':' && digit(cs[0]) && digit(cs[1]) && digit(cs[3])
        && digit(cs[4]) && digit(cs[6]) && digit(cs[7])
}

fn ascii(c: char) -> (r: bool)
    ensures
        r == is_ascii_digit(c),
{
    '0' <= c && c <= '9'
}

/// Whether `t` holds no digits but `0` to `9` where a time has digits.
pub fn is_plain_time(t: &str) -> (r: bool)
    ensures
        r == plain_time(t@),
{
    let cs = chars_of(t);
    !has_time_shape(&cs) || (ascii(cs[0]) && ascii(cs[1]) && ascii(cs[3]) && ascii(cs[4]) && ascii(
        cs[6],
    ) && ascii(cs[7]))
}

fn pair_at(cs: &Vec<char>, i: usize) -> (r: u64)
    requires
        i + 1 < cs@.len(),
        is_ascii_digit(cs@[i as int]),
        is_ascii_digit(cs@[i + 1]),
    ensures
        r == two_at(cs@, i as int),
        r <= 99,
{
    let n: usize = cs.len();
    (cs[i] as u32 - '0' as u32) as u64 * 10 + (cs[i + 1] as u32 - '0' as u32) as u64
}

/// The seconds of a time `HH:MM:SS`.
pub fn parse_time_strict(t: &str) -> (r: Result<u64, String>)
    requires
        plain_time(t@),
    ensures
        match r {
            Ok(v) => strict_time(t@) == Ok::<u64, Seq<char>>(v),
            Err(e) => strict_time(t@) == Err::<u64, Seq<char>>(e@),
        },
{
    let cs = chars_of(t);
    if !has_time_shape(&cs) {
        return Err("Time format must be HH:MM:SS (e.g. 00:05:30)".to_owned());
    }
    let h: u64 = pair_at(&cs, 0);
    let m: u64 = pair_at(&cs, 3);
    let s: u64 = pair_at(&cs, 6);
    if m >= 60 || s >= 60 {
        return Err("Minutes and seconds must be less than 60".to_owned());
    }
    Ok(h * 3600 + m * 60 + s)
}

fn is_given(t: &Option<String>) -> (r: bool)
    ensures
        r == given(opt_text(*t)),
{
    match t {
        Some(s) => {
            let trimmed = trim_text(s.as_str());
            !trimmed.as_str().is_empty()
        },
        None => false,
    }
}

/// Whether the part of a recording from `start` to `end` can be cut out.
pub fn validate_time_range(
    start: Option<String>,
    end: Option<String>,
    max_duration: Option<u64>,
) -> (r: Result<(), String>)
    requires
        plain_range(opt_text(start), opt_text(end)),
    ensures
        match r {
            Ok(_) => range_verdict(opt_text(start), opt_text(end), max_duration) is Ok,
            Err(e) => range_verdict(opt_text(start), opt_text(end), max_duration) == Err::<
                (),
                Seq<char>,
            >(e@),
        },
{
    let start_sec: u64 = match &start {
        Some(s) if is_given(&start) => match parse_time_strict(s.as_str()) {
            Ok(v) => v,
            Err(e) => {
                return Err(e);
            },
        },
        _ => 0,
    };
    let end_sec: u64 = match &end {
        Some(e) if is_given(&end) => match parse_time_strict(e.as_str()) {
            Ok(v) => v,
            Err(e) => {
                return Err(e);
            },
        },
        _ => {
            return Ok(());
        },
    };
    if start_sec == 0 && end_sec == 0 {
        return Ok(());
    }
    if end_sec > 0 && start_sec >= end_sec {
        return Err("Start must be earlier than end".to_owned());
    }
    if let Some(max) = max_duration {
        if end_sec > max {
            return Err("End exceeds the video's duration".to_owned());
        }
        if start_sec > max {
            return Err("Start exceeds the video's duration".to_owned());
        }
    }
    Ok(())
}

/// The verdict on a range, or nothing where a time in it is written in digits
/// other than `0` to `9`.
pub fn check_time_range(
    start: Option<String>,
    end: Option<String>,
    max_duration: Option<u64>,
) -> (r: Option<Result<(), String>>)
    ensures
        match r {
            None => !plain_range(opt_text(start), opt_text(end)),
            Some(v) => plain_range(opt_text(start), opt_text(end)) && match v {
                Ok(_) => range_verdict(opt_text(start), opt_text(end), max_duration) is Ok,
                Err(e) => range_verdict(opt_text(start), opt_text(end), max_duration) == Err::<
                    (),
                    Seq<char>,
                >(e@),
            },
        },
{
    let mut start_ok = true;
    if let Some(s) = &start {
        if is_given(&start) {
            if !is_plain_time(s.as_str()) {
                return None;
            }
            start_ok = parse_time_strict(s.as_str()).is_ok();
        }
    }
    if let Some(e) = &end {
        if start_ok && is_given(&end) && !is_plain_time(e.as_str()) {
            return None;
        }
    }
    Some(validate_time_range(start, end, max_duration))
}

} // verus!
