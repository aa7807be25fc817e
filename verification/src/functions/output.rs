//! What yt-dlp and ffmpeg print.
use crate::text::{
    begins, chars_of, contains, ends, ends_with, holds, lines, lines_of, same_text, starts_with,
    texts, trim, trim_text,
};
use vstd::prelude::*;
use vstd::utf8::{
    decode_utf8, encode_utf8, encode_utf8_decode_utf8, encode_utf8_valid_utf8, valid_utf8,
};

verus! {

// ---------------------------------------------------------------------------
// Bytes to text
// ---------------------------------------------------------------------------
/// The error of `std::str::from_utf8`, carried as it is.
#[verifier::external_type_specification]
#[verifier::external_body]
pub struct ExUtf8Error(std::str::Utf8Error);

/// `std::str::from_utf8` gives the text that the bytes encode in UTF-8, and
/// fails exactly if they are not valid UTF-8.
pub assume_specification[ std::str::from_utf8 ](v: &[u8]) -> (r: Result<&str, std::str::Utf8Error>)
    ensures
        match r {
            Ok(s) => valid_utf8(v@) && s@ == decode_utf8(v@),
            Err(_) => !valid_utf8(v@),
        },
;

/// The text that bytes stand for in windows-1251, or in the Unicode encoding
/// whose byte order mark they begin with.
pub uninterp spec fn windows_1251_text(bytes: Seq<u8>) -> Seq<char>;

/// The text that bytes stand for in UTF-8, with replacement characters where
/// they are malformed.
pub uninterp spec fn lossy_utf8_text(bytes: Seq<u8>) -> Seq<char>;

/// `bytes` begin with no byte order mark.
pub open spec fn unmarked(bytes: Seq<u8>) -> bool {
    &&& !(bytes.len() >= 3 && bytes[0] == 0xef && bytes[1] == 0xbb && bytes[2] == 0xbf)
    &&& !(bytes.len() >= 2 && bytes[0] == 0xff && bytes[1] == 0xfe)
    &&& !(bytes.len() >= 2 && bytes[0] == 0xfe && bytes[1] == 0xff)
}

/// `c` is what the byte `b` stands for in windows-1251, as far as `b` is ASCII
/// or one of the letters from U+0410 to U+044F.
pub open spec fn windows_1251_char(b: u8, c: char) -> bool {
    &&& b < 0x80 ==> c as u32 == b
    &&& b >= 0xc0 ==> c as u32 == 0x410 + (b - 0xc0)
}

/// The room for a decoded text of so many bytes can be computed and asked for.
pub open spec fn decodable(bytes: Seq<u8>) -> bool {
    bytes.len() <= usize::MAX / 16
}

/// `encoding_rs::WINDOWS_1251.decode`: the text, by the name
/// `windows_1251_text`. Without a byte order mark it has one character for each
/// byte; ASCII bytes and the bytes from 0xC0 on are given, the characters of the
/// other bytes come from the crate's table.
#[verifier::external_body]
fn decode_windows_1251(bytes: &[u8]) -> (r: String)
    requires
        decodable(bytes@),
    ensures
        r@ == windows_1251_text(bytes@),
        unmarked(bytes@) ==> r@.len() == bytes@.len(),
        unmarked(bytes@) ==> forall|i: int|
            0 <= i < r@.len() ==> windows_1251_char(bytes@[i], #[trigger] r@[i]),
{
    encoding_rs::WINDOWS_1251.decode(bytes).0.into_owned()
}

/// `String::from_utf8_lossy`: the text, by the name `lossy_utf8_text`. Valid
/// UTF-8 decodes to what it encodes; of malformed bytes nothing more is stated
/// than that the text depends on them alone.
#[verifier::external_body]
fn decode_utf8_lossy(bytes: &[u8]) -> (r: String)
    ensures
        r@ == lossy_utf8_text(bytes@),
        valid_utf8(bytes@) ==> r@ == decode_utf8(bytes@),
{
    String::from_utf8_lossy(bytes).into_owned()
}

/// The text of a program's output: UTF-8 where it is valid, else windows-1251,
/// which yt-dlp writes on Windows with a Cyrillic locale.
pub open spec fn output_text(bytes: Seq<u8>) -> Seq<char> {
    if valid_utf8(bytes) {
        decode_utf8(bytes)
    } else {
        windows_1251_text(bytes)
    }
}

/// Output in UTF-8 is read as what was written.
pub proof fn law_utf8_is_read_as_written(s: Seq<char>)
    ensures
        output_text(encode_utf8(s)) == s,
{
    encode_utf8_valid_utf8(s);
    encode_utf8_decode_utf8(s);
}

/// The text of a program's output.
pub fn decode_output(bytes: &[u8]) -> (r: String)
    requires
        decodable(bytes@),
    ensures
        r@ == output_text(bytes@),
        !valid_utf8(bytes@) && unmarked(bytes@) ==> r@.len() == bytes@.len(),
        !valid_utf8(bytes@) && unmarked(bytes@) ==> forall|i: int|
            0 <= i < r@.len() ==> windows_1251_char(bytes@[i], #[trigger] r@[i]),
{
    match std::str::from_utf8(bytes) {
        Ok(s) => s.to_owned(),
        Err(_) => decode_windows_1251(bytes),
    }
}

// ---------------------------------------------------------------------------
// Log lines
// ---------------------------------------------------------------------------
/// A digit or semicolon, as they stand in a control sequence.
pub open spec fn is_param(c: char) -> bool {
    '0' <= c <= '9' || c == ';'
}

/// An ASCII letter.
pub open spec fn is_letter(c: char) -> bool {
    'a' <= c <= 'z' || 'A' <= c <= 'Z'
}

/// How many digits and semicolons `s` begins with.
pub open spec fn params_len(s: Seq<char>) -> nat
    decreases s.len(),
{
    if s.len() > 0 && is_param(s[0]) {
        1 + params_len(s.drop_first())
    } else {
        0
    }
}

/// The length of the control sequence that `s` begins with: escape, bracket,
/// digits and semicolons, a letter. Zero if it begins with none.
pub open spec fn escape_len(s: Seq<char>) -> nat {
    if s.len() >= 2 && s[0] == '\u{1b}' && s[1] == '[' {
        let k = params_len(s.skip(2));
        if k + 2 < s.len() && is_letter(s[k as int + 2]) {
            k + 3
        } else {
            0
        }
    } else {
        0
    }
}

/// `s` without its control sequences.
pub open spec fn without_escapes(s: Seq<char>) -> Seq<char>
    decreases s.len(),
{
    if s.len() == 0 {
        s
    } else if 0 < escape_len(s) <= s.len() {
        without_escapes(s.skip(escape_len(s) as int))
    } else {
        seq![s[0]] + without_escapes(s.drop_first())
    }
}

/// `s` without its carriage returns.
pub open spec fn without_returns(s: Seq<char>) -> Seq<char>
    decreases s.len(),
{
    if s.len() == 0 {
        s
    } else if s.last() == '\r' {
        without_returns(s.drop_last())
    } else {
        without_returns(s.drop_last()).push(s.last())
    }
}

/// A decoded line of the log as it is shown.
pub open spec fn shown_line(line: Seq<char>) -> Seq<char> {
    without_escapes(without_returns(line))
}

/// A line of the log as it is shown.
pub open spec fn log_line(bytes: Seq<u8>) -> Seq<char> {
    shown_line(output_text(bytes))
}

/// A line without an escape character stays as it is.
pub proof fn law_plain_line_stays(s: Seq<char>)
    requires
        forall|i: int| 0 <= i < s.len() ==> s[i] != '\u{1b}',
    ensures
        without_escapes(s) == s,
    decreases s.len(),
{
    if s.len() > 0 {
        assert(s.drop_first().len() == s.len() - 1);
        assert forall|i: int| 0 <= i < s.drop_first().len() implies s.drop_first()[i]
            != '\u{1b}' by {
            assert(s.drop_first()[i] == s[i + 1]);
        }
        law_plain_line_stays(s.drop_first());
        assert(seq![s[0]] + s.drop_first() == s);
    }
}

proof fn lemma_without_returns(s: Seq<char>)
    ensures
        forall|i: int| 0 <= i < without_returns(s).len() ==> without_returns(s)[i] != '\r',
    decreases s.len(),
{
    if s.len() > 0 {
        let shorter = without_returns(s.drop_last());
        lemma_without_returns(s.drop_last());
        assert forall|i: int| 0 <= i < without_returns(s).len() implies without_returns(s)[i]
            != '\r' by {
            if i < shorter.len() {
                assert(without_returns(s)[i] == shorter[i]);
            }
        }
    }
}

proof fn lemma_without_escapes_adds_nothing(s: Seq<char>, c: char)
    requires
        forall|i: int| 0 <= i < s.len() ==> s[i] != c,
    ensures
        forall|i: int| 0 <= i < without_escapes(s).len() ==> without_escapes(s)[i] != c,
    decreases s.len(),
{
    if s.len() > 0 {
        let n: int = if 0 < escape_len(s) <= s.len() {
            escape_len(s) as int
        } else {
            1
        };
        let rest = s.skip(n);
        assert(s.drop_first() == s.skip(1));
        assert forall|i: int| 0 <= i < rest.len() implies rest[i] != c by {
            assert(rest[i] == s[n + i]);
        }
        lemma_without_escapes_adds_nothing(rest, c);
        let w = without_escapes(s);
        assert forall|i: int| 0 <= i < w.len() implies w[i] != c by {
            if 0 < escape_len(s) <= s.len() {
                assert(w == without_escapes(rest));
            } else {
                assert(w == seq![s[0]] + without_escapes(rest));
                if i > 0 {
                    assert(w[i] == without_escapes(rest)[i - 1]);
                } else {
                    assert(w[i] == s[0]);
                }
            }
        }
    }
}

/// No carriage return is shown in the log.
pub proof fn law_no_returns_shown(bytes: Seq<u8>)
    ensures
        forall|i: int| 0 <= i < log_line(bytes).len() ==> log_line(bytes)[i] != '\r',
{
    lemma_without_returns(output_text(bytes));
    lemma_without_escapes_adds_nothing(without_returns(output_text(bytes)), '\r');
}

proof fn lemma_params_len(s: Seq<char>, k: int)
    requires
        0 <= k <= s.len(),
        forall|j: int| 0 <= j < k ==> is_param(s[j]),
        k < s.len() ==> !is_param(s[k]),
    ensures
        params_len(s) == k,
    decreases k,
{
    if k > 0 {
        assert(is_param(s[0]));
        assert forall|j: int| 0 <= j < k - 1 implies is_param(s.drop_first()[j]) by {
            assert(s.drop_first()[j] == s[j + 1]);
        }
        lemma_params_len(s.drop_first(), k - 1);
    }
}

/// The length of the control sequence at `i`, or zero.
fn escape_at(cs: &Vec<char>, i: usize) -> (r: usize)
    requires
        i < cs@.len(),
    ensures
        r == escape_len(cs@.skip(i as int)),
        i + r <= cs@.len(),
{
    let n: usize = cs.len();
    let ghost s = cs@.skip(i as int);
    if n - i < 2 || cs[i] != '\u{1b}' || cs[i + 1] != '[' {
        return 0;
    }
    let mut j: usize = i + 2;
    while j < n && (('0' <= cs[j] && cs[j] <= '9') || cs[j] == ';')
        invariant
            i + 2 <= j <= n == cs@.len(),
            s == cs@.skip(i as int),
            forall|k: int| 0 <= k < j - i - 2 ==> is_param(#[trigger] s.skip(2)[k]),
        decreases n - j,
    {
        assert(s.skip(2)[j - i - 2] == cs@[j as int]);
        j = j + 1;
    }
    proof {
        if j < n {
            assert(s.skip(2)[j - i - 2] == cs@[j as int]);
        }
        lemma_params_len(s.skip(2), j - i - 2);
    }
    if j < n && (('a' <= cs[j] && cs[j] <= 'z') || ('A' <= cs[j] && cs[j] <= 'Z')) {
        j + 1 - i
    } else {
        0
    }
}

/// `s` without its control sequences.
pub fn strip_ansi(s: &str) -> (r: String)
    ensures
        r@ == without_escapes(s@),
{
    let cs = chars_of(s);
    let mut out = String::new();
    let mut i: usize = 0;
    assert(cs@.skip(0) == cs@);
    assert(Seq::<char>::empty() + without_escapes(cs@) == without_escapes(cs@));
    while i < cs.len()
        invariant
            i <= cs@.len(),
            cs@ == s@,
            without_escapes(s@) == out@ + without_escapes(cs@.skip(i as int)),
        decreases cs@.len() - i,
    {
        let ghost rest = cs@.skip(i as int);
        let n: usize = escape_at(&cs, i);
        if n > 0 {
            assert(rest.skip(n as int) == cs@.skip(i + n));
            i = i + n;
        } else {
            let ghost before = out@;
            out.push(cs[i]);
            assert(rest.drop_first() == cs@.skip(i + 1));
            assert(before + (seq![rest[0]] + without_escapes(rest.drop_first())) == out@
                + without_escapes(rest.drop_first()));
            i = i + 1;
        }
    }
    assert(cs@.skip(i as int) == Seq::<char>::empty());
    assert(out@ + Seq::<char>::empty() == out@);
    out
}

/// A decoded line of the log as it is shown.
pub fn clean_line(line: &str) -> (r: String)
    ensures
        r@ == shown_line(line@),
{
    let cs = chars_of(line);
    let mut kept = String::new();
    let mut i: usize = 0;
    while i < cs.len()
        invariant
            i <= cs@.len(),
            kept@ == without_returns(cs@.take(i as int)),
        decreases cs@.len() - i,
    {
        assert(cs@.take(i + 1).drop_last() == cs@.take(i as int));
        if cs[i] != '\r' {
            kept.push(cs[i]);
        }
        i = i + 1;
    }
    assert(cs@.take(i as int) == cs@);
    strip_ansi(kept.as_str())
}

/// A line of the log as it is shown.
pub fn clean_log_line(bytes: &[u8]) -> (r: String)
    requires
        decodable(bytes@),
    ensures
        r@ == log_line(bytes@),
{
    clean_line(decode_output(bytes).as_str())
}

// ---------------------------------------------------------------------------
// Reading the output
// ---------------------------------------------------------------------------
/// The last of the lines in which `p` stands.
pub open spec fn last_with(ls: Seq<Seq<char>>, p: Seq<char>) -> Option<Seq<char>>
    decreases ls.len(),
{
    if ls.len() == 0 {
        None
    } else if contains(ls.last(), p) {
        Some(ls.last())
    } else {
        last_with(ls.drop_last(), p)
    }
}

/// Why yt-dlp failed: its last `ERROR:` line, or else all it said.
pub open spec fn error_reason(stderr: Seq<char>) -> Option<Seq<char>> {
    match last_with(lines(stderr), "ERROR:"@) {
        Some(l) => Some(trim(l)),
        None => if trim(stderr).len() > 0 {
            Some(trim(stderr))
        } else {
            None
        },
    }
}

/// Why yt-dlp failed.
pub fn extract_error_reason(stderr: &str) -> (r: Option<String>)
    ensures
        match r {
            Some(m) => error_reason(stderr@) == Some(m@),
            None => error_reason(stderr@) is None,
        },
{
    let ls = lines_of(stderr);
    let mut i: usize = ls.len();
    assert(texts(ls@).take(i as int) == texts(ls@));
    while i > 0
        invariant
            i <= ls@.len(),
            texts(ls@) == lines(stderr@),
            last_with(texts(ls@), "ERROR:"@) == last_with(texts(ls@).take(i as int), "ERROR:"@),
        decreases i,
    {
        let ghost seen = texts(ls@).take(i as int);
        assert(seen.last() == ls@[i - 1]@);
        assert(seen.drop_last() == texts(ls@).take(i - 1));
        if holds(ls[i - 1].as_str(), "ERROR:") {
            return Some(trim_text(ls[i - 1].as_str()));
        }
        i = i - 1;
    }
    let trimmed = trim_text(stderr);
    if trimmed.as_str().is_empty() {
        None
    } else {
        Some(trimmed)
    }
}

/// The last of the lines that holds more than white space, trimmed.
pub open spec fn last_filled(ls: Seq<Seq<char>>) -> Option<Seq<char>>
    decreases ls.len(),
{
    if ls.len() == 0 {
        None
    } else if trim(ls.last()).len() > 0 {
        Some(trim(ls.last()))
    } else {
        last_filled(ls.drop_last())
    }
}

/// The path in what yt-dlp wrote: the last line that holds something.
pub fn path_in(content: &str) -> (r: Option<String>)
    ensures
        match r {
            Some(p) => last_filled(lines(content@)) == Some(p@),
            None => last_filled(lines(content@)) is None,
        },
{
    let ls = lines_of(content);
    let mut i: usize = ls.len();
    assert(texts(ls@).take(i as int) == texts(ls@));
    while i > 0
        invariant
            i <= ls@.len(),
            texts(ls@) == lines(content@),
            last_filled(texts(ls@)) == last_filled(texts(ls@).take(i as int)),
        decreases i,
    {
        let ghost seen = texts(ls@).take(i as int);
        assert(seen.last() == ls@[i - 1]@);
        assert(seen.drop_last() == texts(ls@).take(i - 1));
        let trimmed = trim_text(ls[i - 1].as_str());
        if !trimmed.as_str().is_empty() {
            return Some(trimmed);
        }
        i = i - 1;
    }
    None
}

/// The path that yt-dlp wrote to a file.
pub fn printed_path(bytes: &[u8]) -> (r: Option<String>)
    requires
        decodable(bytes@),
    ensures
        match r {
            Some(p) => last_filled(lines(output_text(bytes@))) == Some(p@),
            None => last_filled(lines(output_text(bytes@))) is None,
        },
{
    path_in(decode_output(bytes).as_str())
}

/// The first of the lines, trimmed, that holds something but `NA`.
pub open spec fn first_reading(ls: Seq<Seq<char>>) -> Option<Seq<char>>
    decreases ls.len(),
{
    if ls.len() == 0 {
        None
    } else if trim(ls[0]).len() > 0 && trim(ls[0]) != "NA"@ {
        Some(trim(ls[0]))
    } else {
        first_reading(ls.drop_first())
    }
}

/// The line in which yt-dlp printed a duration, if it printed one.
pub fn duration_line(stdout: &[u8]) -> (r: Option<String>)
    ensures
        match r {
            Some(l) => first_reading(lines(lossy_utf8_text(stdout@))) == Some(l@),
            None => first_reading(lines(lossy_utf8_text(stdout@))) is None,
        },
{
    let content = decode_utf8_lossy(stdout);
    first_duration_line(content.as_str())
}

/// The first line of `content` that holds something but `NA`, trimmed.
pub fn first_duration_line(content: &str) -> (r: Option<String>)
    ensures
        match r {
            Some(l) => first_reading(lines(content@)) == Some(l@),
            None => first_reading(lines(content@)) is None,
        },
{
    let ls = lines_of(content);
    let mut i: usize = 0;
    assert(texts(ls@).skip(0) == texts(ls@));
    while i < ls.len()
        invariant
            i <= ls@.len(),
            texts(ls@) == lines(content@),
            first_reading(texts(ls@)) == first_reading(texts(ls@).skip(i as int)),
        decreases ls@.len() - i,
    {
        let ghost rest = texts(ls@).skip(i as int);
        assert(rest[0] == ls@[i as int]@);
        assert(rest.drop_first() == texts(ls@).skip(i + 1));
        let trimmed = trim_text(ls[i].as_str());
        if !trimmed.as_str().is_empty() && !same_text(trimmed.as_str(), "NA") {
            return Some(trimmed);
        }
        i = i + 1;
    }
    None
}

// ---------------------------------------------------------------------------
// The anti-bot check
// ---------------------------------------------------------------------------
/// `s` in lower case.
pub uninterp spec fn lower_case(s: Seq<char>) -> Seq<char>;

/// The text is in ASCII.
pub open spec fn is_ascii_text(s: Seq<char>) -> bool {
    forall|i: int| 0 <= i < s.len() ==> (#[trigger] s[i]) <= '\u{7f}'
}

/// A text in ASCII with its capital letters made small.
pub open spec fn ascii_lowered(s: Seq<char>) -> Seq<char> {
    Seq::new(
        s.len(),
        |i: int|
            if 'A' <= s[i] <= 'Z' {
                ((s[i] as u32 + 32) as u32) as char
            } else {
                s[i]
            },
    )
}

/// `str::to_lowercase` gives the text in lower case, by the name `lower_case`:
/// the Unicode tables map the characters, and the text alone decides. Of a text in
/// ASCII it makes the capital letters small and leaves the rest.
pub assume_specification[ str::to_lowercase ](s: &str) -> (r: String)
    ensures
        r@ == lower_case(s@),
        is_ascii_text(s@) ==> r@ == ascii_lowered(s@),
;

/// A lower-case message asks to confirm that the user is no bot.
pub open spec fn asks_for_confirmation(lowered: Seq<char>) -> bool {
    ||| contains(lowered, "sign in to confirm"@)
    ||| contains(lowered, "confirm you\u{2019}re not a bot"@)
    ||| contains(lowered, "confirm you're not a bot"@)
}

/// A message asks to confirm that the user is no bot.
pub open spec fn is_bot_check(stderr: Seq<char>) -> bool {
    asks_for_confirmation(lower_case(stderr))
}

/// Whether a lower-case message asks to confirm that the user is no bot.
pub fn mentions_confirmation(lowered: &str) -> (r: bool)
    ensures
        r == asks_for_confirmation(lowered@),
{
    holds(lowered, "sign in to confirm") || holds(lowered, "confirm you\u{2019}re not a bot")
        || holds(lowered, "confirm you're not a bot")
}

/// Whether yt-dlp was asked to confirm that it is no bot.
pub fn looks_like_bot_check(stderr: &str) -> (r: bool)
    ensures
        r == is_bot_check(stderr@),
        is_ascii_text(stderr@) ==> r == asks_for_confirmation(ascii_lowered(stderr@)),
{
    let lowered = stderr.to_lowercase();
    mentions_confirmation(lowered.as_str())
}

// ---------------------------------------------------------------------------
// Leftovers
// ---------------------------------------------------------------------------
/// A file of this name is a leftover of a download.
pub open spec fn is_leftover(name: Seq<char>) -> bool {
    ||| ends_with(name, ".part"@)
    ||| ends_with(name, ".tmp"@)
    ||| ends_with(name, ".frag"@)
    ||| starts_with(name, "temp_"@)
}

/// Whether a file of this name is a leftover of a download.
pub fn should_remove(name: &str) -> (r: bool)
    ensures
        r == is_leftover(name@),
{
    ends(name, ".part") || ends(name, ".tmp") || ends(name, ".frag") || begins(name, "temp_")
}

} // verus!
