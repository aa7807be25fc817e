//! The preview picture of a video.
use crate::functions::download::DownloadResult;
use crate::paths::{join_path, joined};
use crate::platform::Platform;
use crate::text::{
    cat, chars_of, is_white, string_of, trim, trim_end, trim_start, trim_text,
};
use vstd::prelude::*;

verus! {

// ---------------------------------------------------------------------------
// A file name for a title
// ---------------------------------------------------------------------------
/// `c` is a control character.
pub open spec fn is_control(c: char) -> bool {
    c <= '\u{1f}' || '\u{7f}' <= c <= '\u{9f}'
}

/// `c` cannot stand in a file name on every system.
pub open spec fn is_unsafe(c: char) -> bool {
    ||| c == '/'
    ||| c == '\\'
    ||| c == ':'
    ||| c == '*'
    ||| c == '?'
    ||| c == '"'
    ||| c == '<'
    ||| c == '>'
    ||| c == '|'
    ||| is_control(c)
}

/// `title` with every character that cannot stand in a file name replaced.
pub open spec fn replaced(title: Seq<char>) -> Seq<char> {
    Seq::new(
        title.len(),
        |i: int|
            if is_unsafe(title[i]) {
                '_'
            } else {
                title[i]
            },
    )
}

/// `s` without the dots and spaces at its end.
pub open spec fn without_dots(s: Seq<char>) -> Seq<char>
    decreases s.len(),
{
    if s.len() > 0 && (s.last() == '.' || s.last() == ' ') {
        without_dots(s.drop_last())
    } else {
        s
    }
}

/// How many bytes `c` takes in UTF-8.
pub open spec fn char_bytes(c: char) -> nat {
    if c <= '\u{7f}' {
        1
    } else if c <= '\u{7ff}' {
        2
    } else if c <= '\u{ffff}' {
        3
    } else {
        4
    }
}

/// How many bytes `s` takes in UTF-8.
pub open spec fn text_bytes(s: Seq<char>) -> nat
    decreases s.len(),
{
    if s.len() == 0 {
        0
    } else {
        text_bytes(s.drop_last()) + char_bytes(s.last())
    }
}

/// The longest beginning of `s` that takes no more than `limit` bytes.
pub open spec fn capped(s: Seq<char>, limit: nat) -> Seq<char>
    decreases s.len(),
{
    if text_bytes(s) <= limit || s.len() == 0 {
        s
    } else {
        capped(s.drop_last(), limit)
    }
}

/// The beginning of `s`, of 200 characters at most.
pub open spec fn beginning(s: Seq<char>) -> Seq<char> {
    if s.len() > 200 {
        s.take(200)
    } else {
        s
    }
}

/// The beginning of `s`, of 200 characters and 250 bytes at most, without dots and
/// spaces at its end.
pub open spec fn shortened(s: Seq<char>) -> Seq<char> {
    without_dots(capped(beginning(s), 250))
}

/// The file name for a title.
pub open spec fn file_title(title: Seq<char>) -> Seq<char> {
    let name = shortened(without_dots(trim(replaced(title))));
    if name.len() == 0 {
        "thumbnail"@
    } else {
        name
    }
}

proof fn lemma_more_bytes(s: Seq<char>, n: int)
    requires
        0 <= n <= s.len(),
    ensures
        text_bytes(s.take(n)) <= text_bytes(s),
        n < s.len() ==> text_bytes(s.take(n)) < text_bytes(s),
    decreases s.len(),
{
    if n < s.len() {
        assert(s.take(n) == s.drop_last().take(n));
        lemma_more_bytes(s.drop_last(), n);
    } else {
        assert(s.take(n) == s);
    }
}

/// If the first `n` characters fit and one more does not, they are the longest
/// beginning that fits.
proof fn lemma_capped(s: Seq<char>, limit: nat, n: int)
    requires
        0 <= n <= s.len(),
        text_bytes(s.take(n)) <= limit,
        n < s.len() ==> text_bytes(s.take(n + 1)) > limit,
    ensures
        capped(s, limit) == s.take(n),
    decreases s.len(),
{
    if n == s.len() {
        assert(s.take(n) == s);
    } else {
        lemma_more_bytes(s, n + 1);
        assert(s.drop_last().take(n) == s.take(n));
        if n + 1 < s.len() {
            assert(s.drop_last().take(n + 1) == s.take(n + 1));
        }
        lemma_capped(s.drop_last(), limit, n);
    }
}

proof fn lemma_capped_is_prefix(s: Seq<char>, limit: nat)
    ensures
        capped(s, limit).len() <= s.len(),
        capped(s, limit) == s.take(capped(s, limit).len() as int),
        text_bytes(capped(s, limit)) <= limit,
    decreases s.len(),
{
    if text_bytes(s) <= limit || s.len() == 0 {
        assert(s.take(s.len() as int) == s);
    } else {
        lemma_capped_is_prefix(s.drop_last(), limit);
        let n = capped(s, limit).len() as int;
        assert(s.drop_last().take(n) == s.take(n));
    }
}

proof fn lemma_without_dots_is_prefix(s: Seq<char>)
    ensures
        without_dots(s).len() <= s.len(),
        without_dots(s) == s.take(without_dots(s).len() as int),
    decreases s.len(),
{
    if s.len() > 0 && (s.last() == '.' || s.last() == ' ') {
        lemma_without_dots_is_prefix(s.drop_last());
        let n = without_dots(s).len() as int;
        assert(s.drop_last().take(n) == s.take(n));
    } else {
        assert(s.take(s.len() as int) == s);
    }
}

/// No character of `s` is one that cannot stand in a file name.
pub open spec fn is_safe(s: Seq<char>) -> bool {
    forall|i: int| 0 <= i < s.len() ==> !is_unsafe(#[trigger] s[i])
}

proof fn lemma_trim_start_is_safe(s: Seq<char>)
    requires
        is_safe(s),
    ensures
        is_safe(trim_start(s)),
    decreases s.len(),
{
    if s.len() > 0 && is_white(s[0]) {
        let rest = s.drop_first();
        assert forall|i: int| 0 <= i < rest.len() implies !is_unsafe(#[trigger] rest[i]) by {
            assert(rest[i] == s[i + 1]);
        }
        lemma_trim_start_is_safe(rest);
    }
}

proof fn lemma_trim_end_is_safe(s: Seq<char>)
    requires
        is_safe(s),
    ensures
        is_safe(trim_end(s)),
    decreases s.len(),
{
    if s.len() > 0 && is_white(s.last()) {
        lemma_trim_end_is_safe(s.drop_last());
    }
}

proof fn lemma_thumbnail()
    ensures
        "thumbnail"@.len() == 9,
        text_bytes("thumbnail"@) <= 250,
        is_safe("thumbnail"@),
{
    reveal_strlit("thumbnail");
    lemma_few_bytes("thumbnail"@);
}

proof fn lemma_few_bytes(s: Seq<char>)
    ensures
        text_bytes(s) <= 4 * s.len(),
    decreases s.len(),
{
    if s.len() > 0 {
        lemma_few_bytes(s.drop_last());
    }
}

proof fn lemma_shortened(s: Seq<char>)
    ensures
        shortened(s).len() <= s.len(),
        shortened(s).len() <= 200,
        shortened(s) == s.take(shortened(s).len() as int),
        text_bytes(shortened(s)) <= 250,
{
    let b = beginning(s);
    let c = capped(b, 250);
    lemma_capped_is_prefix(b, 250);
    lemma_without_dots_is_prefix(c);
    let n = shortened(s).len() as int;
    lemma_more_bytes(c, n);
    assert(s.take(n) == c.take(n));
}

/// A file name for a title is never empty, holds no character that cannot stand in
/// a file name, and takes no more than 200 characters and 250 bytes: with the
/// extension it stays below what file systems allow.
pub proof fn law_file_title_is_safe(title: Seq<char>)
    ensures
        file_title(title).len() > 0,
        is_safe(file_title(title)),
        file_title(title).len() <= 200,
        text_bytes(file_title(title)) <= 250,
{
    let all = replaced(title);
    lemma_trim_start_is_safe(all);
    lemma_trim_end_is_safe(trim_start(all));
    let t = trim(all);
    lemma_without_dots_is_prefix(t);
    let name = shortened(without_dots(t));
    lemma_shortened(without_dots(t));
    lemma_thumbnail();
    assert forall|i: int| 0 <= i < name.len() implies !is_unsafe(#[trigger] name[i]) by {
        assert(name[i] == t[i]);
    }
}

proof fn lemma_no_dots(s: Seq<char>)
    ensures
        without_dots(s).len() > 0 ==> without_dots(s).last() != '.' && without_dots(s).last()
            != ' ',
    decreases s.len(),
{
    if s.len() > 0 && (s.last() == '.' || s.last() == ' ') {
        lemma_no_dots(s.drop_last());
    }
}

/// A file name for a title does not end in a dot or a space.
pub proof fn law_no_dot_at_the_end(title: Seq<char>)
    ensures
        file_title(title).last() != '.',
        file_title(title).last() != ' ',
{
    reveal_strlit("thumbnail");
    lemma_no_dots(capped(beginning(without_dots(trim(replaced(title)))), 250));
}

/// A title that can stand as a file name is kept as it is.
pub proof fn law_ordinary_title_is_kept(title: Seq<char>)
    requires
        title.len() > 0,
        is_safe(title),
        !is_white(title[0]),
        !is_white(title.last()),
        title.last() != '.',
        title.len() <= 200,
        text_bytes(title) <= 250,
    ensures
        file_title(title) == title,
{
    assert(replaced(title) == title);
    assert(title.last() != ' ');
}

fn control(c: char) -> (r: bool)
    ensures
        r == is_control(c),
{
    c <= '\u{1f}' || ('\u{7f}' <= c && c <= '\u{9f}')
}

/// The file name for a title.
pub fn sanitize_filename(title: &str) -> (r: String)
    ensures
        r@ == file_title(title@),
{
    let cs = chars_of(title);
    let mut out: Vec<char> = Vec::new();
    let mut i: usize = 0;
    while i < cs.len()
        invariant
            i <= cs@.len(),
            cs@ == title@,
            out@ == replaced(title@).take(i as int),
        decreases cs@.len() - i,
    {
        let c = cs[i];
        let bad = c == '/' || c == '\\' || c == ':' || c == '*' || c == '?' || c == '"' || c == '<'
            || c == '>' || c == '|' || control(c);
        out.push(
            if bad {
                '_'
            } else {
                c
            },
        );
        assert(out@ == replaced(title@).take(i + 1));
        i = i + 1;
    }
    assert(replaced(title@).take(i as int) == replaced(title@));
    let out_len: usize = out.len();
    let safe = string_of(&out, 0, out_len);
    assert(safe@ == replaced(title@));
    let trimmed = chars_of(trim_text(safe.as_str()).as_str());
    let len: usize = trimmed.len();
    assert(trimmed@.take(len as int) == trimmed@);
    let end: usize = dots_start(&trimmed, len);
    let short: usize = if end > 200 {
        200
    } else {
        end
    };
    let ghost bare = trimmed@.take(end as int);
    assert(beginning(bare) == trimmed@.take(short as int));
    let stop: usize = cap(&trimmed, short);
    assert(trimmed@.take(short as int).take(stop as int) == trimmed@.take(stop as int));
    let last: usize = dots_start(&trimmed, stop);
    assert(trimmed@.take(last as int) == trimmed@.subrange(0, last as int));
    if last == 0 {
        return "thumbnail".to_owned();
    }
    string_of(&trimmed, 0, last)
}

/// Where the dots and spaces at the end of the first `to` characters begin.
fn dots_start(cs: &Vec<char>, to: usize) -> (r: usize)
    requires
        to <= cs@.len(),
    ensures
        r <= to,
        cs@.take(r as int) == without_dots(cs@.take(to as int)),
{
    let mut end: usize = to;
    while end > 0 && (cs[end - 1] == '.' || cs[end - 1] == ' ')
        invariant
            end <= to <= cs@.len(),
            without_dots(cs@.take(end as int)) == without_dots(cs@.take(to as int)),
        decreases end,
    {
        assert(cs@.take(end as int).drop_last() == cs@.take(end - 1));
        assert(cs@.take(end as int).last() == cs@[end - 1]);
        end = end - 1;
    }
    proof {
        if end > 0 {
            assert(cs@.take(end as int).last() == cs@[end - 1]);
        }
    }
    end
}

/// How many of the first `end` characters fit into 250 bytes.
fn cap(cs: &Vec<char>, end: usize) -> (r: usize)
    requires
        end <= cs@.len(),
    ensures
        r <= end,
        cs@.take(end as int).take(r as int) == capped(cs@.take(end as int), 250),
{
    let ghost s = cs@.take(end as int);
    let mut n: usize = 0;
    let mut bytes: usize = 0;
    assert(s.take(0).len() == 0);
    while n < end
        invariant
            n <= end <= cs@.len(),
            s == cs@.take(end as int),
            bytes == text_bytes(s.take(n as int)),
            bytes <= 250,
        decreases end - n,
    {
        let c = cs[n];
        let width: usize = if c <= '\u{7f}' {
            1
        } else if c <= '\u{7ff}' {
            2
        } else if c <= '\u{ffff}' {
            3
        } else {
            4
        };
        assert(s.take(n + 1).drop_last() == s.take(n as int));
        assert(s.take(n + 1).last() == c);
        if bytes + width > 250 {
            proof {
                lemma_capped(s, 250, n as int);
            }
            return n;
        }
        bytes = bytes + width;
        n = n + 1;
    }
    proof {
        lemma_capped(s, 250, n as int);
    }
    n
}

// ---------------------------------------------------------------------------
// Getting the picture
// ---------------------------------------------------------------------------
/// What follows the attempt to get a picture.
pub enum PreviewStep {
    /// Here it is.
    Use(Vec<u8>),
    /// It may be had from another address.
    TryOther { url: String, error: String },
    /// It cannot be had.
    Fail(String),
}

/// What follows the first attempt.
pub fn after_first_attempt(picture: Result<Vec<u8>, String>, other: Option<String>) -> (r: PreviewStep)
    ensures
        match picture {
            Ok(bytes) => r == PreviewStep::Use(bytes),
            Err(error) => match other {
                Some(url) => r == (PreviewStep::TryOther { url, error }),
                None => r == PreviewStep::Fail(error),
            },
        },
{
    match picture {
        Ok(bytes) => PreviewStep::Use(bytes),
        Err(error) => match other {
            Some(url) => PreviewStep::TryOther { url, error },
            None => PreviewStep::Fail(error),
        },
    }
}

/// What comes of the second attempt. If both fail, the first error is reported.
pub fn after_second_attempt(
    picture: Result<Vec<u8>, String>,
    first_error: String,
) -> (r: Result<Vec<u8>, String>)
    ensures
        match picture {
            Ok(bytes) => r == Ok::<Vec<u8>, String>(bytes),
            Err(_) => r == Err::<Vec<u8>, String>(first_error),
        },
{
    match picture {
        Ok(bytes) => Ok(bytes),
        Err(_) => Err(first_error),
    }
}

/// What is reported when the target directory cannot be made.
pub fn directory_failure(error: &str) -> (r: String)
    ensures
        r@ == "Cannot create directory: "@ + error@,
{
    cat("Cannot create directory: ", error)
}

/// Where the picture of a video goes.
pub fn preview_file(out_dir: &str, title: &str, platform: Platform) -> (r: String)
    ensures
        r@ == joined(out_dir@, file_title(title@) + ".jpg"@, platform),
{
    let name = cat(sanitize_filename(title).as_str(), ".jpg");
    join_path(out_dir, name.as_str(), platform)
}

/// What is reported when the picture has been written, or could not be.
pub fn preview_result(file: String, written: Result<u64, String>) -> (r: Result<
    DownloadResult,
    String,
>)
    ensures
        match written {
            Ok(size) => r matches Ok(result) && result.path == file && result.file_size == size,
            Err(e) => r matches Err(m) && m@ == "Cannot write file: "@ + e@,
        },
{
    match written {
        Ok(size) => Ok(DownloadResult { path: file, file_size: size }),
        Err(e) => Err(cat("Cannot write file: ", e.as_str())),
    }
}

} // verus!
