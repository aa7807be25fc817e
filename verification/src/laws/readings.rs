//! What is made of what yt-dlp, YouTube and Twitch say.
use crate::functions::get_info::{
    is_complete, same_info, shown_author, shown_thumbnail, shown_title, told, VideoInfo,
};
use crate::functions::meta::{
    audio_codec_in, audio_codecs_of, either, filled_in, languages_in, live_in, meta_of,
    offers_audio, offers_video, reason_or, track_language, video_codec_in, video_codecs_of, YtMeta,
};
use crate::functions::output::{
    ascii_lowered, asks_for_confirmation, error_reason, first_reading, is_bot_check, is_leftover,
    is_param, last_filled, last_with, log_line, lower_case, output_text, params_len, shown_line,
    without_escapes, without_returns,
};
use crate::functions::playlist::{
    columns, is_entry_of, page_of, row_in, rows_in, same_entry, same_playlist, told_count,
    PlaylistEntry, PlaylistInfo, PlaylistPage, RowView,
};
use crate::functions::twitch::{
    is_settled, or_text, same_twitch_info, twitch_json, TwitchVideoInfo,
};
use crate::json::{field_of, flag_in, items_in, text_in, unsigned_in, whole_in, JsonView};
use crate::laws::selectors::law_filters_select_what_is_shown;
use crate::numbers::u64_value;
use crate::text::{
    contains, ends_with, is_white, lemma_first_of_is, lines, opt_text, split_n, starts_with, texts,
    trim, trim_end, trim_start,
};
use vstd::prelude::*;

verus! {

// ---------------------------------------------------------------------------
// Lines and spaces
// ---------------------------------------------------------------------------
/// A line ends at a line feed, which is not part of it, nor is a carriage return just
/// before it; the rest is read in the same way.
pub proof fn law_lines_end_at_line_feeds(line: Seq<char>, rest: Seq<char>)
    requires
        !line.contains('\n'),
    ensures
        line.len() == 0 || line.last() != '\r' ==> lines(line + seq!['\n'] + rest) == seq![line]
            + lines(rest),
        lines(line + seq!['\r', '\n'] + rest) == seq![line] + lines(rest),
        line.len() > 0 ==> lines(line) == seq![line],
        lines(Seq::empty()) == Seq::<Seq<char>>::empty(),
{
    assert forall|j: int| 0 <= j < line.len() implies line[j] != '\n' by {
        assert(line.contains(line[j]));
    }
    let n = line.len() as int;
    let s = line + seq!['\n'] + rest;
    lemma_first_of_is(s, '\n', n);
    assert(s.take(n) == line);
    assert(s.skip(n + 1) == rest);
    let t = line + seq!['\r', '\n'] + rest;
    lemma_first_of_is(t, '\n', n + 1);
    assert(t.take(n + 1) == line.push('\r'));
    assert(line.push('\r').drop_last() == line);
    assert(t.skip(n + 2) == rest);
    lemma_first_of_is(line, '\n', n);
}

/// White space around a text is taken off it, and nothing else.
pub proof fn law_spaces_are_taken_off(left: Seq<char>, s: Seq<char>, right: Seq<char>)
    requires
        forall|i: int| 0 <= i < left.len() ==> is_white(left[i]),
        forall|i: int| 0 <= i < right.len() ==> is_white(right[i]),
        s.len() > 0 ==> !is_white(s[0]) && !is_white(s.last()),
    ensures
        trim(left + s + right) == s,
{
    crate::text::lemma_trim_around(left, s, right);
    if s.len() > 0 {
        assert(trim_start(s) == s);
        assert(trim_end(s) == s);
    }
}

/// Spaces, tabs and the ends of lines are white; letters, digits and signs are not.
pub proof fn law_what_is_white(c: char)
    ensures
        c == ' ' || c == '\t' || c == '\n' || c == '\r' || c == '\u{b}' || c == '\u{c}' || c
            == '\u{85}' || c == '\u{a0}' || c == '\u{1680}' || '\u{2000}' <= c <= '\u{200a}' || c
            == '\u{2028}' || c == '\u{2029}' || c == '\u{202f}' || c == '\u{205f}' || c
            == '\u{3000}' <==> is_white(c),
{
}

// ---------------------------------------------------------------------------
// What yt-dlp prints
// ---------------------------------------------------------------------------
/// Why yt-dlp failed is told by the last line that holds `ERROR:`; if no line does, by
/// all that it said, unless that is blank.
pub proof fn law_last_error_is_the_reason(stderr: Seq<char>, i: int)
    ensures
        ({
            let ls = lines(stderr);
            &&& 0 <= i < ls.len() && contains(ls[i], "ERROR:"@) && (forall|j: int|
                i < j < ls.len() ==> !contains(ls[j], "ERROR:"@)) ==> error_reason(stderr) == Some(
                trim(ls[i]),
            )
            &&& (forall|j: int| 0 <= j < ls.len() ==> !contains(ls[j], "ERROR:"@)) ==> error_reason(
                stderr,
            ) == if trim(stderr).len() > 0 {
                Some(trim(stderr))
            } else {
                None
            }
        }),
{
    lemma_last_with(lines(stderr), "ERROR:"@, i);
}

proof fn lemma_last_with(ls: Seq<Seq<char>>, p: Seq<char>, i: int)
    ensures
        0 <= i < ls.len() && contains(ls[i], p) && (forall|j: int|
            i < j < ls.len() ==> !contains(ls[j], p)) ==> last_with(ls, p) == Some(ls[i]),
        (forall|j: int| 0 <= j < ls.len() ==> !contains(ls[j], p)) ==> last_with(ls, p) is None,
    decreases ls.len(),
{
    if ls.len() > 0 {
        lemma_last_with(ls.drop_last(), p, i);
        assert(ls.last() == ls[ls.len() - 1]);
        assert(forall|j: int| 0 <= j < ls.len() - 1 ==> ls.drop_last()[j] == ls[j]);
    }
}

/// The path that yt-dlp wrote is its last line that is not blank, without the spaces
/// around it.
pub proof fn law_last_line_is_the_path(ls: Seq<Seq<char>>, i: int)
    ensures
        0 <= i < ls.len() && trim(ls[i]).len() > 0 && (forall|j: int|
            i < j < ls.len() ==> trim(ls[j]).len() == 0) ==> last_filled(ls) == Some(trim(ls[i])),
        (forall|j: int| 0 <= j < ls.len() ==> trim(ls[j]).len() == 0) ==> last_filled(ls) is None,
    decreases ls.len(),
{
    if ls.len() > 0 {
        law_last_line_is_the_path(ls.drop_last(), i);
        assert(ls.last() == ls[ls.len() - 1]);
        assert(forall|j: int| 0 <= j < ls.len() - 1 ==> ls.drop_last()[j] == ls[j]);
    }
}

/// The length is on the first line that is neither blank nor `NA`, without the spaces
/// around it.
pub proof fn law_first_line_is_the_length(ls: Seq<Seq<char>>, i: int)
    ensures
        0 <= i < ls.len() && trim(ls[i]).len() > 0 && trim(ls[i]) != "NA"@ && (forall|j: int|
            0 <= j < i ==> trim(ls[j]).len() == 0 || trim(ls[j]) == "NA"@) ==> first_reading(ls)
            == Some(trim(ls[i])),
        (forall|j: int|
            0 <= j < ls.len() ==> trim(ls[j]).len() == 0 || trim(ls[j]) == "NA"@) ==> first_reading(
            ls,
        ) is None,
    decreases ls.len(),
{
    if ls.len() > 0 {
        law_first_line_is_the_length(ls.drop_first(), i - 1);
        assert(forall|j: int| 0 <= j < ls.len() - 1 ==> ls.drop_first()[j] == ls[j + 1]);
    }
}

/// yt-dlp met the anti-bot check exactly if its message, in small letters, asks to
/// sign in to confirm, or to confirm that one is no bot, with either apostrophe.
pub proof fn law_words_of_the_check(left: Seq<char>, right: Seq<char>, other: Seq<char>)
    ensures
        asks_for_confirmation(left + "sign in to confirm"@ + right),
        asks_for_confirmation(left + "confirm you\u{2019}re not a bot"@ + right),
        asks_for_confirmation(left + "confirm you're not a bot"@ + right),
        asks_for_confirmation(other) ==> contains(other, "sign in to confirm"@) || contains(
            other,
            "confirm you\u{2019}re not a bot"@,
        ) || contains(other, "confirm you're not a bot"@),
{
    lemma_contains(left, "sign in to confirm"@, right);
    lemma_contains(left, "confirm you\u{2019}re not a bot"@, right);
    lemma_contains(left, "confirm you're not a bot"@, right);
}

proof fn lemma_contains(left: Seq<char>, p: Seq<char>, right: Seq<char>)
    ensures
        contains(left + p + right, p),
{
    let s = left + p + right;
    let n = left.len() as int;
    assert(s.subrange(n, n + p.len()) == p);
    assert(crate::text::occurs_at(s, p, n));
}

/// Whether a message tells of the check does not depend on capital letters; of ASCII
/// these are `A` to `Z`.
pub proof fn law_check_is_read_in_small_letters(message: Seq<char>, i: int)
    ensures
        is_bot_check(message) <==> asks_for_confirmation(lower_case(message)),
        ascii_lowered(message).len() == message.len(),
        0 <= i < message.len() && !('A' <= message[i] <= 'Z') ==> ascii_lowered(message)[i]
            == message[i],
        0 <= i < message.len() && 'A' <= message[i] <= 'Z' ==> ascii_lowered(message)[i] as u32
            == message[i] as u32 + 32,
{
}

/// What yt-dlp leaves behind ends in `.part`, `.tmp` or `.frag`, or begins with
/// `temp_`. Nothing else is taken for it.
pub proof fn law_what_is_left_over(name: Seq<char>)
    ensures
        is_leftover(name + ".part"@),
        is_leftover(name + ".tmp"@),
        is_leftover(name + ".frag"@),
        is_leftover("temp_"@ + name),
        !ends_with(name, ".part"@) && !ends_with(name, ".tmp"@) && !ends_with(name, ".frag"@)
            && !starts_with(name, "temp_"@) ==> !is_leftover(name),
{
    let (a, b, c) = (".part"@, ".tmp"@, ".frag"@);
    assert((name + a).skip((name + a).len() - a.len()) == a);
    assert((name + b).skip((name + b).len() - b.len()) == b);
    assert((name + c).skip((name + c).len() - c.len()) == c);
    assert(("temp_"@ + name).take("temp_"@.len() as int) == "temp_"@);
}

/// A control sequence, which is an escape, a bracket, digits and semicolons and a
/// letter, is not shown; what stands before it and behind it is.
pub proof fn law_control_sequences_are_not_shown(
    left: Seq<char>,
    params: Seq<char>,
    letter: char,
    right: Seq<char>,
)
    requires
        !left.contains('\u{1b}'),
        forall|i: int| 0 <= i < params.len() ==> '0' <= params[i] <= '9' || params[i] == ';',
        'a' <= letter <= 'z' || 'A' <= letter <= 'Z',
    ensures
        without_escapes(left + seq!['\u{1b}', '['] + params + seq![letter] + right) == left
            + without_escapes(right),
    decreases left.len(),
{
    let s = left + seq!['\u{1b}', '['] + params + seq![letter] + right;
    if left.len() == 0 {
        let rest = s.skip(2);
        let k = params.len() as int;
        lemma_params(rest, k);
        assert(s[k + 2] == letter);
        assert(s.skip(k + 3) == right);
        assert(left + without_escapes(right) == without_escapes(right));
    } else {
        let tail = left.drop_first();
        assert(s[0] == left[0]);
        assert(left.contains(left[0]));
        assert forall|i: int| 0 <= i < tail.len() implies tail[i] != '\u{1b}' by {
            assert(tail[i] == left[i + 1]);
            assert(left.contains(left[i + 1]));
        }
        assert(s.drop_first() == tail + seq!['\u{1b}', '['] + params + seq![letter] + right);
        law_control_sequences_are_not_shown(tail, params, letter, right);
        assert(seq![left[0]] + (tail + without_escapes(right)) == left + without_escapes(right));
    }
}

proof fn lemma_params(s: Seq<char>, k: int)
    requires
        0 <= k < s.len(),
        forall|i: int| 0 <= i < k ==> '0' <= s[i] <= '9' || s[i] == ';',
        'a' <= s[k] <= 'z' || 'A' <= s[k] <= 'Z',
    ensures
        params_len(s) == k,
    decreases k,
{
    if k > 0 {
        assert(is_param(s[0]));
        assert(forall|i: int| 0 <= i < k ==> s.drop_first()[i] == s[i + 1]);
        lemma_params(s.drop_first(), k - 1);
    }
}

/// A line of the log is shown as its bytes read, without carriage returns and without
/// control sequences.
pub proof fn law_log_lines_are_shown_as_they_read(bytes: Seq<u8>, line: Seq<char>)
    ensures
        log_line(bytes) == shown_line(output_text(bytes)),
        shown_line(line) == without_escapes(without_returns(line)),
        without_returns(line.push('\r')) == without_returns(line),
{
    assert(line.push('\r').drop_last() == line);
}

/// Carriage returns are not shown; a line without them and without escapes is shown as
/// it is.
pub proof fn law_plain_lines_are_shown_as_they_are(line: Seq<char>)
    requires
        !line.contains('\r'),
        !line.contains('\u{1b}'),
    ensures
        shown_line(line) == line,
{
    lemma_no_returns(line);
    assert forall|i: int| 0 <= i < line.len() implies line[i] != '\u{1b}' by {
        assert(line.contains(line[i]));
    }
    crate::functions::output::law_plain_line_stays(line);
}

proof fn lemma_no_returns(line: Seq<char>)
    requires
        !line.contains('\r'),
    ensures
        without_returns(line) == line,
    decreases line.len(),
{
    if line.len() > 0 {
        assert(line.contains(line.last()));
        let init = line.drop_last();
        assert forall|i: int| 0 <= i < init.len() implies init[i] != '\r' by {
            assert(line.contains(line[i]));
        }
        lemma_no_returns(init);
        assert(init.push(line.last()) == line);
    }
}

// ---------------------------------------------------------------------------
// What is in a playlist
// ---------------------------------------------------------------------------
proof fn lemma_column(a: Seq<char>, rest: Seq<char>, n: nat)
    requires
        n > 1,
        !a.contains('\t'),
    ensures
        split_n(a + seq!['\t'] + rest, '\t', n) == seq![a] + split_n(rest, '\t', (n - 1) as nat),
{
    let s = a + seq!['\t'] + rest;
    assert forall|j: int| 0 <= j < a.len() implies s[j] != '\t' by {
        assert(a.contains(a[j]));
    }
    lemma_first_of_is(s, '\t', a.len() as int);
    assert(s.take(a.len() as int) == a);
    assert(s.skip(a.len() as int + 1) == rest);
}

/// The seven columns that yt-dlp is told to print, with tabs between them, are read as
/// title, uploader and number of videos of the playlist, and as name, title, length
/// and address of the video. The last may hold tabs.
pub proof fn law_columns_are_read_back(
    title: Seq<char>,
    uploader: Seq<char>,
    count: Seq<char>,
    id: Seq<char>,
    name: Seq<char>,
    duration: Seq<char>,
    url: Seq<char>,
)
    requires
        !title.contains('\t'),
        !uploader.contains('\t'),
        !count.contains('\t'),
        !id.contains('\t'),
        !name.contains('\t'),
        !duration.contains('\t'),
    ensures
        ({
            let t = seq!['\t'];
            let line = title + t + (uploader + t + (count + t + (id + t + (name + t + (duration + t
                + url)))));
            &&& columns(line).len() == 7
            &&& columns(line)[0] == title
            &&& columns(line)[1] == uploader
            &&& columns(line)[2] == count
            &&& row_in(line) == Some(RowView { id, title: name, duration, url })
        }),
{
    let t = seq!['\t'];
    let e = duration + t + url;
    let d = name + t + e;
    let c = id + t + d;
    let b = count + t + c;
    let a = uploader + t + b;
    reveal_with_fuel(split_n, 2);
    lemma_column(duration, url, 2);
    lemma_column(name, e, 3);
    lemma_column(id, d, 4);
    lemma_column(count, c, 5);
    lemma_column(uploader, b, 6);
    lemma_column(title, a, 7);
    let line = title + t + a;
    assert(columns(line) == seq![title] + (seq![uploader] + (seq![count] + (seq![id] + (seq![name]
        + (seq![duration] + seq![url]))))));
    assert(columns(line).len() == 7 && columns(line)[0] == title && columns(line)[1] == uploader
        && columns(line)[2] == count && columns(line)[3] == id && columns(line)[4] == name
        && columns(line)[5] == duration && columns(line)[6] == url);
}

/// The playlist's own title, uploader and number are those of the first line; each line
/// adds its video behind those before it, unless a column is missing. A number that is
/// none counts as zero.
pub proof fn law_page_is_read_line_by_line(
    text: Seq<char>,
    r: Result<PlaylistPage, String>,
    before: Seq<Seq<char>>,
    line: Seq<char>,
)
    requires
        page_of(text, r),
    ensures
        lines(text).len() == 0 ==> r is Err && r->Err_0@ == "Empty playlist response"@,
        lines(text).len() > 0 && columns(lines(text)[0]).len() < 7 ==> r is Err && r->Err_0@
            == "Unexpected yt-dlp output format"@,
        lines(text).len() > 0 && columns(lines(text)[0]).len() >= 7 ==> r is Ok
            && r->Ok_0.title@ == columns(lines(text)[0])[0] && r->Ok_0.uploader@ == columns(
            lines(text)[0],
        )[1] && r->Ok_0.count == told_count(lines(text)[0]) && r->Ok_0.rows@.len() == rows_in(
            lines(text),
        ).len() && forall|i: int|
            0 <= i < r->Ok_0.rows@.len() ==> (#[trigger] r->Ok_0.rows@[i])@ == rows_in(
                lines(text),
            )[i],
        rows_in(before.push(line)) == match row_in(line) {
            Some(row) => rows_in(before).push(row),
            None => rows_in(before),
        },
        columns(line).len() >= 7 ==> told_count(line) == match u64_value(columns(line)[2]) {
            Some(n) => n,
            None => 0,
        },
{
    assert(before.push(line).drop_last() == before);
    if let Ok(page) = r {
        let views = crate::functions::playlist::row_views(page.rows@);
        assert(forall|i: int| 0 <= i < page.rows@.len() ==> views[i] == page.rows@[i]@);
    }
}

// ---------------------------------------------------------------------------
// Documents
// ---------------------------------------------------------------------------
/// A field is found under its name, the first of that name; a missing one is null.
pub proof fn law_fields_are_found_by_name(
    fields: Seq<(Seq<char>, JsonView)>,
    key: Seq<char>,
    i: int,
)
    ensures
        0 <= i < fields.len() && fields[i].0 == key && (forall|j: int|
            0 <= j < i ==> fields[j].0 != key) ==> field_of(JsonView::Object(fields), key)
            == fields[i].1,
        (forall|j: int| 0 <= j < fields.len() ==> fields[j].0 != key) ==> field_of(
            JsonView::Object(fields),
            key,
        ) == JsonView::Null,
    decreases fields.len(),
{
    if fields.len() > 0 {
        law_fields_are_found_by_name(fields.drop_first(), key, i - 1);
        assert(forall|j: int|
            0 <= j < fields.len() - 1 ==> fields.drop_first()[j] == fields[j + 1]);
    }
}

/// A field holds a text, a truth value, a number or a list exactly if its value is one.
pub proof fn law_fields_hold_what_they_are(j: JsonView, key: Seq<char>)
    ensures
        text_in(j, key) is Some <==> field_of(j, key) is Text,
        field_of(j, key) is Text ==> text_in(j, key) == Some(field_of(j, key)->Text_0),
        flag_in(j, key) is Some <==> field_of(j, key) is Bool,
        field_of(j, key) is Bool ==> flag_in(j, key) == Some(field_of(j, key)->Bool_0),
        field_of(j, key) is Number ==> unsigned_in(j, key) == field_of(j, key)->unsigned
            && whole_in(j, key) == field_of(j, key)->whole,
        !(field_of(j, key) is Number) ==> unsigned_in(j, key) is None && whole_in(j, key) is None,
        field_of(j, key) is Array ==> items_in(j, key) == field_of(j, key)->Array_0,
        !(field_of(j, key) is Array) ==> items_in(j, key).len() == 0,
{
}

/// A codec is shown exactly if some format names it, whatever profile follows the
/// name: `avc1` is h264, `vp9` and `vp09` are vp9, `av01` is av1, `mp4a` is aac and
/// `opus` is opus. They are shown in this order.
pub proof fn law_codecs_on_offer(j: JsonView, i: int, profile: Seq<char>)
    requires
        0 <= i < items_in(j, "formats"@).len(),
    ensures
        ({
            let format = items_in(j, "formats"@)[i];
            let v = text_in(format, "vcodec"@);
            let a = text_in(format, "acodec"@);
            &&& v == Some("avc1"@ + profile) ==> video_codecs_of(j).contains("h264"@)
            &&& v == Some("vp9"@ + profile) || v == Some("vp09"@ + profile) ==> video_codecs_of(
                j,
            ).contains("vp9"@)
            &&& v == Some("av01"@ + profile) ==> video_codecs_of(j).contains("av1"@)
            &&& a == Some("mp4a"@ + profile) ==> audio_codecs_of(j).contains("aac"@)
            &&& a == Some("opus"@ + profile) ==> audio_codecs_of(j).contains("opus"@)
        }),
{
    let formats = items_in(j, "formats"@);
    let format = formats[i];
    law_filters_select_what_is_shown(profile);
    crate::functions::meta::law_codecs_are_shown_in_order(j);
    lemma_not_none("avc1"@, profile);
    lemma_not_none("vp9"@, profile);
    lemma_not_none("vp09"@, profile);
    lemma_not_none("av01"@, profile);
    lemma_not_none("mp4a"@, profile);
    lemma_not_none("opus"@, profile);
    if video_codec_in(format) is Some {
        assert(offers_video(formats, video_codec_in(formats[i])->0));
    }
    if audio_codec_in(format) is Some {
        assert(offers_audio(formats, audio_codec_in(formats[i])->0));
    }
}

proof fn lemma_not_none(word: Seq<char>, profile: Seq<char>)
    requires
        word == "avc1"@ || word == "vp9"@ || word == "vp09"@ || word == "av01"@ || word == "mp4a"@
            || word == "opus"@,
    ensures
        word + profile != "none"@,
{
    reveal_strlit("none");
    reveal_strlit("avc1");
    reveal_strlit("vp9");
    reveal_strlit("vp09");
    reveal_strlit("av01");
    reveal_strlit("mp4a");
    reveal_strlit("opus");
    assert((word + profile)[0] == word[0]);
    assert("none"@[0] == 'n');
}

/// What is shown of the codecs stands in the order h264, vp9, av1, and aac, opus.
pub proof fn law_order_of_codecs(j: JsonView)
    ensures
        ({
            let formats = items_in(j, "formats"@);
            let v = video_codecs_of(j);
            let a = audio_codecs_of(j);
            let none = Seq::<Seq<char>>::empty();
            &&& v == (if offers_video(formats, "h264"@) {
                seq!["h264"@]
            } else {
                none
            }) + (if offers_video(formats, "vp9"@) {
                seq!["vp9"@]
            } else {
                none
            }) + (if offers_video(formats, "av1"@) {
                seq!["av1"@]
            } else {
                none
            })
            &&& a == (if offers_audio(formats, "aac"@) {
                seq!["aac"@]
            } else {
                none
            }) + (if offers_audio(formats, "opus"@) {
                seq!["opus"@]
            } else {
                none
            })
        }),
{
}

/// A language is that of a sound track exactly if the format has no picture, has sound,
/// and names it.
pub proof fn law_languages_are_those_of_sound_tracks(format: JsonView, l: Seq<char>)
    ensures
        track_language(format) == Some(l) <==> text_in(format, "vcodec"@) == Some("none"@)
            && text_in(format, "acodec"@) is Some && text_in(format, "acodec"@) != Some("none"@)
            && text_in(format, "language"@) == Some(l) && l.len() > 0,
{
}

/// The languages are listed in the order in which they first occur.
pub proof fn law_order_of_languages(formats: Seq<JsonView>, format: JsonView)
    ensures
        languages_in(Seq::empty()) == Seq::<Seq<char>>::empty(),
        languages_in(formats.push(format)) == match track_language(format) {
            Some(l) if !languages_in(formats).contains(l) => languages_in(formats).push(l),
            _ => languages_in(formats),
        },
{
    assert(formats.push(format).drop_last() == formats);
}

/// A recording is going on exactly if the field `is_live` is true.
pub proof fn law_what_is_live(j: JsonView)
    ensures
        live_in(j) <==> field_of(j, "is_live"@) == JsonView::Bool(true),
{
}

/// Metadata is a document that is an object. Anything else is reported with yt-dlp's
/// reason, or as no metadata; what is no document at all is reported with the parser's
/// message.
pub proof fn law_metadata_is_an_object(parsed: Result<JsonView, Seq<char>>, stderr: Seq<char>)
    ensures
        parsed is Ok && parsed->Ok_0 is Object ==> meta_of(parsed, stderr) == parsed,
        parsed is Ok && !(parsed->Ok_0 is Object) ==> meta_of(parsed, stderr) == Err::<
            JsonView,
            Seq<char>,
        >(
            match error_reason(stderr) {
                Some(reason) => reason,
                None => "yt-dlp returned no metadata"@,
            },
        ),
        parsed is Err ==> meta_of(parsed, stderr) == Err::<JsonView, Seq<char>>(
            "Invalid yt-dlp output: "@ + parsed->Err_0,
        ),
        forall|otherwise: Seq<char>| #[trigger]
            reason_or(error_reason(stderr), otherwise) == match error_reason(stderr) {
                Some(reason) => reason,
                None => otherwise,
            },
        parsed is Ok ==> twitch_json(parsed) == parsed,
        parsed is Err ==> twitch_json(parsed) == Err::<JsonView, Seq<char>>(
            "JSON error: "@ + parsed->Err_0,
        ),
{
}

/// The first of two texts that is there is taken, and an empty field counts as missing.
pub proof fn law_first_text_is_taken(
    a: Option<Seq<char>>,
    b: Option<Seq<char>>,
    otherwise: Seq<char>,
    j: JsonView,
    key: Seq<char>,
)
    ensures
        a is Some ==> either(a, b) == a && or_text(a, otherwise) == a->0,
        a is None ==> either(a, b) == b && or_text(a, otherwise) == otherwise,
        text_in(j, key) is Some && text_in(j, key)->0.len() > 0 ==> filled_in(j, key) == text_in(
            j,
            key,
        ),
        text_in(j, key) is None || text_in(j, key)->0.len() == 0 ==> filled_in(j, key) is None,
{
}

/// Title, author and picture are those that YouTube tells; failing that those that
/// yt-dlp tells; failing both they are empty.
pub proof fn law_youtube_is_believed_first(answer: Option<JsonView>, meta: YtMeta)
    ensures
        answer is Some && text_in(answer->0, "title"@) is Some ==> shown_title(answer, meta)
            == text_in(answer->0, "title"@)->0,
        answer is Some && text_in(answer->0, "author_name"@) is Some ==> shown_author(answer, meta)
            == text_in(answer->0, "author_name"@)->0,
        answer is Some && text_in(answer->0, "thumbnail_url"@) is Some ==> shown_thumbnail(
            answer,
            meta,
        ) == text_in(answer->0, "thumbnail_url"@)->0,
        answer is None || text_in(answer->0, "title"@) is None ==> shown_title(answer, meta) == (
        match meta.title {
            Some(t) => t@,
            None => Seq::empty(),
        }),
        answer is None || text_in(answer->0, "author_name"@) is None ==> shown_author(answer, meta)
            == (match meta.author {
            Some(t) => t@,
            None => Seq::empty(),
        }),
        answer is None || text_in(answer->0, "thumbnail_url"@) is None ==> shown_thumbnail(
            answer,
            meta,
        ) == (match meta.thumbnail {
            Some(t) => t@,
            None => Seq::empty(),
        }),
        told(answer, "html"@) == match answer {
            Some(j) => text_in(j, "html"@),
            None => None,
        },
{
}

/// What is kept of a video or a playlist is all that is known of it.
pub proof fn law_what_is_kept_is_the_same(
    a: VideoInfo,
    b: VideoInfo,
    c: TwitchVideoInfo,
    d: TwitchVideoInfo,
    e: PlaylistInfo,
    f: PlaylistInfo,
    i: int,
)
    ensures
        same_info(a, b) ==> a.title@ == b.title@ && a.author_name@ == b.author_name@
            && a.thumbnail_url@ == b.thumbnail_url@ && a.html@ == b.html@ && a.duration
            == b.duration && texts(a.audio_tracks@) == texts(b.audio_tracks@) && texts(
            a.video_codecs@,
        ) == texts(b.video_codecs@) && texts(a.audio_codecs@) == texts(b.audio_codecs@),
        same_twitch_info(c, d) ==> c.title@ == d.title@ && c.channel@ == d.channel@ && c.duration
            == d.duration && c.is_live == d.is_live && opt_text(c.thumbnail_url) == opt_text(
            d.thumbnail_url,
        ) && c.view_count == d.view_count && texts(c.audio_tracks@) == texts(d.audio_tracks@)
            && texts(c.video_codecs@) == texts(d.video_codecs@) && texts(c.audio_codecs@) == texts(
            d.audio_codecs@,
        ),
        same_playlist(e, f) ==> e.title@ == f.title@ && e.uploader@ == f.uploader@ && e.count
            == f.count && e.entries@.len() == f.entries@.len(),
        same_playlist(e, f) && 0 <= i < e.entries@.len() ==> e.entries@[i].id@ == f.entries@[i].id@
            && e.entries@[i].title@ == f.entries@[i].title@ && e.entries@[i].duration
            == f.entries@[i].duration && e.entries@[i].url@ == f.entries@[i].url@,
{
    if same_playlist(e, f) && 0 <= i < e.entries@.len() {
        assert(same_entry(e.entries@[i], f.entries@[i]));
    }
}

/// A video of a playlist is the one that its row tells of, with the length that was made
/// out.
pub proof fn law_entries_are_their_rows(
    entry: PlaylistEntry,
    row: RowView,
    duration: Option<u64>,
)
    ensures
        is_entry_of(entry, row, duration) <==> entry.id@ == row.id && entry.title@ == row.title
            && entry.url@ == row.url && entry.duration == duration,
{
}

/// What is known of a video is kept exactly if it is known with its length; of one from
/// Twitch, exactly if it is not going on.
pub proof fn law_what_is_kept(
    video: Result<VideoInfo, String>,
    twitch: Result<TwitchVideoInfo, String>,
)
    ensures
        is_complete(video) <==> video is Ok && video->Ok_0.duration is Some,
        is_settled(twitch) <==> twitch is Ok && !twitch->Ok_0.is_live,
{
}

} // verus!
