//! What yt-dlp tells about a video, and how it is asked.
use crate::functions::formats::{
    canon_acodec, canon_acodec_of, canon_vcodec, canon_vcodec_of, filled, non_empty,
};
use crate::functions::output::{
    decodable, decode_output, error_reason, extract_error_reason, is_bot_check,
    looks_like_bot_check, output_text,
};
use crate::functions::ytdlp::{cookie_args, cookie_flags, YT_MULTI_AUDIO_CLIENT};
use crate::json::{
    flag_in, items_in, json_document, parse_json, text_in, whole_in, Json, JsonView,
};
use crate::text::{cat, extend_texts, opt_text, push_text, same_text, texts};
use vstd::prelude::*;

verus! {

// ---------------------------------------------------------------------------
// Codecs and languages
// ---------------------------------------------------------------------------
/// The short name of a format's video codec, if it has a known one.
pub open spec fn video_codec_in(format: JsonView) -> Option<Seq<char>> {
    match text_in(format, "vcodec"@) {
        Some(v) => if v == "none"@ {
            None
        } else {
            canon_vcodec_of(v)
        },
        None => None,
    }
}

/// The short name of a format's audio codec, if it has a known one.
pub open spec fn audio_codec_in(format: JsonView) -> Option<Seq<char>> {
    match text_in(format, "acodec"@) {
        Some(a) => if a == "none"@ {
            None
        } else {
            canon_acodec_of(a)
        },
        None => None,
    }
}

/// Some format has the video codec `codec`.
pub open spec fn offers_video(formats: Seq<JsonView>, codec: Seq<char>) -> bool {
    exists|i: int|
        0 <= i < formats.len() && #[trigger] video_codec_in(formats[i]) == Some(codec)
}

/// Some format has the audio codec `codec`.
pub open spec fn offers_audio(formats: Seq<JsonView>, codec: Seq<char>) -> bool {
    exists|i: int|
        0 <= i < formats.len() && #[trigger] audio_codec_in(formats[i]) == Some(codec)
}

/// `codec` alone, or nothing.
pub open spec fn shown_if(offered: bool, codec: Seq<char>) -> Seq<Seq<char>> {
    if offered {
        seq![codec]
    } else {
        Seq::empty()
    }
}

/// The video codecs on offer, in the order of display.
pub open spec fn video_codecs_of(j: JsonView) -> Seq<Seq<char>> {
    let formats = items_in(j, "formats"@);
    shown_if(offers_video(formats, "h264"@), "h264"@) + shown_if(
        offers_video(formats, "vp9"@),
        "vp9"@,
    ) + shown_if(offers_video(formats, "av1"@), "av1"@)
}

/// The audio codecs on offer, in the order of display.
pub open spec fn audio_codecs_of(j: JsonView) -> Seq<Seq<char>> {
    let formats = items_in(j, "formats"@);
    shown_if(offers_audio(formats, "aac"@), "aac"@) + shown_if(
        offers_audio(formats, "opus"@),
        "opus"@,
    )
}

/// The language of a format that is a sound track alone, if it is set.
pub open spec fn track_language(format: JsonView) -> Option<Seq<char>> {
    if text_in(format, "vcodec"@) == Some("none"@) && text_in(format, "acodec"@) is Some
        && text_in(format, "acodec"@) != Some("none"@) {
        match text_in(format, "language"@) {
            Some(l) => if l.len() == 0 {
                None
            } else {
                Some(l)
            },
            None => None,
        }
    } else {
        None
    }
}

/// The languages of the sound tracks, each once, as they first occur.
pub open spec fn languages_in(formats: Seq<JsonView>) -> Seq<Seq<char>>
    decreases formats.len(),
{
    if formats.len() == 0 {
        Seq::empty()
    } else {
        let before = languages_in(formats.drop_last());
        match track_language(formats.last()) {
            Some(l) => if before.contains(l) {
                before
            } else {
                before.push(l)
            },
            None => before,
        }
    }
}

/// No language is listed twice, and a language is listed exactly if a sound
/// track has it.
pub proof fn law_languages_are_listed_once(formats: Seq<JsonView>)
    ensures
        forall|i: int, j: int|
            0 <= i < j < languages_in(formats).len() ==> languages_in(formats)[i] != languages_in(
                formats,
            )[j],
        forall|l: Seq<char>|
            languages_in(formats).contains(l) <==> exists|i: int|
                0 <= i < formats.len() && #[trigger] track_language(formats[i]) == Some(l),
    decreases formats.len(),
{
    if formats.len() > 0 {
        let init = formats.drop_last();
        let before = languages_in(init);
        let all = languages_in(formats);
        law_languages_are_listed_once(init);
        assert forall|l: Seq<char>| all.contains(l) implies exists|i: int|
            0 <= i < formats.len() && #[trigger] track_language(formats[i]) == Some(l) by {
            if before.contains(l) {
                let i = choose|i: int|
                    0 <= i < init.len() && #[trigger] track_language(init[i]) == Some(l);
                assert(track_language(formats[i]) == Some(l));
            } else {
                assert(track_language(formats[formats.len() - 1]) == Some(l));
            }
        }
        assert forall|l: Seq<char>|
            (exists|i: int|
                0 <= i < formats.len() && #[trigger] track_language(formats[i]) == Some(
                    l,
                )) implies all.contains(l) by {
            let i = choose|i: int|
                0 <= i < formats.len() && #[trigger] track_language(formats[i]) == Some(l);
            if i < init.len() {
                assert(track_language(init[i]) == Some(l));
                assert(before.contains(l));
                let k = choose|k: int| 0 <= k < before.len() && before[k] == l;
                assert(all[k] == l);
            } else if !before.contains(l) {
                assert(all[before.len() as int] == l);
            }
        }
    }
}

/// A codec is shown exactly if a format has it, each once and always in the same
/// order.
pub proof fn law_codecs_are_shown_in_order(j: JsonView)
    ensures
        ({
            let formats = items_in(j, "formats"@);
            let shown = video_codecs_of(j);
            &&& shown.contains("h264"@) <==> offers_video(formats, "h264"@)
            &&& shown.contains("vp9"@) <==> offers_video(formats, "vp9"@)
            &&& shown.contains("av1"@) <==> offers_video(formats, "av1"@)
            &&& shown.no_duplicates()
            &&& audio_codecs_of(j).contains("aac"@) <==> offers_audio(formats, "aac"@)
            &&& audio_codecs_of(j).contains("opus"@) <==> offers_audio(formats, "opus"@)
            &&& audio_codecs_of(j).no_duplicates()
        }),
{
    reveal_strlit("h264");
    reveal_strlit("vp9");
    reveal_strlit("av1");
    reveal_strlit("aac");
    reveal_strlit("opus");
    let formats = items_in(j, "formats"@);
    let a = shown_if(offers_video(formats, "h264"@), "h264"@);
    let b = shown_if(offers_video(formats, "vp9"@), "vp9"@);
    let c = shown_if(offers_video(formats, "av1"@), "av1"@);
    assert("h264"@.len() == 4 && "vp9"@[0] == 'v' && "av1"@[0] == 'a');
    let v = a + b + c;
    if offers_video(formats, "h264"@) {
        assert(v[0] == "h264"@);
    }
    if offers_video(formats, "vp9"@) {
        assert(v[a.len() as int] == "vp9"@);
    }
    if offers_video(formats, "av1"@) {
        assert(v[(a.len() + b.len()) as int] == "av1"@);
    }
    let d = shown_if(offers_audio(formats, "aac"@), "aac"@);
    let e = shown_if(offers_audio(formats, "opus"@), "opus"@);
    if offers_audio(formats, "aac"@) {
        assert((d + e)[0] == "aac"@);
    }
    if offers_audio(formats, "opus"@) {
        assert((d + e)[d.len() as int] == "opus"@);
    }
    assert("aac"@.len() != "opus"@.len());
}

/// The video codecs on offer, in the order of display.
pub fn parse_video_codecs(json: &Json) -> (r: Vec<String>)
    ensures
        texts(r@) == video_codecs_of(json@),
{
    let mut h264 = false;
    let mut vp9 = false;
    let mut av1 = false;
    let ghost formats = items_in(json@, "formats"@);
    if let Some(items) = json.items_field("formats") {
        let mut i: usize = 0;
        while i < items.len()
            invariant
                i <= items@.len(),
                formats.len() == items@.len(),
                forall|k: int| 0 <= k < formats.len() ==> formats[k] == items@[k]@,
                h264 == offers_video(formats.take(i as int), "h264"@),
                vp9 == offers_video(formats.take(i as int), "vp9"@),
                av1 == offers_video(formats.take(i as int), "av1"@),
            decreases items@.len() - i,
        {
            let ghost done = formats.take(i as int);
            let ghost next = formats.take(i + 1);
            let codec = match items[i].text_field("vcodec") {
                Some(v) => if same_text(v, "none") {
                    None
                } else {
                    canon_vcodec(v)
                },
                None => None,
            };
            proof {
                assert(next.drop_last() == done);
                assert(next.last() == items@[i as int]@);
                assert forall|c: Seq<char>| offers_video(next, c) == (offers_video(done, c)
                    || video_codec_in(items@[i as int]@) == Some(c)) by {
                    lemma_one_more_video(done, next, c);
                }
            }
            if let Some(c) = codec {
                h264 = h264 || same_text(c, "h264");
                vp9 = vp9 || same_text(c, "vp9");
                av1 = av1 || same_text(c, "av1");
            }
            i = i + 1;
        }
        assert(formats.take(formats.len() as int) == formats);
    }
    let mut out: Vec<String> = Vec::new();
    assert(texts(out@) == Seq::<Seq<char>>::empty());
    if h264 {
        push_text(&mut out, "h264");
    }
    if vp9 {
        push_text(&mut out, "vp9");
    }
    if av1 {
        push_text(&mut out, "av1");
    }
    out
}

proof fn lemma_one_more_video(done: Seq<JsonView>, next: Seq<JsonView>, c: Seq<char>)
    requires
        next.len() == done.len() + 1,
        next.drop_last() == done,
    ensures
        offers_video(next, c) == (offers_video(done, c) || video_codec_in(next.last()) == Some(c)),
{
    if offers_video(done, c) {
        let i = choose|i: int|
            0 <= i < done.len() && #[trigger] video_codec_in(done[i]) == Some(c);
        assert(video_codec_in(next[i]) == Some(c));
    }
    if video_codec_in(next.last()) == Some(c) {
        assert(video_codec_in(next[done.len() as int]) == Some(c));
    }
    if offers_video(next, c) {
        let i = choose|i: int|
            0 <= i < next.len() && #[trigger] video_codec_in(next[i]) == Some(c);
        if i < done.len() {
            assert(video_codec_in(done[i]) == Some(c));
        }
    }
}

proof fn lemma_one_more_audio(done: Seq<JsonView>, next: Seq<JsonView>, c: Seq<char>)
    requires
        next.len() == done.len() + 1,
        next.drop_last() == done,
    ensures
        offers_audio(next, c) == (offers_audio(done, c) || audio_codec_in(next.last()) == Some(c)),
{
    if offers_audio(done, c) {
        let i = choose|i: int|
            0 <= i < done.len() && #[trigger] audio_codec_in(done[i]) == Some(c);
        assert(audio_codec_in(next[i]) == Some(c));
    }
    if audio_codec_in(next.last()) == Some(c) {
        assert(audio_codec_in(next[done.len() as int]) == Some(c));
    }
    if offers_audio(next, c) {
        let i = choose|i: int|
            0 <= i < next.len() && #[trigger] audio_codec_in(next[i]) == Some(c);
        if i < done.len() {
            assert(audio_codec_in(done[i]) == Some(c));
        }
    }
}

/// The audio codecs on offer, in the order of display.
pub fn parse_audio_codecs(json: &Json) -> (r: Vec<String>)
    ensures
        texts(r@) == audio_codecs_of(json@),
{
    let mut aac = false;
    let mut opus = false;
    let ghost formats = items_in(json@, "formats"@);
    if let Some(items) = json.items_field("formats") {
        let mut i: usize = 0;
        while i < items.len()
            invariant
                i <= items@.len(),
                formats.len() == items@.len(),
                forall|k: int| 0 <= k < formats.len() ==> formats[k] == items@[k]@,
                aac == offers_audio(formats.take(i as int), "aac"@),
                opus == offers_audio(formats.take(i as int), "opus"@),
            decreases items@.len() - i,
        {
            let ghost done = formats.take(i as int);
            let ghost next = formats.take(i + 1);
            let codec = match items[i].text_field("acodec") {
                Some(a) => if same_text(a, "none") {
                    None
                } else {
                    canon_acodec(a)
                },
                None => None,
            };
            proof {
                assert(next.drop_last() == done);
                assert(next.last() == items@[i as int]@);
                assert forall|c: Seq<char>| offers_audio(next, c) == (offers_audio(done, c)
                    || audio_codec_in(items@[i as int]@) == Some(c)) by {
                    lemma_one_more_audio(done, next, c);
                }
            }
            if let Some(c) = codec {
                aac = aac || same_text(c, "aac");
                opus = opus || same_text(c, "opus");
            }
            i = i + 1;
        }
        assert(formats.take(formats.len() as int) == formats);
    }
    let mut out: Vec<String> = Vec::new();
    assert(texts(out@) == Seq::<Seq<char>>::empty());
    if aac {
        push_text(&mut out, "aac");
    }
    if opus {
        push_text(&mut out, "opus");
    }
    out
}

/// Whether `langs` holds `lang`.
fn lists(langs: &Vec<String>, lang: &str) -> (r: bool)
    ensures
        r == texts(langs@).contains(lang@),
{
    let mut i: usize = 0;
    while i < langs.len()
        invariant
            i <= langs@.len(),
            forall|j: int| 0 <= j < i ==> texts(langs@)[j] != lang@,
        decreases langs@.len() - i,
    {
        if same_text(langs[i].as_str(), lang) {
            assert(texts(langs@)[i as int] == lang@);
            return true;
        }
        i = i + 1;
    }
    false
}

/// The languages of the sound tracks, each once, as they first occur.
pub fn parse_audio_langs(json: &Json) -> (r: Vec<String>)
    ensures
        texts(r@) == languages_in(items_in(json@, "formats"@)),
{
    let mut langs: Vec<String> = Vec::new();
    let ghost formats = items_in(json@, "formats"@);
    assert(texts(langs@) == Seq::<Seq<char>>::empty());
    if let Some(items) = json.items_field("formats") {
        let mut i: usize = 0;
        while i < items.len()
            invariant
                i <= items@.len(),
                formats.len() == items@.len(),
                forall|k: int| 0 <= k < formats.len() ==> formats[k] == items@[k]@,
                texts(langs@) == languages_in(formats.take(i as int)),
            decreases items@.len() - i,
        {
            proof {
                let next = formats.take(i + 1);
                assert(next.drop_last() == formats.take(i as int));
                assert(next.last() == items@[i as int]@);
            }
            let f = &items[i];
            let no_video = match f.text_field("vcodec") {
                Some(v) => same_text(v, "none"),
                None => false,
            };
            let sound = match f.text_field("acodec") {
                Some(a) => !same_text(a, "none"),
                None => false,
            };
            if no_video && sound {
                if let Some(lang) = f.text_field("language") {
                    if !lang.is_empty() && !lists(&langs, lang) {
                        push_text(&mut langs, lang);
                    }
                }
            }
            i = i + 1;
        }
        assert(formats.take(formats.len() as int) == formats);
    }
    langs
}

// ---------------------------------------------------------------------------
// Asking for the metadata once
// ---------------------------------------------------------------------------
/// The flags that make YouTube name every sound track.
pub open spec fn multi_audio_flags(wanted: bool) -> Seq<Seq<char>> {
    if wanted {
        seq!["--extractor-args"@, YT_MULTI_AUDIO_CLIENT@]
    } else {
        Seq::empty()
    }
}

/// Adds the flags that make YouTube name every sound track.
pub fn push_multi_audio(args: &mut Vec<String>, wanted: bool)
    ensures
        texts(final(args)@) == texts(old(args)@) + multi_audio_flags(wanted),
{
    if wanted {
        push_text(args, "--extractor-args");
        push_text(args, YT_MULTI_AUDIO_CLIENT);
        assert(texts(args@) == texts(old(args)@) + multi_audio_flags(wanted));
    } else {
        assert(texts(args@) == texts(old(args)@) + multi_audio_flags(wanted));
    }
}

/// The arguments that ask for the metadata of one video.
pub open spec fn meta_flags(
    url: Seq<char>,
    multi_audio: bool,
    extra: Seq<Seq<char>>,
) -> Seq<Seq<char>> {
    seq!["-J"@, "--no-playlist"@] + multi_audio_flags(multi_audio) + extra + seq![url]
}

/// The arguments that ask for the metadata of one video.
pub fn meta_args(url: &str, multi_audio: bool, extra: &Vec<String>) -> (r: Vec<String>)
    ensures
        texts(r@) == meta_flags(url@, multi_audio, texts(extra@)),
{
    let mut args: Vec<String> = Vec::new();
    assert(texts(args@) == Seq::<Seq<char>>::empty());
    push_text(&mut args, "-J");
    push_text(&mut args, "--no-playlist");
    push_multi_audio(&mut args, multi_audio);
    extend_texts(&mut args, extra);
    push_text(&mut args, url);
    assert(texts(args@) == meta_flags(url@, multi_audio, texts(extra@)));
    args
}

/// `reason`, or `otherwise` if there is none.
pub open spec fn reason_or(reason: Option<Seq<char>>, otherwise: Seq<char>) -> Seq<char> {
    match reason {
        Some(r) => r,
        None => otherwise,
    }
}

/// yt-dlp's reason for a failure, or `otherwise`.
pub fn failure_reason(stderr: &str, otherwise: &str) -> (r: String)
    ensures
        r@ == reason_or(error_reason(stderr@), otherwise@),
{
    match extract_error_reason(stderr) {
        Some(r) => r,
        None => otherwise.to_owned(),
    }
}

/// The metadata in what yt-dlp printed, given the document that it spells: the
/// document if it is an object, otherwise yt-dlp's reason. yt-dlp prints null and
/// reports success when it could extract nothing.
pub open spec fn meta_of(
    parsed: Result<JsonView, Seq<char>>,
    stderr: Seq<char>,
) -> Result<JsonView, Seq<char>> {
    match parsed {
        Ok(j) => if j is Object {
            Ok(j)
        } else {
            Err(reason_or(error_reason(stderr), "yt-dlp returned no metadata"@))
        },
        Err(e) => Err("Invalid yt-dlp output: "@ + e),
    }
}

/// What a fallible reading holds.
pub open spec fn read_view(r: Result<Json, String>) -> Result<JsonView, Seq<char>> {
    match r {
        Ok(j) => Ok(j@),
        Err(e) => Err(e@),
    }
}

/// The metadata in what yt-dlp printed, given the document that it spells.
pub fn checked_meta(parsed: Result<Json, String>, stderr: &str) -> (r: Result<Json, String>)
    ensures
        read_view(r) == meta_of(read_view(parsed), stderr@),
{
    match parsed {
        Ok(j) => if j.is_object() {
            Ok(j)
        } else {
            Err(failure_reason(stderr, "yt-dlp returned no metadata"))
        },
        Err(e) => Err(cat("Invalid yt-dlp output: ", e.as_str())),
    }
}

/// The metadata that a run of yt-dlp brought, or why it brought none.
pub fn read_meta(success: bool, stdout: &[u8], stderr: &str) -> (r: Result<Json, String>)
    requires
        decodable(stdout@),
    ensures
        !success ==> read_view(r) == Err::<JsonView, Seq<char>>(
            reason_or(error_reason(stderr@), "yt-dlp failed"@),
        ),
        success ==> read_view(r) == meta_of(json_document(output_text(stdout@)), stderr@),
{
    if !success {
        return Err(failure_reason(stderr, "yt-dlp failed"));
    }
    let parsed = parse_json(decode_output(stdout).as_str());
    checked_meta(parsed, stderr)
}

// ---------------------------------------------------------------------------
// Asking until there is an answer
// ---------------------------------------------------------------------------
/// How many attempts there are before cookies are looked for: one with the
/// cookies that worked before, one for every sound track, three plain ones.
pub open spec fn plain_attempts(working: Option<Seq<char>>) -> int {
    if working is Some {
        5
    } else {
        4
    }
}

/// The browser whose cookies the attempt `n` takes: the last attempt takes those of
/// the first browser that was found.
pub open spec fn attempt_browser(
    working: Option<Seq<char>>,
    browsers: Seq<Seq<char>>,
    n: int,
) -> Option<Seq<char>> {
    if n == 0 && working is Some {
        working
    } else if n >= plain_attempts(working) {
        Some(browsers[0])
    } else {
        None
    }
}

/// Whether the attempt `n` asks for every sound track.
pub open spec fn attempt_multi(working: Option<Seq<char>>, n: int) -> bool {
    n <= plain_attempts(working) - 4
}

/// Whether the failed attempt `n` is followed by another one: always while plain
/// attempts are left; after the last of them, only if it met the anti-bot check and
/// there is a browser.
pub open spec fn asks_again(
    working: Option<Seq<char>>,
    browsers: Seq<Seq<char>>,
    n: int,
    error: Seq<char>,
) -> bool {
    ||| n + 1 < plain_attempts(working)
    ||| n + 1 == plain_attempts(working) && is_bot_check(error) && browsers.len() > 0
}

/// A search for metadata: attempt after attempt.
pub struct MetaSearch {
    pub working: Option<String>,
    pub browsers: Vec<String>,
    /// Which attempt is next or under way.
    pub attempt: usize,
}

/// What follows an attempt.
pub enum MetaStep {
    /// Another attempt.
    Again,
    /// The metadata. The named browser's cookies made it work.
    Found { json: Json, working: Option<String> },
    /// There is no metadata, for this reason.
    Failed(String),
}

impl MetaSearch {
    /// The attempt is a plain one, or there is a browser for it.
    pub open spec fn wf(self) -> bool {
        let plain = plain_attempts(opt_text(self.working));
        self.attempt < plain || self.attempt == plain && self.browsers@.len() > 0
    }

    /// A search that knows the browser whose cookies worked before.
    pub fn new(working: Option<String>, browsers: Vec<String>) -> (r: MetaSearch)
        ensures
            r.wf(),
            r.working == working,
            r.browsers == browsers,
            r.attempt == 0,
    {
        MetaSearch { working, browsers, attempt: 0 }
    }

    /// How many attempts come before cookies are looked for.
    fn plain(&self) -> (r: usize)
        ensures
            r == plain_attempts(opt_text(self.working)),
    {
        if self.working.is_some() {
            5
        } else {
            4
        }
    }

    /// The arguments of the attempt that is next.
    pub fn attempt_arguments(&self, url: &str) -> (r: Vec<String>)
        requires
            self.wf(),
        ensures
            texts(r@) == meta_flags(
                url@,
                attempt_multi(opt_text(self.working), self.attempt as int),
                match attempt_browser(
                    opt_text(self.working),
                    texts(self.browsers@),
                    self.attempt as int,
                ) {
                    Some(browser) => cookie_flags(browser),
                    None => Seq::empty(),
                },
            ),
    {
        let plain: usize = self.plain();
        let mut extra: Vec<String> = Vec::new();
        assert(texts(extra@) == Seq::<Seq<char>>::empty());
        if self.attempt >= plain {
            extra = cookie_args(self.browsers[0].as_str());
        } else if self.attempt == 0 {
            if let Some(browser) = &self.working {
                extra = cookie_args(browser.as_str());
            }
        }
        meta_args(url, self.attempt <= plain - 4, &extra)
    }

    /// What follows the attempt that ended with the given result.
    pub fn after(&mut self, result: Result<Json, String>) -> (r: MetaStep)
        requires
            old(self).wf(),
        ensures
            final(self).wf(),
            final(self).working == old(self).working,
            final(self).browsers == old(self).browsers,
            ({
                let n = old(self).attempt as int;
                let working = opt_text(old(self).working);
                let browsers = texts(old(self).browsers@);
                match result {
                    Ok(found) => {
                        &&& r matches MetaStep::Found { json, working: made_it }
                        &&& json == found
                        &&& opt_text(made_it) == (if n >= plain_attempts(working) {
                            Some(browsers[0])
                        } else {
                            None
                        })
                        &&& final(self).attempt == n
                    },
                    Err(error) => if asks_again(working, browsers, n, error@) {
                        r is Again && final(self).attempt == n + 1
                    } else {
                        r == MetaStep::Failed(error) && final(self).attempt == n
                    },
                }
            }),
    {
        let plain: usize = self.plain();
        match result {
            Ok(json) => {
                let working = if self.attempt >= plain {
                    Some(self.browsers[0].clone())
                } else {
                    None
                };
                MetaStep::Found { json, working }
            },
            Err(error) => {
                if self.attempt + 1 < plain || (self.attempt + 1 == plain && looks_like_bot_check(
                    error.as_str(),
                ) && self.browsers.len() > 0) {
                    self.attempt = self.attempt + 1;
                    MetaStep::Again
                } else {
                    MetaStep::Failed(error)
                }
            },
        }
    }
}

/// The attempt whose result stands, given the error that each attempt would
/// bring, from the attempt `n` on.
pub open spec fn final_ask(
    working: Option<Seq<char>>,
    browsers: Seq<Seq<char>>,
    errors: spec_fn(int) -> Option<Seq<char>>,
    n: int,
) -> int
    decreases plain_attempts(working) - n,
{
    match errors(n) {
        Some(e) => if n < plain_attempts(working) && asks_again(working, browsers, n, e) {
            final_ask(working, browsers, errors, n + 1)
        } else {
            n
        },
        None => n,
    }
}

/// The first attempt that succeeds decides, if it is a plain one.
pub proof fn law_first_answer_is_taken(
    working: Option<Seq<char>>,
    browsers: Seq<Seq<char>>,
    errors: spec_fn(int) -> Option<Seq<char>>,
    k: int,
    n: int,
)
    requires
        0 <= n <= k < plain_attempts(working),
        errors(k) is None,
        forall|i: int| 0 <= i < k ==> (#[trigger] errors(i)) is Some,
    ensures
        final_ask(working, browsers, errors, n) == k,
    decreases k - n,
{
    if n < k {
        assert(errors(n) is Some);
        law_first_answer_is_taken(working, browsers, errors, k, n + 1);
    }
}

/// If every plain attempt fails, the cookies of a browser are tried once, provided
/// that there is one and that the last plain attempt met the anti-bot check.
/// Otherwise what the last plain attempt met is reported.
pub proof fn law_cookies_are_asked_for_once(
    working: Option<Seq<char>>,
    browsers: Seq<Seq<char>>,
    errors: spec_fn(int) -> Option<Seq<char>>,
    n: int,
)
    requires
        0 <= n < plain_attempts(working),
        forall|i: int| 0 <= i < plain_attempts(working) ==> (#[trigger] errors(i)) is Some,
    ensures
        final_ask(working, browsers, errors, n) == (if is_bot_check(
            errors(plain_attempts(working) - 1)->0,
        ) && browsers.len() > 0 {
            plain_attempts(working)
        } else {
            plain_attempts(working) - 1
        }),
    decreases plain_attempts(working) - n,
{
    assert(errors(n) is Some);
    if n + 1 < plain_attempts(working) {
        law_cookies_are_asked_for_once(working, browsers, errors, n + 1);
    } else {
        law_search_ends(working, browsers, errors, n + 1);
    }
}

/// The search ends: after the plain attempts and one with cookies at the latest.
pub proof fn law_search_ends(
    working: Option<Seq<char>>,
    browsers: Seq<Seq<char>>,
    errors: spec_fn(int) -> Option<Seq<char>>,
    n: int,
)
    requires
        0 <= n <= plain_attempts(working),
    ensures
        n <= final_ask(working, browsers, errors, n) <= plain_attempts(working),
    decreases plain_attempts(working) - n,
{
    if n < plain_attempts(working) {
        law_search_ends(working, browsers, errors, n + 1);
    }
}

// ---------------------------------------------------------------------------
// The metadata of a video
// ---------------------------------------------------------------------------
/// What is known of a video.
pub struct YtMeta {
    pub duration: Option<u64>,
    pub audio_tracks: Vec<String>,
    pub video_codecs: Vec<String>,
    pub audio_codecs: Vec<String>,
    pub title: Option<String>,
    pub author: Option<String>,
    pub thumbnail: Option<String>,
    /// Why there is no metadata.
    pub error: Option<String>,
}

impl Default for YtMeta {
    /// Nothing.
    fn default() -> (r: YtMeta)
        ensures
            r.duration is None,
            r.audio_tracks@.len() == 0,
            r.video_codecs@.len() == 0,
            r.audio_codecs@.len() == 0,
            r.title is None,
            r.author is None,
            r.thumbnail is None,
            r.error is None,
    {
        YtMeta {
            duration: None,
            audio_tracks: Vec::new(),
            video_codecs: Vec::new(),
            audio_codecs: Vec::new(),
            title: None,
            author: None,
            thumbnail: None,
            error: None,
        }
    }
}

/// The text in the field `key`, unless it is empty.
pub open spec fn filled_in(j: JsonView, key: Seq<char>) -> Option<Seq<char>> {
    non_empty(text_in(j, key))
}

/// The first that is there.
pub open spec fn either(a: Option<Seq<char>>, b: Option<Seq<char>>) -> Option<Seq<char>> {
    match a {
        Some(s) => Some(s),
        None => b,
    }
}

/// The recording is still going on.
pub open spec fn live_in(j: JsonView) -> bool {
    flag_in(j, "is_live"@) == Some(true)
}

/// The text in the field `key`, unless it is empty.
pub fn filled_field(json: &Json, key: &str) -> (r: Option<String>)
    ensures
        opt_text(r) == filled_in(json@, key@),
{
    match filled(json.text_field(key)) {
        Some(s) => Some(s.to_owned()),
        None => None,
    }
}

/// `a`, or `b` if it is not there.
pub fn first_given(a: Option<String>, b: Option<String>) -> (r: Option<String>)
    ensures
        opt_text(r) == either(opt_text(a), opt_text(b)),
{
    match a {
        Some(s) => Some(s),
        None => b,
    }
}

/// Whether the recording is still going on.
pub fn is_live(json: &Json) -> (r: bool)
    ensures
        r == live_in(json@),
{
    match json.flag_field("is_live") {
        Some(b) => b,
        None => false,
    }
}

/// Whether the length has to be asked for separately: it is missing, and the
/// recording has come to its end.
pub fn lacks_duration(json: &Json) -> (r: bool)
    ensures
        r == (whole_in(json@, "duration"@) is None && !live_in(json@)),
{
    json.whole_field("duration").is_none() && !is_live(json)
}

/// The metadata in a document. `fetched` is the length that was asked for
/// separately.
pub fn meta_from_json(json: &Json, fetched: Option<u64>) -> (r: YtMeta)
    ensures
        r.duration == (match whole_in(json@, "duration"@) {
            Some(d) => Some(d),
            None => if live_in(json@) {
                None
            } else {
                fetched
            },
        }),
        texts(r.audio_tracks@) == languages_in(items_in(json@, "formats"@)),
        texts(r.video_codecs@) == video_codecs_of(json@),
        texts(r.audio_codecs@) == audio_codecs_of(json@),
        opt_text(r.title) == either(filled_in(json@, "title"@), filled_in(json@, "fulltitle"@)),
        opt_text(r.author) == either(
            either(filled_in(json@, "uploader"@), filled_in(json@, "channel"@)),
            filled_in(json@, "uploader_id"@),
        ),
        opt_text(r.thumbnail) == filled_in(json@, "thumbnail"@),
        r.error is None,
{
    let duration = match json.whole_field("duration") {
        Some(d) => Some(d),
        None => if is_live(json) {
            None
        } else {
            fetched
        },
    };
    let title = first_given(filled_field(json, "title"), filled_field(json, "fulltitle"));
    let author = first_given(
        first_given(filled_field(json, "uploader"), filled_field(json, "channel")),
        filled_field(json, "uploader_id"),
    );
    YtMeta {
        duration,
        audio_tracks: parse_audio_langs(json),
        video_codecs: parse_video_codecs(json),
        audio_codecs: parse_audio_codecs(json),
        title,
        author,
        thumbnail: filled_field(json, "thumbnail"),
        error: None,
    }
}

/// What is known of a video without metadata: its length at most, and the reason.
pub fn meta_from_failure(reason: String, fetched: Option<u64>) -> (r: YtMeta)
    ensures
        r.duration == fetched,
        r.error == Some(reason),
        r.audio_tracks@.len() == 0,
        r.video_codecs@.len() == 0,
        r.audio_codecs@.len() == 0,
        r.title is None,
        r.author is None,
        r.thumbnail is None,
{
    let mut meta = YtMeta::default();
    meta.duration = fetched;
    meta.error = Some(reason);
    meta
}

/// The line of the log that tells of missing metadata.
pub fn failure_notice(reason: &str) -> (r: String)
    ensures
        r@ == "[flowbit] Failed to fetch video data: "@ + reason@,
{
    cat("[flowbit] Failed to fetch video data: ", reason)
}

/// The arguments that ask for the length of one video.
pub fn duration_args(url: &str) -> (r: Vec<String>)
    ensures
        texts(r@) == seq!["--print"@, "duration"@, "--no-playlist"@, url@],
{
    let mut args: Vec<String> = Vec::new();
    assert(texts(args@) == Seq::<Seq<char>>::empty());
    push_text(&mut args, "--print");
    push_text(&mut args, "duration");
    push_text(&mut args, "--no-playlist");
    push_text(&mut args, url);
    args
}

} // verus!
