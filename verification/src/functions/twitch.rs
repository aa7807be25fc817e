//! Twitch: what is known of a video, and how it is selected.
pub use crate::functions::formats::DownloadMode;

use crate::functions::cache::TtlCache;
use crate::functions::formats::{filled, non_empty};
use crate::functions::meta::{
    audio_codecs_of, either, first_given, is_live, languages_in, live_in, parse_audio_codecs,
    parse_audio_langs, parse_video_codecs, read_view, video_codecs_of,
};
use crate::functions::output::{decodable, decode_output, output_text};
use crate::json::{
    items_in, json_document, parse_json, text_in, unsigned_in, whole_in, Json, JsonView,
};
use crate::text::{
    cat, cat3, copy_texts, opt_str, opt_text, push_text, replace_once, replaced_once, texts,
};
use vstd::prelude::*;

verus! {

/// What is known of a Twitch video.
pub struct TwitchVideoInfo {
    pub title: String,
    pub channel: String,
    pub duration: Option<u64>,
    pub is_live: bool,
    pub thumbnail_url: Option<String>,
    pub view_count: Option<u64>,
    pub audio_tracks: Vec<String>,
    pub video_codecs: Vec<String>,
    pub audio_codecs: Vec<String>,
}

/// The same is known.
pub open spec fn same_twitch_info(a: TwitchVideoInfo, b: TwitchVideoInfo) -> bool {
    &&& a.title@ == b.title@
    &&& a.channel@ == b.channel@
    &&& a.duration == b.duration
    &&& a.is_live == b.is_live
    &&& opt_text(a.thumbnail_url) == opt_text(b.thumbnail_url)
    &&& a.view_count == b.view_count
    &&& texts(a.audio_tracks@) == texts(b.audio_tracks@)
    &&& texts(a.video_codecs@) == texts(b.video_codecs@)
    &&& texts(a.audio_codecs@) == texts(b.audio_codecs@)
}

impl Clone for TwitchVideoInfo {
    fn clone(&self) -> (r: TwitchVideoInfo)
        ensures
            same_twitch_info(*self, r),
    {
        TwitchVideoInfo {
            title: self.title.clone(),
            channel: self.channel.clone(),
            duration: self.duration,
            is_live: self.is_live,
            thumbnail_url: match &self.thumbnail_url {
                Some(s) => Some(s.clone()),
                None => None,
            },
            view_count: self.view_count,
            audio_tracks: copy_texts(&self.audio_tracks),
            video_codecs: copy_texts(&self.video_codecs),
            audio_codecs: copy_texts(&self.audio_codecs),
        }
    }
}

/// A handle that the application keeps for its downloads from Twitch.
#[derive(Clone, Copy, Debug, PartialEq, Eq, Structural)]
pub struct TwitchDownloadState;

impl TwitchDownloadState {
    /// The handle.
    pub fn new() -> (r: TwitchDownloadState)
        ensures
            r == TwitchDownloadState,
    {
        TwitchDownloadState
    }
}

/// How good the picture is to be.
#[derive(Clone, Copy, Debug, PartialEq, Eq, Structural)]
pub enum TwitchQuality {
    Best,
    High,
    Medium,
    Low,
    Worst,
}

impl TwitchQuality {
    /// The selector for a quality.
    pub open spec fn selector(self) -> Seq<char> {
        match self {
            TwitchQuality::Best => "bestvideo+bestaudio/best"@,
            TwitchQuality::High => "bestvideo[height<=1080]+bestaudio/best[height<=1080]"@,
            TwitchQuality::Medium => "bestvideo[height<=720]+bestaudio/best[height<=720]"@,
            TwitchQuality::Low => "bestvideo[height<=480]+bestaudio/best[height<=480]"@,
            TwitchQuality::Worst => "worstvideo+worstaudio/worst"@,
        }
    }

    /// The selector for a quality.
    pub fn fmt(self) -> (r: &'static str)
        ensures
            r@ == self.selector(),
    {
        match self {
            TwitchQuality::Best => "bestvideo+bestaudio/best",
            TwitchQuality::High => "bestvideo[height<=1080]+bestaudio/best[height<=1080]",
            TwitchQuality::Medium => "bestvideo[height<=720]+bestaudio/best[height<=720]",
            TwitchQuality::Low => "bestvideo[height<=480]+bestaudio/best[height<=480]",
            TwitchQuality::Worst => "worstvideo+worstaudio/worst",
        }
    }
}

/// The selector for picture and sound: the sound in the wanted language, or
/// failing that the quality alone.
pub open spec fn twitch_video_selector(q: TwitchQuality, lang: Option<Seq<char>>) -> Seq<char> {
    match non_empty(lang) {
        Some(l) => replaced_once(
            q.selector(),
            "+bestaudio"@,
            "+bestaudio[language="@ + l + "]"@,
        ) + "/"@ + q.selector(),
        None => q.selector(),
    }
}

/// The selector for sound alone.
pub open spec fn twitch_audio_selector(lang: Option<Seq<char>>) -> Seq<char> {
    match non_empty(lang) {
        Some(l) => "bestaudio[language="@ + l + "]/bestaudio"@,
        None => "bestaudio"@,
    }
}

/// The selector for picture and sound.
pub fn twitch_video_format(q: TwitchQuality, lang: Option<&str>) -> (r: String)
    ensures
        r@ == twitch_video_selector(q, opt_str(lang)),
{
    let base = q.fmt();
    match filled(lang) {
        Some(l) => {
            let with = cat3("+bestaudio[language=", l, "]");
            let first = replace_once(base, "+bestaudio", with.as_str());
            cat3(first.as_str(), "/", base)
        },
        None => base.to_owned(),
    }
}

/// The selector for sound alone.
pub fn twitch_audio_format(lang: Option<&str>) -> (r: String)
    ensures
        r@ == twitch_audio_selector(opt_str(lang)),
{
    match filled(lang) {
        Some(l) => cat3("bestaudio[language=", l, "]/bestaudio"),
        None => "bestaudio".to_owned(),
    }
}

// ---------------------------------------------------------------------------
// What is known of a video
// ---------------------------------------------------------------------------
/// The arguments that ask what is known of a video.
pub fn json_args(url: &str) -> (r: Vec<String>)
    ensures
        texts(r@) == seq!["--dump-json"@, "--no-playlist"@, url@],
{
    let mut args: Vec<String> = Vec::new();
    assert(texts(args@) == Seq::<Seq<char>>::empty());
    push_text(&mut args, "--dump-json");
    push_text(&mut args, "--no-playlist");
    push_text(&mut args, url);
    args
}

/// The document, or the parser's message with its origin.
pub open spec fn twitch_json(parsed: Result<JsonView, Seq<char>>) -> Result<JsonView, Seq<char>> {
    match parsed {
        Ok(j) => Ok(j),
        Err(e) => Err("JSON error: "@ + e),
    }
}

/// The document, or the parser's message with its origin.
pub fn checked_json(parsed: Result<Json, String>) -> (r: Result<Json, String>)
    ensures
        read_view(r) == twitch_json(read_view(parsed)),
{
    match parsed {
        Ok(j) => Ok(j),
        Err(e) => Err(cat("JSON error: ", e.as_str())),
    }
}

/// The document that a run of yt-dlp brought, or why it brought none.
pub fn read_json(success: bool, stdout: &[u8], stderr: &str) -> (r: Result<Json, String>)
    requires
        decodable(stdout@),
    ensures
        !success ==> read_view(r) == Err::<JsonView, Seq<char>>(stderr@),
        success ==> read_view(r) == twitch_json(json_document(output_text(stdout@))),
{
    if !success {
        return Err(stderr.to_owned());
    }
    checked_json(parse_json(decode_output(stdout).as_str()))
}

/// `o`, or `otherwise` if it is not there.
pub open spec fn or_text(o: Option<Seq<char>>, otherwise: Seq<char>) -> Seq<char> {
    match o {
        Some(s) => s,
        None => otherwise,
    }
}

/// `o`, or `otherwise` if it is not there.
pub fn text_or(o: Option<&str>, otherwise: &str) -> (r: String)
    ensures
        r@ == or_text(opt_str(o), otherwise@),
{
    match o {
        Some(s) => s.to_owned(),
        None => otherwise.to_owned(),
    }
}

/// The text in the field `key`.
fn owned_field(json: &Json, key: &str) -> (r: Option<String>)
    ensures
        opt_text(r) == text_in(json@, key@),
{
    match json.text_field(key) {
        Some(s) => Some(s.to_owned()),
        None => None,
    }
}

/// What a document tells of a Twitch video. A video that is still being
/// broadcast has no length.
pub fn twitch_info(json: &Json) -> (r: TwitchVideoInfo)
    ensures
        r.title@ == or_text(text_in(json@, "title"@), "Twitch VOD"@),
        r.channel@ == or_text(
            either(
                either(text_in(json@, "uploader"@), text_in(json@, "channel"@)),
                text_in(json@, "uploader_id"@),
            ),
            "Unknown"@,
        ),
        r.is_live == live_in(json@),
        r.duration == (if live_in(json@) {
            None
        } else {
            whole_in(json@, "duration"@)
        }),
        opt_text(r.thumbnail_url) == text_in(json@, "thumbnail"@),
        r.view_count == unsigned_in(json@, "view_count"@),
        texts(r.audio_tracks@) == languages_in(items_in(json@, "formats"@)),
        texts(r.video_codecs@) == video_codecs_of(json@),
        texts(r.audio_codecs@) == audio_codecs_of(json@),
{
    let live = is_live(json);
    let channel = match first_given(
        first_given(owned_field(json, "uploader"), owned_field(json, "channel")),
        owned_field(json, "uploader_id"),
    ) {
        Some(s) => s,
        None => "Unknown".to_owned(),
    };
    TwitchVideoInfo {
        title: text_or(json.text_field("title"), "Twitch VOD"),
        channel,
        duration: if live {
            None
        } else {
            json.whole_field("duration")
        },
        is_live: live,
        thumbnail_url: owned_field(json, "thumbnail"),
        view_count: json.unsigned_field("view_count"),
        audio_tracks: parse_audio_langs(json),
        video_codecs: parse_video_codecs(json),
        audio_codecs: parse_audio_codecs(json),
    }
}

/// What is known of a video may be kept: what is still being broadcast changes.
pub open spec fn is_settled(outcome: Result<TwitchVideoInfo, String>) -> bool {
    outcome matches Ok(info) && !info.is_live
}

/// Keeps what is known of a video under `key`, if it will not change. A failure is
/// not kept.
pub fn keep_twitch_info(
    cache: &mut TtlCache<TwitchVideoInfo>,
    key: String,
    outcome: &Result<TwitchVideoInfo, String>,
    now: u64,
)
    requires
        old(cache).wf(),
    ensures
        final(cache).wf(),
        !is_settled(*outcome) ==> final(cache)@ == old(cache)@,
        is_settled(*outcome) ==> exists|kept: TwitchVideoInfo|
            #[trigger] same_twitch_info(outcome->Ok_0, kept) && final(cache)@ == old(
                cache,
            )@.insert(key@, (now, kept)),
{
    if let Ok(info) = outcome {
        if !info.is_live {
            let kept = info.clone();
            assert(same_twitch_info(outcome->Ok_0, kept));
            cache.insert(key, kept, now);
        }
    }
}

} // verus!
