//! What the user is shown of a video before it is downloaded.
use crate::functions::cache::TtlCache;
use crate::functions::meta::{either, YtMeta};
use crate::functions::twitch::or_text;
use crate::json::{text_in, Json, JsonView};
use crate::text::{cat3, copy_texts, opt_text, texts};
use vstd::prelude::*;

verus! {

/// What is known of a YouTube video.
pub struct VideoInfo {
    pub title: String,
    pub author_name: String,
    pub thumbnail_url: String,
    pub html: String,
    pub duration: Option<u64>,
    pub audio_tracks: Vec<String>,
    pub video_codecs: Vec<String>,
    pub audio_codecs: Vec<String>,
}

/// The same is known.
pub open spec fn same_info(a: VideoInfo, b: VideoInfo) -> bool {
    &&& a.title@ == b.title@
    &&& a.author_name@ == b.author_name@
    &&& a.thumbnail_url@ == b.thumbnail_url@
    &&& a.html@ == b.html@
    &&& a.duration == b.duration
    &&& texts(a.audio_tracks@) == texts(b.audio_tracks@)
    &&& texts(a.video_codecs@) == texts(b.video_codecs@)
    &&& texts(a.audio_codecs@) == texts(b.audio_codecs@)
}

impl Clone for VideoInfo {
    fn clone(&self) -> (r: VideoInfo)
        ensures
            same_info(*self, r),
    {
        VideoInfo {
            title: self.title.clone(),
            author_name: self.author_name.clone(),
            thumbnail_url: self.thumbnail_url.clone(),
            html: self.html.clone(),
            duration: self.duration,
            audio_tracks: copy_texts(&self.audio_tracks),
            video_codecs: copy_texts(&self.video_codecs),
            audio_codecs: copy_texts(&self.audio_codecs),
        }
    }
}

/// Where YouTube tells title, author and thumbnail of a video.
pub fn oembed_url(url: &str) -> (r: String)
    ensures
        r@ == "https://www.youtube.com/oembed?url="@ + url@ + "&format=json"@,
{
    cat3("https://www.youtube.com/oembed?url=", url, "&format=json")
}

/// The text in the field `key` of YouTube's answer, if there is an answer.
pub open spec fn told(oembed: Option<JsonView>, key: Seq<char>) -> Option<Seq<char>> {
    match oembed {
        Some(j) => text_in(j, key),
        None => None,
    }
}

/// What an optional document holds.
pub open spec fn opt_json(o: Option<Json>) -> Option<JsonView> {
    match o {
        Some(j) => Some(j@),
        None => None,
    }
}

/// The text in the field `key` of YouTube's answer.
fn told_text(oembed: &Option<Json>, key: &str) -> (r: Option<String>)
    ensures
        opt_text(r) == told(opt_json(*oembed), key@),
{
    match oembed {
        Some(j) => match j.text_field(key) {
            Some(s) => Some(s.to_owned()),
            None => None,
        },
        None => None,
    }
}

/// What YouTube tells, or failing that yt-dlp, or nothing.
fn told_or(oembed: &Option<Json>, key: &str, otherwise: Option<String>) -> (r: String)
    ensures
        r@ == or_text(either(told(opt_json(*oembed), key@), opt_text(otherwise)), Seq::empty()),
{
    match told_text(oembed, key) {
        Some(s) => s,
        None => match otherwise {
            Some(s) => s,
            None => {
                let empty = String::new();
                assert(empty@ == Seq::<char>::empty());
                empty
            },
        },
    }
}

/// The title that is shown.
pub open spec fn shown_title(oembed: Option<JsonView>, meta: YtMeta) -> Seq<char> {
    or_text(either(told(oembed, "title"@), opt_text(meta.title)), Seq::empty())
}

/// The author that is shown.
pub open spec fn shown_author(oembed: Option<JsonView>, meta: YtMeta) -> Seq<char> {
    or_text(either(told(oembed, "author_name"@), opt_text(meta.author)), Seq::empty())
}

/// The thumbnail that is shown.
pub open spec fn shown_thumbnail(oembed: Option<JsonView>, meta: YtMeta) -> Seq<char> {
    or_text(either(told(oembed, "thumbnail_url"@), opt_text(meta.thumbnail)), Seq::empty())
}

/// What is known of a video from YouTube's answer, if there is one, and from
/// yt-dlp. It is an error only if neither gives a title or a thumbnail; then
/// yt-dlp's reason is reported.
pub fn youtube_info(oembed: Option<Json>, meta: YtMeta) -> (r: Result<VideoInfo, String>)
    ensures
        ({
            let answer = opt_json(oembed);
            match r {
                Ok(info) => {
                    &&& shown_title(answer, meta).len() > 0 || shown_thumbnail(answer, meta).len()
                        > 0
                    &&& info.title@ == shown_title(answer, meta)
                    &&& info.author_name@ == shown_author(answer, meta)
                    &&& info.thumbnail_url@ == shown_thumbnail(answer, meta)
                    &&& info.html@ == or_text(told(answer, "html"@), Seq::empty())
                    &&& info.duration == meta.duration
                    &&& info.audio_tracks == meta.audio_tracks
                    &&& info.video_codecs == meta.video_codecs
                    &&& info.audio_codecs == meta.audio_codecs
                },
                Err(e) => {
                    &&& shown_title(answer, meta).len() == 0
                    &&& shown_thumbnail(answer, meta).len() == 0
                    &&& e@ == or_text(opt_text(meta.error), "Failed to fetch video info"@)
                },
            }
        }),
{
    let title = told_or(&oembed, "title", meta.title);
    let author_name = told_or(&oembed, "author_name", meta.author);
    let thumbnail_url = told_or(&oembed, "thumbnail_url", meta.thumbnail);
    let html = told_or(&oembed, "html", None);
    if title.as_str().is_empty() && thumbnail_url.as_str().is_empty() {
        return Err(
            match meta.error {
                Some(e) => e,
                None => "Failed to fetch video info".to_owned(),
            },
        );
    }
    Ok(
        VideoInfo {
            title,
            author_name,
            thumbnail_url,
            html,
            duration: meta.duration,
            audio_tracks: meta.audio_tracks,
            video_codecs: meta.video_codecs,
            audio_codecs: meta.audio_codecs,
        },
    )
}

/// What is known of a video may be kept: with its length it is complete.
pub open spec fn is_complete(outcome: Result<VideoInfo, String>) -> bool {
    outcome matches Ok(info) && info.duration is Some
}

/// Keeps what is known of a video under `key`, if it is complete. A failure is not
/// kept, nor is what lacks the length.
pub fn keep_video_info(
    cache: &mut TtlCache<VideoInfo>,
    key: String,
    outcome: &Result<VideoInfo, String>,
    now: u64,
)
    requires
        old(cache).wf(),
    ensures
        final(cache).wf(),
        !is_complete(*outcome) ==> final(cache)@ == old(cache)@,
        is_complete(*outcome) ==> exists|kept: VideoInfo|
            #[trigger] same_info(outcome->Ok_0, kept) && final(cache)@ == old(cache)@.insert(
                key@,
                (now, kept),
            ),
{
    if let Ok(info) = outcome {
        if info.duration.is_some() {
            let kept = info.clone();
            assert(same_info(outcome->Ok_0, kept));
            cache.insert(key, kept, now);
        }
    }
}

} // verus!
