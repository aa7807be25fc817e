//! Which streams yt-dlp is asked for.
use crate::text::{
    begins, cat, cat3, contains, dedup, dedup_texts, ends_with, is_text, join, join_texts,
    lemma_dedup_distinct, lemma_dedup_first, lemma_dedup_last, lemma_join_last, occurs_at, opt_str,
    push_text, starts_with, texts,
};
use vstd::prelude::*;

verus! {

/// How good a recording is asked for.
#[derive(Clone, Copy, Debug, PartialEq, Eq, Structural)]
pub enum Quality {
    Best,
    High,
    Medium,
    Low,
    Worst,
}

/// Whether the pictures are kept or the sound alone.
#[derive(Clone, Copy, Debug, PartialEq, Eq, Structural)]
pub enum DownloadMode {
    Video,
    Audio,
}

// ---------------------------------------------------------------------------
// By quality alone
// ---------------------------------------------------------------------------
/// The selector for a quality: H.264 and AAC in mp4 come first, since any
/// player handles them; other codecs are a fallback.
pub open spec fn format_of(q: Quality) -> Seq<char> {
    match q {
        Quality::Best => "bv*[vcodec^=avc1]+ba[acodec^=mp4a]/bv*[ext=mp4]+ba[ext=m4a]/bv*+ba/b"@,
        Quality::High =>
            "bv*[height<=1080][vcodec^=avc1]+ba[acodec^=mp4a]/bv*[height<=1080][ext=mp4]+ba[ext=m4a]/bv*[height<=1080]+ba/b[height<=1080]/b"@,
        Quality::Medium =>
            "bv*[height<=720][vcodec^=avc1]+ba[acodec^=mp4a]/bv*[height<=720][ext=mp4]+ba[ext=m4a]/bv*[height<=720]+ba/b[height<=720]/b"@,
        Quality::Low =>
            "bv*[height<=480][vcodec^=avc1]+ba[acodec^=mp4a]/bv*[height<=480][ext=mp4]+ba[ext=m4a]/bv*[height<=480]+ba/b[height<=480]/b"@,
        Quality::Worst => "wv*[vcodec^=avc1]+wa[acodec^=mp4a]/wv*+wa/w"@,
    }
}

/// The selector for a quality.
pub fn quality_to_format(q: Quality) -> (r: &'static str)
    ensures
        r@ == format_of(q),
{
    match q {
        Quality::Best => "bv*[vcodec^=avc1]+ba[acodec^=mp4a]/bv*[ext=mp4]+ba[ext=m4a]/bv*+ba/b",
        Quality::High =>
            "bv*[height<=1080][vcodec^=avc1]+ba[acodec^=mp4a]/bv*[height<=1080][ext=mp4]+ba[ext=m4a]/bv*[height<=1080]+ba/b[height<=1080]/b",
        Quality::Medium =>
            "bv*[height<=720][vcodec^=avc1]+ba[acodec^=mp4a]/bv*[height<=720][ext=mp4]+ba[ext=m4a]/bv*[height<=720]+ba/b[height<=720]/b",
        Quality::Low =>
            "bv*[height<=480][vcodec^=avc1]+ba[acodec^=mp4a]/bv*[height<=480][ext=mp4]+ba[ext=m4a]/bv*[height<=480]+ba/b[height<=480]/b",
        Quality::Worst => "wv*[vcodec^=avc1]+wa[acodec^=mp4a]/wv*+wa/w",
    }
}

/// Best or worst sound.
pub open spec fn audio_base(q: Quality) -> Seq<char> {
    match q {
        Quality::Worst => "wa"@,
        _ => "ba"@,
    }
}

/// The cap on the average bitrate of the sound, in kbit/s.
pub open spec fn audio_cap(q: Quality) -> Seq<char> {
    match q {
        Quality::High => "[abr<=160]"@,
        Quality::Medium => "[abr<=80]"@,
        Quality::Low => "[abr<=50]"@,
        _ => ""@,
    }
}

/// What selects the sound of a quality, and the cap on its bitrate.
pub fn quality_to_audio_base_and_filter(q: Quality) -> (r: (&'static str, &'static str))
    ensures
        r.0@ == audio_base(q),
        r.1@ == audio_cap(q),
{
    match q {
        Quality::Best => ("ba", ""),
        Quality::High => ("ba", "[abr<=160]"),
        Quality::Medium => ("ba", "[abr<=80]"),
        Quality::Low => ("ba", "[abr<=50]"),
        Quality::Worst => ("wa", ""),
    }
}

/// The selector for the sound of a quality: capped first, and uncapped for
/// sources that name no bitrate.
pub open spec fn audio_format_of(q: Quality) -> Seq<char> {
    if audio_cap(q).len() == 0 {
        audio_base(q)
    } else {
        audio_base(q) + audio_cap(q) + "/"@ + audio_base(q)
    }
}

/// The selector for the sound of a quality.
pub fn quality_to_audio_format(q: Quality) -> (r: String)
    ensures
        r@ == audio_format_of(q),
{
    let (base, cap) = quality_to_audio_base_and_filter(q);
    if cap.is_empty() {
        base.to_owned()
    } else {
        let mut out = cat3(base, cap, "/");
        out.append(base);
        out
    }
}

// ---------------------------------------------------------------------------
// Codecs
// ---------------------------------------------------------------------------
/// The filter for a video codec's short name.
pub open spec fn vcodec_filter_of(codec: Option<Seq<char>>) -> Option<Seq<char>> {
    match codec {
        Some(c) => if c == "h264"@ {
            Some("[vcodec^=avc1]"@)
        } else if c == "vp9"@ {
            Some("[vcodec~='^vp0?9']"@)
        } else if c == "av1"@ {
            Some("[vcodec^=av01]"@)
        } else {
            None
        },
        None => None,
    }
}

/// The filter for a video codec's short name.
pub fn vcodec_filter(codec: Option<&str>) -> (r: Option<&'static str>)
    ensures
        opt_str(r) == vcodec_filter_of(opt_str(codec)),
{
    if is_text(codec, "h264") {
        Some("[vcodec^=avc1]")
    } else if is_text(codec, "vp9") {
        Some("[vcodec~='^vp0?9']")
    } else if is_text(codec, "av1") {
        Some("[vcodec^=av01]")
    } else {
        None
    }
}

/// The filter for an audio codec's short name.
pub open spec fn acodec_filter_of(codec: Option<Seq<char>>) -> Option<Seq<char>> {
    match codec {
        Some(c) => if c == "aac"@ {
            Some("[acodec^=mp4a]"@)
        } else if c == "opus"@ {
            Some("[acodec^=opus]"@)
        } else {
            None
        },
        None => None,
    }
}

/// The filter for an audio codec's short name.
pub fn acodec_filter(codec: Option<&str>) -> (r: Option<&'static str>)
    ensures
        opt_str(r) == acodec_filter_of(opt_str(codec)),
{
    if is_text(codec, "aac") {
        Some("[acodec^=mp4a]")
    } else if is_text(codec, "opus") {
        Some("[acodec^=opus]")
    } else {
        None
    }
}

/// The container for an audio codec: Opus goes into mkv, the rest into mp4.
pub open spec fn container_of(audio_codec: Option<Seq<char>>) -> Seq<char> {
    if audio_codec == Some("opus"@) {
        "mkv"@
    } else {
        "mp4"@
    }
}

/// The container for an audio codec.
pub fn merge_container(audio_codec: Option<&str>) -> (r: &'static str)
    ensures
        r@ == container_of(opt_str(audio_codec)),
{
    if is_text(audio_codec, "opus") {
        "mkv"
    } else {
        "mp4"
    }
}

/// The format that sound alone is stored in: Opus and AAC as they are, the
/// rest as mp3.
pub open spec fn audio_file_format(audio_codec: Option<Seq<char>>) -> Seq<char> {
    if audio_codec == Some("opus"@) {
        "opus"@
    } else if audio_codec == Some("aac"@) {
        "m4a"@
    } else {
        "mp3"@
    }
}

/// The format that sound alone is stored in.
pub fn out_audio_format(audio_codec: Option<&str>) -> (r: &'static str)
    ensures
        r@ == audio_file_format(opt_str(audio_codec)),
{
    if is_text(audio_codec, "opus") {
        "opus"
    } else if is_text(audio_codec, "aac") {
        "m4a"
    } else {
        "mp3"
    }
}

/// The short name of the codec that yt-dlp calls `vcodec`.
pub open spec fn canon_vcodec_of(vcodec: Seq<char>) -> Option<Seq<char>> {
    if starts_with(vcodec, "avc1"@) || starts_with(vcodec, "avc3"@) || starts_with(
        vcodec,
        "h264"@,
    ) {
        Some("h264"@)
    } else if starts_with(vcodec, "vp9"@) || starts_with(vcodec, "vp09"@) {
        Some("vp9"@)
    } else if starts_with(vcodec, "av01"@) {
        Some("av1"@)
    } else {
        None
    }
}

/// The short name of the codec that yt-dlp calls `vcodec`.
pub fn canon_vcodec(vcodec: &str) -> (r: Option<&'static str>)
    ensures
        opt_str(r) == canon_vcodec_of(vcodec@),
{
    if begins(vcodec, "avc1") || begins(vcodec, "avc3") || begins(vcodec, "h264") {
        Some("h264")
    } else if begins(vcodec, "vp9") || begins(vcodec, "vp09") {
        Some("vp9")
    } else if begins(vcodec, "av01") {
        Some("av1")
    } else {
        None
    }
}

/// The short name of the codec that yt-dlp calls `acodec`.
pub open spec fn canon_acodec_of(acodec: Seq<char>) -> Option<Seq<char>> {
    if starts_with(acodec, "mp4a"@) || starts_with(acodec, "aac"@) {
        Some("aac"@)
    } else if starts_with(acodec, "opus"@) {
        Some("opus"@)
    } else {
        None
    }
}

/// The short name of the codec that yt-dlp calls `acodec`.
pub fn canon_acodec(acodec: &str) -> (r: Option<&'static str>)
    ensures
        opt_str(r) == canon_acodec_of(acodec@),
{
    if begins(acodec, "mp4a") || begins(acodec, "aac") {
        Some("aac")
    } else if begins(acodec, "opus") {
        Some("opus")
    } else {
        None
    }
}

// ---------------------------------------------------------------------------
// Preference lists
// ---------------------------------------------------------------------------
/// `o`, if it is there and not empty.
pub open spec fn non_empty(o: Option<Seq<char>>) -> Option<Seq<char>> {
    match o {
        Some(s) if s.len() > 0 => Some(s),
        _ => None,
    }
}

/// `o`, if it is there and not empty.
pub fn filled(o: Option<&str>) -> (r: Option<&str>)
    ensures
        opt_str(r) == non_empty(opt_str(o)),
{
    match o {
        Some(s) => if s.is_empty() {
            None
        } else {
            Some(s)
        },
        None => None,
    }
}

/// The filter for the language of the sound.
pub open spec fn lang_filter(lang: Option<Seq<char>>) -> Seq<char> {
    match non_empty(lang) {
        Some(l) => "[language="@ + l + "]"@,
        None => ""@,
    }
}

fn language_filter(lang: Option<&str>) -> (r: String)
    ensures
        r@ == lang_filter(opt_str(lang)),
{
    match filled(lang) {
        Some(l) => cat3("[language=", l, "]"),
        None => "".to_owned(),
    }
}

/// Best or worst picture.
pub open spec fn video_base(q: Quality) -> Seq<char> {
    match q {
        Quality::Worst => "wv*"@,
        _ => "bv*"@,
    }
}

/// The cap on the height of the picture.
pub open spec fn height_cap(q: Quality) -> Seq<char> {
    match q {
        Quality::High => "[height<=1080]"@,
        Quality::Medium => "[height<=720]"@,
        Quality::Low => "[height<=480]"@,
        _ => ""@,
    }
}

/// Picture and sound together.
pub open spec fn pair(video: Seq<char>, audio: Seq<char>) -> Seq<char> {
    video + "+"@ + audio
}

fn paired(video: &str, audio: &str) -> (r: String)
    ensures
        r@ == pair(video@, audio@),
{
    cat3(video, "+", audio)
}

/// What is asked for in video mode, from the exact wish to the most general:
/// both codecs in the language, the video codec alone, an audio codec that was
/// named alone, neither; then, where a language was named, without it; then
/// anything within the height, then anything.
pub open spec fn video_prefs(
    q: Quality,
    video_codec: Option<Seq<char>>,
    audio_codec: Option<Seq<char>>,
    audio_lang: Option<Seq<char>>,
) -> Seq<Seq<char>> {
    let v = video_base(q) + height_cap(q);
    let a = audio_base(q) + lang_filter(audio_lang);
    let vf = match vcodec_filter_of(video_codec) {
        Some(f) => f,
        None => "[vcodec^=avc1]"@,
    };
    let af = match acodec_filter_of(audio_codec) {
        Some(f) => f,
        None => "[acodec^=mp4a]"@,
    };
    seq![pair(v + vf, a + af), pair(v + vf, a)] + (if acodec_filter_of(audio_codec) is Some {
        seq![pair(v, a + af)]
    } else {
        seq![]
    }) + seq![pair(v, a)] + (if non_empty(audio_lang) is Some {
        seq![pair(v + vf, audio_base(q)), pair(v, audio_base(q))]
    } else {
        seq![]
    }) + seq!["b"@ + height_cap(q), "b"@]
}

/// The selector for video mode.
pub open spec fn video_format(
    q: Quality,
    video_codec: Option<Seq<char>>,
    audio_codec: Option<Seq<char>>,
    audio_lang: Option<Seq<char>>,
) -> Seq<char> {
    join(dedup(video_prefs(q, video_codec, audio_codec, audio_lang)), "/"@)
}

/// The selector for video mode.
pub fn build_video_format(
    q: Quality,
    video_codec: Option<&str>,
    audio_codec: Option<&str>,
    audio_lang: Option<&str>,
) -> (r: String)
    ensures
        r@ == video_format(q, opt_str(video_codec), opt_str(audio_codec), opt_str(audio_lang)),
{
    let (vbase, abase, cap) = match q {
        Quality::Best => ("bv*", "ba", ""),
        Quality::High => ("bv*", "ba", "[height<=1080]"),
        Quality::Medium => ("bv*", "ba", "[height<=720]"),
        Quality::Low => ("bv*", "ba", "[height<=480]"),
        Quality::Worst => ("wv*", "wa", ""),
    };
    let langf = language_filter(audio_lang);
    let vf = match vcodec_filter(video_codec) {
        Some(f) => f,
        None => "[vcodec^=avc1]",
    };
    let explicit = acodec_filter(audio_codec);
    let af = match explicit {
        Some(f) => f,
        None => "[acodec^=mp4a]",
    };
    let v = cat(vbase, cap);
    let a = cat(abase, langf.as_str());
    let v_codec = cat(v.as_str(), vf);
    let a_codec = cat(a.as_str(), af);
    let ghost none: Seq<Seq<char>> = seq![];

    let mut prefs: Vec<String> = Vec::new();
    prefs.push(paired(v_codec.as_str(), a_codec.as_str()));
    prefs.push(paired(v_codec.as_str(), a.as_str()));
    let ghost mut model: Seq<Seq<char>> = seq![
        pair(v_codec@, a_codec@),
        pair(v_codec@, a@),
    ];
    assert(texts(prefs@) == model);
    if explicit.is_some() {
        prefs.push(paired(v.as_str(), a_codec.as_str()));
        proof {
            model = model + seq![pair(v@, a_codec@)];
        }
    } else {
        proof {
            model = model + none;
        }
    }
    assert(texts(prefs@) == model);
    prefs.push(paired(v.as_str(), a.as_str()));
    proof {
        model = model + seq![pair(v@, a@)];
    }
    assert(texts(prefs@) == model);
    if filled(audio_lang).is_some() {
        prefs.push(paired(v_codec.as_str(), abase));
        prefs.push(paired(v.as_str(), abase));
        proof {
            model = model + seq![pair(v_codec@, abase@), pair(v@, abase@)];
        }
    } else {
        proof {
            model = model + none;
        }
    }
    assert(texts(prefs@) == model);
    prefs.push(cat("b", cap));
    push_text(&mut prefs, "b");
    proof {
        model = model + seq!["b"@ + cap@, "b"@];
    }
    assert(texts(prefs@) == model);
    assert(model == video_prefs(q, opt_str(video_codec), opt_str(audio_codec), opt_str(audio_lang)));
    let distinct = dedup_texts(&prefs);
    join_texts(&distinct, "/")
}

/// What is asked for in audio mode, from the exact wish to the most general:
/// with the codec and the language, without the codec, then without the
/// language; where the bitrate is capped, at last without the cap.
pub open spec fn audio_prefs(
    q: Quality,
    audio_codec: Option<Seq<char>>,
    audio_lang: Option<Seq<char>>,
) -> Seq<Seq<char>> {
    let base = audio_base(q);
    let cap = audio_cap(q);
    let langf = lang_filter(audio_lang);
    let af = acodec_filter_of(audio_codec);
    (if af is Some {
        seq![base + langf + cap + af->0]
    } else {
        seq![]
    }) + seq![base + langf + cap] + (if non_empty(audio_lang) is Some && af is Some {
        seq![base + cap + af->0]
    } else {
        seq![]
    }) + seq![base + cap] + (if cap.len() > 0 {
        seq![base + langf, base]
    } else {
        seq![]
    })
}

/// The selector for audio mode.
pub open spec fn audio_format(
    q: Quality,
    audio_codec: Option<Seq<char>>,
    audio_lang: Option<Seq<char>>,
) -> Seq<char> {
    join(dedup(audio_prefs(q, audio_codec, audio_lang)), "/"@)
}

/// The selector for audio mode.
pub fn build_audio_format(
    quality: Quality,
    audio_codec: Option<&str>,
    audio_lang: Option<&str>,
) -> (r: String)
    ensures
        r@ == audio_format(quality, opt_str(audio_codec), opt_str(audio_lang)),
{
    let langf = language_filter(audio_lang);
    let af = acodec_filter(audio_codec);
    let (base, cap) = quality_to_audio_base_and_filter(quality);
    let ghost none: Seq<Seq<char>> = seq![];

    let mut prefs: Vec<String> = Vec::new();
    let ghost mut model: Seq<Seq<char>> = none;
    if let Some(f) = af {
        let wish = cat3(base, langf.as_str(), cap);
        prefs.push(cat(wish.as_str(), f));
        proof {
            model = seq![base@ + langf@ + cap@ + f@];
        }
    }
    assert(texts(prefs@) == model);
    prefs.push(cat3(base, langf.as_str(), cap));
    proof {
        model = model + seq![base@ + langf@ + cap@];
    }
    assert(texts(prefs@) == model);
    match (filled(audio_lang), af) {
        (Some(_), Some(f)) => {
            prefs.push(cat3(base, cap, f));
            proof {
                model = model + seq![base@ + cap@ + f@];
            }
        },
        _ => {
            proof {
                model = model + none;
            }
        },
    }
    assert(texts(prefs@) == model);
    prefs.push(cat(base, cap));
    proof {
        model = model + seq![base@ + cap@];
    }
    assert(texts(prefs@) == model);
    if !cap.is_empty() {
        prefs.push(cat(base, langf.as_str()));
        push_text(&mut prefs, base);
        proof {
            model = model + seq![base@ + langf@, base@];
        }
    } else {
        proof {
            model = model + none;
        }
    }
    assert(texts(prefs@) == model);
    assert(model == audio_prefs(quality, opt_str(audio_codec), opt_str(audio_lang)));
    let distinct = dedup_texts(&prefs);
    join_texts(&distinct, "/")
}

/// In video mode the last resort is any stream at all, so that a wish which no
/// stream meets does not fail the download.
pub proof fn law_video_format_falls_back_to_anything(
    q: Quality,
    video_codec: Option<Seq<char>>,
    audio_codec: Option<Seq<char>>,
    audio_lang: Option<Seq<char>>,
)
    ensures
        ends_with(video_format(q, video_codec, audio_codec, audio_lang), "/"@ + "b"@),
{
    let prefs = video_prefs(q, video_codec, audio_codec, audio_lang);
    let d = dedup(prefs);
    lemma_dedup_last(prefs);
    lemma_dedup_first(prefs);
    assert(prefs.last() == "b"@);
    assert(d[0] != "b"@) by {
        reveal_strlit("b");
        reveal_strlit("+");
        let v = video_base(q) + height_cap(q);
        assert(d[0].len() >= 2) by {
            reveal_strlit("[vcodec^=avc1]");
            reveal_strlit("wv*");
            reveal_strlit("bv*");
        }
    }
    if d.len() == 1 {
        assert(d.last() == d[0]);
    }
    lemma_join_last(d, "/"@);
}

/// In video mode every wish but the last keeps to the height of the quality.
pub proof fn law_video_prefs_keep_height(
    q: Quality,
    video_codec: Option<Seq<char>>,
    audio_codec: Option<Seq<char>>,
    audio_lang: Option<Seq<char>>,
    i: int,
)
    requires
        0 <= i < video_prefs(q, video_codec, audio_codec, audio_lang).len() - 1,
    ensures
        contains(video_prefs(q, video_codec, audio_codec, audio_lang)[i], height_cap(q)),
{
    let p = video_prefs(q, video_codec, audio_codec, audio_lang)[i];
    let base = video_base(q);
    let cap = height_cap(q);
    reveal_strlit("b");
    if i == video_prefs(q, video_codec, audio_codec, audio_lang).len() - 2 {
        assert(p == "b"@ + cap);
        assert(p.subrange(1, (1 + cap.len()) as int) == cap);
        assert(occurs_at(p, cap, 1));
    } else {
        assert(starts_with(p, base + cap)) by {
            assert(p.take((base + cap).len() as int) == base + cap);
        }
        assert(p.subrange(base.len() as int, (base.len() + cap.len()) as int) == cap) by {
            let head = p.take((base + cap).len() as int);
            assert(head == base + cap);
            assert((base + cap).subrange(base.len() as int, (base.len() + cap.len()) as int)
                == cap);
            assert forall|j: int| 0 <= j < cap.len() implies p[base.len() + j] == cap[j] by {
                assert(head[base.len() + j] == cap[j]);
            }
        }
        assert(occurs_at(p, cap, base.len() as int));
    }
}

/// No wish stands twice in a row, in video mode or in audio mode.
pub proof fn law_no_wish_twice_in_a_row(
    q: Quality,
    video_codec: Option<Seq<char>>,
    audio_codec: Option<Seq<char>>,
    audio_lang: Option<Seq<char>>,
    i: int,
)
    ensures
        0 < i < dedup(video_prefs(q, video_codec, audio_codec, audio_lang)).len() ==> dedup(
            video_prefs(q, video_codec, audio_codec, audio_lang),
        )[i] != dedup(video_prefs(q, video_codec, audio_codec, audio_lang))[i - 1],
        0 < i < dedup(audio_prefs(q, audio_codec, audio_lang)).len() ==> dedup(
            audio_prefs(q, audio_codec, audio_lang),
        )[i] != dedup(audio_prefs(q, audio_codec, audio_lang))[i - 1],
{
    lemma_dedup_distinct(video_prefs(q, video_codec, audio_codec, audio_lang));
    lemma_dedup_distinct(audio_prefs(q, audio_codec, audio_lang));
}

/// In audio mode the last resort is the sound of the quality without codec,
/// language or bitrate.
pub proof fn law_audio_format_falls_back_uncapped(
    q: Quality,
    audio_codec: Option<Seq<char>>,
    audio_lang: Option<Seq<char>>,
)
    ensures
        dedup(audio_prefs(q, audio_codec, audio_lang)).len() > 0,
        dedup(audio_prefs(q, audio_codec, audio_lang)).last() == audio_base(q),
{
    let prefs = audio_prefs(q, audio_codec, audio_lang);
    lemma_dedup_last(prefs);
    assert(audio_cap(q).len() == 0 ==> audio_base(q) + audio_cap(q) == audio_base(q));
}

/// Without codec and language the audio selector is the one for the quality.
pub proof fn law_plain_audio_format(q: Quality)
    ensures
        audio_format(q, None, None) == audio_format_of(q),
{
    let base = audio_base(q);
    let cap = audio_cap(q);
    let langf = lang_filter(None);
    reveal_strlit("");
    assert(base + langf == base);
    reveal_with_fuel(dedup, 5);
    reveal_with_fuel(join, 4);
    let p = audio_prefs(q, None, None);
    if cap.len() == 0 {
        assert(base + cap == base);
        assert(base + langf + cap == base);
        assert(p == seq![base, base]);
        assert(p.drop_last() == seq![base]);
        assert(dedup(p) == seq![base]);
    } else {
        assert(base + langf + cap == base + cap);
        assert(p == seq![base + cap, base + cap, base, base]);
        assert((base + cap).len() != base.len());
        assert(p.drop_last() == seq![base + cap, base + cap, base]);
        assert(p.drop_last().drop_last() == seq![base + cap, base + cap]);
        assert(p.drop_last().drop_last().drop_last() == seq![base + cap]);
        assert(dedup(p) == seq![base + cap, base]);
        assert(seq![base + cap, base].drop_last() == seq![base + cap]);
    }
}

} // verus!
