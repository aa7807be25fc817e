use flowbit_lib::functions::get_info::{keep_video_info, oembed_url, youtube_info, VideoInfo};
use flowbit_lib::functions::cache::TtlCache;
use flowbit_lib::functions::meta::{
    checked_meta, duration_args, failure_notice, lacks_duration, meta_args, meta_from_failure,
    meta_from_json, parse_audio_codecs, parse_audio_langs, parse_video_codecs, read_meta,
    MetaSearch, MetaStep, YtMeta,
};
use flowbit_lib::functions::output::{
    duration_line, extract_error_reason, first_duration_line, looks_like_bot_check, path_in,
    printed_path, should_remove,
};
use flowbit_lib::functions::twitch::{
    json_args, keep_twitch_info, read_json, twitch_audio_format, twitch_info, twitch_video_format,
    TwitchQuality, TwitchVideoInfo,
};
use flowbit_lib::json::{parse_json, Json};

fn parsed(text: &str) -> Json {
    match parse_json(text) {
        Ok(j) => j,
        Err(e) => panic!("{e}"),
    }
}

const VIDEO: &str = r#"{
  "title": "A film", "fulltitle": "A whole film", "uploader": "", "channel": "Somebody",
  "thumbnail": "https://i/1.jpg", "duration": 61.9, "is_live": false, "view_count": 7,
  "formats": [
    {"vcodec": "none", "acodec": "opus", "language": "ru"},
    {"vcodec": "none", "acodec": "mp4a.40.2", "language": "en"},
    {"vcodec": "none", "acodec": "opus", "language": "ru"},
    {"vcodec": "none", "acodec": "opus", "language": ""},
    {"vcodec": "none", "acodec": "none", "language": "de"},
    {"vcodec": "av01.0.1", "acodec": "none", "language": "fr"},
    {"vcodec": "avc1.64", "acodec": "mp4a.40.2"},
    {"vcodec": "theora"},
    {"format_note": "storyboard"}
  ]
}"#;

#[test]
fn codecs_and_languages_are_listed_in_order() {
    let j = parsed(VIDEO);
    assert_eq!(parse_video_codecs(&j), ["h264", "av1"]);
    assert_eq!(parse_audio_codecs(&j), ["aac", "opus"]);
    assert_eq!(parse_audio_langs(&j), ["ru", "en"]);
    let empty = parsed("{}");
    assert!(parse_video_codecs(&empty).is_empty());
    assert!(parse_audio_codecs(&empty).is_empty());
    assert!(parse_audio_langs(&empty).is_empty());
    let vp9 = parsed(r#"{"formats": [{"vcodec": "vp09.00"}, {"vcodec": "vp9"}, {"acodec": "aac"}]}"#);
    assert_eq!(parse_video_codecs(&vp9), ["vp9"]);
    assert_eq!(parse_audio_codecs(&vp9), ["aac"]);
}

#[test]
fn metadata_is_read_from_a_document() {
    let m = meta_from_json(&parsed(VIDEO), Some(5));
    assert_eq!(m.duration, Some(61));
    assert_eq!(m.title.as_deref(), Some("A film"));
    assert_eq!(m.author.as_deref(), Some("Somebody"));
    assert_eq!(m.thumbnail.as_deref(), Some("https://i/1.jpg"));
    assert_eq!(m.error, None);
    assert!(!lacks_duration(&parsed(VIDEO)));

    let bare = parsed(r#"{"fulltitle": "T", "uploader_id": "@u", "title": ""}"#);
    assert!(lacks_duration(&bare));
    let m = meta_from_json(&bare, Some(5));
    assert_eq!(m.duration, Some(5));
    assert_eq!(m.title.as_deref(), Some("T"));
    assert_eq!(m.author.as_deref(), Some("@u"));

    let live = parsed(r#"{"is_live": true}"#);
    assert!(!lacks_duration(&live));
    assert_eq!(meta_from_json(&live, Some(5)).duration, None);

    let failed = meta_from_failure("why".into(), None);
    assert_eq!(failed.error.as_deref(), Some("why"));
    assert!(failed.title.is_none() && failed.video_codecs.is_empty());
    assert_eq!(failure_notice("why"), "[flowbit] Failed to fetch video data: why");
}

#[test]
fn numbers_in_documents_are_cut_to_whole_ones() {
    let whole = |t: &str| parsed(t).whole_field("d");
    assert_eq!(whole(r#"{"d": 3.99}"#), Some(3));
    assert_eq!(whole(r#"{"d": -3.5}"#), Some(0));
    assert_eq!(whole(r#"{"d": 1e300}"#), Some(u64::MAX));
    assert_eq!(whole(r#"{"d": "3"}"#), None);
    assert_eq!(parsed(r#"{"d": -3}"#).unsigned_field("d"), None);
    assert_eq!(parsed(r#"{"d": 3.0}"#).unsigned_field("d"), None);
    assert_eq!(parsed(r#"{"d": 18446744073709551615}"#).unsigned_field("d"), Some(u64::MAX));
    assert_eq!(parsed(r#"{"d": null}"#).text_field("d"), None);
    assert_eq!(parsed("[1]").text_field("d"), None);
    assert_eq!(parsed(r#"{"d": "Ж"}"#).text_field("d"), Some("Ж"));
}

#[test]
fn metadata_is_asked_for() {
    assert_eq!(meta_args("u", false, &vec![]), ["-J", "--no-playlist", "u"]);
    assert_eq!(
        meta_args("u", true, &vec!["x".into()]),
        [
            "-J",
            "--no-playlist",
            "--extractor-args",
            "youtube:player_client=default,web_embedded",
            "x",
            "u"
        ]
    );
    assert_eq!(duration_args("u"), ["--print", "duration", "--no-playlist", "u"]);
    assert_eq!(json_args("u"), ["--dump-json", "--no-playlist", "u"]);
}

#[test]
fn runs_without_metadata_give_their_reason() {
    let err = |r: Result<Json, String>| r.err().unwrap();
    assert_eq!(err(read_meta(false, b"", "")), "yt-dlp failed");
    assert_eq!(err(read_meta(false, b"{}", "x\nERROR: no\ny")), "ERROR: no");
    assert_eq!(err(read_meta(true, b"null", "")), "yt-dlp returned no metadata");
    assert_eq!(err(read_meta(true, b"null", " why \n")), "why");
    assert!(err(read_meta(true, b"oops", "why")).starts_with("Invalid yt-dlp output: "));
    assert!(read_meta(true, b"{}", "").is_ok());
    assert_eq!(err(checked_meta(Err("E".into()), "why")), "Invalid yt-dlp output: E");
    assert_eq!(err(checked_meta(Ok(Json::Array(vec![])), "")), "yt-dlp returned no metadata");
    assert!(checked_meta(Ok(Json::Object(vec![])), "why").is_ok());

    assert_eq!(err(read_json(false, b"", "all that it said")), "all that it said");
    assert!(err(read_json(true, b"", "")).starts_with("JSON error: "));
    assert!(read_json(true, b"null", "").is_ok());
}

#[test]
fn messages_of_the_parser_are_kept() {
    let theirs = serde_json::from_str::<serde_json::Value>("oops").unwrap_err().to_string();
    assert_eq!(parse_json("oops").err().unwrap(), theirs);
}

#[test]
fn last_error_line_is_the_reason() {
    assert_eq!(
        extract_error_reason("ERROR: a\n  ERROR: b \nend").as_deref(),
        Some("ERROR: b")
    );
    assert_eq!(extract_error_reason(" only\nthis ").as_deref(), Some("only\nthis"));
    assert_eq!(extract_error_reason(" \n "), None);
}

#[test]
fn anti_bot_checks_are_recognised() {
    assert!(looks_like_bot_check("ERROR: Sign in to confirm your age"));
    assert!(looks_like_bot_check("please CONFIRM YOU'RE NOT A BOT"));
    assert!(looks_like_bot_check("confirm you\u{2019}re not a bot"));
    assert!(!looks_like_bot_check("ERROR: Private video"));
    assert!(!looks_like_bot_check(""));
}

#[test]
fn printed_lines_are_found() {
    assert_eq!(path_in("\n a/b.mp4 \r\n\n").as_deref(), Some("a/b.mp4"));
    assert_eq!(path_in("first\nlast").as_deref(), Some("last"));
    assert_eq!(path_in(" \n"), None);
    assert_eq!(printed_path(&[0xCF, 0xF0, b'\n']).as_deref(), Some("Пр"));
    assert_eq!(first_duration_line("NA\n \n 12.5 \n13").as_deref(), Some("12.5"));
    assert_eq!(first_duration_line("NA\n"), None);
    assert_eq!(duration_line(b"\xff\n7\n").as_deref(), Some("\u{fffd}"));
    assert_eq!(duration_line(b"NA\r\n61.0\r\n").as_deref(), Some("61.0"));
}

#[test]
fn leftovers_are_recognised() {
    for n in ["a.part", "a.tmp", "a.frag", "temp_a"] {
        assert!(should_remove(n), "{n}");
    }
    for n in ["a.mp4", "a.part.mp4", "mytemp_", "part", ""] {
        assert!(!should_remove(n), "{n}");
    }
}

fn is_again(s: MetaStep) -> bool {
    matches!(s, MetaStep::Again)
}

const BOT: &str = "ERROR: Sign in to confirm you're not a bot";

#[test]
fn search_goes_on_to_a_browser_after_the_check() {
    let browsers = vec!["firefox".to_string(), "chrome".to_string()];
    let mut s = MetaSearch::new(None, browsers);
    assert_eq!(s.attempt_arguments("u").len(), 5);
    for _ in 0..3 {
        assert!(is_again(s.after(Err("ERROR: any".into()))));
        assert_eq!(s.attempt_arguments("u"), ["-J", "--no-playlist", "u"]);
    }
    assert!(is_again(s.after(Err(BOT.into()))));
    assert_eq!(
        s.attempt_arguments("u"),
        ["-J", "--no-playlist", "--cookies-from-browser", "firefox", "u"]
    );
    match s.after(Ok(Json::Object(vec![]))) {
        MetaStep::Found { working, .. } => assert_eq!(working.as_deref(), Some("firefox")),
        _ => panic!("not found"),
    }
}

#[test]
fn search_ends_with_another_error_or_without_browsers() {
    let mut s = MetaSearch::new(None, vec!["firefox".into()]);
    for _ in 0..3 {
        assert!(is_again(s.after(Err(BOT.into()))));
    }
    assert!(matches!(s.after(Err("ERROR: gone".into())), MetaStep::Failed(e) if e == "ERROR: gone"));

    let mut s = MetaSearch::new(None, vec![]);
    for _ in 0..3 {
        assert!(is_again(s.after(Err("x".into()))));
    }
    assert!(matches!(s.after(Err(BOT.into())), MetaStep::Failed(e) if e == BOT));

    let mut s = MetaSearch::new(None, vec!["a".into(), "b".into()]);
    for _ in 0..4 {
        assert!(is_again(s.after(Err(BOT.into()))));
    }
    assert!(matches!(s.after(Err(BOT.into())), MetaStep::Failed(e) if e == BOT));
}

#[test]
fn search_begins_with_the_cookies_that_worked() {
    let mut s = MetaSearch::new(Some("opera".into()), vec!["firefox".into()]);
    assert_eq!(
        s.attempt_arguments("u"),
        [
            "-J",
            "--no-playlist",
            "--extractor-args",
            "youtube:player_client=default,web_embedded",
            "--cookies-from-browser",
            "opera",
            "u"
        ]
    );
    assert!(is_again(s.after(Err("x".into()))));
    assert_eq!(s.attempt_arguments("u").len(), 5);
    assert!(!s.attempt_arguments("u").contains(&"--cookies-from-browser".to_string()));
    match s.after(Ok(Json::Object(vec![]))) {
        MetaStep::Found { working, .. } => assert_eq!(working, None),
        _ => panic!("not found"),
    }
}

#[test]
fn both_sources_make_the_card() {
    let oembed = parsed(
        r#"{"title": "O", "author_name": "A", "thumbnail_url": "t", "html": "<iframe>"}"#,
    );
    let info = youtube_info(Some(oembed), meta_from_json(&parsed(VIDEO), None)).ok().unwrap();
    assert_eq!((info.title.as_str(), info.author_name.as_str()), ("O", "A"));
    assert_eq!((info.thumbnail_url.as_str(), info.html.as_str()), ("t", "<iframe>"));
    assert_eq!(info.duration, Some(61));
    assert_eq!(info.audio_tracks, ["ru", "en"]);

    let info = youtube_info(None, meta_from_json(&parsed(VIDEO), None)).ok().unwrap();
    assert_eq!((info.title.as_str(), info.html.as_str()), ("A film", ""));

    let only = parsed(r#"{"thumbnail_url": "t"}"#);
    let info = youtube_info(Some(only), meta_from_failure("why".into(), None)).ok().unwrap();
    assert_eq!((info.title.as_str(), info.duration), ("", None));

    assert_eq!(
        youtube_info(None, meta_from_failure("why".into(), Some(3))).err().as_deref(),
        Some("why")
    );
    assert_eq!(
        youtube_info(None, YtMeta::default()).err().as_deref(),
        Some("Failed to fetch video info")
    );
    assert_eq!(
        oembed_url("https://youtu.be/x"),
        "https://www.youtube.com/oembed?url=https://youtu.be/x&format=json"
    );
}

#[test]
fn only_complete_infos_are_kept() {
    let mut cache: TtlCache<VideoInfo> = TtlCache::new();
    let complete = youtube_info(None, meta_from_json(&parsed(VIDEO), None));
    let without_length = youtube_info(None, meta_from_json(&parsed(r#"{"title": "T"}"#), None));
    let failure = youtube_info(None, YtMeta::default());
    keep_video_info(&mut cache, "a".into(), &failure, 0);
    keep_video_info(&mut cache, "b".into(), &without_length, 0);
    keep_video_info(&mut cache, "c".into(), &complete, 0);
    assert!(cache.get("a", 0).is_none());
    assert!(cache.get("b", 0).is_none());
    let kept = cache.get("c", 0).unwrap();
    assert_eq!(kept.title, "A film");
    assert_eq!(kept.video_codecs, ["h264", "av1"]);
}

#[test]
fn twitch_infos_are_read_and_kept() {
    let vod = twitch_info(&parsed(VIDEO));
    assert_eq!((vod.title.as_str(), vod.channel.as_str()), ("A film", ""));
    assert_eq!((vod.duration, vod.view_count, vod.is_live), (Some(61), Some(7), false));
    assert_eq!(vod.thumbnail_url.as_deref(), Some("https://i/1.jpg"));

    let live = twitch_info(&parsed(r#"{"is_live": true, "duration": 5, "channel": "c"}"#));
    assert_eq!((live.duration, live.is_live), (None, true));
    assert_eq!((live.title.as_str(), live.channel.as_str()), ("Twitch VOD", "c"));
    assert_eq!(twitch_info(&parsed("{}")).channel, "Unknown");

    let mut cache: TtlCache<TwitchVideoInfo> = TtlCache::new();
    keep_twitch_info(&mut cache, "live".into(), &Ok(live), 0);
    keep_twitch_info(&mut cache, "vod".into(), &Ok(vod), 0);
    keep_twitch_info(&mut cache, "err".into(), &Err("x".into()), 0);
    assert!(cache.get("live", 0).is_none());
    assert!(cache.get("err", 0).is_none());
    assert_eq!(cache.get("vod", 0).unwrap().view_count, Some(7));
}

#[test]
fn twitch_selectors() {
    assert_eq!(
        twitch_video_format(TwitchQuality::High, Some("ru")),
        "bestvideo[height<=1080]+bestaudio[language=ru]/best[height<=1080]/bestvideo[height<=1080]+bestaudio/best[height<=1080]"
    );
    assert_eq!(
        twitch_video_format(TwitchQuality::Worst, Some("ru")),
        "worstvideo+worstaudio/worst/worstvideo+worstaudio/worst"
    );
    assert_eq!(twitch_video_format(TwitchQuality::Best, Some("")), "bestvideo+bestaudio/best");
    assert_eq!(twitch_audio_format(Some("en")), "bestaudio[language=en]/bestaudio");
    assert_eq!(twitch_audio_format(None), "bestaudio");
    assert_eq!(TwitchQuality::Low.fmt(), "bestvideo[height<=480]+bestaudio/best[height<=480]");
}
