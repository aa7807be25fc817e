use flowbit_lib::functions::cache::{
    kept_query, normalize, playlist_key, video_key, TtlCache, TTL,
};
use flowbit_lib::functions::dependencies::{
    base_name, data_root, ffmpeg, ffprobe_asset, ffprobe_name, ffprobe_platform, ffprobe_url,
    find_entry, init_libs_dir_path, install_step, judge_entry, libs_dir, quickjs, quickjs_address,
    quickjs_name, unpack_entry, unpack_file, update_notice, yt_dlp, EntryVerdict, GithubAsset, GithubRelease,
    InstallEvent, InstallStage, InstallStep, Libs,
};
use flowbit_lib::functions::playlist::{
    is_twitch_videos_page, keep_playlist_info, make_entry, parse_page, playlist_args,
    playlist_info, read_playlist, PlaylistInfo,
};
use flowbit_lib::functions::preview::{
    after_first_attempt, after_second_attempt, directory_failure, preview_file, preview_result,
    sanitize_filename, PreviewStep,
};
use flowbit_lib::functions::section::{format_clock, plan_section, time_fits};
use flowbit_lib::platform::{Arch, Platform};
use std::io::Write;

#[test]
fn values_are_kept_for_five_minutes() {
    assert_eq!(TTL, 5 * 60 * 1_000_000_000);
    let mut c: TtlCache<u32> = TtlCache::new();
    assert_eq!(c.get("a", 0), None);
    c.insert("a".into(), 1, 100);
    c.insert("b".into(), 2, 200);
    assert_eq!(c.get("a", 100 + TTL - 1), Some(1));
    assert_eq!(c.get("a", 100 + TTL), None);
    // What is too old has been removed: even an earlier clock does not find it.
    assert_eq!(c.get("a", 100), None);
    assert_eq!(c.get("b", 200), Some(2));
    c.insert("b".into(), 3, 300);
    assert_eq!(c.get("b", 200 + TTL), Some(3));
    // A clock that runs backwards does not make a value old.
    assert_eq!(c.get("b", 0), Some(3));
}

#[test]
fn keys_of_addresses() {
    assert_eq!(
        video_key(" https://www.YouTube.com/watch?si=x&v=abc&t=1#frag \n"),
        "https://www.youtube.com/watch?v=abc"
    );
    assert_eq!(video_key("https://youtu.be/abc?si=x"), "https://youtu.be/abc");
    assert_eq!(video_key("https://twitch.tv"), "https://twitch.tv/");
    assert_eq!(video_key("https://a/?v=1&v=2"), "https://a/?v=1&v=2");
    assert_eq!(video_key("https://a/?v=%D0%96+x"), "https://a/?v=%D0%96%20x");
    assert_eq!(
        playlist_key("https://www.youtube.com/playlist?index=1&list=PL&v=x"),
        "https://www.youtube.com/playlist?list=PL"
    );
    assert_eq!(playlist_key("  \u{3000}plain\u{a0} "), "plain");
    assert_eq!(normalize("https://a/?a=1&b=2&c=3", &["c", "a"]), "https://a/?a=1&c=3");
}

#[test]
fn query_and_fragment_do_not_matter_but_for_what_is_kept() {
    for base in [
        "https://www.youtube.com/watch",
        "https://a",
        "https://a/",
        "https://a/b/..",
        "https://a/b/.",
        "https://u:p@h:8080/x%20y",
        "https://пример.рф/путь",
        "https://a\\b",
        "https://[::1]/",
        "https://a/b%",
        "https:///a",
    ] {
        let plain = video_key(base);
        assert_eq!(video_key(&format!("{base}?x=1#y")), plain, "{base}");
        assert_eq!(video_key(&format!("{base}#y?v=1")), plain, "{base}");
        let kept = video_key(&format!("{base}?v=1"));
        assert_eq!(kept, format!("{plain}?v=1"), "{base}");
        assert_eq!(video_key(&format!("{base}?a&v=1&b=?#c")), kept, "{base}");
        assert_eq!(video_key(&format!("\t{base}?v=1 ")), kept, "{base}");
    }
}

#[test]
fn longer_addresses_and_keys_have_the_same_key() {
    for url in [
        "https://www.youtube.com/watch?v=abc123",
        "http://a/?v=a_b-C",
        "https://a/b/../c?x=%20+&v=1&&v=2&=&t",
        "https://пример.рф/путь/?q=Ж",
        "https://u:p@1.2.3:443//x y'|^?",
        "https://a?t=%2",
        "HTTPS://www.YouTube.com/watch?v=abc123",
        "hTTp:a?v=1",
        "\u{1}\u{2}http:\\\\a\\b?v=1",
        "ht\ttps\n:/\r/a/b ?v=1",
        "https://a/b\u{1}?v=1",
    ] {
        let key = video_key(url);
        for more in ["&t=1", "&list=", "&utm_source=x-Y_9", "#f", "#", "#?v=2&v=3"] {
            assert_eq!(video_key(&format!("{url}{more}")), key, "{url}{more}");
        }
        assert_eq!(video_key(&key), key, "{url}");
        assert!(key.bytes().all(|b| (b'!'..=b'~').contains(&b)), "{url}");
        assert_ne!(video_key(&format!("{url}&v=9")), key, "{url}");
        let list = playlist_key(url);
        assert_eq!(playlist_key(&list), list, "{url}");
    }
}

#[test]
fn ordinary_addresses_stay_as_they_are_before_the_query() {
    for base in [
        "https://youtu.be/abc_1-X",
        "https://www.twitch.tv/videos//12",
        "http://a/",
        "https://../",
        "https://a..b./x",
    ] {
        assert_eq!(video_key(base), base);
        assert_eq!(video_key(&format!("{base}?t=1#f\u{1}")), base);
        assert_eq!(video_key(&format!("{base}?v=a-B_0&t=1")), format!("{base}?v=a-B_0"));
        assert_eq!(playlist_key(&format!("{base}?list=&list=2")), format!("{base}?list=&list=2"));
    }
}

#[test]
fn different_addresses_have_different_keys() {
    let urls = [
        "https://youtu.be/abc",
        "https://youtu.be/abd",
        "https://youtu.be/abc?v=1",
        "https://youtu.be/abc?v=2",
        "https://youtu.be/abc?v=1&v=2",
        "https://youtu.be/abc?v=2&v=1",
        "https://www.youtube.com/abc?v=1",
        "http://youtu.be/abc?v=1",
    ];
    for (i, a) in urls.iter().enumerate() {
        for b in &urls[i + 1..] {
            assert_ne!(video_key(a), video_key(b), "{a} {b}");
        }
    }
    assert_eq!(video_key("HTTPS://YouTu.be/abc"), video_key("https://youtu.be/abc"));
}

#[test]
fn only_wanted_pairs_are_kept() {
    let p = |k: &str, v: &str| (k.to_string(), v.to_string());
    let pairs = vec![p("v", "1"), p("t", "2"), p("v", "")];
    assert_eq!(kept_query(&pairs, &["v"]).as_deref(), Some("v=1&v="));
    assert_eq!(kept_query(&pairs, &["t", "v"]).as_deref(), Some("v=1&t=2&v="));
    assert_eq!(kept_query(&pairs, &["list"]), None);
    assert_eq!(kept_query(&vec![], &["v"]), None);
}

#[test]
fn channel_pages_are_told_from_videos() {
    for u in ["twitch.tv/x/videos", "https://twitch.tv//x//videos/?a/b#c", "https://twitch.tv/x/videos#y"] {
        assert!(is_twitch_videos_page(u), "{u}");
    }
    for u in ["", "twitch.tv/videos/1", "twitch.tv/videos/videos", "twitch.tv/x", "twitch.tv/x/videos/y", "x/videos"] {
        assert!(!is_twitch_videos_page(u), "{u}");
    }
}

#[test]
fn playlists_are_read_from_lines() {
    let text = "List\tMe\t12\tid1\tOne\t61.5\thttps://1\nbroken line\nList\tMe\t12\tid2\tTwo\tNA\thttps://2\twith tab\n";
    let page = parse_page(text).ok().unwrap();
    assert_eq!((page.title.as_str(), page.uploader.as_str(), page.count), ("List", "Me", 12));
    assert_eq!(page.rows.len(), 2);
    assert_eq!(page.rows[0].duration, "61.5");
    assert_eq!(page.rows[1].url, "https://2\twith tab");
    let info = playlist_info(page, &vec![Some(61), None]);
    assert_eq!((info.count, info.entries.len()), (12, 2));
    assert_eq!((info.entries[0].id.as_str(), info.entries[0].duration), ("id1", Some(61)));
    assert_eq!((info.entries[1].title.as_str(), info.entries[1].duration), ("Two", None));

    let page = read_playlist(true, b"L\tU\tNA\ti\tt\t1\tu").ok().unwrap();
    assert_eq!(page.count, 0);
    assert_eq!(playlist_info(page, &vec![Some(1)]).count, 1);

    let err = |r: Result<_, String>| -> String { r.err().unwrap() };
    assert_eq!(err(read_playlist(true, b"").map(|_| ())), "Empty playlist response");
    assert_eq!(err(read_playlist(true, b"a\tb").map(|_| ())), "Unexpected yt-dlp output format");
    assert_eq!(
        err(read_playlist(false, b"").map(|_| ())),
        "yt-dlp returned an error for this playlist URL"
    );
    assert_eq!(playlist_args("u")[4], "u");
    assert_eq!(playlist_args("u")[2].matches('\t').count(), 6);
    let e = make_entry("i", "t", Some(3), "u");
    assert_eq!((e.id.as_str(), e.title.as_str(), e.duration, e.url.as_str()), ("i", "t", Some(3), "u"));
}

#[test]
fn playlists_are_kept_unless_they_failed() {
    let mut c: TtlCache<PlaylistInfo> = TtlCache::new();
    let info = parse_page("L\tU\t1\ti\tt\t1\tu").map(|p| playlist_info(p, &vec![None]));
    keep_playlist_info(&mut c, "k".into(), &info, 7);
    keep_playlist_info(&mut c, "e".into(), &Err("x".into()), 7);
    assert_eq!(c.get("k", 8).unwrap().entries[0].url, "u");
    assert!(c.get("e", 8).is_none());
}

#[test]
fn programs_have_their_places() {
    let mut libs = Libs::new(Platform::Windows, Arch::X86_64);
    init_libs_dir_path(&mut libs, "C:\\flowbit\\libs");
    init_libs_dir_path(&mut libs, "elsewhere");
    assert_eq!(libs_dir(&libs), "C:\\flowbit\\libs");
    assert_eq!(yt_dlp(&libs), "C:\\flowbit\\libs\\yt-dlp.exe");
    assert_eq!(ffmpeg(&libs), "C:\\flowbit\\libs\\ffmpeg.exe");
    assert_eq!(quickjs(&libs), "C:\\flowbit\\libs\\qjs-windows-x86_64.exe");
    let mut libs = Libs::new(Platform::Linux, Arch::Aarch64);
    init_libs_dir_path(&mut libs, "/l");
    assert_eq!(yt_dlp(&libs), "/l/yt-dlp");
    assert_eq!(ffmpeg(&libs), "/l/ffmpeg");
    assert_eq!(quickjs(&libs), "/l/qjs-linux-aarch64");
}

#[test]
fn programs_are_named_by_system() {
    assert_eq!(quickjs_name(Platform::Windows, Arch::X86), "qjs-windows-x86.exe");
    assert_eq!(quickjs_name(Platform::MacOs, Arch::Aarch64), "qjs-darwin");
    assert_eq!(quickjs_name(Platform::Linux, Arch::X86), "qjs-linux-x86");
    assert_eq!(quickjs_name(Platform::Linux, Arch::Other), "qjs-linux-x86_64");
    assert_eq!(ffprobe_platform(Platform::Windows, Arch::X86), "win-64");
    assert_eq!(ffprobe_platform(Platform::MacOs, Arch::Aarch64), "macos-64");
    assert_eq!(ffprobe_platform(Platform::Linux, Arch::Aarch64), "linux-arm-64");
    assert_eq!(ffprobe_platform(Platform::Linux, Arch::X86), "linux-32");
    assert_eq!(ffprobe_name(Platform::Windows), "ffprobe.exe");
    let asset = ffprobe_asset(Platform::Linux, Arch::X86_64);
    assert_eq!(asset, "ffprobe-6.1-linux-64.zip");
    assert_eq!(
        ffprobe_url(&asset),
        "https://github.com/ffbinaries/ffbinaries-prebuilt/releases/download/v6.1/ffprobe-6.1-linux-64.zip"
    );
}

#[test]
fn published_file_is_found_by_its_name() {
    let asset = |n: &str, u: &str| GithubAsset { name: n.into(), browser_download_url: u.into() };
    let release = GithubRelease {
        assets: vec![asset("qjs-darwin", "1"), asset("qjs-linux-x86_64", "2"), asset("qjs-linux-x86_64", "3")],
    };
    assert_eq!(
        quickjs_address(&release, Platform::Linux, Arch::X86_64).as_deref(),
        Ok("2")
    );
    assert_eq!(
        quickjs_address(&release, Platform::Linux, Arch::X86),
        Err("QuickJS asset not found: qjs-linux-x86".into())
    );
}

fn archive(entries: &[(&str, &[u8])]) -> Vec<u8> {
    let mut w = zip::ZipWriter::new(std::io::Cursor::new(Vec::new()));
    for (name, data) in entries {
        w.start_file(*name, zip::write::SimpleFileOptions::default()).unwrap();
        w.write_all(data).unwrap();
    }
    w.finish().unwrap().into_inner()
}

#[test]
fn ffprobe_is_unpacked() {
    let data = b"program ".repeat(100);
    let bytes = archive(&[("__MACOSX/._ffprobe", b"x"), ("bin/ffprobe", &data), ("ffprobe", b"y")]);
    assert_eq!(find_entry(&bytes, "ffprobe", "a.zip"), Ok(1));
    assert_eq!(unpack_entry(&bytes, 1), Ok(data));
    assert_eq!(
        find_entry(&bytes, "ffprobe.exe", "a.zip"),
        Err("ffprobe.exe not found in a.zip".into())
    );
    let theirs = |b: &[u8]| zip::ZipArchive::new(std::io::Cursor::new(b)).map(|_| ()).unwrap_err().to_string();
    assert_eq!(find_entry(b"no zip", "ffprobe", "a.zip"), Err(theirs(b"no zip")));
    assert!(unpack_entry(&bytes, 9).is_err());
    assert!(unpack_entry(b"no zip", 0).is_err());
    assert_eq!(unpack_file(&bytes, "ffprobe", "a.zip"), unpack_entry(&bytes, 1));
    assert_eq!(
        unpack_file(&bytes, "qjs", "a.zip"),
        Err("qjs not found in a.zip".into())
    );
}

#[test]
fn entries_are_judged_by_their_base_names() {
    for (n, b) in [("a", "a"), ("x/a", "a"), ("x\\a", "a"), ("x/y\\a.exe", "a.exe"), ("x/", ""), ("", "")] {
        assert_eq!(base_name(n), b, "{n}");
    }
    assert!(matches!(judge_entry(Ok("bin/ffprobe".into()), "ffprobe"), EntryVerdict::Wanted));
    assert!(matches!(judge_entry(Ok("ffprobe2".into()), "ffprobe"), EntryVerdict::Other));
    assert!(matches!(judge_entry(Err("E".into()), "ffprobe"), EntryVerdict::Unreadable(e) if e == "E"));
}

#[test]
fn data_has_a_short_place_on_windows() {
    let root = |p, d: Option<&str>, a: Result<&str, &str>| {
        data_root(p, d.map(String::from), a.map(String::from).map_err(String::from))
    };
    assert_eq!(root(Platform::Windows, Some("C:\\R"), Err("x")), Ok("C:\\R\\flowbit".into()));
    assert_eq!(root(Platform::Windows, None, Ok("C:\\A")), Ok("C:\\A".into()));
    assert_eq!(root(Platform::Linux, Some("/r"), Ok("/a")), Ok("/a".into()));
    assert_eq!(root(Platform::MacOs, Some("/r"), Err("x")), Err("x".into()));
}

#[test]
fn installing_goes_step_by_step() {
    let next = |s, e| match install_step(s, e) {
        InstallStep::Next(n) => n,
        _ => panic!("ended"),
    };
    assert_eq!(next(InstallStage::LibsDir, InstallEvent::Done), InstallStage::OutputDir);
    assert_eq!(next(InstallStage::OutputDir, InstallEvent::Done), InstallStage::Check);
    let both = InstallEvent::Present { yt_dlp: true, ffmpeg: true };
    let one = InstallEvent::Present { yt_dlp: true, ffmpeg: false };
    assert_eq!(next(InstallStage::Check, both), InstallStage::QuickJs);
    assert_eq!(next(InstallStage::Check, one), InstallStage::Binaries);
    assert_eq!(next(InstallStage::Binaries, InstallEvent::Done), InstallStage::QuickJs);
    assert_eq!(next(InstallStage::QuickJs, InstallEvent::Done), InstallStage::Ffprobe);
    assert!(matches!(
        install_step(InstallStage::Ffprobe, InstallEvent::Done),
        InstallStep::Ready { note: None }
    ));
    assert!(matches!(
        install_step(InstallStage::Ffprobe, InstallEvent::Failed("E".into())),
        InstallStep::Ready { note: Some(n) } if n == "ffprobe download failed: E"
    ));
    assert!(matches!(
        install_step(InstallStage::QuickJs, InstallEvent::Failed("E".into())),
        InstallStep::Failed(e) if e == "E"
    ));
    assert_eq!(update_notice(Ok(true)), None);
    assert_eq!(update_notice(Ok(false)).as_deref(), Some("yt-dlp update check: non-zero exit"));
    assert_eq!(update_notice(Err("E".into())).as_deref(), Some("yt-dlp update check failed: E"));
}

#[test]
fn pictures_are_named_and_saved() {
    assert_eq!(preview_file("/d", "a/b: c?", Platform::Linux), "/d/a_b_ c_.jpg");
    assert_eq!(preview_file("C:\\d", "..", Platform::Windows), "C:\\d\\thumbnail.jpg");
    let r = preview_result("/d/x.jpg".into(), Ok(7)).ok().unwrap();
    assert_eq!((r.path.as_str(), r.file_size), ("/d/x.jpg", 7));
    assert_eq!(
        preview_result("f".into(), Err("E".into())).err().as_deref(),
        Some("Cannot write file: E")
    );
    assert_eq!(directory_failure("E"), "Cannot create directory: E");
}

#[test]
fn names_stay_below_the_limit_in_bytes() {
    assert_eq!(sanitize_filename(&"Ж".repeat(110)), "Ж".repeat(110));
    assert_eq!(sanitize_filename(&"Ж".repeat(300)), "Ж".repeat(125));
    let mixed = format!("a{}", "Ж".repeat(150));
    assert_eq!(sanitize_filename(&mixed).len(), 249);
    assert_eq!(sanitize_filename(&"😀".repeat(70)).chars().count(), 62);
    assert_eq!(sanitize_filename(&"字".repeat(83)), "字".repeat(83));
    assert_eq!(sanitize_filename(&"字".repeat(84)), "字".repeat(83));
    assert_eq!(sanitize_filename(&"a".repeat(201)), "a".repeat(200));
    assert_eq!(sanitize_filename("a\tb\u{7f}\u{9f}c"), "a_b__c");
    assert_eq!(sanitize_filename(" .x. . "), ".x");
}

#[test]
fn shortened_names_do_not_end_in_a_dot_or_a_space() {
    let a = "a".repeat(199);
    assert_eq!(sanitize_filename(&format!("{a}.b")), a);
    assert_eq!(sanitize_filename(&format!("{a} b")), a);
    assert_eq!(sanitize_filename(&format!("{}b", ". ".repeat(150))), "thumbnail");
    let z = "Ж".repeat(124);
    assert_eq!(sanitize_filename(&format!("{z} .Ж")), z);
}

#[test]
fn other_address_is_tried_and_the_first_error_told() {
    assert!(matches!(after_first_attempt(Ok(vec![1]), None), PreviewStep::Use(b) if b == [1]));
    assert!(matches!(after_first_attempt(Err("E".into()), None), PreviewStep::Fail(e) if e == "E"));
    assert!(matches!(
        after_first_attempt(Err("E".into()), Some("u".into())),
        PreviewStep::TryOther { url, error } if url == "u" && error == "E"
    ));
    assert_eq!(after_second_attempt(Ok(vec![2]), "E".into()), Ok(vec![2]));
    assert_eq!(after_second_attempt(Err("F".into()), "E".into()), Err("E".into()));
}

#[test]
fn sections_are_planned() {
    let s = plan_section(None, None, Some(3723));
    assert_eq!((s.start.as_str(), s.end.as_str(), s.needed), ("00:00:00", "01:02:03", false));
    let s = plan_section(Some("00:00:05"), Some("00:00:00"), None);
    assert_eq!((s.start.as_str(), s.end.as_str(), s.needed), ("00:00:05", "00:00:00", true));
    let s = plan_section(None, Some("00:01:59"), Some(120));
    assert!(!s.needed);
    let s = plan_section(None, Some("00:01:58"), Some(120));
    assert!(s.needed);
    assert_eq!(format_clock(359999), "99:59:59");
    assert_eq!(format_clock(360000), "100:00:00");
    assert_eq!(format_clock(u64::MAX), "5124095576030431:00:15");
    assert!(time_fits("5124095576030431:00:15"));
    assert!(!time_fits("5124095576030432:00:00"));
    assert!(time_fits("not a time"));
}
