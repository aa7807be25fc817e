use flowbit_lib::functions::browsers::{
    browser_probes, detect_browsers, linux_probes, macos_probes, windows_probes, Roots,
};
use flowbit_lib::functions::cancel::{
    cancel_download, is_cancelled, on_child, CancelState, ChildAction, ChildEvent, DownloadGuard,
    CANCEL_MSG,
};
use flowbit_lib::functions::download::{
    fits, resolve_out_dir, Action, Download, DownloadResult, Job, JobKind, Progress, Reply, Stage,
};
use flowbit_lib::functions::formats::{DownloadMode, Quality};
use flowbit_lib::functions::playlist::{
    newest, playlist_fits, PlaylistAction, PlaylistDownload, PlaylistJob, PlaylistProgress,
    PlaylistReply, PlaylistStage,
};
use flowbit_lib::functions::twitch::TwitchQuality;
use flowbit_lib::functions::ytdlp::{
    apply_cached_cookies, default_ytdlp_args, full_command_line, has_cookie_flag, network_args,
    retry_notice, start_failure, update_args, RunStep, WorkingBrowser, YtdlpRun,
};
use flowbit_lib::platform::Platform;

fn strings(a: &[&str]) -> Vec<String> {
    a.iter().map(|s| s.to_string()).collect()
}

const BOT: &str = "ERROR: Sign in to confirm you're not a bot";

#[test]
fn flags_of_every_run() {
    assert_eq!(
        default_ytdlp_args("/l/ffmpeg", "/l/qjs"),
        ["--ffmpeg-location", "/l/ffmpeg", "--js-runtimes", "quickjs:/l/qjs", "--color", "never"]
    );
    let all = full_command_line("f", "q", &strings(&["-J", "u"]));
    assert_eq!(all.len(), 8);
    assert_eq!(all[6..], strings(&["-J", "u"]));
    let net = network_args();
    assert_eq!(net.len(), 19);
    assert_eq!(net[..3], strings(&["--no-mtime", "--retries", "infinite"]));
    assert_eq!(net[18], "--no-update");
    assert_eq!(update_args(), ["--update"]);
    assert_eq!(start_failure("yt-dlp error:", "no such file"), "yt-dlp error:: no such file");
}

#[test]
fn cookies_that_worked_stand_in_front() {
    let mut args = strings(&["-f", "b", "u"]);
    apply_cached_cookies(&mut args, None);
    assert_eq!(args, ["-f", "b", "u"]);
    apply_cached_cookies(&mut args, Some("firefox"));
    assert_eq!(args, ["--cookies-from-browser", "firefox", "-f", "b", "u"]);
    assert!(has_cookie_flag(&args));
    apply_cached_cookies(&mut args, Some("chrome"));
    assert_eq!(args, ["--cookies-from-browser", "firefox", "-f", "b", "u"]);
    assert!(!has_cookie_flag(&strings(&["--cookies", "x"])));
}

#[test]
fn first_working_browser_is_kept() {
    let mut w = WorkingBrowser::new();
    w.remember(None);
    assert_eq!(w.name, None);
    w.remember(Some("firefox".into()));
    w.remember(Some("chrome".into()));
    w.remember(None);
    assert_eq!(w.name.as_deref(), Some("firefox"));
}

#[test]
fn cookies_get_past_the_check() {
    let mut run = YtdlpRun::new(strings(&["u"]), None, strings(&["firefox", "chrome"]));
    assert_eq!(run.attempt_arguments(), ["u"]);
    assert!(matches!(run.after(false, BOT, false), RunStep::Retry { browser } if browser == "firefox"));
    assert_eq!(run.attempt_arguments(), ["u", "--cookies-from-browser", "firefox"]);
    assert!(
        matches!(run.after(true, "", false), RunStep::Done { working: Some(b) } if b == "firefox")
    );
    assert_eq!(
        retry_notice("chrome"),
        "[flowbit] YouTube requires \"I'm not a bot\" confirmation — trying cookies from chrome…"
    );
}

#[test]
fn there_is_one_retry_however_many_browsers() {
    let mut run = YtdlpRun::new(strings(&["u"]), None, strings(&["firefox", "chrome"]));
    assert!(matches!(run.after(false, BOT, false), RunStep::Retry { .. }));
    assert!(matches!(run.after(false, BOT, false), RunStep::Done { working: None }));
    let mut run = YtdlpRun::new(strings(&["u"]), None, vec![]);
    assert!(matches!(run.after(false, BOT, false), RunStep::Done { working: None }));
}

#[test]
fn only_the_check_is_retried() {
    let new = |args: &[&str]| YtdlpRun::new(strings(args), None, strings(&["firefox"]));
    let done = |s: RunStep| matches!(s, RunStep::Done { working: None });
    assert!(done(new(&["u"]).after(true, BOT, false)));
    assert!(done(new(&["u"]).after(false, "ERROR: gone", false)));
    assert!(done(new(&["u"]).after(false, BOT, true)));
    assert!(done(new(&["--cookies-from-browser", "x"]).after(false, BOT, false)));
    let mut run = new(&["u"]);
    assert!(matches!(run.after(false, BOT, false), RunStep::Retry { .. }));
    assert!(done(run.after(false, BOT, false)));
    let mut known = YtdlpRun::new(strings(&["u"]), Some("opera"), strings(&["firefox"]));
    assert_eq!(known.attempt_arguments(), ["--cookies-from-browser", "opera", "u"]);
    assert!(done(known.after(false, BOT, false)));
}

#[test]
fn cancelling_does_not_outlive_a_download() {
    let mut state = CancelState::new();
    cancel_download(&mut state);
    assert!(is_cancelled(&state));
    let guard = DownloadGuard::new(&mut state);
    assert!(!is_cancelled(&state));
    assert!(matches!(on_child(ChildEvent::Started, &state), ChildAction::Wait));
    cancel_download(&mut state);
    assert!(
        matches!(on_child(ChildEvent::Started, &state), ChildAction::Kill { report } if report == CANCEL_MSG)
    );
    guard.release(&mut state);
    assert!(!is_cancelled(&state));
    assert!(
        matches!(on_child(ChildEvent::Cancelled, &state), ChildAction::Kill { report } if report == "Download cancelled")
    );
    assert!(matches!(
        on_child(ChildEvent::Exited { success: false }, &state),
        ChildAction::Report(Ok(false))
    ));
    assert!(
        matches!(on_child(ChildEvent::Broken("e".into()), &state), ChildAction::Report(Err(e)) if e == "e")
    );
}

fn job(kind: JobKind) -> Job {
    Job {
        kind,
        url: "https://u".into(),
        out_dir: "/d".into(),
        start: None,
        end: None,
        duration: None,
        audio_lang: None,
        video_codec: None,
        audio_codec: None,
        platform: Platform::Linux,
    }
}

#[test]
fn arguments_for_a_video() {
    let mut j = job(JobKind::Video(Quality::High));
    j.audio_lang = Some("ru".into());
    j.audio_codec = Some("opus".into());
    j.video_codec = Some("".into());
    let args = j.arguments();
    assert_eq!(
        args[..11],
        strings(&[
            "-f",
            "bv*[height<=1080][vcodec^=avc1]+ba[language=ru][acodec^=opus]/bv*[height<=1080][vcodec^=avc1]+ba[language=ru]/bv*[height<=1080]+ba[language=ru][acodec^=opus]/bv*[height<=1080]+ba[language=ru]/bv*[height<=1080][vcodec^=avc1]+ba/bv*[height<=1080]+ba/b[height<=1080]/b",
            "--merge-output-format",
            "mkv",
            "--no-playlist",
            "-P",
            "home:/d",
            "-P",
            "temp:/d/.flowbit-tmp",
            "--extractor-args",
            "youtube:player_client=default,web_embedded",
        ])
    );
    assert_eq!(args[11..30], network_args());
    assert_eq!(
        args[30..],
        strings(&[
            "-o",
            "%(title)s.%(ext)s",
            "--print-to-file",
            "after_move:filepath",
            "/d/.flowbit-tmp/__filepath.txt",
            "https://u",
        ])
    );
}

#[test]
fn arguments_for_sound() {
    let mut j = job(JobKind::Audio(Quality::Best));
    j.audio_codec = Some("aac".into());
    assert_eq!(
        j.arguments()[..12],
        strings(&[
            "-f",
            "ba[acodec^=mp4a]/ba",
            "-x",
            "--audio-format",
            "m4a",
            "--audio-quality",
            "0",
            "--no-playlist",
            "-P",
            "home:/d",
            "-P",
            "temp:/d/.flowbit-tmp",
        ])
    );
    assert_eq!(j.arguments().len(), 12 + 19 + 6);
}

#[test]
fn arguments_for_twitch() {
    let mut j = job(JobKind::TwitchVideo(TwitchQuality::Best));
    j.audio_lang = Some("en".into());
    let args = j.arguments();
    assert_eq!(
        args[..10],
        strings(&[
            "-o",
            "%(title)s.%(ext)s",
            "--no-playlist",
            "-P",
            "home:/d",
            "-P",
            "temp:/d/.flowbit-tmp",
            "--print-to-file",
            "after_move:filepath",
            "/d/.flowbit-tmp/__filepath.txt",
        ])
    );
    assert_eq!(
        args[29..],
        strings(&[
            "-f",
            "bestvideo+bestaudio[language=en]/best/bestvideo+bestaudio/best",
            "--merge-output-format",
            "mp4",
            "https://u",
        ])
    );
    let sound = job(JobKind::TwitchAudio).arguments();
    assert_eq!(
        sound[29..],
        strings(&["-f", "bestaudio", "-x", "--audio-quality", "0", "https://u"])
    );
}

/// Runs a download to its end; `reply` answers each request.
fn run(j: Job, reply: impl Fn(&Action) -> Reply) -> (Vec<Stage>, Result<DownloadResult, String>) {
    let mut d = Download::begin(j);
    let mut seen = Vec::new();
    loop {
        seen.push(d.stage);
        let r = reply(&d.action());
        assert!(fits(d.stage, &r));
        match d.step(r) {
            Progress::Next(next) => d = next,
            Progress::Finished(result) => return (seen, result),
        }
    }
}

fn good(action: &Action) -> Reply {
    match action {
        Action::Measure { .. } => Reply::Length(Some(120)),
        Action::Fetch { .. } | Action::Cut { .. } => Reply::Exited { success: true },
        Action::ReadPath { .. } => Reply::Printed(Some("/d/Film.mp4".into())),
        Action::Size { .. } => Reply::FileSize(9),
        _ => Reply::Done,
    }
}

#[test]
fn whole_video_is_not_cut() {
    let (seen, result) = run(job(JobKind::Video(Quality::Best)), good);
    assert_eq!(seen.len(), 7);
    assert!(seen.iter().all(|s| *s != Stage::Cut && *s != Stage::Inform));
    let r = result.ok().unwrap();
    assert_eq!((r.path.as_str(), r.file_size), ("/d/Film.mp4", 9));
}

#[test]
fn wanted_part_is_cut_and_put_in_place() {
    let mut j = job(JobKind::Video(Quality::Best));
    j.duration = Some(3723);
    j.start = Some("00:00:10".into());
    let (seen, result) = run(j, |a| {
        match a {
            Action::Cut { args, notice } => {
                assert_eq!(
                    *args,
                    strings(&[
                        "-y", "-i", "/d/Film.mp4", "-ss", "00:00:10", "-to", "01:02:03", "-c",
                        "copy", "/d/Film_cut.mp4",
                    ])
                );
                assert_eq!(notice, "[ffmpeg] Trimming video…");
            }
            Action::Replace { file, cut } => {
                assert_eq!((file.as_str(), cut.as_str()), ("/d/Film.mp4", "/d/Film_cut.mp4"));
            }
            Action::Fetch { label, stream, .. } => {
                assert_eq!((label.as_str(), *stream), ("Failed to run yt-dlp", true));
            }
            _ => {}
        }
        good(a)
    });
    assert_eq!(
        seen,
        [
            Stage::MakeDir,
            Stage::Prepare,
            Stage::Fetch,
            Stage::ReadPath,
            Stage::CleanUp,
            Stage::Cut,
            Stage::Replace,
            Stage::Size
        ]
        .to_vec()
    );
    assert!(result.is_ok());
}

#[test]
fn twitch_is_asked_first_and_clipped_under_its_own_name() {
    let mut j = job(JobKind::TwitchVideo(TwitchQuality::Best));
    j.end = Some("00:01:00".into());
    let (seen, result) = run(j, |a| {
        match a {
            Action::Cut { args, notice } => {
                assert_eq!(args[9], "/d/Film_clip.mp4");
                assert_eq!((args[4].as_str(), args[6].as_str()), ("00:00:00", "00:01:00"));
                assert_eq!(notice, "[ffmpeg] Clipping stream…");
            }
            Action::Fetch { label, stream, .. } => {
                assert_eq!((label.as_str(), *stream), ("yt-dlp failed:", false));
            }
            _ => {}
        }
        good(a)
    });
    assert_eq!(seen.len(), 10);
    assert_eq!(seen[1], Stage::Inform);
    assert!(result.is_ok());
}

fn failing(kind: JobKind, cut: bool, stage: Stage, r: fn() -> Reply) -> (Vec<Stage>, String) {
    let mut j = job(kind);
    if cut {
        j.start = Some("00:00:01".into());
    }
    let mut d = Download::begin(j);
    let mut seen = Vec::new();
    loop {
        seen.push(d.stage);
        let answer = if d.stage == stage { r() } else { good(&d.action()) };
        match d.step(answer) {
            Progress::Next(next) => d = next,
            Progress::Finished(result) => return (seen, result.err().unwrap()),
        }
    }
}

#[test]
fn failures_are_reported_as_they_are() {
    let video = JobKind::Video(Quality::Best);
    let audio = JobKind::Audio(Quality::Best);
    let twitch = JobKind::TwitchAudio;
    let message = |k, c, s, r| failing(k, c, s, r).1;
    let failed: fn() -> Reply = || Reply::Failed("E".into());
    let no: fn() -> Reply = || Reply::Exited { success: false };
    let none: fn() -> Reply = || Reply::Printed(None);
    let empty: fn() -> Reply = || Reply::FileSize(0);

    assert_eq!(message(video, false, Stage::MakeDir, failed), "Cannot create directory: E");
    assert_eq!(message(twitch, false, Stage::MakeDir, failed), "E");
    assert_eq!(message(twitch, false, Stage::Inform, failed), "E");
    assert_eq!(message(video, false, Stage::Fetch, failed), "E");
    assert_eq!(message(video, false, Stage::Fetch, no), "Video download failed");
    assert_eq!(message(audio, false, Stage::Fetch, no), "Audio download failed");
    assert_eq!(message(twitch, false, Stage::Fetch, no), "yt-dlp failed");
    assert_eq!(message(video, false, Stage::ReadPath, none), "Cannot resolve output file path");
    assert_eq!(
        message(audio, false, Stage::ReadPath, none),
        "Cannot resolve output file path from yt-dlp"
    );
    assert_eq!(message(twitch, false, Stage::ReadPath, none), "Cannot resolve output file path");
    assert_eq!(message(audio, true, Stage::Cut, no), "ffmpeg trimming failed");
    assert_eq!(message(twitch, true, Stage::Cut, no), "ffmpeg clipping failed");
    assert_eq!(message(audio, true, Stage::Cut, failed), "E");
    assert_eq!(message(video, false, Stage::Size, failed), "Cannot read file: E");
    assert_eq!(message(twitch, false, Stage::Size, failed), "E");
    assert_eq!(message(video, false, Stage::Size, empty), "File is empty");
    assert_eq!(message(twitch, false, Stage::Size, empty), "Empty file");
}

#[test]
fn leftovers_go_even_if_the_download_failed() {
    let (seen, _) = failing(JobKind::Video(Quality::Best), true, Stage::Fetch, || {
        Reply::Exited { success: false }
    });
    assert_eq!(seen.last(), Some(&Stage::CleanUp));
}

#[test]
fn replies_have_to_fit() {
    assert!(!fits(Stage::Measure, &Reply::Done));
    assert!(!fits(Stage::Fetch, &Reply::Done));
    assert!(fits(Stage::Fetch, &Reply::Failed("x".into())));
    assert!(!playlist_fits(PlaylistStage::Fetch, &PlaylistReply::Done));
    assert!(!playlist_fits(
        PlaylistStage::Survey,
        &PlaylistReply::Found { dirs: vec!["a".into()], times: vec![], files: 0 }
    ));
}

#[test]
fn target_directory_is_the_first_that_is_known() {
    let s = |t: &str| Some(t.to_string());
    assert_eq!(resolve_out_dir(s(" /x "), s("a"), s("b"), s("c"), s("d")), " /x ");
    assert_eq!(resolve_out_dir(s("  "), s("a"), s("b"), s("c"), s("d")), "a");
    assert_eq!(resolve_out_dir(None, None, s("b"), s("c"), s("d")), "b");
    assert_eq!(resolve_out_dir(None, None, None, s("c"), s("d")), "c");
    assert_eq!(resolve_out_dir(None, None, None, None, s("d")), "d");
    assert_eq!(resolve_out_dir(None, None, None, None, None), ".");
}

fn playlist_job(mode: Option<DownloadMode>) -> PlaylistJob {
    PlaylistJob {
        url: "https://l".into(),
        base_dir: "/d".into(),
        quality: Some(Quality::Worst),
        mode,
        platform: Platform::Linux,
    }
}

#[test]
fn arguments_for_a_playlist() {
    let args = playlist_job(None).arguments();
    assert_eq!(
        args[..8],
        strings(&[
            "--yes-playlist",
            "--no-warnings",
            "-P",
            "home:/d",
            "-P",
            "temp:/d/.flowbit-tmp",
            "-o",
            "%(playlist_title)s/%(playlist_index)02d - %(title)s.%(ext)s",
        ])
    );
    assert_eq!(
        args[27..],
        strings(&[
            "-f",
            "wv*[vcodec^=avc1]+wa[acodec^=mp4a]/wv*+wa/w",
            "--merge-output-format",
            "mp4",
            "https://l",
        ])
    );
    let sound = playlist_job(Some(DownloadMode::Audio)).arguments();
    assert_eq!(
        sound[27..],
        strings(&[
            "-f", "wa", "-x", "--audio-format", "mp3", "--audio-quality", "0", "https://l",
        ])
    );
    let mut any = playlist_job(Some(DownloadMode::Audio));
    any.quality = Some(Quality::High);
    assert_eq!(any.arguments()[28], "ba[abr<=160]/ba");
    any.quality = None;
    assert_eq!(any.arguments()[28], "bestaudio");
}

#[test]
fn playlist_is_downloaded_step_by_step() {
    let mut d = PlaylistDownload::begin(playlist_job(None));
    loop {
        let reply = match d.action() {
            PlaylistAction::Fetch { label, .. } => {
                assert_eq!(label, "Playlist download failed");
                PlaylistReply::Exited { success: true }
            }
            PlaylistAction::Survey { dir } => {
                assert_eq!(dir, "/d");
                PlaylistReply::Found {
                    dirs: strings(&["/d/a", "/d/b", "/d/c"]),
                    times: vec![1, 5, 5],
                    files: 4,
                }
            }
            _ => PlaylistReply::Done,
        };
        match d.step(reply) {
            PlaylistProgress::Next(next) => d = next,
            PlaylistProgress::Finished(result) => {
                let r = result.ok().unwrap();
                assert_eq!((r.dir.as_str(), r.downloaded, r.total), ("/d/b", 4, 4));
                return;
            }
        }
    }
}

#[test]
fn playlist_failures_are_reported() {
    let err = |p: PlaylistProgress| match p {
        PlaylistProgress::Finished(r) => r.err().unwrap(),
        PlaylistProgress::Next(_) => panic!("went on"),
    };
    let at = |stage| PlaylistDownload { job: playlist_job(None), stage, success: false };
    assert_eq!(
        err(at(PlaylistStage::MakeDir).step(PlaylistReply::Failed("E".into()))),
        "Cannot create directory: E"
    );
    assert_eq!(err(at(PlaylistStage::Fetch).step(PlaylistReply::Failed("E".into()))), "E");
    assert_eq!(
        err(at(PlaylistStage::CleanUp).step(PlaylistReply::Done)),
        "Playlist download failed — check logs for details"
    );
    let empty = PlaylistDownload {
        job: playlist_job(None),
        stage: PlaylistStage::Survey,
        success: true,
    };
    let found = PlaylistReply::Found { dirs: vec![], times: vec![], files: 0 };
    match empty.step(found) {
        PlaylistProgress::Finished(Ok(r)) => assert_eq!(r.dir, "/d"),
        _ => panic!("no result"),
    }
}

#[test]
fn first_of_the_newest_is_taken() {
    assert_eq!(newest(&vec![]), None);
    assert_eq!(newest(&vec![-3]), Some(0));
    assert_eq!(newest(&vec![1, 3, 2, 3]), Some(1));
    assert_eq!(newest(&vec![-5, -9, -1]), Some(2));
}

#[test]
fn browsers_are_looked_for_where_they_are() {
    let linux = linux_probes(Some("/home/u"), None);
    assert_eq!(linux.len(), 8);
    assert_eq!(linux[0].path, "/home/u/.mozilla/firefox/profiles.ini");
    assert!(linux[0].file && !linux[1].file);
    assert_eq!(linux[1].path, "/home/u/.config/google-chrome");
    assert_eq!(linux_probes(Some("/home/u"), Some("/c/"))[7].path, "/c/naver-whale");
    assert!(linux_probes(None, Some("/c")).is_empty());

    let mac = macos_probes(Some("/Users/u"));
    assert_eq!(mac.len(), 8);
    assert_eq!(mac[7].browser, "safari");
    assert!(mac[7].file);
    assert!(macos_probes(None).is_empty());

    let windows = windows_probes(Some("R"), Some("L"));
    assert_eq!(windows.len(), 8);
    assert_eq!(windows[0].path, "R\\Mozilla\\Firefox\\Profiles");
    assert_eq!(windows[2].path, "L\\Google\\Chrome\\User Data");
    assert_eq!(windows_probes(None, Some("L")).len(), 6);
    assert_eq!(windows_probes(Some("R"), None).len(), 2);

    let roots = Roots {
        roaming: None,
        local: Some("L".into()),
        home: Some("/h".into()),
        config: None,
    };
    assert_eq!(browser_probes(Platform::Windows, &roots)[0].browser, "chrome");
    assert_eq!(browser_probes(Platform::MacOs, &roots)[0].browser, "firefox");
    assert_eq!(browser_probes(Platform::Linux, &roots)[2].path, "/h/.config/chromium");

    let mut there = vec![false; 8];
    assert!(detect_browsers(&linux, &there).is_empty());
    there[4] = true;
    there[0] = true;
    assert_eq!(detect_browsers(&linux, &there), ["firefox", "brave"]);
}
