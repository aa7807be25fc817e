//! What yt-dlp and ffmpeg are told to do, word by word.
use crate::functions::download::{Action, Download, Job, JobKind, Stage};
use crate::functions::formats::{audio_format, video_format, DownloadMode, Quality};
use crate::functions::meta::{attempt_browser, attempt_multi, meta_flags, multi_audio_flags};
use crate::functions::playlist::{PlaylistAction, PlaylistDownload, PlaylistJob, PlaylistStage};
use crate::functions::section::{clock_value, law_clock_text_reads_back, lemma_zero_clock};
use crate::functions::twitch::{twitch_audio_selector, twitch_video_selector};
use crate::functions::ytdlp::{
    attempt_args, cookie_flags, default_flags, network_flags, with_cached_cookies,
};
use crate::laws::selectors::{
    law_bitrate_follows_the_quality, law_containers_follow_the_sound,
    law_height_follows_the_quality, no_height, only_height,
};
use crate::paths::{joined, marked};
use crate::text::{opt_text, split, texts};
use vstd::prelude::*;

verus! {

// ---------------------------------------------------------------------------
// Cutting
// ---------------------------------------------------------------------------
/// Of every recording, with pictures or without, from YouTube or from Twitch, ffmpeg
/// keeps the part from the start that is asked for, behind `-ss`, to the end that is
/// asked for, behind `-to`, both on the recording's own clock. A start that is
/// missing is zero; an end that is missing or zero is the length. The streams are
/// copied, and the part goes to a file beside the recording.
pub proof fn law_cut_keeps_the_part(d: Download, action: Action)
    requires
        d.stage == Stage::Cut,
        d.asks(action),
    ensures
        action is Cut,
        ({
            let a = texts(action->Cut_args@);
            let no_end = d.job.end is None || d.job.end->0@ == "00:00:00"@;
            &&& a.len() == 10
            &&& a[0] == "-y"@
            &&& a[1] == "-i"@
            &&& a[2] == d.printed->0@
            &&& a[3] == "-ss"@
            &&& d.job.start is Some ==> a[4] == d.job.start->0@
            &&& d.job.start is None ==> clock_value(a[4]) == Some(0int)
            &&& a[5] == "-to"@
            &&& !no_end ==> a[6] == d.job.end->0@
            &&& no_end && d.duration is Some ==> clock_value(a[6]) == Some(d.duration->0 as int)
            &&& a[7] == "-c"@
            &&& a[8] == "copy"@
            &&& a[9] == marked(
                d.printed->0@,
                if d.job.kind is TwitchVideo || d.job.kind is TwitchAudio {
                    "_clip"@
                } else {
                    "_cut"@
                },
                d.job.platform,
            )
        }),
{
    lemma_zero_clock();
    if let Some(length) = d.duration {
        law_clock_text_reads_back(length);
    }
}

/// What ffmpeg wrote is what comes into the recording's place, and the recording's
/// own path is what is measured and reported.
pub proof fn law_cut_replaces_the_recording(
    cutting: Download,
    replacing: Download,
    measuring: Download,
    cut: Action,
    replace: Action,
    measure: Action,
)
    requires
        cutting.stage == Stage::Cut,
        replacing == (Download { stage: Stage::Replace, ..cutting }),
        measuring == (Download { stage: Stage::Size, ..cutting }),
        cutting.asks(cut),
        replacing.asks(replace),
        measuring.asks(measure),
    ensures
        replace is Replace,
        replace->Replace_cut@ == texts(cut->Cut_args@).last(),
        replace->Replace_file@ == texts(cut->Cut_args@)[2],
        measure is Size,
        measure->Size_file@ == replace->Replace_file@,
{
    law_cut_keeps_the_part(cutting, cut);
}

// ---------------------------------------------------------------------------
// Downloading a video
// ---------------------------------------------------------------------------
/// yt-dlp tries without end to get a recording, and gives up on a silent connection
/// after five seconds. It resumes what it began, in parts of ten megabytes, four at a
/// time; it tells its progress line by line, sets no file times, and leaves itself as
/// it is.
pub proof fn law_steady_downloads()
    ensures
        network_flags() == seq![
            "--no-mtime"@,
            "--retries"@,
            "infinite"@,
            "--fragment-retries"@,
            "infinite"@,
            "--file-access-retries"@,
            "10"@,
            "--socket-timeout"@,
            "5"@,
            "--http-chunk-size"@,
            "10M"@,
            "--concurrent-fragments"@,
            "4"@,
            "--continue"@,
            "--progress"@,
            "--newline"@,
            "--compat-options"@,
            "filename-sanitization"@,
            "--no-update"@,
        ],
{
}

/// `o`, unless it is empty.
pub open spec fn named(o: Option<String>) -> Option<Seq<char>> {
    match o {
        Some(s) if s@.len() > 0 => Some(s@),
        _ => None,
    }
}

/// A video from YouTube is selected by its quality, codecs and language, merged into
/// mkv with Opus sound and into mp4 otherwise, and taken alone. It goes to the target
/// directory under its title, by way of the directory for what is not finished, and
/// its path is written to the file that is read afterwards. If a language is asked
/// for, YouTube is asked for every sound track.
pub proof fn law_video_command(job: Job)
    requires
        job.kind is Video,
    ensures
        ({
            let opus = job.audio_codec is Some && job.audio_codec->0@ == "opus"@;
            let tmp = joined(job.out_dir@, ".flowbit-tmp"@, job.platform);
            job.flags() == seq![
                "-f"@,
                video_format(
                    job.kind->Video_0,
                    named(job.video_codec),
                    named(job.audio_codec),
                    opt_text(job.audio_lang),
                ),
                "--merge-output-format"@,
                if opus {
                    "mkv"@
                } else {
                    "mp4"@
                },
                "--no-playlist"@,
                "-P"@,
                "home:"@ + job.out_dir@,
                "-P"@,
                "temp:"@ + tmp,
            ] + (if job.audio_lang is Some && job.audio_lang->0@.len() > 0 {
                seq!["--extractor-args"@, "youtube:player_client=default,web_embedded"@]
            } else {
                seq![]
            }) + network_flags() + seq![
                "-o"@,
                "%(title)s.%(ext)s"@,
                "--print-to-file"@,
                "after_move:filepath"@,
                joined(tmp, "__filepath.txt"@, job.platform),
                job.url@,
            ]
        }),
{
    reveal_strlit("opus");
    law_containers_follow_the_sound(named(job.audio_codec));
    lemma_youtube_rest(job);
}

/// Sound from YouTube is selected by its quality, codec and language, taken out of the
/// recording in the best quality, and stored as opus or m4a where Opus or AAC was
/// asked for and as mp3 otherwise. The rest is as for a video.
pub proof fn law_audio_command(job: Job)
    requires
        job.kind is Audio,
    ensures
        ({
            let codec = named(job.audio_codec);
            let tmp = joined(job.out_dir@, ".flowbit-tmp"@, job.platform);
            job.flags() == seq![
                "-f"@,
                audio_format(job.kind->Audio_0, codec, opt_text(job.audio_lang)),
                "-x"@,
                "--audio-format"@,
                if codec == Some("opus"@) {
                    "opus"@
                } else if codec == Some("aac"@) {
                    "m4a"@
                } else {
                    "mp3"@
                },
                "--audio-quality"@,
                "0"@,
                "--no-playlist"@,
                "-P"@,
                "home:"@ + job.out_dir@,
                "-P"@,
                "temp:"@ + tmp,
            ] + (if job.audio_lang is Some && job.audio_lang->0@.len() > 0 {
                seq!["--extractor-args"@, "youtube:player_client=default,web_embedded"@]
            } else {
                seq![]
            }) + network_flags() + seq![
                "-o"@,
                "%(title)s.%(ext)s"@,
                "--print-to-file"@,
                "after_move:filepath"@,
                joined(tmp, "__filepath.txt"@, job.platform),
                job.url@,
            ]
        }),
{
    law_containers_follow_the_sound(named(job.audio_codec));
    lemma_youtube_rest(job);
}

proof fn lemma_youtube_rest(job: Job)
    ensures
        ({
            let tmp = joined(job.out_dir@, ".flowbit-tmp"@, job.platform);
            let lang = job.audio_lang is Some && job.audio_lang->0@.len() > 0;
            let multi = if lang {
                seq!["--extractor-args"@, "youtube:player_client=default,web_embedded"@]
            } else {
                seq![]
            };
            let last = seq![
                "-o"@,
                "%(title)s.%(ext)s"@,
                "--print-to-file"@,
                "after_move:filepath"@,
                joined(tmp, "__filepath.txt"@, job.platform),
                job.url@,
            ];
            forall|start: Seq<Seq<char>>|
                #[trigger] (start + job.path_flags()) + multi_audio_flags(lang) + network_flags()
                    + job.name_flags() + job.print_flags() + seq![job.url@] == (start + seq![
                    "-P"@,
                    "home:"@ + job.out_dir@,
                    "-P"@,
                    "temp:"@ + tmp,
                ]) + multi + network_flags() + last
        }),
{
    let tmp = joined(job.out_dir@, ".flowbit-tmp"@, job.platform);
    let lang = job.audio_lang is Some && job.audio_lang->0@.len() > 0;
    assert(job.path_flags() == seq!["-P"@, "home:"@ + job.out_dir@, "-P"@, "temp:"@ + tmp]);
    assert(multi_audio_flags(lang) == if lang {
        seq!["--extractor-args"@, "youtube:player_client=default,web_embedded"@]
    } else {
        seq![]
    });
}

/// A video from Twitch is selected by its quality and language. The rest is as for
/// one from YouTube.
pub proof fn law_twitch_video_command(job: Job)
    requires
        job.kind is TwitchVideo,
    ensures
        ({
            let opus = job.audio_codec is Some && job.audio_codec->0@ == "opus"@;
            let tmp = joined(job.out_dir@, ".flowbit-tmp"@, job.platform);
            job.flags() == seq![
                "-o"@,
                "%(title)s.%(ext)s"@,
                "--no-playlist"@,
                "-P"@,
                "home:"@ + job.out_dir@,
                "-P"@,
                "temp:"@ + tmp,
                "--print-to-file"@,
                "after_move:filepath"@,
                joined(tmp, "__filepath.txt"@, job.platform),
            ] + network_flags() + seq![
                "-f"@,
                twitch_video_selector(job.kind->TwitchVideo_0, opt_text(job.audio_lang)),
                "--merge-output-format"@,
                if opus {
                    "mkv"@
                } else {
                    "mp4"@
                },
                job.url@,
            ]
        }),
{
    reveal_strlit("opus");
    law_containers_follow_the_sound(named(job.audio_codec));
    lemma_twitch_start(job);
}

/// Sound from Twitch is selected by its language and taken out of the recording in
/// the best quality. The rest is as for a video.
pub proof fn law_twitch_audio_command(job: Job)
    requires
        job.kind is TwitchAudio,
    ensures
        ({
            let tmp = joined(job.out_dir@, ".flowbit-tmp"@, job.platform);
            job.flags() == seq![
                "-o"@,
                "%(title)s.%(ext)s"@,
                "--no-playlist"@,
                "-P"@,
                "home:"@ + job.out_dir@,
                "-P"@,
                "temp:"@ + tmp,
                "--print-to-file"@,
                "after_move:filepath"@,
                joined(tmp, "__filepath.txt"@, job.platform),
            ] + network_flags() + seq![
                "-f"@,
                twitch_audio_selector(opt_text(job.audio_lang)),
                "-x"@,
                "--audio-quality"@,
                "0"@,
                job.url@,
            ]
        }),
{
    lemma_twitch_start(job);
}

proof fn lemma_twitch_start(job: Job)
    ensures
        ({
            let tmp = joined(job.out_dir@, ".flowbit-tmp"@, job.platform);
            job.name_flags() + seq!["--no-playlist"@] + job.path_flags() + job.print_flags()
                == seq![
                "-o"@,
                "%(title)s.%(ext)s"@,
                "--no-playlist"@,
                "-P"@,
                "home:"@ + job.out_dir@,
                "-P"@,
                "temp:"@ + tmp,
                "--print-to-file"@,
                "after_move:filepath"@,
                joined(tmp, "__filepath.txt"@, job.platform),
            ]
        }),
{
}

/// The path is read from the very file that yt-dlp was told to write it to, which was
/// made for this run; and what is left over is removed from where yt-dlp was told to
/// put what is not finished.
pub proof fn law_path_is_read_where_it_was_written(
    d: Download,
    prepare: Action,
    read: Action,
    clean: Action,
)
    requires
        (Download { stage: Stage::Prepare, ..d }).asks(prepare),
        (Download { stage: Stage::ReadPath, ..d }).asks(read),
        (Download { stage: Stage::CleanUp, ..d }).asks(clean),
    ensures
        prepare is Prepare && read is ReadPath && clean is CleanUp,
        ({
            let tmp = joined(d.job.out_dir@, ".flowbit-tmp"@, d.job.platform);
            let file = joined(tmp, "__filepath.txt"@, d.job.platform);
            &&& prepare->Prepare_tmp_dir@ == tmp
            &&& prepare->Prepare_path_file@ == file
            &&& read->ReadPath_path_file@ == file
            &&& clean->CleanUp_out_dir@ == d.job.out_dir@
            &&& clean->CleanUp_tmp_dir@ == tmp
        }),
{
}

/// The directory that is made is the target directory, and what is asked about and
/// downloaded is the address of the job. What yt-dlp prints is shown for a video from
/// YouTube alone.
pub proof fn law_job_is_what_is_done(
    d: Download,
    make: Action,
    inform: Action,
    measure: Action,
    fetch: Action,
)
    requires
        (Download { stage: Stage::MakeDir, ..d }).asks(make),
        (Download { stage: Stage::Inform, ..d }).asks(inform),
        (Download { stage: Stage::Measure, ..d }).asks(measure),
        (Download { stage: Stage::Fetch, ..d }).asks(fetch),
    ensures
        make is MakeDir && make->MakeDir_dir@ == d.job.out_dir@,
        inform is Inform && inform->Inform_url@ == d.job.url@,
        measure is Measure && measure->Measure_url@ == d.job.url@,
        fetch is Fetch && texts(fetch->Fetch_args@) == d.job.flags(),
        fetch->Fetch_stream <==> d.job.kind is Video,
        fetch->Fetch_label@ == match d.job.kind {
            JobKind::Video(_) => "Failed to run yt-dlp"@,
            JobKind::Audio(_) => "yt-dlp error:"@,
            JobKind::TwitchVideo(_) | JobKind::TwitchAudio => "yt-dlp failed:"@,
        },
{
}

/// A cut is announced as one of a video, of sound or of a stream.
pub proof fn law_cut_is_announced(d: Download, action: Action)
    requires
        d.stage == Stage::Cut,
        d.asks(action),
    ensures
        action is Cut,
        action->Cut_notice@ == match d.job.kind {
            JobKind::Video(_) => "[ffmpeg] Trimming video\u{2026}"@,
            JobKind::Audio(_) => "[ffmpeg] Trimming audio\u{2026}"@,
            JobKind::TwitchVideo(_) | JobKind::TwitchAudio =>
                "[ffmpeg] Clipping stream\u{2026}"@,
        },
{
}

/// A job can be done exactly if its start and its end, as far as they are clock times,
/// can be counted in seconds of 64 bits.
pub proof fn law_what_jobs_can_be_done(job: Job)
    ensures
        job.wf() <==> (job.start is Some && clock_value(job.start->0@) is Some ==> clock_value(
            job.start->0@,
        )->0 <= u64::MAX) && (job.end is Some && clock_value(job.end->0@) is Some ==> clock_value(
            job.end->0@,
        )->0 <= u64::MAX),
{
}

// ---------------------------------------------------------------------------
// Downloading a playlist
// ---------------------------------------------------------------------------
/// A playlist is downloaded whole, into a directory under its title, each video under
/// its number and title. Of each video the sound is taken as mp3 in audio mode, and
/// picture and sound are merged into mp4 otherwise.
pub proof fn law_playlist_command(job: PlaylistJob)
    ensures
        ({
            let tmp = joined(job.base_dir@, ".flowbit-tmp"@, job.platform);
            let f = job.flags();
            let selection = f.subrange(27, f.len() - 1);
            &&& f.take(8) == seq![
                "--yes-playlist"@,
                "--no-warnings"@,
                "-P"@,
                "home:"@ + job.base_dir@,
                "-P"@,
                "temp:"@ + tmp,
                "-o"@,
                "%(playlist_title)s/%(playlist_index)02d - %(title)s.%(ext)s"@,
            ]
            &&& f.subrange(8, 27) == network_flags()
            &&& f.last() == job.url@
            &&& job.mode == Some(DownloadMode::Audio) ==> f.len() == 35 && selection[0] == "-f"@
                && selection.skip(2) == seq![
                "-x"@,
                "--audio-format"@,
                "mp3"@,
                "--audio-quality"@,
                "0"@,
            ]
            &&& job.mode != Some(DownloadMode::Audio) ==> f.len() == 32 && selection[0] == "-f"@
                && selection.skip(2) == seq!["--merge-output-format"@, "mp4"@]
        }),
{
    let f = job.flags();
    let s = job.selection();
    assert(network_flags().len() == 19);
    assert(f.take(8) == seq![
        "--yes-playlist"@,
        "--no-warnings"@,
        "-P"@,
        "home:"@ + job.base_dir@,
        "-P"@,
        "temp:"@ + joined(job.base_dir@, ".flowbit-tmp"@, job.platform),
        "-o"@,
        "%(playlist_title)s/%(playlist_index)02d - %(title)s.%(ext)s"@,
    ]);
    assert(f.subrange(8, 27) == network_flags());
    assert(f.subrange(27, f.len() - 1) == s);
    if job.mode == Some(DownloadMode::Audio) {
        assert(s.skip(2) == seq![
            "-x"@,
            "--audio-format"@,
            "mp3"@,
            "--audio-quality"@,
            "0"@,
        ]);
    } else {
        assert(s.skip(2) == seq!["--merge-output-format"@, "mp4"@]);
    }
}

/// What stands behind `-f` for the videos of a playlist limits their height to 1080,
/// 720 or 480 lines if the quality is high, medium or low, in every wish but the last;
/// for the best, which also stands in for a missing quality, and for the worst it says
/// nothing of the height. Only the worst asks for the worst.
pub proof fn law_playlist_height(job: PlaylistJob)
    requires
        job.mode != Some(DownloadMode::Audio),
    ensures
        ({
            let w = split(job.flags()[28], '/');
            &&& job.flags()[27] == "-f"@
            &&& w.len() >= 3
            &&& no_height(w.last())
            &&& forall|i: int|
                0 <= i < w.len() - 1 ==> match job.quality {
                    Some(Quality::High) => only_height(#[trigger] w[i], "[height<=1080]"@),
                    Some(Quality::Medium) => only_height(w[i], "[height<=720]"@),
                    Some(Quality::Low) => only_height(w[i], "[height<=480]"@),
                    Some(Quality::Best) | Some(Quality::Worst) | None => no_height(w[i]),
                }
            &&& job.flags()[28].contains('w') <==> job.quality == Some(Quality::Worst)
        }),
{
    let q = match job.quality {
        Some(q) => q,
        None => Quality::Best,
    };
    assert(network_flags().len() == 19);
    assert(job.flags()[27] == job.selection()[0]);
    assert(job.flags()[28] == job.selection()[1]);
    law_height_follows_the_quality(q);
}

/// What stands behind `-f` for the sound of a playlist limits its bitrate to 160, 80 or
/// 50 kbit/s if the quality is high, medium or low.
pub proof fn law_playlist_bitrate(job: PlaylistJob)
    requires
        job.mode == Some(DownloadMode::Audio),
    ensures
        job.flags()[27] == "-f"@,
        job.flags()[28] == match job.quality {
            None => "bestaudio"@,
            Some(Quality::Best) => "ba"@,
            Some(Quality::High) => "ba[abr<=160]/ba"@,
            Some(Quality::Medium) => "ba[abr<=80]/ba"@,
            Some(Quality::Low) => "ba[abr<=50]/ba"@,
            Some(Quality::Worst) => "wa"@,
        },
{
    assert(network_flags().len() == 19);
    assert(job.flags()[27] == job.selection()[0]);
    assert(job.flags()[28] == job.selection()[1]);
    if let Some(q) = job.quality {
        law_bitrate_follows_the_quality(q);
    }
}

/// The directories of a playlist are made, cleaned up and looked at where the user
/// wants it, and yt-dlp is run for its address.
pub proof fn law_playlist_is_what_is_done(
    d: PlaylistDownload,
    make: PlaylistAction,
    prepare: PlaylistAction,
    fetch: PlaylistAction,
    clean: PlaylistAction,
    survey: PlaylistAction,
)
    requires
        (PlaylistDownload { stage: PlaylistStage::MakeDir, ..d }).asks(make),
        (PlaylistDownload { stage: PlaylistStage::Prepare, ..d }).asks(prepare),
        (PlaylistDownload { stage: PlaylistStage::Fetch, ..d }).asks(fetch),
        (PlaylistDownload { stage: PlaylistStage::CleanUp, ..d }).asks(clean),
        (PlaylistDownload { stage: PlaylistStage::Survey, ..d }).asks(survey),
    ensures
        make is MakeDir && make->MakeDir_dir@ == d.job.base_dir@,
        prepare is Prepare && prepare->Prepare_tmp_dir@ == joined(
            d.job.base_dir@,
            ".flowbit-tmp"@,
            d.job.platform,
        ),
        fetch is Fetch && texts(fetch->Fetch_args@) == d.job.flags(),
        fetch->Fetch_label@ == "Playlist download failed"@,
        clean is CleanUp && clean->CleanUp_dir@ == d.job.base_dir@,
        clean->CleanUp_tmp_dir@ == prepare->Prepare_tmp_dir@,
        survey is Survey && survey->Survey_dir@ == d.job.base_dir@,
{
}

// ---------------------------------------------------------------------------
// Every run of yt-dlp
// ---------------------------------------------------------------------------
/// Every run is told where ffmpeg and QuickJS are, and to print no colours.
pub proof fn law_runs_know_their_programs(ffmpeg: Seq<char>, quickjs: Seq<char>)
    ensures
        default_flags(ffmpeg, quickjs) == seq![
            "--ffmpeg-location"@,
            ffmpeg,
            "--js-runtimes"@,
            "quickjs:"@ + quickjs,
            "--color"@,
            "never"@,
        ],
{
}

/// Cookies that worked before are taken from the start, by two arguments in front,
/// unless the run takes cookies by itself; a run that is tried again takes those of
/// the first browser by two arguments at the end.
pub proof fn law_cookies_are_asked_for_by_name(
    args: Seq<Seq<char>>,
    browser: Seq<char>,
    browsers: Seq<Seq<char>>,
)
    ensures
        !args.contains("--cookies-from-browser"@) ==> with_cached_cookies(args, Some(browser))
            == seq!["--cookies-from-browser"@, browser] + args,
        args.contains("--cookies-from-browser"@) ==> with_cached_cookies(args, Some(browser))
            == args,
        with_cached_cookies(args, None) == args,
        attempt_args(args, browsers, 0) == args,
        attempt_args(args, browsers, 1) == args + seq!["--cookies-from-browser"@, browsers[0]],
{
}

/// Metadata is asked for as one document, for one video. The first attempts ask for
/// every sound track: one with the cookies that worked before, if there are any, and
/// one without; three plain attempts follow, and at last one with the cookies of the
/// first browser.
pub proof fn law_metadata_attempts(
    url: Seq<char>,
    working: Option<Seq<char>>,
    browsers: Seq<Seq<char>>,
    n: int,
)
    requires
        0 <= n <= (if working is Some {
            5
        } else {
            4int
        }),
    ensures
        ({
            let args = meta_flags(
                url,
                attempt_multi(working, n),
                match attempt_browser(working, browsers, n) {
                    Some(browser) => cookie_flags(browser),
                    None => Seq::empty(),
                },
            );
            let first = seq!["-J"@, "--no-playlist"@];
            let tracks = seq!["--extractor-args"@, "youtube:player_client=default,web_embedded"@];
            let k = if working is Some {
                n - 1
            } else {
                n
            };
            &&& k == -1 ==> args == first + tracks + seq!["--cookies-from-browser"@, working->0, url]
            &&& k == 0 ==> args == first + tracks + seq![url]
            &&& 1 <= k <= 3 ==> args == first + seq![url]
            &&& k == 4 ==> args == first + seq!["--cookies-from-browser"@, browsers[0], url]
        }),
{
    let args = meta_flags(
        url,
        attempt_multi(working, n),
        match attempt_browser(working, browsers, n) {
            Some(browser) => cookie_flags(browser),
            None => Seq::empty(),
        },
    );
    let first = seq!["-J"@, "--no-playlist"@];
    let tracks = seq!["--extractor-args"@, "youtube:player_client=default,web_embedded"@];
    let k = if working is Some {
        n - 1
    } else {
        n
    };
    if k == -1 {
        assert(args == first + tracks + seq!["--cookies-from-browser"@, working->0, url]);
    } else if k == 0 {
        assert(args == first + tracks + seq![url]);
    } else if k <= 3 {
        assert(args == first + seq![url]);
    } else {
        assert(args == first + seq!["--cookies-from-browser"@, browsers[0], url]);
    }
}

} // verus!
