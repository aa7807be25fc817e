//! In which order things are done, and what is reported when they fail.
use crate::functions::cancel::{child_follows, CancelState, ChildAction, ChildEvent};
use crate::functions::dependencies::{
    install_fits, install_follows, InstallEvent, InstallStage, InstallStep,
};
use crate::functions::download::{
    first_place, reply_fits, target_dir, Download, JobKind, Progress, Reply, Stage,
};
use crate::functions::meta::asks_again;
use crate::functions::output::is_bot_check;
use crate::functions::playlist::{
    is_newest, playlist_reply_fits, PlaylistDownload, PlaylistProgress, PlaylistReply,
    PlaylistStage,
};
use crate::functions::section::{section_differs, section_end, section_start};
use crate::functions::ytdlp::tries_again;
use crate::text::{opt_text, trim};
use vstd::prelude::*;

verus! {

// ---------------------------------------------------------------------------
// Downloading a video
// ---------------------------------------------------------------------------
/// A download makes its directory, asks Twitch about a video from there, asks for the
/// length if it was not given, prepares, runs yt-dlp, reads the path, cleans up, cuts
/// and replaces the recording if only a part is wanted, and looks up the size. On the
/// way it keeps the length, yt-dlp's success and the path as they come.
pub proof fn law_order_of_a_download(d: Download, reply: Reply, p: Progress)
    requires
        d.wf(),
        reply_fits(d.stage, reply),
        d.follows(reply, p),
        p is Next,
    ensures
        ({
            let next = p->Next_0;
            let twitch = d.job.kind is TwitchVideo || d.job.kind is TwitchAudio;
            let part = section_differs(
                section_start(opt_text(d.job.start)),
                section_end(opt_text(d.job.end), d.duration),
                d.duration,
            );
            let measured = if d.job.duration is None {
                Stage::Measure
            } else {
                Stage::Prepare
            };
            &&& next.job == d.job
            &&& next.stage == match d.stage {
                Stage::MakeDir => if twitch {
                    Stage::Inform
                } else {
                    measured
                },
                Stage::Inform => measured,
                Stage::Measure => Stage::Prepare,
                Stage::Prepare => Stage::Fetch,
                Stage::Fetch => Stage::ReadPath,
                Stage::ReadPath => Stage::CleanUp,
                Stage::CleanUp => if part {
                    Stage::Cut
                } else {
                    Stage::Size
                },
                Stage::Cut => Stage::Replace,
                Stage::Replace => Stage::Size,
                Stage::Size => next.stage,
            }
            &&& d.stage != Stage::Size
            &&& next.duration == if d.stage == Stage::Measure {
                reply->Length_0
            } else {
                d.duration
            }
            &&& next.success == if d.stage == Stage::Fetch {
                reply->Exited_success
            } else {
                d.success
            }
            &&& next.printed == if d.stage == Stage::ReadPath {
                reply->Printed_0
            } else {
                d.printed
            }
        }),
{
}

/// A download ends exactly if something fails or the size is looked up; with success
/// exactly if there is a size above zero.
pub proof fn law_end_of_a_download(d: Download, reply: Reply, p: Progress)
    requires
        d.wf(),
        reply_fits(d.stage, reply),
        d.follows(reply, p),
    ensures
        p is Finished <==> reply is Failed || d.stage == Stage::Size || d.stage == Stage::CleanUp
            && (!d.success || d.printed is None) || d.stage == Stage::Cut
            && reply->Exited_success == false,
        p is Finished && p->Finished_0 is Ok <==> d.stage == Stage::Size && reply is FileSize
            && reply->FileSize_0 > 0,
        p is Finished && p->Finished_0 is Ok ==> p->Finished_0->Ok_0.path@ == d.printed->0@
            && p->Finished_0->Ok_0.file_size == reply->FileSize_0,
{
}

/// Each failure is reported in its own words, with the cause where there is one.
pub proof fn law_failures_of_a_download(d: Download, reply: Reply, p: Progress)
    requires
        d.wf(),
        reply_fits(d.stage, reply),
        d.follows(reply, p),
        p is Finished && p->Finished_0 is Err,
    ensures
        ({
            let m = p->Finished_0->Err_0@;
            let twitch = d.job.kind is TwitchVideo || d.job.kind is TwitchAudio;
            &&& reply is Failed ==> m == (if twitch {
                Seq::empty()
            } else if d.stage == Stage::MakeDir {
                "Cannot create directory: "@
            } else if d.stage == Stage::Size {
                "Cannot read file: "@
            } else {
                Seq::empty()
            }) + reply->Failed_0@
            &&& d.stage == Stage::CleanUp && !d.success ==> m == match d.job.kind {
                JobKind::Video(_) => "Video download failed"@,
                JobKind::Audio(_) => "Audio download failed"@,
                _ => "yt-dlp failed"@,
            }
            &&& d.stage == Stage::CleanUp && d.success ==> m == if d.job.kind is Audio {
                "Cannot resolve output file path from yt-dlp"@
            } else {
                "Cannot resolve output file path"@
            }
            &&& d.stage == Stage::Cut && !(reply is Failed) ==> m == if twitch {
                "ffmpeg clipping failed"@
            } else {
                "ffmpeg trimming failed"@
            }
            &&& d.stage == Stage::Size && !(reply is Failed) ==> m == if twitch {
                "Empty file"@
            } else {
                "File is empty"@
            }
        }),
{
    if let Reply::Failed(e) = reply {
        assert(Seq::<char>::empty() + e@ == e@);
    }
}

/// A directory is made or cannot be; a length, a path and a size come as such; a program
/// ends, or cannot be run. Each stage takes what it can bring, and only that.
pub proof fn law_what_a_stage_brings(stage: Stage, reply: Reply)
    ensures
        reply_fits(stage, reply) <==> match reply {
            Reply::Done => stage == Stage::MakeDir || stage == Stage::Inform || stage
                == Stage::Prepare || stage == Stage::CleanUp || stage == Stage::Replace,
            Reply::Failed(_) => stage == Stage::MakeDir || stage == Stage::Inform || stage
                == Stage::Fetch || stage == Stage::Cut || stage == Stage::Size,
            Reply::Length(_) => stage == Stage::Measure,
            Reply::Exited { .. } => stage == Stage::Fetch || stage == Stage::Cut,
            Reply::Printed(_) => stage == Stage::ReadPath,
            Reply::FileSize(_) => stage == Stage::Size,
        },
{
}

/// Files go where the user says, unless that is blank; then to the first place that is
/// known, and to the current directory if none is.
pub proof fn law_files_go_to_the_first_place(
    path: Option<Seq<char>>,
    places: Seq<Option<Seq<char>>>,
    i: int,
)
    ensures
        path is Some && trim(path->0).len() > 0 ==> target_dir(path, places) == path->0,
        path is None || trim(path->0).len() == 0 ==> {
            &&& 0 <= i < places.len() && places[i] is Some && (forall|j: int|
                0 <= j < i ==> places[j] is None) ==> target_dir(path, places) == places[i]->0
            &&& (forall|j: int| 0 <= j < places.len() ==> places[j] is None) ==> target_dir(
                path,
                places,
            ) == "."@
        },
{
    lemma_first_place(places, i);
}

proof fn lemma_first_place(places: Seq<Option<Seq<char>>>, i: int)
    ensures
        0 <= i < places.len() && places[i] is Some && (forall|j: int|
            0 <= j < i ==> places[j] is None) ==> first_place(places) == places[i]->0,
        (forall|j: int| 0 <= j < places.len() ==> places[j] is None) ==> first_place(places) == "."@,
    decreases places.len(),
{
    if places.len() > 0 {
        lemma_first_place(places.drop_first(), i - 1);
        assert(forall|j: int|
            0 <= j < places.len() - 1 ==> places.drop_first()[j] == places[j + 1]);
    }
}

// ---------------------------------------------------------------------------
// Downloading a playlist
// ---------------------------------------------------------------------------
/// A playlist's download makes its directory, prepares, runs yt-dlp, cleans up and
/// looks what is there. It ends early if the directory cannot be made or yt-dlp cannot
/// be run, and after cleaning up if yt-dlp reported no success.
pub proof fn law_order_of_a_playlist(
    d: PlaylistDownload,
    reply: PlaylistReply,
    p: PlaylistProgress,
)
    requires
        d.wf(),
        playlist_reply_fits(d.stage, reply),
        d.follows(reply, p),
    ensures
        p is Finished <==> reply is Failed || d.stage == PlaylistStage::Survey || d.stage
            == PlaylistStage::CleanUp && !d.success,
        p is Next ==> {
            let next = p->Next_0;
            &&& next.job == d.job
            &&& d.stage == PlaylistStage::MakeDir ==> next.stage == PlaylistStage::Prepare
            &&& d.stage == PlaylistStage::Prepare ==> next.stage == PlaylistStage::Fetch
            &&& d.stage == PlaylistStage::Fetch ==> next.stage == PlaylistStage::CleanUp
            &&& d.stage == PlaylistStage::CleanUp ==> next.stage == PlaylistStage::Survey
            &&& next.success == if d.stage == PlaylistStage::Fetch {
                reply->Exited_success
            } else {
                d.success
            }
        },
        p is Finished && p->Finished_0 is Err ==> {
            let m = p->Finished_0->Err_0@;
            &&& d.stage == PlaylistStage::MakeDir ==> m == "Cannot create directory: "@
                + reply->Failed_0@
            &&& d.stage == PlaylistStage::Fetch ==> m == reply->Failed_0@
            &&& d.stage == PlaylistStage::CleanUp ==> m
                == "Playlist download failed \u{2014} check logs for details"@
        },
        p is Finished && p->Finished_0 is Ok <==> d.stage == PlaylistStage::Survey,
{
}

/// Each stage of a playlist takes what it can bring, and only that.
pub proof fn law_what_a_playlist_stage_brings(stage: PlaylistStage, reply: PlaylistReply)
    ensures
        playlist_reply_fits(stage, reply) <==> match reply {
            PlaylistReply::Done => stage == PlaylistStage::MakeDir || stage
                == PlaylistStage::Prepare || stage == PlaylistStage::CleanUp,
            PlaylistReply::Failed(_) => stage == PlaylistStage::MakeDir || stage
                == PlaylistStage::Fetch,
            PlaylistReply::Exited { .. } => stage == PlaylistStage::Fetch,
            PlaylistReply::Found { dirs, times, .. } => stage == PlaylistStage::Survey
                && dirs@.len() == times@.len(),
        },
{
}

/// What is reported of a playlist is how many files there are, and the directory that
/// was changed last, or the target directory if there is none.
pub proof fn law_newest_directory_is_reported(
    d: PlaylistDownload,
    reply: PlaylistReply,
    p: PlaylistProgress,
)
    requires
        d.wf(),
        d.stage == PlaylistStage::Survey,
        playlist_reply_fits(d.stage, reply),
        d.follows(reply, p),
    ensures
        p is Finished && p->Finished_0 is Ok,
        ({
            let result = p->Finished_0->Ok_0;
            let dirs = reply->Found_dirs@;
            let times = reply->Found_times@;
            &&& result.downloaded == reply->Found_files
            &&& result.total == reply->Found_files
            &&& dirs.len() == 0 ==> result.dir@ == d.job.base_dir@
            &&& dirs.len() > 0 ==> exists|i: int|
                0 <= i < dirs.len() && result.dir@ == (#[trigger] dirs[i])@ && forall|j: int|
                    0 <= j < dirs.len() ==> times[j] <= times[i]
        }),
{
    let dirs = reply->Found_dirs@;
    let times = reply->Found_times@;
    let result = p->Finished_0->Ok_0;
    if dirs.len() > 0 {
        let i = choose|i: int| #[trigger] is_newest(times, i) && result.dir@ == dirs[i]@;
        assert(result.dir@ == dirs[i]@);
        assert forall|j: int| 0 <= j < dirs.len() implies times[j] <= times[i] by {
            if j < i {
                assert(times[j] < times[i]);
            }
        }
    }
}

// ---------------------------------------------------------------------------
// Trying again
// ---------------------------------------------------------------------------
/// A failed run is tried again exactly if it was the first, met the anti-bot check,
/// took no cookies and was not cancelled, and there is a browser.
pub proof fn law_when_a_run_is_tried_again(
    args: Seq<Seq<char>>,
    browsers: Seq<Seq<char>>,
    n: int,
    stderr: Seq<char>,
    cancelled: bool,
)
    ensures
        tries_again(args, browsers, n, stderr, cancelled) <==> n == 0 && is_bot_check(stderr)
            && !cancelled && browsers.len() > 0 && forall|i: int|
            0 <= i < args.len() ==> args[i] != "--cookies-from-browser"@,
{
    if forall|i: int| 0 <= i < args.len() ==> args[i] != "--cookies-from-browser"@ {
        assert(!args.contains("--cookies-from-browser"@));
    } else {
        let i = choose|i: int| 0 <= i < args.len() && args[i] == "--cookies-from-browser"@;
        assert(args.contains(args[i]));
    }
}

/// Metadata is asked for four times, and once more before if there are cookies that
/// worked, whatever goes wrong; then once more with cookies if the last attempt met
/// the anti-bot check and there is a browser; and then no more.
pub proof fn law_when_metadata_is_asked_for_again(
    working: Option<Seq<char>>,
    browsers: Seq<Seq<char>>,
    n: int,
    error: Seq<char>,
)
    ensures
        ({
            let k = if working is Some {
                n - 1
            } else {
                n
            };
            &&& k < 3 ==> asks_again(working, browsers, n, error)
            &&& k == 3 ==> asks_again(working, browsers, n, error) == (is_bot_check(error)
                && browsers.len() > 0)
            &&& k > 3 ==> !asks_again(working, browsers, n, error)
        }),
{
}

// ---------------------------------------------------------------------------
// Cancelling
// ---------------------------------------------------------------------------
/// A program is waited for unless the user has cancelled; one that is cancelled is
/// killed and reported as `Download cancelled`; one that ends by itself is reported
/// with its own outcome.
pub proof fn law_what_becomes_of_a_program(
    event: ChildEvent,
    state: CancelState,
    action: ChildAction,
)
    requires
        child_follows(event, state, action),
    ensures
        action is Wait <==> event is Started && !state.requested,
        action is Kill <==> event is Cancelled || event is Started && state.requested,
        action is Kill ==> action->Kill_report@ == "Download cancelled"@,
        event is Exited ==> action->Report_0 == Ok::<bool, String>(event->Exited_success),
        event is Broken ==> action->Report_0 == Err::<bool, String>(event->Broken_0),
{
}

// ---------------------------------------------------------------------------
// Getting the programs
// ---------------------------------------------------------------------------
/// The directories are made, then it is looked whether yt-dlp and ffmpeg are there;
/// they are got if one is missing, then QuickJS, then ffprobe. Any failure ends it,
/// but for that of ffprobe, which is noted.
pub proof fn law_order_of_getting_the_programs(
    stage: InstallStage,
    event: InstallEvent,
    step: InstallStep,
)
    requires
        install_fits(stage, event),
        install_follows(stage, event, step),
    ensures
        event is Done && stage == InstallStage::LibsDir ==> step == InstallStep::Next(
            InstallStage::OutputDir,
        ),
        event is Done && stage == InstallStage::OutputDir ==> step == InstallStep::Next(
            InstallStage::Check,
        ),
        stage == InstallStage::Check ==> step == InstallStep::Next(
            if event->Present_yt_dlp && event->Present_ffmpeg {
                InstallStage::QuickJs
            } else {
                InstallStage::Binaries
            },
        ),
        event is Done && stage == InstallStage::Binaries ==> step == InstallStep::Next(
            InstallStage::QuickJs,
        ),
        event is Done && stage == InstallStage::QuickJs ==> step == InstallStep::Next(
            InstallStage::Ffprobe,
        ),
        event is Done && stage == InstallStage::Ffprobe ==> step is Ready && step->Ready_note
            is None,
        event is Failed && stage != InstallStage::Ffprobe ==> step == InstallStep::Failed(
            event->Failed_0,
        ),
        event is Failed && stage == InstallStage::Ffprobe ==> step is Ready && opt_text(
            step->Ready_note,
        ) == Some("ffprobe download failed: "@ + event->Failed_0@),
{
}

} // verus!
