//! A download from its first step to its last: what is asked of yt-dlp and
//! ffmpeg, in which order, and what the user is told.
use crate::functions::formats::{
    audio_file_format, audio_format, build_audio_format, build_video_format, container_of, filled,
    merge_container, non_empty, out_audio_format, video_format, Quality,
};
use crate::functions::meta::{multi_audio_flags, push_multi_audio};
use crate::functions::section::{
    opt_clock_fits, plan_section, section_differs, section_end, section_start,
};
use crate::functions::twitch::{
    twitch_audio_format, twitch_audio_selector, twitch_video_format, twitch_video_selector,
    TwitchQuality,
};
use crate::functions::ytdlp::{network_args, network_flags};
use crate::paths::{join_path, joined, marked, marked_path};
use crate::platform::Platform;
use crate::text::{cat, extend_texts, opt_str, opt_text, push_text, texts, trim, trim_text};
use vstd::prelude::*;

verus! {

// ---------------------------------------------------------------------------
// What is to be downloaded
// ---------------------------------------------------------------------------
/// Where from, and what of it.
#[derive(Clone, Copy, Debug, PartialEq, Eq, Structural)]
pub enum JobKind {
    Video(Quality),
    Audio(Quality),
    TwitchVideo(TwitchQuality),
    TwitchAudio,
}

/// What the user asks for.
pub struct Job {
    pub kind: JobKind,
    pub url: String,
    pub out_dir: String,
    pub start: Option<String>,
    pub end: Option<String>,
    pub duration: Option<u64>,
    pub audio_lang: Option<String>,
    pub video_codec: Option<String>,
    pub audio_codec: Option<String>,
    pub platform: Platform,
}

/// What was downloaded.
pub struct DownloadResult {
    pub path: String,
    /// In bytes.
    pub file_size: u64,
}

/// Where files go: where the user says, unless that is blank; otherwise to the
/// first place that the system knows, and failing all to the current directory.
pub open spec fn target_dir(
    path: Option<Seq<char>>,
    places: Seq<Option<Seq<char>>>,
) -> Seq<char> {
    match path {
        Some(p) => if trim(p).len() > 0 {
            p
        } else {
            first_place(places)
        },
        None => first_place(places),
    }
}

/// The first place that is known, or the current directory.
pub open spec fn first_place(places: Seq<Option<Seq<char>>>) -> Seq<char>
    decreases places.len(),
{
    if places.len() == 0 {
        "."@
    } else {
        match places[0] {
            Some(p) => p,
            None => first_place(places.drop_first()),
        }
    }
}

/// Where files go: where the user says, or to the system's place for downloads, to
/// the user's, to the application's data, to the current directory.
pub fn resolve_out_dir(
    path: Option<String>,
    system_downloads: Option<String>,
    user_downloads: Option<String>,
    app_data: Option<String>,
    current: Option<String>,
) -> (r: String)
    ensures
        r@ == target_dir(
            opt_text(path),
            seq![
                opt_text(system_downloads),
                opt_text(user_downloads),
                opt_text(app_data),
                opt_text(current),
            ],
        ),
{
    proof {
        reveal_with_fuel(first_place, 5);
        let places = seq![
            opt_text(system_downloads),
            opt_text(user_downloads),
            opt_text(app_data),
            opt_text(current),
        ];
        assert(places.drop_first() == seq![
            opt_text(user_downloads),
            opt_text(app_data),
            opt_text(current),
        ]);
        assert(places.drop_first().drop_first() == seq![opt_text(app_data), opt_text(current)]);
        assert(places.drop_first().drop_first().drop_first() == seq![opt_text(current)]);
        assert(places.drop_first().drop_first().drop_first().drop_first().len() == 0);
    }
    if let Some(p) = path {
        if !trim_text(p.as_str()).as_str().is_empty() {
            return p;
        }
    }
    if let Some(p) = system_downloads {
        return p;
    }
    if let Some(p) = user_downloads {
        return p;
    }
    if let Some(p) = app_data {
        return p;
    }
    match current {
        Some(p) => p,
        None => ".".to_owned(),
    }
}

/// A handle that the application keeps for its downloads.
#[derive(Clone, Copy, Debug, PartialEq, Eq, Structural)]
pub struct DownloadState;

impl DownloadState {
    /// The handle.
    pub fn new() -> (r: DownloadState)
        ensures
            r == DownloadState,
    {
        DownloadState
    }
}

/// `o` as a slice.
fn slice(o: &Option<String>) -> (r: Option<&str>)
    ensures
        opt_str(r) == opt_text(*o),
{
    match o {
        Some(s) => Some(s.as_str()),
        None => None,
    }
}

impl JobKind {
    /// It comes from Twitch.
    pub open spec fn from_twitch(self) -> bool {
        self is TwitchVideo || self is TwitchAudio
    }

    /// Whether it comes from Twitch.
    pub fn is_twitch(&self) -> (r: bool)
        ensures
            r == self.from_twitch(),
    {
        match self {
            JobKind::TwitchVideo(_) | JobKind::TwitchAudio => true,
            _ => false,
        }
    }
}

impl Job {
    /// The times are such that their seconds can be counted.
    pub open spec fn wf(self) -> bool {
        opt_clock_fits(opt_text(self.start)) && opt_clock_fits(opt_text(self.end))
    }

    /// The directory of what is not finished yet.
    pub open spec fn tmp_dir_spec(self) -> Seq<char> {
        joined(self.out_dir@, ".flowbit-tmp"@, self.platform)
    }

    /// The file that yt-dlp writes the path of the finished file to.
    pub open spec fn path_file_spec(self) -> Seq<char> {
        joined(self.tmp_dir_spec(), "__filepath.txt"@, self.platform)
    }

    /// The directory of what is not finished yet.
    pub fn tmp_dir(&self) -> (r: String)
        ensures
            r@ == self.tmp_dir_spec(),
    {
        join_path(self.out_dir.as_str(), ".flowbit-tmp", self.platform)
    }

    /// The file that yt-dlp writes the path of the finished file to.
    pub fn path_file(&self) -> (r: String)
        ensures
            r@ == self.path_file_spec(),
    {
        join_path(self.tmp_dir().as_str(), "__filepath.txt", self.platform)
    }

    /// The flags that tell yt-dlp where its files go.
    pub open spec fn path_flags(self) -> Seq<Seq<char>> {
        seq!["-P"@, "home:"@ + self.out_dir@, "-P"@, "temp:"@ + self.tmp_dir_spec()]
    }

    /// The flags that tell yt-dlp how to name the file.
    pub open spec fn name_flags(self) -> Seq<Seq<char>> {
        seq!["-o"@, "%(title)s.%(ext)s"@]
    }

    /// The flags that tell yt-dlp where to write the file's path.
    pub open spec fn print_flags(self) -> Seq<Seq<char>> {
        seq!["--print-to-file"@, "after_move:filepath"@, self.path_file_spec()]
    }

    /// The arguments for yt-dlp.
    pub open spec fn flags(self) -> Seq<Seq<char>> {
        let lang = opt_text(self.audio_lang);
        let vcodec = non_empty(opt_text(self.video_codec));
        let acodec = non_empty(opt_text(self.audio_codec));
        let multi = multi_audio_flags(non_empty(lang) is Some);
        match self.kind {
            JobKind::Video(q) => seq![
                "-f"@,
                video_format(q, vcodec, acodec, lang),
                "--merge-output-format"@,
                container_of(acodec),
                "--no-playlist"@,
            ] + self.path_flags() + multi + network_flags() + self.name_flags()
                + self.print_flags() + seq![self.url@],
            JobKind::Audio(q) => seq![
                "-f"@,
                audio_format(q, acodec, lang),
                "-x"@,
                "--audio-format"@,
                audio_file_format(acodec),
                "--audio-quality"@,
                "0"@,
                "--no-playlist"@,
            ] + self.path_flags() + multi + network_flags() + self.name_flags()
                + self.print_flags() + seq![self.url@],
            JobKind::TwitchVideo(q) => self.name_flags() + seq!["--no-playlist"@]
                + self.path_flags() + self.print_flags() + network_flags() + seq![
                "-f"@,
                twitch_video_selector(q, lang),
                "--merge-output-format"@,
                container_of(acodec),
            ] + seq![self.url@],
            JobKind::TwitchAudio => self.name_flags() + seq!["--no-playlist"@]
                + self.path_flags() + self.print_flags() + network_flags() + seq![
                "-f"@,
                twitch_audio_selector(lang),
                "-x"@,
                "--audio-quality"@,
                "0"@,
            ] + seq![self.url@],
        }
    }

    /// Adds the flags that tell yt-dlp where its files go.
    fn push_paths(&self, args: &mut Vec<String>)
        ensures
            texts(final(args)@) == texts(old(args)@) + self.path_flags(),
    {
        push_text(args, "-P");
        push_text(args, cat("home:", self.out_dir.as_str()).as_str());
        push_text(args, "-P");
        push_text(args, cat("temp:", self.tmp_dir().as_str()).as_str());
        assert(texts(args@) == texts(old(args)@) + self.path_flags());
    }

    /// Adds the flags that tell yt-dlp how to name the file.
    fn push_name(&self, args: &mut Vec<String>)
        ensures
            texts(final(args)@) == texts(old(args)@) + self.name_flags(),
    {
        push_text(args, "-o");
        push_text(args, "%(title)s.%(ext)s");
        assert(texts(args@) == texts(old(args)@) + self.name_flags());
    }

    /// Adds the flags that tell yt-dlp where to write the file's path.
    fn push_print(&self, args: &mut Vec<String>)
        ensures
            texts(final(args)@) == texts(old(args)@) + self.print_flags(),
    {
        push_text(args, "--print-to-file");
        push_text(args, "after_move:filepath");
        push_text(args, self.path_file().as_str());
        assert(texts(args@) == texts(old(args)@) + self.print_flags());
    }

    /// What follows the selector in a download from YouTube.
    fn push_youtube_rest(&self, args: &mut Vec<String>)
        ensures
            texts(final(args)@) == texts(old(args)@) + self.path_flags() + multi_audio_flags(
                non_empty(opt_text(self.audio_lang)) is Some,
            ) + network_flags() + self.name_flags() + self.print_flags() + seq![self.url@],
    {
        self.push_paths(args);
        push_multi_audio(args, filled(slice(&self.audio_lang)).is_some());
        extend_texts(args, &network_args());
        self.push_name(args);
        self.push_print(args);
        push_text(args, self.url.as_str());
    }

    /// What precedes the selector in a download from Twitch.
    fn push_twitch_start(&self, args: &mut Vec<String>)
        ensures
            texts(final(args)@) == texts(old(args)@) + self.name_flags() + seq!["--no-playlist"@]
                + self.path_flags() + self.print_flags() + network_flags(),
    {
        self.push_name(args);
        push_text(args, "--no-playlist");
        assert(texts(args@) == texts(old(args)@) + self.name_flags() + seq!["--no-playlist"@]);
        self.push_paths(args);
        self.push_print(args);
        extend_texts(args, &network_args());
    }

    /// The arguments for yt-dlp.
    pub fn arguments(&self) -> (r: Vec<String>)
        ensures
            texts(r@) == self.flags(),
    {
        let vcodec = filled(slice(&self.video_codec));
        let acodec = filled(slice(&self.audio_codec));
        let lang = slice(&self.audio_lang);
        let mut args: Vec<String> = Vec::new();
        let ghost none: Seq<Seq<char>> = Seq::empty();
        assert(texts(args@) == none);
        match self.kind {
            JobKind::Video(q) => {
                push_text(&mut args, "-f");
                push_text(&mut args, build_video_format(q, vcodec, acodec, lang).as_str());
                push_text(&mut args, "--merge-output-format");
                push_text(&mut args, merge_container(acodec));
                push_text(&mut args, "--no-playlist");
                assert(texts(args@) == seq![
                    "-f"@,
                    video_format(
                        q,
                        non_empty(opt_text(self.video_codec)),
                        non_empty(opt_text(self.audio_codec)),
                        opt_text(self.audio_lang),
                    ),
                    "--merge-output-format"@,
                    container_of(non_empty(opt_text(self.audio_codec))),
                    "--no-playlist"@,
                ]);
                self.push_youtube_rest(&mut args);
            },
            JobKind::Audio(q) => {
                push_text(&mut args, "-f");
                push_text(&mut args, build_audio_format(q, acodec, lang).as_str());
                push_text(&mut args, "-x");
                push_text(&mut args, "--audio-format");
                push_text(&mut args, out_audio_format(acodec));
                push_text(&mut args, "--audio-quality");
                push_text(&mut args, "0");
                push_text(&mut args, "--no-playlist");
                assert(texts(args@) == seq![
                    "-f"@,
                    audio_format(
                        q,
                        non_empty(opt_text(self.audio_codec)),
                        opt_text(self.audio_lang),
                    ),
                    "-x"@,
                    "--audio-format"@,
                    audio_file_format(non_empty(opt_text(self.audio_codec))),
                    "--audio-quality"@,
                    "0"@,
                    "--no-playlist"@,
                ]);
                self.push_youtube_rest(&mut args);
            },
            JobKind::TwitchVideo(q) => {
                self.push_twitch_start(&mut args);
                let ghost start = texts(args@);
                push_text(&mut args, "-f");
                push_text(&mut args, twitch_video_format(q, lang).as_str());
                push_text(&mut args, "--merge-output-format");
                push_text(&mut args, merge_container(acodec));
                assert(texts(args@) == start + seq![
                    "-f"@,
                    twitch_video_selector(q, opt_text(self.audio_lang)),
                    "--merge-output-format"@,
                    container_of(non_empty(opt_text(self.audio_codec))),
                ]);
                push_text(&mut args, self.url.as_str());
                assert(none + self.name_flags() == self.name_flags());
            },
            JobKind::TwitchAudio => {
                self.push_twitch_start(&mut args);
                let ghost start = texts(args@);
                push_text(&mut args, "-f");
                push_text(&mut args, twitch_audio_format(lang).as_str());
                push_text(&mut args, "-x");
                push_text(&mut args, "--audio-quality");
                push_text(&mut args, "0");
                assert(texts(args@) == start + seq![
                    "-f"@,
                    twitch_audio_selector(opt_text(self.audio_lang)),
                    "-x"@,
                    "--audio-quality"@,
                    "0"@,
                ]);
                push_text(&mut args, self.url.as_str());
                assert(none + self.name_flags() == self.name_flags());
            },
        }
        args
    }
}

// ---------------------------------------------------------------------------
// The messages
// ---------------------------------------------------------------------------
impl JobKind {
    /// How a run of yt-dlp that cannot be started is reported.
    pub open spec fn label_spec(self) -> Seq<char> {
        match self {
            JobKind::Video(_) => "Failed to run yt-dlp"@,
            JobKind::Audio(_) => "yt-dlp error:"@,
            _ => "yt-dlp failed:"@,
        }
    }

    /// How a directory that cannot be made is reported.
    pub open spec fn no_directory(self, error: Seq<char>) -> Seq<char> {
        if self.from_twitch() {
            error
        } else {
            "Cannot create directory: "@ + error
        }
    }

    /// How a failure of yt-dlp is reported.
    pub open spec fn no_download(self) -> Seq<char> {
        match self {
            JobKind::Video(_) => "Video download failed"@,
            JobKind::Audio(_) => "Audio download failed"@,
            _ => "yt-dlp failed"@,
        }
    }

    /// How it is reported that yt-dlp wrote no path.
    pub open spec fn no_path(self) -> Seq<char> {
        match self {
            JobKind::Audio(_) => "Cannot resolve output file path from yt-dlp"@,
            _ => "Cannot resolve output file path"@,
        }
    }

    /// How a failure of ffmpeg is reported.
    pub open spec fn no_cut(self) -> Seq<char> {
        if self.from_twitch() {
            "ffmpeg clipping failed"@
        } else {
            "ffmpeg trimming failed"@
        }
    }

    /// How a finished file that cannot be read is reported.
    pub open spec fn no_file(self, error: Seq<char>) -> Seq<char> {
        if self.from_twitch() {
            error
        } else {
            "Cannot read file: "@ + error
        }
    }

    /// How a finished file that is empty is reported.
    pub open spec fn nothing(self) -> Seq<char> {
        if self.from_twitch() {
            "Empty file"@
        } else {
            "File is empty"@
        }
    }

    /// What marks the name of a cut.
    pub open spec fn mark(self) -> Seq<char> {
        if self.from_twitch() {
            "_clip"@
        } else {
            "_cut"@
        }
    }

    /// The line of the log that announces the cut.
    pub open spec fn notice_spec(self) -> Seq<char> {
        match self {
            JobKind::Video(_) => "[ffmpeg] Trimming video\u{2026}"@,
            JobKind::Audio(_) => "[ffmpeg] Trimming audio\u{2026}"@,
            _ => "[ffmpeg] Clipping stream\u{2026}"@,
        }
    }
}

// ---------------------------------------------------------------------------
// Step by step
// ---------------------------------------------------------------------------
/// What a download is doing.
#[derive(Clone, Copy, Debug, PartialEq, Eq, Structural)]
pub enum Stage {
    /// The target directory is being made.
    MakeDir,
    /// It is being asked what is known of the video.
    Inform,
    /// The length is being asked for.
    Measure,
    /// The directory of what is not finished is being made.
    Prepare,
    /// yt-dlp is running.
    Fetch,
    /// The path that yt-dlp wrote is being read.
    ReadPath,
    /// What is left over is being removed.
    CleanUp,
    /// ffmpeg is running.
    Cut,
    /// The cut is being put in the file's place.
    Replace,
    /// The file's size is being looked up.
    Size,
}

/// A download under way.
pub struct Download {
    pub job: Job,
    pub stage: Stage,
    /// The length of the recording, as far as it is known.
    pub duration: Option<u64>,
    /// Whether yt-dlp reported success.
    pub success: bool,
    /// The path that yt-dlp wrote.
    pub printed: Option<String>,
}

/// What is to be done next.
pub enum Action {
    MakeDir { dir: String },
    Inform { url: String },
    Measure { url: String },
    Prepare { tmp_dir: String, path_file: String },
    /// With `stream`, what yt-dlp prints is shown in the log.
    Fetch { args: Vec<String>, label: String, stream: bool },
    ReadPath { path_file: String },
    CleanUp { out_dir: String, tmp_dir: String },
    Cut { args: Vec<String>, notice: String },
    Replace { file: String, cut: String },
    Size { file: String },
}

/// What came of it.
pub enum Reply {
    Done,
    Failed(String),
    Length(Option<u64>),
    Exited { success: bool },
    Printed(Option<String>),
    FileSize(u64),
}

/// How it goes on.
pub enum Progress {
    Next(Download),
    Finished(Result<DownloadResult, String>),
}

/// The reply is one that the stage can bring.
pub open spec fn reply_fits(stage: Stage, reply: Reply) -> bool {
    match stage {
        Stage::MakeDir | Stage::Inform => reply is Done || reply is Failed,
        Stage::Measure => reply is Length,
        Stage::Prepare | Stage::CleanUp | Stage::Replace => reply is Done,
        Stage::Fetch | Stage::Cut => reply is Exited || reply is Failed,
        Stage::ReadPath => reply is Printed,
        Stage::Size => reply is FileSize || reply is Failed,
    }
}

/// Whether the reply is one that the stage can bring.
pub fn fits(stage: Stage, reply: &Reply) -> (r: bool)
    ensures
        r == reply_fits(stage, *reply),
{
    match (stage, reply) {
        (Stage::MakeDir, Reply::Done) | (Stage::MakeDir, Reply::Failed(_)) => true,
        (Stage::Inform, Reply::Done) | (Stage::Inform, Reply::Failed(_)) => true,
        (Stage::Measure, Reply::Length(_)) => true,
        (Stage::Prepare, Reply::Done) => true,
        (Stage::CleanUp, Reply::Done) => true,
        (Stage::Replace, Reply::Done) => true,
        (Stage::Fetch, Reply::Exited { .. }) | (Stage::Fetch, Reply::Failed(_)) => true,
        (Stage::Cut, Reply::Exited { .. }) | (Stage::Cut, Reply::Failed(_)) => true,
        (Stage::ReadPath, Reply::Printed(_)) => true,
        (Stage::Size, Reply::FileSize(_)) | (Stage::Size, Reply::Failed(_)) => true,
        _ => false,
    }
}

impl Download {
    /// The job makes sense, and from yt-dlp's path on there is one.
    pub open spec fn wf(self) -> bool {
        &&& self.job.wf()
        &&& self.stage is Cut || self.stage is Replace || self.stage is Size ==> self.success
            && self.printed is Some
        &&& self.stage is Inform ==> self.job.kind.from_twitch()
        &&& self.stage is Measure ==> self.job.duration is None
        &&& self.job.duration is Some ==> self.duration == self.job.duration
    }

    /// Where the wanted part begins.
    pub open spec fn start(self) -> Seq<char> {
        section_start(opt_text(self.job.start))
    }

    /// Where the wanted part ends.
    pub open spec fn end(self) -> Seq<char> {
        section_end(opt_text(self.job.end), self.duration)
    }

    /// Only a part of the recording is wanted.
    pub open spec fn cuts(self) -> bool {
        section_differs(self.start(), self.end(), self.duration)
    }

    /// The path of the cut.
    pub open spec fn cut_path(self) -> Seq<char> {
        marked(self.printed->0@, self.job.kind.mark(), self.job.platform)
    }

    /// The arguments for ffmpeg.
    pub open spec fn cut_flags(self) -> Seq<Seq<char>> {
        seq![
            "-y"@,
            "-i"@,
            self.printed->0@,
            "-ss"@,
            self.start(),
            "-to"@,
            self.end(),
            "-c"@,
            "copy"@,
            self.cut_path(),
        ]
    }

    /// `action` is what the stage asks for.
    pub open spec fn asks(self, action: Action) -> bool {
        match self.stage {
            Stage::MakeDir => action matches Action::MakeDir { dir } && dir@ == self.job.out_dir@,
            Stage::Inform => action matches Action::Inform { url } && url@ == self.job.url@,
            Stage::Measure => action matches Action::Measure { url } && url@ == self.job.url@,
            Stage::Prepare => action matches Action::Prepare { tmp_dir, path_file } && tmp_dir@
                == self.job.tmp_dir_spec() && path_file@ == self.job.path_file_spec(),
            Stage::Fetch => action matches Action::Fetch { args, label, stream } && texts(args@)
                == self.job.flags() && label@ == self.job.kind.label_spec() && stream == (
            self.job.kind is Video),
            Stage::ReadPath => action matches Action::ReadPath { path_file } && path_file@
                == self.job.path_file_spec(),
            Stage::CleanUp => action matches Action::CleanUp { out_dir, tmp_dir } && out_dir@
                == self.job.out_dir@ && tmp_dir@ == self.job.tmp_dir_spec(),
            Stage::Cut => action matches Action::Cut { args, notice } && texts(args@)
                == self.cut_flags() && notice@ == self.job.kind.notice_spec(),
            Stage::Replace => action matches Action::Replace { file, cut } && file@
                == self.printed->0@ && cut@ == self.cut_path(),
            Stage::Size => action matches Action::Size { file } && file@ == self.printed->0@,
        }
    }

    /// `p` goes on at `stage`, with nothing else changed.
    pub open spec fn goes_to(self, stage: Stage, p: Progress) -> bool {
        p == Progress::Next(Download { stage, ..self })
    }

    /// `p` is the end, with the given message.
    pub open spec fn fails(self, message: Seq<char>, p: Progress) -> bool {
        p matches Progress::Finished(Err(e)) && e@ == message
    }

    /// Where it goes on when all is known of the video but perhaps its length.
    pub open spec fn after_inform(self) -> Stage {
        if self.job.duration is Some {
            Stage::Prepare
        } else {
            Stage::Measure
        }
    }

    /// `p` follows `reply`.
    pub open spec fn follows(self, reply: Reply, p: Progress) -> bool {
        let kind = self.job.kind;
        match self.stage {
            Stage::MakeDir => match reply {
                Reply::Failed(e) => self.fails(kind.no_directory(e@), p),
                _ => self.goes_to(
                    if kind.from_twitch() {
                        Stage::Inform
                    } else {
                        self.after_inform()
                    },
                    p,
                ),
            },
            Stage::Inform => match reply {
                Reply::Failed(e) => self.fails(e@, p),
                _ => self.goes_to(self.after_inform(), p),
            },
            Stage::Measure => reply matches Reply::Length(duration) && p == Progress::Next(
                (Download { stage: Stage::Prepare, duration, ..self }),
            ),
            Stage::Prepare => self.goes_to(Stage::Fetch, p),
            Stage::Fetch => match reply {
                Reply::Failed(e) => self.fails(e@, p),
                _ => reply matches Reply::Exited { success } && p == Progress::Next(
                    (Download { stage: Stage::ReadPath, success, ..self }),
                ),
            },
            Stage::ReadPath => reply matches Reply::Printed(printed) && p == Progress::Next(
                (Download { stage: Stage::CleanUp, printed, ..self }),
            ),
            Stage::CleanUp => if !self.success {
                self.fails(kind.no_download(), p)
            } else if self.printed is None {
                self.fails(kind.no_path(), p)
            } else if self.cuts() {
                self.goes_to(Stage::Cut, p)
            } else {
                self.goes_to(Stage::Size, p)
            },
            Stage::Cut => match reply {
                Reply::Failed(e) => self.fails(e@, p),
                _ => reply matches Reply::Exited { success } && if success {
                    self.goes_to(Stage::Replace, p)
                } else {
                    self.fails(kind.no_cut(), p)
                },
            },
            Stage::Replace => self.goes_to(Stage::Size, p),
            Stage::Size => match reply {
                Reply::Failed(e) => self.fails(kind.no_file(e@), p),
                _ => reply matches Reply::FileSize(size) && if size == 0 {
                    self.fails(kind.nothing(), p)
                } else {
                    p matches Progress::Finished(Ok(result)) && result.path@ == self.printed->0@
                        && result.file_size == size
                },
            },
        }
    }

    /// A download that has yet to begin.
    pub fn begin(job: Job) -> (r: Download)
        requires
            job.wf(),
        ensures
            r.wf(),
            r.job == job,
            r.stage == Stage::MakeDir,
            r.duration == job.duration,
            !r.success,
            r.printed is None,
    {
        let duration = job.duration;
        Download { job, stage: Stage::MakeDir, duration, success: false, printed: None }
    }

    /// What is to be done next.
    pub fn action(&self) -> (r: Action)
        requires
            self.wf(),
        ensures
            self.asks(r),
    {
        match self.stage {
            Stage::MakeDir => Action::MakeDir { dir: self.job.out_dir.clone() },
            Stage::Inform => Action::Inform { url: self.job.url.clone() },
            Stage::Measure => Action::Measure { url: self.job.url.clone() },
            Stage::Prepare => Action::Prepare {
                tmp_dir: self.job.tmp_dir(),
                path_file: self.job.path_file(),
            },
            Stage::Fetch => {
                let (label, stream) = match self.job.kind {
                    JobKind::Video(_) => ("Failed to run yt-dlp", true),
                    JobKind::Audio(_) => ("yt-dlp error:", false),
                    _ => ("yt-dlp failed:", false),
                };
                Action::Fetch { args: self.job.arguments(), label: label.to_owned(), stream }
            },
            Stage::ReadPath => Action::ReadPath { path_file: self.job.path_file() },
            Stage::CleanUp => Action::CleanUp {
                out_dir: self.job.out_dir.clone(),
                tmp_dir: self.job.tmp_dir(),
            },
            Stage::Cut => {
                let notice = match self.job.kind {
                    JobKind::Video(_) => "[ffmpeg] Trimming video\u{2026}",
                    JobKind::Audio(_) => "[ffmpeg] Trimming audio\u{2026}",
                    _ => "[ffmpeg] Clipping stream\u{2026}",
                };
                Action::Cut { args: self.cut_arguments(), notice: notice.to_owned() }
            },
            Stage::Replace => Action::Replace { file: self.file(), cut: self.cut_file() },
            Stage::Size => Action::Size { file: self.file() },
        }
    }

    /// The path that yt-dlp wrote.
    fn file(&self) -> (r: String)
        requires
            self.printed is Some,
        ensures
            r@ == self.printed->0@,
    {
        match &self.printed {
            Some(p) => p.clone(),
            None => String::new(),
        }
    }

    /// The path of the cut.
    fn cut_file(&self) -> (r: String)
        requires
            self.printed is Some,
        ensures
            r@ == self.cut_path(),
    {
        let mark = if self.job.kind.is_twitch() {
            "_clip"
        } else {
            "_cut"
        };
        marked_path(self.file().as_str(), mark, self.job.platform)
    }

    /// The arguments for ffmpeg.
    fn cut_arguments(&self) -> (r: Vec<String>)
        requires
            self.wf(),
            self.printed is Some,
        ensures
            texts(r@) == self.cut_flags(),
    {
        let section = plan_section(slice(&self.job.start), slice(&self.job.end), self.duration);
        let mut args: Vec<String> = Vec::new();
        assert(texts(args@) == Seq::<Seq<char>>::empty());
        push_text(&mut args, "-y");
        push_text(&mut args, "-i");
        push_text(&mut args, self.file().as_str());
        push_text(&mut args, "-ss");
        push_text(&mut args, section.start.as_str());
        push_text(&mut args, "-to");
        push_text(&mut args, section.end.as_str());
        push_text(&mut args, "-c");
        push_text(&mut args, "copy");
        push_text(&mut args, self.cut_file().as_str());
        args
    }

    /// Goes on at `stage`.
    fn at(self, stage: Stage) -> (r: Progress)
        ensures
            self.goes_to(stage, r),
    {
        Progress::Next(Download { stage, ..self })
    }

    /// How it goes on after `reply`.
    pub fn step(self, reply: Reply) -> (r: Progress)
        requires
            self.wf(),
            reply_fits(self.stage, reply),
        ensures
            self.follows(reply, r),
            r matches Progress::Next(d) ==> d.wf(),
    {
        let twitch = self.job.kind.is_twitch();
        let known = self.job.duration.is_some();
        let after_inform = if known {
            Stage::Prepare
        } else {
            Stage::Measure
        };
        match self.stage {
            Stage::MakeDir => match reply {
                Reply::Failed(e) => Progress::Finished(
                    Err(
                        if twitch {
                            e
                        } else {
                            cat("Cannot create directory: ", e.as_str())
                        },
                    ),
                ),
                _ => self.at(
                    if twitch {
                        Stage::Inform
                    } else {
                        after_inform
                    },
                ),
            },
            Stage::Inform => match reply {
                Reply::Failed(e) => Progress::Finished(Err(e)),
                _ => self.at(after_inform),
            },
            Stage::Measure => match reply {
                Reply::Length(duration) => Progress::Next(
                    Download { stage: Stage::Prepare, duration, ..self },
                ),
                _ => self.at(Stage::Prepare),
            },
            Stage::Prepare => self.at(Stage::Fetch),
            Stage::Fetch => match reply {
                Reply::Failed(e) => Progress::Finished(Err(e)),
                Reply::Exited { success } => Progress::Next(
                    Download { stage: Stage::ReadPath, success, ..self },
                ),
                _ => self.at(Stage::ReadPath),
            },
            Stage::ReadPath => match reply {
                Reply::Printed(printed) => Progress::Next(
                    Download { stage: Stage::CleanUp, printed, ..self },
                ),
                _ => self.at(Stage::CleanUp),
            },
            Stage::CleanUp => self.after_clean_up(),
            Stage::Cut => match reply {
                Reply::Failed(e) => Progress::Finished(Err(e)),
                Reply::Exited { success: true } => self.at(Stage::Replace),
                _ => Progress::Finished(
                    Err(
                        if twitch {
                            "ffmpeg clipping failed".to_owned()
                        } else {
                            "ffmpeg trimming failed".to_owned()
                        },
                    ),
                ),
            },
            Stage::Replace => self.at(Stage::Size),
            Stage::Size => match reply {
                Reply::Failed(e) => Progress::Finished(
                    Err(
                        if twitch {
                            e
                        } else {
                            cat("Cannot read file: ", e.as_str())
                        },
                    ),
                ),
                Reply::FileSize(size) if size > 0 => Progress::Finished(
                    Ok(DownloadResult { path: self.file(), file_size: size }),
                ),
                _ => Progress::Finished(
                    Err(
                        if twitch {
                            "Empty file".to_owned()
                        } else {
                            "File is empty".to_owned()
                        },
                    ),
                ),
            },
        }
    }

    /// How it goes on when what is left over has been removed.
    fn after_clean_up(self) -> (r: Progress)
        requires
            self.wf(),
            self.stage is CleanUp,
        ensures
            self.follows(Reply::Done, r),
            r matches Progress::Next(d) ==> d.wf(),
    {
        if !self.success {
            let message = match self.job.kind {
                JobKind::Video(_) => "Video download failed",
                JobKind::Audio(_) => "Audio download failed",
                _ => "yt-dlp failed",
            };
            return Progress::Finished(Err(message.to_owned()));
        }
        if self.printed.is_none() {
            let message = match self.job.kind {
                JobKind::Audio(_) => "Cannot resolve output file path from yt-dlp",
                _ => "Cannot resolve output file path",
            };
            return Progress::Finished(Err(message.to_owned()));
        }
        let section = plan_section(slice(&self.job.start), slice(&self.job.end), self.duration);
        if section.needed {
            self.at(Stage::Cut)
        } else {
            self.at(Stage::Size)
        }
    }
}

// ---------------------------------------------------------------------------
// Laws
// ---------------------------------------------------------------------------
/// How many stages lie ahead at most.
pub open spec fn ahead(stage: Stage) -> nat {
    match stage {
        Stage::MakeDir => 9,
        Stage::Inform => 8,
        Stage::Measure => 7,
        Stage::Prepare => 6,
        Stage::Fetch => 5,
        Stage::ReadPath => 4,
        Stage::CleanUp => 3,
        Stage::Cut => 2,
        Stage::Replace => 1,
        Stage::Size => 0,
    }
}

/// Every download ends: each step leaves fewer stages ahead.
pub proof fn law_download_ends(d: Download, reply: Reply, p: Progress)
    requires
        reply_fits(d.stage, reply),
        d.follows(reply, p),
    ensures
        p matches Progress::Next(next) ==> ahead(next.stage) < ahead(d.stage) && next.job == d.job,
{
}

/// A download succeeds only with a file that is not empty: at the path that
/// yt-dlp wrote, after yt-dlp reported success.
pub proof fn law_success_means_a_file(d: Download, reply: Reply, p: Progress)
    requires
        d.wf(),
        reply_fits(d.stage, reply),
        d.follows(reply, p),
    ensures
        p matches Progress::Finished(Ok(result)) ==> d.success && result.file_size > 0 && opt_text(
            d.printed,
        ) == Some(result.path@),
{
}

/// Once yt-dlp has run to its end, what is left over is removed before anything
/// is reported, whether it succeeded or not.
pub proof fn law_leftovers_are_removed(d: Download, reply: Reply, p: Progress)
    requires
        reply_fits(d.stage, reply),
        d.follows(reply, p),
    ensures
        d.stage is Fetch && reply is Exited ==> (p matches Progress::Next(next) && next.stage
            is ReadPath),
        d.stage is ReadPath ==> (p matches Progress::Next(next) && next.stage is CleanUp),
        p matches Progress::Next(next) && (next.stage is Cut || next.stage is Replace) ==> d.stage
            is CleanUp || d.stage is Cut,
{
}

/// ffmpeg runs exactly if yt-dlp brought a file and only a part of the recording
/// is wanted.
pub proof fn law_cut_only_if_wanted(d: Download, reply: Reply, p: Progress)
    requires
        reply_fits(d.stage, reply),
        d.follows(reply, p),
    ensures
        (p matches Progress::Next(next) && next.stage is Cut) <==> d.stage is CleanUp && d.success
            && d.printed is Some && d.cuts(),
{
}

/// Without a start and an end nothing is cut.
pub proof fn law_whole_recording_is_not_cut(d: Download)
    requires
        d.job.start is None,
        d.job.end is None,
    ensures
        !d.cuts(),
{
    crate::functions::section::law_nothing_asked_nothing_cut(None, None, d.duration);
}

/// The length is asked for exactly if the user did not give it.
pub proof fn law_length_is_asked_for_once(d: Download, reply: Reply, p: Progress)
    requires
        reply_fits(d.stage, reply),
        d.follows(reply, p),
        d.stage is MakeDir || d.stage is Inform,
    ensures
        p matches Progress::Next(next) && next.stage is Measure ==> d.job.duration is None,
        p matches Progress::Next(next) && next.stage is Prepare ==> d.job.duration is Some,
{
}

/// Every run of yt-dlp is told the target directory and the directory of what is
/// not finished, and the address last.
pub proof fn law_files_go_where_they_belong(job: Job)
    ensures
        job.flags().contains("home:"@ + job.out_dir@),
        job.flags().contains("temp:"@ + job.tmp_dir_spec()),
        job.flags().last() == job.url@,
{
    let home = "home:"@ + job.out_dir@;
    let temp = "temp:"@ + job.tmp_dir_spec();
    match job.kind {
        JobKind::Video(_) => {
            assert(job.flags()[6] == home);
            assert(job.flags()[8] == temp);
        },
        JobKind::Audio(_) => {
            assert(job.flags()[9] == home);
            assert(job.flags()[11] == temp);
        },
        _ => {
            assert(job.flags()[4] == home);
            assert(job.flags()[6] == temp);
        },
    }
}

/// A download at `d` ends with `result`, if each stage brings its reply among
/// `replies`.
pub open spec fn ends_in(
    d: Download,
    replies: spec_fn(Stage) -> Reply,
    result: Result<DownloadResult, String>,
) -> bool
    decreases ahead(d.stage),
{
    exists|p: Progress|
        #![trigger d.follows(replies(d.stage), p)]
        d.follows(replies(d.stage), p) && match p {
            Progress::Next(next) => ahead(next.stage) < ahead(d.stage) && ends_in(
                next,
                replies,
                result,
            ),
            Progress::Finished(r) => r == result,
        }
}

/// What went well up to `stage` is recorded in `d`.
pub open spec fn recorded(d: Download, printed: Option<String>, success: bool) -> bool {
    &&& ahead(d.stage) < ahead(Stage::Fetch) ==> d.success == success
    &&& ahead(d.stage) < ahead(Stage::ReadPath) ==> d.printed == printed
}

/// If all that is asked for is done, the download brings the file that yt-dlp
/// named, with its size.
pub proof fn law_good_download_succeeds(
    d: Download,
    replies: spec_fn(Stage) -> Reply,
    printed: String,
    size: u64,
    result: Result<DownloadResult, String>,
)
    requires
        d.wf(),
        recorded(d, Some(printed), true),
        forall|s: Stage| reply_fits(s, #[trigger] replies(s)) && !(replies(s) is Failed),
        replies(Stage::Fetch) == (Reply::Exited { success: true }),
        replies(Stage::Cut) == (Reply::Exited { success: true }),
        replies(Stage::ReadPath) == Reply::Printed(Some(printed)),
        replies(Stage::Size) == Reply::FileSize(size),
        size > 0,
        ends_in(d, replies, result),
    ensures
        result matches Ok(r) && r.path@ == printed@ && r.file_size == size,
    decreases ahead(d.stage),
{
    let reply = replies(d.stage);
    let p = choose|p: Progress|
        #![trigger d.follows(replies(d.stage), p)]
        d.follows(replies(d.stage), p) && match p {
            Progress::Next(next) => ahead(next.stage) < ahead(d.stage) && ends_in(
                next,
                replies,
                result,
            ),
            Progress::Finished(r) => r == result,
        };
    assert(d.follows(reply, p));
    if let Progress::Next(next) = p {
        law_good_download_succeeds(next, replies, printed, size, result);
    }
}

/// If yt-dlp runs and reports no success, the download fails with the message for
/// its kind, whatever else is done.
pub proof fn law_failed_fetch_is_reported(
    d: Download,
    replies: spec_fn(Stage) -> Reply,
    printed: Option<String>,
    result: Result<DownloadResult, String>,
)
    requires
        d.wf(),
        recorded(d, printed, false),
        ahead(d.stage) >= ahead(Stage::CleanUp),
        forall|s: Stage| reply_fits(s, #[trigger] replies(s)),
        replies(Stage::MakeDir) is Done,
        replies(Stage::Inform) is Done,
        replies(Stage::Fetch) == (Reply::Exited { success: false }),
        replies(Stage::ReadPath) == Reply::Printed(printed),
        ends_in(d, replies, result),
    ensures
        result matches Err(e) && e@ == d.job.kind.no_download(),
    decreases ahead(d.stage),
{
    let reply = replies(d.stage);
    let p = choose|p: Progress|
        #![trigger d.follows(replies(d.stage), p)]
        d.follows(replies(d.stage), p) && match p {
            Progress::Next(next) => ahead(next.stage) < ahead(d.stage) && ends_in(
                next,
                replies,
                result,
            ),
            Progress::Finished(r) => r == result,
        };
    assert(d.follows(reply, p));
    if let Progress::Next(next) = p {
        law_failed_fetch_is_reported(next, replies, printed, result);
    }
}

} // verus!
