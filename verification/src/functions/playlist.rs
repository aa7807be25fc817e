//! Playlists: which addresses are one, what is in them, and how they are
//! downloaded.
use crate::functions::cache::{url_base, TtlCache};
use crate::functions::formats::{
    audio_format_of, format_of, quality_to_audio_format, quality_to_format, DownloadMode, Quality,
};
use crate::functions::output::{decodable, decode_output, output_text};
use crate::functions::ytdlp::{network_args, network_flags};
use crate::numbers::{parse_u64, u64_value};
use crate::paths::{join_path, joined};
use crate::platform::Platform;
use crate::text::{
    after_first, cat, chars_of, contains, extend_texts, filled_parts, holds, keep_filled, lines,
    lines_of, push_text, same_text, split, split_n, split_text, split_text_n, string_of,
    text_after, texts, trim, trim_text,
};
use vstd::prelude::*;

verus! {

// ---------------------------------------------------------------------------
// Which addresses are a playlist
// ---------------------------------------------------------------------------
/// The parts of the path behind `twitch.tv`, if the address has it.
pub open spec fn twitch_path(u: Seq<char>) -> Option<Seq<Seq<char>>> {
    match after_first(u, "twitch.tv/"@) {
        Some(rest) => Some(filled_parts(split(url_base(rest), '/'))),
        None => None,
    }
}

/// `u` lists the videos of a channel on Twitch. A single video has `videos` first
/// in its path.
pub open spec fn is_channel_videos(u: Seq<char>) -> bool {
    match twitch_path(u) {
        Some(parts) => parts.len() == 2 && parts[1] == "videos"@ && parts[0] != "videos"@,
        None => false,
    }
}

/// `u` shows one video on YouTube.
pub open spec fn is_single_video(u: Seq<char>) -> bool {
    (contains(u, "watch"@) && contains(u, "v="@)) || contains(u, "youtu.be"@)
}

/// `u` is a playlist on YouTube. A video that is shown as part of a list is not.
pub open spec fn is_youtube_list(u: Seq<char>) -> bool {
    contains(u, "youtube.com"@) && contains(u, "list="@) && !is_single_video(u)
}

/// What precedes the query and the fragment.
fn before_query(s: &str) -> (r: String)
    ensures
        r@ == url_base(s@),
{
    let cs = chars_of(s);
    let mut i: usize = 0;
    assert(cs@.skip(0) == cs@);
    assert(cs@.take(0) + url_base(cs@) == url_base(cs@));
    while i < cs.len() && cs[i] != '?' && cs[i] != '#'
        invariant
            i <= cs@.len(),
            url_base(cs@) == cs@.take(i as int) + url_base(cs@.skip(i as int)),
        decreases cs@.len() - i,
    {
        proof {
            let rest = cs@.skip(i as int);
            assert(rest[0] == cs@[i as int]);
            assert(rest.drop_first() == cs@.skip(i + 1));
            assert(cs@.take(i as int) + (seq![cs@[i as int]] + url_base(cs@.skip(i + 1)))
                == cs@.take(i + 1) + url_base(cs@.skip(i + 1)));
        }
        i = i + 1;
    }
    proof {
        let rest = cs@.skip(i as int);
        if i < cs@.len() {
            assert(rest[0] == cs@[i as int]);
        }
        assert(url_base(rest) == Seq::<char>::empty());
        assert(cs@.subrange(0, i as int) == cs@.take(i as int));
        assert(url_base(cs@) == cs@.take(i as int));
    }
    string_of(&cs, 0, i)
}

/// Whether `u` lists the videos of a channel on Twitch.
pub fn is_twitch_videos_page(u: &str) -> (r: bool)
    ensures
        r == is_channel_videos(u@),
{
    match text_after(u, "twitch.tv/") {
        Some(rest) => {
            let path = before_query(rest.as_str());
            let parts = keep_filled(&split_text(path.as_str(), '/'));
            assert(texts(parts@).len() == parts@.len());
            if parts.len() != 2 {
                return false;
            }
            assert(texts(parts@)[0] == parts@[0]@);
            assert(texts(parts@)[1] == parts@[1]@);
            same_text(parts[1].as_str(), "videos") && !same_text(parts[0].as_str(), "videos")
        },
        None => false,
    }
}

/// Whether an address is a playlist.
pub fn is_playlist_url(url: String) -> (r: bool)
    ensures
        r == (is_youtube_list(trim(url@)) || is_channel_videos(trim(url@))),
{
    let trimmed = trim_text(url.as_str());
    let u = trimmed.as_str();
    let single = (holds(u, "watch") && holds(u, "v=")) || holds(u, "youtu.be");
    let list = holds(u, "youtube.com") && holds(u, "list=") && !single;
    list || is_twitch_videos_page(u)
}

/// A link to a single video of a list is not a playlist: the video is.
pub proof fn law_video_in_a_list_is_a_video(u: Seq<char>)
    requires
        contains(u, "watch"@) && contains(u, "v="@) || contains(u, "youtu.be"@),
    ensures
        !is_youtube_list(u),
{
}

// ---------------------------------------------------------------------------
// What is in a playlist
// ---------------------------------------------------------------------------
/// What is known of a playlist.
pub struct PlaylistInfo {
    pub title: String,
    pub uploader: String,
    pub count: u64,
    pub entries: Vec<PlaylistEntry>,
}

/// A video in a playlist.
pub struct PlaylistEntry {
    pub id: String,
    pub title: String,
    pub duration: Option<u64>,
    pub url: String,
}

/// The same video.
pub open spec fn same_entry(a: PlaylistEntry, b: PlaylistEntry) -> bool {
    &&& a.id@ == b.id@
    &&& a.title@ == b.title@
    &&& a.duration == b.duration
    &&& a.url@ == b.url@
}

/// The same is known.
pub open spec fn same_playlist(a: PlaylistInfo, b: PlaylistInfo) -> bool {
    &&& a.title@ == b.title@
    &&& a.uploader@ == b.uploader@
    &&& a.count == b.count
    &&& a.entries@.len() == b.entries@.len()
    &&& forall|i: int|
        0 <= i < a.entries@.len() ==> same_entry(#[trigger] a.entries@[i], b.entries@[i])
}

impl Clone for PlaylistEntry {
    fn clone(&self) -> (r: PlaylistEntry)
        ensures
            same_entry(*self, r),
    {
        PlaylistEntry {
            id: self.id.clone(),
            title: self.title.clone(),
            duration: self.duration,
            url: self.url.clone(),
        }
    }
}

impl Clone for PlaylistInfo {
    fn clone(&self) -> (r: PlaylistInfo)
        ensures
            same_playlist(*self, r),
    {
        let mut entries: Vec<PlaylistEntry> = Vec::new();
        let mut i: usize = 0;
        while i < self.entries.len()
            invariant
                i <= self.entries@.len(),
                entries@.len() == i,
                forall|j: int|
                    0 <= j < i ==> same_entry(#[trigger] self.entries@[j], entries@[j]),
            decreases self.entries@.len() - i,
        {
            entries.push(self.entries[i].clone());
            i = i + 1;
        }
        PlaylistInfo {
            title: self.title.clone(),
            uploader: self.uploader.clone(),
            count: self.count,
            entries,
        }
    }
}

/// What yt-dlp prints of a video, the length as it is printed.
pub struct PlaylistRow {
    pub id: String,
    pub title: String,
    pub duration: String,
    pub url: String,
}

/// What yt-dlp prints of a playlist.
pub struct PlaylistPage {
    pub title: String,
    pub uploader: String,
    pub count: u64,
    pub rows: Vec<PlaylistRow>,
}

/// What a row holds.
pub struct RowView {
    pub id: Seq<char>,
    pub title: Seq<char>,
    pub duration: Seq<char>,
    pub url: Seq<char>,
}

impl View for PlaylistRow {
    type V = RowView;

    open spec fn view(&self) -> RowView {
        RowView {
            id: self.id@,
            title: self.title@,
            duration: self.duration@,
            url: self.url@,
        }
    }
}

/// What rows hold.
pub open spec fn row_views(rows: Seq<PlaylistRow>) -> Seq<RowView> {
    Seq::new(rows.len(), |i: int| rows[i]@)
}

/// The columns of a line.
pub open spec fn columns(line: Seq<char>) -> Seq<Seq<char>> {
    split_n(line, '\t', 7)
}

/// What a line tells of a video, if it has all columns.
pub open spec fn row_in(line: Seq<char>) -> Option<RowView> {
    let c = columns(line);
    if c.len() >= 7 {
        Some(RowView { id: c[3], title: c[4], duration: c[5], url: c[6] })
    } else {
        None
    }
}

/// What the lines tell of videos.
pub open spec fn rows_in(ls: Seq<Seq<char>>) -> Seq<RowView>
    decreases ls.len(),
{
    if ls.len() == 0 {
        Seq::empty()
    } else {
        match row_in(ls.last()) {
            Some(row) => rows_in(ls.drop_last()).push(row),
            None => rows_in(ls.drop_last()),
        }
    }
}

/// How many videos the first line tells of: 0 if it is not a number.
pub open spec fn told_count(line: Seq<char>) -> u64 {
    match u64_value(columns(line)[2]) {
        Some(n) => n,
        None => 0,
    }
}

/// `r` is what `text` tells of a playlist.
pub open spec fn page_of(text: Seq<char>, r: Result<PlaylistPage, String>) -> bool {
    let ls = lines(text);
    if ls.len() == 0 {
        r matches Err(e) && e@ == "Empty playlist response"@
    } else if columns(ls[0]).len() < 7 {
        r matches Err(e) && e@ == "Unexpected yt-dlp output format"@
    } else {
        &&& r matches Ok(page)
        &&& page.title@ == columns(ls[0])[0]
        &&& page.uploader@ == columns(ls[0])[1]
        &&& page.count == told_count(ls[0])
        &&& row_views(page.rows@) == rows_in(ls)
    }
}

/// The arguments that ask what is in a playlist.
pub fn playlist_args(url: &str) -> (r: Vec<String>)
    ensures
        texts(r@) == seq![
            "--flat-playlist"@,
            "--print"@,
            "%(playlist_title)s\t%(playlist_uploader)s\t%(playlist_count)s\t%(id)s\t%(title)s\t%(duration)s\t%(webpage_url)s"@,
            "--no-warnings"@,
            url@,
        ],
{
    let mut args: Vec<String> = Vec::new();
    assert(texts(args@) == Seq::<Seq<char>>::empty());
    push_text(&mut args, "--flat-playlist");
    push_text(&mut args, "--print");
    push_text(
        &mut args,
        "%(playlist_title)s\t%(playlist_uploader)s\t%(playlist_count)s\t%(id)s\t%(title)s\t%(duration)s\t%(webpage_url)s",
    );
    push_text(&mut args, "--no-warnings");
    push_text(&mut args, url);
    args
}

/// What a line tells of a video, given its columns.
fn row_from(c: &Vec<String>) -> (r: PlaylistRow)
    requires
        c@.len() >= 7,
    ensures
        r@ == (RowView { id: c@[3]@, title: c@[4]@, duration: c@[5]@, url: c@[6]@ }),
{
    PlaylistRow {
        id: c[3].clone(),
        title: c[4].clone(),
        duration: c[5].clone(),
        url: c[6].clone(),
    }
}

/// What `text` tells of a playlist.
pub fn parse_page(text: &str) -> (r: Result<PlaylistPage, String>)
    ensures
        page_of(text@, r),
{
    let ls = lines_of(text);
    let ghost all = texts(ls@);
    if ls.len() == 0 {
        return Err("Empty playlist response".to_owned());
    }
    assert(all[0] == ls@[0]@);
    let head = split_text_n(ls[0].as_str(), '\t', 7);
    assert(texts(head@).len() == head@.len());
    if head.len() < 7 {
        return Err("Unexpected yt-dlp output format".to_owned());
    }
    assert(texts(head@)[0] == head@[0]@ && texts(head@)[1] == head@[1]@ && texts(head@)[2]
        == head@[2]@);
    let count: u64 = match parse_u64(head[2].as_str()) {
        Some(n) => n,
        None => 0,
    };
    let mut rows: Vec<PlaylistRow> = Vec::new();
    let mut i: usize = 0;
    assert(row_views(rows@) == rows_in(all.take(0)));
    while i < ls.len()
        invariant
            i <= ls@.len(),
            all == texts(ls@),
            row_views(rows@) == rows_in(all.take(i as int)),
        decreases ls@.len() - i,
    {
        let c = split_text_n(ls[i].as_str(), '\t', 7);
        proof {
            let next = all.take(i + 1);
            assert(next.drop_last() == all.take(i as int));
            assert(next.last() == ls@[i as int]@);
            assert(texts(c@).len() == c@.len());
        }
        let ghost before = rows@;
        if c.len() >= 7 {
            assert(texts(c@)[3] == c@[3]@ && texts(c@)[4] == c@[4]@ && texts(c@)[5] == c@[5]@
                && texts(c@)[6] == c@[6]@);
            rows.push(row_from(&c));
            assert(row_views(rows@) == row_views(before).push(rows@.last()@));
        }
        i = i + 1;
    }
    assert(all.take(all.len() as int) == all);
    Ok(PlaylistPage { title: head[0].clone(), uploader: head[1].clone(), count, rows })
}

/// What a run of yt-dlp tells of a playlist.
pub fn read_playlist(success: bool, stdout: &[u8]) -> (r: Result<PlaylistPage, String>)
    requires
        decodable(stdout@),
    ensures
        !success ==> (r matches Err(e) && e@ == "yt-dlp returned an error for this playlist URL"@),
        success ==> page_of(output_text(stdout@), r),
{
    if !success {
        return Err("yt-dlp returned an error for this playlist URL".to_owned());
    }
    parse_page(decode_output(stdout).as_str())
}

/// A video of a playlist, with its length as a number.
pub fn make_entry(id: &str, title: &str, duration: Option<u64>, url: &str) -> (r: PlaylistEntry)
    ensures
        r.id@ == id@,
        r.title@ == title@,
        r.duration == duration,
        r.url@ == url@,
{
    PlaylistEntry {
        id: id.to_owned(),
        title: title.to_owned(),
        duration,
        url: url.to_owned(),
    }
}

/// `entry` is the video that `row` tells of.
pub open spec fn is_entry_of(entry: PlaylistEntry, row: RowView, duration: Option<u64>) -> bool {
    &&& entry.id@ == row.id
    &&& entry.title@ == row.title
    &&& entry.url@ == row.url
    &&& entry.duration == duration
}

/// What is known of a playlist, with the lengths of its videos as numbers. If
/// yt-dlp does not tell how many videos there are, those that it lists count.
pub fn playlist_info(page: PlaylistPage, durations: &Vec<Option<u64>>) -> (r: PlaylistInfo)
    requires
        durations@.len() == page.rows@.len(),
    ensures
        r.title == page.title,
        r.uploader == page.uploader,
        r.count == (if page.count == 0 {
            page.rows@.len() as u64
        } else {
            page.count
        }),
        r.entries@.len() == page.rows@.len(),
        forall|i: int|
            0 <= i < page.rows@.len() ==> is_entry_of(
                #[trigger] r.entries@[i],
                page.rows@[i]@,
                durations@[i],
            ),
{
    let mut entries: Vec<PlaylistEntry> = Vec::new();
    let mut i: usize = 0;
    while i < page.rows.len()
        invariant
            i <= page.rows@.len(),
            durations@.len() == page.rows@.len(),
            entries@.len() == i,
            forall|j: int|
                0 <= j < i ==> is_entry_of(
                    #[trigger] entries@[j],
                    page.rows@[j]@,
                    durations@[j],
                ),
        decreases page.rows@.len() - i,
    {
        let row = &page.rows[i];
        entries.push(
            make_entry(row.id.as_str(), row.title.as_str(), durations[i], row.url.as_str()),
        );
        i = i + 1;
    }
    let count: u64 = if page.count == 0 {
        page.rows.len() as u64
    } else {
        page.count
    };
    PlaylistInfo { title: page.title, uploader: page.uploader, count, entries }
}

/// There is a video for each line with all columns, and for no other line.
pub proof fn law_a_row_for_each_full_line(ls: Seq<Seq<char>>)
    ensures
        rows_in(ls).len() <= ls.len(),
        (forall|i: int| 0 <= i < ls.len() ==> columns(#[trigger] ls[i]).len() >= 7) ==> rows_in(
            ls,
        ).len() == ls.len(),
    decreases ls.len(),
{
    if ls.len() > 0 {
        let init = ls.drop_last();
        law_a_row_for_each_full_line(init);
        if forall|i: int| 0 <= i < ls.len() ==> columns(#[trigger] ls[i]).len() >= 7 {
            assert forall|i: int| 0 <= i < init.len() implies columns(#[trigger] init[i]).len()
                >= 7 by {
                assert(init[i] == ls[i]);
            }
            assert(columns(ls[ls.len() - 1]).len() >= 7);
        }
    }
}

/// Keeps what is known of a playlist under `key`. A failure is not kept.
pub fn keep_playlist_info(
    cache: &mut TtlCache<PlaylistInfo>,
    key: String,
    outcome: &Result<PlaylistInfo, String>,
    now: u64,
)
    requires
        old(cache).wf(),
    ensures
        final(cache).wf(),
        outcome is Err ==> final(cache)@ == old(cache)@,
        outcome is Ok ==> exists|kept: PlaylistInfo|
            #[trigger] same_playlist(outcome->Ok_0, kept) && final(cache)@ == old(cache)@.insert(
                key@,
                (now, kept),
            ),
{
    if let Ok(info) = outcome {
        let kept = info.clone();
        assert(same_playlist(outcome->Ok_0, kept));
        cache.insert(key, kept, now);
    }
}

// ---------------------------------------------------------------------------
// Downloading a playlist
// ---------------------------------------------------------------------------
/// What was downloaded of a playlist.
pub struct PlaylistDownloadResult {
    pub dir: String,
    pub downloaded: u64,
    pub total: u64,
}

/// What the user asks for.
pub struct PlaylistJob {
    pub url: String,
    pub base_dir: String,
    pub quality: Option<Quality>,
    pub mode: Option<DownloadMode>,
    pub platform: Platform,
}

impl PlaylistJob {
    /// The directory of what is not finished yet.
    pub open spec fn tmp_dir_spec(self) -> Seq<char> {
        joined(self.base_dir@, ".flowbit-tmp"@, self.platform)
    }

    /// The directory of what is not finished yet.
    pub fn tmp_dir(&self) -> (r: String)
        ensures
            r@ == self.tmp_dir_spec(),
    {
        join_path(self.base_dir.as_str(), ".flowbit-tmp", self.platform)
    }

    /// The flags that select what is downloaded of each video.
    pub open spec fn selection(self) -> Seq<Seq<char>> {
        match self.mode {
            Some(DownloadMode::Audio) => seq![
                "-f"@,
                match self.quality {
                    Some(q) => audio_format_of(q),
                    None => "bestaudio"@,
                },
                "-x"@,
                "--audio-format"@,
                "mp3"@,
                "--audio-quality"@,
                "0"@,
            ],
            _ => seq![
                "-f"@,
                format_of(
                    match self.quality {
                        Some(q) => q,
                        None => Quality::Best,
                    },
                ),
                "--merge-output-format"@,
                "mp4"@,
            ],
        }
    }

    /// The arguments for yt-dlp. yt-dlp makes a directory for the playlist itself.
    pub open spec fn flags(self) -> Seq<Seq<char>> {
        seq![
            "--yes-playlist"@,
            "--no-warnings"@,
            "-P"@,
            "home:"@ + self.base_dir@,
            "-P"@,
            "temp:"@ + self.tmp_dir_spec(),
            "-o"@,
            "%(playlist_title)s/%(playlist_index)02d - %(title)s.%(ext)s"@,
        ] + network_flags() + self.selection() + seq![self.url@]
    }

    /// The arguments for yt-dlp.
    pub fn arguments(&self) -> (r: Vec<String>)
        ensures
            texts(r@) == self.flags(),
    {
        let mut args: Vec<String> = Vec::new();
        assert(texts(args@) == Seq::<Seq<char>>::empty());
        push_text(&mut args, "--yes-playlist");
        push_text(&mut args, "--no-warnings");
        push_text(&mut args, "-P");
        push_text(&mut args, cat("home:", self.base_dir.as_str()).as_str());
        push_text(&mut args, "-P");
        push_text(&mut args, cat("temp:", self.tmp_dir().as_str()).as_str());
        push_text(&mut args, "-o");
        push_text(&mut args, "%(playlist_title)s/%(playlist_index)02d - %(title)s.%(ext)s");
        extend_texts(&mut args, &network_args());
        let ghost start = texts(args@);
        match self.mode {
            Some(DownloadMode::Audio) => {
                let sound = match self.quality {
                    Some(q) => quality_to_audio_format(q),
                    None => "bestaudio".to_owned(),
                };
                push_text(&mut args, "-f");
                push_text(&mut args, sound.as_str());
                push_text(&mut args, "-x");
                push_text(&mut args, "--audio-format");
                push_text(&mut args, "mp3");
                push_text(&mut args, "--audio-quality");
                push_text(&mut args, "0");
            },
            _ => {
                let q = match self.quality {
                    Some(q) => q,
                    None => Quality::Best,
                };
                push_text(&mut args, "-f");
                push_text(&mut args, quality_to_format(q));
                push_text(&mut args, "--merge-output-format");
                push_text(&mut args, "mp4");
            },
        }
        assert(texts(args@) == start + self.selection());
        push_text(&mut args, self.url.as_str());
        assert(texts(args@) == self.flags());
        args
    }
}

/// The first of the newest: `i` is newer than all before it, and nothing after it
/// is newer.
pub open spec fn is_newest(times: Seq<i128>, i: int) -> bool {
    &&& 0 <= i < times.len()
    &&& forall|j: int| 0 <= j < i ==> times[j] < times[i]
    &&& forall|j: int| i < j < times.len() ==> times[j] <= times[i]
}

/// Which of the directories is the newest, given when each was changed.
pub fn newest(times: &Vec<i128>) -> (r: Option<usize>)
    ensures
        match r {
            Some(i) => is_newest(times@, i as int),
            None => times@.len() == 0,
        },
{
    if times.len() == 0 {
        return None;
    }
    let mut best: usize = 0;
    let mut i: usize = 1;
    while i < times.len()
        invariant
            1 <= i <= times@.len(),
            best < i,
            is_newest(times@.take(i as int), best as int),
        decreases times@.len() - i,
    {
        proof {
            let seen = times@.take(i as int);
            let next = times@.take(i + 1);
            assert(forall|j: int| 0 <= j < i ==> next[j] == seen[j]);
        }
        if times[i] > times[best] {
            best = i;
        }
        i = i + 1;
    }
    assert(times@.take(i as int) == times@);
    Some(best)
}

// ---------------------------------------------------------------------------
// Step by step
// ---------------------------------------------------------------------------
/// What the download of a playlist is doing.
#[derive(Clone, Copy, Debug, PartialEq, Eq, Structural)]
pub enum PlaylistStage {
    /// The target directory is being made.
    MakeDir,
    /// The directory of what is not finished is being made.
    Prepare,
    /// yt-dlp is running.
    Fetch,
    /// What is left over is being removed.
    CleanUp,
    /// It is being looked what there is in the target directory.
    Survey,
}

/// The download of a playlist under way.
pub struct PlaylistDownload {
    pub job: PlaylistJob,
    pub stage: PlaylistStage,
    /// Whether yt-dlp reported success.
    pub success: bool,
}

/// What is to be done next.
pub enum PlaylistAction {
    MakeDir { dir: String },
    Prepare { tmp_dir: String },
    Fetch { args: Vec<String>, label: String },
    CleanUp { dir: String, tmp_dir: String },
    Survey { dir: String },
}

/// What came of it.
pub enum PlaylistReply {
    Done,
    Failed(String),
    Exited { success: bool },
    /// The directories below the target directory, when each was changed, and how
    /// many files there are in them.
    Found { dirs: Vec<String>, times: Vec<i128>, files: u64 },
}

/// How it goes on.
pub enum PlaylistProgress {
    Next(PlaylistDownload),
    Finished(Result<PlaylistDownloadResult, String>),
}

/// The reply is one that the stage can bring.
pub open spec fn playlist_reply_fits(stage: PlaylistStage, reply: PlaylistReply) -> bool {
    match stage {
        PlaylistStage::MakeDir => reply is Done || reply is Failed,
        PlaylistStage::Prepare | PlaylistStage::CleanUp => reply is Done,
        PlaylistStage::Fetch => reply is Exited || reply is Failed,
        PlaylistStage::Survey => reply matches PlaylistReply::Found { dirs, times, .. }
            && dirs@.len() == times@.len(),
    }
}

/// Whether the reply is one that the stage can bring.
pub fn playlist_fits(stage: PlaylistStage, reply: &PlaylistReply) -> (r: bool)
    ensures
        r == playlist_reply_fits(stage, *reply),
{
    match (stage, reply) {
        (PlaylistStage::MakeDir, PlaylistReply::Done) => true,
        (PlaylistStage::MakeDir, PlaylistReply::Failed(_)) => true,
        (PlaylistStage::Prepare, PlaylistReply::Done) => true,
        (PlaylistStage::CleanUp, PlaylistReply::Done) => true,
        (PlaylistStage::Fetch, PlaylistReply::Exited { .. }) => true,
        (PlaylistStage::Fetch, PlaylistReply::Failed(_)) => true,
        (PlaylistStage::Survey, PlaylistReply::Found { dirs, times, .. }) => dirs.len()
            == times.len(),
        _ => false,
    }
}

/// `dir` is the newest of the directories, or `base` if there is none.
pub open spec fn is_playlist_dir(
    dir: Seq<char>,
    base: Seq<char>,
    dirs: Seq<String>,
    times: Seq<i128>,
) -> bool {
    if dirs.len() == 0 {
        dir == base
    } else {
        exists|i: int| #[trigger] is_newest(times, i) && dir == dirs[i]@
    }
}

impl PlaylistDownload {
    /// What is there is looked at only after yt-dlp reported success.
    pub open spec fn wf(self) -> bool {
        self.stage is Survey ==> self.success
    }

    /// `action` is what the stage asks for.
    pub open spec fn asks(self, action: PlaylistAction) -> bool {
        match self.stage {
            PlaylistStage::MakeDir => action matches PlaylistAction::MakeDir { dir } && dir@
                == self.job.base_dir@,
            PlaylistStage::Prepare => action matches PlaylistAction::Prepare { tmp_dir }
                && tmp_dir@ == self.job.tmp_dir_spec(),
            PlaylistStage::Fetch => action matches PlaylistAction::Fetch { args, label } && texts(
                args@,
            ) == self.job.flags() && label@ == "Playlist download failed"@,
            PlaylistStage::CleanUp => action matches PlaylistAction::CleanUp { dir, tmp_dir }
                && dir@ == self.job.base_dir@ && tmp_dir@ == self.job.tmp_dir_spec(),
            PlaylistStage::Survey => action matches PlaylistAction::Survey { dir } && dir@
                == self.job.base_dir@,
        }
    }

    /// `p` goes on at `stage`, with nothing else changed.
    pub open spec fn goes_to(self, stage: PlaylistStage, p: PlaylistProgress) -> bool {
        p == PlaylistProgress::Next(PlaylistDownload { stage, ..self })
    }

    /// `p` is the end, with the given message.
    pub open spec fn fails(self, message: Seq<char>, p: PlaylistProgress) -> bool {
        p matches PlaylistProgress::Finished(Err(e)) && e@ == message
    }

    /// `p` follows `reply`.
    pub open spec fn follows(self, reply: PlaylistReply, p: PlaylistProgress) -> bool {
        match self.stage {
            PlaylistStage::MakeDir => match reply {
                PlaylistReply::Failed(e) => self.fails("Cannot create directory: "@ + e@, p),
                _ => self.goes_to(PlaylistStage::Prepare, p),
            },
            PlaylistStage::Prepare => self.goes_to(PlaylistStage::Fetch, p),
            PlaylistStage::Fetch => match reply {
                PlaylistReply::Failed(e) => self.fails(e@, p),
                _ => reply matches PlaylistReply::Exited { success } && p
                    == PlaylistProgress::Next(
                    (PlaylistDownload { stage: PlaylistStage::CleanUp, success, ..self }),
                ),
            },
            PlaylistStage::CleanUp => if self.success {
                self.goes_to(PlaylistStage::Survey, p)
            } else {
                self.fails("Playlist download failed \u{2014} check logs for details"@, p)
            },
            PlaylistStage::Survey => {
                &&& reply matches PlaylistReply::Found { dirs, times, files }
                &&& p matches PlaylistProgress::Finished(Ok(result))
                &&& result.downloaded == files
                &&& result.total == files
                &&& is_playlist_dir(result.dir@, self.job.base_dir@, dirs@, times@)
            },
        }
    }

    /// A download that has yet to begin.
    pub fn begin(job: PlaylistJob) -> (r: PlaylistDownload)
        ensures
            r.wf(),
            r.job == job,
            r.stage == PlaylistStage::MakeDir,
            !r.success,
    {
        PlaylistDownload { job, stage: PlaylistStage::MakeDir, success: false }
    }

    /// What is to be done next.
    pub fn action(&self) -> (r: PlaylistAction)
        ensures
            self.asks(r),
    {
        match self.stage {
            PlaylistStage::MakeDir => PlaylistAction::MakeDir { dir: self.job.base_dir.clone() },
            PlaylistStage::Prepare => PlaylistAction::Prepare { tmp_dir: self.job.tmp_dir() },
            PlaylistStage::Fetch => PlaylistAction::Fetch {
                args: self.job.arguments(),
                label: "Playlist download failed".to_owned(),
            },
            PlaylistStage::CleanUp => PlaylistAction::CleanUp {
                dir: self.job.base_dir.clone(),
                tmp_dir: self.job.tmp_dir(),
            },
            PlaylistStage::Survey => PlaylistAction::Survey { dir: self.job.base_dir.clone() },
        }
    }

    /// How it goes on after `reply`.
    pub fn step(self, reply: PlaylistReply) -> (r: PlaylistProgress)
        requires
            self.wf(),
            playlist_reply_fits(self.stage, reply),
        ensures
            self.follows(reply, r),
            r matches PlaylistProgress::Next(d) ==> d.wf(),
    {
        match (self.stage, reply) {
            (PlaylistStage::MakeDir, PlaylistReply::Failed(e)) => PlaylistProgress::Finished(
                Err(cat("Cannot create directory: ", e.as_str())),
            ),
            (PlaylistStage::MakeDir, _) => PlaylistProgress::Next(
                PlaylistDownload { stage: PlaylistStage::Prepare, ..self },
            ),
            (PlaylistStage::Prepare, _) => PlaylistProgress::Next(
                PlaylistDownload { stage: PlaylistStage::Fetch, ..self },
            ),
            (PlaylistStage::Fetch, PlaylistReply::Failed(e)) => PlaylistProgress::Finished(Err(e)),
            (PlaylistStage::Fetch, PlaylistReply::Exited { success }) => PlaylistProgress::Next(
                PlaylistDownload { stage: PlaylistStage::CleanUp, success, ..self },
            ),
            (PlaylistStage::CleanUp, _) => if self.success {
                PlaylistProgress::Next(PlaylistDownload { stage: PlaylistStage::Survey, ..self })
            } else {
                PlaylistProgress::Finished(
                    Err("Playlist download failed \u{2014} check logs for details".to_owned()),
                )
            },
            (_, PlaylistReply::Found { dirs, times, files }) => {
                let dir = match newest(&times) {
                    Some(i) => dirs[i].clone(),
                    None => self.job.base_dir,
                };
                PlaylistProgress::Finished(
                    Ok(PlaylistDownloadResult { dir, downloaded: files, total: files }),
                )
            },
            _ => PlaylistProgress::Finished(Err(String::new())),
        }
    }
}

/// How many stages lie ahead at most.
pub open spec fn playlist_ahead(stage: PlaylistStage) -> nat {
    match stage {
        PlaylistStage::MakeDir => 4,
        PlaylistStage::Prepare => 3,
        PlaylistStage::Fetch => 2,
        PlaylistStage::CleanUp => 1,
        PlaylistStage::Survey => 0,
    }
}

/// Every download of a playlist ends, and one that succeeds has been cleaned up
/// before its directories were looked at.
pub proof fn law_playlist_download_ends(
    d: PlaylistDownload,
    reply: PlaylistReply,
    p: PlaylistProgress,
)
    requires
        d.wf(),
        playlist_reply_fits(d.stage, reply),
        d.follows(reply, p),
    ensures
        p matches PlaylistProgress::Next(next) ==> playlist_ahead(next.stage) < playlist_ahead(
            d.stage,
        ) && next.job == d.job,
        p matches PlaylistProgress::Next(next) && next.stage is Survey ==> d.stage is CleanUp,
        p matches PlaylistProgress::Finished(Ok(_)) ==> d.stage is Survey && d.success,
{
}

} // verus!
