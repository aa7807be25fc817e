//! The programs that the application works with, and how it gets them.
use crate::paths::{join_path, joined, law_no_slash_is_added};
use crate::platform::{Arch, Platform};
use crate::text::{cat, cat3, chars_of, same_text, string_of};
use vstd::prelude::*;

verus! {

// ---------------------------------------------------------------------------
// Where the programs are
// ---------------------------------------------------------------------------
/// Where the programs are kept, and on what system.
pub struct Libs {
    pub dir: Option<String>,
    pub platform: Platform,
    pub arch: Arch,
}

impl Libs {
    /// The directory is not known yet.
    pub fn new(platform: Platform, arch: Arch) -> (r: Libs)
        ensures
            r.dir is None,
            r.platform == platform,
            r.arch == arch,
    {
        Libs { dir: None, platform, arch }
    }

    /// The path of a program.
    pub open spec fn path_of(self, file_name: Seq<char>) -> Seq<char> {
        joined(self.dir->0@, file_name, self.platform)
    }
}

/// Sets the directory, unless it is set.
pub fn init_libs_dir_path(libs: &mut Libs, path: &str)
    ensures
        old(libs).dir is Some ==> final(libs).dir == old(libs).dir,
        old(libs).dir is None ==> final(libs).dir is Some && final(libs).dir->0@ == path@,
        final(libs).platform == old(libs).platform,
        final(libs).arch == old(libs).arch,
{
    if libs.dir.is_none() {
        libs.dir = Some(path.to_owned());
    }
}

/// The directory of the programs.
pub fn libs_dir(libs: &Libs) -> (r: &str)
    requires
        libs.dir is Some,
    ensures
        r@ == libs.dir->0@,
{
    match &libs.dir {
        Some(d) => d.as_str(),
        None => "",
    }
}

/// The path of a program, with the system's own separator.
pub fn lib_path(libs: &Libs, file_name: &str) -> (r: String)
    requires
        libs.dir is Some,
    ensures
        r@ == libs.path_of(file_name@),
{
    join_path(libs_dir(libs), file_name, libs.platform)
}

/// The file name of yt-dlp.
pub open spec fn yt_dlp_file(platform: Platform) -> Seq<char> {
    if platform == Platform::Windows {
        "yt-dlp.exe"@
    } else {
        "yt-dlp"@
    }
}

/// The file name of ffmpeg.
pub open spec fn ffmpeg_file(platform: Platform) -> Seq<char> {
    if platform == Platform::Windows {
        "ffmpeg.exe"@
    } else {
        "ffmpeg"@
    }
}

/// The file name of ffprobe.
pub open spec fn ffprobe_file(platform: Platform) -> Seq<char> {
    if platform == Platform::Windows {
        "ffprobe.exe"@
    } else {
        "ffprobe"@
    }
}

/// The file name of QuickJS, which is also the name that it is published under.
pub open spec fn quickjs_file(platform: Platform, arch: Arch) -> Seq<char> {
    match platform {
        Platform::Windows => if arch == Arch::X86_64 {
            "qjs-windows-x86_64.exe"@
        } else {
            "qjs-windows-x86.exe"@
        },
        Platform::MacOs => "qjs-darwin"@,
        Platform::Linux => match arch {
            Arch::Aarch64 => "qjs-linux-aarch64"@,
            Arch::X86 => "qjs-linux-x86"@,
            _ => "qjs-linux-x86_64"@,
        },
    }
}

/// The file name of yt-dlp.
pub fn yt_dlp_name(platform: Platform) -> (r: &'static str)
    ensures
        r@ == yt_dlp_file(platform),
{
    if platform == Platform::Windows {
        "yt-dlp.exe"
    } else {
        "yt-dlp"
    }
}

/// The file name of ffmpeg.
pub fn ffmpeg_name(platform: Platform) -> (r: &'static str)
    ensures
        r@ == ffmpeg_file(platform),
{
    if platform == Platform::Windows {
        "ffmpeg.exe"
    } else {
        "ffmpeg"
    }
}

/// The file name of ffprobe.
pub fn ffprobe_name(platform: Platform) -> (r: &'static str)
    ensures
        r@ == ffprobe_file(platform),
{
    if platform == Platform::Windows {
        "ffprobe.exe"
    } else {
        "ffprobe"
    }
}

/// The file name of QuickJS.
pub fn quickjs_name(platform: Platform, arch: Arch) -> (r: &'static str)
    ensures
        r@ == quickjs_file(platform, arch),
{
    match platform {
        Platform::Windows => if arch == Arch::X86_64 {
            "qjs-windows-x86_64.exe"
        } else {
            "qjs-windows-x86.exe"
        },
        Platform::MacOs => "qjs-darwin",
        Platform::Linux => match arch {
            Arch::Aarch64 => "qjs-linux-aarch64",
            Arch::X86 => "qjs-linux-x86",
            _ => "qjs-linux-x86_64",
        },
    }
}

/// The path of yt-dlp.
pub fn yt_dlp(libs: &Libs) -> (r: String)
    requires
        libs.dir is Some,
    ensures
        r@ == libs.path_of(yt_dlp_file(libs.platform)),
{
    lib_path(libs, yt_dlp_name(libs.platform))
}

/// The path of ffmpeg.
pub fn ffmpeg(libs: &Libs) -> (r: String)
    requires
        libs.dir is Some,
    ensures
        r@ == libs.path_of(ffmpeg_file(libs.platform)),
{
    lib_path(libs, ffmpeg_name(libs.platform))
}

/// The path of QuickJS.
pub fn quickjs(libs: &Libs) -> (r: String)
    requires
        libs.dir is Some,
    ensures
        r@ == libs.path_of(quickjs_file(libs.platform, libs.arch)),
{
    lib_path(libs, quickjs_name(libs.platform, libs.arch))
}

/// The path of a program has no separator but the system's own, if the directory
/// has none.
pub proof fn law_separators_are_not_mixed(libs: Libs, file_name: Seq<char>)
    requires
        libs.platform == Platform::Windows,
        !libs.dir->0@.contains('/'),
        !file_name.contains('/'),
    ensures
        !libs.path_of(file_name).contains('/'),
{
    law_no_slash_is_added(libs.dir->0@, file_name);
}

// ---------------------------------------------------------------------------
// The published QuickJS
// ---------------------------------------------------------------------------
/// What was published together.
pub struct GithubRelease {
    pub assets: Vec<GithubAsset>,
}

/// One published file.
pub struct GithubAsset {
    pub name: String,
    pub browser_download_url: String,
}

/// The first file of that name.
pub open spec fn first_asset(assets: Seq<GithubAsset>, name: Seq<char>) -> Option<GithubAsset>
    decreases assets.len(),
{
    if assets.len() == 0 {
        None
    } else if assets[0].name@ == name {
        Some(assets[0])
    } else {
        first_asset(assets.drop_first(), name)
    }
}

/// Where QuickJS is to be had from: the address of the first published file of
/// its name.
pub fn quickjs_address(release: &GithubRelease, platform: Platform, arch: Arch) -> (r: Result<
    String,
    String,
>)
    ensures
        match r {
            Ok(url) => first_asset(release.assets@, quickjs_file(platform, arch)) matches Some(a)
                && a.browser_download_url@ == url@,
            Err(e) => first_asset(release.assets@, quickjs_file(platform, arch)) is None && e@
                == "QuickJS asset not found: "@ + quickjs_file(platform, arch),
        },
{
    let name = quickjs_name(platform, arch);
    let mut i: usize = 0;
    assert(release.assets@.skip(0) == release.assets@);
    while i < release.assets.len()
        invariant
            i <= release.assets@.len(),
            name@ == quickjs_file(platform, arch),
            first_asset(release.assets@, name@) == first_asset(
                release.assets@.skip(i as int),
                name@,
            ),
        decreases release.assets@.len() - i,
    {
        assert(release.assets@.skip(i as int)[0] == release.assets@[i as int]);
        assert(release.assets@.skip(i as int).drop_first() == release.assets@.skip(i + 1));
        if same_text(release.assets[i].name.as_str(), name) {
            return Ok(release.assets[i].browser_download_url.clone());
        }
        i = i + 1;
    }
    Err(cat("QuickJS asset not found: ", name))
}

/// Where the newest QuickJS is announced.
pub const QUICKJS_RELEASES: &'static str = "https://api.github.com/repos/quickjs-ng/quickjs/releases/latest";

// ---------------------------------------------------------------------------
// The published ffprobe
// ---------------------------------------------------------------------------
/// The publisher's name for a system.
pub open spec fn ffprobe_slug(platform: Platform, arch: Arch) -> Seq<char> {
    match platform {
        Platform::Windows => "win-64"@,
        Platform::MacOs => "macos-64"@,
        Platform::Linux => match arch {
            Arch::Aarch64 => "linux-arm-64"@,
            Arch::X86 => "linux-32"@,
            _ => "linux-64"@,
        },
    }
}

/// The publisher's name for a system.
pub fn ffprobe_platform(platform: Platform, arch: Arch) -> (r: &'static str)
    ensures
        r@ == ffprobe_slug(platform, arch),
{
    match platform {
        Platform::Windows => "win-64",
        Platform::MacOs => "macos-64",
        Platform::Linux => match arch {
            Arch::Aarch64 => "linux-arm-64",
            Arch::X86 => "linux-32",
            _ => "linux-64",
        },
    }
}

/// The archive that ffprobe comes in.
pub fn ffprobe_asset(platform: Platform, arch: Arch) -> (r: String)
    ensures
        r@ == "ffprobe-6.1-"@ + ffprobe_slug(platform, arch) + ".zip"@,
{
    cat3("ffprobe-6.1-", ffprobe_platform(platform, arch), ".zip")
}

/// Where an archive with ffprobe is to be had from.
pub fn ffprobe_url(asset: &str) -> (r: String)
    ensures
        r@
            == "https://github.com/ffbinaries/ffbinaries-prebuilt/releases/download/v6.1/"@
            + asset@,
{
    cat("https://github.com/ffbinaries/ffbinaries-prebuilt/releases/download/v6.1/", asset)
}

/// How many entries the zip archive in `bytes` has, or the message why they are no
/// archive.
pub uninterp spec fn zip_entries(bytes: Seq<u8>) -> Result<nat, Seq<char>>;

/// The name of the entry `i` of the zip archive in `bytes`, or the message why it
/// cannot be opened.
pub uninterp spec fn zip_entry(bytes: Seq<u8>, i: nat) -> Result<Seq<char>, Seq<char>>;

/// What the entry `i` of the zip archive in `bytes` holds, or the message why it
/// cannot be read.
pub uninterp spec fn zip_contents(bytes: Seq<u8>, i: nat) -> Result<Seq<u8>, Seq<char>>;

/// `zip::ZipArchive::new` and its `len`: the number of entries, or the error's
/// message, by the name `zip_entries`. The bytes alone decide.
#[verifier::external_body]
fn zip_len(bytes: &[u8]) -> (r: Result<usize, String>)
    ensures
        match r {
            Ok(n) => zip_entries(bytes@) == Ok::<nat, Seq<char>>(n as nat),
            Err(e) => zip_entries(bytes@) == Err::<nat, Seq<char>>(e@),
        },
{
    zip::ZipArchive::new(std::io::Cursor::new(bytes)).map(|a| a.len()).map_err(|e| e.to_string())
}

/// `zip::ZipArchive::by_index` and `ZipFile::name`: the entry's name, or the
/// error's message, by the name `zip_entry`. The bytes and the index decide.
#[verifier::external_body]
fn zip_entry_name(bytes: &[u8], i: usize) -> (r: Result<String, String>)
    ensures
        match r {
            Ok(n) => zip_entry(bytes@, i as nat) == Ok::<Seq<char>, Seq<char>>(n@),
            Err(e) => zip_entry(bytes@, i as nat) == Err::<Seq<char>, Seq<char>>(e@),
        },
{
    let mut archive = zip::ZipArchive::new(std::io::Cursor::new(bytes)).map_err(|e| e.to_string())?;
    let entry = archive.by_index(i).map_err(|e| e.to_string())?;
    Ok(entry.name().to_owned())
}

/// `zip::ZipArchive::by_index`, read to its end by `std::io::copy`: what the entry
/// holds, or the error's message, by the name `zip_contents`. The bytes and the
/// index decide.
#[verifier::external_body]
fn zip_entry_data(bytes: &[u8], i: usize) -> (r: Result<Vec<u8>, String>)
    ensures
        match r {
            Ok(d) => zip_contents(bytes@, i as nat) == Ok::<Seq<u8>, Seq<char>>(d@),
            Err(e) => zip_contents(bytes@, i as nat) == Err::<Seq<u8>, Seq<char>>(e@),
        },
{
    let mut archive = zip::ZipArchive::new(std::io::Cursor::new(bytes)).map_err(|e| e.to_string())?;
    let mut entry = archive.by_index(i).map_err(|e| e.to_string())?;
    let mut data: Vec<u8> = Vec::new();
    std::io::copy(&mut entry, &mut data).map_err(|e| e.to_string())?;
    Ok(data)
}

/// What follows the last slash or backslash of an entry's name.
pub open spec fn entry_base(name: Seq<char>) -> Seq<char>
    decreases name.len(),
{
    if name.len() == 0 || name.last() == '/' || name.last() == '\\' {
        Seq::empty()
    } else {
        entry_base(name.drop_last()).push(name.last())
    }
}

/// What follows the last slash or backslash of an entry's name.
pub fn base_name(name: &str) -> (r: String)
    ensures
        r@ == entry_base(name@),
{
    let cs = chars_of(name);
    let len: usize = cs.len();
    let mut start: usize = len;
    assert(cs@.take(len as int) == cs@);
    while start > 0 && cs[start - 1] != '/' && cs[start - 1] != '\\'
        invariant
            start <= len == cs@.len(),
            entry_base(cs@) == entry_base(cs@.take(start as int)) + cs@.skip(start as int),
        decreases start,
    {
        let ghost seen = cs@.take(start as int);
        assert(seen.drop_last() == cs@.take(start - 1));
        assert(seen.last() == cs@[start - 1]);
        assert(entry_base(seen.drop_last()).push(cs@[start - 1]) + cs@.skip(start as int)
            == entry_base(seen.drop_last()) + cs@.skip(start - 1));
        start = start - 1;
    }
    proof {
        let seen = cs@.take(start as int);
        if start > 0 {
            assert(seen.last() == cs@[start - 1]);
        }
        assert(entry_base(seen) == Seq::<char>::empty());
        assert(entry_base(cs@) == cs@.skip(start as int));
        assert(cs@.subrange(start as int, len as int) == cs@.skip(start as int));
    }
    string_of(&cs, start, len)
}

/// What is made of an entry, given its name or why it cannot be opened.
pub enum EntryVerdict {
    /// It is the wanted one.
    Wanted,
    /// It is another one.
    Other,
    /// It cannot be opened: the search ends.
    Unreadable(String),
}

/// What is made of an entry when `file_name` is wanted.
pub fn judge_entry(opened: Result<String, String>, file_name: &str) -> (r: EntryVerdict)
    ensures
        match opened {
            Ok(name) => r == (if entry_base(name@) == file_name@ {
                EntryVerdict::Wanted
            } else {
                EntryVerdict::Other
            }),
            Err(e) => r == EntryVerdict::Unreadable(e),
        },
{
    match opened {
        Ok(name) => if same_text(base_name(name.as_str()).as_str(), file_name) {
            EntryVerdict::Wanted
        } else {
            EntryVerdict::Other
        },
        Err(e) => EntryVerdict::Unreadable(e),
    }
}

/// The first entry from `i` on whose base name is `file_name`, if there is one. An
/// entry before it that cannot be opened is an error.
pub open spec fn wanted_entry(bytes: Seq<u8>, n: nat, i: nat, file_name: Seq<char>) -> Result<
    Option<nat>,
    Seq<char>,
>
    decreases n - i,
{
    if i >= n {
        Ok(None)
    } else {
        match zip_entry(bytes, i) {
            Ok(name) => if entry_base(name) == file_name {
                Ok(Some(i))
            } else {
                wanted_entry(bytes, n, i + 1, file_name)
            },
            Err(e) => Err(e),
        }
    }
}

/// The entry of the archive that holds `file_name`, or why there is none.
pub open spec fn entry_of(bytes: Seq<u8>, file_name: Seq<char>, asset: Seq<char>) -> Result<
    nat,
    Seq<char>,
> {
    match zip_entries(bytes) {
        Ok(n) => match wanted_entry(bytes, n, 0, file_name) {
            Ok(Some(i)) => Ok(i),
            Ok(None) => Err(file_name + " not found in "@ + asset),
            Err(e) => Err(e),
        },
        Err(e) => Err(e),
    }
}

/// The entry of the archive `asset` that holds `file_name`.
pub fn find_entry(bytes: &[u8], file_name: &str, asset: &str) -> (r: Result<usize, String>)
    ensures
        match r {
            Ok(i) => entry_of(bytes@, file_name@, asset@) == Ok::<nat, Seq<char>>(i as nat),
            Err(e) => entry_of(bytes@, file_name@, asset@) == Err::<nat, Seq<char>>(e@),
        },
{
    let n: usize = match zip_len(bytes) {
        Ok(n) => n,
        Err(e) => return Err(e),
    };
    let mut i: usize = 0;
    while i < n
        invariant
            i <= n,
            zip_entries(bytes@) == Ok::<nat, Seq<char>>(n as nat),
            wanted_entry(bytes@, n as nat, 0, file_name@) == wanted_entry(
                bytes@,
                n as nat,
                i as nat,
                file_name@,
            ),
        decreases n - i,
    {
        match judge_entry(zip_entry_name(bytes, i), file_name) {
            EntryVerdict::Wanted => return Ok(i),
            EntryVerdict::Other => {},
            EntryVerdict::Unreadable(e) => return Err(e),
        }
        i = i + 1;
    }
    Err(cat3(file_name, " not found in ", asset))
}

/// What an entry of the archive holds.
pub fn unpack_entry(bytes: &[u8], i: usize) -> (r: Result<Vec<u8>, String>)
    ensures
        match r {
            Ok(d) => zip_contents(bytes@, i as nat) == Ok::<Seq<u8>, Seq<char>>(d@),
            Err(e) => zip_contents(bytes@, i as nat) == Err::<Seq<u8>, Seq<char>>(e@),
        },
{
    zip_entry_data(bytes, i)
}

/// What the archive `asset` holds under `file_name`.
pub fn unpack_file(bytes: &[u8], file_name: &str, asset: &str) -> (r: Result<Vec<u8>, String>)
    ensures
        match entry_of(bytes@, file_name@, asset@) {
            Ok(i) => match r {
                Ok(d) => zip_contents(bytes@, i) == Ok::<Seq<u8>, Seq<char>>(d@),
                Err(e) => zip_contents(bytes@, i) == Err::<Seq<u8>, Seq<char>>(e@),
            },
            Err(message) => r matches Err(e) && e@ == message,
        },
{
    match find_entry(bytes, file_name, asset) {
        Ok(i) => unpack_entry(bytes, i),
        Err(e) => Err(e),
    }
}

/// An entry that is found has the wanted name, and no entry before it has.
pub proof fn law_found_entry_is_the_first(
    bytes: Seq<u8>,
    n: nat,
    i: nat,
    k: nat,
    file_name: Seq<char>,
)
    requires
        wanted_entry(bytes, n, i, file_name) == Ok::<Option<nat>, Seq<char>>(Some(k)),
    ensures
        i <= k < n,
        zip_entry(bytes, k) matches Ok(name) && entry_base(name) == file_name,
        forall|j: nat|
            i <= j < k ==> (#[trigger] zip_entry(bytes, j) matches Ok(name) && entry_base(name)
                != file_name),
    decreases n - i,
{
    if i < n {
        match zip_entry(bytes, i) {
            Ok(name) => {
                if entry_base(name) != file_name {
                    law_found_entry_is_the_first(bytes, n, i + 1, k, file_name);
                }
            },
            Err(_) => {},
        }
    }
}

// ---------------------------------------------------------------------------
// Directories
// ---------------------------------------------------------------------------
/// The directory of the application's data: on Windows a short one below the
/// user's data, elsewhere the one that the system gives it.
pub fn data_root(
    platform: Platform,
    data_dir: Option<String>,
    app_data_dir: Result<String, String>,
) -> (r: Result<String, String>)
    ensures
        platform == Platform::Windows && data_dir is Some ==> r is Ok && r->Ok_0@ == joined(
            data_dir->0@,
            "flowbit"@,
            platform,
        ),
        platform != Platform::Windows || data_dir is None ==> r == app_data_dir,
{
    if platform == Platform::Windows {
        if let Some(base) = data_dir {
            return Ok(join_path(base.as_str(), "flowbit", platform));
        }
    }
    app_data_dir
}

// ---------------------------------------------------------------------------
// Installing
// ---------------------------------------------------------------------------
/// What is being done to get the programs.
#[derive(Clone, Copy, Debug, PartialEq, Eq, Structural)]
pub enum InstallStage {
    /// The directory of the programs is being made.
    LibsDir,
    /// The directory for what they bring is being made.
    OutputDir,
    /// It is being looked whether yt-dlp and ffmpeg are there.
    Check,
    /// yt-dlp and ffmpeg are being got.
    Binaries,
    /// QuickJS is being got.
    QuickJs,
    /// ffprobe is being got.
    Ffprobe,
}

/// What came of it.
pub enum InstallEvent {
    Done,
    Failed(String),
    /// What is there.
    Present { yt_dlp: bool, ffmpeg: bool },
}

/// What follows.
pub enum InstallStep {
    Next(InstallStage),
    /// The application can be used. The note tells of what is missing.
    Ready { note: Option<String> },
    Failed(String),
}

/// The event is one that the stage can bring.
pub open spec fn install_fits(stage: InstallStage, event: InstallEvent) -> bool {
    (stage is Check) == (event is Present)
}

/// `step` follows `event`. Programs that are there are not got again, and only
/// ffprobe can be done without.
pub open spec fn install_follows(
    stage: InstallStage,
    event: InstallEvent,
    step: InstallStep,
) -> bool {
    match event {
        InstallEvent::Present { yt_dlp, ffmpeg } => step == InstallStep::Next(
            if yt_dlp && ffmpeg {
                InstallStage::QuickJs
            } else {
                InstallStage::Binaries
            },
        ),
        InstallEvent::Done => match stage {
            InstallStage::LibsDir => step == InstallStep::Next(InstallStage::OutputDir),
            InstallStage::OutputDir => step == InstallStep::Next(InstallStage::Check),
            InstallStage::Binaries => step == InstallStep::Next(InstallStage::QuickJs),
            InstallStage::QuickJs => step == InstallStep::Next(InstallStage::Ffprobe),
            _ => step matches InstallStep::Ready { note } && note is None,
        },
        InstallEvent::Failed(e) => if stage is Ffprobe {
            step matches InstallStep::Ready { note: Some(n) } && n@ == "ffprobe download failed: "@
                + e@
        } else {
            step == InstallStep::Failed(e)
        },
    }
}

/// The application is ready only after ffprobe was tried, and ffprobe is tried
/// only when QuickJS is there.
pub proof fn law_ready_means_complete(stage: InstallStage, event: InstallEvent, step: InstallStep)
    requires
        install_fits(stage, event),
        install_follows(stage, event, step),
    ensures
        step is Ready ==> stage is Ffprobe,
        step == InstallStep::Next(InstallStage::Ffprobe) ==> stage is QuickJs && event is Done,
        step == InstallStep::Next(InstallStage::QuickJs) ==> stage is Binaries && event is Done || (
        event matches InstallEvent::Present { yt_dlp, ffmpeg } && yt_dlp && ffmpeg),
{
}

/// Without ffprobe the application is ready all the same.
pub proof fn law_ffprobe_is_optional(event: InstallEvent, step: InstallStep)
    requires
        install_fits(InstallStage::Ffprobe, event),
        install_follows(InstallStage::Ffprobe, event, step),
    ensures
        step is Ready,
{
}

/// What follows an event.
pub fn install_step(stage: InstallStage, event: InstallEvent) -> (r: InstallStep)
    requires
        install_fits(stage, event),
    ensures
        install_follows(stage, event, r),
{
    match event {
        InstallEvent::Present { yt_dlp, ffmpeg } => if yt_dlp && ffmpeg {
            InstallStep::Next(InstallStage::QuickJs)
        } else {
            InstallStep::Next(InstallStage::Binaries)
        },
        InstallEvent::Done => match stage {
            InstallStage::LibsDir => InstallStep::Next(InstallStage::OutputDir),
            InstallStage::OutputDir => InstallStep::Next(InstallStage::Check),
            InstallStage::Binaries => InstallStep::Next(InstallStage::QuickJs),
            InstallStage::QuickJs => InstallStep::Next(InstallStage::Ffprobe),
            _ => InstallStep::Ready { note: None },
        },
        InstallEvent::Failed(e) => if stage == InstallStage::Ffprobe {
            InstallStep::Ready { note: Some(cat("ffprobe download failed: ", e.as_str())) }
        } else {
            InstallStep::Failed(e)
        },
    }
}

/// What there is to tell of the attempt to bring yt-dlp up to date.
pub fn update_notice(outcome: Result<bool, String>) -> (r: Option<String>)
    ensures
        match outcome {
            Ok(true) => r is None,
            Ok(false) => r matches Some(n) && n@ == "yt-dlp update check: non-zero exit"@,
            Err(e) => r matches Some(n) && n@ == "yt-dlp update check failed: "@ + e@,
        },
{
    match outcome {
        Ok(true) => None,
        Ok(false) => Some("yt-dlp update check: non-zero exit".to_owned()),
        Err(e) => Some(cat("yt-dlp update check failed: ", e.as_str())),
    }
}

} // verus!
