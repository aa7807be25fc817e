//! The programs that are installed, and the browsers that are looked for.
use crate::functions::browsers::{
    in_unix, linux_places, macos_places, places, present, windows_places, ProbeView, Roots,
};
use crate::functions::dependencies::{
    entry_base, entry_of, ffmpeg_file, ffprobe_file, ffprobe_slug, first_asset, quickjs_file,
    wanted_entry, yt_dlp_file, zip_entries, zip_entry, GithubAsset, Libs, QUICKJS_RELEASES,
};
use crate::laws::files::law_slash_between_directory_and_name;
use crate::paths::joined;
use crate::platform::{Arch, Platform};
use crate::text::opt_text;
use vstd::prelude::*;

verus! {

// ---------------------------------------------------------------------------
// Names
// ---------------------------------------------------------------------------
/// The programs are called yt-dlp, ffmpeg and ffprobe, with `.exe` behind the name on
/// Windows.
pub proof fn law_program_names(platform: Platform)
    ensures
        ({
            let exe = if platform == Platform::Windows {
                ".exe"@
            } else {
                Seq::empty()
            };
            &&& yt_dlp_file(platform) == "yt-dlp"@ + exe
            &&& ffmpeg_file(platform) == "ffmpeg"@ + exe
            &&& ffprobe_file(platform) == "ffprobe"@ + exe
        }),
{
    reveal_strlit(".exe");
    reveal_strlit("yt-dlp");
    reveal_strlit("ffmpeg");
    reveal_strlit("ffprobe");
    reveal_strlit("yt-dlp.exe");
    reveal_strlit("ffmpeg.exe");
    reveal_strlit("ffprobe.exe");
    assert("yt-dlp.exe"@ == "yt-dlp"@ + ".exe"@);
    assert("ffmpeg.exe"@ == "ffmpeg"@ + ".exe"@);
    assert("ffprobe.exe"@ == "ffprobe"@ + ".exe"@);
    let none = Seq::<char>::empty();
    assert("yt-dlp"@ + none == "yt-dlp"@);
    assert("ffmpeg"@ + none == "ffmpeg"@);
    assert("ffprobe"@ + none == "ffprobe"@);
}

/// QuickJS and ffprobe are those for the system and the processor at hand: for Windows,
/// macOS or Linux, and for processors of 64 bits, of 32 bits or of the ARM kind where
/// there is a choice.
pub proof fn law_downloads_fit_the_system(platform: Platform, arch: Arch)
    ensures
        ({
            let js = quickjs_file(platform, arch);
            let probe = ffprobe_slug(platform, arch);
            let arm = arch == Arch::Aarch64;
            let small = arch == Arch::X86;
            &&& platform == Platform::Windows ==> js == "qjs-windows-"@ + (if arch == Arch::X86_64 {
                "x86_64"@
            } else {
                "x86"@
            }) + ".exe"@ && probe == "win-64"@
            &&& platform == Platform::MacOs ==> js == "qjs-darwin"@ && probe == "macos-64"@
            &&& platform == Platform::Linux ==> js == "qjs-linux-"@ + (if arm {
                "aarch64"@
            } else if small {
                "x86"@
            } else {
                "x86_64"@
            }) && probe == "linux-"@ + (if arm {
                "arm-64"@
            } else if small {
                "32"@
            } else {
                "64"@
            })
        }),
        QUICKJS_RELEASES@ == "https://api.github.com/repos/quickjs-ng/quickjs/releases/latest"@,
{
    match platform {
        Platform::Windows => {
            reveal_strlit("qjs-windows-");
            reveal_strlit("x86_64");
            reveal_strlit("x86");
            reveal_strlit(".exe");
            reveal_strlit("qjs-windows-x86_64.exe");
            reveal_strlit("qjs-windows-x86.exe");
            assert("qjs-windows-x86_64.exe"@ == "qjs-windows-"@ + "x86_64"@ + ".exe"@);
            assert("qjs-windows-x86.exe"@ == "qjs-windows-"@ + "x86"@ + ".exe"@);
        },
        Platform::MacOs => {},
        Platform::Linux => {
            reveal_strlit("qjs-linux-");
            reveal_strlit("aarch64");
            reveal_strlit("x86_64");
            reveal_strlit("x86");
            reveal_strlit("qjs-linux-aarch64");
            reveal_strlit("qjs-linux-x86_64");
            reveal_strlit("qjs-linux-x86");
            assert("qjs-linux-aarch64"@ == "qjs-linux-"@ + "aarch64"@);
            assert("qjs-linux-x86_64"@ == "qjs-linux-"@ + "x86_64"@);
            assert("qjs-linux-x86"@ == "qjs-linux-"@ + "x86"@);
            reveal_strlit("linux-");
            reveal_strlit("arm-64");
            reveal_strlit("32");
            reveal_strlit("64");
            reveal_strlit("linux-arm-64");
            reveal_strlit("linux-32");
            reveal_strlit("linux-64");
            assert("linux-arm-64"@ == "linux-"@ + "arm-64"@);
            assert("linux-32"@ == "linux-"@ + "32"@);
            assert("linux-64"@ == "linux-"@ + "64"@);
        },
    }
}

/// A program lies in the directory of the programs, under its name.
pub proof fn law_programs_lie_in_their_directory(libs: Libs, file_name: Seq<char>)
    requires
        libs.dir is Some,
    ensures
        libs.path_of(file_name) == joined(libs.dir->0@, file_name, libs.platform),
{
}

// ---------------------------------------------------------------------------
// What is published
// ---------------------------------------------------------------------------
/// The published file that is taken is the first of the wanted name; there is none
/// exactly if none has the name.
pub proof fn law_first_of_the_name_is_taken(assets: Seq<GithubAsset>, name: Seq<char>, i: int)
    ensures
        0 <= i < assets.len() && assets[i].name@ == name && (forall|j: int|
            0 <= j < i ==> assets[j].name@ != name) ==> first_asset(assets, name) == Some(assets[i]),
        (forall|j: int| 0 <= j < assets.len() ==> assets[j].name@ != name) ==> first_asset(
            assets,
            name,
        ) is None,
    decreases assets.len(),
{
    if assets.len() > 0 {
        law_first_of_the_name_is_taken(assets.drop_first(), name, i - 1);
        assert(forall|j: int|
            0 <= j < assets.len() - 1 ==> assets.drop_first()[j] == assets[j + 1]);
    }
}

/// The base name of an entry is what follows its last slash or backslash.
pub proof fn law_base_name_follows_the_last_slash(dir: Seq<char>, name: Seq<char>)
    requires
        !name.contains('/'),
        !name.contains('\\'),
    ensures
        entry_base(dir.push('/') + name) == name,
        entry_base(dir.push('\\') + name) == name,
        entry_base(name) == name,
{
    lemma_base(dir.push('/'), name);
    lemma_base(dir.push('\\'), name);
    lemma_base(Seq::empty(), name);
    assert(Seq::<char>::empty() + name == name);
}

proof fn lemma_base(dir: Seq<char>, name: Seq<char>)
    requires
        !name.contains('/'),
        !name.contains('\\'),
        dir.len() == 0 || dir.last() == '/' || dir.last() == '\\',
    ensures
        entry_base(dir + name) == name,
    decreases name.len(),
{
    if name.len() == 0 {
        assert(dir + name == dir);
    } else {
        assert(name.contains(name.last()));
        let init = name.drop_last();
        assert forall|i: int| 0 <= i < init.len() implies init[i] != '/' && init[i] != '\\' by {
            assert(name.contains(name[i]));
        }
        assert((dir + name).drop_last() == dir + init);
        lemma_base(dir, init);
        assert(init.push(name.last()) == name);
    }
}

/// If an archive can be read and no entry has the wanted base name, this is reported
/// with the names of the file and of the archive.
pub proof fn law_missing_entry_is_reported(
    bytes: Seq<u8>,
    n: nat,
    file_name: Seq<char>,
    asset: Seq<char>,
)
    requires
        zip_entries(bytes) == Ok::<nat, Seq<char>>(n),
        forall|i: nat|
            i < n ==> (#[trigger] zip_entry(bytes, i) matches Ok(name) && entry_base(name)
                != file_name),
    ensures
        entry_of(bytes, file_name, asset) == Err::<nat, Seq<char>>(
            file_name + " not found in "@ + asset,
        ),
{
    lemma_none_wanted(bytes, n, 0, file_name);
}

proof fn lemma_none_wanted(bytes: Seq<u8>, n: nat, i: nat, file_name: Seq<char>)
    requires
        forall|k: nat|
            k < n ==> (#[trigger] zip_entry(bytes, k) matches Ok(name) && entry_base(name)
                != file_name),
    ensures
        wanted_entry(bytes, n, i, file_name) == Ok::<Option<nat>, Seq<char>>(None),
    decreases n - i,
{
    if i < n {
        assert(zip_entry(bytes, i) is Ok);
        lemma_none_wanted(bytes, n, i + 1, file_name);
    }
}

// ---------------------------------------------------------------------------
// Browsers
// ---------------------------------------------------------------------------
/// A browser is found exactly if one of its places is there, and the browsers are found
/// in the order of the places.
pub proof fn law_browsers_are_found_in_order(
    probes: Seq<ProbeView>,
    there: Seq<bool>,
    probe: ProbeView,
    is_there: bool,
)
    requires
        probes.len() == there.len(),
    ensures
        present(Seq::empty(), Seq::empty()) == Seq::<Seq<char>>::empty(),
        present(probes.push(probe), there.push(is_there)) == if is_there {
            present(probes, there).push(probe.browser)
        } else {
            present(probes, there)
        },
{
    assert(probes.push(probe).drop_last() == probes);
    lemma_present(probes, there, there.push(is_there));
}

proof fn lemma_present(probes: Seq<ProbeView>, there: Seq<bool>, longer: Seq<bool>)
    requires
        probes.len() <= there.len(),
        probes.len() <= longer.len(),
        forall|i: int| 0 <= i < probes.len() ==> there[i] == longer[i],
    ensures
        present(probes, there) == present(probes, longer),
    decreases probes.len(),
{
    if probes.len() > 0 {
        lemma_present(probes.drop_last(), there, longer);
    }
}

/// The places that are looked at are those of the system at hand, below the directories
/// that the system knows.
pub proof fn law_places_of_a_system(roots: Roots)
    ensures
        places(Platform::Windows, roots) == windows_places(
            opt_text(roots.roaming),
            opt_text(roots.local),
        ),
        places(Platform::MacOs, roots) == macos_places(opt_text(roots.home)),
        places(Platform::Linux, roots) == linux_places(
            opt_text(roots.home),
            opt_text(roots.config),
        ),
{
}

/// `probe` is the directory of `browser` that `path` leads to.
pub open spec fn is_directory_of(probe: ProbeView, browser: Seq<char>, path: Seq<char>) -> bool {
    probe.browser == browser && !probe.file && probe.path == path
}

/// On Windows the profiles are directories below the user's roaming data, of Firefox
/// and Opera, and below the user's local data, of the others.
pub proof fn law_places_on_windows(roaming: Seq<char>, local: Seq<char>)
    ensures
        ({
            let p = windows_places(Some(roaming), Some(local));
            &&& p.len() == 8
            &&& is_directory_of(p[0], "firefox"@, roaming + "\\Mozilla\\Firefox\\Profiles"@)
            &&& is_directory_of(p[1], "opera"@, roaming + "\\Opera Software\\Opera Stable"@)
            &&& is_directory_of(p[2], "chrome"@, local + "\\Google\\Chrome\\User Data"@)
            &&& is_directory_of(p[3], "edge"@, local + "\\Microsoft\\Edge\\User Data"@)
            &&& is_directory_of(
                p[4],
                "brave"@,
                local + "\\BraveSoftware\\Brave-Browser\\User Data"@,
            )
            &&& is_directory_of(p[5], "chromium"@, local + "\\Chromium\\User Data"@)
            &&& is_directory_of(p[6], "vivaldi"@, local + "\\Vivaldi\\User Data"@)
            &&& is_directory_of(p[7], "whale"@, local + "\\Naver\\Naver Whale\\User Data"@)
            &&& windows_places(Some(roaming), None) == p.take(2)
            &&& windows_places(None, Some(local)) == p.skip(2)
            &&& windows_places(None, None).len() == 0
        }),
{
    let p = windows_places(Some(roaming), Some(local));
    assert(windows_places(Some(roaming), None) == p.take(2));
    assert(windows_places(None, Some(local)) == p.skip(2));
}

/// On macOS the profiles are directories below the user's library, but for the cookies
/// of Safari, which are a file.
pub proof fn law_places_on_macos(home: Seq<char>)
    requires
        home.len() > 0,
        home.last() != '/',
    ensures
        ({
            let p = macos_places(Some(home));
            let support = home + "/Library/Application Support/"@;
            &&& p.len() == 8
            &&& is_directory_of(p[0], "firefox"@, support + "Firefox/Profiles"@)
            &&& is_directory_of(p[1], "chrome"@, support + "Google/Chrome"@)
            &&& is_directory_of(p[2], "edge"@, support + "Microsoft Edge"@)
            &&& is_directory_of(p[3], "brave"@, support + "BraveSoftware/Brave-Browser"@)
            &&& is_directory_of(p[4], "chromium"@, support + "Chromium"@)
            &&& is_directory_of(p[5], "vivaldi"@, support + "Vivaldi"@)
            &&& is_directory_of(p[6], "opera"@, support + "com.operasoftware.Opera"@)
            &&& p[7].browser == "safari"@ && p[7].file && p[7].path == home
                + "/Library/Cookies/Cookies.binarycookies"@
            &&& macos_places(None).len() == 0
        }),
{
    lemma_below(home, "Library/Application Support/Firefox/Profiles"@);
    lemma_below(home, "Library/Application Support/Google/Chrome"@);
    lemma_below(home, "Library/Application Support/Microsoft Edge"@);
    lemma_below(home, "Library/Application Support/BraveSoftware/Brave-Browser"@);
    lemma_below(home, "Library/Application Support/Chromium"@);
    lemma_below(home, "Library/Application Support/Vivaldi"@);
    lemma_below(home, "Library/Application Support/com.operasoftware.Opera"@);
    lemma_below(home, "Library/Cookies/Cookies.binarycookies"@);
    lemma_library();
    lemma_regroup(home, "Firefox/Profiles"@);
    lemma_regroup(home, "Google/Chrome"@);
    lemma_regroup(home, "Microsoft Edge"@);
    lemma_regroup(home, "BraveSoftware/Brave-Browser"@);
    lemma_regroup(home, "Chromium"@);
    lemma_regroup(home, "Vivaldi"@);
    lemma_regroup(home, "com.operasoftware.Opera"@);
    reveal_strlit("/Library/Cookies/Cookies.binarycookies");
    reveal_strlit("Library/Cookies/Cookies.binarycookies");
    assert(home.push('/') + "Library/Cookies/Cookies.binarycookies"@ == home
        + "/Library/Cookies/Cookies.binarycookies"@);
}

/// A name that does not begin with a slash comes behind the directory and a slash.
proof fn lemma_below(dir: Seq<char>, name: Seq<char>)
    requires
        dir.len() > 0,
        dir.last() != '/',
    ensures
        name.len() > 0 && name[0] != '/' ==> in_unix(dir, name) == dir.push('/') + name,
{
    law_slash_between_directory_and_name(dir, name, Platform::Linux);
}

proof fn lemma_regroup(home: Seq<char>, name: Seq<char>)
    ensures
        home.push('/') + ("Library/Application Support/"@ + name) == home
            + "/Library/Application Support/"@ + name,
{
    reveal_strlit("Library/Application Support/");
    reveal_strlit("/Library/Application Support/");
    assert("/Library/Application Support/"@ == seq!['/'] + "Library/Application Support/"@);
    assert(home.push('/') + ("Library/Application Support/"@ + name) == home + (seq!['/']
        + "Library/Application Support/"@) + name);
}

proof fn lemma_library()
    ensures
        "Library/Application Support/Firefox/Profiles"@ == "Library/Application Support/"@
            + "Firefox/Profiles"@,
        "Library/Application Support/Google/Chrome"@ == "Library/Application Support/"@
            + "Google/Chrome"@,
        "Library/Application Support/Microsoft Edge"@ == "Library/Application Support/"@
            + "Microsoft Edge"@,
        "Library/Application Support/BraveSoftware/Brave-Browser"@
            == "Library/Application Support/"@ + "BraveSoftware/Brave-Browser"@,
        "Library/Application Support/Chromium"@ == "Library/Application Support/"@ + "Chromium"@,
        "Library/Application Support/Vivaldi"@ == "Library/Application Support/"@ + "Vivaldi"@,
        "Library/Application Support/com.operasoftware.Opera"@ == "Library/Application Support/"@
            + "com.operasoftware.Opera"@,
        "Library/Application Support/"@.len() == 28,
        "Library/Application Support/"@[0] == 'L',
        "Library/Cookies/Cookies.binarycookies"@.len() == 37,
        "Library/Cookies/Cookies.binarycookies"@[0] == 'L',
{
    reveal_strlit("Library/Application Support/");
    reveal_strlit("Library/Cookies/Cookies.binarycookies");
    assert("Library/Application Support/Firefox/Profiles"@ == "Library/Application Support/"@
        + "Firefox/Profiles"@) by {
        reveal_strlit("Library/Application Support/Firefox/Profiles");
        reveal_strlit("Firefox/Profiles");
    }
    assert("Library/Application Support/Google/Chrome"@ == "Library/Application Support/"@
        + "Google/Chrome"@) by {
        reveal_strlit("Library/Application Support/Google/Chrome");
        reveal_strlit("Google/Chrome");
    }
    assert("Library/Application Support/Microsoft Edge"@ == "Library/Application Support/"@
        + "Microsoft Edge"@) by {
        reveal_strlit("Library/Application Support/Microsoft Edge");
        reveal_strlit("Microsoft Edge");
    }
    assert("Library/Application Support/BraveSoftware/Brave-Browser"@
        == "Library/Application Support/"@ + "BraveSoftware/Brave-Browser"@) by {
        reveal_strlit("Library/Application Support/BraveSoftware/Brave-Browser");
        reveal_strlit("BraveSoftware/Brave-Browser");
    }
    assert("Library/Application Support/Chromium"@ == "Library/Application Support/"@
        + "Chromium"@) by {
        reveal_strlit("Library/Application Support/Chromium");
        reveal_strlit("Chromium");
    }
    assert("Library/Application Support/Vivaldi"@ == "Library/Application Support/"@
        + "Vivaldi"@) by {
        reveal_strlit("Library/Application Support/Vivaldi");
        reveal_strlit("Vivaldi");
    }
    assert("Library/Application Support/com.operasoftware.Opera"@
        == "Library/Application Support/"@ + "com.operasoftware.Opera"@) by {
        reveal_strlit("Library/Application Support/com.operasoftware.Opera");
        reveal_strlit("com.operasoftware.Opera");
    }
}

/// Elsewhere the profiles are directories below the directory of configurations, which
/// is `.config` below the user's if it is not known, but for those of Firefox, which
/// are told by a file below the user's directory.
pub proof fn law_places_on_linux(home: Seq<char>, config: Option<Seq<char>>)
    requires
        home.len() > 0,
        home.last() != '/',
        config is Some ==> config->0.len() > 0 && config->0.last() != '/',
    ensures
        ({
            let p = linux_places(Some(home), config);
            let c = match config {
                Some(c) => c + "/"@,
                None => home + "/.config/"@,
            };
            &&& p.len() == 8
            &&& p[0].browser == "firefox"@ && p[0].file && p[0].path == home
                + "/.mozilla/firefox/profiles.ini"@
            &&& is_directory_of(p[1], "chrome"@, c + "google-chrome"@)
            &&& is_directory_of(p[2], "chromium"@, c + "chromium"@)
            &&& is_directory_of(p[3], "edge"@, c + "microsoft-edge"@)
            &&& is_directory_of(p[4], "brave"@, c + "BraveSoftware/Brave-Browser"@)
            &&& is_directory_of(p[5], "vivaldi"@, c + "vivaldi"@)
            &&& is_directory_of(p[6], "opera"@, c + "opera"@)
            &&& is_directory_of(p[7], "whale"@, c + "naver-whale"@)
            &&& linux_places(None, config).len() == 0
        }),
{
    reveal_strlit("/");
    reveal_strlit(".config");
    reveal_strlit("/.config/");
    let dir = match config {
        Some(c) => c,
        None => in_unix(home, ".config"@),
    };
    lemma_below(home, ".config"@);
    if config is None {
        assert(dir == home.push('/') + ".config"@);
        assert(dir.last() == 'g');
        assert(dir.push('/') == home + "/.config/"@);
    } else {
        assert(dir.push('/') == dir + "/"@);
    }
    reveal_strlit(".mozilla/firefox/profiles.ini");
    reveal_strlit("/.mozilla/firefox/profiles.ini");
    lemma_below(home, ".mozilla/firefox/profiles.ini"@);
    assert(home.push('/') + ".mozilla/firefox/profiles.ini"@ == home
        + "/.mozilla/firefox/profiles.ini"@);
    reveal_strlit("google-chrome");
    reveal_strlit("chromium");
    reveal_strlit("microsoft-edge");
    reveal_strlit("BraveSoftware/Brave-Browser");
    reveal_strlit("vivaldi");
    reveal_strlit("opera");
    reveal_strlit("naver-whale");
    lemma_below(dir, "google-chrome"@);
    lemma_below(dir, "chromium"@);
    lemma_below(dir, "microsoft-edge"@);
    lemma_below(dir, "BraveSoftware/Brave-Browser"@);
    lemma_below(dir, "vivaldi"@);
    lemma_below(dir, "opera"@);
    lemma_below(dir, "naver-whale"@);
}

} // verus!
