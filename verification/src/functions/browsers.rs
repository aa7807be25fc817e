//! Where the profiles of browsers are looked for.
use crate::paths::{join_path, joined};
use crate::platform::Platform;
use crate::text::{cat, opt_str, opt_text, push_text, texts};
use vstd::prelude::*;

verus! {

/// A place that a browser's profile would be at.
pub struct Probe {
    pub browser: &'static str,
    pub path: String,
    /// Whether it would be a file. Otherwise it would be a directory.
    pub file: bool,
}

/// What a probe holds.
pub struct ProbeView {
    pub browser: Seq<char>,
    pub path: Seq<char>,
    pub file: bool,
}

impl View for Probe {
    type V = ProbeView;

    open spec fn view(&self) -> ProbeView {
        ProbeView { browser: self.browser@, path: self.path@, file: self.file }
    }
}

/// What probes hold.
pub open spec fn probe_views(probes: Seq<Probe>) -> Seq<ProbeView> {
    Seq::new(probes.len(), |i: int| probes[i]@)
}

/// A directory that would be there.
pub open spec fn dir_probe(browser: Seq<char>, path: Seq<char>) -> ProbeView {
    ProbeView { browser, path, file: false }
}

/// A file that would be there.
pub open spec fn file_probe(browser: Seq<char>, path: Seq<char>) -> ProbeView {
    ProbeView { browser, path, file: true }
}

/// The places on Windows: below the roaming and the local data of the user.
pub open spec fn windows_places(
    roaming: Option<Seq<char>>,
    local: Option<Seq<char>>,
) -> Seq<ProbeView> {
    (match roaming {
        Some(r) => seq![
            dir_probe("firefox"@, r + "\\Mozilla\\Firefox\\Profiles"@),
            dir_probe("opera"@, r + "\\Opera Software\\Opera Stable"@),
        ],
        None => Seq::empty(),
    }) + (match local {
        Some(l) => seq![
            dir_probe("chrome"@, l + "\\Google\\Chrome\\User Data"@),
            dir_probe("edge"@, l + "\\Microsoft\\Edge\\User Data"@),
            dir_probe("brave"@, l + "\\BraveSoftware\\Brave-Browser\\User Data"@),
            dir_probe("chromium"@, l + "\\Chromium\\User Data"@),
            dir_probe("vivaldi"@, l + "\\Vivaldi\\User Data"@),
            dir_probe("whale"@, l + "\\Naver\\Naver Whale\\User Data"@),
        ],
        None => Seq::empty(),
    })
}

/// The places on macOS: below the user's library.
pub open spec fn macos_places(home: Option<Seq<char>>) -> Seq<ProbeView> {
    match home {
        Some(h) => seq![
            dir_probe("firefox"@, in_unix(h, "Library/Application Support/Firefox/Profiles"@)),
            dir_probe("chrome"@, in_unix(h, "Library/Application Support/Google/Chrome"@)),
            dir_probe("edge"@, in_unix(h, "Library/Application Support/Microsoft Edge"@)),
            dir_probe(
                "brave"@,
                in_unix(h, "Library/Application Support/BraveSoftware/Brave-Browser"@),
            ),
            dir_probe("chromium"@, in_unix(h, "Library/Application Support/Chromium"@)),
            dir_probe("vivaldi"@, in_unix(h, "Library/Application Support/Vivaldi"@)),
            dir_probe(
                "opera"@,
                in_unix(h, "Library/Application Support/com.operasoftware.Opera"@),
            ),
            file_probe("safari"@, in_unix(h, "Library/Cookies/Cookies.binarycookies"@)),
        ],
        None => Seq::empty(),
    }
}

/// The places on other systems: below the user's directory and the directory of
/// configurations.
pub open spec fn linux_places(
    home: Option<Seq<char>>,
    config: Option<Seq<char>>,
) -> Seq<ProbeView> {
    match home {
        Some(h) => {
            let c = match config {
                Some(c) => c,
                None => in_unix(h, ".config"@),
            };
            seq![
                file_probe("firefox"@, in_unix(h, ".mozilla/firefox/profiles.ini"@)),
                dir_probe("chrome"@, in_unix(c, "google-chrome"@)),
                dir_probe("chromium"@, in_unix(c, "chromium"@)),
                dir_probe("edge"@, in_unix(c, "microsoft-edge"@)),
                dir_probe("brave"@, in_unix(c, "BraveSoftware/Brave-Browser"@)),
                dir_probe("vivaldi"@, in_unix(c, "vivaldi"@)),
                dir_probe("opera"@, in_unix(c, "opera"@)),
                dir_probe("whale"@, in_unix(c, "naver-whale"@)),
            ]
        },
        None => Seq::empty(),
    }
}

/// A path below a directory, where a slash separates.
pub open spec fn in_unix(dir: Seq<char>, name: Seq<char>) -> Seq<char> {
    joined(dir, name, Platform::Linux)
}

fn push_probe(probes: &mut Vec<Probe>, browser: &'static str, path: String, file: bool)
    ensures
        probe_views(final(probes)@) == probe_views(old(probes)@).push(
            (ProbeView { browser: browser@, path: path@, file }),
        ),
{
    probes.push(Probe { browser, path, file });
    assert(probe_views(probes@) == probe_views(old(probes)@).push(
        (ProbeView { browser: browser@, path: path@, file }),
    ));
}

fn below(dir: &str, name: &str) -> (r: String)
    ensures
        r@ == in_unix(dir@, name@),
{
    join_path(dir, name, Platform::Linux)
}

/// The places on Windows.
pub fn windows_probes(roaming: Option<&str>, local: Option<&str>) -> (r: Vec<Probe>)
    ensures
        probe_views(r@) == windows_places(opt_str(roaming), opt_str(local)),
{
    let mut out: Vec<Probe> = Vec::new();
    assert(probe_views(out@) == Seq::<ProbeView>::empty());
    if let Some(r) = roaming {
        push_probe(&mut out, "firefox", cat(r, "\\Mozilla\\Firefox\\Profiles"), false);
        push_probe(&mut out, "opera", cat(r, "\\Opera Software\\Opera Stable"), false);
    }
    let ghost start = probe_views(out@);
    assert(start == windows_places(opt_str(roaming), None));
    if let Some(l) = local {
        push_probe(&mut out, "chrome", cat(l, "\\Google\\Chrome\\User Data"), false);
        push_probe(&mut out, "edge", cat(l, "\\Microsoft\\Edge\\User Data"), false);
        push_probe(
            &mut out,
            "brave",
            cat(l, "\\BraveSoftware\\Brave-Browser\\User Data"),
            false,
        );
        push_probe(&mut out, "chromium", cat(l, "\\Chromium\\User Data"), false);
        push_probe(&mut out, "vivaldi", cat(l, "\\Vivaldi\\User Data"), false);
        push_probe(&mut out, "whale", cat(l, "\\Naver\\Naver Whale\\User Data"), false);
    }
    assert(probe_views(out@) == windows_places(opt_str(roaming), opt_str(local)));
    out
}

/// The places on macOS.
pub fn macos_probes(home: Option<&str>) -> (r: Vec<Probe>)
    ensures
        probe_views(r@) == macos_places(opt_str(home)),
{
    let mut out: Vec<Probe> = Vec::new();
    assert(probe_views(out@) == Seq::<ProbeView>::empty());
    if let Some(h) = home {
        push_probe(
            &mut out,
            "firefox",
            below(h, "Library/Application Support/Firefox/Profiles"),
            false,
        );
        push_probe(
            &mut out,
            "chrome",
            below(h, "Library/Application Support/Google/Chrome"),
            false,
        );
        push_probe(
            &mut out,
            "edge",
            below(h, "Library/Application Support/Microsoft Edge"),
            false,
        );
        push_probe(
            &mut out,
            "brave",
            below(h, "Library/Application Support/BraveSoftware/Brave-Browser"),
            false,
        );
        push_probe(&mut out, "chromium", below(h, "Library/Application Support/Chromium"), false);
        push_probe(&mut out, "vivaldi", below(h, "Library/Application Support/Vivaldi"), false);
        push_probe(
            &mut out,
            "opera",
            below(h, "Library/Application Support/com.operasoftware.Opera"),
            false,
        );
        push_probe(&mut out, "safari", below(h, "Library/Cookies/Cookies.binarycookies"), true);
    }
    out
}

/// The places on other systems.
pub fn linux_probes(home: Option<&str>, config: Option<&str>) -> (r: Vec<Probe>)
    ensures
        probe_views(r@) == linux_places(opt_str(home), opt_str(config)),
{
    let mut out: Vec<Probe> = Vec::new();
    assert(probe_views(out@) == Seq::<ProbeView>::empty());
    if let Some(h) = home {
        let dir = match config {
            Some(c) => c.to_owned(),
            None => below(h, ".config"),
        };
        let c = dir.as_str();
        push_probe(&mut out, "firefox", below(h, ".mozilla/firefox/profiles.ini"), true);
        push_probe(&mut out, "chrome", below(c, "google-chrome"), false);
        push_probe(&mut out, "chromium", below(c, "chromium"), false);
        push_probe(&mut out, "edge", below(c, "microsoft-edge"), false);
        push_probe(&mut out, "brave", below(c, "BraveSoftware/Brave-Browser"), false);
        push_probe(&mut out, "vivaldi", below(c, "vivaldi"), false);
        push_probe(&mut out, "opera", below(c, "opera"), false);
        push_probe(&mut out, "whale", below(c, "naver-whale"), false);
    }
    out
}

/// The directories below which profiles are looked for, as far as the system knows
/// them: on Windows the roaming and the local data of the user, elsewhere the
/// user's directory and the directory of configurations.
pub struct Roots {
    pub roaming: Option<String>,
    pub local: Option<String>,
    pub home: Option<String>,
    pub config: Option<String>,
}

/// The places on a system.
pub open spec fn places(platform: Platform, roots: Roots) -> Seq<ProbeView> {
    match platform {
        Platform::Windows => windows_places(opt_text(roots.roaming), opt_text(roots.local)),
        Platform::MacOs => macos_places(opt_text(roots.home)),
        Platform::Linux => linux_places(opt_text(roots.home), opt_text(roots.config)),
    }
}

/// `o` as a slice.
fn slice(o: &Option<String>) -> (r: Option<&str>)
    ensures
        opt_str(r) == opt_text(*o),
{
    match o {
        Some(s) => Some(s.as_str()),
        None => None,
    }
}

/// The places on a system.
pub fn browser_probes(platform: Platform, roots: &Roots) -> (r: Vec<Probe>)
    ensures
        probe_views(r@) == places(platform, *roots),
{
    match platform {
        Platform::Windows => windows_probes(slice(&roots.roaming), slice(&roots.local)),
        Platform::MacOs => macos_probes(slice(&roots.home)),
        Platform::Linux => linux_probes(slice(&roots.home), slice(&roots.config)),
    }
}

/// The browsers whose profiles are there, in the order of the places.
pub open spec fn present(probes: Seq<ProbeView>, there: Seq<bool>) -> Seq<Seq<char>>
    decreases probes.len(),
{
    if probes.len() == 0 {
        Seq::empty()
    } else if there[probes.len() - 1] {
        present(probes.drop_last(), there).push(probes.last().browser)
    } else {
        present(probes.drop_last(), there)
    }
}

/// The browsers whose profiles are there, given which of the places exist.
pub fn detect_browsers(probes: &Vec<Probe>, there: &Vec<bool>) -> (r: Vec<String>)
    requires
        probes@.len() == there@.len(),
    ensures
        texts(r@) == present(probe_views(probes@), there@),
{
    let mut found: Vec<String> = Vec::new();
    let ghost all = probe_views(probes@);
    let mut i: usize = 0;
    assert(texts(found@) == Seq::<Seq<char>>::empty());
    while i < probes.len()
        invariant
            i <= probes@.len(),
            probes@.len() == there@.len(),
            all == probe_views(probes@),
            texts(found@) == present(all.take(i as int), there@),
        decreases probes@.len() - i,
    {
        proof {
            let next = all.take(i + 1);
            assert(next.drop_last() == all.take(i as int));
            assert(next.last() == probes@[i as int]@);
        }
        if there[i] {
            push_text(&mut found, probes[i].browser);
        }
        i = i + 1;
    }
    assert(all.take(all.len() as int) == all);
    found
}

/// If Firefox has a profile, its cookies are tried first: they can be read without
/// the system's key store.
pub proof fn law_firefox_comes_first(probes: Seq<ProbeView>, there: Seq<bool>)
    requires
        probes.len() > 0,
        probes.len() == there.len(),
        probes[0].browser == "firefox"@,
        there[0],
    ensures
        present(probes, there).len() > 0,
        present(probes, there)[0] == "firefox"@,
{
    lemma_first_present(probes, there);
}

proof fn lemma_first_present(probes: Seq<ProbeView>, there: Seq<bool>)
    requires
        probes.len() > 0,
        probes.len() <= there.len(),
        there[0],
    ensures
        present(probes, there).len() > 0,
        present(probes, there)[0] == probes[0].browser,
    decreases probes.len(),
{
    if probes.len() == 1 {
        assert(present(probes.drop_last(), there) == Seq::<Seq<char>>::empty());
    } else {
        lemma_first_present(probes.drop_last(), there);
    }
}

/// Firefox is the first place on every system, provided that the directory which
/// its profiles lie below is known.
pub proof fn law_firefox_is_looked_for_first(platform: Platform, roots: Roots)
    requires
        platform == Platform::Windows ==> roots.roaming is Some,
        platform != Platform::Windows ==> roots.home is Some,
    ensures
        places(platform, roots).len() > 0,
        places(platform, roots)[0].browser == "firefox"@,
{
}

} // verus!
