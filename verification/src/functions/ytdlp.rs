//! How yt-dlp is run: its flags, and what is tried again with cookies.
use crate::functions::output::{is_bot_check, looks_like_bot_check};
use crate::text::{
    cat3, copy_texts, extend_texts, opt_str, opt_text, push_text, same_text, texts,
};
use vstd::prelude::*;

verus! {

/// The clients that yt-dlp is to ask as, for all sound tracks and for the best
/// picture.
pub const YT_MULTI_AUDIO_CLIENT: &'static str = "youtube:player_client=default,web_embedded";

// ---------------------------------------------------------------------------
// Flags
// ---------------------------------------------------------------------------
/// The flags for a steady download: endless retries, resuming, parallel
/// fragments, short timeouts, no file times, no complaint about the version.
pub open spec fn network_flags() -> Seq<Seq<char>> {
    seq![
        "--no-mtime"@,
        "--retries"@,
        "infinite"@,
        "--fragment-retries"@,
        "infinite"@,
        "--file-access-retries"@,
        "10"@,
        "--socket-timeout"@,
        "5"@,
        "--http-chunk-size"@,
        "10M"@,
        "--concurrent-fragments"@,
        "4"@,
        "--continue"@,
        "--progress"@,
        "--newline"@,
        "--compat-options"@,
        "filename-sanitization"@,
        "--no-update"@,
    ]
}

/// The flags for a steady download.
pub fn network_args() -> (r: Vec<String>)
    ensures
        texts(r@) == network_flags(),
{
    let mut out: Vec<String> = Vec::new();
    assert(texts(out@) == Seq::<Seq<char>>::empty());
    push_text(&mut out, "--no-mtime");
    push_text(&mut out, "--retries");
    push_text(&mut out, "infinite");
    push_text(&mut out, "--fragment-retries");
    push_text(&mut out, "infinite");
    push_text(&mut out, "--file-access-retries");
    push_text(&mut out, "10");
    push_text(&mut out, "--socket-timeout");
    push_text(&mut out, "5");
    push_text(&mut out, "--http-chunk-size");
    push_text(&mut out, "10M");
    push_text(&mut out, "--concurrent-fragments");
    push_text(&mut out, "4");
    push_text(&mut out, "--continue");
    push_text(&mut out, "--progress");
    push_text(&mut out, "--newline");
    push_text(&mut out, "--compat-options");
    push_text(&mut out, "filename-sanitization");
    push_text(&mut out, "--no-update");
    out
}

/// The flags of every run: where ffmpeg and the JavaScript runtime are, and no
/// colours.
pub open spec fn default_flags(ffmpeg: Seq<char>, quickjs: Seq<char>) -> Seq<Seq<char>> {
    seq![
        "--ffmpeg-location"@,
        ffmpeg,
        "--js-runtimes"@,
        "quickjs:"@ + quickjs,
        "--color"@,
        "never"@,
    ]
}

/// The flags of every run.
pub fn default_ytdlp_args(ffmpeg: &str, quickjs: &str) -> (r: Vec<String>)
    ensures
        texts(r@) == default_flags(ffmpeg@, quickjs@),
{
    let mut out: Vec<String> = Vec::new();
    assert(texts(out@) == Seq::<Seq<char>>::empty());
    push_text(&mut out, "--ffmpeg-location");
    push_text(&mut out, ffmpeg);
    push_text(&mut out, "--js-runtimes");
    let runtime = cat3("quickjs:", quickjs, "");
    proof {
        reveal_strlit("");
        assert(runtime@ == "quickjs:"@ + quickjs@);
    }
    push_text(&mut out, runtime.as_str());
    push_text(&mut out, "--color");
    push_text(&mut out, "never");
    out
}

/// The arguments that bring yt-dlp up to date.
pub fn update_args() -> (r: Vec<String>)
    ensures
        texts(r@) == seq!["--update"@],
{
    let mut out: Vec<String> = Vec::new();
    assert(texts(out@) == Seq::<Seq<char>>::empty());
    push_text(&mut out, "--update");
    out
}

/// The whole command line of a run: the flags of every run, then its own.
pub fn full_command_line(ffmpeg: &str, quickjs: &str, args: &Vec<String>) -> (r: Vec<String>)
    ensures
        texts(r@) == default_flags(ffmpeg@, quickjs@) + texts(args@),
{
    let mut out = default_ytdlp_args(ffmpeg, quickjs);
    extend_texts(&mut out, args);
    out
}

/// The message for a program that could not be started.
pub fn start_failure(label: &str, error: &str) -> (r: String)
    ensures
        r@ == label@ + ": "@ + error@,
{
    cat3(label, ": ", error)
}

// ---------------------------------------------------------------------------
// Cookies
// ---------------------------------------------------------------------------
/// The flags that take the cookies of a browser.
pub open spec fn cookie_flags(browser: Seq<char>) -> Seq<Seq<char>> {
    seq!["--cookies-from-browser"@, browser]
}

/// The flags that take the cookies of a browser.
pub fn cookie_args(browser: &str) -> (r: Vec<String>)
    ensures
        texts(r@) == cookie_flags(browser@),
{
    let mut out: Vec<String> = Vec::new();
    assert(texts(out@) == Seq::<Seq<char>>::empty());
    push_text(&mut out, "--cookies-from-browser");
    push_text(&mut out, browser);
    out
}

/// Whether cookies are taken from a browser.
pub fn has_cookie_flag(args: &Vec<String>) -> (r: bool)
    ensures
        r == texts(args@).contains("--cookies-from-browser"@),
{
    let mut i: usize = 0;
    while i < args.len()
        invariant
            i <= args@.len(),
            forall|j: int| 0 <= j < i ==> texts(args@)[j] != "--cookies-from-browser"@,
        decreases args@.len() - i,
    {
        if same_text(args[i].as_str(), "--cookies-from-browser") {
            assert(texts(args@)[i as int] == "--cookies-from-browser"@);
            return true;
        }
        i = i + 1;
    }
    false
}

/// `args` with the cookies of the browser that worked before in front, unless
/// there is none or cookies are taken already.
pub open spec fn with_cached_cookies(
    args: Seq<Seq<char>>,
    working: Option<Seq<char>>,
) -> Seq<Seq<char>> {
    match working {
        Some(browser) => if args.contains("--cookies-from-browser"@) {
            args
        } else {
            cookie_flags(browser) + args
        },
        None => args,
    }
}

/// Puts the cookies of the browser that worked before in front of `args`.
pub fn apply_cached_cookies(args: &mut Vec<String>, working: Option<&str>)
    ensures
        texts(final(args)@) == with_cached_cookies(texts(old(args)@), opt_str(working)),
{
    if has_cookie_flag(args) {
        return;
    }
    if let Some(browser) = working {
        let mut out = cookie_args(browser);
        extend_texts(&mut out, args);
        *args = out;
    }
}

/// The browser whose cookies have got past the anti-bot check. Once known, it
/// stays for good.
pub struct WorkingBrowser {
    pub name: Option<String>,
}

impl WorkingBrowser {
    /// No browser is known yet.
    pub fn new() -> (r: WorkingBrowser)
        ensures
            r.name is None,
    {
        WorkingBrowser { name: None }
    }

    /// Keeps `browser`, unless there is none or one is known already.
    pub fn remember(&mut self, browser: Option<String>)
        ensures
            final(self).name == (if old(self).name is Some {
                old(self).name
            } else {
                browser
            }),
    {
        if self.name.is_none() {
            self.name = browser;
        }
    }
}

// ---------------------------------------------------------------------------
// Trying again with cookies
// ---------------------------------------------------------------------------
/// The arguments of the attempt `n`: as they are at first, then with the cookies of
/// the first browser that was found.
pub open spec fn attempt_args(
    args: Seq<Seq<char>>,
    browsers: Seq<Seq<char>>,
    n: int,
) -> Seq<Seq<char>> {
    if n == 0 {
        args
    } else {
        args + cookie_flags(browsers[0])
    }
}

/// Whether the failed attempt `n` is followed by another one: it is the first, it
/// met the anti-bot check, there is a browser, and neither were cookies taken
/// already nor was the download cancelled.
pub open spec fn tries_again(
    args: Seq<Seq<char>>,
    browsers: Seq<Seq<char>>,
    n: int,
    stderr: Seq<char>,
    cancelled: bool,
) -> bool {
    &&& n == 0
    &&& !args.contains("--cookies-from-browser"@)
    &&& !cancelled
    &&& is_bot_check(stderr)
    &&& browsers.len() > 0
}

/// A run of yt-dlp that is tried again once, with cookies.
pub struct YtdlpRun {
    pub args: Vec<String>,
    pub browsers: Vec<String>,
    /// Whether the attempt that is next or under way is the second.
    pub second: bool,
}

/// What follows an attempt.
pub enum RunStep {
    /// Another attempt, with the cookies of the named browser.
    Retry { browser: String },
    /// The attempt's outcome stands. The named browser's cookies made it work.
    Done { working: Option<String> },
}

impl YtdlpRun {
    /// The attempt is the first, or there is a browser for it.
    pub open spec fn wf(self) -> bool {
        self.second ==> self.browsers@.len() > 0
    }

    /// The number of the attempt.
    pub open spec fn attempt(self) -> int {
        if self.second {
            1
        } else {
            0
        }
    }

    /// A run with the given arguments, and the cookies of the browser that
    /// worked before.
    pub fn new(args: Vec<String>, working: Option<&str>, browsers: Vec<String>) -> (r: YtdlpRun)
        ensures
            r.wf(),
            texts(r.args@) == with_cached_cookies(texts(args@), opt_str(working)),
            r.browsers == browsers,
            r.attempt() == 0,
    {
        let mut all = args;
        apply_cached_cookies(&mut all, working);
        YtdlpRun { args: all, browsers, second: false }
    }

    /// The arguments of the attempt that is next.
    pub fn attempt_arguments(&self) -> (r: Vec<String>)
        requires
            self.wf(),
        ensures
            texts(r@) == attempt_args(texts(self.args@), texts(self.browsers@), self.attempt()),
    {
        let mut out = copy_texts(&self.args);
        if self.second {
            let more = cookie_args(self.browsers[0].as_str());
            extend_texts(&mut out, &more);
        }
        out
    }

    /// What follows the attempt that ended with the given outcome.
    pub fn after(&mut self, success: bool, stderr: &str, cancelled: bool) -> (r: RunStep)
        requires
            old(self).wf(),
        ensures
            final(self).wf(),
            final(self).args == old(self).args,
            final(self).browsers == old(self).browsers,
            ({
                let n = old(self).attempt();
                let args = texts(old(self).args@);
                let browsers = texts(old(self).browsers@);
                if !success && tries_again(args, browsers, n, stderr@, cancelled) {
                    &&& r matches RunStep::Retry { browser } && browser@ == browsers[0]
                    &&& final(self).attempt() == n + 1
                } else {
                    &&& r matches RunStep::Done { working } && opt_text(working) == (if success
                        && n > 0 {
                        Some(browsers[0])
                    } else {
                        None
                    })
                    &&& final(self).attempt() == n
                }
            }),
    {
        if success {
            let working = if self.second {
                Some(self.browsers[0].clone())
            } else {
                None
            };
            return RunStep::Done { working };
        }
        if self.second || cancelled || has_cookie_flag(&self.args) || !looks_like_bot_check(stderr)
            || self.browsers.len() == 0 {
            return RunStep::Done { working: None };
        }
        self.second = true;
        RunStep::Retry { browser: self.browsers[0].clone() }
    }
}

/// The line of the log that announces an attempt with cookies.
pub fn retry_notice(browser: &str) -> (r: String)
    ensures
        r@
            == "[flowbit] YouTube requires \"I'm not a bot\" confirmation \u{2014} trying cookies from "@
            + browser@ + "\u{2026}"@,
{
    cat3(
        "[flowbit] YouTube requires \"I'm not a bot\" confirmation \u{2014} trying cookies from ",
        browser,
        "\u{2026}",
    )
}

/// What came back from an attempt.
pub struct AttemptOutcome {
    pub success: bool,
    pub stderr: Seq<char>,
}

/// The attempt whose outcome stands, given what each attempt would bring, from
/// the attempt `n` on.
pub open spec fn final_attempt(
    args: Seq<Seq<char>>,
    browsers: Seq<Seq<char>>,
    outcomes: spec_fn(int) -> AttemptOutcome,
    cancelled: bool,
    n: int,
) -> int
    decreases 1 - n,
{
    if n < 1 && !outcomes(n).success && tries_again(
        args,
        browsers,
        n,
        outcomes(n).stderr,
        cancelled,
    ) {
        final_attempt(args, browsers, outcomes, cancelled, n + 1)
    } else {
        n
    }
}

/// If the anti-bot check blocks an anonymous run, it is tried once more, with the
/// cookies of a browser that is installed, and what comes of that stands.
pub proof fn law_one_retry_with_cookies(
    args: Seq<Seq<char>>,
    browsers: Seq<Seq<char>>,
    outcomes: spec_fn(int) -> AttemptOutcome,
)
    requires
        !args.contains("--cookies-from-browser"@),
        browsers.len() > 0,
        !outcomes(0).success,
        is_bot_check(outcomes(0).stderr),
    ensures
        final_attempt(args, browsers, outcomes, false, 0) == 1,
        attempt_args(args, browsers, 1) == args + cookie_flags(browsers[0]),
{
    reveal_with_fuel(final_attempt, 2);
}

/// A run that succeeds at once, or fails for another reason than the anti-bot
/// check, is not tried again.
pub proof fn law_only_the_check_is_retried(
    args: Seq<Seq<char>>,
    browsers: Seq<Seq<char>>,
    outcomes: spec_fn(int) -> AttemptOutcome,
    cancelled: bool,
)
    requires
        outcomes(0).success || !is_bot_check(outcomes(0).stderr) || cancelled || args.contains(
            "--cookies-from-browser"@,
        ),
    ensures
        final_attempt(args, browsers, outcomes, cancelled, 0) == 0,
{
}

/// A run has two attempts at most.
pub proof fn law_attempts_are_bounded(
    args: Seq<Seq<char>>,
    browsers: Seq<Seq<char>>,
    outcomes: spec_fn(int) -> AttemptOutcome,
    cancelled: bool,
)
    ensures
        0 <= final_attempt(args, browsers, outcomes, cancelled, 0) <= 1,
{
    reveal_with_fuel(final_attempt, 2);
}

/// Once a browser's cookies have worked, a run that takes none itself takes
/// them from the start, and is not tried with others.
pub proof fn law_working_cookies_are_reused(
    args: Seq<Seq<char>>,
    browser: Seq<char>,
    browsers: Seq<Seq<char>>,
    outcomes: spec_fn(int) -> AttemptOutcome,
    cancelled: bool,
)
    ensures
        with_cached_cookies(args, Some(browser)).contains("--cookies-from-browser"@),
        final_attempt(with_cached_cookies(args, Some(browser)), browsers, outcomes, cancelled, 0)
            == 0,
{
    let all = with_cached_cookies(args, Some(browser));
    if !args.contains("--cookies-from-browser"@) {
        assert(all[0] == "--cookies-from-browser"@);
    }
}

} // verus!
