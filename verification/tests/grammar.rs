use flowbit_lib::classes::{digit, word};
use flowbit_lib::functions::output::{clean_line, clean_log_line, strip_ansi};
use flowbit_lib::functions::valid::{
    check_time_range, is_twitch_url, is_youtube_url, parse_time_strict, validate_time_range,
};
use flowbit_lib::numbers::parse_u64;
use flowbit_lib::text::{
    lines_of, replace_once, split_text, split_text_n, text_after, trim_text, white,
};
use regex::Regex;

const ADDRESSES: [&str; 44] = [
    "",
    "youtube.com",
    "youtube.com/",
    "youtube.com/x",
    "youtu.be/x",
    "youtu.be/",
    "www.youtube.com/x",
    "www.www.youtube.com/x",
    "http://youtube.com/x",
    "https://youtube.com/x",
    "https://www.youtu.be/x",
    "ftp://youtube.com/x",
    "https://m.youtube.com/x",
    "https://youtube.com/\n",
    "https://youtube.com/a\nb",
    "https://youtube.com/a\n",
    "https://youtube.com/a\r",
    " https://youtube.com/x",
    "https://youtube.comx/x",
    "youtube_com/x",
    "https://youtube.com/watch?v=Ж",
    "https://twitch.tv/videos/12345",
    "http://www.twitch.tv/videos/1",
    "https://twitch.tv/videos/",
    "https://twitch.tv/videos/12a",
    "https://twitch.tv/videos/１２",
    "https://twitch.tv/videos/٣",
    "https://twitch.tv/chan-nel_1/v/77",
    "https://twitch.tv/канал/v/77",
    "https://twitch.tv//v/77",
    "https://twitch.tv/a/b/v/77",
    "https://twitch.tv/a/v/77/",
    "https://twitch.tv/clips/Some-Clip_1",
    "https://twitch.tv/clips/",
    "https://twitch.tv/clips/a.b",
    "https://clips.twitch.tv/Some-Clip",
    "https://www.clips.twitch.tv/x",
    "https://clips.twitch.tv/",
    "https://clips.twitch.tv/a/b",
    "twitch.tv/videos/1",
    "https://twitch.tv/videos/1\n",
    "https://twitch.tv/v/v/1",
    "https://twitch.tv/clips/v/1",
    "https://twitch.tv/-/v/0",
];

#[test]
fn youtube_addresses_follow_the_pattern() {
    let re = Regex::new(r"^(https?://)?(www\.)?(youtube\.com|youtu\.be)/.+$").unwrap();
    for a in ADDRESSES {
        assert_eq!(is_youtube_url(a.to_string()), re.is_match(a), "{a:?}");
    }
}

#[test]
fn twitch_addresses_follow_the_pattern() {
    let re = Regex::new(r"^https?://(www\.)?(twitch\.tv/(?:videos/\d+|[\w-]+/v/\d+|clips/[\w-]+)|clips\.twitch\.tv/[\w-]+)$").unwrap();
    for a in ADDRESSES {
        assert_eq!(is_twitch_url(a.to_string()), re.is_match(a.trim()), "{a:?}");
    }
}

#[test]
fn classes_are_those_of_the_pattern_language() {
    let d = Regex::new(r"^\d$").unwrap();
    let w = Regex::new(r"^\w$").unwrap();
    let others = ['é', 'Ж', '٣', '１', '²', '中', '‿', '\u{200d}', '\u{301}', '—', '€', '\u{a0}'];
    for c in (0u8..128).map(char::from).chain(others) {
        let s = c.to_string();
        assert_eq!(digit(c), d.is_match(&s), "{c:?}");
        assert_eq!(word(c), w.is_match(&s), "{c:?}");
    }
}

#[test]
fn escapes_are_stripped_as_the_pattern_strips_them() {
    let re = Regex::new(r"\x1b\[[0-9;]*[a-zA-Z]").unwrap();
    for s in [
        "",
        "plain",
        "\x1b[0;33mWARNING\x1b[0m",
        "\x1b[m",
        "\x1b[",
        "\x1b",
        "\x1b[12",
        "\x1b[1;2;3",
        "\x1b[?25l",
        "\x1b\x1b[0mx",
        "\x1b[\x1b[0mm",
        "a\x1b[31mЖ\x1b[0mb",
    ] {
        assert_eq!(strip_ansi(s), re.replace_all(s, ""), "{s:?}");
    }
}

#[test]
fn plain_lines_stay_and_returns_go() {
    assert_eq!(clean_line("[download]  50%"), "[download]  50%");
    assert_eq!(clean_line("a\rb\r"), "ab");
    assert_eq!(clean_line("\x1b[0;33mx\x1b[0m\r"), "x");
    assert_eq!(clean_log_line(b"50%\r"), "50%");
    assert_eq!(clean_log_line(&[0xCF, 0xF0, b'\r']), "Пр");
}

#[test]
fn white_space_is_what_std_says() {
    for c in (0u32..=0x3100).filter_map(char::from_u32) {
        assert_eq!(white(c), c.is_whitespace(), "{c:?}");
    }
    for s in ["", " ", " a ", "\u{3000}a b\u{a0}\n", "\tx", "x\u{85}"] {
        assert_eq!(trim_text(s), s.trim(), "{s:?}");
    }
}

#[test]
fn texts_are_taken_apart_as_std_does() {
    for s in ["", "a", "a\n", "a\nb", "a\r\nb\r\n", "\n", "\n\n", "a\rb", "\r\n", "a\n\r"] {
        assert_eq!(lines_of(s), s.lines().collect::<Vec<_>>(), "{s:?}");
    }
    for s in ["", ":", "a:b", "a::b", ":a:", "00:01:02"] {
        assert_eq!(split_text(s, ':'), s.split(':').collect::<Vec<_>>(), "{s:?}");
        assert_eq!(split_text_n(s, ':', 2), s.splitn(2, ':').collect::<Vec<_>>(), "{s:?}");
        assert_eq!(split_text_n(s, ':', 1), s.splitn(1, ':').collect::<Vec<_>>(), "{s:?}");
    }
    for s in ["", "aXbX", "X", "XX", "abc", "ЖXЖ"] {
        assert_eq!(replace_once(s, "X", "yy"), s.replacen("X", "yy", 1), "{s:?}");
        assert_eq!(
            text_after(s, "X"),
            s.find("X").map(|i| s[i + 1..].to_string()),
            "{s:?}"
        );
    }
}

#[test]
fn numbers_are_read_as_std_does() {
    for s in [
        "", "0", "+", "+7", "-1", "007", "18446744073709551615", "18446744073709551616", "1a",
        " 1", "１", "++1", "99999999999999999999999",
    ] {
        assert_eq!(parse_u64(s), s.parse::<u64>().ok(), "{s:?}");
    }
}

#[test]
fn strict_times_and_their_errors() {
    assert_eq!(parse_time_strict("01:02:03"), Ok(3723));
    assert_eq!(parse_time_strict("99:59:59"), Ok(359999));
    let format = "Time format must be HH:MM:SS (e.g. 00:05:30)".to_string();
    for t in ["", "1:02:03", "01:02:03 ", "01-02-03", "001:02:03"] {
        assert_eq!(parse_time_strict(t), Err(format.clone()), "{t:?}");
    }
    let sixty = "Minutes and seconds must be less than 60".to_string();
    assert_eq!(parse_time_strict("00:60:00"), Err(sixty.clone()));
    assert_eq!(parse_time_strict("00:00:60"), Err(sixty));
}

#[test]
fn range_errors_are_told_apart() {
    let range = |a: &str, b: &str, max| validate_time_range(Some(a.into()), Some(b.into()), max);
    assert_eq!(
        range("00:02:00", "00:01:00", None),
        Err("Start must be earlier than end".into())
    );
    assert_eq!(
        range("00:00:00", "00:03:00", Some(120)),
        Err("End exceeds the video's duration".into())
    );
    assert_eq!(
        range("00:01:00", "00:00:00", Some(30)),
        Err("Start exceeds the video's duration".into())
    );
    assert_eq!(range("00:01:00", "00:02:00", Some(120)), Ok(()));
    assert_eq!(range("  ", " ", Some(1)), Ok(()));
    assert_eq!(
        validate_time_range(None, Some("x".into()), None),
        Err("Time format must be HH:MM:SS (e.g. 00:05:30)".into())
    );
}

#[test]
fn digits_of_other_scripts_are_not_judged() {
    assert_eq!(check_time_range(Some("０１:00:00".into()), None, None), None);
    assert_eq!(check_time_range(Some("01:00:00".into()), None, None), Some(Ok(())));
    assert!(matches!(check_time_range(Some("abc".into()), None, None), Some(Err(_))));
}
