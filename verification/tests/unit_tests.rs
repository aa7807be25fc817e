use flowbit_lib::functions::preview::sanitize_filename;
use flowbit_lib::functions::youtube::{
    build_audio_format, decode_output, quality_to_audio_format, Quality,
};

#[test]
fn utf8_passthrough() {
    assert_eq!(decode_output("Привет.mp4".as_bytes()), "Привет.mp4");
}

#[test]
fn cp1251_fallback() {
    let cp1251 = [0xCF, 0xF0, 0xE8, 0xE2, 0xE5, 0xF2];
    assert_eq!(decode_output(&cp1251), "Привет");
}

#[test]
fn ascii_ok() {
    assert_eq!(decode_output(b"[download] 50%"), "[download] 50%");
}

#[test]
fn youtube_utf8_passthrough() {
    assert_eq!(decode_output("Привет.mp4".as_bytes()), "Привет.mp4");
}

#[test]
fn youtube_cp1251_fallback() {
    let cp1251 = [0xCF, 0xF0, 0xE8, 0xE2, 0xE5, 0xF2];
    assert_eq!(decode_output(&cp1251), "Привет");
}

#[test]
fn youtube_ascii_ok() {
    assert_eq!(decode_output(b"[download] 50%"), "[download] 50%");
}

#[test]
fn best_has_no_bitrate_cap() {
    assert_eq!(build_audio_format(Quality::Best, None, None), "ba");
    assert_eq!(quality_to_audio_format(Quality::Best), "ba");
}

#[test]
fn tiers_cap_abr_with_uncapped_fallback() {
    assert_eq!(build_audio_format(Quality::High, None, None), "ba[abr<=160]/ba");
    assert_eq!(build_audio_format(Quality::Medium, None, None), "ba[abr<=80]/ba");
    assert_eq!(build_audio_format(Quality::Low, None, None), "ba[abr<=50]/ba");
    assert_eq!(quality_to_audio_format(Quality::High), "ba[abr<=160]/ba");
    assert_eq!(quality_to_audio_format(Quality::Medium), "ba[abr<=80]/ba");
    assert_eq!(quality_to_audio_format(Quality::Low), "ba[abr<=50]/ba");
}

#[test]
fn worst_uses_worst_audio_selector() {
    assert_eq!(build_audio_format(Quality::Worst, None, None), "wa");
    assert_eq!(quality_to_audio_format(Quality::Worst), "wa");
}

#[test]
fn tier_combines_with_language_and_codec() {
    assert_eq!(
        build_audio_format(Quality::Medium, Some("opus"), Some("ru")),
        "ba[language=ru][abr<=80][acodec^=opus]/ba[language=ru][abr<=80]/ba[abr<=80][acodec^=opus]/ba[abr<=80]/ba[language=ru]/ba"
    );
}

#[test]
fn replaces_invalid_characters() {
    assert_eq!(sanitize_filename("a/b\\c:d*e?f\"g<h>i|j"), "a_b_c_d_e_f_g_h_i_j");
}

#[test]
fn trims_trailing_dots_and_spaces() {
    assert_eq!(sanitize_filename("My Video.  "), "My Video");
}

#[test]
fn falls_back_to_placeholder_when_empty() {
    assert_eq!(sanitize_filename(""), "thumbnail");
    assert_eq!(sanitize_filename("   "), "thumbnail");
    assert_eq!(sanitize_filename("..."), "thumbnail");
}

#[test]
fn truncates_long_titles() {
    let long = "a".repeat(500);
    assert_eq!(sanitize_filename(&long).chars().count(), 200);
}

#[test]
fn keeps_ordinary_titles_untouched() {
    assert_eq!(sanitize_filename("Rick Astley - Never Gonna Give You Up"), "Rick Astley - Never Gonna Give You Up");
}
