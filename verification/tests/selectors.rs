use flowbit_lib::functions::cancel::CANCEL_MSG;
use flowbit_lib::functions::download::DownloadState;
use flowbit_lib::functions::formats::{
    acodec_filter, build_audio_format, build_video_format, canon_acodec, canon_vcodec,
    merge_container, out_audio_format, quality_to_audio_format, vcodec_filter, Quality,
};
use flowbit_lib::functions::twitch::TwitchDownloadState;

#[test]
fn video_selectors_go_from_exact_to_general() {
    assert_eq!(
        build_video_format(Quality::Best, None, None, None),
        "bv*[vcodec^=avc1]+ba[acodec^=mp4a]/bv*[vcodec^=avc1]+ba/bv*+ba/b"
    );
    assert_eq!(
        build_video_format(Quality::Low, Some("av1"), None, Some("")),
        "bv*[height<=480][vcodec^=av01]+ba[acodec^=mp4a]/bv*[height<=480][vcodec^=av01]+ba/bv*[height<=480]+ba/b[height<=480]/b"
    );
    assert_eq!(
        build_video_format(Quality::Worst, Some("vp9"), Some("opus"), Some("ru")),
        "wv*[vcodec~='^vp0?9']+wa[language=ru][acodec^=opus]/wv*[vcodec~='^vp0?9']+wa[language=ru]/wv*+wa[language=ru][acodec^=opus]/wv*+wa[language=ru]/wv*[vcodec~='^vp0?9']+wa/wv*+wa/b"
    );
    assert_eq!(
        build_video_format(Quality::Best, Some("unknown"), Some("unknown"), None),
        build_video_format(Quality::Best, None, None, None)
    );
}

#[test]
fn every_video_selector_ends_with_anything() {
    for q in [Quality::Best, Quality::High, Quality::Medium, Quality::Low, Quality::Worst] {
        for v in [None, Some("h264"), Some("vp9"), Some("av1")] {
            for a in [None, Some("aac"), Some("opus")] {
                for l in [None, Some("en")] {
                    let f = build_video_format(q, v, a, l);
                    assert!(f.ends_with("/b"), "{f}");
                    let wishes: Vec<&str> = f.split('/').collect();
                    assert!(wishes.windows(2).all(|w| w[0] != w[1]), "{f}");
                }
            }
        }
        assert_eq!(build_audio_format(q, None, None), quality_to_audio_format(q));
    }
}

#[test]
fn audio_selectors_end_uncapped() {
    assert_eq!(
        build_audio_format(Quality::High, Some("aac"), None),
        "ba[abr<=160][acodec^=mp4a]/ba[abr<=160]/ba"
    );
    assert_eq!(
        build_audio_format(Quality::Worst, None, Some("de")),
        "wa[language=de]/wa"
    );
}

#[test]
fn codecs_have_short_names() {
    assert_eq!(canon_vcodec("avc3.1"), Some("h264"));
    assert_eq!(canon_vcodec("h264"), Some("h264"));
    assert_eq!(canon_vcodec("vp8"), None);
    assert_eq!(canon_acodec("mp4a.40"), Some("aac"));
    assert_eq!(canon_acodec("vorbis"), None);
    assert_eq!(vcodec_filter(Some("h264")), Some("[vcodec^=avc1]"));
    assert_eq!(vcodec_filter(Some("x")), None);
    assert_eq!(acodec_filter(Some("opus")), Some("[acodec^=opus]"));
    assert_eq!(acodec_filter(None), None);
    assert_eq!(out_audio_format(Some("opus")), "opus");
    assert_eq!(out_audio_format(Some("aac")), "m4a");
    assert_eq!(out_audio_format(None), "mp3");
    assert_eq!(merge_container(Some("")), "mp4");
}

#[test]
fn handles_can_be_made() {
    assert_eq!(DownloadState::new(), DownloadState);
    assert_eq!(TwitchDownloadState::new(), TwitchDownloadState);
    assert_eq!(CANCEL_MSG, "Download cancelled");
}
