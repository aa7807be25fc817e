//! YouTube: all that a download from it needs, in one place.
pub use crate::functions::browsers::detect_browsers;
pub use crate::functions::cancel::{cancel_download, is_cancelled, DownloadGuard, CANCEL_MSG};
pub use crate::functions::download::{resolve_out_dir, DownloadResult, DownloadState};
pub use crate::functions::formats::{
    build_audio_format, build_video_format, merge_container, quality_to_audio_format,
    quality_to_format, DownloadMode, Quality,
};
pub use crate::functions::meta::{
    parse_audio_codecs, parse_audio_langs, parse_video_codecs, YtMeta,
};
pub use crate::functions::output::{decode_output, extract_error_reason, looks_like_bot_check};
pub use crate::functions::section::{parse_time_to_secs, section_changed};
pub use crate::functions::ytdlp::{apply_cached_cookies, has_cookie_flag, network_args};
