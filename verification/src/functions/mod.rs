//! What each part of the application decides.
pub mod browsers;
pub mod cache;
pub mod cancel;
pub mod dependencies;
pub mod download;
pub mod formats;
pub mod get_info;
pub mod meta;
pub mod output;
pub mod playlist;
pub mod preview;
pub mod section;
pub mod twitch;
pub mod valid;
pub mod youtube;
pub mod ytdlp;
