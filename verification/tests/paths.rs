use flowbit_lib::paths::{
    extension, file_name, file_stem, join_path, marked_path, with_file_name,
};
use flowbit_lib::platform::Platform;
use std::path::Path;

const SAMPLES: [&str; 34] = [
    "", "/", "//", ".", "..", "./", "../", "a", "a/", "a//", "a/.", "a/./", "a/..", "/a", "//a",
    "/a/b.mp4", "/a//b.mp4", "/a/./b.mp4", "./b.mp4", "../b.mp4", "a/.hidden", ".hidden",
    "a/.hidden.txt", "a/b.tar.gz", "a/b.", "a/..b", "a/...", "/.", "/./b", "/..", "a/b/../c.x",
    "Видео/Ролик №1.webm", "a\\b.mp4", "C:\\x\\y.mp4",
];

#[test]
fn file_names_are_read_as_the_system_reads_them() {
    for s in SAMPLES {
        let p = Path::new(s);
        assert_eq!(file_name(s, Platform::Linux), p.file_name().map(|s| s.to_string_lossy().into_owned()), "{s:?}");
        assert_eq!(
            file_stem(s, Platform::Linux),
            p.file_stem().map(|s| s.to_string_lossy().into_owned()).unwrap_or_default(),
            "{s:?}"
        );
        assert_eq!(
            extension(s, Platform::Linux),
            p.extension().map(|s| s.to_string_lossy().into_owned()).unwrap_or_default(),
            "{s:?}"
        );
    }
}

#[test]
fn paths_are_joined_as_the_system_joins_them() {
    for s in SAMPLES {
        for n in ["x.jpg", ".flowbit-tmp", "", "/root", "a/b"] {
            assert_eq!(
                join_path(s, n, Platform::Linux),
                Path::new(s).join(n).to_string_lossy(),
                "{s:?} {n:?}"
            );
        }
    }
}

#[test]
fn files_are_renamed_as_the_system_renames_them() {
    for s in SAMPLES {
        for n in ["x_cut.mp4", "_cut.", "y"] {
            assert_eq!(
                with_file_name(s, n, Platform::MacOs),
                Path::new(s).with_file_name(n).to_string_lossy(),
                "{s:?} {n:?}"
            );
        }
    }
}

#[test]
fn windows_paths_keep_drive_and_backslash() {
    let w = Platform::Windows;
    assert_eq!(join_path("C:\\libs", "yt-dlp.exe", w), "C:\\libs\\yt-dlp.exe");
    assert_eq!(join_path("C:\\libs\\", "yt-dlp.exe", w), "C:\\libs\\yt-dlp.exe");
    assert_eq!(join_path("C:/libs/", "yt-dlp.exe", w), "C:/libs/yt-dlp.exe");
    assert_eq!(join_path("C:", "x", w), "C:x");
    assert_eq!(join_path("", "x", w), "x");
    assert_eq!(join_path("C:\\a", "D:\\b", w), "D:\\b");
    assert_eq!(join_path("C:\\a", "\\b", w), "C:\\b");
    assert_eq!(file_name("C:\\a\\b.mp4", w).as_deref(), Some("b.mp4"));
    assert_eq!(file_name("C:b.mp4", w).as_deref(), Some("b.mp4"));
    assert_eq!(file_name("C:\\", w), None);
    assert_eq!(with_file_name("C:\\a\\b.mp4", "c.mp4", w), "C:\\a\\c.mp4");
    assert_eq!(with_file_name("C:\\b.mp4", "c.mp4", w), "C:\\c.mp4");
    assert_eq!(with_file_name("\\\\nas\\films\\b.mp4", "c.mp4", w), "\\\\nas\\films\\c.mp4");
}

#[test]
fn servers_and_devices_are_prefixes() {
    let w = Platform::Windows;
    assert_eq!(file_name(r"\\server\share", w), None);
    assert_eq!(file_name(r"\\server\share\", w), None);
    assert_eq!(file_name("//server/share", w), None);
    assert_eq!(file_name(r"\\server\share\a.mp4", w).as_deref(), Some("a.mp4"));
    assert_eq!(file_name(r"\\server", w).as_deref(), Some("server"));
    assert_eq!(file_name(r"\\.\COM1", w), None);
    assert_eq!(file_name(r"\\.\COM1\a", w).as_deref(), Some("a"));
    assert_eq!(join_path(r"\\server\share", "a.mp4", w), r"\\server\share\a.mp4");
    assert_eq!(join_path(r"\\server\share\d", r"\a", w), r"\\server\share\a");
    assert_eq!(join_path(r"C:\d", r"\\server\share\a", w), r"\\server\share\a");
    assert_eq!(join_path(r"C:\d", r"\\a", w), r"C:\\a");
    assert_eq!(with_file_name(r"\\server\share\a", "b", w), r"\\server\share\b");
    assert_eq!(with_file_name(r"\\server\share\d\a", "b", w), r"\\server\share\d\b");
    assert_eq!(with_file_name(r"\\server\share", "b", w), r"\\server\share\b");
    assert_eq!(
        marked_path(r"\\server\share\Film.mp4", "_cut", w),
        r"\\server\share\Film_cut.mp4"
    );
    assert_eq!(file_name("//server/share", Platform::Linux).as_deref(), Some("share"));
}

#[test]
fn some_paths_are_taken_word_by_word() {
    let w = Platform::Windows;
    assert_eq!(file_name(r"\\?\C:", w), None);
    assert_eq!(file_name(r"\\?\C:\", w), None);
    assert_eq!(file_name(r"\\?\C:\a.mp4", w).as_deref(), Some("a.mp4"));
    assert_eq!(file_name(r"\\?\C:/a.mp4", w).as_deref(), Some("a.mp4"));
    assert_eq!(file_name(r"\\?\C:\d/a.mp4", w).as_deref(), Some("d/a.mp4"));
    assert_eq!(file_name(r"\\?\C:\d\.", w), None);
    assert_eq!(file_name(r"\\?\UNC\server\share", w), None);
    assert_eq!(file_name(r"\\?\UNC\server\share\a", w).as_deref(), Some("a"));
    assert_eq!(file_name(r"\\?\pipe", w), None);
    assert_eq!(file_name("//?/C:/a", w).as_deref(), Some("a"));
    assert_eq!(join_path(r"\\?\C:", "a", w), r"\\?\C:\a");
    assert_eq!(join_path(r"\\?\C:", ".", w), r"\\?\C:");
    assert_eq!(join_path(r"\\?\C:\", ".", w), r"\\?\C:\");
    assert_eq!(join_path(r"\\?\C:\d\\e\", "./x/../y//z", w), r"\\?\C:\d\e\y\z");
    assert_eq!(join_path(r"\\?\C:\d", r"..\..\a", w), r"\\?\C:\a");
    assert_eq!(join_path(r"\\?\C:\d\..", r"..\a", w), r"\\?\C:\d\..\a");
    assert_eq!(join_path(r"\\?\C:\d", "/a", w), r"\\?\C:\a");
    assert_eq!(join_path(r"\\?\C:\d", r"D:\a", w), r"D:\a");
    assert_eq!(join_path(r"\\?\C:\d", "", w), r"\\?\C:\d\");
    assert_eq!(join_path(r"\\?\UNC\server\share\d", "a", w), r"\\?\UNC\server\share\d\a");
    assert_eq!(with_file_name(r"\\?\C:\a.mp4", "b.mp4", w), r"\\?\C:\b.mp4");
    assert_eq!(with_file_name(r"\\?\C:\d\a.mp4", "b.mp4", w), r"\\?\C:\d\b.mp4");
    assert_eq!(
        marked_path(r"\\?\C:\d\Film.mp4", "_cut", w),
        r"\\?\C:\d\Film_cut.mp4"
    );
}

#[test]
fn cut_lies_beside_the_file() {
    assert_eq!(marked_path("/d/Film.mp4", "_cut", Platform::Linux), "/d/Film_cut.mp4");
    assert_eq!(marked_path("/d/a.b.mkv", "_clip", Platform::Linux), "/d/a.b_clip.mkv");
    assert_eq!(marked_path("/d/noext", "_cut", Platform::Linux), "/d/noext_cut.");
    assert_eq!(
        marked_path("C:\\d\\Film.mp4", "_cut", Platform::Windows),
        "C:\\d\\Film_cut.mp4"
    );
}
