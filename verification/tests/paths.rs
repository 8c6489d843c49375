use media_tool::paths::{extension, file_name, file_stem, join, parent, Style};
use std::path::Path;

fn here() -> Style {
    if std::path::is_separator('\\') {
        Style::Windows
    } else {
        Style::Posix
    }
}

fn samples() -> Vec<&'static str> {
    vec![
        "", "/", "//", ".", "..", "./", "../", "./.", "a", "a/", "a//", "a/.", "a/./.", "/a", "//a",
        "/a/", "a/b", "a//b", "a/./b", "./a", "././a", ".//a", "../a", "a/..", "a/../b", "/..",
        "/.", "/./a", "//a//b", ".hidden", ".hidden.txt", "a.b", "a.b.c", "a.", "a..", "...", "..a",
        "dir.d/file", "dir/.file", "dir/file.tar.gz", "dir/file.", "a/b/../", "\u{4e2d}/\u{6587}.mp4",
        "out\\movie.mkv", "C:", "C:\\a.b", "C:a", "\\\\s\\h\\a", "x/.", "x/..", "a/b/.", "./..", "/.hidden/", "a/ /b", " ", "a/b.c/", ".a/", "./.a",
    ]
}

#[test]
fn names_agree_with_the_platform() {
    for s in samples() {
        let p = Path::new(s);
        assert_eq!(file_name(here(), s), p.file_name().and_then(|x| x.to_str()), "name of {:?}", s);
        assert_eq!(file_stem(here(), s), p.file_stem().and_then(|x| x.to_str()), "stem of {:?}", s);
        assert_eq!(extension(here(), s), p.extension().and_then(|x| x.to_str()), "extension of {:?}", s);
    }
}

#[test]
fn parents_agree_with_the_platform() {
    for s in samples() {
        let p = Path::new(s);
        assert_eq!(parent(here(), s), p.parent().and_then(|x| x.to_str()), "parent of {:?}", s);
    }
}

#[test]
fn joining_agrees_with_the_platform() {
    for s in samples() {
        for t in samples() {
            let p = Path::new(s).join(t);
            assert_eq!(Some(join(here(), s, t).as_str()), p.to_str(), "{:?} joined to {:?}", s, t);
        }
    }
}

const W: Style = Style::Windows;

#[test]
fn windows_splits_at_both_slashes() {
    assert_eq!(parent(W, "out\\movie.mkv"), Some("out"));
    assert_eq!(file_stem(W, "out\\movie.mkv"), Some("movie"));
    assert_eq!(extension(W, "a.b\\c"), None);
    assert_eq!(extension(W, "a.b/c.d"), Some("d"));
    assert_eq!(parent(W, "a/b\\c"), Some("a/b"));
    assert_eq!(parent(W, "a\\"), Some(""));
    assert_eq!(parent(W, "."), Some(""));
    assert_eq!(parent(W, ".\\a"), Some("."));
    assert_eq!(file_name(W, ".."), None);
    assert_eq!(file_name(W, "a\\.\\"), Some("a"));
    assert_eq!(parent(W, "\\"), None);
}

#[test]
fn windows_paths_may_begin_with_a_drive() {
    assert_eq!(parent(W, "C:\\a\\b.txt"), Some("C:\\a"));
    assert_eq!(parent(W, "C:\\a"), Some("C:\\"));
    assert_eq!(parent(W, "C:\\"), None);
    assert_eq!(parent(W, "C:"), None);
    assert_eq!(parent(W, "C:a"), Some("C:"));
    assert_eq!(file_name(W, "C:a"), Some("a"));
    assert_eq!(file_name(W, "C:"), None);
    assert_eq!(file_stem(W, "c:/x/y.tar.gz"), Some("y.tar"));
    assert_eq!(file_name(W, "1:a"), Some("1:a"));
}

#[test]
fn windows_paths_may_begin_with_a_share() {
    assert_eq!(parent(W, "\\\\server\\share\\a"), Some("\\\\server\\share\\"));
    assert_eq!(parent(W, "\\\\server\\share\\"), None);
    assert_eq!(file_name(W, "\\\\server\\share"), None);
    assert_eq!(file_name(W, "//server/share/a.b"), Some("a.b"));
    assert_eq!(file_name(W, "\\\\server"), Some("server"));
    assert_eq!(file_name(W, "\\\\.\\COM1\\x"), Some("x"));
    assert_eq!(file_name(W, "\\\\.\\COM1"), None);
    assert_eq!(file_name(W, "\\\\?\\C:\\a/b.c"), Some("a/b.c"));
    assert_eq!(parent(W, "\\\\?\\C:\\a\\b"), Some("\\\\?\\C:\\a"));
    assert_eq!(file_name(W, "\\\\?\\C:\\a\\."), None);
    assert_eq!(parent(W, "\\\\?\\UNC\\s\\h\\a"), Some("\\\\?\\UNC\\s\\h\\"));
    assert_eq!(file_name(W, "\\\\?\\UNC\\s\\h"), None);
    assert_eq!(parent(W, "\\\\?\\x\\a"), Some("\\\\?\\x\\"));
}

#[test]
fn windows_joins_with_a_backslash() {
    let table = [
        ("a", "b", "a\\b"), ("a\\", "b", "a\\b"), ("a/", "b", "a/b"), ("", "b", "b"), ("a", "", "a\\"),
        ("C:", "b", "C:b"), ("C:\\", "b", "C:\\b"), ("C:\\a", "\\b", "C:\\b"), ("a", "\\b", "\\b"),
        ("C:\\a", "D:b", "D:b"), ("C:\\a", "D:\\b", "D:\\b"), ("a", "b/c", "a\\b/c"),
        ("\\\\s\\h", "b", "\\\\s\\h\\b"), ("\\\\s\\h\\a", "\\b", "\\\\s\\h\\b"),
        ("\\\\?\\C:\\a", "b/c", "\\\\?\\C:\\a\\b\\c"),
        ("\\\\?\\C:\\a\\b", "..\\.\\c", "\\\\?\\C:\\a\\c"),
        ("\\\\?\\C:\\a", "..\\..\\c", "\\\\?\\C:\\c"),
        ("\\\\?\\C:\\a", "/c", "\\\\?\\C:\\c"), ("\\\\?\\x", "c", "\\\\?\\x\\c"),
        ("\\\\?\\C:\\bar", "../../foo", "\\\\?\\C:\\foo"),
        ("\\\\?\\UNC\\server\\foo", "bar", "\\\\?\\UNC\\server\\foo\\bar"),
        ("\\\\.\\foo", "..\\bar", "\\\\.\\foo\\..\\bar"),
        ("\\\\?\\A:", "..\\foo\\.", "\\\\?\\A:\\foo"),
        ("\\\\?\\A:\\x\\y", "", "\\\\?\\A:\\x\\y\\"),
        ("\\\\server\\foo", "C:bar", "C:bar"),
        ("\\\\?\\C:", "c", "\\\\?\\C:\\c"), ("\\\\?\\C:\\a\\\\", "", "\\\\?\\C:\\a\\\\"),
    ];
    for (dir, path, whole) in table {
        assert_eq!(join(W, dir, path), whole, "{:?} joined to {:?}", dir, path);
    }
}
