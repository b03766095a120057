use egocms_updater::path::{file_extension, is_markdown_extension};
use std::path::Path;

fn std_extension(name: &str) -> Option<String> {
    Path::new(name).extension().map(|e| e.to_string_lossy().into_owned())
}

#[test]
fn extension_agrees_with_std() {
    let names = [
        "landing_page.md", "research/julea.md", "research/smash.MD", "a.b.md", "README", ".md",
        ".gitignore", "a.", "", ".", "..", "a/..", "a/.", "a/./", "./a.md", "/", "a//b.txt",
        "dir.d/file", "dir/.hidden.md", "x/y/", "x.md/", "..md", "a..", "ü.mD", "...",
    ];
    for name in names {
        assert_eq!(file_extension(name), std_extension(name), "extension of {name:?}");
    }
}

#[test]
fn extension_examples() {
    assert_eq!(file_extension("research/julea.md").as_deref(), Some("md"));
    assert_eq!(file_extension("archive.tar.gz").as_deref(), Some("gz"));
    assert_eq!(file_extension("notes").as_deref(), None);
    assert_eq!(file_extension(".profile").as_deref(), None);
}

#[test]
fn markdown_extension_ignores_ascii_case() {
    assert!(is_markdown_extension("md"));
    assert!(is_markdown_extension("MD"));
    assert!(is_markdown_extension("mD"));
    assert!(!is_markdown_extension("markdown"));
    assert!(!is_markdown_extension("m"));
    assert!(!is_markdown_extension("txt"));
    assert!(!is_markdown_extension(""));
}
