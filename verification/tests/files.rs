use cargo_read::files::{crate_dir, default_cache_dir, list_files, readme_candidates};

#[test]
fn cache_dir_prefers_xdg() {
    let some = |s: &str| Some(s.to_string());
    assert_eq!(default_cache_dir(some("/xdg"), some("C:\\L"), some("/home/u")), "/xdg/cargo-read");
    assert_eq!(default_cache_dir(None, None, some("/home/u")), "/home/u/.cache/cargo-read");
    assert_eq!(default_cache_dir(None, None, None), "/tmp/cargo-read");
    assert_eq!(default_cache_dir(some("/xdg/"), None, None), "/xdg/cargo-read");
}

#[test]
fn cache_dir_on_windows_uses_local_app_data() {
    let some = |s: &str| Some(s.to_string());
    assert_eq!(
        default_cache_dir(None, some("C:\\Users\\u\\AppData\\Local"), some("/home/u")),
        "C:\\Users\\u\\AppData\\Local\\cargo-read"
    );
    assert_eq!(default_cache_dir(None, some("C:\\L\\"), None), "C:\\L\\cargo-read");
}

#[test]
fn crate_dir_joins_name_and_version() {
    assert_eq!(crate_dir("/cache", "serde", "1.0.0"), "/cache/serde-1.0.0");
}

const STANDARD: [&str; 9] = [
    "README.md", "readme.md", "Readme.md", "README", "readme", "README.txt", "readme.txt",
    "README.rst", "readme.rst",
];

#[test]
fn readme_candidates_without_manifest() {
    assert_eq!(readme_candidates(None), STANDARD.to_vec());
}

#[test]
fn readme_candidates_from_manifest() {
    let toml = "[package]\nname = \"x\"\nreadme = \"docs/INTRO.md\"\nreadme_file = \"no\"\n  readme='other.md'\nreadme = \"\"\n";
    let mut expected = vec!["docs/INTRO.md", "other.md"];
    expected.extend(STANDARD);
    assert_eq!(readme_candidates(Some(toml)), expected);
}

#[test]
fn list_files_filters_and_sorts() {
    let paths: Vec<String> = ["src/main.rs", "README.md", "Cargo.toml", "src/a.rs", ".rs", "b.MD", "docs/x.md", "src\\c.rs"]
        .iter()
        .map(|s| s.to_string())
        .collect();
    assert_eq!(
        list_files(&paths),
        vec!["README.md", "docs/x.md", "src/a.rs", "src/c.rs", "src/main.rs"]
    );
}
