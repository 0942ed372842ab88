use cargo_read::paths::{extension_chars, file_stem_chars, parent_dir_chars, path_join_chars};
use cargo_read::text::{collapse_ws_chars, split_lines, to_chars, trim_chars};

fn v(s: &str) -> Vec<char> {
    s.chars().collect()
}

fn s(v: Vec<char>) -> String {
    v.into_iter().collect()
}

#[test]
fn joins_paths_like_path_join() {
    assert_eq!(s(path_join_chars(&v("a"), &v("b"))), "a/b");
    assert_eq!(s(path_join_chars(&v("a/"), &v("b"))), "a/b");
    assert_eq!(s(path_join_chars(&v(""), &v("b"))), "b");
    assert_eq!(s(path_join_chars(&v("a"), &v("/abs"))), "/abs");
}

#[test]
fn stems_parents_and_extensions() {
    assert_eq!(s(parent_dir_chars(&v("src/a/b.rs"))), "src/a");
    assert_eq!(s(parent_dir_chars(&v("lib.rs"))), "");
    assert_eq!(s(file_stem_chars(&v("src/lib.rs"))), "lib");
    assert_eq!(s(file_stem_chars(&v("src/.hidden"))), ".hidden");
    assert_eq!(s(file_stem_chars(&v("a/b.tar.gz"))), "b.tar");
    assert_eq!(extension_chars(&v("a/b.rs")).map(s), Some("rs".to_string()));
    assert_eq!(extension_chars(&v("a/.rs")), None);
    assert_eq!(extension_chars(&v("a/README")), None);
}

#[test]
fn lines_match_str_lines() {
    for text in ["a\nb", "a\r\nb\n", "", "\n", "x\n\ny", "end\r", "a\n\r\n"] {
        let ours: Vec<String> = split_lines(&to_chars(text)).into_iter().map(s).collect();
        let std: Vec<String> = text.lines().map(|l| l.to_string()).collect();
        assert_eq!(ours, std, "{:?}", text);
    }
}

#[test]
fn trims_and_collapses_like_std() {
    for text in ["  a b  ", "\t\u{3000}x\u{85}", "", "   ", "a  \n b\tc"] {
        assert_eq!(s(trim_chars(&v(text))), text.trim());
        assert_eq!(
            s(collapse_ws_chars(&v(text))),
            text.split_whitespace().collect::<Vec<_>>().join(" ")
        );
    }
}
