use cargo_read::api_scan::{
    count_braces, extract_cfg, extract_type_name, format_api, item_module, parse_impl_header,
    parse_pub_use, scan_public_api, skip_generics, truncate_sig, ApiItem, ItemKind, SourceFile,
    SourceTree,
};

fn tree(files: &[(&str, &str)]) -> SourceTree {
    SourceTree {
        files: files
            .iter()
            .map(|(p, c)| SourceFile { path: p.to_string(), content: Some(c.to_string()) })
            .collect(),
    }
}

#[test]
fn test_extract_cfg() {
    assert_eq!(
        extract_cfg("#[cfg(feature = \"std\")]"),
        Some("feature = \"std\"".into())
    );
    assert_eq!(
        extract_cfg("#[cfg(not(feature = \"no_std\"))]"),
        Some("not(feature = \"no_std\")".into())
    );
    assert_eq!(extract_cfg("#[derive(Debug)]"), None);
}

#[test]
fn test_count_braces() {
    assert_eq!(count_braces("fn foo() {"), 1);
    assert_eq!(count_braces("}"), -1);
    assert_eq!(count_braces("let s = \"}\";"), 0);
    assert_eq!(count_braces("{ { } }"), 0);
    assert_eq!(count_braces("pub struct Foo {"), 1);
}

#[test]
fn test_extract_type_name() {
    assert_eq!(extract_type_name("Foo<T>"), "Foo");
    assert_eq!(extract_type_name("Bar {"), "Bar");
    assert_eq!(extract_type_name("MyType"), "MyType");
}

#[test]
fn test_parse_impl_header() {
    assert_eq!(parse_impl_header("impl Foo {"), Some("Foo".into()));
    assert_eq!(parse_impl_header("impl<T> Foo<T> {"), Some("Foo".into()));
    assert_eq!(
        parse_impl_header("impl Display for Foo {"),
        Some("Foo (impl Display)".into())
    );
    assert_eq!(
        parse_impl_header("impl<T: Clone> Iterator for MyIter<T> {"),
        Some("MyIter (impl Iterator)".into())
    );
}

#[test]
fn test_truncate_sig() {
    assert_eq!(truncate_sig("pub fn foo()".into()), "pub fn foo()");
    assert_eq!(truncate_sig("pub fn foo() {".into()), "pub fn foo()");
    assert_eq!(truncate_sig("pub struct Foo {".into()), "pub struct Foo");
    assert_eq!(
        truncate_sig("pub type Alias = Vec<u8>;".into()),
        "pub type Alias = Vec<u8>"
    );
}

#[test]
fn test_skip_generics() {
    assert_eq!(skip_generics("<T>Foo"), "Foo");
    assert_eq!(skip_generics("<T: Clone + Debug>Bar"), "Bar");
    assert_eq!(skip_generics("Baz"), "Baz");
    assert_eq!(skip_generics("<A, B<C>>D"), "D");
}

#[test]
fn test_parse_pub_use() {
    let (path, kind, sig, _) = parse_pub_use("foo::Bar;", "mycrate").unwrap();
    assert_eq!(path, "mycrate::Bar");
    assert_eq!(kind, ItemKind::ReExport);
    assert_eq!(sig, "pub use foo::Bar");
}

#[test]
fn test_parse_pub_use_group() {
    let (path, _, sig, _) = parse_pub_use("foo::{A, B, C};", "mycrate").unwrap();
    assert_eq!(path, "mycrate::{re-exports}");
    assert_eq!(sig, "pub use foo::{A, B, C}");
}

const SYNTHETIC_LIB: &str = r#"
pub mod utils;

pub use utils::helper;

pub struct Config {
    pub name: String,
}

pub enum Mode {
    Fast,
    Slow,
}

pub trait Process {
    fn run(&self);
}

pub fn init() -> Config {
    todo!()
}

pub(crate) fn internal() {}

#[doc(hidden)]
pub fn hidden_fn() {}

#[cfg(feature = "extra")]
pub fn extra_feature() {}

impl Config {
    pub fn new() -> Self {
        todo!()
    }
}
"#;

const SYNTHETIC_UTILS: &str = r#"
pub fn helper() -> bool {
    true
}

pub const VERSION: &str = "1.0";
"#;

#[test]
fn test_scan_synthetic_crate() {
    let t = tree(&[("src/lib.rs", SYNTHETIC_LIB), ("src/utils.rs", SYNTHETIC_UTILS)]);
    let items = scan_public_api(&t, "testcrate");

    let names: Vec<&str> = items.iter().map(|i| i.path.as_str()).collect();

    // Should include public items
    assert!(names.contains(&"testcrate::utils"), "missing pub mod utils");
    assert!(
        names.contains(&"testcrate::helper"),
        "missing re-export helper"
    );
    assert!(names.contains(&"testcrate::Config"), "missing Config");
    assert!(names.contains(&"testcrate::Mode"), "missing Mode");
    assert!(names.contains(&"testcrate::Process"), "missing Process");
    assert!(names.contains(&"testcrate::init"), "missing init");
    assert!(
        names.contains(&"testcrate::extra_feature"),
        "missing cfg-gated item"
    );

    // Should NOT include restricted/hidden items
    assert!(
        !names.iter().any(|n| n.contains("internal")),
        "should exclude pub(crate)"
    );
    assert!(
        !names.iter().any(|n| n.contains("hidden_fn")),
        "should exclude doc(hidden)"
    );

    // Should include method
    assert!(
        names.contains(&"testcrate::Config::new"),
        "missing Config::new method"
    );

    // Should recurse into utils module
    assert!(
        names.contains(&"testcrate::utils::helper"),
        "missing utils::helper"
    );
    assert!(
        names.contains(&"testcrate::utils::VERSION"),
        "missing utils::VERSION"
    );

    // The cfg annotation
    let extra = items
        .iter()
        .find(|i| i.path == "testcrate::extra_feature")
        .unwrap();
    assert_eq!(extra.cfg.as_deref(), Some("feature = \"extra\""));
}

#[test]
fn scan_orders_items_and_records_lines() {
    let t = tree(&[("src/lib.rs", SYNTHETIC_LIB), ("src/utils.rs", SYNTHETIC_UTILS)]);
    let items = scan_public_api(&t, "testcrate");
    let paths: Vec<&str> = items.iter().map(|i| i.path.as_str()).collect();
    assert_eq!(
        paths,
        vec![
            "testcrate::utils",
            "testcrate::utils::helper",
            "testcrate::utils::VERSION",
            "testcrate::helper",
            "testcrate::Config",
            "testcrate::Mode",
            "testcrate::Process",
            "testcrate::init",
            "testcrate::extra_feature",
            "testcrate::Config::new",
        ]
    );
    assert_eq!(items[0].kind, ItemKind::Module);
    assert_eq!(items[0].line, 2);
    assert_eq!(items[0].file, "src/lib.rs");
    assert_eq!(items[1].file, "src/utils.rs");
    assert_eq!(items[1].signature, "pub fn helper() -> bool");
    assert_eq!(items[2].kind, ItemKind::Const);
    assert_eq!(items[2].signature, "pub const VERSION: &str = \"1.0\"");
    assert_eq!(items[3].kind, ItemKind::ReExport);
    assert_eq!(items[9].line, 32);
}

#[test]
fn scan_uses_main_rs_without_lib_rs() {
    let t = tree(&[("src/main.rs", "pub fn run() {}\n")]);
    let items = scan_public_api(&t, "my-tool");
    assert_eq!(items.len(), 1);
    assert_eq!(items[0].path, "my_tool::run");
    assert_eq!(items[0].signature, "pub fn run()");
}

#[test]
fn scan_without_root_finds_nothing() {
    let t = tree(&[("src/other.rs", "pub fn run() {}\n")]);
    assert!(scan_public_api(&t, "x").is_empty());
}

#[test]
fn scan_unreadable_root_finds_nothing() {
    let t = SourceTree {
        files: vec![
            SourceFile { path: "src/lib.rs".into(), content: None },
            SourceFile { path: "src/main.rs".into(), content: Some("pub fn a() {}".into()) },
        ],
    };
    assert!(scan_public_api(&t, "x").is_empty());
}

#[test]
fn scan_skips_private_modules_macros_and_comments() {
    let src = "mod inner {\n    pub fn hidden() {}\n}\nmacro_rules! m {\n    () => { pub fn nope() {} };\n}\n/*\npub fn commented() {}\n*/\n// pub fn line_comment() {}\npub fn visible() {}\n";
    let t = tree(&[("src/lib.rs", src)]);
    let items = scan_public_api(&t, "c");
    let paths: Vec<&str> = items.iter().map(|i| i.path.as_str()).collect();
    assert_eq!(paths, vec!["c::visible"]);
    assert_eq!(items[0].line, 11);
}

#[test]
fn scan_collects_multiline_signature() {
    let src = "pub fn long(\n    a: u32,\n    b: u32,\n) -> u32 {\n    a + b\n}\n";
    let t = tree(&[("src/lib.rs", src)]);
    let items = scan_public_api(&t, "c");
    assert_eq!(items.len(), 1);
    assert_eq!(items[0].signature, "pub fn long( a: u32, b: u32, ) -> u32");
}

#[test]
fn scan_nested_module_directory() {
    let t = tree(&[
        ("src/lib.rs", "pub mod a;\n"),
        ("src/a/mod.rs", "pub mod b;\npub struct InA;\n"),
        ("src/a/b.rs", "pub enum InB {}\n"),
    ]);
    let items = scan_public_api(&t, "c");
    let paths: Vec<&str> = items.iter().map(|i| i.path.as_str()).collect();
    assert_eq!(paths, vec!["c::a", "c::a::b", "c::a::b::InB", "c::a::InA"]);
}

#[test]
fn scan_module_that_declares_itself_stops() {
    let t = tree(&[("src/lib.rs", "pub mod lib;\npub fn f() {}\n")]);
    let items = scan_public_api(&t, "c");
    let paths: Vec<&str> = items.iter().map(|i| i.path.as_str()).collect();
    assert_eq!(paths, vec!["c::lib", "c::f"]);
}

#[test]
fn trait_impl_methods_are_qualified() {
    let src = "pub struct S;\nimpl Display for S {\n    pub fn fmt(&self) {}\n}\npub fn after() {}\n";
    let t = tree(&[("src/lib.rs", src)]);
    let items = scan_public_api(&t, "c");
    let paths: Vec<&str> = items.iter().map(|i| i.path.as_str()).collect();
    assert_eq!(paths, vec!["c::S", "c::S (impl Display)::fmt", "c::after"]);
}

#[test]
fn item_module_splits_at_last_separator() {
    assert_eq!(item_module("a::b::c"), "a::b");
    assert_eq!(item_module("plain"), "plain");
}

#[test]
fn extract_cfg_without_closing_paren() {
    assert_eq!(extract_cfg("#[cfg(feature = \"x\""), None);
    assert_eq!(extract_cfg("#[cfg_attr(docsrs, doc(cfg(x)))]"), Some("x".into()));
}

#[test]
fn count_braces_ignores_comments() {
    assert_eq!(count_braces("let x = 1; // {"), 0);
    assert_eq!(count_braces("fn f() { // }"), 1);
    assert_eq!(count_braces("/* { */ {"), 1);
    assert_eq!(count_braces("x /* { } }"), 0);
    assert_eq!(count_braces("let s = \"//\"; {"), 1);
}

#[test]
fn count_braces_after_lifetimes() {
    assert_eq!(count_braces("fn f(x: &'static str) {"), 1);
    assert_eq!(count_braces("impl<'a> Foo<'a> {"), 1);
    assert_eq!(count_braces("'outer: loop {"), 1);
    assert_eq!(count_braces("let c = '\\''; {"), 1);
    assert_eq!(count_braces("let c = '\\u{7b}'; {"), 1);
}

#[test]
fn count_braces_in_char_literals_and_escapes() {
    assert_eq!(count_braces("let c = '{';"), 0);
    assert_eq!(count_braces("let s = \"\\\"{\"; {"), 1);
}

#[test]
fn parse_impl_header_rejects_other_lines() {
    assert_eq!(parse_impl_header("fn impl_me() {"), None);
    assert_eq!(parse_impl_header("struct Foo;"), None);
    assert_eq!(parse_impl_header("impl {"), None);
}

#[test]
fn parse_pub_use_glob_and_alias() {
    let (path, _, sig, name) = parse_pub_use("foo::*;", "m").unwrap();
    assert_eq!(path, "m::{re-exports}");
    assert_eq!(sig, "pub use foo::*");
    assert_eq!(name, "");
    let (path, _, _, _) = parse_pub_use("  Bar ;", "m").unwrap();
    assert_eq!(path, "m::Bar");
}

#[test]
fn truncate_sig_collapses_whitespace() {
    assert_eq!(truncate_sig("pub   fn\tfoo( a:  u8 )  ;;".into()), "pub fn foo( a: u8 )");
}

fn item(path: &str, sig: &str, file: &str, line: usize, cfg: Option<&str>) -> ApiItem {
    ApiItem {
        path: path.into(),
        kind: ItemKind::Function,
        signature: sig.into(),
        file: file.into(),
        line,
        cfg: cfg.map(|c| c.to_string()),
    }
}

#[test]
fn format_api_groups_by_module() {
    let items = vec![
        item("c::a", "pub fn a()", "src/lib.rs", 3, None),
        item("c::b", "pub fn b()", "src/lib.rs", 7, Some("feature = \"x\"")),
        item("c::m::d", "pub fn d()", "src/m.rs", 1, None),
    ];
    let out = format_api("c", "/tmp/c-1.0.0", &items);
    assert_eq!(
        out,
        "# c\n\n  pub fn a()  // /tmp/c-1.0.0/src/lib.rs:3\n  #[cfg(feature = \"x\")]\n  pub fn b()  // /tmp/c-1.0.0/src/lib.rs:7\n\n# c::m\n\n  pub fn d()  // /tmp/c-1.0.0/src/m.rs:1\n\nHint: Read any file above for full details. Use `cargo read c` for README.\n"
    );
}

#[test]
fn format_api_of_nothing_is_empty() {
    assert_eq!(format_api("c", "/x", &[]), "");
}

#[test]
fn scanned_paths_lie_under_the_crate_module() {
    let t = tree(&[("src/lib.rs", SYNTHETIC_LIB), ("src/utils.rs", SYNTHETIC_UTILS)]);
    let items = scan_public_api(&t, "test-crate");
    assert!(!items.is_empty());
    assert!(items.iter().all(|i| i.path.starts_with("test_crate::")));
}

#[test]
fn truncated_signatures_hold_no_brace() {
    for sig in ["pub fn f() { {x} }", "pub struct S{a:u8}", "{", "  pub  enum E ;"] {
        assert!(!truncate_sig(sig.to_string()).contains('{'));
    }
}

#[test]
fn brace_count_without_literals_is_open_minus_close() {
    assert_eq!(count_braces("{{}"), 1);
    assert_eq!(count_braces("}}} {"), -2);
}

#[test]
fn scanned_items_sit_on_pub_lines() {
    let t = tree(&[("src/lib.rs", SYNTHETIC_LIB), ("src/utils.rs", SYNTHETIC_UTILS)]);
    let items = scan_public_api(&t, "testcrate");
    for it in &items {
        let text = if it.file == "src/lib.rs" { SYNTHETIC_LIB } else { SYNTHETIC_UTILS };
        let line = text.lines().nth(it.line - 1).unwrap();
        assert!(line.trim().starts_with("pub "), "{} at {}", it.path, it.line);
    }
}

#[test]
fn submodule_items_follow_their_pub_mod_item() {
    let t = tree(&[
        ("src/lib.rs", "pub fn first() {}\npub mod inner;\npub fn last() {}\n"),
        ("src/inner.rs", "pub struct A;\npub fn b() {}\n"),
    ]);
    let items = scan_public_api(&t, "my-crate");
    let paths: Vec<&str> = items.iter().map(|i| i.path.as_str()).collect();
    assert_eq!(
        paths,
        vec!["my_crate::first", "my_crate::inner", "my_crate::inner::A", "my_crate::inner::b", "my_crate::last"]
    );
    assert!(matches!(items[1].kind, ItemKind::Module));
    assert_eq!(items[1].signature, "pub mod inner");
    assert_eq!(items[1].line, 2);
    assert_eq!(items[2].file, "src/inner.rs");
}

#[test]
fn comment_braces_do_not_end_an_impl() {
    let t = tree(&[(
        "src/lib.rs",
        "pub struct S;\nimpl S { // }\n    pub fn new() -> Self { S }\n}\npub fn after<'a>(x: &'a str) {\n}\npub fn free() {}\n",
    )]);
    let paths: Vec<String> = scan_public_api(&t, "k").into_iter().map(|i| i.path).collect();
    assert_eq!(paths, vec!["k::S", "k::S::new", "k::after", "k::free"]);
}
