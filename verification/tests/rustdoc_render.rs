use cargo_read::rustdoc_model::{
    DocCrate, DocFunction, DocGenericArg, DocGenericArgs, DocInner, DocItem, DocMacroKind, DocSpan, DocType,
};
use cargo_read::rustdoc_render::{render_crate, render_type_brief};

fn text(v: Vec<char>) -> String {
    v.into_iter().collect()
}

fn path(p: &str, args: Option<DocGenericArgs>) -> DocType {
    DocType::ResolvedPath { path: p.into(), args: args.map(Box::new) }
}

fn item(name: Option<&str>, docs: Option<&str>, public: bool, inner: DocInner) -> DocItem {
    DocItem {
        name: name.map(|s| s.to_string()),
        docs: docs.map(|s| s.to_string()),
        public,
        span: None,
        inner,
    }
}

#[test]
fn type_text_of_common_types() {
    let vec_u8 = path(
        "Vec",
        Some(DocGenericArgs::AngleBracketed(vec![DocGenericArg::Type(DocType::Primitive("u8".into()))])),
    );
    assert_eq!(text(render_type_brief(&vec_u8)), "Vec<u8>");
    let r = DocType::BorrowedRef {
        lifetime: Some("'a".into()),
        is_mutable: true,
        ty: Box::new(DocType::Slice(Box::new(DocType::Generic("T".into())))),
    };
    assert_eq!(text(render_type_brief(&r)), "&'a mut [T]");
    let t = DocType::Tuple(vec![DocType::Primitive("u8".into()), DocType::Infer]);
    assert_eq!(text(render_type_brief(&t)), "(u8, _)");
    let a = DocType::Array { ty: Box::new(DocType::Primitive("u8".into())), len: "4".into() };
    assert_eq!(text(render_type_brief(&a)), "[u8; 4]");
    let p = DocType::RawPointer { is_mutable: false, ty: Box::new(DocType::Primitive("u8".into())) };
    assert_eq!(text(render_type_brief(&p)), "*const u8");
    let i = DocType::ImplTrait(vec![Some("Iterator".into()), None, Some("Send".into())]);
    assert_eq!(text(render_type_brief(&i)), "impl Iterator + Send");
    let d = DocType::DynTrait(vec!["Error".into(), "Send".into()]);
    assert_eq!(text(render_type_brief(&d)), "dyn Error + Send");
    let q = DocType::QualifiedPath {
        name: "Item".into(),
        self_type: Box::new(DocType::Generic("I".into())),
        trait_path: Some("Iterator".into()),
    };
    assert_eq!(text(render_type_brief(&q)), "<I as Iterator>::Item");
    let f = path(
        "Fn",
        Some(DocGenericArgs::Parenthesized {
            inputs: vec![DocType::Primitive("u8".into())],
            output: Some(DocType::Primitive("bool".into())),
        }),
    );
    assert_eq!(text(render_type_brief(&f)), "Fn(u8) -> bool");
    let c = path(
        "Arr",
        Some(DocGenericArgs::AngleBracketed(vec![
            DocGenericArg::Lifetime("'a".into()),
            DocGenericArg::Infer,
            DocGenericArg::Const { expr: "N".into(), value: None },
            DocGenericArg::Const { expr: "{ 2 }".into(), value: Some("2".into()) },
        ])),
    );
    assert_eq!(text(render_type_brief(&c)), "Arr<'a, N, 2>");
    assert_eq!(text(render_type_brief(&DocType::FunctionPointer)), "fn(...)");
    assert_eq!(text(render_type_brief(&path("X", Some(DocGenericArgs::AngleBracketed(vec![]))))), "X");
}

#[test]
fn renders_a_small_crate() {
    let func = DocFunction {
        generics: vec!["T".into()],
        inputs: vec![
            ("self".into(), DocType::BorrowedRef { lifetime: None, is_mutable: false, ty: Box::new(DocType::Generic("Self".into())) }),
            ("x".into(), DocType::Generic("T".into())),
        ],
        output: Some(DocType::Primitive("bool".into())),
    };
    let index = vec![
        (0, item(Some("demo"), Some("Crate docs."), true, DocInner::Module { items: vec![1, 2, 3, 5, 6, 7, 9] })),
        (1, DocItem {
            name: Some("run".into()),
            docs: Some("Runs it.\nMore.".into()),
            public: true,
            span: Some(DocSpan { filename: "src/lib.rs".into(), line: 12 }),
            inner: DocInner::Function(DocFunction { generics: vec![], inputs: vec![], output: None }),
        }),
        (2, item(Some("hidden"), None, false, DocInner::Macro)),
        (3, item(Some("Color"), None, true, DocInner::Enum { generics: vec![], variants: vec![4] })),
        (4, item(Some("Red"), Some("  The red one  \nsecond"), true, DocInner::Other)),
        (5, item(Some("sub"), Some(""), true, DocInner::Module { items: vec![8] })),
        (6, item(Some("Probe"), None, true, DocInner::Trait { generics: vec![], items: vec![10] })),
        (7, item(Some("MAX"), None, true, DocInner::Constant { value: Some("3".into()) })),
        (8, item(Some("fmt"), None, true, DocInner::Use { source: "std::fmt".into(), is_glob: true })),
        (9, item(None, Some("Impl docs"), true, DocInner::Impl { trait_path: Some("Display".into()), items: vec![10] })),
        (10, item(Some("probe"), Some("Probes."), true, DocInner::Function(func))),
    ];
    let krate = DocCrate { root: 0, index };
    let out = render_crate(&krate, "demo", "/c");
    let expected = "Crate docs.\n\n---\n\n\
## `fn run()`\n<sub>/c/src/lib.rs:12</sub>\n\nRuns it.\nMore.\n\n\
## enum `Color`\n\n- `Red` — The red one\n\n\
## mod `sub`\n\n- pub use std::fmt::*\n\
## trait `Probe`\n\n- `fn probe<T>(&Self, x: T) -> bool` — Probes.\n\n\
## const `MAX = 3`\n\n\
#### impl `Display` for `demo`\n\nImpl docs\n- `fn probe<T>(&Self, x: T) -> bool` — Probes.\n\n\
\nHint: Use `cargo read demo` for README, `cargo read --api demo` for quick API overview.\n";
    assert_eq!(out, expected);
}

#[test]
fn struct_methods_are_listed_with_docs() {
    let method = DocFunction { generics: vec![], inputs: vec![], output: Some(path("Self", None)) };
    let index = vec![
        (0, item(Some("k"), None, true, DocInner::Module { items: vec![1] })),
        (1, item(Some("S"), None, true, DocInner::Struct { generics: vec!["A".into(), "B".into()], impls: vec![2, 4] })),
        (2, item(None, None, true, DocInner::Impl { trait_path: None, items: vec![3, 5] })),
        (3, item(Some("new"), Some("Makes one.\nReally."), true, DocInner::Function(method))),
        (4, item(None, None, true, DocInner::Impl { trait_path: Some("Clone".into()), items: vec![3] })),
        (5, item(Some("private"), None, false, DocInner::Function(DocFunction { generics: vec![], inputs: vec![], output: None }))),
    ];
    let krate = DocCrate { root: 0, index };
    let out = render_crate(&krate, "k", "/c");
    let expected = "## struct `S<A, B>`\n\n### Methods\n\n- `fn new() -> Self`\n\n  Makes one.\n  Really.\n\n\
\nHint: Use `cargo read k` for README, `cargo read --api k` for quick API overview.\n";
    assert_eq!(out, expected);
}

#[test]
fn statics_unions_aliases_and_proc_macros_have_headings() {
    let index = vec![
        (0, item(Some("k"), None, true, DocInner::Module { items: vec![1, 2, 3, 4, 5, 6, 7, 8] })),
        (1, item(Some("COUNT"), Some("Counts."), true, DocInner::Static { ty: DocType::Primitive("u32".into()), is_mutable: true })),
        (2, item(Some("NAME"), None, true, DocInner::Static { ty: path("String", None), is_mutable: false })),
        (3, item(Some("U"), None, true, DocInner::Union { generics: vec!["T".into()], impls: vec![] })),
        (4, item(Some("Alias"), None, true, DocInner::TraitAlias { generics: vec![] })),
        (5, item(Some("make"), None, true, DocInner::ProcMacro(DocMacroKind::Bang))),
        (6, item(Some("route"), None, true, DocInner::ProcMacro(DocMacroKind::Attr))),
        (7, item(Some("Builder"), None, true, DocInner::ProcMacro(DocMacroKind::Derive))),
        (8, item(Some("other"), None, true, DocInner::Other)),
    ];
    let krate = DocCrate { root: 0, index };
    let out = render_crate(&krate, "k", "/c");
    let expected = "## static `mut COUNT: u32`\n\nCounts.\n\n\
## static `NAME: String`\n\n\
## union `U<T>`\n\n\
## trait alias `Alias`\n\n\
## macro `make!`\n\n\
## attribute macro `#[route]`\n\n\
## derive macro `#[derive(Builder)]`\n\n\
\nHint: Use `cargo read k` for README, `cargo read --api k` for quick API overview.\n";
    assert_eq!(out, expected);
}

#[test]
fn nested_module_items_are_one_level_deeper() {
    let unit = DocFunction { generics: vec![], inputs: vec![], output: None };
    let index = vec![
        (0, item(Some("k"), None, true, DocInner::Module { items: vec![1] })),
        (1, item(Some("outer"), Some("Outer."), true, DocInner::Module { items: vec![2, 3] })),
        (2, item(Some("f"), None, true, DocInner::Function(unit))),
        (3, item(Some("deep"), None, true, DocInner::Module { items: vec![4] })),
        (4, item(Some("C"), None, true, DocInner::Constant { value: None })),
    ];
    let krate = DocCrate { root: 0, index };
    let out = render_crate(&krate, "k", "/c");
    let expected = "## mod `outer`\n\n\nOuter.\n\n\
### `fn f()`\n\n\
### mod `deep`\n\n\n\
#### const `C`\n\n\
\nHint: Use `cargo read k` for README, `cargo read --api k` for quick API overview.\n";
    assert_eq!(out, expected);
}
