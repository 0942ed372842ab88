use cargo_read::rustdoc_build::{rustdoc_json_step, RustdocAction, RustdocEvent};
use cargo_read::rustdoc_json::render_docs_json;

fn item(id: u32, name: &str, docs: &str, inner: &str) -> String {
    format!(
        "\"{id}\": {{\"id\": {id}, \"crate_id\": 0, \"name\": \"{name}\", \"span\": null, \
         \"visibility\": \"public\", \"docs\": \"{docs}\", \"links\": {{}}, \"attrs\": [], \
         \"deprecation\": null, \"inner\": {inner}}}"
    )
}

fn krate(root: u32, items: &[String]) -> String {
    format!(
        "{{\"root\": {root}, \"crate_version\": null, \"includes_private\": false, \"index\": {{{}}}, \
         \"paths\": {{}}, \"external_crates\": {{}}, \"target\": {{\"triple\": \"x\", \"target_features\": []}}, \
         \"format_version\": 57}}",
        items.join(", ")
    )
}

#[test]
fn renders_parsed_rustdoc_json() {
    let text = krate(
        0,
        &[
            item(0, "demo", "Crate docs.", "{\"module\": {\"is_crate\": true, \"items\": [1], \"is_stripped\": false}}"),
            item(
                1,
                "MAX",
                "",
                "{\"constant\": {\"type\": {\"primitive\": \"u32\"}, \"const\": {\"expr\": \"3\", \"value\": \"3\", \"is_literal\": true}}}",
            ),
        ],
    );
    let out = render_docs_json(&text, "demo", "/c").unwrap();
    assert_eq!(
        out,
        "Crate docs.\n\n---\n\n## const `MAX = 3`\n\nHint: Use `cargo read demo` for README, `cargo read --api demo` for quick API overview.\n"
    );
}

#[test]
fn rustdoc_json_errors() {
    let e = render_docs_json("not json", "demo", "/c").unwrap_err();
    assert!(e.starts_with("Failed to parse rustdoc JSON: "), "{e}");
    let no_root = krate(7, &[]);
    assert_eq!(render_docs_json(&no_root, "demo", "/c").unwrap_err(), "rustdoc JSON has no root item");
}

#[test]
fn rustdoc_steps_reuse_check_build() {
    let step = |ev| rustdoc_json_step("/c/my-crate", "my-crate", ev);
    assert!(matches!(
        step(RustdocEvent::Start { json_exists: true }),
        RustdocAction::UseJson(p) if p == "/c/my-crate/target/doc/my_crate.json"
    ));
    assert!(matches!(step(RustdocEvent::Start { json_exists: false }), RustdocAction::CheckNightly));
    assert!(matches!(
        step(RustdocEvent::NightlyChecked { ok: true }),
        RustdocAction::Build { manifest, notice }
            if manifest == "/c/my-crate/Cargo.toml" && notice == "Building rustdoc JSON for my-crate (nightly)..."
    ));
    assert!(matches!(
        step(RustdocEvent::NightlyChecked { ok: false }),
        RustdocAction::Fail(m) if m == "Nightly Rust required for --render-docs. Install with: rustup toolchain install nightly"
    ));
    assert!(matches!(
        step(RustdocEvent::Built { ok: false, stderr: "boom".into(), json_exists: false }),
        RustdocAction::Fail(m) if m == "cargo rustdoc failed:\nboom"
    ));
    assert!(matches!(
        step(RustdocEvent::Built { ok: true, stderr: String::new(), json_exists: true }),
        RustdocAction::UseJson(p) if p == "/c/my-crate/target/doc/my_crate.json"
    ));
    assert!(matches!(
        step(RustdocEvent::Built { ok: true, stderr: String::new(), json_exists: false }),
        RustdocAction::Fail(m) if m == "Expected JSON at /c/my-crate/target/doc/my_crate.json but not found"
    ));
}
