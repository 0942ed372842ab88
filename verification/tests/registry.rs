use cargo_read::registry::{download_url, resolve_version, resolve_version_from_text, unpack_crate_archive, versions_url, Json, ResolveError};

fn entry(num: &str, yanked: bool) -> Json {
    Json::Object(vec![
        ("num".to_string(), Json::String(num.to_string())),
        ("yanked".to_string(), Json::Bool(yanked)),
    ])
}

fn answer(entries: Vec<Json>) -> Json {
    Json::Object(vec![("versions".to_string(), Json::Array(entries))])
}

#[test]
fn picks_latest_non_yanked() {
    let a = answer(vec![entry("1.0.0", false), entry("1.2.0", true), entry("1.1.0", false)]);
    assert_eq!(resolve_version(&a, None).ok(), Some("1.1.0".to_string()));
}

#[test]
fn star_skips_prereleases() {
    let a = answer(vec![entry("2.0.0-alpha.1", false), entry("1.9.9", false)]);
    assert_eq!(resolve_version(&a, None).ok(), Some("1.9.9".to_string()));
}

#[test]
fn requirement_filters_versions() {
    let a = answer(vec![
        entry("1.0.200", false),
        entry("1.0.201", false),
        entry("2.0.0", false),
        entry("not-a-version", false),
    ]);
    assert_eq!(resolve_version(&a, Some("=1.0.200")).ok(), Some("1.0.200".to_string()));
    assert_eq!(resolve_version(&a, Some("^1.0")).ok(), Some("1.0.201".to_string()));
    assert_eq!(resolve_version(&a, Some("~1.0")).ok(), Some("1.0.201".to_string()));
}

#[test]
fn errors_and_messages() {
    let malformed = Json::Object(vec![]);
    let e = resolve_version(&malformed, None).err().unwrap();
    assert!(matches!(e, ResolveError::Malformed));
    assert_eq!(e.message("x"), "malformed response: missing /versions array");

    let not_object = Json::Array(vec![]);
    assert!(matches!(resolve_version(&not_object, None), Err(ResolveError::Malformed)));

    let empty = answer(vec![entry("1.0.0", true)]);
    let e = resolve_version(&empty, None).err().unwrap();
    assert!(matches!(e, ResolveError::NoVersions));
    assert_eq!(e.message("x"), "no versions found for crate `x`");

    let one = answer(vec![entry("1.0.0", false)]);
    let e = resolve_version(&one, Some("@1")).err().unwrap();
    assert!(matches!(e, ResolveError::BadRequirement(_)));

    let e = resolve_version(&one, Some(">=2")).err().unwrap();
    assert_eq!(e.message("x"), "no version of `x` matches requirement `>=2`");
}

#[test]
fn entries_without_num_are_ignored() {
    let a = answer(vec![
        Json::Object(vec![("yanked".to_string(), Json::Bool(false))]),
        Json::Null,
        Json::Object(vec![("num".to_string(), Json::Number)]),
        Json::Object(vec![
            ("num".to_string(), Json::String("0.3.0".into())),
            ("yanked".to_string(), Json::Number),
        ]),
    ]);
    assert_eq!(resolve_version(&a, None).ok(), Some("0.3.0".to_string()));
}

#[test]
fn urls() {
    assert_eq!(versions_url("serde"), "https://crates.io/api/v1/crates/serde/versions");
    assert_eq!(
        download_url("serde", "1.0.0"),
        "https://crates.io/api/v1/crates/serde/1.0.0/download"
    );
}

#[test]
fn gunzip_decodes_and_rejects() {
    // gzip of "hi\n"
    let data: [u8; 23] = [
        0x1f, 0x8b, 0x08, 0x00, 0x00, 0x00, 0x00, 0x00, 0x02, 0xff, 0xcb, 0xc8, 0xe4, 0x02, 0x00,
        0x7a, 0x7a, 0x6f, 0xed, 0x03, 0x00, 0x00, 0x00,
    ];
    assert_eq!(unpack_crate_archive(&data), Ok(b"hi\n".to_vec()));
    assert!(unpack_crate_archive(b"not gzip").is_err());
}

#[test]
fn chosen_version_is_the_greatest_match() {
    let a = answer(vec![
        entry("0.9.0", false),
        entry("1.10.0", false),
        entry("1.9.0", false),
        entry("1.10.0-rc.1", false),
    ]);
    assert_eq!(resolve_version(&a, None).ok(), Some("1.10.0".to_string()));
    assert_eq!(resolve_version(&a, Some("<1.10")).ok(), Some("1.9.0".to_string()));
    assert_eq!(resolve_version(&a, Some("=1.10.0-rc.1")).ok(), Some("1.10.0-rc.1".to_string()));
}

#[test]
fn resolve_from_registry_text() {
    let body = r#"{"versions": [{"num": "1.0.0", "yanked": false}, {"num": "1.2.0", "yanked": true}, {"num": "1.1.0", "yanked": false, "downloads": 5}], "meta": {"total": 3}}"#;
    assert_eq!(resolve_version_from_text(body, None).ok(), Some("1.1.0".to_string()));
    assert_eq!(resolve_version_from_text(body, Some("=1.0.0")).ok(), Some("1.0.0".to_string()));
    let e = resolve_version_from_text("{\"versions\": [", None).err().unwrap();
    assert!(matches!(&e, ResolveError::BadJson(m) if !m.is_empty()));
    assert!(matches!(resolve_version_from_text("[]", None), Err(ResolveError::Malformed)));
}
