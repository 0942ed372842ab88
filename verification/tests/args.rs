use cargo_read::args::{parse_crate_spec, strip_subcommand, Args, OutputMode};

#[test]
fn crate_spec_plain_name() {
    let s = parse_crate_spec("serde");
    assert_eq!(s.name, "serde");
    assert_eq!(s.version_req, None);
}

#[test]
fn crate_spec_exact_version_keeps_operator() {
    let s = parse_crate_spec("serde==1.0.200");
    assert_eq!(s.name, "serde");
    assert_eq!(s.version_req.as_deref(), Some("=1.0.200"));
}

#[test]
fn crate_spec_caret_and_tilde() {
    assert_eq!(parse_crate_spec("serde=^1.0").version_req.as_deref(), Some("^1.0"));
    assert_eq!(parse_crate_spec("serde=~1.0").version_req.as_deref(), Some("~1.0"));
}

#[test]
fn crate_spec_trims_and_drops_empty_version() {
    let s = parse_crate_spec("  tokio =  ");
    assert_eq!(s.name, "tokio");
    assert_eq!(s.version_req, None);
    let s = parse_crate_spec(" rand = 0.8 ");
    assert_eq!(s.name, "rand");
    assert_eq!(s.version_req.as_deref(), Some("0.8"));
}

#[test]
fn strip_read_subcommand() {
    let v = |a: &[&str]| a.iter().map(|s| s.to_string()).collect::<Vec<_>>();
    assert_eq!(strip_subcommand(v(&["cargo-read", "read", "serde"])), v(&["cargo-read", "serde"]));
    assert_eq!(strip_subcommand(v(&["cargo-read", "serde"])), v(&["cargo-read", "serde"]));
    assert_eq!(strip_subcommand(v(&["cargo-read"])), v(&["cargo-read"]));
}

fn args(api: bool, render_docs: bool, json: bool, path_only: bool, readme_only: bool) -> Args {
    Args {
        crate_spec: "serde".into(),
        cache_dir: None,
        json,
        api,
        render_docs,
        path_only,
        readme_only,
        force: false,
        verbose: false,
    }
}

#[test]
fn output_modes_follow_the_flags() {
    assert!(matches!(args(false, false, false, false, false).output_mode(), OutputMode::Summary));
    assert!(matches!(args(true, false, false, false, false).output_mode(), OutputMode::Api));
    assert!(matches!(args(true, false, true, false, false).output_mode(), OutputMode::ApiJson));
    assert!(matches!(args(true, true, false, false, false).output_mode(), OutputMode::RenderedDocs));
    assert!(matches!(args(true, true, false, false, true).output_mode(), OutputMode::ReadmeOnly));
    assert!(matches!(args(true, true, false, true, true).output_mode(), OutputMode::PathOnly));
}
