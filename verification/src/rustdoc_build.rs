//! Getting rustdoc's JSON for a crate: reuse it when it is already built,
//! otherwise check for a nightly toolchain and build it. The program runs the
//! commands; the decisions are here.

use vstd::prelude::*;
use crate::paths::{path_join, path_join_chars};
use crate::rustdoc_render::rustdoc_json_path;
use crate::text::{append_str, from_chars, to_chars};

verus! {

/// What the program reports back.
pub enum RustdocEvent {
    /// At the start: whether the JSON file already exists
    Start { json_exists: bool },
    /// `cargo +nightly --version` ran: whether it succeeded
    NightlyChecked { ok: bool },
    /// `cargo +nightly rustdoc` ran: whether it succeeded, what it wrote to
    /// stderr, and whether the JSON file exists now
    Built { ok: bool, stderr: String, json_exists: bool },
}

/// What the program is to do next.
pub enum RustdocAction {
    /// Read the JSON at this path: done
    UseJson(String),
    /// Run `cargo +nightly --version`
    CheckNightly,
    /// Say `notice` on stderr, then run `cargo +nightly rustdoc` on this manifest
    Build { manifest: String, notice: String },
    /// Stop with this error
    Fail(String),
}

/// The plain values of a [`RustdocEvent`].
pub enum RustdocEventView {
    Start { json_exists: bool },
    NightlyChecked { ok: bool },
    Built { ok: bool, stderr: Seq<char>, json_exists: bool },
}

/// The plain values of a [`RustdocAction`].
pub enum RustdocActionView {
    UseJson(Seq<char>),
    CheckNightly,
    Build { manifest: Seq<char>, notice: Seq<char> },
    Fail(Seq<char>),
}

impl View for RustdocEvent {
    type V = RustdocEventView;

    open spec fn view(&self) -> RustdocEventView {
        match self {
            RustdocEvent::Start { json_exists } => RustdocEventView::Start { json_exists: *json_exists },
            RustdocEvent::NightlyChecked { ok } => RustdocEventView::NightlyChecked { ok: *ok },
            RustdocEvent::Built { ok, stderr, json_exists } => RustdocEventView::Built {
                ok: *ok,
                stderr: stderr@,
                json_exists: *json_exists,
            },
        }
    }
}

impl View for RustdocAction {
    type V = RustdocActionView;

    open spec fn view(&self) -> RustdocActionView {
        match self {
            RustdocAction::UseJson(p) => RustdocActionView::UseJson(p@),
            RustdocAction::CheckNightly => RustdocActionView::CheckNightly,
            RustdocAction::Build { manifest, notice } => RustdocActionView::Build {
                manifest: manifest@,
                notice: notice@,
            },
            RustdocAction::Fail(m) => RustdocActionView::Fail(m@),
        }
    }
}

/// The JSON file of a crate, as [`rustdoc_json_path`] gives it.
pub open spec fn json_path(crate_dir: Seq<char>, crate_name: Seq<char>) -> Seq<char> {
    path_join(
        path_join(crate_dir, "target/doc"@),
        crate::api_scan::crate_module_name(crate_name) + ".json"@,
    )
}

/// The next action after an event. A JSON file that exists already is reused
/// (results are cached); otherwise nightly Rust is checked for, the JSON is
/// built, and the file is expected where `cargo rustdoc` writes it.
pub open spec fn spec_rustdoc_step(crate_dir: Seq<char>, crate_name: Seq<char>, ev: RustdocEventView) -> RustdocActionView {
    let path = json_path(crate_dir, crate_name);
    match ev {
        RustdocEventView::Start { json_exists } => if json_exists {
            RustdocActionView::UseJson(path)
        } else {
            RustdocActionView::CheckNightly
        },
        RustdocEventView::NightlyChecked { ok } => if ok {
            RustdocActionView::Build {
                manifest: path_join(crate_dir, "Cargo.toml"@),
                notice: "Building rustdoc JSON for "@ + crate_name + " (nightly)..."@,
            }
        } else {
            RustdocActionView::Fail(
                "Nightly Rust required for --render-docs. Install with: rustup toolchain install nightly"@,
            )
        },
        RustdocEventView::Built { ok, stderr, json_exists } => if !ok {
            RustdocActionView::Fail("cargo rustdoc failed:\n"@ + stderr)
        } else if json_exists {
            RustdocActionView::UseJson(path)
        } else {
            RustdocActionView::Fail("Expected JSON at "@ + path + " but not found"@)
        },
    }
}

/// One decision in getting a crate's rustdoc JSON.
pub fn rustdoc_json_step(crate_dir: &str, crate_name: &str, ev: RustdocEvent) -> (a: RustdocAction)
    ensures
        a@ == spec_rustdoc_step(crate_dir@, crate_name@, ev@),
{
    match ev {
        RustdocEvent::Start { json_exists } => if json_exists {
            RustdocAction::UseJson(rustdoc_json_path(crate_dir, crate_name))
        } else {
            RustdocAction::CheckNightly
        },
        RustdocEvent::NightlyChecked { ok } => if ok {
            let manifest = path_join_chars(&to_chars(crate_dir), &to_chars("Cargo.toml"));
            let mut notice = to_chars("Building rustdoc JSON for ");
            append_str(&mut notice, crate_name);
            append_str(&mut notice, " (nightly)...");
            RustdocAction::Build { manifest: from_chars(&manifest), notice: from_chars(&notice) }
        } else {
            RustdocAction::Fail(
                from_chars(&to_chars("Nightly Rust required for --render-docs. Install with: rustup toolchain install nightly")),
            )
        },
        RustdocEvent::Built { ok, stderr, json_exists } => if !ok {
            let mut m = to_chars("cargo rustdoc failed:\n");
            append_str(&mut m, stderr.as_str());
            RustdocAction::Fail(from_chars(&m))
        } else if json_exists {
            RustdocAction::UseJson(rustdoc_json_path(crate_dir, crate_name))
        } else {
            let path = rustdoc_json_path(crate_dir, crate_name);
            let mut m = to_chars("Expected JSON at ");
            append_str(&mut m, path.as_str());
            append_str(&mut m, " but not found");
            RustdocAction::Fail(from_chars(&m))
        },
    }
}

} // verus!
