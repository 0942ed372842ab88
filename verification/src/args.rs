//! Command-line arguments and the crate specification `CRATE[=VERSION]`.

use vstd::prelude::*;
use crate::text::{
    find_char, find_chars_from, from_chars, is_ws, lemma_find_char_bounds, lemma_find_char_first,
    lemma_trim_of_trimmed, slice, to_chars, trim, trim_chars,
};

verus! {

/// The options of a `cargo read` invocation.
pub struct Args {
    /// Crate to download, optionally with version: CRATE or CRATE=VERSION
    pub crate_spec: String,
    /// Override the cache directory (default: ~/.cache/cargo-read/)
    pub cache_dir: Option<String>,
    /// Output JSON instead of human/LLM-readable format
    pub json: bool,
    /// Public API skeleton (source-level scan, no compilation)
    pub api: bool,
    /// Full compiled rustdoc rendered to markdown (requires nightly)
    pub render_docs: bool,
    /// Output only the extracted directory path
    pub path_only: bool,
    /// Output only the README content
    pub readme_only: bool,
    /// Force re-download even if the version is already cached
    pub force: bool,
    /// Verbose output on stderr
    pub verbose: bool,
}

/// What a `cargo read` invocation prints.
pub enum OutputMode {
    /// The extracted directory's path
    PathOnly,
    /// The README alone
    ReadmeOnly,
    /// Rendered rustdoc documentation, or the API skeleton when that fails
    RenderedDocs,
    /// The public API skeleton as text
    Api,
    /// The public API items as JSON
    ApiJson,
    /// The crate's name, version, path, README and files as JSON
    Summary,
}

/// The output an invocation asks for: `--path-only`, then `--readme-only`,
/// then `--render-docs`, then `--api` (as JSON with `--json`), else the summary.
pub open spec fn spec_output_mode(path_only: bool, readme_only: bool, render_docs: bool, api: bool, json: bool) -> OutputMode {
    if path_only {
        OutputMode::PathOnly
    } else if readme_only {
        OutputMode::ReadmeOnly
    } else if render_docs {
        OutputMode::RenderedDocs
    } else if api {
        if json {
            OutputMode::ApiJson
        } else {
            OutputMode::Api
        }
    } else {
        OutputMode::Summary
    }
}

/// What is printed follows the flags: `--path-only` wins, then
/// `--readme-only`, then `--render-docs`; the API listing needs `--api`, and
/// is JSON exactly when `--json` is also given; without any of these flags
/// the summary is printed, whatever `--json` is.
pub proof fn lemma_output_mode_flags(path_only: bool, readme_only: bool, render_docs: bool, api: bool, json: bool)
    ensures
        ({
            let m = spec_output_mode(path_only, readme_only, render_docs, api, json);
            &&& m is PathOnly <==> path_only
            &&& m is ReadmeOnly <==> !path_only && readme_only
            &&& m is RenderedDocs <==> !path_only && !readme_only && render_docs
            &&& m is Api <==> !path_only && !readme_only && !render_docs && api && !json
            &&& m is ApiJson <==> !path_only && !readme_only && !render_docs && api && json
            &&& m is Summary <==> !path_only && !readme_only && !render_docs && !api
        }),
{
}

impl Args {
    /// The output that these arguments ask for.
    pub fn output_mode(&self) -> (m: OutputMode)
        ensures
            m == spec_output_mode(self.path_only, self.readme_only, self.render_docs, self.api, self.json),
    {
        if self.path_only {
            OutputMode::PathOnly
        } else if self.readme_only {
            OutputMode::ReadmeOnly
        } else if self.render_docs {
            OutputMode::RenderedDocs
        } else if self.api {
            if self.json {
                OutputMode::ApiJson
            } else {
                OutputMode::Api
            }
        } else {
            OutputMode::Summary
        }
    }
}

/// Parsed crate specification.
pub struct CrateSpec {
    pub name: String,
    pub version_req: Option<String>,
}

/// The name and version requirement of `CRATE` or `CRATE=VERSION`: split at the
/// first `=`, both parts trimmed; an empty requirement is none. The text after
/// the first `=` is kept whole, so `serde==1.0.200` asks for `=1.0.200`.
pub open spec fn spec_parse_crate_spec(spec: Seq<char>) -> (Seq<char>, Option<Seq<char>>) {
    match find_char(spec, '=') {
        Some(k) => {
            let version = trim(spec.skip(k + 1));
            (trim(spec.take(k)), if version.len() == 0 { None } else { Some(version) })
        },
        None => (trim(spec), None),
    }
}

pub fn parse_crate_spec(spec: &str) -> (r: CrateSpec)
    ensures
        (r.name@, match r.version_req {
            Some(v) => Some(v@),
            None => None,
        }) == spec_parse_crate_spec(spec@),
{
    let s = to_chars(spec);
    let eq = vec!['='];
    assert(eq@ =~= seq!['=']);
    match find_chars_from(&s, &eq, 0) {
        Some(k) => {
            let head = slice(&s, 0, k);
            assert(head@ =~= s@.take(k as int));
            let name = trim_chars(&head);
            let rest = slice(&s, k + 1, s.len());
            assert(rest@ =~= s@.skip(k + 1));
            let version = trim_chars(&rest);
            CrateSpec {
                name: from_chars(&name),
                version_req: if version.len() == 0 {
                    None
                } else {
                    Some(from_chars(&version))
                },
            }
        },
        None => CrateSpec { name: from_chars(&trim_chars(&s)), version_req: None },
    }
}

/// The arguments with the `read` that `cargo read` passes as the first
/// argument removed.
pub open spec fn spec_strip_subcommand(raw: Seq<Seq<char>>) -> Seq<Seq<char>> {
    if raw.len() >= 2 && raw[1] == "read"@ {
        raw.remove(1)
    } else {
        raw
    }
}

pub fn strip_subcommand(raw: Vec<String>) -> (r: Vec<String>)
    ensures
        r@.map_values(|a: String| a@) == spec_strip_subcommand(raw@.map_values(|a: String| a@)),
{
    let mut raw = raw;
    let ghost before = raw@;
    if raw.len() >= 2 {
        let read = to_chars("read");
        let second = to_chars(raw[1].as_str());
        if crate::text::chars_eq(&second, &read) {
            raw.remove(1);
            assert(raw@.map_values(|a: String| a@) =~= before.map_values(|a: String| a@).remove(1));
        }
    }
    raw
}


/// `CRATE=VERSION` reads back as the crate and the requirement, and `CRATE`
/// alone as the crate with no requirement, for a crate name without `=` and
/// parts without surrounding whitespace.
pub proof fn lemma_crate_spec_roundtrip(name: Seq<char>, req: Seq<char>)
    requires
        !name.contains('='),
        name.len() > 0 ==> !is_ws(name[0]) && !is_ws(name.last()),
        req.len() > 0,
        !is_ws(req[0]) && !is_ws(req.last()),
    ensures
        spec_parse_crate_spec(name + "="@ + req) == (name, Some(req)),
        spec_parse_crate_spec(name) == (name, None::<Seq<char>>),
{
    reveal_strlit("=");
    let s = name + "="@ + req;
    let k = name.len() as int;
    assert(s[k] == '=');
    assert forall|j: int| 0 <= j < k implies s[j] != '=' by {
        assert(s[j] == name[j]);
    }
    lemma_find_char_first(s, '=', k, 0);
    assert(s.take(k) =~= name);
    assert(s.skip(k + 1) =~= req);
    lemma_trim_of_trimmed(name);
    lemma_trim_of_trimmed(req);
    assert(find_char(name, '=') is None) by {
        if let Some(j) = find_char(name, '=') {
            lemma_find_char_bounds(name, '=', 0);
        }
    }
}

} // verus!
