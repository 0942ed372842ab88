//! What the crates.io registry answers, and the choice of a version.

use vstd::prelude::*;
use crate::text::{append_str, chars_eq, from_chars, to_chars};

verus! {

/// A JSON value as the registry's answer holds it. Numbers are kept without
/// their value: nothing here reads one.
pub enum Json {
    Null,
    Bool(bool),
    Number,
    String(String),
    Array(Vec<Json>),
    Object(Vec<(String, Json)>),
}

/// The value of the first member named `key`.
pub open spec fn json_get(fields: Seq<(String, Json)>, key: Seq<char>) -> Option<Json>
    decreases fields.len(),
{
    if fields.len() == 0 {
        None
    } else if fields[0].0@ == key {
        Some(fields[0].1)
    } else {
        json_get(fields.drop_first(), key)
    }
}

fn json_get_exec<'a>(fields: &'a Vec<(String, Json)>, key: &str) -> (r: Option<&'a Json>)
    ensures
        r matches Some(v) ==> json_get(fields@, key@) == Some(*v),
        r is None ==> json_get(fields@, key@) is None,
{
    let k = to_chars(key);
    let mut i: usize = 0;
    assert(fields@.skip(0) =~= fields@);
    while i < fields.len()
        invariant
            i <= fields@.len(),
            k@ == key@,
            json_get(fields@, key@) == json_get(fields@.skip(i as int), key@),
        decreases fields.len() - i,
    {
        assert(fields@.skip(i as int).drop_first() =~= fields@.skip(i + 1));
        let name = to_chars(fields[i].0.as_str());
        if chars_eq(&name, &k) {
            return Some(&fields[i].1);
        }
        i += 1;
    }
    None
}

/// Whether `s` is a semantic version (`semver::Version::parse` accepts it).
pub uninterp spec fn semver_valid(s: Seq<char>) -> bool;

/// Version `a` orders before version `b` in `semver::Version`'s ordering.
pub uninterp spec fn semver_less(a: Seq<char>, b: Seq<char>) -> bool;

/// The parse of a version requirement: its text as `semver::VersionReq`
/// displays it, or the message of the parse error.
pub uninterp spec fn semver_req(r: Seq<char>) -> Result<Seq<char>, Seq<char>>;

/// Version `v` satisfies requirement `r` (`semver::VersionReq::matches`).
pub uninterp spec fn semver_matches(r: Seq<char>, v: Seq<char>) -> bool;

/// `semver::Version::parse(s)` succeeds; and then, `Version`'s order being a
/// strict order, the version does not order before itself.
#[verifier::external_body]
fn version_is_valid(s: &str) -> (b: bool)
    ensures
        b == semver_valid(s@),
        b ==> !semver_less(s@, s@),
{
    semver::Version::parse(s).is_ok()
}

/// Versions `a` and `b` compare alike with every version: they are the same
/// `semver::Version`, as far as the order can tell.
pub open spec fn semver_equiv(a: Seq<char>, b: Seq<char>) -> bool {
    forall|c: Seq<char>|
        #![trigger semver_less(a, c)]
        #![trigger semver_less(b, c)]
        #![trigger semver_less(c, a)]
        #![trigger semver_less(c, b)]
        semver_valid(c) ==> (semver_less(a, c) == semver_less(b, c) && semver_less(c, a) == semver_less(c, b))
}

/// `<` on `semver::Version`, on two texts that parse. `Version`'s order is
/// derived field by field from total orders, so it is a total order: when `a`
/// orders before `b`, whatever orders before `a` orders before `b`, and `a`
/// orders before whatever `b` orders before; when it does not, `b` orders
/// before `a` or the two are the same version.
#[verifier::external_body]
fn version_less(a: &str, b: &str) -> (r: bool)
    requires
        semver_valid(a@),
        semver_valid(b@),
    ensures
        r == semver_less(a@, b@),
        r ==> forall|c: Seq<char>| semver_valid(c) && #[trigger] semver_less(b@, c) ==> semver_less(a@, c),
        r ==> forall|c: Seq<char>| semver_valid(c) && #[trigger] semver_less(c, a@) ==> semver_less(c, b@),
        !r ==> semver_less(b@, a@) || semver_equiv(a@, b@),
{
    semver::Version::parse(a).unwrap() < semver::Version::parse(b).unwrap()
}

/// `semver::VersionReq::parse`, giving the requirement as it displays, or the
/// error's message. `"*"` parses to `VersionReq::STAR`.
#[verifier::external_body]
fn parse_requirement(r: &str) -> (res: Result<String, String>)
    ensures
        (match res {
            Ok(t) => Ok(t@),
            Err(e) => Err(e@),
        }) == semver_req(r@),
{
    match semver::VersionReq::parse(r) {
        Ok(q) => Ok(q.to_string()),
        Err(e) => Err(e.to_string()),
    }
}

/// `semver::VersionReq::matches`, on a requirement and a version that parse.
#[verifier::external_body]
fn requirement_matches(r: &str, v: &str) -> (b: bool)
    requires
        semver_req(r@) is Ok,
        semver_valid(v@),
    ensures
        b == semver_matches(r@, v@),
{
    semver::VersionReq::parse(r).unwrap().matches(&semver::Version::parse(v).unwrap())
}

/// The version that one entry of the `versions` array offers: its `num`, when
/// the entry is not marked `"yanked": true` and `num` is a semantic version.
pub open spec fn entry_version(entry: Json) -> Option<Seq<char>> {
    match entry {
        Json::Object(fields) => {
            let yanked = match json_get(fields@, "yanked"@) {
                Some(Json::Bool(b)) => b,
                _ => false,
            };
            if yanked {
                None
            } else {
                match json_get(fields@, "num"@) {
                    Some(Json::String(s)) => if semver_valid(s@) {
                        Some(s@)
                    } else {
                        None
                    },
                    _ => None,
                }
            }
        },
        _ => None,
    }
}

/// The versions offered, in the order of the array.
pub open spec fn offered_versions(entries: Seq<Json>) -> Seq<Seq<char>>
    decreases entries.len(),
{
    if entries.len() == 0 {
        Seq::empty()
    } else {
        let rest = offered_versions(entries.drop_last());
        match entry_version(entries.last()) {
            Some(v) => rest.push(v),
            None => rest,
        }
    }
}

/// The `versions` array of the registry's answer (JSON pointer `/versions`).
pub open spec fn versions_array(answer: Json) -> Option<Seq<Json>> {
    match answer {
        Json::Object(fields) => match json_get(fields@, "versions"@) {
            Some(Json::Array(items)) => Some(items@),
            _ => None,
        },
        _ => None,
    }
}

/// The greatest of `versions` that satisfies `req`; among equal ones, the first.
pub open spec fn best_match(versions: Seq<Seq<char>>, req: Seq<char>) -> Option<Seq<char>>
    decreases versions.len(),
{
    if versions.len() == 0 {
        None
    } else {
        let best = best_match(versions.drop_last(), req);
        let v = versions.last();
        if !semver_matches(req, v) {
            best
        } else {
            match best {
                None => Some(v),
                Some(b) => if semver_less(b, v) {
                    Some(v)
                } else {
                    Some(b)
                },
            }
        }
    }
}

/// Why no version was chosen.
pub enum ResolveError {
    /// The answer has no `/versions` array
    Malformed,
    /// No entry offers a usable version
    NoVersions,
    /// The requirement does not parse; the parser's message
    BadRequirement(String),
    /// No version satisfies the requirement, as it displays
    NoMatch(String),
    /// The answer is not JSON; the parser's message
    BadJson(String),
}

/// The plain values of a [`ResolveError`].
pub enum ResolveErrorView {
    Malformed,
    NoVersions,
    BadRequirement(Seq<char>),
    NoMatch(Seq<char>),
    BadJson(Seq<char>),
}

impl View for ResolveError {
    type V = ResolveErrorView;

    open spec fn view(&self) -> ResolveErrorView {
        match self {
            ResolveError::Malformed => ResolveErrorView::Malformed,
            ResolveError::NoVersions => ResolveErrorView::NoVersions,
            ResolveError::BadRequirement(m) => ResolveErrorView::BadRequirement(m@),
            ResolveError::NoMatch(r) => ResolveErrorView::NoMatch(r@),
            ResolveError::BadJson(m) => ResolveErrorView::BadJson(m@),
        }
    }
}

/// The version chosen from the registry's answer for a requirement (`*` when
/// there is none): the greatest offered version that satisfies it.
pub open spec fn spec_resolve_version(answer: Json, req: Option<Seq<char>>) -> Result<Seq<char>, ResolveErrorView> {
    match versions_array(answer) {
        None => Err(ResolveErrorView::Malformed),
        Some(entries) => {
            let versions = offered_versions(entries);
            if versions.len() == 0 {
                Err(ResolveErrorView::NoVersions)
            } else {
                let req_text = match req {
                    Some(r) => r,
                    None => "*"@,
                };
                match semver_req(req_text) {
                    Err(msg) => Err(ResolveErrorView::BadRequirement(msg)),
                    Ok(shown) => match best_match(versions, req_text) {
                        Some(v) => Ok(v),
                        None => Err(ResolveErrorView::NoMatch(shown)),
                    },
                }
            }
        },
    }
}

fn entry_version_exec(entry: &Json) -> (r: Option<String>)
    ensures
        (match r {
            Some(s) => Some(s@),
            None => None,
        }) == entry_version(*entry),
        r matches Some(s) ==> !semver_less(s@, s@),
{
    match entry {
        Json::Object(fields) => {
            let yanked = match json_get_exec(fields, "yanked") {
                Some(Json::Bool(b)) => *b,
                _ => false,
            };
            if yanked {
                return None;
            }
            match json_get_exec(fields, "num") {
                Some(Json::String(s)) => if version_is_valid(s.as_str()) {
                    Some(s.clone())
                } else {
                    None
                },
                _ => None,
            }
        },
        _ => None,
    }
}

/// The requirement as text: `*` when there is none.
pub open spec fn requirement_text(req: Option<Seq<char>>) -> Seq<char> {
    match req {
        Some(r) => r,
        None => "*"@,
    }
}

/// The version chosen from `answer` for `req` is at or above every offered
/// version that satisfies the requirement, and none of them orders above it;
/// `NoMatch` comes only when no offered version satisfies it.
pub open spec fn chosen_is_greatest(
    answer: Json,
    req: Option<Seq<char>>,
    r: Result<Seq<char>, ResolveErrorView>,
) -> bool {
    let req_text = requirement_text(req);
    let offered = offered_versions(versions_array(answer)->0);
    &&& r matches Ok(v) ==> forall|j: int|
        0 <= j < offered.len() && semver_matches(req_text, #[trigger] offered[j])
            ==> !semver_less(v, offered[j]) && (semver_less(offered[j], v) || semver_equiv(offered[j], v))
    &&& r matches Err(ResolveErrorView::NoMatch(_)) ==> forall|j: int|
        0 <= j < offered.len() ==> !semver_matches(req_text, #[trigger] offered[j])
}

/// Query result of crates.io for a crate: the version to download. It is the
/// greatest offered version that satisfies the requirement (the first of equal
/// ones), and `NoMatch` comes exactly when no offered version satisfies it.
pub fn resolve_version(answer: &Json, req: Option<&str>) -> (r: Result<String, ResolveError>)
    ensures
        (match r {
            Ok(v) => Ok(v@),
            Err(e) => Err(e@),
        }) == spec_resolve_version(
            *answer,
            match req {
                Some(t) => Some(t@),
                None => None,
            },
        ),
        chosen_is_greatest(
            *answer,
            match req {
                Some(t) => Some(t@),
                None => None,
            },
            match r {
                Ok(v) => Ok(v@),
                Err(e) => Err(e@),
            },
        ),
{
    let entries = match answer {
        Json::Object(fields) => match json_get_exec(fields, "versions") {
            Some(Json::Array(items)) => items,
            _ => return Err(ResolveError::Malformed),
        },
        _ => return Err(ResolveError::Malformed),
    };
    let mut versions: Vec<String> = Vec::new();
    let mut i: usize = 0;
    while i < entries.len()
        invariant
            i <= entries@.len(),
            versions@.map_values(|s: String| s@) == offered_versions(entries@.take(i as int)),
            forall|j: int| 0 <= j < versions@.len() ==> semver_valid(#[trigger] versions@[j]@),
            forall|j: int| 0 <= j < versions@.len() ==> !semver_less(#[trigger] versions@[j]@, versions@[j]@),
        decreases entries.len() - i,
    {
        assert(entries@.take(i + 1).drop_last() =~= entries@.take(i as int));
        let ghost before = versions@;
        match entry_version_exec(&entries[i]) {
            Some(v) => {
                versions.push(v);
                assert(versions@.map_values(|s: String| s@) =~= before.map_values(|s: String| s@).push(versions@.last()@));
            },
            None => {},
        }
        i += 1;
    }
    assert(entries@.take(entries.len() as int) =~= entries@);
    if versions.len() == 0 {
        return Err(ResolveError::NoVersions);
    }
    let req_text = match req {
        Some(t) => t,
        None => "*",
    };
    let shown = match parse_requirement(req_text) {
        Ok(t) => t,
        Err(msg) => return Err(ResolveError::BadRequirement(msg)),
    };
    let ghost vs = versions@.map_values(|s: String| s@);
    let mut best: Option<usize> = None;
    let mut k: usize = 0;
    while k < versions.len()
        invariant
            k <= versions@.len(),
            vs == versions@.map_values(|s: String| s@),
            semver_req(req_text@) is Ok,
            forall|j: int| 0 <= j < versions@.len() ==> semver_valid(#[trigger] versions@[j]@),
            forall|j: int| 0 <= j < vs.len() ==> semver_valid(#[trigger] vs[j]) && !semver_less(vs[j], vs[j]),
            match best {
                Some(b) => b < k && best_match(vs.take(k as int), req_text@) == Some(vs[b as int])
                    && forall|j: int| 0 <= j < k && semver_matches(req_text@, #[trigger] vs[j])
                        ==> !semver_less(vs[b as int], vs[j])
                    && forall|j: int| 0 <= j < k && semver_matches(req_text@, #[trigger] vs[j])
                        ==> semver_less(vs[j], vs[b as int]) || semver_equiv(vs[j], vs[b as int]),
                None => best_match(vs.take(k as int), req_text@) is None
                    && forall|j: int| 0 <= j < k ==> !semver_matches(req_text@, #[trigger] vs[j]),
            },
        decreases versions.len() - k,
    {
        assert(vs.take(k + 1).drop_last() =~= vs.take(k as int));
        assert(vs.take(k + 1).last() == versions@[k as int]@);
        if requirement_matches(req_text, versions[k].as_str()) {
            assert(semver_equiv(vs[k as int], vs[k as int]));
            match best {
                None => {
                    best = Some(k);
                },
                Some(b) => {
                    let ghost x = vs[b as int];
                    let ghost y = vs[k as int];
                    assert(x == versions@[b as int]@ && y == versions@[k as int]@);
                    assert(semver_valid(x) && semver_valid(y));
                    if version_less(versions[b].as_str(), versions[k].as_str()) {
                        assert forall|j: int| 0 <= j < k && semver_matches(req_text@, #[trigger] vs[j])
                            implies semver_less(vs[j], y) || semver_equiv(vs[j], y) by {
                            assert(semver_valid(vs[j]));
                            if semver_less(vs[j], x) {
                            } else {
                                assert(semver_equiv(vs[j], x));
                                assert(semver_less(vs[j], y) == semver_less(x, y));
                            }
                        }
                        best = Some(k);
                    } else {
                        proof {
                        if !semver_less(y, x) {
                            assert(semver_equiv(x, y));
                            assert forall|c: Seq<char>| semver_valid(c) implies (semver_less(y, c)
                                == semver_less(x, c) && semver_less(c, y) == semver_less(c, x)) by {
                                assert(semver_less(x, c) == semver_less(y, c));
                                assert(semver_less(c, x) == semver_less(c, y));
                            }
                            assert(semver_equiv(y, x));
                        }
                        }
                    }
                },
            }
        }
        k += 1;
    }
    assert(vs.take(versions.len() as int) =~= vs);
    match best {
        Some(b) => Ok(versions[b].clone()),
        None => Err(ResolveError::NoMatch(shown)),
    }
}


proof fn lemma_best_match_offered(versions: Seq<Seq<char>>, req: Seq<char>)
    ensures
        best_match(versions, req) matches Some(v) ==> versions.contains(v) && semver_matches(req, v),
    decreases versions.len(),
{
    if versions.len() > 0 {
        lemma_best_match_offered(versions.drop_last(), req);
        if let Some(b) = best_match(versions.drop_last(), req) {
            let k = choose|k: int| 0 <= k < versions.drop_last().len() && versions.drop_last()[k] == b;
            assert(versions[k] == b);
        }
        assert(versions[versions.len() - 1] == versions.last());
    }
}

proof fn lemma_offered_versions_valid(entries: Seq<Json>)
    ensures
        forall|j: int| 0 <= j < offered_versions(entries).len() ==> semver_valid(#[trigger] offered_versions(entries)[j]),
    decreases entries.len(),
{
    if entries.len() > 0 {
        lemma_offered_versions_valid(entries.drop_last());
        let rest = offered_versions(entries.drop_last());
        let all = offered_versions(entries);
        assert forall|j: int| 0 <= j < all.len() implies semver_valid(#[trigger] all[j]) by {
            if j < rest.len() {
                assert(all[j] == rest[j]);
            }
        }
    }
}

/// The version chosen is one that the answer offers (not yanked, a valid
/// semantic version) and it satisfies the requirement.
pub proof fn lemma_resolved_version_offered(answer: Json, req: Option<Seq<char>>)
    ensures
        spec_resolve_version(answer, req) matches Ok(v) ==> {
            let req_text = requirement_text(req);
            &&& offered_versions(versions_array(answer)->0).contains(v)
            &&& semver_valid(v)
            &&& semver_matches(req_text, v)
        },
{
    if let Some(entries) = versions_array(answer) {
        let req_text = match req {
            Some(r) => r,
            None => "*"@,
        };
        lemma_best_match_offered(offered_versions(entries), req_text);
        lemma_offered_versions_valid(entries);
    }
}

/// What `serde_json` makes of a text as a `serde_json::Value`, read as a
/// [`Json`]: object members come in the order of their keys (its map is
/// ordered by key), a later duplicate key replacing an earlier one; or the
/// parser's error message.
pub uninterp spec fn json_parse(text: Seq<char>) -> Result<Json, Seq<char>>;

#[verifier::external_type_specification]
#[verifier::external_body]
pub struct ExJsonValue(serde_json::Value);

/// A `serde_json::Value` as a [`Json`], variant by variant.
#[verifier::external_body]
fn json_of_value(v: &serde_json::Value) -> Json {
    match v {
        serde_json::Value::Null => Json::Null,
        serde_json::Value::Bool(b) => Json::Bool(*b),
        serde_json::Value::Number(_) => Json::Number,
        serde_json::Value::String(s) => Json::String(s.clone()),
        serde_json::Value::Array(a) => Json::Array(a.iter().map(json_of_value).collect()),
        serde_json::Value::Object(m) => Json::Object(m.iter().map(|(k, x)| (k.clone(), json_of_value(x))).collect()),
    }
}

/// `serde_json::from_str::<serde_json::Value>`, converted to a [`Json`], or
/// the error's message.
#[verifier::external_body]
fn parse_json(text: &str) -> (r: Result<Json, String>)
    ensures
        (match r {
            Ok(j) => Ok(j),
            Err(e) => Err(e@),
        }) == json_parse(text@),
{
    match serde_json::from_str::<serde_json::Value>(text) {
        Ok(v) => Ok(json_of_value(&v)),
        Err(e) => Err(e.to_string()),
    }
}

/// The version to download, from the text of the registry's answer: a text
/// that does not parse as JSON gives `BadJson` with the parser's message;
/// otherwise the choice of [`resolve_version`].
pub fn resolve_version_from_text(body: &str, req: Option<&str>) -> (r: Result<String, ResolveError>)
    ensures
        match json_parse(body@) {
            Err(m) => r matches Err(ResolveError::BadJson(x)) && x@ == m,
            Ok(answer) => {
                let q = match req {
                    Some(t) => Some(t@),
                    None => None,
                };
                let rv = match r {
                    Ok(v) => Ok(v@),
                    Err(e) => Err(e@),
                };
                &&& rv == spec_resolve_version(answer, q)
                &&& chosen_is_greatest(answer, q, rv)
            },
        },
{
    match parse_json(body) {
        Ok(answer) => resolve_version(&answer, req),
        Err(m) => Err(ResolveError::BadJson(m)),
    }
}

impl ResolveError {
    /// The message that explains the error for crate `crate_name`.
    pub fn message(&self, crate_name: &str) -> (r: String)
        ensures
            r@ == (match self@ {
                ResolveErrorView::Malformed => "malformed response: missing /versions array"@,
                ResolveErrorView::NoVersions => "no versions found for crate `"@ + crate_name@ + "`"@,
                ResolveErrorView::BadRequirement(m) => m,
                ResolveErrorView::BadJson(m) => m,
                ResolveErrorView::NoMatch(r) => "no version of `"@ + crate_name@
                    + "` matches requirement `"@ + r + "`"@,
            }),
    {
        match self {
            ResolveError::Malformed => from_chars(&to_chars("malformed response: missing /versions array")),
            ResolveError::NoVersions => {
                let mut out = to_chars("no versions found for crate `");
                append_str(&mut out, crate_name);
                append_str(&mut out, "`");
                from_chars(&out)
            },
            ResolveError::BadRequirement(m) => m.clone(),
            ResolveError::BadJson(m) => m.clone(),
            ResolveError::NoMatch(r) => {
                let mut out = to_chars("no version of `");
                append_str(&mut out, crate_name);
                append_str(&mut out, "` matches requirement `");
                append_str(&mut out, r.as_str());
                append_str(&mut out, "`");
                from_chars(&out)
            },
        }
    }
}

/// The crates.io API root.
pub open spec fn api_root() -> Seq<char> {
    "https://crates.io/api/v1/crates"@
}

/// The address that lists a crate's versions.
pub fn versions_url(name: &str) -> (r: String)
    ensures
        r@ == api_root() + "/"@ + name@ + "/versions"@,
{
    let mut out = to_chars("https://crates.io/api/v1/crates");
    append_str(&mut out, "/");
    append_str(&mut out, name);
    append_str(&mut out, "/versions");
    from_chars(&out)
}

/// The address of a crate version's archive.
pub fn download_url(name: &str, version: &str) -> (r: String)
    ensures
        r@ == api_root() + "/"@ + name@ + "/"@ + version@ + "/download"@,
{
    let mut out = to_chars("https://crates.io/api/v1/crates");
    append_str(&mut out, "/");
    append_str(&mut out, name);
    append_str(&mut out, "/");
    append_str(&mut out, version);
    append_str(&mut out, "/download");
    from_chars(&out)
}

/// What gzip decoding makes of some bytes: the decoded bytes of the first gzip
/// member, or the decoder's error message.
pub uninterp spec fn gunzip(data: Seq<u8>) -> Result<Seq<u8>, Seq<char>>;

/// `flate2::read::GzDecoder` read to its end.
#[verifier::external_body]
fn gunzip_bytes(data: &[u8]) -> (r: Result<Vec<u8>, String>)
    ensures
        (match r {
            Ok(b) => Ok(b@),
            Err(e) => Err(e@),
        }) == gunzip(data@),
{
    let mut out = Vec::new();
    match std::io::Read::read_to_end(&mut flate2::read::GzDecoder::new(data), &mut out) {
        Ok(_) => Ok(out),
        Err(e) => Err(e.to_string()),
    }
}

/// The tar archive inside a downloaded `.crate` file (a gzipped tarball).
pub fn unpack_crate_archive(data: &[u8]) -> (r: Result<Vec<u8>, String>)
    ensures
        (match r {
            Ok(b) => Ok(b@),
            Err(e) => Err(e@),
        }) == gunzip(data@),
{
    gunzip_bytes(data)
}

} // verus!
