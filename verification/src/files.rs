//! Where a crate is kept, which README it shows, and which files it lists.

use vstd::prelude::*;
use vstd::seq_lib::{to_multiset_build, to_multiset_insert};
use crate::paths::{extension, extension_chars, path_join, path_join_chars};
use crate::text::{
    append, append_str, chars_eq, from_chars, has_prefix, lines, slice, split_lines,
    starts_with, strip_trailing, strip_trailing_chars, to_chars, trim, trim_chars,
};

verus! {

// ---------------------------------------------------------------------------
// Cache directory

/// The name of the cache directory under the platform's cache location.
pub open spec fn cache_leaf() -> Seq<char> {
    "cargo-read"@
}

/// `base` joined with `leaf` by a Windows `\`, unless `base` is empty or
/// already ends with a separator.
pub open spec fn windows_join(base: Seq<char>, leaf: Seq<char>) -> Seq<char> {
    if base.len() == 0 || base.last() == '\\' || base.last() == '/' {
        base + leaf
    } else {
        base + seq!['\\'] + leaf
    }
}

/// The cache directory: `$XDG_CACHE_HOME/cargo-read`, else (on Windows)
/// `%LOCALAPPDATA%\cargo-read`, else `$HOME/.cache/cargo-read`, else
/// `/tmp/cargo-read`.
pub open spec fn spec_cache_root(
    xdg: Option<Seq<char>>,
    local_app_data: Option<Seq<char>>,
    home: Option<Seq<char>>,
) -> Seq<char> {
    match xdg {
        Some(d) => path_join(d, cache_leaf()),
        None => match local_app_data {
            Some(l) => windows_join(l, cache_leaf()),
            None => match home {
                Some(h) => path_join(path_join(h, ".cache"@), cache_leaf()),
                None => path_join("/tmp"@, cache_leaf()),
            },
        },
    }
}

fn windows_join_chars(base: &Vec<char>, leaf: &Vec<char>) -> (r: Vec<char>)
    ensures
        r@ == windows_join(base@, leaf@),
{
    let mut r = base.clone();
    if !(base.len() == 0 || base[base.len() - 1] == '\\' || base[base.len() - 1] == '/') {
        r.push('\\');
    }
    append(&mut r, leaf);
    r
}

/// The default cache directory from the values of `XDG_CACHE_HOME`,
/// `LOCALAPPDATA` (read on Windows only) and `HOME` (`None` when a variable
/// is unset or not Unicode).
pub fn default_cache_dir(xdg: Option<String>, local_app_data: Option<String>, home: Option<String>) -> (r: String)
    ensures
        r@ == spec_cache_root(
            match xdg {
                Some(d) => Some(d@),
                None => None,
            },
            match local_app_data {
                Some(l) => Some(l@),
                None => None,
            },
            match home {
                Some(h) => Some(h@),
                None => None,
            },
        ),
{
    let leaf = to_chars("cargo-read");
    let out = match xdg {
        Some(d) => path_join_chars(&to_chars(d.as_str()), &leaf),
        None => match local_app_data {
            Some(l) => windows_join_chars(&to_chars(l.as_str()), &leaf),
            None => match home {
                Some(h) => {
                    let hv = to_chars(h.as_str());
                    let cache = to_chars(".cache");
                    path_join_chars(&path_join_chars(&hv, &cache), &leaf)
                },
                None => path_join_chars(&to_chars("/tmp"), &leaf),
            },
        },
    };
    from_chars(&out)
}

/// The directory that a crate version unpacks to: `{name}-{version}` under the cache.
pub fn crate_dir(cache_root: &str, name: &str, version: &str) -> (r: String)
    ensures
        r@ == path_join(cache_root@, name@ + "-"@ + version@),
{
    let root = to_chars(cache_root);
    let mut leaf = to_chars(name);
    append_str(&mut leaf, "-");
    append_str(&mut leaf, version);
    from_chars(&path_join_chars(&root, &leaf))
}

// ---------------------------------------------------------------------------
// README

/// `s` with every leading `c` removed.
pub open spec fn strip_leading(s: Seq<char>, c: char) -> Seq<char>
    decreases s.len(),
{
    if s.len() > 0 && s[0] == c {
        strip_leading(s.drop_first(), c)
    } else {
        s
    }
}

fn strip_leading_chars(s: &Vec<char>, c: char) -> (r: Vec<char>)
    ensures
        r@ == strip_leading(s@, c),
{
    let mut i: usize = 0;
    assert(s@.skip(0) =~= s@);
    while i < s.len() && s[i] == c
        invariant
            i <= s.len(),
            strip_leading(s@, c) == strip_leading(s@.skip(i as int), c),
        decreases s.len() - i,
    {
        assert(s@.skip(i as int).drop_first() =~= s@.skip(i + 1));
        i += 1;
    }
    assert(s@.skip(i as int) =~= s@.subrange(i as int, s.len() as int));
    slice(s, i, s.len())
}

/// `s` with `c` trimmed from both ends (`str::trim_matches` with a character).
pub open spec fn trim_matches(s: Seq<char>, c: char) -> Seq<char> {
    strip_trailing(strip_leading(s, c), c)
}

/// The file that a `readme = "..."` line of a `Cargo.toml` names, quotes removed.
pub open spec fn readme_field(line: Seq<char>) -> Option<Seq<char>> {
    let line = trim(line);
    if !starts_with(line, "readme"@) {
        None
    } else {
        let rest = trim(line.skip("readme"@.len() as int));
        if !starts_with(rest, "="@) {
            None
        } else {
            let value = trim_matches(trim_matches(trim(rest.skip(1)), '"'), '\'');
            if value.len() == 0 {
                None
            } else {
                Some(value)
            }
        }
    }
}

/// The files that the `readme` lines of a `Cargo.toml` name, in order.
pub open spec fn readme_fields(lines: Seq<Seq<char>>) -> Seq<Seq<char>>
    decreases lines.len(),
{
    if lines.len() == 0 {
        Seq::empty()
    } else {
        let rest = readme_fields(lines.drop_last());
        match readme_field(lines.last()) {
            Some(f) => rest.push(f),
            None => rest,
        }
    }
}

/// The common README file names, in order of preference.
pub open spec fn readme_names() -> Seq<Seq<char>> {
    seq![
        "README.md"@,
        "readme.md"@,
        "Readme.md"@,
        "README"@,
        "readme"@,
        "README.txt"@,
        "readme.txt"@,
        "README.rst"@,
        "readme.rst"@,
    ]
}

/// The files to try as the README, in order, relative to the crate directory:
/// those that `Cargo.toml` names, then the common names. The first that reads is the README.
pub open spec fn spec_readme_candidates(cargo_toml: Option<Seq<char>>) -> Seq<Seq<char>> {
    let named = match cargo_toml {
        Some(t) => readme_fields(lines(t)),
        None => Seq::empty(),
    };
    named + readme_names()
}

fn readme_field_chars(line: &Vec<char>) -> (r: Option<Vec<char>>)
    ensures
        r matches Some(v) ==> readme_field(line@) == Some(v@),
        r is None ==> readme_field(line@) is None,
{
    let line = trim_chars(line);
    if !has_prefix(&line, "readme") {
        return None;
    }
    proof {
        reveal_strlit("readme");
    }
    let after = slice(&line, 6, line.len());
    assert(after@ =~= line@.skip("readme"@.len() as int));
    let rest = trim_chars(&after);
    if !has_prefix(&rest, "=") {
        return None;
    }
    proof {
        reveal_strlit("=");
    }
    let v = slice(&rest, 1, rest.len());
    assert(v@ =~= rest@.skip(1));
    let v = trim_chars(&v);
    let v = strip_trailing_chars(&strip_leading_chars(&v, '"'), '"');
    let v = strip_trailing_chars(&strip_leading_chars(&v, '\''), '\'');
    if v.len() == 0 {
        None
    } else {
        Some(v)
    }
}

fn push_str(out: &mut Vec<String>, s: &str)
    ensures
        final(out)@.map_values(|x: String| x@) == old(out)@.map_values(|x: String| x@).push(s@),
{
    let ghost before = out@;
    out.push(from_chars(&to_chars(s)));
    assert(out@.map_values(|x: String| x@) =~= before.map_values(|x: String| x@).push(s@));
}

/// The README candidates for a crate whose `Cargo.toml` reads `cargo_toml`
/// (`None` when it could not be read).
pub fn readme_candidates(cargo_toml: Option<&str>) -> (r: Vec<String>)
    ensures
        r@.map_values(|x: String| x@) == spec_readme_candidates(
            match cargo_toml {
                Some(t) => Some(t@),
                None => None,
            },
        ),
{
    let mut out: Vec<String> = Vec::new();
    let ghost mut named: Seq<Seq<char>> = Seq::empty();
    match cargo_toml {
        Some(t) => {
            let text = to_chars(t);
            let ls = split_lines(&text);
            let ghost lv = lines(text@);
            let mut i: usize = 0;
            while i < ls.len()
                invariant
                    i <= ls@.len(),
                    ls@.len() == lv.len(),
                    forall|j: int| 0 <= j < ls@.len() ==> #[trigger] ls@[j]@ == lv[j],
                    out@.map_values(|x: String| x@) == readme_fields(lv.take(i as int)),
                decreases ls.len() - i,
            {
                assert(lv.take(i + 1).drop_last() =~= lv.take(i as int));
                assert(lv.take(i + 1).last() == ls@[i as int]@);
                let ghost before = out@;
                if let Some(f) = readme_field_chars(&ls[i]) {
                    out.push(from_chars(&f));
                    assert(out@.map_values(|x: String| x@) =~= before.map_values(|x: String| x@).push(f@));
                }
                i += 1;
            }
            assert(lv.take(ls.len() as int) =~= lv);
            proof {
                named = readme_fields(lv);
            }
        },
        None => {},
    }
    assert(out@.map_values(|x: String| x@) == named);
    push_str(&mut out, "README.md");
    push_str(&mut out, "readme.md");
    push_str(&mut out, "Readme.md");
    push_str(&mut out, "README");
    push_str(&mut out, "readme");
    push_str(&mut out, "README.txt");
    push_str(&mut out, "readme.txt");
    push_str(&mut out, "README.rst");
    push_str(&mut out, "readme.rst");
    assert(out@.map_values(|x: String| x@) =~= named + readme_names());
    out
}


// ---------------------------------------------------------------------------
// File listing

/// `a` orders before `b` character by character, a proper prefix first (the
/// order of `String`).
pub open spec fn lex_less(a: Seq<char>, b: Seq<char>) -> bool
    decreases a.len(),
{
    if a.len() == 0 {
        b.len() > 0
    } else if b.len() == 0 {
        false
    } else if a[0] != b[0] {
        a[0] < b[0]
    } else {
        lex_less(a.drop_first(), b.drop_first())
    }
}

/// Every element orders no later than every element after it.
pub open spec fn sorted(s: Seq<Seq<char>>) -> bool {
    forall|i: int, j: int| 0 <= i < j < s.len() ==> !lex_less(#[trigger] s[j], #[trigger] s[i])
}

/// Any two texts are equal or one orders before the other, never both ways.
pub proof fn lemma_lex_total(a: Seq<char>, b: Seq<char>)
    ensures
        lex_less(a, b) || lex_less(b, a) || a == b,
        !(lex_less(a, b) && lex_less(b, a)),
    decreases a.len(),
{
    if a.len() > 0 && b.len() > 0 && a[0] == b[0] {
        lemma_lex_total(a.drop_first(), b.drop_first());
        if a.drop_first() == b.drop_first() {
            assert(a =~= seq![a[0]] + a.drop_first());
            assert(b =~= seq![b[0]] + b.drop_first());
        }
    } else if a.len() == 0 && b.len() == 0 {
        assert(a =~= b);
    }

}

/// The text order is transitive.
pub proof fn lemma_lex_trans(a: Seq<char>, b: Seq<char>, c: Seq<char>)
    requires
        lex_less(a, b),
        lex_less(b, c),
    ensures
        lex_less(a, c),
    decreases a.len(),
{
    if a.len() > 0 && b.len() > 0 && c.len() > 0 && a[0] == b[0] && b[0] == c[0] {
        lemma_lex_trans(a.drop_first(), b.drop_first(), c.drop_first());
    }
}

proof fn lemma_lex_irreflexive(a: Seq<char>)
    ensures
        !lex_less(a, a),
    decreases a.len(),
{
    if a.len() > 0 {
        lemma_lex_irreflexive(a.drop_first());
    }
}

/// Whether `a` orders before `b`.
pub fn chars_less(a: &Vec<char>, b: &Vec<char>) -> (r: bool)
    ensures
        r == lex_less(a@, b@),
{
    let mut i: usize = 0;
    assert(a@.skip(0) =~= a@);
    assert(b@.skip(0) =~= b@);
    while i < a.len() && i < b.len() && a[i] == b[i]
        invariant
            i <= a.len(),
            i <= b.len(),
            lex_less(a@, b@) == lex_less(a@.skip(i as int), b@.skip(i as int)),
        decreases a.len() - i,
    {
        assert(a@.skip(i as int).drop_first() =~= a@.skip(i + 1));
        assert(b@.skip(i as int).drop_first() =~= b@.skip(i + 1));
        i += 1;
    }
    if i == a.len() {
        i < b.len()
    } else if i == b.len() {
        false
    } else {
        assert(a@.skip(i as int)[0] == a@[i as int]);
        assert(b@.skip(i as int)[0] == b@[i as int]);
        a[i] < b[i]
    }
}

/// A file is listed when its extension is `rs` or `md`.
pub open spec fn is_listed(path: Seq<char>) -> bool {
    extension(path) == Some("rs"@) || extension(path) == Some("md"@)
}

/// The listed paths, in the order given, with `\` written as `/`.
pub open spec fn listed_paths(paths: Seq<Seq<char>>) -> Seq<Seq<char>>
    decreases paths.len(),
{
    if paths.len() == 0 {
        Seq::empty()
    } else {
        let rest = listed_paths(paths.drop_last());
        if is_listed(paths.last()) {
            rest.push(crate::api_scan::slashes(paths.last()))
        } else {
            rest
        }
    }
}

fn is_listed_chars(p: &Vec<char>) -> (b: bool)
    ensures
        b == is_listed(p@),
{
    match extension_chars(p) {
        Some(e) => {
            let rs = to_chars("rs");
            let md = to_chars("md");
            chars_eq(&e, &rs) || chars_eq(&e, &md)
        },
        None => false,
    }
}

fn slashes_vec(s: &Vec<char>) -> (r: Vec<char>)
    ensures
        r@ == crate::api_scan::slashes(s@),
{
    let mut r: Vec<char> = Vec::new();
    let mut i: usize = 0;
    while i < s.len()
        invariant
            i <= s.len(),
            r@ == crate::api_scan::slashes(s@.take(i as int)),
        decreases s.len() - i,
    {
        let c = s[i];
        r.push(if c == '\\' { '/' } else { c });
        i += 1;
        assert(r@ =~= crate::api_scan::slashes(s@.take(i as int)));
    }
    assert(s@.take(s.len() as int) =~= s@);
    r
}

/// Inserts `x` into sorted `s` after every element that does not order after it.
fn insert_sorted(s: &mut Vec<Vec<char>>, x: Vec<char>)
    requires
        sorted(old(s)@.map_values(|v: Vec<char>| v@)),
    ensures
        sorted(final(s)@.map_values(|v: Vec<char>| v@)),
        final(s)@.map_values(|v: Vec<char>| v@).to_multiset() == old(s)@.map_values(
            |v: Vec<char>| v@,
        ).to_multiset().insert(x@),
{
    broadcast use to_multiset_insert;

    let ghost sv = s@.map_values(|v: Vec<char>| v@);
    let mut p: usize = 0;
    while p < s.len() && !chars_less(&x, &s[p])
        invariant
            p <= s@.len(),
            sv == s@.map_values(|v: Vec<char>| v@),
            forall|j: int| 0 <= j < p ==> !lex_less(x@, #[trigger] sv[j]),
        decreases s.len() - p,
    {
        p += 1;
    }
    let ghost xv = x@;
    s.insert(p, x);
    let ghost nv = s@.map_values(|v: Vec<char>| v@);
    assert(nv =~= sv.insert(p as int, xv));
    assert forall|i: int, j: int| 0 <= i < j < nv.len() implies !lex_less(#[trigger] nv[j], #[trigger] nv[i]) by {
        if j < p {
            assert(nv[i] == sv[i] && nv[j] == sv[j]);
        } else if j == p {
            assert(nv[i] == sv[i]);
            lemma_lex_total(xv, sv[i]);
        } else if i > p {
            assert(nv[i] == sv[i - 1] && nv[j] == sv[j - 1]);
        } else if i == p {
            // x orders before sv[p] <= sv[j - 1]
            assert(nv[j] == sv[j - 1]);
            assert(lex_less(xv, sv[p as int]));
            if lex_less(sv[j - 1], xv) {
                if j - 1 > p {
                    lemma_lex_total(sv[p as int], sv[j - 1]);
                    if lex_less(sv[p as int], sv[j - 1]) {
                        lemma_lex_trans(sv[p as int], sv[j - 1], xv);
                    }
                    lemma_lex_total(sv[p as int], xv);
                } else {
                    lemma_lex_total(sv[p as int], xv);
                }
            }
        } else {
            // i < p < j
            assert(nv[i] == sv[i] && nv[j] == sv[j - 1]);
            lemma_lex_total(xv, sv[i]);
            if lex_less(sv[j - 1], sv[i]) {
            } else {
                lemma_lex_total(sv[j - 1], sv[i]);
            }
        }
    }
}

/// The listed files, sorted.
pub open spec fn spec_list_files_ok(paths: Seq<Seq<char>>, r: Seq<Seq<char>>) -> bool {
    &&& sorted(r)
    &&& r.to_multiset() == listed_paths(paths).to_multiset()
}

/// The `.rs` and `.md` files among `paths` (relative to the crate directory),
/// with `/` separators, sorted.
pub fn list_files(paths: &Vec<String>) -> (r: Vec<String>)
    ensures
        spec_list_files_ok(paths@.map_values(|p: String| p@), r@.map_values(|p: String| p@)),
{
    broadcast use to_multiset_build;

    let ghost pv = paths@.map_values(|p: String| p@);
    let mut acc: Vec<Vec<char>> = Vec::new();
    let mut i: usize = 0;
    assert(acc@.map_values(|v: Vec<char>| v@) =~= listed_paths(pv.take(0)));
    while i < paths.len()
        invariant
            i <= paths@.len(),
            pv == paths@.map_values(|p: String| p@),
            sorted(acc@.map_values(|v: Vec<char>| v@)),
            acc@.map_values(|v: Vec<char>| v@).to_multiset() == listed_paths(pv.take(i as int)).to_multiset(),
        decreases paths.len() - i,
    {
        assert(pv.take(i + 1).drop_last() =~= pv.take(i as int));
        assert(pv.take(i + 1).last() == paths@[i as int]@);
        let p = to_chars(paths[i].as_str());
        if is_listed_chars(&p) {
            let q = slashes_vec(&p);
            let ghost qv = q@;
            insert_sorted(&mut acc, q);
            assert(listed_paths(pv.take(i + 1)) == listed_paths(pv.take(i as int)).push(qv));
            proof {
                to_multiset_build(listed_paths(pv.take(i as int)), qv);
            }
        } else {
            assert(listed_paths(pv.take(i + 1)) == listed_paths(pv.take(i as int)));
        }
        i += 1;
    }
    assert(pv.take(paths.len() as int) =~= pv);
    let mut out: Vec<String> = Vec::new();
    let mut k: usize = 0;
    while k < acc.len()
        invariant
            k <= acc@.len(),
            out@.len() == k,
            out@.map_values(|p: String| p@) == acc@.map_values(|v: Vec<char>| v@).take(k as int),
        decreases acc.len() - k,
    {
        let ghost before = out@;
        out.push(from_chars(&acc[k]));
        assert(out@[k as int]@ == acc@[k as int]@);
        assert(out@.map_values(|p: String| p@) =~= acc@.map_values(|v: Vec<char>| v@).take(k + 1));
        k += 1;
    }
    assert(acc@.map_values(|v: Vec<char>| v@).take(acc.len() as int) =~= acc@.map_values(|v: Vec<char>| v@));
    out
}

proof fn lemma_listed_paths_contains(paths: Seq<Seq<char>>, x: Seq<char>)
    ensures
        listed_paths(paths).contains(x) <==> exists|i: int|
            0 <= i < paths.len() && is_listed(paths[i]) && #[trigger] crate::api_scan::slashes(paths[i]) == x,
    decreases paths.len(),
{
    if paths.len() > 0 {
        let init = paths.drop_last();
        lemma_listed_paths_contains(init, x);
        let rest = listed_paths(init);
        if listed_paths(paths).contains(x) {
            if is_listed(paths.last()) && crate::api_scan::slashes(paths.last()) == x {
                assert(crate::api_scan::slashes(paths[paths.len() - 1]) == x);
            } else {
                let k = choose|k: int| 0 <= k < listed_paths(paths).len() && listed_paths(paths)[k] == x;
                if is_listed(paths.last()) {
                    assert(listed_paths(paths) == rest.push(crate::api_scan::slashes(paths.last())));
                    assert(k < rest.len());
                    assert(rest[k] == x);
                }
                assert(rest.contains(x));
                let i = choose|i: int| 0 <= i < init.len() && is_listed(init[i]) && #[trigger] crate::api_scan::slashes(init[i]) == x;
                assert(paths[i] == init[i]);
            }
        }
        if exists|i: int| 0 <= i < paths.len() && is_listed(paths[i]) && #[trigger] crate::api_scan::slashes(paths[i]) == x {
            let i = choose|i: int| 0 <= i < paths.len() && is_listed(paths[i]) && #[trigger] crate::api_scan::slashes(paths[i]) == x;
            if i == paths.len() - 1 {
                let l = listed_paths(paths);
                assert(l[l.len() - 1] == x);
            } else {
                assert(init[i] == paths[i]);
                assert(rest.contains(x));
                let k = choose|k: int| 0 <= k < rest.len() && rest[k] == x;
                if is_listed(paths.last()) {
                    assert(listed_paths(paths)[k] == x);
                } else {
                    assert(listed_paths(paths)[k] == x);
                }
            }
        }
    }
}

/// `x` is, with `/` separators, one of `paths` whose extension is `rs` or `md`.
pub open spec fn source_in(paths: Seq<Seq<char>>, x: Seq<char>) -> bool {
    exists|i: int|
        0 <= i < paths.len() && (extension(paths[i]) == Some("rs"@) || extension(paths[i]) == Some("md"@))
            && #[trigger] crate::api_scan::slashes(paths[i]) == x
}

proof fn lemma_list_entry_source(paths: Seq<Seq<char>>, r: Seq<Seq<char>>, j: int) -> (i: int)
    requires
        spec_list_files_ok(paths, r),
        0 <= j < r.len(),
    ensures
        0 <= i < paths.len(),
        is_listed(paths[i]),
        r[j] == crate::api_scan::slashes(paths[i]),
{
    broadcast use vstd::seq_lib::group_to_multiset_ensures;

    let l = listed_paths(paths);
    let x = r[j];
    assert(r.contains(x));
    assert(r.to_multiset().count(x) > 0);
    assert(l.to_multiset().count(x) > 0);
    assert(l.contains(x));
    lemma_listed_paths_contains(paths, x);
    choose|i: int| 0 <= i < paths.len() && is_listed(paths[i]) && #[trigger] crate::api_scan::slashes(paths[i]) == x
}

/// The listing holds, with `/` separators, exactly the paths whose extension
/// is `rs` or `md`, at any depth: each such path is listed, and every listed
/// entry is such a path.
pub proof fn lemma_list_files_sources(paths: Seq<Seq<char>>, r: Seq<Seq<char>>)
    requires
        spec_list_files_ok(paths, r),
    ensures
        forall|i: int|
            0 <= i < paths.len() && (extension(paths[i]) == Some("rs"@) || extension(paths[i]) == Some("md"@))
                ==> r.contains(#[trigger] crate::api_scan::slashes(paths[i])),
        forall|j: int| 0 <= j < r.len() ==> #[trigger] source_in(paths, r[j]),
{
    broadcast use vstd::seq_lib::group_to_multiset_ensures;

    let l = listed_paths(paths);
    assert forall|i: int|
        0 <= i < paths.len() && (extension(paths[i]) == Some("rs"@) || extension(paths[i]) == Some("md"@))
            implies r.contains(#[trigger] crate::api_scan::slashes(paths[i])) by {
        let x = crate::api_scan::slashes(paths[i]);
        lemma_listed_paths_contains(paths, x);
        assert(l.contains(x));
        assert(l.to_multiset().count(x) > 0);
        assert(r.to_multiset().count(x) > 0);
    }
    assert forall|j: int| 0 <= j < r.len() implies #[trigger] source_in(paths, r[j]) by {
        let i = lemma_list_entry_source(paths, r, j);
        assert(r[j] == crate::api_scan::slashes(paths[i]));
    }
}

/// A source file: its extension is `rs` or `md`.
pub open spec fn is_source(p: Seq<char>) -> bool {
    extension(p) == Some("rs"@) || extension(p) == Some("md"@)
}

proof fn lemma_listed_paths_len(paths: Seq<Seq<char>>)
    ensures
        listed_paths(paths).len() == paths.filter(|p: Seq<char>| is_source(p)).len(),
    decreases paths.len(),
{
    reveal(Seq::filter);
    if paths.len() > 0 {
        lemma_listed_paths_len(paths.drop_last());
    }
}

/// The listing has one entry for each source path given (duplicates
/// included), so no source file is dropped or listed twice.
pub proof fn lemma_list_files_count(paths: Seq<Seq<char>>, r: Seq<Seq<char>>)
    requires
        spec_list_files_ok(paths, r),
    ensures
        r.len() == paths.filter(|p: Seq<char>| is_source(p)).len(),
{
    broadcast use vstd::seq_lib::group_to_multiset_ensures;

    lemma_listed_paths_len(paths);
    assert(r.len() == r.to_multiset().len());
    assert(listed_paths(paths).len() == listed_paths(paths).to_multiset().len());
}

} // verus!
