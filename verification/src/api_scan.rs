//! Source-level public API scanner.
//!
//! Walks the `.rs` files of a crate, extracts `pub` items line by line, and
//! builds a module tree with fully-qualified paths. It is a heuristic that
//! works without compilation: it does not see macro-generated items and does
//! not resolve type aliases.

use vstd::prelude::*;
use crate::paths::{file_stem, file_stem_chars, parent_dir, parent_dir_chars, path_join, path_join_chars};
use crate::text::{
    lemma_collapse_chars, lemma_trim_of_trimmed, lemma_find_char_bounds, lemma_find_from_some, lemma_strip_trailing_take,
    lemma_trim_end_take, lemma_trim_start_skip, leading_ws, occurs_at, rfind_upto, trailing_ws,
    decimal, push_decimal, contains, contains_str, lemma_lines_bounded, lines, split_lines,
    append, chars_eq, collapse_ws, collapse_ws_chars, ends_with, find_char, has_char,
    has_suffix, rfind, rfind_str, strip_trailing, strip_trailing_chars, append_str, alphanumeric, find, find_chars_from, find_from, find_str, from_chars,
    has_prefix, is_alphanumeric, lemma_trim_len, lemma_trim_start_len, slice, starts_with,
    to_chars, trim, trim_chars, trim_start, trim_start_chars,
};

verus! {

/// The kind of a scanned item.
#[derive(Clone, Copy, Debug, PartialEq, Eq, Structural)]
pub enum ItemKind {
    Function,
    Struct,
    Enum,
    Trait,
    Type,
    Const,
    Static,
    Module,
    Macro,
    ReExport,
}

/// A single public API item found by source scanning.
#[derive(Clone, Debug)]
pub struct ApiItem {
    /// Fully qualified path: "serde::de::Deserialize"
    pub path: String,
    /// Item kind
    pub kind: ItemKind,
    /// The signature line(s), cleaned up
    pub signature: String,
    /// Source file (relative to crate root)
    pub file: String,
    /// Line number in source (1-based)
    pub line: usize,
    /// cfg gate, if any
    pub cfg: Option<String>,
}

/// The plain values of an [`ApiItem`].
pub struct ApiItemView {
    pub path: Seq<char>,
    pub kind: ItemKind,
    pub signature: Seq<char>,
    pub file: Seq<char>,
    pub line: nat,
    pub cfg: Option<Seq<char>>,
}

pub open spec fn opt_view(o: Option<String>) -> Option<Seq<char>> {
    match o {
        Some(s) => Some(s@),
        None => None,
    }
}

impl View for ApiItem {
    type V = ApiItemView;

    open spec fn view(&self) -> ApiItemView {
        ApiItemView {
            path: self.path@,
            kind: self.kind,
            signature: self.signature@,
            file: self.file@,
            line: self.line as nat,
            cfg: opt_view(self.cfg),
        }
    }
}

// ---------------------------------------------------------------------------
// Brace counting

/// Where the brace counter stands in a line: in code, in a string literal, in a
/// character literal, or in a `/* ... */` comment.
#[derive(Clone, Copy)]
pub enum LexMode {
    Code,
    Str,
    Char,
    Block,
}

/// Net braces from position `i` on, read in `mode`. In code, `{` counts up
/// and `}` down; `//` ends the count; `/*` opens a comment that `*/` closes;
/// `"` opens a string. An apostrophe opens a character literal only before a
/// backslash (`'\n'`) or when the character after next is an apostrophe
/// (`'{'`); otherwise it is a lifetime or label (`'a`) and nothing is skipped.
/// A backslash in a string or character literal escapes the next character.
pub open spec fn braces_from(s: Seq<char>, i: int, mode: LexMode) -> int
    decreases s.len() - i,
{
    if i < 0 || i >= s.len() {
        0
    } else {
        let c = s[i];
        let next_is = |d: char| i + 1 < s.len() && s[i + 1] == d;
        match mode {
            LexMode::Code => if c == '/' && next_is('/') {
                0
            } else if c == '/' && next_is('*') {
                braces_from(s, i + 2, LexMode::Block)
            } else if c == '"' {
                braces_from(s, i + 1, LexMode::Str)
            } else if c == '\'' {
                if next_is('\\') {
                    braces_from(s, i + 1, LexMode::Char)
                } else if i + 2 < s.len() && s[i + 2] == '\'' {
                    braces_from(s, i + 3, LexMode::Code)
                } else {
                    braces_from(s, i + 1, LexMode::Code)
                }
            } else if c == '{' {
                1 + braces_from(s, i + 1, LexMode::Code)
            } else if c == '}' {
                braces_from(s, i + 1, LexMode::Code) - 1
            } else {
                braces_from(s, i + 1, LexMode::Code)
            },
            LexMode::Str => if c == '\\' {
                if i + 1 < s.len() {
                    braces_from(s, i + 2, LexMode::Str)
                } else {
                    0
                }
            } else if c == '"' {
                braces_from(s, i + 1, LexMode::Code)
            } else {
                braces_from(s, i + 1, LexMode::Str)
            },
            LexMode::Char => if c == '\\' {
                if i + 1 < s.len() {
                    braces_from(s, i + 2, LexMode::Char)
                } else {
                    0
                }
            } else if c == '\'' {
                braces_from(s, i + 1, LexMode::Code)
            } else {
                braces_from(s, i + 1, LexMode::Char)
            },
            LexMode::Block => if c == '*' && next_is('/') {
                braces_from(s, i + 2, LexMode::Code)
            } else {
                braces_from(s, i + 1, LexMode::Block)
            },
        }
    }
}

/// Net change in brace depth over a line: `{` counts up, `}` down, except
/// inside string and character literals and comments.
pub open spec fn brace_delta(s: Seq<char>) -> int {
    braces_from(s, 0, LexMode::Code)
}

pub fn count_braces_chars(line: &Vec<char>) -> (r: i32)
    requires
        line@.len() <= i32::MAX,
    ensures
        r == brace_delta(line@),
        -line@.len() <= r <= line@.len(),
{
    let n = line.len();
    let mut count: i32 = 0;
    let mut mode = LexMode::Code;
    let mut i: usize = 0;
    while i < n
        invariant
            n == line@.len(),
            i <= n <= i32::MAX,
            -i <= count <= i,
            brace_delta(line@) == count + braces_from(line@, i as int, mode),
        decreases n - i,
    {
        let c = line[i];
        match mode {
            LexMode::Code => {
                if c == '/' && i + 1 < n && line[i + 1] == '/' {
                    return count;
                } else if c == '/' && i + 1 < n && line[i + 1] == '*' {
                    mode = LexMode::Block;
                    i += 2;
                } else if c == '"' {
                    mode = LexMode::Str;
                    i += 1;
                } else if c == '\'' {
                    if i + 1 < n && line[i + 1] == '\\' {
                        mode = LexMode::Char;
                        i += 1;
                    } else if i + 2 < n && line[i + 2] == '\'' {
                        i += 3;
                    } else {
                        i += 1;
                    }
                } else if c == '{' {
                    count += 1;
                    i += 1;
                } else if c == '}' {
                    count -= 1;
                    i += 1;
                } else {
                    i += 1;
                }
            },
            LexMode::Str => {
                if c == '\\' {
                    i = if i + 1 < n { i + 2 } else { n };
                } else {
                    if c == '"' {
                        mode = LexMode::Code;
                    }
                    i += 1;
                }
            },
            LexMode::Char => {
                if c == '\\' {
                    i = if i + 1 < n { i + 2 } else { n };
                } else {
                    if c == '\'' {
                        mode = LexMode::Code;
                    }
                    i += 1;
                }
            },
            LexMode::Block => {
                if c == '*' && i + 1 < n && line[i + 1] == '/' {
                    mode = LexMode::Code;
                    i += 2;
                } else {
                    i += 1;
                }
            },
        }
    }
    count
}

/// Count net brace changes in a line (ignoring strings and comments).
pub fn count_braces(line: &str) -> (r: i32)
    requires
        line@.len() <= i32::MAX,
    ensures
        r == brace_delta(line@),
{
    let v = to_chars(line);
    count_braces_chars(&v)
}

// ---------------------------------------------------------------------------
// Bracket matching

/// The position of the bracket that closes the group open at depth `depth`,
/// reading from position `k`: `open` counts up, `close` counts down, and the
/// position where the depth falls to zero is the answer.
pub open spec fn closing_at(s: Seq<char>, k: int, depth: int, open: char, close: char) -> Option<
    int,
>
    decreases s.len() - k,
{
    if k < 0 || k >= s.len() {
        None
    } else if s[k] == open {
        closing_at(s, k + 1, depth + 1, open, close)
    } else if s[k] == close {
        if depth - 1 == 0 {
            Some(k)
        } else {
            closing_at(s, k + 1, depth - 1, open, close)
        }
    } else {
        closing_at(s, k + 1, depth, open, close)
    }
}

fn find_closing(s: &Vec<char>, from: usize, depth0: i32, open: char, close: char) -> (r: Option<
    usize,
>)
    requires
        s@.len() <= i32::MAX,
        0 <= depth0 <= 1,
        from <= s.len(),
    ensures
        r matches Some(j) ==> closing_at(s@, from as int, depth0 as int, open, close) == Some(
            j as int,
        ) && from <= j < s@.len(),
        r is None ==> closing_at(s@, from as int, depth0 as int, open, close) is None,
{
    let mut depth: i64 = depth0 as i64;
    let mut k = from;
    while k < s.len()
        invariant
            from <= k <= s.len() <= i32::MAX,
            -(k as int) <= depth <= k + 1,
            closing_at(s@, from as int, depth0 as int, open, close) == closing_at(
                s@,
                k as int,
                depth as int,
                open,
                close,
            ),
        decreases s.len() - k,
    {
        let c = s[k];
        if c == open {
            depth += 1;
        } else if c == close {
            depth -= 1;
            if depth == 0 {
                return Some(k);
            }
        }
        k += 1;
    }
    None
}

/// The predicate of a `#[cfg(...)]` attribute line: the text after the first
/// `cfg(` up to its matching `)`.
pub open spec fn spec_extract_cfg(line: Seq<char>) -> Option<Seq<char>> {
    match find(line, "cfg("@) {
        Some(start) => {
            let rest = line.skip(start + "cfg("@.len());
            match closing_at(rest, 0, 1, '(', ')') {
                Some(j) => Some(rest.take(j)),
                None => None,
            }
        },
        None => None,
    }
}

pub fn extract_cfg_chars(line: &Vec<char>) -> (r: Option<Vec<char>>)
    requires
        line@.len() <= i32::MAX,
    ensures
        r matches Some(v) ==> spec_extract_cfg(line@) == Some(v@),
        r is None ==> spec_extract_cfg(line@) is None,
{
    let pat = to_chars("cfg(");
    match find_chars_from(line, &pat, 0) {
        None => None,
        Some(start) => {
            let rest = slice(line, start + pat.len(), line.len());
            assert(rest@ =~= line@.skip(start + "cfg("@.len()));
            match find_closing(&rest, 0, 1, '(', ')') {
                Some(j) => {
                    let c = slice(&rest, 0, j);
                    assert(c@ =~= rest@.take(j as int));
                    Some(c)
                },
                None => None,
            }
        },
    }
}

/// Extract a cfg predicate from a `#[cfg(...)]` attribute line.
pub fn extract_cfg(line: &str) -> (r: Option<String>)
    requires
        line@.len() <= i32::MAX,
    ensures
        opt_view(r) == spec_extract_cfg(line@),
{
    let v = to_chars(line);
    match extract_cfg_chars(&v) {
        Some(c) => Some(from_chars(&c)),
        None => None,
    }
}

// ---------------------------------------------------------------------------
// Names

/// A character that may appear in an identifier (alphanumeric or `_`).
pub open spec fn is_ident_char(c: char) -> bool {
    alphanumeric(c) || c == '_'
}

fn ident_char(c: char) -> (b: bool)
    ensures
        b == is_ident_char(c),
{
    c == '_' || is_alphanumeric(c)
}

/// The longest prefix of `s` made of identifier characters.
pub open spec fn ident_prefix(s: Seq<char>) -> Seq<char>
    decreases s.len(),
{
    if s.len() > 0 && is_ident_char(s[0]) {
        seq![s[0]] + ident_prefix(s.drop_first())
    } else {
        Seq::empty()
    }
}

pub fn ident_prefix_chars(s: &Vec<char>) -> (r: Vec<char>)
    ensures
        r@ == ident_prefix(s@),
{
    let mut i: usize = 0;
    assert(s@.skip(0) =~= s@);
    while i < s.len() && ident_char(s[i])
        invariant
            i <= s.len(),
            ident_prefix(s@) == s@.take(i as int) + ident_prefix(s@.skip(i as int)),
        decreases s.len() - i,
    {
        assert(s@.skip(i as int).drop_first() =~= s@.skip(i + 1));
        assert(s@.take(i + 1) =~= s@.take(i as int) + seq![s@[i as int]]);
        i += 1;
    }
    let r = slice(s, 0, i);
    assert(r@ =~= s@.take(i as int) + ident_prefix(s@.skip(i as int)));
    r
}

/// The leading identifier of `s` (the type name in `Foo<T>` or `Bar {`).
pub fn extract_type_name(s: &str) -> (r: String)
    ensures
        r@ == ident_prefix(s@),
{
    let v = to_chars(s);
    from_chars(&ident_prefix_chars(&v))
}

/// `s` after a leading generic parameter list `<...>`, if it has one that closes.
pub open spec fn spec_skip_generics(s: Seq<char>) -> Seq<char> {
    if s.len() > 0 && s[0] == '<' {
        match closing_at(s, 0, 0, '<', '>') {
            Some(j) => s.skip(j + 1),
            None => s,
        }
    } else {
        s
    }
}

pub fn skip_generics_chars(s: &Vec<char>) -> (r: Vec<char>)
    requires
        s@.len() <= i32::MAX,
    ensures
        r@ == spec_skip_generics(s@),
        r@.len() <= s@.len(),
{
    if s.len() > 0 && s[0] == '<' {
        match find_closing(s, 0, 0, '<', '>') {
            Some(j) => {
                let r = slice(s, j + 1, s.len());
                assert(r@ =~= s@.skip(j + 1));
                r
            },
            None => s.clone(),
        }
    } else {
        s.clone()
    }
}

/// Skip a leading generic parameter list: `"<T: Clone>Bar"` gives `"Bar"`.
pub fn skip_generics(s: &str) -> (r: String)
    requires
        s@.len() <= i32::MAX,
    ensures
        r@ == spec_skip_generics(s@),
{
    let v = to_chars(s);
    from_chars(&skip_generics_chars(&v))
}

/// The type name of an impl block header: `Foo` for `impl<T> Foo<T> {`, and
/// `Foo (impl Display)` for `impl Display for Foo {`.
pub open spec fn spec_parse_impl_header(line: Seq<char>) -> Option<Seq<char>> {
    let line = trim(line);
    if !starts_with(line, "impl"@) {
        None
    } else {
        let rest = trim_start(spec_skip_generics(trim_start(line.skip("impl"@.len() as int))));
        let direct = ident_prefix(rest);
        let for_type = match find(rest, " for "@) {
            Some(p) => ident_prefix(trim_start(rest.skip(p + " for "@.len()))),
            None => Seq::empty(),
        };
        if for_type.len() > 0 {
            Some(for_type + " (impl "@ + direct + ")"@)
        } else if direct.len() > 0 {
            Some(direct)
        } else {
            None
        }
    }
}

pub fn parse_impl_header_chars(line: &Vec<char>) -> (r: Option<Vec<char>>)
    requires
        line@.len() <= i32::MAX,
    ensures
        r matches Some(v) ==> spec_parse_impl_header(line@) == Some(v@),
        r is None ==> spec_parse_impl_header(line@) is None,
{
    proof {
        lemma_trim_len(line@);
    }
    let line = trim_chars(line);
    if !has_prefix(&line, "impl") {
        return None;
    }
    let kw = to_chars("impl");
    let after = slice(&line, kw.len(), line.len());
    assert(after@ =~= line@.skip("impl"@.len() as int));
    proof {
        lemma_trim_start_len(after@);
    }
    let after = trim_start_chars(&after);
    let rest = skip_generics_chars(&after);
    proof {
        lemma_trim_start_len(rest@);
    }
    let rest = trim_start_chars(&rest);
    let direct = ident_prefix_chars(&rest);
    let for_type = match find_str(&rest, " for ") {
        Some(p) => {
            let pat = to_chars(" for ");
            let tail = slice(&rest, p + pat.len(), rest.len());
            assert(tail@ =~= rest@.skip(p + " for "@.len()));
            let tail = trim_start_chars(&tail);
            ident_prefix_chars(&tail)
        },
        None => Vec::new(),
    };
    if for_type.len() > 0 {
        let mut out = for_type;
        append_str(&mut out, " (impl ");
        append(&mut out, &direct);
        append_str(&mut out, ")");
        Some(out)
    } else if direct.len() > 0 {
        Some(direct)
    } else {
        None
    }
}

/// Parse an impl block header to extract the type name.
pub fn parse_impl_header(line: &str) -> (r: Option<String>)
    requires
        line@.len() <= i32::MAX,
    ensures
        opt_view(r) == spec_parse_impl_header(line@),
{
    let v = to_chars(line);
    match parse_impl_header_chars(&v) {
        Some(c) => Some(from_chars(&c)),
        None => None,
    }
}


// ---------------------------------------------------------------------------
// Signatures

/// The declaration part of a signature: cut at the first `{`, whitespace runs
/// collapsed, trailing `;` removed, trimmed.
pub open spec fn spec_truncate_sig(sig: Seq<char>) -> Seq<char> {
    let cut = match find_char(sig, '{') {
        Some(p) => sig.take(p),
        None => sig,
    };
    trim(strip_trailing(collapse_ws(cut), ';'))
}

pub fn truncate_sig_chars(sig: &Vec<char>) -> (r: Vec<char>)
    ensures
        r@ == spec_truncate_sig(sig@),
{
    let brace = vec!['{'];
    let cut = match find_chars_from(sig, &brace, 0) {
        Some(p) => slice(sig, 0, p),
        None => sig.clone(),
    };
    assert(brace@ =~= seq!['{']);
    let norm = collapse_ws_chars(&cut);
    let stripped = strip_trailing_chars(&norm, ';');
    trim_chars(&stripped)
}

/// Truncate a signature at `{` or body content, keeping just the declaration.
pub fn truncate_sig(sig: String) -> (r: String)
    ensures
        r@ == spec_truncate_sig(sig@),
{
    let v = to_chars(sig.as_str());
    from_chars(&truncate_sig_chars(&v))
}

/// A signature is complete once it holds a `{` or ends with `;`.
pub open spec fn spec_sig_is_complete(sig: Seq<char>) -> bool {
    sig.contains('{') || ends_with(sig, ";"@)
}

pub fn sig_is_complete(sig: &Vec<char>) -> (r: bool)
    ensures
        r == spec_sig_is_complete(sig@),
{
    has_char(sig, '{') || has_suffix(sig, ";")
}

/// Continuation lines joined onto an incomplete signature: at most ten lines
/// after `start`, stopping at the last line or once the signature is complete.
/// Gives the signature and the index of the last line read.
pub open spec fn continue_signature(lines: Seq<Seq<char>>, sig: Seq<char>, i: int, start: int) -> (
    Seq<char>,
    int,
)
    decreases lines.len() - i,
{
    if 0 <= i && i + 1 < lines.len() && i - start < 10 {
        let next = sig + seq![' '] + trim(lines[i + 1]);
        if spec_sig_is_complete(next) {
            (next, i + 1)
        } else {
            continue_signature(lines, next, i + 1, start)
        }
    } else {
        (sig, i)
    }
}

/// A possibly multi-line signature that starts on line `i` with `first_line`,
/// read up to `{` or `;`; gives the signature and the index of the last line read.
pub open spec fn spec_collect_signature(first_line: Seq<char>, lines: Seq<Seq<char>>, i: int) -> (
    Seq<char>,
    int,
) {
    let sig = trim(first_line);
    if spec_sig_is_complete(sig) {
        (spec_truncate_sig(sig), i)
    } else {
        let (full, j) = continue_signature(lines, sig, i, i);
        (spec_truncate_sig(full), j)
    }
}

proof fn lemma_continue_signature_range(lines: Seq<Seq<char>>, sig: Seq<char>, i: int, start: int)
    requires
        0 <= start <= i,
    ensures
        i <= continue_signature(lines, sig, i, start).1,
        continue_signature(lines, sig, i, start).1 < lines.len() || continue_signature(
            lines,
            sig,
            i,
            start,
        ).1 == i,
    decreases lines.len() - i,
{
    if 0 <= i && i + 1 < lines.len() && i - start < 10 {
        let next = sig + seq![' '] + trim(lines[i + 1]);
        if !spec_sig_is_complete(next) {
            lemma_continue_signature_range(lines, next, i + 1, start);
        }
    }
}

fn collect_signature(first_line: &Vec<char>, lines: &Vec<Vec<char>>, i: &mut usize) -> (r: Vec<
    char,
>)
    requires
        *old(i) < lines@.len(),
    ensures
        (r@, *final(i) as int) == spec_collect_signature(
            first_line@,
            lines@.map_values(|l: Vec<char>| l@),
            *old(i) as int,
        ),
        *old(i) <= *final(i) < lines@.len(),
{
    let ghost ls = lines@.map_values(|l: Vec<char>| l@);
    let mut sig = trim_chars(first_line);
    if sig_is_complete(&sig) {
        return truncate_sig_chars(&sig);
    }
    let start = *i;
    let ghost target = continue_signature(ls, sig@, start as int, start as int);
    assert(spec_collect_signature(first_line@, ls, start as int) == (
        spec_truncate_sig(target.0),
        target.1,
    ));
    loop
        invariant
            start == *old(i),
            start <= *i < lines.len(),
            ls == lines@.map_values(|l: Vec<char>| l@),
            target == continue_signature(ls, sig@, *i as int, start as int),
            spec_collect_signature(first_line@, ls, start as int) == (
                spec_truncate_sig(target.0),
                target.1,
            ),
        decreases lines.len() - *i,
    {
        if !(*i + 1 < lines.len() && *i - start < 10) {
            assert(continue_signature(ls, sig@, *i as int, start as int) == (sig@, *i as int));
            return truncate_sig_chars(&sig);
        }
        let ghost prev = sig@;
        *i += 1;
        sig.push(' ');
        let next = trim_chars(&lines[*i]);
        append(&mut sig, &next);
        assert(ls[*i as int] == lines@[*i as int]@);
        assert(sig@ == prev + seq![' '] + trim(ls[*i as int]));
        if sig_is_complete(&sig) {
            assert(continue_signature(ls, prev, *i - 1, start as int) == (sig@, *i as int));
            return truncate_sig_chars(&sig);
        }
    }
}

// ---------------------------------------------------------------------------
// Paths and re-exports

/// A character kept at the ends of the last segment of a `use` path.
pub open spec fn is_use_segment_char(c: char) -> bool {
    alphanumeric(c) || c == '_' || c == '*' || c == '{'
}

pub open spec fn trim_segment_start(s: Seq<char>) -> Seq<char>
    decreases s.len(),
{
    if s.len() > 0 && !is_use_segment_char(s[0]) {
        trim_segment_start(s.drop_first())
    } else {
        s
    }
}

pub open spec fn trim_segment_end(s: Seq<char>) -> Seq<char>
    decreases s.len(),
{
    if s.len() > 0 && !is_use_segment_char(s.last()) {
        trim_segment_end(s.drop_last())
    } else {
        s
    }
}

fn use_segment_char(c: char) -> (b: bool)
    ensures
        b == is_use_segment_char(c),
{
    c == '_' || c == '*' || c == '{' || is_alphanumeric(c)
}

fn trim_segment(s: &Vec<char>) -> (r: Vec<char>)
    ensures
        r@ == trim_segment_end(trim_segment_start(s@)),
{
    let mut i: usize = 0;
    assert(s@.skip(0) =~= s@);
    while i < s.len() && !use_segment_char(s[i])
        invariant
            i <= s.len(),
            trim_segment_start(s@) == trim_segment_start(s@.skip(i as int)),
        decreases s.len() - i,
    {
        assert(s@.skip(i as int).drop_first() =~= s@.skip(i + 1));
        i += 1;
    }
    let t = slice(s, i, s.len());
    assert(t@ =~= s@.skip(i as int));
    let mut j: usize = t.len();
    assert(t@.take(j as int) =~= t@);
    while j > 0 && !use_segment_char(t[j - 1])
        invariant
            j <= t.len(),
            trim_segment_end(t@) == trim_segment_end(t@.take(j as int)),
        decreases j,
    {
        assert(t@.take(j as int).drop_last() =~= t@.take(j - 1));
        j -= 1;
    }
    assert(t@.take(j as int) =~= t@.subrange(0, j as int));
    slice(&t, 0, j)
}

/// The text after the last `::` of `s`, or all of `s`.
pub open spec fn last_segment(s: Seq<char>) -> Seq<char> {
    match rfind(s, "::"@) {
        Some(j) => s.skip(j + "::"@.len()),
        None => s,
    }
}

/// The text before the last `::` of `s`, or all of `s`.
pub open spec fn spec_item_module(path: Seq<char>) -> Seq<char> {
    match rfind(path, "::"@) {
        Some(j) => path.take(j),
        None => path,
    }
}

pub fn item_module_chars(path: &Vec<char>) -> (r: Vec<char>)
    ensures
        r@ == spec_item_module(path@),
{
    match rfind_str(path, "::") {
        Some(j) => slice(path, 0, j),
        None => path.clone(),
    }
}

/// The module part of an item path: everything before the last `::`.
pub fn item_module(path: &str) -> (r: String)
    ensures
        r@ == spec_item_module(path@),
{
    let v = to_chars(path);
    from_chars(&item_module_chars(&v))
}

/// `module::name`.
pub open spec fn qualify(module: Seq<char>, name: Seq<char>) -> Seq<char> {
    module + "::"@ + name
}

fn qualify_chars(module: &Vec<char>, name: &Vec<char>) -> (r: Vec<char>)
    ensures
        r@ == qualify(module@, name@),
{
    let mut r = module.clone();
    append_str(&mut r, "::");
    append(&mut r, name);
    r
}

/// A `pub use` statement as an item: (qualified path, kind, signature, name).
/// A group or glob import is listed under `module::{re-exports}`.
pub open spec fn spec_parse_pub_use(use_path: Seq<char>, module: Seq<char>) -> (
    Seq<char>,
    ItemKind,
    Seq<char>,
    Seq<char>,
) {
    let use_path = trim(strip_trailing(trim(use_path), ';'));
    let last = trim_segment_end(trim_segment_start(last_segment(use_path)));
    let name = if last.contains('{') || last == "*"@ {
        Seq::empty()
    } else {
        last
    };
    let qpath = if name.len() == 0 {
        qualify(module, "{re-exports}"@)
    } else {
        qualify(module, name)
    };
    (qpath, ItemKind::ReExport, "pub use "@ + use_path, Seq::empty())
}

fn parse_pub_use_chars(use_path: &Vec<char>, module: &Vec<char>) -> (r: (
    Vec<char>,
    ItemKind,
    Vec<char>,
    Vec<char>,
))
    ensures
        (r.0@, r.1, r.2@, r.3@) == spec_parse_pub_use(use_path@, module@),
{
    let t = trim_chars(use_path);
    let t = strip_trailing_chars(&t, ';');
    let u = trim_chars(&t);
    let ulen = u.len();
    let seg = match rfind_str(&u, "::") {
        Some(j) => {
            let sep = to_chars("::");
            assert(sep@ == "::"@);
            slice(&u, j + sep.len(), ulen)
        },
        None => u.clone(),
    };
    assert(seg@ =~= last_segment(u@));
    let last = trim_segment(&seg);
    let star = to_chars("*");
    let name = if has_char(&last, '{') || chars_eq(&last, &star) {
        Vec::new()
    } else {
        last
    };
    let qpath = if name.len() == 0 {
        let group = to_chars("{re-exports}");
        qualify_chars(module, &group)
    } else {
        qualify_chars(module, &name)
    };
    let mut sig = to_chars("pub use ");
    append(&mut sig, &u);
    (qpath, ItemKind::ReExport, sig, Vec::new())
}

/// Parse the text after `pub use` into a re-export item:
/// (qualified path, kind, signature, name).
pub fn parse_pub_use(use_path: &str, module: &str) -> (r: Option<
    (String, ItemKind, String, String),
>)
    ensures
        r matches Some(t) && (t.0@, t.1, t.2@, t.3@) == spec_parse_pub_use(use_path@, module@),
{
    let u = to_chars(use_path);
    let m = to_chars(module);
    let (p, k, s, n) = parse_pub_use_chars(&u, &m);
    Some((from_chars(&p), k, from_chars(&s), from_chars(&n)))
}


// ---------------------------------------------------------------------------
// `pub` items

/// The item kind that a declaration (after `pub `) starts with, and the text
/// after its keyword.
pub open spec fn item_keyword(rest: Seq<char>) -> Option<(ItemKind, Seq<char>)> {
    if starts_with(rest, "fn "@) {
        Some((ItemKind::Function, rest.skip("fn "@.len() as int)))
    } else if starts_with(rest, "async fn "@) {
        Some((ItemKind::Function, rest.skip("async fn "@.len() as int)))
    } else if starts_with(rest, "unsafe fn "@) {
        Some((ItemKind::Function, rest.skip("unsafe fn "@.len() as int)))
    } else if starts_with(rest, "const fn "@) {
        Some((ItemKind::Function, rest.skip("const fn "@.len() as int)))
    } else if starts_with(rest, "struct "@) {
        Some((ItemKind::Struct, rest.skip("struct "@.len() as int)))
    } else if starts_with(rest, "enum "@) {
        Some((ItemKind::Enum, rest.skip("enum "@.len() as int)))
    } else if starts_with(rest, "trait "@) {
        Some((ItemKind::Trait, rest.skip("trait "@.len() as int)))
    } else if starts_with(rest, "type "@) {
        Some((ItemKind::Type, rest.skip("type "@.len() as int)))
    } else if starts_with(rest, "const "@) {
        Some((ItemKind::Const, rest.skip("const "@.len() as int)))
    } else if starts_with(rest, "static "@) {
        Some((ItemKind::Static, rest.skip("static "@.len() as int)))
    } else if starts_with(rest, "macro "@) {
        Some((ItemKind::Macro, rest.skip("macro "@.len() as int)))
    } else if starts_with(rest, "macro_rules! "@) {
        Some((ItemKind::Macro, rest.skip("macro_rules! "@.len() as int)))
    } else {
        None
    }
}

fn strip_keyword(rest: &Vec<char>, kw: &str) -> (r: Option<Vec<char>>)
    ensures
        r matches Some(v) ==> starts_with(rest@, kw@) && v@ == rest@.skip(kw@.len() as int),
        r is None ==> !starts_with(rest@, kw@),
{
    if has_prefix(rest, kw) {
        let k = to_chars(kw);
        Some(slice(rest, k.len(), rest.len()))
    } else {
        None
    }
}

fn item_keyword_chars(rest: &Vec<char>) -> (r: Option<(ItemKind, Vec<char>)>)
    ensures
        r matches Some(t) ==> item_keyword(rest@) == Some((t.0, t.1@)),
        r is None ==> item_keyword(rest@) is None,
{
    if let Some(a) = strip_keyword(rest, "fn ") {
        Some((ItemKind::Function, a))
    } else if let Some(a) = strip_keyword(rest, "async fn ") {
        Some((ItemKind::Function, a))
    } else if let Some(a) = strip_keyword(rest, "unsafe fn ") {
        Some((ItemKind::Function, a))
    } else if let Some(a) = strip_keyword(rest, "const fn ") {
        Some((ItemKind::Function, a))
    } else if let Some(a) = strip_keyword(rest, "struct ") {
        Some((ItemKind::Struct, a))
    } else if let Some(a) = strip_keyword(rest, "enum ") {
        Some((ItemKind::Enum, a))
    } else if let Some(a) = strip_keyword(rest, "trait ") {
        Some((ItemKind::Trait, a))
    } else if let Some(a) = strip_keyword(rest, "type ") {
        Some((ItemKind::Type, a))
    } else if let Some(a) = strip_keyword(rest, "const ") {
        Some((ItemKind::Const, a))
    } else if let Some(a) = strip_keyword(rest, "static ") {
        Some((ItemKind::Static, a))
    } else if let Some(a) = strip_keyword(rest, "macro ") {
        Some((ItemKind::Macro, a))
    } else if let Some(a) = strip_keyword(rest, "macro_rules! ") {
        Some((ItemKind::Macro, a))
    } else {
        None
    }
}

/// The view of a parsed item: (qualified path, kind, signature, name).
pub open spec fn parsed_view(t: (Vec<char>, ItemKind, Vec<char>, Vec<char>)) -> (
    Seq<char>,
    ItemKind,
    Seq<char>,
    Seq<char>,
) {
    (t.0@, t.1, t.2@, t.3@)
}

/// A `pub` declaration on line `i`, read as (qualified path, kind, signature,
/// name), together with the index of the last line that its signature took.
/// `impl_type` is the type of the innermost enclosing impl block, if any.
pub open spec fn spec_parse_pub_item(
    first_line: Seq<char>,
    lines: Seq<Seq<char>>,
    i: int,
    module: Seq<char>,
    impl_type: Option<Seq<char>>,
) -> (Option<(Seq<char>, ItemKind, Seq<char>, Seq<char>)>, int) {
    if !starts_with(first_line, "pub "@) {
        (None, i)
    } else {
        let rest = first_line.skip("pub "@.len() as int);
        if starts_with(rest, "use "@) {
            (Some(spec_parse_pub_use(rest.skip("use "@.len() as int), module)), i)
        } else if starts_with(rest, "mod "@) {
            let name = ident_prefix(rest.skip("mod "@.len() as int));
            if name.len() == 0 {
                (None, i)
            } else {
                (Some((qualify(module, name), ItemKind::Module, "pub mod "@ + name, name)), i)
            }
        } else {
            match item_keyword(rest) {
                None => (None, i),
                Some((kind, after)) => {
                    let name = ident_prefix(after);
                    if name.len() == 0 {
                        (None, i)
                    } else {
                        let qpath = match impl_type {
                            Some(t) => qualify(qualify(module, t), name),
                            None => qualify(module, name),
                        };
                        let (sig, j) = spec_collect_signature(first_line, lines, i);
                        (Some((qpath, kind, sig, name)), j)
                    }
                },
            }
        }
    }
}

pub open spec fn opt_chars_view(o: Option<&Vec<char>>) -> Option<Seq<char>> {
    match o {
        Some(v) => Some(v@),
        None => None,
    }
}

/// Parse a `pub` item declaration. Returns (qualified path, kind, signature, name).
fn parse_pub_item(
    first_line: &Vec<char>,
    lines: &Vec<Vec<char>>,
    i: &mut usize,
    module: &Vec<char>,
    impl_type: Option<&Vec<char>>,
) -> (r: Option<(Vec<char>, ItemKind, Vec<char>, Vec<char>)>)
    requires
        *old(i) < lines@.len(),
    ensures
        (
            match r {
                Some(t) => Some(parsed_view(t)),
                None => None,
            },
            *final(i) as int,
        ) == spec_parse_pub_item(
            first_line@,
            lines@.map_values(|l: Vec<char>| l@),
            *old(i) as int,
            module@,
            opt_chars_view(impl_type),
        ),
        *old(i) <= *final(i) < lines@.len(),
{
    let rest = match strip_keyword(first_line, "pub ") {
        Some(r) => r,
        None => return None,
    };
    if let Some(u) = strip_keyword(&rest, "use ") {
        let t = parse_pub_use_chars(&u, module);
        return Some(t);
    }
    if let Some(m) = strip_keyword(&rest, "mod ") {
        let name = ident_prefix_chars(&m);
        if name.len() == 0 {
            return None;
        }
        let mut sig = to_chars("pub mod ");
        append(&mut sig, &name);
        return Some((qualify_chars(module, &name), ItemKind::Module, sig, name));
    }
    let (kind, after) = match item_keyword_chars(&rest) {
        Some(t) => t,
        None => return None,
    };
    let name = ident_prefix_chars(&after);
    if name.len() == 0 {
        return None;
    }
    let qpath = match impl_type {
        Some(t) => {
            let q = qualify_chars(module, t);
            qualify_chars(&q, &name)
        },
        None => qualify_chars(module, &name),
    };
    let sig = collect_signature(first_line, lines, i);
    Some((qpath, kind, sig, name))
}


// ---------------------------------------------------------------------------
// The files of a crate

/// One file of a crate as the scanner sees it: its path relative to the crate
/// root, with `/` separators, and its text, or `None` when the file exists but
/// cannot be read as UTF-8 text.
pub struct SourceFile {
    pub path: String,
    pub content: Option<String>,
}

/// The `.rs` files of a crate.
pub struct SourceTree {
    pub files: Vec<SourceFile>,
}

pub open spec fn file_view(f: SourceFile) -> (Seq<char>, Option<Seq<char>>) {
    (f.path@, opt_view(f.content))
}

impl SourceTree {
    /// The files as (path, text) pairs.
    pub open spec fn files_view(&self) -> Seq<(Seq<char>, Option<Seq<char>>)> {
        self.files@.map_values(|f: SourceFile| file_view(f))
    }

    /// Every text fits the scanner's `i32` counters.
    pub open spec fn wf(&self) -> bool {
        forall|j: int|
            0 <= j < self.files@.len() ==> ((#[trigger] self.files@[j]).content matches Some(c)
                ==> c@.len() <= i32::MAX)
    }
}

/// The position of the first file with the given path.
pub open spec fn file_index_from(files: Seq<(Seq<char>, Option<Seq<char>>)>, path: Seq<char>, k: int) -> Option<int>
    decreases files.len() - k,
{
    if k < 0 || k >= files.len() {
        None
    } else if files[k].0 == path {
        Some(k)
    } else {
        file_index_from(files, path, k + 1)
    }
}

pub open spec fn file_index(files: Seq<(Seq<char>, Option<Seq<char>>)>, path: Seq<char>) -> Option<int> {
    file_index_from(files, path, 0)
}

fn find_file(tree: &SourceTree, path: &Vec<char>) -> (r: Option<usize>)
    ensures
        r matches Some(k) ==> file_index(tree.files_view(), path@) == Some(k as int) && k < tree.files@.len(),
        r is None ==> file_index(tree.files_view(), path@) is None,
{
    let mut k: usize = 0;
    while k < tree.files.len()
        invariant
            k <= tree.files@.len(),
            file_index(tree.files_view(), path@) == file_index_from(tree.files_view(), path@, k as int),
        decreases tree.files.len() - k,
    {
        let fp = to_chars(tree.files[k].path.as_str());
        assert(tree.files_view()[k as int].0 == tree.files@[k as int].path@);
        if chars_eq(&fp, path) {
            return Some(k);
        }
        k += 1;
    }
    None
}

/// The file of submodule `name` declared in `parent_file`: `name.rs` or
/// `name/mod.rs` beside a `lib.rs`, `mod.rs` or `main.rs`, and under the
/// directory named after the parent file otherwise.
pub open spec fn spec_find_module_file(
    files: Seq<(Seq<char>, Option<Seq<char>>)>,
    parent_file: Seq<char>,
    name: Seq<char>,
) -> Option<int> {
    let dir = parent_dir(parent_file);
    let stem = file_stem(parent_file);
    let base = if stem == "lib"@ || stem == "mod"@ || stem == "main"@ {
        dir
    } else {
        path_join(dir, stem)
    };
    if parent_file.len() == 0 {
        None
    } else {
        match file_index(files, path_join(base, name + ".rs"@)) {
            Some(k) => Some(k),
            None => file_index(files, path_join(path_join(base, name), "mod.rs"@)),
        }
    }
}

/// Find the file for a submodule given the parent module's file.
fn find_module_file(tree: &SourceTree, parent_file: &Vec<char>, name: &Vec<char>) -> (r: Option<usize>)
    ensures
        r matches Some(k) ==> spec_find_module_file(tree.files_view(), parent_file@, name@) == Some(k as int) && k < tree.files@.len(),
        r is None ==> spec_find_module_file(tree.files_view(), parent_file@, name@) is None,
{
    if parent_file.len() == 0 {
        return None;
    }
    let dir = parent_dir_chars(parent_file);
    let stem = file_stem_chars(parent_file);
    let lib = to_chars("lib");
    let md = to_chars("mod");
    let mn = to_chars("main");
    let base = if chars_eq(&stem, &lib) || chars_eq(&stem, &md) || chars_eq(&stem, &mn) {
        dir
    } else {
        path_join_chars(&dir, &stem)
    };
    let mut file = name.clone();
    append_str(&mut file, ".rs");
    let sibling = path_join_chars(&base, &file);
    if let Some(k) = find_file(tree, &sibling) {
        return Some(k);
    }
    let sub = path_join_chars(&base, name);
    let modrs = to_chars("mod.rs");
    let nested = path_join_chars(&sub, &modrs);
    find_file(tree, &nested)
}

// ---------------------------------------------------------------------------
// The line scanner

/// What the scanner carries from line to line.
pub struct ScanState {
    /// The index of the next line
    pub i: int,
    /// Brace depth so far
    pub depth: int,
    /// Open impl blocks: depth where each opened, and its type name
    pub impls: Seq<(int, Seq<char>)>,
    /// Depths at which skipped scopes (`macro_rules!`, private `mod`) opened
    pub skips: Seq<int>,
    /// A `#[cfg(...)]` predicate waiting for the next item
    pub cfg: Option<Seq<char>>,
    /// A `#[doc(hidden)]` waiting for the next item
    pub hidden: bool,
    /// Inside a `/* ... */` comment
    pub in_comment: bool,
}

/// What the scanner reads: the crate's files, the file being scanned, its
/// lines, its module path, and the files of the modules that enclose it.
pub struct ScanCtx {
    pub files: Seq<(Seq<char>, Option<Seq<char>>)>,
    pub file: int,
    pub lines: Seq<Seq<char>>,
    pub module: Seq<char>,
    pub stack: Seq<usize>,
}

pub open spec fn initial_state() -> ScanState {
    ScanState {
        i: 0,
        depth: 0,
        impls: Seq::empty(),
        skips: Seq::empty(),
        cfg: None,
        hidden: false,
        in_comment: false,
    }
}

/// Skipped scopes that are closed at depth `depth`, removed from the top.
pub open spec fn pop_skips(skips: Seq<int>, depth: int) -> Seq<int>
    decreases skips.len(),
{
    if skips.len() > 0 && depth <= skips.last() {
        pop_skips(skips.drop_last(), depth)
    } else {
        skips
    }
}

/// Impl blocks that are closed at depth `depth`, removed from the top.
pub open spec fn pop_impls(impls: Seq<(int, Seq<char>)>, depth: int) -> Seq<(int, Seq<char>)>
    decreases impls.len(),
{
    if impls.len() > 0 && depth <= impls.last().0 {
        pop_impls(impls.drop_last(), depth)
    } else {
        impls
    }
}

/// `\` replaced by `/`.
pub open spec fn slashes(s: Seq<char>) -> Seq<char> {
    s.map_values(|c: char| if c == '\\' { '/' } else { c })
}

pub open spec fn with_line(st: ScanState, i: int) -> ScanState {
    ScanState { i, ..st }
}

/// One step of the scanner over line `st.i`: the next state, the item that the
/// line declares, if any, and the name of the submodule to descend into, if any.
pub open spec fn scan_line(ctx: ScanCtx, st: ScanState) -> (ScanState, Option<ApiItemView>, Option<Seq<char>>) {
    let line = trim(ctx.lines[st.i]);
    let next = st.i + 1;
    if st.in_comment {
        (ScanState { i: next, in_comment: !contains(line, "*/"@), ..st }, None, None)
    } else if starts_with(line, "/*"@) && !contains(line, "*/"@) {
        (ScanState { i: next, in_comment: true, ..st }, None, None)
    } else if starts_with(line, "//"@) {
        (with_line(st, next), None, None)
    } else if (starts_with(line, "#[cfg("@) && !starts_with(line, "#[cfg(test)"@)) || starts_with(line, "#[cfg_attr("@) {
        let cfg = match spec_extract_cfg(line) {
            Some(c) => Some(c),
            None => st.cfg,
        };
        (ScanState { i: next, cfg, ..st }, None, None)
    } else if contains(line, "#[doc(hidden)]"@) {
        (ScanState { i: next, hidden: true, ..st }, None, None)
    } else {
        let change = brace_delta(line);
        let old = st.depth;
        let depth = old + change;
        let skips = pop_skips(st.skips, depth);
        if contains(line, "macro_rules!"@) {
            let skips = if change > 0 { skips.push(old) } else { skips };
            (ScanState { i: next, depth, skips, ..st }, None, None)
        } else if starts_with(line, "mod "@) && !starts_with(line, "mod test"@) && line.contains('{') {
            (ScanState { i: next, depth, skips: skips.push(old), ..st }, None, None)
        } else if skips.len() > 0 {
            (ScanState { i: next, depth, skips, ..st }, None, None)
        } else {
            let opened = if starts_with(line, "impl"@) || (starts_with(line, "pub"@) && contains(line, " impl "@)) {
                match spec_parse_impl_header(line) {
                    Some(n) => st.impls.push((old, n)),
                    None => st.impls,
                }
            } else {
                st.impls
            };
            let impls = pop_impls(opened, depth);
            if !starts_with(line, "pub "@) && !starts_with(line, "pub("@) {
                let keep = line.len() == 0 || starts_with(line, "#"@);
                (ScanState {
                    i: next,
                    depth,
                    impls,
                    skips,
                    cfg: if keep { st.cfg } else { None },
                    hidden: if keep { st.hidden } else { false },
                    in_comment: false,
                }, None, None)
            } else if starts_with(line, "pub("@) || st.hidden {
                (ScanState { i: next, depth, impls, skips, cfg: None, hidden: false, in_comment: false }, None, None)
            } else {
                let impl_type = if impls.len() > 0 { Some(impls.last().1) } else { None };
                let (parsed, j) = spec_parse_pub_item(line, ctx.lines, st.i, ctx.module, impl_type);
                let after = ScanState { i: j + 1, depth, impls, skips, cfg: None, hidden: false, in_comment: false };
                match parsed {
                    Some((path, kind, signature, name)) => {
                        let item = ApiItemView {
                            path,
                            kind,
                            signature,
                            file: slashes(ctx.files[ctx.file].0),
                            line: (st.i + 1) as nat,
                            cfg: st.cfg,
                        };
                        let sub = if kind == ItemKind::Module && name.len() > 0 { Some(name) } else { None };
                        (after, Some(item), sub)
                    },
                    None => (after, None, None),
                }
            }
        }
    }
}

/// `scan_line` moves forward, and no further than the end of the file.
pub proof fn lemma_scan_line_advances(ctx: ScanCtx, st: ScanState)
    requires
        0 <= st.i < ctx.lines.len(),
    ensures
        st.i < scan_line(ctx, st).0.i <= ctx.lines.len(),
{
    let line = trim(ctx.lines[st.i]);
    if starts_with(line, "pub "@) {
        let rest = line.skip("pub "@.len() as int);
        if !starts_with(rest, "use "@) && !starts_with(rest, "mod "@) {
            let sig = trim(line);
            if !spec_sig_is_complete(sig) {
                lemma_continue_signature_range(ctx.lines, sig, st.i, st.i);
            }
        }
    }
}

/// The items that a file declares from state `st` on, with the items of the
/// submodules it declares, each in place after its `pub mod` item.
pub open spec fn scan_lines(ctx: ScanCtx, st: ScanState) -> Seq<ApiItemView>
    decreases ctx.files.len() - ctx.stack.len(), 0int, ctx.lines.len() - st.i,
{
    if st.i < 0 || st.i >= ctx.lines.len() {
        Seq::empty()
    } else {
        let (next, item, sub) = scan_line(ctx, st);
        let here = match item {
            Some(it) => seq![it],
            None => Seq::empty(),
        };
        let below = match (item, sub) {
            (Some(it), Some(name)) => match spec_find_module_file(ctx.files, ctx.files[ctx.file].0, name) {
                Some(g) => if !ctx.stack.contains(g as usize) && ctx.stack.len() < ctx.files.len() {
                    scan_file(ctx.files, g, it.path, ctx.stack.push(g as usize))
                } else {
                    Seq::empty()
                },
                None => Seq::empty(),
            },
            _ => Seq::empty(),
        };
        proof {
            lemma_scan_line_advances(ctx, st);
        }
        here + below + scan_lines(ctx, next)
    }
}

/// The items of file `f` scanned as module `module`; `stack` lists the files
/// of the enclosing modules and `f` itself. A file that is read but not text
/// declares nothing.
pub open spec fn scan_file(
    files: Seq<(Seq<char>, Option<Seq<char>>)>,
    f: int,
    module: Seq<char>,
    stack: Seq<usize>,
) -> Seq<ApiItemView>
    decreases files.len() - stack.len(), 1int, 0int,
{
    if f < 0 || f >= files.len() {
        Seq::empty()
    } else {
        match files[f].1 {
            None => Seq::empty(),
            Some(content) => scan_lines(
                ScanCtx { files, file: f, lines: lines(content), module, stack },
                initial_state(),
            ),
        }
    }
}


// ---------------------------------------------------------------------------
// The scanner in code

struct ScanVars {
    i: usize,
    depth: i64,
    impls: Vec<(i64, Vec<char>)>,
    skips: Vec<i64>,
    cfg: Option<Vec<char>>,
    hidden: bool,
    in_comment: bool,
}

spec fn impls_view(impls: Seq<(i64, Vec<char>)>) -> Seq<(int, Seq<char>)> {
    impls.map_values(|p: (i64, Vec<char>)| (p.0 as int, p.1@))
}

spec fn skips_view(skips: Seq<i64>) -> Seq<int> {
    skips.map_values(|d: i64| d as int)
}

spec fn opt_chars(o: Option<Vec<char>>) -> Option<Seq<char>> {
    match o {
        Some(v) => Some(v@),
        None => None,
    }
}

spec fn vars_view(v: ScanVars) -> ScanState {
    ScanState {
        i: v.i as int,
        depth: v.depth as int,
        impls: impls_view(v.impls@),
        skips: skips_view(v.skips@),
        cfg: opt_chars(v.cfg),
        hidden: v.hidden,
        in_comment: v.in_comment,
    }
}

/// The bound on the brace depth after `i` lines of at most `i32::MAX` characters.
spec fn depth_bounded(v: ScanVars) -> bool {
    -(v.i as int) * 2147483647 <= v.depth <= (v.i as int) * 2147483647
}

fn pop_closed_skips(skips: &mut Vec<i64>, depth: i64)
    ensures
        skips_view(final(skips)@) == pop_skips(skips_view(old(skips)@), depth as int),
        final(skips)@.len() <= old(skips)@.len(),
{
    loop
        invariant
            pop_skips(skips_view(old(skips)@), depth as int) == pop_skips(skips_view(skips@), depth as int),
            skips@.len() <= old(skips)@.len(),
        decreases skips.len(),
    {
        let n = skips.len();
        if n == 0 {
            return;
        }
        let top = skips[n - 1];
        if depth <= top {
            let ghost before = skips@;
            skips.pop();
            assert(skips_view(before).drop_last() =~= skips_view(skips@));
        } else {
            return;
        }
    }
}

fn pop_closed_impls(impls: &mut Vec<(i64, Vec<char>)>, depth: i64)
    ensures
        impls_view(final(impls)@) == pop_impls(impls_view(old(impls)@), depth as int),
{
    loop
        invariant
            pop_impls(impls_view(old(impls)@), depth as int) == pop_impls(impls_view(impls@), depth as int),
        decreases impls.len(),
    {
        let n = impls.len();
        if n == 0 {
            return;
        }
        let top = impls[n - 1].0;
        if depth <= top {
            let ghost before = impls@;
            impls.pop();
            assert(impls_view(before).drop_last() =~= impls_view(impls@));
        } else {
            return;
        }
    }
}

/// One step of the scanner: reads line `v.i`, updates the state, and gives the
/// item it declares and the submodule to descend into.
fn scan_line_exec(
    v: &mut ScanVars,
    lines: &Vec<Vec<char>>,
    module: &Vec<char>,
    file_label: &String,
    Ghost(ctx): Ghost<ScanCtx>,
) -> (r: (Option<ApiItem>, Option<Vec<char>>))
    requires
        old(v).i < lines@.len() <= i32::MAX,
        forall|j: int| 0 <= j < lines@.len() ==> #[trigger] lines@[j]@.len() <= i32::MAX,
        depth_bounded(*old(v)),
        ctx.lines == lines@.map_values(|l: Vec<char>| l@),
        ctx.module == module@,
        0 <= ctx.file < ctx.files.len(),
        slashes(ctx.files[ctx.file].0) == file_label@,
    ensures
        vars_view(*final(v)) == scan_line(ctx, vars_view(*old(v))).0,
        (match r.0 {
            Some(it) => Some(it@),
            None => None,
        }) == scan_line(ctx, vars_view(*old(v))).1,
        opt_chars(r.1) == scan_line(ctx, vars_view(*old(v))).2,
        depth_bounded(*final(v)),
        old(v).i < final(v).i <= lines@.len(),
{
    let ghost st = vars_view(*v);
    proof {
        lemma_scan_line_advances(ctx, st);
    }
    let raw = &lines[v.i];
    assert(ctx.lines[v.i as int] == raw@);
    proof {
        lemma_trim_len(raw@);
    }
    let line = trim_chars(raw);
    let next = v.i + 1;
    if v.in_comment {
        if contains_str(&line, "*/") {
            v.in_comment = false;
        }
        v.i = next;
        return (None, None);
    }
    if has_prefix(&line, "/*") && !contains_str(&line, "*/") {
        v.in_comment = true;
        v.i = next;
        return (None, None);
    }
    if has_prefix(&line, "//") {
        v.i = next;
        return (None, None);
    }
    if (has_prefix(&line, "#[cfg(") && !has_prefix(&line, "#[cfg(test)")) || has_prefix(&line, "#[cfg_attr(") {
        if let Some(c) = extract_cfg_chars(&line) {
            v.cfg = Some(c);
        }
        v.i = next;
        return (None, None);
    }
    if contains_str(&line, "#[doc(hidden)]") {
        v.hidden = true;
        v.i = next;
        return (None, None);
    }
    let change = count_braces_chars(&line);
    let old_depth = v.depth;
    v.depth = v.depth + change as i64;
    pop_closed_skips(&mut v.skips, v.depth);
    if contains_str(&line, "macro_rules!") {
        if change > 0 {
            v.skips.push(old_depth);
            proof {
                assert(skips_view(v.skips@) =~= pop_skips(st.skips, v.depth as int).push(old_depth as int));
            }
        }
        v.i = next;
        return (None, None);
    }
    if has_prefix(&line, "mod ") && !has_prefix(&line, "mod test") && has_char(&line, '{') {
        v.skips.push(old_depth);
        proof {
            assert(skips_view(v.skips@) =~= pop_skips(st.skips, v.depth as int).push(old_depth as int));
        }
        v.i = next;
        return (None, None);
    }
    if v.skips.len() > 0 {
        v.i = next;
        return (None, None);
    }
    if has_prefix(&line, "impl") || (has_prefix(&line, "pub") && contains_str(&line, " impl ")) {
        if let Some(n) = parse_impl_header_chars(&line) {
            let ghost before = v.impls@;
            v.impls.push((old_depth, n));
            proof {
                assert(impls_view(v.impls@) =~= impls_view(before).push((old_depth as int, n@)));
            }
        }
    }
    pop_closed_impls(&mut v.impls, v.depth);
    if !has_prefix(&line, "pub ") && !has_prefix(&line, "pub(") {
        if !(line.len() == 0 || has_prefix(&line, "#")) {
            v.cfg = None;
            v.hidden = false;
        }
        v.i = next;
        return (None, None);
    }
    if has_prefix(&line, "pub(") || v.hidden {
        v.cfg = None;
        v.hidden = false;
        v.i = next;
        return (None, None);
    }
    let cfg = v.cfg.take();
    v.hidden = false;
    let line_num = next;
    let n_impls = v.impls.len();
    let impl_type: Option<&Vec<char>> = if n_impls > 0 {
        Some(&v.impls[n_impls - 1].1)
    } else {
        None
    };
    proof {
        if n_impls > 0 {
            assert(impls_view(v.impls@).last().1 == v.impls@[n_impls - 1].1@);
        }
    }
    let mut j = v.i;
    let parsed = parse_pub_item(&line, lines, &mut j, module, impl_type);
    v.i = j + 1;
    match parsed {
        Some((path, kind, signature, name)) => {
            let sub = if kind == ItemKind::Module && name.len() > 0 {
                Some(name)
            } else {
                None
            };
            let cfg_text = match cfg {
                Some(c) => Some(from_chars(&c)),
                None => None,
            };
            let item = ApiItem {
                path: from_chars(&path),
                kind,
                signature: from_chars(&signature),
                file: file_label.clone(),
                line: line_num,
                cfg: cfg_text,
            };
            (Some(item), sub)
        },
        None => (None, None),
    }
}


pub open spec fn items_view(items: Seq<ApiItem>) -> Seq<ApiItemView> {
    items.map_values(|it: ApiItem| it@)
}

fn slashes_chars(s: &Vec<char>) -> (r: Vec<char>)
    ensures
        r@ == slashes(s@),
{
    let mut r: Vec<char> = Vec::new();
    let mut i: usize = 0;
    while i < s.len()
        invariant
            i <= s.len(),
            r@ == slashes(s@.take(i as int)),
        decreases s.len() - i,
    {
        let c = s[i];
        r.push(if c == '\\' { '/' } else { c });
        i += 1;
        assert(r@ =~= slashes(s@.take(i as int)));
    }
    assert(s@.take(s.len() as int) =~= s@);
    r
}

/// Scan a single module file and recurse into submodules.
fn scan_module(
    tree: &SourceTree,
    f: usize,
    module: &Vec<char>,
    stack: &mut Vec<usize>,
    items: &mut Vec<ApiItem>,
)
    requires
        tree.wf(),
        f < tree.files@.len(),
        old(stack)@.len() <= tree.files@.len(),
    ensures
        final(stack)@ == old(stack)@,
        items_view(final(items)@) == items_view(old(items)@) + scan_file(
            tree.files_view(),
            f as int,
            module@,
            old(stack)@,
        ),
    decreases tree.files@.len() - old(stack)@.len(),
{
    let ghost files = tree.files_view();
    let content = match &tree.files[f].content {
        Some(c) => c,
        None => {
            assert(items_view(items@) =~= items_view(old(items)@) + Seq::<ApiItemView>::empty());
            return;
        },
    };
    assert(files[f as int].1 == Some(content@));
    let text = to_chars(content.as_str());
    proof {
        lemma_lines_bounded(text@);
    }
    let lines = split_lines(&text);
    let ghost lv = lines@.map_values(|l: Vec<char>| l@);
    assert(lv =~= crate::text::lines(text@));
    let path = to_chars(tree.files[f].path.as_str());
    let file_label = from_chars(&slashes_chars(&path));
    let ghost ctx = ScanCtx { files, file: f as int, lines: lv, module: module@, stack: stack@ };
    let mut v = ScanVars {
        i: 0,
        depth: 0,
        impls: Vec::new(),
        skips: Vec::new(),
        cfg: None,
        hidden: false,
        in_comment: false,
    };
    assert(vars_view(v) =~= initial_state()) by {
        assert(impls_view(v.impls@) =~= Seq::empty());
        assert(skips_view(v.skips@) =~= Seq::empty());
    }
    let ghost base = items_view(items@);
    assert(base =~= items_view(old(items)@));
    let ghost total = scan_lines(ctx, initial_state());
    assert(scan_file(files, f as int, module@, stack@) == total);
    let ghost mut done: Seq<ApiItemView> = Seq::empty();
    assert(items_view(items@) =~= base + done);
    assert(done + total =~= total);
    while v.i < lines.len()
        invariant
            tree.wf(),
            f < tree.files@.len(),
            files == tree.files_view(),
            ctx == (ScanCtx { files, file: f as int, lines: lv, module: module@, stack: stack@ }),
            stack@ == old(stack)@,
            stack@.len() <= tree.files@.len(),
            lv == lines@.map_values(|l: Vec<char>| l@),
            lines@.len() <= i32::MAX,
            forall|j: int| 0 <= j < lines@.len() ==> #[trigger] lines@[j]@.len() <= i32::MAX,
            v.i <= lines@.len(),
            depth_bounded(v),
            slashes(files[f as int].0) == file_label@,
            items_view(items@) == base + done,
            done + scan_lines(ctx, vars_view(v)) == total,
        decreases lines.len() - v.i,
    {
        let ghost st = vars_view(v);
        let (item, sub) = scan_line_exec(&mut v, &lines, module, &file_label, Ghost(ctx));
        let ghost here = match item { Some(ref it) => seq![it@], None => Seq::<ApiItemView>::empty() };
        let ghost below = match (scan_line(ctx, st).1, scan_line(ctx, st).2) {
            (Some(it), Some(name)) => match spec_find_module_file(files, files[f as int].0, name) {
                Some(g) => if !stack@.contains(g as usize) && stack@.len() < files.len() {
                    scan_file(files, g, it.path, stack@.push(g as usize))
                } else {
                    Seq::empty()
                },
                None => Seq::empty(),
            },
            _ => Seq::empty(),
        };
        assert(scan_lines(ctx, st) == here + below + scan_lines(ctx, vars_view(v)));
        let ghost before_push = items@;
        match item {
            Some(it) => {
                let ghost itv = it@;
                let it_path = to_chars(it.path.as_str());
                items.push(it);
                assert(items_view(items@) =~= items_view(before_push) + seq![itv]);
                if let Some(name) = sub {
                    let parent = to_chars(tree.files[f].path.as_str());
                    match find_module_file(tree, &parent, &name) {
                        Some(g) => {
                            if !vec_contains(stack, g) && stack.len() < tree.files.len() {
                                let ghost mid = items_view(items@);
                                stack.push(g);
                                scan_module(tree, g, &it_path, stack, items);
                                stack.pop();
                                assert(stack@ =~= old(stack)@);
                            }
                        },
                        None => {},
                    }
                }
            },
            None => {},
        }
        assert(items_view(items@) =~= base + (done + here + below));
        proof {
            assert((done + here + below) + scan_lines(ctx, vars_view(v)) =~= done + scan_lines(ctx, st));
            done = done + here + below;
        }
    }
    assert(scan_lines(ctx, vars_view(v)) =~= Seq::<ApiItemView>::empty());
}

fn vec_contains(v: &Vec<usize>, x: usize) -> (r: bool)
    ensures
        r == v@.contains(x),
{
    let mut i: usize = 0;
    while i < v.len()
        invariant
            i <= v.len(),
            forall|k: int| 0 <= k < i ==> v@[k] != x,
        decreases v.len() - i,
    {
        if v[i] == x {
            return true;
        }
        i += 1;
    }
    false
}


// ---------------------------------------------------------------------------
// The crate

/// The module name of a crate: its name with `-` replaced by `_`.
pub open spec fn crate_module_name(name: Seq<char>) -> Seq<char> {
    name.map_values(|c: char| if c == '-' { '_' } else { c })
}

/// The public items of a crate: those of its root module `src/lib.rs`, or
/// `src/main.rs` when there is no `src/lib.rs`, and of the modules it declares.
pub open spec fn spec_scan_public_api(files: Seq<(Seq<char>, Option<Seq<char>>)>, crate_name: Seq<char>) -> Seq<ApiItemView> {
    let root = match file_index(files, "src/lib.rs"@) {
        Some(k) => Some(k),
        None => file_index(files, "src/main.rs"@),
    };
    match root {
        Some(k) => scan_file(files, k, crate_module_name(crate_name), seq![k as usize]),
        None => Seq::empty(),
    }
}

pub fn crate_module_name_chars(s: &Vec<char>) -> (r: Vec<char>)
    ensures
        r@ == crate_module_name(s@),
{
    let mut r: Vec<char> = Vec::new();
    let mut i: usize = 0;
    while i < s.len()
        invariant
            i <= s.len(),
            r@ == crate_module_name(s@.take(i as int)),
        decreases s.len() - i,
    {
        let c = s[i];
        r.push(if c == '-' { '_' } else { c });
        i += 1;
        assert(r@ =~= crate_module_name(s@.take(i as int)));
    }
    assert(s@.take(s.len() as int) =~= s@);
    r
}

/// Scan a crate's files for public API items.
pub fn scan_public_api(tree: &SourceTree, crate_name: &str) -> (r: Vec<ApiItem>)
    requires
        tree.wf(),
    ensures
        items_view(r@) == spec_scan_public_api(tree.files_view(), crate_name@),
{
    let mut items: Vec<ApiItem> = Vec::new();
    let lib = to_chars("src/lib.rs");
    let main = to_chars("src/main.rs");
    let root = match find_file(tree, &lib) {
        Some(k) => k,
        None => match find_file(tree, &main) {
            Some(k) => k,
            None => return items,
        },
    };
    let name = to_chars(crate_name);
    let module = crate_module_name_chars(&name);
    let mut stack: Vec<usize> = Vec::new();
    stack.push(root);
    assert(stack@ =~= seq![root]);
    scan_module(tree, root, &module, &mut stack, &mut items);
    assert(items_view(items@) =~= spec_scan_public_api(tree.files_view(), crate_name@));
    items
}

// ---------------------------------------------------------------------------
// Output

/// The heading printed before an item of module `module` that follows an item
/// of module `current`: none when the module is the same.
pub open spec fn entry_heading(module: Seq<char>, current: Seq<char>) -> Seq<char> {
    if module != current {
        (if current.len() > 0 { "\n"@ } else { Seq::empty() }) + "# "@ + module + "\n\n"@
    } else {
        Seq::empty()
    }
}

/// The cfg gate line of an item, if it has one.
pub open spec fn entry_gate(cfg: Option<Seq<char>>) -> Seq<char> {
    match cfg {
        Some(c) => "  #[cfg("@ + c + ")]\n"@,
        None => Seq::empty(),
    }
}

/// An item's signature with its location `dir/file:line`.
pub open spec fn entry_line(item: ApiItemView, crate_dir: Seq<char>) -> Seq<char> {
    "  "@ + item.signature + "  // "@ + path_join(crate_dir, item.file) + ":"@ + decimal(item.line)
        + "\n"@
}

/// The listing of one item, after an item of module `current`.
pub open spec fn format_entry(item: ApiItemView, crate_dir: Seq<char>, current: Seq<char>) -> Seq<char> {
    entry_heading(spec_item_module(item.path), current) + entry_gate(item.cfg) + entry_line(
        item,
        crate_dir,
    )
}

/// The listings of `items`, the first of which follows an item in module `current`.
pub open spec fn format_entries(items: Seq<ApiItemView>, crate_dir: Seq<char>, current: Seq<char>) -> Seq<char>
    decreases items.len(),
{
    if items.len() == 0 {
        Seq::empty()
    } else {
        format_entry(items[0], crate_dir, current) + format_entries(
            items.drop_first(),
            crate_dir,
            spec_item_module(items[0].path),
        )
    }
}

/// The listing of all items grouped under module headings, with a closing hint
/// when there is any item.
pub open spec fn spec_format_api(crate_name: Seq<char>, crate_dir: Seq<char>, items: Seq<ApiItemView>) -> Seq<char> {
    format_entries(items, crate_dir, Seq::empty()) + if items.len() > 0 {
        "\nHint: Read any file above for full details. Use `cargo read "@ + crate_name
            + "` for README.\n"@
    } else {
        Seq::empty()
    }
}

fn entry_line_chars(item: &ApiItem, crate_dir: &Vec<char>) -> (r: Vec<char>)
    ensures
        r@ == entry_line(item@, crate_dir@),
{
    let mut out = to_chars("  ");
    append_str(&mut out, item.signature.as_str());
    append_str(&mut out, "  // ");
    let file = to_chars(item.file.as_str());
    let loc = path_join_chars(crate_dir, &file);
    append(&mut out, &loc);
    append_str(&mut out, ":");
    push_decimal(&mut out, item.line);
    append_str(&mut out, "\n");
    out
}

fn entry_heading_chars(module: &Vec<char>, current: &Vec<char>) -> (r: Vec<char>)
    ensures
        r@ == entry_heading(module@, current@),
{
    let mut out: Vec<char> = Vec::new();
    if !chars_eq(module, current) {
        if current.len() > 0 {
            append_str(&mut out, "\n");
        }
        append_str(&mut out, "# ");
        append(&mut out, module);
        append_str(&mut out, "\n\n");
    }
    assert(out@ =~= entry_heading(module@, current@));
    out
}

fn entry_gate_chars(cfg: &Option<String>) -> (r: Vec<char>)
    ensures
        r@ == entry_gate(opt_view(*cfg)),
{
    let mut out: Vec<char> = Vec::new();
    match cfg {
        Some(c) => {
            append_str(&mut out, "  #[cfg(");
            append_str(&mut out, c.as_str());
            append_str(&mut out, ")]\n");
        },
        None => {},
    }
    assert(out@ =~= entry_gate(opt_view(*cfg)));
    out
}

fn format_entry_chars(out: &mut Vec<char>, item: &ApiItem, crate_dir: &Vec<char>, current: &Vec<char>) -> (module: Vec<char>)
    ensures
        final(out)@ == old(out)@ + format_entry(item@, crate_dir@, current@),
        module@ == spec_item_module(item@.path),
{
    let path = to_chars(item.path.as_str());
    let module = item_module_chars(&path);
    let h = entry_heading_chars(&module, current);
    let g = entry_gate_chars(&item.cfg);
    let l = entry_line_chars(item, crate_dir);
    append(out, &h);
    append(out, &g);
    append(out, &l);
    assert(out@ =~= old(out)@ + format_entry(item@, crate_dir@, current@));
    module
}

/// Format scanned API items into a human/LLM-readable string.
pub fn format_api(crate_name: &str, crate_dir: &str, items: &[ApiItem]) -> (r: String)
    ensures
        r@ == spec_format_api(crate_name@, crate_dir@, items@.map_values(|it: ApiItem| it@)),
{
    let ghost all = items@.map_values(|it: ApiItem| it@);
    let dir = to_chars(crate_dir);
    let mut out: Vec<char> = Vec::new();
    let mut current: Vec<char> = Vec::new();
    let mut k: usize = 0;
    assert(all.skip(0) =~= all);
    while k < items.len()
        invariant
            k <= items@.len(),
            all == items@.map_values(|it: ApiItem| it@),
            dir@ == crate_dir@,
            format_entries(all, dir@, Seq::empty()) == out@ + format_entries(all.skip(k as int), dir@, current@),
        decreases items.len() - k,
    {
        assert(all.skip(k as int)[0] == items@[k as int]@);
        assert(all.skip(k as int).drop_first() =~= all.skip(k + 1));
        let module = format_entry_chars(&mut out, &items[k], &dir, &current);
        current = module;
        k += 1;
    }
    if items.len() > 0 {
        append_str(&mut out, "\nHint: Read any file above for full details. Use `cargo read ");
        append_str(&mut out, crate_name);
        append_str(&mut out, "` for README.\n");
    }
    assert(out@ =~= spec_format_api(crate_name@, crate_dir@, all));
    from_chars(&out)
}


// ---------------------------------------------------------------------------
// Laws

/// Every item path in `items` lies under module `m`.
pub open spec fn all_under(items: Seq<ApiItemView>, m: Seq<char>) -> bool {
    forall|i: int| 0 <= i < items.len() ==> starts_with(#[trigger] items[i].path, m + "::"@)
}

proof fn lemma_qualify_under(m: Seq<char>, x: Seq<char>)
    ensures
        starts_with(qualify(m, x), m + "::"@),
{
    assert(qualify(m, x).subrange(0, (m + "::"@).len() as int) =~= m + "::"@);
}

proof fn lemma_under_trans(p: Seq<char>, q: Seq<char>, m: Seq<char>)
    requires
        starts_with(p, q + "::"@),
        starts_with(q, m + "::"@),
    ensures
        starts_with(p, m + "::"@),
{
    let k = (m + "::"@).len() as int;
    assert(p.subrange(0, k) =~= (q + "::"@).subrange(0, k));
    assert((q + "::"@).subrange(0, k) =~= q.subrange(0, k));
}

proof fn lemma_under_concat(a: Seq<ApiItemView>, b: Seq<ApiItemView>, m: Seq<char>)
    requires
        all_under(a, m),
        all_under(b, m),
    ensures
        all_under(a + b, m),
{
    assert forall|i: int| 0 <= i < (a + b).len() implies starts_with(#[trigger] (a + b)[i].path, m + "::"@) by {
        if i < a.len() {
            assert((a + b)[i] == a[i]);
        } else {
            assert((a + b)[i] == b[i - a.len()]);
        }
    }
}

proof fn lemma_parse_pub_item_under(
    first_line: Seq<char>,
    lines: Seq<Seq<char>>,
    i: int,
    module: Seq<char>,
    impl_type: Option<Seq<char>>,
)
    ensures
        spec_parse_pub_item(first_line, lines, i, module, impl_type).0 matches Some(t) ==> starts_with(
            t.0,
            module + "::"@,
        ),
{
    if starts_with(first_line, "pub "@) {
        let rest = first_line.skip("pub "@.len() as int);
        if starts_with(rest, "use "@) {
            let u = trim(strip_trailing(trim(rest.skip("use "@.len() as int)), ';'));
            lemma_qualify_under(module, "{re-exports}"@);
            let last = trim_segment_end(trim_segment_start(last_segment(u)));
            lemma_qualify_under(module, last);
        } else if starts_with(rest, "mod "@) {
            lemma_qualify_under(module, ident_prefix(rest.skip("mod "@.len() as int)));
        } else if let Some((kind, after)) = item_keyword(rest) {
            let name = ident_prefix(after);
            match impl_type {
                Some(t) => {
                    lemma_qualify_under(qualify(module, t), name);
                    lemma_qualify_under(module, t);
                    lemma_under_trans(qualify(qualify(module, t), name), qualify(module, t), module);
                },
                None => lemma_qualify_under(module, name),
            }
        }
    }
}

proof fn lemma_scan_lines_under(ctx: ScanCtx, st: ScanState)
    ensures
        all_under(scan_lines(ctx, st), ctx.module),
    decreases ctx.files.len() - ctx.stack.len(), 0int, ctx.lines.len() - st.i,
{
    if 0 <= st.i < ctx.lines.len() {
        let (next, item, sub) = scan_line(ctx, st);
        let here = match item {
            Some(it) => seq![it],
            None => Seq::empty(),
        };
        let below = match (item, sub) {
            (Some(it), Some(name)) => match spec_find_module_file(ctx.files, ctx.files[ctx.file].0, name) {
                Some(g) => if !ctx.stack.contains(g as usize) && ctx.stack.len() < ctx.files.len() {
                    scan_file(ctx.files, g, it.path, ctx.stack.push(g as usize))
                } else {
                    Seq::empty()
                },
                None => Seq::empty(),
            },
            _ => Seq::empty(),
        };
        lemma_scan_line_advances(ctx, st);
        let line = trim(ctx.lines[st.i]);
        let impls = scan_line(ctx, st).0.impls;
        let impl_type = if impls.len() > 0 { Some(impls.last().1) } else { None };
        lemma_parse_pub_item_under(line, ctx.lines, st.i, ctx.module, impl_type);
        assert(all_under(here, ctx.module));
        if let (Some(it), Some(name)) = (item, sub) {
            if let Some(g) = spec_find_module_file(ctx.files, ctx.files[ctx.file].0, name) {
                if !ctx.stack.contains(g as usize) && ctx.stack.len() < ctx.files.len() {
                    lemma_scan_file_under(ctx.files, g, it.path, ctx.stack.push(g as usize));
                    let sub_items = scan_file(ctx.files, g, it.path, ctx.stack.push(g as usize));
                    assert forall|j: int| 0 <= j < sub_items.len() implies starts_with(
                        #[trigger] sub_items[j].path,
                        ctx.module + "::"@,
                    ) by {
                        lemma_under_trans(sub_items[j].path, it.path, ctx.module);
                    }
                }
            }
        }
        assert(all_under(below, ctx.module));
        lemma_scan_lines_under(ctx, next);
        lemma_under_concat(here, below, ctx.module);
        lemma_under_concat(here + below, scan_lines(ctx, next), ctx.module);
    }
}

proof fn lemma_scan_file_under(
    files: Seq<(Seq<char>, Option<Seq<char>>)>,
    f: int,
    module: Seq<char>,
    stack: Seq<usize>,
)
    ensures
        all_under(scan_file(files, f, module, stack), module),
    decreases files.len() - stack.len(), 1int, 0int,
{
    if 0 <= f < files.len() {
        if let Some(content) = files[f].1 {
            lemma_scan_lines_under(
                ScanCtx { files, file: f, lines: lines(content), module, stack },
                initial_state(),
            );
        }
    }
}

/// Every item that the scanner finds has a path under the crate's module:
/// `crate_name` with `-` as `_`, then `::`.
pub proof fn lemma_scan_paths_qualified(files: Seq<(Seq<char>, Option<Seq<char>>)>, crate_name: Seq<char>)
    ensures
        all_under(spec_scan_public_api(files, crate_name), crate_module_name(crate_name)),
{
    let root = match file_index(files, "src/lib.rs"@) {
        Some(k) => Some(k),
        None => file_index(files, "src/main.rs"@),
    };
    if let Some(k) = root {
        lemma_scan_file_under(files, k, crate_module_name(crate_name), seq![k as usize]);
    }
}


proof fn lemma_sub_no_char(s: Seq<char>, a: int, b: int, x: char)
    requires
        0 <= a <= b <= s.len(),
        !s.contains(x),
    ensures
        !s.subrange(a, b).contains(x),
{
    assert forall|j: int| 0 <= j < b - a implies s.subrange(a, b)[j] != x by {
        assert(s.subrange(a, b)[j] == s[a + j]);
    }
}

/// A truncated signature holds no `{`: it ends before the body.
pub proof fn lemma_truncate_sig_no_brace(sig: Seq<char>)
    ensures
        !spec_truncate_sig(sig).contains('{'),
{
    let cut = match find_char(sig, '{') {
        Some(p) => sig.take(p),
        None => sig,
    };
    assert(!cut.contains('{')) by {
        match find_char(sig, '{') {
            Some(p) => {
                lemma_find_char_bounds(sig, '{', 0);
                assert forall|j: int| 0 <= j < p implies sig.take(p)[j] != '{' by {
                    assert(sig.take(p)[j] == sig[j]);
                }
            },
            None => {
                if sig.contains('{') {
                    let j = choose|j: int| 0 <= j < sig.len() && sig[j] == '{';
                    assert(occurs_at(sig, seq!['{'], j)) by {
                        assert(sig.subrange(j, j + 1) =~= seq!['{']);
                    }
                    lemma_find_from_some(sig, seq!['{'], 0, j);
                }
            },
        }
    }
    lemma_collapse_chars(cut, cut.len() as int, '{');
    let c = collapse_ws(cut);
    lemma_strip_trailing_take(c, ';');
    let st = strip_trailing(c, ';');
    let n = choose|n: int| 0 <= n <= c.len() && strip_trailing(c, ';') == c.take(n);
    lemma_sub_no_char(c, 0, n, '{');
    assert(c.take(n) =~= c.subrange(0, n));
    lemma_trim_start_skip(st);
    let ts = trim_start(st);
    lemma_sub_no_char(st, leading_ws(st) as int, st.len() as int, '{');
    assert(st.skip(leading_ws(st) as int) =~= st.subrange(leading_ws(st) as int, st.len() as int));
    lemma_trim_end_take(ts);
    lemma_sub_no_char(ts, 0, ts.len() - trailing_ws(ts), '{');
    assert(ts.take(ts.len() - trailing_ws(ts)) =~= ts.subrange(0, ts.len() - trailing_ws(ts)));
}

/// The module of a path built as `module::name` is `module`, when `name` holds no `:`.
pub proof fn lemma_item_module_of_qualified(module: Seq<char>, name: Seq<char>)
    requires
        !name.contains(':'),
    ensures
        spec_item_module(qualify(module, name)) == module,
{
    let s = qualify(module, name);
    let m = module.len() as int;
    assert(occurs_at(s, "::"@, m)) by {
        reveal_strlit("::");
        assert(s.subrange(m, m + 2) =~= "::"@);
    }
    assert(s.take(m) =~= module);
    lemma_rfind_down(s, name, m, s.len() - "::"@.len());
}

proof fn lemma_rfind_down(s: Seq<char>, name: Seq<char>, m: int, k: int)
    requires
        0 <= m <= k,
        s == qualify(s.take(m), name),
        occurs_at(s, "::"@, m),
        !name.contains(':'),
    ensures
        rfind_upto(s, "::"@, k) == Some(m),
    decreases k - m,
{
    reveal_strlit("::");
    if k > m {
        assert(!occurs_at(s, "::"@, k)) by {
            if occurs_at(s, "::"@, k) {
                assert(s.subrange(k, k + 2)[1] == ':');
                assert(s[k + 1] == ':');
                assert(s[k + 1] == name[k + 1 - m - 2]);
            }
        }
        lemma_rfind_down(s, name, m, k - 1);
    }
}


/// `item` is declared on a line of its file that starts with `pub `.
pub open spec fn declared_on_pub_line(files: Seq<(Seq<char>, Option<Seq<char>>)>, item: ApiItemView) -> bool {
    exists|f: int|
        0 <= f < files.len() && slashes(#[trigger] files[f].0) == item.file && (files[f].1 matches Some(c)
            && 1 <= item.line <= lines(c).len() && starts_with(trim(lines(c)[item.line - 1]), "pub "@))
}

pub open spec fn all_pub(files: Seq<(Seq<char>, Option<Seq<char>>)>, items: Seq<ApiItemView>) -> bool {
    forall|i: int| 0 <= i < items.len() ==> declared_on_pub_line(files, #[trigger] items[i])
}

proof fn lemma_pub_concat(files: Seq<(Seq<char>, Option<Seq<char>>)>, a: Seq<ApiItemView>, b: Seq<ApiItemView>)
    requires
        all_pub(files, a),
        all_pub(files, b),
    ensures
        all_pub(files, a + b),
{
    assert forall|i: int| 0 <= i < (a + b).len() implies declared_on_pub_line(files, #[trigger] (a + b)[i]) by {
        if i < a.len() {
            assert((a + b)[i] == a[i]);
        } else {
            assert((a + b)[i] == b[i - a.len()]);
        }
    }
}

proof fn lemma_scan_lines_pub(ctx: ScanCtx, st: ScanState)
    requires
        0 <= ctx.file < ctx.files.len(),
        ctx.files[ctx.file].1 matches Some(c) && ctx.lines == lines(c),
    ensures
        all_pub(ctx.files, scan_lines(ctx, st)),
    decreases ctx.files.len() - ctx.stack.len(), 0int, ctx.lines.len() - st.i,
{
    if 0 <= st.i < ctx.lines.len() {
        let (next, item, sub) = scan_line(ctx, st);
        let here = match item {
            Some(it) => seq![it],
            None => Seq::empty(),
        };
        let below = match (item, sub) {
            (Some(it), Some(name)) => match spec_find_module_file(ctx.files, ctx.files[ctx.file].0, name) {
                Some(g) => if !ctx.stack.contains(g as usize) && ctx.stack.len() < ctx.files.len() {
                    scan_file(ctx.files, g, it.path, ctx.stack.push(g as usize))
                } else {
                    Seq::empty()
                },
                None => Seq::empty(),
            },
            _ => Seq::empty(),
        };
        lemma_scan_line_advances(ctx, st);
        if let Some(it) = item {
            assert(declared_on_pub_line(ctx.files, it)) by {
                assert(slashes(ctx.files[ctx.file].0) == it.file);
            }
        }
        assert(all_pub(ctx.files, here));
        if let (Some(it), Some(name)) = (item, sub) {
            if let Some(g) = spec_find_module_file(ctx.files, ctx.files[ctx.file].0, name) {
                if !ctx.stack.contains(g as usize) && ctx.stack.len() < ctx.files.len() {
                    lemma_scan_file_pub(ctx.files, g, it.path, ctx.stack.push(g as usize));
                }
            }
        }
        assert(all_pub(ctx.files, below));
        lemma_scan_lines_pub(ctx, next);
        lemma_pub_concat(ctx.files, here, below);
        lemma_pub_concat(ctx.files, here + below, scan_lines(ctx, next));
    }
}

proof fn lemma_scan_file_pub(
    files: Seq<(Seq<char>, Option<Seq<char>>)>,
    f: int,
    module: Seq<char>,
    stack: Seq<usize>,
)
    ensures
        all_pub(files, scan_file(files, f, module, stack)),
    decreases files.len() - stack.len(), 1int, 0int,
{
    if 0 <= f < files.len() {
        if let Some(content) = files[f].1 {
            lemma_scan_lines_pub(
                ScanCtx { files, file: f, lines: lines(content), module, stack },
                initial_state(),
            );
        }
    }
}

/// Every item that the scanner finds is declared on a line that starts with
/// `pub ` in a file of the crate, at the line the item records: restricted
/// visibility such as `pub(crate)` never yields an item.
pub proof fn lemma_scan_items_declared_pub(files: Seq<(Seq<char>, Option<Seq<char>>)>, crate_name: Seq<char>)
    ensures
        all_pub(files, spec_scan_public_api(files, crate_name)),
{
    let root = match file_index(files, "src/lib.rs"@) {
        Some(k) => Some(k),
        None => file_index(files, "src/main.rs"@),
    };
    if let Some(k) = root {
        lemma_scan_file_pub(files, k, crate_module_name(crate_name), seq![k as usize]);
    }
}

/// How many times `c` occurs in `s`.
pub open spec fn char_count(s: Seq<char>, c: char) -> int
    decreases s.len(),
{
    if s.len() == 0 {
        0
    } else {
        (if s[0] == c { 1int } else { 0int }) + char_count(s.drop_first(), c)
    }
}

proof fn lemma_braces_from_plain(s: Seq<char>, i: int)
    requires
        0 <= i <= s.len(),
        !s.contains('"'),
        !s.contains('\''),
        !s.contains('/'),
    ensures
        braces_from(s, i, LexMode::Code) == char_count(s.skip(i), '{') - char_count(s.skip(i), '}'),
    decreases s.len() - i,
{
    if i < s.len() {
        assert(s.skip(i).drop_first() =~= s.skip(i + 1));
        assert(s.skip(i)[0] == s[i]);
        lemma_braces_from_plain(s, i + 1);
    }
}

/// On a line without quotes, apostrophes or slashes, the brace count is the
/// number of `{` less the number of `}`.
pub proof fn lemma_brace_delta_plain(s: Seq<char>)
    requires
        !s.contains('"'),
        !s.contains('\''),
        !s.contains('/'),
    ensures
        brace_delta(s) == char_count(s, '{') - char_count(s, '}'),
{
    lemma_braces_from_plain(s, 0);
    assert(s.skip(0) =~= s);
}

/// A pattern holding a character that the text lacks is not found in it.
proof fn lemma_find_from_missing_char(s: Seq<char>, p: Seq<char>, c: char, k: int)
    requires
        p.contains(c),
        !s.contains(c),
    ensures
        find_from(s, p, k) is None,
    decreases s.len() + 1 - k,
{
    if !(k < 0 || k + p.len() > s.len()) {
        if occurs_at(s, p, k) {
            let j = choose|j: int| 0 <= j < p.len() && p[j] == c;
            assert(s.subrange(k, k + p.len())[j] == s[k + j]);
            assert(false);
        }
        lemma_find_from_missing_char(s, p, c, k + 1);
    }
}

/// The identifier prefix of an identifier followed by `;` is the identifier.
proof fn lemma_ident_prefix_semicolon(n: Seq<char>)
    requires
        forall|j: int| 0 <= j < n.len() ==> is_ident_char(#[trigger] n[j]),
    ensures
        ident_prefix(n + seq![';']) == n,
    decreases n.len(),
{
    let t = n + seq![';'];
    if n.len() == 0 {
        assert(t[0] == ';');
    } else {
        assert(t[0] == n[0]);
        assert(t.drop_first() =~= n.drop_first() + seq![';']);
        assert forall|j: int| 0 <= j < n.drop_first().len() implies is_ident_char(#[trigger] n.drop_first()[j]) by {
            assert(n.drop_first()[j] == n[j + 1]);
        }
        lemma_ident_prefix_semicolon(n.drop_first());
        assert(seq![n[0]] + n.drop_first() =~= n);
    }
}

/// A line `pub mod n;` (with `n` an identifier), read outside comments and
/// skipped scopes and not after `#[doc(hidden)]`, yields the module's item:
/// path `module::n`, kind `Module`, signature `pub mod n`, at its own line.
/// The items of the module's file, when it is found (and is not a file
/// already being scanned), follow that item, before the rest of the file's items.
pub proof fn lemma_pub_mod_then_submodule(ctx: ScanCtx, st: ScanState, n: Seq<char>)
    requires
        0 <= st.i < ctx.lines.len(),
        trim(ctx.lines[st.i]) == "pub mod "@ + n + ";"@,
        n.len() > 0,
        forall|j: int| 0 <= j < n.len() ==> is_ident_char(#[trigger] n[j]),
        !st.in_comment,
        !st.hidden,
        st.skips.len() == 0,
    ensures
        ({
            let (next, item, sub) = scan_line(ctx, st);
            let it = ApiItemView {
                path: qualify(ctx.module, n),
                kind: ItemKind::Module,
                signature: "pub mod "@ + n,
                file: slashes(ctx.files[ctx.file].0),
                line: (st.i + 1) as nat,
                cfg: st.cfg,
            };
            &&& item == Some(it)
            &&& sub == Some(n)
            &&& next.i == st.i + 1
            &&& scan_lines(ctx, st) == seq![it] + match spec_find_module_file(ctx.files, ctx.files[ctx.file].0, n) {
                Some(g) => if !ctx.stack.contains(g as usize) && ctx.stack.len() < ctx.files.len() {
                    scan_file(ctx.files, g, it.path, ctx.stack.push(g as usize))
                } else {
                    Seq::empty()
                },
                None => Seq::empty(),
            } + scan_lines(ctx, next)
        }),
{
    reveal_strlit("pub mod ");
    reveal_strlit(";");
    reveal_strlit("/*");
    reveal_strlit("//");
    reveal_strlit("#[cfg(");
    reveal_strlit("#[cfg_attr(");
    reveal_strlit("#[doc(hidden)]");
    reveal_strlit("macro_rules!");
    reveal_strlit("mod ");
    reveal_strlit("mod test");
    reveal_strlit("impl");
    reveal_strlit("pub ");
    reveal_strlit("pub(");
    reveal_strlit("use ");
    let line = trim(ctx.lines[st.i]);
    let m = n.len();
    assert(line.len() == 9 + m);
    assert(line[0] == 'p' && line[1] == 'u' && line[2] == 'b' && line[3] == ' ');
    assert(line[4] == 'm' && line[5] == 'o' && line[6] == 'd' && line[7] == ' ');
    assert forall|k: int| 0 <= k < line.len() implies line[k] != '#' && line[k] != '!' by {
        if 8 <= k < 8 + m {
            assert(line[k] == n[k - 8]);
            assert(is_ident_char(n[k - 8]));
        } else if k == 8 + m {
            assert(line[k] == ';');
        }
    }
    assert(!starts_with(line, "/*"@)) by { assert(line.subrange(0, 2)[0] == line[0]); }
    assert(!starts_with(line, "//"@)) by { assert(line.subrange(0, 2)[0] == line[0]); }
    assert(!starts_with(line, "#[cfg("@)) by { assert(line.subrange(0, 6)[0] == line[0]); }
    assert(!starts_with(line, "#[cfg_attr("@)) by {
        if line.len() >= 11 {
            assert(line.subrange(0, 11)[0] == line[0]);
        }
    }
    assert(!contains(line, "#[doc(hidden)]"@)) by {
        assert("#[doc(hidden)]"@[0] == '#');
        lemma_find_from_missing_char(line, "#[doc(hidden)]"@, '#', 0);
    }
    assert(!contains(line, "macro_rules!"@)) by {
        assert("macro_rules!"@[11] == '!');
        lemma_find_from_missing_char(line, "macro_rules!"@, '!', 0);
    }
    assert(!starts_with(line, "mod "@)) by { assert(line.subrange(0, 4)[0] == line[0]); }
    assert(!starts_with(line, "impl"@)) by { assert(line.subrange(0, 4)[0] == line[0]); }
    assert(starts_with(line, "pub "@)) by { assert(line.subrange(0, 4) =~= "pub "@); }
    assert(!starts_with(line, "pub("@)) by { assert(line.subrange(0, 4)[3] == line[3]); }
    let rest = line.skip(4);
    assert(rest =~= "mod "@ + n + ";"@);
    assert(!starts_with(rest, "use "@)) by { assert(rest.subrange(0, 4)[0] == rest[0]); }
    assert(starts_with(rest, "mod "@)) by { assert(rest.subrange(0, 4) =~= "mod "@); }
    assert(rest.skip(4) =~= n + seq![';']);
    lemma_ident_prefix_semicolon(n);
}

/// The identifier prefix of an identifier followed by text that does not
/// continue it is the identifier.
proof fn lemma_ident_prefix_stop(n: Seq<char>, tail: Seq<char>)
    requires
        forall|j: int| 0 <= j < n.len() ==> is_ident_char(#[trigger] n[j]),
        tail.len() == 0 || !is_ident_char(tail[0]),
    ensures
        ident_prefix(n + tail) == n,
    decreases n.len(),
{
    let t = n + tail;
    if n.len() == 0 {
        assert(t =~= tail);
    } else {
        assert(t[0] == n[0]);
        assert(t.drop_first() =~= n.drop_first() + tail);
        assert forall|j: int| 0 <= j < n.drop_first().len() implies is_ident_char(#[trigger] n.drop_first()[j]) by {
            assert(n.drop_first()[j] == n[j + 1]);
        }
        lemma_ident_prefix_stop(n.drop_first(), tail);
        assert(seq![n[0]] + n.drop_first() =~= n);
    }
}

/// The item keywords that the scanner recognises after `pub `, each with the
/// kind of item it declares.
pub open spec fn declares(kw: Seq<char>, kind: ItemKind) -> bool {
    ||| kw == "fn "@ && kind == ItemKind::Function
    ||| kw == "async fn "@ && kind == ItemKind::Function
    ||| kw == "unsafe fn "@ && kind == ItemKind::Function
    ||| kw == "const fn "@ && kind == ItemKind::Function
    ||| kw == "struct "@ && kind == ItemKind::Struct
    ||| kw == "enum "@ && kind == ItemKind::Enum
    ||| kw == "trait "@ && kind == ItemKind::Trait
    ||| kw == "type "@ && kind == ItemKind::Type
    ||| kw == "const "@ && kind == ItemKind::Const
    ||| kw == "static "@ && kind == ItemKind::Static
    ||| kw == "macro "@ && kind == ItemKind::Macro
}

/// `p` is not a prefix of `s` when they differ at position `j`.
proof fn lemma_not_prefix(s: Seq<char>, p: Seq<char>, j: int)
    requires
        0 <= j < p.len(),
        j < s.len() ==> s[j] != p[j],
    ensures
        !starts_with(s, p),
{
    if starts_with(s, p) {
        assert(s.subrange(0, p.len() as int)[j] == s[j]);
    }
}

/// `const NAME...` is not `const fn ...` when the name is not `fn` followed by a space.
proof fn lemma_not_const_fn(rest: Seq<char>, x: Seq<char>)
    requires
        rest == "const "@ + x,
        !starts_with(x, "fn "@),
    ensures
        !starts_with(rest, "const fn "@),
{
    reveal_strlit("const ");
    reveal_strlit("const fn ");
    reveal_strlit("fn ");
    if starts_with(rest, "const fn "@) {
        assert forall|j: int| 0 <= j < 3 implies #[trigger] x.subrange(0, 3)[j] == "fn "@[j] by {
            assert(rest.subrange(0, 9)[j + 6] == rest[j + 6]);
            assert(rest[j + 6] == x[j]);
        }
        assert(x.subrange(0, 3) =~= "fn "@);
    }
}

proof fn lemma_keyword_kind(kw: Seq<char>, kind: ItemKind, n: Seq<char>, tail: Seq<char>)
    requires
        declares(kw, kind),
        n.len() > 0,
        forall|j: int| 0 <= j < n.len() ==> is_ident_char(#[trigger] n[j]),
        tail.len() == 0 || (!is_ident_char(tail[0]) && tail[0] != ' '),
    ensures
        item_keyword(kw + (n + tail)) == Some((kind, n + tail)),
        !starts_with(kw + (n + tail), "use "@),
        !starts_with(kw + (n + tail), "mod "@),
{
    reveal_strlit("fn ");
    reveal_strlit("async fn ");
    reveal_strlit("unsafe fn ");
    reveal_strlit("const fn ");
    reveal_strlit("struct ");
    reveal_strlit("enum ");
    reveal_strlit("trait ");
    reveal_strlit("type ");
    reveal_strlit("const ");
    reveal_strlit("static ");
    reveal_strlit("macro ");
    reveal_strlit("use ");
    reveal_strlit("mod ");
    let x = n + tail;
    let rest = kw + x;
    let k = kw.len() as int;
    assert forall|j: int| 0 <= j < k implies #[trigger] rest[j] == kw[j] by {}
    // A declared name never starts with `fn `: its third character continues
    // the name or is not a space.
    assert(!starts_with(x, "fn "@)) by {
        if starts_with(x, "fn "@) {
            assert(x.subrange(0, 3)[2] == x[2]);
            assert(x.subrange(0, 3)[1] == x[1]);
            if n.len() > 2 {
                assert(x[2] == n[2]);
                assert(is_ident_char(n[2]));
            } else if n.len() == 2 {
                assert(x[2] == tail[0]);
            } else {
                assert(x[1] == tail[0]);
            }
        }
    }
    if kw == "fn "@ {
            lemma_not_prefix(rest, "use "@, 0);
            lemma_not_prefix(rest, "mod "@, 0);
            assert(rest.subrange(0, 3) =~= "fn "@);
            assert(rest.skip(3) =~= x);
    } else if kw == "async fn "@ {
            assert(kw != "const fn "@) by { assert(kw[0] != "const fn "@[0]); }
            lemma_not_prefix(rest, "fn "@, 0);
            lemma_not_prefix(rest, "use "@, 0);
            lemma_not_prefix(rest, "mod "@, 0);
            assert(rest.subrange(0, 9) =~= "async fn "@);
            assert(rest.skip(9) =~= x);
    } else if kw == "unsafe fn "@ {
            lemma_not_prefix(rest, "fn "@, 0);
            lemma_not_prefix(rest, "async fn "@, 0);
            lemma_not_prefix(rest, "use "@, 1);
            lemma_not_prefix(rest, "mod "@, 0);
            assert(rest.subrange(0, 10) =~= "unsafe fn "@);
            assert(rest.skip(10) =~= x);
    } else if kw == "const fn "@ {
            assert(kw != "async fn "@) by { assert(kw[0] != "async fn "@[0]); }
            lemma_not_prefix(rest, "fn "@, 0);
            lemma_not_prefix(rest, "async fn "@, 0);
            lemma_not_prefix(rest, "unsafe fn "@, 0);
            lemma_not_prefix(rest, "use "@, 0);
            lemma_not_prefix(rest, "mod "@, 0);
            assert(rest.subrange(0, 9) =~= "const fn "@);
            assert(rest.skip(9) =~= x);
    } else if kw == "struct "@ {
            assert(kw != "static "@) by { assert(kw[2] != "static "@[2]); }
            lemma_not_prefix(rest, "fn "@, 0);
            lemma_not_prefix(rest, "async fn "@, 0);
            lemma_not_prefix(rest, "unsafe fn "@, 0);
            lemma_not_prefix(rest, "const fn "@, 0);
            lemma_not_prefix(rest, "use "@, 0);
            lemma_not_prefix(rest, "mod "@, 0);
            assert(rest.subrange(0, 7) =~= "struct "@);
            assert(rest.skip(7) =~= x);
    } else if kw == "enum "@ {
            assert(kw != "type "@) by { assert(kw[0] != "type "@[0]); }
            lemma_not_prefix(rest, "fn "@, 0);
            lemma_not_prefix(rest, "async fn "@, 0);
            lemma_not_prefix(rest, "unsafe fn "@, 0);
            lemma_not_prefix(rest, "const fn "@, 0);
            lemma_not_prefix(rest, "struct "@, 0);
            lemma_not_prefix(rest, "use "@, 0);
            lemma_not_prefix(rest, "mod "@, 0);
            assert(rest.subrange(0, 5) =~= "enum "@);
            assert(rest.skip(5) =~= x);
    } else if kw == "trait "@ {
            assert(kw != "const "@) by { assert(kw[0] != "const "@[0]); }
            assert(kw != "macro "@) by { assert(kw[0] != "macro "@[0]); }
            lemma_not_prefix(rest, "fn "@, 0);
            lemma_not_prefix(rest, "async fn "@, 0);
            lemma_not_prefix(rest, "unsafe fn "@, 0);
            lemma_not_prefix(rest, "const fn "@, 0);
            lemma_not_prefix(rest, "struct "@, 0);
            lemma_not_prefix(rest, "enum "@, 0);
            lemma_not_prefix(rest, "use "@, 0);
            lemma_not_prefix(rest, "mod "@, 0);
            assert(rest.subrange(0, 6) =~= "trait "@);
            assert(rest.skip(6) =~= x);
    } else if kw == "type "@ {
            assert(kw != "enum "@) by { assert(kw[0] != "enum "@[0]); }
            lemma_not_prefix(rest, "fn "@, 0);
            lemma_not_prefix(rest, "async fn "@, 0);
            lemma_not_prefix(rest, "unsafe fn "@, 0);
            lemma_not_prefix(rest, "const fn "@, 0);
            lemma_not_prefix(rest, "struct "@, 0);
            lemma_not_prefix(rest, "enum "@, 0);
            lemma_not_prefix(rest, "trait "@, 1);
            lemma_not_prefix(rest, "use "@, 0);
            lemma_not_prefix(rest, "mod "@, 0);
            assert(rest.subrange(0, 5) =~= "type "@);
            assert(rest.skip(5) =~= x);
    } else if kw == "const "@ {
            assert(kw != "trait "@) by { assert(kw[0] != "trait "@[0]); }
            assert(kw != "macro "@) by { assert(kw[0] != "macro "@[0]); }
            lemma_not_prefix(rest, "fn "@, 0);
            lemma_not_prefix(rest, "async fn "@, 0);
            lemma_not_prefix(rest, "unsafe fn "@, 0);
            lemma_not_const_fn(rest, x);
            lemma_not_prefix(rest, "struct "@, 0);
            lemma_not_prefix(rest, "enum "@, 0);
            lemma_not_prefix(rest, "trait "@, 0);
            lemma_not_prefix(rest, "type "@, 0);
            lemma_not_prefix(rest, "use "@, 0);
            lemma_not_prefix(rest, "mod "@, 0);
            assert(rest.subrange(0, 6) =~= "const "@);
            assert(rest.skip(6) =~= x);
    } else if kw == "static "@ {
            assert(kw != "struct "@) by { assert(kw[2] != "struct "@[2]); }
            lemma_not_prefix(rest, "fn "@, 0);
            lemma_not_prefix(rest, "async fn "@, 0);
            lemma_not_prefix(rest, "unsafe fn "@, 0);
            lemma_not_prefix(rest, "const fn "@, 0);
            lemma_not_prefix(rest, "struct "@, 2);
            lemma_not_prefix(rest, "enum "@, 0);
            lemma_not_prefix(rest, "trait "@, 0);
            lemma_not_prefix(rest, "type "@, 0);
            lemma_not_prefix(rest, "const "@, 0);
            lemma_not_prefix(rest, "use "@, 0);
            lemma_not_prefix(rest, "mod "@, 0);
            assert(rest.subrange(0, 7) =~= "static "@);
            assert(rest.skip(7) =~= x);
    } else if kw == "macro "@ {
            assert(kw != "trait "@) by { assert(kw[0] != "trait "@[0]); }
            assert(kw != "const "@) by { assert(kw[0] != "const "@[0]); }
            lemma_not_prefix(rest, "fn "@, 0);
            lemma_not_prefix(rest, "async fn "@, 0);
            lemma_not_prefix(rest, "unsafe fn "@, 0);
            lemma_not_prefix(rest, "const fn "@, 0);
            lemma_not_prefix(rest, "struct "@, 0);
            lemma_not_prefix(rest, "enum "@, 0);
            lemma_not_prefix(rest, "trait "@, 0);
            lemma_not_prefix(rest, "type "@, 0);
            lemma_not_prefix(rest, "const "@, 0);
            lemma_not_prefix(rest, "static "@, 0);
            lemma_not_prefix(rest, "use "@, 0);
            lemma_not_prefix(rest, "mod "@, 1);
            assert(rest.subrange(0, 6) =~= "macro "@);
            assert(rest.skip(6) =~= x);
    }
}

/// A line `pub KEYWORD NAME ...` for each item keyword that the scanner
/// recognises (`fn`, `async fn`, `unsafe fn`, `const fn`, `struct`, `enum`,
/// `trait`, `type`, `const`, `static`, `macro`), read outside comments,
/// skipped scopes and impl blocks and not after `#[doc(hidden)]`, yields an
/// item of the keyword's kind, with path `module::NAME`, at its own line and
/// with the pending `cfg`.
#[verifier::rlimit(50)]
#[verifier::spinoff_prover]
pub proof fn lemma_pub_item_line(ctx: ScanCtx, st: ScanState, kw: Seq<char>, kind: ItemKind, n: Seq<char>, tail: Seq<char>)
    requires
        0 <= st.i < ctx.lines.len(),
        trim(ctx.lines[st.i]) == "pub "@ + kw + n + tail,
        declares(kw, kind),
        n.len() > 0,
        forall|j: int| 0 <= j < n.len() ==> is_ident_char(#[trigger] n[j]),
        !crate::text::is_ws(n.last()),
        tail.len() == 0 || (!is_ident_char(tail[0]) && tail[0] != ' ' && !crate::text::is_ws(tail.last())),
        !tail.contains('#'),
        !tail.contains('!'),
        !st.in_comment,
        !st.hidden,
        st.skips.len() == 0,
        st.impls.len() == 0,
    ensures
        scan_line(ctx, st).1 matches Some(it) && it.kind == kind && it.path == qualify(ctx.module, n)
            && it.line == st.i + 1 && it.cfg == st.cfg,
{
    reveal_strlit("pub ");
    reveal_strlit("/*");
    reveal_strlit("//");
    reveal_strlit("#[cfg(");
    reveal_strlit("#[cfg_attr(");
    reveal_strlit("#[doc(hidden)]");
    reveal_strlit("macro_rules!");
    reveal_strlit("mod ");
    reveal_strlit("impl");
    reveal_strlit("pub(");
    reveal_strlit("fn ");
    reveal_strlit("async fn ");
    reveal_strlit("unsafe fn ");
    reveal_strlit("const fn ");
    reveal_strlit("struct ");
    reveal_strlit("enum ");
    reveal_strlit("trait ");
    reveal_strlit("type ");
    reveal_strlit("const ");
    reveal_strlit("static ");
    reveal_strlit("macro ");
    let line = trim(ctx.lines[st.i]);
    let x = n + tail;
    let body = kw + x;
    lemma_keyword_kind(kw, kind, n, tail);
    lemma_ident_prefix_stop(n, tail);
    assert(line =~= "pub "@ + body);
    let k = kw.len() as int;
    assert forall|j: int| 0 <= j < line.len() implies line[j] != '#' && line[j] != '!' by {
        if j < 4 {
        } else if j < 4 + k {
            assert(line[j] == kw[j - 4]);
        } else if j < 4 + k + n.len() {
            assert(line[j] == n[j - 4 - k]);
            assert(is_ident_char(n[j - 4 - k]));
        } else {
            assert(line[j] == tail[j - 4 - k - n.len()]);
        }
    }
    assert(line[0] == 'p' && line[3] == ' ');
    assert(line.last() == x.last());
    if tail.len() > 0 {
        assert(x.last() == tail.last());
    } else {
        assert(x.last() == n.last());
    }
    lemma_trim_of_trimmed(line);
    assert(!starts_with(line, "/*"@)) by { assert(line.subrange(0, 2)[0] == line[0]); }
    assert(!starts_with(line, "//"@)) by { assert(line.subrange(0, 2)[0] == line[0]); }
    assert(!starts_with(line, "#[cfg("@)) by {
        if line.len() >= 6 {
            assert(line.subrange(0, 6)[0] == line[0]);
        }
    }
    assert(!starts_with(line, "#[cfg_attr("@)) by {
        if line.len() >= 11 {
            assert(line.subrange(0, 11)[0] == line[0]);
        }
    }
    assert(!contains(line, "#[doc(hidden)]"@)) by {
        assert("#[doc(hidden)]"@[0] == '#');
        lemma_find_from_missing_char(line, "#[doc(hidden)]"@, '#', 0);
    }
    assert(!contains(line, "macro_rules!"@)) by {
        assert("macro_rules!"@[11] == '!');
        lemma_find_from_missing_char(line, "macro_rules!"@, '!', 0);
    }
    assert(!starts_with(line, "mod "@)) by { assert(line.subrange(0, 4)[0] == line[0]); }
    assert(!starts_with(line, "impl"@)) by { assert(line.subrange(0, 4)[0] == line[0]); }
    assert(spec_parse_impl_header(line) is None);
    assert(starts_with(line, "pub "@)) by { assert(line.subrange(0, 4) =~= "pub "@); }
    assert(!starts_with(line, "pub("@)) by { assert(line.subrange(0, 4)[3] == line[3]); }
    assert(line.skip(4) =~= body);
}

} // verus!
