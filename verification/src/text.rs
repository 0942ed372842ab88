//! Character-level text operations with their specifications.
//!
//! Text is held as `Vec<char>` while it is being worked on; the views are
//! `Seq<char>`, the same view that `str` and `String` have.

use vstd::prelude::*;

verus! {

/// Whether `c` is a Unicode `White_Space` character (what `char::is_whitespace` tests).
pub open spec fn is_ws(c: char) -> bool {
    ||| c == '\t'
    ||| c == '\n'
    ||| c == '\u{0B}'
    ||| c == '\u{0C}'
    ||| c == '\r'
    ||| c == ' '
    ||| c == '\u{85}'
    ||| c == '\u{A0}'
    ||| c == '\u{1680}'
    ||| ('\u{2000}' <= c && c <= '\u{200A}')
    ||| c == '\u{2028}'
    ||| c == '\u{2029}'
    ||| c == '\u{202F}'
    ||| c == '\u{205F}'
    ||| c == '\u{3000}'
}

pub fn char_is_ws(c: char) -> (b: bool)
    ensures
        b == is_ws(c),
{
    c == '\t' || c == '\n' || c == '\u{0B}' || c == '\u{0C}' || c == '\r' || c == ' ' || c
        == '\u{85}' || c == '\u{A0}' || c == '\u{1680}' || ('\u{2000}' <= c && c <= '\u{200A}')
        || c == '\u{2028}' || c == '\u{2029}' || c == '\u{202F}' || c == '\u{205F}' || c
        == '\u{3000}'
}

/// Whether a character outside ASCII is alphanumeric in the sense of
/// `char::is_alphanumeric` (Unicode `Alphabetic` or `Numeric`).
pub uninterp spec fn char_alphanumeric(c: char) -> bool;

/// An ASCII letter or digit.
pub open spec fn ascii_alphanumeric(c: char) -> bool {
    ('a' <= c && c <= 'z') || ('A' <= c && c <= 'Z') || ('0' <= c && c <= '9')
}

/// `char::is_alphanumeric`: among ASCII characters exactly the letters and
/// digits (the ASCII characters that are Unicode `Alphabetic` or `Numeric`);
/// elsewhere the named result.
pub open spec fn alphanumeric(c: char) -> bool {
    if is_ascii(c) {
        ascii_alphanumeric(c)
    } else {
        char_alphanumeric(c)
    }
}

/// An ASCII character.
pub open spec fn is_ascii(c: char) -> bool {
    c <= '\x7f'
}

/// `char::is_alphanumeric`. On ASCII the contract states the result; beyond
/// ASCII it rests on std's Unicode tables and only names it.
#[verifier::external_body]
pub(crate) fn is_alphanumeric(c: char) -> (b: bool)
    ensures
        is_ascii(c) ==> b == ascii_alphanumeric(c),
        !is_ascii(c) ==> b == char_alphanumeric(c),
{
    c.is_alphanumeric()
}

/// `String::push`.
#[verifier::external_body]
pub(crate) fn push_char(s: &mut String, c: char)
    ensures
        final(s)@ == old(s)@.push(c),
{
    s.push(c)
}

/// The characters of a string slice.
pub fn to_chars(s: &str) -> (v: Vec<char>)
    ensures
        v@ == s@,
{
    let mut v: Vec<char> = Vec::new();
    for c in it: s.chars()
        invariant
            v@ == it.seq().take(it.index() as int),
    {
        v.push(c);
    }
    v
}

/// A string holding the given characters.
pub fn from_chars(v: &Vec<char>) -> (s: String)
    ensures
        s@ == v@,
{
    let mut s = String::new();
    let mut i: usize = 0;
    while i < v.len()
        invariant
            i <= v.len(),
            s@ == v@.take(i as int),
        decreases v.len() - i,
    {
        push_char(&mut s, v[i]);
        i += 1;
        assert(s@ =~= v@.take(i as int));
    }
    assert(v@.take(v.len() as int) =~= v@);
    s
}


/// The text with leading whitespace removed (`str::trim_start`).
pub open spec fn trim_start(s: Seq<char>) -> Seq<char>
    decreases s.len(),
{
    if s.len() > 0 && is_ws(s[0]) {
        trim_start(s.drop_first())
    } else {
        s
    }
}

/// The text with trailing whitespace removed (`str::trim_end`).
pub open spec fn trim_end(s: Seq<char>) -> Seq<char>
    decreases s.len(),
{
    if s.len() > 0 && is_ws(s.last()) {
        trim_end(s.drop_last())
    } else {
        s
    }
}

/// The text with whitespace removed at both ends (`str::trim`).
pub open spec fn trim(s: Seq<char>) -> Seq<char> {
    trim_end(trim_start(s))
}

/// `s` begins with `p`.
pub open spec fn starts_with(s: Seq<char>, p: Seq<char>) -> bool {
    p.len() <= s.len() && s.subrange(0, p.len() as int) == p
}

/// `s` ends with `p`.
pub open spec fn ends_with(s: Seq<char>, p: Seq<char>) -> bool {
    p.len() <= s.len() && s.subrange(s.len() - p.len(), s.len() as int) == p
}

/// `p` occurs in `s` starting at position `k`.
pub open spec fn occurs_at(s: Seq<char>, p: Seq<char>, k: int) -> bool {
    0 <= k && k + p.len() <= s.len() && s.subrange(k, k + p.len()) == p
}

/// The first position at or after `k` where `p` occurs in `s`.
pub open spec fn find_from(s: Seq<char>, p: Seq<char>, k: int) -> Option<int>
    decreases s.len() + 1 - k,
{
    if k < 0 || k + p.len() > s.len() {
        None
    } else if occurs_at(s, p, k) {
        Some(k)
    } else {
        find_from(s, p, k + 1)
    }
}

/// The first position where `p` occurs in `s` (`str::find`).
pub open spec fn find(s: Seq<char>, p: Seq<char>) -> Option<int> {
    find_from(s, p, 0)
}

/// `p` occurs in `s` (`str::contains`).
pub open spec fn contains(s: Seq<char>, p: Seq<char>) -> bool {
    find(s, p) is Some
}

/// The last position at or before `k` where `p` occurs in `s`.
pub open spec fn rfind_upto(s: Seq<char>, p: Seq<char>, k: int) -> Option<int>
    decreases k + 1,
{
    if k < 0 {
        None
    } else if occurs_at(s, p, k) {
        Some(k)
    } else {
        rfind_upto(s, p, k - 1)
    }
}

/// The last position where `p` occurs in `s` (`str::rfind`).
pub open spec fn rfind(s: Seq<char>, p: Seq<char>) -> Option<int> {
    rfind_upto(s, p, s.len() - p.len())
}

/// The first position of the character `c` in `s`.
pub open spec fn find_char(s: Seq<char>, c: char) -> Option<int> {
    find(s, seq![c])
}

/// A copy of `v[a..b]`.
pub fn slice(v: &Vec<char>, a: usize, b: usize) -> (r: Vec<char>)
    requires
        a <= b <= v.len(),
    ensures
        r@ == v@.subrange(a as int, b as int),
{
    let mut r: Vec<char> = Vec::new();
    let mut i = a;
    while i < b
        invariant
            a <= i <= b <= v.len(),
            r@ == v@.subrange(a as int, i as int),
        decreases b - i,
    {
        r.push(v[i]);
        i += 1;
        assert(r@ =~= v@.subrange(a as int, i as int));
    }
    r
}

/// Appends `b` to `a`.
pub fn append(a: &mut Vec<char>, b: &Vec<char>)
    ensures
        final(a)@ == old(a)@ + b@,
{
    let mut i: usize = 0;
    while i < b.len()
        invariant
            i <= b.len(),
            a@ == old(a)@ + b@.take(i as int),
        decreases b.len() - i,
    {
        a.push(b[i]);
        i += 1;
        assert(a@ =~= old(a)@ + b@.take(i as int));
    }
    assert(b@.take(b.len() as int) =~= b@);
}

/// Appends the characters of `b` to `a`.
pub fn append_str(a: &mut Vec<char>, b: &str)
    ensures
        final(a)@ == old(a)@ + b@,
{
    let bv = to_chars(b);
    append(a, &bv);
}

/// Whether the two character sequences are equal.
pub fn chars_eq(a: &Vec<char>, b: &Vec<char>) -> (r: bool)
    ensures
        r == (a@ == b@),
{
    if a.len() != b.len() {
        return false;
    }
    let mut i: usize = 0;
    while i < a.len()
        invariant
            a.len() == b.len(),
            i <= a.len(),
            a@.take(i as int) == b@.take(i as int),
        decreases a.len() - i,
    {
        if a[i] != b[i] {
            assert(a@[i as int] != b@[i as int]);
            return false;
        }
        i += 1;
        assert(a@.take(i as int) =~= b@.take(i as int)) by {
            assert(a@.take(i as int) =~= a@.take(i - 1).push(a@[i - 1]));
            assert(b@.take(i as int) =~= b@.take(i - 1).push(b@[i - 1]));
        }
    }
    assert(a@ =~= a@.take(a.len() as int));
    assert(b@ =~= b@.take(b.len() as int));
    true
}

/// Whether `p` occurs in `s` at position `k`.
pub fn matches_at(s: &Vec<char>, p: &Vec<char>, k: usize) -> (r: bool)
    ensures
        r == occurs_at(s@, p@, k as int),
{
    if k > s.len() || p.len() > s.len() - k {
        return false;
    }
    let mut i: usize = 0;
    while i < p.len()
        invariant
            k + p.len() <= s.len(),
            i <= p.len(),
            s@.subrange(k as int, k + i) == p@.take(i as int),
        decreases p.len() - i,
    {
        if s[k + i] != p[i] {
            assert(s@.subrange(k as int, k + p.len())[i as int] != p@[i as int]);
            return false;
        }
        i += 1;
        assert(s@.subrange(k as int, k + i) =~= p@.take(i as int)) by {
            assert(s@.subrange(k as int, k + i) =~= s@.subrange(k as int, k + i - 1).push(
                s@[k + i - 1],
            ));
            assert(p@.take(i as int) =~= p@.take(i - 1).push(p@[i - 1]));
        }
    }
    assert(p@.take(p.len() as int) =~= p@);
    true
}

/// Whether `s` begins with the characters of `p`.
pub fn has_prefix(s: &Vec<char>, p: &str) -> (r: bool)
    ensures
        r == starts_with(s@, p@),
{
    let pv = to_chars(p);
    let r = matches_at(s, &pv, 0);
    r
}

/// Whether `s` ends with the characters of `p`.
pub fn has_suffix(s: &Vec<char>, p: &str) -> (r: bool)
    ensures
        r == ends_with(s@, p@),
{
    let pv = to_chars(p);
    if pv.len() > s.len() {
        return false;
    }
    matches_at(s, &pv, s.len() - pv.len())
}

/// The first position at or after `k` where `p` occurs in `s`.
pub fn find_chars_from(s: &Vec<char>, p: &Vec<char>, k: usize) -> (r: Option<usize>)
    ensures
        r matches Some(j) ==> find_from(s@, p@, k as int) == Some(j as int) && k <= j && j
            + p@.len() <= s@.len(),
        r is None ==> find_from(s@, p@, k as int) is None,
{
    if p.len() > s.len() {
        return None;
    }
    let last = s.len() - p.len();
    let mut j = k;
    while j <= last
        invariant
            last == s.len() - p.len(),
            k <= j,
            find_from(s@, p@, k as int) == find_from(s@, p@, j as int),
        decreases last + 1 - j,
    {
        if matches_at(s, p, j) {
            return Some(j);
        }
        if j == last {
            assert(find_from(s@, p@, j + 1) is None);
            return None;
        }
        j += 1;
    }
    None
}

/// The first position where `p` occurs in `s` (`str::find`).
pub fn find_str(s: &Vec<char>, p: &str) -> (r: Option<usize>)
    ensures
        r matches Some(j) ==> find(s@, p@) == Some(j as int) && j + p@.len() <= s@.len(),
        r is None ==> find(s@, p@) is None,
{
    let pv = to_chars(p);
    find_chars_from(s, &pv, 0)
}

/// Whether `p` occurs in `s` (`str::contains`).
pub fn contains_str(s: &Vec<char>, p: &str) -> (r: bool)
    ensures
        r == contains(s@, p@),
{
    find_str(s, p).is_some()
}

/// The last position where `p` occurs in `s` (`str::rfind`).
pub fn rfind_str(s: &Vec<char>, p: &str) -> (r: Option<usize>)
    ensures
        r matches Some(j) ==> rfind(s@, p@) == Some(j as int) && j + p@.len() <= s@.len(),
        r is None ==> rfind(s@, p@) is None,
{
    let pv = to_chars(p);
    if pv.len() > s.len() {
        return None;
    }
    let mut j: usize = s.len() - pv.len();
    loop
        invariant
            j + pv.len() <= s.len(),
            rfind(s@, p@) == rfind_upto(s@, pv@, j as int),
            pv@ == p@,
        decreases j,
    {
        if matches_at(s, &pv, j) {
            return Some(j);
        }
        if j == 0 {
            assert(rfind_upto(s@, pv@, -1) is None);
            return None;
        }
        j -= 1;
    }
}

/// Whether the character `c` occurs in `s`.
pub fn has_char(s: &Vec<char>, c: char) -> (r: bool)
    ensures
        r == s@.contains(c),
{
    let mut i: usize = 0;
    while i < s.len()
        invariant
            i <= s.len(),
            forall|k: int| 0 <= k < i ==> s@[k] != c,
        decreases s.len() - i,
    {
        if s[i] == c {
            return true;
        }
        i += 1;
    }
    false
}

/// The number of leading whitespace characters of `s`.
pub open spec fn leading_ws(s: Seq<char>) -> nat
    decreases s.len(),
{
    if s.len() > 0 && is_ws(s[0]) {
        1 + leading_ws(s.drop_first())
    } else {
        0
    }
}

/// Trimming the start drops the leading whitespace and keeps the rest.
pub proof fn lemma_trim_start_skip(s: Seq<char>)
    ensures
        leading_ws(s) <= s.len(),
        trim_start(s) == s.skip(leading_ws(s) as int),
    decreases s.len(),
{
    if s.len() > 0 && is_ws(s[0]) {
        lemma_trim_start_skip(s.drop_first());
        assert(s.drop_first().skip(leading_ws(s.drop_first()) as int) =~= s.skip(
            leading_ws(s) as int,
        ));
    } else {
        assert(s.skip(0) =~= s);
    }
}

/// `s` without leading whitespace.
pub fn trim_start_chars(s: &Vec<char>) -> (r: Vec<char>)
    ensures
        r@ == trim_start(s@),
{
    let mut i: usize = 0;
    assert(s@.skip(0) =~= s@);
    while i < s.len() && char_is_ws(s[i])
        invariant
            i <= s.len(),
            trim_start(s@) == trim_start(s@.skip(i as int)),
        decreases s.len() - i,
    {
        assert(s@.skip(i as int).drop_first() =~= s@.skip(i + 1));
        i += 1;
    }
    assert(s@.skip(i as int) =~= s@.subrange(i as int, s.len() as int));
    slice(s, i, s.len())
}

/// `s` without trailing whitespace.
pub fn trim_end_chars(s: &Vec<char>) -> (r: Vec<char>)
    ensures
        r@ == trim_end(s@),
{
    let mut j: usize = s.len();
    assert(s@.take(j as int) =~= s@);
    while j > 0 && char_is_ws(s[j - 1])
        invariant
            j <= s.len(),
            trim_end(s@) == trim_end(s@.take(j as int)),
        decreases j,
    {
        assert(s@.take(j as int).drop_last() =~= s@.take(j - 1));
        j -= 1;
    }
    assert(s@.take(j as int) =~= s@.subrange(0, j as int));
    slice(s, 0, j)
}

/// `s` without whitespace at either end.
pub fn trim_chars(s: &Vec<char>) -> (r: Vec<char>)
    ensures
        r@ == trim(s@),
{
    let t = trim_start_chars(s);
    trim_end_chars(&t)
}


/// `s` with every trailing `c` removed (`str::trim_end_matches` with a character).
pub open spec fn strip_trailing(s: Seq<char>, c: char) -> Seq<char>
    decreases s.len(),
{
    if s.len() > 0 && s.last() == c {
        strip_trailing(s.drop_last(), c)
    } else {
        s
    }
}

pub fn strip_trailing_chars(s: &Vec<char>, c: char) -> (r: Vec<char>)
    ensures
        r@ == strip_trailing(s@, c),
{
    let mut j: usize = s.len();
    assert(s@.take(j as int) =~= s@);
    while j > 0 && s[j - 1] == c
        invariant
            j <= s.len(),
            strip_trailing(s@, c) == strip_trailing(s@.take(j as int), c),
        decreases j,
    {
        assert(s@.take(j as int).drop_last() =~= s@.take(j - 1));
        j -= 1;
    }
    assert(s@.take(j as int) =~= s@.subrange(0, j as int));
    slice(s, 0, j)
}

/// Whitespace runs collapsed: the state after the first `k` characters of `s`,
/// as the text produced so far and whether a space is owed before the next word.
pub open spec fn collapse_state(s: Seq<char>, k: int) -> (Seq<char>, bool)
    decreases k,
{
    if k <= 0 {
        (Seq::empty(), false)
    } else {
        let (out, pending) = collapse_state(s, k - 1);
        let c = s[k - 1];
        if is_ws(c) {
            (out, out.len() > 0)
        } else if pending {
            (out.push(' ').push(c), false)
        } else {
            (out.push(c), false)
        }
    }
}

/// The words of `s` joined by single spaces (`split_whitespace` then `join(" ")`).
pub open spec fn collapse_ws(s: Seq<char>) -> Seq<char> {
    collapse_state(s, s.len() as int).0
}

pub fn collapse_ws_chars(s: &Vec<char>) -> (r: Vec<char>)
    ensures
        r@ == collapse_ws(s@),
{
    let mut out: Vec<char> = Vec::new();
    let mut pending = false;
    let mut i: usize = 0;
    while i < s.len()
        invariant
            i <= s.len(),
            (out@, pending) == collapse_state(s@, i as int),
        decreases s.len() - i,
    {
        let c = s[i];
        if char_is_ws(c) {
            pending = out.len() > 0;
        } else {
            if pending {
                out.push(' ');
            }
            out.push(c);
            pending = false;
        }
        i += 1;
    }
    out
}

/// The text of `n` in decimal.
pub open spec fn decimal(n: nat) -> Seq<char>
    decreases n,
{
    if n < 10 {
        seq![digit_char(n)]
    } else {
        decimal(n / 10).push(digit_char(n % 10))
    }
}

pub open spec fn digit_char(d: nat) -> char {
    if d == 0 { '0' }
    else if d == 1 { '1' }
    else if d == 2 { '2' }
    else if d == 3 { '3' }
    else if d == 4 { '4' }
    else if d == 5 { '5' }
    else if d == 6 { '6' }
    else if d == 7 { '7' }
    else if d == 8 { '8' }
    else { '9' }
}

fn digit(d: usize) -> (c: char)
    requires
        d < 10,
    ensures
        c == digit_char(d as nat),
{
    if d == 0 { '0' }
    else if d == 1 { '1' }
    else if d == 2 { '2' }
    else if d == 3 { '3' }
    else if d == 4 { '4' }
    else if d == 5 { '5' }
    else if d == 6 { '6' }
    else if d == 7 { '7' }
    else if d == 8 { '8' }
    else { '9' }
}

/// Appends the decimal text of `n` to `out` (`format!("{n}")`).
pub fn push_decimal(out: &mut Vec<char>, n: usize)
    ensures
        final(out)@ == old(out)@ + decimal(n as nat),
    decreases n,
{
    if n < 10 {
        out.push(digit(n));
        assert(decimal(n as nat) =~= seq![digit_char(n as nat)]);
    } else {
        push_decimal(out, n / 10);
        out.push(digit(n % 10));
        assert(old(out)@ + decimal(n as nat) =~= old(out)@ + decimal((n / 10) as nat) + seq![
            digit_char((n % 10) as nat),
        ]);
    }
}

/// The lines of `s`, as `str::lines` gives them: split after each `'\n'`, with
/// the `'\n'` and a `'\r'` before it removed; no empty line after a final `'\n'`.
pub open spec fn lines(s: Seq<char>) -> Seq<Seq<char>>
    decreases s.len(),
{
    if s.len() == 0 {
        Seq::empty()
    } else {
        match find_char(s, '\n') {
            Some(k) => {
                proof {
                    lemma_find_char_bounds(s, '\n', 0);
                }
                seq![strip_cr(s.take(k))] + lines(s.skip(k + 1))
            },
            None => seq![s],
        }
    }
}

/// A line with a final `'\r'` removed.
pub open spec fn strip_cr(s: Seq<char>) -> Seq<char> {
    if s.len() > 0 && s.last() == '\r' {
        s.drop_last()
    } else {
        s
    }
}

/// A character found from `k` on lies at or after `k`, inside the text.
pub proof fn lemma_find_char_bounds(s: Seq<char>, c: char, k: int)
    requires
        0 <= k,
        find_from(s, seq![c], k) is Some,
    ensures
        k <= find_from(s, seq![c], k)->0 < s.len(),
        s[find_from(s, seq![c], k)->0] == c,
        forall|j: int| k <= j < find_from(s, seq![c], k)->0 ==> s[j] != c,
    decreases s.len() - k,
{
    if occurs_at(s, seq![c], k) {
        assert(s.subrange(k, k + 1)[0] == s[k]);
    } else {
        if k < s.len() {
            assert(s[k] != c) by {
                if s[k] == c {
                    assert(s.subrange(k, k + 1) =~= seq![c]);
                }
            }
        }
        lemma_find_char_bounds(s, c, k + 1);
    }
}

/// Each line is no longer than the text, and there are no more lines than characters.
pub proof fn lemma_lines_bounded(s: Seq<char>)
    ensures
        lines(s).len() <= s.len(),
        forall|j: int| 0 <= j < lines(s).len() ==> #[trigger] lines(s)[j].len() <= s.len(),
    decreases s.len(),
{
    if s.len() > 0 {
        match find_char(s, '\n') {
            Some(k) => {
                lemma_find_char_bounds(s, '\n', 0);
                lemma_lines_bounded(s.skip(k + 1));
                let rest = lines(s.skip(k + 1));
                assert forall|j: int| 0 <= j < lines(s).len() implies #[trigger] lines(s)[j].len()
                    <= s.len() by {
                    if j > 0 {
                        assert(lines(s)[j] == rest[j - 1]);
                    }
                }
            },
            None => {},
        }
    }
}

/// The lines of a text (`str::lines`).
pub fn split_lines(s: &Vec<char>) -> (r: Vec<Vec<char>>)
    ensures
        r@.len() == lines(s@).len(),
        forall|j: int| 0 <= j < r@.len() ==> #[trigger] r@[j]@ == lines(s@)[j],
{
    let mut r: Vec<Vec<char>> = Vec::new();
    let mut start: usize = 0;
    let nl = vec!['\n'];
    assert(s@.skip(0) =~= s@);
    while start < s.len()
        invariant
            start <= s.len(),
            nl@ == seq!['\n'],
            r@.len() + lines(s@.skip(start as int)).len() == lines(s@).len(),
            forall|j: int| 0 <= j < r@.len() ==> #[trigger] r@[j]@ == lines(s@)[j],
            forall|j: int|
                0 <= j < lines(s@.skip(start as int)).len() ==> #[trigger] lines(s@.skip(
                    start as int,
                ))[j] == lines(s@)[r@.len() + j],
        decreases s.len() - start,
    {
        let ghost rest = s@.skip(start as int);
        let found = find_chars_from(s, &nl, start);
        match found {
            Some(k) => {
                proof {
                    lemma_find_char_bounds(s@, '\n', start as int);
                    assert forall|j: int| 0 <= j < k - start implies #[trigger] rest[j] != '\n' by {
                        assert(rest[j] == s@[start + j]);
                    }
                    assert(rest[k - start] == s@[k as int]);
                    lemma_find_char_first(rest, '\n', k - start, 0);
                }
                let mut line = slice(s, start, k);
                if line.len() > 0 && line[line.len() - 1] == '\r' {
                    line.pop();
                }
                proof {
                    assert(rest.take(k - start) =~= s@.subrange(start as int, k as int));
                    assert(rest.skip(k - start + 1) =~= s@.skip(k + 1));
                    assert(line@ =~= strip_cr(rest.take(k - start)));
                    assert(lines(rest) == seq![strip_cr(rest.take(k - start))] + lines(
                        rest.skip(k - start + 1),
                    ));
                    assert(lines(rest)[0] == line@);
                    let nxt = lines(s@.skip(k + 1));
                    assert forall|j: int| 0 <= j < nxt.len() implies #[trigger] nxt[j] == lines(
                        rest,
                    )[j + 1] by {}
                }
                let ghost old_r = r@;
                r.push(line);
                proof {
                    assert forall|j: int| 0 <= j < r@.len() implies #[trigger] r@[j]@ == lines(
                        s@,
                    )[j] by {
                        if j < old_r.len() {
                            assert(r@[j] == old_r[j]);
                        }
                    }
                }
                start = k + 1;
            },
            None => {
                proof {
                    assert(find_char(rest, '\n') is None) by {
                        if find_char(rest, '\n') is Some {
                            lemma_find_char_bounds(rest, '\n', 0);
                            let f = find_char(rest, '\n')->0;
                            assert(s@[start + f] == '\n');
                            assert(occurs_at(s@, seq!['\n'], start + f)) by {
                                assert(s@.subrange(start + f, start + f + 1) =~= seq!['\n']);
                            }
                            lemma_find_from_some(s@, seq!['\n'], start as int, start + f);
                        }
                    }
                    assert(rest =~= s@.subrange(start as int, s.len() as int));
                }
                let line = slice(s, start, s.len());
                assert(lines(rest) == seq![rest]);
                assert(lines(rest)[0] == line@);
                let ghost old_r = r@;
                r.push(line);
                proof {
                    assert(s@.skip(s.len() as int) =~= Seq::<char>::empty());
                    assert forall|j: int| 0 <= j < r@.len() implies #[trigger] r@[j]@ == lines(
                        s@,
                    )[j] by {
                        if j < old_r.len() {
                            assert(r@[j] == old_r[j]);
                        }
                    }
                }
                start = s.len();
            },
        }
    }
    r
}

/// The search for a character finds its first occurrence.
pub proof fn lemma_find_char_first(s: Seq<char>, c: char, f: int, k: int)
    requires
        0 <= k <= f < s.len(),
        s[f] == c,
        forall|j: int| 0 <= j < f ==> s[j] != c,
    ensures
        find_from(s, seq![c], k) == Some(f),
    decreases f - k,
{
    if k == f {
        assert(s.subrange(k, k + 1) =~= seq![c]);
    } else {
        assert(!occurs_at(s, seq![c], k)) by {
            if occurs_at(s, seq![c], k) {
                assert(s.subrange(k, k + 1)[0] == s[k]);
            }
        }
        lemma_find_char_first(s, c, f, k + 1);
    }
}

/// A pattern that occurs at or after `k` is found from `k`.
pub proof fn lemma_find_from_some(s: Seq<char>, p: Seq<char>, k: int, m: int)
    requires
        0 <= k <= m,
        occurs_at(s, p, m),
    ensures
        find_from(s, p, k) is Some,
    decreases m - k,
{
    if !occurs_at(s, p, k) {
        lemma_find_from_some(s, p, k + 1, m);
    }
}


/// Trimming the start never lengthens a text.
pub proof fn lemma_trim_start_len(s: Seq<char>)
    ensures
        trim_start(s).len() <= s.len(),
    decreases s.len(),
{
    if s.len() > 0 && is_ws(s[0]) {
        lemma_trim_start_len(s.drop_first());
    }
}

/// Trimming the end never lengthens a text.
pub proof fn lemma_trim_end_len(s: Seq<char>)
    ensures
        trim_end(s).len() <= s.len(),
    decreases s.len(),
{
    if s.len() > 0 && is_ws(s.last()) {
        lemma_trim_end_len(s.drop_last());
    }
}

/// Trimming never lengthens a text.
pub proof fn lemma_trim_len(s: Seq<char>)
    ensures
        trim(s).len() <= s.len(),
{
    lemma_trim_start_len(s);
    lemma_trim_end_len(trim_start(s));
}


/// The number of trailing whitespace characters of `s`.
pub open spec fn trailing_ws(s: Seq<char>) -> nat
    decreases s.len(),
{
    if s.len() > 0 && is_ws(s.last()) {
        1 + trailing_ws(s.drop_last())
    } else {
        0
    }
}

/// Trimming the end keeps a prefix: all but the trailing whitespace.
pub proof fn lemma_trim_end_take(s: Seq<char>)
    ensures
        trailing_ws(s) <= s.len(),
        trim_end(s) == s.take(s.len() - trailing_ws(s)),
    decreases s.len(),
{
    if s.len() > 0 && is_ws(s.last()) {
        lemma_trim_end_take(s.drop_last());
        assert(s.drop_last().take(s.drop_last().len() - trailing_ws(s.drop_last())) =~= s.take(
            s.len() - trailing_ws(s),
        ));
    } else {
        assert(s.take(s.len() as int) =~= s);
    }
}

/// Stripping a trailing character keeps a prefix of the text.
pub proof fn lemma_strip_trailing_take(s: Seq<char>, c: char)
    ensures
        exists|n: int| 0 <= n <= s.len() && strip_trailing(s, c) == s.take(n),
    decreases s.len(),
{
    if s.len() > 0 && s.last() == c {
        lemma_strip_trailing_take(s.drop_last(), c);
        let n = choose|n: int| 0 <= n <= s.drop_last().len() && strip_trailing(s.drop_last(), c) == s.drop_last().take(n);
        assert(s.drop_last().take(n) =~= s.take(n));
    } else {
        assert(s.take(s.len() as int) =~= s);
    }
}

/// A trimmed text has no whitespace at either end, so trimming it again changes nothing.
pub proof fn lemma_trim_of_trimmed(s: Seq<char>)
    requires
        s.len() > 0 ==> !is_ws(s[0]) && !is_ws(s.last()),
    ensures
        trim(s) == s,
{
}

/// Collapsing whitespace brings in no character but the space.
pub proof fn lemma_collapse_chars(s: Seq<char>, k: int, x: char)
    requires
        0 <= k <= s.len(),
        x != ' ',
        !s.contains(x),
    ensures
        !collapse_state(s, k).0.contains(x),
    decreases k,
{
    if k > 0 {
        lemma_collapse_chars(s, k - 1, x);
        let (out, pending) = collapse_state(s, k - 1);
        let c = s[k - 1];
        assert(c != x);
        if !is_ws(c) {
            if pending {
                assert forall|j: int| 0 <= j < out.push(' ').push(c).len() implies out.push(' ').push(c)[j] != x by {
                    if j < out.len() {
                        assert(out.push(' ').push(c)[j] == out[j]);
                    }
                }
            } else {
                assert forall|j: int| 0 <= j < out.push(c).len() implies out.push(c)[j] != x by {
                    if j < out.len() {
                        assert(out.push(c)[j] == out[j]);
                    }
                }
            }
        }
    }
}

} // verus!
