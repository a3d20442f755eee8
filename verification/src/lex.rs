//! The lexical layer of the grammar: whitespace, comments, identifiers and
//! keywords, each as a function on the characters of the source with the
//! position where it starts, giving the position where it ends.
use crate::span::Span;
use vstd::prelude::*;

verus! {

/// Unicode's White_Space property, which `char::is_whitespace` tests.
pub open spec fn is_ws(c: char) -> bool {
    ||| ('\u{9}' <= c && c <= '\u{d}')
    ||| c == ' '
    ||| c == '\u{85}'
    ||| c == '\u{a0}'
    ||| c == '\u{1680}'
    ||| ('\u{2000}' <= c && c <= '\u{200a}')
    ||| c == '\u{2028}'
    ||| c == '\u{2029}'
    ||| c == '\u{202f}'
    ||| c == '\u{205f}'
    ||| c == '\u{3000}'
}

pub open spec fn is_digit(c: char) -> bool {
    '0' <= c && c <= '9'
}

pub open spec fn is_ident_start(c: char) -> bool {
    ('a' <= c && c <= 'z') || ('A' <= c && c <= 'Z') || c == '_'
}

pub open spec fn is_ident_char(c: char) -> bool {
    is_ident_start(c) || is_digit(c)
}

pub open spec fn is_ascii(c: char) -> bool {
    (c as u32) < 128
}

/// `s[i] == c`.
pub open spec fn at(s: Seq<char>, i: int, c: char) -> bool {
    0 <= i < s.len() && s[i] == c
}

/// `s[i..i + 2] == [a, b]`.
pub open spec fn at2(s: Seq<char>, i: int, a: char, b: char) -> bool {
    at(s, i, a) && at(s, i + 1, b)
}

/// `s[i..i + 3] == [a, b, c]`.
pub open spec fn at3(s: Seq<char>, i: int, a: char, b: char, c: char) -> bool {
    at(s, i, a) && at(s, i + 1, b) && at(s, i + 2, c)
}

/// The position after the whitespace that starts at `i`.
pub open spec fn ws_end(s: Seq<char>, i: int) -> int
    decreases s.len() - i,
{
    if 0 <= i < s.len() && is_ws(s[i]) {
        ws_end(s, i + 1)
    } else {
        i
    }
}

/// A line break: `\r\n`, `\n`, or one of `\r`, vertical tab, form feed,
/// next line, line separator and paragraph separator.
pub open spec fn newline_end(s: Seq<char>, i: int) -> Option<int> {
    if at2(s, i, '\r', '\n') {
        Some(i + 2)
    } else if at(s, i, '\n') {
        Some(i + 1)
    } else if 0 <= i < s.len() && (s[i] == '\r' || s[i] == '\u{b}' || s[i] == '\u{c}'
        || s[i] == '\u{85}' || s[i] == '\u{2028}' || s[i] == '\u{2029}') {
        Some(i + 1)
    } else {
        None
    }
}

/// The rest of a `//` comment: up to and including the next line break, or
/// to the end of the source.
pub open spec fn line_comment_end(s: Seq<char>, i: int) -> int
    decreases s.len() - i,
{
    if i < 0 || i >= s.len() {
        i
    } else {
        match newline_end(s, i) {
            Some(j) => j,
            None => line_comment_end(s, i + 1),
        }
    }
}

/// The rest of a `/*` comment: up to and including the next `*/`.
pub open spec fn block_comment_end(s: Seq<char>, i: int) -> Option<int>
    decreases s.len() - i,
{
    if at2(s, i, '*', '/') {
        Some(i + 2)
    } else if i < 0 || i >= s.len() {
        None
    } else {
        block_comment_end(s, i + 1)
    }
}

/// A comment: `//` to the end of the line, or `/*` to the next `*/`.
pub open spec fn comment_end(s: Seq<char>, i: int) -> Option<int> {
    if at2(s, i, '/', '/') {
        Some(line_comment_end(s, i + 2))
    } else if at2(s, i, '/', '*') {
        block_comment_end(s, i + 2)
    } else {
        None
    }
}

pub proof fn lemma_ws_end(s: Seq<char>, i: int)
    requires
        0 <= i <= s.len(),
    ensures
        i <= ws_end(s, i) <= s.len(),
        ws_end(s, ws_end(s, i)) == ws_end(s, i),
        forall|k: int| i <= k < ws_end(s, i) ==> is_ws(#[trigger] s[k]),
    decreases s.len() - i,
{
    if i < s.len() && is_ws(s[i]) {
        lemma_ws_end(s, i + 1);
    }
}

pub proof fn lemma_line_comment_end(s: Seq<char>, i: int)
    requires
        0 <= i <= s.len(),
    ensures
        i <= line_comment_end(s, i) <= s.len(),
    decreases s.len() - i,
{
    if i < s.len() && newline_end(s, i) is None {
        lemma_line_comment_end(s, i + 1);
    }
}

pub proof fn lemma_block_comment_end(s: Seq<char>, i: int)
    requires
        0 <= i <= s.len(),
    ensures
        block_comment_end(s, i) matches Some(j) ==> i + 2 <= j <= s.len(),
    decreases s.len() - i,
{
    if !at2(s, i, '*', '/') && i < s.len() {
        lemma_block_comment_end(s, i + 1);
    }
}

pub proof fn lemma_comment_end(s: Seq<char>, i: int)
    requires
        0 <= i <= s.len(),
    ensures
        comment_end(s, i) matches Some(j) ==> i + 2 <= j <= s.len(),
{
    if at2(s, i, '/', '/') {
        lemma_line_comment_end(s, i + 2);
    } else if at2(s, i, '/', '*') {
        lemma_block_comment_end(s, i + 2);
    }
}

/// Comments, each with whitespace around it, as many as follow; the
/// whitespace before something that is not a comment is left in place.
pub open spec fn skip_comments(s: Seq<char>, i: int) -> int
    decreases s.len() - i,
{
    if 0 <= i <= s.len() {
        let j = ws_end(s, i);
        proof {
            lemma_ws_end(s, i);
            lemma_comment_end(s, j);
        }
        match comment_end(s, j) {
            Some(k) => {
                proof {
                    lemma_ws_end(s, k);
                }
                skip_comments(s, ws_end(s, k))
            },
            None => i,
        }
    } else {
        i
    }
}

pub proof fn lemma_skip_comments(s: Seq<char>, i: int)
    requires
        0 <= i <= s.len(),
    ensures
        i <= skip_comments(s, i) <= s.len(),
    decreases s.len() - i,
{
    let j = ws_end(s, i);
    lemma_ws_end(s, i);
    lemma_comment_end(s, j);
    if let Some(k) = comment_end(s, j) {
        lemma_ws_end(s, k);
        lemma_skip_comments(s, ws_end(s, k));
    }
}

/// The end of a block comment is found at the first `*/` from `k` on.
proof fn lemma_block_end_at(s: Seq<char>, k: int, m: int)
    requires
        0 <= k <= m,
        at2(s, m, '*', '/'),
        forall|q: int| k <= q < m ==> !at2(s, q, '*', '/'),
    ensures
        block_comment_end(s, k) == Some(m + 2),
    decreases m - k,
{
    if k < m {
        assert(!at2(s, k, '*', '/'));
        lemma_block_end_at(s, k + 1, m);
    }
}

/// A `/* ... */` comment is skipped as a `//` comment is: where one starts,
/// at `j`, and ends with the first `*/`, at `m`, skipping comments goes on
/// after it as from the whitespace that follows it, and a name read from
/// `j` is the name read after the comment.
pub proof fn law_block_comment_skipped(s: Seq<char>, j: int, m: int)
    requires
        0 <= j,
        at2(s, j, '/', '*'),
        j + 2 <= m,
        at2(s, m, '*', '/'),
        forall|q: int| j + 2 <= q < m ==> !at2(s, q, '*', '/'),
    ensures
        comment_end(s, j) == Some(m + 2),
        skip_comments(s, j) == skip_comments(s, ws_end(s, m + 2)),
        skip_comments(s, j) >= m + 2,
        ident(s, j) == ident(s, ws_end(s, m + 2)),
{
    lemma_block_end_at(s, j + 2, m);
    assert(!is_ws(s[j]));
    assert(ws_end(s, j) == j);
    lemma_ws_end(s, m + 2);
    lemma_skip_comments(s, ws_end(s, m + 2));
}

/// A `//` comment is skipped up to and including the end of its line:
/// where one starts, at `j`, and its line ends at `n` with a line break
/// ending at `e`, skipping comments goes on as from the whitespace after
/// the line break.
pub proof fn law_line_comment_skipped(s: Seq<char>, j: int, n: int, e: int)
    requires
        0 <= j,
        at2(s, j, '/', '/'),
        j + 2 <= n,
        newline_end(s, n) == Some(e),
        forall|q: int| j + 2 <= q < n ==> newline_end(s, q) is None,
    ensures
        skip_comments(s, j) == skip_comments(s, ws_end(s, e)),
        skip_comments(s, j) >= e,
        ident(s, j) == ident(s, ws_end(s, e)),
{
    lemma_line_end_at(s, j + 2, n, e);
    assert(!is_ws(s[j]));
    assert(ws_end(s, j) == j);
    assert(e <= s.len());
    lemma_ws_end(s, e);
    lemma_skip_comments(s, ws_end(s, e));
}

/// The end of a line comment is the end of the first line break from `k` on.
proof fn lemma_line_end_at(s: Seq<char>, k: int, n: int, e: int)
    requires
        0 <= k <= n,
        newline_end(s, n) == Some(e),
        forall|q: int| k <= q < n ==> newline_end(s, q) is None,
    ensures
        line_comment_end(s, k) == e,
    decreases n - k,
{
    if k < n {
        assert(newline_end(s, k) is None);
        lemma_line_end_at(s, k + 1, n, e);
    }
}

/// The position after the identifier characters that start at `i`.
pub open spec fn ident_tail_end(s: Seq<char>, i: int) -> int
    decreases s.len() - i,
{
    if 0 <= i < s.len() && is_ident_char(s[i]) {
        ident_tail_end(s, i + 1)
    } else {
        i
    }
}

/// An identifier with nothing around it: a letter or `_`, then letters,
/// digits and `_`.
pub open spec fn bare_ident_end(s: Seq<char>, i: int) -> Option<int> {
    if 0 <= i < s.len() && is_ident_start(s[i]) {
        Some(ident_tail_end(s, i + 1))
    } else {
        None
    }
}

pub proof fn lemma_ident_tail_end(s: Seq<char>, i: int)
    requires
        0 <= i <= s.len(),
    ensures
        i <= ident_tail_end(s, i) <= s.len(),
        forall|k: int| i <= k < ident_tail_end(s, i) ==> is_ident_char(#[trigger] s[k]),
    decreases s.len() - i,
{
    if i < s.len() && is_ident_char(s[i]) {
        lemma_ident_tail_end(s, i + 1);
    }
}

/// An identifier, with whitespace and comments before and after it: its
/// name and the position after it.
pub open spec fn ident(s: Seq<char>, i: int) -> Option<(Seq<char>, int)> {
    let a = ws_end(s, skip_comments(s, i));
    match bare_ident_end(s, a) {
        Some(b) => Some((s.subrange(a, b), skip_comments(s, ws_end(s, b)))),
        None => None,
    }
}

/// The keyword `k`: an identifier, with nothing around it, that is `k`.
pub open spec fn keyword(s: Seq<char>, i: int, k: Seq<char>) -> Option<int> {
    match bare_ident_end(s, i) {
        Some(b) => if s.subrange(i, b) == k {
            Some(b)
        } else {
            None
        },
        None => None,
    }
}

pub proof fn lemma_ident(s: Seq<char>, i: int)
    requires
        0 <= i <= s.len(),
    ensures
        ident(s, i) matches Some((_, j)) ==> i < j <= s.len(),
{
    lemma_skip_comments(s, i);
    let a = ws_end(s, skip_comments(s, i));
    lemma_ws_end(s, skip_comments(s, i));
    if let Some(b) = bare_ident_end(s, a) {
        lemma_ident_tail_end(s, a + 1);
        lemma_ws_end(s, b);
        lemma_skip_comments(s, ws_end(s, b));
    }
}

pub proof fn lemma_keyword(s: Seq<char>, i: int, k: Seq<char>)
    requires
        0 <= i <= s.len(),
    ensures
        keyword(s, i, k) matches Some(j) ==> i < j <= s.len() && j == i + k.len(),
{
    if let Some(b) = bare_ident_end(s, i) {
        lemma_ident_tail_end(s, i + 1);
    }
}

// ---------------------------------------------------------------------------
pub fn is_ws_char(c: char) -> (r: bool)
    ensures
        r == is_ws(c),
{
    ('\u{9}' <= c && c <= '\u{d}') || c == ' ' || c == '\u{85}' || c == '\u{a0}' || c == '\u{1680}'
        || ('\u{2000}' <= c && c <= '\u{200a}') || c == '\u{2028}' || c == '\u{2029}' || c
        == '\u{202f}' || c == '\u{205f}' || c == '\u{3000}'
}

pub fn is_digit_char(c: char) -> (r: bool)
    ensures
        r == is_digit(c),
{
    '0' <= c && c <= '9'
}

pub fn is_ident_start_char(c: char) -> (r: bool)
    ensures
        r == is_ident_start(c),
{
    ('a' <= c && c <= 'z') || ('A' <= c && c <= 'Z') || c == '_'
}

pub fn is_ident_char_exec(c: char) -> (r: bool)
    ensures
        r == is_ident_char(c),
{
    is_ident_start_char(c) || is_digit_char(c)
}

pub fn char_at(s: &Vec<char>, i: usize, c: char) -> (r: bool)
    ensures
        r == at(s@, i as int, c),
        r ==> i < s.len(),
{
    i < s.len() && s[i] == c
}

pub fn chars_at2(s: &Vec<char>, i: usize, a: char, b: char) -> (r: bool)
    ensures
        r == at2(s@, i as int, a, b),
        r ==> i + 1 < s.len(),
{
    if char_at(s, i, a) {
        char_at(s, i + 1, b)
    } else {
        false
    }
}

pub fn chars_at3(s: &Vec<char>, i: usize, a: char, b: char, c: char) -> (r: bool)
    ensures
        r == at3(s@, i as int, a, b, c),
{
    if chars_at2(s, i, a, b) {
        char_at(s, i + 2, c)
    } else {
        false
    }
}

/// The position after the whitespace that starts at `i`.
pub fn skip_ws(s: &Vec<char>, i: usize) -> (r: usize)
    requires
        i <= s.len(),
    ensures
        r as int == ws_end(s@, i as int),
        i <= r <= s.len(),
{
    let mut k = i;
    while k < s.len() && is_ws_char(s[k])
        invariant
            i <= k <= s.len(),
            ws_end(s@, i as int) == ws_end(s@, k as int),
        decreases s.len() - k,
    {
        k = k + 1;
    }
    k
}

fn newline_at(s: &Vec<char>, i: usize) -> (r: Option<usize>)
    requires
        i <= s.len(),
    ensures
        match r {
            Some(j) => newline_end(s@, i as int) == Some(j as int),
            None => newline_end(s@, i as int) is None,
        },
{
    if chars_at2(s, i, '\r', '\n') {
        Some(i + 2)
    } else if char_at(s, i, '\n') {
        Some(i + 1)
    } else if i < s.len() && (s[i] == '\r' || s[i] == '\u{b}' || s[i] == '\u{c}' || s[i]
        == '\u{85}' || s[i] == '\u{2028}' || s[i] == '\u{2029}') {
        Some(i + 1)
    } else {
        None
    }
}

/// The position after a comment that starts at `i`, if one does.
pub fn comment_at(s: &Vec<char>, i: usize) -> (r: Option<usize>)
    requires
        i <= s.len(),
    ensures
        match r {
            Some(j) => comment_end(s@, i as int) == Some(j as int),
            None => comment_end(s@, i as int) is None,
        },
{
    if chars_at2(s, i, '/', '/') {
        let mut k = i + 2;
        while k < s.len()
            invariant
                i + 2 <= k <= s.len(),
                line_comment_end(s@, i + 2) == line_comment_end(s@, k as int),
                comment_end(s@, i as int) == Some(line_comment_end(s@, i + 2)),
            decreases s.len() - k,
        {
            match newline_at(s, k) {
                Some(j) => {
                    return Some(j);
                },
                None => {},
            }
            k = k + 1;
        }
        Some(k)
    } else if chars_at2(s, i, '/', '*') {
        let mut k = i + 2;
        loop
            invariant
                i + 2 <= k <= s.len(),
                block_comment_end(s@, i + 2) == block_comment_end(s@, k as int),
                comment_end(s@, i as int) == block_comment_end(s@, i + 2),
            decreases s.len() - k,
        {
            if chars_at2(s, k, '*', '/') {
                return Some(k + 2);
            }
            if k >= s.len() {
                return None;
            }
            k = k + 1;
        }
    } else {
        None
    }
}

/// Comments with whitespace around them, as many as follow `i`.
pub fn skip_comments_at(s: &Vec<char>, i: usize) -> (r: usize)
    requires
        i <= s.len(),
    ensures
        r as int == skip_comments(s@, i as int),
        i <= r <= s.len(),
{
    let mut k = i;
    loop
        invariant
            i <= k <= s.len(),
            skip_comments(s@, i as int) == skip_comments(s@, k as int),
        decreases s.len() - k,
    {
        let j = skip_ws(s, k);
        proof {
            lemma_comment_end(s@, j as int);
        }
        match comment_at(s, j) {
            Some(m) => {
                k = skip_ws(s, m);
            },
            None => {
                return k;
            },
        }
    }
}

/// The position after an identifier, with nothing around it, that starts at `i`.
pub fn bare_ident_at(s: &Vec<char>, i: usize) -> (r: Option<usize>)
    requires
        i <= s.len(),
    ensures
        match r {
            Some(j) => bare_ident_end(s@, i as int) == Some(j as int) && i < j <= s.len(),
            None => bare_ident_end(s@, i as int) is None,
        },
{
    if i < s.len() && is_ident_start_char(s[i]) {
        let mut k = i + 1;
        while k < s.len() && is_ident_char_exec(s[k])
            invariant
                i + 1 <= k <= s.len(),
                ident_tail_end(s@, i + 1) == ident_tail_end(s@, k as int),
            decreases s.len() - k,
        {
            k = k + 1;
        }
        Some(k)
    } else {
        None
    }
}

/// Calls `FromIterator<char>` for `String` on `s[start..end]`: the string of
/// those characters.
#[verifier::external_body]
pub(crate) fn string_of(s: &Vec<char>, start: usize, end: usize) -> (r: String)
    requires
        start <= end <= s.len(),
    ensures
        r@ == s@.subrange(start as int, end as int),
{
    s[start..end].iter().collect()
}

/// An identifier with whitespace and comments around it: its name and the
/// position after it.
pub fn ident_at(s: &Vec<char>, i: usize) -> (r: Option<(String, usize)>)
    requires
        i <= s.len(),
    ensures
        match r {
            Some((n, j)) => ident(s@, i as int) == Some((n@, j as int)) && i < j <= s.len(),
            None => ident(s@, i as int) is None,
        },
{
    let a = skip_ws(s, skip_comments_at(s, i));
    match bare_ident_at(s, a) {
        Some(b) => {
            let name = string_of(s, a, b);
            let c = skip_comments_at(s, skip_ws(s, b));
            Some((name, c))
        },
        None => None,
    }
}

/// Whether `s[a..b]` is `k`.
pub fn range_is(s: &Vec<char>, a: usize, b: usize, k: &[char]) -> (r: bool)
    requires
        a <= b <= s.len(),
    ensures
        r == (s@.subrange(a as int, b as int) == k@),
{
    if b - a != k.len() {
        return false;
    }
    let mut t: usize = 0;
    while t < k.len()
        invariant
            b - a == k.len(),
            a <= b <= s.len(),
            t <= k.len(),
            forall|u: int| 0 <= u < t ==> s@[a + u] == k@[u],
        decreases k.len() - t,
    {
        if s[a + t] != k[t] {
            return false;
        }
        t = t + 1;
    }
    assert(s@.subrange(a as int, b as int) =~= k@);
    true
}

/// The position after the keyword `k` when it starts at `i`.
pub fn keyword_at(s: &Vec<char>, i: usize, k: &[char]) -> (r: Option<usize>)
    requires
        i <= s.len(),
    ensures
        match r {
            Some(j) => keyword(s@, i as int, k@) == Some(j as int) && i < j <= s.len(),
            None => keyword(s@, i as int, k@) is None,
        },
{
    match bare_ident_at(s, i) {
        Some(b) => if range_is(s, i, b, k) {
            Some(b)
        } else {
            None
        },
        None => None,
    }
}

/// The span `start..end` of the source `src`.
pub open spec fn sp(src: crate::span::SrcId, start: int, end: int) -> Span {
    Span { src, start: start as usize, end: end as usize }
}

} // verus!
