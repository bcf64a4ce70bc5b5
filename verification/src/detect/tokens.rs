//! Tags, separators and the other small tokens that surround titles and
//! episode numbers in filenames.
use vstd::prelude::*;

use super::text::{
    any_whitespace, any_ws, char_at, char_is, digits_end, eq_ci, eq_ci_char, is_digit_char,
    lemma_ws_end, match_ci, matches_ci, maybe_whitespace, same_idx, ws_end,
};

verus! {

// ---------------------------------------------------------------------------
// Tags
// ---------------------------------------------------------------------------

/// Position of the first `c` at or after `i`.
pub open spec fn first_index_of(s: Seq<char>, i: int, c: char) -> Option<int>
    decreases s.len() - i,
{
    if i < 0 || i >= s.len() {
        None
    } else if s[i] == c {
        Some(i)
    } else {
        first_index_of(s, i + 1, c)
    }
}

pub proof fn lemma_first_index_of(s: Seq<char>, i: int, c: char)
    requires
        0 <= i,
    ensures
        first_index_of(s, i, c) matches Some(k) ==> i <= k < s.len() && s[k] == c,
    decreases s.len() - i,
{
    if 0 <= i < s.len() && s[i] != c {
        lemma_first_index_of(s, i + 1, c);
    }
}

fn find_char(s: &[char], i: usize, c: char) -> (r: Option<usize>)
    requires
        i <= s.len(),
    ensures
        same_idx(r, first_index_of(s@, i as int, c)),
        r matches Some(k) ==> i <= k < s.len(),
{
    let mut k = i;
    while k < s.len()
        invariant
            i <= k <= s.len(),
            first_index_of(s@, i as int, c) == first_index_of(s@, k as int, c),
        decreases s.len() - k,
    {
        if s[k] == c {
            return Some(k);
        }
        k += 1;
    }
    None
}

/// A tag: where it ends, and the range of its content.
pub type TagSpan = (int, int, int);

/// `open`, then everything up to the first `close`, then `close`.
pub open spec fn delimited_tag(s: Seq<char>, i: int, open: char, close: char) -> Option<TagSpan> {
    if char_at(s, i, open) {
        match first_index_of(s, i + 1, close) {
            Some(k) => Some((k + 1, i + 1, k)),
            None => None,
        }
    } else {
        None
    }
}

pub open spec fn lit_480p() -> Seq<char> {
    seq!['4', '8', '0', 'p']
}

pub open spec fn lit_720p() -> Seq<char> {
    seq!['7', '2', '0', 'p']
}

pub open spec fn lit_1080p() -> Seq<char> {
    seq!['1', '0', '8', '0', 'p']
}

pub open spec fn lit_2160p() -> Seq<char> {
    seq!['2', '1', '6', '0', 'p']
}

pub open spec fn lit_4320p() -> Seq<char> {
    seq!['4', '3', '2', '0', 'p']
}

/// A video resolution written as a tag, such as `1080p` (any case).
pub open spec fn resolution_tag(s: Seq<char>, i: int) -> Option<TagSpan> {
    if matches_ci(s, i, s.len() as int, lit_480p()) {
        Some((i + 4, i, i + 4))
    } else if matches_ci(s, i, s.len() as int, lit_720p()) {
        Some((i + 4, i, i + 4))
    } else if matches_ci(s, i, s.len() as int, lit_1080p()) {
        Some((i + 5, i, i + 5))
    } else if matches_ci(s, i, s.len() as int, lit_2160p()) {
        Some((i + 5, i, i + 5))
    } else if matches_ci(s, i, s.len() as int, lit_4320p()) {
        Some((i + 5, i, i + 5))
    } else {
        None
    }
}

/// `any_tag`: `(..)`, `[..]` or a resolution.
pub open spec fn any_tag(s: Seq<char>, i: int) -> Option<TagSpan> {
    match delimited_tag(s, i, '(', ')') {
        Some(t) => Some(t),
        None => match delimited_tag(s, i, '[', ']') {
            Some(t) => Some(t),
            None => resolution_tag(s, i),
        },
    }
}

/// `any_tag_with_whitespace`: a tag with optional whitespace on both sides.
pub open spec fn any_tag_ws(s: Seq<char>, i: int) -> Option<TagSpan> {
    match any_tag(s, ws_end(s, i)) {
        Some((j, cs, ce)) => Some((ws_end(s, j), cs, ce)),
        None => None,
    }
}

/// The properties of a successful tag parse that the rest of the grammar relies on.
pub open spec fn tag_span_ok(s: Seq<char>, i: int, t: TagSpan) -> bool {
    &&& i < t.0 <= s.len()
    &&& i <= t.1 <= t.2 <= t.0
}

pub proof fn lemma_any_tag(s: Seq<char>, i: int)
    requires
        0 <= i <= s.len(),
    ensures
        any_tag(s, i) matches Some(t) ==> tag_span_ok(s, i, t),
        any_tag_ws(s, i) matches Some(t) ==> tag_span_ok(s, i, t),
{
    lemma_first_index_of(s, i + 1, ')');
    lemma_first_index_of(s, i + 1, ']');
    lemma_ws_end(s, i);
    let a = ws_end(s, i);
    lemma_first_index_of(s, a + 1, ')');
    lemma_first_index_of(s, a + 1, ']');
    if let Some((j, cs, ce)) = any_tag(s, a) {
        lemma_ws_end(s, j);
    }
}

const TAG_480P: [char; 4] = ['4', '8', '0', 'p'];
const TAG_720P: [char; 4] = ['7', '2', '0', 'p'];
const TAG_1080P: [char; 5] = ['1', '0', '8', '0', 'p'];
const TAG_2160P: [char; 5] = ['2', '1', '6', '0', 'p'];
const TAG_4320P: [char; 5] = ['4', '3', '2', '0', 'p'];

fn delimited(s: &[char], i: usize, open: char, close: char) -> (r: Option<(usize, usize, usize)>)
    requires
        i <= s.len(),
    ensures
        same_span(r, delimited_tag(s@, i as int, open, close)),
{
    proof {
        lemma_first_index_of(s@, i + 1, close);
    }
    if char_is(s, i, open) {
        match find_char(s, i + 1, close) {
            Some(k) => Some((k + 1, i + 1, k)),
            None => None,
        }
    } else {
        None
    }
}

/// An executable tag agrees with a spec one.
pub open spec fn same_span(r: Option<(usize, usize, usize)>, t: Option<TagSpan>) -> bool {
    match r {
        Some((a, b, c)) => t == Some((a as int, b as int, c as int)),
        None => t is None,
    }
}

fn resolution(s: &[char], i: usize) -> (r: Option<(usize, usize, usize)>)
    requires
        i <= s.len(),
    ensures
        same_span(r, resolution_tag(s@, i as int)),
{
    let n = s.len();
    let a = TAG_480P.as_slice();
    let b = TAG_720P.as_slice();
    let c = TAG_1080P.as_slice();
    let d = TAG_2160P.as_slice();
    let e = TAG_4320P.as_slice();
    assert(a@ == lit_480p());
    assert(b@ == lit_720p());
    assert(c@ == lit_1080p());
    assert(d@ == lit_2160p());
    assert(e@ == lit_4320p());
    if match_ci(s, i, n, a) {
        Some((i + 4, i, i + 4))
    } else if match_ci(s, i, n, b) {
        Some((i + 4, i, i + 4))
    } else if match_ci(s, i, n, c) {
        Some((i + 5, i, i + 5))
    } else if match_ci(s, i, n, d) {
        Some((i + 5, i, i + 5))
    } else if match_ci(s, i, n, e) {
        Some((i + 5, i, i + 5))
    } else {
        None
    }
}

/// `any_tag`: a parenthesised tag, a bracketed tag, or a resolution.
pub fn tag(s: &[char], i: usize) -> (r: Option<(usize, usize, usize)>)
    requires
        i <= s.len(),
    ensures
        same_span(r, any_tag(s@, i as int)),
        r matches Some((j, cs, ce)) ==> i < j <= s.len() && i <= cs <= ce <= j,
{
    proof {
        lemma_any_tag(s@, i as int);
    }
    match delimited(s, i, '(', ')') {
        Some(t) => Some(t),
        None => match delimited(s, i, '[', ']') {
            Some(t) => Some(t),
            None => resolution(s, i),
        },
    }
}

/// `any_tag_with_whitespace`.
pub fn tag_with_whitespace(s: &[char], i: usize) -> (r: Option<(usize, usize, usize)>)
    requires
        i <= s.len(),
    ensures
        same_span(r, any_tag_ws(s@, i as int)),
        r matches Some((j, cs, ce)) ==> i < j <= s.len() && i <= cs <= ce <= j,
{
    proof {
        lemma_any_tag(s@, i as int);
    }
    let a = maybe_whitespace(s, i);
    match tag(s, a) {
        Some((j, cs, ce)) => Some((maybe_whitespace(s, j), cs, ce)),
        None => None,
    }
}

/// `many_tags_with_whitespace`: as many tags as follow one another.
pub open spec fn many_tags(s: Seq<char>, i: int) -> int
    decreases s.len() - i,
{
    match any_tag_ws(s, i) {
        Some((j, _, _)) => if i < j <= s.len() {
            many_tags(s, j)
        } else {
            i
        },
        None => i,
    }
}

pub proof fn lemma_many_tags(s: Seq<char>, i: int)
    requires
        0 <= i <= s.len(),
    ensures
        i <= many_tags(s, i) <= s.len(),
    decreases s.len() - i,
{
    if let Some((j, _, _)) = any_tag_ws(s, i) {
        if i < j <= s.len() {
            lemma_many_tags(s, j);
        }
    }
}

pub fn skip_tags(s: &[char], i: usize) -> (r: usize)
    requires
        i <= s.len(),
    ensures
        r == many_tags(s@, i as int),
        i <= r <= s.len(),
{
    let mut j = i;
    loop
        invariant
            i <= j <= s.len(),
            many_tags(s@, i as int) == many_tags(s@, j as int),
        decreases s.len() - j,
    {
        proof {
            lemma_any_tag(s@, j as int);
        }
        match tag_with_whitespace(s, j) {
            Some((k, _, _)) => {
                j = k;
            },
            None => {
                return j;
            },
        }
    }
}

// ---------------------------------------------------------------------------
// Separators and the end of a filename
// ---------------------------------------------------------------------------

/// `separator`: a dash with optional whitespace on both sides.
pub open spec fn separator(s: Seq<char>, i: int) -> Option<int> {
    let a = ws_end(s, i);
    if char_at(s, a, '-') {
        Some(ws_end(s, a + 1))
    } else {
        None
    }
}

pub proof fn lemma_separator(s: Seq<char>, i: int)
    requires
        0 <= i <= s.len(),
    ensures
        separator(s, i) matches Some(j) ==> i < j <= s.len(),
{
    lemma_ws_end(s, i);
    let a = ws_end(s, i);
    if a < s.len() {
        lemma_ws_end(s, a + 1);
    }
}

pub fn parse_separator(s: &[char], i: usize) -> (r: Option<usize>)
    requires
        i <= s.len(),
    ensures
        same_idx(r, separator(s@, i as int)),
        r matches Some(j) ==> i < j <= s.len(),
{
    proof {
        lemma_separator(s@, i as int);
    }
    let a = maybe_whitespace(s, i);
    if char_is(s, a, '-') {
        Some(maybe_whitespace(s, a + 1))
    } else {
        None
    }
}

/// `rest_of_filename_tags_only`: nothing but tags and whitespace remains
/// (optionally after a separator followed by whitespace).
pub open spec fn rest_is_tags_only(s: Seq<char>, i: int) -> bool {
    let j0 = match separator(s, i) {
        Some(a) => match any_ws(s, a) {
            Some(b) => b,
            None => i,
        },
        None => i,
    };
    ws_end(s, many_tags(s, j0)) == s.len()
}

pub fn rest_tags_only(s: &[char], i: usize) -> (r: bool)
    requires
        i <= s.len(),
    ensures
        r == rest_is_tags_only(s@, i as int),
{
    proof {
        lemma_separator(s@, i as int);
        if let Some(a) = separator(s@, i as int) {
            lemma_ws_end(s@, a);
        }
    }
    let j0 = match parse_separator(s, i) {
        Some(a) => match any_whitespace(s, a) {
            Some(b) => b,
            None => i,
        },
        None => i,
    };
    let j1 = skip_tags(s, j0);
    maybe_whitespace(s, j1) == s.len()
}

/// `file_version`: `v` (any case) and digits, as in `v2`.
pub open spec fn file_version(s: Seq<char>, i: int) -> Option<int> {
    if 0 <= i < s.len() && eq_ci(s[i], 'v') && i + 1 < digits_end(s, i + 1) {
        Some(digits_end(s, i + 1))
    } else {
        None
    }
}

fn digits_run_end(s: &[char], i: usize) -> (r: usize)
    requires
        i <= s.len(),
    ensures
        r == digits_end(s@, i as int),
        i <= r <= s.len(),
{
    let mut j = i;
    while j < s.len() && is_digit_char(s[j])
        invariant
            i <= j <= s.len(),
            digits_end(s@, i as int) == digits_end(s@, j as int),
        decreases s.len() - j,
    {
        j += 1;
    }
    j
}

pub fn parse_file_version(s: &[char], i: usize) -> (r: Option<usize>)
    requires
        i <= s.len(),
    ensures
        same_idx(r, file_version(s@, i as int)),
        r matches Some(j) ==> i < j <= s.len(),
{
    if i < s.len() && eq_ci_char(s[i], 'v') {
        let j = digits_run_end(s, i + 1);
        if i + 1 < j {
            return Some(j);
        }
    }
    None
}

} // verus!
