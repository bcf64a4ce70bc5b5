//! Look for an episode number within a filename.
//!
//! Filenames may mark the episode number explicitly (`Series Title - Episode 01`,
//! `Series Title S01E01`) or implicitly (`Series Title 01`, `Series Title - 01`).
//! Explicit markers are looked for first, to avoid false positives.
//!
//! Each rule of the grammar is a spec function over the filename's characters;
//! each executable parser is proved to compute exactly its rule.
use vstd::prelude::*;

use super::format::{format_table, names_view, table_view, Format};
use super::text::{
    any_whitespace, any_ws, char_at, char_is, digit_at, digit_is_at, match_ci, matches_ci,
    maybe_whitespace, same_idx, parse_u16, parse_u32, parsed_digits, str_chars, ws_end,
};
use super::tokens::{
    any_tag, file_version, lemma_separator, many_tags, parse_file_version, parse_separator,
    rest_is_tags_only, rest_tags_only, separator, skip_tags, tag,
};
use super::Error;

verus! {

// ---------------------------------------------------------------------------
// Search
// ---------------------------------------------------------------------------

/// Try `p` at `k`, `k + 1`, ..., `end`, and stop at the first position where
/// it succeeds: that position and the value of `p` there.
pub open spec fn skip_till<T>(p: spec_fn(int) -> Option<T>, k: int, end: int) -> Option<(int, T)>
    decreases end - k + 1,
{
    if k < 0 || k > end {
        None
    } else {
        match p(k) {
            Some(v) => Some((k, v)),
            None => skip_till(p, k + 1, end),
        }
    }
}

pub proof fn lemma_skip_till_found<T>(p: spec_fn(int) -> Option<T>, k: int, end: int)
    requires
        0 <= k,
    ensures
        skip_till(p, k, end) matches Some((j, v)) ==> k <= j <= end && p(j) == Some(v)
            && forall|m: int| k <= m < j ==> #[trigger] p(m) is None,
    decreases end - k + 1,
{
    if k <= end && p(k) is None {
        lemma_skip_till_found(p, k + 1, end);
    }
}

/// An executable result agrees with a spec result that carries a position.
pub open spec fn same_pos<T>(r: Option<(usize, T)>, s: Option<(int, T)>) -> bool {
    match r {
        Some((j, v)) => s == Some((j as int, v)),
        None => s is None,
    }
}

// ---------------------------------------------------------------------------
// Literals
// ---------------------------------------------------------------------------

pub open spec fn lit_season() -> Seq<char> {
    seq!['s', 'e', 'a', 's', 'o', 'n']
}

pub open spec fn lit_s() -> Seq<char> {
    seq!['s']
}

pub open spec fn lit_episode() -> Seq<char> {
    seq!['e', 'p', 'i', 's', 'o', 'd', 'e']
}

pub open spec fn lit_ep() -> Seq<char> {
    seq!['e', 'p']
}

pub open spec fn lit_e() -> Seq<char> {
    seq!['e']
}

const SEASON: [char; 6] = ['s', 'e', 'a', 's', 'o', 'n'];
const S: [char; 1] = ['s'];
const EPISODE: [char; 7] = ['e', 'p', 'i', 's', 'o', 'd', 'e'];
const EP: [char; 2] = ['e', 'p'];
const E: [char; 1] = ['e'];

// ---------------------------------------------------------------------------
// Formats named in a filename
// ---------------------------------------------------------------------------

/// The first mapping, from index `idx` on, whose name stands at `i`.
pub open spec fn bare_format_from<F>(
    s: Seq<char>,
    i: int,
    end: int,
    m: Seq<(Seq<char>, F)>,
    idx: int,
) -> Option<(int, F)>
    decreases m.len() - idx,
{
    if idx < 0 || idx >= m.len() {
        None
    } else if matches_ci(s, i, end, m[idx].0) {
        Some((i + m[idx].0.len(), m[idx].1))
    } else {
        bare_format_from(s, i, end, m, idx + 1)
    }
}

/// `any_bare_series_format`: the name of a format at `i` (ending by `end`).
pub open spec fn bare_format<F>(s: Seq<char>, i: int, end: int, m: Seq<(Seq<char>, F)>) -> Option<
    (int, F),
> {
    bare_format_from(s, i, end, m, 0)
}

fn match_format<F: Copy>(s: &[char], i: usize, end: usize, table: &[(Vec<char>, F)]) -> (r: Option<
    (usize, F),
>)
    requires
        i <= end <= s.len(),
    ensures
        same_pos(r, bare_format(s@, i as int, end as int, table_view(table@))),
        r matches Some((j, _)) ==> i <= j <= end,
{
    let ghost m = table_view(table@);
    let mut idx: usize = 0;
    while idx < table.len()
        invariant
            idx <= table.len(),
            i <= end <= s.len(),
            m == table_view(table@),
            bare_format(s@, i as int, end as int, m) == bare_format_from(
                s@,
                i as int,
                end as int,
                m,
                idx as int,
            ),
        decreases table.len() - idx,
    {
        let name = table[idx].0.as_slice();
        assert(m[idx as int].0 == name@);
        if match_ci(s, i, end, name) {
            return Some((i + name.len(), table[idx].1));
        }
        idx += 1;
    }
    None
}

/// `any_series_format_in_tag`: a tag whose content begins with a format name.
pub open spec fn format_in_tag<F>(s: Seq<char>, a: int, m: Seq<(Seq<char>, F)>) -> Option<(int, F)> {
    match any_tag(s, a) {
        Some((j, cs, ce)) => match bare_format(s, cs, ce, m) {
            Some((_, f)) => Some((j, f)),
            None => None,
        },
        None => None,
    }
}

fn parse_format_in_tag<F: Copy>(s: &[char], a: usize, table: &[(Vec<char>, F)]) -> (r: Option<
    (usize, F),
>)
    requires
        a <= s.len(),
    ensures
        same_pos(r, format_in_tag(s@, a as int, table_view(table@))),
        r matches Some((j, _)) ==> a < j <= s.len(),
{
    match tag(s, a) {
        Some((j, cs, ce)) => match match_format(s, cs, ce, table) {
            Some((_, f)) => Some((j, f)),
            None => None,
        },
        None => None,
    }
}

/// `complete_series_format_label`: a format name, bare or in a tag, with an
/// optional file version after it.
pub open spec fn complete_label<F>(s: Seq<char>, a: int, m: Seq<(Seq<char>, F)>) -> Option<(int, F)> {
    let x = match format_in_tag(s, a, m) {
        Some(x) => Some(x),
        None => bare_format(s, a, s.len() as int, m),
    };
    match x {
        Some((b, f)) => Some(
            (
                match file_version(s, b) {
                    Some(c) => c,
                    None => b,
                },
                f,
            ),
        ),
        None => None,
    }
}

fn parse_complete_label<F: Copy>(s: &[char], a: usize, table: &[(Vec<char>, F)]) -> (r: Option<
    (usize, F),
>)
    requires
        a <= s.len(),
    ensures
        same_pos(r, complete_label(s@, a as int, table_view(table@))),
        r matches Some((j, _)) ==> a <= j <= s.len(),
{
    let x = match parse_format_in_tag(s, a, table) {
        Some(x) => Some(x),
        None => match_format(s, a, s.len(), table),
    };
    match x {
        Some((b, f)) => {
            let c = match parse_file_version(s, b) {
                Some(c) => c,
                None => b,
            };
            Some((c, f))
        },
        None => None,
    }
}

/// What `isolated_series_format_label` tries at each position: a separator or
/// whitespace, a format label, then a separator or the end of the name.
pub open spec fn label_at<F>(s: Seq<char>, m: Seq<(Seq<char>, F)>, k: int) -> Option<F> {
    let a = match separator(s, k) {
        Some(a) => Some(a),
        None => any_ws(s, k),
    };
    match a {
        Some(a) => match complete_label(s, a, m) {
            Some((b, f)) => if separator(s, b) is Some || rest_is_tags_only(s, b) {
                Some(f)
            } else {
                None
            },
            None => None,
        },
        None => None,
    }
}

pub open spec fn label_parser<F>(s: Seq<char>, m: Seq<(Seq<char>, F)>) -> spec_fn(int) -> Option<F> {
    |k: int| label_at(s, m, k)
}

/// `isolated_series_format_label`: the first format label that stands apart
/// from the rest of the filename.
pub open spec fn isolated_label<F>(s: Seq<char>, m: Seq<(Seq<char>, F)>) -> Option<F> {
    match skip_till(label_parser(s, m), 0, s.len() as int) {
        Some((_, f)) => Some(f),
        None => None,
    }
}

fn parse_label_at<F: Copy>(s: &[char], k: usize, table: &[(Vec<char>, F)]) -> (r: Option<F>)
    requires
        k <= s.len(),
    ensures
        r == label_at(s@, table_view(table@), k as int),
{
    let a = match parse_separator(s, k) {
        Some(a) => Some(a),
        None => any_whitespace(s, k),
    };
    proof {
        super::text::lemma_ws_end(s@, k as int);
    }
    match a {
        Some(a) => match parse_complete_label(s, a, table) {
            Some((b, f)) => {
                if parse_separator(s, b).is_some() || rest_tags_only(s, b) {
                    Some(f)
                } else {
                    None
                }
            },
            None => None,
        },
        None => None,
    }
}

fn find_isolated_label<F: Copy>(s: &[char], table: &[(Vec<char>, F)]) -> (r: Option<F>)
    ensures
        r == isolated_label(s@, table_view(table@)),
{
    let ghost p = label_parser(s@, table_view(table@));
    let mut k: usize = 0;
    loop
        invariant
            k <= s.len(),
            p == label_parser(s@, table_view(table@)),
            skip_till(p, 0, s.len() as int) == skip_till(p, k as int, s.len() as int),
        decreases s.len() - k,
    {
        match parse_label_at(s, k, table) {
            Some(f) => {
                return Some(f);
            },
            None => {},
        }
        if k == s.len() {
            assert(skip_till(p, k + 1, s.len() as int) is None);
            return None;
        }
        k += 1;
    }
}

// ---------------------------------------------------------------------------
// Explicit markers
// ---------------------------------------------------------------------------

/// The result of looking for an episode number in a filename.
#[derive(Debug)]
pub struct Parsed<F> {
    pub number: u32,
    pub season: Option<u16>,
    pub format: Option<F>,
}

/// `season_marker`: `season` and whitespace, or `s`, then the season number.
pub open spec fn season_marker(s: Seq<char>, i: int) -> Option<(int, int)> {
    let start = if matches_ci(s, i, s.len() as int, lit_season()) && any_ws(s, i + 6) is Some {
        any_ws(s, i + 6)
    } else if matches_ci(s, i, s.len() as int, lit_s()) {
        Some(i + 1)
    } else {
        None
    };
    match start {
        Some(a) => parsed_digits(s, a, u16::MAX as int),
        None => None,
    }
}

fn parse_season_marker(s: &[char], i: usize) -> (r: Option<(usize, u16)>)
    requires
        i <= s.len(),
    ensures
        match r {
            Some((j, v)) => season_marker(s@, i as int) == Some((j as int, v as int)),
            None => season_marker(s@, i as int) is None,
        },
        r matches Some((j, _)) ==> i < j <= s.len(),
{
    let n = s.len();
    let season = SEASON.as_slice();
    let s1 = S.as_slice();
    assert(season@ == lit_season());
    assert(s1@ == lit_s());
    let start = if match_ci(s, i, n, season) && any_whitespace(s, i + 6).is_some() {
        any_whitespace(s, i + 6)
    } else if match_ci(s, i, n, s1) {
        Some(i + 1)
    } else {
        None
    };
    proof {
        if i + 6 <= s.len() {
            super::text::lemma_ws_end(s@, i + 6);
        }
    }
    match start {
        Some(a) => parse_u16(s, a),
        None => None,
    }
}

/// `episode_header`: `episode` and whitespace, `ep`, `e`, or a format name.
pub open spec fn episode_header<F>(s: Seq<char>, i: int, m: Seq<(Seq<char>, F)>) -> Option<
    (int, Option<F>),
> {
    if matches_ci(s, i, s.len() as int, lit_episode()) && any_ws(s, i + 7) is Some {
        Some((any_ws(s, i + 7).unwrap(), None))
    } else if matches_ci(s, i, s.len() as int, lit_ep()) {
        Some((ws_end(s, i + 2), None))
    } else if matches_ci(s, i, s.len() as int, lit_e()) {
        Some((i + 1, None))
    } else {
        match bare_format(s, i, s.len() as int, m) {
            Some((j, f)) => Some((j, Some(f))),
            None => None,
        }
    }
}

fn parse_episode_header<F: Copy>(s: &[char], i: usize, table: &[(Vec<char>, F)]) -> (r: Option<
    (usize, Option<F>),
>)
    requires
        i <= s.len(),
    ensures
        same_pos(r, episode_header(s@, i as int, table_view(table@))),
        r matches Some((j, _)) ==> i <= j <= s.len(),
{
    let n = s.len();
    let episode = EPISODE.as_slice();
    let ep = EP.as_slice();
    let e = E.as_slice();
    assert(episode@ == lit_episode());
    assert(ep@ == lit_ep());
    assert(e@ == lit_e());
    proof {
        if i + 7 <= s.len() {
            super::text::lemma_ws_end(s@, i + 7);
        }
        if i + 2 <= s.len() {
            super::text::lemma_ws_end(s@, i + 2);
        }
    }
    if match_ci(s, i, n, episode) {
        match any_whitespace(s, i + 7) {
            Some(a) => {
                return Some((a, None));
            },
            None => {},
        }
    }
    if match_ci(s, i, n, ep) {
        Some((maybe_whitespace(s, i + 2), None))
    } else if match_ci(s, i, n, e) {
        Some((i + 1, None))
    } else {
        match match_format(s, i, n, table) {
            Some((j, f)) => Some((j, Some(f))),
            None => None,
        }
    }
}

/// `season_followed_by_episode`: a season marker, an optional dash, an
/// optional episode header, then the episode number.
pub open spec fn season_then_episode<F>(s: Seq<char>, i: int, m: Seq<(Seq<char>, F)>) -> Option<
    (int, Parsed<F>),
> {
    match season_marker(s, i) {
        Some((a, season)) => {
            let b = ws_end(s, a);
            let c = if char_at(s, b, '-') {
                b + 1
            } else {
                b
            };
            let d = ws_end(s, c);
            let (e, fmt) = match episode_header(s, d, m) {
                Some((e, f)) => (e, f),
                None => (d, None),
            };
            match parsed_digits(s, e, u32::MAX as int) {
                Some((g, ep)) => Some(
                    (g, Parsed { number: ep as u32, season: Some(season as u16), format: fmt }),
                ),
                None => None,
            }
        },
        None => None,
    }
}

fn parse_season_then_episode<F: Copy>(s: &[char], i: usize, table: &[(Vec<char>, F)]) -> (r: Option<
    (usize, Parsed<F>),
>)
    requires
        i <= s.len(),
    ensures
        same_pos(r, season_then_episode(s@, i as int, table_view(table@))),
        r matches Some((j, _)) ==> i <= j <= s.len(),
{
    match parse_season_marker(s, i) {
        Some((a, season)) => {
            let b = maybe_whitespace(s, a);
            let c = if char_is(s, b, '-') {
                b + 1
            } else {
                b
            };
            let d = maybe_whitespace(s, c);
            let (e, fmt) = match parse_episode_header(s, d, table) {
                Some((e, f)) => (e, f),
                None => (d, None),
            };
            match parse_u32(s, e) {
                Some((g, ep)) => Some((g, Parsed { number: ep, season: Some(season), format: fmt })),
                None => None,
            }
        },
        None => None,
    }
}

/// `episode_num_marker`: an episode header, an optional separator, then the
/// episode number.
pub open spec fn episode_num_marker<F>(s: Seq<char>, i: int, m: Seq<(Seq<char>, F)>) -> Option<
    (int, Parsed<F>),
> {
    match episode_header(s, i, m) {
        Some((a, fmt)) => {
            let b = match separator(s, a) {
                Some(b) => b,
                None => a,
            };
            match parsed_digits(s, b, u32::MAX as int) {
                Some((c, num)) => Some((c, Parsed { number: num as u32, season: None, format: fmt })),
                None => None,
            }
        },
        None => None,
    }
}

fn parse_episode_num_marker<F: Copy>(s: &[char], i: usize, table: &[(Vec<char>, F)]) -> (r: Option<
    (usize, Parsed<F>),
>)
    requires
        i <= s.len(),
    ensures
        same_pos(r, episode_num_marker(s@, i as int, table_view(table@))),
        r matches Some((j, _)) ==> i <= j <= s.len(),
{
    match parse_episode_header(s, i, table) {
        Some((a, fmt)) => {
            proof {
                lemma_separator(s@, a as int);
            }
            let b = match parse_separator(s, a) {
                Some(b) => b,
                None => a,
            };
            match parse_u32(s, b) {
                Some((c, num)) => Some((c, Parsed { number: num, season: None, format: fmt })),
                None => None,
            }
        },
        None => None,
    }
}

/// `any_marker_type`: a season-and-episode marker, else an episode marker.
pub open spec fn any_marker<F>(s: Seq<char>, i: int, m: Seq<(Seq<char>, F)>) -> Option<
    (int, Parsed<F>),
> {
    match season_then_episode(s, i, m) {
        Some(x) => Some(x),
        None => episode_num_marker(s, i, m),
    }
}

pub open spec fn marker_parser<F>(s: Seq<char>, m: Seq<(Seq<char>, F)>) -> spec_fn(int) -> Option<
    (int, Parsed<F>),
> {
    |k: int| any_marker(s, k, m)
}

/// Explicitly marked episodes: skip leading tags, then look for the first
/// marker.
pub open spec fn explicit_marker<F>(s: Seq<char>, m: Seq<(Seq<char>, F)>) -> Option<Parsed<F>> {
    match skip_till(marker_parser(s, m), many_tags(s, 0), s.len() as int) {
        Some((_, (_, p))) => Some(p),
        None => None,
    }
}

fn find_explicit_marker<F: Copy>(s: &[char], table: &[(Vec<char>, F)]) -> (r: Option<Parsed<F>>)
    ensures
        r == explicit_marker(s@, table_view(table@)),
{
    let ghost p = marker_parser(s@, table_view(table@));
    let start = skip_tags(s, 0);
    let mut k = start;
    loop
        invariant
            start <= k <= s.len(),
            start == many_tags(s@, 0),
            p == marker_parser(s@, table_view(table@)),
            skip_till(p, start as int, s.len() as int) == skip_till(p, k as int, s.len() as int),
        decreases s.len() - k,
    {
        let found = match parse_season_then_episode(s, k, table) {
            Some(x) => Some(x),
            None => parse_episode_num_marker(s, k, table),
        };
        match found {
            Some((_, parsed)) => {
                return Some(parsed);
            },
            None => {},
        }
        if k == s.len() {
            assert(skip_till(p, k + 1, s.len() as int) is None);
            return None;
        }
        k += 1;
    }
}

// ---------------------------------------------------------------------------
// Implicit markers
// ---------------------------------------------------------------------------

/// Whitespace or a separator, whichever comes first.
pub open spec fn gap(s: Seq<char>, k: int) -> Option<int> {
    match any_ws(s, k) {
        Some(a) => Some(a),
        None => separator(s, k),
    }
}

fn parse_gap(s: &[char], k: usize) -> (r: Option<usize>)
    requires
        k <= s.len(),
    ensures
        same_idx(r, gap(s@, k as int)),
        r matches Some(a) ==> k < a <= s.len(),
{
    proof {
        super::text::lemma_ws_end(s@, k as int);
    }
    match any_whitespace(s, k) {
        Some(a) => Some(a),
        None => parse_separator(s, k),
    }
}

/// `episode_number`: whitespace or a separator, then digits that are not
/// closely followed by more digits (those would likely be a season number).
pub open spec fn episode_number(s: Seq<char>, k: int) -> Option<(int, int)> {
    match gap(s, k) {
        Some(a) => match parsed_digits(s, a, u32::MAX as int) {
            Some((b, ep)) => match gap(s, b) {
                Some(c) => if digit_at(s, c) {
                    None
                } else {
                    Some((b, ep))
                },
                None => Some((b, ep)),
            },
            None => None,
        },
        None => None,
    }
}

fn parse_episode_number(s: &[char], k: usize) -> (r: Option<(usize, u32)>)
    requires
        k <= s.len(),
    ensures
        match r {
            Some((b, v)) => episode_number(s@, k as int) == Some((b as int, v as int)),
            None => episode_number(s@, k as int) is None,
        },
        r matches Some((b, _)) ==> k < b <= s.len(),
{
    match parse_gap(s, k) {
        Some(a) => match parse_u32(s, a) {
            Some((b, ep)) => match parse_gap(s, b) {
                Some(c) => {
                    if digit_is_at(s, c) {
                        None
                    } else {
                        Some((b, ep))
                    }
                },
                None => Some((b, ep)),
            },
            None => None,
        },
        None => None,
    }
}

pub open spec fn rest_tags_parser(s: Seq<char>) -> spec_fn(int) -> Option<()> {
    |k: int|
        if rest_is_tags_only(s, k) {
            Some(())
        } else {
            None
        }
}

/// A separator not followed by digits, then a description up to the trailing
/// tags.
pub open spec fn skip_description(s: Seq<char>, a: int) -> bool {
    match separator(s, a) {
        Some(b) => !digit_at(s, b) && skip_till(rest_tags_parser(s), b, s.len() as int) is Some,
        None => false,
    }
}

/// Nothing but tags remains at the end of the input.
pub proof fn lemma_rest_at_end(s: Seq<char>)
    ensures
        rest_is_tags_only(s, s.len() as int),
{
    let n = s.len() as int;
    assert(super::text::ws_end(s, n) == n);
    if let Some(a) = separator(s, n) {
        assert(false);
    }
    assert(super::tokens::any_tag(s, n) is None);
    assert(super::tokens::any_tag_ws(s, n) is None);
    assert(many_tags(s, n) == n);
}

/// The search for trailing tags always succeeds, at the latest at the end.
pub proof fn lemma_rest_tags_found(s: Seq<char>, b: int)
    requires
        0 <= b <= s.len(),
    ensures
        skip_till(rest_tags_parser(s), b, s.len() as int) is Some,
    decreases s.len() - b,
{
    lemma_rest_at_end(s);
    if b < s.len() && !rest_is_tags_only(s, b) {
        lemma_rest_tags_found(s, b + 1);
    }
}

fn parse_skip_description(s: &[char], a: usize) -> (r: bool)
    requires
        a <= s.len(),
    ensures
        r == skip_description(s@, a as int),
{
    match parse_separator(s, a) {
        Some(b) => {
            proof {
                lemma_rest_tags_found(s@, b as int);
            }
            !digit_is_at(s, b)
        },
        None => false,
    }
}

/// What `episode_in_middle_of_input` tries at each position.
pub open spec fn middle_at(s: Seq<char>, k: int) -> Option<int> {
    match episode_number(s, k) {
        Some((a, ep)) => if rest_is_tags_only(s, a) || skip_description(s, a) {
            Some(ep)
        } else {
            None
        },
        None => None,
    }
}

pub open spec fn middle_parser(s: Seq<char>) -> spec_fn(int) -> Option<int> {
    |k: int| middle_at(s, k)
}

/// `episode_in_middle_of_input`.
pub open spec fn episode_in_middle(s: Seq<char>, j: int) -> Option<int> {
    match skip_till(middle_parser(s), j, s.len() as int) {
        Some((_, ep)) => Some(ep),
        None => None,
    }
}

fn find_episode_in_middle(s: &[char], j: usize) -> (r: Option<u32>)
    requires
        j <= s.len(),
    ensures
        match r {
            Some(v) => episode_in_middle(s@, j as int) == Some(v as int),
            None => episode_in_middle(s@, j as int) is None,
        },
{
    let ghost p = middle_parser(s@);
    let mut k = j;
    loop
        invariant
            j <= k <= s.len(),
            p == middle_parser(s@),
            skip_till(p, j as int, s.len() as int) == skip_till(p, k as int, s.len() as int),
        decreases s.len() - k,
    {
        match parse_episode_number(s, k) {
            Some((a, ep)) => {
                if rest_tags_only(s, a) || parse_skip_description(s, a) {
                    return Some(ep);
                }
            },
            None => {},
        }
        if k == s.len() {
            assert(skip_till(p, k + 1, s.len() as int) is None);
            return None;
        }
        k += 1;
    }
}

/// `episode_number_only`: digits and nothing but tags after them.
pub open spec fn episode_number_only(s: Seq<char>, j: int) -> Option<int> {
    match parsed_digits(s, j, u32::MAX as int) {
        Some((a, ep)) => if rest_is_tags_only(s, a) {
            Some(ep)
        } else {
            None
        },
        None => None,
    }
}

/// `episode_number_at_start`: digits, an optional file version, then a separator.
pub open spec fn episode_number_at_start(s: Seq<char>, j: int) -> Option<int> {
    match parsed_digits(s, j, u32::MAX as int) {
        Some((a, ep)) => {
            let c = match file_version(s, ws_end(s, a)) {
                Some(c) => c,
                None => a,
            };
            if separator(s, c) is Some {
                Some(ep)
            } else {
                None
            }
        },
        None => None,
    }
}

/// Implicitly marked episodes: after any leading tags, an episode number in
/// the middle of the name, a bare number, or a number at the start.
pub open spec fn implicit_marker(s: Seq<char>) -> Option<int> {
    let j = many_tags(s, 0);
    match episode_in_middle(s, j) {
        Some(ep) => Some(ep),
        None => match episode_number_only(s, j) {
            Some(ep) => Some(ep),
            None => episode_number_at_start(s, j),
        },
    }
}

fn find_implicit_marker(s: &[char]) -> (r: Option<u32>)
    ensures
        match r {
            Some(v) => implicit_marker(s@) == Some(v as int),
            None => implicit_marker(s@) is None,
        },
{
    let j = skip_tags(s, 0);
    match find_episode_in_middle(s, j) {
        Some(ep) => {
            return Some(ep);
        },
        None => {},
    }
    match parse_u32(s, j) {
        Some((a, ep)) => {
            if rest_tags_only(s, a) {
                return Some(ep);
            }
            proof {
                super::text::lemma_ws_end(s@, a as int);
            }
            let w = maybe_whitespace(s, a);
            let c = match parse_file_version(s, w) {
                Some(c) => c,
                None => a,
            };
            if parse_separator(s, c).is_some() {
                Some(ep)
            } else {
                None
            }
        },
        None => None,
    }
}

// ---------------------------------------------------------------------------
// Whole filenames
// ---------------------------------------------------------------------------

/// `parse_complete_input`: an explicit marker, else an implicit one.
pub open spec fn parse_complete<F>(s: Seq<char>, m: Seq<(Seq<char>, F)>) -> Option<Parsed<F>> {
    match explicit_marker(s, m) {
        Some(p) => Some(p),
        None => match implicit_marker(s) {
            Some(ep) => Some(Parsed { number: ep as u32, season: None, format: None }),
            None => None,
        },
    }
}

/// Information about one episode, as found in its filename.
#[derive(Debug, PartialEq, Eq, Structural, Hash)]
pub struct Episode<F> {
    pub number: u32,
    pub season: Option<u16>,
    pub format: Option<F>,
}

/// What a filename (without its extension) says about its episode: the
/// marked episode, with the format it names; or, when no episode number is
/// found but a format is, a one-off (episode 1) of that format.
pub open spec fn episode_of<F>(s: Seq<char>, m: Seq<(Seq<char>, F)>) -> Option<Episode<F>> {
    if s.len() == 0 {
        None
    } else {
        let parsed = parse_complete(s, m);
        let format = match parsed {
            Some(p) => match p.format {
                Some(f) => Some(f),
                None => isolated_label(s, m),
            },
            None => isolated_label(s, m),
        };
        match parsed {
            Some(p) => Some(Episode { season: p.season, format, number: p.number }),
            None => match format {
                Some(f) => Some(Episode { season: None, format, number: 1 }),
                None => None,
            },
        }
    }
}

/// `episode_of`, as the `Result` that parsing returns.
pub open spec fn episode_result<F>(s: Seq<char>, m: Seq<(Seq<char>, F)>) -> Result<Episode<F>, Error> {
    match episode_of(s, m) {
        Some(e) => Ok(e),
        None => Err(Error::Unmatched),
    }
}

impl<F: Format + Copy> Episode<F> {
    /// Parse the episode information in a filename that has its extension
    /// removed, with the format names of `F`.
    pub fn parse_with_known_filename(filename: &str) -> (r: Result<Self, Error>)
        ensures
            r == episode_result(filename@, F::spec_variant_mappings()),
    {
        let mappings = F::variant_mappings();
        Self::parse_with_mappings(filename, mappings.as_slice())
    }

    /// Parse the episode information in a filename that has its extension
    /// removed, with the given format names.
    pub fn parse_with_mappings(filename: &str, mappings: &[(&'static str, F)]) -> (r: Result<
        Self,
        Error,
    >)
        ensures
            r == episode_result(filename@, names_view(mappings@)),
    {
        let s = str_chars(filename);
        if s.len() == 0 {
            return Err(Error::Unmatched);
        }
        let table = format_table(mappings);
        let s = s.as_slice();
        let t = table.as_slice();
        let parsed = match find_explicit_marker(s, t) {
            Some(p) => Some(p),
            None => match find_implicit_marker(s) {
                Some(ep) => Some(Parsed { number: ep, season: None, format: None }),
                None => None,
            },
        };
        let format = match &parsed {
            Some(p) => match p.format {
                Some(f) => Some(f),
                None => find_isolated_label(s, t),
            },
            None => find_isolated_label(s, t),
        };
        match parsed {
            Some(p) => Ok(Episode { season: p.season, format, number: p.number }),
            None => match format {
                Some(_) => Ok(Episode { season: None, format, number: 1 }),
                None => Err(Error::Unmatched),
            },
        }
    }
}

} // verus!
