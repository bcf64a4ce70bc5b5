//! Find a series' name within a directory or file name, without the tags and
//! season labels around it.
use vstd::prelude::*;

use super::episode::{lemma_skip_till_found, skip_till};
use super::text::{
    any_whitespace, any_ws, char_at, char_is, digits_end, is_digit_char,
    lemma_ws_end, matches_ci, str_chars,
};
use super::tokens::{
    any_tag_ws, lemma_many_tags, lit_1080p, lit_2160p, lit_480p, lit_4320p, lit_720p, many_tags,
    resolution_tag, skip_tags, tag_with_whitespace,
};
use super::Error;

verus! {

/// `season_label`: whitespace, `S` and digits, then whitespace or the end, as
/// in ` S01`.
pub open spec fn season_label(s: Seq<char>, k: int) -> bool {
    match any_ws(s, k) {
        Some(a) => {
            let b = digits_end(s, a + 1);
            char_at(s, a, 'S') && a + 1 < b && (any_ws(s, b) is Some || b == s.len())
        },
        None => false,
    }
}

fn parse_season_label(s: &[char], k: usize) -> (r: bool)
    requires
        k <= s.len(),
    ensures
        r == season_label(s@, k as int),
{
    proof {
        lemma_ws_end(s@, k as int);
    }
    match any_whitespace(s, k) {
        Some(a) => {
            if !char_is(s, a, 'S') {
                return false;
            }
            let mut b = a + 1;
            while b < s.len() && is_digit_char(s[b])
                invariant
                    a + 1 <= b <= s.len(),
                    digits_end(s@, a + 1) == digits_end(s@, b as int),
                decreases s.len() - b,
            {
                b += 1;
            }
            a + 1 < b && (any_whitespace(s, b).is_some() || b == s.len())
        },
        None => false,
    }
}

/// Where the title stops: at a tag, a season label, or the end of the input.
pub open spec fn title_stop(s: Seq<char>, k: int) -> Option<()> {
    if any_tag_ws(s, k) is Some || season_label(s, k) || k == s.len() {
        Some(())
    } else {
        None
    }
}

pub open spec fn title_stop_parser(s: Seq<char>) -> spec_fn(int) -> Option<()> {
    |k: int| title_stop(s, k)
}

/// Where the title starts (after any leading tags) and where it stops.
pub open spec fn title_range(s: Seq<char>) -> (int, int) {
    let j = many_tags(s, 0);
    match skip_till(title_stop_parser(s), j, s.len() as int) {
        Some((k, _)) => (j, k),
        None => (j, s.len() as int),
    }
}

/// The title within `s`: leading tags skipped, cut at the first tag, season
/// label, or the end.
pub open spec fn trimmed_title(s: Seq<char>) -> Seq<char> {
    s.subrange(title_range(s).0, title_range(s).1)
}

/// The search for the end of the title succeeds, at the latest at the end of
/// the input.
pub proof fn lemma_title_stop_found(s: Seq<char>, k: int)
    requires
        0 <= k <= s.len(),
    ensures
        skip_till(title_stop_parser(s), k, s.len() as int) is Some,
    decreases s.len() - k,
{
    if k < s.len() && title_stop(s, k) is None {
        lemma_title_stop_found(s, k + 1);
    }
}

pub proof fn lemma_title_range(s: Seq<char>)
    ensures
        0 <= title_range(s).0 <= title_range(s).1 <= s.len(),
{
    lemma_many_tags(s, 0);
    lemma_skip_till_found(title_stop_parser(s), many_tags(s, 0), s.len() as int);
}

/// The video resolutions a name may carry as tags, in lower case.
pub open spec fn resolutions() -> Seq<Seq<char>> {
    seq![
        seq!['4', '8', '0', 'p'],
        seq!['7', '2', '0', 'p'],
        seq!['1', '0', '8', '0', 'p'],
        seq!['2', '1', '6', '0', 'p'],
        seq!['4', '3', '2', '0', 'p'],
    ]
}

/// A title never runs into a video resolution written in any case: it ends
/// at or before every resolution that follows its start.
pub proof fn lemma_title_stops_at_resolution(s: Seq<char>, k: int, w: Seq<char>)
    requires
        resolutions().contains(w),
        title_range(s).0 <= k,
        matches_ci(s, k, s.len() as int, w),
    ensures
        title_range(s).1 <= k,
{
    lemma_title_range(s);
    lemma_many_tags(s, 0);
    let j = many_tags(s, 0);
    lemma_skip_till_found(title_stop_parser(s), j, s.len() as int);
    lemma_title_stop_found(s, j);
    if k < title_range(s).1 {
        assert(title_stop_parser(s)(k) is None);
        let i = choose|i: int| 0 <= i < resolutions().len() && resolutions()[i] == w;
        assert(resolutions()[0] =~= lit_480p());
        assert(resolutions()[1] =~= lit_720p());
        assert(resolutions()[2] =~= lit_1080p());
        assert(resolutions()[3] =~= lit_2160p());
        assert(resolutions()[4] =~= lit_4320p());
        assert(super::text::eq_ci(s[k + 0], w[0]));
        assert(s[k] == w[0]);
        assert(resolution_tag(s, k) is Some);
        assert(super::tokens::any_tag(s, k) is Some);
        assert(super::text::ws_end(s, k) == k);
        assert(any_tag_ws(s, k) is Some);
        assert(false);
    }
}

/// A character that occurs at or after `i` is found from `i`.
proof fn lemma_first_index_found(s: Seq<char>, i: int, c: char, m: int)
    requires
        0 <= i <= m < s.len(),
        s[m] == c,
    ensures
        super::tokens::first_index_of(s, i, c) is Some,
    decreases m - i,
{
    if s[i] != c {
        lemma_first_index_found(s, i + 1, c, m);
    }
}

/// A title never runs into a tag in brackets or parentheses: it ends at or
/// before every `[` or `(` that follows its start and is closed later.
pub proof fn lemma_title_stops_at_bracket_tag(s: Seq<char>, k: int, close: int)
    requires
        0 <= title_range(s).0 <= k < close < s.len(),
        (s[k] == '[' && s[close] == ']') || (s[k] == '(' && s[close] == ')'),
    ensures
        title_range(s).1 <= k,
{
    lemma_title_range(s);
    lemma_many_tags(s, 0);
    let j = many_tags(s, 0);
    lemma_skip_till_found(title_stop_parser(s), j, s.len() as int);
    lemma_title_stop_found(s, j);
    if k < title_range(s).1 {
        assert(title_stop_parser(s)(k) is None);
        lemma_first_index_found(s, k + 1, s[close], close);
        assert(super::tokens::any_tag(s, k) is Some);
        assert(super::text::ws_end(s, k) == k);
        assert(any_tag_ws(s, k) is Some);
        assert(false);
    }
}

fn find_title_range(s: &[char]) -> (r: (usize, usize))
    ensures
        r.0 as int == title_range(s@).0,
        r.1 as int == title_range(s@).1,
        r.0 <= r.1 <= s.len(),
{
    let ghost p = title_stop_parser(s@);
    let j = skip_tags(s, 0);
    let mut k = j;
    proof {
        lemma_title_stop_found(s@, j as int);
    }
    loop
        invariant
            j <= k <= s.len(),
            j == many_tags(s@, 0),
            p == title_stop_parser(s@),
            skip_till(p, j as int, s.len() as int) == skip_till(p, k as int, s.len() as int),
        decreases s.len() - k,
    {
        if tag_with_whitespace(s, k).is_some() || parse_season_label(s, k) || k == s.len() {
            return (j, k);
        }
        k += 1;
    }
}

/// A series as named by its directory or file name.
#[derive(Debug)]
pub struct Series<'a> {
    pub trimmed_name: &'a str,
}

impl<'a> Series<'a> {
    /// Find the series name in `value`: the text after any leading tags, up to
    /// the next tag or season label. Fails only on empty input.
    pub fn parse(value: &'a str) -> (r: Result<Self, Error>)
        ensures
            value@.len() == 0 ==> r == Err::<Self, Error>(Error::Unmatched),
            value@.len() > 0 ==> (r matches Ok(series) && series.trimmed_name@ == trimmed_title(
                value@,
            )),
    {
        if value.is_empty() {
            return Err(Error::Unmatched);
        }
        let chars = str_chars(value);
        let (from, to) = find_title_range(chars.as_slice());
        proof {
            lemma_title_range(value@);
        }
        Ok(Series { trimmed_name: value.substring_char(from, to) })
    }
}

} // verus!
