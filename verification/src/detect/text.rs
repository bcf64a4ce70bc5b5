//! Character-level building blocks of the filename grammar.
//!
//! Every parser here works on a sequence of characters and a position in it.
//! A parser either fails, or succeeds and yields the position just past what it
//! consumed (and, for some, a value). Each executable parser is proved equal to
//! a spec function that states the grammar rule directly.
use vstd::prelude::*;

verus! {

/// Collects the characters of `s`, in order.
pub fn str_chars(s: &str) -> (v: Vec<char>)
    ensures
        v@ == s@,
{
    let mut v: Vec<char> = Vec::new();
    for c in it: s.chars()
        invariant
            v@ == it.seq().take(it.index() as int),
            it.seq() == s@,
    {
        v.push(c);
    }
    v
}

// ---------------------------------------------------------------------------
// Character classes
// ---------------------------------------------------------------------------

/// Characters that separate words in a filename.
pub open spec fn is_ws(c: char) -> bool {
    c == ' ' || c == '_' || c == '.'
}

pub open spec fn is_digit(c: char) -> bool {
    '0' <= c && c <= '9'
}

/// ASCII lower-casing, by code point.
pub open spec fn lower_code(c: char) -> u32 {
    if 'A' <= c && c <= 'Z' {
        (c as u32 + 32) as u32
    } else {
        c as u32
    }
}

/// ASCII case-insensitive equality of two characters.
pub open spec fn eq_ci(a: char, b: char) -> bool {
    lower_code(a) == lower_code(b)
}

pub fn is_ws_char(c: char) -> (b: bool)
    ensures
        b == is_ws(c),
{
    c == ' ' || c == '_' || c == '.'
}

pub fn is_digit_char(c: char) -> (b: bool)
    ensures
        b == is_digit(c),
{
    '0' <= c && c <= '9'
}

fn lower_code_of(c: char) -> (r: u32)
    ensures
        r == lower_code(c),
{
    let u = c as u32;
    if 'A' <= c && c <= 'Z' {
        u + 32
    } else {
        u
    }
}

pub fn eq_ci_char(a: char, b: char) -> (r: bool)
    ensures
        r == eq_ci(a, b),
{
    lower_code_of(a) == lower_code_of(b)
}

// ---------------------------------------------------------------------------
// Literals
// ---------------------------------------------------------------------------

/// `lit` occurs at `i`, compared without regard to ASCII case, and ends no
/// later than `end`.
pub open spec fn matches_ci(s: Seq<char>, i: int, end: int, lit: Seq<char>) -> bool {
    &&& 0 <= i
    &&& i + lit.len() <= end
    &&& forall|k: int| 0 <= k < lit.len() ==> eq_ci(#[trigger] s[i + k], lit[k])
}

pub fn match_ci(s: &[char], i: usize, end: usize, lit: &[char]) -> (r: bool)
    requires
        i <= end <= s.len(),
    ensures
        r == matches_ci(s@, i as int, end as int, lit@),
{
    if lit.len() > end - i {
        return false;
    }
    let mut k: usize = 0;
    while k < lit.len()
        invariant
            i + lit.len() <= end <= s.len(),
            k <= lit.len(),
            forall|m: int| 0 <= m < k ==> eq_ci(#[trigger] s@[i + m], lit@[m]),
        decreases lit.len() - k,
    {
        if !eq_ci_char(s[i + k], lit[k]) {
            return false;
        }
        k += 1;
    }
    true
}

/// The exact character `c` stands at `i`.
pub open spec fn char_at(s: Seq<char>, i: int, c: char) -> bool {
    0 <= i < s.len() && s[i] == c
}

pub fn char_is(s: &[char], i: usize, c: char) -> (r: bool)
    requires
        i <= s.len(),
    ensures
        r == char_at(s@, i as int, c),
{
    i < s.len() && s[i] == c
}

// ---------------------------------------------------------------------------
// Whitespace
// ---------------------------------------------------------------------------

/// End of the run of whitespace characters that starts at `i`.
pub open spec fn ws_end(s: Seq<char>, i: int) -> int
    decreases s.len() - i,
{
    if 0 <= i < s.len() && is_ws(s[i]) {
        ws_end(s, i + 1)
    } else {
        i
    }
}

pub proof fn lemma_ws_end(s: Seq<char>, i: int)
    requires
        0 <= i <= s.len(),
    ensures
        i <= ws_end(s, i) <= s.len(),
        forall|k: int| i <= k < ws_end(s, i) ==> is_ws(#[trigger] s[k]),
        ws_end(s, i) == s.len() || !is_ws(s[ws_end(s, i)]),
    decreases s.len() - i,
{
    if i < s.len() && is_ws(s[i]) {
        lemma_ws_end(s, i + 1);
    }
}

/// `maybe_whitespace`: any number of whitespace characters, possibly none.
pub fn maybe_whitespace(s: &[char], i: usize) -> (r: usize)
    requires
        i <= s.len(),
    ensures
        r == ws_end(s@, i as int),
        i <= r <= s.len(),
{
    let mut j = i;
    while j < s.len() && is_ws_char(s[j])
        invariant
            i <= j <= s.len(),
            ws_end(s@, i as int) == ws_end(s@, j as int),
        decreases s.len() - j,
    {
        j += 1;
    }
    j
}

/// `any_whitespace`: at least one whitespace character, followed by a
/// character that is not whitespace (a run that reaches the end of the input
/// does not count).
pub open spec fn any_ws(s: Seq<char>, i: int) -> Option<int> {
    let j = ws_end(s, i);
    if i < j && j < s.len() {
        Some(j)
    } else {
        None
    }
}

pub fn any_whitespace(s: &[char], i: usize) -> (r: Option<usize>)
    requires
        i <= s.len(),
    ensures
        same_idx(r, any_ws(s@, i as int)),
{
    let j = maybe_whitespace(s, i);
    if i < j && j < s.len() {
        Some(j)
    } else {
        None
    }
}

/// An executable position agrees with a spec one.
pub open spec fn same_idx(r: Option<usize>, p: Option<int>) -> bool {
    match r {
        Some(j) => p == Some(j as int),
        None => p is None,
    }
}

// ---------------------------------------------------------------------------
// Digits
// ---------------------------------------------------------------------------

/// End of the run of ASCII digits that starts at `i`.
pub open spec fn digits_end(s: Seq<char>, i: int) -> int
    decreases s.len() - i,
{
    if 0 <= i < s.len() && is_digit(s[i]) {
        digits_end(s, i + 1)
    } else {
        i
    }
}

pub proof fn lemma_digits_end(s: Seq<char>, i: int)
    requires
        0 <= i <= s.len(),
    ensures
        i <= digits_end(s, i) <= s.len(),
        forall|k: int| i <= k < digits_end(s, i) ==> is_digit(#[trigger] s[k]),
        digits_end(s, i) == s.len() || !is_digit(s[digits_end(s, i)]),
    decreases s.len() - i,
{
    if i < s.len() && is_digit(s[i]) {
        lemma_digits_end(s, i + 1);
    }
}

pub open spec fn digit_value(c: char) -> int {
    c as int - '0' as int
}

/// The decimal number that `s[i..j]` spells.
pub open spec fn decimal(s: Seq<char>, i: int, j: int) -> int
    decreases j - i,
{
    if j <= i {
        0
    } else {
        decimal(s, i, j - 1) * 10 + digit_value(s[j - 1])
    }
}

pub proof fn lemma_decimal_monotone(s: Seq<char>, i: int, j: int)
    requires
        0 <= i <= j <= s.len(),
        forall|k: int| i <= k < j ==> is_digit(#[trigger] s[k]),
    ensures
        decimal(s, i, j) >= 0,
        forall|m: int| i <= m <= j ==> decimal(s, i, m) <= decimal(s, i, j),
    decreases j - i,
{
    if j > i {
        lemma_decimal_monotone(s, i, j - 1);
        assert forall|m: int| i <= m <= j implies decimal(s, i, m) <= decimal(s, i, j) by {
            if m < j {
                assert(decimal(s, i, m) <= decimal(s, i, j - 1));
            }
        }
    }
}

/// `digit1` followed by a parse of the digits into a number no larger than
/// `max`: succeeds with the end of the digit run and its value.
pub open spec fn parsed_digits(s: Seq<char>, i: int, max: int) -> Option<(int, int)> {
    let j = digits_end(s, i);
    if i < j && decimal(s, i, j) <= max {
        Some((j, decimal(s, i, j)))
    } else {
        None
    }
}

/// A digit stands at `i` (`digit1` would succeed there).
pub open spec fn digit_at(s: Seq<char>, i: int) -> bool {
    0 <= i < s.len() && is_digit(s[i])
}

pub fn digit_is_at(s: &[char], i: usize) -> (r: bool)
    requires
        i <= s.len(),
    ensures
        r == digit_at(s@, i as int),
{
    i < s.len() && is_digit_char(s[i])
}

/// An executable parsed number agrees with a spec one.
pub open spec fn same_u32(r: Option<(usize, u32)>, p: Option<(int, int)>) -> bool {
    match r {
        Some((j, v)) => p == Some((j as int, v as int)),
        None => p is None,
    }
}

pub open spec fn same_u16(r: Option<(usize, u16)>, p: Option<(int, int)>) -> bool {
    match r {
        Some((j, v)) => p == Some((j as int, v as int)),
        None => p is None,
    }
}

/// Reads the digit run at `i` as a number, failing when there is no digit or
/// the number exceeds `max`.
fn digits_up_to(s: &[char], i: usize, max: u32) -> (r: Option<(usize, u32)>)
    requires
        i <= s.len(),
        max >= 9,
    ensures
        r is None <==> parsed_digits(s@, i as int, max as int) is None,
        r matches Some((j, v)) ==> i < j <= s.len() && v <= max
            && parsed_digits(s@, i as int, max as int) == Some((j as int, v as int)),
{
    let mut j = i;
    let mut value: u32 = 0;
    let mut overflow = false;
    while j < s.len() && is_digit_char(s[j])
        invariant
            i <= j <= s.len(),
            forall|k: int| i <= k < j ==> is_digit(#[trigger] s@[k]),
            digits_end(s@, i as int) == digits_end(s@, j as int),
            !overflow ==> value == decimal(s@, i as int, j as int),
            !overflow ==> value <= max,
            overflow ==> decimal(s@, i as int, j as int) > max,
            max >= 9,
        decreases s.len() - j,
    {
        proof {
            lemma_decimal_monotone(s@, i as int, j + 1);
        }
        let d = (s[j] as u32) - ('0' as u32);
        if !overflow {
            if value > (max - d) / 10 {
                overflow = true;
                assert(value * 10 + d > max) by (nonlinear_arith)
                    requires
                        value > (max - d) / 10,
                        d <= 9,
                        max >= 9,
                ;
                assert(decimal(s@, i as int, j + 1) == value * 10 + d);
            } else {
                assert(value * 10 + d <= max) by (nonlinear_arith)
                    requires
                        value <= (max - d) / 10,
                        d <= 9,
                        max >= 9,
                ;
                value = value * 10 + d;
            }
        }
        j += 1;
    }
    proof {
        lemma_digits_end(s@, j as int);
    }
    if j > i && !overflow {
        Some((j, value))
    } else {
        None
    }
}

pub fn parse_u32(s: &[char], i: usize) -> (r: Option<(usize, u32)>)
    requires
        i <= s.len(),
    ensures
        same_u32(r, parsed_digits(s@, i as int, u32::MAX as int)),
        r matches Some((j, v)) ==> i < j <= s.len(),
{
    digits_up_to(s, i, u32::MAX)
}

pub fn parse_u16(s: &[char], i: usize) -> (r: Option<(usize, u16)>)
    requires
        i <= s.len(),
    ensures
        same_u16(r, parsed_digits(s@, i as int, u16::MAX as int)),
        r matches Some((j, v)) ==> i < j <= s.len(),
{
    match digits_up_to(s, i, u16::MAX as u32) {
        Some((j, v)) => Some((j, v as u16)),
        None => None,
    }
}

} // verus!
