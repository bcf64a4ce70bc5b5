//! A local series root paired with anime on a remote service, by format and season.
use vstd::prelude::*;

use indexmap::IndexMap;

use crate::anime;

use super::episode::Episode;
use super::{format_rank, Format};

verus! {

/// `indexmap`'s insertion-ordered map; what it holds is named by the
/// functions below.
#[verifier::external_type_specification]
#[verifier::external_body]
#[verifier::reject_recursive_types(K)]
#[verifier::reject_recursive_types(V)]
#[verifier::reject_recursive_types(S)]
pub struct ExIndexMap<K, V, S>(IndexMap<K, V, S>);

/// The episodes of one local series format (no two with the same episode
/// information).
pub type EpisodeSet = Vec<Episode>;

/// Seasons of one format, by season number, in the order they were found.
pub type SeasonMap = IndexMap<u16, RemoteSeasonPairing>;

/// Seasons by format.
pub type FormatMap = IndexMap<Format, SeasonMap>;

/// A season of a local series format and what it is paired with remotely.
#[derive(Debug)]
pub enum RemoteSeasonPairing {
    Paired(PairedSeason),
    Unpaired(EpisodeSet),
}

/// A season paired with an anime on the remote service.
#[derive(Debug)]
pub struct PairedSeason {
    pub remote_info: anime::Info,
    pub local_episodes: EpisodeSet,
    pub in_sync: bool,
}

// ---------------------------------------------------------------------------
// The maps' contents
// ---------------------------------------------------------------------------

/// What a season map holds, in its order.
pub uninterp spec fn season_entries(m: SeasonMap) -> Seq<(u16, RemoteSeasonPairing)>;

/// What a format map holds, in its order.
pub uninterp spec fn format_entries(m: FormatMap) -> Seq<(Format, SeasonMap)>;

/// The position of `key` among the keys of `entries`, if it is there.
pub open spec fn key_index<K, V>(entries: Seq<(K, V)>, key: K) -> Option<int> {
    if exists|i: int| 0 <= i < entries.len() && entries[i].0 == key {
        Some(choose|i: int| 0 <= i < entries.len() && entries[i].0 == key)
    } else {
        None
    }
}

/// `IndexMap::insert`'s effect on the entries: a new key goes last; an
/// existing key keeps its place and takes the new value.
pub open spec fn inserted<K, V>(entries: Seq<(K, V)>, key: K, value: V) -> Seq<(K, V)> {
    match key_index(entries, key) {
        Some(i) => entries.update(i, (key, value)),
        None => entries.push((key, value)),
    }
}

/// No key occurs twice.
pub open spec fn keys_distinct<K, V>(entries: Seq<(K, V)>) -> bool {
    forall|i: int, j: int|
        0 <= i < entries.len() && 0 <= j < entries.len() && i != j ==> entries[i].0
            != entries[j].0
}

/// `IndexMap::with_capacity`: an empty season map.
#[verifier::external_body]
pub(crate) fn season_map_new() -> (m: SeasonMap)
    ensures
        season_entries(m) == Seq::<(u16, RemoteSeasonPairing)>::empty(),
{
    IndexMap::with_capacity(1)
}

/// `IndexMap::insert` on a season map: a new key is added last, an existing
/// key keeps its place and takes the new value (the old value is returned).
#[verifier::external_body]
pub(crate) fn season_map_insert(m: &mut SeasonMap, key: u16, value: RemoteSeasonPairing) -> (r: Option<
    RemoteSeasonPairing,
>)
    ensures
        season_entries(*final(m)) == inserted(season_entries(*old(m)), key, value),
        match key_index(season_entries(*old(m)), key) {
            Some(i) => r == Some(season_entries(*old(m))[i].1),
            None => r is None,
        },
{
    m.insert(key, value)
}

/// `IndexMap::len` of a season map.
#[verifier::external_body]
pub(crate) fn season_map_len(m: &SeasonMap) -> (r: usize)
    ensures
        r == season_entries(*m).len(),
{
    m.len()
}

/// `IndexMap::get_index` on a season map: the entry at position `i`.
#[verifier::external_body]
pub(crate) fn season_map_get_index(m: &SeasonMap, i: usize) -> (r: Option<(&u16, &RemoteSeasonPairing)>)
    ensures
        i < season_entries(*m).len() ==> r == Some(
            (&season_entries(*m)[i as int].0, &season_entries(*m)[i as int].1),
        ),
        i >= season_entries(*m).len() ==> r is None,
{
    m.get_index(i)
}

/// `IndexMap::default`: an empty format map.
#[verifier::external_body]
pub(crate) fn format_map_new() -> (m: FormatMap)
    ensures
        format_entries(m) == Seq::<(Format, SeasonMap)>::empty(),
{
    IndexMap::default()
}

/// `IndexMap::insert` on a format map.
#[verifier::external_body]
pub(crate) fn format_map_insert(m: &mut FormatMap, key: Format, value: SeasonMap) -> (r: Option<SeasonMap>)
    ensures
        format_entries(*final(m)) == inserted(format_entries(*old(m)), key, value),
        match key_index(format_entries(*old(m)), key) {
            Some(i) => r == Some(format_entries(*old(m))[i].1),
            None => r is None,
        },
{
    m.insert(key, value)
}

/// `IndexMap::len` of a format map.
#[verifier::external_body]
pub(crate) fn format_map_len(m: &FormatMap) -> (r: usize)
    ensures
        r == format_entries(*m).len(),
{
    m.len()
}

/// `IndexMap::get_index` on a format map.
#[verifier::external_body]
pub(crate) fn format_map_get_index(m: &FormatMap, i: usize) -> (r: Option<(&Format, &SeasonMap)>)
    ensures
        i < format_entries(*m).len() ==> r == Some(
            (&format_entries(*m)[i as int].0, &format_entries(*m)[i as int].1),
        ),
        i >= format_entries(*m).len() ==> r is None,
{
    m.get_index(i)
}

/// The entries are ordered by format.
pub open spec fn sorted_by_format(entries: Seq<(Format, SeasonMap)>) -> bool {
    forall|i: int, j: int|
        0 <= i < j < entries.len() ==> format_rank(entries[i].0) <= format_rank(entries[j].0)
}

/// `IndexMap::sort_unstable_keys` on a format map: the same entries, ordered
/// by format (the declaration order of `Format`, which its derived `Ord`
/// follows).
#[verifier::external_body]
pub(crate) fn format_map_sort_keys(m: &mut FormatMap)
    ensures
        format_entries(*final(m)).to_multiset() == format_entries(*old(m)).to_multiset(),
        sorted_by_format(format_entries(*final(m))),
{
    m.sort_unstable_keys()
}

// ---------------------------------------------------------------------------
// Root pairings
// ---------------------------------------------------------------------------

/// A local series root with each of its formats' seasons paired remotely.
#[derive(Debug)]
pub struct RootPairing {
    pub name: String,
    pub pairings: FormatMap,
}

/// One season of one format.
#[derive(Debug)]
pub struct FormatSeasonRef<'a> {
    pub format: Format,
    pub season: u16,
    pub pairing: &'a RemoteSeasonPairing,
}

/// Every season of every format, by format and then by season order.
pub open spec fn all_seasons(formats: Seq<(Format, SeasonMap)>) -> Seq<(Format, u16, RemoteSeasonPairing)>
    decreases formats.len(),
{
    if formats.len() == 0 {
        Seq::empty()
    } else {
        let (format, seasons) = formats.last();
        all_seasons(formats.drop_last()) + season_entries(seasons).map_values(
            |e: (u16, RemoteSeasonPairing)| (format, e.0, e.1),
        )
    }
}

/// The number of seasons over all formats.
pub open spec fn season_count(formats: Seq<(Format, SeasonMap)>) -> int
    decreases formats.len(),
{
    if formats.len() == 0 {
        0
    } else {
        season_count(formats.drop_last()) + season_entries(formats.last().1).len()
    }
}

pub proof fn lemma_season_count(formats: Seq<(Format, SeasonMap)>)
    ensures
        season_count(formats) == all_seasons(formats).len(),
    decreases formats.len(),
{
    if formats.len() > 0 {
        lemma_season_count(formats.drop_last());
    }
}

pub open spec fn season_ref_view<'a>(r: FormatSeasonRef<'a>) -> (Format, u16, RemoteSeasonPairing) {
    (r.format, r.season, *r.pairing)
}

impl RootPairing {
    pub fn new(name: String) -> (r: Self)
        ensures
            r.name == name,
            format_entries(r.pairings) == Seq::<(Format, SeasonMap)>::empty(),
    {
        RootPairing { name, pairings: format_map_new() }
    }

    /// All formats and their seasons, by format and then by season.
    pub fn all_format_seasons(&self) -> (r: Vec<FormatSeasonRef<'_>>)
        ensures
            r@.map_values(|s: FormatSeasonRef<'_>| season_ref_view(s)) == all_seasons(
                format_entries(self.pairings),
            ),
    {
        let ghost formats = format_entries(self.pairings);
        let mut r: Vec<FormatSeasonRef<'_>> = Vec::new();
        let n = format_map_len(&self.pairings);
        let mut i: usize = 0;
        while i < n
            invariant
                n == formats.len(),
                formats == format_entries(self.pairings),
                i <= n,
                r@.map_values(|s: FormatSeasonRef<'_>| season_ref_view(s)) == all_seasons(
                    formats.take(i as int),
                ),
            decreases n - i,
        {
            let (format, seasons) = match format_map_get_index(&self.pairings, i) {
                Some(entry) => entry,
                None => {
                    return r;
                },
            };
            let ghost before = r@.map_values(|s: FormatSeasonRef<'_>| season_ref_view(s));
            let m = season_map_len(seasons);
            let mut j: usize = 0;
            while j < m
                invariant
                    m == season_entries(*seasons).len(),
                    j <= m,
                    r@.map_values(|s: FormatSeasonRef<'_>| season_ref_view(s)) == before
                        + season_entries(*seasons).take(j as int).map_values(
                        |e: (u16, RemoteSeasonPairing)| (*format, e.0, e.1),
                    ),
                decreases m - j,
            {
                match season_map_get_index(seasons, j) {
                    Some((season, pairing)) => {
                        let ghost prev = r@;
                        r.push(FormatSeasonRef { format: *format, season: *season, pairing });
                        assert(season_entries(*seasons).take(j + 1) =~= season_entries(
                            *seasons,
                        ).take(j as int).push(season_entries(*seasons)[j as int]));
                        assert(r@.map_values(|s: FormatSeasonRef<'_>| season_ref_view(s))
                            =~= prev.map_values(|s: FormatSeasonRef<'_>| season_ref_view(s)).push(
                            (*format, *season, *pairing),
                        ));
                        assert(season_entries(*seasons).take(j + 1).map_values(
                            |e: (u16, RemoteSeasonPairing)| (*format, e.0, e.1),
                        ) =~= season_entries(*seasons).take(j as int).map_values(
                            |e: (u16, RemoteSeasonPairing)| (*format, e.0, e.1),
                        ).push((*format, *season, *pairing)));
                    },
                    None => {},
                }
                j += 1;
            }
            assert(season_entries(*seasons).take(m as int) =~= season_entries(*seasons));
            assert(formats.take(i + 1).drop_last() =~= formats.take(i as int));
            assert(formats.take(i + 1).last() == formats[i as int]);
            i += 1;
        }
        assert(formats.take(n as int) =~= formats);
        r
    }
}

} // verus!
