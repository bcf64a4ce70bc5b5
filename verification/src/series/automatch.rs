//! Automatically match the formats of a local series, and any continuous
//! seasons within them, to anime on a remote service.
//!
//! The remote service is only reached through the caller: pairing is a
//! sequence of steps, each of which either asks the caller to split a
//! format's episodes into seasons (which takes replies from the service) or
//! finishes.
use vstd::prelude::*;

use indexmap::IndexMap;

use crate::anime;
use crate::anime::Id;

use super::local::{find_group, group_index, groups_model, EpisodeMap, LocalRoot};
use super::root::{
    format_entries, format_map_insert, format_map_sort_keys, inserted, key_index, keys_distinct,
    season_entries, season_map_insert, season_map_new, sorted_by_format, EpisodeSet,
    RemoteSeasonPairing, RootPairing, SeasonMap,
};
use super::{remote_format, Format};

verus! {

/// Why automatic matching failed.
#[derive(Debug)]
pub enum Error {
    /// The remote service could not be asked.
    AnimeApi(crate::anime::api::Error),
    /// A format was scored that the local series does not have.
    InvalidFormatScoreStored,
}

/// The outcome of automatic matching.
#[derive(Debug)]
pub enum AutomatchResult {
    Paired(RootPairing),
    Unpaired(LocalRoot),
}

// ---------------------------------------------------------------------------
// Searched anime
// ---------------------------------------------------------------------------

/// The anime a search found, by id, in the order first found.
pub type AnimeMap = IndexMap<Id, anime::Info>;

/// What an anime map holds, in its order.
pub uninterp spec fn anime_map_entries(m: AnimeMap) -> Seq<(Id, anime::Info)>;

/// `IndexMap::new`: an empty anime map.
#[verifier::external_body]
fn anime_map_new() -> (m: AnimeMap)
    ensures
        anime_map_entries(m) == Seq::<(Id, anime::Info)>::empty(),
{
    IndexMap::new()
}

/// `IndexMap::insert` on an anime map: a new id is added last, an existing
/// id keeps its place and takes the new info.
#[verifier::external_body]
fn anime_map_insert(m: &mut AnimeMap, key: Id, value: anime::Info) -> (r: Option<anime::Info>)
    ensures
        anime_map_entries(*final(m)) == inserted(anime_map_entries(*old(m)), key, value),
        match key_index(anime_map_entries(*old(m)), key) {
            Some(i) => r == Some(anime_map_entries(*old(m))[i].1),
            None => r is None,
        },
{
    m.insert(key, value)
}

/// `IndexMap::len` of an anime map.
#[verifier::external_body]
fn anime_map_len(m: &AnimeMap) -> (r: usize)
    ensures
        r == anime_map_entries(*m).len(),
{
    m.len()
}

/// `IndexMap::get_index` on an anime map: the entry at position `i`.
#[verifier::external_body]
fn anime_map_get_index(m: &AnimeMap, i: usize) -> (r: Option<(&Id, &anime::Info)>)
    ensures
        i < anime_map_entries(*m).len() ==> r == Some(
            (&anime_map_entries(*m)[i as int].0, &anime_map_entries(*m)[i as int].1),
        ),
        i >= anime_map_entries(*m).len() ==> r is None,
{
    m.get_index(i)
}

/// The entries after removing the one at `i` by moving the last entry into
/// its place.
pub open spec fn swapped_out<K, V>(entries: Seq<(K, V)>, i: int) -> Seq<(K, V)> {
    if i == entries.len() - 1 {
        entries.drop_last()
    } else {
        entries.update(i, entries.last()).drop_last()
    }
}

/// `IndexMap::swap_remove` on an anime map: the entry with id `key` is
/// removed and the last entry takes its place; its info is returned.
#[verifier::external_body]
fn anime_map_swap_remove(m: &mut AnimeMap, key: &Id) -> (r: Option<anime::Info>)
    ensures
        match key_index(anime_map_entries(*old(m)), *key) {
            Some(i) => r == Some(anime_map_entries(*old(m))[i].1) && anime_map_entries(*final(m))
                == swapped_out(anime_map_entries(*old(m)), i),
            None => r is None && anime_map_entries(*final(m)) == anime_map_entries(*old(m)),
        },
{
    m.swap_remove(key)
}

/// The map a search's results collect into, one after another.
pub open spec fn collected(infos: Seq<anime::Info>) -> Seq<(Id, anime::Info)>
    decreases infos.len(),
{
    if infos.len() == 0 {
        Seq::empty()
    } else {
        inserted(collected(infos.drop_last()), infos.last().id, infos.last())
    }
}

/// No id occurs twice in what a search's results collect into.
pub proof fn lemma_collected_distinct(infos: Seq<anime::Info>)
    ensures
        keys_distinct(collected(infos)),
    decreases infos.len(),
{
    if infos.len() > 0 {
        let prev = collected(infos.drop_last());
        lemma_collected_distinct(infos.drop_last());
        let id = infos.last().id;
        match key_index(prev, id) {
            Some(i) => {
                assert(0 <= i < prev.len() && prev[i].0 == id);
            },
            None => {
                assert(forall|i: int| 0 <= i < prev.len() ==> prev[i].0 != id);
            },
        }
    }
}

/// Once the anime with id `entries[i].0` is taken out, no entry has its id,
/// and ids stay distinct: an anime is paired with one format at most.
pub proof fn lemma_swapped_out_removes(entries: Seq<(Id, anime::Info)>, i: int)
    requires
        keys_distinct(entries),
        0 <= i < entries.len(),
    ensures
        key_index(swapped_out(entries, i), entries[i].0) is None,
        keys_distinct(swapped_out(entries, i)),
{
    let r = swapped_out(entries, i);
    let n = entries.len() - 1;
    assert forall|j: int| 0 <= j < r.len() implies r[j].0 != entries[i].0 by {
        if j == i {
            assert(r[j] == entries[n]);
        } else {
            assert(r[j] == entries[j]);
        }
    }
    assert forall|a: int, b: int| 0 <= a < r.len() && 0 <= b < r.len() && a != b implies r[a].0
        != r[b].0 by {
        let ea = if a == i { n } else { a };
        let eb = if b == i { n } else { b };
        assert(r[a] == entries[ea]);
        assert(r[b] == entries[eb]);
    }
}

/// Collect a search's results by id: an id found again keeps its first place
/// and takes the later info.
pub fn searched_anime_map(infos: Vec<anime::Info>) -> (m: AnimeMap)
    ensures
        anime_map_entries(m) == collected(infos@),
{
    let ghost all = infos@;
    let mut m = anime_map_new();
    let mut rest = infos;
    let ghost mut taken: Seq<anime::Info> = Seq::empty();
    assert(all =~= taken + rest@);
    while rest.len() > 0
        invariant
            all == taken + rest@,
            anime_map_entries(m) == collected(taken),
        decreases rest.len(),
    {
        let ghost before = rest@;
        let info = rest.remove(0);
        let ghost prev = taken;
        let id = info.id;
        anime_map_insert(&mut m, id, info);
        proof {
            taken = taken.push(info);
            assert(taken.drop_last() =~= prev);
            assert(all =~= taken + rest@);
        }
    }
    assert(taken + rest@ =~= taken);
    m
}

// ---------------------------------------------------------------------------
// Scoring formats
// ---------------------------------------------------------------------------

/// Scores are similarities scaled from `0..=1` to `0..=SCORE_SCALE * 100`.
pub const SCORE_SCALE: u32 = 10_000;

/// Only formats scoring at least this (70% similar) are matched.
pub const CONFIDENT_SCORE: u32 = 700_000;

/// How much a matching format raises a score (and a differing one lowers it).
pub const MATCHING_FORMAT_SCORE_ADJUSTMENT: u32 = 250_000;

/// The highest title similarity score.
pub const MAX_TITLE_SCORE: u32 = 1_000_000;

/// The best anime found so far for a format.
#[derive(Debug, Copy, Clone, PartialEq, Eq, Structural)]
pub struct ScoredAnimeInfo {
    pub score: u32,
    pub remote_id: Id,
}

/// The score of a local format against an anime: its title similarity,
/// raised when the anime has the same format and lowered (not below zero)
/// otherwise.
pub open spec fn format_score(title_score: int, anime_format: Option<anime::Format>, local: Format) -> int {
    if anime_format == Some(remote_format(local)) {
        title_score + MATCHING_FORMAT_SCORE_ADJUSTMENT
    } else if title_score >= MATCHING_FORMAT_SCORE_ADJUSTMENT {
        title_score - MATCHING_FORMAT_SCORE_ADJUSTMENT
    } else {
        0
    }
}

/// Position of the entry for format `f`, from `i` on.
pub open spec fn score_index(best: Seq<(Format, ScoredAnimeInfo)>, f: Format, i: int) -> Option<int>
    decreases best.len() - i,
{
    if i < 0 || i >= best.len() {
        None
    } else if best[i].0 == f {
        Some(i)
    } else {
        score_index(best, f, i + 1)
    }
}

/// Record `score` for `f`, unless an entry for `f` already scores at least as high.
pub open spec fn store_best(best: Seq<(Format, ScoredAnimeInfo)>, id: Id, f: Format, score: u32) -> Seq<
    (Format, ScoredAnimeInfo),
> {
    match score_index(best, f, 0) {
        Some(i) => if score > best[i].1.score {
            best.update(i, (f, ScoredAnimeInfo { score, remote_id: id }))
        } else {
            best
        },
        None => best.push((f, ScoredAnimeInfo { score, remote_id: id })),
    }
}

/// Score each of `locals` against one anime, recording confident scores.
pub open spec fn score_formats(
    best: Seq<(Format, ScoredAnimeInfo)>,
    id: Id,
    title_score: int,
    anime_format: Option<anime::Format>,
    locals: Seq<Format>,
) -> Seq<(Format, ScoredAnimeInfo)>
    decreases locals.len(),
{
    if locals.len() == 0 {
        best
    } else {
        let b = score_formats(best, id, title_score, anime_format, locals.drop_last());
        let s = format_score(title_score, anime_format, locals.last());
        if s < CONFIDENT_SCORE {
            b
        } else {
            store_best(b, id, locals.last(), s as u32)
        }
    }
}

/// Score every local format against every anime, in order.
pub open spec fn scored(
    locals: Seq<Format>,
    anime: Seq<(Id, Option<anime::Format>)>,
    title_scores: Seq<u32>,
) -> Seq<(Format, ScoredAnimeInfo)>
    decreases anime.len(),
{
    if anime.len() == 0 {
        Seq::empty()
    } else {
        let n = anime.len() - 1;
        score_formats(
            scored(locals, anime.drop_last(), title_scores),
            anime[n].0,
            title_scores[n] as int,
            anime[n].1,
            locals,
        )
    }
}

/// The best anime for each format that scored confidently.
#[derive(Debug)]
pub struct ScoredFormats {
    pub best_format_matches: Vec<(Format, ScoredAnimeInfo)>,
}

/// Each format has one entry, and each entry is confident.
pub open spec fn scores_wf(best: Seq<(Format, ScoredAnimeInfo)>) -> bool {
    &&& forall|i: int, j: int| 0 <= i < j < best.len() ==> best[i].0 != best[j].0
    &&& forall|i: int| 0 <= i < best.len() ==> (#[trigger] best[i]).1.score >= CONFIDENT_SCORE
}

proof fn lemma_score_index(best: Seq<(Format, ScoredAnimeInfo)>, f: Format, i: int)
    requires
        0 <= i,
    ensures
        score_index(best, f, i) matches Some(k) ==> i <= k < best.len() && best[k].0 == f,
        score_index(best, f, i) is None ==> forall|k: int| i <= k < best.len() ==> best[k].0 != f,
    decreases best.len() - i,
{
    if 0 <= i < best.len() && best[i].0 != f {
        lemma_score_index(best, f, i + 1);
    }
}

proof fn lemma_store_best_wf(best: Seq<(Format, ScoredAnimeInfo)>, id: Id, f: Format, score: u32)
    requires
        scores_wf(best),
        score >= CONFIDENT_SCORE,
    ensures
        scores_wf(store_best(best, id, f, score)),
{
    lemma_score_index(best, f, 0);
}

proof fn lemma_score_formats_wf(
    best: Seq<(Format, ScoredAnimeInfo)>,
    id: Id,
    title_score: int,
    anime_format: Option<anime::Format>,
    locals: Seq<Format>,
)
    requires
        scores_wf(best),
        0 <= title_score <= MAX_TITLE_SCORE,
    ensures
        scores_wf(score_formats(best, id, title_score, anime_format, locals)),
    decreases locals.len(),
{
    if locals.len() > 0 {
        lemma_score_formats_wf(best, id, title_score, anime_format, locals.drop_last());
        let b = score_formats(best, id, title_score, anime_format, locals.drop_last());
        let s = format_score(title_score, anime_format, locals.last());
        if s >= CONFIDENT_SCORE {
            lemma_store_best_wf(b, id, locals.last(), s as u32);
        }
    }
}

/// Each format is matched at most once, and only with a confident score.
pub proof fn lemma_scored_wf(
    locals: Seq<Format>,
    anime: Seq<(Id, Option<anime::Format>)>,
    title_scores: Seq<u32>,
)
    requires
        anime.len() <= title_scores.len(),
        forall|k: int| 0 <= k < title_scores.len() ==> #[trigger] title_scores[k] <= MAX_TITLE_SCORE,
    ensures
        scores_wf(scored(locals, anime, title_scores)),
    decreases anime.len(),
{
    if anime.len() > 0 {
        let n = anime.len() - 1;
        lemma_scored_wf(locals, anime.drop_last(), title_scores);
        lemma_score_formats_wf(
            scored(locals, anime.drop_last(), title_scores),
            anime[n].0,
            title_scores[n] as int,
            anime[n].1,
            locals,
        );
    }
}

fn same_remote_format(a: Option<anime::Format>, b: anime::Format) -> (r: bool)
    ensures
        r == (a == Some(b)),
{
    match a {
        Some(x) => x == b,
        None => false,
    }
}

fn to_remote_format(f: Format) -> (r: anime::Format)
    ensures
        r == remote_format(f),
{
    crate::anime::Format::from(f)
}

impl ScoredFormats {
    /// Store the anime entry for the given format, and update the existing
    /// entry if the given score is better.
    pub fn store_best_format_entry(
        anime_id: Id,
        local_format: Format,
        score: u32,
        format_scores: &mut Vec<(Format, ScoredAnimeInfo)>,
    )
        ensures
            final(format_scores)@ == store_best(old(format_scores)@, anime_id, local_format, score),
            scores_wf(old(format_scores)@) && score >= CONFIDENT_SCORE ==> scores_wf(
                final(format_scores)@,
            ),
    {
        proof {
            if scores_wf(old(format_scores)@) && score >= CONFIDENT_SCORE {
                lemma_store_best_wf(old(format_scores)@, anime_id, local_format, score);
            }
        }
        let ghost best = format_scores@;
        let mut i: usize = 0;
        while i < format_scores.len()
            invariant
                i <= format_scores.len(),
                best == format_scores@,
                best == old(format_scores)@,
                score_index(best, local_format, 0) == score_index(best, local_format, i as int),
            decreases format_scores.len() - i,
        {
            if format_scores[i].0 == local_format {
                assert(score_index(best, local_format, i as int) == Some(i as int));
                if score > format_scores[i].1.score {
                    format_scores.set(
                        i,
                        (local_format, ScoredAnimeInfo { score, remote_id: anime_id }),
                    );
                }
                return;
            }
            i += 1;
        }
        format_scores.push((local_format, ScoredAnimeInfo { score, remote_id: anime_id }));
    }

    /// Score each local series format with all provided anime.
    ///
    /// `title_scores[k]` is the similarity of the local series name to the
    /// closest title of `anime_entries[k]`, scaled to `0..=MAX_TITLE_SCORE`.
    /// Scores will only be recorded for formats that have a fairly strong
    /// (70%) similarity to one of the provided anime.
    pub fn from_remote_anime(
        local_series: &LocalRoot,
        anime_entries: &AnimeMap,
        title_scores: &Vec<u32>,
    ) -> (r: Self)
        requires
            title_scores@.len() == anime_map_entries(*anime_entries).len(),
            forall|k: int| 0 <= k < title_scores@.len() ==> #[trigger] title_scores@[k] <= MAX_TITLE_SCORE,
        ensures
            r.best_format_matches@ == scored(
                local_formats(local_series.episodes@),
                anime_keys(anime_map_entries(*anime_entries)),
                title_scores@,
            ),
            scores_wf(r.best_format_matches@),
    {
        proof {
            lemma_scored_wf(
                local_formats(local_series.episodes@),
                anime_keys(anime_map_entries(*anime_entries)),
                title_scores@,
            );
        }
        let ghost locals = local_formats(local_series.episodes@);
        let ghost entries = anime_map_entries(*anime_entries);
        let ghost keys = anime_keys(entries);
        let mut best: Vec<(Format, ScoredAnimeInfo)> = Vec::new();
        let n = anime_map_len(anime_entries);
        let mut k: usize = 0;
        while k < n
            invariant
                k <= n,
                n == entries.len(),
                entries == anime_map_entries(*anime_entries),
                title_scores@.len() == n,
                forall|m: int| 0 <= m < title_scores@.len() ==> #[trigger] title_scores@[m] <= MAX_TITLE_SCORE,
                locals == local_formats(local_series.episodes@),
                keys == anime_keys(entries),
                best@ == scored(locals, keys.take(k as int), title_scores@),
            decreases n - k,
        {
            let (anime_id, anime_format) = match anime_map_get_index(anime_entries, k) {
                Some((id, info)) => (*id, info.format),
                None => {
                    return ScoredFormats { best_format_matches: best };
                },
            };
            let score = title_scores[k];
            assert(keys.take(k + 1).drop_last() =~= keys.take(k as int));
            assert(keys.take(k + 1)[k as int] == (anime_id, anime_format));
            let ghost before = best@;
            let mut f: usize = 0;
            while f < local_series.episodes.len()
                invariant
                    f <= local_series.episodes.len(),
                    locals == local_formats(local_series.episodes@),
                    score <= MAX_TITLE_SCORE,
                    best@ == score_formats(
                        before,
                        anime_id,
                        score as int,
                        anime_format,
                        locals.take(f as int),
                    ),
                decreases local_series.episodes.len() - f,
            {
                let local_format = local_series.episodes[f].0;
                assert(locals.take(f + 1).drop_last() =~= locals.take(f as int));
                assert(locals.take(f + 1).last() == local_format);
                let format_score = if same_remote_format(anime_format, to_remote_format(local_format)) {
                    score + MATCHING_FORMAT_SCORE_ADJUSTMENT
                } else {
                    score.saturating_sub(MATCHING_FORMAT_SCORE_ADJUSTMENT)
                };
                if format_score >= CONFIDENT_SCORE {
                    Self::store_best_format_entry(anime_id, local_format, format_score, &mut best);
                }
                f += 1;
            }
            assert(locals.take(local_series.episodes.len() as int) =~= locals);
            k += 1;
        }
        assert(keys.take(n as int) =~= keys);
        ScoredFormats { best_format_matches: best }
    }

    /// Returns true if no scores were recorded for any formats.
    pub fn is_empty(&self) -> (r: bool)
        ensures
            r == (self.best_format_matches@.len() == 0),
    {
        self.best_format_matches.len() == 0
    }
}

// ---------------------------------------------------------------------------
// Pairing formats with anime
// ---------------------------------------------------------------------------

/// The position of the first pending format, from `k` on, whose anime is
/// still unpaired (the number of pending formats when there is none).
pub open spec fn first_pairable(
    pending: Seq<(Format, ScoredAnimeInfo)>,
    anime: Seq<(Id, anime::Info)>,
    k: int,
) -> int
    decreases pending.len() - k,
{
    if k < 0 || k >= pending.len() {
        pending.len() as int
    } else if key_index(anime, pending[k].1.remote_id) is Some {
        k
    } else {
        first_pairable(pending, anime, k + 1)
    }
}

/// Pairing the scored formats of a local series one after another. Each
/// format takes its best anime, unless an earlier format took it already
/// (an anime is paired with one format at most).
#[derive(Debug)]
pub struct FormatPairing {
    pending: Vec<(Format, ScoredAnimeInfo)>,
    next: usize,
    anime: AnimeMap,
    episodes: EpisodeMap,
    series: RootPairing,
}

/// What pairing asks for next.
#[derive(Debug)]
pub enum PairingStep {
    /// Split `episodes` into the seasons of `anime` and its sequels (see
    /// `SeasonSplit`), then call `on_seasons` with the result.
    PairSeasons {
        pairing: FormatPairing,
        format: Format,
        anime_id: Id,
        anime: anime::Info,
        episodes: EpisodeSet,
    },
    /// Matching is done.
    Finished(AutomatchResult),
    /// Matching failed.
    Failed(Error),
}

/// `pairings` with each entry of `extra` inserted in turn.
pub open spec fn all_inserted(
    pairings: Seq<(Format, SeasonMap)>,
    extra: Seq<(Format, SeasonMap)>,
) -> Seq<(Format, SeasonMap)>
    decreases extra.len(),
{
    if extra.len() == 0 {
        pairings
    } else {
        inserted(all_inserted(pairings, extra.drop_last()), extra.last().0, extra.last().1)
    }
}

/// `extra` gives each format of `episodes`, in order, a single season 0
/// that holds its episodes unpaired.
pub open spec fn unpaired_formats(
    extra: Seq<(Format, SeasonMap)>,
    episodes: Seq<(Format, EpisodeSet)>,
) -> bool {
    &&& extra.len() == episodes.len()
    &&& forall|i: int|
        0 <= i < extra.len() ==> #[trigger] extra[i].0 == episodes[i].0 && season_entries(
            extra[i].1,
        ) == seq![(0u16, RemoteSeasonPairing::Unpaired(episodes[i].1))]
}

/// The step taken from a pairing with these pending formats (from `next`
/// on), unpaired anime, unpaired local episodes, series name and pairings:
/// the next format whose anime is unpaired is handed out with that anime and
/// its episodes. With none left, every format whose episodes are still
/// unpaired is added with its episodes in season 0, the pairings are sorted
/// by format and the series is paired. A format with no local episodes is
/// an error.
pub open spec fn step_from(
    pending: Seq<(Format, ScoredAnimeInfo)>,
    next: int,
    anime: Seq<(Id, anime::Info)>,
    episodes: Seq<(Format, EpisodeSet)>,
    name: Seq<char>,
    pairings: Seq<(Format, SeasonMap)>,
    r: PairingStep,
) -> bool {
    let k = first_pairable(pending, anime, next);
    if k >= pending.len() {
        &&& r matches PairingStep::Finished(AutomatchResult::Paired(p))
        &&& r->Finished_0->Paired_0.name@ == name
        &&& exists|extra: Seq<(Format, SeasonMap)>|
            #[trigger] unpaired_formats(extra, episodes) && format_entries(
                r->Finished_0->Paired_0.pairings,
            ).to_multiset() == all_inserted(pairings, extra).to_multiset()
        &&& sorted_by_format(format_entries(r->Finished_0->Paired_0.pairings))
    } else {
        let f = pending[k].0;
        let id = pending[k].1.remote_id;
        let i = key_index(anime, id)->0;
        match group_index(groups_model(episodes), f, 0) {
            Some(g) => {
                &&& r is PairSeasons
                &&& r->format == f
                &&& r->anime_id == id
                &&& r->anime == anime[i].1
                &&& r->episodes == episodes[g].1
                &&& r->pairing.pending_view() == pending
                &&& r->pairing.next_view() == k + 1
                &&& r->pairing.anime_view() == swapped_out(anime, i)
                &&& r->pairing.episodes_view() == episodes.remove(g)
                &&& r->pairing.name_view() == name
                &&& r->pairing.pairings_view() == pairings
            },
            None => r matches PairingStep::Failed(Error::InvalidFormatScoreStored),
        }
    }
}

proof fn lemma_first_pairable(
    pending: Seq<(Format, ScoredAnimeInfo)>,
    anime: Seq<(Id, anime::Info)>,
    k: int,
)
    requires
        0 <= k,
    ensures
        first_pairable(pending, anime, k) <= pending.len(),
        first_pairable(pending, anime, k) < pending.len() ==> key_index(
            anime,
            pending[first_pairable(pending, anime, k)].1.remote_id,
        ) is Some,
    decreases pending.len() - k,
{
    if k < pending.len() && key_index(anime, pending[k].1.remote_id) is None {
        lemma_first_pairable(pending, anime, k + 1);
    }
}

/// The anime a step hands out is no longer among the unpaired anime, so no
/// later format can be paired with it.
pub proof fn lemma_paired_anime_taken(
    pending: Seq<(Format, ScoredAnimeInfo)>,
    next: int,
    anime: Seq<(Id, anime::Info)>,
    episodes: Seq<(Format, EpisodeSet)>,
    name: Seq<char>,
    pairings: Seq<(Format, SeasonMap)>,
    r: PairingStep,
)
    requires
        keys_distinct(anime),
        0 <= next,
        step_from(pending, next, anime, episodes, name, pairings, r),
        r is PairSeasons,
    ensures
        key_index(r->pairing.anime_view(), r->anime_id) is None,
        keys_distinct(r->pairing.anime_view()),
{
    let k = first_pairable(pending, anime, next);
    lemma_first_pairable(pending, anime, next);
    let i = key_index(anime, pending[k].1.remote_id)->0;
    assert(0 <= i < anime.len() && anime[i].0 == pending[k].1.remote_id);
    lemma_swapped_out_removes(anime, i);
}

/// Each entry of `extra`, whose keys are distinct, is among the entries
/// once all of them are inserted.
proof fn lemma_all_inserted_contains(
    pairings: Seq<(Format, SeasonMap)>,
    extra: Seq<(Format, SeasonMap)>,
)
    requires
        keys_distinct(extra),
    ensures
        forall|i: int| 0 <= i < extra.len() ==> all_inserted(pairings, extra).contains(#[trigger] extra[i]),
        forall|j: int|
            0 <= j < pairings.len() && key_index(extra, pairings[j].0) is None ==> all_inserted(
                pairings,
                extra,
            ).contains(#[trigger] pairings[j]),
    decreases extra.len(),
{
    if extra.len() > 0 {
        let init = extra.drop_last();
        assert forall|i: int, j: int|
            0 <= i < init.len() && 0 <= j < init.len() && i != j implies init[i].0 != init[j].0 by {
            assert(init[i] == extra[i] && init[j] == extra[j]);
        }
        lemma_all_inserted_contains(pairings, init);
        let a = all_inserted(pairings, init);
        let last = extra.last();
        let b = all_inserted(pairings, extra);
        assert(b == inserted(a, last.0, last.1));
        assert forall|i: int| 0 <= i < extra.len() implies b.contains(#[trigger] extra[i]) by {
            if i == extra.len() - 1 {
                match key_index(a, last.0) {
                    Some(j) => assert(b[j] == last),
                    None => assert(b[a.len() as int] == last),
                }
            } else {
                assert(init[i] == extra[i]);
                assert(a.contains(init[i]));
                let m = choose|m: int| 0 <= m < a.len() && a[m] == extra[i];
                assert(extra[i].0 != last.0);
                match key_index(a, last.0) {
                    Some(j) => {
                        assert(a[j].0 == last.0);
                        assert(b[m] == extra[i]);
                    },
                    None => assert(b[m] == extra[i]),
                }
            }
        }
        assert forall|j: int|
            0 <= j < pairings.len() && key_index(extra, pairings[j].0) is None implies b.contains(
                #[trigger] pairings[j],
            ) by {
            if key_index(init, pairings[j].0) is Some {
                let m = key_index(init, pairings[j].0)->0;
                assert(extra[m] == init[m]);
            }
            assert(a.contains(pairings[j]));
            let m = choose|m: int| 0 <= m < a.len() && a[m] == pairings[j];
            assert(pairings[j].0 != last.0);
            match key_index(a, last.0) {
                Some(i) => {
                    assert(a[i].0 == last.0);
                    assert(b[m] == pairings[j]);
                },
                None => assert(b[m] == pairings[j]),
            }
        }
    }
}

/// Some entry of `entries` is format `f` with the single season 0 holding
/// `episodes` unpaired.
pub open spec fn holds_unpaired(
    entries: Seq<(Format, SeasonMap)>,
    f: Format,
    episodes: EpisodeSet,
) -> bool {
    exists|j: int|
        0 <= j < entries.len() && #[trigger] entries[j].0 == f && season_entries(entries[j].1)
            == seq![(0u16, RemoteSeasonPairing::Unpaired(episodes))]
}

/// No local episode is lost when pairing finishes: each format whose
/// episodes were not handed out for pairing is among the formats of the
/// paired series, with its episodes in season 0, and each format paired
/// before keeps its seasons.
pub proof fn lemma_unpaired_formats_kept(
    pending: Seq<(Format, ScoredAnimeInfo)>,
    next: int,
    anime: Seq<(Id, anime::Info)>,
    episodes: Seq<(Format, EpisodeSet)>,
    name: Seq<char>,
    pairings: Seq<(Format, SeasonMap)>,
    r: PairingStep,
)
    requires
        keys_distinct(episodes),
        step_from(pending, next, anime, episodes, name, pairings, r),
        r is Finished,
    ensures
        forall|i: int|
            0 <= i < episodes.len() ==> holds_unpaired(
                format_entries(r->Finished_0->Paired_0.pairings),
                #[trigger] episodes[i].0,
                episodes[i].1,
            ),
        forall|j: int|
            0 <= j < pairings.len() && key_index(episodes, pairings[j].0) is None ==> format_entries(
                r->Finished_0->Paired_0.pairings,
            ).contains(#[trigger] pairings[j]),
{
    broadcast use vstd::seq_lib::group_to_multiset_ensures;

    let result = format_entries(r->Finished_0->Paired_0.pairings);
    let extra = choose|extra: Seq<(Format, SeasonMap)>|
        #[trigger] unpaired_formats(extra, episodes) && result.to_multiset() == all_inserted(
            pairings,
            extra,
        ).to_multiset();
    assert forall|i: int, j: int|
        0 <= i < extra.len() && 0 <= j < extra.len() && i != j implies extra[i].0 != extra[j].0 by {
        assert(extra[i].0 == episodes[i].0 && extra[j].0 == episodes[j].0);
    }
    lemma_all_inserted_contains(pairings, extra);
    let a = all_inserted(pairings, extra);
    assert forall|i: int| 0 <= i < episodes.len() implies holds_unpaired(
        result,
        #[trigger] episodes[i].0,
        episodes[i].1,
    ) by {
        assert(a.contains(extra[i]));
        assert(a.to_multiset().count(extra[i]) > 0);
        assert(result.contains(extra[i]));
        let j = choose|j: int| 0 <= j < result.len() && result[j] == extra[i];
        assert(result[j].0 == episodes[i].0);
    }
    assert forall|j: int|
        0 <= j < pairings.len() && key_index(episodes, pairings[j].0) is None implies result.contains(
            #[trigger] pairings[j],
        ) by {
        if key_index(extra, pairings[j].0) is Some {
            let m = key_index(extra, pairings[j].0)->0;
            assert(episodes[m].0 == extra[m].0);
        }
        assert(a.contains(pairings[j]));
        assert(a.to_multiset().count(pairings[j]) > 0);
    }
}

impl FormatPairing {
    #[verifier::type_invariant]
    spec fn within(self) -> bool {
        self.next <= self.pending@.len()
    }

    /// The scored formats, in the order they are paired.
    pub closed spec fn pending_view(self) -> Seq<(Format, ScoredAnimeInfo)> {
        self.pending@
    }

    /// How many scored formats were taken up.
    pub closed spec fn next_view(self) -> int {
        self.next as int
    }

    /// The anime not paired yet.
    pub closed spec fn anime_view(self) -> Seq<(Id, anime::Info)> {
        anime_map_entries(self.anime)
    }

    /// The local episodes of the formats not paired yet.
    pub closed spec fn episodes_view(self) -> Seq<(Format, EpisodeSet)> {
        self.episodes@
    }

    /// The series' name.
    pub closed spec fn name_view(self) -> Seq<char> {
        self.series.name@
    }

    /// The formats paired so far, with their seasons.
    pub closed spec fn pairings_view(self) -> Seq<(Format, SeasonMap)> {
        format_entries(self.series.pairings)
    }

    /// Take the next format whose anime is unpaired.
    #[verifier::loop_isolation(false)]
    fn advance(self) -> (r: PairingStep)
        ensures
            step_from(
                self.pending_view(),
                self.next_view(),
                self.anime_view(),
                self.episodes_view(),
                self.name_view(),
                self.pairings_view(),
                r,
            ),
    {
        proof {
            use_type_invariant(&self);
        }
        let ghost entries = self.anime_view();
        let ghost start = self.next_view();
        let ghost pending0 = self.pending_view();
        let ghost episodes0 = self.episodes_view();
        let ghost name0 = self.name_view();
        let ghost pairings0 = self.pairings_view();
        let FormatPairing { pending, next, anime, episodes, series } = self;
        let mut anime = anime;
        let mut series = series;
        let mut episodes = episodes;
        let mut k = next;
        while k < pending.len()
            invariant
                next <= k <= pending@.len(),
                start == next,
                pending@ == pending0,
                episodes@ == episodes0,
                series.name@ == name0,
                format_entries(series.pairings) == pairings0,
                anime_map_entries(anime) == entries,
                first_pairable(pending@, entries, start) == first_pairable(
                    pending@,
                    entries,
                    k as int,
                ),
            decreases pending@.len() - k,
        {
            let (format, scored) = pending[k];
            assert(pending@[k as int] == (format, scored));
            match anime_map_swap_remove(&mut anime, &scored.remote_id) {
                None => {
                    assert(key_index(entries, scored.remote_id) is None);
                    assert(first_pairable(pending@, entries, k as int) == first_pairable(
                        pending@,
                        entries,
                        k + 1,
                    ));
                    k += 1;
                },
                Some(info) => {
                    assert(key_index(entries, scored.remote_id) is Some);
                    assert(first_pairable(pending@, entries, k as int) == k);
                    match find_group(&episodes, format) {
                        Some(g) => {
                            let ghost all = episodes@;
                            let (_, local_episodes) = episodes.remove(g);
                            assert(episodes@ == all.remove(g as int));
                            let pairing = FormatPairing {
                                pending,
                                next: k + 1,
                                anime,
                                episodes,
                                series,
                            };
                            return PairingStep::PairSeasons {
                                pairing,
                                format,
                                anime_id: scored.remote_id,
                                anime: info,
                                episodes: local_episodes,
                            };
                        },
                        None => {
                            return PairingStep::Failed(Error::InvalidFormatScoreStored);
                        },
                    }
                },
            }
        }
        let ghost mut extra: Seq<(Format, SeasonMap)> = Seq::empty();
        let mut g: usize = 0;
        let total: usize = episodes.len();
        while episodes.len() > 0
            invariant
                total == episodes0.len(),
                g + episodes@.len() == episodes0.len(),
                episodes@ == episodes0.subrange(g as int, episodes0.len() as int),
                series.name@ == name0,
                extra.len() == g,
                unpaired_formats(extra, episodes0.subrange(0, g as int)),
                format_entries(series.pairings) == all_inserted(pairings0, extra),
            decreases episodes@.len(),
        {
            let (format, local_episodes) = episodes.remove(0);
            assert(episodes0[g as int] == (format, local_episodes));
            let ghost local = local_episodes;
            let mut seasons = season_map_new();
            season_map_insert(&mut seasons, 0, RemoteSeasonPairing::Unpaired(local_episodes));
            assert(season_entries(seasons) =~= seq![
                (0u16, RemoteSeasonPairing::Unpaired(local)),
            ]);
            let ghost before = format_entries(series.pairings);
            format_map_insert(&mut series.pairings, format, seasons);
            proof {
                let next_extra = extra.push((format, seasons));
                assert(next_extra.drop_last() =~= extra);
                assert(format_entries(series.pairings) == all_inserted(pairings0, next_extra));
                assert(episodes0.subrange(0, g + 1) =~= episodes0.subrange(0, g as int).push(
                    (format, local),
                ));
                assert forall|i: int| 0 <= i < next_extra.len() implies #[trigger] next_extra[i].0
                    == episodes0.subrange(0, g + 1)[i].0 && season_entries(next_extra[i].1)
                    == seq![
                    (0u16, RemoteSeasonPairing::Unpaired(episodes0.subrange(0, g + 1)[i].1)),
                ] by {
                    if i < g {
                        assert(extra[i] == next_extra[i]);
                        assert(extra[i].0 == episodes0.subrange(0, g as int)[i].0);
                    }
                }
                extra = next_extra;
            }
            assert(episodes@ =~= episodes0.subrange(g + 1, episodes0.len() as int));
            g += 1;
        }
        assert(episodes0.subrange(0, g as int) =~= episodes0);
        assert(unpaired_formats(extra, episodes0));
        format_map_sort_keys(&mut series.pairings);
        PairingStep::Finished(AutomatchResult::Paired(series))
    }

    /// Start pairing the formats of `local_series` that scored against the
    /// anime a search found. With no format scored, the series stays
    /// unpaired.
    pub fn start(local_series: LocalRoot, anime: AnimeMap, scored: ScoredFormats) -> (r:
        PairingStep)
        ensures
            scored.best_format_matches@.len() == 0 ==> r == PairingStep::Finished(
                AutomatchResult::Unpaired(local_series),
            ),
            scored.best_format_matches@.len() > 0 ==> step_from(
                scored.best_format_matches@,
                0,
                anime_map_entries(anime),
                local_series.episodes@,
                local_series.parsed_name@,
                Seq::empty(),
                r,
            ),
    {
        if scored.is_empty() {
            return PairingStep::Finished(AutomatchResult::Unpaired(local_series));
        }
        let LocalRoot { path: _, parsed_name, episodes } = local_series;
        let series = RootPairing::new(parsed_name);
        let pairing = FormatPairing {
            pending: scored.best_format_matches,
            next: 0,
            anime,
            episodes,
            series,
        };
        pairing.advance()
    }

    /// Record the seasons found for `format`, then take the next format.
    pub fn on_seasons(self, format: Format, seasons: SeasonMap) -> (r: PairingStep)
        ensures
            step_from(
                self.pending_view(),
                self.next_view(),
                self.anime_view(),
                self.episodes_view(),
                self.name_view(),
                inserted(self.pairings_view(), format, seasons),
                r,
            ),
    {
        proof {
            use_type_invariant(&self);
        }
        let FormatPairing { pending, next, anime, episodes, series } = self;
        let mut series = series;
        format_map_insert(&mut series.pairings, format, seasons);
        let pairing = FormatPairing { pending, next, anime, episodes, series };
        pairing.advance()
    }
}

/// Match a local series with the anime a search found: score its formats
/// against them (`title_scores[k]` is the similarity of the series name to
/// the closest title of the `k`-th anime), then pair the formats that scored.
pub fn all_formats_and_seasons(
    local_series: LocalRoot,
    anime: AnimeMap,
    title_scores: &Vec<u32>,
) -> (r: PairingStep)
    requires
        title_scores@.len() == anime_map_entries(anime).len(),
        forall|k: int| 0 <= k < title_scores@.len() ==> #[trigger] title_scores@[k] <= MAX_TITLE_SCORE,
    ensures
        ({
            let best = scored(
                local_formats(local_series.episodes@),
                anime_keys(anime_map_entries(anime)),
                title_scores@,
            );
            &&& best.len() == 0 ==> r == PairingStep::Finished(
                AutomatchResult::Unpaired(local_series),
            )
            &&& best.len() > 0 ==> step_from(
                best,
                0,
                anime_map_entries(anime),
                local_series.episodes@,
                local_series.parsed_name@,
                Seq::empty(),
                r,
            )
        }),
{
    let scored_formats = ScoredFormats::from_remote_anime(&local_series, &anime, title_scores);
    FormatPairing::start(local_series, anime, scored_formats)
}

/// One title score for each anime, none above `MAX_TITLE_SCORE`.
pub open spec fn scores_fit(title_scores: Seq<u32>, anime: Seq<(Id, anime::Info)>) -> bool {
    &&& title_scores.len() == anime.len()
    &&& forall|k: int| 0 <= k < title_scores.len() ==> #[trigger] title_scores[k] <= MAX_TITLE_SCORE
}

/// `all_formats_and_seasons` for any scores: when `title_scores` does not
/// hold one score per anime, each at most `MAX_TITLE_SCORE`, the series and
/// the anime are handed back unchanged.
pub fn checked_all_formats_and_seasons(
    local_series: LocalRoot,
    anime: AnimeMap,
    title_scores: &Vec<u32>,
) -> (r: Result<PairingStep, (LocalRoot, AnimeMap)>)
    ensures
        r is Ok <==> scores_fit(title_scores@, anime_map_entries(anime)),
        r matches Err(e) ==> e.0 == local_series && e.1 == anime,
        r matches Ok(step) ==> ({
            let best = scored(
                local_formats(local_series.episodes@),
                anime_keys(anime_map_entries(anime)),
                title_scores@,
            );
            &&& best.len() == 0 ==> step == PairingStep::Finished(
                AutomatchResult::Unpaired(local_series),
            )
            &&& best.len() > 0 ==> step_from(
                best,
                0,
                anime_map_entries(anime),
                local_series.episodes@,
                local_series.parsed_name@,
                Seq::empty(),
                step,
            )
        }),
{
    if anime_map_len(&anime) != title_scores.len() {
        return Err((local_series, anime));
    }
    let mut k: usize = 0;
    while k < title_scores.len()
        invariant
            k <= title_scores@.len(),
            forall|m: int| 0 <= m < k ==> #[trigger] title_scores@[m] <= MAX_TITLE_SCORE,
        decreases title_scores@.len() - k,
    {
        if title_scores[k] > MAX_TITLE_SCORE {
            return Err((local_series, anime));
        }
        k += 1;
    }
    Ok(all_formats_and_seasons(local_series, anime, title_scores))
}

/// The formats of a local series, in order.
pub open spec fn local_formats(episodes: Seq<(Format, EpisodeSet)>) -> Seq<Format> {
    episodes.map_values(|p: (Format, EpisodeSet)| p.0)
}

/// The id and format of each anime, in order.
pub open spec fn anime_keys(anime: Seq<(Id, anime::Info)>) -> Seq<(Id, Option<anime::Format>)> {
    anime.map_values(|a: (Id, anime::Info)| (a.0, a.1.format))
}

} // verus!
