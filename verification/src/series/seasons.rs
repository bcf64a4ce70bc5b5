//! Split the episodes of one local format into the seasons of an anime and
//! its sequels.
//!
//! When the highest local episode number exceeds the anime's episode count,
//! the episodes past it belong to sequels laid out one after another
//! ("continuous seasons"). Finding them takes replies from the remote service
//! (the id of each sequel, then its episode count), so the split proceeds in
//! steps: each step consumes the split so far and either asks the caller for
//! the next reply or finishes with the season map.
//!
//! Episodes that map to no season end up in season 0. No step loses or
//! duplicates an episode.
use vstd::prelude::*;
use vstd::multiset::Multiset;

use crate::anime::{plain_of, Id, Info, PlainId};

use super::local::{set_model, EpisodeModel};
use super::root::{
    inserted, key_index, season_entries, season_map_insert, season_map_new, EpisodeSet, PairedSeason,
    RemoteSeasonPairing, SeasonMap,
};

verus! {

broadcast use {vstd::seq_lib::group_to_multiset_ensures, vstd::seq_lib::lemma_multiset_commutative};

// ---------------------------------------------------------------------------
// Selecting the episodes of a season
// ---------------------------------------------------------------------------

/// An episode belongs to a season of `limit` episodes that starts after
/// `offset` episodes (a season of unknown length takes every episode).
pub open spec fn takes(number: u32, offset: u32, limit: Option<u32>) -> bool {
    match limit {
        Some(l) => if number >= offset {
            number - offset <= l
        } else {
            0 <= l
        },
        None => true,
    }
}

/// The episodes that belong to the season, in order.
pub open spec fn taken(s: Seq<EpisodeModel>, offset: u32, limit: Option<u32>) -> Seq<EpisodeModel>
    decreases s.len(),
{
    if s.len() == 0 {
        s
    } else if takes(s[0].0.number, offset, limit) {
        seq![s[0]] + taken(s.drop_first(), offset, limit)
    } else {
        taken(s.drop_first(), offset, limit)
    }
}

/// The episodes that do not belong to the season, in order.
pub open spec fn kept(s: Seq<EpisodeModel>, offset: u32, limit: Option<u32>) -> Seq<EpisodeModel>
    decreases s.len(),
{
    if s.len() == 0 {
        s
    } else if takes(s[0].0.number, offset, limit) {
        kept(s.drop_first(), offset, limit)
    } else {
        seq![s[0]] + kept(s.drop_first(), offset, limit)
    }
}

/// Splitting off a season's episodes neither loses nor duplicates any.
pub proof fn lemma_split_conserves(s: Seq<EpisodeModel>, offset: u32, limit: Option<u32>)
    ensures
        taken(s, offset, limit).to_multiset().add(kept(s, offset, limit).to_multiset())
            == s.to_multiset(),
    decreases s.len(),
{
    if s.len() > 0 {
        lemma_split_conserves(s.drop_first(), offset, limit);
        assert(s =~= seq![s[0]] + s.drop_first());
        assert((seq![s[0]] + s.drop_first()).to_multiset() == seq![s[0]].to_multiset().add(
            s.drop_first().to_multiset(),
        ));
        let t = taken(s.drop_first(), offset, limit);
        let k = kept(s.drop_first(), offset, limit);
        if takes(s[0].0.number, offset, limit) {
            assert((seq![s[0]] + t).to_multiset() == seq![s[0]].to_multiset().add(
                t.to_multiset(),
            ));
        } else {
            assert((seq![s[0]] + k).to_multiset() == seq![s[0]].to_multiset().add(
                k.to_multiset(),
            ));
        }
    } else {
        assert(s.to_multiset() =~= Multiset::empty());
    }
}

/// A season whose episode count is unknown takes every remaining episode,
/// in order, and leaves none.
pub proof fn lemma_unknown_length_takes_all(s: Seq<EpisodeModel>, offset: u32)
    ensures
        taken(s, offset, None) == s,
        kept(s, offset, None) == Seq::<EpisodeModel>::empty(),
    decreases s.len(),
{
    if s.len() > 0 {
        lemma_unknown_length_takes_all(s.drop_first(), offset);
        assert(s =~= seq![s[0]] + s.drop_first());
    }
}

/// A season of `l` episodes after `offset` episodes takes exactly those
/// numbered at most `offset + l`: every episode it takes is numbered so, and
/// every episode it leaves is numbered higher.
pub proof fn lemma_known_length_takes_up_to(s: Seq<EpisodeModel>, offset: u32, l: u32)
    ensures
        forall|i: int|
            0 <= i < taken(s, offset, Some(l)).len() ==> (#[trigger] taken(s, offset, Some(l))[i]).0.number
                <= offset + l,
        forall|i: int|
            0 <= i < kept(s, offset, Some(l)).len() ==> (#[trigger] kept(s, offset, Some(l))[i]).0.number
                > offset + l,
    decreases s.len(),
{
    if s.len() > 0 {
        lemma_known_length_takes_up_to(s.drop_first(), offset, l);
        let t = taken(s.drop_first(), offset, Some(l));
        let k = kept(s.drop_first(), offset, Some(l));
        if takes(s[0].0.number, offset, Some(l)) {
            assert forall|i: int| 0 < i < (seq![s[0]] + t).len() implies (seq![s[0]] + t)[i]
                == t[i - 1] by {}
        } else {
            assert forall|i: int| 0 < i < (seq![s[0]] + k).len() implies (seq![s[0]] + k)[i]
                == k[i - 1] by {}
        }
    }
}

/// The highest episode number, or 0 when there are none.
pub open spec fn max_number(s: Seq<EpisodeModel>) -> u32
    decreases s.len(),
{
    if s.len() == 0 {
        0
    } else {
        let m = max_number(s.drop_last());
        if s.last().0.number > m {
            s.last().0.number
        } else {
            m
        }
    }
}

fn highest_episode_number(episodes: &EpisodeSet) -> (r: u32)
    ensures
        r == max_number(set_model(episodes@)),
{
    let ghost s = set_model(episodes@);
    let mut highest: u32 = 0;
    let mut k: usize = 0;
    while k < episodes.len()
        invariant
            k <= episodes.len(),
            s == set_model(episodes@),
            highest == max_number(s.take(k as int)),
        decreases episodes.len() - k,
    {
        assert(s.take(k + 1).drop_last() =~= s.take(k as int));
        assert(s.take(k + 1).last() == s[k as int]);
        if episodes[k].info.number > highest {
            highest = episodes[k].info.number;
        }
        k += 1;
    }
    assert(s.take(episodes.len() as int) =~= s);
    highest
}

/// Move each episode into the season's episodes or the rest, keeping order.
fn split_episodes(episodes: EpisodeSet, offset: u32, limit: Option<u32>) -> (r: (EpisodeSet, EpisodeSet))
    ensures
        set_model(r.0@) == taken(set_model(episodes@), offset, limit),
        set_model(r.1@) == kept(set_model(episodes@), offset, limit),
{
    let ghost all = set_model(episodes@);
    let mut rest = episodes;
    let mut season: EpisodeSet = Vec::new();
    let mut others: EpisodeSet = Vec::new();
    while rest.len() > 0
        invariant
            taken(all, offset, limit) == set_model(season@) + taken(set_model(rest@), offset, limit),
            kept(all, offset, limit) == set_model(others@) + kept(set_model(rest@), offset, limit),
        decreases rest.len(),
    {
        let ghost before = set_model(rest@);
        let episode = rest.remove(0);
        assert(set_model(rest@) =~= before.drop_first());
        let ghost e = (episode.info, episode.path@);
        assert(before[0] == e);
        let ghost prev_season = set_model(season@);
        let ghost prev_others = set_model(others@);
        if episode.info.number >= offset && episode.info.number - offset <= match limit {
            Some(l) => l,
            None => u32::MAX,
        } || limit.is_none() || (episode.info.number < offset) {
            season.push(episode);
            assert(set_model(season@) =~= prev_season.push(e));
            assert(prev_season.push(e) + taken(before.drop_first(), offset, limit) =~= prev_season
                + (seq![e] + taken(before.drop_first(), offset, limit)));
        } else {
            others.push(episode);
            assert(set_model(others@) =~= prev_others.push(e));
            assert(prev_others.push(e) + kept(before.drop_first(), offset, limit) =~= prev_others
                + (seq![e] + kept(before.drop_first(), offset, limit)));
        }
    }
    assert(set_model(season@) + taken(set_model(rest@), offset, limit) =~= set_model(season@));
    assert(set_model(others@) + kept(set_model(rest@), offset, limit) =~= set_model(others@));
    (season, others)
}

// ---------------------------------------------------------------------------
// Seasons and their episodes
// ---------------------------------------------------------------------------

/// The episodes of one season.
pub open spec fn pairing_episodes(p: RemoteSeasonPairing) -> Seq<EpisodeModel> {
    match p {
        RemoteSeasonPairing::Paired(ps) => set_model(ps.local_episodes@),
        RemoteSeasonPairing::Unpaired(s) => set_model(s@),
    }
}

/// The episodes of all seasons, in season order.
pub open spec fn season_episodes(entries: Seq<(u16, RemoteSeasonPairing)>) -> Seq<EpisodeModel>
    decreases entries.len(),
{
    if entries.len() == 0 {
        Seq::empty()
    } else {
        season_episodes(entries.drop_last()) + pairing_episodes(entries.last().1)
    }
}

/// A season inserted into an empty map is its only season.
proof fn lemma_first_season(key: u16, p: RemoteSeasonPairing)
    ensures
        inserted(Seq::<(u16, RemoteSeasonPairing)>::empty(), key, p) == seq![(key, p)],
        season_episodes(seq![(key, p)]) == pairing_episodes(p),
{
    let e = Seq::<(u16, RemoteSeasonPairing)>::empty();
    assert(key_index(e, key) is None);
    assert(e.push((key, p)) =~= seq![(key, p)]);
    assert(seq![(key, p)].drop_last() =~= e);
    assert(season_episodes(e) =~= Seq::<EpisodeModel>::empty());
    assert(Seq::<EpisodeModel>::empty() + pairing_episodes(p) =~= pairing_episodes(p));
}

/// `p` pairs the episodes `eps` with the anime `info`, not yet in sync.
pub open spec fn is_paired(p: RemoteSeasonPairing, info: Info, eps: Seq<EpisodeModel>) -> bool {
    &&& p is Paired
    &&& p->Paired_0.remote_info == info
    &&& set_model(p->Paired_0.local_episodes@) == eps
    &&& !p->Paired_0.in_sync
}

/// `p` holds the episodes `eps`, paired with no anime.
pub open spec fn is_unpaired(p: RemoteSeasonPairing, eps: Seq<EpisodeModel>) -> bool {
    &&& p is Unpaired
    &&& set_model(p->Unpaired_0@) == eps
}

/// The seasons once splitting ends: the seasons found, then any remaining
/// episodes in season 0.
pub open spec fn finished_seasons(
    result: Seq<(u16, RemoteSeasonPairing)>,
    seasons: Seq<(u16, RemoteSeasonPairing)>,
    remaining: Seq<EpisodeModel>,
) -> bool {
    if remaining.len() == 0 {
        result == seasons
    } else {
        &&& result.len() == seasons.len() + 1
        &&& result.drop_last() == seasons
        &&& result.last().0 == 0
        &&& is_unpaired(result.last().1, remaining)
    }
}

// ---------------------------------------------------------------------------
// The split
// ---------------------------------------------------------------------------

/// A split in progress: the seasons found so far and the episodes not yet
/// placed.
#[derive(Debug)]
pub struct SeasonSplit {
    root_id: PlainId,
    current_sequel: PlainId,
    season_num: u16,
    episode_offset: u32,
    remaining: EpisodeSet,
    seasons: SeasonMap,
}

/// What a step of the split asks for next.
#[derive(Debug)]
pub enum SplitStep {
    /// Ask the service for the sequel of `current_sequel()`, then call
    /// `on_sequel_id`.
    FetchSequelId(SeasonSplit),
    /// Ask the service for the anime with this id, then call `on_sequel`.
    FetchAnime(SeasonSplit, Id),
    /// The split is done.
    Finished(SeasonMap),
}

/// Every episode a step holds, placed or not.
pub open spec fn step_episodes(s: SplitStep) -> Seq<EpisodeModel> {
    match s {
        SplitStep::FetchSequelId(x) => x.all_episodes(),
        SplitStep::FetchAnime(x, _) => x.all_episodes(),
        SplitStep::Finished(m) => season_episodes(season_entries(m)),
    }
}

impl SeasonSplit {
    /// Seasons are numbered from 1 up to the current season.
    #[verifier::type_invariant]
    spec fn numbered(self) -> bool {
        &&& self.season_num >= 1
        &&& forall|i: int|
            0 <= i < season_entries(self.seasons).len() ==> 1 <= (#[trigger] season_entries(
                self.seasons,
            )[i]).0 <= self.season_num
    }

    /// The seasons found so far.
    pub closed spec fn season_view(self) -> Seq<(u16, RemoteSeasonPairing)> {
        season_entries(self.seasons)
    }

    /// The episodes not placed in a season yet.
    pub closed spec fn remaining_view(self) -> Seq<EpisodeModel> {
        set_model(self.remaining@)
    }

    /// How many episodes the seasons found so far span.
    pub closed spec fn offset_view(self) -> u32 {
        self.episode_offset
    }

    /// The number of the latest season.
    pub closed spec fn season_num_view(self) -> u16 {
        self.season_num
    }

    /// The anime whose sequel is looked for next.
    pub closed spec fn current_view(self) -> PlainId {
        self.current_sequel
    }

    /// The anime the split started from.
    pub closed spec fn root_view(self) -> PlainId {
        self.root_id
    }

    pub open spec fn all_episodes(self) -> Seq<EpisodeModel> {
        season_episodes(self.season_view()) + self.remaining_view()
    }

    /// The anime whose sequel to look for next.
    pub fn current_sequel(&self) -> (r: PlainId)
        ensures
            r == self.current_view(),
    {
        self.current_sequel
    }

    /// The anime the split started from.
    pub fn root_id(&self) -> (r: PlainId)
        ensures
            r == self.root_view(),
    {
        self.root_id
    }

    /// End the split: any remaining episodes go to season 0.
    fn finish(self) -> (r: SeasonMap)
        ensures
            finished_seasons(season_entries(r), self.season_view(), self.remaining_view()),
            season_episodes(season_entries(r)).to_multiset() == self.all_episodes().to_multiset(),
    {
        proof {
            use_type_invariant(&self);
        }
        let ghost seasons_before = self.season_view();
        let SeasonSplit { remaining, seasons, .. } = self;
        let mut seasons = seasons;
        if remaining.len() > 0 {
            let ghost rem = set_model(remaining@);
            proof {
                if let Some(i) = key_index(seasons_before, 0u16) {
                    assert(seasons_before[i].0 == 0u16);
                }
            }
            season_map_insert(&mut seasons, 0, RemoteSeasonPairing::Unpaired(remaining));
            assert(season_entries(seasons).drop_last() =~= seasons_before);
            assert(season_episodes(season_entries(seasons)) =~= season_episodes(seasons_before)
                + rem);
        } else {
            assert(set_model(remaining@) =~= Seq::<EpisodeModel>::empty());
            assert(season_episodes(seasons_before) + set_model(remaining@) =~= season_episodes(
                seasons_before,
            ));
        }
        seasons
    }

    /// Start splitting `episodes` of the format paired with `anime`.
    ///
    /// When the highest episode number does not exceed the anime's episode
    /// count (or that count is unknown), every episode is season 1 and the
    /// split is finished. Otherwise season 1 takes the episodes up to the
    /// count, and the split asks for the anime's sequel.
    pub fn start(anime_id: Id, anime: Info, episodes: EpisodeSet) -> (r: SplitStep)
        ensures
            ({
                let eps = set_model(episodes@);
                if anime.episodes is Some && max_number(eps) > anime.episodes->0 {
                    let n = anime.episodes->0;
                    &&& r is FetchSequelId
                    &&& r->FetchSequelId_0.current_view() == plain_of(anime_id)
                    &&& r->FetchSequelId_0.root_view() == plain_of(anime_id)
                    &&& r->FetchSequelId_0.season_num_view() == 1
                    &&& r->FetchSequelId_0.offset_view() == n
                    &&& r->FetchSequelId_0.remaining_view() == kept(eps, 0, Some(n))
                    &&& r->FetchSequelId_0.season_view().len() == 1
                    &&& r->FetchSequelId_0.season_view()[0].0 == 1
                    &&& is_paired(r->FetchSequelId_0.season_view()[0].1, anime, taken(eps, 0, Some(n)))
                } else {
                    &&& r is Finished
                    &&& season_entries(r->Finished_0).len() == 1
                    &&& season_entries(r->Finished_0)[0].0 == 1
                    &&& is_paired(season_entries(r->Finished_0)[0].1, anime, eps)
                }
            }),
            step_episodes(r).to_multiset() == set_model(episodes@).to_multiset(),
    {
        let ghost eps = set_model(episodes@);
        let highest = highest_episode_number(&episodes);
        let root = anime_id.plain();
        let mut season_map = season_map_new();
        match anime.episodes {
            Some(n) => {
                if highest > n {
                    let (first, rest) = split_episodes(episodes, 0, Some(n));
                    proof {
                        lemma_split_conserves(eps, 0, Some(n));
                    }
                    season_map_insert(
                        &mut season_map,
                        1,
                        RemoteSeasonPairing::Paired(
                            PairedSeason { remote_info: anime, local_episodes: first, in_sync: false },
                        ),
                    );
                    proof {
                        lemma_first_season(1, season_entries(season_map)[0].1);
                    }
                    let split = SeasonSplit {
                        root_id: root,
                        current_sequel: root,
                        season_num: 1,
                        episode_offset: n,
                        remaining: rest,
                        seasons: season_map,
                    };
                    assert(season_episodes(split.season_view()) =~= taken(eps, 0, Some(n)));
                    return SplitStep::FetchSequelId(split);
                }
            },
            None => {},
        }
        season_map_insert(
            &mut season_map,
            1,
            RemoteSeasonPairing::Paired(
                PairedSeason { remote_info: anime, local_episodes: episodes, in_sync: false },
            ),
        );
        proof {
            lemma_first_season(1, season_entries(season_map)[0].1);
        }
        SplitStep::Finished(season_map)
    }

    /// The service's reply to "what is the sequel of `current_sequel()`":
    /// with no sequel the split is finished; otherwise ask for the sequel.
    pub fn on_sequel_id(self, sequel_id: Option<Id>) -> (r: SplitStep)
        ensures
            match sequel_id {
                Some(id) => r matches SplitStep::FetchAnime(s, asked) && asked == id && s == self,
                None => r is Finished && finished_seasons(
                    season_entries(r->Finished_0),
                    self.season_view(),
                    self.remaining_view(),
                ),
            },
            step_episodes(r).to_multiset() == self.all_episodes().to_multiset(),
    {
        match sequel_id {
            Some(id) => SplitStep::FetchAnime(self, id),
            None => SplitStep::Finished(self.finish()),
        }
    }

    /// The service's reply to "which anime has the id `sequel_id`".
    ///
    /// An unknown id ends the split. Otherwise the sequel becomes the next
    /// season: it takes the remaining episodes that fall within its episode
    /// count past the episodes placed so far. When it takes none, the local
    /// episodes have a gap: the sequel's episodes are skipped and the split
    /// goes on to the next sequel while episodes remain, and ends otherwise.
    /// The split also ends if seasons can no longer be numbered.
    pub fn on_sequel(self, sequel_id: Id, sequel: Option<Info>) -> (r: SplitStep)
        ensures
            ({
                let rem = self.remaining_view();
                let offset = self.offset_view();
                match sequel {
                    None => r is Finished && finished_seasons(
                        season_entries(r->Finished_0),
                        self.season_view(),
                        rem,
                    ),
                    Some(info) => if self.season_num_view() == u16::MAX {
                        r is Finished && finished_seasons(
                            season_entries(r->Finished_0),
                            self.season_view(),
                            rem,
                        )
                    } else {
                        let taken_eps = taken(rem, offset, info.episodes);
                        let next_season = (self.season_num_view() + 1) as u16;
                        let added = match info.episodes {
                            Some(n) => n,
                            None => 0,
                        };
                        let next_offset = if offset + added <= u32::MAX {
                            offset + added
                        } else {
                            u32::MAX as int
                        };
                        if taken_eps.len() == 0 {
                            if rem.len() > 0 {
                                &&& r is FetchSequelId
                                &&& r->FetchSequelId_0.current_view() == plain_of(sequel_id)
                                &&& r->FetchSequelId_0.root_view() == self.root_view()
                                &&& r->FetchSequelId_0.season_num_view() == next_season
                                &&& r->FetchSequelId_0.offset_view() == next_offset
                                &&& r->FetchSequelId_0.remaining_view() == rem
                                &&& r->FetchSequelId_0.season_view() == self.season_view()
                            } else {
                                r is Finished && season_entries(r->Finished_0) == self.season_view()
                            }
                        } else {
                            let s = r->FetchSequelId_0;
                            &&& r is FetchSequelId
                            &&& s.current_view() == plain_of(sequel_id)
                            &&& s.root_view() == self.root_view()
                            &&& s.season_num_view() == next_season
                            &&& s.offset_view() == next_offset
                            &&& s.remaining_view() == kept(rem, offset, info.episodes)
                            &&& s.season_view().drop_last() == self.season_view()
                            &&& s.season_view().len() == self.season_view().len() + 1
                            &&& s.season_view().last().0 == next_season
                            &&& is_paired(s.season_view().last().1, info, taken_eps)
                        }
                    },
                }
            }),
            step_episodes(r).to_multiset() == self.all_episodes().to_multiset(),
    {
        proof {
            use_type_invariant(&self);
        }
        let info = match sequel {
            Some(info) => info,
            None => {
                return SplitStep::Finished(self.finish());
            },
        };
        if self.season_num == u16::MAX {
            return SplitStep::Finished(self.finish());
        }
        let ghost seasons_before = self.season_view();
        let ghost rem = self.remaining_view();
        let SeasonSplit { root_id, current_sequel: _, season_num, episode_offset, remaining, seasons } =
            self;
        let next_season = season_num + 1;
        let limit = info.episodes;
        let (season_eps, rest) = split_episodes(remaining, episode_offset, limit);
        proof {
            lemma_split_conserves(rem, episode_offset, limit);
        }
        let added = match limit {
            Some(n) => n,
            None => 0,
        };
        if season_eps.len() == 0 {
            assert(set_model(season_eps@).len() == 0);
            assert(taken(rem, episode_offset, limit).to_multiset() =~= Multiset::empty());
            let split = SeasonSplit {
                root_id,
                current_sequel: sequel_id.plain(),
                season_num: next_season,
                episode_offset: episode_offset.saturating_add(added),
                remaining: rest,
                seasons,
            };
            assert(kept(rem, episode_offset, limit).to_multiset() =~= rem.to_multiset());
            if split.remaining.len() > 0 {
                proof {
                    lemma_empty_taken_keeps_all(rem, episode_offset, limit);
                }
                return SplitStep::FetchSequelId(split);
            }
            proof {
                lemma_empty_taken_keeps_all(rem, episode_offset, limit);
                assert(rem.len() == 0);
            }
            let seasons = split.finish();
            return SplitStep::Finished(seasons);
        }
        let mut seasons = seasons;
        proof {
            if let Some(i) = key_index(seasons_before, next_season) {
                assert(seasons_before[i].0 == next_season);
            }
        }
        season_map_insert(
            &mut seasons,
            next_season,
            RemoteSeasonPairing::Paired(
                PairedSeason { remote_info: info, local_episodes: season_eps, in_sync: false },
            ),
        );
        assert(season_entries(seasons).drop_last() =~= seasons_before);
        let split = SeasonSplit {
            root_id,
            current_sequel: sequel_id.plain(),
            season_num: next_season,
            episode_offset: episode_offset.saturating_add(added),
            remaining: rest,
            seasons,
        };
        proof {
            let t = taken(rem, episode_offset, limit);
            let k = kept(rem, episode_offset, limit);
            assert(season_episodes(split.season_view()) =~= season_episodes(seasons_before) + t);
            assert(split.all_episodes() =~= season_episodes(seasons_before) + t + k);
            assert((season_episodes(seasons_before) + t + k).to_multiset() =~= (season_episodes(
                seasons_before,
            ) + t).to_multiset().add(k.to_multiset()));
            assert((season_episodes(seasons_before) + t).to_multiset() =~= season_episodes(
                seasons_before,
            ).to_multiset().add(t.to_multiset()));
            assert((season_episodes(seasons_before) + rem).to_multiset() =~= season_episodes(
                seasons_before,
            ).to_multiset().add(rem.to_multiset()));
        }
        SplitStep::FetchSequelId(split)
    }
}

/// When a season takes no episode, all of them are kept.
proof fn lemma_empty_taken_keeps_all(s: Seq<EpisodeModel>, offset: u32, limit: Option<u32>)
    requires
        taken(s, offset, limit).len() == 0,
    ensures
        kept(s, offset, limit) == s,
    decreases s.len(),
{
    if s.len() > 0 {
        if takes(s[0].0.number, offset, limit) {
            assert((seq![s[0]] + taken(s.drop_first(), offset, limit)).len() > 0);
        }
        lemma_empty_taken_keeps_all(s.drop_first(), offset, limit);
        assert(s =~= seq![s[0]] + s.drop_first());
    } else {
        assert(kept(s, offset, limit) == s);
    }
}

} // verus!
