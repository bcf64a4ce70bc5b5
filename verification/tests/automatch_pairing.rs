use anup::anime::{CoverImage, Format as RemoteFormat, Id, Info, Title};
use anup::series::automatch::{
    all_formats_and_seasons, checked_all_formats_and_seasons, searched_anime_map,
    AutomatchResult, Error, FormatPairing,
    PairingStep, ScoredAnimeInfo, ScoredFormats, CONFIDENT_SCORE, MAX_TITLE_SCORE,
};
use anup::series::local::LocalRoot;
use anup::series::root::{RemoteSeasonPairing, SeasonMap};
use anup::series::seasons::{SeasonSplit, SplitStep};
use anup::series::{Episode, Format};

fn info(id: u32, episodes: Option<u32>, format: Option<RemoteFormat>) -> Info {
    Info {
        id: Id::AniList(id),
        title: Title {
            english: None,
            romaji: format!("Title {id}"),
            native: String::new(),
        },
        cover_image_url: CoverImage { extra_large: None },
        episodes,
        format,
        user_list_entry: None,
    }
}

fn episodes(numbers: &[u32]) -> Vec<Episode> {
    numbers
        .iter()
        .map(|n| Episode::parse(&format!("Series - {n:02}.mkv")).unwrap())
        .collect()
}

fn numbers(set: &[Episode]) -> Vec<u32> {
    let mut n: Vec<u32> = set.iter().map(|e| e.info.number).collect();
    n.sort();
    n
}

fn season_numbers(map: &SeasonMap) -> Vec<(u16, Vec<u32>, Option<u32>)> {
    map.iter()
        .map(|(season, pairing)| match pairing {
            RemoteSeasonPairing::Paired(p) => {
                (*season, numbers(&p.local_episodes), Some(p.remote_info.id.plain()))
            }
            RemoteSeasonPairing::Unpaired(set) => (*season, numbers(set), None),
        })
        .collect()
}

fn local(files: &[&str]) -> LocalRoot {
    let files: Vec<String> = files.iter().map(|f| f.to_string()).collect();
    LocalRoot::parse_dir("/anime/[Group] Series Title S01", &files).unwrap()
}

#[test]
fn searched_anime_keep_first_place_and_last_info() {
    let map = searched_anime_map(vec![
        info(1, Some(12), None),
        info(2, Some(24), None),
        info(1, Some(13), None),
    ]);
    let ids: Vec<u32> = map.keys().map(|id| id.plain()).collect();
    assert_eq!(ids, vec![1, 2]);
    assert_eq!(map[&Id::AniList(1)].episodes, Some(13));
}

#[test]
fn confident_scores_pick_the_best_anime_per_format() {
    let series = local(&["/a/Series - 01.mkv", "/a/Series - 02.mkv", "/a/Series Movie.mkv"]);
    let map = searched_anime_map(vec![
        info(10, Some(12), Some(RemoteFormat::Tv)),
        info(11, Some(1), Some(RemoteFormat::Movie)),
        info(12, Some(12), Some(RemoteFormat::Tv)),
    ]);
    let scores = vec![900_000, 900_000, 600_000];
    let scored = ScoredFormats::from_remote_anime(&series, &map, &scores);
    let mut best: Vec<(Format, u32, u32)> = scored
        .best_format_matches
        .iter()
        .map(|(f, s)| (*f, s.score, s.remote_id.plain()))
        .collect();
    best.sort();
    // TV: 900k + 250k for the first anime (the third scores 850k, not better);
    // Movie: 900k + 250k for the movie.
    assert_eq!(
        best,
        vec![(Format::Tv, 1_150_000, 10), (Format::Movie, 1_150_000, 11)]
    );
}

#[test]
fn scores_below_confidence_are_dropped() {
    let series = local(&["/a/Series - 01.mkv"]);
    let map = searched_anime_map(vec![info(10, Some(12), Some(RemoteFormat::Movie))]);
    // 900k - 250k for a differing format is below the confident score.
    let scored = ScoredFormats::from_remote_anime(&series, &map, &vec![900_000]);
    assert!(scored.is_empty());
    assert!(650_000 < CONFIDENT_SCORE && 900_000 <= MAX_TITLE_SCORE);
}

#[test]
fn store_best_format_entry_keeps_the_higher_score() {
    let mut best = Vec::new();
    ScoredFormats::store_best_format_entry(Id::AniList(1), Format::Tv, 800_000, &mut best);
    ScoredFormats::store_best_format_entry(Id::AniList(2), Format::Tv, 700_000, &mut best);
    ScoredFormats::store_best_format_entry(Id::AniList(3), Format::Ova, 750_000, &mut best);
    ScoredFormats::store_best_format_entry(Id::AniList(4), Format::Tv, 900_000, &mut best);
    assert_eq!(
        best,
        vec![
            (Format::Tv, ScoredAnimeInfo { score: 900_000, remote_id: Id::AniList(4) }),
            (Format::Ova, ScoredAnimeInfo { score: 750_000, remote_id: Id::AniList(3) }),
        ]
    );
}

#[test]
fn nothing_scored_leaves_the_series_unpaired() {
    let series = local(&["/a/Series - 01.mkv"]);
    let map = searched_anime_map(vec![]);
    match all_formats_and_seasons(series, map, &vec![]) {
        PairingStep::Finished(AutomatchResult::Unpaired(l)) => {
            assert_eq!(l.parsed_name, "Series Title")
        }
        other => panic!("unexpected step {other:?}"),
    }
}

/// Run a season split with a fixed set of sequels: `sequels[k]` follows
/// `sequels[k - 1]` (the first follows the root anime).
fn run_split(mut step: SplitStep, sequels: &[Info]) -> SeasonMap {
    loop {
        step = match step {
            SplitStep::FetchSequelId(split) => {
                let current = split.current_sequel();
                let next = if current == split.root_id() {
                    sequels.first()
                } else {
                    sequels
                        .iter()
                        .position(|s| s.id.plain() == current)
                        .and_then(|k| sequels.get(k + 1))
                };
                split.on_sequel_id(next.map(|s| s.id))
            }
            SplitStep::FetchAnime(split, id) => {
                let found = sequels.iter().find(|s| s.id == id).cloned();
                split.on_sequel(id, found)
            }
            SplitStep::Finished(map) => return map,
        }
    }
}

#[test]
fn continuous_seasons_are_split_by_episode_count() {
    let step = SeasonSplit::start(
        Id::AniList(1),
        info(1, Some(3), None),
        episodes(&[1, 2, 3, 4, 5, 6, 7, 8, 9]),
    );
    let seasons = run_split(step, &[info(2, Some(3), None), info(3, Some(3), None)]);
    assert_eq!(
        season_numbers(&seasons),
        vec![
            (1, vec![1, 2, 3], Some(1)),
            (2, vec![4, 5, 6], Some(2)),
            (3, vec![7, 8, 9], Some(3)),
        ]
    );
}

#[test]
fn episodes_within_the_count_are_one_season() {
    let step = SeasonSplit::start(Id::AniList(1), info(1, Some(12), None), episodes(&[1, 2, 12]));
    let seasons = run_split(step, &[]);
    assert_eq!(season_numbers(&seasons), vec![(1, vec![1, 2, 12], Some(1))]);
}

#[test]
fn unknown_episode_count_takes_every_episode() {
    let step = SeasonSplit::start(Id::AniList(1), info(1, None, None), episodes(&[1, 50]));
    let seasons = run_split(step, &[]);
    assert_eq!(season_numbers(&seasons), vec![(1, vec![1, 50], Some(1))]);
}

#[test]
fn episodes_past_the_last_sequel_go_to_season_zero() {
    let step = SeasonSplit::start(Id::AniList(1), info(1, Some(2), None), episodes(&[1, 2, 3, 4, 7]));
    let seasons = run_split(step, &[info(2, Some(2), None)]);
    assert_eq!(
        season_numbers(&seasons),
        vec![(1, vec![1, 2], Some(1)), (2, vec![3, 4], Some(2)), (0, vec![7], None)]
    );
}

#[test]
fn a_sequel_without_local_episodes_is_skipped() {
    let step = SeasonSplit::start(Id::AniList(1), info(1, Some(2), None), episodes(&[1, 2, 7, 8]));
    let seasons = run_split(
        step,
        &[info(2, Some(2), None), info(3, Some(2), None), info(4, Some(2), None)],
    );
    // Sequels 2 and 3 would hold episodes 3-4 and 5-6, which are missing:
    // both are skipped and episodes 7-8 belong to the fourth season.
    assert_eq!(
        season_numbers(&seasons),
        vec![(1, vec![1, 2], Some(1)), (4, vec![7, 8], Some(4))]
    );
}

#[test]
fn a_gap_in_local_episodes_moves_on_to_the_next_sequel() {
    let step = SeasonSplit::start(
        Id::AniList(1),
        info(1, Some(3), None),
        episodes(&[1, 2, 3, 7, 8, 9]),
    );
    let seasons = run_split(step, &[info(2, Some(3), None), info(3, Some(3), None)]);
    assert_eq!(
        season_numbers(&seasons),
        vec![(1, vec![1, 2, 3], Some(1)), (3, vec![7, 8, 9], Some(3))]
    );
}

#[test]
fn unknown_sequel_ends_the_split() {
    let step = SeasonSplit::start(Id::AniList(1), info(1, Some(2), None), episodes(&[1, 2, 3]));
    let split = match step {
        SplitStep::FetchSequelId(s) => s,
        other => panic!("unexpected step {other:?}"),
    };
    let step = split.on_sequel_id(Some(Id::AniList(9)));
    let split = match step {
        SplitStep::FetchAnime(s, id) => {
            assert_eq!(id, Id::AniList(9));
            s
        }
        other => panic!("unexpected step {other:?}"),
    };
    match split.on_sequel(Id::AniList(9), None) {
        SplitStep::Finished(map) => assert_eq!(
            season_numbers(&map),
            vec![(1, vec![1, 2], Some(1)), (0, vec![3], None)]
        ),
        other => panic!("unexpected step {other:?}"),
    }
}

#[test]
fn formats_are_paired_and_sorted() {
    let series = local(&[
        "/a/Series Movie.mkv",
        "/a/Series - 01.mkv",
        "/a/Series - 02.mkv",
    ]);
    let map = searched_anime_map(vec![
        info(11, Some(1), Some(RemoteFormat::Movie)),
        info(10, Some(12), Some(RemoteFormat::Tv)),
    ]);
    let mut step = all_formats_and_seasons(series, map, &vec![900_000, 900_000]);
    let mut paired_formats = Vec::new();
    let pairing = loop {
        step = match step {
            PairingStep::PairSeasons { pairing, format, anime_id, anime, episodes } => {
                paired_formats.push((format, anime_id.plain()));
                let seasons = run_split(SeasonSplit::start(anime_id, anime, episodes), &[]);
                pairing.on_seasons(format, seasons)
            }
            PairingStep::Finished(AutomatchResult::Paired(p)) => break p,
            other => panic!("unexpected step {other:?}"),
        }
    };
    paired_formats.sort();
    assert_eq!(paired_formats, vec![(Format::Tv, 10), (Format::Movie, 11)]);
    assert_eq!(pairing.name, "Series Title");
    let formats: Vec<Format> = pairing.pairings.keys().copied().collect();
    assert_eq!(formats, vec![Format::Tv, Format::Movie]);
    let tv = &pairing.pairings[&Format::Tv];
    assert_eq!(season_numbers(tv), vec![(1, vec![1, 2], Some(10))]);
}

#[test]
fn an_anime_is_paired_with_one_format_only() {
    let series = local(&["/a/Series - 01.mkv", "/a/Series OVA - 01.mkv"]);
    // one anime scores for both TV (900k + 250k) and OVA (900k - 250k).
    let map = searched_anime_map(vec![info(10, Some(12), Some(RemoteFormat::Tv))]);
    let mut step = all_formats_and_seasons(series, map, &vec![950_000]);
    let mut handed_out = Vec::new();
    loop {
        step = match step {
            PairingStep::PairSeasons { pairing, format, anime_id, anime, episodes } => {
                handed_out.push(anime_id);
                let seasons = run_split(SeasonSplit::start(anime_id, anime, episodes), &[]);
                pairing.on_seasons(format, seasons)
            }
            PairingStep::Finished(AutomatchResult::Paired(p)) => {
                // the OVA's anime went to the TV format: its episode is kept
                // unpaired in season 0
                assert_eq!(p.pairings.len(), 2);
                assert_eq!(season_numbers(&p.pairings[&Format::Tv]), vec![(1, vec![1], Some(10))]);
                assert_eq!(season_numbers(&p.pairings[&Format::Ova]), vec![(0, vec![1], None)]);
                break;
            }
            other => panic!("unexpected step {other:?}"),
        }
    }
    assert_eq!(handed_out, vec![Id::AniList(10)]);
}

#[test]
fn a_format_that_did_not_score_keeps_its_episodes_in_season_zero() {
    let series = local(&["/a/Series - 01.mkv", "/a/Series - 02.mkv", "/a/Series Movie.mkv"]);
    // TV scores 900k + 250k; the movie only 900k - 250k, below confidence.
    let map = searched_anime_map(vec![info(10, Some(12), Some(RemoteFormat::Tv))]);
    let mut step = all_formats_and_seasons(series, map, &vec![900_000]);
    let pairing = loop {
        step = match step {
            PairingStep::PairSeasons { pairing, format, anime_id, anime, episodes } => {
                assert_eq!(format, Format::Tv);
                let seasons = run_split(SeasonSplit::start(anime_id, anime, episodes), &[]);
                pairing.on_seasons(format, seasons)
            }
            PairingStep::Finished(AutomatchResult::Paired(p)) => break p,
            other => panic!("unexpected step {other:?}"),
        }
    };
    let formats: Vec<Format> = pairing.pairings.keys().copied().collect();
    assert_eq!(formats, vec![Format::Tv, Format::Movie]);
    assert_eq!(season_numbers(&pairing.pairings[&Format::Tv]), vec![(1, vec![1, 2], Some(10))]);
    assert_eq!(season_numbers(&pairing.pairings[&Format::Movie]), vec![(0, vec![1], None)]);
}

#[test]
fn a_scored_format_without_episodes_is_an_error() {
    let series = local(&["/a/Series - 01.mkv"]);
    let map = searched_anime_map(vec![info(10, Some(12), Some(RemoteFormat::Movie))]);
    let scored = ScoredFormats {
        best_format_matches: vec![(
            Format::Movie,
            ScoredAnimeInfo { score: 800_000, remote_id: Id::AniList(10) },
        )],
    };
    assert!(matches!(
        FormatPairing::start(series, map, scored),
        PairingStep::Failed(Error::InvalidFormatScoreStored)
    ));
}

#[test]
fn checked_matching_needs_one_fitting_score_per_anime() {
    let map = || searched_anime_map(vec![info(10, Some(12), Some(RemoteFormat::Tv))]);
    let series = || local(&["/a/Series - 01.mkv"]);
    match checked_all_formats_and_seasons(series(), map(), &vec![]) {
        Err((l, m)) => {
            assert_eq!(l.parsed_name, "Series Title");
            assert_eq!(m.len(), 1);
        }
        Ok(step) => panic!("unexpected step {step:?}"),
    }
    assert!(checked_all_formats_and_seasons(series(), map(), &vec![MAX_TITLE_SCORE + 1]).is_err());
    match checked_all_formats_and_seasons(series(), map(), &vec![900_000]) {
        Ok(PairingStep::PairSeasons { format, anime_id, .. }) => {
            assert_eq!(format, Format::Tv);
            assert_eq!(anime_id, Id::AniList(10));
        }
        other => panic!("unexpected result {other:?}"),
    }
    match checked_all_formats_and_seasons(series(), map(), &vec![0]) {
        Ok(PairingStep::Finished(AutomatchResult::Unpaired(l))) => {
            assert_eq!(l.parsed_name, "Series Title")
        }
        other => panic!("unexpected result {other:?}"),
    }
}
