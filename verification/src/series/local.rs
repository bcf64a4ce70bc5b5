//! A series as found on disk: a directory name and the episode files under it.
use vstd::prelude::*;

use crate::detect;
use crate::detect::series::trimmed_title;
use crate::detect::text::str_chars;

use super::episode::{episode_info_of, file_name_range, Episode, LocalEpisodeInfo};
use super::root::EpisodeSet;
use super::Format;

verus! {

/// A disk error, carried through unopened.
#[verifier::external_type_specification]
#[verifier::external_body]
pub struct ExIoError(std::io::Error);

/// Why a series directory could not be read.
#[derive(Debug)]
pub enum ParseError {
    Io(std::io::Error),
    /// The series path has no final component to name the series by.
    InvalidPath,
    /// Two files in the series carry the same episode information.
    DuplicateEpisodesDetected { first_episode: String, second_episode: String },
}

/// The episodes of a local series, grouped by format (each format once).
pub type EpisodeMap = Vec<(Format, EpisodeSet)>;

/// A series directory and its episodes.
#[derive(Debug)]
pub struct LocalRoot {
    pub path: String,
    pub parsed_name: String,
    pub episodes: EpisodeMap,
}

// ---------------------------------------------------------------------------
// Grouping episodes by format
// ---------------------------------------------------------------------------

/// An episode as its information and its path.
pub type EpisodeModel = (LocalEpisodeInfo, Seq<char>);

pub open spec fn episode_model(e: Episode) -> EpisodeModel {
    (e.info, e.path@)
}

pub open spec fn set_model(s: Seq<Episode>) -> Seq<EpisodeModel> {
    s.map_values(|e: Episode| episode_model(e))
}

/// Episodes grouped by format.
pub type Groups = Seq<(Format, Seq<EpisodeModel>)>;

pub open spec fn groups_model(g: Seq<(Format, EpisodeSet)>) -> Groups {
    g.map_values(|p: (Format, EpisodeSet)| (p.0, set_model(p.1@)))
}

/// Position of the first group of format `f`, from `i` on.
pub open spec fn group_index(g: Groups, f: Format, i: int) -> Option<int>
    decreases g.len() - i,
{
    if i < 0 || i >= g.len() {
        None
    } else if g[i].0 == f {
        Some(i)
    } else {
        group_index(g, f, i + 1)
    }
}

/// Position of the first episode with information `info`, from `i` on.
pub open spec fn episode_index(s: Seq<EpisodeModel>, info: LocalEpisodeInfo, i: int) -> Option<int>
    decreases s.len() - i,
{
    if i < 0 || i >= s.len() {
        None
    } else if s[i].0 == info {
        Some(i)
    } else {
        episode_index(s, info, i + 1)
    }
}

/// The episode information as it is stored: an episode that names no format
/// is a TV episode.
pub open spec fn with_default_format(info: LocalEpisodeInfo) -> LocalEpisodeInfo {
    detect::Episode {
        number: info.number,
        season: info.season,
        format: Some(
            match info.format {
                Some(f) => f,
                None => Format::Tv,
            },
        ),
    }
}

/// The paths of two files that carry the same episode information.
pub type Duplicate = (Seq<char>, Seq<char>);

/// Add an episode to its format's group; fails when the group already holds
/// an episode with the same information.
pub open spec fn add_episode(g: Groups, info: LocalEpisodeInfo, path: Seq<char>) -> Result<
    Groups,
    Duplicate,
> {
    let stored = with_default_format(info);
    let f = stored.format->0;
    match group_index(g, f, 0) {
        Some(i) => match episode_index(g[i].1, stored, 0) {
            Some(j) => Err((g[i].1[j].1, path)),
            None => Ok(g.update(i, (f, g[i].1.push((stored, path))))),
        },
        None => Ok(g.push((f, seq![(stored, path)]))),
    }
}

/// The files at `paths`, in order, grouped by format: files that are not
/// episodes are left out; the first duplicate ends the grouping.
pub open spec fn grouped(paths: Seq<Seq<char>>) -> Result<Groups, Duplicate>
    decreases paths.len(),
{
    if paths.len() == 0 {
        Ok(Seq::empty())
    } else {
        match grouped(paths.drop_last()) {
            Err(d) => Err(d),
            Ok(g) => match episode_info_of(paths.last()) {
                Ok(info) => add_episode(g, info, paths.last()),
                Err(_) => Ok(g),
            },
        }
    }
}

/// Each format is grouped once, each group holds episodes of its format, and
/// no two episodes of a group carry the same information.
pub open spec fn groups_wf(g: Groups) -> bool {
    &&& forall|i: int, j: int| 0 <= i < j < g.len() ==> g[i].0 != g[j].0
    &&& forall|i: int, k: int|
        0 <= i < g.len() && 0 <= k < g[i].1.len() ==> (#[trigger] g[i].1[k]).0.format == Some(
            g[i].0,
        )
    &&& forall|i: int, k: int, l: int|
        0 <= i < g.len() && 0 <= k < l < g[i].1.len() ==> (#[trigger] g[i].1[k]).0 != (
        #[trigger] g[i].1[l]).0
}

proof fn lemma_group_index(g: Groups, f: Format, i: int)
    requires
        0 <= i,
    ensures
        group_index(g, f, i) matches Some(k) ==> i <= k < g.len() && g[k].0 == f,
        group_index(g, f, i) is None ==> forall|k: int| i <= k < g.len() ==> g[k].0 != f,
    decreases g.len() - i,
{
    if 0 <= i < g.len() && g[i].0 != f {
        lemma_group_index(g, f, i + 1);
    }
}

proof fn lemma_episode_index(s: Seq<EpisodeModel>, info: LocalEpisodeInfo, i: int)
    requires
        0 <= i,
    ensures
        episode_index(s, info, i) matches Some(k) ==> i <= k < s.len() && s[k].0 == info,
        episode_index(s, info, i) is None ==> forall|k: int| i <= k < s.len() ==> s[k].0 != info,
    decreases s.len() - i,
{
    if 0 <= i < s.len() && s[i].0 != info {
        lemma_episode_index(s, info, i + 1);
    }
}

/// Adding an episode keeps the groups well formed.
pub proof fn lemma_add_episode_wf(g: Groups, info: LocalEpisodeInfo, path: Seq<char>)
    requires
        groups_wf(g),
    ensures
        add_episode(g, info, path) matches Ok(g2) ==> groups_wf(g2),
{
    let stored = with_default_format(info);
    let f = stored.format->0;
    lemma_group_index(g, f, 0);
    if let Some(i) = group_index(g, f, 0) {
        lemma_episode_index(g[i].1, stored, 0);
        if let Ok(g2) = add_episode(g, info, path) {
            assert forall|a: int, k: int, l: int|
                0 <= a < g2.len() && 0 <= k < l < g2[a].1.len() implies (#[trigger] g2[a].1[k]).0
                != (#[trigger] g2[a].1[l]).0 by {
                if a == i && l == g[i].1.len() {
                    assert(g2[a].1[k] == g[i].1[k]);
                } else if a == i {
                    assert(g2[a].1[k] == g[i].1[k]);
                    assert(g2[a].1[l] == g[i].1[l]);
                }
            }
            assert forall|a: int, k: int|
                0 <= a < g2.len() && 0 <= k < g2[a].1.len() implies (#[trigger] g2[a].1[k]).0.format
                == Some(g2[a].0) by {
                if a == i && k < g[i].1.len() {
                    assert(g2[a].1[k] == g[i].1[k]);
                }
            }
        }
    }
}

/// Grouping always yields well-formed groups.
pub proof fn lemma_grouped_wf(paths: Seq<Seq<char>>)
    ensures
        grouped(paths) matches Ok(g) ==> groups_wf(g),
    decreases paths.len(),
{
    if paths.len() > 0 {
        lemma_grouped_wf(paths.drop_last());
        if let Ok(g) = grouped(paths.drop_last()) {
            if let Ok(info) = episode_info_of(paths.last()) {
                lemma_add_episode_wf(g, info, paths.last());
            }
        }
    }
}

fn same_episode_info(a: &LocalEpisodeInfo, b: &LocalEpisodeInfo) -> (r: bool)
    ensures
        r == (*a == *b),
{
    let same_season = match (a.season, b.season) {
        (Some(x), Some(y)) => x == y,
        (None, None) => true,
        _ => false,
    };
    let same_format = match (a.format, b.format) {
        (Some(x), Some(y)) => x == y,
        (None, None) => true,
        _ => false,
    };
    a.number == b.number && same_season && same_format
}

pub(crate) fn find_group(groups: &EpisodeMap, f: Format) -> (r: Option<usize>)
    ensures
        match r {
            Some(i) => group_index(groups_model(groups@), f, 0) == Some(i as int),
            None => group_index(groups_model(groups@), f, 0) is None,
        },
        r matches Some(i) ==> i < groups.len(),
{
    let ghost g = groups_model(groups@);
    let mut i: usize = 0;
    while i < groups.len()
        invariant
            i <= groups.len(),
            g == groups_model(groups@),
            group_index(g, f, 0) == group_index(g, f, i as int),
        decreases groups.len() - i,
    {
        assert(g[i as int].0 == groups@[i as int].0);
        if groups[i].0 == f {
            return Some(i);
        }
        i += 1;
    }
    None
}

fn find_episode(set: &EpisodeSet, info: &LocalEpisodeInfo) -> (r: Option<usize>)
    ensures
        match r {
            Some(k) => episode_index(set_model(set@), *info, 0) == Some(k as int),
            None => episode_index(set_model(set@), *info, 0) is None,
        },
        r matches Some(k) ==> k < set.len(),
{
    let ghost s = set_model(set@);
    let mut k: usize = 0;
    while k < set.len()
        invariant
            k <= set.len(),
            s == set_model(set@),
            episode_index(s, *info, 0) == episode_index(s, *info, k as int),
        decreases set.len() - k,
    {
        assert(s[k as int].0 == set@[k as int].info);
        if same_episode_info(&set[k].info, info) {
            return Some(k);
        }
        k += 1;
    }
    None
}

/// Store `episode` in its format's group, or report the file it duplicates.
fn add_to_groups(groups: &mut EpisodeMap, episode: Episode) -> (r: Result<(), ParseError>)
    ensures
        match add_episode(groups_model(old(groups)@), episode.info, episode.path@) {
            Ok(g) => r is Ok && groups_model(final(groups)@) == g,
            Err((first, second)) => r matches Err(
                ParseError::DuplicateEpisodesDetected { first_episode, second_episode },
            ) && first_episode@ == first && second_episode@ == second,
        },
{
    let ghost g = groups_model(groups@);
    let f = match episode.info.format {
        Some(f) => f,
        None => Format::Tv,
    };
    let stored = detect::Episode { number: episode.info.number, season: episode.info.season, format: Some(f) };
    assert(stored == with_default_format(episode.info));
    let path = episode.path;
    match find_group(groups, f) {
        Some(i) => {
            match find_episode(&groups[i].1, &stored) {
                Some(j) => {
                    assert(g[i as int].1[j as int].1 == groups@[i as int].1@[j as int].path@);
                    let first = groups[i].1[j].path.clone();
                    Err(ParseError::DuplicateEpisodesDetected { first_episode: first, second_episode: path })
                },
                None => {
                    let mut set: EpisodeSet = Vec::new();
                    std::mem::swap(&mut set, &mut groups[i].1);
                    let ghost old_set = set@;
                    set.push(Episode { info: stored, path });
                    assert(set_model(set@) =~= set_model(old_set).push((stored, episode.path@)));
                    groups.set(i, (f, set));
                    assert(groups_model(groups@) =~= g.update(
                        i as int,
                        (f, g[i as int].1.push((stored, episode.path@))),
                    ));
                    Ok(())
                },
            }
        },
        None => {
            let ghost prev = groups@;
            let mut set: EpisodeSet = Vec::new();
            set.push(Episode { info: stored, path });
            assert(set_model(set@) =~= seq![(stored, episode.path@)]);
            groups.push((f, set));
            assert(groups_model(groups@) =~= g.push((f, seq![(stored, episode.path@)])));
            Ok(())
        },
    }
}

/// The episodes among the files at `paths`, grouped by format.
pub fn parse_dir_episodes(paths: &Vec<String>) -> (r: Result<EpisodeMap, ParseError>)
    ensures
        match grouped(paths@.map_values(|p: String| p@)) {
            Ok(g) => r matches Ok(m) && groups_model(m@) == g,
            Err((first, second)) => r matches Err(
                ParseError::DuplicateEpisodesDetected { first_episode, second_episode },
            ) && first_episode@ == first && second_episode@ == second,
        },
        r matches Ok(m) ==> groups_wf(groups_model(m@)),
{
    let ghost views = paths@.map_values(|p: String| p@);
    proof {
        lemma_grouped_wf(views);
    }
    let mut groups: EpisodeMap = Vec::new();
    assert(groups_model(groups@) =~= Seq::<(Format, Seq<EpisodeModel>)>::empty());
    let mut k: usize = 0;
    while k < paths.len()
        invariant
            k <= paths.len(),
            views == paths@.map_values(|p: String| p@),
            grouped(views.take(k as int)) == Ok::<Groups, Duplicate>(groups_model(groups@)),
        decreases paths.len() - k,
    {
        assert(views.take(k + 1).drop_last() =~= views.take(k as int));
        assert(views.take(k + 1).last() == paths@[k as int]@);
        match Episode::parse(paths[k].as_str()) {
            Ok(episode) => {
                match add_to_groups(&mut groups, episode) {
                    Ok(()) => {},
                    Err(e) => {
                        proof {
                            lemma_grouped_prefix_err(views, k as int + 1);
                        }
                        return Err(e);
                    },
                }
            },
            Err(_) => {},
        }
        k += 1;
    }
    assert(views.take(paths.len() as int) =~= views);
    Ok(groups)
}

/// Once grouping a prefix of the paths finds a duplicate, grouping all of
/// them reports that duplicate.
proof fn lemma_grouped_prefix_err(paths: Seq<Seq<char>>, n: int)
    requires
        0 <= n <= paths.len(),
        grouped(paths.take(n)) is Err,
    ensures
        grouped(paths) == grouped(paths.take(n)),
    decreases paths.len() - n,
{
    if n < paths.len() {
        assert(paths.take(n + 1).drop_last() =~= paths.take(n));
        lemma_grouped_prefix_err(paths, n + 1);
    } else {
        assert(paths.take(n) =~= paths);
    }
}

/// The name and episodes of the series at `dir`, given the files under it.
pub open spec fn local_root_of(dir: Seq<char>, files: Seq<Seq<char>>) -> Result<
    (Seq<char>, Groups),
    Option<Duplicate>,
> {
    match file_name_range(dir, dir.len() as int) {
        Some((a, b)) => match grouped(files) {
            Ok(g) => Ok((trimmed_title(dir.subrange(a, b)), g)),
            Err(d) => Err(Some(d)),
        },
        None => Err(None),
    }
}

impl LocalRoot {
    /// Read the series at `dir`, whose files (in the order the directory walk
    /// found them) are `files`. The series is named by the last component of
    /// its path, with tags and season labels trimmed.
    pub fn parse_dir(dir: &str, files: &Vec<String>) -> (r: Result<Self, ParseError>)
        ensures
            match local_root_of(dir@, files@.map_values(|p: String| p@)) {
                Ok((name, g)) => r matches Ok(root) && root.parsed_name@ == name && root.path@
                    == dir@ && groups_model(root.episodes@) == g,
                Err(None) => r matches Err(ParseError::InvalidPath),
                Err(Some((first, second))) => r matches Err(
                    ParseError::DuplicateEpisodesDetected { first_episode, second_episode },
                ) && first_episode@ == first && second_episode@ == second,
            },
            r matches Ok(root) ==> groups_wf(groups_model(root.episodes@)),
    {
        proof {
            lemma_grouped_wf(files@.map_values(|p: String| p@));
        }
        let chars = str_chars(dir);
        let (a, b) = match super::episode::find_file_name_of(chars.as_slice()) {
            Some(range) => range,
            None => {
                return Err(ParseError::InvalidPath);
            },
        };
        let name = dir.substring_char(a, b);
        let parsed_name = match detect::Series::parse(name) {
            Ok(series) => series.trimmed_name.to_owned(),
            Err(_) => name.to_owned(),
        };
        let episodes = match parse_dir_episodes(files) {
            Ok(episodes) => episodes,
            Err(e) => {
                return Err(e);
            },
        };
        Ok(LocalRoot { path: dir.to_owned(), parsed_name, episodes })
    }
}

} // verus!
