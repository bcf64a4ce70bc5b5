//! The series list: many series, or the formats and seasons of one.
use vstd::prelude::*;
use vstd::string::StringExecFns;

use crate::series::root::{
    all_seasons, format_entries, season_ref_view, FormatSeasonRef,
    PairedSeason, RemoteSeasonPairing, RootPairing,
};
use crate::series::Format;
use crate::tui::state::series::{Entry, EntryState};
use crate::util::radix::{radix_string, radix_text};

verus! {

/// `index` wrapped around a list of `len` entries (lists longer than
/// `i32::MAX` count as that long), so that stepping before the first entry
/// reaches the last; 0 for an empty list.
pub open spec fn wrapped(index: i32, len: int) -> int {
    let n: int = if len > i32::MAX { i32::MAX as int } else { len };
    if n == 0 {
        0
    } else {
        (index as int) % n
    }
}

/// `-a % n` (as `%` is in specifications: never negative) from `a % n`.
proof fn lemma_negated_mod(a: int, n: int)
    requires
        a > 0,
        n > 0,
    ensures
        (-a) % n == (if a % n == 0 { 0 } else { n - a % n }),
{
    let q = a / n;
    let m = a % n;
    vstd::arithmetic::div_mod::lemma_fundamental_div_mod(a, n);
    assert(0 <= m < n) by {
        vstd::arithmetic::div_mod::lemma_mod_bound(a, n);
    }
    if m == 0 {
        assert(-a == (-q) * n + 0) by (nonlinear_arith)
            requires
                a == n * q + m,
                m == 0,
        ;
        vstd::arithmetic::div_mod::lemma_fundamental_div_mod_converse(-a, n, -q, 0);
    } else {
        assert(-a == (-q - 1) * n + (n - m)) by (nonlinear_arith)
            requires
                a == n * q + m,
        ;
        vstd::arithmetic::div_mod::lemma_fundamental_div_mod_converse(-a, n, -q - 1, n - m);
    }
}

/// Wrap a selection around a list of `len` entries.
pub fn wrap_index_around(index: i32, len: usize) -> (r: usize)
    ensures
        r == wrapped(index, len as int),
        len > 0 ==> r < len,
{
    let n: usize = if len > i32::MAX as usize {
        i32::MAX as usize
    } else {
        len
    };
    if n == 0 {
        return 0;
    }
    if index >= 0 {
        (index as usize) % n
    } else {
        let magnitude: usize = (-(index as i64)) as usize;
        let m = magnitude % n;
        proof {
            lemma_negated_mod(magnitude as int, n as int);
        }
        if m == 0 {
            0
        } else {
            n - m
        }
    }
}

/// Which part of the series list is shown and what is selected in it.
/// Selections may run past either end of the list; they are wrapped around
/// when a frame is drawn.
#[derive(Debug, Clone, Copy, PartialEq, Eq, Structural)]
pub enum ViewState {
    /// All series.
    RootSeries { selected: i32 },
    /// The formats and seasons of the series at `root`.
    SeriesFormats { root: i32, selected: i32 },
}

/// The selection within the shown list.
pub open spec fn selected_of(v: ViewState) -> i32 {
    match v {
        ViewState::RootSeries { selected } => selected,
        ViewState::SeriesFormats { selected, .. } => selected,
    }
}

/// `v` with its selection replaced.
pub open spec fn with_selected(v: ViewState, selected: i32) -> ViewState {
    match v {
        ViewState::RootSeries { .. } => ViewState::RootSeries { selected },
        ViewState::SeriesFormats { root, .. } => ViewState::SeriesFormats { root, selected },
    }
}

/// The series a view is on: the selected one, or the one whose formats are
/// shown.
pub open spec fn root_of(v: ViewState) -> i32 {
    match v {
        ViewState::RootSeries { selected } => selected,
        ViewState::SeriesFormats { root, .. } => root,
    }
}

/// A snapshot for drawing one frame of the series list, with the selection
/// wrapped into the list.
#[derive(Debug)]
pub enum FrameData<'a> {
    RootSeries {
        series_list: &'a [Entry],
        selected_index: usize,
        selected_entry: Option<&'a Entry>,
    },
    SeriesFormats {
        root_series_index: usize,
        series_data: &'a RootPairing,
        selected_index: usize,
        selected_season: &'a RemoteSeasonPairing,
    },
}

/// The seasons of a resolved series, in list order.
pub open spec fn seasons_of(p: RootPairing) -> Seq<(crate::series::Format, u16, RemoteSeasonPairing)> {
    all_seasons(format_entries(p.pairings))
}

/// The list of all series with the entry at `index` selected (none past the
/// end).
pub open spec fn root_frame<'a>(r: FrameData<'a>, list: Seq<Entry>, index: int) -> bool {
    &&& r matches FrameData::RootSeries { series_list, selected_index, selected_entry }
    &&& series_list@ == list
    &&& selected_index == index
    &&& if 0 <= index < list.len() {
        selected_entry matches Some(e) && *e == list[index]
    } else {
        selected_entry is None
    }
}

/// `series_list[root]` is resolved and has at least one season.
pub open spec fn has_seasons(list: Seq<Entry>, root: int) -> bool {
    &&& 0 <= root < list.len()
    &&& list[root].state is Resolved
    &&& seasons_of(list[root].state->Resolved_0).len() > 0
}

/// `index` clamped into a list of `len` entries (0 for an empty list).
pub open spec fn clamped(index: i32, len: int) -> int {
    if len == 0 || index < 0 {
        0
    } else if index >= len {
        len - 1
    } else {
        index as int
    }
}

/// The frame that view `v` of `list` shows. A view that no longer fits the
/// list (its series is gone, unresolved or has no seasons) falls back to the
/// list of all series, on the series it was on clamped into the list.
pub open spec fn frame_of<'a>(r: FrameData<'a>, v: ViewState, list: Seq<Entry>) -> bool {
    match v {
        ViewState::RootSeries { selected } => if list.len() > 0 {
            root_frame(r, list, wrapped(selected, list.len() as int))
        } else {
            root_frame(r, list, 0)
        },
        ViewState::SeriesFormats { root, selected } => if has_seasons(list, root as int) {
            let p = list[root as int].state->Resolved_0;
            let seasons = seasons_of(p);
            let i = wrapped(selected, seasons.len() as int);
            &&& r matches FrameData::SeriesFormats {
                root_series_index,
                series_data,
                selected_index,
                selected_season,
            }
            &&& root_series_index == root
            &&& *series_data == p
            &&& selected_index == i
            &&& *selected_season == seasons[i].2
        } else {
            root_frame(r, list, clamped(root, list.len() as int))
        },
    }
}

impl ViewState {
    /// The list of all series, with the first selected.
    pub fn new() -> (r: Self)
        ensures
            r == (ViewState::RootSeries { selected: 0 }),
    {
        ViewState::RootSeries { selected: 0 }
    }

    /// The series the view is on.
    fn root_series_index(&self) -> (r: i32)
        ensures
            r == root_of(*self),
    {
        match *self {
            ViewState::RootSeries { selected } => selected,
            ViewState::SeriesFormats { root, .. } => root,
        }
    }

    /// Go back to the list of all series, on the series whose formats were
    /// shown.
    pub fn select_root_series(&mut self)
        ensures
            *final(self) == match *old(self) {
                ViewState::RootSeries { .. } => *old(self),
                ViewState::SeriesFormats { root, .. } => ViewState::RootSeries { selected: root },
            },
    {
        match *self {
            ViewState::RootSeries { .. } => {},
            ViewState::SeriesFormats { root, .. } => {
                *self = ViewState::RootSeries { selected: root };
            },
        }
    }

    /// Show the formats of the selected series, from the first.
    pub fn select_series_formats(&mut self)
        ensures
            *final(self) == match *old(self) {
                ViewState::RootSeries { selected } => ViewState::SeriesFormats {
                    root: selected,
                    selected: 0,
                },
                ViewState::SeriesFormats { .. } => *old(self),
            },
    {
        match *self {
            ViewState::RootSeries { selected } => {
                *self = ViewState::SeriesFormats { root: selected, selected: 0 };
            },
            ViewState::SeriesFormats { .. } => {},
        }
    }

    /// Select the next entry.
    pub fn select_next(&mut self)
        requires
            selected_of(*old(self)) < i32::MAX,
        ensures
            *final(self) == with_selected(*old(self), (selected_of(*old(self)) + 1) as i32),
    {
        match *self {
            ViewState::RootSeries { selected } => {
                *self = ViewState::RootSeries { selected: selected + 1 };
            },
            ViewState::SeriesFormats { root, selected } => {
                *self = ViewState::SeriesFormats { root, selected: selected + 1 };
            },
        }
    }

    /// Select the previous entry.
    pub fn select_previous(&mut self)
        requires
            selected_of(*old(self)) > i32::MIN,
        ensures
            *final(self) == with_selected(*old(self), (selected_of(*old(self)) - 1) as i32),
    {
        match *self {
            ViewState::RootSeries { selected } => {
                *self = ViewState::RootSeries { selected: selected - 1 };
            },
            ViewState::SeriesFormats { root, selected } => {
                *self = ViewState::SeriesFormats { root, selected: selected - 1 };
            },
        }
    }

    /// The snapshot to draw the next frame from.
    pub fn frame_data<'a>(&self, series_list: &'a [Entry]) -> (r: FrameData<'a>)
        ensures
            frame_of(r, *self, series_list@),
    {
        match FrameData::try_from_view_state(self, series_list) {
            Some(data) => data,
            None => {
                // the view no longer fits the list: go back to the list of
                // all series, on the series it was on
                let root = self.root_series_index();
                let len = series_list.len();
                let index: usize = if len == 0 || root < 0 {
                    0
                } else if root as usize >= len {
                    len - 1
                } else {
                    root as usize
                };
                let entry = if index < len {
                    Some(&series_list[index])
                } else {
                    None
                };
                FrameData::RootSeries { series_list, selected_index: index, selected_entry: entry }
            },
        }
    }

    /// Keep the wrapped selection a drawn frame used.
    pub fn apply_frame_data(&mut self, data: FrameData<'_>)
        ensures
            *final(self) == match data {
                FrameData::RootSeries { selected_index, .. } => ViewState::RootSeries {
                    selected: selected_index as i32,
                },
                FrameData::SeriesFormats { root_series_index, selected_index, .. } =>
                    ViewState::SeriesFormats {
                    root: root_series_index as i32,
                    selected: selected_index as i32,
                },
            },
    {
        match data {
            FrameData::RootSeries { selected_index, .. } => {
                *self = ViewState::RootSeries { selected: selected_index as i32 };
            },
            FrameData::SeriesFormats { root_series_index, selected_index, .. } => {
                *self = ViewState::SeriesFormats {
                    root: root_series_index as i32,
                    selected: selected_index as i32,
                };
            },
        }
    }
}

impl<'a> FrameData<'a> {
    /// The frame view `v` shows, if it still fits the list.
    fn try_from_view_state(view_state: &ViewState, series_list: &'a [Entry]) -> (r: Option<Self>)
        ensures
            match *view_state {
                ViewState::RootSeries { .. } => r is Some <==> series_list@.len() > 0,
                ViewState::SeriesFormats { root, .. } => r is Some <==> has_seasons(
                    series_list@,
                    root as int,
                ),
            },
            r matches Some(d) ==> frame_of(d, *view_state, series_list@),
    {
        match *view_state {
            ViewState::RootSeries { selected } => {
                let selected = wrap_index_around(selected, series_list.len());
                if selected >= series_list.len() {
                    return None;
                }
                Some(
                    FrameData::RootSeries {
                        series_list,
                        selected_index: selected,
                        selected_entry: Some(&series_list[selected]),
                    },
                )
            },
            ViewState::SeriesFormats { root, selected: unwrapped_selected } => {
                if root < 0 {
                    return None;
                }
                let root = root as usize;
                if root >= series_list.len() {
                    return None;
                }
                let series_data = &series_list[root];
                let resolved_entry = match series_data.state.get_resolved() {
                    Some(p) => p,
                    None => {
                        return None;
                    },
                };
                let seasons = resolved_entry.all_format_seasons();
                proof {
                    lemma_seasons_view(seasons@, seasons_of(*resolved_entry));
                }
                let len = seasons.len();
                let selected_index = wrap_index_around(unwrapped_selected, len);
                if selected_index >= len {
                    return None;
                }
                let selected_season = seasons[selected_index].pairing;
                Some(
                    FrameData::SeriesFormats {
                        root_series_index: root,
                        series_data: resolved_entry,
                        selected_index,
                        selected_season,
                    },
                )
            },
        }
    }

    /// The selected season, when it is paired with an anime.
    pub fn get_selected_paired_season(&self) -> (r: Option<&PairedSeason>)
        ensures
            match *self {
                FrameData::SeriesFormats { selected_season, .. } => match *selected_season {
                    RemoteSeasonPairing::Paired(p) => r matches Some(q) && *q == p,
                    RemoteSeasonPairing::Unpaired(_) => r is None,
                },
                FrameData::RootSeries { .. } => r is None,
            },
    {
        match self {
            FrameData::SeriesFormats { selected_season, .. } => match selected_season {
                RemoteSeasonPairing::Paired(season) => Some(season),
                RemoteSeasonPairing::Unpaired(_) => None,
            },
            FrameData::RootSeries { .. } => None,
        }
    }

    /// The title of the list.
    pub fn list_title(&self) -> (r: &'static str)
        ensures
            r@ == match *self {
                FrameData::RootSeries { .. } => "Series List"@,
                FrameData::SeriesFormats { .. } => "Series Format Selection"@,
            },
    {
        match self {
            FrameData::RootSeries { .. } => "Series List",
            FrameData::SeriesFormats { .. } => "Series Format Selection",
        }
    }
}

/// Reading the seasons' views off the references.
proof fn lemma_seasons_view<'a>(
    refs: Seq<FormatSeasonRef<'a>>,
    seasons: Seq<(crate::series::Format, u16, RemoteSeasonPairing)>,
)
    requires
        refs.map_values(|s: FormatSeasonRef<'a>| season_ref_view(s)) == seasons,
    ensures
        refs.len() == seasons.len(),
        forall|i: int| 0 <= i < refs.len() ==> *(#[trigger] refs[i]).pairing == seasons[i].2,
{
    assert forall|i: int| 0 <= i < refs.len() implies *(#[trigger] refs[i]).pairing
        == seasons[i].2 by {
        assert(refs.map_values(|s: FormatSeasonRef<'a>| season_ref_view(s))[i] == season_ref_view(
            refs[i],
        ));
    }
}

/// The view that keeps a drawn frame's selection (what `apply_frame_data`
/// stores).
pub open spec fn applied<'a>(r: FrameData<'a>) -> ViewState {
    match r {
        FrameData::RootSeries { selected_index, .. } => ViewState::RootSeries {
            selected: selected_index as i32,
        },
        FrameData::SeriesFormats { root_series_index, selected_index, .. } =>
            ViewState::SeriesFormats { root: root_series_index as i32, selected: selected_index as i32 },
    }
}

/// The selected position of a frame.
pub open spec fn selected_index_of<'a>(r: FrameData<'a>) -> usize {
    match r {
        FrameData::RootSeries { selected_index, .. } => selected_index,
        FrameData::SeriesFormats { selected_index, .. } => selected_index,
    }
}

/// A frame whose selection lies in its list (or whose list is empty), and
/// below `i32::MAX`, past which selections wrap around.
pub open spec fn fits<'a>(r: FrameData<'a>, list: Seq<Entry>) -> bool {
    match r {
        FrameData::RootSeries { selected_index, .. } => list.len() == 0 || (selected_index
            < list.len() && selected_index < i32::MAX),
        FrameData::SeriesFormats { .. } => true,
    }
}

/// Drawing again after a frame was applied shows the same selection, in the
/// same part of the list, as long as that selection lay in its list: the
/// selection stays put between frames.
pub proof fn lemma_frame_stable<'a, 'b>(
    v: ViewState,
    list: Seq<Entry>,
    r: FrameData<'a>,
    r2: FrameData<'b>,
)
    requires
        frame_of(r, v, list),
        fits(r, list),
        frame_of(r2, applied(r), list),
    ensures
        selected_index_of(r2) == selected_index_of(r),
        (r2 is RootSeries) == (r is RootSeries),
{
    match v {
        ViewState::RootSeries { selected } => {
            if list.len() > 0 {
                let i = wrapped(selected, list.len() as int);
                lemma_wrapped_bound(selected, list.len() as int);
                assert((i as usize) as i32 == i);
                lemma_wrapped_fixed(i as i32, list.len() as int);
            } else {
                assert((0usize as i32) == 0);
            }
        },
        ViewState::SeriesFormats { root, selected } => {
            if has_seasons(list, root as int) {
                let p = list[root as int].state->Resolved_0;
                let n = seasons_of(p).len() as int;
                let i = wrapped(selected, n);
                lemma_wrapped_bound(selected, n);
                assert((i as usize) as i32 == i);
                assert((root as usize) as i32 == root);
                lemma_wrapped_fixed(i as i32, n);
            } else {
                let i: int = clamped(root, list.len() as int);
                assert((i as usize) as i32 == i);
                if list.len() > 0 {
                    lemma_wrapped_fixed(i as i32, list.len() as int);
                }
            }
        },
    }
}

/// A wrapped selection lies in the list.
pub proof fn lemma_wrapped_bound(index: i32, len: int)
    requires
        len > 0,
    ensures
        0 <= wrapped(index, len) < len,
        wrapped(index, len) < i32::MAX,
{
    let n: int = if len > i32::MAX { i32::MAX as int } else { len };
    vstd::arithmetic::div_mod::lemma_mod_bound(index as int, n);
}

/// A selection already in the list wraps to itself.
pub proof fn lemma_wrapped_fixed(index: i32, len: int)
    requires
        0 <= index < len,
        index < i32::MAX,
    ensures
        wrapped(index, len) == index,
{
    let n: int = if len > i32::MAX { i32::MAX as int } else { len };
    vstd::arithmetic::div_mod::lemma_small_mod(index as nat, n as nat);
}

/// The prefix of a season's line: the format's short name, with the season
/// number for TV seasons.
pub open spec fn format_prefix_text(format: Format, season_num: u16) -> Seq<char> {
    match format {
        Format::Tv => "TV"@ + radix_text(season_num as nat, 10) + " "@,
        Format::Special => "SP "@,
        Format::Movie => "MV "@,
        Format::Ona => "ONA "@,
        Format::Ova => "OVA "@,
        Format::Music => "MU "@,
    }
}

/// The prefix of a season's line.
pub fn format_prefix_str(format: Format, season_num: u16) -> (r: String)
    ensures
        r@ == format_prefix_text(format, season_num),
{
    match format {
        Format::Tv => {
            let mut text = "TV".to_string();
            let number = radix_string(season_num as u128, 10);
            text.append(number.as_str());
            text.append(" ");
            text
        },
        Format::Special => "SP ".to_string(),
        Format::Movie => "MV ".to_string(),
        Format::Ona => "ONA ".to_string(),
        Format::Ova => "OVA ".to_string(),
        Format::Music => "MU ".to_string(),
    }
}

/// The text after a season's prefix: the anime's romaji title, or a note that
/// the episodes matched no anime.
pub fn season_title(pairing: &RemoteSeasonPairing) -> (r: &str)
    ensures
        match *pairing {
            RemoteSeasonPairing::Paired(p) => r@ == p.remote_info.title.romaji@,
            RemoteSeasonPairing::Unpaired(_) => r@ == "Unmatched Episodes"@,
        },
{
    match pairing {
        RemoteSeasonPairing::Paired(season) => season.remote_info.title.romaji.as_str(),
        RemoteSeasonPairing::Unpaired(_) => "Unmatched Episodes",
    }
}

/// The colour a series is listed in.
#[derive(Debug, Clone, Copy, PartialEq, Eq, Structural)]
pub enum EntryColor {
    DarkGray,
    Green,
    Gray,
    Red,
}

/// The emphasis a series is listed with.
#[derive(Debug, Clone, Copy, PartialEq, Eq, Structural)]
pub enum EntryEmphasis {
    Italic,
    ItalicBold,
}

/// How a series is listed: its colour, emphasis and name.
pub fn entry_style(state: &EntryState) -> (r: (EntryColor, Option<EntryEmphasis>, &str))
    ensures
        match *state {
            EntryState::Detected => r.0 == EntryColor::DarkGray && r.1 is None && r.2@
                == "Detected.."@,
            EntryState::Scanning => r.0 == EntryColor::DarkGray && r.1 == Some(
                EntryEmphasis::Italic,
            ) && r.2@ == "Scanning.."@,
            EntryState::Resolving(name) => r.0 == EntryColor::Green && r.1 is None && r.2@
                == name@,
            EntryState::Resolved(p) => r.0 == EntryColor::Gray && r.1 is None && r.2@ == p.name@,
            EntryState::Unresolved(l) => r.0 == EntryColor::DarkGray && r.1 == Some(
                EntryEmphasis::ItalicBold,
            ) && r.2@ == l.parsed_name@,
            EntryState::Failure { name, .. } => r.0 == EntryColor::Red && r.1 == Some(
                EntryEmphasis::Italic,
            ) && r.2@ == name@,
        },
{
    match state {
        EntryState::Detected => (EntryColor::DarkGray, None, "Detected.."),
        EntryState::Scanning => (EntryColor::DarkGray, Some(EntryEmphasis::Italic), "Scanning.."),
        EntryState::Resolving(name) => (EntryColor::Green, None, name.as_str()),
        EntryState::Resolved(pairing) => (EntryColor::Gray, None, pairing.name.as_str()),
        EntryState::Unresolved(local) => (
            EntryColor::DarkGray,
            Some(EntryEmphasis::ItalicBold),
            local.parsed_name.as_str(),
        ),
        EntryState::Failure { name, .. } => (EntryColor::Red, Some(EntryEmphasis::Italic), name.as_str()),
    }
}

} // verus!
