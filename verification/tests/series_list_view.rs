use anup::anime::{CoverImage, Id, Info, Title};
use anup::series::root::{PairedSeason, RemoteSeasonPairing, RootPairing, SeasonMap};
use anup::series::Format;
use anup::tui::state::series::{EntryState, List};
use anup::tui::widget::series::list::{
    entry_style, format_prefix_str, season_title, wrap_index_around, EntryColor, EntryEmphasis,
    FrameData, ViewState,
};
use indexmap::IndexMap;

fn info(id: u32, romaji: &str) -> Info {
    Info {
        id: Id::AniList(id),
        title: Title { english: None, romaji: romaji.into(), native: String::new() },
        cover_image_url: CoverImage { extra_large: None },
        episodes: Some(12),
        format: None,
        user_list_entry: None,
    }
}

fn paired(id: u32) -> RemoteSeasonPairing {
    RemoteSeasonPairing::Paired(PairedSeason {
        remote_info: info(id, &format!("Title {id}")),
        local_episodes: Vec::new(),
        in_sync: false,
    })
}

/// A resolved series with TV seasons 1 and 2 and an unpaired movie season.
fn resolved() -> RootPairing {
    let mut tv: SeasonMap = IndexMap::new();
    tv.insert(1, paired(1));
    tv.insert(2, paired(2));
    let mut movie: SeasonMap = IndexMap::new();
    movie.insert(0, RemoteSeasonPairing::Unpaired(Vec::new()));
    let mut pairings = IndexMap::new();
    pairings.insert(Format::Tv, tv);
    pairings.insert(Format::Movie, movie);
    RootPairing { name: "Series".into(), pairings }
}

fn list() -> List {
    let mut list = List::new();
    list.push(EntryState::Detected);
    list.push(EntryState::Resolved(resolved()));
    list.push(EntryState::Scanning);
    list
}

#[test]
fn selections_wrap_around_the_list() {
    assert_eq!(wrap_index_around(0, 3), 0);
    assert_eq!(wrap_index_around(4, 3), 1);
    assert_eq!(wrap_index_around(-1, 3), 2);
    assert_eq!(wrap_index_around(-3, 3), 0);
    assert_eq!(wrap_index_around(-4, 3), 2);
    assert_eq!(wrap_index_around(i32::MIN, 10), 2);
    assert_eq!(wrap_index_around(5, 0), 0);
    assert_eq!(wrap_index_around(-7, 0), 0);
    assert_eq!(wrap_index_around(i32::MAX, usize::MAX), 0);
}

#[test]
fn root_view_selects_a_wrapped_entry() {
    let list = list();
    let view = ViewState::RootSeries { selected: -1 };
    match view.frame_data(list.entries()) {
        FrameData::RootSeries { selected_index, selected_entry, series_list } => {
            assert_eq!(selected_index, 2);
            assert_eq!(series_list.len(), 3);
            assert!(matches!(selected_entry.map(|e| &e.state), Some(EntryState::Scanning)));
        }
        _ => panic!("expected the list of all series"),
    }
}

#[test]
fn formats_view_lists_every_season() {
    let list = list();
    let mut view = ViewState::new();
    view.select_next();
    view.select_series_formats();
    assert_eq!(view, ViewState::SeriesFormats { root: 1, selected: 0 });
    view.select_previous();
    let frame = view.frame_data(list.entries());
    match &frame {
        FrameData::SeriesFormats { root_series_index, selected_index, selected_season, .. } => {
            assert_eq!(*root_series_index, 1);
            assert_eq!(*selected_index, 2);
            assert!(matches!(selected_season, RemoteSeasonPairing::Unpaired(_)));
        }
        _ => panic!("expected the formats of one series"),
    }
    assert!(frame.get_selected_paired_season().is_none());
    assert_eq!(frame.list_title(), "Series Format Selection");
    view.apply_frame_data(frame);
    assert_eq!(view, ViewState::SeriesFormats { root: 1, selected: 2 });
    view.select_next();
    let frame = view.frame_data(list.entries());
    let season = frame.get_selected_paired_season().expect("a paired season");
    assert_eq!(season.remote_info.id, Id::AniList(1));
}

#[test]
fn formats_view_of_an_unresolved_series_falls_back() {
    let list = list();
    let view = ViewState::SeriesFormats { root: 2, selected: 1 };
    match view.frame_data(list.entries()) {
        FrameData::RootSeries { selected_index, selected_entry, .. } => {
            assert_eq!(selected_index, 2);
            assert!(selected_entry.is_some());
        }
        _ => panic!("expected the list of all series"),
    }
    let view = ViewState::SeriesFormats { root: -4, selected: 1 };
    assert!(matches!(
        view.frame_data(list.entries()),
        FrameData::RootSeries { selected_index: 0, .. }
    ));
    let view = ViewState::SeriesFormats { root: 9, selected: 1 };
    match view.frame_data(list.entries()) {
        FrameData::RootSeries { selected_index, selected_entry, .. } => {
            assert_eq!(selected_index, 2);
            assert!(matches!(selected_entry.map(|e| &e.state), Some(EntryState::Scanning)));
        }
        _ => panic!("expected the list of all series"),
    }
}

#[test]
fn a_missing_series_falls_back_into_the_list() {
    let mut list = List::new();
    list.push(EntryState::Detected);
    list.push(EntryState::Detected);
    let view = ViewState::SeriesFormats { root: 5, selected: 0 };
    match view.frame_data(list.entries()) {
        FrameData::RootSeries { selected_index, selected_entry, series_list } => {
            assert_eq!(selected_index, 1);
            assert_eq!(series_list.len(), 2);
            assert!(selected_entry.is_some());
        }
        _ => panic!("expected the list of all series"),
    }
}

#[test]
fn empty_list_selects_nothing() {
    let list = List::new();
    let frame = ViewState::RootSeries { selected: 3 }.frame_data(list.entries());
    assert!(matches!(frame, FrameData::RootSeries { selected_index: 0, selected_entry: None, .. }));
    assert_eq!(frame.list_title(), "Series List");
}

#[test]
fn applied_frame_keeps_its_selection() {
    let list = list();
    let mut view = ViewState::RootSeries { selected: 7 };
    let frame = view.frame_data(list.entries());
    view.apply_frame_data(frame);
    assert_eq!(view, ViewState::RootSeries { selected: 1 });
    let again = view.frame_data(list.entries());
    assert!(matches!(again, FrameData::RootSeries { selected_index: 1, .. }));
}

#[test]
fn season_lines_name_format_and_title() {
    assert_eq!(format_prefix_str(Format::Tv, 2), "TV2 ");
    assert_eq!(format_prefix_str(Format::Tv, 10), "TV10 ");
    assert_eq!(format_prefix_str(Format::Special, 0), "SP ");
    assert_eq!(format_prefix_str(Format::Movie, 1), "MV ");
    assert_eq!(format_prefix_str(Format::Ona, 1), "ONA ");
    assert_eq!(format_prefix_str(Format::Ova, 1), "OVA ");
    assert_eq!(format_prefix_str(Format::Music, 1), "MU ");
    assert_eq!(season_title(&paired(4)), "Title 4");
    assert_eq!(season_title(&RemoteSeasonPairing::Unpaired(Vec::new())), "Unmatched Episodes");
}

#[test]
fn series_are_listed_by_state() {
    assert_eq!(entry_style(&EntryState::Detected), (EntryColor::DarkGray, None, "Detected.."));
    assert_eq!(
        entry_style(&EntryState::Scanning),
        (EntryColor::DarkGray, Some(EntryEmphasis::Italic), "Scanning..")
    );
    let resolving = EntryState::Resolving("Name".into());
    assert_eq!(entry_style(&resolving), (EntryColor::Green, None, "Name"));
    let resolved = EntryState::Resolved(resolved());
    assert_eq!(entry_style(&resolved), (EntryColor::Gray, None, "Series"));
}
