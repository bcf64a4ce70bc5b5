//! The main panel: the series list beside the selected series' information.
use vstd::prelude::*;

use crate::tui::event::{EventResult, PanelEvent};
use crate::tui::widget::series::list::{selected_of, with_selected, ViewState};

verus! {

/// The keys the main panel acts on.
#[derive(Debug, Clone, Copy, PartialEq, Eq, Structural)]
pub enum MainKey {
    Escape,
    /// `s`, `S` or arrow down.
    Next,
    /// `w`, `W` or arrow up.
    Previous,
    /// `d`, `D` or arrow right.
    SeriesFormats,
    /// `a`, `A` or arrow left.
    RootSeries,
    /// `~`.
    OpenLog,
    Other,
}

/// The main panel's own state: what the series list shows.
#[derive(Debug)]
pub struct Main {
    pub series_list_state: ViewState,
}

/// The view after `key`, for the keys that move the selection.
pub open spec fn moved(v: ViewState, key: MainKey) -> ViewState {
    match key {
        MainKey::Next => with_selected(v, (selected_of(v) + 1) as i32),
        MainKey::Previous => with_selected(v, (selected_of(v) - 1) as i32),
        MainKey::SeriesFormats => match v {
            ViewState::RootSeries { selected } => ViewState::SeriesFormats {
                root: selected,
                selected: 0,
            },
            ViewState::SeriesFormats { .. } => v,
        },
        MainKey::RootSeries => match v {
            ViewState::RootSeries { .. } => v,
            ViewState::SeriesFormats { root, .. } => ViewState::RootSeries { selected: root },
        },
        _ => v,
    }
}

/// Opening a series' formats and going back returns to that series.
pub proof fn lemma_formats_and_back(selected: i32)
    ensures
        moved(
            moved(ViewState::RootSeries { selected }, MainKey::SeriesFormats),
            MainKey::RootSeries,
        ) == (ViewState::RootSeries { selected }),
{
}

impl Main {
    /// The panel showing all series, the first selected.
    pub fn new() -> (r: Self)
        ensures
            r.series_list_state == (ViewState::RootSeries { selected: 0 }),
    {
        Main { series_list_state: ViewState::new() }
    }

    /// Handle a key. The flag says that the selection may have moved, so the
    /// frame is drawn again and the selected season's cover is fetched.
    pub fn process_input(&mut self, key: MainKey) -> (r: (EventResult, bool))
        requires
            key == MainKey::Next ==> selected_of(old(self).series_list_state) < i32::MAX,
            key == MainKey::Previous ==> selected_of(old(self).series_list_state) > i32::MIN,
        ensures
            final(self).series_list_state == moved(old(self).series_list_state, key),
            r == match key {
                MainKey::Escape => (EventResult::Quit, false),
                MainKey::OpenLog => (EventResult::Continue(Some(PanelEvent::PushLogPanel)), false),
                MainKey::Other => (EventResult::Continue(None), false),
                _ => (EventResult::Continue(None), true),
            },
    {
        match key {
            MainKey::Escape => {
                return (EventResult::Quit, false);
            },
            MainKey::Next => {
                self.series_list_state.select_next();
            },
            MainKey::Previous => {
                self.series_list_state.select_previous();
            },
            MainKey::SeriesFormats => {
                self.series_list_state.select_series_formats();
            },
            MainKey::RootSeries => {
                self.series_list_state.select_root_series();
            },
            MainKey::OpenLog => {
                return (EventResult::Continue(Some(PanelEvent::PushLogPanel)), false);
            },
            MainKey::Other => {
                return (EventResult::Continue(None), false);
            },
        }
        (EventResult::Continue(None), true)
    }
}

} // verus!
