//! Events that add series to the list or change their state.
use vstd::prelude::*;

use crate::tui::state::series::{find_stable, EntryState};
use crate::tui::state::AppState;

verus! {

/// A change to the series list.
#[derive(Debug)]
pub enum Payload {
    /// Add a series; its stable index goes back to the sender.
    Create { state: EntryState },
    /// Replace the state of the series with the given stable index.
    Update { stable_index: usize, state: EntryState },
}

/// Apply a change to the series list. Returns the stable index to send back
/// (for a new series) and whether the list changed, so that a frame is drawn.
pub fn process(payload: Payload, app_state: &mut AppState) -> (r: (Option<usize>, bool))
    ensures
        final(app_state).series_scan_dir == old(app_state).series_scan_dir,
        match payload {
            Payload::Create { state } => {
                let n = old(app_state).series.view().len();
                &&& r == (Some(n as usize), true)
                &&& final(app_state).series.view() == old(app_state).series.view().push(
                    crate::tui::state::series::Entry { state, stable_index: n as usize },
                )
            },
            Payload::Update { stable_index, state } => match find_stable(
                old(app_state).series.view(),
                stable_index,
            ) {
                Some(i) => r == (None::<usize>, true) && final(app_state).series.view()
                    == old(app_state).series.view().update(
                    i,
                    crate::tui::state::series::Entry { state, stable_index },
                ),
                None => r == (None::<usize>, false) && final(app_state).series.view() == old(
                    app_state,
                ).series.view(),
            },
        },
{
    match payload {
        Payload::Create { state } => {
            let index = app_state.series.push(state);
            (Some(index), true)
        },
        Payload::Update { stable_index, state } => {
            let changed = app_state.series.set(stable_index, state);
            (None, changed)
        },
    }
}

} // verus!
