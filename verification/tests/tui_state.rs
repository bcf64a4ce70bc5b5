use anup::series::automatch::{AutomatchResult, Error as AutomatchError};
use anup::series::local::{LocalRoot, ParseError};
use anup::series::root::RootPairing;
use anup::tui::event::series::{process, Payload};
use anup::tui::state::series::resolve_dir::{panic_error, state_after_automatch, state_after_scan};
use anup::tui::state::series::{EntryError, EntryState, List};
use anup::tui::state::AppState;
use anup::tui::widget::series::info::category_name;

fn local() -> LocalRoot {
    LocalRoot::parse_dir("/anime/Series Title", &vec!["/anime/Series Title/Series Title - 01.mkv".to_string()])
        .unwrap()
}

#[test]
fn pushed_series_are_found_by_their_stable_index() {
    let mut list = List::new();
    assert_eq!(list.push(EntryState::Detected), 0);
    assert_eq!(list.push(EntryState::Scanning), 1);
    assert_eq!(list.push(EntryState::Resolving("Name".into())), 2);
    assert_eq!(list.len(), 3);
    assert!(matches!(list.get_mut(1), Some(EntryState::Scanning)));
    assert!(list.get_mut(3).is_none());
    for (position, entry) in list.entries().iter().enumerate() {
        assert_eq!(entry.stable_index, position);
    }
}

#[test]
fn set_replaces_only_a_known_series() {
    let mut list = List::new();
    list.push(EntryState::Detected);
    list.push(EntryState::Detected);
    assert!(list.set(1, EntryState::Scanning));
    assert!(!list.set(7, EntryState::Scanning));
    assert!(matches!(list.entries()[0].state, EntryState::Detected));
    assert!(matches!(list.entries()[1].state, EntryState::Scanning));
    if let Some(state) = list.get_mut(0) {
        *state = EntryState::Resolving("A".into());
    }
    assert!(matches!(&list.entries()[0].state, EntryState::Resolving(n) if n == "A"));
}

#[test]
fn get_resolved_gives_only_a_resolved_pairing() {
    let resolved = EntryState::Resolved(RootPairing::new("Name".into()));
    assert_eq!(resolved.get_resolved().map(|p| p.name.as_str()), Some("Name"));
    assert!(EntryState::Scanning.get_resolved().is_none());
    assert!(EntryState::Unresolved(local()).get_resolved().is_none());
}

#[test]
fn series_events_create_and_update_entries() {
    let mut state = AppState { series_scan_dir: "/anime".into(), series: List::new() };
    assert_eq!(process(Payload::Create { state: EntryState::Detected }, &mut state), (Some(0), true));
    assert_eq!(process(Payload::Create { state: EntryState::Detected }, &mut state), (Some(1), true));
    assert_eq!(
        process(Payload::Update { stable_index: 1, state: EntryState::Scanning }, &mut state),
        (None, true)
    );
    assert_eq!(
        process(Payload::Update { stable_index: 5, state: EntryState::Scanning }, &mut state),
        (None, false)
    );
    assert!(matches!(state.series.entries()[1].state, EntryState::Scanning));
    assert_eq!(state.series_scan_dir, "/anime");
}

#[test]
fn scanned_series_is_resolved_under_its_parsed_name() {
    let (state, series) = state_after_scan("dir name".into(), Ok(local()));
    assert!(matches!(&state, EntryState::Resolving(n) if n == "Series Title"));
    assert!(series.is_some());
    let (state, series) = state_after_scan(
        "dir name".into(),
        Err(EntryError::ParseError(ParseError::InvalidPath)),
    );
    assert!(matches!(&state, EntryState::Failure { name, .. } if name == "dir name"));
    assert!(series.is_none());
}

#[test]
fn panic_without_text_is_unknown() {
    assert!(matches!(panic_error(None), EntryError::Panic(m) if m == "unknown"));
    assert!(matches!(panic_error(Some("boom".into())), EntryError::Panic(m) if m == "boom"));
}

#[test]
fn automatch_outcomes_become_entry_states() {
    let s = state_after_automatch("N".into(), Ok(AutomatchResult::Paired(RootPairing::new("P".into()))));
    assert!(matches!(&s, EntryState::Resolved(p) if p.name == "P"));
    let s = state_after_automatch("N".into(), Ok(AutomatchResult::Unpaired(local())));
    assert!(matches!(s, EntryState::Unresolved(_)));
    let s = state_after_automatch("N".into(), Err(AutomatchError::InvalidFormatScoreStored));
    assert!(matches!(
        &s,
        EntryState::Failure { name, error: EntryError::Automatch(AutomatchError::InvalidFormatScoreStored) }
            if name == "N"
    ));
}

#[test]
fn error_categories_are_named() {
    assert_eq!(
        category_name(&EntryError::ParseError(ParseError::InvalidPath)),
        "Local Parsing Error"
    );
    assert_eq!(category_name(&EntryError::Panic("x".into())), "Internal Error");
    assert_eq!(
        category_name(&EntryError::Automatch(AutomatchError::InvalidFormatScoreStored)),
        "Pairing Error"
    );
}
