//! The states a series directory goes through while it is resolved: scanned
//! for episodes, then paired with anime on the remote service.
use vstd::prelude::*;

use crate::series::automatch::{self, AutomatchResult};
use crate::series::local::LocalRoot;
use crate::tui::state::series::{EntryError, EntryState};

verus! {

/// The message of a panic whose payload was not text.
pub open spec fn unknown_panic_text() -> Seq<char> {
    "unknown"@
}

/// The error of a scan that panicked, with the panic's message when it had
/// one.
pub fn panic_error(message: Option<String>) -> (r: EntryError)
    ensures
        match message {
            Some(m) => r matches EntryError::Panic(t) && t@ == m@,
            None => r matches EntryError::Panic(t) && t@ == unknown_panic_text(),
        },
{
    match message {
        Some(m) => EntryError::Panic(m),
        None => {
            proof {
                reveal_strlit("unknown");
            }
            EntryError::Panic("unknown".to_string())
        },
    }
}

/// The state after scanning the directory `filename`: a parsed series is
/// being resolved under its parsed name (and is handed back for pairing); a
/// failed scan is a failure under the directory's name.
pub fn state_after_scan(filename: String, scanned: Result<LocalRoot, EntryError>) -> (r: (
    EntryState,
    Option<LocalRoot>,
))
    ensures
        match scanned {
            Ok(series) => (r.0 matches EntryState::Resolving(name) && name@ == series.parsed_name@)
                && r.1 == Some(series),
            Err(e) => r.0 == (EntryState::Failure { name: filename, error: e }) && r.1 is None,
        },
{
    match scanned {
        Ok(series) => {
            let name = series.parsed_name.clone();
            (EntryState::Resolving(name), Some(series))
        },
        Err(error) => (EntryState::Failure { name: filename, error }, None),
    }
}

/// The state after pairing the series named `local_name`: resolved,
/// unresolved (no anime matched), or a failure under the series' name.
pub fn state_after_automatch(
    local_name: String,
    result: Result<AutomatchResult, automatch::Error>,
) -> (r: EntryState)
    ensures
        match result {
            Ok(AutomatchResult::Paired(p)) => r == EntryState::Resolved(p),
            Ok(AutomatchResult::Unpaired(l)) => r == EntryState::Unresolved(l),
            Err(e) => r == (EntryState::Failure {
                name: local_name,
                error: EntryError::Automatch(e),
            }),
        },
{
    match result {
        Ok(AutomatchResult::Paired(series)) => EntryState::Resolved(series),
        Ok(AutomatchResult::Unpaired(local_series)) => EntryState::Unresolved(local_series),
        Err(err) => EntryState::Failure { name: local_name, error: EntryError::Automatch(err) },
    }
}

} // verus!
