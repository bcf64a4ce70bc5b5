//! The information panel of a series.
use vstd::prelude::*;
use vstd::string::StringExecFns;

use crate::series::local::EpisodeMap;
use crate::series::root::EpisodeSet;
use crate::series::{titlecase_text, Format};
use crate::tui::state::series::EntryError;
use crate::util::radix::{radix_string, radix_text};

verus! {

/// The heading shown above a series' error.
pub open spec fn category_text(error: EntryError) -> Seq<char> {
    match error {
        EntryError::ParseError(_) => "Local Parsing Error"@,
        EntryError::Panic(_) => "Internal Error"@,
        EntryError::Automatch(_) => "Pairing Error"@,
    }
}

/// The heading shown above a series' error.
pub fn category_name(error: &EntryError) -> (r: &'static str)
    ensures
        r@ == category_text(*error),
{
    match error {
        EntryError::ParseError(_) => "Local Parsing Error",
        EntryError::Panic(_) => "Internal Error",
        EntryError::Automatch(_) => "Pairing Error",
    }
}

/// One format of a local series: its name and episode count.
pub open spec fn format_entry_text(format: Format, count: nat) -> Seq<char> {
    titlecase_text(format) + " ("@ + radix_text(count, 10) + ")"@
}

/// The formats a local series was found to have, separated by commas.
pub open spec fn formats_found_text(groups: Seq<(Format, EpisodeSet)>) -> Seq<char>
    decreases groups.len(),
{
    if groups.len() == 0 {
        Seq::empty()
    } else {
        let entry = format_entry_text(groups.last().0, groups.last().1@.len());
        if groups.len() == 1 {
            entry
        } else {
            formats_found_text(groups.drop_last()) + ", "@ + entry
        }
    }
}

/// The formats a local series was found to have, with their episode counts.
pub fn formats_found(episodes: &EpisodeMap) -> (r: String)
    ensures
        r@ == formats_found_text(episodes@),
{
    let mut text = String::new();
    let mut i: usize = 0;
    while i < episodes.len()
        invariant
            i <= episodes@.len(),
            text@ == formats_found_text(episodes@.take(i as int)),
        decreases episodes@.len() - i,
    {
        let ghost before = text@;
        assert(episodes@.take(i + 1).drop_last() =~= episodes@.take(i as int));
        assert(episodes@.take(i + 1).last() == episodes@[i as int]);
        if i > 0 {
            text.append(", ");
        }
        text.append(episodes[i].0.titlecase_str());
        text.append(" (");
        let count = radix_string(episodes[i].1.len() as u128, 10);
        text.append(count.as_str());
        text.append(")");
        i += 1;
    }
    assert(episodes@.take(episodes@.len() as int) =~= episodes@);
    text
}

} // verus!
