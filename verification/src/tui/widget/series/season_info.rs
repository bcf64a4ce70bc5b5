//! The text of the information panel of a paired season.
use vstd::prelude::*;
use vstd::string::StringExecFns;

use crate::anime::{plain_of, Id};
use crate::util::radix::{radix_string, radix_text};

verus! {

/// `n` in decimal.
pub open spec fn decimal(n: nat) -> Seq<char> {
    radix_text(n, 10)
}

/// The text of a count, when there is one (the panel shows "N/A" otherwise).
pub fn count_text(count: Option<u32>) -> (r: Option<String>)
    ensures
        match count {
            Some(n) => r matches Some(t) && t@ == decimal(n as nat),
            None => r is None,
        },
{
    match count {
        Some(n) => Some(radix_string(n as u128, 10)),
        None => None,
    }
}

/// The id line: the service's name in brackets, then the id.
pub open spec fn id_line_text(id: Id) -> Seq<char> {
    "ID ["@ + "AniList"@ + "]: "@ + decimal(plain_of(id) as nat)
}

/// The id line of an anime.
pub fn id_text(id: Id) -> (r: String)
    ensures
        r@ == id_line_text(id),
{
    let mut line = "ID [".to_string();
    line.append(id.source_name());
    line.append("]: ");
    let number = radix_string(id.plain() as u128, 10);
    line.append(number.as_str());
    line
}

/// How often the user rewatched an anime.
pub open spec fn repeat_line_text(repeat: Option<u32>) -> Seq<char> {
    match repeat {
        Some(n) => decimal(n as nat) + "x"@,
        None => "0x"@,
    }
}

/// How often the user rewatched an anime: "0x" when the list has no count.
pub fn repeat_text(repeat: Option<u32>) -> (r: String)
    ensures
        r@ == repeat_line_text(repeat),
{
    match repeat {
        Some(0) | None => {
            proof {
                reveal_strlit("0x");
                reveal_strlit("x");
                reveal_strlit("0");
            }
            "0x".to_string()
        },
        Some(count) => {
            let mut text = radix_string(count as u128, 10);
            text.append("x");
            text
        },
    }
}

/// Whether the season's progress matches the user's list.
pub fn sync_state_text(in_sync: bool) -> (r: &'static str)
    ensures
        r@ == (if in_sync { "Synced"@ } else { "Unsynced"@ }),
{
    if in_sync {
        "Synced"
    } else {
        "Unsynced"
    }
}

} // verus!
