//! Anime as a remote tracking service describes them.
pub mod api;

use vstd::prelude::*;

verus! {

pub type PlainId = u32;

/// An anime's id on a tracking service.
#[derive(Copy, Clone, Debug, Hash, PartialEq, Eq, Structural, PartialOrd, Ord)]
pub enum Id {
    AniList(PlainId),
}

/// The number an id carries, whatever service it belongs to.
pub open spec fn plain_of(id: Id) -> PlainId {
    match id {
        Id::AniList(id) => id,
    }
}

impl Id {
    /// The name of the service the id belongs to.
    pub fn source_name(self) -> (r: &'static str)
        ensures
            r@ == "AniList"@,
    {
        match self {
            Id::AniList(_) => "AniList",
        }
    }

    /// The id as the service writes it.
    pub fn plain(self) -> (r: PlainId)
        ensures
            r == plain_of(self),
    {
        match self {
            Id::AniList(id) => id,
        }
    }
}

/// Where an anime stands on the user's list.
#[derive(Debug, Copy, Clone, Hash, PartialEq, Eq, Structural, PartialOrd, Ord)]
pub enum UserStatus {
    Current,
    Planning,
    Completed,
    Dropped,
    Paused,
    Repeating,
}

/// The name shown for each user status.
pub open spec fn status_text(status: UserStatus) -> Seq<char> {
    match status {
        UserStatus::Current => "Watching"@,
        UserStatus::Planning => "Planning"@,
        UserStatus::Completed => "Completed"@,
        UserStatus::Dropped => "Dropped"@,
        UserStatus::Paused => "Paused"@,
        UserStatus::Repeating => "Rewatching"@,
    }
}

impl UserStatus {
    pub fn display_str(self) -> (r: &'static str)
        ensures
            r@ == status_text(self),
    {
        match self {
            UserStatus::Current => "Watching",
            UserStatus::Planning => "Planning",
            UserStatus::Completed => "Completed",
            UserStatus::Dropped => "Dropped",
            UserStatus::Paused => "Paused",
            UserStatus::Repeating => "Rewatching",
        }
    }
}

/// An anime's title in each language the service provides.
#[derive(Clone, Debug)]
pub struct Title {
    pub english: Option<String>,
    pub romaji: String,
    pub native: String,
}

impl Title {
    /// All titles: English (when there is one), romaji, then native.
    pub fn as_array(&self) -> (r: [Option<&str>; 3])
        ensures
            match self.english {
                Some(e) => r[0] is Some && r[0]->0@ == e@,
                None => r[0] is None,
            },
            r[1] is Some && r[1]->0@ == self.romaji@,
            r[2] is Some && r[2]->0@ == self.native@,
    {
        let english = match &self.english {
            Some(e) => Some(e.as_str()),
            None => None,
        };
        [english, Some(self.romaji.as_str()), Some(self.native.as_str())]
    }
}

#[derive(Clone, Debug)]
pub struct CoverImage {
    /// URL pointing to the extra large cover image for the series.
    pub extra_large: Option<String>,
}

/// The format a remote service gives an anime.
#[derive(Debug, Copy, Clone, Hash, PartialEq, Eq, Structural, PartialOrd, Ord)]
pub enum Format {
    Tv,
    Movie,
    Special,
    Ona,
    Ova,
    Music,
    Other,
}

/// The name the service gives a format, in upper case (none for `Other`,
/// which stands for every format the library does not tell apart).
pub open spec fn service_format_name(f: Format) -> Seq<char> {
    match f {
        Format::Tv => "TV"@,
        Format::Movie => "MOVIE"@,
        Format::Special => "SPECIAL"@,
        Format::Ona => "ONA"@,
        Format::Ova => "OVA"@,
        Format::Music => "MUSIC"@,
        Format::Other => Seq::empty(),
    }
}

/// The number of episodes an anime has so far: the total when the service
/// knows it, else one less than the next episode to air.
pub open spec fn episode_count(total: Option<u32>, next_airing_episode: Option<u32>) -> Option<u32> {
    match total {
        Some(n) => Some(n),
        None => match next_airing_episode {
            Some(next) => Some(if next == 0 {
                0u32
            } else {
                (next - 1) as u32
            }),
            None => None,
        },
    }
}

pub fn current_episode_count(total: Option<u32>, next_airing_episode: Option<u32>) -> (r: Option<u32>)
    ensures
        r == episode_count(total, next_airing_episode),
{
    match total {
        Some(n) => Some(n),
        None => match next_airing_episode {
            Some(next) => Some(next.saturating_sub(1)),
            None => None,
        },
    }
}

/// What the user's list records of an anime.
///
/// The score is held as the bit pattern of the service's single-precision
/// floating-point score, as `f32::to_bits` gives it.
#[derive(Clone, Debug)]
pub struct UserListEntry {
    pub completed_at: Option<jiff::civil::Date>,
    pub created_at: Option<jiff::Timestamp>,
    pub progress: Option<u32>,
    pub repeat: Option<u32>,
    pub score_bits: Option<u32>,
    pub started_at: Option<jiff::civil::Date>,
    pub status: Option<UserStatus>,
    pub updated_at: Option<jiff::Timestamp>,
}

/// `jiff`'s calendar date, carried through unopened.
#[verifier::external_type_specification]
#[verifier::external_body]
pub struct ExDate(jiff::civil::Date);

/// `jiff`'s instant in time, carried through unopened.
#[verifier::external_type_specification]
#[verifier::external_body]
pub struct ExTimestamp(jiff::Timestamp);

/// An anime as the service describes it.
#[derive(Clone, Debug)]
pub struct Info {
    pub id: Id,
    pub title: Title,
    pub cover_image_url: CoverImage,
    pub episodes: Option<u32>,
    pub format: Option<Format>,
    pub user_list_entry: Option<UserListEntry>,
}

// ---------------------------------------------------------------------------
// Dates
// ---------------------------------------------------------------------------

pub open spec fn is_leap_year(year: int) -> bool {
    (year % 4 == 0 && year % 100 != 0) || year % 400 == 0
}

pub open spec fn days_in_month(year: int, month: int) -> int {
    if month == 2 {
        if is_leap_year(year) {
            29
        } else {
            28
        }
    } else if month == 4 || month == 6 || month == 9 || month == 11 {
        30
    } else {
        31
    }
}

/// A year, month and day that name a calendar date that `jiff` can hold.
pub open spec fn valid_date(year: i16, month: i8, day: i8) -> bool {
    &&& -9999 <= year <= 9999
    &&& 1 <= month <= 12
    &&& 1 <= day <= days_in_month(year as int, month as int)
}

/// The `jiff` date with the given year, month and day.
pub uninterp spec fn date_of(year: i16, month: i8, day: i8) -> jiff::civil::Date;

/// `jiff::civil::Date::new`: the date with the given year, month and day,
/// which exists exactly when they name a valid date (year in `-9999..=9999`,
/// month in `1..=12`, day within the month), as jiff documents. The date is
/// named by its year, month and day.
#[verifier::external_body]
fn civil_date(year: i16, month: i8, day: i8) -> (r: Option<jiff::civil::Date>)
    ensures
        r is Some <==> valid_date(year, month, day),
        r matches Some(d) ==> d == date_of(year, month, day),
{
    jiff::civil::Date::new(year, month, day).ok()
}

/// A date as the service writes it, with any part possibly missing.
#[derive(Debug)]
pub struct FuzzyDate {
    pub day: Option<i8>,
    pub month: Option<i8>,
    pub year: Option<i16>,
}

impl FuzzyDate {
    /// The date, when all of its parts are present and name a valid date.
    pub fn into_date(self) -> (r: Option<jiff::civil::Date>)
        ensures
            r is Some <==> (self.year is Some && self.month is Some && self.day is Some
                && valid_date(self.year->0, self.month->0, self.day->0)),
            r matches Some(d) ==> d == date_of(self.year->0, self.month->0, self.day->0),
    {
        match (self.year, self.month, self.day) {
            (Some(y), Some(m), Some(d)) => civil_date(y, m, d),
            _ => None,
        }
    }
}

} // verus!
