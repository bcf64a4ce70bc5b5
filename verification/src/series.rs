//! Local series and episodes, and their pairing to anime on a remote service.
pub mod automatch;
pub mod episode;
pub mod local;
pub mod root;
pub mod seasons;

use vstd::prelude::*;

use vstd::std_specs::convert::FromSpecImpl;

pub use episode::Episode;

verus! {

/// The format of a local series.
#[derive(Debug, Copy, Clone, Hash, PartialEq, Eq, Structural, PartialOrd, Ord)]
pub enum Format {
    Tv,
    Special,
    Movie,
    Ona,
    Ova,
    Music,
}

/// The seasons of one format: matched with an anime, or not.
#[derive(Debug)]
pub enum FormatData {
    Matched { info: crate::anime::Info, episodes: root::EpisodeSet, in_sync: bool },
    Unmatched { episodes: root::EpisodeSet },
}

/// The position of a format in the order formats sort in (their declaration
/// order).
pub open spec fn format_rank(f: Format) -> int {
    match f {
        Format::Tv => 0,
        Format::Special => 1,
        Format::Movie => 2,
        Format::Ona => 3,
        Format::Ova => 4,
        Format::Music => 5,
    }
}

impl Default for Format {
    /// Episodes that name no format are taken to be TV episodes.
    fn default() -> (r: Self)
        ensures
            r == Format::Tv,
    {
        Format::Tv
    }
}

/// The titlecase name of each format.
pub open spec fn titlecase_text(f: Format) -> Seq<char> {
    match f {
        Format::Tv => "TV"@,
        Format::Special => "Special"@,
        Format::Movie => "Movie"@,
        Format::Ona => "ONA"@,
        Format::Ova => "OVA"@,
        Format::Music => "Music"@,
    }
}

impl Format {
    /// Return a string representation of the format in titlecase format.
    pub fn titlecase_str(self) -> (r: &'static str)
        ensures
            r@ == titlecase_text(self),
    {
        match self {
            Format::Tv => "TV",
            Format::Special => "Special",
            Format::Movie => "Movie",
            Format::Ona => "ONA",
            Format::Ova => "OVA",
            Format::Music => "Music",
        }
    }
}

/// The names a filename may use for each format, in the order they are tried.
pub open spec fn format_names() -> Seq<(Seq<char>, Format)> {
    seq![
        ("tv"@, Format::Tv),
        ("special"@, Format::Special),
        ("specials"@, Format::Special),
        ("movie"@, Format::Movie),
        ("ona"@, Format::Ona),
        ("ova"@, Format::Ova),
        ("music"@, Format::Music),
    ]
}

impl crate::detect::Format for Format {
    open spec fn spec_variant_mappings() -> Seq<(Seq<char>, Self)> {
        format_names()
    }

    fn variant_mappings() -> (r: Vec<(&'static str, Self)>) {
        let r = vec![
            ("tv", Format::Tv),
            ("special", Format::Special),
            ("specials", Format::Special),
            ("movie", Format::Movie),
            ("ona", Format::Ona),
            ("ova", Format::Ova),
            ("music", Format::Music),
        ];
        assert(crate::detect::format::names_view(r@) =~= format_names());
        r
    }
}

/// The remote format that each local format corresponds to.
pub open spec fn remote_format(value: Format) -> crate::anime::Format {
    match value {
        Format::Tv => crate::anime::Format::Tv,
        Format::Special => crate::anime::Format::Special,
        Format::Movie => crate::anime::Format::Movie,
        Format::Ona => crate::anime::Format::Ona,
        Format::Ova => crate::anime::Format::Ova,
        Format::Music => crate::anime::Format::Music,
    }
}

/// `a` and `b` spell the same word, regardless of ASCII case.
pub open spec fn same_word_ci(a: Seq<char>, b: Seq<char>) -> bool {
    &&& a.len() == b.len()
    &&& forall|k: int| 0 <= k < a.len() ==> crate::detect::text::eq_ci(#[trigger] a[k], b[k])
}

/// Each local format is paired with the remote format of the same name, so
/// a local format earns the matching-format bonus exactly against anime of
/// its own format; no two local formats share a remote one.
pub proof fn lemma_remote_format_same_name(f: Format, g: Format)
    ensures
        same_word_ci(titlecase_text(f), crate::anime::service_format_name(remote_format(f))),
        f != g ==> remote_format(f) != remote_format(g),
{
    reveal_strlit("TV");
    reveal_strlit("Special");
    reveal_strlit("Movie");
    reveal_strlit("ONA");
    reveal_strlit("OVA");
    reveal_strlit("Music");
    reveal_strlit("MOVIE");
    reveal_strlit("SPECIAL");
    reveal_strlit("MUSIC");
}

impl From<Format> for crate::anime::Format {
    fn from(value: Format) -> (r: Self) {
        match value {
            Format::Tv => crate::anime::Format::Tv,
            Format::Special => crate::anime::Format::Special,
            Format::Movie => crate::anime::Format::Movie,
            Format::Ona => crate::anime::Format::Ona,
            Format::Ova => crate::anime::Format::Ova,
            Format::Music => crate::anime::Format::Music,
        }
    }
}

impl FromSpecImpl<Format> for crate::anime::Format {
    open spec fn obeys_from_spec() -> bool {
        true
    }

    open spec fn from_spec(v: Format) -> Self {
        remote_format(v)
    }
}

} // verus!
