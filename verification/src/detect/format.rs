//! Series formats (such as TV or movie) that a filename may name.
use vstd::prelude::*;

use super::text::str_chars;

verus! {

/// A set of series formats, each with the names a filename may use for it.
///
/// Names are matched in the order of the mapping, without regard to ASCII case.
pub trait Format: Sized {
    /// The names of each format, as characters, in the order they are tried.
    /// An impl that does not define them leaves them unknown to proofs.
    open spec fn spec_variant_mappings() -> Seq<(Seq<char>, Self)> {
        vstd::pervasive::arbitrary()
    }

    /// The names of each format, in the order they are tried.
    fn variant_mappings() -> (r: Vec<(&'static str, Self)>)
        ensures
            names_view(r@) == Self::spec_variant_mappings(),
    ;

    /// True when no format is known, so that no filename can name one.
    fn is_empty() -> (r: bool)
        ensures
            r == (Self::spec_variant_mappings().len() == 0),
    {
        Self::variant_mappings().len() == 0
    }
}

/// The mappings of a format with each name taken as its characters.
pub open spec fn names_view<F>(m: Seq<(&'static str, F)>) -> Seq<(Seq<char>, F)> {
    m.map_values(|p: (&'static str, F)| (p.0@, p.1))
}

/// A mapping table ready for matching: each name as its characters.
pub open spec fn table_view<F>(m: Seq<(Vec<char>, F)>) -> Seq<(Seq<char>, F)> {
    m.map_values(|p: (Vec<char>, F)| (p.0@, p.1))
}

/// Format mappings with each name split into characters.
pub fn format_table<F: Copy>(mappings: &[(&'static str, F)]) -> (t: Vec<(Vec<char>, F)>)
    ensures
        table_view(t@) == names_view(mappings@),
{
    let mut t: Vec<(Vec<char>, F)> = Vec::new();
    let mut k: usize = 0;
    while k < mappings.len()
        invariant
            k <= mappings.len(),
            t@.len() == k,
            forall|m: int|
                0 <= m < k ==> #[trigger] table_view(t@)[m] == names_view(mappings@)[m],
        decreases mappings.len() - k,
    {
        let name = str_chars(mappings[k].0);
        let value = mappings[k].1;
        let ghost old_t = t@;
        t.push((name, value));
        proof {
            assert forall|m: int| 0 <= m < k + 1 implies #[trigger] table_view(t@)[m]
                == names_view(mappings@)[m] by {
                if m < k {
                    assert(t@[m] == old_t[m]);
                    assert(table_view(old_t)[m] == names_view(mappings@)[m]);
                }
            }
        }
        k += 1;
    }
    assert(table_view(t@) =~= names_view(mappings@));
    t
}

/// No formats at all.
impl Format for () {
    open spec fn spec_variant_mappings() -> Seq<(Seq<char>, ())> {
        Seq::empty()
    }

    fn variant_mappings() -> (r: Vec<(&'static str, ())>) {
        let r: Vec<(&'static str, ())> = Vec::new();
        assert(names_view(r@) =~= Seq::<(Seq<char>, ())>::empty());
        r
    }
}

} // verus!
