//! What the AniList service's replies say, once read.
use vstd::prelude::*;
use vstd::string::StringExecFns;

use crate::anime::{Id, PlainId};
use crate::util::radix::{radix_string, radix_text};

verus! {

/// How a related anime relates to the one asked about.
#[derive(Debug, Clone, Copy, PartialEq, Eq, Structural)]
pub enum RelationType {
    Sequel,
    Other,
}

/// One related anime.
#[derive(Debug, Clone, Copy, PartialEq, Eq, Structural)]
pub struct MediaRelation {
    pub relation_type: RelationType,
    pub node_id: PlainId,
}

/// The position of the first sequel among the relations.
pub open spec fn first_sequel_index(edges: Seq<MediaRelation>) -> Option<int> {
    if exists|i: int| 0 <= i < edges.len() && edges[i].relation_type == RelationType::Sequel {
        Some(
            choose|i: int|
                0 <= i < edges.len() && edges[i].relation_type == RelationType::Sequel && forall|
                    j: int,
                | 0 <= j < i ==> edges[j].relation_type != RelationType::Sequel,
        )
    } else {
        None
    }
}

/// The id of the first sequel among an anime's relations.
pub fn sequel_of(edges: &[MediaRelation]) -> (r: Option<Id>)
    ensures
        match first_sequel_index(edges@) {
            Some(i) => r == Some(Id::AniList(edges@[i].node_id)),
            None => r is None,
        },
{
    let mut i: usize = 0;
    while i < edges.len()
        invariant
            i <= edges@.len(),
            forall|j: int| 0 <= j < i ==> edges@[j].relation_type != RelationType::Sequel,
        decreases edges@.len() - i,
    {
        if edges[i].relation_type == RelationType::Sequel {
            proof {
                let k = choose|k: int|
                    0 <= k < edges@.len() && edges@[k].relation_type == RelationType::Sequel
                        && forall|j: int|
                        0 <= j < k ==> edges@[j].relation_type != RelationType::Sequel;
                assert(edges@[i as int].relation_type == RelationType::Sequel);
                if k < i {
                    assert(edges@[k].relation_type != RelationType::Sequel);
                }
                if i < k {
                    assert(edges@[i as int].relation_type != RelationType::Sequel);
                }
            }
            return Some(Id::AniList(edges[i].node_id));
        }
        i += 1;
    }
    None
}

/// The address at which a user grants this client access, for a client id.
pub open spec fn oauth_url_text(client_id: u32) -> Seq<char> {
    "https://anilist.co/api/v2/oauth/authorize?client_id="@ + radix_text(client_id as nat, 10)
        + "&response_type=token"@
}

/// The address at which a user grants the client `client_id` access.
pub fn implicit_grant_oauth_url(client_id: u32) -> (r: String)
    ensures
        r@ == oauth_url_text(client_id),
{
    let mut url = "https://anilist.co/api/v2/oauth/authorize?client_id=".to_string();
    let id = radix_string(client_id as u128, 10);
    url.append(id.as_str());
    url.append("&response_type=token");
    url
}

/// Whether the rate limiter adds a permit: only while fewer than the burst
/// amount are available.
pub fn adds_permit(available_permits: usize, burst_amount: usize) -> (r: bool)
    ensures
        r == (available_permits < burst_amount),
{
    available_permits < burst_amount
}

} // verus!
