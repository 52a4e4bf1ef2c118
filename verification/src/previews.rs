//! Duplicate-render filter: decides whether the platform has already
//! rendered a preview for a candidate identifier, so the pipeline can skip
//! it instead of posting a second card for the same reference.

use vstd::prelude::*;

use crate::bytes::bytes_eq;
use crate::bytes::contains_bytes;
use crate::bytes::contains_seq;

verus! {

/// A preview the chat platform has already attached to a message. Only the
/// fields the duplicate filter reads are modelled; each is optional, as the
/// platform omits any of them freely.
pub struct PreviewDescriptor {
    /// The preview's kind tag (the filter cares about `"link"`).
    pub kind: Option<Vec<u8>>,
    /// The name of the provider the platform attributed the preview to.
    pub provider_name: Option<Vec<u8>>,
    /// The URL the preview points at.
    pub url: Option<Vec<u8>>,
}

/// Mathematical image of a [`PreviewDescriptor`].
pub ghost struct PreviewView {
    pub kind: Option<Seq<u8>>,
    pub provider_name: Option<Seq<u8>>,
    pub url: Option<Seq<u8>>,
}

impl View for PreviewDescriptor {
    type V = PreviewView;

    open spec fn view(&self) -> PreviewView {
        PreviewView {
            kind: match self.kind {
                Some(ref k) => Some(k@),
                None => None,
            },
            provider_name: match self.provider_name {
                Some(ref n) => Some(n@),
                None => None,
            },
            url: match self.url {
                Some(ref u) => Some(u@),
                None => None,
            },
        }
    }
}

/// The bytes of `"link"`, the preview kind the platform uses for rendered
/// link previews.
pub open spec fn link_kind() -> Seq<u8> {
    seq![108u8, 105, 110, 107]
}

/// The bytes of `"Spotify"`, the catalog's display name as the platform
/// reports it in a preview's provider field.
pub open spec fn provider_spotify() -> Seq<u8> {
    seq![83u8, 112, 111, 116, 105, 102, 121]
}

/// A single preview renders the given identifier: it is a link preview,
/// attributed to the catalog's provider name (exact, case-sensitive), and
/// its URL contains the identifier as a substring.
pub open spec fn preview_renders(p: PreviewView, id: Seq<u8>) -> bool {
    &&& p.kind == Some(link_kind())
    &&& p.provider_name == Some(provider_spotify())
    &&& p.url matches Some(u) && contains_seq(u, id)
}

/// Some preview in the list renders the given identifier.
pub open spec fn spec_already_rendered(ps: Seq<PreviewView>, id: Seq<u8>) -> bool {
    exists|i: int| 0 <= i < ps.len() && preview_renders(ps[i], id)
}

/// The bytes of `"link"` as a vector.
fn link_kind_vec() -> (v: Vec<u8>)
    ensures
        v@ == link_kind(),
{
    let v: Vec<u8> = vec![108u8, 105, 110, 107];
    proof {
        assert(v@ =~= link_kind());
    }
    v
}

/// The bytes of `"Spotify"` as a vector.
fn provider_spotify_vec() -> (v: Vec<u8>)
    ensures
        v@ == provider_spotify(),
{
    let v: Vec<u8> = vec![83u8, 112, 111, 116, 105, 102, 121];
    proof {
        assert(v@ =~= provider_spotify());
    }
    v
}

/// Does this preview render the given identifier?
fn renders(p: &PreviewDescriptor, id: &Vec<u8>) -> (r: bool)
    ensures
        r == preview_renders(p@, id@),
{
    let kind_ok = match &p.kind {
        Some(k) => {
            let lk = link_kind_vec();
            bytes_eq(k, &lk)
        },
        None => false,
    };
    if !kind_ok {
        return false;
    }
    let provider_ok = match &p.provider_name {
        Some(n) => {
            let ps = provider_spotify_vec();
            bytes_eq(n, &ps)
        },
        None => false,
    };
    if !provider_ok {
        return false;
    }
    match &p.url {
        Some(u) => contains_bytes(u, id),
        None => false,
    }
}

/// Has the platform already rendered a preview for this identifier on the
/// message these previews belong to? True iff some preview is a link
/// preview from the catalog's provider whose URL contains the identifier.
pub fn is_spotify_track_id_embedded_in_message(
    previews: &Vec<PreviewDescriptor>,
    track_id: &Vec<u8>,
) -> (r: bool)
    ensures
        r == spec_already_rendered(
            previews@.map_values(|p: PreviewDescriptor| p@),
            track_id@,
        ),
{
    let ghost ps = previews@.map_values(|p: PreviewDescriptor| p@);
    let mut i: usize = 0;
    while i < previews.len()
        invariant
            i <= previews.len(),
            ps == previews@.map_values(|p: PreviewDescriptor| p@),
            forall|m: int| 0 <= m < i ==> !preview_renders(ps[m], track_id@),
        decreases previews.len() - i,
    {
        if renders(&previews[i], track_id) {
            proof {
                assert(ps[i as int] == previews@[i as int]@);
                assert(preview_renders(ps[i as int], track_id@));
            }
            return true;
        }
        proof {
            assert(ps[i as int] == previews@[i as int]@);
        }
        i += 1;
    }
    false
}

} // verus!
