//! Pipeline orchestrator: the per-message decision core. Given the resolved
//! permission probe, the raw message text and the previews the platform has
//! already attached, it plans which identifiers to enrich; given the items
//! that enrichment fetched, it decides whether and what to send back. The
//! enrichment calls themselves are chat-and-catalog I/O and happen outside
//! the library, between the two halves.

use vstd::prelude::*;

use crate::assemble::all_have_contributors;
use crate::assemble::assemble;
use crate::assemble::spec_assemble;
use crate::assemble::CatalogItem;
use crate::assemble::CatalogItemView;
use crate::assemble::VisualCard;
use crate::extract::get_embeddable_spotify_track_ids_in_string;
use crate::extract::spec_extract_ids;
use crate::gate::can_render_rich_content;
use crate::gate::gate_allows;
use crate::gate::spec_gate;
use crate::gate::PermissionProbe;
use crate::previews::is_spotify_track_id_embedded_in_message;
use crate::previews::spec_already_rendered;
use crate::previews::PreviewDescriptor;
use crate::previews::PreviewView;

verus! {

/// The identifiers of `ids` that no preview in `ps` already renders, in
/// order.
pub open spec fn surviving(ids: Seq<Seq<u8>>, ps: Seq<PreviewView>) -> Seq<Seq<u8>>
    decreases ids.len(),
{
    if ids.len() == 0 {
        Seq::empty()
    } else {
        let rest = surviving(ids.drop_last(), ps);
        if spec_already_rendered(ps, ids.last()) {
            rest
        } else {
            rest.push(ids.last())
        }
    }
}

/// The identifiers a message's text puts up for enrichment: the extraction
/// result minus the identifiers the platform has already rendered.
pub open spec fn spec_plan(t: Seq<u8>, ps: Seq<PreviewView>) -> Seq<Seq<u8>> {
    surviving(spec_extract_ids(t), ps)
}

/// Dropping already-rendered identifiers never adds any.
pub proof fn lemma_surviving_len(ids: Seq<Seq<u8>>, ps: Seq<PreviewView>)
    ensures
        surviving(ids, ps).len() <= ids.len(),
    decreases ids.len(),
{
    if ids.len() > 0 {
        lemma_surviving_len(ids.drop_last(), ps);
    }
}

/// The number of identifiers entering enrichment never exceeds the cap of
/// three that extraction enforces.
pub proof fn lemma_plan_bounded(t: Seq<u8>, ps: Seq<PreviewView>)
    ensures
        spec_plan(t, ps).len() <= 3,
{
    crate::extract::lemma_extract_bounded(t);
    lemma_surviving_len(spec_extract_ids(t), ps);
}

/// Steps 1-3 of a pipeline run: gate the action on the author's resolved
/// permissions, extract candidates from the text, and drop the candidates
/// the platform has already rendered. Returns the identifiers to enrich, in
/// text order; an empty result means the run stops with no output.
pub fn plan_message(
    probe: &PermissionProbe,
    text: &Vec<u8>,
    previews: &Vec<PreviewDescriptor>,
) -> (ids: Vec<Vec<u8>>)
    ensures
        !(spec_gate(*probe) is Allowed) ==> ids@.len() == 0,
        spec_gate(*probe) is Allowed ==> ids@.map_values(|v: Vec<u8>| v@) == spec_plan(
            text@,
            previews@.map_values(|p: PreviewDescriptor| p@),
        ),
        ids@.len() <= 3,
{
    proof {
        lemma_plan_bounded(text@, previews@.map_values(|p: PreviewDescriptor| p@));
    }
    let g = can_render_rich_content(probe);
    if !gate_allows(&g) {
        let empty: Vec<Vec<u8>> = Vec::new();
        return empty;
    }
    let ghost ps = previews@.map_values(|p: PreviewDescriptor| p@);
    let all = get_embeddable_spotify_track_ids_in_string(text);
    let ghost av = all@.map_values(|v: Vec<u8>| v@);
    let mut ids: Vec<Vec<u8>> = Vec::new();
    let mut i: usize = 0;
    proof {
        assert(av.take(0) =~= Seq::<Seq<u8>>::empty());
    }
    while i < all.len()
        invariant
            i <= all.len(),
            av == all@.map_values(|v: Vec<u8>| v@),
            ps == previews@.map_values(|p: PreviewDescriptor| p@),
            ids@.map_values(|v: Vec<u8>| v@) =~= surviving(av.take(i as int), ps),
        decreases all.len() - i,
    {
        proof {
            assert(av[i as int] == all@[i as int]@);
        }
        let ghost pre = av.take(i as int);
        let ghost cur = av.take(i + 1);
        proof {
            assert(cur.drop_last() =~= pre);
            assert(cur.last() == av[i as int]);
        }
        if !is_spotify_track_id_embedded_in_message(previews, &all[i]) {
            let ghost before = ids@;
            let id = crate::bytes::clone_bytes(&all[i]);
            ids.push(id);
            proof {
                assert(ids@ == before.push(id));
                assert(ids@.map_values(|v: Vec<u8>| v@) =~= surviving(cur, ps));
            }
        } else {
            proof {
                assert(ids@.map_values(|v: Vec<u8>| v@) =~= surviving(cur, ps));
            }
        }
        i += 1;
    }
    proof {
        assert(av.take(av.len() as int) =~= av);
    }
    ids
}

/// One outbound chat message: the batch of cards, posted as a reply to the
/// triggering message, with mention notifications suppressed.
pub struct OutboundMessage {
    /// The visual cards, one per fetched item, in fetch order.
    pub cards: Vec<VisualCard>,
    /// The message references (replies to) the triggering message.
    pub reply_to_original: bool,
    /// Mention notifications are suppressed on the outbound message.
    pub suppress_mentions: bool,
}

/// Steps 4-5 of a pipeline run, after enrichment: if no item was fetched,
/// or some fetched item fails the assembler's data-integrity check, the run
/// stops silently with no output; otherwise one outbound message carries
/// all the cards, as a reply with mentions suppressed.
pub fn respond(items: &Vec<CatalogItem>) -> (r: Option<OutboundMessage>)
    ensures
        items@.len() == 0 ==> r is None,
        !all_have_contributors(items@.map_values(|it: CatalogItem| it@)) ==> r is None,
        items@.len() > 0 && all_have_contributors(items@.map_values(|it: CatalogItem| it@))
            ==> (r matches Some(m) && m.cards@.map_values(|c: VisualCard| c@) == spec_assemble(
            items@.map_values(|it: CatalogItem| it@),
        ) && m.reply_to_original && m.suppress_mentions),
{
    if items.len() == 0 {
        return None;
    }
    match assemble(items) {
        Ok(cards) => Some(
            OutboundMessage { cards, reply_to_original: true, suppress_mentions: true },
        ),
        Err(_) => None,
    }
}

/// The pipeline is deterministic over an immutable message snapshot: two
/// runs over the same text and previews plan the same identifiers, and two
/// runs over the same fetched items assemble the same cards.
pub proof fn lemma_pipeline_deterministic(
    t1: Seq<u8>,
    t2: Seq<u8>,
    ps1: Seq<PreviewView>,
    ps2: Seq<PreviewView>,
    items1: Seq<CatalogItemView>,
    items2: Seq<CatalogItemView>,
)
    requires
        t1 == t2,
        ps1 == ps2,
        items1 == items2,
    ensures
        spec_plan(t1, ps1) == spec_plan(t2, ps2),
        spec_assemble(items1) == spec_assemble(items2),
{
}

} // verus!
