//! Response assembler: projects fetched catalog metadata into structured
//! visual cards, one per item, in fetch order. Assembly is total except for
//! one data-integrity condition: an item must name at least one
//! contributor, or the whole run's assembly fails and nothing is sent.

use vstd::prelude::*;

use crate::bytes::clone_bytes;
use crate::bytes::push_bytes;

verus! {

/// One contributor (artist) of a catalog item.
pub struct Contributor {
    pub name: Vec<u8>,
    pub url: Vec<u8>,
}

/// Mathematical image of a [`Contributor`].
pub ghost struct ContributorView {
    pub name: Seq<u8>,
    pub url: Seq<u8>,
}

impl View for Contributor {
    type V = ContributorView;

    open spec fn view(&self) -> ContributorView {
        ContributorView { name: self.name@, url: self.url@ }
    }
}

/// Metadata fetched for one catalog item (a track): its own name and URL,
/// its collection (album), an ordered list of thumbnail image URLs, and an
/// ordered list of contributors.
pub struct CatalogItem {
    pub name: Vec<u8>,
    pub canonical_url: Vec<u8>,
    pub collection_name: Vec<u8>,
    pub collection_url: Vec<u8>,
    pub collection_release_date: Vec<u8>,
    pub thumbnail_urls: Vec<Vec<u8>>,
    pub contributors: Vec<Contributor>,
}

/// Mathematical image of a [`CatalogItem`].
pub ghost struct CatalogItemView {
    pub name: Seq<u8>,
    pub canonical_url: Seq<u8>,
    pub collection_name: Seq<u8>,
    pub collection_url: Seq<u8>,
    pub collection_release_date: Seq<u8>,
    pub thumbnail_urls: Seq<Seq<u8>>,
    pub contributors: Seq<ContributorView>,
}

impl View for CatalogItem {
    type V = CatalogItemView;

    open spec fn view(&self) -> CatalogItemView {
        CatalogItemView {
            name: self.name@,
            canonical_url: self.canonical_url@,
            collection_name: self.collection_name@,
            collection_url: self.collection_url@,
            collection_release_date: self.collection_release_date@,
            thumbnail_urls: self.thumbnail_urls@.map_values(|u: Vec<u8>| u@),
            contributors: self.contributors@.map_values(|c: Contributor| c@),
        }
    }
}

/// The presentation-ready projection of one catalog item: every field is a
/// plain byte string ready to hand to the chat transport.
pub struct VisualCard {
    /// The item's name.
    pub title: Vec<u8>,
    /// The item's canonical URL.
    pub link: Vec<u8>,
    /// The first thumbnail URL, or empty when the item has no images.
    pub thumbnail: Vec<u8>,
    /// The label of the collection field (always `"Album"`).
    pub album_label: Vec<u8>,
    /// `[collectionName](collectionUrl)`.
    pub album_text: Vec<u8>,
    /// `"Artist"` for one contributor, `"Artists"` for more.
    pub contributors_label: Vec<u8>,
    /// The contributors as `[name](url)`, joined with `", "`.
    pub contributors_text: Vec<u8>,
    /// `"Released "` followed by the collection release date.
    pub footer: Vec<u8>,
}

/// Mathematical image of a [`VisualCard`].
pub ghost struct VisualCardView {
    pub title: Seq<u8>,
    pub link: Seq<u8>,
    pub thumbnail: Seq<u8>,
    pub album_label: Seq<u8>,
    pub album_text: Seq<u8>,
    pub contributors_label: Seq<u8>,
    pub contributors_text: Seq<u8>,
    pub footer: Seq<u8>,
}

impl View for VisualCard {
    type V = VisualCardView;

    open spec fn view(&self) -> VisualCardView {
        VisualCardView {
            title: self.title@,
            link: self.link@,
            thumbnail: self.thumbnail@,
            album_label: self.album_label@,
            album_text: self.album_text@,
            contributors_label: self.contributors_label@,
            contributors_text: self.contributors_text@,
            footer: self.footer@,
        }
    }
}

/// Assembly fails only on a data-integrity defect in the fetched metadata.
#[derive(Debug)]
pub enum AssembleError {
    /// An item names no contributor at all.
    MissingContributors,
}

/// A markdown-style link: `[name](url)`.
pub open spec fn md_link(name: Seq<u8>, url: Seq<u8>) -> Seq<u8> {
    seq![91u8] + name + seq![93u8, 40] + url + seq![41u8]
}

/// The contributors as markdown links joined with `", "`, in order.
pub open spec fn spec_contributors_text(cs: Seq<ContributorView>) -> Seq<u8>
    decreases cs.len(),
{
    if cs.len() == 0 {
        Seq::empty()
    } else if cs.len() == 1 {
        md_link(cs[0].name, cs[0].url)
    } else {
        spec_contributors_text(cs.drop_last()) + seq![44u8, 32] + md_link(
            cs.last().name,
            cs.last().url,
        )
    }
}

/// The bytes of `"Album"`.
pub open spec fn album_label() -> Seq<u8> {
    seq![65u8, 108, 98, 117, 109]
}

/// The bytes of `"Artist"`.
pub open spec fn artist_label_one() -> Seq<u8> {
    seq![65u8, 114, 116, 105, 115, 116]
}

/// The bytes of `"Artists"`.
pub open spec fn artist_label_many() -> Seq<u8> {
    seq![65u8, 114, 116, 105, 115, 116, 115]
}

/// The label of the contributors field: singular for one contributor,
/// plural for more than one.
pub open spec fn spec_contributors_label(n: int) -> Seq<u8> {
    if n > 1 {
        artist_label_many()
    } else {
        artist_label_one()
    }
}

/// The bytes of `"Released "`.
pub open spec fn released_prefix() -> Seq<u8> {
    seq![82u8, 101, 108, 101, 97, 115, 101, 100, 32]
}

/// The card an item is projected to.
pub open spec fn spec_card(it: CatalogItemView) -> VisualCardView {
    VisualCardView {
        title: it.name,
        link: it.canonical_url,
        thumbnail: if it.thumbnail_urls.len() > 0 {
            it.thumbnail_urls[0]
        } else {
            Seq::empty()
        },
        album_label: album_label(),
        album_text: md_link(it.collection_name, it.collection_url),
        contributors_label: spec_contributors_label(it.contributors.len() as int),
        contributors_text: spec_contributors_text(it.contributors),
        footer: released_prefix() + it.collection_release_date,
    }
}

/// The cards for a whole fetch result, in fetch order.
pub open spec fn spec_assemble(items: Seq<CatalogItemView>) -> Seq<VisualCardView> {
    items.map_values(|it: CatalogItemView| spec_card(it))
}

/// Every item of the sequence names at least one contributor.
pub open spec fn all_have_contributors(items: Seq<CatalogItemView>) -> bool {
    forall|i: int| 0 <= i < items.len() ==> (#[trigger] items[i]).contributors.len() > 0
}

/// Builds `[name](url)`.
fn md_link_exec(name: &Vec<u8>, url: &Vec<u8>) -> (r: Vec<u8>)
    ensures
        r@ == md_link(name@, url@),
{
    let mut r: Vec<u8> = vec![91u8];
    push_bytes(&mut r, name);
    r.push(93u8);
    r.push(40u8);
    push_bytes(&mut r, url);
    r.push(41u8);
    proof {
        assert(r@ =~= md_link(name@, url@));
    }
    r
}

/// Builds the joined contributors text.
fn contributors_text_exec(cs: &Vec<Contributor>) -> (r: Vec<u8>)
    ensures
        r@ == spec_contributors_text(cs@.map_values(|c: Contributor| c@)),
{
    let ghost cv = cs@.map_values(|c: Contributor| c@);
    let mut r: Vec<u8> = Vec::new();
    let mut i: usize = 0;
    proof {
        assert(cv.take(0) =~= Seq::<ContributorView>::empty());
    }
    while i < cs.len()
        invariant
            i <= cs.len(),
            cv == cs@.map_values(|c: Contributor| c@),
            r@ == spec_contributors_text(cv.take(i as int)),
        decreases cs.len() - i,
    {
        proof {
            assert(cv[i as int] == cs@[i as int]@);
        }
        if i > 0 {
            r.push(44u8);
            r.push(32u8);
        }
        let link = md_link_exec(&cs[i].name, &cs[i].url);
        push_bytes(&mut r, &link);
        proof {
            let pre = cv.take(i as int);
            let cur = cv.take(i + 1);
            assert(cur.drop_last() =~= pre);
            assert(cur.last() == cv[i as int]);
            if i == 0 {
                assert(cur.len() == 1);
                assert(cur[0] == cv[0]);
                assert(r@ =~= spec_contributors_text(cur));
            } else {
                assert(r@ =~= spec_contributors_text(cur));
            }
        }
        i += 1;
    }
    proof {
        assert(cv.take(cv.len() as int) =~= cv);
    }
    r
}

/// Projects one item to its card. The item must name at least one
/// contributor; [`assemble`] checks that before calling.
fn card_of(item: &CatalogItem) -> (r: VisualCard)
    ensures
        r@ == spec_card(item@),
{
    let thumbnail: Vec<u8> = if item.thumbnail_urls.len() > 0 {
        let t = clone_bytes(&item.thumbnail_urls[0]);
        proof {
            assert(item@.thumbnail_urls[0] == item.thumbnail_urls@[0]@);
        }
        t
    } else {
        Vec::new()
    };
    let album_label_v: Vec<u8> = vec![65u8, 108, 98, 117, 109];
    let contributors_label_v: Vec<u8> = if item.contributors.len() > 1 {
        vec![65u8, 114, 116, 105, 115, 116, 115]
    } else {
        vec![65u8, 114, 116, 105, 115, 116]
    };
    let mut footer: Vec<u8> = vec![82u8, 101, 108, 101, 97, 115, 101, 100, 32];
    push_bytes(&mut footer, &item.collection_release_date);
    let card = VisualCard {
        title: clone_bytes(&item.name),
        link: clone_bytes(&item.canonical_url),
        thumbnail,
        album_label: album_label_v,
        album_text: md_link_exec(&item.collection_name, &item.collection_url),
        contributors_label: contributors_label_v,
        contributors_text: contributors_text_exec(&item.contributors),
        footer,
    };
    proof {
        assert(card.album_label@ =~= album_label());
        assert(item@.contributors.len() == item.contributors@.len());
        if item.contributors.len() > 1 {
            assert(card.contributors_label@ =~= artist_label_many());
        } else {
            assert(card.contributors_label@ =~= artist_label_one());
        }
        assert(card.footer@ =~= released_prefix() + item@.collection_release_date);
    }
    card
}

/// Projects fetched items to visual cards, in fetch order, one card per
/// item. Fails with a data-integrity error iff some item names no
/// contributor; in that case no cards are produced at all.
pub fn assemble(items: &Vec<CatalogItem>) -> (r: Result<Vec<VisualCard>, AssembleError>)
    ensures
        r is Ok <==> all_have_contributors(items@.map_values(|it: CatalogItem| it@)),
        r matches Ok(cards) ==> cards@.map_values(|c: VisualCard| c@) == spec_assemble(
            items@.map_values(|it: CatalogItem| it@),
        ),
{
    let ghost iv = items@.map_values(|it: CatalogItem| it@);
    let mut cards: Vec<VisualCard> = Vec::new();
    let mut i: usize = 0;
    while i < items.len()
        invariant
            i <= items.len(),
            iv == items@.map_values(|it: CatalogItem| it@),
            cards@.map_values(|c: VisualCard| c@) =~= spec_assemble(iv.take(i as int)),
            forall|m: int| 0 <= m < i ==> (#[trigger] iv[m]).contributors.len() > 0,
        decreases items.len() - i,
    {
        proof {
            assert(iv[i as int] == items@[i as int]@);
        }
        if items[i].contributors.len() == 0 {
            proof {
                assert(iv[i as int].contributors.len() == 0);
                assert(!all_have_contributors(iv));
            }
            return Err(AssembleError::MissingContributors);
        }
        let card = card_of(&items[i]);
        cards.push(card);
        proof {
            assert(spec_assemble(iv.take(i as int)).push(spec_card(iv[i as int]))
                =~= spec_assemble(iv.take(i + 1)));
            assert(cards@.map_values(|c: VisualCard| c@) =~= spec_assemble(iv.take(i + 1)));
        }
        i += 1;
    }
    proof {
        assert(iv.take(iv.len() as int) =~= iv);
    }
    Ok(cards)
}

/// Field-labelling rule of the assembler, stated on its own: an item with
/// exactly one contributor is labelled `"Artist"`, one with two or more
/// `"Artists"`; the thumbnail is the first image URL, or empty when the
/// item has no images.
pub proof fn lemma_card_fields(it: CatalogItemView)
    ensures
        it.contributors.len() == 1 ==> spec_card(it).contributors_label == artist_label_one(),
        it.contributors.len() > 1 ==> spec_card(it).contributors_label == artist_label_many(),
        it.thumbnail_urls.len() == 0 ==> spec_card(it).thumbnail == Seq::<u8>::empty(),
        it.thumbnail_urls.len() > 0 ==> spec_card(it).thumbnail == it.thumbnail_urls[0],
{
}

} // verus!
