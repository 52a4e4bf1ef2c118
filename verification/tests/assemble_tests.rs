use trackcards::assemble::assemble;
use trackcards::assemble::AssembleError;
use trackcards::assemble::CatalogItem;
use trackcards::assemble::Contributor;

fn item(contributors: Vec<(&str, &str)>, thumbnails: Vec<&str>) -> CatalogItem {
    CatalogItem {
        name: b"Song".to_vec(),
        canonical_url: b"https://open.spotify.com/track/abc123".to_vec(),
        collection_name: b"The Album".to_vec(),
        collection_url: b"https://open.spotify.com/album/alb1".to_vec(),
        collection_release_date: b"2020-01-31".to_vec(),
        thumbnail_urls: thumbnails.iter().map(|t| t.as_bytes().to_vec()).collect(),
        contributors: contributors
            .iter()
            .map(|(n, u)| Contributor { name: n.as_bytes().to_vec(), url: u.as_bytes().to_vec() })
            .collect(),
    }
}

#[test]
fn one_contributor_is_labelled_artist() {
    let items = vec![item(vec![("Ada", "https://a.example/ada")], vec![])];
    let cards = assemble(&items).unwrap();
    assert_eq!(cards.len(), 1);
    assert_eq!(cards[0].contributors_label, b"Artist".to_vec());
    assert_eq!(cards[0].contributors_text, b"[Ada](https://a.example/ada)".to_vec());
}

#[test]
fn two_contributors_are_labelled_artists_and_joined() {
    let items = vec![item(
        vec![("Ada", "https://a.example/ada"), ("Ben", "https://a.example/ben")],
        vec![],
    )];
    let cards = assemble(&items).unwrap();
    assert_eq!(cards[0].contributors_label, b"Artists".to_vec());
    assert_eq!(
        cards[0].contributors_text,
        b"[Ada](https://a.example/ada), [Ben](https://a.example/ben)".to_vec()
    );
}

#[test]
fn three_contributors_keep_their_order() {
    let items = vec![item(vec![("A", "u1"), ("B", "u2"), ("C", "u3")], vec![])];
    let cards = assemble(&items).unwrap();
    assert_eq!(cards[0].contributors_text, b"[A](u1), [B](u2), [C](u3)".to_vec());
}

#[test]
fn thumbnail_is_empty_without_images() {
    let items = vec![item(vec![("Ada", "u")], vec![])];
    let cards = assemble(&items).unwrap();
    assert_eq!(cards[0].thumbnail, b"".to_vec());
}

#[test]
fn thumbnail_is_the_first_image() {
    let items = vec![item(vec![("Ada", "u")], vec!["https://img.example/1", "https://img.example/2"])];
    let cards = assemble(&items).unwrap();
    assert_eq!(cards[0].thumbnail, b"https://img.example/1".to_vec());
}

#[test]
fn title_link_album_and_footer_fields() {
    let items = vec![item(vec![("Ada", "u")], vec![])];
    let cards = assemble(&items).unwrap();
    assert_eq!(cards[0].title, b"Song".to_vec());
    assert_eq!(cards[0].link, b"https://open.spotify.com/track/abc123".to_vec());
    assert_eq!(cards[0].album_label, b"Album".to_vec());
    assert_eq!(
        cards[0].album_text,
        b"[The Album](https://open.spotify.com/album/alb1)".to_vec()
    );
    assert_eq!(cards[0].footer, b"Released 2020-01-31".to_vec());
}

#[test]
fn item_without_contributors_fails_assembly() {
    let items = vec![item(vec![("Ada", "u")], vec![]), item(vec![], vec![])];
    let r = assemble(&items);
    assert!(matches!(r, Err(AssembleError::MissingContributors)));
}

#[test]
fn cards_come_in_item_order() {
    let mut a = item(vec![("Ada", "u")], vec![]);
    a.name = b"First".to_vec();
    let mut b = item(vec![("Ben", "u")], vec![]);
    b.name = b"Second".to_vec();
    let cards = assemble(&vec![a, b]).unwrap();
    assert_eq!(cards[0].title, b"First".to_vec());
    assert_eq!(cards[1].title, b"Second".to_vec());
}

#[test]
fn empty_input_assembles_to_no_cards() {
    let items: Vec<CatalogItem> = Vec::new();
    let cards = assemble(&items).unwrap();
    assert!(cards.is_empty());
}
