use trackcards::assemble::CatalogItem;
use trackcards::assemble::Contributor;
use trackcards::gate::PermissionProbe;
use trackcards::pipeline::plan_message;
use trackcards::pipeline::respond;
use trackcards::previews::PreviewDescriptor;

fn allowed() -> PermissionProbe {
    PermissionProbe::Resolved { embed_links: true }
}

fn fetched_item() -> CatalogItem {
    CatalogItem {
        name: b"Song".to_vec(),
        canonical_url: b"https://open.spotify.com/track/abc123".to_vec(),
        collection_name: b"The Album".to_vec(),
        collection_url: b"https://open.spotify.com/album/alb1".to_vec(),
        collection_release_date: b"2020-01-31".to_vec(),
        thumbnail_urls: vec![b"https://img.example/1".to_vec()],
        contributors: vec![
            Contributor { name: b"Ada".to_vec(), url: b"https://a.example/ada".to_vec() },
            Contributor { name: b"Ben".to_vec(), url: b"https://a.example/ben".to_vec() },
        ],
    }
}

#[test]
fn permitted_message_with_fresh_link_yields_one_card() {
    let text = b"check this https://open.spotify.com/track/abc123?si=xyz out".to_vec();
    let previews: Vec<PreviewDescriptor> = Vec::new();
    let ids = plan_message(&allowed(), &text, &previews);
    assert_eq!(ids, vec![b"abc123".to_vec()]);

    let out = respond(&vec![fetched_item()]).unwrap();
    assert_eq!(out.cards.len(), 1);
    assert_eq!(out.cards[0].contributors_label, b"Artists".to_vec());
    assert!(!out.cards[0].contributors_text.is_empty());
    assert!(out.reply_to_original);
    assert!(out.suppress_mentions);
}

#[test]
fn already_rendered_link_is_skipped() {
    let text = b"check this https://open.spotify.com/track/abc123?si=xyz out".to_vec();
    let previews = vec![PreviewDescriptor {
        kind: Some(b"link".to_vec()),
        provider_name: Some(b"Spotify".to_vec()),
        url: Some(b"https://open.spotify.com/track/abc123".to_vec()),
    }];
    let ids = plan_message(&allowed(), &text, &previews);
    assert!(ids.is_empty());
}

#[test]
fn suppressed_link_yields_no_candidates() {
    let text = b"<https://open.spotify.com/track/abc123>".to_vec();
    let previews: Vec<PreviewDescriptor> = Vec::new();
    let ids = plan_message(&allowed(), &text, &previews);
    assert!(ids.is_empty());
}

#[test]
fn five_links_are_capped_at_three() {
    let text = b"https://open.spotify.com/track/a1 \
                 https://open.spotify.com/track/b2 \
                 https://open.spotify.com/track/c3 \
                 https://open.spotify.com/track/d4 \
                 https://open.spotify.com/track/e5"
        .to_vec();
    let previews: Vec<PreviewDescriptor> = Vec::new();
    let ids = plan_message(&allowed(), &text, &previews);
    assert_eq!(ids, vec![b"a1".to_vec(), b"b2".to_vec(), b"c3".to_vec()]);
}

#[test]
fn non_allowed_gate_blocks_the_run() {
    let text = b"https://open.spotify.com/track/abc123".to_vec();
    let previews: Vec<PreviewDescriptor> = Vec::new();
    for probe in [
        PermissionProbe::Resolved { embed_links: false },
        PermissionProbe::ChannelUnresolved,
        PermissionProbe::NotGuildChannel,
        PermissionProbe::MemberUnresolved,
        PermissionProbe::GuildUnresolved,
    ] {
        let ids = plan_message(&probe, &text, &previews);
        assert!(ids.is_empty());
    }
}

#[test]
fn no_fetched_items_means_no_message() {
    let items: Vec<CatalogItem> = Vec::new();
    assert!(respond(&items).is_none());
}

#[test]
fn integrity_failure_means_no_message() {
    let mut bad = fetched_item();
    bad.contributors = Vec::new();
    assert!(respond(&vec![fetched_item(), bad]).is_none());
}

#[test]
fn pipeline_is_deterministic_over_a_snapshot() {
    let text = b"see https://open.spotify.com/track/abc123 and \
                 https://open.spotify.com/track/def456"
        .to_vec();
    let previews = vec![PreviewDescriptor {
        kind: Some(b"link".to_vec()),
        provider_name: Some(b"Spotify".to_vec()),
        url: Some(b"https://open.spotify.com/track/def456".to_vec()),
    }];
    let first = plan_message(&allowed(), &text, &previews);
    let second = plan_message(&allowed(), &text, &previews);
    assert_eq!(first, second);
    assert_eq!(first, vec![b"abc123".to_vec()]);

    let items = vec![fetched_item()];
    let a = respond(&items).unwrap();
    let b = respond(&items).unwrap();
    assert_eq!(a.cards.len(), b.cards.len());
    assert_eq!(a.cards[0].title, b.cards[0].title);
    assert_eq!(a.cards[0].contributors_text, b.cards[0].contributors_text);
    assert_eq!(a.cards[0].footer, b.cards[0].footer);
}
