use trackcards::gate::can_render_rich_content;
use trackcards::gate::gate_allows;
use trackcards::gate::GateDecision;
use trackcards::gate::PermissionProbe;
use trackcards::previews::is_spotify_track_id_embedded_in_message;
use trackcards::previews::PreviewDescriptor;

fn spotify_link_preview(url: &str) -> PreviewDescriptor {
    PreviewDescriptor {
        kind: Some(b"link".to_vec()),
        provider_name: Some(b"Spotify".to_vec()),
        url: Some(url.as_bytes().to_vec()),
    }
}

#[test]
fn matching_preview_is_detected() {
    let previews = vec![spotify_link_preview("https://open.spotify.com/track/abc123")];
    assert!(is_spotify_track_id_embedded_in_message(&previews, &b"abc123".to_vec()));
}

#[test]
fn empty_preview_list_matches_nothing() {
    let previews: Vec<PreviewDescriptor> = Vec::new();
    assert!(!is_spotify_track_id_embedded_in_message(&previews, &b"abc123".to_vec()));
}

#[test]
fn wrong_kind_is_not_a_duplicate() {
    let mut p = spotify_link_preview("https://open.spotify.com/track/abc123");
    p.kind = Some(b"video".to_vec());
    assert!(!is_spotify_track_id_embedded_in_message(&vec![p], &b"abc123".to_vec()));
}

#[test]
fn missing_kind_is_not_a_duplicate() {
    let mut p = spotify_link_preview("https://open.spotify.com/track/abc123");
    p.kind = None;
    assert!(!is_spotify_track_id_embedded_in_message(&vec![p], &b"abc123".to_vec()));
}

#[test]
fn provider_match_is_exact_and_case_sensitive() {
    let mut p = spotify_link_preview("https://open.spotify.com/track/abc123");
    p.provider_name = Some(b"spotify".to_vec());
    assert!(!is_spotify_track_id_embedded_in_message(&vec![p], &b"abc123".to_vec()));
    let mut q = spotify_link_preview("https://open.spotify.com/track/abc123");
    q.provider_name = Some(b"Spotify Ltd".to_vec());
    assert!(!is_spotify_track_id_embedded_in_message(&vec![q], &b"abc123".to_vec()));
}

#[test]
fn url_must_contain_the_identifier() {
    let p = spotify_link_preview("https://open.spotify.com/track/other");
    assert!(!is_spotify_track_id_embedded_in_message(&vec![p], &b"abc123".to_vec()));
}

#[test]
fn identifier_anywhere_in_url_counts() {
    let p = spotify_link_preview("https://example.com/?q=abc123&x=1");
    assert!(is_spotify_track_id_embedded_in_message(&vec![p], &b"abc123".to_vec()));
}

#[test]
fn any_preview_in_the_list_may_match() {
    let other = PreviewDescriptor { kind: None, provider_name: None, url: None };
    let hit = spotify_link_preview("https://open.spotify.com/track/abc123?si=1");
    let previews = vec![other, hit];
    assert!(is_spotify_track_id_embedded_in_message(&previews, &b"abc123".to_vec()));
}

#[test]
fn gate_allows_only_positive_resolution() {
    let g = can_render_rich_content(&PermissionProbe::Resolved { embed_links: true });
    assert!(matches!(g, GateDecision::Allowed));
    assert!(gate_allows(&g));
}

#[test]
fn gate_denies_negative_resolution() {
    let g = can_render_rich_content(&PermissionProbe::Resolved { embed_links: false });
    assert!(matches!(g, GateDecision::Denied));
    assert!(!gate_allows(&g));
}

#[test]
fn gate_fails_closed_on_unresolved_steps() {
    for probe in [
        PermissionProbe::ChannelUnresolved,
        PermissionProbe::NotGuildChannel,
        PermissionProbe::MemberUnresolved,
        PermissionProbe::GuildUnresolved,
    ] {
        let g = can_render_rich_content(&probe);
        assert!(matches!(g, GateDecision::Unresolved));
        assert!(!gate_allows(&g));
    }
}
