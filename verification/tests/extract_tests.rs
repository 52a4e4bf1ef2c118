use trackcards::extract::extract;
use trackcards::extract::get_embeddable_spotify_track_ids_in_string;

fn ids_of(text: &str) -> Vec<Vec<u8>> {
    get_embeddable_spotify_track_ids_in_string(&text.as_bytes().to_vec())
}

#[test]
fn plain_link_with_query_is_extracted() {
    let ids = ids_of("check this https://open.spotify.com/track/abc123?si=xyz out");
    assert_eq!(ids, vec![b"abc123".to_vec()]);
}

#[test]
fn http_scheme_is_accepted() {
    let ids = ids_of("http://open.spotify.com/track/zzz9");
    assert_eq!(ids, vec![b"zzz9".to_vec()]);
}

#[test]
fn both_markers_suppress_the_match() {
    let ids = ids_of("<https://open.spotify.com/track/abc123>");
    assert!(ids.is_empty());
}

#[test]
fn left_marker_alone_keeps_the_match() {
    let cands = extract(&b"<https://open.spotify.com/track/abc123".to_vec());
    assert_eq!(cands.len(), 1);
    assert_eq!(cands[0].identifier, b"abc123".to_vec());
    assert!(cands[0].left_escaped);
    assert!(!cands[0].right_escaped);
}

#[test]
fn right_marker_alone_keeps_the_match() {
    let cands = extract(&b"https://open.spotify.com/track/abc123> and more".to_vec());
    assert_eq!(cands.len(), 1);
    assert_eq!(cands[0].identifier, b"abc123".to_vec());
    assert!(!cands[0].left_escaped);
    assert!(cands[0].right_escaped);
}

#[test]
fn no_markers_keeps_the_match() {
    let cands = extract(&b"https://open.spotify.com/track/abc123".to_vec());
    assert_eq!(cands.len(), 1);
    assert!(!cands[0].left_escaped);
    assert!(!cands[0].right_escaped);
}

#[test]
fn at_most_three_matches_are_considered() {
    let text = "https://open.spotify.com/track/a1 \
                https://open.spotify.com/track/b2 \
                https://open.spotify.com/track/c3 \
                https://open.spotify.com/track/d4 \
                https://open.spotify.com/track/e5";
    let ids = ids_of(text);
    assert_eq!(ids, vec![b"a1".to_vec(), b"b2".to_vec(), b"c3".to_vec()]);
}

#[test]
fn suppressed_matches_still_count_against_the_cap() {
    let text = "<https://open.spotify.com/track/a1> \
                <https://open.spotify.com/track/b2> \
                <https://open.spotify.com/track/c3> \
                https://open.spotify.com/track/d4";
    let ids = ids_of(text);
    assert!(ids.is_empty());
}

#[test]
fn matches_come_in_text_order() {
    let text = "x https://open.spotify.com/track/first y http://open.spotify.com/track/second z";
    let ids = ids_of(text);
    assert_eq!(ids, vec![b"first".to_vec(), b"second".to_vec()]);
}

#[test]
fn text_without_links_yields_nothing() {
    assert!(ids_of("no links here, not even close").is_empty());
    assert!(ids_of("").is_empty());
}

#[test]
fn malformed_host_is_not_a_match() {
    assert!(ids_of("https://open.spotify.com/album/abc123").is_empty());
    assert!(ids_of("https://open.spotify.org/track/abc123").is_empty());
    assert!(ids_of("https://open.spotify.com/track").is_empty());
}

#[test]
fn query_fragment_is_consumed_not_part_of_identifier() {
    let ids = ids_of("https://open.spotify.com/track/abc?si=123abc");
    assert_eq!(ids, vec![b"abc".to_vec()]);
}

#[test]
fn empty_identifier_is_possible() {
    let cands = extract(&b"https://open.spotify.com/track/?si=x".to_vec());
    assert_eq!(cands.len(), 1);
    assert!(cands[0].identifier.is_empty());
}

#[test]
fn embedded_in_larger_word_still_matches() {
    let ids = ids_of("seehttps://open.spotify.com/track/tail");
    assert_eq!(ids, vec![b"tail".to_vec()]);
}
