//! Reference extractor: scans raw message text (as bytes) for catalog track
//! links and returns an ordered, size-bounded list of candidate identifiers.
//!
//! A link has the shape `http(s)://open.spotify.com/track/<identifier>`,
//! optionally followed by query-like trailing characters (consumed and
//! discarded) and optionally wrapped in `<`/`>` suppression markers. The scan
//! is left to right and non-overlapping, stops after three matches, and a
//! match wrapped in suppression markers on both sides is dropped from the
//! result entirely.

use vstd::prelude::*;

use crate::bytes::copy_range;
use crate::bytes::has_prefix_at;
use crate::bytes::prefix_at;

verus! {

/// A candidate catalog reference extracted from message text.
pub struct CandidateReference {
    /// The catalog identifier (the alphanumeric path segment of the link).
    pub identifier: Vec<u8>,
    /// The match was immediately preceded by a `<` suppression marker.
    pub left_escaped: bool,
    /// The match was immediately followed by a `>` suppression marker.
    pub right_escaped: bool,
}

/// Mathematical image of a [`CandidateReference`].
pub ghost struct CandidateView {
    pub identifier: Seq<u8>,
    pub left_escaped: bool,
    pub right_escaped: bool,
}

impl View for CandidateReference {
    type V = CandidateView;

    open spec fn view(&self) -> CandidateView {
        CandidateView {
            identifier: self.identifier@,
            left_escaped: self.left_escaped,
            right_escaped: self.right_escaped,
        }
    }
}

/// One match of the link pattern inside the text: where it starts and ends,
/// the identifier it carries, and which suppression markers surround it.
pub ghost struct MatchRec {
    /// Index of the first byte of the match (the `<` marker if present).
    pub start: int,
    /// Index one past the last byte of the match (past the `>` if present).
    pub end: int,
    /// The bytes of the identifier segment.
    pub identifier: Seq<u8>,
    /// A `<` marker immediately precedes the link.
    pub left: bool,
    /// A `>` marker immediately follows the trailing segment.
    pub right: bool,
}

/// Is `b` an ASCII letter or digit?
pub open spec fn is_alnum(b: u8) -> bool {
    (48 <= b && b <= 57) || (65 <= b && b <= 90) || (97 <= b && b <= 122)
}

/// Is `b` allowed in the discarded trailing segment of a link
/// (`&`, `?`, `=`, or an ASCII letter or digit)?
pub open spec fn is_trail(b: u8) -> bool {
    is_alnum(b) || b == 38 || b == 63 || b == 61
}

/// The bytes of `"://open.spotify.com/track/"`.
pub open spec fn url_core() -> Seq<u8> {
    seq![
        58u8, 47, 47, 111, 112, 101, 110, 46, 115, 112, 111, 116, 105, 102, 121, 46, 99, 111,
        109, 47, 116, 114, 97, 99, 107, 47,
    ]
}

/// The bytes of `"http://open.spotify.com/track/"` (30 bytes).
pub open spec fn http_lit() -> Seq<u8> {
    seq![104u8, 116, 116, 112] + url_core()
}

/// The bytes of `"https://open.spotify.com/track/"` (31 bytes).
pub open spec fn https_lit() -> Seq<u8> {
    seq![104u8, 116, 116, 112, 115] + url_core()
}

/// If the fixed scheme-and-host part of a link starts at `j`, the index where
/// the identifier segment starts; `None` otherwise.
pub open spec fn id_start_at(t: Seq<u8>, j: int) -> Option<int> {
    if prefix_at(t, j, https_lit()) {
        Some(j + https_lit().len())
    } else if prefix_at(t, j, http_lit()) {
        Some(j + http_lit().len())
    } else {
        None
    }
}

/// End of the maximal run of ASCII alphanumeric bytes starting at `s`.
pub open spec fn alnum_end(t: Seq<u8>, s: int) -> int
    decreases t.len() - s,
{
    if s < 0 || s >= t.len() {
        s
    } else if is_alnum(t[s]) {
        alnum_end(t, s + 1)
    } else {
        s
    }
}

/// End of the maximal run of trailing-segment bytes starting at `s`.
pub open spec fn trail_end(t: Seq<u8>, s: int) -> int
    decreases t.len() - s,
{
    if s < 0 || s >= t.len() {
        s
    } else if is_trail(t[s]) {
        trail_end(t, s + 1)
    } else {
        s
    }
}

/// A match of the link pattern starts at index `i` of `t`: either a `<`
/// marker immediately followed by the fixed link prefix, or the fixed link
/// prefix itself.
pub open spec fn match_at(t: Seq<u8>, i: int) -> bool {
    &&& 0 <= i < t.len()
    &&& ((t[i] == 60 && id_start_at(t, i + 1) is Some) || id_start_at(t, i) is Some)
}

/// The match that starts at index `i` (meaningful only when `match_at(t, i)`).
pub open spec fn match_rec(t: Seq<u8>, i: int) -> MatchRec {
    let left = t[i] == 60;
    let s = if left {
        id_start_at(t, i + 1)->0
    } else {
        id_start_at(t, i)->0
    };
    let id_end = alnum_end(t, s);
    let tr_end = trail_end(t, id_end);
    let right = tr_end < t.len() && t[tr_end] == 62;
    MatchRec {
        start: i,
        end: if right {
            tr_end + 1
        } else {
            tr_end
        },
        identifier: t.subrange(s, id_end),
        left: left,
        right: right,
    }
}

proof fn lemma_alnum_end_bounds(t: Seq<u8>, s: int)
    requires
        0 <= s <= t.len(),
    ensures
        s <= alnum_end(t, s) <= t.len(),
    decreases t.len() - s,
{
    if s < t.len() && is_alnum(t[s]) {
        lemma_alnum_end_bounds(t, s + 1);
    }
}

proof fn lemma_trail_end_bounds(t: Seq<u8>, s: int)
    requires
        0 <= s <= t.len(),
    ensures
        s <= trail_end(t, s) <= t.len(),
    decreases t.len() - s,
{
    if s < t.len() && is_trail(t[s]) {
        lemma_trail_end_bounds(t, s + 1);
    }
}

/// Every match occupies a non-empty span that lies inside the text.
proof fn lemma_match_rec_bounds(t: Seq<u8>, i: int)
    requires
        match_at(t, i),
    ensures
        match_rec(t, i).start == i,
        i < match_rec(t, i).end <= t.len(),
{
    let left = t[i] == 60;
    let s = if left {
        id_start_at(t, i + 1)->0
    } else {
        id_start_at(t, i)->0
    };
    assert(https_lit()[0] == 104);
    assert(http_lit()[0] == 104);
    if left {
        assert(!prefix_at(t, i, https_lit()));
        assert(!prefix_at(t, i, http_lit()));
        assert(id_start_at(t, i + 1) is Some);
    }
    assert(i < s <= t.len());
    lemma_alnum_end_bounds(t, s);
    lemma_trail_end_bounds(t, alnum_end(t, s));
}

/// The matches found scanning `t` from position `p`, with `k` matches already
/// collected; scanning is non-overlapping and stops at three matches in all.
pub open spec fn matches_from(t: Seq<u8>, p: int, k: int) -> Seq<MatchRec>
    decreases t.len() - p,
    via matches_from_decreases
{
    if p < 0 || p >= t.len() || k >= 3 {
        Seq::empty()
    } else if match_at(t, p) {
        seq![match_rec(t, p)] + matches_from(t, match_rec(t, p).end, k + 1)
    } else {
        matches_from(t, p + 1, k)
    }
}

#[via_fn]
proof fn matches_from_decreases(t: Seq<u8>, p: int, k: int) {
    if 0 <= p < t.len() && k < 3 && match_at(t, p) {
        lemma_match_rec_bounds(t, p);
    }
}

/// All matches of the link pattern in `t`, at most three, left to right.
pub open spec fn spec_matches(t: Seq<u8>) -> Seq<MatchRec> {
    matches_from(t, 0, 0)
}

/// A match survives extraction unless suppression markers stand on both
/// sides of it.
pub open spec fn keep_match(m: MatchRec) -> bool {
    !(m.left && m.right)
}

/// The candidate that a match contributes to the extraction result.
pub open spec fn cand_of(m: MatchRec) -> CandidateView {
    CandidateView { identifier: m.identifier, left_escaped: m.left, right_escaped: m.right }
}

/// The candidates that a sequence of matches contributes to the extraction
/// result: each match that [`keep_match`] accepts, in order.
pub open spec fn kept(s: Seq<MatchRec>) -> Seq<CandidateView>
    decreases s.len(),
{
    if s.len() == 0 {
        Seq::empty()
    } else {
        let rest = kept(s.drop_last());
        if keep_match(s.last()) {
            rest.push(cand_of(s.last()))
        } else {
            rest
        }
    }
}

/// The extraction result for text `t`: the surviving matches, in text order.
pub open spec fn spec_extract(t: Seq<u8>) -> Seq<CandidateView> {
    kept(spec_matches(t))
}

proof fn lemma_matches_from_len(t: Seq<u8>, p: int, k: int)
    requires
        0 <= k <= 3,
    ensures
        matches_from(t, p, k).len() <= 3 - k,
    decreases t.len() - p,
{
    if p < 0 || p >= t.len() || k >= 3 {
    } else if match_at(t, p) {
        lemma_match_rec_bounds(t, p);
        lemma_matches_from_len(t, match_rec(t, p).end, k + 1);
    } else {
        lemma_matches_from_len(t, p + 1, k);
    }
}

proof fn lemma_kept_len(s: Seq<MatchRec>)
    ensures
        kept(s).len() <= s.len(),
    decreases s.len(),
{
    if s.len() > 0 {
        lemma_kept_len(s.drop_last());
    }
}

/// Extraction is rate-bounded: no text yields more than three candidates.
pub proof fn lemma_extract_bounded(t: Seq<u8>)
    ensures
        spec_extract(t).len() <= 3,
{
    lemma_matches_from_len(t, 0, 0);
    lemma_kept_len(spec_matches(t));
}

/// The matches underlying an extraction are genuine matches of the link
/// pattern and stand in strict left-to-right order of first appearance:
/// each match begins at or after the scan position, successive matches do
/// not overlap, and every recorded match is the match the pattern yields at
/// its start position.
pub proof fn lemma_matches_ordered(t: Seq<u8>, p: int, k: int)
    ensures
        forall|i: int|
            0 <= i < matches_from(t, p, k).len() ==> (#[trigger] matches_from(t, p, k)[i]).start
                >= p,
        forall|i: int, j: int|
            #![trigger matches_from(t, p, k)[i], matches_from(t, p, k)[j]]
            0 <= i < j < matches_from(t, p, k).len() ==> matches_from(t, p, k)[i].end
                <= matches_from(t, p, k)[j].start,
        forall|i: int|
            0 <= i < matches_from(t, p, k).len() ==> match_at(
                t,
                (#[trigger] matches_from(t, p, k)[i]).start,
            ) && matches_from(t, p, k)[i] == match_rec(t, matches_from(t, p, k)[i].start),
    decreases t.len() - p,
{
    if p < 0 || p >= t.len() || k >= 3 {
        assert(matches_from(t, p, k) == Seq::<MatchRec>::empty());
    } else if match_at(t, p) {
        let m = match_rec(t, p);
        lemma_match_rec_bounds(t, p);
        lemma_matches_ordered(t, m.end, k + 1);
        let s = matches_from(t, p, k);
        let rest = matches_from(t, m.end, k + 1);
        assert(s == seq![m] + rest);
        assert(s[0] == m);
        assert forall|i: int| 1 <= i < s.len() implies s[i] == rest[i - 1] by {
            assert(s[i] == (seq![m] + rest)[i]);
        }
        assert forall|i: int| 0 <= i < s.len() implies (#[trigger] s[i]).start >= p by {
            if i >= 1 {
                assert(s[i] == rest[i - 1]);
                assert(rest[i - 1].start >= m.end);
            }
        }
        assert forall|i: int, j: int|
            #![trigger s[i], s[j]]
            0 <= i < j < s.len() implies s[i].end <= s[j].start by {
            assert(s[j] == rest[j - 1]);
            if i == 0 {
                assert(rest[j - 1].start >= m.end);
            } else {
                assert(s[i] == rest[i - 1]);
            }
        }
        assert forall|i: int| 0 <= i < s.len() implies match_at(t, (#[trigger] s[i]).start) && s[i]
            == match_rec(t, s[i].start) by {
            if i >= 1 {
                assert(s[i] == rest[i - 1]);
            }
        }
    } else {
        lemma_matches_ordered(t, p + 1, k);
        assert(matches_from(t, p, k) == matches_from(t, p + 1, k));
        let s = matches_from(t, p, k);
        let s1 = matches_from(t, p + 1, k);
        assert forall|i: int| 0 <= i < s.len() implies (#[trigger] s[i]).start >= p by {
            assert(s[i] == s1[i]);
        }
        assert forall|i: int, j: int|
            #![trigger s[i], s[j]]
            0 <= i < j < s.len() implies s[i].end <= s[j].start by {
            assert(s[i] == s1[i]);
            assert(s[j] == s1[j]);
        }
        assert forall|i: int| 0 <= i < s.len() implies match_at(t, (#[trigger] s[i]).start) && s[i]
            == match_rec(t, s[i].start) by {
            assert(s[i] == s1[i]);
        }
    }
}

proof fn lemma_kept_no_suppressed(s: Seq<MatchRec>)
    ensures
        forall|i: int|
            0 <= i < kept(s).len() ==> !((#[trigger] kept(s)[i]).left_escaped && kept(
                s,
            )[i].right_escaped),
    decreases s.len(),
{
    if s.len() > 0 {
        lemma_kept_no_suppressed(s.drop_last());
        let rest = kept(s.drop_last());
        if keep_match(s.last()) {
            assert(kept(s) == rest.push(cand_of(s.last())));
            assert forall|i: int|
                0 <= i < kept(s).len() implies !((#[trigger] kept(s)[i]).left_escaped && kept(
                s,
            )[i].right_escaped) by {
                if i < rest.len() {
                    assert(kept(s)[i] == rest[i]);
                } else {
                    assert(kept(s)[i] == cand_of(s.last()));
                }
            }
        } else {
            assert(kept(s) == rest);
        }
    }
}

proof fn lemma_kept_contains(s: Seq<MatchRec>, i: int)
    requires
        0 <= i < s.len(),
        keep_match(s[i]),
    ensures
        kept(s).contains(cand_of(s[i])),
    decreases s.len(),
{
    if i == s.len() - 1 {
        assert(kept(s) == kept(s.drop_last()).push(cand_of(s.last())));
        assert(kept(s)[kept(s).len() - 1] == cand_of(s[i]));
    } else {
        lemma_kept_contains(s.drop_last(), i);
        assert(s.drop_last()[i] == s[i]);
        let c = cand_of(s[i]);
        let j = choose|j: int| 0 <= j < kept(s.drop_last()).len() && kept(s.drop_last())[j] == c;
        if keep_match(s.last()) {
            assert(kept(s)[j] == c);
        } else {
            assert(kept(s)[j] == c);
        }
    }
}

proof fn lemma_kept_origin(s: Seq<MatchRec>, i: int)
    requires
        0 <= i < kept(s).len(),
    ensures
        exists|j: int|
            0 <= j < s.len() && keep_match(#[trigger] s[j]) && kept(s)[i] == cand_of(s[j]),
    decreases s.len(),
{
    if s.len() > 0 {
        let rest = kept(s.drop_last());
        if keep_match(s.last()) {
            assert(kept(s) == rest.push(cand_of(s.last())));
            if i < rest.len() {
                lemma_kept_origin(s.drop_last(), i);
                let j = choose|j: int|
                    0 <= j < s.drop_last().len() && keep_match(#[trigger] s.drop_last()[j])
                        && rest[i] == cand_of(s.drop_last()[j]);
                assert(s[j] == s.drop_last()[j]);
                assert(kept(s)[i] == rest[i]);
            } else {
                assert(kept(s)[i] == cand_of(s[s.len() - 1]));
            }
        } else {
            lemma_kept_origin(s.drop_last(), i);
            let j = choose|j: int|
                0 <= j < s.drop_last().len() && keep_match(#[trigger] s.drop_last()[j]) && rest[i]
                    == cand_of(s.drop_last()[j]);
            assert(s[j] == s.drop_last()[j]);
        }
    }
}

/// Every extracted candidate comes from a genuine match of the link
/// pattern that the suppression rule keeps: extraction fabricates nothing.
pub proof fn lemma_extract_from_matches(t: Seq<u8>, i: int)
    requires
        0 <= i < spec_extract(t).len(),
    ensures
        exists|j: int|
            0 <= j < spec_matches(t).len() && keep_match(#[trigger] spec_matches(t)[j])
                && spec_extract(t)[i] == cand_of(spec_matches(t)[j]),
{
    lemma_kept_origin(spec_matches(t), i);
}

/// A match wrapped in suppression markers on both sides never reaches the
/// extraction result; a match with one-sided or no markers always does.
pub proof fn lemma_suppression_honored(t: Seq<u8>)
    ensures
        forall|i: int|
            0 <= i < spec_extract(t).len() ==> !((#[trigger] spec_extract(t)[i]).left_escaped
                && spec_extract(t)[i].right_escaped),
        forall|i: int|
            0 <= i < spec_matches(t).len() && keep_match(#[trigger] spec_matches(t)[i])
                ==> spec_extract(t).contains(cand_of(spec_matches(t)[i])),
{
    lemma_kept_no_suppressed(spec_matches(t));
    assert forall|i: int|
        0 <= i < spec_matches(t).len() && keep_match(#[trigger] spec_matches(t)[i])
        implies spec_extract(t).contains(cand_of(spec_matches(t)[i])) by {
        lemma_kept_contains(spec_matches(t), i);
    }
}

/// Executable check mirroring [`is_alnum`].
pub fn alnum(b: u8) -> (r: bool)
    ensures
        r == is_alnum(b),
{
    (48 <= b && b <= 57) || (65 <= b && b <= 90) || (97 <= b && b <= 122)
}

/// Executable check mirroring [`is_trail`].
pub fn trail(b: u8) -> (r: bool)
    ensures
        r == is_trail(b),
{
    alnum(b) || b == 38 || b == 63 || b == 61
}

/// The bytes of `"https://open.spotify.com/track/"` as a vector.
fn https_pat() -> (v: Vec<u8>)
    ensures
        v@ == https_lit(),
{
    let v: Vec<u8> = vec![
        104u8, 116, 116, 112, 115, 58, 47, 47, 111, 112, 101, 110, 46, 115, 112, 111, 116, 105,
        102, 121, 46, 99, 111, 109, 47, 116, 114, 97, 99, 107, 47,
    ];
    proof {
        assert(v@ =~= https_lit());
    }
    v
}

/// The bytes of `"http://open.spotify.com/track/"` as a vector.
fn http_pat() -> (v: Vec<u8>)
    ensures
        v@ == http_lit(),
{
    let v: Vec<u8> = vec![
        104u8, 116, 116, 112, 58, 47, 47, 111, 112, 101, 110, 46, 115, 112, 111, 116, 105, 102,
        121, 46, 99, 111, 109, 47, 116, 114, 97, 99, 107, 47,
    ];
    proof {
        assert(v@ =~= http_lit());
    }
    v
}

/// If the fixed scheme-and-host part of a link starts at `j`, returns the
/// index where the identifier segment starts.
fn id_start(t: &Vec<u8>, j: usize) -> (r: Option<usize>)
    ensures
        r is None ==> id_start_at(t@, j as int) is None,
        r matches Some(s) ==> id_start_at(t@, j as int) == Some(s as int),
{
    proof {
        assert(url_core().len() == 26);
        assert(https_lit().len() == 31);
        assert(http_lit().len() == 30);
    }
    if j > t.len() {
        return None;
    }
    let rem = t.len() - j;
    let hps = https_pat();
    if hps.len() <= rem && has_prefix_at(t, j, &hps) {
        return Some(j + hps.len());
    }
    let hp = http_pat();
    if hp.len() <= rem && has_prefix_at(t, j, &hp) {
        return Some(j + hp.len());
    }
    None
}

/// End of the maximal run of ASCII alphanumeric bytes starting at `s`.
fn scan_alnum_end(t: &Vec<u8>, s: usize) -> (e: usize)
    requires
        s <= t.len(),
    ensures
        e as int == alnum_end(t@, s as int),
        s <= e <= t.len(),
{
    let mut i: usize = s;
    loop
        invariant
            s <= i <= t.len(),
            alnum_end(t@, s as int) == alnum_end(t@, i as int),
        ensures
            i <= t.len(),
            alnum_end(t@, s as int) == i,
        decreases t.len() - i,
    {
        if i == t.len() {
            break;
        }
        if !alnum(t[i]) {
            break;
        }
        i += 1;
    }
    i
}

/// End of the maximal run of trailing-segment bytes starting at `s`.
fn scan_trail_end(t: &Vec<u8>, s: usize) -> (e: usize)
    requires
        s <= t.len(),
    ensures
        e as int == trail_end(t@, s as int),
        s <= e <= t.len(),
{
    let mut i: usize = s;
    loop
        invariant
            s <= i <= t.len(),
            trail_end(t@, s as int) == trail_end(t@, i as int),
        ensures
            i <= t.len(),
            trail_end(t@, s as int) == i,
        decreases t.len() - i,
    {
        if i == t.len() {
            break;
        }
        if !trail(t[i]) {
            break;
        }
        i += 1;
    }
    i
}

/// Scans message text for catalog track links and returns the surviving
/// candidates: at most three matches are considered, in left-to-right order,
/// and a match wrapped in suppression markers on both sides is dropped.
pub fn extract(text: &Vec<u8>) -> (r: Vec<CandidateReference>)
    ensures
        r@.map_values(|c: CandidateReference| c@) == spec_extract(text@),
        r@.len() <= 3,
{
    proof {
        lemma_extract_bounded(text@);
    }
    let ghost t = text@;
    let mut out: Vec<CandidateReference> = Vec::new();
    let ghost mut ms: Seq<MatchRec> = Seq::empty();
    let mut p: usize = 0;
    let mut found: usize = 0;

    proof {
        assert(ms + matches_from(t, 0, 0) =~= matches_from(t, 0, 0));
        assert(out@.map_values(|c: CandidateReference| c@) =~= kept(ms));
    }

    loop
        invariant
            p <= text.len(),
            found == ms.len(),
            found <= 3,
            t == text@,
            matches_from(t, 0, 0) == ms + matches_from(t, p as int, found as int),
            out@.map_values(|c: CandidateReference| c@) == kept(ms),
        ensures
            matches_from(t, 0, 0) == ms,
            out@.map_values(|c: CandidateReference| c@) == kept(ms),
        decreases text.len() - p,
    {
        if found == 3 || p == text.len() {
            proof {
                assert(matches_from(t, p as int, found as int) =~= Seq::<MatchRec>::empty());
                assert(ms + Seq::<MatchRec>::empty() =~= ms);
            }
            break;
        }
        let is_lt = text[p] == 60;
        let s_opt: Option<usize> = if is_lt {
            id_start(text, p + 1)
        } else {
            id_start(text, p)
        };
        proof {
            assert(https_lit()[0] == 104);
            assert(http_lit()[0] == 104);
            if is_lt {
                assert(!prefix_at(t, p as int, https_lit()));
                assert(!prefix_at(t, p as int, http_lit()));
            }
        }
        match s_opt {
            None => {
                proof {
                    if is_lt {
                        assert(!match_at(t, p as int));
                    } else {
                        assert(!match_at(t, p as int));
                    }
                    assert(matches_from(t, p as int, found as int) == matches_from(
                        t,
                        p + 1,
                        found as int,
                    ));
                }
                p += 1;
            },
            Some(s) => {
                proof {
                    assert(match_at(t, p as int));
                    if is_lt {
                        assert(id_start_at(t, p + 1) == Some(s as int));
                    } else {
                        assert(id_start_at(t, p as int) == Some(s as int));
                    }
                    lemma_match_rec_bounds(t, p as int);
                }
                let id_e = scan_alnum_end(text, s);
                let tr_e = scan_trail_end(text, id_e);
                let has_rt = tr_e < text.len() && text[tr_e] == 62;
                let end = if has_rt {
                    tr_e + 1
                } else {
                    tr_e
                };
                let ident = copy_range(text, s, id_e);
                let ghost m = match_rec(t, p as int);
                proof {
                    assert(m.identifier == ident@);
                    assert(m.left == is_lt);
                    assert(m.right == has_rt);
                    assert(m.end == end as int);
                    assert(matches_from(t, p as int, found as int) == seq![m] + matches_from(
                        t,
                        m.end,
                        found + 1,
                    ));
                }
                let ghost ms_new = ms.push(m);
                proof {
                    assert(ms_new =~= ms + seq![m]);
                    assert(ms_new + matches_from(t, end as int, (found + 1) as int)
                        =~= matches_from(t, 0, 0));
                    assert(ms_new.drop_last() =~= ms);
                    assert(ms_new.last() == m);
                }
                if is_lt && has_rt {
                    proof {
                        assert(!keep_match(m));
                        assert(kept(ms_new) == kept(ms));
                        assert(out@.map_values(|c: CandidateReference| c@) == kept(ms_new));
                    }
                } else {
                    let cand = CandidateReference {
                        identifier: ident,
                        left_escaped: is_lt,
                        right_escaped: has_rt,
                    };
                    proof {
                        assert(cand@ == cand_of(m));
                    }
                    out.push(cand);
                    proof {
                        assert(keep_match(m));
                        assert(kept(ms_new) == kept(ms).push(cand_of(m)));
                        assert(out@.map_values(|c: CandidateReference| c@) =~= kept(ms).push(
                            cand_of(m),
                        ));
                    }
                }
                proof {
                    ms = ms_new;
                }
                p = end;
                found += 1;
            },
        }
    }
    out
}

/// The identifiers of the extraction result, in order.
pub open spec fn spec_extract_ids(t: Seq<u8>) -> Seq<Seq<u8>> {
    spec_extract(t).map_values(|c: CandidateView| c.identifier)
}

/// The embeddable track identifiers found in a message text: one per
/// surviving candidate, in left-to-right order.
pub fn get_embeddable_spotify_track_ids_in_string(text: &Vec<u8>) -> (r: Vec<Vec<u8>>)
    ensures
        r@.map_values(|v: Vec<u8>| v@) == spec_extract_ids(text@),
        r@.len() <= 3,
{
    proof {
        lemma_extract_bounded(text@);
    }
    let cands = extract(text);
    let mut r: Vec<Vec<u8>> = Vec::new();
    let mut i: usize = 0;
    while i < cands.len()
        invariant
            i <= cands.len(),
            cands@.map_values(|c: CandidateReference| c@) == spec_extract(text@),
            r@.map_values(|v: Vec<u8>| v@) =~= spec_extract_ids(text@).take(i as int),
        decreases cands.len() - i,
    {
        let id = copy_range(&cands[i].identifier, 0, cands[i].identifier.len());
        proof {
            assert(cands@.map_values(|c: CandidateReference| c@)[i as int] == cands@[i as int]@);
            assert(id@ =~= cands@[i as int].identifier@);
            assert(spec_extract_ids(text@).len() == cands@.len());
            assert(spec_extract_ids(text@)[i as int] == spec_extract(text@)[i as int].identifier);
            assert(id@ == spec_extract_ids(text@)[i as int]);
        }
        let ghost prev = r@;
        r.push(id);
        proof {
            assert(spec_extract_ids(text@).take(i as int).len() == i as int);
            assert(prev.map_values(|v: Vec<u8>| v@) == spec_extract_ids(text@).take(i as int));
            assert(prev.len() == i as int);
            assert(r@ == prev.push(id));
            assert forall|j: int| #![trigger r@[j]] 0 <= j < r@.len() implies r@.map_values(
                |v: Vec<u8>| v@,
            )[j] == spec_extract_ids(text@).take(i + 1)[j] by {
                if j < i as int {
                    assert(prev.map_values(|v: Vec<u8>| v@)[j] == spec_extract_ids(text@).take(
                        i as int,
                    )[j]);
                    assert(r@[j] == prev[j]);
                } else {
                    assert(r@[j]@ == spec_extract_ids(text@)[j]);
                }
            }
            assert(r@.map_values(|v: Vec<u8>| v@) =~= spec_extract_ids(text@).take(i + 1));
        }
        i += 1;
    }
    proof {
        assert(spec_extract_ids(text@).take(i as int) =~= spec_extract_ids(text@));
    }
    r
}

} // verus!
