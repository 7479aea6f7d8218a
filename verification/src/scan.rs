//! The scan cursor / orchestrator: a single left-to-right pass over the
//! blob that consults the signature table at each position, invokes the
//! matching length calculator, and commits a match only when its length
//! passes the minimum-size filter and lies within the blob.

use vstd::prelude::*;
use crate::sig::{
    FormatTag, is_ebml_at, is_id3_at, is_oggs_at, is_png8_at, is_riff_at, is_soi3_at,
    is_unityfs_at, is_wave_at, is_webp_at, sig_ebml, sig_id3, sig_oggs, sig_png8, sig_riff,
    sig_soi3, sig_unityfs, sig_wave, sig_webp,
};
use crate::calc::{
    LEN_MARGIN, calc_ogg_length, calc_png_length, find_jpeg_end, jpeg_end_spec,
    lemma_first_eoi_bounds, lemma_ogg_chain_end_ge, next_header_len_spec, ogg_chain_end,
    png_len_spec, riff_len_spec, riff_length, scan_until_next_header,
};

verus! {

/// Every committed match must cover strictly more bytes than this floor;
/// shorter matches are treated as spurious signature collisions.
pub const MIN_ARTIFACT_LEN: usize = 128;

/// One committed match, as the ghost model sees it: a format, the offset
/// where its signature begins, and the computed byte length.
pub ghost struct MatchSpec {
    pub tag: FormatTag,
    pub start: int,
    pub len: int,
}

/// One committed match: a format, the offset where its signature begins,
/// and the computed byte length.
#[derive(Clone, Copy, PartialEq, Eq, Structural, Debug)]
pub struct Match {
    pub tag: FormatTag,
    pub start: usize,
    pub len: usize,
}

impl View for Match {
    type V = MatchSpec;

    open spec fn view(&self) -> MatchSpec {
        MatchSpec { tag: self.tag, start: self.start as int, len: self.len as int }
    }
}

/// Which format, if any, begins at offset `pos`, and the byte length its
/// calculator recovers. A RIFF header whose form tag is neither `WAVE` nor
/// `WEBP` is no match, and a PNG or JPEG start without its end marker in
/// reach is no match.
pub open spec fn detect_spec(d: Seq<u8>, pos: int) -> Option<(FormatTag, int)> {
    if sig_riff(d, pos) {
        if sig_wave(d, pos) {
            Some((FormatTag::Wav, riff_len_spec(d, pos)))
        } else if sig_webp(d, pos) {
            Some((FormatTag::Webp, riff_len_spec(d, pos)))
        } else {
            None
        }
    } else if sig_png8(d, pos) {
        match png_len_spec(d, pos) {
            Some(l) => Some((FormatTag::Png, l)),
            None => None,
        }
    } else if sig_oggs(d, pos) {
        Some((FormatTag::Ogg, ogg_chain_end(d, pos) - pos))
    } else if sig_soi3(d, pos) {
        match jpeg_end_spec(d, pos) {
            Some(e) => Some((FormatTag::Jpg, e - pos)),
            None => None,
        }
    } else if sig_ebml(d, pos) {
        Some((FormatTag::Webm, next_header_len_spec(d, pos)))
    } else if sig_id3(d, pos) {
        Some((FormatTag::Mp3, next_header_len_spec(d, pos)))
    } else if sig_unityfs(d, pos) {
        Some((FormatTag::Assets, next_header_len_spec(d, pos)))
    } else {
        None
    }
}

/// Whether a detected length is committed: it must clear the minimum-size
/// floor and the whole byte range must lie within the blob.
pub open spec fn committed(d: Seq<u8>, pos: int, len: int) -> bool {
    len > MIN_ARTIFACT_LEN && pos + len <= d.len()
}

/// The sequence of matches the scan commits on `d` from offset `pos` on:
/// at each position with at least 16 bytes of window left, a committed
/// match consumes its bytes and the cursor jumps past them; anything else
/// advances the cursor by one byte.
pub open spec fn scan_spec(d: Seq<u8>, pos: int) -> Seq<MatchSpec>
    decreases d.len() - pos,
{
    if pos < 0 || pos + 16 >= d.len() {
        Seq::empty()
    } else {
        match detect_spec(d, pos) {
            Some((tag, len)) => {
                if committed(d, pos, len) {
                    seq![MatchSpec { tag, start: pos, len }] + scan_spec(d, pos + len)
                } else {
                    scan_spec(d, pos + 1)
                }
            },
            None => scan_spec(d, pos + 1),
        }
    }
}

/// Detects a format at `pos` and runs its length calculator, mirroring
/// `detect_spec`.
fn detect_at(data: &[u8], pos: usize) -> (r: Option<(FormatTag, u64)>)
    requires
        pos + 16 < data@.len(),
        data@.len() + LEN_MARGIN <= usize::MAX,
    ensures
        match r {
            Some((tag, len)) => detect_spec(data@, pos as int) == Some((tag, len as int)),
            None => detect_spec(data@, pos as int) is None,
        },
{
    if is_riff_at(data, pos) {
        if is_wave_at(data, pos) {
            Some((FormatTag::Wav, riff_length(data, pos)))
        } else if is_webp_at(data, pos) {
            Some((FormatTag::Webp, riff_length(data, pos)))
        } else {
            None
        }
    } else if is_png8_at(data, pos) {
        match calc_png_length(data, pos) {
            Some(l) => Some((FormatTag::Png, l as u64)),
            None => None,
        }
    } else if is_oggs_at(data, pos) {
        proof {
            lemma_ogg_chain_end_ge(data@, pos as int);
        }
        Some((FormatTag::Ogg, calc_ogg_length(data, pos) as u64))
    } else if is_soi3_at(data, pos) {
        match find_jpeg_end(data, pos) {
            Some(e) => {
                proof {
                    lemma_first_eoi_bounds(data@, pos as int + 2, crate::calc::jpeg_limit(data@, pos as int));
                }
                Some((FormatTag::Jpg, (e - pos) as u64))
            },
            None => None,
        }
    } else if is_ebml_at(data, pos) {
        Some((FormatTag::Webm, scan_until_next_header(data, pos) as u64))
    } else if is_id3_at(data, pos) {
        Some((FormatTag::Mp3, scan_until_next_header(data, pos) as u64))
    } else if is_unityfs_at(data, pos) {
        Some((FormatTag::Assets, scan_until_next_header(data, pos) as u64))
    } else {
        None
    }
}

/// Runs the whole scan over the blob and returns the committed matches in
/// cursor order. Every returned byte range lies within the blob and is
/// longer than the minimum-size floor.
pub fn scan_blob(data: &[u8]) -> (r: Vec<Match>)
    requires
        data@.len() + LEN_MARGIN <= usize::MAX,
    ensures
        r@.map_values(|m: Match| m@) == scan_spec(data@, 0),
        forall|i: int|
            0 <= i < r@.len() ==> r@[i].start + r@[i].len <= data@.len() && r@[i].len
                > MIN_ARTIFACT_LEN,
{
    let mut out: Vec<Match> = Vec::new();
    let mut pos: usize = 0;
    while pos + 16 < data.len()
        invariant
            pos <= data@.len() + 1,
            data@.len() + LEN_MARGIN <= usize::MAX,
            out@.map_values(|m: Match| m@) + scan_spec(data@, pos as int) == scan_spec(data@, 0),
            forall|i: int|
                0 <= i < out@.len() ==> out@[i].start + out@[i].len <= data@.len() && out@[i].len
                    > MIN_ARTIFACT_LEN,
        decreases data@.len() - pos,
    {
        let det = detect_at(data, pos);
        let ghost prev = out@.map_values(|m: Match| m@);
        match det {
            Some((tag, len64)) => {
                if len64 > MIN_ARTIFACT_LEN as u64 && len64 <= (data.len() - pos) as u64 {
                    let flen = len64 as usize;
                    let m = Match { tag, start: pos, len: flen };
                    out.push(m);
                    pos += flen;
                    proof {
                        assert(out@.map_values(|mm: Match| mm@) =~= prev + seq![m@]);
                        assert(prev + (seq![m@] + scan_spec(data@, pos as int)) =~= (prev + seq![
                            m@,
                        ]) + scan_spec(data@, pos as int));
                    }
                } else {
                    pos += 1;
                }
            },
            None => {
                pos += 1;
            },
        }
    }
    proof {
        assert(scan_spec(data@, pos as int) =~= Seq::<MatchSpec>::empty());
        assert(out@.map_values(|m: Match| m@) + Seq::<MatchSpec>::empty() =~= out@.map_values(
            |m: Match| m@,
        ));
    }
    out
}

/// Every match the scan commits lies at or after the offset the scan
/// started from, ends within the blob, and is longer than the
/// minimum-size floor; and the committed ranges are disjoint and in
/// ascending order.
pub proof fn lemma_scan_matches_bounded(d: Seq<u8>, pos: int)
    ensures
        forall|i: int|
            #![trigger scan_spec(d, pos)[i]]
            0 <= i < scan_spec(d, pos).len() ==> {
                let m = scan_spec(d, pos)[i];
                pos <= m.start && m.start + m.len <= d.len() && m.len > MIN_ARTIFACT_LEN
            },
        forall|i: int, j: int|
            #![trigger scan_spec(d, pos)[i], scan_spec(d, pos)[j]]
            0 <= i < j < scan_spec(d, pos).len() ==> scan_spec(d, pos)[i].start + scan_spec(
                d,
                pos,
            )[i].len <= scan_spec(d, pos)[j].start,
    decreases d.len() - pos,
{
    if pos < 0 || pos + 16 >= d.len() {
    } else {
        match detect_spec(d, pos) {
            Some((tag, len)) => {
                if committed(d, pos, len) {
                    lemma_scan_matches_bounded(d, pos + len);
                    assert forall|i: int|
                        #![trigger scan_spec(d, pos)[i]]
                        0 <= i < scan_spec(d, pos).len() implies {
                        let m = scan_spec(d, pos)[i];
                        pos <= m.start && m.start + m.len <= d.len() && m.len > MIN_ARTIFACT_LEN
                    } by {
                        if i > 0 {
                            assert(scan_spec(d, pos)[i] == scan_spec(d, pos + len)[i - 1]);
                        }
                    }
                    assert forall|i: int, j: int|
                        #![trigger scan_spec(d, pos)[i], scan_spec(d, pos)[j]]
                        0 <= i < j < scan_spec(d, pos).len() implies scan_spec(d, pos)[i].start
                        + scan_spec(d, pos)[i].len <= scan_spec(d, pos)[j].start by {
                        if i > 0 {
                            assert(scan_spec(d, pos)[i] == scan_spec(d, pos + len)[i - 1]);
                            assert(scan_spec(d, pos)[j] == scan_spec(d, pos + len)[j - 1]);
                        } else {
                            assert(scan_spec(d, pos)[j] == scan_spec(d, pos + len)[j - 1]);
                        }
                    }
                } else {
                    lemma_scan_matches_bounded(d, pos + 1);
                }
            },
            None => {
                lemma_scan_matches_bounded(d, pos + 1);
            },
        }
    }
}

/// For every committed RIFF match (a `wav` or `webp` artifact), the
/// committed length equals the container's own stored 32-bit size field
/// plus 8, exactly.
pub proof fn lemma_riff_length_consistent(d: Seq<u8>, pos: int)
    ensures
        forall|i: int|
            #![trigger scan_spec(d, pos)[i]]
            0 <= i < scan_spec(d, pos).len() ==> {
                let m = scan_spec(d, pos)[i];
                (m.tag == FormatTag::Wav || m.tag == FormatTag::Webp) ==> m.len == riff_len_spec(
                    d,
                    m.start,
                )
            },
    decreases d.len() - pos,
{
    if pos < 0 || pos + 16 >= d.len() {
    } else {
        match detect_spec(d, pos) {
            Some((tag, len)) => {
                if committed(d, pos, len) {
                    lemma_riff_length_consistent(d, pos + len);
                    assert forall|i: int|
                        #![trigger scan_spec(d, pos)[i]]
                        0 <= i < scan_spec(d, pos).len() implies {
                        let m = scan_spec(d, pos)[i];
                        (m.tag == FormatTag::Wav || m.tag == FormatTag::Webp) ==> m.len
                            == riff_len_spec(d, m.start)
                    } by {
                        if i > 0 {
                            assert(scan_spec(d, pos)[i] == scan_spec(d, pos + len)[i - 1]);
                        }
                    }
                } else {
                    lemma_riff_length_consistent(d, pos + 1);
                }
            },
            None => {
                lemma_riff_length_consistent(d, pos + 1);
            },
        }
    }
}

} // verus!
