//! The per-format length calculators: pure functions of (blob, start
//! offset) that recover the byte length of the embedded object beginning
//! there, or report that no well-formed object begins there.

use vstd::prelude::*;
use crate::sig::{
    any_known_sig, is_any_known_sig_at, is_iend_at, is_oggs_at, sig_iend, sig_oggs,
};

verus! {

/// The lookahead window for the JPEG end-of-image scan: 20 MiB.
pub const JPEG_WINDOW: usize = 0x1400000;

/// The lookahead window for the heuristic next-signature scan: 50 MiB.
pub const HEURISTIC_WINDOW: usize = 0x3200000;

/// Room that every calculator's cursor arithmetic needs above the blob
/// length; blobs this close to `usize::MAX` bytes cannot exist in memory.
pub const LEN_MARGIN: usize = 0x4000000;

/// The little-endian 32-bit integer stored at offset `p`.
pub open spec fn le32_at(d: Seq<u8>, p: int) -> int {
    d[p] as int + 0x100 * (d[p + 1] as int) + 0x1_0000 * (d[p + 2] as int) + 0x100_0000 * (d[p
        + 3] as int)
}

/// The length a RIFF container declares for itself: the 32-bit size field
/// at offset `start + 4` plus the 8 bytes of the `RIFF` tag and the size
/// field themselves.
pub open spec fn riff_len_spec(d: Seq<u8>, start: int) -> int {
    le32_at(d, start + 4) + 8
}

/// Reads the RIFF container length from the header at `start`.
pub fn riff_length(d: &[u8], start: usize) -> (r: u64)
    requires
        start + 8 <= d@.len(),
        d@.len() + LEN_MARGIN <= usize::MAX,
    ensures
        r == riff_len_spec(d@, start as int),
{
    let b0 = d[start + 4] as u64;
    let b1 = d[start + 5] as u64;
    let b2 = d[start + 6] as u64;
    let b3 = d[start + 7] as u64;
    b0 + 0x100 * b1 + 0x1_0000 * b2 + 0x100_0000 * b3 + 8
}

/// The first offset `e >= i` where the 4-byte `IEND` marker occurs, if any.
pub open spec fn first_iend_from(d: Seq<u8>, i: int) -> Option<int>
    decreases d.len() - i,
{
    if i + 4 > d.len() {
        None
    } else if sig_iend(d, i) {
        Some(i)
    } else {
        first_iend_from(d, i + 1)
    }
}

/// The length of a PNG object starting at `start`: up to and including the
/// 8 bytes that begin at the first `IEND` marker at or after `start`; no
/// length when the blob holds no `IEND` marker after `start`.
pub open spec fn png_len_spec(d: Seq<u8>, start: int) -> Option<int> {
    match first_iend_from(d, start) {
        Some(e) => Some(e - start + 8),
        None => None,
    }
}

/// Computes the PNG object length at `start` by scanning for the first
/// `IEND` marker.
pub fn calc_png_length(d: &[u8], start: usize) -> (r: Option<usize>)
    requires
        start <= d@.len(),
        d@.len() + LEN_MARGIN <= usize::MAX,
    ensures
        match r {
            Some(l) => png_len_spec(d@, start as int) == Some(l as int),
            None => png_len_spec(d@, start as int) is None,
        },
{
    let mut i: usize = start;
    while i + 4 <= d.len()
        invariant
            start <= i,
            i <= d@.len() + 1,
            d@.len() + LEN_MARGIN <= usize::MAX,
            first_iend_from(d@, start as int) == first_iend_from(d@, i as int),
        decreases d@.len() - i,
    {
        if is_iend_at(d, i) {
            return Some(i - start + 8);
        }
        i += 1;
    }
    None
}

/// The exclusive upper bound of the JPEG end-of-image scan: the blob end
/// or `start` plus the 20 MiB window, whichever is smaller.
pub open spec fn jpeg_limit(d: Seq<u8>, start: int) -> int {
    if d.len() <= start + JPEG_WINDOW {
        d.len() as int
    } else {
        start + JPEG_WINDOW
    }
}

/// The offset just past the first `FF D9` end-of-image marker at or after
/// `q`, looking only at marker positions below `limit`.
pub open spec fn first_eoi_end_from(d: Seq<u8>, q: int, limit: int) -> Option<int>
    decreases limit - q,
{
    if q < 0 || q + 1 >= limit {
        None
    } else if d[q] == 0xFFu8 && d[q + 1] == 0xD9u8 {
        Some(q + 2)
    } else {
        first_eoi_end_from(d, q + 1, limit)
    }
}

/// The end offset of a JPEG object starting at `start`: just past the
/// first end-of-image marker found at least 2 bytes after the start-of-
/// image marker, within the 20 MiB window; no end when none is found.
pub open spec fn jpeg_end_spec(d: Seq<u8>, start: int) -> Option<int> {
    first_eoi_end_from(d, start + 2, jpeg_limit(d, start))
}

pub proof fn lemma_first_eoi_bounds(d: Seq<u8>, q: int, limit: int)
    ensures
        first_eoi_end_from(d, q, limit) matches Some(e) ==> q + 2 <= e && e <= limit,
    decreases limit - q,
{
    if q < 0 || q + 1 >= limit {
    } else if d[q] == 0xFFu8 && d[q + 1] == 0xD9u8 {
    } else {
        lemma_first_eoi_bounds(d, q + 1, limit);
    }
}

/// Scans forward from the start-of-image marker at `start` for the first
/// end-of-image marker within the 20 MiB window, returning the offset just
/// past it.
pub fn find_jpeg_end(data: &[u8], start: usize) -> (r: Option<usize>)
    requires
        start <= data@.len(),
        data@.len() + LEN_MARGIN <= usize::MAX,
    ensures
        match r {
            Some(e) => jpeg_end_spec(data@, start as int) == Some(e as int),
            None => jpeg_end_spec(data@, start as int) is None,
        },
{
    let mut p: usize = start + 2;
    let max_scan: usize = if data.len() <= start + JPEG_WINDOW {
        data.len()
    } else {
        start + JPEG_WINDOW
    };
    while p + 1 < max_scan
        invariant
            start + 2 <= p,
            p <= max_scan + 2,
            max_scan == jpeg_limit(data@, start as int),
            max_scan <= data@.len(),
            data@.len() + LEN_MARGIN <= usize::MAX,
            first_eoi_end_from(data@, start as int + 2, max_scan as int) == first_eoi_end_from(
                data@,
                p as int,
                max_scan as int,
            ),
        decreases max_scan + 2 - p,
    {
        if data[p] == 0xFF && data[p + 1] == 0xD9 {
            return Some(p + 2);
        }
        p += 1;
    }
    None
}

/// The sum of the `n` segment-size bytes stored from offset `base` on.
pub open spec fn seg_sum(d: Seq<u8>, base: int, n: int) -> nat
    decreases n,
{
    if n <= 0 {
        0
    } else {
        (seg_sum(d, base, n - 1) + d[base + n - 1]) as nat
    }
}

/// The total size of the OGG page starting at `p`: the 27 header bytes,
/// the segment table, and the segment bodies it declares.
pub open spec fn ogg_page_size(d: Seq<u8>, p: int) -> int {
    27 + d[p + 26] as int + seg_sum(d, p + 27, d[p + 26] as int)
}

/// The offset where the OGG page chain starting at `p` ends. The chain
/// stops before a page whose header or segment table would run past the
/// blob, before anything that is not an `OggS` page, and just after a page
/// whose end-of-stream flag (bit 0x04 of the flags byte) is set.
pub open spec fn ogg_chain_end(d: Seq<u8>, p: int) -> int
    decreases (if p <= d.len() { d.len() - p } else { 0 }),
{
    if !(0 <= p && p + 27 < d.len()) {
        p
    } else if !sig_oggs(d, p) {
        p
    } else if p + 27 + d[p + 26] as int > d.len() {
        p
    } else if d[p + 5] & 0x04u8 != 0u8 {
        p + ogg_page_size(d, p)
    } else {
        ogg_chain_end(d, p + ogg_page_size(d, p))
    }
}

pub proof fn lemma_ogg_chain_end_ge(d: Seq<u8>, p: int)
    ensures
        ogg_chain_end(d, p) >= p,
    decreases (if p <= d.len() { d.len() - p } else { 0 }),
{
    if !(0 <= p && p + 27 < d.len()) {
    } else if !sig_oggs(d, p) {
    } else if p + 27 + d[p + 26] as int > d.len() {
    } else if d[p + 5] & 0x04u8 != 0u8 {
    } else {
        lemma_ogg_chain_end_ge(d, p + ogg_page_size(d, p));
    }
}

/// Walks the chain of OGG pages beginning at `start` and returns the total
/// number of bytes the chain covers.
pub fn calc_ogg_length(data: &[u8], start: usize) -> (r: usize)
    requires
        start <= data@.len(),
        data@.len() + LEN_MARGIN <= usize::MAX,
    ensures
        r == ogg_chain_end(data@, start as int) - start,
{
    let mut p: usize = start;
    while p + 27 < data.len()
        invariant_except_break
            start <= p,
            p <= data@.len() + 0x1_0000,
            data@.len() + LEN_MARGIN <= usize::MAX,
            ogg_chain_end(data@, start as int) == ogg_chain_end(data@, p as int),
        ensures
            start <= p,
            ogg_chain_end(data@, start as int) == p,
        decreases data@.len() + 0x1_0000 - p,
    {
        if !is_oggs_at(data, p) {
            break ;
        }
        let segments = data[p + 26] as usize;
        if segments > data.len() - (p + 27) {
            break ;
        }
        let mut size: usize = 27 + segments;
        let mut i: usize = 0;
        while i < segments
            invariant
                i <= segments,
                segments <= 0xFF,
                p + 27 + segments <= data@.len(),
                data@.len() + LEN_MARGIN <= usize::MAX,
                size == 27 + segments + seg_sum(data@, p as int + 27, i as int),
                size <= 27 + segments + 0xFF * i,
            decreases segments - i,
        {
            size += data[p + 27 + i] as usize;
            i += 1;
        }
        let flags = data[p + 5];
        assert(size == ogg_page_size(data@, p as int));
        p += size;
        if flags & 0x04 != 0 {
            break ;
        }
    }
    p - start
}

/// The exclusive upper bound of the heuristic next-signature scan: the
/// blob end or `start` plus the 50 MiB window, whichever is smaller.
pub open spec fn heuristic_limit(d: Seq<u8>, start: int) -> int {
    if d.len() <= start + HEURISTIC_WINDOW {
        d.len() as int
    } else {
        start + HEURISTIC_WINDOW
    }
}

/// The first offset `q >= i` with `q + 4 < limit` where one of the five
/// known signature prefixes begins, if any.
pub open spec fn first_sig_from(d: Seq<u8>, q: int, limit: int) -> Option<int>
    decreases limit - q,
{
    if q + 4 >= limit {
        None
    } else if any_known_sig(d, q) {
        Some(q)
    } else {
        first_sig_from(d, q + 1, limit)
    }
}

/// The heuristic length of an object starting at `start`: the distance to
/// the next known signature prefix found at least 4 bytes further on, or
/// to the 50 MiB window limit (or blob end) when none is found.
pub open spec fn next_header_len_spec(d: Seq<u8>, start: int) -> int {
    match first_sig_from(d, start + 4, heuristic_limit(d, start)) {
        Some(q) => q - start,
        None => heuristic_limit(d, start) - start,
    }
}

/// Scans forward from `start` for the next occurrence of any known
/// signature prefix within the 50 MiB window; the distance to it (or to
/// the window limit) is taken as the current object's length.
pub fn scan_until_next_header(data: &[u8], start: usize) -> (r: usize)
    requires
        start <= data@.len(),
        data@.len() + LEN_MARGIN <= usize::MAX,
    ensures
        r == next_header_len_spec(data@, start as int),
{
    let mut p: usize = start + 4;
    let limit: usize = if data.len() <= start + HEURISTIC_WINDOW {
        data.len()
    } else {
        start + HEURISTIC_WINDOW
    };
    while p + 4 < limit
        invariant
            start + 4 <= p,
            p <= limit + 4,
            limit == heuristic_limit(data@, start as int),
            limit <= data@.len(),
            data@.len() + LEN_MARGIN <= usize::MAX,
            first_sig_from(data@, start as int + 4, limit as int) == first_sig_from(
                data@,
                p as int,
                limit as int,
            ),
        decreases limit + 4 - p,
    {
        if is_any_known_sig_at(data, p) {
            return p - start;
        }
        p += 1;
    }
    limit - start
}

} // verus!
