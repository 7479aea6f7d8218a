//! The signature table: which known format, if any, begins at a given
//! offset of a blob, decided by fixed magic byte sequences.

use vstd::prelude::*;

verus! {

/// The format of one embedded object that the scanner can recognize.
#[derive(Clone, Copy, PartialEq, Eq, Structural, Debug)]
pub enum FormatTag {
    Wav,
    Webp,
    Png,
    Ogg,
    Jpg,
    Webm,
    Mp3,
    Assets,
}

/// `RIFF` at offset `p`.
pub open spec fn sig_riff(d: Seq<u8>, p: int) -> bool {
    &&& 0 <= p
    &&& p + 4 <= d.len()
    &&& d[p] == 0x52u8
    &&& d[p + 1] == 0x49u8
    &&& d[p + 2] == 0x46u8
    &&& d[p + 3] == 0x46u8
}

/// `WAVE` at offset `p + 8`, inside a RIFF header.
pub open spec fn sig_wave(d: Seq<u8>, p: int) -> bool {
    &&& 0 <= p
    &&& p + 12 <= d.len()
    &&& d[p + 8] == 0x57u8
    &&& d[p + 9] == 0x41u8
    &&& d[p + 10] == 0x56u8
    &&& d[p + 11] == 0x45u8
}

/// `WEBP` at offset `p + 8`, inside a RIFF header.
pub open spec fn sig_webp(d: Seq<u8>, p: int) -> bool {
    &&& 0 <= p
    &&& p + 12 <= d.len()
    &&& d[p + 8] == 0x57u8
    &&& d[p + 9] == 0x45u8
    &&& d[p + 10] == 0x42u8
    &&& d[p + 11] == 0x50u8
}

/// The full 8-byte PNG signature at offset `p`.
pub open spec fn sig_png8(d: Seq<u8>, p: int) -> bool {
    &&& 0 <= p
    &&& p + 8 <= d.len()
    &&& d[p] == 0x89u8
    &&& d[p + 1] == 0x50u8
    &&& d[p + 2] == 0x4Eu8
    &&& d[p + 3] == 0x47u8
    &&& d[p + 4] == 0x0Du8
    &&& d[p + 5] == 0x0Au8
    &&& d[p + 6] == 0x1Au8
    &&& d[p + 7] == 0x0Au8
}

/// The 4-byte PNG signature prefix at offset `p`.
pub open spec fn sig_png4(d: Seq<u8>, p: int) -> bool {
    &&& 0 <= p
    &&& p + 4 <= d.len()
    &&& d[p] == 0x89u8
    &&& d[p + 1] == 0x50u8
    &&& d[p + 2] == 0x4Eu8
    &&& d[p + 3] == 0x47u8
}

/// `OggS` at offset `p`.
pub open spec fn sig_oggs(d: Seq<u8>, p: int) -> bool {
    &&& 0 <= p
    &&& p + 4 <= d.len()
    &&& d[p] == 0x4Fu8
    &&& d[p + 1] == 0x67u8
    &&& d[p + 2] == 0x67u8
    &&& d[p + 3] == 0x53u8
}

/// The 3-byte JPEG start-of-image marker at offset `p`.
pub open spec fn sig_soi3(d: Seq<u8>, p: int) -> bool {
    &&& 0 <= p
    &&& p + 3 <= d.len()
    &&& d[p] == 0xFFu8
    &&& d[p + 1] == 0xD8u8
    &&& d[p + 2] == 0xFFu8
}

/// The 4-byte EBML header (WEBM) at offset `p`.
pub open spec fn sig_ebml(d: Seq<u8>, p: int) -> bool {
    &&& 0 <= p
    &&& p + 4 <= d.len()
    &&& d[p] == 0x1Au8
    &&& d[p + 1] == 0x45u8
    &&& d[p + 2] == 0xDFu8
    &&& d[p + 3] == 0xA3u8
}

/// `ID3` (MP3 metadata header) at offset `p`.
pub open spec fn sig_id3(d: Seq<u8>, p: int) -> bool {
    &&& 0 <= p
    &&& p + 3 <= d.len()
    &&& d[p] == 0x49u8
    &&& d[p + 1] == 0x44u8
    &&& d[p + 2] == 0x33u8
}

/// `UnityFS` at offset `p`.
pub open spec fn sig_unityfs(d: Seq<u8>, p: int) -> bool {
    &&& 0 <= p
    &&& p + 7 <= d.len()
    &&& d[p] == 0x55u8
    &&& d[p + 1] == 0x6Eu8
    &&& d[p + 2] == 0x69u8
    &&& d[p + 3] == 0x74u8
    &&& d[p + 4] == 0x79u8
    &&& d[p + 5] == 0x46u8
    &&& d[p + 6] == 0x53u8
}

/// `IEND` (the PNG trailer chunk type) at offset `p`.
pub open spec fn sig_iend(d: Seq<u8>, p: int) -> bool {
    &&& 0 <= p
    &&& p + 4 <= d.len()
    &&& d[p] == 0x49u8
    &&& d[p + 1] == 0x45u8
    &&& d[p + 2] == 0x4Eu8
    &&& d[p + 3] == 0x44u8
}

/// Any of the five signature prefixes that the bounded heuristic scans for.
pub open spec fn any_known_sig(d: Seq<u8>, p: int) -> bool {
    ||| sig_riff(d, p)
    ||| sig_oggs(d, p)
    ||| sig_soi3(d, p)
    ||| sig_png4(d, p)
    ||| sig_unityfs(d, p)
}

pub fn is_riff_at(d: &[u8], p: usize) -> (b: bool)
    requires
        p <= d@.len(),
        d@.len() < usize::MAX - 16,
    ensures
        b == sig_riff(d@, p as int),
{
    p + 4 <= d.len() && d[p] == 0x52 && d[p + 1] == 0x49 && d[p + 2] == 0x46 && d[p + 3] == 0x46
}

pub fn is_wave_at(d: &[u8], p: usize) -> (b: bool)
    requires
        p <= d@.len(),
        d@.len() < usize::MAX - 16,
    ensures
        b == sig_wave(d@, p as int),
{
    p + 12 <= d.len() && d[p + 8] == 0x57 && d[p + 9] == 0x41 && d[p + 10] == 0x56 && d[p + 11]
        == 0x45
}

pub fn is_webp_at(d: &[u8], p: usize) -> (b: bool)
    requires
        p <= d@.len(),
        d@.len() < usize::MAX - 16,
    ensures
        b == sig_webp(d@, p as int),
{
    p + 12 <= d.len() && d[p + 8] == 0x57 && d[p + 9] == 0x45 && d[p + 10] == 0x42 && d[p + 11]
        == 0x50
}

pub fn is_png8_at(d: &[u8], p: usize) -> (b: bool)
    requires
        p <= d@.len(),
        d@.len() < usize::MAX - 16,
    ensures
        b == sig_png8(d@, p as int),
{
    p + 8 <= d.len() && d[p] == 0x89 && d[p + 1] == 0x50 && d[p + 2] == 0x4E && d[p + 3] == 0x47
        && d[p + 4] == 0x0D && d[p + 5] == 0x0A && d[p + 6] == 0x1A && d[p + 7] == 0x0A
}

pub fn is_png4_at(d: &[u8], p: usize) -> (b: bool)
    requires
        p <= d@.len(),
        d@.len() < usize::MAX - 16,
    ensures
        b == sig_png4(d@, p as int),
{
    p + 4 <= d.len() && d[p] == 0x89 && d[p + 1] == 0x50 && d[p + 2] == 0x4E && d[p + 3] == 0x47
}

pub fn is_oggs_at(d: &[u8], p: usize) -> (b: bool)
    requires
        p <= d@.len(),
        d@.len() < usize::MAX - 16,
    ensures
        b == sig_oggs(d@, p as int),
{
    p + 4 <= d.len() && d[p] == 0x4F && d[p + 1] == 0x67 && d[p + 2] == 0x67 && d[p + 3] == 0x53
}

pub fn is_soi3_at(d: &[u8], p: usize) -> (b: bool)
    requires
        p <= d@.len(),
        d@.len() < usize::MAX - 16,
    ensures
        b == sig_soi3(d@, p as int),
{
    p + 3 <= d.len() && d[p] == 0xFF && d[p + 1] == 0xD8 && d[p + 2] == 0xFF
}

pub fn is_ebml_at(d: &[u8], p: usize) -> (b: bool)
    requires
        p <= d@.len(),
        d@.len() < usize::MAX - 16,
    ensures
        b == sig_ebml(d@, p as int),
{
    p + 4 <= d.len() && d[p] == 0x1A && d[p + 1] == 0x45 && d[p + 2] == 0xDF && d[p + 3] == 0xA3
}

pub fn is_id3_at(d: &[u8], p: usize) -> (b: bool)
    requires
        p <= d@.len(),
        d@.len() < usize::MAX - 16,
    ensures
        b == sig_id3(d@, p as int),
{
    p + 3 <= d.len() && d[p] == 0x49 && d[p + 1] == 0x44 && d[p + 2] == 0x33
}

pub fn is_unityfs_at(d: &[u8], p: usize) -> (b: bool)
    requires
        p <= d@.len(),
        d@.len() < usize::MAX - 16,
    ensures
        b == sig_unityfs(d@, p as int),
{
    p + 7 <= d.len() && d[p] == 0x55 && d[p + 1] == 0x6E && d[p + 2] == 0x69 && d[p + 3] == 0x74
        && d[p + 4] == 0x79 && d[p + 5] == 0x46 && d[p + 6] == 0x53
}

pub fn is_iend_at(d: &[u8], p: usize) -> (b: bool)
    requires
        p <= d@.len(),
        d@.len() < usize::MAX - 16,
    ensures
        b == sig_iend(d@, p as int),
{
    p + 4 <= d.len() && d[p] == 0x49 && d[p + 1] == 0x45 && d[p + 2] == 0x4E && d[p + 3] == 0x44
}

pub fn is_any_known_sig_at(d: &[u8], p: usize) -> (b: bool)
    requires
        p <= d@.len(),
        d@.len() < usize::MAX - 16,
    ensures
        b == any_known_sig(d@, p as int),
{
    is_riff_at(d, p) || is_oggs_at(d, p) || is_soi3_at(d, p) || is_png4_at(d, p) || is_unityfs_at(
        d,
        p,
    )
}

/// The file extension used for artifacts of this format; also the name of
/// the per-format output subfolder.
pub open spec fn spec_tag_ext(tag: FormatTag) -> Seq<char> {
    match tag {
        FormatTag::Wav => "wav"@,
        FormatTag::Webp => "webp"@,
        FormatTag::Png => "png"@,
        FormatTag::Ogg => "ogg"@,
        FormatTag::Jpg => "jpg"@,
        FormatTag::Webm => "webm"@,
        FormatTag::Mp3 => "mp3"@,
        FormatTag::Assets => "assets"@,
    }
}

pub fn tag_ext(tag: FormatTag) -> (r: &'static str)
    ensures
        r@ == spec_tag_ext(tag),
{
    match tag {
        FormatTag::Wav => "wav",
        FormatTag::Webp => "webp",
        FormatTag::Png => "png",
        FormatTag::Ogg => "ogg",
        FormatTag::Jpg => "jpg",
        FormatTag::Webm => "webm",
        FormatTag::Mp3 => "mp3",
        FormatTag::Assets => "assets",
    }
}

} // verus!
