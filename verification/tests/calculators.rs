use carver::calc::{calc_ogg_length, calc_png_length, find_jpeg_end, riff_length, scan_until_next_header};

fn ogg_page(flags: u8, segment_sizes: &[u8]) -> Vec<u8> {
    let mut page = Vec::new();
    page.extend_from_slice(b"OggS");
    page.push(0); // version
    page.push(flags);
    page.extend_from_slice(&[0u8; 20]); // granule, serial, sequence, checksum
    page.push(segment_sizes.len() as u8);
    page.extend_from_slice(segment_sizes);
    for &s in segment_sizes {
        page.extend_from_slice(&vec![0x11u8; s as usize]);
    }
    page
}

#[test]
fn riff_length_is_size_field_plus_8() {
    let mut blob = Vec::new();
    blob.extend_from_slice(b"RIFF");
    blob.extend_from_slice(&0x100u32.to_le_bytes());
    blob.extend_from_slice(b"WAVE");
    assert_eq!(riff_length(&blob, 0), 0x100 + 8);
}

#[test]
fn riff_length_reads_little_endian() {
    let mut blob = Vec::new();
    blob.extend_from_slice(b"RIFF");
    blob.extend_from_slice(&[0x01, 0x02, 0x03, 0x04]);
    blob.extend_from_slice(b"WAVE");
    assert_eq!(riff_length(&blob, 0), 0x04030201 + 8);
}

#[test]
fn png_length_stops_8_bytes_after_iend() {
    // signature + chunk bytes + IEND + 4 trailer bytes + trailing junk
    let mut blob = Vec::new();
    blob.extend_from_slice(b"\x89PNG\r\n\x1a\n");
    blob.extend_from_slice(&vec![0x22u8; 180]);
    blob.extend_from_slice(b"IEND");
    blob.extend_from_slice(&[0xAA, 0xBB, 0xCC, 0xDD]); // CRC
    blob.extend_from_slice(&vec![0x33u8; 64]); // unrelated trailing bytes
    // IEND begins at 8 + 180 = 188, so the object is 188 + 8 = 196 bytes
    assert_eq!(calc_png_length(&blob, 0), Some(196));
}

#[test]
fn png_without_iend_is_no_match() {
    let mut blob = Vec::new();
    blob.extend_from_slice(b"\x89PNG\r\n\x1a\n");
    blob.extend_from_slice(&vec![0x22u8; 300]);
    assert_eq!(calc_png_length(&blob, 0), None);
}

#[test]
fn jpeg_end_is_just_past_the_eoi_marker() {
    let mut blob = Vec::new();
    blob.extend_from_slice(b"\xFF\xD8\xFF");
    blob.extend_from_slice(&vec![0x00u8; 180]);
    blob.extend_from_slice(b"\xFF\xD9");
    blob.extend_from_slice(&vec![0x44u8; 30]);
    // the marker begins at 3 + 180 = 183, so the end is 185
    assert_eq!(find_jpeg_end(&blob, 0), Some(185));
}

#[test]
fn jpeg_spurious_soi_without_eoi_is_no_match() {
    let mut blob = Vec::new();
    blob.extend_from_slice(b"\xFF\xD8\xFF");
    blob.extend_from_slice(&vec![0x00u8; 300]);
    assert_eq!(find_jpeg_end(&blob, 0), None);
}

#[test]
fn ogg_two_page_chain_consumes_both_pages() {
    // page 1: end-of-stream flag unset; page 2: set
    let mut blob = ogg_page(0x00, &[100]);
    let page1_len = blob.len();
    assert_eq!(page1_len, 27 + 1 + 100);
    let page2 = ogg_page(0x04, &[80]);
    let page2_len = page2.len();
    blob.extend_from_slice(&page2);
    assert_eq!(calc_ogg_length(&blob, 0), page1_len + page2_len);
}

#[test]
fn ogg_length_is_idempotent() {
    let mut blob = ogg_page(0x00, &[100, 50]);
    blob.extend_from_slice(&ogg_page(0x04, &[80]));
    blob.extend_from_slice(&vec![0x55u8; 40]);
    let first = calc_ogg_length(&blob, 0);
    let second = calc_ogg_length(&blob, 0);
    assert_eq!(first, second);
}

#[test]
fn ogg_chain_stops_where_the_next_page_is_missing() {
    let mut blob = ogg_page(0x00, &[100]);
    let page1_len = blob.len();
    blob.extend_from_slice(&vec![0x66u8; 200]); // not an OggS page
    assert_eq!(calc_ogg_length(&blob, 0), page1_len);
}

#[test]
fn ogg_at_non_page_bytes_has_length_zero() {
    let blob = vec![0x42u8; 100];
    assert_eq!(calc_ogg_length(&blob, 0), 0);
}

#[test]
fn ogg_truncated_segment_table_stops_the_chain() {
    // a page header that declares more segment-table bytes than the blob holds
    let mut blob = Vec::new();
    blob.extend_from_slice(b"OggS");
    blob.push(0);
    blob.push(0);
    blob.extend_from_slice(&[0u8; 20]);
    blob.push(255); // 255 segment sizes declared
    blob.extend_from_slice(&[10u8; 5]); // only 5 present
    assert_eq!(calc_ogg_length(&blob, 0), 0);
}

#[test]
fn next_header_scan_finds_the_next_signature() {
    let mut blob = Vec::new();
    blob.extend_from_slice(b"\x1A\x45\xDF\xA3");
    blob.extend_from_slice(&vec![0x00u8; 146]);
    blob.extend_from_slice(b"RIFF");
    blob.extend_from_slice(&vec![0x00u8; 40]);
    assert_eq!(scan_until_next_header(&blob, 0), 150);
}

#[test]
fn next_header_scan_without_a_signature_reaches_the_blob_end() {
    let mut blob = Vec::new();
    blob.extend_from_slice(b"ID3");
    blob.extend_from_slice(&vec![0x01u8; 297]);
    assert_eq!(scan_until_next_header(&blob, 0), 300);
}

#[test]
fn next_header_scan_ignores_signatures_in_the_first_4_bytes() {
    // a signature right at the start must not end the object immediately
    let mut blob = Vec::new();
    blob.extend_from_slice(b"OggS");
    blob.extend_from_slice(&vec![0x00u8; 60]);
    blob.extend_from_slice(b"UnityFS");
    blob.extend_from_slice(&vec![0x00u8; 29]);
    assert_eq!(scan_until_next_header(&blob, 0), 64);
}
