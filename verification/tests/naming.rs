use carver::paths::{artifact_file_name, artifact_sequence, get_unique_subfolder, subfolder_candidate, u64_to_dec};
use carver::scan::Match;
use carver::sig::{tag_ext, FormatTag};

#[test]
fn decimal_rendering_is_exact() {
    assert_eq!(u64_to_dec(0), "0");
    assert_eq!(u64_to_dec(7), "7");
    assert_eq!(u64_to_dec(10), "10");
    assert_eq!(u64_to_dec(128), "128");
    assert_eq!(u64_to_dec(98765), "98765");
}

#[test]
fn tag_extensions_are_exact() {
    assert_eq!(tag_ext(FormatTag::Wav), "wav");
    assert_eq!(tag_ext(FormatTag::Webp), "webp");
    assert_eq!(tag_ext(FormatTag::Png), "png");
    assert_eq!(tag_ext(FormatTag::Ogg), "ogg");
    assert_eq!(tag_ext(FormatTag::Jpg), "jpg");
    assert_eq!(tag_ext(FormatTag::Webm), "webm");
    assert_eq!(tag_ext(FormatTag::Mp3), "mp3");
    assert_eq!(tag_ext(FormatTag::Assets), "assets");
}

#[test]
fn subfolder_candidates_follow_the_probe_order() {
    assert_eq!(subfolder_candidate("png", 0), "png");
    assert_eq!(subfolder_candidate("png", 1), "png (1)");
    assert_eq!(subfolder_candidate("png", 12), "png (12)");
}

#[test]
fn unique_subfolder_uses_the_plain_name_when_free() {
    let existing: Vec<String> = vec!["wav".to_string(), "other".to_string()];
    assert_eq!(get_unique_subfolder(&existing, "png"), "png");
}

#[test]
fn unique_subfolder_suffixes_when_the_name_is_taken() {
    // a second run into the same root must not reuse the first run's folder
    let existing: Vec<String> = vec!["png".to_string()];
    assert_eq!(get_unique_subfolder(&existing, "png"), "png (1)");
}

#[test]
fn unique_subfolder_takes_the_first_free_suffix() {
    let existing: Vec<String> =
        vec!["png".to_string(), "png (1)".to_string(), "png (3)".to_string()];
    assert_eq!(get_unique_subfolder(&existing, "png"), "png (2)");
}

#[test]
fn unique_subfolder_on_an_empty_root() {
    let existing: Vec<String> = Vec::new();
    assert_eq!(get_unique_subfolder(&existing, "ogg"), "ogg");
}

#[test]
fn artifact_names_carry_sequence_number_and_extension() {
    assert_eq!(artifact_file_name(FormatTag::Wav, 1), "file_1.wav");
    assert_eq!(artifact_file_name(FormatTag::Png, 1), "file_1.png");
    assert_eq!(artifact_file_name(FormatTag::Jpg, 3), "file_3.jpg");
    assert_eq!(artifact_file_name(FormatTag::Assets, 12), "file_12.assets");
}

#[test]
fn sequence_numbers_count_per_tag_in_scan_order() {
    let matches = vec![
        Match { tag: FormatTag::Wav, start: 0, len: 200 },
        Match { tag: FormatTag::Png, start: 200, len: 300 },
        Match { tag: FormatTag::Wav, start: 500, len: 150 },
        Match { tag: FormatTag::Wav, start: 650, len: 129 },
        Match { tag: FormatTag::Png, start: 779, len: 200 },
    ];
    assert_eq!(artifact_sequence(&matches), vec![1, 1, 2, 3, 2]);
}

#[test]
fn sequence_numbers_of_no_matches() {
    let matches: Vec<Match> = Vec::new();
    assert_eq!(artifact_sequence(&matches), Vec::<usize>::new());
}
