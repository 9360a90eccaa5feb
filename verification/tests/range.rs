//! Comparing bodies with files.

use locally_euclidean::range::{check_range_matches, RangeMatch};

fn verdict(body: &[&str], start: u64, file: &str) -> RangeMatch {
    let stream: Vec<Vec<u8>> = body.iter().map(|chunk| chunk.as_bytes().to_vec()).collect();
    check_range_matches(&stream, start, &file.as_bytes().to_vec())
}

#[test]
fn test_check_range_matches() {
    assert_eq!(verdict(&["kitty meow", "creature"], 0, "kitty meowcreature"), RangeMatch::Matches);
}

#[test]
fn range_of_a_shorter_file() {
    assert_eq!(verdict(&["kitty"], 0, "kitt"), RangeMatch::LengthMismatch);
    // The length decides even if the data differs, too.
    assert_eq!(verdict(&["puppy"], 0, "kitt"), RangeMatch::LengthMismatch);
    assert_eq!(verdict(&["kit", "ty"], 0, "kitt"), RangeMatch::LengthMismatch);
}

#[test]
fn range_of_a_longer_file() {
    assert_eq!(verdict(&["kitty"], 0, "kitty meow"), RangeMatch::LengthMismatch);
    assert_eq!(verdict(&[], 0, "k"), RangeMatch::LengthMismatch);
    assert_eq!(verdict(&[], 0, ""), RangeMatch::Matches);
}

#[test]
fn range_of_other_data() {
    assert_eq!(verdict(&["kitty"], 0, "kitti"), RangeMatch::DataMismatch);
    // The first chunk that differs decides.
    assert_eq!(verdict(&["ki", "tty meow"], 0, "ko"), RangeMatch::DataMismatch);
}

#[test]
fn range_from_a_position() {
    assert_eq!(verdict(&["me", "ow"], 6, "kitty meow"), RangeMatch::Matches);
    assert_eq!(verdict(&["meow"], 5, "kitty meow"), RangeMatch::DataMismatch);
    // This might seek off the end of the file. However, that's okay.
    assert_eq!(verdict(&[], 100, "kitty meow"), RangeMatch::Matches);
    assert_eq!(verdict(&[""], u64::MAX, "kitty meow"), RangeMatch::Matches);
    assert_eq!(verdict(&["m"], 100, "kitty meow"), RangeMatch::LengthMismatch);
}
