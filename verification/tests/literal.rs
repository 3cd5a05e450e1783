use elfprobe::either::Either;
use elfprobe::literal::{is_bin, is_hex};

#[test]
fn is_hex_literal() {
    let result: bool = is_hex("0x12aB");
    assert_eq!(result, true);
}

#[test]
fn is_not_hex_literal() {
    let result: bool = is_hex("112");
    assert_eq!(result, false);
}

#[test]
fn is_bin_literal() {
    let result: bool = is_bin("0b10110");
    assert_eq!(result, true);
}

#[test]
fn is_not_bin_literal() {
    let result: bool = is_bin("0x123");
    assert_eq!(result, false);
}

#[test]
fn literal_prefixes_alone() {
    assert!(is_hex("0x"));
    assert!(is_bin("0b"));
    assert!(!is_hex("0"));
    assert!(!is_hex("0xG1"));
    assert!(!is_bin("0b12"));
}

#[test]
fn either_unwraps_its_side() {
    let left: Either<u32, &str> = Either::Left(7);
    assert_eq!(left.unwrap_left(), 7);
    let right: Either<u32, &str> = Either::Right("dada");
    assert_eq!(right.unwrap_right(), "dada");
}
