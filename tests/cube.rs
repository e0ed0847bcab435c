use cch23::cube::{cube_bits, cube_bits_of_segments};

fn segments(path: &str) -> Vec<String> {
    path.split('/').map(|s| s.to_string()).collect()
}

#[test]
fn day_one_test_cube_bits() {
    assert_eq!(cube_bits(&vec![4, 8]), 1728);
    assert_eq!(cube_bits(&vec![10]), 1000);
    assert_eq!(cube_bits(&vec![4, 5, 8, 10]), 27);
}

#[test]
fn main_test_cube_bits() {
    assert_eq!(cube_bits_of_segments(&segments("4/8")), Some("1728".to_string()));
    assert_eq!(cube_bits_of_segments(&segments("10")), Some("1000".to_string()));
    assert_eq!(cube_bits_of_segments(&segments("4/5/8/10")), Some("27".to_string()));
}

#[test]
fn cube_bits_ignores_order() {
    assert_eq!(cube_bits(&vec![10, 8, 5, 4]), cube_bits(&vec![4, 5, 8, 10]));
    assert_eq!(cube_bits(&vec![8, 4]), 1728);
}

#[test]
fn cube_bits_wraps_like_i32() {
    assert_eq!(cube_bits(&vec![2000]), -589934592);
    assert_eq!(cube_bits(&vec![-3]), -27);
    assert_eq!(cube_bits(&vec![i32::MIN]), 0);
    assert_eq!(cube_bits(&vec![7, 7]), 0);
}

#[test]
fn cube_bits_of_twenty_packets() {
    let nums: Vec<i32> = (1..=20).collect();
    // 1 ^ 2 ^ ... ^ 20 == 20
    assert_eq!(cube_bits(&nums), 8000);
}

#[test]
fn segments_with_signs_parse() {
    assert_eq!(cube_bits_of_segments(&segments("-3")), Some("-27".to_string()));
    assert_eq!(cube_bits_of_segments(&segments("+2")), Some("8".to_string()));
}

#[test]
fn bad_segments_are_rejected() {
    assert_eq!(cube_bits_of_segments(&segments("4/x")), None);
    assert_eq!(cube_bits_of_segments(&segments("2147483648")), None);
    assert_eq!(cube_bits_of_segments(&segments("")), None);
    assert_eq!(cube_bits_of_segments(&segments("-")), None);
}
