use rs3::object::format_size;
use rs3::text::{concat2, concat3, pad_right, str_eq, str_starts_with, u64_to_dec};

#[test]
fn size_zero_bytes() {
    assert_eq!(format_size(0), "0.00 B");
}

#[test]
fn size_one_kilobyte() {
    assert_eq!(format_size(1024), "1.00 KB");
}

#[test]
fn size_one_megabyte() {
    assert_eq!(format_size(1_048_576), "1.00 MB");
}

#[test]
fn size_just_under_one_kilobyte() {
    assert_eq!(format_size(1023), "1023.00 B");
}

#[test]
fn size_fractional_kilobytes() {
    assert_eq!(format_size(1536), "1.50 KB");
    assert_eq!(format_size(1535), "1.50 KB");
    assert_eq!(format_size(1434), "1.40 KB");
}

#[test]
fn size_rounds_up_into_whole_part() {
    assert_eq!(format_size(1_048_575), "1024.00 KB");
    assert_eq!(format_size(1_073_741_823), "1024.00 MB");
}

#[test]
fn size_gigabytes_and_terabytes() {
    assert_eq!(format_size(1_073_741_824), "1.00 GB");
    assert_eq!(format_size(1_099_511_627_776), "1.00 TB");
    assert_eq!(format_size(5_368_709_120), "5.00 GB");
}

#[test]
fn size_largest_u64() {
    assert_eq!(format_size(u64::MAX), "16.00 EB");
}

#[test]
fn decimal_rendering() {
    assert_eq!(u64_to_dec(0), "0");
    assert_eq!(u64_to_dec(7), "7");
    assert_eq!(u64_to_dec(1234567890123456789), "1234567890123456789");
}

#[test]
fn padding() {
    assert_eq!(pad_right("ab", 5), "ab   ");
    assert_eq!(pad_right("abcdef", 3), "abcdef");
    assert_eq!(pad_right("", 2), "  ");
}

#[test]
fn string_helpers() {
    assert!(str_eq("abc", "abc"));
    assert!(!str_eq("abc", "abd"));
    assert!(!str_eq("abc", "ab"));
    assert!(str_starts_with("x/a.txt", "x/"));
    assert!(!str_starts_with("y/a.txt", "x/"));
    assert!(str_starts_with("anything", ""));
    assert_eq!(concat2("a", "b"), "ab");
    assert_eq!(concat3("a", "/", "b"), "a/b");
}
