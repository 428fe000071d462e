//! Tests for the byte-size and elapsed-time formatting helpers.

use devdust_core::{format_elapsed_time, format_size};
use devdust_core::text::u64_to_string;

#[test]
fn test_format_size() {
    assert_eq!(format_size(0), "0 B");
    assert_eq!(format_size(512), "512.0 B");
    assert_eq!(format_size(1024), "1.0 KB");
    assert_eq!(format_size(1536), "1.5 KB");
    assert_eq!(format_size(1_048_576), "1.0 MB");
    assert_eq!(format_size(1_073_741_824), "1.0 GB");
}

#[test]
fn test_format_size_more_units() {
    assert_eq!(format_size(1), "1.0 B");
    assert_eq!(format_size(1023), "1023.0 B");
    assert_eq!(format_size(1_099_511_627_776), "1.0 TB");
    assert_eq!(format_size(1_125_899_906_842_624), "1.0 PB");
    // Past petabytes the unit stays at PB.
    assert_eq!(format_size(2_251_799_813_685_248), "2.0 PB");
}

#[test]
fn test_format_size_rounding() {
    // 1535 / 1024 = 1.499...: rounds up to 1.5.
    assert_eq!(format_size(1535), "1.5 KB");
    // 1588 / 1024 = 1.55078...: rounds up to 1.6.
    assert_eq!(format_size(1588), "1.6 KB");
    // Just under the next unit the tenths carry into the whole part.
    assert_eq!(format_size(1_048_575), "1024.0 KB");
}

#[test]
fn test_format_size_ties_round_to_even() {
    // 1280 / 1024 = 1.25 exactly: the tie goes down to the even tenth.
    assert_eq!(format_size(1280), "1.2 KB");
    // 2304 / 1024 = 2.25 exactly: down again.
    assert_eq!(format_size(2304), "2.2 KB");
    // 3840 / 1024 = 3.75 exactly: the even neighbour lies above.
    assert_eq!(format_size(3840), "3.8 KB");
}

#[test]
fn test_format_elapsed_time() {
    assert_eq!(format_elapsed_time(0), "0 seconds ago");
    assert_eq!(format_elapsed_time(1), "1 second ago");
    assert_eq!(format_elapsed_time(59), "59 seconds ago");
    assert_eq!(format_elapsed_time(60), "1 minute ago");
    assert_eq!(format_elapsed_time(3600), "1 hour ago");
    assert_eq!(format_elapsed_time(86400), "1 day ago");
}

#[test]
fn test_format_elapsed_time_more_units() {
    assert_eq!(format_elapsed_time(120), "2 minutes ago");
    assert_eq!(format_elapsed_time(7200), "2 hours ago");
    assert_eq!(format_elapsed_time(604800), "1 week ago");
    assert_eq!(format_elapsed_time(2_592_000), "1 month ago");
    assert_eq!(format_elapsed_time(31_536_000), "1 year ago");
    assert_eq!(format_elapsed_time(63_072_000), "2 years ago");
}

#[test]
fn test_u64_to_string() {
    assert_eq!(u64_to_string(0), "0");
    assert_eq!(u64_to_string(7), "7");
    assert_eq!(u64_to_string(1234), "1234");
    assert_eq!(u64_to_string(u64::MAX), "18446744073709551615");
}
