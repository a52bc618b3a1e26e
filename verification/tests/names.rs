use mkcbz::names::{decimal_width, entry_name, temp_dir_name_for};

#[test]
fn entry_names_are_zero_padded() {
    assert_eq!(entry_name(7, 3), b"007.avif".to_vec());
    assert_eq!(entry_name(1, 1), b"1.avif".to_vec());
    assert_eq!(entry_name(42, 5), b"00042.avif".to_vec());
}

#[test]
fn entry_names_longer_than_padding_are_kept_whole() {
    assert_eq!(entry_name(1234, 2), b"1234.avif".to_vec());
    assert_eq!(entry_name(0, 0), b"0.avif".to_vec());
    assert_eq!(entry_name(10, 0), b"10.avif".to_vec());
}

#[test]
fn entry_names_match_format() {
    for index in [0usize, 1, 9, 10, 99, 100, 12345, usize::MAX] {
        for width in 0..25usize {
            let expected = format!("{:0fill$}.avif", index, fill = width);
            assert_eq!(entry_name(index, width), expected.into_bytes());
        }
    }
}

#[test]
fn decimal_widths() {
    assert_eq!(decimal_width(0), 1);
    assert_eq!(decimal_width(9), 1);
    assert_eq!(decimal_width(10), 2);
    assert_eq!(decimal_width(99), 2);
    assert_eq!(decimal_width(100), 3);
    assert_eq!(decimal_width(usize::MAX), usize::MAX.to_string().len());
}

#[test]
fn temp_dir_names() {
    assert_eq!(temp_dir_name_for("mkcbz", 0x00C0_FFEE), b"mkcbz-00c0ffee".to_vec());
    assert_eq!(temp_dir_name_for("mkcbz", 0), b"mkcbz-00000000".to_vec());
    assert_eq!(temp_dir_name_for("x", u32::MAX), b"x-ffffffff".to_vec());
    assert_eq!(temp_dir_name_for("", 0x1A2B_3C4D), b"-1a2b3c4d".to_vec());
}

#[test]
fn temp_dir_names_match_format() {
    for nanos in [0u32, 1, 15, 16, 255, 999_999_999, 0x8000_0000, u32::MAX] {
        let expected = format!("{}-{:08x}", "mkcbz", nanos);
        assert_eq!(temp_dir_name_for("mkcbz", nanos), expected.into_bytes());
    }
}

#[test]
fn names_within_the_count_sort_in_page_order() {
    for count in [1usize, 9, 10, 11, 99, 100, 1234] {
        let width = decimal_width(count);
        let names: Vec<Vec<u8>> = (1..=count).map(|i| entry_name(i, width)).collect();
        for pair in names.windows(2) {
            assert_eq!(pair[0].len(), pair[1].len());
            assert!(pair[0] < pair[1]);
        }
    }
}

#[test]
fn distinct_numbers_give_distinct_names() {
    for width in 0..4usize {
        let mut names: Vec<Vec<u8>> = (0..1200usize).map(|i| entry_name(i, width)).collect();
        names.sort();
        names.dedup();
        assert_eq!(names.len(), 1200);
    }
}
