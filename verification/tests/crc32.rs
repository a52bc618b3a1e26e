use mkcbz::crc32::Crc32;

fn checksum(data: &[u8]) -> u32 {
    let mut crc = Crc32::new();
    crc.update(data);
    crc.sum()
}

fn bitwise_crc32(data: &[u8]) -> u32 {
    let mut c: u32 = 0xFFFF_FFFF;
    for &b in data {
        c ^= b as u32;
        for _ in 0..8 {
            c = if c & 1 == 1 { (c >> 1) ^ 0xEDB8_8320 } else { c >> 1 };
        }
    }
    !c
}

#[test]
fn empty_input_has_checksum_zero() {
    assert_eq!(Crc32::new().sum(), 0);
    assert_eq!(checksum(&[]), 0);
}

#[test]
fn check_value_of_digits() {
    assert_eq!(checksum(b"123456789"), 0xCBF4_3926);
}

#[test]
fn check_value_of_sentence() {
    assert_eq!(checksum(b"The quick brown fox jumps over the lazy dog"), 0x414F_A339);
}

#[test]
fn single_bytes() {
    assert_eq!(checksum(b"a"), 0xE8B7_BE43);
    assert_eq!(checksum(&[0x00]), 0xD202_EF8D);
    assert_eq!(checksum(&[0xFF]), 0xFF00_0000);
}

#[test]
fn chunks_give_the_checksum_of_the_whole() {
    let data: Vec<u8> = (0..10_000u32).map(|i| (i * 31 + 7) as u8).collect();
    let whole = checksum(&data);
    for split in [0usize, 1, 255, 4096, 8192, 9_999, 10_000] {
        let mut crc = Crc32::new();
        crc.update(&data[..split]);
        crc.update(&data[split..]);
        assert_eq!(crc.sum(), whole);
    }
    let mut crc = Crc32::new();
    for chunk in data.chunks(8192) {
        crc.update(chunk);
    }
    assert_eq!(crc.sum(), whole);
}

#[test]
fn table_driven_matches_bitwise_definition() {
    for n in 0..=255u8 {
        assert_eq!(checksum(&[n]), bitwise_crc32(&[n]));
    }
    let data: Vec<u8> = (0..3000u32).map(|i| (i.wrapping_mul(2654435761) >> 13) as u8).collect();
    assert_eq!(checksum(&data), bitwise_crc32(&data));
}

#[test]
fn sum_does_not_change_the_computation() {
    let mut crc = Crc32::new();
    crc.update(b"1234");
    let _ = crc.sum();
    crc.update(b"56789");
    assert_eq!(crc.sum(), 0xCBF4_3926);
}
