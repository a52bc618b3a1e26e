use mkcbz::crc32::Crc32;
use mkcbz::zip::SimpleZipArchive;

fn le16(b: &[u8], at: usize) -> u16 {
    u16::from_le_bytes([b[at], b[at + 1]])
}

fn le32(b: &[u8], at: usize) -> u32 {
    u32::from_le_bytes([b[at], b[at + 1], b[at + 2], b[at + 3]])
}

fn crc(data: &[u8]) -> u32 {
    let mut c = Crc32::new();
    c.update(data);
    c.sum()
}

/// Writes an archive the way the program does: header, contents, and at the end
/// the central directory and end record.
fn build(files: &[(&[u8], &[u8])]) -> Vec<u8> {
    let mut zip = SimpleZipArchive::new();
    let mut out = Vec::new();
    for (name, contents) in files {
        let header = SimpleZipArchive::local_header_for(name, crc(contents), contents.len() as u32);
        out.extend_from_slice(&header);
        out.extend_from_slice(contents);
        assert!(zip.can_add(name.len(), contents.len() as u32));
        zip.add_entry(name, crc(contents), contents.len() as u32);
    }
    out.extend_from_slice(zip.central_directory());
    out.extend_from_slice(&zip.end_of_central_directory());
    out
}

#[test]
fn new_archive_is_empty() {
    let zip = SimpleZipArchive::new();
    assert_eq!(zip.current_position(), 0);
    assert_eq!(zip.file_count(), 0);
    assert_eq!(zip.directory_len(), 0);
}

#[test]
fn local_header_bytes() {
    let mut zip = SimpleZipArchive::new();
    let header = SimpleZipArchive::local_header_for(b"1.avif", 0x1234_5678, 0x0102_0304);
    let expected: Vec<u8> = vec![
        0x50, 0x4B, 0x03, 0x04, 0x14, 0x00, 0x00, 0x00, 0x00, 0x00, 0x00, 0x00, 0x00, 0x00,
        0x78, 0x56, 0x34, 0x12, 0x04, 0x03, 0x02, 0x01, 0x04, 0x03, 0x02, 0x01, 0x06, 0x00,
        0x00, 0x00, b'1', b'.', b'a', b'v', b'i', b'f',
    ];
    assert_eq!(header, expected);
    zip.add_entry(b"1.avif", 0x1234_5678, 0x0102_0304);
    assert_eq!(zip.current_position(), 30 + 6 + 0x0102_0304);
    assert_eq!(zip.file_count(), 1);
    assert_eq!(zip.directory_len(), 46 + 6);
}

#[test]
fn closing_bytes_of_one_entry() {
    let mut zip = SimpleZipArchive::new();
    zip.add_entry(b"ab", 0xAABB_CCDD, 5);
    let mut tail = zip.central_directory().to_vec();
    tail.extend_from_slice(&zip.end_of_central_directory());
    let expected: Vec<u8> = vec![
        // central directory entry
        0x50, 0x4B, 0x01, 0x02, 0x14, 0x00, 0x14, 0x00, 0x00, 0x00, 0x00, 0x00, 0x00, 0x00,
        0x00, 0x00, 0xDD, 0xCC, 0xBB, 0xAA, 0x05, 0x00, 0x00, 0x00, 0x05, 0x00, 0x00, 0x00,
        0x02, 0x00, 0x00, 0x00, 0x00, 0x00, 0x00, 0x00, 0x00, 0x00, 0x00, 0x00, 0x00, 0x00,
        0x00, 0x00, 0x00, 0x00, b'a', b'b',
        // end of central directory record
        0x50, 0x4B, 0x05, 0x06, 0x00, 0x00, 0x00, 0x00, 0x01, 0x00, 0x01, 0x00, 0x30, 0x00,
        0x00, 0x00, 0x25, 0x00, 0x00, 0x00, 0x00, 0x00,
    ];
    assert_eq!(tail, expected);
}

#[test]
fn empty_archive_is_end_record_only() {
    let zip = SimpleZipArchive::new();
    assert!(zip.central_directory().is_empty());
    assert_eq!(
        zip.end_of_central_directory(),
        vec![0x50, 0x4B, 0x05, 0x06, 0, 0, 0, 0, 0, 0, 0, 0, 0, 0, 0, 0, 0, 0, 0, 0, 0, 0]
    );
}

#[test]
fn archive_layout_offsets_point_at_local_headers() {
    let files: [(&[u8], &[u8]); 3] = [
        (b"1.avif", b"first file"),
        (b"2.avif", b""),
        (b"03.avif", b"the third file, a little longer"),
    ];
    let archive = build(&files);
    let n = archive.len();
    // end record
    let eocd = n - 22;
    assert_eq!(&archive[eocd..eocd + 4], &[0x50, 0x4B, 0x05, 0x06]);
    assert_eq!(le16(&archive, eocd + 8), 3);
    assert_eq!(le16(&archive, eocd + 10), 3);
    let dir_size = le32(&archive, eocd + 12) as usize;
    let dir_offset = le32(&archive, eocd + 16) as usize;
    assert_eq!(dir_offset + dir_size, eocd);
    // walk the central directory
    let mut at = dir_offset;
    for (name, contents) in files.iter() {
        assert_eq!(&archive[at..at + 4], &[0x50, 0x4B, 0x01, 0x02]);
        let crc_field = le32(&archive, at + 16);
        let size = le32(&archive, at + 24) as usize;
        let name_len = le16(&archive, at + 28) as usize;
        let local = le32(&archive, at + 42) as usize;
        assert_eq!(&archive[at + 46..at + 46 + name_len], *name);
        assert_eq!(crc_field, crc(contents));
        assert_eq!(size, contents.len());
        // the local header it points at
        assert_eq!(&archive[local..local + 4], &[0x50, 0x4B, 0x03, 0x04]);
        assert_eq!(le32(&archive, local + 14), crc_field);
        assert_eq!(le16(&archive, local + 26) as usize, name_len);
        assert_eq!(&archive[local + 30..local + 30 + name_len], *name);
        let data = local + 30 + name_len;
        assert_eq!(&archive[data..data + size], *contents);
        at += 46 + name_len;
    }
    assert_eq!(at, eocd);
}

#[test]
fn position_counts_every_record() {
    let mut zip = SimpleZipArchive::new();
    zip.add_entry(b"a", 0, 10);
    assert_eq!(zip.current_position(), 41);
    zip.add_entry(b"bc", 0, 0);
    assert_eq!(zip.current_position(), 41 + 32);
    assert_eq!(zip.file_count(), 2);
    assert_eq!(zip.directory_len(), 47 + 48);
}

#[test]
fn can_add_guards_the_field_widths() {
    let mut zip = SimpleZipArchive::new();
    assert!(zip.can_add(0xFFFF, 0));
    assert!(!zip.can_add(0x1_0000, 0));
    assert!(zip.can_add(0, 0xFFFF_FFFF - 30));
    assert!(!zip.can_add(0, 0xFFFF_FFFF - 29));
    assert!(!zip.can_add(usize::MAX, 0));
    zip.add_entry(b"x", 0, 0xFFFF_0000);
    assert_eq!(zip.current_position(), 0xFFFF_0000 + 31);
    assert!(zip.can_add(4, 0xFFFF_FFFF - 0xFFFF_0000 - 31 - 34));
    assert!(!zip.can_add(4, 0xFFFF_FFFF - 0xFFFF_0000 - 31 - 33));
}

#[test]
fn can_add_stops_at_the_largest_file_count() {
    let mut zip = SimpleZipArchive::new();
    for _ in 0..0xFFFEu32 {
        zip.add_entry(b"", 0, 0);
    }
    assert!(zip.can_add(0, 0));
    zip.add_entry(b"", 0, 0);
    assert_eq!(zip.file_count(), 0xFFFF);
    assert!(!zip.can_add(0, 0));
}
