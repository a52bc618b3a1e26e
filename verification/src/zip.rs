//! A minimal ZIP archive writer: every file is stored uncompressed.
//!
//! The archive is a sequence of records, one per file: a local file header
//! followed by the file's bytes. After the last record come the central
//! directory (one entry per file, each holding the offset of that file's local
//! header) and the end of central directory record. This module computes every
//! byte of the headers and keeps the bookkeeping; the caller writes the headers
//! it is handed and the files' contents to the output stream.

use vstd::prelude::*;
use crate::bytes::{
    law_le16_reads_back, law_le32_reads_back, le16, le32, lemma_read_u16_within,
    lemma_read_u32_within, push_bytes, push_le16, push_le32, read_u16_le, read_u32_le,
};

verus! {

/// A file recorded in the archive.
pub struct ZipEntry {
    /// The name stored for the file.
    pub name: Seq<u8>,
    /// The CRC-32 of its contents.
    pub crc: u32,
    /// Its length in bytes (stored uncompressed, so both sizes are this).
    pub size: u32,
    /// Where its local header starts in the archive.
    pub offset: u32,
}

/// The local file header that precedes a stored file's bytes.
#[verifier::opaque]
pub open spec fn local_header(name: Seq<u8>, crc: u32, size: u32) -> Seq<u8> {
    seq![0x50u8, 0x4Bu8, 0x03u8, 0x04u8]  // signature
    + seq![0x14u8, 0x00u8]  // version needed to extract
    + seq![0x00u8, 0x00u8]  // flags
    + seq![0x00u8, 0x00u8]  // compression method: stored
    + seq![0x00u8, 0x00u8, 0x00u8, 0x00u8]  // modification time and date
    + le32(crc) + le32(size)  // compressed size
    + le32(size)  // uncompressed size
    + le16(name.len() as u16) + seq![0x00u8, 0x00u8]  // extra field length
    + name
}

/// The central directory entry of a file.
#[verifier::opaque]
pub open spec fn central_entry(e: ZipEntry) -> Seq<u8> {
    seq![0x50u8, 0x4Bu8, 0x01u8, 0x02u8]  // signature
    + seq![0x14u8, 0x00u8]  // version made by
    + seq![0x14u8, 0x00u8]  // version needed to extract
    + seq![0x00u8, 0x00u8]  // flags
    + seq![0x00u8, 0x00u8]  // compression method: stored
    + seq![0x00u8, 0x00u8, 0x00u8, 0x00u8]  // modification time and date
    + le32(e.crc) + le32(e.size)  // compressed size
    + le32(e.size)  // uncompressed size
    + le16(e.name.len() as u16) + seq![0x00u8, 0x00u8]  // extra field length
    + seq![0x00u8, 0x00u8]  // comment length
    + seq![0x00u8, 0x00u8]  // disk number start
    + seq![0x00u8, 0x00u8]  // internal attributes
    + seq![0x00u8, 0x00u8, 0x00u8, 0x00u8]  // external attributes
    + le32(e.offset)  // offset of the local header
    + e.name
}

/// The central directory: the entries of all files, in the order they were added.
pub open spec fn directory_bytes(entries: Seq<ZipEntry>) -> Seq<u8>
    decreases entries.len(),
{
    if entries.len() == 0 {
        Seq::empty()
    } else {
        directory_bytes(entries.drop_last()) + central_entry(entries.last())
    }
}

/// The end of central directory record.
#[verifier::opaque]
pub open spec fn end_record(count: u16, directory_size: u32, directory_offset: u32) -> Seq<u8> {
    seq![0x50u8, 0x4Bu8, 0x05u8, 0x06u8]  // signature
    + seq![0x00u8, 0x00u8]  // number of this disk
    + seq![0x00u8, 0x00u8]  // disk where the central directory starts
    + le16(count)  // entries on this disk
    + le16(count)  // entries in total
    + le32(directory_size) + le32(directory_offset) + seq![0x00u8, 0x00u8]  // comment length
}

/// The length of a file's record: its local header and its bytes.
pub open spec fn record_len(e: ZipEntry) -> nat {
    (30 + e.name.len() + e.size) as nat
}

/// The length of the records of `entries`, laid end to end.
pub open spec fn records_len(entries: Seq<ZipEntry>) -> nat
    decreases entries.len(),
{
    if entries.len() == 0 {
        0
    } else {
        records_len(entries.drop_last()) + record_len(entries.last())
    }
}

/// Each entry's name fits its 16-bit length field and its offset is where its
/// record starts when the records are laid end to end.
pub open spec fn entries_well_placed(entries: Seq<ZipEntry>) -> bool {
    forall|k: int|
        0 <= k < entries.len() ==> {
            &&& (#[trigger] entries[k]).name.len() <= u16::MAX
            &&& entries[k].offset == records_len(entries.take(k))
        }
}

/// The records of the first `n` entries, each local header followed by the
/// file's bytes.
pub open spec fn stored_records(entries: Seq<ZipEntry>, contents: Seq<Seq<u8>>, n: nat) -> Seq<u8>
    decreases n,
{
    if n == 0 {
        Seq::empty()
    } else {
        let k = n - 1;
        stored_records(entries, contents, k as nat) + local_header(
            entries[k].name,
            entries[k].crc,
            entries[k].size,
        ) + contents[k]
    }
}

/// The whole archive: the records, the central directory and the end record.
pub open spec fn archive_bytes(entries: Seq<ZipEntry>, contents: Seq<Seq<u8>>) -> Seq<u8> {
    stored_records(entries, contents, entries.len()) + directory_bytes(entries) + end_record(
        entries.len() as u16,
        directory_bytes(entries).len() as u32,
        records_len(entries) as u32,
    )
}

proof fn lemma_local_header_len(name: Seq<u8>, crc: u32, size: u32)
    ensures
        local_header(name, crc, size).len() == 30 + name.len(),
{
    reveal(local_header);
}

proof fn lemma_u16_field(s: Seq<u8>, at: int, x: u16)
    requires
        0 <= at,
        at + 2 <= s.len(),
        s.subrange(at, at + 2) == le16(x),
    ensures
        read_u16_le(s, at) == x,
{
    lemma_read_u16_within(s, at);
    law_le16_reads_back(x);
}

proof fn lemma_u32_field(s: Seq<u8>, at: int, x: u32)
    requires
        0 <= at,
        at + 4 <= s.len(),
        s.subrange(at, at + 4) == le32(x),
    ensures
        read_u32_le(s, at) == x,
{
    lemma_read_u32_within(s, at);
    law_le32_reads_back(x);
}

/// The local header of a stored file, read field by field: the signature
/// `PK\x03\x04`, version 2.0 needed, no flags, method 0 (stored), no time,
/// then the CRC-32, the compressed and the uncompressed size (both the file's
/// length), the name's length, no extra field, and the name.
pub proof fn law_local_header_fields(name: Seq<u8>, crc: u32, size: u32)
    requires
        name.len() <= u16::MAX,
    ensures
        ({
            let h = local_header(name, crc, size);
            &&& h.len() == 30 + name.len()
            &&& h.subrange(0, 4) == seq![0x50u8, 0x4Bu8, 0x03u8, 0x04u8]
            &&& read_u16_le(h, 4) == 0x14
            &&& read_u16_le(h, 6) == 0
            &&& read_u16_le(h, 8) == 0
            &&& read_u32_le(h, 10) == 0
            &&& read_u32_le(h, 14) == crc
            &&& read_u32_le(h, 18) == size
            &&& read_u32_le(h, 22) == size
            &&& read_u16_le(h, 26) == name.len()
            &&& read_u16_le(h, 28) == 0
            &&& h.subrange(30, h.len() as int) == name
        }),
{
    reveal(local_header);
    let h = local_header(name, crc, size);
    assert(h.subrange(0, 4) =~= seq![0x50u8, 0x4Bu8, 0x03u8, 0x04u8]);
    assert(h.subrange(14, 18) =~= le32(crc));
    lemma_u32_field(h, 14, crc);
    assert(h.subrange(18, 22) =~= le32(size));
    lemma_u32_field(h, 18, size);
    assert(h.subrange(22, 26) =~= le32(size));
    lemma_u32_field(h, 22, size);
    assert(h.subrange(26, 28) =~= le16(name.len() as u16));
    lemma_u16_field(h, 26, name.len() as u16);
    assert(h.subrange(30, h.len() as int) =~= name);
}

/// Where the central directory entry of the `k`-th file starts: after the
/// entries of the files before it, each 46 bytes followed by the file's name.
pub open spec fn central_offset(entries: Seq<ZipEntry>, k: nat) -> nat
    decreases k,
{
    if k == 0 {
        0
    } else {
        central_offset(entries, (k - 1) as nat) + 46 + entries[k - 1].name.len()
    }
}

proof fn lemma_central_entry_len(e: ZipEntry)
    ensures
        central_entry(e).len() == 46 + e.name.len(),
{
    reveal(central_entry);
}

proof fn lemma_central_entry_fields(e: ZipEntry)
    requires
        e.name.len() <= u16::MAX,
    ensures
        ({
            let c = central_entry(e);
            let n = e.name.len() as int;
            &&& c.len() == 46 + n
            &&& c.subrange(0, 4) == seq![0x50u8, 0x4Bu8, 0x01u8, 0x02u8]
            &&& read_u16_le(c, 4) == 0x14
            &&& read_u16_le(c, 6) == 0x14
            &&& read_u16_le(c, 8) == 0
            &&& read_u16_le(c, 10) == 0
            &&& read_u32_le(c, 12) == 0
            &&& read_u32_le(c, 16) == e.crc
            &&& read_u32_le(c, 20) == e.size
            &&& read_u32_le(c, 24) == e.size
            &&& read_u16_le(c, 28) == n
            &&& read_u16_le(c, 30) == 0
            &&& read_u16_le(c, 32) == 0
            &&& read_u16_le(c, 34) == 0
            &&& read_u16_le(c, 36) == 0
            &&& read_u32_le(c, 38) == 0
            &&& read_u32_le(c, 42) == e.offset
            &&& c.subrange(46, 46 + n) == e.name
        }),
{
    reveal(central_entry);
    let c = central_entry(e);
    let n = e.name.len() as int;
    assert(c.subrange(0, 4) =~= seq![0x50u8, 0x4Bu8, 0x01u8, 0x02u8]);
    assert(c.subrange(16, 20) =~= le32(e.crc));
    lemma_u32_field(c, 16, e.crc);
    assert(c.subrange(20, 24) =~= le32(e.size));
    lemma_u32_field(c, 20, e.size);
    assert(c.subrange(24, 28) =~= le32(e.size));
    lemma_u32_field(c, 24, e.size);
    assert(c.subrange(28, 30) =~= le16(e.name.len() as u16));
    lemma_u16_field(c, 28, e.name.len() as u16);
    assert(c.subrange(42, 46) =~= le32(e.offset));
    lemma_u32_field(c, 42, e.offset);
    assert(c.subrange(46, 46 + n) =~= e.name);
}

proof fn lemma_directory_len(entries: Seq<ZipEntry>, n: nat)
    requires
        n <= entries.len(),
    ensures
        directory_bytes(entries.take(n as int)).len() == central_offset(entries, n),
    decreases n,
{
    if n > 0 {
        let n1 = (n - 1) as nat;
        lemma_directory_len(entries, n1);
        assert(entries.take(n as int).drop_last() =~= entries.take(n1 as int));
        assert(entries.take(n as int).last() == entries[n1 as int]);
        lemma_central_entry_len(entries[n1 as int]);
    } else {
        assert(entries.take(0) =~= Seq::<ZipEntry>::empty());
    }
}

proof fn lemma_directory_prefix(entries: Seq<ZipEntry>, n: nat, m: nat)
    requires
        n <= m <= entries.len(),
    ensures
        directory_bytes(entries.take(m as int)).len() >= directory_bytes(
            entries.take(n as int),
        ).len(),
        directory_bytes(entries.take(m as int)).subrange(
            0,
            directory_bytes(entries.take(n as int)).len() as int,
        ) == directory_bytes(entries.take(n as int)),
    decreases m,
{
    let small = directory_bytes(entries.take(n as int));
    if m > n {
        let m1 = (m - 1) as nat;
        lemma_directory_prefix(entries, n, m1);
        let big = directory_bytes(entries.take(m as int));
        let mid = directory_bytes(entries.take(m1 as int));
        assert(entries.take(m as int).drop_last() =~= entries.take(m1 as int));
        assert(big == mid + central_entry(entries.take(m as int).last()));
        assert(big.subrange(0, small.len() as int) =~= mid.subrange(0, small.len() as int));
    } else {
        assert(small.subrange(0, small.len() as int) =~= small);
    }
}

/// The central directory, read field by field. It is as long as the entries
/// of all files, each 46 bytes and the file's name; the entry of the `k`-th
/// file starts after those of the files before it and holds the signature
/// `PK\x01\x02`, version 2.0 made by and needed, no flags, method 0 (stored),
/// no time, the file's CRC-32, its compressed and uncompressed size (both its
/// length), its name's length, no extra field, comment, disk number or
/// attributes, the offset of its local header (the length of the records of
/// the files before it), and its name.
pub proof fn law_central_directory_fields(entries: Seq<ZipEntry>, k: int)
    requires
        entries_well_placed(entries),
        0 <= k < entries.len(),
    ensures
        ({
            let d = directory_bytes(entries);
            let p = central_offset(entries, k as nat) as int;
            let e = entries[k];
            let n = e.name.len() as int;
            &&& d.len() == central_offset(entries, entries.len())
            &&& p + 46 + n <= d.len()
            &&& d.subrange(p, p + 4) == seq![0x50u8, 0x4Bu8, 0x01u8, 0x02u8]
            &&& read_u16_le(d, p + 4) == 0x14
            &&& read_u16_le(d, p + 6) == 0x14
            &&& read_u16_le(d, p + 8) == 0
            &&& read_u16_le(d, p + 10) == 0
            &&& read_u32_le(d, p + 12) == 0
            &&& read_u32_le(d, p + 16) == e.crc
            &&& read_u32_le(d, p + 20) == e.size
            &&& read_u32_le(d, p + 24) == e.size
            &&& read_u16_le(d, p + 28) == n
            &&& read_u16_le(d, p + 30) == 0
            &&& read_u16_le(d, p + 32) == 0
            &&& read_u16_le(d, p + 34) == 0
            &&& read_u16_le(d, p + 36) == 0
            &&& read_u32_le(d, p + 38) == 0
            &&& read_u32_le(d, p + 42) == records_len(entries.take(k))
            &&& d.subrange(p + 46, p + 46 + n) == e.name
        }),
{
    let len = entries.len();
    let d = directory_bytes(entries);
    let p = central_offset(entries, k as nat) as int;
    let e = entries[k];
    let n = e.name.len() as int;
    let c = central_entry(e);
    assert(e.name.len() <= u16::MAX && e.offset == records_len(entries.take(k)));
    assert(entries.take(len as int) =~= entries);
    lemma_directory_len(entries, len);
    lemma_directory_len(entries, k as nat);
    lemma_directory_prefix(entries, (k + 1) as nat, len);
    lemma_central_entry_fields(e);
    let upto = directory_bytes(entries.take(k + 1));
    assert(entries.take(k + 1).drop_last() =~= entries.take(k));
    assert(upto == directory_bytes(entries.take(k)) + c);
    assert(d.subrange(0, upto.len() as int) == upto);
    assert forall|i: int| 0 <= i < 46 + n implies d[p + i] == #[trigger] c[i] by {
        assert(d[p + i] == d.subrange(0, upto.len() as int)[p + i]);
    }
    assert(d.subrange(p, p + 4) =~= c.subrange(0, 4));
    assert(d.subrange(p + 46, p + 46 + n) =~= c.subrange(46, 46 + n));
}

/// The end of central directory record, read field by field: the signature
/// `PK\x05\x06`, disk numbers 0, the number of files (twice: on this disk and
/// in total), the length of the central directory, the offset where it starts
/// (right after the last file's record), and no comment.
pub proof fn law_end_record_fields(entries: Seq<ZipEntry>)
    requires
        entries.len() <= u16::MAX,
        directory_bytes(entries).len() <= u32::MAX,
        records_len(entries) <= u32::MAX,
    ensures
        ({
            let t = end_record(
                entries.len() as u16,
                directory_bytes(entries).len() as u32,
                records_len(entries) as u32,
            );
            &&& t.len() == 22
            &&& t.subrange(0, 4) == seq![0x50u8, 0x4Bu8, 0x05u8, 0x06u8]
            &&& read_u16_le(t, 4) == 0
            &&& read_u16_le(t, 6) == 0
            &&& read_u16_le(t, 8) == entries.len()
            &&& read_u16_le(t, 10) == entries.len()
            &&& read_u32_le(t, 12) == directory_bytes(entries).len()
            &&& read_u32_le(t, 16) == records_len(entries)
            &&& read_u16_le(t, 20) == 0
        }),
{
    reveal(end_record);
    let count = entries.len() as u16;
    let size = directory_bytes(entries).len() as u32;
    let offset = records_len(entries) as u32;
    let t = end_record(count, size, offset);
    assert(t.subrange(0, 4) =~= seq![0x50u8, 0x4Bu8, 0x05u8, 0x06u8]);
    assert(t.subrange(8, 10) =~= le16(count));
    lemma_u16_field(t, 8, count);
    assert(t.subrange(10, 12) =~= le16(count));
    lemma_u16_field(t, 10, count);
    assert(t.subrange(12, 16) =~= le32(size));
    lemma_u32_field(t, 12, size);
    assert(t.subrange(16, 20) =~= le32(offset));
    lemma_u32_field(t, 16, offset);
}

/// Each file's contents are as long as the archive records them to be.
pub open spec fn contents_match(entries: Seq<ZipEntry>, contents: Seq<Seq<u8>>) -> bool {
    &&& contents.len() == entries.len()
    &&& forall|j: int| 0 <= j < entries.len() ==> (#[trigger] contents[j]).len() == entries[j].size
}

proof fn lemma_stored_records_len(entries: Seq<ZipEntry>, contents: Seq<Seq<u8>>, n: nat)
    requires
        contents_match(entries, contents),
        n <= entries.len(),
    ensures
        stored_records(entries, contents, n).len() == records_len(entries.take(n as int)),
    decreases n,
{
    if n > 0 {
        let k = (n - 1) as nat;
        lemma_stored_records_len(entries, contents, k);
        assert(entries.take(n as int).drop_last() =~= entries.take(k as int));
        assert(contents[k as int].len() == entries[k as int].size);
        lemma_local_header_len(entries[k as int].name, entries[k as int].crc, entries[k as int].size);
    }
}

proof fn lemma_stored_records_prefix(
    entries: Seq<ZipEntry>,
    contents: Seq<Seq<u8>>,
    n: nat,
    m: nat,
)
    requires
        n <= m,
    ensures
        stored_records(entries, contents, m).len() >= stored_records(entries, contents, n).len(),
        stored_records(entries, contents, m).subrange(
            0,
            stored_records(entries, contents, n).len() as int,
        ) == stored_records(entries, contents, n),
    decreases m,
{
    if m > n {
        let m1 = (m - 1) as nat;
        lemma_stored_records_prefix(entries, contents, n, m1);
        let small = stored_records(entries, contents, n);
        let mid = stored_records(entries, contents, m1);
        let big = stored_records(entries, contents, m);
        assert(big.subrange(0, mid.len() as int) =~= mid);
        assert(big.subrange(0, small.len() as int) =~= mid.subrange(0, small.len() as int));
    } else {
        let big = stored_records(entries, contents, m);
        assert(big.subrange(0, big.len() as int) =~= big);
    }
}

/// Within the records of all files, the `k`-th record starts right after the
/// first `k` records.
proof fn lemma_record_in_records(entries: Seq<ZipEntry>, contents: Seq<Seq<u8>>, k: nat)
    requires
        k < entries.len(),
    ensures
        ({
            let records = stored_records(entries, contents, entries.len());
            let off = stored_records(entries, contents, k).len() as int;
            let h = local_header(entries[k as int].name, entries[k as int].crc, entries[k as int].size);
            let c = contents[k as int];
            &&& off + h.len() + c.len() <= records.len()
            &&& records.subrange(off, off + h.len()) == h
            &&& records.subrange(off + h.len(), off + h.len() + c.len()) == c
        }),
{
    let n = entries.len();
    let records = stored_records(entries, contents, n);
    let before = stored_records(entries, contents, k);
    let upto = stored_records(entries, contents, k + 1);
    let h = local_header(entries[k as int].name, entries[k as int].crc, entries[k as int].size);
    let c = contents[k as int];
    lemma_stored_records_prefix(entries, contents, k + 1, n);
    assert(upto == before + h + c);
    let off = before.len() as int;
    assert(records.subrange(off, off + h.len()) =~= upto.subrange(off, off + h.len()));
    assert(upto.subrange(off, off + h.len()) =~= h);
    assert(records.subrange(off + h.len(), off + h.len() + c.len()) =~= upto.subrange(
        off + h.len(),
        off + h.len() + c.len(),
    ));
    assert(upto.subrange(off + h.len(), off + h.len() + c.len()) =~= c);
}

/// The central directory and the end record follow the records.
proof fn lemma_archive_tail(entries: Seq<ZipEntry>, contents: Seq<Seq<u8>>)
    requires
        contents_match(entries, contents),
    ensures
        ({
            let a = archive_bytes(entries, contents);
            let d = directory_bytes(entries);
            let start = records_len(entries);
            &&& a.subrange(start as int, (start + d.len()) as int) == d
            &&& a.subrange((start + d.len()) as int, a.len() as int) == end_record(
                entries.len() as u16,
                d.len() as u32,
                start as u32,
            )
        }),
{
    let n = entries.len();
    let a = archive_bytes(entries, contents);
    let d = directory_bytes(entries);
    let t = end_record(n as u16, d.len() as u32, records_len(entries) as u32);
    let records = stored_records(entries, contents, n);
    lemma_stored_records_len(entries, contents, n);
    assert(entries.take(n as int) =~= entries);
    assert(a == records + d + t);
    assert(a.subrange(records.len() as int, (records.len() + d.len()) as int) =~= d);
    assert(a.subrange((records.len() + d.len()) as int, a.len() as int) =~= t);
}

/// Where the central directory says a file's local header is, that header is,
/// followed by the file's bytes; the central directory starts where the end
/// record says it does, right after the last file, and the end record closes
/// the archive. This holds of the bytes the archive hands out, laid end to end
/// with the files' contents: see [`SimpleZipArchive::local_header_for`],
/// [`SimpleZipArchive::central_directory`] and
/// [`SimpleZipArchive::end_of_central_directory`].
pub proof fn law_archive_layout(entries: Seq<ZipEntry>, contents: Seq<Seq<u8>>, k: int)
    requires
        entries_well_placed(entries),
        contents_match(entries, contents),
        0 <= k < entries.len(),
    ensures
        ({
            let a = archive_bytes(entries, contents);
            let e = entries[k];
            let h = local_header(e.name, e.crc, e.size);
            let d = directory_bytes(entries);
            let start = records_len(entries);
            &&& a.subrange(e.offset as int, e.offset + h.len()) == h
            &&& a.subrange(e.offset + h.len(), e.offset + h.len() + e.size) == contents[k]
            &&& a.subrange(start as int, (start + d.len()) as int) == d
            &&& a.subrange((start + d.len()) as int, a.len() as int) == end_record(
                entries.len() as u16,
                d.len() as u32,
                start as u32,
            )
        }),
{
    lemma_archive_tail(entries, contents);
    let n = entries.len();
    let a = archive_bytes(entries, contents);
    let e = entries[k];
    let h = local_header(e.name, e.crc, e.size);
    let records = stored_records(entries, contents, n);
    let rest = directory_bytes(entries) + end_record(
        n as u16,
        directory_bytes(entries).len() as u32,
        records_len(entries) as u32,
    );
    lemma_stored_records_len(entries, contents, k as nat);
    lemma_record_in_records(entries, contents, k as nat);
    assert(contents[k].len() == e.size);
    assert(e.offset == records_len(entries.take(k)));
    assert(a =~= records + rest);
    let off = e.offset as int;
    assert(a.subrange(off, off + h.len()) =~= records.subrange(off, off + h.len()));
    assert(a.subrange(off + h.len(), off + h.len() + e.size) =~= records.subrange(
        off + h.len(),
        off + h.len() + e.size,
    ));
}

/// The archive under construction.
pub struct SimpleZipArchive {
    directory: Vec<u8>,
    position: u32,
    entry_count: u16,
    entries: Ghost<Seq<ZipEntry>>,
}

impl SimpleZipArchive {
    /// The files recorded so far, in order.
    pub closed spec fn entries(&self) -> Seq<ZipEntry> {
        self.entries@
    }

    /// The number of archive bytes the records written so far take up.
    pub closed spec fn position(&self) -> u32 {
        self.position
    }

    /// The number of files recorded, as the end record stores it.
    pub closed spec fn entry_count(&self) -> u16 {
        self.entry_count
    }

    /// The central directory built so far.
    pub closed spec fn directory(&self) -> Seq<u8> {
        self.directory@
    }

    /// The bookkeeping agrees with the recorded files.
    pub open spec fn wf(&self) -> bool {
        &&& entries_well_placed(self.entries())
        &&& self.position() == records_len(self.entries())
        &&& self.entry_count() == self.entries().len()
        &&& self.directory() == directory_bytes(self.entries())
    }

    /// An archive with no files.
    pub fn new() -> (zip: Self)
        ensures
            zip.wf(),
            zip.entries() == Seq::<ZipEntry>::empty(),
    {
        Self { directory: Vec::new(), position: 0, entry_count: 0, entries: Ghost(Seq::empty()) }
    }

    /// The number of archive bytes the records written so far take up.
    pub fn current_position(&self) -> (p: u32)
        ensures
            p == self.position(),
    {
        self.position
    }

    /// The number of files recorded.
    pub fn file_count(&self) -> (n: u16)
        ensures
            n == self.entry_count(),
    {
        self.entry_count
    }

    /// The length of the central directory built so far.
    pub fn directory_len(&self) -> (n: usize)
        ensures
            n == self.directory().len(),
    {
        self.directory.len()
    }

    /// The local file header of a stored file named `file_name`, of `size`
    /// bytes whose CRC-32 is `crc`.
    pub fn local_header_for(file_name: &[u8], crc: u32, size: u32) -> (header: Vec<u8>)
        requires
            file_name@.len() <= u16::MAX,
        ensures
            header@ == local_header(file_name@, crc, size),
            header@.len() == 30 + file_name@.len(),
            read_u32_le(header@, 14) == crc,
            read_u32_le(header@, 18) == size,
            read_u32_le(header@, 22) == size,
            read_u16_le(header@, 26) == file_name@.len(),
            header@.subrange(30, header@.len() as int) == file_name@,
    {
        let name_len = file_name.len() as u16;
        let mut header: Vec<u8> = Vec::new();
        push_bytes(&mut header, &[0x50, 0x4B, 0x03, 0x04]);  // signature
        push_bytes(&mut header, &[0x14, 0x00]);  // version needed to extract
        push_bytes(&mut header, &[0x00, 0x00]);  // flags
        push_bytes(&mut header, &[0x00, 0x00]);  // compression method
        push_bytes(&mut header, &[0x00, 0x00, 0x00, 0x00]);  // modification time
        push_le32(&mut header, crc);  // CRC-32 checksum
        push_le32(&mut header, size);  // compressed size
        push_le32(&mut header, size);  // uncompressed size
        push_le16(&mut header, name_len);  // file name length
        push_bytes(&mut header, &[0x00, 0x00]);  // extra field length
        push_bytes(&mut header, file_name);  // file name
        assert(header@ =~= local_header(file_name@, crc, size)) by {
            reveal(local_header);
        }
        proof {
            law_local_header_fields(file_name@, crc, size);
        }
        header
    }

    /// Whether a file with a name of `name_len` bytes and `size` bytes of
    /// contents can be recorded: its name length fits its 16-bit field, the
    /// position after it fits 32 bits and the file count fits 16 bits.
    pub fn can_add(&self, name_len: usize, size: u32) -> (ok: bool)
        requires
            self.wf(),
        ensures
            ok == (name_len <= u16::MAX && self.position() + 30 + name_len + size <= u32::MAX
                && self.entries().len() < u16::MAX),
    {
        if name_len > 0xFFFF || self.entry_count >= 0xFFFF {
            return false;
        }
        (self.position as u64) + 30 + (name_len as u64) + (size as u64) <= 0xFFFF_FFFF
    }

    /// Records a stored file named `file_name`, of `size` bytes whose CRC-32 is
    /// `crc`, whose record (its local header, then its bytes) has been written
    /// at the current position.
    pub fn add_entry(&mut self, file_name: &[u8], crc: u32, size: u32)
        requires
            old(self).wf(),
            file_name@.len() <= u16::MAX,
            old(self).position() + 30 + file_name@.len() + size <= u32::MAX,
            old(self).entries().len() < u16::MAX,
        ensures
            final(self).wf(),
            final(self).entries() == old(self).entries().push(
                ZipEntry { name: file_name@, crc, size, offset: old(self).position() },
            ),
            final(self).position() == old(self).position() + 30 + file_name@.len() + size,
    {
        let name_len = file_name.len() as u16;

        // Central directory entry
        let ghost entry = ZipEntry { name: file_name@, crc, size, offset: self.position };
        let ghost old_directory = self.directory@;
        push_bytes(&mut self.directory, &[0x50, 0x4B, 0x01, 0x02]);  // signature
        push_bytes(&mut self.directory, &[0x14, 0x00]);  // version made by
        push_bytes(&mut self.directory, &[0x14, 0x00]);  // version needed to extract
        push_bytes(&mut self.directory, &[0x00, 0x00]);  // flags
        push_bytes(&mut self.directory, &[0x00, 0x00]);  // compression method
        push_bytes(&mut self.directory, &[0x00, 0x00, 0x00, 0x00]);  // modification time
        push_le32(&mut self.directory, crc);  // CRC-32 checksum
        push_le32(&mut self.directory, size);  // compressed size
        push_le32(&mut self.directory, size);  // uncompressed size
        push_le16(&mut self.directory, name_len);  // file name length
        push_bytes(&mut self.directory, &[0x00, 0x00]);  // extra field length
        push_bytes(&mut self.directory, &[0x00, 0x00]);  // comment length
        push_bytes(&mut self.directory, &[0x00, 0x00]);  // disk number start
        push_bytes(&mut self.directory, &[0x00, 0x00]);  // internal attributes
        push_bytes(&mut self.directory, &[0x00, 0x00, 0x00, 0x00]);  // external attributes
        let offset = self.position;
        push_le32(&mut self.directory, offset);  // offset of local header
        push_bytes(&mut self.directory, file_name);  // file name
        assert(self.directory@ =~= old_directory + central_entry(entry)) by {
            reveal(central_entry);
        }

        // Update position and entry count
        let ghost old_entries = self.entries@;
        self.position = self.position + 30 + name_len as u32 + size;
        self.entry_count = self.entry_count + 1;
        self.entries = Ghost(self.entries@.push(entry));
        proof {
            let es = self.entries@;
            assert(es.drop_last() =~= old_entries);
            assert forall|k: int| 0 <= k < es.len() implies {
                &&& (#[trigger] es[k]).name.len() <= u16::MAX
                &&& es[k].offset == records_len(es.take(k))
            } by {
                if k < old_entries.len() {
                    assert(es.take(k) =~= old_entries.take(k));
                    assert(es[k] == old_entries[k]);
                } else {
                    assert(es.take(k) =~= old_entries);
                }
            }
        }
    }

    /// The central directory: one entry per recorded file, in order. It is
    /// written after the last file's record.
    pub fn central_directory(&self) -> (d: &[u8])
        requires
            self.wf(),
        ensures
            d@ == directory_bytes(self.entries()),
    {
        self.directory.as_slice()
    }

    /// The end of central directory record, written last: it counts the files
    /// and says how long the central directory is and where it starts.
    pub fn end_of_central_directory(&self) -> (tail: Vec<u8>)
        requires
            self.wf(),
            self.directory().len() <= u32::MAX,
        ensures
            tail@ == end_record(
                self.entries().len() as u16,
                directory_bytes(self.entries()).len() as u32,
                records_len(self.entries()) as u32,
            ),
            tail@.len() == 22,
            read_u16_le(tail@, 8) == self.entries().len(),
            read_u16_le(tail@, 10) == self.entries().len(),
            read_u32_le(tail@, 12) == self.directory().len(),
            read_u32_le(tail@, 16) == self.position(),
    {
        let mut tail: Vec<u8> = Vec::new();
        push_bytes(&mut tail, &[0x50, 0x4B, 0x05, 0x06]);  // signature
        push_bytes(&mut tail, &[0x00, 0x00]);  // disk number
        push_bytes(&mut tail, &[0x00, 0x00]);  // starting disk number
        push_le16(&mut tail, self.entry_count);  // entries on this disk
        push_le16(&mut tail, self.entry_count);  // entries overall
        push_le32(&mut tail, self.directory.len() as u32);  // central directory size
        push_le32(&mut tail, self.position);  // central directory offset
        push_bytes(&mut tail, &[0x00, 0x00]);  // comment length
        assert(tail@ =~= end_record(
            self.entries().len() as u16,
            directory_bytes(self.entries()).len() as u32,
            records_len(self.entries()) as u32,
        )) by {
            reveal(end_record);
        }
        proof {
            law_end_record_fields(self.entries());
        }
        tail
    }
}

} // verus!
