//! Building blocks of a CBZ (comic book ZIP) writer: CRC-32 checksums, stored
//! ZIP archive records, entry naming and the bounded conversion queue.

pub mod crc32;
pub mod bytes;
pub mod zip;
pub mod names;
pub mod cbz;
pub mod tempdir;
pub mod command;
