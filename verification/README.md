# mkcbz

Packs a list of images (or every file of a directory) into a CBZ archive: a
ZIP archive of stored, uncompressed AVIF images named `1.avif`, `2.avif`, ...
with the numbers zero-padded to the width of the page count. Images that are
not AVIF are converted with `avifenc`, several at a time.

Layout:

- `src/` is the verified library (Verus):
  - `crc32.rs` — CRC-32 with a lookup table, proved equal to the bit-at-a-time
    definition; checksums may be computed in chunks.
  - `zip.rs` — local headers, central directory and end record of a stored ZIP
    archive, with the bookkeeping of offsets; the layout law says every
    central-directory offset points at its file's local header.
  - `names.rs` — zero-padded entry names and temporary directory names; entry
    names within the page count sort in page order.
  - `cbz.rs` — the bounded first-in first-out queue of pages waiting to be
    copied or converted.
  - `command.rs` — the command line.
  - `tempdir.rs`, `bytes.rs` — the working directory's path, little-endian
    encodings.
- `app/main.rs` is the program: file system, processes and output.
- `tests/` exercise the library on concrete values.
