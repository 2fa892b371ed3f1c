# procedural_payloads

Fixed-layout payload frames, verified with Verus. A payload is one metadata
record followed by exactly the number of fixed-size field records that the
metadata announces. Readers and writers can be stacked on CRC-32 streams that
checksum every byte passing through.

Layout:

- `src/io.rs` — the byte-stream traits `ByteRead` / `ByteWrite` (shaped like
  `embedded_io`'s `Read` / `Write`) and the in-memory `SliceReader` /
  `SliceWriter`.
- `src/read/` — `Readable` records, `ReadablePayload` (metadata, then a
  `FieldIterator` over the fields), `Crc32Reader`, `ReadError`.
- `src/write/` — `Writeable` records, `WritablePayload` (`begin`,
  `write_field`, `finish`), `Crc32Writer`, `WriteError`.
- `src/fields.rs` — `FrameField` records built from byte arrays and their
  iterator.
- `src/records.rs` — bytes, byte arrays and booleans as records, through
  `zerocopy`.
- `src/checksum.rs` — the bitwise definition of CRC-32 and the digest over
  `crc32fast::Hasher` that is held to it.
- `src/frame.rs` — the byte layout of a payload and the read-back lemmas.
- `app/lib.rs` — adapters between the library's streams and `embedded_io`, and
  a `thiserror` copy of `ReadError`.
