use vstd::prelude::*;

use crate::checksum::{crc32_continue, hasher_checksum, hasher_total_len, Crc32Digest};
use crate::io::{after_front, ByteWrite};

verus! {

/// The four bytes of `crc`, most significant first.
pub open spec fn crc_be_bytes(crc: u32) -> Seq<u8> {
    seq![(crc >> 24u32) as u8, (crc >> 16u32) as u8, (crc >> 8u32) as u8, crc as u8]
}

/// The four bytes of `crc`, most significant first.
pub fn crc_to_be_bytes(crc: u32) -> (bytes: [u8; 4])
    ensures
        bytes@ == crc_be_bytes(crc),
        bytes[0] as int * 0x100_0000 + bytes[1] as int * 0x1_0000 + bytes[2] as int * 0x100
            + bytes[3] as int == crc as int,
{
    let bytes = [(crc >> 24u32) as u8, (crc >> 16u32) as u8, (crc >> 8u32) as u8, crc as u8];
    proof {
        lemma_crc_be_bytes_value(crc);
    }
    bytes
}

/// The four bytes appended after a checksum, read back most significant
/// first, are the checksum itself: byte 0 is `crc / 2^24`, byte 3 is
/// `crc % 2^8`, and together they give back `crc`.
pub proof fn lemma_crc_be_bytes_value(crc: u32)
    ensures
        crc_be_bytes(crc).len() == 4,
        crc_be_bytes(crc)[0] == crc / 0x100_0000,
        crc_be_bytes(crc)[1] == (crc / 0x1_0000) % 0x100,
        crc_be_bytes(crc)[2] == (crc / 0x100) % 0x100,
        crc_be_bytes(crc)[3] == crc % 0x100,
        crc_be_bytes(crc)[0] as int * 0x100_0000 + crc_be_bytes(crc)[1] as int * 0x1_0000
            + crc_be_bytes(crc)[2] as int * 0x100 + crc_be_bytes(crc)[3] as int == crc as int,
{
    let b = crc_be_bytes(crc);
    let b0: u8 = b[0];
    let b1: u8 = b[1];
    let b2: u8 = b[2];
    let b3: u8 = b[3];
    assert(b0 == (crc >> 24u32) as u8 && b1 == (crc >> 16u32) as u8 && b2 == (crc >> 8u32) as u8
        && b3 == crc as u8);
    assert(b0 == crc / 0x100_0000 && b1 == (crc / 0x1_0000) % 0x100 && b2 == (crc / 0x100)
        % 0x100 && b3 == crc % 0x100) by (bit_vector)
        requires
            b0 == (crc >> 24u32) as u8,
            b1 == (crc >> 16u32) as u8,
            b2 == (crc >> 8u32) as u8,
            b3 == crc as u8,
    ;
    assert(b0 as u64 * 0x100_0000 + b1 as u64 * 0x1_0000 + b2 as u64 * 0x100 + b3 as u64
        == crc as u64) by (bit_vector)
        requires
            b0 == (crc >> 24u32) as u8,
            b1 == (crc >> 16u32) as u8,
            b2 == (crc >> 8u32) as u8,
            b3 == crc as u8,
    ;
}

/// A stream that passes bytes on to another stream and feeds each byte the
/// other stream accepts to a CRC-32 hasher.
pub struct Crc32Writer<W: ByteWrite> {
    hasher: Crc32Digest,
    writer: W,
}

impl<W: ByteWrite> Crc32Writer<W> {
    /// The stream being written.
    pub closed spec fn inner(&self) -> W {
        self.writer
    }

    /// The checksum the hasher held when it was handed in.
    pub closed spec fn start(&self) -> u32 {
        self.hasher.start()
    }

    /// The hasher.
    pub closed spec fn hasher(&self) -> crc32fast::Hasher {
        self.hasher.hasher()
    }

    /// Every byte written through this stream, oldest first.
    pub closed spec fn hashed(&self) -> Seq<u8> {
        self.hasher.fed()
    }

    /// How many more bytes the hasher can count.
    pub closed spec fn room(&self) -> nat {
        self.hasher.room()
    }

    /// The checksum over everything written through this writer so far.
    pub open spec fn checksum(&self) -> u32 {
        crc32_continue(self.start(), self.sent())
    }

    /// Writes to `writer` through `hasher`, which goes on from whatever it
    /// holds.
    pub fn new(writer: W, hasher: crc32fast::Hasher) -> (w: Self)
        ensures
            w.inner() == writer,
            w.start() == hasher_checksum(hasher),
            w.hasher() == hasher,
            w.sent() == Seq::<u8>::empty(),
            w.room() == u64::MAX - hasher_total_len(hasher),
    {
        Self { hasher: Crc32Digest::new(hasher), writer }
    }

    /// How many more bytes the hasher can count.
    pub fn hash_room(&self) -> (n: u64)
        ensures
            n == self.room(),
    {
        self.hasher.room_left()
    }

    /// Gives back the hasher, fed with every byte written, and the stream.
    pub fn into_inner(self) -> (parts: (crc32fast::Hasher, W))
        ensures
            parts.0 == self.hasher(),
            hasher_checksum(parts.0) == self.checksum(),
            hasher_total_len(parts.0) + self.room() == u64::MAX,
            parts.1 == self.inner(),
    {
        (self.hasher.into_hasher(), self.writer)
    }

    /// What `write` makes of the inner stream's answer to writing `buf`: the
    /// accepted prefix of `buf` is hashed and its length handed on; an error
    /// is handed on.
    fn hash_written(&mut self, buf: &[u8], written: Result<usize, W::Error>) -> (r: Result<
        usize,
        W::Error,
    >)
        requires
            written matches Ok(n) ==> n <= buf@.len() && n <= old(self).room(),
        ensures
            r == written,
            final(self).inner() == old(self).inner(),
            final(self).start() == old(self).start(),
            match written {
                Ok(n) => {
                    &&& final(self).hashed() == old(self).hashed() + buf@.take(n as int)
                    &&& final(self).room() == old(self).room() - n
                },
                Err(_) => {
                    &&& final(self).hashed() == old(self).hashed()
                    &&& final(self).room() == old(self).room()
                },
            },
    {
        match written {
            Ok(n) => {
                let accepted = vstd::slice::slice_subrange(buf, 0, n);
                self.hasher.update(accepted);
                Ok(n)
            },
            Err(e) => Err(e),
        }
    }

    /// The checksum over everything written through this writer, continuing
    /// from the hasher's starting checksum.
    pub fn finish(self) -> (crc: u32)
        ensures
            crc == self.checksum(),
    {
        self.hasher.finish()
    }

    /// Appends the checksum, most significant byte first, to the inner
    /// stream, without hashing it. A reliable inner stream succeeds exactly
    /// when the four bytes fit.
    pub fn write_finish(&mut self) -> (r: Result<(), W::Error>)
        requires
            4 <= old(self).inner().write_limit(),
        ensures
            final(self).start() == old(self).start(),
            final(self).hashed() == old(self).hashed(),
            final(self).room() == old(self).room(),
            old(self).inner().sent().is_prefix_of(final(self).inner().sent()),
            final(self).inner().reliable() == old(self).inner().reliable(),
            r is Ok ==> final(self).inner().sent() == old(self).inner().sent() + crc_be_bytes(
                old(self).checksum(),
            ),
            final(self).destination() == old(self).destination() + final(self).inner().sent().skip(
                old(self).inner().sent().len() as int,
            ),
            final(self).unwritten() == after_front(
                old(self).unwritten(),
                final(self).inner().sent().len() - old(self).inner().sent().len(),
            ),
            old(self).inner().reliable() ==> (r is Ok <==> 4 <= old(self).inner().space()),
            old(self).inner().reliable() && r is Ok ==> final(self).inner().space() == old(
                self,
            ).inner().space() - 4,
    {
        let hash: u32 = self.hasher.current();
        let bytes = crc_to_be_bytes(hash);
        self.writer.write_all(vstd::array::array_as_slice(&bytes))
    }
}

impl<W: ByteWrite> ByteWrite for Crc32Writer<W> {
    type Error = W::Error;

    open spec fn sent(&self) -> Seq<u8> {
        self.hashed()
    }

    open spec fn space(&self) -> nat {
        self.inner().space()
    }

    open spec fn reliable(&self) -> bool {
        self.inner().reliable()
    }

    open spec fn setting(&self) -> int {
        self.start() as int
    }

    open spec fn write_limit(&self) -> nat {
        if self.inner().write_limit() < self.room() {
            self.inner().write_limit()
        } else {
            self.room()
        }
    }

    open spec fn destination(&self) -> Seq<u8> {
        self.inner().destination()
    }

    open spec fn buffered(&self) -> nat {
        self.inner().buffered()
    }

    open spec fn unwritten(&self) -> Seq<u8> {
        self.inner().unwritten()
    }

    /// Writes to the inner stream and hashes what it accepted.
    fn write(&mut self, buf: &[u8]) -> (r: Result<usize, Self::Error>)
        ensures
            final(self).start() == old(self).start(),
            match r {
                Ok(n) => {
                    &&& final(self).inner().sent() == old(self).inner().sent() + buf@.take(
                        n as int,
                    )
                    &&& final(self).room() == old(self).room() - n
                },
                Err(_) => {
                    &&& final(self).inner().sent() == old(self).inner().sent()
                    &&& final(self).room() == old(self).room()
                },
            },
    {
        let written = self.writer.write(buf);
        let r = self.hash_written(buf, written);
        assert(self.sent().skip(old(self).sent().len() as int) =~= self.inner().sent().skip(
            old(self).inner().sent().len() as int,
        ));
        r
    }

    fn flush(&mut self) -> (r: Result<(), Self::Error>)
        ensures
            final(self).start() == old(self).start(),
            final(self).inner().sent() == old(self).inner().sent(),
            final(self).room() == old(self).room(),
    {
        self.writer.flush()
    }
}

} // verus!
