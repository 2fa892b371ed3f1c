use vstd::prelude::*;

use crate::checksum::{crc32_continue, hasher_checksum, hasher_total_len, Crc32Digest};
use crate::io::ByteRead;

verus! {

/// A stream that passes on the bytes of another stream and feeds each of
/// them to a CRC-32 hasher.
pub struct Crc32Reader<R: ByteRead> {
    reader: R,
    hasher: Crc32Digest,
}

impl<R: ByteRead> Crc32Reader<R> {
    /// The stream being read.
    pub closed spec fn inner(&self) -> R {
        self.reader
    }

    /// The checksum the hasher held when it was handed in.
    pub closed spec fn start(&self) -> u32 {
        self.hasher.start()
    }

    /// The hasher.
    pub closed spec fn hasher(&self) -> crc32fast::Hasher {
        self.hasher.hasher()
    }

    /// Every byte read through this stream, oldest first.
    pub closed spec fn hashed(&self) -> Seq<u8> {
        self.hasher.fed()
    }

    /// How many more bytes the hasher can count.
    pub closed spec fn room(&self) -> nat {
        self.hasher.room()
    }

    /// The checksum over everything read through this reader so far.
    pub open spec fn checksum(&self) -> u32 {
        crc32_continue(self.start(), self.consumed())
    }

    /// Reads `reader` through `hasher`, which goes on from whatever it holds.
    pub fn new(reader: R, hasher: crc32fast::Hasher) -> (r: Self)
        ensures
            r.inner() == reader,
            r.start() == hasher_checksum(hasher),
            r.hasher() == hasher,
            r.consumed() == Seq::<u8>::empty(),
            r.room() == u64::MAX - hasher_total_len(hasher),
    {
        Self { hasher: Crc32Digest::new(hasher), reader }
    }

    /// How many more bytes the hasher can count.
    pub fn hash_room(&self) -> (n: u64)
        ensures
            n == self.room(),
    {
        self.hasher.room_left()
    }

    /// Gives back the hasher, fed with every byte read, and the stream.
    pub fn into_inner(self) -> (parts: (crc32fast::Hasher, R))
        ensures
            parts.0 == self.hasher(),
            hasher_checksum(parts.0) == self.checksum(),
            hasher_total_len(parts.0) + self.room() == u64::MAX,
            parts.1 == self.inner(),
    {
        (self.hasher.into_hasher(), self.reader)
    }

    /// What `read` makes of the inner stream's answer: the bytes it
    /// returned are hashed and handed on unchanged; its error is handed on.
    fn hash_read(&mut self, read: Result<Vec<u8>, R::Error>) -> (r: Result<
        Vec<u8>,
        R::Error,
    >)
        requires
            read matches Ok(bytes) ==> bytes@.len() <= old(self).room(),
        ensures
            r == read,
            final(self).inner() == old(self).inner(),
            final(self).start() == old(self).start(),
            match read {
                Ok(bytes) => {
                    &&& final(self).hashed() == old(self).hashed() + bytes@
                    &&& final(self).room() == old(self).room() - bytes@.len()
                },
                Err(_) => {
                    &&& final(self).hashed() == old(self).hashed()
                    &&& final(self).room() == old(self).room()
                },
            },
    {
        match read {
            Ok(bytes) => {
                self.hasher.update(bytes.as_slice());
                Ok(bytes)
            },
            Err(e) => Err(e),
        }
    }

    /// The checksum over everything read through this reader, continuing
    /// from the hasher's starting checksum.
    pub fn finish(self) -> (crc: u32)
        ensures
            crc == self.checksum(),
    {
        self.hasher.finish()
    }
}

impl<R: ByteRead> ByteRead for Crc32Reader<R> {
    type Error = R::Error;

    open spec fn consumed(&self) -> Seq<u8> {
        self.hashed()
    }

    open spec fn pending(&self) -> Seq<u8> {
        self.inner().pending()
    }

    open spec fn reliable(&self) -> bool {
        self.inner().reliable()
    }

    open spec fn source(&self) -> Seq<u8> {
        self.inner().source()
    }

    open spec fn setting(&self) -> int {
        self.start() as int
    }

    open spec fn read_limit(&self) -> nat {
        if self.inner().read_limit() < self.room() {
            self.inner().read_limit()
        } else {
            self.room()
        }
    }

    /// Reads from the inner stream and hashes what it returns.
    fn read(&mut self, max: usize) -> (r: Result<Vec<u8>, Self::Error>)
        ensures
            final(self).start() == old(self).start(),
            match r {
                Ok(bytes) => {
                    &&& final(self).inner().consumed() == old(self).inner().consumed() + bytes@
                    &&& final(self).room() == old(self).room() - bytes@.len()
                },
                Err(_) => {
                    &&& final(self).inner().consumed() == old(self).inner().consumed()
                    &&& final(self).room() == old(self).room()
                },
            },
    {
        let read = self.reader.read(max);
        let r = self.hash_read(read);
        assert(self.consumed().skip(old(self).consumed().len() as int) =~= self.inner().consumed(
        ).skip(old(self).inner().consumed().len() as int));
        r
    }
}

} // verus!
