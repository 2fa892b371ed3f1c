use vstd::prelude::*;

use crate::io::{after_front, ByteWrite};

verus! {

/// A value that writes itself to a stream as the bytes `encoded()`.
pub trait Writeable: Sized {
    /// The bytes `write_to` writes.
    /// A type that does not define it gets some fixed but unknown
    /// function.
    closed spec fn encoded(&self) -> Seq<u8> {
        vstd::pervasive::arbitrary::<spec_fn(Self) -> Seq<u8>>()(*self)
    }

    /// Writes `encoded()`. On failure the stream keeps what it had accepted
    /// before, plus whatever part it accepted of this write. A reliable
    /// stream succeeds exactly when `encoded()` fits.
    fn write_to<W: ByteWrite>(&self, writer: &mut W) -> (r: Result<(), W::Error>)
        requires
            self.encoded().len() <= (*old(writer)).write_limit(),
        ensures
            (*final(writer)).destination() == (*old(writer)).destination() + (*final(writer)).sent().skip((*old(writer)).sent().len() as int),
            (*old(writer)).sent().is_prefix_of((*final(writer)).sent()),
            (*final(writer)).write_limit() + (*final(writer)).sent().len() >= (*old(writer)).write_limit()
                + (*old(writer)).sent().len(),
            r is Ok ==> (*final(writer)).sent() == (*old(writer)).sent() + self.encoded(),
            (*final(writer)).reliable() == (*old(writer)).reliable(),
            (*final(writer)).setting() == (*old(writer)).setting(),
            (*final(writer)).unwritten() == after_front(
                (*old(writer)).unwritten(),
                (*final(writer)).sent().len() - (*old(writer)).sent().len(),
            ),
            (*old(writer)).reliable() ==> (r is Ok <==> self.encoded().len() <= (*old(
                writer,
            )).space()),
            (*old(writer)).reliable() && r is Ok ==> (*final(writer)).space() == (*old(
                writer,
            )).space() - self.encoded().len(),
    ;
}

} // verus!
