//! Field records that are built from a byte array of a size fixed by the
//! type, and an iterator that reads a given number of them from a stream.

use vstd::prelude::*;

use crate::io::{ByteRead, ReadExactError};

verus! {

/// A field record built from exactly `SIZE` bytes.
pub trait FrameField<const SIZE: usize>: From<[u8; SIZE]> {

}

/// Copies a slice of exactly `N` bytes into an array with
/// `<[u8; N] as TryFrom<&[u8]>>::try_from`.
///
/// Trusted: `try_from` succeeds exactly when the slice has `N` elements,
/// and the array then holds them in order.
#[verifier::external_body]
fn array_from_slice<const N: usize>(bytes: &[u8]) -> (r: Option<[u8; N]>)
    ensures
        match r {
            Some(a) => bytes@.len() == N && a@ == bytes@,
            None => bytes@.len() != N,
        },
{
    match <[u8; N] as TryFrom<&[u8]>>::try_from(bytes) {
        Ok(a) => Some(a),
        Err(_) => None,
    }
}

/// Reads up to `num_fields` field records from a stream, one per call of
/// `next`.
pub struct FieldIterator<const SIZE: usize, T: FrameField<SIZE>, R: ByteRead> {
    elements_remaining: usize,
    reader: R,
    _frame_type: core::marker::PhantomData<T>,
}

impl<const SIZE: usize, T: FrameField<SIZE>, R: ByteRead> FieldIterator<SIZE, T, R> {
    /// How many records may still be read.
    pub closed spec fn elements_remaining(&self) -> usize {
        self.elements_remaining
    }

    /// The stream.
    pub closed spec fn reader(&self) -> R {
        self.reader
    }

    /// An iterator over the next `num_fields` records of `reader`.
    pub fn new(num_fields: usize, reader: R) -> (it: Self)
        ensures
            it.elements_remaining() == num_fields,
            it.reader() == reader,
    {
        Self { elements_remaining: num_fields, reader, _frame_type: core::marker::PhantomData }
    }

    /// Reads the next record: `None` once all are read; otherwise the record
    /// built from the next `SIZE` bytes of the stream, or why they could not
    /// be read. A failed read does not count, so the next call tries again.
    pub fn next(&mut self) -> (item: Option<Result<T, ReadExactError<R::Error>>>)
        requires
            old(self).elements_remaining() > 0 ==> SIZE <= old(self).reader().read_limit(),
        ensures
            old(self).elements_remaining() == 0 ==> item is None && *final(self) == *old(self),
            old(self).elements_remaining() > 0 ==> {
                let taken = final(self).reader().consumed().skip(
                    old(self).reader().consumed().len() as int,
                );
                let pending = old(self).reader().pending();
                &&& old(self).reader().consumed().is_prefix_of(final(self).reader().consumed())
                &&& taken.len() <= pending.len()
                &&& taken == pending.take(taken.len() as int)
                &&& final(self).reader().pending() == pending.skip(taken.len() as int)
                &&& final(self).reader().reliable() == old(self).reader().reliable()
                &&& final(self).reader().setting() == old(self).reader().setting()
                &&& final(self).reader().source() == old(self).reader().source() + taken
                &&& old(self).reader().reliable() ==> (item matches Some(Ok(_)) <==> SIZE
                    <= pending.len())
                &&& old(self).reader().reliable() && pending.len() < SIZE ==> item == Some(
                    Err::<T, ReadExactError<R::Error>>(ReadExactError::UnexpectedEof),
                )
                &&& final(self).reader().read_limit() + final(self).reader().consumed().len()
                    >= old(self).reader().read_limit() + old(self).reader().consumed().len()
                &&& match item {
                    Some(Ok(field)) => {
                        &&& taken.len() == SIZE
                        &&& final(self).elements_remaining() == old(self).elements_remaining() - 1
                        &&& forall|a: [u8; SIZE]|
                            a@ == taken && <T as vstd::std_specs::convert::FromSpec<
                                [u8; SIZE],
                            >>::obeys_from_spec() ==> field == <T as vstd::std_specs::convert::FromSpec<
                                [u8; SIZE],
                            >>::from_spec(a)
                    },
                    Some(Err(_)) => taken.len() < SIZE && final(self).elements_remaining()
                        == old(self).elements_remaining(),
                    None => false,
                }
            },
    {
        if self.elements_remaining == 0 {
            return None;
        }
        let ghost before = self.reader;
        let read = self.reader.read_exact(SIZE);
        proof {
            let k = self.reader.consumed().len() - before.consumed().len();
            assert(self.reader.consumed().skip(before.consumed().len() as int)
                =~= before.pending().take(k));
            assert(before.consumed().is_prefix_of(self.reader.consumed())) by {
                assert(self.reader.consumed().take(before.consumed().len() as int)
                    =~= before.consumed());
            }
        }
        let bytes = match read {
            Ok(bytes) => bytes,
            Err(e) => return Some(Err(e)),
        };
        let buf: [u8; SIZE] = match array_from_slice::<SIZE>(bytes.as_slice()) {
            Some(a) => a,
            None => {
                assert(false);
                return None;
            },
        };
        self.elements_remaining = self.elements_remaining - 1;
        proof {
            broadcast use vstd::array::group_array_axioms;

            assert forall|a: [u8; SIZE]| a@ == buf@ implies a == buf by {
                assert(a =~= buf);
            }
        }
        Some(Ok(T::from(buf)))
    }
}

} // verus!
