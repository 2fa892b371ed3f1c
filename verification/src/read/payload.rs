use vstd::prelude::*;

use crate::io::{ByteRead, ReadExactError};
use crate::read::error::ReadError;
use crate::read::fields::{decode_record, record_outcome, FieldIterator, ReadableFrameField};
use crate::read::metadata::{Cached, MetadataState, ReadableMetadataField, UnCached};
use crate::read::readable::ConversionError;

verus! {

/// A payload being read from a stream: first its metadata record (`load`),
/// then its field records (`into_iter`).
pub struct ReadablePayload<M: MetadataState, T: ReadableFrameField, R: ByteRead> {
    metadata: M,
    _field_iterator_marker: core::marker::PhantomData<T>,
    reader: R,
}

impl<M: MetadataState, T: ReadableFrameField, R: ByteRead> ReadablePayload<M, T, R> {
    /// Where the metadata stands.
    pub closed spec fn metadata_state(&self) -> M {
        self.metadata
    }

    /// The stream.
    pub closed spec fn reader(&self) -> R {
        self.reader
    }
}

//--- Cache impls ---//
impl<M: ReadableMetadataField, T: ReadableFrameField, R: ByteRead> ReadablePayload<
    Cached<M>,
    T,
    R,
> {
    /// The metadata record.
    pub open spec fn cached_metadata(&self) -> M {
        self.metadata_state().metadata
    }

    /// A payload whose metadata is already known; `reader` is positioned at
    /// its first field record.
    pub fn from_metadata(reader: R, metadata: M) -> (p: Self)
        ensures
            p.cached_metadata() == metadata,
            p.reader() == reader,
    {
        Self {
            metadata: Cached { metadata },
            _field_iterator_marker: core::marker::PhantomData,
            reader,
        }
    }

    /// The metadata record.
    pub fn metadata(&self) -> (m: &M)
        ensures
            *m == self.cached_metadata(),
    {
        &self.metadata.metadata
    }

    /// An iterator over the field records that the metadata announces.
    pub fn into_iter(self) -> (it: FieldIterator<T, R>)
        ensures
            it.elements_remaining() == self.cached_metadata().spec_num_fields(),
            !it.errored(),
            it.reader() == self.reader(),
    {
        FieldIterator::new(self.metadata.num_fields(), self.reader)
    }
}

// --- UnCached impls --- //
impl<T: ReadableFrameField, R: ByteRead> ReadablePayload<UnCached, T, R> {
    /// A payload whose metadata record is the next thing on `reader`.
    pub fn new(reader: R) -> (p: Self)
        ensures
            p.reader() == reader,
    {
        Self { metadata: UnCached, _field_iterator_marker: core::marker::PhantomData, reader }
    }

    /// Reads the metadata record: the next `M::SIZE` bytes of the stream.
    /// Fails with `ReadExact` when the stream cannot deliver them and with
    /// `InvalidCast` when they are not a valid `M`; the stream is dropped
    /// then. From a reliable stream the outcome is `record_outcome` of its
    /// pending bytes.
    pub fn load<M: ReadableMetadataField>(self) -> (r: Result<
        ReadablePayload<Cached<M>, T, R>,
        ReadError<R::Error>,
    >)
        requires
            M::SIZE <= self.reader().read_limit(),
        ensures
            match r {
                Ok(p) => {
                    let taken = p.reader().consumed().skip(self.reader().consumed().len() as int);
                    &&& self.reader().consumed().is_prefix_of(p.reader().consumed())
                    &&& taken.len() == M::SIZE
                    &&& M::decoded(taken) == Ok::<M, ConversionError>(p.cached_metadata())
                    &&& p.reader().read_limit() + M::SIZE >= self.reader().read_limit()
                    &&& taken == self.reader().pending().take(M::SIZE as int)
                    &&& p.reader().pending() == self.reader().pending().skip(M::SIZE as int)
                    &&& p.reader().reliable() == self.reader().reliable()
                    &&& p.reader().setting() == self.reader().setting()
                    &&& p.reader().source() == self.reader().source() + taken
                },
                Err(ReadError::ReadExact(ReadExactError::UnexpectedEof)) => self.reader().pending().len()
                    < M::SIZE,
                Err(ReadError::ReadExact(ReadExactError::Other(_))) => !self.reader().reliable(),
                Err(ReadError::InvalidCast) => {
                    &&& M::SIZE <= self.reader().pending().len()
                    &&& M::decoded(self.reader().pending().take(M::SIZE as int)) is Err
                },
                Err(_) => false,
            },
            self.reader().reliable() ==> match record_outcome::<M, R::Error>(
                self.reader().pending(),
            ) {
                Ok(m) => r matches Ok(p) && p.cached_metadata() == m,
                Err(e) => r == Err::<ReadablePayload<Cached<M>, T, R>, ReadError<R::Error>>(e),
            },
    {
        let mut reader = self.reader;
        let read = reader.read_exact(M::SIZE);
        if let Ok(bytes) = &read {
            assert(reader.consumed().skip(self.reader.consumed().len() as int) =~= bytes@);
        }
        let metadata = match decode_record::<M, R::Error>(read) {
            Ok(m) => m,
            Err(e) => return Err(e),
        };
        let cache = Cached { metadata };
        let payload = ReadablePayload {
            metadata: cache,
            _field_iterator_marker: core::marker::PhantomData,
            reader,
        };
        Ok(payload)
    }
}

} // verus!
