use vstd::prelude::*;

use crate::frame::{fields_bytes, lemma_fields_bytes_layout};
use crate::io::{after_front, ByteWrite};
use crate::write::error::WriteError;
use crate::write::fields::WritableFrameField;
use crate::write::metadata::{MetadataWriteState, NotWritten, WritableMetadataField, Written};

verus! {

/// The field records of a payload must take fewer than this many bytes.
pub const PLANNED_DATA_LIMIT: usize = 65536;

/// A payload being written to a stream: first its metadata record (`begin`),
/// then exactly the field records it announces (`write_field`), then
/// `finish`.
pub struct WritablePayload<
    M: WritableMetadataField,
    S: MetadataWriteState,
    T: WritableFrameField,
    W: ByteWrite,
> {
    _metadata_type: core::marker::PhantomData<M>,
    metadata_state: S,
    _frame_type: core::marker::PhantomData<T>,
    writer: W,
}

impl<
    M: WritableMetadataField,
    S: MetadataWriteState,
    T: WritableFrameField,
    W: ByteWrite,
> WritablePayload<M, S, T, W> {
    /// Where the metadata stands.
    pub closed spec fn metadata_state(&self) -> S {
        self.metadata_state
    }

    /// The stream.
    pub closed spec fn writer(&self) -> W {
        self.writer
    }
}

impl<M: WritableMetadataField, T: WritableFrameField, W: ByteWrite> WritablePayload<
    M,
    NotWritten,
    T,
    W,
> {
    /// A payload that writes to `writer`.
    pub fn new(writer: W) -> (p: Self)
        ensures
            p.writer() == writer,
    {
        Self {
            _metadata_type: core::marker::PhantomData,
            metadata_state: NotWritten,
            _frame_type: core::marker::PhantomData,
            writer,
        }
    }

    /// Writes the metadata record. Refused with `TooMuchPlannedData`, before
    /// anything is written, when the field records it announces would take
    /// `PLANNED_DATA_LIMIT` bytes or more; fails with `Other` when the stream
    /// fails, and the stream is dropped then.
    pub fn begin(self, metadata: M) -> (r: Result<
        WritablePayload<M, Written, T, W>,
        WriteError<W::Error>,
    >)
        requires
            metadata.encoded().len() <= self.writer().write_limit(),
        ensures
            ({
                let planned: int = metadata.spec_num_fields() * T::SIZE;
                match r {
                    Ok(p) => {
                        &&& planned < PLANNED_DATA_LIMIT
                        &&& p.fields_remaining_spec() == metadata.spec_num_fields()
                        &&& p.writer().sent() == self.writer().sent() + metadata.encoded()
                        &&& p.writer().write_limit() + metadata.encoded().len()
                            >= self.writer().write_limit()
                        &&& p.writer().reliable() == self.writer().reliable()
                        &&& p.writer().setting() == self.writer().setting()
                        &&& p.writer().unwritten() == after_front(
                            self.writer().unwritten(),
                            metadata.encoded().len() as int,
                        )
                        &&& p.writer().destination() == self.writer().destination()
                            + metadata.encoded()
                        &&& self.writer().reliable() ==> p.writer().space()
                            == self.writer().space() - metadata.encoded().len()
                    },
                    Err(WriteError::TooMuchPlannedData) => planned >= PLANNED_DATA_LIMIT,
                    Err(WriteError::Other(_)) => planned < PLANNED_DATA_LIMIT,
                    Err(_) => false,
                }
            }),
            self.writer().reliable() && metadata.spec_num_fields() * T::SIZE
                < PLANNED_DATA_LIMIT ==> (r is Ok <==> metadata.encoded().len()
                <= self.writer().space()),
    {
        let mut writer = self.writer;
        let num_fields: usize = metadata.num_fields();
        let planned: usize = match num_fields.checked_mul(T::SIZE) {
            Some(p) => p,
            None => return Err(WriteError::TooMuchPlannedData),
        };
        if planned >= PLANNED_DATA_LIMIT {
            return Err(WriteError::TooMuchPlannedData);
        }
        let ghost before = writer;
        match metadata.write_to(&mut writer) {
            Ok(()) => {},
            Err(e) => return Err(WriteError::Other(e)),
        }
        assert(writer.write_limit() + metadata.encoded().len() >= before.write_limit());
        Ok(WritablePayload {
            _metadata_type: core::marker::PhantomData,
            metadata_state: Written::new(num_fields),
            _frame_type: core::marker::PhantomData,
            writer,
        })
    }
}

impl<M: WritableMetadataField, T: WritableFrameField, W: ByteWrite> WritablePayload<
    M,
    Written,
    T,
    W,
> {
    /// How many field records are still owed.
    pub open spec fn fields_remaining_spec(&self) -> usize {
        self.metadata_state().fields_remaining
    }

    /// Writes the next field record. Refused with `ExcessData`, before
    /// anything is written, when no record is owed any more; fails with
    /// `Other` when the stream fails, and the record counts as written then.
    pub fn write_field(&mut self, field: T) -> (r: Result<(), WriteError<W::Error>>)
        requires
            old(self).fields_remaining_spec() > 0 ==> field.encoded().len() <= old(
                self,
            ).writer().write_limit(),
        ensures
            old(self).fields_remaining_spec() == 0 ==> r == Err::<(), WriteError<W::Error>>(
                WriteError::ExcessData,
            ) && *final(self) == *old(self),
            old(self).fields_remaining_spec() > 0 ==> {
                &&& final(self).fields_remaining_spec() == old(self).fields_remaining_spec() - 1
                &&& old(self).writer().sent().is_prefix_of(final(self).writer().sent())
                &&& final(self).writer().write_limit() + final(self).writer().sent().len()
                    >= old(self).writer().write_limit() + old(self).writer().sent().len()
                &&& final(self).writer().reliable() == old(self).writer().reliable()
                &&& final(self).writer().setting() == old(self).writer().setting()
                &&& final(self).writer().unwritten() == after_front(
                    old(self).writer().unwritten(),
                    final(self).writer().sent().len() - old(self).writer().sent().len(),
                )
                &&& final(self).writer().destination() == old(self).writer().destination()
                    + final(self).writer().sent().skip(old(self).writer().sent().len() as int)
                &&& match r {
                    Ok(()) => final(self).writer().sent() == old(self).writer().sent()
                        + field.encoded(),
                    Err(WriteError::Other(_)) => true,
                    Err(_) => false,
                }
                &&& old(self).writer().reliable() ==> (r is Ok <==> field.encoded().len() <= old(
                    self,
                ).writer().space())
                &&& old(self).writer().reliable() && r is Ok ==> final(self).writer().space()
                    == old(self).writer().space() - field.encoded().len()
            },
    {
        if self.metadata_state.fields_remaining == 0 {
            return Err(WriteError::ExcessData);
        }
        self.metadata_state.fields_remaining = self.metadata_state.fields_remaining - 1;
        match field.write_to(&mut self.writer) {
            Ok(()) => Ok(()),
            Err(e) => Err(WriteError::Other(e)),
        }
    }

    /// How many field records are still owed.
    pub fn fields_remaining(&self) -> (n: usize)
        ensures
            n == self.fields_remaining_spec(),
    {
        self.metadata_state.fields_remaining
    }

    /// Flushes the stream and gives it back once every announced field record
    /// has been written; otherwise `InsufficientDataWritten`, and the stream
    /// is dropped.
    pub fn finish(self) -> (r: Result<W, WriteError<W::Error>>)
        ensures
            self.fields_remaining_spec() != 0 ==> r == Err::<W, WriteError<W::Error>>(
                WriteError::InsufficientDataWritten,
            ),
            self.fields_remaining_spec() == 0 ==> match r {
                Ok(w) => {
                    &&& w.sent() == self.writer().sent()
                    &&& w.space() == self.writer().space()
                    &&& w.reliable() == self.writer().reliable()
                    &&& w.setting() == self.writer().setting()
                    &&& w.unwritten() == self.writer().unwritten()
                    &&& w.destination() == self.writer().destination()
                    &&& w.buffered() == 0
                    &&& w.write_limit() >= self.writer().write_limit()
                },
                Err(WriteError::Other(_)) => !self.writer().reliable(),
                Err(_) => false,
            },
    {
        if self.metadata_state.fields_remaining != 0 {
            return Err(WriteError::InsufficientDataWritten);
        }
        let mut writer = self.writer;
        match writer.flush() {
            Ok(()) => Ok(writer),
            Err(e) => Err(WriteError::Other(e)),
        }
    }
}

/// The field records of a payload that `begin` accepted fit under the
/// limit: when each of the announced `fields` is written as `T::SIZE` bytes
/// (as every record of `crate::records` is), together they take fewer than
/// `PLANNED_DATA_LIMIT` bytes.
pub proof fn lemma_accepted_fields_fit<T: WritableFrameField>(fields: Seq<T>)
    requires
        fields.len() * T::SIZE < PLANNED_DATA_LIMIT,
        forall|i: int| 0 <= i < fields.len() ==> (#[trigger] fields[i]).encoded().len() == T::SIZE,
    ensures
        fields_bytes(fields).len() == fields.len() * T::SIZE,
        fields_bytes(fields).len() < PLANNED_DATA_LIMIT,
{
    lemma_fields_bytes_layout(fields, T::SIZE as nat);
}

} // verus!
