use vstd::prelude::*;

use crate::write::writeable::Writeable;

verus! {

/// The metadata record of a payload: it announces how many field records
/// follow it.
pub trait WritableMetadataField: Writeable {
    /// What `num_fields` returns.
    /// A type that does not define it gets some fixed but unknown
    /// function.
    closed spec fn spec_num_fields(&self) -> usize {
        vstd::pervasive::arbitrary::<spec_fn(Self) -> usize>()(*self)
    }

    fn num_fields(&self) -> (n: usize)
        ensures
            n == self.spec_num_fields(),
    ;
}

/// Whether a payload has written its metadata yet.
pub trait MetadataWriteState {

}

/// The payload has written its metadata; `fields_remaining` field records
/// are still owed.
pub struct Written {
    pub fields_remaining: usize,
}

impl Written {
    pub fn new(fields_remaining: usize) -> (w: Self)
        ensures
            w.fields_remaining == fields_remaining,
    {
        Self { fields_remaining }
    }
}

impl MetadataWriteState for Written {

}

/// The payload has not written its metadata yet.
pub struct NotWritten;

impl MetadataWriteState for NotWritten {

}

} // verus!
