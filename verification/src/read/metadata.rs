use vstd::prelude::*;

use crate::read::readable::Readable;

verus! {

/// The metadata record of a payload: it announces how many field records
/// follow it.
pub trait ReadableMetadataField: Readable {
    /// What `num_fields` returns.
    /// A type that does not define it gets some fixed but unknown
    /// function.
    closed spec fn spec_num_fields(&self) -> usize {
        vstd::pervasive::arbitrary::<spec_fn(Self) -> usize>()(*self)
    }

    fn num_fields(&self) -> (n: usize)
        ensures
            n == self.spec_num_fields(),
    ;
}

/// Whether a payload has read its metadata yet.
pub trait MetadataState {

}

/// The payload has read its metadata and keeps it.
pub struct Cached<M: ReadableMetadataField> {
    pub metadata: M,
}

impl<M: ReadableMetadataField> MetadataState for Cached<M> {

}

/// The payload has not read its metadata yet.
pub struct UnCached;

impl MetadataState for UnCached {

}

// --- Cached impls --- //
impl<M: ReadableMetadataField> core::ops::Deref for Cached<M> {
    type Target = M;

    fn deref(&self) -> (r: &M)
        ensures
            *r == self.metadata,
    {
        &self.metadata
    }
}

} // verus!
