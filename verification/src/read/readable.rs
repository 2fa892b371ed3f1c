use vstd::prelude::*;

verus! {

/// Marker error: the bytes were not a valid representation of the target type.
/// Callers should map this to their own error type.
#[derive(Debug, PartialEq, Eq)]
pub struct ConversionError;

/// A value that is stored as exactly `SIZE` bytes and read back from them.
///
/// `decoded(bytes)` is what `read` gives for `bytes`: the value they
/// represent, or `ConversionError` when they represent none.
pub trait Readable: Sized {
    const SIZE: usize;

    /// What `read` gives for `data`.
    /// A type that does not define it gets some fixed but unknown
    /// function.
    closed spec fn decoded(data: Seq<u8>) -> Result<Self, ConversionError> {
        vstd::pervasive::arbitrary::<spec_fn(Seq<u8>) -> Result<Self, ConversionError>>()(data)
    }

    fn read(data: &[u8]) -> (r: Result<Self, ConversionError>)
        requires
            data@.len() == Self::SIZE,
        ensures
            r == Self::decoded(data@),
    ;
}

} // verus!
