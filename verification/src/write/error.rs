use vstd::prelude::*;

verus! {

/// Why writing a payload failed.
#[derive(Debug)]
pub enum WriteError<E> {
    /// The field records that the metadata announces would take 65536 bytes
    /// or more.
    TooMuchPlannedData,
    /// Fewer field records were written than the metadata announced.
    InsufficientDataWritten,
    /// More field records were offered than the metadata announced.
    ExcessData,
    /// The stream reported an error.
    Other(E),
}

impl<E> From<E> for WriteError<E> {
    fn from(value: E) -> (r: Self)
        ensures
            r == WriteError::Other(value),
    {
        WriteError::Other(value)
    }
}

impl<E> vstd::std_specs::convert::FromSpecImpl<E> for WriteError<E> {
    open spec fn obeys_from_spec() -> bool {
        true
    }

    open spec fn from_spec(value: E) -> Self {
        WriteError::Other(value)
    }
}

} // verus!
