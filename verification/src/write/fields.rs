use vstd::prelude::*;

use crate::write::writeable::Writeable;

verus! {

/// A field record of a payload, written as `SIZE` bytes; a payload counts
/// `SIZE` bytes per announced field when it checks its planned size.
pub trait WritableFrameField: Writeable + Sized {
    const SIZE: usize;
}

} // verus!
