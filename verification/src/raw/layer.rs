//! Layers take an accessor and return one that does more.

use crate::raw::accessor::Accessor;
use vstd::prelude::*;

verus! {

/// Something that wraps accessors of type `A`.
pub trait Layer<A: Accessor>: Sized {
    /// The accessor that the layer makes.
    type LayeredAccessor: Accessor;

    /// What `layer` may return.
    open spec fn layer_post(&self, inner: A, res: Self::LayeredAccessor) -> bool {
        true
    }

    /// Wraps `inner`.
    fn layer(&self, inner: A) -> (res: Self::LayeredAccessor)
        ensures
            self.layer_post(inner, res),
    ;
}

} // verus!
