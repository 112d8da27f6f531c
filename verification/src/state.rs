//! What the request handlers share.

use vstd::prelude::*;

verus! {

/// The state every request handler works on: the one storage adaptor. The
/// service keeps it behind a lock, so that one handler at a time holds it.
pub struct ApiState<A> {
    pub adaptor: A,
}

impl<A> ApiState<A> {
    /// Wraps the storage adaptor.
    pub fn new(adaptor: A) -> (state: ApiState<A>)
        ensures
            state.adaptor == adaptor,
    {
        ApiState { adaptor }
    }

    /// The storage adaptor.
    pub fn adaptor(&self) -> (adaptor: &A)
        ensures
            *adaptor == self.adaptor,
    {
        &self.adaptor
    }
}

} // verus!
