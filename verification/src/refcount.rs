//! A shared reference counter: clones share one counter, and the count is
//! observable. Samples and buffers can be tracked by holders without any
//! teardown order beyond the last release.

use vstd::prelude::*;

use std::rc::Rc;

verus! {

/// A handle on a shared counter; cloning the handle raises the count that
/// every clone sees.
#[derive(Clone)]
pub struct ReferenceCount {
    pub inner: Rc<()>,
}

/// Relies on `std::rc::Rc::strong_count`: the number of live `Rc` handles on
/// the allocation is at least the one asked about.
#[verifier::external_body]
fn rc_strong_count(rc: &Rc<()>) -> (r: usize)
    ensures
        r >= 1,
{
    Rc::strong_count(rc)
}

impl ReferenceCount {
    /// A fresh counter with one holder.
    pub fn new() -> (r: ReferenceCount) {
        ReferenceCount { inner: Rc::new(()) }
    }

    /// How many holders share this counter. At least this handle holds it.
    pub fn value(&self) -> (r: usize)
        ensures
            r >= 1,
    {
        rc_strong_count(&self.inner)
    }
}

} // verus!
