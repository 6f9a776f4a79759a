//! A holder for shared state that is read everywhere and replaced on reload.
use vstd::prelude::*;

verus! {

pub struct Lock<T> {
    inner: T,
}

impl<T> Lock<T> {
    /// The value held.
    pub closed spec fn value(&self) -> T {
        self.inner
    }

    pub fn new(inner: T) -> (r: Self)
        ensures
            r.value() == inner,
    {
        Lock { inner }
    }

    pub fn get(&self) -> (r: &T)
        ensures
            *r == self.value(),
    {
        &self.inner
    }

    /// Access for replacing or changing the value; what is written through
    /// the reference is what the lock holds afterwards.
    pub fn get_mut(&mut self) -> (r: &mut T)
        ensures
            *r == old(self).value(),
            final(self).value() == *final(r),
    {
        &mut self.inner
    }
}

} // verus!
