use vstd::prelude::*;

verus! {

/// The elements removed from a vector by `ArrayVec::drain`, handed out
/// one at a time, in their original order.
///
/// The vector is already dense again — the drained range excised and the
/// length reduced by the whole of that range — by the time the `Drain`
/// exists. Abandoning the `Drain` after any number of `next` calls, or
/// letting a panic in consuming code carry it away, merely drops the
/// elements not yet yielded; it cannot leave the vector in an invalid
/// state.
#[derive(Debug)]
pub struct Drain<T> {
    items: Vec<T>,
}

impl<T> View for Drain<T> {
    type V = Seq<T>;

    closed spec fn view(&self) -> Seq<T> {
        self.items@
    }
}

impl<T> Drain<T> {
    pub(crate) fn new(items: Vec<T>) -> (d: Drain<T>)
        ensures
            d@ == items@,
    {
        Drain { items }
    }

    /// Yield the next element not yet handed out; `None` once the whole
    /// drained range has been consumed.
    pub fn next(&mut self) -> (r: Option<T>)
        ensures
            old(self)@.len() > 0 ==> r == Some(old(self)@[0]) && final(self)@ == old(self)@.drop_first(),
            old(self)@.len() == 0 ==> r is None && final(self)@ == old(self)@,
    {
        if self.items.len() > 0 {
            let x = self.items.remove(0);
            proof {
                assert(self.items@ =~= old(self)@.drop_first());
            }
            Some(x)
        } else {
            None
        }
    }

    /// How many elements have not yet been yielded.
    pub fn remaining(&self) -> (n: usize)
        ensures
            n == self@.len(),
    {
        self.items.len()
    }
}

} // verus!
