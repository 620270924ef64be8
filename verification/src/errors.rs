use vstd::prelude::*;

verus! {

/// Error value indicating insufficient capacity.
///
/// Returned exactly when an insertion would grow a vector or string
/// beyond its fixed capacity. It carries the rejected element, so the
/// caller can recover the value rather than lose it; `simplify` discards
/// the payload where only the failure signal matters.
#[derive(Clone, Copy, PartialEq, Eq, PartialOrd, Ord, Debug)]
pub struct CapacityError<T = ()> {
    element: T,
}

impl<T> View for CapacityError<T> {
    type V = T;

    closed spec fn view(&self) -> T {
        self.element
    }
}

impl<T> CapacityError<T> {
    /// Wrap a rejected element.
    pub(crate) fn new(element: T) -> (e: CapacityError<T>)
        ensures
            e@ == element,
    {
        CapacityError { element }
    }

    /// Extract the overflowing element.
    pub fn element(self) -> (r: T)
        ensures
            r == self@,
    {
        self.element
    }

    /// Convert into a `CapacityError` that does not carry an element.
    pub fn simplify(self) -> (r: CapacityError)
        ensures
            r@ == (),
    {
        CapacityError { element: () }
    }

    /// A human-readable description of the failure.
    pub fn description(&self) -> (r: &'static str)
        ensures
            r@ == "insufficient capacity"@,
    {
        "insufficient capacity"
    }
}

} // verus!
