use vstd::prelude::*;

use crate::drain::Drain;
use crate::errors::CapacityError;

verus! {

/// A vector backed by storage of a fixed capacity, chosen at
/// construction.
///
/// The vector holds at most `capacity` elements. `push`, `insert` and
/// the other growing operations refuse, with a [`CapacityError`] that
/// hands the rejected element back, anything that would grow it beyond
/// that bound; nothing ever grows the capacity itself.
#[derive(Debug)]
pub struct ArrayVec<T> {
    data: Vec<T>,
    capacity: usize,
}

/// One push against a capacity bound: the element is appended when there
/// is room, and the sequence is left unchanged when there is none.
pub open spec fn pushed<T>(s: Seq<T>, cap: nat, x: T) -> Seq<T> {
    if s.len() < cap {
        s.push(x)
    } else {
        s
    }
}

/// Every element of `xs` pushed in order against a capacity bound.
pub open spec fn pushed_all<T>(s: Seq<T>, cap: nat, xs: Seq<T>) -> Seq<T>
    decreases xs.len(),
{
    if xs.len() == 0 {
        s
    } else {
        pushed_all(pushed(s, cap, xs[0]), cap, xs.drop_first())
    }
}

/// A sequence truncated to at most `k` elements: a proper prefix when
/// `k` is below the length, the whole sequence otherwise.
pub open spec fn truncated<T>(s: Seq<T>, k: nat) -> Seq<T> {
    if k < s.len() {
        s.take(k as int)
    } else {
        s
    }
}

/// Law: a run of pushes that stays within capacity succeeds entirely —
/// every element is appended in order, so the final length exceeds the
/// starting one by exactly the count of pushes.
pub proof fn lemma_pushed_all_within_capacity<T>(s: Seq<T>, cap: nat, xs: Seq<T>)
    requires
        s.len() + xs.len() <= cap,
    ensures
        pushed_all(s, cap, xs) == s + xs,
    decreases xs.len(),
{
    if xs.len() == 0 {
        assert(pushed_all(s, cap, xs) =~= s + xs);
    } else {
        lemma_pushed_all_within_capacity(s.push(xs[0]), cap, xs.drop_first());
        assert(s.push(xs[0]) + xs.drop_first() =~= s + xs);
    }
}

/// Law: inserting `x` at `index` and then removing at the same index,
/// with no mutation in between, returns `x` and leaves the sequence as
/// it was.
pub proof fn lemma_insert_remove_round_trip<T>(s: Seq<T>, index: int, x: T)
    requires
        0 <= index <= s.len(),
    ensures
        s.insert(index, x)[index] == x,
        s.insert(index, x).remove(index) == s,
{
    assert(s.insert(index, x).remove(index) =~= s);
}

/// Law: truncation is idempotent — truncating to `k` a second time
/// changes nothing.
pub proof fn lemma_truncate_idempotent<T>(s: Seq<T>, k: nat)
    ensures
        truncated(truncated(s, k), k) == truncated(s, k),
{
}

impl<T> View for ArrayVec<T> {
    type V = Seq<T>;

    closed spec fn view(&self) -> Seq<T> {
        self.data@
    }
}

impl<T> ArrayVec<T> {
    /// The vector never holds more elements than its fixed capacity.
    pub open spec fn wf(&self) -> bool {
        self@.len() <= self.spec_capacity()
    }

    /// The fixed capacity.
    pub closed spec fn spec_capacity(&self) -> usize {
        self.capacity
    }

    /// Create an empty vector with the given fixed capacity.
    pub fn new(capacity: usize) -> (v: ArrayVec<T>)
        ensures
            v.wf(),
            v@ == Seq::<T>::empty(),
            v.spec_capacity() == capacity,
    {
        ArrayVec { data: Vec::with_capacity(capacity), capacity }
    }

    /// Build a vector, with the given capacity, holding the elements of
    /// `items`; refuse, handing `items` back, when it is longer than the
    /// capacity.
    pub fn from_vec(capacity: usize, items: Vec<T>) -> (r: Result<ArrayVec<T>, CapacityError<Vec<T>>>)
        ensures
            items@.len() <= capacity ==> (r matches Ok(v) && v.wf() && v@ == items@
                && v.spec_capacity() == capacity),
            items@.len() > capacity ==> (r matches Err(e) && e@ == items),
    {
        if items.len() <= capacity {
            Ok(ArrayVec { data: items, capacity })
        } else {
            Err(CapacityError::new(items))
        }
    }

    /// The fixed capacity.
    #[verifier::when_used_as_spec(spec_capacity)]
    pub fn capacity(&self) -> (c: usize)
        ensures
            c == self.spec_capacity(),
    {
        self.capacity
    }

    /// The number of elements currently held.
    pub fn len(&self) -> (n: usize)
        ensures
            n == self@.len(),
    {
        self.data.len()
    }

    /// True when the vector holds no elements.
    pub fn is_empty(&self) -> (r: bool)
        ensures
            r == (self@.len() == 0),
    {
        self.data.is_empty()
    }

    /// Append `x` when there is room; hand it back inside a
    /// `CapacityError` when the vector is full, changing nothing.
    pub fn push(&mut self, x: T) -> (r: Result<(), CapacityError<T>>)
        requires
            old(self).wf(),
        ensures
            final(self).wf(),
            final(self).spec_capacity() == old(self).spec_capacity(),
            final(self)@ == pushed(old(self)@, old(self).spec_capacity() as nat, x),
            old(self)@.len() < old(self).spec_capacity() ==> r is Ok && final(self)@ == old(self)@.push(x),
            old(self)@.len() >= old(self).spec_capacity() ==> (r matches Err(e) && e@ == x)
                && final(self)@ == old(self)@,
    {
        if self.data.len() < self.capacity {
            self.data.push(x);
            Ok(())
        } else {
            Err(CapacityError::new(x))
        }
    }

    /// Remove and return the last element; `None` when the vector is
    /// empty.
    pub fn pop(&mut self) -> (r: Option<T>)
        requires
            old(self).wf(),
        ensures
            final(self).wf(),
            final(self).spec_capacity() == old(self).spec_capacity(),
            old(self)@.len() > 0 ==> r == Some(old(self)@.last()) && final(self)@ == old(self)@.drop_last(),
            old(self)@.len() == 0 ==> r is None && final(self)@ == old(self)@,
    {
        self.data.pop()
    }

    /// Insert `x` at `index`, shifting the elements from `index` on one
    /// slot to the right; refuse, handing `x` back, when the vector is
    /// full, changing nothing.
    pub fn insert(&mut self, index: usize, x: T) -> (r: Result<(), CapacityError<T>>)
        requires
            old(self).wf(),
            index <= old(self)@.len(),
        ensures
            final(self).wf(),
            final(self).spec_capacity() == old(self).spec_capacity(),
            old(self)@.len() < old(self).spec_capacity() ==> r is Ok && final(self)@ == old(self)@.insert(index as int, x),
            old(self)@.len() >= old(self).spec_capacity() ==> (r matches Err(e) && e@ == x)
                && final(self)@ == old(self)@,
    {
        if self.data.len() < self.capacity {
            self.data.insert(index, x);
            Ok(())
        } else {
            Err(CapacityError::new(x))
        }
    }

    /// Remove and return the element at `index`, shifting the elements
    /// after it one slot to the left.
    pub fn remove(&mut self, index: usize) -> (x: T)
        requires
            old(self).wf(),
            index < old(self)@.len(),
        ensures
            final(self).wf(),
            final(self).spec_capacity() == old(self).spec_capacity(),
            x == old(self)@[index as int],
            final(self)@ == old(self)@.remove(index as int),
    {
        self.data.remove(index)
    }

    /// Remove and return the element at `index` in constant time by
    /// moving the last element into its place; the order of the
    /// remaining elements is not preserved.
    pub fn swap_remove(&mut self, index: usize) -> (x: T)
        requires
            old(self).wf(),
            index < old(self)@.len(),
        ensures
            final(self).wf(),
            final(self).spec_capacity() == old(self).spec_capacity(),
            x == old(self)@[index as int],
            final(self)@ == old(self)@.update(index as int, old(self)@.last()).drop_last(),
    {
        self.data.swap_remove(index)
    }

    /// Drop the elements from `new_len` on, in order; lengths at or
    /// beyond the current one leave the vector unchanged.
    pub fn truncate(&mut self, new_len: usize)
        requires
            old(self).wf(),
        ensures
            final(self).wf(),
            final(self).spec_capacity() == old(self).spec_capacity(),
            final(self)@ == truncated(old(self)@, new_len as nat),
    {
        self.data.truncate(new_len);
        proof {
            if new_len >= old(self)@.len() {
                assert(self.data@ =~= old(self)@);
            }
        }
    }

    /// Remove every element; equivalent to truncation to length zero.
    pub fn clear(&mut self)
        requires
            old(self).wf(),
        ensures
            final(self).wf(),
            final(self).spec_capacity() == old(self).spec_capacity(),
            final(self)@ == Seq::<T>::empty(),
    {
        self.data.clear();
    }

    /// Read-only access to the element at `index`; `None` out of bounds,
    /// so no slot beyond the live prefix is ever exposed.
    pub fn get(&self, index: usize) -> (r: Option<&T>)
        ensures
            index < self@.len() ==> (r matches Some(x) && *x == self@[index as int]),
            index >= self@.len() ==> r is None,
    {
        if index < self.data.len() {
            Some(&self.data[index])
        } else {
            None
        }
    }

    /// A read-only view of the live elements.
    pub fn as_slice(&self) -> (r: &[T])
        ensures
            r@ == self@,
    {
        self.data.as_slice()
    }

    /// Append every element of `items`, in order, when the whole of it
    /// fits in the remaining room; otherwise refuse, handing `items`
    /// back and changing nothing.
    pub fn extend_from_vec(&mut self, items: Vec<T>) -> (r: Result<(), CapacityError<Vec<T>>>)
        requires
            old(self).wf(),
        ensures
            final(self).wf(),
            final(self).spec_capacity() == old(self).spec_capacity(),
            old(self)@.len() + items@.len() <= old(self).spec_capacity() ==> r is Ok && final(self)@ == old(self)@ + items@,
            old(self)@.len() + items@.len() > old(self).spec_capacity() ==> (r matches Err(e)
                && e@ == items) && final(self)@ == old(self)@,
    {
        if items.len() <= self.capacity - self.data.len() {
            let mut items = items;
            self.data.append(&mut items);
            Ok(())
        } else {
            Err(CapacityError::new(items))
        }
    }

    /// Remove the elements of `[start, end)` and hand them out, in
    /// order, through a `Drain`. The vector is dense again — the range
    /// excised, the length reduced by the whole of the range — as soon
    /// as this call returns, however much of the `Drain` is later
    /// consumed.
    pub fn drain(&mut self, start: usize, end: usize) -> (d: Drain<T>)
        requires
            old(self).wf(),
            start <= end,
            end <= old(self)@.len(),
        ensures
            final(self).wf(),
            final(self).spec_capacity() == old(self).spec_capacity(),
            d@ == old(self)@.subrange(start as int, end as int),
            final(self)@ == old(self)@.subrange(0, start as int) + old(self)@.skip(end as int),
    {
        let ghost orig = self.data@;
        let ghost cap = self.capacity;
        let count = end - start;
        let mut out: Vec<T> = Vec::new();
        let mut k: usize = 0;
        while k < count
            invariant
                self.capacity == cap,
                count == end - start,
                start <= end <= orig.len(),
                k <= count,
                out@ == orig.subrange(start as int, start + k as int),
                self.data@ == orig.subrange(0, start as int) + orig.skip(start + k as int),
            decreases count - k,
        {
            proof {
                assert(self.data@.len() == orig.len() - k);
            }
            let x = self.data.remove(start);
            out.push(x);
            proof {
                let a = orig.subrange(0, start as int);
                let b = orig.skip(start + k as int);
                assert(x == b[0]);
                assert(x == orig[start + k as int]);
                assert((a + b).remove(start as int) =~= a + orig.skip(start + k + 1 as int));
                assert(out@ =~= orig.subrange(start as int, start + (k + 1) as int));
            }
            k = k + 1;
        }
        proof {
            assert(out@ =~= orig.subrange(start as int, end as int));
            assert(self.data@ =~= orig.subrange(0, start as int) + orig.skip(end as int));
        }
        Drain::new(out)
    }
}

} // verus!
