use vstd::prelude::*;

verus! {

/// A source of pixels that hands out one value over and over, such as the
/// single colour of a filled rectangle.
pub struct AlwaysSame<T> {
    pub value: T,
}

/// The endless sequence of clones of one value.
pub struct AlwaysSameIter<T: Clone> {
    pub value: T,
}

impl<T: Clone> AlwaysSame<T> {
    /// The sequence that repeats this value.
    pub fn into_iter(self) -> (it: AlwaysSameIter<T>)
        ensures
            it.value == self.value,
    {
        AlwaysSameIter { value: self.value }
    }
}

impl<T: Clone> AlwaysSameIter<T> {
    /// The next element: always a clone of the value, and the sequence never ends.
    pub fn next(&mut self) -> (r: Option<T>)
        ensures
            *final(self) == *old(self),
            r is Some,
            cloned(old(self).value, r->0),
    {
        Some(self.value.clone())
    }

    /// The first `n` elements of the sequence.
    pub fn take(&self, n: usize) -> (v: Vec<T>)
        ensures
            v@.len() == n,
            forall|i: int| 0 <= i < n ==> cloned(self.value, #[trigger] v@[i]),
    {
        let mut v: Vec<T> = Vec::new();
        for i in 0..n
            invariant
                v@.len() == i,
                forall|j: int| 0 <= j < i ==> cloned(self.value, #[trigger] v@[j]),
        {
            v.push(self.value.clone());
        }
        v
    }
}

} // verus!
