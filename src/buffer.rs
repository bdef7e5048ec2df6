use vstd::prelude::*;

verus! {

/// An iterator that owns a buffer of elements and hands out copies of them,
/// front to back.
///
/// The buffer is owned for the iterator's whole life, however many elements
/// were taken, and released once, when the iterator is dropped.
pub struct CBufferIter<T> {
    buffer: Vec<T>,
    i: usize,
}

impl<T> CBufferIter<T> {
    /// The elements of the buffer, all of them.
    pub closed spec fn items(&self) -> Seq<T> {
        self.buffer@
    }

    /// How many elements have been handed out.
    pub closed spec fn cursor(&self) -> nat {
        self.i as nat
    }

    pub closed spec fn wf(&self) -> bool {
        self.i <= self.buffer@.len()
    }

    pub fn new(buffer: Vec<T>) -> (r: Self)
        ensures
            r.wf(),
            r.items() == buffer@,
            r.cursor() == 0,
    {
        Self { buffer, i: 0 }
    }

    /// The number of elements in the buffer.
    pub fn count(&self) -> (r: usize)
        ensures
            r == self.items().len(),
    {
        self.buffer.len()
    }
}

impl<T: Copy> CBufferIter<T> {
    /// A copy of the next element, or `None` once all have been handed out.
    pub fn next(&mut self) -> (r: Option<T>)
        requires
            old(self).wf(),
        ensures
            final(self).wf(),
            final(self).items() == old(self).items(),
            old(self).cursor() < old(self).items().len() ==> r == Some(
                old(self).items()[old(self).cursor() as int],
            ) && final(self).cursor() == old(self).cursor() + 1,
            old(self).cursor() >= old(self).items().len() ==> r is None && final(self).cursor()
                == old(self).cursor(),
    {
        if self.i < self.buffer.len() {
            let item = self.buffer[self.i];
            self.i = self.i + 1;
            Some(item)
        } else {
            None
        }
    }
}

} // verus!
