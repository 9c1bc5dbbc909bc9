//! Single-pass producers of items.

use vstd::prelude::*;
use vstd::rwlock::RwLockPredicate;

verus! {

/// A single-pass producer: it yields its items one at a time, in a fixed
/// order, and can be neither rewound nor duplicated. `remaining` is the ghost
/// sequence of items not yet drawn.
pub trait ItemSource<T> {
    /// The items not yet drawn, in the order they will come.
    spec fn remaining(&self) -> Seq<T>;

    /// Draws the next item. A drawn item is gone from `remaining`: nothing
    /// puts it back.
    fn draw(&mut self) -> (r: Option<T>)
        ensures
            old(self).remaining().len() == 0 ==> r is None && final(self).remaining()
                == old(self).remaining(),
            old(self).remaining().len() > 0 ==> r == Some(old(self).remaining()[0]) && final(self).remaining() == old(self).remaining().skip(1),
    ;
}

/// A producer backed by a vector, yielding its elements front to back.
pub struct VecSource<T> {
    items: Vec<T>,
}

impl<T> VecSource<T> {
    pub fn new(items: Vec<T>) -> (s: Self)
        ensures
            s.remaining() == items@,
    {
        VecSource { items }
    }
}

impl<T> ItemSource<T> for VecSource<T> {
    closed spec fn remaining(&self) -> Seq<T> {
        self.items@
    }

    fn draw(&mut self) -> (r: Option<T>) {
        if self.items.len() == 0 {
            None
        } else {
            let t = self.items.remove(0);
            proof {
                assert(self.items@ =~= old(self).items@.skip(1));
            }
            Some(t)
        }
    }
}

/// The lock invariant of an adapter's guarded source: whatever a traversal
/// has done so far, what remains is a suffix of the items the source held
/// when the adapter was built.
pub struct SuffixPred<T> {
    pub items: Seq<T>,
}

impl<T, I: ItemSource<T>> RwLockPredicate<I> for SuffixPred<T> {
    open spec fn inv(self, src: I) -> bool {
        self.items.len() <= usize::MAX && exists|k: int|
            0 <= k <= self.items.len() && src.remaining() =~= self.items.skip(k)
    }
}

} // verus!
