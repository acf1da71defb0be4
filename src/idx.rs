use vstd::prelude::*;

verus! {

/// A newtyped index, so that indexes of different domains are not mixed up.
pub trait Idx: Copy + Sized {
    /// The index that a value stands for.
    spec fn spec_index(self) -> nat;

    /// Whether `i` can be held by the index type.
    spec fn holds(i: int) -> bool;

    fn new(idx: usize) -> (r: Self)
        requires
            Self::holds(idx as int),
        ensures
            r.spec_index() == idx as nat,
    ;

    fn index(self) -> (r: usize)
        ensures
            r as nat == self.spec_index(),
    ;

    fn increment(&mut self)
        requires
            Self::holds(old(self).spec_index() + 1int),
            old(self).spec_index() + 1 <= usize::MAX,
        ensures
            final(self).spec_index() == old(self).spec_index() + 1,
    {
        *self = self.plus(1);
    }

    fn increment_by(&mut self, amount: usize)
        requires
            Self::holds(old(self).spec_index() + amount),
            old(self).spec_index() + amount <= usize::MAX,
        ensures
            final(self).spec_index() == old(self).spec_index() + amount,
    {
        *self = self.plus(amount);
    }

    fn plus(self, amount: usize) -> (r: Self)
        requires
            Self::holds(self.spec_index() + amount),
            self.spec_index() + amount <= usize::MAX,
        ensures
            r.spec_index() == self.spec_index() + amount,
    {
        let i = self.index();
        Self::new(i + amount)
    }
}

impl Idx for usize {
    open spec fn spec_index(self) -> nat {
        self as nat
    }

    open spec fn holds(i: int) -> bool {
        i <= usize::MAX
    }

    fn new(idx: usize) -> (r: Self) {
        idx
    }

    fn index(self) -> (r: usize) {
        self
    }
}

impl Idx for u32 {
    open spec fn spec_index(self) -> nat {
        self as nat
    }

    open spec fn holds(i: int) -> bool {
        i <= u32::MAX
    }

    fn new(idx: usize) -> (r: Self) {
        idx as u32
    }

    fn index(self) -> (r: usize) {
        self as usize
    }
}

} // verus!
