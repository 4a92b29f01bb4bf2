//! An integer that stays even.

use vstd::prelude::*;

verus! {

/// An `i32` that is even in every well-formed state.
pub struct EvenInt {
    num: i32,
}

impl EvenInt {
    /// The integer.
    pub closed spec fn value(&self) -> int {
        self.num as int
    }

    /// The integer is even.
    pub closed spec fn wf(&self) -> bool {
        self.num % 2 == 0
    }

    /// Creates an even integer; `x` must be even.
    pub fn new(x: i32) -> (r: Self)
        requires
            x % 2 == 0,
        ensures
            r.wf(),
            r.value() == x,
    {
        EvenInt { num: x }
    }

    /// Adds one, which makes the integer odd: callers restore evenness.
    fn add(&mut self)
        requires
            old(self).num < i32::MAX,
        ensures
            final(self).num == old(self).num + 1,
    {
        self.num += 1;
    }

    /// The even integer.
    pub fn get(&self) -> (r: i32)
        requires
            self.wf(),
        ensures
            r == self.value(),
            r % 2 == 0,
    {
        self.num
    }

    /// Adds another even integer.
    pub fn add_even(&mut self, other: &Self)
        requires
            old(self).wf(),
            other.wf(),
            i32::MIN <= old(self).value() + other.value() <= i32::MAX,
        ensures
            final(self).wf(),
            final(self).value() == old(self).value() + other.value(),
    {
        self.num += other.num;
    }

    /// Adds two.
    pub fn add_two(&mut self)
        requires
            old(self).wf(),
            old(self).value() + 2 <= i32::MAX,
        ensures
            final(self).wf(),
            final(self).value() == old(self).value() + 2,
    {
        self.add();
        self.add();
    }
}

} // verus!
