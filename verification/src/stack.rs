//! Fixed-depth LIFO stack of 16-bit return addresses used for subroutine
//! call and return. Exceeding the capacity on push, or popping an empty
//! stack, is a fatal error: it indicates runaway recursion or a defect in
//! the interpreted program, not a recoverable condition.

use crate::Chip8Error;
use vstd::prelude::*;

verus! {

/// Limit the stack to 16 two-byte entries.
pub const STACK_DEPTH: usize = 16;

pub struct Stack {
    inner: Vec<u16>,
    pointer: usize,
}

impl View for Stack {
    type V = Seq<u16>;

    /// The live entries, oldest first; the last element is the most
    /// recently pushed address.
    closed spec fn view(&self) -> Seq<u16> {
        self.inner@.take(self.pointer as int)
    }
}

impl Stack {
    /// The full backing storage, live entries and stale slots alike; what
    /// `read_all` reports for the diagnostic display.
    pub closed spec fn slots(&self) -> Seq<u16> {
        self.inner@
    }

    /// The private shape of the stack: the pointer stays within the backing
    /// storage, whose length is fixed.
    pub closed spec fn pointer_in_bounds(&self) -> bool {
        &&& self.inner@.len() == STACK_DEPTH
        &&& self.pointer <= STACK_DEPTH
    }

    pub open spec fn wf(&self) -> bool {
        &&& self.pointer_in_bounds()
        &&& self.slots().len() == STACK_DEPTH
        &&& self@.len() <= STACK_DEPTH
    }

    pub fn new() -> (s: Self)
        ensures
            s.wf(),
            s@ == Seq::<u16>::empty(),
            s.slots() == Seq::new(STACK_DEPTH as nat, |i: int| 0u16),
    {
        let inner: Vec<u16> = vec![0u16; STACK_DEPTH];
        proof {
            assert(inner@ =~= Seq::new(STACK_DEPTH as nat, |i: int| 0u16));
        }
        let s = Self { inner, pointer: 0 };
        proof {
            assert(s@ =~= Seq::<u16>::empty());
        }
        s
    }

    pub fn push(&mut self, val: u16) -> (r: Result<(), Chip8Error>)
        requires
            old(self).wf(),
        ensures
            final(self).wf(),
            old(self)@.len() < STACK_DEPTH ==> {
                &&& r == Ok::<(), Chip8Error>(())
                &&& final(self)@ == old(self)@.push(val)
                &&& final(self).slots() == old(self).slots().update(old(self)@.len() as int, val)
            },
            old(self)@.len() == STACK_DEPTH ==> {
                &&& r == Err::<(), Chip8Error>(Chip8Error::StackOverflow)
                &&& final(self)@ == old(self)@
                &&& final(self).slots() == old(self).slots()
            },
    {
        if self.pointer >= STACK_DEPTH {
            return Err(Chip8Error::StackOverflow);
        }
        self.inner[self.pointer] = val;
        self.pointer = self.pointer + 1;
        proof {
            assert(self@ =~= old(self)@.push(val));
        }
        Ok(())
    }

    pub fn pop(&mut self) -> (r: Result<u16, Chip8Error>)
        requires
            old(self).wf(),
        ensures
            final(self).wf(),
            final(self).slots() == old(self).slots(),
            old(self)@.len() > 0 ==> {
                &&& r == Ok::<u16, Chip8Error>(old(self)@.last())
                &&& final(self)@ == old(self)@.drop_last()
            },
            old(self)@.len() == 0 ==> {
                &&& r == Err::<u16, Chip8Error>(Chip8Error::StackUnderflow)
                &&& final(self)@ == old(self)@
            },
    {
        if self.pointer == 0 {
            return Err(Chip8Error::StackUnderflow);
        }
        self.pointer = self.pointer - 1;
        let val = self.inner[self.pointer];
        proof {
            assert(self@ =~= old(self)@.drop_last());
        }
        Ok(val)
    }

    /// Push then pop round-trips: after pushing a value, the stack's most
    /// recent entry is that value, and removing it restores the previous
    /// stack. This is the view-level law behind `push` and `pop`.
    pub proof fn lemma_push_pop_round_trip(s: Seq<u16>, val: u16)
        ensures
            s.push(val).last() == val,
            s.push(val).drop_last() == s,
    {
        assert(s.push(val).drop_last() =~= s);
    }

    /// Every backing slot, most recently written end first: a snapshot for
    /// the diagnostic stack display, stale slots included.
    pub fn read_all(&self) -> (r: Vec<u16>)
        requires
            self.wf(),
        ensures
            r@.len() == STACK_DEPTH,
            forall|i: int| 0 <= i < STACK_DEPTH ==> r@[i] == self.slots()[STACK_DEPTH - 1 - i],
    {
        let mut r: Vec<u16> = Vec::new();
        let mut i: usize = STACK_DEPTH;
        while i > 0
            invariant
                self.wf(),
                i <= STACK_DEPTH,
                r@.len() == STACK_DEPTH - i,
                forall|j: int| 0 <= j < r@.len() ==> r@[j] == self.slots()[STACK_DEPTH - 1 - j],
            decreases i,
        {
            i = i - 1;
            r.push(self.inner[i]);
        }
        r
    }
}

} // verus!
