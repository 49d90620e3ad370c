//! The call stack: a fixed-capacity sequence of 16-bit return addresses and a
//! stack pointer. Pushing onto a full stack and popping from an empty one are
//! fatal faults, never silent corruption.

use vstd::prelude::*;
use crate::fault::Fault;

verus! {

/// Number of return addresses the stack can hold.
pub const STACK_CAPACITY: usize = 512;

/// The mathematical content of a [`Stack`]: the backing entries and the
/// number of live ones. The live addresses are `entries[0..sp]`, most recent
/// at index `sp - 1`.
#[verifier::ext_equal]
pub struct StackView {
    pub entries: Seq<u16>,
    pub sp: nat,
}

impl StackView {
    /// The backing store has the fixed capacity and the pointer stays within it.
    pub open spec fn wf(self) -> bool {
        &&& self.entries.len() == STACK_CAPACITY
        &&& self.sp <= STACK_CAPACITY
    }

    /// True when no pushed address remains.
    pub open spec fn is_empty(self) -> bool {
        self.sp == 0
    }

    /// True when no further address can be pushed.
    pub open spec fn is_full(self) -> bool {
        self.sp == STACK_CAPACITY
    }
}

/// What a successful push does: the address is written at the pointer and the
/// pointer advances.
pub open spec fn stack_push(s: StackView, address: u16) -> StackView {
    StackView { entries: s.entries.update(s.sp as int, address), sp: s.sp + 1 }
}

/// What a successful pop does: the pointer retreats and the vacated slot is
/// cleared.
pub open spec fn stack_pop(s: StackView) -> StackView {
    StackView { entries: s.entries.update(s.sp - 1, 0), sp: (s.sp - 1) as nat }
}

/// The address a successful pop returns: the most recently pushed one.
pub open spec fn stack_top(s: StackView) -> u16 {
    s.entries[s.sp - 1]
}

/// A bounded stack of 16-bit return addresses.
pub struct Stack {
    sp: usize,
    stack: Vec<u16>,
}

impl View for Stack {
    type V = StackView;

    closed spec fn view(&self) -> StackView {
        StackView { entries: self.stack@, sp: self.sp as nat }
    }
}

impl Stack {
    /// An empty stack with all slots cleared.
    pub fn new() -> (r: Stack)
        ensures
            r@.wf(),
            r@.is_empty(),
            r@.entries == Seq::new(STACK_CAPACITY as nat, |i: int| 0u16),
    {
        let stack: Vec<u16> = vec![0u16; STACK_CAPACITY];
        proof {
            assert(stack@ =~= Seq::new(STACK_CAPACITY as nat, |i: int| 0u16));
        }
        Stack { sp: 0, stack }
    }

    /// Pushes a return address; fails with `StackOverflow` on a full stack,
    /// leaving the stack unchanged.
    pub fn push(&mut self, value: u16) -> (r: Result<(), Fault>)
        requires
            old(self)@.wf(),
        ensures
            final(self)@.wf(),
            !old(self)@.is_full() ==> r == Ok::<(), Fault>(())
                && final(self)@ == stack_push(old(self)@, value),
            old(self)@.is_full() ==> r == Err::<(), Fault>(Fault::StackOverflow)
                && final(self)@ == old(self)@,
    {
        if self.sp < STACK_CAPACITY {
            self.stack[self.sp] = value;
            self.sp_increment();
            Ok(())
        } else {
            Err(Fault::StackOverflow)
        }
    }

    /// Pops the most recent return address; fails with `StackUnderflow` on an
    /// empty stack, leaving the stack unchanged.
    pub fn pop(&mut self) -> (r: Result<u16, Fault>)
        requires
            old(self)@.wf(),
        ensures
            final(self)@.wf(),
            !old(self)@.is_empty() ==> r == Ok::<u16, Fault>(stack_top(old(self)@))
                && final(self)@ == stack_pop(old(self)@),
            old(self)@.is_empty() ==> r == Err::<u16, Fault>(Fault::StackUnderflow)
                && final(self)@ == old(self)@,
    {
        if self.sp > 0 {
            self.sp_decrement();
            let return_value = self.stack[self.sp];
            self.stack[self.sp] = 0;
            Ok(return_value)
        } else {
            Err(Fault::StackUnderflow)
        }
    }

    /// Advances the stack pointer by one slot, leaving the entries alone.
    pub fn sp_increment(&mut self) -> (r: usize)
        requires
            old(self)@.wf(),
            !old(self)@.is_full(),
        ensures
            final(self)@.wf(),
            final(self)@.sp == old(self)@.sp + 1,
            final(self)@.entries == old(self)@.entries,
            r == final(self)@.sp,
    {
        self.sp = self.sp + 1;
        self.sp
    }

    /// Retreats the stack pointer by one slot if any is live, leaving the
    /// entries alone.
    pub fn sp_decrement(&mut self) -> (r: usize)
        requires
            old(self)@.wf(),
        ensures
            final(self)@.wf(),
            final(self)@.sp
                == if old(self)@.sp > 0 { old(self)@.sp - 1 } else { 0int },
            final(self)@.entries == old(self)@.entries,
            r == final(self)@.sp,
    {
        if self.sp > 0 {
            self.sp = self.sp - 1;
        }
        self.sp
    }
}

/// Pushing two addresses and popping twice yields them back in reverse order,
/// and a further pop from the then-empty stack fails with `StackUnderflow`.
pub proof fn lemma_stack_round_trip(s: StackView, a: u16, b: u16)
    requires
        s.wf(),
        s.is_empty(),
    ensures
        ({
            let s1 = stack_push(s, a);
            let s2 = stack_push(s1, b);
            &&& !s2.is_empty() && stack_top(s2) == b
            &&& !stack_pop(s2).is_empty() && stack_top(stack_pop(s2)) == a
            &&& stack_pop(stack_pop(s2)).is_empty()
        }),
{
}

} // verus!
