//! The program counter: a 16-bit cursor into memory that advances by two per
//! fetched instruction and is overwritten by jump, call, return and skip
//! opcodes.

use vstd::prelude::*;

verus! {

/// A 16-bit address cursor pointing at the current instruction in memory.
pub struct ProgramCounter {
    pc: u16,
}

impl View for ProgramCounter {
    type V = u16;

    closed spec fn view(&self) -> u16 {
        self.pc
    }
}

impl ProgramCounter {
    /// A fresh counter, at address zero.
    pub fn new() -> (r: ProgramCounter)
        ensures
            r@ == 0,
    {
        ProgramCounter { pc: 0 }
    }

    /// Places the counter at `new_counter`.
    pub fn set_counter(&mut self, new_counter: u16)
        ensures
            final(self)@ == new_counter,
    {
        self.pc = new_counter
    }

    /// Moves the counter forward by `value` addresses.
    pub fn increment_by(&mut self, value: u16) -> (r: u16)
        requires
            old(self)@ + value <= u16::MAX,
        ensures
            final(self)@ == old(self)@ + value,
            r == final(self)@,
    {
        self.pc = self.pc + value;
        self.pc
    }

    /// Moves the counter forward by one address.
    pub fn increment(&mut self) -> (r: u16)
        requires
            old(self)@ + 1 <= u16::MAX,
        ensures
            final(self)@ == old(self)@ + 1,
            r == final(self)@,
    {
        self.pc = self.pc + 1;
        self.pc
    }

    /// Moves the counter back by one address.
    pub fn decrement(&mut self) -> (r: u16)
        requires
            old(self)@ >= 1,
        ensures
            final(self)@ == old(self)@ - 1,
            r == final(self)@,
    {
        self.pc = self.pc - 1;
        self.pc
    }

    /// Places the counter at `location`.
    pub fn jump(&mut self, location: u16)
        ensures
            final(self)@ == location,
    {
        self.pc = location;
    }

    /// The current address.
    pub fn get_pc(&self) -> (r: usize)
        ensures
            r == self@,
    {
        self.pc as usize
    }
}

} // verus!
