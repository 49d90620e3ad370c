//! The register file: sixteen general-purpose byte registers (register 0xF
//! doubles as the flag register), the 16-bit index register, and the delay and
//! sound timers.
//!
//! Each timer decays toward zero at 60 Hz in wall-clock time, independent of
//! instruction throughput. A timer stores the value it was set to together
//! with the instant (in microseconds) of the set, and computes its current
//! value lazily from the elapsed time; the anchor moves only when the timer is
//! explicitly set, so the decay never drifts with the instruction rate.

use vstd::prelude::*;

verus! {

/// Number of general-purpose registers.
pub const REGISTER_COUNT: usize = 16;

/// Whole ticks of a 60 Hz clock in the span from `anchor` to `now`, both in
/// microseconds. A `now` before the anchor counts as no elapsed time.
pub open spec fn timer_ticks(anchor: u64, now: u64) -> int {
    if now >= anchor {
        (now - anchor) * 60 / 1000000
    } else {
        0
    }
}

/// Current value of a timer set to `value` at instant `anchor`, read at
/// instant `now`: the set value less the elapsed ticks, floored at zero.
pub open spec fn timer_value(value: u8, anchor: u64, now: u64) -> int {
    if value - timer_ticks(anchor, now) >= 0 {
        value - timer_ticks(anchor, now)
    } else {
        0
    }
}

/// The mathematical content of a [`Registers`]: the sixteen general register
/// values, the index register, and each timer's stored value and anchor
/// instant.
#[verifier::ext_equal]
pub struct RegistersView {
    pub v: Seq<u8>,
    pub i: u16,
    pub delay: u8,
    pub delay_anchor: u64,
    pub sound: u8,
    pub sound_anchor: u64,
}

impl RegistersView {
    /// There are exactly sixteen general registers.
    pub open spec fn wf(self) -> bool {
        self.v.len() == REGISTER_COUNT
    }
}

/// The register file of one virtual machine.
pub struct Registers {
    general_registers: Vec<u8>,
    i_register: u16,
    delay_timer: u8,
    delay_timer_set_at: u64,
    sound_timer: u8,
    sound_timer_set_at: u64,
}

impl View for Registers {
    type V = RegistersView;

    closed spec fn view(&self) -> RegistersView {
        RegistersView {
            v: self.general_registers@,
            i: self.i_register,
            delay: self.delay_timer,
            delay_anchor: self.delay_timer_set_at,
            sound: self.sound_timer,
            sound_anchor: self.sound_timer_set_at,
        }
    }
}

impl Registers {
    /// A fresh register file: every register and both timers at zero.
    pub fn new() -> (r: Registers)
        ensures
            r@.wf(),
            r@.v == Seq::new(REGISTER_COUNT as nat, |i: int| 0u8),
            r@.i == 0,
            r@.delay == 0,
            r@.delay_anchor == 0,
            r@.sound == 0,
            r@.sound_anchor == 0,
    {
        let general_registers: Vec<u8> = vec![0u8; REGISTER_COUNT];
        proof {
            assert(general_registers@ =~= Seq::new(REGISTER_COUNT as nat, |i: int| 0u8));
        }
        Registers {
            general_registers,
            i_register: 0,
            delay_timer: 0,
            delay_timer_set_at: 0,
            sound_timer: 0,
            sound_timer_set_at: 0,
        }
    }

    /// Stores `value` in general register `index`, handing back the previous
    /// value.
    pub fn set_register(&mut self, index: u16, value: u8) -> (r: Option<u8>)
        requires
            old(self)@.wf(),
            index < REGISTER_COUNT,
        ensures
            final(self)@.wf(),
            final(self)@ == (RegistersView {
                v: old(self)@.v.update(index as int, value),
                ..old(self)@
            }),
            r == Some(old(self)@.v[index as int]),
    {
        let previous = self.general_registers[index as usize];
        self.general_registers[index as usize] = value;
        Some(previous)
    }

    /// Reads general register `index`.
    pub fn get_register(&self, index: u16) -> (r: Option<u8>)
        requires
            self@.wf(),
            index < REGISTER_COUNT,
        ensures
            r == Some(self@.v[index as int]),
    {
        Some(self.general_registers[index as usize])
    }

    /// Stores `value` in the index register.
    pub fn set_i_register(&mut self, value: u16)
        ensures
            final(self)@ == (RegistersView { i: value, ..old(self)@ }),
    {
        self.i_register = value
    }

    /// Reads the index register.
    pub fn get_i_register(&self) -> (r: u16)
        ensures
            r == self@.i,
    {
        self.i_register
    }

    /// Reads the delay timer at instant `now` (microseconds): the value it was
    /// set to, less one for each whole 60 Hz tick elapsed since, floored at
    /// zero. Reading re-anchors nothing.
    pub fn get_delay_timer(&self, now: u64) -> (r: u8)
        ensures
            r == timer_value(self@.delay, self@.delay_anchor, now),
    {
        decayed_timer(self.delay_timer, self.delay_timer_set_at, now)
    }

    /// Sets the delay timer to `value` at instant `now` (microseconds),
    /// re-anchoring its decay there.
    pub fn set_delay_timer(&mut self, value: u8, now: u64)
        ensures
            final(self)@ == (RegistersView {
                delay: value,
                delay_anchor: now,
                ..old(self)@
            }),
    {
        self.delay_timer = value;
        self.delay_timer_set_at = now;
    }

    /// Sets the sound timer to `value` at instant `now` (microseconds),
    /// re-anchoring its decay there.
    pub fn set_sound_timer(&mut self, value: u8, now: u64)
        ensures
            final(self)@ == (RegistersView {
                sound: value,
                sound_anchor: now,
                ..old(self)@
            }),
    {
        self.sound_timer = value;
        self.sound_timer_set_at = now;
    }

    /// Whether the beep is owed at instant `now` (microseconds): true while
    /// the sound timer has not decayed to zero.
    pub fn sound_active(&self, now: u64) -> (r: bool)
        ensures
            r == (timer_value(self@.sound, self@.sound_anchor, now) != 0),
    {
        decayed_timer(self.sound_timer, self.sound_timer_set_at, now) != 0
    }
}

/// Current value of a timer set to `value` at instant `anchor`, read at
/// instant `now`, computed from the elapsed wall-clock time.
fn decayed_timer(value: u8, anchor: u64, now: u64) -> (r: u8)
    ensures
        r == timer_value(value, anchor, now),
{
    let elapsed: u64 = if now >= anchor { now - anchor } else { 0 };
    let ticks: u128 = elapsed as u128 * 60 / 1000000;
    if ticks >= value as u128 {
        0
    } else {
        value - ticks as u8
    }
}

/// Setting a timer to `value` and reading it `elapsed` microseconds later
/// yields the value less the whole 60 Hz ticks in the interval, floored at
/// zero.
pub proof fn lemma_timer_decay(value: u8, set_at: u64, elapsed: u64)
    requires
        set_at + elapsed <= u64::MAX,
    ensures
        timer_value(value, set_at, (set_at + elapsed) as u64)
            == if value - elapsed * 60 / 1000000 >= 0 {
                value - elapsed * 60 / 1000000
            } else {
                0int
            },
{
}

} // verus!
