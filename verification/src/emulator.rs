//! The interpreter: fetching, decoding and executing opcodes against the
//! machine state. The meaning of every opcode is given once, as the pure
//! transition function [`step`] over [`MachineView`]; [`execute`] is proved
//! to perform exactly that transition on the live components.
//!
//! Each instruction's effects are committed atomically: a faulting opcode
//! changes nothing and surfaces its [`Fault`].

use vstd::prelude::*;
use crate::draw::{
    blank_fb, fb_index, spec_blit, spec_blit_collides, sprite_bit, Draw, Point, SCREEN_HEIGHT,
    SCREEN_PIXELS, SCREEN_WIDTH,
};
use crate::fault::Fault;
use crate::memory::{Memory, MEMORY_SIZE, PROGRAM_START};
use crate::program_counter::ProgramCounter;
use crate::registers::{timer_value, Registers, RegistersView, REGISTER_COUNT};
use crate::stack::{stack_pop, stack_push, stack_top, Stack, StackView};

verus! {

/// Whether the most recent key event was a press or a release.
#[derive(Clone, Copy, Debug, PartialEq, Eq, Structural)]
pub enum KeyState {
    Pressed,
    Released,
}

/// What the input collaborator reports for one tick: the logical key
/// (0x0 through 0xF) the latest key event concerned, and whether that event
/// was a press or a release. While a key is held, `current_key` stays at that
/// key with `state` at `Pressed`; on release, `current_key` carries the
/// released key's code with `state` at `Released`.
#[derive(Clone, Copy, Debug)]
pub struct KeyPress {
    /// The key the latest event concerned, if any.
    pub current_key: Option<u8>,
    /// Whether that event was a press or a release.
    pub state: Option<KeyState>,
}

/// The high nibble of an instruction: selects the opcode family.
pub open spec fn op_family(instruction: u16) -> u16 {
    (instruction >> 12) & 0xF
}

/// The `x` field: second nibble, a register index.
pub open spec fn op_x(instruction: u16) -> u16 {
    (instruction >> 8) & 0xF
}

/// The `y` field: third nibble, a register index.
pub open spec fn op_y(instruction: u16) -> u16 {
    (instruction >> 4) & 0xF
}

/// The `n` field: low nibble, a 4-bit constant.
pub open spec fn op_n(instruction: u16) -> u16 {
    instruction & 0xF
}

/// The `nn` field: low byte, an 8-bit constant.
pub open spec fn op_nn(instruction: u16) -> u8 {
    (instruction & 0xFF) as u8
}

/// The `nnn` field: low twelve bits, an address.
pub open spec fn op_nnn(instruction: u16) -> u16 {
    instruction & 0xFFF
}

/// The decoded fields lie in their ranges.
proof fn lemma_decode_bounds(instruction: u16)
    by (bit_vector)
    ensures
        op_family(instruction) < 16,
        op_x(instruction) < 16,
        op_y(instruction) < 16,
        op_n(instruction) < 16,
        op_nnn(instruction) < 4096,
{
}

/// Combining two bytes big-endian equals the arithmetic combination.
proof fn lemma_combine_bytes(hi: u8, lo: u8)
    by (bit_vector)
    ensures
        ((hi as u16) << 8) | (lo as u16) == hi as u16 * 256 + lo as u16,
{
}

/// The whole machine state an opcode can observe or change, as mathematical
/// values.
#[verifier::ext_equal]
pub struct MachineView {
    /// All 4096 memory bytes.
    pub mem: Seq<u8>,
    /// The register file, index register and timers.
    pub regs: RegistersView,
    /// The call stack.
    pub stack: StackView,
    /// The program counter, already advanced past the current instruction.
    pub pc: u16,
    /// The framebuffer pixels, row-major.
    pub fb: Seq<bool>,
}

impl MachineView {
    /// Every component has its fixed shape.
    pub open spec fn wf(self) -> bool {
        &&& self.mem.len() == MEMORY_SIZE
        &&& self.regs.wf()
        &&& self.stack.wf()
        &&& self.fb.len() == SCREEN_PIXELS
    }
}

/// The machine state assembled from the components' views.
pub open spec fn machine(
    mem: Seq<u8>,
    regs: RegistersView,
    stack: StackView,
    pc: u16,
    fb: Seq<bool>,
) -> MachineView {
    MachineView { mem, regs, stack, pc, fb }
}

/// An eight-bit sum or doubled value reduced into a byte.
pub open spec fn wrap_add8(n: int) -> u8 {
    if n > 255 {
        (n - 256) as u8
    } else {
        n as u8
    }
}

/// An eight-bit difference reduced into a byte.
pub open spec fn wrap_sub8(n: int) -> u8 {
    if n < 0 {
        (n + 256) as u8
    } else {
        n as u8
    }
}

/// `s` with its program counter moved to `pc`.
pub open spec fn with_pc(s: MachineView, pc: u16) -> MachineView {
    MachineView { pc, ..s }
}

/// `s` with its general registers replaced by `v`.
pub open spec fn with_v(s: MachineView, v: Seq<u8>) -> MachineView {
    MachineView { regs: RegistersView { v, ..s.regs }, ..s }
}

/// `s` with the next instruction skipped when `condition` holds.
pub open spec fn skip_if(s: MachineView, condition: bool) -> MachineView {
    if condition {
        with_pc(s, (s.pc + 2) as u16)
    } else {
        s
    }
}

/// Whether `key` reports logical key `vx` as currently pressed.
pub open spec fn key_is_pressed(key: KeyPress, vx: u8) -> bool {
    key.state == Some(KeyState::Pressed) && key.current_key == Some(vx)
}

/// The system family: clear the screen, or return from a subroutine. Any
/// other instruction of the family is a no-op.
pub open spec fn step_sys(s: MachineView, instruction: u16) -> Result<(MachineView, bool), Fault> {
    if instruction == 0x00E0 {
        Ok((MachineView { fb: blank_fb(), ..s }, true))
    } else if instruction == 0x00EE {
        if s.stack.is_empty() {
            Err(Fault::StackUnderflow)
        } else {
            Ok((MachineView { pc: stack_top(s.stack), stack: stack_pop(s.stack), ..s }, false))
        }
    } else {
        Ok((s, false))
    }
}

/// A subroutine call: the already-advanced program counter is pushed and the
/// counter moves to the call target.
pub open spec fn step_call(s: MachineView, instruction: u16) -> Result<(MachineView, bool), Fault> {
    if s.stack.is_full() {
        Err(Fault::StackOverflow)
    } else {
        Ok((
            MachineView { stack: stack_push(s.stack, s.pc), pc: op_nnn(instruction), ..s },
            false,
        ))
    }
}

/// The arithmetic and logic family over the register file. The flag register
/// is written after the result, so for `x == 0xF` the flag wins. An unknown
/// low nibble is a no-op.
pub open spec fn step_alu(v: Seq<u8>, instruction: u16) -> Seq<u8> {
    let x = op_x(instruction) as int;
    let y = op_y(instruction) as int;
    let vx = v[x];
    let vy = v[y];
    let n = op_n(instruction);
    if n == 0x0 {
        v.update(x, vy)
    } else if n == 0x1 {
        v.update(x, vx | vy)
    } else if n == 0x2 {
        v.update(x, vx & vy)
    } else if n == 0x3 {
        v.update(x, vx ^ vy)
    } else if n == 0x4 {
        let flag: u8 = if vx + vy > 255 {
            1
        } else {
            0
        };
        v.update(x, wrap_add8(vx + vy)).update(15, flag)
    } else if n == 0x5 {
        let flag: u8 = if vx >= vy {
            1
        } else {
            0
        };
        v.update(x, wrap_sub8(vx - vy)).update(15, flag)
    } else if n == 0x6 {
        v.update(x, (vx / 2) as u8).update(15, (vx % 2) as u8)
    } else if n == 0x7 {
        let flag: u8 = if vy >= vx {
            1
        } else {
            0
        };
        v.update(x, wrap_sub8(vy - vx)).update(15, flag)
    } else if n == 0xE {
        v.update(x, wrap_add8(vx * 2)).update(15, (vx / 128) as u8)
    } else {
        v
    }
}

/// The draw opcode: the `n`-row sprite at memory `I` is XOR-composited at
/// `(Vx mod 64, Vy mod 32)`; the flag register reports whether a lit pixel
/// was turned off. A sprite reaching past the end of memory is a fault.
pub open spec fn step_draw(s: MachineView, instruction: u16) -> Result<(MachineView, bool), Fault> {
    let x = op_x(instruction) as int;
    let y = op_y(instruction) as int;
    let n = op_n(instruction) as int;
    let i = s.regs.i as int;
    if i + n > MEMORY_SIZE {
        Err(Fault::MemoryOutOfBounds)
    } else {
        let rows = s.mem.subrange(i, i + n);
        let px = (s.regs.v[x] % 64) as int;
        let py = (s.regs.v[y] % 32) as int;
        let collided = spec_blit_collides(s.fb, rows, px, py);
        let flag: u8 = if collided {
            1
        } else {
            0
        };
        Ok((
            MachineView {
                fb: spec_blit(s.fb, rows, px, py),
                regs: RegistersView { v: s.regs.v.update(15, flag), ..s.regs },
                ..s
            },
            true,
        ))
    }
}

/// The key-skip family: skip the next instruction according to whether the
/// key named by `Vx` is currently pressed.
pub open spec fn step_key(s: MachineView, instruction: u16, key: KeyPress) -> MachineView {
    let vx = s.regs.v[op_x(instruction) as int];
    let nn = op_nn(instruction);
    if nn == 0x9E {
        skip_if(s, key_is_pressed(key, vx))
    } else if nn == 0xA1 {
        skip_if(s, !key_is_pressed(key, vx))
    } else {
        s
    }
}

/// Memory written with registers `V0` through `Vx` starting at address `i`.
pub open spec fn regs_to_mem(mem: Seq<u8>, v: Seq<u8>, i: int, count: int) -> Seq<u8> {
    Seq::new(
        mem.len(),
        |j: int|
            if i <= j < i + count {
                v[j - i]
            } else {
                mem[j]
            },
    )
}

/// Registers `V0` through `Vx` filled from memory starting at address `i`.
pub open spec fn mem_to_regs(v: Seq<u8>, mem: Seq<u8>, i: int, count: int) -> Seq<u8> {
    Seq::new(
        v.len(),
        |k: int|
            if 0 <= k < count {
                mem[i + k]
            } else {
                v[k]
            },
    )
}

/// The timer, key-wait, index and memory-transfer family. An unknown low
/// byte is a no-op.
pub open spec fn step_fx(
    s: MachineView,
    instruction: u16,
    key: KeyPress,
    now: u64,
) -> Result<(MachineView, bool), Fault> {
    let x = op_x(instruction) as int;
    let vx = s.regs.v[x];
    let nn = op_nn(instruction);
    let i = s.regs.i as int;
    if nn == 0x07 {
        Ok((
            with_v(s, s.regs.v.update(x, timer_value(s.regs.delay, s.regs.delay_anchor, now) as u8)),
            false,
        ))
    } else if nn == 0x0A {
        // Await a key release: until one arrives, rewind the counter so the
        // same instruction runs again next tick.
        if key.state == Some(KeyState::Released) && key.current_key is Some {
            Ok((with_v(s, s.regs.v.update(x, key.current_key.unwrap())), false))
        } else {
            Ok((with_pc(s, (s.pc - 2) as u16), false))
        }
    } else if nn == 0x15 {
        Ok((
            (MachineView {
                regs: RegistersView { delay: vx, delay_anchor: now, ..s.regs },
                ..s
            }),
            false,
        ))
    } else if nn == 0x18 {
        Ok((
            (MachineView {
                regs: RegistersView { sound: vx, sound_anchor: now, ..s.regs },
                ..s
            }),
            false,
        ))
    } else if nn == 0x1E {
        let sum = s.regs.i + vx;
        let i2: u16 = if sum > 65535 {
            (sum - 65536) as u16
        } else {
            sum as u16
        };
        Ok(((MachineView { regs: RegistersView { i: i2, ..s.regs }, ..s }), false))
    } else if nn == 0x29 {
        Ok(((MachineView { regs: RegistersView { i: (vx * 5) as u16, ..s.regs }, ..s }), false))
    } else if nn == 0x33 {
        if i + 2 >= MEMORY_SIZE {
            Err(Fault::MemoryOutOfBounds)
        } else {
            let mem2 = s.mem.update(i, (vx / 100) as u8).update(
                i + 1,
                ((vx / 10) % 10) as u8,
            ).update(i + 2, (vx % 10) as u8);
            Ok(((MachineView { mem: mem2, ..s }), false))
        }
    } else if nn == 0x55 {
        if i + op_x(instruction) >= MEMORY_SIZE {
            Err(Fault::MemoryOutOfBounds)
        } else {
            Ok((
                (MachineView {
                    mem: regs_to_mem(s.mem, s.regs.v, i, op_x(instruction) + 1),
                    ..s
                }),
                false,
            ))
        }
    } else if nn == 0x65 {
        if i + op_x(instruction) >= MEMORY_SIZE {
            Err(Fault::MemoryOutOfBounds)
        } else {
            Ok((with_v(s, mem_to_regs(s.regs.v, s.mem, i, op_x(instruction) + 1)), false))
        }
    } else {
        Ok((s, false))
    }
}

/// The authoritative meaning of one instruction: the machine state after
/// executing `instruction` in state `s`, whether the screen needs
/// re-presenting, or the fault it raises. `rnd` is the byte the random
/// opcode masks; `key` is the input report; `now` is the instant in
/// microseconds. The program counter in `s` has already been advanced past
/// the instruction by the fetch. An instruction outside the table is a
/// no-op.
pub open spec fn step(
    s: MachineView,
    instruction: u16,
    rnd: u8,
    key: KeyPress,
    now: u64,
) -> Result<(MachineView, bool), Fault> {
    let family = op_family(instruction);
    let x = op_x(instruction) as int;
    let vx = s.regs.v[x];
    let vy = s.regs.v[op_y(instruction) as int];
    let nn = op_nn(instruction);
    if family == 0x0 {
        step_sys(s, instruction)
    } else if family == 0x1 {
        Ok((with_pc(s, op_nnn(instruction)), false))
    } else if family == 0x2 {
        step_call(s, instruction)
    } else if family == 0x3 {
        Ok((skip_if(s, vx == nn), false))
    } else if family == 0x4 {
        Ok((skip_if(s, vx != nn), false))
    } else if family == 0x5 {
        Ok((if op_n(instruction) == 0 { skip_if(s, vx == vy) } else { s }, false))
    } else if family == 0x6 {
        Ok((with_v(s, s.regs.v.update(x, nn)), false))
    } else if family == 0x7 {
        Ok((with_v(s, s.regs.v.update(x, wrap_add8(nn + vx))), false))
    } else if family == 0x8 {
        Ok((with_v(s, step_alu(s.regs.v, instruction)), false))
    } else if family == 0x9 {
        Ok((if op_n(instruction) == 0 { skip_if(s, vx != vy) } else { s }, false))
    } else if family == 0xA {
        Ok(((MachineView { regs: RegistersView { i: op_nnn(instruction), ..s.regs }, ..s }), false))
    } else if family == 0xB {
        Ok((with_pc(s, (op_nnn(instruction) + s.regs.v[0]) as u16), false))
    } else if family == 0xC {
        Ok((with_v(s, s.regs.v.update(x, rnd & nn)), false))
    } else if family == 0xD {
        step_draw(s, instruction)
    } else if family == 0xE {
        Ok((step_key(s, instruction, key), false))
    } else if family == 0xF {
        step_fx(s, instruction, key, now)
    } else {
        Ok((s, false))
    }
}

/// The executed result paired with the final machine state, in the shape
/// [`step`] returns.
pub open spec fn step_outcome(m: MachineView, r: Result<bool, Fault>) -> Result<
    (MachineView, bool),
    Fault,
> {
    match r {
        Ok(render) => Ok((m, render)),
        Err(fault) => Err(fault),
    }
}

/// Relies on rand::random: draws a value from the thread-local generator.
/// Nothing is promised of the result; callers state what holds of every
/// outcome.
pub assume_specification<T>[ rand::random::<T> ]() -> (r: T)
    where
        rand::distributions::Standard: rand::distributions::Distribution<T>,
;

/// Reads the value of general register `index`, which the register file
/// always holds.
fn reg(registers: &Registers, index: u16) -> (r: u8)
    requires
        registers@.wf(),
        index < REGISTER_COUNT,
    ensures
        r == registers@.v[index as int],
{
    match registers.get_register(index) {
        Some(value) => value,
        None => 0,
    }
}

/// Executes one already-fetched instruction against the machine components:
/// exactly the transition [`step`] describes, with a fresh random byte
/// standing in for `rnd`. The program counter must already have been
/// advanced past the instruction. A faulting instruction changes nothing.
pub fn execute(
    instruction: u16,
    memory: &mut Memory,
    stack: &mut Stack,
    registers: &mut Registers,
    program_counter: &mut ProgramCounter,
    draw: &mut Draw,
    key_state: KeyPress,
    now: u64,
) -> (r: Result<bool, Fault>)
    requires
        old(memory).wf(),
        old(stack)@.wf(),
        old(registers)@.wf(),
        old(draw).wf(),
        2 <= old(program_counter)@,
        old(program_counter)@ + 2 <= u16::MAX,
    ensures
        final(memory).wf(),
        final(stack)@.wf(),
        final(registers)@.wf(),
        final(draw).wf(),
        op_family(instruction) != 0xC ==> step(
            machine(old(memory)@, old(registers)@, old(stack)@, old(program_counter)@, old(draw)@),
            instruction,
            0,
            key_state,
            now,
        ) == step_outcome(
            machine(
                final(memory)@,
                final(registers)@,
                final(stack)@,
                final(program_counter)@,
                final(draw)@,
            ),
            r,
        ),
        op_family(instruction) == 0xC ==> (exists|rnd: u8|
            #[trigger] step(
                machine(
                    old(memory)@,
                    old(registers)@,
                    old(stack)@,
                    old(program_counter)@,
                    old(draw)@,
                ),
                instruction,
                rnd,
                key_state,
                now,
            ) == step_outcome(
                machine(
                    final(memory)@,
                    final(registers)@,
                    final(stack)@,
                    final(program_counter)@,
                    final(draw)@,
                ),
                r,
            )),
        (r matches Err(_)) ==> machine(
            final(memory)@,
            final(registers)@,
            final(stack)@,
            final(program_counter)@,
            final(draw)@,
        ) == machine(
            old(memory)@,
            old(registers)@,
            old(stack)@,
            old(program_counter)@,
            old(draw)@,
        ),
{
    proof {
        lemma_decode_bounds(instruction);
    }
    let ghost s0 = machine(memory@, registers@, stack@, program_counter@, draw@);
    let first_nibble = (instruction >> 12) & 0xF;
    let x = (instruction >> 8) & 0xF;
    let y = (instruction >> 4) & 0xF;
    let vx_value = reg(registers, x);
    let vy_value = reg(registers, y);

    let result: Result<bool, Fault> = match first_nibble {
        0x0 => {
            if instruction == 0x00E0 {
                draw.clear();
                Ok(true)
            } else if instruction == 0x00EE {
                match stack.pop() {
                    Ok(current_address) => {
                        program_counter.jump(current_address);
                        Ok(false)
                    },
                    Err(fault) => Err(fault),
                }
            } else {
                Ok(false)
            }
        },
        0x1 => {
            let nnn = instruction & 0xFFF;
            program_counter.jump(nnn);
            Ok(false)
        },
        0x2 => {
            let pc = program_counter.get_pc() as u16;
            match stack.push(pc) {
                Ok(()) => {
                    let nnn = instruction & 0xFFF;
                    program_counter.jump(nnn);
                    Ok(false)
                },
                Err(fault) => Err(fault),
            }
        },
        0x3 => {
            let nn = (instruction & 0xFF) as u8;
            if nn == vx_value {
                program_counter.increment_by(2);
            }
            Ok(false)
        },
        0x4 => {
            let nn = (instruction & 0xFF) as u8;
            if nn != vx_value {
                program_counter.increment_by(2);
            }
            Ok(false)
        },
        0x5 => {
            if instruction & 0xF == 0 && vx_value == vy_value {
                program_counter.increment_by(2);
            }
            Ok(false)
        },
        0x6 => {
            let nn = (instruction & 0xFF) as u8;
            registers.set_register(x, nn);
            Ok(false)
        },
        0x7 => {
            let nn = (instruction & 0xFF) as u8;
            let sum = nn.wrapping_add(vx_value);
            registers.set_register(x, sum);
            Ok(false)
        },
        0x8 => {
            execute_alu(instruction, x, vx_value, vy_value, registers);
            proof {
                assert(machine(memory@, registers@, stack@, program_counter@, draw@) == with_v(
                    s0,
                    step_alu(s0.regs.v, instruction),
                ));
            }
            Ok(false)
        },
        0x9 => {
            if instruction & 0xF == 0 && vx_value != vy_value {
                program_counter.increment_by(2);
            }
            Ok(false)
        },
        0xA => {
            let nnn = instruction & 0xFFF;
            registers.set_i_register(nnn);
            Ok(false)
        },
        0xB => {
            let nnn = instruction & 0xFFF;
            let v0 = reg(registers, 0);
            program_counter.jump(nnn + v0 as u16);
            Ok(false)
        },
        0xC => {
            let nn = (instruction & 0xFF) as u8;
            let random_number: u8 = rand::random();
            let masked = random_number & nn;
            registers.set_register(x, masked);
            proof {
                assert(step(s0, instruction, random_number, key_state, now) == step_outcome(
                    machine(memory@, registers@, stack@, program_counter@, draw@),
                    Ok::<bool, Fault>(false),
                ));
            }
            Ok(false)
        },
        0xD => execute_draw(instruction, x, vx_value, vy_value, memory, registers, draw),
        0xE => {
            let nn = (instruction & 0xFF) as u8;
            let pressed = match (key_state.state, key_state.current_key) {
                (Some(KeyState::Pressed), Some(key)) => key == vx_value,
                _ => false,
            };
            proof {
                assert(pressed == key_is_pressed(key_state, vx_value));
            }
            if nn == 0x9E {
                if pressed {
                    program_counter.increment_by(2);
                }
            } else if nn == 0xA1 {
                if !pressed {
                    program_counter.increment_by(2);
                }
            }
            Ok(false)
        },
        0xF => execute_fx(instruction, x, vx_value, memory, registers, program_counter, key_state, now),
        _ => Ok(false),
    };
    proof {
        if op_family(instruction) != 0xC {
            assert(step(s0, instruction, 0, key_state, now) == step_outcome(
                machine(memory@, registers@, stack@, program_counter@, draw@),
                result,
            ));
        }
    }
    result
}

/// The arithmetic and logic family applied to the register file.
fn execute_alu(instruction: u16, x: u16, vx_value: u8, vy_value: u8, registers: &mut Registers)
    requires
        old(registers)@.wf(),
        x == op_x(instruction),
        vx_value == old(registers)@.v[op_x(instruction) as int],
        vy_value == old(registers)@.v[op_y(instruction) as int],
    ensures
        final(registers)@.wf(),
        final(registers)@ == (RegistersView {
            v: step_alu(old(registers)@.v, instruction),
            ..old(registers)@
        }),
{
    proof {
        lemma_decode_bounds(instruction);
    }
    let sub_op = instruction & 0xF;
    if sub_op == 0x0 {
        registers.set_register(x, vy_value);
    } else if sub_op == 0x1 {
        registers.set_register(x, vx_value | vy_value);
    } else if sub_op == 0x2 {
        registers.set_register(x, vx_value & vy_value);
    } else if sub_op == 0x3 {
        registers.set_register(x, vx_value ^ vy_value);
    } else if sub_op == 0x4 {
        let sum = vx_value.wrapping_add(vy_value);
        registers.set_register(x, sum);
        if vx_value > 255 - vy_value {
            registers.set_register(15, 1);
        } else {
            registers.set_register(15, 0);
        }
    } else if sub_op == 0x5 {
        let difference = vx_value.wrapping_sub(vy_value);
        registers.set_register(x, difference);
        if vx_value >= vy_value {
            registers.set_register(15, 1);
        } else {
            registers.set_register(15, 0);
        }
    } else if sub_op == 0x6 {
        registers.set_register(x, vx_value / 2);
        registers.set_register(15, vx_value % 2);
    } else if sub_op == 0x7 {
        let difference = vy_value.wrapping_sub(vx_value);
        registers.set_register(x, difference);
        if vy_value >= vx_value {
            registers.set_register(15, 1);
        } else {
            registers.set_register(15, 0);
        }
    } else if sub_op == 0xE {
        registers.set_register(x, vx_value.wrapping_mul(2));
        registers.set_register(15, vx_value / 128);
    }
}

/// The draw opcode applied to the live memory, registers and screen.
fn execute_draw(
    instruction: u16,
    x: u16,
    vx_value: u8,
    vy_value: u8,
    memory: &Memory,
    registers: &mut Registers,
    draw: &mut Draw,
) -> (r: Result<bool, Fault>)
    requires
        memory.wf(),
        old(registers)@.wf(),
        old(draw).wf(),
        x == op_x(instruction),
        vx_value == old(registers)@.v[op_x(instruction) as int],
        vy_value == old(registers)@.v[op_y(instruction) as int],
    ensures
        final(registers)@.wf(),
        final(draw).wf(),
        ({
            let i = old(registers)@.i as int;
            let n = op_n(instruction) as int;
            let rows = memory@.subrange(i, i + n);
            let px = (vx_value % 64) as int;
            let py = (vy_value % 32) as int;
            let collided = spec_blit_collides(old(draw)@, rows, px, py);
            &&& i + n > MEMORY_SIZE ==> (r == Err::<bool, Fault>(Fault::MemoryOutOfBounds)
                && final(registers)@ == old(registers)@ && final(draw)@ == old(draw)@)
            &&& i + n <= MEMORY_SIZE ==> (r == Ok::<bool, Fault>(true)
                && final(draw)@ == spec_blit(old(draw)@, rows, px, py)
                && final(registers)@ == (RegistersView {
                    v: old(registers)@.v.update(15, if collided { 1u8 } else { 0u8 }),
                    ..old(registers)@
                }))
        }),
{
    proof {
        lemma_decode_bounds(instruction);
    }
    let n = (instruction & 0xF) as usize;
    let i = registers.get_i_register() as usize;
    if i + n > MEMORY_SIZE {
        return Err(Fault::MemoryOutOfBounds);
    }
    let mut rows: Vec<u8> = Vec::new();
    let mut k: usize = 0;
    while k < n
        invariant
            memory.wf(),
            i + n <= MEMORY_SIZE,
            k <= n,
            rows@ == memory@.subrange(i as int, i + k as int),
        decreases n - k,
    {
        rows.push(memory.peek(i + k));
        proof {
            assert(memory@.subrange(i as int, i + k + 1) =~= memory@.subrange(
                i as int,
                i + k as int,
            ).push(memory@[i + k]));
        }
        k = k + 1;
    }
    let px = vx_value % 64;
    let py = vy_value % 32;
    let dest = Point { x: px as usize, y: py as usize };
    let collided = draw.blit_raw(rows.as_slice(), &dest, n as u8);
    proof {
        assert(rows@.subrange(0, n as int) =~= rows@);
    }
    if collided {
        registers.set_register(15, 1);
    } else {
        registers.set_register(15, 0);
    }
    Ok(true)
}

/// The timer, key-wait, index and memory-transfer family applied to the live
/// components. Its effect is the [`step_fx`] transition, stated on a machine
/// whose stack and framebuffer are empty: the family touches neither, so the
/// equation pins memory, the registers and the counter exactly.
fn execute_fx(
    instruction: u16,
    x: u16,
    vx_value: u8,
    memory: &mut Memory,
    registers: &mut Registers,
    program_counter: &mut ProgramCounter,
    key_state: KeyPress,
    now: u64,
) -> (r: Result<bool, Fault>)
    requires
        old(memory).wf(),
        old(registers)@.wf(),
        2 <= old(program_counter)@,
        x == op_x(instruction),
        vx_value == old(registers)@.v[op_x(instruction) as int],
    ensures
        final(memory).wf(),
        final(registers)@.wf(),
        ({
            let s = MachineView {
                mem: old(memory)@,
                regs: old(registers)@,
                stack: StackView { entries: Seq::empty(), sp: 0 },
                pc: old(program_counter)@,
                fb: Seq::empty(),
            };
            let s2 = MachineView {
                mem: final(memory)@,
                regs: final(registers)@,
                stack: StackView { entries: Seq::empty(), sp: 0 },
                pc: final(program_counter)@,
                fb: Seq::empty(),
            };
            step_fx(s, instruction, key_state, now) == step_outcome(s2, r)
        }),
        (r matches Err(_)) ==> final(memory)@ == old(memory)@ && final(registers)@ == old(
            registers,
        )@ && final(program_counter)@ == old(program_counter)@,
{
    proof {
        lemma_decode_bounds(instruction);
    }
    let ghost s0_mem = memory@;
    let ghost s0_regs = registers@;
    let nn = (instruction & 0xFF) as u8;
    if nn == 0x07 {
        let dt = registers.get_delay_timer(now);
        registers.set_register(x, dt);
        Ok(false)
    } else if nn == 0x0A {
        let released = match (key_state.state, key_state.current_key) {
            (Some(KeyState::Released), Some(key)) => Some(key),
            _ => None,
        };
        match released {
            Some(key) => {
                registers.set_register(x, key);
            },
            None => {
                program_counter.decrement();
                program_counter.decrement();
            },
        }
        Ok(false)
    } else if nn == 0x15 {
        registers.set_delay_timer(vx_value, now);
        Ok(false)
    } else if nn == 0x18 {
        registers.set_sound_timer(vx_value, now);
        Ok(false)
    } else if nn == 0x1E {
        let i = registers.get_i_register();
        registers.set_i_register(i.wrapping_add(vx_value as u16));
        Ok(false)
    } else if nn == 0x29 {
        let location = vx_value as u16 * 5;
        registers.set_i_register(location);
        Ok(false)
    } else if nn == 0x33 {
        let i = registers.get_i_register() as usize;
        if i + 2 >= MEMORY_SIZE {
            Err(Fault::MemoryOutOfBounds)
        } else {
            memory.poke(i, vx_value / 100);
            memory.poke(i + 1, (vx_value / 10) % 10);
            memory.poke(i + 2, vx_value % 10);
            Ok(false)
        }
    } else if nn == 0x55 {
        let i = registers.get_i_register() as usize;
        if i + x as usize >= MEMORY_SIZE {
            Err(Fault::MemoryOutOfBounds)
        } else {
            let mut k: u16 = 0;
            while k < x + 1
                invariant
                    memory.wf(),
                    registers@ == s0_regs,
                    registers@.wf(),
                    s0_mem.len() == MEMORY_SIZE,
                    x < 16,
                    i == registers@.i,
                    i + x < MEMORY_SIZE,
                    k <= x + 1,
                    memory@ == regs_to_mem(s0_mem, s0_regs.v, i as int, k as int),
                decreases x + 1 - k,
            {
                let value = reg(registers, k);
                memory.poke(i + k as usize, value);
                proof {
                    assert(memory@ =~= regs_to_mem(s0_mem, s0_regs.v, i as int, k + 1));
                }
                k = k + 1;
            }
            Ok(false)
        }
    } else if nn == 0x65 {
        let i = registers.get_i_register() as usize;
        if i + x as usize >= MEMORY_SIZE {
            Err(Fault::MemoryOutOfBounds)
        } else {
            let mut k: u16 = 0;
            while k < x + 1
                invariant
                    memory.wf(),
                    memory@ == s0_mem,
                    registers@.wf(),
                    s0_regs.wf(),
                    x < 16,
                    i == registers@.i,
                    i == s0_regs.i,
                    i + x < MEMORY_SIZE,
                    k <= x + 1,
                    registers@ == (RegistersView {
                        v: mem_to_regs(s0_regs.v, s0_mem, i as int, k as int),
                        ..s0_regs
                    }),
                decreases x + 1 - k,
            {
                let value = memory.peek(i + k as usize);
                registers.set_register(k, value);
                proof {
                    assert(registers@.v =~= mem_to_regs(s0_regs.v, s0_mem, i as int, k + 1));
                }
                k = k + 1;
            }
            Ok(false)
        }
    } else {
        Ok(false)
    }
}

/// Fetches the next instruction from memory: reads two bytes at the program
/// counter, combines them big-endian, and advances the counter past them.
/// Past the end of the loaded program data it fetches nothing and leaves the
/// counter alone.
pub fn fetch(rom: &Vec<u8>, program_counter: &mut ProgramCounter, rom_length: usize) -> (r: Option<
    u16,
>)
    requires
        1 <= rom_length,
        PROGRAM_START + rom_length <= rom@.len(),
        rom@.len() <= 0xFFFF,
    ensures
        ({
            let pc0 = old(program_counter)@ as int;
            &&& pc0 < rom_length - 1 + PROGRAM_START ==> (r matches Some(instruction)
                && instruction == rom@[pc0] as u16 * 256 + rom@[pc0 + 1] as u16
                && final(program_counter)@ == pc0 + 2)
            &&& pc0 >= rom_length - 1 + PROGRAM_START ==> (r is None
                && final(program_counter)@ == pc0)
        }),
{
    if program_counter.get_pc() < rom_length - 1 + PROGRAM_START {
        let instruction1 = rom[program_counter.get_pc()] as u16;
        program_counter.increment();
        let instruction2 = rom[program_counter.get_pc()] as u16;
        program_counter.increment();
        let instruction: u16 = (instruction1 << 8) | instruction2;
        proof {
            lemma_combine_bytes(
                rom@[old(program_counter)@ as int],
                rom@[old(program_counter)@ + 1],
            );
        }
        Some(instruction)
    } else {
        None
    }
}


/// One interpreter tick: fetches the instruction at the program counter,
/// advances the counter past it, and executes it. A counter past the end of
/// the loaded program data is the `FetchOutOfBounds` fault and changes
/// nothing; an instruction's own fault is surfaced unchanged. The `Ok` value
/// says whether the screen needs re-presenting.
pub fn tick(
    memory: &mut Memory,
    stack: &mut Stack,
    registers: &mut Registers,
    program_counter: &mut ProgramCounter,
    draw: &mut Draw,
    rom_length: usize,
    key_state: KeyPress,
    now: u64,
) -> (r: Result<bool, Fault>)
    requires
        old(memory).wf(),
        old(stack)@.wf(),
        old(registers)@.wf(),
        old(draw).wf(),
        1 <= rom_length,
        PROGRAM_START + rom_length <= MEMORY_SIZE,
    ensures
        final(memory).wf(),
        final(stack)@.wf(),
        final(registers)@.wf(),
        final(draw).wf(),
        old(program_counter)@ >= rom_length - 1 + PROGRAM_START ==> r == Err::<bool, Fault>(
            Fault::FetchOutOfBounds,
        ) && final(program_counter)@ == old(program_counter)@,
        (r matches Err(_)) ==> final(memory)@ == old(memory)@ && final(registers)@ == old(
            registers,
        )@ && final(stack)@ == old(stack)@ && final(draw)@ == old(draw)@
            && (final(program_counter)@ == old(program_counter)@ || final(program_counter)@
            == old(program_counter)@ + 2),
        old(program_counter)@ < rom_length - 1 + PROGRAM_START ==> ({
            let pc0 = old(program_counter)@ as int;
            let instruction = (old(memory)@[pc0] as u16 * 256 + old(memory)@[pc0 + 1] as u16)
                as u16;
            let fetched = machine(
                old(memory)@,
                old(registers)@,
                old(stack)@,
                (pc0 + 2) as u16,
                old(draw)@,
            );
            let done = step_outcome(
                machine(
                    final(memory)@,
                    final(registers)@,
                    final(stack)@,
                    final(program_counter)@,
                    final(draw)@,
                ),
                r,
            );
            &&& op_family(instruction) != 0xC ==> step(fetched, instruction, 0, key_state, now)
                == done
            &&& op_family(instruction) == 0xC ==> (exists|rnd: u8|
                #[trigger] step(fetched, instruction, rnd, key_state, now) == done)
        }),
{
    let instruction = match fetch_instruction(memory.get_memory(), program_counter, rom_length) {
        Ok(instruction) => instruction,
        Err(fault) => {
            return Err(fault);
        },
    };
    execute(instruction, memory, stack, registers, program_counter, draw, key_state, now)
}

/// Fetches as [`fetch`] does; a counter at or past the end of the loaded
/// program data is the `FetchOutOfBounds` fault, surfaced at once with the
/// counter unchanged.
pub fn fetch_instruction(
    rom: &Vec<u8>,
    program_counter: &mut ProgramCounter,
    rom_length: usize,
) -> (r: Result<u16, Fault>)
    requires
        1 <= rom_length,
        PROGRAM_START + rom_length <= rom@.len(),
        rom@.len() <= 0xFFFF,
    ensures
        ({
            let pc0 = old(program_counter)@ as int;
            &&& pc0 < rom_length - 1 + PROGRAM_START ==> (r matches Ok(instruction)
                && instruction == rom@[pc0] as u16 * 256 + rom@[pc0 + 1] as u16
                && final(program_counter)@ == pc0 + 2)
            &&& pc0 >= rom_length - 1 + PROGRAM_START ==> (r == Err::<u16, Fault>(
                Fault::FetchOutOfBounds,
            ) && final(program_counter)@ == pc0)
        }),
{
    match fetch(rom, program_counter, rom_length) {
        Some(instruction) => Ok(instruction),
        _ => Err(Fault::FetchOutOfBounds),
    }
}

/// The logical key a host scancode stands for, if it is on the keypad.
pub open spec fn spec_match_key(key_scancode: u32) -> Option<u32> {
    if key_scancode == 18 {
        Some(0x1u32)
    } else if key_scancode == 19 {
        Some(0x2u32)
    } else if key_scancode == 20 {
        Some(0x3u32)
    } else if key_scancode == 21 {
        Some(0xCu32)
    } else if key_scancode == 12 {
        Some(0x4u32)
    } else if key_scancode == 13 {
        Some(0x5u32)
    } else if key_scancode == 14 {
        Some(0x6u32)
    } else if key_scancode == 15 {
        Some(0xDu32)
    } else if key_scancode == 0 {
        Some(0x7u32)
    } else if key_scancode == 1 {
        Some(0x8u32)
    } else if key_scancode == 2 {
        Some(0x9u32)
    } else if key_scancode == 3 {
        Some(0xEu32)
    } else if key_scancode == 6 {
        Some(0xAu32)
    } else if key_scancode == 7 {
        Some(0x0u32)
    } else if key_scancode == 8 {
        Some(0xBu32)
    } else if key_scancode == 9 {
        Some(0xFu32)
    } else {
        None
    }
}

/// Maps a host keyboard scancode to the logical key it stands for, covering
/// the sixteen keypad keys; any other scancode maps to nothing.
pub fn match_key(key_scancode: u32) -> (r: Option<u32>)
    ensures
        r == spec_match_key(key_scancode),
        r matches Some(key) ==> key < 16,
{
    match key_scancode {
        18 => Some(0x1),
        19 => Some(0x2),
        20 => Some(0x3),
        21 => Some(0xC),
        12 => Some(0x4),
        13 => Some(0x5),
        14 => Some(0x6),
        15 => Some(0xD),
        0 => Some(0x7),
        1 => Some(0x8),
        2 => Some(0x9),
        3 => Some(0xE),
        6 => Some(0xA),
        7 => Some(0x0),
        8 => Some(0xB),
        9 => Some(0xF),
        _ => None,
    }
}


/// The system opcodes decode into family zero.
proof fn lemma_sys_decode()
    by (bit_vector)
    ensures
        op_family(0x00E0) == 0x0,
        op_family(0x00EE) == 0x0,
{
}

/// After the clear opcode, every pixel of the screen reads off, whatever the
/// machine state was.
pub proof fn lemma_clear_blanks_screen(s: MachineView, rnd: u8, key: KeyPress, now: u64)
    ensures
        ({
            step(s, 0x00E0, rnd, key, now) matches Ok((s2, render)) && render && s2.fb.len()
                == SCREEN_PIXELS && (forall|x: int, y: int|
                0 <= x < SCREEN_WIDTH && 0 <= y < SCREEN_HEIGHT ==> !s2.fb[fb_index(x, y)])
        }),
{
    lemma_sys_decode();
    assert forall|x: int, y: int| 0 <= x < SCREEN_WIDTH && 0 <= y < SCREEN_HEIGHT implies !blank_fb(
    )[fb_index(x, y)] by {
        assert(0 <= y * 64 + x < SCREEN_PIXELS);
    }
}

/// Loading a constant into a register: after any instruction of the load
/// family, the named register reads exactly the instruction's low byte.
pub proof fn lemma_load_register(
    s: MachineView,
    instruction: u16,
    rnd: u8,
    key: KeyPress,
    now: u64,
)
    requires
        s.wf(),
        op_family(instruction) == 0x6,
    ensures
        ({
            step(s, instruction, rnd, key, now) matches Ok((s2, render)) && !render
                && s2.regs.v[op_x(instruction) as int] == op_nn(instruction)
        }),
{
    lemma_decode_bounds(instruction);
}

/// The add-with-carry opcode: the flag register reads one exactly when the
/// true sum exceeds a byte, and the named register holds the wrapped sum.
/// The one exception is the flag register itself as target: there the flag
/// overwrites the sum.
pub proof fn lemma_add_carry(s: MachineView, instruction: u16, rnd: u8, key: KeyPress, now: u64)
    requires
        s.wf(),
        op_family(instruction) == 0x8,
        op_n(instruction) == 0x4,
    ensures
        ({
            let x = op_x(instruction) as int;
            let vx = s.regs.v[x];
            let vy = s.regs.v[op_y(instruction) as int];
            step(s, instruction, rnd, key, now) matches Ok((s2, render)) && !render
                && s2.regs.v[15] == (if vx + vy > 255 { 1u8 } else { 0u8 })
                && (x != 15 ==> s2.regs.v[x] == wrap_add8(vx + vy))
        }),
{
    lemma_decode_bounds(instruction);
}

/// The draw opcode's flag: it reads one exactly when some set sprite bit
/// lands on a pixel that was lit, which the XOR compositing then turns off;
/// in every other case it reads zero.
pub proof fn lemma_draw_collision_flag(
    s: MachineView,
    instruction: u16,
    rnd: u8,
    key: KeyPress,
    now: u64,
)
    requires
        s.wf(),
        op_family(instruction) == 0xD,
        s.regs.i + op_n(instruction) <= MEMORY_SIZE,
    ensures
        ({
            let n = op_n(instruction) as int;
            let i = s.regs.i as int;
            let rows = s.mem.subrange(i, i + n);
            let px = (s.regs.v[op_x(instruction) as int] % 64) as int;
            let py = (s.regs.v[op_y(instruction) as int] % 32) as int;
            step(s, instruction, rnd, key, now) matches Ok((s2, render)) && render
                && (s2.regs.v[15] == 1 <==> (exists|r: int, b: int|
                0 <= r < n && 0 <= b < 8 && sprite_bit(rows[r], b) && s.fb[fb_index(
                    (px + b) % 64,
                    (py + r) % 32,
                )]))
                && (s2.regs.v[15] == 1 || s2.regs.v[15] == 0)
        }),
{
    lemma_decode_bounds(instruction);
    let n = op_n(instruction) as int;
    let i = s.regs.i as int;
    let rows = s.mem.subrange(i, i + n);
    let px = (s.regs.v[op_x(instruction) as int] % 64) as int;
    let py = (s.regs.v[op_y(instruction) as int] % 32) as int;
    crate::draw::lemma_draw_collision(s.fb, rows, px, py);
}

/// A call followed at once by a return: the call pushes the already-advanced
/// counter and jumps; the return restores the counter to the instruction
/// after the call and retreats the stack to its old depth.
pub proof fn lemma_call_then_return(
    s: MachineView,
    instruction: u16,
    rnd: u8,
    key: KeyPress,
    now: u64,
)
    requires
        s.wf(),
        op_family(instruction) == 0x2,
        !s.stack.is_full(),
    ensures
        ({
            step(s, instruction, rnd, key, now) matches Ok((s1, r1)) && s1.pc == op_nnn(
                instruction,
            ) && (step(s1, 0x00EE, rnd, key, now) matches Ok((s2, r2)) && s2.pc == s.pc
                && s2.stack.sp == s.stack.sp)
        }),
{
    lemma_sys_decode();
    lemma_decode_bounds(instruction);
}

} // verus!
