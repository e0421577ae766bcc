//! The CPU core: registers, index register, program counter and call
//! stack, driving the fetch / decode / execute cycle over the whole
//! machine state.
//!
//! The behaviour of one instruction is captured by the mathematical
//! transition function [`step_state`] over a [`MachineState`]; the
//! executable [`CHIP8::decode_execute`] is proved to realise exactly
//! that transition, and the laws at the bottom of this module are
//! proved of the transition function itself.

use vstd::prelude::*;
use vstd::arithmetic::div_mod::lemma_add_mod_noop;
use crate::display::{draw_collides, draw_spec, Display, DISPLAY_PIXELS, DISPLAY_ROWS};
use crate::keyboard::{Keyboard, KEY_COUNT};
use crate::memory::{initial_memory, Memory, MEMORY_SIZE};
use crate::stack::{stack_entries, CallStack};
use crate::timer::Timer;

verus! {

/// Number of general registers `V0`-`VF`.
pub const REGISTER_COUNT: usize = 16;

/// The whole machine state as mathematics: every component of the
/// aggregate, with collections abstracted to sequences.
#[verifier::ext_equal]
pub ghost struct MachineState {
    /// The 4096 memory bytes.
    pub memory: Seq<u8>,
    /// The 32 x 64 pixel grid, row-major.
    pub screen: Seq<bool>,
    /// The call stack entries, bottom first.
    pub stack: Seq<(u8, u8)>,
    /// The sixteen general registers `V0`-`VF`.
    pub regs: Seq<u8>,
    /// The 16-bit index register.
    pub index: u16,
    /// The delay timer counter.
    pub delay: u8,
    /// The sound timer counter.
    pub sound: u8,
    /// The sixteen keypad flags.
    pub keys: Seq<bool>,
    /// The 16-bit program counter.
    pub pc: u16,
}

/// Top nibble of the high instruction byte: the instruction type.
pub open spec fn itype_of(hi: u8) -> u8 {
    hi >> 4
}

/// Bottom nibble of the high byte: a register index.
pub open spec fn x_of(hi: u8) -> u8 {
    hi & 0x0F
}

/// Top nibble of the low byte: a register index.
pub open spec fn y_of(lo: u8) -> u8 {
    lo >> 4
}

/// Bottom nibble of the low byte: a 4-bit immediate.
pub open spec fn n_of(lo: u8) -> u8 {
    lo & 0x0F
}

/// The low byte itself: an 8-bit immediate.
pub open spec fn nn_of(lo: u8) -> u8 {
    lo
}

/// The low 12 bits of the full instruction word: a memory address.
pub open spec fn nnn_of(hi: u8, lo: u8) -> u16 {
    (((hi as u16) << 8) | (lo as u16)) & 0x0FFF
}

/// Whether the instruction word `(hi, lo)` decodes to an operation
/// that has an execute handler.
pub open spec fn step_implemented(hi: u8, lo: u8) -> bool {
    let itype = itype_of(hi);
    (itype == 0x0 && nn_of(lo) == 0xE0) || itype == 0x1 || itype == 0x6 || itype == 0x7 || itype
        == 0xA || itype == 0xD
}

/// The `n` sprite bytes starting at `index`, read with wraparound
/// addressing.
pub open spec fn sprite_at(mem: Seq<u8>, index: u16, n: u8) -> Seq<u8> {
    Seq::new(n as nat, |j: int| mem[(index + j) % (MEMORY_SIZE as int)])
}

/// The machine state after executing the instruction word `(hi, lo)`
/// against state `s`. An instruction without a handler leaves the
/// state exactly as it is.
pub open spec fn step_state(s: MachineState, hi: u8, lo: u8) -> MachineState {
    let itype = itype_of(hi);
    let x = x_of(hi) as int;
    let y = y_of(lo) as int;
    let n = n_of(lo);
    let nn = nn_of(lo);
    let nnn = nnn_of(hi, lo);
    if itype == 0x0 && nn == 0xE0 {
        // 00E0: clear screen.
        MachineState { screen: Seq::new(DISPLAY_PIXELS as nat, |p: int| false), ..s }
    } else if itype == 0x1 {
        // 1NNN: jump.
        MachineState { pc: nnn, ..s }
    } else if itype == 0x6 {
        // 6XNN: set register.
        MachineState { regs: s.regs.update(x, nn), ..s }
    } else if itype == 0x7 {
        // 7XNN: add immediate, wrapping, no flag side effect.
        MachineState { regs: s.regs.update(x, ((s.regs[x] + nn) % 256) as u8), ..s }
    } else if itype == 0xA {
        // ANNN: set index register.
        MachineState { index: nnn, ..s }
    } else if itype == 0xD {
        // DXYN: draw sprite, collision flag into VF.
        let sprite = sprite_at(s.memory, s.index, n);
        let sx = s.regs[x];
        let sy = s.regs[y];
        let collision = draw_collides(s.screen, sx, sy, sprite);
        MachineState {
            screen: draw_spec(s.screen, sx, sy, sprite),
            regs: s.regs.update(15, if collision { 1u8 } else { 0u8 }),
            ..s
        }
    } else {
        s
    }
}

/// The instruction word fetched at the current program counter: the
/// bytes at `pc` and `pc + 1`, addresses reduced modulo 4096.
pub open spec fn fetch_word(s: MachineState) -> (u8, u8) {
    (
        s.memory[s.pc as int % (MEMORY_SIZE as int)],
        s.memory[(s.pc + 1) % (MEMORY_SIZE as int)],
    )
}

/// The program counter after a fetch: advanced by two within the
/// 12-bit address space.
pub open spec fn next_pc(pc: u16) -> u16 {
    ((pc + 2) % (MEMORY_SIZE as int)) as u16
}

/// The machine state right after initialization: font preloaded,
/// everything else zeroed, screen off, keys released, stack empty.
pub open spec fn initial_state() -> MachineState {
    MachineState {
        memory: initial_memory(),
        screen: Seq::new(DISPLAY_PIXELS as nat, |p: int| false),
        stack: Seq::empty(),
        regs: Seq::new(REGISTER_COUNT as nat, |i: int| 0u8),
        index: 0,
        delay: 0,
        sound: 0,
        keys: Seq::new(KEY_COUNT as nat, |i: int| false),
        pc: 0,
    }
}

/// Decode succeeded but the operation has no execute handler. The
/// machine state is unchanged beyond the program counter already
/// advanced by the fetch; the caller chooses whether to continue or
/// halt.
#[derive(Debug)]
pub struct Unimplemented {
    /// The instruction type nibble that had no handler.
    pub itype: u8,
    /// The low byte of the instruction word, for sub-opcode reporting.
    pub nn: u8,
}

/// The CHIP-8 machine: one owned aggregate holding every component.
pub struct CHIP8 {
    /// Memory: 4096 writable bytes; the low region holds the font.
    pub memory: Memory,
    /// The display buffer.
    pub display: Display,
    /// The call stack: 16 entries inline, growing to the heap on
    /// deeper nesting.
    pub stack: CallStack,
    /// The general registers `V0`-`VF`; `VF` doubles as the flag
    /// register.
    pub variable: Vec<u8>,
    /// The index register: points into memory, mainly at sprite data.
    pub index: u16,
    /// The timer pair.
    pub timer: Timer,
    /// The keypad state; written by the input adapter, only read here.
    pub keyboard: Keyboard,
    /// The program counter: points at the current instruction.
    pub program_counter: u16,
}

impl View for CHIP8 {
    type V = MachineState;

    open spec fn view(&self) -> MachineState {
        MachineState {
            memory: self.memory.bytes@,
            screen: self.display.screen@,
            stack: stack_entries(self.stack),
            regs: self.variable@,
            index: self.index,
            delay: self.timer.delay_timer,
            sound: self.timer.sound_timer,
            keys: self.keyboard.keys@,
            pc: self.program_counter,
        }
    }
}

impl CHIP8 {
    /// The machine is well formed when every fixed-size component has
    /// its architectural size.
    pub open spec fn wf(self) -> bool {
        &&& self.memory.wf()
        &&& self.display.wf()
        &&& self.variable@.len() == REGISTER_COUNT
        &&& self.keyboard.wf()
    }

    /// Constructs a machine in the initial state: font preloaded into
    /// the reserved memory region, all registers, timers, pixels and
    /// keys cleared, the stack empty, and the program counter at zero.
    pub fn new() -> (r: Self)
        ensures
            r.wf(),
            r@ == initial_state(),
    {
        let memory = Memory::new();
        let display = Display::new();
        let stack = CallStack::new();
        let mut variable: Vec<u8> = Vec::new();
        let mut i: usize = 0;
        while i < REGISTER_COUNT
            invariant
                i <= REGISTER_COUNT,
                variable@.len() == i,
                forall|j: int| 0 <= j < i ==> variable@[j] == 0u8,
            decreases REGISTER_COUNT - i,
        {
            variable.push(0);
            i = i + 1;
        }
        let timer = Timer::new();
        let keyboard = Keyboard::new();
        let r = CHIP8 {
            memory,
            display,
            stack,
            variable,
            index: 0,
            timer,
            keyboard,
            program_counter: 0,
        };
        proof {
            assert(r@.screen =~= initial_state().screen);
            assert(r@.regs =~= initial_state().regs);
            assert(r@.keys =~= initial_state().keys);
            assert(r@ =~= initial_state());
        }
        r
    }

    /// Fetches the instruction word at the program counter: reads the
    /// bytes at `pc` and `pc + 1` (addresses reduced modulo 4096) and
    /// advances the program counter by two within the 12-bit space.
    /// Mutates nothing else; has no failure mode.
    pub fn fetch(&mut self) -> (instruction: (u8, u8))
        requires
            old(self).wf(),
        ensures
            final(self).wf(),
            instruction == fetch_word(old(self)@),
            final(self)@ == (MachineState { pc: next_pc(old(self)@.pc), ..old(self)@ }),
    {
        let b1 = self.memory.read(self.program_counter);
        let pc1: u16 = (self.program_counter % (MEMORY_SIZE as u16)) + 1;
        let b2 = self.memory.read(pc1);
        proof {
            lemma_add_mod_noop(self.program_counter as int, 1, MEMORY_SIZE as int);
            lemma_add_mod_noop(self.program_counter as int, 2, MEMORY_SIZE as int);
        }
        self.program_counter = (pc1 + 1) % (MEMORY_SIZE as u16);
        proof {
            assert(self@ =~= (MachineState { pc: next_pc(old(self)@.pc), ..old(self)@ }));
        }
        (b1, b2)
    }

    /// Decodes the instruction word into its nibble fields and
    /// executes the decoded operation against the machine state,
    /// realising exactly the transition [`step_state`]. Returns `Ok`
    /// precisely for the words that have a handler; on `Err` the whole
    /// state is left untouched and the unhandled combination is
    /// reported to the caller.
    pub fn decode_execute(&mut self, instruction: (u8, u8)) -> (r: Result<(), Unimplemented>)
        requires
            old(self).wf(),
        ensures
            final(self).wf(),
            final(self)@ == step_state(old(self)@, instruction.0, instruction.1),
            r is Ok <==> step_implemented(instruction.0, instruction.1),
            r matches Err(e) ==> e.itype == itype_of(instruction.0) && e.nn == nn_of(
                instruction.1,
            ) && final(self)@ == old(self)@,
    {
        let hi = instruction.0;
        let lo = instruction.1;
        // nibble 1: type of instruction.
        let itype: u8 = hi >> 4;
        // nibble 2: a register index.
        let x: u8 = hi & 0x0F;
        // nibble 3: a register index.
        let y: u8 = lo >> 4;
        // nibble 4: a 4-bit immediate.
        let n: u8 = lo & 0x0F;
        // the low byte: an 8-bit immediate.
        let nn: u8 = lo;
        // the low 12 bits of the word: a memory address.
        let word: u16 = ((hi as u16) << 8) | (lo as u16);
        let nnn: u16 = word & 0x0FFF;
        proof {
            assert((hi & 0x0F) < 16 && (lo >> 4) < 16 && (lo & 0x0F) < 16) by (bit_vector);
        }
        match itype {
            0x0 => {
                if nn == 0xE0 {
                    // 00E0: clear screen.
                    self.display.clear();
                    proof {
                        assert(self@.screen =~= step_state(old(self)@, hi, lo).screen);
                        assert(self@ =~= step_state(old(self)@, hi, lo));
                    }
                    Ok(())
                } else {
                    Err(Unimplemented { itype, nn })
                }
            },
            0x1 => {
                // 1NNN: jump: set the program counter to nnn.
                self.program_counter = nnn;
                proof {
                    assert(self@ =~= step_state(old(self)@, hi, lo));
                }
                Ok(())
            },
            0x6 => {
                // 6XNN: set register VX to nn.
                self.variable.set(x as usize, nn);
                proof {
                    assert(self@ =~= step_state(old(self)@, hi, lo));
                }
                Ok(())
            },
            0x7 => {
                // 7XNN: add nn to VX, wrapping on 8-bit overflow; the
                // flag register is not touched.
                let old_v = self.variable[x as usize];
                let sum: u8 = (((old_v as u16) + (nn as u16)) % 256) as u8;
                self.variable.set(x as usize, sum);
                proof {
                    assert(self@ =~= step_state(old(self)@, hi, lo));
                }
                Ok(())
            },
            0xA => {
                // ANNN: set the index register to nnn.
                self.index = nnn;
                proof {
                    assert(self@ =~= step_state(old(self)@, hi, lo));
                }
                Ok(())
            },
            0xD => {
                // DXYN: read the n-byte sprite at the index register
                // and XOR-draw it at (VX, VY); the collision flag goes
                // into VF.
                let mut sprite: Vec<u8> = Vec::new();
                let mut j: usize = 0;
                while j < n as usize
                    invariant
                        self == old(self),
                        old(self).wf(),
                        j <= n as usize,
                        sprite@.len() == j,
                        forall|k: int|
                            0 <= k < j ==> sprite@[k] == old(self)@.memory[(old(self)@.index + k)
                                % (MEMORY_SIZE as int)],
                    decreases n as int - j,
                {
                    let addr: usize = ((self.index as usize) + j) % MEMORY_SIZE;
                    let b = self.memory.read(addr as u16);
                    sprite.push(b);
                    j = j + 1;
                }
                proof {
                    assert(sprite@ =~= sprite_at(old(self)@.memory, old(self)@.index, n));
                    assert(n < DISPLAY_ROWS) by {
                        assert((lo & 0x0F) < 16) by (bit_vector);
                    }
                }
                let vx = self.variable[x as usize];
                let vy = self.variable[y as usize];
                let collision = self.display.draw_sprite(vx, vy, &sprite);
                self.variable.set(15, if collision { 1 } else { 0 });
                proof {
                    assert(self@ =~= step_state(old(self)@, hi, lo));
                }
                Ok(())
            },
            _ => Err(Unimplemented { itype, nn }),
        }
    }
}

// ---------------------------------------------------------------------
// Laws of the transition function.
// ---------------------------------------------------------------------

/// Law: for every address `nnn`, executing the jump opcode sets the
/// program counter to exactly `nnn` and mutates no other state.
pub proof fn lemma_jump_sets_pc(s: MachineState, hi: u8, lo: u8)
    requires
        itype_of(hi) == 0x1,
    ensures
        step_state(s, hi, lo).pc == nnn_of(hi, lo),
        step_state(s, hi, lo).memory == s.memory,
        step_state(s, hi, lo).screen == s.screen,
        step_state(s, hi, lo).stack == s.stack,
        step_state(s, hi, lo).regs == s.regs,
        step_state(s, hi, lo).index == s.index,
        step_state(s, hi, lo).delay == s.delay,
        step_state(s, hi, lo).sound == s.sound,
        step_state(s, hi, lo).keys == s.keys,
{
}

/// Law: for all 8-bit `a` and `b`, setting `V[x]` to `a` with
/// set-immediate and then executing add-immediate with operand `b`
/// leaves `V[x] == (a + b) mod 256`; and since add-immediate has no
/// flag side effect, `VF` keeps its value whenever it is not itself
/// the destination register (for `x == 0xF` the flag register is the
/// destination, so its old value cannot survive).
pub proof fn lemma_set_then_add(s: MachineState, x: u8, a: u8, b: u8)
    requires
        x < 16,
        s.regs.len() == REGISTER_COUNT,
    ensures
        ({
            let s1 = step_state(s, 0x60u8 | x, a);
            let s2 = step_state(s1, 0x70u8 | x, b);
            &&& s2.regs[x as int] == ((a + b) % 256) as u8
            &&& (x != 0xF ==> s2.regs[15] == s.regs[15])
        }),
{
    assert((0x60u8 | x) >> 4 == 6 && (0x60u8 | x) & 0x0F == x) by (bit_vector)
        requires
            x < 16,
    ;
    assert((0x70u8 | x) >> 4 == 7 && (0x70u8 | x) & 0x0F == x) by (bit_vector)
        requires
            x < 16,
    ;
}

/// Law: an instruction word whose `itype`/sub-opcode pair has no
/// execute handler leaves the whole machine state exactly as it is:
/// registers, memory, index, program counter, display, timers, keypad
/// and stack are all unchanged.
pub proof fn lemma_unimplemented_preserves_state(s: MachineState, hi: u8, lo: u8)
    requires
        !step_implemented(hi, lo),
    ensures
        step_state(s, hi, lo) == s,
{
}

} // verus!
