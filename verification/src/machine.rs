//! The machine as a mathematical value, and what one instruction does to it.
//!
//! [`Machine`] holds everything that a cycle can read or change.
//! [`Machine::execute`] is the meaning of one instruction and
//! [`Machine::cycle`] that of one fetch, decode and execute. The executable
//! engine is proved against these two.

use crate::cache::{be_u16, in_bounds, initial_memory, store, GLYPH_SIZE, MEMORY_SIZE};
use crate::display::{cleared, collides, drawn, HEIGHT, WIDTH};
use crate::instruction::{decode, Instruction};
use crate::keypad::{is_pressed, KEY_COUNT};
use vstd::prelude::*;

verus! {

/// Number of general registers.
pub const REGISTER_COUNT: usize = 16;

/// Index of the register that doubles as the flag.
pub const FLAG: usize = 0xF;

/// Value of the program counter before the first cycle.
pub const COUNTER_START: usize = 0x200;

/// Number of bytes in one instruction word.
pub const WORD_SIZE: usize = 2;

/// The state of a machine between two cycles.
#[verifier::ext_equal]
pub struct Machine {
    /// Offset of the next instruction word.
    pub pc: int,
    /// The sixteen general registers; the last one is the flag.
    pub registers: Seq<u8>,
    /// The index register.
    pub address: u16,
    /// The program counters saved by the calls that have not returned yet,
    /// the latest one last.
    pub call_stack: Seq<int>,
    pub delay_timer: u8,
    pub sound_timer: u8,
    /// The address space, by offset.
    pub memory: Seq<u8>,
    /// The display, row by row.
    pub pixels: Seq<bool>,
    /// The keypad; a key is down when its entry is 1.
    pub keys: Seq<u8>,
}

/// 1 if `condition` holds, else 0.
pub open spec fn flag_of(condition: bool) -> u8 {
    if condition {
        1
    } else {
        0
    }
}

/// `value` reduced to eight bits.
pub open spec fn low8(value: int) -> u8 {
    (value % 0x100) as u8
}

/// `value` reduced to sixteen bits.
pub open spec fn low16(value: int) -> u16 {
    (value % 0x10000) as u16
}

/// A counter after one tick: it goes down by one and stays at 0.
pub open spec fn ticked(timer: u8) -> u8 {
    if timer > 0 {
        (timer - 1) as u8
    } else {
        0
    }
}

/// The hundreds, tens and ones of `value`.
pub open spec fn decimal_digits(value: u8) -> Seq<u8> {
    seq![value / 100, value / 10 % 10, value % 10]
}

/// The `count` bytes of `memory` from offset `pos` on.
pub open spec fn bytes_at(memory: Seq<u8>, pos: int, count: int) -> Seq<u8> {
    Seq::new(count as nat, |i: int| memory[pos + i])
}

impl Machine {
    /// The machine before the first cycle of `program`.
    pub open spec fn boot(program: Seq<u8>, pixels: Seq<bool>, keys: Seq<u8>) -> Machine {
        Machine {
            pc: COUNTER_START as int,
            registers: Seq::new(REGISTER_COUNT as nat, |i: int| 0u8),
            address: 0,
            call_stack: Seq::empty(),
            delay_timer: 0,
            sound_timer: 0,
            memory: initial_memory(program),
            pixels,
            keys,
        }
    }

    /// Every part has its fixed size and no program counter is negative.
    pub open spec fn wf(self) -> bool {
        &&& 0 <= self.pc
        &&& self.registers.len() == REGISTER_COUNT
        &&& self.memory.len() == MEMORY_SIZE
        &&& self.pixels.len() == WIDTH * HEIGHT
        &&& self.keys.len() == KEY_COUNT
        &&& forall|i: int| 0 <= i < self.call_stack.len() ==> 0 <= #[trigger] self.call_stack[i]
    }

    /// The value of register `x`.
    pub open spec fn reg(self, x: u8) -> u8 {
        self.registers[x as int]
    }

    /// The machine with `value` in register `x`.
    pub open spec fn with_reg(self, x: u8, value: u8) -> Machine {
        Machine { registers: self.registers.update(x as int, value), ..self }
    }

    /// The machine with `value` in the flag register.
    pub open spec fn with_flag(self, value: u8) -> Machine {
        Machine { registers: self.registers.update(FLAG as int, value), ..self }
    }

    /// The machine with the program counter moved on by `words` instruction
    /// words.
    pub open spec fn advanced(self, words: int) -> Machine {
        Machine { pc: self.pc + words * WORD_SIZE, ..self }
    }

    /// The machine after the instruction at hand, which skips the next one
    /// if `condition` holds.
    pub open spec fn skipping_if(self, condition: bool) -> Machine {
        if condition {
            self.advanced(2)
        } else {
            self.advanced(1)
        }
    }

    /// The machine with both timers ticked once.
    pub open spec fn tick(self) -> Machine {
        Machine {
            delay_timer: ticked(self.delay_timer),
            sound_timer: ticked(self.sound_timer),
            ..self
        }
    }

    /// Whether the key that register `x` names is down.
    pub open spec fn key_down(self, x: u8) -> bool {
        is_pressed(self.keys, self.reg(x) as int)
    }

    /// How many of `count` bytes, counted from the index register on, lie
    /// inside the address space.
    pub open spec fn reachable(self, count: int) -> int {
        if self.address + count <= MEMORY_SIZE {
            count
        } else if self.address <= MEMORY_SIZE {
            MEMORY_SIZE - self.address
        } else {
            0
        }
    }

    /// How many bytes `instruction` reads or writes from the index register
    /// on.
    pub open spec fn span(instruction: Instruction) -> int {
        match instruction {
            Instruction::Display(_, _, n) => n as int,
            Instruction::SetBCD(_) => 3,
            Instruction::DumpMem(x) => x + 1,
            Instruction::LoadMem(x) => x + 1,
            _ => 0,
        }
    }

    /// Whether executing `instruction` ends in a memory fault: it does when
    /// the instruction reaches beyond the end of the address space.
    pub open spec fn faults(self, instruction: Instruction) -> bool {
        self.reachable(Self::span(instruction)) < Self::span(instruction)
    }

    /// The machine after `instruction`, where `random` is the byte that the
    /// random source hands out in this cycle.
    ///
    /// Both timers tick first. Unless stated otherwise the program counter
    /// then moves on by one word. Where the instruction faults, the machine
    /// is left as the instruction had changed it up to the byte that could
    /// not be reached, and the program counter stays.
    pub open spec fn execute(self, instruction: Instruction, random: u8) -> Machine {
        self.tick().perform(instruction, random)
    }

    /// The machine after `instruction`, but for the tick of the timers that
    /// comes before it.
    ///
    /// The flag is register 15. Where an instruction puts both a result and
    /// the flag into it, the later one stays: the flag for addition and
    /// reverse subtraction, the result for subtraction and the shifts. The
    /// shifts read their source once, before they write.
    ///
    /// The index register holds sixteen bits and wraps when it is added to.
    /// It may point beyond the address space; only an access there faults.
    ///
    /// A register that names no key reads as a key that is up.
    pub open spec fn perform(self, instruction: Instruction, random: u8) -> Machine {
        match instruction {
            Instruction::Clear => Machine { pixels: cleared(), ..self }.advanced(1),
            Instruction::Return => if self.call_stack.len() > 0 {
                Machine { pc: self.call_stack.last(), call_stack: self.call_stack.drop_last(), ..self }.advanced(1)
            } else {
                self.advanced(1)
            },
            Instruction::JumpToRoutine(addr) => Machine { pc: addr as int, ..self },
            Instruction::CallRoutine(addr) => Machine {
                pc: addr as int,
                call_stack: self.call_stack.push(self.pc),
                ..self
            },
            Instruction::SkipIfEqual(x, byte) => self.skipping_if(self.reg(x) == byte),
            Instruction::SkipIfNotEqual(x, byte) => self.skipping_if(self.reg(x) != byte),
            Instruction::SkipIfEqualRegister(x, y) => self.skipping_if(self.reg(x) == self.reg(y)),
            Instruction::SetConst(x, byte) => self.with_reg(x, byte).advanced(1),
            Instruction::AddConst(x, byte) => self.with_reg(x, low8(self.reg(x) + byte)).advanced(1),
            Instruction::SetRegister(x, y) => self.with_reg(x, self.reg(y)).advanced(1),
            Instruction::SetOR(x, y) => self.with_reg(x, self.reg(x) | self.reg(y)).advanced(1),
            Instruction::SetAND(x, y) => self.with_reg(x, self.reg(x) & self.reg(y)).advanced(1),
            Instruction::SetXOR(x, y) => self.with_reg(x, self.reg(x) ^ self.reg(y)).advanced(1),
            Instruction::Add(x, y) => self.with_reg(x, low8(self.reg(x) + self.reg(y))).with_flag(
                flag_of(self.reg(x) + self.reg(y) > 0xFF),
            ).advanced(1),
            Instruction::Subtract(x, y) => self.with_flag(flag_of(self.reg(x) > self.reg(y))).with_reg(
                x,
                low8(self.reg(x) - self.reg(y)),
            ).advanced(1),
            Instruction::ShiftRight(x, y) => self.with_flag(self.reg(y) % 2).with_reg(x, self.reg(y) / 2).advanced(1),
            Instruction::SetSubtracted(x, y) => self.with_reg(x, low8(self.reg(y) - self.reg(x))).with_flag(
                flag_of(self.reg(x) > self.reg(y)),
            ).advanced(1),
            Instruction::ShiftLeft(x, y) => self.with_flag(self.reg(y) / 0x80).with_reg(
                x,
                low8(self.reg(y) * 2),
            ).advanced(1),
            Instruction::SkipIfNotEqualRegister(x, y) => self.skipping_if(self.reg(x) != self.reg(y)),
            Instruction::SetAddress(addr) => Machine { address: addr, ..self }.advanced(1),
            Instruction::JumpToAddress(addr) => Machine { pc: self.reg(0) + addr, ..self },
            Instruction::SetRandom(x, byte) => self.with_reg(x, random & byte).advanced(1),
            Instruction::Display(x, y, n) => {
                let rows = bytes_at(self.memory, self.address as int, self.reachable(n as int));
                let done = Machine { pixels: drawn(self.pixels, rows, self.reg(x), self.reg(y)), ..self }.with_flag(
                    flag_of(collides(self.pixels, rows, self.reg(x), self.reg(y))),
                );
                if self.faults(instruction) {
                    done
                } else {
                    done.advanced(1)
                }
            },
            Instruction::SkipIfKeyPressed(x) => self.skipping_if(self.key_down(x)),
            Instruction::SkipIfKeyNotPressed(x) => self.skipping_if(!self.key_down(x)),
            Instruction::LoadDelay(x) => self.with_reg(x, self.delay_timer).advanced(1),
            Instruction::WaitForKeyPress(x) => if self.key_down(x) {
                self.advanced(1)
            } else {
                self
            },
            Instruction::SetDelayTimer(x) => Machine { delay_timer: self.reg(x), ..self }.advanced(1),
            Instruction::SetSoundTimer(x) => Machine { sound_timer: self.reg(x), ..self }.advanced(1),
            Instruction::AddToMem(x) => Machine { address: low16(self.address + self.reg(x)), ..self }.advanced(1),
            Instruction::SetSpriteLocation(x) => Machine {
                address: (self.reg(x) * GLYPH_SIZE) as u16,
                ..self
            }.advanced(1),
            Instruction::SetBCD(x) => if self.faults(instruction) {
                self
            } else {
                Machine {
                    memory: store(self.memory, self.address as int, decimal_digits(self.reg(x))),
                    ..self
                }.advanced(1)
            },
            Instruction::DumpMem(x) => {
                let count = self.reachable(x + 1);
                let done = Machine {
                    memory: store(self.memory, self.address as int, self.registers.take(count)),
                    address: (self.address + count) as u16,
                    ..self
                };
                if self.faults(instruction) {
                    done
                } else {
                    done.advanced(1)
                }
            },
            Instruction::LoadMem(x) => {
                let count = self.reachable(x + 1);
                let done = Machine {
                    registers: Seq::new(
                        self.registers.len(),
                        |i: int|
                            if i < count {
                                self.memory[self.address + i]
                            } else {
                                self.registers[i]
                            },
                    ),
                    address: (self.address + count) as u16,
                    ..self
                };
                if self.faults(instruction) {
                    done
                } else {
                    done.advanced(1)
                }
            },
        }
    }

    /// The instruction word at the program counter, if both of its bytes
    /// lie inside the address space.
    pub open spec fn fetch(self) -> Option<u16> {
        if in_bounds(self.memory.len(), self.pc, WORD_SIZE as int) {
            Some(be_u16(self.memory[self.pc], self.memory[self.pc + 1]))
        } else {
            None
        }
    }

    /// The instruction that the next cycle executes, if the fetch succeeds
    /// and the word fetched stands for one.
    pub open spec fn next_instruction(self) -> Option<Instruction> {
        match self.fetch() {
            None => None,
            Some(word) => decode(word),
        }
    }

    /// Whether one cycle ends in a memory fault: the fetch does, or the
    /// instruction fetched.
    pub open spec fn cycle_faults(self) -> bool {
        match self.fetch() {
            None => true,
            Some(word) => match decode(word) {
                None => false,
                Some(instruction) => self.faults(instruction),
            },
        }
    }

    /// The machine after one cycle. A fetch that faults changes nothing. A
    /// word that stands for no instruction is stepped over, and the timers
    /// do not tick for it.
    pub open spec fn cycle(self, random: u8) -> Machine {
        match self.fetch() {
            None => self,
            Some(word) => match decode(word) {
                None => self.advanced(1),
                Some(instruction) => self.execute(instruction, random),
            },
        }
    }
}

} // verus!
