//! The execution engine: registers, program counter, index register, call
//! stack and timers, together with the address space and the peripherals.
//!
//! [`CPU::cycle`] fetches, decodes and executes one instruction. What the
//! engine does is stated over its view, a [`Machine`].

use crate::bus::Bus;
use crate::cache::{store, Cache, GLYPH_SIZE, MEMORY_SIZE, PROGRAM_START};
use crate::fault::Fault;
use crate::instruction::{decode, Instruction};
use crate::machine::{bytes_at, decimal_digits, Machine, COUNTER_START, FLAG, REGISTER_COUNT};
use vstd::prelude::*;

verus! {

/// `rand::random::<u8>`: a byte from the thread's random generator.
///
/// Nothing is claimed of the byte: two calls may differ.
#[verifier::external_body]
fn random_byte() -> (byte: u8) {
    rand::random::<u8>()
}

/// What a cycle returns: the memory fault if it faults, and nothing else.
pub open spec fn outcome(faults: bool) -> Result<(), Fault> {
    if faults {
        Err(Fault::Memory)
    } else {
        Ok(())
    }
}

/// Whether `instruction` is a conditional skip or a wait for a key.
spec fn is_branch(instruction: Instruction) -> bool {
    ||| instruction is SkipIfEqual
    ||| instruction is SkipIfNotEqual
    ||| instruction is SkipIfEqualRegister
    ||| instruction is SkipIfNotEqualRegister
    ||| instruction is SkipIfKeyPressed
    ||| instruction is SkipIfKeyNotPressed
    ||| instruction is WaitForKeyPress
}

/// Whether `instruction` computes a value into a register and does nothing
/// else but, for some, set the flag.
spec fn is_computation(instruction: Instruction) -> bool {
    ||| instruction is SetConst
    ||| instruction is AddConst
    ||| instruction is SetRegister
    ||| instruction is SetOR
    ||| instruction is SetAND
    ||| instruction is SetXOR
    ||| instruction is Add
    ||| instruction is Subtract
    ||| instruction is ShiftRight
    ||| instruction is SetSubtracted
    ||| instruction is ShiftLeft
    ||| instruction is SetRandom
    ||| instruction is LoadDelay
}

/// The execution engine of one machine.
///
/// The fields are open to the host so that contracts can speak of them; a
/// host that writes to them has to keep [`CPU::wf`].
pub struct CPU {
    /// Offset of the next instruction word.
    pub pc: usize,
    /// The general registers; the last one is the flag.
    pub registers: [u8; 16],
    /// The index register.
    pub address: u16,
    /// The program counters saved by calls, the latest one last.
    pub call_stack: Vec<usize>,
    /// The address space.
    pub cache: Cache,
    pub delay_timer: u8,
    pub sound_timer: u8,
    /// The display and the keypad.
    pub bus: Bus,
}

impl CPU {
    /// The engine and its peripherals as one machine state.
    pub open spec fn view(&self) -> Machine {
        Machine {
            pc: self.pc as int,
            registers: self.registers@,
            address: self.address,
            call_stack: self.call_stack@.map_values(|p: usize| p as int),
            delay_timer: self.delay_timer,
            sound_timer: self.sound_timer,
            memory: self.cache@,
            pixels: self.bus.display@,
            keys: self.bus.keypad.keys@,
        }
    }

    /// The machine state is well formed, and a return from any call on the
    /// stack leads to a program counter that the engine can hold.
    pub open spec fn wf(&self) -> bool {
        &&& self@.wf()
        &&& forall|i: int|
            0 <= i < self@.call_stack.len() ==> #[trigger] self@.call_stack[i] + 2 <= usize::MAX
    }

    /// An engine that is about to run the program `buf` from its start.
    pub fn new(buf: &Vec<u8>, bus: Bus) -> (cpu: CPU)
        requires
            buf@.len() <= MEMORY_SIZE - PROGRAM_START,
            bus.display.wf(),
        ensures
            cpu.wf(),
            cpu.bus == bus,
            cpu@ == Machine::boot(buf@, bus.display@, bus.keypad.keys@),
    {
        let cpu = CPU {
            cache: Cache::new(buf),
            pc: COUNTER_START,
            call_stack: Vec::new(),
            registers: [0; 16],
            address: 0,
            delay_timer: 0,
            sound_timer: 0,
            bus,
        };
        assert(cpu@ =~= Machine::boot(buf@, bus.display@, bus.keypad.keys@));
        cpu
    }

    fn timer_tick(&mut self)
        ensures
            final(self)@ == old(self)@.tick(),
    {
        if self.delay_timer > 0 {
            self.delay_timer -= 1;
        }
        if self.sound_timer > 0 {
            self.sound_timer -= 1;
        }
    }

    fn inc_pc(&mut self)
        requires
            old(self)@.pc + 2 <= usize::MAX,
        ensures
            final(self)@ == old(self)@.advanced(1),
    {
        self.pc += 2;
    }

    /// Reads up to `count` bytes from the index register on, one at a time,
    /// and stops at the first that lies outside the address space. Returns
    /// the bytes read and whether it stopped early.
    fn read_run(&mut self, count: u8) -> (r: (Vec<u8>, bool))
        requires
            old(self).wf(),
        ensures
            final(self).wf(),
            final(self)@ == old(self)@,
            r.0@ == bytes_at(old(self)@.memory, old(self)@.address as int, old(self)@.reachable(count as int)),
            r.1 == (old(self)@.reachable(count as int) < count),
    {
        let mut bytes: Vec<u8> = Vec::new();
        let mut fault = false;
        while bytes.len() < count as usize && !fault
            invariant
                self.wf(),
                self@ == old(self)@,
                bytes@.len() <= count,
                bytes@.len() > 0 ==> self.address + bytes@.len() <= MEMORY_SIZE,
                fault ==> self.address + bytes@.len() >= MEMORY_SIZE && bytes@.len() < count,
                bytes@ == bytes_at(self@.memory, self.address as int, bytes@.len() as int),
            decreases count - bytes@.len() + if fault { 0int } else { 1int },
        {
            match self.cache.read_from(self.address as u64 + bytes.len() as u64) {
                Ok(byte) => {
                    bytes.push(byte);
                    assert(bytes@ =~= bytes_at(self@.memory, self.address as int, bytes@.len() as int));
                },
                Err(_) => {
                    fault = true;
                },
            }
            assert(self@ =~= old(self)@);
        }
        (bytes, fault)
    }

    /// Draws the sprite of `n` rows at the index register at the position
    /// that the registers `x` and `y` hold.
    fn draw(&mut self, x: u8, y: u8, n: u8) -> (r: Result<(), Fault>)
        requires
            old(self).wf(),
            x < REGISTER_COUNT,
            y < REGISTER_COUNT,
            old(self)@.pc + 2 <= usize::MAX,
        ensures
            final(self).wf(),
            final(self)@ == old(self)@.perform(Instruction::Display(x, y, n), 0),
            r == outcome(old(self)@.faults(Instruction::Display(x, y, n))),
    {
        let start_x = self.registers[x as usize];
        let start_y = self.registers[y as usize];
        let (rows, fault) = self.read_run(n);
        let collision = self.bus.display.draw_sprite(start_x, start_y, rows.as_slice());
        self.registers[FLAG] = if collision {
            1
        } else {
            0
        };
        if fault {
            assert(self@ =~= old(self)@.perform(Instruction::Display(x, y, n), 0));
            return Err(Fault::Memory);
        }
        self.pc += 2;
        assert(self@ =~= old(self)@.perform(Instruction::Display(x, y, n), 0));
        Ok(())
    }

    /// Stores the decimal digits of register `x` at the index register.
    fn store_digits(&mut self, x: u8) -> (r: Result<(), Fault>)
        requires
            old(self).wf(),
            x < REGISTER_COUNT,
            old(self)@.pc + 2 <= usize::MAX,
        ensures
            final(self).wf(),
            final(self)@ == old(self)@.perform(Instruction::SetBCD(x), 0),
            r == outcome(old(self)@.faults(Instruction::SetBCD(x))),
    {
        let val = self.registers[x as usize];
        let h = val / 100;
        let t = (val / 10) % 10;
        let d = (val % 100) % 10;
        let digits: [u8; 3] = [h, t, d];
        assert(digits@ =~= decimal_digits(val));
        match self.cache.write_to(self.address as u64, &digits) {
            Ok(()) => {},
            Err(fault) => {
                assert(self@ =~= old(self)@.perform(Instruction::SetBCD(x), 0));
                return Err(fault);
            },
        }
        self.pc += 2;
        assert(self@ =~= old(self)@.perform(Instruction::SetBCD(x), 0));
        Ok(())
    }

    /// Stores the registers `0..=x` from the index register on and moves
    /// the index register behind them.
    fn dump(&mut self, x: u8) -> (r: Result<(), Fault>)
        requires
            old(self).wf(),
            x < REGISTER_COUNT,
            old(self)@.pc + 2 <= usize::MAX,
        ensures
            final(self).wf(),
            final(self)@ == old(self)@.perform(Instruction::DumpMem(x), 0),
            r == outcome(old(self)@.faults(Instruction::DumpMem(x))),
    {
        let ghost start = self@;
        let mut idx: u8 = 0;
        let mut fault = false;
        while idx <= x && !fault
            invariant
                x < REGISTER_COUNT,
                idx <= x + 1,
                start == old(self)@,
                start.wf(),
                self.wf(),
                self@ == (Machine {
                    memory: store(start.memory, start.address as int, start.registers.take(idx as int)),
                    address: (start.address + idx) as u16,
                    ..start
                }),
                idx > 0 ==> start.address + idx <= MEMORY_SIZE,
                self.address == start.address + idx,
                fault ==> start.address + idx >= MEMORY_SIZE && idx <= x,
            decreases x + 1 - idx + if fault { 0int } else { 1int },
        {
            let byte = self.registers[idx as usize];
            match self.cache.write_to(self.address as u64, &[byte]) {
                Ok(()) => {
                    self.address += 1;
                    idx += 1;
                    assert(self.cache@ =~= store(
                        start.memory,
                        start.address as int,
                        start.registers.take(idx as int),
                    ));
                },
                Err(_) => {
                    fault = true;
                },
            }
            assert(self@ =~= (Machine {
                memory: store(start.memory, start.address as int, start.registers.take(idx as int)),
                address: (start.address + idx) as u16,
                ..start
            }));
        }
        if fault {
            assert(self@ =~= old(self)@.perform(Instruction::DumpMem(x), 0));
            return Err(Fault::Memory);
        }
        self.pc += 2;
        assert(self@ =~= old(self)@.perform(Instruction::DumpMem(x), 0));
        Ok(())
    }

    /// Loads the registers `0..=x` from the index register on and moves the
    /// index register behind what was read.
    fn load(&mut self, x: u8) -> (r: Result<(), Fault>)
        requires
            old(self).wf(),
            x < REGISTER_COUNT,
            old(self)@.pc + 2 <= usize::MAX,
        ensures
            final(self).wf(),
            final(self)@ == old(self)@.perform(Instruction::LoadMem(x), 0),
            r == outcome(old(self)@.faults(Instruction::LoadMem(x))),
    {
        let ghost start = self@;
        let mut idx: u8 = 0;
        let mut fault = false;
        while idx <= x && !fault
            invariant
                x < REGISTER_COUNT,
                idx <= x + 1,
                start == old(self)@,
                start.wf(),
                self.wf(),
                self@ == (Machine {
                    registers: Seq::new(
                        start.registers.len(),
                        |i: int|
                            if i < idx {
                                start.memory[start.address + i]
                            } else {
                                start.registers[i]
                            },
                    ),
                    address: (start.address + idx) as u16,
                    ..start
                }),
                idx > 0 ==> start.address + idx <= MEMORY_SIZE,
                self.address == start.address + idx,
                fault ==> start.address + idx >= MEMORY_SIZE && idx <= x,
            decreases x + 1 - idx + if fault { 0int } else { 1int },
        {
            match self.cache.read_from(self.address as u64) {
                Ok(byte) => {
                    self.registers[idx as usize] = byte;
                    self.address += 1;
                    idx += 1;
                },
                Err(_) => {
                    fault = true;
                },
            }
            assert(self@ =~= (Machine {
                registers: Seq::new(
                    start.registers.len(),
                    |i: int|
                        if i < idx {
                            start.memory[start.address + i]
                        } else {
                            start.registers[i]
                        },
                ),
                address: (start.address + idx) as u16,
                ..start
            }));
        }
        if fault {
            assert(self@ =~= old(self)@.perform(Instruction::LoadMem(x), 0));
            return Err(Fault::Memory);
        }
        self.pc += 2;
        assert(self@ =~= old(self)@.perform(Instruction::LoadMem(x), 0));
        Ok(())
    }

    /// Executes a conditional skip or a wait for a key.
    fn branch(&mut self, instruction: &Instruction)
        requires
            old(self).wf(),
            instruction.wf(),
            is_branch(*instruction),
            old(self)@.pc + 4 <= usize::MAX,
        ensures
            final(self).wf(),
            final(self)@ == old(self)@.perform(*instruction, 0),
    {
        let mut words: u8 = 1;
        match *instruction {
            Instruction::SkipIfEqual(vx, data) => {
                if self.registers[vx as usize] == data {
                    words = 2;
                }
            },
            Instruction::SkipIfNotEqual(vx, data) => {
                if self.registers[vx as usize] != data {
                    words = 2;
                }
            },
            Instruction::SkipIfEqualRegister(vx, vy) => {
                if self.registers[vx as usize] == self.registers[vy as usize] {
                    words = 2;
                }
            },
            Instruction::SkipIfNotEqualRegister(vx, vy) => {
                if self.registers[vx as usize] != self.registers[vy as usize] {
                    words = 2;
                }
            },
            Instruction::SkipIfKeyPressed(vx) => {
                let key = self.registers[vx as usize];
                if self.bus.keypad.pressed(key) {
                    words = 2;
                }
            },
            Instruction::SkipIfKeyNotPressed(vx) => {
                let key = self.registers[vx as usize];
                if !self.bus.keypad.pressed(key) {
                    words = 2;
                }
            },
            Instruction::WaitForKeyPress(vx) => {
                let key = self.registers[vx as usize];
                if !self.bus.keypad.pressed(key) {
                    words = 0;
                }
            },
            _ => {},
        }
        if words >= 1 {
            self.inc_pc();
        }
        if words >= 2 {
            self.inc_pc();
        }
    }

    /// Executes an instruction that computes a value into a register.
    fn compute(&mut self, instruction: &Instruction, random: u8)
        requires
            old(self).wf(),
            instruction.wf(),
            is_computation(*instruction),
            old(self)@.pc + 2 <= usize::MAX,
        ensures
            final(self).wf(),
            final(self)@ == old(self)@.perform(*instruction, random),
    {
        let ghost goal = old(self)@.perform(*instruction, random);
        match *instruction {
            Instruction::SetConst(vx, data) => {
                self.registers[vx as usize] = data;
                assert(self@.advanced(1) =~= goal);
            },
            Instruction::AddConst(vx, data) => {
                let x = self.registers[vx as usize];
                self.registers[vx as usize] = x.wrapping_add(data);
                assert(self@.advanced(1) =~= goal);
            },
            Instruction::SetRegister(vx, vy) => {
                self.registers[vx as usize] = self.registers[vy as usize];
                assert(self@.advanced(1) =~= goal);
            },
            Instruction::SetOR(vx, vy) => {
                let x = self.registers[vx as usize];
                self.registers[vx as usize] = x | self.registers[vy as usize];
                assert(self@.advanced(1) =~= goal);
            },
            Instruction::SetAND(vx, vy) => {
                let x = self.registers[vx as usize];
                self.registers[vx as usize] = x & self.registers[vy as usize];
                assert(self@.advanced(1) =~= goal);
            },
            Instruction::SetXOR(vx, vy) => {
                let x = self.registers[vx as usize];
                self.registers[vx as usize] = x ^ self.registers[vy as usize];
                assert(self@.advanced(1) =~= goal);
            },
            Instruction::Add(vx, vy) => {
                let x = self.registers[vx as usize];
                let y = self.registers[vy as usize];
                let ret: u16 = x as u16 + y as u16;
                self.registers[vx as usize] = x.wrapping_add(y);
                self.registers[FLAG] = if ret > 255 {
                    1
                } else {
                    0
                };
                assert(self@.advanced(1) =~= goal);
            },
            Instruction::Subtract(vx, vy) => {
                let x = self.registers[vx as usize];
                let y = self.registers[vy as usize];
                self.registers[FLAG] = if x > y {
                    1
                } else {
                    0
                };
                self.registers[vx as usize] = x.wrapping_sub(y);
                assert(self@.advanced(1) =~= goal);
            },
            Instruction::ShiftRight(vx, vy) => {
                let y = self.registers[vy as usize];
                assert(y & 1 == y % 2 && y >> 1 == y / 2) by (bit_vector);
                self.registers[FLAG] = y & 1;
                self.registers[vx as usize] = y >> 1;
                assert(self@.advanced(1) =~= goal);
            },
            Instruction::SetSubtracted(vx, vy) => {
                let x = self.registers[vx as usize];
                let y = self.registers[vy as usize];
                self.registers[vx as usize] = y.wrapping_sub(x);
                self.registers[FLAG] = if x > y {
                    1
                } else {
                    0
                };
                assert(self@.advanced(1) =~= goal);
            },
            Instruction::ShiftLeft(vx, vy) => {
                let y = self.registers[vy as usize];
                assert(y >> 7 == y / 0x80 && y << 1 == (y * 2) % 0x100) by (bit_vector);
                self.registers[FLAG] = y >> 7;
                self.registers[vx as usize] = y << 1;
                assert(self@.advanced(1) =~= goal);
            },
            Instruction::SetRandom(vx, data) => {
                self.registers[vx as usize] = random & data;
                assert(self@.advanced(1) =~= goal);
            },
            Instruction::LoadDelay(vx) => {
                self.registers[vx as usize] = self.delay_timer;
                assert(self@.advanced(1) =~= goal);
            },
            _ => {},
        }
        self.inc_pc();
    }

    /// Executes `instruction` but for the tick of the timers.
    fn perform(&mut self, instruction: &Instruction, random: u8) -> (r: Result<(), Fault>)
        requires
            old(self).wf(),
            instruction.wf(),
            old(self)@.pc + 4 <= usize::MAX,
        ensures
            final(self).wf(),
            final(self)@ == old(self)@.perform(*instruction, random),
            r == outcome(old(self)@.faults(*instruction)),
    {
        let ghost goal = old(self)@.perform(*instruction, random);
        let mut should_increment_pc = true;
        match *instruction {
            Instruction::Clear => {
                self.bus.display.clear();
                assert(self@.advanced(1) =~= goal);
            },
            Instruction::Return => {
                let ghost stack = self@.call_stack;
                if let Some(ret) = self.call_stack.pop() {
                    assert(ret == stack.last());
                    assert(self@.call_stack =~= stack.drop_last());
                    self.pc = ret;
                }
                assert(self@.advanced(1) =~= goal);
            },
            Instruction::JumpToRoutine(addr) => {
                self.pc = addr as usize;
                should_increment_pc = false;
                assert(self@ =~= goal);
            },
            Instruction::CallRoutine(addr) => {
                let ghost stack = self@.call_stack;
                self.call_stack.push(self.pc);
                assert(self@.call_stack =~= stack.push(self.pc as int));
                self.pc = addr as usize;
                should_increment_pc = false;
                assert(self@ =~= goal);
            },
            Instruction::JumpToAddress(addr) => {
                self.pc = self.registers[0] as usize + addr as usize;
                should_increment_pc = false;
                assert(self@ =~= goal);
            },
            Instruction::SkipIfEqual(_, _)
            | Instruction::SkipIfNotEqual(_, _)
            | Instruction::SkipIfEqualRegister(_, _)
            | Instruction::SkipIfNotEqualRegister(_, _)
            | Instruction::SkipIfKeyPressed(_)
            | Instruction::SkipIfKeyNotPressed(_)
            | Instruction::WaitForKeyPress(_) => {
                self.branch(instruction);
                return Ok(());
            },
            Instruction::SetConst(_, _)
            | Instruction::AddConst(_, _)
            | Instruction::SetRegister(_, _)
            | Instruction::SetOR(_, _)
            | Instruction::SetAND(_, _)
            | Instruction::SetXOR(_, _)
            | Instruction::Add(_, _)
            | Instruction::Subtract(_, _)
            | Instruction::ShiftRight(_, _)
            | Instruction::SetSubtracted(_, _)
            | Instruction::ShiftLeft(_, _)
            | Instruction::SetRandom(_, _)
            | Instruction::LoadDelay(_) => {
                self.compute(instruction, random);
                return Ok(());
            },
            Instruction::SetAddress(addr) => {
                self.address = addr;
                assert(self@.advanced(1) =~= goal);
            },
            Instruction::Display(vx, vy, data) => {
                return self.draw(vx, vy, data);
            },
            Instruction::SetDelayTimer(vx) => {
                self.delay_timer = self.registers[vx as usize];
                assert(self@.advanced(1) =~= goal);
            },
            Instruction::SetSoundTimer(vx) => {
                self.sound_timer = self.registers[vx as usize];
                assert(self@.advanced(1) =~= goal);
            },
            Instruction::AddToMem(vx) => {
                let x = self.registers[vx as usize];
                self.address = self.address.wrapping_add(x as u16);
                assert(self@.advanced(1) =~= goal);
            },
            Instruction::SetSpriteLocation(vx) => {
                let x = self.registers[vx as usize];
                self.address = x as u16 * GLYPH_SIZE as u16;
                assert(self@.advanced(1) =~= goal);
            },
            Instruction::SetBCD(vx) => {
                return self.store_digits(vx);
            },
            Instruction::DumpMem(vx) => {
                return self.dump(vx);
            },
            Instruction::LoadMem(vx) => {
                return self.load(vx);
            },
        }
        if should_increment_pc {
            self.inc_pc();
        }
        Ok(())
    }

    /// Executes `instruction`, with `random` as the byte that the random
    /// source hands out in this cycle.
    pub fn execute(&mut self, instruction: &Instruction, random: u8) -> (r: Result<(), Fault>)
        requires
            old(self).wf(),
            instruction.wf(),
            old(self)@.pc + 4 <= usize::MAX,
        ensures
            final(self).wf(),
            final(self)@ == old(self)@.execute(*instruction, random),
            r == outcome(old(self)@.faults(*instruction)),
    {
        self.timer_tick();
        self.perform(instruction, random)
    }

    /// Executes `instruction`. Where it asks for a random byte, one is drawn
    /// from the thread's random generator.
    pub fn do_instruction(&mut self, instruction: &Instruction) -> (r: Result<(), Fault>)
        requires
            old(self).wf(),
            instruction.wf(),
            old(self)@.pc + 4 <= usize::MAX,
        ensures
            final(self).wf(),
            exists|random: u8| final(self)@ == #[trigger] old(self)@.execute(*instruction, random),
            !(*instruction is SetRandom) ==> final(self)@ == old(self)@.execute(*instruction, 0),
            r == outcome(old(self)@.faults(*instruction)),
    {
        let random = match *instruction {
            Instruction::SetRandom(_, _) => random_byte(),
            _ => 0,
        };
        self.execute(instruction, random)
    }

    /// Fetches the word at the program counter and decodes it.
    fn fetch(&mut self) -> (r: Result<Option<Instruction>, Fault>)
        requires
            old(self).wf(),
        ensures
            final(self).wf(),
            final(self)@ == old(self)@,
            match r {
                Ok(decoded) => old(self)@.fetch() matches Some(word) && decoded == decode(word),
                Err(_) => old(self)@.fetch() is None,
            },
            r matches Ok(Some(instruction)) ==> instruction.wf(),
    {
        let fetched = self.cache.next_opcode(self.pc as u64);
        assert(self@ =~= old(self)@);
        match fetched {
            Ok(raw_opcode) => Ok(Instruction::from_u16(&raw_opcode)),
            Err(fault) => Err(fault),
        }
    }

    /// Runs one cycle: fetches the word at the program counter, decodes it
    /// and executes it, with `random` as the byte that the random source
    /// hands out in this cycle.
    pub fn step(&mut self, random: u8) -> (r: Result<(), Fault>)
        requires
            old(self).wf(),
        ensures
            final(self).wf(),
            final(self)@ == old(self)@.cycle(random),
            r == outcome(old(self)@.cycle_faults()),
    {
        match self.fetch() {
            Ok(Some(instruction)) => {
                self.execute(&instruction, random)
            },
            Ok(None) => {
                self.inc_pc();
                Ok(())
            },
            Err(fault) => Err(fault),
        }
    }

    /// Runs one cycle. Where the instruction asks for a random byte, one is
    /// drawn from the thread's random generator.
    pub fn cycle(&mut self) -> (r: Result<(), Fault>)
        requires
            old(self).wf(),
        ensures
            final(self).wf(),
            exists|random: u8| final(self)@ == #[trigger] old(self)@.cycle(random),
            !(old(self)@.next_instruction() matches Some(Instruction::SetRandom(_, _)))
                ==> final(self)@ == old(self)@.cycle(0),
            r == outcome(old(self)@.cycle_faults()),
    {
        match self.fetch() {
            Ok(Some(instruction)) => {
                let r = self.do_instruction(&instruction);
                proof {
                    let random = choose|random: u8| self@ == old(self)@.execute(instruction, random);
                    assert(self@ == old(self)@.cycle(random));
                }
                r
            },
            Ok(None) => {
                self.inc_pc();
                assert(self@ == old(self)@.cycle(0));
                Ok(())
            },
            Err(fault) => {
                assert(self@ == old(self)@.cycle(0));
                Err(fault)
            },
        }
    }
}

} // verus!
