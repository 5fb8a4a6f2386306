//! What holds of every machine state: the arithmetic instructions and
//! their flag, the blocking wait for a key, the transfers between registers
//! and memory, and what a cycle leaves alone.

use crate::cache::MEMORY_SIZE;
use crate::display::{HEIGHT, WIDTH};
use crate::instruction::Instruction;
use crate::keypad::KEY_COUNT;
use crate::machine::{flag_of, Machine, COUNTER_START, FLAG, REGISTER_COUNT};
use vstd::prelude::*;

verus! {

/// A machine that has just been booted is well formed, whatever the
/// program, as long as the display and the keypad have their sizes.
pub proof fn lemma_boot_is_wf(program: Seq<u8>, pixels: Seq<bool>, keys: Seq<u8>)
    requires
        pixels.len() == WIDTH * HEIGHT,
        keys.len() == KEY_COUNT,
    ensures
        Machine::boot(program, pixels, keys).wf(),
        Machine::boot(program, pixels, keys).pc == COUNTER_START,
        forall|i: int|
            0 <= i < program.len() && COUNTER_START + i < MEMORY_SIZE ==> Machine::boot(
                program,
                pixels,
                keys,
            ).memory[COUNTER_START + i] == program[i],
{
}

/// An instruction with valid register operands leads from a well-formed
/// machine to a well-formed machine.
pub proof fn lemma_execute_keeps_wf(m: Machine, instruction: Instruction, random: u8)
    requires
        m.wf(),
        instruction.wf(),
    ensures
        m.execute(instruction, random).wf(),
{
}

/// The random byte matters to one instruction only.
pub proof fn lemma_random_matters_to_set_random_only(
    m: Machine,
    instruction: Instruction,
    a: u8,
    b: u8,
)
    requires
        !(instruction is SetRandom),
    ensures
        m.execute(instruction, a) == m.execute(instruction, b),
{
}

/// The random instruction keeps no bit of the random byte that its mask
/// does not have.
pub proof fn lemma_set_random_is_masked(m: Machine, x: u8, mask: u8, random: u8)
    requires
        m.wf(),
        x < REGISTER_COUNT,
    ensures
        m.execute(Instruction::SetRandom(x, mask), random).reg(x) == random & mask,
        m.execute(Instruction::SetRandom(x, mask), random).reg(x) & !mask == 0,
        m.execute(Instruction::SetRandom(x, mask), random).reg(x) <= mask,
{
    assert((random & mask) & !mask == 0 && random & mask <= mask) by (bit_vector);
}

/// Every instruction ticks both timers once, down to 0 and no further,
/// unless it sets the timer.
pub proof fn lemma_timers_count_down(m: Machine, instruction: Instruction, random: u8)
    ensures
        !(instruction is SetDelayTimer) ==> m.execute(instruction, random).delay_timer == if m.delay_timer
            > 0 {
            m.delay_timer - 1
        } else {
            0
        },
        !(instruction is SetSoundTimer) ==> m.execute(instruction, random).sound_timer == if m.sound_timer
            > 0 {
            m.sound_timer - 1
        } else {
            0
        },
{
}

/// What an instruction leaves alone: no instruction touches the keypad;
/// only a clear and a draw change the display; only the decimal store and
/// the register dump change memory, and never its size; only a call and a
/// return change the call stack; only three instructions change the index
/// register besides the two transfers, which move it.
pub proof fn lemma_what_stays(m: Machine, instruction: Instruction, random: u8)
    requires
        m.wf(),
    ensures
        ({
            let after = m.execute(instruction, random);
            &&& after.keys == m.keys
            &&& !(instruction is Clear || instruction is Display) ==> after.pixels == m.pixels
            &&& !(instruction is SetBCD || instruction is DumpMem) ==> after.memory == m.memory
            &&& after.memory.len() == m.memory.len()
            &&& !(instruction is CallRoutine || instruction is Return) ==> after.call_stack
                == m.call_stack
            &&& !(instruction is SetAddress || instruction is AddToMem || instruction
                is SetSpriteLocation || instruction is DumpMem || instruction is LoadMem)
                ==> after.address == m.address
        }),
{
}

/// An instruction that faults leaves the program counter where it was, so
/// that the host sees which instruction it was.
pub proof fn lemma_fault_keeps_counter(m: Machine, instruction: Instruction, random: u8)
    requires
        m.faults(instruction),
    ensures
        m.execute(instruction, random).pc == m.pc,
{
}

/// Only an instruction that reads or writes at the index register can
/// fault, and it does so exactly when the last byte that it asks for lies
/// beyond the address space.
pub proof fn lemma_when_it_faults(m: Machine, instruction: Instruction)
    requires
        instruction.wf(),
    ensures
        m.faults(instruction) <==> Machine::span(instruction) > 0 && m.address + Machine::span(
            instruction,
        ) > MEMORY_SIZE,
        m.faults(instruction) ==> instruction is Display || instruction is SetBCD || instruction
            is DumpMem || instruction is LoadMem,
{
}

/// A cycle on a word that stands for no instruction moves the program
/// counter on by one word and changes nothing else, the timers included.
pub proof fn lemma_unknown_word_is_stepped_over(m: Machine, random: u8)
    requires
        m.fetch() is Some,
        m.next_instruction() is None,
    ensures
        m.cycle(random) == m.advanced(1),
        !m.cycle_faults(),
{
}

/// A cycle whose fetch reaches beyond the address space faults and changes
/// nothing.
pub proof fn lemma_fetch_fault(m: Machine, random: u8)
    requires
        m.wf(),
        m.pc + 2 > MEMORY_SIZE,
    ensures
        m.cycle(random) == m,
        m.cycle_faults(),
{
}

/// Whether `instruction` sets the program counter itself, so that the
/// step to the next word does not take place.
pub open spec fn redirects(m: Machine, instruction: Instruction) -> bool {
    match instruction {
        Instruction::Return => m.call_stack.len() > 0,
        Instruction::JumpToRoutine(_) | Instruction::CallRoutine(_) | Instruction::JumpToAddress(_) => true,
        Instruction::SkipIfEqual(x, byte) => m.reg(x) == byte,
        Instruction::SkipIfNotEqual(x, byte) => m.reg(x) != byte,
        Instruction::SkipIfEqualRegister(x, y) => m.reg(x) == m.reg(y),
        Instruction::SkipIfNotEqualRegister(x, y) => m.reg(x) != m.reg(y),
        Instruction::SkipIfKeyPressed(x) => m.key_down(x),
        Instruction::SkipIfKeyNotPressed(x) => !m.key_down(x),
        Instruction::WaitForKeyPress(x) => !m.key_down(x),
        _ => false,
    }
}

/// The program counter moves on by exactly one word, unless the instruction
/// sets it or faults.
pub proof fn lemma_counter_moves_one_word(m: Machine, instruction: Instruction, random: u8)
    requires
        !redirects(m, instruction),
        !m.faults(instruction),
    ensures
        m.execute(instruction, random).pc == m.pc + 2,
{
}

/// A skip that is taken moves the program counter on by two words.
pub proof fn lemma_skip_moves_two_words(m: Machine, instruction: Instruction, random: u8)
    requires
        redirects(m, instruction),
        instruction is SkipIfEqual || instruction is SkipIfNotEqual || instruction
            is SkipIfEqualRegister || instruction is SkipIfNotEqualRegister || instruction
            is SkipIfKeyPressed || instruction is SkipIfKeyNotPressed,
    ensures
        m.execute(instruction, random).pc == m.pc + 4,
{
}

/// A return leads to the word after the call that it returns from.
pub proof fn lemma_return_follows_call(m: Machine, addr: u16, random: u8)
    requires
        m.wf(),
    ensures
        ({
            let called = m.execute(Instruction::CallRoutine(addr), random);
            let returned = called.execute(Instruction::Return, random);
            &&& called.pc == addr
            &&& returned.pc == m.pc + 2
            &&& returned.call_stack == m.call_stack
        }),
{
    let called = m.execute(Instruction::CallRoutine(addr), random);
    let returned = called.execute(Instruction::Return, random);
    assert(returned.call_stack =~= m.call_stack);
}

/// Addition: the flag is 1 exactly when the sum of the two registers is
/// above 255, and the first register receives the sum modulo 256. Where the
/// first register is the flag itself, it keeps the flag.
pub proof fn lemma_add_with_carry(m: Machine, x: u8, y: u8, random: u8)
    requires
        m.wf(),
        x < REGISTER_COUNT,
        y < REGISTER_COUNT,
    ensures
        ({
            let after = m.execute(Instruction::Add(x, y), random);
            &&& after.registers[FLAG as int] == flag_of(m.reg(x) + m.reg(y) > 255)
            &&& x != FLAG ==> after.reg(x) == (m.reg(x) + m.reg(y)) % 256
            &&& forall|i: int|
                0 <= i < REGISTER_COUNT && i != x && i != FLAG ==> after.registers[i] == m.registers[i]
        }),
{
}

/// Subtraction: the first register receives the difference modulo 256, and
/// the flag is 1 exactly when the first register was above the second.
/// Where the first register is the flag itself, it keeps the difference.
pub proof fn lemma_subtract_with_borrow(m: Machine, x: u8, y: u8, random: u8)
    requires
        m.wf(),
        x < REGISTER_COUNT,
        y < REGISTER_COUNT,
    ensures
        ({
            let after = m.execute(Instruction::Subtract(x, y), random);
            &&& after.reg(x) == (m.reg(x) - m.reg(y)) % 256
            &&& x != FLAG ==> after.registers[FLAG as int] == flag_of(m.reg(x) > m.reg(y))
            &&& forall|i: int|
                0 <= i < REGISTER_COUNT && i != x && i != FLAG ==> after.registers[i] == m.registers[i]
        }),
{
}

/// Reverse subtraction: the flag is 1 exactly when the first register was
/// above the second, as in subtraction, and the first register receives
/// second minus first modulo 256. Where the first register is the flag
/// itself, it keeps the flag.
pub proof fn lemma_reverse_subtract(m: Machine, x: u8, y: u8, random: u8)
    requires
        m.wf(),
        x < REGISTER_COUNT,
        y < REGISTER_COUNT,
    ensures
        ({
            let after = m.execute(Instruction::SetSubtracted(x, y), random);
            &&& after.registers[FLAG as int] == flag_of(m.reg(x) > m.reg(y))
            &&& x != FLAG ==> after.reg(x) == (m.reg(y) - m.reg(x)) % 256
            &&& forall|i: int|
                0 <= i < REGISTER_COUNT && i != x && i != FLAG ==> after.registers[i] == m.registers[i]
        }),
{
}

/// Shift right: the source is the second register. The first register
/// receives the source without its lowest bit, and the flag receives that
/// bit. Where the first register is the flag itself, it keeps the shifted
/// value.
pub proof fn lemma_shift_right(m: Machine, x: u8, y: u8, random: u8)
    requires
        m.wf(),
        x < REGISTER_COUNT,
        y < REGISTER_COUNT,
    ensures
        ({
            let after = m.execute(Instruction::ShiftRight(x, y), random);
            &&& after.reg(x) == m.reg(y) >> 1
            &&& after.reg(x) == m.reg(y) / 2
            &&& x != FLAG ==> after.registers[FLAG as int] == m.reg(y) & 1
            &&& x != FLAG ==> after.registers[FLAG as int] == m.reg(y) % 2
            &&& forall|i: int|
                0 <= i < REGISTER_COUNT && i != x && i != FLAG ==> after.registers[i] == m.registers[i]
        }),
{
    let source = m.reg(y);
    assert(source >> 1 == source / 2 && source & 1 == source % 2) by (bit_vector);
}

/// Shift left: the source is the second register. The first register
/// receives the source without its highest bit, moved up by one, and the
/// flag receives that bit. Where the first register is the flag itself, it
/// keeps the shifted value.
pub proof fn lemma_shift_left(m: Machine, x: u8, y: u8, random: u8)
    requires
        m.wf(),
        x < REGISTER_COUNT,
        y < REGISTER_COUNT,
    ensures
        ({
            let after = m.execute(Instruction::ShiftLeft(x, y), random);
            &&& after.reg(x) == m.reg(y) << 1
            &&& after.reg(x) == (m.reg(y) * 2) % 256
            &&& x != FLAG ==> after.registers[FLAG as int] == m.reg(y) >> 7
            &&& x != FLAG ==> after.registers[FLAG as int] == m.reg(y) / 128
            &&& forall|i: int|
                0 <= i < REGISTER_COUNT && i != x && i != FLAG ==> after.registers[i] == m.registers[i]
        }),
{
    let source = m.reg(y);
    assert(source << 1 == (source * 2) % 256 && source >> 7 == source / 128) by (bit_vector);
}

/// The three bytes that the decimal store writes are the decimal digits of
/// the register, highest first, and nothing else in memory changes.
pub proof fn lemma_decimal_store(m: Machine, x: u8, random: u8)
    requires
        m.wf(),
        x < REGISTER_COUNT,
        m.address + 3 <= MEMORY_SIZE,
    ensures
        ({
            let after = m.execute(Instruction::SetBCD(x), random);
            let at = m.address as int;
            &&& !m.faults(Instruction::SetBCD(x))
            &&& after.memory[at] <= 9 && after.memory[at + 1] <= 9 && after.memory[at + 2] <= 9
            &&& after.memory[at] * 100 + after.memory[at + 1] * 10 + after.memory[at + 2] == m.reg(x)
            &&& forall|i: int|
                0 <= i < MEMORY_SIZE && !(at <= i < at + 3) ==> after.memory[i] == m.memory[i]
            &&& after.address == m.address
            &&& after.registers == m.registers
        }),
{
}

/// The register dump writes the registers `0..=x` to the bytes from the
/// index register on, leaves the rest of memory alone, and leaves the index
/// register behind the last byte written.
pub proof fn lemma_dump_registers(m: Machine, x: u8, random: u8)
    requires
        m.wf(),
        x < REGISTER_COUNT,
        m.address + x + 1 <= MEMORY_SIZE,
    ensures
        ({
            let after = m.execute(Instruction::DumpMem(x), random);
            let at = m.address as int;
            &&& !m.faults(Instruction::DumpMem(x))
            &&& forall|i: int| 0 <= i <= x ==> after.memory[at + i] == m.registers[i]
            &&& forall|i: int|
                0 <= i < MEMORY_SIZE && !(at <= i <= at + x) ==> after.memory[i] == m.memory[i]
            &&& after.address == m.address + x + 1
            &&& after.registers == m.registers
            &&& after.pc == m.pc + 2
        }),
{
}

/// The register load reads the registers `0..=x` from the bytes from the
/// index register on, leaves the other registers and memory alone, and
/// leaves the index register behind the last byte read.
pub proof fn lemma_load_registers(m: Machine, x: u8, random: u8)
    requires
        m.wf(),
        x < REGISTER_COUNT,
        m.address + x + 1 <= MEMORY_SIZE,
    ensures
        ({
            let after = m.execute(Instruction::LoadMem(x), random);
            let at = m.address as int;
            &&& !m.faults(Instruction::LoadMem(x))
            &&& forall|i: int| 0 <= i <= x ==> after.registers[i] == m.memory[at + i]
            &&& forall|i: int| x < i < REGISTER_COUNT ==> after.registers[i] == m.registers[i]
            &&& after.address == m.address + x + 1
            &&& after.memory == m.memory
            &&& after.pc == m.pc + 2
        }),
{
}

/// A load after a dump of the same registers gives back what was dumped.
pub proof fn lemma_load_after_dump(m: Machine, x: u8, random: u8)
    requires
        m.wf(),
        x < REGISTER_COUNT,
        m.address + x + 1 <= MEMORY_SIZE,
    ensures
        ({
            let dumped = m.execute(Instruction::DumpMem(x), random);
            let rewound = Machine { address: m.address, ..dumped };
            rewound.execute(Instruction::LoadMem(x), random).registers == m.registers
        }),
{
    let dumped = m.execute(Instruction::DumpMem(x), random);
    let rewound = Machine { address: m.address, ..dumped };
    assert(rewound.execute(Instruction::LoadMem(x), random).registers =~= m.registers);
}

/// While the key that it waits for is up, the wait changes nothing but the
/// timers: the program counter stays. Once the key is down, the program
/// counter moves on by exactly one word.
pub proof fn lemma_wait_for_key(m: Machine, x: u8, random: u8)
    requires
        m.wf(),
        x < REGISTER_COUNT,
    ensures
        !m.key_down(x) ==> m.execute(Instruction::WaitForKeyPress(x), random) == m.tick(),
        m.key_down(x) ==> m.execute(Instruction::WaitForKeyPress(x), random) == m.tick().advanced(1),
{
}

/// The machine after `n` cycles during which the keypad does not change.
pub open spec fn after_cycles(m: Machine, n: nat, random: u8) -> Machine
    decreases n,
{
    if n == 0 {
        m
    } else {
        after_cycles(m, (n - 1) as nat, random).cycle(random)
    }
}

/// A machine that waits for a key that is up fetches the same wait again
/// in every cycle, for as many cycles as the key stays up, and its program
/// counter does not move.
pub proof fn lemma_wait_spins(m: Machine, x: u8, n: nat, random: u8)
    requires
        m.wf(),
        m.next_instruction() == Some(Instruction::WaitForKeyPress(x)),
        !m.key_down(x),
    ensures
        ({
            let after = after_cycles(m, n, random);
            &&& after.pc == m.pc
            &&& after.next_instruction() == Some(Instruction::WaitForKeyPress(x))
            &&& !after.key_down(x)
            &&& after.registers == m.registers
            &&& after.memory == m.memory
            &&& after.pixels == m.pixels
            &&& after.keys == m.keys
            &&& after.wf()
        }),
    decreases n,
{
    if n > 0 {
        lemma_wait_spins(m, x, (n - 1) as nat, random);
    }
}

/// The first cycle in which the key is down ends the wait: the program
/// counter moves on by exactly one word.
pub proof fn lemma_wait_ends(m: Machine, x: u8, random: u8)
    requires
        m.wf(),
        m.next_instruction() == Some(Instruction::WaitForKeyPress(x)),
        m.key_down(x),
    ensures
        m.cycle(random).pc == m.pc + 2,
        !m.cycle_faults(),
{
}

} // verus!
