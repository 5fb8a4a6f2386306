//! Instruction words and their decoding.
//!
//! An instruction word is 16 bits wide and is read as four nibbles. The
//! highest nibble selects the operation; where it does not settle the
//! operation alone, the low byte or the lowest nibble does.

use vstd::prelude::*;

verus! {

/// A decoded instruction with its operands.
///
/// Register operands are register indices, byte operands are immediates and
/// `u16` operands are addresses.
#[derive(Debug, Clone, Copy, PartialEq, Eq, Structural)]
pub enum Instruction {
    /// `00E0`: clear the display.
    Clear,
    /// `00EE`: return from a subroutine.
    Return,
    /// `1NNN`: jump to `NNN`.
    JumpToRoutine(u16),
    /// `2NNN`: call the subroutine at `NNN`.
    CallRoutine(u16),
    /// `3XNN`: skip the next instruction if `VX == NN`.
    SkipIfEqual(u8, u8),
    /// `4XNN`: skip the next instruction if `VX != NN`.
    SkipIfNotEqual(u8, u8),
    /// `5XY_`: skip the next instruction if `VX == VY`.
    SkipIfEqualRegister(u8, u8),
    /// `6XNN`: `VX = NN`.
    SetConst(u8, u8),
    /// `7XNN`: `VX += NN`, without touching the flag.
    AddConst(u8, u8),
    /// `8XY0`: `VX = VY`.
    SetRegister(u8, u8),
    /// `8XY1`: `VX |= VY`.
    SetOR(u8, u8),
    /// `8XY2`: `VX &= VY`.
    SetAND(u8, u8),
    /// `8XY3`: `VX ^= VY`.
    SetXOR(u8, u8),
    /// `8XY4`: `VX += VY`, the flag receives the carry.
    Add(u8, u8),
    /// `8XY5`: `VX -= VY`, the flag is set when `VX > VY`.
    Subtract(u8, u8),
    /// `8XY6`: `VX = VY >> 1`, the flag receives the bit shifted out.
    ShiftRight(u8, u8),
    /// `8XY7`: `VX = VY - VX`, the flag is set when `VX > VY`.
    SetSubtracted(u8, u8),
    /// `8XYE`: `VX = VY << 1`, the flag receives the bit shifted out.
    ShiftLeft(u8, u8),
    /// `9XY_`: skip the next instruction if `VX != VY`.
    SkipIfNotEqualRegister(u8, u8),
    /// `ANNN`: `I = NNN`.
    SetAddress(u16),
    /// `BNNN`: jump to `V0 + NNN`.
    JumpToAddress(u16),
    /// `CXNN`: `VX = random byte & NN`.
    SetRandom(u8, u8),
    /// `DXYN`: draw the `N`-row sprite at `I` at position `(VX, VY)`.
    Display(u8, u8, u8),
    /// `EX9E`: skip the next instruction if the key named by `VX` is down.
    SkipIfKeyPressed(u8),
    /// `EXA1`: skip the next instruction if the key named by `VX` is up.
    SkipIfKeyNotPressed(u8),
    /// `FX07`: `VX = delay timer`.
    LoadDelay(u8),
    /// `FX0A`: wait until the key named by `VX` is down.
    WaitForKeyPress(u8),
    /// `FX15`: `delay timer = VX`.
    SetDelayTimer(u8),
    /// `FX18`: `sound timer = VX`.
    SetSoundTimer(u8),
    /// `FX1E`: `I += VX`.
    AddToMem(u8),
    /// `FX29`: `I =` address of the glyph for `VX`.
    SetSpriteLocation(u8),
    /// `FX33`: store the decimal digits of `VX` at `I`, `I + 1`, `I + 2`.
    SetBCD(u8),
    /// `FX55`: store `V0..=VX` in memory from `I` on.
    DumpMem(u8),
    /// `FX65`: load `V0..=VX` from memory from `I` on.
    LoadMem(u8),
}

impl Instruction {
    /// Every register operand names one of the sixteen registers.
    pub open spec fn wf(self) -> bool {
        match self {
            Instruction::Clear | Instruction::Return => true,
            Instruction::JumpToRoutine(_)
            | Instruction::CallRoutine(_)
            | Instruction::SetAddress(_)
            | Instruction::JumpToAddress(_) => true,
            Instruction::SkipIfEqual(x, _)
            | Instruction::SkipIfNotEqual(x, _)
            | Instruction::SetConst(x, _)
            | Instruction::AddConst(x, _)
            | Instruction::SetRandom(x, _) => x < 16,
            Instruction::SkipIfEqualRegister(x, y)
            | Instruction::SetRegister(x, y)
            | Instruction::SetOR(x, y)
            | Instruction::SetAND(x, y)
            | Instruction::SetXOR(x, y)
            | Instruction::Add(x, y)
            | Instruction::Subtract(x, y)
            | Instruction::ShiftRight(x, y)
            | Instruction::SetSubtracted(x, y)
            | Instruction::ShiftLeft(x, y)
            | Instruction::SkipIfNotEqualRegister(x, y)
            | Instruction::Display(x, y, _) => x < 16 && y < 16,
            Instruction::SkipIfKeyPressed(x)
            | Instruction::SkipIfKeyNotPressed(x)
            | Instruction::LoadDelay(x)
            | Instruction::WaitForKeyPress(x)
            | Instruction::SetDelayTimer(x)
            | Instruction::SetSoundTimer(x)
            | Instruction::AddToMem(x)
            | Instruction::SetSpriteLocation(x)
            | Instruction::SetBCD(x)
            | Instruction::DumpMem(x)
            | Instruction::LoadMem(x) => x < 16,
        }
    }

    /// Every operand fits the field that an instruction word has for it:
    /// four bits for a register and for a sprite height, twelve bits for an
    /// address.
    pub open spec fn encodable(self) -> bool {
        &&& self.wf()
        &&& match self {
            Instruction::JumpToRoutine(a)
            | Instruction::CallRoutine(a)
            | Instruction::SetAddress(a)
            | Instruction::JumpToAddress(a) => a < 0x1000,
            Instruction::Display(_, _, n) => n < 16,
            _ => true,
        }
    }

    /// The instruction word of an instruction. Where a word has a nibble
    /// that the decoder ignores, that nibble is 0 here.
    pub open spec fn encode(self) -> u16 {
        match self {
            Instruction::Clear => 0x00E0,
            Instruction::Return => 0x00EE,
            Instruction::JumpToRoutine(a) => (0x1000 + a) as u16,
            Instruction::CallRoutine(a) => (0x2000 + a) as u16,
            Instruction::SkipIfEqual(x, b) => (0x3000 + x * 0x100 + b) as u16,
            Instruction::SkipIfNotEqual(x, b) => (0x4000 + x * 0x100 + b) as u16,
            Instruction::SkipIfEqualRegister(x, y) => (0x5000 + x * 0x100 + y * 0x10) as u16,
            Instruction::SetConst(x, b) => (0x6000 + x * 0x100 + b) as u16,
            Instruction::AddConst(x, b) => (0x7000 + x * 0x100 + b) as u16,
            Instruction::SetRegister(x, y) => (0x8000 + x * 0x100 + y * 0x10) as u16,
            Instruction::SetOR(x, y) => (0x8001 + x * 0x100 + y * 0x10) as u16,
            Instruction::SetAND(x, y) => (0x8002 + x * 0x100 + y * 0x10) as u16,
            Instruction::SetXOR(x, y) => (0x8003 + x * 0x100 + y * 0x10) as u16,
            Instruction::Add(x, y) => (0x8004 + x * 0x100 + y * 0x10) as u16,
            Instruction::Subtract(x, y) => (0x8005 + x * 0x100 + y * 0x10) as u16,
            Instruction::ShiftRight(x, y) => (0x8006 + x * 0x100 + y * 0x10) as u16,
            Instruction::SetSubtracted(x, y) => (0x8007 + x * 0x100 + y * 0x10) as u16,
            Instruction::ShiftLeft(x, y) => (0x800E + x * 0x100 + y * 0x10) as u16,
            Instruction::SkipIfNotEqualRegister(x, y) => (0x9000 + x * 0x100 + y * 0x10) as u16,
            Instruction::SetAddress(a) => (0xA000 + a) as u16,
            Instruction::JumpToAddress(a) => (0xB000 + a) as u16,
            Instruction::SetRandom(x, b) => (0xC000 + x * 0x100 + b) as u16,
            Instruction::Display(x, y, n) => (0xD000 + x * 0x100 + y * 0x10 + n) as u16,
            Instruction::SkipIfKeyPressed(x) => (0xE09E + x * 0x100) as u16,
            Instruction::SkipIfKeyNotPressed(x) => (0xE0A1 + x * 0x100) as u16,
            Instruction::LoadDelay(x) => (0xF007 + x * 0x100) as u16,
            Instruction::WaitForKeyPress(x) => (0xF00A + x * 0x100) as u16,
            Instruction::SetDelayTimer(x) => (0xF015 + x * 0x100) as u16,
            Instruction::SetSoundTimer(x) => (0xF018 + x * 0x100) as u16,
            Instruction::AddToMem(x) => (0xF01E + x * 0x100) as u16,
            Instruction::SetSpriteLocation(x) => (0xF029 + x * 0x100) as u16,
            Instruction::SetBCD(x) => (0xF033 + x * 0x100) as u16,
            Instruction::DumpMem(x) => (0xF055 + x * 0x100) as u16,
            Instruction::LoadMem(x) => (0xF065 + x * 0x100) as u16,
        }
    }

    /// The instruction that `encoded` stands for, or `None` where no
    /// instruction has that word.
    pub fn from_u16(encoded: &u16) -> (r: Option<Instruction>)
        ensures
            r == decode(*encoded),
            r matches Some(instruction) ==> instruction.encodable(),
    {
        proof {
            lemma_decode_encodable(*encoded);
        }
        match first(encoded) {
            0x0 => match last_two(encoded) {
                0xE0 => Some(Instruction::Clear),
                0xEE => Some(Instruction::Return),
                _ => None,
            },
            0x1 => Some(Instruction::JumpToRoutine(last_three(encoded))),
            0x2 => Some(Instruction::CallRoutine(last_three(encoded))),
            0x3 => Some(Instruction::SkipIfEqual(second(encoded), last_two(encoded))),
            0x4 => Some(Instruction::SkipIfNotEqual(second(encoded), last_two(encoded))),
            0x5 => Some(Instruction::SkipIfEqualRegister(second(encoded), third(encoded))),
            0x6 => Some(Instruction::SetConst(second(encoded), last_two(encoded))),
            0x7 => Some(Instruction::AddConst(second(encoded), last_two(encoded))),
            0x8 => match last_one(encoded) {
                0x0 => Some(Instruction::SetRegister(second(encoded), third(encoded))),
                0x1 => Some(Instruction::SetOR(second(encoded), third(encoded))),
                0x2 => Some(Instruction::SetAND(second(encoded), third(encoded))),
                0x3 => Some(Instruction::SetXOR(second(encoded), third(encoded))),
                0x4 => Some(Instruction::Add(second(encoded), third(encoded))),
                0x5 => Some(Instruction::Subtract(second(encoded), third(encoded))),
                0x6 => Some(Instruction::ShiftRight(second(encoded), third(encoded))),
                0x7 => Some(Instruction::SetSubtracted(second(encoded), third(encoded))),
                0xE => Some(Instruction::ShiftLeft(second(encoded), third(encoded))),
                _ => None,
            },
            0x9 => Some(Instruction::SkipIfNotEqualRegister(second(encoded), third(encoded))),
            0xA => Some(Instruction::SetAddress(last_three(encoded))),
            0xB => Some(Instruction::JumpToAddress(last_three(encoded))),
            0xC => Some(Instruction::SetRandom(second(encoded), last_two(encoded))),
            0xD => Some(Instruction::Display(second(encoded), third(encoded), last_one(encoded))),
            0xE => match last_two(encoded) {
                0x9E => Some(Instruction::SkipIfKeyPressed(second(encoded))),
                0xA1 => Some(Instruction::SkipIfKeyNotPressed(second(encoded))),
                _ => None,
            },
            0xF => match last_two(encoded) {
                0x07 => Some(Instruction::LoadDelay(second(encoded))),
                0x0A => Some(Instruction::WaitForKeyPress(second(encoded))),
                0x15 => Some(Instruction::SetDelayTimer(second(encoded))),
                0x18 => Some(Instruction::SetSoundTimer(second(encoded))),
                0x1E => Some(Instruction::AddToMem(second(encoded))),
                0x29 => Some(Instruction::SetSpriteLocation(second(encoded))),
                0x33 => Some(Instruction::SetBCD(second(encoded))),
                0x55 => Some(Instruction::DumpMem(second(encoded))),
                0x65 => Some(Instruction::LoadMem(second(encoded))),
                _ => None,
            },
            _ => None,
        }
    }
}

/// The operation that the highest nibble `op` selects for the word `word`,
/// with its operands taken from the other nibbles.
pub open spec fn decode(word: u16) -> Option<Instruction> {
    let op = nibble(word, 0);
    let x = nibble(word, 1);
    let y = nibble(word, 2);
    let n = nibble(word, 3);
    let byte = low_byte(word);
    let addr = low_twelve(word);
    if op == 0x0 {
        if byte == 0xE0 {
            Some(Instruction::Clear)
        } else if byte == 0xEE {
            Some(Instruction::Return)
        } else {
            None
        }
    } else if op == 0x1 {
        Some(Instruction::JumpToRoutine(addr))
    } else if op == 0x2 {
        Some(Instruction::CallRoutine(addr))
    } else if op == 0x3 {
        Some(Instruction::SkipIfEqual(x, byte))
    } else if op == 0x4 {
        Some(Instruction::SkipIfNotEqual(x, byte))
    } else if op == 0x5 {
        Some(Instruction::SkipIfEqualRegister(x, y))
    } else if op == 0x6 {
        Some(Instruction::SetConst(x, byte))
    } else if op == 0x7 {
        Some(Instruction::AddConst(x, byte))
    } else if op == 0x8 {
        decode_register_pair(x, y, n)
    } else if op == 0x9 {
        Some(Instruction::SkipIfNotEqualRegister(x, y))
    } else if op == 0xA {
        Some(Instruction::SetAddress(addr))
    } else if op == 0xB {
        Some(Instruction::JumpToAddress(addr))
    } else if op == 0xC {
        Some(Instruction::SetRandom(x, byte))
    } else if op == 0xD {
        Some(Instruction::Display(x, y, n))
    } else if op == 0xE {
        if byte == 0x9E {
            Some(Instruction::SkipIfKeyPressed(x))
        } else if byte == 0xA1 {
            Some(Instruction::SkipIfKeyNotPressed(x))
        } else {
            None
        }
    } else {
        decode_single_register(x, byte)
    }
}

/// The register-to-register operation that the lowest nibble `n` selects.
pub open spec fn decode_register_pair(x: u8, y: u8, n: u8) -> Option<Instruction> {
    if n == 0x0 {
        Some(Instruction::SetRegister(x, y))
    } else if n == 0x1 {
        Some(Instruction::SetOR(x, y))
    } else if n == 0x2 {
        Some(Instruction::SetAND(x, y))
    } else if n == 0x3 {
        Some(Instruction::SetXOR(x, y))
    } else if n == 0x4 {
        Some(Instruction::Add(x, y))
    } else if n == 0x5 {
        Some(Instruction::Subtract(x, y))
    } else if n == 0x6 {
        Some(Instruction::ShiftRight(x, y))
    } else if n == 0x7 {
        Some(Instruction::SetSubtracted(x, y))
    } else if n == 0xE {
        Some(Instruction::ShiftLeft(x, y))
    } else {
        None
    }
}

/// The operation on one register that the low byte `byte` selects among
/// the words whose highest nibble is `F`.
pub open spec fn decode_single_register(x: u8, byte: u8) -> Option<Instruction> {
    if byte == 0x07 {
        Some(Instruction::LoadDelay(x))
    } else if byte == 0x0A {
        Some(Instruction::WaitForKeyPress(x))
    } else if byte == 0x15 {
        Some(Instruction::SetDelayTimer(x))
    } else if byte == 0x18 {
        Some(Instruction::SetSoundTimer(x))
    } else if byte == 0x1E {
        Some(Instruction::AddToMem(x))
    } else if byte == 0x29 {
        Some(Instruction::SetSpriteLocation(x))
    } else if byte == 0x33 {
        Some(Instruction::SetBCD(x))
    } else if byte == 0x55 {
        Some(Instruction::DumpMem(x))
    } else if byte == 0x65 {
        Some(Instruction::LoadMem(x))
    } else {
        None
    }
}

/// The `i`-th nibble of `word`, counted from the most significant one.
pub open spec fn nibble(word: u16, i: int) -> u8 {
    if i == 0 {
        (word / 0x1000) as u8
    } else if i == 1 {
        (word / 0x100 % 0x10) as u8
    } else if i == 2 {
        (word / 0x10 % 0x10) as u8
    } else {
        (word % 0x10) as u8
    }
}

/// The low byte of `word`.
pub open spec fn low_byte(word: u16) -> u8 {
    (word % 0x100) as u8
}

/// The low twelve bits of `word`.
pub open spec fn low_twelve(word: u16) -> u16 {
    (word % 0x1000) as u16
}

/// The most significant nibble of an instruction word.
pub fn first(encoded: &u16) -> (r: u8)
    ensures
        r == nibble(*encoded, 0),
        r < 16,
{
    let w: u16 = *encoded;
    assert((w & 0xF000) >> 12 == w / 0x1000) by (bit_vector);
    ((w & 0xF000) >> 12) as u8
}

/// The second nibble of an instruction word.
pub fn second(encoded: &u16) -> (r: u8)
    ensures
        r == nibble(*encoded, 1),
        r < 16,
{
    let w: u16 = *encoded;
    assert((w & 0x0F00) >> 8 == w / 0x100 % 0x10) by (bit_vector);
    ((w & 0x0F00) >> 8) as u8
}

/// The third nibble of an instruction word.
pub fn third(encoded: &u16) -> (r: u8)
    ensures
        r == nibble(*encoded, 2),
        r < 16,
{
    let w: u16 = *encoded;
    assert((w & 0x00F0) >> 4 == w / 0x10 % 0x10) by (bit_vector);
    ((w & 0x00F0) >> 4) as u8
}

/// The least significant nibble of an instruction word.
pub fn last_one(encoded: &u16) -> (r: u8)
    ensures
        r == nibble(*encoded, 3),
        r < 16,
{
    let w: u16 = *encoded;
    assert(w & 0x000F == w % 0x10) by (bit_vector);
    (w & 0x000F) as u8
}

/// The low byte of an instruction word.
pub fn last_two(encoded: &u16) -> (r: u8)
    ensures
        r == low_byte(*encoded),
{
    let w: u16 = *encoded;
    assert(w & 0x00FF == w % 0x100) by (bit_vector);
    (w & 0x00FF) as u8
}

/// The low twelve bits of an instruction word.
pub fn last_three(encoded: &u16) -> (r: u16)
    ensures
        r == low_twelve(*encoded),
        r < 0x1000,
{
    let w: u16 = *encoded;
    assert(w & 0x0FFF == w % 0x1000) by (bit_vector);
    w & 0x0FFF
}

/// The word made of four nibbles has them as its nibbles.
proof fn lemma_nibbles_of(a: int, b: int, c: int, d: int)
    requires
        0 <= a < 16,
        0 <= b < 16,
        0 <= c < 16,
        0 <= d < 16,
    ensures
        ({
            let word = (a * 0x1000 + b * 0x100 + c * 0x10 + d) as u16;
            &&& word == a * 0x1000 + b * 0x100 + c * 0x10 + d
            &&& nibble(word, 0) == a
            &&& nibble(word, 1) == b
            &&& nibble(word, 2) == c
            &&& nibble(word, 3) == d
            &&& low_byte(word) == c * 0x10 + d
            &&& low_twelve(word) == b * 0x100 + c * 0x10 + d
        }),
{
    let (a, b, c, d) = (a as u16, b as u16, c as u16, d as u16);
    assert({
        let word = a * 0x1000 + b * 0x100 + c * 0x10 + d;
        &&& word < 0x10000
        &&& word / 0x1000 == a
        &&& word / 0x100 % 0x10 == b
        &&& word / 0x10 % 0x10 == c
        &&& word % 0x10 == d
        &&& word % 0x100 == c * 0x10 + d
        &&& word % 0x1000 == b * 0x100 + c * 0x10 + d
    }) by (bit_vector)
        requires
            a < 16,
            b < 16,
            c < 16,
            d < 16,
    ;
}

/// A word is made of its four nibbles.
proof fn lemma_word_is_its_nibbles(word: u16)
    ensures
        word == nibble(word, 0) * 0x1000 + nibble(word, 1) * 0x100 + nibble(word, 2) * 0x10
            + nibble(word, 3),
        low_byte(word) == nibble(word, 2) * 0x10 + nibble(word, 3),
        low_twelve(word) == nibble(word, 1) * 0x100 + nibble(word, 2) * 0x10 + nibble(word, 3),
{
    assert({
        &&& word == word / 0x1000 * 0x1000 + word / 0x100 % 0x10 * 0x100 + word / 0x10 % 0x10 * 0x10
            + word % 0x10
        &&& word % 0x100 == word / 0x10 % 0x10 * 0x10 + word % 0x10
        &&& word % 0x1000 == word / 0x100 % 0x10 * 0x100 + word / 0x10 % 0x10 * 0x10 + word % 0x10
    }) by (bit_vector);
}

/// Decoding the word of an instruction gives that instruction back, with
/// every operand as it was.
pub proof fn lemma_decode_encode(instruction: Instruction)
    requires
        instruction.encodable(),
    ensures
        decode(instruction.encode()) == Some(instruction),
{
    match instruction {
        Instruction::Clear => lemma_nibbles_of(0x0, 0x0, 0xE, 0x0),
        Instruction::Return => lemma_nibbles_of(0x0, 0x0, 0xE, 0xE),
        Instruction::JumpToRoutine(a) => lemma_nibbles_of(0x1, a as int / 0x100, a as int / 0x10 % 0x10, a as int % 0x10),
        Instruction::CallRoutine(a) => lemma_nibbles_of(0x2, a as int / 0x100, a as int / 0x10 % 0x10, a as int % 0x10),
        Instruction::SkipIfEqual(x, b) => lemma_nibbles_of(0x3, x as int, b as int / 0x10, b as int % 0x10),
        Instruction::SkipIfNotEqual(x, b) => lemma_nibbles_of(0x4, x as int, b as int / 0x10, b as int % 0x10),
        Instruction::SkipIfEqualRegister(x, y) => lemma_nibbles_of(0x5, x as int, y as int, 0x0),
        Instruction::SetConst(x, b) => lemma_nibbles_of(0x6, x as int, b as int / 0x10, b as int % 0x10),
        Instruction::AddConst(x, b) => lemma_nibbles_of(0x7, x as int, b as int / 0x10, b as int % 0x10),
        Instruction::SetRegister(x, y) => lemma_nibbles_of(0x8, x as int, y as int, 0x0),
        Instruction::SetOR(x, y) => lemma_nibbles_of(0x8, x as int, y as int, 0x1),
        Instruction::SetAND(x, y) => lemma_nibbles_of(0x8, x as int, y as int, 0x2),
        Instruction::SetXOR(x, y) => lemma_nibbles_of(0x8, x as int, y as int, 0x3),
        Instruction::Add(x, y) => lemma_nibbles_of(0x8, x as int, y as int, 0x4),
        Instruction::Subtract(x, y) => lemma_nibbles_of(0x8, x as int, y as int, 0x5),
        Instruction::ShiftRight(x, y) => lemma_nibbles_of(0x8, x as int, y as int, 0x6),
        Instruction::SetSubtracted(x, y) => lemma_nibbles_of(0x8, x as int, y as int, 0x7),
        Instruction::ShiftLeft(x, y) => lemma_nibbles_of(0x8, x as int, y as int, 0xE),
        Instruction::SkipIfNotEqualRegister(x, y) => lemma_nibbles_of(0x9, x as int, y as int, 0x0),
        Instruction::SetAddress(a) => lemma_nibbles_of(0xA, a as int / 0x100, a as int / 0x10 % 0x10, a as int % 0x10),
        Instruction::JumpToAddress(a) => lemma_nibbles_of(0xB, a as int / 0x100, a as int / 0x10 % 0x10, a as int % 0x10),
        Instruction::SetRandom(x, b) => lemma_nibbles_of(0xC, x as int, b as int / 0x10, b as int % 0x10),
        Instruction::Display(x, y, n) => lemma_nibbles_of(0xD, x as int, y as int, n as int),
        Instruction::SkipIfKeyPressed(x) => lemma_nibbles_of(0xE, x as int, 0x9, 0xE),
        Instruction::SkipIfKeyNotPressed(x) => lemma_nibbles_of(0xE, x as int, 0xA, 0x1),
        Instruction::LoadDelay(x) => lemma_nibbles_of(0xF, x as int, 0x0, 0x7),
        Instruction::WaitForKeyPress(x) => lemma_nibbles_of(0xF, x as int, 0x0, 0xA),
        Instruction::SetDelayTimer(x) => lemma_nibbles_of(0xF, x as int, 0x1, 0x5),
        Instruction::SetSoundTimer(x) => lemma_nibbles_of(0xF, x as int, 0x1, 0x8),
        Instruction::AddToMem(x) => lemma_nibbles_of(0xF, x as int, 0x1, 0xE),
        Instruction::SetSpriteLocation(x) => lemma_nibbles_of(0xF, x as int, 0x2, 0x9),
        Instruction::SetBCD(x) => lemma_nibbles_of(0xF, x as int, 0x3, 0x3),
        Instruction::DumpMem(x) => lemma_nibbles_of(0xF, x as int, 0x5, 0x5),
        Instruction::LoadMem(x) => lemma_nibbles_of(0xF, x as int, 0x6, 0x5),
    }
}

/// What the decoder yields has operands that fit their fields, so it can be
/// executed and encoded again.
pub proof fn lemma_decode_encodable(word: u16)
    ensures
        decode(word) matches Some(instruction) ==> instruction.encodable(),
{
}

/// Encoding what the decoder yields gives the word back, but for the nibble
/// that the decoder ignores: the second one of `0_E0` and `0_EE`, the last
/// one of `5XY_` and `9XY_`.
pub proof fn lemma_encode_decode(word: u16)
    ensures
        decode(word) matches Some(instruction) ==> {
            let op = nibble(word, 0);
            if op == 0x0 {
                instruction.encode() == word - nibble(word, 1) * 0x100
            } else if op == 0x5 || op == 0x9 {
                instruction.encode() == word - nibble(word, 3)
            } else {
                instruction.encode() == word
            }
        },
{
    lemma_word_is_its_nibbles(word);
}

/// A word stands for no instruction exactly when its highest nibble leaves
/// the operation open and the low byte, or the lowest nibble, is none of
/// the listed ones.
pub proof fn lemma_decode_none(word: u16)
    ensures
        decode(word) is None <==> {
            let op = nibble(word, 0);
            let n = nibble(word, 3);
            let byte = low_byte(word);
            ||| op == 0x0 && byte != 0xE0 && byte != 0xEE
            ||| op == 0x8 && n > 0x7 && n != 0xE
            ||| op == 0xE && byte != 0x9E && byte != 0xA1
            ||| op == 0xF && byte != 0x07 && byte != 0x0A && byte != 0x15 && byte != 0x18 && byte
                != 0x1E && byte != 0x29 && byte != 0x33 && byte != 0x55 && byte != 0x65
        },
{
}

} // verus!
