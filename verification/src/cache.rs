//! The address space: a fixed store of bytes with the glyph sprites at its
//! base and the program behind them.
//!
//! Every access names its own absolute offset. An access that reaches
//! beyond the end of the store is a [`Fault::Memory`] and changes nothing.

use crate::fault::Fault;
use byteorder::{BigEndian, ReadBytesExt};
use vstd::prelude::*;
use vstd::slice::slice_subrange;

verus! {

/// Number of bytes in the address space.
pub const MEMORY_SIZE: usize = 0x1000;

/// Offset of the first glyph sprite.
pub const FONT_START: usize = 0x000;

/// Offset at which the program is loaded.
pub const PROGRAM_START: usize = 0x200;

/// Number of bytes in one glyph sprite.
pub const GLYPH_SIZE: usize = 5;

/// The sprites of the sixteen hexadecimal digits, five rows each.
pub const SPRITE_CHARACTERS: [u8; 80] = [
    0xf0, 0x90, 0x90, 0x90, 0xf0,  // 0
    0x20, 0x60, 0x20, 0x20, 0x70,  // 1
    0xf0, 0x10, 0xf0, 0x80, 0xf0,  // 2
    0xf0, 0x10, 0xf0, 0x10, 0xf0,  // 3
    0x90, 0x90, 0xf0, 0x10, 0x10,  // 4
    0xf0, 0x80, 0xf0, 0x10, 0xf0,  // 5
    0xf0, 0x80, 0xf0, 0x90, 0xf0,  // 6
    0xf0, 0x10, 0x20, 0x40, 0x40,  // 7
    0xf0, 0x90, 0xf0, 0x90, 0xf0,  // 8
    0xf0, 0x90, 0xf0, 0x10, 0xf0,  // 9
    0xf0, 0x90, 0xf0, 0x90, 0x90,  // A
    0xe0, 0x90, 0xe0, 0x90, 0xe0,  // B
    0xf0, 0x80, 0x80, 0x80, 0x80,  // C
    0xe0, 0x90, 0x90, 0x90, 0xe0,  // D
    0xf0, 0x80, 0xf0, 0x80, 0xf0,  // E
    0xf0, 0x80, 0xf0, 0x80, 0x80,  // F
];

/// The 16-bit value whose high byte is `hi` and whose low byte is `lo`.
pub open spec fn be_u16(hi: u8, lo: u8) -> u16 {
    (hi * 0x100 + lo) as u16
}

/// The address space as it stands before the first cycle of `program`: the
/// glyphs from offset 0, the program from [`PROGRAM_START`], zero elsewhere.
pub open spec fn initial_memory(program: Seq<u8>) -> Seq<u8> {
    Seq::new(
        MEMORY_SIZE as nat,
        |i: int|
            if i < SPRITE_CHARACTERS@.len() {
                SPRITE_CHARACTERS@[i]
            } else if PROGRAM_START <= i < PROGRAM_START + program.len() {
                program[i - PROGRAM_START]
            } else {
                0u8
            },
    )
}

/// Whether `count` bytes from offset `pos` on lie inside a store of `len`
/// bytes.
pub open spec fn in_bounds(len: nat, pos: int, count: int) -> bool {
    0 <= pos && pos + count <= len
}

/// `memory` with `bytes` written over it from offset `pos` on.
pub open spec fn store(memory: Seq<u8>, pos: int, bytes: Seq<u8>) -> Seq<u8> {
    Seq::new(
        memory.len(),
        |i: int|
            if pos <= i < pos + bytes.len() {
                bytes[i - pos]
            } else {
                memory[i]
            },
    )
}

/// `std::io::Error`, the error of the two readers below. It is handed
/// through and never looked into.
#[verifier::external_type_specification]
#[verifier::external_body]
pub struct ExIoError(std::io::Error);

/// `byteorder::ReadBytesExt::read_u8` with a byte slice as the reader.
///
/// Trusted: the call yields the first byte of the slice, and fails exactly
/// when the slice is empty.
#[verifier::external_body]
fn read_u8_at_start(bytes: &[u8]) -> (r: Result<u8, std::io::Error>)
    ensures
        r is Ok <==> bytes@.len() >= 1,
        r is Ok ==> r->Ok_0 == bytes@[0],
{
    let mut reader = bytes;
    reader.read_u8()
}

/// `byteorder::ReadBytesExt::read_u16::<BigEndian>` with a byte slice as
/// the reader.
///
/// Trusted: the call yields the first two bytes of the slice as one value,
/// the first byte being the high one, and fails exactly when the slice
/// holds fewer than two bytes.
#[verifier::external_body]
fn read_u16_be_at_start(bytes: &[u8]) -> (r: Result<u16, std::io::Error>)
    ensures
        r is Ok <==> bytes@.len() >= 2,
        r is Ok ==> r->Ok_0 == be_u16(bytes@[0], bytes@[1]),
{
    let mut reader = bytes;
    reader.read_u16::<BigEndian>()
}

/// The address space of the machine.
pub struct Cache {
    memory: Vec<u8>,
}

impl Cache {
    /// The bytes of the address space, by offset.
    pub closed spec fn view(&self) -> Seq<u8> {
        self.memory@
    }

    /// The address space has its declared size.
    pub open spec fn wf(&self) -> bool {
        self@.len() == MEMORY_SIZE
    }

    /// An address space with the glyphs and `data` loaded.
    pub fn new(data: &Vec<u8>) -> (cache: Cache)
        requires
            data@.len() <= MEMORY_SIZE - PROGRAM_START,
        ensures
            cache.wf(),
            cache@ == initial_memory(data@),
    {
        let mut memory: Vec<u8> = vec![0u8; MEMORY_SIZE];
        let mut i: usize = 0;
        while i < SPRITE_CHARACTERS.len()
            invariant
                i <= SPRITE_CHARACTERS@.len(),
                memory@.len() == MEMORY_SIZE,
                forall|j: int| 0 <= j < i ==> memory@[j] == SPRITE_CHARACTERS@[j],
                forall|j: int| i <= j < MEMORY_SIZE ==> memory@[j] == 0,
            decreases SPRITE_CHARACTERS@.len() - i,
        {
            memory[FONT_START + i] = SPRITE_CHARACTERS[i];
            i += 1;
        }
        let mut k: usize = 0;
        while k < data.len()
            invariant
                k <= data@.len() <= MEMORY_SIZE - PROGRAM_START,
                memory@.len() == MEMORY_SIZE,
                forall|j: int| 0 <= j < SPRITE_CHARACTERS@.len() ==> memory@[j] == SPRITE_CHARACTERS@[j],
                forall|j: int| SPRITE_CHARACTERS@.len() <= j < PROGRAM_START ==> memory@[j] == 0,
                forall|j: int| PROGRAM_START <= j < PROGRAM_START + k ==> memory@[j] == data@[j - PROGRAM_START],
                forall|j: int| PROGRAM_START + k <= j < MEMORY_SIZE ==> memory@[j] == 0,
            decreases data@.len() - k,
        {
            memory[PROGRAM_START + k] = data[k];
            k += 1;
        }
        assert(memory@ =~= initial_memory(data@));
        Cache { memory }
    }

    /// The instruction word at offset `pos`, high byte first.
    pub fn next_opcode(&mut self, pos: u64) -> (r: Result<u16, Fault>)
        ensures
            final(self)@ == old(self)@,
            in_bounds(old(self)@.len(), pos as int, 2) ==> r == Ok::<u16, Fault>(
                be_u16(old(self)@[pos as int], old(self)@[pos + 1]),
            ),
            !in_bounds(old(self)@.len(), pos as int, 2) ==> r == Err::<u16, Fault>(Fault::Memory),
    {
        let len = self.memory.len();
        let start: usize = if pos >= len as u64 {
            len
        } else {
            pos as usize
        };
        let rest = slice_subrange(self.memory.as_slice(), start, len);
        match read_u16_be_at_start(rest) {
            Ok(word) => Ok(word),
            Err(_) => Err(Fault::Memory),
        }
    }

    /// The byte at offset `pos`.
    pub fn read_from(&mut self, pos: u64) -> (r: Result<u8, Fault>)
        ensures
            final(self)@ == old(self)@,
            in_bounds(old(self)@.len(), pos as int, 1) ==> r == Ok::<u8, Fault>(
                old(self)@[pos as int],
            ),
            !in_bounds(old(self)@.len(), pos as int, 1) ==> r == Err::<u8, Fault>(Fault::Memory),
    {
        let len = self.memory.len();
        let start: usize = if pos >= len as u64 {
            len
        } else {
            pos as usize
        };
        let rest = slice_subrange(self.memory.as_slice(), start, len);
        match read_u8_at_start(rest) {
            Ok(byte) => Ok(byte),
            Err(_) => Err(Fault::Memory),
        }
    }

    /// Writes `data` from offset `pos` on, or nothing at all where it would
    /// not fit.
    pub fn write_to(&mut self, pos: u64, data: &[u8]) -> (r: Result<(), Fault>)
        ensures
            final(self)@.len() == old(self)@.len(),
            in_bounds(old(self)@.len(), pos as int, data@.len() as int) ==> r == Ok::<(), Fault>(())
                && final(self)@ == store(old(self)@, pos as int, data@),
            !in_bounds(old(self)@.len(), pos as int, data@.len() as int) ==> r == Err::<(), Fault>(
                Fault::Memory,
            ) && final(self)@ == old(self)@,
    {
        let len = self.memory.len();
        if pos > len as u64 || data.len() > len - pos as usize {
            return Err(Fault::Memory);
        }
        let base: usize = pos as usize;
        let mut i: usize = 0;
        while i < data.len()
            invariant
                i <= data@.len(),
                base + data@.len() <= len,
                self.memory@.len() == len,
                forall|j: int| 0 <= j < len ==> self.memory@[j] == if base <= j < base + i {
                    data@[j - base]
                } else {
                    old(self).memory@[j]
                },
            decreases data@.len() - i,
        {
            self.memory[base + i] = data[i];
            i += 1;
        }
        assert(self.memory@ =~= store(old(self)@, pos as int, data@));
        Ok(())
    }
}

} // verus!
