use chip8::cache::{MEMORY_SIZE, PROGRAM_START, SPRITE_CHARACTERS};
use chip8::{Cache, Fault};

#[test]
fn new_cache_holds_glyphs_then_zeroes_then_program() {
    let program = vec![0x12, 0x34, 0x56];
    let mut cache = Cache::new(&program);
    for i in 0..80 {
        assert_eq!(cache.read_from(i as u64), Ok(SPRITE_CHARACTERS[i]));
    }
    for i in 80..PROGRAM_START {
        assert_eq!(cache.read_from(i as u64), Ok(0));
    }
    assert_eq!(cache.read_from(0x200), Ok(0x12));
    assert_eq!(cache.read_from(0x201), Ok(0x34));
    assert_eq!(cache.read_from(0x202), Ok(0x56));
    for i in 0x203..MEMORY_SIZE {
        assert_eq!(cache.read_from(i as u64), Ok(0));
    }
}

#[test]
fn glyphs_are_five_bytes_apart() {
    let mut cache = Cache::new(&Vec::new());
    // The glyph of 0 and the glyph of F.
    let zero = [0xF0, 0x90, 0x90, 0x90, 0xF0];
    let eff = [0xF0, 0x80, 0xF0, 0x80, 0x80];
    for row in 0..5 {
        assert_eq!(cache.read_from(row as u64), Ok(zero[row]));
        assert_eq!(cache.read_from((15 * 5 + row) as u64), Ok(eff[row]));
    }
}

#[test]
fn a_program_may_fill_the_store_to_its_end() {
    let program = vec![0xAB; MEMORY_SIZE - PROGRAM_START];
    let mut cache = Cache::new(&program);
    assert_eq!(cache.read_from(0xFFF), Ok(0xAB));
    assert_eq!(cache.read_from(0x1000), Err(Fault::Memory));
}

#[test]
fn next_opcode_reads_the_high_byte_first() {
    let mut cache = Cache::new(&vec![0x12, 0x34, 0xAB, 0xCD]);
    assert_eq!(cache.next_opcode(0x200), Ok(0x1234));
    assert_eq!(cache.next_opcode(0x201), Ok(0x34AB));
    assert_eq!(cache.next_opcode(0x202), Ok(0xABCD));
    assert_eq!(cache.next_opcode(0), Ok(0xF090));
}

#[test]
fn next_opcode_faults_at_the_last_byte_and_beyond() {
    let mut cache = Cache::new(&Vec::new());
    assert_eq!(cache.next_opcode(0xFFE), Ok(0));
    assert_eq!(cache.next_opcode(0xFFF), Err(Fault::Memory));
    assert_eq!(cache.next_opcode(0x1000), Err(Fault::Memory));
    assert_eq!(cache.next_opcode(u64::MAX), Err(Fault::Memory));
}

#[test]
fn read_from_faults_beyond_the_end() {
    let mut cache = Cache::new(&Vec::new());
    assert_eq!(cache.read_from(0xFFF), Ok(0));
    assert_eq!(cache.read_from(0x1000), Err(Fault::Memory));
    assert_eq!(cache.read_from(u64::MAX), Err(Fault::Memory));
}

#[test]
fn write_to_writes_at_the_offset() {
    let mut cache = Cache::new(&Vec::new());
    assert_eq!(cache.write_to(0x300, &[1, 2, 3]), Ok(()));
    assert_eq!(cache.read_from(0x2FF), Ok(0));
    assert_eq!(cache.read_from(0x300), Ok(1));
    assert_eq!(cache.read_from(0x301), Ok(2));
    assert_eq!(cache.read_from(0x302), Ok(3));
    assert_eq!(cache.read_from(0x303), Ok(0));
}

#[test]
fn write_to_reaches_the_last_byte() {
    let mut cache = Cache::new(&Vec::new());
    assert_eq!(cache.write_to(0xFFD, &[7, 8, 9]), Ok(()));
    assert_eq!(cache.read_from(0xFFF), Ok(9));
}

#[test]
fn write_to_that_does_not_fit_writes_nothing() {
    let mut cache = Cache::new(&Vec::new());
    assert_eq!(cache.write_to(0xFFE, &[7, 8, 9]), Err(Fault::Memory));
    assert_eq!(cache.read_from(0xFFE), Ok(0));
    assert_eq!(cache.read_from(0xFFF), Ok(0));
    assert_eq!(cache.write_to(0x1001, &[]), Err(Fault::Memory));
    assert_eq!(cache.write_to(u64::MAX, &[1]), Err(Fault::Memory));
}

#[test]
fn write_to_of_nothing_at_the_end_is_fine() {
    let mut cache = Cache::new(&Vec::new());
    assert_eq!(cache.write_to(0x1000, &[]), Ok(()));
}
