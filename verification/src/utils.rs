//! Decoding of 16-bit instruction words into their operand fields, and the
//! source of random bytes for the `Cxkk` instruction.

use rand::Rng;
use vstd::prelude::*;

verus! {

/// The opcode nibble of a word: its highest 4 bits.
pub open spec fn nib0_of(w: int) -> int {
    w / 0x1000
}

/// The `x` register operand: the lower 4 bits of the high byte.
pub open spec fn x_of(w: int) -> int {
    (w / 0x100) % 16
}

/// The `y` register operand: the upper 4 bits of the low byte.
pub open spec fn y_of(w: int) -> int {
    (w / 0x10) % 16
}

/// The `n` operand (sprite height): the lowest 4 bits.
pub open spec fn n_of(w: int) -> int {
    w % 16
}

/// The `kk` operand: the low byte.
pub open spec fn kk_of(w: int) -> int {
    w % 0x100
}

/// The `nnn` operand (an address): the lowest 12 bits.
pub open spec fn nnn_of(w: int) -> int {
    w % 0x1000
}

/// Opcode variable struct
/// - nibbles - All 4-bit values of the 16-bit word
/// - nnn or addr - A 12-bit value, the lowest 12 bits of the instruction
/// - x - A 4-bit value, the lower 4 bits of the high byte of the instruction
/// - y - A 4-bit value, the upper 4 bits of the low byte of the instruction
/// - kk or byte - An 8-bit value, the lowest 8 bits of the instruction
pub struct OpcodeVariables {
    pub nibbles: [usize; 4],
    pub nnn: u16,
    pub x: usize,
    pub y: usize,
    pub kk: u8,
}

impl OpcodeVariables {
    fn new(nibbles: [usize; 4], nnn: u16, x: usize, y: usize, kk: u8) -> (r: Self)
        ensures
            r.nibbles == nibbles,
            r.nnn == nnn,
            r.x == x,
            r.y == y,
            r.kk == kk,
    {
        OpcodeVariables { nibbles, nnn, x, y, kk }
    }
}

/// Helper function that translates opcodes to instruction variables
pub fn opcode_to_variables(word: &u16) -> (r: OpcodeVariables)
    ensures
        r.nibbles@[0] == nib0_of(*word as int),
        r.nibbles@[1] == x_of(*word as int),
        r.nibbles@[2] == y_of(*word as int),
        r.nibbles@[3] == n_of(*word as int),
        r.nnn == nnn_of(*word as int),
        r.x == x_of(*word as int),
        r.y == y_of(*word as int),
        r.kk == kk_of(*word as int),
        r.x < 16,
        r.y < 16,
        r.nibbles@[0] < 16,
        r.nibbles@[3] < 16,
{
    let w = *word;
    let nibbles: [usize; 4] = [
        (w / 0x1000) as usize,
        ((w / 0x100) % 16) as usize,
        ((w / 0x10) % 16) as usize,
        (w % 16) as usize,
    ];

    OpcodeVariables::new(nibbles, w % 0x1000, nibbles[1], nibbles[2], (w % 0x100) as u8)
}

/// Generate a random integer within [0, 256)
///
/// Relies on `rand::thread_rng` and `rand::Rng::gen`: every `u8` is a possible
/// result, so nothing is promised of the value.
#[verifier::external_body]
pub fn gen_rand_u8() -> u8 {
    let result: u8 = rand::thread_rng().gen();
    result
}

} // verus!
