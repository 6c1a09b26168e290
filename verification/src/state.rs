//! The mathematical model of the machine: every piece of mutable state as a
//! ghost value, the initial state, and the distinguished error conditions.

use vstd::prelude::*;

verus! {

/// Number of bytes of machine memory.
pub const RAM_SIZE: usize = 4096;
/// Width of the display in pixels.
pub const SCREEN_WIDTH: usize = 64;
/// Height of the display in pixels.
pub const SCREEN_HEIGHT: usize = 32;
/// Number of general-purpose 8-bit registers.
pub const NUM_REGS: usize = 16;
/// Number of input keys.
pub const NUM_KEYS: usize = 16;
/// Capacity of the call stack, in return addresses.
pub const STACK_SIZE: usize = 16;
/// Address at which a loaded program image begins.
pub const START_ADDR: u16 = 0x200;
/// Number of bytes of the built-in glyph table (16 glyphs of 5 bytes).
pub const GLYPHS_SIZE: usize = 80;

/// The two fatal conditions a machine step or a load can report.
///
/// All other outcomes, including wholly unrecognized opcodes, are silent
/// no-ops by design.
#[derive(Clone, Copy, Debug, PartialEq, Eq, Structural)]
pub enum MachineError {
    /// A return was executed with an empty call stack.
    StackUnderflow,
    /// A memory, register or key access fell outside its range.
    AddressOutOfRange,
}

/// The complete state of the machine, as a mathematical value.
///
/// `ram` always has length 4096, `screen` 2048 (row-major, 64 columns by
/// 32 rows), `regs` 16 and `keys` 16; see [`MachineState::wf`].
#[verifier::ext_equal]
pub ghost struct MachineState {
    /// Program counter: address of the next instruction to fetch.
    pub pc: u16,
    /// Machine memory.
    pub ram: Seq<u8>,
    /// Display buffer, row-major: pixel (x, y) is at index `y * 64 + x`.
    pub screen: Seq<bool>,
    /// General-purpose registers V0 to VF.
    pub regs: Seq<u8>,
    /// Index register, used as a memory pointer.
    pub index: u16,
    /// Call stack of return addresses; the top is the last element.
    pub stack: Seq<u16>,
    /// Key pad state: `keys[k]` is true while key `k` is held.
    pub keys: Seq<bool>,
    /// Delay timer.
    pub delay: u8,
    /// Sound timer.
    pub sound: u8,
}

impl MachineState {
    /// Well-formedness: every fixed-size component has its fixed size.
    pub open spec fn wf(self) -> bool {
        &&& self.ram.len() == RAM_SIZE
        &&& self.screen.len() == SCREEN_WIDTH * SCREEN_HEIGHT
        &&& self.regs.len() == NUM_REGS
        &&& self.keys.len() == NUM_KEYS
    }
}

/// The built-in glyph table: 16 sprites of 5 bytes each, the hexadecimal
/// digits 0 through F.
pub open spec fn glyphs() -> Seq<u8> {
    seq![
        0xF0u8, 0x90, 0x90, 0x90, 0xF0, // 0
        0x20, 0x60, 0x20, 0x20, 0x70, // 1
        0xF0, 0x10, 0xF0, 0x80, 0xF0, // 2
        0xF0, 0x10, 0xF0, 0x10, 0xF0, // 3
        0x90, 0x90, 0xF0, 0x10, 0x10, // 4
        0xF0, 0x80, 0xF0, 0x10, 0xF0, // 5
        0xF0, 0x80, 0xF0, 0x90, 0xF0, // 6
        0xF0, 0x10, 0x20, 0x40, 0x40, // 7
        0xF0, 0x90, 0xF0, 0x90, 0xF0, // 8
        0xF0, 0x90, 0xF0, 0x10, 0xF0, // 9
        0xF0, 0x90, 0xF0, 0x90, 0x90, // A
        0xE0, 0x90, 0xE0, 0x90, 0xE0, // B
        0xF0, 0x80, 0x80, 0x80, 0xF0, // C
        0xE0, 0x90, 0x90, 0x90, 0xE0, // D
        0xF0, 0x80, 0xF0, 0x80, 0xF0, // E
        0xF0, 0x80, 0xF0, 0x80, 0x80, // F
    ]
}

/// The state of a freshly constructed (or reset) machine: everything zeroed,
/// the program counter at the program start address, and the glyph table
/// installed at the bottom of memory.
pub open spec fn init_state() -> MachineState {
    MachineState {
        pc: START_ADDR,
        ram: glyphs() + Seq::new((RAM_SIZE - GLYPHS_SIZE) as nat, |i: int| 0u8),
        screen: Seq::new((SCREEN_WIDTH * SCREEN_HEIGHT) as nat, |i: int| false),
        regs: Seq::new(NUM_REGS as nat, |i: int| 0u8),
        index: 0,
        stack: Seq::empty(),
        keys: Seq::new(NUM_KEYS as nat, |i: int| false),
        delay: 0,
        sound: 0,
    }
}

} // verus!
