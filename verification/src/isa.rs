//! The instruction set as a mathematical transition function.
//!
//! [`spec_tick`] maps a machine state (and the byte a random source would
//! hand the one random instruction) to the state after one fetch-decode-
//! execute step, or to the distinguished error that step reports.

use vstd::prelude::*;

use crate::state::MachineError;
use crate::state::MachineState;
use crate::state::NUM_KEYS;
use crate::state::RAM_SIZE;
use crate::state::SCREEN_HEIGHT;
use crate::state::SCREEN_WIDTH;

verus! {

/// Most significant nibble of an opcode.
pub open spec fn sp_n1(op: u16) -> u16 {
    (op & 0xF000) >> 12u16
}

/// Second nibble of an opcode; commonly a register number X.
pub open spec fn sp_n2(op: u16) -> u16 {
    (op & 0x0F00) >> 8u16
}

/// Third nibble of an opcode; commonly a register number Y.
pub open spec fn sp_n3(op: u16) -> u16 {
    (op & 0x00F0) >> 4u16
}

/// Least significant nibble of an opcode.
pub open spec fn sp_n4(op: u16) -> u16 {
    op & 0x000F
}

/// Low byte of an opcode: an immediate operand KK.
pub open spec fn sp_kk(op: u16) -> u8 {
    (op & 0x00FF) as u8
}

/// Low 12 bits of an opcode: an immediate address NNN.
pub open spec fn sp_nnn(op: u16) -> u16 {
    op & 0x0FFF
}

/// The opcode at the program counter: two consecutive bytes combined
/// big-endian.
pub open spec fn spec_opcode(s: MachineState) -> u16 {
    ((s.ram[s.pc as int] as u16) << 8u16) | (s.ram[s.pc as int + 1] as u16)
}

/// The state after a conditional skip: the program counter moves past one
/// further instruction exactly when `cond` holds.
pub open spec fn sp_skip(s: MachineState, cond: bool) -> MachineState {
    if cond {
        MachineState { pc: (s.pc + 2) as u16, ..s }
    } else {
        s
    }
}

/// Whether bit `i` of a sprite row byte is set, counting the most
/// significant bit as bit 0 (the leftmost drawn pixel).
pub open spec fn sprite_bit(b: u8, i: int) -> bool {
    b & (0x80u8 >> (i as u8)) != 0
}

/// Whether the sprite of `n` rows starting at memory address `index`,
/// drawn with its top-left corner at column `xs` and row `ys`, has a set
/// bit landing on the pixel at column `px`, row `py`. Coordinates wrap at
/// the screen edges.
pub open spec fn sprite_covers(
    ram: Seq<u8>,
    index: u16,
    xs: u8,
    ys: u8,
    n: u16,
    px: int,
    py: int,
) -> bool {
    exists|j: int, i: int|
        0 <= j < n && 0 <= i < 8 && #[trigger] sprite_bit(ram[index + j], i) && px == (xs + i)
            % (SCREEN_WIDTH as int) && py == (ys + j) % (SCREEN_HEIGHT as int)
}

/// The display after drawing the sprite: every covered pixel is toggled,
/// every other pixel keeps its value.
pub open spec fn draw_screen(
    screen: Seq<bool>,
    ram: Seq<u8>,
    index: u16,
    xs: u8,
    ys: u8,
    n: u16,
) -> Seq<bool> {
    Seq::new(
        screen.len(),
        |p: int|
            screen[p] != sprite_covers(
                ram,
                index,
                xs,
                ys,
                n,
                p % (SCREEN_WIDTH as int),
                p / (SCREEN_WIDTH as int),
            ),
    )
}

/// Whether drawing the sprite toggles some pixel that was already lit:
/// the collision condition reported in register VF.
pub open spec fn draw_collides(
    screen: Seq<bool>,
    ram: Seq<u8>,
    index: u16,
    xs: u8,
    ys: u8,
    n: u16,
) -> bool {
    exists|p: int|
        0 <= p < screen.len() && #[trigger] screen[p] && sprite_covers(
            ram,
            index,
            xs,
            ys,
            n,
            p % (SCREEN_WIDTH as int),
            p / (SCREEN_WIDTH as int),
        )
}

/// The lowest-indexed pressed key at or above index `k`, if any.
pub open spec fn first_key(keys: Seq<bool>, k: int) -> Option<u8>
    decreases NUM_KEYS - k,
{
    if k < 0 || k >= NUM_KEYS {
        None
    } else if keys[k] {
        Some(k as u8)
    } else {
        first_key(keys, k + 1)
    }
}

/// Memory after a program image `data` is copied in at the start address:
/// exactly `data.len()` bytes change.
pub open spec fn load_ram(ram: Seq<u8>, data: Seq<u8>, start: int) -> Seq<u8> {
    Seq::new(
        ram.len(),
        |a: int|
            if start <= a < start + data.len() {
                data[a - start]
            } else {
                ram[a]
            },
    )
}

/// The effect of executing the already-fetched opcode `op` on state `s`,
/// whose program counter has already been advanced past the opcode.
///
/// `r` is the byte the random source hands the one random instruction
/// (CXKK); no other instruction reads it. Unrecognized opcodes leave the
/// state unchanged, by design.
pub open spec fn spec_execute(s: MachineState, op: u16, r: u8) -> Result<
    MachineState,
    MachineError,
> {
    let n1 = sp_n1(op);
    let n2 = sp_n2(op);
    let n3 = sp_n3(op);
    let n4 = sp_n4(op);
    let x = sp_n2(op) as int;
    let y = sp_n3(op) as int;
    let kk = sp_kk(op);
    let nnn = sp_nnn(op);
    if n1 == 0 && n2 == 0 && n3 == 0xE && n4 == 0 {
        // 00E0: clear the display
        Ok(
            MachineState {
                screen: Seq::new((SCREEN_WIDTH * SCREEN_HEIGHT) as nat, |i: int| false),
                ..s
            },
        )
    } else if n1 == 0 && n2 == 0 && n3 == 0xE && n4 == 0xE {
        // 00EE: return from subroutine
        if s.stack.len() == 0 {
            Err(MachineError::StackUnderflow)
        } else {
            Ok(MachineState { pc: s.stack.last(), stack: s.stack.drop_last(), ..s })
        }
    } else if n1 == 1 {
        // 1NNN: absolute jump
        Ok(MachineState { pc: nnn, ..s })
    } else if n1 == 2 {
        // 2NNN: call subroutine
        Ok(MachineState { stack: s.stack.push(s.pc), pc: nnn, ..s })
    } else if n1 == 3 {
        // 3XKK: skip if Vx == KK
        Ok(sp_skip(s, s.regs[x] == kk))
    } else if n1 == 4 {
        // 4XKK: skip if Vx != KK
        Ok(sp_skip(s, s.regs[x] != kk))
    } else if n1 == 5 && n4 == 0 {
        // 5XY0: skip if Vx == Vy
        Ok(sp_skip(s, s.regs[x] == s.regs[y]))
    } else if n1 == 6 {
        // 6XKK: Vx <- KK
        Ok(MachineState { regs: s.regs.update(x, kk), ..s })
    } else if n1 == 7 {
        // 7XKK: Vx <- Vx + KK, wrapping
        Ok(MachineState { regs: s.regs.update(x, ((s.regs[x] + kk) % 256) as u8), ..s })
    } else if n1 == 8 && n4 == 0 {
        // 8XY0: Vx <- Vy
        Ok(MachineState { regs: s.regs.update(x, s.regs[y]), ..s })
    } else if n1 == 8 && n4 == 1 {
        // 8XY1: Vx <- Vx | Vy
        Ok(MachineState { regs: s.regs.update(x, s.regs[x] | s.regs[y]), ..s })
    } else if n1 == 8 && n4 == 2 {
        // 8XY2: Vx <- Vx & Vy
        Ok(MachineState { regs: s.regs.update(x, s.regs[x] & s.regs[y]), ..s })
    } else if n1 == 8 && n4 == 3 {
        // 8XY3: Vx <- Vx ^ Vy
        Ok(MachineState { regs: s.regs.update(x, s.regs[x] ^ s.regs[y]), ..s })
    } else if n1 == 8 && n4 == 4 {
        // 8XY4: Vx <- Vx + Vy wrapping; then VF <- carry
        let a = s.regs[x];
        let b = s.regs[y];
        let r1 = s.regs.update(x, ((a + b) % 256) as u8);
        Ok(
            MachineState {
                regs: r1.update(
                    0xF,
                    if a + b > 255 {
                        1u8
                    } else {
                        0u8
                    },
                ),
                ..s
            },
        )
    } else if n1 == 8 && n4 == 5 {
        // 8XY5: Vx <- Vx - Vy wrapping; then VF <- 0 on borrow, else 1
        let a = s.regs[x];
        let b = s.regs[y];
        let r1 = s.regs.update(
            x,
            if a >= b {
                (a - b) as u8
            } else {
                (a - b + 256) as u8
            },
        );
        Ok(
            MachineState {
                regs: r1.update(
                    0xF,
                    if a < b {
                        0u8
                    } else {
                        1u8
                    },
                ),
                ..s
            },
        )
    } else if n1 == 8 && n4 == 6 {
        // 8XY6: VF <- low bit of Vx; then Vx <- Vx >> 1
        let r1 = s.regs.update(0xF, s.regs[x] & 1);
        Ok(MachineState { regs: r1.update(x, r1[x] >> 1u8), ..s })
    } else if n1 == 8 && n4 == 7 {
        // 8XY7: Vx <- Vy - Vx wrapping; then VF <- 1 on borrow, else 0
        let a = s.regs[x];
        let b = s.regs[y];
        let r1 = s.regs.update(
            x,
            if b >= a {
                (b - a) as u8
            } else {
                (b - a + 256) as u8
            },
        );
        Ok(
            MachineState {
                regs: r1.update(
                    0xF,
                    if b < a {
                        1u8
                    } else {
                        0u8
                    },
                ),
                ..s
            },
        )
    } else if n1 == 8 && n4 == 0xE {
        // 8XYE: VF <- high bit of Vx; then Vx <- Vx << 1, wrapping
        let r1 = s.regs.update(0xF, (s.regs[x] >> 7u8) & 1);
        Ok(MachineState { regs: r1.update(x, r1[x] << 1u8), ..s })
    } else if n1 == 9 && n4 == 0 {
        // 9XY0: skip if Vx != Vy
        Ok(sp_skip(s, s.regs[x] != s.regs[y]))
    } else if n1 == 0xA {
        // ANNN: index <- NNN
        Ok(MachineState { index: nnn, ..s })
    } else if n1 == 0xB {
        // BNNN: pc <- V0 + NNN
        Ok(MachineState { pc: (s.regs[0] + nnn) as u16, ..s })
    } else if n1 == 0xC {
        // CXKK: Vx <- random byte AND KK
        Ok(MachineState { regs: s.regs.update(x, r & kk), ..s })
    } else if n1 == 0xD {
        // DXYN: draw an N-row sprite at (Vx, Vy); VF <- collision
        if s.index + n4 > RAM_SIZE {
            Err(MachineError::AddressOutOfRange)
        } else {
            let xs = s.regs[x];
            let ys = s.regs[y];
            Ok(
                MachineState {
                    screen: draw_screen(s.screen, s.ram, s.index, xs, ys, n4),
                    regs: s.regs.update(
                        0xF,
                        if draw_collides(s.screen, s.ram, s.index, xs, ys, n4) {
                            1u8
                        } else {
                            0u8
                        },
                    ),
                    ..s
                },
            )
        }
    } else if n1 == 0xE && n3 == 9 && n4 == 0xE {
        // EX9E: skip if key Vx is pressed
        if s.regs[x] >= NUM_KEYS {
            Err(MachineError::AddressOutOfRange)
        } else {
            Ok(sp_skip(s, s.keys[s.regs[x] as int]))
        }
    } else if n1 == 0xE && n3 == 0xA && n4 == 1 {
        // EXA1: skip if key Vx is not pressed
        if s.regs[x] >= NUM_KEYS {
            Err(MachineError::AddressOutOfRange)
        } else {
            Ok(sp_skip(s, !s.keys[s.regs[x] as int]))
        }
    } else if n1 == 0xF && n3 == 0 && n4 == 7 {
        // FX07: Vx <- delay timer
        Ok(MachineState { regs: s.regs.update(x, s.delay), ..s })
    } else if n1 == 0xF && n3 == 0 && n4 == 0xA {
        // FX0A: wait for a key: rewind and re-execute until one is pressed,
        // then Vx <- the lowest-indexed pressed key
        match first_key(s.keys, 0) {
            Some(k) => Ok(MachineState { regs: s.regs.update(x, k), ..s }),
            None => Ok(
                MachineState {
                    pc: if s.pc >= 2 {
                        (s.pc - 2) as u16
                    } else {
                        0u16
                    },
                    ..s
                },
            ),
        }
    } else if n1 == 0xF && n3 == 1 && n4 == 5 {
        // FX15: delay timer <- Vx
        Ok(MachineState { delay: s.regs[x], ..s })
    } else if n1 == 0xF && n3 == 1 && n4 == 8 {
        // FX18: sound timer <- Vx
        Ok(MachineState { sound: s.regs[x], ..s })
    } else if n1 == 0xF && n3 == 1 && n4 == 0xE {
        // FX1E: index <- index + Vx, wrapping
        Ok(MachineState { index: ((s.index + s.regs[x]) % 0x10000) as u16, ..s })
    } else if n1 == 0xF && n3 == 2 && n4 == 9 {
        // FX29: index <- address of the built-in glyph for digit Vx
        Ok(MachineState { index: (s.regs[x] * 5) as u16, ..s })
    } else if n1 == 0xF && n3 == 3 && n4 == 3 {
        // FX33: the three decimal digits of Vx into memory at index
        if s.index + 3 > RAM_SIZE {
            Err(MachineError::AddressOutOfRange)
        } else {
            let vx = s.regs[x];
            Ok(
                MachineState {
                    ram: s.ram.update(s.index as int, (vx / 100) as u8).update(
                        s.index as int + 1,
                        ((vx / 10) % 10) as u8,
                    ).update(s.index as int + 2, (vx % 10) as u8),
                    ..s
                },
            )
        }
    } else if n1 == 0xF && n3 == 5 && n4 == 5 {
        // FX55: store V0..Vx into memory at index
        if s.index + n2 + 1 > RAM_SIZE {
            Err(MachineError::AddressOutOfRange)
        } else {
            Ok(
                MachineState {
                    ram: Seq::new(
                        s.ram.len(),
                        |a: int|
                            if s.index <= a <= s.index + x {
                                s.regs[a - s.index]
                            } else {
                                s.ram[a]
                            },
                    ),
                    ..s
                },
            )
        }
    } else if n1 == 0xF && n3 == 6 && n4 == 5 {
        // FX65: load V0..Vx from memory at index
        if s.index + n2 + 1 > RAM_SIZE {
            Err(MachineError::AddressOutOfRange)
        } else {
            Ok(
                MachineState {
                    regs: Seq::new(
                        s.regs.len(),
                        |v: int|
                            if 0 <= v <= x {
                                s.ram[s.index + v]
                            } else {
                                s.regs[v]
                            },
                    ),
                    ..s
                },
            )
        }
    } else {
        // every other opcode is a silent no-op, by design
        Ok(s)
    }
}

/// One full fetch-decode-execute step: fetch the opcode at the program
/// counter (failing if it does not lie in memory), advance the program
/// counter past it, and execute.
///
/// `r` is the byte the random source would hand the one random
/// instruction; every other outcome is independent of it.
pub open spec fn spec_tick(s: MachineState, r: u8) -> Result<MachineState, MachineError> {
    if s.pc as int + 1 >= RAM_SIZE {
        Err(MachineError::AddressOutOfRange)
    } else {
        spec_execute(MachineState { pc: (s.pc + 2) as u16, ..s }, spec_opcode(s), r)
    }
}

} // verus!
