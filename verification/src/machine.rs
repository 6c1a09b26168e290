//! The executable machine, proved to follow the model in [`crate::isa`].

use vstd::prelude::*;

use crate::draw::lemma_partial_full;
use crate::draw::lemma_partial_none;
use crate::draw::lemma_partial_row_done;
use crate::draw::lemma_partial_step_clear;
use crate::draw::lemma_partial_step_set;
use crate::draw::partial_flip;
use crate::draw::partial_screen;
use crate::isa::draw_collides;
use crate::isa::draw_screen;
use crate::isa::first_key;
use crate::isa::load_ram;
use crate::isa::sp_n1;
use crate::isa::sp_n2;
use crate::isa::sp_n3;
use crate::isa::sp_n4;
use crate::isa::sp_nnn;
use crate::isa::spec_execute;
use crate::isa::spec_opcode;
use crate::isa::spec_tick;
use crate::isa::sprite_bit;
use crate::state::glyphs;
use crate::state::init_state;
use crate::state::MachineError;
use crate::state::MachineState;
use crate::state::GLYPHS_SIZE;
use crate::state::NUM_KEYS;
use crate::state::NUM_REGS;
use crate::state::RAM_SIZE;
use crate::state::SCREEN_HEIGHT;
use crate::state::SCREEN_WIDTH;
use crate::state::STACK_SIZE;
use crate::state::START_ADDR;

verus! {

/// The virtual machine: all mutable state of the emulated platform.
///
/// Its mathematical value is a [`MachineState`]; every method's contract
/// is stated over that view.
pub struct Machine {
    pc: u16,
    ram: Vec<u8>,
    screen: Vec<bool>,
    v_reg: Vec<u8>,
    i_reg: u16,
    stack: Vec<u16>,
    keys: Vec<bool>,
    dt: u8,
    st: u8,
}

impl View for Machine {
    type V = MachineState;

    closed spec fn view(&self) -> MachineState {
        MachineState {
            pc: self.pc,
            ram: self.ram@,
            screen: self.screen@,
            regs: self.v_reg@,
            index: self.i_reg,
            stack: self.stack@,
            keys: self.keys@,
            delay: self.dt,
            sound: self.st,
        }
    }
}

/// Relies on rand::random: draws an 8-bit value from the thread-local
/// generator. Nothing is assumed about which value comes back; every
/// contract downstream holds for all of them.
#[verifier::external_body]
fn random_byte() -> u8 {
    rand::random::<u8>()
}

impl Default for Machine {
    /// Same as [`Machine::new`].
    fn default() -> (m: Self)
        ensures
            m.wf(),
            m@ == init_state(),
    {
        Machine::new()
    }
}

/// A vector holding `n` copies of `val`.
fn filled_bytes(n: usize, val: u8) -> (v: Vec<u8>)
    ensures
        v@ =~= Seq::new(n as nat, |i: int| val),
{
    let mut v: Vec<u8> = Vec::new();
    while v.len() < n
        invariant
            v@.len() <= n,
            forall|i: int| 0 <= i < v@.len() ==> v@[i] == val,
        decreases n - v@.len(),
    {
        v.push(val);
    }
    v
}

/// A vector holding `n` copies of `val`.
fn filled_bools(n: usize, val: bool) -> (v: Vec<bool>)
    ensures
        v@ =~= Seq::new(n as nat, |i: int| val),
{
    let mut v: Vec<bool> = Vec::new();
    while v.len() < n
        invariant
            v@.len() <= n,
            forall|i: int| 0 <= i < v@.len() ==> v@[i] == val,
        decreases n - v@.len(),
    {
        v.push(val);
    }
    v
}

/// The built-in glyph table as a vector.
fn glyph_table() -> (v: Vec<u8>)
    ensures
        v@ =~= glyphs(),
{
    let mut v: Vec<u8> = Vec::new();
    v.push(0xF0);
    v.push(0x90);
    v.push(0x90);
    v.push(0x90);
    v.push(0xF0);
    v.push(0x20);
    v.push(0x60);
    v.push(0x20);
    v.push(0x20);
    v.push(0x70);
    v.push(0xF0);
    v.push(0x10);
    v.push(0xF0);
    v.push(0x80);
    v.push(0xF0);
    v.push(0xF0);
    v.push(0x10);
    v.push(0xF0);
    v.push(0x10);
    v.push(0xF0);
    v.push(0x90);
    v.push(0x90);
    v.push(0xF0);
    v.push(0x10);
    v.push(0x10);
    v.push(0xF0);
    v.push(0x80);
    v.push(0xF0);
    v.push(0x10);
    v.push(0xF0);
    v.push(0xF0);
    v.push(0x80);
    v.push(0xF0);
    v.push(0x90);
    v.push(0xF0);
    v.push(0xF0);
    v.push(0x10);
    v.push(0x20);
    v.push(0x40);
    v.push(0x40);
    v.push(0xF0);
    v.push(0x90);
    v.push(0xF0);
    v.push(0x90);
    v.push(0xF0);
    v.push(0xF0);
    v.push(0x90);
    v.push(0xF0);
    v.push(0x10);
    v.push(0xF0);
    v.push(0xF0);
    v.push(0x90);
    v.push(0xF0);
    v.push(0x90);
    v.push(0x90);
    v.push(0xE0);
    v.push(0x90);
    v.push(0xE0);
    v.push(0x90);
    v.push(0xE0);
    v.push(0xF0);
    v.push(0x80);
    v.push(0x80);
    v.push(0x80);
    v.push(0xF0);
    v.push(0xE0);
    v.push(0x90);
    v.push(0x90);
    v.push(0x90);
    v.push(0xE0);
    v.push(0xF0);
    v.push(0x80);
    v.push(0xF0);
    v.push(0x80);
    v.push(0xF0);
    v.push(0xF0);
    v.push(0x80);
    v.push(0xF0);
    v.push(0x80);
    v.push(0x80);
    v
}

impl Machine {
    /// Well-formedness: every fixed-size component has its fixed size.
    pub open spec fn wf(&self) -> bool {
        self@.wf()
    }

    /// A freshly constructed machine: all state zeroed, the program
    /// counter at the program start address, and the glyph table
    /// installed at the bottom of memory.
    pub fn new() -> (m: Machine)
        ensures
            m.wf(),
            m@ == init_state(),
    {
        let mut ram = glyph_table();
        while ram.len() < RAM_SIZE
            invariant
                GLYPHS_SIZE <= ram@.len() <= RAM_SIZE,
                forall|i: int| 0 <= i < GLYPHS_SIZE ==> ram@[i] == glyphs()[i],
                forall|i: int| GLYPHS_SIZE <= i < ram@.len() ==> ram@[i] == 0u8,
            decreases RAM_SIZE - ram@.len(),
        {
            ram.push(0);
        }
        let m = Machine {
            pc: START_ADDR,
            ram,
            screen: filled_bools(SCREEN_WIDTH * SCREEN_HEIGHT, false),
            v_reg: filled_bytes(NUM_REGS, 0),
            i_reg: 0,
            stack: Vec::with_capacity(STACK_SIZE),
            keys: filled_bools(NUM_KEYS, false),
            dt: 0,
            st: 0,
        };
        proof {
            assert(m@.ram =~= init_state().ram);
            assert(m@.stack =~= init_state().stack);
            assert(m@ =~= init_state());
        }
        m
    }

    /// Re-initializes the machine in place, exactly as a fresh
    /// construction would; a loaded program is lost.
    pub fn reset(&mut self)
        ensures
            final (self).wf(),
            final (self)@ == init_state(),
    {
        *self = Machine::new();
    }

    /// Copies a program image into memory at the program start address.
    ///
    /// Returns `Ok` and overwrites exactly `data.len()` bytes there when
    /// the image fits in memory, and reports `AddressOutOfRange` leaving
    /// the machine unchanged exactly when it does not.
    pub fn load(&mut self, data: &[u8]) -> (result: Result<(), MachineError>)
        requires
            old(self).wf(),
        ensures
            final (self).wf(),
            match result {
                Ok(()) => data@.len() <= RAM_SIZE - START_ADDR && final (self)@ == (MachineState {
                    ram: load_ram(old(self)@.ram, data@, START_ADDR as int),
                    ..old(self)@
                }),
                Err(e) => e == MachineError::AddressOutOfRange && data@.len() > RAM_SIZE
                    - START_ADDR && final (self)@ == old(self)@,
            },
    {
        if data.len() > RAM_SIZE - START_ADDR as usize {
            return Err(MachineError::AddressOutOfRange);
        }
        let mut k: usize = 0;
        while k < data.len()
            invariant
                old(self).wf(),
                self.wf(),
                k <= data@.len(),
                data@.len() <= RAM_SIZE - START_ADDR,
                self.pc == old(self).pc,
                self.screen@ == old(self).screen@,
                self.v_reg@ == old(self).v_reg@,
                self.i_reg == old(self).i_reg,
                self.stack@ == old(self).stack@,
                self.keys@ == old(self).keys@,
                self.dt == old(self).dt,
                self.st == old(self).st,
                self.ram@.len() == RAM_SIZE,
                forall|a: int|
                    0 <= a < RAM_SIZE ==> self.ram@[a] == if START_ADDR <= a < START_ADDR + k {
                        data@[a - START_ADDR]
                    } else {
                        old(self).ram@[a]
                    },
            decreases data@.len() - k,
        {
            self.ram[START_ADDR as usize + k] = data[k];
            k = k + 1;
        }
        proof {
            assert(self@.ram =~= load_ram(old(self)@.ram, data@, START_ADDR as int));
        }
        Ok(())
    }

    /// Read-only view of the display buffer: 2048 cells, row-major, with
    /// pixel (x, y) at index `y * 64 + x`.
    pub fn get_display(&self) -> (r: &[bool])
        ensures
            r@ == self@.screen,
    {
        self.screen.as_slice()
    }

    /// Pushes a return address onto the call stack.
    pub fn push(&mut self, val: u16)
        ensures
            final (self)@ == (MachineState { stack: old(self)@.stack.push(val), ..old(self)@ }),
    {
        self.stack.push(val);
    }

    /// Pops the most recently pushed return address.
    ///
    /// Reports `StackUnderflow` and leaves the machine unchanged exactly
    /// when the stack is empty.
    pub fn pop(&mut self) -> (result: Result<u16, MachineError>)
        ensures
            match result {
                Ok(val) => old(self)@.stack.len() > 0 && val == old(self)@.stack.last()
                    && final (self)@ == (MachineState {
                    stack: old(self)@.stack.drop_last(),
                    ..old(self)@
                }),
                Err(e) => e == MachineError::StackUnderflow && old(self)@.stack.len() == 0
                    && final (self)@ == old(self)@,
            },
    {
        match self.stack.pop() {
            Some(val) => Ok(val),
            None => Err(MachineError::StackUnderflow),
        }
    }

    /// Records that key `index` is now pressed or released.
    pub fn keypress(&mut self, index: usize, pressed: bool)
        requires
            old(self).wf(),
            index < NUM_KEYS,
        ensures
            final (self).wf(),
            final (self)@ == (MachineState {
                keys: old(self)@.keys.update(index as int, pressed),
                ..old(self)@
            }),
    {
        self.keys[index] = pressed;
    }

    /// Advances both timers by one unit: each decrements by one when
    /// nonzero and stays at zero when already zero; nothing ever wraps
    /// below zero.
    pub fn tick_timers(&mut self)
        ensures
            final (self)@ == (MachineState {
                delay: if old(self)@.delay > 0 {
                    (old(self)@.delay - 1) as u8
                } else {
                    0u8
                },
                sound: if old(self)@.sound > 0 {
                    (old(self)@.sound - 1) as u8
                } else {
                    0u8
                },
                ..old(self)@
            }),
            old(self)@.delay == 0 ==> final (self)@.delay == 0,
            old(self)@.sound == 0 ==> final (self)@.sound == 0,
    {
        if self.dt > 0 {
            self.dt = self.dt - 1;
        }
        if self.st > 0 {
            self.st = self.st - 1;
        }
    }

    /// The program counter.
    pub fn get_pc(&self) -> (r: u16)
        ensures
            r == self@.pc,
    {
        self.pc
    }

    /// General register `i`.
    pub fn get_reg(&self, i: usize) -> (r: u8)
        requires
            self.wf(),
            i < NUM_REGS,
        ensures
            r == self@.regs[i as int],
    {
        self.v_reg[i]
    }

    /// The index register.
    pub fn get_index_reg(&self) -> (r: u16)
        ensures
            r == self@.index,
    {
        self.i_reg
    }

    /// The delay timer.
    pub fn get_delay(&self) -> (r: u8)
        ensures
            r == self@.delay,
    {
        self.dt
    }

    /// The sound timer.
    pub fn get_sound(&self) -> (r: u8)
        ensures
            r == self@.sound,
    {
        self.st
    }

    /// The byte of memory at `addr`.
    pub fn read_ram(&self, addr: usize) -> (r: u8)
        requires
            self.wf(),
            addr < RAM_SIZE,
        ensures
            r == self@.ram[addr as int],
    {
        self.ram[addr]
    }

    /// Depth of the call stack.
    pub fn stack_depth(&self) -> (r: usize)
        ensures
            r == self@.stack.len(),
    {
        self.stack.len()
    }

    /// The lowest-indexed key currently pressed, if any.
    fn lowest_pressed(&self) -> (r: Option<u8>)
        requires
            self.wf(),
        ensures
            r == first_key(self@.keys, 0),
    {
        let mut i: usize = 0;
        while i < NUM_KEYS
            invariant
                self.wf(),
                i <= NUM_KEYS,
                first_key(self@.keys, 0) == first_key(self@.keys, i as int),
            decreases NUM_KEYS - i,
        {
            if self.keys[i] {
                return Some(i as u8);
            }
            i = i + 1;
        }
        None
    }

    /// Executes the sprite-draw instruction: XORs the `n`-row sprite read
    /// at the index register onto the display at (V`x`, V`y`), wrapping at
    /// the screen edges, and sets VF to the collision flag.
    fn op_draw(&mut self, x: usize, y: usize, n: u16) -> (result: Result<(), MachineError>)
        requires
            old(self).wf(),
            x < NUM_REGS,
            y < NUM_REGS,
            n < 16,
        ensures
            final (self).wf(),
            match result {
                Ok(()) => old(self)@.index + n <= RAM_SIZE && final (self)@ == (MachineState {
                    screen: draw_screen(
                        old(self)@.screen,
                        old(self)@.ram,
                        old(self)@.index,
                        old(self)@.regs[x as int],
                        old(self)@.regs[y as int],
                        n,
                    ),
                    regs: old(self)@.regs.update(
                        0xF,
                        if draw_collides(
                            old(self)@.screen,
                            old(self)@.ram,
                            old(self)@.index,
                            old(self)@.regs[x as int],
                            old(self)@.regs[y as int],
                            n,
                        ) {
                            1u8
                        } else {
                            0u8
                        },
                    ),
                    ..old(self)@
                }),
                Err(e) => e == MachineError::AddressOutOfRange && old(self)@.index + n > RAM_SIZE
                    && final (self)@ == old(self)@,
            },
    {
        if self.i_reg as usize + n as usize > RAM_SIZE {
            return Err(MachineError::AddressOutOfRange);
        }
        let xs = self.v_reg[x];
        let ys = self.v_reg[y];
        let mut flipped = false;
        let mut j: u16 = 0;
        proof {
            lemma_partial_none(old(self)@.screen, old(self)@.ram, old(self)@.index, xs, ys);
        }
        while j < n
            invariant
                old(self).wf(),
                self.wf(),
                x < NUM_REGS,
                y < NUM_REGS,
                n < 16,
                j <= n,
                old(self)@.index + n <= RAM_SIZE,
                xs == old(self)@.regs[x as int],
                ys == old(self)@.regs[y as int],
                self@ == (MachineState { screen: self@.screen, ..old(self)@ }),
                self@.screen == partial_screen(
                    old(self)@.screen,
                    old(self)@.ram,
                    old(self)@.index,
                    xs,
                    ys,
                    j as int,
                    0,
                ),
                flipped == partial_flip(
                    old(self)@.screen,
                    old(self)@.ram,
                    old(self)@.index,
                    xs,
                    ys,
                    j as int,
                    0,
                ),
            decreases n - j,
        {
            let pixels = self.ram[self.i_reg as usize + j as usize];
            let mut i: u16 = 0;
            while i < 8
                invariant
                    old(self).wf(),
                    self.wf(),
                    x < NUM_REGS,
                    y < NUM_REGS,
                    n < 16,
                    j < n,
                    i <= 8,
                    old(self)@.index + n <= RAM_SIZE,
                    xs == old(self)@.regs[x as int],
                    ys == old(self)@.regs[y as int],
                    pixels == old(self)@.ram[old(self)@.index + j],
                    self@ == (MachineState { screen: self@.screen, ..old(self)@ }),
                    self@.screen == partial_screen(
                        old(self)@.screen,
                        old(self)@.ram,
                        old(self)@.index,
                        xs,
                        ys,
                        j as int,
                        i as int,
                    ),
                    flipped == partial_flip(
                        old(self)@.screen,
                        old(self)@.ram,
                        old(self)@.index,
                        xs,
                        ys,
                        j as int,
                        i as int,
                    ),
                decreases 8 - i,
            {
                if pixels & (0x80u8 >> (i as u8)) != 0 {
                    let xx = ((xs as u16 + i) % (SCREEN_WIDTH as u16)) as usize;
                    let yy = ((ys as u16 + j) % (SCREEN_HEIGHT as u16)) as usize;
                    let idx = yy * SCREEN_WIDTH + xx;
                    proof {
                        assert(sprite_bit(old(self)@.ram[old(self)@.index + j], i as int));
                        lemma_partial_step_set(
                            old(self)@.screen,
                            old(self)@.ram,
                            old(self)@.index,
                            xs,
                            ys,
                            j as int,
                            i as int,
                        );
                        assert(xx == (xs + i) % (SCREEN_WIDTH as int));
                        assert(yy == (ys + j) % (SCREEN_HEIGHT as int));
                        assert(idx == yy * (SCREEN_WIDTH as int) + xx);
                    }
                    let prev = self.screen[idx];
                    flipped = flipped || prev;
                    self.screen[idx] = !prev;
                } else {
                    proof {
                        assert(!sprite_bit(old(self)@.ram[old(self)@.index + j], i as int));
                        lemma_partial_step_clear(
                            old(self)@.screen,
                            old(self)@.ram,
                            old(self)@.index,
                            xs,
                            ys,
                            j as int,
                            i as int,
                        );
                    }
                }
                i = i + 1;
            }
            proof {
                lemma_partial_row_done(
                    old(self)@.screen,
                    old(self)@.ram,
                    old(self)@.index,
                    xs,
                    ys,
                    j as int,
                );
            }
            j = j + 1;
        }
        self.v_reg[0xF] = if flipped {
            1
        } else {
            0
        };
        proof {
            lemma_partial_full(old(self)@.screen, old(self)@.ram, old(self)@.index, xs, ys, n);
        }
        Ok(())
    }

    /// Executes the register-store instruction: copies V0 through V`x`
    /// inclusive into memory starting at the index register.
    fn op_store_regs(&mut self, x: usize) -> (result: Result<(), MachineError>)
        requires
            old(self).wf(),
            x < NUM_REGS,
        ensures
            final (self).wf(),
            match result {
                Ok(()) => old(self)@.index + x + 1 <= RAM_SIZE && final (self)@ == (MachineState {
                    ram: Seq::new(
                        old(self)@.ram.len(),
                        |a: int|
                            if old(self)@.index <= a <= old(self)@.index + x {
                                old(self)@.regs[a - old(self)@.index]
                            } else {
                                old(self)@.ram[a]
                            },
                    ),
                    ..old(self)@
                }),
                Err(e) => e == MachineError::AddressOutOfRange && old(self)@.index + x + 1
                    > RAM_SIZE && final (self)@ == old(self)@,
            },
    {
        if self.i_reg as usize + x + 1 > RAM_SIZE {
            return Err(MachineError::AddressOutOfRange);
        }
        let mut k: usize = 0;
        while k <= x
            invariant
                old(self).wf(),
                self.wf(),
                x < NUM_REGS,
                k <= x + 1,
                old(self)@.index + x + 1 <= RAM_SIZE,
                self@ == (MachineState { ram: self@.ram, ..old(self)@ }),
                forall|a: int|
                    0 <= a < RAM_SIZE ==> self@.ram[a] == if old(self)@.index <= a < old(
                        self,
                    )@.index + k {
                        old(self)@.regs[a - old(self)@.index]
                    } else {
                        old(self)@.ram[a]
                    },
            decreases x + 1 - k,
        {
            self.ram[self.i_reg as usize + k] = self.v_reg[k];
            k = k + 1;
        }
        proof {
            assert(self@.ram =~= Seq::new(
                old(self)@.ram.len(),
                |a: int|
                    if old(self)@.index <= a <= old(self)@.index + x {
                        old(self)@.regs[a - old(self)@.index]
                    } else {
                        old(self)@.ram[a]
                    },
            ));
        }
        Ok(())
    }

    /// Executes the register-load instruction: fills V0 through V`x`
    /// inclusive from memory starting at the index register.
    fn op_load_regs(&mut self, x: usize) -> (result: Result<(), MachineError>)
        requires
            old(self).wf(),
            x < NUM_REGS,
        ensures
            final (self).wf(),
            match result {
                Ok(()) => old(self)@.index + x + 1 <= RAM_SIZE && final (self)@ == (MachineState {
                    regs: Seq::new(
                        old(self)@.regs.len(),
                        |v: int|
                            if 0 <= v <= x {
                                old(self)@.ram[old(self)@.index + v]
                            } else {
                                old(self)@.regs[v]
                            },
                    ),
                    ..old(self)@
                }),
                Err(e) => e == MachineError::AddressOutOfRange && old(self)@.index + x + 1
                    > RAM_SIZE && final (self)@ == old(self)@,
            },
    {
        if self.i_reg as usize + x + 1 > RAM_SIZE {
            return Err(MachineError::AddressOutOfRange);
        }
        let mut k: usize = 0;
        while k <= x
            invariant
                old(self).wf(),
                self.wf(),
                x < NUM_REGS,
                k <= x + 1,
                old(self)@.index + x + 1 <= RAM_SIZE,
                self@ == (MachineState { regs: self@.regs, ..old(self)@ }),
                forall|v: int|
                    0 <= v < NUM_REGS ==> self@.regs[v] == if 0 <= v < k {
                        old(self)@.ram[old(self)@.index + v]
                    } else {
                        old(self)@.regs[v]
                    },
            decreases x + 1 - k,
        {
            self.v_reg[k] = self.ram[self.i_reg as usize + k];
            k = k + 1;
        }
        proof {
            assert(self@.regs =~= Seq::new(
                old(self)@.regs.len(),
                |v: int|
                    if 0 <= v <= x {
                        old(self)@.ram[old(self)@.index + v]
                    } else {
                        old(self)@.regs[v]
                    },
            ));
        }
        Ok(())
    }

    /// Fetches the two bytes at the program counter, big-endian-combined
    /// into one opcode, and advances the program counter past them.
    fn fetch(&mut self) -> (op: u16)
        requires
            old(self).wf(),
            old(self)@.pc as int + 1 < RAM_SIZE,
        ensures
            final (self).wf(),
            op == spec_opcode(old(self)@),
            final (self)@ == (MachineState { pc: (old(self)@.pc + 2) as u16, ..old(self)@ }),
    {
        let hi = self.ram[self.pc as usize] as u16;
        let lo = self.ram[self.pc as usize + 1] as u16;
        self.pc = self.pc + 2;
        (hi << 8u16) | lo
    }

    /// Decodes and executes one already-fetched opcode, on a state whose
    /// program counter has been advanced past it.
    #[verifier::rlimit(60)]
    fn execute(&mut self, op: u16) -> (result: Result<(), MachineError>)
        requires
            old(self).wf(),
            2 <= old(self)@.pc <= RAM_SIZE,
        ensures
            final (self).wf(),
            match result {
                Ok(()) => exists|r: u8|
                    spec_execute(old(self)@, op, r) == Ok::<MachineState, MachineError>(
                        final (self)@,
                    ),
                Err(e) => final (self)@ == old(self)@ && forall|r: u8|
                    spec_execute(old(self)@, op, r) == Err::<MachineState, MachineError>(e),
            },
    {
        proof {
            assert(sp_n1(op) <= 0xF && sp_n2(op) <= 0xF && sp_n3(op) <= 0xF && sp_n4(op) <= 0xF
                && sp_nnn(op) <= 0xFFF && (op & 0x00FF) < 256) by (bit_vector);
        }
        let b1 = (op & 0xF000) >> 12u16;
        let b2 = (op & 0x0F00) >> 8u16;
        let b3 = (op & 0x00F0) >> 4u16;
        let b4 = op & 0x000F;
        let x = b2 as usize;
        let y = b3 as usize;
        if b1 == 0 && b2 == 0 && b3 == 0xE && b4 == 0 {
            self.screen = filled_bools(SCREEN_WIDTH * SCREEN_HEIGHT, false);
            proof {
                assert(spec_execute(old(self)@, op, 0u8) matches Ok(t) && t =~= self@);
            }
            Ok(())
        } else if b1 == 0 && b2 == 0 && b3 == 0xE && b4 == 0xE {
            match self.pop() {
                Ok(addr) => {
                    self.pc = addr;
                    proof {
                        assert(spec_execute(old(self)@, op, 0u8) matches Ok(t) && t =~= self@);
                    }
                    Ok(())
                },
                Err(e) => Err(e),
            }
        } else if b1 == 1 {
            self.pc = op & 0x0FFF;
            proof {
                assert(spec_execute(old(self)@, op, 0u8) matches Ok(t) && t =~= self@);
            }
            Ok(())
        } else if b1 == 2 {
            let ret = self.pc;
            self.push(ret);
            self.pc = op & 0x0FFF;
            proof {
                assert(spec_execute(old(self)@, op, 0u8) matches Ok(t) && t =~= self@);
            }
            Ok(())
        } else if b1 == 3 {
            if self.v_reg[x] == (op & 0x00FF) as u8 {
                self.pc = self.pc + 2;
            }
            proof {
                assert(spec_execute(old(self)@, op, 0u8) matches Ok(t) && t =~= self@);
            }
            Ok(())
        } else if b1 == 4 {
            if self.v_reg[x] != (op & 0x00FF) as u8 {
                self.pc = self.pc + 2;
            }
            proof {
                assert(spec_execute(old(self)@, op, 0u8) matches Ok(t) && t =~= self@);
            }
            Ok(())
        } else if b1 == 5 && b4 == 0 {
            if self.v_reg[x] == self.v_reg[y] {
                self.pc = self.pc + 2;
            }
            proof {
                assert(spec_execute(old(self)@, op, 0u8) matches Ok(t) && t =~= self@);
            }
            Ok(())
        } else if b1 == 6 {
            self.v_reg[x] = (op & 0x00FF) as u8;
            proof {
                assert(spec_execute(old(self)@, op, 0u8) matches Ok(t) && t =~= self@);
            }
            Ok(())
        } else if b1 == 7 {
            let a = self.v_reg[x];
            let kk = (op & 0x00FF) as u8;
            self.v_reg[x] = ((a as u16 + kk as u16) % 256) as u8;
            proof {
                assert(spec_execute(old(self)@, op, 0u8) matches Ok(t) && t =~= self@);
            }
            Ok(())
        } else if b1 == 8 && b4 == 0 {
            self.v_reg[x] = self.v_reg[y];
            proof {
                assert(spec_execute(old(self)@, op, 0u8) matches Ok(t) && t =~= self@);
            }
            Ok(())
        } else if b1 == 8 && b4 == 1 {
            self.v_reg[x] = self.v_reg[x] | self.v_reg[y];
            proof {
                assert(spec_execute(old(self)@, op, 0u8) matches Ok(t) && t =~= self@);
            }
            Ok(())
        } else if b1 == 8 && b4 == 2 {
            self.v_reg[x] = self.v_reg[x] & self.v_reg[y];
            proof {
                assert(spec_execute(old(self)@, op, 0u8) matches Ok(t) && t =~= self@);
            }
            Ok(())
        } else if b1 == 8 && b4 == 3 {
            self.v_reg[x] = self.v_reg[x] ^ self.v_reg[y];
            proof {
                assert(spec_execute(old(self)@, op, 0u8) matches Ok(t) && t =~= self@);
            }
            Ok(())
        } else if b1 == 8 && b4 == 4 {
            let a = self.v_reg[x];
            let b = self.v_reg[y];
            let sum = a as u16 + b as u16;
            self.v_reg[x] = (sum % 256) as u8;
            self.v_reg[0xF] = if sum > 255 {
                1
            } else {
                0
            };
            proof {
                assert(spec_execute(old(self)@, op, 0u8) matches Ok(t) && t =~= self@);
            }
            Ok(())
        } else if b1 == 8 && b4 == 5 {
            let a = self.v_reg[x];
            let b = self.v_reg[y];
            self.v_reg[x] = if a >= b {
                a - b
            } else {
                ((a as u16 + 256) - b as u16) as u8
            };
            self.v_reg[0xF] = if a < b {
                0
            } else {
                1
            };
            proof {
                assert(spec_execute(old(self)@, op, 0u8) matches Ok(t) && t =~= self@);
            }
            Ok(())
        } else if b1 == 8 && b4 == 6 {
            self.v_reg[0xF] = self.v_reg[x] & 1;
            let cur = self.v_reg[x];
            self.v_reg[x] = cur >> 1u8;
            proof {
                assert(spec_execute(old(self)@, op, 0u8) matches Ok(t) && t =~= self@);
            }
            Ok(())
        } else if b1 == 8 && b4 == 7 {
            let a = self.v_reg[x];
            let b = self.v_reg[y];
            self.v_reg[x] = if b >= a {
                b - a
            } else {
                ((b as u16 + 256) - a as u16) as u8
            };
            self.v_reg[0xF] = if b < a {
                1
            } else {
                0
            };
            proof {
                assert(spec_execute(old(self)@, op, 0u8) matches Ok(t) && t =~= self@);
            }
            Ok(())
        } else if b1 == 8 && b4 == 0xE {
            self.v_reg[0xF] = (self.v_reg[x] >> 7u8) & 1;
            let cur = self.v_reg[x];
            self.v_reg[x] = cur << 1u8;
            proof {
                assert(spec_execute(old(self)@, op, 0u8) matches Ok(t) && t =~= self@);
            }
            Ok(())
        } else if b1 == 9 && b4 == 0 {
            if self.v_reg[x] != self.v_reg[y] {
                self.pc = self.pc + 2;
            }
            proof {
                assert(spec_execute(old(self)@, op, 0u8) matches Ok(t) && t =~= self@);
            }
            Ok(())
        } else if b1 == 0xA {
            self.i_reg = op & 0x0FFF;
            proof {
                assert(spec_execute(old(self)@, op, 0u8) matches Ok(t) && t =~= self@);
            }
            Ok(())
        } else if b1 == 0xB {
            self.pc = self.v_reg[0] as u16 + (op & 0x0FFF);
            proof {
                assert(spec_execute(old(self)@, op, 0u8) matches Ok(t) && t =~= self@);
            }
            Ok(())
        } else if b1 == 0xC {
            let rb = random_byte();
            self.v_reg[x] = rb & ((op & 0x00FF) as u8);
            proof {
                assert(spec_execute(old(self)@, op, rb) matches Ok(t) && t =~= self@);
            }
            Ok(())
        } else if b1 == 0xD {
            match self.op_draw(x, y, b4) {
                Ok(()) => {
                    proof {
                        assert(spec_execute(old(self)@, op, 0u8) matches Ok(t) && t =~= self@);
                    }
                    Ok(())
                },
                Err(e) => Err(e),
            }
        } else if b1 == 0xE && b3 == 9 && b4 == 0xE {
            let vx = self.v_reg[x];
            if vx as usize >= NUM_KEYS {
                return Err(MachineError::AddressOutOfRange);
            }
            if self.keys[vx as usize] {
                self.pc = self.pc + 2;
            }
            proof {
                assert(spec_execute(old(self)@, op, 0u8) matches Ok(t) && t =~= self@);
            }
            Ok(())
        } else if b1 == 0xE && b3 == 0xA && b4 == 1 {
            let vx = self.v_reg[x];
            if vx as usize >= NUM_KEYS {
                return Err(MachineError::AddressOutOfRange);
            }
            if !self.keys[vx as usize] {
                self.pc = self.pc + 2;
            }
            proof {
                assert(spec_execute(old(self)@, op, 0u8) matches Ok(t) && t =~= self@);
            }
            Ok(())
        } else if b1 == 0xF && b3 == 0 && b4 == 7 {
            self.v_reg[x] = self.dt;
            proof {
                assert(spec_execute(old(self)@, op, 0u8) matches Ok(t) && t =~= self@);
            }
            Ok(())
        } else if b1 == 0xF && b3 == 0 && b4 == 0xA {
            match self.lowest_pressed() {
                Some(k) => {
                    self.v_reg[x] = k;
                },
                None => {
                    self.pc = self.pc - 2;
                },
            }
            proof {
                assert(spec_execute(old(self)@, op, 0u8) matches Ok(t) && t =~= self@);
            }
            Ok(())
        } else if b1 == 0xF && b3 == 1 && b4 == 5 {
            self.dt = self.v_reg[x];
            proof {
                assert(spec_execute(old(self)@, op, 0u8) matches Ok(t) && t =~= self@);
            }
            Ok(())
        } else if b1 == 0xF && b3 == 1 && b4 == 8 {
            self.st = self.v_reg[x];
            proof {
                assert(spec_execute(old(self)@, op, 0u8) matches Ok(t) && t =~= self@);
            }
            Ok(())
        } else if b1 == 0xF && b3 == 1 && b4 == 0xE {
            let widened = self.i_reg as u32 + self.v_reg[x] as u32;
            self.i_reg = (widened % 0x10000) as u16;
            proof {
                assert(spec_execute(old(self)@, op, 0u8) matches Ok(t) && t =~= self@);
            }
            Ok(())
        } else if b1 == 0xF && b3 == 2 && b4 == 9 {
            self.i_reg = self.v_reg[x] as u16 * 5;
            proof {
                assert(spec_execute(old(self)@, op, 0u8) matches Ok(t) && t =~= self@);
            }
            Ok(())
        } else if b1 == 0xF && b3 == 3 && b4 == 3 {
            if self.i_reg as usize + 3 > RAM_SIZE {
                return Err(MachineError::AddressOutOfRange);
            }
            let vx = self.v_reg[x];
            let i0 = self.i_reg as usize;
            self.ram[i0] = vx / 100;
            self.ram[i0 + 1] = (vx / 10) % 10;
            self.ram[i0 + 2] = vx % 10;
            proof {
                assert(spec_execute(old(self)@, op, 0u8) matches Ok(t) && t =~= self@);
            }
            Ok(())
        } else if b1 == 0xF && b3 == 5 && b4 == 5 {
            match self.op_store_regs(x) {
                Ok(()) => {
                    proof {
                        assert(spec_execute(old(self)@, op, 0u8) matches Ok(t) && t =~= self@);
                    }
                    Ok(())
                },
                Err(e) => Err(e),
            }
        } else if b1 == 0xF && b3 == 6 && b4 == 5 {
            match self.op_load_regs(x) {
                Ok(()) => {
                    proof {
                        assert(spec_execute(old(self)@, op, 0u8) matches Ok(t) && t =~= self@);
                    }
                    Ok(())
                },
                Err(e) => Err(e),
            }
        } else {
            proof {
                assert(spec_execute(old(self)@, op, 0u8) matches Ok(t) && t =~= self@);
            }
            Ok(())
        }
    }

    /// Advances the machine by exactly one instruction: fetches the
    /// opcode at the program counter, advances the program counter past
    /// it, and executes it.
    ///
    /// On success the new state is [`spec_tick`] of the old state for
    /// some byte from the random source; on either distinguished error
    /// the machine is left unchanged, and the error arises exactly when
    /// [`spec_tick`] reports it.
    pub fn tick(&mut self) -> (result: Result<(), MachineError>)
        requires
            old(self).wf(),
        ensures
            final (self).wf(),
            match result {
                Ok(()) => exists|r: u8|
                    spec_tick(old(self)@, r) == Ok::<MachineState, MachineError>(final (self)@),
                Err(e) => final (self)@ == old(self)@ && forall|r: u8|
                    spec_tick(old(self)@, r) == Err::<MachineState, MachineError>(e),
            },
    {
        if self.pc as usize + 1 >= RAM_SIZE {
            return Err(MachineError::AddressOutOfRange);
        }
        let op = self.fetch();
        let ghost mid = self@;
        match self.execute(op) {
            Ok(()) => {
                proof {
                    assert(mid == (MachineState { pc: (old(self)@.pc + 2) as u16, ..old(self)@ }));
                    let r = choose|r: u8|
                        spec_execute(mid, op, r) == Ok::<MachineState, MachineError>(self@);
                    assert(spec_tick(old(self)@, r) == Ok::<MachineState, MachineError>(self@));
                }
                Ok(())
            },
            Err(e) => {
                self.pc = self.pc - 2;
                proof {
                    assert(self@ == old(self)@);
                    assert(mid == (MachineState { pc: (old(self)@.pc + 2) as u16, ..old(self)@ }));
                    assert(forall|r: u8|
                        spec_tick(old(self)@, r) == Err::<MachineState, MachineError>(e));
                }
                Err(e)
            },
        }
    }
}

} // verus!
