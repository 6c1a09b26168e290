//! The general laws of the machine, proved from the model in
//! [`crate::isa`]. Each is stated over [`spec_tick`] or over the drawing
//! model that `spec_tick` uses, so it holds of every run of
//! [`crate::machine::Machine`] by that function's contract.

use vstd::prelude::*;

use crate::isa::draw_collides;
use crate::isa::draw_screen;
use crate::isa::first_key;
use crate::isa::sp_n1;
use crate::isa::sp_n2;
use crate::isa::sp_n3;
use crate::isa::sp_n4;
use crate::isa::sp_nnn;
use crate::isa::spec_execute;
use crate::isa::spec_opcode;
use crate::isa::spec_tick;
use crate::isa::sprite_bit;
use crate::isa::sprite_covers;
use crate::state::MachineError;
use crate::state::MachineState;
use crate::state::NUM_KEYS;
use crate::state::RAM_SIZE;
use crate::state::SCREEN_HEIGHT;
use crate::state::SCREEN_WIDTH;

verus! {

/// A step always advances the program counter by exactly two before the
/// instruction executes, whatever the instruction: the executed effect is
/// that of the opcode applied to the state with the advanced counter.
pub proof fn lemma_fetch_advances_pc(s: MachineState, r: u8)
    requires
        s.pc as int + 1 < RAM_SIZE,
    ensures
        spec_tick(s, r) == spec_execute(
            MachineState { pc: (s.pc + 2) as u16, ..s },
            spec_opcode(s),
            r,
        ),
{
}

/// The add-with-carry instruction (nibbles 8..4): for all 8-bit operands
/// `a` and `b`, VF becomes 1 exactly when `a + b` exceeds 255, and the
/// destination register receives `(a + b) mod 256` (unless the
/// destination is VF itself, which the carry overwrites).
pub proof fn lemma_add_with_carry(s: MachineState, r: u8)
    requires
        s.wf(),
        s.pc as int + 1 < RAM_SIZE,
        sp_n1(spec_opcode(s)) == 8,
        sp_n4(spec_opcode(s)) == 4,
    ensures
        ({
            let x = sp_n2(spec_opcode(s)) as int;
            let y = sp_n3(spec_opcode(s)) as int;
            let a = s.regs[x];
            let b = s.regs[y];
            &&& spec_tick(s, r) matches Ok(t)
            &&& spec_tick(s, r) matches Ok(t) ==> ({
                &&& t.regs[0xF] == (if a + b > 255 {
                    1u8
                } else {
                    0u8
                })
                &&& x != 0xF ==> t.regs[x] == (a + b) % 256
            })
        }),
{
    let op = spec_opcode(s);
    assert(sp_n2(op) <= 0xF && sp_n3(op) <= 0xF) by (bit_vector);
}

/// The subtract-with-borrow instruction (nibbles 8..5): for all 8-bit
/// operands `a` and `b`, VF becomes 0 exactly when `a < b`, and the
/// destination register receives `(a - b) mod 256` (unless the
/// destination is VF itself, which the borrow flag overwrites).
pub proof fn lemma_sub_with_borrow(s: MachineState, r: u8)
    requires
        s.wf(),
        s.pc as int + 1 < RAM_SIZE,
        sp_n1(spec_opcode(s)) == 8,
        sp_n4(spec_opcode(s)) == 5,
    ensures
        ({
            let x = sp_n2(spec_opcode(s)) as int;
            let y = sp_n3(spec_opcode(s)) as int;
            let a = s.regs[x];
            let b = s.regs[y];
            &&& spec_tick(s, r) matches Ok(t)
            &&& spec_tick(s, r) matches Ok(t) ==> ({
                &&& t.regs[0xF] == (if a < b {
                    0u8
                } else {
                    1u8
                })
                &&& x != 0xF ==> t.regs[x] == (a - b + 256) % 256
            })
        }),
{
    let op = spec_opcode(s);
    assert(sp_n2(op) <= 0xF && sp_n3(op) <= 0xF) by (bit_vector);
}

/// The clear-screen instruction (opcode nibbles 00E0) leaves every one of
/// the display's cells off.
pub proof fn lemma_clear_screen_blanks(s: MachineState, r: u8)
    requires
        s.wf(),
        s.pc as int + 1 < RAM_SIZE,
        sp_n1(spec_opcode(s)) == 0,
        sp_n2(spec_opcode(s)) == 0,
        sp_n3(spec_opcode(s)) == 0xE,
        sp_n4(spec_opcode(s)) == 0,
    ensures
        spec_tick(s, r) matches Ok(t) && t.screen.len() == SCREEN_WIDTH * SCREEN_HEIGHT && (forall|
            p: int,
        |
            0 <= p < t.screen.len() ==> !t.screen[p]),
{
    let t = MachineState {
        pc: (s.pc + 2) as u16,
        screen: Seq::new((SCREEN_WIDTH * SCREEN_HEIGHT) as nat, |i: int| false),
        ..s
    };
    assert(spec_tick(s, r) matches Ok(u) && u =~= t);
}

/// Drawing the identical sprite at the identical position twice restores
/// every pixel to its prior state; and when the first draw turned some
/// pixel on, the second draw reports a collision.
pub proof fn lemma_draw_twice_restores(
    screen: Seq<bool>,
    ram: Seq<u8>,
    index: u16,
    xs: u8,
    ys: u8,
    n: u16,
)
    ensures
        draw_screen(draw_screen(screen, ram, index, xs, ys, n), ram, index, xs, ys, n) == screen,
        (exists|p: int|
            0 <= p < screen.len() && !screen[p] && draw_screen(screen, ram, index, xs, ys, n)[p])
            ==> draw_collides(draw_screen(screen, ram, index, xs, ys, n), ram, index, xs, ys, n),
{
    let d1 = draw_screen(screen, ram, index, xs, ys, n);
    let d2 = draw_screen(d1, ram, index, xs, ys, n);
    assert forall|p: int| 0 <= p < screen.len() implies d2[p] == screen[p] by {}
    assert(d2 =~= screen);
    if exists|p: int| 0 <= p < screen.len() && !screen[p] && d1[p] {
        let p = choose|p: int| 0 <= p < screen.len() && !screen[p] && d1[p];
        assert(sprite_covers(
            ram,
            index,
            xs,
            ys,
            n,
            p % (SCREEN_WIDTH as int),
            p / (SCREEN_WIDTH as int),
        ));
        assert(d1[p] && sprite_covers(
            ram,
            index,
            xs,
            ys,
            n,
            p % (SCREEN_WIDTH as int),
            p / (SCREEN_WIDTH as int),
        ));
        assert(draw_collides(d1, ram, index, xs, ys, n));
    }
}

/// Sprite coordinates wrap: a sprite drawn at the rightmost column whose
/// row has its second bit set lands that bit on column 0, not off the
/// screen.
pub proof fn lemma_sprite_wraps_right_edge(ram: Seq<u8>, index: u16, ys: u8, n: u16, py: int)
    requires
        1 <= n,
        sprite_bit(ram[index as int], 1),
        py == (ys as int) % (SCREEN_HEIGHT as int),
    ensures
        sprite_covers(ram, index, (SCREEN_WIDTH - 1) as u8, ys, n, 0, py),
{
    let xs = (SCREEN_WIDTH - 1) as u8;
    assert(sprite_bit(ram[index + 0], 1));
    assert(0 == (xs + 1) % (SCREEN_WIDTH as int));
}

/// A subroutine call followed by a return restores the program counter
/// to the instruction immediately after the call site, and leaves the
/// call stack as it was.
pub proof fn lemma_call_then_return(s: MachineState, r1: u8, r2: u8)
    requires
        s.wf(),
        s.pc as int + 1 < RAM_SIZE,
        sp_n1(spec_opcode(s)) == 2,
        sp_nnn(spec_opcode(s)) as int + 1 < RAM_SIZE,
        s.ram[sp_nnn(spec_opcode(s)) as int] == 0x00,
        s.ram[sp_nnn(spec_opcode(s)) as int + 1] == 0xEE,
    ensures
        ({
            &&& spec_tick(s, r1) matches Ok(t1)
            &&& spec_tick(s, r1) matches Ok(t1) ==> ({
                &&& spec_tick(t1, r2) matches Ok(t2)
                &&& spec_tick(t1, r2) matches Ok(t2) ==> t2.pc == s.pc + 2 && t2.stack == s.stack
            })
        }),
{
    let nnn = sp_nnn(spec_opcode(s));
    let t1 = MachineState { pc: nnn, stack: s.stack.push((s.pc + 2) as u16), ..s };
    assert(spec_tick(s, r1) matches Ok(u) && u =~= t1);
    let op2 = spec_opcode(t1);
    assert(op2 == ((0x00u8 as u16) << 8u16) | (0xEEu8 as u16));
    assert(((0x00u8 as u16) << 8u16) | (0xEEu8 as u16) == 0x00EEu16) by (bit_vector);
    assert(sp_n1(0x00EEu16) == 0 && sp_n2(0x00EEu16) == 0 && sp_n3(0x00EEu16) == 0xE && sp_n4(
        0x00EEu16,
    ) == 0xE) by (bit_vector);
    let t2 = MachineState { pc: (s.pc + 2) as u16, stack: s.stack, ..s };
    assert(t1.stack.drop_last() =~= s.stack);
    assert(spec_tick(t1, r2) matches Ok(u) && u =~= t2);
}

/// Returning with an empty call stack is reported as the distinguished
/// stack-underflow error, never a silent default.
pub proof fn lemma_empty_stack_return_errors(s: MachineState, r: u8)
    requires
        s.wf(),
        s.pc as int + 1 < RAM_SIZE,
        s.stack.len() == 0,
        sp_n1(spec_opcode(s)) == 0,
        sp_n2(spec_opcode(s)) == 0,
        sp_n3(spec_opcode(s)) == 0xE,
        sp_n4(spec_opcode(s)) == 0xE,
    ensures
        spec_tick(s, r) == Err::<MachineState, MachineError>(MachineError::StackUnderflow),
{
}

/// The lowest-indexed pressed key is indeed pressed and has no pressed
/// key below it; when none is reported, no key is pressed.
pub proof fn lemma_first_key_lowest(keys: Seq<bool>, k: int)
    requires
        keys.len() == NUM_KEYS,
        0 <= k <= NUM_KEYS,
    ensures
        match first_key(keys, k) {
            Some(v) => k <= v < NUM_KEYS && keys[v as int] && (forall|j: int|
                k <= j < v ==> !keys[j]),
            None => forall|j: int| k <= j < NUM_KEYS ==> !keys[j],
        },
    decreases NUM_KEYS - k,
{
    if k < NUM_KEYS {
        if !keys[k] {
            lemma_first_key_lowest(keys, k + 1);
        }
    }
}

/// The wait-for-key instruction (nibbles F.0A): with no key pressed the
/// step leaves the whole state unchanged, the program counter included,
/// so the instruction re-executes on the next step; once some key is
/// pressed, the destination register receives the lowest-indexed pressed
/// key and the program counter advances normally.
pub proof fn lemma_wait_for_key(s: MachineState, r: u8)
    requires
        s.wf(),
        s.pc as int + 1 < RAM_SIZE,
        sp_n1(spec_opcode(s)) == 0xF,
        sp_n3(spec_opcode(s)) == 0,
        sp_n4(spec_opcode(s)) == 0xA,
    ensures
        (forall|k: int| 0 <= k < NUM_KEYS ==> !s.keys[k]) ==> spec_tick(s, r) == Ok::<
            MachineState,
            MachineError,
        >(s),
        (exists|k: int| 0 <= k < NUM_KEYS && s.keys[k]) ==> ({
            let x = sp_n2(spec_opcode(s)) as int;
            &&& first_key(s.keys, 0) matches Some(v)
            &&& first_key(s.keys, 0) matches Some(v) ==> ({
                &&& s.keys[v as int]
                &&& forall|j: int| 0 <= j < v ==> !s.keys[j]
                &&& spec_tick(s, r) == Ok::<MachineState, MachineError>(
                    MachineState {
                        pc: (s.pc + 2) as u16,
                        regs: s.regs.update(x, v),
                        ..s
                    },
                )
            })
        }),
{
    lemma_first_key_lowest(s.keys, 0);
    if forall|k: int| 0 <= k < NUM_KEYS ==> !s.keys[k] {
        assert(first_key(s.keys, 0) is None);
        assert(spec_tick(s, r) matches Ok(t) && t =~= s);
    }
    if exists|k: int| 0 <= k < NUM_KEYS && s.keys[k] {
        let k = choose|k: int| 0 <= k < NUM_KEYS && s.keys[k];
        if first_key(s.keys, 0) is None {
            assert(!s.keys[k]);
        }
        let v = first_key(s.keys, 0)->Some_0;
        let x = sp_n2(spec_opcode(s)) as int;
        let t = MachineState { pc: (s.pc + 2) as u16, regs: s.regs.update(x, v), ..s };
        assert(spec_tick(s, r) matches Ok(u) && u =~= t);
    }
}

} // verus!
