//! Proof support for the sprite-draw instruction: a predicate for the
//! pixels covered by a partially drawn sprite, and the facts the drawing
//! loop needs about it.

use vstd::arithmetic::div_mod::lemma_fundamental_div_mod;
use vstd::prelude::*;

use crate::isa::draw_collides;
use crate::isa::draw_screen;
use crate::isa::sprite_bit;
use crate::isa::sprite_covers;
use crate::state::SCREEN_HEIGHT;
use crate::state::SCREEN_WIDTH;

verus! {

/// Whether some sprite bit already processed by the drawing loop lands on
/// the pixel at column `px`, row `py`: all bits of rows before `j`, and
/// the first `i` bits of row `j`.
pub(crate) open spec fn covers_upto(
    ram: Seq<u8>,
    index: u16,
    xs: u8,
    ys: u8,
    j: int,
    i: int,
    px: int,
    py: int,
) -> bool {
    exists|jj: int, ii: int|
        0 <= jj && 0 <= ii < 8 && (jj < j || (jj == j && ii < i)) && #[trigger] sprite_bit(
            ram[index + jj],
            ii,
        ) && px == (xs + ii) % (SCREEN_WIDTH as int) && py == (ys + jj) % (SCREEN_HEIGHT as int)
}

/// Two distinct rows of a sprite land on distinct screen rows: row
/// coordinates wrap modulo 32 and sprites have at most 16 rows.
proof fn lemma_row_wrap_distinct(ys: u8, j1: u16, j2: u16)
    by (bit_vector)
    requires
        j1 < 32,
        j2 < 32,
        j1 != j2,
    ensures
        (ys + j1) % 32 != (ys + j2) % 32,
{
}

/// Two distinct bits of one sprite row land on distinct screen columns:
/// column coordinates wrap modulo 64 and a row has 8 bits.
proof fn lemma_col_wrap_distinct(xs: u8, i1: u16, i2: u16)
    by (bit_vector)
    requires
        i1 < 64,
        i2 < 64,
        i1 != i2,
    ensures
        (xs + i1) % 64 != (xs + i2) % 64,
{
}

/// Before any bit is processed, no pixel is covered.
pub(crate) proof fn lemma_covers_none(ram: Seq<u8>, index: u16, xs: u8, ys: u8, px: int, py: int)
    ensures
        !covers_upto(ram, index, xs, ys, 0, 0, px, py),
{
}

/// Processing one more bit extends the covered pixels by exactly the
/// pixel of that bit, when the bit is set.
pub(crate) proof fn lemma_covers_step(
    ram: Seq<u8>,
    index: u16,
    xs: u8,
    ys: u8,
    j: int,
    i: int,
    px: int,
    py: int,
)
    requires
        0 <= j,
        0 <= i < 8,
    ensures
        covers_upto(ram, index, xs, ys, j, i + 1, px, py) == (covers_upto(
            ram,
            index,
            xs,
            ys,
            j,
            i,
            px,
            py,
        ) || (sprite_bit(ram[index + j], i) && px == (xs + i) % (SCREEN_WIDTH as int) && py == (ys
            + j) % (SCREEN_HEIGHT as int))),
{
    if covers_upto(ram, index, xs, ys, j, i + 1, px, py) {
        let (jj, ii): (int, int) = choose|jj: int, ii: int|
            0 <= jj && 0 <= ii < 8 && (jj < j || (jj == j && ii < i + 1)) && #[trigger] sprite_bit(
                ram[index + jj],
                ii,
            ) && px == (xs + ii) % (SCREEN_WIDTH as int) && py == (ys + jj) % (SCREEN_HEIGHT
                as int);
        if jj < j || (jj == j && ii < i) {
            assert(covers_upto(ram, index, xs, ys, j, i, px, py));
        }
    }
    if covers_upto(ram, index, xs, ys, j, i, px, py) {
        let (jj, ii): (int, int) = choose|jj: int, ii: int|
            0 <= jj && 0 <= ii < 8 && (jj < j || (jj == j && ii < i)) && #[trigger] sprite_bit(
                ram[index + jj],
                ii,
            ) && px == (xs + ii) % (SCREEN_WIDTH as int) && py == (ys + jj) % (SCREEN_HEIGHT
                as int);
        assert(covers_upto(ram, index, xs, ys, j, i + 1, px, py));
    }
    if sprite_bit(ram[index + j], i) && px == (xs + i) % (SCREEN_WIDTH as int) && py == (ys + j)
        % (SCREEN_HEIGHT as int) {
        assert(covers_upto(ram, index, xs, ys, j, i + 1, px, py));
    }
}

/// The pixel of the bit being processed is not covered by any earlier
/// bit: rows and columns wrap onto distinct cells.
pub(crate) proof fn lemma_covers_fresh(ram: Seq<u8>, index: u16, xs: u8, ys: u8, j: int, i: int)
    requires
        0 <= j < 32,
        0 <= i < 8,
    ensures
        !covers_upto(
            ram,
            index,
            xs,
            ys,
            j,
            i,
            (xs + i) % (SCREEN_WIDTH as int),
            (ys + j) % (SCREEN_HEIGHT as int),
        ),
{
    let px = (xs + i) % (SCREEN_WIDTH as int);
    let py = (ys + j) % (SCREEN_HEIGHT as int);
    if covers_upto(ram, index, xs, ys, j, i, px, py) {
        let (jj, ii): (int, int) = choose|jj: int, ii: int|
            0 <= jj && 0 <= ii < 8 && (jj < j || (jj == j && ii < i)) && #[trigger] sprite_bit(
                ram[index + jj],
                ii,
            ) && px == (xs + ii) % (SCREEN_WIDTH as int) && py == (ys + jj) % (SCREEN_HEIGHT
                as int);
        if jj != j {
            if jj < 32 {
                lemma_row_wrap_distinct(ys, jj as u16, j as u16);
                assert(false);
            } else {
                // a sprite row index beyond 31 cannot appear: jj < j < 32
                assert(false);
            }
        } else {
            lemma_col_wrap_distinct(xs, ii as u16, i as u16);
            assert(false);
        }
    }
}

/// After the last bit of a row, the covered pixels are those of the next
/// row's starting point.
pub(crate) proof fn lemma_covers_row_done(
    ram: Seq<u8>,
    index: u16,
    xs: u8,
    ys: u8,
    j: int,
    px: int,
    py: int,
)
    requires
        0 <= j,
    ensures
        covers_upto(ram, index, xs, ys, j, 8, px, py) == covers_upto(
            ram,
            index,
            xs,
            ys,
            j + 1,
            0,
            px,
            py,
        ),
{
    if covers_upto(ram, index, xs, ys, j, 8, px, py) {
        let (jj, ii): (int, int) = choose|jj: int, ii: int|
            0 <= jj && 0 <= ii < 8 && (jj < j || (jj == j && ii < 8)) && #[trigger] sprite_bit(
                ram[index + jj],
                ii,
            ) && px == (xs + ii) % (SCREEN_WIDTH as int) && py == (ys + jj) % (SCREEN_HEIGHT
                as int);
        assert(covers_upto(ram, index, xs, ys, j + 1, 0, px, py));
    }
    if covers_upto(ram, index, xs, ys, j + 1, 0, px, py) {
        let (jj, ii): (int, int) = choose|jj: int, ii: int|
            0 <= jj && 0 <= ii < 8 && (jj < j + 1 || (jj == j + 1 && ii < 0)) && #[trigger] sprite_bit(
                ram[index + jj],
                ii,
            ) && px == (xs + ii) % (SCREEN_WIDTH as int) && py == (ys + jj) % (SCREEN_HEIGHT
                as int);
        assert(covers_upto(ram, index, xs, ys, j, 8, px, py));
    }
}

/// Once every row is processed, the covered pixels are exactly those the
/// whole sprite covers.
pub(crate) proof fn lemma_covers_full(
    ram: Seq<u8>,
    index: u16,
    xs: u8,
    ys: u8,
    n: u16,
    px: int,
    py: int,
)
    ensures
        covers_upto(ram, index, xs, ys, n as int, 0, px, py) == sprite_covers(
            ram,
            index,
            xs,
            ys,
            n,
            px,
            py,
        ),
{
    if covers_upto(ram, index, xs, ys, n as int, 0, px, py) {
        let (jj, ii): (int, int) = choose|jj: int, ii: int|
            0 <= jj && 0 <= ii < 8 && (jj < n || (jj == n && ii < 0)) && #[trigger] sprite_bit(
                ram[index + jj],
                ii,
            ) && px == (xs + ii) % (SCREEN_WIDTH as int) && py == (ys + jj) % (SCREEN_HEIGHT
                as int);
        assert(sprite_covers(ram, index, xs, ys, n, px, py));
    }
    if sprite_covers(ram, index, xs, ys, n, px, py) {
        let (jj, ii): (int, int) = choose|jj: int, ii: int|
            0 <= jj < n && 0 <= ii < 8 && #[trigger] sprite_bit(ram[index + jj], ii) && px == (xs
                + ii) % (SCREEN_WIDTH as int) && py == (ys + jj) % (SCREEN_HEIGHT as int);
        assert(covers_upto(ram, index, xs, ys, n as int, 0, px, py));
    }
}

/// The display after the drawing loop has processed all bits of rows
/// before `j` and the first `i` bits of row `j` of the sprite.
pub(crate) open spec fn partial_screen(
    orig: Seq<bool>,
    ram: Seq<u8>,
    index: u16,
    xs: u8,
    ys: u8,
    j: int,
    i: int,
) -> Seq<bool> {
    Seq::new(
        orig.len(),
        |p: int|
            orig[p] != covers_upto(
                ram,
                index,
                xs,
                ys,
                j,
                i,
                p % (SCREEN_WIDTH as int),
                p / (SCREEN_WIDTH as int),
            ),
    )
}

/// Whether the drawing loop has so far toggled a pixel that was lit in
/// the prior display.
pub(crate) open spec fn partial_flip(
    orig: Seq<bool>,
    ram: Seq<u8>,
    index: u16,
    xs: u8,
    ys: u8,
    j: int,
    i: int,
) -> bool {
    exists|p: int|
        0 <= p < orig.len() && #[trigger] orig[p] && covers_upto(
            ram,
            index,
            xs,
            ys,
            j,
            i,
            p % (SCREEN_WIDTH as int),
            p / (SCREEN_WIDTH as int),
        )
}

/// Before any bit is processed the display is unchanged and nothing has
/// been toggled.
pub(crate) proof fn lemma_partial_none(orig: Seq<bool>, ram: Seq<u8>, index: u16, xs: u8, ys: u8)
    ensures
        partial_screen(orig, ram, index, xs, ys, 0, 0) == orig,
        !partial_flip(orig, ram, index, xs, ys, 0, 0),
{
    assert forall|p: int| 0 <= p < orig.len() implies !(#[trigger] covers_upto(
        ram,
        index,
        xs,
        ys,
        0,
        0,
        p % (SCREEN_WIDTH as int),
        p / (SCREEN_WIDTH as int),
    )) by {
        lemma_covers_none(
            ram,
            index,
            xs,
            ys,
            p % (SCREEN_WIDTH as int),
            p / (SCREEN_WIDTH as int),
        );
    }
    assert(partial_screen(orig, ram, index, xs, ys, 0, 0) =~= orig);
}

/// Processing a clear bit changes nothing.
pub(crate) proof fn lemma_partial_step_clear(
    orig: Seq<bool>,
    ram: Seq<u8>,
    index: u16,
    xs: u8,
    ys: u8,
    j: int,
    i: int,
)
    requires
        0 <= j,
        0 <= i < 8,
        !sprite_bit(ram[index + j], i),
    ensures
        partial_screen(orig, ram, index, xs, ys, j, i + 1) == partial_screen(
            orig,
            ram,
            index,
            xs,
            ys,
            j,
            i,
        ),
        partial_flip(orig, ram, index, xs, ys, j, i + 1) == partial_flip(
            orig,
            ram,
            index,
            xs,
            ys,
            j,
            i,
        ),
{
    assert forall|px: int, py: int|
        #[trigger] covers_upto(ram, index, xs, ys, j, i + 1, px, py) == covers_upto(
            ram,
            index,
            xs,
            ys,
            j,
            i,
            px,
            py,
        ) by {
        lemma_covers_step(ram, index, xs, ys, j, i, px, py);
    }
    assert(partial_screen(orig, ram, index, xs, ys, j, i + 1) =~= partial_screen(
        orig,
        ram,
        index,
        xs,
        ys,
        j,
        i,
    ));
}

/// Processing a set bit toggles exactly the pixel of that bit, a pixel
/// no earlier bit of the sprite touched, and records a toggle of a lit
/// pixel if the prior display was lit there.
pub(crate) proof fn lemma_partial_step_set(
    orig: Seq<bool>,
    ram: Seq<u8>,
    index: u16,
    xs: u8,
    ys: u8,
    j: int,
    i: int,
)
    requires
        0 <= j < 32,
        0 <= i < 8,
        orig.len() == SCREEN_WIDTH * SCREEN_HEIGHT,
        sprite_bit(ram[index + j], i),
    ensures
        ({
            let xx = (xs + i) % (SCREEN_WIDTH as int);
            let yy = (ys + j) % (SCREEN_HEIGHT as int);
            let idx = yy * (SCREEN_WIDTH as int) + xx;
            let before = partial_screen(orig, ram, index, xs, ys, j, i);
            &&& 0 <= idx < orig.len()
            &&& before[idx] == orig[idx]
            &&& partial_screen(orig, ram, index, xs, ys, j, i + 1) == before.update(
                idx,
                !before[idx],
            )
            &&& partial_flip(orig, ram, index, xs, ys, j, i + 1) == (partial_flip(
                orig,
                ram,
                index,
                xs,
                ys,
                j,
                i,
            ) || orig[idx])
        }),
{
    let wd = SCREEN_WIDTH as int;
    let xx = (xs + i) % wd;
    let yy = (ys + j) % (SCREEN_HEIGHT as int);
    let idx = yy * wd + xx;
    let before = partial_screen(orig, ram, index, xs, ys, j, i);
    let after = partial_screen(orig, ram, index, xs, ys, j, i + 1);
    assert(0 <= xx < wd && 0 <= yy < SCREEN_HEIGHT);
    assert(0 <= idx < orig.len()) by (nonlinear_arith)
        requires
            0 <= xx < wd,
            0 <= yy < SCREEN_HEIGHT,
            idx == yy * wd + xx,
            wd == SCREEN_WIDTH,
            orig.len() == SCREEN_WIDTH * SCREEN_HEIGHT,
    ;
    assert(idx % wd == xx && idx / wd == yy) by (nonlinear_arith)
        requires
            0 <= xx < wd,
            0 <= yy,
            wd == 64,
            idx == yy * wd + xx,
    ;
    lemma_covers_fresh(ram, index, xs, ys, j, i);
    assert(before[idx] == orig[idx]);
    assert forall|p: int| 0 <= p < orig.len() implies #[trigger] covers_upto(
        ram,
        index,
        xs,
        ys,
        j,
        i + 1,
        p % wd,
        p / wd,
    ) == (covers_upto(ram, index, xs, ys, j, i, p % wd, p / wd) || p == idx) by {
        lemma_covers_step(ram, index, xs, ys, j, i, p % wd, p / wd);
        lemma_fundamental_div_mod(p, wd);
        assert(p % wd == xx && p / wd == yy ==> p == idx);
    }
    assert(after =~= before.update(idx, !before[idx]));
    if partial_flip(orig, ram, index, xs, ys, j, i + 1) {
        let p = choose|p: int|
            0 <= p < orig.len() && #[trigger] orig[p] && covers_upto(
                ram,
                index,
                xs,
                ys,
                j,
                i + 1,
                p % wd,
                p / wd,
            );
        if p == idx {
            assert(orig[idx]);
        } else {
            assert(partial_flip(orig, ram, index, xs, ys, j, i));
        }
    }
    if partial_flip(orig, ram, index, xs, ys, j, i) {
        let p = choose|p: int|
            0 <= p < orig.len() && #[trigger] orig[p] && covers_upto(
                ram,
                index,
                xs,
                ys,
                j,
                i,
                p % wd,
                p / wd,
            );
        assert(covers_upto(ram, index, xs, ys, j, i + 1, p % wd, p / wd));
        assert(partial_flip(orig, ram, index, xs, ys, j, i + 1));
    }
    if orig[idx] {
        assert(covers_upto(ram, index, xs, ys, j, i + 1, xx, yy));
        assert(partial_flip(orig, ram, index, xs, ys, j, i + 1));
    }
}

/// Finishing a row leaves the loop at the start of the next row.
pub(crate) proof fn lemma_partial_row_done(
    orig: Seq<bool>,
    ram: Seq<u8>,
    index: u16,
    xs: u8,
    ys: u8,
    j: int,
)
    requires
        0 <= j,
    ensures
        partial_screen(orig, ram, index, xs, ys, j, 8) == partial_screen(
            orig,
            ram,
            index,
            xs,
            ys,
            j + 1,
            0,
        ),
        partial_flip(orig, ram, index, xs, ys, j, 8) == partial_flip(
            orig,
            ram,
            index,
            xs,
            ys,
            j + 1,
            0,
        ),
{
    assert forall|px: int, py: int|
        #[trigger] covers_upto(ram, index, xs, ys, j, 8, px, py) == covers_upto(
            ram,
            index,
            xs,
            ys,
            j + 1,
            0,
            px,
            py,
        ) by {
        lemma_covers_row_done(ram, index, xs, ys, j, px, py);
    }
    assert(partial_screen(orig, ram, index, xs, ys, j, 8) =~= partial_screen(
        orig,
        ram,
        index,
        xs,
        ys,
        j + 1,
        0,
    ));
}

/// Once every row is processed, the loop's display is the drawn display
/// and its toggle record is the collision condition.
pub(crate) proof fn lemma_partial_full(
    orig: Seq<bool>,
    ram: Seq<u8>,
    index: u16,
    xs: u8,
    ys: u8,
    n: u16,
)
    ensures
        partial_screen(orig, ram, index, xs, ys, n as int, 0) == draw_screen(
            orig,
            ram,
            index,
            xs,
            ys,
            n,
        ),
        partial_flip(orig, ram, index, xs, ys, n as int, 0) == draw_collides(
            orig,
            ram,
            index,
            xs,
            ys,
            n,
        ),
{
    assert forall|px: int, py: int|
        #[trigger] covers_upto(ram, index, xs, ys, n as int, 0, px, py) == sprite_covers(
            ram,
            index,
            xs,
            ys,
            n,
            px,
            py,
        ) by {
        lemma_covers_full(ram, index, xs, ys, n, px, py);
    }
    assert(partial_screen(orig, ram, index, xs, ys, n as int, 0) =~= draw_screen(
        orig,
        ram,
        index,
        xs,
        ys,
        n,
    ));
}

} // verus!
