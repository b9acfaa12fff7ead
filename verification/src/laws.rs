//! Grid-wide laws of the Life step, the wrap arithmetic and board
//! comparison, stated over the same spec functions that the executable
//! functions' contracts use.

use vstd::prelude::*;
use crate::board::{Board, State, border_spec, glyph, lemma_idx_in_range, lemma_wrap_values};

verus! {

/// Every cell of an all-dead board is counted as 0, wherever it is read.
proof fn lemma_alive_ind_zero_when_dead(b: Board, x: int, y: int)
    requires
        b.wf(),
        b.all_dead(),
        0 <= x < b.width,
        0 <= y < b.height,
    ensures
        b.alive_ind(x, y) == 0,
{
    lemma_idx_in_range(b.width as int, b.height as int, x, y);
}

/// The all-dead board is a fixed point of the Life step: with every cell
/// Dead, no cell has 3 alive neighbours, so no cell is born and every cell
/// of the next generation is Dead again.
pub proof fn lemma_all_dead_fixed_point(b: Board)
    requires
        b.wf(),
        b.all_dead(),
    ensures
        forall|x: int, y: int|
            0 <= x < b.width && 0 <= y < b.height ==> b.next_cell(x, y) == State::Dead,
{
    let w = b.width as int;
    let h = b.height as int;
    assert forall|x: int, y: int|
        0 <= x < b.width && 0 <= y < b.height implies b.next_cell(x, y) == State::Dead by {
        lemma_wrap_values(x, w);
        lemma_wrap_values(y, h);
        lemma_alive_ind_zero_when_dead(b, crate::board::wrap_inc(x, w), y);
        lemma_alive_ind_zero_when_dead(b, crate::board::wrap_dec(x, w), y);
        lemma_alive_ind_zero_when_dead(b, x, crate::board::wrap_inc(y, h));
        lemma_alive_ind_zero_when_dead(b, x, crate::board::wrap_dec(y, h));
        lemma_alive_ind_zero_when_dead(
            b,
            crate::board::wrap_inc(x, w),
            crate::board::wrap_inc(y, h),
        );
        lemma_alive_ind_zero_when_dead(
            b,
            crate::board::wrap_inc(x, w),
            crate::board::wrap_dec(y, h),
        );
        lemma_alive_ind_zero_when_dead(
            b,
            crate::board::wrap_dec(x, w),
            crate::board::wrap_inc(y, h),
        );
        lemma_alive_ind_zero_when_dead(
            b,
            crate::board::wrap_dec(x, w),
            crate::board::wrap_dec(y, h),
        );
        assert(b.neighbor_count(x, y) == 0);
        lemma_idx_in_range(w, h, x, y);
        assert(b.cell(x, y) == State::Dead);
    }
}

/// The wrap is correct at the grid's corner: the top-left cell's neighbour
/// count reads exactly the wrapped neighbourhood, counting the bottom-right
/// cell as its diagonal neighbour, the top-right cell as its horizontal
/// neighbour and the bottom-left cell as its vertical neighbour.
pub proof fn lemma_wrap_correctness(b: Board)
    requires
        b.wf(),
        b.width >= 2,
        b.height >= 2,
    ensures
        b.neighbor_count(0, 0) == b.alive_ind(b.width - 1, b.height - 1) + b.alive_ind(
            b.width - 1,
            0,
        ) + b.alive_ind(0, b.height - 1) + b.alive_ind(1, 0) + b.alive_ind(0, 1) + b.alive_ind(
            1,
            1,
        ) + b.alive_ind(b.width - 1, 1) + b.alive_ind(1, b.height - 1),
{
    let w = b.width as int;
    let h = b.height as int;
    lemma_wrap_values(0, w);
    lemma_wrap_values(0, h);
    assert(crate::board::wrap_inc(0, w) == 1);
    assert(crate::board::wrap_dec(0, w) == w - 1);
    assert(crate::board::wrap_inc(0, h) == 1);
    assert(crate::board::wrap_dec(0, h) == h - 1);
}

/// Every neighbour count lies between 0 and 8: each of the 8 adjacent cells
/// contributes either 0 or 1.
pub proof fn lemma_neighbor_count_range(b: Board, x: int, y: int)
    ensures
        0 <= b.neighbor_count(x, y) <= 8,
{
}

/// Building all-dead is deterministic: any two all-dead boards of the same
/// dimensions hold the same state at every position, so comparing them
/// yields true.
pub proof fn lemma_all_dead_build_deterministic(a: Board, b: Board)
    requires
        a.wf(),
        b.wf(),
        a.same_dims(b),
        a.all_dead(),
        b.all_dead(),
    ensures
        a.cells_equal(b),
{
}

/// Comparison is reflexive: every board holds the same states as itself, so
/// comparing a board against itself yields true.
pub proof fn lemma_compare_self(b: Board)
    ensures
        b.cells_equal(b),
{
}

/// The first `j` rendered rows take `j * (width + 3)` bytes: each row is a
/// pipe, one glyph per column, a pipe and a line break.
proof fn lemma_rows_len(b: Board, j: int)
    requires
        0 <= j,
    ensures
        b.rows_spec(j).len() == j * (b.width + 3),
    decreases j,
{
    if j > 0 {
        lemma_rows_len(b, j - 1);
        assert((j - 1) * (b.width + 3) + (b.width + 3) == j * (b.width + 3)) by (nonlinear_arith);
    }
}

/// Within the concatenation of the first `m` rendered rows, the byte at
/// offset `i + 1` of row `j`'s line is the glyph of the cell at column `i`,
/// row `j`.
proof fn lemma_rows_index(b: Board, m: int, j: int, i: int)
    requires
        0 <= i < b.width,
        0 <= j < m,
    ensures
        b.rows_spec(m).len() == m * (b.width + 3),
        b.rows_spec(m)[j * (b.width + 3) + 1 + i] == glyph(b.cell(i, j)),
    decreases m,
{
    let l = b.width + 3;
    lemma_rows_len(b, m);
    lemma_rows_len(b, m - 1);
    if j == m - 1 {
        assert(b.rows_spec(m)[j * l + 1 + i] == b.row_spec(j)[1 + i]);
        assert(b.row_spec(j)[1 + i] == b.row_glyphs(j)[i]);
    } else {
        lemma_rows_index(b, m - 1, j, i);
        assert(0 <= j * l && j * l + 1 + i < (m - 1) * l) by (nonlinear_arith)
            requires
                0 <= j,
                j < m - 1,
                0 <= i,
                i + 3 < l,
        ;
    }
}

/// The rendering is unambiguous: the byte at offset `i + 1` of rendered
/// line `j + 1` is the glyph of the cell at column `i`, row `j`, and the
/// Alive and Dead glyphs differ, so the state of every cell can be read
/// back from the rendered grid in row-major order.
pub proof fn lemma_render_readback(b: Board, i: int, j: int)
    requires
        b.wf(),
        0 <= i < b.width,
        0 <= j < b.height,
    ensures
        b.render_spec()[(j + 1) * (b.width + 3) + 1 + i] == glyph(b.cell(i, j)),
        glyph(State::Alive) != glyph(State::Dead),
{
    let l = b.width + 3;
    let h = b.height as int;
    lemma_rows_index(b, h, j, i);
    assert(border_spec(b.width as int).len() == l);
    assert((j + 1) * l == j * l + l && 0 <= j * l && j * l + 1 + i < h * l) by (nonlinear_arith)
        requires
            0 <= j,
            j < h,
            0 <= i,
            i + 3 < l,
    ;
    assert(b.render_spec()[(j + 1) * l + 1 + i] == b.rows_spec(h)[j * l + 1 + i]);
}

} // verus!
