//! The board: a dense row-major grid of cell states with toroidal edges,
//! its construction, generation stepping, comparison and rendering.

use vstd::prelude::*;
use vstd::pervasive::VecAdditionalExecFns;
use vstd::arithmetic::div_mod::{lemma_mod_self_0, lemma_mod_sub_multiples_vanish, lemma_small_mod};

verus! {

/// The logical state of a single cell in one generation.
#[derive(Clone, Copy, PartialEq, Eq, Structural)]
pub enum State {
    Alive,
    Dead,
}

/// A rectangular Life grid. `data` holds `width * height` cell states in
/// row-major order: the cell at column `x`, row `y` sits at `y * width + x`.
pub struct Board {
    pub width: usize,
    pub height: usize,
    pub data: Vec<State>,
}

/// The column or row one step before `v` on an axis of extent `n`, wrapping
/// from 0 to `n - 1`. Verus's `%` on `int` is Euclidean, so the result is
/// never negative.
pub open spec fn wrap_dec(v: int, n: int) -> int
    recommends
        0 < n,
{
    (v - 1) % n
}

/// The column or row one step past `v` on an axis of extent `n`, wrapping
/// from `n - 1` back to 0.
pub open spec fn wrap_inc(v: int, n: int) -> int
    recommends
        0 < n,
{
    (v + 1) % n
}

/// The standard Life transition: an Alive cell survives exactly on 2 or 3
/// alive neighbours (dying of under- or overpopulation otherwise), and a Dead
/// cell is born exactly on 3.
pub open spec fn life_rule(s: State, n: int) -> State {
    if s is Alive {
        if 2 <= n && n <= 3 {
            State::Alive
        } else {
            State::Dead
        }
    } else {
        if n == 3 {
            State::Alive
        } else {
            State::Dead
        }
    }
}

/// The byte `#`, rendering an Alive cell.
pub const GLYPH_ALIVE: u8 = 35;

/// The byte for a space, rendering a Dead cell.
pub const GLYPH_SPACE: u8 = 32;

/// The byte `+`, a border corner.
pub const GLYPH_CORNER: u8 = 43;

/// The byte `-`, a horizontal border segment.
pub const GLYPH_DASH: u8 = 45;

/// The byte `|`, a vertical border segment.
pub const GLYPH_PIPE: u8 = 124;

/// The line-break byte ending each rendered line.
pub const GLYPH_NEWLINE: u8 = 10;

/// The glyph a cell renders as: `#` for Alive, a space for Dead.
pub open spec fn glyph(s: State) -> u8 {
    if s is Alive {
        GLYPH_ALIVE
    } else {
        GLYPH_SPACE
    }
}

/// One border line of the rendered grid: `+`, one `-` per column, `+`, and a
/// line break.
pub open spec fn border_spec(width: int) -> Seq<u8> {
    seq![GLYPH_CORNER] + Seq::new(width as nat, |i: int| GLYPH_DASH) + seq![GLYPH_CORNER, GLYPH_NEWLINE]
}

impl Board {
    /// Well-formedness: the flat sequence covers the whole grid.
    pub open spec fn wf(self) -> bool {
        self.data@.len() == self.width * self.height
    }

    /// The flat row-major position of column `x`, row `y`.
    pub open spec fn idx(self, x: int, y: int) -> int {
        y * self.width + x
    }

    /// The state of the cell at column `x`, row `y`.
    pub open spec fn cell(self, x: int, y: int) -> State
        recommends
            self.wf(),
            0 <= x < self.width,
            0 <= y < self.height,
    {
        self.data@[self.idx(x, y)]
    }

    /// 1 if the cell at column `x`, row `y` is Alive, else 0.
    pub open spec fn alive_ind(self, x: int, y: int) -> int {
        if self.cell(x, y) is Alive {
            1
        } else {
            0
        }
    }

    /// How many of the 8 toroidally adjacent cells of column `x`, row `y` are
    /// Alive: the two horizontal neighbours, the two vertical ones, and the
    /// four diagonal combinations, each axis wrapped independently.
    pub open spec fn neighbor_count(self, x: int, y: int) -> int
        recommends
            self.wf(),
            0 <= x < self.width,
            0 <= y < self.height,
    {
        let w = self.width as int;
        let h = self.height as int;
        self.alive_ind(wrap_inc(x, w), y) + self.alive_ind(wrap_dec(x, w), y)
            + self.alive_ind(x, wrap_inc(y, h)) + self.alive_ind(x, wrap_dec(y, h))
            + self.alive_ind(wrap_inc(x, w), wrap_inc(y, h))
            + self.alive_ind(wrap_inc(x, w), wrap_dec(y, h))
            + self.alive_ind(wrap_dec(x, w), wrap_inc(y, h))
            + self.alive_ind(wrap_dec(x, w), wrap_dec(y, h))
    }

    /// The state the cell at column `x`, row `y` takes in the next generation.
    pub open spec fn next_cell(self, x: int, y: int) -> State
        recommends
            self.wf(),
            0 <= x < self.width,
            0 <= y < self.height,
    {
        life_rule(self.cell(x, y), self.neighbor_count(x, y))
    }

    /// Every cell of the grid is Dead.
    pub open spec fn all_dead(self) -> bool {
        forall|k: int| 0 <= k < self.data@.len() ==> self.data@[k] == State::Dead
    }

    /// Both boards have the same dimensions.
    pub open spec fn same_dims(self, other: Board) -> bool {
        self.width == other.width && self.height == other.height
    }

    /// Every flat position holds the same state in both boards.
    pub open spec fn cells_equal(self, other: Board) -> bool {
        forall|k: int| 0 <= k < self.data@.len() ==> self.data@[k] == other.data@[k]
    }

    /// The glyphs of row `j`, one per column in order.
    pub open spec fn row_glyphs(self, j: int) -> Seq<u8> {
        Seq::new(self.width as nat, |x: int| glyph(self.cell(x, j)))
    }

    /// One rendered line of row `j`: `|`, the row's glyphs, `|`, line break.
    pub open spec fn row_spec(self, j: int) -> Seq<u8> {
        seq![GLYPH_PIPE] + self.row_glyphs(j) + seq![GLYPH_PIPE, GLYPH_NEWLINE]
    }

    /// The rendered lines of rows `0` up to (excluding) `j`, concatenated.
    pub open spec fn rows_spec(self, j: int) -> Seq<u8>
        decreases j,
    {
        if j <= 0 {
            Seq::<u8>::empty()
        } else {
            self.rows_spec(j - 1) + self.row_spec(j - 1)
        }
    }

    /// The whole rendered grid: a border, every row in order, a border. Each
    /// cell appears as exactly one glyph at a fixed position, so the
    /// Alive/Dead state of every cell can be read back unambiguously in
    /// row-major order.
    pub open spec fn render_spec(self) -> Seq<u8> {
        border_spec(self.width as int) + self.rows_spec(self.height as int) + border_spec(
            self.width as int,
        )
    }

    /// Builds a `width` by `height` board. Mode 0 yields the all-dead board;
    /// any other mode draws each cell independently from a fair coin. A zero
    /// dimension yields a degenerate but valid empty board.
    pub fn build(width: usize, height: usize, board_type: u8) -> (board: Board)
        requires
            width * height <= usize::MAX,
        ensures
            board.wf(),
            board.width == width,
            board.height == height,
            board_type == 0 ==> board.all_dead(),
    {
        let data = vec![State::Dead; width * height];
        let mut board = Board { width, height, data };
        if board_type == 0 {
            board.init_dead_state();
        } else {
            board.init_random_state();
        }
        board
    }

    /// Overwrites every cell with Dead.
    pub fn init_dead_state(&mut self)
        requires
            old(self).wf(),
        ensures
            final(self).wf(),
            final(self).width == old(self).width,
            final(self).height == old(self).height,
            final(self).all_dead(),
    {
        let mut k: usize = 0;
        let n = self.data.len();
        while k < n
            invariant
                self.wf(),
                self.width == old(self).width,
                self.height == old(self).height,
                n == self.data.len(),
                k <= n,
                forall|m: int| 0 <= m < k ==> self.data@[m] == State::Dead,
            decreases n - k,
        {
            self.data.set(k, State::Dead);
            k = k + 1;
        }
    }

    /// Overwrites every cell with an independent fair coin flip: a `true`
    /// draw maps to Dead, a `false` draw to Alive.
    fn init_random_state(&mut self)
        requires
            old(self).wf(),
        ensures
            final(self).wf(),
            final(self).width == old(self).width,
            final(self).height == old(self).height,
    {
        let mut k: usize = 0;
        let n = self.data.len();
        while k < n
            invariant
                self.wf(),
                self.width == old(self).width,
                self.height == old(self).height,
                n == self.data.len(),
                k <= n,
            decreases n - k,
        {
            if coin_flip() {
                self.data.set(k, State::Dead);
            } else {
                self.data.set(k, State::Alive);
            }
            k = k + 1;
        }
    }

    /// Advances the board one generation: a fresh all-dead board of the same
    /// dimensions is allocated and every cell of it is set from this board's
    /// cell states and neighbour counts, so all reads see one consistent
    /// snapshot of the previous generation. This board is left unchanged.
    pub fn next_board_state(&self) -> (r: Board)
        requires
            self.wf(),
        ensures
            r.wf(),
            r.width == self.width,
            r.height == self.height,
            forall|x: int, y: int|
                0 <= x < self.width && 0 <= y < self.height ==> r.cell(x, y) == self.next_cell(
                    x,
                    y,
                ),
    {
        let n = self.data.len();
        let mut new_state = Board::build(self.width, self.height, 0);
        proof {
            assert forall|x: int, y: int|
                0 <= x < self.width && 0 <= y < self.height implies new_state.cell(x, y)
                == State::Dead by {
                lemma_idx_in_range(self.width as int, self.height as int, x, y);
            }
        }
        let mut i: usize = 0;
        while i < self.width
            invariant
                self.wf(),
                new_state.wf(),
                new_state.width == self.width,
                new_state.height == self.height,
                n == self.data.len(),
                i <= self.width,
                forall|x: int, y: int|
                    0 <= x < self.width && 0 <= y < self.height && x < i
                        ==> new_state.cell(x, y) == self.next_cell(x, y),
                forall|x: int, y: int|
                    0 <= x < self.width && 0 <= y < self.height && x >= i
                        ==> new_state.cell(x, y) == State::Dead,
            decreases self.width - i,
        {
            let mut j: usize = 0;
            while j < self.height
                invariant
                    self.wf(),
                    new_state.wf(),
                    new_state.width == self.width,
                    new_state.height == self.height,
                    n == self.data.len(),
                    i < self.width,
                    j <= self.height,
                    forall|x: int, y: int|
                        0 <= x < self.width && 0 <= y < self.height && (x < i || (x == i && y < j))
                            ==> new_state.cell(x, y) == self.next_cell(x, y),
                    forall|x: int, y: int|
                        0 <= x < self.width && 0 <= y < self.height && (x > i || (x == i && y >= j))
                            ==> new_state.cell(x, y) == State::Dead,
                decreases self.height - j,
            {
                let alive = self.num_alive_neighbours(i, j);
                proof {
                    lemma_idx_in_range(self.width as int, self.height as int, i as int, j as int);
                }
                let coord = j * self.width + i;
                let ghost before = new_state;
                let cur = self.cell_at(i, j);
                if cur == State::Alive && alive <= 1 {
                    new_state.data.set(coord, State::Dead);
                } else if cur == State::Alive && alive <= 3 {
                    new_state.data.set(coord, State::Alive);
                } else if cur == State::Alive && alive > 3 {
                    new_state.data.set(coord, State::Dead);
                } else if cur == State::Dead && alive == 3 {
                    new_state.data.set(coord, State::Alive);
                }
                proof {
                    assert forall|x: int, y: int|
                        0 <= x < self.width && 0 <= y < self.height && !(x == i && y == j)
                        implies new_state.cell(x, y) == before.cell(x, y) by {
                        lemma_idx_in_range(self.width as int, self.height as int, x, y);
                        lemma_idx_injective(self.width as int, x, y, i as int, j as int);
                    }
                    assert(new_state.cell(i as int, j as int) == self.next_cell(
                        i as int,
                        j as int,
                    ));
                }
                j = j + 1;
            }
            i = i + 1;
        }
        new_state
    }

    /// Compares the two boards' cell states position by position, ignoring
    /// nothing but the order in which they were written: true iff every
    /// row-major position holds the same state in both.
    pub fn compare_boards(&self, other: &Board) -> (r: bool)
        requires
            self.wf(),
            other.wf(),
            self.width == other.width,
            self.height == other.height,
        ensures
            r == self.cells_equal(*other),
    {
        let n = self.data.len();
        let mut k: usize = 0;
        while k < n
            invariant
                self.wf(),
                other.wf(),
                self.same_dims(*other),
                n == self.data.len(),
                n == other.data.len(),
                k <= n,
                forall|m: int| 0 <= m < k ==> self.data@[m] == other.data@[m],
            decreases n - k,
        {
            if self.data[k] != other.data[k] {
                assert(!self.cells_equal(*other));
                return false;
            }
            k = k + 1;
        }
        true
    }

    /// Reads the state of the cell at column `x`, row `y`.
    pub fn cell_at(&self, x: usize, y: usize) -> (s: State)
        requires
            self.wf(),
            x < self.width,
            y < self.height,
        ensures
            s == self.cell(x as int, y as int),
    {
        // binds the length so the flat position is known to fit in usize
        let n = self.data.len();
        proof {
            lemma_idx_in_range(self.width as int, self.height as int, x as int, y as int);
            assert(y * self.width + x < n);
        }
        self.data[y * self.width + x]
    }

    /// Counts the Alive cells among the 8 toroidally adjacent cells of
    /// column `x`, row `y`: the two horizontal neighbours on row `y`, the two
    /// vertical neighbours on column `x`, and the four diagonal corners.
    pub fn num_alive_neighbours(&self, x: usize, y: usize) -> (count: u8)
        requires
            self.wf(),
            x < self.width,
            y < self.height,
        ensures
            count == self.neighbor_count(x as int, y as int),
            count <= 8,
    {
        let arr_x = self.get_horizontals(x);
        let arr_y = self.get_verticals(y);
        let mut count: u8 = 0;
        if self.cell_at(arr_x[0], y) == State::Alive {
            count = count + 1;
        }
        if self.cell_at(arr_x[1], y) == State::Alive {
            count = count + 1;
        }
        if self.cell_at(x, arr_y[0]) == State::Alive {
            count = count + 1;
        }
        if self.cell_at(x, arr_y[1]) == State::Alive {
            count = count + 1;
        }
        if self.cell_at(arr_x[0], arr_y[0]) == State::Alive {
            count = count + 1;
        }
        if self.cell_at(arr_x[0], arr_y[1]) == State::Alive {
            count = count + 1;
        }
        if self.cell_at(arr_x[1], arr_y[0]) == State::Alive {
            count = count + 1;
        }
        if self.cell_at(arr_x[1], arr_y[1]) == State::Alive {
            count = count + 1;
        }
        count
    }

    /// Renders the board as the bordered byte grid of `render_spec`: one
    /// line per row between two border lines, `#` for Alive, a space for
    /// Dead.
    pub fn render(&self) -> (r: Vec<u8>)
        requires
            self.wf(),
        ensures
            r@ == self.render_spec(),
    {
        let mut out: Vec<u8> = Vec::new();
        self.push_border(&mut out);
        proof {
            assert(out@ =~= border_spec(self.width as int) + self.rows_spec(0));
        }
        let mut j: usize = 0;
        while j < self.height
            invariant
                self.wf(),
                j <= self.height,
                out@ == border_spec(self.width as int) + self.rows_spec(j as int),
            decreases self.height - j,
        {
            self.push_row(j, &mut out);
            proof {
                assert(out@ =~= border_spec(self.width as int) + self.rows_spec(j + 1));
            }
            j = j + 1;
        }
        self.push_border(&mut out);
        proof {
            assert(out@ =~= self.render_spec());
        }
        out
    }

    /// Appends one border line to `out`.
    fn push_border(&self, out: &mut Vec<u8>)
        ensures
            final(out)@ == old(out)@ + border_spec(self.width as int),
    {
        out.push(GLYPH_CORNER);
        let mut i: usize = 0;
        while i < self.width
            invariant
                i <= self.width,
                out@ == old(out)@ + seq![GLYPH_CORNER] + Seq::new(i as nat, |k: int| GLYPH_DASH),
            decreases self.width - i,
        {
            out.push(GLYPH_DASH);
            proof {
                assert(out@ =~= old(out)@ + seq![GLYPH_CORNER] + Seq::new((i + 1) as nat, |k: int| GLYPH_DASH));
            }
            i = i + 1;
        }
        out.push(GLYPH_CORNER);
        out.push(GLYPH_NEWLINE);
        proof {
            assert(out@ =~= old(out)@ + border_spec(self.width as int));
        }
    }

    /// Appends the rendered line of row `j` to `out`.
    fn push_row(&self, j: usize, out: &mut Vec<u8>)
        requires
            self.wf(),
            j < self.height,
        ensures
            final(out)@ == old(out)@ + self.row_spec(j as int),
    {
        out.push(GLYPH_PIPE);
        let mut i: usize = 0;
        while i < self.width
            invariant
                self.wf(),
                j < self.height,
                i <= self.width,
                out@ == old(out)@ + seq![GLYPH_PIPE] + self.row_glyphs(j as int).take(i as int),
            decreases self.width - i,
        {
            if self.cell_at(i, j) == State::Alive {
                out.push(GLYPH_ALIVE);
            } else {
                out.push(GLYPH_SPACE);
            }
            proof {
                assert(out@ =~= old(out)@ + seq![GLYPH_PIPE] + self.row_glyphs(j as int).take(
                    i + 1,
                ));
            }
            i = i + 1;
        }
        out.push(GLYPH_PIPE);
        out.push(GLYPH_NEWLINE);
        proof {
            assert(self.row_glyphs(j as int).take(self.width as int) =~= self.row_glyphs(
                j as int,
            ));
            assert(out@ =~= old(out)@ + self.row_spec(j as int));
        }
    }

    /// The two columns horizontally adjacent to column `x` under wrap:
    /// `[right, left]`, each the Euclidean remainder of `x ± 1` by `width`.
    pub fn get_horizontals(&self, x: usize) -> (r: [usize; 2])
        requires
            x < self.width,
        ensures
            r[0] == wrap_inc(x as int, self.width as int),
            r[1] == wrap_dec(x as int, self.width as int),
            r[0] < self.width,
            r[1] < self.width,
    {
        let w = self.width;
        let cx1 = if x + 1 == w { 0 } else { x + 1 };
        let cx2 = if x == 0 { w - 1 } else { x - 1 };
        proof {
            lemma_wrap_values(x as int, w as int);
        }
        [cx1, cx2]
    }

    /// The two rows vertically adjacent to row `y` under wrap:
    /// `[below, above]`, each the Euclidean remainder of `y ± 1` by `height`.
    pub fn get_verticals(&self, y: usize) -> (r: [usize; 2])
        requires
            y < self.height,
        ensures
            r[0] == wrap_inc(y as int, self.height as int),
            r[1] == wrap_dec(y as int, self.height as int),
            r[0] < self.height,
            r[1] < self.height,
    {
        let h = self.height;
        let cy1 = if y + 1 == h { 0 } else { y + 1 };
        let cy2 = if y == 0 { h - 1 } else { y - 1 };
        proof {
            lemma_wrap_values(y as int, h as int);
        }
        [cy1, cy2]
    }
}

/// The row-major position of an in-range column `x` and row `y` lies inside
/// a `w` by `h` grid's flat sequence.
pub proof fn lemma_idx_in_range(w: int, h: int, x: int, y: int)
    requires
        0 <= x < w,
        0 <= y < h,
    ensures
        0 <= y * w + x < w * h,
{
    assert(0 <= y * w + x < w * h) by (nonlinear_arith)
        requires
            0 <= x < w,
            0 <= y < h,
    ;
}

/// Row-major positions are injective: two in-range columns with any rows
/// flatten to the same position only if both coordinates agree.
pub proof fn lemma_idx_injective(w: int, x1: int, y1: int, x2: int, y2: int)
    requires
        0 <= x1 < w,
        0 <= x2 < w,
        0 <= y1,
        0 <= y2,
    ensures
        y1 * w + x1 == y2 * w + x2 ==> x1 == x2 && y1 == y2,
{
    assert(y1 * w + x1 == y2 * w + x2 ==> x1 == x2 && y1 == y2) by (nonlinear_arith)
        requires
            0 <= x1 < w,
            0 <= x2 < w,
            0 <= y1,
            0 <= y2,
    ;
}

/// On an axis of extent `n`, stepping from an in-range position `v` wraps
/// exactly as the branch-free picture says: one step up lands on `v + 1`, or
/// on 0 from the top; one step down lands on `v - 1`, or on `n - 1` from 0.
pub proof fn lemma_wrap_values(v: int, n: int)
    requires
        0 <= v < n,
    ensures
        wrap_inc(v, n) == if v + 1 == n { 0int } else { v + 1 },
        wrap_dec(v, n) == if v == 0 { n - 1 } else { v - 1 },
        0 <= wrap_inc(v, n) < n,
        0 <= wrap_dec(v, n) < n,
{
    if v + 1 == n {
        lemma_mod_self_0(n);
    } else {
        lemma_small_mod((v + 1) as nat, n as nat);
    }
    if v == 0 {
        lemma_mod_sub_multiples_vanish(n - 1, n);
        lemma_small_mod((n - 1) as nat, n as nat);
    } else {
        lemma_small_mod((v - 1) as nat, n as nat);
    }
}

/// Relies on rand::random::<bool>: one draw from the thread-local generator,
/// each outcome with probability 1/2. Nothing is assumed of the result.
#[verifier::external_body]
fn coin_flip() -> bool {
    rand::random()
}

} // verus!
