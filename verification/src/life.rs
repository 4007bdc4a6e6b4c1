//! A cellular automaton grid: cells live and die by how many of their
//! already-visited neighbours — the one to the left, the one above, and the
//! one diagonally up-left — are alive when the generation ticks over.

use vstd::prelude::*;

verus! {

/// The grid's dimensions are rounded up to a multiple of this when it grows.
pub const SCALE: usize = 14;

/// One cell: alive or dead.
#[derive(Clone, Copy, PartialEq, Eq, Structural, Debug)]
pub struct Cell(pub bool);

/// Whether a cell is alive in the next generation, from its own state and
/// its neighbour count.
pub open spec fn next_state(alive: bool, nbors: int) -> bool {
    if alive {
        2 <= nbors && nbors <= 3
    } else {
        nbors == 3
    }
}

impl Cell {
    /// Kill the cell.
    pub fn kill(&mut self)
        ensures
            !final(self).0,
    {
        self.0 = false;
    }

    /// Whether the cell is alive.
    pub fn alive(self) -> (r: bool)
        ensures
            r == self.0,
    {
        self.0
    }

    /// Whether the cell is dead; the neighbour count plays no part.
    pub fn dead(self, nbors: usize) -> (r: bool)
        ensures
            r == !self.0,
    {
        !self.alive()
    }

    /// The cell's state in the next generation, given its neighbour count.
    pub fn next(self, nbors: usize) -> (r: Cell)
        ensures
            r.0 == next_state(self.0, nbors as int),
    {
        Cell(
            if self.alive() {
                nbors >= 2 && nbors <= 3
            } else {
                nbors == 3
            },
        )
    }
}

/// Whether the cell at position (x, y) of a row-major buffer is alive.
pub open spec fn live_at(cells: Seq<Cell>, w: int, x: int, y: int) -> bool {
    cells[y * w + x].0
}

/// How many of a cell's already-visited neighbours — left, above, and
/// diagonally up-left — are alive.
pub open spec fn nbor_count(cells: Seq<Cell>, w: int, x: int, y: int) -> int {
    (if x > 0 && y > 0 && live_at(cells, w, x - 1, y - 1) {
        1int
    } else {
        0int
    }) + (if x > 0 && live_at(cells, w, x - 1, y) {
        1int
    } else {
        0int
    }) + (if y > 0 && live_at(cells, w, x, y - 1) {
        1int
    } else {
        0int
    })
}

/// `n` rounded up to a multiple of the grid's growth scale.
pub open spec fn round_to_scale(n: int) -> int {
    ((n + SCALE - 1) / (SCALE as int)) * (SCALE as int)
}

/// The cell at index `i` of a buffer padded with dead cells past its end.
pub open spec fn padded_at(cells: Seq<Cell>, i: int) -> Cell {
    if 0 <= i < cells.len() {
        cells[i]
    } else {
        Cell(false)
    }
}

/// Whether index `i` is one of the positions a resize pass has already
/// rewritten: row-major position (x, y) with `y < yd`, or `y == yd` and
/// `x < xd`, over rows of width `w` and `xlim` rewritten columns.
pub open spec fn moved_upto(i: int, w: int, xlim: int, yd: int, xd: int) -> bool {
    exists|y: int, x: int|
        0 <= y && 0 <= x < xlim && (y < yd || (y == yd && x < xd)) && i == #[trigger] (y * w + x)
}

/// Relies on macroquad::rand::rand: a pseudo-random word; nothing is
/// promised of its value.
#[verifier::external_body]
fn random_word() -> u32 {
    macroquad::rand::rand()
}

/// A rectangular grid of cells, row-major, with a same-sized scratch buffer
/// for in-place generation steps.
pub struct Grid {
    pub cells: Vec<Cell>,
    pub scratch: Vec<Cell>,
    pub width: usize,
    pub height: usize,
    pub size: usize,
}

/// A dead row-major buffer of the given length.
fn dead_cells(n: usize) -> (r: Vec<Cell>)
    ensures
        r@.len() == n,
        forall|i: int| 0 <= i < n ==> !(#[trigger] r@[i]).0,
{
    let mut r: Vec<Cell> = Vec::new();
    let mut i: usize = 0;
    while i < n
        invariant
            0 <= i <= n,
            r@.len() == i,
            forall|j: int| 0 <= j < i ==> !(#[trigger] r@[j]).0,
        decreases n - i,
    {
        r.push(Cell(false));
        i += 1;
    }
    r
}

/// Distinct in-range grid positions occupy distinct row-major indices, and
/// every in-range position lies inside the buffer.
proof fn lemma_row_major(w: int, h: int, y1: int, x1: int, y2: int, x2: int)
    by (nonlinear_arith)
    requires
        0 <= x1 < w,
        0 <= x2 < w,
        0 <= y1 < h,
        0 <= y2 < h,
    ensures
        y1 * w + x1 < h * w,
        (y1 != y2 || x1 != x2) ==> y1 * w + x1 != y2 * w + x2,
{
}

impl Grid {
    /// Both buffers hold exactly one cell per grid position.
    pub open spec fn wf(self) -> bool {
        &&& self.cells@.len() == self.size
        &&& self.scratch@.len() == self.size
        &&& self.size == self.width * self.height
    }

    /// An all-dead grid of the given dimensions.
    pub fn new(width: usize, height: usize) -> (r: Grid)
        requires
            width * height <= usize::MAX,
        ensures
            r.wf(),
            r.width == width,
            r.height == height,
            r.size == width * height,
            forall|i: int| 0 <= i < r.size ==> !(#[trigger] r.cells@[i]).0,
    {
        let size = width * height;
        Grid { cells: dead_cells(size), scratch: dead_cells(size), width, height, size }
    }

    /// The cell at a row-major index.
    pub fn cell_at(&self, index: usize) -> (r: Cell)
        requires
            self.wf(),
            index < self.size,
        ensures
            r == self.cells@[index as int],
    {
        self.cells[index]
    }

    /// Overwrite the cell at a row-major index.
    pub fn set_cell(&mut self, index: usize, cell: Cell)
        requires
            old(self).wf(),
            index < old(self).size,
        ensures
            final(self).wf(),
            final(self).width == old(self).width,
            final(self).height == old(self).height,
            final(self).size == old(self).size,
            final(self).cells@ == old(self).cells@.update(index as int, cell),
            final(self).scratch == old(self).scratch,
    {
        self.cells[index] = cell;
    }

    /// Set every cell to `with`.
    pub fn fill(&mut self, with: Cell)
        requires
            old(self).wf(),
        ensures
            final(self).wf(),
            final(self).width == old(self).width,
            final(self).height == old(self).height,
            final(self).size == old(self).size,
            final(self).cells@.len() == old(self).cells@.len(),
            forall|i: int| 0 <= i < final(self).cells@.len() ==> final(self).cells@[i] == with,
    {
        let n = self.cells.len();
        let mut i: usize = 0;
        while i < n
            invariant
                0 <= i <= n,
                self.cells@.len() == n,
                self.scratch == old(self).scratch,
                self.width == old(self).width,
                self.height == old(self).height,
                self.size == old(self).size,
                forall|j: int| 0 <= j < i ==> self.cells@[j] == with,
            decreases n - i,
        {
            self.cells[i] = with;
            i += 1;
        }
    }

    /// Flip every cell.
    pub fn invert(&mut self)
        requires
            old(self).wf(),
        ensures
            final(self).wf(),
            final(self).width == old(self).width,
            final(self).height == old(self).height,
            final(self).size == old(self).size,
            final(self).cells@.len() == old(self).cells@.len(),
            forall|i: int|
                0 <= i < final(self).cells@.len() ==> (#[trigger] final(self).cells@[i]).0 == !old(self).cells@[i].0,
    {
        let n = self.cells.len();
        let mut i: usize = 0;
        while i < n
            invariant
                0 <= i <= n,
                self.cells@.len() == n,
                n == old(self).cells@.len(),
                self.scratch == old(self).scratch,
                self.width == old(self).width,
                self.height == old(self).height,
                self.size == old(self).size,
                forall|j: int| 0 <= j < i ==> (#[trigger] self.cells@[j]).0 == !old(self).cells@[j].0,
                forall|j: int| i <= j < n ==> self.cells@[j] == old(self).cells@[j],
            decreases n - i,
        {
            let flipped = Cell(!self.cells[i].0);
            self.cells[i] = flipped;
            i += 1;
        }
    }

    /// Advance the grid one generation: every cell's next state is decided
    /// synchronously from the previous generation, by its own state and its
    /// three already-visited neighbours.
    pub fn tick(&mut self)
        requires
            old(self).wf(),
        ensures
            final(self).wf(),
            final(self).width == old(self).width,
            final(self).height == old(self).height,
            final(self).size == old(self).size,
            forall|y: int, x: int|
                0 <= y < old(self).height && 0 <= x < old(self).width ==> (#[trigger] final(self).cells@[y * old(self).width + x]).0 == next_state(
                    old(self).cells@[y * old(self).width + x].0,
                    nbor_count(old(self).cells@, old(self).width as int, x, y),
                ),
    {
        let w = self.width;
        let h = self.height;
        let ghost w_i = w as int;
        let ghost h_i = h as int;
        let ghost before = self.cells@;
        let mut y: usize = 0;
        while y < h
            invariant
                0 <= y <= h,
                self.wf(),
                w == self.width,
                h == self.height,
                w_i == w as int,
                h_i == h as int,
                self.size == old(self).size,
                self.cells@ == before,
                before == old(self).cells@,
                self.scratch@.len() == self.size,
                forall|yy: int, xx: int|
                    0 <= yy < y && 0 <= xx < w ==> (#[trigger] self.scratch@[yy * w_i + xx]).0
                        == next_state(before[yy * w_i + xx].0, nbor_count(before, w_i, xx, yy)),
            decreases h - y,
        {
            let mut x: usize = 0;
            while x < w
                invariant
                    0 <= y < h,
                    0 <= x <= w,
                    self.wf(),
                    w == self.width,
                    h == self.height,
                    w_i == w as int,
                    h_i == h as int,
                    self.size == old(self).size,
                    self.cells@ == before,
                    before == old(self).cells@,
                    self.scratch@.len() == self.size,
                    forall|yy: int, xx: int|
                        0 <= yy < y && 0 <= xx < w ==> (#[trigger] self.scratch@[yy * w_i + xx]).0
                            == next_state(before[yy * w_i + xx].0, nbor_count(before, w_i, xx, yy)),
                    forall|xx: int|
                        0 <= xx < x ==> (#[trigger] self.scratch@[y * w_i + xx]).0 == next_state(
                            before[y * w_i + xx].0,
                            nbor_count(before, w_i, xx, y as int),
                        ),
                decreases w - x,
            {
                proof {
                    lemma_row_major(w_i, h_i, y as int, x as int, y as int, x as int);
                    if x > 0 {
                        lemma_row_major(w_i, h_i, y as int, x - 1, y as int, x as int);
                    }
                    if y > 0 {
                        lemma_row_major(w_i, h_i, y - 1, x as int, y as int, x as int);
                    }
                    if x > 0 && y > 0 {
                        lemma_row_major(w_i, h_i, y - 1, x - 1, y as int, x as int);
                    }
                }
                let mut nbors: usize = 0;
                if x > 0 && y > 0 && self.cells[(y - 1) * w + (x - 1)].0 {
                    nbors += 1;
                }
                if x > 0 && self.cells[y * w + (x - 1)].0 {
                    nbors += 1;
                }
                if y > 0 && self.cells[(y - 1) * w + x].0 {
                    nbors += 1;
                }
                proof {
                    assert(nbors as int == nbor_count(before, w_i, x as int, y as int));
                }
                let state = self.cells[y * w + x];
                let next = state.next(nbors);
                let ghost old_scratch = self.scratch@;
                self.scratch[y * w + x] = next;
                proof {
                    assert forall|yy: int, xx: int|
                        0 <= yy < y && 0 <= xx < w implies (
                    #[trigger] self.scratch@[yy * w_i + xx]).0 == next_state(
                        before[yy * w_i + xx].0,
                        nbor_count(before, w_i, xx, yy),
                    ) by {
                        lemma_row_major(w_i, h_i, yy, xx, y as int, x as int);
                    }
                    assert forall|xx: int| 0 <= xx < x + 1 implies (
                    #[trigger] self.scratch@[y * w_i + xx]).0 == next_state(
                        before[y * w_i + xx].0,
                        nbor_count(before, w_i, xx, y as int),
                    ) by {
                        if xx < x {
                            lemma_row_major(w_i, h_i, y as int, xx, y as int, x as int);
                        }
                    }
                }
                x += 1;
            }
            y += 1;
        }
        // the finished generation replaces the live one
        let n = self.cells.len();
        let mut i: usize = 0;
        while i < n
            invariant
                0 <= i <= n,
                self.wf(),
                n == self.size,
                w == self.width,
                h == self.height,
                w_i == w as int,
                h_i == h as int,
                self.size == old(self).size,
                forall|j: int| 0 <= j < i ==> self.cells@[j] == self.scratch@[j],
                forall|yy: int, xx: int|
                    0 <= yy < h_i && 0 <= xx < w_i ==> (#[trigger] self.scratch@[yy * w_i + xx]).0
                        == next_state(before[yy * w_i + xx].0, nbor_count(before, w_i, xx, yy)),
            decreases n - i,
        {
            let v = self.scratch[i];
            self.cells[i] = v;
            i += 1;
        }
        proof {
            assert forall|yy: int, xx: int|
                0 <= yy < h_i && 0 <= xx < w_i implies (#[trigger] self.cells@[yy * w_i + xx]).0
                == next_state(before[yy * w_i + xx].0, nbor_count(before, w_i, xx, yy)) by {
                lemma_row_major(w_i, h_i, yy, xx, yy, xx);
            }
        }
    }

    /// Grow the grid so that it covers `new_w` by `new_h` positions. A
    /// request the grid already covers changes nothing. Otherwise both
    /// dimensions are rounded up to the growth scale, the buffers are padded
    /// with dead cells, and each kept row is re-read from where the new
    /// layout places it: the cell at old-layout position (x, y) takes the
    /// padded buffer's value at new-layout position (x, y).
    pub fn resize(&mut self, new_w: usize, new_h: usize)
        requires
            old(self).wf(),
            (new_w > old(self).width || new_h > old(self).height) ==> new_w + SCALE <= usize::MAX
                && new_h + SCALE <= usize::MAX && round_to_scale(new_w as int) <= usize::MAX
                && round_to_scale(new_h as int) <= usize::MAX && round_to_scale(new_w as int)
                * round_to_scale(new_h as int) <= usize::MAX && round_to_scale(new_w as int)
                * round_to_scale(new_h as int) >= old(self).size,
        ensures
            final(self).wf(),
            (new_w <= old(self).width && new_h <= old(self).height) ==> *final(self) == *old(self),
            (new_w > old(self).width || new_h > old(self).height) ==> ({
                let ow = old(self).width as int;
                let oh = old(self).height as int;
                let tw = round_to_scale(new_w as int);
                let th = round_to_scale(new_h as int);
                let ylim = if th < oh {
                    th
                } else {
                    oh
                };
                let xlim = if tw < ow {
                    tw
                } else {
                    ow
                };
                &&& final(self).width == tw
                &&& final(self).height == th
                &&& final(self).size == tw * th
                &&& forall|y: int, x: int|
                    0 <= y < ylim && 0 <= x < xlim ==> final(self).cells@[#[trigger] (y * ow + x)]
                        == padded_at(old(self).cells@, y * tw + x)
                &&& forall|i: int|
                    0 <= i < tw * th && !moved_upto(i, ow, xlim, ylim, 0) ==> final(self).cells@[i]
                        == padded_at(old(self).cells@, i)
            }),
    {
        if new_w <= self.width && new_h <= self.height {
            return;
        }
        let ow = self.width;
        let oh = self.height;
        let osize = self.size;
        let to_width = (new_w + SCALE - 1) / SCALE * SCALE;
        let to_height = (new_h + SCALE - 1) / SCALE * SCALE;
        proof {
            assert(to_width == round_to_scale(new_w as int) && to_height == round_to_scale(
                new_h as int,
            ));
        }
        let to_size = to_width * to_height;
        let ghost before = self.cells@;
        // pad both buffers with dead cells out to the new size
        while self.cells.len() < to_size
            invariant
                osize <= self.cells@.len() <= to_size,
                forall|j: int| 0 <= j < osize ==> self.cells@[j] == before[j],
                forall|j: int| osize <= j < self.cells@.len() ==> self.cells@[j] == (Cell(false)),
                osize == before.len(),
                self.scratch@.len() == osize,
                self.width == ow,
                self.height == oh,
                self.size == osize,
            decreases to_size - self.cells@.len(),
        {
            self.cells.push(Cell(false));
        }
        while self.scratch.len() < to_size
            invariant
                self.scratch@.len() <= to_size,
                self.cells@.len() == to_size,
                forall|j: int| 0 <= j < osize ==> self.cells@[j] == before[j],
                forall|j: int| osize <= j < to_size ==> self.cells@[j] == (Cell(false)),
                osize == before.len(),
                self.width == ow,
                self.height == oh,
                self.size == osize,
            decreases to_size - self.scratch@.len(),
        {
            self.scratch.push(Cell(false));
        }
        proof {
            assert(forall|j: int|
                0 <= j < to_size ==> self.cells@[j] == padded_at(before, j));
        }
        // the scratch buffer takes a copy of the padded cells
        let mut i: usize = 0;
        while i < to_size
            invariant
                0 <= i <= to_size,
                self.cells@.len() == to_size,
                self.scratch@.len() == to_size,
                forall|j: int| 0 <= j < to_size ==> self.cells@[j] == padded_at(before, j),
                forall|j: int| 0 <= j < i ==> self.scratch@[j] == padded_at(before, j),
                osize == before.len(),
                self.width == ow,
                self.height == oh,
                self.size == osize,
            decreases to_size - i,
        {
            let v = self.cells[i];
            self.scratch[i] = v;
            i += 1;
        }
        // move each kept row to where the old layout reads it
        let ylim = if to_height < oh {
            to_height
        } else {
            oh
        };
        let xlim = if to_width < ow {
            to_width
        } else {
            ow
        };
        let ghost ow_i = ow as int;
        let ghost tw_i = to_width as int;
        let mut y: usize = 0;
        while y < ylim
            invariant
                0 <= y <= ylim,
                ylim <= to_height,
                ylim <= oh,
                xlim <= to_width,
                xlim <= ow,
                ow_i == ow as int,
                tw_i == to_width as int,
                osize == ow * oh,
                osize <= to_size,
                to_size == to_width * to_height,
                self.cells@.len() == to_size,
                self.scratch@.len() == to_size,
                forall|j: int| 0 <= j < to_size ==> self.scratch@[j] == padded_at(before, j),
                osize == before.len(),
                self.width == ow,
                self.height == oh,
                self.size == osize,
                forall|yy: int, xx: int|
                    0 <= yy < y && 0 <= xx < xlim ==> self.cells@[#[trigger] (yy * ow_i + xx)]
                        == padded_at(before, yy * tw_i + xx),
                forall|j: int|
                    0 <= j < to_size && !moved_upto(j, ow_i, xlim as int, y as int, 0)
                        ==> self.cells@[j] == padded_at(before, j),
            decreases ylim - y,
        {
            let mut x: usize = 0;
            while x < xlim
                invariant
                    0 <= y < ylim,
                    0 <= x <= xlim,
                    ylim <= to_height,
                    ylim <= oh,
                    xlim <= to_width,
                    xlim <= ow,
                    ow_i == ow as int,
                    tw_i == to_width as int,
                    osize == ow * oh,
                    osize <= to_size,
                    to_size == to_width * to_height,
                    self.cells@.len() == to_size,
                    self.scratch@.len() == to_size,
                    forall|j: int| 0 <= j < to_size ==> self.scratch@[j] == padded_at(before, j),
                    osize == before.len(),
                    self.width == ow,
                    self.height == oh,
                    self.size == osize,
                    forall|yy: int, xx: int|
                        0 <= yy < y && 0 <= xx < xlim ==> self.cells@[#[trigger] (yy * ow_i + xx)]
                            == padded_at(before, yy * tw_i + xx),
                    forall|xx: int|
                        0 <= xx < x ==> self.cells@[#[trigger] (y * ow_i + xx)] == padded_at(
                            before,
                            y * tw_i + xx,
                        ),
                    forall|j: int|
                        0 <= j < to_size && !moved_upto(j, ow_i, xlim as int, y as int, x as int)
                            ==> self.cells@[j] == padded_at(before, j),
                decreases xlim - x,
            {
                proof {
                    lemma_row_major(ow_i, oh as int, y as int, x as int, y as int, x as int);
                    lemma_row_major(tw_i, to_height as int, y as int, x as int, y as int, x as int);
                    assert(y * ow_i + x < osize);
                    assert(y * tw_i + x < to_size);
                }
                let sv = self.scratch[y * to_width + x];
                self.cells[y * ow + x] = sv;
                proof {
                    let wrote = y * ow_i + x;
                    assert forall|yy: int, xx: int|
                        0 <= yy < y && 0 <= xx < xlim implies self.cells@[#[trigger] (yy * ow_i
                        + xx)] == padded_at(before, yy * tw_i + xx) by {
                        lemma_row_major(ow_i, oh as int, yy, xx, y as int, x as int);
                    }
                    assert forall|xx: int| 0 <= xx < x + 1 implies self.cells@[#[trigger] (y
                        * ow_i + xx)] == padded_at(before, y * tw_i + xx) by {
                        if xx < x {
                            lemma_row_major(ow_i, oh as int, y as int, xx, y as int, x as int);
                        }
                    }
                    assert forall|j: int|
                        0 <= j < to_size && !moved_upto(
                            j,
                            ow_i,
                            xlim as int,
                            y as int,
                            x + 1,
                        ) implies self.cells@[j] == padded_at(before, j) by {
                        if moved_upto(j, ow_i, xlim as int, y as int, x as int) {
                            let (yy, xx) = choose|yy: int, xx: int|
                                0 <= yy && 0 <= xx < xlim && (yy < y || (yy == y && xx < x)) && j
                                    == #[trigger] (yy * ow_i + xx);
                            assert(moved_upto(j, ow_i, xlim as int, y as int, x + 1));
                        }
                        if j == wrote {
                            assert((y as int) * ow_i + (x as int) == j);
                            assert(moved_upto(j, ow_i, xlim as int, y as int, x + 1));
                        }
                    }
                }
                x += 1;
            }
            proof {
                assert forall|j: int|
                    0 <= j < to_size && !moved_upto(j, ow_i, xlim as int, y + 1, 0) implies
                    !moved_upto(j, ow_i, xlim as int, y as int, xlim as int) by {
                    if moved_upto(j, ow_i, xlim as int, y as int, xlim as int) {
                        let (yy, xx) = choose|yy: int, xx: int|
                            0 <= yy && 0 <= xx < xlim && (yy < y || (yy == y && xx < xlim)) && j
                                == #[trigger] (yy * ow_i + xx);
                        assert(yy < y + 1 || (yy == y + 1 && xx < 0));
                        assert(moved_upto(j, ow_i, xlim as int, y + 1, 0));
                    }
                }
            }
            y += 1;
        }
        self.width = to_width;
        self.height = to_height;
        self.size = to_size;
    }

    /// Set every cell at random, each with an even chance either way.
    pub fn fill_random(&mut self)
        requires
            old(self).wf(),
        ensures
            final(self).wf(),
            final(self).width == old(self).width,
            final(self).height == old(self).height,
            final(self).size == old(self).size,
    {
        let n = self.cells.len();
        let mut i: usize = 0;
        while i < n
            invariant
                0 <= i <= n,
                self.cells@.len() == n,
                self.scratch == old(self).scratch,
                self.width == old(self).width,
                self.height == old(self).height,
                self.size == old(self).size,
            decreases n - i,
        {
            let word = random_word();
            self.cells[i] = Cell((word & 1) == 0);
            i += 1;
        }
    }
}

} // verus!
