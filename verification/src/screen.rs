//! A character-cell screen buffer: each cell holds a glyph, a 256-color foreground and two
//! attributes. Writes are clipped to the buffer, so drawing never reaches past its edges.

use vstd::prelude::*;

verus! {

#[derive(Clone, Copy, PartialEq, Eq, Debug, Structural)]
pub struct Cell {
    pub ch: char,
    pub fg: u8,
    pub bold: bool,
    pub dim: bool,
}

/// The blank cell: a space, color 0, no attributes.
pub open spec fn blank_cell() -> Cell {
    Cell { ch: ' ', fg: 0, bold: false, dim: false }
}

impl Default for Cell {
    /// The blank cell.
    fn default() -> (c: Cell)
        ensures
            c == blank_cell(),
    {
        Cell { ch: ' ', fg: 0, bold: false, dim: false }
    }
}

/// `w` columns by `h` rows of cells, row-major: cell `(row, col)` is `cells[row * w + col]`.
pub struct Buffer {
    pub w: u16,
    pub h: u16,
    pub cells: Vec<Cell>,
}

impl Buffer {
    /// The cell vector holds exactly `w * h` cells.
    pub open spec fn wf(&self) -> bool {
        self.cells@.len() == self.w as int * self.h as int
    }

    /// A blank buffer of `w` columns and `h` rows.
    pub fn new(w: u16, h: u16) -> (b: Buffer)
        ensures
            b.wf(),
            b.w == w,
            b.h == h,
            forall|i: int| 0 <= i < b.cells@.len() ==> b.cells@[i] == blank_cell(),
    {
        assert(w as int * h as int <= 65535 * 65535) by (nonlinear_arith)
            requires
                w <= 65535,
                h <= 65535,
        ;
        let n: usize = w as usize * h as usize;
        let mut cells: Vec<Cell> = Vec::new();
        let mut i: usize = 0;
        while i < n
            invariant
                0 <= i <= n,
                cells@.len() == i,
                forall|j: int| 0 <= j < i ==> cells@[j] == blank_cell(),
            decreases n - i,
        {
            cells.push(Cell::default());
            i = i + 1;
        }
        Buffer { w, h, cells }
    }

    /// Blank every cell.
    pub fn clear(&mut self)
        ensures
            final(self).w == old(self).w,
            final(self).h == old(self).h,
            final(self).cells@.len() == old(self).cells@.len(),
            forall|i: int| 0 <= i < final(self).cells@.len() ==> final(self).cells@[i] == blank_cell(),
    {
        let n = self.cells.len();
        let mut i: usize = 0;
        while i < n
            invariant
                0 <= i <= n,
                self.cells@.len() == n,
                self.w == old(self).w,
                self.h == old(self).h,
                n == old(self).cells@.len(),
                forall|j: int| 0 <= j < i ==> self.cells@[j] == blank_cell(),
            decreases n - i,
        {
            self.cells.set(i, Cell::default());
            i = i + 1;
        }
    }

    /// Write `text` at `(row, col)` going right, one cell per character; the row must be
    /// inside the buffer, and characters past the right edge are dropped.
    pub fn put(&mut self, row: u16, col: u16, text: &str, fg: u8, bold: bool, dim: bool)
        requires
            old(self).wf(),
        ensures
            final(self).wf(),
            final(self).w == old(self).w,
            final(self).h == old(self).h,
            forall|i: int|
                0 <= i < final(self).cells@.len() ==> #[trigger] final(self).cells@[i] == put_cell(
                    old(self).cells@[i],
                    i,
                    old(self).w,
                    old(self).h,
                    row,
                    col,
                    text@,
                    fg,
                    bold,
                    dim,
                ),
    {
        let ghost old_cells = self.cells@;
        if row >= self.h {
            return;
        }
        let chars = crate::text::chars_of(text);
        let w = self.w;
        let mut c: u16 = col;
        let mut k: usize = 0;
        while k < chars.len() && c < w
            invariant
                self.wf(),
                self.w == w,
                self.h == old(self).h,
                row < self.h,
                chars@ == text@,
                0 <= k <= chars@.len(),
                c as int == col as int + k,
                old_cells == old(self).cells@,
                self.cells@.len() == old_cells.len(),
                forall|i: int|
                    0 <= i < self.cells@.len() ==> #[trigger] self.cells@[i] == put_cell(
                        old_cells[i],
                        i,
                        w,
                        self.h,
                        row,
                        col,
                        text@.take(k as int),
                        fg,
                        bold,
                        dim,
                    ),
            decreases chars.len() - k,
        {
            let ch = chars[k];
            let _n = self.cells.len();
            assert((row as int) * (w as int) + (c as int) < self.cells@.len()) by (nonlinear_arith)
                requires
                    c < w,
                    row < self.h,
                    self.cells@.len() == w as int * self.h as int,
            ;
            assert((row as int) * (w as int) <= (row as int) * (w as int) + (c as int));
            let idx: usize = row as usize * w as usize + c as usize;
            assert(idx as int == (row as int) * (w as int) + (c as int));
            let ghost before = self.cells@;
            assert(0 <= idx < before.len());
            self.cells.set(idx, Cell { ch, fg, bold, dim });
            assert(self.w == w);
            assert(self.cells@ == before.update(idx as int, Cell { ch, fg, bold, dim }));
            proof {
                vstd::seq::axiom_seq_update_len(before, idx as int, Cell { ch, fg, bold, dim });
            }
            assert(self.cells@.len() == before.len());
            assert(self.wf());
            proof {
                assert forall|i: int| 0 <= i < self.cells@.len() implies #[trigger] self.cells@[i]
                    == put_cell(old_cells[i], i, w, self.h, row, col, text@.take(k + 1), fg, bold, dim) by {
                    lemma_put_cell_step(old_cells[i], i, w, self.h, row, col, text@, k as int, fg, bold, dim);
                    if i == idx as int {
                        vstd::seq::axiom_seq_update_same(before, idx as int, Cell { ch, fg, bold, dim });
                        assert(text@[k as int] == ch);
                    } else {
                        vstd::seq::axiom_seq_update_different(before, i, idx as int, Cell { ch, fg, bold, dim });
                        assert(before[i] == put_cell(old_cells[i], i, w, self.h, row, col, text@.take(k as int), fg, bold, dim));
                    }
                }
            }
            c = c + 1;
            k = k + 1;
        }
        proof {
            assert forall|i: int| 0 <= i < self.cells@.len() implies #[trigger] self.cells@[i]
                == put_cell(old_cells[i], i, w, self.h, row, col, text@, fg, bold, dim) by {
                lemma_put_cell_clip(old_cells[i], i, w, self.h, row, col, text@, k as int, fg, bold, dim);
            }
        }
    }
}

impl Buffer {
    /// Bring this (front) buffer in line with `back` and report what changed: for every
    /// cell, in row-major order, where the two differ, its row, its column and the new
    /// cell. Afterwards both buffers hold the same cells.
    pub fn sync_from(&mut self, back: &Buffer) -> (changes: Vec<(u16, u16, Cell)>)
        requires
            old(self).wf(),
            back.wf(),
            old(self).w == back.w,
            old(self).h == back.h,
        ensures
            final(self).wf(),
            final(self).w == old(self).w,
            final(self).h == old(self).h,
            final(self).cells@ == back.cells@,
            changes@ == changed_cells(old(self).cells@, back.cells@, back.w as int, back.cells@.len() as int),
    {
        let ghost front0 = self.cells@;
        let n = self.cells.len();
        let w = self.w;
        let mut changes: Vec<(u16, u16, Cell)> = Vec::new();
        let mut i: usize = 0;
        let mut row: u16 = 0;
        let mut col: u16 = 0;
        proof {
            if 0 < n {
                assert(0 < w && 0 < self.h) by (nonlinear_arith)
                    requires
                        0 < n,
                        n == w as int * self.h as int,
                ;
            }
        }
        while i < n
            invariant
                self.wf(),
                self.w == w,
                self.h == old(self).h,
                back.wf(),
                back.w == w,
                back.h == self.h,
                n == self.cells@.len(),
                n == front0.len(),
                front0 == old(self).cells@,
                0 <= i <= n,
                i < n ==> (row as int) < (self.h as int) && (col as int) < (w as int),
                i as int == row as int * w as int + col as int,
                forall|j: int| 0 <= j < i ==> self.cells@[j] == back.cells@[j],
                forall|j: int| i <= j < n ==> self.cells@[j] == front0[j],
                changes@ == changed_cells(front0, back.cells@, w as int, i as int),
            decreases n - i,
        {
            proof {
                assert(w > 0) by (nonlinear_arith)
                    requires
                        i < n,
                        n == w as int * self.h as int,
                ;
                vstd::arithmetic::div_mod::lemma_fundamental_div_mod_converse(
                    i as int,
                    w as int,
                    row as int,
                    col as int,
                );
            }
            let b = back.cells[i];
            if self.cells[i] != b {
                changes.push((row, col, b));
                self.cells.set(i, b);
            }
            i = i + 1;
            if col + 1 < w {
                col = col + 1;
            } else {
                proof {
                    assert(i as int == (row as int + 1) * w as int) by (nonlinear_arith)
                        requires
                            i as int == row as int * w as int + col as int + 1,
                            col as int + 1 == w as int,
                    ;
                    if i < n {
                        assert((row as int + 1) < self.h as int) by (nonlinear_arith)
                            requires
                                i as int == (row as int + 1) * w as int,
                                (i as int) < (n as int),
                                n as int == w as int * self.h as int,
                                w > 0,
                        ;
                    }
                }
                row = row + 1;
                col = 0;
            }
        }
        proof {
            assert(self.cells@ =~= back.cells@);
        }
        changes
    }
}

/// The glyph of a `ph`-row, `pw`-column rounded box at row `r`, column `c` inside it
/// (`None` for its hollow middle). The bottom row is drawn last, so on a one-row box it wins.
pub open spec fn box_glyph(r: int, c: int, ph: int, pw: int) -> Option<char> {
    if r == ph - 1 {
        if c == 0 {
            Some('╰')
        } else if c == pw - 1 {
            Some('╯')
        } else {
            Some('─')
        }
    } else if r == 0 {
        if c == 0 {
            Some('╭')
        } else if c == pw - 1 {
            Some('╮')
        } else {
            Some('─')
        }
    } else if c == 0 || c == pw - 1 {
        Some('│')
    } else {
        None
    }
}

/// Cell `(row, col)` after drawing a `ph` by `pw` box with its corner at `(top, left)` in
/// color `fg`: the box's glyph where it has one, else the cell as it was.
pub open spec fn boxed_cell(
    old: Cell,
    row: int,
    col: int,
    top: int,
    left: int,
    ph: int,
    pw: int,
    fg: u8,
) -> Cell {
    let r = row - top;
    let c = col - left;
    if 0 <= r < ph && 0 <= c < pw && box_glyph(r, c, ph, pw) is Some {
        Cell { ch: box_glyph(r, c, ph, pw)->0, fg, bold: false, dim: false }
    } else {
        old
    }
}

fn box_glyph_at(r: u16, c: u16, ph: u16, pw: u16) -> (g: Option<char>)
    requires
        r < ph,
        c < pw,
    ensures
        g == box_glyph(r as int, c as int, ph as int, pw as int),
{
    if r == ph - 1 {
        if c == 0 {
            Some('╰')
        } else if c == pw - 1 {
            Some('╯')
        } else {
            Some('─')
        }
    } else if r == 0 {
        if c == 0 {
            Some('╭')
        } else if c == pw - 1 {
            Some('╮')
        } else {
            Some('─')
        }
    } else if c == 0 || c == pw - 1 {
        Some('│')
    } else {
        None
    }
}

/// Every cell of a `w`-column buffer after drawing the box (see `boxed_cell`).
pub open spec fn box_cells(
    cells: Seq<Cell>,
    w: u16,
    top: int,
    left: int,
    ph: int,
    pw: int,
    fg: u8,
) -> Seq<Cell> {
    Seq::new(cells.len(), |i: int| boxed_cell(cells[i], i / (w as int), i % (w as int), top, left, ph, pw, fg))
}

/// Two in-range positions of a `w`-column buffer share a cell index only if they are the
/// same position.
proof fn lemma_cell_index_unique(r1: int, c1: int, r2: int, c2: int, w: int)
    requires
        0 <= r1,
        0 <= r2,
        0 <= c1 < w,
        0 <= c2 < w,
        r1 * w + c1 == r2 * w + c2,
    ensures
        r1 == r2,
        c1 == c2,
{
    if r1 < r2 {
        assert(r1 * w + c1 < r2 * w + c2) by (nonlinear_arith)
            requires
                r1 < r2,
                0 <= c1 < w,
                0 <= c2,
        ;
    } else if r2 < r1 {
        assert(r2 * w + c2 < r1 * w + c1) by (nonlinear_arith)
            requires
                r2 < r1,
                0 <= c2 < w,
                0 <= c1,
        ;
    }
}

impl Buffer {
    /// Draw a rounded `ph`-row, `pw`-column box with its top-left corner at `(top, left)`,
    /// in color `fg`, plain weight: corners `╭╮╰╯`, `─` along the top and bottom rows, `│`
    /// down both sides, the middle left as it was. Parts outside the buffer are dropped.
    pub fn draw_box(&mut self, top: u16, left: u16, ph: u16, pw: u16, fg: u8)
        requires
            old(self).wf(),
            ph >= 1,
            pw >= 2,
            top as int + ph as int - 1 <= u16::MAX,
            ph >= 3 ==> left as int + pw as int - 1 <= u16::MAX,
        ensures
            final(self).wf(),
            final(self).w == old(self).w,
            final(self).h == old(self).h,
            forall|row: int, col: int|
                0 <= row < old(self).h && 0 <= col < old(self).w ==> #[trigger] final(self).cells@[row
                    * old(self).w + col] == boxed_cell(
                    old(self).cells@[row * old(self).w + col],
                    row,
                    col,
                    top as int,
                    left as int,
                    ph as int,
                    pw as int,
                    fg,
                ),
            final(self).cells@ == box_cells(
                old(self).cells@,
                old(self).w,
                top as int,
                left as int,
                ph as int,
                pw as int,
                fg,
            ),
    {
        let ghost old_cells = self.cells@;
        let w = self.w;
        let h = self.h;
        let lim: u16 = if left < w {
            w - left
        } else {
            0
        };
        let mut r: u16 = 0;
        while r < ph
            invariant
                self.wf(),
                self.w == w,
                self.h == h,
                old_cells == old(self).cells@,
                old(self).w == w,
                old(self).h == h,
                ph >= 1,
                pw >= 2,
                top as int + ph as int - 1 <= u16::MAX,
                lim as int == if left < w { w - left } else { 0 },
                0 <= r <= ph,
                forall|row: int, col: int|
                    0 <= row < h && 0 <= col < w ==> #[trigger] self.cells@[row * w + col] == if row
                        < top + r {
                        boxed_cell(old_cells[row * w + col], row, col, top as int, left as int, ph as int, pw as int, fg)
                    } else {
                        old_cells[row * w + col]
                    },
            decreases ph - r,
        {
            let row = top + r;
            if row < h {
                let mut c: u16 = 0;
                while c < pw && c < lim
                    invariant
                        self.wf(),
                        self.w == w,
                        self.h == h,
                        ph >= 1,
                        pw >= 2,
                        r < ph,
                        row == top + r,
                        row < h,
                        lim as int == if left < w { w - left } else { 0 },
                        0 <= c <= pw,
                        c <= lim,
                        forall|rr: int, cc: int|
                            0 <= rr < h && 0 <= cc < w ==> #[trigger] self.cells@[rr * w + cc] == if rr
                                < row || (rr == row && cc < left + c) {
                                boxed_cell(old_cells[rr * w + cc], rr, cc, top as int, left as int, ph as int, pw as int, fg)
                            } else {
                                old_cells[rr * w + cc]
                            },
                    decreases pw - c,
                {
                    let col = left + c;
                    let g = box_glyph_at(r, c, ph, pw);
                    if let Some(ch) = g {
                        assert((row as int) * (w as int) + (col as int) < self.cells@.len()) by (nonlinear_arith)
                            requires
                                col < w,
                                row < h,
                                self.cells@.len() == w as int * h as int,
                        ;
                        assert((row as int) * (w as int) <= (row as int) * (w as int) + (col as int));
                        let _n = self.cells.len();
                        let idx: usize = row as usize * w as usize + col as usize;
                        let ghost before = self.cells@;
                        self.cells.set(idx, Cell { ch, fg, bold: false, dim: false });
                        proof {
                            assert forall|rr: int, cc: int|
                                0 <= rr < h && 0 <= cc < w implies #[trigger] self.cells@[rr * w + cc] == if rr
                                    < row || (rr == row && cc < left + c + 1) {
                                    boxed_cell(old_cells[rr * w + cc], rr, cc, top as int, left as int, ph as int, pw as int, fg)
                                } else {
                                    old_cells[rr * w + cc]
                                } by {
                                assert(0 <= rr * w + cc < w as int * h as int) by (nonlinear_arith)
                                    requires
                                        0 <= rr < h,
                                        0 <= cc < w,
                                ;
                                if rr * w + cc == idx as int {
                                    lemma_cell_index_unique(rr, cc, row as int, col as int, w as int);
                                } else {
                                    assert(self.cells@[rr * w + cc] == before[rr * w + cc]);
                                }
                            }
                        }
                    } else {
                        proof {
                            assert forall|rr: int, cc: int|
                                0 <= rr < h && 0 <= cc < w implies #[trigger] self.cells@[rr * w + cc] == if rr
                                    < row || (rr == row && cc < left + c + 1) {
                                    boxed_cell(old_cells[rr * w + cc], rr, cc, top as int, left as int, ph as int, pw as int, fg)
                                } else {
                                    old_cells[rr * w + cc]
                                } by {
                            }
                        }
                    }
                    c = c + 1;
                }
            }
            r = r + 1;
        }
        proof {
            let bc = box_cells(old_cells, w, top as int, left as int, ph as int, pw as int, fg);
            assert forall|i: int| 0 <= i < self.cells@.len() implies self.cells@[i] == bc[i] by {
                assert(w > 0) by (nonlinear_arith)
                    requires
                        0 <= i < self.cells@.len(),
                        self.cells@.len() == w as int * h as int,
                ;
                vstd::arithmetic::div_mod::lemma_fundamental_div_mod(i, w as int);
                let row = i / (w as int);
                let col = i % (w as int);
                assert(0 <= col < w);
                assert(0 <= row < h) by (nonlinear_arith)
                    requires
                        i == (w as int) * row + col,
                        0 <= col < w,
                        0 <= i < w as int * h as int,
                ;
                assert(row * (w as int) + col == i) by (nonlinear_arith)
                    requires
                        i == (w as int) * row + col,
                ;
                assert(self.cells@[row * w + col] == boxed_cell(old_cells[row * w + col], row, col, top as int, left as int, ph as int, pw as int, fg));
            }
            assert(self.cells@ =~= bc);
        }
    }
}

/// The cells that differ between `front` and `back` among the first `n` (row-major, `w`
/// columns per row), in order, each as its row, its column and its cell in `back`.
pub open spec fn changed_cells(front: Seq<Cell>, back: Seq<Cell>, w: int, n: int) -> Seq<(u16, u16, Cell)>
    decreases n,
{
    if n <= 0 {
        Seq::empty()
    } else {
        let prev = changed_cells(front, back, w, n - 1);
        let i = n - 1;
        if front[i] != back[i] {
            prev.push(((i / w) as u16, (i % w) as u16, back[i]))
        } else {
            prev
        }
    }
}

/// One piece of text written into a buffer: where, what, and in which style.
pub struct Stroke {
    pub row: u16,
    pub col: u16,
    pub text: Seq<char>,
    pub fg: u8,
    pub bold: bool,
    pub dim: bool,
}

/// The cells after writing one stroke (see `put_cell`).
pub open spec fn paint_step(cells: Seq<Cell>, w: u16, h: u16, s: Stroke) -> Seq<Cell> {
    Seq::new(cells.len(), |i: int| put_cell(cells[i], i, w, h, s.row, s.col, s.text, s.fg, s.bold, s.dim))
}

/// The cells after writing `strokes` in order.
pub open spec fn paint_spec(cells: Seq<Cell>, w: u16, h: u16, strokes: Seq<Stroke>) -> Seq<Cell>
    decreases strokes.len(),
{
    if strokes.len() == 0 {
        cells
    } else {
        paint_step(paint_spec(cells, w, h, strokes.drop_last()), w, h, strokes.last())
    }
}

/// Painting one more stroke is one more step.
pub proof fn lemma_paint_push(cells: Seq<Cell>, w: u16, h: u16, strokes: Seq<Stroke>, s: Stroke)
    ensures
        paint_spec(cells, w, h, strokes.push(s)) == paint_step(paint_spec(cells, w, h, strokes), w, h, s),
{
    assert(strokes.push(s).drop_last() =~= strokes);
}

impl Buffer {
    /// `put` seen as one painting step.
    pub(crate) fn put_stroke(&mut self, row: u16, col: u16, text: &str, fg: u8, bold: bool, dim: bool)
        requires
            old(self).wf(),
        ensures
            final(self).wf(),
            final(self).w == old(self).w,
            final(self).h == old(self).h,
            final(self).cells@ == paint_step(
                old(self).cells@,
                old(self).w,
                old(self).h,
                Stroke { row, col, text: text@, fg, bold, dim },
            ),
    {
        self.put(row, col, text, fg, bold, dim);
        assert(self.cells@ =~= paint_step(
            old(self).cells@,
            old(self).w,
            old(self).h,
            Stroke { row, col, text: text@, fg, bold, dim },
        ));
    }
}

/// Cell `i` of a `w`-column, `h`-row buffer after writing `text` at `(row, col)`: inside the
/// written span of that row it holds the matching character; elsewhere it is unchanged.
pub open spec fn put_cell(
    old: Cell,
    i: int,
    w: u16,
    h: u16,
    row: u16,
    col: u16,
    text: Seq<char>,
    fg: u8,
    bold: bool,
    dim: bool,
) -> Cell {
    let x = i - row * w - col;
    if row < h && row * w + col <= i && i < row * w + w && x < text.len() {
        Cell { ch: text[x], fg, bold, dim }
    } else {
        old
    }
}

proof fn lemma_put_cell_step(
    old: Cell,
    i: int,
    w: u16,
    h: u16,
    row: u16,
    col: u16,
    text: Seq<char>,
    k: int,
    fg: u8,
    bold: bool,
    dim: bool,
)
    requires
        0 <= k < text.len(),
        col + k < w,
        row < h,
    ensures
        put_cell(old, i, w, h, row, col, text.take(k + 1), fg, bold, dim) == if i == row * w + col + k {
            Cell { ch: text[k], fg, bold, dim }
        } else {
            put_cell(old, i, w, h, row, col, text.take(k), fg, bold, dim)
        },
{
}

proof fn lemma_put_cell_clip(
    old: Cell,
    i: int,
    w: u16,
    h: u16,
    row: u16,
    col: u16,
    text: Seq<char>,
    k: int,
    fg: u8,
    bold: bool,
    dim: bool,
)
    requires
        0 <= k <= text.len(),
        k == text.len() || col + k >= w,
    ensures
        put_cell(old, i, w, h, row, col, text.take(k), fg, bold, dim) == put_cell(
            old,
            i,
            w,
            h,
            row,
            col,
            text,
            fg,
            bold,
            dim,
        ),
{
    if k == text.len() {
        assert(text.take(k) =~= text);
    }
}

/// The number of characters in `s`, cut to 16 bits.
pub fn char_len(s: &str) -> (n: u16)
    ensures
        n == s@.len() as u16,
{
    let n = crate::text::chars_of(s).len();
    n as u16
}

/// Once a front buffer has been brought in line with a back buffer, there is nothing left
/// to send: two equal buffers have no changed cells.
pub proof fn lemma_sync_settles(cells: Seq<Cell>, w: int, n: int)
    ensures
        changed_cells(cells, cells, w, n) == Seq::<(u16, u16, Cell)>::empty(),
    decreases n,
{
    if n > 0 {
        lemma_sync_settles(cells, w, n - 1);
    }
}

} // verus!
