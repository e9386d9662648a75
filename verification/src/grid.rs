//! Character grid for terminal-style surfaces.
//!
//! A width-by-height matrix of cells stored as a row ring buffer: row
//! `y` of the logical grid is physical row `(y + scroll_offset) mod
//! height`, so scrolling the whole grid is O(1). Each physical row
//! carries a dirty flag; partial-region scrolling copies cells and
//! marks the touched rows dirty.

use vstd::prelude::*;
use crate::types::Color;

verus! {

/// Style of one grid cell.
#[derive(Debug, Clone, Copy, PartialEq)]
pub struct CellStyle {
    /// Foreground color.
    pub fg: Color,
    /// Background color; `None` means the default background.
    pub bg: Option<Color>,
    pub bold: bool,
    pub italic: bool,
    /// Underline style: 0 none, 1 single, 2 double, 3 wave.
    pub underline: u8,
    /// Underline color; `None` means the foreground color.
    pub underline_color: Option<Color>,
    pub strikethrough: bool,
}

impl Default for CellStyle {
    /// Plain black-on-default with no attributes.
    fn default() -> (r: CellStyle)
        ensures
            r.fg == (Color { r: 0u8, g: 0u8, b: 0u8, a: 255u8 }),
            r.bg is None,
            !r.bold,
            !r.italic,
            r.underline == 0,
            r.underline_color is None,
            !r.strikethrough,
    {
        CellStyle {
            fg: Color::black(),
            bg: None,
            bold: false,
            italic: false,
            underline: 0,
            underline_color: None,
            strikethrough: false,
        }
    }
}

/// A single cell: a short UTF-8 string, an optional style, and its
/// display width (1, or 2 for a wide character).
#[derive(Debug, Clone, PartialEq)]
pub struct GridCell {
    /// Character(s) to display.
    pub text: String,
    /// Style, or `None` for the default.
    pub style: Option<CellStyle>,
    /// Cell width: 1 normal, 2 wide.
    pub width: u8,
}

impl GridCell {
    /// The two cells show the same thing: equal text, style and width.
    pub open spec fn spec_like(a: GridCell, b: GridCell) -> bool {
        a.text@ == b.text@ && a.style == b.style && a.width == b.width
    }

    /// Copy a cell (the text is cloned, the rest is plain data).
    pub fn duplicate(&self) -> (r: GridCell)
        ensures
            GridCell::spec_like(r, *self),
    {
        GridCell { text: self.text.clone(), style: self.style, width: self.width }
    }

    /// The blank cell: one space, default style, width one.
    pub open spec fn spec_blank(c: GridCell) -> bool {
        c.text@ == " "@ && c.style is None && c.width == 1
    }

    /// Make a blank cell.
    pub fn blank() -> (r: GridCell)
        ensures
            GridCell::spec_blank(r),
    {
        GridCell { text: " ".to_owned(), style: None, width: 1 }
    }
}

impl Default for GridCell {
    /// The blank cell.
    fn default() -> (r: GridCell)
        ensures
            GridCell::spec_blank(r),
    {
        GridCell::blank()
    }
}

/// Character grid with ring-buffer rows.
pub struct CharacterGrid {
    /// Grid width in cells.
    pub width: usize,
    /// Grid height in rows.
    pub height: usize,
    /// All cells, row-major in physical order.
    pub cells: Vec<GridCell>,
    /// Dirty flag per physical row.
    pub dirty: Vec<bool>,
    /// Ring offset: logical row `y` is physical row
    /// `(y + scroll_offset) mod height`.
    pub scroll_offset: usize,
}

impl CharacterGrid {
    /// Shape invariant of the grid.
    pub open spec fn wf(&self) -> bool {
        &&& self.cells@.len() == self.width * self.height
        &&& self.width * self.height <= usize::MAX
        &&& self.dirty@.len() == self.height
        &&& self.height <= usize::MAX / 2
        &&& (self.scroll_offset < self.height || (self.height == 0 && self.scroll_offset == 0))
    }

    /// Physical row shown at logical row `y`.
    pub open spec fn spec_actual_row(&self, y: int) -> int {
        (y + self.scroll_offset) % (self.height as int)
    }

    /// The cell shown at logical position `(x, y)`.
    pub open spec fn spec_cell(&self, x: int, y: int) -> GridCell {
        self.cells@[self.spec_actual_row(y) * self.width + x]
    }

    /// The two grids show the same content (cell for cell); their dirty
    /// flags may differ.
    pub open spec fn same_content(&self, other: &CharacterGrid) -> bool {
        &&& other.width == self.width
        &&& other.height == self.height
        &&& forall|x: int, y: int|
            0 <= x < self.width && 0 <= y < self.height ==> #[trigger] other.spec_cell(x, y)
                == self.spec_cell(x, y)
    }

    /// Create a grid of blank cells, all rows dirty.
    pub fn new(width: usize, height: usize) -> (r: CharacterGrid)
        requires
            width * height <= usize::MAX,
            height <= usize::MAX / 2,
        ensures
            r.wf(),
            r.width == width,
            r.height == height,
            r.scroll_offset == 0,
            forall|x: int, y: int|
                0 <= x < width && 0 <= y < height ==> GridCell::spec_blank(
                    #[trigger] r.spec_cell(x, y),
                ),
    {
        let total = width * height;
        let mut cells: Vec<GridCell> = Vec::new();
        let mut i: usize = 0;
        while i < total
            invariant
                i <= total,
                cells@.len() == i,
                forall|j: int| 0 <= j < i ==> GridCell::spec_blank(#[trigger] cells@[j]),
            decreases total - i,
        {
            cells.push(GridCell::blank());
            i = i + 1;
        }
        let mut dirty: Vec<bool> = Vec::new();
        let mut y: usize = 0;
        while y < height
            invariant
                y <= height,
                dirty@.len() == y,
            decreases height - y,
        {
            dirty.push(true);
            y = y + 1;
        }
        let r = CharacterGrid { width, height, cells, dirty, scroll_offset: 0 };
        proof {
            assert forall|x: int, yy: int| 0 <= x < width && 0 <= yy < height implies
                GridCell::spec_blank(#[trigger] r.spec_cell(x, yy)) by {
                lemma_row_index_in_range(width as int, height as int, r.spec_actual_row(yy), x);
                vstd::arithmetic::div_mod::lemma_mod_division_less_than_divisor(
                    yy + 0,
                    height as int,
                );
            }
        }
        r
    }

    /// Index of the physical row shown at logical row `y`.
    fn actual_row(&self, y: usize) -> (r: usize)
        requires
            self.wf(),
            self.height >= 1,
            y < self.height,
        ensures
            r == self.spec_actual_row(y as int),
            r < self.height,
    {
        let r = (y + self.scroll_offset) % self.height;
        proof {
            vstd::arithmetic::div_mod::lemma_mod_division_less_than_divisor(
                y + self.scroll_offset,
                self.height as int,
            );
        }
        r
    }

    /// The cell at logical `(x, y)`, or `None` outside the grid.
    pub fn get_cell(&self, x: usize, y: usize) -> (r: Option<&GridCell>)
        requires
            self.wf(),
        ensures
            r is Some <==> x < self.width && y < self.height,
            r matches Some(c) ==> *c == self.spec_cell(x as int, y as int),
    {
        if x >= self.width || y >= self.height {
            return None;
        }
        let a = self.actual_row(y);
        let clen = self.cells.len();
        proof {
            lemma_row_index_in_range(self.width as int, self.height as int, a as int, x as int);
            assert((a as int) * (self.width as int) + x < clen as int);
        }
        Some(&self.cells[a * self.width + x])
    }

    /// Overwrite the cell at logical `(x, y)` and mark its row dirty;
    /// positions outside the grid are ignored.
    pub fn set_cell(&mut self, x: usize, y: usize, text: String, style: Option<CellStyle>, width: u8)
        requires
            old(self).wf(),
        ensures
            final (self).wf(),
            final (self).width == old(self).width,
            final (self).height == old(self).height,
            x < old(self).width && y < old(self).height ==> {
                &&& final (self).spec_cell(x as int, y as int).text@ == text@
                &&& final (self).spec_cell(x as int, y as int).style == style
                &&& final (self).spec_cell(x as int, y as int).width == width
                &&& final (self).dirty@[old(self).spec_actual_row(y as int)]
            },
    {
        if x >= self.width || y >= self.height {
            return ;
        }
        let a = self.actual_row(y);
        let clen = self.cells.len();
        proof {
            lemma_row_index_in_range(self.width as int, self.height as int, a as int, x as int);
            assert((a as int) * (self.width as int) + x < clen as int);
        }
        let idx = a * self.width + x;
        self.cells[idx] = GridCell { text, style, width };
        self.dirty[a] = true;
        proof {
            assert(final (self).spec_actual_row(y as int) == a as int);
        }
    }

    /// Whether the row shown at logical `y` is dirty; rows outside the
    /// grid read as clean.
    pub fn is_row_dirty(&self, y: usize) -> (r: bool)
        requires
            self.wf(),
        ensures
            y < self.height ==> r == self.dirty@[self.spec_actual_row(y as int)],
            y >= self.height ==> r == false,
    {
        if y >= self.height {
            return false;
        }
        let a = self.actual_row(y);
        self.dirty[a]
    }

    /// Mark the row shown at logical `y` dirty.
    pub fn mark_row_dirty(&mut self, y: usize)
        requires
            old(self).wf(),
        ensures
            final (self).wf(),
            final (self).width == old(self).width,
            final (self).height == old(self).height,
            final (self).same_content(old(self)),
            old(self).same_content(final (self)),
            final (self).cells@ == old(self).cells@,
            final (self).scroll_offset == old(self).scroll_offset,
            final (self).dirty@.len() == old(self).dirty@.len(),
            forall|j: int|
                0 <= j < old(self).dirty@.len() && old(self).dirty@[j] ==> final (self).dirty@[j],
            y < old(self).height ==> final (self).dirty@[old(self).spec_actual_row(y as int)],
    {
        if y >= self.height {
            return ;
        }
        let a = self.actual_row(y);
        self.dirty[a] = true;
    }

    /// Mark the row shown at logical `y` clean (rendered).
    pub fn mark_row_clean(&mut self, y: usize)
        requires
            old(self).wf(),
        ensures
            final (self).wf(),
            final (self).width == old(self).width,
            final (self).height == old(self).height,
            final (self).same_content(old(self)),
            old(self).same_content(final (self)),
            y < old(self).height ==> !final (self).dirty@[old(self).spec_actual_row(y as int)],
    {
        if y >= self.height {
            return ;
        }
        let a = self.actual_row(y);
        self.dirty[a] = false;
    }

    /// Scroll the whole grid by `rows` (positive moves content up the
    /// ring): O(1), only the ring offset moves; every row is marked
    /// dirty and no cell changes.
    pub fn scroll(&mut self, rows: i64)
        requires
            old(self).wf(),
            1 <= old(self).height <= 1_000_000_000,
        ensures
            final (self).wf(),
            final (self).width == old(self).width,
            final (self).height == old(self).height,
            final (self).cells@ == old(self).cells@,
            final (self).scroll_offset as int == (old(self).scroll_offset + rows) % (
            old(self).height as int),
            forall|i: int| 0 <= i < final (self).dirty@.len() ==> final (self).dirty@[i],
    {
        let h64: u64 = self.height as u64;
        let shift: u64 = if rows >= 0 {
            (rows as u64) % h64
        } else {
            let m: u64 = ((-(rows + 1)) as u64) % h64;
            // rows is congruent to -(m + 1) - but (m + 1) may equal h.
            let m1 = m + 1;
            if m1 == h64 {
                0
            } else {
                h64 - m1
            }
        };
        proof {
            lemma_shift_congruent(rows as int, shift as int, self.height as int);
        }
        let new_off = (self.scroll_offset + shift as usize) % self.height;
        proof {
            vstd::arithmetic::div_mod::lemma_mod_division_less_than_divisor(
                self.scroll_offset + shift as int,
                self.height as int,
            );
            vstd::arithmetic::div_mod::lemma_add_mod_noop(
                self.scroll_offset as int,
                shift as int,
                self.height as int,
            );
            vstd::arithmetic::div_mod::lemma_add_mod_noop(
                self.scroll_offset as int,
                rows as int,
                self.height as int,
            );
            vstd::arithmetic::div_mod::lemma_small_mod(
                self.scroll_offset as nat,
                self.height as nat,
            );
        }
        self.scroll_offset = new_off;
        let mut y: usize = 0;
        let h = self.height;
        while y < h
            invariant
                y <= h,
                self.dirty@.len() == h,
                self.wf(),
                self.width == old(self).width,
                self.height == old(self).height,
                h == self.height,
                self.cells@ == old(self).cells@,
                self.scroll_offset == new_off,
                forall|i: int| 0 <= i < y ==> self.dirty@[i],
            decreases h - y,
        {
            self.dirty[y] = true;
            y = y + 1;
        }
    }
}

/// A cell index inside a physical row lies inside the cell vector.
proof fn lemma_row_index_in_range(width: int, height: int, row: int, x: int)
    by (nonlinear_arith)
    requires
        0 <= row < height,
        0 <= x < width,
    ensures
        0 <= row * width + x < width * height,
{
}

/// The computed nonnegative shift is congruent to the requested signed
/// scroll amount.
proof fn lemma_shift_congruent(rows: int, shift: int, h: int)
    requires
        1 <= h,
        0 <= shift < h,
        (rows >= 0 && shift == rows % h) || (rows < 0 && ((shift == 0 && (-(rows + 1)) % h + 1 == h)
            || shift == h - ((-(rows + 1)) % h + 1))),
    ensures
        shift % h == rows % h,
    decreases 0int,
{
    vstd::arithmetic::div_mod::lemma_small_mod(shift as nat, h as nat);
    if rows >= 0 {
    } else {
        let m = (-(rows + 1)) % h;
        vstd::arithmetic::div_mod::lemma_fundamental_div_mod(-(rows + 1), h);
        vstd::arithmetic::div_mod::lemma_mod_division_less_than_divisor(-(rows + 1), h);
        let q = (-(rows + 1)) / h;
        assert(rows == -(h * q + m) - 1);
        if m + 1 == h {
            assert(h * (-q - 1) == -(h * q) - h) by (nonlinear_arith);
            assert((-q - 1) * h == h * (-q - 1)) by (nonlinear_arith);
            assert(rows == (-q - 1) * h);
            vstd::arithmetic::div_mod::lemma_mod_multiples_basic(-q - 1, h);
        } else {
            assert(shift == h - m - 1);
            assert(h * (-q - 1) == -(h * q) - h) by (nonlinear_arith);
            assert(rows == (-q - 1) * h + (h - m - 1)) by {
                assert((-q - 1) * h == h * (-q - 1)) by (nonlinear_arith);
            }
            assert(rows % h == (h - m - 1) % h) by {
                vstd::arithmetic::div_mod::lemma_mod_multiples_vanish(-q - 1, h - m - 1, h);
            }
            vstd::arithmetic::div_mod::lemma_small_mod((h - m - 1) as nat, h as nat);
        }
    }
}

/// What one whole-grid scroll does to the grid, dirty flags aside: the
/// cells stay put and the ring offset advances by the scroll amount,
/// modulo the height.
pub open spec fn scroll_post(pre: CharacterGrid, post: CharacterGrid, rows: int) -> bool {
    &&& post.width == pre.width
    &&& post.height == pre.height
    &&& post.cells@ == pre.cells@
    &&& post.scroll_offset as int == (pre.scroll_offset + rows) % (pre.height as int)
}

/// Scrolling identity: scrolling a grid of height `h` by `k` rows and
/// then by `-k` rows shows the original content again, cell for cell;
/// only the dirty flags may differ.
pub proof fn lemma_scroll_round_trip(
    g0: CharacterGrid,
    g1: CharacterGrid,
    g2: CharacterGrid,
    k: int,
)
    requires
        g0.wf(),
        1 <= g0.height,
        scroll_post(g0, g1, k),
        scroll_post(g1, g2, -k),
    ensures
        g2.scroll_offset == g0.scroll_offset,
        g0.same_content(&g2),
{
    let h = g0.height as int;
    let off0 = g0.scroll_offset as int;
    vstd::arithmetic::div_mod::lemma_mod_twice(off0 + k, h);
    vstd::arithmetic::div_mod::lemma_add_mod_noop((off0 + k) % h, -k, h);
    vstd::arithmetic::div_mod::lemma_add_mod_noop(off0 + k, -k, h);
    vstd::arithmetic::div_mod::lemma_mod_twice(-k, h);
    vstd::arithmetic::div_mod::lemma_small_mod(off0 as nat, h as nat);
    assert(g2.scroll_offset as int == off0);
    assert forall|x: int, y: int|
        0 <= x < g0.width && 0 <= y < g0.height implies #[trigger] g2.spec_cell(x, y)
        == g0.spec_cell(x, y) by {
        assert(g2.spec_actual_row(y) == g0.spec_actual_row(y));
    }
}

impl CharacterGrid {
    /// Reset every cell to blank, every row to dirty, and the ring
    /// offset to zero.
    pub fn clear(&mut self)
        requires
            old(self).wf(),
        ensures
            final (self).wf(),
            final (self).width == old(self).width,
            final (self).height == old(self).height,
            final (self).scroll_offset == 0,
            forall|x: int, y: int|
                0 <= x < old(self).width && 0 <= y < old(self).height ==> GridCell::spec_blank(
                    #[trigger] final (self).spec_cell(x, y),
                ),
    {
        let fresh = CharacterGrid::new(self.width, self.height);
        *self = fresh;
    }

    /// Resize the grid, keeping the content that still fits (read in
    /// display order) and blanking the rest; the ring offset resets.
    pub fn resize(&mut self, width: usize, height: usize)
        requires
            old(self).wf(),
            width * height <= usize::MAX,
            height <= usize::MAX / 2,
        ensures
            final (self).wf(),
            final (self).width == width,
            final (self).height == height,
            final (self).scroll_offset == 0,
            forall|x: int, y: int|
                0 <= x < width && x < old(self).width && 0 <= y < height && y < old(self).height
                    ==> GridCell::spec_like(
                    #[trigger] final (self).spec_cell(x, y),
                    old(self).spec_cell(x, y),
                ),
    {
        let mut fresh = CharacterGrid::new(width, height);
        let copy_w = if width < self.width {
            width
        } else {
            self.width
        };
        let copy_h = if height < self.height {
            height
        } else {
            self.height
        };
        let mut y: usize = 0;
        while y < copy_h
            invariant
                old(self).wf(),
                *self == *old(self),
                fresh.wf(),
                fresh.width == width,
                fresh.height == height,
                fresh.scroll_offset == 0,
                copy_w <= width,
                copy_w <= old(self).width,
                copy_h <= height,
                copy_h <= old(self).height,
                y <= copy_h,
                forall|xx: int, yy: int|
                    0 <= xx < copy_w && 0 <= yy < y ==> GridCell::spec_like(
                        #[trigger] fresh.spec_cell(xx, yy),
                        old(self).spec_cell(xx, yy),
                    ),
            decreases copy_h - y,
        {
            let mut x: usize = 0;
            while x < copy_w
                invariant
                    old(self).wf(),
                    *self == *old(self),
                    fresh.wf(),
                    fresh.width == width,
                    fresh.height == height,
                    fresh.scroll_offset == 0,
                    copy_w <= width,
                    copy_w <= old(self).width,
                    copy_h <= height,
                    copy_h <= old(self).height,
                    y < copy_h,
                    x <= copy_w,
                    forall|xx: int, yy: int|
                        0 <= xx < copy_w && 0 <= yy < y ==> GridCell::spec_like(
                            #[trigger] fresh.spec_cell(xx, yy),
                            old(self).spec_cell(xx, yy),
                        ),
                    forall|xx: int|
                        0 <= xx < x ==> GridCell::spec_like(
                            #[trigger] fresh.spec_cell(xx, y as int),
                            old(self).spec_cell(xx, y as int),
                        ),
                decreases copy_w - x,
            {
                let cell = match self.get_cell(x, y) {
                    Some(c) => c.duplicate(),
                    None => GridCell::blank(),
                };
                fresh.set_cell_value(x, y, cell);
                x = x + 1;
            }
            y = y + 1;
        }
        *self = fresh;
    }

    /// Overwrite the cell at logical `(x, y)` with a whole cell value
    /// and mark its row dirty; positions outside the grid are ignored.
    pub fn set_cell_value(&mut self, x: usize, y: usize, cell: GridCell)
        requires
            old(self).wf(),
        ensures
            final (self).wf(),
            final (self).width == old(self).width,
            final (self).height == old(self).height,
            final (self).scroll_offset == old(self).scroll_offset,
            x < old(self).width && y < old(self).height ==> final (self).spec_cell(
                x as int,
                y as int,
            ) == cell,
            forall|xx: int, yy: int|
                0 <= xx < old(self).width && 0 <= yy < old(self).height && !(xx == x && yy == y)
                    ==> #[trigger] final (self).spec_cell(xx, yy) == old(self).spec_cell(xx, yy),
    {
        if x >= self.width || y >= self.height {
            return ;
        }
        let a = self.actual_row(y);
        let clen = self.cells.len();
        proof {
            lemma_row_index_in_range(self.width as int, self.height as int, a as int, x as int);
            assert((a as int) * (self.width as int) + x < clen as int);
        }
        let idx = a * self.width + x;
        self.cells[idx] = cell;
        self.dirty[a] = true;
        proof {
            let w = self.width as int;
            let h = self.height as int;
            assert forall|xx: int, yy: int|
                0 <= xx < w && 0 <= yy < h && !(xx == x && yy == y) implies #[trigger] self
                .spec_cell(xx, yy) == old(self).spec_cell(xx, yy) by {
                let r1 = self.spec_actual_row(yy);
                vstd::arithmetic::div_mod::lemma_mod_division_less_than_divisor(
                    yy + self.scroll_offset,
                    h,
                );
                lemma_row_index_in_range(w, h, r1, xx);
                if r1 * w + xx == idx {
                    lemma_cell_index_injective(w, h, r1, xx, a as int, x as int);
                    assert(yy % h == (y as int) % h) by {
                        lemma_actual_row_injective(
                            yy,
                            y as int,
                            self.scroll_offset as int,
                            h,
                        );
                    }
                    vstd::arithmetic::div_mod::lemma_small_mod(yy as nat, h as nat);
                    vstd::arithmetic::div_mod::lemma_small_mod(y as nat, h as nat);
                }
            }
        }
    }

    /// Update a run of cells in one row from `(text, style)` pairs,
    /// starting at `col_start`; everything is width one. The row is
    /// marked dirty.
    pub fn update_row(
        &mut self,
        y: usize,
        col_start: usize,
        cells: &Vec<(String, Option<CellStyle>)>,
    )
        requires
            old(self).wf(),
            col_start + cells@.len() <= usize::MAX,
        ensures
            final (self).wf(),
            final (self).width == old(self).width,
            final (self).height == old(self).height,
    {
        let mut i: usize = 0;
        while i < cells.len()
            invariant
                self.wf(),
                self.width == old(self).width,
                self.height == old(self).height,
                col_start + cells@.len() <= usize::MAX,
                i <= cells@.len(),
            decreases cells@.len() - i,
        {
            let x = col_start + i;
            if x >= self.width {
                break ;
            }
            let (text, style) = &cells[i];
            self.set_cell(x, y, text.clone(), *style, 1);
            i = i + 1;
        }
        self.mark_row_dirty(y);
    }
}

/// Two in-range cell indices built from (row, column) pairs coincide
/// only when the pairs coincide.
proof fn lemma_cell_index_injective(w: int, h: int, r1: int, x1: int, r2: int, x2: int)
    by (nonlinear_arith)
    requires
        0 <= r1 < h,
        0 <= x1 < w,
        0 <= r2 < h,
        0 <= x2 < w,
        r1 * w + x1 == r2 * w + x2,
    ensures
        r1 == r2,
        x1 == x2,
{
}

/// Rows with equal ring positions are congruent modulo the height.
proof fn lemma_actual_row_injective(y1: int, y2: int, off: int, h: int)
    requires
        1 <= h,
        (y1 + off) % h == (y2 + off) % h,
    ensures
        y1 % h == y2 % h,
{
    vstd::arithmetic::div_mod::lemma_add_mod_noop(y1, off, h);
    vstd::arithmetic::div_mod::lemma_add_mod_noop(y2, off, h);
    vstd::arithmetic::div_mod::lemma_mod_twice(y1, h);
    vstd::arithmetic::div_mod::lemma_mod_twice(y2, h);
    vstd::arithmetic::div_mod::lemma_mod_twice(off, h);
    assert((y1 % h + off % h) % h == (y2 % h + off % h) % h);
    let a1 = y1 % h;
    let a2 = y2 % h;
    let o = off % h;
    vstd::arithmetic::div_mod::lemma_mod_division_less_than_divisor(y1, h);
    vstd::arithmetic::div_mod::lemma_mod_division_less_than_divisor(y2, h);
    vstd::arithmetic::div_mod::lemma_mod_division_less_than_divisor(off, h);
    if a1 + o < h && a2 + o < h {
        vstd::arithmetic::div_mod::lemma_small_mod((a1 + o) as nat, h as nat);
        vstd::arithmetic::div_mod::lemma_small_mod((a2 + o) as nat, h as nat);
    } else if a1 + o >= h && a2 + o >= h {
        vstd::arithmetic::div_mod::lemma_mod_sub_multiples_vanish(a1 + o, h);
        vstd::arithmetic::div_mod::lemma_mod_sub_multiples_vanish(a2 + o, h);
        vstd::arithmetic::div_mod::lemma_small_mod((a1 + o - h) as nat, h as nat);
        vstd::arithmetic::div_mod::lemma_small_mod((a2 + o - h) as nat, h as nat);
    } else if a1 + o < h {
        vstd::arithmetic::div_mod::lemma_small_mod((a1 + o) as nat, h as nat);
        vstd::arithmetic::div_mod::lemma_mod_sub_multiples_vanish(a2 + o, h);
        vstd::arithmetic::div_mod::lemma_small_mod((a2 + o - h) as nat, h as nat);
    } else {
        vstd::arithmetic::div_mod::lemma_small_mod((a2 + o) as nat, h as nat);
        vstd::arithmetic::div_mod::lemma_mod_sub_multiples_vanish(a1 + o, h);
        vstd::arithmetic::div_mod::lemma_small_mod((a1 + o - h) as nat, h as nat);
    }
}

impl CharacterGrid {
    /// Scroll a region of the grid by `rows`. A scroll of the whole
    /// grid with no column motion uses the ring buffer; a partial
    /// region degrades to copying cells and marks the touched rows
    /// dirty.
    pub fn scroll_region(
        &mut self,
        top: usize,
        bottom: usize,
        left: usize,
        right: usize,
        rows: i64,
        cols: i64,
    )
        requires
            old(self).wf(),
            1 <= old(self).height <= 1_000_000_000,
            top <= bottom,
            bottom <= old(self).height,
            right <= old(self).width,
        ensures
            final (self).wf(),
            final (self).width == old(self).width,
            final (self).height == old(self).height,
            // The whole-grid case rotates the ring instead of copying.
            (left == 0 && right == old(self).width && cols == 0 && top == 0 && bottom == old(
                self,
            ).height) ==> (final (self).cells@ == old(self).cells@ && final (
            self).scroll_offset as int == (old(self).scroll_offset + rows) % (
            old(self).height as int)),
            !(left == 0 && right == old(self).width && cols == 0 && top == 0 && bottom == old(
                self,
            ).height) ==> ({
                let shift: int = if rows >= 0 {
                    if rows > 1_000_000_000 {
                        1_000_000_000int
                    } else {
                        rows as int
                    }
                } else {
                    if rows < -1_000_000_000 {
                        1_000_000_000int
                    } else {
                        -(rows as int)
                    }
                };
                // Rows move by the clamped amount inside the region;
                // every other cell is untouched.
                &&& (rows > 0 && top + shift < bottom ==> forall|xx: int, yy: int|
                    left <= xx < right && top + shift <= yy < bottom ==> GridCell::spec_like(
                        #[trigger] final (self).spec_cell(xx, yy),
                        old(self).spec_cell(xx, yy - shift),
                    ))
                &&& (rows > 0 ==> forall|xx: int, yy: int|
                    0 <= xx < old(self).width && 0 <= yy < old(self).height && !(left <= xx < right
                        && top + shift <= yy < bottom && top + shift < bottom)
                        ==> #[trigger] final (self).spec_cell(xx, yy) == old(self).spec_cell(
                        xx,
                        yy,
                    ))
                &&& (rows < 0 && top + shift < bottom ==> forall|xx: int, yy: int|
                    left <= xx < right && top <= yy < bottom - shift ==> GridCell::spec_like(
                        #[trigger] final (self).spec_cell(xx, yy),
                        old(self).spec_cell(xx, yy + shift),
                    ))
                &&& (rows < 0 ==> forall|xx: int, yy: int|
                    0 <= xx < old(self).width && 0 <= yy < old(self).height && !(left <= xx < right
                        && top <= yy < bottom - shift && top + shift < bottom)
                        ==> #[trigger] final (self).spec_cell(xx, yy) == old(self).spec_cell(
                        xx,
                        yy,
                    ))
                &&& (rows == 0 ==> forall|xx: int, yy: int|
                    0 <= xx < old(self).width && 0 <= yy < old(self).height
                        ==> #[trigger] final (self).spec_cell(xx, yy) == old(self).spec_cell(
                        xx,
                        yy,
                    ))
                // Every row of the region is marked dirty.
                &&& forall|yy: int|
                    top <= yy < bottom ==> final (self).dirty@[#[trigger] final (
                    self).spec_actual_row(yy)]
            }),
    {
        if left == 0 && right == self.width && cols == 0 && top == 0 && bottom == self.height {
            self.scroll(rows);
            return ;
        }
        if rows > 0 {
            // Scroll down: copy rows from top toward bottom, walking
            // backward so sources are read before they are overwritten.
            let shift = if rows > 1_000_000_000 {
                1_000_000_000usize
            } else {
                rows as usize
            };
            if top + shift < bottom {
                let total = bottom - (top + shift);
                let mut i: usize = 0;
                while i < total
                    invariant
                        self.wf(),
                        self.width == old(self).width,
                        self.height == old(self).height,
                        self.scroll_offset == old(self).scroll_offset,
                        1 <= self.height,
                        bottom <= self.height,
                        right <= self.width,
                        shift >= 1,
                        top + shift < bottom,
                        total == bottom - (top + shift),
                        i <= total,
                        forall|xx: int, yy: int|
                            left <= xx < right && bottom - i <= yy < bottom
                                ==> GridCell::spec_like(
                                #[trigger] self.spec_cell(xx, yy),
                                old(self).spec_cell(xx, yy - shift),
                            ),
                        forall|xx: int, yy: int|
                            0 <= xx < self.width && 0 <= yy < self.height && !(left <= xx < right
                                && bottom - i <= yy < bottom) ==> #[trigger] self.spec_cell(xx, yy)
                                == old(self).spec_cell(xx, yy),
                    decreases total - i,
                {
                    let y = bottom - 1 - i;
                    self.copy_row_span(y - shift, y, left, right);
                    i = i + 1;
                }
            }
        } else if rows < 0 {
            // Scroll up: copy rows from bottom toward top.
            let shift = if rows < -1_000_000_000 {
                1_000_000_000usize
            } else {
                (-rows) as usize
            };
            if top + shift < bottom {
                let mut y = top;
                while y + shift < bottom
                    invariant
                        self.wf(),
                        self.width == old(self).width,
                        self.height == old(self).height,
                        self.scroll_offset == old(self).scroll_offset,
                        1 <= self.height <= 1_000_000_000,
                        bottom <= self.height,
                        right <= self.width,
                        shift >= 1,
                        shift <= 1_000_000_000,
                        top + shift < bottom,
                        top <= y,
                        y + shift <= bottom,
                        forall|xx: int, yy: int|
                            left <= xx < right && top <= yy < y ==> GridCell::spec_like(
                                #[trigger] self.spec_cell(xx, yy),
                                old(self).spec_cell(xx, yy + shift),
                            ),
                        forall|xx: int, yy: int|
                            0 <= xx < self.width && 0 <= yy < self.height && !(left <= xx < right
                                && top <= yy < y) ==> #[trigger] self.spec_cell(xx, yy) == old(
                                self,
                            ).spec_cell(xx, yy),
                    decreases bottom - y,
                {
                    self.copy_row_span(y + shift, y, left, right);
                    y = y + 1;
                }
            }
        }
        // Mark the touched rows dirty.
        let ghost mid = *self;
        let mut y = top;
        while y < bottom
            invariant
                self.wf(),
                self.width == mid.width,
                self.height == mid.height,
                self.scroll_offset == mid.scroll_offset,
                self.cells@ == mid.cells@,
                self.dirty@.len() == mid.dirty@.len(),
                1 <= self.height,
                bottom <= self.height,
                top <= y,
                forall|yy: int|
                    top <= yy < y ==> self.dirty@[#[trigger] self.spec_actual_row(yy)],
            decreases bottom - y,
        {
            let ghost pre = *self;
            self.mark_row_dirty(y);
            proof {
                assert forall|yy: int| top <= yy < y + 1 implies self.dirty@[
                #[trigger] self.spec_actual_row(yy)] by {
                    assert(self.spec_actual_row(yy) == pre.spec_actual_row(yy));
                    if yy < y {
                        assert(pre.dirty@[pre.spec_actual_row(yy)]);
                        assert(0 <= pre.spec_actual_row(yy) < pre.dirty@.len());
                    } else {
                        assert(self.dirty@[pre.spec_actual_row(y as int)]);
                    }
                };
            }
            y = y + 1;
        }
        proof {
            assert forall|xx: int, yy: int|
                0 <= xx < self.width && 0 <= yy < self.height implies #[trigger] self.spec_cell(
                xx,
                yy,
            ) == mid.spec_cell(xx, yy) by {
                assert(self.spec_actual_row(yy) == mid.spec_actual_row(yy));
            };
        }
    }

    /// Copy the cells in columns `left` to `right` of logical row
    /// `src_y` onto logical row `dst_y`.
    fn copy_row_span(&mut self, src_y: usize, dst_y: usize, left: usize, right: usize)
        requires
            old(self).wf(),
            1 <= old(self).height,
            src_y < old(self).height,
            dst_y < old(self).height,
            right <= old(self).width,
        ensures
            final (self).wf(),
            final (self).width == old(self).width,
            final (self).height == old(self).height,
            final (self).scroll_offset == old(self).scroll_offset,
            forall|xx: int|
                left <= xx < right ==> GridCell::spec_like(
                    #[trigger] final (self).spec_cell(xx, dst_y as int),
                    old(self).spec_cell(xx, src_y as int),
                ),
            forall|xx: int, yy: int|
                0 <= xx < old(self).width && 0 <= yy < old(self).height && !(left <= xx < right
                    && yy == dst_y) ==> #[trigger] final (self).spec_cell(xx, yy) == old(
                    self,
                ).spec_cell(xx, yy),
    {
        let mut x = left;
        while x < right
            invariant
                self.wf(),
                self.width == old(self).width,
                self.height == old(self).height,
                self.scroll_offset == old(self).scroll_offset,
                1 <= self.height,
                src_y < self.height,
                dst_y < self.height,
                right <= self.width,
                left <= x,
                x <= right || x == left,
                forall|xx: int|
                    left <= xx < x ==> GridCell::spec_like(
                        #[trigger] self.spec_cell(xx, dst_y as int),
                        old(self).spec_cell(xx, src_y as int),
                    ),
                forall|xx: int, yy: int|
                    0 <= xx < self.width && 0 <= yy < self.height && !(left <= xx < x && yy
                        == dst_y) ==> #[trigger] self.spec_cell(xx, yy) == old(self).spec_cell(
                        xx,
                        yy,
                    ),
            decreases right - x,
        {
            let cell = match self.get_cell(x, src_y) {
                Some(c) => c.duplicate(),
                None => GridCell::blank(),
            };
            self.set_cell_value(x, dst_y, cell);
            x = x + 1;
        }
    }
}

} // verus!
