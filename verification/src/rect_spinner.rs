//! Square braille-arc spinner: a thick arc of braille dots travelling around
//! the ring of a square, with an optionally filled centre.
use vstd::prelude::*;

use crate::cell::{blank_grid, braille, braille_char, grid_view, pack_cell, packed_byte, Alignment, Cell, Color};

verus! {

/// Rotation direction of an arc.
#[derive(Debug, Clone, Copy, PartialEq, Eq, Structural)]
pub enum Spin {
    /// The arc travels clockwise (default).
    Clockwise,
    /// The arc travels counter-clockwise.
    CounterClockwise,
}

impl Default for Spin {
    fn default() -> (s: Self)
        ensures
            s == Spin::Clockwise,
    {
        Spin::Clockwise
    }
}

/// Whether the centre of a square spinner is filled.
#[derive(Debug, Clone, Copy, PartialEq, Eq, Structural)]
pub enum Centre {
    /// The interior is filled with a solid block (default).
    Filled,
    /// The interior is left empty; only the moving arc is visible.
    Empty,
}

impl Default for Centre {
    fn default() -> (c: Self)
        ensures
            c == Centre::Filled,
    {
        Centre::Filled
    }
}

/// Shape of a [`RectSpinner`].
#[derive(Debug, Clone, Copy, PartialEq, Eq, Structural)]
pub enum RectShape {
    /// A square whose arc thickness is the given size (2 to 8).
    Square(usize),
}

impl Default for RectShape {
    fn default() -> (s: Self)
        ensures
            s == RectShape::Square(2),
    {
        RectShape::Square(2)
    }
}


// ── Dot coordinates and the dot grid ─────────────────────────────────────────

/// Largest coordinate magnitude the ring geometry works with; square rings are
/// at most 38 dots across.
pub open spec fn small(v: int) -> bool {
    -1000 <= v <= 1000
}

/// A dot position `(row, col)` on the square ring.
#[derive(Debug, Clone, Copy, PartialEq, Eq, Structural)]
pub struct Coord {
    pub row: isize,
    pub col: isize,
}

/// The coordinate `(row, col)`.
pub open spec fn at(row: int, col: int) -> Coord {
    Coord { row: row as isize, col: col as isize }
}

impl Coord {
    /// Creates the coordinate `(row, col)`.
    pub fn new(row: isize, col: isize) -> (c: Self)
        ensures
            c == at(row as int, col as int),
    {
        Coord { row, col }
    }

    /// Both coordinates are small.
    pub open spec fn is_small(self) -> bool {
        small(self.row as int) && small(self.col as int)
    }
}

/// `lo ≤ x ≤ hi` in either orientation of the bounds.
pub open spec fn between(x: int, a: int, b: int) -> bool {
    (a <= x <= b) || (b <= x <= a)
}

/// Whether `(row, col)` is on the L-shaped path that [`Grid::fill`] draws from
/// `start` to `end`: first along `start`'s column to `end`'s row, then along
/// `end`'s row to `end`'s column.
pub open spec fn on_l_path(start: Coord, end: Coord, row: int, col: int) -> bool {
    (col == start.col && between(row, start.row as int, end.row as int)) || (row == end.row
        && between(col, start.col as int, end.col as int))
}

/// A boolean dot grid addressed with a vertical offset: dot `(row, col)` is
/// stored at `cells[row + offset][col]`.
pub struct Grid {
    pub cells: Vec<Vec<bool>>,
    pub offset: isize,
}

impl Grid {
    /// A non-empty rectangular grid of at most 64 × 64 dots.
    pub open spec fn wf(self) -> bool {
        &&& 1 <= self.cells.len() <= 64
        &&& 0 <= self.offset <= 2
        &&& self.cols() <= 64
        &&& forall|r: int| 0 <= r < self.cells.len() ==> #[trigger] self.cells@[r].len() == self.cols()
    }

    /// Number of dot columns.
    pub open spec fn cols(self) -> int {
        self.cells@[0].len() as int
    }

    /// The grid's dots, row by row.
    pub open spec fn dots(self) -> Seq<Seq<bool>> {
        grid_view(self.cells@)
    }

    /// Whether the grid has the same shape and offset as `other`.
    pub open spec fn same_shape(self, other: Grid) -> bool {
        &&& self.cells.len() == other.cells.len()
        &&& self.cols() == other.cols()
        &&& self.offset == other.offset
    }

    /// Whether dot `(row, col)` (before the offset) is stored in the grid.
    pub open spec fn holds(self, row: int, col: int) -> bool {
        0 <= row + self.offset < self.cells.len() && 0 <= col < self.cols()
    }

    /// Sets dot `(row, col)` when it lies inside the grid; does nothing
    /// otherwise.
    pub fn set(&mut self, row: isize, col: isize, value: bool)
        requires
            old(self).wf(),
            small(row as int),
            small(col as int),
        ensures
            final(self).wf(),
            final(self).same_shape(*old(self)),
            forall|r: int, c: int|
                0 <= r < old(self).cells.len() && 0 <= c < old(self).cols() ==> #[trigger] final(self).dots()[r][c] == if r == row + old(self).offset && c == col {
                    value
                } else {
                    old(self).dots()[r][c]
                },
    {
        let r = row + self.offset;
        if 0 <= r && (r as usize) < self.cells.len() && 0 <= col && (col as usize) < self.cells[0].len() {
            let ru = r as usize;
            let cu = col as usize;
            assert(self.cells@[ru as int].len() == self.cols());
            self.cells[ru].set(cu, value);
            assert forall|k: int| 0 <= k < self.cells.len() implies #[trigger] self.cells@[k].len()
                == self.cols() by {
                if k != ru {
                    assert(self.cells@[k] == old(self).cells@[k]);
                }
            }
        }
    }

    /// Sets every dot on the L-shaped path from `start` to `end` (see
    /// [`on_l_path`]).
    pub fn fill(&mut self, start: Coord, end: Coord)
        requires
            old(self).wf(),
            start.is_small(),
            end.is_small(),
        ensures
            final(self).wf(),
            final(self).same_shape(*old(self)),
            forall|r: int, c: int|
                0 <= r < old(self).cells.len() && 0 <= c < old(self).cols() ==> #[trigger] final(self).dots()[r][c] == (old(self).dots()[r][c] || on_l_path(
                    start,
                    end,
                    r - old(self).offset,
                    c,
                )),
    {
        let ghost before = *old(self);
        let x: isize = if end.col < start.col {
            -1
        } else {
            1
        };
        let y: isize = if end.row < start.row {
            -1
        } else {
            1
        };
        let mut row = start.row;
        let col0 = start.col;
        self.set(row, col0, true);
        while row != end.row
            invariant
                self.wf(),
                self.same_shape(before),
                before.wf(),
                start.is_small(),
                end.is_small(),
                between(row as int, start.row as int, end.row as int),
                y == (if end.row < start.row { -1isize } else { 1isize }),
                col0 == start.col,
                forall|r: int, c: int|
                    0 <= r < before.cells.len() && 0 <= c < before.cols() ==> #[trigger] self.dots()[r][c]
                        == (before.dots()[r][c] || (c == start.col && between(
                        r - before.offset,
                        start.row as int,
                        row as int,
                    ))),
            decreases if end.row >= row { end.row - row } else { row - end.row },
        {
            row = row + y;
            self.set(row, col0, true);
        }
        let mut col = start.col;
        while col != end.col
            invariant
                self.wf(),
                self.same_shape(before),
                before.wf(),
                start.is_small(),
                end.is_small(),
                row == end.row,
                between(col as int, start.col as int, end.col as int),
                x == (if end.col < start.col { -1isize } else { 1isize }),
                forall|r: int, c: int|
                    0 <= r < before.cells.len() && 0 <= c < before.cols() ==> #[trigger] self.dots()[r][c]
                        == (before.dots()[r][c] || (c == start.col && between(
                        r - before.offset,
                        start.row as int,
                        end.row as int,
                    )) || (r - before.offset == end.row && between(c, start.col as int, col as int))),
            decreases if end.col >= col { end.col - col } else { col - end.col },
        {
            col = col + x;
            self.set(row, col, true);
        }
    }
}

// ── Geometry helpers ─────────────────────────────────────────────────────────

/// Side of the square dot grid for a ring of thickness `size`:
/// `8 + 5·(size − 2)`.
pub open spec fn dimension(size: int) -> int {
    8 + 5 * sat_minus(size, 2)
}

/// `a - b`, or `0` when `b > a`.
pub open spec fn sat_minus(a: int, b: int) -> int {
    if a >= b {
        a - b
    } else {
        0
    }
}

/// Computes [`dimension`].
pub fn calc_dimension(size: usize) -> (d: usize)
    requires
        dimension(size as int) <= usize::MAX,
    ensures
        d == dimension(size as int),
{
    8 + 5 * (if size >= 2 {
        size - 2
    } else {
        0
    })
}

/// Extra blank dot rows above the ring: 2 for size 2, none otherwise.
pub open spec fn row_offset(size: int) -> int {
    if size == 2 {
        2
    } else {
        0
    }
}

/// Computes [`row_offset`].
pub fn vertical_offset(size: usize) -> (o: isize)
    ensures
        o == row_offset(size as int),
{
    if size == 2 {
        2
    } else {
        0
    }
}

/// Top-left dot of the centre square of side `size` in a grid `width` wide.
pub open spec fn centre_start(size: int, width: int) -> Coord {
    at(width / 2 - size / 2, width / 2 - size / 2)
}

/// The centre square: `size × size` dots from [`centre_start`], row-major;
/// with its top-left and bottom-right dots.
pub fn make_centre(size: isize, width: isize) -> (r: (Vec<Coord>, Coord, Coord))
    requires
        1 <= size <= 8,
        1 <= width <= 64,
    ensures
        r.1 == centre_start(size as int, width as int),
        r.2 == at(r.1.row + size - 1, r.1.col + size - 1),
        r.0@ == Seq::new(
            (size * size) as nat,
            |k: int| at(r.1.row + k / (size as int), r.1.col + k % (size as int)),
        ),
{
    let mid = width / 2;
    let off = size / 2;
    let start = Coord::new(mid - off, mid - off);
    let mut cells: Vec<Coord> = Vec::new();
    let mut i: isize = 0;
    while i < size
        invariant
            0 <= i <= size,
            1 <= size <= 8,
            start.is_small(),
            cells@.len() == i * size,
            forall|k: int|
                0 <= k < i * size ==> #[trigger] cells@[k] == at(
                    start.row + k / (size as int),
                    start.col + k % (size as int),
                ),
        decreases size - i,
    {
        let mut j: isize = 0;
        while j < size
            invariant
                0 <= i < size,
                0 <= j <= size,
                1 <= size <= 8,
                start.is_small(),
                cells@.len() == i * size + j,
                forall|k: int|
                    0 <= k < i * size + j ==> #[trigger] cells@[k] == at(
                        start.row + k / (size as int),
                        start.col + k % (size as int),
                    ),
            decreases size - j,
        {
            proof {
                let k = i * size + j;
                assert(k / (size as int) == i && k % (size as int) == j) by (nonlinear_arith)
                    requires
                        k == i * size + j,
                        0 <= j < size,
                        0 <= i,
                ;
            }
            cells.push(Coord::new(start.row + i, start.col + j));
            j += 1;
        }
        assert((i + 1) * size == i * size + size) by (nonlinear_arith);
        i += 1;
    }
    let end = Coord::new(start.row + size - 1, start.col + size - 1);
    (cells, start, end)
}


// ── Rotation tables ──────────────────────────────────────────────────────────

/// The turn table of the arc head for a `width × height` grid and ring
/// thickness `size`, in insertion order: a head segment standing on one of
/// these keys turns the corner onto the paired value.
///
/// Top-right: `(n, w−1) → (size, w−1−n)`; bottom-right:
/// `(h−1, w−1−n) → (h−1−n, w−1−size)`; bottom-left:
/// `(h−1−n, 0) → (w−1−size, n)`; top-left: `(0, n) → (n, size)`.
pub open spec fn head_pairs(width: int, height: int, size: int) -> Seq<(Coord, Coord)> {
    let ec = width - 1;
    let er = height - 1;
    Seq::new(size as nat, |n: int| (at(n, ec), at(size, ec - n))) + Seq::new(
        size as nat,
        |n: int| (at(er, ec - n), at(er - n, ec - size)),
    ) + Seq::new(size as nat, |n: int| (at(er - n, 0), at(ec - size, n))) + Seq::new(
        size as nat,
        |n: int| (at(0, n), at(n, size)),
    )
}

/// The turn table of the arc tail, in insertion order.
///
/// `(size, n) → (n, 0)`; `(n, w−1−size) → (0, w−1−n)`;
/// `(h−1−size, w−1−n) → (h−1−n, w−1)`; `(h−1−n, size) → (h−1, n)`.
pub open spec fn tail_pairs(width: int, height: int, size: int) -> Seq<(Coord, Coord)> {
    let ec = width - 1;
    let er = height - 1;
    Seq::new(size as nat, |n: int| (at(size, n), at(n, 0))) + Seq::new(
        size as nat,
        |n: int| (at(n, ec - size), at(0, ec - n)),
    ) + Seq::new(size as nat, |n: int| (at(er - size, ec - n), at(er - n, ec))) + Seq::new(
        size as nat,
        |n: int| (at(er - n, size), at(er, n)),
    )
}

/// Table parameters that keep every coordinate small.
pub open spec fn table_args(width: int, height: int, size: int) -> bool {
    1 <= size <= 8 && 1 <= width <= 64 && 1 <= height <= 64
}

/// Appends `(key(n), value(n))` for `n` in `0..size` — one corner of a table.
fn push_corner(
    m: &mut Vec<(Coord, Coord)>,
    size: isize,
    kr: isize,
    kr_step: isize,
    kc: isize,
    kc_step: isize,
    vr: isize,
    vr_step: isize,
    vc: isize,
    vc_step: isize,
)
    requires
        1 <= size <= 8,
        small(kr as int) && small(kc as int) && small(vr as int) && small(vc as int),
        -1 <= kr_step <= 1 && -1 <= kc_step <= 1 && -1 <= vr_step <= 1 && -1 <= vc_step <= 1,
    ensures
        final(m)@ == old(m)@ + Seq::new(
            size as nat,
            |n: int|
                (
                    at(kr + n * kr_step, kc + n * kc_step),
                    at(vr + n * vr_step, vc + n * vc_step),
                ),
        ),
{
    let ghost base = old(m)@;
    let mut n: isize = 0;
    while n < size
        invariant
            0 <= n <= size,
            1 <= size <= 8,
            small(kr as int) && small(kc as int) && small(vr as int) && small(vc as int),
            -1 <= kr_step <= 1 && -1 <= kc_step <= 1 && -1 <= vr_step <= 1 && -1 <= vc_step <= 1,
            m@.len() == base.len() + n,
            forall|k: int| 0 <= k < base.len() ==> #[trigger] m@[k] == base[k],
            forall|k: int|
                0 <= k < n ==> #[trigger] m@[base.len() + k] == (
                    at(kr + k * kr_step, kc + k * kc_step),
                    at(vr + k * vr_step, vc + k * vc_step),
                ),
        decreases size - n,
    {
        assert(-8 <= n * kr_step <= 8 && -8 <= n * kc_step <= 8 && -8 <= n * vr_step <= 8 && -8
            <= n * vc_step <= 8) by (nonlinear_arith)
            requires
                0 <= n < 8,
                -1 <= kr_step <= 1 && -1 <= kc_step <= 1 && -1 <= vr_step <= 1 && -1 <= vc_step <= 1,
        ;
        m.push(
            (
                Coord::new(kr + n * kr_step, kc + n * kc_step),
                Coord::new(vr + n * vr_step, vc + n * vc_step),
            ),
        );
        n += 1;
    }
    let ghost added = Seq::new(
        size as nat,
        |n: int| (at(kr + n * kr_step, kc + n * kc_step), at(vr + n * vr_step, vc + n * vc_step)),
    );
    assert forall|j: int| 0 <= j < m@.len() implies #[trigger] m@[j] == (base + added)[j] by {
        if j >= base.len() {
            let k = j - base.len();
            assert(m@[base.len() + k] == added[k]);
        }
    }
    assert(m@ =~= base + added);
}

/// Builds the head turn table, [`head_pairs`].
pub fn make_head_map(width: isize, height: isize, size: isize) -> (m: Vec<(Coord, Coord)>)
    requires
        table_args(width as int, height as int, size as int),
    ensures
        m@ == head_pairs(width as int, height as int, size as int),
{
    let mut m: Vec<(Coord, Coord)> = Vec::new();
    let end_col = width - 1;
    let end_row = height - 1;
    push_corner(&mut m, size, 0, 1, end_col, 0, size, 0, end_col, -1);
    push_corner(&mut m, size, end_row, 0, end_col, -1, end_row, -1, end_col - size, 0);
    push_corner(&mut m, size, end_row, -1, 0, 0, end_col - size, 0, 0, 1);
    push_corner(&mut m, size, 0, 0, 0, 1, 0, 1, size, 0);
    assert(m@ =~= head_pairs(width as int, height as int, size as int));
    m
}

/// Builds the tail turn table, [`tail_pairs`].
pub fn make_tail_map(width: isize, height: isize, size: isize) -> (m: Vec<(Coord, Coord)>)
    requires
        table_args(width as int, height as int, size as int),
    ensures
        m@ == tail_pairs(width as int, height as int, size as int),
{
    let mut m: Vec<(Coord, Coord)> = Vec::new();
    let end_col = width - 1;
    let end_row = height - 1;
    push_corner(&mut m, size, size, 0, 0, 1, 0, 1, 0, 0);
    push_corner(&mut m, size, 0, 1, end_col - size, 0, 0, 0, end_col, -1);
    push_corner(&mut m, size, end_row - size, 0, end_col, -1, end_row, -1, end_col, 0);
    push_corner(&mut m, size, end_row, -1, size, 0, end_row, 0, 0, 1);
    assert(m@ =~= tail_pairs(width as int, height as int, size as int));
    m
}

/// The value a table gives `key`: the most recently inserted pair with that
/// key wins, as in a map filled by successive inserts.
pub open spec fn lookup(pairs: Seq<(Coord, Coord)>, key: Coord) -> Option<Coord>
    decreases pairs.len(),
{
    if pairs.len() == 0 {
        None
    } else if pairs.last().0 == key {
        Some(pairs.last().1)
    } else {
        lookup(pairs.drop_last(), key)
    }
}

/// Looks `key` up in a table (see [`lookup`]).
fn find(pairs: &Vec<(Coord, Coord)>, key: Coord) -> (r: Option<Coord>)
    ensures
        r == lookup(pairs@, key),
{
    let mut i = pairs.len();
    assert(pairs@.subrange(0, i as int) =~= pairs@);
    while i > 0
        invariant
            i <= pairs.len(),
            lookup(pairs@, key) == lookup(pairs@.subrange(0, i as int), key),
        decreases i,
    {
        let ghost prefix = pairs@.subrange(0, i as int);
        if pairs[i - 1].0 == key {
            return Some(pairs[i - 1].1);
        }
        assert(prefix.drop_last() =~= pairs@.subrange(0, i - 1));
        i -= 1;
    }
    None
}

/// Every node of a segment turned by a table, or `None` when some node is
/// not a key of the table.
pub open spec fn rotated(nodes: Seq<Coord>, pairs: Seq<(Coord, Coord)>) -> Option<Seq<Coord>> {
    if forall|i: int| 0 <= i < nodes.len() ==> #[trigger] lookup(pairs, nodes[i]) is Some {
        Some(Seq::new(nodes.len(), |i: int| lookup(pairs, nodes[i])->0))
    } else {
        None
    }
}

/// Turns every node of a segment through the table; `None` as soon as one
/// node is not a key.
pub fn rotate_nodes(nodes: &Vec<Coord>, rotation: &Vec<(Coord, Coord)>) -> (r: Option<Vec<Coord>>)
    ensures
        r matches Some(v) ==> rotated(nodes@, rotation@) == Some(v@),
        r is None ==> rotated(nodes@, rotation@) is None,
{
    let mut transform: Vec<Coord> = Vec::new();
    let mut i: usize = 0;
    while i < nodes.len()
        invariant
            i <= nodes.len(),
            transform@.len() == i,
            forall|k: int|
                0 <= k < i ==> lookup(rotation@, #[trigger] nodes@[k]) == Some(transform@[k]),
        decreases nodes.len() - i,
    {
        match find(rotation, nodes[i]) {
            Some(next) => transform.push(next),
            None => {
                assert(!(lookup(rotation@, nodes@[i as int]) is Some));
                return None;
            },
        }
        i += 1;
    }
    assert(transform@ =~= Seq::new(nodes@.len(), |k: int| lookup(rotation@, nodes@[k])->0));
    Some(transform)
}

// ── Step logic ───────────────────────────────────────────────────────────────

/// Horizontal direction of a vertical segment: right when it touches the top
/// row, left otherwise.
pub open spec fn x_direction(nodes: Seq<Coord>) -> int {
    if exists|i: int| 0 <= i < nodes.len() && #[trigger] nodes[i].row == 0 {
        1
    } else {
        -1
    }
}

/// Vertical direction of a horizontal segment: up when it touches the left
/// column, down otherwise.
pub open spec fn y_direction(nodes: Seq<Coord>) -> int {
    if exists|i: int| 0 <= i < nodes.len() && #[trigger] nodes[i].col == 0 {
        -1
    } else {
        1
    }
}

/// Whether all nodes share the first node's column (the segment is
/// vertical and travels horizontally).
pub open spec fn is_traversing_x(nodes: Seq<Coord>) -> bool {
    forall|i: int| 0 <= i < nodes.len() ==> #[trigger] nodes[i].col == nodes[0].col
}

/// Whether all nodes share the first node's row.
pub open spec fn is_traversing_y(nodes: Seq<Coord>) -> bool {
    forall|i: int| 0 <= i < nodes.len() ==> #[trigger] nodes[i].row == nodes[0].row
}

/// Computes [`x_direction`].
pub fn x_dir(nodes: &Vec<Coord>) -> (d: isize)
    ensures
        d == x_direction(nodes@),
{
    let mut i: usize = 0;
    while i < nodes.len()
        invariant
            i <= nodes.len(),
            forall|k: int| 0 <= k < i ==> #[trigger] nodes@[k].row != 0,
        decreases nodes.len() - i,
    {
        if nodes[i].row == 0 {
            return 1;
        }
        i += 1;
    }
    -1
}

/// Computes [`y_direction`].
pub fn y_dir(nodes: &Vec<Coord>) -> (d: isize)
    ensures
        d == y_direction(nodes@),
{
    let mut i: usize = 0;
    while i < nodes.len()
        invariant
            i <= nodes.len(),
            forall|k: int| 0 <= k < i ==> #[trigger] nodes@[k].col != 0,
        decreases nodes.len() - i,
    {
        if nodes[i].col == 0 {
            return -1;
        }
        i += 1;
    }
    1
}

/// Computes [`is_traversing_x`].
pub fn traversing_x(nodes: &Vec<Coord>) -> (b: bool)
    requires
        nodes.len() >= 1,
    ensures
        b == is_traversing_x(nodes@),
{
    let first_col = nodes[0].col;
    let mut i: usize = 1;
    while i < nodes.len()
        invariant
            1 <= i <= nodes.len(),
            first_col == nodes@[0].col,
            forall|k: int| 0 <= k < i ==> #[trigger] nodes@[k].col == first_col,
        decreases nodes.len() - i,
    {
        if nodes[i].col != first_col {
            return false;
        }
        i += 1;
    }
    true
}

/// Computes [`is_traversing_y`].
pub fn traversing_y(nodes: &Vec<Coord>) -> (b: bool)
    requires
        nodes.len() >= 1,
    ensures
        b == is_traversing_y(nodes@),
{
    let first_row = nodes[0].row;
    let mut i: usize = 1;
    while i < nodes.len()
        invariant
            1 <= i <= nodes.len(),
            first_row == nodes@[0].row,
            forall|k: int| 0 <= k < i ==> #[trigger] nodes@[k].row == first_row,
        decreases nodes.len() - i,
    {
        if nodes[i].row != first_row {
            return false;
        }
        i += 1;
    }
    true
}

/// Every node moved by `(dr, dc)`.
pub open spec fn shifted(nodes: Seq<Coord>, dr: int, dc: int) -> Seq<Coord> {
    Seq::new(nodes.len(), |i: int| at(nodes[i].row + dr, nodes[i].col + dc))
}

/// A segment after one step: turned through the table when every node is a
/// key; otherwise a vertical segment moves one column (right when it touches
/// the top row) and then a horizontal segment moves one row (up when it
/// touches the left column).
pub open spec fn stepped_nodes(nodes: Seq<Coord>, pairs: Seq<(Coord, Coord)>) -> Seq<Coord> {
    match rotated(nodes, pairs) {
        Some(turned) => turned,
        None => {
            let moved = if is_traversing_x(nodes) {
                shifted(nodes, 0, x_direction(nodes))
            } else {
                nodes
            };
            if is_traversing_y(moved) {
                shifted(moved, y_direction(moved), 0)
            } else {
                moved
            }
        },
    }
}

/// Whether every coordinate of a segment is within `bound` of the origin.
pub open spec fn within(nodes: Seq<Coord>, bound: int) -> bool {
    forall|i: int|
        0 <= i < nodes.len() ==> -bound <= #[trigger] nodes[i].row <= bound && -bound
            <= nodes[i].col <= bound
}

/// Moves every node by `(dr, dc)`.
fn shift(nodes: &mut Vec<Coord>, dr: isize, dc: isize)
    requires
        within(old(nodes)@, 999),
        -1 <= dr <= 1,
        -1 <= dc <= 1,
    ensures
        final(nodes)@ == shifted(old(nodes)@, dr as int, dc as int),
{
    let ghost before = old(nodes)@;
    let mut i: usize = 0;
    while i < nodes.len()
        invariant
            i <= nodes.len(),
            nodes@.len() == before.len(),
            within(before, 999),
            -1 <= dr <= 1,
            -1 <= dc <= 1,
            forall|k: int| i <= k < nodes@.len() ==> #[trigger] nodes@[k] == before[k],
            forall|k: int|
                0 <= k < i ==> #[trigger] nodes@[k] == at(before[k].row + dr, before[k].col + dc),
        decreases nodes.len() - i,
    {
        let p = nodes[i];
        nodes.set(i, Coord::new(p.row + dr, p.col + dc));
        i += 1;
    }
    assert(nodes@ =~= shifted(before, dr as int, dc as int));
}

/// Advances a segment by one step (see [`stepped_nodes`]).
pub fn step(nodes: &mut Vec<Coord>, rotate: &Vec<(Coord, Coord)>)
    requires
        old(nodes).len() >= 1,
        within(old(nodes)@, 998),
    ensures
        final(nodes)@ == stepped_nodes(old(nodes)@, rotate@),
{
    if let Some(next) = rotate_nodes(nodes, rotate) {
        *nodes = next;
        return;
    }
    let ghost before = nodes@;
    if traversing_x(nodes) {
        let dir = x_dir(nodes);
        shift(nodes, 0, dir);
    }
    let ghost moved = nodes@;
    assert(moved.len() == before.len());
    if traversing_y(nodes) {
        let dir = y_dir(nodes);
        shift(nodes, dir, 0);
    }
}


// ── Ring invariant ───────────────────────────────────────────────────────────
//
// A ring of thickness `s` lives in a `d × d` dot grid with `d = 5s − 2`; write
// `e = d − 1` for its last row and column.  Head and tail are straight
// segments of `s` dots lying across one of the four sides of the ring.

/// Last dot row and column of the ring of thickness `s`.
pub open spec fn ring_end(s: int) -> int {
    5 * s - 3
}

/// A segment of `s` dots across one side of the ring, at position `p` along
/// that side: `0` a vertical segment on the top side (column `p`), `1` a
/// horizontal segment on the right side (row `p`), `2` a vertical segment on
/// the bottom side (column `p`), `3` a horizontal segment on the left side
/// (row `p`).  Dot `n` of the segment is `n` dots in from the outer edge.
pub open spec fn band(side: int, p: int, s: int) -> Seq<Coord> {
    let e = ring_end(s);
    Seq::new(
        s as nat,
        |n: int|
            if side == 0 {
                at(n, p)
            } else if side == 1 {
                at(p, e - n)
            } else if side == 2 {
                at(e - n, p)
            } else {
                at(p, n)
            },
    )
}

/// Positions the head reaches: along the top side moving right and the right
/// side moving down from `s` to `e`; along the bottom side moving left and
/// the left side moving up from `e − s` to `0`.
pub open spec fn head_place(side: int, p: int, s: int) -> bool {
    let e = ring_end(s);
    &&& 0 <= side <= 3
    &&& (side == 0 || side == 1) ==> s <= p <= e
    &&& (side == 2 || side == 3) ==> 0 <= p <= e - s
}

/// Positions the tail reaches: the left side moving up and the bottom side
/// moving left between `e` and `s`; the top side moving right and the right
/// side moving down from `0` to `e − s`.
pub open spec fn tail_place(side: int, p: int, s: int) -> bool {
    let e = ring_end(s);
    &&& 0 <= side <= 3
    &&& (side == 3 || side == 2) ==> s <= p <= e
    &&& (side == 0 || side == 1) ==> 0 <= p <= e - s
}

/// The head position after one step.
pub open spec fn head_next(side: int, p: int, s: int) -> (int, int) {
    let e = ring_end(s);
    if side == 0 {
        if p < e { (0, p + 1) } else { (1, s) }
    } else if side == 1 {
        if p < e { (1, p + 1) } else { (2, e - s) }
    } else if side == 2 {
        if p > 0 { (2, p - 1) } else { (3, e - s) }
    } else {
        if p > 0 { (3, p - 1) } else { (0, s) }
    }
}

/// The tail position after one step.
pub open spec fn tail_next(side: int, p: int, s: int) -> (int, int) {
    let e = ring_end(s);
    if side == 3 {
        if p > s { (3, p - 1) } else { (0, 0) }
    } else if side == 0 {
        if p < e - s { (0, p + 1) } else { (1, 0) }
    } else if side == 1 {
        if p < e - s { (1, p + 1) } else { (2, e) }
    } else {
        if p > s { (2, p - 1) } else { (3, e) }
    }
}

/// Whether `nodes` is a head segment of a ring of thickness `s`.
pub open spec fn is_head(nodes: Seq<Coord>, s: int) -> bool {
    exists|side: int, p: int| head_place(side, p, s) && nodes == band(side, p, s)
}

/// Whether `nodes` is a tail segment of a ring of thickness `s`.
pub open spec fn is_tail(nodes: Seq<Coord>, s: int) -> bool {
    exists|side: int, p: int| tail_place(side, p, s) && nodes == band(side, p, s)
}

/// The head turn table as a rule on coordinates.
pub open spec fn head_rule(s: int, k: Coord) -> Option<Coord> {
    let e = ring_end(s);
    let r = k.row as int;
    let c = k.col as int;
    if 0 <= r < s && c == e {
        Some(at(s, e - r))
    } else if r == e && e - s < c <= e {
        Some(at(c, e - s))
    } else if c == 0 && e - s < r <= e {
        Some(at(e - s, e - r))
    } else if r == 0 && 0 <= c < s {
        Some(at(c, s))
    } else {
        None
    }
}

/// The tail turn table as a rule on coordinates.
pub open spec fn tail_rule(s: int, k: Coord) -> Option<Coord> {
    let e = ring_end(s);
    let r = k.row as int;
    let c = k.col as int;
    if r == s && 0 <= c < s {
        Some(at(c, 0))
    } else if c == e - s && 0 <= r < s {
        Some(at(0, e - r))
    } else if r == e - s && e - s < c <= e {
        Some(at(c, e))
    } else if c == s && e - s < r <= e {
        Some(at(e, e - r))
    } else {
        None
    }
}

/// A key held once in a table gives its value.
pub proof fn lemma_lookup_unique(pairs: Seq<(Coord, Coord)>, i: int)
    requires
        0 <= i < pairs.len(),
        forall|j: int| 0 <= j < pairs.len() && j != i ==> #[trigger] pairs[j].0 != pairs[i].0,
    ensures
        lookup(pairs, pairs[i].0) == Some(pairs[i].1),
    decreases pairs.len(),
{
    if i != pairs.len() - 1 {
        let rest = pairs.drop_last();
        assert(rest[i] == pairs[i]);
        assert forall|j: int| 0 <= j < rest.len() && j != i implies #[trigger] rest[j].0 != rest[i].0 by {
            assert(rest[j] == pairs[j]);
        }
        lemma_lookup_unique(rest, i);
    }
}

/// A key absent from a table gives `None`.
pub proof fn lemma_lookup_absent(pairs: Seq<(Coord, Coord)>, key: Coord)
    requires
        forall|j: int| 0 <= j < pairs.len() ==> #[trigger] pairs[j].0 != key,
    ensures
        lookup(pairs, key) is None,
    decreases pairs.len(),
{
    if pairs.len() > 0 {
        let rest = pairs.drop_last();
        assert forall|j: int| 0 <= j < rest.len() implies #[trigger] rest[j].0 != key by {
            assert(rest[j] == pairs[j]);
        }
        lemma_lookup_absent(rest, key);
    }
}

/// Entry `j` of the head table of a ring of thickness `s`.
pub proof fn lemma_head_pairs_index(s: int, j: int)
    requires
        2 <= s <= 8,
        0 <= j < 4 * s,
    ensures
        ({
            let e = ring_end(s);
            let t = head_pairs(e + 1, e + 1, s);
            t.len() == 4 * s && if j < s {
                t[j] == (at(j, e), at(s, e - j))
            } else if j < 2 * s {
                t[j] == (at(e, e - (j - s)), at(e - (j - s), e - s))
            } else if j < 3 * s {
                t[j] == (at(e - (j - 2 * s), 0), at(e - s, j - 2 * s))
            } else {
                t[j] == (at(0, j - 3 * s), at(j - 3 * s, s))
            }
        }),
{
}

/// Entry `j` of the tail table of a ring of thickness `s`.
pub proof fn lemma_tail_pairs_index(s: int, j: int)
    requires
        2 <= s <= 8,
        0 <= j < 4 * s,
    ensures
        ({
            let e = ring_end(s);
            let t = tail_pairs(e + 1, e + 1, s);
            t.len() == 4 * s && if j < s {
                t[j] == (at(s, j), at(j, 0))
            } else if j < 2 * s {
                t[j] == (at(j - s, e - s), at(0, e - (j - s)))
            } else if j < 3 * s {
                t[j] == (at(e - s, e - (j - 2 * s)), at(e - (j - 2 * s), e))
            } else {
                t[j] == (at(e - (j - 3 * s), s), at(e, j - 3 * s))
            }
        }),
{
}


/// Looking a small coordinate up in the head table follows [`head_rule`].
pub proof fn lemma_head_lookup(s: int, k: Coord)
    requires
        2 <= s <= 8,
        k.is_small(),
    ensures
        lookup(head_pairs(ring_end(s) + 1, ring_end(s) + 1, s), k) == head_rule(s, k),
{
    let e = ring_end(s);
    let t = head_pairs(e + 1, e + 1, s);
    let r = k.row as int;
    let c = k.col as int;
    lemma_head_pairs_index(s, 0);
    if 0 <= r < s && c == e {
        let i = r;
        lemma_head_pairs_index(s, i);
        assert(t[i].0 == k);
        assert forall|j: int| 0 <= j < t.len() && j != i implies #[trigger] t[j].0 != t[i].0 by {
            lemma_head_pairs_index(s, j);
        }
        lemma_lookup_unique(t, i);
    } else if r == e && e - s < c <= e {
        let i = s + (e - c);
        lemma_head_pairs_index(s, i);
        assert(t[i].0 == k);
        assert forall|j: int| 0 <= j < t.len() && j != i implies #[trigger] t[j].0 != t[i].0 by {
            lemma_head_pairs_index(s, j);
        }
        lemma_lookup_unique(t, i);
    } else if c == 0 && e - s < r <= e {
        let i = 2 * s + (e - r);
        lemma_head_pairs_index(s, i);
        assert(t[i].0 == k);
        assert forall|j: int| 0 <= j < t.len() && j != i implies #[trigger] t[j].0 != t[i].0 by {
            lemma_head_pairs_index(s, j);
        }
        lemma_lookup_unique(t, i);
    } else if r == 0 && 0 <= c < s {
        let i = 3 * s + c;
        lemma_head_pairs_index(s, i);
        assert(t[i].0 == k);
        assert forall|j: int| 0 <= j < t.len() && j != i implies #[trigger] t[j].0 != t[i].0 by {
            lemma_head_pairs_index(s, j);
        }
        lemma_lookup_unique(t, i);
    } else {
        assert forall|j: int| 0 <= j < t.len() implies #[trigger] t[j].0 != k by {
            lemma_head_pairs_index(s, j);
        }
        lemma_lookup_absent(t, k);
    }
}

/// Looking a small coordinate up in the tail table follows [`tail_rule`].
pub proof fn lemma_tail_lookup(s: int, k: Coord)
    requires
        2 <= s <= 8,
        k.is_small(),
    ensures
        lookup(tail_pairs(ring_end(s) + 1, ring_end(s) + 1, s), k) == tail_rule(s, k),
{
    let e = ring_end(s);
    let t = tail_pairs(e + 1, e + 1, s);
    let r = k.row as int;
    let c = k.col as int;
    lemma_tail_pairs_index(s, 0);
    if r == s && 0 <= c < s {
        let i = c;
        lemma_tail_pairs_index(s, i);
        assert(t[i].0 == k);
        assert forall|j: int| 0 <= j < t.len() && j != i implies #[trigger] t[j].0 != t[i].0 by {
            lemma_tail_pairs_index(s, j);
        }
        lemma_lookup_unique(t, i);
    } else if c == e - s && 0 <= r < s {
        let i = s + r;
        lemma_tail_pairs_index(s, i);
        assert(t[i].0 == k);
        assert forall|j: int| 0 <= j < t.len() && j != i implies #[trigger] t[j].0 != t[i].0 by {
            lemma_tail_pairs_index(s, j);
        }
        lemma_lookup_unique(t, i);
    } else if r == e - s && e - s < c <= e {
        let i = 2 * s + (e - c);
        lemma_tail_pairs_index(s, i);
        assert(t[i].0 == k);
        assert forall|j: int| 0 <= j < t.len() && j != i implies #[trigger] t[j].0 != t[i].0 by {
            lemma_tail_pairs_index(s, j);
        }
        lemma_lookup_unique(t, i);
    } else if c == s && e - s < r <= e {
        let i = 3 * s + (e - r);
        lemma_tail_pairs_index(s, i);
        assert(t[i].0 == k);
        assert forall|j: int| 0 <= j < t.len() && j != i implies #[trigger] t[j].0 != t[i].0 by {
            lemma_tail_pairs_index(s, j);
        }
        lemma_lookup_unique(t, i);
    } else {
        assert forall|j: int| 0 <= j < t.len() implies #[trigger] t[j].0 != k by {
            lemma_tail_pairs_index(s, j);
        }
        lemma_lookup_absent(t, k);
    }
}


/// One step moves a head segment to the next head position.
pub proof fn lemma_head_step(side: int, p: int, s: int)
    requires
        2 <= s <= 8,
        head_place(side, p, s),
    ensures
        head_place(head_next(side, p, s).0, head_next(side, p, s).1, s),
        stepped_nodes(band(side, p, s), head_pairs(ring_end(s) + 1, ring_end(s) + 1, s)) == band(
            head_next(side, p, s).0,
            head_next(side, p, s).1,
            s,
        ),
{
    let e = ring_end(s);
    let t = head_pairs(e + 1, e + 1, s);
    let nodes = band(side, p, s);
    let ns = head_next(side, p, s).0;
    let np = head_next(side, p, s).1;
    let next = band(ns, np, s);
    assert forall|i: int| 0 <= i < nodes.len() implies lookup(t, #[trigger] nodes[i]) == head_rule(
        s,
        nodes[i],
    ) by {
        lemma_head_lookup(s, nodes[i]);
    }
    if ((side == 0 || side == 1) && p == e) || ((side == 2 || side == 3) && p == 0) {
        assert forall|i: int| 0 <= i < nodes.len() implies #[trigger] lookup(t, nodes[i]) is Some by {
            assert(lookup(t, nodes[i]) == head_rule(s, nodes[i]));
        }
        assert(Seq::new(nodes.len(), |i: int| lookup(t, nodes[i])->0) =~= next);
    } else {
        assert(lookup(t, nodes[1]) == head_rule(s, nodes[1]));
        assert(!(lookup(t, nodes[1]) is Some));
        assert(rotated(nodes, t) is None);
        if side == 0 || side == 2 {
            assert(is_traversing_x(nodes));
            let moved = shifted(nodes, 0, x_direction(nodes));
            if side == 0 {
                assert(nodes[0].row == 0);
            } else {
                assert(forall|i: int| 0 <= i < nodes.len() ==> #[trigger] nodes[i].row != 0);
            }
            assert(moved =~= next);
            assert(moved[0].row != moved[1].row);
        } else {
            assert(nodes[0].col != nodes[1].col);
            assert(is_traversing_y(nodes));
            if side == 3 {
                assert(nodes[0].col == 0);
            } else {
                assert(forall|i: int| 0 <= i < nodes.len() ==> #[trigger] nodes[i].col != 0);
            }
            assert(shifted(nodes, y_direction(nodes), 0) =~= next);
        }
    }
}

/// One step moves a tail segment to the next tail position.
pub proof fn lemma_tail_step(side: int, p: int, s: int)
    requires
        2 <= s <= 8,
        tail_place(side, p, s),
    ensures
        tail_place(tail_next(side, p, s).0, tail_next(side, p, s).1, s),
        stepped_nodes(band(side, p, s), tail_pairs(ring_end(s) + 1, ring_end(s) + 1, s)) == band(
            tail_next(side, p, s).0,
            tail_next(side, p, s).1,
            s,
        ),
{
    let e = ring_end(s);
    let t = tail_pairs(e + 1, e + 1, s);
    let nodes = band(side, p, s);
    let ns = tail_next(side, p, s).0;
    let np = tail_next(side, p, s).1;
    let next = band(ns, np, s);
    assert forall|i: int| 0 <= i < nodes.len() implies lookup(t, #[trigger] nodes[i]) == tail_rule(
        s,
        nodes[i],
    ) by {
        lemma_tail_lookup(s, nodes[i]);
    }
    if ((side == 3 || side == 2) && p == s) || ((side == 0 || side == 1) && p == e - s) {
        assert forall|i: int| 0 <= i < nodes.len() implies #[trigger] lookup(t, nodes[i]) is Some by {
            assert(lookup(t, nodes[i]) == tail_rule(s, nodes[i]));
        }
        assert(Seq::new(nodes.len(), |i: int| lookup(t, nodes[i])->0) =~= next);
    } else {
        assert(lookup(t, nodes[1]) == tail_rule(s, nodes[1]));
        assert(!(lookup(t, nodes[1]) is Some));
        assert(rotated(nodes, t) is None);
        if side == 0 || side == 2 {
            assert(is_traversing_x(nodes));
            let moved = shifted(nodes, 0, x_direction(nodes));
            if side == 0 {
                assert(nodes[0].row == 0);
            } else {
                assert(forall|i: int| 0 <= i < nodes.len() ==> #[trigger] nodes[i].row != 0);
            }
            assert(moved =~= next);
            assert(moved[0].row != moved[1].row);
        } else {
            assert(nodes[0].col != nodes[1].col);
            assert(is_traversing_y(nodes));
            if side == 3 {
                assert(nodes[0].col == 0);
            } else {
                assert(forall|i: int| 0 <= i < nodes.len() ==> #[trigger] nodes[i].col != 0);
            }
            assert(shifted(nodes, y_direction(nodes), 0) =~= next);
        }
    }
}


/// A head segment stays a head segment after a step, and stays small.
pub proof fn lemma_head_keeps(nodes: Seq<Coord>, s: int)
    requires
        2 <= s <= 8,
        is_head(nodes, s),
    ensures
        nodes.len() == s,
        within(nodes, 998),
        is_head(stepped_nodes(nodes, head_pairs(ring_end(s) + 1, ring_end(s) + 1, s)), s),
{
    let (side, p) = choose|side: int, p: int| head_place(side, p, s) && nodes == band(side, p, s);
    lemma_head_step(side, p, s);
    let (ns, np) = head_next(side, p, s);
    assert(head_place(ns, np, s) && stepped_nodes(
        nodes,
        head_pairs(ring_end(s) + 1, ring_end(s) + 1, s),
    ) == band(ns, np, s));
}

/// A tail segment stays a tail segment after a step, and stays small.
pub proof fn lemma_tail_keeps(nodes: Seq<Coord>, s: int)
    requires
        2 <= s <= 8,
        is_tail(nodes, s),
    ensures
        nodes.len() == s,
        within(nodes, 998),
        is_tail(stepped_nodes(nodes, tail_pairs(ring_end(s) + 1, ring_end(s) + 1, s)), s),
{
    let (side, p) = choose|side: int, p: int| tail_place(side, p, s) && nodes == band(side, p, s);
    lemma_tail_step(side, p, s);
    let (ns, np) = tail_next(side, p, s);
    assert(tail_place(ns, np, s) && stepped_nodes(
        nodes,
        tail_pairs(ring_end(s) + 1, ring_end(s) + 1, s),
    ) == band(ns, np, s));
}

// ── Engine ───────────────────────────────────────────────────────────────────

/// Whether some node of `nodes[..upto]` is stored at grid cell `(r, c)` of a
/// grid with vertical offset `offset`.
pub open spec fn hits(nodes: Seq<Coord>, upto: int, offset: int, r: int, c: int) -> bool {
    exists|k: int| 0 <= k < upto && #[trigger] nodes[k].row + offset == r && nodes[k].col == c
}

/// The dots after a walk paints the new head on and then the old tail off.
pub open spec fn painted(dots: Seq<Seq<bool>>, offset: int, on: Seq<Coord>, off: Seq<Coord>) -> Seq<
    Seq<bool>,
> {
    Seq::new(
        dots.len(),
        |r: int|
            Seq::new(
                dots[r].len(),
                |c: int|
                    if hits(off, off.len() as int, offset, r, c) {
                        false
                    } else if hits(on, on.len() as int, offset, r, c) {
                        true
                    } else {
                        dots[r][c]
                    },
            ),
    )
}

/// The animated part of a square engine: its dots, head and tail.
pub struct RingState {
    pub dots: Seq<Seq<bool>>,
    pub head: Seq<Coord>,
    pub tail: Seq<Coord>,
}

/// One walk of a ring of thickness `s`: the head steps, its dots are lit,
/// the old tail's dots are cleared, and the tail steps.
pub open spec fn ring_step(st: RingState, s: int) -> RingState {
    let d = ring_end(s) + 1;
    let head = stepped_nodes(st.head, head_pairs(d, d, s));
    RingState {
        dots: painted(st.dots, row_offset(s), head, st.tail),
        head,
        tail: stepped_nodes(st.tail, tail_pairs(d, d, s)),
    }
}

/// The ring after `k` walks.
pub open spec fn ring_walked(st: RingState, s: int, k: nat) -> RingState
    decreases k,
{
    if k == 0 {
        st
    } else {
        ring_step(ring_walked(st, s, (k - 1) as nat), s)
    }
}

/// Column where the initial head and tail segments meet.
pub open spec fn ring_mid(s: int) -> int {
    let d = ring_end(s) + 1;
    d / 2 + d % 2 + (s - 2) / 2
}

/// First row and column of the centre square.
pub open spec fn centre_first(s: int) -> int {
    let d = ring_end(s) + 1;
    d / 2 - s / 2
}

/// Dot `(row, col)` of a fresh ring: on the L-shaped arc joining tail node
/// `(mid, i)` to head node `(i, mid)` for some `i < s`, or inside the centre
/// square when the centre is filled.
pub open spec fn initial_dot(s: int, filled: bool, row: int, col: int) -> bool {
    let mid = ring_mid(s);
    let cs = centre_first(s);
    (exists|i: int| 0 <= i < s && #[trigger] on_l_path(at(mid, i), at(i, mid), row, col)) || (filled
        && cs <= row < cs + s && cs <= col < cs + s)
}

/// The dots of a fresh ring of thickness `s`: `d + offset` rows of `d`.
pub open spec fn initial_dots(s: int, filled: bool) -> Seq<Seq<bool>> {
    let d = ring_end(s) + 1;
    let off = row_offset(s);
    Seq::new(
        (d + off) as nat,
        |r: int| Seq::new(d as nat, |c: int| initial_dot(s, filled, r - off, c)),
    )
}

/// The centre-square bounds in character cells: the first character row and
/// the character column just left of the square, then the last character row
/// and the square's last character column.
pub open spec fn centre_cells_bounds(s: int) -> [(usize, usize); 2] {
    let cs = centre_first(s);
    let ce = cs + s - 1;
    let off = row_offset(s);
    [(((cs + off) / 4) as usize, (cs / 2 - 1) as usize), (((ce + off) / 4) as usize, (ce / 2) as usize)]
}

/// Ring thickness after clamping to `2..=8`.
pub open spec fn clamp_size(size: int) -> int {
    if size < 2 {
        2
    } else if size > 8 {
        8
    } else {
        size
    }
}

/// The engine that rotates a thick arc around a square ring.
pub struct SquareEngine {
    pub grid: Grid,
    pub head: Vec<Coord>,
    pub tail: Vec<Coord>,
    pub head_map: Vec<(Coord, Coord)>,
    pub tail_map: Vec<(Coord, Coord)>,
    pub centre_bounds: [(usize, usize); 2],
    pub has_centre: bool,
}

impl SquareEngine {
    /// Ring thickness.
    pub open spec fn size(self) -> int {
        self.head.len() as int
    }

    /// The engine's shape: a `d × d` ring grid (plus the offset rows), its two
    /// turn tables, and head and tail segments on the ring.
    pub open spec fn wf(self) -> bool {
        let s = self.size();
        let d = ring_end(s) + 1;
        &&& 2 <= s <= 8
        &&& self.grid.wf()
        &&& self.grid.cols() == d
        &&& self.grid.offset == row_offset(s)
        &&& self.grid.cells.len() == d + row_offset(s)
        &&& self.head_map@ == head_pairs(d, d, s)
        &&& self.tail_map@ == tail_pairs(d, d, s)
        &&& is_head(self.head@, s)
        &&& is_tail(self.tail@, s)
    }

    /// The animated state.
    pub open spec fn state(self) -> RingState {
        RingState { dots: self.grid.dots(), head: self.head@, tail: self.tail@ }
    }

    /// Whether this is the fresh engine for ring thickness `s`.
    pub open spec fn is_initial(self, s: int, filled: bool) -> bool {
        &&& self.wf()
        &&& self.size() == s
        &&& self.state() == RingState {
            dots: initial_dots(s, filled),
            head: band(0, ring_mid(s), s),
            tail: band(3, ring_mid(s), s),
        }
        &&& self.centre_bounds == centre_cells_bounds(s)
        &&& self.has_centre == filled
    }

    /// Advances the arc one step: the head moves on and lights its dots, the
    /// tail clears its dots and moves on.
    pub fn walk(&mut self)
        requires
            old(self).wf(),
        ensures
            final(self).wf(),
            final(self).size() == old(self).size(),
            final(self).state() == ring_step(old(self).state(), old(self).size()),
            final(self).centre_bounds == old(self).centre_bounds,
            final(self).has_centre == old(self).has_centre,
    {
        let ghost s = self.size();
        let ghost before = self.grid;
        let ghost old_tail = self.tail@;
        proof {
            lemma_head_keeps(self.head@, s);
            lemma_tail_keeps(self.tail@, s);
        }
        step(&mut self.head, &self.head_map);
        let ghost new_head = self.head@;
        proof {
            lemma_head_keeps(new_head, s);
            assert(new_head.len() == s);
        }
        let mut i: usize = 0;
        while i < self.head.len()
            invariant
                i <= self.head.len(),
                self.head@ == new_head,
                self.tail@ == old_tail,
                self.head_map == old(self).head_map,
                self.tail_map == old(self).tail_map,
                self.centre_bounds == old(self).centre_bounds,
                self.has_centre == old(self).has_centre,
                within(new_head, 998),
                self.grid.wf(),
                self.grid.same_shape(before),
                before.wf(),
                forall|r: int, c: int|
                    0 <= r < before.cells.len() && 0 <= c < before.cols() ==> #[trigger] self.grid.dots()[r][c]
                        == if hits(new_head, i as int, before.offset as int, r, c) {
                        true
                    } else {
                        before.dots()[r][c]
                    },
            decreases self.head.len() - i,
        {
            let pos = self.head[i];
            self.grid.set(pos.row, pos.col, true);
            proof {
                assert forall|r: int, c: int|
                    0 <= r < before.cells.len() && 0 <= c < before.cols() implies hits(
                    new_head,
                    i + 1,
                    before.offset as int,
                    r,
                    c,
                ) == (hits(new_head, i as int, before.offset as int, r, c) || (r == pos.row
                    + before.offset && c == pos.col)) by {
                    if r == pos.row + before.offset && c == pos.col {
                        assert(new_head[i as int].row + before.offset == r);
                    }
                }
            }
            i += 1;
        }
        let mut j: usize = 0;
        while j < self.tail.len()
            invariant
                j <= self.tail.len(),
                self.tail@ == old_tail,
                self.head@ == new_head,
                self.head_map == old(self).head_map,
                self.tail_map == old(self).tail_map,
                self.centre_bounds == old(self).centre_bounds,
                self.has_centre == old(self).has_centre,
                within(old_tail, 998),
                self.grid.wf(),
                self.grid.same_shape(before),
                before.wf(),
                forall|r: int, c: int|
                    0 <= r < before.cells.len() && 0 <= c < before.cols() ==> #[trigger] self.grid.dots()[r][c]
                        == if hits(old_tail, j as int, before.offset as int, r, c) {
                        false
                    } else if hits(new_head, new_head.len() as int, before.offset as int, r, c) {
                        true
                    } else {
                        before.dots()[r][c]
                    },
            decreases self.tail.len() - j,
        {
            let pos = self.tail[j];
            self.grid.set(pos.row, pos.col, false);
            proof {
                assert forall|r: int, c: int|
                    0 <= r < before.cells.len() && 0 <= c < before.cols() implies hits(
                    old_tail,
                    j + 1,
                    before.offset as int,
                    r,
                    c,
                ) == (hits(old_tail, j as int, before.offset as int, r, c) || (r == pos.row
                    + before.offset && c == pos.col)) by {
                    if r == pos.row + before.offset && c == pos.col {
                        assert(old_tail[j as int].row + before.offset == r);
                    }
                }
            }
            j += 1;
        }
        step(&mut self.tail, &self.tail_map);
        proof {
            lemma_tail_keeps(old_tail, s);
            let want = painted(before.dots(), before.offset as int, new_head, old_tail);
            assert forall|r: int| 0 <= r < want.len() implies #[trigger] self.grid.dots()[r] =~= want[r] by {
                assert(before.cells@[r].len() == before.cols());
                assert(self.grid.cells@[r].len() == before.cols());
            }
            assert(self.grid.dots() =~= want);
        }
    }
}


/// Row-major index `k < s·s` of the `s × s` square at `(cs, cs)` covers
/// exactly the square's dots.
proof fn lemma_square_cover(s: int, cs: int, x: int, y: int)
    requires
        1 <= s,
    ensures
        (exists|k: int| 0 <= k < s * s && cs + #[trigger] (k / s) == x && cs + k % s == y) <==> (cs <= x
            < cs + s && cs <= y < cs + s),
{
    if cs <= x < cs + s && cs <= y < cs + s {
        let k = (x - cs) * s + (y - cs);
        assert(0 <= k < s * s && k / s == x - cs && k % s == y - cs) by (nonlinear_arith)
            requires
                k == (x - cs) * s + (y - cs),
                0 <= x - cs < s,
                0 <= y - cs < s,
        ;
    }
    assert forall|k: int| 0 <= k < s * s implies 0 <= #[trigger] (k / s) < s && 0 <= k % s < s by {
        assert(0 <= k / s < s && 0 <= k % s < s) by (nonlinear_arith)
            requires
                0 <= k < s * s,
                1 <= s,
        ;
    }
}

/// Draws the initial arc: for every `k < s`, the L-shaped path from tail node
/// `(mid, k)` to head node `(k, mid)`.
fn draw_arc(grid: &mut Grid, head: &Vec<Coord>, tail: &Vec<Coord>, s: usize)
    requires
        old(grid).wf(),
        2 <= s <= 8,
        head@ == band(0, ring_mid(s as int), s as int),
        tail@ == band(3, ring_mid(s as int), s as int),
    ensures
        final(grid).wf(),
        final(grid).same_shape(*old(grid)),
        forall|r: int, c: int|
            0 <= r < old(grid).cells.len() && 0 <= c < old(grid).cols() ==> #[trigger] final(grid).dots()[r][c]
                == (old(grid).dots()[r][c] || exists|k: int|
                0 <= k < s && #[trigger] on_l_path(
                    at(ring_mid(s as int), k),
                    at(k, ring_mid(s as int)),
                    r - old(grid).offset,
                    c,
                )),
{
    let ghost blank = *old(grid);
    let ghost mid = ring_mid(s as int);
    let mut i: usize = 0;
    while i < s
        invariant
            i <= s,
            2 <= s <= 8,
            head@ == band(0, mid, s as int),
            tail@ == band(3, mid, s as int),
            mid == ring_mid(s as int),
            grid.wf(),
            grid.same_shape(blank),
            blank.wf(),
            forall|r: int, c: int|
                0 <= r < blank.cells.len() && 0 <= c < blank.cols() ==> #[trigger] grid.dots()[r][c]
                    == (blank.dots()[r][c] || exists|k: int|
                    0 <= k < i && #[trigger] on_l_path(at(mid, k), at(k, mid), r - blank.offset, c)),
        decreases s - i,
    {
        assert(tail@[i as int] == at(mid, i as int));
        assert(head@[i as int] == at(i as int, mid));
        grid.fill(tail[i], head[i]);
        proof {
            assert forall|r: int, c: int|
                0 <= r < blank.cells.len() && 0 <= c < blank.cols() implies #[trigger] grid.dots()[r][c]
                == (blank.dots()[r][c] || exists|k: int|
                0 <= k < i + 1 && #[trigger] on_l_path(at(mid, k), at(k, mid), r - blank.offset, c)) by {
                if on_l_path(at(mid, i as int), at(i as int, mid), r - blank.offset, c) {
                    assert(grid.dots()[r][c]);
                }
            }
        }
        i += 1;
    }
}

/// Lights every dot of the centre square listed in `cells` (row-major,
/// `s × s` dots from `(cs, cs)`).
fn draw_centre(grid: &mut Grid, cells: &Vec<Coord>, s: isize, cs: isize)
    requires
        old(grid).wf(),
        1 <= s <= 8,
        0 <= cs <= 64,
        cells@.len() == s * s,
        forall|q: int| 0 <= q < s * s ==> #[trigger] cells@[q] == at(cs + q / (s as int), cs + q % (s as int)),
    ensures
        final(grid).wf(),
        final(grid).same_shape(*old(grid)),
        forall|r: int, c: int|
            0 <= r < old(grid).cells.len() && 0 <= c < old(grid).cols() ==> #[trigger] final(grid).dots()[r][c]
                == (old(grid).dots()[r][c] || (cs <= r - old(grid).offset < cs + s && cs <= c < cs + s)),
{
    let ghost before = *old(grid);
    let ghost ss = s as int;
    let ghost cc = cs as int;
    let mut k: usize = 0;
    while k < cells.len()
        invariant
            k <= cells.len(),
            1 <= ss <= 8,
            0 <= cc <= 64,
            ss == s,
            cc == cs,
            cells@.len() == ss * ss,
            forall|q: int| 0 <= q < ss * ss ==> #[trigger] cells@[q] == at(cc + q / ss, cc + q % ss),
            grid.wf(),
            grid.same_shape(before),
            before.wf(),
            forall|r: int, c: int|
                0 <= r < before.cells.len() && 0 <= c < before.cols() ==> #[trigger] grid.dots()[r][c]
                    == (before.dots()[r][c] || exists|q: int|
                    0 <= q < k && cc + #[trigger] (q / ss) == r - before.offset && cc + q % ss == c),
        decreases cells.len() - k,
    {
        let ghost kk = k as int;
        assert(0 <= kk / ss < ss && 0 <= kk % ss < ss) by (nonlinear_arith)
            requires
                0 <= kk < ss * ss,
                1 <= ss,
        ;
        let cell = cells[k];
        assert(cell == at(cc + kk / ss, cc + kk % ss));
        assert(cell.row == cc + kk / ss && cell.col == cc + kk % ss);
        grid.set(cell.row, cell.col, true);
        proof {
            assert forall|r: int, c: int|
                0 <= r < before.cells.len() && 0 <= c < before.cols() implies #[trigger] grid.dots()[r][c]
                == (before.dots()[r][c] || exists|q: int|
                0 <= q < kk + 1 && cc + #[trigger] (q / ss) == r - before.offset && cc + q % ss == c) by {
                if cc + kk / ss == r - before.offset && cc + kk % ss == c {
                    assert(grid.dots()[r][c]);
                }
            }
        }
        k += 1;
    }
    proof {
        assert forall|r: int, c: int|
            0 <= r < before.cells.len() && 0 <= c < before.cols() implies #[trigger] grid.dots()[r][c] == (
            before.dots()[r][c] || (cc <= r - before.offset < cc + ss && cc <= c < cc + ss)) by {
            lemma_square_cover(ss, cc, r - before.offset, c);
        }
    }
}

/// The two head/tail segments of a fresh ring.
fn initial_segments(s: isize, mid: isize) -> (r: (Vec<Coord>, Vec<Coord>))
    requires
        2 <= s <= 8,
        mid == ring_mid(s as int),
    ensures
        r.0@ == band(0, ring_mid(s as int), s as int),
        r.1@ == band(3, ring_mid(s as int), s as int),
{
    let mut head: Vec<Coord> = Vec::new();
    let mut tail: Vec<Coord> = Vec::new();
    let mut n: isize = 0;
    while n < s
        invariant
            0 <= n <= s,
            2 <= s <= 8,
            mid == ring_mid(s as int),
            head@ == band(0, ring_mid(s as int), s as int).subrange(0, n as int),
            tail@ == band(3, ring_mid(s as int), s as int).subrange(0, n as int),
        decreases s - n,
    {
        head.push(Coord::new(n, mid));
        tail.push(Coord::new(mid, n));
        n += 1;
        assert(head@ =~= band(0, ring_mid(s as int), s as int).subrange(0, n as int));
        assert(tail@ =~= band(3, ring_mid(s as int), s as int).subrange(0, n as int));
    }
    assert(head@ =~= band(0, ring_mid(s as int), s as int));
    assert(tail@ =~= band(3, ring_mid(s as int), s as int));
    (head, tail)
}

impl SquareEngine {
    /// Creates the fresh engine for ring thickness `size` (clamped to
    /// `2..=8`): the arc covers the quarter of the ring between the tail on
    /// the left side and the head on the top side, and the centre square is
    /// lit when `centre` is `Filled`.  Every spin starts from the same frame.
    #[verifier::rlimit(50)]
    pub fn build(size: usize, centre: Centre, spin: Spin) -> (e: Self)
        ensures
            e.is_initial(clamp_size(size as int), centre == Centre::Filled),
    {
        let size: usize = if size < 2 {
            2
        } else if size > 8 {
            8
        } else {
            size
        };
        let ghost s = size as int;
        let dm = calc_dimension(size);
        let offset = vertical_offset(size);
        let sz = size as isize;
        let dm_i = dm as isize;
        let total_rows = dm + offset as usize;
        let mut grid = Grid { cells: blank_grid(total_rows, dm), offset };
        let ghost blank = grid;
        assert(grid.cols() == dm);
        let (centre_cells, c_start, c_end) = make_centre(sz, dm_i);
        let centre_bounds = [
            (((c_start.row + offset) / 4) as usize, ((c_start.col / 2) - 1) as usize),
            (((c_end.row + offset) / 4) as usize, (c_end.col / 2) as usize),
        ];
        let rem = (dm % 2) + ((size - 2) / 2);
        let mid = ((dm / 2) + rem) as isize;
        let (head, tail) = initial_segments(sz, mid);
        draw_arc(&mut grid, &head, &tail, size);
        let ghost with_arc = grid;
        let has_centre = centre == Centre::Filled;
        if has_centre {
            draw_centre(&mut grid, &centre_cells, sz, c_start.row);
        }
        let head_map = make_head_map(dm_i, dm_i, sz);
        let tail_map = make_tail_map(dm_i, dm_i, sz);
        let e = SquareEngine { grid, head, tail, head_map, tail_map, centre_bounds, has_centre };
        proof {
            let want = initial_dots(s, has_centre);
            assert forall|r: int| 0 <= r < want.len() implies #[trigger] e.grid.dots()[r] =~= want[r] by {
                assert(e.grid.cells@[r].len() == dm);
                assert(blank.cells@[r].len() == dm);
            }
            assert(e.grid.dots() =~= want);
            assert(head_place(0, ring_mid(s), s));
            assert(tail_place(3, ring_mid(s), s));
        }
        e
    }
}


// ── Rendering ────────────────────────────────────────────────────────────────

/// Whether the colour switches after character cell `(row, col)`: on the
/// rows of the centre square, at the column just left of it and at its last
/// column.
pub open spec fn switch_at(bounds: [(usize, usize); 2], row: int, col: int) -> bool {
    bounds[0].0 <= row <= bounds[1].0 && (col == bounds[0].1 || col == bounds[1].1)
}

/// Decides [`switch_at`].
pub fn should_switch(bounds: &[(usize, usize); 2], row: usize, col: usize) -> (b: bool)
    ensures
        b == switch_at(*bounds, row as int, col as int),
{
    if row >= bounds[0].0 && row <= bounds[1].0 {
        return col == bounds[0].1 || col == bounds[1].1;
    }
    false
}

/// Number of colour switches in the cells before `(i, j)` in row-major
/// order, for rows of `ncols` cells; none when `active` is false.
pub open spec fn switches_before(
    bounds: [(usize, usize); 2],
    active: bool,
    ncols: nat,
    i: nat,
    j: nat,
) -> nat
    decreases i, j,
{
    if j > 0 {
        switches_before(bounds, active, ncols, i, (j - 1) as nat) + if active && switch_at(
            bounds,
            i as int,
            j - 1,
        ) {
            1nat
        } else {
            0nat
        }
    } else if i > 0 {
        switches_before(bounds, active, ncols, (i - 1) as nat, ncols)
    } else {
        0
    }
}

/// `⌈a / b⌉` for `b > 0`.
pub open spec fn div_up(a: int, b: int) -> int {
    (a + b - 1) / b
}

/// A square frame: every character cell shows the braille packing of its
/// dots; the colour starts as `outer` and swaps between `outer` and `inner`
/// after every switch cell (see [`switch_at`]).
pub open spec fn square_frame(
    dots: Seq<Seq<bool>>,
    cols: int,
    bounds: [(usize, usize); 2],
    has_centre: bool,
    outer: Color,
    inner: Color,
) -> Seq<Seq<Cell>> {
    let nrows = div_up(dots.len() as int, 4);
    let ncols = div_up(cols, 2);
    Seq::new(
        nrows as nat,
        |i: int|
            Seq::new(
                ncols as nat,
                |j: int|
                    Cell {
                        symbol: braille(packed_byte(dots, i, j) as u8),
                        fg: if switches_before(bounds, has_centre, ncols as nat, i as nat, j as nat) % 2
                            == 0 {
                            outer
                        } else {
                            inner
                        },
                        bold: false,
                    },
            ),
    )
}

impl SquareEngine {
    /// Renders the current frame with the arc in `outer_color` and the centre
    /// square in `inner_color`.
    pub fn render_frame(&self, outer_color: Color, inner_color: Color) -> (r: Vec<Vec<Cell>>)
        requires
            self.wf(),
        ensures
            r.len() == square_frame(
                self.grid.dots(),
                self.grid.cols(),
                self.centre_bounds,
                self.has_centre,
                outer_color,
                inner_color,
            ).len(),
            forall|i: int|
                0 <= i < r.len() ==> #[trigger] r[i]@ == square_frame(
                    self.grid.dots(),
                    self.grid.cols(),
                    self.centre_bounds,
                    self.has_centre,
                    outer_color,
                    inner_color,
                )[i],
    {
        let total_rows = self.grid.cells.len();
        let total_cols = self.grid.cells[0].len();
        let char_rows = (total_rows + 3) / 4;
        let char_cols = (total_cols + 1) / 2;
        let ghost frame = square_frame(
            self.grid.dots(),
            self.grid.cols(),
            self.centre_bounds,
            self.has_centre,
            outer_color,
            inner_color,
        );
        let ghost nc = char_cols as nat;
        let mut lines: Vec<Vec<Cell>> = Vec::new();
        let mut active = outer_color;
        let mut i: usize = 0;
        while i < char_rows
            invariant
                self.wf(),
                i <= char_rows,
                char_rows <= 20,
                char_cols <= 40,
                char_rows == div_up(self.grid.dots().len() as int, 4),
                char_cols == div_up(self.grid.cols(), 2),
                frame == square_frame(
                    self.grid.dots(),
                    self.grid.cols(),
                    self.centre_bounds,
                    self.has_centre,
                    outer_color,
                    inner_color,
                ),
                nc == char_cols,
                lines.len() == i,
                forall|k: int| 0 <= k < i ==> #[trigger] lines[k]@ == frame[k],
                active == if switches_before(self.centre_bounds, self.has_centre, nc, i as nat, 0) % 2
                    == 0 {
                    outer_color
                } else {
                    inner_color
                },
            decreases char_rows - i,
        {
            let mut spans: Vec<Cell> = Vec::new();
            let mut j: usize = 0;
            while j < char_cols
                invariant
                    self.wf(),
                    i < char_rows,
                    j <= char_cols,
                    char_rows <= 20,
                    char_cols <= 40,
                    char_rows == div_up(self.grid.dots().len() as int, 4),
                    char_cols == div_up(self.grid.cols(), 2),
                    frame == square_frame(
                        self.grid.dots(),
                        self.grid.cols(),
                        self.centre_bounds,
                        self.has_centre,
                        outer_color,
                        inner_color,
                    ),
                    nc == char_cols,
                    spans@.len() == j,
                    forall|k: int| 0 <= k < j ==> #[trigger] spans@[k] == frame[i as int][k],
                    active == if switches_before(
                        self.centre_bounds,
                        self.has_centre,
                        nc,
                        i as nat,
                        j as nat,
                    ) % 2 == 0 {
                        outer_color
                    } else {
                        inner_color
                    },
                decreases char_cols - j,
            {
                let b = pack_cell(&self.grid.cells, i, j);
                spans.push(Cell { symbol: braille_char(b), fg: active, bold: false });
                if self.has_centre && should_switch(&self.centre_bounds, i, j) {
                    active = if active == outer_color {
                        inner_color
                    } else {
                        outer_color
                    };
                }
                j += 1;
            }
            assert(spans@ =~= frame[i as int]);
            lines.push(spans);
            i += 1;
        }
        lines
    }
}


/// The fresh state of a ring of thickness `s`.
pub open spec fn initial_ring(s: int, filled: bool) -> RingState {
    RingState {
        dots: initial_dots(s, filled),
        head: band(0, ring_mid(s), s),
        tail: band(3, ring_mid(s), s),
    }
}

/// The frame of a square ring of thickness `size` (clamped to `2..=8`) after
/// `steps` walks, arc in `outer`, centre in `inner`; a counter-clockwise
/// spin mirrors every row.
pub open spec fn ring_frame(
    size: int,
    filled: bool,
    steps: nat,
    spin: Spin,
    outer: Color,
    inner: Color,
) -> Seq<Seq<Cell>> {
    let s = clamp_size(size);
    let st = ring_walked(initial_ring(s, filled), s, steps);
    let f = square_frame(st.dots, ring_end(s) + 1, centre_cells_bounds(s), filled, outer, inner);
    if spin == Spin::CounterClockwise {
        Seq::new(f.len(), |i: int| f[i].reverse())
    } else {
        f
    }
}

/// The cells of `row` in reverse order.
fn reversed(row: &Vec<Cell>) -> (r: Vec<Cell>)
    ensures
        r@ == row@.reverse(),
{
    let mut r: Vec<Cell> = Vec::new();
    let mut k = row.len();
    while k > 0
        invariant
            k <= row.len(),
            r@.len() == row.len() - k,
            forall|q: int| 0 <= q < r@.len() ==> #[trigger] r@[q] == row@[row.len() - 1 - q],
        decreases k,
    {
        r.push(row[k - 1]);
        k -= 1;
    }
    assert(r@ =~= row@.reverse());
    r
}

/// Renders the square ring after `tick / ticks_per_step` walks (see
/// [`ring_frame`]).
pub fn ring_lines(
    size: usize,
    centre: Centre,
    spin: Spin,
    tick: u64,
    ticks_per_step: u64,
    outer: Color,
    inner: Color,
) -> (r: Vec<Vec<Cell>>)
    requires
        ticks_per_step >= 1,
    ensures
        r.len() == ring_frame(
            size as int,
            centre == Centre::Filled,
            (tick / ticks_per_step) as nat,
            spin,
            outer,
            inner,
        ).len(),
        forall|i: int|
            0 <= i < r.len() ==> #[trigger] r[i]@ == ring_frame(
                size as int,
                centre == Centre::Filled,
                (tick / ticks_per_step) as nat,
                spin,
                outer,
                inner,
            )[i],
{
    let ghost s = clamp_size(size as int);
    let ghost filled = centre == Centre::Filled;
    let mut engine = SquareEngine::build(size, centre, spin);
    let steps = tick / ticks_per_step;
    let mut i: u64 = 0;
    while i < steps
        invariant
            i <= steps,
            engine.wf(),
            engine.size() == s,
            engine.centre_bounds == centre_cells_bounds(s),
            engine.has_centre == filled,
            engine.state() == ring_walked(initial_ring(s, filled), s, i as nat),
        decreases steps - i,
    {
        engine.walk();
        i += 1;
    }
    let lines = engine.render_frame(outer, inner);
    if spin == Spin::CounterClockwise {
        let mut out: Vec<Vec<Cell>> = Vec::new();
        let mut k: usize = 0;
        while k < lines.len()
            invariant
                k <= lines.len(),
                out.len() == k,
                forall|q: int| 0 <= q < k ==> #[trigger] out[q]@ == lines[q]@.reverse(),
            decreases lines.len() - k,
        {
            out.push(reversed(&lines[k]));
            k += 1;
        }
        out
    } else {
        lines
    }
}

// ── Public widget ────────────────────────────────────────────────────────────

/// A square braille-arc spinner with a filled or empty centre.
///
/// Defaults: `Square(2)`, clockwise, 1 tick per step, `Cyan` arc,
/// `DarkGray` centre, filled centre, left alignment.
#[derive(Debug, Clone, Copy, PartialEq, Eq, Structural)]
pub struct RectSpinner {
    /// Animation counter.
    pub tick: u64,
    /// Shape and size.
    pub shape: RectShape,
    /// Rotation direction.
    pub spin: Spin,
    /// Ticks each step is held (at least 1).
    pub ticks_per_step: u64,
    /// Colour of the arc.
    pub outer_color: Color,
    /// Colour of the centre.
    pub inner_color: Color,
    /// Centre fill mode.
    pub centre: Centre,
    /// Horizontal alignment of the frame in its area.
    pub alignment: Alignment,
}

impl RectShape {
    /// The ring thickness of the shape.
    pub open spec fn thickness(self) -> int {
        match self {
            RectShape::Square(n) => n as int,
        }
    }
}

impl RectSpinner {
    /// The builders keep `ticks_per_step` at least 1.
    pub open spec fn wf(self) -> bool {
        self.ticks_per_step >= 1
    }

    /// The rendered frame at this tick.
    pub open spec fn frame(self) -> Seq<Seq<Cell>> {
        ring_frame(
            self.shape.thickness(),
            self.centre == Centre::Filled,
            (self.tick / self.ticks_per_step) as nat,
            self.spin,
            self.outer_color,
            self.inner_color,
        )
    }

    /// Renders the current frame, one row of cells per line.
    pub fn render_lines(&self) -> (r: Vec<Vec<Cell>>)
        requires
            self.wf(),
        ensures
            r.len() == self.frame().len(),
            forall|i: int| 0 <= i < r.len() ==> #[trigger] r[i]@ == self.frame()[i],
    {
        let size = match self.shape {
            RectShape::Square(n) => n,
        };
        ring_lines(
            size,
            self.centre,
            self.spin,
            self.tick,
            self.ticks_per_step,
            self.outer_color,
            self.inner_color,
        )
    }

    /// The current frame, for embedding in other widgets.
    pub fn to_lines(&self) -> (r: Vec<Vec<Cell>>)
        requires
            self.wf(),
        ensures
            r.len() == self.frame().len(),
            forall|i: int| 0 <= i < r.len() ==> #[trigger] r[i]@ == self.frame()[i],
    {
        self.render_lines()
    }
}

} // verus!

verus! {

impl RectSpinner {
    /// A spinner at `tick`: `Square(2)`, clockwise, one tick per step, a cyan
    /// arc, a dark-gray filled centre, left aligned.
    pub fn new(tick: u64) -> (s: Self)
        ensures
            s == (RectSpinner {
                tick,
                shape: RectShape::Square(2),
                spin: Spin::Clockwise,
                ticks_per_step: 1,
                outer_color: Color::Cyan,
                inner_color: Color::DarkGray,
                centre: Centre::Filled,
                alignment: Alignment::Left,
            }),
    {
        RectSpinner {
            tick,
            shape: RectShape::default(),
            spin: Spin::default(),
            ticks_per_step: 1,
            outer_color: Color::Cyan,
            inner_color: Color::DarkGray,
            centre: Centre::default(),
            alignment: Alignment::Left,
        }
    }

    /// Sets the shape.
    pub fn shape(self, shape: RectShape) -> (s: Self)
        ensures
            s == (RectSpinner { shape, ..self }),
    {
        RectSpinner { shape, ..self }
    }

    /// Sets the spin direction.
    pub fn spin(self, spin: Spin) -> (s: Self)
        ensures
            s == (RectSpinner { spin, ..self }),
    {
        RectSpinner { spin, ..self }
    }

    /// Sets the colour of the arc.
    pub fn outer_color(self, color: Color) -> (s: Self)
        ensures
            s == (RectSpinner { outer_color: color, ..self }),
    {
        RectSpinner { outer_color: color, ..self }
    }

    /// Sets the colour of the centre.
    pub fn inner_color(self, color: Color) -> (s: Self)
        ensures
            s == (RectSpinner { inner_color: color, ..self }),
    {
        RectSpinner { inner_color: color, ..self }
    }

    /// Sets the centre fill mode.
    pub fn centre(self, centre: Centre) -> (s: Self)
        ensures
            s == (RectSpinner { centre, ..self }),
    {
        RectSpinner { centre, ..self }
    }

    /// Sets how many ticks each step is held (at least 1).
    pub fn ticks_per_step(self, n: u64) -> (s: Self)
        ensures
            s == (RectSpinner { ticks_per_step: if n > 1 { n } else { 1 }, ..self }),
    {
        RectSpinner { ticks_per_step: if n > 1 { n } else { 1 }, ..self }
    }

    /// Sets the horizontal alignment of the frame.
    pub fn alignment(self, alignment: Alignment) -> (s: Self)
        ensures
            s == (RectSpinner { alignment, ..self }),
    {
        RectSpinner { alignment, ..self }
    }
}

} // verus!

verus! {

/// However many steps a square ring takes, its head and tail stay segments
/// of `s` dots lying across a side of the ring: the arc never leaves the
/// ring or changes thickness.
pub proof fn square_arc_stays_on_ring(s: int, filled: bool, k: nat)
    requires
        2 <= s <= 8,
    ensures
        is_head(ring_walked(initial_ring(s, filled), s, k).head, s),
        is_tail(ring_walked(initial_ring(s, filled), s, k).tail, s),
        ring_walked(initial_ring(s, filled), s, k).head.len() == s,
        ring_walked(initial_ring(s, filled), s, k).tail.len() == s,
    decreases k,
{
    if k == 0 {
        assert(head_place(0, ring_mid(s), s));
        assert(tail_place(3, ring_mid(s), s));
        assert(is_head(band(0, ring_mid(s), s), s));
        assert(is_tail(band(3, ring_mid(s), s), s));
    } else {
        square_arc_stays_on_ring(s, filled, (k - 1) as nat);
        let st = ring_walked(initial_ring(s, filled), s, (k - 1) as nat);
        lemma_head_keeps(st.head, s);
        lemma_tail_keeps(st.tail, s);
        let nxt = ring_walked(initial_ring(s, filled), s, k);
        lemma_head_keeps(nxt.head, s);
        lemma_tail_keeps(nxt.tail, s);
    }
}

} // verus!

verus! {

/// Without a centre nothing switches the colour.
proof fn lemma_no_switches(bounds: [(usize, usize); 2], ncols: nat, i: nat, j: nat)
    ensures
        switches_before(bounds, false, ncols, i, j) == 0,
    decreases i, j,
{
    if j > 0 {
        lemma_no_switches(bounds, ncols, i, (j - 1) as nat);
    } else if i > 0 {
        lemma_no_switches(bounds, ncols, (i - 1) as nat, ncols);
    }
}

/// With a centre, an odd number of switches precede cell `(i, j)` exactly
/// when the cell lies on a centre row, after the column just left of the
/// centre and up to the centre's last column.
proof fn lemma_switch_parity(bounds: [(usize, usize); 2], ncols: nat, i: nat, j: nat)
    requires
        bounds[0].1 < bounds[1].1 < ncols,
        j <= ncols,
    ensures
        (switches_before(bounds, true, ncols, i, j) % 2 == 1) <==> (bounds[0].0 <= i <= bounds[1].0
            && bounds[0].1 < j <= bounds[1].1),
    decreases i, j,
{
    if j > 0 {
        lemma_switch_parity(bounds, ncols, i, (j - 1) as nat);
    } else if i > 0 {
        lemma_switch_parity(bounds, ncols, (i - 1) as nat, ncols);
    }
}

/// The colours of a square spinner's frame: with a filled centre, the
/// character cells covering the centre square (rows from the one holding its
/// top dot row to the one holding its bottom dot row, columns from the one
/// holding its left dot column to the one holding its right dot column)
/// are drawn in the inner colour and every other cell in the outer colour;
/// with an empty centre every cell is in the outer colour.  A
/// counter-clockwise spinner mirrors each row, columns counted from the
/// right.
pub proof fn rect_centre_colour(sp: RectSpinner, i: int, j: int)
    requires
        0 <= i < sp.frame().len(),
        0 <= j < sp.frame()[i].len(),
    ensures
        ({
            let s = clamp_size(sp.shape.thickness());
            let cs = centre_first(s);
            let ce = cs + s - 1;
            let off = row_offset(s);
            let jj = if sp.spin == Spin::CounterClockwise {
                sp.frame()[i].len() - 1 - j
            } else {
                j
            };
            let in_centre = (cs + off) / 4 <= i <= (ce + off) / 4 && cs / 2 <= jj <= ce / 2;
            sp.frame()[i][j].fg == if sp.centre == Centre::Filled && in_centre {
                sp.inner_color
            } else {
                sp.outer_color
            }
        }),
{
    let s = clamp_size(sp.shape.thickness());
    let filled = sp.centre == Centre::Filled;
    let st = ring_walked(
        initial_ring(s, filled),
        s,
        (sp.tick / sp.ticks_per_step) as nat,
    );
    let d = ring_end(s) + 1;
    let b = centre_cells_bounds(s);
    let f = square_frame(st.dots, d, b, filled, sp.outer_color, sp.inner_color);
    let ncols = div_up(d, 2);
    let cs = centre_first(s);
    let ce = cs + s - 1;
    let off = row_offset(s);
    assert(2 <= s <= 8);
    assert(cs >= 2);
    assert(b[0].1 == cs / 2 - 1);
    assert(b[1].1 == ce / 2);
    assert(b[0].0 == (cs + off) / 4);
    assert(b[1].0 == (ce + off) / 4);
    assert(ncols == (d + 1) / 2);
    let jj = if sp.spin == Spin::CounterClockwise {
        ncols - 1 - j
    } else {
        j
    };
    assert(sp.frame()[i].len() == ncols);
    assert(sp.frame()[i][j] == f[i][jj]);
    if filled {
        lemma_switch_parity(b, ncols as nat, i as nat, jj as nat);
    } else {
        lemma_no_switches(b, ncols as nat, i as nat, jj as nat);
    }
}

} // verus!
