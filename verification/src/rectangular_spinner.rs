//! Rectangle braille-arc bouncing spinner.
//!
//! A comet arc slides along the perimeter of a braille-dot rectangle and,
//! unlike the rotating spinners, reverses direction whenever its window
//! reaches either end of the perimeter, giving a ping-pong animation.
//!
//! The perimeter of a `width × height` character rectangle is enumerated
//! clockwise in dot coordinates (two dot columns and four dot rows per
//! character): top edge, right edge, bottom edge, left edge.
use vstd::prelude::*;
use vstd::math::{max, min};

use crate::bar_spinner::{bounce, bounce_step, bounced};
use crate::cell::{
    blank_grid, fits, grid_view, mark_dot, pack_cell, packed_byte, ring_cell, ring_glyph, Alignment,
    Cell, Color,
};
use crate::rect_spinner::Spin;

verus! {

/// Number of dots on the perimeter of a `dot_w × dot_h` dot rectangle.
pub open spec fn perimeter_len(dot_w: int, dot_h: int) -> int {
    2 * dot_w + 2 * dot_h - 4
}

/// The dot `(row, col)` at index `k` of the clockwise perimeter of a
/// `dot_w × dot_h` dot rectangle: the top edge left to right from the
/// top-left corner, the right edge downwards, the bottom edge right to left
/// and the left edge upwards, each corner once.
pub open spec fn perimeter_dot(dot_w: int, dot_h: int, k: int) -> (int, int) {
    if k < dot_w {
        (0, k)
    } else if k < dot_w + dot_h - 1 {
        (k - dot_w + 1, dot_w - 1)
    } else if k < 2 * dot_w + dot_h - 2 {
        (dot_h - 1, 2 * dot_w + dot_h - 3 - k)
    } else {
        (2 * dot_w + 2 * dot_h - 4 - k, 0)
    }
}

/// The clockwise perimeter of a `char_w × char_h` character rectangle in
/// dot coordinates.
pub open spec fn rect_perimeter(char_w: int, char_h: int) -> Seq<(usize, usize)> {
    Seq::new(
        perimeter_len(2 * char_w, 4 * char_h) as nat,
        |k: int|
            (
                perimeter_dot(2 * char_w, 4 * char_h, k).0 as usize,
                perimeter_dot(2 * char_w, 4 * char_h, k).1 as usize,
            ),
    )
}

/// Distinct perimeter indices name distinct dots.
pub proof fn lemma_perimeter_dot_injective(dot_w: int, dot_h: int, i: int, j: int)
    requires
        dot_w >= 2,
        dot_h >= 2,
        0 <= i < perimeter_len(dot_w, dot_h),
        0 <= j < perimeter_len(dot_w, dot_h),
        i != j,
    ensures
        perimeter_dot(dot_w, dot_h, i) != perimeter_dot(dot_w, dot_h, j),
{
}

/// Every perimeter dot lies on the border of the dot rectangle.
pub proof fn lemma_perimeter_dot_on_border(dot_w: int, dot_h: int, k: int)
    requires
        dot_w >= 2,
        dot_h >= 2,
        0 <= k < perimeter_len(dot_w, dot_h),
    ensures
        ({
            let (r, c) = perimeter_dot(dot_w, dot_h, k);
            &&& 0 <= r < dot_h
            &&& 0 <= c < dot_w
            &&& (r == 0 || r == dot_h - 1 || c == 0 || c == dot_w - 1)
        }),
{
}

/// Every dot of a rectangle's perimeter lies in its dot grid.
proof fn lemma_rect_perimeter_in_grid(char_w: int, char_h: int)
    requires
        char_w >= 1,
        char_h >= 1,
    ensures
        forall|k: int|
            0 <= k < rect_perimeter(char_w, char_h).len() ==> #[trigger] rect_perimeter(
                char_w,
                char_h,
            )[k].0 < 4 * char_h && rect_perimeter(char_w, char_h)[k].1 < 2 * char_w,
{
    assert forall|k: int| 0 <= k < rect_perimeter(char_w, char_h).len() implies #[trigger] rect_perimeter(
        char_w,
        char_h,
    )[k].0 < 4 * char_h && rect_perimeter(char_w, char_h)[k].1 < 2 * char_w by {
        lemma_perimeter_dot_on_border(2 * char_w, 4 * char_h, k);
    }
}

/// The clockwise perimeter of a `char_w × char_h` character rectangle in dot
/// coordinates, starting at the top-left corner: `2·(2·char_w + 4·char_h) − 4`
/// dots, each on the border of the rectangle and none twice.
pub fn build_perimeter(char_w: usize, char_h: usize) -> (p: Vec<(usize, usize)>)
    requires
        1 <= char_w,
        1 <= char_h,
        fits(char_w as int),
        fits(char_h as int),
    ensures
        p@ == rect_perimeter(char_w as int, char_h as int),
        p.len() == 2 * (2 * char_w + 4 * char_h) - 4,
        p@[0] == (0usize, 0usize),
        p@.no_duplicates(),
        forall|k: int|
            0 <= k < p.len() ==> {
                let (r, c) = #[trigger] p@[k];
                &&& r < 4 * char_h
                &&& c < 2 * char_w
                &&& (r == 0 || r == 4 * char_h - 1 || c == 0 || c == 2 * char_w - 1)
            },
{
    let dot_w = char_w * 2;
    let dot_h = char_h * 4;
    let ghost dw = dot_w as int;
    let ghost dh = dot_h as int;
    let ghost target = rect_perimeter(char_w as int, char_h as int);
    let mut perim: Vec<(usize, usize)> = Vec::new();
    let mut c: usize = 0;
    while c < dot_w
        invariant
            dw == dot_w,
            dh == dot_h,
            dot_w == 2 * char_w,
            dot_h == 4 * char_h,
            1 <= char_w,
            1 <= char_h,
            fits(char_w as int),
            fits(char_h as int),
            target.len() == 2 * dot_w + 2 * dot_h - 4,
            target == rect_perimeter(char_w as int, char_h as int),
            c <= dot_w,
            perim.len() == c,
            forall|k: int| 0 <= k < perim.len() ==> #[trigger] perim@[k] == target[k],
        decreases dot_w - c,
    {
        perim.push((0, c));
        proof {
            let last = perim.len() - 1;
            assert(perim@[last] == target[last]);
        }
        c += 1;
    }
    let mut r: usize = 1;
    while r < dot_h
        invariant
            dw == dot_w,
            dh == dot_h,
            dot_w == 2 * char_w,
            dot_h == 4 * char_h,
            1 <= char_w,
            1 <= char_h,
            fits(char_w as int),
            fits(char_h as int),
            target.len() == 2 * dot_w + 2 * dot_h - 4,
            target == rect_perimeter(char_w as int, char_h as int),
            1 <= r <= dot_h,
            perim.len() == dot_w + r - 1,
            forall|k: int| 0 <= k < perim.len() ==> #[trigger] perim@[k] == target[k],
        decreases dot_h - r,
    {
        perim.push((r, dot_w - 1));
        proof {
            let last = perim.len() - 1;
            assert(perim@[last] == target[last]);
        }
        r += 1;
    }
    let mut i: usize = 0;
    while i < dot_w - 1
        invariant
            dw == dot_w,
            dh == dot_h,
            dot_w == 2 * char_w,
            dot_h == 4 * char_h,
            1 <= char_w,
            1 <= char_h,
            fits(char_w as int),
            fits(char_h as int),
            target.len() == 2 * dot_w + 2 * dot_h - 4,
            target == rect_perimeter(char_w as int, char_h as int),
            i <= dot_w - 1,
            perim.len() == dot_w + dot_h - 1 + i,
            forall|k: int| 0 <= k < perim.len() ==> #[trigger] perim@[k] == target[k],
        decreases dot_w - 1 - i,
    {
        perim.push((dot_h - 1, dot_w - 2 - i));
        proof {
            let last = perim.len() - 1;
            assert(perim@[last] == target[last]);
        }
        i += 1;
    }
    let mut j: usize = 0;
    while j < dot_h - 2
        invariant
            dw == dot_w,
            dh == dot_h,
            dot_w == 2 * char_w,
            dot_h == 4 * char_h,
            1 <= char_w,
            1 <= char_h,
            fits(char_w as int),
            fits(char_h as int),
            target.len() == 2 * dot_w + 2 * dot_h - 4,
            target == rect_perimeter(char_w as int, char_h as int),
            j <= dot_h - 2,
            perim.len() == 2 * dot_w + dot_h - 2 + j,
            forall|k: int| 0 <= k < perim.len() ==> #[trigger] perim@[k] == target[k],
        decreases dot_h - 2 - j,
    {
        perim.push((dot_h - 2 - j, 0));
        proof {
            let last = perim.len() - 1;
            assert(perim@[last] == target[last]);
        }
        j += 1;
    }
    proof {
        assert(perim@ =~= target);
        assert forall|a: int, b: int|
            0 <= a < perim.len() && 0 <= b < perim.len() && a != b implies perim@[a] != perim@[b] by {
            lemma_perimeter_dot_injective(dw, dh, a, b);
            lemma_perimeter_dot_on_border(dw, dh, a);
            lemma_perimeter_dot_on_border(dw, dh, b);
        }
        assert forall|k: int| 0 <= k < perim.len() implies {
            let (r, c) = #[trigger] perim@[k];
            &&& r < 4 * char_h
            &&& c < 2 * char_w
            &&& (r == 0 || r == 4 * char_h - 1 || c == 0 || c == 2 * char_w - 1)
        } by {
            lemma_perimeter_dot_on_border(dw, dh, k);
        }
    }
    perim
}

/// Arc length of a bouncing rectangle with `n` perimeter dots: an explicit
/// `requested` length clamped below `n`, or a quarter of the perimeter (at
/// least 3) when `requested` is zero.
pub open spec fn window_length(requested: int, n: int) -> int {
    if requested > 0 {
        min(requested, n - 1)
    } else {
        max(n / 4, 3)
    }
}

/// Starting anchor and direction: clockwise starts at index 0 moving
/// forward, counter-clockwise starts with the window at the end of the
/// perimeter moving backward.
pub open spec fn window_start(n: int, arc_len: int, spin: Spin) -> (int, bool) {
    if spin == Spin::Clockwise {
        (0, true)
    } else {
        (n - arc_len, false)
    }
}

/// Whether grid dot `(r, c)` is one of the first `upto` perimeter dots whose
/// index is inside `[lo, hi)` (when `inside`) or outside it (otherwise).
pub open spec fn window_at(
    p: Seq<(usize, usize)>,
    upto: int,
    lo: int,
    hi: int,
    inside: bool,
    r: int,
    c: int,
) -> bool {
    exists|k: int|
        0 <= k < upto && ((lo <= k && k < hi) == inside) && #[trigger] p[k].0 == r && p[k].1 == c
}

/// A `rows × cols` dot grid of the dots [`window_at`] selects.
#[verifier::opaque]
pub open spec fn window_grid(
    p: Seq<(usize, usize)>,
    rows: int,
    cols: int,
    upto: int,
    lo: int,
    hi: int,
    inside: bool,
) -> Seq<Seq<bool>> {
    Seq::new(
        rows as nat,
        |r: int| Seq::new(cols as nat, |c: int| window_at(p, upto, lo, hi, inside, r, c)),
    )
}

/// Adding perimeter dot `upto` sets its grid dot when its index is on the
/// selected side of the window, and changes nothing otherwise.
proof fn lemma_window_grid_step(
    p: Seq<(usize, usize)>,
    rows: int,
    cols: int,
    upto: int,
    lo: int,
    hi: int,
    inside: bool,
)
    requires
        0 <= upto < p.len(),
        p[upto].0 < rows,
        p[upto].1 < cols,
    ensures
        ({
            let g = window_grid(p, rows, cols, upto, lo, hi, inside);
            let d = p[upto];
            window_grid(p, rows, cols, upto + 1, lo, hi, inside) == if (lo <= upto && upto < hi)
                == inside {
                g.update(d.0 as int, g[d.0 as int].update(d.1 as int, true))
            } else {
                g
            }
        }),
{
    reveal(window_grid);
    let g = window_grid(p, rows, cols, upto, lo, hi, inside);
    let d = p[upto];
    let sel = (lo <= upto && upto < hi) == inside;
    let h = if sel {
        g.update(d.0 as int, g[d.0 as int].update(d.1 as int, true))
    } else {
        g
    };
    let g1 = window_grid(p, rows, cols, upto + 1, lo, hi, inside);
    assert forall|r: int| 0 <= r < rows implies #[trigger] g1[r] =~= h[r] by {
        assert forall|c: int| 0 <= c < cols implies g1[r][c] == h[r][c] by {
            if sel && r == d.0 && c == d.1 {
                assert(p[upto].0 == r && p[upto].1 == c);
            } else if window_at(p, upto + 1, lo, hi, inside, r, c) {
                let k = choose|k: int|
                    0 <= k < upto + 1 && ((lo <= k && k < hi) == inside) && #[trigger] p[k].0 == r
                        && p[k].1 == c;
                assert(k != upto);
                assert(window_at(p, upto, lo, hi, inside, r, c));
            }
        }
    }
    assert(g1 =~= h);
}

/// The rendered frame of a bouncing rectangle of `char_w × char_h` cells
/// whose window covers perimeter indices `anchor .. anchor + arc_len`: a
/// cell with any window dot shows its window dots in `arc_color`, else its
/// other perimeter dots in `dim_color`.
pub open spec fn rect_frame(
    p: Seq<(usize, usize)>,
    char_w: int,
    char_h: int,
    anchor: int,
    arc_len: int,
    arc_color: Color,
    dim_color: Color,
) -> Seq<Seq<Cell>> {
    let n = p.len() as int;
    let b = window_grid(p, 4 * char_h, 2 * char_w, n, anchor, anchor + arc_len, true);
    let d = window_grid(p, 4 * char_h, 2 * char_w, n, anchor, anchor + arc_len, false);
    Seq::new(
        char_h as nat,
        |i: int|
            Seq::new(
                char_w as nat,
                |j: int| ring_cell(packed_byte(b, i, j), packed_byte(d, i, j), arc_color, dim_color),
            ),
    )
}

/// Animation state of a bouncing rectangle.
pub struct RectEngine {
    pub char_w: usize,
    pub char_h: usize,
    /// The clockwise perimeter in dot coordinates.
    pub perimeter: Vec<(usize, usize)>,
    /// Index of the first dot of the arc window.
    pub anchor: usize,
    pub arc_len: usize,
    pub going_forward: bool,
}

impl RectEngine {
    /// The rectangle is at least `3 × 2` cells, the window is shorter than
    /// the perimeter, and it lies within the perimeter.
    pub open spec fn wf(self) -> bool {
        &&& 3 <= self.char_w
        &&& fits(self.char_w as int)
        &&& 2 <= self.char_h
        &&& fits(self.char_h as int)
        &&& self.perimeter@ == rect_perimeter(self.char_w as int, self.char_h as int)
        &&& 1 <= self.arc_len < self.perimeter.len()
        &&& self.anchor <= self.limit()
    }

    /// The largest anchor: the window then ends at the last perimeter dot.
    pub open spec fn limit(self) -> int {
        self.perimeter.len() - self.arc_len
    }

    /// The rendered frame.
    pub open spec fn frame(self, arc_color: Color, dim_color: Color) -> Seq<Seq<Cell>> {
        rect_frame(
            self.perimeter@,
            self.char_w as int,
            self.char_h as int,
            self.anchor as int,
            self.arc_len as int,
            arc_color,
            dim_color,
        )
    }

    /// Creates the engine for a `char_w × char_h` rectangle (clamped to at
    /// least `3 × 2`), with a window of `arc_len_override` dots (clamped below
    /// the perimeter length; `0` = a quarter of the perimeter, at least 3)
    /// placed where [`window_start`] puts it for `spin`.
    pub fn build(char_w: usize, char_h: usize, arc_len_override: usize, spin: Spin) -> (e: Self)
        requires
            fits(char_w as int),
            fits(char_h as int),
        ensures
            e.wf(),
            e.char_w == max(char_w as int, 3),
            e.char_h == max(char_h as int, 2),
            e.arc_len == window_length(arc_len_override as int, e.perimeter.len() as int),
            0 < arc_len_override < e.perimeter.len() - 1 ==> e.arc_len == arc_len_override,
            arc_len_override >= e.perimeter.len() - 1 ==> e.arc_len == e.perimeter.len() - 1,
            (e.anchor as int, e.going_forward) == window_start(
                e.perimeter.len() as int,
                e.arc_len as int,
                spin,
            ),
    {
        let char_w = if char_w > 3 {
            char_w
        } else {
            3
        };
        let char_h = if char_h > 2 {
            char_h
        } else {
            2
        };
        let perimeter = build_perimeter(char_w, char_h);
        let n = perimeter.len();
        let arc_len = if arc_len_override > 0 {
            if arc_len_override < n - 1 {
                arc_len_override
            } else {
                n - 1
            }
        } else if n / 4 > 3 {
            n / 4
        } else {
            3
        };
        let going_forward = spin == Spin::Clockwise;
        let anchor = if going_forward {
            0
        } else {
            n - arc_len
        };
        RectEngine { char_w, char_h, perimeter, anchor, arc_len, going_forward }
    }

    /// Advances one step, reversing when the window reaches either end.
    pub fn walk(&mut self)
        requires
            old(self).wf(),
        ensures
            final(self).wf(),
            (final(self).anchor as int, final(self).going_forward) == bounce_step(
                old(self).limit(),
                old(self).anchor as int,
                old(self).going_forward,
            ),
            final(self).char_w == old(self).char_w,
            final(self).char_h == old(self).char_h,
            final(self).perimeter == old(self).perimeter,
            final(self).arc_len == old(self).arc_len,
    {
        let n = self.perimeter.len();
        if n <= self.arc_len {
            return;
        }
        let max_anchor = n - self.arc_len;
        let (anchor, forward) = bounce(max_anchor, self.anchor, self.going_forward);
        self.anchor = anchor;
        self.going_forward = forward;
    }

    /// Renders the rectangle as rows of braille cells.
    pub fn render_lines(&self, arc_color: Color, dim_color: Color) -> (lines: Vec<Vec<Cell>>)
        requires
            self.wf(),
        ensures
            lines.len() == self.frame(arc_color, dim_color).len(),
            forall|i: int|
                0 <= i < lines.len() ==> #[trigger] lines[i]@ == self.frame(arc_color, dim_color)[i],
    {
        proof {
            lemma_rect_perimeter_in_grid(self.char_w as int, self.char_h as int);
        }
        let (bright, dim) = window_grids(
            &self.perimeter,
            self.char_h * 4,
            self.char_w * 2,
            self.anchor,
            self.anchor + self.arc_len,
        );
        pack_frame(&bright, &dim, self.char_w, self.char_h, arc_color, dim_color)
    }
}

/// The dot grids of the perimeter dots inside and outside the window
/// `lo .. hi` of perimeter indices.
fn window_grids(p: &Vec<(usize, usize)>, rows: usize, cols: usize, lo: usize, hi: usize) -> (g: (
    Vec<Vec<bool>>,
    Vec<Vec<bool>>,
))
    requires
        forall|k: int| 0 <= k < p.len() ==> #[trigger] p@[k].0 < rows && p@[k].1 < cols,
    ensures
        grid_view(g.0@) == window_grid(p@, rows as int, cols as int, p.len() as int, lo as int, hi as int, true),
        grid_view(g.1@) == window_grid(p@, rows as int, cols as int, p.len() as int, lo as int, hi as int, false),
{
    let n = p.len();
    let mut bright = blank_grid(rows, cols);
    let mut dim = blank_grid(rows, cols);
    proof {
        reveal(window_grid);
        assert forall|r: int| 0 <= r < rows implies #[trigger] grid_view(bright@)[r] =~= window_grid(
            p@,
            rows as int,
            cols as int,
            0,
            lo as int,
            hi as int,
            true,
        )[r] by {
            assert(bright@[r]@ == Seq::new(cols as nat, |c: int| false));
        }
        assert forall|r: int| 0 <= r < rows implies #[trigger] grid_view(dim@)[r] =~= window_grid(
            p@,
            rows as int,
            cols as int,
            0,
            lo as int,
            hi as int,
            false,
        )[r] by {
            assert(dim@[r]@ == Seq::new(cols as nat, |c: int| false));
        }
        assert(grid_view(bright@) =~= window_grid(p@, rows as int, cols as int, 0, lo as int, hi as int, true));
        assert(grid_view(dim@) =~= window_grid(p@, rows as int, cols as int, 0, lo as int, hi as int, false));
    }
    let mut k: usize = 0;
    while k < n
        invariant
            n == p.len(),
            forall|k: int| 0 <= k < p.len() ==> #[trigger] p@[k].0 < rows && p@[k].1 < cols,
            k <= n,
            bright.len() == rows,
            forall|r: int| 0 <= r < rows ==> #[trigger] bright@[r].len() == cols,
            dim.len() == rows,
            forall|r: int| 0 <= r < rows ==> #[trigger] dim@[r].len() == cols,
            grid_view(bright@) == window_grid(p@, rows as int, cols as int, k as int, lo as int, hi as int, true),
            grid_view(dim@) == window_grid(p@, rows as int, cols as int, k as int, lo as int, hi as int, false),
        decreases n - k,
    {
        let (dr, dc) = p[k];
        proof {
            lemma_window_grid_step(p@, rows as int, cols as int, k as int, lo as int, hi as int, true);
            lemma_window_grid_step(p@, rows as int, cols as int, k as int, lo as int, hi as int, false);
        }
        if lo <= k && k < hi {
            mark_dot(&mut bright, dr, dc);
        } else {
            mark_dot(&mut dim, dr, dc);
        }
        k += 1;
    }
    (bright, dim)
}

/// Packs a lit and a dim dot grid into `char_h` rows of `char_w` braille
/// cells, lit dots taking precedence.
fn pack_frame(
    bright: &Vec<Vec<bool>>,
    dim: &Vec<Vec<bool>>,
    char_w: usize,
    char_h: usize,
    arc_color: Color,
    dim_color: Color,
) -> (lines: Vec<Vec<Cell>>)
    requires
        fits(char_w as int),
        fits(char_h as int),
    ensures
        lines.len() == char_h,
        forall|i: int|
            0 <= i < char_h ==> #[trigger] lines[i]@ == Seq::new(
                char_w as nat,
                |j: int|
                    ring_cell(
                        packed_byte(grid_view(bright@), i, j),
                        packed_byte(grid_view(dim@), i, j),
                        arc_color,
                        dim_color,
                    ),
            ),
{
    let mut lines: Vec<Vec<Cell>> = Vec::new();
    let mut ci: usize = 0;
    while ci < char_h
        invariant
            fits(char_w as int),
            fits(char_h as int),
            ci <= char_h,
            lines.len() == ci,
            forall|a: int|
                0 <= a < ci ==> #[trigger] lines[a]@ == Seq::new(
                    char_w as nat,
                    |j: int|
                        ring_cell(
                            packed_byte(grid_view(bright@), a, j),
                            packed_byte(grid_view(dim@), a, j),
                            arc_color,
                            dim_color,
                        ),
                ),
        decreases char_h - ci,
    {
        let mut row: Vec<Cell> = Vec::new();
        let mut cj: usize = 0;
        while cj < char_w
            invariant
                fits(char_w as int),
                fits(char_h as int),
                ci < char_h,
                cj <= char_w,
                row.len() == cj,
                forall|b: int|
                    0 <= b < cj ==> #[trigger] row[b] == ring_cell(
                        packed_byte(grid_view(bright@), ci as int, b),
                        packed_byte(grid_view(dim@), ci as int, b),
                        arc_color,
                        dim_color,
                    ),
            decreases char_w - cj,
        {
            let b = pack_cell(bright, ci, cj);
            let d = pack_cell(dim, ci, cj);
            row.push(ring_glyph(b, d, arc_color, dim_color));
            cj += 1;
        }
        proof {
            assert(row@ =~= Seq::new(
                char_w as nat,
                |j: int|
                    ring_cell(
                        packed_byte(grid_view(bright@), ci as int, j),
                        packed_byte(grid_view(dim@), ci as int, j),
                        arc_color,
                        dim_color,
                    ),
            ));
        }
        lines.push(row);
        ci += 1;
    }
    lines
}

} // verus!

verus! {

/// Clockwise and counter-clockwise rectangles start at different anchors,
/// moving in opposite directions.
pub proof fn rect_starts_differ(n: int, arc_len: int)
    requires
        1 <= arc_len < n,
    ensures
        window_start(n, arc_len, Spin::Clockwise).0 != window_start(
            n,
            arc_len,
            Spin::CounterClockwise,
        ).0,
        window_start(n, arc_len, Spin::Clockwise).1 != window_start(
            n,
            arc_len,
            Spin::CounterClockwise,
        ).1,
{
}

/// A spinner whose arc bounces back and forth along the perimeter of a
/// braille-dot rectangle of exactly `width × height` character cells.
#[derive(Debug, Clone, Copy, PartialEq, Eq, Structural)]
pub struct RectangularSpinner {
    pub tick: u64,
    /// Width in character columns (at least 3 when drawn).
    pub width: usize,
    /// Height in character rows (at least 2 when drawn).
    pub height: usize,
    /// Arc length in perimeter dots; `0` means about a quarter of the
    /// perimeter.
    pub arc_len: usize,
    /// Starting direction before the first bounce.
    pub spin: Spin,
    pub ticks_per_step: u64,
    pub arc_color: Color,
    pub dim_color: Color,
    pub alignment: Alignment,
}

impl RectangularSpinner {
    /// The builders keep `ticks_per_step` at least 1.
    pub open spec fn wf(self) -> bool {
        self.ticks_per_step >= 1
    }

    /// Number of animation steps taken at this tick.
    pub open spec fn steps(self) -> nat {
        (self.tick / self.ticks_per_step) as nat
    }

    /// Drawn width in characters.
    pub open spec fn cols(self) -> int {
        max(self.width as int, 3)
    }

    /// Drawn height in characters.
    pub open spec fn rows(self) -> int {
        max(self.height as int, 2)
    }

    /// Number of perimeter dots.
    pub open spec fn ring_len(self) -> int {
        perimeter_len(2 * self.cols(), 4 * self.rows())
    }

    /// The arc length in use.
    pub open spec fn arc(self) -> int {
        window_length(self.arc_len as int, self.ring_len())
    }

    /// Anchor and direction after `k` steps.
    pub open spec fn position_after(self, k: nat) -> (int, bool) {
        let (a0, f0) = window_start(self.ring_len(), self.arc(), self.spin);
        bounced(self.ring_len() - self.arc(), a0, f0, k)
    }

    /// The frame shown at this tick.
    pub open spec fn frame(self) -> Seq<Seq<Cell>> {
        rect_frame(
            rect_perimeter(self.cols(), self.rows()),
            self.cols(),
            self.rows(),
            self.position_after(self.steps()).0,
            self.arc(),
            self.arc_color,
            self.dim_color,
        )
    }

    /// A spinner at `tick`: `8 × 3` characters, clockwise start, a cyan arc on
    /// a dark-gray ring, one tick per step and an automatic arc length.
    pub fn new(tick: u64) -> (s: Self)
        ensures
            s == (RectangularSpinner {
                tick,
                width: 8,
                height: 3,
                arc_len: 0,
                spin: Spin::Clockwise,
                ticks_per_step: 1,
                arc_color: Color::Cyan,
                dim_color: Color::DarkGray,
                alignment: Alignment::Left,
            }),
    {
        RectangularSpinner {
            tick,
            width: 8,
            height: 3,
            arc_len: 0,
            spin: Spin::Clockwise,
            ticks_per_step: 1,
            arc_color: Color::Cyan,
            dim_color: Color::DarkGray,
            alignment: Alignment::Left,
        }
    }

    /// Sets the width in character columns (at least 3).
    pub fn width(self, w: usize) -> (s: Self)
        ensures
            s == (RectangularSpinner { width: if w > 3 { w } else { 3 }, ..self }),
    {
        RectangularSpinner { width: if w > 3 { w } else { 3 }, ..self }
    }

    /// Sets the height in character rows (at least 2).
    pub fn height(self, h: usize) -> (s: Self)
        ensures
            s == (RectangularSpinner { height: if h > 2 { h } else { 2 }, ..self }),
    {
        RectangularSpinner { height: if h > 2 { h } else { 2 }, ..self }
    }

    /// Sets the arc length in perimeter dots (`0` for automatic).
    pub fn arc_len(self, len: usize) -> (s: Self)
        ensures
            s == (RectangularSpinner { arc_len: len, ..self }),
    {
        RectangularSpinner { arc_len: len, ..self }
    }

    /// Sets the starting direction.
    pub fn spin(self, spin: Spin) -> (s: Self)
        ensures
            s == (RectangularSpinner { spin, ..self }),
    {
        RectangularSpinner { spin, ..self }
    }

    /// Sets how many ticks each position is held (at least 1).
    pub fn ticks_per_step(self, n: u64) -> (s: Self)
        ensures
            s == (RectangularSpinner { ticks_per_step: if n > 1 { n } else { 1 }, ..self }),
    {
        RectangularSpinner { ticks_per_step: if n > 1 { n } else { 1 }, ..self }
    }

    /// Sets the colour of the arc.
    pub fn arc_color(self, color: Color) -> (s: Self)
        ensures
            s == (RectangularSpinner { arc_color: color, ..self }),
    {
        RectangularSpinner { arc_color: color, ..self }
    }

    /// Sets the colour of the rest of the ring.
    pub fn dim_color(self, color: Color) -> (s: Self)
        ensures
            s == (RectangularSpinner { dim_color: color, ..self }),
    {
        RectangularSpinner { dim_color: color, ..self }
    }

    /// Sets the horizontal alignment of the frame.
    pub fn alignment(self, alignment: Alignment) -> (s: Self)
        ensures
            s == (RectangularSpinner { alignment, ..self }),
    {
        RectangularSpinner { alignment, ..self }
    }

    /// The rendered size `(cols, rows)`: the width and height after clamping
    /// to at least `3 × 2`.
    pub fn char_size(&self) -> (size: (usize, usize))
        ensures
            size.0 == self.cols(),
            size.1 == self.rows(),
    {
        let w = if self.width > 3 {
            self.width
        } else {
            3
        };
        let h = if self.height > 2 {
            self.height
        } else {
            2
        };
        (w, h)
    }

    /// Renders the current frame as rows of cells.
    pub fn build_lines(&self) -> (lines: Vec<Vec<Cell>>)
        requires
            self.wf(),
            fits(self.width as int),
            fits(self.height as int),
        ensures
            lines.len() == self.frame().len(),
            forall|i: int| 0 <= i < lines.len() ==> #[trigger] lines[i]@ == self.frame()[i],
    {
        let mut engine = RectEngine::build(self.width, self.height, self.arc_len, self.spin);
        let ghost limit = engine.limit();
        let ghost start = (engine.anchor as int, engine.going_forward);
        let steps = self.tick / self.ticks_per_step;
        let mut i: u64 = 0;
        while i < steps
            invariant
                i <= steps,
                engine.wf(),
                engine.char_w == self.cols(),
                engine.char_h == self.rows(),
                engine.perimeter.len() == self.ring_len(),
                engine.arc_len == self.arc(),
                limit == self.ring_len() - self.arc(),
                start == window_start(self.ring_len(), self.arc(), self.spin),
                (engine.anchor as int, engine.going_forward) == bounced(
                    limit,
                    start.0,
                    start.1,
                    i as nat,
                ),
            decreases steps - i,
        {
            engine.walk();
            i += 1;
        }
        engine.render_lines(self.arc_color, self.dim_color)
    }

    /// The current frame, for embedding the spinner in other widgets.
    pub fn to_lines(&self) -> (lines: Vec<Vec<Cell>>)
        requires
            self.wf(),
            fits(self.width as int),
            fits(self.height as int),
        ensures
            lines.len() == self.frame().len(),
            forall|i: int| 0 <= i < lines.len() ==> #[trigger] lines[i]@ == self.frame()[i],
    {
        self.build_lines()
    }
}

/// The arc window of a bouncing rectangle never leaves the perimeter: after
/// any number of steps its anchor is between `0` and the perimeter length
/// minus the arc length.
pub proof fn rectangular_window_in_range(s: RectangularSpinner, k: nat)
    ensures
        0 <= s.position_after(k).0 <= s.ring_len() - s.arc(),
{
    let (a0, f0) = window_start(s.ring_len(), s.arc(), s.spin);
    crate::bar_spinner::bounce_stays_in_range(s.ring_len() - s.arc(), a0, f0, k);
}

} // verus!

verus! {

/// The window of a bouncing rectangle is as long as asked when the length is
/// below the perimeter length minus one, and is cut to the perimeter length
/// minus one otherwise; zero asks for a quarter of the perimeter, at least
/// 3 dots.  The window is always shorter than the perimeter.
pub proof fn rectangular_arc_length_law(s: RectangularSpinner)
    ensures
        0 < s.arc_len < s.ring_len() - 1 ==> s.arc() == s.arc_len,
        s.arc_len >= s.ring_len() - 1 ==> s.arc() == s.ring_len() - 1,
        s.arc_len == 0 ==> s.arc() == max(s.ring_len() / 4, 3),
        1 <= s.arc() < s.ring_len(),
{
}

} // verus!
