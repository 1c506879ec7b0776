//! Plain values shared by every spinner: colours, alignment and the styled
//! character cell that a rendered frame is made of.
use vstd::prelude::*;

verus! {

/// A terminal colour.
#[derive(Debug, Clone, Copy, PartialEq, Eq, Structural)]
pub enum Color {
    /// Resets the colour to the terminal default.
    Reset,
    Black,
    Red,
    Green,
    Yellow,
    Blue,
    Magenta,
    Cyan,
    Gray,
    DarkGray,
    LightRed,
    LightGreen,
    LightYellow,
    LightBlue,
    LightMagenta,
    LightCyan,
    White,
    /// A 24-bit colour.
    Rgb(u8, u8, u8),
    /// An indexed (256-colour palette) colour.
    Indexed(u8),
}

/// Horizontal alignment of a rendered frame inside its area.
#[derive(Debug, Clone, Copy, PartialEq, Eq, Structural)]
pub enum Alignment {
    Left,
    Center,
    Right,
}

/// One character cell of a rendered frame: a glyph, its foreground colour and
/// whether it is drawn bold.
#[derive(Debug, Clone, Copy, PartialEq, Eq, Structural)]
pub struct Cell {
    pub symbol: char,
    pub fg: Color,
    pub bold: bool,
}

/// Whether a frame side of `n` cells can be held in memory: every rendered
/// cell is stored, so no row or column of a frame is longer than this share
/// of the address space.
pub open spec fn fits(n: int) -> bool {
    n <= usize::MAX / 64
}

/// First code point of the Unicode braille block.
pub const BRAILLE_BASE: u32 = 0x2800;

/// The braille glyph whose dot pattern is `byte`.
pub open spec fn braille(byte: u8) -> char {
    (BRAILLE_BASE + byte) as char
}

/// `char::from_u32`: `Some(c)` with `c`'s code point equal to `code` exactly
/// when `code` is a Unicode scalar value, `None` otherwise.
#[verifier::external_body]
fn char_from_u32(code: u32) -> (r: Option<char>)
    ensures
        (code <= 0xD7FF || (0xE000 <= code && code <= 0x10FFFF)) ==> r == Some(code as char),
        !(code <= 0xD7FF || (0xE000 <= code && code <= 0x10FFFF)) ==> r is None,
{
    char::from_u32(code)
}

/// The braille glyph for the dot pattern `byte` (`U+2800 + byte`).
pub fn braille_char(byte: u8) -> (c: char)
    ensures
        c == braille(byte),
{
    match char_from_u32(BRAILLE_BASE + byte as u32) {
        Some(c) => c,
        None => '\u{2800}',
    }
}

// ── Braille packing ──────────────────────────────────────────────────────────

/// The nested view of a grid of rows.
pub open spec fn grid_view(g: Seq<Vec<bool>>) -> Seq<Seq<bool>> {
    g.map_values(|row: Vec<bool>| row@)
}

/// Whether dot `(r, c)` lies inside grid `g` and is set.
pub open spec fn dot_on(g: Seq<Seq<bool>>, r: int, c: int) -> bool {
    0 <= r < g.len() && 0 <= c < g[r].len() && g[r][c]
}

/// `weight` when `on`, else `0`.
pub open spec fn bit_if(on: bool, weight: int) -> int {
    if on {
        weight
    } else {
        0
    }
}

/// The braille byte of character cell `(i, j)`: a braille cell covers dot rows
/// `4i .. 4i+4` and dot columns `2j .. 2j+2`; dots 1–3 (left column, top three
/// rows) are bits 0–2, dots 4–6 (right column) bits 3–5, and the bottom-row
/// dots 7 and 8 bits 6 and 7.
pub open spec fn packed_byte(g: Seq<Seq<bool>>, i: int, j: int) -> int {
    bit_if(dot_on(g, 4 * i, 2 * j), 1) + bit_if(dot_on(g, 4 * i + 1, 2 * j), 2) + bit_if(
        dot_on(g, 4 * i + 2, 2 * j),
        4,
    ) + bit_if(dot_on(g, 4 * i, 2 * j + 1), 8) + bit_if(dot_on(g, 4 * i + 1, 2 * j + 1), 16) + bit_if(
        dot_on(g, 4 * i + 2, 2 * j + 1),
        32,
    ) + bit_if(dot_on(g, 4 * i + 3, 2 * j), 64) + bit_if(dot_on(g, 4 * i + 3, 2 * j + 1), 128)
}

/// Whether dot `(r, c)` is inside `g` and set.
fn dot_at(g: &Vec<Vec<bool>>, r: usize, c: usize) -> (b: bool)
    ensures
        b == dot_on(grid_view(g@), r as int, c as int),
{
    if r < g.len() && c < g[r].len() {
        g[r][c]
    } else {
        false
    }
}

/// Adds `weight` when `on`.
fn add_if(acc: u8, on: bool, weight: u8) -> (r: u8)
    requires
        acc as int + weight as int <= 255,
    ensures
        r == acc as int + bit_if(on, weight as int),
{
    if on {
        acc + weight
    } else {
        acc
    }
}

/// The braille byte of character cell `(i, j)` of the dot grid `g`.
pub fn pack_cell(g: &Vec<Vec<bool>>, i: usize, j: usize) -> (b: u8)
    requires
        i <= usize::MAX / 8,
        j <= usize::MAX / 4,
    ensures
        b == packed_byte(grid_view(g@), i as int, j as int),
{
    let r = 4 * i;
    let c = 2 * j;
    let mut b: u8 = 0;
    b = add_if(b, dot_at(g, r, c), 1);
    b = add_if(b, dot_at(g, r + 1, c), 2);
    b = add_if(b, dot_at(g, r + 2, c), 4);
    b = add_if(b, dot_at(g, r, c + 1), 8);
    b = add_if(b, dot_at(g, r + 1, c + 1), 16);
    b = add_if(b, dot_at(g, r + 2, c + 1), 32);
    b = add_if(b, dot_at(g, r + 3, c), 64);
    b = add_if(b, dot_at(g, r + 3, c + 1), 128);
    b
}

/// A `rows × cols` grid of unset dots.
pub fn blank_grid(rows: usize, cols: usize) -> (g: Vec<Vec<bool>>)
    ensures
        g.len() == rows,
        forall|r: int| 0 <= r < rows ==> #[trigger] g@[r]@ == Seq::new(cols as nat, |c: int| false),
{
    let mut g: Vec<Vec<bool>> = Vec::new();
    let mut r: usize = 0;
    while r < rows
        invariant
            r <= rows,
            g.len() == r,
            forall|k: int| 0 <= k < r ==> #[trigger] g@[k]@ == Seq::new(cols as nat, |c: int| false),
        decreases rows - r,
    {
        let mut row: Vec<bool> = Vec::new();
        let mut c: usize = 0;
        while c < cols
            invariant
                c <= cols,
                row@.len() == c,
                forall|k: int| 0 <= k < c ==> #[trigger] row@[k] == false,
            decreases cols - c,
        {
            row.push(false);
            c += 1;
        }
        assert(row@ =~= Seq::new(cols as nat, |c: int| false));
        g.push(row);
        r += 1;
    }
    g
}

/// A character cell showing lit dots in `arc_color` when it has any, else
/// its dim dots in `dim_color`.
pub open spec fn ring_cell(bright: int, dim: int, arc_color: Color, dim_color: Color) -> Cell {
    if bright != 0 {
        Cell { symbol: braille(bright as u8), fg: arc_color, bold: false }
    } else if dim != 0 {
        Cell { symbol: braille(dim as u8), fg: dim_color, bold: false }
    } else {
        Cell { symbol: braille(0), fg: dim_color, bold: false }
    }
}

/// The cell of a ring frame for the packed lit and dim bytes of one braille
/// character.
pub fn ring_glyph(bright: u8, dim: u8, arc_color: Color, dim_color: Color) -> (c: Cell)
    ensures
        c == ring_cell(bright as int, dim as int, arc_color, dim_color),
{
    if bright != 0 {
        Cell { symbol: braille_char(bright), fg: arc_color, bold: false }
    } else if dim != 0 {
        Cell { symbol: braille_char(dim), fg: dim_color, bold: false }
    } else {
        Cell { symbol: braille_char(0), fg: dim_color, bold: false }
    }
}

/// Sets dot `(r, c)` of the grid `g`.
pub fn mark_dot(g: &mut Vec<Vec<bool>>, r: usize, c: usize)
    requires
        r < old(g).len(),
        c < old(g)@[r as int].len(),
    ensures
        final(g).len() == old(g).len(),
        forall|k: int| 0 <= k < final(g).len() ==> #[trigger] final(g)@[k].len() == old(g)@[k].len(),
        grid_view(final(g)@) == grid_view(old(g)@).update(
            r as int,
            grid_view(old(g)@)[r as int].update(c as int, true),
        ),
{
    let ghost before = grid_view(g@);
    g[r].set(c, true);
    proof {
        assert forall|k: int| 0 <= k < g.len() implies #[trigger] g@[k].len() == old(g)@[k].len() by {
            if k != r {
                assert(g@[k] == old(g)@[k]);
            }
        }
        assert forall|k: int| 0 <= k < g.len() implies #[trigger] grid_view(g@)[k] == before.update(
            r as int,
            before[r as int].update(c as int, true),
        )[k] by {
            if k != r {
                assert(g@[k] == old(g)@[k]);
            }
        }
        assert(grid_view(g@) =~= before.update(r as int, before[r as int].update(c as int, true)));
    }
}

} // verus!
