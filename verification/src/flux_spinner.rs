//! Braille rotation spinner.
//!
//! Each character cell shows a full braille glyph with one dot missing; the
//! gap travels around the cell through eight frames, clockwise or
//! counter-clockwise:
//!
//! ```text
//! Clockwise        ⣾ ⣷ ⣯ ⣟ ⡿ ⢿ ⣽ ⣻  →  ⣾ …
//! CounterClockwise ⣾ ⣻ ⣽ ⢿ ⡿ ⣟ ⣯ ⣷  →  ⣾ …
//! ```
//!
//! Wider or taller spinners offset each cell by `phase_step` frames from the
//! previous one (row-major), which draws a travelling diagonal wave.
use vstd::prelude::*;

use crate::cell::{braille, braille_char, Alignment, Cell, Color};
use crate::rect_spinner::Spin;

verus! {

/// The eight frames in clockwise order: the full cell `⣿` with one dot
/// missing, the gap going top-left, top-right, mid-right, lower-mid-right,
/// bottom-right, bottom-left, mid-left, lower-mid-left.
pub const FRAMES: [u8; 8] = [0xFE, 0xF7, 0xEF, 0xDF, 0x7F, 0xBF, 0xFD, 0xFB];

/// The frame counter of a cell: the step count and the cell's phase offset
/// (its row-major index times `phase_step`), each kept to a byte, added
/// modulo 256.
pub open spec fn flux_raw(steps: int, cell: int, phase_step: int) -> int {
    (steps % 256 + (cell % 256) * phase_step % 256) % 256
}

/// Index into [`FRAMES`] for a frame counter: forward for clockwise,
/// backward for counter-clockwise.
pub open spec fn flux_index(raw: int, spin: Spin) -> int {
    if spin == Spin::CounterClockwise {
        (8 - raw % 8) % 8
    } else {
        raw % 8
    }
}

/// The cell shown by cell number `cell` after `steps` steps.
pub open spec fn flux_cell(steps: int, cell: int, phase_step: int, spin: Spin, color: Color) -> Cell {
    Cell { symbol: braille(FRAMES@[flux_index(flux_raw(steps, cell, phase_step), spin)]), fg: color, bold: false }
}

/// Only the step count and phase offset modulo 8 matter: the counter of a
/// cell is `steps + cell · phase_step` modulo 8.
pub proof fn lemma_flux_raw_mod8(steps: int, cell: int, phase_step: int)
    requires
        steps >= 0,
        cell >= 0,
        phase_step >= 0,
    ensures
        flux_raw(steps, cell, phase_step) % 8 == (steps + cell * phase_step) % 8,
{
    let s = steps % 256;
    let p = (cell % 256) * phase_step % 256;
    vstd::arithmetic::div_mod::lemma_mod_mod(s + p, 8, 32);
    vstd::arithmetic::div_mod::lemma_mod_mod(steps, 8, 32);
    vstd::arithmetic::div_mod::lemma_mod_mod((cell % 256) * phase_step, 8, 32);
    vstd::arithmetic::div_mod::lemma_mul_mod_noop_left(cell % 256, phase_step, 8);
    vstd::arithmetic::div_mod::lemma_mod_mod(cell, 8, 32);
    vstd::arithmetic::div_mod::lemma_mul_mod_noop_left(cell, phase_step, 8);
    vstd::arithmetic::div_mod::lemma_add_mod_noop(s, p, 8);
    vstd::arithmetic::div_mod::lemma_add_mod_noop(steps, cell * phase_step, 8);
}

/// A compact braille rotation spinner of `width × height` cells.
#[derive(Debug, Clone, Copy, PartialEq, Eq, Structural)]
pub struct FluxSpinner {
    pub tick: u64,
    /// Width in character columns.
    pub width: usize,
    /// Height in character rows.
    pub height: usize,
    pub spin: Spin,
    /// Colour of every glyph.
    pub color: Color,
    pub ticks_per_step: u64,
    /// Frame offset between successive cells: `0` pulses all cells together,
    /// `1` draws a smooth wave, `4` puts neighbours in opposite phase.
    pub phase_step: u8,
    pub alignment: Alignment,
}

impl FluxSpinner {
    /// The builders keep `ticks_per_step` at least 1.
    pub open spec fn wf(self) -> bool {
        self.ticks_per_step >= 1
    }

    /// Number of animation steps taken at this tick.
    pub open spec fn steps(self) -> nat {
        (self.tick / self.ticks_per_step) as nat
    }

    /// The frame shown after `k` steps.
    pub open spec fn frame_after(self, k: int) -> Seq<Seq<Cell>> {
        Seq::new(
            self.height as nat,
            |r: int|
                Seq::new(
                    self.width as nat,
                    |c: int|
                        flux_cell(k, r * self.width + c, self.phase_step as int, self.spin, self.color),
                ),
        )
    }

    /// The frame shown at this tick.
    pub open spec fn frame(self) -> Seq<Seq<Cell>> {
        self.frame_after(self.steps() as int)
    }

    /// A `1 × 1` clockwise cyan spinner at `tick`, one tick per frame, phase
    /// step 1.
    pub fn new(tick: u64) -> (s: Self)
        ensures
            s == (FluxSpinner {
                tick,
                width: 1,
                height: 1,
                spin: Spin::Clockwise,
                color: Color::Cyan,
                ticks_per_step: 1,
                phase_step: 1,
                alignment: Alignment::Left,
            }),
    {
        FluxSpinner {
            tick,
            width: 1,
            height: 1,
            spin: Spin::Clockwise,
            color: Color::Cyan,
            ticks_per_step: 1,
            phase_step: 1,
            alignment: Alignment::Left,
        }
    }

    /// Sets the width in character columns (at least 1).
    pub fn width(self, w: usize) -> (s: Self)
        ensures
            s == (FluxSpinner { width: if w > 1 { w } else { 1 }, ..self }),
    {
        FluxSpinner { width: if w > 1 { w } else { 1 }, ..self }
    }

    /// Sets the height in character rows (at least 1).
    pub fn height(self, h: usize) -> (s: Self)
        ensures
            s == (FluxSpinner { height: if h > 1 { h } else { 1 }, ..self }),
    {
        FluxSpinner { height: if h > 1 { h } else { 1 }, ..self }
    }

    /// Sets the rotation direction, which also reverses the wave.
    pub fn spin(self, spin: Spin) -> (s: Self)
        ensures
            s == (FluxSpinner { spin, ..self }),
    {
        FluxSpinner { spin, ..self }
    }

    /// Sets the glyph colour.
    pub fn color(self, color: Color) -> (s: Self)
        ensures
            s == (FluxSpinner { color, ..self }),
    {
        FluxSpinner { color, ..self }
    }

    /// Sets how many ticks each frame is held (at least 1).
    pub fn ticks_per_step(self, n: u64) -> (s: Self)
        ensures
            s == (FluxSpinner { ticks_per_step: if n > 1 { n } else { 1 }, ..self }),
    {
        FluxSpinner { ticks_per_step: if n > 1 { n } else { 1 }, ..self }
    }

    /// Sets the frame offset between successive cells.
    pub fn phase_step(self, step: u8) -> (s: Self)
        ensures
            s == (FluxSpinner { phase_step: step, ..self }),
    {
        FluxSpinner { phase_step: step, ..self }
    }

    /// Sets the horizontal alignment of the frame.
    pub fn alignment(self, alignment: Alignment) -> (s: Self)
        ensures
            s == (FluxSpinner { alignment, ..self }),
    {
        FluxSpinner { alignment, ..self }
    }

    /// The rendered size `(cols, rows)`, each at least 1.
    pub fn char_size(&self) -> (size: (usize, usize))
        ensures
            size.0 == if self.width > 1 { self.width } else { 1 },
            size.1 == if self.height > 1 { self.height } else { 1 },
    {
        let w = if self.width > 1 {
            self.width
        } else {
            1
        };
        let h = if self.height > 1 {
            self.height
        } else {
            1
        };
        (w, h)
    }

    /// Renders the current frame as rows of cells.
    pub fn build_lines(&self) -> (lines: Vec<Vec<Cell>>)
        requires
            self.wf(),
            self.width * self.height <= usize::MAX,
        ensures
            lines.len() == self.frame().len(),
            forall|i: int| 0 <= i < lines.len() ==> #[trigger] lines[i]@ == self.frame()[i],
    {
        let steps = self.tick / self.ticks_per_step;
        let base = (steps % 256) as u8;
        let ghost frame = self.frame();
        let mut lines: Vec<Vec<Cell>> = Vec::new();
        let mut r: usize = 0;
        while r < self.height
            invariant
                self.wf(),
                self.width * self.height <= usize::MAX,
                steps == self.steps(),
                base == steps % 256,
                frame == self.frame(),
                r <= self.height,
                lines.len() == r,
                forall|a: int| 0 <= a < r ==> #[trigger] lines[a]@ == frame[a],
            decreases self.height - r,
        {
            let mut row: Vec<Cell> = Vec::new();
            let mut c: usize = 0;
            while c < self.width
                invariant
                    self.wf(),
                    self.width * self.height <= usize::MAX,
                    steps == self.steps(),
                    base == steps % 256,
                    frame == self.frame(),
                    r < self.height,
                    c <= self.width,
                    row.len() == c,
                    forall|b: int| 0 <= b < c ==> #[trigger] row[b] == frame[r as int][b],
                decreases self.width - c,
            {
                let ghost w = self.width as int;
                let ghost h = self.height as int;
                assert(r * w + c < h * w) by (nonlinear_arith)
                    requires
                        0 <= r < h,
                        0 <= c < w,
                ;
                let cell_idx = ((r * self.width + c) % 256) as u8;
                let phase = cell_idx.wrapping_mul(self.phase_step);
                let raw = base.wrapping_add(phase);
                let idx = if self.spin == Spin::CounterClockwise {
                    (8u8 - raw % 8) % 8
                } else {
                    raw % 8
                };
                proof {
                    assert(raw == flux_raw(steps as int, r * w + c, self.phase_step as int));
                }
                row.push(Cell { symbol: braille_char(FRAMES[idx as usize]), fg: self.color, bold: false });
                c += 1;
            }
            proof {
                assert(row@ =~= frame[r as int]);
            }
            lines.push(row);
            r += 1;
        }
        lines
    }

    /// The current frame, for embedding the spinner in other widgets.
    pub fn to_lines(&self) -> (lines: Vec<Vec<Cell>>)
        requires
            self.wf(),
            self.width * self.height <= usize::MAX,
        ensures
            lines.len() == self.frame().len(),
            forall|i: int| 0 <= i < lines.len() ==> #[trigger] lines[i]@ == self.frame()[i],
    {
        self.build_lines()
    }
}

} // verus!

verus! {

/// A cell shows the same glyph whenever `steps + cell · phase_step` agrees
/// modulo 8.
proof fn lemma_flux_cell_mod8(s1: int, c1: int, p1: int, s2: int, c2: int, p2: int, spin: Spin, color: Color)
    requires
        s1 >= 0,
        c1 >= 0,
        p1 >= 0,
        s2 >= 0,
        c2 >= 0,
        p2 >= 0,
        (s1 + c1 * p1) % 8 == (s2 + c2 * p2) % 8,
    ensures
        flux_cell(s1, c1, p1, spin, color) == flux_cell(s2, c2, p2, spin, color),
{
    lemma_flux_raw_mod8(s1, c1, p1);
    lemma_flux_raw_mod8(s2, c2, p2);
}

/// The flux animation repeats every 8 steps.
pub proof fn flux_period(s: FluxSpinner, k: int)
    requires
        k >= 0,
    ensures
        s.frame_after(k + 8) == s.frame_after(k),
{
    assert forall|r: int| 0 <= r < s.height implies #[trigger] s.frame_after(k + 8)[r] =~= s.frame_after(
        k,
    )[r] by {
        assert forall|c: int| 0 <= c < s.width implies s.frame_after(k + 8)[r][c] == s.frame_after(
            k,
        )[r][c] by {
            let cell = r * s.width + c;
            assert(cell >= 0) by (nonlinear_arith)
                requires
                    r >= 0,
                    c >= 0,
                    s.width >= 0,
                    cell == r * s.width + c,
            ;
            vstd::arithmetic::div_mod::lemma_mod_add_multiples_vanish(k + cell * s.phase_step, 8);
            lemma_flux_cell_mod8(k + 8, cell, s.phase_step as int, k, cell, s.phase_step as int, s.spin, s.color);
        }
    }
    assert(s.frame_after(k + 8) =~= s.frame_after(k));
}

/// Only the phase step modulo 8 matters: spinners whose phase steps agree
/// modulo 8 draw the same frames (a phase step of 8 acts as 0).
pub proof fn flux_phase_mod8(s: FluxSpinner, t: FluxSpinner, k: int)
    requires
        k >= 0,
        t == (FluxSpinner { phase_step: t.phase_step, ..s }),
        s.phase_step % 8 == t.phase_step % 8,
    ensures
        s.frame_after(k) == t.frame_after(k),
{
    assert forall|r: int| 0 <= r < s.height implies #[trigger] s.frame_after(k)[r] =~= t.frame_after(
        k,
    )[r] by {
        assert forall|c: int| 0 <= c < s.width implies s.frame_after(k)[r][c] == t.frame_after(
            k,
        )[r][c] by {
            let cell = r * s.width + c;
            assert(cell >= 0) by (nonlinear_arith)
                requires
                    r >= 0,
                    c >= 0,
                    s.width >= 0,
                    cell == r * s.width + c,
            ;
            vstd::arithmetic::div_mod::lemma_mul_mod_noop_right(cell, s.phase_step as int, 8);
            vstd::arithmetic::div_mod::lemma_mul_mod_noop_right(cell, t.phase_step as int, 8);
            vstd::arithmetic::div_mod::lemma_add_mod_noop_right(k, cell * s.phase_step, 8);
            vstd::arithmetic::div_mod::lemma_add_mod_noop_right(k, cell * t.phase_step, 8);
            lemma_flux_cell_mod8(k, cell, s.phase_step as int, k, cell, t.phase_step as int, s.spin, s.color);
        }
    }
    assert(s.frame_after(k) =~= t.frame_after(k));
}

/// One cell: clockwise after `a` steps matches counter-clockwise after `b`
/// steps when `a + b` is a multiple of 8 and the cell's phase offset is too.
proof fn lemma_flux_reverse_cell(a: int, b: int, cell: int, p: int, color: Color)
    requires
        a >= 0,
        b >= 0,
        cell >= 0,
        p >= 0,
        (a + b) % 8 == 0,
        (cell * p) % 8 == 0,
    ensures
        flux_cell(a, cell, p, Spin::Clockwise, color) == flux_cell(
            b,
            cell,
            p,
            Spin::CounterClockwise,
            color,
        ),
{
    vstd::arithmetic::div_mod::lemma_add_mod_noop_right(a, cell * p, 8);
    vstd::arithmetic::div_mod::lemma_add_mod_noop_right(b, cell * p, 8);
    lemma_flux_raw_mod8(a, cell, p);
    lemma_flux_raw_mod8(b, cell, p);
    vstd::arithmetic::div_mod::lemma_add_mod_noop(a, b, 8);
    let ra = flux_raw(a, cell, p);
    let rb = flux_raw(b, cell, p);
    assert(ra % 8 == a % 8);
    assert(rb % 8 == b % 8);
    assert(flux_index(ra, Spin::Clockwise) == flux_index(rb, Spin::CounterClockwise));
}

/// Counter-clockwise runs the clockwise frames backwards: when every cell
/// has the same phase (a phase step that is a multiple of 8, or a single
/// cell), the clockwise frame after `a` steps is the counter-clockwise frame
/// after `b` steps whenever `a + b` is a multiple of 8.
pub proof fn flux_reverse(cw: FluxSpinner, ccw: FluxSpinner, a: int, b: int)
    requires
        a >= 0,
        b >= 0,
        (a + b) % 8 == 0,
        cw.spin == Spin::Clockwise,
        ccw == (FluxSpinner { spin: Spin::CounterClockwise, ..cw }),
        cw.phase_step % 8 == 0 || (cw.width <= 1 && cw.height <= 1),
    ensures
        cw.frame_after(a) == ccw.frame_after(b),
{
    assert forall|r: int| 0 <= r < cw.height implies #[trigger] cw.frame_after(a)[r] =~= ccw.frame_after(
        b,
    )[r] by {
        assert forall|c: int| 0 <= c < cw.width implies cw.frame_after(a)[r][c] == ccw.frame_after(
            b,
        )[r][c] by {
            let p = cw.phase_step as int;
            let cell = r * cw.width + c;
            assert(cell >= 0) by (nonlinear_arith)
                requires
                    r >= 0,
                    c >= 0,
                    cw.width >= 0,
                    cell == r * cw.width + c,
            ;
            if cw.phase_step % 8 == 0 {
                vstd::arithmetic::div_mod::lemma_mul_mod_noop_right(cell, p, 8);
                assert(p % 8 == 0);
                assert(cell * (p % 8) == 0) by (nonlinear_arith)
                    requires
                        p % 8 == 0,
                ;
            } else {
                assert(cell == 0);
                assert(cell * p == 0) by (nonlinear_arith)
                    requires
                        cell == 0,
                ;
            }
            assert((cell * p) % 8 == 0);
            lemma_flux_reverse_cell(a, b, cell, p, cw.color);
        }
    }
    assert(cw.frame_after(a) =~= ccw.frame_after(b));
}

/// Whether the braille byte `b` holds exactly one dot.
pub open spec fn single_dot(b: u8) -> bool {
    b == 0x01 || b == 0x02 || b == 0x04 || b == 0x08 || b == 0x10 || b == 0x20 || b == 0x40 || b == 0x80
}

/// The frame table: every frame is the full cell with exactly one dot
/// missing, no two frames miss the same dot, and together they miss every
/// dot once.
pub proof fn flux_frames_table()
    ensures
        forall|i: int|
            0 <= i < 8 ==> {
                single_dot(!#[trigger] FRAMES@[i])
            },
        forall|i: int, j: int| 0 <= i < j < 8 ==> FRAMES@[i] != FRAMES@[j],
        (!FRAMES@[0]) | (!FRAMES@[1]) | (!FRAMES@[2]) | (!FRAMES@[3]) | (!FRAMES@[4]) | (!FRAMES@[5])
            | (!FRAMES@[6]) | (!FRAMES@[7]) == 0xFFu8,
{
    assert(FRAMES@ == seq![0xFEu8, 0xF7, 0xEF, 0xDF, 0x7F, 0xBF, 0xFD, 0xFB]);
    assert(!0xFEu8 == 0x01u8 && !0xF7u8 == 0x08u8 && !0xEFu8 == 0x10u8 && !0xDFu8 == 0x20u8) by (bit_vector);
    assert(!0x7Fu8 == 0x80u8 && !0xBFu8 == 0x40u8 && !0xFDu8 == 0x02u8 && !0xFBu8 == 0x04u8) by (bit_vector);
    assert(0x01u8 | 0x08u8 | 0x10u8 | 0x20u8 | 0x80u8 | 0x40u8 | 0x02u8 | 0x04u8 == 0xFFu8) by (bit_vector);
}

} // verus!

verus! {

/// With a phase step of 1 the wave travels one cell per step: after one
/// more step a cell shows what the next cell (in row-major order) showed
/// before.
pub proof fn flux_wave_travels(k: int, cell: int, spin: Spin, color: Color)
    requires
        k >= 0,
        cell >= 0,
    ensures
        flux_cell(k + 1, cell, 1, spin, color) == flux_cell(k, cell + 1, 1, spin, color),
{
    lemma_flux_cell_mod8(k + 1, cell, 1, k, cell + 1, 1, spin, color);
}

} // verus!
