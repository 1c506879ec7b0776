//! Square braille-arc spinner.
//!
//! A comet-like arc of braille dots travels around the ring of a square, with
//! a filled or empty centre; the same ring as a [`RectSpinner`] of shape
//! `Square(size)`, configured directly by its size.
//!
//! [`RectSpinner`]: crate::rect_spinner::RectSpinner
use vstd::prelude::*;

use crate::cell::{Alignment, Cell, Color};
use crate::rect_spinner::{
    calc_dimension, clamp_size, dimension, ring_frame, ring_lines, row_offset, vertical_offset, Centre, Spin,
};

verus! {

/// A rotating square braille-arc spinner.
#[derive(Debug, Clone, Copy, PartialEq, Eq, Structural)]
pub struct SquareSpinner {
    pub tick: u64,
    /// Ring thickness and square size, `2..=8`.
    pub size: usize,
    pub ticks_per_step: u64,
    pub spin: Spin,
    pub centre: Centre,
    /// Colour of the rotating arc.
    pub arc_color: Color,
    /// Colour of the filled centre.
    pub dim_color: Color,
    pub alignment: Alignment,
}

impl SquareSpinner {
    /// The builders keep `ticks_per_step` at least 1.
    pub open spec fn wf(self) -> bool {
        self.ticks_per_step >= 1
    }

    /// The frame shown at this tick.
    pub open spec fn frame(self) -> Seq<Seq<Cell>> {
        ring_frame(
            self.size as int,
            self.centre == Centre::Filled,
            (self.tick / self.ticks_per_step) as nat,
            self.spin,
            self.arc_color,
            self.dim_color,
        )
    }

    /// A spinner at `tick`: size 2, clockwise, one tick per step, a white arc,
    /// a dark-gray filled centre, left aligned.
    pub fn new(tick: u64) -> (s: Self)
        ensures
            s == (SquareSpinner {
                tick,
                size: 2,
                ticks_per_step: 1,
                spin: Spin::Clockwise,
                centre: Centre::Filled,
                arc_color: Color::White,
                dim_color: Color::DarkGray,
                alignment: Alignment::Left,
            }),
    {
        SquareSpinner {
            tick,
            size: 2,
            ticks_per_step: 1,
            spin: Spin::Clockwise,
            centre: Centre::Filled,
            arc_color: Color::White,
            dim_color: Color::DarkGray,
            alignment: Alignment::Left,
        }
    }

    /// Sets the ring thickness / square size, clamped to `2..=8`.
    pub fn size(self, size: usize) -> (s: Self)
        ensures
            s == (SquareSpinner { size: clamp_size(size as int) as usize, ..self }),
    {
        let size = if size < 2 {
            2
        } else if size > 8 {
            8
        } else {
            size
        };
        SquareSpinner { size, ..self }
    }

    /// Sets the spin direction.
    pub fn spin(self, spin: Spin) -> (s: Self)
        ensures
            s == (SquareSpinner { spin, ..self }),
    {
        SquareSpinner { spin, ..self }
    }

    /// Sets the centre fill mode.
    pub fn centre(self, centre: Centre) -> (s: Self)
        ensures
            s == (SquareSpinner { centre, ..self }),
    {
        SquareSpinner { centre, ..self }
    }

    /// Sets the colour of the arc.
    pub fn arc_color(self, color: Color) -> (s: Self)
        ensures
            s == (SquareSpinner { arc_color: color, ..self }),
    {
        SquareSpinner { arc_color: color, ..self }
    }

    /// Sets the colour of the centre.
    pub fn dim_color(self, color: Color) -> (s: Self)
        ensures
            s == (SquareSpinner { dim_color: color, ..self }),
    {
        SquareSpinner { dim_color: color, ..self }
    }

    /// Sets how many ticks each step is held (at least 1).
    pub fn ticks_per_step(self, n: u64) -> (s: Self)
        ensures
            s == (SquareSpinner { ticks_per_step: if n > 1 { n } else { 1 }, ..self }),
    {
        SquareSpinner { ticks_per_step: if n > 1 { n } else { 1 }, ..self }
    }

    /// Sets the horizontal alignment of the frame.
    pub fn alignment(self, alignment: Alignment) -> (s: Self)
        ensures
            s == (SquareSpinner { alignment, ..self }),
    {
        SquareSpinner { alignment, ..self }
    }

    /// The rendered size `(cols, rows)`: the dot grid of side
    /// `8 + 5·(size − 2)`, plus two leading dot rows for size 2, packed two
    /// dot columns and four dot rows per character.
    pub fn char_size(&self) -> (r: (u16, u16))
        requires
            dimension(self.size as int) + 5 <= usize::MAX,
        ensures
            r.0 == ((dimension(self.size as int) + 1) / 2) as u16,
            r.1 == ((dimension(self.size as int) + row_offset(self.size as int) + 3) / 4) as u16,
    {
        let dm = calc_dimension(self.size);
        let offset: usize = if vertical_offset(self.size) == 2 {
            2
        } else {
            0
        };
        let total_rows = dm + offset;
        let cols = (dm + 1) / 2;
        let rows = (total_rows + 3) / 4;
        let c: u16 = #[verifier::truncate] (cols as u16);
        let r: u16 = #[verifier::truncate] (rows as u16);
        (c, r)
    }

    /// Renders the current frame as rows of cells; a counter-clockwise spin
    /// mirrors every row.
    pub fn build_lines(&self) -> (lines: Vec<Vec<Cell>>)
        requires
            self.wf(),
        ensures
            lines.len() == self.frame().len(),
            forall|i: int| 0 <= i < lines.len() ==> #[trigger] lines[i]@ == self.frame()[i],
    {
        ring_lines(
            self.size,
            self.centre,
            self.spin,
            self.tick,
            self.ticks_per_step,
            self.arc_color,
            self.dim_color,
        )
    }
}

} // verus!

verus! {

/// A square spinner draws exactly what a [`RectSpinner`] of shape
/// `Square(size)` draws with the same tick, speed, spin and centre, its arc
/// colour as the outer colour and its dim colour as the inner colour.
///
/// [`RectSpinner`]: crate::rect_spinner::RectSpinner
pub proof fn square_is_rect_square(s: SquareSpinner)
    ensures
        s.frame() == (crate::rect_spinner::RectSpinner {
            tick: s.tick,
            shape: crate::rect_spinner::RectShape::Square(s.size),
            spin: s.spin,
            ticks_per_step: s.ticks_per_step,
            outer_color: s.arc_color,
            inner_color: s.dim_color,
            centre: s.centre,
            alignment: s.alignment,
        }).frame(),
{
}

} // verus!
