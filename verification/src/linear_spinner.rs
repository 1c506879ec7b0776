//! Linear spinner: a scrolling window or a bouncing dot along a straight
//! axis.
//!
//! - [`Direction::Horizontal`]: a window of lit symbols scrolls along a row of
//!   slots, wrapping around (the classic ellipsis effect).
//! - [`Direction::Vertical`]: a single lit symbol bounces up and down a column
//!   of slots: `0 → 1 → … → n-1 → … → 1 → 0 → …`.
//!
//! Both directions take the same [`LinearStyle`] symbol pairs.
use vstd::prelude::*;
use vstd::math::{max, min};

use crate::cell::{Cell, Color};

verus! {

/// Layout axis of a [`LinearSpinner`].
#[derive(Debug, Clone, Copy, PartialEq, Eq, Structural)]
pub enum Direction {
    /// Symbols in a row; a window of lit symbols scrolls along it (default).
    Horizontal,
    /// Symbols in a column; one lit symbol bounces up and down.
    Vertical,
}

impl Default for Direction {
    fn default() -> (d: Self)
        ensures
            d == Direction::Horizontal,
    {
        Direction::Horizontal
    }
}

/// Travel direction of the animation along its axis.
#[derive(Debug, Clone, Copy, PartialEq, Eq, Structural)]
pub enum Flow {
    /// Left to right, or top first (default).
    Forwards,
    /// Right to left, or bottom first.
    Backwards,
}

impl Default for Flow {
    fn default() -> (f: Self)
        ensures
            f == Flow::Forwards,
    {
        Flow::Forwards
    }
}

/// Symbol pair drawn for lit and unlit slots.
#[derive(Debug, Clone, Copy, PartialEq, Eq, Structural)]
pub enum LinearStyle {
    /// `●` / `·` (default).
    Classic,
    /// `■` / `□`.
    Square,
    /// `◆` / `◇`.
    Diamond,
    /// `▰` / `▱`.
    Bar,
    /// `⣿` / `⠀`.
    Braille,
    /// `▶` / `▷` in a row, `▼` / `▽` in a column.
    Arrow,
}

impl Default for LinearStyle {
    fn default() -> (s: Self)
        ensures
            s == LinearStyle::Classic,
    {
        LinearStyle::Classic
    }
}

impl LinearStyle {
    /// The `(lit, unlit)` glyphs of the style for `direction`.
    pub open spec fn glyphs(self, direction: Direction) -> (char, char) {
        match self {
            LinearStyle::Classic => ('●', '·'),
            LinearStyle::Square => ('■', '□'),
            LinearStyle::Diamond => ('◆', '◇'),
            LinearStyle::Bar => ('▰', '▱'),
            LinearStyle::Braille => ('⣿', '⠀'),
            LinearStyle::Arrow => match direction {
                Direction::Horizontal => ('▶', '▷'),
                Direction::Vertical => ('▼', '▽'),
            },
        }
    }

    /// The `(lit, unlit)` symbols of the style for `direction`, each one
    /// glyph long.
    pub fn symbols(self, direction: Direction) -> (r: (&'static str, &'static str))
        ensures
            r.0@ == seq![self.glyphs(direction).0],
            r.1@ == seq![self.glyphs(direction).1],
    {
        match self {
            LinearStyle::Classic => {
                proof {
                    reveal_strlit("●");
                    reveal_strlit("·");
                }
                ("●", "·")
            },
            LinearStyle::Square => {
                proof {
                    reveal_strlit("■");
                    reveal_strlit("□");
                }
                ("■", "□")
            },
            LinearStyle::Diamond => {
                proof {
                    reveal_strlit("◆");
                    reveal_strlit("◇");
                }
                ("◆", "◇")
            },
            LinearStyle::Bar => {
                proof {
                    reveal_strlit("▰");
                    reveal_strlit("▱");
                }
                ("▰", "▱")
            },
            LinearStyle::Braille => {
                proof {
                    reveal_strlit("⣿");
                    reveal_strlit("⠀");
                }
                ("⣿", "⠀")
            },
            LinearStyle::Arrow => match direction {
                Direction::Horizontal => {
                    proof {
                        reveal_strlit("▶");
                        reveal_strlit("▷");
                    }
                    ("▶", "▷")
                },
                Direction::Vertical => {
                    proof {
                        reveal_strlit("▼");
                        reveal_strlit("▽");
                    }
                    ("▼", "▽")
                },
            },
        }
    }

    /// The `(lit, unlit)` glyphs of the style for `direction`.
    pub fn glyph_pair(self, direction: Direction) -> (r: (char, char))
        ensures
            r == self.glyphs(direction),
    {
        match self {
            LinearStyle::Classic => ('●', '·'),
            LinearStyle::Square => ('■', '□'),
            LinearStyle::Diamond => ('◆', '◇'),
            LinearStyle::Bar => ('▰', '▱'),
            LinearStyle::Braille => ('⣿', '⠀'),
            LinearStyle::Arrow => match direction {
                Direction::Horizontal => ('▶', '▷'),
                Direction::Vertical => ('▼', '▽'),
            },
        }
    }

    /// Terminal columns one slot takes: every style's glyphs are one column
    /// wide.
    pub fn columns_per_slot(self) -> (r: u16)
        ensures
            r == 1,
    {
        match self {
            LinearStyle::Classic
            | LinearStyle::Square
            | LinearStyle::Diamond
            | LinearStyle::Bar
            | LinearStyle::Braille
            | LinearStyle::Arrow => 1,
        }
    }
}

/// The slot that starts the lit window after `step` steps in a row of
/// `total` slots: it moves right each step going forwards and left going
/// backwards.
pub open spec fn window_start(step: int, total: int, flow: Flow) -> int {
    match flow {
        Flow::Forwards => step % total,
        Flow::Backwards => (total - 1) - step % total,
    }
}

/// Whether slot `i` of a row of `total` slots is in the window of `lit`
/// slots starting at `start`, wrapping past the end of the row.
pub open spec fn in_window(i: int, start: int, lit: int, total: int) -> bool {
    if start + lit <= total {
        start <= i && i < start + lit
    } else {
        i >= start || i < (start + lit) % total
    }
}

/// The lit slot after `step` steps of a column of `n` slots bouncing
/// between its ends: `0, 1, …, n−1, n−2, …, 1` over and over going
/// forwards, mirrored going backwards.
pub open spec fn bounce_slot(step: int, n: int, flow: Flow) -> int {
    if n == 1 {
        0
    } else {
        let cycle = 2 * (n - 1);
        let pos = step % cycle;
        let idx = if pos < n {
            pos
        } else {
            cycle - pos
        };
        match flow {
            Flow::Forwards => idx,
            Flow::Backwards => (n - 1) - idx,
        }
    }
}

/// A straight-line spinner: a scrolling window of lit symbols in a row, or
/// a bouncing lit symbol in a column.
#[derive(Debug, Clone, Copy, PartialEq, Eq, Structural)]
pub struct LinearSpinner {
    pub tick: u64,
    /// Number of symbol slots (at least 1 when drawn).
    pub total_slots: usize,
    /// Length of the lit window in a row.
    pub lit_slots: usize,
    pub ticks_per_step: u64,
    pub direction: Direction,
    pub flow: Flow,
    pub linear_style: LinearStyle,
    /// Colour of lit symbols, drawn bold.
    pub active_color: Color,
    /// Colour of unlit symbols.
    pub inactive_color: Color,
}

impl LinearSpinner {
    /// The builders keep `ticks_per_step` at least 1.
    pub open spec fn wf(self) -> bool {
        self.ticks_per_step >= 1
    }

    /// The step counter, `tick / ticks_per_step` as a `usize`.
    pub open spec fn step_count(self) -> int {
        ((self.tick / self.ticks_per_step) as usize) as int
    }

    /// Number of slots drawn.
    pub open spec fn slots(self) -> int {
        max(self.total_slots as int, 1)
    }

    /// Length of the lit window, clamped to the slots.
    pub open spec fn lit(self) -> int {
        min(self.lit_slots as int, self.slots())
    }

    /// The cell of a slot: the lit glyph in the active colour and bold, or
    /// the unlit glyph in the inactive colour.
    pub open spec fn slot_cell(self, is_lit: bool) -> Cell {
        if is_lit {
            Cell {
                symbol: self.linear_style.glyphs(self.direction).0,
                fg: self.active_color,
                bold: true,
            }
        } else {
            Cell {
                symbol: self.linear_style.glyphs(self.direction).1,
                fg: self.inactive_color,
                bold: false,
            }
        }
    }

    /// The row drawn after `k` steps.
    pub open spec fn row_after(self, k: int) -> Seq<Cell> {
        let start = window_start(k, self.slots(), self.flow);
        Seq::new(
            self.slots() as nat,
            |i: int| self.slot_cell(in_window(i, start, self.lit(), self.slots())),
        )
    }

    /// The column drawn after `k` steps in an area `height` rows tall: the
    /// slots sit in the bottom rows with empty rows above them, or fill
    /// every row in order when the area is shorter than the slots.
    pub open spec fn column_after(self, k: int, height: int) -> Seq<Seq<Cell>> {
        let n = self.slots();
        let active = bounce_slot(k, n, self.flow);
        Seq::new(
            height as nat,
            |row: int|
                if height >= n {
                    if row < height - n {
                        Seq::empty()
                    } else {
                        seq![self.slot_cell(row - (height - n) == active)]
                    }
                } else {
                    seq![self.slot_cell(row == active)]
                },
        )
    }

    /// A spinner at `tick`: three slots, two lit, three ticks per step, a
    /// horizontal forwards `Classic` row in white on dark gray.
    pub fn new(tick: u64) -> (s: Self)
        ensures
            s == (LinearSpinner {
                tick,
                total_slots: 3,
                lit_slots: 2,
                ticks_per_step: 3,
                direction: Direction::Horizontal,
                flow: Flow::Forwards,
                linear_style: LinearStyle::Classic,
                active_color: Color::White,
                inactive_color: Color::DarkGray,
            }),
    {
        LinearSpinner {
            tick,
            total_slots: 3,
            lit_slots: 2,
            ticks_per_step: 3,
            direction: Direction::Horizontal,
            flow: Flow::Forwards,
            linear_style: LinearStyle::Classic,
            active_color: Color::White,
            inactive_color: Color::DarkGray,
        }
    }

    /// Sets the layout axis.
    pub fn direction(self, direction: Direction) -> (s: Self)
        ensures
            s == (LinearSpinner { direction, ..self }),
    {
        LinearSpinner { direction, ..self }
    }

    /// Sets the travel direction.
    pub fn flow(self, flow: Flow) -> (s: Self)
        ensures
            s == (LinearSpinner { flow, ..self }),
    {
        LinearSpinner { flow, ..self }
    }

    /// Sets the symbol style.
    pub fn linear_style(self, style: LinearStyle) -> (s: Self)
        ensures
            s == (LinearSpinner { linear_style: style, ..self }),
    {
        LinearSpinner { linear_style: style, ..self }
    }

    /// Sets the number of slots (at least 1).
    pub fn total_slots(self, n: usize) -> (s: Self)
        ensures
            s == (LinearSpinner { total_slots: if n > 1 { n } else { 1 }, ..self }),
    {
        LinearSpinner { total_slots: if n > 1 { n } else { 1 }, ..self }
    }

    /// Sets the length of the lit window (at least 1).
    pub fn lit_slots(self, n: usize) -> (s: Self)
        ensures
            s == (LinearSpinner { lit_slots: if n > 1 { n } else { 1 }, ..self }),
    {
        LinearSpinner { lit_slots: if n > 1 { n } else { 1 }, ..self }
    }

    /// Sets how many ticks each step is held (at least 1).
    pub fn ticks_per_step(self, n: u64) -> (s: Self)
        ensures
            s == (LinearSpinner { ticks_per_step: if n > 1 { n } else { 1 }, ..self }),
    {
        LinearSpinner { ticks_per_step: if n > 1 { n } else { 1 }, ..self }
    }

    /// Sets the colour of lit symbols.
    pub fn active_color(self, color: Color) -> (s: Self)
        ensures
            s == (LinearSpinner { active_color: color, ..self }),
    {
        LinearSpinner { active_color: color, ..self }
    }

    /// Sets the colour of unlit symbols.
    pub fn inactive_color(self, color: Color) -> (s: Self)
        ensures
            s == (LinearSpinner { inactive_color: color, ..self }),
    {
        LinearSpinner { inactive_color: color, ..self }
    }

    /// The step counter.
    pub fn step(&self) -> (k: usize)
        requires
            self.wf(),
        ensures
            k == self.step_count(),
    {
        #[verifier::truncate]
        ((self.tick / self.ticks_per_step) as usize)
    }

    /// The cell of slot `_idx`, lit or not.
    pub fn slot_span(&self, _idx: usize, is_lit: bool) -> (c: Cell)
        ensures
            c == self.slot_cell(is_lit),
    {
        let (on, off) = self.linear_style.glyph_pair(self.direction);
        if is_lit {
            Cell { symbol: on, fg: self.active_color, bold: true }
        } else {
            Cell { symbol: off, fg: self.inactive_color, bold: false }
        }
    }

    /// The row of slots with the lit window at the current step.
    pub fn build_horizontal_line(&self) -> (line: Vec<Cell>)
        requires
            self.wf(),
            self.total_slots <= usize::MAX / 2,
        ensures
            line@ == self.row_after(self.step_count()),
    {
        let total = if self.total_slots > 1 {
            self.total_slots
        } else {
            1
        };
        let lit = if self.lit_slots < total {
            self.lit_slots
        } else {
            total
        };
        let raw = self.step() % total;
        let start = match self.flow {
            Flow::Forwards => raw,
            Flow::Backwards => (total - 1) - raw,
        };
        let ghost want = self.row_after(self.step_count());
        let mut line: Vec<Cell> = Vec::new();
        let mut i: usize = 0;
        while i < total
            invariant
                self.wf(),
                self.total_slots <= usize::MAX / 2,
                total == self.slots(),
                lit == self.lit(),
                start == window_start(self.step_count(), self.slots(), self.flow),
                start < total,
                want == self.row_after(self.step_count()),
                i <= total,
                line@.len() == i,
                forall|j: int| 0 <= j < i ==> #[trigger] line@[j] == want[j],
            decreases total - i,
        {
            let is_lit = if start + lit <= total {
                i >= start && i < start + lit
            } else {
                i >= start || i < (start + lit) % total
            };
            line.push(self.slot_span(i, is_lit));
            i += 1;
        }
        assert(line@ =~= want);
        line
    }

    /// The lit slot of a column at the current step.
    pub fn bounce_index(&self) -> (idx: usize)
        requires
            self.wf(),
            self.total_slots <= usize::MAX / 2,
        ensures
            idx == bounce_slot(self.step_count(), self.slots(), self.flow),
    {
        let n = if self.total_slots > 1 {
            self.total_slots
        } else {
            1
        };
        if n == 1 {
            return 0;
        }
        let cycle = 2 * (n - 1);
        let pos = self.step() % cycle;
        let idx = if pos < n {
            pos
        } else {
            cycle - pos
        };
        match self.flow {
            Flow::Forwards => idx,
            Flow::Backwards => (n - 1) - idx,
        }
    }

    /// The column of slots at the current step, laid out in an area
    /// `height` rows tall.
    pub fn build_vertical_lines(&self, height: usize) -> (lines: Vec<Vec<Cell>>)
        requires
            self.wf(),
            self.total_slots <= usize::MAX / 2,
        ensures
            lines.len() == height,
            forall|r: int|
                0 <= r < height ==> #[trigger] lines[r]@ == self.column_after(self.step_count(), height as int)[r],
    {
        let n = if self.total_slots > 1 {
            self.total_slots
        } else {
            1
        };
        let active = self.bounce_index();
        let ghost want = self.column_after(self.step_count(), height as int);
        let mut lines: Vec<Vec<Cell>> = Vec::new();
        let mut r: usize = 0;
        while r < height
            invariant
                self.wf(),
                n == self.slots(),
                active == bounce_slot(self.step_count(), self.slots(), self.flow),
                want == self.column_after(self.step_count(), height as int),
                r <= height,
                lines.len() == r,
                forall|q: int| 0 <= q < r ==> #[trigger] lines[q]@ == want[q],
            decreases height - r,
        {
            let mut row: Vec<Cell> = Vec::new();
            if height >= n {
                let start = height - n;
                if r >= start {
                    let i = r - start;
                    row.push(self.slot_span(i, i == active));
                }
            } else {
                row.push(self.slot_span(r, r == active));
            }
            proof {
                assert(row@ =~= want[r as int]);
            }
            lines.push(row);
            r += 1;
        }
        lines
    }
}

} // verus!

verus! {

/// The lit window is `lit` consecutive slots from `start`, read cyclically:
/// slot `i` is lit exactly when it lies fewer than `lit` slots after
/// `start`, counting round the end of the row.
pub proof fn linear_window_cyclic(i: int, start: int, lit: int, total: int)
    requires
        0 <= start < total,
        0 <= lit <= total,
        0 <= i < total,
    ensures
        in_window(i, start, lit, total) <==> (i - start) % total < lit,
{
    if i >= start {
        vstd::arithmetic::div_mod::lemma_small_mod((i - start) as nat, total as nat);
    } else {
        vstd::arithmetic::div_mod::lemma_mod_add_multiples_vanish(i - start, total);
        vstd::arithmetic::div_mod::lemma_small_mod((i - start + total) as nat, total as nat);
    }
    if start + lit > total {
        vstd::arithmetic::div_mod::lemma_mod_add_multiples_vanish(start + lit - total, total);
        vstd::arithmetic::div_mod::lemma_small_mod((start + lit - total) as nat, total as nat);
    }
}

/// Each step moves the window one slot: right going forwards, left going
/// backwards, wrapping round the row.
pub proof fn linear_scroll_step(k: int, total: int)
    requires
        k >= 0,
        total >= 1,
    ensures
        window_start(k + 1, total, Flow::Forwards) == (window_start(k, total, Flow::Forwards) + 1)
            % total,
        window_start(k + 1, total, Flow::Backwards) == (window_start(k, total, Flow::Backwards)
            + total - 1) % total,
{
    vstd::arithmetic::div_mod::lemma_add_mod_noop_right(1, k, total);
    let r = k % total;
    if r + 1 < total {
        vstd::arithmetic::div_mod::lemma_small_mod((r + 1) as nat, total as nat);
        vstd::arithmetic::div_mod::lemma_mod_add_multiples_vanish(total - 2 - r, total);
        vstd::arithmetic::div_mod::lemma_small_mod((total - 2 - r) as nat, total as nat);
        assert(total - 1 - r + total - 1 == total + (total - 2 - r));
    } else {
        vstd::arithmetic::div_mod::lemma_mod_self_0(total);
        vstd::arithmetic::div_mod::lemma_mod_add_multiples_vanish(total - 1, total);
        vstd::arithmetic::div_mod::lemma_small_mod((total - 1) as nat, total as nat);
    }
}

/// The bouncing symbol always stays on one of the `n` slots.
pub proof fn linear_bounce_in_range(k: int, n: int, flow: Flow)
    requires
        k >= 0,
        n >= 1,
    ensures
        0 <= bounce_slot(k, n, flow) < n,
{
}

/// With two or more slots the bouncing symbol moves to a neighbouring slot
/// on every step.
pub proof fn linear_bounce_step(k: int, n: int, flow: Flow)
    requires
        k >= 0,
        n >= 2,
    ensures
        bounce_slot(k + 1, n, flow) == bounce_slot(k, n, flow) + 1 || bounce_slot(k + 1, n, flow)
            == bounce_slot(k, n, flow) - 1,
{
    let cycle = 2 * (n - 1);
    vstd::arithmetic::div_mod::lemma_add_mod_noop_right(1, k, cycle);
    let p = k % cycle;
    if p + 1 < cycle {
        vstd::arithmetic::div_mod::lemma_small_mod((p + 1) as nat, cycle as nat);
    } else {
        vstd::arithmetic::div_mod::lemma_mod_self_0(cycle);
    }
}

} // verus!

verus! {

impl LinearSpinner {
    /// The frame drawn in an area `height` rows tall: the single row of
    /// slots for a horizontal spinner, the column laid out over the area for
    /// a vertical one.
    pub open spec fn frame(self, height: int) -> Seq<Seq<Cell>> {
        match self.direction {
            Direction::Horizontal => seq![self.row_after(self.step_count())],
            Direction::Vertical => self.column_after(self.step_count(), height),
        }
    }

    /// Renders the current frame for an area `height` rows tall.
    pub fn area_lines(&self, height: usize) -> (lines: Vec<Vec<Cell>>)
        requires
            self.wf(),
            self.total_slots <= usize::MAX / 2,
        ensures
            lines.len() == self.frame(height as int).len(),
            forall|i: int| 0 <= i < lines.len() ==> #[trigger] lines[i]@ == self.frame(height as int)[i],
    {
        match self.direction {
            Direction::Horizontal => {
                let mut lines: Vec<Vec<Cell>> = Vec::new();
                lines.push(self.build_horizontal_line());
                lines
            },
            Direction::Vertical => self.build_vertical_lines(height),
        }
    }
}

} // verus!

verus! {

/// The symbol table: each style draws a filled glyph for lit slots and its
/// open counterpart for unlit ones, the same in a row and in a column; only
/// `Arrow` turns, pointing right in a row and down in a column.
pub proof fn linear_glyph_table(d: Direction)
    ensures
        LinearStyle::Classic.glyphs(d) == ('●', '·'),
        LinearStyle::Square.glyphs(d) == ('■', '□'),
        LinearStyle::Diamond.glyphs(d) == ('◆', '◇'),
        LinearStyle::Bar.glyphs(d) == ('▰', '▱'),
        LinearStyle::Braille.glyphs(d) == ('⣿', '⠀'),
        LinearStyle::Arrow.glyphs(Direction::Horizontal) == ('▶', '▷'),
        LinearStyle::Arrow.glyphs(Direction::Vertical) == ('▼', '▽'),
        forall|st: LinearStyle|
            st != LinearStyle::Arrow ==> #[trigger] st.glyphs(Direction::Horizontal) == st.glyphs(
                Direction::Vertical,
            ),
        forall|st: LinearStyle, e: Direction| #[trigger] st.glyphs(e).0 != st.glyphs(e).1,
{
}

} // verus!
