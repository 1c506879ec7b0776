//! Bouncing or looping bar spinner.
//!
//! Every character cell of the bar is filled with a glyph; a bright arc window
//! slides over a dimmer background track.  Braille bars taper the arc edges
//! through a density ramp (`⠉ ⠛ ⠿ ⣿`) for a soft comet-glow look.
use vstd::prelude::*;
use vstd::math::{max, min};

use crate::cell::{braille, braille_char, fits, Alignment, Cell, Color};
use crate::rect_spinner::Spin;

verus! {

/// Density ramp for arc edges, outermost (index 0) to innermost (index 3):
/// `⠉` top row, `⠛` top two rows, `⠿` top three rows, `⣿` full.
pub const FADE: [u8; 4] = [0x09, 0x1B, 0x3F, 0xFF];

/// Braille byte of the default rail track, `⣀` (bottom two dots).
pub const DIM_BYTE: u8 = 0xC0;

/// Appearance of the dim background track behind the arc.
#[derive(Debug, Clone, Copy, PartialEq, Eq, Structural)]
pub enum BarTrack {
    /// `⣀` (0xC0): bottom-two-dot rail (default).
    Rail,
    /// `⣿` (0xFF): full-density track.
    Full,
    /// `⠀` (0x00): invisible track; the arc floats on empty space.
    Empty,
    /// Any braille byte.
    Custom(u8),
}

impl BarTrack {
    /// The braille byte drawn for this track.
    pub open spec fn track_byte(self) -> u8 {
        match self {
            BarTrack::Rail => DIM_BYTE,
            BarTrack::Full => 0xFF,
            BarTrack::Empty => 0x00,
            BarTrack::Custom(b) => b,
        }
    }

    /// Returns the braille byte drawn for this track.
    pub fn byte(self) -> (b: u8)
        ensures
            b == self.track_byte(),
    {
        match self {
            BarTrack::Rail => DIM_BYTE,
            BarTrack::Full => 0xFF,
            BarTrack::Empty => 0x00,
            BarTrack::Custom(b) => b,
        }
    }
}

impl Default for BarTrack {
    fn default() -> (t: Self)
        ensures
            t == BarTrack::Rail,
    {
        BarTrack::Rail
    }
}

/// Glyph set used for the arc and the background track.
///
/// `Braille` (the default) uses braille bytes and the fade ramp; every other
/// variant draws one symbol for the arc and one for the track.
#[derive(Debug, Clone, Copy, PartialEq, Eq, Structural)]
pub enum BarStyle {
    /// Braille glyphs with a density-gradient fade (default).
    Braille,
    /// `█` arc, `░` track.
    Block,
    /// `▓` arc, `░` track.
    Shade,
    /// `●` arc, `·` track.
    Dot,
    /// `◆` arc, `◇` track.
    Diamond,
    /// `■` arc, `□` track.
    Square,
    /// `★` arc, `☆` track.
    Star,
    /// `♥` arc, `♡` track.
    Heart,
    /// `▶` arc, `▷` track.
    Arrow,
    /// `◉` arc, `○` track.
    Circle,
    /// `✦` arc, `✧` track.
    Spark,
    /// `✚` arc, `✛` track.
    Cross,
    /// `▰` arc, `▱` track.
    Progress,
    /// `━` arc, `─` track.
    Thick,
    /// `≈` arc, `˜` track.
    Wave,
    /// `▪` arc, `·` track.
    Pip,
}

impl BarStyle {
    /// `(arc, track)` symbols of a symbol style; `None` for braille.
    pub open spec fn symbol_pair(self) -> Option<(char, char)> {
        match self {
            BarStyle::Braille => None,
            BarStyle::Block => Some(('█', '░')),
            BarStyle::Shade => Some(('▓', '░')),
            BarStyle::Dot => Some(('●', '·')),
            BarStyle::Diamond => Some(('◆', '◇')),
            BarStyle::Square => Some(('■', '□')),
            BarStyle::Star => Some(('★', '☆')),
            BarStyle::Heart => Some(('♥', '♡')),
            BarStyle::Arrow => Some(('▶', '▷')),
            BarStyle::Circle => Some(('◉', '○')),
            BarStyle::Spark => Some(('✦', '✧')),
            BarStyle::Cross => Some(('✚', '✛')),
            BarStyle::Progress => Some(('▰', '▱')),
            BarStyle::Thick => Some(('━', '─')),
            BarStyle::Wave => Some(('≈', '˜')),
            BarStyle::Pip => Some(('▪', '·')),
        }
    }

    /// Returns `Some((arc, track))` for symbol styles, `None` for braille.
    pub fn chars(self) -> (r: Option<(char, char)>)
        ensures
            r == self.symbol_pair(),
    {
        match self {
            BarStyle::Braille => None,
            BarStyle::Block => Some(('█', '░')),
            BarStyle::Shade => Some(('▓', '░')),
            BarStyle::Dot => Some(('●', '·')),
            BarStyle::Diamond => Some(('◆', '◇')),
            BarStyle::Square => Some(('■', '□')),
            BarStyle::Star => Some(('★', '☆')),
            BarStyle::Heart => Some(('♥', '♡')),
            BarStyle::Arrow => Some(('▶', '▷')),
            BarStyle::Circle => Some(('◉', '○')),
            BarStyle::Spark => Some(('✦', '✧')),
            BarStyle::Cross => Some(('✚', '✛')),
            BarStyle::Progress => Some(('▰', '▱')),
            BarStyle::Thick => Some(('━', '─')),
            BarStyle::Wave => Some(('≈', '˜')),
            BarStyle::Pip => Some(('▪', '·')),
        }
    }
}

impl Default for BarStyle {
    fn default() -> (s: Self)
        ensures
            s == BarStyle::Braille,
    {
        BarStyle::Braille
    }
}

/// How the arc behaves at the ends of the bar.
#[derive(Debug, Clone, Copy, PartialEq, Eq, Structural)]
pub enum BarMotion {
    /// Reverses at each edge: ping-pong (default).
    Bounce,
    /// Wraps around: leaves one edge and re-enters from the other.
    Loop,
    /// Two arcs converge from both edges toward the centre, then bounce back.
    Squeeze,
    /// Two arcs radiate outward from the centre and wrap back continuously.
    Radiate,
}

impl Default for BarMotion {
    fn default() -> (m: Self)
        ensures
            m == BarMotion::Bounce,
    {
        BarMotion::Bounce
    }
}

/// Whether the bar slides horizontally or vertically.
#[derive(Debug, Clone, Copy, PartialEq, Eq, Structural)]
pub enum BarOrientation {
    /// The arc moves left and right (default).
    Horizontal,
    /// The arc moves up and down.
    Vertical,
}

impl Default for BarOrientation {
    fn default() -> (o: Self)
        ensures
            o == BarOrientation::Horizontal,
    {
        BarOrientation::Horizontal
    }
}

// ── Fade ramp ────────────────────────────────────────────────────────────────

/// `⌈a / b⌉` for `b > 0`.
pub open spec fn ceil_div(a: int, b: int) -> int {
    (a + b - 1) / b
}

/// The byte of an arc cell `from_edge` columns from the nearer arc edge: the
/// ramp byte at `min(⌈3·from_edge / fade_width⌉, 2)` inside the fade band,
/// `arc_byte` beyond it or when the fade is off.
pub open spec fn faded(from_edge: int, fade_width: int, arc_byte: u8) -> u8 {
    if fade_width == 0 || from_edge >= fade_width {
        arc_byte
    } else {
        FADE@[min(ceil_div(from_edge * 3, fade_width), 2)]
    }
}

/// Maps a distance from the nearer arc edge to the braille byte of that cell.
///
/// `fade_width = 0` disables the ramp; otherwise the outermost `fade_width`
/// columns step through `⠉ ⠛ ⠿` before reaching `arc_byte`.
pub fn fade_byte(from_edge: usize, fade_width: usize, arc_byte: u8) -> (b: u8)
    ensures
        b == faded(from_edge as int, fade_width as int, arc_byte),
{
    if fade_width == 0 || from_edge >= fade_width {
        arc_byte
    } else if from_edge == 0 {
        assert(ceil_div(0, fade_width as int) == 0) by (nonlinear_arith)
            requires
                fade_width > 0,
        ;
        FADE[0]
    } else if from_edge <= fade_width / 3 {
        let ghost e = from_edge as int;
        let ghost f = fade_width as int;
        assert(ceil_div(e * 3, f) == 1) by (nonlinear_arith)
            requires
                0 < e,
                e <= f / 3,
                f > 0,
        ;
        FADE[1]
    } else {
        let ghost e = from_edge as int;
        let ghost f = fade_width as int;
        assert(ceil_div(e * 3, f) >= 2) by (nonlinear_arith)
            requires
                0 < e < f,
                e > f / 3,
        ;
        FADE[2]
    }
}


// ── Motion ───────────────────────────────────────────────────────────────────

/// `a - b`, or `0` when `b > a`.
pub open spec fn sat_sub(a: int, b: int) -> int {
    if a >= b {
        a - b
    } else {
        0
    }
}

/// Exec form of [`sat_sub`] on `usize`.
fn saturating_minus(a: usize, b: usize) -> (r: usize)
    ensures
        r == sat_sub(a as int, b as int),
{
    if a >= b {
        a - b
    } else {
        0
    }
}

/// The anchor and direction after one step of `motion`, on a track of
/// `extent` cells carrying an arc of `arc` cells.
///
/// - `Bounce`: moves one cell toward the far end; at the end it only turns.
/// - `Loop`: moves one cell modulo `extent`, never turns.
/// - `Squeeze`: bounces between `0` and half the free track.
/// - `Radiate`: counts `0 ..= half` of the free track and wraps to `0`.
pub open spec fn next_position(
    motion: BarMotion,
    extent: int,
    arc: int,
    anchor: int,
    forward: bool,
) -> (int, bool) {
    let free = sat_sub(extent, arc);
    match motion {
        BarMotion::Bounce => bounce_step(free, anchor, forward),
        BarMotion::Loop => if forward {
            ((anchor + 1) % extent, true)
        } else {
            ((anchor + extent - 1) % extent, false)
        },
        BarMotion::Squeeze => bounce_step(free / 2, anchor, forward),
        BarMotion::Radiate => ((anchor + 1) % (free / 2 + 1), forward),
    }
}

/// One ping-pong step between `0` and `limit`.
pub open spec fn bounce_step(limit: int, anchor: int, forward: bool) -> (int, bool) {
    if forward {
        if anchor < limit {
            (anchor + 1, true)
        } else {
            (anchor, false)
        }
    } else if anchor > 0 {
        (anchor - 1, false)
    } else {
        (anchor, true)
    }
}

/// The position after `k` ping-pong steps between `0` and `limit`.
pub open spec fn bounced(limit: int, anchor: int, forward: bool, k: nat) -> (int, bool)
    decreases k,
{
    if k == 0 {
        (anchor, forward)
    } else {
        let (a, f) = bounced(limit, anchor, forward, (k - 1) as nat);
        bounce_step(limit, a, f)
    }
}

/// Ping-pong steps never leave `[0, limit]`.
pub proof fn bounce_stays_in_range(limit: int, anchor: int, forward: bool, k: nat)
    requires
        0 <= anchor <= limit,
    ensures
        0 <= bounced(limit, anchor, forward, k).0 <= limit,
    decreases k,
{
    if k > 0 {
        bounce_stays_in_range(limit, anchor, forward, (k - 1) as nat);
    }
}

/// Moving forward from `anchor`, the window advances one step at a time for
/// `limit − anchor` steps, reaching the far end still moving forward.
proof fn bounce_runs_forward(limit: int, anchor: int, m: nat)
    requires
        0 <= anchor <= limit,
        m <= limit - anchor,
    ensures
        bounced(limit, anchor, true, m) == (anchor + m, true),
    decreases m,
{
    if m > 0 {
        bounce_runs_forward(limit, anchor, (m - 1) as nat);
    }
}

/// Moving backward from `anchor`, the window retreats one step at a time
/// for `anchor` steps, reaching the near end still moving backward.
proof fn bounce_runs_backward(limit: int, anchor: int, m: nat)
    requires
        0 <= anchor <= limit,
        m <= anchor,
    ensures
        bounced(limit, anchor, false, m) == (anchor - m, false),
    decreases m,
{
    if m > 0 {
        bounce_runs_backward(limit, anchor, (m - 1) as nat);
    }
}

/// A ping-pong window turns around at each end: moving forward it reaches
/// `limit` after `limit − anchor` steps and reverses on the next step;
/// moving backward it reaches `0` after `anchor` steps and reverses on the
/// next.
pub proof fn bounce_turns_at_ends(limit: int, anchor: int)
    requires
        0 <= anchor <= limit,
    ensures
        bounced(limit, anchor, true, (limit - anchor) as nat) == (limit, true),
        bounced(limit, anchor, true, (limit - anchor + 1) as nat) == (limit, false),
        bounced(limit, anchor, false, anchor as nat) == (0int, false),
        bounced(limit, anchor, false, (anchor + 1) as nat) == (0int, true),
{
    bounce_runs_forward(limit, anchor, (limit - anchor) as nat);
    bounce_runs_backward(limit, anchor, anchor as nat);
}

/// Advances an anchor by one step of `motion`; shared by the horizontal and
/// the vertical engine.
fn advance(motion: BarMotion, extent: usize, arc: usize, anchor: usize, forward: bool) -> (r: (
    usize,
    bool,
))
    requires
        1 <= extent,
        fits(extent as int),
        anchor <= extent,
    ensures
        (r.0 as int, r.1) == next_position(motion, extent as int, arc as int, anchor as int, forward),
{
    let free = saturating_minus(extent, arc);
    match motion {
        BarMotion::Bounce => bounce(free, anchor, forward),
        BarMotion::Loop => {
            if forward {
                ((anchor + 1) % extent, true)
            } else {
                ((anchor + extent - 1) % extent, false)
            }
        },
        BarMotion::Squeeze => bounce(free / 2, anchor, forward),
        BarMotion::Radiate => ((anchor + 1) % (free / 2 + 1), forward),
    }
}

/// Exec form of [`bounce_step`].
pub fn bounce(limit: usize, anchor: usize, forward: bool) -> (r: (usize, bool))
    requires
        anchor < usize::MAX,
    ensures
        (r.0 as int, r.1) == bounce_step(limit as int, anchor as int, forward),
{
    if forward {
        if anchor < limit {
            (anchor + 1, true)
        } else {
            (anchor, false)
        }
    } else if anchor > 0 {
        (anchor - 1, false)
    } else {
        (anchor, true)
    }
}

/// Whether the arc is within the bounds its motion keeps it in: at most the
/// free track for `Bounce`, inside the track for `Loop`, at most half the free
/// track for `Squeeze` and `Radiate`.
pub open spec fn anchor_in_range(motion: BarMotion, extent: int, arc: int, anchor: int) -> bool {
    let free = sat_sub(extent, arc);
    match motion {
        BarMotion::Bounce => 0 <= anchor <= free,
        BarMotion::Loop => 0 <= anchor < extent,
        BarMotion::Squeeze | BarMotion::Radiate => 0 <= anchor <= free / 2,
    }
}

/// One step keeps the anchor in range.
pub proof fn lemma_next_position_in_range(
    motion: BarMotion,
    extent: int,
    arc: int,
    anchor: int,
    forward: bool,
)
    requires
        extent >= 1,
        arc >= 0,
        anchor_in_range(motion, extent, arc, anchor),
    ensures
        anchor_in_range(
            motion,
            extent,
            arc,
            next_position(motion, extent, arc, anchor, forward).0,
        ),
{
}

/// The arc width of an engine: an explicit `arc_width` clamped below the
/// track length, or about a third of the track (at least `min_auto`) when
/// `arc_width` is zero.
pub open spec fn arc_extent(extent: int, arc_width: int, min_auto: int) -> int {
    if arc_width > 0 {
        min(arc_width, extent - 1)
    } else {
        max(ceil_div(extent, 3), min_auto)
    }
}

/// Exec form of [`arc_extent`].
fn compute_arc(extent: usize, arc_width: usize, min_auto: usize) -> (r: usize)
    requires
        extent >= 1,
        fits(extent as int),
        min_auto <= 4,
    ensures
        r == arc_extent(extent as int, arc_width as int, min_auto as int),
{
    if arc_width > 0 {
        if arc_width < extent - 1 {
            arc_width
        } else {
            extent - 1
        }
    } else {
        let third = extent / 3 + if extent % 3 != 0 {
            1usize
        } else {
            0usize
        };
        assert(third == ceil_div(extent as int, 3));
        if third > min_auto {
            third
        } else {
            min_auto
        }
    }
}

/// Start direction: `Squeeze` and `Radiate` always start moving, the others
/// follow the spin (`Clockwise` moves forward).
pub open spec fn starts_forward(motion: BarMotion, spin: Spin) -> bool {
    match motion {
        BarMotion::Squeeze | BarMotion::Radiate => true,
        _ => spin == Spin::Clockwise,
    }
}

/// Start anchor: `0` for forward starts and the paired motions, the far end
/// (`extent - arc`, saturating) for a backward start.
pub open spec fn start_anchor(motion: BarMotion, spin: Spin, extent: int, arc: int) -> int {
    match motion {
        BarMotion::Squeeze | BarMotion::Radiate => 0,
        _ => if spin == Spin::Clockwise {
            0
        } else {
            sat_sub(extent, arc)
        },
    }
}

// ── Horizontal engine ────────────────────────────────────────────────────────

/// Animation state of a horizontal bar, in character columns.
#[derive(Debug, Clone, Copy, PartialEq, Eq, Structural)]
pub struct RectEngine {
    /// Bar length in columns (at least 3).
    pub char_w: usize,
    /// Bar thickness in rows (at least 1).
    pub char_h: usize,
    /// Width of the bright window in columns.
    pub arc_cols: usize,
    /// Position of the bright window (its leftmost column for `Bounce` and
    /// `Loop`, the distance moved for `Squeeze` and `Radiate`).
    pub anchor: usize,
    /// Whether the window currently moves forward.
    pub going_forward: bool,
    /// Edge behaviour.
    pub motion: BarMotion,
}

impl RectEngine {
    /// Shape constraints that every engine keeps.
    pub open spec fn wf(self) -> bool {
        &&& 3 <= self.char_w
        &&& fits(self.char_w as int)
        &&& 1 <= self.char_h
        &&& fits(self.char_h as int)
        &&& 1 <= self.arc_cols <= self.char_w + 1
        &&& self.anchor <= self.char_w
    }

    /// The engine after one [`walk`](RectEngine::walk).
    pub open spec fn stepped(self) -> RectEngine {
        let (anchor, forward) = next_position(
            self.motion,
            self.char_w as int,
            self.arc_cols as int,
            self.anchor as int,
            self.going_forward,
        );
        RectEngine { anchor: anchor as usize, going_forward: forward, ..self }
    }

    /// The engine after `k` walks.
    pub open spec fn walked(self, k: nat) -> RectEngine
        decreases k,
    {
        if k == 0 {
            self
        } else {
            self.walked((k - 1) as nat).stepped()
        }
    }

    /// The engine that [`build`](RectEngine::build) returns.
    pub open spec fn initial(
        char_w: int,
        char_h: int,
        arc_width: int,
        spin: Spin,
        motion: BarMotion,
    ) -> RectEngine {
        let w = max(char_w, 3);
        let arc = arc_extent(w, arc_width, 4);
        RectEngine {
            char_w: w as usize,
            char_h: max(char_h, 1) as usize,
            arc_cols: arc as usize,
            anchor: start_anchor(motion, spin, w, arc) as usize,
            going_forward: starts_forward(motion, spin),
            motion,
        }
    }

    /// Creates an engine for a bar of `char_w × char_h` cells (clamped to at
    /// least `3 × 1`), with an arc of `arc_width` columns (`0` = auto, about a
    /// third of the bar and at least 4).
    pub fn build(char_w: usize, char_h: usize, arc_width: usize, spin: Spin, motion: BarMotion) -> (e:
        Self)
        requires
            fits(char_w as int),
            fits(char_h as int),
        ensures
            e == Self::initial(char_w as int, char_h as int, arc_width as int, spin, motion),
            e.wf(),
    {
        let char_w = if char_w > 3 {
            char_w
        } else {
            3
        };
        let char_h = if char_h > 1 {
            char_h
        } else {
            1
        };
        let arc_cols = compute_arc(char_w, arc_width, 4);
        let going_forward = match motion {
            BarMotion::Squeeze | BarMotion::Radiate => true,
            _ => spin == Spin::Clockwise,
        };
        let anchor = match motion {
            BarMotion::Squeeze | BarMotion::Radiate => 0,
            _ => if going_forward {
                0
            } else {
                saturating_minus(char_w, arc_cols)
            },
        };
        RectEngine { char_w, char_h, arc_cols, anchor, going_forward, motion }
    }

    /// Advances one step, reversing or wrapping at each edge.
    pub fn walk(&mut self)
        requires
            old(self).wf(),
        ensures
            *final(self) == old(self).stepped(),
            final(self).wf(),
    {
        let (anchor, forward) = advance(
            self.motion,
            self.char_w,
            self.arc_cols,
            self.anchor,
            self.going_forward,
        );
        self.anchor = anchor;
        self.going_forward = forward;
    }
}


// ── Rendering ────────────────────────────────────────────────────────────────

/// `(inside, distance to the nearer edge)` of cell `i` for the window
/// `[start, end)`; `(false, 0)` outside it.
pub open spec fn window_hit(start: int, end: int, i: int) -> (bool, int) {
    if start <= i < end {
        (true, min(i - start, end - 1 - i))
    } else {
        (false, 0)
    }
}

/// Exec form of [`window_hit`].
fn window(start: usize, end: usize, i: usize) -> (r: (bool, usize))
    ensures
        (r.0, r.1 as int) == window_hit(start as int, end as int, i as int),
{
    if start <= i && i < end {
        let a = i - start;
        let b = end - 1 - i;
        (true, if a < b {
            a
        } else {
            b
        })
    } else {
        (false, 0)
    }
}

/// The cell drawn for a track position: arc glyph in `arc_color` inside the
/// arc, track glyph in `dim_color` outside it.  Symbol styles use their
/// symbol pair; braille uses the faded arc byte and `track_byte`.
pub open spec fn bar_cell(
    in_arc: bool,
    from_edge: int,
    arc_color: Color,
    dim_color: Color,
    fade_width: int,
    track_byte: u8,
    arc_byte: u8,
    style_chars: Option<(char, char)>,
) -> Cell {
    match style_chars {
        Some((arc_ch, track_ch)) => if in_arc {
            Cell { symbol: arc_ch, fg: arc_color, bold: false }
        } else {
            Cell { symbol: track_ch, fg: dim_color, bold: false }
        },
        None => if in_arc {
            Cell { symbol: braille(faded(from_edge, fade_width, arc_byte)), fg: arc_color, bold: false }
        } else {
            Cell { symbol: braille(track_byte), fg: dim_color, bold: false }
        },
    }
}

/// Exec form of [`bar_cell`].
fn make_bar_cell(
    in_arc: bool,
    from_edge: usize,
    arc_color: Color,
    dim_color: Color,
    fade_width: usize,
    track_byte: u8,
    arc_byte: u8,
    style_chars: Option<(char, char)>,
) -> (c: Cell)
    ensures
        c == bar_cell(
            in_arc,
            from_edge as int,
            arc_color,
            dim_color,
            fade_width as int,
            track_byte,
            arc_byte,
            style_chars,
        ),
{
    match style_chars {
        Some((arc_ch, track_ch)) => {
            if in_arc {
                Cell { symbol: arc_ch, fg: arc_color, bold: false }
            } else {
                Cell { symbol: track_ch, fg: dim_color, bold: false }
            }
        },
        None => {
            if in_arc {
                let byte = fade_byte(from_edge, fade_width, arc_byte);
                Cell { symbol: braille_char(byte), fg: arc_color, bold: false }
            } else {
                Cell { symbol: braille_char(track_byte), fg: dim_color, bold: false }
            }
        },
    }
}

/// Whether cell `i` of a track of `extent` cells is lit, and its distance
/// from the nearer edge of the arc that lights it.
///
/// `Bounce` lights `[anchor, anchor + arc)`; `Loop` lights the `arc` cells
/// from `anchor` on, wrapping; `Squeeze` lights one arc `anchor` cells in from
/// the start and its mirror `anchor` cells in from the end; `Radiate` lights
/// one arc starting `anchor` cells past the centre (cut at the end) and one
/// ending `anchor` cells before it.
pub open spec fn track_hit(motion: BarMotion, extent: int, arc: int, anchor: int, i: int) -> (
    bool,
    int,
) {
    match motion {
        BarMotion::Bounce => window_hit(anchor, anchor + arc, i),
        BarMotion::Loop => {
            let offset = (i + extent - anchor) % extent;
            if offset < arc {
                (true, min(offset, arc - 1 - offset))
            } else {
                (false, 0)
            }
        },
        BarMotion::Squeeze => {
            let left = window_hit(anchor, anchor + arc, i);
            let right_end = sat_sub(extent, anchor);
            if left.0 {
                left
            } else {
                window_hit(sat_sub(right_end, arc), right_end, i)
            }
        },
        BarMotion::Radiate => {
            let centre = extent / 2;
            let right = window_hit(centre + anchor, min(centre + anchor + arc, extent), i);
            let left_end = sat_sub(centre, anchor);
            if right.0 {
                right
            } else {
                window_hit(sat_sub(left_end, arc), left_end, i)
            }
        },
    }
}

/// Exec form of [`track_hit`].
fn track_hit_at(motion: BarMotion, extent: usize, arc: usize, anchor: usize, i: usize) -> (r: (
    bool,
    usize,
))
    requires
        1 <= extent,
        fits(extent as int),
        arc <= extent + 1,
        anchor <= extent,
        i < extent,
    ensures
        (r.0, r.1 as int) == track_hit(motion, extent as int, arc as int, anchor as int, i as int),
{
    match motion {
        BarMotion::Bounce => window(anchor, anchor + arc, i),
        BarMotion::Loop => {
            let offset = (i + extent - anchor) % extent;
            if offset < arc {
                let b = arc - 1 - offset;
                (true, if offset < b {
                    offset
                } else {
                    b
                })
            } else {
                (false, 0)
            }
        },
        BarMotion::Squeeze => {
            let left = window(anchor, anchor + arc, i);
            let right_end = saturating_minus(extent, anchor);
            if left.0 {
                left
            } else {
                window(saturating_minus(right_end, arc), right_end, i)
            }
        },
        BarMotion::Radiate => {
            let centre = extent / 2;
            let right_end = if centre + anchor + arc < extent {
                centre + anchor + arc
            } else {
                extent
            };
            let right = window(centre + anchor, right_end, i);
            let left_end = saturating_minus(centre, anchor);
            if right.0 {
                right
            } else {
                window(saturating_minus(left_end, arc), left_end, i)
            }
        },
    }
}

impl RectEngine {
    /// Whether column `ci` is lit, and its distance from the nearer edge of
    /// the arc that lights it (see [`track_hit`]).
    pub open spec fn arc_hit(self, ci: int) -> (bool, int) {
        track_hit(self.motion, self.char_w as int, self.arc_cols as int, self.anchor as int, ci)
    }

    /// One rendered row: the cell of every column.
    pub open spec fn row(
        self,
        arc_color: Color,
        dim_color: Color,
        fade_width: int,
        track_byte: u8,
        arc_byte: u8,
        style_chars: Option<(char, char)>,
    ) -> Seq<Cell> {
        Seq::new(
            self.char_w as nat,
            |ci: int|
                bar_cell(
                    self.arc_hit(ci).0,
                    self.arc_hit(ci).1,
                    arc_color,
                    dim_color,
                    fade_width,
                    track_byte,
                    arc_byte,
                    style_chars,
                ),
        )
    }

    fn render_row(
        &self,
        arc_color: Color,
        dim_color: Color,
        fade_width: usize,
        track_byte: u8,
        arc_byte: u8,
        style_chars: Option<(char, char)>,
    ) -> (r: Vec<Cell>)
        requires
            self.wf(),
        ensures
            r@ == self.row(arc_color, dim_color, fade_width as int, track_byte, arc_byte, style_chars),
    {
        let mut row: Vec<Cell> = Vec::new();
        let mut ci: usize = 0;
        while ci < self.char_w
            invariant
                self.wf(),
                ci <= self.char_w,
                row@.len() == ci,
                forall|j: int|
                    0 <= j < ci ==> #[trigger] row@[j] == self.row(
                        arc_color,
                        dim_color,
                        fade_width as int,
                        track_byte,
                        arc_byte,
                        style_chars,
                    )[j],
            decreases self.char_w - ci,
        {
            let (in_arc, from_edge) = track_hit_at(self.motion, self.char_w, self.arc_cols, self.anchor, ci);
            let cell = make_bar_cell(
                in_arc,
                from_edge,
                arc_color,
                dim_color,
                fade_width,
                track_byte,
                arc_byte,
                style_chars,
            );
            row.push(cell);
            ci += 1;
        }
        assert(row@ =~= self.row(arc_color, dim_color, fade_width as int, track_byte, arc_byte, style_chars));
        row
    }

    /// Renders the current frame: `char_h` identical rows of `char_w` cells.
    pub fn render_lines(
        &self,
        arc_color: Color,
        dim_color: Color,
        fade_width: usize,
        track_byte: u8,
        arc_byte: u8,
        style_chars: Option<(char, char)>,
    ) -> (r: Vec<Vec<Cell>>)
        requires
            self.wf(),
        ensures
            r.len() == self.char_h,
            forall|i: int|
                0 <= i < r.len() ==> #[trigger] r[i]@ == self.row(
                    arc_color,
                    dim_color,
                    fade_width as int,
                    track_byte,
                    arc_byte,
                    style_chars,
                ),
    {
        let mut lines: Vec<Vec<Cell>> = Vec::new();
        let mut i: usize = 0;
        while i < self.char_h
            invariant
                self.wf(),
                i <= self.char_h,
                lines.len() == i,
                forall|k: int|
                    0 <= k < i ==> #[trigger] lines[k]@ == self.row(
                        arc_color,
                        dim_color,
                        fade_width as int,
                        track_byte,
                        arc_byte,
                        style_chars,
                    ),
            decreases self.char_h - i,
        {
            let row = self.render_row(arc_color, dim_color, fade_width, track_byte, arc_byte, style_chars);
            lines.push(row);
            i += 1;
        }
        lines
    }
}


// ── Vertical engine ──────────────────────────────────────────────────────────

/// Animation state of a vertical bar, in character rows.
#[derive(Debug, Clone, Copy, PartialEq, Eq, Structural)]
pub struct VertRectEngine {
    /// Bar thickness in columns (at least 1).
    pub char_w: usize,
    /// Bar length in rows (at least 3).
    pub char_h: usize,
    /// Height of the bright window in rows.
    pub arc_rows: usize,
    /// Position of the bright window (see [`RectEngine::anchor`]).
    pub anchor: usize,
    /// Whether the window currently moves forward (down).
    pub going_forward: bool,
    /// Edge behaviour.
    pub motion: BarMotion,
}

impl VertRectEngine {
    /// Shape constraints that every engine keeps.
    pub open spec fn wf(self) -> bool {
        &&& 1 <= self.char_w
        &&& fits(self.char_w as int)
        &&& 3 <= self.char_h
        &&& fits(self.char_h as int)
        &&& 1 <= self.arc_rows <= self.char_h + 1
        &&& self.anchor <= self.char_h
    }

    /// The engine after one [`walk`](VertRectEngine::walk).
    pub open spec fn stepped(self) -> VertRectEngine {
        let (anchor, forward) = next_position(
            self.motion,
            self.char_h as int,
            self.arc_rows as int,
            self.anchor as int,
            self.going_forward,
        );
        VertRectEngine { anchor: anchor as usize, going_forward: forward, ..self }
    }

    /// The engine after `k` walks.
    pub open spec fn walked(self, k: nat) -> VertRectEngine
        decreases k,
    {
        if k == 0 {
            self
        } else {
            self.walked((k - 1) as nat).stepped()
        }
    }

    /// The engine that [`build`](VertRectEngine::build) returns.
    pub open spec fn initial(
        char_w: int,
        char_h: int,
        arc_height: int,
        spin: Spin,
        motion: BarMotion,
    ) -> VertRectEngine {
        let h = max(char_h, 3);
        let arc = arc_extent(h, arc_height, 2);
        VertRectEngine {
            char_w: max(char_w, 1) as usize,
            char_h: h as usize,
            arc_rows: arc as usize,
            anchor: start_anchor(motion, spin, h, arc) as usize,
            going_forward: starts_forward(motion, spin),
            motion,
        }
    }

    /// Creates an engine for a vertical bar of `char_w × char_h` cells
    /// (clamped to at least `1 × 3`), with an arc of `arc_height` rows
    /// (`0` = auto, about a third of the bar and at least 2).
    pub fn build(char_w: usize, char_h: usize, arc_height: usize, spin: Spin, motion: BarMotion) -> (e:
        Self)
        requires
            fits(char_w as int),
            fits(char_h as int),
        ensures
            e == Self::initial(char_w as int, char_h as int, arc_height as int, spin, motion),
            e.wf(),
    {
        let char_w = if char_w > 1 {
            char_w
        } else {
            1
        };
        let char_h = if char_h > 3 {
            char_h
        } else {
            3
        };
        let arc_rows = compute_arc(char_h, arc_height, 2);
        let going_forward = match motion {
            BarMotion::Squeeze | BarMotion::Radiate => true,
            _ => spin == Spin::Clockwise,
        };
        let anchor = match motion {
            BarMotion::Squeeze | BarMotion::Radiate => 0,
            _ => if going_forward {
                0
            } else {
                saturating_minus(char_h, arc_rows)
            },
        };
        VertRectEngine { char_w, char_h, arc_rows, anchor, going_forward, motion }
    }

    /// Advances one step, reversing or wrapping at each end.
    pub fn walk(&mut self)
        requires
            old(self).wf(),
        ensures
            *final(self) == old(self).stepped(),
            final(self).wf(),
    {
        let (anchor, forward) = advance(
            self.motion,
            self.char_h,
            self.arc_rows,
            self.anchor,
            self.going_forward,
        );
        self.anchor = anchor;
        self.going_forward = forward;
    }

    /// The cells of row `row`: every column shows the arc glyph (unfaded) when
    /// the row is lit, the track glyph otherwise.
    pub open spec fn row(
        self,
        row: int,
        arc_color: Color,
        dim_color: Color,
        track_byte: u8,
        arc_byte: u8,
        style_chars: Option<(char, char)>,
    ) -> Seq<Cell> {
        let lit = track_hit(
            self.motion,
            self.char_h as int,
            self.arc_rows as int,
            self.anchor as int,
            row,
        ).0;
        Seq::new(
            self.char_w as nat,
            |ci: int| bar_cell(lit, 0, arc_color, dim_color, 0, track_byte, arc_byte, style_chars),
        )
    }

    /// Renders the current frame: `char_h` rows of `char_w` cells.
    pub fn render_lines(
        &self,
        arc_color: Color,
        dim_color: Color,
        track_byte: u8,
        arc_byte: u8,
        style_chars: Option<(char, char)>,
    ) -> (r: Vec<Vec<Cell>>)
        requires
            self.wf(),
        ensures
            r.len() == self.char_h,
            forall|i: int|
                0 <= i < r.len() ==> #[trigger] r[i]@ == self.row(
                    i,
                    arc_color,
                    dim_color,
                    track_byte,
                    arc_byte,
                    style_chars,
                ),
    {
        let mut lines: Vec<Vec<Cell>> = Vec::new();
        let mut row: usize = 0;
        while row < self.char_h
            invariant
                self.wf(),
                row <= self.char_h,
                lines.len() == row,
                forall|k: int|
                    0 <= k < row ==> #[trigger] lines[k]@ == self.row(
                        k,
                        arc_color,
                        dim_color,
                        track_byte,
                        arc_byte,
                        style_chars,
                    ),
            decreases self.char_h - row,
        {
            let (lit, _) = track_hit_at(self.motion, self.char_h, self.arc_rows, self.anchor, row);
            let cell = make_bar_cell(lit, 0, arc_color, dim_color, 0, track_byte, arc_byte, style_chars);
            let mut cells: Vec<Cell> = Vec::new();
            let mut ci: usize = 0;
            while ci < self.char_w
                invariant
                    self.wf(),
                    ci <= self.char_w,
                    cells@.len() == ci,
                    forall|j: int| 0 <= j < ci ==> #[trigger] cells@[j] == cell,
                decreases self.char_w - ci,
            {
                cells.push(cell);
                ci += 1;
            }
            assert(cells@ =~= self.row(row as int, arc_color, dim_color, track_byte, arc_byte, style_chars));
            lines.push(cells);
            row += 1;
        }
        lines
    }
}


// ── Public widget ────────────────────────────────────────────────────────────

/// A braille or symbol loading bar whose bright arc bounces (or loops) over a
/// dimmer background track.
///
/// | Field        | Default               |
/// |--------------|-----------------------|
/// | `width`      | `0` (fill the area)   |
/// | `height`     | `1`                   |
/// | `arc_width`  | `0` (about a third)   |
/// | `spin`       | `Clockwise`           |
/// | `ticks_per_step` | `1`               |
/// | `arc_color`  | `Cyan`                |
/// | `dim_color`  | `DarkGray`            |
/// | `track`      | `Rail`                |
/// | `fade_width` | `3`                   |
/// | `arc_byte`   | `0xFF` (`⣿`)          |
/// | `bar_style`  | `Braille`             |
/// | `motion`     | `Bounce`              |
/// | `orientation`| `Horizontal`          |
/// | `thickness`  | `0` (use height/width)|
/// | `alignment`  | `Left`                |
#[derive(Debug, Clone, Copy, PartialEq, Eq, Structural)]
pub struct BarSpinner {
    /// Animation counter.
    pub tick: u64,
    /// `0` = fill the available width; otherwise a fixed column count.
    pub width: usize,
    /// Height in rows (at least 1).
    pub height: usize,
    /// Arc width in columns (`0` = about a third of the bar).
    pub arc_width: usize,
    /// Starting direction before the first bounce.
    pub spin: Spin,
    /// Ticks each step is held (at least 1).
    pub ticks_per_step: u64,
    /// Colour of the arc.
    pub arc_color: Color,
    /// Colour of the track.
    pub dim_color: Color,
    /// Track appearance.
    pub track: BarTrack,
    /// Fade ramp width in columns (`0` = sharp edges).
    pub fade_width: usize,
    /// Braille byte of the fully lit arc cells.
    pub arc_byte: u8,
    /// Glyph set.
    pub bar_style: BarStyle,
    /// Edge behaviour.
    pub motion: BarMotion,
    /// Horizontal or vertical bar.
    pub orientation: BarOrientation,
    /// Cross-axis thickness override (`0` = use `height` / `width`).
    pub thickness: usize,
    /// Horizontal alignment of the frame in its area.
    pub alignment: Alignment,
}

impl BarSpinner {
    /// The builders keep `ticks_per_step` and `height` at least 1.
    pub open spec fn wf(self) -> bool {
        self.ticks_per_step >= 1 && self.height >= 1
    }

    /// Number of animation steps taken at this tick.
    pub open spec fn steps(self) -> nat {
        (self.tick / self.ticks_per_step) as nat
    }

    /// The horizontal engine after [`steps`](BarSpinner::steps) walks, for a
    /// bar `actual_width` columns long.
    pub open spec fn horizontal_engine(self, actual_width: int) -> RectEngine {
        let h = if self.thickness > 0 {
            self.thickness as int
        } else {
            self.height as int
        };
        RectEngine::initial(
            max(actual_width, 3),
            h,
            self.arc_width as int,
            self.spin,
            self.motion,
        ).walked(self.steps())
    }

    /// The vertical engine after [`steps`](BarSpinner::steps) walks, for a bar
    /// `actual_height` rows long; its column count is `thickness`, else a
    /// fixed `width`, else `actual_width`.
    pub open spec fn vertical_engine(self, actual_width: int, actual_height: int) -> VertRectEngine {
        let cols = if self.thickness > 0 {
            self.thickness as int
        } else if self.width == 0 {
            actual_width
        } else {
            self.width as int
        };
        VertRectEngine::initial(
            max(cols, 1),
            max(actual_height, 3),
            self.arc_width as int,
            self.spin,
            self.motion,
        ).walked(self.steps())
    }

    /// The rendered frame for an area of `actual_width × actual_height`.
    ///
    /// A horizontal bar fades its arc edges only when it is one row thick.
    pub open spec fn frame(self, actual_width: int, actual_height: int) -> Seq<Seq<Cell>> {
        match self.orientation {
            BarOrientation::Horizontal => {
                let e = self.horizontal_engine(actual_width);
                let fade = if e.char_h > 1 {
                    0
                } else {
                    self.fade_width as int
                };
                Seq::new(
                    e.char_h as nat,
                    |i: int|
                        e.row(
                            self.arc_color,
                            self.dim_color,
                            fade,
                            self.track.track_byte(),
                            self.arc_byte,
                            self.bar_style.symbol_pair(),
                        ),
                )
            },
            BarOrientation::Vertical => {
                let e = self.vertical_engine(actual_width, actual_height);
                Seq::new(
                    e.char_h as nat,
                    |i: int|
                        e.row(
                            i,
                            self.arc_color,
                            self.dim_color,
                            self.track.track_byte(),
                            self.arc_byte,
                            self.bar_style.symbol_pair(),
                        ),
                )
            },
        }
    }

    /// Whether every side the frame can take fits in memory.
    pub open spec fn renderable(self, actual_width: int, actual_height: int) -> bool {
        &&& fits(actual_width)
        &&& fits(actual_height)
        &&& fits(self.width as int)
        &&& fits(self.height as int)
        &&& fits(self.thickness as int)
    }

    /// Renders the current frame, one row of cells per line, laid out for the
    /// given character `actual_width` and `actual_height`.
    pub fn build_lines(&self, actual_width: usize, actual_height: usize) -> (r: Vec<Vec<Cell>>)
        requires
            self.wf(),
            self.renderable(actual_width as int, actual_height as int),
        ensures
            r.len() == self.frame(actual_width as int, actual_height as int).len(),
            forall|i: int|
                0 <= i < r.len() ==> #[trigger] r[i]@ == self.frame(
                    actual_width as int,
                    actual_height as int,
                )[i],
    {
        let steps = self.tick / self.ticks_per_step;
        match self.orientation {
            BarOrientation::Horizontal => {
                let w = if actual_width > 3 {
                    actual_width
                } else {
                    3
                };
                let h = if self.thickness > 0 {
                    self.thickness
                } else {
                    self.height
                };
                let ghost start = RectEngine::initial(
                    w as int,
                    h as int,
                    self.arc_width as int,
                    self.spin,
                    self.motion,
                );
                let mut engine = RectEngine::build(w, h, self.arc_width, self.spin, self.motion);
                let mut i: u64 = 0;
                while i < steps
                    invariant
                        i <= steps,
                        engine.wf(),
                        engine == start.walked(i as nat),
                    decreases steps - i,
                {
                    engine.walk();
                    i += 1;
                }
                let fade = if engine.char_h > 1 {
                    0
                } else {
                    self.fade_width
                };
                engine.render_lines(
                    self.arc_color,
                    self.dim_color,
                    fade,
                    self.track.byte(),
                    self.arc_byte,
                    self.bar_style.chars(),
                )
            },
            BarOrientation::Vertical => {
                let cols = if self.thickness > 0 {
                    self.thickness
                } else if self.width == 0 {
                    actual_width
                } else {
                    self.width
                };
                let cols = if cols > 1 {
                    cols
                } else {
                    1
                };
                let rows = if actual_height > 3 {
                    actual_height
                } else {
                    3
                };
                let ghost start = VertRectEngine::initial(
                    cols as int,
                    rows as int,
                    self.arc_width as int,
                    self.spin,
                    self.motion,
                );
                let mut engine = VertRectEngine::build(cols, rows, self.arc_width, self.spin, self.motion);
                let mut i: u64 = 0;
                while i < steps
                    invariant
                        i <= steps,
                        engine.wf(),
                        engine == start.walked(i as nat),
                    decreases steps - i,
                {
                    engine.walk();
                    i += 1;
                }
                engine.render_lines(
                    self.arc_color,
                    self.dim_color,
                    self.track.byte(),
                    self.arc_byte,
                    self.bar_style.chars(),
                )
            },
        }
    }

    /// The current frame laid out for `width × height` characters, for
    /// embedding the bar in other widgets.
    pub fn to_lines(&self, width: usize, height: usize) -> (r: Vec<Vec<Cell>>)
        requires
            self.wf(),
            self.renderable(width as int, height as int),
        ensures
            r.len() == self.frame(width as int, height as int).len(),
            forall|i: int|
                0 <= i < r.len() ==> #[trigger] r[i]@ == self.frame(width as int, height as int)[i],
    {
        self.build_lines(width, height)
    }

    /// The explicit size `(cols, rows)`, or `None` when the width is auto.
    pub fn char_size(&self) -> (r: Option<(usize, usize)>)
        ensures
            self.width == 0 ==> r is None,
            self.width != 0 ==> r == Some(
                (max(self.width as int, 3) as usize, max(self.height as int, 1) as usize),
            ),
    {
        if self.width == 0 {
            None
        } else {
            let w = if self.width > 3 {
                self.width
            } else {
                3
            };
            let h = if self.height > 1 {
                self.height
            } else {
                1
            };
            Some((w, h))
        }
    }
}

} // verus!

verus! {

impl BarSpinner {
    /// The defaults: automatic width, one row, automatic arc width,
    /// clockwise, one tick per step, a cyan arc on a dark-gray rail track,
    /// a fade of 3 columns, full arc cells, braille glyphs, bouncing,
    /// horizontal, no thickness override, left aligned.
    pub open spec fn defaults(tick: u64) -> BarSpinner {
        BarSpinner {
            tick,
            width: 0,
            height: 1,
            arc_width: 0,
            spin: Spin::Clockwise,
            ticks_per_step: 1,
            arc_color: Color::Cyan,
            dim_color: Color::DarkGray,
            track: BarTrack::Rail,
            fade_width: 3,
            arc_byte: 0xFF,
            bar_style: BarStyle::Braille,
            motion: BarMotion::Bounce,
            orientation: BarOrientation::Horizontal,
            thickness: 0,
            alignment: Alignment::Left,
        }
    }

    /// A bar at `tick` with the [`defaults`](BarSpinner::defaults).
    pub fn new(tick: u64) -> (s: Self)
        ensures
            s == BarSpinner::defaults(tick),
    {
        BarSpinner {
            tick,
            width: 0,
            height: 1,
            arc_width: 0,
            spin: Spin::Clockwise,
            ticks_per_step: 1,
            arc_color: Color::Cyan,
            dim_color: Color::DarkGray,
            track: BarTrack::Rail,
            fade_width: 3,
            arc_byte: 0xFF,
            bar_style: BarStyle::Braille,
            motion: BarMotion::Bounce,
            orientation: BarOrientation::Horizontal,
            thickness: 0,
            alignment: Alignment::Left,
        }
    }

    /// One row, a cyan arc on a dark-gray rail.
    pub fn zed(tick: u64) -> (s: Self)
        ensures
            s == (BarSpinner { height: 1, arc_color: Color::Cyan, dim_color: Color::DarkGray, ..BarSpinner::defaults(tick) }),
    {
        BarSpinner::new(tick).height(1).arc_color(Color::Cyan).dim_color(Color::DarkGray)
    }

    /// Two rows, a warm-orange arc on a dark-gray rail.
    pub fn claude(tick: u64) -> (s: Self)
        ensures
            s == (BarSpinner {
                height: 2,
                arc_color: Color::Rgb(255, 165, 0),
                dim_color: Color::DarkGray,
                ..BarSpinner::defaults(tick)
            }),
    {
        BarSpinner::new(tick).height(2).arc_color(Color::Rgb(255, 165, 0)).dim_color(Color::DarkGray)
    }

    /// One row, a white arc floating on an empty track.
    pub fn minimal(tick: u64) -> (s: Self)
        ensures
            s == (BarSpinner {
                height: 1,
                arc_color: Color::White,
                dim_color: Color::Black,
                track: BarTrack::Empty,
                ..BarSpinner::defaults(tick)
            }),
    {
        BarSpinner::new(tick).height(1).arc_color(Color::White).dim_color(Color::Black).track(
            BarTrack::Empty,
        )
    }

    /// One row, a cyan arc on a full track, with sharp edges.
    pub fn solid(tick: u64) -> (s: Self)
        ensures
            s == (BarSpinner {
                height: 1,
                arc_color: Color::Cyan,
                dim_color: Color::DarkGray,
                track: BarTrack::Full,
                fade_width: 0,
                ..BarSpinner::defaults(tick)
            }),
    {
        BarSpinner::new(tick).height(1).arc_color(Color::Cyan).dim_color(Color::DarkGray).track(
            BarTrack::Full,
        ).fade_width(0)
    }

    /// Sets a fixed width in columns (`0` fills the available width).
    pub fn width(self, w: usize) -> (s: Self)
        ensures
            s == (BarSpinner { width: w, ..self }),
    {
        BarSpinner { width: w, ..self }
    }

    /// Sets the height in rows (at least 1).
    pub fn height(self, h: usize) -> (s: Self)
        ensures
            s == (BarSpinner { height: if h > 1 { h } else { 1 }, ..self }),
    {
        BarSpinner { height: if h > 1 { h } else { 1 }, ..self }
    }

    /// Sets the arc width in columns (`0` for automatic).
    pub fn arc_width(self, w: usize) -> (s: Self)
        ensures
            s == (BarSpinner { arc_width: w, ..self }),
    {
        BarSpinner { arc_width: w, ..self }
    }

    /// Sets the starting direction.
    pub fn spin(self, spin: Spin) -> (s: Self)
        ensures
            s == (BarSpinner { spin, ..self }),
    {
        BarSpinner { spin, ..self }
    }

    /// Sets how many ticks each step is held (at least 1).
    pub fn ticks_per_step(self, n: u64) -> (s: Self)
        ensures
            s == (BarSpinner { ticks_per_step: if n > 1 { n } else { 1 }, ..self }),
    {
        BarSpinner { ticks_per_step: if n > 1 { n } else { 1 }, ..self }
    }

    /// Sets the colour of the arc.
    pub fn arc_color(self, color: Color) -> (s: Self)
        ensures
            s == (BarSpinner { arc_color: color, ..self }),
    {
        BarSpinner { arc_color: color, ..self }
    }

    /// Sets the colour of the track.
    pub fn dim_color(self, color: Color) -> (s: Self)
        ensures
            s == (BarSpinner { dim_color: color, ..self }),
    {
        BarSpinner { dim_color: color, ..self }
    }

    /// Sets the arc and track colours together.
    pub fn with_colors(self, arc_color: Color, dim_color: Color) -> (s: Self)
        ensures
            s == (BarSpinner { arc_color, dim_color, ..self }),
    {
        BarSpinner { arc_color, dim_color, ..self }
    }

    /// Sets the track appearance.
    pub fn track(self, track: BarTrack) -> (s: Self)
        ensures
            s == (BarSpinner { track, ..self }),
    {
        BarSpinner { track, ..self }
    }

    /// Sets the width of the fade ramp at each arc edge (`0` for sharp
    /// edges).
    pub fn fade_width(self, w: usize) -> (s: Self)
        ensures
            s == (BarSpinner { fade_width: w, ..self }),
    {
        BarSpinner { fade_width: w, ..self }
    }

    /// Sets the braille byte of the fully lit arc cells.
    pub fn arc_char(self, byte: u8) -> (s: Self)
        ensures
            s == (BarSpinner { arc_byte: byte, ..self }),
    {
        BarSpinner { arc_byte: byte, ..self }
    }

    /// Sets the glyph set.
    pub fn bar_style(self, style: BarStyle) -> (s: Self)
        ensures
            s == (BarSpinner { bar_style: style, ..self }),
    {
        BarSpinner { bar_style: style, ..self }
    }

    /// Sets how the arc behaves at the ends of the bar.
    pub fn motion(self, motion: BarMotion) -> (s: Self)
        ensures
            s == (BarSpinner { motion, ..self }),
    {
        BarSpinner { motion, ..self }
    }

    /// Sets the orientation.
    pub fn orientation(self, orientation: BarOrientation) -> (s: Self)
        ensures
            s == (BarSpinner { orientation, ..self }),
    {
        BarSpinner { orientation, ..self }
    }

    /// Sets the cross-axis thickness (`0` uses `height` for a horizontal bar
    /// and `width` for a vertical one).
    pub fn thickness(self, n: usize) -> (s: Self)
        ensures
            s == (BarSpinner { thickness: n, ..self }),
    {
        BarSpinner { thickness: n, ..self }
    }

    /// Sets the horizontal alignment of the frame.
    pub fn alignment(self, alignment: Alignment) -> (s: Self)
        ensures
            s == (BarSpinner { alignment, ..self }),
    {
        BarSpinner { alignment, ..self }
    }
}

} // verus!

verus! {

/// Walking changes only the anchor and the direction of an engine.
pub proof fn lemma_walked_shape(e: RectEngine, k: nat)
    ensures
        e.walked(k).char_w == e.char_w,
        e.walked(k).char_h == e.char_h,
        e.walked(k).arc_cols == e.arc_cols,
        e.walked(k).motion == e.motion,
    decreases k,
{
    if k > 0 {
        lemma_walked_shape(e, (k - 1) as nat);
    }
}

/// A fresh engine starts with its arc within the bounds of its motion.
pub proof fn bar_initial_in_range(char_w: int, char_h: int, arc_width: int, spin: Spin, motion: BarMotion)
    requires
        0 <= char_w,
        fits(char_w),
        0 <= arc_width,
    ensures
        ({
            let e = RectEngine::initial(char_w, char_h, arc_width, spin, motion);
            anchor_in_range(motion, e.char_w as int, e.arc_cols as int, e.anchor as int)
        }),
{
    let w = max(char_w, 3);
    let arc = arc_extent(w, arc_width, 4);
    assert(arc >= 1) by {
        if arc_width == 0 {
            assert(max(ceil_div(w, 3), 4) >= 4);
        }
    }
}

/// However long a bar animates, its arc stays within the bounds of its
/// motion: between the start and the free end of the track when bouncing,
/// on the track when looping, within half the free track when squeezing or
/// radiating.
pub proof fn bar_anchor_stays_in_range(e: RectEngine, k: nat)
    requires
        e.wf(),
        anchor_in_range(e.motion, e.char_w as int, e.arc_cols as int, e.anchor as int),
    ensures
        anchor_in_range(e.motion, e.char_w as int, e.arc_cols as int, e.walked(k).anchor as int),
    decreases k,
{
    if k > 0 {
        bar_anchor_stays_in_range(e, (k - 1) as nat);
        lemma_walked_shape(e, (k - 1) as nat);
        let f = e.walked((k - 1) as nat);
        lemma_next_position_in_range(
            f.motion,
            f.char_w as int,
            f.arc_cols as int,
            f.anchor as int,
            f.going_forward,
        );
    }
}

/// A bouncing bar follows the ping-pong sequence between column 0 and the
/// free end of the track, so it turns around at both ends (see
/// [`bounce_turns_at_ends`]).
pub proof fn bar_bounce_positions(e: RectEngine, k: nat)
    requires
        e.wf(),
        e.motion == BarMotion::Bounce,
        e.anchor <= sat_sub(e.char_w as int, e.arc_cols as int),
    ensures
        (e.walked(k).anchor as int, e.walked(k).going_forward) == bounced(
            sat_sub(e.char_w as int, e.arc_cols as int),
            e.anchor as int,
            e.going_forward,
            k,
        ),
    decreases k,
{
    if k > 0 {
        bar_bounce_positions(e, (k - 1) as nat);
        lemma_walked_shape(e, (k - 1) as nat);
        bounce_stays_in_range(
            sat_sub(e.char_w as int, e.arc_cols as int),
            e.anchor as int,
            e.going_forward,
            k,
        );
    }
}

/// A looping bar moves one column per step in its direction, wrapping round
/// the track, and never turns.
pub proof fn bar_loop_positions(e: RectEngine, k: nat)
    requires
        e.wf(),
        e.motion == BarMotion::Loop,
        e.anchor < e.char_w,
    ensures
        e.walked(k).going_forward == e.going_forward,
        e.walked(k).anchor == if e.going_forward {
            (e.anchor + k) % (e.char_w as int)
        } else {
            (e.anchor - k) % (e.char_w as int)
        },
    decreases k,
{
    if k > 0 {
        bar_loop_positions(e, (k - 1) as nat);
        lemma_walked_shape(e, (k - 1) as nat);
        let w = e.char_w as int;
        let a = e.anchor as int;
        if e.going_forward {
            vstd::arithmetic::div_mod::lemma_add_mod_noop_right(1, a + k - 1, w);
            assert(1 + (a + k - 1) == a + k);
        } else {
            vstd::arithmetic::div_mod::lemma_add_mod_noop_right(w - 1, a - k + 1, w);
            vstd::arithmetic::div_mod::lemma_mod_add_multiples_vanish(a - k, w);
            assert(w - 1 + (a - k + 1) == w + (a - k));
        }
    } else {
        vstd::arithmetic::div_mod::lemma_small_mod(e.anchor as nat, e.char_w as nat);
    }
}

/// Over one full loop every column of the track is lit: column `c` is under
/// the arc after `(c − anchor) mod width` steps going forward, or
/// `(anchor − c) mod width` steps going backward.
pub proof fn bar_loop_lights_every_column(e: RectEngine, c: int)
    requires
        e.wf(),
        e.motion == BarMotion::Loop,
        e.anchor < e.char_w,
        0 <= c < e.char_w,
    ensures
        ({
            let w = e.char_w as int;
            let k = if e.going_forward {
                (c - e.anchor) % w
            } else {
                (e.anchor - c) % w
            };
            0 <= k < w && e.walked(k as nat).arc_hit(c).0
        }),
{
    let w = e.char_w as int;
    let a = e.anchor as int;
    let k = if e.going_forward {
        (c - a) % w
    } else {
        (a - c) % w
    };
    bar_loop_positions(e, k as nat);
    lemma_walked_shape(e, k as nat);
    if e.going_forward {
        vstd::arithmetic::div_mod::lemma_add_mod_noop_right(a, c - a, w);
    } else {
        vstd::arithmetic::div_mod::lemma_sub_mod_noop_right(a, a - c, w);
    }
    vstd::arithmetic::div_mod::lemma_small_mod(c as nat, w as nat);
    vstd::arithmetic::div_mod::lemma_mod_self_0(w);
    assert(c + w - c == w);
}

/// Bouncing and looping bars start at the left end moving right when
/// clockwise, and at the free end (right of column 0 whenever the arc is
/// shorter than the bar) moving left when counter-clockwise.
pub proof fn bar_start_sides(char_w: int, char_h: int, arc_width: int, motion: BarMotion)
    requires
        motion == BarMotion::Bounce || motion == BarMotion::Loop,
        0 <= char_w,
        fits(char_w),
        0 <= arc_width,
    ensures
        RectEngine::initial(char_w, char_h, arc_width, Spin::Clockwise, motion).anchor == 0,
        RectEngine::initial(char_w, char_h, arc_width, Spin::Clockwise, motion).going_forward,
        ({
            let e = RectEngine::initial(char_w, char_h, arc_width, Spin::CounterClockwise, motion);
            &&& !e.going_forward
            &&& e.anchor == sat_sub(e.char_w as int, e.arc_cols as int)
            &&& (e.arc_cols < e.char_w ==> e.anchor > 0)
        }),
{
}

/// An explicit arc width is clamped below the bar length; an automatic one
/// is a third of the bar, at least 4 columns, and shorter than any bar of 5
/// or more columns.
pub proof fn bar_arc_width_bounds(char_w: int, arc_width: int)
    requires
        char_w >= 3,
        arc_width >= 0,
    ensures
        arc_width > 0 ==> arc_extent(char_w, arc_width, 4) == min(arc_width, char_w - 1),
        arc_width > 0 ==> arc_extent(char_w, arc_width, 4) < char_w,
        arc_width == 0 ==> arc_extent(char_w, arc_width, 4) >= 4,
        arc_width == 0 && char_w >= 5 ==> arc_extent(char_w, arc_width, 4) < char_w,
{
    if arc_width == 0 && char_w >= 5 {
        assert(ceil_div(char_w, 3) < char_w);
    }
}

} // verus!

verus! {

impl BarSpinner {
    /// The bar length used in an area `area_width` columns wide: the area
    /// width when the width is automatic, else the fixed width.
    pub open spec fn actual_width(self, area_width: int) -> int {
        if self.width == 0 {
            area_width
        } else {
            self.width as int
        }
    }

    /// Renders the frame for an inner area of `area_width × area_height`
    /// characters: an automatic width fills the area, a fixed width is kept,
    /// and the area height is the length of a vertical bar.
    pub fn area_lines(&self, area_width: usize, area_height: usize) -> (r: Vec<Vec<Cell>>)
        requires
            self.wf(),
            self.renderable(self.actual_width(area_width as int), area_height as int),
        ensures
            r.len() == self.frame(self.actual_width(area_width as int), area_height as int).len(),
            forall|i: int|
                0 <= i < r.len() ==> #[trigger] r[i]@ == self.frame(
                    self.actual_width(area_width as int),
                    area_height as int,
                )[i],
    {
        let actual_width = if self.width == 0 {
            area_width
        } else {
            self.width
        };
        self.build_lines(actual_width, area_height)
    }
}

} // verus!

verus! {

/// A squeezing bar lights two arcs, one `anchor` cells in from the left
/// edge and its mirror image `anchor` cells in from the right edge: a cell is
/// lit exactly when it lies in `[anchor, anchor + arc)` or in
/// `[extent − anchor − arc, extent − anchor)`, so the lit cells are
/// symmetric about the middle of the bar.
pub proof fn bar_squeeze_mirrored(extent: int, arc: int, anchor: int, i: int)
    requires
        extent >= 1,
        arc >= 1,
        anchor_in_range(BarMotion::Squeeze, extent, arc, anchor),
        0 <= i < extent,
    ensures
        track_hit(BarMotion::Squeeze, extent, arc, anchor, i).0 <==> ((anchor <= i < anchor + arc)
            || (extent - anchor - arc <= i < extent - anchor)),
        track_hit(BarMotion::Squeeze, extent, arc, anchor, i).0 == track_hit(
            BarMotion::Squeeze,
            extent,
            arc,
            anchor,
            extent - 1 - i,
        ).0,
{
}

} // verus!
