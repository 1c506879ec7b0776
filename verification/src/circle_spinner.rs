//! Circle braille-arc spinner.
//!
//! A comet-like arc rotates around a circular ring of braille dots.  The ring
//! is computed with the midpoint circle algorithm at a 1:1 dot pitch (two dot
//! columns and four dot rows per character cell, which with the usual 1:2 cell
//! aspect ratio draws a round circle) and ordered clockwise from 12 o'clock.
use vstd::prelude::*;
use vstd::multiset::Multiset;

use crate::cell::{blank_grid, braille, braille_char, fits, grid_view, mark_dot, ring_cell, ring_glyph, pack_cell, packed_byte, Alignment, Cell, Color};
use crate::rect_spinner::Spin;

verus! {

/// A dot position `(row, col)` relative to the circle centre.
#[derive(Debug, Clone, Copy, PartialEq, Eq, Structural)]
pub struct Dot {
    pub row: isize,
    pub col: isize,
}

impl Dot {
    /// Creates the dot `(row, col)`.
    pub fn new(row: isize, col: isize) -> (d: Self)
        ensures
            d == (Dot { row, col }),
    {
        Dot { row, col }
    }
}

// ── Clockwise order ──────────────────────────────────────────────────────────

/// Sum of the rows of `s`.
pub open spec fn sum_rows(s: Seq<(isize, isize)>) -> int
    decreases s.len(),
{
    if s.len() == 0 {
        0
    } else {
        sum_rows(s.drop_last()) + s.last().0
    }
}

/// Sum of the columns of `s`.
pub open spec fn sum_cols(s: Seq<(isize, isize)>) -> int
    decreases s.len(),
{
    if s.len() == 0 {
        0
    } else {
        sum_cols(s.drop_last()) + s.last().1
    }
}

/// The direction from the centroid of `n` points with coordinate sums
/// `(sr, sc)` to `p`, scaled by `n` so it is exact: `(up, right)`.
pub open spec fn heading(p: (isize, isize), n: int, sr: int, sc: int) -> (int, int) {
    (sr - n * p.0, n * p.1 - sc)
}

/// Which quarter turn clockwise from 12 o'clock a direction `(up, right)`
/// points into: `0` for `[0°, 90°)`, `1` for `[90°, 180°)`, `2` for
/// `[180°, 270°)`, `3` for `[270°, 360°)`; the zero direction counts as 180°.
pub open spec fn quarter(up: int, right: int) -> int {
    if right >= 0 && up > 0 {
        0
    } else if right > 0 && up <= 0 {
        1
    } else if right <= 0 && up < 0 {
        2
    } else if right < 0 && up >= 0 {
        3
    } else {
        2
    }
}

/// `|v|`.
pub open spec fn abs(v: int) -> int {
    if v < 0 {
        -v
    } else {
        v
    }
}

/// The sort key of a direction: its quarter, the fraction of the quarter
/// turned (`num / den`, which grows strictly with the angle inside the
/// quarter), and its length `|up| + |right|` to order dots on one ray.
pub open spec fn turn_key(up: int, right: int) -> (int, int, int, int) {
    let q = quarter(up, right);
    let len = abs(up) + abs(right);
    let num = if q == 0 {
        abs(right)
    } else if q == 1 {
        abs(up)
    } else if q == 2 {
        abs(right)
    } else {
        abs(up)
    };
    (q, num, if len == 0 { 1 } else { len }, len)
}

/// Strict order on sort keys: by quarter, then by the fraction turned, then
/// by length.
pub open spec fn key_before(a: (int, int, int, int), b: (int, int, int, int)) -> bool {
    a.0 < b.0 || (a.0 == b.0 && (a.1 * b.2 < b.1 * a.2 || (a.1 * b.2 == b.1 * a.2 && a.3 < b.3)))
}

/// Whether `a` comes strictly before `b` clockwise from 12 o'clock around
/// the centroid of `n` points with coordinate sums `(sr, sc)`; dots on one ray
/// are ordered nearest first.
pub open spec fn clockwise_before(a: (isize, isize), b: (isize, isize), n: int, sr: int, sc: int) -> bool {
    let ha = heading(a, n, sr, sc);
    let hb = heading(b, n, sr, sc);
    key_before(turn_key(ha.0, ha.1), turn_key(hb.0, hb.1))
}

/// Whether `s` is in clockwise order around the centroid `(sr, sc) / n`.
pub open spec fn clockwise_sorted(s: Seq<(isize, isize)>, n: int, sr: int, sc: int) -> bool {
    forall|i: int, j: int|
        0 <= i < j < s.len() ==> !clockwise_before(#[trigger] s[j], #[trigger] s[i], n, sr, sc)
}

/// Coordinates and counts the exact arithmetic of the sort handles.
pub open spec fn sortable(s: Seq<(isize, isize)>) -> bool {
    &&& 1 <= s.len() <= 0x1_0000_0000
    &&& forall|i: int|
        0 <= i < s.len() ==> -0x1000_0000 <= #[trigger] s[i].0 <= 0x1000_0000 && -0x1000_0000
            <= s[i].1 <= 0x1000_0000
}

/// `a·d ≤ c·b` and `c·f ≤ e·d` give `a·f ≤ e·b` for positive `b, d, f`, strictly
/// when either premise is strict.
proof fn lemma_ratio_chain(a: int, b: int, c: int, d: int, e: int, f: int)
    requires
        b > 0,
        d > 0,
        f > 0,
        a * d <= c * b,
        c * f <= e * d,
    ensures
        a * f <= e * b,
        (a * d < c * b || c * f < e * d) ==> a * f < e * b,
        (a * d == c * b && c * f == e * d) ==> a * f == e * b,
{
    assert(a * d * f <= c * b * f) by (nonlinear_arith)
        requires
            a * d <= c * b,
            f > 0,
    ;
    assert(c * f * b <= e * d * b) by (nonlinear_arith)
        requires
            c * f <= e * d,
            b > 0,
    ;
    assert(a * f * d <= e * b * d) by (nonlinear_arith)
        requires
            a * d * f <= c * b * f,
            c * f * b <= e * d * b,
    ;
    assert(a * f <= e * b) by (nonlinear_arith)
        requires
            a * f * d <= e * b * d,
            d > 0,
    ;
    if a * d < c * b || c * f < e * d {
        assert(a * d * f < c * b * f || c * f * b < e * d * b) by (nonlinear_arith)
            requires
                a * d < c * b || c * f < e * d,
                f > 0,
                b > 0,
        ;
        assert(a * f * d < e * b * d) by (nonlinear_arith)
            requires
                a * d * f <= c * b * f,
                c * f * b <= e * d * b,
                a * d * f < c * b * f || c * f * b < e * d * b,
        ;
        assert(a * f < e * b) by (nonlinear_arith)
            requires
                a * f * d < e * b * d,
                d > 0,
        ;
    }
    if a * d == c * b && c * f == e * d {
        assert(a * f * d == e * b * d) by (nonlinear_arith)
            requires
                a * d == c * b,
                c * f == e * d,
        ;
        assert(a * f == e * b) by (nonlinear_arith)
            requires
                a * f * d == e * b * d,
                d > 0,
        ;
    }
}

/// The key order is transitive.
pub proof fn lemma_key_before_transitive(
    a: (int, int, int, int),
    b: (int, int, int, int),
    c: (int, int, int, int),
)
    requires
        a.2 > 0,
        b.2 > 0,
        c.2 > 0,
        key_before(a, b),
        key_before(b, c),
    ensures
        key_before(a, c),
{
    if a.0 == b.0 && b.0 == c.0 {
        lemma_ratio_chain(a.1, a.2, b.1, b.2, c.1, c.2);
    }
}

/// The key of a direction, computed exactly.
fn key_of(up: i128, right: i128) -> (k: (i128, i128, i128, i128))
    requires
        -0x2000_0000_0000_0000 <= up <= 0x2000_0000_0000_0000,
        -0x2000_0000_0000_0000 <= right <= 0x2000_0000_0000_0000,
    ensures
        (k.0 as int, k.1 as int, k.2 as int, k.3 as int) == turn_key(up as int, right as int),
{
    let q: i128 = if right >= 0 && up > 0 {
        0
    } else if right > 0 && up <= 0 {
        1
    } else if right <= 0 && up < 0 {
        2
    } else if right < 0 && up >= 0 {
        3
    } else {
        2
    };
    let au: i128 = if up < 0 {
        -up
    } else {
        up
    };
    let ar: i128 = if right < 0 {
        -right
    } else {
        right
    };
    let len = au + ar;
    let num = if q == 0 || q == 2 {
        ar
    } else {
        au
    };
    (q, num, if len == 0 {
        1
    } else {
        len
    }, len)
}

/// Decides [`key_before`] for keys whose parts are at most `2^62`.
fn key_less(a: (i128, i128, i128, i128), b: (i128, i128, i128, i128)) -> (r: bool)
    requires
        0 <= a.1 <= 0x4000_0000_0000_0000 && 0 <= a.2 <= 0x4000_0000_0000_0000,
        0 <= b.1 <= 0x4000_0000_0000_0000 && 0 <= b.2 <= 0x4000_0000_0000_0000,
    ensures
        r == key_before(
            (a.0 as int, a.1 as int, a.2 as int, a.3 as int),
            (b.0 as int, b.1 as int, b.2 as int, b.3 as int),
        ),
{
    proof {
        assert(0 <= a.1 * b.2 <= 0x4000_0000_0000_0000 * 0x4000_0000_0000_0000) by (
        nonlinear_arith)
            requires
                0 <= a.1 <= 0x4000_0000_0000_0000 && 0 <= b.2 <= 0x4000_0000_0000_0000,
        ;
        assert(0 <= b.1 * a.2 <= 0x4000_0000_0000_0000 * 0x4000_0000_0000_0000) by (
        nonlinear_arith)
            requires
                0 <= b.1 <= 0x4000_0000_0000_0000 && 0 <= a.2 <= 0x4000_0000_0000_0000,
        ;
    }
    if a.0 != b.0 {
        return a.0 < b.0;
    }
    let l = a.1 * b.2;
    let r = b.1 * a.2;
    l < r || (l == r && a.3 < b.3)
}


/// The sort key of `p` around the centroid `(sr, sc) / n`.
pub open spec fn key_around(p: (isize, isize), n: int, sr: int, sc: int) -> (int, int, int, int) {
    let h = heading(p, n, sr, sc);
    turn_key(h.0, h.1)
}

/// The `(row, col)` pairs of a sequence of dots.
pub open spec fn dot_pairs(s: Seq<Dot>) -> Seq<(isize, isize)> {
    s.map_values(|d: Dot| (d.row, d.col))
}

/// Sorts dots clockwise starting from 12 o'clock around their centroid.
///
/// The order is the exact clockwise angle from straight up (the direction of
/// decreasing rows); dots on one ray come nearest first.  The result holds
/// the same dots, duplicates included.
pub fn sort_clockwise(dots: Vec<(isize, isize)>) -> (r: Vec<Dot>)
    requires
        dots.len() == 0 || sortable(dots@),
    ensures
        dot_pairs(r@).to_multiset() == dots@.to_multiset(),
        clockwise_sorted(dot_pairs(r@), dots.len() as int, sum_rows(dots@), sum_cols(dots@)),
{
    broadcast use vstd::seq_lib::group_to_multiset_ensures;

    if dots.len() == 0 {
        let r: Vec<Dot> = Vec::new();
        assert(dot_pairs(r@) =~= dots@);
        return r;
    }
    let ghost d = dots@;
    let n = dots.len() as i128;
    let mut sr: i128 = 0;
    let mut sc: i128 = 0;
    let mut i: usize = 0;
    while i < dots.len()
        invariant
            d == dots@,
            sortable(d),
            i <= dots.len(),
            sr == sum_rows(d.subrange(0, i as int)),
            sc == sum_cols(d.subrange(0, i as int)),
            -(i as int) * 0x1000_0000 <= sr <= (i as int) * 0x1000_0000,
            -(i as int) * 0x1000_0000 <= sc <= (i as int) * 0x1000_0000,
        decreases dots.len() - i,
    {
        assert(d.subrange(0, i + 1).drop_last() =~= d.subrange(0, i as int));
        sr = sr + dots[i].0 as i128;
        sc = sc + dots[i].1 as i128;
        i += 1;
    }
    assert(d.subrange(0, d.len() as int) =~= d);
    let ghost nn = n as int;
    let ghost ssr = sr as int;
    let ghost ssc = sc as int;
    let mut out: Vec<(isize, isize)> = Vec::new();
    let mut keys: Vec<(i128, i128, i128, i128)> = Vec::new();
    let mut i: usize = 0;
    while i < dots.len()
        invariant
            d == dots@,
            sortable(d),
            nn == d.len(),
            ssr == sum_rows(d),
            ssc == sum_cols(d),
            n == nn,
            sr == ssr,
            sc == ssc,
            -nn * 0x1000_0000 <= ssr <= nn * 0x1000_0000,
            -nn * 0x1000_0000 <= ssc <= nn * 0x1000_0000,
            i <= dots.len(),
            out.len() == keys.len(),
            out@.to_multiset() == d.subrange(0, i as int).to_multiset(),
            forall|k: int|
                0 <= k < keys.len() ==> (keys@[k].0 as int, keys@[k].1 as int, keys@[k].2 as int, keys@[k].3 as int)
                    == key_around(#[trigger] out@[k], nn, ssr, ssc),
            forall|k: int|
                0 <= k < keys.len() ==> 0 <= #[trigger] keys@[k].1 <= 0x4000_0000_0000_0000 && 1 <= keys@[k].2
                    <= 0x4000_0000_0000_0000,
            forall|a: int, b: int|
                0 <= a < b < keys.len() ==> !key_before(
                    (#[trigger] keys@[b].0 as int, keys@[b].1 as int, keys@[b].2 as int, keys@[b].3 as int),
                    (#[trigger] keys@[a].0 as int, keys@[a].1 as int, keys@[a].2 as int, keys@[a].3 as int),
                ),
        decreases dots.len() - i,
    {
        let p = dots[i];
        assert(-0x1000_0000 <= p.0 <= 0x1000_0000 && -0x1000_0000 <= p.1 <= 0x1000_0000);
        assert(-0x1000_0000_0000_0000 <= nn * p.0 <= 0x1000_0000_0000_0000 && -0x1000_0000_0000_0000
            <= nn * p.1 <= 0x1000_0000_0000_0000) by (nonlinear_arith)
            requires
                1 <= nn <= 0x1_0000_0000,
                -0x1000_0000 <= p.0 <= 0x1000_0000 && -0x1000_0000 <= p.1 <= 0x1000_0000,
        ;
        assert(-0x1000_0000_0000_0000 <= nn * 0x1000_0000 <= 0x1000_0000_0000_0000);
        let up = sr - n * (p.0 as i128);
        let right = n * (p.1 as i128) - sc;
        let kx = key_of(up, right);
        let ghost kxi = (kx.0 as int, kx.1 as int, kx.2 as int, kx.3 as int);
        assert(kxi == key_around(p, nn, ssr, ssc));
        let mut pos: usize = 0;
        while pos < keys.len() && !key_less(kx, keys[pos])
            invariant
                pos <= keys.len(),
                kxi == (kx.0 as int, kx.1 as int, kx.2 as int, kx.3 as int),
                0 <= kx.1 <= 0x4000_0000_0000_0000 && 1 <= kx.2 <= 0x4000_0000_0000_0000,
                forall|k: int|
                    0 <= k < keys.len() ==> 0 <= #[trigger] keys@[k].1 <= 0x4000_0000_0000_0000 && 1
                        <= keys@[k].2 <= 0x4000_0000_0000_0000,
                forall|k: int|
                    0 <= k < pos ==> !key_before(
                        kxi,
                        (#[trigger] keys@[k].0 as int, keys@[k].1 as int, keys@[k].2 as int, keys@[k].3 as int),
                    ),
            decreases keys.len() - pos,
        {
            pos += 1;
        }
        let ghost old_keys = keys@;
        let ghost old_out = out@;
        proof {
            if pos < keys.len() {
                assert(key_before(
                    kxi,
                    (keys@[pos as int].0 as int, keys@[pos as int].1 as int, keys@[pos as int].2 as int, keys@[pos as int].3 as int),
                ));
            }
        }
        out.insert(pos, p);
        keys.insert(pos, kx);
        proof {
            let ki = |k: int| (keys@[k].0 as int, keys@[k].1 as int, keys@[k].2 as int, keys@[k].3 as int);
            assert forall|a: int, b: int| 0 <= a < b < keys.len() implies !key_before(
                (#[trigger] keys@[b].0 as int, keys@[b].1 as int, keys@[b].2 as int, keys@[b].3 as int),
                (#[trigger] keys@[a].0 as int, keys@[a].1 as int, keys@[a].2 as int, keys@[a].3 as int),
            ) by {
                if a < pos && b == pos {
                    assert(keys@[a] == old_keys[a]);
                } else if a < pos && b > pos {
                    assert(keys@[a] == old_keys[a]);
                    assert(keys@[b] == old_keys[b - 1]);
                } else if a == pos {
                    assert(keys@[b] == old_keys[b - 1]);
                    let kp = (old_keys[pos as int].0 as int, old_keys[pos as int].1 as int, old_keys[pos as int].2 as int, old_keys[pos as int].3 as int);
                    let kb = ki(b);
                    if b - 1 > pos {
                        assert(!key_before(kb, kp));
                    }
                    if key_before(kb, kxi) {
                        lemma_key_before_transitive(kb, kxi, kp);
                    }
                } else if a > pos {
                    assert(keys@[a] == old_keys[a - 1]);
                    assert(keys@[b] == old_keys[b - 1]);
                } else {
                    assert(keys@[a] == old_keys[a]);
                    assert(keys@[b] == old_keys[b]);
                }
            }
            assert forall|k: int| 0 <= k < keys.len() implies (keys@[k].0 as int, keys@[k].1 as int, keys@[k].2 as int, keys@[k].3 as int)
                == key_around(#[trigger] out@[k], nn, ssr, ssc) by {
                if k < pos {
                    assert(keys@[k] == old_keys[k] && out@[k] == old_out[k]);
                } else if k > pos {
                    assert(keys@[k] == old_keys[k - 1] && out@[k] == old_out[k - 1]);
                }
            }
            assert forall|k: int| 0 <= k < keys.len() implies 0 <= #[trigger] keys@[k].1
                <= 0x4000_0000_0000_0000 && 1 <= keys@[k].2 <= 0x4000_0000_0000_0000 by {
                if k < pos {
                    assert(keys@[k] == old_keys[k]);
                } else if k > pos {
                    assert(keys@[k] == old_keys[k - 1]);
                }
            }
            assert(d.subrange(0, i + 1) =~= d.subrange(0, i as int).push(p));
            assert(out@ == old_out.insert(pos as int, p));
            vstd::seq_lib::to_multiset_insert(old_out, pos as int, p);
            vstd::seq_lib::to_multiset_build(d.subrange(0, i as int), p);
        }
        i += 1;
    }
    assert(d.subrange(0, d.len() as int) =~= d);
    let mut r: Vec<Dot> = Vec::new();
    let mut k: usize = 0;
    while k < out.len()
        invariant
            k <= out.len(),
            r@.len() == k,
            forall|j: int| 0 <= j < k ==> #[trigger] r@[j] == (Dot { row: out@[j].0, col: out@[j].1 }),
        decreases out.len() - k,
    {
        r.push(Dot::new(out[k].0, out[k].1));
        k += 1;
    }
    assert(dot_pairs(r@) =~= out@);
    proof {
        assert forall|a: int, b: int| 0 <= a < b < out@.len() implies !clockwise_before(
            #[trigger] out@[b],
            #[trigger] out@[a],
            nn,
            ssr,
            ssc,
        ) by {
            assert(!key_before(
                (keys@[b].0 as int, keys@[b].1 as int, keys@[b].2 as int, keys@[b].3 as int),
                (keys@[a].0 as int, keys@[a].1 as int, keys@[a].2 as int, keys@[a].3 as int),
            ));
        }
    }
    r
}


/// `sum_rows` is a left fold.
proof fn lemma_sum_rows_fold(s: Seq<(isize, isize)>)
    ensures
        sum_rows(s) == s.fold_left(0int, |acc: int, p: (isize, isize)| acc + p.0),
    decreases s.len(),
{
    if s.len() > 0 {
        lemma_sum_rows_fold(s.drop_last());
    }
}

/// `sum_cols` is a left fold.
proof fn lemma_sum_cols_fold(s: Seq<(isize, isize)>)
    ensures
        sum_cols(s) == s.fold_left(0int, |acc: int, p: (isize, isize)| acc + p.1),
    decreases s.len(),
{
    if s.len() > 0 {
        lemma_sum_cols_fold(s.drop_last());
    }
}

/// Reordering dots keeps their count and coordinate sums.
pub proof fn lemma_sums_permutation(a: Seq<(isize, isize)>, b: Seq<(isize, isize)>)
    requires
        a.to_multiset() == b.to_multiset(),
    ensures
        a.len() == b.len(),
        sum_rows(a) == sum_rows(b),
        sum_cols(a) == sum_cols(b),
{
    broadcast use vstd::seq_lib::group_to_multiset_ensures;

    let fr = |acc: int, p: (isize, isize)| acc + p.0;
    let fc = |acc: int, p: (isize, isize)| acc + p.1;
    assert(vstd::seq_lib::commutative_foldl(fr));
    assert(vstd::seq_lib::commutative_foldl(fc));
    vstd::seq_lib::to_multiset_len(a);
    vstd::seq_lib::to_multiset_len(b);
    lemma_sum_rows_fold(a);
    lemma_sum_rows_fold(b);
    lemma_sum_cols_fold(a);
    lemma_sum_cols_fold(b);
    vstd::seq_lib::lemma_fold_left_permutation(a, b, fr, 0int);
    vstd::seq_lib::lemma_fold_left_permutation(a, b, fc, 0int);
}

// ── Perimeter ────────────────────────────────────────────────────────────────

/// `(x, y, d)` of the midpoint circle algorithm for radius `r` after `k`
/// steps: start at `(0, r)` with `d = 1 − r`; each step moves `x` one right,
/// and also moves `y` one down when `d ≥ 0`.
pub open spec fn midpoint(r: int, k: nat) -> (int, int, int)
    decreases k,
{
    if k == 0 {
        (0, r, 1 - r)
    } else {
        let (x, y, d) = midpoint(r, (k - 1) as nat);
        if d < 0 {
            (x + 1, y, d + 2 * x + 3)
        } else {
            (x + 1, y - 1, d + 2 * (x - y) + 5)
        }
    }
}

/// The eight reflections of the octant point `(x, y)` as `(row, col)` dots.
pub open spec fn reflections(x: int, y: int) -> Seq<(int, int)> {
    seq![(-y, x), (-x, y), (x, y), (y, x), (y, -x), (x, -y), (-x, -y), (-y, -x)]
}

/// Whether `(row, col)` is a dot of the circle of radius `r`: a reflection of
/// a point that the midpoint algorithm visits while `x ≤ y`.
pub open spec fn on_circle(r: int, row: int, col: int) -> bool {
    exists|k: nat|
        midpoint(r, k).0 <= midpoint(r, k).1 && #[trigger] reflections(
            midpoint(r, k).0,
            midpoint(r, k).1,
        ).contains((row, col))
}

/// Largest radius whose dot grid, `(2r + 1)²` dots, fits in memory.
pub open spec fn radius_fits(r: int) -> bool {
    (2 * r + 1) * (2 * r + 1) <= usize::MAX / 64 && r <= 0x1000_0000
}

/// The algorithm's invariants: `x` counts the steps, `d` tracks
/// `(x+1)² + (y−½)² − r² − ¼`, and `x − y` never decreases.
proof fn lemma_midpoint(r: int, k: nat)
    requires
        r >= 1,
    ensures
        midpoint(r, k).0 == k,
        4 * midpoint(r, k).2 == 4 * (midpoint(r, k).0 + 1) * (midpoint(r, k).0 + 1) + (2
            * midpoint(r, k).1 - 1) * (2 * midpoint(r, k).1 - 1) - 4 * r * r - 1,
        midpoint(r, k).1 <= r,
        forall|j: nat| j <= k ==> midpoint(r, j).0 - midpoint(r, j).1 <= #[trigger] midpoint(
            r,
            k,
        ).0 - midpoint(r, k).1,
    decreases k,
{
    if k == 0 {
        assert(4 * (1 - r) == 4 * (0 + 1) * (0 + 1) + (2 * r - 1) * (2 * r - 1) - 4 * r * r - 1) by (
        nonlinear_arith);
    } else {
        lemma_midpoint(r, (k - 1) as nat);
        let (x, y, d) = midpoint(r, (k - 1) as nat);
        if d < 0 {
            assert(4 * (d + 2 * x + 3) == 4 * (x + 2) * (x + 2) + (2 * y - 1) * (2 * y - 1) - 4 * r
                * r - 1) by (nonlinear_arith)
                requires
                    4 * d == 4 * (x + 1) * (x + 1) + (2 * y - 1) * (2 * y - 1) - 4 * r * r - 1,
            ;
        } else {
            assert(4 * (d + 2 * (x - y) + 5) == 4 * (x + 2) * (x + 2) + (2 * (y - 1) - 1) * (2 * (y
                - 1) - 1) - 4 * r * r - 1) by (nonlinear_arith)
                requires
                    4 * d == 4 * (x + 1) * (x + 1) + (2 * y - 1) * (2 * y - 1) - 4 * r * r - 1,
            ;
        }
    }
}

/// Adds `p` to `points` unless it is already there.
fn add_point(points: &mut Vec<(isize, isize)>, p: (isize, isize))
    ensures
        final(points)@.no_duplicates() <== old(points)@.no_duplicates(),
        forall|q: (isize, isize)| #[trigger] final(points)@.contains(q) <==> (old(points)@.contains(q)
            || q == p),
        final(points)@.len() <= old(points)@.len() + 1,
{
    let mut i: usize = 0;
    while i < points.len()
        invariant
            i <= points.len(),
            forall|k: int| 0 <= k < i ==> #[trigger] points@[k] != p,
        decreases points.len() - i,
    {
        if points[i].0 == p.0 && points[i].1 == p.1 {
            return;
        }
        i += 1;
    }
    points.push(p);
    proof {
        assert forall|q: (isize, isize)| #[trigger] points@.contains(q) <==> (old(points)@.contains(q)
            || q == p) by {
            if q == p {
                assert(points@[points@.len() - 1] == p);
            }
            if points@.contains(q) && q != p {
                let k = choose|k: int| 0 <= k < points@.len() && points@[k] == q;
                assert(old(points)@[k] == q);
            }
            if old(points)@.contains(q) {
                let k = choose|k: int| 0 <= k < old(points)@.len() && old(points)@[k] == q;
                assert(points@[k] == q);
            }
        }
    }
}


/// Whether `(row, col)` is a reflection of a point visited in the first `k`
/// steps while `x ≤ y`.
pub open spec fn visited(r: int, k: nat, row: int, col: int) -> bool {
    exists|j: nat|
        j < k && midpoint(r, j).0 <= midpoint(r, j).1 && #[trigger] reflections(
            midpoint(r, j).0,
            midpoint(r, j).1,
        ).contains((row, col))
}

/// Adds the eight reflections of `(x, y)`.
fn add_reflections(points: &mut Vec<(isize, isize)>, x: isize, y: isize)
    requires
        -0x1000_0000 <= x <= 0x1000_0000,
        -0x1000_0000 <= y <= 0x1000_0000,
    ensures
        final(points)@.no_duplicates() <== old(points)@.no_duplicates(),
        forall|q: (isize, isize)| #[trigger] final(points)@.contains(q) <==> (old(points)@.contains(q)
            || reflections(x as int, y as int).contains((q.0 as int, q.1 as int))),
        final(points)@.len() <= old(points)@.len() + 8,
{
    add_point(points, (-y, x));
    add_point(points, (-x, y));
    add_point(points, (x, y));
    add_point(points, (y, x));
    add_point(points, (y, -x));
    add_point(points, (x, -y));
    add_point(points, (-x, -y));
    add_point(points, (-y, -x));
    proof {
        let rf = reflections(x as int, y as int);
        assert forall|q: (isize, isize)| #[trigger] points@.contains(q) <==> (old(points)@.contains(q)
            || rf.contains((q.0 as int, q.1 as int))) by {
            let qi = (q.0 as int, q.1 as int);
            if rf.contains(qi) {
                let k = choose|k: int| 0 <= k < rf.len() && rf[k] == qi;
                assert(0 <= k < 8);
            }
            let xi = x as int;
            let yi = y as int;
            if qi == (-yi, xi) {
                assert(rf[0] == qi);
            } else if qi == (-xi, yi) {
                assert(rf[1] == qi);
            } else if qi == (xi, yi) {
                assert(rf[2] == qi);
            } else if qi == (yi, xi) {
                assert(rf[3] == qi);
            } else if qi == (yi, -xi) {
                assert(rf[4] == qi);
            } else if qi == (xi, -yi) {
                assert(rf[5] == qi);
            } else if qi == (-xi, -yi) {
                assert(rf[6] == qi);
            } else if qi == (-yi, -xi) {
                assert(rf[7] == qi);
            }
        }
    }
}

/// The dots of the circle of radius `r` at 1:1 dot pitch, in clockwise order
/// from 12 o'clock around their centroid, each dot once; radius `0` gives the
/// single dot `(0, 0)`.
pub fn circle_perimeter(r: usize) -> (p: Vec<Dot>)
    requires
        radius_fits(r as int),
    ensures
        r == 0 ==> p@ == seq![Dot { row: 0, col: 0 }],
        r > 0 ==> dot_pairs(p@).no_duplicates(),
        r > 0 ==> forall|row: isize, col: isize|
            #[trigger] dot_pairs(p@).contains((row, col)) <==> on_circle(r as int, row as int, col as int),
        r > 0 ==> clockwise_sorted(
            dot_pairs(p@),
            p@.len() as int,
            sum_rows(dot_pairs(p@)),
            sum_cols(dot_pairs(p@)),
        ),
{
    broadcast use vstd::seq_lib::group_to_multiset_ensures;

    if r == 0 {
        let mut p: Vec<Dot> = Vec::new();
        p.push(Dot::new(0, 0));
        assert(p@ =~= seq![Dot { row: 0, col: 0 }]);
        return p;
    }
    let ghost rr = r as int;
    let ri = r as i64;
    let mut points: Vec<(isize, isize)> = Vec::new();
    let mut x: i64 = 0;
    let mut y: i64 = ri;
    let mut d: i64 = 1 - ri;
    let ghost mut k: nat = 0;
    proof {
        lemma_midpoint(rr, 0);
    }
    while x <= y
        invariant
            1 <= rr <= 0x1000_0000,
            ri == rr,
            (x as int, y as int, d as int) == midpoint(rr, k),
            x == k,
            y <= rr,
            x <= rr + 1,
            k == 0 ==> y == rr,
            4 * d == 4 * (x + 1) * (x + 1) + (2 * y - 1) * (2 * y - 1) - 4 * rr * rr - 1,
            points@.no_duplicates(),
            points@.len() <= 8 * k,
            forall|q: (isize, isize)| #[trigger] points@.contains(q) <==> visited(
                rr,
                k,
                q.0 as int,
                q.1 as int,
            ),
        decreases rr + 1 - x,
    {
        proof {
            let xi = x as int;
            let yi = y as int;
            assert(0 <= (xi + 1) * (xi + 1) <= 0x1000_0001 * 0x1000_0001) by (nonlinear_arith)
                requires
                    0 <= xi <= 0x1000_0000,
            ;
            assert(0 <= (2 * yi - 1) * (2 * yi - 1) <= 0x2000_0000 * 0x2000_0000) by (nonlinear_arith)
                requires
                    0 <= yi <= 0x1000_0000,
            ;
            assert(0 <= rr * rr <= 0x1000_0000 * 0x1000_0000) by (nonlinear_arith)
                requires
                    0 <= rr <= 0x1000_0000,
            ;
            assert(4 * (xi + 1) * (xi + 1) == 4 * ((xi + 1) * (xi + 1)) && 4 * rr * rr == 4 * (rr
                * rr)) by (nonlinear_arith);
            assert(-0x1000_0000_0000_0000 <= d <= 0x1000_0000_0000_0000);
        }
        let ghost before = points@;
        add_reflections(&mut points, x as isize, y as isize);
        proof {
            assert forall|q: (isize, isize)| #[trigger] points@.contains(q) <==> visited(
                rr,
                k + 1,
                q.0 as int,
                q.1 as int,
            ) by {
                let qi = (q.0 as int, q.1 as int);
                if visited(rr, k + 1, qi.0, qi.1) {
                    let j = choose|j: nat|
                        j < k + 1 && midpoint(rr, j).0 <= midpoint(rr, j).1 && #[trigger] reflections(
                            midpoint(rr, j).0,
                            midpoint(rr, j).1,
                        ).contains(qi);
                    if j < k {
                        assert(visited(rr, k, qi.0, qi.1));
                    }
                }
                if reflections(x as int, y as int).contains(qi) {
                    assert(reflections(midpoint(rr, k).0, midpoint(rr, k).1).contains(qi));
                }
            }
        }
        if d < 0 {
            d = d + 2 * x + 3;
        } else {
            d = d + 2 * (x - y) + 5;
            y = y - 1;
        }
        x = x + 1;
        proof {
            k = k + 1;
            lemma_midpoint(rr, k);
        }
    }
    proof {
        assert forall|row: int, col: int| visited(rr, k, row, col) <==> on_circle(rr, row, col) by {
            if on_circle(rr, row, col) {
                let j = choose|j: nat|
                    midpoint(rr, j).0 <= midpoint(rr, j).1 && #[trigger] reflections(
                        midpoint(rr, j).0,
                        midpoint(rr, j).1,
                    ).contains((row, col));
                if j >= k {
                    lemma_midpoint(rr, j);
                }
            }
        }
        assert forall|i: int| 0 <= i < points@.len() implies -0x1000_0000 <= #[trigger] points@[i].0
            <= 0x1000_0000 && -0x1000_0000 <= points@[i].1 <= 0x1000_0000 by {
            let q = points@[i];
            assert(points@.contains(q));
            let j = choose|j: nat|
                j < k && midpoint(rr, j).0 <= midpoint(rr, j).1 && #[trigger] reflections(
                    midpoint(rr, j).0,
                    midpoint(rr, j).1,
                ).contains((q.0 as int, q.1 as int));
            lemma_midpoint(rr, j);
        }
        assert(visited(rr, k, -rr, 0)) by {
            lemma_midpoint(rr, 0);
            assert(reflections(0, rr)[0] == (-rr, 0int));
            assert(reflections(midpoint(rr, 0).0, midpoint(rr, 0).1).contains((-rr, 0int)));
        }
        assert(points@.contains(((-rr) as isize, 0isize)));
        assert(points@.len() >= 1);
        assert(8 * k <= 8 * (rr + 1));
    }
    let p = sort_clockwise(points);
    proof {
        let pts = dot_pairs(p@);
        assert(pts.len() == p@.len());
        lemma_sums_permutation(pts, points@);
        points@.lemma_multiset_has_no_duplicates();
        assert forall|q: (isize, isize)| pts.to_multiset().count(q) <= 1 by {
        }
        pts.lemma_multiset_has_no_duplicates_conv();
        assert forall|row: isize, col: isize| #[trigger] pts.contains((row, col)) <==> on_circle(
            rr,
            row as int,
            col as int,
        ) by {
            assert(pts.to_multiset().count((row, col)) == points@.to_multiset().count((row, col)));
        }
    }
    p
}


/// Every dot of the circle of radius `r` lies within `r` of the centre on
/// both axes, and the four axis dots `(±r, 0)`, `(0, ±r)` are on it: its
/// bounding box is exactly `(2r + 1) × (2r + 1)`.
pub proof fn lemma_circle_extent(r: int, row: int, col: int)
    requires
        r >= 1,
    ensures
        on_circle(r, row, col) ==> -r <= row <= r && -r <= col <= r,
        on_circle(r, -r, 0),
        on_circle(r, r, 0),
        on_circle(r, 0, -r),
        on_circle(r, 0, r),
{
    if on_circle(r, row, col) {
        let k = choose|k: nat|
            midpoint(r, k).0 <= midpoint(r, k).1 && #[trigger] reflections(
                midpoint(r, k).0,
                midpoint(r, k).1,
            ).contains((row, col));
        lemma_midpoint(r, k);
        let rf = reflections(midpoint(r, k).0, midpoint(r, k).1);
        let i = choose|i: int| 0 <= i < rf.len() && rf[i] == (row, col);
        assert(0 <= i < 8);
    }
    lemma_midpoint(r, 0);
    let rf0 = reflections(midpoint(r, 0).0, midpoint(r, 0).1);
    assert(rf0[0] == (-r, 0int));
    assert(rf0[3] == (r, 0int));
    assert(rf0[5] == (0int, -r));
    assert(rf0[1] == (0int, r));
    assert(rf0.contains((-r, 0int)));
    assert(rf0.contains((r, 0int)));
    assert(rf0.contains((0int, -r)));
    assert(rf0.contains((0int, r)));
}

/// Whether `p` is the perimeter [`circle_perimeter`] produces for radius
/// `r`.
pub open spec fn is_perimeter(r: int, p: Seq<Dot>) -> bool {
    if r == 0 {
        p == seq![Dot { row: 0, col: 0 }]
    } else {
        &&& dot_pairs(p).no_duplicates()
        &&& forall|row: isize, col: isize|
            #[trigger] dot_pairs(p).contains((row, col)) <==> on_circle(r, row as int, col as int)
        &&& clockwise_sorted(
            dot_pairs(p),
            p.len() as int,
            sum_rows(dot_pairs(p)),
            sum_cols(dot_pairs(p)),
        )
    }
}

/// The perimeter of the circle of radius `r`.
pub open spec fn perimeter_of(r: int) -> Seq<Dot> {
    choose|p: Seq<Dot>| is_perimeter(r, p)
}

/// Distinct directions have distinct keys.
proof fn lemma_turn_key_injective(u1: int, r1: int, u2: int, r2: int)
    requires
        turn_key(u1, r1) == turn_key(u2, r2),
    ensures
        u1 == u2 && r1 == r2,
{
}

/// Two distinct keys are ordered one way or the other.
proof fn lemma_key_total(a: (int, int, int, int), b: (int, int, int, int))
    requires
        a.2 > 0,
        b.2 > 0,
        a.2 == (if a.3 == 0 { 1 } else { a.3 }),
        b.2 == (if b.3 == 0 { 1 } else { b.3 }),
        a != b,
    ensures
        key_before(a, b) || key_before(b, a),
{
    if a.0 == b.0 && a.1 * b.2 == b.1 * a.2 && a.3 == b.3 {
        assert(a.2 == b.2);
        assert(a.1 == b.1) by (nonlinear_arith)
            requires
                a.1 * b.2 == b.1 * a.2,
                a.2 == b.2,
                a.2 > 0,
        ;
    }
}

/// The key of a turn has a positive denominator equal to its length (or 1).
proof fn lemma_turn_key_shape(u: int, r: int)
    ensures
        turn_key(u, r).2 > 0,
        turn_key(u, r).2 == (if turn_key(u, r).3 == 0 { 1 } else { turn_key(u, r).3 }),
{
}

/// Two orderings of one set of distinct dots that are both clockwise sorted
/// around the same centroid are equal.
proof fn lemma_sorted_unique(a: Seq<(isize, isize)>, b: Seq<(isize, isize)>, n: int, sr: int, sc: int)
    requires
        n > 0,
        a.no_duplicates(),
        b.no_duplicates(),
        forall|q: (isize, isize)| a.contains(q) <==> b.contains(q),
        clockwise_sorted(a, n, sr, sc),
        clockwise_sorted(b, n, sr, sc),
    ensures
        a == b,
    decreases a.len(),
{
    if a.len() == 0 {
        if b.len() > 0 {
            assert(b.contains(b[0]));
        }
        assert(a =~= b);
    } else {
        assert(a.contains(a[0]));
        assert(b.len() > 0);
        assert(b.contains(b[0]));
        if a[0] != b[0] {
            let ia = choose|i: int| 0 <= i < a.len() && a[i] == b[0];
            let ib = choose|i: int| 0 <= i < b.len() && b[i] == a[0];
            assert(ia > 0 && ib > 0);
            assert(!clockwise_before(a[ia], a[0], n, sr, sc));
            assert(!clockwise_before(b[ib], b[0], n, sr, sc));
            let ha = heading(a[0], n, sr, sc);
            let hb = heading(b[0], n, sr, sc);
            assert(ha != hb) by (nonlinear_arith)
                requires
                    n > 0,
                    a[0] != b[0],
                    ha == heading(a[0], n, sr, sc),
                    hb == heading(b[0], n, sr, sc),
            ;
            if turn_key(ha.0, ha.1) == turn_key(hb.0, hb.1) {
                lemma_turn_key_injective(ha.0, ha.1, hb.0, hb.1);
            }
            lemma_turn_key_shape(ha.0, ha.1);
            lemma_turn_key_shape(hb.0, hb.1);
            lemma_key_total(turn_key(ha.0, ha.1), turn_key(hb.0, hb.1));
        }
        let a1 = a.drop_first();
        let b1 = b.drop_first();
        assert forall|q: (isize, isize)| a1.contains(q) <==> b1.contains(q) by {
            if a1.contains(q) {
                let i = choose|i: int| 0 <= i < a1.len() && a1[i] == q;
                assert(a[i + 1] == q);
                assert(q != a[0]);
                assert(b.contains(q));
                let j = choose|j: int| 0 <= j < b.len() && b[j] == q;
                assert(j != 0);
                assert(b1[j - 1] == q);
            }
            if b1.contains(q) {
                let i = choose|i: int| 0 <= i < b1.len() && b1[i] == q;
                assert(b[i + 1] == q);
                assert(q != b[0]);
                assert(a.contains(q));
                let j = choose|j: int| 0 <= j < a.len() && a[j] == q;
                assert(j != 0);
                assert(a1[j - 1] == q);
            }
        }
        assert forall|i: int, j: int| 0 <= i < j < a1.len() implies !clockwise_before(
            #[trigger] a1[j],
            #[trigger] a1[i],
            n,
            sr,
            sc,
        ) by {
            assert(a1[j] == a[j + 1] && a1[i] == a[i + 1]);
        }
        assert forall|i: int, j: int| 0 <= i < j < b1.len() implies !clockwise_before(
            #[trigger] b1[j],
            #[trigger] b1[i],
            n,
            sr,
            sc,
        ) by {
            assert(b1[j] == b[j + 1] && b1[i] == b[i + 1]);
        }
        lemma_sorted_unique(a1, b1, n, sr, sc);
        assert(a =~= b) by {
            assert forall|i: int| 0 <= i < a.len() implies a[i] == b[i] by {
                if i > 0 {
                    assert(a[i] == a1[i - 1] && b[i] == b1[i - 1]);
                }
            }
        }
    }
}


/// Two duplicate-free sequences with the same elements have the same
/// multiset.
proof fn lemma_same_set_multiset(a: Seq<(isize, isize)>, b: Seq<(isize, isize)>)
    requires
        a.no_duplicates(),
        b.no_duplicates(),
        forall|q: (isize, isize)| a.contains(q) <==> b.contains(q),
    ensures
        a.to_multiset() == b.to_multiset(),
{
    broadcast use vstd::seq_lib::group_to_multiset_ensures;

    a.lemma_multiset_has_no_duplicates();
    b.lemma_multiset_has_no_duplicates();
    assert forall|q: (isize, isize)| a.to_multiset().count(q) == b.to_multiset().count(q) by {
        if a.contains(q) {
            assert(a.to_multiset().contains(q));
            assert(b.to_multiset().contains(q));
        }
    }
    assert(a.to_multiset() =~= b.to_multiset());
}

/// The perimeter of a radius is unique: [`perimeter_of`] is the one
/// [`circle_perimeter`] produces.
pub proof fn lemma_perimeter_unique(r: int, p1: Seq<Dot>, p2: Seq<Dot>)
    requires
        0 <= r <= 0x1000_0000,
        is_perimeter(r, p1),
        is_perimeter(r, p2),
    ensures
        p1 == p2,
{
    if r > 0 {
        let a = dot_pairs(p1);
        let b = dot_pairs(p2);
        assert forall|q: (isize, isize)| a.contains(q) <==> b.contains(q) by {
            assert(a.contains((q.0, q.1)) <==> b.contains((q.0, q.1)));
        }
        lemma_same_set_multiset(a, b);
        lemma_sums_permutation(a, b);
        if a.len() == 0 {
            lemma_circle_extent(r, 0, 0);
            let row = (-r) as isize;
            assert(row as int == -r);
            assert(on_circle(r, row as int, 0));
            assert(a.contains((row, 0isize)));
        }
        lemma_sorted_unique(a, b, a.len() as int, sum_rows(a), sum_cols(a));
        assert(p1 =~= p2) by {
            assert forall|i: int| 0 <= i < p1.len() implies p1[i] == p2[i] by {
                assert(a[i] == b[i]);
            }
        }
    }
}


// ── Arc engine ───────────────────────────────────────────────────────────────

/// Whether dot `d` is stored at grid cell `(r, c)` under the offsets.
pub open spec fn at_cell(d: Dot, ro: int, co: int, r: int, c: int) -> bool {
    d.row + ro == r && d.col + co == c
}

/// `g` with dot `(r, c)` set to `v` when it lies inside the grid.
pub open spec fn with_dot(g: Seq<Seq<bool>>, r: int, c: int, v: bool) -> Seq<Seq<bool>> {
    if 0 <= r < g.len() && 0 <= c < g[r].len() {
        g.update(r, g[r].update(c, v))
    } else {
        g
    }
}

/// Index of the perimeter dot `k` steps after `t` going the way `spin`
/// turns, on a perimeter of `n` dots.
pub open spec fn turned(t: int, k: int, n: int, spin: Spin) -> int {
    if spin == Spin::CounterClockwise {
        (t - k) % n
    } else {
        (t + k) % n
    }
}

/// Whether dot `d` is in the arc: one of the `arc_len` perimeter dots from
/// index `tail` on.
pub open spec fn in_arc(p: Seq<Dot>, tail: int, arc_len: int, d: Dot) -> bool {
    exists|i: int| 0 <= i < arc_len && #[trigger] p[(tail + i) % (p.len() as int)] == d
}

/// Whether grid cell `(r, c)` holds one of the `count` perimeter dots from
/// index `tail` on.
pub open spec fn arc_at(p: Seq<Dot>, ro: int, co: int, tail: int, count: int, r: int, c: int) -> bool {
    exists|i: int| 0 <= i < count && at_cell(#[trigger] p[(tail + i) % (p.len() as int)], ro, co, r, c)
}

/// A `rows × cols` dot grid with the `count` perimeter dots from index `tail`
/// on set.
pub open spec fn arc_grid(
    p: Seq<Dot>,
    ro: int,
    co: int,
    rows: int,
    cols: int,
    tail: int,
    count: int,
) -> Seq<Seq<bool>> {
    Seq::new(rows as nat, |r: int| Seq::new(cols as nat, |c: int| arc_at(p, ro, co, tail, count, r, c)))
}

/// Whether grid cell `(r, c)` holds one of the first `upto` perimeter dots
/// that is not in the arc.
pub open spec fn off_arc_at(
    p: Seq<Dot>,
    ro: int,
    co: int,
    tail: int,
    arc_len: int,
    upto: int,
    r: int,
    c: int,
) -> bool {
    exists|k: int| 0 <= k < upto && at_cell(#[trigger] p[k], ro, co, r, c) && !in_arc(p, tail, arc_len, p[k])
}

/// A `rows × cols` dot grid with the first `upto` perimeter dots outside the
/// arc set.
pub open spec fn off_arc_grid(
    p: Seq<Dot>,
    ro: int,
    co: int,
    rows: int,
    cols: int,
    tail: int,
    arc_len: int,
    upto: int,
) -> Seq<Seq<bool>> {
    Seq::new(
        rows as nat,
        |r: int| Seq::new(cols as nat, |c: int| off_arc_at(p, ro, co, tail, arc_len, upto, r, c)),
    )
}

/// The lit dots of a frame: grid cells holding an arc dot.
pub open spec fn bright_dots(
    p: Seq<Dot>,
    ro: int,
    co: int,
    rows: int,
    cols: int,
    tail: int,
    arc_len: int,
) -> Seq<Seq<bool>> {
    arc_grid(p, ro, co, rows, cols, tail, arc_len)
}

/// The dim dots of a frame: grid cells holding a perimeter dot outside the
/// arc.
pub open spec fn dim_dots(
    p: Seq<Dot>,
    ro: int,
    co: int,
    rows: int,
    cols: int,
    tail: int,
    arc_len: int,
) -> Seq<Seq<bool>> {
    off_arc_grid(p, ro, co, rows, cols, tail, arc_len, p.len() as int)
}

/// Setting the cell of the next arc dot extends an arc grid by one dot.
proof fn lemma_arc_grid_step(p: Seq<Dot>, ro: int, co: int, rows: int, cols: int, tail: int, count: int)
    requires
        p.len() > 0,
        0 <= count,
        0 <= p[(tail + count) % (p.len() as int)].row + ro < rows,
        0 <= p[(tail + count) % (p.len() as int)].col + co < cols,
    ensures
        ({
            let g = arc_grid(p, ro, co, rows, cols, tail, count);
            let d = p[(tail + count) % (p.len() as int)];
            arc_grid(p, ro, co, rows, cols, tail, count + 1) == g.update(
                d.row + ro,
                g[d.row + ro].update(d.col + co, true),
            )
        }),
{
    let g = arc_grid(p, ro, co, rows, cols, tail, count);
    let d = p[(tail + count) % (p.len() as int)];
    let h = g.update(d.row + ro, g[d.row + ro].update(d.col + co, true));
    let g1 = arc_grid(p, ro, co, rows, cols, tail, count + 1);
    assert forall|r: int| 0 <= r < rows implies #[trigger] g1[r] =~= h[r] by {
        assert forall|c: int| 0 <= c < cols implies g1[r][c] == h[r][c] by {
            if r == d.row + ro && c == d.col + co {
                assert(at_cell(p[(tail + count) % (p.len() as int)], ro, co, r, c));
            } else if arc_at(p, ro, co, tail, count + 1, r, c) {
                let i = choose|i: int|
                    0 <= i < count + 1 && at_cell(
                        #[trigger] p[(tail + i) % (p.len() as int)],
                        ro,
                        co,
                        r,
                        c,
                    );
                assert(i != count);
                assert(arc_at(p, ro, co, tail, count, r, c));
            }
        }
    }
    assert(g1 =~= h);
}

/// Adding the next perimeter dot to an off-arc grid sets its cell when the
/// dot is outside the arc and changes nothing otherwise.
proof fn lemma_off_arc_grid_step(
    p: Seq<Dot>,
    ro: int,
    co: int,
    rows: int,
    cols: int,
    tail: int,
    arc_len: int,
    upto: int,
)
    requires
        0 <= upto < p.len(),
        0 <= p[upto].row + ro < rows,
        0 <= p[upto].col + co < cols,
    ensures
        ({
            let g = off_arc_grid(p, ro, co, rows, cols, tail, arc_len, upto);
            let d = p[upto];
            off_arc_grid(p, ro, co, rows, cols, tail, arc_len, upto + 1) == if in_arc(
                p,
                tail,
                arc_len,
                d,
            ) {
                g
            } else {
                g.update(d.row + ro, g[d.row + ro].update(d.col + co, true))
            }
        }),
{
    let g = off_arc_grid(p, ro, co, rows, cols, tail, arc_len, upto);
    let d = p[upto];
    let h = if in_arc(p, tail, arc_len, d) {
        g
    } else {
        g.update(d.row + ro, g[d.row + ro].update(d.col + co, true))
    };
    let g1 = off_arc_grid(p, ro, co, rows, cols, tail, arc_len, upto + 1);
    assert forall|r: int| 0 <= r < rows implies #[trigger] g1[r] =~= h[r] by {
        assert forall|c: int| 0 <= c < cols implies g1[r][c] == h[r][c] by {
            if !in_arc(p, tail, arc_len, d) && r == d.row + ro && c == d.col + co {
                assert(at_cell(p[upto], ro, co, r, c));
            } else if off_arc_at(p, ro, co, tail, arc_len, upto + 1, r, c) {
                let k = choose|k: int|
                    0 <= k < upto + 1 && at_cell(#[trigger] p[k], ro, co, r, c) && !in_arc(
                        p,
                        tail,
                        arc_len,
                        p[k],
                    );
                assert(k != upto);
                assert(off_arc_at(p, ro, co, tail, arc_len, upto, r, c));
            }
        }
    }
    assert(g1 =~= h);
}

/// A grid cell holding dot `d` is lit exactly when `d` is in the arc.
proof fn lemma_arc_at_dot(p: Seq<Dot>, ro: int, co: int, tail: int, arc_len: int, d: Dot)
    ensures
        arc_at(p, ro, co, tail, arc_len, d.row + ro, d.col + co) == in_arc(p, tail, arc_len, d),
{
    if arc_at(p, ro, co, tail, arc_len, d.row + ro, d.col + co) {
        let i = choose|i: int|
            0 <= i < arc_len && at_cell(
                #[trigger] p[(tail + i) % (p.len() as int)],
                ro,
                co,
                d.row + ro,
                d.col + co,
            );
        assert(p[(tail + i) % (p.len() as int)] == d);
    }
    if in_arc(p, tail, arc_len, d) {
        let i = choose|i: int| 0 <= i < arc_len && #[trigger] p[(tail + i) % (p.len() as int)] == d;
        assert(at_cell(p[(tail + i) % (p.len() as int)], ro, co, d.row + ro, d.col + co));
    }
}

/// The rendered frame of a ring of perimeter dots `p` in a `rows × cols` dot
/// grid, arc from index `tail`.
pub open spec fn circle_frame(
    p: Seq<Dot>,
    ro: int,
    co: int,
    rows: int,
    cols: int,
    tail: int,
    arc_len: int,
    arc_color: Color,
    dim_color: Color,
) -> Seq<Seq<Cell>> {
    let b = bright_dots(p, ro, co, rows, cols, tail, arc_len);
    let d = dim_dots(p, ro, co, rows, cols, tail, arc_len);
    Seq::new(
        ((rows + 3) / 4) as nat,
        |i: int|
            Seq::new(
                ((cols + 1) / 2) as nat,
                |j: int| ring_cell(packed_byte(b, i, j), packed_byte(d, i, j), arc_color, dim_color),
            ),
    )
}

/// Arc length: an explicit length clamped to the perimeter, or a quarter of
/// the perimeter (at least one dot) when `requested` is zero.
pub open spec fn arc_length(requested: int, n: int) -> int {
    if requested > 0 {
        if requested < n {
            requested
        } else {
            n
        }
    } else if n / 4 > 1 {
        n / 4
    } else {
        1
    }
}

/// Start index of the tail: the arc initially trails index 0 when turning
/// clockwise and leads it when turning counter-clockwise.
pub open spec fn start_tail(arc_len: int, n: int, spin: Spin) -> int {
    if spin == Spin::CounterClockwise {
        arc_len % n
    } else {
        (n - arc_len) % n
    }
}

/// The index before `i` on a ring of `n` indices.
fn back_one(i: usize, n: usize) -> (r: usize)
    requires
        i < n,
    ensures
        r == (i - 1) % (n as int),
        r < n,
{
    proof {
        if i == 0 {
            vstd::arithmetic::div_mod::lemma_mod_add_multiples_vanish(-1, n as int);
            vstd::arithmetic::div_mod::lemma_small_mod((n - 1) as nat, n as nat);
        } else {
            vstd::arithmetic::div_mod::lemma_small_mod((i - 1) as nat, n as nat);
        }
    }
    if i == 0 {
        n - 1
    } else {
        i - 1
    }
}

/// The index after `i` on a ring of `n` indices.
fn ahead_one(i: usize, n: usize) -> (r: usize)
    requires
        i < n,
    ensures
        r == (i + 1) % (n as int),
        r < n,
{
    proof {
        if i + 1 == n {
            vstd::arithmetic::div_mod::lemma_mod_self_0(n as int);
        } else {
            vstd::arithmetic::div_mod::lemma_small_mod((i + 1) as nat, n as nat);
        }
    }
    if i + 1 == n {
        0
    } else {
        i + 1
    }
}

/// The dots of a radius-`r` perimeter lie in the square `[-r, r]²`, and
/// each of its four sides is touched by some dot.
proof fn lemma_perimeter_box(r: int, p: Seq<Dot>)
    requires
        0 <= r <= 0x1000_0000,
        is_perimeter(r, p),
    ensures
        p.len() >= 1,
        forall|k: int|
            0 <= k < p.len() ==> -r <= #[trigger] p[k].row <= r && -r <= p[k].col <= r,
        exists|k: int| 0 <= k < p.len() && #[trigger] p[k].row == -r,
        exists|k: int| 0 <= k < p.len() && #[trigger] p[k].row == r,
        exists|k: int| 0 <= k < p.len() && #[trigger] p[k].col == -r,
        exists|k: int| 0 <= k < p.len() && #[trigger] p[k].col == r,
{
    if r == 0 {
        assert(p[0].row == 0 && p[0].col == 0);
    } else {
        let q = dot_pairs(p);
        assert forall|k: int| 0 <= k < p.len() implies -r <= #[trigger] p[k].row <= r && -r
            <= p[k].col <= r by {
            assert(q[k] == (p[k].row, p[k].col));
            assert(q.contains((p[k].row, p[k].col)));
            lemma_circle_extent(r, p[k].row as int, p[k].col as int);
        }
        lemma_circle_extent(r, 0, 0);
        let top = ((-r) as isize, 0isize);
        let bottom = (r as isize, 0isize);
        let left = (0isize, (-r) as isize);
        let right = (0isize, r as isize);
        assert(q.contains(top));
        assert(q.contains(bottom));
        assert(q.contains(left));
        assert(q.contains(right));
        let k1 = choose|k: int| 0 <= k < q.len() && q[k] == top;
        assert(p[k1].row == -r);
        let k2 = choose|k: int| 0 <= k < q.len() && q[k] == bottom;
        assert(p[k2].row == r);
        let k3 = choose|k: int| 0 <= k < q.len() && q[k] == left;
        assert(p[k3].col == -r);
        let k4 = choose|k: int| 0 <= k < q.len() && q[k] == right;
        assert(p[k4].col == r);
    }
}

/// The index `k` places after `t` on a ring of `n` indices.
fn ring_index(t: usize, k: usize, n: usize) -> (r: usize)
    requires
        t < n,
        k < n,
    ensures
        r == (t + k) % (n as int),
{
    proof {
        if k < n - t {
            vstd::arithmetic::div_mod::lemma_small_mod((t + k) as nat, n as nat);
        } else {
            vstd::arithmetic::div_mod::lemma_mod_add_multiples_vanish(t + k - n, n as int);
            vstd::arithmetic::div_mod::lemma_small_mod((t + k - n) as nat, n as nat);
        }
    }
    if k < n - t {
        t + k
    } else {
        k - (n - t)
    }
}

/// Animation state of a circle spinner.
pub struct CircleEngine {
    /// Dot grid of the arc lit by the head and cleared by the tail.
    pub cells: Vec<Vec<bool>>,
    pub dot_rows: usize,
    pub dot_cols: usize,
    /// Offsets from perimeter coordinates to grid indices.
    pub row_offset: isize,
    pub col_offset: isize,
    /// The clockwise perimeter.
    pub perimeter: Vec<Dot>,
    /// Index of the arc front.
    pub head: usize,
    /// Index of the arc back.
    pub tail: usize,
    /// Number of perimeter dots in the arc.
    pub arc_len: usize,
}

impl CircleEngine {
    /// Shape constraints every engine keeps: every perimeter dot lies in the
    /// grid, and head, tail and arc length index the perimeter.
    pub open spec fn wf(self) -> bool {
        let n = self.perimeter.len();
        &&& 1 <= n
        &&& 1 <= self.dot_rows && fits(self.dot_rows as int)
        &&& 1 <= self.dot_cols && fits(self.dot_cols as int)
        &&& self.cells.len() == self.dot_rows
        &&& forall|r: int| 0 <= r < self.dot_rows ==> #[trigger] self.cells@[r].len() == self.dot_cols
        &&& -0x1000_0000 <= self.row_offset <= 0x1000_0000
        &&& -0x1000_0000 <= self.col_offset <= 0x1000_0000
        &&& forall|k: int|
            0 <= k < n ==> -0x1000_0000 <= #[trigger] self.perimeter@[k].row <= 0x1000_0000 && -0x1000_0000
                <= self.perimeter@[k].col <= 0x1000_0000 && 0 <= self.perimeter@[k].row
                + self.row_offset < self.dot_rows && 0 <= self.perimeter@[k].col + self.col_offset
                < self.dot_cols
        &&& self.head < n
        &&& self.tail < n
        &&& 1 <= self.arc_len <= n
    }

    /// The dot grid.
    pub open spec fn dots(self) -> Seq<Seq<bool>> {
        grid_view(self.cells@)
    }

    /// Sets the grid dot under `dot` when it lies inside the grid.
    pub fn set_dot(&mut self, dot: Dot, value: bool)
        requires
            old(self).wf(),
            -0x1000_0000 <= dot.row <= 0x1000_0000,
            -0x1000_0000 <= dot.col <= 0x1000_0000,
        ensures
            final(self).wf(),
            final(self).dots() == with_dot(
                old(self).dots(),
                dot.row + old(self).row_offset,
                dot.col + old(self).col_offset,
                value,
            ),
            final(self).perimeter == old(self).perimeter,
            final(self).head == old(self).head,
            final(self).tail == old(self).tail,
            final(self).arc_len == old(self).arc_len,
            final(self).row_offset == old(self).row_offset,
            final(self).col_offset == old(self).col_offset,
            final(self).dot_rows == old(self).dot_rows,
            final(self).dot_cols == old(self).dot_cols,
    {
        let r = dot.row + self.row_offset;
        let c = dot.col + self.col_offset;
        let ghost before = self.dots();
        if 0 <= r && (r as usize) < self.dot_rows && 0 <= c && (c as usize) < self.dot_cols {
            let ru = r as usize;
            let cu = c as usize;
            assert(self.cells@[ru as int].len() == self.dot_cols);
            self.cells[ru].set(cu, value);
            proof {
                assert forall|k: int| 0 <= k < self.dot_rows implies #[trigger] self.cells@[k].len()
                    == self.dot_cols by {
                    if k != ru {
                        assert(self.cells@[k] == old(self).cells@[k]);
                    }
                }
                assert(self.dots() =~= with_dot(before, r as int, c as int, value)) by {
                    assert forall|k: int| 0 <= k < self.dot_rows implies #[trigger] self.dots()[k]
                        == with_dot(before, r as int, c as int, value)[k] by {
                        if k != ru {
                            assert(self.cells@[k] == old(self).cells@[k]);
                        }
                    }
                }
            }
        } else {
            proof {
                assert(before.len() == self.dot_rows as int);
                if 0 <= r < self.dot_rows {
                    assert(before[r as int] == self.cells@[r as int]@);
                    assert(self.cells@[r as int].len() == self.dot_cols);
                    assert(before[r as int].len() == self.dot_cols as int);
                }
                assert(with_dot(before, r as int, c as int, value) == before);
            }
        }
    }

    /// Builds the engine for a circle of `radius`: the clockwise perimeter, a
    /// dot grid just covering it, the arc length (`arc_len_override` clamped
    /// to the perimeter, or a quarter of the perimeter when zero), the head at
    /// 12 o'clock and the tail one arc length away against the way `spin`
    /// turns; the first `arc_len` perimeter dots are lit in the grid.
    pub fn build(radius: usize, arc_len_override: usize, spin: Spin) -> (e: Self)
        requires
            radius_fits(radius as int),
        ensures
            e.wf(),
            e.perimeter@ == perimeter_of(radius as int),
            e.row_offset == radius as int,
            e.col_offset == radius as int,
            e.dot_rows == 2 * radius + 1,
            e.dot_cols == 2 * radius + 1,
            e.arc_len == arc_length(arc_len_override as int, e.perimeter.len() as int),
            0 < arc_len_override < e.perimeter.len() ==> e.arc_len == arc_len_override,
            arc_len_override >= e.perimeter.len() ==> e.arc_len == e.perimeter.len(),
            e.head == 0,
            e.tail == start_tail(e.arc_len as int, e.perimeter.len() as int, spin),
            e.dots() == arc_grid(
                e.perimeter@,
                radius as int,
                radius as int,
                2 * radius + 1,
                2 * radius + 1,
                0,
                e.arc_len as int,
            ),
    {
        let perimeter = circle_perimeter(radius);
        let ghost p = perimeter@;
        let ghost ri = radius as int;
        proof {
            assert(is_perimeter(ri, p));
            lemma_perimeter_unique(ri, p, perimeter_of(ri));
            lemma_perimeter_box(ri, p);
        }
        let n = perimeter.len();
        let mut min_row = perimeter[0].row;
        let mut max_row = perimeter[0].row;
        let mut min_col = perimeter[0].col;
        let mut max_col = perimeter[0].col;
        let mut k: usize = 1;
        while k < n
            invariant
                1 <= k <= n,
                n == p.len(),
                perimeter@ == p,
                forall|j: int|
                    0 <= j < p.len() ==> -ri <= #[trigger] p[j].row <= ri && -ri <= p[j].col <= ri,
                -ri <= min_row <= ri,
                -ri <= max_row <= ri,
                -ri <= min_col <= ri,
                -ri <= max_col <= ri,
                forall|j: int|
                    #![trigger p[j]]
                    0 <= j < k ==> min_row <= p[j].row <= max_row && min_col <= p[j].col <= max_col,
            decreases n - k,
        {
            let d = perimeter[k];
            if d.row < min_row {
                min_row = d.row;
            }
            if d.row > max_row {
                max_row = d.row;
            }
            if d.col < min_col {
                min_col = d.col;
            }
            if d.col > max_col {
                max_col = d.col;
            }
            k += 1;
        }
        proof {
            let k1 = choose|j: int| 0 <= j < p.len() && #[trigger] p[j].row == -ri;
            let k2 = choose|j: int| 0 <= j < p.len() && #[trigger] p[j].row == ri;
            let k3 = choose|j: int| 0 <= j < p.len() && #[trigger] p[j].col == -ri;
            let k4 = choose|j: int| 0 <= j < p.len() && #[trigger] p[j].col == ri;
            assert(min_row <= p[k1].row);
            assert(max_row >= p[k2].row);
            assert(min_col <= p[k3].col);
            assert(max_col >= p[k4].col);
        }
        let row_offset = -min_row;
        let col_offset = -min_col;
        let dot_rows = (max_row - min_row + 1) as usize;
        let dot_cols = (max_col - min_col + 1) as usize;
        let cells = blank_grid(dot_rows, dot_cols);
        let arc_len = if arc_len_override > 0 {
            if arc_len_override < n {
                arc_len_override
            } else {
                n
            }
        } else if n / 4 > 1 {
            n / 4
        } else {
            1
        };
        let tail = if spin == Spin::CounterClockwise {
            arc_len % n
        } else {
            (n - arc_len) % n
        };
        let mut engine = CircleEngine {
            cells,
            dot_rows,
            dot_cols,
            row_offset,
            col_offset,
            perimeter,
            head: 0,
            tail,
            arc_len,
        };
        let ghost rows = dot_rows as int;
        proof {
            assert(dot_rows == 2 * radius + 1);
            let w = 2 * ri + 1;
            assert(w <= w * w) by (nonlinear_arith)
                requires
                    w >= 1,
            ;
            assert(fits(dot_rows as int));
            assert(forall|r: int|
                0 <= r < dot_rows ==> #[trigger] engine.cells@[r].len() == engine.dot_cols);
            assert(1 <= engine.arc_len <= n);
            assert(engine.tail < n);
            assert(engine.dots() =~= arc_grid(p, ri, ri, rows, rows, 0, 0)) by {
                assert forall|r: int| 0 <= r < rows implies #[trigger] engine.dots()[r] =~= arc_grid(
                    p,
                    ri,
                    ri,
                    rows,
                    rows,
                    0,
                    0,
                )[r] by {
                    assert(engine.cells@[r]@ == Seq::new(dot_cols as nat, |c: int| false));
                }
            }
        }
        let mut i: usize = 0;
        while i < arc_len
            invariant
                engine.wf(),
                i <= engine.arc_len,
                arc_len == engine.arc_len,
                engine.perimeter@ == p,
                n == p.len(),
                engine.row_offset == ri,
                engine.col_offset == ri,
                engine.dot_rows == rows,
                engine.dot_cols == rows,
                engine.head == 0,
                engine.tail == tail,
                engine.dots() == arc_grid(p, ri, ri, rows, rows, 0, i as int),
            decreases arc_len - i,
        {
            let dot = engine.perimeter[i];
            proof {
                vstd::arithmetic::div_mod::lemma_small_mod(i as nat, n as nat);
                assert(p[(0 + i) % (p.len() as int)] == dot);
                lemma_arc_grid_step(p, ri, ri, rows, rows, 0, i as int);
            }
            engine.set_dot(dot, true);
            i += 1;
        }
        engine
    }

    /// The rendered frame: the arc of `arc_len` dots from the tail in
    /// `arc_color`, the rest of the ring in `dim_color`.
    pub open spec fn frame(self, arc_color: Color, dim_color: Color) -> Seq<Seq<Cell>> {
        circle_frame(
            self.perimeter@,
            self.row_offset as int,
            self.col_offset as int,
            self.dot_rows as int,
            self.dot_cols as int,
            self.tail as int,
            self.arc_len as int,
            arc_color,
            dim_color,
        )
    }

    /// Renders the ring as rows of braille cells: a cell with any arc dot
    /// shows its arc dots in `arc_color`, else its other ring dots in
    /// `dim_color`.
    pub fn render_lines(&self, arc_color: Color, dim_color: Color) -> (lines: Vec<Vec<Cell>>)
        requires
            self.wf(),
        ensures
            lines.len() == self.frame(arc_color, dim_color).len(),
            forall|i: int|
                0 <= i < lines.len() ==> #[trigger] lines[i]@ == self.frame(arc_color, dim_color)[i],
    {
        let n = self.perimeter.len();
        let ghost p = self.perimeter@;
        let ghost ro = self.row_offset as int;
        let ghost co = self.col_offset as int;
        let ghost rows = self.dot_rows as int;
        let ghost cols = self.dot_cols as int;
        let ghost tail = self.tail as int;
        let ghost arc = self.arc_len as int;
        let mut bright = blank_grid(self.dot_rows, self.dot_cols);
        proof {
            assert forall|r: int| 0 <= r < rows implies #[trigger] grid_view(bright@)[r] =~= arc_grid(
                p,
                ro,
                co,
                rows,
                cols,
                tail,
                0,
            )[r] by {
                assert(bright@[r]@ == Seq::new(cols as nat, |c: int| false));
            }
            assert(grid_view(bright@) =~= arc_grid(p, ro, co, rows, cols, tail, 0));
        }
        let mut i: usize = 0;
        while i < self.arc_len
            invariant
                self.wf(),
                p == self.perimeter@,
                ro == self.row_offset,
                co == self.col_offset,
                rows == self.dot_rows,
                cols == self.dot_cols,
                tail == self.tail,
                arc == self.arc_len,
                i <= self.arc_len,
                n == p.len(),
                bright.len() == rows,
                forall|r: int| 0 <= r < rows ==> #[trigger] bright@[r].len() == cols,
                grid_view(bright@) == arc_grid(p, ro, co, rows, cols, tail, i as int),
            decreases self.arc_len - i,
        {
            let idx = ring_index(self.tail, i, n);
            let d = self.perimeter[idx];
            let r = (d.row + self.row_offset) as usize;
            let c = (d.col + self.col_offset) as usize;
            proof {
                lemma_arc_grid_step(p, ro, co, rows, cols, tail, i as int);
            }
            mark_dot(&mut bright, r, c);
            i += 1;
        }
        let mut dim = blank_grid(self.dot_rows, self.dot_cols);
        proof {
            assert forall|r: int| 0 <= r < rows implies #[trigger] grid_view(dim@)[r] =~= off_arc_grid(
                p,
                ro,
                co,
                rows,
                cols,
                tail,
                arc,
                0,
            )[r] by {
                assert(dim@[r]@ == Seq::new(cols as nat, |c: int| false));
            }
            assert(grid_view(dim@) =~= off_arc_grid(p, ro, co, rows, cols, tail, arc, 0));
        }
        let mut k: usize = 0;
        while k < n
            invariant
                self.wf(),
                p == self.perimeter@,
                ro == self.row_offset,
                co == self.col_offset,
                rows == self.dot_rows,
                cols == self.dot_cols,
                tail == self.tail,
                arc == self.arc_len,
                k <= n,
                n == p.len(),
                bright.len() == rows,
                forall|r: int| 0 <= r < rows ==> #[trigger] bright@[r].len() == cols,
                grid_view(bright@) == arc_grid(p, ro, co, rows, cols, tail, arc),
                dim.len() == rows,
                forall|r: int| 0 <= r < rows ==> #[trigger] dim@[r].len() == cols,
                grid_view(dim@) == off_arc_grid(p, ro, co, rows, cols, tail, arc, k as int),
            decreases n - k,
        {
            let d = self.perimeter[k];
            let r = (d.row + self.row_offset) as usize;
            let c = (d.col + self.col_offset) as usize;
            proof {
                lemma_arc_at_dot(p, ro, co, tail, arc, d);
                lemma_off_arc_grid_step(p, ro, co, rows, cols, tail, arc, k as int);
                assert(bright@[r as int]@[c as int] == grid_view(bright@)[r as int][c as int]);
            }
            if !bright[r][c] {
                mark_dot(&mut dim, r, c);
            }
            k += 1;
        }
        let char_rows = (self.dot_rows + 3) / 4;
        let char_cols = (self.dot_cols + 1) / 2;
        let ghost frame = self.frame(arc_color, dim_color);
        let mut lines: Vec<Vec<Cell>> = Vec::new();
        let mut ci: usize = 0;
        while ci < char_rows
            invariant
                self.wf(),
                p == self.perimeter@,
                ro == self.row_offset,
                co == self.col_offset,
                rows == self.dot_rows,
                cols == self.dot_cols,
                tail == self.tail,
                arc == self.arc_len,
                ci <= char_rows,
                char_rows == (rows + 3) / 4,
                char_cols == (cols + 1) / 2,
                char_rows == frame.len(),
                frame == self.frame(arc_color, dim_color),
                grid_view(bright@) == bright_dots(p, ro, co, rows, cols, tail, arc),
                grid_view(dim@) == dim_dots(p, ro, co, rows, cols, tail, arc),
                lines.len() == ci,
                forall|a: int| 0 <= a < ci ==> #[trigger] lines[a]@ == frame[a],
            decreases char_rows - ci,
        {
            let mut row: Vec<Cell> = Vec::new();
            let mut cj: usize = 0;
            while cj < char_cols
                invariant
                    self.wf(),
                    p == self.perimeter@,
                    ro == self.row_offset,
                    co == self.col_offset,
                    rows == self.dot_rows,
                    cols == self.dot_cols,
                    tail == self.tail,
                    arc == self.arc_len,
                    char_rows == (rows + 3) / 4,
                    char_cols == (cols + 1) / 2,
                    ci < char_rows,
                    cj <= char_cols,
                    char_cols == frame[ci as int].len(),
                    frame == self.frame(arc_color, dim_color),
                    grid_view(bright@) == bright_dots(p, ro, co, rows, cols, tail, arc),
                    grid_view(dim@) == dim_dots(p, ro, co, rows, cols, tail, arc),
                    row.len() == cj,
                    forall|b: int| 0 <= b < cj ==> #[trigger] row[b] == frame[ci as int][b],
                decreases char_cols - cj,
            {
                let b = pack_cell(&bright, ci, cj);
                let d = pack_cell(&dim, ci, cj);
                row.push(ring_glyph(b, d, arc_color, dim_color));
                cj += 1;
            }
            proof {
                assert(row@ =~= frame[ci as int]);
            }
            lines.push(row);
            ci += 1;
        }
        lines
    }

    /// Advances one step: the head lights the next dot, the tail clears its
    /// dot and moves on, both going the way `spin` turns.
    pub fn walk(&mut self, spin: Spin)
        requires
            old(self).wf(),
        ensures
            final(self).wf(),
            final(self).head == turned(old(self).head as int, 1, old(self).perimeter.len() as int, spin),
            final(self).tail == turned(old(self).tail as int, 1, old(self).perimeter.len() as int, spin),
            final(self).dots() == with_dot(
                with_dot(
                    old(self).dots(),
                    old(self).perimeter@[final(self).head as int].row + old(self).row_offset,
                    old(self).perimeter@[final(self).head as int].col + old(self).col_offset,
                    true,
                ),
                old(self).perimeter@[old(self).tail as int].row + old(self).row_offset,
                old(self).perimeter@[old(self).tail as int].col + old(self).col_offset,
                false,
            ),
            (final(self).head - final(self).tail) % (old(self).perimeter.len() as int) == (old(
                self,
            ).head - old(self).tail) % (old(self).perimeter.len() as int),
            final(self).perimeter == old(self).perimeter,
            final(self).arc_len == old(self).arc_len,
            final(self).row_offset == old(self).row_offset,
            final(self).col_offset == old(self).col_offset,
            final(self).dot_rows == old(self).dot_rows,
            final(self).dot_cols == old(self).dot_cols,
    {
        let n = self.perimeter.len();
        let ghost n_i = n as int;
        proof {
            let h = self.head as int;
            let t = self.tail as int;
            vstd::arithmetic::div_mod::lemma_sub_mod_noop(h + 1, t + 1, n_i);
            vstd::arithmetic::div_mod::lemma_sub_mod_noop(h - 1, t - 1, n_i);
            assert((h + 1) - (t + 1) == h - t);
            assert((h - 1) - (t - 1) == h - t);
        }
        if spin == Spin::CounterClockwise {
            self.head = back_one(self.head, n);
            let new_head = self.perimeter[self.head];
            self.set_dot(new_head, true);
            let old_tail = self.perimeter[self.tail];
            self.set_dot(old_tail, false);
            self.tail = back_one(self.tail, n);
        } else {
            self.head = ahead_one(self.head, n);
            let new_head = self.perimeter[self.head];
            self.set_dot(new_head, true);
            let old_tail = self.perimeter[self.tail];
            self.set_dot(old_tail, false);
            self.tail = ahead_one(self.tail, n);
        }
    }
}

} // verus!

verus! {

/// Taking one more step after `k` steps is taking `k + 1` steps.
pub proof fn lemma_turned_step(t: int, k: int, n: int, spin: Spin)
    requires
        n > 0,
    ensures
        turned(turned(t, k, n, spin), 1, n, spin) == turned(t, k + 1, n, spin),
{
    if spin == Spin::CounterClockwise {
        vstd::arithmetic::div_mod::lemma_add_mod_noop_right(-1, t - k, n);
        assert(-1 + (t - k) == t - (k + 1));
    } else {
        vstd::arithmetic::div_mod::lemma_add_mod_noop_right(1, t + k, n);
        assert(1 + (t + k) == t + (k + 1));
    }
}

/// A full revolution of `n` steps around a ring of `n` dots comes back to
/// the same index.
pub proof fn lemma_turned_revolution(t: int, k: int, n: int, spin: Spin)
    requires
        n > 0,
    ensures
        turned(t, k + n, n, spin) == turned(t, k, n, spin),
{
    if spin == Spin::CounterClockwise {
        vstd::arithmetic::div_mod::lemma_mod_multiples_vanish(-1, t - k, n);
        assert(n * -1 + (t - k) == t - (k + n));
    } else {
        vstd::arithmetic::div_mod::lemma_mod_multiples_vanish(1, t + k, n);
        assert(n * 1 + (t + k) == t + (k + n));
    }
}

/// A spinner whose arc rotates around a circular braille-dot ring.
///
/// The rendered size is `⌈(2r + 1) / 2⌉` columns by `⌈(2r + 1) / 4⌉` rows for
/// radius `r`; there is no centre fill.
#[derive(Debug, Clone, Copy, PartialEq, Eq, Structural)]
pub struct CircleSpinner {
    pub tick: u64,
    /// Circle radius in braille dots.
    pub radius: usize,
    /// Arc length in perimeter dots; `0` means a quarter of the perimeter.
    pub arc_len: usize,
    pub ticks_per_step: u64,
    pub spin: Spin,
    /// Colour of the rotating arc.
    pub arc_color: Color,
    /// Colour of the rest of the ring.
    pub dim_color: Color,
    pub alignment: Alignment,
}

impl CircleSpinner {
    /// The builders keep `ticks_per_step` at least 1.
    pub open spec fn wf(self) -> bool {
        self.ticks_per_step >= 1
    }

    /// Number of animation steps taken at this tick.
    pub open spec fn steps(self) -> nat {
        (self.tick / self.ticks_per_step) as nat
    }

    /// The perimeter this spinner draws.
    pub open spec fn ring(self) -> Seq<Dot> {
        perimeter_of(self.radius as int)
    }

    /// The arc length in use.
    pub open spec fn arc(self) -> int {
        arc_length(self.arc_len as int, self.ring().len() as int)
    }

    /// The frame shown after `k` steps: the arc runs from the tail, which
    /// starts one arc length behind 12 o'clock and moves one dot per step.
    pub open spec fn frame_after(self, k: int) -> Seq<Seq<Cell>> {
        let r = self.radius as int;
        let n = self.ring().len() as int;
        circle_frame(
            self.ring(),
            r,
            r,
            2 * r + 1,
            2 * r + 1,
            turned(start_tail(self.arc(), n, self.spin), k, n, self.spin),
            self.arc(),
            self.arc_color,
            self.dim_color,
        )
    }

    /// The frame shown at this tick.
    pub open spec fn frame(self) -> Seq<Seq<Cell>> {
        self.frame_after(self.steps() as int)
    }

    /// A spinner at `tick` with radius 4, clockwise spin, a white arc on a
    /// dark-gray ring, one tick per step and an automatic arc length.
    pub fn new(tick: u64) -> (s: Self)
        ensures
            s == (CircleSpinner {
                tick,
                radius: 4,
                arc_len: 0,
                ticks_per_step: 1,
                spin: Spin::Clockwise,
                arc_color: Color::White,
                dim_color: Color::DarkGray,
                alignment: Alignment::Left,
            }),
    {
        CircleSpinner {
            tick,
            radius: 4,
            arc_len: 0,
            ticks_per_step: 1,
            spin: Spin::Clockwise,
            arc_color: Color::White,
            dim_color: Color::DarkGray,
            alignment: Alignment::Left,
        }
    }

    /// Sets the radius in braille dots (at least 1).
    pub fn radius(self, r: usize) -> (s: Self)
        ensures
            s == (CircleSpinner { radius: if r > 1 { r } else { 1 }, ..self }),
    {
        CircleSpinner { radius: if r > 1 { r } else { 1 }, ..self }
    }

    /// Sets the arc length in perimeter dots (`0` for a quarter of the
    /// perimeter).
    pub fn arc_len(self, len: usize) -> (s: Self)
        ensures
            s == (CircleSpinner { arc_len: len, ..self }),
    {
        CircleSpinner { arc_len: len, ..self }
    }

    /// Sets the spin direction.
    pub fn spin(self, spin: Spin) -> (s: Self)
        ensures
            s == (CircleSpinner { spin, ..self }),
    {
        CircleSpinner { spin, ..self }
    }

    /// Sets how many ticks each step is held (at least 1).
    pub fn ticks_per_step(self, n: u64) -> (s: Self)
        ensures
            s == (CircleSpinner { ticks_per_step: if n > 1 { n } else { 1 }, ..self }),
    {
        CircleSpinner { ticks_per_step: if n > 1 { n } else { 1 }, ..self }
    }

    /// Sets the colour of the rotating arc.
    pub fn arc_color(self, color: Color) -> (s: Self)
        ensures
            s == (CircleSpinner { arc_color: color, ..self }),
    {
        CircleSpinner { arc_color: color, ..self }
    }

    /// Sets the colour of the rest of the ring.
    pub fn dim_color(self, color: Color) -> (s: Self)
        ensures
            s == (CircleSpinner { dim_color: color, ..self }),
    {
        CircleSpinner { dim_color: color, ..self }
    }

    /// Sets the horizontal alignment of the frame.
    pub fn alignment(self, alignment: Alignment) -> (s: Self)
        ensures
            s == (CircleSpinner { alignment, ..self }),
    {
        CircleSpinner { alignment, ..self }
    }

    /// The rendered size `(cols, rows)`: `⌈(2r + 1) / 2⌉` by `⌈(2r + 1) / 4⌉`.
    pub fn char_size(&self) -> (size: (u16, u16))
        requires
            2 * self.radius + 1 <= usize::MAX,
        ensures
            size.0 == ((2 * self.radius + 2) / 2) as u16,
            size.1 == ((2 * self.radius + 4) / 4) as u16,
    {
        let dot_dim = self.radius * 2 + 1;
        let cols = dot_dim / 2 + if dot_dim % 2 == 0 {
            0
        } else {
            1
        };
        let rows = dot_dim / 4 + if dot_dim % 4 == 0 {
            0
        } else {
            1
        };
        proof {
            assert(cols == (2 * self.radius + 2) / 2);
            assert(rows == (2 * self.radius + 4) / 4);
        }
        let c: u16 = #[verifier::truncate] (cols as u16);
        let r: u16 = #[verifier::truncate] (rows as u16);
        (c, r)
    }

    /// Renders the current frame as rows of cells.
    pub fn build_lines(&self) -> (lines: Vec<Vec<Cell>>)
        requires
            self.wf(),
            radius_fits(self.radius as int),
        ensures
            lines.len() == self.frame().len(),
            forall|i: int| 0 <= i < lines.len() ==> #[trigger] lines[i]@ == self.frame()[i],
    {
        let mut engine = CircleEngine::build(self.radius, self.arc_len, self.spin);
        let ghost n = engine.perimeter.len() as int;
        let ghost t0 = engine.tail as int;
        let steps = self.tick / self.ticks_per_step;
        proof {
            vstd::arithmetic::div_mod::lemma_small_mod(t0 as nat, n as nat);
        }
        let mut i: u64 = 0;
        while i < steps
            invariant
                i <= steps,
                engine.wf(),
                engine.perimeter@ == self.ring(),
                n == self.ring().len(),
                engine.row_offset == self.radius,
                engine.col_offset == self.radius,
                engine.dot_rows == 2 * self.radius + 1,
                engine.dot_cols == 2 * self.radius + 1,
                engine.arc_len == self.arc(),
                t0 == start_tail(self.arc(), n, self.spin),
                engine.tail == turned(t0, i as int, n, self.spin),
            decreases steps - i,
        {
            proof {
                lemma_turned_step(t0, i as int, n, self.spin);
            }
            engine.walk(self.spin);
            i += 1;
        }
        engine.render_lines(self.arc_color, self.dim_color)
    }

    /// The current frame, for embedding the spinner in other widgets.
    pub fn to_lines(&self) -> (lines: Vec<Vec<Cell>>)
        requires
            self.wf(),
            radius_fits(self.radius as int),
        ensures
            lines.len() == self.frame().len(),
            forall|i: int| 0 <= i < lines.len() ==> #[trigger] lines[i]@ == self.frame()[i],
    {
        self.build_lines()
    }
}

/// After a full revolution, one step per perimeter dot, the circle spinner
/// shows the same frame again.
pub proof fn circle_revolution(s: CircleSpinner, k: int)
    ensures
        s.frame_after(k + s.ring().len()) == s.frame_after(k),
{
    let n = s.ring().len() as int;
    if n > 0 {
        lemma_turned_revolution(start_tail(s.arc(), n, s.spin), k, n, s.spin);
    }
}

} // verus!

verus! {

/// The arc of a circle spinner is as long as asked when the length is
/// shorter than the ring, covers the whole ring when it is as long or
/// longer, and is a quarter of the ring (at least one dot) when it is zero;
/// it always has between one dot and the whole ring.
pub proof fn circle_arc_length_law(s: CircleSpinner)
    requires
        s.ring().len() >= 1,
    ensures
        0 < s.arc_len < s.ring().len() ==> s.arc() == s.arc_len,
        s.arc_len >= s.ring().len() ==> s.arc() == s.ring().len(),
        s.arc_len == 0 ==> s.arc() == vstd::math::max(s.ring().len() as int / 4, 1),
        1 <= s.arc() <= s.ring().len(),
{
}

} // verus!
