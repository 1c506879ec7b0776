use tui_spinner::circle_spinner::{circle_perimeter, sort_clockwise, CircleEngine, Dot};
use tui_spinner::{CircleSpinner, Color, Spin};

fn angle(d: &Dot, cr: f64, cc: f64) -> f64 {
    let dr = -(d.row as f64 - cr);
    let dc = d.col as f64 - cc;
    let raw = dc.atan2(dr);
    if raw < 0.0 {
        raw + 2.0 * std::f64::consts::PI
    } else {
        raw
    }
}

#[test]
fn circle_perimeter_has_points() {
    for r in 1..=8usize {
        let p = circle_perimeter(r);
        assert!(!p.is_empty(), "radius {r} should produce perimeter points");
    }
}

#[test]
fn circle_perimeter_zero_returns_single_dot() {
    let p = circle_perimeter(0);
    assert_eq!(p.len(), 1);
    assert_eq!(p[0], Dot::new(0, 0));
}

#[test]
fn circle_perimeter_larger_radius_more_points() {
    assert!(circle_perimeter(6).len() > circle_perimeter(2).len());
}

#[test]
fn circle_perimeter_is_square_bounding_box() {
    for r in 1..=6usize {
        let p = circle_perimeter(r);
        let min_row = p.iter().map(|d| d.row).min().unwrap();
        let max_row = p.iter().map(|d| d.row).max().unwrap();
        let min_col = p.iter().map(|d| d.col).min().unwrap();
        let max_col = p.iter().map(|d| d.col).max().unwrap();
        let height = (max_row - min_row + 1) as usize;
        let width = (max_col - min_col + 1) as usize;
        let diff = height.abs_diff(width);
        assert!(diff <= 2, "r={r}: bounding box {width}×{height} is not square");
    }
}

#[test]
fn circle_perimeter_sorted_clockwise() {
    let p = circle_perimeter(4);
    let cr = p.iter().map(|d| d.row as f64).sum::<f64>() / p.len() as f64;
    let cc = p.iter().map(|d| d.col as f64).sum::<f64>() / p.len() as f64;
    let angles: Vec<f64> = p.iter().map(|d| angle(d, cr, cc)).collect();
    for w in angles.windows(2) {
        assert!(w[1] >= w[0] - 1e-9, "angles not monotone: {} > {}", w[0], w[1]);
    }
}

#[test]
fn sort_clockwise_four_cardinals() {
    let pts = vec![(-1isize, 0isize), (0, 1), (1, 0), (0, -1)];
    let sorted = sort_clockwise(pts);
    assert_eq!(sorted[0], Dot::new(-1, 0), "first should be top");
    assert_eq!(sorted[1], Dot::new(0, 1), "second should be right");
    assert_eq!(sorted[2], Dot::new(1, 0), "third should be bottom");
    assert_eq!(sorted[3], Dot::new(0, -1), "fourth should be left");
}

#[test]
fn engine_builds_for_various_radii() {
    for r in [1, 2, 3, 4, 5, 8] {
        for spin in [Spin::Clockwise, Spin::CounterClockwise] {
            let _ = CircleEngine::build(r, 0, spin);
        }
    }
}

#[test]
fn circle_spinner_engine_walk_does_not_panic() {
    for spin in [Spin::Clockwise, Spin::CounterClockwise] {
        let mut e = CircleEngine::build(4, 0, spin);
        for _ in 0..e.perimeter.len() * 2 {
            e.walk(spin);
        }
    }
}

#[test]
fn engine_advances_after_walk() {
    let e0 = CircleEngine::build(4, 0, Spin::Clockwise);
    let mut e1 = CircleEngine::build(4, 0, Spin::Clockwise);
    e1.walk(Spin::Clockwise);
    let l0 = e0.render_lines(Color::Cyan, Color::DarkGray);
    let l1 = e1.render_lines(Color::Cyan, Color::DarkGray);
    assert_ne!(l0, l1, "frame should change after one walk step");
}

#[test]
fn engine_wraps_after_full_revolution() {
    for spin in [Spin::Clockwise, Spin::CounterClockwise] {
        let mut e = CircleEngine::build(4, 0, spin);
        let n = e.perimeter.len();
        let l0 = e.render_lines(Color::Cyan, Color::DarkGray);
        for _ in 0..n {
            e.walk(spin);
        }
        let ln = e.render_lines(Color::Cyan, Color::DarkGray);
        assert_eq!(l0, ln, "should return to identical frame after full revolution ({spin:?})");
    }
}

#[test]
fn circle_spinner_different_ticks_produce_different_output() {
    let a = CircleSpinner::new(0).radius(4).spin(Spin::Clockwise).build_lines();
    let b = CircleSpinner::new(5).radius(4).spin(Spin::Clockwise).build_lines();
    assert_ne!(a, b, "tick 0 and tick 5 should render differently");
}

#[test]
fn circle_spinner_ticks_per_step_slows_animation() {
    let a = CircleSpinner::new(0).radius(4).ticks_per_step(3).build_lines();
    let b = CircleSpinner::new(1).radius(4).ticks_per_step(3).build_lines();
    assert_eq!(a, b, "slow spinner at tick 1 should equal tick 0");
}

#[test]
fn circle_spinner_cw_and_ccw_differ() {
    let cw = CircleSpinner::new(5).radius(4).spin(Spin::Clockwise).build_lines();
    let ccw = CircleSpinner::new(5).radius(4).spin(Spin::CounterClockwise).build_lines();
    assert_ne!(cw, ccw, "CW and CCW should produce different frames");
}

#[test]
fn circle_spinner_char_size_is_correct() {
    let (cols, rows) = CircleSpinner::new(0).radius(4).char_size();
    assert_eq!(cols, 5, "char cols for radius 4");
    assert_eq!(rows, 3, "char rows for radius 4");
}

#[test]
fn char_size_radius_8() {
    let (cols, rows) = CircleSpinner::new(0).radius(8).char_size();
    assert_eq!(cols, 9, "char cols for radius 8");
    assert_eq!(rows, 5, "char rows for radius 8");
}

#[test]
fn builder_chain_fields() {
    let s = CircleSpinner::new(10)
        .radius(6)
        .arc_len(5)
        .ticks_per_step(3)
        .spin(Spin::CounterClockwise)
        .arc_color(Color::Cyan)
        .dim_color(Color::DarkGray);
    assert_eq!(s.radius, 6);
    assert_eq!(s.arc_len, 5);
    assert_eq!(s.ticks_per_step, 3);
    assert_eq!(s.spin, Spin::CounterClockwise);
    assert_eq!(s.arc_color, Color::Cyan);
    assert_eq!(s.dim_color, Color::DarkGray);
}

#[test]
fn ring_has_visible_content() {
    let lines = CircleSpinner::new(0).radius(4).arc_color(Color::Cyan).build_lines();
    let has_content = lines.iter().flatten().any(|c| c.symbol != ' ' && c.symbol != '\u{2800}');
    assert!(has_content, "spinner should render some visible braille dots");
}

#[test]
fn circle_spinner_to_lines_matches_build_lines() {
    let s = CircleSpinner::new(4).radius(3);
    assert_eq!(s.to_lines(), s.build_lines());
    assert_eq!(s.to_lines().len(), s.build_lines().len());
}

// ── Further scenarios ────────────────────────────────────────────────────────

#[test]
fn circle_radius_one_perimeter_exact() {
    // Radius 1: the four axis dots, clockwise from 12 o'clock.
    let p = circle_perimeter(1);
    let want = vec![Dot::new(-1, 0), Dot::new(0, 1), Dot::new(1, 0), Dot::new(0, -1)];
    assert_eq!(p, want);
}

#[test]
fn circle_engine_shape_and_arc() {
    let e = CircleEngine::build(4, 0, Spin::Clockwise);
    let n = e.perimeter.len();
    assert_eq!(e.dot_rows, 9);
    assert_eq!(e.dot_cols, 9);
    assert_eq!(e.row_offset, 4);
    assert_eq!(e.col_offset, 4);
    assert_eq!(e.arc_len, n / 4);
    assert_eq!(e.head, 0);
    assert_eq!(e.tail, n - n / 4);
    let ccw = CircleEngine::build(4, 0, Spin::CounterClockwise);
    assert_eq!(ccw.tail, n / 4);
    let long = CircleEngine::build(4, 1000, Spin::Clockwise);
    assert_eq!(long.arc_len, n);
    assert_eq!(long.tail, 0);
}

#[test]
fn circle_walk_keeps_head_tail_gap() {
    for spin in [Spin::Clockwise, Spin::CounterClockwise] {
        let mut e = CircleEngine::build(5, 0, spin);
        let n = e.perimeter.len();
        let gap = (e.head + n - e.tail) % n;
        for _ in 0..3 * n {
            e.walk(spin);
            assert_eq!((e.head + n - e.tail) % n, gap);
        }
    }
}

#[test]
fn circle_frame_size_matches_char_size() {
    for r in 1..=8usize {
        let s = CircleSpinner::new(7).radius(r);
        let (cols, rows) = s.char_size();
        let lines = s.build_lines();
        assert_eq!(lines.len(), rows as usize);
        for line in &lines {
            assert_eq!(line.len(), cols as usize);
        }
    }
}

#[test]
fn circle_arc_uses_arc_color() {
    let lines = CircleSpinner::new(0).radius(4).arc_color(Color::Magenta).build_lines();
    assert!(lines.iter().flatten().any(|c| c.fg == Color::Magenta));
    assert!(lines.iter().flatten().any(|c| c.fg == Color::DarkGray));
}

#[test]
fn circle_radius_builder_clamps() {
    assert_eq!(CircleSpinner::new(0).radius(0).radius, 1);
    assert_eq!(CircleSpinner::new(0).ticks_per_step(0).ticks_per_step, 1);
}
