use tui_spinner::rect_spinner::{calc_dimension, SquareEngine};
use tui_spinner::{Alignment, Centre, Color, RectShape, RectSpinner, Spin};

#[test]
fn square_engine_builds() {
    for size in 2..=6 {
        for centre in [Centre::Filled, Centre::Empty] {
            let e = SquareEngine::build(size, centre, Spin::Clockwise);
            assert!(!e.head.is_empty());
            assert!(!e.tail.is_empty());
        }
    }
}

#[test]
fn square_engine_walk_does_not_panic() {
    for size in 2..=4 {
        let mut e = SquareEngine::build(size, Centre::Filled, Spin::Clockwise);
        let dm = calc_dimension(size);
        for _ in 0..dm * 8 {
            e.walk();
        }
    }
}

#[test]
fn rect_spinner_filled_vs_empty_differ() {
    let filled = SquareEngine::build(2, Centre::Filled, Spin::Clockwise);
    let empty = SquareEngine::build(2, Centre::Empty, Spin::Clockwise);
    let lf = filled.render_frame(Color::Cyan, Color::DarkGray);
    let le = empty.render_frame(Color::Cyan, Color::DarkGray);
    assert_ne!(lf, le);
}

#[test]
fn rect_spinner_cw_and_ccw_differ() {
    let cw = RectSpinner::new(0).spin(Spin::Clockwise).render_lines();
    let ccw = RectSpinner::new(0).spin(Spin::CounterClockwise).render_lines();
    assert_ne!(cw, ccw);
}

#[test]
fn rect_spinner_different_ticks_produce_different_output() {
    let a = RectSpinner::new(0).render_lines();
    let b = RectSpinner::new(5).render_lines();
    assert_ne!(a, b);
}

#[test]
fn to_lines_matches_render_lines() {
    let s = RectSpinner::new(3);
    assert_eq!(s.to_lines(), s.render_lines());
    assert_eq!(s.to_lines().len(), s.render_lines().len());
}

// ── Further scenarios ────────────────────────────────────────────────────────

#[test]
fn rect_defaults_and_builders() {
    assert_eq!(Spin::default(), Spin::Clockwise);
    assert_eq!(Centre::default(), Centre::Filled);
    assert_eq!(RectShape::default(), RectShape::Square(2));
    let s = RectSpinner::new(1)
        .shape(RectShape::Square(4))
        .spin(Spin::CounterClockwise)
        .outer_color(Color::Blue)
        .inner_color(Color::Red)
        .centre(Centre::Empty)
        .ticks_per_step(0)
        .alignment(Alignment::Right);
    assert_eq!(s.shape, RectShape::Square(4));
    assert_eq!(s.spin, Spin::CounterClockwise);
    assert_eq!(s.outer_color, Color::Blue);
    assert_eq!(s.inner_color, Color::Red);
    assert_eq!(s.centre, Centre::Empty);
    assert_eq!(s.ticks_per_step, 1);
    assert_eq!(s.alignment, Alignment::Right);
}

#[test]
fn rect_ccw_mirrors_each_row() {
    for tick in [0u64, 3, 17] {
        for size in [2usize, 3, 5] {
            let cw = RectSpinner::new(tick).shape(RectShape::Square(size)).render_lines();
            let ccw = RectSpinner::new(tick)
                .shape(RectShape::Square(size))
                .spin(Spin::CounterClockwise)
                .render_lines();
            assert_eq!(cw.len(), ccw.len());
            for (a, b) in cw.iter().zip(ccw.iter()) {
                let mut r = a.clone();
                r.reverse();
                assert_eq!(&r, b);
            }
        }
    }
}

#[test]
fn rect_frame_size() {
    // Size 2: a 10-row (8 + 2 offset) by 8-column dot grid, 3 × 4 cells.
    let lines = RectSpinner::new(0).render_lines();
    assert_eq!(lines.len(), 3);
    assert!(lines.iter().all(|l| l.len() == 4));
    // Size 3: a 13 × 13 dot grid, 4 rows of 7 cells.
    let lines = RectSpinner::new(0).shape(RectShape::Square(3)).render_lines();
    assert_eq!(lines.len(), 4);
    assert!(lines.iter().all(|l| l.len() == 7));
}

#[test]
fn rect_dimensions() {
    assert_eq!(calc_dimension(2), 8);
    assert_eq!(calc_dimension(3), 13);
    assert_eq!(calc_dimension(8), 38);
    assert_eq!(calc_dimension(0), 8);
}

#[test]
fn rect_walk_keeps_arc_length() {
    // The arc is as many segments long as the ring is thick, at every step.
    for size in 2..=5usize {
        let mut e = SquareEngine::build(size, Centre::Empty, Spin::Clockwise);
        for _ in 0..50 {
            assert_eq!(e.head.len(), size);
            assert_eq!(e.tail.len(), size);
            e.walk();
        }
    }
}
