use tui_spinner::rect_spinner::{calc_dimension, SquareEngine};
use tui_spinner::{Alignment, Centre, Color, RectShape, RectSpinner, Spin, SquareSpinner};

#[test]
fn builds_all_sizes() {
    for size in 2..=6 {
        for centre in [Centre::Filled, Centre::Empty] {
            let e = SquareEngine::build(size, centre, Spin::Clockwise);
            assert!(!e.head.is_empty());
            assert!(!e.tail.is_empty());
        }
    }
}

#[test]
fn walk_does_not_panic() {
    for size in 2..=4 {
        let mut e = SquareEngine::build(size, Centre::Filled, Spin::Clockwise);
        let dm = calc_dimension(size);
        for _ in 0..dm * 8 {
            e.walk();
        }
    }
}

#[test]
fn square_spinner_filled_vs_empty_differ() {
    let filled = SquareEngine::build(2, Centre::Filled, Spin::Clockwise);
    let empty = SquareEngine::build(2, Centre::Empty, Spin::Clockwise);
    let lf = filled.render_frame(Color::Cyan, Color::DarkGray);
    let le = empty.render_frame(Color::Cyan, Color::DarkGray);
    assert_ne!(lf, le);
}

#[test]
fn square_spinner_cw_and_ccw_differ() {
    let a = SquareSpinner::new(0).spin(Spin::Clockwise).build_lines();
    let b = SquareSpinner::new(0).spin(Spin::CounterClockwise).build_lines();
    assert_ne!(a, b);
}

#[test]
fn different_ticks_differ() {
    let a = SquareSpinner::new(0).build_lines();
    let b = SquareSpinner::new(5).build_lines();
    assert_ne!(a, b);
}

#[test]
fn square_spinner_char_size_is_correct() {
    let (cols, rows) = SquareSpinner::new(0).size(2).char_size();
    assert_eq!(cols, 4);
    assert_eq!(rows, 3);
    let (cols3, rows3) = SquareSpinner::new(0).size(3).char_size();
    assert!(cols3 > cols);
    assert!(rows3 > rows);
}

#[test]
fn square_spinner_builder_chain() {
    let s = SquareSpinner::new(10)
        .size(4)
        .spin(Spin::CounterClockwise)
        .centre(Centre::Empty)
        .arc_color(Color::Cyan)
        .dim_color(Color::DarkGray)
        .ticks_per_step(3)
        .alignment(Alignment::Center);
    assert_eq!(s.size, 4);
    assert_eq!(s.spin, Spin::CounterClockwise);
    assert_eq!(s.centre, Centre::Empty);
    assert_eq!(s.arc_color, Color::Cyan);
    assert_eq!(s.dim_color, Color::DarkGray);
    assert_eq!(s.ticks_per_step, 3);
}

// ── Further scenarios ────────────────────────────────────────────────────────

#[test]
fn square_size_is_clamped() {
    assert_eq!(SquareSpinner::new(0).size(0).size, 2);
    assert_eq!(SquareSpinner::new(0).size(100).size, 8);
    assert_eq!(SquareSpinner::new(0).size(5).size, 5);
}

#[test]
fn square_matches_rect_square() {
    for tick in [0u64, 4, 9] {
        for size in [2usize, 3, 6] {
            for spin in [Spin::Clockwise, Spin::CounterClockwise] {
                let sq = SquareSpinner::new(tick)
                    .size(size)
                    .spin(spin)
                    .arc_color(Color::Green)
                    .dim_color(Color::Blue)
                    .build_lines();
                let rect = RectSpinner::new(tick)
                    .shape(RectShape::Square(size))
                    .spin(spin)
                    .outer_color(Color::Green)
                    .inner_color(Color::Blue)
                    .render_lines();
                assert_eq!(sq, rect);
            }
        }
    }
}

#[test]
fn square_frame_matches_char_size() {
    for size in 2..=8usize {
        let s = SquareSpinner::new(2).size(size);
        let (cols, rows) = s.char_size();
        let lines = s.build_lines();
        assert_eq!(lines.len(), rows as usize);
        assert!(lines.iter().all(|l| l.len() == cols as usize));
    }
}
