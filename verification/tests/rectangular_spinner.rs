use tui_spinner::rectangular_spinner::{build_perimeter, RectEngine};
use tui_spinner::{Alignment, Color, RectangularSpinner, Spin};

#[test]
fn perimeter_length_formula() {
    for w in 3..=8usize {
        for h in 2..=6usize {
            let got = build_perimeter(w, h).len();
            let expected = 2 * (w * 2 + h * 4) - 4;
            assert_eq!(got, expected, "w={w} h={h}");
        }
    }
}

#[test]
fn perimeter_no_duplicate_dots() {
    for w in 3..=6usize {
        for h in 2..=4usize {
            let p = build_perimeter(w, h);
            let unique: std::collections::HashSet<_> = p.iter().copied().collect();
            assert_eq!(unique.len(), p.len(), "duplicate dots w={w} h={h}");
        }
    }
}

#[test]
fn perimeter_starts_at_top_left() {
    let p = build_perimeter(4, 2);
    assert_eq!(p[0], (0, 0), "first dot should be top-left (0,0)");
}

#[test]
fn perimeter_all_dots_on_border() {
    for w in 3..=6usize {
        for h in 2..=4usize {
            let dot_w = w * 2;
            let dot_h = h * 4;
            let p = build_perimeter(w, h);
            for &(r, c) in &p {
                let on_border = r == 0 || r == dot_h - 1 || c == 0 || c == dot_w - 1;
                assert!(on_border, "dot ({r},{c}) is not on border w={w} h={h}");
            }
        }
    }
}

#[test]
fn rectangular_spinner_engine_builds_without_panic() {
    for w in 3..=8usize {
        for h in 2..=5usize {
            for spin in [Spin::Clockwise, Spin::CounterClockwise] {
                let _ = RectEngine::build(w, h, 0, spin);
            }
        }
    }
}

#[test]
fn rectangular_spinner_engine_walk_does_not_panic() {
    let mut e = RectEngine::build(6, 3, 0, Spin::Clockwise);
    for _ in 0..500 {
        e.walk();
    }
}

#[test]
fn rectangular_spinner_engine_anchor_stays_in_bounds() {
    let mut e = RectEngine::build(6, 3, 0, Spin::Clockwise);
    let max_anchor = e.perimeter.len().saturating_sub(e.arc_len);
    for _ in 0..500 {
        e.walk();
        assert!(e.anchor <= max_anchor, "anchor={} max={max_anchor}", e.anchor);
    }
}

#[test]
fn rectangular_spinner_engine_bounces_direction() {
    let mut e = RectEngine::build(6, 3, 0, Spin::Clockwise);
    assert!(e.going_forward, "should start going forward");
    let max_steps = e.perimeter.len() * 2;
    let mut reversed = false;
    for _ in 0..max_steps {
        e.walk();
        if !e.going_forward {
            reversed = true;
            break;
        }
    }
    assert!(reversed, "engine never reversed direction");
    let mut re_reversed = false;
    for _ in 0..max_steps {
        e.walk();
        if e.going_forward {
            re_reversed = true;
            break;
        }
    }
    assert!(re_reversed, "engine never reversed back");
}

#[test]
fn cw_and_ccw_start_differ() {
    let cw = RectEngine::build(6, 3, 0, Spin::Clockwise);
    let ccw = RectEngine::build(6, 3, 0, Spin::CounterClockwise);
    assert_ne!(cw.anchor, ccw.anchor, "CW and CCW should start at different anchors");
    assert_ne!(cw.going_forward, ccw.going_forward, "CW and CCW should start with opposite directions");
}

#[test]
fn rectangular_spinner_different_ticks_produce_different_output() {
    let lines_a = RectangularSpinner::new(0).width(8).height(3).build_lines();
    let lines_b = RectangularSpinner::new(10).width(8).height(3).build_lines();
    assert_ne!(lines_a, lines_b, "tick=0 and tick=10 should differ");
}

#[test]
fn cw_and_ccw_widgets_differ_at_tick_5() {
    let cw = RectangularSpinner::new(5).width(8).height(3).spin(Spin::Clockwise).build_lines();
    let ccw = RectangularSpinner::new(5).width(8).height(3).spin(Spin::CounterClockwise).build_lines();
    assert_ne!(cw, ccw, "CW and CCW widgets should produce different output at tick 5");
}

#[test]
fn rectangular_spinner_char_size_is_correct() {
    let s = RectangularSpinner::new(0).width(10).height(4);
    assert_eq!(s.char_size(), (10, 4));
}

#[test]
fn rectangular_spinner_char_size_clamps_minimum() {
    let s = RectangularSpinner::new(0).width(1).height(1);
    let (w, h) = s.char_size();
    assert!(w >= 3, "width should be at least 3");
    assert!(h >= 2, "height should be at least 2");
}

#[test]
fn rendered_output_has_braille_chars() {
    let lines = RectangularSpinner::new(0).width(8).height(3).build_lines();
    assert_eq!(lines.len(), 3, "should produce 3 lines for height=3");
    for line in &lines {
        assert!(!line.is_empty(), "line has no spans");
    }
}

#[test]
fn rectangular_spinner_builder_chain() {
    let s = RectangularSpinner::new(0)
        .width(12)
        .height(4)
        .arc_len(10)
        .spin(Spin::CounterClockwise)
        .ticks_per_step(2)
        .arc_color(Color::Blue)
        .dim_color(Color::Black)
        .alignment(Alignment::Center);
    assert_eq!(s.width, 12);
    assert_eq!(s.height, 4);
    assert_eq!(s.arc_len, 10);
    assert!(matches!(s.spin, Spin::CounterClockwise));
    assert_eq!(s.ticks_per_step, 2);
}

#[test]
fn arc_len_override_respected() {
    let e = RectEngine::build(8, 3, 15, Spin::Clockwise);
    assert_eq!(e.arc_len, 15);
}

#[test]
fn rectangular_spinner_ticks_per_step_slows_animation() {
    let fast = RectangularSpinner::new(10).width(8).height(3).ticks_per_step(1).build_lines();
    let slow = RectangularSpinner::new(10).width(8).height(3).ticks_per_step(5).build_lines();
    assert_ne!(fast, slow, "different ticks_per_step should produce different output at tick=10");
}

// ── Further scenarios ────────────────────────────────────────────────────────

#[test]
fn rectangular_perimeter_order() {
    // 3 × 2 characters: 6 × 8 dots, 24 perimeter dots.
    let p = build_perimeter(3, 2);
    assert_eq!(p.len(), 24);
    assert_eq!(&p[0..6], &[(0, 0), (0, 1), (0, 2), (0, 3), (0, 4), (0, 5)]);
    assert_eq!(p[6], (1, 5));
    assert_eq!(p[12], (7, 5));
    assert_eq!(p[13], (7, 4));
    assert_eq!(p[17], (7, 0));
    assert_eq!(p[18], (6, 0));
    assert_eq!(p[23], (1, 0));
}

#[test]
fn rectangular_engine_defaults() {
    let e = RectEngine::build(1, 1, 0, Spin::Clockwise);
    assert_eq!(e.char_w, 3);
    assert_eq!(e.char_h, 2);
    assert_eq!(e.perimeter.len(), 24);
    assert_eq!(e.arc_len, 6);
    let ccw = RectEngine::build(1, 1, 0, Spin::CounterClockwise);
    assert_eq!(ccw.anchor, 18);
    let huge = RectEngine::build(3, 2, 1000, Spin::Clockwise);
    assert_eq!(huge.arc_len, 23);
}

#[test]
fn rectangular_first_frame() {
    // 3 × 2 rectangle, arc of 6 dots along the top edge: the top row of
    // cells shows two lit dots each in the arc colour.
    let lines = RectangularSpinner::new(0).width(3).height(2).arc_len(6).build_lines();
    assert_eq!(lines.len(), 2);
    for cell in &lines[0] {
        assert_eq!(cell.fg, Color::Cyan);
    }
    // Top-left cell: top two dots lit (bits 0 and 3) → ⠉.
    assert_eq!(lines[0][1].symbol, '\u{2809}');
    // Bottom-middle cell: only its bottom two dots belong to the ring → ⣀ dim.
    assert_eq!(lines[1][1].symbol, '\u{28C0}');
    assert_eq!(lines[1][1].fg, Color::DarkGray);
}

#[test]
fn rectangular_bounce_turns_at_end() {
    let mut e = RectEngine::build(3, 2, 6, Spin::Clockwise);
    let limit = e.perimeter.len() - e.arc_len;
    for _ in 0..limit {
        e.walk();
    }
    assert_eq!(e.anchor, limit);
    assert!(e.going_forward);
    e.walk();
    assert_eq!(e.anchor, limit);
    assert!(!e.going_forward);
}
