use tui_spinner::{Cell, Color, Direction, Flow, LinearSpinner, LinearStyle};

fn content(line: &[Cell]) -> Vec<String> {
    line.iter().map(|c| c.symbol.to_string()).collect()
}

#[test]
fn horizontal_first_step_lights_first_two() {
    let s = LinearSpinner::new(0);
    let line = s.build_horizontal_line();
    let (on, off) = LinearStyle::Classic.symbols(Direction::Horizontal);
    assert_eq!(content(&line), &[on, on, off]);
}

#[test]
fn horizontal_second_step_advances() {
    let s = LinearSpinner::new(3);
    let line = s.build_horizontal_line();
    let (on, off) = LinearStyle::Classic.symbols(Direction::Horizontal);
    assert_eq!(content(&line), &[off, on, on]);
}

#[test]
fn horizontal_window_wraps() {
    let s = LinearSpinner::new(6);
    let line = s.build_horizontal_line();
    let (on, off) = LinearStyle::Classic.symbols(Direction::Horizontal);
    assert_eq!(content(&line), &[on, off, on]);
}

#[test]
fn horizontal_lit_clamped_to_total_at_render() {
    let s = LinearSpinner::new(0).total_slots(2).lit_slots(99);
    let line = s.build_horizontal_line();
    let (on, _) = LinearStyle::Classic.symbols(Direction::Horizontal);
    let lit = content(&line).iter().filter(|c| c.as_str() == on).count();
    assert!(lit <= 2, "lit count must not exceed total_slots");
}

#[test]
fn horizontal_single_dot_no_panic() {
    let s = LinearSpinner::new(0).total_slots(1).lit_slots(1);
    let _ = s.build_horizontal_line();
}

#[test]
fn vertical_bounce_sequence_3_dots() {
    let expected = [0usize, 0, 0, 1, 1, 1, 2, 2, 2, 1, 1, 1, 0, 0, 0];
    for (tick, &exp) in expected.iter().enumerate() {
        let s = LinearSpinner::new(tick as u64).direction(Direction::Vertical);
        assert_eq!(s.bounce_index(), exp, "tick={tick}");
    }
}

#[test]
fn vertical_bounce_sequence_1_dot() {
    for tick in 0..10u64 {
        let s = LinearSpinner::new(tick).direction(Direction::Vertical).total_slots(1);
        assert_eq!(s.bounce_index(), 0);
    }
}

#[test]
fn horizontal_backwards_first_step_lights_last_two() {
    let s = LinearSpinner::new(0).flow(Flow::Backwards);
    let line = s.build_horizontal_line();
    let (on, off) = LinearStyle::Classic.symbols(Direction::Horizontal);
    assert_eq!(content(&line), &[on, off, on]);
}

#[test]
fn horizontal_backwards_second_step_reverses() {
    let s = LinearSpinner::new(3).flow(Flow::Backwards);
    let line = s.build_horizontal_line();
    let (on, off) = LinearStyle::Classic.symbols(Direction::Horizontal);
    assert_eq!(content(&line), &[off, on, on]);
}

#[test]
fn horizontal_backwards_third_step() {
    let s = LinearSpinner::new(6).flow(Flow::Backwards);
    let line = s.build_horizontal_line();
    let (on, off) = LinearStyle::Classic.symbols(Direction::Horizontal);
    assert_eq!(content(&line), &[on, on, off]);
}

#[test]
fn vertical_backwards_bounce_sequence_3_dots() {
    let expected = [2usize, 2, 2, 1, 1, 1, 0, 0, 0, 1, 1, 1, 2, 2, 2];
    for (tick, &exp) in expected.iter().enumerate() {
        let s = LinearSpinner::new(tick as u64).direction(Direction::Vertical).flow(Flow::Backwards);
        assert_eq!(s.bounce_index(), exp, "tick={tick}");
    }
}

#[test]
fn vertical_backwards_bounce_sequence_1_dot() {
    for tick in 0..10u64 {
        let s = LinearSpinner::new(tick).direction(Direction::Vertical).flow(Flow::Backwards).total_slots(1);
        assert_eq!(s.bounce_index(), 0);
    }
}

#[test]
fn flow_forwards_is_default() {
    let s = LinearSpinner::new(0);
    assert_eq!(s.flow, Flow::Forwards);
}

#[test]
fn flow_default_trait() {
    assert_eq!(Flow::default(), Flow::Forwards);
}

#[test]
fn vertical_ticks_per_step_one_faster() {
    let s = LinearSpinner::new(1).direction(Direction::Vertical).ticks_per_step(1);
    assert_eq!(s.bounce_index(), 1);
}

#[test]
fn vertical_lines_bottom_aligned() {
    let s = LinearSpinner::new(0).direction(Direction::Vertical).total_slots(3);
    let lines = s.build_vertical_lines(6);
    assert_eq!(lines.len(), 6);
    assert!(lines[0].is_empty());
    assert!(!lines[3].is_empty());
}

#[test]
fn vertical_lines_short_area_no_panic() {
    let s = LinearSpinner::new(0).direction(Direction::Vertical).total_slots(5);
    let lines = s.build_vertical_lines(2);
    assert_eq!(lines.len(), 2);
}

#[test]
fn linear_style_arrow_changes_with_direction() {
    let (h_on, _) = LinearStyle::Arrow.symbols(Direction::Horizontal);
    let (v_on, _) = LinearStyle::Arrow.symbols(Direction::Vertical);
    assert_ne!(h_on, v_on, "Arrow should differ between H and V");
}

#[test]
fn all_styles_return_non_empty_symbols() {
    let styles = [
        LinearStyle::Classic,
        LinearStyle::Square,
        LinearStyle::Diamond,
        LinearStyle::Bar,
        LinearStyle::Braille,
        LinearStyle::Arrow,
    ];
    for style in styles {
        for dir in [Direction::Horizontal, Direction::Vertical] {
            let (on, off) = style.symbols(dir);
            assert!(!on.is_empty(), "{style:?}/{dir:?} active symbol empty");
            assert!(!off.is_empty(), "{style:?}/{dir:?} inactive symbol empty");
        }
    }
}

// ── Further scenarios ────────────────────────────────────────────────────────

#[test]
fn linear_symbols_table() {
    assert_eq!(LinearStyle::Classic.symbols(Direction::Horizontal), ("●", "·"));
    assert_eq!(LinearStyle::Square.symbols(Direction::Vertical), ("■", "□"));
    assert_eq!(LinearStyle::Diamond.symbols(Direction::Horizontal), ("◆", "◇"));
    assert_eq!(LinearStyle::Bar.symbols(Direction::Horizontal), ("▰", "▱"));
    assert_eq!(LinearStyle::Braille.symbols(Direction::Vertical), ("⣿", "⠀"));
    assert_eq!(LinearStyle::Arrow.symbols(Direction::Horizontal), ("▶", "▷"));
    assert_eq!(LinearStyle::Arrow.symbols(Direction::Vertical), ("▼", "▽"));
    for style in [LinearStyle::Classic, LinearStyle::Arrow, LinearStyle::Braille] {
        assert_eq!(style.columns_per_slot(), 1);
    }
}

#[test]
fn linear_defaults() {
    assert_eq!(Direction::default(), Direction::Horizontal);
    assert_eq!(LinearStyle::default(), LinearStyle::Classic);
    let s = LinearSpinner::new(7);
    assert_eq!(s.total_slots, 3);
    assert_eq!(s.lit_slots, 2);
    assert_eq!(s.ticks_per_step, 3);
    assert_eq!(s.active_color, Color::White);
    assert_eq!(s.inactive_color, Color::DarkGray);
}

#[test]
fn linear_lit_cells_are_bold_and_coloured() {
    let s = LinearSpinner::new(0).active_color(Color::Cyan).inactive_color(Color::Red);
    let line = s.build_horizontal_line();
    assert_eq!(line[0], Cell { symbol: '●', fg: Color::Cyan, bold: true });
    assert_eq!(line[2], Cell { symbol: '·', fg: Color::Red, bold: false });
}

#[test]
fn linear_window_is_cyclic() {
    // Five slots, three lit: the window starts one slot further each step.
    for tick in 0..10u64 {
        let s = LinearSpinner::new(tick).total_slots(5).lit_slots(3).ticks_per_step(1);
        let line = s.build_horizontal_line();
        let start = (tick % 5) as usize;
        for (i, cell) in line.iter().enumerate() {
            let lit = (i + 5 - start) % 5 < 3;
            assert_eq!(cell.bold, lit, "tick={tick} slot={i}");
        }
    }
}

#[test]
fn linear_vertical_column_layout() {
    // Four rows, three slots, step 1: the middle slot is lit.
    let s = LinearSpinner::new(3).direction(Direction::Vertical).linear_style(LinearStyle::Square);
    let lines = s.build_vertical_lines(4);
    assert!(lines[0].is_empty());
    assert_eq!(lines[1], vec![Cell { symbol: '□', fg: Color::DarkGray, bold: false }]);
    assert_eq!(lines[2], vec![Cell { symbol: '■', fg: Color::White, bold: true }]);
    assert_eq!(lines[3], vec![Cell { symbol: '□', fg: Color::DarkGray, bold: false }]);
    // Shorter than the slots: rows hold slots 0 and 1.
    let short = s.build_vertical_lines(2);
    assert_eq!(short[1], vec![Cell { symbol: '■', fg: Color::White, bold: true }]);
}

#[test]
fn linear_area_lines_follow_direction() {
    let h = LinearSpinner::new(0).area_lines(5);
    assert_eq!(h.len(), 1);
    assert_eq!(h[0].len(), 3);
    let v = LinearSpinner::new(0).direction(Direction::Vertical).area_lines(5);
    assert_eq!(v.len(), 5);
}

#[test]
fn linear_bounce_moves_one_slot_per_step() {
    for n in 2..=6usize {
        for flow in [Flow::Forwards, Flow::Backwards] {
            let mut prev = LinearSpinner::new(0).direction(Direction::Vertical).total_slots(n).ticks_per_step(1).flow(flow).bounce_index();
            for tick in 1..40u64 {
                let cur = LinearSpinner::new(tick).direction(Direction::Vertical).total_slots(n).ticks_per_step(1).flow(flow).bounce_index();
                assert!(cur < n);
                assert_eq!(cur.abs_diff(prev), 1);
                prev = cur;
            }
        }
    }
}
