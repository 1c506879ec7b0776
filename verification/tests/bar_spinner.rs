use tui_spinner::bar_spinner::{fade_byte, RectEngine, DIM_BYTE, FADE};
use tui_spinner::{Alignment, BarMotion, BarOrientation, BarSpinner, BarStyle, BarTrack, Cell, Color, Spin};

fn braille(byte: u8) -> char {
    char::from_u32(0x2800 + u32::from(byte)).unwrap()
}

fn symbols(row: &[Cell]) -> Vec<char> {
    row.iter().map(|c| c.symbol).collect()
}

#[test]
fn bar_spinner_engine_builds_without_panic() {
    for w in 3..=30usize {
        for h in 1..=5usize {
            for spin in [Spin::Clockwise, Spin::CounterClockwise] {
                let _ = RectEngine::build(w, h, 0, spin, BarMotion::Bounce);
            }
        }
    }
}

#[test]
fn bar_spinner_engine_walk_does_not_panic() {
    let mut e = RectEngine::build(20, 1, 0, Spin::Clockwise, BarMotion::Bounce);
    for _ in 0..1000 {
        e.walk();
    }
}

#[test]
fn bar_spinner_engine_anchor_stays_in_bounds() {
    let mut e = RectEngine::build(20, 1, 0, Spin::Clockwise, BarMotion::Bounce);
    let max_anchor = e.char_w.saturating_sub(e.arc_cols);
    for _ in 0..500 {
        e.walk();
        assert!(e.anchor <= max_anchor, "anchor={} exceeds max={max_anchor}", e.anchor);
    }
}

#[test]
fn bar_spinner_engine_bounces_direction() {
    let mut e = RectEngine::build(20, 1, 0, Spin::Clockwise, BarMotion::Bounce);
    assert!(e.going_forward, "should start going forward (CW)");
    let mut reversed = false;
    for _ in 0..100 {
        e.walk();
        if !e.going_forward {
            reversed = true;
            break;
        }
    }
    assert!(reversed, "engine never reversed to backward");
    let mut re_reversed = false;
    for _ in 0..100 {
        e.walk();
        if e.going_forward {
            re_reversed = true;
            break;
        }
    }
    assert!(re_reversed, "engine never reversed back to forward");
}

#[test]
fn cw_starts_at_left_ccw_at_right() {
    let cw = RectEngine::build(20, 1, 0, Spin::Clockwise, BarMotion::Bounce);
    let ccw = RectEngine::build(20, 1, 0, Spin::CounterClockwise, BarMotion::Bounce);
    assert_eq!(cw.anchor, 0, "CW should start at column 0");
    assert!(ccw.anchor > 0, "CCW should start at the right (anchor={})", ccw.anchor);
    assert!(cw.going_forward);
    assert!(!ccw.going_forward);
}

#[test]
fn arc_edges_use_fade_bytes() {
    let e = RectEngine::build(20, 1, 12, Spin::Clockwise, BarMotion::Bounce);
    let lines = e.render_lines(Color::Cyan, Color::DarkGray, 3, DIM_BYTE, 0xFF, None);
    assert_eq!(lines.len(), 1);
    let cells = &lines[0];
    assert_eq!(cells[e.anchor].symbol, braille(FADE[0]), "outermost arc edge should be FADE[0]");
    let centre_idx = e.anchor + e.arc_cols / 2;
    assert_eq!(cells[centre_idx].symbol, braille(FADE[3]), "arc centre should be full density FADE[3]");
}

#[test]
fn dim_columns_use_dim_byte() {
    let e = RectEngine::build(20, 1, 6, Spin::Clockwise, BarMotion::Bounce);
    let lines = e.render_lines(Color::Cyan, Color::DarkGray, 3, DIM_BYTE, 0xFF, None);
    let cells = &lines[0];
    for i in 0..e.anchor {
        assert_eq!(cells[i].symbol, braille(DIM_BYTE), "column {i} should be dim");
    }
}

#[test]
fn build_lines_height_matches() {
    for h in 1..=5usize {
        let lines = BarSpinner::new(0).width(20).height(h).build_lines(20, 10);
        assert_eq!(lines.len(), h, "height={h}");
    }
}

#[test]
fn build_lines_width_matches() {
    let w = 24usize;
    let lines = BarSpinner::new(0).width(w).height(1).build_lines(w, 10);
    assert_eq!(lines[0].len(), w, "each line should have {w} spans");
}

#[test]
fn bar_spinner_different_ticks_produce_different_output() {
    let a = BarSpinner::new(0).width(20).height(1).build_lines(20, 10);
    let b = BarSpinner::new(8).width(20).height(1).build_lines(20, 10);
    assert_ne!(a, b, "tick=0 and tick=8 should differ");
}

#[test]
fn bar_spinner_cw_and_ccw_differ_at_same_tick() {
    let cw = BarSpinner::new(5).width(20).height(1).spin(Spin::Clockwise).build_lines(20, 10);
    let ccw = BarSpinner::new(5).width(20).height(1).spin(Spin::CounterClockwise).build_lines(20, 10);
    assert_ne!(cw, ccw, "CW and CCW should differ at the same tick");
}

#[test]
fn bar_spinner_ticks_per_step_slows_animation() {
    let fast = BarSpinner::new(10).width(20).height(1).ticks_per_step(1).build_lines(20, 10);
    let slow = BarSpinner::new(10).width(20).height(1).ticks_per_step(5).build_lines(20, 10);
    assert_ne!(fast, slow, "different speeds should produce different output");
}

#[test]
fn arc_width_override_respected() {
    let e = RectEngine::build(20, 1, 7, Spin::Clockwise, BarMotion::Bounce);
    assert_eq!(e.arc_cols, 7);
}

#[test]
fn char_size_fixed_width() {
    let s = BarSpinner::new(0).width(20).height(2);
    assert_eq!(s.char_size(), Some((20, 2)));
}

#[test]
fn char_size_auto_width_is_none() {
    let s = BarSpinner::new(0);
    assert_eq!(s.char_size(), None);
}

#[test]
fn bar_spinner_char_size_clamps_minimum() {
    let s = BarSpinner::new(0).width(1).height(0);
    if let Some((w, h)) = s.char_size() {
        assert!(w >= 3, "width clamped to at least 3");
        assert!(h >= 1, "height clamped to at least 1");
    }
}

#[test]
fn bar_spinner_builder_chain() {
    let s = BarSpinner::new(0)
        .width(24)
        .height(2)
        .arc_width(8)
        .spin(Spin::CounterClockwise)
        .ticks_per_step(3)
        .arc_color(Color::Blue)
        .dim_color(Color::Black)
        .alignment(Alignment::Center);
    assert_eq!(s.width, 24);
    assert_eq!(s.height, 2);
    assert_eq!(s.arc_width, 8);
    assert!(matches!(s.spin, Spin::CounterClockwise));
    assert_eq!(s.ticks_per_step, 3);
    assert_eq!(s.arc_color, Color::Blue);
    assert_eq!(s.dim_color, Color::Black);
}

#[test]
fn arc_char_changes_centre_byte() {
    let e = RectEngine::build(20, 1, 10, Spin::Clockwise, BarMotion::Bounce);
    let lines_default = e.render_lines(Color::Cyan, Color::DarkGray, 3, DIM_BYTE, 0xFF, None);
    let lines_custom = e.render_lines(Color::Cyan, Color::DarkGray, 3, DIM_BYTE, 0x3F, None);
    assert_ne!(lines_default, lines_custom, "different arc_byte produces different output");
    let centre_idx = e.anchor + e.arc_cols / 2;
    assert_eq!(lines_custom[0][centre_idx].symbol, '\u{283F}', "centre cell should be ⠿ when arc_byte=0x3F");
}

#[test]
fn preset_zed_defaults() {
    let s = BarSpinner::zed(0);
    assert_eq!(s.height, 1);
    assert_eq!(s.arc_color, Color::Cyan);
}

#[test]
fn preset_solid_has_full_track_and_zero_fade() {
    let s = BarSpinner::solid(0);
    assert_eq!(s.track, BarTrack::Full);
    assert_eq!(s.fade_width, 0);
}

#[test]
fn track_and_fade_width_builder() {
    let s = BarSpinner::new(0).track(BarTrack::Full).fade_width(0);
    assert_eq!(s.track, BarTrack::Full);
    assert_eq!(s.fade_width, 0);
    let lines = s.width(12).build_lines(12, 10);
    for line in &lines {
        for cell in line {
            assert_eq!(cell.symbol, '\u{28FF}', "sharp fade + Full track → every cell is ⣿");
        }
    }
}

#[test]
fn with_colors_sets_both() {
    let s = BarSpinner::new(0).with_colors(Color::Red, Color::Blue);
    assert_eq!(s.arc_color, Color::Red);
    assert_eq!(s.dim_color, Color::Blue);
}

#[test]
fn arc_width_larger_than_bar_is_clamped() {
    let e = RectEngine::build(10, 1, 99, Spin::Clockwise, BarMotion::Bounce);
    assert!(e.arc_cols < e.char_w, "arc_cols must be < char_w");
}

#[test]
fn arc_width_zero_uses_auto() {
    let e = RectEngine::build(30, 1, 0, Spin::Clockwise, BarMotion::Bounce);
    assert!(e.arc_cols >= 4, "auto arc should be at least 4 cols");
    assert!(e.arc_cols < e.char_w);
}

#[test]
fn loop_all_columns_lit_over_full_cycle() {
    let width = 12usize;
    let arc_cols = 4usize;
    let mut e = RectEngine::build(width, 1, arc_cols, Spin::Clockwise, BarMotion::Loop);
    let mut ever_lit = vec![false; width];
    for _ in 0..width {
        let lines = e.render_lines(Color::Cyan, Color::DarkGray, 3, DIM_BYTE, 0xFF, None);
        for (ci, cell) in lines[0].iter().enumerate() {
            if cell.fg == Color::Cyan {
                ever_lit[ci] = true;
            }
        }
        e.walk();
    }
    for (ci, &lit) in ever_lit.iter().enumerate() {
        assert!(lit, "column {ci} was never lit during a full Loop cycle");
    }
}

#[test]
fn non_braille_style_chars_match_declaration() {
    for (style, expected_arc, expected_track) in [
        (BarStyle::Block, '\u{2588}', '\u{2591}'),
        (BarStyle::Dot, '\u{25CF}', '\u{00B7}'),
        (BarStyle::Star, '\u{2605}', '\u{2606}'),
        (BarStyle::Progress, '\u{25B0}', '\u{25B1}'),
    ] {
        let Some((arc, track)) = style.chars() else {
            panic!("{style:?} should have char pair");
        };
        assert_eq!(arc, expected_arc, "{style:?} arc char mismatch");
        assert_eq!(track, expected_track, "{style:?} track char mismatch");
    }
}

#[test]
fn bar_style_block_produces_non_braille_chars() {
    let lines = BarSpinner::new(0).width(20).bar_style(BarStyle::Block).build_lines(20, 10);
    for line in &lines {
        for cell in line {
            let ch = cell.symbol;
            assert!(ch == '█' || ch == '░', "Block style: unexpected char U+{:04X}", ch as u32);
        }
    }
}

#[test]
fn all_non_braille_styles_have_char_pairs() {
    let styles = [
        BarStyle::Block,
        BarStyle::Shade,
        BarStyle::Dot,
        BarStyle::Diamond,
        BarStyle::Square,
        BarStyle::Star,
        BarStyle::Heart,
        BarStyle::Arrow,
        BarStyle::Circle,
        BarStyle::Spark,
        BarStyle::Cross,
        BarStyle::Progress,
        BarStyle::Thick,
        BarStyle::Wave,
        BarStyle::Pip,
    ];
    for style in styles {
        assert!(style.chars().is_some(), "{style:?} should have a char pair");
    }
    assert!(BarStyle::Braille.chars().is_none());
}

#[test]
fn bar_style_builder() {
    let s = BarSpinner::new(0).bar_style(BarStyle::Dot);
    assert_eq!(s.bar_style, BarStyle::Dot);
}

#[test]
fn loop_motion_wraps_at_right_edge() {
    let mut e = RectEngine::build(20, 1, 4, Spin::Clockwise, BarMotion::Loop);
    let last = e.char_w - 1;
    for _ in 0..200 {
        if e.anchor == last {
            break;
        }
        e.walk();
    }
    assert_eq!(e.anchor, last, "anchor should reach char_w-1");
    e.walk();
    assert_eq!(e.anchor, 0, "Loop CW should wrap to 0");
    assert!(e.going_forward, "Loop must not flip direction");
}

#[test]
fn loop_motion_wraps_at_left_edge_ccw() {
    let mut e = RectEngine::build(20, 1, 4, Spin::CounterClockwise, BarMotion::Loop);
    for _ in 0..200 {
        if e.anchor == 0 {
            break;
        }
        e.walk();
    }
    assert_eq!(e.anchor, 0);
    e.walk();
    assert_eq!(e.anchor, e.char_w - 1, "CCW Loop should wrap to char_w-1");
    assert!(!e.going_forward);
}

#[test]
fn bounce_still_reverses() {
    let mut e = RectEngine::build(20, 1, 4, Spin::Clockwise, BarMotion::Bounce);
    let max = e.char_w - e.arc_cols;
    for _ in 0..100 {
        if e.anchor == max {
            break;
        }
        e.walk();
    }
    e.walk();
    assert!(!e.going_forward, "Bounce must reverse at max_anchor");
}

#[test]
fn motion_builder() {
    let s = BarSpinner::new(0).motion(BarMotion::Loop);
    assert_eq!(s.motion, BarMotion::Loop);
}

#[test]
fn vertical_orientation_builder() {
    let s = BarSpinner::new(0).orientation(BarOrientation::Vertical);
    assert_eq!(s.orientation, BarOrientation::Vertical);
}

#[test]
fn vertical_renders_correct_row_count() {
    let h = 12usize;
    let lines = BarSpinner::new(0).orientation(BarOrientation::Vertical).width(3).build_lines(3, h);
    assert_eq!(lines.len(), h, "vertical bar should produce {h} lines");
}

#[test]
fn vertical_renders_correct_col_count() {
    let w = 4usize;
    let lines = BarSpinner::new(0).orientation(BarOrientation::Vertical).width(w).build_lines(w, 10);
    for line in &lines {
        assert_eq!(line.len(), w, "each row should have {w} spans");
    }
}

#[test]
fn vertical_loop_does_not_panic() {
    let lines = BarSpinner::new(99)
        .orientation(BarOrientation::Vertical)
        .motion(BarMotion::Loop)
        .width(2)
        .build_lines(2, 15);
    assert_eq!(lines.len(), 15);
}

#[test]
fn bar_spinner_to_lines_matches_build_lines() {
    let s = BarSpinner::new(3);
    assert_eq!(s.to_lines(20, 1), s.build_lines(20, 1));
    assert_eq!(s.to_lines(20, 2).len(), s.build_lines(20, 2).len());
}

// ── Further scenarios ────────────────────────────────────────────────────────

#[test]
fn bar_track_bytes() {
    assert_eq!(BarTrack::Rail.byte(), 0xC0);
    assert_eq!(BarTrack::Full.byte(), 0xFF);
    assert_eq!(BarTrack::Empty.byte(), 0x00);
    assert_eq!(BarTrack::Custom(0x12).byte(), 0x12);
}

#[test]
fn bar_fade_ramp_values() {
    assert_eq!(fade_byte(0, 3, 0xFF), FADE[0]);
    assert_eq!(fade_byte(1, 3, 0xFF), FADE[1]);
    assert_eq!(fade_byte(2, 3, 0xFF), FADE[2]);
    assert_eq!(fade_byte(3, 3, 0xFF), 0xFF);
    assert_eq!(fade_byte(0, 0, 0x3F), 0x3F);
}

#[test]
fn bar_first_frame_exact() {
    // 12 columns, arc of 4 from column 0, fade 3: ⠉ ⠛ ⠛ ⠉ then the rail.
    let s = BarSpinner::new(0).width(12).arc_width(4);
    let lines = s.build_lines(12, 1);
    assert_eq!(lines.len(), 1);
    let row = symbols(&lines[0]);
    let mut want = vec![braille(0x09), braille(0x1B), braille(0x1B), braille(0x09)];
    want.extend(std::iter::repeat(braille(0xC0)).take(8));
    assert_eq!(row, want);
    assert_eq!(lines[0][0].fg, Color::Cyan);
    assert_eq!(lines[0][4].fg, Color::DarkGray);
}

#[test]
fn bar_multi_row_has_no_fade() {
    let lines = BarSpinner::new(0).width(12).height(2).arc_width(4).build_lines(12, 5);
    assert_eq!(lines.len(), 2);
    for line in &lines {
        assert_eq!(line[0].symbol, braille(0xFF));
        assert_eq!(line[3].symbol, braille(0xFF));
    }
}

#[test]
fn bar_area_lines_auto_width_fills_area() {
    let s = BarSpinner::new(0);
    let lines = s.area_lines(30, 1);
    assert_eq!(lines[0].len(), 30);
    let fixed = BarSpinner::new(0).width(10);
    assert_eq!(fixed.area_lines(30, 1)[0].len(), 10);
}

#[test]
fn bar_presets() {
    let c = BarSpinner::claude(0);
    assert_eq!(c.height, 2);
    assert_eq!(c.arc_color, Color::Rgb(255, 165, 0));
    let m = BarSpinner::minimal(0);
    assert_eq!(m.track, BarTrack::Empty);
    assert_eq!(m.dim_color, Color::Black);
    assert_eq!(m.arc_color, Color::White);
}

#[test]
fn bar_squeeze_and_radiate_stay_in_range() {
    for motion in [BarMotion::Squeeze, BarMotion::Radiate] {
        let mut e = RectEngine::build(20, 1, 4, Spin::Clockwise, motion);
        for _ in 0..100 {
            e.walk();
            assert!(e.anchor <= (e.char_w - e.arc_cols) / 2);
        }
    }
}
