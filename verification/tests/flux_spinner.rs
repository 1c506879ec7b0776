use tui_spinner::flux_spinner::FRAMES;
use tui_spinner::{Alignment, Cell, Color, FluxSpinner, Spin};

fn symbols(lines: &[Vec<Cell>]) -> Vec<Vec<char>> {
    lines.iter().map(|l| l.iter().map(|c| c.symbol).collect()).collect()
}

#[test]
fn all_frames_are_distinct() {
    let mut seen = std::collections::HashSet::new();
    for &b in &FRAMES {
        assert!(seen.insert(b), "duplicate frame byte 0x{b:02X}");
    }
}

#[test]
fn all_frames_are_full_minus_one_dot() {
    for &b in &FRAMES {
        assert_eq!(b.count_ones(), 7, "frame 0x{b:02X} should have 7 bits set (one dot missing)");
    }
}

#[test]
fn frames_cover_all_eight_bit_positions() {
    let cleared_bits: Vec<u8> = FRAMES.iter().map(|&b| (!b) & 0xFF).collect();
    for (i, &mask) in cleared_bits.iter().enumerate() {
        assert_eq!(mask.count_ones(), 1, "frame {i}: cleared mask 0x{mask:02X} should have exactly 1 bit");
    }
    let combined: u8 = cleared_bits.iter().fold(0u8, |acc, &m| acc | m);
    assert_eq!(combined, 0xFF, "all 8 dot positions must be covered");
}

#[test]
fn cw_advances_each_tick() {
    let f0 = FluxSpinner::new(0).spin(Spin::Clockwise).build_lines();
    let f1 = FluxSpinner::new(1).spin(Spin::Clockwise).build_lines();
    assert_ne!(f0, f1, "consecutive ticks should produce different frames");
}

#[test]
fn cw_wraps_after_eight_steps() {
    let f0 = FluxSpinner::new(0).spin(Spin::Clockwise).build_lines();
    let f8 = FluxSpinner::new(8).spin(Spin::Clockwise).build_lines();
    assert_eq!(f0, f8, "should wrap back to frame 0 after 8 ticks");
}

#[test]
fn flux_spinner_ticks_per_step_slows_animation() {
    let a = FluxSpinner::new(0).ticks_per_step(4).build_lines();
    let b = FluxSpinner::new(3).ticks_per_step(4).build_lines();
    assert_eq!(a, b, "ticks 0–3 should all be frame 0 when ticks_per_step=4");
    let c = FluxSpinner::new(4).ticks_per_step(4).build_lines();
    assert_ne!(a, c, "tick 4 should advance to frame 1");
}

#[test]
fn flux_spinner_cw_and_ccw_differ_at_same_tick() {
    let cw = FluxSpinner::new(1).spin(Spin::Clockwise).build_lines();
    let ccw = FluxSpinner::new(1).spin(Spin::CounterClockwise).build_lines();
    assert_ne!(cw, ccw, "CW and CCW should produce different frames at tick 1");
}

#[test]
fn cw_and_ccw_agree_at_tick_zero() {
    let cw = FluxSpinner::new(0).spin(Spin::Clockwise).build_lines();
    let ccw = FluxSpinner::new(0).spin(Spin::CounterClockwise).build_lines();
    assert_eq!(cw, ccw, "both directions share frame 0 at tick 0");
}

#[test]
fn ccw_is_reverse_of_cw() {
    let cw_1 = FluxSpinner::new(1).spin(Spin::Clockwise).build_lines();
    let ccw_7 = FluxSpinner::new(7).spin(Spin::CounterClockwise).build_lines();
    assert_eq!(cw_1, ccw_7, "CW tick 1 should equal CCW tick 7");
}

#[test]
fn ccw_wraps_after_eight_steps() {
    let f0 = FluxSpinner::new(0).spin(Spin::CounterClockwise).build_lines();
    let f8 = FluxSpinner::new(8).spin(Spin::CounterClockwise).build_lines();
    assert_eq!(f0, f8, "CCW should wrap back to frame 0 after 8 ticks");
}

#[test]
fn ccw_wave_differs_from_cw_wave() {
    let cw = FluxSpinner::new(1).width(4).phase_step(1).spin(Spin::Clockwise).build_lines();
    let ccw = FluxSpinner::new(1).width(4).phase_step(1).spin(Spin::CounterClockwise).build_lines();
    assert_ne!(cw, ccw, "CW and CCW waves should differ for width>1 at tick 1");
}

#[test]
fn phase_step_zero_all_cells_same() {
    let lines = FluxSpinner::new(0).width(4).phase_step(0).build_lines();
    let cells = &lines[0];
    let first = cells[0].symbol;
    for c in cells.iter().skip(1) {
        assert_eq!(c.symbol, first, "phase_step=0 → all cells identical");
    }
}

#[test]
fn phase_step_one_cells_differ() {
    let lines = FluxSpinner::new(0).width(4).phase_step(1).build_lines();
    for pair in lines[0].windows(2) {
        assert_ne!(pair[0].symbol, pair[1].symbol, "adjacent cells should differ with phase_step=1");
    }
}

#[test]
fn phase_step_eight_wraps_to_same() {
    let base = FluxSpinner::new(0).width(3).phase_step(0).build_lines();
    let wrap = FluxSpinner::new(0).width(3).phase_step(8).build_lines();
    assert_eq!(base, wrap, "phase_step=8 should behave like phase_step=0");
}

#[test]
fn output_dimensions_match_width_height() {
    for w in 1..=5usize {
        for h in 1..=3usize {
            let lines = FluxSpinner::new(0).width(w).height(h).build_lines();
            assert_eq!(lines.len(), h, "height={h}");
            for (i, line) in lines.iter().enumerate() {
                assert_eq!(line.len(), w, "row {i}: width={w}");
            }
        }
    }
}

#[test]
fn char_size_returns_width_height() {
    let s = FluxSpinner::new(0).width(4).height(2);
    assert_eq!(s.char_size(), (4, 2));
}

#[test]
fn char_size_clamps_to_one() {
    let s = FluxSpinner::new(0).width(0).height(0);
    let (w, h) = s.char_size();
    assert!(w >= 1);
    assert!(h >= 1);
}

#[test]
fn flux_spinner_builder_chain() {
    let s = FluxSpinner::new(99)
        .width(6)
        .height(2)
        .spin(Spin::CounterClockwise)
        .color(Color::Green)
        .ticks_per_step(3)
        .phase_step(2)
        .alignment(Alignment::Center);
    assert_eq!(s.width, 6);
    assert_eq!(s.height, 2);
    assert!(matches!(s.spin, Spin::CounterClockwise));
    assert_eq!(s.color, Color::Green);
    assert_eq!(s.ticks_per_step, 3);
    assert_eq!(s.phase_step, 2);
}

#[test]
fn output_contains_only_valid_braille() {
    for tick in 0..8u64 {
        for spin in [Spin::Clockwise, Spin::CounterClockwise] {
            let lines = FluxSpinner::new(tick).width(4).height(2).spin(spin).build_lines();
            for line in &lines {
                for cell in line {
                    let ch = cell.symbol;
                    assert!(('\u{2800}'..='\u{28FF}').contains(&ch), "character U+{:04X} is not a braille glyph", ch as u32);
                }
            }
        }
    }
}

// ── Further scenarios ────────────────────────────────────────────────────────

#[test]
fn flux_clockwise_sequence() {
    let want = ['⣾', '⣷', '⣯', '⣟', '⡿', '⢿', '⣽', '⣻'];
    for (tick, &ch) in want.iter().enumerate() {
        let lines = FluxSpinner::new(tick as u64).build_lines();
        assert_eq!(symbols(&lines), vec![vec![ch]]);
    }
}

#[test]
fn flux_counter_clockwise_sequence() {
    let want = ['⣾', '⣻', '⣽', '⢿', '⡿', '⣟', '⣯', '⣷'];
    for (tick, &ch) in want.iter().enumerate() {
        let lines = FluxSpinner::new(tick as u64).spin(Spin::CounterClockwise).build_lines();
        assert_eq!(symbols(&lines), vec![vec![ch]]);
    }
}

#[test]
fn flux_wave_rows() {
    let rows = [
        vec!['⣾', '⣷', '⣯', '⣟', '⡿', '⢿'],
        vec!['⣷', '⣯', '⣟', '⡿', '⢿', '⣽'],
        vec!['⣯', '⣟', '⡿', '⢿', '⣽', '⣻'],
    ];
    for (tick, row) in rows.iter().enumerate() {
        let lines = FluxSpinner::new(tick as u64).width(6).build_lines();
        assert_eq!(symbols(&lines), vec![row.clone()]);
    }
}

#[test]
fn flux_second_row_continues_phase() {
    // Cell indices run row-major, so row 1 of a 3-wide spinner starts at
    // frame 3.
    let lines = FluxSpinner::new(0).width(3).height(2).build_lines();
    assert_eq!(symbols(&lines), vec![vec!['⣾', '⣷', '⣯'], vec!['⣟', '⡿', '⢿']]);
    assert!(lines.iter().flatten().all(|c| c.fg == Color::Cyan && !c.bold));
}

#[test]
fn flux_period_of_eight_holds_beyond_byte_wrap() {
    for tick in [250u64, 255, 256, 1000, 4096] {
        let a = FluxSpinner::new(tick).width(5).phase_step(3).build_lines();
        let b = FluxSpinner::new(tick + 8).width(5).phase_step(3).build_lines();
        assert_eq!(a, b);
    }
}
