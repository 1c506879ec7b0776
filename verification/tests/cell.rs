use tui_spinner::cell::{blank_grid, braille_char, pack_cell, ring_glyph};
use tui_spinner::{Cell, Color};

#[test]
fn braille_char_maps_bytes_to_glyphs() {
    assert_eq!(braille_char(0x00), '\u{2800}');
    assert_eq!(braille_char(0x09), '⠉');
    assert_eq!(braille_char(0xC0), '⣀');
    assert_eq!(braille_char(0xFF), '⣿');
}

#[test]
fn pack_cell_bit_layout() {
    // One dot at a time: left column rows 0..3 are bits 0, 1, 2, 6; right
    // column rows 0..3 are bits 3, 4, 5, 7.
    let weights = [[1u8, 8], [2, 16], [4, 32], [64, 128]];
    for r in 0..4usize {
        for c in 0..2usize {
            let mut g = blank_grid(4, 2);
            g[r][c] = true;
            assert_eq!(pack_cell(&g, 0, 0), weights[r][c]);
        }
    }
    let mut g = blank_grid(8, 4);
    for row in g.iter_mut() {
        for d in row.iter_mut() {
            *d = true;
        }
    }
    assert_eq!(pack_cell(&g, 1, 1), 0xFF);
    // Outside the grid counts as unset.
    assert_eq!(pack_cell(&g, 2, 0), 0);
}

#[test]
fn ring_glyph_prefers_lit_dots() {
    assert_eq!(ring_glyph(0x01, 0x02, Color::Cyan, Color::Gray), Cell { symbol: '⠁', fg: Color::Cyan, bold: false });
    assert_eq!(ring_glyph(0, 0x02, Color::Cyan, Color::Gray), Cell { symbol: '⠂', fg: Color::Gray, bold: false });
    assert_eq!(ring_glyph(0, 0, Color::Cyan, Color::Gray), Cell { symbol: '\u{2800}', fg: Color::Gray, bold: false });
}
