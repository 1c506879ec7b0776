# tui_spinner

Animated spinner frames for terminal user interfaces, verified with Verus.

Every spinner is stateless: given a `tick` counter it renders one frame of
its animation as rows of `Cell`s (a glyph, a colour and a bold flag).

- `src/` — the verified library: the frame logic of each spinner with its
  contract, and the laws the animations keep (periods, bounces, wrap-around,
  symmetry between directions).
  - `cell.rs` colours, cells and braille packing
  - `bar_spinner.rs` bouncing / looping bar
  - `circle_spinner.rs` midpoint circle, clockwise ordering, rotating arc
  - `flux_spinner.rs` rotating braille gap and phase wave
  - `linear_spinner.rs` scrolling window and bouncing dot
  - `rect_spinner.rs` square ring with a thick rotating arc
  - `rectangular_spinner.rs` arc bouncing along a rectangle's perimeter
  - `square_spinner.rs` the square ring configured by size
- `app/` — the ratatui widgets: blocks, styles, colour conversion and
  drawing the library's frames into a buffer.
- `tests/` — tests of the library on concrete values.
