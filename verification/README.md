# fractals_tui

A terminal fractal explorer that draws with Unicode braille characters
(2 x 4 sub-pixels per cell), split into a verified core and a thin front end.

- `src/` (Verus): the braille encoding (`render::braille`), the palettes and
  their gradient tables (`render::color`), the key and mouse bindings and the
  interaction state they drive (`app`), the autopilot's state machine and
  the grid of points it scores (`autopilot`). Each public function states its
  result exactly; the proof functions state the laws the explorer keeps
  (fractal and palette cycling, iteration-depth limits, the braille bit
  layout, the autopilot hand-over on mouse input, and more).
- `app/`: the terminal loop (crossterm, ratatui), escape-time iteration and
  all complex-plane geometry (floating point), parallel evaluation (rayon),
  and colour interpolation. It turns terminal events into the library's
  events and carries out the view changes the library asks for.
- `tests/`: concrete scenarios for every public function and law.
