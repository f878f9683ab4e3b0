# plotta

A pen-plotter drawing toolkit whose core is verified with Verus.

- `src/` is the verified library: EiBotBoard (AxiDraw) command texts and
  responses, SM/LM stepper commands with their motor-safety adjustment,
  time-sliced moves that land on their exact step totals, pen servo timing,
  the course of a plot (which steps are taken and which events reported),
  Hershey JHF font parsing and glyph tables, a font registry, the
  character plan of text layout, SVG colour, path-data and travel-line
  text, and plot-time text.
  Every public function carries a contract over spec functions; the laws
  that span functions are public proof functions.
- `tests/` runs the library on concrete values.
- `app/` holds what runs around the library: the floating-point scene graph
  (shapes, transforms, curve flattening, clipping, text), the serial
  connection and background plotting, motion planning, stroke ordering,
  font files, SVG fonts, SVG import and output, frames and hatching.
