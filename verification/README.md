# pong_wars_core

Pong Wars: a day ball and a night ball fight over a 32×32 grid, each
flipping the cells it touches to its own team and bouncing off them.

- `src/` — the verified library: the RGB565 palette (`color`), colour
  widening to RGB888/ARGB (`convert`), the grid with its scoring and
  cell-claiming rules (`grid`), LED-panel rendering (`render`) and the
  decisions of the simulator and firmware loops (`controls`).
- `app/` — the desktop simulator: the floating-point ball physics
  (`app/game.rs`), the window, keyboard and clock.
- `tests/` — tests of the library.
