# cosmos

The verified core of a terminal screensaver in which a universe runs through
its lifecycle — Darkness → Big Bang → Expansion → Accretion → Singularity →
Collapse → Darkness — around a live caption with the host's OS name and kernel.

`src/` holds the parts of the effect that are exact, integer or textual, each
with a contract proved by Verus:

- `lifecycle` — the phases and the rule for leaving one, with the six-phase cycle proved;
- `history` — fixed-window particle trails, with the window law proved;
- `logo` — caption rows cut to width and the grid cell of every caption letter;
- `grid` — the terminal cell, cell addressing, plotting and clearing;
- `color`, `merge` — color blending, tints and averages, and what two merging seeds become;
- `select`, `budget`, `host` — counting and removing flagged bodies, spawn and
  quality budgets, and the host facts the effect reads.

`app/` holds the floating-point physics and rendering that drive the effect,
calling the library for every decision listed above.
