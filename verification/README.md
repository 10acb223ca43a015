# pocket_character

The verified core of a desktop character widget: a seeded PCG32 stream and
the idle-behaviour schedule drawn from it (blink intervals, eye saccades and
their interval table), the widget's discrete control state (hover events,
guest commands, frame budget), and the launch-option parsing.

- `src/pcg.rs`: the generator, specified over its 64-bit state.
- `src/behavior.rs`: tracking modes, the saccade table, the draws of a tick.
- `src/widget.rs`: events, commands and their effects, the frame counter.
- `src/cli.rs`: flags, decimal and `WxH` parsing, the run mode.
- `app/`: the floating-point simulation, the QuickJS guest surface, the
  renderer host and `main`.
