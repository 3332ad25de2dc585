# tennessee_eastman

A digital twin of the Tennessee Eastman process (Downs & Vogel, 1993): a
verified library (`src/`) and the simulator program around it (`app/`).

## Library (verified with Verus)

- `params` — the plant's sizes (50 states, 12 XMV, 20 IDV, 41 XMEAS).
- `metadata` — variable tables; every entry's 1-based tag (`XMEAS(9)`)
  matches its 0-based index (`8`).
- `controllers` — the `Controller` trait, the P controller's configuration
  and updates, and the `ControllerBank` that holds controllers by id and
  applies them in order.
- `runtime` — the decisions of the simulation loop (`LoopState`): start-up
  ramp, interlock shutdown, time limit, quitting, pacing and whether the final
  snapshot is written; and the 1-based IDV selection.
- `csv` — the log's column layout and header.
- `state_file` — the state snapshot file: its layout, writing, reading, and
  the proof that reading a written file gives back the written state.
- `snapshot`, `sensor`, `signals`, `config` — alarms, sensors, vector copies
  and the model / integrator choices.

The library is generic over the sample type where it holds plant values; it
contains no floating-point arithmetic.

## Program

`app/` holds the floating-point model, the integrators (Euler, RK4), the TEP
subroutines, the control law, the terminal dashboard and the file I/O.
