# simulacra

Seven small generative pieces — a pong court that never stops filling (rally), balloons full of
animals (popped), a fireworks show (spectacle), a desert under thunderheads (thunderhead), a pond
(pond), a painting that heals (starry) and a glazed sky (parrish) — split in two.

- `src/` is the library, written in Verus and verified: everything in the pieces that is
  counted, ordered, parsed or decided. Each module states what its functions return in
  `ensures` clauses over mathematical models, and states the promises that span functions
  (what a schedule adds, what a queue never holds twice, what a parse gives back of a write)
  as proof functions.
  - `text`, `payload`: decimal numbers written to and read from the command channel.
  - `keys`: key repeat.
  - `grid`: row-major grids.
  - `rally`, `popped`, `spectacle`, `thunderhead`, `pond`, `starry`, `parrish`: one module per
    piece.
- `tests/` runs the library on concrete values.
- `app/` is the program around it: the engine that runs the tick, the window, and the parts of
  each piece that are measured in floating point. `simulacra <piece>` runs one of them.
