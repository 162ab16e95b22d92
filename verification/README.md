# beautiful_tetris

A Tetris engine whose rules are proved with Verus, and a small macroquad
program that plays it.

- `src/pieces.rs`: the seven kinds, their rotation tables, pieces and cells.
- `src/rng.rs`: the generator that draws kinds.
- `src/board.rs`: collision, falling, locking and line clearing on the board.
- `src/accounting.rs`: counting blocks and full rows; a lock clears at most
  four rows and keeps four blocks per piece less ten per cleared row.
- `src/features.rs`: column heights, holes, wells and the other measurements
  the bot weighs.
- `src/search.rs`: every placement of a kind from a start row.
- `src/model.rs`: the game state as plain values and what each action does.
- `src/game.rs`: the game itself; every action is proved to do what the model
  says and to keep the model's invariant.
- `src/ai.rs`: the bot's next action toward a chosen placement.
- `src/feedback.rs`: which sound an action earns and how the piece trail advances.
- `src/wav.rs`: encoding 16-bit samples as a WAVE file.
- `src/laws.rs`: properties across actions (holding once per piece, hard drops
  always lock, counters grow by at most four rows and one piece per action,
  moves undo each other, clearing is idempotent, ...).
- `app/main.rs`: input, drawing, sound synthesis and playback, the frame loop
  and the bot's floating-point scoring of placements.

Verify with Verus on `src/lib.rs`; `tests/` runs the engine on concrete games.
