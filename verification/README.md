# bc_trade_runtime

The core of a trading runtime, verified with Verus.

- `src/matrix.rs`: the model of a run of rows (`rows_view`, `transposed`,
  `rotated_left`) and the verified transpose, rotation, row copy and
  rectangularity check.
- `src/buffer.rs`: `Buffer<T>`, a sliding window of market rows, with its
  rolling updates, transposition and accessors; the laws of the window
  (transposing twice, rolling by one row, rolling in two parts).
- `src/stage.rs`: the pipeline stages, their names and the plans that say
  which stages a run goes through when asked to stop after a named stage.
- `app/`: the gateways, their values and state and the runtime that drives
  them; it calls the gateway crates and follows the library's plans.
