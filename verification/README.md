# hypomnesis

Process RAM and GPU memory, measured: a Verus library and the `hmn` program around it.

The library (`src/`) holds everything between the raw answers of the operating system and
the text on the screen, each public function with its contract:

- `gpu`: the backends (NVML, DXGI, performance counters, Metal, `nvidia-smi`), what their
  answers mean, and which of them decides;
- `ram`, `snapshot`, `report`: resident memory, snapshots, and the difference of two;
- `spill`, `spill_laws`, `tracker`: detection of GPU memory spilling into system memory,
  and what the fold over observations amounts to for whole histories;
- `cli`: the subcommands `hmn`, `hmn ps`, `hmn spill` and `hmn watch`, as steps from a state
  and an event to a state, an action and text;
- `text`, `number`, `rounding`, `units`, `time`, `json`, `table`, `utf`, `sort`: the ground
  that the rest stands on. `rounding` states what binary64 arithmetic prints, in integers.

Proof functions named `law_…` state what holds of several functions together.

The program (`app/`) makes the calls into drivers and the operating system and runs the
loops. What is taken on trust are five functions of the standard library: `String::push`,
`char::from_u32`, `String::from_utf8_lossy`, `core::str::from_utf8`, and the `Debug`
rendering of a string.
