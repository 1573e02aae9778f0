# dvm

A small stack machine and the assembler for its text format, with the machine's semantics and
the assembler's passes proved in Verus.

- `src/` is the library. `semantics` states what every instruction does to the machine state;
  `vm` runs instructions against that statement; `frontend` parses source text, lowers it to an
  intermediate form, folds constants and assembles symbolic jumps; `cli` reads the command line
  and the debugger's commands; `perf_profile` decides the samples of a profile.
- The library does no float arithmetic and no I/O. When an instruction needs a float result,
  a host function, or output, a step says so (`StepOutcome`) and the caller does the work.
  The compiler takes the float reading and arithmetic it needs as closures.
- `app/` is the `dvm` command: files, the terminal, the host functions, float arithmetic, and
  writing Firefox Profiler profiles.
