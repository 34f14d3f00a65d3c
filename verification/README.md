# jsbsim_harness

Host side of the JSBSim WebAssembly flight-model module, as a Verus-verified
library plus the program that drives the module.

- `src/layout.rs`: little-endian byte images of flat records made of 32- and
  64-bit words, with both round-trip laws.
- `src/abi.rs`: the v1 ABI: status codes, the six records exchanged with the
  module (floating-point fields held as IEEE-754 bit patterns), `as_bytes`,
  `from_bytes`, record sizes.
- `src/pack.rs`: the `.jsbpack` container (optionally gzip), its parser and
  the law that a packed container reads back as the files packed.
- `src/wasi.rs`: the WASI `fd_write` gather, errno values, and the
  ground-query bridge (query counting and the reply record).
- `src/harness.rs`: scratch-buffer layout, the model-loading sequence as a
  state machine, the trajectory schedule, option lookup and run selection.
- `app/`: the wasmtime program: instantiation, guest memory I/O, the float
  geodesy, scenarios, trajectory CSV and its comparison.
