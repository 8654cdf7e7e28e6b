# CrabBoy

The cores of a multi-system emulator: a Game Boy / Game Boy Color machine, a
Game Boy Advance machine, the PICA200 graphics unit, and IEEE 754 arithmetic on
integers. Every function under `src/` carries a contract that Verus proves,
except for a handful of calls into `std` (text and boxed arrays, in
`emu/text.rs` and `emu/mem.rs`) whose contracts are taken from its
documentation. The emulation path is integer-only and deterministic.

```
src/
  bits.rs      Bit and byte facts that the cores share
  emu/         Screens, frames, audio, input, storage, save-state fields
  gb/          Game Boy / Game Boy Color
  gba/         Game Boy Advance
  pica/        Command lists, shader units, display transfers
  softfloat/   Single and double precision with correct rounding
tests/         Runs of the library on concrete values
app/           What frontends hold: the System and Host traits, files, floats
```

Each machine is modelled by a plain value (`Machine`, `GbaState`), and each
operation by a spec function on it: `step` leaves the machine in
`stepped()`, a frame is so many steps, a save state is the bytes that
`put_state` lists. `softfloat` is specified by exact numbers: an operation
returns the exact result rounded once.

Properties that span functions stand in proof functions whose names begin with
`law_`: a restored state is the one that was saved, memory reads back, a frame
takes a fixed number of cycles, directed rounding brackets the exact result.
