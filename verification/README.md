# assetcache

A client for the content-cache registration service. It loads the signing
image (an x86-64 Mach-O file) either into its own process or into an
emulator, binds the image's system imports to stand-ins, and calls the
image to create, obtain and sign sessions.

## Layout

- `src/` — the verified library (Verus):
  - `emu.rs`: page rounding, little-endian words, argument slots, C strings.
  - `hexcodec.rs`, `text.rs`: hex text and string comparison.
  - `macho.rs`: the load plan of an image (size, segment copies, import
    pointers) and the relocation of words once it is placed.
  - `macho_check.rs`: a scan of the load commands and bind opcodes that
    refuses, before parsing, the files the Mach-O parser could not read
    without failing.
  - `reloc_table.rs`: the text list of relocation offsets and its binary form.
  - `mac_serial.rs`: the machine identity and how it is normalised.
  - `patch/emulator.rs`: the emulated system — syscall stubs and their
    dispatch, the object store, the heap, the data words, call set-up.
  - `patch/syscall.rs`: one syscall of the emulated image as a step from
    state and arguments to the next state and an action for the emulator.
  - `patch/native.rs`: the stand-ins used when the image runs natively.
    In both modes the registry answers come from the configured machine
    identity (`mac.toml`).
  - `osx.rs`: import binding on a macOS host.
- `tests/` — tests of the library.
- `app/` — the program around it: memory mapping, raw calls into the image,
  the emulator's hooks, file and configuration input.
