# em6809-core

A verified emulator core for the Motorola MC6809: CPU, bus, MC6829 MMU, MC6850
console, disk, GPIO and timer, disassembler, debugger primitives, program
loaders, an MMU configuration language and boot scripts. It is written in Verus:
every function states what it does, and Verus proves it.

## Layout

| Path | Contents |
|---|---|
| `src/alu.rs`, `src/cpu.rs`, `src/cpu/` | flags and arithmetic, instruction set, machine model, execution, trace lines |
| `src/bus.rs`, `src/mmu.rs`, `src/io.rs`, `src/io/`, `src/timer.rs` | buses and devices |
| `src/disasm.rs`, `src/debug.rs`, `src/debug/` | listings, breakpoints, conditions, call stack, dumps |
| `src/loader.rs`, `src/config.rs`, `src/bootscript.rs` | images, MMU configurations, boot scripts |
| `src/text.rs`, `src/sorted.rs` | text and sorted lists |
| `src/laws.rs`, `src/laws/` | what holds across operations, as proved theorems |
| `tests/` | runtime tests |
| `app/` | the host side: terminal, files, process-wide switches |

## How the core is specified

A bus and a device have a view, which is their whole state, and spec functions
that say what each operation returns and what the state is behind it. A CPU with
its bus is a value of `cpu::machine::Mach`, and `Mach::step` is one instruction
with the interrupt behind it. `Cpu::step` is proved to follow it on every bus.

The core does no input or output of its own. What it would print or write is
queued: `Cpu::take_log`, `Mc6850Dev::take_output`, `BlockDev::take_mirror` and
the like hand it to the host.

## What is trusted

`text::lowercase` stands for `str::to_lowercase`, and the contract of
`String::push` is stated in `src/text.rs`. Everything else rests on Verus and
its standard library.
