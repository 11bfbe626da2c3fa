# emulator

The instruction-execution engine of an AArch64 virtual machine, written in
Verus. `execute` applies one decoded instruction to the CPU and the system
bus, and its contract states the result exactly: the outcome, CPU state and
RAM it produces are those of the specification function `execute_step`.

## Layout

- `src/` — the verified library.
  - `cpu`, `pstate`, `sysregs`, `constants`, `instr`: architectural state, its
    abstract view (`CpuState`), and decoded instructions.
  - `le_bytes`, `memory`, `mmu`, `guest`, `guest_mapped`: little-endian
    byte encoding, RAM behind the bus, the three-level page-table walk, and
    guest accesses (byte by byte across page boundaries, and what such
    accesses amount to).
  - `dp_basic`, `dp_logic`, `dp_arith`, `bitops`: integer data processing.
  - `load_store`, `structure`, `load_pair`, `exclusive`, `cache`: loads,
    stores, exclusives, atomics and DC ZVA / DC GVA.
  - `branch`, `system`, `timer`: control flow, system instructions,
    exception entry and return, timer interrupts.
  - `simd`, `simd_lanes`, `simd_crypto`, `simd_data`: Advanced SIMD.
  - `sve`, `sve_count`, `sve_vec`, `sve_pred`, `sve_perm`, `sve_mem`: SVE.
  - `execute`: the dispatcher and its contract; `guest_string`: reading a
    printable string out of guest memory.
  - `laws`: properties that relate several operations (exception round
    trips, read-after-write at the bus, guest and instruction levels,
    exclusive pairs, LD4 / ST4 round trips, system-register round trips, PC
    and cycle counting, failed instructions not being retired, SIMD
    upper-half clearing).
- `tests/`: instruction scenarios and the laws on concrete values.
- `app/`: diagnostic dumps of guest state, and the SVE operations whose
  arithmetic is IEEE floating point (FDUP / FCPY, which only expand an
  immediate's bits, are in `sve_vec`).

## Not modelled

- The software TLB: every access walks the page tables, which is what a
  TLB that never holds a stale entry gives; TLBI has nothing to invalidate.
- Devices behind the system bus (UART, interrupt controller): the bus
  holds RAM only; reads elsewhere fail and writes elsewhere are dropped.
- Instructions the decoder produces but `Opcode` has no variant for: BRK,
  UDF, the pair atomics, DC GZVA, the single-structure LD4 / ST4 forms, the
  SME forms, scalar floating point, and about forty Advanced SIMD
  operations (among them the widening integer forms USHLL, SSHLL, SHLL,
  UMLAL and SSUBW).
- Errors are reported by kind (`ExecError`), not as message text.

