# kermit

The verified core of a small x86-64 kernel, written in Verus.

- `src/` is the library. Every function there carries a contract that Verus
  proves: the four-level page-table walk and its frame allocator
  (`paging`), the ELF header readers, load plan and initial user stack
  (`elf`), the round-robin process table (`proc`), the 8259 and PIT
  programming sequences (`apic`, `pit`), the ACPI root-pointer search and
  table headers (`acpi`, `acpica`), the heap bump pointer (`mem`, `pages`),
  interrupt dispatch (`interrupts`) and the system calls (`syscalls`).
- `app/` is the kernel around it: the entry point, port and memory access,
  the descriptor tables, assembly entry stubs and the ACPICA binding. It
  hands the library plain values and performs the reads and writes the
  library plans.
- The page tables live in `PageMemory`: frames at their physical
  addresses, those the allocator handed out and those loaded from elsewhere
  (the boot tables of the kernel half). When a walk meets a table that is
  not held yet, it changes nothing and names that table; the kernel loads it
  and walks again.
- `tests/` runs the library on concrete values.
