//! The verified core of a small x86-64 kernel: page tables and the frames
//! behind them, the initial stack and loading plan of ELF programs, the
//! process table, interrupt-controller and timer programming, ACPI table
//! discovery, and the system calls it answers.
pub mod acpi;
pub mod acpica;
pub mod apic;
pub mod elf;
pub mod gdt;
pub mod interrupts;
pub mod mem;
pub mod pages;
pub mod paging;
pub mod pit;
pub mod proc;
pub mod syscalls;
