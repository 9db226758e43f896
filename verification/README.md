# bigos

The decisions of a small x86_64 kernel and of its build tool, with their
behaviour stated as Verus contracts and proved.

- `src/` is the verified library. Each module computes what the hardware
  side then carries out: `cpuinfo` decodes CPUID, `apic` and `interrupts`
  plan the register writes of the local APIC, the I/O APIC and the timer and
  lay out the interrupt descriptor table, `gdt` lays out the descriptor table
  and the guarded per-core stacks, `stack_guard` walks and splits page tables
  to unmap a guard page, `boot_common` and `msr` hold the boot-time bit
  arithmetic, `testing` the test-exit protocol, and `xtask` the build tool's
  parsing of sources, command lines and logs. `text` holds the string
  helpers that the others share.
- `tests/` runs the library on concrete values.
- `app/` is the unverified shell: the build tool's `main` with its processes
  and files, and the kernel's register, port and page-table accesses.
