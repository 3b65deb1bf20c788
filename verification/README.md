# moyuan_kernel

The core of the MOYUAN OS microkernel as a Verus-verified library, with the
hardware layer around it.

- `src/` — the verified kernel services: physical frame allocation and
  four-level page tables (`mm`), processes and round-robin scheduling
  (`task`), pipes, semaphores and shared memory (`ipc`), the system-call
  dispatcher (`syscall`), the interrupt table and timer (`interrupt`), the
  VGA console and keyboard (`console`), power, CPU-frequency and device power
  management with ACPI table parsing (`power`), users, groups and file
  permissions (`security`), and the enclave scheduler (`enclave_scheduler`).
  Each operation states its effect on a mathematical model of its state;
  cross-operation properties are public proof functions named `law_*`.
- `app/` — the kernel image: boot entry, port I/O and inline assembly,
  interrupt handlers, global state behind spin locks, the file service, and
  the context-switch code.
- `tests/` — tests of the library on concrete values.
