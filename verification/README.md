# kernel

A small x86_64 research kernel with memory protection keys, a system-call
interface and a polling virtio-net driver, built around a library whose
logic is verified with Verus.

- `src/` — the verified library: protection-key register fields (PKRU,
  PKRS, page-table entries), page-table entry decoding and page walks, the
  system-call encoding, the heap-region choice, the task executor's
  bookkeeping, the user-mode page list, the TCP/HTTP server decisions, and
  the virtio-net driver (PCI capability discovery, split virtqueues, queue
  pairs and the TX buffer pool).
- `tests/` — tests of the library on concrete values.
- `app/` — the hardware side: port, MSR and control-register access,
  page-table memory, the `int 0x80` entry, the heap allocator, the run
  loops, and the register reads and writes of the device bring-up. Every
  decision it acts on is taken by the library.
