# AArch64 kernel logic, verified

A minimal bare-metal kernel for the QEMU `virt` machine (AArch64). The crate
under `src/` holds its logic, proved with Verus:

- `allocator`: the first-fit bitmap allocator of 4 KiB physical frames
  between `0x4000_0000` and `0xa000_0000`, with the laws that relate
  allocation, freeing and the count of free frames;
- `layout`: the size-and-alignment requests that the allocator serves;
- `mmu`: translation descriptors, the identity map of the low 2 GiB, and a
  model of the translation walk under which the map is proved to be the
  identity (and to fault above 2 GiB);
- `exception`: decoding of the exception syndrome and the handler's decision
  to resume;
- `uart`: transmissions through the PL011 UART, as a state machine that a
  driver feeds with flag-register reads, and hexadecimal output;
- `bits`: facts about powers of two and masks.

`app/` is the kernel around it: reset entry, vector table, system registers,
memory-mapped registers, the spin lock and the global allocator.
`tests/` exercises the library on concrete values.
