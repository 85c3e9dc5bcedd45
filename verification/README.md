# rpi4_kernel

The verified core of a small AArch64 kernel for the Raspberry Pi 4, with its
boot stage and two host tools.

`src/` is the library; its contracts are proved with Verus:

- `descriptors`: 64 KiB-granule table and page descriptors and their bit layout.
- `mmu`, `translation_tables`: which descriptor words go to which translation
  table entries for the initial mappings, and the laws that make the table walk
  reach them.
- `gpio`: function-select and pull-control register fields.
- `mailbox`, `framebuffer`, `peripherals`: VideoCore mailbox words, property
  messages, framebuffer negotiation and pixel addressing.
- `uart`, `timer`: UART bring-up and transmit plans; the order in which the
  system timer's halves are read, and the busy-wait decisions.
- `snake`: the snake demo game, its screen layout and its main-loop decisions.
- `console`: the 4096-byte console history, the screen lines shown of it and
  where each glyph goes.
- `exception`: the system-call decisions for exceptions from user space.
- `image`, `gpio_input`: the boot image layout and QEMU GPIO key mirroring.

`app/` performs the hardware and host work (MMIO, system registers, barriers,
floating-point colours, files, sockets) around those decisions.
