# lib

The logic of a small x86_64 hobby kernel, written in Verus and proved
against its contracts: what each function returns and how it changes its
arguments is stated in `requires` / `ensures` over mathematical models
(`Seq`, `Map`, `int`), and Verus checks every body against them.

## Layout

- `src/` — the verified library.
  - `codec.rs` — byte-order helpers and the few calls into `std` that vstd
    does not specify (`String::from_utf8_lossy`, `String::push`).
  - `net/` and `net.rs` — Ethernet, ARP, IPv4, ICMP, UDP and TCP packet
    codecs with round-trip laws, the socket table and the TCP state machine.
  - `fs/` — paths (normal form and its laws), FAT volumes and directory
    entries, the initramfs view, and the virtual file system with its
    descriptors, pipes and mounts.
  - `mem/` — the frame bitmap allocator, the heap's hole list, a vector
    held in allocated frames, and page table entries.
  - `graphics/` — layers and drawing (pixels, rectangles, glyphs, Bresenham
    lines with Cohen–Sutherland clipping), the frame buffer, the text
    console and terminal state machines, and the window manager.
  - `task/` and `task.rs` — tasks, the cooperative executor and the
    scheduler.
  - `mem_vis.rs`, `net_vis.rs`, `syscall_vis.rs` — the state behind the
    kernel's monitoring views.
- `tests/` — tests on concrete values, run against the compiled library.
- `app/` — a host program that reads a PSF font and text, runs the terminal
  over them and draws the result; it performs the I/O the library leaves
  to its caller.

Public proof functions named `lemma_*` state the library's laws, for example
that freeing an allocation restores the heap's hole list, that normalizing
a path is idempotent, and that reading after a write and a seek gives back
what was written.
