# x86_paging

Addresses, pages, frames and TLB commands of the x86_64 architecture, with their behaviour
stated in Verus contracts and proved.

- `src/addr.rs`: `VirtAddr` (canonical virtual addresses, sign extension of bit 47, table
  indices, page offset) and `PhysAddr` (52-bit physical addresses), and the alignment
  functions `align_down` and `align_up`.
- `src/structures/paging/`: the page sizes, `Page` and `PhysFrame` with their arithmetic,
  the four kinds of page and frame ranges, and `laws.rs`, the properties that relate several
  of these operations.
- `src/instructions/tlb.rs`: `Pcid` and the operands of the `invpcid` instruction.
- `src/bits.rs`, `src/text.rs`: the calls into `bit_field` and into hexadecimal formatting.
- `app/`: the instructions themselves (`hlt`, `invlpg`, `invpcid`, reloading CR3) and the
  conversions from and to the types of `ux` and `os_bootinfo`.
