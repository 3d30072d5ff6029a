use vstd::prelude::*;

verus! {

/// Number of bytes of addressable memory.
pub const MEMORY_SIZE: usize = 4096;

/// Whether the two bytes of a word at `addr` both lie inside memory.
pub open spec fn word_in_bounds(addr: int) -> bool {
    0 <= addr && addr + 1 < MEMORY_SIZE
}

/// The big-endian 16-bit word whose high byte is at `addr`.
pub open spec fn word_at(memory: Seq<u8>, addr: int) -> u16 {
    (memory[addr] * 256 + memory[addr + 1]) as u16
}

/// `memory` with the big-endian word `value` stored at `addr`.
pub open spec fn store_word(memory: Seq<u8>, addr: int, value: u16) -> Seq<u8> {
    memory.update(addr, (value / 256) as u8).update(addr + 1, (value % 256) as u8)
}

/// `memory` with `bytes` stored from `addr` on.
pub open spec fn store_bytes(memory: Seq<u8>, addr: int, bytes: Seq<u8>) -> Seq<u8> {
    Seq::new(
        memory.len(),
        |a: int|
            if addr <= a < addr + bytes.len() {
                bytes[a - addr]
            } else {
                memory[a]
            },
    )
}

/// A word stored at an address inside memory is read back unchanged from
/// that address.
pub proof fn lemma_store_then_read(memory: Seq<u8>, addr: int, value: u16)
    requires
        memory.len() == MEMORY_SIZE,
        word_in_bounds(addr),
    ensures
        word_at(store_word(memory, addr, value), addr) == value,
{
}

} // verus!
