//! Arithmetic on the words of a traced process's memory: memory is read and
//! written a word of eight bytes at a time, so a single byte is changed by
//! reading the word around it, replacing the byte and writing the word back.

use vstd::prelude::*;

verus! {

/// Bytes in a word of memory.
pub const WORD_BYTES: usize = 8;

/// The instruction that stops a process at a breakpoint.
pub const BREAKPOINT_BYTE: u8 = 0xcc;

/// The byte of `word` at `offset`, counted from the least significant one.
pub open spec fn byte_at(word: u64, offset: nat) -> u8
    recommends
        offset < 8,
{
    ((word >> ((8 * offset) as u64)) & 0xff) as u8
}

/// The start of the word that holds `addr`: the nearest multiple of the
/// word size at or below it.
pub fn align_addr_to_word(addr: usize) -> (aligned: usize)
    ensures
        aligned == addr - addr % 8,
        aligned % 8 == 0,
        aligned <= addr < aligned + 8,
{
    addr - addr % WORD_BYTES
}

/// Where `addr` lies within its word.
pub fn byte_offset(addr: usize) -> (offset: usize)
    ensures
        offset == addr % 8,
        offset == addr - (addr - addr % 8),
{
    addr - align_addr_to_word(addr)
}

/// Reads the byte at `offset` out of `word`.
pub fn read_byte(word: u64, offset: usize) -> (byte: u8)
    requires
        offset < 8,
    ensures
        byte == byte_at(word, offset as nat),
{
    let shift: u64 = 8 * (offset as u64);
    ((word >> shift) & 0xff) as u8
}

/// Puts `val` in the place of the byte at `offset` of `word`. The other
/// seven bytes stay as they are.
pub fn write_byte(word: u64, offset: usize, val: u8) -> (updated: u64)
    requires
        offset < 8,
    ensures
        byte_at(updated, offset as nat) == val,
        forall|other: nat|
            other < 8 && other != offset ==> #[trigger] byte_at(updated, other) == byte_at(
                word,
                other,
            ),
{
    let shift: u64 = 8 * (offset as u64);
    let masked_word: u64 = word & !(0xffu64 << shift);
    let updated: u64 = masked_word | ((val as u64) << shift);
    proof {
        let v = val as u64;
        assert((((word & !(0xffu64 << shift)) | (v << shift)) >> shift) & 0xff == v) by (bit_vector)
            requires
                shift <= 56,
                v <= 0xff,
        ;
        assert forall|other: nat| other < 8 && other != offset implies #[trigger] byte_at(
            updated,
            other,
        ) == byte_at(word, other) by {
            let t = (8 * other) as u64;
            assert((((word & !(0xffu64 << shift)) | (v << shift)) >> t) & 0xff == (word >> t)
                & 0xff) by (bit_vector)
                requires
                    shift < 64,
                    t < 64,
                    shift % 8 == 0,
                    t % 8 == 0,
                    t != shift,
                    v <= 0xff,
            ;
        }
    }
    updated
}

/// Puts `val` at address `addr`, given the word that holds that address.
/// Returns the byte that stood there and the word to write back.
pub fn replace_byte(word: u64, addr: usize, val: u8) -> (patched: (u8, u64))
    ensures
        patched.0 == byte_at(word, (addr % 8) as nat),
        byte_at(patched.1, (addr % 8) as nat) == val,
        forall|other: nat|
            other < 8 && other != addr % 8 ==> #[trigger] byte_at(patched.1, other) == byte_at(
                word,
                other,
            ),
{
    let offset = byte_offset(addr);
    (read_byte(word, offset), write_byte(word, offset, val))
}

} // verus!
