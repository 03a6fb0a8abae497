//! Byte-addressed memory; unwritten bytes read as zero.
use std::collections::HashMap;
use vstd::prelude::*;

verus! {

broadcast use vstd::std_specs::hash::group_hash_axioms;

/// The little-endian word made of four bytes, lowest address first.
pub open spec fn word_le(b0: u8, b1: u8, b2: u8, b3: u8) -> u32 {
    (b0 + b1 * 0x100 + b2 * 0x1_0000 + b3 * 0x100_0000) as u32
}

/// Byte `k` (0 = least significant) of a word.
pub open spec fn byte_of(word: u32, k: int) -> u8 {
    if k == 0 {
        (word % 0x100) as u8
    } else if k == 1 {
        ((word / 0x100) % 0x100) as u8
    } else if k == 2 {
        ((word / 0x1_0000) % 0x100) as u8
    } else {
        (word / 0x100_0000) as u8
    }
}

/// Splitting a word into bytes and joining them again gives the word back.
pub proof fn lemma_word_bytes_roundtrip(word: u32)
    ensures
        word_le(byte_of(word, 0), byte_of(word, 1), byte_of(word, 2), byte_of(word, 3)) == word,
{
    let b0 = word % 0x100;
    let b1 = (word / 0x100) % 0x100;
    let b2 = (word / 0x1_0000) % 0x100;
    let b3 = word / 0x100_0000;
    assert(b0 + b1 * 0x100 + b2 * 0x1_0000 + b3 * 0x100_0000 == word && b3 < 0x100) by (bit_vector)
        requires
            b0 == word % 0x100,
            b1 == (word / 0x100) % 0x100,
            b2 == (word / 0x1_0000) % 0x100,
            b3 == word / 0x100_0000,
    ;
}

#[derive(Debug)]
pub struct Memory {
    data: HashMap<u32, u8>,
}

impl Memory {
    /// The byte stored at `addr`.
    pub closed spec fn byte(&self, addr: u32) -> u8 {
        if self.data@.contains_key(addr) {
            self.data@[addr]
        } else {
            0
        }
    }

    /// The little-endian word stored at `addr .. addr + 4`.
    pub open spec fn word(&self, addr: u32) -> u32
        recommends
            addr <= u32::MAX - 3,
    {
        word_le(
            self.byte(addr),
            self.byte((addr + 1) as u32),
            self.byte((addr + 2) as u32),
            self.byte((addr + 3) as u32),
        )
    }

    /// An empty memory: every byte reads as zero.
    pub fn new() -> (m: Self)
        ensures
            forall|a: u32| m.byte(a) == 0,
    {
        Memory { data: HashMap::new() }
    }

    pub fn read_byte(&self, addr: u32) -> (b: u8)
        ensures
            b == self.byte(addr),
    {
        match self.data.get(&addr) {
            Some(b) => *b,
            None => 0,
        }
    }

    /// Read the little-endian word at `addr`.
    pub fn read_word(&self, addr: u32) -> (word: u32)
        requires
            addr <= u32::MAX - 3,
        ensures
            word == self.word(addr),
    {
        let b0 = self.read_byte(addr) as u32;
        let b1 = self.read_byte(addr + 1) as u32;
        let b2 = self.read_byte(addr + 2) as u32;
        let b3 = self.read_byte(addr + 3) as u32;
        assert(b0 | b1 << 8u32 | b2 << 16u32 | b3 << 24u32 == b0 + b1 * 0x100 + b2 * 0x1_0000 + b3
            * 0x100_0000) by (bit_vector)
            requires
                b0 < 0x100,
                b1 < 0x100,
                b2 < 0x100,
                b3 < 0x100,
        ;
        b0 | (b1 << 8) | (b2 << 16) | (b3 << 24)
    }

    pub fn write_byte(&mut self, addr: u32, data: u8)
        ensures
            forall|a: u32| #[trigger]
                final(self).byte(a) == if a == addr {
                    data
                } else {
                    old(self).byte(a)
                },
    {
        self.data.insert(addr, data);
    }

    /// Store `word` little-endian at `addr .. addr + 4`; every other byte is left as it was.
    pub fn write_word(&mut self, addr: u32, word: u32)
        requires
            addr <= u32::MAX - 3,
        ensures
            forall|a: u32| #[trigger]
                final(self).byte(a) == if addr <= a <= addr + 3 {
                    byte_of(word, a - addr)
                } else {
                    old(self).byte(a)
                },
    {
        let b0 = (word & 0xff) as u8;
        let b1 = ((word >> 8) & 0xff) as u8;
        let b2 = ((word >> 16) & 0xff) as u8;
        let b3 = (word >> 24) as u8;
        assert(word & 0xff == word % 0x100 && (word >> 8u32) & 0xff == (word / 0x100) % 0x100 && (
        word >> 16u32) & 0xff == (word / 0x1_0000) % 0x100 && word >> 24u32 == word / 0x100_0000
            && word / 0x100_0000 < 0x100) by (bit_vector);
        self.write_byte(addr, b0);
        self.write_byte(addr + 1, b1);
        self.write_byte(addr + 2, b2);
        self.write_byte(addr + 3, b3);
    }
}

/// A word read back after it was written is the written word.
pub proof fn lemma_read_after_write_word(before: Memory, after: Memory, addr: u32, word: u32)
    requires
        addr <= u32::MAX - 3,
        forall|a: u32| #[trigger]
            after.byte(a) == if addr <= a <= addr + 3 {
                byte_of(word, a - addr)
            } else {
                before.byte(a)
            },
    ensures
        after.word(addr) == word,
{
    assert(after.byte(addr) == byte_of(word, 0));
    assert(after.byte((addr + 1) as u32) == byte_of(word, 1));
    assert(after.byte((addr + 2) as u32) == byte_of(word, 2));
    assert(after.byte((addr + 3) as u32) == byte_of(word, 3));
    lemma_word_bytes_roundtrip(word);
}

/// Writing a word leaves every word that does not overlap it unchanged.
pub proof fn lemma_write_word_preserves_disjoint(
    before: Memory,
    after: Memory,
    addr: u32,
    word: u32,
    other: u32,
)
    requires
        addr <= u32::MAX - 3,
        other <= u32::MAX - 3,
        other + 4 <= addr || addr + 4 <= other,
        forall|a: u32| #[trigger]
            after.byte(a) == if addr <= a <= addr + 3 {
                byte_of(word, a - addr)
            } else {
                before.byte(a)
            },
    ensures
        after.word(other) == before.word(other),
{
    assert(after.byte(other) == before.byte(other));
    assert(after.byte((other + 1) as u32) == before.byte((other + 1) as u32));
    assert(after.byte((other + 2) as u32) == before.byte((other + 2) as u32));
    assert(after.byte((other + 3) as u32) == before.byte((other + 3) as u32));
}

/// Words are stored little-endian: after a word is written at `addr`, the byte at `addr`
/// is its least significant byte and the byte at `addr + 3` its most significant.
pub proof fn lemma_write_word_little_endian(before: Memory, after: Memory, addr: u32, word: u32)
    requires
        addr <= u32::MAX - 3,
        forall|a: u32| #[trigger]
            after.byte(a) == if addr <= a <= addr + 3 {
                byte_of(word, a - addr)
            } else {
                before.byte(a)
            },
    ensures
        after.byte(addr) == word % 0x100,
        after.byte((addr + 1) as u32) == (word / 0x100) % 0x100,
        after.byte((addr + 2) as u32) == (word / 0x1_0000) % 0x100,
        after.byte((addr + 3) as u32) == word / 0x100_0000,
        after.word(addr) == word,
{
    assert(after.byte(addr) == byte_of(word, 0));
    assert(after.byte((addr + 1) as u32) == byte_of(word, 1));
    assert(after.byte((addr + 2) as u32) == byte_of(word, 2));
    assert(after.byte((addr + 3) as u32) == byte_of(word, 3));
    lemma_read_after_write_word(before, after, addr, word);
}

} // verus!
