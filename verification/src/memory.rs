use vstd::prelude::*;

use crate::hexadecimal_sprites;
use crate::hexadecimal_sprites::HEX_SIZE;

verus! {

broadcast use vstd::array::group_array_axioms;

/// Lowest address at which a program image is loaded; everything below it is
/// reserved for the built-in font.
pub const STARTING_MEMORY: u16 = 0x200;

/// Size of the address space in bytes.
pub const MEM_SIZE: usize = 4096;

/// Largest program image that fits between `STARTING_MEMORY` and the end of
/// the address space; anything longer is silently truncated on load.
pub const MAX_PROGRAM_SIZE: usize = 3584;

/// True when the sixteen font glyphs stand at their fixed addresses
/// `digit * 5 .. digit * 5 + 5` of a memory image.
pub open spec fn font_in(mem: Seq<u8>) -> bool {
    forall|d: int|
        0 <= d < 16 ==> mem.subrange(d * 5, d * 5 + 5) == hexadecimal_sprites::glyph(d)
}

/// The interpreter's 4096-byte address space.  The sixteen hexadecimal glyph
/// sprites occupy addresses `0..80`, each glyph at `digit * HEX_SIZE`; a
/// program image starts at `STARTING_MEMORY`.
pub struct Memory {
    pub value: [u8; 4096],
}

impl Memory {
    /// True when the font glyphs stand at their fixed addresses.
    pub open spec fn font_loaded(&self) -> bool {
        font_in(self.value@)
    }

    /// The base address of the glyph sprite for hexadecimal digit `digit`,
    /// or `None` for any value that is not a digit: the argument comes from
    /// a runtime register and must be validated, not trusted.
    pub fn query_hex_location(digit: u8) -> (loc: Option<u8>)
        ensures
            loc == if digit < 16 {
                Some((digit * 5) as u8)
            } else {
                None::<u8>
            },
    {
        if digit < 16 {
            Some(digit * (HEX_SIZE as u8))
        } else {
            None
        }
    }

    /// Writes the sixteen glyph sprites at addresses `0..80`.
    pub fn load_hex(mem_arr: &mut [u8; 4096])
        ensures
            font_in(final(mem_arr)@),
            forall|a: int| 80 <= a < 4096 ==> final(mem_arr)@[a] == old(mem_arr)@[a],
    {
        let mut digit: u8 = 0;
        while digit < 16
            invariant
                digit <= 16,
                forall|d: int|
                    0 <= d < digit ==> mem_arr@.subrange(d * 5, d * 5 + 5)
                        == hexadecimal_sprites::glyph(d),
                forall|a: int| 5 * digit <= a < 4096 ==> mem_arr@[a] == old(mem_arr)@[a],
            decreases 16 - digit,
        {
            let sprite = hexadecimal_sprites::glyph_bytes(digit);
            let base: usize = (digit as usize) * HEX_SIZE;
            let mut si: usize = 0;
            while si < HEX_SIZE
                invariant
                    si <= 5,
                    digit < 16,
                    base == digit * 5,
                    sprite@ == hexadecimal_sprites::glyph(digit as int),
                    forall|d: int|
                        0 <= d < digit ==> mem_arr@.subrange(d * 5, d * 5 + 5)
                            == hexadecimal_sprites::glyph(d),
                    forall|a: int|
                        base <= a < base + si ==> mem_arr@[a] == hexadecimal_sprites::glyph(
                            digit as int,
                        )[a - base],
                    forall|a: int| base + si <= a < 4096 ==> mem_arr@[a] == old(mem_arr)@[a],
                decreases 5 - si,
            {
                mem_arr[base + si] = sprite[si];
                si = si + 1;
            }
            proof {
                assert(mem_arr@.subrange(digit * 5, digit * 5 + 5) =~= hexadecimal_sprites::glyph(
                    digit as int,
                ));
            }
            digit = digit + 1;
        }
    }

    /// Reads the two bytes at `idx` and `idx + 1` and concatenates them,
    /// big-endian, into one 16-bit instruction word.  An address whose
    /// second byte would fall outside memory signals a runaway program
    /// counter and is excluded here; the engine checks before fetching.
    pub fn read_instruction(&self, idx: u16) -> (word: u16)
        requires
            idx + 1 < 4096,
        ensures
            word == self.value@[idx as int] * 256 + self.value@[idx as int + 1],
    {
        let upper = self.value[idx as usize];
        let lower = self.value[idx as usize + 1];
        (upper as u16) * 256 + (lower as u16)
    }

    /// A memory with the font loaded and every other byte zero.
    pub fn empty() -> (m: Memory)
        ensures
            m.font_loaded(),
            forall|a: int| 80 <= a < 4096 ==> m.value@[a] == 0,
    {
        let mut mem_arr = [0u8; 4096];
        Memory::load_hex(&mut mem_arr);
        Memory { value: mem_arr }
    }

    /// Copies the bytes at `base .. base + n` out of memory.
    pub(crate) fn read_range(&self, base: usize, n: usize) -> (s: Vec<u8>)
        requires
            base + n <= 4096,
        ensures
            s@ == self.value@.subrange(base as int, base + n),
    {
        let mut s: Vec<u8> = Vec::new();
        let mut k: usize = 0;
        while k < n
            invariant
                base + n <= 4096,
                k <= n,
                s@ == self.value@.subrange(base as int, base + k),
            decreases n - k,
        {
            s.push(self.value[base + k]);
            proof {
                assert(s@ =~= self.value@.subrange(base as int, base + k + 1));
            }
            k = k + 1;
        }
        s
    }

    /// Writes registers `V0 ..= Vx` to memory `base .. base + x + 1`.
    pub(crate) fn store_bulk(&mut self, v: &[u8; 16], base: usize, x: usize)
        requires
            x < 16,
            base + x + 1 <= 4096,
        ensures
            forall|k: int| 0 <= k <= x ==> final(self).value@[base + k] == v@[k],
            forall|a: int|
                0 <= a < 4096 && !(base <= a <= base + x) ==> final(self).value@[a]
                    == old(self).value@[a],
    {
        let mut k: usize = 0;
        while k <= x
            invariant
                x < 16,
                k <= x + 1,
                base + x + 1 <= 4096,
                forall|j: int| 0 <= j < k ==> self.value@[base + j] == v@[j],
                forall|a: int|
                    0 <= a < 4096 && !(base <= a < base + k) ==> self.value@[a]
                        == old(self).value@[a],
            decreases x + 1 - k,
        {
            self.value[base + k] = v[k];
            k = k + 1;
        }
    }

    /// Copies a program image into memory starting at `STARTING_MEMORY`,
    /// silently dropping any bytes past the end of the address space.
    pub fn load(&mut self, bytes: &[u8])
        ensures
            ({
                let n = if bytes@.len() <= 3584 {
                    bytes@.len() as int
                } else {
                    3584
                };
                &&& forall|k: int|
                    0 <= k < n ==> final(self).value@[0x200 + k] == bytes@[k]
                &&& forall|a: int|
                    (0 <= a < 0x200 || 0x200 + n <= a < 4096) ==> final(self).value@[a]
                        == old(self).value@[a]
            }),
    {
        let count = if bytes.len() <= MAX_PROGRAM_SIZE {
            bytes.len()
        } else {
            MAX_PROGRAM_SIZE
        };
        let mut k: usize = 0;
        while k < count
            invariant
                count <= bytes@.len(),
                count <= 3584,
                k <= count,
                forall|j: int| 0 <= j < k ==> self.value@[0x200 + j] == bytes@[j],
                forall|a: int|
                    (0 <= a < 0x200 || 0x200 + k <= a < 4096) ==> self.value@[a]
                        == old(self).value@[a],
            decreases count - k,
        {
            self.value[0x200 + k] = bytes[k];
            k = k + 1;
        }
    }
}

} // verus!
