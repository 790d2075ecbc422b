use vstd::prelude::*;

verus! {

/// Every built-in glyph sprite is five bytes tall.
pub const HEX_SIZE: usize = 5;

/// The built-in 4x5 glyph sprite for hexadecimal digit `digit`, one byte per
/// pixel row, most significant bit leftmost.
pub open spec fn glyph(digit: int) -> Seq<u8> {
    if digit == 0x0 {
        seq![0xF0u8, 0x90, 0x90, 0x90, 0xF0]
    } else if digit == 0x1 {
        seq![0x20u8, 0x60, 0x20, 0x20, 0x70]
    } else if digit == 0x2 {
        seq![0xF0u8, 0x10, 0xF0, 0x80, 0xF0]
    } else if digit == 0x3 {
        seq![0xF0u8, 0x10, 0xF0, 0x10, 0xF0]
    } else if digit == 0x4 {
        seq![0x90u8, 0x90, 0xF0, 0x10, 0x10]
    } else if digit == 0x5 {
        seq![0xF0u8, 0x80, 0xF0, 0x10, 0xF0]
    } else if digit == 0x6 {
        seq![0xF0u8, 0x80, 0xF0, 0x90, 0xF0]
    } else if digit == 0x7 {
        seq![0xF0u8, 0x10, 0x20, 0x40, 0x40]
    } else if digit == 0x8 {
        seq![0xF0u8, 0x90, 0xF0, 0x90, 0xF0]
    } else if digit == 0x9 {
        seq![0xF0u8, 0x90, 0xF0, 0x10, 0xF0]
    } else if digit == 0xA {
        seq![0xF0u8, 0x90, 0xF0, 0x90, 0x90]
    } else if digit == 0xB {
        seq![0xE0u8, 0x90, 0xE0, 0x90, 0xE0]
    } else if digit == 0xC {
        seq![0xF0u8, 0x80, 0x80, 0x80, 0xF0]
    } else if digit == 0xD {
        seq![0xE0u8, 0x90, 0x90, 0x90, 0xE0]
    } else if digit == 0xE {
        seq![0xF0u8, 0x80, 0xF0, 0x80, 0xF0]
    } else {
        seq![0xF0u8, 0x80, 0xF0, 0x80, 0x80]
    }
}

/// Builds a five-byte sprite row vector.
fn rows5(b0: u8, b1: u8, b2: u8, b3: u8, b4: u8) -> (g: Vec<u8>)
    ensures
        g@ == seq![b0, b1, b2, b3, b4],
{
    let mut g: Vec<u8> = Vec::new();
    g.push(b0);
    g.push(b1);
    g.push(b2);
    g.push(b3);
    g.push(b4);
    proof {
        assert(g@ =~= seq![b0, b1, b2, b3, b4]);
    }
    g
}

/// The glyph sprite for `digit` as executable bytes.
pub fn glyph_bytes(digit: u8) -> (g: Vec<u8>)
    requires
        digit < 16,
    ensures
        g@ == glyph(digit as int),
{
    match digit {
        0x0 => rows5(0xF0, 0x90, 0x90, 0x90, 0xF0),
        0x1 => rows5(0x20, 0x60, 0x20, 0x20, 0x70),
        0x2 => rows5(0xF0, 0x10, 0xF0, 0x80, 0xF0),
        0x3 => rows5(0xF0, 0x10, 0xF0, 0x10, 0xF0),
        0x4 => rows5(0x90, 0x90, 0xF0, 0x10, 0x10),
        0x5 => rows5(0xF0, 0x80, 0xF0, 0x10, 0xF0),
        0x6 => rows5(0xF0, 0x80, 0xF0, 0x90, 0xF0),
        0x7 => rows5(0xF0, 0x10, 0x20, 0x40, 0x40),
        0x8 => rows5(0xF0, 0x90, 0xF0, 0x90, 0xF0),
        0x9 => rows5(0xF0, 0x90, 0xF0, 0x10, 0xF0),
        0xA => rows5(0xF0, 0x90, 0xF0, 0x90, 0x90),
        0xB => rows5(0xE0, 0x90, 0xE0, 0x90, 0xE0),
        0xC => rows5(0xF0, 0x80, 0x80, 0x80, 0xF0),
        0xD => rows5(0xE0, 0x90, 0x90, 0x90, 0xE0),
        0xE => rows5(0xF0, 0x80, 0xF0, 0x80, 0xF0),
        _ => rows5(0xF0, 0x80, 0xF0, 0x80, 0x80),
    }
}

} // verus!
