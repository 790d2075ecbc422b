use vstd::prelude::*;

use rand::Rng;

use crate::displays::{blit_collides, blit_grid, Drawable};
use crate::input_driver::EventPollable;
use crate::memory::Memory;
use crate::timers::TimerActions;

verus! {

broadcast use vstd::array::group_array_axioms;

/// Instructions are two bytes wide; normal program-counter advancement.
pub const OPCODE_SIZE: u16 = 2;

/// A 12-bit memory address operand.
#[derive(PartialEq, Eq, Structural, Debug, Clone, Copy)]
pub struct Addr(pub u16);

/// A general-purpose register index operand, always below 16.
#[derive(PartialEq, Eq, Structural, Debug, Clone, Copy)]
pub struct RegisterN(pub usize);

/// A 4-bit operand: the sprite height of a draw instruction.
#[derive(PartialEq, Eq, Structural, Debug, Clone, Copy)]
pub struct Nibble(pub u8);

/// An 8-bit immediate operand.
#[derive(PartialEq, Eq, Structural, Debug, Clone, Copy)]
pub struct Byte(pub u8);

/// The decoded instruction set: one variant per operation, carrying its
/// operands.
#[derive(PartialEq, Eq, Structural, Debug, Clone, Copy)]
pub enum Opcodes {
    CLS,
    RET,
    JP(Addr),
    CALL(Addr),
    SEByte(RegisterN, Byte),
    SNE(RegisterN, Byte),
    SEReg(RegisterN, RegisterN),
    LDByte(RegisterN, Byte),
    ADDByte(RegisterN, Byte),
    LDReg(RegisterN, RegisterN),
    OR(RegisterN, RegisterN),
    ANDReg(RegisterN, RegisterN),
    XOR(RegisterN, RegisterN),
    ADDReg(RegisterN, RegisterN),
    SUB(RegisterN, RegisterN),
    SHR(RegisterN),
    SUBN(RegisterN, RegisterN),
    SHL(RegisterN),
    SNEReg(RegisterN, RegisterN),
    LDI(Addr),
    JPV0(Addr),
    RND(RegisterN, Byte),
    DRW(RegisterN, RegisterN, Nibble),
    SKP(RegisterN),
    SKNP(RegisterN),
    LDVXWITHDT(RegisterN),
    LDK(RegisterN),
    LDDTWITHVX(RegisterN),
    LDST(RegisterN),
    ADDI(RegisterN),
    LDSPRITE(RegisterN),
    LDBCD(RegisterN),
    LDTHROUGH(RegisterN),
    LDTHROUGHINTOI(RegisterN),
}

/// What the executed instruction asks the engine to do with the program
/// counter: advance normally, skip one instruction when the condition
/// holds, or jump to an address.
#[derive(PartialEq, Eq, Structural, Debug, Clone, Copy)]
pub enum ProgramCounter {
    Next,
    Skip(bool),
    Jump(usize),
}

/// The unrecoverable conditions: an instruction word that matches no
/// opcode, call-stack misuse, and memory or keypad access out of bounds.
/// Each is fatal to the run; none is retried.
#[derive(PartialEq, Eq, Structural, Debug, Clone, Copy)]
pub enum Fault {
    DecodeError,
    StackOverflow,
    StackUnderflow,
    OutOfBounds,
}

/// The leading nibble of an instruction word: selects the opcode family.
pub open spec fn spec_nib0(w: u16) -> int {
    w as int / 4096
}

/// The second nibble: the `Vx` register index.
pub open spec fn spec_regx(w: u16) -> int {
    (w as int / 256) % 16
}

/// The third nibble: the `Vy` register index.
pub open spec fn spec_regy(w: u16) -> int {
    (w as int / 16) % 16
}

/// The trailing nibble: sub-operation selector or sprite height.
pub open spec fn spec_nib3(w: u16) -> int {
    w as int % 16
}

/// The low 12 bits: an address operand.
pub open spec fn spec_addr(w: u16) -> u16 {
    (w as int % 4096) as u16
}

/// The low 8 bits: an immediate byte operand.
pub open spec fn spec_byte(w: u16) -> u8 {
    (w as int % 256) as u8
}

/// The pure decoding function: which instruction, if any, a 16-bit word
/// denotes.  The leading nibble selects a family; for families `0x0`,
/// `0x5`, `0x8`, `0x9`, `0xE` and `0xF` the trailing nibble or byte
/// selects the operation.  A word that matches nothing decodes to `None`.
pub open spec fn decode_word(w: u16) -> Option<Opcodes> {
    let n0 = spec_nib0(w);
    let x = RegisterN(spec_regx(w) as usize);
    let y = RegisterN(spec_regy(w) as usize);
    let n3 = spec_nib3(w);
    let kk = Byte(spec_byte(w));
    let nnn = Addr(spec_addr(w));
    if n0 == 0x0 && n3 == 0x0 {
        Some(Opcodes::CLS)
    } else if n0 == 0x0 && n3 == 0xE {
        Some(Opcodes::RET)
    } else if n0 == 0x1 {
        Some(Opcodes::JP(nnn))
    } else if n0 == 0x2 {
        Some(Opcodes::CALL(nnn))
    } else if n0 == 0x3 {
        Some(Opcodes::SEByte(x, kk))
    } else if n0 == 0x4 {
        Some(Opcodes::SNE(x, kk))
    } else if n0 == 0x5 && n3 == 0x0 {
        Some(Opcodes::SEReg(x, y))
    } else if n0 == 0x6 {
        Some(Opcodes::LDByte(x, kk))
    } else if n0 == 0x7 {
        Some(Opcodes::ADDByte(x, kk))
    } else if n0 == 0x8 && n3 == 0x0 {
        Some(Opcodes::LDReg(x, y))
    } else if n0 == 0x8 && n3 == 0x1 {
        Some(Opcodes::OR(x, y))
    } else if n0 == 0x8 && n3 == 0x2 {
        Some(Opcodes::ANDReg(x, y))
    } else if n0 == 0x8 && n3 == 0x3 {
        Some(Opcodes::XOR(x, y))
    } else if n0 == 0x8 && n3 == 0x4 {
        Some(Opcodes::ADDReg(x, y))
    } else if n0 == 0x8 && n3 == 0x5 {
        Some(Opcodes::SUB(x, y))
    } else if n0 == 0x8 && n3 == 0x6 {
        Some(Opcodes::SHR(x))
    } else if n0 == 0x8 && n3 == 0x7 {
        Some(Opcodes::SUBN(x, y))
    } else if n0 == 0x8 && n3 == 0xE {
        Some(Opcodes::SHL(x))
    } else if n0 == 0x9 && n3 == 0x0 {
        Some(Opcodes::SNEReg(x, y))
    } else if n0 == 0xA {
        Some(Opcodes::LDI(nnn))
    } else if n0 == 0xB {
        Some(Opcodes::JPV0(nnn))
    } else if n0 == 0xC {
        Some(Opcodes::RND(x, kk))
    } else if n0 == 0xD {
        Some(Opcodes::DRW(x, y, Nibble(n3 as u8)))
    } else if n0 == 0xE && spec_regy(w) == 0x9 && n3 == 0xE {
        Some(Opcodes::SKP(x))
    } else if n0 == 0xE && spec_regy(w) == 0xA && n3 == 0x1 {
        Some(Opcodes::SKNP(x))
    } else if n0 == 0xF && spec_regy(w) == 0x0 && n3 == 0x7 {
        Some(Opcodes::LDVXWITHDT(x))
    } else if n0 == 0xF && spec_regy(w) == 0x0 && n3 == 0xA {
        Some(Opcodes::LDK(x))
    } else if n0 == 0xF && spec_regy(w) == 0x1 && n3 == 0x5 {
        Some(Opcodes::LDDTWITHVX(x))
    } else if n0 == 0xF && spec_regy(w) == 0x1 && n3 == 0x8 {
        Some(Opcodes::LDST(x))
    } else if n0 == 0xF && spec_regy(w) == 0x1 && n3 == 0xE {
        Some(Opcodes::ADDI(x))
    } else if n0 == 0xF && spec_regy(w) == 0x2 && n3 == 0x9 {
        Some(Opcodes::LDSPRITE(x))
    } else if n0 == 0xF && spec_regy(w) == 0x3 && n3 == 0x3 {
        Some(Opcodes::LDBCD(x))
    } else if n0 == 0xF && spec_regy(w) == 0x5 && n3 == 0x5 {
        Some(Opcodes::LDTHROUGH(x))
    } else if n0 == 0xF && spec_regy(w) == 0x6 && n3 == 0x5 {
        Some(Opcodes::LDTHROUGHINTOI(x))
    } else {
        None
    }
}

/// The low 12 bits of an instruction word, as an address operand.
pub fn get_addr(raw_opcode: u16) -> (a: Addr)
    ensures
        a == Addr(spec_addr(raw_opcode)),
{
    proof {
        lemma_word_fields(raw_opcode);
    }
    Addr(raw_opcode & 0x0FFF)
}

/// The low 8 bits of an instruction word, as an immediate operand.
pub fn byte(raw_opcode: u16) -> (b: Byte)
    ensures
        b == Byte(spec_byte(raw_opcode)),
{
    proof {
        lemma_word_fields(raw_opcode);
    }
    Byte((raw_opcode & 0x00FF) as u8)
}

/// Splits an instruction word into its four nibbles, most significant
/// first; the middle two are the register indices `Vx` and `Vy`.
pub fn destructure_raw_opcode(raw_opcode: u16) -> (t: (u16, usize, usize, u8))
    ensures
        t.0 == spec_nib0(raw_opcode),
        t.1 == spec_regx(raw_opcode),
        t.2 == spec_regy(raw_opcode),
        t.3 == spec_nib3(raw_opcode),
        t.0 < 16,
        t.1 < 16,
        t.2 < 16,
        t.3 < 16,
{
    proof {
        lemma_word_fields(raw_opcode);
    }
    (
        raw_opcode >> 12,
        ((raw_opcode & 0x0F00) >> 8) as usize,
        ((raw_opcode & 0x00F0) >> 4) as usize,
        (raw_opcode & 0x000F) as u8,
    )
}

/// Mask-and-shift extraction of the word's fields agrees with their
/// arithmetic definitions.
proof fn lemma_word_fields(w: u16)
    ensures
        (w >> 12) == spec_nib0(w),
        ((w & 0x0F00) >> 8) == spec_regx(w),
        ((w & 0x00F0) >> 4) == spec_regy(w),
        (w & 0x000F) == spec_nib3(w),
        (w & 0x0FFF) == spec_addr(w),
        (w & 0x00FF) == spec_byte(w),
{
    assert((w >> 12) == w as int / 4096 && ((w & 0x0F00) >> 8) == (w as int / 256) % 16 && ((w
        & 0x00F0) >> 4) == (w as int / 16) % 16 && (w & 0x000F) == w as int % 16 && (w & 0x0FFF)
        == w as int % 4096 && (w & 0x00FF) == w as int % 256) by (bit_vector);
}

impl Opcodes {
    /// Decodes a 16-bit instruction word; `None` marks an unknown opcode.
    pub fn from_bytes(raw_opcode: u16) -> (op: Option<Opcodes>)
        ensures
            op == decode_word(raw_opcode),
    {
        match destructure_raw_opcode(raw_opcode) {
            (0, _, _, 0) => Some(Opcodes::CLS),
            (0, _, _, 0xE) => Some(Opcodes::RET),
            (1, _, _, _) => Some(Opcodes::JP(get_addr(raw_opcode))),
            (2, _, _, _) => Some(Opcodes::CALL(get_addr(raw_opcode))),
            (3, x, _, _) => Some(Opcodes::SEByte(RegisterN(x), byte(raw_opcode))),
            (4, x, _, _) => Some(Opcodes::SNE(RegisterN(x), byte(raw_opcode))),
            (5, x, y, 0) => Some(Opcodes::SEReg(RegisterN(x), RegisterN(y))),
            (6, x, _, _) => Some(Opcodes::LDByte(RegisterN(x), byte(raw_opcode))),
            (7, x, _, _) => Some(Opcodes::ADDByte(RegisterN(x), byte(raw_opcode))),
            (8, x, y, 0) => Some(Opcodes::LDReg(RegisterN(x), RegisterN(y))),
            (8, x, y, 1) => Some(Opcodes::OR(RegisterN(x), RegisterN(y))),
            (8, x, y, 2) => Some(Opcodes::ANDReg(RegisterN(x), RegisterN(y))),
            (8, x, y, 3) => Some(Opcodes::XOR(RegisterN(x), RegisterN(y))),
            (8, x, y, 4) => Some(Opcodes::ADDReg(RegisterN(x), RegisterN(y))),
            (8, x, y, 5) => Some(Opcodes::SUB(RegisterN(x), RegisterN(y))),
            (8, x, _, 6) => Some(Opcodes::SHR(RegisterN(x))),
            (8, x, y, 7) => Some(Opcodes::SUBN(RegisterN(x), RegisterN(y))),
            (8, x, _, 0xE) => Some(Opcodes::SHL(RegisterN(x))),
            (9, x, y, 0) => Some(Opcodes::SNEReg(RegisterN(x), RegisterN(y))),
            (0xA, _, _, _) => Some(Opcodes::LDI(get_addr(raw_opcode))),
            (0xB, _, _, _) => Some(Opcodes::JPV0(get_addr(raw_opcode))),
            (0xC, x, _, _) => Some(Opcodes::RND(RegisterN(x), byte(raw_opcode))),
            (0xD, x, y, n) => Some(Opcodes::DRW(RegisterN(x), RegisterN(y), Nibble(n))),
            (0xE, x, 9, 0xE) => Some(Opcodes::SKP(RegisterN(x))),
            (0xE, x, 0xA, 1) => Some(Opcodes::SKNP(RegisterN(x))),
            (0xF, x, 0, 7) => Some(Opcodes::LDVXWITHDT(RegisterN(x))),
            (0xF, x, 0, 0xA) => Some(Opcodes::LDK(RegisterN(x))),
            (0xF, x, 1, 5) => Some(Opcodes::LDDTWITHVX(RegisterN(x))),
            (0xF, x, 1, 8) => Some(Opcodes::LDST(RegisterN(x))),
            (0xF, x, 1, 0xE) => Some(Opcodes::ADDI(RegisterN(x))),
            (0xF, x, 2, 9) => Some(Opcodes::LDSPRITE(RegisterN(x))),
            (0xF, x, 3, 3) => Some(Opcodes::LDBCD(RegisterN(x))),
            (0xF, x, 5, 5) => Some(Opcodes::LDTHROUGH(RegisterN(x))),
            (0xF, x, 6, 5) => Some(Opcodes::LDTHROUGHINTOI(RegisterN(x))),
            _ => None,
        }
    }
}

/// Any word of the `0x0` family whose trailing nibble is neither `0x0`
/// nor `0xE` matches no instruction: the decoder refuses it.
pub proof fn lemma_zero_family_undecodable(w: u16)
    requires
        spec_nib0(w) == 0,
        spec_nib3(w) != 0x0,
        spec_nib3(w) != 0xE,
    ensures
        decode_word(w) is None,
{
}

/// The register file: sixteen general-purpose 8-bit registers (register 15
/// doubles as the flag register), the 16-bit address register `i`, the
/// program counter, and the stack pointer.
pub struct Registers {
    pub v: [u8; 16],
    pub i: u16,
    pub pc: u16,
    pub sp: usize,
}

impl Registers {
    /// Registers at power-on: all general registers zero, address register
    /// and program counter at the program start, empty call stack.
    pub fn new() -> (r: Registers)
        ensures
            forall|k: int| 0 <= k < 16 ==> r.v@[k] == 0,
            r.i == 0x200,
            r.pc == 0x200,
            r.sp == 0,
    {
        Registers { v: [0u8; 16], i: crate::memory::STARTING_MEMORY, pc: crate::memory::STARTING_MEMORY, sp: 0 }
    }

    /// Writes the flag register, `V15`.
    pub fn set_vf(&mut self, value: u8)
        ensures
            final(self).v@ == old(self).v@.update(15, value),
            final(self).i == old(self).i,
            final(self).pc == old(self).pc,
            final(self).sp == old(self).sp,
    {
        self.v[15] = value;
    }

    /// Fills registers `V0 ..= Vx` from a run of bytes read out of memory.
    fn load_bulk(&mut self, bytes: &Vec<u8>, x: usize)
        requires
            x < 16,
            bytes@.len() == x + 1,
        ensures
            forall|k: int| 0 <= k <= x ==> final(self).v@[k] == bytes@[k],
            forall|k: int| x < k < 16 ==> final(self).v@[k] == old(self).v@[k],
            final(self).i == old(self).i,
            final(self).pc == old(self).pc,
            final(self).sp == old(self).sp,
    {
        let mut k: usize = 0;
        while k <= x
            invariant
                x < 16,
                k <= x + 1,
                bytes@.len() == x + 1,
                forall|j: int| 0 <= j < k ==> self.v@[j] == bytes@[j],
                forall|j: int| k <= j < 16 ==> self.v@[j] == old(self).v@[j],
                self.i == old(self).i,
                self.pc == old(self).pc,
                self.sp == old(self).sp,
            decreases x + 1 - k,
        {
            self.v[k] = bytes[k];
            k = k + 1;
        }
    }
}

/// The call stack: sixteen return addresses, indexed by the stack pointer.
pub type Stack = [u16; 16];

/// The execution engine: drives the fetch-decode-execute cycle over its
/// memory, register file and framebuffer, and consumes the display, input
/// and timer capabilities it is constructed with.
pub struct Interpreter<D, I, ST, DT> where
    I: EventPollable,
    D: Drawable,
    ST: TimerActions,
    DT: TimerActions,
 {
    pub memory: Memory,
    pub registers: Registers,
    pub stack: Stack,
    pub display: D,
    pub keypad: [bool; 16],
    pub last_pressed: Option<u8>,
    pub input_driver: I,
    pub sound_timer: ST,
    pub delay_timer: DT,
}

impl<D, I, ST, DT> Interpreter<D, I, ST, DT> where
    I: EventPollable,
    D: Drawable,
    ST: TimerActions,
    DT: TimerActions,
 {
    /// The engine's invariant: the stack pointer counts at most 16 pushed
    /// frames, the display is well-formed, and a remembered key press is a
    /// keypad index.
    pub open spec fn wf(&self) -> bool {
        &&& self.registers.sp <= 16
        &&& self.display.wf()
        &&& match self.last_pressed {
            Some(k) => k < 16,
            None => true,
        }
    }

    /// The capabilities are untouched.
    pub open spec fn same_io(pre: Self, post: Self) -> bool {
        &&& post.input_driver == pre.input_driver
        &&& post.sound_timer == pre.sound_timer
        &&& post.delay_timer == pre.delay_timer
    }

    /// Everything except the general registers and the address register is
    /// untouched.
    pub open spec fn only_regs_changed(pre: Self, post: Self) -> bool {
        &&& post.memory == pre.memory
        &&& post.stack == pre.stack
        &&& post.display == pre.display
        &&& post.keypad == pre.keypad
        &&& post.last_pressed == pre.last_pressed
        &&& Self::same_io(pre, post)
        &&& post.registers.pc == pre.registers.pc
        &&& post.registers.sp == pre.registers.sp
    }

    /// The whole engine state is untouched.
    pub open spec fn unchanged(pre: Self, post: Self) -> bool {
        &&& Self::only_regs_changed(pre, post)
        &&& post.registers.v == pre.registers.v
        &&& post.registers.i == pre.registers.i
    }

    /// Exactly the general registers change, to `v2`.
    pub open spec fn v_set(pre: Self, post: Self, v2: Seq<u8>) -> bool {
        &&& Self::only_regs_changed(pre, post)
        &&& post.registers.i == pre.registers.i
        &&& post.registers.v@ == v2
    }

    /// Exactly the address register changes, to `i2`.
    pub open spec fn i_set(pre: Self, post: Self, i2: u16) -> bool {
        &&& Self::only_regs_changed(pre, post)
        &&& post.registers.v == pre.registers.v
        &&& post.registers.i == i2
    }

    /// Exactly the call stack and stack pointer change.
    pub open spec fn stack_set(pre: Self, post: Self, sp2: int, stack2: Seq<u16>) -> bool {
        &&& post.memory == pre.memory
        &&& post.display == pre.display
        &&& post.keypad == pre.keypad
        &&& post.last_pressed == pre.last_pressed
        &&& Self::same_io(pre, post)
        &&& post.registers.v == pre.registers.v
        &&& post.registers.i == pre.registers.i
        &&& post.registers.pc == pre.registers.pc
        &&& post.registers.sp == sp2
        &&& post.stack@ == stack2
    }

    /// Exactly the memory changes, to `mem2`.
    pub open spec fn mem_set(pre: Self, post: Self, mem2: Seq<u8>) -> bool {
        &&& post.memory.value@ == mem2
        &&& post.stack == pre.stack
        &&& post.display == pre.display
        &&& post.keypad == pre.keypad
        &&& post.last_pressed == pre.last_pressed
        &&& Self::same_io(pre, post)
        &&& post.registers == pre.registers
    }

    /// Everything except the named timer is untouched.
    pub open spec fn timers_frame(pre: Self, post: Self) -> bool {
        &&& post.memory == pre.memory
        &&& post.stack == pre.stack
        &&& post.display == pre.display
        &&& post.keypad == pre.keypad
        &&& post.last_pressed == pre.last_pressed
        &&& post.input_driver == pre.input_driver
        &&& post.registers == pre.registers
    }

    /// The semantics of one decoded instruction: how the machine state
    /// after `execute_opcode(w)` relates to the state before it, and which
    /// program-counter disposition or fault comes back.  Every instruction
    /// of the set has its case here; this relation is the engine's
    /// contract.
    pub open spec fn instr_post(pre: Self, post: Self, w: u16, r: Result<ProgramCounter, Fault>) -> bool {
        match decode_word(w) {
            None => r == Err::<ProgramCounter, Fault>(Fault::DecodeError) && Self::unchanged(pre, post),
            Some(op) => match op {
                Opcodes::CLS => {
                    &&& r == Ok::<ProgramCounter, Fault>(ProgramCounter::Next)
                    &&& post.memory == pre.memory
                    &&& post.stack == pre.stack
                    &&& post.keypad == pre.keypad
                    &&& post.last_pressed == pre.last_pressed
                    &&& Self::same_io(pre, post)
                    &&& post.registers == pre.registers
                    &&& post.display.wf()
                    &&& forall|rr: int, c: int|
                        0 <= rr < 32 && 0 <= c < 64 ==> #[trigger] post.display.grid()[rr][c] == 0
                },
                Opcodes::RET => {
                    if pre.registers.sp == 0 {
                        r == Err::<ProgramCounter, Fault>(Fault::StackUnderflow) && Self::unchanged(pre, post)
                    } else {
                        &&& r == Ok::<ProgramCounter, Fault>(ProgramCounter::Jump(
                            pre.stack@[pre.registers.sp - 1] as usize,
                        ))
                        &&& Self::stack_set(pre, post, pre.registers.sp - 1, pre.stack@)
                    }
                },
                Opcodes::JP(Addr(nnn)) => {
                    r == Ok::<ProgramCounter, Fault>(ProgramCounter::Jump(nnn as usize))
                        && Self::unchanged(pre, post)
                },
                Opcodes::CALL(Addr(nnn)) => {
                    if pre.registers.sp == 16 {
                        r == Err::<ProgramCounter, Fault>(Fault::StackOverflow) && Self::unchanged(pre, post)
                    } else {
                        &&& r == Ok::<ProgramCounter, Fault>(ProgramCounter::Jump(nnn as usize))
                        &&& Self::stack_set(
                            pre,
                            post,
                            pre.registers.sp + 1,
                            pre.stack@.update(
                                pre.registers.sp as int,
                                (pre.registers.pc + 2) as u16,
                            ),
                        )
                    }
                },
                Opcodes::SEByte(RegisterN(x), Byte(kk)) => {
                    r == Ok::<ProgramCounter, Fault>(ProgramCounter::Skip(
                        pre.registers.v@[x as int] == kk,
                    )) && Self::unchanged(pre, post)
                },
                Opcodes::SNE(RegisterN(x), Byte(kk)) => {
                    r == Ok::<ProgramCounter, Fault>(ProgramCounter::Skip(
                        pre.registers.v@[x as int] != kk,
                    )) && Self::unchanged(pre, post)
                },
                Opcodes::SEReg(RegisterN(x), RegisterN(y)) => {
                    r == Ok::<ProgramCounter, Fault>(ProgramCounter::Skip(
                        pre.registers.v@[x as int] == pre.registers.v@[y as int],
                    )) && Self::unchanged(pre, post)
                },
                Opcodes::LDByte(RegisterN(x), Byte(kk)) => {
                    r == Ok::<ProgramCounter, Fault>(ProgramCounter::Next) && Self::v_set(
                        pre,
                        post,
                        pre.registers.v@.update(x as int, kk),
                    )
                },
                Opcodes::ADDByte(RegisterN(x), Byte(kk)) => {
                    let sum = ((pre.registers.v@[x as int] + kk) % 256) as u8;
                    r == Ok::<ProgramCounter, Fault>(ProgramCounter::Next) && Self::v_set(
                        pre,
                        post,
                        pre.registers.v@.update(x as int, sum),
                    )
                },
                Opcodes::LDReg(RegisterN(x), RegisterN(y)) => {
                    r == Ok::<ProgramCounter, Fault>(ProgramCounter::Next) && Self::v_set(
                        pre,
                        post,
                        pre.registers.v@.update(x as int, pre.registers.v@[y as int]),
                    )
                },
                Opcodes::OR(RegisterN(x), RegisterN(y)) => {
                    let val = pre.registers.v@[x as int] | pre.registers.v@[y as int];
                    r == Ok::<ProgramCounter, Fault>(ProgramCounter::Next) && Self::v_set(
                        pre,
                        post,
                        pre.registers.v@.update(x as int, val),
                    )
                },
                Opcodes::ANDReg(RegisterN(x), RegisterN(y)) => {
                    let val = pre.registers.v@[x as int] & pre.registers.v@[y as int];
                    r == Ok::<ProgramCounter, Fault>(ProgramCounter::Next) && Self::v_set(
                        pre,
                        post,
                        pre.registers.v@.update(x as int, val),
                    )
                },
                Opcodes::XOR(RegisterN(x), RegisterN(y)) => {
                    let val = pre.registers.v@[x as int] ^ pre.registers.v@[y as int];
                    r == Ok::<ProgramCounter, Fault>(ProgramCounter::Next) && Self::v_set(
                        pre,
                        post,
                        pre.registers.v@.update(x as int, val),
                    )
                },
                Opcodes::ADDReg(RegisterN(x), RegisterN(y)) => {
                    let a = pre.registers.v@[x as int];
                    let b = pre.registers.v@[y as int];
                    let flag: u8 = if a + b > 255 { 1 } else { 0 };
                    let sum = ((a + b) % 256) as u8;
                    r == Ok::<ProgramCounter, Fault>(ProgramCounter::Next) && Self::v_set(
                        pre,
                        post,
                        pre.registers.v@.update(15, flag).update(x as int, sum),
                    )
                },
                Opcodes::SUB(RegisterN(x), RegisterN(y)) => {
                    let a = pre.registers.v@[x as int];
                    let b = pre.registers.v@[y as int];
                    let flag: u8 = if a > b { 1 } else { 0 };
                    let diff = ((a - b) % 256) as u8;
                    r == Ok::<ProgramCounter, Fault>(ProgramCounter::Next) && Self::v_set(
                        pre,
                        post,
                        pre.registers.v@.update(15, flag).update(x as int, diff),
                    )
                },
                Opcodes::SHR(RegisterN(x)) => {
                    let a = pre.registers.v@[x as int];
                    let flag: u8 = (a % 2) as u8;
                    r == Ok::<ProgramCounter, Fault>(ProgramCounter::Next) && Self::v_set(
                        pre,
                        post,
                        pre.registers.v@.update(15, flag).update(x as int, a / 2),
                    )
                },
                Opcodes::SUBN(RegisterN(x), RegisterN(y)) => {
                    let a = pre.registers.v@[x as int];
                    let b = pre.registers.v@[y as int];
                    let flag: u8 = if b > a { 1 } else { 0 };
                    let diff = ((b - a) % 256) as u8;
                    r == Ok::<ProgramCounter, Fault>(ProgramCounter::Next) && Self::v_set(
                        pre,
                        post,
                        pre.registers.v@.update(15, flag).update(x as int, diff),
                    )
                },
                Opcodes::SHL(RegisterN(x)) => {
                    let a = pre.registers.v@[x as int];
                    let flag: u8 = if a >= 128 { 1 } else { 0 };
                    let dbl = ((a * 2) % 256) as u8;
                    r == Ok::<ProgramCounter, Fault>(ProgramCounter::Next) && Self::v_set(
                        pre,
                        post,
                        pre.registers.v@.update(15, flag).update(x as int, dbl),
                    )
                },
                Opcodes::SNEReg(RegisterN(x), RegisterN(y)) => {
                    r == Ok::<ProgramCounter, Fault>(ProgramCounter::Skip(
                        pre.registers.v@[x as int] != pre.registers.v@[y as int],
                    )) && Self::unchanged(pre, post)
                },
                Opcodes::LDI(Addr(nnn)) => {
                    r == Ok::<ProgramCounter, Fault>(ProgramCounter::Next) && Self::i_set(
                        pre,
                        post,
                        nnn,
                    )
                },
                Opcodes::JPV0(Addr(nnn)) => {
                    r == Ok::<ProgramCounter, Fault>(ProgramCounter::Jump(
                        (nnn + pre.registers.v@[0]) as usize,
                    )) && Self::unchanged(pre, post)
                },
                Opcodes::RND(RegisterN(x), Byte(kk)) => {
                    &&& r == Ok::<ProgramCounter, Fault>(ProgramCounter::Next)
                    &&& exists|b: u8|
                        Self::v_set(pre, post, pre.registers.v@.update(x as int, #[trigger] (b & kk)))
                },
                Opcodes::DRW(RegisterN(x), RegisterN(y), Nibble(n)) => {
                    let base = pre.registers.i as int;
                    if base + n > 4096 {
                        r == Err::<ProgramCounter, Fault>(Fault::OutOfBounds) && Self::unchanged(pre, post)
                    } else {
                        let sprite = pre.memory.value@.subrange(base, base + n);
                        let vx = pre.registers.v@[x as int] as int;
                        let vy = pre.registers.v@[y as int] as int;
                        let coll = blit_collides(pre.display.grid(), sprite, vx, vy);
                        &&& r == Ok::<ProgramCounter, Fault>(ProgramCounter::Next)
                        &&& post.memory == pre.memory
                        &&& post.stack == pre.stack
                        &&& post.keypad == pre.keypad
                        &&& post.last_pressed == pre.last_pressed
                        &&& Self::same_io(pre, post)
                        &&& post.registers.i == pre.registers.i
                        &&& post.registers.pc == pre.registers.pc
                        &&& post.registers.sp == pre.registers.sp
                        &&& post.registers.v@ == pre.registers.v@.update(
                            15,
                            if coll {
                                1u8
                            } else {
                                0u8
                            },
                        )
                        &&& post.display.wf()
                        &&& post.display.grid() == blit_grid(pre.display.grid(), sprite, vx, vy)
                    }
                },
                Opcodes::SKP(RegisterN(x)) => {
                    let vx = pre.registers.v@[x as int];
                    if vx >= 16 {
                        r == Err::<ProgramCounter, Fault>(Fault::OutOfBounds) && Self::unchanged(pre, post)
                    } else {
                        r == Ok::<ProgramCounter, Fault>(ProgramCounter::Skip(
                            pre.keypad@[vx as int],
                        )) && Self::unchanged(pre, post)
                    }
                },
                Opcodes::SKNP(RegisterN(x)) => {
                    let vx = pre.registers.v@[x as int];
                    if vx >= 16 {
                        r == Err::<ProgramCounter, Fault>(Fault::OutOfBounds) && Self::unchanged(pre, post)
                    } else {
                        r == Ok::<ProgramCounter, Fault>(ProgramCounter::Skip(
                            !pre.keypad@[vx as int],
                        )) && Self::unchanged(pre, post)
                    }
                },
                Opcodes::LDVXWITHDT(RegisterN(x)) => {
                    r == Ok::<ProgramCounter, Fault>(ProgramCounter::Next) && Self::v_set(
                        pre,
                        post,
                        pre.registers.v@.update(x as int, pre.delay_timer.time()),
                    )
                },
                Opcodes::LDK(RegisterN(x)) => {
                    match pre.last_pressed {
                        Some(k) => {
                            r == Ok::<ProgramCounter, Fault>(ProgramCounter::Next) && Self::v_set(
                                pre,
                                post,
                                pre.registers.v@.update(x as int, k),
                            )
                        },
                        None => {
                            r == Ok::<ProgramCounter, Fault>(ProgramCounter::Jump(
                                pre.registers.pc as usize,
                            )) && Self::unchanged(pre, post)
                        },
                    }
                },
                Opcodes::LDDTWITHVX(RegisterN(x)) => {
                    &&& r == Ok::<ProgramCounter, Fault>(ProgramCounter::Next)
                    &&& Self::timers_frame(pre, post)
                    &&& post.sound_timer == pre.sound_timer
                    &&& post.delay_timer.time() == pre.registers.v@[x as int]
                },
                Opcodes::LDST(RegisterN(x)) => {
                    &&& r == Ok::<ProgramCounter, Fault>(ProgramCounter::Next)
                    &&& Self::timers_frame(pre, post)
                    &&& post.delay_timer == pre.delay_timer
                    &&& post.sound_timer.time() == pre.registers.v@[x as int]
                },
                Opcodes::ADDI(RegisterN(x)) => {
                    let i2 = ((pre.registers.i + pre.registers.v@[x as int]) % 0x10000) as u16;
                    let flag: u8 = if i2 > 0x0F00 {
                        1
                    } else {
                        0
                    };
                    &&& r == Ok::<ProgramCounter, Fault>(ProgramCounter::Next)
                    &&& Self::only_regs_changed(pre, post)
                    &&& post.registers.i == i2
                    &&& post.registers.v@ == pre.registers.v@.update(15, flag)
                },
                Opcodes::LDSPRITE(RegisterN(x)) => {
                    let vx = pre.registers.v@[x as int];
                    if vx < 16 {
                        r == Ok::<ProgramCounter, Fault>(ProgramCounter::Next) && Self::i_set(
                            pre,
                            post,
                            (vx * 5) as u16,
                        )
                    } else {
                        r == Ok::<ProgramCounter, Fault>(ProgramCounter::Next) && Self::unchanged(pre, post)
                    }
                },
                Opcodes::LDBCD(RegisterN(x)) => {
                    let base = pre.registers.i as int;
                    let vx = pre.registers.v@[x as int];
                    if base + 3 > 4096 {
                        r == Err::<ProgramCounter, Fault>(Fault::OutOfBounds) && Self::unchanged(pre, post)
                    } else {
                        r == Ok::<ProgramCounter, Fault>(ProgramCounter::Next) && Self::mem_set(
                            pre,
                            post,
                            pre.memory.value@.update(base, (vx / 100) as u8).update(
                                base + 1,
                                ((vx / 10) % 10) as u8,
                            ).update(base + 2, (vx % 10) as u8),
                        )
                    }
                },
                Opcodes::LDTHROUGH(RegisterN(x)) => {
                    let base = pre.registers.i as int;
                    if base + x + 1 > 4096 {
                        r == Err::<ProgramCounter, Fault>(Fault::OutOfBounds) && Self::unchanged(pre, post)
                    } else {
                        &&& r == Ok::<ProgramCounter, Fault>(ProgramCounter::Next)
                        &&& post.stack == pre.stack
                        &&& post.display == pre.display
                        &&& post.keypad == pre.keypad
                        &&& post.last_pressed == pre.last_pressed
                        &&& Self::same_io(pre, post)
                        &&& post.registers == pre.registers
                        &&& forall|k: int|
                            0 <= k <= x ==> post.memory.value@[base + k] == pre.registers.v@[k]
                        &&& forall|a: int|
                            0 <= a < 4096 && !(base <= a <= base + x) ==> post.memory.value@[a]
                                == pre.memory.value@[a]
                    }
                },
                Opcodes::LDTHROUGHINTOI(RegisterN(x)) => {
                    let base = pre.registers.i as int;
                    if base + x + 1 > 4096 {
                        r == Err::<ProgramCounter, Fault>(Fault::OutOfBounds) && Self::unchanged(pre, post)
                    } else {
                        &&& r == Ok::<ProgramCounter, Fault>(ProgramCounter::Next)
                        &&& Self::only_regs_changed(pre, post)
                        &&& post.registers.i == pre.registers.i
                        &&& forall|k: int|
                            0 <= k <= x ==> post.registers.v@[k] == pre.memory.value@[base + k]
                        &&& forall|k: int| x < k < 16 ==> post.registers.v@[k] == pre.registers.v@[k]
                    }
                },
            },
        }
    }

    /// Builds an engine around a loaded memory image and the host's
    /// capabilities, with registers at their power-on values.
    pub fn new(memory: Memory, display: D, input_driver: I, sound_timer: ST, delay_timer: DT) -> (it:
        Interpreter<D, I, ST, DT>)
        requires
            display.wf(),
        ensures
            it.wf(),
            it.memory == memory,
            it.display == display,
            it.input_driver == input_driver,
            it.sound_timer == sound_timer,
            it.delay_timer == delay_timer,
            forall|k: int| 0 <= k < 16 ==> it.registers.v@[k] == 0,
            it.registers.i == 0x200,
            it.registers.pc == 0x200,
            it.registers.sp == 0,
            forall|k: int| 0 <= k < 16 ==> it.stack@[k] == 0,
            forall|k: int| 0 <= k < 16 ==> !it.keypad@[k],
            it.last_pressed is None,
    {
        let stack = [0u16; 16];
        let registers = Registers::new();
        let keypad = [false; 16];
        Interpreter {
            memory,
            registers,
            stack,
            display,
            keypad,
            last_pressed: None,
            input_driver,
            sound_timer,
            delay_timer,
        }
    }

    /// Decodes and executes one instruction word against the engine state,
    /// returning the program-counter disposition, or the fault that makes
    /// the word unrunnable.  `instr_post` states the exact transition for
    /// every instruction of the set.
    ///
    /// The wait-for-key instruction is rendered as a cooperative
    /// suspension: while no key press is remembered from the last poll, it
    /// leaves the program counter on itself, so the run loop polls again
    /// next cycle; the add-to-address-register instruction sets the flag
    /// register to whether the new address exceeds `0x0F00`.
    #[verifier::rlimit(50)]
    pub fn execute_opcode(&mut self, raw_opcode: u16) -> (r: Result<ProgramCounter, Fault>)
        requires
            old(self).wf(),
            old(self).registers.pc + 2 <= u16::MAX,
        ensures
            final(self).wf(),
            Self::instr_post(*old(self), *final(self), raw_opcode, r),
    {
        let opcode = match Opcodes::from_bytes(raw_opcode) {
            Some(op) => op,
            None => {
                return Err(Fault::DecodeError);
            },
        };
        match opcode {
            Opcodes::CLS => {
                self.display.clear();
                Ok(ProgramCounter::Next)
            },
            Opcodes::RET => {
                if self.registers.sp == 0 {
                    return Err(Fault::StackUnderflow);
                }
                self.registers.sp = self.registers.sp - 1;
                Ok(ProgramCounter::Jump(self.stack[self.registers.sp] as usize))
            },
            Opcodes::JP(Addr(value)) => Ok(ProgramCounter::Jump(value as usize)),
            Opcodes::CALL(Addr(value)) => {
                if self.registers.sp == 16 {
                    return Err(Fault::StackOverflow);
                }
                self.stack[self.registers.sp] = self.registers.pc + OPCODE_SIZE;
                self.registers.sp = self.registers.sp + 1;
                Ok(ProgramCounter::Jump(value as usize))
            },
            Opcodes::SEByte(RegisterN(x), Byte(value)) => {
                Ok(ProgramCounter::Skip(self.registers.v[x] == value))
            },
            Opcodes::SNE(RegisterN(x), Byte(value)) => {
                Ok(ProgramCounter::Skip(self.registers.v[x] != value))
            },
            Opcodes::SEReg(RegisterN(x), RegisterN(y)) => {
                Ok(ProgramCounter::Skip(self.registers.v[x] == self.registers.v[y]))
            },
            Opcodes::LDByte(RegisterN(x), Byte(value)) => {
                self.registers.v[x] = value;
                Ok(ProgramCounter::Next)
            },
            Opcodes::ADDByte(RegisterN(x), Byte(kk)) => {
                let vx = self.registers.v[x] as u16;
                let val = kk as u16;
                self.registers.v[x] = ((vx + val) % 256) as u8;
                Ok(ProgramCounter::Next)
            },
            Opcodes::LDReg(RegisterN(x), RegisterN(y)) => {
                self.registers.v[x] = self.registers.v[y];
                Ok(ProgramCounter::Next)
            },
            Opcodes::OR(RegisterN(x), RegisterN(y)) => {
                self.registers.v[x] = self.registers.v[x] | self.registers.v[y];
                Ok(ProgramCounter::Next)
            },
            Opcodes::ANDReg(RegisterN(x), RegisterN(y)) => {
                self.registers.v[x] = self.registers.v[x] & self.registers.v[y];
                Ok(ProgramCounter::Next)
            },
            Opcodes::XOR(RegisterN(x), RegisterN(y)) => {
                self.registers.v[x] = self.registers.v[x] ^ self.registers.v[y];
                Ok(ProgramCounter::Next)
            },
            Opcodes::ADDReg(RegisterN(x), RegisterN(y)) => {
                let vx = self.registers.v[x];
                let vy = self.registers.v[y];
                let sum = vx as u16 + vy as u16;
                if sum > 255 {
                    self.registers.set_vf(1);
                } else {
                    self.registers.set_vf(0);
                }
                self.registers.v[x] = (sum % 256) as u8;
                Ok(ProgramCounter::Next)
            },
            Opcodes::SUB(RegisterN(x), RegisterN(y)) => {
                let vx = self.registers.v[x];
                let vy = self.registers.v[y];
                if vx > vy {
                    self.registers.set_vf(1);
                } else {
                    self.registers.set_vf(0);
                }
                self.registers.v[x] = vx.wrapping_sub(vy);
                Ok(ProgramCounter::Next)
            },
            Opcodes::SHR(RegisterN(x)) => {
                let vx = self.registers.v[x];
                proof {
                    assert(vx & 1 == vx % 2) by (bit_vector);
                }
                self.registers.set_vf(vx & 1);
                self.registers.v[x] = vx / 2;
                Ok(ProgramCounter::Next)
            },
            Opcodes::SUBN(RegisterN(x), RegisterN(y)) => {
                let vx = self.registers.v[x];
                let vy = self.registers.v[y];
                if vy > vx {
                    self.registers.set_vf(1);
                } else {
                    self.registers.set_vf(0);
                }
                self.registers.v[x] = vy.wrapping_sub(vx);
                Ok(ProgramCounter::Next)
            },
            Opcodes::SHL(RegisterN(x)) => {
                let vx = self.registers.v[x];
                if vx >= 128 {
                    self.registers.set_vf(1);
                } else {
                    self.registers.set_vf(0);
                }
                self.registers.v[x] = ((vx as u16 * 2) % 256) as u8;
                Ok(ProgramCounter::Next)
            },
            Opcodes::SNEReg(RegisterN(x), RegisterN(y)) => {
                let vx = self.registers.v[x];
                let vy = self.registers.v[y];
                Ok(ProgramCounter::Skip(vx != vy))
            },
            Opcodes::LDI(Addr(v)) => {
                self.registers.i = v;
                Ok(ProgramCounter::Next)
            },
            Opcodes::JPV0(Addr(v)) => {
                let addr = v + self.registers.v[0] as u16;
                Ok(ProgramCounter::Jump(addr as usize))
            },
            Opcodes::RND(RegisterN(x), Byte(kk)) => {
                let rb = random_byte();
                self.registers.v[x] = rb & kk;
                Ok(ProgramCounter::Next)
            },
            Opcodes::DRW(RegisterN(x), RegisterN(y), Nibble(n)) => {
                let addr = self.registers.i as usize;
                if addr + n as usize > 4096 {
                    return Err(Fault::OutOfBounds);
                }
                let sprite = self.memory.read_range(addr, n as usize);
                let start_coord = (
                    self.registers.v[x] as usize,
                    self.registers.v[y] as usize,
                );
                let collided = self.display.draw_at(sprite.as_slice(), start_coord);
                self.registers.set_vf(if collided { 1 } else { 0 });
                Ok(ProgramCounter::Next)
            },
            Opcodes::SKP(RegisterN(x)) => {
                let vx = self.registers.v[x];
                if vx >= 16 {
                    return Err(Fault::OutOfBounds);
                }
                Ok(ProgramCounter::Skip(self.keypad[vx as usize]))
            },
            Opcodes::SKNP(RegisterN(x)) => {
                let vx = self.registers.v[x];
                if vx >= 16 {
                    return Err(Fault::OutOfBounds);
                }
                Ok(ProgramCounter::Skip(!self.keypad[vx as usize]))
            },
            Opcodes::LDVXWITHDT(RegisterN(x)) => {
                self.registers.v[x] = self.delay_timer.get();
                Ok(ProgramCounter::Next)
            },
            Opcodes::LDK(RegisterN(x)) => {
                match self.last_pressed {
                    Some(keycode) => {
                        self.registers.v[x] = keycode;
                        Ok(ProgramCounter::Next)
                    },
                    None => Ok(ProgramCounter::Jump(self.registers.pc as usize)),
                }
            },
            Opcodes::LDDTWITHVX(RegisterN(x)) => {
                self.delay_timer.set(self.registers.v[x]);
                Ok(ProgramCounter::Next)
            },
            Opcodes::LDST(RegisterN(x)) => {
                self.sound_timer.set(self.registers.v[x]);
                Ok(ProgramCounter::Next)
            },
            Opcodes::ADDI(RegisterN(x)) => {
                let i2 = self.registers.i.wrapping_add(self.registers.v[x] as u16);
                self.registers.i = i2;
                self.registers.set_vf(if i2 > 0x0F00 { 1 } else { 0 });
                Ok(ProgramCounter::Next)
            },
            Opcodes::LDSPRITE(RegisterN(x)) => {
                if let Some(mem_loc) = Memory::query_hex_location(self.registers.v[x]) {
                    self.registers.i = mem_loc as u16;
                }
                Ok(ProgramCounter::Next)
            },
            Opcodes::LDBCD(RegisterN(x)) => {
                let vx = self.registers.v[x];
                let mem_loc = self.registers.i as usize;
                if mem_loc + 3 > 4096 {
                    return Err(Fault::OutOfBounds);
                }
                self.memory.value[mem_loc] = vx / 100;
                self.memory.value[mem_loc + 1] = (vx / 10) % 10;
                self.memory.value[mem_loc + 2] = vx % 10;
                Ok(ProgramCounter::Next)
            },
            Opcodes::LDTHROUGH(RegisterN(x)) => {
                let mem_loc_start = self.registers.i as usize;
                if mem_loc_start + x + 1 > 4096 {
                    return Err(Fault::OutOfBounds);
                }
                let regs = self.registers.v;
                self.memory.store_bulk(&regs, mem_loc_start, x);
                Ok(ProgramCounter::Next)
            },
            Opcodes::LDTHROUGHINTOI(RegisterN(x)) => {
                let mem_loc_start = self.registers.i as usize;
                if mem_loc_start + x + 1 > 4096 {
                    return Err(Fault::OutOfBounds);
                }
                let bytes = self.memory.read_range(mem_loc_start, x + 1);
                self.registers.load_bulk(&bytes, x);
                proof {
                    assert forall|k: int| 0 <= k <= x implies self.registers.v@[k]
                        == self.memory.value@[mem_loc_start + k] by {
                        assert(bytes@[k] == self.memory.value@[mem_loc_start + k]);
                    }
                }
                Ok(ProgramCounter::Next)
            },
        }
    }
}

/// Relies on `rand::thread_rng` and `rand::Rng::gen`: one random byte.
/// Nothing is promised of the value; every caller must cope with any byte.
#[verifier::external_body]
fn random_byte() -> u8 {
    rand::thread_rng().gen::<u8>()
}

/// The 16-bit big-endian instruction word at address `pc` of a memory.
pub open spec fn fetch_word(m: Memory, pc: u16) -> u16 {
    (m.value@[pc as int] * 256 + m.value@[pc as int + 1]) as u16
}

impl<D, I, ST, DT> Interpreter<D, I, ST, DT> where
    I: EventPollable,
    D: Drawable,
    ST: TimerActions,
    DT: TimerActions,
 {
    /// The program counter after a disposition is applied at `pc`.
    pub open spec fn pc_after(pc: u16, d: ProgramCounter) -> int {
        match d {
            ProgramCounter::Next => pc + 2,
            ProgramCounter::Skip(cond) => if cond {
                pc + 4
            } else {
                pc + 2
            },
            ProgramCounter::Jump(a) => a as int,
        }
    }

    /// Everything except the input driver is untouched: the state after a
    /// cycle that was cut short by the terminate signal.
    pub open spec fn same_but_input(pre: Self, post: Self) -> bool {
        &&& post.memory == pre.memory
        &&& post.registers == pre.registers
        &&& post.stack == pre.stack
        &&& post.display == pre.display
        &&& post.keypad == pre.keypad
        &&& post.last_pressed == pre.last_pressed
        &&& post.sound_timer == pre.sound_timer
        &&& post.delay_timer == pre.delay_timer
    }

    /// What one engine cycle did.  `Ok(false)` reports the terminate
    /// signal, with the machine untouched.  `Ok(true)` says: some polled
    /// snapshot was taken over (`mid`), the instruction at the old program
    /// counter was executed exactly as `instr_post` states (`mid` to
    /// `mid2`), the disposition was applied to the program counter, and
    /// both timers counted down one step.  A fault leaves the machine as
    /// it stood, and is the one `instr_post` assigns to the fetched word —
    /// or an out-of-bounds fetch of the word itself.
    pub open spec fn step_post(pre: Self, post: Self, r: Result<bool, Fault>) -> bool {
        match r {
            Ok(cont) => {
                if !cont {
                    Self::same_but_input(pre, post)
                } else {
                    exists|mid: Self, mid2: Self, pcr: ProgramCounter|
                        #[trigger] Self::instr_post(
                            mid,
                            mid2,
                            fetch_word(pre.memory, pre.registers.pc),
                            Ok(pcr),
                        ) && {
                            &&& pre.registers.pc + 1 < 4096
                            &&& mid.memory == pre.memory
                            &&& mid.registers == pre.registers
                            &&& mid.stack == pre.stack
                            &&& mid.display == pre.display
                            &&& mid.sound_timer == pre.sound_timer
                            &&& mid.delay_timer == pre.delay_timer
                            &&& mid.keypad == post.keypad
                            &&& mid.last_pressed == post.last_pressed
                            &&& post.memory == mid2.memory
                            &&& post.registers.v == mid2.registers.v
                            &&& post.registers.i == mid2.registers.i
                            &&& post.registers.sp == mid2.registers.sp
                            &&& post.registers.pc == Self::pc_after(pre.registers.pc, pcr)
                            &&& post.stack == mid2.stack
                            &&& post.display == mid2.display
                            &&& post.keypad == mid2.keypad
                            &&& post.last_pressed == mid2.last_pressed
                            &&& post.delay_timer.time() == if mid2.delay_timer.time() > 0 {
                                (mid2.delay_timer.time() - 1) as u8
                            } else {
                                0u8
                            }
                            &&& post.sound_timer.time() == if mid2.sound_timer.time() > 0 {
                                (mid2.sound_timer.time() - 1) as u8
                            } else {
                                0u8
                            }
                        }
                }
            },
            Err(f) => {
                &&& post.memory == pre.memory
                &&& post.registers == pre.registers
                &&& post.stack == pre.stack
                &&& post.display == pre.display
                &&& post.sound_timer == pre.sound_timer
                &&& post.delay_timer == pre.delay_timer
                &&& if pre.registers.pc + 1 >= 4096 {
                    f == Fault::OutOfBounds
                } else {
                    Self::instr_post(
                        post,
                        post,
                        fetch_word(pre.memory, pre.registers.pc),
                        Err(f),
                    )
                }
            },
        }
    }

    /// One cycle of the fetch-decode-execute loop: polls the input for a
    /// fresh keypad snapshot (stopping cleanly on the terminate signal),
    /// fetches the word at the program counter, executes it, applies the
    /// program-counter disposition, and counts both timers down one step.
    #[verifier::rlimit(50)]
    pub fn step(&mut self) -> (r: Result<bool, Fault>)
        requires
            old(self).wf(),
        ensures
            final(self).wf(),
            Self::step_post(*old(self), *final(self), r),
    {
        let snapshot = match self.input_driver.poll() {
            Ok(k) => k,
            Err(()) => {
                return Ok(false);
            },
        };
        self.keypad = snapshot.keypad;
        self.last_pressed = snapshot.last_pressed;
        if self.registers.pc > 4094 {
            return Err(Fault::OutOfBounds);
        }
        let word = self.memory.read_instruction(self.registers.pc);
        let ghost mid = *self;
        let pcr = match self.execute_opcode(word) {
            Ok(p) => p,
            Err(f) => {
                proof {
                    assert(Self::unchanged(mid, *self));
                    lemma_fault_keeps_state(mid, *self, word, f);
                    assert(Self::instr_post(*self, *self, word, Err::<ProgramCounter, Fault>(f)));
                }
                return Err(f);
            },
        };
        let ghost mid2 = *self;
        proof {
            lemma_jump_fits(mid, mid2, word, pcr);
        }
        match pcr {
            ProgramCounter::Next => {
                self.registers.pc = self.registers.pc + OPCODE_SIZE;
            },
            ProgramCounter::Skip(true) => {
                self.registers.pc = self.registers.pc + 2 * OPCODE_SIZE;
            },
            ProgramCounter::Skip(false) => {
                self.registers.pc = self.registers.pc + OPCODE_SIZE;
            },
            ProgramCounter::Jump(addr) => {
                self.registers.pc = addr as u16;
            },
        }
        self.delay_timer.decrement();
        self.sound_timer.decrement();
        proof {
            assert(Self::instr_post(
                mid,
                mid2,
                fetch_word(old(self).memory, old(self).registers.pc),
                Ok::<ProgramCounter, Fault>(pcr),
            ));
        }
        Ok(true)
    }
}

/// Executing an instruction never moves the program counter itself — the
/// disposition does that — and a jump disposition always fits the 16-bit
/// program counter.
proof fn lemma_jump_fits<D, I, ST, DT>(
    pre: Interpreter<D, I, ST, DT>,
    post: Interpreter<D, I, ST, DT>,
    w: u16,
    pcr: ProgramCounter,
) where I: EventPollable, D: Drawable, ST: TimerActions, DT: TimerActions
    requires
        Interpreter::<D, I, ST, DT>::instr_post(pre, post, w, Ok(pcr)),
        pre.registers.pc + 2 <= u16::MAX,
    ensures
        post.registers.pc == pre.registers.pc,
        pcr matches ProgramCounter::Jump(a) ==> a <= u16::MAX,
{
}

/// The add instruction carries: for all 8-bit values `a` and `b` in `Vx`
/// and `Vy`, `ADD Vx,Vy` sets the flag register to 1 exactly when
/// `a + b > 255`, and stores `(a + b) mod 256` in `Vx`.  (When `Vx` is the
/// flag register itself, the wrapped sum overwrites the flag.)
pub proof fn lemma_add_sets_carry<D, I, ST, DT>(
    pre: Interpreter<D, I, ST, DT>,
    post: Interpreter<D, I, ST, DT>,
    w: u16,
    r: Result<ProgramCounter, Fault>,
    x: usize,
    y: usize,
) where I: EventPollable, D: Drawable, ST: TimerActions, DT: TimerActions
    requires
        decode_word(w) == Some(Opcodes::ADDReg(RegisterN(x), RegisterN(y))),
        Interpreter::<D, I, ST, DT>::instr_post(pre, post, w, r),
        x < 15,
        y < 16,
    ensures
        r == Ok::<ProgramCounter, Fault>(ProgramCounter::Next),
        post.registers.v@[15] == if pre.registers.v@[x as int] + pre.registers.v@[y as int] > 255 {
            1u8
        } else {
            0u8
        },
        post.registers.v@[x as int] == (pre.registers.v@[x as int] + pre.registers.v@[y as int])
            % 256,
{
}

/// The subtract instruction borrows: for all 8-bit values `a` and `b`,
/// `SUB Vx,Vy` sets the flag register to 1 exactly when `a > b` (no
/// borrow), and stores `(a - b) mod 256` in `Vx`.  (When `Vx` is the flag
/// register itself, the wrapped difference overwrites the flag.)
pub proof fn lemma_sub_sets_borrow<D, I, ST, DT>(
    pre: Interpreter<D, I, ST, DT>,
    post: Interpreter<D, I, ST, DT>,
    w: u16,
    r: Result<ProgramCounter, Fault>,
    x: usize,
    y: usize,
) where I: EventPollable, D: Drawable, ST: TimerActions, DT: TimerActions
    requires
        decode_word(w) == Some(Opcodes::SUB(RegisterN(x), RegisterN(y))),
        Interpreter::<D, I, ST, DT>::instr_post(pre, post, w, r),
        x < 15,
        y < 16,
    ensures
        r == Ok::<ProgramCounter, Fault>(ProgramCounter::Next),
        post.registers.v@[15] == if pre.registers.v@[x as int] > pre.registers.v@[y as int] {
            1u8
        } else {
            0u8
        },
        post.registers.v@[x as int] == (pre.registers.v@[x as int] - pre.registers.v@[y as int])
            % 256,
{
}

/// A return comes back to the instruction after the call: executing
/// `CALL addr` from program counter `p`, jumping to the routine, and
/// executing `RET` there yields a jump disposition to `p + 2`, with the
/// stack pointer restored to its value before the call.
pub proof fn lemma_call_then_ret<D, I, ST, DT>(
    s0: Interpreter<D, I, ST, DT>,
    s1: Interpreter<D, I, ST, DT>,
    s2: Interpreter<D, I, ST, DT>,
    s3: Interpreter<D, I, ST, DT>,
    w_call: u16,
    w_ret: u16,
    r1: Result<ProgramCounter, Fault>,
    r2: Result<ProgramCounter, Fault>,
) where I: EventPollable, D: Drawable, ST: TimerActions, DT: TimerActions
    requires
        decode_word(w_call) matches Some(Opcodes::CALL(_)),
        decode_word(w_ret) == Some(Opcodes::RET),
        s0.registers.sp < 16,
        s0.registers.pc + 2 <= u16::MAX,
        Interpreter::<D, I, ST, DT>::instr_post(s0, s1, w_call, r1),
        s2.stack == s1.stack,
        s2.registers.sp == s1.registers.sp,
        Interpreter::<D, I, ST, DT>::instr_post(s2, s3, w_ret, r2),
    ensures
        r2 == Ok::<ProgramCounter, Fault>(ProgramCounter::Jump(
            (s0.registers.pc + 2) as usize,
        )),
        s3.registers.sp == s0.registers.sp,
{
    assert(s1.stack@[s0.registers.sp as int] == (s0.registers.pc + 2) as u16);
}

/// Bulk register transfer round-trips: storing `V0 ..= Vx` to memory at
/// the address register and loading them back — with the address register
/// untouched in between, as both instructions leave it — reproduces the
/// original register values exactly.
pub proof fn lemma_bulk_round_trip<D, I, ST, DT>(
    s0: Interpreter<D, I, ST, DT>,
    s1: Interpreter<D, I, ST, DT>,
    s2: Interpreter<D, I, ST, DT>,
    s3: Interpreter<D, I, ST, DT>,
    w_store: u16,
    w_load: u16,
    x: usize,
) where I: EventPollable, D: Drawable, ST: TimerActions, DT: TimerActions
    requires
        decode_word(w_store) == Some(Opcodes::LDTHROUGH(RegisterN(x))),
        decode_word(w_load) == Some(Opcodes::LDTHROUGHINTOI(RegisterN(x))),
        Interpreter::<D, I, ST, DT>::instr_post(
            s0,
            s1,
            w_store,
            Ok(ProgramCounter::Next),
        ),
        s2.memory == s1.memory,
        s2.registers.v == s1.registers.v,
        s2.registers.i == s1.registers.i,
        Interpreter::<D, I, ST, DT>::instr_post(
            s2,
            s3,
            w_load,
            Ok(ProgramCounter::Next),
        ),
    ensures
        s3.registers.v@ =~= s0.registers.v@,
        s3.registers.i == s0.registers.i,
{
    assert(x < 16);
    let base = s0.registers.i as int;
    assert(base + x + 1 <= 4096);
    assert forall|k: int| 0 <= k < 16 implies s3.registers.v@[k] == s0.registers.v@[k] by {
        if k <= x {
            assert(s1.memory.value@[base + k] == s0.registers.v@[k]);
            assert(s3.registers.v@[k] == s2.memory.value@[base + k]);
        } else {
            assert(s3.registers.v@[k] == s2.registers.v@[k]);
        }
    }
}

/// A faulting instruction leaves the machine exactly as it stood, and the
/// same fault would come of executing the same word in the post state.
proof fn lemma_fault_keeps_state<D, I, ST, DT>(
    pre: Interpreter<D, I, ST, DT>,
    post: Interpreter<D, I, ST, DT>,
    w: u16,
    f: Fault,
) where I: EventPollable, D: Drawable, ST: TimerActions, DT: TimerActions
    requires
        Interpreter::<D, I, ST, DT>::instr_post(pre, post, w, Err(f)),
    ensures
        Interpreter::<D, I, ST, DT>::unchanged(pre, post),
        Interpreter::<D, I, ST, DT>::instr_post(post, post, w, Err(f)),
{
}

} // verus!
