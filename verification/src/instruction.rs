//! The instruction decoder: from a two-byte word to a tagged operation and
//! its operand fields.

use vstd::prelude::*;

use crate::error::Chip8Error;

verus! {

/// The operations of the instruction set.
#[allow(non_camel_case_types)]
#[derive(Clone, Copy, Debug, PartialEq, Eq, Structural)]
pub enum Opcodes {
    /// `00E0`: clear the screen.
    CLS,
    /// `00EE`: return from a subroutine.
    RET,
    /// `1nnn`: jump to `nnn`.
    JMP,
    /// `Bnnn`: jump to `nnn + V0`.
    JMP_VA,
    /// `2nnn`: call the subroutine at `nnn`.
    CALL,
    /// `3xkk`: skip the next instruction if `Vx == kk`.
    SE_VB,
    /// `5xy0`: skip the next instruction if `Vx == Vy`.
    SE_VV,
    /// `4xkk`: skip the next instruction if `Vx != kk`.
    SNE_VB,
    /// `9xy0`: skip the next instruction if `Vx != Vy`.
    SNE_VV,
    /// `8xy1`: `Vx |= Vy`.
    OR,
    /// `8xy2`: `Vx &= Vy`.
    AND,
    /// `8xy3`: `Vx ^= Vy`.
    XOR,
    /// `7xkk`: `Vx += kk`, wrapping, no flag.
    ADD_VB,
    /// `8xy4`: `Vx += Vy`, `VF` receives the carry.
    ADD_VV,
    /// `Fx1E`: `I += Vx`, `VF` tells whether the sum exceeds 255.
    ADD_IV,
    /// `8xy5`: `Vx -= Vy`, `VF` tells whether `Vx > Vy`.
    SUB,
    /// `8xy7`: `Vx = Vy - Vx`, `VF` tells whether `Vy > Vx`.
    SUBN,
    /// `8xy6`: `Vx >>= 1`, `VF` receives the bit shifted out.
    SHR,
    /// `8xyE`: `Vx` is doubled, `VF` receives the former top bit.
    SHL,
    /// `6xkk`: `Vx = kk`.
    LD_VB,
    /// `8xy0`: `Vx = Vy`.
    LD_VV,
    /// `Annn`: `I = nnn`.
    LD_IA,
    /// `Fx33`: store the decimal digits of `Vx` at `I`, `I + 1`, `I + 2`.
    LD_BV,
    /// `Fx55`: store the first `x` registers in memory from `I` on.
    LD_IV,
    /// `Fx65`: load the first `x` registers from memory at `I`.
    LD_VI,
    /// `Fx29`: `I` = address of the glyph for `Vx`.
    LD_FV,
    /// `Fx07`: `Vx` = delay timer.
    LD_VDT,
    /// `Fx15`: delay timer = `Vx`.
    LD_DTV,
    /// `Fx18`: sound timer = `Vx`.
    LD_STV,
    /// `Fx0A`: wait for a key, then `Vx` = that key.
    LD_VK,
    /// `Ex9E`: skip the next instruction if key `Vx` is pressed.
    SKP,
    /// `ExA1`: skip the next instruction if key `Vx` is not pressed.
    SKNP,
    /// `Cxkk`: `Vx` = random byte `& kk`.
    RND,
    /// `Dxyn`: draw an `n`-row sprite at (`Vx`, `Vy`).
    DRW,
}

/// A decoded instruction: the operation and the operand fields of its word.
///
/// All five fields are always filled in, whether or not the operation reads
/// them; each is a fixed slice of the word's bits.
#[derive(Clone, Copy, Debug, PartialEq, Eq, Structural)]
pub struct Instruction {
    /// The operation the word names.
    pub op: Opcodes,
    /// Bits 8 to 11: a register index.
    pub x: usize,
    /// Bits 4 to 7: a register index.
    pub y: usize,
    /// Bits 0 to 3.
    pub n: u8,
    /// The low byte.
    pub kk: u8,
    /// The low twelve bits: an address.
    pub nnn: u16,
}

/// The big-endian word made of two consecutive bytes.
pub open spec fn word_of(hi: u8, lo: u8) -> u16 {
    (hi * 256 + lo) as u16
}

/// The operation that `word` names, if it names one.
pub open spec fn classify(word: u16) -> Option<Opcodes> {
    let top = word / 0x1000;
    let n = word % 0x10;
    let kk = word % 0x100;
    if top == 0x0 {
        if word == 0x00E0 {
            Some(Opcodes::CLS)
        } else if word == 0x00EE {
            Some(Opcodes::RET)
        } else {
            None
        }
    } else if top == 0x1 {
        Some(Opcodes::JMP)
    } else if top == 0x2 {
        Some(Opcodes::CALL)
    } else if top == 0x3 {
        Some(Opcodes::SE_VB)
    } else if top == 0x4 {
        Some(Opcodes::SNE_VB)
    } else if top == 0x5 {
        if n == 0x0 {
            Some(Opcodes::SE_VV)
        } else {
            None
        }
    } else if top == 0x6 {
        Some(Opcodes::LD_VB)
    } else if top == 0x7 {
        Some(Opcodes::ADD_VB)
    } else if top == 0x8 {
        if n == 0x0 {
            Some(Opcodes::LD_VV)
        } else if n == 0x1 {
            Some(Opcodes::OR)
        } else if n == 0x2 {
            Some(Opcodes::AND)
        } else if n == 0x3 {
            Some(Opcodes::XOR)
        } else if n == 0x4 {
            Some(Opcodes::ADD_VV)
        } else if n == 0x5 {
            Some(Opcodes::SUB)
        } else if n == 0x6 {
            Some(Opcodes::SHR)
        } else if n == 0x7 {
            Some(Opcodes::SUBN)
        } else if n == 0xE {
            Some(Opcodes::SHL)
        } else {
            None
        }
    } else if top == 0x9 {
        if n == 0x0 {
            Some(Opcodes::SNE_VV)
        } else {
            None
        }
    } else if top == 0xA {
        Some(Opcodes::LD_IA)
    } else if top == 0xB {
        Some(Opcodes::JMP_VA)
    } else if top == 0xC {
        Some(Opcodes::RND)
    } else if top == 0xD {
        Some(Opcodes::DRW)
    } else if top == 0xE {
        if kk == 0x9E {
            Some(Opcodes::SKP)
        } else if kk == 0xA1 {
            Some(Opcodes::SKNP)
        } else {
            None
        }
    } else {
        if kk == 0x07 {
            Some(Opcodes::LD_VDT)
        } else if kk == 0x0A {
            Some(Opcodes::LD_VK)
        } else if kk == 0x15 {
            Some(Opcodes::LD_DTV)
        } else if kk == 0x18 {
            Some(Opcodes::LD_STV)
        } else if kk == 0x1E {
            Some(Opcodes::ADD_IV)
        } else if kk == 0x29 {
            Some(Opcodes::LD_FV)
        } else if kk == 0x33 {
            Some(Opcodes::LD_BV)
        } else if kk == 0x55 {
            Some(Opcodes::LD_IV)
        } else if kk == 0x65 {
            Some(Opcodes::LD_VI)
        } else {
            None
        }
    }
}

/// The instruction with operation `op` and the operand fields of `word`.
pub open spec fn with_fields(op: Opcodes, word: u16) -> Instruction {
    Instruction {
        op,
        x: ((word / 0x100) % 0x10) as usize,
        y: ((word / 0x10) % 0x10) as usize,
        n: (word % 0x10) as u8,
        kk: (word % 0x100) as u8,
        nnn: (word % 0x1000) as u16,
    }
}

/// What decoding the word `hi lo`, fetched at `addr`, yields.
pub open spec fn decoded(hi: u8, lo: u8, addr: usize) -> Result<Instruction, Chip8Error> {
    let word = word_of(hi, lo);
    match classify(word) {
        Some(op) => Ok(with_fields(op, word)),
        None => Err(Chip8Error::UnknownOpcode { opcode: word, pc: addr }),
    }
}

impl Instruction {
    /// The register indices name registers, and the other fields fit their
    /// bit widths.
    pub open spec fn wf(self) -> bool {
        &&& self.x < 16
        &&& self.y < 16
        &&& self.n < 16
        &&& self.nnn < 0x1000
    }

    /// Decodes the two bytes `raw`, fetched at address `addr`.
    ///
    /// The result depends on the bytes alone, except that the error for an
    /// unknown word also records `addr`.
    pub fn decode(raw: (u8, u8), addr: usize) -> (res: Result<Instruction, Chip8Error>)
        ensures
            res == decoded(raw.0, raw.1, addr),
            res matches Ok(inst) ==> inst.wf(),
    {
        let hi: u8 = raw.0;
        let lo: u8 = raw.1;
        let word: u16 = ((hi as u16) << 8) | (lo as u16);
        let top: u8 = hi >> 4;
        let x: u8 = hi & 0x0F;
        let y: u8 = lo >> 4;
        let n: u8 = lo & 0x0F;
        let nnn: u16 = word & 0x0FFF;
        proof {
            assert(word == hi * 256 + lo && top == word / 0x1000 && x == (word / 0x100) % 0x10 && y
                == (word / 0x10) % 0x10 && n == word % 0x10 && lo == word % 0x100 && nnn == word
                % 0x1000) by (bit_vector)
                requires
                    word == ((hi as u16) << 8) | (lo as u16),
                    top == hi >> 4,
                    x == hi & 0x0F,
                    y == lo >> 4,
                    n == lo & 0x0F,
                    nnn == word & 0x0FFF,
            ;
        }
        let op: Option<Opcodes> = match top {
            0x0 => match word {
                0x00E0 => Some(Opcodes::CLS),
                0x00EE => Some(Opcodes::RET),
                _ => None,
            },
            0x1 => Some(Opcodes::JMP),
            0x2 => Some(Opcodes::CALL),
            0x3 => Some(Opcodes::SE_VB),
            0x4 => Some(Opcodes::SNE_VB),
            0x5 => match n {
                0x0 => Some(Opcodes::SE_VV),
                _ => None,
            },
            0x6 => Some(Opcodes::LD_VB),
            0x7 => Some(Opcodes::ADD_VB),
            0x8 => match n {
                0x0 => Some(Opcodes::LD_VV),
                0x1 => Some(Opcodes::OR),
                0x2 => Some(Opcodes::AND),
                0x3 => Some(Opcodes::XOR),
                0x4 => Some(Opcodes::ADD_VV),
                0x5 => Some(Opcodes::SUB),
                0x6 => Some(Opcodes::SHR),
                0x7 => Some(Opcodes::SUBN),
                0xE => Some(Opcodes::SHL),
                _ => None,
            },
            0x9 => match n {
                0x0 => Some(Opcodes::SNE_VV),
                _ => None,
            },
            0xA => Some(Opcodes::LD_IA),
            0xB => Some(Opcodes::JMP_VA),
            0xC => Some(Opcodes::RND),
            0xD => Some(Opcodes::DRW),
            0xE => match lo {
                0x9E => Some(Opcodes::SKP),
                0xA1 => Some(Opcodes::SKNP),
                _ => None,
            },
            _ => match lo {
                0x07 => Some(Opcodes::LD_VDT),
                0x0A => Some(Opcodes::LD_VK),
                0x15 => Some(Opcodes::LD_DTV),
                0x18 => Some(Opcodes::LD_STV),
                0x1E => Some(Opcodes::ADD_IV),
                0x29 => Some(Opcodes::LD_FV),
                0x33 => Some(Opcodes::LD_BV),
                0x55 => Some(Opcodes::LD_IV),
                0x65 => Some(Opcodes::LD_VI),
                _ => None,
            },
        };
        match op {
            Some(op) => Ok(Instruction { op, x: x as usize, y: y as usize, n, kk: lo, nnn }),
            None => Err(Chip8Error::UnknownOpcode { opcode: word, pc: addr }),
        }
    }
}

} // verus!
