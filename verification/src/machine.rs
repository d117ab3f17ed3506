//! The mathematical model of the machine and the meaning of every operation
//! on it. The executable machine is proved to follow this model step by step.

use vstd::prelude::*;

use crate::error::Chip8Error;
use crate::instruction::{decoded, Instruction, Opcodes};
use crate::screen::{blank, blit, is_grid};

verus! {

/// Bytes of addressable memory.
pub const MEMORY_SIZE: usize = 4096;

/// Where programs are loaded and where execution starts.
pub const PROGRAM_START: usize = 0x200;

/// Bytes per glyph of the built-in font.
pub const GLYPH_SIZE: usize = 5;

/// The built-in font: the sixteen hexadecimal digits, five bytes each.
pub const FONT_SET: [u8; 80] = [
    0xf0, 0x90, 0x90, 0x90, 0xf0,
    0x20, 0x60, 0x20, 0x20, 0x70,
    0xf0, 0x10, 0xf0, 0x80, 0xf0,
    0xf0, 0x10, 0xf0, 0x10, 0xf0,
    0x90, 0x90, 0xf0, 0x10, 0x10,
    0xf0, 0x80, 0xf0, 0x10, 0xf0,
    0xf0, 0x80, 0xf0, 0x90, 0xf0,
    0xf0, 0x10, 0x20, 0x40, 0x40,
    0xf0, 0x90, 0xf0, 0x90, 0xf0,
    0xf0, 0x90, 0xf0, 0x10, 0xf0,
    0xf0, 0x90, 0xf0, 0x90, 0x90,
    0xe0, 0x90, 0xe0, 0x90, 0xe0,
    0xf0, 0x80, 0x80, 0x80, 0x80,
    0xe0, 0x90, 0x90, 0x90, 0xe0,
    0xf0, 0x80, 0xf0, 0x80, 0xf0,
    0xf0, 0x80, 0xf0, 0x80, 0x80,
];

/// The whole state of a machine between two steps.
#[verifier::ext_equal]
pub struct Machine {
    /// The general registers `V0` to `VF`.
    pub regs: Seq<u8>,
    /// The index register `I`.
    pub i: u16,
    /// The delay timer.
    pub dt: u8,
    /// The sound timer.
    pub st: u8,
    /// The program counter.
    pub pc: usize,
    /// Which of the sixteen keys are held down.
    pub keys: Seq<bool>,
    /// Memory.
    pub mem: Seq<u8>,
    /// The addresses of the calls that have not returned yet, oldest first.
    pub stack: Seq<u16>,
    /// The framebuffer, row after row.
    pub screen: Seq<u8>,
}

/// The error for an access to `len` bytes from `start` on, if any of them
/// lies outside memory: it names the first address that does.
pub open spec fn span_fault(start: int, len: int) -> Option<Chip8Error> {
    if len > 0 && start + len > MEMORY_SIZE {
        Some(
            Chip8Error::AddressOutOfRange {
                addr: if start >= MEMORY_SIZE {
                    start as usize
                } else {
                    MEMORY_SIZE
                },
            },
        )
    } else {
        None
    }
}

/// The highest of the first `n` keys that is held down, if any is.
pub open spec fn last_pressed(keys: Seq<bool>, n: nat) -> Option<u8>
    decreases n,
{
    if n == 0 {
        None
    } else if keys[n - 1] {
        Some((n - 1) as u8)
    } else {
        last_pressed(keys, (n - 1) as nat)
    }
}

/// `timer` after one tick: one less, but never below zero.
pub open spec fn decayed(timer: u8) -> u8 {
    if timer > 0 {
        (timer - 1) as u8
    } else {
        0
    }
}

impl Machine {
    /// Every part has its fixed size, and the framebuffer holds bits.
    pub open spec fn wf(self) -> bool {
        &&& self.regs.len() == 16
        &&& self.keys.len() == 16
        &&& self.mem.len() == MEMORY_SIZE
        &&& is_grid(self.screen)
    }

    /// The machine as it is created: everything zero, no key down, the
    /// screen blank, the stack empty, ready to execute at `PROGRAM_START`.
    pub open spec fn initial() -> Machine {
        Machine {
            regs: Seq::new(16, |k: int| 0u8),
            i: 0,
            dt: 0,
            st: 0,
            pc: PROGRAM_START,
            keys: Seq::new(16, |k: int| false),
            mem: Seq::new(MEMORY_SIZE as nat, |a: int| 0u8),
            stack: Seq::empty(),
            screen: blank(),
        }
    }

    /// The machine with the font at the bottom of memory and `rom` from
    /// `PROGRAM_START` on; all other bytes keep their value.
    pub open spec fn loaded(self, rom: Seq<u8>) -> Machine {
        Machine {
            mem: Seq::new(
                MEMORY_SIZE as nat,
                |a: int|
                    if a < FONT_SET@.len() {
                        FONT_SET@[a]
                    } else if PROGRAM_START <= a < PROGRAM_START + rom.len() {
                        rom[a - PROGRAM_START]
                    } else {
                        self.mem[a]
                    },
            ),
            ..self
        }
    }

    /// The value of the register that `inst` names with `x`.
    pub open spec fn vx(self, inst: Instruction) -> u8 {
        self.regs[inst.x as int]
    }

    /// The value of the register that `inst` names with `y`.
    pub open spec fn vy(self, inst: Instruction) -> u8 {
        self.regs[inst.y as int]
    }

    /// The program counter moved forward by `by` bytes.
    pub open spec fn advance(self, by: int) -> Machine {
        Machine { pc: (self.pc + by) as usize, ..self }
    }

    /// On to the next instruction, or past it if `cond` holds.
    pub open spec fn skip_if(self, cond: bool) -> Machine {
        self.advance(
            if cond {
                4
            } else {
                2
            },
        )
    }

    /// Register `r` set to `v`.
    pub open spec fn with_reg(self, r: int, v: u8) -> Machine {
        Machine { regs: self.regs.update(r, v), ..self }
    }

    /// `VF` set to `flag`, then register `x` set to `v`: when `x` names `VF`
    /// itself, the value wins over the flag.
    pub open spec fn with_flag_and_reg(self, flag: bool, x: int, v: u8) -> Machine {
        Machine {
            regs: self.regs.update(
                0xF,
                if flag {
                    1u8
                } else {
                    0u8
                },
            ).update(x, v),
            ..self
        }
    }

    /// Clear the screen.
    pub open spec fn cls(self, inst: Instruction) -> Machine {
        Machine { screen: blank(), ..self }.advance(2)
    }

    /// Return: resume after the most recent call that has not returned.
    pub open spec fn ret(self, inst: Instruction) -> Result<Machine, Chip8Error> {
        if self.stack.len() == 0 {
            Err(Chip8Error::StackUnderflow)
        } else {
            Ok(
                Machine {
                    pc: (self.stack.last() + 2) as usize,
                    stack: self.stack.drop_last(),
                    ..self
                },
            )
        }
    }

    /// Jump to `nnn`.
    pub open spec fn jmp(self, inst: Instruction) -> Machine {
        Machine { pc: inst.nnn as usize, ..self }
    }

    /// Jump to `nnn + V0`; the sum is not reduced in any way.
    pub open spec fn jmp_va(self, inst: Instruction) -> Machine {
        Machine { pc: (inst.nnn + self.regs[0]) as usize, ..self }
    }

    /// Call: remember where this instruction stands, then jump to `nnn`.
    pub open spec fn call(self, inst: Instruction) -> Machine {
        Machine { pc: inst.nnn as usize, stack: self.stack.push(self.pc as u16), ..self }
    }

    /// Skip if `Vx == kk`.
    pub open spec fn se_vb(self, inst: Instruction) -> Machine {
        self.skip_if(self.vx(inst) == inst.kk)
    }

    /// Skip if `Vx == Vy`.
    pub open spec fn se_vv(self, inst: Instruction) -> Machine {
        self.skip_if(self.vx(inst) == self.vy(inst))
    }

    /// Skip if `Vx != kk`.
    pub open spec fn sne_vb(self, inst: Instruction) -> Machine {
        self.skip_if(self.vx(inst) != inst.kk)
    }

    /// Skip if `Vx != Vy`.
    pub open spec fn sne_vv(self, inst: Instruction) -> Machine {
        self.skip_if(self.vx(inst) != self.vy(inst))
    }

    /// `Vx |= Vy`.
    pub open spec fn or(self, inst: Instruction) -> Machine {
        self.with_reg(inst.x as int, self.vx(inst) | self.vy(inst)).advance(2)
    }

    /// `Vx &= Vy`.
    pub open spec fn and(self, inst: Instruction) -> Machine {
        self.with_reg(inst.x as int, self.vx(inst) & self.vy(inst)).advance(2)
    }

    /// `Vx ^= Vy`.
    pub open spec fn xor(self, inst: Instruction) -> Machine {
        self.with_reg(inst.x as int, self.vx(inst) ^ self.vy(inst)).advance(2)
    }

    /// `Vx += kk` modulo 256; no flag is touched.
    pub open spec fn add_vb(self, inst: Instruction) -> Machine {
        self.with_reg(inst.x as int, ((self.vx(inst) + inst.kk) % 256) as u8).advance(2)
    }

    /// `Vx += Vy` modulo 256; `VF` tells whether the true sum exceeds 255.
    pub open spec fn add_vv(self, inst: Instruction) -> Machine {
        let sum = self.vx(inst) + self.vy(inst);
        self.with_flag_and_reg(sum > 255, inst.x as int, (sum % 256) as u8).advance(2)
    }

    /// `I += Vx` modulo 65536; `VF` tells whether the true sum exceeds 255.
    pub open spec fn add_iv(self, inst: Instruction) -> Machine {
        let sum = self.i + self.vx(inst);
        Machine {
            regs: self.regs.update(
                0xF,
                if sum > 255 {
                    1u8
                } else {
                    0u8
                },
            ),
            i: (sum % 0x10000) as u16,
            ..self
        }.advance(2)
    }

    /// `Vx -= Vy` modulo 256; `VF` tells whether `Vx > Vy`.
    pub open spec fn sub(self, inst: Instruction) -> Machine {
        let vx = self.vx(inst);
        let vy = self.vy(inst);
        self.with_flag_and_reg(vx > vy, inst.x as int, ((vx - vy) % 256) as u8).advance(2)
    }

    /// `Vx = Vy - Vx` modulo 256; `VF` tells whether `Vy > Vx`.
    pub open spec fn subn(self, inst: Instruction) -> Machine {
        let vx = self.vx(inst);
        let vy = self.vy(inst);
        self.with_flag_and_reg(vy > vx, inst.x as int, ((vy - vx) % 256) as u8).advance(2)
    }

    /// `Vx` is halved; `VF` receives the bit that falls off.
    pub open spec fn shr(self, inst: Instruction) -> Machine {
        let vx = self.vx(inst);
        self.with_flag_and_reg(vx % 2 == 1, inst.x as int, (vx / 2) as u8).advance(2)
    }

    /// `VF` receives the top bit of `Vx`; then `Vx`, as it stands after
    /// that, is doubled modulo 256. So when `x` names `VF`, it is the flag
    /// that is doubled.
    pub open spec fn shl(self, inst: Instruction) -> Machine {
        let flagged = self.regs.update(
            0xF,
            if self.vx(inst) >= 128 {
                1u8
            } else {
                0u8
            },
        );
        Machine {
            regs: flagged.update(inst.x as int, ((flagged[inst.x as int] * 2) % 256) as u8),
            ..self
        }.advance(2)
    }

    /// `Vx = kk`.
    pub open spec fn ld_vb(self, inst: Instruction) -> Machine {
        self.with_reg(inst.x as int, inst.kk).advance(2)
    }

    /// `Vx = Vy`.
    pub open spec fn ld_vv(self, inst: Instruction) -> Machine {
        self.with_reg(inst.x as int, self.vy(inst)).advance(2)
    }

    /// `I = nnn`.
    pub open spec fn ld_ia(self, inst: Instruction) -> Machine {
        Machine { i: inst.nnn, ..self }.advance(2)
    }

    /// Store three digits of `Vx` at `I`, `I + 1` and `I + 2`: the hundreds,
    /// the hundreds again modulo 10, and the units.
    pub open spec fn ld_bv(self, inst: Instruction) -> Result<Machine, Chip8Error> {
        let v = self.vx(inst);
        let at = self.i as int;
        match span_fault(at, 3) {
            Some(fault) => Err(fault),
            None => Ok(
                Machine {
                    mem: self.mem.update(at, (v / 100) as u8).update(
                        at + 1,
                        ((v / 100) % 10) as u8,
                    ).update(at + 2, ((v % 100) % 10) as u8),
                    ..self
                }.advance(2),
            ),
        }
    }

    /// Store the first `x` registers, `V0` up to but not including `Vx`, in
    /// memory from `I` on.
    pub open spec fn ld_iv(self, inst: Instruction) -> Result<Machine, Chip8Error> {
        let at = self.i as int;
        match span_fault(at, inst.x as int) {
            Some(fault) => Err(fault),
            None => Ok(
                Machine {
                    mem: Seq::new(
                        MEMORY_SIZE as nat,
                        |a: int|
                            if at <= a < at + inst.x {
                                self.regs[a - at]
                            } else {
                                self.mem[a]
                            },
                    ),
                    ..self
                }.advance(2),
            ),
        }
    }

    /// Load the first `x` registers, `V0` up to but not including `Vx`, from
    /// memory at `I`.
    pub open spec fn ld_vi(self, inst: Instruction) -> Result<Machine, Chip8Error> {
        let at = self.i as int;
        match span_fault(at, inst.x as int) {
            Some(fault) => Err(fault),
            None => Ok(
                Machine {
                    regs: Seq::new(
                        16,
                        |r: int|
                            if r < inst.x {
                                self.mem[at + r]
                            } else {
                                self.regs[r]
                            },
                    ),
                    ..self
                }.advance(2),
            ),
        }
    }

    /// `I` = where the glyph for `Vx` stands: five bytes per glyph from
    /// address 0.
    pub open spec fn ld_fv(self, inst: Instruction) -> Machine {
        Machine { i: (self.vx(inst) * GLYPH_SIZE) as u16, ..self }.advance(2)
    }

    /// `Vx` = delay timer.
    pub open spec fn ld_vdt(self, inst: Instruction) -> Machine {
        self.with_reg(inst.x as int, self.dt).advance(2)
    }

    /// Delay timer = `Vx`.
    pub open spec fn ld_dtv(self, inst: Instruction) -> Machine {
        Machine { dt: self.vx(inst), ..self }.advance(2)
    }

    /// Sound timer = `Vx`.
    pub open spec fn ld_stv(self, inst: Instruction) -> Machine {
        Machine { st: self.vx(inst), ..self }.advance(2)
    }

    /// Wait for a key: with a key down, `Vx` receives the highest key that
    /// is down and execution goes on; with none down, nothing changes, so
    /// that the same instruction is executed again by the next step.
    pub open spec fn ld_vk(self, inst: Instruction) -> Machine {
        match last_pressed(self.keys, 16) {
            Some(key) => self.with_reg(inst.x as int, key).advance(2),
            None => self,
        }
    }

    /// Skip if key `Vx` is down.
    pub open spec fn skp(self, inst: Instruction) -> Result<Machine, Chip8Error> {
        let key = self.vx(inst);
        if key < 16 {
            Ok(self.skip_if(self.keys[key as int]))
        } else {
            Err(Chip8Error::KeyOutOfRange { key })
        }
    }

    /// Skip if key `Vx` is not down.
    pub open spec fn sknp(self, inst: Instruction) -> Result<Machine, Chip8Error> {
        let key = self.vx(inst);
        if key < 16 {
            Ok(self.skip_if(!self.keys[key as int]))
        } else {
            Err(Chip8Error::KeyOutOfRange { key })
        }
    }

    /// `Vx = entropy & kk`.
    pub open spec fn rnd(self, inst: Instruction, entropy: u8) -> Machine {
        self.with_reg(inst.x as int, entropy & inst.kk).advance(2)
    }

    /// The `n` bytes that a draw reads from memory at `I`.
    pub open spec fn sprite(self, inst: Instruction) -> Seq<u8> {
        Seq::new(inst.n as nat, |r: int| self.mem[self.i + r])
    }

    /// Draw the sprite at `I`, `n` rows high, at (`Vx`, `Vy`); `VF` tells
    /// whether it collided.
    pub open spec fn drw(self, inst: Instruction) -> Result<Machine, Chip8Error> {
        match span_fault(self.i as int, inst.n as int) {
            Some(fault) => Err(fault),
            None => {
                let drawn = blit(self.screen, self.vx(inst), self.vy(inst), self.sprite(inst));
                Ok(
                    Machine {
                        regs: self.regs.update(
                            0xF,
                            if drawn.1 {
                                1u8
                            } else {
                                0u8
                            },
                        ),
                        screen: drawn.0,
                        ..self
                    }.advance(2),
                )
            },
        }
    }

    /// The instruction at the program counter.
    pub open spec fn fetch(self) -> Result<Instruction, Chip8Error> {
        match span_fault(self.pc as int, 2) {
            Some(fault) => Err(fault),
            None => decoded(self.mem[self.pc as int], self.mem[self.pc + 1], self.pc),
        }
    }

    /// The machine after `inst` has taken effect, program counter included,
    /// timers not yet. `entropy` is the byte that a random draw would yield.
    pub open spec fn execute(self, inst: Instruction, entropy: u8) -> Result<Machine, Chip8Error> {
        match inst.op {
            Opcodes::CLS => Ok(self.cls(inst)),
            Opcodes::RET => self.ret(inst),
            Opcodes::JMP => Ok(self.jmp(inst)),
            Opcodes::JMP_VA => Ok(self.jmp_va(inst)),
            Opcodes::CALL => Ok(self.call(inst)),
            Opcodes::SE_VB => Ok(self.se_vb(inst)),
            Opcodes::SE_VV => Ok(self.se_vv(inst)),
            Opcodes::SNE_VB => Ok(self.sne_vb(inst)),
            Opcodes::SNE_VV => Ok(self.sne_vv(inst)),
            Opcodes::OR => Ok(self.or(inst)),
            Opcodes::AND => Ok(self.and(inst)),
            Opcodes::XOR => Ok(self.xor(inst)),
            Opcodes::ADD_VB => Ok(self.add_vb(inst)),
            Opcodes::ADD_VV => Ok(self.add_vv(inst)),
            Opcodes::ADD_IV => Ok(self.add_iv(inst)),
            Opcodes::SUB => Ok(self.sub(inst)),
            Opcodes::SUBN => Ok(self.subn(inst)),
            Opcodes::SHR => Ok(self.shr(inst)),
            Opcodes::SHL => Ok(self.shl(inst)),
            Opcodes::LD_VB => Ok(self.ld_vb(inst)),
            Opcodes::LD_VV => Ok(self.ld_vv(inst)),
            Opcodes::LD_IA => Ok(self.ld_ia(inst)),
            Opcodes::LD_BV => self.ld_bv(inst),
            Opcodes::LD_IV => self.ld_iv(inst),
            Opcodes::LD_VI => self.ld_vi(inst),
            Opcodes::LD_FV => Ok(self.ld_fv(inst)),
            Opcodes::LD_VDT => Ok(self.ld_vdt(inst)),
            Opcodes::LD_DTV => Ok(self.ld_dtv(inst)),
            Opcodes::LD_STV => Ok(self.ld_stv(inst)),
            Opcodes::LD_VK => Ok(self.ld_vk(inst)),
            Opcodes::SKP => self.skp(inst),
            Opcodes::SKNP => self.sknp(inst),
            Opcodes::RND => Ok(self.rnd(inst, entropy)),
            Opcodes::DRW => self.drw(inst),
        }
    }

    /// Both timers after one tick.
    pub open spec fn tick(self) -> Machine {
        Machine { dt: decayed(self.dt), st: decayed(self.st), ..self }
    }

    /// One step: fetch, decode, execute, then tick the timers. The timers
    /// tick after the instruction, so one that sets a timer to 5 leaves it
    /// at 4.
    pub open spec fn step(self, entropy: u8) -> Result<Machine, Chip8Error> {
        match self.fetch() {
            Err(fault) => Err(fault),
            Ok(inst) => match self.execute(inst, entropy) {
                Err(fault) => Err(fault),
                Ok(next) => Ok(next.tick()),
            },
        }
    }

    /// The machine after one step for each byte of `entropy`, in order; the
    /// first fault ends the run.
    pub open spec fn steps(self, entropy: Seq<u8>) -> Result<Machine, Chip8Error>
        decreases entropy.len(),
    {
        if entropy.len() == 0 {
            Ok(self)
        } else {
            match self.steps(entropy.drop_last()) {
                Ok(mid) => mid.step(entropy.last()),
                Err(fault) => Err(fault),
            }
        }
    }

    /// Whether the next step executes the operation `op`.
    pub open spec fn at_op(self, op: Opcodes) -> bool {
        self.fetch() matches Ok(inst) && inst.op == op
    }

    /// Whether the next step draws a random byte.
    pub open spec fn draws_entropy(self) -> bool {
        self.at_op(Opcodes::RND)
    }

    /// Whether `after` and `res` are how an operation with the given
    /// `outcome` leaves a machine that was `self`: on success the machine is
    /// the outcome, on failure the fault is reported and nothing has changed.
    pub open spec fn settles(
        self,
        outcome: Result<Machine, Chip8Error>,
        after: Machine,
        res: Result<(), Chip8Error>,
    ) -> bool {
        match outcome {
            Ok(next) => res is Ok && after == next,
            Err(fault) => res == Err::<(), Chip8Error>(fault) && after == self,
        }
    }

    /// Whether `after` and `res` are what one step from `self` yields when
    /// a random draw gives `entropy`.
    pub open spec fn steps_to(self, entropy: u8, after: Machine, res: Result<(), Chip8Error>) -> bool {
        self.settles(self.step(entropy), after, res)
    }
}

} // verus!
