//! The executable machine. Each operation is proved to do to the machine
//! what the model in `machine` says it does.

use rand::Rng;
use vstd::prelude::*;
use vstd::slice::slice_subrange;

use crate::error::Chip8Error;
use crate::instruction::{Instruction, Opcodes};
use crate::machine::{last_pressed, span_fault, Machine, FONT_SET, MEMORY_SIZE, PROGRAM_START};
use crate::screen::Screen;

verus! {

/// A CHIP-8 machine: registers, timers, memory, call stack, keypad and
/// screen. The host loads a program, then calls `run` once per instruction,
/// updating the keypad and sampling the screen in between.
pub struct Chip8 {
    regs: [u8; 16],
    i: u16,
    dt: u8,
    st: u8,
    pc: usize,
    keys: [bool; 16],
    mem: [u8; 4096],
    stack: Vec<u16>,
    screen: Screen,
}

impl View for Chip8 {
    type V = Machine;

    closed spec fn view(&self) -> Machine {
        Machine {
            regs: self.regs@,
            i: self.i,
            dt: self.dt,
            st: self.st,
            pc: self.pc,
            keys: self.keys@,
            mem: self.mem@,
            stack: self.stack@,
            screen: self.screen@,
        }
    }
}

/// Draws one byte from `rand`'s thread-local generator, by
/// `rand::thread_rng` and `rand::Rng::gen`. Nothing is claimed of the byte:
/// callers must be correct for every value. The generator seeds itself from
/// the operating system on first use and aborts the thread if that fails.
#[verifier::external_body]
fn random_byte() -> (byte: u8) {
    rand::thread_rng().gen::<u8>()
}

/// Checks that the `len` bytes from `start` on lie within memory.
fn span_check(start: usize, len: usize) -> (res: Result<(), Chip8Error>)
    ensures
        match span_fault(start as int, len as int) {
            Some(fault) => res == Err::<(), Chip8Error>(fault),
            None => res is Ok,
        },
{
    if len > 0 && (start >= MEMORY_SIZE || len > MEMORY_SIZE - start) {
        Err(
            Chip8Error::AddressOutOfRange {
                addr: if start >= MEMORY_SIZE {
                    start
                } else {
                    MEMORY_SIZE
                },
            },
        )
    } else {
        Ok(())
    }
}

impl Chip8 {
    /// A machine with everything zero, no key down and a blank screen,
    /// ready to execute at `PROGRAM_START`.
    pub fn new() -> (vm: Chip8)
        ensures
            vm@ == Machine::initial(),
            vm@.wf(),
    {
        let vm = Chip8 {
            regs: [0u8; 16],
            i: 0,
            dt: 0,
            st: 0,
            pc: PROGRAM_START,
            keys: [false; 16],
            mem: [0u8; 4096],
            stack: Vec::new(),
            screen: Screen::new(),
        };
        proof {
            use_type_invariant(&vm.screen);
        }
        vm
    }

    /// Copies `rom` into memory from `PROGRAM_START` on, and the font to the
    /// bottom of memory. A program that does not fit is refused, and nothing
    /// is written.
    pub fn load_rom(&mut self, rom: &[u8]) -> (res: Result<(), Chip8Error>)
        ensures
            final(self)@.wf(),
            old(self)@.settles(
                match span_fault(PROGRAM_START as int, rom@.len() as int) {
                    Some(fault) => Err(fault),
                    None => Ok(old(self)@.loaded(rom@)),
                },
                final(self)@,
                res,
            ),
    {
        let len: usize = rom.len();
        match span_check(PROGRAM_START, len) {
            Err(fault) => {
                proof {
                    use_type_invariant(&self.screen);
                }
                return Err(fault);
            },
            Ok(_) => {},
        }
        let mut k: usize = 0;
        while k < len
            invariant
                k <= len,
                len == rom@.len(),
                PROGRAM_START + len <= MEMORY_SIZE,
                self@ == (Machine {
                    mem: Seq::new(
                        MEMORY_SIZE as nat,
                        |a: int|
                            if PROGRAM_START <= a < PROGRAM_START + k {
                                rom@[a - PROGRAM_START]
                            } else {
                                old(self)@.mem[a]
                            },
                    ),
                    ..old(self)@
                }),
            decreases len - k,
        {
            self.mem[PROGRAM_START + k] = rom[k];
            k += 1;
        }
        let mut k: usize = 0;
        while k < 80
            invariant
                k <= 80,
                len == rom@.len(),
                PROGRAM_START + len <= MEMORY_SIZE,
                self@ == (Machine {
                    mem: Seq::new(
                        MEMORY_SIZE as nat,
                        |a: int|
                            if a < k {
                                FONT_SET@[a]
                            } else if PROGRAM_START <= a < PROGRAM_START + len {
                                rom@[a - PROGRAM_START]
                            } else {
                                old(self)@.mem[a]
                            },
                    ),
                    ..old(self)@
                }),
            decreases 80 - k,
        {
            self.mem[k] = FONT_SET[k];
            k += 1;
        }
        proof {
            use_type_invariant(&self.screen);
        }
        Ok(())
    }

    /// Executes one instruction: fetch, decode, execute, then tick both
    /// timers. A random byte is drawn only if the instruction asks for one.
    /// On a fault the machine is left as it was.
    pub fn run(&mut self) -> (res: Result<(), Chip8Error>)
        ensures
            final(self)@.wf(),
            exists|entropy: u8| old(self)@.steps_to(entropy, final(self)@, res),
            !old(self)@.draws_entropy() ==> forall|entropy: u8|
                old(self)@.steps_to(entropy, final(self)@, res),
    {
        let entropy: u8 = if self.draws_entropy() {
            random_byte()
        } else {
            0
        };
        self.run_with(entropy)
    }

    /// Executes one instruction as `run` does, with `entropy` standing for
    /// the random byte that the instruction may ask for.
    pub fn run_with(&mut self, entropy: u8) -> (res: Result<(), Chip8Error>)
        ensures
            final(self)@.wf(),
            old(self)@.steps_to(entropy, final(self)@, res),
    {
        let res: Result<(), Chip8Error> = match self.fetch() {
            Err(fault) => Err(fault),
            Ok(inst) => match self.execute(&inst, entropy) {
                Err(fault) => Err(fault),
                Ok(_) => {
                    self.tick();
                    Ok(())
                },
            },
        };
        proof {
            use_type_invariant(&self.screen);
        }
        res
    }

    /// Marks every key as released.
    pub fn reset_keys(&mut self)
        ensures
            final(self)@.wf(),
            final(self)@ == (Machine { keys: Seq::new(16, |k: int| false), ..old(self)@ }),
    {
        proof {
            use_type_invariant(&self.screen);
        }
        self.keys = [false; 16];
    }

    /// Marks key `key` as held down.
    pub fn press(&mut self, key: u8)
        requires
            key < 16,
        ensures
            final(self)@.wf(),
            final(self)@ == (Machine {
                keys: old(self)@.keys.update(key as int, true),
                ..old(self)@
            }),
    {
        proof {
            use_type_invariant(&self.screen);
        }
        self.keys[key as usize] = true;
    }

    /// The general registers `V0` to `VF`.
    pub fn registers(&self) -> (regs: [u8; 16])
        ensures
            regs@ == self@.regs,
    {
        self.regs
    }

    /// The index register `I`.
    pub fn index(&self) -> (i: u16)
        ensures
            i == self@.i,
    {
        self.i
    }

    /// The delay timer.
    pub fn delay_timer(&self) -> (dt: u8)
        ensures
            dt == self@.dt,
    {
        self.dt
    }

    /// The sound timer; the host sounds its tone while this is not zero.
    pub fn sound_timer(&self) -> (st: u8)
        ensures
            st == self@.st,
    {
        self.st
    }

    /// The program counter.
    pub fn pc(&self) -> (pc: usize)
        ensures
            pc == self@.pc,
    {
        self.pc
    }

    /// The addresses of the calls that have not returned yet, oldest first.
    pub fn stack(&self) -> (stack: &[u16])
        ensures
            stack@ == self@.stack,
    {
        self.stack.as_slice()
    }

    /// Which of the sixteen keys are held down.
    pub fn keys(&self) -> (keys: [bool; 16])
        ensures
            keys@ == self@.keys,
    {
        self.keys
    }

    /// Memory.
    pub fn memory(&self) -> (mem: &[u8; 4096])
        ensures
            mem@ == self@.mem,
    {
        &self.mem
    }

    /// The screen, for the host to sample.
    pub fn screen(&self) -> (screen: &Screen)
        ensures
            screen@ == self@.screen,
            self@.wf(),
    {
        proof {
            use_type_invariant(&self.screen);
        }
        &self.screen
    }

    /// Whether the instruction at the program counter draws a random byte.
    fn draws_entropy(&self) -> (yes: bool)
        ensures
            yes == self@.draws_entropy(),
    {
        match self.fetch() {
            Ok(inst) => inst.op == Opcodes::RND,
            Err(_) => false,
        }
    }

    /// Reads and decodes the instruction at the program counter.
    fn fetch(&self) -> (res: Result<Instruction, Chip8Error>)
        ensures
            res == self@.fetch(),
            res matches Ok(inst) ==> inst.wf() && self@.pc + 1 < MEMORY_SIZE,
    {
        match span_check(self.pc, 2) {
            Err(fault) => Err(fault),
            Ok(_) => Instruction::decode((self.mem[self.pc], self.mem[self.pc + 1]), self.pc),
        }
    }

    /// Carries out `inst`, program counter included.
    fn execute(&mut self, inst: &Instruction, entropy: u8) -> (res: Result<(), Chip8Error>)
        requires
            inst.wf(),
            old(self)@.pc + 1 < MEMORY_SIZE,
        ensures
            old(self)@.settles(old(self)@.execute(*inst, entropy), final(self)@, res),
    {
        match inst.op {
            Opcodes::CLS => {
                self.cls(inst);
                Ok(())
            },
            Opcodes::RET => self.ret(inst),
            Opcodes::JMP => {
                self.jmp(inst);
                Ok(())
            },
            Opcodes::JMP_VA => {
                self.jmp_va(inst);
                Ok(())
            },
            Opcodes::CALL => {
                self.call(inst);
                Ok(())
            },
            Opcodes::SE_VB => {
                self.se_vb(inst);
                Ok(())
            },
            Opcodes::SE_VV => {
                self.se_vv(inst);
                Ok(())
            },
            Opcodes::SNE_VB => {
                self.sne_vb(inst);
                Ok(())
            },
            Opcodes::SNE_VV => {
                self.sne_vv(inst);
                Ok(())
            },
            Opcodes::OR => {
                self.or(inst);
                Ok(())
            },
            Opcodes::AND => {
                self.and(inst);
                Ok(())
            },
            Opcodes::XOR => {
                self.xor(inst);
                Ok(())
            },
            Opcodes::ADD_VB => {
                self.add_vb(inst);
                Ok(())
            },
            Opcodes::ADD_VV => {
                self.add_vv(inst);
                Ok(())
            },
            Opcodes::ADD_IV => {
                self.add_iv(inst);
                Ok(())
            },
            Opcodes::SUB => {
                self.sub(inst);
                Ok(())
            },
            Opcodes::SUBN => {
                self.subn(inst);
                Ok(())
            },
            Opcodes::SHR => {
                self.shr(inst);
                Ok(())
            },
            Opcodes::SHL => {
                self.shl(inst);
                Ok(())
            },
            Opcodes::LD_VB => {
                self.ld_vb(inst);
                Ok(())
            },
            Opcodes::LD_VV => {
                self.ld_vv(inst);
                Ok(())
            },
            Opcodes::LD_IA => {
                self.ld_ia(inst);
                Ok(())
            },
            Opcodes::LD_BV => self.ld_bv(inst),
            Opcodes::LD_IV => self.ld_iv(inst),
            Opcodes::LD_VI => self.ld_vi(inst),
            Opcodes::LD_FV => {
                self.ld_fv(inst);
                Ok(())
            },
            Opcodes::LD_VDT => {
                self.ld_vdt(inst);
                Ok(())
            },
            Opcodes::LD_DTV => {
                self.ld_dtv(inst);
                Ok(())
            },
            Opcodes::LD_STV => {
                self.ld_stv(inst);
                Ok(())
            },
            Opcodes::LD_VK => {
                self.ld_vk(inst);
                Ok(())
            },
            Opcodes::SKP => self.skp(inst),
            Opcodes::SKNP => self.sknp(inst),
            Opcodes::RND => {
                self.rnd(inst, entropy);
                Ok(())
            },
            Opcodes::DRW => self.drw(inst),
        }
    }

    /// Lets both timers decay by one.
    fn tick(&mut self)
        ensures
            final(self)@ == old(self)@.tick(),
    {
        if self.dt > 0 {
            self.dt -= 1;
        }
        if self.st > 0 {
            self.st -= 1;
        }
    }

    fn set_pc(&mut self, addr: u16)
        ensures
            final(self)@ == (Machine { pc: addr as usize, ..old(self)@ }),
    {
        self.pc = addr as usize;
    }

    fn inc_pc(&mut self)
        requires
            old(self)@.pc <= 0x1_0000,
        ensures
            final(self)@ == old(self)@.advance(2),
    {
        self.pc += 2;
    }

    /// Moves on to the next instruction, or past it if `cond` holds.
    fn skip_if(&mut self, cond: bool)
        requires
            old(self)@.pc < MEMORY_SIZE,
        ensures
            final(self)@ == old(self)@.skip_if(cond),
    {
        if cond {
            self.inc_pc();
        }
        self.inc_pc();
    }

    fn cls(&mut self, inst: &Instruction)
        requires
            old(self)@.pc < MEMORY_SIZE,
        ensures
            final(self)@ == old(self)@.cls(*inst),
    {
        self.screen.clear();
        self.inc_pc();
    }

    fn ret(&mut self, inst: &Instruction) -> (res: Result<(), Chip8Error>)
        ensures
            old(self)@.settles(old(self)@.ret(*inst), final(self)@, res),
    {
        match self.stack.pop() {
            Some(addr) => {
                self.set_pc(addr);
                self.inc_pc();
                Ok(())
            },
            None => Err(Chip8Error::StackUnderflow),
        }
    }

    fn jmp(&mut self, inst: &Instruction)
        ensures
            final(self)@ == old(self)@.jmp(*inst),
    {
        self.set_pc(inst.nnn);
    }

    fn jmp_va(&mut self, inst: &Instruction)
        requires
            inst.wf(),
        ensures
            final(self)@ == old(self)@.jmp_va(*inst),
    {
        let offset: u16 = self.regs[0] as u16;
        let addr: u16 = inst.nnn + offset;
        self.set_pc(addr);
    }

    fn call(&mut self, inst: &Instruction)
        requires
            old(self)@.pc + 1 < MEMORY_SIZE,
        ensures
            final(self)@ == old(self)@.call(*inst),
    {
        self.stack.push(self.pc as u16);
        self.set_pc(inst.nnn);
    }

    fn se_vb(&mut self, inst: &Instruction)
        requires
            inst.wf(),
            old(self)@.pc < MEMORY_SIZE,
        ensures
            final(self)@ == old(self)@.se_vb(*inst),
    {
        self.skip_if(self.regs[inst.x] == inst.kk);
    }

    fn se_vv(&mut self, inst: &Instruction)
        requires
            inst.wf(),
            old(self)@.pc < MEMORY_SIZE,
        ensures
            final(self)@ == old(self)@.se_vv(*inst),
    {
        self.skip_if(self.regs[inst.x] == self.regs[inst.y]);
    }

    fn sne_vb(&mut self, inst: &Instruction)
        requires
            inst.wf(),
            old(self)@.pc < MEMORY_SIZE,
        ensures
            final(self)@ == old(self)@.sne_vb(*inst),
    {
        self.skip_if(self.regs[inst.x] != inst.kk);
    }

    fn sne_vv(&mut self, inst: &Instruction)
        requires
            inst.wf(),
            old(self)@.pc < MEMORY_SIZE,
        ensures
            final(self)@ == old(self)@.sne_vv(*inst),
    {
        self.skip_if(self.regs[inst.x] != self.regs[inst.y]);
    }

    /// Sets register `x` and moves on to the next instruction.
    fn put(&mut self, x: usize, v: u8)
        requires
            x < 16,
            old(self)@.pc < MEMORY_SIZE,
        ensures
            final(self)@ == old(self)@.with_reg(x as int, v).advance(2),
    {
        self.regs[x] = v;
        self.inc_pc();
    }

    /// Sets `VF`, then register `x`, and moves on to the next instruction.
    fn put_flagged(&mut self, flag: bool, x: usize, v: u8)
        requires
            x < 16,
            old(self)@.pc < MEMORY_SIZE,
        ensures
            final(self)@ == old(self)@.with_flag_and_reg(flag, x as int, v).advance(2),
    {
        self.regs[0xF] = if flag {
            1
        } else {
            0
        };
        self.regs[x] = v;
        self.inc_pc();
    }

    fn or(&mut self, inst: &Instruction)
        requires
            inst.wf(),
            old(self)@.pc < MEMORY_SIZE,
        ensures
            final(self)@ == old(self)@.or(*inst),
    {
        self.put(inst.x, self.regs[inst.x] | self.regs[inst.y]);
    }

    fn and(&mut self, inst: &Instruction)
        requires
            inst.wf(),
            old(self)@.pc < MEMORY_SIZE,
        ensures
            final(self)@ == old(self)@.and(*inst),
    {
        self.put(inst.x, self.regs[inst.x] & self.regs[inst.y]);
    }

    fn xor(&mut self, inst: &Instruction)
        requires
            inst.wf(),
            old(self)@.pc < MEMORY_SIZE,
        ensures
            final(self)@ == old(self)@.xor(*inst),
    {
        self.put(inst.x, self.regs[inst.x] ^ self.regs[inst.y]);
    }

    fn add_vb(&mut self, inst: &Instruction)
        requires
            inst.wf(),
            old(self)@.pc < MEMORY_SIZE,
        ensures
            final(self)@ == old(self)@.add_vb(*inst),
    {
        self.put(inst.x, self.regs[inst.x].wrapping_add(inst.kk));
    }

    fn add_vv(&mut self, inst: &Instruction)
        requires
            inst.wf(),
            old(self)@.pc < MEMORY_SIZE,
        ensures
            final(self)@ == old(self)@.add_vv(*inst),
    {
        let x: u16 = self.regs[inst.x] as u16;
        let y: u16 = self.regs[inst.y] as u16;
        let res: u16 = x + y;
        assert(#[verifier::truncate] (res as u8) == res % 256) by (bit_vector);
        self.put_flagged(res > 255, inst.x, #[verifier::truncate] (res as u8));
    }

    fn add_iv(&mut self, inst: &Instruction)
        requires
            inst.wf(),
            old(self)@.pc < MEMORY_SIZE,
        ensures
            final(self)@ == old(self)@.add_iv(*inst),
    {
        let x: u16 = self.regs[inst.x] as u16;
        self.regs[0xF] = if self.i as u32 + x as u32 > 255 {
            1
        } else {
            0
        };
        self.i = self.i.wrapping_add(x);
        self.inc_pc();
    }

    fn sub(&mut self, inst: &Instruction)
        requires
            inst.wf(),
            old(self)@.pc < MEMORY_SIZE,
        ensures
            final(self)@ == old(self)@.sub(*inst),
    {
        let x: u8 = self.regs[inst.x];
        let y: u8 = self.regs[inst.y];
        self.put_flagged(x > y, inst.x, x.wrapping_sub(y));
    }

    fn subn(&mut self, inst: &Instruction)
        requires
            inst.wf(),
            old(self)@.pc < MEMORY_SIZE,
        ensures
            final(self)@ == old(self)@.subn(*inst),
    {
        let x: u8 = self.regs[inst.x];
        let y: u8 = self.regs[inst.y];
        self.put_flagged(y > x, inst.x, y.wrapping_sub(x));
    }

    fn shr(&mut self, inst: &Instruction)
        requires
            inst.wf(),
            old(self)@.pc < MEMORY_SIZE,
        ensures
            final(self)@ == old(self)@.shr(*inst),
    {
        let x: u8 = self.regs[inst.x];
        assert(((x & 0x1) == 1) == (x % 2 == 1) && x >> 1 == x / 2) by (bit_vector);
        self.put_flagged(x & 0x1 == 1, inst.x, x >> 1);
    }

    fn shl(&mut self, inst: &Instruction)
        requires
            inst.wf(),
            old(self)@.pc < MEMORY_SIZE,
        ensures
            final(self)@ == old(self)@.shl(*inst),
    {
        let x: u8 = self.regs[inst.x];
        assert(((x & 0xF0) >> 7 == 1) == (x >= 128)) by (bit_vector);
        self.regs[0xF] = if (x & 0xF0) >> 7 == 1 {
            1
        } else {
            0
        };
        let current: u8 = self.regs[inst.x];
        self.regs[inst.x] = current.wrapping_mul(2);
        self.inc_pc();
    }

    fn ld_vv(&mut self, inst: &Instruction)
        requires
            inst.wf(),
            old(self)@.pc < MEMORY_SIZE,
        ensures
            final(self)@ == old(self)@.ld_vv(*inst),
    {
        self.put(inst.x, self.regs[inst.y]);
    }

    fn ld_vb(&mut self, inst: &Instruction)
        requires
            inst.wf(),
            old(self)@.pc < MEMORY_SIZE,
        ensures
            final(self)@ == old(self)@.ld_vb(*inst),
    {
        self.put(inst.x, inst.kk);
    }

    fn ld_bv(&mut self, inst: &Instruction) -> (res: Result<(), Chip8Error>)
        requires
            inst.wf(),
            old(self)@.pc < MEMORY_SIZE,
        ensures
            old(self)@.settles(old(self)@.ld_bv(*inst), final(self)@, res),
    {
        let x: u8 = self.regs[inst.x];
        let at: usize = self.i as usize;
        match span_check(at, 3) {
            Err(fault) => {
                return Err(fault);
            },
            Ok(_) => {},
        }
        self.mem[at] = x / 100;
        self.mem[at + 1] = (x / 100) % 10;
        self.mem[at + 2] = (x % 100) % 10;
        self.inc_pc();
        Ok(())
    }

    fn ld_fv(&mut self, inst: &Instruction)
        requires
            inst.wf(),
            old(self)@.pc < MEMORY_SIZE,
        ensures
            final(self)@ == old(self)@.ld_fv(*inst),
    {
        let x: u16 = self.regs[inst.x] as u16;
        self.i = x * 5;
        self.inc_pc();
    }

    fn ld_vi(&mut self, inst: &Instruction) -> (res: Result<(), Chip8Error>)
        requires
            inst.wf(),
            old(self)@.pc < MEMORY_SIZE,
        ensures
            old(self)@.settles(old(self)@.ld_vi(*inst), final(self)@, res),
    {
        let count: usize = inst.x;
        let at: usize = self.i as usize;
        match span_check(at, count) {
            Err(fault) => {
                return Err(fault);
            },
            Ok(_) => {},
        }
        let mut k: usize = 0;
        while k < count
            invariant
                k <= count < 16,
                at == old(self)@.i,
                count > 0 ==> at + count <= MEMORY_SIZE,
                self@ == (Machine {
                    regs: Seq::new(
                        16,
                        |r: int|
                            if r < k {
                                old(self)@.mem[at + r]
                            } else {
                                old(self)@.regs[r]
                            },
                    ),
                    ..old(self)@
                }),
            decreases count - k,
        {
            self.regs[k] = self.mem[at + k];
            k += 1;
        }
        self.inc_pc();
        Ok(())
    }

    fn ld_iv(&mut self, inst: &Instruction) -> (res: Result<(), Chip8Error>)
        requires
            inst.wf(),
            old(self)@.pc < MEMORY_SIZE,
        ensures
            old(self)@.settles(old(self)@.ld_iv(*inst), final(self)@, res),
    {
        let count: usize = inst.x;
        let at: usize = self.i as usize;
        match span_check(at, count) {
            Err(fault) => {
                return Err(fault);
            },
            Ok(_) => {},
        }
        let mut k: usize = 0;
        while k < count
            invariant
                k <= count < 16,
                at == old(self)@.i,
                count > 0 ==> at + count <= MEMORY_SIZE,
                self@ == (Machine {
                    mem: Seq::new(
                        MEMORY_SIZE as nat,
                        |a: int|
                            if at <= a < at + k {
                                old(self)@.regs[a - at]
                            } else {
                                old(self)@.mem[a]
                            },
                    ),
                    ..old(self)@
                }),
            decreases count - k,
        {
            self.mem[at + k] = self.regs[k];
            k += 1;
        }
        self.inc_pc();
        Ok(())
    }

    fn ld_ia(&mut self, inst: &Instruction)
        requires
            old(self)@.pc < MEMORY_SIZE,
        ensures
            final(self)@ == old(self)@.ld_ia(*inst),
    {
        self.i = inst.nnn;
        self.inc_pc();
    }

    fn ld_vk(&mut self, inst: &Instruction)
        requires
            inst.wf(),
            old(self)@.pc < MEMORY_SIZE,
        ensures
            final(self)@ == old(self)@.ld_vk(*inst),
    {
        let mut key_pressed: bool = false;
        let mut k: usize = 0;
        while k < 16
            invariant
                k <= 16,
                inst.x < 16,
                self@.pc < MEMORY_SIZE,
                key_pressed == last_pressed(old(self)@.keys, k as nat) is Some,
                self@ == (match last_pressed(old(self)@.keys, k as nat) {
                    Some(key) => old(self)@.with_reg(inst.x as int, key),
                    None => old(self)@,
                }),
            decreases 16 - k,
        {
            if self.keys[k] {
                self.regs[inst.x] = k as u8;
                key_pressed = true;
            }
            k += 1;
        }
        if key_pressed {
            self.inc_pc();
        }
    }

    fn ld_vdt(&mut self, inst: &Instruction)
        requires
            inst.wf(),
            old(self)@.pc < MEMORY_SIZE,
        ensures
            final(self)@ == old(self)@.ld_vdt(*inst),
    {
        self.put(inst.x, self.dt);
    }

    fn ld_dtv(&mut self, inst: &Instruction)
        requires
            inst.wf(),
            old(self)@.pc < MEMORY_SIZE,
        ensures
            final(self)@ == old(self)@.ld_dtv(*inst),
    {
        self.dt = self.regs[inst.x];
        self.inc_pc();
    }

    fn ld_stv(&mut self, inst: &Instruction)
        requires
            inst.wf(),
            old(self)@.pc < MEMORY_SIZE,
        ensures
            final(self)@ == old(self)@.ld_stv(*inst),
    {
        self.st = self.regs[inst.x];
        self.inc_pc();
    }

    fn rnd(&mut self, inst: &Instruction, entropy: u8)
        requires
            inst.wf(),
            old(self)@.pc < MEMORY_SIZE,
        ensures
            final(self)@ == old(self)@.rnd(*inst, entropy),
    {
        self.put(inst.x, entropy & inst.kk);
    }

    fn drw(&mut self, inst: &Instruction) -> (res: Result<(), Chip8Error>)
        requires
            inst.wf(),
            old(self)@.pc < MEMORY_SIZE,
        ensures
            old(self)@.settles(old(self)@.drw(*inst), final(self)@, res),
    {
        let x: u8 = self.regs[inst.x];
        let y: u8 = self.regs[inst.y];
        let n: usize = inst.n as usize;
        let at: usize = self.i as usize;
        match span_check(at, n) {
            Err(fault) => {
                return Err(fault);
            },
            Ok(_) => {},
        }
        let start: usize = if n == 0 {
            0
        } else {
            at
        };
        self.regs[0xF] = 0;
        let rows = slice_subrange(self.mem.as_slice(), start, start + n);
        assert(rows@ =~= old(self)@.sprite(*inst));
        let collided: bool = self.screen.draw_sprite(x, y, rows);
        if collided {
            self.regs[0xF] = 1;
        }
        self.inc_pc();
        assert(self@ =~= old(self)@.drw(*inst).unwrap());
        Ok(())
    }

    fn skp(&mut self, inst: &Instruction) -> (res: Result<(), Chip8Error>)
        requires
            inst.wf(),
            old(self)@.pc < MEMORY_SIZE,
        ensures
            old(self)@.settles(old(self)@.skp(*inst), final(self)@, res),
    {
        let key: u8 = self.regs[inst.x];
        if key >= 16 {
            return Err(Chip8Error::KeyOutOfRange { key });
        }
        self.skip_if(self.keys[key as usize]);
        Ok(())
    }

    fn sknp(&mut self, inst: &Instruction) -> (res: Result<(), Chip8Error>)
        requires
            inst.wf(),
            old(self)@.pc < MEMORY_SIZE,
        ensures
            old(self)@.settles(old(self)@.sknp(*inst), final(self)@, res),
    {
        let key: u8 = self.regs[inst.x];
        if key >= 16 {
            return Err(Chip8Error::KeyOutOfRange { key });
        }
        self.skip_if(!self.keys[key as usize]);
        Ok(())
    }
}

} // verus!
