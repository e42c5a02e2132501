//! The Chip-8 machine state and the execution of single instructions.
use crate::constants::{FONT_ADDRESS, FONT_SIZE, GAME_ADDRESS, STACK_DEPTH, TOTAL_MEMORY};
use crate::instruction::{decode, decode_spec, Instruction};
use crate::screen::{blank_screen, blit, blit_collides, ChipScreen};
use crate::stack::{stack_items, CallStack};
use rand::Rng;
use vstd::prelude::*;

verus! {

/// An unrecoverable condition: execution must not continue after one.
#[derive(Clone, Copy, PartialEq, Eq, Debug, Structural)]
pub enum Fatal {
    /// The opcode matches no instruction.
    InvalidInstruction { opcode: u16 },
    /// A return with an empty call stack.
    StackUnderflow,
    /// A call with a full call stack.
    StackOverflow,
    /// An instruction fetch or a memory access that falls outside memory.
    AddressOutOfRange,
}

/// The machine's memory.
pub struct ChipMem {
    pub bytes: [u8; TOTAL_MEMORY],
}

impl View for ChipMem {
    type V = Seq<u8>;

    open spec fn view(&self) -> Seq<u8> {
        self.bytes@
    }
}

impl ChipMem {
    /// Zero-filled memory.
    pub fn new() -> (r: ChipMem)
        ensures
            r@ == Seq::new(TOTAL_MEMORY as nat, |a: int| 0u8),
    {
        let r = ChipMem { bytes: [0u8; TOTAL_MEMORY] };
        assert(r@ =~= Seq::new(TOTAL_MEMORY as nat, |a: int| 0u8));
        r
    }

    /// The byte at `addr`.
    pub fn read(&self, addr: usize) -> (r: u8)
        requires
            addr < TOTAL_MEMORY,
        ensures
            r == self@[addr as int],
    {
        self.bytes[addr]
    }
}

/// The mathematical model of the machine state.
pub struct ChipModel {
    /// Memory, `TOTAL_MEMORY` bytes
    pub mem: Seq<u8>,
    /// The display, one flag per cell, row by row
    pub screen: Seq<bool>,
    /// Return addresses, oldest first
    pub stack: Seq<usize>,
    /// The 16 general-purpose registers; register 15 doubles as the flag register
    pub v: Seq<u8>,
    /// Delay timer
    pub dt: u8,
    /// Sound timer
    pub st: u8,
    /// Address register
    pub i: u16,
    /// Program counter
    pub pc: usize,
}

/// The hex font: 16 glyphs of 5 rows each, for the digits 0 to F.
pub open spec fn font_glyphs() -> Seq<u8> {
    seq![
        0xF0u8, 0x90, 0x90, 0x90, 0xF0,  // 0
        0x20, 0x60, 0x20, 0x20, 0x70,  // 1
        0xF0, 0x10, 0xF0, 0x80, 0xF0,  // 2
        0xF0, 0x10, 0xF0, 0x10, 0xF0,  // 3
        0x90, 0x90, 0xF0, 0x10, 0x10,  // 4
        0xF0, 0x80, 0xF0, 0x10, 0xF0,  // 5
        0xF0, 0x80, 0xF0, 0x90, 0xF0,  // 6
        0xF0, 0x10, 0x20, 0x40, 0x40,  // 7
        0xF0, 0x90, 0xF0, 0x90, 0xF0,  // 8
        0xF0, 0x90, 0xF0, 0x10, 0xF0,  // 9
        0xF0, 0x90, 0xF0, 0x90, 0x90,  // A
        0xE0, 0x90, 0xE0, 0x90, 0xE0,  // B
        0xF0, 0x80, 0x80, 0x80, 0xF0,  // C
        0xE0, 0x90, 0x90, 0x90, 0xE0,  // D
        0xF0, 0x80, 0xF0, 0x80, 0xF0,  // E
        0xF0, 0x80, 0xF0, 0x80, 0x80,  // F
    ]
}

/// The state of a machine that was just initialized: zeroed memory holding the font at
/// `FONT_ADDRESS`, a blank screen, an empty stack, zeroed registers and timers, and the
/// program counter at `GAME_ADDRESS`.
pub open spec fn initial_model() -> ChipModel {
    ChipModel {
        mem: Seq::new(
            TOTAL_MEMORY as nat,
            |a: int|
                if FONT_ADDRESS <= a < FONT_ADDRESS + FONT_SIZE {
                    font_glyphs()[a - FONT_ADDRESS]
                } else {
                    0u8
                },
        ),
        screen: blank_screen(),
        stack: Seq::empty(),
        v: Seq::new(16, |r: int| 0u8),
        dt: 0,
        st: 0,
        i: 0,
        pc: GAME_ADDRESS,
    }
}

/// `a + b` modulo 256.
pub open spec fn wrap_add(a: u8, b: u8) -> u8 {
    ((a as int + b as int) % 256) as u8
}

/// `a - b` modulo 256.
pub open spec fn wrap_sub(a: u8, b: u8) -> u8 {
    ((a as int - b as int) % 256) as u8
}

/// 1 if `b` holds, 0 otherwise.
pub open spec fn flag(b: bool) -> u8 {
    if b {
        1
    } else {
        0
    }
}

/// The state with the program counter moved to the next instruction.
pub open spec fn advance(s: ChipModel) -> ChipModel {
    ChipModel { pc: (s.pc + 2) as usize, ..s }
}

/// The state with the next instruction skipped when `cond` holds.
pub open spec fn skip_if(s: ChipModel, cond: bool) -> ChipModel {
    ChipModel { pc: (if cond { s.pc + 4 } else { s.pc + 2 }) as usize, ..s }
}

/// The state with register `x` set to `val`.
pub open spec fn set_reg(s: ChipModel, x: int, val: u8) -> ChipModel {
    ChipModel { v: s.v.update(x, val), ..s }
}

/// Whether the key whose code is `k` is pressed.
pub open spec fn key_pressed(keys: Seq<bool>, k: u8) -> bool {
    k < 16 && keys[k as int]
}

/// The lowest pressed key at or above `from`, or 16 when there is none.
pub open spec fn first_pressed(keys: Seq<bool>, from: int) -> int
    decreases 16 - from,
{
    if from >= 16 {
        16
    } else if keys[from] {
        from
    } else {
        first_pressed(keys, from + 1)
    }
}

/// The address of the font glyph for the low nibble of `d`.
pub open spec fn glyph_address(d: u8) -> u16 {
    (FONT_ADDRESS + 5 * (d as int % 16)) as u16
}

/// The state after executing `instr`, or the fatal condition it meets. `keys` are the key
/// states of the current frame and `rnd` is the random byte that `Cxkk` draws.
pub open spec fn execute_spec(s: ChipModel, instr: Instruction, keys: Seq<bool>, rnd: u8) -> Result<
    ChipModel,
    Fatal,
> {
    match instr {
        Instruction::Clear => Ok(advance(ChipModel { screen: blank_screen(), ..s })),
        Instruction::Return => {
            if s.stack.len() == 0 {
                Err(Fatal::StackUnderflow)
            } else {
                Ok(ChipModel { pc: s.stack.last(), stack: s.stack.drop_last(), ..s })
            }
        },
        Instruction::MachineCall { .. } => Ok(advance(s)),
        Instruction::Jump { addr } => Ok(ChipModel { pc: addr as usize, ..s }),
        Instruction::Call { addr } => {
            if s.stack.len() >= STACK_DEPTH {
                Err(Fatal::StackOverflow)
            } else {
                Ok(ChipModel { pc: addr as usize, stack: s.stack.push((s.pc + 2) as usize), ..s })
            }
        },
        Instruction::SkipEqImm { x, kk } => Ok(skip_if(s, s.v[x as int] == kk)),
        Instruction::SkipNeImm { x, kk } => Ok(skip_if(s, s.v[x as int] != kk)),
        Instruction::SkipEqReg { x, y } => Ok(skip_if(s, s.v[x as int] == s.v[y as int])),
        Instruction::SkipNeReg { x, y } => Ok(skip_if(s, s.v[x as int] != s.v[y as int])),
        Instruction::LoadImm { x, kk } => Ok(advance(set_reg(s, x as int, kk))),
        Instruction::AddImm { x, kk } => Ok(advance(set_reg(s, x as int, wrap_add(s.v[x as int], kk)))),
        Instruction::CopyReg { x, y } => Ok(advance(set_reg(s, x as int, s.v[y as int]))),
        Instruction::Or { x, y } => Ok(advance(set_reg(s, x as int, s.v[x as int] | s.v[y as int]))),
        Instruction::And { x, y } => Ok(advance(set_reg(s, x as int, s.v[x as int] & s.v[y as int]))),
        Instruction::Xor { x, y } => Ok(advance(set_reg(s, x as int, s.v[x as int] ^ s.v[y as int]))),
        Instruction::AddReg { x, y } => {
            let (a, b) = (s.v[x as int], s.v[y as int]);
            Ok(advance(set_reg(set_reg(s, 15, flag(a + b > 255)), x as int, wrap_add(a, b))))
        },
        Instruction::SubReg { x, y } => {
            let (a, b) = (s.v[x as int], s.v[y as int]);
            Ok(advance(set_reg(set_reg(s, 15, flag(a >= b)), x as int, wrap_sub(a, b))))
        },
        Instruction::ShiftRight { x, y } => {
            let b = s.v[y as int];
            Ok(advance(set_reg(set_reg(s, 15, b % 2), x as int, b / 2)))
        },
        Instruction::SubReverse { x, y } => {
            let (a, b) = (s.v[x as int], s.v[y as int]);
            Ok(advance(set_reg(set_reg(s, 15, flag(b >= a)), x as int, wrap_sub(b, a))))
        },
        Instruction::ShiftLeft { x, y } => {
            let b = s.v[y as int];
            Ok(advance(set_reg(set_reg(s, 15, b / 128), x as int, wrap_add(b, b))))
        },
        Instruction::LoadAddr { addr } => Ok(advance(ChipModel { i: addr, ..s })),
        Instruction::JumpOffset { addr } => Ok(ChipModel { pc: (s.v[0] + addr) as usize, ..s }),
        Instruction::Random { x, kk } => Ok(advance(set_reg(s, x as int, rnd & kk))),
        Instruction::Draw { x, y, n } => {
            if s.i + n > TOTAL_MEMORY {
                Err(Fatal::AddressOutOfRange)
            } else {
                let sprite = s.mem.subrange(s.i as int, s.i + n);
                let (vx, vy) = (s.v[x as int], s.v[y as int]);
                Ok(
                    advance(
                        set_reg(
                            ChipModel { screen: blit(s.screen, sprite, vx, vy), ..s },
                            15,
                            flag(blit_collides(s.screen, sprite, vx, vy)),
                        ),
                    ),
                )
            }
        },
        Instruction::SkipKeyPressed { x } => Ok(skip_if(s, key_pressed(keys, s.v[x as int]))),
        Instruction::SkipKeyNotPressed { x } => Ok(skip_if(s, !key_pressed(keys, s.v[x as int]))),
        Instruction::GetDelay { x } => Ok(advance(set_reg(s, x as int, s.dt))),
        Instruction::WaitKey { x } => {
            let k = first_pressed(keys, 0);
            if k < 16 {
                Ok(advance(set_reg(s, x as int, k as u8)))
            } else {
                Ok(s)
            }
        },
        Instruction::SetDelay { x } => Ok(advance(ChipModel { dt: s.v[x as int], ..s })),
        Instruction::SetSound { x } => Ok(advance(ChipModel { st: s.v[x as int], ..s })),
        Instruction::AddAddr { x } => Ok(
            advance(ChipModel { i: ((s.i + s.v[x as int]) % 0x10000) as u16, ..s }),
        ),
        Instruction::LoadGlyph { x } => Ok(advance(ChipModel { i: glyph_address(s.v[x as int]), ..s })),
        Instruction::StoreBcd { x } => {
            if s.i + 3 > TOTAL_MEMORY {
                Err(Fatal::AddressOutOfRange)
            } else {
                let d = s.v[x as int];
                let a = s.i as int;
                Ok(
                    advance(
                        ChipModel {
                            mem: s.mem.update(a, d / 100).update(a + 1, (d / 10) % 10).update(
                                a + 2,
                                d % 10,
                            ),
                            ..s
                        },
                    ),
                )
            }
        },
        Instruction::StoreRegs { x } => {
            if s.i + x + 1 > TOTAL_MEMORY {
                Err(Fatal::AddressOutOfRange)
            } else {
                let a = s.i as int;
                Ok(
                    advance(
                        ChipModel {
                            mem: Seq::new(
                                s.mem.len(),
                                |m: int|
                                    if a <= m <= a + x {
                                        s.v[m - a]
                                    } else {
                                        s.mem[m]
                                    },
                            ),
                            i: (s.i + x + 1) as u16,
                            ..s
                        },
                    ),
                )
            }
        },
        Instruction::LoadRegs { x } => {
            if s.i + x + 1 > TOTAL_MEMORY {
                Err(Fatal::AddressOutOfRange)
            } else {
                let a = s.i as int;
                Ok(
                    advance(
                        ChipModel {
                            v: Seq::new(
                                s.v.len(),
                                |r: int|
                                    if r <= x {
                                        s.mem[a + r]
                                    } else {
                                        s.v[r]
                                    },
                            ),
                            i: (s.i + x + 1) as u16,
                            ..s
                        },
                    ),
                )
            }
        },
    }
}

/// The opcode stored big-endian at `pc`.
pub open spec fn opcode_at(mem: Seq<u8>, pc: int) -> u16 {
    (mem[pc] as int * 256 + mem[pc + 1] as int) as u16
}

/// One fetch-decode-execute cycle.
#[verifier::opaque]
pub open spec fn step_spec(s: ChipModel, keys: Seq<bool>, rnd: u8) -> Result<ChipModel, Fatal> {
    if s.pc + 1 >= TOTAL_MEMORY {
        Err(Fatal::AddressOutOfRange)
    } else {
        match decode_spec(opcode_at(s.mem, s.pc as int)) {
            None => Err(Fatal::InvalidInstruction { opcode: opcode_at(s.mem, s.pc as int) }),
            Some(instr) => execute_spec(s, instr, keys, rnd),
        }
    }
}

/// `r` reports `expected`: on success `after` is the expected state, on a fatal condition
/// the error is returned and the state is left as it was.
pub open spec fn outcome(
    r: Result<(), Fatal>,
    before: ChipModel,
    after: ChipModel,
    expected: Result<ChipModel, Fatal>,
) -> bool {
    match expected {
        Ok(s) => r is Ok && after == s,
        Err(e) => r == Err::<(), Fatal>(e) && after == before,
    }
}

/// The complete state of a Chip-8 machine.
pub struct ChipState {
    pub mem: ChipMem,
    pub screen: ChipScreen,
    pub stack: CallStack,
    pub v: [u8; 16],
    pub dt: u8,
    pub st: u8,
    pub i: u16,
    pub pc: usize,
}

impl View for ChipState {
    type V = ChipModel;

    open spec fn view(&self) -> ChipModel {
        ChipModel {
            mem: self.mem@,
            screen: self.screen@,
            stack: stack_items(self.stack),
            v: self.v@,
            dt: self.dt,
            st: self.st,
            i: self.i,
            pc: self.pc,
        }
    }
}

/// Relies on `rand::thread_rng` and `rand::Rng::gen`: a random byte drawn from the
/// thread-local generator.
#[verifier::external_body]
pub(crate) fn random_byte() -> (r: u8) {
    rand::thread_rng().gen::<u8>()
}

impl ChipState {
    /// The call stack holds at most `STACK_DEPTH` return addresses.
    pub open spec fn wf(&self) -> bool {
        stack_items(self.stack).len() <= STACK_DEPTH
    }

    /// The number of return addresses on the call stack.
    pub fn stack_depth(&self) -> (r: usize)
        ensures
            r == self@.stack.len(),
    {
        self.stack.len()
    }
}

impl ChipState {
    /// Executes a control-flow instruction: clear, return, machine-code call, jump, call, or
    /// jump with offset, or the load of the address register.
    fn execute_flow(&mut self, instr: Instruction) -> (r: Result<(), Fatal>)
        requires
            old(self).wf(),
            instr.wf(),
            old(self).pc + 1 < TOTAL_MEMORY,
            instr is Clear || instr is Return || instr is MachineCall || instr is Jump
                || instr is Call || instr is JumpOffset || instr is LoadAddr,
        ensures
            final(self).wf(),
            outcome(r, old(self)@, final(self)@, execute_spec(old(self)@, instr, Seq::empty(), 0)),
    {
        match instr {
            Instruction::Clear => {
                self.screen.clear();
                self.pc = self.pc + 2;
            },
            Instruction::Return => {
                match self.stack.pop() {
                    Some(addr) => {
                        self.pc = addr;
                    },
                    None => {
                        return Err(Fatal::StackUnderflow);
                    },
                }
            },
            Instruction::MachineCall { .. } => {
                self.pc = self.pc + 2;
            },
            Instruction::Jump { addr } => {
                self.pc = addr as usize;
            },
            Instruction::Call { addr } => {
                if self.stack.len() >= STACK_DEPTH {
                    return Err(Fatal::StackOverflow);
                }
                self.stack.push(self.pc + 2);
                self.pc = addr as usize;
            },
            Instruction::JumpOffset { addr } => {
                self.pc = self.v[0] as usize + addr as usize;
            },
            Instruction::LoadAddr { addr } => {
                self.i = addr;
                self.pc = self.pc + 2;
            },
            _ => {},
        }
        Ok(())
    }

    /// Executes a conditional skip.
    fn execute_skip(&mut self, instr: Instruction, keys: &[bool; 16]) -> (r: Result<(), Fatal>)
        requires
            old(self).wf(),
            instr.wf(),
            old(self).pc + 1 < TOTAL_MEMORY,
            instr is SkipEqImm || instr is SkipNeImm || instr is SkipEqReg || instr is SkipNeReg
                || instr is SkipKeyPressed || instr is SkipKeyNotPressed,
        ensures
            final(self).wf(),
            outcome(r, old(self)@, final(self)@, execute_spec(old(self)@, instr, keys@, 0)),
    {
        let skip = match instr {
            Instruction::SkipEqImm { x, kk } => self.v[x] == kk,
            Instruction::SkipNeImm { x, kk } => self.v[x] != kk,
            Instruction::SkipEqReg { x, y } => self.v[x] == self.v[y],
            Instruction::SkipNeReg { x, y } => self.v[x] != self.v[y],
            Instruction::SkipKeyPressed { x } => self.v[x] < 16 && keys[self.v[x] as usize],
            Instruction::SkipKeyNotPressed { x } => !(self.v[x] < 16 && keys[self.v[x] as usize]),
            _ => false,
        };
        self.pc = if skip {
            self.pc + 4
        } else {
            self.pc + 2
        };
        Ok(())
    }
}

impl ChipState {
    /// Executes a register instruction: `6xkk`, `7xkk`, the `8xyN` family and `Cxkk`.
    fn execute_alu(&mut self, instr: Instruction, rnd: u8) -> (r: Result<(), Fatal>)
        requires
            old(self).wf(),
            instr.wf(),
            old(self).pc + 1 < TOTAL_MEMORY,
            instr is LoadImm || instr is AddImm || instr is CopyReg || instr is Or || instr is And
                || instr is Xor || instr is AddReg || instr is SubReg || instr is ShiftRight
                || instr is SubReverse || instr is ShiftLeft || instr is Random,
        ensures
            final(self).wf(),
            outcome(r, old(self)@, final(self)@, execute_spec(old(self)@, instr, Seq::empty(), rnd)),
    {
        match instr {
            Instruction::LoadImm { x, kk } => {
                self.v[x] = kk;
            },
            Instruction::AddImm { x, kk } => {
                self.v[x] = ((self.v[x] as u16 + kk as u16) % 256) as u8;
            },
            Instruction::CopyReg { x, y } => {
                self.v[x] = self.v[y];
            },
            Instruction::Or { x, y } => {
                self.v[x] = self.v[x] | self.v[y];
            },
            Instruction::And { x, y } => {
                self.v[x] = self.v[x] & self.v[y];
            },
            Instruction::Xor { x, y } => {
                self.v[x] = self.v[x] ^ self.v[y];
            },
            Instruction::AddReg { x, y } => {
                let sum = self.v[x] as u16 + self.v[y] as u16;
                self.v[15] = if sum > 255 {
                    1
                } else {
                    0
                };
                self.v[x] = (sum % 256) as u8;
            },
            Instruction::SubReg { x, y } => {
                let (a, b) = (self.v[x], self.v[y]);
                self.v[15] = if a >= b {
                    1
                } else {
                    0
                };
                self.v[x] = ((a as u16 + 256 - b as u16) % 256) as u8;
            },
            Instruction::ShiftRight { x, y } => {
                let b = self.v[y];
                self.v[15] = b % 2;
                self.v[x] = b / 2;
            },
            Instruction::SubReverse { x, y } => {
                let (a, b) = (self.v[x], self.v[y]);
                self.v[15] = if b >= a {
                    1
                } else {
                    0
                };
                self.v[x] = ((b as u16 + 256 - a as u16) % 256) as u8;
            },
            Instruction::ShiftLeft { x, y } => {
                let b = self.v[y];
                self.v[15] = b / 128;
                self.v[x] = ((b as u16 * 2) % 256) as u8;
            },
            Instruction::Random { x, kk } => {
                self.v[x] = rnd & kk;
            },
            _ => {},
        }
        self.pc = self.pc + 2;
        Ok(())
    }

    /// Executes a timer, key-wait or address-register instruction of the `Fx` family.
    fn execute_misc(&mut self, instr: Instruction, keys: &[bool; 16]) -> (r: Result<(), Fatal>)
        requires
            old(self).wf(),
            instr.wf(),
            old(self).pc + 1 < TOTAL_MEMORY,
            instr is GetDelay || instr is WaitKey || instr is SetDelay || instr is SetSound
                || instr is AddAddr || instr is LoadGlyph,
        ensures
            final(self).wf(),
            outcome(r, old(self)@, final(self)@, execute_spec(old(self)@, instr, keys@, 0)),
    {
        match instr {
            Instruction::GetDelay { x } => {
                self.v[x] = self.dt;
            },
            Instruction::WaitKey { x } => {
                let mut k: usize = 0;
                while k < 16 && !keys[k]
                    invariant
                        k <= 16,
                        first_pressed(keys@, 0) == first_pressed(keys@, k as int),
                    decreases 16 - k,
                {
                    k = k + 1;
                }
                if k == 16 {
                    // No key is pressed: stay on this instruction, so that it is executed
                    // again on the next tick.
                    return Ok(());
                }
                self.v[x] = k as u8;
            },
            Instruction::SetDelay { x } => {
                self.dt = self.v[x];
            },
            Instruction::SetSound { x } => {
                self.st = self.v[x];
            },
            Instruction::AddAddr { x } => {
                self.i = self.i.wrapping_add(self.v[x] as u16);
            },
            Instruction::LoadGlyph { x } => {
                self.i = FONT_ADDRESS as u16 + 5 * (self.v[x] % 16) as u16;
            },
            _ => {},
        }
        self.pc = self.pc + 2;
        Ok(())
    }
}

impl ChipState {
    /// Executes a sprite draw `Dxyn`.
    fn execute_draw(&mut self, x: usize, y: usize, n: usize) -> (r: Result<(), Fatal>)
        requires
            old(self).wf(),
            x < 16,
            y < 16,
            n < 16,
            old(self).pc + 1 < TOTAL_MEMORY,
        ensures
            final(self).wf(),
            outcome(
                r,
                old(self)@,
                final(self)@,
                execute_spec(old(self)@, Instruction::Draw { x, y, n }, Seq::empty(), 0),
            ),
    {
        let addr = self.i as usize;
        if addr + n > TOTAL_MEMORY {
            return Err(Fatal::AddressOutOfRange);
        }
        let mut sprite: Vec<u8> = Vec::with_capacity(n);
        let mut k: usize = 0;
        while k < n
            invariant
                k <= n,
                addr + n <= TOTAL_MEMORY,
                sprite@ == self.mem@.subrange(addr as int, addr + k),
            decreases n - k,
        {
            sprite.push(self.mem.bytes[addr + k]);
            k = k + 1;
        }
        let collided = self.screen.render_sprite(sprite.as_slice(), self.v[x], self.v[y]);
        self.v[15] = if collided {
            1
        } else {
            0
        };
        self.pc = self.pc + 2;
        Ok(())
    }

    /// Executes `Fx33`: the decimal digits of Vx go to I, I + 1 and I + 2.
    fn execute_bcd(&mut self, x: usize) -> (r: Result<(), Fatal>)
        requires
            old(self).wf(),
            x < 16,
            old(self).pc + 1 < TOTAL_MEMORY,
        ensures
            final(self).wf(),
            outcome(
                r,
                old(self)@,
                final(self)@,
                execute_spec(old(self)@, Instruction::StoreBcd { x }, Seq::empty(), 0),
            ),
    {
        let addr = self.i as usize;
        if addr + 3 > TOTAL_MEMORY {
            return Err(Fatal::AddressOutOfRange);
        }
        let d = self.v[x];
        self.mem.bytes[addr] = d / 100;
        self.mem.bytes[addr + 1] = (d / 10) % 10;
        self.mem.bytes[addr + 2] = d % 10;
        self.pc = self.pc + 2;
        Ok(())
    }

    /// Executes `Fx55`: V0 to Vx go to memory starting at I, then I = I + x + 1.
    fn execute_store_regs(&mut self, x: usize) -> (r: Result<(), Fatal>)
        requires
            old(self).wf(),
            x < 16,
            old(self).pc + 1 < TOTAL_MEMORY,
        ensures
            final(self).wf(),
            outcome(
                r,
                old(self)@,
                final(self)@,
                execute_spec(old(self)@, Instruction::StoreRegs { x }, Seq::empty(), 0),
            ),
    {
        let addr = self.i as usize;
        if addr + x + 1 > TOTAL_MEMORY {
            return Err(Fatal::AddressOutOfRange);
        }
        let ghost mem0 = self.mem@;
        let mut k: usize = 0;
        while k <= x
            invariant
                k <= x + 1,
                x < 16,
                addr + x + 1 <= TOTAL_MEMORY,
                addr == old(self).i,
                self.v == old(self).v,
                self.mem@ == Seq::new(
                    mem0.len(),
                    |m: int|
                        if addr <= m < addr + k {
                            self.v@[m - addr]
                        } else {
                            mem0[m]
                        },
                ),
                self.screen == old(self).screen,
                self.stack == old(self).stack,
                self.dt == old(self).dt,
                self.st == old(self).st,
                self.i == old(self).i,
                self.pc == old(self).pc,
            decreases x + 1 - k,
        {
            self.mem.bytes[addr + k] = self.v[k];
            assert(self.mem@ =~= Seq::new(
                mem0.len(),
                |m: int|
                    if addr <= m < addr + k + 1 {
                        self.v@[m - addr]
                    } else {
                        mem0[m]
                    },
            ));
            k = k + 1;
        }
        self.i = self.i + x as u16 + 1;
        self.pc = self.pc + 2;
        proof {
            let s = old(self)@;
            assert(self.mem@ =~= Seq::new(
                s.mem.len(),
                |m: int|
                    if addr <= m <= addr + x {
                        s.v[m - addr]
                    } else {
                        s.mem[m]
                    },
            ));
        }
        Ok(())
    }

    /// Executes `Fx65`: V0 to Vx are read from memory starting at I, then I = I + x + 1.
    fn execute_load_regs(&mut self, x: usize) -> (r: Result<(), Fatal>)
        requires
            old(self).wf(),
            x < 16,
            old(self).pc + 1 < TOTAL_MEMORY,
        ensures
            final(self).wf(),
            outcome(
                r,
                old(self)@,
                final(self)@,
                execute_spec(old(self)@, Instruction::LoadRegs { x }, Seq::empty(), 0),
            ),
    {
        let addr = self.i as usize;
        if addr + x + 1 > TOTAL_MEMORY {
            return Err(Fatal::AddressOutOfRange);
        }
        let ghost v0 = self.v@;
        let mut k: usize = 0;
        while k <= x
            invariant
                k <= x + 1,
                x < 16,
                addr + x + 1 <= TOTAL_MEMORY,
                addr == old(self).i,
                self.v@ == Seq::new(
                    16,
                    |r: int|
                        if r < k {
                            self.mem@[addr + r]
                        } else {
                            v0[r]
                        },
                ),
                self.mem == old(self).mem,
                self.screen == old(self).screen,
                self.stack == old(self).stack,
                self.dt == old(self).dt,
                self.st == old(self).st,
                self.i == old(self).i,
                self.pc == old(self).pc,
            decreases x + 1 - k,
        {
            self.v[k] = self.mem.bytes[addr + k];
            assert(self.v@ =~= Seq::new(
                16,
                |r: int|
                    if r < k + 1 {
                        self.mem@[addr + r]
                    } else {
                        v0[r]
                    },
            ));
            k = k + 1;
        }
        self.i = self.i + x as u16 + 1;
        self.pc = self.pc + 2;
        proof {
            let s = old(self)@;
            assert(self.v@ =~= Seq::new(
                s.v.len(),
                |r: int|
                    if r <= x {
                        s.mem[addr + r]
                    } else {
                        s.v[r]
                    },
            ));
        }
        Ok(())
    }
}

impl ChipState {
    /// A machine with zeroed memory, registers and timers, a blank screen, an empty call
    /// stack and the program counter at `GAME_ADDRESS`.
    pub fn new() -> (r: ChipState)
        ensures
            r.wf(),
            r@ == (ChipModel {
                mem: Seq::new(TOTAL_MEMORY as nat, |a: int| 0u8),
                screen: blank_screen(),
                stack: Seq::empty(),
                v: Seq::new(16, |r: int| 0u8),
                dt: 0,
                st: 0,
                i: 0,
                pc: GAME_ADDRESS,
            }),
    {
        let r = ChipState {
            mem: ChipMem::new(),
            screen: ChipScreen::new(),
            stack: CallStack::new(),
            v: [0u8; 16],
            dt: 0,
            st: 0,
            i: 0,
            pc: GAME_ADDRESS,
        };
        assert(r.v@ =~= Seq::new(16, |r: int| 0u8));
        r
    }

    /// Executes one decoded instruction. `keys` holds the state of each of the 16 keys and
    /// `random` is the byte that `Cxkk` uses.
    ///
    /// The program counter moves past the instruction, except where the instruction itself
    /// sets it (jump, call, return, skip). On a fatal condition the state is left unchanged.
    pub fn execute(&mut self, instr: Instruction, keys: &[bool; 16], random: u8) -> (r: Result<
        (),
        Fatal,
    >)
        requires
            old(self).wf(),
            instr.wf(),
            old(self).pc + 1 < TOTAL_MEMORY,
        ensures
            final(self).wf(),
            outcome(r, old(self)@, final(self)@, execute_spec(old(self)@, instr, keys@, random)),
    {
        match instr {
            Instruction::Clear | Instruction::Return | Instruction::MachineCall { .. }
            | Instruction::Jump { .. } | Instruction::Call { .. } | Instruction::JumpOffset { .. }
            | Instruction::LoadAddr { .. } => self.execute_flow(instr),
            Instruction::SkipEqImm { .. } | Instruction::SkipNeImm { .. }
            | Instruction::SkipEqReg { .. } | Instruction::SkipNeReg { .. }
            | Instruction::SkipKeyPressed { .. } | Instruction::SkipKeyNotPressed { .. } => {
                self.execute_skip(instr, keys)
            },
            Instruction::GetDelay { .. } | Instruction::WaitKey { .. } | Instruction::SetDelay { .. }
            | Instruction::SetSound { .. } | Instruction::AddAddr { .. }
            | Instruction::LoadGlyph { .. } => self.execute_misc(instr, keys),
            Instruction::Draw { x, y, n } => self.execute_draw(x, y, n),
            Instruction::StoreBcd { x } => self.execute_bcd(x),
            Instruction::StoreRegs { x } => self.execute_store_regs(x),
            Instruction::LoadRegs { x } => self.execute_load_regs(x),
            _ => self.execute_alu(instr, random),
        }
    }

    /// Fetches the big-endian opcode at the program counter, decodes it and executes it.
    pub fn step(&mut self, keys: &[bool; 16], random: u8) -> (r: Result<(), Fatal>)
        requires
            old(self).wf(),
        ensures
            final(self).wf(),
            outcome(r, old(self)@, final(self)@, step_spec(old(self)@, keys@, random)),
    {
        reveal(step_spec);
        if self.pc >= TOTAL_MEMORY - 1 {
            return Err(Fatal::AddressOutOfRange);
        }
        let opcode = self.mem.bytes[self.pc] as u16 * 256 + self.mem.bytes[self.pc + 1] as u16;
        match decode(opcode) {
            None => Err(Fatal::InvalidInstruction { opcode }),
            Some(instr) => self.execute(instr, keys, random),
        }
    }

    /// Executes one Chip-8 instruction, with a fresh random byte for `Cxkk`.
    pub fn tick(&mut self, keys: &[bool; 16]) -> (r: Result<(), Fatal>)
        requires
            old(self).wf(),
        ensures
            final(self).wf(),
            exists|random: u8|
                outcome(r, old(self)@, final(self)@, #[trigger] step_spec(old(self)@, keys@, random)),
    {
        let random = random_byte();
        self.step(keys, random)
    }
}

/// A newly initialized machine: the font is loaded at `FONT_ADDRESS` and everything else is
/// as [`ChipState::new`] leaves it.
pub fn init() -> (r: ChipState)
    ensures
        r.wf(),
        r@ == initial_model(),
{
    let mut state = ChipState::new();
    let font: [u8; FONT_SIZE] = [
        0xF0, 0x90, 0x90, 0x90, 0xF0,  // 0
        0x20, 0x60, 0x20, 0x20, 0x70,  // 1
        0xF0, 0x10, 0xF0, 0x80, 0xF0,  // 2
        0xF0, 0x10, 0xF0, 0x10, 0xF0,  // 3
        0x90, 0x90, 0xF0, 0x10, 0x10,  // 4
        0xF0, 0x80, 0xF0, 0x10, 0xF0,  // 5
        0xF0, 0x80, 0xF0, 0x90, 0xF0,  // 6
        0xF0, 0x10, 0x20, 0x40, 0x40,  // 7
        0xF0, 0x90, 0xF0, 0x90, 0xF0,  // 8
        0xF0, 0x90, 0xF0, 0x10, 0xF0,  // 9
        0xF0, 0x90, 0xF0, 0x90, 0x90,  // A
        0xE0, 0x90, 0xE0, 0x90, 0xE0,  // B
        0xF0, 0x80, 0x80, 0x80, 0xF0,  // C
        0xE0, 0x90, 0x90, 0x90, 0xE0,  // D
        0xF0, 0x80, 0xF0, 0x80, 0xF0,  // E
        0xF0, 0x80, 0xF0, 0x80, 0x80,  // F
    ];
    assert(font@ =~= font_glyphs());
    let ghost zero = state@;
    assert(state.mem@ =~= Seq::new(
        TOTAL_MEMORY as nat,
        |a: int|
            if FONT_ADDRESS <= a < FONT_ADDRESS + 0 {
                font_glyphs()[a - FONT_ADDRESS]
            } else {
                0u8
            },
    ));
    let mut k: usize = 0;
    while k < FONT_SIZE
        invariant
            k <= FONT_SIZE,
            font@ == font_glyphs(),
            state.wf(),
            state@ == (ChipModel {
                mem: Seq::new(
                    TOTAL_MEMORY as nat,
                    |a: int|
                        if FONT_ADDRESS <= a < FONT_ADDRESS + k {
                            font_glyphs()[a - FONT_ADDRESS]
                        } else {
                            0u8
                        },
                ),
                ..zero
            }),
            zero.mem == Seq::new(TOTAL_MEMORY as nat, |a: int| 0u8),
            zero.screen == blank_screen(),
            zero.stack == Seq::<usize>::empty(),
            zero.v == Seq::new(16, |r: int| 0u8),
            zero.dt == 0 && zero.st == 0 && zero.i == 0 && zero.pc == GAME_ADDRESS,
        decreases FONT_SIZE - k,
    {
        state.mem.bytes[FONT_ADDRESS + k] = font[k];
        assert(state.mem@ =~= Seq::new(
            TOTAL_MEMORY as nat,
            |a: int|
                if FONT_ADDRESS <= a < FONT_ADDRESS + k + 1 {
                    font_glyphs()[a - FONT_ADDRESS]
                } else {
                    0u8
                },
        ));
        k = k + 1;
    }
    state
}

/// Setting Vx = a, then Vy = b, then adding Vy to Vx leaves (a + b) mod 256 in Vx and sets
/// the flag register to 1 exactly when a + b exceeds 255. Vx must be neither Vy nor the flag
/// register itself, which the addition overwrites.
pub proof fn lemma_add_sets_carry(
    s: ChipModel,
    x: usize,
    y: usize,
    a: u8,
    b: u8,
    keys: Seq<bool>,
    rnd: u8,
)
    requires
        s.v.len() == 16,
        x < 16,
        y < 16,
        x != y,
        x != 15,
    ensures
        ({
            let s1 = execute_spec(s, (Instruction::LoadImm { x, kk: a }), keys, rnd);
            let s2 = execute_spec(s1->Ok_0, (Instruction::LoadImm { x: y, kk: b }), keys, rnd);
            let s3 = execute_spec(s2->Ok_0, (Instruction::AddReg { x, y }), keys, rnd);
            &&& s1 is Ok
            &&& s2 is Ok
            &&& s3 is Ok
            &&& s3->Ok_0.v[x as int] == (a as int + b as int) % 256
            &&& s3->Ok_0.v[15] == (if a as int + b as int > 255 {
                1u8
            } else {
                0u8
            })
        }),
{
}

/// Setting Vx = a, then Vy = b, then subtracting Vy from Vx leaves (a - b) mod 256 in Vx and
/// sets the flag register to 1 exactly when a >= b (no borrow). Vx must be neither Vy nor the
/// flag register itself, which the subtraction overwrites.
pub proof fn lemma_sub_sets_no_borrow(
    s: ChipModel,
    x: usize,
    y: usize,
    a: u8,
    b: u8,
    keys: Seq<bool>,
    rnd: u8,
)
    requires
        s.v.len() == 16,
        x < 16,
        y < 16,
        x != y,
        x != 15,
    ensures
        ({
            let s1 = execute_spec(s, (Instruction::LoadImm { x, kk: a }), keys, rnd);
            let s2 = execute_spec(s1->Ok_0, (Instruction::LoadImm { x: y, kk: b }), keys, rnd);
            let s3 = execute_spec(s2->Ok_0, (Instruction::SubReg { x, y }), keys, rnd);
            &&& s1 is Ok
            &&& s2 is Ok
            &&& s3 is Ok
            &&& s3->Ok_0.v[x as int] == (a as int - b as int) % 256
            &&& s3->Ok_0.v[15] == (if a >= b {
                1u8
            } else {
                0u8
            })
        }),
{
}

/// Executing the opcode `1nnn` sets the program counter to exactly `nnn`, with nothing added,
/// and changes nothing else.
pub proof fn lemma_jump_sets_pc(s: ChipModel, nnn: u16, keys: Seq<bool>, rnd: u8)
    requires
        s.mem.len() == TOTAL_MEMORY,
        s.pc + 1 < TOTAL_MEMORY,
        nnn < 0x1000,
        opcode_at(s.mem, s.pc as int) == 0x1000 + nnn,
    ensures
        step_spec(s, keys, rnd) == Ok::<ChipModel, Fatal>(ChipModel { pc: nnn as usize, ..s }),
{
    reveal(step_spec);
    let op = opcode_at(s.mem, s.pc as int);
    assert(decode_spec(op) == Some(Instruction::Jump { addr: nnn }));
}

/// Executing a call `2nnn` and then the return `00EE` at `nnn` brings the program counter
/// back to exactly the instruction after the call, with the call stack as it was.
pub proof fn lemma_call_then_return(s: ChipModel, nnn: u16, keys: Seq<bool>, rnd: u8)
    requires
        s.mem.len() == TOTAL_MEMORY,
        s.pc + 1 < TOTAL_MEMORY,
        nnn + 1 < TOTAL_MEMORY,
        s.stack.len() < STACK_DEPTH,
        opcode_at(s.mem, s.pc as int) == 0x2000 + nnn,
        opcode_at(s.mem, nnn as int) == 0x00EE,
    ensures
        ({
            let s1 = step_spec(s, keys, rnd);
            let s2 = step_spec(s1->Ok_0, keys, rnd);
            &&& s1 is Ok
            &&& s1->Ok_0.pc == nnn
            &&& s2 is Ok
            &&& s2->Ok_0.pc == s.pc + 2
            &&& s2->Ok_0.stack == s.stack
        }),
{
    reveal(step_spec);
    assert(decode_spec(opcode_at(s.mem, s.pc as int)) == Some(Instruction::Call { addr: nnn }));
    assert(decode_spec(0x00EEu16) == Some(Instruction::Return));
    let s1 = step_spec(s, keys, rnd)->Ok_0;
    assert(s1.stack.drop_last() =~= s.stack);
}

} // verus!
