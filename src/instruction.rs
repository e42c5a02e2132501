//! Chip-8 instructions and their decoding from 16-bit opcodes.
use vstd::prelude::*;

verus! {

/// A decoded Chip-8 instruction, with its operand fields already extracted.
///
/// `x` and `y` are register indices (0 to 15), `kk` an immediate byte, `addr` a 12-bit
/// address and `n` a 4-bit sprite height.
#[derive(Clone, Copy, PartialEq, Eq, Debug, Structural)]
pub enum Instruction {
    /// 00E0 - Clear the display
    Clear,
    /// 00EE - Return from a subroutine
    Return,
    /// 0nnn - Jump to a machine code routine at nnn (unused, ignored)
    MachineCall { addr: u16 },
    /// 1nnn - Jump to location nnn
    Jump { addr: u16 },
    /// 2nnn - Call subroutine at nnn
    Call { addr: u16 },
    /// 3xkk - Skip next instruction if Vx = kk
    SkipEqImm { x: usize, kk: u8 },
    /// 4xkk - Skip next instruction if Vx != kk
    SkipNeImm { x: usize, kk: u8 },
    /// 5xy0 - Skip next instruction if Vx = Vy
    SkipEqReg { x: usize, y: usize },
    /// 6xkk - Set Vx = kk
    LoadImm { x: usize, kk: u8 },
    /// 7xkk - Set Vx = Vx + kk (wrapping, VF unchanged)
    AddImm { x: usize, kk: u8 },
    /// 8xy0 - Set Vx = Vy
    CopyReg { x: usize, y: usize },
    /// 8xy1 - Set Vx = Vx OR Vy
    Or { x: usize, y: usize },
    /// 8xy2 - Set Vx = Vx AND Vy
    And { x: usize, y: usize },
    /// 8xy3 - Set Vx = Vx XOR Vy
    Xor { x: usize, y: usize },
    /// 8xy4 - Set Vx = Vx + Vy, VF = carry
    AddReg { x: usize, y: usize },
    /// 8xy5 - Set Vx = Vx - Vy, VF = NOT borrow
    SubReg { x: usize, y: usize },
    /// 8xy6 - Set Vx = Vy >> 1, VF = least significant bit of Vy
    ShiftRight { x: usize, y: usize },
    /// 8xy7 - Set Vx = Vy - Vx, VF = NOT borrow
    SubReverse { x: usize, y: usize },
    /// 8xyE - Set Vx = Vy << 1, VF = most significant bit of Vy
    ShiftLeft { x: usize, y: usize },
    /// 9xy0 - Skip next instruction if Vx != Vy
    SkipNeReg { x: usize, y: usize },
    /// Annn - Set I = nnn
    LoadAddr { addr: u16 },
    /// Bnnn - Jump to location V0 + nnn
    JumpOffset { addr: u16 },
    /// Cxkk - Set Vx = random byte AND kk
    Random { x: usize, kk: u8 },
    /// Dxyn - Draw the n-byte sprite at I at (Vx, Vy), VF = collision
    Draw { x: usize, y: usize, n: usize },
    /// Ex9E - Skip next instruction if the key with the value of Vx is pressed
    SkipKeyPressed { x: usize },
    /// ExA1 - Skip next instruction if the key with the value of Vx is not pressed
    SkipKeyNotPressed { x: usize },
    /// Fx07 - Set Vx = delay timer
    GetDelay { x: usize },
    /// Fx0A - Wait for a key press, store the key in Vx. While no key is pressed the program
    /// counter stays on this instruction, so it runs again on the next tick; otherwise the
    /// lowest pressed key is stored.
    WaitKey { x: usize },
    /// Fx15 - Set delay timer = Vx
    SetDelay { x: usize },
    /// Fx18 - Set sound timer = Vx
    SetSound { x: usize },
    /// Fx1E - Set I = I + Vx
    AddAddr { x: usize },
    /// Fx29 - Set I = location of the glyph for digit Vx
    LoadGlyph { x: usize },
    /// Fx33 - Store the decimal digits of Vx at I, I + 1 and I + 2
    StoreBcd { x: usize },
    /// Fx55 - Store V0 to Vx in memory starting at I, then I = I + x + 1
    StoreRegs { x: usize },
    /// Fx65 - Load V0 to Vx from memory starting at I, then I = I + x + 1
    LoadRegs { x: usize },
}

/// The leading nibble of an opcode: the instruction family.
pub open spec fn op_family(op: u16) -> int {
    op as int / 0x1000
}

/// The 12-bit stem of an opcode (nnn).
pub open spec fn op_addr(op: u16) -> u16 {
    (op as int % 0x1000) as u16
}

/// The second nibble of an opcode (x).
pub open spec fn op_x(op: u16) -> usize {
    ((op as int / 0x100) % 0x10) as usize
}

/// The third nibble of an opcode (y).
pub open spec fn op_y(op: u16) -> usize {
    ((op as int / 0x10) % 0x10) as usize
}

/// The trailing nibble of an opcode (n).
pub open spec fn op_n(op: u16) -> usize {
    (op as int % 0x10) as usize
}

/// The trailing byte of an opcode (kk).
pub open spec fn op_kk(op: u16) -> u8 {
    (op as int % 0x100) as u8
}

/// The instruction an opcode encodes, or `None` where it matches no instruction.
pub open spec fn decode_spec(op: u16) -> Option<Instruction> {
    let (x, y, kk, addr) = (op_x(op), op_y(op), op_kk(op), op_addr(op));
    let family = op_family(op);
    if family == 0x0 {
        if addr == 0x0E0 {
            Some(Instruction::Clear)
        } else if addr == 0x0EE {
            Some(Instruction::Return)
        } else {
            Some(Instruction::MachineCall { addr })
        }
    } else if family == 0x1 {
        Some(Instruction::Jump { addr })
    } else if family == 0x2 {
        Some(Instruction::Call { addr })
    } else if family == 0x3 {
        Some(Instruction::SkipEqImm { x, kk })
    } else if family == 0x4 {
        Some(Instruction::SkipNeImm { x, kk })
    } else if family == 0x5 {
        if op_n(op) == 0 {
            Some(Instruction::SkipEqReg { x, y })
        } else {
            None
        }
    } else if family == 0x6 {
        Some(Instruction::LoadImm { x, kk })
    } else if family == 0x7 {
        Some(Instruction::AddImm { x, kk })
    } else if family == 0x8 {
        decode_alu_spec(x, y, op_n(op))
    } else if family == 0x9 {
        if op_n(op) == 0 {
            Some(Instruction::SkipNeReg { x, y })
        } else {
            None
        }
    } else if family == 0xA {
        Some(Instruction::LoadAddr { addr })
    } else if family == 0xB {
        Some(Instruction::JumpOffset { addr })
    } else if family == 0xC {
        Some(Instruction::Random { x, kk })
    } else if family == 0xD {
        Some(Instruction::Draw { x, y, n: op_n(op) })
    } else if family == 0xE {
        if kk == 0x9E {
            Some(Instruction::SkipKeyPressed { x })
        } else if kk == 0xA1 {
            Some(Instruction::SkipKeyNotPressed { x })
        } else {
            None
        }
    } else {
        decode_misc_spec(x, kk)
    }
}

/// The register-to-register instruction `8xyN`, by its trailing nibble.
pub open spec fn decode_alu_spec(x: usize, y: usize, n: usize) -> Option<Instruction> {
    if n == 0x0 {
        Some(Instruction::CopyReg { x, y })
    } else if n == 0x1 {
        Some(Instruction::Or { x, y })
    } else if n == 0x2 {
        Some(Instruction::And { x, y })
    } else if n == 0x3 {
        Some(Instruction::Xor { x, y })
    } else if n == 0x4 {
        Some(Instruction::AddReg { x, y })
    } else if n == 0x5 {
        Some(Instruction::SubReg { x, y })
    } else if n == 0x6 {
        Some(Instruction::ShiftRight { x, y })
    } else if n == 0x7 {
        Some(Instruction::SubReverse { x, y })
    } else if n == 0xE {
        Some(Instruction::ShiftLeft { x, y })
    } else {
        None
    }
}

/// The instruction `FxKK`, by its trailing byte.
pub open spec fn decode_misc_spec(x: usize, kk: u8) -> Option<Instruction> {
    if kk == 0x07 {
        Some(Instruction::GetDelay { x })
    } else if kk == 0x0A {
        Some(Instruction::WaitKey { x })
    } else if kk == 0x15 {
        Some(Instruction::SetDelay { x })
    } else if kk == 0x18 {
        Some(Instruction::SetSound { x })
    } else if kk == 0x1E {
        Some(Instruction::AddAddr { x })
    } else if kk == 0x29 {
        Some(Instruction::LoadGlyph { x })
    } else if kk == 0x33 {
        Some(Instruction::StoreBcd { x })
    } else if kk == 0x55 {
        Some(Instruction::StoreRegs { x })
    } else if kk == 0x65 {
        Some(Instruction::LoadRegs { x })
    } else {
        None
    }
}

impl Instruction {
    /// Register indices are below 16, sprite heights below 16 and addresses below 0x1000.
    pub open spec fn wf(self) -> bool {
        match self {
            Instruction::MachineCall { addr } => addr < 0x1000,
            Instruction::Jump { addr } => addr < 0x1000,
            Instruction::Call { addr } => addr < 0x1000,
            Instruction::LoadAddr { addr } => addr < 0x1000,
            Instruction::JumpOffset { addr } => addr < 0x1000,
            Instruction::SkipEqImm { x, .. } => x < 16,
            Instruction::SkipNeImm { x, .. } => x < 16,
            Instruction::LoadImm { x, .. } => x < 16,
            Instruction::AddImm { x, .. } => x < 16,
            Instruction::Random { x, .. } => x < 16,
            Instruction::SkipEqReg { x, y } => x < 16 && y < 16,
            Instruction::SkipNeReg { x, y } => x < 16 && y < 16,
            Instruction::CopyReg { x, y } => x < 16 && y < 16,
            Instruction::Or { x, y } => x < 16 && y < 16,
            Instruction::And { x, y } => x < 16 && y < 16,
            Instruction::Xor { x, y } => x < 16 && y < 16,
            Instruction::AddReg { x, y } => x < 16 && y < 16,
            Instruction::SubReg { x, y } => x < 16 && y < 16,
            Instruction::ShiftRight { x, y } => x < 16 && y < 16,
            Instruction::SubReverse { x, y } => x < 16 && y < 16,
            Instruction::ShiftLeft { x, y } => x < 16 && y < 16,
            Instruction::Draw { x, y, n } => x < 16 && y < 16 && n < 16,
            Instruction::SkipKeyPressed { x } => x < 16,
            Instruction::SkipKeyNotPressed { x } => x < 16,
            Instruction::GetDelay { x } => x < 16,
            Instruction::WaitKey { x } => x < 16,
            Instruction::SetDelay { x } => x < 16,
            Instruction::SetSound { x } => x < 16,
            Instruction::AddAddr { x } => x < 16,
            Instruction::LoadGlyph { x } => x < 16,
            Instruction::StoreBcd { x } => x < 16,
            Instruction::StoreRegs { x } => x < 16,
            Instruction::LoadRegs { x } => x < 16,
            Instruction::Clear => true,
            Instruction::Return => true,
        }
    }
}

fn decode_alu(x: usize, y: usize, n: u16) -> (r: Option<Instruction>)
    ensures
        r == decode_alu_spec(x, y, n as usize),
{
    match n {
        0x0 => Some(Instruction::CopyReg { x, y }),
        0x1 => Some(Instruction::Or { x, y }),
        0x2 => Some(Instruction::And { x, y }),
        0x3 => Some(Instruction::Xor { x, y }),
        0x4 => Some(Instruction::AddReg { x, y }),
        0x5 => Some(Instruction::SubReg { x, y }),
        0x6 => Some(Instruction::ShiftRight { x, y }),
        0x7 => Some(Instruction::SubReverse { x, y }),
        0xE => Some(Instruction::ShiftLeft { x, y }),
        _ => None,
    }
}

fn decode_misc(x: usize, kk: u8) -> (r: Option<Instruction>)
    ensures
        r == decode_misc_spec(x, kk),
{
    match kk {
        0x07 => Some(Instruction::GetDelay { x }),
        0x0A => Some(Instruction::WaitKey { x }),
        0x15 => Some(Instruction::SetDelay { x }),
        0x18 => Some(Instruction::SetSound { x }),
        0x1E => Some(Instruction::AddAddr { x }),
        0x29 => Some(Instruction::LoadGlyph { x }),
        0x33 => Some(Instruction::StoreBcd { x }),
        0x55 => Some(Instruction::StoreRegs { x }),
        0x65 => Some(Instruction::LoadRegs { x }),
        _ => None,
    }
}

/// Decodes a big-endian opcode. Returns `None` for a bit pattern that matches no
/// instruction, including a known family whose sub-opcode is unknown (such as `5xy1`).
pub fn decode(op: u16) -> (r: Option<Instruction>)
    ensures
        r == decode_spec(op),
        r matches Some(instr) ==> instr.wf(),
{
    let family = op / 0x1000;
    let addr = op % 0x1000;
    let x = ((op / 0x100) % 0x10) as usize;
    let y = ((op / 0x10) % 0x10) as usize;
    let n = op % 0x10;
    let kk = (op % 0x100) as u8;
    match family {
        0x0 => {
            if addr == 0x0E0 {
                Some(Instruction::Clear)
            } else if addr == 0x0EE {
                Some(Instruction::Return)
            } else {
                Some(Instruction::MachineCall { addr })
            }
        },
        0x1 => Some(Instruction::Jump { addr }),
        0x2 => Some(Instruction::Call { addr }),
        0x3 => Some(Instruction::SkipEqImm { x, kk }),
        0x4 => Some(Instruction::SkipNeImm { x, kk }),
        0x5 => {
            if n == 0 {
                Some(Instruction::SkipEqReg { x, y })
            } else {
                None
            }
        },
        0x6 => Some(Instruction::LoadImm { x, kk }),
        0x7 => Some(Instruction::AddImm { x, kk }),
        0x8 => decode_alu(x, y, n),
        0x9 => {
            if n == 0 {
                Some(Instruction::SkipNeReg { x, y })
            } else {
                None
            }
        },
        0xA => Some(Instruction::LoadAddr { addr }),
        0xB => Some(Instruction::JumpOffset { addr }),
        0xC => Some(Instruction::Random { x, kk }),
        0xD => Some(Instruction::Draw { x, y, n: n as usize }),
        0xE => {
            if kk == 0x9E {
                Some(Instruction::SkipKeyPressed { x })
            } else if kk == 0xA1 {
                Some(Instruction::SkipKeyNotPressed { x })
            } else {
                None
            }
        },
        _ => decode_misc(x, kk),
    }
}

} // verus!
