use vstd::prelude::*;

verus! {

/// One decoded instruction. `x` and `y` name registers, `nn` is an 8-bit
/// immediate, `n` a 4-bit immediate and `addr` a 12-bit address.
#[derive(Debug, Clone, Copy, PartialEq, Eq, Structural)]
pub enum Instruction {
    /// 00E0: clear the display.
    ClearScreen,
    /// 00EE: return from a subroutine.
    Return,
    /// 1nnn: jump to `addr`.
    Jump { addr: u16 },
    /// 2nnn: call the subroutine at `addr`.
    Call { addr: u16 },
    /// 3xnn: skip the next instruction if Vx == nn.
    SkipEqImm { x: u8, nn: u8 },
    /// 4xnn: skip the next instruction if Vx != nn.
    SkipNeImm { x: u8, nn: u8 },
    /// 5xy0: skip the next instruction if Vx == Vy.
    SkipEqReg { x: u8, y: u8 },
    /// 9xy0: skip the next instruction if Vx != Vy.
    SkipNeReg { x: u8, y: u8 },
    /// 6xnn: Vx = nn.
    LoadImm { x: u8, nn: u8 },
    /// 7xnn: Vx = Vx + nn, wrapping, VF untouched.
    AddImm { x: u8, nn: u8 },
    /// 8xy0: Vx = Vy.
    Move { x: u8, y: u8 },
    /// 8xy1: Vx = Vx | Vy.
    Or { x: u8, y: u8 },
    /// 8xy2: Vx = Vx & Vy.
    And { x: u8, y: u8 },
    /// 8xy3: Vx = Vx ^ Vy.
    Xor { x: u8, y: u8 },
    /// 8xy4: Vx = Vx + Vy, VF = carry.
    AddReg { x: u8, y: u8 },
    /// 8xy5: Vx = Vx - Vy, VF = no borrow.
    SubReg { x: u8, y: u8 },
    /// 8xy6: shift right by one, VF = the bit shifted out.
    ShiftRight { x: u8, y: u8 },
    /// 8xy7: Vx = Vy - Vx, VF = no borrow.
    SubRev { x: u8, y: u8 },
    /// 8xyE: shift left by one, VF = the bit shifted out.
    ShiftLeft { x: u8, y: u8 },
    /// Annn: I = addr.
    LoadIndex { addr: u16 },
    /// Bnnn: jump to addr + V0.
    JumpOffset { addr: u16 },
    /// Cxnn: Vx = random byte & nn.
    Random { x: u8, nn: u8 },
    /// Dxyn: draw the n-row sprite at I at (Vx, Vy).
    Draw { x: u8, y: u8, n: u8 },
    /// Ex9E: skip the next instruction if key Vx is pressed.
    SkipKeyPressed { x: u8 },
    /// ExA1: skip the next instruction if key Vx is not pressed.
    SkipKeyNotPressed { x: u8 },
    /// Fx07: Vx = delay timer.
    GetDelay { x: u8 },
    /// Fx15: delay timer = Vx.
    SetDelay { x: u8 },
    /// Fx18: sound timer = Vx.
    SetSound { x: u8 },
    /// Fx1E: I = I + Vx, wrapping at 4096 with VF = 1.
    AddIndex { x: u8 },
    /// Fx0A: wait for a key release and store the key in Vx.
    GetKey { x: u8 },
    /// Fx29: I = address of the font glyph for the digit in Vx.
    FontChar { x: u8 },
    /// Fx33: store the decimal digits of Vx at I, I+1, I+2.
    Bcd { x: u8 },
    /// Fx55: store V0..=Vx to memory at I.
    Store { x: u8 },
    /// Fx65: load V0..=Vx from memory at I.
    Load { x: u8 },
}

/// The opcode family: bits 12 to 15.
pub open spec fn op_of(w: u16) -> u16 {
    w / 0x1000
}

/// Bits 8 to 11.
pub open spec fn x_of(w: u16) -> u8 {
    ((w / 0x100) % 0x10) as u8
}

/// Bits 4 to 7.
pub open spec fn y_of(w: u16) -> u8 {
    ((w / 0x10) % 0x10) as u8
}

/// Bits 0 to 3.
pub open spec fn n_of(w: u16) -> u8 {
    (w % 0x10) as u8
}

/// Bits 0 to 7.
pub open spec fn nn_of(w: u16) -> u8 {
    (w % 0x100) as u8
}

/// Bits 0 to 11.
pub open spec fn nnn_of(w: u16) -> u16 {
    w % 0x1000
}

/// The instruction that the 16-bit word `w` encodes, if any.
pub open spec fn decode_spec(w: u16) -> Option<Instruction> {
    let (op, x, y, n, nn, addr) = (op_of(w), x_of(w), y_of(w), n_of(w), nn_of(w), nnn_of(w));
    if op == 0x0 {
        if w == 0x00E0 {
            Some(Instruction::ClearScreen)
        } else if w == 0x00EE {
            Some(Instruction::Return)
        } else {
            None
        }
    } else if op == 0x1 {
        Some(Instruction::Jump { addr })
    } else if op == 0x2 {
        Some(Instruction::Call { addr })
    } else if op == 0x3 {
        Some(Instruction::SkipEqImm { x, nn })
    } else if op == 0x4 {
        Some(Instruction::SkipNeImm { x, nn })
    } else if op == 0x5 {
        if n == 0 { Some(Instruction::SkipEqReg { x, y }) } else { None }
    } else if op == 0x6 {
        Some(Instruction::LoadImm { x, nn })
    } else if op == 0x7 {
        Some(Instruction::AddImm { x, nn })
    } else if op == 0x8 {
        if n == 0x0 {
            Some(Instruction::Move { x, y })
        } else if n == 0x1 {
            Some(Instruction::Or { x, y })
        } else if n == 0x2 {
            Some(Instruction::And { x, y })
        } else if n == 0x3 {
            Some(Instruction::Xor { x, y })
        } else if n == 0x4 {
            Some(Instruction::AddReg { x, y })
        } else if n == 0x5 {
            Some(Instruction::SubReg { x, y })
        } else if n == 0x6 {
            Some(Instruction::ShiftRight { x, y })
        } else if n == 0x7 {
            Some(Instruction::SubRev { x, y })
        } else if n == 0xE {
            Some(Instruction::ShiftLeft { x, y })
        } else {
            None
        }
    } else if op == 0x9 {
        if n == 0 { Some(Instruction::SkipNeReg { x, y }) } else { None }
    } else if op == 0xA {
        Some(Instruction::LoadIndex { addr })
    } else if op == 0xB {
        Some(Instruction::JumpOffset { addr })
    } else if op == 0xC {
        Some(Instruction::Random { x, nn })
    } else if op == 0xD {
        Some(Instruction::Draw { x, y, n })
    } else if op == 0xE {
        if nn == 0x9E {
            Some(Instruction::SkipKeyPressed { x })
        } else if nn == 0xA1 {
            Some(Instruction::SkipKeyNotPressed { x })
        } else {
            None
        }
    } else {
        if nn == 0x07 {
            Some(Instruction::GetDelay { x })
        } else if nn == 0x15 {
            Some(Instruction::SetDelay { x })
        } else if nn == 0x18 {
            Some(Instruction::SetSound { x })
        } else if nn == 0x1E {
            Some(Instruction::AddIndex { x })
        } else if nn == 0x0A {
            Some(Instruction::GetKey { x })
        } else if nn == 0x29 {
            Some(Instruction::FontChar { x })
        } else if nn == 0x33 {
            Some(Instruction::Bcd { x })
        } else if nn == 0x55 {
            Some(Instruction::Store { x })
        } else if nn == 0x65 {
            Some(Instruction::Load { x })
        } else {
            None
        }
    }
}

impl Instruction {
    /// Register indices name one of the 16 registers, `n` fits in four bits
    /// and addresses in twelve.
    pub open spec fn wf(self) -> bool {
        match self {
            Instruction::ClearScreen | Instruction::Return => true,
            Instruction::Jump { addr } | Instruction::Call { addr } | Instruction::LoadIndex { addr }
            | Instruction::JumpOffset { addr } => addr < 0x1000,
            Instruction::SkipEqImm { x, nn } | Instruction::SkipNeImm { x, nn }
            | Instruction::LoadImm { x, nn } | Instruction::AddImm { x, nn }
            | Instruction::Random { x, nn } => x < 16,
            Instruction::SkipEqReg { x, y } | Instruction::SkipNeReg { x, y }
            | Instruction::Move { x, y } | Instruction::Or { x, y } | Instruction::And { x, y }
            | Instruction::Xor { x, y } | Instruction::AddReg { x, y } | Instruction::SubReg { x, y }
            | Instruction::ShiftRight { x, y } | Instruction::SubRev { x, y }
            | Instruction::ShiftLeft { x, y } => x < 16 && y < 16,
            Instruction::Draw { x, y, n } => x < 16 && y < 16 && n < 16,
            Instruction::SkipKeyPressed { x } | Instruction::SkipKeyNotPressed { x }
            | Instruction::GetDelay { x } | Instruction::SetDelay { x } | Instruction::SetSound { x }
            | Instruction::AddIndex { x } | Instruction::GetKey { x } | Instruction::FontChar { x }
            | Instruction::Bcd { x } | Instruction::Store { x } | Instruction::Load { x } => x < 16,
        }
    }

    /// Decodes a big-endian instruction word; `None` where it encodes no
    /// instruction.
    pub fn decode(w: u16) -> (r: Option<Instruction>)
        ensures
            r == decode_spec(w),
            r matches Some(ins) ==> ins.wf(),
    {
        let op: u16 = w / 0x1000;
        let x: u8 = ((w / 0x100) % 0x10) as u8;
        let y: u8 = ((w / 0x10) % 0x10) as u8;
        let n: u8 = (w % 0x10) as u8;
        let nn: u8 = (w % 0x100) as u8;
        let addr: u16 = w % 0x1000;
        match op {
            0x0 => {
                if w == 0x00E0 {
                    Some(Instruction::ClearScreen)
                } else if w == 0x00EE {
                    Some(Instruction::Return)
                } else {
                    None
                }
            },
            0x1 => Some(Instruction::Jump { addr }),
            0x2 => Some(Instruction::Call { addr }),
            0x3 => Some(Instruction::SkipEqImm { x, nn }),
            0x4 => Some(Instruction::SkipNeImm { x, nn }),
            0x5 => if n == 0 { Some(Instruction::SkipEqReg { x, y }) } else { None },
            0x6 => Some(Instruction::LoadImm { x, nn }),
            0x7 => Some(Instruction::AddImm { x, nn }),
            0x8 => match n {
                0x0 => Some(Instruction::Move { x, y }),
                0x1 => Some(Instruction::Or { x, y }),
                0x2 => Some(Instruction::And { x, y }),
                0x3 => Some(Instruction::Xor { x, y }),
                0x4 => Some(Instruction::AddReg { x, y }),
                0x5 => Some(Instruction::SubReg { x, y }),
                0x6 => Some(Instruction::ShiftRight { x, y }),
                0x7 => Some(Instruction::SubRev { x, y }),
                0xE => Some(Instruction::ShiftLeft { x, y }),
                _ => None,
            },
            0x9 => if n == 0 { Some(Instruction::SkipNeReg { x, y }) } else { None },
            0xA => Some(Instruction::LoadIndex { addr }),
            0xB => Some(Instruction::JumpOffset { addr }),
            0xC => Some(Instruction::Random { x, nn }),
            0xD => Some(Instruction::Draw { x, y, n }),
            0xE => match nn {
                0x9E => Some(Instruction::SkipKeyPressed { x }),
                0xA1 => Some(Instruction::SkipKeyNotPressed { x }),
                _ => None,
            },
            _ => match nn {
                0x07 => Some(Instruction::GetDelay { x }),
                0x15 => Some(Instruction::SetDelay { x }),
                0x18 => Some(Instruction::SetSound { x }),
                0x1E => Some(Instruction::AddIndex { x }),
                0x0A => Some(Instruction::GetKey { x }),
                0x29 => Some(Instruction::FontChar { x }),
                0x33 => Some(Instruction::Bcd { x }),
                0x55 => Some(Instruction::Store { x }),
                0x65 => Some(Instruction::Load { x }),
                _ => None,
            },
        }
    }
}

} // verus!
