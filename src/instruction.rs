//! Decoding of 16-bit instruction words into [`Instruction`] values.
use vstd::prelude::*;

verus! {

/// Why an instruction word could not be decoded.
#[derive(Clone, Copy, Debug, PartialEq, Eq, Structural)]
pub enum DecodeFault {
    /// No instruction is defined for this word.
    Unknown,
    /// A register-compare skip (`5XY?`, `9XY?`) whose reserved low nibble is not zero.
    Malformed,
    /// A `0NNN` native subroutine call other than `00E0` and `00EE`.
    NativeCall,
}

/// One decoded instruction. `x` and `y` are register numbers (below 16),
/// `nn` an immediate byte, `n` a nibble and `addr` a 12-bit address.
#[derive(Clone, Copy, Debug, PartialEq, Eq, Structural)]
pub enum Instruction {
    /// `00E0`
    ClearScreen,
    /// `00EE`
    Return,
    /// `1NNN`
    Jump { addr: u16 },
    /// `2NNN`
    Call { addr: u16 },
    /// `3XNN`
    SkipEqImm { x: u8, nn: u8 },
    /// `4XNN`
    SkipNeImm { x: u8, nn: u8 },
    /// `5XY0`
    SkipEqReg { x: u8, y: u8 },
    /// `6XNN`
    LoadImm { x: u8, nn: u8 },
    /// `7XNN`
    AddImm { x: u8, nn: u8 },
    /// `8XY0`
    Move { x: u8, y: u8 },
    /// `8XY1`
    Or { x: u8, y: u8 },
    /// `8XY2`
    And { x: u8, y: u8 },
    /// `8XY3`
    Xor { x: u8, y: u8 },
    /// `8XY4`
    AddReg { x: u8, y: u8 },
    /// `8XY5`
    Sub { x: u8, y: u8 },
    /// `8XY6`
    ShiftRight { x: u8, y: u8 },
    /// `8XY7`
    SubN { x: u8, y: u8 },
    /// `8XYE`
    ShiftLeft { x: u8, y: u8 },
    /// `9XY0`
    SkipNeReg { x: u8, y: u8 },
    /// `ANNN`
    LoadIndex { addr: u16 },
    /// `BNNN`
    JumpOffset { addr: u16 },
    /// `CXNN`
    Random { x: u8, nn: u8 },
    /// `DXYN`
    Draw { x: u8, y: u8, n: u8 },
    /// `EX9E`
    SkipKeyPressed { x: u8 },
    /// `EXA1`
    SkipKeyNotPressed { x: u8 },
    /// `FX07`
    LoadDelay { x: u8 },
    /// `FX0A`
    WaitKey { x: u8 },
    /// `FX15`
    SetDelay { x: u8 },
    /// `FX18`
    SetSound { x: u8 },
    /// `FX1E`
    AddIndex { x: u8 },
    /// `FX29`
    FontChar { x: u8 },
    /// `FX33`
    StoreBcd { x: u8 },
    /// `FX55`
    StoreRegisters { x: u8 },
    /// `FX65`
    RestoreRegisters { x: u8 },
}

/// The top nibble of an instruction word: its group.
pub open spec fn group_of(op: u16) -> int {
    op as int / 0x1000
}

/// The second nibble: the `X` register operand.
pub open spec fn x_of(op: u16) -> u8 {
    (op as int / 0x100 % 0x10) as u8
}

/// The third nibble: the `Y` register operand.
pub open spec fn y_of(op: u16) -> u8 {
    (op as int / 0x10 % 0x10) as u8
}

/// The low nibble.
pub open spec fn n_of(op: u16) -> u8 {
    (op as int % 0x10) as u8
}

/// The low byte.
pub open spec fn nn_of(op: u16) -> u8 {
    (op as int % 0x100) as u8
}

/// The low twelve bits: an address.
pub open spec fn nnn_of(op: u16) -> u16 {
    (op as int % 0x1000) as u16
}

/// What a 16-bit instruction word means.
pub open spec fn decode_spec(op: u16) -> Result<Instruction, DecodeFault> {
    let (x, y, n, nn, nnn) = (x_of(op), y_of(op), n_of(op), nn_of(op), nnn_of(op));
    let g = group_of(op);
    if g == 0x0 {
        if nnn == 0x0E0 {
            Ok(Instruction::ClearScreen)
        } else if nnn == 0x0EE {
            Ok(Instruction::Return)
        } else {
            Err(DecodeFault::NativeCall)
        }
    } else if g == 0x1 {
        Ok(Instruction::Jump { addr: nnn })
    } else if g == 0x2 {
        Ok(Instruction::Call { addr: nnn })
    } else if g == 0x3 {
        Ok(Instruction::SkipEqImm { x, nn })
    } else if g == 0x4 {
        Ok(Instruction::SkipNeImm { x, nn })
    } else if g == 0x5 {
        if n == 0 {
            Ok(Instruction::SkipEqReg { x, y })
        } else {
            Err(DecodeFault::Malformed)
        }
    } else if g == 0x6 {
        Ok(Instruction::LoadImm { x, nn })
    } else if g == 0x7 {
        Ok(Instruction::AddImm { x, nn })
    } else if g == 0x8 {
        if n == 0x0 {
            Ok(Instruction::Move { x, y })
        } else if n == 0x1 {
            Ok(Instruction::Or { x, y })
        } else if n == 0x2 {
            Ok(Instruction::And { x, y })
        } else if n == 0x3 {
            Ok(Instruction::Xor { x, y })
        } else if n == 0x4 {
            Ok(Instruction::AddReg { x, y })
        } else if n == 0x5 {
            Ok(Instruction::Sub { x, y })
        } else if n == 0x6 {
            Ok(Instruction::ShiftRight { x, y })
        } else if n == 0x7 {
            Ok(Instruction::SubN { x, y })
        } else if n == 0xE {
            Ok(Instruction::ShiftLeft { x, y })
        } else {
            Err(DecodeFault::Unknown)
        }
    } else if g == 0x9 {
        if n == 0 {
            Ok(Instruction::SkipNeReg { x, y })
        } else {
            Err(DecodeFault::Malformed)
        }
    } else if g == 0xA {
        Ok(Instruction::LoadIndex { addr: nnn })
    } else if g == 0xB {
        Ok(Instruction::JumpOffset { addr: nnn })
    } else if g == 0xC {
        Ok(Instruction::Random { x, nn })
    } else if g == 0xD {
        Ok(Instruction::Draw { x, y, n })
    } else if g == 0xE {
        if nn == 0x9E {
            Ok(Instruction::SkipKeyPressed { x })
        } else if nn == 0xA1 {
            Ok(Instruction::SkipKeyNotPressed { x })
        } else {
            Err(DecodeFault::Unknown)
        }
    } else {
        if nn == 0x07 {
            Ok(Instruction::LoadDelay { x })
        } else if nn == 0x0A {
            Ok(Instruction::WaitKey { x })
        } else if nn == 0x15 {
            Ok(Instruction::SetDelay { x })
        } else if nn == 0x18 {
            Ok(Instruction::SetSound { x })
        } else if nn == 0x1E {
            Ok(Instruction::AddIndex { x })
        } else if nn == 0x29 {
            Ok(Instruction::FontChar { x })
        } else if nn == 0x33 {
            Ok(Instruction::StoreBcd { x })
        } else if nn == 0x55 {
            Ok(Instruction::StoreRegisters { x })
        } else if nn == 0x65 {
            Ok(Instruction::RestoreRegisters { x })
        } else {
            Err(DecodeFault::Unknown)
        }
    }
}

/// Every register operand of an instruction names one of the 16 registers,
/// and every address fits in twelve bits.
pub open spec fn operands_in_range(ins: Instruction) -> bool {
    match ins {
        Instruction::Jump { addr } | Instruction::Call { addr } | Instruction::LoadIndex { addr }
        | Instruction::JumpOffset { addr } => addr < 0x1000,
        Instruction::SkipEqImm { x, .. } | Instruction::SkipNeImm { x, .. }
        | Instruction::LoadImm { x, .. } | Instruction::AddImm { x, .. }
        | Instruction::Random { x, .. } | Instruction::SkipKeyPressed { x }
        | Instruction::SkipKeyNotPressed { x } | Instruction::LoadDelay { x }
        | Instruction::WaitKey { x } | Instruction::SetDelay { x } | Instruction::SetSound { x }
        | Instruction::AddIndex { x } | Instruction::FontChar { x } | Instruction::StoreBcd { x }
        | Instruction::StoreRegisters { x } | Instruction::RestoreRegisters { x } => x < 16,
        Instruction::SkipEqReg { x, y } | Instruction::Move { x, y } | Instruction::Or { x, y }
        | Instruction::And { x, y } | Instruction::Xor { x, y } | Instruction::AddReg { x, y }
        | Instruction::Sub { x, y } | Instruction::ShiftRight { x, y }
        | Instruction::SubN { x, y } | Instruction::ShiftLeft { x, y }
        | Instruction::SkipNeReg { x, y } => x < 16 && y < 16,
        Instruction::Draw { x, y, n } => x < 16 && y < 16 && n < 16,
        Instruction::ClearScreen | Instruction::Return => true,
    }
}

/// Decodes one instruction word: the top nibble selects the group, and the
/// low nibble or low byte the operation within groups 0, 8, E and F.
pub fn decode(op: u16) -> (r: Result<Instruction, DecodeFault>)
    ensures
        r == decode_spec(op),
        r matches Ok(ins) ==> operands_in_range(ins),
{
    let x: u8 = (op / 0x100 % 0x10) as u8;
    let y: u8 = (op / 0x10 % 0x10) as u8;
    let n: u8 = (op % 0x10) as u8;
    let nn: u8 = (op % 0x100) as u8;
    let nnn: u16 = op % 0x1000;
    match op / 0x1000 {
        0x0 => {
            if nnn == 0x0E0 {
                Ok(Instruction::ClearScreen)
            } else if nnn == 0x0EE {
                Ok(Instruction::Return)
            } else {
                Err(DecodeFault::NativeCall)
            }
        },
        0x1 => Ok(Instruction::Jump { addr: nnn }),
        0x2 => Ok(Instruction::Call { addr: nnn }),
        0x3 => Ok(Instruction::SkipEqImm { x, nn }),
        0x4 => Ok(Instruction::SkipNeImm { x, nn }),
        0x5 => {
            if n == 0 {
                Ok(Instruction::SkipEqReg { x, y })
            } else {
                Err(DecodeFault::Malformed)
            }
        },
        0x6 => Ok(Instruction::LoadImm { x, nn }),
        0x7 => Ok(Instruction::AddImm { x, nn }),
        0x8 => match n {
            0x0 => Ok(Instruction::Move { x, y }),
            0x1 => Ok(Instruction::Or { x, y }),
            0x2 => Ok(Instruction::And { x, y }),
            0x3 => Ok(Instruction::Xor { x, y }),
            0x4 => Ok(Instruction::AddReg { x, y }),
            0x5 => Ok(Instruction::Sub { x, y }),
            0x6 => Ok(Instruction::ShiftRight { x, y }),
            0x7 => Ok(Instruction::SubN { x, y }),
            0xE => Ok(Instruction::ShiftLeft { x, y }),
            _ => Err(DecodeFault::Unknown),
        },
        0x9 => {
            if n == 0 {
                Ok(Instruction::SkipNeReg { x, y })
            } else {
                Err(DecodeFault::Malformed)
            }
        },
        0xA => Ok(Instruction::LoadIndex { addr: nnn }),
        0xB => Ok(Instruction::JumpOffset { addr: nnn }),
        0xC => Ok(Instruction::Random { x, nn }),
        0xD => Ok(Instruction::Draw { x, y, n }),
        0xE => match nn {
            0x9E => Ok(Instruction::SkipKeyPressed { x }),
            0xA1 => Ok(Instruction::SkipKeyNotPressed { x }),
            _ => Err(DecodeFault::Unknown),
        },
        _ => match nn {
            0x07 => Ok(Instruction::LoadDelay { x }),
            0x0A => Ok(Instruction::WaitKey { x }),
            0x15 => Ok(Instruction::SetDelay { x }),
            0x18 => Ok(Instruction::SetSound { x }),
            0x1E => Ok(Instruction::AddIndex { x }),
            0x29 => Ok(Instruction::FontChar { x }),
            0x33 => Ok(Instruction::StoreBcd { x }),
            0x55 => Ok(Instruction::StoreRegisters { x }),
            0x65 => Ok(Instruction::RestoreRegisters { x }),
            _ => Err(DecodeFault::Unknown),
        },
    }
}

} // verus!
