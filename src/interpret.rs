use vstd::prelude::*;

verus! {

/// A decoded instruction.
#[derive(Clone, Copy, Debug, PartialEq, Eq, Structural)]
pub enum Opcode {
    AConstNull,
    /// Pushes the small constant that the opcode byte itself encodes.
    IConst(i8),
    IAdd,
    IAnd,
    I2B,
    I2C,
    I2D,
    I2F,
    I2L,
    I2S,
    IMul,
}

/// Why execution stopped.
#[derive(Clone, Copy, Debug, PartialEq, Eq, Structural)]
pub enum InterpreterError {
    /// The byte is no instruction that this machine runs.
    UnimplementedOpcode(u8),
    StackUnderflow,
    OperandTypeMismatch,
}

/// The instruction that byte `b` encodes.
pub open spec fn decoded(b: u8) -> Result<Opcode, InterpreterError> {
    if b == 0x01 {
        Ok(Opcode::AConstNull)
    } else if 0x02 <= b <= 0x08 {
        Ok(Opcode::IConst((b - 3) as i8))
    } else if b == 0x60 {
        Ok(Opcode::IAdd)
    } else if b == 0x7e {
        Ok(Opcode::IAnd)
    } else if b == 0x91 {
        Ok(Opcode::I2B)
    } else if b == 0x92 {
        Ok(Opcode::I2C)
    } else if b == 0x87 {
        Ok(Opcode::I2D)
    } else if b == 0x86 {
        Ok(Opcode::I2F)
    } else if b == 0x85 {
        Ok(Opcode::I2L)
    } else if b == 0x93 {
        Ok(Opcode::I2S)
    } else {
        Err(InterpreterError::UnimplementedOpcode(b))
    }
}

/// Maps instruction bytes to instructions, one byte at a time.
#[derive(Debug, Clone, Copy)]
pub struct Interpreter {}

impl Interpreter {
    pub fn new() -> Self {
        Interpreter {  }
    }

    /// The instruction that one byte encodes.
    pub fn decode(&self, byte_code: u8) -> (r: Result<Opcode, InterpreterError>)
        ensures
            r == decoded(byte_code),
    {
        match byte_code {
            0x01 => Ok(Opcode::AConstNull),
            0x02 => Ok(Opcode::IConst(-1)),
            0x03 => Ok(Opcode::IConst(0)),
            0x04 => Ok(Opcode::IConst(1)),
            0x05 => Ok(Opcode::IConst(2)),
            0x06 => Ok(Opcode::IConst(3)),
            0x07 => Ok(Opcode::IConst(4)),
            0x08 => Ok(Opcode::IConst(5)),
            0x60 => Ok(Opcode::IAdd),
            0x7e => Ok(Opcode::IAnd),
            0x91 => Ok(Opcode::I2B),
            0x92 => Ok(Opcode::I2C),
            0x87 => Ok(Opcode::I2D),
            0x86 => Ok(Opcode::I2F),
            0x85 => Ok(Opcode::I2L),
            0x93 => Ok(Opcode::I2S),
            _ => Err(InterpreterError::UnimplementedOpcode(byte_code)),
        }
    }
}

} // verus!
