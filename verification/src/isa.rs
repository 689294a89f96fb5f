//! The instruction set: sixteen opcodes, each with a fixed operand layout
//! and a fixed encoded size, decoded positionally from a byte slice.

use vstd::prelude::*;
use crate::bits::{interpret_big_endian_word, spec_word};

verus! {

/// One decoded machine instruction. Immediates are signed 32-bit words,
/// register operands are 8-bit indices into the general-purpose bank.
#[derive(Clone, Copy, Debug, PartialEq, Eq, Structural)]
pub enum Instruction {
    /// Opcode 0: push the return address, jump to `target`.
    Call(i32),
    /// Opcode 1: pop the call stack into the instruction pointer.
    Ret,
    /// Opcode 2: emit the low byte of a register to the output device.
    WriteByte(u8),
    /// Opcode 3: read one byte from the input device into a register.
    ReadByte(u8),
    /// Opcode 4: diagnostic snapshot; no machine-state mutation.
    Debug,
    /// Opcode 5: halt cleanly.
    Exit,
    /// Opcode 6: load the word at a data address into a register.
    Load(i32, u8),
    /// Opcode 7: store a register's word at a data address.
    Store(u8, i32),
    /// Opcode 8: write a register's word at the stack pointer and grow the stack.
    Push(u8),
    /// Opcode 9: shrink the stack and read the word there into a register.
    Pop(u8),
    /// Opcode 10: load an immediate word into a register.
    Fill(i32, u8),
    /// Opcode 11: no effect beyond the instruction-pointer advance.
    Nop,
    /// Opcode 12: wrapping 32-bit addition, `dest = src1 + src2`.
    Add(u8, u8, u8),
    /// Opcode 13: wrapping 32-bit subtraction, `dest = src1 - src2`.
    Subtract(u8, u8, u8),
    /// Opcode 14: wrapping 32-bit multiplication, `dest = src1 * src2`.
    Multiply(u8, u8, u8),
    /// Opcode 15: truncating 32-bit division, `dest = src1 / src2`.
    Divide(u8, u8, u8),
}

/// The encoded size in bytes of an instruction: one opcode byte plus
/// four per immediate operand and one per register operand.
pub open spec fn spec_size(i: Instruction) -> int {
    match i {
        Instruction::Call(_) => 5,
        Instruction::Ret => 1,
        Instruction::WriteByte(_) => 2,
        Instruction::ReadByte(_) => 2,
        Instruction::Debug => 1,
        Instruction::Exit => 1,
        Instruction::Load(_, _) => 6,
        Instruction::Store(_, _) => 6,
        Instruction::Push(_) => 2,
        Instruction::Pop(_) => 2,
        Instruction::Fill(_, _) => 6,
        Instruction::Nop => 1,
        Instruction::Add(_, _, _) => 4,
        Instruction::Subtract(_, _, _) => 4,
        Instruction::Multiply(_, _, _) => 4,
        Instruction::Divide(_, _, _) => 4,
    }
}

/// Positional decoding: the first byte selects the variant, the declared
/// operand bytes follow in order, immediates read big-endian. `None` when
/// the opcode is not 0..=15 or too few bytes remain for the operands.
pub open spec fn spec_decode(bytes: Seq<u8>) -> Option<Instruction> {
    if bytes.len() < 1 {
        None
    } else {
        let op = bytes[0];
        if op == 0 {
            if bytes.len() >= 5 {
                Some(Instruction::Call(spec_word(bytes[1], bytes[2], bytes[3], bytes[4])))
            } else {
                None
            }
        } else if op == 1 {
            Some(Instruction::Ret)
        } else if op == 2 {
            if bytes.len() >= 2 {
                Some(Instruction::WriteByte(bytes[1]))
            } else {
                None
            }
        } else if op == 3 {
            if bytes.len() >= 2 {
                Some(Instruction::ReadByte(bytes[1]))
            } else {
                None
            }
        } else if op == 4 {
            Some(Instruction::Debug)
        } else if op == 5 {
            Some(Instruction::Exit)
        } else if op == 6 {
            if bytes.len() >= 6 {
                Some(
                    Instruction::Load(spec_word(bytes[1], bytes[2], bytes[3], bytes[4]), bytes[5]),
                )
            } else {
                None
            }
        } else if op == 7 {
            if bytes.len() >= 6 {
                Some(
                    Instruction::Store(bytes[1], spec_word(bytes[2], bytes[3], bytes[4], bytes[5])),
                )
            } else {
                None
            }
        } else if op == 8 {
            if bytes.len() >= 2 {
                Some(Instruction::Push(bytes[1]))
            } else {
                None
            }
        } else if op == 9 {
            if bytes.len() >= 2 {
                Some(Instruction::Pop(bytes[1]))
            } else {
                None
            }
        } else if op == 10 {
            if bytes.len() >= 6 {
                Some(
                    Instruction::Fill(spec_word(bytes[1], bytes[2], bytes[3], bytes[4]), bytes[5]),
                )
            } else {
                None
            }
        } else if op == 11 {
            Some(Instruction::Nop)
        } else if op == 12 {
            if bytes.len() >= 4 {
                Some(Instruction::Add(bytes[1], bytes[2], bytes[3]))
            } else {
                None
            }
        } else if op == 13 {
            if bytes.len() >= 4 {
                Some(Instruction::Subtract(bytes[1], bytes[2], bytes[3]))
            } else {
                None
            }
        } else if op == 14 {
            if bytes.len() >= 4 {
                Some(Instruction::Multiply(bytes[1], bytes[2], bytes[3]))
            } else {
                None
            }
        } else if op == 15 {
            if bytes.len() >= 4 {
                Some(Instruction::Divide(bytes[1], bytes[2], bytes[3]))
            } else {
                None
            }
        } else {
            None
        }
    }
}

/// Law: decoding succeeds only when the buffer holds at least the decoded
/// instruction's full encoding; a buffer shorter than the declared size
/// never decodes.
pub proof fn lemma_decode_needs_size(bytes: Seq<u8>, i: Instruction)
    requires
        spec_decode(bytes) == Some(i),
    ensures
        bytes.len() >= spec_size(i),
{
}

impl Instruction {
    /// The encoded size in bytes, per the opcode table.
    pub fn size(&self) -> (s: usize)
        ensures
            s == spec_size(*self),
    {
        match self {
            Instruction::Call(_) => 5,
            Instruction::Ret => 1,
            Instruction::WriteByte(_) => 2,
            Instruction::ReadByte(_) => 2,
            Instruction::Debug => 1,
            Instruction::Exit => 1,
            Instruction::Load(_, _) => 6,
            Instruction::Store(_, _) => 6,
            Instruction::Push(_) => 2,
            Instruction::Pop(_) => 2,
            Instruction::Fill(_, _) => 6,
            Instruction::Nop => 1,
            Instruction::Add(_, _, _) => 4,
            Instruction::Subtract(_, _, _) => 4,
            Instruction::Multiply(_, _, _) => 4,
            Instruction::Divide(_, _, _) => 4,
        }
    }

    /// Decodes the instruction at the head of `bytes`, or returns `None`
    /// for an unknown opcode or a buffer too short for the operands.
    pub fn decode(bytes: &[u8]) -> (r: Option<Instruction>)
        ensures
            r == spec_decode(bytes@),
    {
        if bytes.len() < 1 {
            return None;
        }
        let op = bytes[0];
        if op == 0 {
            if bytes.len() >= 5 {
                Some(
                    Instruction::Call(
                        interpret_big_endian_word(bytes[1], bytes[2], bytes[3], bytes[4]),
                    ),
                )
            } else {
                None
            }
        } else if op == 1 {
            Some(Instruction::Ret)
        } else if op == 2 {
            if bytes.len() >= 2 {
                Some(Instruction::WriteByte(bytes[1]))
            } else {
                None
            }
        } else if op == 3 {
            if bytes.len() >= 2 {
                Some(Instruction::ReadByte(bytes[1]))
            } else {
                None
            }
        } else if op == 4 {
            Some(Instruction::Debug)
        } else if op == 5 {
            Some(Instruction::Exit)
        } else if op == 6 {
            if bytes.len() >= 6 {
                Some(
                    Instruction::Load(
                        interpret_big_endian_word(bytes[1], bytes[2], bytes[3], bytes[4]),
                        bytes[5],
                    ),
                )
            } else {
                None
            }
        } else if op == 7 {
            if bytes.len() >= 6 {
                Some(
                    Instruction::Store(
                        bytes[1],
                        interpret_big_endian_word(bytes[2], bytes[3], bytes[4], bytes[5]),
                    ),
                )
            } else {
                None
            }
        } else if op == 8 {
            if bytes.len() >= 2 {
                Some(Instruction::Push(bytes[1]))
            } else {
                None
            }
        } else if op == 9 {
            if bytes.len() >= 2 {
                Some(Instruction::Pop(bytes[1]))
            } else {
                None
            }
        } else if op == 10 {
            if bytes.len() >= 6 {
                Some(
                    Instruction::Fill(
                        interpret_big_endian_word(bytes[1], bytes[2], bytes[3], bytes[4]),
                        bytes[5],
                    ),
                )
            } else {
                None
            }
        } else if op == 11 {
            Some(Instruction::Nop)
        } else if op == 12 {
            if bytes.len() >= 4 {
                Some(Instruction::Add(bytes[1], bytes[2], bytes[3]))
            } else {
                None
            }
        } else if op == 13 {
            if bytes.len() >= 4 {
                Some(Instruction::Subtract(bytes[1], bytes[2], bytes[3]))
            } else {
                None
            }
        } else if op == 14 {
            if bytes.len() >= 4 {
                Some(Instruction::Multiply(bytes[1], bytes[2], bytes[3]))
            } else {
                None
            }
        } else if op == 15 {
            if bytes.len() >= 4 {
                Some(Instruction::Divide(bytes[1], bytes[2], bytes[3]))
            } else {
                None
            }
        } else {
            None
        }
    }
}

} // verus!
