use vstd::prelude::*;

verus! {

/// The eight instructions of the tape machine.
#[derive(Clone, Copy, Debug, PartialEq, Eq, Structural)]
pub enum Opcodes {
    IncPtr,
    DecPtr,
    IncByte,
    DecByte,
    WriteByte,
    ReadByte,
    LoopStart,
    LoopEnd,
}

/// The opcode that a source character stands for, if any.
pub open spec fn opcode_of(c: char) -> Option<Opcodes> {
    if c == '>' {
        Some(Opcodes::IncPtr)
    } else if c == '<' {
        Some(Opcodes::DecPtr)
    } else if c == '+' {
        Some(Opcodes::IncByte)
    } else if c == '-' {
        Some(Opcodes::DecByte)
    } else if c == '.' {
        Some(Opcodes::WriteByte)
    } else if c == ',' {
        Some(Opcodes::ReadByte)
    } else if c == '[' {
        Some(Opcodes::LoopStart)
    } else if c == ']' {
        Some(Opcodes::LoopEnd)
    } else {
        None
    }
}

/// Whether a source character is one of the eight instruction symbols.
pub open spec fn is_instruction(c: char) -> bool {
    opcode_of(c) is Some
}

/// Decodes one source character; every other character is a comment.
pub fn decode(c: char) -> (r: Option<Opcodes>)
    ensures
        r == opcode_of(c),
{
    match c {
        '>' => Some(Opcodes::IncPtr),
        '<' => Some(Opcodes::DecPtr),
        '+' => Some(Opcodes::IncByte),
        '-' => Some(Opcodes::DecByte),
        '.' => Some(Opcodes::WriteByte),
        ',' => Some(Opcodes::ReadByte),
        '[' => Some(Opcodes::LoopStart),
        ']' => Some(Opcodes::LoopEnd),
        _ => None,
    }
}

} // verus!
