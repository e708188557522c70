use vstd::prelude::*;

verus! {

/// A fatal condition: the machine cannot go on interpreting its program.
#[derive(Debug, Clone, Copy, PartialEq, Eq, Structural)]
pub enum Chip8Error {
    /// The two bytes at this address do not encode a known instruction.
    UnknownInstruction(u16),
    /// An instruction fetch at this program counter would read past memory.
    FetchOutOfBounds(u16),
    /// A call was made with the call stack full.
    StackOverflow,
    /// A return was made with the call stack empty.
    StackUnderflow,
    /// A memory access starting at this index register value would leave memory.
    MemoryOutOfBounds(u16),
    /// A key instruction named a key index outside the keypad.
    InvalidKey(u8),
}

} // verus!
