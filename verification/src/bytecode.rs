//! The instruction-stream model: every element of a compiled code buffer is a
//! tagged `Bytecode` value, so the stream is self-describing and needs no
//! operand-width decoding.

use vstd::prelude::*;

verus! {

/// An executable operation. Each opcode is followed in the stream by its
/// operands, which are themselves tagged `Bytecode` elements.
#[derive(Clone, Copy, PartialEq, Eq, Structural, Debug, Hash)]
pub enum Opcode {
    /// `Move src dst`: copy one register into another.
    Move,
    /// `LoadConstant c dst`: load a constant-pool entry into a register.
    LoadConstant,
    /// `LoadGlobal g dst`: load a global slot into a register.
    LoadGlobal,
    /// `StoreGlobal g src`: store a register into a global slot.
    StoreGlobal,
    /// `Call f n a1 .. an dst`: call the function held in register `f` with
    /// `n` argument registers, placing the returned value in `dst`.
    Call,
    /// `Return src`: finish the current code block, yielding register `src`.
    Return,
    /// `Jump off`: unconditional relative branch.
    Jump,
    /// `JumpIfFalse cond off`: relative branch taken when register `cond`
    /// holds a falsey value.
    JumpIfFalse,
    /// `Add a b dst`, and likewise for the other arithmetic/comparison forms.
    Add,
    Subtract,
    Equals,
    LessThan,
}

/// A marker for control transfers out of the ordinary instruction flow. The
/// compiler can emit one as a stream element; this core installs no interrupt
/// handlers, so the executor reports an unhandled interrupt when it reaches
/// one.
#[derive(Clone, Copy, PartialEq, Eq, Structural, Debug, Hash)]
pub enum Interrupt {
    Halt,
}

/// One element of an instruction stream: an opcode, one of its tagged operand
/// kinds, or the `Illegal` placeholder that a deferred jump occupies until it
/// is patched. A finished code block must not contain `Illegal`.
#[derive(Clone, Copy, PartialEq, Eq, Structural, Debug, Hash)]
pub enum Bytecode {
    /// An executable operation.
    Opcode(Opcode),
    /// A raw count operand (for example, a call's argument count).
    Count(usize),
    /// An interrupt marker.
    Interrupt(Interrupt),
    /// A register (target) operand.
    Local(usize),
    /// A constant-pool index operand.
    Constant(usize),
    /// A global-slot index operand.
    Global(usize),
    /// A signed relative displacement, applied to the instruction pointer.
    Offset(isize),
    /// The placeholder written by a deferred jump; it must be overwritten
    /// before the code block is finished and must never be executed.
    Illegal,
}

/// Holds exactly when no unpatched jump placeholder remains in `code`.
pub open spec fn no_illegal(code: Seq<Bytecode>) -> bool {
    forall|i: int| 0 <= i < code.len() ==> code[i] != Bytecode::Illegal
}

} // verus!
