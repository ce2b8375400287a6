//! The instruction set.

use vstd::prelude::*;

verus! {

/// Position of an entry in a code object's constant pool.
pub type ConstantIndex = usize;

/// Position of an entry in a code object's name pool.
pub type NameIndex = usize;

/// One bytecode instruction. Operands are positions in the pools of the code
/// object that holds the instruction, counts, or absolute addresses.
#[derive(Debug, Clone, Copy, PartialEq, Eq, Structural)]
pub enum Instruction {
    Call(usize),
    JumpFalse(usize),
    Jump(usize),
    Return,
    CreateFunction,
    CreateList(usize),
    Pop,
    LoadConstant(ConstantIndex),
    Declare(NameIndex),
    LoadVariable(NameIndex),
    StoreVariable(NameIndex),
    StoreProperty(NameIndex),
    LoadProperty(NameIndex),
    Exit(usize),
    StoreSubscript,
    LoadSubscript,
    Add,
    Subtract,
    Multiply,
    Divide,
    Equals,
    NotEquals,
    LessThan,
    GreaterThan,
    LessThanOrEqual,
    GreaterThanOrEqual,
}

impl Instruction {
    /// The instruction's operands stay inside a code object with
    /// `instructions` instructions, `constants` constants and `names` names.
    pub open spec fn in_range(self, instructions: nat, constants: nat, names: nat) -> bool {
        match self {
            Instruction::Jump(target) | Instruction::JumpFalse(target) => target < instructions,
            Instruction::LoadConstant(index) => index < constants,
            Instruction::Declare(index)
            | Instruction::LoadVariable(index)
            | Instruction::StoreVariable(index)
            | Instruction::StoreProperty(index)
            | Instruction::LoadProperty(index) => index < names,
            _ => true,
        }
    }
}

} // verus!
