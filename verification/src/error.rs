//! The errors of compilation and execution.

use vstd::prelude::*;

verus! {

/// Why a module could not be compiled.
#[derive(Debug, Clone, Copy, PartialEq, Eq, Structural)]
pub enum CompileError {
    /// The module holds an object literal, which has no bytecode form.
    ObjectLiteral,
}

/// Why execution stopped abnormally. Every runtime error is fatal to the
/// running script.
#[derive(Debug, Clone, Copy, PartialEq, Eq, Structural)]
pub enum RuntimeError {
    /// A callable was invoked with a number of arguments it does not accept.
    ArityMismatch,
    /// A name was read or stored that no enclosing frame owns.
    NameUnresolved,
    /// No type on the value's chain fills the slot an operation asked for.
    ProtocolMissing,
    /// A built-in received a value of a kind it does not work on.
    TypeMismatch,
    /// A list was subscripted outside its bounds.
    IndexOutOfBounds,
    /// The machine state breaks an internal invariant: an empty operand
    /// stack, an operand outside its pool, a handle to nothing.
    StackCorruption,
    /// A property was looked up and no type on the chain defines it.
    PropertyMissing,
    /// An integer division by zero.
    DivisionByZero,
    /// An integer operation left the 64-bit signed range.
    Overflow,
    /// The step budget ran out before the computation finished.
    OutOfFuel,
    /// Built-in functions called back into the interpreter more deeply
    /// than the nesting limit allows.
    TooDeep,
}

} // verus!
