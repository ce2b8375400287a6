//! The built-in types and values.

use crate::builtins::types::BuiltinTypes;
use crate::heap::Heap;
use crate::value::{ArgPattern, NativeFunction, Value};
use vstd::prelude::*;

pub mod natives;
pub mod types;

verus! {

/// All built-in types and values.
#[derive(Debug, Clone, Copy)]
pub struct Builtins {
    pub types: BuiltinTypes,
    pub print: Value,
}

/// The text of the one name that resolves to a built-in value.
pub open spec fn print_name() -> Seq<char> {
    seq!['p', 'r', 'i', 'n', 't']
}

impl Builtins {
    /// Creates the built-in types in `heap` and the built-in values.
    pub fn new(heap: &mut Heap) -> (builtins: Self)
        ensures
            builtins.print == Value::Native(NativeFunction::Print, ArgPattern::Any),
            builtins.types.installed(final(heap)),
            old(heap).extended_by(final(heap)),
            final(heap).same_data(old(heap)),
    {
        Self {
            types: BuiltinTypes::new(heap),
            print: Value::Native(NativeFunction::Print, ArgPattern::Any),
        }
    }

    /// The built-in value that `name` stands for, if any.
    pub open spec fn resolved(self, name: Seq<char>) -> Option<Value> {
        if name == print_name() {
            Some(self.print)
        } else {
            None
        }
    }

    /// Get a builtin by name.
    /// Returns `None` if `name` does not exist.
    pub fn resolve(&self, name: &String) -> (value: Option<Value>)
        ensures
            value == self.resolved(name@),
    {
        let print = String::from_str("print");
        proof {
            reveal_strlit("print");
            assert(print@ =~= print_name());
        }
        if *name == print {
            Some(self.print)
        } else {
            None
        }
    }
}

} // verus!
