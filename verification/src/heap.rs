//! The heap: one store for each kind of value that is held by handle.

use crate::frame::{Code, Frame, Function};
use crate::ptr::Ptr;
use crate::value::{Object, Type, Value};
use vstd::prelude::*;

verus! {

/// Everything that values refer to by handle, one store for each kind.
/// Stores only grow: a handle stays good for as long as the heap lives.
#[derive(Debug)]
pub struct Heap {
    pub strings: Vec<String>,
    pub codes: Vec<Code>,
    pub functions: Vec<Function>,
    pub types: Vec<Type>,
    pub values: Vec<Value>,
    pub lists: Vec<Vec<Value>>,
    pub objects: Vec<Object>,
    pub frames: Vec<Frame>,
}

impl Heap {
    /// Every store is empty.
    pub open spec fn is_empty(&self) -> bool {
        &&& self.strings@.len() == 0
        &&& self.codes@.len() == 0
        &&& self.functions@.len() == 0
        &&& self.types@.len() == 0
        &&& self.values@.len() == 0
        &&& self.lists@.len() == 0
        &&& self.objects@.len() == 0
        &&& self.frames@.len() == 0
    }

    /// A heap with nothing in it.
    pub fn new() -> (heap: Self)
        ensures
            heap.is_empty(),
    {
        Heap {
            strings: Vec::new(),
            codes: Vec::new(),
            functions: Vec::new(),
            types: Vec::new(),
            values: Vec::new(),
            lists: Vec::new(),
            objects: Vec::new(),
            frames: Vec::new(),
        }
    }
    /// Every store of `later` begins with the store of `self`: `later` came
    /// from `self` by allocation alone.
    pub open spec fn extended_by(&self, later: &Heap) -> bool {
        &&& prefix(self.strings@, later.strings@)
        &&& prefix(self.codes@, later.codes@)
        &&& prefix(self.functions@, later.functions@)
        &&& prefix(self.types@, later.types@)
        &&& prefix(self.values@, later.values@)
        &&& prefix(self.lists@, later.lists@)
        &&& prefix(self.objects@, later.objects@)
        &&& prefix(self.frames@, later.frames@)
    }

    /// The two heaps hold the same code, functions, bound values, lists,
    /// objects and frames; they may differ in text and types.
    pub open spec fn same_data(&self, other: &Heap) -> bool {
        &&& self.codes == other.codes
        &&& self.functions == other.functions
        &&& self.values == other.values
        &&& self.lists == other.lists
        &&& self.objects == other.objects
        &&& self.frames == other.frames
    }

    /// The two heaps hold the same functions, types, bound values, lists,
    /// objects and frames; they may differ in text and code.
    pub open spec fn same_runtime(&self, other: &Heap) -> bool {
        &&& self.functions == other.functions
        &&& self.types == other.types
        &&& self.values == other.values
        &&& self.lists == other.lists
        &&& self.objects == other.objects
        &&& self.frames == other.frames
    }

    /// The two heaps differ at most in the frames they hold.
    pub open spec fn same_but_frames(&self, other: &Heap) -> bool {
        &&& self.strings == other.strings
        &&& self.same_but_strings(other)
    }

    /// The two heaps differ at most in the text and the frames they hold.
    pub open spec fn same_but_strings(&self, other: &Heap) -> bool {
        &&& self.codes == other.codes
        &&& self.functions == other.functions
        &&& self.types == other.types
        &&& self.values == other.values
        &&& self.lists == other.lists
        &&& self.objects == other.objects
    }

    /// The two heaps differ at most in the lists and the frames they hold.
    pub open spec fn same_but_lists(&self, other: &Heap) -> bool {
        &&& self.strings == other.strings
        &&& self.codes == other.codes
        &&& self.functions == other.functions
        &&& self.types == other.types
        &&& self.values == other.values
        &&& self.objects == other.objects
    }

    /// The two heaps differ at most in the bound values and the frames they
    /// hold.
    pub open spec fn same_but_values(&self, other: &Heap) -> bool {
        &&& self.strings == other.strings
        &&& self.codes == other.codes
        &&& self.functions == other.functions
        &&& self.types == other.types
        &&& self.lists == other.lists
        &&& self.objects == other.objects
    }

    /// The two heaps differ at most in the objects and the frames they
    /// hold.
    pub open spec fn same_but_objects(&self, other: &Heap) -> bool {
        &&& self.strings == other.strings
        &&& self.codes == other.codes
        &&& self.functions == other.functions
        &&& self.types == other.types
        &&& self.values == other.values
        &&& self.lists == other.lists
    }

    /// The two heaps differ at most in the functions and the frames they
    /// hold.
    pub open spec fn same_but_functions(&self, other: &Heap) -> bool {
        &&& self.strings == other.strings
        &&& self.codes == other.codes
        &&& self.types == other.types
        &&& self.values == other.values
        &&& self.lists == other.lists
        &&& self.objects == other.objects
    }

    /// The text that `text` names, where the heap holds one.
    pub open spec fn text(&self, text: Ptr<String>) -> Option<Seq<char>> {
        if text.live(self.strings@) {
            Some(self.strings@[text@]@)
        } else {
            None
        }
    }
}

/// `longer` begins with `shorter`.
pub open spec fn prefix<T>(shorter: Seq<T>, longer: Seq<T>) -> bool {
    &&& shorter.len() <= longer.len()
    &&& forall|i: int| 0 <= i < shorter.len() ==> longer[i] == shorter[i]
}

/// `after` is `before` but for the entry at `at`.
pub open spec fn only_changed<T>(before: Seq<T>, after: Seq<T>, at: int) -> bool {
    &&& after.len() == before.len()
    &&& forall|i: int| 0 <= i < before.len() && i != at ==> after[i] == before[i]
}

} // verus!
