//! Functions, code objects and frames.

use crate::error::RuntimeError;
use crate::instruction::{ConstantIndex, Instruction, NameIndex};
use crate::ptr::{Ptr, PtrMut};
use crate::table::Table;
use crate::value::Value;
use vstd::prelude::*;

verus! {

/// A function value: code together with the frame that was active when the
/// function literal was evaluated.
#[derive(Debug, Clone, Copy)]
pub struct Function {
    code: Ptr<Code>,
    outer_frame: PtrMut<Frame>,
}

impl Function {
    /// The code that a call of the function runs.
    pub closed spec fn code(&self) -> Ptr<Code> {
        self.code
    }

    /// The frame whose bindings the body of the function sees.
    pub closed spec fn outer_frame(&self) -> PtrMut<Frame> {
        self.outer_frame
    }

    /// A function of `code` that captures `outer_frame`.
    pub fn new(code: Ptr<Code>, outer_frame: PtrMut<Frame>) -> (function: Self)
        ensures
            function.code() == code,
            function.outer_frame() == outer_frame,
    {
        Self { code, outer_frame }
    }

    /// The frame for a call of the function made from `calling_frame`: it
    /// returns to the caller and resolves names through the captured frame.
    pub fn as_frame(&self, calling_frame: PtrMut<Frame>) -> (frame: Frame)
        ensures
            frame@ == FrameView::fresh(self.code(), Some(calling_frame), Some(self.outer_frame())),
    {
        Frame::new(self.code, Some(calling_frame), Some(self.outer_frame))
    }
}

/// A compiled unit: instructions, the pools they refer to, and the number
/// of parameters, whose names head the name pool.
#[derive(Debug)]
pub struct Code {
    instructions: Vec<Instruction>,
    constants: Vec<Value>,
    names: Vec<Ptr<String>>,
    parameters: usize,
}

/// What a compiled unit holds.
pub ghost struct CodeView {
    pub instructions: Seq<Instruction>,
    pub constants: Seq<Value>,
    pub names: Seq<Ptr<String>>,
    pub parameters: usize,
}

impl View for Code {
    type V = CodeView;

    closed spec fn view(&self) -> CodeView {
        CodeView {
            instructions: self.instructions@,
            constants: self.constants@,
            names: self.names@,
            parameters: self.parameters,
        }
    }
}

impl CodeView {
    /// Every operand of every instruction stays inside the code object.
    pub open spec fn in_range(self) -> bool {
        forall|i: int|
            0 <= i < self.instructions.len() ==> (#[trigger] self.instructions[i]).in_range(
                self.instructions.len(),
                self.constants.len(),
                self.names.len(),
            )
    }
}

impl Code {
    /// The addresses of a code object fit the program counter.
    pub proof fn lemma_fits(self)
        ensures
            self@.instructions.len() <= usize::MAX,
    {
        assert(self.instructions@.len() == self.instructions.len());
    }

    /// A code object of the given instructions and pools.
    pub fn new(
        instructions: Vec<Instruction>,
        constants: Vec<Value>,
        names: Vec<Ptr<String>>,
        parameters: usize,
    ) -> (code: Self)
        ensures
            code@ == (CodeView {
                instructions: instructions@,
                constants: constants@,
                names: names@,
                parameters,
            }),
    {
        Self { instructions, constants, names, parameters }
    }

    /// The instructions, in order.
    pub fn instructions(&self) -> (instructions: &Vec<Instruction>)
        ensures
            instructions@ == self@.instructions,
    {
        &self.instructions
    }

    /// The constant pool.
    pub fn constants(&self) -> (constants: &Vec<Value>)
        ensures
            constants@ == self@.constants,
    {
        &self.constants
    }

    /// The name pool.
    pub fn names(&self) -> (names: &Vec<Ptr<String>>)
        ensures
            names@ == self@.names,
    {
        &self.names
    }

    /// The number of parameters.
    pub fn parameter_count(&self) -> (parameters: usize)
        ensures
            parameters == self@.parameters,
    {
        self.parameters
    }
}

/// The activation record of one call.
#[derive(Debug)]
pub struct Frame {
    instruction_count: usize,
    code: Ptr<Code>,
    scope: Table,
    calling_frame: Option<PtrMut<Frame>>,
    outer_frame: Option<PtrMut<Frame>>,
    stack: Vec<Value>,
}

/// What an activation record holds: the program counter, the code it runs,
/// its local bindings, its operand stack with the top last, the frame it
/// returns to and the frame it resolves names through.
pub ghost struct FrameView {
    pub pc: usize,
    pub code: Ptr<Code>,
    pub scope: Map<Seq<char>, Value>,
    pub stack: Seq<Value>,
    pub calling_frame: Option<PtrMut<Frame>>,
    pub outer_frame: Option<PtrMut<Frame>>,
}

impl FrameView {
    /// The record of a call that has not started: at the first instruction,
    /// with nothing bound and nothing on the stack.
    pub open spec fn fresh(
        code: Ptr<Code>,
        calling_frame: Option<PtrMut<Frame>>,
        outer_frame: Option<PtrMut<Frame>>,
    ) -> FrameView {
        FrameView {
            pc: 0,
            code,
            scope: Map::empty(),
            stack: Seq::empty(),
            calling_frame,
            outer_frame,
        }
    }

    /// The record with `value` pushed.
    pub open spec fn push(self, value: Value) -> FrameView {
        FrameView { stack: self.stack.push(value), ..self }
    }

    /// The record with its top `count` values popped.
    pub open spec fn drop(self, count: int) -> FrameView {
        FrameView { stack: self.stack.subrange(0, self.stack.len() - count), ..self }
    }

    /// The value `depth` places below the top of the stack.
    pub open spec fn peek(self, depth: int) -> Value {
        self.stack[self.stack.len() - 1 - depth]
    }

    /// The record with `name` bound to `value`.
    pub open spec fn declare(self, name: Seq<char>, value: Value) -> FrameView {
        FrameView { scope: self.scope.insert(name, value), ..self }
    }

    /// The record at address `pc`.
    pub open spec fn at(self, pc: usize) -> FrameView {
        FrameView { pc, ..self }
    }

    /// The record at the next address.
    pub open spec fn advanced(self) -> FrameView {
        FrameView { pc: (self.pc + 1) as usize, ..self }
    }

    /// The code that the record runs, where `codes` holds it.
    pub open spec fn code_in(self, codes: Seq<Code>) -> Option<CodeView> {
        if self.code.live(codes) {
            Some(codes[self.code@]@)
        } else {
            None
        }
    }

    /// The instruction at the program counter, where `codes` holds one.
    pub open spec fn instruction(self, codes: Seq<Code>) -> Option<Instruction> {
        match self.code_in(codes) {
            Some(code) => if self.pc < code.instructions.len() {
                Some(code.instructions[self.pc as int])
            } else {
                None
            },
            None => None,
        }
    }

    /// The constant at `index`, where `codes` holds one.
    pub open spec fn constant(self, codes: Seq<Code>, index: ConstantIndex) -> Option<Value> {
        match self.code_in(codes) {
            Some(code) => if index < code.constants.len() {
                Some(code.constants[index as int])
            } else {
                None
            },
            None => None,
        }
    }

    /// The name at `index`, where `codes` holds one.
    pub open spec fn name(self, codes: Seq<Code>, index: NameIndex) -> Option<Ptr<String>> {
        match self.code_in(codes) {
            Some(code) => if index < code.names.len() {
                Some(code.names[index as int])
            } else {
                None
            },
            None => None,
        }
    }

    /// The parameter names of the code that the record runs: as many names
    /// from the head of its name pool as it declares parameters.
    pub open spec fn parameters(self, codes: Seq<Code>) -> Option<Seq<Ptr<String>>> {
        match self.code_in(codes) {
            Some(code) => if code.parameters <= code.names.len() {
                Some(code.names.subrange(0, code.parameters as int))
            } else {
                None
            },
            None => None,
        }
    }
}

impl View for Frame {
    type V = FrameView;

    closed spec fn view(&self) -> FrameView {
        FrameView {
            pc: self.instruction_count,
            code: self.code,
            scope: self.scope@,
            stack: self.stack@,
            calling_frame: self.calling_frame,
            outer_frame: self.outer_frame,
        }
    }
}

impl Frame {
    /// A frame for `code` that has not started.
    pub fn new(
        code: Ptr<Code>,
        calling_frame: Option<PtrMut<Frame>>,
        outer_frame: Option<PtrMut<Frame>>,
    ) -> (frame: Self)
        ensures
            frame@ == FrameView::fresh(code, calling_frame, outer_frame),
    {
        Self {
            instruction_count: 0,
            calling_frame,
            outer_frame,
            scope: Table::new(),
            stack: Vec::new(),
            code,
        }
    }

    /// The local bindings.
    pub fn scope(&self) -> (scope: &Table)
        ensures
            scope@ == self@.scope,
    {
        &self.scope
    }

    /// The handle of the code that the frame runs.
    pub fn code(&self) -> (code: Ptr<Code>)
        ensures
            code == self@.code,
    {
        self.code
    }

    /// The address of the instruction that runs next.
    pub fn program_counter(&self) -> (pc: usize)
        ensures
            pc == self@.pc,
    {
        self.instruction_count
    }

    /// The number of values on the operand stack.
    pub fn depth(&self) -> (depth: usize)
        ensures
            depth == self@.stack.len(),
    {
        self.stack.len()
    }

    /// The parameter names of the code that the frame runs; none when the
    /// code is not in `codes` or declares more parameters than it has names.
    pub fn parameters(&self, codes: &Vec<Code>) -> (names: Option<Vec<Ptr<String>>>)
        ensures
            match names {
                Some(names) => self@.parameters(codes@) == Some(names@),
                None => self@.parameters(codes@).is_none(),
            },
    {
        match self.code.get(codes) {
            None => None,
            Some(code) => {
                let count = code.parameters;
                if count > code.names.len() {
                    return None;
                }
                let mut names: Vec<Ptr<String>> = Vec::new();
                let mut i: usize = 0;
                while i < count
                    invariant
                        i <= count <= code.names@.len(),
                        names@ == code.names@.subrange(0, i as int),
                    decreases count - i,
                {
                    names.push(code.names[i]);
                    assert(names@ =~= code.names@.subrange(0, i + 1));
                    i += 1;
                }
                Some(names)
            },
        }
    }

    /// The frame that a return from this frame goes to.
    pub fn calling_frame(&self) -> (caller: Option<PtrMut<Frame>>)
        ensures
            caller == self@.calling_frame,
    {
        self.calling_frame
    }

    /// The frame that names not bound in this frame are looked up in.
    pub fn outer_frame(&self) -> (outer: Option<PtrMut<Frame>>)
        ensures
            outer == self@.outer_frame,
    {
        self.outer_frame
    }

    /// The constant at `consi` in the pool of the frame's code.
    pub fn constant(&self, codes: &Vec<Code>, consi: ConstantIndex) -> (value: Option<Value>)
        ensures
            value == self@.constant(codes@, consi),
    {
        match self.code.get(codes) {
            Some(code) => if consi < code.constants.len() {
                Some(code.constants[consi])
            } else {
                None
            },
            None => None,
        }
    }

    /// The name at `namei` in the pool of the frame's code.
    pub fn name(&self, codes: &Vec<Code>, namei: NameIndex) -> (name: Option<Ptr<String>>)
        ensures
            name == self@.name(codes@, namei),
    {
        match self.code.get(codes) {
            Some(code) => if namei < code.names.len() {
                Some(code.names[namei])
            } else {
                None
            },
            None => None,
        }
    }

    /// The value bound to `name` in this frame, if any.
    pub fn variable(&self, name: &String) -> (value: Option<Value>)
        ensures
            value == if self@.scope.contains_key(name@) {
                Some(self@.scope[name@])
            } else {
                None
            },
    {
        self.scope.get(name)
    }

    /// Mutable access to the value bound to `name` in this frame, if any:
    /// what is written through it is what the name is bound to afterwards.
    pub fn variable_mut(&mut self, name: &String) -> (value: Option<&mut Value>)
        ensures
            match value {
                Some(value) => old(self)@.scope.contains_key(name@) && *value
                    == old(self)@.scope[name@] && final(self)@ == old(self)@.declare(
                    name@,
                    *final(value),
                ),
                None => !old(self)@.scope.contains_key(name@) && final(self)@ == old(self)@,
            },
    {
        self.scope.get_mut(name)
    }

    /// Binds `name` to `value` in this frame, whether or not it was bound.
    pub fn declare(&mut self, name: String, value: Value)
        ensures
            final(self)@ == old(self)@.declare(name@, value),
    {
        self.scope.insert(name, value);
    }

    /// Whether this frame binds `name`.
    pub fn contains_variable(&self, name: &String) -> (bound: bool)
        ensures
            bound == self@.scope.contains_key(name@),
    {
        self.scope.contains_key(name)
    }

    /// The instruction at the program counter.
    pub fn instruction(&self, codes: &Vec<Code>) -> (instruction: Option<Instruction>)
        ensures
            instruction == self@.instruction(codes@),
            instruction is Some ==> self@.pc < usize::MAX,
    {
        match self.code.get(codes) {
            Some(code) => if self.instruction_count < code.instructions.len() {
                Some(code.instructions[self.instruction_count])
            } else {
                None
            },
            None => None,
        }
    }

    /// Pushes `value` on the operand stack.
    pub fn push(&mut self, value: Value)
        ensures
            final(self)@ == old(self)@.push(value),
    {
        self.stack.push(value);
    }

    /// Moves the program counter by `count` instructions.
    pub fn jump_relative(&mut self, count: isize)
        requires
            0 <= old(self)@.pc + count <= usize::MAX,
        ensures
            final(self)@ == old(self)@.at((old(self)@.pc + count) as usize),
    {
        if count >= 0 {
            self.instruction_count += count as usize;
        } else {
            let back: usize = (-(count + 1)) as usize + 1;
            self.instruction_count -= back;
        }
    }

    /// Moves the program counter to `addr`.
    pub fn jump_absolute(&mut self, addr: usize)
        ensures
            final(self)@ == old(self)@.at(addr),
    {
        self.instruction_count = addr;
    }

    /// Pops the top of the operand stack; an empty stack is corrupt.
    pub fn pop(&mut self) -> (value: Result<Value, RuntimeError>)
        ensures
            old(self)@.stack.len() > 0 ==> value == Ok::<Value, RuntimeError>(old(self)@.peek(0))
                && final(self)@ == old(self)@.drop(1),
            old(self)@.stack.len() == 0 ==> value == Err::<Value, RuntimeError>(
                RuntimeError::StackCorruption,
            ) && final(self)@ == old(self)@,
    {
        match self.stack.pop() {
            Some(value) => {
                assert(self.stack@ =~= old(self).stack@.subrange(0, old(self).stack@.len() - 1));
                Ok(value)
            },
            None => Err(RuntimeError::StackCorruption),
        }
    }

    /// Pops the two topmost values, the top first. With fewer than two
    /// values the stack is corrupt, and what was there is popped.
    pub fn pop_pair(&mut self) -> (pair: Result<(Value, Value), RuntimeError>)
        ensures
            old(self)@.stack.len() >= 2 ==> pair == Ok::<(Value, Value), RuntimeError>(
                (old(self)@.peek(0), old(self)@.peek(1)),
            ) && final(self)@ == old(self)@.drop(2),
            old(self)@.stack.len() < 2 ==> pair == Err::<(Value, Value), RuntimeError>(
                RuntimeError::StackCorruption,
            ) && final(self)@ == old(self)@.drop(old(self)@.stack.len() as int),
    {
        let first = self.pop();
        let second = self.pop();
        assert(self@.stack =~= old(self)@.stack.subrange(
            0,
            if old(self)@.stack.len() >= 2 {
                old(self)@.stack.len() - 2
            } else {
                0
            },
        ));
        match (first, second) {
            (Ok(first), Ok(second)) => Ok((first, second)),
            _ => Err(RuntimeError::StackCorruption),
        }
    }

    /// Pushes `values` on the operand stack, the first one deepest.
    pub fn extend(&mut self, values: &Vec<Value>)
        ensures
            final(self)@ == (FrameView { stack: old(self)@.stack + values@, ..old(self)@ }),
    {
        let mut i: usize = 0;
        while i < values.len()
            invariant
                i <= values@.len(),
                self@ == (FrameView {
                    stack: old(self)@.stack + values@.subrange(0, i as int),
                    ..old(self)@
                }),
            decreases values.len() - i,
        {
            self.stack.push(values[i]);
            assert(self@.stack =~= old(self)@.stack + values@.subrange(0, i + 1));
            i += 1;
        }
        assert(values@.subrange(0, values@.len() as int) =~= values@);
    }
}

} // verus!
