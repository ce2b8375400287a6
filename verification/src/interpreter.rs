//! The interpreter: fetch, execute, call and return.

use crate::builtins::natives::{arg, items, items_of, new_string, run_native, text};
use crate::ast::Module;
use crate::balance::balanced;
use crate::builtins::Builtins;
use crate::compiler::{code_built, lemma_code_built_stable, CodeBuilder, CodeModel};
use crate::discipline::{lemma_start_in_order, orderly};
use crate::error::{CompileError, RuntimeError};
use crate::float::FloatUnit;
use crate::frame::{Frame, FrameView, Function};
use crate::heap::{only_changed, prefix, Heap};
use crate::instruction::{ConstantIndex, Instruction, NameIndex};
use crate::machine::{
    bound, callable, done_of, find_slot, lemma_bound_none, lemma_callable, lemma_display_settled,
    lemma_invoked_from, lemma_invoked_turned, lemma_resolve_owner, resolve, slot_of, Machine, Plan,
};
use crate::ptr::{Ptr, PtrMut};
use crate::value::{ArgPattern, NativeFunction, Slot, Type, Value};
use vstd::prelude::*;
use vstd::string::StringExecFns;

verus! {

/// How a call that ran to its end came out.
#[derive(Debug, Clone, Copy, PartialEq, Eq)]
pub enum Outcome {
    /// The callee returned a value.
    Value(Value),
    /// The script asked to end the process with this status.
    Exit(usize),
}

/// What invoking a callable did.
#[derive(Debug, Clone, Copy, PartialEq, Eq)]
pub enum Called {
    /// A frame for a user function became the active frame; the call goes
    /// on from its first instruction.
    Entered,
    /// A built-in function ran to its end.
    Done(Outcome),
}

/// What executing one instruction asks of the loop that drives the machine.
#[derive(Debug, Clone, Copy, PartialEq, Eq)]
pub enum Step {
    /// Go on with the next instruction of the active frame.
    Continue,
    /// The active frame finished with this value.
    Return(Value),
    /// The script asked to end the process with this status.
    Exit(usize),
}

/// Where the machine stands after a step.
#[derive(Debug, Clone, Copy, PartialEq, Eq)]
pub enum Status {
    Running,
    Exited(usize),
}

/// The nesting limit of a new machine.
pub const DEFAULT_DEPTH: usize = 512;

/// The virtual machine: the heap, the active frame, the built-ins, the
/// floating-point unit, what the script has printed and not yet handed
/// over, and the budgets that bound a run.
pub struct Interpreter<U: FloatUnit> {
    heap: Heap,
    frame: PtrMut<Frame>,
    builtins: Builtins,
    unit: U,
    output: String,
    fuel: u64,
    max_depth: usize,
}

impl<U: FloatUnit> View for Interpreter<U> {
    type V = Machine;

    closed spec fn view(&self) -> Machine {
        Machine {
            heap: self.heap,
            frame: self.frame,
            builtins: self.builtins,
            output: self.output@,
            fuel: self.fuel,
            max_depth: self.max_depth,
        }
    }
}

/// Walks the chain of types from `ty` upwards for `slot`.
pub fn lookup_slot(types: &Vec<Type>, ty: Ptr<Type>, slot: Slot) -> (held: Result<
    Value,
    RuntimeError,
>)
    ensures
        held == find_slot(types@, ty, slot),
    decreases ty@,
{
    let entry = match ty.get(types) {
        Some(entry) => entry,
        None => {
            return Err(RuntimeError::StackCorruption);
        },
    };
    match entry.slot(slot) {
        Some(held) => Ok(held),
        None => match entry.base {
            Some(base) => {
                if base.id() < ty.id() {
                    lookup_slot(types, base, slot)
                } else {
                    Err(RuntimeError::StackCorruption)
                }
            },
            None => Err(RuntimeError::ProtocolMissing),
        },
    }
}

/// Looks up what the type of `value` and the types it derives from hold in
/// `slot`.
pub fn get_native_prop(heap: &Heap, builtins: &Builtins, value: Value, slot: Slot) -> (held:
    Result<Value, RuntimeError>)
    ensures
        held == slot_of(heap, *builtins, value, slot),
{
    match value.ty(builtins, &heap.objects, &heap.values) {
        Some(ty) => lookup_slot(&heap.types, ty, slot),
        None => Err(RuntimeError::StackCorruption),
    }
}

/// Finds the frame that owns `name`, looking from `start` along the chain
/// of enclosing frames.
pub fn resolve_name(frames: &Vec<Frame>, start: PtrMut<Frame>, name: &String) -> (owner: Result<
    PtrMut<Frame>,
    RuntimeError,
>)
    ensures
        owner == resolve(frames@, start, name@),
    decreases start@,
{
    let frame = match start.get(frames) {
        Some(frame) => frame,
        None => {
            return Err(RuntimeError::StackCorruption);
        },
    };
    if frame.contains_variable(name) {
        return Ok(start);
    }
    match frame.outer_frame() {
        Some(outer) => {
            if outer.id() < start.id() {
                resolve_name(frames, outer, name)
            } else {
                Err(RuntimeError::StackCorruption)
            }
        },
        None => Err(RuntimeError::NameUnresolved),
    }
}

/// Works out what invoking `value` on `args` comes down to.
pub fn resolve_callable(
    heap: &Heap,
    builtins: &Builtins,
    value: Value,
    args: &Vec<Value>,
    depth: usize,
) -> (target: Result<(Value, Vec<Value>), RuntimeError>)
    ensures
        match callable(
            heap.types@,
            heap.objects@,
            heap.values@,
            *builtins,
            value,
            args@,
            depth as nat,
        ) {
            Ok((callee, all)) => target matches Ok(found) && found.0 == callee && found.1@ == all,
            Err(e) => target matches Err(error) && error == e,
        },
    decreases depth,
{
    match value {
        Value::Function(_) | Value::Native(_, _) => {
            let mut all: Vec<Value> = Vec::new();
            let mut i: usize = 0;
            while i < args.len()
                invariant
                    i <= args@.len(),
                    all@ == args@.subrange(0, i as int),
                decreases args.len() - i,
            {
                all.push(args[i]);
                assert(all@ =~= args@.subrange(0, i + 1));
                i += 1;
            }
            assert(all@ =~= args@);
            Ok((value, all))
        },
        Value::Bound(obj, bound) => {
            if depth == 0 {
                return Err(RuntimeError::TooDeep);
            }
            let callable = match obj.get(&heap.values) {
                Some(callable) => *callable,
                None => {
                    return Err(RuntimeError::StackCorruption);
                },
            };
            let receiver = match bound.get(&heap.values) {
                Some(receiver) => *receiver,
                None => {
                    return Err(RuntimeError::StackCorruption);
                },
            };
            let new_args = prepend(receiver, args);
            resolve_callable(heap, builtins, callable, &new_args, depth - 1)
        },
        _ => {
            if depth == 0 {
                return Err(RuntimeError::TooDeep);
            }
            let call = get_native_prop(heap, builtins, value, Slot::Call)?;
            let new_args = prepend(value, args);
            resolve_callable(heap, builtins, call, &new_args, depth - 1)
        },
    }
}

impl<U: FloatUnit> Interpreter<U> {
    /// Create a new interpreter with a root frame and builtins instance.
    /// Its step budget is the largest there is, and nothing is printed yet.
    pub fn new(heap: Heap, frame: PtrMut<Frame>, builtins: Builtins, unit: U) -> (interpreter:
        Self)
        ensures
            interpreter@ == (Machine {
                heap,
                frame,
                builtins,
                output: Seq::empty(),
                fuel: u64::MAX,
                max_depth: DEFAULT_DEPTH,
            }),
    {
        Self {
            heap,
            frame,
            builtins,
            unit,
            output: String::new(),
            fuel: u64::MAX,
            max_depth: DEFAULT_DEPTH,
        }
    }

    /// Compiles `module` and sets up a machine that is about to run it: a
    /// heap with the built-in types and the code of the module, and one
    /// frame, active, at the first instruction of that code. The machine
    /// is in order. A module that holds an object literal is rejected.
    pub fn start(module: &Module, unit: U) -> (started: Result<Self, CompileError>)
        ensures
            started is Ok <==> module.supported(),
            started matches Err(e) ==> e == CompileError::ObjectLiteral,
            started matches Ok(interpreter) ==> {
                let machine = interpreter@;
                &&& orderly(machine)
                &&& machine.builtins.types.installed(&machine.heap)
                &&& machine.builtins.print == Value::Native(NativeFunction::Print, ArgPattern::Any)
                &&& machine.output == Seq::<char>::empty()
                &&& machine.fuel == u64::MAX
                &&& machine.max_depth == DEFAULT_DEPTH
                &&& machine.heap.frames@.len() == 1
                &&& machine.current() matches Some(frame) && frame == FrameView::fresh(
                    frame.code,
                    None,
                    None,
                ) && frame.code.live(machine.heap.codes@) && code_built(
                    &machine.heap,
                    machine.heap.codes@[frame.code@]@,
                    CodeModel::empty(0).module(module.body@),
                )
            },
    {
        let mut heap = Heap::new();
        let builtins = Builtins::new(&mut heap);
        let mut code_builder = CodeBuilder::new(0);
        match code_builder.compile_module(module) {
            Err(e) => {
                return Err(e);
            },
            Ok(_) => {},
        }
        let ghost model = code_builder@;
        let ghost typed = heap;
        let code = code_builder.build(&mut heap);
        let ghost built = heap;
        let ghost view = code@;
        let code = Ptr::new(&mut heap.codes, code);
        let frame = PtrMut::new(&mut heap.frames, Frame::new(code, None, None));
        let interpreter = Interpreter::new(heap, frame, builtins, unit);
        proof {
            let machine = interpreter@;
            assert(machine.heap.frames@.len() == 1);
            assert(typed.extended_by(&machine.heap));
            assert(builtins.types.installed(&machine.heap));
            assert(built.extended_by(&machine.heap));
            lemma_code_built_stable(&built, &machine.heap, view, model);
            assert forall|c: int| 0 <= c < machine.heap.codes@.len() implies balanced(
                (#[trigger] machine.heap.codes@[c])@.instructions,
            ) by {
                if c < built.codes@.len() {
                    assert(machine.heap.codes@[c] == built.codes@[c]);
                }
            }
            lemma_start_in_order(machine);
        }
        Ok(interpreter)
    }

    /// A reference to the interpreter Builtins.
    pub fn builtins(&self) -> (builtins: &Builtins)
        ensures
            *builtins == self@.builtins,
    {
        &self.builtins
    }

    /// The heap that the machine works on.
    pub fn heap(&self) -> (heap: &Heap)
        ensures
            *heap == self@.heap,
    {
        &self.heap
    }

    /// The handle of the active frame.
    pub fn active_frame(&self) -> (frame: PtrMut<Frame>)
        ensures
            frame == self@.frame,
    {
        self.frame
    }

    /// The steps that the machine may still take.
    pub fn fuel(&self) -> (fuel: u64)
        ensures
            fuel == self@.fuel,
    {
        self.fuel
    }

    /// Sets the steps that the machine may still take.
    pub fn set_fuel(&mut self, fuel: u64)
        ensures
            final(self)@ == (Machine { fuel, ..old(self)@ }),
    {
        self.fuel = fuel;
    }

    /// Sets how deeply built-in functions may call back into the machine.
    pub fn set_max_depth(&mut self, max_depth: usize)
        ensures
            final(self)@ == (Machine { max_depth, ..old(self)@ }),
    {
        self.max_depth = max_depth;
    }

    /// Hands over what the script has printed since the last call.
    pub fn take_output(&mut self) -> (printed: String)
        ensures
            printed@ == old(self)@.output,
            final(self)@ == (Machine { output: Seq::empty(), ..old(self)@ }),
    {
        let mut printed = String::new();
        std::mem::swap(&mut self.output, &mut printed);
        printed
    }

    /// The active frame.
    fn current(&self) -> (frame: Result<&Frame, RuntimeError>)
        ensures
            match self@.current() {
                Some(view) => frame matches Ok(f) && f@ == view && *f
                    == self@.heap.frames@[self@.frame@],
                None => frame matches Err(RuntimeError::StackCorruption),
            },
    {
        match self.frame.get(&self.heap.frames) {
            Some(frame) => Ok(frame),
            None => Err(RuntimeError::StackCorruption),
        }
    }

    /// The name at `namei` in the name pool of the active frame's code.
    fn name(&self, namei: NameIndex) -> (name: Result<Ptr<String>, RuntimeError>)
        ensures
            match self@.current() {
                Some(frame) => match frame.name(self@.heap.codes@, namei) {
                    Some(found) => name == Ok::<Ptr<String>, RuntimeError>(found),
                    None => name matches Err(RuntimeError::StackCorruption),
                },
                None => name matches Err(RuntimeError::StackCorruption),
            },
    {
        match self.current()?.name(&self.heap.codes, namei) {
            Some(name) => Ok(name),
            None => Err(RuntimeError::StackCorruption),
        }
    }

    /// The text of the name at `namei` in the name pool of the active
    /// frame's code.
    fn name_text(&self, namei: NameIndex) -> (name: Result<String, RuntimeError>)
        ensures
            match self@.name_text(namei) {
                Some(text) => name matches Ok(found) && found@ == text,
                None => name matches Err(RuntimeError::StackCorruption),
            },
    {
        match self.name(namei)?.get(&self.heap.strings) {
            Some(text) => Ok(text.clone()),
            None => Err(RuntimeError::StackCorruption),
        }
    }

    /// Pops the top of the active frame's operand stack.
    fn pop_value(&mut self) -> (value: Result<Value, RuntimeError>)
        ensures
            old(self)@.same_registers(final(self)@),
            match old(self)@.popped() {
                Ok((top, rest)) => value == Ok::<Value, RuntimeError>(top)
                    && old(self)@.current_becomes(final(self)@, rest),
                Err(e) => value == Err::<Value, RuntimeError>(e),
            },
    {
        let frame = self.frame;
        if frame.id() >= self.heap.frames.len() {
            return Err(RuntimeError::StackCorruption);
        }
        frame.value_mut(&mut self.heap.frames).pop()
    }

    /// Pushes `value` on the active frame's operand stack.
    fn push_value(&mut self, value: Value) -> (done: Result<(), RuntimeError>)
        ensures
            old(self)@.same_registers(final(self)@),
            match old(self)@.pushed(value) {
                Ok(frame) => done is Ok && old(self)@.current_becomes(final(self)@, frame),
                Err(e) => done == Err::<(), RuntimeError>(e),
            },
    {
        let frame = self.frame;
        if frame.id() >= self.heap.frames.len() {
            return Err(RuntimeError::StackCorruption);
        }
        frame.value_mut(&mut self.heap.frames).push(value);
        Ok(())
    }

    /// Pops the top `count` values of the active frame's operand stack, the
    /// top first.
    fn pop_values(&mut self, count: usize) -> (values: Result<Vec<Value>, RuntimeError>)
        ensures
            old(self)@.same_registers(final(self)@),
            match old(self)@.popped_many(count) {
                Ok((tops, rest)) => values matches Ok(v) && v@ == tops
                    && old(self)@.current_becomes(final(self)@, rest),
                Err(e) => values matches Err(RuntimeError::StackCorruption),
            },
    {
        let mut values: Vec<Value> = Vec::new();
        let ghost start = self@;
        if self.current()?.depth() < count {
            return Err(RuntimeError::StackCorruption);
        }
        let ghost frame = start.current().unwrap();
        assert(frame.drop(0).stack =~= frame.stack);
        let mut i: usize = 0;
        while i < count
            invariant
                i <= count <= frame.stack.len(),
                start.current() == Some(frame),
                start.current_becomes(self@, frame.drop(i as int)),
                values@ == Seq::new(i as nat, |k: int| frame.peek(k)),
            decreases count - i,
        {
            let ghost before = self@;
            let value = self.pop_value();
            assert(before.popped() == Ok::<(Value, FrameView), RuntimeError>(
                (frame.peek(i as int), frame.drop(i + 1)),
            )) by {
                assert(frame.drop(i as int).drop(1).stack =~= frame.drop(i + 1).stack);
            }
            match value {
                Ok(value) => {
                    values.push(value);
                },
                Err(e) => {
                    return Err(RuntimeError::StackCorruption);
                },
            }
            i += 1;
            assert(values@ =~= Seq::new(i as nat, |k: int| frame.peek(k)));
        }
        Ok(values)
    }

    /// `Pop`: discards the top of the stack.
    fn pop(&mut self) -> (done: Result<(), RuntimeError>)
        ensures
            old(self)@.same_registers(final(self)@),
            match old(self)@.popped() {
                Ok((_, rest)) => done is Ok && old(self)@.current_becomes(final(self)@, rest),
                Err(e) => done == Err::<(), RuntimeError>(e),
            },
    {
        self.pop_value()?;
        Ok(())
    }

    /// `LoadConstant`: pushes the constant at `consi`.
    fn load_constant(&mut self, consi: ConstantIndex) -> (done: Result<(), RuntimeError>)
        ensures
            old(self)@.same_registers(final(self)@),
            match old(self)@.constant_loaded(consi) {
                Ok(frame) => done is Ok && old(self)@.current_becomes(final(self)@, frame),
                Err(e) => done == Err::<(), RuntimeError>(e),
            },
    {
        let constant = match self.current()?.constant(&self.heap.codes, consi) {
            Some(constant) => constant,
            None => {
                return Err(RuntimeError::StackCorruption);
            },
        };
        self.push_value(constant)
    }

    /// `LoadVariable`: pushes the built-in of the name at `namei`, or else
    /// what the first enclosing frame that binds the name binds it to.
    fn load_variable(&mut self, namei: NameIndex) -> (done: Result<(), RuntimeError>)
        ensures
            old(self)@.same_registers(final(self)@),
            match old(self)@.variable_loaded(namei) {
                Ok(frame) => done is Ok && old(self)@.current_becomes(final(self)@, frame),
                Err(e) => done == Err::<(), RuntimeError>(e),
            },
    {
        let name = self.name_text(namei)?;
        let value = if let Some(builtin) = self.builtins.resolve(&name) {
            builtin
        } else {
            let frame = resolve_name(&self.heap.frames, self.frame, &name)?;
            proof {
                lemma_resolve_owner(self.heap.frames@, self.frame, name@);
            }
            match frame.value(&self.heap.frames).variable(&name) {
                Some(value) => value,
                None => {
                    return Err(RuntimeError::StackCorruption);
                },
            }
        };
        self.push_value(value)
    }

    /// `StoreVariable`: pops a value and rebinds the name at `namei` in the
    /// first enclosing frame that binds it.
    fn store_variable(&mut self, namei: NameIndex) -> (done: Result<(), RuntimeError>)
        ensures
            old(self)@.same_registers(final(self)@),
            match old(self)@.stored_variable(namei) {
                Ok((owner, name, value)) => done is Ok && old(self)@.variable_stored(
                    final(self)@,
                    owner,
                    name,
                    value,
                    false,
                ),
                Err(e) => done == Err::<(), RuntimeError>(e),
            },
    {
        let name = self.name_text(namei)?;
        let frame = resolve_name(&self.heap.frames, self.frame, &name)?;
        proof {
            lemma_resolve_owner(self.heap.frames@, self.frame, name@);
        }
        let value = self.pop_value()?;
        frame.value_mut(&mut self.heap.frames).declare(name, value);
        Ok(())
    }

    /// `Declare`: pops a value and binds the name at `namei` to it in the
    /// active frame.
    fn declare(&mut self, namei: NameIndex) -> (done: Result<(), RuntimeError>)
        ensures
            old(self)@.same_registers(final(self)@),
            match old(self)@.declared(namei) {
                Ok(frame) => done is Ok && old(self)@.current_becomes(final(self)@, frame),
                Err(e) => done == Err::<(), RuntimeError>(e),
            },
    {
        let name = self.name_text(namei)?;
        let value = self.pop_value()?;
        let frame = self.frame;
        frame.value_mut(&mut self.heap.frames).declare(name, value);
        Ok(())
    }

    /// `Jump`: moves the program counter to `jmp`.
    fn jump(&mut self, jmp: usize) -> (done: Result<(), RuntimeError>)
        ensures
            old(self)@.same_registers(final(self)@),
            match old(self)@.jumped(jmp) {
                Ok(frame) => done is Ok && old(self)@.current_becomes(final(self)@, frame),
                Err(e) => done == Err::<(), RuntimeError>(e),
            },
    {
        let frame = self.frame;
        if frame.id() >= self.heap.frames.len() {
            return Err(RuntimeError::StackCorruption);
        }
        frame.value_mut(&mut self.heap.frames).jump_absolute(jmp);
        Ok(())
    }

    /// `JumpFalse`: pops a condition and moves the program counter to `jmp`
    /// where it counts as false.
    fn jump_false(&mut self, jmp: usize) -> (done: Result<(), RuntimeError>)
        ensures
            old(self)@.same_registers(final(self)@),
            match old(self)@.jumped_if_false(jmp) {
                Ok(frame) => done is Ok && old(self)@.current_becomes(final(self)@, frame),
                Err(e) => done == Err::<(), RuntimeError>(e),
            },
    {
        if !self.pop_value()?.as_bool()? {
            let frame = self.frame;
            frame.value_mut(&mut self.heap.frames).jump_absolute(jmp);
        }
        Ok(())
    }
}

impl<U: FloatUnit> Interpreter<U> {
    /// `CreateList`: pops `len` values and pushes a new list of them, the
    /// first one popped first.
    fn create_list(&mut self, len: usize) -> (done: Result<(), RuntimeError>)
        ensures
            old(self)@.same_registers(final(self)@),
            match old(self)@.popped_many(len) {
                Ok((items, rest)) => done is Ok && old(self)@.list_created(final(self)@, items, rest),
                Err(e) => done == Err::<(), RuntimeError>(e),
            },
    {
        let list = self.pop_values(len)?;
        let list = Value::List(PtrMut::new(&mut self.heap.lists, list));
        self.push_value(list)
    }

    /// `CreateFunction`: pops a code object and pushes a function of it that
    /// captures the active frame.
    fn create_function(&mut self) -> (done: Result<(), RuntimeError>)
        ensures
            old(self)@.same_registers(final(self)@),
            match old(self)@.popped() {
                Ok((Value::Code(code), rest)) => done is Ok && old(self)@.function_created(
                    final(self)@,
                    code,
                    rest,
                ),
                Ok(_) => done == Err::<(), RuntimeError>(RuntimeError::StackCorruption),
                Err(e) => done == Err::<(), RuntimeError>(e),
            },
    {
        let value = self.pop_value()?;
        if let Value::Code(code) = value {
            let func = Ptr::new(&mut self.heap.functions, Function::new(code, self.frame));
            self.push_value(Value::Function(func))
        } else {
            Err(RuntimeError::StackCorruption)
        }
    }

    /// `Return`: pops the value that the active frame returns.
    fn return_statement(&mut self) -> (value: Result<Value, RuntimeError>)
        ensures
            old(self)@.same_registers(final(self)@),
            match old(self)@.popped() {
                Ok((top, rest)) => value == Ok::<Value, RuntimeError>(top)
                    && old(self)@.current_becomes(final(self)@, rest),
                Err(e) => value == Err::<Value, RuntimeError>(e),
            },
    {
        self.pop_value()
    }

    /// Appends `text` to what the script has printed.
    fn write(&mut self, text: &str)
        ensures
            final(self)@ == (Machine { output: old(self)@.output + text@, ..old(self)@ }),
    {
        self.output.append(text);
    }

    /// Invokes `value` on `args`. A user function gets a frame of its own,
    /// which becomes the active frame; a built-in function runs to its end.
    /// A bound callable is invoked on its receiver followed by `args`, and
    /// any other value through the call slot of its type, on itself
    /// followed by `args`.
    fn call_value(&mut self, value: Value, args: &Vec<Value>, depth: usize) -> (called: Result<
        Called,
        RuntimeError,
    >)
        ensures
            final(self)@.fuel <= old(self)@.fuel,
            old(self)@.invoked(
                old(self)@.current_view(),
                final(self)@,
                value,
                args@,
                called,
                depth as nat,
            ),
        decreases depth, 4nat,
    {
        match value {
            Value::Function(func) => self.enter(func, args),
            Value::Native(func, params) => self.apply_native(func, params, args, depth),
            _ => {
                let (target, all) = resolve_callable(&self.heap, &self.builtins, value, args, depth)?;
                match target {
                    Value::Function(func) => self.enter(func, &all),
                    Value::Native(func, params) => self.apply_native(func, params, &all, depth),
                    _ => {
                        proof {
                            lemma_callable(
                                self.heap.types@,
                                self.heap.objects@,
                                self.heap.values@,
                                self.builtins,
                                value,
                                args@,
                                depth as nat,
                            );
                        }
                        Err(RuntimeError::StackCorruption)
                    },
                }
            },
        }
    }

    /// Enters a frame for the call of the user function `func` on `args`.
    fn enter(&mut self, func: Ptr<Function>, args: &Vec<Value>) -> (called: Result<
        Called,
        RuntimeError,
    >)
        ensures
            final(self)@.fuel == old(self)@.fuel,
            forall|depth: nat|
                old(self)@.applied(
                    old(self)@.current_view(),
                    final(self)@,
                    Value::Function(func),
                    args@,
                    called,
                    depth,
                ),
    {
        let mut frame = match func.get(&self.heap.functions) {
            Some(function) => function.as_frame(self.frame),
            None => {
                return Err(RuntimeError::StackCorruption);
            },
        };
        let parameters = match frame.parameters(&self.heap.codes) {
            Some(parameters) => parameters,
            None => {
                return Err(RuntimeError::StackCorruption);
            },
        };
        if parameters.len() != args.len() {
            return Err(RuntimeError::ArityMismatch);
        }
        let ghost fresh = frame@;
        let mut i: usize = 0;
        while i < parameters.len()
            invariant
                i <= parameters@.len() == args@.len(),
                *self == *old(self),
                bound(self.heap.strings@, parameters@, args@, i as int) == Some(frame@.scope),
                frame@ == (FrameView { scope: frame@.scope, ..fresh }),
                func.live(self.heap.functions@),
                fresh == FrameView::fresh(
                    self.heap.functions@[func@].code(),
                    Some(self.frame),
                    Some(self.heap.functions@[func@].outer_frame()),
                ),
                fresh.parameters(self.heap.codes@) == Some(parameters@),
            decreases parameters.len() - i,
        {
            match parameters[i].get(&self.heap.strings) {
                Some(name) => frame.declare(name.clone(), args[i]),
                None => {
                    proof {
                        assert(bound(self.heap.strings@, parameters@, args@, i + 1).is_none());
                        lemma_bound_none(
                            self.heap.strings@,
                            parameters@,
                            args@,
                            i + 1,
                            parameters@.len() as int,
                        );
                    }
                    return Err(RuntimeError::StackCorruption);
                },
            }
            i += 1;
        }
        self.frame = PtrMut::new(&mut self.heap.frames, frame);
        Ok(Called::Entered)
    }

    /// Applies the built-in function `func` to `args`, where its arity
    /// pattern `params` accepts their number.
    fn apply_native(
        &mut self,
        func: NativeFunction,
        params: ArgPattern,
        args: &Vec<Value>,
        depth: usize,
    ) -> (called: Result<Called, RuntimeError>)
        ensures
            final(self)@.fuel <= old(self)@.fuel,
            old(self)@.applied(
                old(self)@.current_view(),
                final(self)@,
                Value::Native(func, params),
                args@,
                called,
                depth as nat,
            ),
        decreases depth, 3nat,
    {
        if !params.admits(args.len()) {
            return Err(RuntimeError::ArityMismatch);
        }
        Ok(Called::Done(self.invoke_native(func, args, depth)?))
    }

    /// Runs the built-in function `native` on `args`.
    fn invoke_native(&mut self, native: NativeFunction, args: &Vec<Value>, depth: usize) -> (outcome:
        Result<Outcome, RuntimeError>)
        ensures
            final(self)@.fuel <= old(self)@.fuel,
            old(self)@.ran(
                old(self)@.current_view(),
                final(self)@,
                native,
                args@,
                outcome,
                depth as nat,
            ),
        decreases depth, 2nat,
    {
        match native {
            NativeFunction::Print => self.print(args, depth),
            NativeFunction::ListDisplay => self.list_display(args, depth),
            _ => {
                match run_native(&mut self.heap, &self.builtins, &self.unit, native, args) {
                    Ok(value) => Ok(Outcome::Value(value)),
                    Err(e) => Err(e),
                }
            },
        }
    }

    /// Displays `value` through the display slot of its type. Whatever the
    /// slot holds must hand back a string.
    fn display(&mut self, value: Value, depth: usize) -> (shown: Result<
        Result<String, usize>,
        RuntimeError,
    >)
        ensures
            final(self)@.fuel <= old(self)@.fuel,
            old(self)@.shelf().showable(value, depth as nat) ==> {
                &&& shown matches Ok(Ok(given))
                &&& old(self)@.wrote(old(self)@.current_view(), final(self)@, Seq::empty())
                &&& old(self)@.shelf().shown(value, depth as nat) matches Some(text) ==> given@
                    == text
            },
        decreases depth, 0nat,
    {
        if depth == 0 {
            return Err(RuntimeError::TooDeep);
        }
        let display = get_native_prop(&self.heap, &self.builtins, value, Slot::Display)?;
        let mut args: Vec<Value> = Vec::new();
        args.push(value);
        assert(args@ =~= seq![value]);
        let outcome = self.call_with_return_at(display, &args, depth - 1);
        proof {
            if old(self)@.shelf().showable(value, depth as nat) {
                assert(old(self)@.target(display, args@, (depth - 1) as nat) == Ok::<
                    (Value, Seq<Value>),
                    RuntimeError,
                >((display, args@)));
                lemma_display_settled(old(self)@, self@, value, outcome, depth as nat);
            }
        }
        match outcome? {
            Outcome::Value(shown) => Ok(Ok(text(&self.heap.strings, shown)?.clone())),
            Outcome::Exit(code) => Ok(Err(code)),
        }
    }

    /// The built-in `print`: writes the arguments as their types display
    /// them, separated by `", "`, and ends the line.
    fn print(&mut self, args: &Vec<Value>, depth: usize) -> (outcome: Result<
        Outcome,
        RuntimeError,
    >)
        ensures
            final(self)@.fuel <= old(self)@.fuel,
            old(self)@.ran(
                old(self)@.current_view(),
                final(self)@,
                NativeFunction::Print,
                args@,
                outcome,
                depth as nat,
            ),
        decreases depth, 1nat,
    {
        let ghost start = self@;
        let ghost shelf = start.shelf();
        let ghost settled = shelf.all_showable(args@, depth as nat);
        let ghost exact = shelf.joined(args@, depth as nat, args@.len()).is_some();
        let ghost mut line: Seq<char> = Seq::empty();
        proof {
            assert(start.output + line =~= start.output);
            if exact {
                shelf.lemma_joined_showable(args@, depth as nat);
            }
        }
        let mut i: usize = 0;
        while i < args.len()
            invariant
                i <= args@.len(),
                self@.fuel <= start.fuel,
                start == old(self)@,
                shelf == start.shelf(),
                settled == shelf.all_showable(args@, depth as nat),
                exact == shelf.joined(args@, depth as nat, args@.len()).is_some(),
                exact ==> settled,
                settled ==> start.wrote(start.current_view(), self@, line),
                exact ==> shelf.joined(args@, depth as nat, i as nat) == Some(line),
            decreases args.len() - i,
        {
            let ghost before = self@;
            proof {
                if settled {
                    assert(shelf.showable(args@[i as int], depth as nat));
                    shelf.lemma_showable_stable(
                        before.heap.strings@,
                        args@[i as int],
                        depth as nat,
                    );
                    assert(before.shelf() == shelf.with(before.heap.strings@));
                }
                if exact {
                    shelf.lemma_joined_prefix(args@, depth as nat, args@.len(), (i + 1) as nat);
                    shelf.lemma_shown_stable(before.heap.strings@, args@[i as int], depth as nat);
                }
            }
            match self.display(args[i], depth)? {
                Ok(shown) => {
                    if i > 0 {
                        self.write(", ");
                    }
                    self.write(shown.as_str());
                    proof {
                        let next = if i > 0 {
                            line + ", "@ + shown@
                        } else {
                            line + shown@
                        };
                        if settled {
                            assert(self@.output =~= start.output + next);
                        }
                        line = next;
                    }
                },
                Err(code) => {
                    return Ok(Outcome::Exit(code));
                },
            }
            i += 1;
        }
        self.write("\n");
        proof {
            if settled {
                assert(self@.output =~= start.output + (line + "\n"@));
                assert(self@.output.subrange(
                    start.output.len() as int,
                    self@.output.len() as int,
                ) =~= line + "\n"@);
            }
        }
        Ok(Outcome::Value(Value::Null))
    }

    /// The display of a list: its items as their types display them,
    /// separated by `", "`, in square brackets.
    fn list_display(&mut self, args: &Vec<Value>, depth: usize) -> (outcome: Result<
        Outcome,
        RuntimeError,
    >)
        ensures
            final(self)@.fuel <= old(self)@.fuel,
            old(self)@.ran(
                old(self)@.current_view(),
                final(self)@,
                NativeFunction::ListDisplay,
                args@,
                outcome,
                depth as nat,
            ),
        decreases depth, 1nat,
    {
        let ghost start = self@;
        let ghost shelf = start.shelf();
        let mut string = String::from_str("[");
        let list = copy_items(&self.heap.lists, arg(args, 0)?)?;
        let ghost settled = shelf.listable(args@[0], depth as nat);
        let ghost exact = shelf.listed(args@[0], depth as nat).is_some();
        let ghost mut inner: Seq<char> = Seq::empty();
        proof {
            assert(start.output + Seq::<char>::empty() =~= start.output);
            assert("["@ + inner =~= "["@);
            if exact {
                shelf.lemma_joined_showable(list@, depth as nat);
            }
        }
        let mut i: usize = 0;
        while i < list.len()
            invariant
                i <= list@.len(),
                self@.fuel <= start.fuel,
                start == old(self)@,
                shelf == start.shelf(),
                args@.len() > 0,
                settled == shelf.listable(args@[0], depth as nat),
                exact == shelf.listed(args@[0], depth as nat).is_some(),
                exact ==> settled,
                settled ==> shelf.all_showable(list@, depth as nat),
                settled ==> start.wrote(start.current_view(), self@, Seq::empty()),
                exact ==> shelf.listed(args@[0], depth as nat) == Some(
                    "["@ + shelf.joined(list@, depth as nat, list@.len()).unwrap() + "]"@,
                ),
                exact ==> shelf.joined(list@, depth as nat, list@.len()).is_some(),
                exact ==> shelf.joined(list@, depth as nat, i as nat) == Some(inner) && string@
                    == "["@ + inner,
            decreases list.len() - i,
        {
            let ghost before = self@;
            proof {
                if settled {
                    assert(shelf.showable(list@[i as int], depth as nat));
                    shelf.lemma_showable_stable(
                        before.heap.strings@,
                        list@[i as int],
                        depth as nat,
                    );
                    assert(before.shelf() == shelf.with(before.heap.strings@));
                }
                if exact {
                    shelf.lemma_joined_prefix(list@, depth as nat, list@.len(), (i + 1) as nat);
                    shelf.lemma_shown_stable(before.heap.strings@, list@[i as int], depth as nat);
                }
            }
            if i > 0 {
                string.append(", ");
            }
            match self.display(list[i], depth)? {
                Ok(shown) => {
                    string.append(shown.as_str());
                    proof {
                        assert(start.output + Seq::<char>::empty() =~= start.output);
                        if exact {
                            let next = shelf.joined(list@, depth as nat, (i + 1) as nat).unwrap();
                            assert(string@ =~= "["@ + next);
                            inner = next;
                        }
                    }
                },
                Err(code) => {
                    return Ok(Outcome::Exit(code));
                },
            }
            i += 1;
        }
        string.append("]");
        let ghost before = self@;
        let ghost text = string@;
        let shown = new_string(&mut self.heap.strings, string);
        proof {
            assert(before.heap.strings@.len() == before.heap.strings.len());
            Ptr::<String>::nth(0).lemma_nth(before.heap.strings@.len());
            if settled {
                assert(prefix(start.heap.strings@, self@.heap.strings@));
                assert(start.wrote(start.current_view(), self@, Seq::empty()));
            }
            if exact {
                assert(text =~= "["@ + inner + "]"@);
                assert(self@.heap.text(shown->String_0) == Some(text));
            }
        }
        Ok(Outcome::Value(shown))
    }

    /// Call this value and run the interpreter till it returns.
    pub fn call_with_return(&mut self, value: Value, args: &Vec<Value>) -> (outcome: Result<
        Outcome,
        RuntimeError,
    >)
        ensures
            final(self)@.fuel <= old(self)@.fuel,
            old(self)@.invoked(
                old(self)@.current_view(),
                final(self)@,
                value,
                args@,
                done_of(outcome),
                old(self)@.max_depth as nat,
            ) || exists|trace: Seq<Machine>|
                old(self)@.completes(
                    old(self)@.current_view(),
                    trace,
                    final(self)@,
                    value,
                    args@,
                    outcome,
                    old(self)@.max_depth as nat,
                ),
    {
        let depth = self.max_depth;
        self.call_with_return_at(value, args, depth)
    }

    /// Calls `value` on `args` and runs the machine until that call
    /// returns; the frame that was active is active again.
    fn call_with_return_at(&mut self, value: Value, args: &Vec<Value>, depth: usize) -> (outcome:
        Result<Outcome, RuntimeError>)
        ensures
            final(self)@.fuel <= old(self)@.fuel,
            old(self)@.enters(value, args@, depth as nat) || old(self)@.invoked(
                old(self)@.current_view(),
                final(self)@,
                value,
                args@,
                done_of(outcome),
                depth as nat,
            ),
            old(self)@.invoked(
                old(self)@.current_view(),
                final(self)@,
                value,
                args@,
                done_of(outcome),
                depth as nat,
            ) || exists|trace: Seq<Machine>|
                old(self)@.completes(
                    old(self)@.current_view(),
                    trace,
                    final(self)@,
                    value,
                    args@,
                    outcome,
                    depth as nat,
                ),
        decreases depth, 10nat,
    {
        match self.call_value(value, args, depth)? {
            Called::Done(outcome) => Ok(outcome),
            Called::Entered => {
                let callee = self.frame;
                let ghost cur = old(self)@.current_view();
                let ghost mut trace: Seq<Machine> = seq![self@];
                loop
                    invariant
                        self@.fuel <= old(self)@.fuel,
                        old(self)@.enters(value, args@, depth as nat),
                        cur == old(self)@.current_view(),
                        trace.len() > 0,
                        trace.last() == self@,
                        trace[0].frame == callee,
                        old(self)@.invoked(
                            cur,
                            trace[0],
                            value,
                            args@,
                            Ok(Called::Entered),
                            depth as nat,
                        ),
                        forall|i: int|
                            0 <= i < trace.len() - 1 ==> (#[trigger] trace[i]).finishes(
                                callee,
                                trace[i + 1],
                                Ok(None),
                                depth as nat,
                            ),
                    decreases self@.fuel,
                {
                    let ghost before = self@;
                    if self.fuel == 0 {
                        assert(old(self)@.completes(
                            cur,
                            trace,
                            self@,
                            value,
                            args@,
                            Err(RuntimeError::OutOfFuel),
                            depth as nat,
                        ));
                        return Err(RuntimeError::OutOfFuel);
                    }
                    self.fuel -= 1;
                    let step = self.execute(depth);
                    let done = match step {
                        Err(e) => Err(e),
                        Ok(Step::Continue) => Ok(None),
                        Ok(Step::Exit(code)) => Ok(Some(Outcome::Exit(code))),
                        Ok(Step::Return(value)) => {
                            let returning = self.frame;
                            match self.current() {
                                Err(e) => Err(e),
                                Ok(frame) => match frame.calling_frame() {
                                    Some(caller) => {
                                        self.frame = caller;
                                        if returning.id() == callee.id() {
                                            Ok(Some(Outcome::Value(value)))
                                        } else {
                                            match self.push_value(value) {
                                                Ok(_) => Ok(None),
                                                Err(e) => Err(e),
                                            }
                                        }
                                    },
                                    None => Ok(Some(Outcome::Exit(0))),
                                },
                            }
                        },
                    };
                    assert(before.finishes(callee, self@, done, depth as nat));
                    match done {
                        Ok(None) => {
                            proof {
                                trace = trace.push(self@);
                            }
                        },
                        Ok(Some(outcome)) => {
                            assert(old(self)@.completes(
                                cur,
                                trace,
                                self@,
                                value,
                                args@,
                                Ok(outcome),
                                depth as nat,
                            ));
                            return Ok(outcome);
                        },
                        Err(e) => {
                            assert(old(self)@.completes(
                                cur,
                                trace,
                                self@,
                                value,
                                args@,
                                Err(e),
                                depth as nat,
                            ));
                            return Err(e);
                        },
                    }
                }
            },
        }
    }

    /// Calls `value` on `args` once the operands of a calling instruction
    /// are popped; a call whose result is dropped is run to its end.
    fn carry(&mut self, value: Value, args: &Vec<Value>, discard: bool, depth: usize) -> (called:
        Result<Called, RuntimeError>)
        ensures
            final(self)@.fuel <= old(self)@.fuel,
            (discard && depth > 0 && old(self)@.enters(value, args@, (depth - 1) as nat))
                || old(self)@.carried(
                (Plan { rest: old(self)@.current_view(), callee: value, args: args@, discard }),
                old(self)@.current_view(),
                final(self)@,
                called,
                depth as nat,
            ),
        decreases depth, 5nat,
    {
        if discard {
            if depth == 0 {
                return Err(RuntimeError::TooDeep);
            }
            Ok(Called::Done(self.call_with_return_at(value, args, depth - 1)?))
        } else {
            self.call_value(value, args, depth)
        }
    }

    /// `Call`: pops the callee and `argc` arguments, the first argument
    /// first, and invokes the callee on them.
    fn call(&mut self, argc: usize, depth: usize) -> (called: Result<Called, RuntimeError>)
        ensures
            final(self)@.fuel <= old(self)@.fuel,
            old(self)@.planned(final(self)@, Instruction::Call(argc), called, depth as nat),
        decreases depth, 7nat,
    {
        let ghost start = self@;
        let func = self.pop_value()?;
        let ghost popped = self@;
        let args = self.pop_values(argc)?;
        let ghost frame = start.current().unwrap();
        let ghost plan = start.plan(frame, Instruction::Call(argc)).unwrap();
        assert(args@ =~= plan.args);
        assert(frame.drop(1).drop(argc as int).stack =~= plan.rest.stack);
        assert(start.current_becomes(self@, plan.rest));
        self.dispatch(Ghost(start), Ghost(plan), func, &args, false, depth)
    }

    /// Makes the call of a calling instruction whose operands are popped.
    fn dispatch(
        &mut self,
        Ghost(start): Ghost<Machine>,
        Ghost(plan): Ghost<Plan>,
        value: Value,
        args: &Vec<Value>,
        discard: bool,
        depth: usize,
    ) -> (called: Result<Called, RuntimeError>)
        requires
            start.current_becomes(old(self)@, plan.rest),
            plan.callee == value,
            plan.args == args@,
            plan.discard == discard,
        ensures
            final(self)@.fuel <= old(self)@.fuel,
            (plan.discard && depth > 0 && start.enters(
                plan.callee,
                plan.args,
                (depth - 1) as nat,
            )) || start.carried(plan, plan.rest, final(self)@, called, depth as nat),
        decreases depth, 6nat,
    {
        let ghost popped = self@;
        let called = self.carry(value, args, discard, depth);
        proof {
            let inner = if discard {
                (depth - 1) as nat
            } else {
                depth as nat
            };
            if !(discard && depth == 0) && !(discard && popped.enters(value, args@, inner)) {
                lemma_invoked_from(popped, start, plan.rest, self@, value, args@, called, inner);
            }
        }
        called
    }

    /// Applies the binary operator that fills `slot`: pops the left operand
    /// and then the right one, and calls what the type of the right
    /// operand holds in the slot on the two, the left one first.
    fn operation(&mut self, instruction: Instruction, depth: usize) -> (called: Result<
        Called,
        RuntimeError,
    >)
        requires
            instruction is Add || instruction is Subtract || instruction is Multiply
                || instruction is Divide || instruction is Equals || instruction is NotEquals
                || instruction is LessThan || instruction is GreaterThan
                || instruction is LessThanOrEqual || instruction is GreaterThanOrEqual,
        ensures
            final(self)@.fuel <= old(self)@.fuel,
            old(self)@.planned(final(self)@, instruction, called, depth as nat),
        decreases depth, 7nat,
    {
        let slot = match instruction {
            Instruction::Add => Slot::Add,
            Instruction::Subtract => Slot::Subtract,
            Instruction::Multiply => Slot::Multiply,
            Instruction::Divide => Slot::Divide,
            Instruction::Equals => Slot::Equals,
            Instruction::NotEquals => Slot::NotEquals,
            Instruction::LessThan => Slot::LessThan,
            Instruction::GreaterThan => Slot::GreaterThan,
            Instruction::LessThanOrEqual => Slot::LessThanOrEqual,
            _ => Slot::GreaterThanOrEqual,
        };
        let ghost start = self@;
        let lhs = self.pop_value()?;
        let rhs = self.pop_value()?;
        let prop = get_native_prop(&self.heap, &self.builtins, rhs, slot)?;
        let mut args: Vec<Value> = Vec::new();
        args.push(lhs);
        args.push(rhs);
        let ghost frame = start.current().unwrap();
        let ghost plan = start.plan(frame, instruction).unwrap();
        assert(args@ =~= plan.args);
        assert(frame.drop(1).drop(1).stack =~= plan.rest.stack);
        assert(start.current_becomes(self@, plan.rest));
        self.dispatch(Ghost(start), Ghost(plan), prop, &args, false, depth)
    }

    /// `StoreSubscript`: pops an object, a subscript and a value, and calls
    /// the `set_subscript` slot of the object on them to its end. What the call
    /// returns is for the caller to drop.
    pub fn store_subscript(&mut self) -> (called: Result<Called, RuntimeError>)
        ensures
            final(self)@.fuel <= old(self)@.fuel,
            old(self)@.planned(
                final(self)@,
                Instruction::StoreSubscript,
                called,
                old(self)@.max_depth as nat,
            ),
    {
        let depth = self.max_depth;
        self.store_subscript_at(depth)
    }

    /// [`Interpreter::store_subscript`] with `depth` nested calls to go.
    fn store_subscript_at(&mut self, depth: usize) -> (called: Result<Called, RuntimeError>)
        ensures
            final(self)@.fuel <= old(self)@.fuel,
            old(self)@.planned(final(self)@, Instruction::StoreSubscript, called, depth as nat),
        decreases depth, 7nat,
    {
        let ghost start = self@;
        let obj = self.pop_value()?;
        let subs = self.pop_value()?;
        let value = self.pop_value()?;
        let set_subscript = get_native_prop(&self.heap, &self.builtins, obj, Slot::SetSubscript)?;
        let mut args: Vec<Value> = Vec::new();
        args.push(obj);
        args.push(subs);
        args.push(value);
        let ghost frame = start.current().unwrap();
        let ghost plan = start.plan(frame, Instruction::StoreSubscript).unwrap();
        assert(args@ =~= plan.args);
        assert(frame.drop(1).drop(1).drop(1).stack =~= plan.rest.stack);
        assert(start.current_becomes(self@, plan.rest));
        self.dispatch(Ghost(start), Ghost(plan), set_subscript, &args, true, depth)
    }

    /// `LoadSubscript`: pops an object and a subscript, and calls the
    /// `get_subscript` slot of the object on them. What the call returns is for
    /// the caller to push.
    pub fn load_subscript(&mut self) -> (called: Result<Called, RuntimeError>)
        ensures
            final(self)@.fuel <= old(self)@.fuel,
            old(self)@.planned(
                final(self)@,
                Instruction::LoadSubscript,
                called,
                old(self)@.max_depth as nat,
            ),
    {
        let depth = self.max_depth;
        self.load_subscript_at(depth)
    }

    /// [`Interpreter::load_subscript`] with `depth` nested calls to go.
    fn load_subscript_at(&mut self, depth: usize) -> (called: Result<Called, RuntimeError>)
        ensures
            final(self)@.fuel <= old(self)@.fuel,
            old(self)@.planned(final(self)@, Instruction::LoadSubscript, called, depth as nat),
        decreases depth, 7nat,
    {
        let ghost start = self@;
        let obj = self.pop_value()?;
        let subs = self.pop_value()?;
        let get_subscript = get_native_prop(&self.heap, &self.builtins, obj, Slot::GetSubscript)?;
        let mut args: Vec<Value> = Vec::new();
        args.push(obj);
        args.push(subs);
        let ghost frame = start.current().unwrap();
        let ghost plan = start.plan(frame, Instruction::LoadSubscript).unwrap();
        assert(args@ =~= plan.args);
        assert(frame.drop(1).drop(1).stack =~= plan.rest.stack);
        assert(start.current_becomes(self@, plan.rest));
        self.dispatch(Ghost(start), Ghost(plan), get_subscript, &args, false, depth)
    }

    /// `StoreProperty`: pops an object and a value, and calls the
    /// `set_property` slot of the object on the object, the name at `namei` and
    /// the value, to its end. What the call returns is for the caller to drop.
    pub fn store_property(&mut self, namei: NameIndex) -> (called: Result<Called, RuntimeError>)
        ensures
            final(self)@.fuel <= old(self)@.fuel,
            old(self)@.planned(
                final(self)@,
                Instruction::StoreProperty(namei),
                called,
                old(self)@.max_depth as nat,
            ),
    {
        let depth = self.max_depth;
        self.store_property_at(namei, depth)
    }

    /// [`Interpreter::store_property`] with `depth` nested calls to go.
    fn store_property_at(&mut self, namei: NameIndex, depth: usize) -> (called: Result<
        Called,
        RuntimeError,
    >)
        ensures
            final(self)@.fuel <= old(self)@.fuel,
            old(self)@.planned(
                final(self)@,
                Instruction::StoreProperty(namei),
                called,
                depth as nat,
            ),
        decreases depth, 7nat,
    {
        let ghost start = self@;
        let obj = self.pop_value()?;
        let prop = self.name(namei)?;
        let value = self.pop_value()?;
        let set_property = get_native_prop(&self.heap, &self.builtins, obj, Slot::SetProperty)?;
        let mut args: Vec<Value> = Vec::new();
        args.push(obj);
        args.push(Value::String(prop));
        args.push(value);
        let ghost frame = start.current().unwrap();
        let ghost plan = start.plan(frame, Instruction::StoreProperty(namei)).unwrap();
        assert(args@ =~= plan.args);
        assert(frame.drop(1).drop(1).stack =~= plan.rest.stack);
        assert(start.current_becomes(self@, plan.rest));
        self.dispatch(Ghost(start), Ghost(plan), set_property, &args, true, depth)
    }

    /// `LoadProperty`: pops an object and calls the `get_property` slot of
    /// the object on the object and the name at `namei`. What the call returns
    /// is for the caller to push.
    pub fn load_property(&mut self, namei: NameIndex) -> (called: Result<Called, RuntimeError>)
        ensures
            final(self)@.fuel <= old(self)@.fuel,
            old(self)@.planned(
                final(self)@,
                Instruction::LoadProperty(namei),
                called,
                old(self)@.max_depth as nat,
            ),
    {
        let depth = self.max_depth;
        self.load_property_at(namei, depth)
    }

    /// [`Interpreter::load_property`] with `depth` nested calls to go.
    fn load_property_at(&mut self, namei: NameIndex, depth: usize) -> (called: Result<
        Called,
        RuntimeError,
    >)
        ensures
            final(self)@.fuel <= old(self)@.fuel,
            old(self)@.planned(final(self)@, Instruction::LoadProperty(namei), called, depth as nat),
        decreases depth, 7nat,
    {
        let ghost start = self@;
        let obj = self.pop_value()?;
        let prop = self.name(namei)?;
        let get_property = get_native_prop(&self.heap, &self.builtins, obj, Slot::GetProperty)?;
        let mut args: Vec<Value> = Vec::new();
        args.push(obj);
        args.push(Value::String(prop));
        let ghost frame = start.current().unwrap();
        let ghost plan = start.plan(frame, Instruction::LoadProperty(namei)).unwrap();
        assert(args@ =~= plan.args);
        assert(start.current_becomes(self@, plan.rest));
        self.dispatch(Ghost(start), Ghost(plan), get_property, &args, false, depth)
    }

    /// Executes the instruction at the program counter of the active frame
    /// and moves the counter of that frame past it.
    fn execute(&mut self, depth: usize) -> (step: Result<Step, RuntimeError>)
        ensures
            final(self)@.fuel <= old(self)@.fuel,
            old(self)@.executes(final(self)@, step, depth as nat),
        decreases depth, 9nat,
    {
        let running = self.frame;
        let instruction = match self.current()?.instruction(&self.heap.codes) {
            Some(instruction) => instruction,
            None => {
                return Err(RuntimeError::StackCorruption);
            },
        };
        let ghost start = self@;
        let ghost frame = start.current().unwrap();
        match instruction {
            Instruction::Pop => {
                self.pop()?;
                self.advance()
            },
            Instruction::Return => {
                let value = self.return_statement()?;
                self.advance()?;
                Ok(Step::Return(value))
            },
            Instruction::CreateFunction => {
                self.create_function()?;
                let step = self.advance();
                proof {
                    if let Ok((Value::Code(code), rest)) = start.popped() {
                        assert(rest.push(Value::Function(Ptr::nth(start.heap.functions@.len()))).advanced()
                            == rest.advanced().push(
                            Value::Function(Ptr::nth(start.heap.functions@.len())),
                        ));
                    }
                }
                step
            },
            Instruction::LoadConstant(consi) => {
                self.load_constant(consi)?;
                self.advance()
            },
            Instruction::LoadVariable(namei) => {
                self.load_variable(namei)?;
                self.advance()
            },
            Instruction::StoreVariable(namei) => {
                self.store_variable(namei)?;
                proof {
                    lemma_resolve_owner(
                        start.heap.frames@,
                        start.frame,
                        start.name_text(namei).unwrap(),
                    );
                }
                self.advance()
            },
            Instruction::Declare(namei) => {
                self.declare(namei)?;
                self.advance()
            },
            Instruction::Exit(code) => Ok(Step::Exit(code)),
            Instruction::Jump(jmp) => {
                self.jump(jmp)?;
                self.advance()
            },
            Instruction::JumpFalse(jmp) => {
                self.jump_false(jmp)?;
                self.advance()
            },
            Instruction::CreateList(len) => {
                self.create_list(len)?;
                let step = self.advance();
                proof {
                    if let Ok((items, rest)) = start.popped_many(len) {
                        assert(rest.push(Value::List(PtrMut::nth(start.heap.lists@.len()))).advanced()
                            == rest.advanced().push(
                            Value::List(PtrMut::nth(start.heap.lists@.len())),
                        ));
                    }
                }
                step
            },
            _ => {
                let called = match instruction {
                    Instruction::Call(argc) => self.call(argc, depth),
                    Instruction::StoreSubscript => self.store_subscript_at(depth),
                    Instruction::LoadSubscript => self.load_subscript_at(depth),
                    Instruction::StoreProperty(namei) => self.store_property_at(namei, depth),
                    Instruction::LoadProperty(namei) => self.load_property_at(namei, depth),
                    _ => self.operation(instruction, depth),
                };
                let discard = match instruction {
                    Instruction::StoreSubscript | Instruction::StoreProperty(_) => true,
                    _ => false,
                };
                let ghost called_state = self@;
                let step = match called {
                    Ok(called) => self.finish(running, called, discard),
                    Err(e) => Err(e),
                };
                proof {
                    if let Ok(plan) = start.plan(frame, instruction) {
                        if !start.open_ended(plan, depth as nat) {
                            let inner = if discard {
                                (depth - 1) as nat
                            } else {
                                depth as nat
                            };
                            if called is Ok {
                                lemma_invoked_turned(
                                    start,
                                    plan.rest,
                                    called_state,
                                    plan.after(called),
                                    self@,
                                    plan.callee,
                                    plan.args,
                                    called,
                                    inner,
                                );
                            }
                            assert(start.carried(
                                plan,
                                plan.after(called),
                                self@,
                                called,
                                depth as nat,
                            ));
                        }
                    }
                }
                step
            },
        }
    }

    /// Completes a calling instruction: moves the program counter of the
    /// frame that made the call past the instruction and, where the call
    /// gave a value that is not dropped, pushes the value on that frame.
    fn finish(&mut self, running: PtrMut<Frame>, called: Called, discard: bool) -> (step: Result<
        Step,
        RuntimeError,
    >)
        ensures
            old(self)@.same_registers(final(self)@),
            match called {
                Called::Done(Outcome::Exit(code)) => step == Ok::<Step, RuntimeError>(
                    Step::Exit(code),
                ) && final(self)@ == old(self)@,
                _ => if running.live(old(self)@.heap.frames@)
                    && old(self)@.heap.frames@[running@]@.pc < usize::MAX {
                    &&& step == Ok::<Step, RuntimeError>(Step::Continue)
                    &&& final(self)@.heap.same_but_frames(&old(self)@.heap)
                    &&& only_changed(
                        old(self)@.heap.frames@,
                        final(self)@.heap.frames@,
                        running@,
                    )
                    &&& final(self)@.heap.frames@[running@]@ == (Plan {
                        rest: old(self)@.heap.frames@[running@]@,
                        callee: Value::Null,
                        args: Seq::empty(),
                        discard,
                    }).after(Ok(called))
                } else {
                    step == Err::<Step, RuntimeError>(RuntimeError::StackCorruption)
                },
            },
    {
        if let Called::Done(Outcome::Exit(code)) = called {
            return Ok(Step::Exit(code));
        }
        if running.id() >= self.heap.frames.len() {
            return Err(RuntimeError::StackCorruption);
        }
        let frame = running.value_mut(&mut self.heap.frames);
        if frame.program_counter() == usize::MAX {
            return Err(RuntimeError::StackCorruption);
        }
        frame.jump_relative(1);
        if let Called::Done(Outcome::Value(value)) = called {
            if !discard {
                frame.push(value);
            }
        }
        Ok(Step::Continue)
    }

    /// Moves the program counter of the active frame to the next
    /// instruction.
    fn advance(&mut self) -> (step: Result<Step, RuntimeError>)
        ensures
            old(self)@.same_registers(final(self)@),
            match old(self)@.current() {
                Some(frame) if frame.pc < usize::MAX => step == Ok::<Step, RuntimeError>(
                    Step::Continue,
                ) && old(self)@.current_becomes(final(self)@, frame.advanced()),
                _ => step == Err::<Step, RuntimeError>(RuntimeError::StackCorruption),
            },
    {
        let frame = self.frame;
        if frame.id() >= self.heap.frames.len() {
            return Err(RuntimeError::StackCorruption);
        }
        let frame = frame.value_mut(&mut self.heap.frames);
        if frame.program_counter() == usize::MAX {
            return Err(RuntimeError::StackCorruption);
        }
        frame.jump_relative(1);
        Ok(Step::Continue)
    }

    /// Takes one step: executes one instruction and, where it returned
    /// from a frame, hands the value to the caller. Costs one unit of fuel.
    pub fn step(&mut self) -> (status: Result<Status, RuntimeError>)
        ensures
            final(self)@.fuel <= old(self)@.fuel,
            status is Ok ==> final(self)@.fuel < old(self)@.fuel,
            old(self)@.steps(final(self)@, status),
    {
        if self.fuel == 0 {
            return Err(RuntimeError::OutOfFuel);
        }
        self.fuel -= 1;
        let depth = self.max_depth;
        match self.execute(depth)? {
            Step::Continue => Ok(Status::Running),
            Step::Exit(code) => Ok(Status::Exited(code)),
            Step::Return(value) => match self.current()?.calling_frame() {
                Some(caller) => {
                    self.frame = caller;
                    self.push_value(value)?;
                    Ok(Status::Running)
                },
                None => Ok(Status::Exited(0)),
            },
        }
    }

    /// Run interpreter till it halts: till the script exits, an error
    /// stops it, or the fuel runs out.
    pub fn run(&mut self) -> (status: Result<usize, RuntimeError>)
        ensures
            final(self)@.fuel <= old(self)@.fuel,
            exists|trace: Seq<Machine>| old(self)@.runs(trace, final(self)@, status),
    {
        let ghost mut trace: Seq<Machine> = seq![self@];
        loop
            invariant
                self@.fuel <= old(self)@.fuel,
                trace.len() > 0,
                trace[0] == old(self)@,
                trace.last() == self@,
                forall|i: int|
                    0 <= i < trace.len() - 1 ==> (#[trigger] trace[i]).steps(
                        trace[i + 1],
                        Ok(Status::Running),
                    ),
            decreases self@.fuel,
        {
            match self.step() {
                Ok(Status::Running) => {
                    proof {
                        trace = trace.push(self@);
                    }
                },
                Ok(Status::Exited(code)) => {
                    assert(old(self)@.runs(trace, self@, Ok(code)));
                    return Ok(code);
                },
                Err(e) => {
                    assert(old(self)@.runs(trace, self@, Err(e)));
                    return Err(e);
                },
            }
        }
    }
}

/// The arguments `first` followed by `rest`.
fn prepend(first: Value, rest: &Vec<Value>) -> (all: Vec<Value>)
    ensures
        all@ == seq![first] + rest@,
{
    let mut all: Vec<Value> = Vec::new();
    all.push(first);
    let mut i: usize = 0;
    while i < rest.len()
        invariant
            i <= rest@.len(),
            all@ == seq![first] + rest@.subrange(0, i as int),
        decreases rest.len() - i,
    {
        all.push(rest[i]);
        assert(all@ =~= seq![first] + rest@.subrange(0, i + 1));
        i += 1;
    }
    assert(rest@.subrange(0, rest@.len() as int) =~= rest@);
    all
}

/// A copy of the items of the list that `value` is.
fn copy_items(lists: &Vec<Vec<Value>>, value: Value) -> (copy: Result<Vec<Value>, RuntimeError>)
    ensures
        match copy {
            Ok(copy) => items_of(lists@, value) == Ok::<Seq<Value>, RuntimeError>(copy@),
            Err(e) => items_of(lists@, value) == Err::<Seq<Value>, RuntimeError>(e),
        },
{
    let list = items(lists, value)?;
    let mut copy: Vec<Value> = Vec::new();
    let mut i: usize = 0;
    while i < list.len()
        invariant
            i <= list@.len(),
            copy@ == list@.subrange(0, i as int),
        decreases list.len() - i,
    {
        copy.push(list[i]);
        assert(copy@ =~= list@.subrange(0, i + 1));
        i += 1;
    }
    assert(list@.subrange(0, list@.len() as int) =~= list@);
    Ok(copy)
}

} // verus!
