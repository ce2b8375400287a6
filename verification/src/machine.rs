//! The state of the machine as contracts see it, and what each
//! instruction, call and step does to it.

use crate::builtins::natives::{argument, bool_shown, effect, integer_shown};
use crate::builtins::Builtins;
use crate::display::Shelf;
use crate::error::RuntimeError;
use crate::frame::{Code, Frame, FrameView, Function};
use crate::heap::{only_changed, prefix, Heap};
use crate::instruction::{ConstantIndex, Instruction, NameIndex};
use crate::interpreter::{Called, Outcome, Status, Step};
use crate::ptr::{Ptr, PtrMut};
use crate::value::{type_of, ArgPattern, NativeFunction, Object, Slot, Type, Value};
use vstd::prelude::*;

verus! {

/// The state of the machine.
pub ghost struct Machine {
    pub heap: Heap,
    pub frame: PtrMut<Frame>,
    pub builtins: Builtins,
    pub output: Seq<char>,
    pub fuel: u64,
    pub max_depth: usize,
}

/// What a calling instruction is to call: the callable, the arguments, what
/// the active frame reads once the operands are popped, and whether the
/// result of the call is dropped.
pub ghost struct Plan {
    pub rest: FrameView,
    pub callee: Value,
    pub args: Seq<Value>,
    pub discard: bool,
}

/// What the chain of types from `ty` upwards holds in `slot`: the first
/// type that fills the slot decides. A chain that ends with the slot empty
/// does not support the operation; a chain that leaves the heap or does not
/// lead to older types is corrupt.
pub open spec fn find_slot(types: Seq<Type>, ty: Ptr<Type>, slot: Slot) -> Result<
    Value,
    RuntimeError,
>
    decreases ty@,
{
    if !ty.live(types) {
        Err(RuntimeError::StackCorruption)
    } else {
        match types[ty@].spec_slot(slot) {
            Some(held) => Ok(held),
            None => match types[ty@].base {
                Some(base) => if 0 <= base@ < ty@ {
                    find_slot(types, base, slot)
                } else {
                    Err(RuntimeError::StackCorruption)
                },
                None => Err(RuntimeError::ProtocolMissing),
            },
        }
    }
}

/// What the type of `value` and the types it derives from hold in `slot`.
pub open spec fn slot_of(heap: &Heap, builtins: Builtins, value: Value, slot: Slot) -> Result<
    Value,
    RuntimeError,
> {
    match type_of(value, builtins, heap.objects@, heap.values@) {
        Some(ty) => find_slot(heap.types@, ty, slot),
        None => Err(RuntimeError::StackCorruption),
    }
}

/// The frame that owns `name`, looking from `start` along the chain of
/// enclosing frames: the first frame that binds the name. The frames that
/// called these frames play no part. A chain that ends without the name
/// leaves it unresolved; a chain that leaves the heap or does not lead to
/// older frames is corrupt.
pub open spec fn resolve(frames: Seq<Frame>, start: PtrMut<Frame>, name: Seq<char>) -> Result<
    PtrMut<Frame>,
    RuntimeError,
>
    decreases start@,
{
    if !start.live(frames) {
        Err(RuntimeError::StackCorruption)
    } else if frames[start@]@.scope.contains_key(name) {
        Ok(start)
    } else {
        match frames[start@]@.outer_frame {
            Some(outer) => if 0 <= outer@ < start@ {
                resolve(frames, outer, name)
            } else {
                Err(RuntimeError::StackCorruption)
            },
            None => Err(RuntimeError::NameUnresolved),
        }
    }
}

/// The bindings of the first `count` of `params` to the arguments at the
/// same positions, a later parameter of the same name winning; nothing
/// where the text of a parameter is not in `strings`.
pub open spec fn bound(
    strings: Seq<String>,
    params: Seq<Ptr<String>>,
    args: Seq<Value>,
    count: int,
) -> Option<Map<Seq<char>, Value>>
    decreases count,
{
    if count <= 0 {
        Some(Map::empty())
    } else {
        match bound(strings, params, args, count - 1) {
            Some(scope) => if params[count - 1].live(strings) {
                Some(scope.insert(strings[params[count - 1]@]@, args[count - 1]))
            } else {
                None
            },
            None => None,
        }
    }
}

/// What invoking `value` on `args` comes down to: a user function or a
/// built-in function, and the arguments it gets. A bound callable stands
/// for the callable it wraps, applied to its receiver followed by the
/// arguments; any other value stands for what the chain of its type holds
/// in the call slot, applied to the value followed by the arguments. Each
/// such step uses up one level of `depth`.
pub open spec fn callable(
    types: Seq<Type>,
    objects: Seq<Object>,
    values: Seq<Value>,
    builtins: Builtins,
    value: Value,
    args: Seq<Value>,
    depth: nat,
) -> Result<(Value, Seq<Value>), RuntimeError>
    decreases depth,
{
    match value {
        Value::Function(_) | Value::Native(_, _) => Ok((value, args)),
        Value::Bound(wrapped, receiver) => if depth == 0 {
            Err(RuntimeError::TooDeep)
        } else if !wrapped.live(values) || !receiver.live(values) {
            Err(RuntimeError::StackCorruption)
        } else {
            callable(
                types,
                objects,
                values,
                builtins,
                values[wrapped@],
                seq![values[receiver@]] + args,
                (depth - 1) as nat,
            )
        },
        _ => if depth == 0 {
            Err(RuntimeError::TooDeep)
        } else {
            match type_of(value, builtins, objects, values) {
                None => Err(RuntimeError::StackCorruption),
                Some(ty) => match find_slot(types, ty, Slot::Call) {
                    Err(e) => Err(e),
                    Ok(call) => callable(
                        types,
                        objects,
                        values,
                        builtins,
                        call,
                        seq![value] + args,
                        (depth - 1) as nat,
                    ),
                },
            }
        },
    }
}

/// The slot that a binary operator instruction dispatches to.
pub open spec fn operator_slot(instruction: Instruction) -> Slot {
    match instruction {
        Instruction::Add => Slot::Add,
        Instruction::Subtract => Slot::Subtract,
        Instruction::Multiply => Slot::Multiply,
        Instruction::Divide => Slot::Divide,
        Instruction::Equals => Slot::Equals,
        Instruction::NotEquals => Slot::NotEquals,
        Instruction::LessThan => Slot::LessThan,
        Instruction::GreaterThan => Slot::GreaterThan,
        Instruction::LessThanOrEqual => Slot::LessThanOrEqual,
        _ => Slot::GreaterThanOrEqual,
    }
}

/// The built-in function that displays `value`, where `value` is of a
/// built-in type.
pub open spec fn display_of(value: Value) -> Option<NativeFunction> {
    match value {
        Value::Null => Some(NativeFunction::NullDisplay),
        Value::List(_) => Some(NativeFunction::ListDisplay),
        Value::String(_) => Some(NativeFunction::StringDisplay),
        Value::Integer(_) => Some(NativeFunction::IntegerDisplay),
        Value::Float(_) => Some(NativeFunction::FloatDisplay),
        Value::Bool(_) => Some(NativeFunction::BoolDisplay),
        Value::Code(_) => Some(NativeFunction::CodeDisplay),
        Value::Frame(_) => Some(NativeFunction::FrameDisplay),
        Value::Function(_) => Some(NativeFunction::FunctionDisplay),
        Value::Native(_, _) => Some(NativeFunction::NativeDisplay),
        Value::Type(_) => Some(NativeFunction::TypeDisplay),
        Value::Object(_) | Value::Bound(_, _) => None,
    }
}

/// The result of a built-in function that ran to its end.
pub open spec fn result_of(outcome: Result<Outcome, RuntimeError>) -> Result<Value, RuntimeError> {
    match outcome {
        Ok(Outcome::Value(value)) => Ok(value),
        Ok(Outcome::Exit(_)) => Err(RuntimeError::StackCorruption),
        Err(e) => Err(e),
    }
}

/// How a call that did not enter a frame came out.
pub open spec fn outcome_of(called: Result<Called, RuntimeError>) -> Result<Outcome, RuntimeError> {
    match called {
        Ok(Called::Done(outcome)) => Ok(outcome),
        Ok(Called::Entered) => Err(RuntimeError::StackCorruption),
        Err(e) => Err(e),
    }
}

/// A call that ran to its end, as what invoking it did.
pub open spec fn done_of(outcome: Result<Outcome, RuntimeError>) -> Result<Called, RuntimeError> {
    match outcome {
        Ok(outcome) => Ok(Called::Done(outcome)),
        Err(e) => Err(e),
    }
}

/// What the driving loop is asked after a call.
pub open spec fn step_after(called: Result<Called, RuntimeError>) -> Result<Step, RuntimeError> {
    match called {
        Ok(Called::Done(Outcome::Exit(code))) => Ok(Step::Exit(code)),
        Ok(_) => Ok(Step::Continue),
        Err(e) => Err(e),
    }
}

impl Plan {
    /// What the frame that made the call reads once the instruction is
    /// through: the program counter has moved on where the call entered a
    /// frame or gave a value, and the value is pushed unless it is
    /// dropped.
    pub open spec fn after(self, called: Result<Called, RuntimeError>) -> FrameView {
        match called {
            Ok(Called::Entered) => self.rest.advanced(),
            Ok(Called::Done(Outcome::Value(value))) => if self.discard {
                self.rest.advanced()
            } else {
                self.rest.advanced().push(value)
            },
            _ => self.rest,
        }
    }
}

impl Machine {
    /// The active frame, where the heap holds it.
    pub open spec fn current(self) -> Option<FrameView> {
        if self.frame.live(self.heap.frames@) {
            Some(self.heap.frames@[self.frame@]@)
        } else {
            None
        }
    }

    /// The name at `index` in the name pool of the active frame's code, as
    /// text.
    pub open spec fn name_text(self, index: NameIndex) -> Option<Seq<char>> {
        match self.current() {
            Some(frame) => match frame.name(self.heap.codes@, index) {
                Some(name) => self.heap.text(name),
                None => None,
            },
            None => None,
        }
    }

    /// The top of the active frame's operand stack and the frame without
    /// it. A stack with nothing to pop is corrupt.
    pub open spec fn popped(self) -> Result<(Value, FrameView), RuntimeError> {
        match self.current() {
            Some(frame) => if frame.stack.len() > 0 {
                Ok((frame.peek(0), frame.drop(1)))
            } else {
                Err(RuntimeError::StackCorruption)
            },
            None => Err(RuntimeError::StackCorruption),
        }
    }

    /// The active frame with `value` pushed.
    pub open spec fn pushed(self, value: Value) -> Result<FrameView, RuntimeError> {
        match self.current() {
            Some(frame) => Ok(frame.push(value)),
            None => Err(RuntimeError::StackCorruption),
        }
    }

    /// The active frame after `LoadConstant(index)`: the constant is pushed.
    pub open spec fn constant_loaded(self, index: ConstantIndex) -> Result<
        FrameView,
        RuntimeError,
    > {
        match self.current() {
            Some(frame) => match frame.constant(self.heap.codes@, index) {
                Some(value) => Ok(frame.push(value)),
                None => Err(RuntimeError::StackCorruption),
            },
            None => Err(RuntimeError::StackCorruption),
        }
    }

    /// The active frame after `Declare(index)`: the top of the stack is
    /// popped and bound to the name in this frame, whatever the frames
    /// around it bind.
    pub open spec fn declared(self, index: NameIndex) -> Result<FrameView, RuntimeError> {
        match self.name_text(index) {
            Some(name) => match self.popped() {
                Ok((value, rest)) => Ok(rest.declare(name, value)),
                Err(e) => Err(e),
            },
            None => Err(RuntimeError::StackCorruption),
        }
    }

    /// The value that `LoadVariable(index)` pushes: the built-in of that
    /// name if there is one, else what the first frame on the chain of
    /// enclosing frames that binds the name binds it to.
    pub open spec fn variable(self, index: NameIndex) -> Result<Value, RuntimeError> {
        match self.name_text(index) {
            Some(name) => match self.builtins.resolved(name) {
                Some(value) => Ok(value),
                None => match resolve(self.heap.frames@, self.frame, name) {
                    Ok(owner) => Ok(self.heap.frames@[owner@]@.scope[name]),
                    Err(e) => Err(e),
                },
            },
            None => Err(RuntimeError::StackCorruption),
        }
    }

    /// The active frame after `LoadVariable(index)`.
    pub open spec fn variable_loaded(self, index: NameIndex) -> Result<FrameView, RuntimeError> {
        match self.variable(index) {
            Ok(value) => self.pushed(value),
            Err(e) => Err(e),
        }
    }

    /// What `StoreVariable(index)` rebinds: the frame that owns the name,
    /// the name, and the value popped off the active frame.
    pub open spec fn stored_variable(self, index: NameIndex) -> Result<
        (PtrMut<Frame>, Seq<char>, Value),
        RuntimeError,
    > {
        match self.name_text(index) {
            Some(name) => match resolve(self.heap.frames@, self.frame, name) {
                Ok(owner) => match self.popped() {
                    Ok((value, _)) => Ok((owner, name, value)),
                    Err(e) => Err(e),
                },
                Err(e) => Err(e),
            },
            None => Err(RuntimeError::StackCorruption),
        }
    }

    /// `later` is this machine after `StoreVariable`: the value is popped
    /// off the active frame, and the owner of the name binds it anew. With
    /// `advance`, the program counter of the active frame has moved on.
    pub open spec fn variable_stored(
        self,
        later: Machine,
        owner: PtrMut<Frame>,
        name: Seq<char>,
        value: Value,
        advance: bool,
    ) -> bool {
        let frames = self.heap.frames@;
        let popped = if advance {
            frames[self.frame@]@.drop(1).advanced()
        } else {
            frames[self.frame@]@.drop(1)
        };
        &&& self.same_but_frames(later)
        &&& later.heap.frames@.len() == frames.len()
        &&& forall|i: int|
            0 <= i < frames.len() && i != owner@ && i != self.frame@
                ==> later.heap.frames@[i] == frames[i]
        &&& later.heap.frames@[owner@]@ == if owner@ == self.frame@ {
            popped.declare(name, value)
        } else {
            frames[owner@]@.declare(name, value)
        }
        &&& owner@ != self.frame@ ==> later.heap.frames@[self.frame@]@ == popped
    }

    /// The active frame after `Jump(target)`, before the program counter
    /// advances.
    pub open spec fn jumped(self, target: usize) -> Result<FrameView, RuntimeError> {
        match self.current() {
            Some(frame) => Ok(frame.at(target)),
            None => Err(RuntimeError::StackCorruption),
        }
    }

    /// The active frame after `JumpFalse(target)`, before the program
    /// counter advances: the condition is popped, and the jump is taken
    /// when it counts as false.
    pub open spec fn jumped_if_false(self, target: usize) -> Result<FrameView, RuntimeError> {
        match self.popped() {
            Ok((condition, rest)) => match condition.truth() {
                Some(true) => Ok(rest),
                Some(false) => Ok(rest.at(target)),
                None => Err(RuntimeError::TypeMismatch),
            },
            Err(e) => Err(e),
        }
    }

    /// The top `count` values of the active frame's stack, the top first,
    /// and the frame without them.
    pub open spec fn popped_many(self, count: usize) -> Result<
        (Seq<Value>, FrameView),
        RuntimeError,
    > {
        match self.current() {
            Some(frame) => if frame.stack.len() >= count {
                Ok((Seq::new(count as nat, |i: int| frame.peek(i)), frame.drop(count as int)))
            } else {
                Err(RuntimeError::StackCorruption)
            },
            None => Err(RuntimeError::StackCorruption),
        }
    }

    /// `later` has the registers of this machine and its frames but for
    /// the active frame, which has become `frame`.
    pub open spec fn turns(self, later: Machine, frame: FrameView) -> bool {
        &&& self.same_registers(later)
        &&& only_changed(self.heap.frames@, later.heap.frames@, self.frame@)
        &&& self.frame.live(later.heap.frames@)
        &&& later.heap.frames@[self.frame@]@ == frame
    }

    /// `later` is this machine after an instruction that left the active
    /// frame as `target` says, the program counter then moving on: a jump
    /// to the last address there is cannot move on.
    pub open spec fn moves(
        self,
        later: Machine,
        step: Result<Step, RuntimeError>,
        target: Result<FrameView, RuntimeError>,
    ) -> bool {
        match target {
            Ok(frame) => if frame.pc == usize::MAX {
                step == Err::<Step, RuntimeError>(RuntimeError::StackCorruption)
            } else {
                step == Ok::<Step, RuntimeError>(Step::Continue) && self.current_becomes(
                    later,
                    frame.advanced(),
                )
            },
            Err(e) => step == Err::<Step, RuntimeError>(e),
        }
    }

    /// `later` is this machine after `CreateList`: a list of `items` is new
    /// in the heap and pushed on the active frame, which reads `frame`
    /// below it.
    pub open spec fn list_created(self, later: Machine, items: Seq<Value>, frame: FrameView) -> bool {
        let count = self.heap.lists@.len();
        &&& self.turns(later, frame.push(Value::List(PtrMut::nth(count))))
        &&& later.heap.same_but_lists(&self.heap)
        &&& later.heap.lists@.len() == count + 1
        &&& prefix(self.heap.lists@, later.heap.lists@)
        &&& later.heap.lists@[count as int]@ == items
    }

    /// `later` is this machine after `CreateFunction`: a function of `code`
    /// that captures the active frame is new in the heap and pushed on the
    /// active frame, which reads `frame` below it.
    pub open spec fn function_created(
        self,
        later: Machine,
        code: Ptr<Code>,
        frame: FrameView,
    ) -> bool {
        let count = self.heap.functions@.len();
        &&& self.turns(later, frame.push(Value::Function(Ptr::nth(count))))
        &&& later.heap.same_but_functions(&self.heap)
        &&& later.heap.functions@.len() == count + 1
        &&& prefix(self.heap.functions@, later.heap.functions@)
        &&& later.heap.functions@[count as int].code() == code
        &&& later.heap.functions@[count as int].outer_frame() == self.frame
    }

    /// What a calling instruction is to call, the slot of `receiver`
    /// decided: nothing, where the chain of its type does not fill the
    /// slot.
    pub open spec fn slotted(
        self,
        rest: FrameView,
        receiver: Value,
        slot: Slot,
        args: Seq<Value>,
        discard: bool,
    ) -> Result<Plan, RuntimeError> {
        match slot_of(&self.heap, self.builtins, receiver, slot) {
            Ok(callee) => Ok(Plan { rest, callee, args, discard }),
            Err(e) => Err(e),
        }
    }

    /// What a calling instruction is to call, with the active frame
    /// reading `frame`. `Call` calls the value on top of the stack on the
    /// values below it. A binary operator pops the left operand and then
    /// the right one, and calls the operator slot of the right operand on
    /// the two, the left one first. Property and subscript access call the
    /// slot of the object on top of the stack, on the object, then the
    /// name or the subscript, then the value to store; a store drops what
    /// the call returns. Too few operands, or a name outside the pool,
    /// make the stack corrupt.
    pub open spec fn plan(self, frame: FrameView, instruction: Instruction) -> Result<
        Plan,
        RuntimeError,
    > {
        let depth = frame.stack.len();
        match instruction {
            Instruction::Call(argc) => if depth > argc {
                Ok(
                    Plan {
                        rest: frame.drop(argc + 1),
                        callee: frame.peek(0),
                        args: Seq::new(argc as nat, |i: int| frame.peek(i + 1)),
                        discard: false,
                    },
                )
            } else {
                Err(RuntimeError::StackCorruption)
            },
            Instruction::LoadProperty(index) => match frame.name(self.heap.codes@, index) {
                Some(name) if depth >= 1 => self.slotted(
                    frame.drop(1),
                    frame.peek(0),
                    Slot::GetProperty,
                    seq![frame.peek(0), Value::String(name)],
                    false,
                ),
                _ => Err(RuntimeError::StackCorruption),
            },
            Instruction::StoreProperty(index) => match frame.name(self.heap.codes@, index) {
                Some(name) if depth >= 2 => self.slotted(
                    frame.drop(2),
                    frame.peek(0),
                    Slot::SetProperty,
                    seq![frame.peek(0), Value::String(name), frame.peek(1)],
                    true,
                ),
                _ => Err(RuntimeError::StackCorruption),
            },
            Instruction::LoadSubscript => if depth >= 2 {
                self.slotted(
                    frame.drop(2),
                    frame.peek(0),
                    Slot::GetSubscript,
                    seq![frame.peek(0), frame.peek(1)],
                    false,
                )
            } else {
                Err(RuntimeError::StackCorruption)
            },
            Instruction::StoreSubscript => if depth >= 3 {
                self.slotted(
                    frame.drop(3),
                    frame.peek(0),
                    Slot::SetSubscript,
                    seq![frame.peek(0), frame.peek(1), frame.peek(2)],
                    true,
                )
            } else {
                Err(RuntimeError::StackCorruption)
            },
            _ => if depth >= 2 {
                self.slotted(
                    frame.drop(2),
                    frame.peek(1),
                    operator_slot(instruction),
                    seq![frame.peek(0), frame.peek(1)],
                    false,
                )
            } else {
                Err(RuntimeError::StackCorruption)
            },
        }
    }

    /// The call that `plan` asks for says nothing of the machine after it:
    /// it comes down to a built-in function that calls back into the
    /// interpreter, or it is run to its end and enters a user function.
    pub open spec fn open_ended(self, plan: Plan, depth: nat) -> bool {
        if plan.discard {
            depth > 0 && (self.reenters(plan.callee, plan.args, (depth - 1) as nat) || self.enters(
                plan.callee,
                plan.args,
                (depth - 1) as nat,
            ))
        } else {
            self.reenters(plan.callee, plan.args, depth)
        }
    }

    /// `later` is this machine after the call that `plan` asks for came
    /// out as `called`, the frame that made the call reading `cur`
    /// meanwhile. A call whose result is dropped is run one level deeper.
    pub open spec fn carried(
        self,
        plan: Plan,
        cur: FrameView,
        later: Machine,
        called: Result<Called, RuntimeError>,
        depth: nat,
    ) -> bool {
        if plan.discard {
            if depth == 0 {
                called == Err::<Called, RuntimeError>(RuntimeError::TooDeep)
            } else {
                self.invoked(cur, later, plan.callee, plan.args, called, (depth - 1) as nat)
            }
        } else {
            self.invoked(cur, later, plan.callee, plan.args, called, depth)
        }
    }

    /// `later` is this machine after the operands of the calling
    /// instruction `instruction` were popped and its call came out as
    /// `called`. Of a call that is run to its end and enters a user
    /// function this says nothing.
    pub open spec fn planned(
        self,
        later: Machine,
        instruction: Instruction,
        called: Result<Called, RuntimeError>,
        depth: nat,
    ) -> bool {
        match self.current() {
            Some(frame) => match self.plan(frame, instruction) {
                Ok(plan) => (plan.discard && depth > 0 && self.enters(
                    plan.callee,
                    plan.args,
                    (depth - 1) as nat,
                )) || self.carried(plan, plan.rest, later, called, depth),
                Err(e) => called == Err::<Called, RuntimeError>(e),
            },
            None => called == Err::<Called, RuntimeError>(RuntimeError::StackCorruption),
        }
    }

    /// `later` is this machine after the instruction that `plan` stands
    /// for came out as `step`. Where the call entered a frame, the program
    /// counter of the frame that made the call has moved on; where it gave
    /// a value, the counter has moved on and the value is pushed, unless
    /// it is dropped.
    pub open spec fn finished(
        self,
        plan: Plan,
        later: Machine,
        step: Result<Step, RuntimeError>,
        depth: nat,
    ) -> bool {
        &&& !(step matches Ok(Step::Return(_)))
        &&& self.open_ended(plan, depth) || exists|called: Result<Called, RuntimeError>|
            {
                &&& #[trigger] self.carried(plan, plan.after(called), later, called, depth)
                &&& step == step_after(called)
            }
    }

    /// `later` is this machine after executing `instruction`, fetched from
    /// the active frame `frame`, came out as `step`.
    pub open spec fn performs(
        self,
        frame: FrameView,
        instruction: Instruction,
        later: Machine,
        step: Result<Step, RuntimeError>,
        depth: nat,
    ) -> bool {
        match instruction {
            Instruction::Pop => self.moves(
                later,
                step,
                match self.popped() {
                    Ok((_, rest)) => Ok(rest),
                    Err(e) => Err(e),
                },
            ),
            Instruction::LoadConstant(index) => self.moves(later, step, self.constant_loaded(index)),
            Instruction::LoadVariable(index) => self.moves(later, step, self.variable_loaded(index)),
            Instruction::Declare(index) => self.moves(later, step, self.declared(index)),
            Instruction::Jump(target) => self.moves(later, step, self.jumped(target)),
            Instruction::JumpFalse(target) => self.moves(
                later,
                step,
                self.jumped_if_false(target),
            ),
            Instruction::StoreVariable(index) => match self.stored_variable(index) {
                Ok((owner, name, value)) => step == Ok::<Step, RuntimeError>(Step::Continue)
                    && self.variable_stored(later, owner, name, value, true),
                Err(e) => step == Err::<Step, RuntimeError>(e),
            },
            Instruction::CreateList(count) => match self.popped_many(count) {
                Ok((items, rest)) => step == Ok::<Step, RuntimeError>(Step::Continue)
                    && self.list_created(later, items, rest.advanced()),
                Err(e) => step == Err::<Step, RuntimeError>(e),
            },
            Instruction::CreateFunction => match self.popped() {
                Ok((Value::Code(code), rest)) => step == Ok::<Step, RuntimeError>(Step::Continue)
                    && self.function_created(later, code, rest.advanced()),
                Ok(_) => step == Err::<Step, RuntimeError>(RuntimeError::StackCorruption),
                Err(e) => step == Err::<Step, RuntimeError>(e),
            },
            Instruction::Return => match self.popped() {
                Ok((value, rest)) => step == Ok::<Step, RuntimeError>(Step::Return(value))
                    && self.current_becomes(later, rest.advanced()),
                Err(e) => step == Err::<Step, RuntimeError>(e),
            },
            Instruction::Exit(code) => step == Ok::<Step, RuntimeError>(Step::Exit(code))
                && later == self,
            _ => match self.plan(frame, instruction) {
                Ok(plan) => self.finished(plan, later, step, depth),
                Err(e) => step == Err::<Step, RuntimeError>(e),
            },
        }
    }

    /// `later` is this machine after executing the instruction at the
    /// program counter of the active frame came out as `step`. The program
    /// counter of that frame has moved past the instruction, or past the
    /// target of a jump taken.
    pub open spec fn executes(
        self,
        later: Machine,
        step: Result<Step, RuntimeError>,
        depth: nat,
    ) -> bool {
        match self.current() {
            Some(frame) => match frame.instruction(self.heap.codes@) {
                Some(instruction) => self.performs(frame, instruction, later, step, depth),
                None => step == Err::<Step, RuntimeError>(RuntimeError::StackCorruption),
            },
            None => step == Err::<Step, RuntimeError>(RuntimeError::StackCorruption),
        }
    }

    /// `later` is this machine after a frame that reads `frame` returned
    /// the top of its stack. With a caller, the caller is active, its
    /// operand stack has grown by the returned value and by nothing else,
    /// and the program counter of the frame that returned has moved on;
    /// the frame that it resolves names through plays no part. Without a
    /// caller, the script ends with status 0.
    pub open spec fn returned(
        self,
        frame: FrameView,
        later: Machine,
        status: Result<Status, RuntimeError>,
    ) -> bool {
        let frames = self.heap.frames@;
        match self.popped() {
            Err(e) => status == Err::<Status, RuntimeError>(e),
            Ok((value, rest)) => match frame.calling_frame {
                None => status == Ok::<Status, RuntimeError>(Status::Exited(0))
                    && self.current_becomes(later, rest.advanced()),
                Some(caller) => if !caller.live(frames) {
                    status == Err::<Status, RuntimeError>(RuntimeError::StackCorruption)
                } else {
                    &&& status == Ok::<Status, RuntimeError>(Status::Running)
                    &&& later.frame == caller
                    &&& later.builtins == self.builtins
                    &&& later.output == self.output
                    &&& later.fuel == self.fuel
                    &&& later.max_depth == self.max_depth
                    &&& later.heap.same_but_frames(&self.heap)
                    &&& later.heap.frames@.len() == frames.len()
                    &&& forall|i: int|
                        0 <= i < frames.len() && i != caller@ && i != self.frame@
                            ==> later.heap.frames@[i] == frames[i]
                    &&& later.heap.frames@[caller@]@ == if caller@ == self.frame@ {
                        rest.advanced().push(value)
                    } else {
                        frames[caller@]@.push(value)
                    }
                    &&& caller@ != self.frame@ ==> later.heap.frames@[self.frame@]@
                        == rest.advanced()
                },
            },
        }
    }

    /// `later` is this machine after one step came out as `status`, with
    /// `depth` nested calls allowed to built-in functions. A step costs
    /// one unit of fuel and executes one instruction; a `Return` hands the
    /// value to the caller.
    pub open spec fn steps_at(
        self,
        later: Machine,
        status: Result<Status, RuntimeError>,
        depth: nat,
    ) -> bool {
        if self.fuel == 0 {
            status == Err::<Status, RuntimeError>(RuntimeError::OutOfFuel)
        } else {
            let fueled = Machine { fuel: (self.fuel - 1) as u64, ..self };
            match fueled.current() {
                Some(frame) => match frame.instruction(self.heap.codes@) {
                    Some(Instruction::Return) => fueled.returned(frame, later, status),
                    Some(_) => fueled.executes(
                        later,
                        match status {
                            Ok(Status::Running) => Ok(Step::Continue),
                            Ok(Status::Exited(code)) => Ok(Step::Exit(code)),
                            Err(e) => Err(e),
                        },
                        depth,
                    ),
                    None => status == Err::<Status, RuntimeError>(RuntimeError::StackCorruption),
                },
                None => status == Err::<Status, RuntimeError>(RuntimeError::StackCorruption),
            }
        }
    }

    /// `later` is this machine after one step came out as `status`.
    pub open spec fn steps(self, later: Machine, status: Result<Status, RuntimeError>) -> bool {
        self.steps_at(later, status, self.max_depth as nat)
    }

    /// What the active frame hands back, where it is about to return to a
    /// caller: the value on top of its stack, what the frame reads without
    /// the value, and the caller.
    pub open spec fn returning(self) -> Option<(Value, FrameView, PtrMut<Frame>)> {
        match self.current() {
            Some(frame) => match (frame.instruction(self.heap.codes@), frame.calling_frame) {
                (Some(Instruction::Return), Some(caller)) => if frame.stack.len() > 0 {
                    Some((frame.peek(0), frame.drop(1), caller))
                } else {
                    None
                },
                _ => None,
            },
            None => None,
        }
    }

    /// `later` is this machine after one step of a call that is run to its
    /// end, `callee` being the frame that the call entered. Where that
    /// frame returns, the call is done: its caller is active again and
    /// the value goes to whoever ran the call, not on the caller's stack.
    /// Every other step is a step as any; an exit ends the call as well.
    pub open spec fn finishes(
        self,
        callee: PtrMut<Frame>,
        later: Machine,
        done: Result<Option<Outcome>, RuntimeError>,
        depth: nat,
    ) -> bool {
        match self.returning() {
            Some((value, rest, caller)) if self.fuel > 0 && self.frame@ == callee@ => {
                &&& done == Ok::<Option<Outcome>, RuntimeError>(Some(Outcome::Value(value)))
                &&& later.frame == caller
                &&& later.builtins == self.builtins
                &&& later.output == self.output
                &&& later.fuel == self.fuel - 1
                &&& later.max_depth == self.max_depth
                &&& later.heap.same_but_frames(&self.heap)
                &&& only_changed(self.heap.frames@, later.heap.frames@, self.frame@)
                &&& later.heap.frames@[self.frame@]@ == rest.advanced()
            },
            _ => match done {
                Ok(Some(Outcome::Value(_))) => false,
                Ok(Some(Outcome::Exit(code))) => self.steps_at(
                    later,
                    Ok(Status::Exited(code)),
                    depth,
                ),
                Ok(None) => self.steps_at(later, Ok(Status::Running), depth),
                Err(e) => self.steps_at(later, Err(e), depth),
            },
        }
    }

    /// `later` is this machine after a call of `value` on `args` that
    /// entered a user function and was run to its end, where it came out
    /// as `outcome`: the machine went through the states of `trace`, the
    /// first of them right after the frame was entered, one step from each
    /// to the next.
    pub open spec fn completes(
        self,
        cur: FrameView,
        trace: Seq<Machine>,
        later: Machine,
        value: Value,
        args: Seq<Value>,
        outcome: Result<Outcome, RuntimeError>,
        depth: nat,
    ) -> bool {
        &&& trace.len() > 0
        &&& self.invoked(cur, trace[0], value, args, Ok(Called::Entered), depth)
        &&& forall|i: int|
            0 <= i < trace.len() - 1 ==> (#[trigger] trace[i]).finishes(
                trace[0].frame,
                trace[i + 1],
                Ok(None),
                depth,
            )
        &&& trace.last().finishes(
            trace[0].frame,
            later,
            match outcome {
                Ok(outcome) => Ok(Some(outcome)),
                Err(e) => Err(e),
            },
            depth,
        )
    }

    /// `later` is this machine after a run that went through the states of
    /// `trace`, one step from each to the next, and ended with `status`
    /// on the step after the last of them.
    pub open spec fn runs(
        self,
        trace: Seq<Machine>,
        later: Machine,
        status: Result<usize, RuntimeError>,
    ) -> bool {
        &&& trace.len() > 0
        &&& trace[0] == self
        &&& forall|i: int|
            0 <= i < trace.len() - 1 ==> (#[trigger] trace[i]).steps(
                trace[i + 1],
                Ok(Status::Running),
            )
        &&& trace.last().steps(
            later,
            match status {
                Ok(code) => Ok(Status::Exited(code)),
                Err(e) => Err(e),
            },
        )
    }

    /// What the active frame reads; arbitrary where the heap does not hold
    /// it.
    pub open spec fn current_view(self) -> FrameView {
        self.heap.frames@[self.frame@]@
    }

    /// `later` has the registers of this machine and its frames, but that
    /// the active frame reads `cur`.
    pub open spec fn retains(self, cur: FrameView, later: Machine) -> bool {
        &&& self.same_registers(later)
        &&& self.kept_frames(cur, later)
        &&& later.heap.frames@.len() == self.heap.frames@.len()
        &&& later.heap.codes == self.heap.codes
    }

    /// The frames of this machine are in `later` as they were, but that
    /// the active frame reads `cur`.
    pub open spec fn kept_frames(self, cur: FrameView, later: Machine) -> bool {
        &&& self.heap.frames@.len() <= later.heap.frames@.len()
        &&& forall|i: int|
            0 <= i < self.heap.frames@.len() && i != self.frame@ ==> later.heap.frames@[i]
                == self.heap.frames@[i]
        &&& self.frame.live(self.heap.frames@) ==> later.heap.frames@[self.frame@]@ == cur
    }

    /// The frame in which a call of the user function `func` on `args`
    /// starts: it runs the function's code from the first instruction,
    /// returns to the active frame, resolves names through the frame that
    /// the function captured, and binds the parameters to the arguments by
    /// position. A call with more or fewer arguments than the function has
    /// parameters is an error.
    pub open spec fn entry(self, func: Ptr<Function>, args: Seq<Value>) -> Result<
        FrameView,
        RuntimeError,
    > {
        if !func.live(self.heap.functions@) {
            Err(RuntimeError::StackCorruption)
        } else {
            let function = self.heap.functions@[func@];
            let fresh = FrameView::fresh(
                function.code(),
                Some(self.frame),
                Some(function.outer_frame()),
            );
            match fresh.parameters(self.heap.codes@) {
                None => Err(RuntimeError::StackCorruption),
                Some(params) => if params.len() != args.len() {
                    Err(RuntimeError::ArityMismatch)
                } else {
                    match bound(self.heap.strings@, params, args, params.len() as int) {
                        Some(scope) => Ok(FrameView { scope, ..fresh }),
                        None => Err(RuntimeError::StackCorruption),
                    }
                },
            }
        }
    }

    /// `later` is this machine after a call entered the frame `callee`:
    /// the frame is new in the heap and active, and nothing else differs,
    /// but that the frame that made the call reads `cur`.
    pub open spec fn entered(self, cur: FrameView, later: Machine, callee: FrameView) -> bool {
        let count = self.heap.frames@.len();
        &&& later.frame == PtrMut::<Frame>::nth(count)
        &&& later.builtins == self.builtins
        &&& later.output == self.output
        &&& later.fuel == self.fuel
        &&& later.max_depth == self.max_depth
        &&& later.heap.same_but_frames(&self.heap)
        &&& later.heap.frames@.len() == count + 1
        &&& self.kept_frames(cur, later)
        &&& later.heap.frames@[count as int]@ == callee
    }

    /// The parts of the heap that displaying a value reads.
    pub open spec fn shelf(self) -> Shelf {
        Shelf {
            types: self.heap.types@,
            objects: self.heap.objects@,
            values: self.heap.values@,
            strings: self.heap.strings@,
            lists: self.heap.lists@,
            builtins: self.builtins,
        }
    }

    /// `later` is this machine after built-in functions displayed values
    /// and wrote `line`: the output has grown by the line, text may have
    /// been added to the heap, and nothing else differs, but that the
    /// active frame reads `cur`.
    pub open spec fn wrote(self, cur: FrameView, later: Machine, line: Seq<char>) -> bool {
        &&& later.frame == self.frame
        &&& later.builtins == self.builtins
        &&& later.fuel == self.fuel
        &&& later.max_depth == self.max_depth
        &&& later.output == self.output + line
        &&& self.kept_frames(cur, later)
        &&& later.heap.frames@.len() == self.heap.frames@.len()
        &&& later.heap.same_but_strings(&self.heap)
        &&& prefix(self.heap.strings@, later.heap.strings@)
    }

    /// `later` is this machine after built-in functions displayed values
    /// and wrote something: the output has grown at its end, text may have
    /// been added to the heap, and nothing else differs, but that the
    /// active frame reads `cur`.
    pub open spec fn wrote_on(self, cur: FrameView, later: Machine) -> bool {
        &&& self.output.len() <= later.output.len()
        &&& self.wrote(
            cur,
            later,
            later.output.subrange(self.output.len() as int, later.output.len() as int),
        )
    }

    /// `later` is this machine after the built-in function `native` ran on
    /// `args` and came out as `outcome`, the active frame reading `cur`
    /// meanwhile. `print` writes a line and gives null; the line is its
    /// arguments as they are displayed, where that is for built-in
    /// functions other than the floating-point unit to say. The display of
    /// a list gives a string, with the text of the list on the same
    /// condition. Of the two this says no more where the display of some
    /// value is not settled by built-in functions within `depth` nested
    /// calls.
    pub open spec fn ran(
        self,
        cur: FrameView,
        later: Machine,
        native: NativeFunction,
        args: Seq<Value>,
        outcome: Result<Outcome, RuntimeError>,
        depth: nat,
    ) -> bool {
        match native {
            NativeFunction::Print => {
                &&& self.shelf().all_showable(args, depth) ==> outcome == Ok::<
                    Outcome,
                    RuntimeError,
                >(Outcome::Value(Value::Null)) && self.wrote_on(cur, later)
                &&& self.shelf().printed(args, depth) matches Some(line) ==> later.output
                    == self.output + line
            },
            NativeFunction::ListDisplay => match argument(args, 0) {
                Ok(list) => {
                    &&& self.shelf().listable(list, depth) ==> {
                        &&& outcome matches Ok(Outcome::Value(Value::String(shown)))
                        &&& shown.live(later.heap.strings@)
                        &&& self.wrote(cur, later, Seq::empty())
                    }
                    &&& self.shelf().listed(list, depth) matches Some(text) ==> {
                        &&& outcome matches Ok(Outcome::Value(Value::String(shown)))
                        &&& later.heap.text(shown) == Some(text)
                    }
                    &&& outcome matches Ok(Outcome::Value(shown)) ==> shown is String
                },
                Err(e) => outcome == Err::<Outcome, RuntimeError>(e),
            },
            _ => {
                &&& !(outcome matches Ok(Outcome::Exit(_)))
                &&& outcome is Ok ==> self.retains(cur, later)
                &&& effect(&self.heap, &later.heap, self.builtins, native, args, result_of(outcome))
            },
        }
    }

    /// Whether what the built-in function `native` does on `args` is left
    /// open: it is where the function calls back into the interpreter to
    /// display a value whose display is not settled by built-in functions
    /// within `depth` nested calls.
    pub open spec fn unsettled(self, native: NativeFunction, args: Seq<Value>, depth: nat) -> bool {
        match native {
            NativeFunction::Print => !self.shelf().all_showable(args, depth),
            NativeFunction::ListDisplay => args.len() > 0 && !self.shelf().listable(
                args[0],
                depth,
            ),
            _ => false,
        }
    }

    /// `later` is this machine after applying `target`, a user function or
    /// a built-in function, to `args` came out as `called`, the active
    /// frame reading `cur` meanwhile. A user function is entered; a
    /// built-in function runs to its end, where it accepts the number of
    /// arguments.
    pub open spec fn applied(
        self,
        cur: FrameView,
        later: Machine,
        target: Value,
        args: Seq<Value>,
        called: Result<Called, RuntimeError>,
        depth: nat,
    ) -> bool {
        match target {
            Value::Function(func) => match self.entry(func, args) {
                Ok(callee) => called == Ok::<Called, RuntimeError>(Called::Entered)
                    && self.entered(cur, later, callee),
                Err(e) => called == Err::<Called, RuntimeError>(e),
            },
            Value::Native(native, pattern) => if pattern.accepts(args.len()) {
                !(called matches Ok(Called::Entered)) && self.ran(
                    cur,
                    later,
                    native,
                    args,
                    outcome_of(called),
                    depth,
                )
            } else {
                called == Err::<Called, RuntimeError>(RuntimeError::ArityMismatch)
            },
            _ => false,
        }
    }

    /// What invoking `value` on `args` comes down to; see [`callable`].
    pub open spec fn target(self, value: Value, args: Seq<Value>, depth: nat) -> Result<
        (Value, Seq<Value>),
        RuntimeError,
    > {
        callable(
            self.heap.types@,
            self.heap.objects@,
            self.heap.values@,
            self.builtins,
            value,
            args,
            depth,
        )
    }

    /// `later` is this machine after invoking `value` on `args` came out as
    /// `called`, the active frame reading `cur` meanwhile.
    pub open spec fn invoked(
        self,
        cur: FrameView,
        later: Machine,
        value: Value,
        args: Seq<Value>,
        called: Result<Called, RuntimeError>,
        depth: nat,
    ) -> bool {
        match self.target(value, args, depth) {
            Err(e) => called == Err::<Called, RuntimeError>(e),
            Ok((target, all)) => self.applied(cur, later, target, all, called, depth),
        }
    }

    /// Invoking `value` on `args` comes down to a built-in function whose
    /// working is left open; see [`Machine::unsettled`].
    pub open spec fn reenters(self, value: Value, args: Seq<Value>, depth: nat) -> bool {
        self.target(value, args, depth) matches Ok((Value::Native(native, pattern), all))
            && pattern.accepts(all.len()) && self.unsettled(native, all, depth)
    }

    /// Invoking `value` on `args` comes down to a user function.
    pub open spec fn enters(self, value: Value, args: Seq<Value>, depth: nat) -> bool {
        self.target(value, args, depth) matches Ok((Value::Function(_), _))
    }

    /// `later` has the active frame, the built-ins, the output and the
    /// budgets of this machine.
    pub open spec fn same_registers(self, later: Machine) -> bool {
        &&& later.frame == self.frame
        &&& later.builtins == self.builtins
        &&& later.output == self.output
        &&& later.fuel == self.fuel
        &&& later.max_depth == self.max_depth
    }

    /// `later` is this machine but for the frames.
    pub open spec fn same_but_frames(self, later: Machine) -> bool {
        &&& self.same_registers(later)
        &&& later.heap.same_but_frames(&self.heap)
    }

    /// `later` is this machine but for the active frame, which has become
    /// `frame`.
    pub open spec fn current_becomes(self, later: Machine, frame: FrameView) -> bool {
        &&& self.same_but_frames(later)
        &&& only_changed(self.heap.frames@, later.heap.frames@, self.frame@)
        &&& self.frame.live(later.heap.frames@)
        &&& later.heap.frames@[self.frame@]@ == frame
    }
}

/// Where the text of some parameter is missing, nothing binds however many
/// more parameters there are.
pub(crate) proof fn lemma_bound_none(
    strings: Seq<String>,
    params: Seq<Ptr<String>>,
    args: Seq<Value>,
    count: int,
    more: int,
)
    requires
        count <= more,
        bound(strings, params, args, count).is_none(),
    ensures
        bound(strings, params, args, more).is_none(),
    decreases more - count,
{
    if count < more {
        lemma_bound_none(strings, params, args, count, more - 1);
    }
}

/// What a call comes down to is a user function or a built-in function.
pub(crate) proof fn lemma_callable(
    types: Seq<Type>,
    objects: Seq<Object>,
    values: Seq<Value>,
    builtins: Builtins,
    value: Value,
    args: Seq<Value>,
    depth: nat,
)
    ensures
        callable(types, objects, values, builtins, value, args, depth) matches Ok((target, _))
            ==> target is Function || target is Native,
    decreases depth,
{
    match value {
        Value::Function(_) | Value::Native(_, _) => {},
        Value::Bound(wrapped, receiver) => {
            if depth > 0 && wrapped.live(values) && receiver.live(values) {
                lemma_callable(
                    types,
                    objects,
                    values,
                    builtins,
                    values[wrapped@],
                    seq![values[receiver@]] + args,
                    (depth - 1) as nat,
                );
            }
        },
        _ => {
            if depth > 0 {
                if let Some(ty) = type_of(value, builtins, objects, values) {
                    if let Ok(call) = find_slot(types, ty, Slot::Call) {
                        lemma_callable(
                            types,
                            objects,
                            values,
                            builtins,
                            call,
                            seq![value] + args,
                            (depth - 1) as nat,
                        );
                    }
                }
            }
        },
    }
}

/// The frame that owns a name is in the heap and binds the name.
pub proof fn lemma_resolve_owner(frames: Seq<Frame>, start: PtrMut<Frame>, name: Seq<char>)
    ensures
        resolve(frames, start, name) matches Ok(owner) ==> owner.live(frames)
            && frames[owner@]@.scope.contains_key(name) && owner@ <= start@,
    decreases start@,
{
    if start.live(frames) && !frames[start@]@.scope.contains_key(name) {
        if let Some(outer) = frames[start@]@.outer_frame {
            if 0 <= outer@ < start@ {
                lemma_resolve_owner(frames, outer, name);
            }
        }
    }
}

/// Name resolution reads the bindings and the enclosing-frame links and
/// nothing else: two stores of frames that agree on these resolve every
/// name alike, whatever frames called them.
pub proof fn lemma_resolve_ignores_callers(
    frames: Seq<Frame>,
    others: Seq<Frame>,
    start: PtrMut<Frame>,
    name: Seq<char>,
)
    requires
        frames.len() == others.len(),
        forall|i: int|
            0 <= i < frames.len() ==> (#[trigger] frames[i]@).scope == others[i]@.scope
                && frames[i]@.outer_frame == others[i]@.outer_frame,
    ensures
        resolve(frames, start, name) == resolve(others, start, name),
    decreases start@,
{
    if start.live(frames) && !frames[start@]@.scope.contains_key(name) {
        if let Some(outer) = frames[start@]@.outer_frame {
            if 0 <= outer@ < start@ {
                lemma_resolve_ignores_callers(frames, others, outer, name);
            }
        }
    }
}

/// A return hands the value to the frame that called, whatever frame the
/// returning frame resolves names through.
pub proof fn lemma_return_ignores_enclosing(
    from: Machine,
    frame: FrameView,
    other: Option<PtrMut<Frame>>,
    later: Machine,
    status: Result<Status, RuntimeError>,
)
    ensures
        from.returned(frame, later, status) == from.returned(
            FrameView { outer_frame: other, ..frame },
            later,
            status,
        ),
{
}

/// What invoking a value does is the same from two machines that differ
/// only in what their active frame reads.
pub(crate) proof fn lemma_invoked_from(
    from: Machine,
    other: Machine,
    cur: FrameView,
    later: Machine,
    value: Value,
    args: Seq<Value>,
    called: Result<Called, RuntimeError>,
    depth: nat,
)
    requires
        from.invoked(cur, later, value, args, called, depth),
        other.same_but_frames(from),
        only_changed(other.heap.frames@, from.heap.frames@, from.frame@),
    ensures
        other.invoked(cur, later, value, args, called, depth),
{
}

/// Where invoking a value left the frame that made the call reading
/// `cur`, it has left it reading `next` once only that frame is changed to
/// read so.
pub(crate) proof fn lemma_invoked_turned(
    from: Machine,
    cur: FrameView,
    mid: Machine,
    next: FrameView,
    later: Machine,
    value: Value,
    args: Seq<Value>,
    called: Result<Called, RuntimeError>,
    depth: nat,
)
    requires
        from.invoked(cur, mid, value, args, called, depth),
        from.frame.live(from.heap.frames@),
        mid.same_registers(later),
        later.heap.same_but_frames(&mid.heap),
        only_changed(mid.heap.frames@, later.heap.frames@, from.frame@),
        later.heap.frames@[from.frame@]@ == next,
    ensures
        from.invoked(next, later, value, args, called, depth),
{
}

/// Where the display of `value` is settled by built-in functions, calling
/// what its display slot holds gives a string, and changes nothing but that
/// it may add text to the heap; where the value has a text to show, that is
/// the text of the string.
pub(crate) proof fn lemma_display_settled(
    from: Machine,
    later: Machine,
    value: Value,
    outcome: Result<Outcome, RuntimeError>,
    depth: nat,
)
    requires
        from.shelf().showable(value, depth),
        slot_of(&from.heap, from.builtins, value, Slot::Display) matches Ok(display)
            && from.invoked(
            from.current_view(),
            later,
            display,
            seq![value],
            done_of(outcome),
            (depth - 1) as nat,
        ),
    ensures
        outcome matches Ok(Outcome::Value(Value::String(shown))) && shown.live(
            later.heap.strings@,
        ) && (from.shelf().shown(value, depth).is_some() ==> later.heap.text(shown)
            == from.shelf().shown(value, depth)),
        from.wrote(from.current_view(), later, Seq::empty()),
{
    let display = slot_of(&from.heap, from.builtins, value, Slot::Display).unwrap();
    let args = seq![value];
    let inner = (depth - 1) as nat;
    let native = display->Native_0;
    assert(from.target(display, args, inner) == Ok::<(Value, Seq<Value>), RuntimeError>(
        (display, args),
    ));
    assert(from.applied(from.current_view(), later, display, args, done_of(outcome), inner));
    assert(outcome_of(done_of(outcome)) == outcome);
    assert(from.ran(from.current_view(), later, native, args, outcome, inner));
    assert(from.output + Seq::<char>::empty() =~= from.output);
    assert(argument(args, 0) == Ok::<Value, RuntimeError>(value));
    assert(from.heap.strings@.len() == from.heap.strings.len());
    Ptr::<String>::nth(0).lemma_nth(from.heap.strings@.len());
    let shown = from.shelf().shown(value, depth);
    assert(from.shelf().displayable(native, value, inner));
    assert(shown == from.shelf().displayed(native, value, inner));
    match native {
        NativeFunction::ListDisplay => {
            assert(from.shelf().listed(value, inner) == shown);
        },
        NativeFunction::StringDisplay => {
            assert(effect(&from.heap, &later.heap, from.builtins, native, args, result_of(outcome)));
        },
        NativeFunction::IntegerDisplay => {
            assert(effect(&from.heap, &later.heap, from.builtins, native, args, result_of(outcome)));
            assert(integer_shown(args) == Ok::<Seq<char>, RuntimeError>(shown.unwrap()));
        },
        NativeFunction::BoolDisplay => {
            assert(effect(&from.heap, &later.heap, from.builtins, native, args, result_of(outcome)));
            assert(bool_shown(args) == Ok::<Seq<char>, RuntimeError>(shown.unwrap()));
        },
        _ => {
            assert(effect(&from.heap, &later.heap, from.builtins, native, args, result_of(outcome)));
        },
    }
}

/// The display of a value of a built-in type is a string: the display slot
/// of its type holds the display function of its kind, which takes one
/// argument, and what that function gives for the value, where it gives
/// anything, is a string.
pub proof fn lemma_display_is_string(
    from: Machine,
    cur: FrameView,
    later: Machine,
    value: Value,
    outcome: Result<Outcome, RuntimeError>,
    depth: nat,
)
    requires
        from.builtins.types.installed(&from.heap),
        display_of(value) matches Some(display) && from.ran(
            cur,
            later,
            display,
            seq![value],
            outcome,
            depth,
        ),
    ensures
        display_of(value) matches Some(display) && slot_of(
            &from.heap,
            from.builtins,
            value,
            Slot::Display,
        ) == Ok::<Value, RuntimeError>(Value::Native(display, ArgPattern::Exact(1))),
        outcome matches Ok(Outcome::Value(shown)) ==> shown is String,
{
    let display = display_of(value).unwrap();
    let args = seq![value];
    assert(argument(args, 0) == Ok::<Value, RuntimeError>(value));
    if display != NativeFunction::ListDisplay {
        assert(effect(&from.heap, &later.heap, from.builtins, display, args, result_of(outcome)));
    }
}

} // verus!
