//! The stack discipline of the running machine: as long as it runs
//! balanced code, the operand stack of every frame is as high as the code
//! says at the frame's program counter.

use crate::balance::{balanced, effect, height, in_order};
use crate::error::RuntimeError;
use crate::frame::{Frame, FrameView};
use crate::instruction::Instruction;
use crate::interpreter::{Called, Outcome, Status, Step};
use crate::machine::{Machine, Plan};
use crate::ptr::PtrMut;
use vstd::prelude::*;

verus! {

/// The frame at `frame` is a caller of the frame at `of`, straight or
/// through the frames between them: the frame at `of` returns to it sooner
/// or later. A frame returns to an older frame only.
pub open spec fn awaits(frames: Seq<Frame>, frame: int, of: int) -> bool
    decreases of,
{
    if 0 <= of < frames.len() {
        match frames[of]@.calling_frame {
            Some(caller) => 0 <= caller@ < of && (caller@ == frame || awaits(
                frames,
                frame,
                caller@,
            )),
            None => false,
        }
    } else {
        false
    }
}

/// The frame at `at` is in order: it runs code that the heap holds, it
/// returns to an older frame, and its operand stack is as high as the code
/// says at its program counter, less the value that a call is to hand it
/// where it is waiting for one.
pub open spec fn frame_in_order(machine: Machine, at: int) -> bool {
    let frame = machine.heap.frames@[at]@;
    &&& frame.code.live(machine.heap.codes@)
    &&& frame.calling_frame matches Some(caller) ==> 0 <= caller@ < at
    &&& frame.stack.len() == height(
        machine.heap.codes@[frame.code@]@.instructions,
        frame.pc as int,
    ) - if awaits(machine.heap.frames@, at, machine.frame@) {
        1int
    } else {
        0int
    }
}

/// The machine is in order: every code object in its heap is balanced,
/// the active frame is in the heap, and every frame is in order.
pub open spec fn orderly(machine: Machine) -> bool {
    &&& machine.frame.live(machine.heap.frames@)
    &&& forall|c: int|
        0 <= c < machine.heap.codes@.len() ==> balanced(
            (#[trigger] machine.heap.codes@[c])@.instructions,
        )
    &&& forall|at: int| 0 <= at < machine.heap.frames@.len() ==> frame_in_order(machine, at)
}

/// A frame that awaits the return of another is older than that frame.
proof fn lemma_awaits_older(frames: Seq<Frame>, frame: int, of: int)
    requires
        awaits(frames, frame, of),
    ensures
        frame < of,
    decreases of,
{
    let caller = frames[of]@.calling_frame->Some_0;
    if caller@ != frame {
        lemma_awaits_older(frames, frame, caller@);
    }
}

/// Which frames await which depends on the links to the callers alone,
/// and on those of the frames up to the one that is awaited.
proof fn lemma_awaits_agrees(a: Seq<Frame>, b: Seq<Frame>, frame: int, of: int)
    requires
        of < a.len(),
        of < b.len(),
        forall|i: int| 0 <= i <= of ==> (#[trigger] a[i])@.calling_frame == b[i]@.calling_frame,
    ensures
        awaits(a, frame, of) == awaits(b, frame, of),
    decreases of,
{
    if 0 <= of {
        if let Some(caller) = a[of]@.calling_frame {
            if 0 <= caller@ < of && caller@ != frame {
                lemma_awaits_agrees(a, b, frame, caller@);
            }
        }
    }
}

/// Where the machine is in order, the frame that executes a return has
/// exactly one value on its operand stack.
pub proof fn lemma_return_finds_one_value(machine: Machine, frame: FrameView)
    requires
        orderly(machine),
        machine.current() == Some(frame),
        frame.instruction(machine.heap.codes@) == Some(Instruction::Return),
    ensures
        frame.stack.len() == 1,
{
    let at = machine.frame@;
    let code = machine.heap.codes@[frame.code@]@.instructions;
    assert(frame_in_order(machine, at));
    if awaits(machine.heap.frames@, at, at) {
        lemma_awaits_older(machine.heap.frames@, at, at);
    }
    assert(in_order(code, frame.pc as int));
}

/// By how much the operand stack of a frame is higher than the code says
/// at its program counter.
pub open spec fn surplus(machine: Machine, frame: FrameView) -> int {
    frame.stack.len() - height(
        machine.heap.codes@[frame.code@]@.instructions,
        frame.pc as int,
    )
}

/// The two frames run the same code for the same caller, and their
/// operand stacks differ from what the code says by as much.
pub open spec fn alike(machine: Machine, before: FrameView, after: FrameView) -> bool {
    &&& after.code == before.code
    &&& after.calling_frame == before.calling_frame
    &&& surplus(machine, after) == surplus(machine, before)
}

/// A machine stays in order through a change that keeps the active frame
/// active, leaves the code objects alone and keeps every frame alike.
proof fn lemma_alike_keeps_order(before: Machine, after: Machine)
    requires
        orderly(before),
        after.frame == before.frame,
        after.heap.codes == before.heap.codes,
        after.heap.frames@.len() == before.heap.frames@.len(),
        forall|at: int|
            0 <= at < before.heap.frames@.len() ==> alike(
                before,
                (#[trigger] before.heap.frames@[at])@,
                after.heap.frames@[at]@,
            ),
    ensures
        orderly(after),
{
    assert forall|at: int| 0 <= at < after.heap.frames@.len() implies frame_in_order(
        after,
        at,
    ) by {
        assert(frame_in_order(before, at));
        assert(alike(before, before.heap.frames@[at]@, after.heap.frames@[at]@));
        assert forall|i: int| 0 <= i <= before.frame@ implies (
        #[trigger] before.heap.frames@[i])@.calling_frame
            == after.heap.frames@[i]@.calling_frame by {
            assert(alike(before, before.heap.frames@[i]@, after.heap.frames@[i]@));
        }
        lemma_awaits_agrees(before.heap.frames@, after.heap.frames@, at, before.frame@);
    }
}

/// A machine stays in order as a call enters a frame: the new frame
/// starts at the first instruction with an empty operand stack and
/// returns to the frame that made the call, which waits for the value of
/// the call with its stack one lower than the code says.
proof fn lemma_entering_keeps_order(before: Machine, after: Machine)
    requires
        orderly(before),
        after.heap.codes == before.heap.codes,
        after.heap.frames@.len() == before.heap.frames@.len() + 1,
        after.frame@ == before.heap.frames@.len(),
        forall|at: int|
            0 <= at < before.heap.frames@.len() && at != before.frame@ ==> (
            #[trigger] after.heap.frames@[at]) == before.heap.frames@[at],
        ({
            let caller = before.heap.frames@[before.frame@]@;
            let waiting = after.heap.frames@[before.frame@]@;
            &&& waiting.code == caller.code
            &&& waiting.calling_frame == caller.calling_frame
            &&& surplus(before, waiting) == surplus(before, caller) - 1
        }),
        ({
            let entered = after.heap.frames@[after.frame@]@;
            &&& entered.code.live(before.heap.codes@)
            &&& entered.calling_frame == Some(before.frame)
            &&& entered.stack.len() == 0
            &&& entered.pc == 0
        }),
    ensures
        orderly(after),
{
    let count = before.heap.frames@.len() as int;
    let active = before.frame@;
    assert forall|i: int| 0 <= i < count implies (#[trigger] before.heap.frames@[i])@.calling_frame
        == after.heap.frames@[i]@.calling_frame by {}
    assert forall|at: int| 0 <= at < after.heap.frames@.len() implies frame_in_order(
        after,
        at,
    ) by {
        if at < count {
            assert(frame_in_order(before, at));
            lemma_awaits_agrees(before.heap.frames@, after.heap.frames@, at, active);
            if awaits(before.heap.frames@, active, active) {
                lemma_awaits_older(before.heap.frames@, active, active);
            }
        } else {
            if awaits(after.heap.frames@, at, at) {
                lemma_awaits_older(after.heap.frames@, at, at);
            }
        }
    }
}

/// A machine stays in order as a frame returns to its caller: the frame
/// that returns has handed over the one value on its stack, and the
/// caller, which waited for it, has it on its stack and is active.
proof fn lemma_returning_keeps_order(before: Machine, after: Machine, caller: PtrMut<Frame>)
    requires
        orderly(before),
        before.heap.frames@[before.frame@]@.calling_frame == Some(caller),
        after.frame == caller,
        after.heap.codes == before.heap.codes,
        after.heap.frames@.len() == before.heap.frames@.len(),
        forall|at: int|
            0 <= at < before.heap.frames@.len() && at != before.frame@ && at != caller@ ==> (
            #[trigger] after.heap.frames@[at]) == before.heap.frames@[at],
        alike(
            before,
            before.heap.frames@[before.frame@]@,
            after.heap.frames@[before.frame@]@,
        ),
        ({
            let waiting = before.heap.frames@[caller@]@;
            let resumed = after.heap.frames@[caller@]@;
            &&& resumed.code == waiting.code
            &&& resumed.calling_frame == waiting.calling_frame
            &&& surplus(before, resumed) == surplus(before, waiting) + 1
        }),
    ensures
        orderly(after),
{
    let active = before.frame@;
    assert(frame_in_order(before, active));
    assert forall|i: int| 0 <= i < before.heap.frames@.len() implies (
    #[trigger] before.heap.frames@[i])@.calling_frame == after.heap.frames@[i]@.calling_frame by {}
    assert forall|at: int| 0 <= at < after.heap.frames@.len() implies frame_in_order(
        after,
        at,
    ) by {
        assert(frame_in_order(before, at));
        lemma_awaits_agrees(before.heap.frames@, after.heap.frames@, at, caller@);
        if awaits(before.heap.frames@, at, caller@) {
            lemma_awaits_older(before.heap.frames@, at, caller@);
        }
        if awaits(before.heap.frames@, active, active) {
            lemma_awaits_older(before.heap.frames@, active, active);
        }
    }
}

/// The instruction calls something: a callable on the stack, or what the
/// type of an operand holds in a slot.
pub open spec fn calling(instruction: Instruction) -> bool {
    match instruction {
        Instruction::Pop
        | Instruction::LoadConstant(_)
        | Instruction::LoadVariable(_)
        | Instruction::StoreVariable(_)
        | Instruction::Declare(_)
        | Instruction::Jump(_)
        | Instruction::JumpFalse(_)
        | Instruction::CreateList(_)
        | Instruction::CreateFunction
        | Instruction::Return
        | Instruction::Exit(_) => false,
        _ => true,
    }
}

/// What the next step does is settled: it is not a call whose working is
/// left open, such as the display of a value by a user function.
pub open spec fn settled(machine: Machine, depth: nat) -> bool {
    match machine.current() {
        Some(frame) => match frame.instruction(machine.heap.codes@) {
            Some(instruction) => match machine.plan(frame, instruction) {
                Ok(plan) => calling(instruction) ==> !machine.open_ended(plan, depth),
                Err(_) => true,
            },
            None => true,
        },
        None => true,
    }
}

/// How many operands a calling instruction pops before it calls.
pub open spec fn operands(instruction: Instruction) -> int {
    match instruction {
        Instruction::Call(count) => count + 1,
        Instruction::LoadProperty(_) => 1,
        Instruction::StoreSubscript => 3,
        _ => 2,
    }
}

/// A machine stays in order through a change of the active frame alone
/// that keeps the frame alike.
proof fn lemma_turn_keeps_order(before: Machine, after: Machine, turned: FrameView)
    requires
        orderly(before),
        after.frame == before.frame,
        after.heap.codes == before.heap.codes,
        after.heap.frames@.len() == before.heap.frames@.len(),
        forall|at: int|
            0 <= at < before.heap.frames@.len() && at != before.frame@ ==> (
            #[trigger] after.heap.frames@[at]) == before.heap.frames@[at],
        after.heap.frames@[before.frame@]@ == turned,
        alike(before, before.heap.frames@[before.frame@]@, turned),
    ensures
        orderly(after),
{
    assert forall|at: int| 0 <= at < before.heap.frames@.len() implies alike(
        before,
        (#[trigger] before.heap.frames@[at])@,
        after.heap.frames@[at]@,
    ) by {
        if at != before.frame@ {
            assert(after.heap.frames@[at] == before.heap.frames@[at]);
        }
    }
    lemma_alike_keeps_order(before, after);
}

/// A machine that is in order stays in order through a call that runs a
/// built-in function to its end or enters a frame.
proof fn lemma_call_keeps_order(
    before: Machine,
    frame: FrameView,
    instruction: Instruction,
    plan: Plan,
    after: Machine,
    called: Result<Called, RuntimeError>,
    depth: nat,
)
    requires
        orderly(before),
        before.current() == Some(frame),
        frame.instruction(before.heap.codes@) == Some(instruction),
        calling(instruction),
        before.plan(frame, instruction) == Ok::<Plan, RuntimeError>(plan),
        !before.open_ended(plan, depth),
        before.carried(plan, plan.after(called), after, called, depth),
        called matches Ok(done) && !(done matches Called::Done(Outcome::Exit(_))),
    ensures
        orderly(after),
{
    let active = before.frame@;
    let code = before.heap.codes@[frame.code@]@.instructions;
    let pc = frame.pc as int;
    let inner = if plan.discard {
        (depth - 1) as nat
    } else {
        depth
    };
    let turned = plan.after(called);
    before.heap.codes@[frame.code@].lemma_fits();
    assert(frame_in_order(before, active));
    assert(height(code, pc + 1) == height(code, pc) + effect(code[pc]));
    assert(plan.rest.stack.len() == frame.stack.len() - operands(instruction));
    assert(plan.rest.pc == frame.pc && plan.rest.code == frame.code && plan.rest.calling_frame
        == frame.calling_frame);
    assert(plan.discard == (instruction is StoreSubscript || instruction is StoreProperty));
    assert(before.invoked(turned, after, plan.callee, plan.args, called, inner));
    let (target, all) = before.target(plan.callee, plan.args, inner)->Ok_0;
    assert(before.applied(turned, after, target, all, called, inner));
    assert(before.heap.frames@.len() == before.heap.frames.len());
    PtrMut::<Frame>::nth(0).lemma_nth(before.heap.frames@.len());
    match called {
        Ok(Called::Entered) => {
            assert(target is Function);
            assert(!plan.discard);
            assert(turned == plan.rest.advanced());
            assert(surplus(before, turned) == surplus(before, frame) - 1);
            let callee = before.entry(target->Function_0, all)->Ok_0;
            assert(before.entered(turned, after, callee));
            lemma_entering_keeps_order(before, after);
        },
        Ok(Called::Done(Outcome::Value(value))) => {
            assert(target is Native);
            let native = target->Native_0;
            let pattern = target->Native_1;
            assert(pattern.accepts(all.len()));
            assert(!before.unsettled(native, all, inner));
            assert(before.ran(
                turned,
                after,
                native,
                all,
                crate::machine::outcome_of(called),
                inner,
            ));
            assert(before.kept_frames(turned, after));
            assert(after.heap.frames@.len() == before.heap.frames@.len());
            assert(after.heap.codes == before.heap.codes);
            assert(after.frame == before.frame);
            if plan.discard {
                assert(turned == plan.rest.advanced());
            } else {
                assert(turned == plan.rest.advanced().push(value));
            }
            assert(surplus(before, turned) == surplus(before, frame));
            lemma_turn_keeps_order(before, after, turned);
        },
        _ => {},
    }
}

/// A machine that is in order stays in order through every step whose
/// working is settled and after which it runs on.
pub proof fn lemma_step_keeps_order(before: Machine, after: Machine, depth: nat)
    requires
        orderly(before),
        settled(before, depth),
        before.steps_at(after, Ok(Status::Running), depth),
    ensures
        orderly(after),
{
    let fueled = Machine { fuel: (before.fuel - 1) as u64, ..before };
    let active = before.frame@;
    let frame = fueled.current()->Some_0;
    let instruction = frame.instruction(before.heap.codes@)->Some_0;
    let code = before.heap.codes@[frame.code@]@.instructions;
    let pc = frame.pc as int;
    let running = Ok::<Step, RuntimeError>(Step::Continue);
    assert(orderly(fueled)) by {
        assert forall|at: int| 0 <= at < fueled.heap.frames@.len() implies frame_in_order(
            fueled,
            at,
        ) by {
            assert(frame_in_order(before, at));
        }
    }
    before.heap.codes@[frame.code@].lemma_fits();
    assert(frame_in_order(fueled, active));
    assert(in_order(code, pc));
    assert(height(code, pc + 1) == height(code, pc) + effect(code[pc]));
    match instruction {
        Instruction::Return => {
            let caller = frame.calling_frame->Some_0;
            let rest = frame.drop(1);
            assert(fueled.returned(frame, after, Ok(Status::Running)));
            assert(alike(fueled, frame, rest.advanced()));
            lemma_returning_keeps_order(fueled, after, caller);
        },
        Instruction::Pop => {
            lemma_turn_keeps_order(fueled, after, frame.drop(1).advanced());
        },
        Instruction::LoadConstant(index) => {
            let value = frame.constant(before.heap.codes@, index)->Some_0;
            lemma_turn_keeps_order(fueled, after, frame.push(value).advanced());
        },
        Instruction::LoadVariable(index) => {
            let value = fueled.variable(index)->Ok_0;
            lemma_turn_keeps_order(fueled, after, frame.push(value).advanced());
        },
        Instruction::Declare(index) => {
            let turned = fueled.declared(index)->Ok_0;
            lemma_turn_keeps_order(fueled, after, turned.advanced());
        },
        Instruction::Jump(target) => {
            assert(height(code, target + 1) == height(code, pc + 1));
            lemma_turn_keeps_order(fueled, after, frame.at(target).advanced());
        },
        Instruction::JumpFalse(target) => {
            assert(height(code, target + 1) == height(code, pc + 1));
            let turned = fueled.jumped_if_false(target)->Ok_0;
            lemma_turn_keeps_order(fueled, after, turned.advanced());
        },
        Instruction::StoreVariable(index) => {
            let (owner, name, value) = fueled.stored_variable(index)->Ok_0;
            crate::machine::lemma_resolve_owner(fueled.heap.frames@, fueled.frame, name);
            assert(fueled.variable_stored(after, owner, name, value, true));
            assert forall|at: int| 0 <= at < fueled.heap.frames@.len() implies alike(
                fueled,
                (#[trigger] fueled.heap.frames@[at])@,
                after.heap.frames@[at]@,
            ) by {
                if at != owner@ && at != active {
                    assert(after.heap.frames@[at] == fueled.heap.frames@[at]);
                }
            }
            lemma_alike_keeps_order(fueled, after);
        },
        Instruction::CreateList(count) => {
            let (items, rest) = fueled.popped_many(count)->Ok_0;
            let list = crate::value::Value::List(PtrMut::nth(fueled.heap.lists@.len()));
            assert(fueled.list_created(after, items, rest.advanced()));
            lemma_turn_keeps_order(fueled, after, rest.advanced().push(list));
        },
        Instruction::CreateFunction => {
            let rest = frame.drop(1);
            let function = crate::value::Value::Function(
                crate::ptr::Ptr::nth(fueled.heap.functions@.len()),
            );
            lemma_turn_keeps_order(fueled, after, rest.advanced().push(function));
        },
        Instruction::Exit(_) => {},
        _ => {
            let plan = fueled.plan(frame, instruction)->Ok_0;
            assert(fueled.finished(plan, after, running, depth));
            let called = choose|called: Result<Called, RuntimeError>|
                {
                    &&& #[trigger] fueled.carried(plan, plan.after(called), after, called, depth)
                    &&& running == crate::machine::step_after(called)
                };
            lemma_call_keeps_order(fueled, frame, instruction, plan, after, called, depth);
        },
    }
}

/// A machine whose code objects are balanced and whose frames have not
/// started is in order.
pub proof fn lemma_start_in_order(machine: Machine)
    requires
        machine.frame.live(machine.heap.frames@),
        forall|c: int|
            0 <= c < machine.heap.codes@.len() ==> balanced(
                (#[trigger] machine.heap.codes@[c])@.instructions,
            ),
        forall|at: int|
            0 <= at < machine.heap.frames@.len() ==> {
                let frame = (#[trigger] machine.heap.frames@[at])@;
                &&& frame.code.live(machine.heap.codes@)
                &&& frame.calling_frame.is_none()
                &&& frame.stack.len() == 0
                &&& frame.pc == 0
            },
    ensures
        orderly(machine),
{
    assert forall|at: int| 0 <= at < machine.heap.frames@.len() implies frame_in_order(
        machine,
        at,
    ) by {
        let frame = machine.heap.frames@[at]@;
        if awaits(machine.heap.frames@, at, machine.frame@) {
            assert(machine.heap.frames@[machine.frame@]@.calling_frame.is_none());
        }
    }
}

/// Through a run of settled steps that starts in order, the machine is in
/// order at every state: whenever a frame executes a return, it has
/// exactly one value on its operand stack.
pub proof fn lemma_run_in_order(
    start: Machine,
    trace: Seq<Machine>,
    later: Machine,
    status: Result<usize, RuntimeError>,
    at: int,
)
    requires
        orderly(start),
        start.runs(trace, later, status),
        forall|i: int|
            0 <= i < trace.len() - 1 ==> settled(
                #[trigger] trace[i],
                trace[i].max_depth as nat,
            ),
        0 <= at < trace.len(),
    ensures
        orderly(trace[at]),
    decreases at,
{
    if at > 0 {
        lemma_run_in_order(start, trace, later, status, at - 1);
        assert(trace[at - 1].steps(trace[at], Ok(Status::Running)));
        lemma_step_keeps_order(trace[at - 1], trace[at], trace[at - 1].max_depth as nat);
    }
}

/// A call of a user function that returns grows the operand stack of its
/// caller by exactly one value, the one returned: while the call ran, the
/// caller's stack was one lower than its code says at its program counter,
/// and after the return it is as high as the code says, with the value on
/// top.
pub proof fn lemma_return_grows_caller(before: Machine, after: Machine, depth: nat)
    requires
        orderly(before),
        before.fuel > 0,
        before.returning() is Some,
        before.steps_at(after, Ok(Status::Running), depth),
    ensures
        ({
            let (value, rest, caller) = before.returning()->Some_0;
            let waiting = before.heap.frames@[caller@]@;
            let resumed = after.heap.frames@[caller@]@;
            &&& after.frame == caller
            &&& resumed.stack == waiting.stack.push(value)
            &&& surplus(before, waiting) == -1
            &&& surplus(after, resumed) == 0
        }),
{
    let fueled = Machine { fuel: (before.fuel - 1) as u64, ..before };
    let (value, rest, caller) = before.returning()->Some_0;
    let active = before.frame@;
    let frame = before.current()->Some_0;
    assert(fueled.returned(frame, after, Ok(Status::Running)));
    assert(frame_in_order(before, active));
    assert(frame_in_order(before, caller@));
    assert(awaits(before.heap.frames@, caller@, active));
}

/// Code objects are never changed: a settled step after which the machine
/// runs on leaves every code object in the heap as it was.
pub proof fn lemma_step_keeps_codes(before: Machine, after: Machine, depth: nat)
    requires
        settled(before, depth),
        before.steps_at(after, Ok(Status::Running), depth),
    ensures
        after.heap.codes == before.heap.codes,
{
    let fueled = Machine { fuel: (before.fuel - 1) as u64, ..before };
    let frame = fueled.current()->Some_0;
    let instruction = frame.instruction(before.heap.codes@)->Some_0;
    if calling(instruction) {
        let running = Ok::<Step, RuntimeError>(Step::Continue);
        let plan = fueled.plan(frame, instruction)->Ok_0;
        assert(fueled.finished(plan, after, running, depth));
        let called = choose|called: Result<Called, RuntimeError>|
            {
                &&& #[trigger] fueled.carried(plan, plan.after(called), after, called, depth)
                &&& running == crate::machine::step_after(called)
            };
        let inner = if plan.discard {
            (depth - 1) as nat
        } else {
            depth
        };
        let (target, all) = fueled.target(plan.callee, plan.args, inner)->Ok_0;
        assert(fueled.applied(plan.after(called), after, target, all, called, inner));
        if let Ok(Called::Done(Outcome::Value(value))) = called {
            let native = target->Native_0;
            assert(!fueled.unsettled(native, all, inner));
        }
    }
}

} // verus!
