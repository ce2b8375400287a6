//! The stack discipline of compiled code: along the code, every return
//! stands where the operand stack holds exactly one value, and every jump
//! lands where the stack is as high as right after the jump.

use crate::ast::{
    expressions_supported, statements_supported, AssignmentTarget, Expression, Statement,
};
use crate::compiler::{
    find_constant, function_code, operator_instruction, CodeModel, ConstantModel,
};
use crate::instruction::Instruction;
use vstd::prelude::*;

verus! {

/// By how many values an instruction changes the height of the operand
/// stack of the frame that executes it, the result of a call counted with
/// the call.
pub open spec fn effect(instruction: Instruction) -> int {
    match instruction {
        Instruction::LoadConstant(_) | Instruction::LoadVariable(_) => 1,
        Instruction::LoadProperty(_)
        | Instruction::CreateFunction
        | Instruction::Jump(_)
        | Instruction::Exit(_) => 0,
        Instruction::StoreProperty(_) => -2,
        Instruction::StoreSubscript => -3,
        Instruction::CreateList(count) => 1 - count,
        Instruction::Call(count) => -count,
        _ => -1,
    }
}

/// The height of the operand stack before the instruction at `at`, where
/// the code is entered with an empty stack and runs straight down to it.
pub open spec fn height(code: Seq<Instruction>, at: int) -> int
    decreases at,
{
    if at <= 0 {
        0
    } else {
        height(code, at - 1) + effect(code[at - 1])
    }
}

/// The instruction at `at` keeps the stack in order: a return finds
/// exactly one value on the stack, and a jump lands where the stack is as
/// high as it is right after the jump.
pub open spec fn in_order(code: Seq<Instruction>, at: int) -> bool {
    match code[at] {
        Instruction::Return => height(code, at) == 1,
        Instruction::Jump(target) | Instruction::JumpFalse(target) => target + 1 <= code.len()
            && height(code, target + 1) == height(code, at + 1),
        _ => true,
    }
}

/// Every instruction of the code keeps the stack in order.
pub open spec fn balanced(code: Seq<Instruction>) -> bool {
    forall|at: int| 0 <= at < code.len() ==> in_order(code, at)
}

/// The code is balanced, and so is the code of every function literal in
/// it, however deep.
pub open spec fn disciplined(code: CodeModel) -> bool
    decreases code,
{
    &&& balanced(code.instructions)
    &&& forall|k: int|
        0 <= k < code.constants.len() ==> (#[trigger] code.constants[k] matches ConstantModel::Code(
            inner,
        ) ==> disciplined(inner))
}

/// The code constants that `later` has and `earlier` has not are
/// disciplined.
pub open spec fn nested(earlier: CodeModel, later: CodeModel) -> bool {
    forall|k: int|
        earlier.constants.len() <= k < later.constants.len() ==> (
        #[trigger] later.constants[k] matches ConstantModel::Code(inner) ==> disciplined(inner))
}

/// The addresses of the code fit the operand of a jump, and so do those
/// of the code of every function literal in it.
pub open spec fn fits(code: CodeModel) -> bool
    decreases code,
{
    &&& code.instructions.len() <= usize::MAX
    &&& forall|k: int|
        0 <= k < code.constants.len() ==> (#[trigger] code.constants[k] matches ConstantModel::Code(
            inner,
        ) ==> fits(inner))
}

/// Code fits where code that came from it fits.
proof fn lemma_fits_earlier(earlier: CodeModel, later: CodeModel)
    requires
        earlier.extended_by(later),
        fits(later),
    ensures
        fits(earlier),
{
    assert forall|k: int| 0 <= k < earlier.constants.len() implies (
    #[trigger] earlier.constants[k] matches ConstantModel::Code(inner) ==> fits(inner)) by {
        assert(later.constants[k] == earlier.constants[k]);
    }
}

/// What came from code that came from some code came from that code.
proof fn lemma_extended_twice(first: CodeModel, second: CodeModel, third: CodeModel)
    requires
        first.extended_by(second),
        second.extended_by(third),
    ensures
        first.extended_by(third),
{
    assert forall|i: int| 0 <= i < first.instructions.len() implies third.instructions[i]
        == first.instructions[i] by {
        assert(third.instructions[i] == second.instructions[i]);
    }
    assert forall|i: int| 0 <= i < first.names.len() implies third.names[i] == first.names[i] by {
        assert(third.names[i] == second.names[i]);
    }
    assert forall|i: int| 0 <= i < first.constants.len() implies third.constants[i]
        == first.constants[i] by {
        assert(third.constants[i] == second.constants[i]);
    }
}

/// `later` came from `earlier` by emitting code that runs straight
/// through, without a jump or a return, and raises the stack by `delta`.
pub open spec fn plain(earlier: CodeModel, later: CodeModel, delta: int) -> bool {
    &&& earlier.extended_by(later)
    &&& height(later.instructions, later.instructions.len() as int) == height(
        earlier.instructions,
        earlier.instructions.len() as int,
    ) + delta
    &&& forall|at: int|
        earlier.instructions.len() <= at < later.instructions.len() ==> !(
        #[trigger] later.instructions[at] is Return || later.instructions[at] is Jump
            || later.instructions[at] is JumpFalse)
    &&& nested(earlier, later)
}

/// `later` came from `earlier` by emitting code that leaves the stack as
/// high as it found it and, where it found it empty, keeps it in order
/// throughout.
pub open spec fn neutral(earlier: CodeModel, later: CodeModel) -> bool {
    &&& earlier.extended_by(later)
    &&& height(later.instructions, later.instructions.len() as int) == height(
        earlier.instructions,
        earlier.instructions.len() as int,
    )
    &&& height(earlier.instructions, earlier.instructions.len() as int) == 0 ==> forall|at: int|
        earlier.instructions.len() <= at < later.instructions.len() ==> in_order(
            later.instructions,
            at,
        )
    &&& nested(earlier, later)
}

/// The height at a place depends on the instructions before it alone, and
/// on them only by their effect.
proof fn lemma_height_agrees(a: Seq<Instruction>, b: Seq<Instruction>, at: int)
    requires
        at <= a.len(),
        at <= b.len(),
        forall|i: int| 0 <= i < at ==> effect(a[i]) == effect(b[i]),
    ensures
        height(a, at) == height(b, at),
    decreases at,
{
    if at > 0 {
        lemma_height_agrees(a, b, at - 1);
    }
}

/// An instruction that keeps the stack in order still does where the code
/// around it has changed at most in the targets of jumps and by growing.
proof fn lemma_in_order_kept(a: Seq<Instruction>, b: Seq<Instruction>, at: int)
    requires
        0 <= at < a.len() <= b.len(),
        forall|i: int| 0 <= i < a.len() ==> effect(a[i]) == effect(b[i]),
        a[at] == b[at],
        in_order(a, at),
    ensures
        in_order(b, at),
{
    lemma_height_agrees(a, b, at);
    lemma_height_agrees(a, b, at + 1);
    match a[at] {
        Instruction::Jump(target) | Instruction::JumpFalse(target) => {
            lemma_height_agrees(a, b, target + 1);
        },
        _ => {},
    }
}

/// Emitting an instruction that neither jumps nor returns is plain.
proof fn lemma_emit_plain(code: CodeModel, instruction: Instruction)
    requires
        !(instruction is Return || instruction is Jump || instruction is JumpFalse),
    ensures
        plain(code, code.emit(instruction), effect(instruction)),
{
    let later = code.emit(instruction);
    lemma_height_agrees(code.instructions, later.instructions, code.instructions.len() as int);
}

/// Interning a name emits nothing.
proof fn lemma_use_name_plain(code: CodeModel, name: Seq<char>)
    ensures
        plain(code, code.use_name(name), 0),
{
    lemma_height_agrees(
        code.instructions,
        code.use_name(name).instructions,
        code.instructions.len() as int,
    );
}

/// Interning a constant emits nothing, and adds at most the constant.
proof fn lemma_use_constant_plain(code: CodeModel, constant: ConstantModel)
    requires
        constant matches ConstantModel::Code(inner) ==> disciplined(inner),
    ensures
        plain(code, code.use_constant(constant), 0),
{
    lemma_height_agrees(
        code.instructions,
        code.use_constant(constant).instructions,
        code.instructions.len() as int,
    );
}

/// Plain code after plain code is plain.
proof fn lemma_plain_then_plain(
    first: CodeModel,
    second: CodeModel,
    third: CodeModel,
    rise: int,
    more: int,
)
    requires
        plain(first, second, rise),
        plain(second, third, more),
    ensures
        plain(first, third, rise + more),
{
    assert forall|at: int| first.instructions.len() <= at < third.instructions.len() implies !(
    #[trigger] third.instructions[at] is Return || third.instructions[at] is Jump
        || third.instructions[at] is JumpFalse) by {
        if at < second.instructions.len() {
            assert(third.instructions[at] == second.instructions[at]);
        }
    }
    assert forall|k: int| first.constants.len() <= k < third.constants.len() implies (
    #[trigger] third.constants[k] matches ConstantModel::Code(inner) ==> disciplined(inner)) by {
        if k < second.constants.len() {
            assert(third.constants[k] == second.constants[k]);
        }
    }
}

/// Plain code that leaves the stack as it found it is neutral.
proof fn lemma_plain_neutral(earlier: CodeModel, later: CodeModel)
    requires
        plain(earlier, later, 0),
    ensures
        neutral(earlier, later),
{
}

/// Neutral code after neutral code is neutral.
proof fn lemma_neutral_then_neutral(first: CodeModel, second: CodeModel, third: CodeModel)
    requires
        neutral(first, second),
        neutral(second, third),
    ensures
        neutral(first, third),
{
    assert forall|k: int| first.constants.len() <= k < third.constants.len() implies (
    #[trigger] third.constants[k] matches ConstantModel::Code(inner) ==> disciplined(inner)) by {
        if k < second.constants.len() {
            assert(third.constants[k] == second.constants[k]);
        }
    }
    if height(first.instructions, first.instructions.len() as int) == 0 {
        assert forall|at: int|
            first.instructions.len() <= at < third.instructions.len() implies in_order(
            third.instructions,
            at,
        ) by {
            if at < second.instructions.len() {
                lemma_in_order_kept(second.instructions, third.instructions, at);
            }
        }
    }
}

/// Where the stack is empty, plain code that raises it by one and a
/// return after it are neutral, the return counted as taking the value.
proof fn lemma_plain_then(earlier: CodeModel, valued: CodeModel, last: Instruction, rise: int)
    requires
        plain(earlier, valued, rise),
        rise + effect(last) == 0,
        last is Return ==> rise == 1,
        !(last is Jump || last is JumpFalse),
    ensures
        neutral(earlier, valued.emit(last)),
{
    let later = valued.emit(last);
    lemma_height_agrees(valued.instructions, later.instructions, valued.instructions.len() as int);
    assert forall|k: int| earlier.constants.len() <= k < later.constants.len() implies (
    #[trigger] later.constants[k] matches ConstantModel::Code(inner) ==> disciplined(inner)) by {
        assert(later.constants[k] == valued.constants[k]);
    }
    if height(earlier.instructions, earlier.instructions.len() as int) == 0 {
        assert forall|at: int|
            earlier.instructions.len() <= at < later.instructions.len() implies in_order(
            later.instructions,
            at,
        ) by {
            if at < valued.instructions.len() {
                assert(later.instructions[at] == valued.instructions[at]);
            }
        }
    }
}

/// Interning a name and emitting an instruction on it is plain.
proof fn lemma_with_name_plain(
    code: CodeModel,
    name: Seq<char>,
    make: spec_fn(usize) -> Instruction,
    rise: int,
)
    requires
        forall|i: usize|
            effect(#[trigger] make(i)) == rise && !(make(i) is Return || make(i) is Jump || make(
                i,
            ) is JumpFalse),
    ensures
        plain(code, code.with_name(name, make), rise),
{
    let named = code.use_name(name);
    let index = code.name_index(name) as usize;
    lemma_use_name_plain(code, name);
    lemma_emit_plain(named, make(index));
    lemma_plain_then_plain(code, named, named.emit(make(index)), 0, rise);
}

/// Interning a constant and emitting its load raises the stack by one.
proof fn lemma_load_constant_plain(code: CodeModel, constant: ConstantModel)
    requires
        constant matches ConstantModel::Code(inner) ==> disciplined(inner),
    ensures
        plain(code, code.load_constant(constant), 1),
{
    let pooled = code.use_constant(constant);
    let load = Instruction::LoadConstant(code.constant_index(constant) as usize);
    lemma_use_constant_plain(code, constant);
    lemma_emit_plain(pooled, load);
    lemma_plain_then_plain(code, pooled, pooled.emit(load), 0, 1);
}

/// Binding the parameters of a function emits nothing.
proof fn lemma_parameters_plain(code: CodeModel, params: Seq<String>, count: int)
    ensures
        plain(code, code.parameters_bound(params, count), 0),
    decreases count,
{
    if count > 0 {
        let before = code.parameters_bound(params, count - 1);
        lemma_parameters_plain(code, params, count - 1);
        lemma_use_name_plain(before, params[count - 1]@);
        lemma_plain_then_plain(code, before, before.use_name(params[count - 1]@), 0, 0);
    } else {
        lemma_height_agrees(
            code.instructions,
            code.instructions,
            code.instructions.len() as int,
        );
    }
}

/// A code constant is pooled in a slot of its own: it equals no constant
/// that the pool holds.
pub proof fn lemma_code_constant_new(constants: Seq<ConstantModel>, code: CodeModel, from: int)
    requires
        0 <= from <= constants.len(),
    ensures
        find_constant(constants, ConstantModel::Code(code), from) == constants.len(),
    decreases constants.len() - from,
{
    if from < constants.len() {
        lemma_code_constant_new(constants, code, from + 1);
    }
}

/// The code of an expression runs straight through and raises the stack
/// by one: the value of the expression.
proof fn lemma_expression_plain(code: CodeModel, expr: Expression)
    requires
        expr.supported(),
    ensures
        code.extended_by(code.expression(expr)),
        fits(code.expression(expr)) ==> plain(code, code.expression(expr), 1),
    decreases expr, 0nat,
{
    let result = code.expression(expr);
    match expr {
        Expression::Identifier(ident) => {
            lemma_with_name_plain(code, ident@, |i: usize| Instruction::LoadVariable(i), 1);
        },
        Expression::Integer(value) => {
            lemma_load_constant_plain(code, ConstantModel::Integer(value));
        },
        Expression::Float(bits) => {
            lemma_load_constant_plain(code, ConstantModel::Float(bits));
        },
        Expression::String(text) => {
            lemma_load_constant_plain(code, ConstantModel::String(text@));
        },
        Expression::List(items) => {
            let count = items@.len() as int;
            assert(items@.len() == items.len());
            let listed = code.reversed(items@, count);
            let create = Instruction::CreateList(count as usize);
            lemma_reversed_plain(code, items@, count);
            lemma_emit_plain(listed, create);
            lemma_extended_twice(code, listed, result);
            if fits(result) {
                lemma_fits_earlier(listed, result);
                lemma_plain_then_plain(code, listed, result, count, 1 - count);
            }
        },
        Expression::Object(_) => {},
        Expression::Property(target, property) => {
            let valued = code.expression(*target);
            lemma_expression_plain(code, *target);
            lemma_with_name_plain(valued, property@, |i: usize| Instruction::LoadProperty(i), 0);
            lemma_extended_twice(code, valued, result);
            if fits(result) {
                lemma_fits_earlier(valued, result);
                lemma_plain_then_plain(code, valued, result, 1, 0);
            }
        },
        Expression::Subscript(target, subscript) => {
            let first = code.expression(*subscript);
            let second = first.expression(*target);
            lemma_expression_plain(code, *subscript);
            lemma_expression_plain(first, *target);
            lemma_emit_plain(second, Instruction::LoadSubscript);
            lemma_extended_twice(code, first, second);
            lemma_extended_twice(code, second, result);
            if fits(result) {
                lemma_fits_earlier(second, result);
                lemma_fits_earlier(first, second);
                lemma_plain_then_plain(code, first, second, 1, 1);
                lemma_plain_then_plain(code, second, result, 2, -1);
            }
        },
        Expression::Function { params, body } => {
            let inner = ConstantModel::Code(function_code(params@, body@));
            let pooled = code.use_constant(inner);
            let loaded = code.load_constant(inner);
            lemma_emit_plain(loaded, Instruction::CreateFunction);
            lemma_code_constant_new(code.constants, function_code(params@, body@), 0);
            if fits(result) {
                assert(result.constants[code.constants.len() as int] == inner);
                lemma_function_disciplined(params@, body@);
                lemma_load_constant_plain(code, inner);
                lemma_plain_then_plain(code, loaded, result, 1, 0);
            }
        },
        Expression::FunctionCall { target, args } => {
            let count = args@.len() as int;
            assert(args@.len() == args.len());
            let passed = code.reversed(args@, count);
            let aimed = passed.expression(*target);
            let call = Instruction::Call(count as usize);
            lemma_reversed_plain(code, args@, count);
            lemma_expression_plain(passed, *target);
            lemma_emit_plain(aimed, call);
            lemma_extended_twice(code, passed, aimed);
            lemma_extended_twice(code, aimed, result);
            if fits(result) {
                lemma_fits_earlier(aimed, result);
                lemma_fits_earlier(passed, aimed);
                lemma_plain_then_plain(code, passed, aimed, count, 1);
                lemma_plain_then_plain(code, aimed, result, count + 1, -count);
            }
        },
        Expression::Operation { lhs, op, rhs } => {
            let first = code.expression(*rhs);
            let second = first.expression(*lhs);
            lemma_expression_plain(code, *rhs);
            lemma_expression_plain(first, *lhs);
            lemma_emit_plain(second, operator_instruction(op));
            lemma_extended_twice(code, first, second);
            lemma_extended_twice(code, second, result);
            if fits(result) {
                lemma_fits_earlier(second, result);
                lemma_fits_earlier(first, second);
                lemma_plain_then_plain(code, first, second, 1, 1);
                lemma_plain_then_plain(code, second, result, 2, -1);
            }
        },
    }
}

/// The code of `count` expressions runs straight through and raises the
/// stack by `count`.
proof fn lemma_reversed_plain(code: CodeModel, items: Seq<Expression>, count: int)
    requires
        expressions_supported(items),
        0 <= count <= items.len(),
    ensures
        code.extended_by(code.reversed(items, count)),
        fits(code.reversed(items, count)) ==> plain(code, code.reversed(items, count), count),
    decreases items, count,
{
    let result = code.reversed(items, count);
    if count > 0 {
        let before = code.reversed(items, count - 1);
        lemma_reversed_plain(code, items, count - 1);
        lemma_expression_plain(before, items[items.len() - count]);
        lemma_extended_twice(code, before, result);
        if fits(result) {
            lemma_fits_earlier(before, result);
            lemma_plain_then_plain(code, before, result, count - 1, 1);
        }
    } else {
        lemma_height_agrees(
            code.instructions,
            code.instructions,
            code.instructions.len() as int,
        );
    }
}

/// The code of `count` statements leaves the stack as high as it found it
/// and, where it found it empty, keeps it in order throughout.
proof fn lemma_block_neutral(code: CodeModel, body: Seq<Statement>, count: int)
    requires
        statements_supported(body),
        0 <= count <= body.len(),
    ensures
        code.extended_by(code.block(body, count)),
        fits(code.block(body, count)) ==> neutral(code, code.block(body, count)),
    decreases body, count,
{
    let result = code.block(body, count);
    if count > 0 {
        let before = code.block(body, count - 1);
        lemma_block_neutral(code, body, count - 1);
        lemma_statement_neutral(before, body[count - 1]);
        lemma_extended_twice(code, before, result);
        if fits(result) {
            lemma_fits_earlier(before, result);
            lemma_neutral_then_neutral(code, before, result);
        }
    } else {
        lemma_height_agrees(
            code.instructions,
            code.instructions,
            code.instructions.len() as int,
        );
    }
}

/// The code of a statement leaves the stack as high as it found it and,
/// where it found it empty, keeps it in order throughout: every return in
/// it finds exactly one value on the stack, and every jump lands where the
/// stack is as high as right after the jump.
proof fn lemma_statement_neutral(code: CodeModel, stmt: Statement)
    requires
        stmt.supported(),
    ensures
        code.extended_by(code.statement(stmt)),
        fits(code.statement(stmt)) ==> neutral(code, code.statement(stmt)),
    decreases stmt, 1nat,
{
    let result = code.statement(stmt);
    match stmt {
        Statement::Expression(expr) => {
            let valued = code.expression(expr);
            lemma_expression_plain(code, expr);
            lemma_emit_plain(valued, Instruction::Pop);
            lemma_extended_twice(code, valued, result);
            if fits(result) {
                lemma_fits_earlier(valued, result);
                lemma_plain_then(code, valued, Instruction::Pop, 1);
            }
        },
        Statement::Return(expr) => {
            let valued = code.expression(expr);
            lemma_expression_plain(code, expr);
            assert(valued.extended_by(result));
            lemma_extended_twice(code, valued, result);
            if fits(result) {
                lemma_fits_earlier(valued, result);
                lemma_plain_then(code, valued, Instruction::Return, 1);
            }
        },
        Statement::Declaration { ident, assign } => {
            let valued = match assign {
                Some(expr) => code.expression(expr),
                None => code.load_constant(ConstantModel::Null),
            };
            match assign {
                Some(expr) => {
                    lemma_expression_plain(code, expr);
                },
                None => {
                    lemma_load_constant_plain(code, ConstantModel::Null);
                },
            }
            let named = valued.use_name(ident@);
            let declare = Instruction::Declare(valued.name_index(ident@) as usize);
            lemma_use_name_plain(valued, ident@);
            lemma_emit_plain(named, declare);
            lemma_extended_twice(code, valued, named);
            lemma_extended_twice(code, named, result);
            if fits(result) {
                lemma_fits_earlier(named, result);
                lemma_fits_earlier(valued, named);
                lemma_plain_then_plain(code, valued, named, 1, 0);
                lemma_plain_then(code, named, declare, 1);
            }
        },
        Statement::Assignment { target, source } => {
            let valued = code.expression(source);
            lemma_expression_plain(code, source);
            match target {
                AssignmentTarget::Identifier(ident) => {
                    let named = valued.use_name(ident@);
                    let store = Instruction::StoreVariable(valued.name_index(ident@) as usize);
                    lemma_use_name_plain(valued, ident@);
                    lemma_emit_plain(named, store);
                    lemma_extended_twice(code, valued, named);
                    lemma_extended_twice(code, named, result);
                    if fits(result) {
                        lemma_fits_earlier(named, result);
                        lemma_fits_earlier(valued, named);
                        lemma_plain_then_plain(code, valued, named, 1, 0);
                        lemma_plain_then(code, named, store, 1);
                    }
                },
                AssignmentTarget::Property(object, property) => {
                    let aimed = valued.expression(object);
                    let named = aimed.use_name(property@);
                    let store = Instruction::StoreProperty(aimed.name_index(property@) as usize);
                    lemma_expression_plain(valued, object);
                    lemma_use_name_plain(aimed, property@);
                    lemma_emit_plain(named, store);
                    lemma_extended_twice(code, valued, aimed);
                    lemma_extended_twice(code, aimed, named);
                    lemma_extended_twice(code, named, result);
                    if fits(result) {
                        lemma_fits_earlier(named, result);
                        lemma_fits_earlier(aimed, named);
                        lemma_fits_earlier(valued, aimed);
                        lemma_plain_then_plain(code, valued, aimed, 1, 1);
                        lemma_plain_then_plain(code, aimed, named, 2, 0);
                        lemma_plain_then(code, named, store, 2);
                    }
                },
                AssignmentTarget::Subscript(object, subscript) => {
                    let keyed = valued.expression(subscript);
                    let aimed = keyed.expression(object);
                    lemma_expression_plain(valued, subscript);
                    lemma_expression_plain(keyed, object);
                    lemma_emit_plain(aimed, Instruction::StoreSubscript);
                    lemma_extended_twice(code, valued, keyed);
                    lemma_extended_twice(code, keyed, aimed);
                    lemma_extended_twice(code, aimed, result);
                    if fits(result) {
                        lemma_fits_earlier(aimed, result);
                        lemma_fits_earlier(keyed, aimed);
                        lemma_fits_earlier(valued, keyed);
                        lemma_plain_then_plain(code, valued, keyed, 1, 1);
                        lemma_plain_then_plain(code, keyed, aimed, 2, 1);
                        lemma_plain_then(code, aimed, Instruction::StoreSubscript, 3);
                    }
                },
            }
        },
        Statement::If { cond, body, else_body } => {
            lemma_if_neutral(code, stmt);
        },
    }
}

/// The code of a conditional is neutral: the jump over the branch not
/// taken lands where the stack is as high as after the jump.
proof fn lemma_if_neutral(code: CodeModel, stmt: Statement)
    requires
        stmt is If,
        stmt.supported(),
    ensures
        code.extended_by(code.statement(stmt)),
        fits(code.statement(stmt)) ==> neutral(code, code.statement(stmt)),
    decreases stmt, 0nat,
{
    if let Statement::If { cond, body, else_body } = stmt {
        let base = height(code.instructions, code.instructions.len() as int);
        let tested = code.expression(cond);
        let branch = tested.instructions.len() as int;
        let jumped = tested.emit(Instruction::JumpFalse(0));
        let then_done = jumped.block(body@, body@.len() as int);
        lemma_expression_plain(code, cond);
        lemma_block_neutral(jumped, body@, body@.len() as int);
        lemma_extended_twice(code, tested, jumped);
        lemma_extended_twice(code, jumped, then_done);
        lemma_extended_twice(tested, jumped, then_done);
        lemma_height_agrees(tested.instructions, jumped.instructions, branch);
        assert(then_done.instructions[branch] == jumped.instructions[branch]);
        lemma_height_agrees(jumped.instructions, then_done.instructions, branch + 1);
        if else_body@.len() > 0 {
            let skip = then_done.instructions.len() as int;
            let skipped = then_done.emit(Instruction::Jump(0));
            let else_done = skipped.block(else_body@, else_body@.len() as int);
            let end = else_done.instructions.len() as int;
            let patched = else_done.patch(skip, Instruction::Jump((end - 1) as usize));
            let last = patched.patch(branch, Instruction::JumpFalse(skip as usize));
            lemma_block_neutral(skipped, else_body@, else_body@.len() as int);
            lemma_extended_twice(then_done, skipped, else_done);
            lemma_extended_twice(code, then_done, else_done);
            lemma_extended_twice(tested, then_done, else_done);
            assert(else_done.instructions[skip] == skipped.instructions[skip]);
            assert(else_done.instructions[branch] == then_done.instructions[branch]);
            assert(last == code.statement(stmt));
            assert(code.extended_by(last));
            if fits(last) {
                assert(fits(else_done)) by {
                    assert(last.constants == else_done.constants);
                }
                lemma_fits_earlier(skipped, else_done);
                lemma_fits_earlier(then_done, else_done);
                lemma_fits_earlier(jumped, then_done);
                lemma_fits_earlier(tested, then_done);
                lemma_height_agrees(then_done.instructions, skipped.instructions, skip);
                assert forall|i: int| 0 <= i < end implies effect(else_done.instructions[i])
                    == effect(last.instructions[i]) by {}
                lemma_height_agrees(else_done.instructions, last.instructions, end);
                lemma_height_agrees(else_done.instructions, last.instructions, skip + 1);
                lemma_height_agrees(else_done.instructions, last.instructions, branch + 1);
                lemma_height_agrees(skipped.instructions, else_done.instructions, skip + 1);
                lemma_height_agrees(then_done.instructions, else_done.instructions, branch + 1);
                assert forall|k: int| code.constants.len() <= k < last.constants.len() implies (
                #[trigger] last.constants[k] matches ConstantModel::Code(inner) ==> disciplined(
                    inner,
                )) by {
                    if k < tested.constants.len() {
                        assert(last.constants[k] == tested.constants[k]);
                    } else if k < then_done.constants.len() {
                        assert(last.constants[k] == then_done.constants[k]);
                    }
                }
                if base == 0 {
                    assert forall|at: int|
                        code.instructions.len() <= at < last.instructions.len() implies in_order(
                        last.instructions,
                        at,
                    ) by {
                        if at < branch {
                            assert(last.instructions[at] == tested.instructions[at]);
                        } else if at == branch {
                        } else if at < skip {
                            assert forall|i: int| 0 <= i < skip implies effect(
                                then_done.instructions[i],
                            ) == effect(last.instructions[i]) by {}
                            lemma_in_order_kept(then_done.instructions, last.instructions, at);
                        } else if at == skip {
                        } else {
                            lemma_in_order_kept(else_done.instructions, last.instructions, at);
                        }
                    }
                }
            }
        } else {
            let end = then_done.instructions.len() as int;
            let last = then_done.patch(branch, Instruction::JumpFalse((end - 1) as usize));
            assert(last == code.statement(stmt));
            assert(code.extended_by(last));
            if fits(last) {
                assert(fits(then_done)) by {
                    assert(last.constants == then_done.constants);
                }
                lemma_fits_earlier(jumped, then_done);
                lemma_fits_earlier(tested, then_done);
                assert forall|i: int| 0 <= i < end implies effect(then_done.instructions[i])
                    == effect(last.instructions[i]) by {}
                lemma_height_agrees(then_done.instructions, last.instructions, end);
                lemma_height_agrees(then_done.instructions, last.instructions, branch + 1);
                assert forall|k: int| code.constants.len() <= k < last.constants.len() implies (
                #[trigger] last.constants[k] matches ConstantModel::Code(inner) ==> disciplined(
                    inner,
                )) by {
                    if k < tested.constants.len() {
                        assert(last.constants[k] == tested.constants[k]);
                    }
                }
                if base == 0 {
                    assert forall|at: int|
                        code.instructions.len() <= at < last.instructions.len() implies in_order(
                        last.instructions,
                        at,
                    ) by {
                        if at < branch {
                            assert(last.instructions[at] == tested.instructions[at]);
                        } else if at == branch {
                        } else {
                            lemma_in_order_kept(then_done.instructions, last.instructions, at);
                        }
                    }
                }
            }
        }
    }
}

/// The code of a function literal is disciplined: entered with an empty
/// operand stack, every return in it finds exactly one value on the stack,
/// and the same holds of every function literal inside it.
pub proof fn lemma_function_disciplined(params: Seq<String>, body: Seq<Statement>)
    requires
        statements_supported(body),
        fits(function_code(params, body)),
    ensures
        disciplined(function_code(params, body)),
    decreases body, body.len() + 1,
{
    let empty = CodeModel::empty(params.len() as usize);
    let bound = empty.parameters_bound(params, params.len() as int);
    let done = bound.block(body, body.len() as int);
    let loaded = done.load_constant(ConstantModel::Null);
    let code = loaded.emit(Instruction::Return);
    lemma_parameters_plain(empty, params, params.len() as int);
    lemma_block_neutral(bound, body, body.len() as int);
    lemma_load_constant_plain(done, ConstantModel::Null);
    lemma_fits_earlier(loaded, code);
    lemma_fits_earlier(done, loaded);
    lemma_plain_neutral(empty, bound);
    lemma_neutral_then_neutral(empty, bound, done);
    lemma_plain_then(done, loaded, Instruction::Return, 1);
    lemma_neutral_then_neutral(empty, done, code);
}

/// The code of a module is disciplined: every return in it finds exactly
/// one value on the operand stack, every jump lands where the stack is as
/// high as right after the jump, and the same holds of every function
/// literal in it.
pub proof fn lemma_module_disciplined(parameters: usize, body: Seq<Statement>)
    requires
        statements_supported(body),
        fits(CodeModel::empty(parameters).module(body)),
    ensures
        disciplined(CodeModel::empty(parameters).module(body)),
{
    let empty = CodeModel::empty(parameters);
    let done = empty.block(body, body.len() as int);
    let code = done.emit(Instruction::Exit(0));
    lemma_block_neutral(empty, body, body.len() as int);
    lemma_fits_earlier(done, code);
    lemma_height_agrees(done.instructions, done.instructions, done.instructions.len() as int);
    assert(plain(done, done, 0));
    lemma_plain_then(done, done, Instruction::Exit(0), 0);
    lemma_neutral_then_neutral(empty, done, code);
}

} // verus!
