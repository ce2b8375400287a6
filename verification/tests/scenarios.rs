use san_script::ast::{AssignmentTarget, Expression, Module, Operator, Statement};
use san_script::builtins::Builtins;
use san_script::compiler::CodeBuilder;
use san_script::error::{CompileError, RuntimeError};
use san_script::float::{Arithmetic, FloatUnit};
use san_script::frame::Frame;
use san_script::heap::Heap;
use san_script::instruction::Instruction;
use san_script::interpreter::{Interpreter, Status};
use san_script::ptr::{Ptr, PtrMut};

struct Unit;

impl FloatUnit for Unit {
    fn arithmetic(&self, op: Arithmetic, lhs: u64, rhs: u64) -> u64 {
        let (l, r) = (f64::from_bits(lhs), f64::from_bits(rhs));
        match op {
            Arithmetic::Add => l + r,
            Arithmetic::Subtract => l - r,
            Arithmetic::Multiply => l * r,
            Arithmetic::Divide => l / r,
        }
        .to_bits()
    }

    fn display(&self, bits: u64) -> String {
        format!("{}", f64::from_bits(bits))
    }
}

fn ident(name: &str) -> Expression {
    Expression::Identifier(name.to_string())
}

fn integer(value: i64) -> Expression {
    Expression::Integer(value)
}

fn float(value: f64) -> Expression {
    Expression::Float(value.to_bits())
}

fn text(value: &str) -> Expression {
    Expression::String(value.to_string())
}

fn call(target: Expression, args: Vec<Expression>) -> Expression {
    Expression::FunctionCall { target: Box::new(target), args }
}

fn binary(lhs: Expression, op: Operator, rhs: Expression) -> Expression {
    Expression::Operation { lhs: Box::new(lhs), op, rhs: Box::new(rhs) }
}

fn function(params: &[&str], body: Vec<Statement>) -> Expression {
    Expression::Function { params: params.iter().map(|p| p.to_string()).collect(), body }
}

fn property(target: Expression, name: &str) -> Expression {
    Expression::Property(Box::new(target), name.to_string())
}

fn subscript(target: Expression, index: Expression) -> Expression {
    Expression::Subscript(Box::new(target), Box::new(index))
}

fn print(args: Vec<Expression>) -> Statement {
    Statement::Expression(call(ident("print"), args))
}

fn declare(name: &str, value: Expression) -> Statement {
    Statement::Declaration { ident: name.to_string(), assign: Some(value) }
}

fn assign(name: &str, value: Expression) -> Statement {
    Statement::Assignment { target: AssignmentTarget::Identifier(name.to_string()), source: value }
}

fn run(body: Vec<Statement>) -> (Result<usize, RuntimeError>, String) {
    let module = Module { name: "test".to_string(), body };
    let mut interpreter = Interpreter::start(&module, Unit).unwrap();
    let status = interpreter.run();
    (status, interpreter.take_output())
}

#[test]
fn arithmetic_and_precedence() {
    let (status, output) = run(vec![print(vec![binary(
        integer(2),
        Operator::Add,
        binary(integer(3), Operator::Multiply, integer(4)),
    )])]);
    assert_eq!(status, Ok(0));
    assert_eq!(output, "14\n");
}

#[test]
fn closure_sees_the_frame_it_was_made_in() {
    let make = function(
        &[],
        vec![declare("x", integer(10)), Statement::Return(function(&[], vec![Statement::Return(ident("x"))]))],
    );
    let (status, output) =
        run(vec![declare("make", make), print(vec![call(call(ident("make"), vec![]), vec![])])]);
    assert_eq!(status, Ok(0));
    assert_eq!(output, "10\n");
}

#[test]
fn if_else_branching() {
    let (status, output) = run(vec![
        declare("x", integer(5)),
        Statement::If {
            cond: binary(ident("x"), Operator::GreaterThan, integer(3)),
            body: vec![print(vec![text("big")])],
            else_body: vec![print(vec![text("small")])],
        },
    ]);
    assert_eq!(status, Ok(0));
    assert_eq!(output, "big\n");
}

#[test]
fn if_else_takes_the_else_branch() {
    let (status, output) = run(vec![
        declare("x", integer(2)),
        Statement::If {
            cond: binary(ident("x"), Operator::GreaterThan, integer(3)),
            body: vec![print(vec![text("big")])],
            else_body: vec![print(vec![text("small")])],
        },
        print(vec![text("done")]),
    ]);
    assert_eq!(status, Ok(0));
    assert_eq!(output, "small\ndone\n");
}

#[test]
fn if_without_else_skips_the_body() {
    let (status, output) = run(vec![
        Statement::If {
            cond: binary(integer(1), Operator::GreaterThan, integer(3)),
            body: vec![print(vec![text("big")])],
            else_body: vec![],
        },
        print(vec![text("after")]),
    ]);
    assert_eq!(status, Ok(0));
    assert_eq!(output, "after\n");
}

#[test]
fn list_method_via_property_binding() {
    let (status, output) = run(vec![
        declare("xs", Expression::List(vec![integer(1), integer(2)])),
        Statement::Expression(call(property(ident("xs"), "push"), vec![integer(3)])),
        print(vec![ident("xs")]),
    ]);
    assert_eq!(status, Ok(0));
    assert_eq!(output, "[1, 2, 3]\n");
}

#[test]
fn operator_dispatch_on_right_operand() {
    let (status, output) = run(vec![print(vec![binary(text("a"), Operator::Add, text("b"))])]);
    assert_eq!(status, Ok(0));
    assert_eq!(output, "ab\n");
}

#[test]
fn name_shadowing_and_declaration() {
    let f = function(&[], vec![declare("x", integer(2)), Statement::Return(ident("x"))]);
    let (status, output) = run(vec![
        declare("x", integer(1)),
        declare("f", f),
        print(vec![call(ident("f"), vec![])]),
        print(vec![ident("x")]),
    ]);
    assert_eq!(status, Ok(0));
    assert_eq!(output, "2\n1\n");
}

#[test]
fn assignment_rebinds_in_the_owning_frame() {
    let f = function(&[], vec![assign("x", integer(7)), Statement::Return(ident("x"))]);
    let (status, output) = run(vec![
        declare("x", integer(1)),
        declare("f", f),
        print(vec![call(ident("f"), vec![])]),
        print(vec![ident("x")]),
    ]);
    assert_eq!(status, Ok(0));
    assert_eq!(output, "7\n7\n");
}

#[test]
fn integer_division_by_zero_aborts() {
    let (status, output) = run(vec![print(vec![binary(integer(1), Operator::Divide, integer(0))])]);
    assert_eq!(status, Err(RuntimeError::DivisionByZero));
    assert_eq!(output, "");
}

#[test]
fn integer_division_truncates_towards_zero() {
    let (status, output) = run(vec![
        print(vec![binary(integer(7), Operator::Divide, integer(2))]),
        print(vec![binary(integer(-7), Operator::Divide, integer(2))]),
        print(vec![binary(integer(7), Operator::Divide, integer(-2))]),
    ]);
    assert_eq!(status, Ok(0));
    assert_eq!(output, "3\n-3\n-3\n");
}

#[test]
fn integer_overflow_aborts() {
    let (status, _) = run(vec![print(vec![binary(integer(i64::MAX), Operator::Add, integer(1))])]);
    assert_eq!(status, Err(RuntimeError::Overflow));
    let (status, _) = run(vec![print(vec![binary(integer(i64::MIN), Operator::Divide, integer(-1))])]);
    assert_eq!(status, Err(RuntimeError::Overflow));
}

#[test]
fn list_subscript_at_length_aborts() {
    let (status, _) = run(vec![
        declare("xs", Expression::List(vec![integer(1), integer(2)])),
        print(vec![subscript(ident("xs"), integer(2))]),
    ]);
    assert_eq!(status, Err(RuntimeError::IndexOutOfBounds));
}

#[test]
fn list_subscript_at_minus_one_aborts() {
    let (status, _) = run(vec![
        declare("xs", Expression::List(vec![integer(1), integer(2)])),
        print(vec![subscript(ident("xs"), integer(-1))]),
    ]);
    assert_eq!(status, Err(RuntimeError::IndexOutOfBounds));
}

#[test]
fn list_subscript_reads_and_writes() {
    let (status, output) = run(vec![
        declare("xs", Expression::List(vec![integer(1), integer(2), integer(3)])),
        Statement::Assignment {
            target: AssignmentTarget::Subscript(ident("xs"), integer(1)),
            source: integer(20),
        },
        print(vec![subscript(ident("xs"), integer(0)), subscript(ident("xs"), integer(1))]),
        print(vec![subscript(ident("xs"), float(2.5))]),
    ]);
    assert_eq!(status, Ok(0));
    assert_eq!(output, "1, 20\n3\n");
}

#[test]
fn exact_arity_rejects_one_less_and_one_more() {
    let f = function(&["a", "b"], vec![Statement::Return(ident("a"))]);
    let (status, _) = run(vec![declare("f", f), print(vec![call(ident("f"), vec![integer(1)])])]);
    assert_eq!(status, Err(RuntimeError::ArityMismatch));
    let f = function(&["a", "b"], vec![Statement::Return(ident("a"))]);
    let (status, _) =
        run(vec![declare("f", f), print(vec![call(ident("f"), vec![integer(1), integer(2), integer(3)])])]);
    assert_eq!(status, Err(RuntimeError::ArityMismatch));
    let f = function(&["a", "b"], vec![Statement::Return(ident("b"))]);
    let (status, output) =
        run(vec![declare("f", f), print(vec![call(ident("f"), vec![integer(1), integer(2)])])]);
    assert_eq!(status, Ok(0));
    assert_eq!(output, "2\n");
}

#[test]
fn native_exact_arity_rejects_one_less_and_one_more() {
    let xs = || declare("xs", Expression::List(vec![]));
    let (status, _) =
        run(vec![xs(), Statement::Expression(call(property(ident("xs"), "push"), vec![]))]);
    assert_eq!(status, Err(RuntimeError::ArityMismatch));
    let (status, _) = run(vec![
        xs(),
        Statement::Expression(call(property(ident("xs"), "push"), vec![integer(1), integer(2)])),
    ]);
    assert_eq!(status, Err(RuntimeError::ArityMismatch));
}

#[test]
fn unresolved_name_aborts() {
    let (status, _) = run(vec![print(vec![ident("nowhere")])]);
    assert_eq!(status, Err(RuntimeError::NameUnresolved));
    let (status, _) = run(vec![assign("nowhere", integer(1))]);
    assert_eq!(status, Err(RuntimeError::NameUnresolved));
}

#[test]
fn missing_protocol_aborts() {
    let (status, _) = run(vec![print(vec![binary(
        binary(integer(1), Operator::Equals, integer(1)),
        Operator::Add,
        binary(integer(1), Operator::Equals, integer(1)),
    )])]);
    assert_eq!(status, Err(RuntimeError::ProtocolMissing));
}

#[test]
fn missing_property_aborts() {
    let (status, _) = run(vec![print(vec![property(integer(1), "nothing")])]);
    assert_eq!(status, Err(RuntimeError::PropertyMissing));
}

#[test]
fn type_mismatch_aborts() {
    let (status, _) = run(vec![print(vec![binary(text("a"), Operator::Add, integer(1))])]);
    assert_eq!(status, Err(RuntimeError::TypeMismatch));
}

#[test]
fn calling_a_number_aborts() {
    let (status, _) = run(vec![Statement::Expression(call(integer(1), vec![]))]);
    assert_eq!(status, Err(RuntimeError::ProtocolMissing));
}

#[test]
fn print_separates_arguments_and_displays_every_kind() {
    let (status, output) = run(vec![print(vec![
        integer(-12),
        float(1.5),
        text("s"),
        binary(integer(1), Operator::LessThan, integer(2)),
        Expression::List(vec![integer(1), Expression::List(vec![text("a")])]),
        ident("print"),
        function(&[], vec![]),
        property(Expression::List(vec![]), "push"),
    ])]);
    assert_eq!(status, Ok(0));
    assert_eq!(
        output,
        "-12, 1.5, s, true, [1, [a]], <native function>, <function object>, <native function>\n"
    );
}

#[test]
fn function_without_return_gives_null() {
    let (status, output) =
        run(vec![declare("f", function(&[], vec![])), print(vec![call(ident("f"), vec![])])]);
    assert_eq!(status, Ok(0));
    assert_eq!(output, "null\n");
}

#[test]
fn declaration_without_initializer_binds_null() {
    let (status, output) = run(vec![
        Statement::Declaration { ident: "x".to_string(), assign: None },
        print(vec![ident("x")]),
    ]);
    assert_eq!(status, Ok(0));
    assert_eq!(output, "null\n");
}

#[test]
fn equality_coerces_across_numbers_and_booleans() {
    let (status, output) = run(vec![print(vec![
        binary(integer(1), Operator::Equals, float(1.0)),
        binary(float(0.0), Operator::Equals, binary(integer(1), Operator::Equals, integer(2))),
        binary(text("a"), Operator::Equals, text("a")),
        binary(text("a"), Operator::NotEquals, text("a")),
        binary(integer(1), Operator::Equals, text("1")),
        binary(float(f64::NAN), Operator::Equals, float(f64::NAN)),
    ])]);
    assert_eq!(status, Ok(0));
    assert_eq!(output, "true, true, true, false, false, false\n");
}

#[test]
fn list_add_leaves_its_operands_alone() {
    let (status, output) = run(vec![
        declare("a", Expression::List(vec![integer(1)])),
        declare("b", Expression::List(vec![integer(2)])),
        declare("c", binary(ident("a"), Operator::Add, ident("b"))),
        print(vec![ident("a"), ident("b"), ident("c")]),
    ]);
    assert_eq!(status, Ok(0));
    assert_eq!(output, "[1], [2], [1, 2]\n");
}

#[test]
fn float_arithmetic_goes_through_the_unit() {
    let (status, output) = run(vec![print(vec![
        binary(float(1.5), Operator::Add, float(2.25)),
        binary(float(1.0), Operator::Divide, float(0.0)),
        binary(float(1.5), Operator::LessThan, float(2.0)),
    ])]);
    assert_eq!(status, Ok(0));
    assert_eq!(output, "3.75, inf, true\n");
}

#[test]
fn recursion_runs_in_frames_of_its_own() {
    let fact = function(
        &["n"],
        vec![
            Statement::If {
                cond: binary(ident("n"), Operator::LessThan, integer(2)),
                body: vec![Statement::Return(integer(1))],
                else_body: vec![],
            },
            Statement::Return(binary(
                ident("n"),
                Operator::Multiply,
                call(ident("fact"), vec![binary(ident("n"), Operator::Subtract, integer(1))]),
            )),
        ],
    );
    let (status, output) = run(vec![declare("fact", fact), print(vec![call(ident("fact"), vec![integer(10)])])]);
    assert_eq!(status, Ok(0));
    assert_eq!(output, "3628800\n");
}

#[test]
fn fuel_bounds_a_run() {
    let module = Module {
        name: "test".to_string(),
        body: vec![print(vec![integer(1)]), print(vec![integer(2)])],
    };
    let mut heap = Heap::new();
    let builtins = Builtins::new(&mut heap);
    let mut builder = CodeBuilder::new(0);
    builder.compile_module(&module).unwrap();
    let code = builder.build(&mut heap);
    let code = Ptr::new(&mut heap.codes, code);
    let frame = PtrMut::new(&mut heap.frames, Frame::new(code, None, None));
    let mut interpreter = Interpreter::new(heap, frame, builtins, Unit);
    interpreter.set_fuel(4);
    assert_eq!(interpreter.run(), Err(RuntimeError::OutOfFuel));
    assert_eq!(interpreter.take_output(), "1\n");
    interpreter.set_fuel(100);
    assert_eq!(interpreter.run(), Ok(0));
    assert_eq!(interpreter.take_output(), "2\n");
}

fn start(body: Vec<Statement>) -> Interpreter<Unit> {
    let module = Module { name: "test".to_string(), body };
    Interpreter::start(&module, Unit).unwrap()
}

fn busy_program() -> Vec<Statement> {
    let add = function(&["a", "b"], vec![Statement::Return(binary(ident("a"), Operator::Add, ident("b")))]);
    let twice = function(
        &["f", "x"],
        vec![
            declare("once", call(ident("f"), vec![ident("x"), ident("x")])),
            Statement::If {
                cond: binary(ident("once"), Operator::GreaterThan, integer(100)),
                body: vec![Statement::Return(ident("once"))],
                else_body: vec![Statement::Expression(call(
                    property(ident("log"), "push"),
                    vec![ident("once")],
                ))],
            },
            Statement::Assignment {
                target: AssignmentTarget::Subscript(ident("log"), integer(0)),
                source: ident("x"),
            },
            Statement::Return(call(ident("f"), vec![ident("once"), ident("once")])),
        ],
    );
    vec![
        declare("log", Expression::List(vec![integer(0)])),
        declare("add", add),
        declare("twice", twice),
        print(vec![call(ident("twice"), vec![ident("add"), integer(3)])]),
        print(vec![call(ident("twice"), vec![ident("add"), integer(60)])]),
        print(vec![ident("log")]),
    ]
}

#[test]
fn a_return_finds_exactly_one_value_on_the_stack() {
    let mut interpreter = start(busy_program());
    let mut returns = 0;
    loop {
        let frame = interpreter.active_frame().value(&interpreter.heap().frames);
        if frame.instruction(&interpreter.heap().codes) == Some(Instruction::Return) {
            returns += 1;
            assert_eq!(frame.depth(), 1);
        }
        match interpreter.step() {
            Ok(Status::Running) => {}
            status => {
                assert_eq!(status, Ok(Status::Exited(0)));
                break;
            }
        }
    }
    assert_eq!(returns, 5);
    assert_eq!(interpreter.take_output(), "12\n120\n[3, 6]\n");
}

#[test]
fn a_return_grows_the_stack_of_the_caller_by_the_value() {
    let mut interpreter = start(busy_program());
    let mut returns = 0;
    loop {
        let active = interpreter.active_frame();
        let frame = active.value(&interpreter.heap().frames);
        let returning = frame.instruction(&interpreter.heap().codes) == Some(Instruction::Return);
        let caller = frame.calling_frame();
        let before = caller.map(|caller| caller.value(&interpreter.heap().frames).depth());
        match interpreter.step() {
            Ok(Status::Running) => {}
            status => {
                assert_eq!(status, Ok(Status::Exited(0)));
                break;
            }
        }
        if returning {
            returns += 1;
            let caller = caller.unwrap();
            assert_eq!(interpreter.active_frame(), caller);
            assert_eq!(caller.value(&interpreter.heap().frames).depth(), before.unwrap() + 1);
            assert_eq!(active.value(&interpreter.heap().frames).depth(), 0);
        }
    }
    assert_eq!(returns, 5);
}

#[test]
fn a_function_does_not_see_the_names_of_its_caller() {
    let f = function(&[], vec![Statement::Return(ident("y"))]);
    let g = function(&[], vec![declare("y", integer(1)), Statement::Return(call(ident("f"), vec![]))]);
    let (status, output) =
        run(vec![declare("f", f), declare("g", g), print(vec![call(ident("g"), vec![])])]);
    assert_eq!(status, Err(RuntimeError::NameUnresolved));
    assert_eq!(output, "");
}

#[test]
fn a_closure_outlives_the_call_that_made_it() {
    let counter = function(
        &[],
        vec![
            declare("count", integer(0)),
            Statement::Return(function(
                &[],
                vec![
                    assign("count", binary(ident("count"), Operator::Add, integer(1))),
                    Statement::Return(ident("count")),
                ],
            )),
        ],
    );
    let (status, output) = run(vec![
        declare("counter", counter),
        declare("first", call(ident("counter"), vec![])),
        declare("second", call(ident("counter"), vec![])),
        print(vec![call(ident("first"), vec![]), call(ident("first"), vec![])]),
        print(vec![call(ident("second"), vec![])]),
    ]);
    assert_eq!(status, Ok(0));
    assert_eq!(output, "2, 1\n1\n");
}

#[test]
fn a_value_equals_itself() {
    let (status, output) = run(vec![
        declare("b", binary(integer(1), Operator::Equals, integer(1))),
        declare("i", integer(-4)),
        declare("f", float(2.5)),
        declare("s", text("text")),
        print(vec![
            binary(ident("b"), Operator::Equals, ident("b")),
            binary(ident("i"), Operator::Equals, ident("i")),
            binary(ident("f"), Operator::Equals, ident("f")),
            binary(ident("s"), Operator::Equals, ident("s")),
        ]),
        print(vec![
            binary(ident("b"), Operator::NotEquals, ident("b")),
            binary(ident("i"), Operator::NotEquals, ident("i")),
            binary(ident("f"), Operator::NotEquals, ident("f")),
            binary(ident("s"), Operator::NotEquals, ident("s")),
        ]),
    ]);
    assert_eq!(status, Ok(0));
    assert_eq!(output, "true, true, true, true\nfalse, false, false, false\n");
}

#[test]
fn property_assignment_needs_an_object() {
    let (status, _) = run(vec![Statement::Assignment {
        target: AssignmentTarget::Property(integer(1), "p".to_string()),
        source: integer(2),
    }]);
    assert_eq!(status, Err(RuntimeError::ProtocolMissing));
}

#[test]
fn user_functions_recurse_deeper_than_built_ins_nest() {
    let down = function(
        &["n"],
        vec![
            Statement::If {
                cond: binary(ident("n"), Operator::Equals, integer(0)),
                body: vec![Statement::Return(integer(0))],
                else_body: vec![],
            },
            Statement::Return(binary(
                integer(1),
                Operator::Add,
                call(ident("down"), vec![binary(ident("n"), Operator::Subtract, integer(1))]),
            )),
        ],
    );
    let (status, output) =
        run(vec![declare("down", down), print(vec![call(ident("down"), vec![integer(5000)])])]);
    assert_eq!(status, Ok(0));
    assert_eq!(output, "5000\n");
}

#[test]
fn lists_nest_and_share() {
    let (status, output) = run(vec![
        declare("inner", Expression::List(vec![integer(1)])),
        declare("outer", Expression::List(vec![ident("inner"), ident("inner")])),
        Statement::Expression(call(property(ident("inner"), "push"), vec![text("x")])),
        print(vec![ident("outer")]),
        print(vec![subscript(subscript(ident("outer"), integer(1)), integer(1))]),
    ]);
    assert_eq!(status, Ok(0));
    assert_eq!(output, "[[1, x], [1, x]]\nx\n");
}

#[test]
fn numbers_compare_within_their_kind() {
    let (status, output) = run(vec![print(vec![
        binary(integer(2), Operator::LessThanOrEqual, integer(2)),
        binary(integer(3), Operator::LessThan, integer(2)),
        binary(float(2.5), Operator::GreaterThan, float(-1.0)),
        binary(float(f64::NAN), Operator::GreaterThanOrEqual, float(f64::NAN)),
        binary(float(0.0), Operator::LessThanOrEqual, float(-0.0)),
    ])]);
    assert_eq!(status, Ok(0));
    assert_eq!(output, "true, false, true, false, true\n");
}

#[test]
fn an_operator_takes_its_left_operand_as_the_type_of_the_right_one() {
    let (status, _) = run(vec![print(vec![binary(integer(7), Operator::Subtract, float(2.9))])]);
    assert_eq!(status, Err(RuntimeError::TypeMismatch));
    let (status, _) = run(vec![print(vec![binary(float(2.9), Operator::Subtract, integer(7))])]);
    assert_eq!(status, Err(RuntimeError::TypeMismatch));
    let (status, _) =
        run(vec![print(vec![binary(integer(3), Operator::GreaterThanOrEqual, float(2.5))])]);
    assert_eq!(status, Err(RuntimeError::TypeMismatch));
}

#[test]
fn starting_rejects_object_literals() {
    let module = Module {
        name: "test".to_string(),
        body: vec![Statement::Expression(Expression::Object(vec![]))],
    };
    assert!(matches!(Interpreter::start(&module, Unit), Err(CompileError::ObjectLiteral)));
}

#[test]
fn starting_sets_up_one_frame_at_the_first_instruction() {
    let module = Module { name: "test".to_string(), body: vec![print(vec![integer(1)])] };
    let interpreter = Interpreter::start(&module, Unit).unwrap();
    let frame = interpreter.active_frame().value(&interpreter.heap().frames);
    assert_eq!(interpreter.heap().frames.len(), 1);
    assert_eq!(frame.program_counter(), 0);
    assert_eq!(frame.depth(), 0);
    assert_eq!(frame.calling_frame(), None);
    assert_eq!(frame.outer_frame(), None);
    assert_eq!(frame.instruction(&interpreter.heap().codes), Some(Instruction::LoadConstant(0)));
    assert_eq!(interpreter.fuel(), u64::MAX);
}
