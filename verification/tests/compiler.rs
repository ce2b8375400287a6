use san_script::ast::{AssignmentTarget, Expression, Module, Operator, Statement};
use san_script::compiler::CodeBuilder;
use san_script::error::CompileError;
use san_script::frame::Code;
use san_script::heap::Heap;
use san_script::instruction::Instruction;
use san_script::value::Value;

fn ident(name: &str) -> Expression {
    Expression::Identifier(name.to_string())
}

fn integer(value: i64) -> Expression {
    Expression::Integer(value)
}

fn float(value: f64) -> Expression {
    Expression::Float(value.to_bits())
}

fn text(value: &str) -> Expression {
    Expression::String(value.to_string())
}

fn call(target: Expression, args: Vec<Expression>) -> Expression {
    Expression::FunctionCall { target: Box::new(target), args }
}

fn binary(lhs: Expression, op: Operator, rhs: Expression) -> Expression {
    Expression::Operation { lhs: Box::new(lhs), op, rhs: Box::new(rhs) }
}

fn function(params: &[&str], body: Vec<Statement>) -> Expression {
    Expression::Function { params: params.iter().map(|p| p.to_string()).collect(), body }
}

fn declare(name: &str, value: Expression) -> Statement {
    Statement::Declaration { ident: name.to_string(), assign: Some(value) }
}

fn compile(body: Vec<Statement>) -> (Code, Heap) {
    let module = Module { name: "test".to_string(), body };
    let mut heap = Heap::new();
    let mut builder = CodeBuilder::new(0);
    builder.compile_module(&module).unwrap();
    let code = builder.build(&mut heap);
    (code, heap)
}

fn names(code: &Code, heap: &Heap) -> Vec<String> {
    code.names().iter().map(|name| name.value(&heap.strings).clone()).collect()
}

fn strings(code: &Code, heap: &Heap) -> Vec<Option<String>> {
    code.constants()
        .iter()
        .map(|constant| match constant {
            Value::String(text) => Some(text.value(&heap.strings).clone()),
            _ => None,
        })
        .collect()
}

#[test]
fn right_operand_is_compiled_first() {
    let (code, heap) = compile(vec![Statement::Expression(call(
        ident("print"),
        vec![binary(integer(2), Operator::Add, binary(integer(3), Operator::Multiply, integer(4)))],
    ))]);
    assert_eq!(
        code.instructions(),
        &vec![
            Instruction::LoadConstant(0),
            Instruction::LoadConstant(1),
            Instruction::Multiply,
            Instruction::LoadConstant(2),
            Instruction::Add,
            Instruction::LoadVariable(0),
            Instruction::Call(1),
            Instruction::Pop,
            Instruction::Exit(0),
        ]
    );
    assert_eq!(
        code.constants(),
        &vec![Value::Integer(4), Value::Integer(3), Value::Integer(2)]
    );
    assert_eq!(names(&code, &heap), vec!["print".to_string()]);
    assert_eq!(code.parameter_count(), 0);
}

#[test]
fn every_operator_has_its_instruction() {
    let cases = vec![
        (Operator::Add, Instruction::Add),
        (Operator::Subtract, Instruction::Subtract),
        (Operator::Multiply, Instruction::Multiply),
        (Operator::Divide, Instruction::Divide),
        (Operator::Equals, Instruction::Equals),
        (Operator::NotEquals, Instruction::NotEquals),
        (Operator::LessThan, Instruction::LessThan),
        (Operator::GreaterThan, Instruction::GreaterThan),
        (Operator::LessThanOrEqual, Instruction::LessThanOrEqual),
        (Operator::GreaterThanOrEqual, Instruction::GreaterThanOrEqual),
    ];
    for (op, instruction) in cases {
        let (code, _) = compile(vec![Statement::Return(binary(integer(1), op, integer(2)))]);
        assert_eq!(
            code.instructions(),
            &vec![
                Instruction::LoadConstant(0),
                Instruction::LoadConstant(1),
                instruction,
                Instruction::Return,
                Instruction::Exit(0),
            ]
        );
    }
}

#[test]
fn call_arguments_are_compiled_in_reverse() {
    let (code, heap) = compile(vec![Statement::Expression(call(
        ident("f"),
        vec![ident("a"), ident("b"), ident("c")],
    ))]);
    assert_eq!(
        code.instructions(),
        &vec![
            Instruction::LoadVariable(0),
            Instruction::LoadVariable(1),
            Instruction::LoadVariable(2),
            Instruction::LoadVariable(3),
            Instruction::Call(3),
            Instruction::Pop,
            Instruction::Exit(0),
        ]
    );
    assert_eq!(names(&code, &heap), vec!["c", "b", "a", "f"]);
}

#[test]
fn list_items_are_compiled_in_reverse() {
    let (code, _) =
        compile(vec![Statement::Expression(Expression::List(vec![integer(1), integer(2)]))]);
    assert_eq!(
        code.instructions(),
        &vec![
            Instruction::LoadConstant(0),
            Instruction::LoadConstant(1),
            Instruction::CreateList(2),
            Instruction::Pop,
            Instruction::Exit(0),
        ]
    );
    assert_eq!(code.constants(), &vec![Value::Integer(2), Value::Integer(1)]);
}

#[test]
fn if_without_else_jumps_to_the_last_instruction_of_the_body() {
    let (code, _) = compile(vec![Statement::If {
        cond: ident("c"),
        body: vec![Statement::Expression(integer(1)), Statement::Expression(integer(2))],
        else_body: vec![],
    }]);
    assert_eq!(
        code.instructions(),
        &vec![
            Instruction::LoadVariable(0),
            Instruction::JumpFalse(5),
            Instruction::LoadConstant(0),
            Instruction::Pop,
            Instruction::LoadConstant(1),
            Instruction::Pop,
            Instruction::Exit(0),
        ]
    );
}

#[test]
fn if_with_empty_body_jumps_to_itself() {
    let (code, _) =
        compile(vec![Statement::If { cond: ident("c"), body: vec![], else_body: vec![] }]);
    assert_eq!(
        code.instructions(),
        &vec![Instruction::LoadVariable(0), Instruction::JumpFalse(1), Instruction::Exit(0)]
    );
}

#[test]
fn if_else_jumps_over_the_branch_not_taken() {
    let (code, _) = compile(vec![Statement::If {
        cond: ident("c"),
        body: vec![Statement::Expression(integer(1))],
        else_body: vec![Statement::Expression(integer(2))],
    }]);
    assert_eq!(
        code.instructions(),
        &vec![
            Instruction::LoadVariable(0),
            Instruction::JumpFalse(4),
            Instruction::LoadConstant(0),
            Instruction::Pop,
            Instruction::Jump(6),
            Instruction::LoadConstant(1),
            Instruction::Pop,
            Instruction::Exit(0),
        ]
    );
}

#[test]
fn jump_targets_stay_inside_the_code() {
    let nested = Statement::If {
        cond: ident("a"),
        body: vec![Statement::If {
            cond: ident("b"),
            body: vec![],
            else_body: vec![Statement::Return(integer(1))],
        }],
        else_body: vec![Statement::If { cond: ident("c"), body: vec![], else_body: vec![] }],
    };
    let (code, _) = compile(vec![nested]);
    let count = code.instructions().len();
    let mut jumps = 0;
    for instruction in code.instructions() {
        match instruction {
            Instruction::Jump(target) | Instruction::JumpFalse(target) => {
                jumps += 1;
                assert!(*target < count);
            }
            _ => {}
        }
    }
    assert_eq!(jumps, 5);
}

#[test]
fn assignment_targets_store_after_the_value() {
    let (code, heap) = compile(vec![
        Statement::Assignment {
            target: AssignmentTarget::Identifier("x".to_string()),
            source: integer(1),
        },
        Statement::Assignment {
            target: AssignmentTarget::Property(ident("o"), "p".to_string()),
            source: integer(2),
        },
        Statement::Assignment {
            target: AssignmentTarget::Subscript(ident("o"), ident("i")),
            source: integer(3),
        },
    ]);
    assert_eq!(
        code.instructions(),
        &vec![
            Instruction::LoadConstant(0),
            Instruction::StoreVariable(0),
            Instruction::LoadConstant(1),
            Instruction::LoadVariable(1),
            Instruction::StoreProperty(2),
            Instruction::LoadConstant(2),
            Instruction::LoadVariable(3),
            Instruction::LoadVariable(1),
            Instruction::StoreSubscript,
            Instruction::Exit(0),
        ]
    );
    assert_eq!(names(&code, &heap), vec!["x", "o", "p", "i"]);
}

#[test]
fn property_and_subscript_reads() {
    let (code, heap) = compile(vec![
        Statement::Expression(Expression::Property(Box::new(ident("o")), "p".to_string())),
        Statement::Expression(Expression::Subscript(Box::new(ident("o")), Box::new(ident("i")))),
    ]);
    assert_eq!(
        code.instructions(),
        &vec![
            Instruction::LoadVariable(0),
            Instruction::LoadProperty(1),
            Instruction::Pop,
            Instruction::LoadVariable(2),
            Instruction::LoadVariable(0),
            Instruction::LoadSubscript,
            Instruction::Pop,
            Instruction::Exit(0),
        ]
    );
    assert_eq!(names(&code, &heap), vec!["o", "p", "i"]);
}

#[test]
fn declaration_without_initializer_loads_null() {
    let (code, _) =
        compile(vec![Statement::Declaration { ident: "x".to_string(), assign: None }]);
    assert_eq!(
        code.instructions(),
        &vec![Instruction::LoadConstant(0), Instruction::Declare(0), Instruction::Exit(0)]
    );
    assert_eq!(code.constants(), &vec![Value::Null]);
}

#[test]
fn equal_constants_and_names_share_a_slot() {
    let (code, heap) = compile(vec![
        declare("x", integer(7)),
        declare("y", integer(7)),
        declare("x", text("s")),
        declare("y", text("s")),
        declare("z", float(1.5)),
        declare("z", float(1.5)),
        Statement::Declaration { ident: "n".to_string(), assign: None },
        Statement::Declaration { ident: "n".to_string(), assign: None },
    ]);
    assert_eq!(
        code.instructions(),
        &vec![
            Instruction::LoadConstant(0),
            Instruction::Declare(0),
            Instruction::LoadConstant(0),
            Instruction::Declare(1),
            Instruction::LoadConstant(1),
            Instruction::Declare(0),
            Instruction::LoadConstant(1),
            Instruction::Declare(1),
            Instruction::LoadConstant(2),
            Instruction::Declare(2),
            Instruction::LoadConstant(2),
            Instruction::Declare(2),
            Instruction::LoadConstant(3),
            Instruction::Declare(3),
            Instruction::LoadConstant(3),
            Instruction::Declare(3),
            Instruction::Exit(0),
        ]
    );
    assert_eq!(names(&code, &heap), vec!["x", "y", "z", "n"]);
    assert_eq!(code.constants().len(), 4);
    assert_eq!(code.constants()[0], Value::Integer(7));
    assert_eq!(strings(&code, &heap)[1], Some("s".to_string()));
    assert_eq!(code.constants()[2], Value::Float(1.5f64.to_bits()));
    assert_eq!(code.constants()[3], Value::Null);
}

#[test]
fn constants_of_different_kinds_do_not_share_a_slot() {
    let (code, _) = compile(vec![
        Statement::Expression(integer(1)),
        Statement::Expression(float(1.0)),
        Statement::Expression(text("1")),
    ]);
    assert_eq!(code.constants().len(), 3);
}

#[test]
fn the_two_zeros_share_a_slot_and_a_nan_shares_none() {
    let (code, _) = compile(vec![
        Statement::Expression(float(0.0)),
        Statement::Expression(float(-0.0)),
        Statement::Expression(float(f64::NAN)),
        Statement::Expression(float(f64::NAN)),
    ]);
    assert_eq!(
        code.instructions(),
        &vec![
            Instruction::LoadConstant(0),
            Instruction::Pop,
            Instruction::LoadConstant(0),
            Instruction::Pop,
            Instruction::LoadConstant(1),
            Instruction::Pop,
            Instruction::LoadConstant(2),
            Instruction::Pop,
            Instruction::Exit(0),
        ]
    );
}

#[test]
fn every_function_literal_gets_a_slot_of_its_own() {
    let (code, heap) = compile(vec![
        Statement::Expression(function(&[], vec![])),
        Statement::Expression(function(&[], vec![])),
    ]);
    assert_eq!(
        code.instructions(),
        &vec![
            Instruction::LoadConstant(0),
            Instruction::CreateFunction,
            Instruction::Pop,
            Instruction::LoadConstant(1),
            Instruction::CreateFunction,
            Instruction::Pop,
            Instruction::Exit(0),
        ]
    );
    match (code.constants()[0], code.constants()[1]) {
        (Value::Code(first), Value::Code(second)) => {
            assert_ne!(first.id(), second.id());
            assert_eq!(first.value(&heap.codes).instructions(), second.value(&heap.codes).instructions());
        }
        other => panic!("expected two code constants, found {:?}", other),
    }
}

#[test]
fn function_code_heads_its_names_with_the_parameters() {
    let body = vec![
        declare("local", ident("b")),
        Statement::Return(binary(ident("a"), Operator::Add, ident("local"))),
    ];
    let (code, heap) = compile(vec![Statement::Expression(function(&["a", "b"], body))]);
    let inner = match code.constants()[0] {
        Value::Code(inner) => inner.value(&heap.codes),
        other => panic!("expected a code constant, found {:?}", other),
    };
    assert_eq!(inner.parameter_count(), 2);
    assert_eq!(names(inner, &heap), vec!["a", "b", "local"]);
    assert_eq!(
        inner.instructions(),
        &vec![
            Instruction::LoadVariable(1),
            Instruction::Declare(2),
            Instruction::LoadVariable(2),
            Instruction::LoadVariable(0),
            Instruction::Add,
            Instruction::Return,
            Instruction::LoadConstant(0),
            Instruction::Return,
        ]
    );
    assert_eq!(inner.constants(), &vec![Value::Null]);
}

#[test]
fn a_repeated_parameter_name_is_pooled_once() {
    let (code, heap) =
        compile(vec![Statement::Expression(function(&["a", "a"], vec![declare("b", integer(1))]))]);
    let inner = match code.constants()[0] {
        Value::Code(inner) => inner.value(&heap.codes),
        other => panic!("expected a code constant, found {:?}", other),
    };
    assert_eq!(inner.parameter_count(), 2);
    assert_eq!(names(inner, &heap), vec!["a", "b"]);
}

#[test]
fn object_literal_is_rejected_and_leaves_the_builder_alone() {
    let module = Module {
        name: "test".to_string(),
        body: vec![
            declare("x", integer(1)),
            Statement::Expression(Expression::List(vec![Expression::Object(vec![(
                "key".to_string(),
                integer(1),
            )])])),
        ],
    };
    assert!(!module.is_supported());
    let mut builder = CodeBuilder::new(0);
    assert_eq!(builder.compile_module(&module), Err(CompileError::ObjectLiteral));
    let mut heap = Heap::new();
    let code = builder.build(&mut heap);
    assert!(code.instructions().is_empty());
    assert!(code.constants().is_empty());
    assert!(code.names().is_empty());
}

#[test]
fn object_literal_is_found_wherever_it_hides() {
    let object = || Expression::Object(vec![]);
    let hidden = vec![
        Statement::Return(object()),
        Statement::Declaration { ident: "x".to_string(), assign: Some(object()) },
        Statement::Assignment {
            target: AssignmentTarget::Property(object(), "p".to_string()),
            source: integer(1),
        },
        Statement::Assignment {
            target: AssignmentTarget::Subscript(ident("o"), object()),
            source: integer(1),
        },
        Statement::If { cond: integer(1), body: vec![], else_body: vec![Statement::Return(object())] },
        Statement::Expression(function(&[], vec![Statement::Expression(object())])),
        Statement::Expression(call(ident("f"), vec![object()])),
        Statement::Expression(binary(integer(1), Operator::Add, object())),
    ];
    for statement in hidden {
        assert!(!statement.is_supported());
    }
    assert!(Statement::Expression(function(&[], vec![Statement::Return(integer(1))])).is_supported());
}

#[test]
fn a_module_ends_with_exit_zero() {
    let (code, _) = compile(vec![]);
    assert_eq!(code.instructions(), &vec![Instruction::Exit(0)]);
}

#[test]
fn the_builder_declares_the_parameters_it_was_made_for() {
    let mut heap = Heap::new();
    let code = CodeBuilder::new(3).build(&mut heap);
    assert_eq!(code.parameter_count(), 3);
    assert!(code.names().is_empty());
}
