//! The compiler from syntax trees to code objects: a single pass that
//! emits instructions and interns names and constants as it goes.

use crate::ast::{
    expressions_supported, statements_supported, AssignmentTarget, Expression, Module, Operator,
    Statement,
};
use crate::balance::{balanced, disciplined, fits, lemma_module_disciplined};
use crate::error::CompileError;
use crate::float::{bits_equal, float_eq, lemma_float_eq_congruent};
use crate::frame::{Code, CodeView};
use crate::heap::Heap;
use crate::instruction::{ConstantIndex, Instruction, NameIndex};
use crate::ptr::Ptr;
use crate::value::Value;
use vstd::prelude::*;

verus! {

/// A constant as the compiler pools it.
#[derive(Debug)]
pub enum Constant {
    Null,
    Integer(i64),
    /// A binary64 number, held as its IEEE-754 bit pattern.
    Float(u64),
    String(String),
    Code(CodeBuilder),
}

/// A code object under construction: instructions emitted so far and the
/// pools they refer to.
#[derive(Debug)]
pub struct CodeBuilder {
    instructions: Vec<Instruction>,
    constants: Vec<Constant>,
    names: Vec<String>,
    parameters: usize,
}

/// What a pooled constant stands for.
pub ghost enum ConstantModel {
    Null,
    Integer(i64),
    Float(u64),
    String(Seq<char>),
    Code(CodeModel),
}

/// What a code object under construction stands for.
pub ghost struct CodeModel {
    pub instructions: Seq<Instruction>,
    pub constants: Seq<ConstantModel>,
    pub names: Seq<Seq<char>>,
    pub parameters: usize,
}

/// Equality of constants as pooling sees it: scalars and text by value, and a
/// code constant equal to nothing, itself included.
pub open spec fn same_constant(a: ConstantModel, b: ConstantModel) -> bool {
    match (a, b) {
        (ConstantModel::Null, ConstantModel::Null) => true,
        (ConstantModel::Integer(x), ConstantModel::Integer(y)) => x == y,
        (ConstantModel::Float(x), ConstantModel::Float(y)) => float_eq(x, y),
        (ConstantModel::String(x), ConstantModel::String(y)) => x == y,
        _ => false,
    }
}

/// The first position at or after `from` that holds `name`, or the length of
/// the pool when there is none.
pub open spec fn find_name(names: Seq<Seq<char>>, name: Seq<char>, from: int) -> int
    decreases names.len() - from,
{
    if from >= names.len() {
        names.len() as int
    } else if names[from] == name {
        from
    } else {
        find_name(names, name, from + 1)
    }
}

/// The first position at or after `from` that holds a constant equal to
/// `constant`, or the length of the pool when there is none.
pub open spec fn find_constant(
    constants: Seq<ConstantModel>,
    constant: ConstantModel,
    from: int,
) -> int
    decreases constants.len() - from,
{
    if from >= constants.len() {
        constants.len() as int
    } else if same_constant(constants[from], constant) {
        from
    } else {
        find_constant(constants, constant, from + 1)
    }
}

/// The texts of a sequence of strings.
pub open spec fn texts(strings: Seq<String>) -> Seq<Seq<char>> {
    Seq::new(strings.len(), |i: int| strings[i]@)
}

/// The model of a pooled constant.
pub open spec fn constant_model(constant: Constant) -> ConstantModel
    decreases constant,
{
    match constant {
        Constant::Null => ConstantModel::Null,
        Constant::Integer(value) => ConstantModel::Integer(value),
        Constant::Float(bits) => ConstantModel::Float(bits),
        Constant::String(text) => ConstantModel::String(text@),
        Constant::Code(builder) => ConstantModel::Code(builder_model(builder)),
    }
}

/// The models of a pool of constants.
pub open spec fn constant_models(constants: Seq<Constant>) -> Seq<ConstantModel>
    decreases constants,
{
    Seq::new(
        constants.len(),
        |i: int|
            if 0 <= i < constants.len() {
                constant_model(constants[i])
            } else {
                ConstantModel::Null
            },
    )
}

/// The model of a builder.
pub closed spec fn builder_model(builder: CodeBuilder) -> CodeModel
    decreases builder,
{
    CodeModel {
        instructions: builder.instructions@,
        constants: constant_models(builder.constants@),
        names: texts(builder.names@),
        parameters: builder.parameters,
    }
}

impl View for Constant {
    type V = ConstantModel;

    open spec fn view(&self) -> ConstantModel {
        constant_model(*self)
    }
}

impl View for CodeBuilder {
    type V = CodeModel;

    open spec fn view(&self) -> CodeModel {
        builder_model(*self)
    }
}

impl CodeModel {
    /// A builder that has emitted nothing, for a function of `parameters`
    /// parameters.
    pub open spec fn empty(parameters: usize) -> CodeModel {
        CodeModel { instructions: seq![], constants: seq![], names: seq![], parameters }
    }

    /// Every operand of every instruction stays inside this code object, the
    /// parameters fit in the name pool, and the same holds of every code
    /// constant in the pool.
    pub open spec fn well_formed(self) -> bool
        decreases self,
    {
        &&& forall|i: int|
            0 <= i < self.instructions.len() ==> (#[trigger] self.instructions[i]).in_range(
                self.instructions.len(),
                self.constants.len(),
                self.names.len(),
            )
        &&& forall|i: int|
            0 <= i < self.constants.len() ==> (#[trigger] self.constants[i] matches ConstantModel::Code(
                inner,
            ) ==> inner.well_formed())
    }

    /// The pools of `later` begin with the pools of `self`, and so do its
    /// instructions: `later` came from `self` by emitting and pooling more.
    pub open spec fn extended_by(self, later: CodeModel) -> bool {
        &&& self.parameters == later.parameters
        &&& self.instructions.len() <= later.instructions.len()
        &&& forall|i: int|
            0 <= i < self.instructions.len() ==> later.instructions[i] == self.instructions[i]
        &&& self.names.len() <= later.names.len()
        &&& forall|i: int| 0 <= i < self.names.len() ==> later.names[i] == self.names[i]
        &&& self.constants.len() <= later.constants.len()
        &&& forall|i: int| 0 <= i < self.constants.len() ==> later.constants[i] == self.constants[i]
    }

    /// The position of `name` in the pool once it is interned.
    pub open spec fn name_index(self, name: Seq<char>) -> int {
        find_name(self.names, name, 0)
    }

    /// The model after interning `name`.
    pub open spec fn use_name(self, name: Seq<char>) -> CodeModel {
        if self.name_index(name) < self.names.len() {
            self
        } else {
            CodeModel { names: self.names.push(name), ..self }
        }
    }

    /// The position of `constant` in the pool once it is interned.
    pub open spec fn constant_index(self, constant: ConstantModel) -> int {
        find_constant(self.constants, constant, 0)
    }

    /// The model after interning `constant`.
    pub open spec fn use_constant(self, constant: ConstantModel) -> CodeModel {
        if self.constant_index(constant) < self.constants.len() {
            self
        } else {
            CodeModel { constants: self.constants.push(constant), ..self }
        }
    }

    /// The model after emitting `instruction`.
    pub open spec fn emit(self, instruction: Instruction) -> CodeModel {
        CodeModel { instructions: self.instructions.push(instruction), ..self }
    }

    /// The model after replacing the instruction at `at`.
    pub open spec fn patch(self, at: int, instruction: Instruction) -> CodeModel {
        CodeModel { instructions: self.instructions.update(at, instruction), ..self }
    }

    /// The model after interning `constant` and emitting its load.
    pub open spec fn load_constant(self, constant: ConstantModel) -> CodeModel {
        self.use_constant(constant).emit(
            Instruction::LoadConstant(self.constant_index(constant) as usize),
        )
    }

    /// The model after interning `name` and emitting `make` of its position.
    pub open spec fn with_name(
        self,
        name: Seq<char>,
        make: spec_fn(NameIndex) -> Instruction,
    ) -> CodeModel {
        self.use_name(name).emit(make(self.name_index(name) as usize))
    }

    /// The model after interning the first `count` of `params`, in order.
    pub open spec fn parameters_bound(self, params: Seq<String>, count: int) -> CodeModel
        decreases count,
    {
        if count <= 0 {
            self
        } else {
            self.parameters_bound(params, count - 1).use_name(params[count - 1]@)
        }
    }

    /// The model after compiling `expr`: code that leaves the expression's
    /// value on top of the operand stack.
    pub open spec fn expression(self, expr: Expression) -> CodeModel
        decreases expr, 0nat,
    {
        match expr {
            Expression::Identifier(ident) => self.with_name(
                ident@,
                |i: NameIndex| Instruction::LoadVariable(i),
            ),
            Expression::Integer(value) => self.load_constant(ConstantModel::Integer(value)),
            Expression::Float(bits) => self.load_constant(ConstantModel::Float(bits)),
            Expression::String(text) => self.load_constant(ConstantModel::String(text@)),
            Expression::List(items) => self.reversed(items@, items@.len() as int).emit(
                Instruction::CreateList(items@.len() as usize),
            ),
            Expression::Object(_) => self,
            Expression::Property(target, property) => self.expression(*target).with_name(
                property@,
                |i: NameIndex| Instruction::LoadProperty(i),
            ),
            Expression::Subscript(target, subscript) => self.expression(*subscript).expression(
                *target,
            ).emit(Instruction::LoadSubscript),
            Expression::Function { params, body } => self.load_constant(
                ConstantModel::Code(function_code(params@, body@)),
            ).emit(Instruction::CreateFunction),
            Expression::FunctionCall { target, args } => self.reversed(
                args@,
                args@.len() as int,
            ).expression(*target).emit(Instruction::Call(args@.len() as usize)),
            Expression::Operation { lhs, op, rhs } => self.expression(*rhs).expression(*lhs).emit(
                operator_instruction(op),
            ),
        }
    }

    /// The model after compiling the last `count` of `items`, the last one
    /// first.
    pub open spec fn reversed(self, items: Seq<Expression>, count: int) -> CodeModel
        decreases items, count,
    {
        if count <= 0 || count > items.len() {
            self
        } else {
            self.reversed(items, count - 1).expression(items[items.len() - count])
        }
    }

    /// The model after compiling the first `count` of `body`, in order.
    pub open spec fn block(self, body: Seq<Statement>, count: int) -> CodeModel
        decreases body, count,
    {
        if count <= 0 || count > body.len() {
            self
        } else {
            self.block(body, count - 1).statement(body[count - 1])
        }
    }

    /// The model after compiling `stmt`.
    pub open spec fn statement(self, stmt: Statement) -> CodeModel
        decreases stmt, 0nat,
    {
        match stmt {
            Statement::Expression(expr) => self.expression(expr).emit(Instruction::Pop),
            Statement::Return(expr) => self.expression(expr).emit(Instruction::Return),
            Statement::Declaration { ident, assign } => {
                let valued = match assign {
                    Some(expr) => self.expression(expr),
                    None => self.load_constant(ConstantModel::Null),
                };
                valued.with_name(ident@, |i: NameIndex| Instruction::Declare(i))
            },
            Statement::Assignment { target, source } => {
                let valued = self.expression(source);
                match target {
                    AssignmentTarget::Identifier(ident) => valued.with_name(
                        ident@,
                        |i: NameIndex| Instruction::StoreVariable(i),
                    ),
                    AssignmentTarget::Property(object, property) => valued.expression(
                        object,
                    ).with_name(property@, |i: NameIndex| Instruction::StoreProperty(i)),
                    AssignmentTarget::Subscript(object, subscript) => valued.expression(
                        subscript,
                    ).expression(object).emit(Instruction::StoreSubscript),
                }
            },
            Statement::If { cond, body, else_body } => {
                let tested = self.expression(cond);
                let branch = tested.instructions.len() as int;
                let then_done = tested.emit(Instruction::JumpFalse(0)).block(
                    body@,
                    body@.len() as int,
                );
                if else_body@.len() > 0 {
                    let skip = then_done.instructions.len() as int;
                    let else_done = then_done.emit(Instruction::Jump(0)).block(
                        else_body@,
                        else_body@.len() as int,
                    );
                    else_done.patch(
                        skip,
                        Instruction::Jump((else_done.instructions.len() - 1) as usize),
                    ).patch(branch, Instruction::JumpFalse(skip as usize))
                } else {
                    then_done.patch(
                        branch,
                        Instruction::JumpFalse((then_done.instructions.len() - 1) as usize),
                    )
                }
            },
        }
    }

    /// The model after compiling a whole module: its statements, then the
    /// exit with status 0.
    pub open spec fn module(self, body: Seq<Statement>) -> CodeModel {
        self.block(body, body.len() as int).emit(Instruction::Exit(0))
    }
}

/// The instruction that applies `op` to the two values on top of the stack.
pub open spec fn operator_instruction(op: Operator) -> Instruction {
    match op {
        Operator::Add => Instruction::Add,
        Operator::Subtract => Instruction::Subtract,
        Operator::Multiply => Instruction::Multiply,
        Operator::Divide => Instruction::Divide,
        Operator::LessThan => Instruction::LessThan,
        Operator::GreaterThan => Instruction::GreaterThan,
        Operator::LessThanOrEqual => Instruction::LessThanOrEqual,
        Operator::GreaterThanOrEqual => Instruction::GreaterThanOrEqual,
        Operator::Equals => Instruction::Equals,
        Operator::NotEquals => Instruction::NotEquals,
    }
}

/// The code of a function literal: the parameter names head the name pool in
/// declaration order, the body follows, and a fall-through returns null.
pub open spec fn function_code(params: Seq<String>, body: Seq<Statement>) -> CodeModel
    decreases body, body.len() + 1,
{
    CodeModel::empty(params.len() as usize).parameters_bound(params, params.len() as int).block(
        body,
        body.len() as int,
    ).load_constant(ConstantModel::Null).emit(Instruction::Return)
}

/// Decides whether pooling takes two constants for the same.
fn constant_matches(a: &Constant, b: &Constant) -> (same: bool)
    ensures
        same == same_constant(a@, b@),
{
    match (a, b) {
        (Constant::Null, Constant::Null) => true,
        (Constant::Integer(x), Constant::Integer(y)) => *x == *y,
        (Constant::Float(x), Constant::Float(y)) => bits_equal(*x, *y),
        (Constant::String(x), Constant::String(y)) => *x == *y,
        _ => false,
    }
}

impl CodeBuilder {
    /// A builder that has emitted nothing, for a function of `parameters`
    /// parameters.
    pub fn new(parameters: usize) -> (builder: Self)
        ensures
            builder@ == CodeModel::empty(parameters),
            builder@.well_formed(),
    {
        let builder = Self {
            instructions: Vec::new(),
            constants: Vec::new(),
            names: Vec::new(),
            parameters,
        };
        assert(builder@.instructions =~= Seq::<Instruction>::empty());
        assert(builder@.constants =~= Seq::<ConstantModel>::empty());
        assert(builder@.names =~= Seq::<Seq<char>>::empty());
        builder
    }

    /// Interns `name`: the position of its first occurrence in the name pool,
    /// appending it when the pool does not hold it yet.
    fn use_name(&mut self, name: &String) -> (index: NameIndex)
        ensures
            final(self)@ == old(self)@.use_name(name@),
            index == old(self)@.name_index(name@),
            index < final(self)@.names.len(),
            old(self)@.extended_by(final(self)@),
            old(self)@.well_formed() ==> final(self)@.well_formed(),
    {
        let mut i: usize = 0;
        while i < self.names.len()
            invariant
                i <= self.names.len(),
                *self == *old(self),
                find_name(self@.names, name@, 0) == find_name(self@.names, name@, i as int),
            decreases self.names.len() - i,
        {
            if self.names[i] == *name {
                return i;
            }
            i += 1;
        }
        self.names.push(name.clone());
        assert(self@.names =~= old(self)@.names.push(name@));
        i
    }

    /// Interns `constant`: the position of the first equal constant in the
    /// pool, appending it when the pool holds none.
    fn use_constant(&mut self, constant: Constant) -> (index: ConstantIndex)
        ensures
            final(self)@ == old(self)@.use_constant(constant@),
            index == old(self)@.constant_index(constant@),
            index < final(self)@.constants.len(),
            old(self)@.extended_by(final(self)@),
            old(self)@.well_formed() && (constant@ matches ConstantModel::Code(inner)
                ==> inner.well_formed()) ==> final(self)@.well_formed(),
    {
        let mut i: usize = 0;
        while i < self.constants.len()
            invariant
                i <= self.constants.len(),
                *self == *old(self),
                find_constant(self@.constants, constant@, 0) == find_constant(
                    self@.constants,
                    constant@,
                    i as int,
                ),
            decreases self.constants.len() - i,
        {
            if constant_matches(&self.constants[i], &constant) {
                return i;
            }
            i += 1;
        }
        self.constants.push(constant);
        assert(self@.constants =~= old(self)@.constants.push(constant@));
        proof {
            if old(self)@.well_formed() && (constant@ matches ConstantModel::Code(inner)
                ==> inner.well_formed()) {
                assert forall|k: int| 0 <= k < self@.constants.len() implies (
                #[trigger] self@.constants[k] matches ConstantModel::Code(inner)
                    ==> inner.well_formed()) by {
                    if k < old(self)@.constants.len() {
                        assert(self@.constants[k] == old(self)@.constants[k]);
                    }
                }
                assert forall|k: int| 0 <= k < self@.instructions.len() implies (
                #[trigger] self@.instructions[k]).in_range(
                    self@.instructions.len(),
                    self@.constants.len(),
                    self@.names.len(),
                ) by {
                    assert(self@.instructions[k] == old(self)@.instructions[k]);
                }
                assert(self@.well_formed());
            }
        }
        i
    }

    /// Emits `instruction` and returns its address.
    fn inst(&mut self, instruction: Instruction) -> (address: usize)
        ensures
            final(self)@ == old(self)@.emit(instruction),
            address == old(self)@.instructions.len(),
            old(self)@.extended_by(final(self)@),
            old(self)@.well_formed() && instruction.in_range(
                old(self)@.instructions.len() + 1,
                old(self)@.constants.len(),
                old(self)@.names.len(),
            ) ==> final(self)@.well_formed(),
    {
        self.instructions.push(instruction);
        self.instructions.len() - 1
    }

    /// Replaces the instruction at `address`.
    fn patch(&mut self, address: usize, instruction: Instruction)
        requires
            address < old(self)@.instructions.len(),
        ensures
            final(self)@ == old(self)@.patch(address as int, instruction),
            old(self)@.well_formed() && instruction.in_range(
                old(self)@.instructions.len(),
                old(self)@.constants.len(),
                old(self)@.names.len(),
            ) ==> final(self)@.well_formed(),
    {
        self.instructions.set(address, instruction);
    }

    /// Interns `constant` and emits its load.
    fn compile_constant(&mut self, constant: Constant)
        ensures
            final(self)@ == old(self)@.load_constant(constant@),
            old(self)@.extended_by(final(self)@),
            old(self)@.well_formed() && (constant@ matches ConstantModel::Code(inner)
                ==> inner.well_formed()) ==> final(self)@.well_formed(),
    {
        let index = self.use_constant(constant);
        self.inst(Instruction::LoadConstant(index));
    }

    /// Compiles a module into this builder: every statement in order, then
    /// the exit with status 0. A module that holds an object literal is
    /// rejected and leaves the builder as it was.
    pub fn compile_module(&mut self, module: &Module) -> (done: Result<(), CompileError>)
        ensures
            done is Ok <==> module.supported(),
            done is Ok ==> final(self)@ == old(self)@.module(module.body@),
            done is Err ==> done == Err::<(), CompileError>(CompileError::ObjectLiteral)
                && *final(self) == *old(self),
            old(self)@.extended_by(final(self)@),
            old(self)@.well_formed() ==> final(self)@.well_formed(),
            done is Ok && old(self)@ == CodeModel::empty(old(self)@.parameters) ==> disciplined(
                final(self)@,
            ),
    {
        if !module.is_supported() {
            return Err(CompileError::ObjectLiteral);
        }
        self.compile_block(&module.body);
        self.inst(Instruction::Exit(0));
        proof {
            if old(self)@ == CodeModel::empty(old(self)@.parameters) {
                lemma_builder_fits(*self);
                lemma_module_disciplined(old(self)@.parameters, module.body@);
            }
        }
        Ok(())
    }

    /// Compiles the statements of `body` in order.
    fn compile_block(&mut self, body: &Vec<Statement>)
        requires
            statements_supported(body@),
        ensures
            final(self)@ == old(self)@.block(body@, body@.len() as int),
            old(self)@.extended_by(final(self)@),
            old(self)@.well_formed() ==> final(self)@.well_formed(),
        decreases body, 0nat,
    {
        let mut i: usize = 0;
        while i < body.len()
            invariant
                i <= body.len(),
                statements_supported(body@),
                self@ == old(self)@.block(body@, i as int),
                old(self)@.extended_by(self@),
                old(self)@.well_formed() ==> self@.well_formed(),
            decreases body.len() - i,
        {
            self.compile_statement(&body[i]);
            i += 1;
        }
    }

    /// Compiles a statement: code that leaves the operand stack as it found
    /// it.
    fn compile_statement(&mut self, stmt: &Statement)
        requires
            stmt.supported(),
        ensures
            final(self)@ == old(self)@.statement(*stmt),
            old(self)@.extended_by(final(self)@),
            old(self)@.well_formed() ==> final(self)@.well_formed(),
        decreases stmt, 1nat,
    {
        match stmt {
            Statement::Return(expr) => {
                self.compile_expression(expr);
                self.inst(Instruction::Return);
            },
            Statement::Expression(expr) => {
                self.compile_expression(expr);
                self.inst(Instruction::Pop);
            },
            Statement::Declaration { ident, assign } => {
                if let Some(assign) = assign {
                    self.compile_expression(assign);
                } else {
                    self.compile_constant(Constant::Null);
                }
                let namei = self.use_name(ident);
                self.inst(Instruction::Declare(namei));
            },
            Statement::Assignment { target, source } => self.compile_assignment(stmt),
            Statement::If { cond, body, else_body } => self.compile_if_statement(stmt),
        }
    }

    /// Compiles a binary operation: the right operand first, so that the
    /// left one ends on top of the stack, then the operator.
    fn compile_operation(&mut self, expr: &Expression)
        requires
            expr is Operation,
            expr.supported(),
        ensures
            final(self)@ == old(self)@.expression(*expr),
            old(self)@.extended_by(final(self)@),
            old(self)@.well_formed() ==> final(self)@.well_formed(),
        decreases expr, 0nat,
    {
        if let Expression::Operation { lhs, op, rhs } = expr {
            self.compile_expression(rhs);
            self.compile_expression(lhs);
            let inst = match op {
                Operator::Add => Instruction::Add,
                Operator::Subtract => Instruction::Subtract,
                Operator::Multiply => Instruction::Multiply,
                Operator::Divide => Instruction::Divide,
                Operator::LessThan => Instruction::LessThan,
                Operator::GreaterThan => Instruction::GreaterThan,
                Operator::LessThanOrEqual => Instruction::LessThanOrEqual,
                Operator::GreaterThanOrEqual => Instruction::GreaterThanOrEqual,
                Operator::Equals => Instruction::Equals,
                Operator::NotEquals => Instruction::NotEquals,
            };
            self.inst(inst);
        }
    }

    /// Compiles an assignment: the value first, then what the target needs
    /// on top of it, then the store that the target asks for.
    fn compile_assignment(&mut self, stmt: &Statement)
        requires
            stmt is Assignment,
            stmt.supported(),
        ensures
            final(self)@ == old(self)@.statement(*stmt),
            old(self)@.extended_by(final(self)@),
            old(self)@.well_formed() ==> final(self)@.well_formed(),
        decreases stmt, 0nat,
    {
        if let Statement::Assignment { target, source } = stmt {
            self.compile_expression(source);
            match target {
                AssignmentTarget::Identifier(ident) => {
                    let namei = self.use_name(ident);
                    self.inst(Instruction::StoreVariable(namei));
                },
                AssignmentTarget::Property(expr, property) => {
                    self.compile_expression(expr);
                    let namei = self.use_name(property);
                    self.inst(Instruction::StoreProperty(namei));
                },
                AssignmentTarget::Subscript(expr, subscript) => {
                    self.compile_expression(subscript);
                    self.compile_expression(expr);
                    self.inst(Instruction::StoreSubscript);
                },
            }
        }
    }

    /// Compiles a function literal: its code becomes a constant of its own,
    /// and the emitted instructions turn that constant into a function.
    ///
    /// The code object declares as many parameters as the literal has, and
    /// when no parameter name repeats, those names head its name pool in
    /// declaration order.
    fn compile_function(&mut self, params: &Vec<String>, body: &Vec<Statement>)
        requires
            statements_supported(body@),
        ensures
            final(self)@ == old(self)@.load_constant(
                ConstantModel::Code(function_code(params@, body@)),
            ).emit(Instruction::CreateFunction),
            old(self)@.extended_by(final(self)@),
            old(self)@.well_formed() ==> final(self)@.well_formed(),
            function_code(params@, body@).parameters == params@.len(),
            texts(params@).no_duplicates() ==> head_names(function_code(params@, body@))
                == texts(params@),
        decreases body, 1nat,
    {
        let mut code = CodeBuilder::new(params.len());
        let mut i: usize = 0;
        while i < params.len()
            invariant
                i <= params.len(),
                code@ == CodeModel::empty(params@.len() as usize).parameters_bound(
                    params@,
                    i as int,
                ),
                code@.well_formed(),
                code@.parameters == params@.len(),
                code@.names.len() <= i,
                texts(params@).no_duplicates() ==> code@.names == texts(params@).subrange(
                    0,
                    i as int,
                ),
            decreases params.len() - i,
        {
            proof {
                if texts(params@).no_duplicates() {
                    assert forall|j: int| 0 <= j < code@.names.len() implies code@.names[j]
                        != params@[i as int]@ by {
                        assert(texts(params@)[j] != texts(params@)[i as int]);
                    }
                    lemma_find_name_absent(code@.names, params@[i as int]@, 0);
                }
            }
            code.use_name(&params[i]);
            i += 1;
            assert(texts(params@).no_duplicates() ==> code@.names =~= texts(params@).subrange(
                0,
                i as int,
            ));
        }
        let ghost bound = code@;
        code.compile_block(body);
        code.compile_constant(Constant::Null);
        code.inst(Instruction::Return);
        proof {
            assert(code@ == function_code(params@, body@));
            if texts(params@).no_duplicates() {
                assert(texts(params@).subrange(0, params@.len() as int) =~= texts(params@));
                assert(head_names(code@) =~= texts(params@));
            }
        }
        self.compile_constant(Constant::Code(code));
        self.inst(Instruction::CreateFunction);
    }

    /// Compiles a call: the arguments, the last one first, then the callee,
    /// then the call.
    fn compile_call(&mut self, expr: &Expression)
        requires
            expr is FunctionCall,
            expr.supported(),
        ensures
            final(self)@ == old(self)@.expression(*expr),
            old(self)@.extended_by(final(self)@),
            old(self)@.well_formed() ==> final(self)@.well_formed(),
        decreases expr, 0nat,
    {
        if let Expression::FunctionCall { target, args } = expr {
            self.compile_reversed(args);
            self.compile_expression(target);
            self.inst(Instruction::Call(args.len()));
        }
    }

    /// Compiles an expression: code that leaves the value of the expression
    /// on top of the operand stack.
    fn compile_expression(&mut self, expr: &Expression)
        requires
            expr.supported(),
        ensures
            final(self)@ == old(self)@.expression(*expr),
            old(self)@.extended_by(final(self)@),
            old(self)@.well_formed() ==> final(self)@.well_formed(),
        decreases expr, 1nat,
    {
        match expr {
            Expression::Operation { lhs, op, rhs } => self.compile_operation(expr),
            Expression::Integer(value) => self.compile_constant(Constant::Integer(*value)),
            Expression::Float(bits) => self.compile_constant(Constant::Float(*bits)),
            Expression::String(text) => self.compile_constant(Constant::String(text.clone())),
            Expression::Function { params, body } => self.compile_function(params, body),
            Expression::FunctionCall { target, args } => self.compile_call(expr),
            Expression::Subscript(expr, subscript) => {
                self.compile_expression(subscript);
                self.compile_expression(expr);
                self.inst(Instruction::LoadSubscript);
            },
            Expression::Property(expr, property) => {
                self.compile_expression(expr);
                let namei = self.use_name(property);
                self.inst(Instruction::LoadProperty(namei));
            },
            Expression::Object(_items) => {},
            Expression::List(items) => self.compile_list(items),
            Expression::Identifier(ident) => {
                let namei = self.use_name(ident);
                self.inst(Instruction::LoadVariable(namei));
            },
        }
    }

    /// Compiles the expressions of `items`, the last one first, so that the
    /// first one ends on top of the operand stack.
    fn compile_reversed(&mut self, items: &Vec<Expression>)
        requires
            expressions_supported(items@),
        ensures
            final(self)@ == old(self)@.reversed(items@, items@.len() as int),
            old(self)@.extended_by(final(self)@),
            old(self)@.well_formed() ==> final(self)@.well_formed(),
        decreases items, 0nat,
    {
        let mut i: usize = items.len();
        while i > 0
            invariant
                i <= items.len(),
                expressions_supported(items@),
                self@ == old(self)@.reversed(items@, items@.len() - i),
                old(self)@.extended_by(self@),
                old(self)@.well_formed() ==> self@.well_formed(),
            decreases i,
        {
            i -= 1;
            self.compile_expression(&items[i]);
        }
    }

    /// Compiles a list literal: the items, the last one first, then the
    /// instruction that collects them.
    fn compile_list(&mut self, items: &Vec<Expression>)
        requires
            expressions_supported(items@),
        ensures
            final(self)@ == old(self)@.reversed(items@, items@.len() as int).emit(
                Instruction::CreateList(items@.len() as usize),
            ),
            old(self)@.extended_by(final(self)@),
            old(self)@.well_formed() ==> final(self)@.well_formed(),
        decreases items, 1nat,
    {
        self.compile_reversed(items);
        self.inst(Instruction::CreateList(items.len()));
    }

    /// Compiles a conditional. A jump goes to the last instruction before the
    /// place where execution is to go on, since the program counter moves on
    /// after every instruction: the jump over the then-branch to the last
    /// instruction written before the else-branch, or to the last one of the
    /// then-branch where there is no else-branch, and the jump over the
    /// else-branch to its last instruction.
    fn compile_if_statement(&mut self, stmt: &Statement)
        requires
            stmt is If,
            stmt.supported(),
        ensures
            final(self)@ == old(self)@.statement(*stmt),
            old(self)@.extended_by(final(self)@),
            old(self)@.well_formed() ==> final(self)@.well_formed(),
        decreases stmt, 0nat,
    {
        if let Statement::If { cond, body, else_body } = stmt {
            self.compile_expression(cond);
            // If false skip over block
            let label_start = self.inst(Instruction::JumpFalse(0));
            self.compile_block(body);
            if else_body.len() > 0 {
                let label_else = self.inst(Instruction::Jump(0));
                self.compile_block(else_body);
                let label_else_end = self.instructions.len();
                self.patch(label_else, Instruction::Jump(label_else_end - 1));
                self.patch(label_start, Instruction::JumpFalse(label_else));
            } else {
                let label_end = self.instructions.len();
                self.patch(label_start, Instruction::JumpFalse(label_end - 1));
            }
        }
    }
}

/// The names at the head of a code object's name pool, one for each
/// parameter it declares.
pub open spec fn head_names(code: CodeModel) -> Seq<Seq<char>> {
    code.names.subrange(0, code.parameters as int)
}

/// A name that the pool does not hold from `from` on is found at the pool's
/// end.
proof fn lemma_find_name_absent(names: Seq<Seq<char>>, name: Seq<char>, from: int)
    requires
        0 <= from <= names.len(),
        forall|j: int| from <= j < names.len() ==> names[j] != name,
    ensures
        find_name(names, name, from) == names.len(),
    decreases names.len() - from,
{
    if from < names.len() {
        lemma_find_name_absent(names, name, from + 1);
    }
}

/// The search for a name starting at `from` ends at the first position that
/// holds it, or at the pool's end.
proof fn lemma_find_name(names: Seq<Seq<char>>, name: Seq<char>, from: int)
    requires
        0 <= from <= names.len(),
    ensures
        from <= find_name(names, name, from) <= names.len(),
        find_name(names, name, from) < names.len() ==> names[find_name(names, name, from)]
            == name,
        forall|j: int| from <= j < find_name(names, name, from) ==> names[j] != name,
    decreases names.len() - from,
{
    if from < names.len() && names[from] != name {
        lemma_find_name(names, name, from + 1);
    }
}

/// A position that holds the name, with no earlier one from `from` on, is
/// where the search ends.
proof fn lemma_find_name_at(names: Seq<Seq<char>>, name: Seq<char>, from: int, at: int)
    requires
        0 <= from <= at < names.len(),
        names[at] == name,
        forall|j: int| from <= j < at ==> names[j] != name,
    ensures
        find_name(names, name, from) == at,
    decreases at - from,
{
    if from < at {
        lemma_find_name_at(names, name, from + 1, at);
    }
}

/// The search for a constant starting at `from` ends at the first position
/// that holds an equal one, or at the pool's end.
proof fn lemma_find_constant(constants: Seq<ConstantModel>, constant: ConstantModel, from: int)
    requires
        0 <= from <= constants.len(),
    ensures
        from <= find_constant(constants, constant, from) <= constants.len(),
        find_constant(constants, constant, from) < constants.len() ==> same_constant(
            constants[find_constant(constants, constant, from)],
            constant,
        ),
        forall|j: int|
            from <= j < find_constant(constants, constant, from) ==> !same_constant(
                constants[j],
                constant,
            ),
    decreases constants.len() - from,
{
    if from < constants.len() && !same_constant(constants[from], constant) {
        lemma_find_constant(constants, constant, from + 1);
    }
}

/// The search ends at `at` when no position from `from` up to `at` holds an
/// equal constant and `at` is the pool's end or holds one.
proof fn lemma_find_constant_at(
    constants: Seq<ConstantModel>,
    constant: ConstantModel,
    from: int,
    at: int,
)
    requires
        0 <= from <= at <= constants.len(),
        at < constants.len() ==> same_constant(constants[at], constant),
        forall|j: int| from <= j < at ==> !same_constant(constants[j], constant),
    ensures
        find_constant(constants, constant, from) == at,
    decreases at - from,
{
    if from < at {
        lemma_find_constant_at(constants, constant, from + 1, at);
    }
}

/// Two constants that pooling takes for the same are taken for the same as
/// any third one together.
pub proof fn lemma_same_constant_congruent(a: ConstantModel, b: ConstantModel, c: ConstantModel)
    requires
        same_constant(a, b),
    ensures
        same_constant(c, a) == same_constant(c, b),
{
    if let ConstantModel::Float(x) = a {
        if let ConstantModel::Float(y) = b {
            if let ConstantModel::Float(z) = c {
                lemma_float_eq_congruent(x, y, z);
            }
        }
    }
}

/// Interning a name a second time yields the position that the first
/// interning gave, and leaves the pool as the first left it.
pub proof fn lemma_use_name_twice(code: CodeModel, name: Seq<char>)
    ensures
        code.use_name(name).name_index(name) == code.name_index(name),
        code.use_name(name).use_name(name) == code.use_name(name),
        code.name_index(name) < code.use_name(name).names.len(),
{
    lemma_find_name(code.names, name, 0);
    let first = code.name_index(name);
    let pooled = code.use_name(name).names;
    if first < code.names.len() {
    } else {
        assert(pooled[first] == name);
        lemma_find_name_at(pooled, name, 0, first);
    }
}

/// Interning a constant, and then one that pooling takes for the same,
/// yields the same position twice, and the second interning leaves the pool
/// as the first left it.
pub proof fn lemma_use_constant_twice(code: CodeModel, first: ConstantModel, second: ConstantModel)
    requires
        same_constant(first, second),
    ensures
        code.use_constant(first).constant_index(second) == code.constant_index(first),
        code.use_constant(first).use_constant(second) == code.use_constant(first),
        code.constant_index(first) < code.use_constant(first).constants.len(),
{
    lemma_find_constant(code.constants, first, 0);
    let at = code.constant_index(first);
    let pooled = code.use_constant(first).constants;
    assert forall|j: int| 0 <= j < at implies !same_constant(pooled[j], second) by {
        lemma_same_constant_congruent(first, second, pooled[j]);
    }
    if at < code.constants.len() {
        lemma_same_constant_congruent(first, second, pooled[at]);
    } else {
        assert(pooled[at] == first);
    }
    lemma_find_constant_at(pooled, second, 0, at);
}

/// In `heap`, `value` is the constant `constant`: a scalar is itself, text
/// is a string with that text, and code is a code object built from that
/// code.
pub open spec fn constant_built(heap: &Heap, value: Value, constant: ConstantModel) -> bool
    decreases constant,
{
    match constant {
        ConstantModel::Null => value == Value::Null,
        ConstantModel::Integer(i) => value == Value::Integer(i),
        ConstantModel::Float(bits) => value == Value::Float(bits),
        ConstantModel::String(text) => value matches Value::String(ptr) && heap.text(ptr) == Some(
            text,
        ),
        ConstantModel::Code(inner) => value matches Value::Code(ptr) && ptr.live(heap.codes@)
            && code_built(heap, heap.codes@[ptr@]@, inner),
    }
}

/// In `heap`, `code` is the code object built from `model`: the same
/// instructions and parameter count, names with the same texts, and
/// constants that are the model's constants, position by position.
pub open spec fn code_built(heap: &Heap, code: CodeView, model: CodeModel) -> bool
    decreases model,
{
    &&& code.instructions == model.instructions
    &&& code.parameters == model.parameters
    &&& code.names.len() == model.names.len()
    &&& forall|i: int|
        0 <= i < model.names.len() ==> heap.text(#[trigger] code.names[i]) == Some(model.names[i])
    &&& code.constants.len() == model.constants.len()
    &&& forall|i: int|
        0 <= i < model.constants.len() ==> constant_built(
            heap,
            #[trigger] code.constants[i],
            model.constants[i],
        )
}

/// What was built in a heap stays built as the heap grows.
pub proof fn lemma_constant_built_stable(
    heap: &Heap,
    later: &Heap,
    value: Value,
    constant: ConstantModel,
)
    requires
        constant_built(heap, value, constant),
        heap.extended_by(later),
    ensures
        constant_built(later, value, constant),
    decreases constant, 0nat,
{
    if let ConstantModel::Code(inner) = constant {
        if let Value::Code(ptr) = value {
            lemma_code_built_stable(heap, later, heap.codes@[ptr@]@, inner);
        }
    }
}

/// What was built in a heap stays built as the heap grows.
pub proof fn lemma_code_built_stable(heap: &Heap, later: &Heap, code: CodeView, model: CodeModel)
    requires
        code_built(heap, code, model),
        heap.extended_by(later),
    ensures
        code_built(later, code, model),
    decreases model, 1nat,
{
    assert forall|i: int| 0 <= i < model.constants.len() implies constant_built(
        later,
        #[trigger] code.constants[i],
        model.constants[i],
    ) by {
        lemma_constant_built_stable(heap, later, code.constants[i], model.constants[i]);
    }
}

/// Code built from a model whose operands stay in range has operands that
/// stay in range.
proof fn lemma_built_in_range(heap: &Heap, code: CodeView, model: CodeModel)
    requires
        code_built(heap, code, model),
        model.well_formed(),
    ensures
        code.in_range(),
{
}

/// The addresses of code under construction fit the operand of a jump.
pub proof fn lemma_builder_fits(builder: CodeBuilder)
    ensures
        fits(builder@),
    decreases builder,
{
    assert(builder@.instructions.len() == builder.instructions.len());
    assert forall|k: int| 0 <= k < builder@.constants.len() implies (
    #[trigger] builder@.constants[k] matches ConstantModel::Code(inner) ==> fits(inner)) by {
        if let Constant::Code(inner) = builder.constants@[k] {
            lemma_builder_fits(inner);
        }
    }
}

/// Every code object that `later` holds and `earlier` does not is
/// balanced.
pub open spec fn adds_balanced(earlier: &Heap, later: &Heap) -> bool {
    forall|i: int|
        earlier.codes@.len() <= i < later.codes@.len() ==> balanced(
            (#[trigger] later.codes@[i])@.instructions,
        )
}

/// Turns the code under construction in `builder` into a code object,
/// allocating its text and its nested code objects in `heap`.
fn assemble(builder: &CodeBuilder, heap: &mut Heap) -> (code: Code)
    ensures
        code_built(final(heap), code@, builder@),
        old(heap).extended_by(final(heap)),
        final(heap).same_runtime(old(heap)),
        disciplined(builder@) ==> balanced(code@.instructions) && adds_balanced(
            old(heap),
            final(heap),
        ),
    decreases builder,
{
    let mut constants: Vec<Value> = Vec::new();
    let mut i: usize = 0;
    while i < builder.constants.len()
        invariant
            i <= builder.constants@.len(),
            constants@.len() == i,
            forall|j: int|
                0 <= j < i ==> constant_built(heap, #[trigger] constants@[j], builder@.constants[j]),
            old(heap).extended_by(heap),
            heap.same_runtime(old(heap)),
            disciplined(builder@) ==> adds_balanced(old(heap), heap),
        decreases builder.constants.len() - i,
    {
        let ghost before = *heap;
        let ghost built = constants@;
        let value = match &builder.constants[i] {
            Constant::Null => Value::Null,
            Constant::Integer(value) => Value::Integer(*value),
            Constant::Float(bits) => Value::Float(*bits),
            Constant::String(text) => Value::String(Ptr::new(&mut heap.strings, text.clone())),
            Constant::Code(inner) => {
                let code = assemble(inner, heap);
                let ghost assembled = *heap;
                let ghost view = code@;
                let ptr = Ptr::new(&mut heap.codes, code);
                proof {
                    lemma_code_built_stable(&assembled, heap, view, inner@);
                    if disciplined(builder@) {
                        assert(builder@.constants[i as int] == ConstantModel::Code(inner@));
                        assert forall|j: int|
                            old(heap).codes@.len() <= j < heap.codes@.len() implies balanced(
                            (#[trigger] heap.codes@[j])@.instructions,
                        ) by {
                            if j < before.codes@.len() {
                                assert(heap.codes@[j] == before.codes@[j]);
                            } else if j < assembled.codes@.len() {
                                assert(heap.codes@[j] == assembled.codes@[j]);
                            }
                        }
                    }
                }
                Value::Code(ptr)
            },
        };
        constants.push(value);
        assert forall|j: int| 0 <= j <= i implies constant_built(
            heap,
            #[trigger] constants@[j],
            builder@.constants[j],
        ) by {
            if j < i {
                lemma_constant_built_stable(&before, heap, built[j], builder@.constants[j]);
            }
        }
        i += 1;
    }
    let ghost pooled = *heap;
    let mut names: Vec<Ptr<String>> = Vec::new();
    let mut k: usize = 0;
    while k < builder.names.len()
        invariant
            k <= builder.names@.len(),
            names@.len() == k,
            forall|j: int|
                0 <= j < k ==> heap.text(#[trigger] names@[j]) == Some(builder@.names[j]),
            pooled.extended_by(heap),
            old(heap).extended_by(heap),
            heap.same_runtime(old(heap)),
            heap.codes == pooled.codes,
        decreases builder.names.len() - k,
    {
        names.push(Ptr::new(&mut heap.strings, builder.names[k].clone()));
        k += 1;
    }
    let mut instructions: Vec<Instruction> = Vec::new();
    let mut n: usize = 0;
    while n < builder.instructions.len()
        invariant
            n <= builder.instructions@.len(),
            instructions@ == builder.instructions@.subrange(0, n as int),
        decreases builder.instructions.len() - n,
    {
        instructions.push(builder.instructions[n]);
        assert(instructions@ =~= builder.instructions@.subrange(0, n + 1));
        n += 1;
    }
    assert(instructions@ =~= builder.instructions@);
    proof {
        assert forall|j: int| 0 <= j < builder@.constants.len() implies constant_built(
            heap,
            #[trigger] constants@[j],
            builder@.constants[j],
        ) by {
            lemma_constant_built_stable(&pooled, heap, constants@[j], builder@.constants[j]);
        }
    }
    Code::new(instructions, constants, names, builder.parameters)
}

impl CodeBuilder {
    /// Turns what was compiled into a code object, allocating its text and
    /// the code objects of its function literals in `heap`. The heap only
    /// grows, and only by text and code.
    pub fn build(self, heap: &mut Heap) -> (code: Code)
        ensures
            code_built(final(heap), code@, self@),
            self@.well_formed() ==> code@.in_range(),
            disciplined(self@) ==> balanced(code@.instructions) && adds_balanced(
                old(heap),
                final(heap),
            ),
            old(heap).extended_by(final(heap)),
            final(heap).same_runtime(old(heap)),
    {
        let code = assemble(&self, heap);
        proof {
            if self@.well_formed() {
                lemma_built_in_range(heap, code@, self@);
            }
        }
        code
    }
}

} // verus!
