//! The built-in types: the root type `object` and the types that derive
//! from it, each with the slots it fills.

use crate::float::{Arithmetic, Comparison};
use crate::heap::Heap;
use crate::ptr::Ptr;
use crate::value::{ArgPattern, NativeFunction, Object, Slot, Type, Value};
use vstd::prelude::*;
use vstd::string::StringExecFns;

verus! {

/// The handles of the built-in types.
#[derive(Debug, Clone, Copy)]
pub struct BuiltinTypes {
    pub string: Ptr<Type>,
    pub float: Ptr<Type>,
    pub list: Ptr<Type>,
    pub integer: Ptr<Type>,
    pub bool: Ptr<Type>,
    pub function: Ptr<Type>,
    pub frame: Ptr<Type>,
    pub native: Ptr<Type>,
    pub code: Ptr<Type>,
    pub object: Ptr<Type>,
    pub null: Ptr<Type>,
    pub ty: Ptr<Type>,
}

/// The built-in types, by what their values are.
#[derive(Debug, Clone, Copy, PartialEq, Eq, Structural)]
pub enum Kind {
    Object,
    String,
    List,
    Float,
    Bool,
    Integer,
    Frame,
    Native,
    Function,
    Code,
    Null,
    Type,
}

/// A slot filled with the built-in function `function` of `arity` arguments.
pub open spec fn filled(function: NativeFunction, arity: usize) -> Option<Value> {
    Some(Value::Native(function, ArgPattern::Exact(arity)))
}

/// The slots of a numeric type whose built-in functions are made by
/// `display`, `arithmetic` and `comparison`.
pub open spec fn numeric_slots(
    display: NativeFunction,
    arithmetic: spec_fn(Arithmetic) -> NativeFunction,
    comparison: spec_fn(Comparison) -> NativeFunction,
    slot: Slot,
) -> Option<Value> {
    match slot {
        Slot::Display => filled(display, 1),
        Slot::Add => filled(arithmetic(Arithmetic::Add), 2),
        Slot::Subtract => filled(arithmetic(Arithmetic::Subtract), 2),
        Slot::Multiply => filled(arithmetic(Arithmetic::Multiply), 2),
        Slot::Divide => filled(arithmetic(Arithmetic::Divide), 2),
        Slot::LessThan => filled(comparison(Comparison::LessThan), 2),
        Slot::GreaterThan => filled(comparison(Comparison::GreaterThan), 2),
        Slot::LessThanOrEqual => filled(comparison(Comparison::LessThanOrEqual), 2),
        Slot::GreaterThanOrEqual => filled(comparison(Comparison::GreaterThanOrEqual), 2),
        _ => None,
    }
}

impl Kind {
    /// The name of the built-in type.
    pub open spec fn name(self) -> Seq<char> {
        match self {
            Kind::Object => "object"@,
            Kind::String => "str"@,
            Kind::List => "list"@,
            Kind::Float => "float"@,
            Kind::Bool => "bool"@,
            Kind::Integer => "int"@,
            Kind::Frame => "Frame"@,
            Kind::Native => "NativeFunction"@,
            Kind::Function => "function"@,
            Kind::Code => "Code"@,
            Kind::Null => "null"@,
            Kind::Type => "object"@,
        }
    }

    /// What the built-in type holds in `slot`. The root type supplies the
    /// defaults for display, equality and property access; every other type
    /// displays itself in its own way, and text, lists and numbers fill the
    /// operators that apply to them.
    pub open spec fn slot(self, slot: Slot) -> Option<Value> {
        match self {
            Kind::Object => match slot {
                Slot::Display => filled(NativeFunction::ObjectDisplay, 1),
                Slot::Equals => filled(NativeFunction::Equals, 2),
                Slot::NotEquals => filled(NativeFunction::NotEquals, 2),
                Slot::GetProperty => filled(NativeFunction::GetProperty, 2),
                Slot::SetProperty => filled(NativeFunction::SetProperty, 3),
                _ => None,
            },
            Kind::String => match slot {
                Slot::Display => filled(NativeFunction::StringDisplay, 1),
                Slot::Add => filled(NativeFunction::StringAdd, 2),
                _ => None,
            },
            Kind::List => match slot {
                Slot::Display => filled(NativeFunction::ListDisplay, 1),
                Slot::GetSubscript => filled(NativeFunction::ListGetSubscript, 2),
                Slot::SetSubscript => filled(NativeFunction::ListSetSubscript, 3),
                Slot::Add => filled(NativeFunction::ListAdd, 2),
                _ => None,
            },
            Kind::Integer => numeric_slots(
                NativeFunction::IntegerDisplay,
                |op: Arithmetic| NativeFunction::IntegerArithmetic(op),
                |op: Comparison| NativeFunction::IntegerComparison(op),
                slot,
            ),
            Kind::Float => numeric_slots(
                NativeFunction::FloatDisplay,
                |op: Arithmetic| NativeFunction::FloatArithmetic(op),
                |op: Comparison| NativeFunction::FloatComparison(op),
                slot,
            ),
            _ => match slot {
                Slot::Display => filled(self.tag(), 1),
                _ => None,
            },
        }
    }

    /// The type fills only its display slot.
    pub open spec fn is_tagged(self) -> bool {
        match self {
            Kind::Bool
            | Kind::Frame
            | Kind::Native
            | Kind::Function
            | Kind::Code
            | Kind::Null
            | Kind::Type => true,
            _ => false,
        }
    }

    /// The built-in function that displays values of a type that has no
    /// notation of its own.
    pub open spec fn tag(self) -> NativeFunction {
        match self {
            Kind::Bool => NativeFunction::BoolDisplay,
            Kind::Frame => NativeFunction::FrameDisplay,
            Kind::Native => NativeFunction::NativeDisplay,
            Kind::Function => NativeFunction::FunctionDisplay,
            Kind::Code => NativeFunction::CodeDisplay,
            Kind::Null => NativeFunction::NullDisplay,
            _ => NativeFunction::TypeDisplay,
        }
    }

    /// The properties that values of the built-in type share: lists have
    /// the method `push`.
    pub open spec fn properties(self) -> Map<Seq<char>, Value> {
        match self {
            Kind::List => Map::<Seq<char>, Value>::empty().insert(
                "push"@,
                Value::Native(NativeFunction::ListPush, ArgPattern::Exact(2)),
            ),
            _ => Map::<Seq<char>, Value>::empty(),
        }
    }
}

/// In `heap`, `ty` names the built-in type `kind`, deriving from `base`.
pub open spec fn defines(heap: &Heap, ty: Ptr<Type>, kind: Kind, base: Option<Ptr<Type>>) -> bool {
    &&& ty.live(heap.types@)
    &&& heap.text(heap.types@[ty@].name) == Some(kind.name())
    &&& heap.types@[ty@].base == base
    &&& forall|slot: Slot| #[trigger] heap.types@[ty@].spec_slot(slot) == kind.slot(slot)
    &&& heap.types@[ty@].properties@ == kind.properties()
}

/// `after` is `before` with one more type, named by `ty`, and one more
/// text; nothing else differs.
pub open spec fn adds_type(before: &Heap, after: &Heap, ty: Ptr<Type>) -> bool {
    &&& ty@ == before.types@.len()
    &&& after.types@.len() == before.types@.len() + 1
    &&& after.strings@.len() == before.strings@.len() + 1
    &&& before.extended_by(after)
    &&& after.same_data(before)
}

impl BuiltinTypes {
    /// Every built-in type is in `heap` as the language defines it: the
    /// root type `object` derives from nothing and every other type derives
    /// from it.
    pub open spec fn installed(self, heap: &Heap) -> bool {
        let base = Some(self.object);
        &&& defines(heap, self.object, Kind::Object, None)
        &&& defines(heap, self.string, Kind::String, base)
        &&& defines(heap, self.list, Kind::List, base)
        &&& defines(heap, self.float, Kind::Float, base)
        &&& defines(heap, self.bool, Kind::Bool, base)
        &&& defines(heap, self.integer, Kind::Integer, base)
        &&& defines(heap, self.frame, Kind::Frame, base)
        &&& defines(heap, self.native, Kind::Native, base)
        &&& defines(heap, self.function, Kind::Function, base)
        &&& defines(heap, self.code, Kind::Code, base)
        &&& defines(heap, self.null, Kind::Null, base)
        &&& defines(heap, self.ty, Kind::Type, base)
    }

    /// Creates the built-in types in `heap`, the root type first.
    pub fn new(heap: &mut Heap) -> (types: Self)
        ensures
            types.installed(final(heap)),
            old(heap).extended_by(final(heap)),
            final(heap).same_data(old(heap)),
    {
        let object_ty = object_ty(heap);
        let string = string_ty(heap, object_ty);
        let list = list_ty(heap, object_ty);
        let float = float_ty(heap, object_ty);
        let bool = bool_ty(heap, object_ty);
        let integer = integer_ty(heap, object_ty);
        let frame = frame_ty(heap, object_ty);
        let native = native_ty(heap, object_ty);
        let function = function_ty(heap, object_ty);
        let code = code_ty(heap, object_ty);
        let null = null_ty(heap, object_ty);
        let ty = ty_ty(heap, object_ty);
        Self {
            object: object_ty,
            string,
            list,
            float,
            bool,
            integer,
            frame,
            native,
            function,
            code,
            null,
            ty,
        }
    }
}

/// The type of text: displays as itself and concatenates.
fn string_ty(heap: &mut Heap, base: Ptr<Type>) -> (ptr: Ptr<Type>)
    ensures
        adds_type(old(heap), final(heap), ptr),
        defines(final(heap), ptr, Kind::String, Some(base)),
{
    let mut ty = Type::new(Ptr::new(&mut heap.strings, String::from_str("str")), base);
    ty.display = Some(Value::Native(NativeFunction::StringDisplay, ArgPattern::Exact(1)));
    ty.add = Some(Value::Native(NativeFunction::StringAdd, ArgPattern::Exact(2)));
    Ptr::new(&mut heap.types, ty)
}

/// The type of lists: displays its items, reads and writes by integer
/// subscript, concatenates, and has the method `push`.
fn list_ty(heap: &mut Heap, base: Ptr<Type>) -> (ptr: Ptr<Type>)
    ensures
        adds_type(old(heap), final(heap), ptr),
        defines(final(heap), ptr, Kind::List, Some(base)),
{
    let mut ty = Type::new(Ptr::new(&mut heap.strings, String::from_str("list")), base);
    ty.display = Some(Value::Native(NativeFunction::ListDisplay, ArgPattern::Exact(1)));
    ty.get_subscript = Some(Value::Native(NativeFunction::ListGetSubscript, ArgPattern::Exact(2)));
    ty.set_subscript = Some(Value::Native(NativeFunction::ListSetSubscript, ArgPattern::Exact(3)));
    ty.add = Some(Value::Native(NativeFunction::ListAdd, ArgPattern::Exact(2)));
    ty.properties.insert(
        String::from_str("push"),
        Value::Native(NativeFunction::ListPush, ArgPattern::Exact(2)),
    );
    Ptr::new(&mut heap.types, ty)
}

/// The type of integers: arithmetic, order and decimal display.
fn integer_ty(heap: &mut Heap, base: Ptr<Type>) -> (ptr: Ptr<Type>)
    ensures
        adds_type(old(heap), final(heap), ptr),
        defines(final(heap), ptr, Kind::Integer, Some(base)),
{
    let mut ty = Type::new(Ptr::new(&mut heap.strings, String::from_str("int")), base);
    let two = ArgPattern::Exact(2);
    ty.display = Some(Value::Native(NativeFunction::IntegerDisplay, ArgPattern::Exact(1)));
    ty.add = Some(Value::Native(NativeFunction::IntegerArithmetic(Arithmetic::Add), two));
    ty.subtract = Some(Value::Native(NativeFunction::IntegerArithmetic(Arithmetic::Subtract), two));
    ty.divide = Some(Value::Native(NativeFunction::IntegerArithmetic(Arithmetic::Divide), two));
    ty.multiply = Some(Value::Native(NativeFunction::IntegerArithmetic(Arithmetic::Multiply), two));
    ty.less_than = Some(Value::Native(NativeFunction::IntegerComparison(Comparison::LessThan), two));
    ty.greater_than = Some(
        Value::Native(NativeFunction::IntegerComparison(Comparison::GreaterThan), two),
    );
    ty.less_than_or_equal = Some(
        Value::Native(NativeFunction::IntegerComparison(Comparison::LessThanOrEqual), two),
    );
    ty.greater_than_or_equal = Some(
        Value::Native(NativeFunction::IntegerComparison(Comparison::GreaterThanOrEqual), two),
    );
    Ptr::new(&mut heap.types, ty)
}

/// The type of binary64 numbers: arithmetic, order and decimal display.
fn float_ty(heap: &mut Heap, base: Ptr<Type>) -> (ptr: Ptr<Type>)
    ensures
        adds_type(old(heap), final(heap), ptr),
        defines(final(heap), ptr, Kind::Float, Some(base)),
{
    let mut ty = Type::new(Ptr::new(&mut heap.strings, String::from_str("float")), base);
    let two = ArgPattern::Exact(2);
    ty.display = Some(Value::Native(NativeFunction::FloatDisplay, ArgPattern::Exact(1)));
    ty.add = Some(Value::Native(NativeFunction::FloatArithmetic(Arithmetic::Add), two));
    ty.subtract = Some(Value::Native(NativeFunction::FloatArithmetic(Arithmetic::Subtract), two));
    ty.divide = Some(Value::Native(NativeFunction::FloatArithmetic(Arithmetic::Divide), two));
    ty.multiply = Some(Value::Native(NativeFunction::FloatArithmetic(Arithmetic::Multiply), two));
    ty.less_than = Some(Value::Native(NativeFunction::FloatComparison(Comparison::LessThan), two));
    ty.greater_than = Some(
        Value::Native(NativeFunction::FloatComparison(Comparison::GreaterThan), two),
    );
    ty.less_than_or_equal = Some(
        Value::Native(NativeFunction::FloatComparison(Comparison::LessThanOrEqual), two),
    );
    ty.greater_than_or_equal = Some(
        Value::Native(NativeFunction::FloatComparison(Comparison::GreaterThanOrEqual), two),
    );
    Ptr::new(&mut heap.types, ty)
}

/// Allocates the built-in type `kind`, which derives from `base` and fills
/// only its display slot.
fn tagged_ty(heap: &mut Heap, kind: Kind, base: Ptr<Type>) -> (ptr: Ptr<Type>)
    requires
        kind.is_tagged(),
    ensures
        adds_type(old(heap), final(heap), ptr),
        defines(final(heap), ptr, kind, Some(base)),
{
    let (name, display) = match kind {
        Kind::Bool => ("bool", NativeFunction::BoolDisplay),
        Kind::Frame => ("Frame", NativeFunction::FrameDisplay),
        Kind::Native => ("NativeFunction", NativeFunction::NativeDisplay),
        Kind::Function => ("function", NativeFunction::FunctionDisplay),
        Kind::Code => ("Code", NativeFunction::CodeDisplay),
        Kind::Null => ("null", NativeFunction::NullDisplay),
        _ => ("object", NativeFunction::TypeDisplay),
    };
    let mut ty = Type::new(Ptr::new(&mut heap.strings, String::from_str(name)), base);
    ty.display = Some(Value::Native(display, ArgPattern::Exact(1)));
    Ptr::new(&mut heap.types, ty)
}

/// The type of user functions.
fn function_ty(heap: &mut Heap, base: Ptr<Type>) -> (ptr: Ptr<Type>)
    ensures
        adds_type(old(heap), final(heap), ptr),
        defines(final(heap), ptr, Kind::Function, Some(base)),
{
    tagged_ty(heap, Kind::Function, base)
}

/// The type of booleans.
fn bool_ty(heap: &mut Heap, base: Ptr<Type>) -> (ptr: Ptr<Type>)
    ensures
        adds_type(old(heap), final(heap), ptr),
        defines(final(heap), ptr, Kind::Bool, Some(base)),
{
    tagged_ty(heap, Kind::Bool, base)
}

/// The type of frames.
fn frame_ty(heap: &mut Heap, base: Ptr<Type>) -> (ptr: Ptr<Type>)
    ensures
        adds_type(old(heap), final(heap), ptr),
        defines(final(heap), ptr, Kind::Frame, Some(base)),
{
    tagged_ty(heap, Kind::Frame, base)
}

/// The type of built-in functions.
fn native_ty(heap: &mut Heap, base: Ptr<Type>) -> (ptr: Ptr<Type>)
    ensures
        adds_type(old(heap), final(heap), ptr),
        defines(final(heap), ptr, Kind::Native, Some(base)),
{
    tagged_ty(heap, Kind::Native, base)
}

/// The type of code objects.
fn code_ty(heap: &mut Heap, base: Ptr<Type>) -> (ptr: Ptr<Type>)
    ensures
        adds_type(old(heap), final(heap), ptr),
        defines(final(heap), ptr, Kind::Code, Some(base)),
{
    tagged_ty(heap, Kind::Code, base)
}

/// The type of null.
fn null_ty(heap: &mut Heap, base: Ptr<Type>) -> (ptr: Ptr<Type>)
    ensures
        adds_type(old(heap), final(heap), ptr),
        defines(final(heap), ptr, Kind::Null, Some(base)),
{
    tagged_ty(heap, Kind::Null, base)
}

/// The root type: the defaults for display, equality and property
/// access.
fn object_ty(heap: &mut Heap) -> (ptr: Ptr<Type>)
    ensures
        adds_type(old(heap), final(heap), ptr),
        defines(final(heap), ptr, Kind::Object, None),
{
    let mut ty = Type::root(Ptr::new(&mut heap.strings, String::from_str("object")));
    ty.display = Some(Value::Native(NativeFunction::ObjectDisplay, ArgPattern::Exact(1)));
    ty.equals = Some(Value::Native(NativeFunction::Equals, ArgPattern::Exact(2)));
    ty.not_equals = Some(Value::Native(NativeFunction::NotEquals, ArgPattern::Exact(2)));
    ty.get_property = Some(Value::Native(NativeFunction::GetProperty, ArgPattern::Exact(2)));
    ty.set_property = Some(Value::Native(NativeFunction::SetProperty, ArgPattern::Exact(3)));
    Ptr::new(&mut heap.types, ty)
}

/// The type of types.
fn ty_ty(heap: &mut Heap, base: Ptr<Type>) -> (ptr: Ptr<Type>)
    ensures
        adds_type(old(heap), final(heap), ptr),
        defines(final(heap), ptr, Kind::Type, Some(base)),
{
    tagged_ty(heap, Kind::Type, base)
}

} // verus!
