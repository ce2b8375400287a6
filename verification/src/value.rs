//! Values, types and objects.

use crate::builtins::Builtins;
use crate::error::RuntimeError;
use crate::float::{
    bits_are_zero, bits_from_integer, bits_truncate, converted, is_zero, truncated, Arithmetic,
    Comparison,
};
use crate::frame::{Code, Frame, Function};
use crate::ptr::{Ptr, PtrMut};
use crate::table::Table;
use vstd::prelude::*;

verus! {

/// The operations that a type can fill in for its values.
#[derive(Debug, Clone, Copy, PartialEq, Eq, Structural)]
pub enum Slot {
    Call,
    Add,
    Subtract,
    Multiply,
    Divide,
    Equals,
    NotEquals,
    LessThan,
    GreaterThan,
    LessThanOrEqual,
    GreaterThanOrEqual,
    Display,
    GetProperty,
    SetProperty,
    GetSubscript,
    SetSubscript,
}

/// A type descriptor: a name, the type it derives from, one optional slot
/// for each operation, and the properties shared by its values.
#[derive(Debug)]
pub struct Type {
    pub name: Ptr<String>,
    pub base: Option<Ptr<Type>>,
    pub call: Option<Value>,
    pub add: Option<Value>,
    pub subtract: Option<Value>,
    pub multiply: Option<Value>,
    pub divide: Option<Value>,
    pub equals: Option<Value>,
    pub not_equals: Option<Value>,
    pub less_than: Option<Value>,
    pub greater_than: Option<Value>,
    pub less_than_or_equal: Option<Value>,
    pub greater_than_or_equal: Option<Value>,
    pub display: Option<Value>,
    pub get_property: Option<Value>,
    pub set_property: Option<Value>,
    pub get_subscript: Option<Value>,
    pub set_subscript: Option<Value>,
    pub properties: Table,
}

impl Type {
    /// Every slot of the type is empty and it has no properties.
    pub open spec fn is_bare(&self) -> bool {
        &&& self.call.is_none()
        &&& self.add.is_none()
        &&& self.subtract.is_none()
        &&& self.multiply.is_none()
        &&& self.divide.is_none()
        &&& self.equals.is_none()
        &&& self.not_equals.is_none()
        &&& self.less_than.is_none()
        &&& self.greater_than.is_none()
        &&& self.less_than_or_equal.is_none()
        &&& self.greater_than_or_equal.is_none()
        &&& self.display.is_none()
        &&& self.get_property.is_none()
        &&& self.set_property.is_none()
        &&& self.get_subscript.is_none()
        &&& self.set_subscript.is_none()
        &&& self.properties@ == Map::<Seq<char>, Value>::empty()
    }

    /// A type named `name` that derives from `base`, with every slot empty.
    pub fn new(name: Ptr<String>, base: Ptr<Type>) -> (ty: Self)
        ensures
            ty.name == name,
            ty.base == Some(base),
            ty.is_bare(),
    {
        Self::empty(name, Some(base))
    }

    /// A type named `name` with the base `base`, every slot empty and no
    /// properties.
    fn empty(name: Ptr<String>, base: Option<Ptr<Type>>) -> (ty: Self)
        ensures
            ty.name == name,
            ty.base == base,
            ty.is_bare(),
    {
        Self {
            name,
            base,
            call: None,
            add: None,
            subtract: None,
            multiply: None,
            divide: None,
            display: None,
            get_property: None,
            set_property: None,
            get_subscript: None,
            set_subscript: None,
            less_than_or_equal: None,
            greater_than_or_equal: None,
            greater_than: None,
            less_than: None,
            equals: None,
            not_equals: None,
            properties: Table::new(),
        }
    }

    /// A type named `name` that derives from nothing, with every slot empty.
    pub fn root(name: Ptr<String>) -> (ty: Self)
        ensures
            ty.name == name,
            ty.base.is_none(),
            ty.is_bare(),
    {
        Self::empty(name, None)
    }

    /// What the type itself holds in `slot`.
    #[verifier::when_used_as_spec(spec_slot)]
    pub fn slot(&self, slot: Slot) -> (held: Option<Value>)
        ensures
            held == self.spec_slot(slot),
    {
        match slot {
            Slot::Call => self.call,
            Slot::Add => self.add,
            Slot::Subtract => self.subtract,
            Slot::Multiply => self.multiply,
            Slot::Divide => self.divide,
            Slot::Equals => self.equals,
            Slot::NotEquals => self.not_equals,
            Slot::LessThan => self.less_than,
            Slot::GreaterThan => self.greater_than,
            Slot::LessThanOrEqual => self.less_than_or_equal,
            Slot::GreaterThanOrEqual => self.greater_than_or_equal,
            Slot::Display => self.display,
            Slot::GetProperty => self.get_property,
            Slot::SetProperty => self.set_property,
            Slot::GetSubscript => self.get_subscript,
            Slot::SetSubscript => self.set_subscript,
        }
    }

    /// What the type itself holds in `slot`.
    pub open spec fn spec_slot(&self, slot: Slot) -> Option<Value> {
        match slot {
            Slot::Call => self.call,
            Slot::Add => self.add,
            Slot::Subtract => self.subtract,
            Slot::Multiply => self.multiply,
            Slot::Divide => self.divide,
            Slot::Equals => self.equals,
            Slot::NotEquals => self.not_equals,
            Slot::LessThan => self.less_than,
            Slot::GreaterThan => self.greater_than,
            Slot::LessThanOrEqual => self.less_than_or_equal,
            Slot::GreaterThanOrEqual => self.greater_than_or_equal,
            Slot::Display => self.display,
            Slot::GetProperty => self.get_property,
            Slot::SetProperty => self.set_property,
            Slot::GetSubscript => self.get_subscript,
            Slot::SetSubscript => self.set_subscript,
        }
    }
}

/// An instance of a type, with properties of its own.
#[derive(Debug)]
pub struct Object {
    ty: Ptr<Type>,
    properties: Table,
}

impl Object {
    /// The type of the object.
    pub closed spec fn type_ptr(&self) -> Ptr<Type> {
        self.ty
    }

    /// The properties that the object itself holds.
    pub closed spec fn own_properties(&self) -> Map<Seq<char>, Value> {
        self.properties@
    }

    /// An object of type `ty` with the properties `properties`.
    pub fn new(ty: Ptr<Type>, properties: Table) -> (object: Self)
        ensures
            object.type_ptr() == ty,
            object.own_properties() == properties@,
    {
        Self { ty, properties }
    }

    /// The type of the object.
    pub fn ty(&self) -> (ty: Ptr<Type>)
        ensures
            ty == self.type_ptr(),
    {
        self.ty
    }

    /// The object's own property `name`, if it has one.
    pub fn get_property(&self, name: &String) -> (value: Option<Value>)
        ensures
            value == if self.own_properties().contains_key(name@) {
                Some(self.own_properties()[name@])
            } else {
                None
            },
    {
        self.properties.get(name)
    }

    /// Sets the object's own property `name`.
    pub fn set_property(&mut self, name: String, value: Value)
        ensures
            final(self).own_properties() == old(self).own_properties().insert(name@, value),
            final(self).type_ptr() == old(self).type_ptr(),
    {
        self.properties.insert(name, value);
    }
}

/// The built-in functions, by name.
#[derive(Debug, Clone, Copy, PartialEq, Eq, Structural)]
pub enum NativeFunction {
    Print,
    StringDisplay,
    StringAdd,
    ListDisplay,
    ListGetSubscript,
    ListSetSubscript,
    ListAdd,
    ListPush,
    IntegerDisplay,
    IntegerArithmetic(Arithmetic),
    IntegerComparison(Comparison),
    FloatDisplay,
    FloatArithmetic(Arithmetic),
    FloatComparison(Comparison),
    FunctionDisplay,
    BoolDisplay,
    FrameDisplay,
    NativeDisplay,
    CodeDisplay,
    NullDisplay,
    ObjectDisplay,
    TypeDisplay,
    Equals,
    NotEquals,
    GetProperty,
    SetProperty,
}

impl NativeFunction {
    /// The built-in function calls back into the interpreter, to display
    /// values as their types say.
    pub open spec fn reenters(self) -> bool {
        self == NativeFunction::Print || self == NativeFunction::ListDisplay
    }
}

/// How many arguments a built-in function accepts.
#[derive(Debug, Clone, Copy, PartialEq, Eq, Structural)]
pub enum ArgPattern {
    Any,
    Exact(usize),
    Min(usize),
    Max(usize),
    Range(usize, usize),
}

impl ArgPattern {
    /// The pattern accepts a call with `count` arguments.
    pub open spec fn accepts(self, count: nat) -> bool {
        match self {
            ArgPattern::Any => true,
            ArgPattern::Exact(len) => count == len,
            ArgPattern::Min(min) => count >= min,
            ArgPattern::Max(max) => count <= max,
            ArgPattern::Range(min, max) => min <= count <= max,
        }
    }

    /// Decides whether the pattern accepts a call with `count` arguments.
    pub fn admits(&self, count: usize) -> (accepted: bool)
        ensures
            accepted == self.accepts(count as nat),
    {
        match self {
            ArgPattern::Any => true,
            ArgPattern::Exact(len) => count == *len,
            ArgPattern::Min(min) => count >= *min,
            ArgPattern::Max(max) => count <= *max,
            ArgPattern::Range(min, max) => *min <= count && count <= *max,
        }
    }
}

/// A runtime value. Text, lists, objects, code, frames, functions and types
/// live in the heap and are held by handle, so a value is cheap to copy and
/// two values share what their handles name.
#[derive(Debug, Clone, Copy, PartialEq, Eq)]
pub enum Value {
    Null,
    Object(PtrMut<Object>),
    List(PtrMut<Vec<Value>>),
    String(Ptr<String>),
    Integer(i64),
    /// A binary64 number, held as its IEEE-754 bit pattern.
    Float(u64),
    Bool(bool),
    Code(Ptr<Code>),
    Frame(PtrMut<Frame>),
    Function(Ptr<Function>),
    /// A callable together with the receiver it was looked up on.
    Bound(Ptr<Value>, Ptr<Value>),
    Native(NativeFunction, ArgPattern),
    Type(Ptr<Type>),
}

/// The type of `value`, given the built-in types and the parts of the heap
/// that objects and bound callables live in. A bound callable has the type
/// of the callable; nothing is the type of a value whose handle names
/// nothing there, or of a bound callable that was stored before the callable
/// it wraps.
pub open spec fn type_of(
    value: Value,
    builtins: Builtins,
    objects: Seq<Object>,
    values: Seq<Value>,
) -> Option<Ptr<Type>>
    decreases
        (match value {
            Value::Bound(callable, _) => callable@ + 1,
            _ => 0,
        }),
{
    match value {
        Value::Object(object) => if object.live(objects) {
            Some(objects[object@].type_ptr())
        } else {
            None
        },
        Value::Bound(callable, _) => if !callable.live(values) {
            None
        } else {
            match values[callable@] {
                Value::Bound(inner, _) => if 0 <= inner@ < callable@ {
                    type_of(values[callable@], builtins, objects, values)
                } else {
                    None
                },
                other => type_of(other, builtins, objects, values),
            }
        },
        Value::List(_) => Some(builtins.types.list),
        Value::String(_) => Some(builtins.types.string),
        Value::Float(_) => Some(builtins.types.float),
        Value::Integer(_) => Some(builtins.types.integer),
        Value::Bool(_) => Some(builtins.types.bool),
        Value::Function(_) => Some(builtins.types.function),
        Value::Frame(_) => Some(builtins.types.frame),
        Value::Native(_, _) => Some(builtins.types.native),
        Value::Code(_) => Some(builtins.types.code),
        Value::Null => Some(builtins.types.null),
        Value::Type(_) => Some(builtins.types.ty),
    }
}

impl Value {
    /// The type of the value; see [`type_of`].
    pub fn ty(&self, builtins: &Builtins, objects: &Vec<Object>, values: &Vec<Value>) -> (ty:
        Option<Ptr<Type>>)
        ensures
            ty == type_of(*self, *builtins, objects@, values@),
        decreases
            (match *self {
                Value::Bound(callable, _) => callable@ + 1,
                _ => 0,
            }),
    {
        match self {
            Value::Object(object) => match object.get(objects) {
                Some(object) => Some(object.ty()),
                None => None,
            },
            Value::Bound(callable, _) => match callable.get(values) {
                None => None,
                Some(wrapped) => match wrapped {
                    Value::Bound(inner, _) => if inner.id() < callable.id() {
                        wrapped.ty(builtins, objects, values)
                    } else {
                        None
                    },
                    _ => wrapped.ty(builtins, objects, values),
                },
            },
            Value::List(_) => Some(builtins.types.list),
            Value::String(_) => Some(builtins.types.string),
            Value::Float(_) => Some(builtins.types.float),
            Value::Integer(_) => Some(builtins.types.integer),
            Value::Bool(_) => Some(builtins.types.bool),
            Value::Function(_) => Some(builtins.types.function),
            Value::Frame(_) => Some(builtins.types.frame),
            Value::Native(_, _) => Some(builtins.types.native),
            Value::Code(_) => Some(builtins.types.code),
            Value::Null => Some(builtins.types.null),
            Value::Type(_) => Some(builtins.types.ty),
        }
    }

    /// What the value counts as in a condition: a number counts as true when
    /// it is not zero, and only numbers and booleans count at all.
    pub open spec fn truth(self) -> Option<bool> {
        match self {
            Value::Integer(v) => Some(v != 0),
            Value::Float(bits) => Some(!is_zero(bits)),
            Value::Bool(b) => Some(b),
            _ => None,
        }
    }

    /// The value as a condition.
    pub fn as_bool(&self) -> (truth: Result<bool, RuntimeError>)
        ensures
            truth == match self.truth() {
                Some(b) => Ok::<bool, RuntimeError>(b),
                None => Err(RuntimeError::TypeMismatch),
            },
    {
        match self {
            Value::Integer(v) => Ok(*v != 0),
            Value::Float(bits) => Ok(!bits_are_zero(*bits)),
            Value::Bool(b) => Ok(*b),
            _ => Err(RuntimeError::TypeMismatch),
        }
    }

    /// The list that the value is.
    pub fn list(&self) -> (list: Result<PtrMut<Vec<Value>>, RuntimeError>)
        ensures
            list == match *self {
                Value::List(v) => Ok::<PtrMut<Vec<Value>>, RuntimeError>(v),
                _ => Err(RuntimeError::TypeMismatch),
            },
    {
        match self {
            Value::List(v) => Ok(*v),
            _ => Err(RuntimeError::TypeMismatch),
        }
    }

    /// The text that the value is.
    pub fn string(&self) -> (text: Result<Ptr<String>, RuntimeError>)
        ensures
            text == match *self {
                Value::String(v) => Ok::<Ptr<String>, RuntimeError>(v),
                _ => Err(RuntimeError::TypeMismatch),
            },
    {
        match self {
            Value::String(v) => Ok(*v),
            _ => Err(RuntimeError::TypeMismatch),
        }
    }

    /// The boolean that the value is.
    pub fn bool(&self) -> (b: Result<bool, RuntimeError>)
        ensures
            b == match *self {
                Value::Bool(v) => Ok::<bool, RuntimeError>(v),
                _ => Err(RuntimeError::TypeMismatch),
            },
    {
        match self {
            Value::Bool(v) => Ok(*v),
            _ => Err(RuntimeError::TypeMismatch),
        }
    }

    /// The integer that the value is.
    pub fn integer(&self) -> (i: Result<i64, RuntimeError>)
        ensures
            i == match *self {
                Value::Integer(v) => Ok::<i64, RuntimeError>(v),
                _ => Err(RuntimeError::TypeMismatch),
            },
    {
        match self {
            Value::Integer(v) => Ok(*v),
            _ => Err(RuntimeError::TypeMismatch),
        }
    }

    /// The binary64 number that the value is, as its bit pattern.
    pub fn float(&self) -> (bits: Result<u64, RuntimeError>)
        ensures
            bits == match *self {
                Value::Float(v) => Ok::<u64, RuntimeError>(v),
                _ => Err(RuntimeError::TypeMismatch),
            },
    {
        match self {
            Value::Float(v) => Ok(*v),
            _ => Err(RuntimeError::TypeMismatch),
        }
    }

    /// The value as a binary64 number: a number as it is, an integer as the
    /// nearest binary64 number.
    pub fn as_float(&self) -> (bits: Result<u64, RuntimeError>)
        ensures
            bits == match *self {
                Value::Float(v) => Ok::<u64, RuntimeError>(v),
                Value::Integer(v) => Ok(converted(v) as u64),
                _ => Err(RuntimeError::TypeMismatch),
            },
    {
        match self {
            Value::Integer(v) => Ok(bits_from_integer(*v)),
            Value::Float(v) => Ok(*v),
            _ => Err(RuntimeError::TypeMismatch),
        }
    }

    /// The value as an integer: an integer as it is, a binary64 number as
    /// it truncates.
    pub fn as_int(&self) -> (i: Result<i64, RuntimeError>)
        ensures
            i == match *self {
                Value::Integer(v) => Ok::<i64, RuntimeError>(v),
                Value::Float(v) => Ok(truncated(v) as i64),
                _ => Err(RuntimeError::TypeMismatch),
            },
    {
        match self {
            Value::Integer(v) => Ok(*v),
            Value::Float(v) => Ok(bits_truncate(*v)),
            _ => Err(RuntimeError::TypeMismatch),
        }
    }
}

} // verus!
